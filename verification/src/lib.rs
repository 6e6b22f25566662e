//! Authoritative core of a tile-based multiplayer game server: the wire
//! protocol codec, the static data loaders, the shared world state and the
//! decision logic of the event handler and of each connection.

pub mod connection;
pub mod creature;
pub mod event_handler;
pub mod item;
pub mod map;
pub mod otb_io;
pub mod payload;

use crate::creature::{characters_view, Character, CharacterView};
use crate::otb_io::item_loader::{item_data_view, ItemData, ItemDataView};
use std::collections::HashMap;
use vstd::prelude::*;

verus! {

/// Model of a [`StaticData`].
pub ghost struct StaticDataView {
    pub item_data: Map<u16, ItemDataView>,
    pub characters: Seq<CharacterView>,
}

/// What is loaded once at startup and never changes: the item catalogue by
/// client id, and the roster of playable characters.
#[derive(Debug)]
pub struct StaticData {
    pub item_data: HashMap<u16, ItemData>,
    pub characters: Vec<Character>,
}

impl View for StaticData {
    type V = StaticDataView;

    open spec fn view(&self) -> StaticDataView {
        StaticDataView {
            item_data: item_data_view(self.item_data@),
            characters: characters_view(self.characters@),
        }
    }
}

} // verus!
