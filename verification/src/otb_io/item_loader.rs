//! The item catalogue: what kind of thing each item id stands for.

use crate::otb_io::{
    is_otb_block_end, is_otb_block_start, otb_pass, otb_pass_advances, otb_str,
    otb_str_advances, otb_u16_le, otb_u8, pass_otb_bytes, read_str_otb, read_u16_le_otb,
    read_u8_otb, LoadError, OTB_BLOCK_END, OTB_BLOCK_START,
};
use std::collections::HashMap;
use vstd::prelude::*;

verus! {

broadcast use vstd::std_specs::hash::group_hash_axioms;

/// The attribute that holds the id by which the map file names the item.
pub const ITEM_SERVER_ID_ATTR: u8 = 0x10;

/// The attribute that holds the id by which clients know the item.
pub const ITEM_CLIENT_ID_ATTR: u8 = 0x11;

/// The attribute that holds the name of the item.
pub const ITEM_NAME_ATTR: u8 = 0x12;

/// The attribute of an item that lies above the creatures of its tile.
pub const ITEM_TOP_ORDER: u8 = 0x2B;

/// The kinds of items that the catalogue tells apart.
#[derive(Clone, Copy, Debug, PartialEq, Eq, Structural)]
pub enum ItemType {
    Nothing,
    Ground,
    Container,
    Weapon,
    Ammunition,
    Armor,
    Rune,
    Teleport,
    Magicfield,
    Writeable,
    Key,
    Splash,
    Fluid,
    Last,
}

impl ItemType {
    /// The kind that the catalogue byte `byte` stands for; a byte that
    /// stands for none is read as [`ItemType::Nothing`].
    pub open spec fn spec_from_u8(byte: u8) -> ItemType {
        if byte == 1 {
            ItemType::Ground
        } else if byte == 2 {
            ItemType::Container
        } else if byte == 3 {
            ItemType::Weapon
        } else if byte == 4 {
            ItemType::Ammunition
        } else if byte == 5 {
            ItemType::Armor
        } else if byte == 6 {
            ItemType::Rune
        } else if byte == 7 {
            ItemType::Teleport
        } else if byte == 8 {
            ItemType::Magicfield
        } else if byte == 9 {
            ItemType::Writeable
        } else if byte == 10 {
            ItemType::Key
        } else if byte == 11 {
            ItemType::Splash
        } else if byte == 12 {
            ItemType::Fluid
        } else if byte == 13 {
            ItemType::Last
        } else {
            ItemType::Nothing
        }
    }

    /// Reads a kind from its catalogue byte.
    pub fn from_u8(byte: u8) -> (res: ItemType)
        ensures
            res == ItemType::spec_from_u8(byte),
    {
        match byte {
            0 => ItemType::Nothing,
            1 => ItemType::Ground,
            2 => ItemType::Container,
            3 => ItemType::Weapon,
            4 => ItemType::Ammunition,
            5 => ItemType::Armor,
            6 => ItemType::Rune,
            7 => ItemType::Teleport,
            8 => ItemType::Magicfield,
            9 => ItemType::Writeable,
            10 => ItemType::Key,
            11 => ItemType::Splash,
            12 => ItemType::Fluid,
            13 => ItemType::Last,
            _ => ItemType::Nothing,
        }
    }
}

/// Model of an [`ItemData`].
pub ghost struct ItemDataView {
    pub server_id: u16,
    pub client_id: u16,
    pub item_type: ItemType,
    pub flags: u32,
    pub attributes: Seq<u8>,
    pub item_name: Seq<char>,
    pub top_order: u8,
}

/// One entry of the item catalogue.
#[derive(Debug, PartialEq, Eq)]
pub struct ItemData {
    pub server_id: u16,
    pub client_id: u16,
    pub item_type: ItemType,
    pub flags: u32,
    pub attributes: Vec<u8>,
    pub item_name: String,
    /// Below 255 for an item that lies above the creatures of its tile.
    pub top_order: u8,
}

impl View for ItemData {
    type V = ItemDataView;

    open spec fn view(&self) -> ItemDataView {
        ItemDataView {
            server_id: self.server_id,
            client_id: self.client_id,
            item_type: self.item_type,
            flags: self.flags,
            attributes: self.attributes@,
            item_name: self.item_name@,
            top_order: self.top_order,
        }
    }
}

/// The entry of an item of which nothing is known but the byte that tells
/// its kind: no ids, no name, and a place below the creatures.
pub open spec fn blank_item(type_byte: u8) -> ItemDataView {
    ItemDataView {
        server_id: 0,
        client_id: 0,
        item_type: ItemType::spec_from_u8(type_byte),
        flags: 0,
        attributes: Seq::empty(),
        item_name: Seq::empty(),
        top_order: 255,
    }
}

/// The id at `idx`, with the index behind it: two content bytes that are
/// passed over, then the id as a little-endian `u16`.
pub open spec fn id_behind_length(bytes: Seq<u8>, idx: int) -> Option<(u16, int)> {
    match otb_pass(bytes, idx, 2) {
        Some(next) => otb_u16_le(bytes, next),
        None => None,
    }
}

/// The entry that the attributes from `idx` on make of the entry `acc`, with
/// the index behind the end marker of the block.
///
/// Content bytes are looked at one after the other until an end marker
/// that is not content. A byte that names the server id or the client id
/// is followed, two content bytes further on, by the id as a little-endian
/// `u16`;
/// one that names the name by the name as a string; one that names the top
/// order by the top order as one byte. The first server id, client id and
/// name that are not zero or empty stay; the last top order stays. Any other
/// byte is passed over.
pub open spec fn item_attrs(bytes: Seq<u8>, idx: int, acc: ItemDataView) -> Option<
    (ItemDataView, int),
>
    decreases bytes.len() - idx,
{
    if idx < 0 || idx >= bytes.len() {
        None
    } else if bytes[idx] == OTB_BLOCK_END {
        Some((acc, idx + 1))
    } else {
        match otb_u8(bytes, idx) {
            Some((attr, i1)) => if attr == ITEM_SERVER_ID_ATTR && acc.server_id == 0 {
                match id_behind_length(bytes, i1) {
                    Some((id, i2)) => {
                        proof {
                            otb_pass_advances(bytes, i1, 2);
                        }
                        item_attrs(bytes, i2, ItemDataView { server_id: id, ..acc })
                    },
                    None => None,
                }
            } else if attr == ITEM_CLIENT_ID_ATTR && acc.client_id == 0 {
                match id_behind_length(bytes, i1) {
                    Some((id, i2)) => {
                        proof {
                            otb_pass_advances(bytes, i1, 2);
                        }
                        item_attrs(bytes, i2, ItemDataView { client_id: id, ..acc })
                    },
                    None => None,
                }
            } else if attr == ITEM_NAME_ATTR && acc.item_name.len() == 0 {
                match otb_str(bytes, i1) {
                    Some((name, i2)) => {
                        proof {
                            otb_str_advances(bytes, i1);
                        }
                        item_attrs(bytes, i2, ItemDataView { item_name: name, ..acc })
                    },
                    None => None,
                }
            } else if attr == ITEM_TOP_ORDER {
                match otb_u8(bytes, i1) {
                    Some((order, i2)) => item_attrs(
                        bytes,
                        i2,
                        ItemDataView { top_order: order, ..acc },
                    ),
                    None => None,
                }
            } else {
                item_attrs(bytes, i1, acc)
            },
            None => None,
        }
    }
}

/// The entry that the item block whose content starts at `idx` describes,
/// with the index behind the block: a content byte for the kind, four
/// content bytes that are passed over, then the attributes.
pub open spec fn item_block(bytes: Seq<u8>, idx: int) -> Option<(ItemDataView, int)> {
    match otb_u8(bytes, idx) {
        Some((type_byte, i1)) => match otb_pass(bytes, i1, 4) {
            Some(i2) => item_attrs(bytes, i2, blank_item(type_byte)),
            None => None,
        },
        None => None,
    }
}

/// Reading attributes moves the index forward, at most to the end.
pub proof fn item_attrs_advances(bytes: Seq<u8>, idx: int, acc: ItemDataView)
    ensures
        item_attrs(bytes, idx, acc) matches Some((_, next)) ==> idx < next <= bytes.len(),
    decreases bytes.len() - idx,
{
    if 0 <= idx < bytes.len() && bytes[idx] != OTB_BLOCK_END {
        match otb_u8(bytes, idx) {
            Some((attr, i1)) => if attr == ITEM_SERVER_ID_ATTR && acc.server_id == 0 {
                match id_behind_length(bytes, i1) {
                    Some((id, i2)) => {
                        otb_pass_advances(bytes, i1, 2);
                        item_attrs_advances(bytes, i2, ItemDataView { server_id: id, ..acc });
                    },
                    None => {},
                }
            } else if attr == ITEM_CLIENT_ID_ATTR && acc.client_id == 0 {
                match id_behind_length(bytes, i1) {
                    Some((id, i2)) => {
                        otb_pass_advances(bytes, i1, 2);
                        item_attrs_advances(bytes, i2, ItemDataView { client_id: id, ..acc });
                    },
                    None => {},
                }
            } else if attr == ITEM_NAME_ATTR && acc.item_name.len() == 0 {
                match otb_str(bytes, i1) {
                    Some((name, i2)) => {
                        otb_str_advances(bytes, i1);
                        item_attrs_advances(bytes, i2, ItemDataView { item_name: name, ..acc });
                    },
                    None => {},
                }
            } else if attr == ITEM_TOP_ORDER {
                match otb_u8(bytes, i1) {
                    Some((order, i2)) => {
                        item_attrs_advances(bytes, i2, ItemDataView { top_order: order, ..acc });
                    },
                    None => {},
                }
            } else {
                item_attrs_advances(bytes, i1, acc);
            },
            None => {},
        }
    }
}

/// Reading an item block moves the index forward, at most to the end.
pub proof fn item_block_advances(bytes: Seq<u8>, idx: int)
    ensures
        item_block(bytes, idx) matches Some((_, next)) ==> idx < next <= bytes.len(),
{
    match otb_u8(bytes, idx) {
        Some((type_byte, i1)) => {
            otb_pass_advances(bytes, i1, 4);
            match otb_pass(bytes, i1, 4) {
                Some(i2) => {
                    item_attrs_advances(bytes, i2, blank_item(type_byte));
                },
                None => {},
            }
        },
        None => {},
    }
}

/// Reads the item block whose content starts at `*idx` and moves `*idx`
/// behind the block. Where the file ends before the block does, it fails
/// and leaves `*idx` as it was.
pub fn parse_item_block(idx: &mut usize, bytes: &[u8]) -> (res: Result<ItemData, LoadError>)
    ensures
        match item_block(bytes@, *old(idx) as int) {
            Some((item, next)) => res matches Ok(data) && data@ == item && *final(idx) == next,
            None => res matches Err(e) && e == LoadError::UnexpectedEnd && *final(idx) == *old(idx),
        },
{
    let start: usize = *idx;
    let type_byte: u8 = match read_u8_otb(idx, bytes) {
        Ok(v) => v,
        Err(e) => {
            return Err(e);
        },
    };
    let item_type = ItemType::from_u8(type_byte);
    proof {
        otb_pass_advances(bytes@, *idx as int, 4);
    }
    match pass_otb_bytes(idx, bytes, 4) {
        Ok(_) => {},
        Err(e) => {
            *idx = start;
            return Err(e);
        },
    }
    let mut server_id: u16 = 0;
    let mut client_id: u16 = 0;
    let mut item_name: String = String::new();
    let mut top_order: u8 = 255;
    let ghost whole = item_block(bytes@, start as int);
    loop
        invariant_except_break
            whole == item_attrs(
                bytes@,
                *idx as int,
                ItemDataView {
                    server_id,
                    client_id,
                    item_name: item_name@,
                    top_order,
                    ..blank_item(type_byte)
                },
            ),
        invariant
            *idx <= bytes@.len(),
            bytes.len() == bytes@.len(),
            start == *old(idx),
            whole == item_block(bytes@, start as int),
        ensures
            whole matches Some((item, next)) && *idx == next && item == (ItemDataView {
                server_id,
                client_id,
                item_name: item_name@,
                top_order,
                ..blank_item(type_byte)
            }),
        decreases bytes@.len() - *idx,
    {
        match is_otb_block_end(*idx, bytes) {
            Ok(true) => {
                *idx += 1;
                break ;
            },
            Ok(false) => {},
            Err(e) => {
                *idx = start;
                return Err(e);
            },
        }
        let attr: u8 = match read_u8_otb(idx, bytes) {
            Ok(v) => v,
            Err(e) => {
                *idx = start;
                return Err(e);
            },
        };
        if attr == ITEM_SERVER_ID_ATTR && server_id == 0 {
            proof {
                otb_pass_advances(bytes@, *idx as int, 2);
            }
            match pass_otb_bytes(idx, bytes, 2) {
                Ok(_) => {},
                Err(e) => {
                    *idx = start;
                    return Err(e);
                },
            }
            server_id = match read_u16_le_otb(idx, bytes) {
                Ok(v) => v,
                Err(e) => {
                    *idx = start;
                    return Err(e);
                },
            };
        } else if attr == ITEM_CLIENT_ID_ATTR && client_id == 0 {
            proof {
                otb_pass_advances(bytes@, *idx as int, 2);
            }
            match pass_otb_bytes(idx, bytes, 2) {
                Ok(_) => {},
                Err(e) => {
                    *idx = start;
                    return Err(e);
                },
            }
            client_id = match read_u16_le_otb(idx, bytes) {
                Ok(v) => v,
                Err(e) => {
                    *idx = start;
                    return Err(e);
                },
            };
        } else if attr == ITEM_NAME_ATTR && item_name.as_str().is_empty() {
            proof {
                otb_str_advances(bytes@, *idx as int);
            }
            item_name = match read_str_otb(idx, bytes) {
                Ok(v) => v,
                Err(e) => {
                    *idx = start;
                    return Err(e);
                },
            };
        } else if attr == ITEM_TOP_ORDER {
            top_order = match read_u8_otb(idx, bytes) {
                Ok(v) => v,
                Err(e) => {
                    *idx = start;
                    return Err(e);
                },
            };
        }
    }
    Ok(
        ItemData {
            server_id,
            client_id,
            item_type,
            top_order,
            item_name,
            flags: 0,
            attributes: Vec::new(),
        },
    )
}

/// The index of the first start marker from `idx` on that is not content:
/// content bytes are passed over one after the other until a start marker
/// stands at the index.
pub open spec fn find_start(bytes: Seq<u8>, idx: int) -> Option<int>
    decreases bytes.len() - idx,
{
    if idx < 0 || idx >= bytes.len() {
        None
    } else if bytes[idx] == OTB_BLOCK_START {
        Some(idx)
    } else {
        match otb_u8(bytes, idx) {
            Some((_, next)) => find_start(bytes, next),
            None => None,
        }
    }
}

/// The entries of the item blocks from `idx` on, in file order. Content
/// bytes are looked at one after the other until the file ends or an end
/// marker that is not content ends the block around the items; each start
/// marker that is not content is followed by an item block.
pub open spec fn catalog_entries(bytes: Seq<u8>, idx: int) -> Option<Seq<ItemDataView>>
    decreases bytes.len() - idx,
{
    if idx < 0 {
        None
    } else if idx >= bytes.len() || bytes[idx] == OTB_BLOCK_END {
        Some(Seq::empty())
    } else {
        match otb_u8(bytes, idx) {
            Some((_, i1)) => if bytes[idx] == OTB_BLOCK_START {
                match item_block(bytes, i1) {
                    Some((item, i2)) => {
                        proof {
                            item_block_advances(bytes, i1);
                        }
                        match catalog_entries(bytes, i2) {
                            Some(rest) => Some(seq![item] + rest),
                            None => None,
                        }
                    },
                    None => None,
                }
            } else {
                catalog_entries(bytes, i1)
            },
            None => None,
        }
    }
}

/// The entries of the catalogue file `bytes`, in file order: the item
/// blocks from the first start marker on, that marker included.
pub open spec fn catalog(bytes: Seq<u8>) -> Option<Seq<ItemDataView>> {
    match find_start(bytes, 0) {
        Some(start) => catalog_entries(bytes, start),
        None => None,
    }
}

/// The entries by client id; of two entries with one client id the later
/// one stays.
pub open spec fn items_by_client_id(entries: Seq<ItemDataView>) -> Map<u16, ItemDataView>
    decreases entries.len(),
{
    if entries.len() == 0 {
        Map::empty()
    } else {
        items_by_client_id(entries.drop_last()).insert(entries.last().client_id, entries.last())
    }
}

/// The client id of each server id; of two entries with one server id the
/// later one stays.
pub open spec fn client_id_by_server_id(entries: Seq<ItemDataView>) -> Map<u16, u16>
    decreases entries.len(),
{
    if entries.len() == 0 {
        Map::empty()
    } else {
        client_id_by_server_id(entries.drop_last()).insert(
            entries.last().server_id,
            entries.last().client_id,
        )
    }
}

/// Models of the entries of a catalogue, key by key.
pub open spec fn item_data_view(items: Map<u16, ItemData>) -> Map<u16, ItemDataView> {
    items.map_values(|d: ItemData| d@)
}

/// Reads the catalogue file `bytes`: the entries by client id, and the
/// client id of each server id. It fails where the file ends before the
/// first start marker or inside an item block.
pub fn read_otb_items(bytes: &[u8]) -> (res: Result<
    (HashMap<u16, ItemData>, HashMap<u16, u16>),
    LoadError,
>)
    ensures
        match catalog(bytes@) {
            Some(entries) => res matches Ok((items, ids)) && item_data_view(items@)
                == items_by_client_id(entries) && ids@ == client_id_by_server_id(entries),
            None => res matches Err(e) && e == LoadError::UnexpectedEnd,
        },
{
    let mut items_map: HashMap<u16, ItemData> = HashMap::new();
    let mut server_id_to_client_id: HashMap<u16, u16> = HashMap::new();
    let mut idx: usize = 0;
    loop
        invariant
            idx <= bytes@.len(),
            find_start(bytes@, 0) == find_start(bytes@, idx as int),
        ensures
            idx <= bytes@.len(),
            find_start(bytes@, 0) == Some(idx as int),
        decreases bytes@.len() - idx,
    {
        match is_otb_block_start(idx, bytes) {
            Ok(true) => {
                break ;
            },
            Ok(false) => {},
            Err(e) => {
                return Err(e);
            },
        }
        match read_u8_otb(&mut idx, bytes) {
            Ok(_) => {},
            Err(e) => {
                return Err(e);
            },
        }
    }
    let ghost start = idx as int;
    let ghost done: Seq<ItemDataView> = Seq::empty();
    assert(item_data_view(items_map@) =~= items_by_client_id(done));
    while idx < bytes.len()
        invariant
            idx <= bytes@.len(),
            find_start(bytes@, 0) == Some(start),
            match catalog_entries(bytes@, idx as int) {
                Some(rest) => catalog_entries(bytes@, start) == Some(done + rest),
                None => catalog_entries(bytes@, start) is None,
            },
            item_data_view(items_map@) == items_by_client_id(done),
            server_id_to_client_id@ == client_id_by_server_id(done),
        ensures
            find_start(bytes@, 0) == Some(start),
            catalog_entries(bytes@, start) == Some(done),
            item_data_view(items_map@) == items_by_client_id(done),
            server_id_to_client_id@ == client_id_by_server_id(done),
        decreases bytes@.len() - idx,
    {
        match is_otb_block_end(idx, bytes) {
            Ok(true) => {
                assert(done + Seq::<ItemDataView>::empty() =~= done);
                break ;
            },
            Ok(false) => {},
            Err(e) => {
                return Err(e);
            },
        }
        let opens: bool = match is_otb_block_start(idx, bytes) {
            Ok(v) => v,
            Err(e) => {
                return Err(e);
            },
        };
        match read_u8_otb(&mut idx, bytes) {
            Ok(_) => {},
            Err(e) => {
                return Err(e);
            },
        }
        if opens {
            proof {
                item_block_advances(bytes@, idx as int);
            }
            let item = match parse_item_block(&mut idx, bytes) {
                Ok(v) => v,
                Err(e) => {
                    return Err(e);
                },
            };
            let server_id: u16 = item.server_id;
            let client_id: u16 = item.client_id;
            proof {
                let grown = done.push(item@);
                assert(grown.drop_last() =~= done);
                match catalog_entries(bytes@, idx as int) {
                    Some(rest) => {
                        assert(done + (seq![item@] + rest) =~= grown + rest);
                    },
                    None => {},
                }
                done = grown;
            }
            items_map.insert(client_id, item);
            server_id_to_client_id.insert(server_id, client_id);
            assert(item_data_view(items_map@) =~= items_by_client_id(done));
        }
    }
    proof {
        if idx >= bytes@.len() {
            assert(done + Seq::<ItemDataView>::empty() =~= done);
        }
    }
    Ok((items_map, server_id_to_client_id))
}

} // verus!
