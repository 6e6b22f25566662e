//! Items and the containers they may form by nesting.

use crate::event_handler::{commands_view, Command, CommandView};
use crate::otb_io::map_loader::{otb_item_view_items, OtbMapItem, OtbMapItemView};
use crate::otb_io::LoadError;
use std::collections::HashMap;
use vstd::prelude::*;

verus! {

broadcast use vstd::std_specs::hash::group_hash_axioms;

/// Mathematical model of an [`Item`]: its client-facing type id and the
/// models of the items nested inside it, most recently added first.
pub ghost struct ItemView {
    pub client_id: u16,
    pub items: Seq<ItemView>,
}

/// An item instance: a client-facing type id and, for containers, the items
/// held inside.
#[derive(Debug, PartialEq, Eq)]
pub struct Item {
    pub client_id: u16,
    pub items: Vec<Item>,
}

/// Models of a list of items, element by element.
pub open spec fn items_view(items: Seq<Item>) -> Seq<ItemView>
    decreases items,
{
    Seq::new(
        items.len(),
        |i: int|
            if 0 <= i < items.len() {
                items[i]@
            } else {
                arbitrary()
            },
    )
}

impl View for Item {
    type V = ItemView;

    open spec fn view(&self) -> ItemView
        decreases self,
    {
        ItemView { client_id: self.client_id, items: items_view(self.items@) }
    }
}

/// The model of an item holds as many items as the item, and each is the
/// model of the item in the same place.
pub proof fn item_view_items(item: Item)
    ensures
        item@.client_id == item.client_id,
        item@.items.len() == item.items@.len(),
        forall|i: int| 0 <= i < item.items@.len() ==> item@.items[i] == #[trigger] item.items@[i]@,
{
    reveal_with_fuel(items_view, 2);
    assert(item@.items == items_view(item.items@));
    assert(items_view(item.items@).len() == item.items@.len());
}

impl Clone for Item {
    fn clone(&self) -> (res: Item)
        ensures
            res@ == self@,
        decreases self,
    {
        let mut items: Vec<Item> = Vec::new();
        let mut i: usize = 0;
        while i < self.items.len()
            invariant
                i <= self.items.len(),
                items@.len() == i,
                forall|j: int| 0 <= j < i ==> items@[j]@ == self.items@[j]@,
            decreases self.items.len() - i,
        {
            let inner = self.items[i].clone();
            items.push(inner);
            i += 1;
        }
        assert(items_view(items@) =~= items_view(self.items@));
        Item { client_id: self.client_id, items }
    }
}

/// The item that the item `item` of the map file stands for, given the
/// client id `ids` of each server id: the same tree with each server id
/// turned into its client id. It fails with the first server id, the item's
/// own before those of the items inside it, that `ids` does not know.
pub open spec fn item_from_otb(item: OtbMapItemView, ids: Map<u16, u16>) -> Result<
    ItemView,
    LoadError,
>
    decreases item,
{
    if !ids.contains_key(item.server_id) {
        Err(LoadError::UnknownServerId(item.server_id))
    } else {
        match items_from_otb(item.items, ids) {
            Ok(items) => Ok(ItemView { client_id: ids[item.server_id], items }),
            Err(e) => Err(e),
        }
    }
}

/// The items that the items `items` of the map file stand for, in order.
/// It fails with the first failure among them.
pub open spec fn items_from_otb(items: Seq<OtbMapItemView>, ids: Map<u16, u16>) -> Result<
    Seq<ItemView>,
    LoadError,
>
    decreases items,
{
    if items.len() == 0 {
        Ok(Seq::empty())
    } else {
        match items_from_otb(items.drop_last(), ids) {
            Ok(before) => match item_from_otb(items.last(), ids) {
                Ok(item) => Ok(before.push(item)),
                Err(e) => Err(e),
            },
            Err(e) => Err(e),
        }
    }
}

/// Wire form of a list of items where only their kinds matter: the client
/// id of each, in order, as a little-endian `u16`.
pub open spec fn item_ids_bytes(items: Seq<ItemView>) -> Seq<u8>
    decreases items.len(),
{
    if items.len() == 0 {
        Seq::empty()
    } else {
        item_ids_bytes(items.drop_last()) + crate::payload::u16_le(items.last().client_id)
    }
}

/// Appends the client id of each of `items`, in order.
pub fn push_item_ids(bytes: &mut Vec<u8>, items: &Vec<Item>)
    ensures
        final(bytes)@ == old(bytes)@ + item_ids_bytes(items_view(items@)),
{
    let mut i: usize = 0;
    while i < items.len()
        invariant
            i <= items.len(),
            bytes@ == old(bytes)@ + item_ids_bytes(items_view(items@.subrange(0, i as int))),
        decreases items.len() - i,
    {
        crate::payload::push_u16_le(bytes, items[i].client_id);
        proof {
            let done = items_view(items@.subrange(0, i as int));
            let next = items_view(items@.subrange(0, i + 1));
            assert(next.drop_last() =~= done);
            assert(next.last() == items@[i as int]@);
            assert(bytes@ =~= old(bytes)@ + item_ids_bytes(next));
        }
        i += 1;
    }
    assert(items@.subrange(0, i as int) =~= items@);
}

impl Item {
    /// Builds the item that an item of the map file stands for.
    pub fn from_otb_map_item(otb_item: &OtbMapItem, server_id_to_client_id: &HashMap<u16, u16>) -> (res:
        Result<Item, LoadError>)
        ensures
            match item_from_otb(otb_item@, server_id_to_client_id@) {
                Ok(item) => res matches Ok(it) && it@ == item,
                Err(e) => res matches Err(err) && err == e,
            },
        decreases otb_item,
    {
        let client_id: u16 = match server_id_to_client_id.get(&otb_item.server_id) {
            Some(id) => *id,
            None => {
                return Err(LoadError::UnknownServerId(otb_item.server_id));
            },
        };
        let ghost all = otb_item@.items;
        let ghost ids = server_id_to_client_id@;
        let mut items: Vec<Item> = Vec::new();
        let mut i: usize = 0;
        proof {
            otb_item_view_items(*otb_item);
        }
        assert(all.subrange(0, 0) =~= Seq::<OtbMapItemView>::empty());
        assert(items_view(items@) =~= Seq::<ItemView>::empty());
        while i < otb_item.items.len()
            invariant
                i <= otb_item.items@.len(),
                all == otb_item@.items,
                all.len() == otb_item.items@.len(),
                forall|j: int|
                    0 <= j < otb_item.items@.len() ==> all[j] == #[trigger] otb_item.items@[j]@,
                ids == server_id_to_client_id@,
                ids.contains_key(otb_item@.server_id),
                ids[otb_item@.server_id] == client_id,
                items_from_otb(all.subrange(0, i as int), ids) == Ok::<Seq<ItemView>, LoadError>(
                    items_view(items@),
                ),
            decreases otb_item.items.len() - i,
        {
            proof {
                assert(all.subrange(0, i + 1).drop_last() =~= all.subrange(0, i as int));
                assert(all.subrange(0, i + 1).last() == otb_item.items@[i as int]@);
                Self::items_from_otb_fails_on(all, i + 1, ids);
            }
            let inner = match Item::from_otb_map_item(&otb_item.items[i], server_id_to_client_id) {
                Ok(v) => v,
                Err(e) => {
                    return Err(e);
                },
            };
            let ghost before = items_view(items@);
            items.push(inner);
            assert(items_view(items@) =~= before.push(inner@));
            i += 1;
        }
        assert(all.subrange(0, i as int) =~= all);
        Ok(Item { client_id, items })
    }

    /// A list of items fails as soon as one of its beginnings does, and in
    /// the same way.
    proof fn items_from_otb_fails_on(items: Seq<OtbMapItemView>, n: int, ids: Map<u16, u16>)
        requires
            0 <= n <= items.len(),
        ensures
            items_from_otb(items.subrange(0, n), ids) is Err ==> items_from_otb(items, ids)
                == items_from_otb(items.subrange(0, n), ids),
        decreases items.len() - n,
    {
        if n < items.len() {
            assert(items.subrange(0, n + 1).drop_last() =~= items.subrange(0, n));
            Self::items_from_otb_fails_on(items, n + 1, ids);
        } else {
            assert(items.subrange(0, n) =~= items);
        }
    }

    /// Puts `item` in front of the items already held, so that the most
    /// recently added item comes first.
    pub fn add_item(&mut self, item: Item)
        ensures
            final(self)@.client_id == old(self)@.client_id,
            final(self)@.items == seq![item@] + old(self)@.items,
    {
        self.items.insert(0, item);
        assert(items_view(self.items@) =~= seq![item@] + items_view(old(self).items@));
    }

    /// Takes out the item held in `slot`, counted from zero. Nothing
    /// changes where the slot holds nothing.
    pub fn remove_item(&mut self, slot: usize) -> (item: Option<Item>)
        ensures
            final(self)@.client_id == old(self)@.client_id,
            match item {
                Some(it) => slot < old(self)@.items.len() && it@ == old(self)@.items[slot as int]
                    && final(self)@.items == old(self)@.items.remove(slot as int),
                None => slot >= old(self)@.items.len() && final(self)@.items == old(self)@.items,
            },
    {
        proof {
            item_view_items(*self);
        }
        if slot < self.items.len() {
            let item = self.items.remove(slot);
            assert(items_view(self.items@) =~= items_view(old(self).items@).remove(slot as int));
            Some(item)
        } else {
            None
        }
    }
}

/// The kind that an item of kind `item_id` turns into when it is used: a
/// closed door opens and an open one closes, a switch goes over to its other
/// side. Other kinds do not react.
pub open spec fn toggled_kind(item_id: u16) -> Option<u16> {
    if item_id == 1644 {
        Some(1645u16)
    } else if item_id == 1645 {
        Some(1644u16)
    } else if item_id == 2772 {
        Some(2773u16)
    } else if item_id == 2773 {
        Some(2772u16)
    } else {
        None
    }
}

/// What using an item of kind `item_id` at `stack_pos` of `pos` asks the
/// event handler to do.
pub open spec fn item_action_commands(item_id: u16, pos: (u16, u16, u8), stack_pos: u8) -> Seq<
    CommandView,
> {
    match toggled_kind(item_id) {
        Some(to_item_id) => seq![
            CommandView::TransformThing { pos, stack_pos, from_item_id: item_id, to_item_id },
        ],
        None => Seq::empty(),
    }
}

/// Computes the kind that an item of kind `item_id` turns into when used.
pub fn toggle_kind(item_id: u16) -> (res: Option<u16>)
    ensures
        res == toggled_kind(item_id),
{
    match item_id {
        1644 => Some(1645),
        1645 => Some(1644),
        2772 => Some(2773),
        2773 => Some(2772),
        _ => None,
    }
}

/// The behaviour of items of kind `item_id`: a function from the place of
/// the used item (position, stack position; its third argument is not
/// looked at) to the commands that follow from using it.
pub fn get_item_action(item_id: &u16) -> (action: impl Fn((u16, u16, u8), u8, u16) -> Vec<Command>)
    ensures
        forall|pos: (u16, u16, u8), stack_pos: u8, id: u16|
            action.requires((pos, stack_pos, id)),
        forall|pos: (u16, u16, u8), stack_pos: u8, id: u16, out: Vec<Command>|
            action.ensures((pos, stack_pos, id), out) ==> commands_view(out@)
                == item_action_commands(*item_id, pos, stack_pos),
{
    let kind: u16 = *item_id;
    move |pos: (u16, u16, u8), stack_pos: u8, _id: u16| -> (out: Vec<Command>)
        ensures
            commands_view(out@) == item_action_commands(kind, pos, stack_pos),
        {
            let mut out: Vec<Command> = Vec::new();
            match toggle_kind(kind) {
                Some(to_item_id) => {
                    out.push(
                        Command::TransformThing { pos, stack_pos, from_item_id: kind, to_item_id },
                    );
                },
                None => {},
            }
            assert(commands_view(out@) =~= item_action_commands(kind, pos, stack_pos));
            out
        }
}

} // verus!
