//! The authoritative actor: what each command does to the world and which
//! connections hear of it.

use crate::connection::{Container, ContainerView, State};
use crate::creature::{Creature, CreatureView};
use crate::item::{get_item_action, item_action_commands, Item, ItemView};
use crate::map::{
    container_handle_of, creature_stack_pos_code, find_creature, last_creature_index,
    parse_address, stack_pos_code, Address, Direction, Thing, TileView, OFF_MAP,
};
use crate::otb_io::item_loader::ItemType;
use crate::{StaticData, StaticDataView};
use vstd::prelude::*;

verus! {

broadcast use vstd::std_specs::hash::group_hash_axioms;

/// Model of a [`Command`].
pub ghost enum CommandView {
    PutCreature { pos: (u16, u16, u8), creature: CreatureView },
    AddNewConnection { connection_id: u32 },
    MoveCreature { from: (u16, u16, u8), to: (u16, u16, u8), direction: Direction, creature_id: u32 },
    TurnCreature { pos: (u16, u16, u8), creature_id: u32, direction: Direction },
    EnterGame { character_creature: CreatureView, pos: (u16, u16, u8) },
    Logout { sender_id: u32 },
    MoveItem { from: (u16, u16, u8), to: (u16, u16, u8), stack_pos: u8, item: ItemView, count: u8 },
    UseItem { sender_id: u32, pos: (u16, u16, u8), stack_pos: u8, item: ItemView, index: u8 },
    UseItemOnTarget {
        pos: (u16, u16, u8),
        stack_pos: u8,
        item: ItemView,
        target_pos: (u16, u16, u8),
        target_stack_pos: u8,
    },
    AddToContainer { item: ItemView, sender_id: u32, slot: u8, container: ContainerView },
    RemoveItemFromContainer { pos: (u16, u16, u8), stack_pos: u8, slot: u8, sender_id: u32 },
    TransformThing { pos: (u16, u16, u8), stack_pos: u8, from_item_id: u16, to_item_id: u16 },
    CreatureSpeech {
        pos: (u16, u16, u8),
        text: Seq<char>,
        creature_name: Seq<char>,
        speech_type: u8,
    },
}

/// What a client or the server itself asks the event handler to do.
#[derive(Debug, PartialEq, Eq)]
pub enum Command {
    PutCreature { pos: (u16, u16, u8), creature: Creature },
    AddNewConnection { connection_id: u32 },
    MoveCreature { from: (u16, u16, u8), to: (u16, u16, u8), direction: Direction, creature_id: u32 },
    TurnCreature { pos: (u16, u16, u8), creature_id: u32, direction: Direction },
    EnterGame { character_creature: Creature, pos: (u16, u16, u8) },
    Logout { sender_id: u32 },
    MoveItem { from: (u16, u16, u8), to: (u16, u16, u8), stack_pos: u8, item: Item, count: u8 },
    UseItem { sender_id: u32, pos: (u16, u16, u8), stack_pos: u8, item: Item, index: u8 },
    UseItemOnTarget {
        pos: (u16, u16, u8),
        stack_pos: u8,
        item: Item,
        target_pos: (u16, u16, u8),
        target_stack_pos: u8,
    },
    AddToContainer { item: Item, sender_id: u32, slot: u8, container: Container },
    RemoveItemFromContainer { pos: (u16, u16, u8), stack_pos: u8, slot: u8, sender_id: u32 },
    TransformThing { pos: (u16, u16, u8), stack_pos: u8, from_item_id: u16, to_item_id: u16 },
    CreatureSpeech { pos: (u16, u16, u8), text: String, creature_name: String, speech_type: u8 },
}

impl View for Command {
    type V = CommandView;

    open spec fn view(&self) -> CommandView {
        match *self {
            Command::PutCreature { pos, creature } => CommandView::PutCreature {
                pos,
                creature: creature@,
            },
            Command::AddNewConnection { connection_id } => CommandView::AddNewConnection {
                connection_id,
            },
            Command::MoveCreature { from, to, direction, creature_id } => CommandView::MoveCreature {
                from,
                to,
                direction,
                creature_id,
            },
            Command::TurnCreature { pos, creature_id, direction } => CommandView::TurnCreature {
                pos,
                creature_id,
                direction,
            },
            Command::EnterGame { character_creature, pos } => CommandView::EnterGame {
                character_creature: character_creature@,
                pos,
            },
            Command::Logout { sender_id } => CommandView::Logout { sender_id },
            Command::MoveItem { from, to, stack_pos, item, count } => CommandView::MoveItem {
                from,
                to,
                stack_pos,
                item: item@,
                count,
            },
            Command::UseItem { sender_id, pos, stack_pos, item, index } => CommandView::UseItem {
                sender_id,
                pos,
                stack_pos,
                item: item@,
                index,
            },
            Command::UseItemOnTarget {
                pos,
                stack_pos,
                item,
                target_pos,
                target_stack_pos,
            } => CommandView::UseItemOnTarget {
                pos,
                stack_pos,
                item: item@,
                target_pos,
                target_stack_pos,
            },
            Command::AddToContainer { item, sender_id, slot, container } => CommandView::AddToContainer {
                item: item@,
                sender_id,
                slot,
                container: container@,
            },
            Command::RemoveItemFromContainer {
                pos,
                stack_pos,
                slot,
                sender_id,
            } => CommandView::RemoveItemFromContainer { pos, stack_pos, slot, sender_id },
            Command::TransformThing {
                pos,
                stack_pos,
                from_item_id,
                to_item_id,
            } => CommandView::TransformThing { pos, stack_pos, from_item_id, to_item_id },
            Command::CreatureSpeech {
                pos,
                text,
                creature_name,
                speech_type,
            } => CommandView::CreatureSpeech {
                pos,
                text: text@,
                creature_name: creature_name@,
                speech_type,
            },
        }
    }
}

/// Models of a list of commands, element by element.
pub open spec fn commands_view(commands: Seq<Command>) -> Seq<CommandView> {
    Seq::new(commands.len(), |i: int| commands[i]@)
}

/// Model of a [`ServerEvent`].
pub ghost enum ServerEventView {
    CreatureAdded { pos: (u16, u16, u8), creature: CreatureView },
    CreatureMoved {
        from: (u16, u16, u8),
        to: (u16, u16, u8),
        stack_pos: u8,
        creature_id: u32,
        direction: Direction,
    },
    CreatureRemoved { pos: (u16, u16, u8), stack_pos: u8 },
    ItemMoved { from: (u16, u16, u8), to: (u16, u16, u8), stack_pos: u8, item_id: u16 },
    EnterGame,
    OpenContainer {
        pos: (u16, u16, u8),
        stack_pos: u8,
        index: u8,
        item: ItemView,
        name: Seq<char>,
        parent_id: Option<u8>,
        capacity: u8,
    },
    AddedToContainer { pos: (u16, u16, u8), stack_pos: u8, item: ItemView },
    RemovedFromContainer { pos: (u16, u16, u8), stack_pos: u8, slot: u8 },
    ThingTransformed { pos: (u16, u16, u8), stack_pos: u8, to_item_id: u16 },
    CreatureSpoke {
        pos: (u16, u16, u8),
        text: Seq<char>,
        creature_name: Seq<char>,
        speech_type: u8,
    },
    CreatureTurned { pos: (u16, u16, u8), stack_pos: u8, direction: Direction, creature_id: u32 },
}

/// What the event handler tells connections about a change of the world.
#[derive(Debug, PartialEq, Eq)]
pub enum ServerEvent {
    CreatureAdded { pos: (u16, u16, u8), creature: Creature },
    CreatureMoved {
        from: (u16, u16, u8),
        to: (u16, u16, u8),
        stack_pos: u8,
        creature_id: u32,
        direction: Direction,
    },
    CreatureRemoved { pos: (u16, u16, u8), stack_pos: u8 },
    ItemMoved { from: (u16, u16, u8), to: (u16, u16, u8), stack_pos: u8, item_id: u16 },
    EnterGame,
    OpenContainer {
        pos: (u16, u16, u8),
        stack_pos: u8,
        index: u8,
        item: Item,
        name: String,
        parent_id: Option<u8>,
        capacity: u8,
    },
    AddedToContainer { pos: (u16, u16, u8), stack_pos: u8, item: Item },
    RemovedFromContainer { pos: (u16, u16, u8), stack_pos: u8, slot: u8 },
    ThingTransformed { pos: (u16, u16, u8), stack_pos: u8, to_item_id: u16 },
    CreatureSpoke { pos: (u16, u16, u8), text: String, creature_name: String, speech_type: u8 },
    CreatureTurned { pos: (u16, u16, u8), stack_pos: u8, direction: Direction, creature_id: u32 },
}

impl View for ServerEvent {
    type V = ServerEventView;

    open spec fn view(&self) -> ServerEventView {
        match *self {
            ServerEvent::CreatureAdded { pos, creature } => ServerEventView::CreatureAdded {
                pos,
                creature: creature@,
            },
            ServerEvent::CreatureMoved {
                from,
                to,
                stack_pos,
                creature_id,
                direction,
            } => ServerEventView::CreatureMoved { from, to, stack_pos, creature_id, direction },
            ServerEvent::CreatureRemoved { pos, stack_pos } => ServerEventView::CreatureRemoved {
                pos,
                stack_pos,
            },
            ServerEvent::ItemMoved { from, to, stack_pos, item_id } => ServerEventView::ItemMoved {
                from,
                to,
                stack_pos,
                item_id,
            },
            ServerEvent::EnterGame => ServerEventView::EnterGame,
            ServerEvent::OpenContainer {
                pos,
                stack_pos,
                index,
                item,
                name,
                parent_id,
                capacity,
            } => ServerEventView::OpenContainer {
                pos,
                stack_pos,
                index,
                item: item@,
                name: name@,
                parent_id,
                capacity,
            },
            ServerEvent::AddedToContainer { pos, stack_pos, item } => ServerEventView::AddedToContainer {
                pos,
                stack_pos,
                item: item@,
            },
            ServerEvent::RemovedFromContainer {
                pos,
                stack_pos,
                slot,
            } => ServerEventView::RemovedFromContainer { pos, stack_pos, slot },
            ServerEvent::ThingTransformed {
                pos,
                stack_pos,
                to_item_id,
            } => ServerEventView::ThingTransformed { pos, stack_pos, to_item_id },
            ServerEvent::CreatureSpoke {
                pos,
                text,
                creature_name,
                speech_type,
            } => ServerEventView::CreatureSpoke {
                pos,
                text: text@,
                creature_name: creature_name@,
                speech_type,
            },
            ServerEvent::CreatureTurned {
                pos,
                stack_pos,
                direction,
                creature_id,
            } => ServerEventView::CreatureTurned { pos, stack_pos, direction, creature_id },
        }
    }
}

/// Model of an optional event.
pub open spec fn opt_event_view(event: Option<ServerEvent>) -> Option<ServerEventView> {
    match event {
        Some(e) => Some(e@),
        None => None,
    }
}

/// What the event handler remembers of one connection: its id and the
/// position at which its player was last known to be.
#[derive(Clone, Copy, Debug, PartialEq, Eq)]
pub struct ConnectionRecord {
    pub id: u32,
    pub pos: (u16, u16, u8),
}

/// The position recorded for the first connection with `id`.
pub open spec fn position_of(records: Seq<ConnectionRecord>, id: u32) -> Option<(u16, u16, u8)>
    decreases records.len(),
{
    if records.len() == 0 {
        None
    } else {
        match position_of(records.drop_last(), id) {
            Some(pos) => Some(pos),
            None => if records.last().id == id {
                Some(records.last().pos)
            } else {
                None
            },
        }
    }
}

/// The records with `pos` recorded for every connection with `id`.
pub open spec fn with_position(records: Seq<ConnectionRecord>, id: u32, pos: (u16, u16, u8)) -> Seq<
    ConnectionRecord,
> {
    Seq::new(
        records.len(),
        |i: int|
            if records[i].id == id {
                ConnectionRecord { id, pos }
            } else {
                records[i]
            },
    )
}

/// The records without those of the connection `id`.
pub open spec fn without_connection(records: Seq<ConnectionRecord>, id: u32) -> Seq<
    ConnectionRecord,
>
    decreases records.len(),
{
    if records.len() == 0 {
        Seq::empty()
    } else if records.last().id == id {
        without_connection(records.drop_last(), id)
    } else {
        without_connection(records.drop_last(), id).push(records.last())
    }
}

/// The records after the connection `id` has been registered: a connection
/// starts at the origin, and one that registers again starts there again.
pub open spec fn with_connection(records: Seq<ConnectionRecord>, id: u32) -> Seq<ConnectionRecord> {
    if position_of(records, id) is Some {
        with_position(records, id, (0, 0, 0))
    } else {
        records.push(ConnectionRecord { id, pos: (0, 0, 0) })
    }
}

/// Whether something at `event_pos` concerns a player at `pos`: both
/// horizontal distances are below nine. Floors are not compared.
pub open spec fn in_interest_range(pos: (u16, u16, u8), event_pos: (u16, u16, u8)) -> bool {
    -9 < pos.0 - event_pos.0 < 9 && -9 < pos.1 - event_pos.1 < 9
}

/// The connections that hear of an event at `event_pos`, in the order of
/// their records: those within range, but for the excluded one.
pub open spec fn recipients(
    records: Seq<ConnectionRecord>,
    event_pos: (u16, u16, u8),
    excluded: Option<u32>,
) -> Seq<u32>
    decreases records.len(),
{
    if records.len() == 0 {
        Seq::empty()
    } else {
        let before = recipients(records.drop_last(), event_pos, excluded);
        let last = records.last();
        if in_interest_range(last.pos, event_pos) && excluded != Some(last.id) {
            before.push(last.id)
        } else {
            before
        }
    }
}

/// A connection hears of an event exactly if it is recorded within range
/// of the event and is not the excluded one.
pub proof fn recipients_are_those_in_range(
    records: Seq<ConnectionRecord>,
    event_pos: (u16, u16, u8),
    excluded: Option<u32>,
    id: u32,
)
    ensures
        recipients(records, event_pos, excluded).contains(id) <==> excluded != Some(id) && exists|
            i: int,
        |
            0 <= i < records.len() && records[i].id == id && in_interest_range(
                #[trigger] records[i].pos,
                event_pos,
            ),
    decreases records.len(),
{
    if records.len() > 0 {
        let before = records.drop_last();
        recipients_are_those_in_range(before, event_pos, excluded, id);
        let last = records.last();
        let all = recipients(records, event_pos, excluded);
        let prev = recipients(before, event_pos, excluded);
        if in_interest_range(last.pos, event_pos) && excluded != Some(last.id) {
            assert(all == prev.push(last.id));
            assert(all.last() == last.id);
            assert forall|k: int| 0 <= k < prev.len() implies all[k] == prev[k] by {}
            if prev.contains(id) {
                let k = choose|k: int| 0 <= k < prev.len() && prev[k] == id;
                assert(all[k] == id);
            }
            if last.id == id {
                assert(all[all.len() - 1] == id);
                assert(records[records.len() - 1].id == id);
            }
        }
        if recipients(records, event_pos, excluded).contains(id) {
            if !prev.contains(id) {
                assert(last.id == id && in_interest_range(last.pos, event_pos));
                assert(records[records.len() - 1] == last);
            } else {
                let i = choose|i: int|
                    0 <= i < before.len() && before[i].id == id && in_interest_range(
                        #[trigger] before[i].pos,
                        event_pos,
                    );
                assert(records[i] == before[i]);
            }
        }
        if excluded != Some(id) && exists|i: int|
            0 <= i < records.len() && records[i].id == id && in_interest_range(
                #[trigger] records[i].pos,
                event_pos,
            ) {
            let i = choose|i: int|
                0 <= i < records.len() && records[i].id == id && in_interest_range(
                    #[trigger] records[i].pos,
                    event_pos,
                );
            if i < before.len() {
                assert(before[i] == records[i]);
                assert(prev.contains(id));
            }
        }
    }
}

/// Whether no two of the records are of one connection.
pub open spec fn unique_ids(records: Seq<ConnectionRecord>) -> bool {
    forall|i: int, j: int| 0 <= i < j < records.len() ==> records[i].id != records[j].id
}

/// A connection has no recorded position exactly if none of the records is
/// its own.
pub proof fn position_of_unknown(records: Seq<ConnectionRecord>, id: u32)
    ensures
        position_of(records, id) is None <==> forall|i: int|
            0 <= i < records.len() ==> (#[trigger] records[i]).id != id,
    decreases records.len(),
{
    if records.len() > 0 {
        let before = records.drop_last();
        position_of_unknown(before, id);
        assert forall|i: int| 0 <= i < before.len() implies before[i] == records[i] by {}
        if position_of(records, id) is None {
            assert forall|i: int| 0 <= i < records.len() implies (#[trigger] records[i]).id
                != id by {
                if i < before.len() {
                    assert(before[i].id != id);
                }
            }
        } else if position_of(before, id) is Some {
            let i = choose|i: int| 0 <= i < before.len() && (#[trigger] before[i]).id == id;
            assert(records[i].id == id);
        } else {
            assert(records[records.len() - 1].id == id);
        }
    }
}

/// Forgetting a connection leaves records that were there before, and
/// leaves no connection with two records that had one.
pub proof fn without_connection_keeps(records: Seq<ConnectionRecord>, id: u32)
    ensures
        forall|k: int|
            0 <= k < without_connection(records, id).len() ==> exists|i: int|
                0 <= i < records.len() && records[i] == #[trigger] without_connection(
                    records,
                    id,
                )[k],
        unique_ids(records) ==> unique_ids(without_connection(records, id)),
    decreases records.len(),
{
    if records.len() > 0 {
        let before = records.drop_last();
        let last = records.last();
        let kept = without_connection(before, id);
        let all = without_connection(records, id);
        without_connection_keeps(before, id);
        assert forall|k: int| 0 <= k < all.len() implies exists|i: int|
            0 <= i < records.len() && records[i] == #[trigger] all[k] by {
            if k < kept.len() {
                let i = choose|i: int| 0 <= i < before.len() && before[i] == kept[k];
                assert(records[i] == all[k]);
            } else {
                assert(records[records.len() - 1] == all[k]);
            }
        }
        if unique_ids(records) {
            assert(unique_ids(before)) by {
                assert forall|i: int, j: int| 0 <= i < j < before.len() implies before[i].id
                    != before[j].id by {
                    assert(before[i] == records[i] && before[j] == records[j]);
                }
            }
            assert forall|i: int, j: int| 0 <= i < j < all.len() implies all[i].id
                != all[j].id by {
                if j < kept.len() {
                    assert(all[i] == kept[i] && all[j] == kept[j]);
                } else {
                    let m = choose|m: int| 0 <= m < before.len() && before[m] == kept[i];
                    assert(records[m] == all[i]);
                    assert(records[records.len() - 1] == all[j]);
                }
            }
        }
    }
}

/// Where no connection has two records, no connection is named twice among
/// those that hear of an event.
pub proof fn recipients_occur_once(
    records: Seq<ConnectionRecord>,
    event_pos: (u16, u16, u8),
    excluded: Option<u32>,
)
    requires
        unique_ids(records),
    ensures
        recipients(records, event_pos, excluded).no_duplicates(),
    decreases records.len(),
{
    if records.len() > 0 {
        let before = records.drop_last();
        let last = records.last();
        let prev = recipients(before, event_pos, excluded);
        let all = recipients(records, event_pos, excluded);
        assert(unique_ids(before)) by {
            assert forall|i: int, j: int| 0 <= i < j < before.len() implies before[i].id
                != before[j].id by {
                assert(before[i] == records[i] && before[j] == records[j]);
            }
        }
        recipients_occur_once(before, event_pos, excluded);
        if in_interest_range(last.pos, event_pos) && excluded != Some(last.id) {
            recipients_are_those_in_range(before, event_pos, excluded, last.id);
            if prev.contains(last.id) {
                let i = choose|i: int|
                    0 <= i < before.len() && before[i].id == last.id && in_interest_range(
                        #[trigger] before[i].pos,
                        event_pos,
                    );
                assert(records[i].id == records[records.len() - 1].id);
            }
            assert forall|i: int, j: int|
                0 <= i < all.len() && 0 <= j < all.len() && i != j implies all[i] != all[j] by {
                if i < prev.len() && j < prev.len() {
                    assert(all[i] == prev[i] && all[j] == prev[j]);
                } else if i < prev.len() {
                    assert(all[i] == prev[i]);
                    assert(prev.contains(prev[i]));
                } else {
                    assert(all[j] == prev[j]);
                    assert(prev.contains(prev[j]));
                }
            }
        }
    }
}

/// The connections that the event handler knows, in the order in which they
/// registered. The order of the records is the order in which the
/// connections hear of an event.
#[derive(Debug)]
pub struct Connections {
    pub records: Vec<ConnectionRecord>,
}

impl View for Connections {
    type V = Seq<ConnectionRecord>;

    open spec fn view(&self) -> Seq<ConnectionRecord> {
        self.records@
    }
}

/// Tells whether something at `event_pos` concerns a player at `pos`.
pub fn is_in_interest_range(pos: (u16, u16, u8), event_pos: (u16, u16, u8)) -> (res: bool)
    ensures
        res == in_interest_range(pos, event_pos),
{
    let dx: u16 = if pos.0 >= event_pos.0 {
        pos.0 - event_pos.0
    } else {
        event_pos.0 - pos.0
    };
    let dy: u16 = if pos.1 >= event_pos.1 {
        pos.1 - event_pos.1
    } else {
        event_pos.1 - pos.1
    };
    dx < 9 && dy < 9
}

impl Connections {
    /// Whether the registry is well formed: no connection has two records.
    pub open spec fn wf(&self) -> bool {
        unique_ids(self@)
    }

    /// A registry without connections.
    pub fn new() -> (res: Connections)
        ensures
            res.wf(),
            res@ == Seq::<ConnectionRecord>::empty(),
    {
        Connections { records: Vec::new() }
    }

    /// The position recorded for the connection `id`, if it is known.
    pub fn position(&self, id: u32) -> (res: Option<(u16, u16, u8)>)
        ensures
            res == position_of(self@, id),
    {
        let mut i: usize = 0;
        assert(self@.subrange(0, 0) =~= Seq::<ConnectionRecord>::empty());
        while i < self.records.len()
            invariant
                i <= self.records@.len(),
                position_of(self@.subrange(0, i as int), id) == None::<(u16, u16, u8)>,
            decreases self.records.len() - i,
        {
            proof {
                let next = self@.subrange(0, i + 1);
                assert(next.drop_last() =~= self@.subrange(0, i as int));
            }
            if self.records[i].id == id {
                proof {
                    Self::position_keeps(self@, i + 1, id);
                }
                return Some(self.records[i].pos);
            }
            i += 1;
        }
        assert(self@.subrange(0, i as int) =~= self@);
        None
    }

    proof fn position_keeps(records: Seq<ConnectionRecord>, n: int, id: u32)
        requires
            0 <= n <= records.len(),
            position_of(records.subrange(0, n), id) is Some,
        ensures
            position_of(records, id) == position_of(records.subrange(0, n), id),
        decreases records.len() - n,
    {
        if n < records.len() {
            assert(records.subrange(0, n + 1).drop_last() =~= records.subrange(0, n));
            Self::position_keeps(records, n + 1, id);
        } else {
            assert(records.subrange(0, n) =~= records);
        }
    }

    /// Records `pos` for the connection `id`; nothing changes if it is not
    /// known.
    pub fn set_position(&mut self, id: u32, pos: (u16, u16, u8))
        ensures
            old(self).wf() ==> final(self).wf(),
            final(self)@ == with_position(old(self)@, id, pos),
    {
        let mut i: usize = 0;
        while i < self.records.len()
            invariant
                i <= self.records@.len(),
                self.records@.len() == old(self)@.len(),
                forall|j: int| 0 <= j < i ==> self@[j] == with_position(old(self)@, id, pos)[j],
                forall|j: int| i <= j < self@.len() ==> self@[j] == old(self)@[j],
            decreases self.records.len() - i,
        {
            let ghost before = self@;
            if self.records[i].id == id {
                self.records[i] = ConnectionRecord { id, pos };
                assert(self@ == before.update(i as int, ConnectionRecord { id, pos }));
            }
            assert(self@[i as int] == with_position(old(self)@, id, pos)[i as int]);
            i += 1;
        }
        assert(self@ =~= with_position(old(self)@, id, pos));
        assert(forall|j: int| 0 <= j < self@.len() ==> self@[j].id == old(self)@[j].id);
    }

    /// Forgets the connection `id` and tells where it was last recorded.
    pub fn remove(&mut self, id: u32) -> (res: Option<(u16, u16, u8)>)
        ensures
            old(self).wf() ==> final(self).wf(),
            res == position_of(old(self)@, id),
            final(self)@ == without_connection(old(self)@, id),
    {
        let res = self.position(id);
        let mut kept: Vec<ConnectionRecord> = Vec::new();
        let mut i: usize = 0;
        assert(self@.subrange(0, 0) =~= Seq::<ConnectionRecord>::empty());
        while i < self.records.len()
            invariant
                i <= self.records@.len(),
                self@ == old(self)@,
                kept@ == without_connection(self@.subrange(0, i as int), id),
            decreases self.records.len() - i,
        {
            proof {
                let next = self@.subrange(0, i + 1);
                assert(next.drop_last() =~= self@.subrange(0, i as int));
            }
            if self.records[i].id != id {
                kept.push(self.records[i]);
            }
            i += 1;
        }
        assert(self@.subrange(0, i as int) =~= self@);
        proof {
            without_connection_keeps(self@, id);
        }
        self.records = kept;
        res
    }

    /// Registers the connection `id` at the origin.
    pub fn register(&mut self, id: u32)
        ensures
            old(self).wf() ==> final(self).wf(),
            final(self)@ == with_connection(old(self)@, id),
    {
        if self.position(id).is_some() {
            self.set_position(id, (0, 0, 0));
        } else {
            proof {
                position_of_unknown(self@, id);
            }
            self.records.push(ConnectionRecord { id, pos: (0, 0, 0) });
        }
    }
}

/// Model of a [`Delivery`].
pub ghost struct DeliveryView {
    pub recipients: Seq<u32>,
    pub event: ServerEventView,
}

/// An event and the connections that are to receive it, in order.
#[derive(Debug, PartialEq, Eq)]
pub struct Delivery {
    pub recipients: Vec<u32>,
    pub event: ServerEvent,
}

impl View for Delivery {
    type V = DeliveryView;

    open spec fn view(&self) -> DeliveryView {
        DeliveryView { recipients: self.recipients@, event: self.event@ }
    }
}

/// Models of a list of deliveries, element by element.
pub open spec fn deliveries_view(deliveries: Seq<Delivery>) -> Seq<DeliveryView> {
    Seq::new(deliveries.len(), |i: int| deliveries[i]@)
}

/// Addresses `event`, which happened at `event_pos`, to every known
/// connection within range of it, but for `sender_id` where one is given.
pub fn broadcast_event(
    connections: &Connections,
    event_pos: (u16, u16, u8),
    sender_id: Option<u32>,
    event: ServerEvent,
) -> (delivery: Delivery)
    ensures
        connections.wf() ==> delivery.recipients@.no_duplicates(),
        delivery@ == (DeliveryView {
            recipients: recipients(connections@, event_pos, sender_id),
            event: event@,
        }),
{
    let mut to: Vec<u32> = Vec::new();
    let mut i: usize = 0;
    assert(connections@.subrange(0, 0) =~= Seq::<ConnectionRecord>::empty());
    while i < connections.records.len()
        invariant
            i <= connections.records@.len(),
            to@ == recipients(connections@.subrange(0, i as int), event_pos, sender_id),
        decreases connections.records.len() - i,
    {
        proof {
            let next = connections@.subrange(0, i + 1);
            assert(next.drop_last() =~= connections@.subrange(0, i as int));
        }
        let record = connections.records[i];
        let excluded: bool = match sender_id {
            Some(id) => id == record.id,
            None => false,
        };
        if is_in_interest_range(record.pos, event_pos) && !excluded {
            to.push(record.id);
        }
        i += 1;
    }
    assert(connections@.subrange(0, i as int) =~= connections@);
    proof {
        if connections.wf() {
            recipients_occur_once(connections@, event_pos, sender_id);
        }
    }
    Delivery { recipients: to, event }
}

/// The delivery of `event`, which happened at `event_pos`, to the
/// connections `records` that hear of it.
pub open spec fn broadcast(
    records: Seq<ConnectionRecord>,
    event_pos: (u16, u16, u8),
    excluded: Option<u32>,
    event: ServerEventView,
) -> DeliveryView {
    DeliveryView { recipients: recipients(records, event_pos, excluded), event }
}

/// The delivery of `event` to the connection `id` alone.
pub open spec fn private(id: u32, event: ServerEventView) -> DeliveryView {
    DeliveryView { recipients: seq![id], event }
}

/// Model of a removed creature and the stack position it left.
pub open spec fn removed_view(removed: Option<(Creature, u8)>) -> Option<(CreatureView, u8)> {
    match removed {
        Some((creature, stack_pos)) => Some((creature@, stack_pos)),
        None => None,
    }
}

/// Placing `creature` at `pos`: it joins the creatures of the tile there,
/// behind those already present, and `pos` is recorded for the connection
/// that has the creature's id. Without a tile at `pos` nothing changes.
pub open spec fn put_creature_step(
    world: Map<(u16, u16, u8), TileView>,
    records: Seq<ConnectionRecord>,
    pos: (u16, u16, u8),
    creature: CreatureView,
) -> (Map<(u16, u16, u8), TileView>, Seq<ConnectionRecord>) {
    if world.contains_key(pos) {
        (world.insert(pos, world[pos].with_creature(creature)), with_position(records, creature.id, pos))
    } else {
        (world, records)
    }
}

/// Taking the last creature with `creature_id` off the tile at `pos`: the
/// world without it, and the creature with the stack position it had.
/// Without a tile at `pos` or such a creature on it nothing changes.
pub open spec fn remove_creature_step(
    world: Map<(u16, u16, u8), TileView>,
    pos: (u16, u16, u8),
    creature_id: u32,
) -> (Map<(u16, u16, u8), TileView>, Option<(CreatureView, u8)>) {
    if !world.contains_key(pos) {
        (world, None)
    } else {
        let tile = world[pos];
        match last_creature_index(tile.creatures, creature_id) {
            Some(idx) => (
                world.insert(pos, tile.without_creature(idx)),
                Some((tile.creatures[idx], stack_pos_code(tile.creature_stack_pos(idx)))),
            ),
            None => (world, None),
        }
    }
}

/// Moving the creature `creature_id` from `from` to `to`: it leaves its
/// tile, joins the creatures at `to` behind those already present, `to` is
/// recorded for its connection, and the event tells the stack position it
/// left. Where either tile is missing or the creature is not at `from`,
/// nothing changes and there is no event.
pub open spec fn move_creature_step(
    world: Map<(u16, u16, u8), TileView>,
    records: Seq<ConnectionRecord>,
    from: (u16, u16, u8),
    to: (u16, u16, u8),
    creature_id: u32,
    direction: Direction,
) -> (Map<(u16, u16, u8), TileView>, Seq<ConnectionRecord>, Option<ServerEventView>) {
    if !world.contains_key(from) || !world.contains_key(to) {
        (world, records, None)
    } else {
        let (lifted, removed) = remove_creature_step(world, from, creature_id);
        match removed {
            Some((creature, stack_pos)) => (
                lifted.insert(to, lifted[to].with_creature(creature)),
                with_position(records, creature_id, to),
                Some(ServerEventView::CreatureMoved { from, to, stack_pos, creature_id, direction }),
            ),
            None => (world, records, None),
        }
    }
}

/// Turning the creature `creature_id` at `pos` to face `direction`. Where
/// the tile is missing or the creature is not on it, nothing changes and
/// there is no event.
pub open spec fn turn_creature_step(
    world: Map<(u16, u16, u8), TileView>,
    pos: (u16, u16, u8),
    creature_id: u32,
    direction: Direction,
) -> (Map<(u16, u16, u8), TileView>, Option<ServerEventView>) {
    if !world.contains_key(pos) {
        (world, None)
    } else {
        let tile = world[pos];
        match last_creature_index(tile.creatures, creature_id) {
            Some(idx) => (
                world.insert(pos, tile.with_turned(creature_id, direction.spec_code())),
                Some(
                    ServerEventView::CreatureTurned {
                        pos,
                        stack_pos: stack_pos_code(tile.creature_stack_pos(idx)),
                        direction,
                        creature_id,
                    },
                ),
            ),
            None => (world, None),
        }
    }
}

/// The ground-side part of moving an item. From a tile, the topmost bottom
/// item of that tile is the one that moves; from elsewhere, `item` is. Onto
/// a tile, it lands on top of the bottom items there. Where a tile that is
/// named is missing, or the tile to take from has no bottom item, nothing
/// changes and there is no event.
pub open spec fn move_item_step(
    world: Map<(u16, u16, u8), TileView>,
    from: (u16, u16, u8),
    to: (u16, u16, u8),
    stack_pos: u8,
    item: ItemView,
) -> (Map<(u16, u16, u8), TileView>, Option<ServerEventView>) {
    if (from.0 != OFF_MAP && !world.contains_key(from)) || (to.0 != OFF_MAP && !world.contains_key(
        to,
    )) {
        (world, None)
    } else if from.0 != OFF_MAP && world[from].bot_items.len() == 0 {
        (world, None)
    } else {
        let moved = if from.0 != OFF_MAP {
            world[from].bot_items.last()
        } else {
            item
        };
        let lifted = if from.0 != OFF_MAP {
            world.insert(from, world[from].without_last_bottom_item())
        } else {
            world
        };
        let dropped = if to.0 != OFF_MAP {
            lifted.insert(to, lifted[to].with_bottom_item(moved))
        } else {
            lifted
        };
        (dropped, Some(ServerEventView::ItemMoved { from, to, stack_pos, item_id: moved.client_id }))
    }
}

/// Places `creature` at `pos` and tells whether there was a tile to place
/// it on.
pub fn put_creature(
    state: &mut State,
    connections: &mut Connections,
    pos: (u16, u16, u8),
    creature: Creature,
) -> (placed: bool)
    ensures
        old(state).wf() ==> final(state).wf(),
        old(connections).wf() ==> final(connections).wf(),
        placed == old(state)@.contains_key(pos),
        (final(state)@, final(connections)@) == put_creature_step(
            old(state)@,
            old(connections)@,
            pos,
            creature@,
        ),
{
    match state.take_tile(pos) {
        Some(tile) => {
            let mut tile = tile;
            connections.set_position(creature.id, pos);
            tile.push_creature(creature);
            state.set_tile(pos, tile);
            assert(state@ =~= old(state)@.insert(pos, old(state)@[pos].with_creature(creature@)));
            true
        },
        None => {
            assert(state@ =~= old(state)@);
            false
        },
    }
}

/// Takes the last creature with `creature_id` off the tile at `pos` and
/// hands it out with the stack position it had.
pub fn remove_creature_from_tile(state: &mut State, pos: (u16, u16, u8), creature_id: u32) -> (removed:
    Option<(Creature, u8)>)
    ensures
        old(state).wf() ==> final(state).wf(),
        (final(state)@, removed_view(removed)) == remove_creature_step(
            old(state)@,
            pos,
            creature_id,
        ),
{
    match state.take_tile(pos) {
        Some(tile) => {
            let mut tile = tile;
            match find_creature(&tile.creatures, creature_id) {
                Some(idx) => {
                    let stack_pos: u8 = creature_stack_pos_code(tile.top_items.len(), idx);
                    let removed = tile.remove_creature(idx);
                    state.set_tile(pos, tile);
                    assert(state@ =~= old(state)@.insert(
                        pos,
                        old(state)@[pos].without_creature(idx as int),
                    ));
                    match removed {
                        Some(creature) => Some((creature, stack_pos)),
                        None => None,
                    }
                },
                None => {
                    state.set_tile(pos, tile);
                    assert(state@ =~= old(state)@);
                    None
                },
            }
        },
        None => {
            assert(state@ =~= old(state)@);
            None
        },
    }
}

/// Moves the creature `creature_id` from `from` to `to` and describes the
/// move for the connections.
pub fn handle_move_creature(
    state: &mut State,
    connections: &mut Connections,
    from: (u16, u16, u8),
    to: (u16, u16, u8),
    creature_id: u32,
    direction: Direction,
) -> (event: Option<ServerEvent>)
    ensures
        old(state).wf() ==> final(state).wf(),
        old(connections).wf() ==> final(connections).wf(),
        (final(state)@, final(connections)@, opt_event_view(event)) == move_creature_step(
            old(state)@,
            old(connections)@,
            from,
            to,
            creature_id,
            direction,
        ),
{
    if !state.has_tile(from) || !state.has_tile(to) {
        return None;
    }
    match remove_creature_from_tile(state, from, creature_id) {
        Some((creature, stack_pos)) => {
            let ghost lifted = state@;
            match state.take_tile(to) {
                Some(tile) => {
                    let mut tile = tile;
                    tile.push_creature(creature);
                    state.set_tile(to, tile);
                    assert(state@ =~= lifted.insert(to, lifted[to].with_creature(creature@)));
                },
                None => {},
            }
            connections.set_position(creature_id, to);
            Some(ServerEvent::CreatureMoved { from, to, stack_pos, creature_id, direction })
        },
        None => None,
    }
}

/// Moves an item on its way from or to the ground and describes the move
/// for the connections.
pub fn handle_move_item(
    state: &mut State,
    from: (u16, u16, u8),
    to: (u16, u16, u8),
    stack_pos: u8,
    _count: u8,
    item: Item,
) -> (event: Option<ServerEvent>)
    ensures
        old(state).wf() ==> final(state).wf(),
        (final(state)@, opt_event_view(event)) == move_item_step(
            old(state)@,
            from,
            to,
            stack_pos,
            item@,
        ),
{
    if (from.0 != OFF_MAP && !state.has_tile(from)) || (to.0 != OFF_MAP && !state.has_tile(to)) {
        return None;
    }
    let mut moved: Option<Item> = Some(item);
    if from.0 != OFF_MAP {
        match state.take_tile(from) {
            Some(tile) => {
                let mut tile = tile;
                moved = tile.pop_bottom_item();
                state.set_tile(from, tile);
                assert(state@ =~= if old(state)@[from].bot_items.len() > 0 {
                    old(state)@.insert(from, old(state)@[from].without_last_bottom_item())
                } else {
                    old(state)@
                });
            },
            None => {},
        }
    }
    match moved {
        Some(it) => {
            let item_id: u16 = it.client_id;
            if to.0 != OFF_MAP {
                let ghost lifted = state@;
                match state.take_tile(to) {
                    Some(tile) => {
                        let mut tile = tile;
                        tile.push_bottom_item(it);
                        state.set_tile(to, tile);
                        assert(state@ =~= lifted.insert(to, lifted[to].with_bottom_item(it@)));
                    },
                    None => {},
                }
            }
            Some(ServerEvent::ItemMoved { from, to, stack_pos, item_id })
        },
        None => None,
    }
}

/// Turns the creature `creature_id` at `pos` and describes the turn for the
/// connections.
pub fn handle_turn_creature(
    state: &mut State,
    pos: (u16, u16, u8),
    creature_id: u32,
    direction: Direction,
) -> (event: Option<ServerEvent>)
    ensures
        old(state).wf() ==> final(state).wf(),
        (final(state)@, opt_event_view(event)) == turn_creature_step(
            old(state)@,
            pos,
            creature_id,
            direction,
        ),
{
    match state.take_tile(pos) {
        Some(tile) => {
            let mut tile = tile;
            match find_creature(&tile.creatures, creature_id) {
                Some(idx) => {
                    let stack_pos: u8 = creature_stack_pos_code(tile.top_items.len(), idx);
                    tile.turn_creatures(creature_id, direction.code());
                    state.set_tile(pos, tile);
                    assert(state@ =~= old(state)@.insert(
                        pos,
                        old(state)@[pos].with_turned(creature_id, direction.spec_code()),
                    ));
                    Some(ServerEvent::CreatureTurned { pos, stack_pos, direction, creature_id })
                },
                None => {
                    state.set_tile(pos, tile);
                    assert(state@ =~= old(state)@);
                    None
                },
            }
        },
        None => {
            assert(state@ =~= old(state)@);
            None
        },
    }
}

/// Model of an [`Outcome`], together with the world and the records as
/// they are after a command.
pub ghost struct Step {
    pub world: Map<(u16, u16, u8), TileView>,
    pub records: Seq<ConnectionRecord>,
    pub deliveries: Seq<DeliveryView>,
    pub loopback: Seq<CommandView>,
    pub skipped: bool,
}

/// A step that tells nobody anything and asks for nothing.
pub open spec fn quiet(world: Map<(u16, u16, u8), TileView>, records: Seq<ConnectionRecord>) -> Step {
    Step { world, records, deliveries: Seq::empty(), loopback: Seq::empty(), skipped: false }
}

/// The step of a command that is skipped because it names a tile, a
/// connection or a kind of item that is not there: nothing changes, nobody
/// is told anything, and the skip is reported.
pub open spec fn skipped(world: Map<(u16, u16, u8), TileView>, records: Seq<ConnectionRecord>) -> Step {
    Step { world, records, deliveries: Seq::empty(), loopback: Seq::empty(), skipped: true }
}

/// A step that makes one delivery, or none where there is no event.
pub open spec fn telling(
    world: Map<(u16, u16, u8), TileView>,
    records: Seq<ConnectionRecord>,
    event_pos: (u16, u16, u8),
    event: Option<ServerEventView>,
) -> Step {
    match event {
        Some(e) => Step {
            world,
            records,
            deliveries: seq![broadcast(records, event_pos, None, e)],
            loopback: Seq::empty(),
            skipped: false,
        },
        None => quiet(world, records),
    }
}

/// Spawning `creature` at `pos`: it is placed, and every connection in
/// range hears of it. Without a tile at `pos` the command is skipped.
pub open spec fn put_creature_command(
    world: Map<(u16, u16, u8), TileView>,
    records: Seq<ConnectionRecord>,
    pos: (u16, u16, u8),
    creature: CreatureView,
) -> Step {
    if !world.contains_key(pos) {
        skipped(world, records)
    } else {
        let (placed, moved) = put_creature_step(world, records, pos, creature);
        telling(placed, moved, pos, Some(ServerEventView::CreatureAdded { pos, creature }))
    }
}

/// A player entering the game at `pos`: the creature is placed, every other
/// connection in range hears of it, and the player's own connection is told
/// to show the game. Without a tile at `pos` or a record of the player's
/// connection the command is skipped.
pub open spec fn enter_game_command(
    world: Map<(u16, u16, u8), TileView>,
    records: Seq<ConnectionRecord>,
    creature: CreatureView,
    pos: (u16, u16, u8),
) -> Step {
    if !world.contains_key(pos) || position_of(records, creature.id) is None {
        skipped(world, records)
    } else {
        let (placed, moved) = put_creature_step(world, records, pos, creature);
        Step {
            world: placed,
            records: moved,
            deliveries: seq![
                broadcast(
                    moved,
                    pos,
                    Some(creature.id),
                    ServerEventView::CreatureAdded { pos, creature },
                ),
                private(creature.id, ServerEventView::EnterGame),
            ],
            loopback: Seq::empty(),
            skipped: false,
        }
    }
}

/// A connection logging out: its record goes, its creature leaves the tile
/// at the recorded position if it is there, and every connection in range
/// of that position is told that the thing at stack position 1 left. For a
/// connection that is not known the command is skipped.
pub open spec fn logout_command(
    world: Map<(u16, u16, u8), TileView>,
    records: Seq<ConnectionRecord>,
    sender_id: u32,
) -> Step {
    match position_of(records, sender_id) {
        Some(pos) => telling(
            remove_creature_step(world, pos, sender_id).0,
            without_connection(records, sender_id),
            pos,
            Some(ServerEventView::CreatureRemoved { pos, stack_pos: 1 }),
        ),
        None => skipped(world, records),
    }
}

/// Using an item. On the ground the item at `stack_pos` of the tile is the
/// one used if there is one; in every other case `item` is. A container
/// opens for the sender alone, with room for twenty items and, if it was
/// found in an open container, that container as its parent. Any other kind
/// asks for the commands its kind calls for. Where the tile, the catalogue
/// entry of the item or, for a container, the sender's record is missing,
/// the command is skipped.
pub open spec fn use_item_command(
    world: Map<(u16, u16, u8), TileView>,
    records: Seq<ConnectionRecord>,
    data: StaticDataView,
    sender_id: u32,
    pos: (u16, u16, u8),
    stack_pos: u8,
    item: ItemView,
    index: u8,
) -> Step {
    if pos.0 != OFF_MAP && !world.contains_key(pos) {
        skipped(world, records)
    } else {
        let used = if pos.0 != OFF_MAP {
            match world[pos].item_at(stack_pos as int) {
                Some(it) => it,
                None => item,
            }
        } else {
            item
        };
        if !data.item_data.contains_key(used.client_id) {
            skipped(world, records)
        } else if data.item_data[used.client_id].item_type == ItemType::Container {
            if position_of(records, sender_id) is None {
                skipped(world, records)
            } else {
                Step {
                    world,
                    records,
                    deliveries: seq![
                        private(
                            sender_id,
                            ServerEventView::OpenContainer {
                                pos,
                                stack_pos,
                                index,
                                item: used,
                                name: data.item_data[used.client_id].item_name,
                                parent_id: container_handle_of(pos),
                                capacity: 20,
                            },
                        ),
                    ],
                    loopback: Seq::empty(),
                    skipped: false,
                }
            }
        } else {
            Step {
                world,
                records,
                deliveries: Seq::empty(),
                loopback: item_action_commands(used.client_id, pos, stack_pos),
                skipped: false,
            }
        }
    }
}

/// Adding `item` to `container`. For a container that lies off the map the
/// sender alone is told. For one on the ground the item joins, in front,
/// what the item at the container's stack position holds, and every
/// connection in range is told. Where the sender's record, the tile or the
/// item on it is missing, the command is skipped.
pub open spec fn add_to_container_command(
    world: Map<(u16, u16, u8), TileView>,
    records: Seq<ConnectionRecord>,
    item: ItemView,
    sender_id: u32,
    container: ContainerView,
) -> Step {
    let event = ServerEventView::AddedToContainer {
        pos: container.pos,
        stack_pos: container.stack_pos,
        item,
    };
    if container.pos.0 == OFF_MAP {
        if position_of(records, sender_id) is None {
            skipped(world, records)
        } else {
            Step {
                world,
                records,
                deliveries: seq![private(sender_id, event)],
                loopback: Seq::empty(),
                skipped: false,
            }
        }
    } else if !world.contains_key(container.pos) || world[container.pos].item_at(
        container.stack_pos as int,
    ) is None {
        skipped(world, records)
    } else {
        telling(
            world.insert(
                container.pos,
                world[container.pos].with_added(container.stack_pos as int, item),
            ),
            records,
            container.pos,
            Some(event),
        )
    }
}

/// Taking what is in `slot` out of the container at `stack_pos` of `pos`.
/// For a container that lies off the map the sender alone is told. For one
/// on the ground the item at `stack_pos` loses what it holds in `slot`, and
/// every connection in range is told. Where the sender's record, the tile,
/// the item on it or the content of the slot is missing, the command is
/// skipped.
pub open spec fn remove_from_container_command(
    world: Map<(u16, u16, u8), TileView>,
    records: Seq<ConnectionRecord>,
    pos: (u16, u16, u8),
    stack_pos: u8,
    slot: u8,
    sender_id: u32,
) -> Step {
    let event = ServerEventView::RemovedFromContainer { pos, stack_pos, slot };
    if pos.0 == OFF_MAP {
        if position_of(records, sender_id) is None {
            skipped(world, records)
        } else {
            Step {
                world,
                records,
                deliveries: seq![private(sender_id, event)],
                loopback: Seq::empty(),
                skipped: false,
            }
        }
    } else if !world.contains_key(pos) || !world[pos].holds_at(stack_pos as int, slot as int) {
        skipped(world, records)
    } else {
        telling(
            world.insert(pos, world[pos].with_removed(stack_pos as int, slot as int)),
            records,
            pos,
            Some(event),
        )
    }
}

/// Whether a transformation from kind `from_item_id` applies at `stack_pos`
/// of `pos`: the position is on the map, has a tile, and the item at the
/// stack position still is of that kind.
pub open spec fn transform_applies(
    world: Map<(u16, u16, u8), TileView>,
    pos: (u16, u16, u8),
    stack_pos: u8,
    from_item_id: u16,
) -> bool {
    &&& pos.0 != OFF_MAP
    &&& world.contains_key(pos)
    &&& world[pos].item_at(stack_pos as int) matches Some(it)
    &&& it.client_id == from_item_id
}

/// Transforming the item at `stack_pos` of `pos` from one kind into
/// another: where the transformation applies the item changes kind and
/// every connection in range is told; where it does not, nothing happens.
/// For a position on the map without a tile the command is skipped.
pub open spec fn transform_thing_command(
    world: Map<(u16, u16, u8), TileView>,
    records: Seq<ConnectionRecord>,
    pos: (u16, u16, u8),
    stack_pos: u8,
    from_item_id: u16,
    to_item_id: u16,
) -> Step {
    if transform_applies(world, pos, stack_pos, from_item_id) {
        telling(
            world.insert(pos, world[pos].with_item_id(stack_pos as int, to_item_id)),
            records,
            pos,
            Some(ServerEventView::ThingTransformed { pos, stack_pos, to_item_id }),
        )
    } else if pos.0 != OFF_MAP && !world.contains_key(pos) {
        skipped(world, records)
    } else {
        quiet(world, records)
    }
}

/// What a command does: the world and the connection records after it, the
/// events to deliver with their recipients, the commands that the handler is
/// to be given next, and whether the command was skipped. A command is
/// skipped, and changes nothing, where it names a tile, a connection or a
/// kind of item that is not there; the clauses on each command say when.
pub open spec fn step(
    world: Map<(u16, u16, u8), TileView>,
    records: Seq<ConnectionRecord>,
    data: StaticDataView,
    command: CommandView,
) -> Step {
    match command {
        CommandView::PutCreature { pos, creature } => put_creature_command(
            world,
            records,
            pos,
            creature,
        ),
        CommandView::AddNewConnection { connection_id } => quiet(
            world,
            with_connection(records, connection_id),
        ),
        CommandView::MoveCreature { from, to, direction, creature_id } => if !world.contains_key(
            from,
        ) || !world.contains_key(to) {
            skipped(world, records)
        } else {
            let (moved, told, event) = move_creature_step(
                world,
                records,
                from,
                to,
                creature_id,
                direction,
            );
            telling(moved, told, to, event)
        },
        CommandView::TurnCreature { pos, creature_id, direction } => if !world.contains_key(pos) {
            skipped(world, records)
        } else {
            let (turned, event) = turn_creature_step(world, pos, creature_id, direction);
            telling(turned, records, pos, event)
        },
        CommandView::EnterGame { character_creature, pos } => enter_game_command(
            world,
            records,
            character_creature,
            pos,
        ),
        CommandView::Logout { sender_id } => logout_command(world, records, sender_id),
        CommandView::MoveItem { from, to, stack_pos, item, count } => if (from.0 != OFF_MAP
            && !world.contains_key(from)) || (to.0 != OFF_MAP && !world.contains_key(to)) {
            skipped(world, records)
        } else {
            let (moved, event) = move_item_step(world, from, to, stack_pos, item);
            telling(
                moved,
                records,
                if from.0 == OFF_MAP {
                    to
                } else {
                    from
                },
                event,
            )
        },
        CommandView::UseItem { sender_id, pos, stack_pos, item, index } => use_item_command(
            world,
            records,
            data,
            sender_id,
            pos,
            stack_pos,
            item,
            index,
        ),
        CommandView::UseItemOnTarget { .. } => quiet(world, records),
        CommandView::AddToContainer {
            item,
            sender_id,
            slot,
            container,
        } => add_to_container_command(world, records, item, sender_id, container),
        CommandView::RemoveItemFromContainer {
            pos,
            stack_pos,
            slot,
            sender_id,
        } => remove_from_container_command(world, records, pos, stack_pos, slot, sender_id),
        CommandView::TransformThing {
            pos,
            stack_pos,
            from_item_id,
            to_item_id,
        } => transform_thing_command(world, records, pos, stack_pos, from_item_id, to_item_id),
        CommandView::CreatureSpeech { pos, text, creature_name, speech_type } => telling(
            world,
            records,
            pos,
            Some(ServerEventView::CreatureSpoke { pos, text, creature_name, speech_type }),
        ),
    }
}

/// A transformation that expects a kind which the item at the stack
/// position no longer has changes neither the world nor the records and
/// tells nobody.
pub proof fn stale_transform_is_ignored(
    world: Map<(u16, u16, u8), TileView>,
    records: Seq<ConnectionRecord>,
    data: StaticDataView,
    pos: (u16, u16, u8),
    stack_pos: u8,
    from_item_id: u16,
    to_item_id: u16,
)
    requires
        world.contains_key(pos),
        world[pos].item_at(stack_pos as int) matches Some(it) && it.client_id != from_item_id,
    ensures
        step(
            world,
            records,
            data,
            CommandView::TransformThing { pos, stack_pos, from_item_id, to_item_id },
        ) == quiet(world, records),
{
}

/// A creature that moves to another tile arrives behind the creatures
/// already there: its stack position at the destination is one more than
/// the number of top items and of other creatures on that tile. Every
/// connection recorded within range of the destination hears of the move.
pub proof fn moved_creature_arrives_last(
    world: Map<(u16, u16, u8), TileView>,
    records: Seq<ConnectionRecord>,
    data: StaticDataView,
    from: (u16, u16, u8),
    to: (u16, u16, u8),
    creature_id: u32,
    direction: Direction,
)
    requires
        from != to,
        world.contains_key(from),
        world.contains_key(to),
        last_creature_index(world[from].creatures, creature_id) is Some,
    ensures
        ({
            let after = step(
                world,
                records,
                data,
                CommandView::MoveCreature { from, to, direction, creature_id },
            );
            let idx = last_creature_index(world[from].creatures, creature_id)->0;
            let creature = world[from].creatures[idx];
            &&& after.world[from] == world[from].without_creature(idx)
            &&& after.world[to] == world[to].with_creature(creature)
            &&& after.world[to].thing_at(
                (world[to].top_items.len() + world[to].creatures.len() + 1) as int,
            ) == Some(Thing::Creature(creature))
            &&& after.records == with_position(records, creature_id, to)
            &&& after.deliveries == seq![
                DeliveryView {
                    recipients: recipients(after.records, to, None),
                    event: ServerEventView::CreatureMoved {
                        from,
                        to,
                        stack_pos: stack_pos_code(world[from].creature_stack_pos(idx)),
                        creature_id,
                        direction,
                    },
                },
            ]
        }),
{
    let idx = last_creature_index(world[from].creatures, creature_id)->0;
    let creature = world[from].creatures[idx];
    let arrived = world[to].with_creature(creature);
    crate::map::stack_positions_address_layers(
        arrived,
        (world[to].top_items.len() + world[to].creatures.len() + 1) as int,
    );
}

/// Model of an [`Outcome`].
pub ghost struct OutcomeView {
    pub deliveries: Seq<DeliveryView>,
    pub loopback: Seq<CommandView>,
    pub skipped: bool,
}

/// What the event handler asks its surroundings to do after a command:
/// events to deliver, and commands to hand back to the handler. `skipped`
/// tells that the command named something that is not there and was passed
/// over, which is worth a line in the log.
#[derive(Debug, PartialEq, Eq)]
pub struct Outcome {
    pub deliveries: Vec<Delivery>,
    pub loopback: Vec<Command>,
    pub skipped: bool,
}

impl View for Outcome {
    type V = OutcomeView;

    open spec fn view(&self) -> OutcomeView {
        OutcomeView {
            deliveries: deliveries_view(self.deliveries@),
            loopback: commands_view(self.loopback@),
            skipped: self.skipped,
        }
    }
}

/// The step that leaves the world as `world` and the records as `records`
/// and has the outcome `outcome`.
pub open spec fn step_of(
    world: Map<(u16, u16, u8), TileView>,
    records: Seq<ConnectionRecord>,
    outcome: OutcomeView,
) -> Step {
    Step {
        world,
        records,
        deliveries: outcome.deliveries,
        loopback: outcome.loopback,
        skipped: outcome.skipped,
    }
}

/// An outcome without deliveries and commands.
fn nothing() -> (outcome: Outcome)
    ensures
        outcome@ == (OutcomeView {
            deliveries: Seq::empty(),
            loopback: Seq::empty(),
            skipped: false,
        }),
        outcome.deliveries@.len() == 0,
        outcome.loopback@.len() == 0,
{
    let outcome = Outcome { deliveries: Vec::new(), loopback: Vec::new(), skipped: false };
    assert(outcome@.deliveries =~= Seq::empty());
    assert(outcome@.loopback =~= Seq::empty());
    outcome
}

/// The outcome of a command that is skipped.
fn skip() -> (outcome: Outcome)
    ensures
        outcome@ == (OutcomeView {
            deliveries: Seq::empty(),
            loopback: Seq::empty(),
            skipped: true,
        }),
{
    let mut outcome = nothing();
    outcome.skipped = true;
    outcome
}

/// The outcome that delivers `event` to every connection in range of
/// `event_pos`, or nothing where there is no event.
fn tell(connections: &Connections, event_pos: (u16, u16, u8), event: Option<ServerEvent>) -> (outcome:
    Outcome)
    ensures
        forall|world: Map<(u16, u16, u8), TileView>|
            #![trigger step_of(world, connections@, outcome@)]
            step_of(world, connections@, outcome@) == telling(
                world,
                connections@,
                event_pos,
                opt_event_view(event),
            ),
{
    let mut outcome = nothing();
    match event {
        Some(e) => {
            let delivery = broadcast_event(connections, event_pos, None, e);
            outcome.deliveries.push(delivery);
            assert(outcome@.deliveries =~= seq![broadcast(connections@, event_pos, None, e@)]);
        },
        None => {},
    }
    outcome
}

/// The outcome that delivers `event` to the connection `id` alone.
fn tell_one(id: u32, event: ServerEvent) -> (outcome: Outcome)
    ensures
        outcome@ == (OutcomeView {
            deliveries: seq![private(id, event@)],
            loopback: Seq::empty(),
            skipped: false,
        }),
{
    let mut outcome = nothing();
    let mut to: Vec<u32> = Vec::new();
    to.push(id);
    assert(to@ =~= seq![id]);
    outcome.deliveries.push(Delivery { recipients: to, event });
    assert(outcome@.deliveries =~= seq![private(id, event@)]);
    outcome
}

/// Handles the use of an item.
pub fn handle_use_item(
    state: &State,
    connections: &Connections,
    data: &StaticData,
    sender_id: u32,
    pos: (u16, u16, u8),
    stack_pos: u8,
    item: Item,
    index: u8,
) -> (outcome: Outcome)
    ensures
        step_of(state@, connections@, outcome@) == use_item_command(
            state@,
            connections@,
            data@,
            sender_id,
            pos,
            stack_pos,
            item@,
            index,
        ),
{
    let mut used: Item = item;
    if pos.0 != OFF_MAP {
        match state.get_tile(pos) {
            Some(tile) => {
                match tile.get_item_at_stack_pos(stack_pos) {
                    Some(it) => {
                        used = it;
                    },
                    None => {},
                }
            },
            None => {
                return skip();
            },
        }
    }
    match data.item_data.get(&used.client_id) {
        Some(entry) => {
            assert(data@.item_data.contains_key(used.client_id));
            assert(data@.item_data[used.client_id] == entry@);
            match entry.item_type {
                ItemType::Container => {
                    if connections.position(sender_id).is_none() {
                        return skip();
                    }
                    let parent_id: Option<u8> = match parse_address(pos) {
                        Address::InContainer(handle, _) => Some(handle),
                        _ => None,
                    };
                    tell_one(
                        sender_id,
                        ServerEvent::OpenContainer {
                            pos,
                            stack_pos,
                            index,
                            item: used,
                            name: entry.item_name.clone(),
                            parent_id,
                            capacity: 20,
                        },
                    )
                },
                _ => {
                    let action = get_item_action(&used.client_id);
                    let commands = action(pos, stack_pos, used.client_id);
                    let mut outcome = nothing();
                    outcome.loopback = commands;
                    outcome
                },
            }
        },
        None => {
            assert(!data@.item_data.contains_key(used.client_id));
            skip()
        },
    }
}

/// Handles the addition of an item to a container.
pub fn handle_add_to_container(
    state: &mut State,
    connections: &Connections,
    item: Item,
    sender_id: u32,
    container: &Container,
) -> (outcome: Outcome)
    ensures
        old(state).wf() ==> final(state).wf(),
        step_of(final(state)@, connections@, outcome@) == add_to_container_command(
            old(state)@,
            connections@,
            item@,
            sender_id,
            container@,
        ),
{
    let pos = container.pos;
    let stack_pos: u8 = container.stack_pos;
    if pos.0 == OFF_MAP {
        if connections.position(sender_id).is_none() {
            return skip();
        }
        return tell_one(sender_id, ServerEvent::AddedToContainer { pos, stack_pos, item });
    }
    match state.take_tile(pos) {
        Some(tile) => {
            let mut tile = tile;
            let shown = item.clone();
            let done = tile.add_to_item_at(stack_pos, item);
            state.set_tile(pos, tile);
            if done {
                assert(state@ =~= old(state)@.insert(
                    pos,
                    old(state)@[pos].with_added(stack_pos as int, item@),
                ));
                tell(
                    connections,
                    pos,
                    Some(ServerEvent::AddedToContainer { pos, stack_pos, item: shown }),
                )
            } else {
                assert(state@ =~= old(state)@);
                skip()
            }
        },
        None => {
            assert(state@ =~= old(state)@);
            skip()
        },
    }
}

/// Handles the removal of an item from a container.
pub fn handle_remove_from_container(
    state: &mut State,
    connections: &Connections,
    pos: (u16, u16, u8),
    stack_pos: u8,
    slot: u8,
    sender_id: u32,
) -> (outcome: Outcome)
    ensures
        old(state).wf() ==> final(state).wf(),
        step_of(final(state)@, connections@, outcome@) == remove_from_container_command(
            old(state)@,
            connections@,
            pos,
            stack_pos,
            slot,
            sender_id,
        ),
{
    if pos.0 == OFF_MAP {
        if connections.position(sender_id).is_none() {
            return skip();
        }
        return tell_one(sender_id, ServerEvent::RemovedFromContainer { pos, stack_pos, slot });
    }
    match state.take_tile(pos) {
        Some(tile) => {
            let mut tile = tile;
            let done = tile.remove_from_item_at(stack_pos, slot);
            state.set_tile(pos, tile);
            if done {
                assert(state@ =~= old(state)@.insert(
                    pos,
                    old(state)@[pos].with_removed(stack_pos as int, slot as int),
                ));
                tell(
                    connections,
                    pos,
                    Some(ServerEvent::RemovedFromContainer { pos, stack_pos, slot }),
                )
            } else {
                assert(state@ =~= old(state)@);
                skip()
            }
        },
        None => {
            assert(state@ =~= old(state)@);
            skip()
        },
    }
}

/// Handles the transformation of an item into another kind.
pub fn handle_transform_thing(
    state: &mut State,
    connections: &Connections,
    pos: (u16, u16, u8),
    stack_pos: u8,
    from_item_id: u16,
    to_item_id: u16,
) -> (outcome: Outcome)
    ensures
        old(state).wf() ==> final(state).wf(),
        step_of(final(state)@, connections@, outcome@) == transform_thing_command(
            old(state)@,
            connections@,
            pos,
            stack_pos,
            from_item_id,
            to_item_id,
        ),
        !transform_applies(old(state)@, pos, stack_pos, from_item_id) ==> final(state)@ == old(
            state,
        )@ && outcome@.deliveries.len() == 0 && outcome@.loopback.len() == 0,
{
    if pos.0 == OFF_MAP {
        return nothing();
    }
    match state.take_tile(pos) {
        Some(tile) => {
            let mut tile = tile;
            let applies: bool = match tile.item_slot(stack_pos) {
                Some(crate::map::ItemSlot::Top(i)) => tile.top_items[i].client_id == from_item_id,
                Some(crate::map::ItemSlot::Bottom(i)) => tile.bot_items[i].client_id
                    == from_item_id,
                None => false,
            };
            if applies {
                tile.change_at_stack_pos(stack_pos, to_item_id);
                state.set_tile(pos, tile);
                assert(state@ =~= old(state)@.insert(
                    pos,
                    old(state)@[pos].with_item_id(stack_pos as int, to_item_id),
                ));
                tell(
                    connections,
                    pos,
                    Some(ServerEvent::ThingTransformed { pos, stack_pos, to_item_id }),
                )
            } else {
                state.set_tile(pos, tile);
                assert(state@ =~= old(state)@);
                nothing()
            }
        },
        None => {
            assert(state@ =~= old(state)@);
            skip()
        },
    }
}

/// Handles one command: changes the world and the records as the command
/// asks, and says which events are to be delivered to whom and which
/// commands are to follow.
pub fn event_handler(
    state: &mut State,
    connections: &mut Connections,
    data: &StaticData,
    command: Command,
) -> (outcome: Outcome)
    ensures
        old(state).wf() ==> final(state).wf(),
        old(connections).wf() ==> final(connections).wf(),
        step_of(final(state)@, final(connections)@, outcome@) == step(
            old(state)@,
            old(connections)@,
            data@,
            command@,
        ),
{
    match command {
        Command::PutCreature { pos, creature } => {
            let shown = creature.clone();
            if put_creature(state, connections, pos, creature) {
                tell(connections, pos, Some(ServerEvent::CreatureAdded { pos, creature: shown }))
            } else {
                skip()
            }
        },
        Command::AddNewConnection { connection_id } => {
            connections.register(connection_id);
            nothing()
        },
        Command::MoveCreature { from, to, direction, creature_id } => {
            if !state.has_tile(from) || !state.has_tile(to) {
                return skip();
            }
            let event = handle_move_creature(state, connections, from, to, creature_id, direction);
            tell(connections, to, event)
        },
        Command::TurnCreature { pos, creature_id, direction } => {
            if !state.has_tile(pos) {
                return skip();
            }
            let event = handle_turn_creature(state, pos, creature_id, direction);
            tell(connections, pos, event)
        },
        Command::EnterGame { character_creature, pos } => {
            let id: u32 = character_creature.id;
            if !state.has_tile(pos) || connections.position(id).is_none() {
                return skip();
            }
            let shown = character_creature.clone();
            put_creature(state, connections, pos, character_creature);
            let mut outcome = nothing();
            let added = broadcast_event(
                connections,
                pos,
                Some(id),
                ServerEvent::CreatureAdded { pos, creature: shown },
            );
            let ghost first = added@;
            outcome.deliveries.push(added);
            let mut to: Vec<u32> = Vec::new();
            to.push(id);
            assert(to@ =~= seq![id]);
            let welcome = Delivery { recipients: to, event: ServerEvent::EnterGame };
            let ghost second = welcome@;
            outcome.deliveries.push(welcome);
            assert(outcome.deliveries@.len() == 2);
            assert(outcome@.deliveries[0] == first);
            assert(outcome@.deliveries[1] == second);
            assert(outcome@.deliveries =~= seq![
                broadcast(
                    connections@,
                    pos,
                    Some(id),
                    ServerEventView::CreatureAdded { pos, creature: shown@ },
                ),
                private(id, ServerEventView::EnterGame),
            ]);
            outcome
        },
        Command::Logout { sender_id } => {
            match connections.remove(sender_id) {
                Some(pos) => {
                    let _ = remove_creature_from_tile(state, pos, sender_id);
                    tell(connections, pos, Some(ServerEvent::CreatureRemoved { pos, stack_pos: 1 }))
                },
                None => {
                    proof {
                        without_unknown_connection(old(connections)@, sender_id);
                    }
                    skip()
                },
            }
        },
        Command::MoveItem { from, to, stack_pos, item, count } => {
            if (from.0 != OFF_MAP && !state.has_tile(from)) || (to.0 != OFF_MAP && !state.has_tile(
                to,
            )) {
                return skip();
            }
            let event = handle_move_item(state, from, to, stack_pos, count, item);
            let location = if from.0 == OFF_MAP {
                to
            } else {
                from
            };
            tell(connections, location, event)
        },
        Command::UseItem { sender_id, pos, stack_pos, item, index } => handle_use_item(
            state,
            connections,
            data,
            sender_id,
            pos,
            stack_pos,
            item,
            index,
        ),
        Command::UseItemOnTarget { .. } => nothing(),
        Command::AddToContainer {
            item,
            sender_id,
            slot,
            container,
        } => handle_add_to_container(state, connections, item, sender_id, &container),
        Command::RemoveItemFromContainer {
            pos,
            stack_pos,
            slot,
            sender_id,
        } => handle_remove_from_container(state, connections, pos, stack_pos, slot, sender_id),
        Command::TransformThing {
            pos,
            stack_pos,
            from_item_id,
            to_item_id,
        } => handle_transform_thing(state, connections, pos, stack_pos, from_item_id, to_item_id),
        Command::CreatureSpeech { pos, text, creature_name, speech_type } => tell(
            connections,
            pos,
            Some(ServerEvent::CreatureSpoke { pos, text, creature_name, speech_type }),
        ),
    }
}

/// Forgetting a connection that is not known leaves the records as they
/// are.
pub proof fn without_unknown_connection(records: Seq<ConnectionRecord>, id: u32)
    requires
        position_of(records, id) is None,
    ensures
        without_connection(records, id) == records,
    decreases records.len(),
{
    if records.len() > 0 {
        without_unknown_connection(records.drop_last(), id);
        assert(records.drop_last().push(records.last()) =~= records);
    }
}

} // verus!
