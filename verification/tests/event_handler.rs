use std::collections::HashMap;
use tile_server::connection::{Connection, Container, State};
use tile_server::creature::{create_characters, Creature};
use tile_server::event_handler::{
    broadcast_event, event_handler, handle_move_creature, handle_move_item, handle_transform_thing,
    handle_turn_creature, is_in_interest_range, put_creature, remove_creature_from_tile, Command,
    ConnectionRecord, Connections, Delivery, ServerEvent,
};
use tile_server::item::Item;
use tile_server::map::{get_map_description, Direction, Tile};
use tile_server::otb_io::item_loader::{ItemData, ItemType};
use tile_server::StaticData;

fn item(client_id: u16) -> Item {
    Item { client_id, items: vec![] }
}

fn creature(id: u32) -> Creature {
    Creature {
        id,
        name: format!("c{}", id),
        outfit_type: 128,
        outfit: [0, 0, 0, 0],
        is_known: true,
        health: 100,
        max_health: 100,
        look_dir: 0,
        light_level: 0,
        light_color: 0,
        speed: 220,
        shield: 0,
    }
}

fn floor(id: u16) -> Tile {
    Tile { floor_item_client_id: id, top_items: vec![], bot_items: vec![], creatures: vec![] }
}

fn connections(records: &[(u32, (u16, u16, u8))]) -> Connections {
    Connections {
        records: records.iter().map(|(id, pos)| ConnectionRecord { id: *id, pos: *pos }).collect(),
    }
}

fn entry(client_id: u16, item_type: ItemType, name: &str) -> ItemData {
    ItemData {
        server_id: client_id,
        client_id,
        item_type,
        flags: 0,
        attributes: vec![],
        item_name: name.to_string(),
        top_order: 255,
    }
}

fn data() -> StaticData {
    let mut item_data = HashMap::new();
    item_data.insert(10, entry(10, ItemType::Container, "bag"));
    item_data.insert(1644, entry(1644, ItemType::Nothing, "closed door"));
    item_data.insert(1645, entry(1645, ItemType::Nothing, "open door"));
    item_data.insert(20, entry(20, ItemType::Weapon, "sword"));
    StaticData { item_data, characters: create_characters() }
}

fn moved_event() -> ServerEvent {
    ServerEvent::CreatureMoved {
        from: (100, 101, 7),
        to: (100, 100, 7),
        stack_pos: 1,
        creature_id: 1,
        direction: Direction::North,
    }
}

#[test]
fn an_event_reaches_connections_within_eight_tiles_on_both_axes() {
    let known = connections(&[
        (1, (108, 108, 7)),
        (2, (109, 100, 7)),
        (3, (100, 109, 7)),
        (4, (92, 92, 7)),
        (5, (91, 100, 7)),
        (6, (100, 91, 7)),
        (7, (100, 100, 0)),
        (8, (108, 92, 15)),
    ]);
    let delivery = broadcast_event(&known, (100, 100, 7), None, moved_event());
    assert_eq!(delivery.recipients, vec![1, 4, 7, 8]);
    assert_eq!(delivery.event, moved_event());
}

#[test]
fn the_interest_range_is_checked_on_each_axis_alone() {
    let origin = (100, 100, 7);
    assert!(is_in_interest_range((108, 108, 7), origin));
    assert!(!is_in_interest_range((109, 100, 7), origin));
    assert!(!is_in_interest_range((100, 109, 7), origin));
    assert!(is_in_interest_range((108, 100, 7), origin));
    assert!(is_in_interest_range((100, 108, 7), origin));
    assert!(is_in_interest_range((92, 100, 7), origin));
    assert!(!is_in_interest_range((91, 100, 7), origin));
    assert!(!is_in_interest_range((109, 109, 7), origin));
    assert!(is_in_interest_range((100, 100, 0), origin));
    assert!(is_in_interest_range((0, 0, 0), (8, 8, 0)));
    assert!(!is_in_interest_range((0, 0, 0), (9, 0, 0)));
    assert!(!is_in_interest_range((0xFFFF, 0, 0), (0, 0, 0)));
}

#[test]
fn the_excluded_connection_does_not_hear_the_event() {
    let known = connections(&[(1, (100, 100, 7)), (2, (101, 100, 7)), (3, (100, 101, 7))]);
    let delivery = broadcast_event(&known, (100, 100, 7), Some(2), moved_event());
    assert_eq!(delivery.recipients, vec![1, 3]);
    let all = broadcast_event(&known, (100, 100, 7), Some(9), moved_event());
    assert_eq!(all.recipients, vec![1, 2, 3]);
    let none = broadcast_event(&Connections::new(), (100, 100, 7), None, moved_event());
    assert_eq!(none.recipients, Vec::<u32>::new());
}

#[test]
fn each_connection_hears_an_event_once() {
    let mut known = Connections::new();
    for id in [1u32, 2, 1, 3, 2, 1] {
        known.register(id);
    }
    assert_eq!(known.records.len(), 3);
    known.set_position(1, (100, 100, 7));
    known.set_position(2, (101, 100, 7));
    known.set_position(3, (100, 101, 7));
    let delivery = broadcast_event(&known, (100, 100, 7), None, moved_event());
    assert_eq!(delivery.recipients, vec![1, 2, 3]);
    known.remove(2);
    known.register(2);
    let delivery = broadcast_event(&known, (0, 0, 0), None, moved_event());
    assert_eq!(delivery.recipients, vec![2]);
    let delivery = broadcast_event(&known, (100, 100, 7), None, moved_event());
    assert_eq!(delivery.recipients, vec![1, 3]);
}

#[test]
fn connections_register_at_the_origin() {
    let mut known = Connections::new();
    known.register(5);
    known.register(6);
    assert_eq!(known.position(5), Some((0, 0, 0)));
    known.set_position(5, (10, 20, 7));
    assert_eq!(known.position(5), Some((10, 20, 7)));
    assert_eq!(known.position(6), Some((0, 0, 0)));
    assert_eq!(known.position(7), None);
    known.register(5);
    assert_eq!(known.position(5), Some((0, 0, 0)));
    assert_eq!(known.records.len(), 2);
    assert_eq!(known.remove(5), Some((0, 0, 0)));
    assert_eq!(known.remove(5), None);
    assert_eq!(known.records, vec![ConnectionRecord { id: 6, pos: (0, 0, 0) }]);
    known.set_position(9, (1, 1, 1));
    assert_eq!(known.records, vec![ConnectionRecord { id: 6, pos: (0, 0, 0) }]);
}

#[test]
fn a_placed_creature_joins_the_tile_and_moves_its_record() {
    let mut state = State::new();
    state.set_tile((10, 10, 7), floor(1));
    let mut known = connections(&[(1, (0, 0, 0)), (2, (0, 0, 0))]);
    assert!(put_creature(&mut state, &mut known, (10, 10, 7), creature(1)));
    assert!(put_creature(&mut state, &mut known, (10, 10, 7), creature(50)));
    let tile = state.get_tile((10, 10, 7)).unwrap();
    assert_eq!(tile.creatures, vec![creature(1), creature(50)]);
    assert_eq!(known.position(1), Some((10, 10, 7)));
    assert_eq!(known.position(2), Some((0, 0, 0)));
}

#[test]
fn a_creature_cannot_be_placed_without_a_tile() {
    let mut state = State::new();
    let mut known = connections(&[(1, (0, 0, 0))]);
    assert!(!put_creature(&mut state, &mut known, (10, 10, 7), creature(1)));
    assert!(!state.has_tile((10, 10, 7)));
    assert_eq!(known.position(1), Some((0, 0, 0)));
}

#[test]
fn a_removed_creature_reports_the_stack_position_it_left() {
    let mut state = State::new();
    let mut tile = floor(1);
    tile.top_items = vec![item(5), item(6)];
    tile.creatures = vec![creature(1), creature(2), creature(3)];
    state.set_tile((10, 10, 7), tile);
    let removed = remove_creature_from_tile(&mut state, (10, 10, 7), 2);
    assert_eq!(removed, Some((creature(2), 4)));
    let left = state.get_tile((10, 10, 7)).unwrap();
    assert_eq!(left.creatures, vec![creature(1), creature(3)]);
    assert_eq!(remove_creature_from_tile(&mut state, (10, 10, 7), 2), None);
    assert_eq!(remove_creature_from_tile(&mut state, (11, 10, 7), 1), None);
    assert_eq!(state.get_tile((10, 10, 7)).unwrap().creatures.len(), 2);
}

#[test]
fn a_moved_creature_arrives_behind_the_creatures_at_its_destination() {
    let mut state = State::new();
    let mut source = floor(1);
    source.top_items = vec![item(5)];
    source.creatures = vec![creature(9), creature(1)];
    state.set_tile((1024, 1024, 7), source);
    let mut target = floor(2);
    target.top_items = vec![item(6), item(7)];
    target.creatures = vec![creature(8)];
    target.bot_items = vec![item(3)];
    state.set_tile((1024, 1023, 7), target);
    let mut known = connections(&[(1, (1024, 1024, 7))]);
    let event = handle_move_creature(
        &mut state,
        &mut known,
        (1024, 1024, 7),
        (1024, 1023, 7),
        1,
        Direction::North,
    );
    assert_eq!(
        event,
        Some(ServerEvent::CreatureMoved {
            from: (1024, 1024, 7),
            to: (1024, 1023, 7),
            stack_pos: 3,
            creature_id: 1,
            direction: Direction::North
        })
    );
    assert_eq!(state.get_tile((1024, 1024, 7)).unwrap().creatures, vec![creature(9)]);
    let arrived = state.get_tile((1024, 1023, 7)).unwrap();
    assert_eq!(arrived.creatures, vec![creature(8), creature(1)]);
    // Two top items and one other creature: stack position 2 + 1 + 1.
    assert_eq!(arrived.top_items.len() + 1 + 1, 4);
    assert_eq!(find_stack_pos(arrived, 1), 4);
    assert_eq!(known.position(1), Some((1024, 1023, 7)));
}

fn find_stack_pos(tile: &Tile, id: u32) -> u8 {
    tile.creature_stack_pos(id).unwrap()
}

#[test]
fn a_move_without_its_tiles_or_its_creature_does_nothing() {
    let mut state = State::new();
    let mut source = floor(1);
    source.creatures = vec![creature(1)];
    state.set_tile((10, 10, 7), source);
    let mut known = connections(&[(1, (10, 10, 7))]);
    // No tile at the destination.
    assert_eq!(
        handle_move_creature(&mut state, &mut known, (10, 10, 7), (10, 9, 7), 1, Direction::North),
        None
    );
    assert_eq!(state.get_tile((10, 10, 7)).unwrap().creatures, vec![creature(1)]);
    state.set_tile((10, 9, 7), floor(2));
    // No tile at the source.
    assert_eq!(
        handle_move_creature(&mut state, &mut known, (10, 11, 7), (10, 9, 7), 1, Direction::North),
        None
    );
    // No such creature at the source.
    assert_eq!(
        handle_move_creature(&mut state, &mut known, (10, 10, 7), (10, 9, 7), 2, Direction::North),
        None
    );
    assert_eq!(state.get_tile((10, 10, 7)).unwrap().creatures, vec![creature(1)]);
    assert_eq!(state.get_tile((10, 9, 7)).unwrap().creatures, vec![]);
    assert_eq!(known.position(1), Some((10, 10, 7)));
}

#[test]
fn a_turned_creature_faces_its_direction() {
    let mut state = State::new();
    let mut tile = floor(1);
    tile.top_items = vec![item(5)];
    tile.creatures = vec![creature(1), creature(2)];
    state.set_tile((10, 10, 7), tile);
    let event = handle_turn_creature(&mut state, (10, 10, 7), 2, Direction::West);
    assert_eq!(
        event,
        Some(ServerEvent::CreatureTurned {
            pos: (10, 10, 7),
            stack_pos: 3,
            direction: Direction::West,
            creature_id: 2
        })
    );
    let turned = state.get_tile((10, 10, 7)).unwrap();
    assert_eq!(turned.creatures[0].look_dir, 0);
    assert_eq!(turned.creatures[1].look_dir, 3);
    assert_eq!(handle_turn_creature(&mut state, (10, 10, 7), 3, Direction::West), None);
    assert_eq!(handle_turn_creature(&mut state, (11, 10, 7), 2, Direction::West), None);
}

#[test]
fn an_item_moves_from_the_top_of_one_stack_to_the_top_of_another() {
    let mut state = State::new();
    let mut source = floor(1);
    source.bot_items = vec![item(5), item(6)];
    state.set_tile((10, 10, 7), source);
    let mut target = floor(2);
    target.bot_items = vec![item(7)];
    state.set_tile((11, 10, 7), target);
    let event = handle_move_item(&mut state, (10, 10, 7), (11, 10, 7), 2, 1, item(99));
    assert_eq!(
        event,
        Some(ServerEvent::ItemMoved {
            from: (10, 10, 7),
            to: (11, 10, 7),
            stack_pos: 2,
            item_id: 6
        })
    );
    assert_eq!(state.get_tile((10, 10, 7)).unwrap().bot_items, vec![item(5)]);
    assert_eq!(state.get_tile((11, 10, 7)).unwrap().bot_items, vec![item(7), item(6)]);
}

#[test]
fn an_item_from_off_the_map_lands_on_the_ground() {
    let mut state = State::new();
    state.set_tile((11, 10, 7), floor(2));
    let event = handle_move_item(&mut state, (0xFFFF, 3, 0), (11, 10, 7), 0, 1, item(99));
    assert_eq!(
        event,
        Some(ServerEvent::ItemMoved {
            from: (0xFFFF, 3, 0),
            to: (11, 10, 7),
            stack_pos: 0,
            item_id: 99
        })
    );
    assert_eq!(state.get_tile((11, 10, 7)).unwrap().bot_items, vec![item(99)]);
}

#[test]
fn an_item_that_leaves_the_map_is_taken_off_its_tile() {
    let mut state = State::new();
    let mut source = floor(1);
    source.bot_items = vec![item(5)];
    state.set_tile((10, 10, 7), source);
    let event = handle_move_item(&mut state, (10, 10, 7), (0xFFFF, 3, 0), 1, 1, item(99));
    assert_eq!(
        event,
        Some(ServerEvent::ItemMoved {
            from: (10, 10, 7),
            to: (0xFFFF, 3, 0),
            stack_pos: 1,
            item_id: 5
        })
    );
    assert_eq!(state.get_tile((10, 10, 7)).unwrap().bot_items, vec![]);
}

#[test]
fn an_item_move_without_tile_or_item_does_nothing() {
    let mut state = State::new();
    state.set_tile((10, 10, 7), floor(1));
    let mut full = floor(2);
    full.bot_items = vec![item(5)];
    state.set_tile((12, 10, 7), full);
    // Nothing to take.
    assert_eq!(handle_move_item(&mut state, (10, 10, 7), (12, 10, 7), 1, 1, item(9)), None);
    // No tile to take from.
    assert_eq!(handle_move_item(&mut state, (11, 10, 7), (12, 10, 7), 1, 1, item(9)), None);
    // No tile to put on: the item stays where it is.
    assert_eq!(handle_move_item(&mut state, (12, 10, 7), (11, 10, 7), 1, 1, item(9)), None);
    assert_eq!(handle_move_item(&mut state, (0xFFFF, 1, 0), (11, 10, 7), 1, 1, item(9)), None);
    assert_eq!(state.get_tile((12, 10, 7)).unwrap().bot_items, vec![item(5)]);
    assert_eq!(state.get_tile((10, 10, 7)).unwrap().bot_items, vec![]);
}

#[test]
fn a_stale_transformation_changes_nothing_and_tells_nobody() {
    let mut state = State::new();
    let mut tile = floor(1);
    tile.bot_items = vec![item(1645)];
    state.set_tile((10, 10, 7), tile);
    let known = connections(&[(1, (10, 10, 7))]);
    let outcome = handle_transform_thing(&mut state, &known, (10, 10, 7), 1, 1644, 1645);
    assert_eq!(outcome.deliveries, vec![]);
    assert_eq!(outcome.loopback, vec![]);
    assert_eq!(state.get_tile((10, 10, 7)).unwrap().bot_items, vec![item(1645)]);
    // Through the handler as well.
    let mut known = known;
    let outcome = event_handler(
        &mut state,
        &mut known,
        &data(),
        Command::TransformThing {
            pos: (10, 10, 7),
            stack_pos: 1,
            from_item_id: 1644,
            to_item_id: 1645,
        },
    );
    assert_eq!(outcome.deliveries, vec![]);
    assert_eq!(outcome.loopback, vec![]);
    assert_eq!(state.get_tile((10, 10, 7)).unwrap().bot_items, vec![item(1645)]);
}

#[test]
fn a_transformation_that_applies_changes_the_item_and_is_broadcast() {
    let mut state = State::new();
    let mut tile = floor(1);
    tile.bot_items = vec![Item { client_id: 1644, items: vec![item(3)] }];
    state.set_tile((10, 10, 7), tile);
    let known = connections(&[(1, (10, 10, 7)), (2, (30, 10, 7))]);
    let outcome = handle_transform_thing(&mut state, &known, (10, 10, 7), 1, 1644, 1645);
    assert_eq!(
        outcome.deliveries,
        vec![Delivery {
            recipients: vec![1],
            event: ServerEvent::ThingTransformed {
                pos: (10, 10, 7),
                stack_pos: 1,
                to_item_id: 1645
            }
        }]
    );
    assert_eq!(
        state.get_tile((10, 10, 7)).unwrap().bot_items,
        vec![Item { client_id: 1645, items: vec![item(3)] }]
    );
}

#[test]
fn a_transformation_needs_an_item_on_a_tile() {
    let mut state = State::new();
    let mut tile = floor(1);
    tile.creatures = vec![creature(1)];
    state.set_tile((10, 10, 7), tile);
    let known = connections(&[(1, (10, 10, 7))]);
    // A creature, not an item.
    let outcome = handle_transform_thing(&mut state, &known, (10, 10, 7), 1, 1644, 1645);
    assert_eq!(outcome.deliveries, vec![]);
    // No tile.
    let outcome = handle_transform_thing(&mut state, &known, (11, 10, 7), 1, 1644, 1645);
    assert_eq!(outcome.deliveries, vec![]);
    // Off the map.
    let outcome = handle_transform_thing(&mut state, &known, (0xFFFF, 10, 7), 1, 1644, 1645);
    assert_eq!(outcome.deliveries, vec![]);
    assert_eq!(state.get_tile((10, 10, 7)).unwrap().creatures, vec![creature(1)]);
}

#[test]
fn spawning_is_told_to_everyone_in_range() {
    let mut state = State::new();
    state.set_tile((10, 10, 7), floor(1));
    let mut known = connections(&[(1, (10, 10, 7)), (2, (50, 50, 7))]);
    let outcome = event_handler(
        &mut state,
        &mut known,
        &data(),
        Command::PutCreature { pos: (10, 10, 7), creature: creature(77) },
    );
    assert_eq!(
        outcome.deliveries,
        vec![Delivery {
            recipients: vec![1],
            event: ServerEvent::CreatureAdded { pos: (10, 10, 7), creature: creature(77) }
        }]
    );
    assert_eq!(state.get_tile((10, 10, 7)).unwrap().creatures, vec![creature(77)]);
    // Without a tile the command is skipped.
    let skipped = event_handler(
        &mut state,
        &mut known,
        &data(),
        Command::PutCreature { pos: (11, 10, 7), creature: creature(78) },
    );
    assert_eq!(skipped.deliveries, vec![]);
}

#[test]
fn entering_the_game_is_told_to_the_others_and_answered_in_private() {
    let mut state = State::new();
    state.set_tile((10, 10, 7), floor(1));
    let mut known = Connections::new();
    let static_data = data();
    for id in [1u32, 2, 3] {
        let outcome = event_handler(
            &mut state,
            &mut known,
            &static_data,
            Command::AddNewConnection { connection_id: id },
        );
        assert_eq!(outcome.deliveries, vec![]);
    }
    known.set_position(2, (12, 12, 7));
    known.set_position(3, (60, 60, 7));
    let outcome = event_handler(
        &mut state,
        &mut known,
        &static_data,
        Command::EnterGame { character_creature: creature(1), pos: (10, 10, 7) },
    );
    assert_eq!(
        outcome.deliveries,
        vec![
            Delivery {
                recipients: vec![2],
                event: ServerEvent::CreatureAdded { pos: (10, 10, 7), creature: creature(1) }
            },
            Delivery { recipients: vec![1], event: ServerEvent::EnterGame },
        ]
    );
    assert_eq!(known.position(1), Some((10, 10, 7)));
    assert_eq!(state.get_tile((10, 10, 7)).unwrap().creatures, vec![creature(1)]);
}

#[test]
fn entering_the_game_needs_a_tile_and_a_connection() {
    let mut state = State::new();
    state.set_tile((10, 10, 7), floor(1));
    let mut known = connections(&[(2, (10, 10, 7))]);
    let static_data = data();
    let unknown = event_handler(
        &mut state,
        &mut known,
        &static_data,
        Command::EnterGame { character_creature: creature(1), pos: (10, 10, 7) },
    );
    assert_eq!(unknown.deliveries, vec![]);
    assert_eq!(state.get_tile((10, 10, 7)).unwrap().creatures, vec![]);
    let no_tile = event_handler(
        &mut state,
        &mut known,
        &static_data,
        Command::EnterGame { character_creature: creature(2), pos: (11, 10, 7) },
    );
    assert_eq!(no_tile.deliveries, vec![]);
    assert_eq!(known.position(2), Some((10, 10, 7)));
}

#[test]
fn logging_out_removes_record_and_creature() {
    let mut state = State::new();
    let mut tile = floor(1);
    tile.creatures = vec![creature(1), creature(2)];
    state.set_tile((10, 10, 7), tile);
    let mut known = connections(&[(1, (10, 10, 7)), (2, (10, 10, 7))]);
    let outcome = event_handler(&mut state, &mut known, &data(), Command::Logout { sender_id: 1 });
    assert_eq!(
        outcome.deliveries,
        vec![Delivery {
            recipients: vec![2],
            event: ServerEvent::CreatureRemoved { pos: (10, 10, 7), stack_pos: 1 }
        }]
    );
    assert_eq!(known.position(1), None);
    assert_eq!(state.get_tile((10, 10, 7)).unwrap().creatures, vec![creature(2)]);
    // A connection that is not known: the command is skipped.
    let again = event_handler(&mut state, &mut known, &data(), Command::Logout { sender_id: 1 });
    assert_eq!(again.deliveries, vec![]);
    assert_eq!(known.records.len(), 1);
}

#[test]
fn using_a_container_opens_it_for_the_sender_alone() {
    let mut state = State::new();
    let mut tile = floor(1);
    tile.bot_items = vec![Item { client_id: 10, items: vec![item(20)] }];
    state.set_tile((10, 10, 7), tile);
    let mut known = connections(&[(1, (10, 10, 7)), (2, (10, 10, 7))]);
    let outcome = event_handler(
        &mut state,
        &mut known,
        &data(),
        Command::UseItem { sender_id: 2, pos: (10, 10, 7), stack_pos: 1, item: item(10), index: 4 },
    );
    assert_eq!(
        outcome.deliveries,
        vec![Delivery {
            recipients: vec![2],
            event: ServerEvent::OpenContainer {
                pos: (10, 10, 7),
                stack_pos: 1,
                index: 4,
                item: Item { client_id: 10, items: vec![item(20)] },
                name: "bag".to_string(),
                parent_id: None,
                capacity: 20
            }
        }]
    );
    assert_eq!(outcome.loopback, vec![]);
}

#[test]
fn a_container_found_in_a_container_names_its_parent() {
    let mut state = State::new();
    let mut known = connections(&[(1, (10, 10, 7))]);
    let outcome = event_handler(
        &mut state,
        &mut known,
        &data(),
        Command::UseItem {
            sender_id: 1,
            pos: (0xFFFF, 0x43, 2),
            stack_pos: 0,
            item: item(10),
            index: 3,
        },
    );
    match &outcome.deliveries[0].event {
        ServerEvent::OpenContainer { parent_id, index, .. } => {
            assert_eq!(*parent_id, Some(3));
            assert_eq!(*index, 3);
        }
        other => panic!("unexpected event {:?}", other),
    }
    // From the inventory there is no parent.
    let outcome = event_handler(
        &mut state,
        &mut known,
        &data(),
        Command::UseItem { sender_id: 1, pos: (0xFFFF, 3, 0), stack_pos: 0, item: item(10), index: 0 },
    );
    match &outcome.deliveries[0].event {
        ServerEvent::OpenContainer { parent_id, .. } => assert_eq!(*parent_id, None),
        other => panic!("unexpected event {:?}", other),
    }
}

#[test]
fn using_a_door_loops_back_its_transformation() {
    let mut state = State::new();
    let mut tile = floor(1);
    tile.top_items = vec![item(1644)];
    state.set_tile((10, 10, 7), tile);
    let mut known = connections(&[(1, (10, 10, 7))]);
    let static_data = data();
    let outcome = event_handler(
        &mut state,
        &mut known,
        &static_data,
        Command::UseItem { sender_id: 1, pos: (10, 10, 7), stack_pos: 1, item: item(5), index: 0 },
    );
    assert_eq!(outcome.deliveries, vec![]);
    assert_eq!(
        outcome.loopback,
        vec![Command::TransformThing {
            pos: (10, 10, 7),
            stack_pos: 1,
            from_item_id: 1644,
            to_item_id: 1645
        }]
    );
    let mut next = outcome.loopback;
    let transformed = event_handler(&mut state, &mut known, &static_data, next.remove(0));
    assert_eq!(transformed.deliveries.len(), 1);
    assert_eq!(state.get_tile((10, 10, 7)).unwrap().top_items, vec![item(1645)]);
}

#[test]
fn using_something_unknown_is_skipped() {
    let mut state = State::new();
    state.set_tile((10, 10, 7), floor(1));
    let mut known = connections(&[(1, (10, 10, 7))]);
    // No catalogue entry for kind 999.
    let outcome = event_handler(
        &mut state,
        &mut known,
        &data(),
        Command::UseItem { sender_id: 1, pos: (10, 10, 7), stack_pos: 1, item: item(999), index: 0 },
    );
    assert_eq!(outcome.deliveries, vec![]);
    assert_eq!(outcome.loopback, vec![]);
    // No tile.
    let outcome = event_handler(
        &mut state,
        &mut known,
        &data(),
        Command::UseItem { sender_id: 1, pos: (11, 10, 7), stack_pos: 1, item: item(10), index: 0 },
    );
    assert_eq!(outcome.deliveries, vec![]);
    // A container for a sender that is not known.
    let outcome = event_handler(
        &mut state,
        &mut known,
        &data(),
        Command::UseItem { sender_id: 9, pos: (10, 10, 7), stack_pos: 1, item: item(10), index: 0 },
    );
    assert_eq!(outcome.deliveries, vec![]);
    // A sword does nothing.
    let outcome = event_handler(
        &mut state,
        &mut known,
        &data(),
        Command::UseItem { sender_id: 1, pos: (10, 10, 7), stack_pos: 1, item: item(20), index: 0 },
    );
    assert_eq!(outcome.deliveries, vec![]);
    assert_eq!(outcome.loopback, vec![]);
}

fn container_at(pos: (u16, u16, u8), stack_pos: u8) -> Container {
    Container {
        container_id: 0,
        parent_id: None,
        client_id: 10,
        items: vec![],
        pos,
        stack_pos,
        name: "bag".to_string(),
        capacity: 20,
    }
}

#[test]
fn adding_to_a_container_on_the_ground_changes_the_tile_and_is_broadcast() {
    let mut state = State::new();
    let mut tile = floor(1);
    tile.top_items = vec![item(2)];
    tile.creatures = vec![creature(1)];
    tile.bot_items = vec![item(3), Item { client_id: 10, items: vec![item(20)] }];
    state.set_tile((10, 10, 7), tile);
    let mut known = connections(&[(1, (10, 10, 7)), (2, (11, 10, 7))]);
    // Stack position 4 is the second bottom item.
    let outcome = event_handler(
        &mut state,
        &mut known,
        &data(),
        Command::AddToContainer {
            item: item(21),
            sender_id: 1,
            slot: 0,
            container: container_at((10, 10, 7), 4),
        },
    );
    assert_eq!(
        outcome.deliveries,
        vec![Delivery {
            recipients: vec![1, 2],
            event: ServerEvent::AddedToContainer { pos: (10, 10, 7), stack_pos: 4, item: item(21) }
        }]
    );
    assert_eq!(
        state.get_tile((10, 10, 7)).unwrap().bot_items[1].items,
        vec![item(21), item(20)]
    );
}

#[test]
fn adding_to_a_container_off_the_map_is_told_in_private() {
    let mut state = State::new();
    let mut known = connections(&[(1, (10, 10, 7)), (2, (10, 10, 7))]);
    let outcome = event_handler(
        &mut state,
        &mut known,
        &data(),
        Command::AddToContainer {
            item: item(21),
            sender_id: 2,
            slot: 0,
            container: container_at((0xFFFF, 3, 0), 0),
        },
    );
    assert_eq!(
        outcome.deliveries,
        vec![Delivery {
            recipients: vec![2],
            event: ServerEvent::AddedToContainer {
                pos: (0xFFFF, 3, 0),
                stack_pos: 0,
                item: item(21)
            }
        }]
    );
}

#[test]
fn adding_to_what_is_not_there_is_skipped() {
    let mut state = State::new();
    let mut tile = floor(1);
    tile.creatures = vec![creature(1)];
    state.set_tile((10, 10, 7), tile);
    let mut known = connections(&[(1, (10, 10, 7))]);
    for (pos, stack_pos, sender) in
        [((10, 10, 7), 1u8, 1u32), ((10, 10, 7), 2, 1), ((11, 10, 7), 1, 1), ((0xFFFF, 3, 0), 0, 9)]
    {
        let outcome = event_handler(
            &mut state,
            &mut known,
            &data(),
            Command::AddToContainer {
                item: item(21),
                sender_id: sender,
                slot: 0,
                container: container_at(pos, stack_pos),
            },
        );
        assert_eq!(outcome.deliveries, vec![]);
    }
}

#[test]
fn removing_from_a_container_on_the_ground_changes_the_tile_and_is_broadcast() {
    let mut state = State::new();
    let mut tile = floor(1);
    tile.bot_items = vec![Item { client_id: 10, items: vec![item(20), item(21), item(22)] }];
    state.set_tile((10, 10, 7), tile);
    let mut known = connections(&[(1, (10, 10, 7))]);
    let outcome = event_handler(
        &mut state,
        &mut known,
        &data(),
        Command::RemoveItemFromContainer { pos: (10, 10, 7), stack_pos: 1, slot: 1, sender_id: 1 },
    );
    assert_eq!(
        outcome.deliveries,
        vec![Delivery {
            recipients: vec![1],
            event: ServerEvent::RemovedFromContainer { pos: (10, 10, 7), stack_pos: 1, slot: 1 }
        }]
    );
    assert_eq!(state.get_tile((10, 10, 7)).unwrap().bot_items[0].items, vec![item(20), item(22)]);
    // A slot that holds nothing: skipped.
    let outcome = event_handler(
        &mut state,
        &mut known,
        &data(),
        Command::RemoveItemFromContainer { pos: (10, 10, 7), stack_pos: 1, slot: 2, sender_id: 1 },
    );
    assert_eq!(outcome.deliveries, vec![]);
    // Off the map: told in private.
    let outcome = event_handler(
        &mut state,
        &mut known,
        &data(),
        Command::RemoveItemFromContainer { pos: (0xFFFF, 0x40, 0), stack_pos: 0, slot: 2, sender_id: 1 },
    );
    assert_eq!(outcome.deliveries[0].recipients, vec![1]);
}

#[test]
fn commands_that_name_what_is_not_there_are_reported_as_skipped() {
    let mut state = State::new();
    let mut tile = floor(1);
    tile.creatures = vec![creature(1)];
    tile.bot_items = vec![item(1645)];
    state.set_tile((10, 10, 7), tile);
    let mut known = connections(&[(1, (10, 10, 7))]);
    let static_data = data();
    let skipped: Vec<Command> = vec![
        Command::PutCreature { pos: (11, 10, 7), creature: creature(5) },
        Command::EnterGame { character_creature: creature(1), pos: (11, 10, 7) },
        Command::EnterGame { character_creature: creature(9), pos: (10, 10, 7) },
        Command::MoveCreature {
            from: (10, 10, 7),
            to: (10, 9, 7),
            direction: Direction::North,
            creature_id: 1,
        },
        Command::MoveCreature {
            from: (10, 11, 7),
            to: (10, 10, 7),
            direction: Direction::North,
            creature_id: 1,
        },
        Command::TurnCreature { pos: (11, 10, 7), creature_id: 1, direction: Direction::East },
        Command::Logout { sender_id: 9 },
        Command::MoveItem { from: (11, 10, 7), to: (10, 10, 7), stack_pos: 1, item: item(1), count: 1 },
        Command::MoveItem { from: (10, 10, 7), to: (11, 10, 7), stack_pos: 1, item: item(1), count: 1 },
        Command::UseItem { sender_id: 1, pos: (11, 10, 7), stack_pos: 1, item: item(10), index: 0 },
        Command::UseItem { sender_id: 1, pos: (0xFFFF, 1, 0), stack_pos: 1, item: item(999), index: 0 },
        Command::UseItem { sender_id: 9, pos: (0xFFFF, 1, 0), stack_pos: 1, item: item(10), index: 0 },
        Command::AddToContainer {
            item: item(1),
            sender_id: 1,
            slot: 0,
            container: container_at((11, 10, 7), 1),
        },
        Command::AddToContainer {
            item: item(1),
            sender_id: 1,
            slot: 0,
            container: container_at((10, 10, 7), 1),
        },
        Command::AddToContainer {
            item: item(1),
            sender_id: 9,
            slot: 0,
            container: container_at((0xFFFF, 1, 0), 1),
        },
        Command::RemoveItemFromContainer { pos: (11, 10, 7), stack_pos: 1, slot: 0, sender_id: 1 },
        Command::RemoveItemFromContainer { pos: (10, 10, 7), stack_pos: 2, slot: 0, sender_id: 1 },
        Command::RemoveItemFromContainer { pos: (0xFFFF, 1, 0), stack_pos: 2, slot: 0, sender_id: 9 },
        Command::TransformThing { pos: (11, 10, 7), stack_pos: 1, from_item_id: 1, to_item_id: 2 },
    ];
    for command in skipped {
        let shown = format!("{:?}", command);
        let outcome = event_handler(&mut state, &mut known, &static_data, command);
        assert!(outcome.skipped, "{}", shown);
        assert_eq!(outcome.deliveries, vec![], "{}", shown);
        assert_eq!(outcome.loopback, vec![], "{}", shown);
    }
    assert_eq!(state.get_tile((10, 10, 7)).unwrap().creatures, vec![creature(1)]);
    assert_eq!(state.get_tile((10, 10, 7)).unwrap().bot_items, vec![item(1645)]);
    assert_eq!(known.records, vec![ConnectionRecord { id: 1, pos: (10, 10, 7) }]);
}

#[test]
fn commands_that_find_nothing_to_do_are_not_skipped() {
    let mut state = State::new();
    let mut tile = floor(1);
    tile.creatures = vec![creature(1)];
    tile.bot_items = vec![item(1645)];
    state.set_tile((10, 10, 7), tile);
    state.set_tile((10, 9, 7), floor(2));
    let mut known = connections(&[(1, (10, 10, 7))]);
    let static_data = data();
    let quiet: Vec<Command> = vec![
        // No such creature on the tile.
        Command::MoveCreature {
            from: (10, 10, 7),
            to: (10, 9, 7),
            direction: Direction::North,
            creature_id: 2,
        },
        Command::TurnCreature { pos: (10, 10, 7), creature_id: 2, direction: Direction::East },
        // No bottom item to take.
        Command::MoveItem { from: (10, 9, 7), to: (10, 10, 7), stack_pos: 1, item: item(1), count: 1 },
        // The item is of another kind by now.
        Command::TransformThing { pos: (10, 10, 7), stack_pos: 2, from_item_id: 1644, to_item_id: 1645 },
        // Off the map.
        Command::TransformThing { pos: (0xFFFF, 1, 0), stack_pos: 2, from_item_id: 1, to_item_id: 2 },
        Command::UseItemOnTarget {
            pos: (10, 10, 7),
            stack_pos: 1,
            item: item(1),
            target_pos: (10, 9, 7),
            target_stack_pos: 1,
        },
    ];
    for command in quiet {
        let shown = format!("{:?}", command);
        let outcome = event_handler(&mut state, &mut known, &static_data, command);
        assert!(!outcome.skipped, "{}", shown);
        assert_eq!(outcome.deliveries, vec![], "{}", shown);
    }
    let told = event_handler(
        &mut state,
        &mut known,
        &static_data,
        Command::TurnCreature { pos: (10, 10, 7), creature_id: 1, direction: Direction::East },
    );
    assert!(!told.skipped);
    assert_eq!(told.deliveries.len(), 1);
}

#[test]
fn speech_is_broadcast_without_changing_anything() {
    let mut state = State::new();
    let mut known = connections(&[(1, (10, 10, 7)), (2, (18, 18, 7)), (3, (19, 10, 7))]);
    let outcome = event_handler(
        &mut state,
        &mut known,
        &data(),
        Command::CreatureSpeech {
            pos: (10, 10, 7),
            text: "hello".to_string(),
            creature_name: "Bob".to_string(),
            speech_type: 1,
        },
    );
    assert_eq!(
        outcome.deliveries,
        vec![Delivery {
            recipients: vec![1, 2],
            event: ServerEvent::CreatureSpoke {
                pos: (10, 10, 7),
                text: "hello".to_string(),
                creature_name: "Bob".to_string(),
                speech_type: 1
            }
        }]
    );
}

#[test]
fn using_an_item_on_a_target_does_nothing() {
    let mut state = State::new();
    let mut known = connections(&[(1, (10, 10, 7))]);
    let outcome = event_handler(
        &mut state,
        &mut known,
        &data(),
        Command::UseItemOnTarget {
            pos: (10, 10, 7),
            stack_pos: 1,
            item: item(1),
            target_pos: (11, 10, 7),
            target_stack_pos: 1,
        },
    );
    assert_eq!(outcome.deliveries, vec![]);
    assert_eq!(outcome.loopback, vec![]);
}

#[test]
fn a_step_north_from_the_start_position_end_to_end() {
    // The world: the two tiles of the step, the mover, a watcher in range of
    // the destination and a bystander out of range.
    let mut state = State::new();
    let mut source = floor(0x0101);
    source.creatures = vec![creature(2), creature(1)];
    state.set_tile((1024, 1024, 7), source);
    let mut target = floor(0x0202);
    target.top_items = vec![item(50)];
    target.creatures = vec![creature(3)];
    state.set_tile((1024, 1023, 7), target);
    let mut known = connections(&[
        (1, (1024, 1024, 7)),
        (3, (1032, 1031, 7)),
        (4, (1033, 1023, 7)),
        (5, (1024, 1032, 7)),
    ]);
    let static_data = data();

    // The mover's connection plays the first character and reads a packet
    // with the opcode of a step north.
    let mut mover = Connection::new(1);
    mover.character = Some(static_data.characters[0].clone());
    mover.receive(vec![0, 0, 0x65]);
    let reaction = mover.handle_packet(&state, &static_data.characters);
    assert_eq!(
        reaction.commands,
        vec![Command::MoveCreature {
            from: (1024, 1024, 7),
            to: (1024, 1023, 7),
            direction: Direction::North,
            creature_id: 1
        }]
    );
    assert_eq!(reaction.reply, Vec::<u8>::new());
    assert!(!reaction.close);
    assert_eq!(reaction.delay_ms, 58);

    // The event handler moves the creature.
    let mut commands = reaction.commands;
    let outcome = event_handler(&mut state, &mut known, &static_data, commands.remove(0));
    assert_eq!(state.get_tile((1024, 1024, 7)).unwrap().creatures, vec![creature(2)]);
    let arrived = state.get_tile((1024, 1023, 7)).unwrap();
    assert_eq!(arrived.creatures, vec![creature(3), creature(1)]);
    // One top item and one other creature: stack position 1 + 1 + 1.
    assert_eq!(find_stack_pos(arrived, 1), 3);
    assert_eq!(known.position(1), Some((1024, 1023, 7)));
    let event = ServerEvent::CreatureMoved {
        from: (1024, 1024, 7),
        to: (1024, 1023, 7),
        stack_pos: 2,
        creature_id: 1,
        direction: Direction::North,
    };
    // Everyone within range of (1024, 1023, 7): the mover and the watcher at
    // a distance of 8 on both axes; not the connections at a distance of 9.
    assert_eq!(outcome.deliveries.len(), 1);
    assert_eq!(outcome.deliveries[0].recipients, vec![1, 3]);
    assert_eq!(outcome.deliveries[0].event, event);

    // The mover is told of the move and is sent the row that came into
    // sight.
    let mut events = Vec::new();
    for delivery in outcome.deliveries {
        events.push(delivery.event);
    }
    let payload = mover.handle_events(&state, &events);
    let mut expected = vec![0x6B, 0x00, 0x04, 0x00, 0x04, 7, 2];
    expected.extend_from_slice(&[0x63, 0, 1, 0, 0, 0, 0]);
    expected.extend_from_slice(&[0x6D, 0x00, 0x04, 0x00, 0x04, 7, 2, 0x00, 0x04, 0xFF, 0x03, 7]);
    expected.push(0x65);
    expected.extend_from_slice(&get_map_description(&state, 1016, 1033, 1017, 1017, 0, 7));
    assert_eq!(payload, expected);
    assert_eq!(mover.character.as_ref().unwrap().position, (1024, 1023, 7));

    // A watcher is told of the move alone.
    let mut watcher = Connection::new(3);
    let seen = watcher.handle_events(&state, &events);
    assert_eq!(&seen[..], &expected[..26]);
}
