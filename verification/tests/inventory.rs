use tile_server::creature::{clone_opt_item, create_characters, Character, Inventory};
use tile_server::event_handler::Command;
use tile_server::item::{get_item_action, toggle_kind, Item};
use tile_server::otb_io::item_loader::ItemType;

fn item(client_id: u16) -> Item {
    Item { client_id, items: vec![] }
}

#[test]
fn a_new_inventory_is_empty() {
    let inv = Inventory::new_empty();
    for slot in 0..=11u16 {
        assert!(inv.peek_slot(slot).is_none());
    }
}

#[test]
fn each_slot_number_names_its_own_slot() {
    let mut inv = Inventory::new_empty();
    for slot in 1..=10u16 {
        inv.equip(slot, item(100 + slot));
    }
    assert_eq!(inv.head, Some(item(101)));
    assert_eq!(inv.neck, Some(item(102)));
    assert_eq!(inv.backpack, Some(item(103)));
    assert_eq!(inv.armor, Some(item(104)));
    assert_eq!(inv.right, Some(item(105)));
    assert_eq!(inv.left, Some(item(106)));
    assert_eq!(inv.legs, Some(item(107)));
    assert_eq!(inv.feet, Some(item(108)));
    assert_eq!(inv.ring, Some(item(109)));
    assert_eq!(inv.ammo, Some(item(110)));
    for slot in 1..=10u16 {
        assert_eq!(inv.peek_slot(slot), Some(&item(100 + slot)));
        assert_eq!(inv.clone().get_from_slot(slot), Some(item(100 + slot)));
    }
}

#[test]
fn numbers_that_name_no_slot_are_ignored() {
    let mut inv = Inventory::new_empty();
    inv.equip(0, item(1));
    inv.equip(11, item(1));
    inv.equip(0xFFFF, item(1));
    assert_eq!(inv, Inventory::new_empty());
    assert_eq!(inv.remove_from_slot(0), None);
    assert_eq!(inv.remove_from_slot(11), None);
    assert_eq!(inv.clone().get_from_slot(0), None);
    assert_eq!(inv.clone().get_from_slot(11), None);
}

#[test]
fn removing_empties_the_slot() {
    let mut inv = Inventory::new_empty();
    inv.equip(3, item(7));
    inv.equip(9, item(8));
    assert_eq!(inv.remove_from_slot(3), Some(item(7)));
    assert_eq!(inv.remove_from_slot(3), None);
    assert_eq!(inv.backpack, None);
    assert_eq!(inv.ring, Some(item(8)));
    assert_eq!(inv.right, None);
}

#[test]
fn equipping_replaces_what_was_there() {
    let mut inv = Inventory::new_empty();
    inv.equip(5, item(1));
    inv.equip(5, item(2));
    assert_eq!(inv.right, Some(item(2)));
}

#[test]
fn copies_are_equal() {
    let mut bag = item(1);
    bag.add_item(item(2));
    assert_eq!(clone_opt_item(&Some(bag.clone())), Some(bag));
    assert_eq!(clone_opt_item(&None), None);
}

#[test]
fn the_roster_has_two_characters() {
    let characters = create_characters();
    assert_eq!(characters.len(), 2);
    let first = &characters[0];
    assert_eq!(first.id, 1);
    assert_eq!(first.name, "Some Character");
    assert_eq!(first.world, "World");
    assert_eq!(first.outfit_type, 128);
    assert_eq!(first.outfit, [80, 80, 80, 80]);
    assert_eq!(first.position, (1024, 1024, 7));
    assert_eq!(first.speed, 220);
    assert_eq!(first.look_dir, 0);
    assert_eq!(first.health, 100);
    assert_eq!(first.max_health, 100);
    assert_eq!(first.inventory, Inventory::new_empty());
    let second = &characters[1];
    assert_eq!(second.id, 2);
    assert_eq!(second.name, "Another Character");
    assert_eq!(second.outfit, [30, 30, 30, 30]);
    assert_eq!(second.position, (1024, 1026, 7));
}

#[test]
fn a_character_is_shown_as_a_creature_with_its_own_health() {
    let character = Character {
        id: 9,
        name: "Nine".to_string(),
        world: "World".to_string(),
        outfit_type: 130,
        outfit: [1, 2, 3, 4],
        position: (10, 20, 7),
        speed: 200,
        look_dir: 2,
        health: 40,
        max_health: 100,
        inventory: Inventory::new_empty(),
    };
    let creature = character.as_creature();
    assert_eq!(creature.id, 9);
    assert_eq!(creature.name, "Nine");
    assert_eq!(creature.outfit_type, 130);
    assert_eq!(creature.outfit, [1, 2, 3, 4]);
    assert!(creature.is_known);
    assert_eq!(creature.health, 40);
    assert_eq!(creature.max_health, 100);
    assert_eq!(creature.look_dir, 2);
    assert_eq!(creature.light_level, 0x64);
    assert_eq!(creature.light_color, 0xD7);
    assert_eq!(creature.speed, 200);
    assert_eq!(creature.shield, 0);
    assert_eq!(character.clone(), character);
}

#[test]
fn doors_and_switches_toggle() {
    assert_eq!(toggle_kind(1644), Some(1645));
    assert_eq!(toggle_kind(1645), Some(1644));
    assert_eq!(toggle_kind(2772), Some(2773));
    assert_eq!(toggle_kind(2773), Some(2772));
    assert_eq!(toggle_kind(1643), None);
    assert_eq!(toggle_kind(0), None);
}

#[test]
fn using_a_door_asks_for_its_transformation() {
    let action = get_item_action(&1644);
    assert_eq!(
        action((10, 20, 7), 3, 1644),
        vec![Command::TransformThing {
            pos: (10, 20, 7),
            stack_pos: 3,
            from_item_id: 1644,
            to_item_id: 1645
        }]
    );
    // The third argument is not looked at.
    assert_eq!(
        get_item_action(&2773)((1, 2, 3), 1, 5),
        vec![Command::TransformThing {
            pos: (1, 2, 3),
            stack_pos: 1,
            from_item_id: 2773,
            to_item_id: 2772
        }]
    );
}

#[test]
fn using_anything_else_asks_for_nothing() {
    assert_eq!(get_item_action(&100)((10, 20, 7), 3, 100), vec![]);
}

#[test]
fn item_kinds_are_read_from_their_byte() {
    assert_eq!(ItemType::from_u8(0), ItemType::Nothing);
    assert_eq!(ItemType::from_u8(1), ItemType::Ground);
    assert_eq!(ItemType::from_u8(2), ItemType::Container);
    assert_eq!(ItemType::from_u8(3), ItemType::Weapon);
    assert_eq!(ItemType::from_u8(4), ItemType::Ammunition);
    assert_eq!(ItemType::from_u8(5), ItemType::Armor);
    assert_eq!(ItemType::from_u8(6), ItemType::Rune);
    assert_eq!(ItemType::from_u8(7), ItemType::Teleport);
    assert_eq!(ItemType::from_u8(8), ItemType::Magicfield);
    assert_eq!(ItemType::from_u8(9), ItemType::Writeable);
    assert_eq!(ItemType::from_u8(10), ItemType::Key);
    assert_eq!(ItemType::from_u8(11), ItemType::Splash);
    assert_eq!(ItemType::from_u8(12), ItemType::Fluid);
    assert_eq!(ItemType::from_u8(13), ItemType::Last);
    assert_eq!(ItemType::from_u8(14), ItemType::Nothing);
    assert_eq!(ItemType::from_u8(255), ItemType::Nothing);
}
