use tile_server::connection::{frame_packet, Connection, Container};
use tile_server::creature::{create_characters, str_fmt, Creature};
use tile_server::item::Item;
use tile_server::map::Direction;
use tile_server::payload::{
    add_item_to_container_payload, add_item_to_inventory_payload, add_thing_payload,
    close_container_payload, container_payload, creature_added_payload, creature_turn_payload,
    characters_payload, login_payload, magic_effect_payload, motd_payload, protocol_str_fmt,
    push_bytes, push_u16_le, push_u32_le, world_init_payload,
    remove_item_from_container_payload, remove_item_from_inventory_payload, remove_thing_payload,
    speech_payload, thing_moved_payload, thing_transformed_payload, write_position, write_str,
    LoginPacketType, MagicEffect, ServerPacketType, SpeechType,
};

fn creature(id: u32, name: &str) -> Creature {
    Creature {
        id,
        name: name.to_string(),
        outfit_type: 128,
        outfit: [1, 2, 3, 4],
        is_known: true,
        health: 100,
        max_health: 100,
        look_dir: 2,
        light_level: 0x64,
        light_color: 0xD7,
        speed: 220,
        shield: 0,
    }
}

fn connection_with(bytes: Vec<u8>) -> Connection {
    let mut conn = Connection::new(7);
    conn.receive(bytes);
    conn
}

#[test]
fn u16_is_written_low_byte_first() {
    let mut bytes = vec![9u8];
    push_u16_le(&mut bytes, 0x1234);
    assert_eq!(bytes, vec![9, 0x34, 0x12]);
    push_u16_le(&mut bytes, 0);
    push_u16_le(&mut bytes, 0xFFFF);
    assert_eq!(bytes, vec![9, 0x34, 0x12, 0, 0, 0xFF, 0xFF]);
}

#[test]
fn u32_is_written_low_byte_first() {
    let mut bytes = Vec::new();
    push_u32_le(&mut bytes, 0x0102_0304);
    assert_eq!(bytes, vec![4, 3, 2, 1]);
    assert_eq!(bytes, 0x0102_0304u32.to_le_bytes().to_vec());
    let mut max = Vec::new();
    push_u32_le(&mut max, u32::MAX);
    assert_eq!(max, vec![0xFF; 4]);
}

#[test]
fn push_bytes_appends_a_copy() {
    let mut bytes = vec![1u8, 2];
    push_bytes(&mut bytes, &[3, 4, 5]);
    assert_eq!(bytes, vec![1, 2, 3, 4, 5]);
    push_bytes(&mut bytes, &[]);
    assert_eq!(bytes, vec![1, 2, 3, 4, 5]);
}

#[test]
fn strings_carry_their_byte_length() {
    assert_eq!(write_str("abc"), vec![3, 0, b'a', b'b', b'c']);
    assert_eq!(str_fmt("abc"), vec![3, 0, b'a', b'b', b'c']);
    assert_eq!(write_str(""), vec![0, 0]);
    // Two bytes in UTF-8.
    assert_eq!(write_str("\u{e9}"), vec![2, 0, 0xC3, 0xA9]);
}

#[test]
fn string_length_keeps_its_low_sixteen_bits() {
    let long = "x".repeat(65536 + 3);
    let bytes = write_str(&long);
    assert_eq!(&bytes[0..2], &[3, 0]);
    assert_eq!(bytes.len(), 2 + 65536 + 3);
}

#[test]
fn position_is_five_bytes() {
    assert_eq!(write_position(&(0x0400, 0x0102, 7)), vec![0x00, 0x04, 0x02, 0x01, 7]);
}

#[test]
fn opcodes_have_their_wire_values() {
    assert_eq!(LoginPacketType::Motd.code(), 0x14);
    assert_eq!(LoginPacketType::CharacterList.code(), 0x64);
    assert_eq!(MagicEffect::Puff.code(), 0x02);
    assert_eq!(MagicEffect::EnergyArea.code(), 0x0A);
    assert_eq!(SpeechType::Say.code(), 0x01);
    assert_eq!(ServerPacketType::GameInit.code(), 0x0A);
    assert_eq!(ServerPacketType::ThingTransformed.code(), 0x6B);
    assert_eq!(ServerPacketType::CreatureTurn.code(), 0x63);
    assert_eq!(ServerPacketType::FullMap.code(), 0x64);
    assert_eq!(ServerPacketType::MapNorth.code(), 0x65);
    assert_eq!(ServerPacketType::MapEast.code(), 0x66);
    assert_eq!(ServerPacketType::MapSouth.code(), 0x67);
    assert_eq!(ServerPacketType::MapWest.code(), 0x68);
    assert_eq!(ServerPacketType::TileUpdate.code(), 0x69);
    assert_eq!(ServerPacketType::AddThing.code(), 0x6A);
    assert_eq!(ServerPacketType::RemoveThing.code(), 0x6C);
    assert_eq!(ServerPacketType::ThingMoved.code(), 0x6D);
    assert_eq!(ServerPacketType::OpenContainer.code(), 0x6E);
    assert_eq!(ServerPacketType::CloseContainer.code(), 0x6F);
    assert_eq!(ServerPacketType::AddItemToContainer.code(), 0x70);
    assert_eq!(ServerPacketType::RemoveItemFromContainer.code(), 0x72);
    assert_eq!(ServerPacketType::AddItemToInventory.code(), 0x78);
    assert_eq!(ServerPacketType::RemoveItemFromInventory.code(), 0x79);
    assert_eq!(ServerPacketType::MagicEffect.code(), 0x83);
    assert_eq!(ServerPacketType::CreatureSpeak.code(), 0xAA);
}

#[test]
fn creature_is_encoded_field_by_field() {
    let bytes = creature(5, "Bob").as_bytes();
    let expected: Vec<u8> = vec![
        0x61, 0x00, // marker of an unknown creature
        15, 0, 0, 0, // id + 10
        5, 0, 0, 0, // id
        3, 0, b'B', b'o', b'b', // name
        100,  // health
        2,    // look direction
        128, 0, // outfit type
        1, 2, 3, 4, // outfit
        0xD7, 0x64, // light colour, light level
        220, 0, // speed
        0, // shield
    ];
    assert_eq!(bytes, expected);
}

#[test]
fn creature_health_byte_uses_whole_division() {
    let mut c = creature(1, "");
    c.health = 50;
    c.max_health = 100;
    assert_eq!(c.as_bytes()[12], 0);
    c.health = 100;
    assert_eq!(c.as_bytes()[12], 100);
    c.health = 250;
    assert_eq!(c.as_bytes()[12], 200);
    c.health = 300;
    // 3 * 100 = 300, of which eight bits are 44.
    assert_eq!(c.as_bytes()[12], 44);
    c.max_health = 0;
    assert_eq!(c.as_bytes()[12], 0);
}

#[test]
fn creature_id_plus_ten_wraps_around() {
    let c = creature(u32::MAX - 3, "");
    let bytes = c.as_bytes();
    assert_eq!(&bytes[2..6], &[6, 0, 0, 0]);
    assert_eq!(&bytes[6..10], &[0xFC, 0xFF, 0xFF, 0xFF]);
}

#[test]
fn creature_added_message() {
    let c = creature(5, "Bob");
    let body = c.as_bytes();
    let mut expected = vec![0x6A, 100, 0, 200, 0, 7];
    expected.extend_from_slice(&body);
    assert_eq!(creature_added_payload(&(100, 200, 7), c), expected);
}

#[test]
fn thing_moved_message() {
    assert_eq!(
        thing_moved_payload(&(1, 2, 3), 4, &(5, 6, 7)),
        vec![0x6D, 1, 0, 2, 0, 3, 4, 5, 0, 6, 0, 7]
    );
}

#[test]
fn container_item_messages() {
    assert_eq!(add_item_to_container_payload(&0x0203, 9), vec![0x70, 9, 3, 2]);
    assert_eq!(remove_item_from_container_payload(9, 4), vec![0x72, 9, 4]);
    assert_eq!(close_container_payload(9), vec![0x6F, 9]);
}

#[test]
fn inventory_messages() {
    assert_eq!(add_item_to_inventory_payload(0x0203, 5), vec![0x78, 5, 3, 2]);
    assert_eq!(remove_item_from_inventory_payload(5), vec![0x79, 5]);
}

#[test]
fn thing_messages() {
    assert_eq!(remove_thing_payload(&(1, 2, 3), 4), vec![0x6C, 1, 0, 2, 0, 3, 4]);
    assert_eq!(add_thing_payload(&(1, 2, 3), &0x0405), vec![0x6A, 1, 0, 2, 0, 3, 5, 4]);
    assert_eq!(
        thing_transformed_payload(&(1, 2, 3), 4, Some(0x0405)),
        vec![0x6B, 1, 0, 2, 0, 3, 4, 5, 4]
    );
    assert_eq!(thing_transformed_payload(&(1, 2, 3), 4, None), vec![0x6B, 1, 0, 2, 0, 3, 4]);
}

#[test]
fn magic_effect_is_numbered_from_one() {
    assert_eq!(magic_effect_payload(&(1, 2, 3), 2), vec![0x83, 1, 0, 2, 0, 3, 3]);
    assert_eq!(magic_effect_payload(&(1, 2, 3), 0), vec![0x83, 1, 0, 2, 0, 3, 1]);
    assert_eq!(magic_effect_payload(&(1, 2, 3), 254), vec![0x83, 1, 0, 2, 0, 3, 255]);
}

#[test]
fn container_message_lists_item_kinds() {
    let container = Container {
        container_id: 3,
        parent_id: None,
        client_id: 0x0B0A,
        items: vec![
            Item { client_id: 1, items: vec![Item { client_id: 99, items: vec![] }] },
            Item { client_id: 0x0102, items: vec![] },
        ],
        pos: (1, 2, 3),
        stack_pos: 1,
        name: "ignored".to_string(),
        capacity: 8,
    };
    assert_eq!(
        container_payload(&container, "bag", 20, 1),
        vec![0x6E, 3, 0x0A, 0x0B, 3, 0, b'b', b'a', b'g', 20, 1, 2, 1, 0, 2, 1]
    );
}

#[test]
fn container_message_counts_items_in_eight_bits() {
    let mut items = Vec::new();
    for _ in 0..257 {
        items.push(Item { client_id: 7, items: vec![] });
    }
    let container = Container {
        container_id: 0,
        parent_id: None,
        client_id: 1,
        items,
        pos: (0, 0, 0),
        stack_pos: 0,
        name: String::new(),
        capacity: 0,
    };
    let bytes = container_payload(&container, "", 0, 0);
    assert_eq!(bytes[8], 1);
    assert_eq!(bytes.len(), 9 + 2 * 257);
}

#[test]
fn character_list_message() {
    let characters = create_characters();
    let mut expected = vec![0x64, 2];
    expected.extend_from_slice(&[14, 0]);
    expected.extend_from_slice(b"Some Character");
    expected.extend_from_slice(&[5, 0]);
    expected.extend_from_slice(b"World");
    expected.extend_from_slice(&[127, 0, 0, 1, 0x03, 0x1C]);
    expected.extend_from_slice(&[17, 0]);
    expected.extend_from_slice(b"Another Character");
    expected.extend_from_slice(&[5, 0]);
    expected.extend_from_slice(b"World");
    expected.extend_from_slice(&[127, 0, 0, 1, 0x03, 0x1C]);
    expected.extend_from_slice(&[1, 0]);
    assert_eq!(login_payload(&characters), expected);
    assert_eq!(login_payload(&Vec::new()), vec![0x64, 0, 1, 0]);
}

#[test]
fn message_of_the_day() {
    assert_eq!(motd_payload("hi"), vec![0x14, 2, 0, b'h', b'i']);
}

#[test]
fn login_server_strings() {
    assert_eq!(protocol_str_fmt("test"), vec![4, 0, b't', b'e', b's', b't']);
    assert_eq!(protocol_str_fmt(""), vec![0, 0]);
}

#[test]
fn sample_character_list() {
    assert_eq!(
        characters_payload(),
        vec![
            0x64, 1, // opcode, one character
            4, 0, b't', b'e', b's', b't', // its name
            4, 0, b't', b'e', b's', b't', // its world
            127, 0, 0, 1, // address
            71, 71, // port bytes
            1, 0, // premium days
        ]
    );
}

#[test]
fn sample_world() {
    let bytes = world_init_payload();
    assert_eq!(&bytes[0..14], &[0x0A, 0, 0, 0, 1, 32, 0, 0, 0x64, 123, 0, 123, 0, 6]);
    assert_eq!(bytes.len(), 14 + 252 * 4 + 1);
    for tile in bytes[14..bytes.len() - 1].chunks(4) {
        assert_eq!(tile, &[0x52, 0x0D, 0x00, 0xFF]);
    }
    assert_eq!(bytes[bytes.len() - 1], 0xFF);
}

#[test]
fn speech_message() {
    assert_eq!(
        speech_payload("hi", "Bob", SpeechType::Say, &(1, 2, 3)),
        vec![0xAA, 3, 0, b'B', b'o', b'b', 1, 1, 0, 2, 0, 3, 2, 0, b'h', b'i']
    );
}

#[test]
fn creature_turn_message() {
    assert_eq!(creature_turn_payload(Direction::North, 0x0102_0304), vec![0x63, 0, 4, 3, 2, 1, 0]);
    assert_eq!(creature_turn_payload(Direction::South, 1), vec![0x63, 0, 1, 0, 0, 0, 1]);
    assert_eq!(creature_turn_payload(Direction::East, 1), vec![0x63, 0, 1, 0, 0, 0, 2]);
    assert_eq!(creature_turn_payload(Direction::West, 1), vec![0x63, 0, 1, 0, 0, 0, 3]);
}

#[test]
fn outgoing_packets_are_prefixed_with_their_length() {
    assert_eq!(frame_packet(&[0x1E]), Some(vec![1, 0, 0x1E]));
    assert_eq!(frame_packet(&[]), Some(vec![0, 0]));
    let payload = vec![7u8; 0x0102];
    let framed = frame_packet(&payload).unwrap();
    assert_eq!(&framed[0..2], &[0x02, 0x01]);
    assert_eq!(&framed[2..], &payload[..]);
}

#[test]
fn a_payload_that_is_too_long_is_not_framed() {
    let longest = vec![0u8; 0xFFFF];
    let framed = frame_packet(&longest).unwrap();
    assert_eq!(&framed[0..2], &[0xFF, 0xFF]);
    assert_eq!(framed.len(), 0xFFFF + 2);
    let too_long = vec![0u8; 0x1_0000];
    assert_eq!(frame_packet(&too_long), None);
}

#[test]
fn reads_follow_the_cursor() {
    let mut conn = connection_with(vec![
        0xAA, 0xBB, 0x0A, // prefix and opcode
        0x11, // u8
        0x34, 0x12, // u16
        0x78, 0x56, 0x34, 0x12, // u32
        2, 0, b'h', b'i', // string
        0x00, 0x04, 0x02, 0x01, 7, // position
    ]);
    assert_eq!(conn.get_packet_id(), Some(0x0A));
    assert_eq!(conn.read_idx, 3);
    assert_eq!(conn.read_u8(), Some(0x11));
    assert_eq!(conn.read_u16_le(), Some(0x1234));
    assert_eq!(conn.read_u32_le(), Some(0x1234_5678));
    assert_eq!(conn.read_str(), Some("hi".to_string()));
    assert_eq!(conn.read_position(), Some((0x0400, 0x0102, 7)));
    assert_eq!(conn.read_idx, 19);
    assert_eq!(conn.read_u8(), None);
    assert_eq!(conn.read_idx, 19);
}

#[test]
fn a_read_past_the_end_fails_and_leaves_the_cursor() {
    let mut conn = connection_with(vec![1, 2, 3]);
    conn.read_idx = 2;
    assert_eq!(conn.read_u16_le(), None);
    assert_eq!(conn.read_u32_le(), None);
    assert_eq!(conn.read_position(), None);
    assert_eq!(conn.get_packet_id(), None);
    assert_eq!(conn.read_str(), None);
    assert_eq!(conn.read_idx, 2);
    assert_eq!(conn.read_u8(), Some(3));
    assert_eq!(conn.read_u8(), None);
    conn.read_idx = 100;
    assert_eq!(conn.read_u8(), None);
    assert_eq!(conn.read_u16_le(), None);
    assert_eq!(conn.read_idx, 100);
}

#[test]
fn a_string_that_is_cut_short_is_not_read() {
    let mut conn = connection_with(vec![3, 0, b'a', b'b']);
    assert_eq!(conn.read_str(), None);
    assert_eq!(conn.read_idx, 0);
    let mut empty = connection_with(vec![0, 0]);
    assert_eq!(empty.read_str(), Some(String::new()));
    assert_eq!(empty.read_idx, 2);
}

#[test]
fn a_string_has_one_character_for_each_byte() {
    let mut conn = connection_with(vec![3, 0, b'a', 0xE9, 0xFF]);
    let text = conn.read_str().unwrap();
    let chars: Vec<char> = text.chars().collect();
    assert_eq!(chars, vec!['a', '\u{e9}', '\u{ff}']);
}

#[test]
fn the_opcode_follows_a_prefix_of_two_bytes() {
    let mut conn = connection_with(vec![9, 9, 0x65, 1]);
    assert_eq!(conn.get_packet_id(), Some(0x65));
    assert_eq!(conn.read_idx, 3);
    let mut short = connection_with(vec![9, 9]);
    assert_eq!(short.get_packet_id(), None);
    assert_eq!(short.read_idx, 0);
    let mut none = connection_with(vec![]);
    assert_eq!(none.get_packet_id(), None);
}
