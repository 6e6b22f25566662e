//! Outbound wire format: little-endian primitives and one builder per
//! server message.

use crate::connection::{Container, ContainerView, State};
use crate::creature::{
    characters_view, creature_bytes, str_bytes, str_fmt, Character, CharacterView, Creature,
    CreatureView,
};
use crate::item::{item_ids_bytes, push_item_ids};
use crate::map::{
    box_cells, get_map_description, map_description, viewport_in_range, Direction, TileView,
    VIEWPORT_X, VIEWPORT_Y,
};
use vstd::prelude::*;

verus! {

/// Address of the game world that the character list announces.
pub const GAME_WORLD_IP: [u8; 4] = [127, 0, 0, 1];

/// Port of the game world that the character list announces.
pub const GAME_WORLD_PORT: u16 = 7171;

/// Messages of the login server.
#[derive(Clone, Copy, Debug, PartialEq, Eq, Structural)]
pub enum LoginPacketType {
    Motd,
    CharacterList,
}

impl LoginPacketType {
    /// The opcode of the message.
    pub open spec fn spec_code(self) -> u8 {
        match self {
            LoginPacketType::Motd => 0x14,
            LoginPacketType::CharacterList => 0x64,
        }
    }

    /// The opcode of the message.
    pub fn code(&self) -> (res: u8)
        ensures
            res == self.spec_code(),
    {
        match self {
            LoginPacketType::Motd => 0x14,
            LoginPacketType::CharacterList => 0x64,
        }
    }
}

/// Visual effects that can be shown on a tile.
#[derive(Clone, Copy, Debug, PartialEq, Eq, Structural)]
pub enum MagicEffect {
    Puff,
    EnergyArea,
}

impl MagicEffect {
    /// The number of the effect, counted from zero.
    pub open spec fn spec_code(self) -> u8 {
        match self {
            MagicEffect::Puff => 0x02,
            MagicEffect::EnergyArea => 0x0A,
        }
    }

    /// The number of the effect, counted from zero.
    pub fn code(&self) -> (res: u8)
        ensures
            res == self.spec_code(),
    {
        match self {
            MagicEffect::Puff => 0x02,
            MagicEffect::EnergyArea => 0x0A,
        }
    }
}

/// Messages of the game server.
#[derive(Clone, Copy, Debug, PartialEq, Eq, Structural)]
pub enum ServerPacketType {
    GameInit,
    ThingTransformed,
    CreatureTurn,
    FullMap,
    MapNorth,
    MapEast,
    MapSouth,
    MapWest,
    TileUpdate,
    AddThing,
    RemoveThing,
    ThingMoved,
    OpenContainer,
    CloseContainer,
    AddItemToContainer,
    RemoveItemFromContainer,
    AddItemToInventory,
    RemoveItemFromInventory,
    MagicEffect,
    CreatureSpeak,
}

impl ServerPacketType {
    /// The opcode of the message.
    pub open spec fn spec_code(self) -> u8 {
        match self {
            ServerPacketType::GameInit => 0x0A,
            ServerPacketType::ThingTransformed => 0x6B,
            ServerPacketType::CreatureTurn => 0x63,
            ServerPacketType::FullMap => 0x64,
            ServerPacketType::MapNorth => 0x65,
            ServerPacketType::MapEast => 0x66,
            ServerPacketType::MapSouth => 0x67,
            ServerPacketType::MapWest => 0x68,
            ServerPacketType::TileUpdate => 0x69,
            ServerPacketType::AddThing => 0x6A,
            ServerPacketType::RemoveThing => 0x6C,
            ServerPacketType::ThingMoved => 0x6D,
            ServerPacketType::OpenContainer => 0x6E,
            ServerPacketType::CloseContainer => 0x6F,
            ServerPacketType::AddItemToContainer => 0x70,
            ServerPacketType::RemoveItemFromContainer => 0x72,
            ServerPacketType::AddItemToInventory => 0x78,
            ServerPacketType::RemoveItemFromInventory => 0x79,
            ServerPacketType::MagicEffect => 0x83,
            ServerPacketType::CreatureSpeak => 0xAA,
        }
    }

    /// The opcode of the message.
    pub fn code(&self) -> (res: u8)
        ensures
            res == self.spec_code(),
    {
        match self {
            ServerPacketType::GameInit => 0x0A,
            ServerPacketType::ThingTransformed => 0x6B,
            ServerPacketType::CreatureTurn => 0x63,
            ServerPacketType::FullMap => 0x64,
            ServerPacketType::MapNorth => 0x65,
            ServerPacketType::MapEast => 0x66,
            ServerPacketType::MapSouth => 0x67,
            ServerPacketType::MapWest => 0x68,
            ServerPacketType::TileUpdate => 0x69,
            ServerPacketType::AddThing => 0x6A,
            ServerPacketType::RemoveThing => 0x6C,
            ServerPacketType::ThingMoved => 0x6D,
            ServerPacketType::OpenContainer => 0x6E,
            ServerPacketType::CloseContainer => 0x6F,
            ServerPacketType::AddItemToContainer => 0x70,
            ServerPacketType::RemoveItemFromContainer => 0x72,
            ServerPacketType::AddItemToInventory => 0x78,
            ServerPacketType::RemoveItemFromInventory => 0x79,
            ServerPacketType::MagicEffect => 0x83,
            ServerPacketType::CreatureSpeak => 0xAA,
        }
    }
}

/// Ways of speaking.
#[derive(Clone, Copy, Debug, PartialEq, Eq, Structural)]
pub enum SpeechType {
    Say,
}

impl SpeechType {
    /// The number that stands for this way of speaking on the wire.
    pub open spec fn spec_code(self) -> u8 {
        match self {
            SpeechType::Say => 0x01,
        }
    }

    /// The number that stands for this way of speaking on the wire.
    pub fn code(&self) -> (res: u8)
        ensures
            res == self.spec_code(),
    {
        match self {
            SpeechType::Say => 0x01,
        }
    }
}

/// The two bytes of `v`, least significant first.
pub open spec fn u16_le(v: u16) -> Seq<u8> {
    seq![(v % 256) as u8, (v / 256) as u8]
}

/// The four bytes of `v`, least significant first.
pub open spec fn u32_le(v: u32) -> Seq<u8> {
    seq![
        (v % 256) as u8,
        (v / 256 % 256) as u8,
        (v / 65536 % 256) as u8,
        (v / 16777216) as u8,
    ]
}

/// Appends `v` in little-endian order.
pub fn push_u16_le(bytes: &mut Vec<u8>, v: u16)
    ensures
        final(bytes)@ == old(bytes)@ + u16_le(v),
{
    bytes.push((v % 256) as u8);
    bytes.push((v / 256) as u8);
    assert(bytes@ =~= old(bytes)@ + u16_le(v));
}

/// Appends `v` in little-endian order.
pub fn push_u32_le(bytes: &mut Vec<u8>, v: u32)
    ensures
        final(bytes)@ == old(bytes)@ + u32_le(v),
{
    bytes.push((v % 256) as u8);
    bytes.push((v / 256 % 256) as u8);
    bytes.push((v / 65536 % 256) as u8);
    bytes.push((v / 16777216) as u8);
    assert(bytes@ =~= old(bytes)@ + u32_le(v));
}

/// Appends a copy of `more`.
pub fn push_bytes(bytes: &mut Vec<u8>, more: &[u8])
    ensures
        final(bytes)@ == old(bytes)@ + more@,
{
    let mut i: usize = 0;
    while i < more.len()
        invariant
            i <= more.len(),
            bytes@ == old(bytes)@ + more@.subrange(0, i as int),
        decreases more.len() - i,
    {
        bytes.push(more[i]);
        i += 1;
        assert(bytes@ =~= old(bytes)@ + more@.subrange(0, i as int));
    }
    assert(more@.subrange(0, i as int) =~= more@);
}

/// Encodes `s` as a length-prefixed string.
pub fn write_str(s: &str) -> (bytes: Vec<u8>)
    ensures
        bytes@ == str_bytes(s@),
{
    str_fmt(s)
}

/// The message of the day: its opcode, then the text.
pub open spec fn motd_bytes(text: Seq<char>) -> Seq<u8> {
    seq![0x14u8] + str_bytes(text)
}

/// Builds the message of the day.
pub fn motd_payload(text: &str) -> (payload: Vec<u8>)
    ensures
        payload@ == motd_bytes(text@),
{
    let mut payload: Vec<u8> = Vec::new();
    payload.push(LoginPacketType::Motd.code());
    let body = write_str(text);
    push_bytes(&mut payload, body.as_slice());
    assert(payload@ =~= motd_bytes(text@));
    payload
}

/// Encodes `s` as a length-prefixed string, for the messages of the login
/// server.
pub fn protocol_str_fmt(s: &str) -> (bytes: Vec<u8>)
    ensures
        bytes@ == str_bytes(s@),
{
    str_fmt(s)
}

/// The two bytes that the sample character list gives as the port of the
/// game world.
pub const WORLD_SERVER_PORT_BYTES: [u8; 2] = [71, 71];

/// A sample character list: one character called "test" of the world
/// "test", the address and the port bytes of the game world, and one day of
/// premium time.
pub open spec fn characters_bytes() -> Seq<u8> {
    seq![0x64u8, 0x01u8] + str_bytes("test"@) + str_bytes("test"@) + GAME_WORLD_IP@
        + WORLD_SERVER_PORT_BYTES@ + u16_le(1)
}

/// Builds the sample character list.
pub fn characters_payload() -> (payload: Vec<u8>)
    ensures
        payload@ == characters_bytes(),
{
    let mut payload: Vec<u8> = Vec::new();
    payload.push(LoginPacketType::CharacterList.code());
    payload.push(0x01);
    let name = protocol_str_fmt("test");
    push_bytes(&mut payload, name.as_slice());
    let world = protocol_str_fmt("test");
    push_bytes(&mut payload, world.as_slice());
    push_bytes(&mut payload, GAME_WORLD_IP.as_slice());
    push_bytes(&mut payload, WORLD_SERVER_PORT_BYTES.as_slice());
    push_u16_le(&mut payload, 1);
    assert(payload@ =~= characters_bytes());
    payload
}

/// Number of tiles of the sample world: a full viewport of one floor.
pub const SAMPLE_WORLD_TILES: u16 = 252;

/// The kind of floor that every tile of the sample world has.
pub const SAMPLE_FLOOR: u16 = 3410;

/// Wire form of `n` tiles of the sample world: each its floor and a marker
/// that no cell is skipped behind it.
pub open spec fn sample_tiles(n: nat) -> Seq<u8>
    decreases n,
{
    if n == 0 {
        Seq::empty()
    } else {
        sample_tiles((n - 1) as nat) + u16_le(SAMPLE_FLOOR) + seq![0x00u8, 0xFFu8]
    }
}

/// A sample message that lets a player into a world of one floor: the game
/// parameters, the player's position (123, 123, 6), the tiles of the sample
/// world, and a closing byte.
pub open spec fn world_init_bytes() -> Seq<u8> {
    seq![0x0Au8, 0u8, 0u8, 0u8, 1u8, 32u8, 0u8, 0u8, 0x64u8] + u16_le(123) + u16_le(123)
        + seq![6u8] + sample_tiles(SAMPLE_WORLD_TILES as nat) + seq![0xFFu8]
}

/// Builds the sample message that lets a player into the sample world.
pub fn world_init_payload() -> (payload: Vec<u8>)
    ensures
        payload@ == world_init_bytes(),
{
    let mut payload: Vec<u8> = Vec::new();
    payload.push(ServerPacketType::GameInit.code());
    payload.push(0);
    payload.push(0);
    payload.push(0);
    payload.push(1);
    payload.push(32);
    payload.push(0);
    payload.push(0);
    payload.push(ServerPacketType::FullMap.code());
    push_u16_le(&mut payload, 123);
    push_u16_le(&mut payload, 123);
    payload.push(6);
    let ghost head = payload@;
    assert(head =~= seq![0x0Au8, 0u8, 0u8, 0u8, 1u8, 32u8, 0u8, 0u8, 0x64u8] + u16_le(123)
        + u16_le(123) + seq![6u8]);
    let mut i: u16 = 0;
    assert(payload@ =~= head + sample_tiles(0));
    while i < SAMPLE_WORLD_TILES
        invariant
            i <= SAMPLE_WORLD_TILES,
            payload@ == head + sample_tiles(i as nat),
        decreases SAMPLE_WORLD_TILES - i,
    {
        push_u16_le(&mut payload, SAMPLE_FLOOR);
        payload.push(0x00);
        payload.push(0xFF);
        i += 1;
        assert(payload@ =~= head + sample_tiles(i as nat));
    }
    payload.push(0xFF);
    assert(payload@ =~= world_init_bytes());
    payload
}

/// Wire form of a position: `x` and `y` as little-endian `u16`, then `z`.
pub open spec fn position_bytes(pos: (u16, u16, u8)) -> Seq<u8> {
    u16_le(pos.0) + u16_le(pos.1) + seq![pos.2]
}

/// Encodes a position.
pub fn write_position(pos: &(u16, u16, u8)) -> (payload: Vec<u8>)
    ensures
        payload@ == position_bytes(*pos),
{
    let mut payload: Vec<u8> = Vec::new();
    push_u16_le(&mut payload, pos.0);
    push_u16_le(&mut payload, pos.1);
    payload.push(pos.2);
    assert(payload@ =~= position_bytes(*pos));
    payload
}

/// The message that shows the creature `creature` appearing at `pos`.
pub open spec fn creature_added_bytes(pos: (u16, u16, u8), creature: CreatureView) -> Seq<u8> {
    seq![0x6Au8] + position_bytes(pos) + creature_bytes(creature)
}

/// Builds the message that shows `creature` appearing at `pos`.
pub fn creature_added_payload(pos: &(u16, u16, u8), creature: Creature) -> (payload: Vec<u8>)
    ensures
        payload@ == creature_added_bytes(*pos, creature@),
{
    let mut payload: Vec<u8> = Vec::new();
    payload.push(ServerPacketType::AddThing.code());
    let position = write_position(pos);
    push_bytes(&mut payload, position.as_slice());
    let body = creature.as_bytes();
    push_bytes(&mut payload, body.as_slice());
    assert(payload@ =~= creature_added_bytes(*pos, creature@));
    payload
}

/// The message that moves the thing at `stack_pos` of `from` to `to`.
pub open spec fn thing_moved_bytes(from: (u16, u16, u8), stack_pos: u8, to: (u16, u16, u8)) -> Seq<
    u8,
> {
    seq![0x6Du8] + position_bytes(from) + seq![stack_pos] + position_bytes(to)
}

/// Builds the message that moves the thing at `stack_pos` of `from` to `to`.
pub fn thing_moved_payload(from: &(u16, u16, u8), stack_pos: u8, to: &(u16, u16, u8)) -> (payload:
    Vec<u8>)
    ensures
        payload@ == thing_moved_bytes(*from, stack_pos, *to),
{
    let mut payload: Vec<u8> = Vec::new();
    payload.push(ServerPacketType::ThingMoved.code());
    let source = write_position(from);
    push_bytes(&mut payload, source.as_slice());
    payload.push(stack_pos);
    let target = write_position(to);
    push_bytes(&mut payload, target.as_slice());
    assert(payload@ =~= thing_moved_bytes(*from, stack_pos, *to));
    payload
}

/// The message that adds an item of kind `client_item_id` to the open
/// container `container_id`.
pub open spec fn add_item_to_container_bytes(client_item_id: u16, container_id: u8) -> Seq<u8> {
    seq![0x70u8, container_id] + u16_le(client_item_id)
}

/// Builds the message that adds an item to an open container.
pub fn add_item_to_container_payload(client_item_id: &u16, container_id: u8) -> (payload: Vec<u8>)
    ensures
        payload@ == add_item_to_container_bytes(*client_item_id, container_id),
{
    let mut payload: Vec<u8> = Vec::new();
    payload.push(ServerPacketType::AddItemToContainer.code());
    payload.push(container_id);
    push_u16_le(&mut payload, *client_item_id);
    assert(payload@ =~= add_item_to_container_bytes(*client_item_id, container_id));
    payload
}

/// The message that removes the item in `slot` of the open container
/// `container_id`.
pub open spec fn remove_item_from_container_bytes(container_id: u8, slot: u8) -> Seq<u8> {
    seq![0x72u8, container_id, slot]
}

/// Builds the message that removes an item from an open container.
pub fn remove_item_from_container_payload(container_id: u8, slot: u8) -> (payload: Vec<u8>)
    ensures
        payload@ == remove_item_from_container_bytes(container_id, slot),
{
    let mut payload: Vec<u8> = Vec::new();
    payload.push(ServerPacketType::RemoveItemFromContainer.code());
    payload.push(container_id);
    payload.push(slot);
    assert(payload@ =~= remove_item_from_container_bytes(container_id, slot));
    payload
}

/// The message that puts an item of kind `client_item_id` into the
/// inventory slot `slot`.
pub open spec fn add_item_to_inventory_bytes(client_item_id: u16, slot: u8) -> Seq<u8> {
    seq![0x78u8, slot] + u16_le(client_item_id)
}

/// Builds the message that puts an item into an inventory slot.
pub fn add_item_to_inventory_payload(client_item_id: u16, slot: u8) -> (payload: Vec<u8>)
    ensures
        payload@ == add_item_to_inventory_bytes(client_item_id, slot),
{
    let mut payload: Vec<u8> = Vec::new();
    payload.push(ServerPacketType::AddItemToInventory.code());
    payload.push(slot);
    push_u16_le(&mut payload, client_item_id);
    assert(payload@ =~= add_item_to_inventory_bytes(client_item_id, slot));
    payload
}

/// The message that empties the inventory slot `slot`.
pub open spec fn remove_item_from_inventory_bytes(slot: u8) -> Seq<u8> {
    seq![0x79u8, slot]
}

/// Builds the message that empties an inventory slot.
pub fn remove_item_from_inventory_payload(slot: u8) -> (payload: Vec<u8>)
    ensures
        payload@ == remove_item_from_inventory_bytes(slot),
{
    let mut payload: Vec<u8> = Vec::new();
    payload.push(ServerPacketType::RemoveItemFromInventory.code());
    payload.push(slot);
    assert(payload@ =~= remove_item_from_inventory_bytes(slot));
    payload
}

/// The message that removes the thing at `stack_pos` of `pos`.
pub open spec fn remove_thing_bytes(pos: (u16, u16, u8), stack_pos: u8) -> Seq<u8> {
    seq![0x6Cu8] + position_bytes(pos) + seq![stack_pos]
}

/// Builds the message that removes the thing at `stack_pos` of `pos`.
pub fn remove_thing_payload(pos: &(u16, u16, u8), stack_pos: u8) -> (payload: Vec<u8>)
    ensures
        payload@ == remove_thing_bytes(*pos, stack_pos),
{
    let mut payload: Vec<u8> = Vec::new();
    payload.push(ServerPacketType::RemoveThing.code());
    let position = write_position(pos);
    push_bytes(&mut payload, position.as_slice());
    payload.push(stack_pos);
    assert(payload@ =~= remove_thing_bytes(*pos, stack_pos));
    payload
}

/// The message that shows an item of kind `item_id` appearing at `to`.
pub open spec fn add_thing_bytes(to: (u16, u16, u8), item_id: u16) -> Seq<u8> {
    seq![0x6Au8] + position_bytes(to) + u16_le(item_id)
}

/// Builds the message that shows an item appearing at `to`.
pub fn add_thing_payload(to: &(u16, u16, u8), item_id: &u16) -> (payload: Vec<u8>)
    ensures
        payload@ == add_thing_bytes(*to, *item_id),
{
    let mut payload: Vec<u8> = Vec::new();
    payload.push(ServerPacketType::AddThing.code());
    let position = write_position(to);
    push_bytes(&mut payload, position.as_slice());
    push_u16_le(&mut payload, *item_id);
    assert(payload@ =~= add_thing_bytes(*to, *item_id));
    payload
}

/// The message that opens `container` on the client under the title `name`:
/// handle, kind, title, capacity, whether it has a parent, the number of
/// items cut to eight bits, and the kind of each item.
pub open spec fn container_bytes(
    container: ContainerView,
    name: Seq<char>,
    capacity: u8,
    parent: u8,
) -> Seq<u8> {
    seq![0x6Eu8, container.container_id] + u16_le(container.client_id) + str_bytes(name)
        + seq![capacity, parent, (container.items.len() % 256) as u8] + item_ids_bytes(
        container.items,
    )
}

/// Builds the message that opens `container` on the client.
pub fn container_payload(container: &Container, name: &str, capacity: u8, parent: u8) -> (payload:
    Vec<u8>)
    ensures
        payload@ == container_bytes(container@, name@, capacity, parent),
{
    let mut payload: Vec<u8> = Vec::new();
    payload.push(ServerPacketType::OpenContainer.code());
    payload.push(container.container_id);
    push_u16_le(&mut payload, container.client_id);
    let title = write_str(name);
    push_bytes(&mut payload, title.as_slice());
    payload.push(capacity);
    payload.push(parent);
    payload.push((container.items.len() % 256) as u8);
    push_item_ids(&mut payload, &container.items);
    assert(payload@ =~= container_bytes(container@, name@, capacity, parent));
    payload
}

/// The message that closes the open container `container_id`.
pub open spec fn close_container_bytes(container_id: u8) -> Seq<u8> {
    seq![0x6Fu8, container_id]
}

/// Builds the message that closes an open container.
pub fn close_container_payload(container_id: u8) -> (payload: Vec<u8>)
    ensures
        payload@ == close_container_bytes(container_id),
{
    let mut payload: Vec<u8> = Vec::new();
    payload.push(ServerPacketType::CloseContainer.code());
    payload.push(container_id);
    assert(payload@ =~= close_container_bytes(container_id));
    payload
}

/// The cells of the full viewport around `pos` on the floors 0 to 7.
pub open spec fn viewport_cells(world: Map<(u16, u16, u8), TileView>, pos: (u16, u16, u8)) -> Seq<
    Option<TileView>,
> {
    box_cells(
        world,
        pos.0 - VIEWPORT_X,
        pos.0 + VIEWPORT_X + 2,
        pos.1 - VIEWPORT_Y,
        pos.1 + VIEWPORT_Y + 2,
        0,
        8,
    )
}

/// The message that lets the character `character_id` into the game at
/// `pos`: the game parameters, then the full viewport around `pos`, then the
/// light of the world.
pub open spec fn enter_game_bytes(
    world: Map<(u16, u16, u8), TileView>,
    pos: (u16, u16, u8),
    character_id: u32,
) -> Seq<u8> {
    seq![0x0Au8] + u32_le(character_id) + u16_le(50) + seq![0u8, 0x64u8] + position_bytes(pos)
        + map_description(viewport_cells(world, pos)) + seq![0x82u8, 0x6Fu8, 0xD7u8]
}

/// Builds the message that lets a character into the game.
pub fn enter_game_payload(state: &State, pos: &(u16, u16, u8), character_id: u32) -> (payload: Vec<
    u8,
>)
    requires
        viewport_in_range(*pos),
    ensures
        payload@ == enter_game_bytes(state@, *pos, character_id),
{
    let mut payload: Vec<u8> = Vec::new();
    payload.push(ServerPacketType::GameInit.code());
    push_u32_le(&mut payload, character_id);
    push_u16_le(&mut payload, 50);
    payload.push(0);
    payload.push(ServerPacketType::FullMap.code());
    let position = write_position(pos);
    push_bytes(&mut payload, position.as_slice());
    let map = get_map_description(
        state,
        pos.0 - VIEWPORT_X,
        pos.0 + VIEWPORT_X + 1,
        pos.1 - VIEWPORT_Y,
        pos.1 + VIEWPORT_Y + 1,
        0,
        7,
    );
    push_bytes(&mut payload, map.as_slice());
    payload.push(0x82);
    payload.push(0x6F);
    payload.push(0xD7);
    assert(payload@ =~= enter_game_bytes(state@, *pos, character_id));
    payload
}

/// The entries of the character list: for each character its name, its
/// world and the address and port of the game world.
pub open spec fn character_entries_bytes(characters: Seq<CharacterView>) -> Seq<u8>
    decreases characters.len(),
{
    if characters.len() == 0 {
        Seq::empty()
    } else {
        character_entries_bytes(characters.drop_last()) + str_bytes(characters.last().name)
            + str_bytes(characters.last().world) + GAME_WORLD_IP@ + u16_le(GAME_WORLD_PORT)
    }
}

/// The character list: the number of characters cut to eight bits, their
/// entries, and one day of premium time.
pub open spec fn login_bytes(characters: Seq<CharacterView>) -> Seq<u8> {
    seq![0x64u8, (characters.len() % 256) as u8] + character_entries_bytes(characters) + u16_le(1)
}

/// Builds the character list.
pub fn login_payload(characters: &Vec<Character>) -> (payload: Vec<u8>)
    ensures
        payload@ == login_bytes(characters_view(characters@)),
{
    let mut payload: Vec<u8> = Vec::new();
    payload.push(LoginPacketType::CharacterList.code());
    payload.push((characters.len() % 256) as u8);
    let ghost head = payload@;
    let mut i: usize = 0;
    while i < characters.len()
        invariant
            i <= characters.len(),
            payload@ == head + character_entries_bytes(
                characters_view(characters@.subrange(0, i as int)),
            ),
        decreases characters.len() - i,
    {
        let name = write_str(characters[i].name.as_str());
        push_bytes(&mut payload, name.as_slice());
        let world = write_str(characters[i].world.as_str());
        push_bytes(&mut payload, world.as_slice());
        push_bytes(&mut payload, GAME_WORLD_IP.as_slice());
        push_u16_le(&mut payload, GAME_WORLD_PORT);
        proof {
            let done = characters_view(characters@.subrange(0, i as int));
            let next = characters_view(characters@.subrange(0, i + 1));
            assert(next.drop_last() =~= done);
            assert(next.last() == characters@[i as int]@);
            assert(payload@ =~= head + character_entries_bytes(next));
        }
        i += 1;
    }
    assert(characters@.subrange(0, i as int) =~= characters@);
    push_u16_le(&mut payload, 1);
    assert(payload@ =~= login_bytes(characters_view(characters@)));
    payload
}

/// The cells of the strip that comes into sight with a step in `direction`
/// to `to`, on the floors from `to`'s own down to 0.
pub open spec fn strip_cells(
    world: Map<(u16, u16, u8), TileView>,
    direction: Direction,
    to: (u16, u16, u8),
) -> Seq<Option<TileView>> {
    let bounds = direction.strip(to);
    box_cells(
        world,
        bounds.0 as int,
        bounds.1 + 1,
        bounds.2 as int,
        bounds.3 + 1,
        0,
        to.2 + 1,
    )
}

/// The message that extends the client's map after a step in `direction`
/// to `to`.
pub open spec fn map_direction_bytes(
    world: Map<(u16, u16, u8), TileView>,
    direction: Direction,
    to: (u16, u16, u8),
) -> Seq<u8> {
    seq![direction.spec_packet_id()] + map_description(strip_cells(world, direction, to))
}

/// Builds the message that extends the client's map after a step.
pub fn map_direction_payload(state: &State, direction: Direction, to: (u16, u16, u8)) -> (payload:
    Vec<u8>)
    requires
        direction.strip_in_range(to),
    ensures
        payload@ == map_direction_bytes(state@, direction, to),
{
    let mut payload: Vec<u8> = Vec::new();
    payload.push(direction.packet_id());
    let bounds = direction.map_description_bounds(to);
    let map = get_map_description(state, bounds.0, bounds.1, bounds.2, bounds.3, 0, to.2);
    push_bytes(&mut payload, map.as_slice());
    assert(payload@ =~= map_direction_bytes(state@, direction, to));
    payload
}

/// The message that changes the thing at `stack_pos` of `pos`: into an item
/// of kind `id` where one is given, else into what follows in the stream.
pub open spec fn thing_transformed_bytes(pos: (u16, u16, u8), stack_pos: u8, id: Option<u16>) -> Seq<
    u8,
> {
    seq![0x6Bu8] + position_bytes(pos) + seq![stack_pos] + match id {
        Some(i) => u16_le(i),
        None => Seq::empty(),
    }
}

/// Builds the message that changes the thing at `stack_pos` of `pos`.
pub fn thing_transformed_payload(pos: &(u16, u16, u8), stack_pos: u8, id: Option<u16>) -> (payload:
    Vec<u8>)
    ensures
        payload@ == thing_transformed_bytes(*pos, stack_pos, id),
{
    let mut payload: Vec<u8> = Vec::new();
    payload.push(ServerPacketType::ThingTransformed.code());
    let position = write_position(pos);
    push_bytes(&mut payload, position.as_slice());
    payload.push(stack_pos);
    if let Some(i) = id {
        push_u16_le(&mut payload, i);
    }
    assert(payload@ =~= thing_transformed_bytes(*pos, stack_pos, id));
    payload
}

/// The message that shows the effect numbered `effect_type` at `pos`; on
/// the wire effects are numbered from one.
pub open spec fn magic_effect_bytes(pos: (u16, u16, u8), effect_type: u8) -> Seq<u8> {
    seq![0x83u8] + position_bytes(pos) + seq![(effect_type + 1) as u8]
}

/// Builds the message that shows an effect at `pos`.
pub fn magic_effect_payload(pos: &(u16, u16, u8), effect_type: u8) -> (payload: Vec<u8>)
    requires
        effect_type < 0xFF,
    ensures
        payload@ == magic_effect_bytes(*pos, effect_type),
{
    let mut payload: Vec<u8> = Vec::new();
    payload.push(ServerPacketType::MagicEffect.code());
    let position = write_position(pos);
    push_bytes(&mut payload, position.as_slice());
    payload.push(effect_type + 1);
    assert(payload@ =~= magic_effect_bytes(*pos, effect_type));
    payload
}

/// The message that lets the creature called `speaker_name` say `text` at
/// `pos`.
pub open spec fn speech_bytes(
    text: Seq<char>,
    speaker_name: Seq<char>,
    speech_type: SpeechType,
    pos: (u16, u16, u8),
) -> Seq<u8> {
    seq![0xAAu8] + str_bytes(speaker_name) + seq![speech_type.spec_code()] + position_bytes(pos)
        + str_bytes(text)
}

/// Builds the message that lets a creature speak.
pub fn speech_payload(
    text: &str,
    speaker_name: &str,
    speech_type: SpeechType,
    pos: &(u16, u16, u8),
) -> (payload: Vec<u8>)
    ensures
        payload@ == speech_bytes(text@, speaker_name@, speech_type, *pos),
{
    let mut payload: Vec<u8> = Vec::new();
    payload.push(ServerPacketType::CreatureSpeak.code());
    let speaker = write_str(speaker_name);
    push_bytes(&mut payload, speaker.as_slice());
    payload.push(speech_type.code());
    let position = write_position(pos);
    push_bytes(&mut payload, position.as_slice());
    let words = write_str(text);
    push_bytes(&mut payload, words.as_slice());
    assert(payload@ =~= speech_bytes(text@, speaker_name@, speech_type, *pos));
    payload
}

/// The message that turns the creature `creature_id` to face `direction`.
pub open spec fn creature_turn_bytes(direction: Direction, creature_id: u32) -> Seq<u8> {
    seq![0x63u8, 0u8] + u32_le(creature_id) + seq![direction.spec_code()]
}

/// Builds the message that turns a creature.
pub fn creature_turn_payload(direction: Direction, creature_id: u32) -> (payload: Vec<u8>)
    ensures
        payload@ == creature_turn_bytes(direction, creature_id),
{
    let mut payload: Vec<u8> = Vec::new();
    payload.push(ServerPacketType::CreatureTurn.code());
    payload.push(0);
    push_u32_le(&mut payload, creature_id);
    payload.push(direction.code());
    assert(payload@ =~= creature_turn_bytes(direction, creature_id));
    payload
}

} // verus!
