//! The shared world state, the containers a client has open, and the
//! decisions of one client connection.

use crate::creature::{
    character_creature, characters_view, inventory_slot, inventory_with, opt_character_view,
    Character, CharacterView,
};
use crate::event_handler::{commands_view, Command, CommandView, ServerEvent, ServerEventView};
use crate::item::{item_view_items, items_view, Item, ItemView};
use crate::map::{
    address_of, has_viewport, parse_address, viewport_in_range, Address, Direction, Tile,
    TileView, OFF_MAP,
};
use crate::payload::{
    add_item_to_container_bytes, add_item_to_container_payload, add_item_to_inventory_bytes,
    add_item_to_inventory_payload, add_thing_bytes, add_thing_payload, close_container_bytes,
    close_container_payload, container_bytes, container_payload, creature_added_bytes,
    creature_added_payload, creature_turn_bytes, creature_turn_payload, enter_game_bytes,
    enter_game_payload, login_bytes, login_payload, magic_effect_bytes, magic_effect_payload,
    map_direction_bytes, map_direction_payload, push_bytes, push_u16_le,
    remove_item_from_container_bytes, remove_item_from_container_payload,
    remove_item_from_inventory_bytes, remove_item_from_inventory_payload, remove_thing_bytes,
    remove_thing_payload, speech_bytes, speech_payload, thing_moved_bytes, thing_moved_payload,
    thing_transformed_bytes, thing_transformed_payload, u16_le, MagicEffect, SpeechType,
};
use std::collections::HashMap;
use vstd::prelude::*;

verus! {

broadcast use vstd::std_specs::hash::group_hash_axioms;

/// The key under which the tile at `pos` is stored: the three coordinates
/// side by side in one number.
pub open spec fn pos_key(pos: (u16, u16, u8)) -> u64 {
    (pos.0 * 0x100_0000 + pos.1 * 0x100 + pos.2) as u64
}

/// Computes the key under which the tile at `pos` is stored.
pub fn key_of(pos: (u16, u16, u8)) -> (key: u64)
    ensures
        key == pos_key(pos),
{
    (pos.0 as u64) * 0x100_0000 + (pos.1 as u64) * 0x100 + (pos.2 as u64)
}

/// Different positions are stored under different keys.
pub proof fn pos_key_injective(a: (u16, u16, u8), b: (u16, u16, u8))
    ensures
        pos_key(a) == pos_key(b) <==> a == b,
{
}

/// Whether `key` is the key of some position.
pub open spec fn is_pos_key(key: u64) -> bool {
    key < 0x100_0000_0000
}

/// The keys of positions are exactly the numbers below two to the power of
/// forty.
pub proof fn pos_keys_are_the_small_numbers(key: u64)
    ensures
        is_pos_key(key) <==> exists|pos: (u16, u16, u8)| #[trigger] pos_key(pos) == key,
{
    if is_pos_key(key) {
        let pos = ((key / 0x100_0000) as u16, (key / 0x100 % 0x1_0000) as u16, (key % 0x100) as u8);
        assert(pos_key(pos) == key);
    }
}

/// The tile grid of the world. Its model maps each position that has a tile
/// to the model of that tile.
#[derive(Debug)]
pub struct State {
    pub map: HashMap<u64, Tile>,
}

impl View for State {
    type V = Map<(u16, u16, u8), TileView>;

    open spec fn view(&self) -> Map<(u16, u16, u8), TileView> {
        Map::new(
            |pos: (u16, u16, u8)| self.map@.contains_key(pos_key(pos)),
            |pos: (u16, u16, u8)| self.map@[pos_key(pos)]@,
        )
    }
}

impl State {
    /// Whether the grid is well formed: every tile is stored under the key
    /// of a position, so that the model shows all that the grid holds.
    pub open spec fn wf(&self) -> bool {
        forall|key: u64| self.map@.contains_key(key) ==> is_pos_key(key)
    }

    /// A world without any tile.
    pub fn new() -> (res: State)
        ensures
            res@ == Map::<(u16, u16, u8), TileView>::empty(),
            res.wf(),
    {
        let res = State { map: HashMap::new() };
        assert(res@ =~= Map::<(u16, u16, u8), TileView>::empty());
        res
    }

    /// Tells whether the world has a tile at `pos`.
    pub fn has_tile(&self, pos: (u16, u16, u8)) -> (res: bool)
        ensures
            res == self@.contains_key(pos),
    {
        let key: u64 = key_of(pos);
        self.map.contains_key(&key)
    }

    /// The tile at `pos`, if the world has one there.
    pub fn get_tile(&self, pos: (u16, u16, u8)) -> (res: Option<&Tile>)
        ensures
            match res {
                Some(tile) => self@.contains_key(pos) && tile@ == self@[pos],
                None => !self@.contains_key(pos),
            },
    {
        let key: u64 = key_of(pos);
        self.map.get(&key)
    }

    /// Puts `tile` at `pos`, in place of any tile that was there.
    pub fn set_tile(&mut self, pos: (u16, u16, u8), tile: Tile)
        ensures
            final(self)@ == old(self)@.insert(pos, tile@),
            old(self).wf() ==> final(self).wf(),
    {
        let key: u64 = key_of(pos);
        self.map.insert(key, tile);
        proof {
            assert forall|p: (u16, u16, u8)| pos_key(p) == pos_key(pos) <==> p == pos by {
                pos_key_injective(p, pos);
            }
            assert(self@ =~= old(self)@.insert(pos, tile@));
        }
    }

    /// Takes the tile at `pos` out of the world, if there is one.
    pub fn take_tile(&mut self, pos: (u16, u16, u8)) -> (res: Option<Tile>)
        ensures
            final(self)@ == old(self)@.remove(pos),
            old(self).wf() ==> final(self).wf(),
            match res {
                Some(tile) => old(self)@.contains_key(pos) && tile@ == old(self)@[pos],
                None => !old(self)@.contains_key(pos),
            },
    {
        let key: u64 = key_of(pos);
        let res = self.map.remove(&key);
        proof {
            assert forall|p: (u16, u16, u8)| pos_key(p) == pos_key(pos) <==> p == pos by {
                pos_key_injective(p, pos);
            }
            assert(self@ =~= old(self)@.remove(pos));
        }
        res
    }
}

/// Model of a [`Container`].
pub ghost struct ContainerView {
    pub container_id: u8,
    pub parent_id: Option<u8>,
    pub client_id: u16,
    pub items: Seq<ItemView>,
    pub pos: (u16, u16, u8),
    pub stack_pos: u8,
    pub name: Seq<char>,
    pub capacity: u8,
}

/// A container as one client sees it while it is open: the handle the client
/// knows it by, the handle under which its parent is kept, where the
/// container lies, and a mirror of what it holds.
#[derive(Debug, PartialEq, Eq)]
pub struct Container {
    pub container_id: u8,
    pub parent_id: Option<u8>,
    pub client_id: u16,
    pub items: Vec<Item>,
    pub pos: (u16, u16, u8),
    pub stack_pos: u8,
    pub name: String,
    pub capacity: u8,
}

impl View for Container {
    type V = ContainerView;

    open spec fn view(&self) -> ContainerView {
        ContainerView {
            container_id: self.container_id,
            parent_id: self.parent_id,
            client_id: self.client_id,
            items: items_view(self.items@),
            pos: self.pos,
            stack_pos: self.stack_pos,
            name: self.name@,
            capacity: self.capacity,
        }
    }
}

/// Copies a list of items.
pub fn clone_items(items: &Vec<Item>) -> (res: Vec<Item>)
    ensures
        items_view(res@) == items_view(items@),
{
    let mut res: Vec<Item> = Vec::new();
    let mut i: usize = 0;
    while i < items.len()
        invariant
            i <= items.len(),
            res@.len() == i,
            forall|j: int| 0 <= j < i ==> res@[j]@ == items@[j]@,
        decreases items.len() - i,
    {
        res.push(items[i].clone());
        i += 1;
    }
    assert(items_view(res@) =~= items_view(items@));
    res
}

impl Clone for Container {
    fn clone(&self) -> (res: Container)
        ensures
            res@ == self@,
    {
        Container {
            container_id: self.container_id,
            parent_id: self.parent_id,
            client_id: self.client_id,
            items: clone_items(&self.items),
            pos: self.pos,
            stack_pos: self.stack_pos,
            name: self.name.clone(),
            capacity: self.capacity,
        }
    }
}

/// `String::push` of the standard library: the string afterwards is the
/// string before with `c` at its end.
#[verifier::external_body]
pub(crate) fn string_push(s: &mut String, c: char)
    ensures
        final(s)@ == old(s)@.push(c),
{
    s.push(c);
}

/// The byte at `idx` of `buf`, with the index behind it. Nothing where
/// `buf` ends before.
pub open spec fn get_u8(buf: Seq<u8>, idx: int) -> Option<(u8, int)> {
    if 0 <= idx < buf.len() {
        Some((buf[idx], idx + 1))
    } else {
        None
    }
}

/// The little-endian `u16` at `idx` of `buf`, with the index behind it.
/// Nothing where `buf` ends before.
pub open spec fn get_u16_le(buf: Seq<u8>, idx: int) -> Option<(u16, int)> {
    if 0 <= idx && idx + 2 <= buf.len() {
        Some(((buf[idx] + 256 * buf[idx + 1]) as u16, idx + 2))
    } else {
        None
    }
}

/// The little-endian `u32` at `idx` of `buf`, with the index behind it.
/// Nothing where `buf` ends before.
pub open spec fn get_u32_le(buf: Seq<u8>, idx: int) -> Option<(u32, int)> {
    if 0 <= idx && idx + 4 <= buf.len() {
        Some(
            (
                (buf[idx] + 256 * buf[idx + 1] + 65536 * buf[idx + 2] + 16777216 * buf[idx
                    + 3]) as u32,
                idx + 4,
            ),
        )
    } else {
        None
    }
}

/// The characters that the bytes `bytes` stand for, one character for each
/// byte: the character with the byte's value as its number.
pub open spec fn byte_chars(bytes: Seq<u8>) -> Seq<char> {
    Seq::new(bytes.len(), |i: int| bytes[i] as char)
}

/// The string at `idx` of `buf`, with the index behind it: a little-endian
/// `u16` that counts the bytes, then as many bytes. Nothing where `buf`
/// ends before.
pub open spec fn get_str(buf: Seq<u8>, idx: int) -> Option<(Seq<char>, int)> {
    match get_u16_le(buf, idx) {
        Some((len, start)) => if start + len <= buf.len() {
            Some((byte_chars(buf.subrange(start, start + len)), start + len))
        } else {
            None
        },
        None => None,
    }
}

/// The position at `idx` of `buf`, with the index behind it: `x` and `y`
/// as little-endian `u16`, then `z`. Nothing where `buf` ends before.
pub open spec fn get_position(buf: Seq<u8>, idx: int) -> Option<((u16, u16, u8), int)> {
    if 0 <= idx && idx + 5 <= buf.len() {
        Some(
            (
                (
                    (buf[idx] + 256 * buf[idx + 1]) as u16,
                    (buf[idx + 2] + 256 * buf[idx + 3]) as u16,
                    buf[idx + 4],
                ),
                idx + 5,
            ),
        )
    } else {
        None
    }
}

/// What is written as a little-endian integer or as a position is read
/// back as the same value, with the index behind it.
pub proof fn written_values_are_read_back(word: u16, long: u32, pos: (u16, u16, u8))
    ensures
        get_u16_le(u16_le(word), 0) == Some((word, 2int)),
        get_u32_le(crate::payload::u32_le(long), 0) == Some((long, 4int)),
        get_position(crate::payload::position_bytes(pos), 0) == Some((pos, 5int)),
{
    let p = crate::payload::position_bytes(pos);
    assert(p =~= seq![
        (pos.0 % 256) as u8,
        (pos.0 / 256) as u8,
        (pos.1 % 256) as u8,
        (pos.1 / 256) as u8,
        pos.2,
    ]);
}

/// The opcode of the packet that starts at `idx` of `buf`, with the index
/// behind it: the byte after a prefix of two bytes.
pub open spec fn get_packet_id(buf: Seq<u8>, idx: int) -> Option<(u8, int)> {
    if 0 <= idx && idx + 3 <= buf.len() {
        Some((buf[idx + 2], idx + 3))
    } else {
        None
    }
}

/// A payload as it goes out: its length as a little-endian `u16`, then the
/// payload. A payload whose length does not fit is not framed.
pub open spec fn framed(payload: Seq<u8>) -> Option<Seq<u8>> {
    if payload.len() <= 0xFFFF {
        Some(u16_le(payload.len() as u16) + payload)
    } else {
        None
    }
}

/// Frames a payload for the socket.
pub fn frame_packet(payload: &[u8]) -> (res: Option<Vec<u8>>)
    ensures
        match framed(payload@) {
            Some(bytes) => res matches Some(v) && v@ == bytes,
            None => res is None,
        },
{
    if payload.len() > 0xFFFF {
        return None;
    }
    let mut bytes: Vec<u8> = Vec::new();
    push_u16_le(&mut bytes, payload.len() as u16);
    push_bytes(&mut bytes, payload);
    Some(bytes)
}

/// Model of a [`Connection`].
pub ghost struct ConnectionView {
    pub id: u32,
    pub read_buffer: Seq<u8>,
    pub read_idx: int,
    pub character: Option<CharacterView>,
    pub open_containers: Map<u8, ContainerView>,
}

impl ConnectionView {
    /// The connection with its read cursor at `idx`.
    pub open spec fn at(self, idx: int) -> ConnectionView {
        ConnectionView { read_idx: idx, ..self }
    }

    /// The connection after a read that gave `read`: with the cursor behind
    /// what was read, or as it was where nothing could be read.
    pub open spec fn after<T>(self, read: Option<(T, int)>) -> ConnectionView {
        match read {
            Some((_, next)) => self.at(next),
            None => self,
        }
    }

    /// The connection with `container` open under `handle`.
    pub open spec fn with_container(self, handle: u8, container: ContainerView) -> ConnectionView {
        ConnectionView { open_containers: self.open_containers.insert(handle, container), ..self }
    }

    /// The connection with nothing open under `handle`.
    pub open spec fn without_container(self, handle: u8) -> ConnectionView {
        ConnectionView { open_containers: self.open_containers.remove(handle), ..self }
    }

    /// The connection with `character` as its character.
    pub open spec fn with_character(self, character: CharacterView) -> ConnectionView {
        ConnectionView { character: Some(character), ..self }
    }
}

/// What was read, without the index behind it.
pub open spec fn value_of<T>(read: Option<(T, int)>) -> Option<T> {
    match read {
        Some((value, _)) => Some(value),
        None => None,
    }
}

/// The state of one client connection: the bytes last received and how far
/// they have been read, the character played, and the containers that the
/// client has open, by handle.
#[derive(Debug)]
pub struct Connection {
    pub id: u32,
    pub read_buffer: Vec<u8>,
    pub read_idx: usize,
    pub character: Option<Character>,
    pub open_containers: HashMap<u8, Container>,
}

impl View for Connection {
    type V = ConnectionView;

    open spec fn view(&self) -> ConnectionView {
        ConnectionView {
            id: self.id,
            read_buffer: self.read_buffer@,
            read_idx: self.read_idx as int,
            character: opt_character_view(self.character),
            open_containers: self.open_containers@.map_values(|c: Container| c@),
        }
    }
}

impl Connection {
    /// A connection that has received nothing yet, plays no character and
    /// has no container open.
    pub fn new(id: u32) -> (res: Connection)
        ensures
            res@ == (ConnectionView {
                id,
                read_buffer: Seq::empty(),
                read_idx: 0,
                character: None,
                open_containers: Map::empty(),
            }),
    {
        let res = Connection {
            id,
            read_buffer: Vec::new(),
            read_idx: 0,
            character: None,
            open_containers: HashMap::new(),
        };
        assert(res@.open_containers =~= Map::<u8, ContainerView>::empty());
        res
    }

    /// Takes in the bytes of a new packet and puts the read cursor at their
    /// start.
    pub fn receive(&mut self, bytes: Vec<u8>)
        ensures
            final(self)@ == (ConnectionView { read_buffer: bytes@, read_idx: 0, ..old(self)@ }),
    {
        self.read_buffer = bytes;
        self.read_idx = 0;
    }

    /// The container open under `handle`, if there is one.
    pub fn open_container(&self, handle: u8) -> (res: Option<&Container>)
        ensures
            match res {
                Some(c) => self@.open_containers.contains_key(handle) && c@
                    == self@.open_containers[handle],
                None => !self@.open_containers.contains_key(handle),
            },
    {
        self.open_containers.get(&handle)
    }

    /// Opens `container` under `handle`, in place of what was open there.
    pub fn put_container(&mut self, handle: u8, container: Container)
        ensures
            final(self)@ == old(self)@.with_container(handle, container@),
    {
        self.open_containers.insert(handle, container);
        assert(self@.open_containers =~= old(self)@.open_containers.insert(handle, container@));
    }

    /// Closes what is open under `handle` and hands it out.
    pub fn take_container(&mut self, handle: u8) -> (res: Option<Container>)
        ensures
            final(self)@ == old(self)@.without_container(handle),
            match res {
                Some(c) => old(self)@.open_containers.contains_key(handle) && c@ == old(
                    self,
                )@.open_containers[handle],
                None => !old(self)@.open_containers.contains_key(handle),
            },
    {
        let res = self.open_containers.remove(&handle);
        assert(self@.open_containers =~= old(self)@.open_containers.remove(handle));
        res
    }

    /// Reads the opcode of the packet at the cursor.
    pub fn get_packet_id(&mut self) -> (res: Option<u8>)
        ensures
            res == value_of(get_packet_id(old(self)@.read_buffer, old(self)@.read_idx)),
            final(self)@ == old(self)@.after(
                get_packet_id(old(self)@.read_buffer, old(self)@.read_idx),
            ),
    {
        if self.read_buffer.len() < 3 || self.read_idx > self.read_buffer.len() - 3 {
            return None;
        }
        let id: u8 = self.read_buffer[self.read_idx + 2];
        self.read_idx += 3;
        Some(id)
    }

    /// Reads one byte at the cursor.
    pub fn read_u8(&mut self) -> (res: Option<u8>)
        ensures
            res == value_of(get_u8(old(self)@.read_buffer, old(self)@.read_idx)),
            final(self)@ == old(self)@.after(get_u8(old(self)@.read_buffer, old(self)@.read_idx)),
    {
        if self.read_idx >= self.read_buffer.len() {
            return None;
        }
        let byte: u8 = self.read_buffer[self.read_idx];
        self.read_idx += 1;
        Some(byte)
    }

    /// Reads a little-endian `u16` at the cursor.
    pub fn read_u16_le(&mut self) -> (res: Option<u16>)
        ensures
            res == value_of(get_u16_le(old(self)@.read_buffer, old(self)@.read_idx)),
            final(self)@ == old(self)@.after(
                get_u16_le(old(self)@.read_buffer, old(self)@.read_idx),
            ),
    {
        if self.read_buffer.len() < 2 || self.read_idx > self.read_buffer.len() - 2 {
            return None;
        }
        let first: u16 = self.read_buffer[self.read_idx] as u16;
        let second: u16 = self.read_buffer[self.read_idx + 1] as u16;
        self.read_idx += 2;
        Some(first + 256 * second)
    }

    /// Reads a little-endian `u32` at the cursor.
    pub fn read_u32_le(&mut self) -> (res: Option<u32>)
        ensures
            res == value_of(get_u32_le(old(self)@.read_buffer, old(self)@.read_idx)),
            final(self)@ == old(self)@.after(
                get_u32_le(old(self)@.read_buffer, old(self)@.read_idx),
            ),
    {
        if self.read_buffer.len() < 4 || self.read_idx > self.read_buffer.len() - 4 {
            return None;
        }
        let b0: u32 = self.read_buffer[self.read_idx] as u32;
        let b1: u32 = self.read_buffer[self.read_idx + 1] as u32;
        let b2: u32 = self.read_buffer[self.read_idx + 2] as u32;
        let b3: u32 = self.read_buffer[self.read_idx + 3] as u32;
        self.read_idx += 4;
        Some(b0 + 256 * b1 + 65536 * b2 + 16777216 * b3)
    }

    /// Reads a length-prefixed string at the cursor, one character for each
    /// byte.
    pub fn read_str(&mut self) -> (res: Option<String>)
        ensures
            match get_str(old(self)@.read_buffer, old(self)@.read_idx) {
                Some((text, _)) => res matches Some(s) && s@ == text,
                None => res is None,
            },
            final(self)@ == old(self)@.after(get_str(old(self)@.read_buffer, old(self)@.read_idx)),
    {
        if self.read_buffer.len() < 2 || self.read_idx > self.read_buffer.len() - 2 {
            return None;
        }
        let len: usize = self.read_buffer[self.read_idx] as usize + 256
            * (self.read_buffer[self.read_idx + 1] as usize);
        let start: usize = self.read_idx + 2;
        if len > self.read_buffer.len() - start {
            return None;
        }
        let mut text = String::new();
        let mut i: usize = 0;
        while i < len
            invariant
                i <= len,
                start + len <= self.read_buffer.len(),
                text@ == byte_chars(self.read_buffer@.subrange(start as int, start + i)),
            decreases len - i,
        {
            string_push(&mut text, self.read_buffer[start + i] as char);
            i += 1;
            assert(text@ =~= byte_chars(self.read_buffer@.subrange(start as int, start + i)));
        }
        self.read_idx = start + len;
        Some(text)
    }

    /// Reads a position at the cursor.
    pub fn read_position(&mut self) -> (res: Option<(u16, u16, u8)>)
        ensures
            res == value_of(get_position(old(self)@.read_buffer, old(self)@.read_idx)),
            final(self)@ == old(self)@.after(
                get_position(old(self)@.read_buffer, old(self)@.read_idx),
            ),
    {
        if self.read_buffer.len() < 5 || self.read_idx > self.read_buffer.len() - 5 {
            return None;
        }
        let x: u16 = self.read_buffer[self.read_idx] as u16 + 256 * (self.read_buffer[self.read_idx
            + 1] as u16);
        let y: u16 = self.read_buffer[self.read_idx + 2] as u16 + 256 * (
        self.read_buffer[self.read_idx + 3] as u16);
        let z: u8 = self.read_buffer[self.read_idx + 4];
        self.read_idx += 5;
        Some((x, y, z))
    }
}

/// The fields of the packet by which a client enters the game, as far as
/// they are used: the name of the character. The packet holds the client's
/// system and version, one more byte, the account number, the name and the
/// password.
pub open spec fn parse_enter_game(buf: Seq<u8>, idx: int) -> Option<(Seq<char>, int)> {
    match get_u16_le(buf, idx) {
        Some((_, i1)) => match get_u16_le(buf, i1) {
            Some((_, i2)) => match get_u8(buf, i2) {
                Some((_, i3)) => match get_u32_le(buf, i3) {
                    Some((_, i4)) => match get_str(buf, i4) {
                        Some((name, i5)) => match get_str(buf, i5) {
                            Some((_, i6)) => Some((name, i6)),
                            None => None,
                        },
                        None => None,
                    },
                    None => None,
                },
                None => None,
            },
            None => None,
        },
        None => None,
    }
}

/// The character `c` as the connection `id` plays it.
pub open spec fn played_by(c: CharacterView, id: u32) -> CharacterView {
    CharacterView { id, ..c }
}

/// What choosing the name `name` from the roster does: for each character
/// of that name, in roster order, the connection takes it on under its own
/// id and asks for its creature to enter the game where the character
/// stands.
pub open spec fn enter_game_effect(conn: ConnectionView, roster: Seq<CharacterView>, name: Seq<char>) -> (
    ConnectionView,
    Seq<CommandView>,
)
    decreases roster.len(),
{
    if roster.len() == 0 {
        (conn, Seq::empty())
    } else {
        let (before, commands) = enter_game_effect(conn, roster.drop_last(), name);
        let c = roster.last();
        if c.name == name {
            (
                before.with_character(played_by(c, conn.id)),
                commands.push(
                    CommandView::EnterGame {
                        character_creature: character_creature(played_by(c, conn.id)),
                        pos: c.position,
                    },
                ),
            )
        } else {
            (before, commands)
        }
    }
}

/// The command that a step in `direction` asks for: the character's
/// creature moves from where the character stands to the neighbouring
/// position. None without a character or at the edge of the coordinate
/// space.
pub open spec fn move_character_command(conn: ConnectionView, direction: Direction) -> Option<
    CommandView,
> {
    match conn.character {
        Some(c) => if direction.can_move(c.position) {
            Some(
                CommandView::MoveCreature {
                    from: c.position,
                    to: direction.neighbour(c.position),
                    direction,
                    creature_id: conn.id,
                },
            )
        } else {
            None
        },
        None => None,
    }
}

/// The command that a turn to `direction` asks for. None without a
/// character.
pub open spec fn turn_character_command(conn: ConnectionView, direction: Direction) -> Option<
    CommandView,
> {
    match conn.character {
        Some(c) => Some(
            CommandView::TurnCreature { pos: c.position, creature_id: conn.id, direction },
        ),
        None => None,
    }
}

/// The fields of the packet by which a client speaks: the way of speaking
/// and the text.
pub open spec fn parse_say(buf: Seq<u8>, idx: int) -> Option<((u8, Seq<char>), int)> {
    match get_u8(buf, idx) {
        Some((speech_type, i1)) => match get_str(buf, i1) {
            Some((text, i2)) => Some(((speech_type, text), i2)),
            None => None,
        },
        None => None,
    }
}

/// The command that saying `said` asks for. None without a character.
pub open spec fn say_command(conn: ConnectionView, said: (u8, Seq<char>)) -> Option<CommandView> {
    match conn.character {
        Some(c) => Some(
            CommandView::CreatureSpeech {
                pos: c.position,
                text: said.1,
                creature_name: c.name,
                speech_type: said.0,
            },
        ),
        None => None,
    }
}

/// The fields of the packet by which a client uses an item.
pub ghost struct UseItemPacket {
    pub from: (u16, u16, u8),
    pub item_id: u16,
    pub stack_pos: u8,
    pub index: u8,
}

/// Reads the packet by which a client uses an item: where the item is, its
/// kind, its stack position and the handle for a container to open.
pub open spec fn parse_use_item(buf: Seq<u8>, idx: int) -> Option<(UseItemPacket, int)> {
    match get_position(buf, idx) {
        Some((from, i1)) => match get_u16_le(buf, i1) {
            Some((item_id, i2)) => match get_u8(buf, i2) {
                Some((stack_pos, i3)) => match get_u8(buf, i3) {
                    Some((index, i4)) => Some(
                        (UseItemPacket { from, item_id, stack_pos, index }, i4),
                    ),
                    None => None,
                },
                None => None,
            },
            None => None,
        },
        None => None,
    }
}

/// The item that the packet `p` means. In an open container it is the item
/// in the addressed slot; without that container or item there is none. In
/// the inventory it is the item in the addressed slot, or, for an empty
/// slot, a bare item of the kind the packet names; without a character there
/// is none. On the ground it is a bare item of the kind the packet names.
pub open spec fn used_item(conn: ConnectionView, p: UseItemPacket) -> Option<ItemView> {
    let bare = ItemView { client_id: p.item_id, items: Seq::empty() };
    match address_of(p.from) {
        Address::InContainer(handle, slot) => if conn.open_containers.contains_key(handle) && slot
            < conn.open_containers[handle].items.len() {
            Some(conn.open_containers[handle].items[slot as int])
        } else {
            None
        },
        Address::InInventory(slot) => match conn.character {
            Some(c) => match inventory_slot(c.inventory, slot) {
                Some(it) => Some(it),
                None => Some(bare),
            },
            None => None,
        },
        Address::OnGround(_) => Some(bare),
    }
}

/// The command that the packet `p` asks for.
pub open spec fn use_item_command_of(conn: ConnectionView, p: UseItemPacket) -> Option<CommandView> {
    match used_item(conn, p) {
        Some(item) => Some(
            CommandView::UseItem {
                sender_id: conn.id,
                pos: p.from,
                stack_pos: p.stack_pos,
                item,
                index: p.index,
            },
        ),
        None => None,
    }
}

/// What closing the container `handle` does: nothing is open under the
/// handle any more, and the client is told so.
pub open spec fn close_container_effect(conn: ConnectionView, handle: u8) -> (
    ConnectionView,
    Seq<u8>,
) {
    (conn.without_container(handle), close_container_bytes(handle))
}

/// The handle under which a parent goes back when the container `handle`
/// above it closes. A parent that is kept under 255 minus `handle` was
/// moved aside for the container and goes back under `handle`; any other
/// parent stays under its key.
pub open spec fn restored_key(handle: u8, key: u8) -> u8 {
    if key == 0xFF - handle {
        handle
    } else {
        key
    }
}

/// What going up from the container `handle` does: the container closes,
/// its parent, found under the key that the container names, goes back
/// under its own handle, and the client is shown the parent. Where the
/// container is not open, names no parent or its parent is not open,
/// nothing happens.
pub open spec fn container_up_effect(conn: ConnectionView, handle: u8) -> (ConnectionView, Seq<u8>) {
    if !conn.open_containers.contains_key(handle) {
        (conn, Seq::empty())
    } else {
        match conn.open_containers[handle].parent_id {
            Some(key) => if key != handle && conn.open_containers.contains_key(key) {
                let parent = conn.open_containers[key];
                (
                    ConnectionView {
                        open_containers: conn.open_containers.remove(handle).remove(key).insert(
                            restored_key(handle, key),
                            parent,
                        ),
                        ..conn
                    },
                    container_bytes(parent, parent.name, parent.capacity, 0),
                )
            } else {
                (conn, Seq::empty())
            },
            None => (conn, Seq::empty()),
        }
    }
}

/// Reads the packet by which a client uses an item on a target: where the
/// item is, its kind, its stack position, and the target with its stack
/// position. Nothing of it is used.
pub open spec fn parse_use_item_on_target(buf: Seq<u8>, idx: int) -> Option<((), int)> {
    match get_position(buf, idx) {
        Some((_, i1)) => match get_u16_le(buf, i1) {
            Some((_, i2)) => match get_u8(buf, i2) {
                Some((_, i3)) => match get_u16_le(buf, i3) {
                    Some((_, i4)) => match get_u8(buf, i4) {
                        Some((_, i5)) => Some(((), i5)),
                        None => None,
                    },
                    None => None,
                },
                None => None,
            },
            None => None,
        },
        None => None,
    }
}

/// Reads the packet by which a client logs in: its system and version,
/// twelve bytes that are passed over, the account number and the password.
/// Nothing of it is used.
pub open spec fn parse_login(buf: Seq<u8>, idx: int) -> Option<((), int)> {
    match get_u16_le(buf, idx) {
        Some((_, i1)) => match get_u16_le(buf, i1) {
            Some((_, i2)) => match get_u32_le(buf, i2 + 12) {
                Some((_, i3)) => match get_str(buf, i3) {
                    Some((_, i4)) => Some(((), i4)),
                    None => None,
                },
                None => None,
            },
            None => None,
        },
        None => None,
    }
}

/// Model of an optional command.
pub open spec fn opt_command_view(command: Option<Command>) -> Option<CommandView> {
    match command {
        Some(c) => Some(c@),
        None => None,
    }
}

impl Connection {
    /// Handles the packet by which a client enters the game with one of the
    /// characters `characters`. A packet that ends early changes nothing.
    pub fn handle_enter_game_packet(&mut self, characters: &Vec<Character>) -> (commands: Vec<
        Command,
    >)
        ensures
            match parse_enter_game(old(self)@.read_buffer, old(self)@.read_idx) {
                Some((name, next)) => (final(self)@, commands_view(commands@))
                    == enter_game_effect(old(self)@.at(next), characters_view(characters@), name),
                None => final(self)@ == old(self)@ && commands@.len() == 0,
            },
    {
        let mut commands: Vec<Command> = Vec::new();
        let parsed: Option<String> = self.read_enter_game();
        match parsed {
            Some(name) => {
                let ghost conn = self@;
                let ghost roster = characters_view(characters@);
                let mut i: usize = 0;
                assert(roster.subrange(0, 0) =~= Seq::<CharacterView>::empty());
                assert(commands_view(commands@) =~= Seq::<CommandView>::empty());
                while i < characters.len()
                    invariant
                        i <= characters@.len(),
                        roster == characters_view(characters@),
                        self.id == conn.id,
                        (self@, commands_view(commands@)) == enter_game_effect(
                            conn,
                            roster.subrange(0, i as int),
                            name@,
                        ),
                    decreases characters.len() - i,
                {
                    proof {
                        assert(roster.subrange(0, i + 1).drop_last() =~= roster.subrange(
                            0,
                            i as int,
                        ));
                    }
                    if characters[i].name == name {
                        let mut played = characters[i].clone();
                        played.id = self.id;
                        let ghost before = commands_view(commands@);
                        let command = Command::EnterGame {
                            character_creature: played.as_creature(),
                            pos: characters[i].position,
                        };
                        commands.push(command);
                        assert(commands_view(commands@) =~= before.push(command@));
                        self.character = Some(played);
                    }
                    i += 1;
                }
                assert(roster.subrange(0, i as int) =~= roster);
                commands
            },
            None => commands,
        }
    }

    /// Reads the packet by which a client enters the game, as far as it is
    /// used.
    fn read_enter_game(&mut self) -> (res: Option<String>)
        ensures
            match parse_enter_game(old(self)@.read_buffer, old(self)@.read_idx) {
                Some((name, next)) => res matches Some(s) && s@ == name && final(self)@ == old(
                    self,
                )@.at(next),
                None => res is None && final(self)@ == old(self)@,
            },
    {
        let start: usize = self.read_idx;
        if self.read_u16_le().is_none() || self.read_u16_le().is_none() || self.read_u8().is_none()
            || self.read_u32_le().is_none() {
            self.read_idx = start;
            return None;
        }
        let name = self.read_str();
        if name.is_none() || self.read_str().is_none() {
            self.read_idx = start;
            return None;
        }
        name
    }

    /// Reads the packet by which a client logs in and tells whether it was
    /// complete. A packet that ends early leaves the cursor where it was.
    pub fn _parse_login_payload(&mut self) -> (complete: bool)
        ensures
            complete == parse_login(old(self)@.read_buffer, old(self)@.read_idx) is Some,
            final(self)@ == old(self)@.after(
                parse_login(old(self)@.read_buffer, old(self)@.read_idx),
            ),
    {
        let start: usize = self.read_idx;
        if self.read_u16_le().is_none() || self.read_u16_le().is_none() {
            self.read_idx = start;
            return false;
        }
        if self.read_buffer.len() - self.read_idx < 12 {
            self.read_idx = start;
            return false;
        }
        self.read_idx += 12;
        if self.read_u32_le().is_none() || self.read_str().is_none() {
            self.read_idx = start;
            return false;
        }
        true
    }

    /// Turns a step of the player in `direction` into the command for it.
    pub fn handle_move_character_packets(&self, direction: Direction) -> (command: Option<Command>)
        ensures
            opt_command_view(command) == move_character_command(self@, direction),
    {
        match &self.character {
            Some(c) => {
                let from = c.position;
                if direction.has_neighbour(from) {
                    let to = direction.move_in_dir(from);
                    Some(Command::MoveCreature { from, to, direction, creature_id: self.id })
                } else {
                    None
                }
            },
            None => None,
        }
    }

    /// Turns a turn of the player to `direction` into the command for it.
    pub fn handle_creature_turn_packets(&self, direction: Direction) -> (command: Option<Command>)
        ensures
            opt_command_view(command) == turn_character_command(self@, direction),
    {
        match &self.character {
            Some(c) => Some(
                Command::TurnCreature { pos: c.position, creature_id: self.id, direction },
            ),
            None => None,
        }
    }

    /// Handles the packet by which a client speaks. A packet that ends early
    /// changes nothing.
    pub fn handle_say_packet(&mut self) -> (command: Option<Command>)
        ensures
            match parse_say(old(self)@.read_buffer, old(self)@.read_idx) {
                Some((said, next)) => final(self)@ == old(self)@.at(next) && opt_command_view(
                    command,
                ) == say_command(old(self)@, said),
                None => final(self)@ == old(self)@ && command is None,
            },
    {
        let start: usize = self.read_idx;
        let speech_type: u8 = match self.read_u8() {
            Some(v) => v,
            None => {
                return None;
            },
        };
        let text: String = match self.read_str() {
            Some(v) => v,
            None => {
                self.read_idx = start;
                return None;
            },
        };
        match &self.character {
            Some(c) => Some(
                Command::CreatureSpeech {
                    pos: c.position,
                    text,
                    creature_name: c.name.clone(),
                    speech_type,
                },
            ),
            None => None,
        }
    }

    /// Handles the packet by which a client uses an item. A packet that ends
    /// early changes nothing.
    pub fn handle_use_item(&mut self) -> (command: Option<Command>)
        ensures
            match parse_use_item(old(self)@.read_buffer, old(self)@.read_idx) {
                Some((p, next)) => final(self)@ == old(self)@.at(next) && opt_command_view(command)
                    == use_item_command_of(old(self)@, p),
                None => final(self)@ == old(self)@ && command is None,
            },
    {
        let start: usize = self.read_idx;
        let from = match self.read_position() {
            Some(v) => v,
            None => {
                return None;
            },
        };
        let item_id: u16 = match self.read_u16_le() {
            Some(v) => v,
            None => {
                self.read_idx = start;
                return None;
            },
        };
        let stack_pos: u8 = match self.read_u8() {
            Some(v) => v,
            None => {
                self.read_idx = start;
                return None;
            },
        };
        let index: u8 = match self.read_u8() {
            Some(v) => v,
            None => {
                self.read_idx = start;
                return None;
            },
        };
        let item: Item = match parse_address(from) {
            Address::InContainer(handle, slot) => {
                match self.open_container(handle) {
                    Some(container) => {
                        proof {
                            assert(container@.items.len() == container.items@.len());
                        }
                        if (slot as usize) < container.items.len() {
                            container.items[slot as usize].clone()
                        } else {
                            return None;
                        }
                    },
                    None => {
                        return None;
                    },
                }
            },
            Address::InInventory(slot) => {
                match &self.character {
                    Some(c) => match c.inventory.peek_slot(slot) {
                        Some(it) => it.clone(),
                        None => Item { client_id: item_id, items: Vec::new() },
                    },
                    None => {
                        return None;
                    },
                }
            },
            Address::OnGround(_) => Item { client_id: item_id, items: Vec::new() },
        };
        proof {
            item_view_items(item);
            assert(item@.items.len() == 0 ==> item@.items =~= Seq::<ItemView>::empty());
        }
        Some(Command::UseItem { sender_id: self.id, pos: from, stack_pos, item, index })
    }

    /// Handles the packet by which a client closes a container and builds
    /// the confirmation. A packet that ends early changes nothing and gets
    /// no reply.
    pub fn handle_close_container(&mut self) -> (payload: Vec<u8>)
        ensures
            match get_u8(old(self)@.read_buffer, old(self)@.read_idx) {
                Some((handle, next)) => (final(self)@, payload@) == close_container_effect(
                    old(self)@.at(next),
                    handle,
                ),
                None => final(self)@ == old(self)@ && payload@.len() == 0,
            },
    {
        match self.read_u8() {
            Some(handle) => {
                let _ = self.take_container(handle);
                close_container_payload(handle)
            },
            None => Vec::new(),
        }
    }

    /// Handles the packet by which a client goes up from a container to its
    /// parent and builds the reply that shows the parent. A packet that ends
    /// early changes nothing and gets no reply.
    pub fn handle_container_up(&mut self) -> (payload: Vec<u8>)
        ensures
            match get_u8(old(self)@.read_buffer, old(self)@.read_idx) {
                Some((handle, next)) => (final(self)@, payload@) == container_up_effect(
                    old(self)@.at(next),
                    handle,
                ),
                None => final(self)@ == old(self)@ && payload@.len() == 0,
            },
    {
        let handle: u8 = match self.read_u8() {
            Some(v) => v,
            None => {
                return Vec::new();
            },
        };
        let key: u8 = match self.open_container(handle) {
            Some(child) => match child.parent_id {
                Some(key) => key,
                None => {
                    return Vec::new();
                },
            },
            None => {
                return Vec::new();
            },
        };
        if key == handle || self.open_container(key).is_none() {
            return Vec::new();
        }
        let ghost conn = self@;
        let _ = self.take_container(handle);
        match self.take_container(key) {
            Some(parent) => {
                let payload = container_payload(&parent, parent.name.as_str(), parent.capacity, 0);
                let back: u8 = if key == 0xFF - handle {
                    handle
                } else {
                    key
                };
                self.put_container(back, parent);
                assert(self@.open_containers =~= conn.open_containers.remove(handle).remove(
                    key,
                ).insert(back, parent@));
                payload
            },
            None => Vec::new(),
        }
    }

    /// Handles the packet by which a client uses an item on a target and
    /// tells whether it was complete. Nothing comes of it. A packet that ends
    /// early leaves the cursor where it was.
    pub fn handle_use_item_on_target_packet(&mut self) -> (complete: bool)
        ensures
            complete == parse_use_item_on_target(old(self)@.read_buffer, old(self)@.read_idx)
                is Some,
            final(self)@ == old(self)@.after(
                parse_use_item_on_target(old(self)@.read_buffer, old(self)@.read_idx),
            ),
    {
        let start: usize = self.read_idx;
        if self.read_position().is_none() || self.read_u16_le().is_none() || self.read_u8().is_none()
            || self.read_u16_le().is_none() || self.read_u8().is_none() {
            self.read_idx = start;
            return false;
        }
        true
    }

    /// Builds the reply to a ping.
    pub fn handle_ping(&self) -> (payload: Vec<u8>)
        ensures
            payload@ == seq![0x1Eu8],
    {
        let mut payload: Vec<u8> = Vec::new();
        payload.push(0x1E);
        payload
    }

    /// Builds the reply to a login: the list of `characters`.
    pub fn login(&self, characters: &Vec<Character>) -> (payload: Vec<u8>)
        ensures
            payload@ == login_bytes(characters_view(characters@)),
    {
        login_payload(characters)
    }
}

/// The fields of the packet by which a client moves an item.
pub ghost struct MoveItemPacket {
    pub from: (u16, u16, u8),
    pub item_id: u16,
    pub stack_pos: u8,
    pub to: (u16, u16, u8),
    pub count: u8,
}

/// Reads the packet by which a client moves an item: where the item is, its
/// kind, its stack position, where it is to go, and how many of it.
pub open spec fn parse_move_item(buf: Seq<u8>, idx: int) -> Option<(MoveItemPacket, int)> {
    match get_position(buf, idx) {
        Some((from, i1)) => match get_u16_le(buf, i1) {
            Some((item_id, i2)) => match get_u8(buf, i2) {
                Some((stack_pos, i3)) => match get_position(buf, i3) {
                    Some((to, i4)) => match get_u8(buf, i4) {
                        Some((count, i5)) => Some(
                            (MoveItemPacket { from, item_id, stack_pos, to, count }, i5),
                        ),
                        None => None,
                    },
                    None => None,
                },
                None => None,
            },
            None => None,
        },
        None => None,
    }
}

/// The connection `conn` with the inventory `inventory` for its character.
pub open spec fn with_inventory(conn: ConnectionView, inventory: Seq<Option<ItemView>>) -> ConnectionView {
    match conn.character {
        Some(c) => conn.with_character(CharacterView { inventory, ..c }),
        None => conn,
    }
}

/// The command that moves `item` on the ground-side part of its way.
pub open spec fn ground_move(p: MoveItemPacket, item: ItemView) -> CommandView {
    CommandView::MoveItem { from: p.from, to: p.to, stack_pos: p.stack_pos, item, count: p.count }
}

/// Putting `item` where the packet `p` wants it, after `commands` and
/// `reply` have come of taking it from its place. On the ground the event
/// handler is asked to move it. In an open container the event handler is
/// asked to add it; without that container nothing can be done. In the
/// inventory it is equipped at once, and the reply shows an item of kind
/// `shown_id` in the slot.
pub open spec fn place_item(
    conn: ConnectionView,
    p: MoveItemPacket,
    item: ItemView,
    shown_id: u16,
    commands: Seq<CommandView>,
    reply: Seq<u8>,
) -> Option<(ConnectionView, Seq<CommandView>, Seq<u8>)> {
    match address_of(p.to) {
        Address::OnGround(_) => Some((conn, commands.push(ground_move(p, item)), reply)),
        Address::InContainer(handle, slot) => if conn.open_containers.contains_key(handle) {
            Some(
                (
                    conn,
                    commands.push(
                        CommandView::AddToContainer {
                            item,
                            sender_id: conn.id,
                            slot,
                            container: conn.open_containers[handle],
                        },
                    ),
                    reply,
                ),
            )
        } else {
            None
        },
        Address::InInventory(slot) => match conn.character {
            Some(c) => Some(
                (
                    with_inventory(conn, inventory_with(c.inventory, slot, Some(item))),
                    commands,
                    reply + add_item_to_inventory_bytes(shown_id, (slot % 256) as u8),
                ),
            ),
            None => None,
        },
    }
}

/// What the packet `p` does to the connection, which commands it asks for
/// and what is replied at once.
///
/// From an open container: the event handler is asked to take out what is
/// in the slot, and the item found there in the connection's mirror, if
/// any, is put where it is to go. From the inventory: the slot is emptied at
/// once and the reply says so, and the item that was there, if any, is put
/// where it is to go. From the ground: the item at the stack position, if
/// any, is moved by the event handler, and where it goes off the map it is
/// also put there, the reply showing the kind that the packet names.
///
/// Without a character, without the container or the tile to take from, or
/// where the item cannot be put where it is to go, nothing at all happens.
pub open spec fn move_item_effect(
    conn: ConnectionView,
    world: Map<(u16, u16, u8), TileView>,
    p: MoveItemPacket,
) -> (ConnectionView, Seq<CommandView>, Seq<u8>) {
    let skip = (conn, Seq::<CommandView>::empty(), Seq::<u8>::empty());
    match conn.character {
        None => skip,
        Some(c) => match address_of(p.from) {
            Address::InContainer(handle, slot) => if !conn.open_containers.contains_key(handle) {
                skip
            } else {
                let container = conn.open_containers[handle];
                let first = seq![
                    CommandView::RemoveItemFromContainer {
                        pos: container.pos,
                        stack_pos: container.stack_pos,
                        slot,
                        sender_id: conn.id,
                    },
                ];
                if slot < container.items.len() {
                    let item = container.items[slot as int];
                    match place_item(conn, p, item, item.client_id, first, Seq::empty()) {
                        Some(done) => done,
                        None => skip,
                    }
                } else {
                    (conn, first, Seq::empty())
                }
            },
            Address::InInventory(slot) => {
                let emptied = with_inventory(conn, inventory_with(c.inventory, slot, None));
                let told = remove_item_from_inventory_bytes((slot % 256) as u8);
                match inventory_slot(c.inventory, slot) {
                    Some(item) => match place_item(
                        emptied,
                        p,
                        item,
                        item.client_id,
                        Seq::empty(),
                        told,
                    ) {
                        Some(done) => done,
                        None => skip,
                    },
                    None => (emptied, Seq::empty(), told),
                }
            },
            Address::OnGround(_) => if !world.contains_key(p.from) {
                skip
            } else {
                match world[p.from].item_at(p.stack_pos as int) {
                    Some(item) => if p.to.0 != OFF_MAP {
                        (conn, seq![ground_move(p, item)], Seq::empty())
                    } else {
                        match place_item(
                            conn,
                            p,
                            item,
                            p.item_id,
                            seq![ground_move(p, item)],
                            Seq::empty(),
                        ) {
                            Some(done) => done,
                            None => skip,
                        }
                    },
                    None => skip,
                }
            },
        },
    }
}

impl Connection {
    /// Reads the packet by which a client moves an item.
    fn read_move_item(&mut self) -> (res: Option<((u16, u16, u8), u16, u8, (u16, u16, u8), u8)>)
        ensures
            match parse_move_item(old(self)@.read_buffer, old(self)@.read_idx) {
                Some((p, next)) => res == Some((p.from, p.item_id, p.stack_pos, p.to, p.count))
                    && final(self)@ == old(self)@.at(next),
                None => res is None && final(self)@ == old(self)@,
            },
    {
        let start: usize = self.read_idx;
        let from = match self.read_position() {
            Some(v) => v,
            None => {
                return None;
            },
        };
        let item_id: u16 = match self.read_u16_le() {
            Some(v) => v,
            None => {
                self.read_idx = start;
                return None;
            },
        };
        let stack_pos: u8 = match self.read_u8() {
            Some(v) => v,
            None => {
                self.read_idx = start;
                return None;
            },
        };
        let to = match self.read_position() {
            Some(v) => v,
            None => {
                self.read_idx = start;
                return None;
            },
        };
        let count: u8 = match self.read_u8() {
            Some(v) => v,
            None => {
                self.read_idx = start;
                return None;
            },
        };
        Some((from, item_id, stack_pos, to, count))
    }

    /// Tells whether an item can be put where `to` points: on the ground
    /// always, in a container if it is open, in the inventory if there is a
    /// character.
    fn can_place(&self, to: (u16, u16, u8)) -> (res: bool)
        ensures
            res == match address_of(to) {
                Address::OnGround(_) => true,
                Address::InContainer(handle, _) => self@.open_containers.contains_key(handle),
                Address::InInventory(_) => self@.character is Some,
            },
    {
        match parse_address(to) {
            Address::OnGround(_) => true,
            Address::InContainer(handle, _) => self.open_container(handle).is_some(),
            Address::InInventory(_) => self.character.is_some(),
        }
    }

    /// Puts `item` where the packet wants it.
    fn place(
        &mut self,
        from: (u16, u16, u8),
        stack_pos: u8,
        to: (u16, u16, u8),
        count: u8,
        item: Item,
        shown_id: u16,
        commands: &mut Vec<Command>,
        reply: &mut Vec<u8>,
    )
        requires
            place_item(
                old(self)@,
                MoveItemPacket { from, item_id: shown_id, stack_pos, to, count },
                item@,
                shown_id,
                commands_view(old(commands)@),
                old(reply)@,
            ) is Some,
        ensures
            Some((final(self)@, commands_view(final(commands)@), final(reply)@)) == place_item(
                old(self)@,
                MoveItemPacket { from, item_id: shown_id, stack_pos, to, count },
                item@,
                shown_id,
                commands_view(old(commands)@),
                old(reply)@,
            ),
    {
        let ghost before = commands_view(commands@);
        match parse_address(to) {
            Address::OnGround(_) => {
                let command = Command::MoveItem { from, to, stack_pos, item, count };
                commands.push(command);
                assert(commands_view(commands@) =~= before.push(command@));
            },
            Address::InContainer(handle, slot) => {
                match self.open_container(handle) {
                    Some(container) => {
                        let command = Command::AddToContainer {
                            item,
                            sender_id: self.id,
                            slot,
                            container: container.clone(),
                        };
                        commands.push(command);
                        assert(commands_view(commands@) =~= before.push(command@));
                    },
                    None => {},
                }
            },
            Address::InInventory(slot) => {
                match &mut self.character {
                    Some(c) => {
                        c.inventory.equip(slot, item);
                    },
                    None => {},
                }
                let told = add_item_to_inventory_payload(shown_id, (slot % 256) as u8);
                push_bytes(reply, told.as_slice());
            },
        }
    }

    /// Handles the packet by which a client moves an item: says which
    /// commands the event handler is to get and what is replied at once. A
    /// packet that ends early changes nothing.
    pub fn handle_move_item(&mut self, state: &State) -> (res: (Vec<Command>, Vec<u8>))
        ensures
            match parse_move_item(old(self)@.read_buffer, old(self)@.read_idx) {
                Some((p, next)) => (final(self)@, commands_view(res.0@), res.1@)
                    == move_item_effect(old(self)@.at(next), state@, p),
                None => final(self)@ == old(self)@ && res.0@.len() == 0 && res.1@.len() == 0,
            },
    {
        let mut commands: Vec<Command> = Vec::new();
        let mut reply: Vec<u8> = Vec::new();
        let (from, item_id, stack_pos, to, count) = match self.read_move_item() {
            Some(v) => v,
            None => {
                return (commands, reply);
            },
        };
        assert(commands_view(commands@) =~= Seq::<CommandView>::empty());
        if self.character.is_none() {
            return (commands, reply);
        }
        match parse_address(from) {
            Address::InContainer(handle, slot) => {
                let found: Option<Item> = match self.open_container(handle) {
                    Some(container) => {
                        let command = Command::RemoveItemFromContainer {
                            pos: container.pos,
                            stack_pos: container.stack_pos,
                            slot,
                            sender_id: self.id,
                        };
                        commands.push(command);
                        assert(commands_view(commands@) =~= seq![command@]);
                        if (slot as usize) < container.items.len() {
                            Some(container.items[slot as usize].clone())
                        } else {
                            None
                        }
                    },
                    None => {
                        return (commands, reply);
                    },
                };
                match found {
                    Some(item) => {
                        if self.can_place(to) {
                            let shown: u16 = item.client_id;
                            proof {
                                item_view_items(item);
                            }
                            self.place(
                                from,
                                stack_pos,
                                to,
                                count,
                                item,
                                shown,
                                &mut commands,
                                &mut reply,
                            );
                        } else {
                            commands = Vec::new();
                            assert(commands_view(commands@) =~= Seq::<CommandView>::empty());
                        }
                    },
                    None => {},
                }
            },
            Address::InInventory(slot) => {
                let blocked: bool = match &self.character {
                    Some(c) => c.inventory.peek_slot(slot).is_some() && !self.can_place(to),
                    None => true,
                };
                if blocked {
                    return (commands, reply);
                }
                let mut taken: Option<Item> = None;
                match &mut self.character {
                    Some(c) => {
                        taken = c.inventory.remove_from_slot(slot);
                    },
                    None => {},
                }
                let told = remove_item_from_inventory_payload((slot % 256) as u8);
                push_bytes(&mut reply, told.as_slice());
                match taken {
                    Some(item) => {
                        let shown: u16 = item.client_id;
                        proof {
                            item_view_items(item);
                        }
                        self.place(
                            from,
                            stack_pos,
                            to,
                            count,
                            item,
                            shown,
                            &mut commands,
                            &mut reply,
                        );
                    },
                    None => {},
                }
            },
            Address::OnGround(_) => {
                let found: Option<Item> = match state.get_tile(from) {
                    Some(tile) => tile.get_item_at_stack_pos(stack_pos),
                    None => None,
                };
                match found {
                    Some(item) => {
                        if to.0 != OFF_MAP {
                            let command = Command::MoveItem { from, to, stack_pos, item, count };
                            commands.push(command);
                            assert(commands_view(commands@) =~= seq![command@]);
                        } else if self.can_place(to) {
                            let command = Command::MoveItem {
                                from,
                                to,
                                stack_pos,
                                item: item.clone(),
                                count,
                            };
                            commands.push(command);
                            assert(commands_view(commands@) =~= seq![command@]);
                            self.place(
                                from,
                                stack_pos,
                                to,
                                count,
                                item,
                                item_id,
                                &mut commands,
                                &mut reply,
                            );
                        }
                    },
                    None => {},
                }
            },
        }
        (commands, reply)
    }
}

/// Whether `container` is the view of what lies at `stack_pos` of `pos`.
pub open spec fn lies_at(container: ContainerView, pos: (u16, u16, u8), stack_pos: u8) -> bool {
    container.pos == pos && container.stack_pos == stack_pos
}

/// The lowest handle from `from` on under which a view of what lies at
/// `stack_pos` of `pos` is open.
pub open spec fn first_container_at(
    open: Map<u8, ContainerView>,
    pos: (u16, u16, u8),
    stack_pos: u8,
    from: int,
) -> Option<u8>
    decreases 256 - from,
{
    if from < 0 || from >= 256 {
        None
    } else if open.contains_key(from as u8) && lies_at(open[from as u8], pos, stack_pos) {
        Some(from as u8)
    } else {
        first_container_at(open, pos, stack_pos, from + 1)
    }
}

/// What the news of a moved item does: a view of the moved thing, if one is
/// open, closes (the one with the lowest handle), and the client is told of
/// that, of the item leaving the ground and of its arrival on the ground, as
/// far as each end lies on the map.
pub open spec fn item_moved_effect(
    conn: ConnectionView,
    from: (u16, u16, u8),
    to: (u16, u16, u8),
    stack_pos: u8,
    item_id: u16,
) -> (ConnectionView, Seq<u8>) {
    let (closed, told) = match first_container_at(conn.open_containers, from, stack_pos, 0) {
        Some(handle) => (conn.without_container(handle), close_container_bytes(handle)),
        None => (conn, Seq::empty()),
    };
    (
        closed,
        told + (if from.0 < OFF_MAP {
            remove_thing_bytes(from, stack_pos)
        } else {
            Seq::empty()
        }) + (if to.0 < OFF_MAP {
            add_thing_bytes(to, item_id)
        } else {
            Seq::empty()
        }),
    )
}

/// What the news of an opened container does. The container opens under the
/// handle `index`. Where it has a parent and is to take the parent's own
/// handle, the parent is kept under 255 minus that handle from now on, and
/// the container remembers that; without the parent being open nothing
/// happens. The client is shown the container.
pub open spec fn open_container_effect(
    conn: ConnectionView,
    pos: (u16, u16, u8),
    stack_pos: u8,
    index: u8,
    item: ItemView,
    name: Seq<char>,
    parent_id: Option<u8>,
    capacity: u8,
) -> (ConnectionView, Seq<u8>) {
    let bare = ContainerView {
        container_id: index,
        parent_id: None,
        client_id: item.client_id,
        items: item.items,
        pos,
        stack_pos,
        name,
        capacity,
    };
    match parent_id {
        None => (conn.with_container(index, bare), container_bytes(bare, name, capacity, 0)),
        Some(p) => if index == p {
            if conn.open_containers.contains_key(p) {
                let child = ContainerView { parent_id: Some((0xFF - p) as u8), ..bare };
                (
                    conn.without_container(p).with_container(
                        (0xFF - p) as u8,
                        conn.open_containers[p],
                    ).with_container(index, child),
                    container_bytes(child, name, capacity, 1),
                )
            } else {
                (conn, Seq::empty())
            }
        } else {
            let child = ContainerView { parent_id: Some(p), ..bare };
            (conn.with_container(index, child), container_bytes(child, name, capacity, 1))
        },
    }
}

/// A sub-container that opens under the handle of its parent leaves the
/// parent open under 255 minus that handle and is itself open under the
/// handle; going up from it puts the parent back under the handle and
/// closes the sub-container.
pub proof fn container_rekeying_round_trip(
    conn: ConnectionView,
    pos: (u16, u16, u8),
    stack_pos: u8,
    handle: u8,
    item: ItemView,
    name: Seq<char>,
    capacity: u8,
)
    requires
        conn.open_containers.contains_key(handle),
    ensures
        ({
            let parent = conn.open_containers[handle];
            let opened = open_container_effect(
                conn,
                pos,
                stack_pos,
                handle,
                item,
                name,
                Some(handle),
                capacity,
            ).0;
            let up = container_up_effect(opened, handle).0;
            &&& opened.open_containers.contains_key((0xFF - handle) as u8)
            &&& opened.open_containers[(0xFF - handle) as u8] == parent
            &&& opened.open_containers.contains_key(handle)
            &&& opened.open_containers[handle].container_id == handle
            &&& opened.open_containers[handle].items == item.items
            &&& opened.open_containers[handle].parent_id == Some((0xFF - handle) as u8)
            &&& up.open_containers.contains_key(handle)
            &&& up.open_containers[handle] == parent
            &&& !up.open_containers.contains_key((0xFF - handle) as u8)
        }),
{
}

/// The connection after the item that the character holds in the inventory
/// slot `pos` has taken `item` in front of what it holds. The connection
/// itself where `pos` is no inventory slot or nothing is held there.
pub open spec fn held_with_added(conn: ConnectionView, pos: (u16, u16, u8), item: ItemView) -> ConnectionView {
    match (address_of(pos), conn.character) {
        (Address::InInventory(slot), Some(c)) => match inventory_slot(c.inventory, slot) {
            Some(held) => with_inventory(
                conn,
                inventory_with(
                    c.inventory,
                    slot,
                    Some(ItemView { items: seq![item] + held.items, ..held }),
                ),
            ),
            None => conn,
        },
        _ => conn,
    }
}

/// The connection after the item that the character holds in the inventory
/// slot `pos` has lost what it holds in `slot`. The connection itself where
/// `pos` is no inventory slot or there is no such thing.
pub open spec fn held_with_removed(conn: ConnectionView, pos: (u16, u16, u8), slot: u8) -> ConnectionView {
    match (address_of(pos), conn.character) {
        (Address::InInventory(at), Some(c)) => match inventory_slot(c.inventory, at) {
            Some(held) => if slot < held.items.len() {
                with_inventory(
                    conn,
                    inventory_with(
                        c.inventory,
                        at,
                        Some(ItemView { items: held.items.remove(slot as int), ..held }),
                    ),
                )
            } else {
                conn
            },
            None => conn,
        },
        _ => conn,
    }
}

/// What the news of an item added to the container open under `handle`
/// does, for a container that lies at `pos`: where `pos` is an inventory
/// slot that holds an item, that item takes `item` in front of what it
/// holds; the mirror of the container takes `item` in front; and the client
/// is told of the new item.
pub open spec fn added_to_one(
    conn: ConnectionView,
    handle: u8,
    pos: (u16, u16, u8),
    item: ItemView,
) -> (ConnectionView, Seq<u8>) {
    let kept = held_with_added(conn, pos, item);
    let container = conn.open_containers[handle];
    (
        kept.with_container(
            handle,
            ContainerView { items: seq![item] + container.items, ..container },
        ),
        add_item_to_container_bytes(item.client_id, handle),
    )
}

/// What the news of an item added to what lies at `stack_pos` of `pos`
/// has done once the handles below `n` have been looked at, in ascending
/// order: every view of that thing has taken the item.
pub open spec fn added_to_container_upto(
    conn: ConnectionView,
    pos: (u16, u16, u8),
    stack_pos: u8,
    item: ItemView,
    n: int,
) -> (ConnectionView, Seq<u8>)
    decreases n,
{
    if n <= 0 {
        (conn, Seq::empty())
    } else {
        let (before, told) = added_to_container_upto(conn, pos, stack_pos, item, n - 1);
        let handle = (n - 1) as u8;
        if before.open_containers.contains_key(handle) && lies_at(
            before.open_containers[handle],
            pos,
            stack_pos,
        ) {
            let (after, more) = added_to_one(before, handle, pos, item);
            (after, told + more)
        } else {
            (before, told)
        }
    }
}

/// What the news of an item taken out of slot `slot` of the container open
/// under `handle` does, for a container that lies at `pos`: where `pos` is
/// an inventory slot that holds an item with something in `slot`, that item
/// loses it; the mirror of the container loses what it has in `slot`; and
/// the client is told. Where the mirror has nothing in `slot`, nothing
/// happens.
pub open spec fn removed_from_one(
    conn: ConnectionView,
    handle: u8,
    pos: (u16, u16, u8),
    slot: u8,
) -> (ConnectionView, Seq<u8>) {
    let container = conn.open_containers[handle];
    if slot >= container.items.len() {
        (conn, Seq::empty())
    } else {
        let kept = held_with_removed(conn, pos, slot);
        (
            kept.with_container(
                handle,
                ContainerView { items: container.items.remove(slot as int), ..container },
            ),
            remove_item_from_container_bytes(handle, slot),
        )
    }
}

/// What the news of an item taken out of what lies at `stack_pos` of `pos`
/// has done once the handles below `n` have been looked at, in ascending
/// order.
pub open spec fn removed_from_container_upto(
    conn: ConnectionView,
    pos: (u16, u16, u8),
    stack_pos: u8,
    slot: u8,
    n: int,
) -> (ConnectionView, Seq<u8>)
    decreases n,
{
    if n <= 0 {
        (conn, Seq::empty())
    } else {
        let (before, told) = removed_from_container_upto(conn, pos, stack_pos, slot, n - 1);
        let handle = (n - 1) as u8;
        if before.open_containers.contains_key(handle) && lies_at(
            before.open_containers[handle],
            pos,
            stack_pos,
        ) {
            let (after, more) = removed_from_one(before, handle, pos, slot);
            (after, told + more)
        } else {
            (before, told)
        }
    }
}

/// What the news of a moved creature does: the client is told to redraw
/// the place that the creature left, to turn it and to move it. For the
/// connection's own creature the character's position follows, and the
/// client is sent the strip of the map that came into sight, where that
/// strip lies inside the coordinate space.
pub open spec fn creature_moved_effect(
    conn: ConnectionView,
    world: Map<(u16, u16, u8), TileView>,
    from: (u16, u16, u8),
    to: (u16, u16, u8),
    stack_pos: u8,
    creature_id: u32,
    direction: Direction,
) -> (ConnectionView, Seq<u8>) {
    let told = thing_transformed_bytes(from, stack_pos, None) + creature_turn_bytes(
        direction,
        creature_id,
    ) + thing_moved_bytes(from, stack_pos, to);
    match conn.character {
        Some(c) => if creature_id == conn.id {
            (
                conn.with_character(CharacterView { position: to, ..c }),
                told + (if direction.strip_in_range(to) {
                    map_direction_bytes(world, direction, to)
                } else {
                    Seq::empty()
                }),
            )
        } else {
            (conn, told)
        },
        None => (conn, told),
    }
}

/// What one event does to the connection, and what the client is told of
/// it.
pub open spec fn event_effect(
    conn: ConnectionView,
    world: Map<(u16, u16, u8), TileView>,
    event: ServerEventView,
) -> (ConnectionView, Seq<u8>) {
    match event {
        ServerEventView::CreatureAdded { pos, creature } => (
            conn,
            creature_added_bytes(pos, creature) + magic_effect_bytes(
                pos,
                MagicEffect::EnergyArea.spec_code(),
            ),
        ),
        ServerEventView::CreatureMoved {
            from,
            to,
            stack_pos,
            creature_id,
            direction,
        } => creature_moved_effect(conn, world, from, to, stack_pos, creature_id, direction),
        ServerEventView::EnterGame => match conn.character {
            Some(c) => if viewport_in_range(c.position) {
                (conn, enter_game_bytes(world, c.position, conn.id))
            } else {
                (conn, Seq::empty())
            },
            None => (conn, Seq::empty()),
        },
        ServerEventView::CreatureRemoved { pos, stack_pos } => (
            conn,
            remove_thing_bytes(pos, stack_pos) + magic_effect_bytes(
                pos,
                MagicEffect::Puff.spec_code(),
            ),
        ),
        ServerEventView::ItemMoved { from, to, stack_pos, item_id } => item_moved_effect(
            conn,
            from,
            to,
            stack_pos,
            item_id,
        ),
        ServerEventView::OpenContainer {
            pos,
            stack_pos,
            index,
            item,
            name,
            parent_id,
            capacity,
        } => open_container_effect(conn, pos, stack_pos, index, item, name, parent_id, capacity),
        ServerEventView::AddedToContainer { pos, stack_pos, item } => added_to_container_upto(
            conn,
            pos,
            stack_pos,
            item,
            256,
        ),
        ServerEventView::RemovedFromContainer {
            pos,
            stack_pos,
            slot,
        } => removed_from_container_upto(conn, pos, stack_pos, slot, 256),
        ServerEventView::ThingTransformed { pos, stack_pos, to_item_id } => (
            conn,
            thing_transformed_bytes(pos, stack_pos, Some(to_item_id)),
        ),
        ServerEventView::CreatureSpoke { pos, text, creature_name, speech_type } => (
            conn,
            speech_bytes(text, creature_name, SpeechType::Say, pos),
        ),
        ServerEventView::CreatureTurned { pos, stack_pos, direction, creature_id } => (
            conn,
            thing_transformed_bytes(pos, stack_pos, None) + creature_turn_bytes(
                direction,
                creature_id,
            ),
        ),
    }
}

/// Models of a list of events, element by element.
pub open spec fn events_view(events: Seq<ServerEvent>) -> Seq<ServerEventView> {
    Seq::new(events.len(), |i: int| events[i]@)
}

/// What a batch of events does, one after the other, and the one payload
/// that tells the client of all of them.
pub open spec fn events_effect(
    conn: ConnectionView,
    world: Map<(u16, u16, u8), TileView>,
    events: Seq<ServerEventView>,
) -> (ConnectionView, Seq<u8>)
    decreases events.len(),
{
    if events.len() == 0 {
        (conn, Seq::empty())
    } else {
        let (before, told) = events_effect(conn, world, events.drop_last());
        let (after, more) = event_effect(before, world, events.last());
        (after, told + more)
    }
}

impl Connection {
    /// Finds the lowest handle under which a view of what lies at
    /// `stack_pos` of `pos` is open.
    fn find_container_at(&self, pos: (u16, u16, u8), stack_pos: u8) -> (res: Option<u8>)
        ensures
            res == first_container_at(self@.open_containers, pos, stack_pos, 0),
    {
        let mut h: u16 = 0;
        while h < 256
            invariant
                h <= 256,
                first_container_at(self@.open_containers, pos, stack_pos, 0) == first_container_at(
                    self@.open_containers,
                    pos,
                    stack_pos,
                    h as int,
                ),
            decreases 256 - h,
        {
            let handle: u8 = h as u8;
            match self.open_container(handle) {
                Some(c) => {
                    if c.pos.0 == pos.0 && c.pos.1 == pos.1 && c.pos.2 == pos.2 && c.stack_pos
                        == stack_pos {
                        return Some(handle);
                    }
                },
                None => {},
            }
            h += 1;
        }
        None
    }

    /// Tells whether a view of what lies at `stack_pos` of `pos` is open
    /// under `handle`.
    fn shows(&self, handle: u8, pos: (u16, u16, u8), stack_pos: u8) -> (res: bool)
        ensures
            res == (self@.open_containers.contains_key(handle) && lies_at(
                self@.open_containers[handle],
                pos,
                stack_pos,
            )),
    {
        match self.open_container(handle) {
            Some(c) => c.pos.0 == pos.0 && c.pos.1 == pos.1 && c.pos.2 == pos.2 && c.stack_pos
                == stack_pos,
            None => false,
        }
    }

    /// Lets the item held in the inventory slot `pos`, if there is one,
    /// take `item` in front of what it holds.
    fn add_to_held(&mut self, pos: (u16, u16, u8), item: &Item)
        ensures
            final(self)@ == held_with_added(old(self)@, pos, item@),
    {
        match parse_address(pos) {
            Address::InInventory(slot) => {
                match &mut self.character {
                    Some(c) => {
                        let ghost inv = c.inventory@;
                        match c.inventory.remove_from_slot(slot) {
                            Some(held) => {
                                let mut held = held;
                                held.add_item(item.clone());
                                c.inventory.equip(slot, held);
                                assert(c.inventory@ =~= inventory_with(inv, slot, Some(held@)));
                            },
                            None => {
                                assert(c.inventory@ =~= inv);
                            },
                        }
                    },
                    None => {},
                }
            },
            _ => {},
        }
    }

    /// Lets the item held in the inventory slot `pos`, if there is one,
    /// lose what it holds in `slot`.
    fn remove_from_held(&mut self, pos: (u16, u16, u8), slot: u8)
        ensures
            final(self)@ == held_with_removed(old(self)@, pos, slot),
    {
        match parse_address(pos) {
            Address::InInventory(at) => {
                match &mut self.character {
                    Some(c) => {
                        let ghost inv = c.inventory@;
                        match c.inventory.remove_from_slot(at) {
                            Some(held) => {
                                let mut held = held;
                                let ghost was = held@;
                                proof {
                                    item_view_items(held);
                                }
                                let _ = held.remove_item(slot as usize);
                                c.inventory.equip(at, held);
                                assert(c.inventory@ =~= inventory_with(inv, at, Some(held@)));
                                assert(slot >= was.items.len() ==> c.inventory@ =~= inv);
                            },
                            None => {
                                assert(c.inventory@ =~= inv);
                            },
                        }
                    },
                    None => {},
                }
            },
            _ => {},
        }
    }

    /// Takes in the news of an item added to the container open under
    /// `handle`.
    fn add_to_open(&mut self, handle: u8, pos: (u16, u16, u8), item: &Item) -> (told: Vec<u8>)
        requires
            old(self)@.open_containers.contains_key(handle),
        ensures
            (final(self)@, told@) == added_to_one(old(self)@, handle, pos, item@),
    {
        self.add_to_held(pos, item);
        let ghost kept = self@;
        match self.take_container(handle) {
            Some(container) => {
                let mut container = container;
                container.items.insert(0, item.clone());
                assert(container@.items =~= seq![item@] + kept.open_containers[handle].items);
                self.put_container(handle, container);
                assert(self@.open_containers =~= kept.open_containers.insert(handle, container@));
            },
            None => {},
        }
        add_item_to_container_payload(&item.client_id, handle)
    }

    /// Takes in the news of an item taken out of the container open under
    /// `handle`.
    fn remove_from_open(&mut self, handle: u8, pos: (u16, u16, u8), slot: u8) -> (told: Vec<u8>)
        requires
            old(self)@.open_containers.contains_key(handle),
        ensures
            (final(self)@, told@) == removed_from_one(old(self)@, handle, pos, slot),
    {
        match self.take_container(handle) {
            Some(container) => {
                let mut container = container;
                let ghost was = container@;
                assert(was.items.len() == container.items@.len());
                if (slot as usize) < container.items.len() {
                    let _ = container.items.remove(slot as usize);
                    assert(container@.items =~= was.items.remove(slot as int));
                    self.put_container(handle, container);
                    self.remove_from_held(pos, slot);
                    assert(self@.open_containers =~= old(self)@.open_containers.insert(
                        handle,
                        container@,
                    ));
                    assert(self@ == held_with_removed(old(self)@, pos, slot).with_container(
                        handle,
                        container@,
                    ));
                    remove_item_from_container_payload(handle, slot)
                } else {
                    self.put_container(handle, container);
                    assert(self@.open_containers =~= old(self)@.open_containers);
                    Vec::new()
                }
            },
            None => Vec::new(),
        }
    }

    /// Takes in the news of an opened container.
    fn open_from_event(
        &mut self,
        pos: (u16, u16, u8),
        stack_pos: u8,
        index: u8,
        item: &Item,
        name: &String,
        parent_id: Option<u8>,
        capacity: u8,
    ) -> (told: Vec<u8>)
        ensures
            (final(self)@, told@) == open_container_effect(
                old(self)@,
                pos,
                stack_pos,
                index,
                item@,
                name@,
                parent_id,
                capacity,
            ),
    {
        let mut container = Container {
            container_id: index,
            parent_id: None,
            client_id: item.client_id,
            items: clone_items(&item.items),
            pos,
            stack_pos,
            name: name.clone(),
            capacity,
        };
        proof {
            item_view_items(*item);
            assert(container@.items =~= item@.items);
        }
        let mut has_parent: u8 = 0;
        match parent_id {
            Some(p) => {
                has_parent = 1;
                if index == p {
                    match self.take_container(p) {
                        Some(parent) => {
                            container.parent_id = Some(0xFF - p);
                            self.put_container(0xFF - p, parent);
                        },
                        None => {
                            assert(self@.open_containers =~= old(self)@.open_containers);
                            return Vec::new();
                        },
                    }
                } else {
                    container.parent_id = parent_id;
                }
            },
            None => {},
        }
        let told = container_payload(&container, name.as_str(), capacity, has_parent);
        self.put_container(index, container);
        told
    }

    /// Takes in one event and builds what the client is told of it.
    pub fn handle_event(&mut self, state: &State, event: &ServerEvent) -> (payload: Vec<u8>)
        ensures
            (final(self)@, payload@) == event_effect(old(self)@, state@, event@),
    {
        let mut payload: Vec<u8> = Vec::new();
        match event {
            ServerEvent::CreatureAdded { pos, creature } => {
                let added = creature_added_payload(pos, creature.clone());
                push_bytes(&mut payload, added.as_slice());
                let effect = magic_effect_payload(pos, MagicEffect::EnergyArea.code());
                push_bytes(&mut payload, effect.as_slice());
            },
            ServerEvent::CreatureMoved { from, to, stack_pos, creature_id, direction } => {
                let redraw = thing_transformed_payload(from, *stack_pos, None);
                push_bytes(&mut payload, redraw.as_slice());
                let turn = creature_turn_payload(*direction, *creature_id);
                push_bytes(&mut payload, turn.as_slice());
                let moved = thing_moved_payload(from, *stack_pos, to);
                push_bytes(&mut payload, moved.as_slice());
                if *creature_id == self.id {
                    let mut own: bool = false;
                    match &mut self.character {
                        Some(c) => {
                            c.position = *to;
                            own = true;
                        },
                        None => {},
                    }
                    if own && direction.has_strip(*to) {
                        let strip = map_direction_payload(state, *direction, *to);
                        push_bytes(&mut payload, strip.as_slice());
                    }
                }
            },
            ServerEvent::EnterGame => {
                match &self.character {
                    Some(c) => {
                        if has_viewport(c.position) {
                            let map = enter_game_payload(state, &c.position, self.id);
                            push_bytes(&mut payload, map.as_slice());
                        }
                    },
                    None => {},
                }
            },
            ServerEvent::CreatureRemoved { pos, stack_pos } => {
                let removed = remove_thing_payload(pos, *stack_pos);
                push_bytes(&mut payload, removed.as_slice());
                let effect = magic_effect_payload(pos, MagicEffect::Puff.code());
                push_bytes(&mut payload, effect.as_slice());
            },
            ServerEvent::ItemMoved { from, to, stack_pos, item_id } => {
                match self.find_container_at(*from, *stack_pos) {
                    Some(handle) => {
                        let closed = close_container_payload(handle);
                        push_bytes(&mut payload, closed.as_slice());
                        let _ = self.take_container(handle);
                    },
                    None => {},
                }
                if from.0 < OFF_MAP {
                    let removed = remove_thing_payload(from, *stack_pos);
                    push_bytes(&mut payload, removed.as_slice());
                }
                if to.0 < OFF_MAP {
                    let added = add_thing_payload(to, item_id);
                    push_bytes(&mut payload, added.as_slice());
                }
            },
            ServerEvent::OpenContainer {
                pos,
                stack_pos,
                index,
                item,
                name,
                parent_id,
                capacity,
            } => {
                payload = self.open_from_event(
                    *pos,
                    *stack_pos,
                    *index,
                    item,
                    name,
                    *parent_id,
                    *capacity,
                );
            },
            ServerEvent::AddedToContainer { pos, stack_pos, item } => {
                let mut h: u16 = 0;
                while h < 256
                    invariant
                        h <= 256,
                        (self@, payload@) == added_to_container_upto(
                            old(self)@,
                            *pos,
                            *stack_pos,
                            item@,
                            h as int,
                        ),
                    decreases 256 - h,
                {
                    let handle: u8 = h as u8;
                    if self.shows(handle, *pos, *stack_pos) {
                        let told = self.add_to_open(handle, *pos, item);
                        push_bytes(&mut payload, told.as_slice());
                    }
                    h += 1;
                }
            },
            ServerEvent::RemovedFromContainer { pos, stack_pos, slot } => {
                let mut h: u16 = 0;
                while h < 256
                    invariant
                        h <= 256,
                        (self@, payload@) == removed_from_container_upto(
                            old(self)@,
                            *pos,
                            *stack_pos,
                            *slot,
                            h as int,
                        ),
                    decreases 256 - h,
                {
                    let handle: u8 = h as u8;
                    if self.shows(handle, *pos, *stack_pos) {
                        let told = self.remove_from_open(handle, *pos, *slot);
                        push_bytes(&mut payload, told.as_slice());
                    }
                    h += 1;
                }
            },
            ServerEvent::ThingTransformed { pos, stack_pos, to_item_id } => {
                payload = thing_transformed_payload(pos, *stack_pos, Some(*to_item_id));
            },
            ServerEvent::CreatureSpoke { pos, text, creature_name, speech_type } => {
                payload = speech_payload(text.as_str(), creature_name.as_str(), SpeechType::Say, pos);
            },
            ServerEvent::CreatureTurned { pos, stack_pos, direction, creature_id } => {
                let redraw = thing_transformed_payload(pos, *stack_pos, None);
                push_bytes(&mut payload, redraw.as_slice());
                let turn = creature_turn_payload(*direction, *creature_id);
                push_bytes(&mut payload, turn.as_slice());
            },
        }
        payload
    }

    /// Takes in a batch of events, in order, and builds the one payload
    /// that tells the client of all of them. An empty payload means that
    /// there is nothing to send.
    pub fn handle_events(&mut self, state: &State, events: &Vec<ServerEvent>) -> (payload: Vec<u8>)
        ensures
            (final(self)@, payload@) == events_effect(old(self)@, state@, events_view(events@)),
    {
        let ghost all = events_view(events@);
        let mut payload: Vec<u8> = Vec::new();
        let mut i: usize = 0;
        assert(all.subrange(0, 0) =~= Seq::<ServerEventView>::empty());
        while i < events.len()
            invariant
                i <= events@.len(),
                all == events_view(events@),
                (self@, payload@) == events_effect(old(self)@, state@, all.subrange(0, i as int)),
            decreases events.len() - i,
        {
            proof {
                assert(all.subrange(0, i + 1).drop_last() =~= all.subrange(0, i as int));
            }
            let told = self.handle_event(state, &events[i]);
            push_bytes(&mut payload, told.as_slice());
            i += 1;
        }
        assert(all.subrange(0, i as int) =~= all);
        payload
    }
}

/// How long the server waits before it acts on a step, in milliseconds.
pub const STEP_DELAY_MS: u64 = 58;

/// Model of a [`Reaction`].
pub ghost struct ReactionView {
    pub commands: Seq<CommandView>,
    pub reply: Seq<u8>,
    pub close: bool,
    pub delay_ms: u64,
}

/// What a packet asks the surroundings of the connection to do: wait for
/// `delay_ms` milliseconds, hand `commands` to the event handler in order,
/// send `reply` to the client unless it is empty, and close the socket if
/// `close` is set.
#[derive(Debug, PartialEq, Eq)]
pub struct Reaction {
    pub commands: Vec<Command>,
    pub reply: Vec<u8>,
    pub close: bool,
    pub delay_ms: u64,
}

impl View for Reaction {
    type V = ReactionView;

    open spec fn view(&self) -> ReactionView {
        ReactionView {
            commands: commands_view(self.commands@),
            reply: self.reply@,
            close: self.close,
            delay_ms: self.delay_ms,
        }
    }
}

/// The reaction that asks for `commands` and replies `reply` at once.
pub open spec fn reaction(commands: Seq<CommandView>, reply: Seq<u8>) -> ReactionView {
    ReactionView { commands, reply, close: false, delay_ms: 0 }
}

/// The list of what is there.
pub open spec fn opt_seq<T>(value: Option<T>) -> Seq<T> {
    match value {
        Some(v) => seq![v],
        None => Seq::empty(),
    }
}

/// The direction of a step or turn: opcodes come in the order north, east,
/// south, west from `base` on.
pub open spec fn direction_of(opcode: u8, base: u8) -> Option<Direction> {
    if opcode == base {
        Some(Direction::North)
    } else if opcode == base + 1 {
        Some(Direction::East)
    } else if opcode == base + 2 {
        Some(Direction::South)
    } else if opcode == base + 3 {
        Some(Direction::West)
    } else {
        None
    }
}

/// What the body of a packet with the opcode `opcode` does to the
/// connection `conn`, whose cursor stands behind the opcode, and the
/// reaction to it. An opcode that is not known is passed over.
pub open spec fn body_effect(
    conn: ConnectionView,
    world: Map<(u16, u16, u8), TileView>,
    roster: Seq<CharacterView>,
    opcode: u8,
) -> (ConnectionView, ReactionView) {
    let buf = conn.read_buffer;
    let idx = conn.read_idx;
    let none = reaction(Seq::empty(), Seq::empty());
    if opcode == 0x01 {
        (conn, reaction(Seq::empty(), login_bytes(roster)))
    } else if opcode == 0x14 || opcode == 0x69 {
        (
            conn,
            ReactionView {
                commands: seq![CommandView::Logout { sender_id: conn.id }],
                reply: Seq::empty(),
                close: true,
                delay_ms: 0,
            },
        )
    } else if opcode == 0x0A {
        match parse_enter_game(buf, idx) {
            Some((name, next)) => {
                let (entered, commands) = enter_game_effect(conn.at(next), roster, name);
                (entered, reaction(commands, Seq::empty()))
            },
            None => (conn, none),
        }
    } else if opcode == 0x1E {
        (conn, reaction(Seq::empty(), seq![0x1Eu8]))
    } else if direction_of(opcode, 0x65) is Some {
        (
            conn,
            ReactionView {
                commands: opt_seq(move_character_command(conn, direction_of(opcode, 0x65)->0)),
                reply: Seq::empty(),
                close: false,
                delay_ms: STEP_DELAY_MS,
            },
        )
    } else if direction_of(opcode, 0x6F) is Some {
        (
            conn,
            reaction(
                opt_seq(turn_character_command(conn, direction_of(opcode, 0x6F)->0)),
                Seq::empty(),
            ),
        )
    } else if opcode == 0x78 {
        match parse_move_item(buf, idx) {
            Some((p, next)) => {
                let (moved, commands, reply) = move_item_effect(conn.at(next), world, p);
                (moved, reaction(commands, reply))
            },
            None => (conn, none),
        }
    } else if opcode == 0x82 {
        match parse_use_item(buf, idx) {
            Some((p, next)) => (
                conn.at(next),
                reaction(opt_seq(use_item_command_of(conn, p)), Seq::empty()),
            ),
            None => (conn, none),
        }
    } else if opcode == 0x87 {
        match get_u8(buf, idx) {
            Some((handle, next)) => {
                let (closed, reply) = close_container_effect(conn.at(next), handle);
                (closed, reaction(Seq::empty(), reply))
            },
            None => (conn, none),
        }
    } else if opcode == 0x88 {
        match get_u8(buf, idx) {
            Some((handle, next)) => {
                let (up, reply) = container_up_effect(conn.at(next), handle);
                (up, reaction(Seq::empty(), reply))
            },
            None => (conn, none),
        }
    } else if opcode == 0x96 {
        match parse_say(buf, idx) {
            Some((said, next)) => (
                conn.at(next),
                reaction(opt_seq(say_command(conn, said)), Seq::empty()),
            ),
            None => (conn, none),
        }
    } else {
        (conn, none)
    }
}

/// What the packet at the cursor does to the connection, and the reaction
/// to it. Without an opcode at the cursor nothing happens.
pub open spec fn packet_effect(
    conn: ConnectionView,
    world: Map<(u16, u16, u8), TileView>,
    roster: Seq<CharacterView>,
) -> (ConnectionView, ReactionView) {
    match get_packet_id(conn.read_buffer, conn.read_idx) {
        Some((opcode, next)) => body_effect(conn.at(next), world, roster, opcode),
        None => (conn, reaction(Seq::empty(), Seq::empty())),
    }
}

/// The list of the command that is there.
fn one_or_none(command: Option<Command>) -> (commands: Vec<Command>)
    ensures
        commands_view(commands@) == opt_seq(opt_command_view(command)),
{
    let mut commands: Vec<Command> = Vec::new();
    match command {
        Some(c) => {
            commands.push(c);
            assert(commands_view(commands@) =~= seq![c@]);
        },
        None => {
            assert(commands_view(commands@) =~= Seq::<CommandView>::empty());
        },
    }
    commands
}

/// Reads the direction of a step or turn from its opcode.
fn direction_from(opcode: u8, base: u8) -> (res: Option<Direction>)
    requires
        base <= 0xFC,
    ensures
        res == direction_of(opcode, base),
{
    if opcode == base {
        Some(Direction::North)
    } else if opcode == base + 1 {
        Some(Direction::East)
    } else if opcode == base + 2 {
        Some(Direction::South)
    } else if opcode == base + 3 {
        Some(Direction::West)
    } else {
        None
    }
}

impl Connection {
    /// The command by which the connection leaves the game.
    pub fn logout_command(&self) -> (command: Command)
        ensures
            command@ == (CommandView::Logout { sender_id: self.id }),
    {
        Command::Logout { sender_id: self.id }
    }

    /// Handles the packet at the cursor: reads its opcode, lets the handler
    /// for that opcode read the rest, and says what is to be done. An
    /// opcode that is not known is passed over.
    pub fn handle_packet(&mut self, state: &State, characters: &Vec<Character>) -> (reaction:
        Reaction)
        ensures
            (final(self)@, reaction@) == packet_effect(
                old(self)@,
                state@,
                characters_view(characters@),
            ),
    {
        let mut reaction = Reaction {
            commands: Vec::new(),
            reply: Vec::new(),
            close: false,
            delay_ms: 0,
        };
        assert(commands_view(reaction.commands@) =~= Seq::<CommandView>::empty());
        let opcode: u8 = match self.get_packet_id() {
            Some(v) => v,
            None => {
                return reaction;
            },
        };
        if opcode == 0x01 {
            reaction.reply = self.login(characters);
        } else if opcode == 0x14 || opcode == 0x69 {
            reaction.commands = one_or_none(Some(self.logout_command()));
            reaction.close = true;
        } else if opcode == 0x0A {
            reaction.commands = self.handle_enter_game_packet(characters);
            assert(reaction.commands@.len() == 0 ==> commands_view(reaction.commands@)
                =~= Seq::<CommandView>::empty());
        } else if opcode == 0x1E {
            reaction.reply = self.handle_ping();
        } else if opcode >= 0x65 && opcode <= 0x68 {
            let direction = direction_from(opcode, 0x65);
            match direction {
                Some(d) => {
                    reaction.commands = one_or_none(self.handle_move_character_packets(d));
                    reaction.delay_ms = STEP_DELAY_MS;
                },
                None => {},
            }
        } else if opcode >= 0x6F && opcode <= 0x72 {
            let direction = direction_from(opcode, 0x6F);
            match direction {
                Some(d) => {
                    reaction.commands = one_or_none(self.handle_creature_turn_packets(d));
                },
                None => {},
            }
        } else if opcode == 0x78 {
            let (commands, reply) = self.handle_move_item(state);
            assert(commands@.len() == 0 ==> commands_view(commands@)
                =~= Seq::<CommandView>::empty());
            assert(reply@.len() == 0 ==> reply@ =~= Seq::<u8>::empty());
            reaction.commands = commands;
            reaction.reply = reply;
        } else if opcode == 0x82 {
            reaction.commands = one_or_none(self.handle_use_item());
        } else if opcode == 0x87 {
            reaction.reply = self.handle_close_container();
            assert(reaction.reply@.len() == 0 ==> reaction.reply@ =~= Seq::<u8>::empty());
        } else if opcode == 0x88 {
            reaction.reply = self.handle_container_up();
            assert(reaction.reply@.len() == 0 ==> reaction.reply@ =~= Seq::<u8>::empty());
        } else if opcode == 0x96 {
            reaction.commands = one_or_none(self.handle_say_packet());
        }
        reaction
    }
}

} // verus!
