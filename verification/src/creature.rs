//! Creatures, player characters and their inventories.

use crate::item::{Item, ItemView};
use crate::payload::{push_bytes, push_u16_le, push_u32_le, u16_le, u32_le};
use vstd::prelude::*;
use vstd::string::*;

verus! {

/// Marker that introduces a creature the client has not been told about.
pub const UNKNOWN_CREATURE_ID: u16 = 0x61;

/// Number of inventory slots; slots are numbered from 1.
pub const INVENTORY_SLOTS: u16 = 10;

/// Model of an optional item.
pub open spec fn opt_item_view(item: Option<Item>) -> Option<ItemView> {
    match item {
        Some(it) => Some(it@),
        None => None,
    }
}

/// Copies an optional item.
pub fn clone_opt_item(item: &Option<Item>) -> (res: Option<Item>)
    ensures
        opt_item_view(res) == opt_item_view(*item),
{
    match item {
        Some(it) => Some(it.clone()),
        None => None,
    }
}

/// What a player wears and carries: ten named slots, each empty or holding
/// one item. Slot numbers run from 1 (head) to 10 (ammo).
#[derive(Debug, PartialEq, Eq)]
pub struct Inventory {
    pub head: Option<Item>,
    pub neck: Option<Item>,
    pub backpack: Option<Item>,
    pub armor: Option<Item>,
    pub right: Option<Item>,
    pub left: Option<Item>,
    pub legs: Option<Item>,
    pub feet: Option<Item>,
    pub ring: Option<Item>,
    pub ammo: Option<Item>,
}

impl View for Inventory {
    /// The ten slots in slot order: index `slot - 1` holds slot `slot`.
    type V = Seq<Option<ItemView>>;

    open spec fn view(&self) -> Seq<Option<ItemView>> {
        seq![
            opt_item_view(self.head),
            opt_item_view(self.neck),
            opt_item_view(self.backpack),
            opt_item_view(self.armor),
            opt_item_view(self.right),
            opt_item_view(self.left),
            opt_item_view(self.legs),
            opt_item_view(self.feet),
            opt_item_view(self.ring),
            opt_item_view(self.ammo),
        ]
    }
}

/// Whether `slot` names one of the ten inventory slots.
pub open spec fn is_inventory_slot(slot: u16) -> bool {
    1 <= slot <= INVENTORY_SLOTS
}

/// The content of `slot` in the inventory model `inv`; nothing for a number
/// that names no slot.
pub open spec fn inventory_slot(inv: Seq<Option<ItemView>>, slot: u16) -> Option<ItemView> {
    if is_inventory_slot(slot) {
        inv[slot - 1]
    } else {
        None
    }
}

/// The inventory model `inv` with `content` in `slot`; `inv` itself for a
/// number that names no slot.
pub open spec fn inventory_with(
    inv: Seq<Option<ItemView>>,
    slot: u16,
    content: Option<ItemView>,
) -> Seq<Option<ItemView>> {
    if is_inventory_slot(slot) {
        inv.update(slot - 1, content)
    } else {
        inv
    }
}

impl Clone for Inventory {
    fn clone(&self) -> (res: Inventory)
        ensures
            res@ == self@,
    {
        Inventory {
            head: clone_opt_item(&self.head),
            neck: clone_opt_item(&self.neck),
            backpack: clone_opt_item(&self.backpack),
            armor: clone_opt_item(&self.armor),
            right: clone_opt_item(&self.right),
            left: clone_opt_item(&self.left),
            legs: clone_opt_item(&self.legs),
            feet: clone_opt_item(&self.feet),
            ring: clone_opt_item(&self.ring),
            ammo: clone_opt_item(&self.ammo),
        }
    }
}

impl Inventory {
    /// An inventory with every slot empty.
    pub fn new_empty() -> (res: Inventory)
        ensures
            res@ == Seq::new(10, |i: int| None::<ItemView>),
    {
        let res = Inventory {
            head: None,
            neck: None,
            backpack: None,
            armor: None,
            right: None,
            left: None,
            legs: None,
            feet: None,
            ring: None,
            ammo: None,
        };
        assert(res@ =~= Seq::new(10, |i: int| None::<ItemView>));
        res
    }

    /// Looks at what `slot` holds.
    pub fn peek_slot(&self, slot: u16) -> (res: Option<&Item>)
        ensures
            match res {
                Some(it) => inventory_slot(self@, slot) == Some(it@),
                None => inventory_slot(self@, slot) == None::<ItemView>,
            },
    {
        match slot {
            1 => self.head.as_ref(),
            2 => self.neck.as_ref(),
            3 => self.backpack.as_ref(),
            4 => self.armor.as_ref(),
            5 => self.right.as_ref(),
            6 => self.left.as_ref(),
            7 => self.legs.as_ref(),
            8 => self.feet.as_ref(),
            9 => self.ring.as_ref(),
            10 => self.ammo.as_ref(),
            _ => None,
        }
    }

    /// Takes the inventory apart and hands out what `slot` holds.
    pub fn get_from_slot(self, slot: u16) -> (res: Option<Item>)
        ensures
            opt_item_view(res) == inventory_slot(self@, slot),
    {
        match slot {
            1 => self.head,
            2 => self.neck,
            3 => self.backpack,
            4 => self.armor,
            5 => self.right,
            6 => self.left,
            7 => self.legs,
            8 => self.feet,
            9 => self.ring,
            10 => self.ammo,
            _ => None,
        }
    }

    /// Empties `slot` and hands out what it held.
    pub fn remove_from_slot(&mut self, slot: u16) -> (res: Option<Item>)
        ensures
            opt_item_view(res) == inventory_slot(old(self)@, slot),
            final(self)@ == inventory_with(old(self)@, slot, None),
    {
        let mut removed: Option<Item> = None;
        match slot {
            1 => {
                std::mem::swap(&mut self.head, &mut removed);
            },
            2 => {
                std::mem::swap(&mut self.neck, &mut removed);
            },
            3 => {
                std::mem::swap(&mut self.backpack, &mut removed);
            },
            4 => {
                std::mem::swap(&mut self.armor, &mut removed);
            },
            5 => {
                std::mem::swap(&mut self.right, &mut removed);
            },
            6 => {
                std::mem::swap(&mut self.left, &mut removed);
            },
            7 => {
                std::mem::swap(&mut self.legs, &mut removed);
            },
            8 => {
                std::mem::swap(&mut self.feet, &mut removed);
            },
            9 => {
                std::mem::swap(&mut self.ring, &mut removed);
            },
            10 => {
                std::mem::swap(&mut self.ammo, &mut removed);
            },
            _ => {},
        }
        assert(self@ =~= inventory_with(old(self)@, slot, None));
        removed
    }

    /// Puts `item` into `slot`, replacing what was there. A number that names
    /// no slot leaves the inventory as it was.
    pub fn equip(&mut self, slot: u16, item: Item)
        ensures
            final(self)@ == inventory_with(old(self)@, slot, Some(item@)),
    {
        match slot {
            1 => {
                self.head = Some(item);
            },
            2 => {
                self.neck = Some(item);
            },
            3 => {
                self.backpack = Some(item);
            },
            4 => {
                self.armor = Some(item);
            },
            5 => {
                self.right = Some(item);
            },
            6 => {
                self.left = Some(item);
            },
            7 => {
                self.legs = Some(item);
            },
            8 => {
                self.feet = Some(item);
            },
            9 => {
                self.ring = Some(item);
            },
            10 => {
                self.ammo = Some(item);
            },
            _ => {},
        }
        assert(self@ =~= inventory_with(old(self)@, slot, Some(item@)));
    }
}

/// Model of a [`Creature`].
pub ghost struct CreatureView {
    pub id: u32,
    pub name: Seq<char>,
    pub outfit_type: u16,
    pub outfit: Seq<u8>,
    pub is_known: bool,
    pub health: u16,
    pub max_health: u16,
    pub look_dir: u8,
    pub light_level: u8,
    pub light_color: u8,
    pub speed: u16,
    pub shield: u8,
}

/// Anything that stands on a tile and can move: a player's avatar or a
/// spawned being.
#[derive(Debug, PartialEq, Eq)]
pub struct Creature {
    pub id: u32,
    pub name: String,
    pub outfit_type: u16,
    /// Colours of head, body, legs and feet.
    pub outfit: [u8; 4],
    pub is_known: bool,
    pub health: u16,
    pub max_health: u16,
    pub look_dir: u8,
    pub light_level: u8,
    pub light_color: u8,
    pub speed: u16,
    pub shield: u8,
}

impl View for Creature {
    type V = CreatureView;

    open spec fn view(&self) -> CreatureView {
        CreatureView {
            id: self.id,
            name: self.name@,
            outfit_type: self.outfit_type,
            outfit: self.outfit@,
            is_known: self.is_known,
            health: self.health,
            max_health: self.max_health,
            look_dir: self.look_dir,
            light_level: self.light_level,
            light_color: self.light_color,
            speed: self.speed,
            shield: self.shield,
        }
    }
}

impl Clone for Creature {
    fn clone(&self) -> (res: Creature)
        ensures
            res@ == self@,
    {
        Creature {
            id: self.id,
            name: self.name.clone(),
            outfit_type: self.outfit_type,
            outfit: self.outfit,
            is_known: self.is_known,
            health: self.health,
            max_health: self.max_health,
            look_dir: self.look_dir,
            light_level: self.light_level,
            light_color: self.light_color,
            speed: self.speed,
            shield: self.shield,
        }
    }
}

/// Model of an optional character.
pub open spec fn opt_character_view(character: Option<Character>) -> Option<CharacterView> {
    match character {
        Some(c) => Some(c@),
        None => None,
    }
}

/// Model of a [`Character`].
pub ghost struct CharacterView {
    pub id: u32,
    pub name: Seq<char>,
    pub world: Seq<char>,
    pub outfit_type: u16,
    pub outfit: Seq<u8>,
    pub position: (u16, u16, u8),
    pub speed: u16,
    pub look_dir: u8,
    pub health: u16,
    pub max_health: u16,
    pub inventory: Seq<Option<ItemView>>,
}

/// A playable character: a creature with a place in the world and an
/// inventory.
#[derive(Debug, PartialEq, Eq)]
pub struct Character {
    pub id: u32,
    pub name: String,
    pub world: String,
    pub outfit_type: u16,
    /// Colours of head, body, legs and feet.
    pub outfit: [u8; 4],
    pub position: (u16, u16, u8),
    pub speed: u16,
    pub look_dir: u8,
    pub health: u16,
    pub max_health: u16,
    pub inventory: Inventory,
}

impl View for Character {
    type V = CharacterView;

    open spec fn view(&self) -> CharacterView {
        CharacterView {
            id: self.id,
            name: self.name@,
            world: self.world@,
            outfit_type: self.outfit_type,
            outfit: self.outfit@,
            position: self.position,
            speed: self.speed,
            look_dir: self.look_dir,
            health: self.health,
            max_health: self.max_health,
            inventory: self.inventory@,
        }
    }
}

impl Clone for Character {
    fn clone(&self) -> (res: Character)
        ensures
            res@ == self@,
    {
        Character {
            id: self.id,
            name: self.name.clone(),
            world: self.world.clone(),
            outfit_type: self.outfit_type,
            outfit: self.outfit,
            position: self.position,
            speed: self.speed,
            look_dir: self.look_dir,
            health: self.health,
            max_health: self.max_health,
            inventory: self.inventory.clone(),
        }
    }
}

/// The creature that stands for the character `c` in the world: the
/// character's own id, name, outfit, health, greatest health, look direction
/// and speed, known to the client, with the standard light and no shield.
pub open spec fn character_creature(c: CharacterView) -> CreatureView {
    CreatureView {
        id: c.id,
        name: c.name,
        outfit_type: c.outfit_type,
        outfit: c.outfit,
        is_known: true,
        health: c.health,
        max_health: c.max_health,
        look_dir: c.look_dir,
        light_level: 0x64,
        light_color: 0xD7,
        speed: c.speed,
        shield: 0,
    }
}

impl Character {
    /// The creature that represents this character on its tile.
    pub fn as_creature(&self) -> (res: Creature)
        ensures
            res@ == character_creature(self@),
    {
        Creature {
            id: self.id,
            name: self.name.clone(),
            outfit_type: self.outfit_type,
            outfit: self.outfit,
            is_known: true,
            health: self.health,
            max_health: self.max_health,
            look_dir: self.look_dir,
            light_level: 0x64,
            light_color: 0xD7,
            speed: self.speed,
            shield: 0,
        }
    }
}

/// Wire form of a string of characters: the number of bytes of its UTF-8
/// encoding, as a little-endian `u16` that keeps the low 16 bits, then those
/// bytes.
pub open spec fn str_bytes(chars: Seq<char>) -> Seq<u8> {
    let raw = vstd::utf8::encode_utf8(chars);
    u16_le((raw.len() % 65536) as u16) + raw
}

/// Encodes `s` as a length-prefixed string.
pub fn str_fmt(s: &str) -> (bytes: Vec<u8>)
    ensures
        bytes@ == str_bytes(s@),
{
    let raw = s.as_bytes();
    let mut bytes: Vec<u8> = Vec::new();
    push_u16_le(&mut bytes, (raw.len() % 65536) as u16);
    push_bytes(&mut bytes, raw);
    assert(bytes@ =~= str_bytes(s@));
    bytes
}

/// The health byte sent for a creature: the whole number of times that
/// `max_health` goes into `health`, times one hundred, cut to eight bits;
/// zero for a creature without any maximum.
pub open spec fn health_byte(health: u16, max_health: u16) -> u8 {
    if max_health == 0 {
        0
    } else {
        (((health / max_health) * 100) % 256) as u8
    }
}

/// Wire form of a creature as it is first shown to a client.
pub open spec fn creature_bytes(c: CreatureView) -> Seq<u8> {
    u16_le(UNKNOWN_CREATURE_ID) + u32_le(((c.id + 10) % 0x1_0000_0000) as u32) + u32_le(c.id)
        + str_bytes(c.name) + seq![health_byte(c.health, c.max_health), c.look_dir] + u16_le(
        c.outfit_type,
    ) + c.outfit + seq![c.light_color, c.light_level] + u16_le(c.speed) + seq![c.shield]
}

impl Creature {
    /// Encodes the creature for a client that has not seen it before.
    pub fn as_bytes(&self) -> (bytes: Vec<u8>)
        ensures
            bytes@ == creature_bytes(self@),
    {
        let mut bytes: Vec<u8> = Vec::new();
        push_u16_le(&mut bytes, UNKNOWN_CREATURE_ID);
        push_u32_le(&mut bytes, self.id.wrapping_add(10));
        push_u32_le(&mut bytes, self.id);
        let name = str_fmt(self.name.as_str());
        push_bytes(&mut bytes, name.as_slice());
        let health: u8 = if self.max_health == 0 {
            0
        } else {
            let ratio: u32 = (self.health / self.max_health) as u32;
            ((ratio * 100) % 256) as u8
        };
        bytes.push(health);
        bytes.push(self.look_dir);
        push_u16_le(&mut bytes, self.outfit_type);
        push_bytes(&mut bytes, self.outfit.as_slice());
        bytes.push(self.light_color);
        bytes.push(self.light_level);
        push_u16_le(&mut bytes, self.speed);
        bytes.push(self.shield);
        assert(bytes@ =~= creature_bytes(self@));
        bytes
    }
}

/// The roster of playable characters as a model: two characters of the world
/// "World", standing two tiles apart.
pub open spec fn roster() -> Seq<CharacterView> {
    seq![
        CharacterView {
            id: 1,
            name: "Some Character"@,
            world: "World"@,
            outfit_type: 128,
            outfit: seq![80u8, 80u8, 80u8, 80u8],
            position: (1024, 1024, 7),
            speed: 220,
            look_dir: 0,
            health: 100,
            max_health: 100,
            inventory: Seq::new(10, |i: int| None::<ItemView>),
        },
        CharacterView {
            id: 2,
            name: "Another Character"@,
            world: "World"@,
            outfit_type: 128,
            outfit: seq![30u8, 30u8, 30u8, 30u8],
            position: (1024, 1026, 7),
            speed: 220,
            look_dir: 0,
            health: 100,
            max_health: 100,
            inventory: Seq::new(10, |i: int| None::<ItemView>),
        },
    ]
}

/// Models of a list of characters, element by element.
pub open spec fn characters_view(characters: Seq<Character>) -> Seq<CharacterView> {
    Seq::new(characters.len(), |i: int| characters[i]@)
}

/// Builds the roster of playable characters.
pub fn create_characters() -> (characters: Vec<Character>)
    ensures
        characters_view(characters@) == roster(),
{
    let mut characters: Vec<Character> = Vec::new();
    characters.push(
        Character {
            id: 1,
            name: String::from_str("Some Character"),
            outfit_type: 128,
            outfit: [80, 80, 80, 80],
            health: 100,
            max_health: 100,
            look_dir: 0,
            speed: 220,
            world: String::from_str("World"),
            position: (1024, 1024, 7),
            inventory: Inventory::new_empty(),
        },
    );
    characters.push(
        Character {
            id: 2,
            name: String::from_str("Another Character"),
            outfit_type: 128,
            outfit: [30, 30, 30, 30],
            health: 100,
            max_health: 100,
            look_dir: 0,
            speed: 220,
            world: String::from_str("World"),
            position: (1024, 1026, 7),
            inventory: Inventory::new_empty(),
        },
    );
    assert(characters@[0]@.outfit =~= seq![80u8, 80u8, 80u8, 80u8]);
    assert(characters@[1]@.outfit =~= seq![30u8, 30u8, 30u8, 30u8]);
    assert(characters_view(characters@) =~= roster());
    characters
}

} // verus!
