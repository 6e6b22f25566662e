//! Tiles, the stack of things on each of them, directions and the part of
//! the world that a client sees.

use crate::connection::State;
use crate::creature::{creature_bytes, Creature, CreatureView};
use crate::item::{item_from_otb, item_ids_bytes, items_view, push_item_ids, Item, ItemView};
use crate::otb_io::item_loader::{item_data_view, ItemData, ItemDataView};
use crate::otb_io::map_loader::{
    OtbMapData, OtbMapItemView, OtbTile, OtbTileAreaView, OtbTileView,
};
use crate::otb_io::LoadError;
use crate::payload::{push_bytes, push_u16_le, u16_le};
use std::collections::HashMap;
use vstd::prelude::*;

verus! {

broadcast use vstd::std_specs::hash::group_hash_axioms;

/// Number of tiles a client sees to the west of its own; one more to the east.
pub const VIEWPORT_X: u16 = 8;

/// Number of tiles a client sees to the north of its own; one more to the
/// south.
pub const VIEWPORT_Y: u16 = 6;

/// Models of a list of creatures, element by element.
pub open spec fn creatures_view(creatures: Seq<Creature>) -> Seq<CreatureView> {
    Seq::new(creatures.len(), |i: int| creatures[i]@)
}

/// One of the things stacked on a tile.
pub ghost enum Thing {
    Item(ItemView),
    Creature(CreatureView),
}

/// Where an item lies on a tile: in the list of top items or in the list of
/// bottom items, at the given index.
#[derive(Clone, Copy, Debug, PartialEq, Eq)]
pub enum ItemSlot {
    Top(usize),
    Bottom(usize),
}

/// Model of a [`Tile`].
pub ghost struct TileView {
    pub floor_item_client_id: u16,
    pub top_items: Seq<ItemView>,
    pub creatures: Seq<CreatureView>,
    pub bot_items: Seq<ItemView>,
}

impl TileView {
    /// Everything on the tile in its fixed order: top items, then creatures,
    /// then bottom items.
    pub open spec fn stack(self) -> Seq<Thing> {
        self.top_items.map_values(|it: ItemView| Thing::Item(it)) + self.creatures.map_values(
            |c: CreatureView| Thing::Creature(c),
        ) + self.bot_items.map_values(|it: ItemView| Thing::Item(it))
    }

    /// The thing that `stack_pos` addresses: stack positions count the
    /// stack from 1.
    pub open spec fn thing_at(self, stack_pos: int) -> Option<Thing> {
        if 1 <= stack_pos <= self.stack().len() {
            Some(self.stack()[stack_pos - 1])
        } else {
            None
        }
    }

    /// The item that `stack_pos` addresses, if it addresses an item.
    pub open spec fn item_at(self, stack_pos: int) -> Option<ItemView> {
        match self.thing_at(stack_pos) {
            Some(Thing::Item(it)) => Some(it),
            _ => None,
        }
    }

    /// The stack position of the creature at index `idx` of the creature
    /// list.
    pub open spec fn creature_stack_pos(self, idx: int) -> int {
        self.top_items.len() + idx + 1
    }

    /// The stack position of the item in `slot`, if there is an item there.
    pub open spec fn item_stack_pos(self, slot: ItemSlot) -> Option<int> {
        match slot {
            ItemSlot::Top(i) => if i < self.top_items.len() {
                Some(i + 1)
            } else {
                None
            },
            ItemSlot::Bottom(i) => if i < self.bot_items.len() {
                Some(self.top_items.len() + self.creatures.len() + i + 1)
            } else {
                None
            },
        }
    }

    /// The tile with `creature` behind the creatures already on it.
    pub open spec fn with_creature(self, creature: CreatureView) -> TileView {
        TileView { creatures: self.creatures.push(creature), ..self }
    }

    /// The tile without the creature at index `idx` of the creature list.
    pub open spec fn without_creature(self, idx: int) -> TileView {
        TileView { creatures: self.creatures.remove(idx), ..self }
    }

    /// The tile with every creature that has `id` facing `look_dir`.
    pub open spec fn with_turned(self, id: u32, look_dir: u8) -> TileView {
        TileView {
            creatures: Seq::new(
                self.creatures.len(),
                |i: int|
                    if self.creatures[i].id == id {
                        CreatureView { look_dir, ..self.creatures[i] }
                    } else {
                        self.creatures[i]
                    },
            ),
            ..self
        }
    }

    /// The tile with `item` on top of its bottom items, that is, last in
    /// their list.
    pub open spec fn with_bottom_item(self, item: ItemView) -> TileView {
        TileView { bot_items: self.bot_items.push(item), ..self }
    }

    /// The tile without the last of its bottom items.
    pub open spec fn without_last_bottom_item(self) -> TileView {
        TileView { bot_items: self.bot_items.drop_last(), ..self }
    }

    /// Where in the two item lists the item lies that `stack_pos`
    /// addresses, if it addresses an item.
    pub open spec fn slot_at(self, stack_pos: int) -> Option<ItemSlot> {
        let n = self.top_items.len();
        let m = self.creatures.len();
        if 1 <= stack_pos <= n {
            Some(ItemSlot::Top((stack_pos - 1) as usize))
        } else if n + m < stack_pos <= n + m + self.bot_items.len() {
            Some(ItemSlot::Bottom((stack_pos - 1 - n - m) as usize))
        } else {
            None
        }
    }

    /// The tile with `item` in the place of the item that `stack_pos`
    /// addresses; the tile itself where `stack_pos` addresses no item.
    pub open spec fn with_item(self, stack_pos: int, item: ItemView) -> TileView {
        match self.slot_at(stack_pos) {
            Some(ItemSlot::Top(i)) => TileView {
                top_items: self.top_items.update(i as int, item),
                ..self
            },
            Some(ItemSlot::Bottom(i)) => TileView {
                bot_items: self.bot_items.update(i as int, item),
                ..self
            },
            None => self,
        }
    }

    /// The tile with `item` in front of what the item at `stack_pos` holds;
    /// the tile itself where `stack_pos` addresses no item.
    pub open spec fn with_added(self, stack_pos: int, item: ItemView) -> TileView {
        match self.item_at(stack_pos) {
            Some(it) => self.with_item(stack_pos, ItemView { items: seq![item] + it.items, ..it }),
            None => self,
        }
    }

    /// Whether `stack_pos` addresses an item that holds something in
    /// `slot`.
    pub open spec fn holds_at(self, stack_pos: int, slot: int) -> bool {
        match self.item_at(stack_pos) {
            Some(it) => 0 <= slot < it.items.len(),
            None => false,
        }
    }

    /// The tile without what the item at `stack_pos` holds in `slot`; the
    /// tile itself where there is no such thing.
    pub open spec fn with_removed(self, stack_pos: int, slot: int) -> TileView {
        match self.item_at(stack_pos) {
            Some(it) => if 0 <= slot < it.items.len() {
                self.with_item(stack_pos, ItemView { items: it.items.remove(slot), ..it })
            } else {
                self
            },
            None => self,
        }
    }

    /// The tile with the kind of the item at `stack_pos` changed to
    /// `client_id`; the tile itself where `stack_pos` addresses no item.
    pub open spec fn with_item_id(self, stack_pos: int, client_id: u16) -> TileView {
        match self.item_at(stack_pos) {
            Some(it) => self.with_item(stack_pos, ItemView { client_id, ..it }),
            None => self,
        }
    }
}

/// The index of the last of `creatures` that has `id`.
pub open spec fn last_creature_index(creatures: Seq<CreatureView>, id: u32) -> Option<int>
    decreases creatures.len(),
{
    if creatures.len() == 0 {
        None
    } else if creatures.last().id == id {
        Some(creatures.len() - 1)
    } else {
        last_creature_index(creatures.drop_last(), id)
    }
}

/// A stack position as the wire carries it: its low eight bits.
pub open spec fn stack_pos_code(stack_pos: int) -> u8 {
    (stack_pos % 256) as u8
}

/// Stack positions `1..=N` address the `N` top items in list order, the next
/// `M` positions the `M` creatures, the next `K` positions the `K` bottom
/// items, and no other position addresses anything.
pub proof fn stack_positions_address_layers(tile: TileView, stack_pos: int)
    ensures
        1 <= stack_pos <= tile.top_items.len() ==> tile.thing_at(stack_pos) == Some(
            Thing::Item(tile.top_items[stack_pos - 1]),
        ),
        tile.top_items.len() < stack_pos <= tile.top_items.len() + tile.creatures.len()
            ==> tile.thing_at(stack_pos) == Some(
            Thing::Creature(tile.creatures[stack_pos - 1 - tile.top_items.len()]),
        ),
        tile.top_items.len() + tile.creatures.len() < stack_pos <= tile.top_items.len()
            + tile.creatures.len() + tile.bot_items.len() ==> tile.thing_at(stack_pos) == Some(
            Thing::Item(
                tile.bot_items[stack_pos - 1 - tile.top_items.len() - tile.creatures.len()],
            ),
        ),
        stack_pos < 1 || stack_pos > tile.top_items.len() + tile.creatures.len()
            + tile.bot_items.len() ==> tile.thing_at(stack_pos) == None::<Thing>,
        tile.stack().len() == tile.top_items.len() + tile.creatures.len() + tile.bot_items.len(),
{
}

/// The stack position of an item addresses that item, and an item that a
/// stack position addresses has that stack position. This holds of every
/// tile whose item lists are no longer than a list in memory can be.
pub proof fn item_stack_position(tile: TileView, slot: ItemSlot, stack_pos: int)
    requires
        tile.top_items.len() <= usize::MAX,
        tile.bot_items.len() <= usize::MAX,
    ensures
        tile.item_stack_pos(slot) == Some(stack_pos) <==> tile.slot_at(stack_pos) == Some(slot),
{
}

/// A creature sits at the stack position that follows the top items and the
/// creatures listed before it, and that position addresses it.
pub proof fn creature_stack_position(tile: TileView, idx: int)
    requires
        0 <= idx < tile.creatures.len(),
    ensures
        tile.thing_at(tile.creature_stack_pos(idx)) == Some(Thing::Creature(tile.creatures[idx])),
{
    stack_positions_address_layers(tile, tile.creature_stack_pos(idx));
}

/// One cell of the world grid: the floor and what is stacked on it.
#[derive(Debug, PartialEq, Eq)]
pub struct Tile {
    pub floor_item_client_id: u16,
    pub top_items: Vec<Item>,
    pub bot_items: Vec<Item>,
    pub creatures: Vec<Creature>,
}

impl View for Tile {
    type V = TileView;

    open spec fn view(&self) -> TileView {
        TileView {
            floor_item_client_id: self.floor_item_client_id,
            top_items: items_view(self.top_items@),
            creatures: creatures_view(self.creatures@),
            bot_items: items_view(self.bot_items@),
        }
    }
}

/// The low eight bits of the sum of two lengths, computed without
/// overflow.
fn low_byte_of_sum(a: usize, b: usize) -> (res: u8)
    ensures
        res == ((a + b) % 256) as u8,
{
    proof {
        vstd::arithmetic::div_mod::lemma_add_mod_noop(a as int, b as int, 256);
    }
    let low_a: usize = a % 256;
    let low_b: usize = b % 256;
    ((low_a + low_b) % 256) as u8
}

/// Computes the stack position, as the wire carries it, of the creature at
/// index `idx` of the creature list of a tile with `top_len` top items.
pub fn creature_stack_pos_code(top_len: usize, idx: usize) -> (res: u8)
    ensures
        res == stack_pos_code(top_len + idx + 1),
{
    let before: u8 = low_byte_of_sum(top_len, idx);
    proof {
        vstd::arithmetic::div_mod::lemma_add_mod_noop_right(1, top_len + idx, 256);
    }
    low_byte_of_sum(before as usize, 1)
}

/// The `x` coordinate that marks a position as an address off the map: a
/// slot of the inventory or of an open container.
pub const OFF_MAP: u16 = 0xFFFF;

/// What a position on the wire addresses.
#[derive(Clone, Copy, Debug, PartialEq, Eq)]
pub enum Address {
    /// A tile of the map.
    OnGround((u16, u16, u8)),
    /// A slot, counted from zero, of the open container with the given
    /// handle.
    InContainer(u8, u8),
    /// The inventory slot with the given number.
    InInventory(u16),
}

/// What `pos` addresses. With `x` at its off-map mark, bit 6 of `y` tells a
/// container slot from an inventory slot: a container has its handle in the
/// low four bits of `y` and the slot in `z`, an inventory slot its number in
/// `y`.
pub open spec fn address_of(pos: (u16, u16, u8)) -> Address {
    if pos.0 != OFF_MAP {
        Address::OnGround(pos)
    } else if (pos.1 / 64) % 2 == 1 {
        Address::InContainer((pos.1 % 16) as u8, pos.2)
    } else {
        Address::InInventory(pos.1)
    }
}

/// The handle of the open container that `pos` addresses a slot of.
pub open spec fn container_handle_of(pos: (u16, u16, u8)) -> Option<u8> {
    match address_of(pos) {
        Address::InContainer(handle, _) => Some(handle),
        _ => None,
    }
}

/// Tells what `pos` addresses.
pub fn parse_address(pos: (u16, u16, u8)) -> (res: Address)
    ensures
        res == address_of(pos),
{
    let y: u16 = pos.1;
    assert((y & 0x40 == 0x40) <==> ((y / 64) % 2 == 1)) by (bit_vector);
    assert(y & 0x0F == y % 16) by (bit_vector);
    if pos.0 != OFF_MAP {
        Address::OnGround(pos)
    } else if y & 0x40 == 0x40 {
        Address::InContainer((y & 0x0F) as u8, pos.2)
    } else {
        Address::InInventory(y)
    }
}

/// The top items and the bottom items that the items `items` of the map
/// file make, each list in file order. An item whose catalogue entry has a
/// top order below 255 is a top item, any other a bottom item. It fails with
/// the first item that cannot be built or that the catalogue has no entry
/// for.
pub open spec fn layers_from_otb(
    items: Seq<OtbMapItemView>,
    catalog: Map<u16, ItemDataView>,
    ids: Map<u16, u16>,
) -> Result<(Seq<ItemView>, Seq<ItemView>), LoadError>
    decreases items.len(),
{
    if items.len() == 0 {
        Ok((Seq::empty(), Seq::empty()))
    } else {
        match layers_from_otb(items.drop_last(), catalog, ids) {
            Ok((top, bottom)) => match item_from_otb(items.last(), ids) {
                Ok(item) => if !catalog.contains_key(item.client_id) {
                    Err(LoadError::UnknownItem(item.client_id))
                } else if catalog[item.client_id].top_order < 255 {
                    Ok((top.push(item), bottom))
                } else {
                    Ok((top, bottom.push(item)))
                },
                Err(e) => Err(e),
            },
            Err(e) => Err(e),
        }
    }
}

/// The tile that the tile `tile` of the map file stands for: its floor by
/// client id, its items in their layers, and no creature. It fails where
/// the server id of the floor is not known, else with the first failure
/// among its items.
pub open spec fn tile_from_otb(
    tile: OtbTileView,
    catalog: Map<u16, ItemDataView>,
    ids: Map<u16, u16>,
) -> Result<TileView, LoadError> {
    if !ids.contains_key(tile.floor_item_server_id) {
        Err(LoadError::UnknownServerId(tile.floor_item_server_id))
    } else {
        match layers_from_otb(tile.items, catalog, ids) {
            Ok((top, bottom)) => Ok(
                TileView {
                    floor_item_client_id: ids[tile.floor_item_server_id],
                    top_items: top,
                    creatures: Seq::empty(),
                    bot_items: bottom,
                },
            ),
            Err(e) => Err(e),
        }
    }
}

/// The world `world` with the tiles `tiles` of an area with the origin
/// `(x, y, z)` added in order, each at the origin plus its own place; a
/// later tile takes the place of an earlier one at the same position. It
/// fails with the first tile that cannot be built or that lies outside the
/// coordinate space.
pub open spec fn world_with_tiles(
    world: Map<(u16, u16, u8), TileView>,
    x: u16,
    y: u16,
    z: u8,
    tiles: Seq<OtbTileView>,
    catalog: Map<u16, ItemDataView>,
    ids: Map<u16, u16>,
) -> Result<Map<(u16, u16, u8), TileView>, LoadError>
    decreases tiles.len(),
{
    if tiles.len() == 0 {
        Ok(world)
    } else {
        match world_with_tiles(world, x, y, z, tiles.drop_last(), catalog, ids) {
            Ok(before) => match tile_from_otb(tiles.last(), catalog, ids) {
                Ok(tile) => if x + tiles.last().x > 0xFFFF || y + tiles.last().y > 0xFFFF {
                    Err(LoadError::PositionOutOfRange)
                } else {
                    Ok(
                        before.insert(
                            ((x + tiles.last().x) as u16, (y + tiles.last().y) as u16, z),
                            tile,
                        ),
                    )
                },
                Err(e) => Err(e),
            },
            Err(e) => Err(e),
        }
    }
}

/// The world `world` with the tiles of the areas `areas` added, area after
/// area. It fails with the first failure among them.
pub open spec fn world_with_areas(
    world: Map<(u16, u16, u8), TileView>,
    areas: Seq<OtbTileAreaView>,
    catalog: Map<u16, ItemDataView>,
    ids: Map<u16, u16>,
) -> Result<Map<(u16, u16, u8), TileView>, LoadError>
    decreases areas.len(),
{
    if areas.len() == 0 {
        Ok(world)
    } else {
        match world_with_areas(world, areas.drop_last(), catalog, ids) {
            Ok(before) => world_with_tiles(
                before,
                areas.last().x,
                areas.last().y,
                areas.last().z,
                areas.last().tiles,
                catalog,
                ids,
            ),
            Err(e) => Err(e),
        }
    }
}

/// Builds the world from what the map file holds, with the catalogue
/// `item_data` and the client id of each server id.
pub fn create_tile_map(
    map_data: &OtbMapData,
    item_data: &HashMap<u16, ItemData>,
    server_id_to_client_id: &HashMap<u16, u16>,
) -> (res: Result<State, LoadError>)
    ensures
        match world_with_areas(
            Map::empty(),
            map_data@.tile_areas,
            item_data_view(item_data@),
            server_id_to_client_id@,
        ) {
            Ok(world) => res matches Ok(state) && state@ == world && state.wf(),
            Err(e) => res matches Err(err) && err == e,
        },
{
    let ghost areas = map_data@.tile_areas;
    let ghost catalog = item_data_view(item_data@);
    let ghost ids = server_id_to_client_id@;
    let mut state = State::new();
    let mut a: usize = 0;
    assert(areas.subrange(0, 0) =~= Seq::<OtbTileAreaView>::empty());
    while a < map_data.tile_areas.len()
        invariant
            a <= map_data.tile_areas@.len(),
            state.wf(),
            areas == map_data@.tile_areas,
            areas.len() == map_data.tile_areas@.len(),
            catalog == item_data_view(item_data@),
            ids == server_id_to_client_id@,
            world_with_areas(Map::empty(), areas.subrange(0, a as int), catalog, ids) == Ok::<
                Map<(u16, u16, u8), TileView>,
                LoadError,
            >(state@),
        decreases map_data.tile_areas.len() - a,
    {
        let area = &map_data.tile_areas[a];
        let ghost before = state@;
        let ghost tiles = area@.tiles;
        proof {
            assert(areas.subrange(0, a + 1).drop_last() =~= areas.subrange(0, a as int));
            assert(areas.subrange(0, a + 1).last() == area@);
            world_with_areas_fails_on(Map::empty(), areas, a + 1, catalog, ids);
        }
        let mut t: usize = 0;
        assert(tiles.subrange(0, 0) =~= Seq::<OtbTileView>::empty());
        while t < area.tiles.len()
            invariant
                t <= area.tiles@.len(),
                state.wf(),
                tiles == area@.tiles,
                tiles.len() == area.tiles@.len(),
                areas == map_data@.tile_areas,
                catalog == item_data_view(item_data@),
                ids == server_id_to_client_id@,
                world_with_tiles(
                    before,
                    area.x,
                    area.y,
                    area.z,
                    tiles.subrange(0, t as int),
                    catalog,
                    ids,
                ) == Ok::<Map<(u16, u16, u8), TileView>, LoadError>(state@),
                world_with_tiles(before, area.x, area.y, area.z, tiles, catalog, ids) is Err
                    ==> world_with_areas(Map::empty(), areas, catalog, ids) == world_with_tiles(
                    before,
                    area.x,
                    area.y,
                    area.z,
                    tiles,
                    catalog,
                    ids,
                ),
            decreases area.tiles.len() - t,
        {
            let tile = &area.tiles[t];
            proof {
                assert(tiles.subrange(0, t + 1).drop_last() =~= tiles.subrange(0, t as int));
                assert(tiles.subrange(0, t + 1).last() == tile@);
                world_with_tiles_fails_on(
                    before,
                    area.x,
                    area.y,
                    area.z,
                    tiles,
                    t + 1,
                    catalog,
                    ids,
                );
            }
            let map_tile = match Tile::form_otb_tile(tile, item_data, server_id_to_client_id) {
                Ok(v) => v,
                Err(e) => {
                    return Err(e);
                },
            };
            if area.x > 0xFFFF - (tile.x as u16) || area.y > 0xFFFF - (tile.y as u16) {
                return Err(LoadError::PositionOutOfRange);
            }
            state.set_tile((area.x + tile.x as u16, area.y + tile.y as u16, area.z), map_tile);
            t += 1;
        }
        assert(tiles.subrange(0, t as int) =~= tiles);
        a += 1;
    }
    assert(areas.subrange(0, a as int) =~= areas);
    Ok(state)
}

/// A list of tiles fails as soon as one of its beginnings does, and in the
/// same way.
proof fn world_with_tiles_fails_on(
    world: Map<(u16, u16, u8), TileView>,
    x: u16,
    y: u16,
    z: u8,
    tiles: Seq<OtbTileView>,
    n: int,
    catalog: Map<u16, ItemDataView>,
    ids: Map<u16, u16>,
)
    requires
        0 <= n <= tiles.len(),
    ensures
        world_with_tiles(world, x, y, z, tiles.subrange(0, n), catalog, ids) is Err
            ==> world_with_tiles(world, x, y, z, tiles, catalog, ids) == world_with_tiles(
            world,
            x,
            y,
            z,
            tiles.subrange(0, n),
            catalog,
            ids,
        ),
    decreases tiles.len() - n,
{
    if n < tiles.len() {
        assert(tiles.subrange(0, n + 1).drop_last() =~= tiles.subrange(0, n));
        world_with_tiles_fails_on(world, x, y, z, tiles, n + 1, catalog, ids);
    } else {
        assert(tiles.subrange(0, n) =~= tiles);
    }
}

/// A list of areas fails as soon as one of its beginnings does, and in the
/// same way.
proof fn world_with_areas_fails_on(
    world: Map<(u16, u16, u8), TileView>,
    areas: Seq<OtbTileAreaView>,
    n: int,
    catalog: Map<u16, ItemDataView>,
    ids: Map<u16, u16>,
)
    requires
        0 <= n <= areas.len(),
    ensures
        world_with_areas(world, areas.subrange(0, n), catalog, ids) is Err ==> world_with_areas(
            world,
            areas,
            catalog,
            ids,
        ) == world_with_areas(world, areas.subrange(0, n), catalog, ids),
    decreases areas.len() - n,
{
    if n < areas.len() {
        assert(areas.subrange(0, n + 1).drop_last() =~= areas.subrange(0, n));
        world_with_areas_fails_on(world, areas, n + 1, catalog, ids);
    } else {
        assert(areas.subrange(0, n) =~= areas);
    }
}

/// A list of items fails to make layers as soon as one of its beginnings
/// does, and in the same way.
proof fn layers_from_otb_fails_on(
    items: Seq<OtbMapItemView>,
    n: int,
    catalog: Map<u16, ItemDataView>,
    ids: Map<u16, u16>,
)
    requires
        0 <= n <= items.len(),
    ensures
        layers_from_otb(items.subrange(0, n), catalog, ids) is Err ==> layers_from_otb(
            items,
            catalog,
            ids,
        ) == layers_from_otb(items.subrange(0, n), catalog, ids),
    decreases items.len() - n,
{
    if n < items.len() {
        assert(items.subrange(0, n + 1).drop_last() =~= items.subrange(0, n));
        layers_from_otb_fails_on(items, n + 1, catalog, ids);
    } else {
        assert(items.subrange(0, n) =~= items);
    }
}

/// Finds the last of `creatures` that has `id`.
pub fn find_creature(creatures: &Vec<Creature>, id: u32) -> (res: Option<usize>)
    ensures
        match res {
            Some(idx) => last_creature_index(creatures_view(creatures@), id) == Some(idx as int),
            None => last_creature_index(creatures_view(creatures@), id) == None::<int>,
        },
        res matches Some(idx) ==> idx < creatures@.len(),
{
    let ghost all = creatures_view(creatures@);
    let mut i: usize = creatures.len();
    assert(all.subrange(0, i as int) =~= all);
    while i > 0
        invariant
            i <= creatures@.len(),
            all == creatures_view(creatures@),
            last_creature_index(all, id) == last_creature_index(all.subrange(0, i as int), id),
        decreases i,
    {
        proof {
            let prefix = all.subrange(0, i as int);
            assert(prefix.drop_last() =~= all.subrange(0, i - 1));
            assert(prefix.last() == creatures@[i - 1]@);
        }
        i -= 1;
        if creatures[i].id == id {
            return Some(i);
        }
    }
    None
}

impl Tile {
    /// Builds the tile that a tile of the map file stands for, with the
    /// catalogue `item_data` and the client id of each server id.
    pub fn form_otb_tile(
        otb_tile: &OtbTile,
        item_data: &HashMap<u16, ItemData>,
        server_id_to_client_id: &HashMap<u16, u16>,
    ) -> (res: Result<Tile, LoadError>)
        ensures
            match tile_from_otb(
                otb_tile@,
                item_data_view(item_data@),
                server_id_to_client_id@,
            ) {
                Ok(tile) => res matches Ok(t) && t@ == tile,
                Err(e) => res matches Err(err) && err == e,
            },
    {
        let floor: u16 = match server_id_to_client_id.get(&otb_tile.floor_item_server_id) {
            Some(id) => *id,
            None => {
                return Err(LoadError::UnknownServerId(otb_tile.floor_item_server_id));
            },
        };
        let ghost all = otb_tile@.items;
        let ghost catalog = item_data_view(item_data@);
        let ghost ids = server_id_to_client_id@;
        let mut tile = Tile {
            floor_item_client_id: floor,
            top_items: Vec::new(),
            bot_items: Vec::new(),
            creatures: Vec::new(),
        };
        let mut i: usize = 0;
        assert(all.subrange(0, 0) =~= Seq::<OtbMapItemView>::empty());
        assert(tile@.top_items =~= Seq::<ItemView>::empty());
        assert(tile@.bot_items =~= Seq::<ItemView>::empty());
        assert(tile@.creatures =~= Seq::<CreatureView>::empty());
        while i < otb_tile.items.len()
            invariant
                i <= otb_tile.items@.len(),
                all == otb_tile@.items,
                all.len() == otb_tile.items@.len(),
                catalog == item_data_view(item_data@),
                ids == server_id_to_client_id@,
                tile.floor_item_client_id == floor,
                ids.contains_key(otb_tile@.floor_item_server_id),
                ids[otb_tile@.floor_item_server_id] == floor,
                tile@.creatures == Seq::<CreatureView>::empty(),
                layers_from_otb(all.subrange(0, i as int), catalog, ids) == Ok::<
                    (Seq<ItemView>, Seq<ItemView>),
                    LoadError,
                >((tile@.top_items, tile@.bot_items)),
            decreases otb_tile.items.len() - i,
        {
            proof {
                assert(all.subrange(0, i + 1).drop_last() =~= all.subrange(0, i as int));
                assert(all.subrange(0, i + 1).last() == otb_tile.items@[i as int]@);
                layers_from_otb_fails_on(all, i + 1, catalog, ids);
            }
            let item = match Item::from_otb_map_item(&otb_tile.items[i], server_id_to_client_id) {
                Ok(v) => v,
                Err(e) => {
                    return Err(e);
                },
            };
            let on_top: bool = match item_data.get(&item.client_id) {
                Some(info) => info.top_order < 255,
                None => {
                    return Err(LoadError::UnknownItem(item.client_id));
                },
            };
            let ghost top = tile@.top_items;
            let ghost bottom = tile@.bot_items;
            if on_top {
                tile.top_items.push(item);
                assert(tile@.top_items =~= top.push(item@));
            } else {
                tile.bot_items.push(item);
                assert(tile@.bot_items =~= bottom.push(item@));
            }
            assert(tile@.creatures =~= Seq::<CreatureView>::empty());
            i += 1;
        }
        assert(all.subrange(0, i as int) =~= all);
        Ok(tile)
    }

    /// Finds where the item lies that `stack_pos` addresses.
    pub fn item_slot(&self, stack_pos: u8) -> (res: Option<ItemSlot>)
        ensures
            res == self@.slot_at(stack_pos as int),
            res matches Some(ItemSlot::Top(i)) ==> i < self.top_items@.len()
                && self@.item_at(stack_pos as int) == Some(self.top_items@[i as int]@),
            res matches Some(ItemSlot::Bottom(i)) ==> i < self.bot_items@.len()
                && self@.item_at(stack_pos as int) == Some(self.bot_items@[i as int]@),
            res is None ==> self@.item_at(stack_pos as int) == None::<ItemView>,
    {
        proof {
            stack_positions_address_layers(self@, stack_pos as int);
        }
        let sp: usize = stack_pos as usize;
        let n: usize = self.top_items.len();
        if sp == 0 {
            return None;
        }
        if sp <= n {
            return Some(ItemSlot::Top(sp - 1));
        }
        let rest: usize = sp - 1 - n;
        if rest < self.creatures.len() {
            return None;
        }
        let k: usize = rest - self.creatures.len();
        if k < self.bot_items.len() {
            Some(ItemSlot::Bottom(k))
        } else {
            None
        }
    }

    /// The stack position, as the wire carries it, of the last creature
    /// with `creature_id` on the tile.
    pub fn creature_stack_pos(&self, creature_id: u32) -> (res: Option<u8>)
        ensures
            res == match last_creature_index(self@.creatures, creature_id) {
                Some(idx) => Some(stack_pos_code(self@.creature_stack_pos(idx))),
                None => None,
            },
    {
        match find_creature(&self.creatures, creature_id) {
            Some(idx) => Some(creature_stack_pos_code(self.top_items.len(), idx)),
            None => None,
        }
    }

    /// The stack position, as the wire carries it, of the item in `slot`.
    pub fn item_stack_pos(&self, slot: ItemSlot) -> (res: Option<u8>)
        ensures
            res == match self@.item_stack_pos(slot) {
                Some(stack_pos) => Some(stack_pos_code(stack_pos)),
                None => None,
            },
    {
        match slot {
            ItemSlot::Top(i) => if i < self.top_items.len() {
                Some(low_byte_of_sum(i, 1))
            } else {
                None
            },
            ItemSlot::Bottom(i) => if i < self.bot_items.len() {
                let above: u8 = low_byte_of_sum(self.top_items.len(), self.creatures.len());
                let ghost n = self.top_items.len() + self.creatures.len();
                proof {
                    vstd::arithmetic::div_mod::lemma_add_mod_noop_right(i as int, n, 256);
                }
                Some(creature_stack_pos_code(above as usize, i))
            } else {
                None
            },
        }
    }

    /// Puts `creature` behind the creatures already on the tile.
    pub fn push_creature(&mut self, creature: Creature)
        ensures
            final(self)@ == old(self)@.with_creature(creature@),
    {
        self.creatures.push(creature);
        assert(self@.creatures =~= old(self)@.creatures.push(creature@));
    }

    /// Takes the creature at index `idx` of the creature list off the tile.
    /// Nothing changes where the list is shorter.
    pub fn remove_creature(&mut self, idx: usize) -> (creature: Option<Creature>)
        ensures
            match creature {
                Some(c) => idx < old(self)@.creatures.len() && c@ == old(self)@.creatures[idx as int]
                    && final(self)@ == old(self)@.without_creature(idx as int),
                None => idx >= old(self)@.creatures.len() && final(self)@ == old(self)@,
            },
    {
        if idx < self.creatures.len() {
            let creature = self.creatures.remove(idx);
            assert(self@.creatures =~= old(self)@.creatures.remove(idx as int));
            Some(creature)
        } else {
            None
        }
    }

    /// Makes every creature with `id` face `look_dir`.
    pub fn turn_creatures(&mut self, id: u32, look_dir: u8)
        ensures
            final(self)@ == old(self)@.with_turned(id, look_dir),
    {
        let ghost goal = old(self)@.with_turned(id, look_dir);
        let mut i: usize = 0;
        while i < self.creatures.len()
            invariant
                i <= self.creatures@.len(),
                self.creatures@.len() == old(self).creatures@.len(),
                self.top_items == old(self).top_items,
                self.bot_items == old(self).bot_items,
                self.floor_item_client_id == old(self).floor_item_client_id,
                goal == old(self)@.with_turned(id, look_dir),
                forall|j: int| 0 <= j < i ==> self.creatures@[j]@ == goal.creatures[j],
                forall|j: int|
                    i <= j < self.creatures@.len() ==> self.creatures@[j] == old(
                        self,
                    ).creatures@[j],
            decreases self.creatures.len() - i,
        {
            if self.creatures[i].id == id {
                self.creatures[i].look_dir = look_dir;
            }
            i += 1;
        }
        assert(self@.creatures =~= goal.creatures);
    }

    /// Puts `item` on top of the bottom items.
    pub fn push_bottom_item(&mut self, item: Item)
        ensures
            final(self)@ == old(self)@.with_bottom_item(item@),
    {
        self.bot_items.push(item);
        assert(self@.bot_items =~= old(self)@.bot_items.push(item@));
    }

    /// Takes the topmost of the bottom items off the tile, if there is one.
    pub fn pop_bottom_item(&mut self) -> (item: Option<Item>)
        ensures
            crate::creature::opt_item_view(item) == (if old(self)@.bot_items.len() > 0 {
                Some(old(self)@.bot_items.last())
            } else {
                None
            }),
            final(self)@ == (if old(self)@.bot_items.len() > 0 {
                old(self)@.without_last_bottom_item()
            } else {
                old(self)@
            }),
    {
        let item = self.bot_items.pop();
        assert(self@.bot_items =~= if old(self)@.bot_items.len() > 0 {
            old(self)@.bot_items.drop_last()
        } else {
            old(self)@.bot_items
        });
        item
    }

    /// Puts `item` in front of what the item at `stack_pos` holds. Tells
    /// whether `stack_pos` addresses an item; nothing changes where it does
    /// not.
    pub fn add_to_item_at(&mut self, stack_pos: u8, item: Item) -> (done: bool)
        ensures
            done == old(self)@.item_at(stack_pos as int) is Some,
            final(self)@ == old(self)@.with_added(stack_pos as int, item@),
    {
        match self.item_slot(stack_pos) {
            Some(ItemSlot::Top(i)) => {
                self.top_items[i].add_item(item);
                assert(self@.top_items =~= old(self)@.with_added(stack_pos as int, item@).top_items);
                true
            },
            Some(ItemSlot::Bottom(i)) => {
                self.bot_items[i].add_item(item);
                assert(self@.bot_items =~= old(self)@.with_added(stack_pos as int, item@).bot_items);
                true
            },
            None => false,
        }
    }

    /// Takes the item in `slot` out of the item at `stack_pos`. Tells
    /// whether there was such an item; nothing changes where there was not.
    pub fn remove_from_item_at(&mut self, stack_pos: u8, slot: u8) -> (done: bool)
        ensures
            done == old(self)@.holds_at(stack_pos as int, slot as int),
            final(self)@ == old(self)@.with_removed(stack_pos as int, slot as int),
    {
        match self.item_slot(stack_pos) {
            Some(ItemSlot::Top(i)) => {
                proof {
                    crate::item::item_view_items(self.top_items@[i as int]);
                }
                if (slot as usize) < self.top_items[i].items.len() {
                    let _ = self.top_items[i].remove_item(slot as usize);
                    assert(self@.top_items =~= old(self)@.with_removed(
                        stack_pos as int,
                        slot as int,
                    ).top_items);
                    true
                } else {
                    false
                }
            },
            Some(ItemSlot::Bottom(i)) => {
                proof {
                    crate::item::item_view_items(self.bot_items@[i as int]);
                }
                if (slot as usize) < self.bot_items[i].items.len() {
                    let _ = self.bot_items[i].remove_item(slot as usize);
                    assert(self@.bot_items =~= old(self)@.with_removed(
                        stack_pos as int,
                        slot as int,
                    ).bot_items);
                    true
                } else {
                    false
                }
            },
            None => false,
        }
    }

    /// A copy of the item that `stack_pos` addresses; nothing where it
    /// addresses a creature or lies outside the stack.
    pub fn get_item_at_stack_pos(&self, stack_pos: u8) -> (res: Option<Item>)
        ensures
            crate::creature::opt_item_view(res) == self@.item_at(stack_pos as int),
    {
        match self.item_slot(stack_pos) {
            Some(ItemSlot::Top(i)) => Some(self.top_items[i].clone()),
            Some(ItemSlot::Bottom(i)) => Some(self.bot_items[i].clone()),
            None => None,
        }
    }

    /// Changes the kind of the item that `stack_pos` addresses to
    /// `to_item_id`, keeping what the item holds. Nothing changes where
    /// `stack_pos` addresses no item.
    pub fn change_at_stack_pos(&mut self, stack_pos: u8, to_item_id: u16)
        ensures
            final(self)@ == old(self)@.with_item_id(stack_pos as int, to_item_id),
    {
        match self.item_slot(stack_pos) {
            Some(ItemSlot::Top(i)) => {
                self.top_items[i].client_id = to_item_id;
                assert(self@.top_items =~= old(self)@.with_item_id(
                    stack_pos as int,
                    to_item_id,
                ).top_items);
            },
            Some(ItemSlot::Bottom(i)) => {
                self.bot_items[i].client_id = to_item_id;
                assert(self@.bot_items =~= old(self)@.with_item_id(
                    stack_pos as int,
                    to_item_id,
                ).bot_items);
            },
            None => {},
        }
    }
}

/// Wire form of a list of creatures: each in full, in order.
pub open spec fn creatures_bytes(creatures: Seq<CreatureView>) -> Seq<u8>
    decreases creatures.len(),
{
    if creatures.len() == 0 {
        Seq::empty()
    } else {
        creatures_bytes(creatures.drop_last()) + creature_bytes(creatures.last())
    }
}

/// Wire form of a tile: the floor, then the stack in stack order, items by
/// their client id and creatures in full.
pub open spec fn tile_description(tile: TileView) -> Seq<u8> {
    u16_le(tile.floor_item_client_id) + item_ids_bytes(tile.top_items) + creatures_bytes(
        tile.creatures,
    ) + item_ids_bytes(tile.bot_items)
}

/// Encodes a tile for a client.
pub fn get_tile_description(tile: &Tile) -> (bytes: Vec<u8>)
    ensures
        bytes@ == tile_description(tile@),
{
    let mut bytes: Vec<u8> = Vec::new();
    push_u16_le(&mut bytes, tile.floor_item_client_id);
    push_item_ids(&mut bytes, &tile.top_items);
    let ghost head = bytes@;
    let mut i: usize = 0;
    while i < tile.creatures.len()
        invariant
            i <= tile.creatures.len(),
            bytes@ == head + creatures_bytes(
                creatures_view(tile.creatures@.subrange(0, i as int)),
            ),
        decreases tile.creatures.len() - i,
    {
        let one = tile.creatures[i].as_bytes();
        push_bytes(&mut bytes, one.as_slice());
        proof {
            let done = creatures_view(tile.creatures@.subrange(0, i as int));
            let next = creatures_view(tile.creatures@.subrange(0, i + 1));
            assert(next.drop_last() =~= done);
            assert(next.last() == tile.creatures@[i as int]@);
            assert(bytes@ =~= head + creatures_bytes(next));
        }
        i += 1;
    }
    assert(tile.creatures@.subrange(0, i as int) =~= tile.creatures@);
    push_item_ids(&mut bytes, &tile.bot_items);
    assert(bytes@ =~= tile_description(tile@));
    bytes
}

/// What the world `world` holds at the coordinates `(x, y, z)`.
pub open spec fn cell(world: Map<(u16, u16, u8), TileView>, x: int, y: int, z: int) -> Option<
    TileView,
> {
    let pos = (x as u16, y as u16, z as u8);
    if 0 <= x <= 0xFFFF && 0 <= y <= 0xFFFF && 0 <= z <= 0xFF && world.contains_key(pos) {
        Some(world[pos])
    } else {
        None
    }
}

/// The cells of the column `x` on floor `z`, from `y0` up to but without
/// `y1`.
pub open spec fn column_cells(
    world: Map<(u16, u16, u8), TileView>,
    x: int,
    z: int,
    y0: int,
    y1: int,
) -> Seq<Option<TileView>>
    decreases y1 - y0,
{
    if y1 <= y0 {
        Seq::empty()
    } else {
        column_cells(world, x, z, y0, y1 - 1).push(cell(world, x, y1 - 1, z))
    }
}

/// The cells of floor `z` column after column, from column `x0` up to but
/// without `x1`, each column from `y0` up to but without `y1`.
pub open spec fn floor_cells(
    world: Map<(u16, u16, u8), TileView>,
    z: int,
    x0: int,
    x1: int,
    y0: int,
    y1: int,
) -> Seq<Option<TileView>>
    decreases x1 - x0,
{
    if x1 <= x0 {
        Seq::empty()
    } else {
        floor_cells(world, z, x0, x1 - 1, y0, y1) + column_cells(world, x1 - 1, z, y0, y1)
    }
}

/// The cells of a box in the order in which a client expects them: floor
/// after floor from the highest floor number below `z1` down to `z0`, each
/// floor column after column with `x` ascending, each column with `y`
/// ascending. Upper bounds are not part of the box.
pub open spec fn box_cells(
    world: Map<(u16, u16, u8), TileView>,
    x0: int,
    x1: int,
    y0: int,
    y1: int,
    z0: int,
    z1: int,
) -> Seq<Option<TileView>>
    decreases z1 - z0,
{
    if z1 <= z0 {
        Seq::empty()
    } else {
        box_cells(world, x0, x1, y0, y1, z0 + 1, z1) + floor_cells(world, z0, x0, x1, y0, y1)
    }
}

/// The marker for `skip` cells without a tile; nothing while no count is
/// pending, which a negative `skip` stands for.
pub open spec fn skip_flush(skip: int) -> Seq<u8> {
    if skip >= 0 {
        seq![skip as u8, 0xFFu8]
    } else {
        Seq::empty()
    }
}

/// The bytes written and the count of cells still to be marked as skipped
/// after the cells `cells` have been described. The count starts at zero,
/// so that the cells without a tile in front of the first tile are marked
/// with their number. A cell without a tile adds one to the count. A count
/// that reaches 255 is written out at once, and nothing is pending then,
/// which -1 stands for. A tile writes out a count that is not negative,
/// sets it to zero and is then described itself.
pub open spec fn scan_cells(cells: Seq<Option<TileView>>) -> (Seq<u8>, int)
    decreases cells.len(),
{
    if cells.len() == 0 {
        (Seq::empty(), 0)
    } else {
        let (bytes, skip) = scan_cells(cells.drop_last());
        match cells.last() {
            Some(tile) => (bytes + skip_flush(skip) + tile_description(tile), 0),
            None => if skip + 1 == 0xFF {
                (bytes + seq![0xFFu8, 0xFFu8], -1)
            } else {
                (bytes, skip + 1)
            },
        }
    }
}

/// Wire form of a run of cells: what [`scan_cells`] writes, closed by the
/// marker for the count that is still pending.
pub open spec fn map_description(cells: Seq<Option<TileView>>) -> Seq<u8> {
    let (bytes, skip) = scan_cells(cells);
    bytes + skip_flush(skip)
}

proof fn scan_cells_push(cells: Seq<Option<TileView>>, next: Option<TileView>)
    ensures
        scan_cells(cells.push(next)) == ({
            let (bytes, skip) = scan_cells(cells);
            match next {
                Some(tile) => (bytes + skip_flush(skip) + tile_description(tile), 0int),
                None => if skip + 1 == 0xFF {
                    (bytes + seq![0xFFu8, 0xFFu8], -1int)
                } else {
                    (bytes, skip + 1)
                },
            }
        }),
{
    assert(cells.push(next).drop_last() =~= cells);
}

/// Describes the box of the world with the given bounds, all included, in
/// the order and with the skip markers that a client expects.
pub fn get_map_description(
    state: &State,
    from_x: u16,
    to_x: u16,
    from_y: u16,
    to_y: u16,
    from_z: u8,
    to_z: u8,
) -> (bytes: Vec<u8>)
    ensures
        bytes@ == map_description(
            box_cells(
                state@,
                from_x as int,
                to_x + 1,
                from_y as int,
                to_y + 1,
                from_z as int,
                to_z + 1,
            ),
        ),
{
    let ghost world = state@;
    let ghost x0 = from_x as int;
    let ghost x1 = to_x + 1;
    let ghost y0 = from_y as int;
    let ghost y1 = to_y + 1;
    let ghost z1 = to_z + 1;
    let mut bytes: Vec<u8> = Vec::new();
    let mut skip: i32 = 0;
    let mut z_end: u16 = to_z as u16 + 1;
    while z_end > from_z as u16
        invariant
            z_end <= z1,
            z_end >= from_z || z_end == z1,
            world == state@,
            x0 == from_x,
            x1 == to_x + 1,
            y0 == from_y,
            y1 == to_y + 1,
            z1 == to_z + 1,
            -1 <= skip < 0xFF,
            (bytes@, skip as int) == scan_cells(
                box_cells(world, x0, x1, y0, y1, z_end as int, z1),
            ),
        decreases z_end,
    {
        let z: u8 = (z_end - 1) as u8;
        let ghost above = box_cells(world, x0, x1, y0, y1, z_end as int, z1);
        let mut x: u32 = from_x as u32;
        assert(above + floor_cells(world, z as int, x0, x as int, y0, y1) =~= above);
        while x <= to_x as u32
            invariant
                from_x <= x <= 0x1_0000,
                x <= x1 || x == x0,
                world == state@,
                x0 == from_x,
                x1 == to_x + 1,
                y0 == from_y,
                y1 == to_y + 1,
                -1 <= skip < 0xFF,
                (bytes@, skip as int) == scan_cells(
                    above + floor_cells(world, z as int, x0, x as int, y0, y1),
                ),
            decreases 0x1_0000 - x,
        {
            let ghost left = above + floor_cells(world, z as int, x0, x as int, y0, y1);
            let mut y: u32 = from_y as u32;
            assert(left + column_cells(world, x as int, z as int, y0, y as int) =~= left);
            while y <= to_y as u32
                invariant
                    from_y <= y <= 0x1_0000,
                    y <= y1 || y == y0,
                    x <= to_x,
                    world == state@,
                    y0 == from_y,
                    y1 == to_y + 1,
                    -1 <= skip < 0xFF,
                    (bytes@, skip as int) == scan_cells(
                        left + column_cells(world, x as int, z as int, y0, y as int),
                    ),
                decreases 0x1_0000 - y,
            {
                let ghost before = left + column_cells(world, x as int, z as int, y0, y as int);
                proof {
                    scan_cells_push(before, cell(world, x as int, y as int, z as int));
                    assert(left + column_cells(world, x as int, z as int, y0, y + 1)
                        =~= before.push(cell(world, x as int, y as int, z as int)));
                }
                match state.get_tile((x as u16, y as u16, z)) {
                    Some(tile) => {
                        if skip >= 0 {
                            bytes.push(skip as u8);
                            bytes.push(0xFF);
                        }
                        skip = 0;
                        let description = get_tile_description(tile);
                        push_bytes(&mut bytes, description.as_slice());
                        assert(bytes@ =~= scan_cells(before).0 + skip_flush(scan_cells(before).1)
                            + tile_description(tile@));
                    },
                    None => {
                        skip += 1;
                        if skip == 0xFF {
                            bytes.push(0xFF);
                            bytes.push(0xFF);
                            skip = -1;
                            assert(bytes@ =~= scan_cells(before).0 + seq![0xFFu8, 0xFFu8]);
                        }
                    },
                }
                y += 1;
            }
            proof {
                assert(column_cells(world, x as int, z as int, y0, y as int) == column_cells(
                    world,
                    x as int,
                    z as int,
                    y0,
                    y1,
                ));
                assert(above + floor_cells(world, z as int, x0, x + 1, y0, y1) =~= left
                    + column_cells(world, x as int, z as int, y0, y1));
            }
            x += 1;
        }
        proof {
            assert(floor_cells(world, z as int, x0, x as int, y0, y1) == floor_cells(
                world,
                z as int,
                x0,
                x1,
                y0,
                y1,
            ));
        }
        z_end -= 1;
    }
    proof {
        assert(box_cells(world, x0, x1, y0, y1, z_end as int, z1) == box_cells(
            world,
            x0,
            x1,
            y0,
            y1,
            from_z as int,
            z1,
        ));
    }
    if skip >= 0 {
        bytes.push(skip as u8);
        bytes.push(0xFF);
    }
    assert(bytes@ =~= map_description(box_cells(world, x0, x1, y0, y1, from_z as int, z1)));
    bytes
}

/// Whether the whole viewport around `pos` lies inside the coordinate space.
pub open spec fn viewport_in_range(pos: (u16, u16, u8)) -> bool {
    &&& VIEWPORT_X <= pos.0 <= 0xFFFF - VIEWPORT_X - 1
    &&& VIEWPORT_Y <= pos.1 <= 0xFFFF - VIEWPORT_Y - 1
}

/// Tells whether the whole viewport around `pos` lies inside the coordinate
/// space.
pub fn has_viewport(pos: (u16, u16, u8)) -> (res: bool)
    ensures
        res == viewport_in_range(pos),
{
    VIEWPORT_X <= pos.0 && pos.0 <= 0xFFFF - VIEWPORT_X - 1 && VIEWPORT_Y <= pos.1 && pos.1
        <= 0xFFFF - VIEWPORT_Y - 1
}

/// The viewport around `pos` as `(from_x, to_x, from_y, to_y)`, all bounds
/// included.
pub fn full_map_bound(pos: (u16, u16, u8)) -> (res: (u16, u16, u16, u16))
    requires
        viewport_in_range(pos),
    ensures
        res == (
            (pos.0 - VIEWPORT_X) as u16,
            (pos.0 + VIEWPORT_X + 1) as u16,
            (pos.1 - VIEWPORT_Y) as u16,
            (pos.1 + VIEWPORT_Y + 1) as u16,
        ),
{
    (
        pos.0 - VIEWPORT_X,
        pos.0 + VIEWPORT_X + 1,
        pos.1 - VIEWPORT_Y,
        pos.1 + VIEWPORT_Y + 1,
    )
}

/// One of the four directions of the grid. North is towards smaller `y`,
/// west towards smaller `x`.
#[derive(Clone, Copy, Debug, PartialEq, Eq, Structural)]
pub enum Direction {
    North,
    South,
    East,
    West,
}

impl Direction {
    /// Whether the neighbour of `from` in this direction has coordinates.
    pub open spec fn can_move(self, from: (u16, u16, u8)) -> bool {
        match self {
            Direction::North => from.1 >= 1,
            Direction::South => from.1 < 0xFFFF,
            Direction::East => from.0 < 0xFFFF,
            Direction::West => from.0 >= 1,
        }
    }

    /// The neighbour of `from` in this direction.
    pub open spec fn neighbour(self, from: (u16, u16, u8)) -> (u16, u16, u8) {
        match self {
            Direction::North => (from.0, (from.1 - 1) as u16, from.2),
            Direction::South => (from.0, (from.1 + 1) as u16, from.2),
            Direction::East => ((from.0 + 1) as u16, from.1, from.2),
            Direction::West => ((from.0 - 1) as u16, from.1, from.2),
        }
    }

    /// The strip of the viewport around `pos` that comes into sight with a
    /// step in this direction, as `(from_x, to_x, from_y, to_y)`, all bounds
    /// included: a row for north and south, a column for east and west.
    pub open spec fn strip(self, pos: (u16, u16, u8)) -> (u16, u16, u16, u16) {
        match self {
            Direction::North => (
                (pos.0 - VIEWPORT_X) as u16,
                (pos.0 + VIEWPORT_X + 1) as u16,
                (pos.1 - VIEWPORT_Y) as u16,
                (pos.1 - VIEWPORT_Y) as u16,
            ),
            Direction::South => (
                (pos.0 - VIEWPORT_X) as u16,
                (pos.0 + VIEWPORT_X + 1) as u16,
                (pos.1 + VIEWPORT_Y + 1) as u16,
                (pos.1 + VIEWPORT_Y + 1) as u16,
            ),
            Direction::East => (
                (pos.0 + VIEWPORT_X + 1) as u16,
                (pos.0 + VIEWPORT_X + 1) as u16,
                (pos.1 - VIEWPORT_Y) as u16,
                (pos.1 + VIEWPORT_Y + 1) as u16,
            ),
            Direction::West => (
                (pos.0 - VIEWPORT_X) as u16,
                (pos.0 - VIEWPORT_X) as u16,
                (pos.1 - VIEWPORT_Y) as u16,
                (pos.1 + VIEWPORT_Y + 1) as u16,
            ),
        }
    }

    /// Whether the strip that a step in this direction to `pos` brings into
    /// sight lies inside the coordinate space: each of the bounds that the
    /// strip has, and no other, must be a coordinate.
    pub open spec fn strip_in_range(self, pos: (u16, u16, u8)) -> bool {
        let west = VIEWPORT_X <= pos.0;
        let east = pos.0 <= 0xFFFF - VIEWPORT_X - 1;
        let north = VIEWPORT_Y <= pos.1;
        let south = pos.1 <= 0xFFFF - VIEWPORT_Y - 1;
        match self {
            Direction::North => west && east && north,
            Direction::South => west && east && south,
            Direction::East => east && north && south,
            Direction::West => west && north && south,
        }
    }

    /// Tells whether the strip that a step in this direction to `pos`
    /// brings into sight lies inside the coordinate space.
    pub fn has_strip(&self, pos: (u16, u16, u8)) -> (res: bool)
        ensures
            res == self.strip_in_range(pos),
    {
        let west: bool = VIEWPORT_X <= pos.0;
        let east: bool = pos.0 <= 0xFFFF - VIEWPORT_X - 1;
        let north: bool = VIEWPORT_Y <= pos.1;
        let south: bool = pos.1 <= 0xFFFF - VIEWPORT_Y - 1;
        match self {
            Direction::North => west && east && north,
            Direction::South => west && east && south,
            Direction::East => east && north && south,
            Direction::West => west && north && south,
        }
    }

    /// The opcode of the map update that follows a step in this direction.
    pub open spec fn spec_packet_id(self) -> u8 {
        match self {
            Direction::North => 0x65,
            Direction::East => 0x66,
            Direction::South => 0x67,
            Direction::West => 0x68,
        }
    }

    /// The number that stands for this direction on the wire and in a
    /// creature's look direction.
    pub open spec fn spec_code(self) -> u8 {
        match self {
            Direction::North => 0,
            Direction::South => 1,
            Direction::East => 2,
            Direction::West => 3,
        }
    }

    /// Tells whether the neighbour of `from` in this direction has
    /// coordinates.
    pub fn has_neighbour(&self, from: (u16, u16, u8)) -> (res: bool)
        ensures
            res == self.can_move(from),
    {
        match self {
            Direction::North => from.1 >= 1,
            Direction::South => from.1 < 0xFFFF,
            Direction::East => from.0 < 0xFFFF,
            Direction::West => from.0 >= 1,
        }
    }

    /// The position one step from `from` in this direction.
    pub fn move_in_dir(&self, from: (u16, u16, u8)) -> (res: (u16, u16, u8))
        requires
            self.can_move(from),
        ensures
            res == self.neighbour(from),
    {
        match self {
            Direction::North => (from.0, from.1 - 1, from.2),
            Direction::South => (from.0, from.1 + 1, from.2),
            Direction::East => (from.0 + 1, from.1, from.2),
            Direction::West => (from.0 - 1, from.1, from.2),
        }
    }

    /// The bounds of the strip that a step in this direction to `pos`
    /// brings into sight.
    pub fn map_description_bounds(&self, pos: (u16, u16, u8)) -> (res: (u16, u16, u16, u16))
        requires
            self.strip_in_range(pos),
        ensures
            res == self.strip(pos),
    {
        match self {
            Direction::North => (
                pos.0 - VIEWPORT_X,
                pos.0 + VIEWPORT_X + 1,
                pos.1 - VIEWPORT_Y,
                pos.1 - VIEWPORT_Y,
            ),
            Direction::South => (
                pos.0 - VIEWPORT_X,
                pos.0 + VIEWPORT_X + 1,
                pos.1 + VIEWPORT_Y + 1,
                pos.1 + VIEWPORT_Y + 1,
            ),
            Direction::East => (
                pos.0 + VIEWPORT_X + 1,
                pos.0 + VIEWPORT_X + 1,
                pos.1 - VIEWPORT_Y,
                pos.1 + VIEWPORT_Y + 1,
            ),
            Direction::West => (
                pos.0 - VIEWPORT_X,
                pos.0 - VIEWPORT_X,
                pos.1 - VIEWPORT_Y,
                pos.1 + VIEWPORT_Y + 1,
            ),
        }
    }

    /// The opcode of the map update that follows a step in this direction.
    pub fn packet_id(&self) -> (res: u8)
        ensures
            res == self.spec_packet_id(),
    {
        match self {
            Direction::North => 0x65,
            Direction::East => 0x66,
            Direction::South => 0x67,
            Direction::West => 0x68,
        }
    }

    /// The number that stands for this direction on the wire.
    pub fn code(&self) -> (res: u8)
        ensures
            res == self.spec_code(),
    {
        match self {
            Direction::North => 0,
            Direction::South => 1,
            Direction::East => 2,
            Direction::West => 3,
        }
    }
}

} // verus!
