//! The map file: tile areas, their tiles and the items on them.

use crate::otb_io::{
    is_otb_block_end, is_otb_block_start, otb_skip, otb_skip_advances, otb_u16_le, otb_u8,
    read_u16_le_otb, read_u8_otb, skip_otb_block, LoadError, OTB_BLOCK_END, OTB_BLOCK_START,
};
use vstd::prelude::*;

verus! {

/// The block that holds the map.
pub const MAP_DATA_BLOCK_START: u8 = 0x02;

/// The block that holds the waypoints.
pub const WAYPOINTS_BLOCK_START: u8 = 0x0F;

/// The block that holds the towns.
pub const TOWNS_BLOCK_START: u8 = 0x0C;

/// The block that holds the tiles of one area.
pub const TILE_AREA_BLOCK_START: u8 = 0x04;

/// The block that holds one tile.
pub const TILE_BLOCK_START: u8 = 0x05;

/// The block that holds one item.
pub const ITEM_BLOCK_START: u8 = 0x06;

/// The byte in front of the floor of a tile.
pub const TILE_SPRITE_PROPERTY: u8 = 0x09;

/// Model of an [`OtbMapItem`].
pub ghost struct OtbMapItemView {
    pub server_id: u16,
    pub items: Seq<OtbMapItemView>,
}

/// An item as the map file describes it: its server id and the items inside
/// it.
#[derive(Debug, PartialEq, Eq)]
pub struct OtbMapItem {
    pub server_id: u16,
    pub items: Vec<OtbMapItem>,
}

/// Models of a list of items of the map file, element by element.
pub open spec fn otb_items_view(items: Seq<OtbMapItem>) -> Seq<OtbMapItemView>
    decreases items,
{
    Seq::new(
        items.len(),
        |i: int|
            if 0 <= i < items.len() {
                items[i]@
            } else {
                arbitrary()
            },
    )
}

impl View for OtbMapItem {
    type V = OtbMapItemView;

    open spec fn view(&self) -> OtbMapItemView
        decreases self,
    {
        OtbMapItemView { server_id: self.server_id, items: otb_items_view(self.items@) }
    }
}

/// The model of an item of the map file holds as many items as the item,
/// and each is the model of the item in the same place.
pub proof fn otb_item_view_items(item: OtbMapItem)
    ensures
        item@.server_id == item.server_id,
        item@.items.len() == item.items@.len(),
        forall|i: int| 0 <= i < item.items@.len() ==> item@.items[i] == #[trigger] item.items@[i]@,
{
    reveal_with_fuel(otb_items_view, 2);
    assert(item@.items == otb_items_view(item.items@));
    assert(otb_items_view(item.items@).len() == item.items@.len());
}

/// Model of an [`OtbTile`].
pub ghost struct OtbTileView {
    pub x: u8,
    pub y: u8,
    pub floor_item_server_id: u16,
    pub items: Seq<OtbMapItemView>,
}

/// A tile as the map file describes it: its place within its area, the
/// server id of its floor (zero where the file names none) and the items on
/// it.
#[derive(Debug, PartialEq, Eq)]
pub struct OtbTile {
    pub x: u8,
    pub y: u8,
    pub floor_item_server_id: u16,
    pub items: Vec<OtbMapItem>,
}

impl View for OtbTile {
    type V = OtbTileView;

    open spec fn view(&self) -> OtbTileView {
        OtbTileView {
            x: self.x,
            y: self.y,
            floor_item_server_id: self.floor_item_server_id,
            items: otb_items_view(self.items@),
        }
    }
}

/// Models of a list of tiles of the map file, element by element.
pub open spec fn otb_tiles_view(tiles: Seq<OtbTile>) -> Seq<OtbTileView> {
    Seq::new(tiles.len(), |i: int| tiles[i]@)
}

/// Model of an [`OtbTileArea`].
pub ghost struct OtbTileAreaView {
    pub x: u16,
    pub y: u16,
    pub z: u8,
    pub tiles: Seq<OtbTileView>,
    pub house_tiles: Seq<OtbTileView>,
}

/// A tile area as the map file describes it: its origin and its tiles.
#[derive(Debug, PartialEq, Eq)]
pub struct OtbTileArea {
    pub x: u16,
    pub y: u16,
    pub z: u8,
    pub tiles: Vec<OtbTile>,
    pub house_tiles: Vec<OtbTile>,
}

impl View for OtbTileArea {
    type V = OtbTileAreaView;

    open spec fn view(&self) -> OtbTileAreaView {
        OtbTileAreaView {
            x: self.x,
            y: self.y,
            z: self.z,
            tiles: otb_tiles_view(self.tiles@),
            house_tiles: otb_tiles_view(self.house_tiles@),
        }
    }
}

/// Models of a list of tile areas, element by element.
pub open spec fn otb_areas_view(areas: Seq<OtbTileArea>) -> Seq<OtbTileAreaView> {
    Seq::new(areas.len(), |i: int| areas[i]@)
}

/// Model of an [`OtbMapData`].
pub ghost struct OtbMapDataView {
    pub attrs: Seq<u8>,
    pub waypoints: Seq<u8>,
    pub towns: Seq<u8>,
    pub tile_areas: Seq<OtbTileAreaView>,
}

/// What the map file holds: its tile areas. Attributes, waypoints and towns
/// are not read.
#[derive(Debug, PartialEq, Eq)]
pub struct OtbMapData {
    pub attrs: Vec<u8>,
    pub waypoints: Vec<u8>,
    pub towns: Vec<u8>,
    pub tile_areas: Vec<OtbTileArea>,
}

impl View for OtbMapData {
    type V = OtbMapDataView;

    open spec fn view(&self) -> OtbMapDataView {
        OtbMapDataView {
            attrs: self.attrs@,
            waypoints: self.waypoints@,
            towns: self.towns@,
            tile_areas: otb_areas_view(self.tile_areas@),
        }
    }
}

/// The map with the tile areas `tile_areas` and nothing else.
pub open spec fn map_of(tile_areas: Seq<OtbTileAreaView>) -> OtbMapDataView {
    OtbMapDataView {
        attrs: Seq::empty(),
        waypoints: Seq::empty(),
        towns: Seq::empty(),
        tile_areas,
    }
}

impl OtbMapData {
    /// A map without any tile area.
    pub fn new() -> (res: OtbMapData)
        ensures
            res@ == map_of(Seq::empty()),
    {
        let res = OtbMapData {
            attrs: Vec::new(),
            waypoints: Vec::new(),
            towns: Vec::new(),
            tile_areas: Vec::new(),
        };
        assert(res@.tile_areas =~= Seq::<OtbTileAreaView>::empty());
        res
    }
}

/// The item that the item block whose content starts at `idx` describes,
/// with the index behind the block: the server id as a little-endian `u16`,
/// then the items inside it.
pub open spec fn map_item(bytes: Seq<u8>, idx: int) -> Option<(OtbMapItemView, int)>
    decreases bytes.len() - idx, 1int,
{
    match otb_u16_le(bytes, idx) {
        Some((server_id, i1)) => match map_items(bytes, i1) {
            Some((items, i2)) => Some((OtbMapItemView { server_id, items }, i2)),
            None => None,
        },
        None => None,
    }
}

/// The items that the rest of a block from `idx` on describes, with the
/// index behind the end marker of the block.
///
/// Content bytes are looked at one after the other until an end marker
/// that is not content. A start marker that is not content is followed by
/// the kind of a block: an item block is read as an item, a block of any
/// other kind is skipped up to its end marker. Any other byte, an escaped
/// marker among them, is passed over.
pub open spec fn map_items(bytes: Seq<u8>, idx: int) -> Option<(Seq<OtbMapItemView>, int)>
    decreases bytes.len() - idx, 0int,
{
    if idx < 0 || idx >= bytes.len() {
        None
    } else if bytes[idx] == OTB_BLOCK_END {
        Some((Seq::empty(), idx + 1))
    } else {
        match otb_u8(bytes, idx) {
            Some((_, i1)) => if bytes[idx] != OTB_BLOCK_START {
                map_items(bytes, i1)
            } else {
                match otb_u8(bytes, i1) {
                    Some((kind, i2)) => if kind == ITEM_BLOCK_START {
                        match map_item(bytes, i2) {
                            Some((child, i3)) => if idx < i3 <= bytes.len() {
                                match map_items(bytes, i3) {
                                    Some((rest, i4)) => Some((seq![child] + rest, i4)),
                                    None => None,
                                }
                            } else {
                                None
                            },
                            None => None,
                        }
                    } else {
                        match otb_skip(bytes, i2) {
                            Some(i3) => {
                                proof {
                                    otb_skip_advances(bytes, i2);
                                }
                                map_items(bytes, i3)
                            },
                            None => None,
                        }
                    },
                    None => None,
                }
            },
            None => None,
        }
    }
}

/// Reading an item or the rest of a block moves the index forward, at most
/// to the end.
pub proof fn map_items_advance(bytes: Seq<u8>, idx: int)
    ensures
        map_item(bytes, idx) matches Some((_, next)) ==> idx < next <= bytes.len(),
        map_items(bytes, idx) matches Some((_, next)) ==> idx < next <= bytes.len(),
    decreases bytes.len() - idx, 2int,
{
    match otb_u16_le(bytes, idx) {
        Some((_, i1)) => {
            map_items_rest_advance(bytes, i1);
        },
        None => {},
    }
    map_items_rest_advance(bytes, idx);
}

proof fn map_items_rest_advance(bytes: Seq<u8>, idx: int)
    ensures
        map_items(bytes, idx) matches Some((_, next)) ==> idx < next <= bytes.len(),
    decreases bytes.len() - idx, 0int,
{
    if 0 <= idx < bytes.len() && bytes[idx] != OTB_BLOCK_END {
        match otb_u8(bytes, idx) {
            Some((_, i1)) => if bytes[idx] != OTB_BLOCK_START {
                map_items_rest_advance(bytes, i1);
            } else {
                match otb_u8(bytes, i1) {
                    Some((kind, i2)) => if kind == ITEM_BLOCK_START {
                        match map_item(bytes, i2) {
                            Some((_, i3)) => if idx < i3 <= bytes.len() {
                                map_items_rest_advance(bytes, i3);
                            },
                            None => {},
                        }
                    } else {
                        match otb_skip(bytes, i2) {
                            Some(i3) => {
                                otb_skip_advances(bytes, i2);
                                map_items_rest_advance(bytes, i3);
                            },
                            None => {},
                        }
                    },
                    None => {},
                }
            },
            None => {},
        }
    }
}

/// The tile that the tile block whose content starts at `idx` describes,
/// with the index behind the block: its place within its area, then, behind
/// the byte that announces it, the server id of its floor, then its items.
pub open spec fn map_tile(bytes: Seq<u8>, idx: int) -> Option<(OtbTileView, int)> {
    match otb_u8(bytes, idx) {
        Some((x, i1)) => match otb_u8(bytes, i1) {
            Some((y, i2)) => if i2 >= bytes.len() {
                None
            } else if bytes[i2] == TILE_SPRITE_PROPERTY {
                match otb_u16_le(bytes, i2 + 1) {
                    Some((floor, i3)) => match map_items(bytes, i3) {
                        Some((items, i4)) => Some(
                            (OtbTileView { x, y, floor_item_server_id: floor, items }, i4),
                        ),
                        None => None,
                    },
                    None => None,
                }
            } else {
                match map_items(bytes, i2) {
                    Some((items, i3)) => Some(
                        (OtbTileView { x, y, floor_item_server_id: 0, items }, i3),
                    ),
                    None => None,
                }
            },
            None => None,
        },
        None => None,
    }
}

/// Reading a tile moves the index forward, at most to the end.
pub proof fn map_tile_advances(bytes: Seq<u8>, idx: int)
    ensures
        map_tile(bytes, idx) matches Some((_, next)) ==> idx < next <= bytes.len(),
{
    match otb_u8(bytes, idx) {
        Some((_, i1)) => match otb_u8(bytes, i1) {
            Some((_, i2)) => {
                map_items_advance(bytes, i2);
                match otb_u16_le(bytes, i2 + 1) {
                    Some((_, i3)) => {
                        map_items_advance(bytes, i3);
                    },
                    None => {},
                }
            },
            None => {},
        },
        None => {},
    }
}

/// The tiles that the rest of a tile area from `idx` on describes, with
/// the index behind the end marker of the area. A start marker that is not
/// content is followed by the kind of a block: a tile block is read as a
/// tile, a block of any other kind is skipped up to its end marker.
pub open spec fn map_tiles(bytes: Seq<u8>, idx: int) -> Option<(Seq<OtbTileView>, int)>
    decreases bytes.len() - idx,
{
    if idx < 0 || idx >= bytes.len() {
        None
    } else if bytes[idx] == OTB_BLOCK_END {
        Some((Seq::empty(), idx + 1))
    } else {
        match otb_u8(bytes, idx) {
            Some((_, i1)) => if bytes[idx] != OTB_BLOCK_START {
                map_tiles(bytes, i1)
            } else {
                match otb_u8(bytes, i1) {
                    Some((kind, i2)) => if kind == TILE_BLOCK_START {
                        match map_tile(bytes, i2) {
                            Some((tile, i3)) => {
                                proof {
                                    map_tile_advances(bytes, i2);
                                }
                                match map_tiles(bytes, i3) {
                                    Some((rest, i4)) => Some((seq![tile] + rest, i4)),
                                    None => None,
                                }
                            },
                            None => None,
                        }
                    } else {
                        match otb_skip(bytes, i2) {
                            Some(i3) => {
                                proof {
                                    otb_skip_advances(bytes, i2);
                                }
                                map_tiles(bytes, i3)
                            },
                            None => None,
                        }
                    },
                    None => None,
                }
            },
            None => None,
        }
    }
}

/// Reading the tiles of an area moves the index forward, at most to the
/// end.
pub proof fn map_tiles_advance(bytes: Seq<u8>, idx: int)
    ensures
        map_tiles(bytes, idx) matches Some((_, next)) ==> idx < next <= bytes.len(),
    decreases bytes.len() - idx,
{
    if 0 <= idx < bytes.len() && bytes[idx] != OTB_BLOCK_END {
        match otb_u8(bytes, idx) {
            Some((_, i1)) => if bytes[idx] != OTB_BLOCK_START {
                map_tiles_advance(bytes, i1);
            } else {
                match otb_u8(bytes, i1) {
                    Some((kind, i2)) => if kind == TILE_BLOCK_START {
                        match map_tile(bytes, i2) {
                            Some((_, i3)) => {
                                map_tile_advances(bytes, i2);
                                map_tiles_advance(bytes, i3);
                            },
                            None => {},
                        }
                    } else {
                        match otb_skip(bytes, i2) {
                            Some(i3) => {
                                otb_skip_advances(bytes, i2);
                                map_tiles_advance(bytes, i3);
                            },
                            None => {},
                        }
                    },
                    None => {},
                }
            },
            None => {},
        }
    }
}

/// The tile area that the block whose content starts at `idx` describes,
/// with the index behind the block: the origin as two little-endian `u16`
/// and a byte, then the tiles.
pub open spec fn map_area(bytes: Seq<u8>, idx: int) -> Option<(OtbTileAreaView, int)> {
    match otb_u16_le(bytes, idx) {
        Some((x, i1)) => match otb_u16_le(bytes, i1) {
            Some((y, i2)) => match otb_u8(bytes, i2) {
                Some((z, i3)) => match map_tiles(bytes, i3) {
                    Some((tiles, i4)) => Some(
                        (OtbTileAreaView { x, y, z, tiles, house_tiles: Seq::empty() }, i4),
                    ),
                    None => None,
                },
                None => None,
            },
            None => None,
        },
        None => None,
    }
}

/// Reading a tile area moves the index forward, at most to the end.
pub proof fn map_area_advances(bytes: Seq<u8>, idx: int)
    ensures
        map_area(bytes, idx) matches Some((_, next)) ==> idx < next <= bytes.len(),
{
    match otb_u16_le(bytes, idx) {
        Some((_, i1)) => match otb_u16_le(bytes, i1) {
            Some((_, i2)) => match otb_u8(bytes, i2) {
                Some((_, i3)) => {
                    map_tiles_advance(bytes, i3);
                },
                None => {},
            },
            None => {},
        },
        None => {},
    }
}

/// The index behind the kind byte of the first block from `idx` on that
/// holds the map: content bytes are looked at one after the other, and each
/// start marker that is not content is followed by the kind of a block.
pub open spec fn find_map_data(bytes: Seq<u8>, idx: int) -> Option<int>
    decreases bytes.len() - idx,
{
    match otb_u8(bytes, idx) {
        Some((_, i1)) => if bytes[idx] != OTB_BLOCK_START {
            find_map_data(bytes, i1)
        } else {
            match otb_u8(bytes, i1) {
                Some((kind, i2)) => if kind == MAP_DATA_BLOCK_START {
                    Some(i2)
                } else {
                    find_map_data(bytes, i2)
                },
                None => None,
            }
        },
        None => None,
    }
}

/// The tile areas that the rest of the map block from `idx` on describes.
/// A start marker that is not content is followed by the kind of a block:
/// a tile area is read, a block of any other kind is skipped up to its end
/// marker.
pub open spec fn map_areas(bytes: Seq<u8>, idx: int) -> Option<Seq<OtbTileAreaView>>
    decreases bytes.len() - idx,
{
    if idx < 0 || idx >= bytes.len() {
        None
    } else if bytes[idx] == OTB_BLOCK_END {
        Some(Seq::empty())
    } else {
        match otb_u8(bytes, idx) {
            Some((_, i1)) => if bytes[idx] != OTB_BLOCK_START {
                map_areas(bytes, i1)
            } else {
                match otb_u8(bytes, i1) {
                    Some((kind, i2)) => if kind == TILE_AREA_BLOCK_START {
                        match map_area(bytes, i2) {
                            Some((area, i3)) => {
                                proof {
                                    map_area_advances(bytes, i2);
                                }
                                match map_areas(bytes, i3) {
                                    Some(rest) => Some(seq![area] + rest),
                                    None => None,
                                }
                            },
                            None => None,
                        }
                    } else {
                        match otb_skip(bytes, i2) {
                            Some(i3) => {
                                proof {
                                    otb_skip_advances(bytes, i2);
                                }
                                map_areas(bytes, i3)
                            },
                            None => None,
                        }
                    },
                    None => None,
                }
            },
            None => None,
        }
    }
}

/// What the map file `bytes` holds: the tile areas of its first map block.
pub open spec fn map_file(bytes: Seq<u8>) -> Option<OtbMapDataView> {
    match find_map_data(bytes, 0) {
        Some(start) => match map_areas(bytes, start) {
            Some(areas) => Some(map_of(areas)),
            None => None,
        },
        None => None,
    }
}

/// Reads the rest of a block from `*idx` on as a list of items and moves
/// `*idx` behind the block.
fn parse_item_list(bytes: &[u8], idx: &mut usize) -> (res: Result<Vec<OtbMapItem>, LoadError>)
    ensures
        match map_items(bytes@, *old(idx) as int) {
            Some((items, next)) => res matches Ok(list) && otb_items_view(list@) == items
                && *final(idx) == next,
            None => res matches Err(e) && e == LoadError::UnexpectedEnd && *final(idx) == *old(idx),
        },
    decreases bytes@.len() - *old(idx), 0int,
{
    let start: usize = *idx;
    let mut items: Vec<OtbMapItem> = Vec::new();
    assert(otb_items_view(items@) =~= Seq::<OtbMapItemView>::empty());
    loop
        invariant_except_break
            match map_items(bytes@, *idx as int) {
                Some((rest, end)) => map_items(bytes@, start as int) == Some(
                    (otb_items_view(items@) + rest, end),
                ),
                None => map_items(bytes@, start as int) is None,
            },
        invariant
            start <= *idx,
            bytes.len() == bytes@.len(),
            start == *old(idx),
        ensures
            map_items(bytes@, start as int) == Some((otb_items_view(items@), *idx as int)),
        decreases bytes@.len() - *idx,
    {
        match is_otb_block_end(*idx, bytes) {
            Ok(true) => {
                *idx += 1;
                assert(otb_items_view(items@) + Seq::<OtbMapItemView>::empty() =~= otb_items_view(
                    items@,
                ));
                break ;
            },
            Ok(false) => {},
            Err(e) => {
                *idx = start;
                return Err(e);
            },
        }
        let opens: bool = match is_otb_block_start(*idx, bytes) {
            Ok(v) => v,
            Err(e) => {
                *idx = start;
                return Err(e);
            },
        };
        match read_u8_otb(idx, bytes) {
            Ok(_) => {},
            Err(e) => {
                *idx = start;
                return Err(e);
            },
        }
        if opens {
            let kind: u8 = match read_u8_otb(idx, bytes) {
                Ok(v) => v,
                Err(e) => {
                    *idx = start;
                    return Err(e);
                },
            };
            proof {
                map_items_advance(bytes@, *idx as int);
                otb_skip_advances(bytes@, *idx as int);
            }
            if kind == ITEM_BLOCK_START {
                let child = match parse_items(bytes, idx) {
                    Ok(v) => v,
                    Err(e) => {
                        *idx = start;
                        return Err(e);
                    },
                };
                let ghost before = otb_items_view(items@);
                items.push(child);
                proof {
                    assert(otb_items_view(items@) =~= before.push(child@));
                    match map_items(bytes@, *idx as int) {
                        Some((rest, end)) => {
                            assert(before + (seq![child@] + rest) =~= otb_items_view(items@)
                                + rest);
                        },
                        None => {},
                    }
                }
            } else {
                match skip_otb_block(idx, bytes) {
                    Ok(_) => {},
                    Err(e) => {
                        *idx = start;
                        return Err(e);
                    },
                }
            }
        }
    }
    Ok(items)
}

/// Reads the item block whose content starts at `*idx` and moves `*idx`
/// behind the block. Where the file ends before the block does, it fails
/// and leaves `*idx` as it was.
pub fn parse_items(bytes: &[u8], idx: &mut usize) -> (res: Result<OtbMapItem, LoadError>)
    ensures
        match map_item(bytes@, *old(idx) as int) {
            Some((item, next)) => res matches Ok(it) && it@ == item && *final(idx) == next,
            None => res matches Err(e) && e == LoadError::UnexpectedEnd && *final(idx) == *old(idx),
        },
    decreases bytes@.len() - *old(idx), 1int,
{
    let start: usize = *idx;
    let server_id: u16 = match read_u16_le_otb(idx, bytes) {
        Ok(v) => v,
        Err(e) => {
            return Err(e);
        },
    };
    let items = match parse_item_list(bytes, idx) {
        Ok(v) => v,
        Err(e) => {
            *idx = start;
            return Err(e);
        },
    };
    Ok(OtbMapItem { server_id, items })
}

/// Reads the tile block whose content starts at `*idx` and moves `*idx`
/// behind the block. Where the file ends before the block does, it fails
/// and leaves `*idx` as it was.
pub fn parse_tile(bytes: &[u8], idx: &mut usize) -> (res: Result<OtbTile, LoadError>)
    ensures
        match map_tile(bytes@, *old(idx) as int) {
            Some((tile, next)) => res matches Ok(t) && t@ == tile && *final(idx) == next,
            None => res matches Err(e) && e == LoadError::UnexpectedEnd && *final(idx) == *old(idx),
        },
{
    let start: usize = *idx;
    let x: u8 = match read_u8_otb(idx, bytes) {
        Ok(v) => v,
        Err(e) => {
            return Err(e);
        },
    };
    let y: u8 = match read_u8_otb(idx, bytes) {
        Ok(v) => v,
        Err(e) => {
            *idx = start;
            return Err(e);
        },
    };
    if *idx >= bytes.len() {
        *idx = start;
        return Err(LoadError::UnexpectedEnd);
    }
    let mut tile_sprite_id: u16 = 0;
    if bytes[*idx] == TILE_SPRITE_PROPERTY {
        *idx += 1;
        tile_sprite_id = match read_u16_le_otb(idx, bytes) {
            Ok(v) => v,
            Err(e) => {
                *idx = start;
                return Err(e);
            },
        };
    }
    let items = match parse_item_list(bytes, idx) {
        Ok(v) => v,
        Err(e) => {
            *idx = start;
            return Err(e);
        },
    };
    Ok(OtbTile { x, y, items, floor_item_server_id: tile_sprite_id })
}

/// Reads the tile area whose content starts at `*idx` and moves `*idx`
/// behind the block. Where the file ends before the block does, it fails
/// and leaves `*idx` as it was.
pub fn parse_tile_area(bytes: &Vec<u8>, idx: &mut usize) -> (res: Result<OtbTileArea, LoadError>)
    ensures
        match map_area(bytes@, *old(idx) as int) {
            Some((area, next)) => res matches Ok(a) && a@ == area && *final(idx) == next,
            None => res matches Err(e) && e == LoadError::UnexpectedEnd && *final(idx) == *old(idx),
        },
{
    let raw: &[u8] = bytes.as_slice();
    let start: usize = *idx;
    let x: u16 = match read_u16_le_otb(idx, raw) {
        Ok(v) => v,
        Err(e) => {
            return Err(e);
        },
    };
    let ghost after_x = *idx as int;
    let y: u16 = match read_u16_le_otb(idx, raw) {
        Ok(v) => v,
        Err(e) => {
            *idx = start;
            return Err(e);
        },
    };
    let ghost after_y = *idx as int;
    let z: u8 = match read_u8_otb(idx, raw) {
        Ok(v) => v,
        Err(e) => {
            *idx = start;
            return Err(e);
        },
    };
    let ghost first = *idx as int;
    let mut tiles: Vec<OtbTile> = Vec::new();
    assert(otb_tiles_view(tiles@) =~= Seq::<OtbTileView>::empty());
    loop
        invariant_except_break
            match map_tiles(raw@, *idx as int) {
                Some((rest, end)) => map_tiles(raw@, first) == Some(
                    (otb_tiles_view(tiles@) + rest, end),
                ),
                None => map_tiles(raw@, first) is None,
            },
        invariant
            *idx <= raw@.len(),
            raw.len() == raw@.len(),
            raw@ == bytes@,
            start == *old(idx),
            otb_u16_le(raw@, start as int) == Some((x, after_x)),
            otb_u16_le(raw@, after_x) == Some((y, after_y)),
            otb_u8(raw@, after_y) == Some((z, first)),
        ensures
            map_tiles(raw@, first) == Some((otb_tiles_view(tiles@), *idx as int)),
        decreases raw@.len() - *idx,
    {
        match is_otb_block_end(*idx, raw) {
            Ok(true) => {
                *idx += 1;
                assert(otb_tiles_view(tiles@) + Seq::<OtbTileView>::empty() =~= otb_tiles_view(
                    tiles@,
                ));
                break ;
            },
            Ok(false) => {},
            Err(e) => {
                *idx = start;
                return Err(e);
            },
        }
        let opens: bool = match is_otb_block_start(*idx, raw) {
            Ok(v) => v,
            Err(e) => {
                *idx = start;
                return Err(e);
            },
        };
        match read_u8_otb(idx, raw) {
            Ok(_) => {},
            Err(e) => {
                *idx = start;
                return Err(e);
            },
        }
        if opens {
            let kind: u8 = match read_u8_otb(idx, raw) {
                Ok(v) => v,
                Err(e) => {
                    *idx = start;
                    return Err(e);
                },
            };
            proof {
                map_tile_advances(raw@, *idx as int);
                otb_skip_advances(raw@, *idx as int);
            }
            if kind == TILE_BLOCK_START {
                let tile = match parse_tile(raw, idx) {
                    Ok(v) => v,
                    Err(e) => {
                        *idx = start;
                        return Err(e);
                    },
                };
                let ghost before = otb_tiles_view(tiles@);
                tiles.push(tile);
                proof {
                    assert(otb_tiles_view(tiles@) =~= before.push(tile@));
                    match map_tiles(raw@, *idx as int) {
                        Some((rest, end)) => {
                            assert(before + (seq![tile@] + rest) =~= otb_tiles_view(tiles@)
                                + rest);
                        },
                        None => {},
                    }
                }
            } else {
                match skip_otb_block(idx, raw) {
                    Ok(_) => {},
                    Err(e) => {
                        *idx = start;
                        return Err(e);
                    },
                }
            }
        }
    }
    let area = OtbTileArea { x, y, z, tiles, house_tiles: Vec::new() };
    assert(area@.house_tiles =~= Seq::<OtbTileView>::empty());
    Ok(area)
}

/// Reads the map file `bytes`. It fails where the file ends before the map
/// block or inside it.
pub fn read_file(bytes: &Vec<u8>) -> (res: Result<OtbMapData, LoadError>)
    ensures
        match map_file(bytes@) {
            Some(map) => res matches Ok(data) && data@ == map,
            None => res matches Err(e) && e == LoadError::UnexpectedEnd,
        },
{
    let raw: &[u8] = bytes.as_slice();
    let mut idx: usize = 0;
    loop
        invariant_except_break
            find_map_data(raw@, 0) == find_map_data(raw@, idx as int),
        invariant
            idx <= raw@.len(),
            raw@ == bytes@,
        ensures
            find_map_data(raw@, 0) == Some(idx as int),
        decreases raw@.len() - idx,
    {
        let opens: bool = match is_otb_block_start(idx, raw) {
            Ok(v) => v,
            Err(e) => {
                return Err(e);
            },
        };
        match read_u8_otb(&mut idx, raw) {
            Ok(_) => {},
            Err(e) => {
                return Err(e);
            },
        }
        if opens {
            let kind: u8 = match read_u8_otb(&mut idx, raw) {
                Ok(v) => v,
                Err(e) => {
                    return Err(e);
                },
            };
            if kind == MAP_DATA_BLOCK_START {
                break ;
            }
        }
    }
    let ghost first = idx as int;
    let mut data = OtbMapData::new();
    loop
        invariant_except_break
            match map_areas(raw@, idx as int) {
                Some(rest) => map_areas(raw@, first) == Some(otb_areas_view(data.tile_areas@) + rest),
                None => map_areas(raw@, first) is None,
            },
        invariant
            idx <= raw@.len(),
            raw@ == bytes@,
            find_map_data(raw@, 0) == Some(first),
            data@ == map_of(otb_areas_view(data.tile_areas@)),
        ensures
            map_areas(raw@, first) == Some(otb_areas_view(data.tile_areas@)),
        decreases raw@.len() - idx,
    {
        match is_otb_block_end(idx, raw) {
            Ok(true) => {
                assert(otb_areas_view(data.tile_areas@) + Seq::<OtbTileAreaView>::empty()
                    =~= otb_areas_view(data.tile_areas@));
                break ;
            },
            Ok(false) => {},
            Err(e) => {
                return Err(e);
            },
        }
        let opens: bool = match is_otb_block_start(idx, raw) {
            Ok(v) => v,
            Err(e) => {
                return Err(e);
            },
        };
        match read_u8_otb(&mut idx, raw) {
            Ok(_) => {},
            Err(e) => {
                return Err(e);
            },
        }
        if opens {
            let kind: u8 = match read_u8_otb(&mut idx, raw) {
                Ok(v) => v,
                Err(e) => {
                    return Err(e);
                },
            };
            proof {
                map_area_advances(raw@, idx as int);
                otb_skip_advances(raw@, idx as int);
            }
            if kind == TILE_AREA_BLOCK_START {
                let area = match parse_tile_area(bytes, &mut idx) {
                    Ok(v) => v,
                    Err(e) => {
                        return Err(e);
                    },
                };
                let ghost before = otb_areas_view(data.tile_areas@);
                data.tile_areas.push(area);
                proof {
                    assert(otb_areas_view(data.tile_areas@) =~= before.push(area@));
                    match map_areas(raw@, idx as int) {
                        Some(rest) => {
                            assert(before + (seq![area@] + rest) =~= otb_areas_view(
                                data.tile_areas@,
                            ) + rest);
                        },
                        None => {},
                    }
                }
            } else {
                match skip_otb_block(&mut idx, raw) {
                    Ok(_) => {},
                    Err(e) => {
                        return Err(e);
                    },
                }
            }
        }
    }
    Ok(data)
}

} // verus!
