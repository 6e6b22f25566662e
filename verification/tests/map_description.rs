use tile_server::connection::State;
use tile_server::item::Item;
use tile_server::map::{
    full_map_bound, get_map_description, get_tile_description, has_viewport, Direction, Tile,
    VIEWPORT_X, VIEWPORT_Y,
};
use tile_server::payload::{enter_game_payload, map_direction_payload};

fn floor(id: u16) -> Tile {
    Tile { floor_item_client_id: id, top_items: vec![], bot_items: vec![], creatures: vec![] }
}

fn world(tiles: &[((u16, u16, u8), u16)]) -> State {
    let mut state = State::new();
    for (pos, id) in tiles {
        state.set_tile(*pos, floor(*id));
    }
    state
}

#[test]
fn a_row_of_eight_with_two_tiles_has_three_skip_markers() {
    // Columns 0 to 7 of one row; tiles at columns 2 and 5 only.
    let state = world(&[((2, 10, 7), 0x0101), ((5, 10, 7), 0x0202)]);
    let bytes = get_map_description(&state, 0, 7, 10, 10, 7, 7);
    // The two cells in front of the first tile, the two cells between the
    // tiles and the two cells behind the last tile are each marked with 2,
    // the last marker closing the description.
    assert_eq!(bytes, vec![2, 0xFF, 0x01, 0x01, 2, 0xFF, 0x02, 0x02, 2, 0xFF]);
    let markers = bytes.iter().filter(|b| **b == 0xFF).count();
    assert_eq!(markers, 3);
}

#[test]
fn a_row_of_eight_away_from_the_origin() {
    let state = world(&[((12, 10, 7), 0x0066), ((15, 10, 7), 0x0067)]);
    let bytes = get_map_description(&state, 10, 17, 10, 10, 7, 7);
    assert_eq!(bytes, vec![0x02, 0xFF, 0x66, 0x00, 0x02, 0xFF, 0x67, 0x00, 0x02, 0xFF]);
}

#[test]
fn the_same_row_as_a_column() {
    let state = world(&[((10, 2, 7), 0x0101), ((10, 5, 7), 0x0202)]);
    let bytes = get_map_description(&state, 10, 10, 0, 7, 7, 7);
    assert_eq!(bytes, vec![2, 0xFF, 0x01, 0x01, 2, 0xFF, 0x02, 0x02, 2, 0xFF]);
}

#[test]
fn a_tile_in_the_first_cell_follows_a_marker_of_zero() {
    // Columns 0 to 8; tiles at columns 0, 3 and 6.
    let state = world(&[((0, 10, 7), 1), ((3, 10, 7), 2), ((6, 10, 7), 3)]);
    let bytes = get_map_description(&state, 0, 8, 10, 10, 7, 7);
    assert_eq!(bytes, vec![0, 0xFF, 1, 0, 2, 0xFF, 2, 0, 2, 0xFF, 3, 0, 2, 0xFF]);
}

#[test]
fn neighbouring_tiles_are_separated_by_a_marker_of_zero() {
    let state = world(&[((0, 0, 0), 1), ((0, 1, 0), 2)]);
    let bytes = get_map_description(&state, 0, 0, 0, 1, 0, 0);
    assert_eq!(bytes, vec![0, 0xFF, 1, 0, 0, 0xFF, 2, 0, 0, 0xFF]);
}

#[test]
fn an_empty_world_is_described_by_its_skip_count() {
    let state = State::new();
    // Four cells.
    assert_eq!(get_map_description(&state, 0, 1, 0, 1, 0, 0), vec![4, 0xFF]);
    // One cell.
    assert_eq!(get_map_description(&state, 5, 5, 5, 5, 5, 5), vec![1, 0xFF]);
}

#[test]
fn a_box_without_cells_is_described_by_a_count_of_zero() {
    let state = world(&[((0, 0, 0), 1)]);
    assert_eq!(get_map_description(&state, 1, 0, 0, 0, 0, 0), vec![0, 0xFF]);
    assert_eq!(get_map_description(&state, 0, 0, 1, 0, 0, 0), vec![0, 0xFF]);
    assert_eq!(get_map_description(&state, 0, 0, 0, 0, 1, 0), vec![0, 0xFF]);
}

#[test]
fn a_count_that_reaches_255_is_written_out_at_once() {
    let state = State::new();
    // 255 cells: the count reaches 255 with the last cell and nothing is
    // pending at the end.
    assert_eq!(get_map_description(&state, 0, 0, 0, 254, 0, 0), vec![0xFF, 0xFF]);
    // 254 cells: the count stops at 254.
    assert_eq!(get_map_description(&state, 0, 0, 0, 253, 0, 0), vec![254, 0xFF]);
    // 256 cells: with the last cell a new count begins.
    assert_eq!(get_map_description(&state, 0, 0, 0, 255, 0, 0), vec![0xFF, 0xFF, 0, 0xFF]);
    // 300 cells: 255 are written out; the count for the other 45 begins
    // with nothing pending and ends at 44.
    assert_eq!(get_map_description(&state, 0, 0, 0, 299, 0, 0), vec![0xFF, 0xFF, 44, 0xFF]);
    // 512 cells: 255, then 256, then one.
    assert_eq!(
        get_map_description(&state, 0, 1, 0, 255, 0, 0),
        vec![0xFF, 0xFF, 0xFF, 0xFF, 0, 0xFF]
    );
}

#[test]
fn a_tile_behind_a_full_count_is_not_marked_again() {
    // 255 cells without a tile, the tile, and one more cell behind it.
    let state = world(&[((0, 255, 0), 7)]);
    assert_eq!(
        get_map_description(&state, 0, 0, 0, 256, 0, 0),
        vec![0xFF, 0xFF, 7, 0, 1, 0xFF]
    );
    // The tile as the last cell: a count of zero closes the description.
    assert_eq!(
        get_map_description(&state, 0, 0, 0, 255, 0, 0),
        vec![0xFF, 0xFF, 7, 0, 0, 0xFF]
    );
    // One more cell in front of the tile begins a new count.
    let state = world(&[((0, 256, 0), 7)]);
    assert_eq!(
        get_map_description(&state, 0, 0, 0, 256, 0, 0),
        vec![0xFF, 0xFF, 0, 0xFF, 7, 0, 0, 0xFF]
    );
}

#[test]
fn floors_go_down_and_columns_and_rows_go_up() {
    let state = world(&[
        ((0, 0, 0), 1),
        ((0, 1, 0), 2),
        ((1, 0, 0), 3),
        ((1, 1, 0), 4),
        ((0, 0, 1), 5),
        ((0, 1, 1), 6),
        ((1, 0, 1), 7),
        ((1, 1, 1), 8),
    ]);
    let bytes = get_map_description(&state, 0, 1, 0, 1, 0, 1);
    assert_eq!(&bytes[0..2], &[0, 0xFF]);
    let floors: Vec<u8> = bytes[2..].chunks(4).map(|c| c[0]).collect();
    assert_eq!(floors, vec![5, 6, 7, 8, 1, 2, 3, 4]);
    assert_eq!(bytes.len(), 2 + 8 * 2 + 8 * 2);
    assert_eq!(&bytes[4..6], &[0, 0xFF]);
    assert_eq!(&bytes[32..34], &[0, 0xFF]);
}

#[test]
fn bounds_at_the_edge_of_the_coordinate_space() {
    let state = world(&[((0xFFFF, 0xFFFF, 0xFF), 9)]);
    assert_eq!(
        get_map_description(&state, 0xFFFE, 0xFFFF, 0xFFFF, 0xFFFF, 0xFF, 0xFF),
        vec![1, 0xFF, 9, 0, 0, 0xFF]
    );
}

#[test]
fn a_tile_is_described_with_its_stack() {
    let mut state = State::new();
    let tile = Tile {
        floor_item_client_id: 1,
        top_items: vec![Item { client_id: 2, items: vec![] }],
        bot_items: vec![Item { client_id: 3, items: vec![Item { client_id: 4, items: vec![] }] }],
        creatures: vec![],
    };
    let description = get_tile_description(&tile);
    assert_eq!(description, vec![1, 0, 2, 0, 3, 0]);
    state.set_tile((0, 0, 0), tile);
    assert_eq!(
        get_map_description(&state, 0, 0, 0, 0, 0, 0),
        vec![0, 0xFF, 1, 0, 2, 0, 3, 0, 0, 0xFF]
    );
}

#[test]
fn the_viewport_is_eighteen_by_fourteen() {
    assert_eq!(VIEWPORT_X, 8);
    assert_eq!(VIEWPORT_Y, 6);
    assert_eq!(full_map_bound((1024, 1024, 7)), (1016, 1033, 1018, 1031));
    assert_eq!(full_map_bound((8, 6, 0)), (0, 17, 0, 13));
    assert_eq!(full_map_bound((65526, 65528, 0)), (65518, 65535, 65522, 65535));
}

#[test]
fn the_viewport_must_lie_inside_the_coordinate_space() {
    assert!(has_viewport((1024, 1024, 7)));
    assert!(has_viewport((8, 6, 0)));
    assert!(!has_viewport((7, 6, 0)));
    assert!(!has_viewport((8, 5, 0)));
    assert!(has_viewport((65526, 65528, 0)));
    assert!(!has_viewport((65527, 65528, 0)));
    assert!(!has_viewport((65526, 65529, 0)));
}

#[test]
fn a_step_brings_a_strip_into_sight() {
    let pos = (1024, 1023, 7);
    assert_eq!(Direction::North.map_description_bounds(pos), (1016, 1033, 1017, 1017));
    assert_eq!(Direction::South.map_description_bounds(pos), (1016, 1033, 1030, 1030));
    assert_eq!(Direction::East.map_description_bounds(pos), (1033, 1033, 1017, 1030));
    assert_eq!(Direction::West.map_description_bounds(pos), (1016, 1016, 1017, 1030));
}

#[test]
fn a_strip_needs_only_its_own_bounds() {
    // At the southern edge a step north still brings a row into sight.
    assert!(Direction::North.has_strip((1024, 0xFFFF, 7)));
    assert_eq!(
        Direction::North.map_description_bounds((1024, 0xFFFF, 7)),
        (1016, 1033, 0xFFF9, 0xFFF9)
    );
    assert!(!Direction::South.has_strip((1024, 0xFFFF, 7)));
    assert!(!Direction::East.has_strip((1024, 0xFFFF, 7)));
    assert!(!Direction::West.has_strip((1024, 0xFFFF, 7)));
    // At the northern edge a step south does.
    assert!(Direction::South.has_strip((1024, 0, 7)));
    assert_eq!(Direction::South.map_description_bounds((1024, 0, 7)), (1016, 1033, 7, 7));
    assert!(!Direction::North.has_strip((1024, 0, 7)));
    // At the western edge a step east, at the eastern edge a step west.
    assert!(Direction::East.has_strip((0, 1024, 7)));
    assert_eq!(Direction::East.map_description_bounds((0, 1024, 7)), (9, 9, 1018, 1031));
    assert!(!Direction::West.has_strip((0, 1024, 7)));
    assert!(!Direction::North.has_strip((0, 1024, 7)));
    assert!(Direction::West.has_strip((0xFFFF, 1024, 7)));
    assert_eq!(
        Direction::West.map_description_bounds((0xFFFF, 1024, 7)),
        (0xFFF7, 0xFFF7, 1018, 1031)
    );
    assert!(!Direction::East.has_strip((0xFFFF, 1024, 7)));
    // Inside, every direction has its strip.
    for direction in [Direction::North, Direction::South, Direction::East, Direction::West] {
        assert!(direction.has_strip((1024, 1024, 7)));
        assert!(!direction.has_strip((3, 3, 7)));
    }
    let state = State::new();
    assert_eq!(
        map_direction_payload(&state, Direction::North, (1024, 0xFFFF, 0)),
        vec![0x65, 18, 0xFF]
    );
}

#[test]
fn directions_have_their_codes() {
    assert_eq!(Direction::North.packet_id(), 0x65);
    assert_eq!(Direction::East.packet_id(), 0x66);
    assert_eq!(Direction::South.packet_id(), 0x67);
    assert_eq!(Direction::West.packet_id(), 0x68);
    assert_eq!(Direction::North.code(), 0);
    assert_eq!(Direction::South.code(), 1);
    assert_eq!(Direction::East.code(), 2);
    assert_eq!(Direction::West.code(), 3);
}

#[test]
fn a_step_leads_to_the_neighbour() {
    let from = (1024, 1024, 7);
    assert_eq!(Direction::North.move_in_dir(from), (1024, 1023, 7));
    assert_eq!(Direction::South.move_in_dir(from), (1024, 1025, 7));
    assert_eq!(Direction::East.move_in_dir(from), (1025, 1024, 7));
    assert_eq!(Direction::West.move_in_dir(from), (1023, 1024, 7));
}

#[test]
fn there_is_no_neighbour_beyond_the_edge() {
    assert!(!Direction::North.has_neighbour((5, 0, 7)));
    assert!(Direction::North.has_neighbour((5, 1, 7)));
    assert!(!Direction::West.has_neighbour((0, 5, 7)));
    assert!(Direction::West.has_neighbour((1, 5, 7)));
    assert!(!Direction::South.has_neighbour((5, 0xFFFF, 7)));
    assert!(Direction::South.has_neighbour((5, 0xFFFE, 7)));
    assert!(!Direction::East.has_neighbour((0xFFFF, 5, 7)));
    assert!(Direction::East.has_neighbour((0xFFFE, 5, 7)));
}

#[test]
fn the_map_strip_message_covers_the_floors_down_to_zero() {
    // One tile in the row that comes into sight with a step north to
    // (1024, 1023, 7): the row y = 1017, columns 1016 to 1033.
    let state = world(&[((1016, 1017, 7), 0x0A0B)]);
    let bytes = map_direction_payload(&state, Direction::North, (1024, 1023, 7));
    // Floor 7 comes first: the tile, then 17 cells of floor 7 and 18 cells
    // on each of the floors 6 down to 0: 17 + 7 * 18 = 143 cells.
    assert_eq!(bytes, vec![0x65, 0, 0xFF, 0x0B, 0x0A, 143, 0xFF]);
    let east = map_direction_payload(&state, Direction::East, (1024, 1023, 0));
    // A column of 14 cells on floor 0 alone.
    assert_eq!(east, vec![0x66, 14, 0xFF]);
}

#[test]
fn the_enter_game_message_wraps_the_full_viewport() {
    let state = world(&[((1024, 1024, 7), 0x0102)]);
    let bytes = enter_game_payload(&state, &(1024, 1024, 7), 0x0A0B0C0D);
    let head = vec![0x0A, 0x0D, 0x0C, 0x0B, 0x0A, 50, 0, 0, 0x64, 0x00, 0x04, 0x00, 0x04, 7];
    assert_eq!(&bytes[..head.len()], &head[..]);
    assert_eq!(&bytes[bytes.len() - 3..], &[0x82, 0x6F, 0xD7]);
    let map = get_map_description(&state, 1016, 1033, 1018, 1031, 0, 7);
    assert_eq!(&bytes[head.len()..bytes.len() - 3], &map[..]);
    // Floor 7 comes first. In front of the tile lie 8 columns of 14 cells
    // and 6 cells of its own column: 118 cells.
    assert_eq!(&map[0..4], &[118, 0xFF, 0x02, 0x01]);
}
