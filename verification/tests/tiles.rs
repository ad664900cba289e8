use renderer::tile::{
    max_zoom_tile_of_xy, max_zoom_tile_range_of_pair, tile_to_max_zoom_tile_range, Tile, TileRange,
};

#[test]
fn whole_world_tile_covers_every_max_zoom_tile() {
    let range = tile_to_max_zoom_tile_range(&Tile { zoom: 0, x: 0, y: 0 });
    assert_eq!(
        range,
        TileRange { min_x: 0, max_x: 262143, min_y: 0, max_y: 262143 }
    );
}

#[test]
fn mid_zoom_tile_blows_up_to_a_block() {
    let range = tile_to_max_zoom_tile_range(&Tile { zoom: 15, x: 19805, y: 10244 });
    assert_eq!(
        range,
        TileRange { min_x: 158440, max_x: 158447, min_y: 81952, max_y: 81959 }
    );
}

#[test]
fn max_zoom_tile_covers_only_itself() {
    let range = tile_to_max_zoom_tile_range(&Tile { zoom: 18, x: 239662, y: 158582 });
    assert_eq!(
        range,
        TileRange { min_x: 239662, max_x: 239662, min_y: 158582, max_y: 158582 }
    );
}

#[test]
fn pixel_position_maps_to_containing_tile() {
    let tile = max_zoom_tile_of_xy(40533333, 20981065);
    assert_eq!(tile, Tile { zoom: 18, x: 158333, y: 81957 });
}

#[test]
fn tile_pair_bounding_box_is_order_independent() {
    let t1 = Tile { zoom: 18, x: 158425, y: 81973 };
    let t2 = Tile { zoom: 18, x: 158429, y: 81969 };
    let expected = TileRange { min_x: 158425, max_x: 158429, min_y: 81969, max_y: 81973 };
    assert_eq!(max_zoom_tile_range_of_pair(&t1, &t2), expected);
    assert_eq!(max_zoom_tile_range_of_pair(&t2, &t1), expected);
}
