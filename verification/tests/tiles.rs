use car_dashboard::coords::{tile_count, TileCoordinate, TileWindow, KEEP_CACHED_TILES, TILE_SIZE};
use car_dashboard::url::tile_url;
use car_dashboard::world::{TilePlacement, World, DEFAULT_OSM_TILES_URL, INITIAL_ZOOM};
use car_dashboard::zoom::{zoom_in_level, zoom_out_level, MapGesture, MAX_BUTTON_ZOOM, MIN_BUTTON_ZOOM};

fn keys_of(coords: &[TileCoordinate]) -> Vec<(u32, i64, i64)> {
    coords.iter().map(|c| (c.z, c.x, c.y)).collect()
}

#[test]
fn new_world_uses_default_server() {
    let w: World<u32> = World::new(None);
    assert_eq!(w.osm_url(), "https://tile.openstreetmap.org");
    assert_eq!(w.osm_url(), DEFAULT_OSM_TILES_URL);
    assert_eq!(w.zoom_level(), INITIAL_ZOOM);
    assert_eq!(w.zoom_level(), 1);
    assert!(w.is_idle());
    assert!(w.tile_placements().is_empty());
}

#[test]
fn new_world_uses_configured_server() {
    let w: World<u32> = World::new(Some("http://localhost:8080/tiles".to_string()));
    assert_eq!(w.osm_url(), "http://localhost:8080/tiles");
    assert_eq!(
        w.tile_url(TileCoordinate::new(3, 2, 5)),
        "http://localhost:8080/tiles/3/2/5.png"
    );
}

#[test]
fn tile_urls_are_decimal() {
    assert_eq!(
        tile_url("https://tile.openstreetmap.org", TileCoordinate::new(1, 0, 1)),
        "https://tile.openstreetmap.org/1/0/1.png"
    );
    assert_eq!(tile_url("s", TileCoordinate::new(19, 274345, 180134)), "s/19/274345/180134.png");
    assert_eq!(tile_url("s", TileCoordinate::new(0, -1, -20)), "s/0/-1/-20.png");
    assert_eq!(
        tile_url("", TileCoordinate::new(u32::MAX, i64::MIN, i64::MAX)),
        "/4294967295/-9223372036854775808/9223372036854775807.png"
    );
    assert_eq!(tile_url("s", TileCoordinate::new(10, 10, 100)), "s/10/10/100.png");
}

#[test]
fn distinct_tiles_have_distinct_urls() {
    let a = tile_url("s", TileCoordinate::new(1, 11, 1));
    let b = tile_url("s", TileCoordinate::new(11, 1, 1));
    let c = tile_url("s", TileCoordinate::new(1, 1, 11));
    assert_ne!(a, b);
    assert_ne!(a, c);
    assert_ne!(b, c);
}

#[test]
fn zoom_buttons_clamp() {
    assert_eq!(zoom_in_level(1), 2);
    assert_eq!(zoom_in_level(18), 19);
    assert_eq!(zoom_in_level(19), 19);
    assert_eq!(zoom_in_level(25), MAX_BUTTON_ZOOM);
    assert_eq!(zoom_out_level(2), 1);
    assert_eq!(zoom_out_level(1), 1);
    assert_eq!(zoom_out_level(19), 18);
    assert_eq!(zoom_out_level(30), 29);
    assert_eq!(MIN_BUTTON_ZOOM, 1);
}

#[test]
fn zoom_buttons_undo_each_other() {
    for z in 1..19u32 {
        assert_eq!(zoom_out_level(zoom_in_level(z)), z);
    }
    for z in 2..=19u32 {
        assert_eq!(zoom_in_level(zoom_out_level(z)), z);
    }
}

#[test]
fn tile_count_is_a_power_of_two() {
    assert_eq!(tile_count(0), 1);
    assert_eq!(tile_count(1), 2);
    assert_eq!(tile_count(19), 524288);
    assert_eq!(tile_count(62), 1i64 << 62);
    assert_eq!(tile_count(63), i64::MIN);
}

#[test]
fn window_is_clipped_at_the_world_edge() {
    let w = TileWindow::covering(1, 0, 0, 5, 0);
    assert_eq!((w.min_x, w.min_y, w.max_x, w.max_y), (0, 0, 2, 1));
    let w = TileWindow::covering(5, -3, 4, 7, 9);
    assert_eq!((w.min_x, w.min_y, w.max_x, w.max_y), (-3, 4, 8, 10));
    assert!(w.keeps_key((5, -3 - KEEP_CACHED_TILES + 1, 4)));
    assert!(!w.keeps_key((5, -3 - KEEP_CACHED_TILES, 4)));
    assert!(!w.keeps_key((4, 0, 4)));
    assert!(w.keeps_key((5, 8 + KEEP_CACHED_TILES - 1, 10 + KEEP_CACHED_TILES - 1)));
    assert!(!w.keeps_key((5, 8 + KEEP_CACHED_TILES, 10)));
}

#[test]
fn reset_view_requests_every_tile_of_the_window() {
    let mut w: World<u32> = World::new(None);
    // zoom 1: two tiles per side; a view from (0,0) to the far edge.
    let update = w.reset_view(0, 0, 1, 1);
    let keys: Vec<_> = update.requests.iter().map(|r| (r.coord.z, r.coord.x, r.coord.y)).collect();
    assert_eq!(keys, vec![(1, 0, 0), (1, 0, 1), (1, 1, 0), (1, 1, 1)]);
    assert_eq!(update.requests[2].url, "https://tile.openstreetmap.org/1/1/0.png");
    assert!(update.cancelled.is_empty());
    assert!(w.is_loading(&TileCoordinate::new(1, 1, 1)));
    assert!(!w.is_loaded(&TileCoordinate::new(1, 1, 1)));
    assert!(!w.is_idle());
}

#[test]
fn reset_view_twice_requests_nothing_new() {
    let mut w: World<u32> = World::new(None);
    w.set_zoom_level(4);
    let first = w.reset_view(2, 3, 4, 4);
    assert_eq!(first.requests.len(), 3 * 2);
    let second = w.reset_view(2, 3, 4, 4);
    assert!(second.requests.is_empty());
    assert!(second.cancelled.is_empty());
}

#[test]
fn finished_tiles_are_loaded_and_not_refetched() {
    let mut w: World<&'static str> = World::new(None);
    w.reset_view(0, 0, 1, 1);
    assert!(w.tile_loaded(TileCoordinate::new(1, 0, 1), "a"));
    assert!(w.is_loaded(&TileCoordinate::new(1, 0, 1)));
    assert!(!w.is_loading(&TileCoordinate::new(1, 0, 1)));
    assert_eq!(w.loaded_image(&TileCoordinate::new(1, 0, 1)), Some(&"a"));
    // a tile that was never requested is ignored
    assert!(!w.tile_loaded(TileCoordinate::new(1, 5, 5), "b"));
    assert_eq!(w.loaded_image(&TileCoordinate::new(1, 5, 5)), None);
    // the loaded tile is not requested again
    let again = w.reset_view(0, 0, 1, 1);
    assert!(again.requests.is_empty());
    assert!(again.cancelled.is_empty());
    assert!(w.is_loaded(&TileCoordinate::new(1, 0, 1)));
}

#[test]
fn tiles_far_away_are_dropped() {
    let mut w: World<u8> = World::new(None);
    w.set_zoom_level(10);
    w.reset_view(0, 0, 0, 0);
    assert!(w.tile_loaded(TileCoordinate::new(10, 0, 0), 7));
    w.reset_view(5, 0, 5, 0);
    // the loaded tile at column 0 is within the margin of the window at column 5
    assert!(w.is_loaded(&TileCoordinate::new(10, 0, 0)));
    assert!(w.is_loading(&TileCoordinate::new(10, 5, 0)));
    let update = w.reset_view(100, 100, 100, 100);
    assert!(!w.is_loaded(&TileCoordinate::new(10, 0, 0)));
    // the fetch started by the second view is abandoned
    assert_eq!(keys_of(&update.cancelled), vec![(10, 5, 0)]);
    assert_eq!(keys_of(&update.requests.iter().map(|r| r.coord).collect::<Vec<_>>()), vec![(10, 100, 100)]);
}

#[test]
fn changing_zoom_drops_loaded_tiles() {
    let mut w: World<u8> = World::new(None);
    w.reset_view(0, 0, 1, 1);
    assert!(w.tile_loaded(TileCoordinate::new(1, 0, 0), 1));
    assert_eq!(w.set_zoom_level(1), None);
    assert!(w.is_loaded(&TileCoordinate::new(1, 0, 0)));
    assert_eq!(w.set_zoom_level(3), Some(2));
    assert_eq!(w.zoom_level(), 3);
    assert!(!w.is_loaded(&TileCoordinate::new(1, 0, 0)));
    // fetches at the old level stay until the next reset
    assert!(w.is_loading(&TileCoordinate::new(1, 1, 0)));
    let update = w.reset_view(0, 0, 0, 0);
    assert!(!w.is_loading(&TileCoordinate::new(1, 1, 0)));
    assert_eq!(keys_of(&update.cancelled), vec![(1, 0, 1), (1, 1, 0), (1, 1, 1)]);
    assert_eq!(w.set_zoom_level(1), Some(-2));
}

#[test]
fn placements_are_tile_size_apart_in_tile_order() {
    let mut w: World<u8> = World::new(None);
    w.set_zoom_level(3);
    w.reset_view(-1, 2, 1, 3);
    for (x, y) in [(1, 3), (-1, 2), (0, 3)] {
        assert!(w.tile_loaded(TileCoordinate::new(3, x, y), 0));
    }
    assert!(w.placements_fit());
    let p = w.tile_placements();
    assert_eq!(
        p,
        vec![
            TilePlacement { coord: TileCoordinate::new(3, -1, 2), x: -256, y: 512 },
            TilePlacement { coord: TileCoordinate::new(3, 0, 3), x: 0, y: 768 },
            TilePlacement { coord: TileCoordinate::new(3, 1, 3), x: TILE_SIZE, y: 3 * TILE_SIZE },
        ]
    );
}

#[test]
fn placements_that_overflow_are_refused() {
    let mut w: World<u8> = World::new(None);
    w.set_zoom_level(0);
    let far = i64::MIN / 2;
    w.reset_view(far, 0, far, 0);
    assert!(w.tile_loaded(TileCoordinate::new(0, far, 0), 0));
    assert!(!w.placements_fit());
}

#[test]
fn world_size_doubles_with_zoom() {
    let mut w: World<u8> = World::new(None);
    assert_eq!(w.world_pixel_size(), 512);
    w.set_zoom_level(0);
    assert_eq!(w.world_pixel_size(), 256);
    w.set_zoom_level(19);
    assert_eq!(w.world_pixel_size(), 256 * 524288);
    w.set_zoom_level(54);
    assert_eq!(w.world_pixel_size(), 1i64 << 62);
}

#[test]
fn view_at_the_far_edge_of_the_column_range() {
    let mut w: World<u8> = World::new(None);
    let update = w.reset_view(i64::MIN, 0, i64::MIN, 0);
    assert_eq!(
        update.requests.iter().map(|r| (r.coord.z, r.coord.x, r.coord.y)).collect::<Vec<_>>(),
        vec![(1, i64::MIN, 0)]
    );
    assert!(w.tile_loaded(TileCoordinate::new(1, i64::MIN, 0), 3));
    let again = w.reset_view(i64::MIN, 0, i64::MIN, 0);
    assert!(again.requests.is_empty());
    assert!(again.cancelled.is_empty());
    assert!(w.is_loaded(&TileCoordinate::new(1, i64::MIN, 0)));
    let window = TileWindow::covering(1, i64::MIN, i64::MIN, i64::MAX - 1, i64::MAX - 1);
    assert!(window.keeps_key((1, i64::MIN, i64::MIN)));
}

#[test]
fn gestures_keep_the_zoom_in_range() {
    let gestures = [
        MapGesture::ZoomOut,
        MapGesture::Flick,
        MapGesture::ZoomIn,
        MapGesture::ZoomIn,
        MapGesture::ZoomOut,
    ];
    let mut w: World<u8> = World::new(None);
    let mut levels = Vec::new();
    for _ in 0..5 {
        for g in gestures {
            let z = w.zoom_level();
            match g {
                MapGesture::Flick => {
                    w.reset_view(0, 0, 1, 1);
                }
                MapGesture::ZoomIn => {
                    w.set_zoom_level(zoom_in_level(z));
                }
                MapGesture::ZoomOut => {
                    w.set_zoom_level(zoom_out_level(z));
                }
            }
            assert!((1..=19).contains(&w.zoom_level()));
            levels.push(w.zoom_level());
        }
    }
    assert_eq!(&levels[0..5], &[1, 1, 2, 3, 2]);
    assert_eq!(&levels[20..25], &[1, 1, 2, 3, 2]);
}
