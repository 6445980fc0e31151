use tile_downloader::rect::TileRect;
use tile_downloader::tile::{tiles_per_side, TileIndex, MAX_ZOOM};

fn grid(lat_deg: f64, lon_deg: f64, zoom: u32) -> (i64, i64) {
    let lat_rad = lat_deg.to_radians();
    let n = tiles_per_side(zoom) as f64;
    let gx = ((lon_deg + 180.0) / 360.0 * n).floor() as i64;
    let gy = ((1.0 - (lat_rad.tan() + 1.0 / lat_rad.cos()).ln() / std::f64::consts::PI) / 2.0 * n)
        .floor() as i64;
    (gx, gy)
}

fn tile_for(lat: f64, lon: f64, zoom: u32) -> TileIndex {
    let (gx, gy) = grid(lat, lon, zoom);
    TileIndex::from_grid(zoom, gx, gy)
}

#[test]
fn side_of_grid() {
    assert_eq!(tiles_per_side(0), 1);
    assert_eq!(tiles_per_side(1), 2);
    assert_eq!(tiles_per_side(10), 1024);
    assert_eq!(tiles_per_side(MAX_ZOOM), 1u64 << 31);
}

#[test]
fn origin_at_zoom_zero_is_root_tile() {
    let t = tile_for(0.0, 0.0, 0);
    assert_eq!(t, TileIndex { zoom: 0, x: 0, y: 0 });
    assert_eq!(TileIndex::from_grid(0, 0, 0), TileIndex { zoom: 0, x: 0, y: 0 });
}

#[test]
fn london_at_zoom_ten() {
    let t = tile_for(51.5074, -0.1278, 10);
    assert_eq!(t, TileIndex { zoom: 10, x: 511, y: 340 });
}

#[test]
fn indices_stay_on_grid() {
    for zoom in [0u32, 1, 5, 12, 31] {
        let n = tiles_per_side(zoom);
        for &(lat, lon) in &[(85.0, -180.0), (-85.0, 180.0), (0.0, 179.999), (-89.9, 0.0), (89.9, 90.0)] {
            let t = tile_for(lat, lon, zoom);
            assert!((t.x as u64) < n && (t.y as u64) < n);
        }
    }
}

#[test]
fn off_grid_coordinates_are_clamped() {
    assert_eq!(TileIndex::from_grid(3, -5, 8), TileIndex { zoom: 3, x: 0, y: 7 });
    assert_eq!(TileIndex::from_grid(3, 4, 3), TileIndex { zoom: 3, x: 4, y: 3 });
    assert_eq!(TileIndex::from_grid(0, 1, -1), TileIndex { zoom: 0, x: 0, y: 0 });
    assert_eq!(
        TileIndex::from_grid(31, i64::MAX, i64::MIN),
        TileIndex { zoom: 31, x: (1u32 << 31) - 1, y: 0 }
    );
}

#[test]
fn rectangle_orders_each_axis() {
    // The south-west corner has the smaller column but the larger row.
    let sw = tile_for(51.0, -1.0, 8);
    let ne = tile_for(52.0, 1.0, 8);
    assert!(sw.x < ne.x && sw.y > ne.y);
    let r = TileRect::from_corners(sw, ne);
    assert_eq!(r.min_x, sw.x);
    assert_eq!(r.max_x, ne.x);
    assert_eq!(r.min_y, ne.y);
    assert_eq!(r.max_y, sw.y);
    assert!(r.min_x <= r.max_x && r.min_y <= r.max_y);
}

#[test]
fn rectangle_count_and_order() {
    let a = TileIndex { zoom: 4, x: 5, y: 9 };
    let b = TileIndex { zoom: 4, x: 3, y: 10 };
    let r = TileRect::from_corners(a, b);
    assert_eq!(r.width(), 3);
    assert_eq!(r.height(), 2);
    assert_eq!(r.count(), 6);
    let order: Vec<(u32, u32)> = (0..6).map(|i| {
        let t = r.tile_at(i);
        (t.x, t.y)
    }).collect();
    assert_eq!(order, vec![(3, 9), (3, 10), (4, 9), (4, 10), (5, 9), (5, 10)]);
}

#[test]
fn single_tile_rectangle_is_not_empty() {
    let a = TileIndex { zoom: 5, x: 7, y: 7 };
    let r = TileRect::from_corners(a, a);
    assert_eq!(r.count(), 1);
    assert_eq!(r.tile_at(0), a);
}
