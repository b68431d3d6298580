use smallpt::api::Rectangle;
use smallpt::tiles::{order_tiles, ordered_tiles, tile_grid_of, TILE_SIZE};

fn key(t: &Rectangle, w: usize, h: usize) -> (i64, usize, usize) {
    let dx = (t.left + t.width / 2) as i64 - (w / 2) as i64;
    let dy = (t.top + t.height / 2) as i64 - (h / 2) as i64;
    (dx * dx + dy * dy, t.top, t.left)
}

#[test]
fn rectangle_new_keeps_fields() {
    let r = Rectangle::new(1, 2, 3, 4);
    assert_eq!((r.left, r.top, r.width, r.height), (1, 2, 3, 4));
}

#[test]
fn grid_is_in_reading_order_and_clipped() {
    let g = tile_grid_of(70, 40, TILE_SIZE);
    let expected = vec![
        Rectangle::new(0, 0, 32, 32),
        Rectangle::new(32, 0, 32, 32),
        Rectangle::new(64, 0, 6, 32),
        Rectangle::new(0, 32, 32, 8),
        Rectangle::new(32, 32, 32, 8),
        Rectangle::new(64, 32, 6, 8),
    ];
    assert_eq!(g, expected);
}

#[test]
fn empty_image_has_no_tiles() {
    assert!(ordered_tiles(0, 768, TILE_SIZE).is_empty());
    assert!(ordered_tiles(1024, 0, TILE_SIZE).is_empty());
}

#[test]
fn equal_distances_break_ties_by_row_then_column() {
    let t = ordered_tiles(64, 64, TILE_SIZE);
    let expected = vec![
        Rectangle::new(0, 0, 32, 32),
        Rectangle::new(32, 0, 32, 32),
        Rectangle::new(0, 32, 32, 32),
        Rectangle::new(32, 32, 32, 32),
    ];
    assert_eq!(t, expected);
}

#[test]
fn full_frame_is_ordered_centre_out() {
    let (w, h) = (1024, 768);
    let t = ordered_tiles(w, h, TILE_SIZE);
    assert_eq!(t.len(), 32 * 24);
    for pair in t.windows(2) {
        assert!(key(&pair[0], w, h) <= key(&pair[1], w, h));
    }
    let mut grid = tile_grid_of(w, h, TILE_SIZE);
    let mut sorted = t.clone();
    grid.sort_by_key(|r| (r.top, r.left));
    sorted.sort_by_key(|r| (r.top, r.left));
    assert_eq!(grid, sorted);
    let first = t[0];
    assert_eq!(key(&first, w, h).0, 16 * 16 + 16 * 16);
    assert_eq!((first.left, first.top), (480, 352));
}

#[test]
fn odd_sized_image_is_ordered_centre_out() {
    let (w, h) = (100, 70);
    let t = ordered_tiles(w, h, TILE_SIZE);
    assert_eq!(t.len(), 4 * 3);
    for pair in t.windows(2) {
        assert!(key(&pair[0], w, h) <= key(&pair[1], w, h));
    }
    for r in &t {
        assert!(r.left + r.width <= w && r.top + r.height <= h);
    }
}

#[test]
fn order_tiles_sorts_any_list() {
    let mut v = vec![
        Rectangle::new(0, 0, 10, 10),
        Rectangle::new(45, 45, 10, 10),
        Rectangle::new(90, 90, 10, 10),
        Rectangle::new(40, 40, 10, 10),
    ];
    order_tiles(&mut v, 100, 100);
    assert_eq!(
        v,
        vec![
            Rectangle::new(45, 45, 10, 10),
            Rectangle::new(40, 40, 10, 10),
            Rectangle::new(0, 0, 10, 10),
            Rectangle::new(90, 90, 10, 10),
        ]
    );
}
