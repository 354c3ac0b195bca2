use isomap::geometry::{map_to_screen, tile_rect, tile_vertex, Pos, Size};
use isomap::tilemap::TileMap;

fn map_14() -> TileMap {
    TileMap::builder()
        .with_screen_size(Size { width: 1024, height: 800 })
        .with_map_size(Size { width: 14, height: 14 })
        .with_tile_size(Size { width: 64, height: 32 })
        .build()
}

#[test]
fn projection_formula() {
    let half = Size { width: 32, height: 16 };
    let origin = Pos { x: 512, y: 64 };
    let p = map_to_screen(&Pos { x: 3, y: 1 }, half, &origin);
    assert_eq!(p, Pos { x: 32 * 2 + 512, y: 16 * 4 + 64 });
    let q = map_to_screen(&Pos { x: 0, y: 5 }, half, &origin);
    assert_eq!(q, Pos { x: 512 - 160, y: 64 + 80 });
}

#[test]
fn diagonal_moves_are_axis_moves() {
    let half = Size { width: 32, height: 16 };
    let origin = Pos { x: 0, y: 0 };
    let a = map_to_screen(&Pos { x: 2, y: 2 }, half, &origin);
    let b = map_to_screen(&Pos { x: 3, y: 3 }, half, &origin);
    assert_eq!(a.x, b.x);
    let c = map_to_screen(&Pos { x: 3, y: 1 }, half, &origin);
    assert_eq!(a.y, c.y);
}

#[test]
fn distinct_cells_project_apart() {
    let half = Size { width: 32, height: 16 };
    let origin = Pos { x: 512, y: 64 };
    let mut seen: Vec<Pos> = Vec::new();
    for x in 0..14i64 {
        for y in 0..14i64 {
            let p = map_to_screen(&Pos { x, y }, half, &origin);
            assert!(!seen.contains(&p));
            seen.push(p);
        }
    }
    assert_eq!(seen.len(), 196);
}

#[test]
fn tile_rect_corners() {
    let r = tile_rect(&Pos { x: 100, y: 50 }, Size { width: 64, height: 32 });
    assert_eq!(r.top_right, Pos { x: 100, y: 50 });
    assert_eq!(r.top_left, Pos { x: 36, y: 50 });
    assert_eq!(r.bottom_right, Pos { x: 100, y: 82 });
    assert_eq!(r.bottom_left, Pos { x: 36, y: 82 });
}

#[test]
fn tile_vertex_midpoints() {
    let v = tile_vertex(&Pos { x: 100, y: 50 }, Size { width: 64, height: 32 });
    assert_eq!(v.top, Pos { x: 68, y: 50 });
    assert_eq!(v.left, Pos { x: 36, y: 66 });
    assert_eq!(v.right, Pos { x: 100, y: 66 });
    assert_eq!(v.bottom, Pos { x: 68, y: 82 });
}

#[test]
fn origin_tile_is_anchored_at_its_top_right() {
    for (w, h) in [(64u32, 32u32), (0, 0), (7, 3), (128, 64)] {
        let map = TileMap::builder()
            .with_screen_size(Size { width: 1024, height: 800 })
            .with_tile_size(Size { width: w, height: h })
            .build();
        let p = map.convert_map_to_screen(&Pos { x: 0, y: 0 });
        let r = map.get_tile_rect(&p);
        assert_eq!(r.top_right, p);
        assert_eq!(r.bottom_left.x, r.top_left.x);
        assert_eq!(r.bottom_right.y, r.bottom_left.y);
    }
}

#[test]
fn map_projection_uses_half_tile_and_origin() {
    let map = map_14();
    assert_eq!(map.convert_map_to_screen(&Pos { x: 0, y: 0 }), Pos { x: 512, y: 64 });
    assert_eq!(map.convert_map_to_screen(&Pos { x: 1, y: 0 }), Pos { x: 544, y: 80 });
    assert_eq!(map.convert_map_to_screen(&Pos { x: 13, y: 13 }), Pos { x: 512, y: 64 + 16 * 26 });
}

#[test]
fn map_tile_geometry() {
    let map = map_14();
    let p = Pos { x: 544, y: 80 };
    let r = map.get_tile_rect(&p);
    assert_eq!(r.bottom_left, Pos { x: 480, y: 112 });
    let v = map.get_tile_vertex(&p);
    assert_eq!(v.top, Pos { x: 512, y: 80 });
    assert_eq!(v.bottom, Pos { x: 512, y: 112 });
}

#[test]
fn odd_tile_size_halves_round_down() {
    let map = TileMap::builder().with_tile_size(Size { width: 7, height: 5 }).build();
    assert_eq!(map.convert_map_to_screen(&Pos { x: 1, y: 0 }), Pos { x: 3, y: 10 + 2 });
}
