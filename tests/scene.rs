use isomap::depth::sort_by_depth;
use isomap::geometry::{Pos, Size};
use isomap::paint::{Error, ImageInfo, PaintCall};
use isomap::sprite::Image;
use isomap::tile::Tile;
use isomap::tilemap::{Entity, Layer, TileMap};

fn map_14() -> TileMap {
    TileMap::builder()
        .with_screen_size(Size { width: 1024, height: 800 })
        .with_map_size(Size { width: 14, height: 14 })
        .with_tile_size(Size { width: 64, height: 32 })
        .build()
}

fn info(w: u32, h: u32) -> ImageInfo {
    ImageInfo { size: Size { width: w, height: h }, natural_size: Size { width: w, height: h } }
}

fn lit(mut t: Tile) -> Tile {
    t.set_highlight(true);
    t
}

#[test]
fn builder_defaults() {
    let map = TileMap::builder().build();
    assert_eq!(map.canvas_id(), "canvas");
    assert_eq!(map.tile_color(), "#15B89A");
    assert_eq!(map.screen_size(), Size { width: 0, height: 0 });
    assert!(map.tiles().is_empty());
}

#[test]
fn builder_settings() {
    let map = TileMap::builder()
        .with_canvas_id("board")
        .with_color("#000000")
        .with_map_size(Size { width: 3, height: 2 })
        .with_tile_size(Size { width: 10, height: 6 })
        .with_screen_size(Size { width: 300, height: 200 })
        .build();
    assert_eq!(map.canvas_id(), "board");
    assert_eq!(map.tile_color(), "#000000");
    assert_eq!(map.map_size(), Size { width: 3, height: 2 });
    assert_eq!(map.tile_size(), Size { width: 10, height: 6 });
    assert_eq!(map.convert_map_to_screen(&Pos { x: 0, y: 0 }), Pos { x: 150, y: 12 });
}

#[test]
fn grid_has_one_tile_per_cell() {
    let mut map = TileMap::builder()
        .with_map_size(Size { width: 3, height: 2 })
        .with_tile_size(Size { width: 10, height: 6 })
        .build();
    assert!(map.fits_grid());
    map.add_tiles();
    assert_eq!(map.tiles().len(), 6);
    let mut cells: Vec<(i64, i64)> = map.tiles().iter().map(|t| (t.map_pos().x, t.map_pos().y)).collect();
    cells.sort();
    assert_eq!(cells, vec![(0, 0), (0, 1), (1, 0), (1, 1), (2, 0), (2, 1)]);
    for t in map.tiles() {
        assert_eq!(*t.screen_pos(), map.convert_map_to_screen(&t.map_pos()));
        assert!(!t.is_highlighted());
    }
}

#[test]
fn second_add_tiles_duplicates_grid() {
    let mut map = TileMap::builder().with_map_size(Size { width: 2, height: 2 }).build();
    map.add_tiles();
    map.add_tiles();
    assert_eq!(map.tiles().len(), 8);
}

#[test]
fn empty_grid_adds_nothing() {
    let mut map = TileMap::builder().with_map_size(Size { width: 0, height: 9 }).build();
    map.add_tiles();
    assert!(map.tiles().is_empty());
}

#[test]
fn grid_too_large_is_reported() {
    let map = TileMap::builder()
        .with_map_size(Size { width: u32::MAX, height: u32::MAX })
        .with_tile_size(Size { width: u32::MAX, height: u32::MAX })
        .build();
    assert!(!map.fits_grid());
}

#[test]
fn sorting_sorted_tiles_changes_nothing() {
    let mut tiles = vec![
        Tile::new(Pos { x: 0, y: 30 }, Pos { x: 0, y: 0 }),
        Tile::new(Pos { x: 5, y: 10 }, Pos { x: 1, y: 0 }),
        lit(Tile::new(Pos { x: 9, y: 0 }, Pos { x: 2, y: 0 })),
        Tile::new(Pos { x: 7, y: 10 }, Pos { x: 3, y: 0 }),
    ];
    sort_by_depth(&mut tiles);
    let once = tiles.clone();
    assert_eq!(once[0].map_pos(), Pos { x: 1, y: 0 });
    assert_eq!(once[1].map_pos(), Pos { x: 3, y: 0 });
    assert_eq!(once[2].map_pos(), Pos { x: 0, y: 0 });
    assert_eq!(once[3].map_pos(), Pos { x: 2, y: 0 });
    sort_by_depth(&mut tiles);
    assert_eq!(tiles, once);
}

#[test]
fn highlighted_tile_sorts_after_plain_at_equal_y() {
    let plain = Tile::new(Pos { x: 0, y: 40 }, Pos { x: 0, y: 0 });
    let hi = lit(Tile::new(Pos { x: 64, y: 40 }, Pos { x: 1, y: 1 }));
    let mut a = vec![hi, plain];
    let mut b = vec![plain, hi];
    sort_by_depth(&mut a);
    sort_by_depth(&mut b);
    assert_eq!(a, vec![plain, hi]);
    assert_eq!(b, vec![plain, hi]);
}

#[test]
fn highlighted_tile_sorts_last_regardless_of_y() {
    let plain = Tile::new(Pos { x: 0, y: 400 }, Pos { x: 0, y: 0 });
    let hi = lit(Tile::new(Pos { x: 0, y: -400 }, Pos { x: 1, y: 1 }));
    let mut v = vec![hi, plain];
    sort_by_depth(&mut v);
    assert_eq!(v, vec![plain, hi]);
}

#[test]
fn sprite_layer_sorts_by_y() {
    let mut map = map_14();
    map.add_entity(Layer::PersonLayer, Image::new(Pos { x: 0, y: 90 }, "man-ne"));
    map.add_entity(Layer::PersonLayer, Image::new(Pos { x: 0, y: 10 }, "man-nw"));
    map.add_entity(Layer::PersonLayer, Image::new(Pos { x: 0, y: 50 }, "man-se"));
    map.update_layer(Layer::PersonLayer);
    let names: Vec<&str> = map.entities(Layer::PersonLayer).iter().map(|e| e.basename()).collect();
    assert_eq!(names, vec!["man-nw", "man-se", "man-ne"]);
    assert!(map.entities(Layer::PrismLayer).is_empty());
}

#[test]
fn highlight_changes_order_after_sort() {
    let mut map = TileMap::builder()
        .with_map_size(Size { width: 2, height: 1 })
        .with_tile_size(Size { width: 10, height: 6 })
        .build();
    map.add_tiles();
    let first = map.tiles()[0].map_pos();
    let mut tiles = map.tiles().clone();
    tiles[0].set_highlight(true);
    sort_by_depth(&mut tiles);
    assert_eq!(tiles[1].map_pos(), first);
    assert!(tiles[1].is_highlighted());
}

#[test]
fn image_table_lookup() {
    let mut map = map_14();
    map.load_images(vec![("a.png".to_string(), Some(info(10, 20)))]);
    assert_eq!(map.image("a.png"), Some(info(10, 20)));
    assert_eq!(map.image("b.png"), None);
}

#[test]
fn later_image_of_same_name_replaces_earlier() {
    let mut map = map_14();
    map.load_images(vec![
        ("a.png".to_string(), Some(info(10, 20))),
        ("a.png".to_string(), Some(info(30, 40))),
    ]);
    assert_eq!(map.image("a.png"), Some(info(30, 40)));
}

#[test]
fn render_image_stands_on_tile() {
    let mut map = map_14();
    map.load_images(vec![("man".to_string(), Some(info(40, 70)))]);
    let call = map.render_image("man", &Pos { x: 544, y: 80 }).unwrap();
    assert_eq!(call, PaintCall::Image { name: "man".to_string(), at: Pos { x: 480, y: 112 - 70 } });
}

#[test]
fn render_image_missing_is_an_error() {
    let map = map_14();
    let r = map.render_image("ghost", &Pos { x: 0, y: 0 });
    assert_eq!(r, Err(Error::ImageNotFound("ghost".to_string())));
}

#[test]
fn render_image_scaled_keeps_aspect() {
    let mut map = map_14();
    map.load_images(vec![("brick".to_string(), Some(info(16, 8)))]);
    let call = map.render_image_scaled("brick", &Pos { x: 100, y: 50 }, &Size { width: 64, height: 40 }).unwrap();
    // 64 / 16 = 4 across, 40 / 8 = 5 down: the factor is 4, giving 64 x 32.
    assert_eq!(
        call,
        PaintCall::ImageScaled {
            name: "brick".to_string(),
            source: Size { width: 16, height: 8 },
            at: Pos { x: 36, y: 82 - 32 },
            target: Size { width: 64, height: 32 },
        }
    );
}

#[test]
fn render_image_scaled_shrinks_large_image() {
    let mut map = map_14();
    map.load_images(vec![("wall".to_string(), Some(info(100, 50)))]);
    let call = map.render_image_scaled("wall", &Pos { x: 100, y: 50 }, &Size { width: 64, height: 32 }).unwrap();
    // The factor is min(64 / 100, 32 / 50) = 0.64.
    assert_eq!(
        call,
        PaintCall::ImageScaled {
            name: "wall".to_string(),
            source: Size { width: 100, height: 50 },
            at: Pos { x: 36, y: 82 - 32 },
            target: Size { width: 64, height: 32 },
        }
    );
}

#[test]
fn render_image_scaled_by_fractional_factor() {
    let mut map = map_14();
    map.load_images(vec![("rock".to_string(), Some(info(30, 20)))]);
    let call = map.render_image_scaled("rock", &Pos { x: 100, y: 50 }, &Size { width: 64, height: 32 }).unwrap();
    // The factor is min(64 / 30, 32 / 20) = 1.6: 30 x 20 becomes 48 x 32.
    assert_eq!(
        call,
        PaintCall::ImageScaled {
            name: "rock".to_string(),
            source: Size { width: 30, height: 20 },
            at: Pos { x: 36, y: 82 - 32 },
            target: Size { width: 48, height: 32 },
        }
    );
}

#[test]
fn render_image_scaled_errors() {
    let mut map = map_14();
    map.load_images(vec![("empty".to_string(), Some(info(0, 8)))]);
    let at = Pos { x: 0, y: 0 };
    let to = Size { width: 64, height: 32 };
    assert_eq!(map.render_image_scaled("empty", &at, &to), Err(Error::RenderImage("empty".to_string())));
    assert_eq!(map.render_image_scaled("none", &at, &to), Err(Error::ImageNotFound("none".to_string())));
}

#[test]
fn entity_render_goes_through_image_table() {
    let mut map = map_14();
    map.load_images(vec![("man".to_string(), Some(info(40, 70)))]);
    let e = Image::new(Pos { x: 544, y: 80 }, "man");
    assert_eq!(e.render(&map), map.render_image("man", &Pos { x: 544, y: 80 }));
    assert_eq!(*e.screen_pos(), Pos { x: 544, y: 80 });
}

#[test]
fn highlighted_tile_paints_marker() {
    let map = map_14();
    let mut t = Tile::new(Pos { x: 544, y: 80 }, Pos { x: 1, y: 0 });
    let plain = t.render(&map).unwrap();
    match plain {
        PaintCall::Tile(p) => {
            assert_eq!(p.outline, map.get_tile_vertex(&Pos { x: 544, y: 80 }));
            assert!(p.marker.is_none());
        }
        other => panic!("unexpected call {:?}", other),
    }
    t.set_highlight(true);
    match t.render(&map).unwrap() {
        PaintCall::Tile(p) => {
            let m = p.marker.unwrap();
            assert_eq!(m.frame, Pos { x: 480, y: 80 });
            assert_eq!(m.size, Size { width: 64, height: 32 });
            assert_eq!(m.map_pos, Pos { x: 1, y: 0 });
            assert_eq!(m.label_at, Pos { x: 504, y: 100 });
        }
        other => panic!("unexpected call {:?}", other),
    }
}

#[test]
fn highlighted_tile_in_scene_paints_last_after_sort() {
    let mut map = TileMap::builder()
        .with_map_size(Size { width: 3, height: 3 })
        .with_tile_size(Size { width: 64, height: 32 })
        .build();
    map.add_tiles();
    let cell = map.tiles()[0].map_pos();
    map.set_highlight(0, true);
    assert!(map.tiles()[0].is_highlighted());
    map.sort_tiles();
    let last = map.tiles()[8];
    assert!(last.is_highlighted());
    assert_eq!(last.map_pos(), cell);
    assert_eq!(map.tiles().iter().filter(|t| t.is_highlighted()).count(), 1);
}
