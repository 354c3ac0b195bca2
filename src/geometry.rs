use vstd::prelude::*;

verus! {

/// Largest magnitude of a coordinate that the tile geometry accepts: any offset
/// by a `u32` tile or image dimension from such a point still fits in an `i64`.
pub const COORD_LIMIT: i64 = 0x3fff_ffff_ffff_ffff;

/// A point in whole pixels on the screen, or a cell on the map grid.
#[derive(Clone, Copy, Debug, PartialEq, Eq, Structural)]
pub struct Pos {
    pub x: i64,
    pub y: i64,
}

/// A width and a height in pixels or in grid cells.
#[derive(Clone, Copy, Debug, PartialEq, Eq, Structural)]
pub struct Size {
    pub width: u32,
    pub height: u32,
}

/// The four corners of the rectangle that encloses a tile; the top-right
/// corner is the tile's anchor point.
#[derive(Clone, Copy, Debug, PartialEq, Eq, Structural)]
pub struct TileRect {
    pub top_right: Pos,
    pub top_left: Pos,
    pub bottom_right: Pos,
    pub bottom_left: Pos,
}

/// The four points of a tile's diamond outline, at the middle of each side
/// of its enclosing rectangle.
#[derive(Clone, Copy, Debug, PartialEq, Eq, Structural)]
pub struct TileVertex {
    pub top: Pos,
    pub left: Pos,
    pub right: Pos,
    pub bottom: Pos,
}

pub open spec fn fits_i64(v: int) -> bool {
    i64::MIN <= v <= i64::MAX
}

/// The point lies where tile and sprite geometry can be computed around it.
pub open spec fn in_bounds(p: Pos) -> bool {
    &&& -COORD_LIMIT <= p.x <= COORD_LIMIT
    &&& -COORD_LIMIT <= p.y <= COORD_LIMIT
}

/// Half of a tile size, rounded down.
pub open spec fn half_of(s: Size) -> Size {
    Size { width: s.width / 2, height: s.height / 2 }
}

/// Screen x of map cell `m` under the 2:1 isometric projection.
pub open spec fn iso_x(m: Pos, half: Size, origin: Pos) -> int {
    half.width * (m.x - m.y) + origin.x
}

/// Screen y of map cell `m` under the 2:1 isometric projection.
pub open spec fn iso_y(m: Pos, half: Size, origin: Pos) -> int {
    half.height * (m.x + m.y) + origin.y
}

/// The projection of map cell `m` fits in screen coordinates.
pub open spec fn projects(m: Pos, half: Size, origin: Pos) -> bool {
    fits_i64(iso_x(m, half, origin)) && fits_i64(iso_y(m, half, origin))
}

pub open spec fn screen_of(m: Pos, half: Size, origin: Pos) -> Pos {
    Pos { x: iso_x(m, half, origin) as i64, y: iso_y(m, half, origin) as i64 }
}

pub open spec fn rect_of(p: Pos, size: Size) -> TileRect {
    TileRect {
        top_right: p,
        top_left: Pos { x: (p.x - size.width) as i64, y: p.y },
        bottom_right: Pos { x: p.x, y: (p.y + size.height) as i64 },
        bottom_left: Pos { x: (p.x - size.width) as i64, y: (p.y + size.height) as i64 },
    }
}

pub open spec fn vertex_of(p: Pos, size: Size) -> TileVertex {
    TileVertex {
        top: Pos { x: (p.x - size.width / 2) as i64, y: p.y },
        left: Pos { x: (p.x - size.width) as i64, y: (p.y + size.height / 2) as i64 },
        right: Pos { x: p.x, y: (p.y + size.height / 2) as i64 },
        bottom: Pos { x: (p.x - size.width / 2) as i64, y: (p.y + size.height) as i64 },
    }
}

/// Every cell of a grid of `map` cells projects to a point where tile
/// geometry can be computed. The bound is stated at the grid's corners, where
/// the projection takes its extreme values.
pub open spec fn grid_fits(map: Size, half: Size, origin: Pos) -> bool {
    &&& in_bounds(origin)
    &&& origin.x + half.width * map.width <= COORD_LIMIT
    &&& origin.x - half.width * map.height >= -COORD_LIMIT
    &&& origin.y + half.height * (map.width + map.height) <= COORD_LIMIT
}

/// A cell of a grid that fits projects to a point in bounds.
pub proof fn lemma_grid_cell_fits(map: Size, half: Size, origin: Pos, m: Pos)
    requires
        grid_fits(map, half, origin),
        0 <= m.x < map.width,
        0 <= m.y < map.height,
    ensures
        projects(m, half, origin),
        in_bounds(screen_of(m, half, origin)),
{
    let hw = half.width as int;
    let hh = half.height as int;
    let w = map.width as int;
    let h = map.height as int;
    let (mx, my) = (m.x as int, m.y as int);
    assert(-(hw * h) <= hw * (mx - my) <= hw * w) by (nonlinear_arith)
        requires
            hw >= 0,
            0 <= mx < w,
            0 <= my < h,
    ;
    assert(0 <= hh * (mx + my) <= hh * (w + h)) by (nonlinear_arith)
        requires
            hh >= 0,
            0 <= mx < w,
            0 <= my < h,
    ;
}

/// Projects map cell `map_pos` to the screen: `half` is half the tile size and
/// `origin` the screen point of cell (0, 0).
pub fn map_to_screen(map_pos: &Pos, half: Size, origin: &Pos) -> (r: Pos)
    requires
        projects(*map_pos, half, *origin),
    ensures
        r.x == iso_x(*map_pos, half, *origin),
        r.y == iso_y(*map_pos, half, *origin),
        r == screen_of(*map_pos, half, *origin),
{
    let dx: i128 = map_pos.x as i128 - map_pos.y as i128;
    let sx: i128 = map_pos.x as i128 + map_pos.y as i128;
    assert(-0x1_0000_0000_0000_0000 <= dx <= 0x1_0000_0000_0000_0000);
    assert(-0x1_0000_0000_0000_0000 <= sx <= 0x1_0000_0000_0000_0000);
    let hw: i128 = half.width as i128;
    let hh: i128 = half.height as i128;
    assert(-0x1_0000_0000_0000_0000_0000_0000 <= hw * dx <= 0x1_0000_0000_0000_0000_0000_0000)
        by (nonlinear_arith)
        requires
            0 <= hw <= 0xffff_ffff,
            -0x1_0000_0000_0000_0000 <= dx <= 0x1_0000_0000_0000_0000,
    ;
    assert(-0x1_0000_0000_0000_0000_0000_0000 <= hh * sx <= 0x1_0000_0000_0000_0000_0000_0000)
        by (nonlinear_arith)
        requires
            0 <= hh <= 0xffff_ffff,
            -0x1_0000_0000_0000_0000 <= sx <= 0x1_0000_0000_0000_0000,
    ;
    let x: i128 = hw * dx + origin.x as i128;
    let y: i128 = hh * sx + origin.y as i128;
    Pos { x: x as i64, y: y as i64 }
}

/// The rectangle of a tile anchored at `screen_pos`: the anchor is its
/// top-right corner and the tile extends left and down.
pub fn tile_rect(screen_pos: &Pos, tile_size: Size) -> (r: TileRect)
    requires
        in_bounds(*screen_pos),
    ensures
        r == rect_of(*screen_pos, tile_size),
{
    let w: i64 = tile_size.width as i64;
    let h: i64 = tile_size.height as i64;
    TileRect {
        top_right: *screen_pos,
        top_left: Pos { x: screen_pos.x - w, y: screen_pos.y },
        bottom_right: Pos { x: screen_pos.x, y: screen_pos.y + h },
        bottom_left: Pos { x: screen_pos.x - w, y: screen_pos.y + h },
    }
}

/// The diamond outline of a tile anchored at `screen_pos`.
pub fn tile_vertex(screen_pos: &Pos, tile_size: Size) -> (r: TileVertex)
    requires
        in_bounds(*screen_pos),
    ensures
        r == vertex_of(*screen_pos, tile_size),
{
    let w: i64 = tile_size.width as i64;
    let h: i64 = tile_size.height as i64;
    let hw: i64 = (tile_size.width / 2) as i64;
    let hh: i64 = (tile_size.height / 2) as i64;
    TileVertex {
        top: Pos { x: screen_pos.x - hw, y: screen_pos.y },
        left: Pos { x: screen_pos.x - w, y: screen_pos.y + hh },
        right: Pos { x: screen_pos.x, y: screen_pos.y + hh },
        bottom: Pos { x: screen_pos.x - hw, y: screen_pos.y + h },
    }
}

/// With a positive half tile size the projection is one to one: two map
/// cells that land on the same screen point are the same cell.
pub proof fn lemma_projection_injective(a: Pos, b: Pos, half: Size, origin: Pos)
    requires
        half.width > 0,
        half.height > 0,
    ensures
        iso_x(a, half, origin) == iso_x(b, half, origin) && iso_y(a, half, origin) == iso_y(
            b,
            half,
            origin,
        ) ==> a == b,
{
    if iso_x(a, half, origin) == iso_x(b, half, origin) && iso_y(a, half, origin) == iso_y(
        b,
        half,
        origin,
    ) {
        let hw = half.width as int;
        let hh = half.height as int;
        let (da, db) = (a.x - a.y, b.x - b.y);
        let (sa, sb) = (a.x + a.y, b.x + b.y);
        assert(hw * da == hw * db);
        assert(hh * sa == hh * sb);
        assert(da == db) by (nonlinear_arith)
            requires
                hw > 0,
                hw * da == hw * db,
        ;
        assert(sa == sb) by (nonlinear_arith)
            requires
                hh > 0,
                hh * sa == hh * sb,
        ;
    }
}

/// Cell (0, 0) projects onto the origin, and the rectangle of the tile there
/// is anchored at that same point by its top-right corner, with its left
/// side vertical and its bottom side horizontal, whatever the tile size.
pub proof fn lemma_origin_tile_anchored(tile_size: Size, origin: Pos)
    requires
        in_bounds(origin),
    ensures
        ({
            let p = screen_of(Pos { x: 0, y: 0 }, half_of(tile_size), origin);
            let r = rect_of(p, tile_size);
            &&& p == origin
            &&& r.top_right == p
            &&& r.bottom_left.x == r.top_left.x
            &&& r.bottom_right.y == r.bottom_left.y
        }),
{
    let half = half_of(tile_size);
    assert(half.width * (0int - 0int) == 0 && half.height * (0int + 0int) == 0);
}

} // verus!
