use crate::depth::{depth_sorted, insert_by_depth, Comparable};
use crate::geometry::{in_bounds, rect_of, tile_rect, tile_vertex, vertex_of, Pos, Size};
use crate::paint::{Error, ErrorModel, PaintCall, PaintModel, TileMarker, TilePaint};
use crate::tilemap::{Entity, TileMap};
use std::cmp::Ordering;
use vstd::prelude::*;

verus! {

/// Horizontal distance from a tile's anchor back to its debug label.
pub const LABEL_DX: i64 = 40;

/// Vertical distance from a tile's anchor down to its debug label.
pub const LABEL_DY: i64 = 20;

/// How far a highlighted tile's depth lies above that of every plain tile:
/// more than the whole range of screen `y`.
pub open spec fn highlight_lift() -> int {
    0x1_0000_0000_0000_0000
}

/// One cell of the grid, with the screen point it was projected to.
#[derive(Clone, Copy, Debug, PartialEq, Eq)]
pub struct Tile {
    pub highlight: bool,
    screen_pos: Pos,
    map_pos: Pos,
}

impl Tile {
    /// A plain tile of map cell `map_pos` anchored at `screen_pos`.
    pub closed spec fn placed(screen_pos: Pos, map_pos: Pos) -> Tile {
        Tile { highlight: false, screen_pos, map_pos }
    }

    /// The screen point the tile is anchored at.
    pub closed spec fn anchor_point(&self) -> Pos {
        self.screen_pos
    }

    pub closed spec fn map_cell(&self) -> Pos {
        self.map_pos
    }

    pub closed spec fn is_lit(&self) -> bool {
        self.highlight
    }

    /// What a placed tile holds.
    pub proof fn lemma_placed(screen_pos: Pos, map_pos: Pos)
        ensures
            Tile::placed(screen_pos, map_pos).anchor() == screen_pos,
            Tile::placed(screen_pos, map_pos).map_cell() == map_pos,
            !Tile::placed(screen_pos, map_pos).is_lit(),
    {
    }

    pub fn new(screen_pos: Pos, map_pos: Pos) -> (r: Tile)
        ensures
            r == Tile::placed(screen_pos, map_pos),
            r.anchor() == screen_pos,
            r.map_cell() == map_pos,
            !r.is_lit(),
    {
        Tile { highlight: false, screen_pos, map_pos }
    }

    pub fn is_highlighted(&self) -> (r: bool)
        ensures
            r == self.is_lit(),
    {
        self.highlight
    }

    pub fn map_pos(&self) -> (r: Pos)
        ensures
            r == self.map_cell(),
    {
        self.map_pos
    }

    pub fn set_highlight(&mut self, on: bool)
        ensures
            final(self).is_lit() == on,
            final(self).anchor() == old(self).anchor(),
            final(self).map_cell() == old(self).map_cell(),
    {
        self.highlight = on;
    }
}

/// How a tile is painted with tiles of size `tile_size`.
pub open spec fn tile_paint_of(t: Tile, tile_size: Size) -> TilePaint {
    let p = t.anchor();
    TilePaint {
        outline: vertex_of(p, tile_size),
        marker: if t.is_lit() {
            Some(
                TileMarker {
                    frame: rect_of(p, tile_size).top_left,
                    size: tile_size,
                    map_pos: t.map_cell(),
                    label_at: Pos { x: (p.x - LABEL_DX) as i64, y: (p.y + LABEL_DY) as i64 },
                },
            )
        } else {
            None
        },
    }
}

impl Entity for Tile {
    open spec fn anchor(&self) -> Pos {
        self.anchor_point()
    }

    open spec fn paint(&self, owner: &TileMap) -> Result<PaintModel, ErrorModel> {
        Ok(PaintModel::Tile(tile_paint_of(*self, owner@.tile_size)))
    }

    fn screen_pos(&self) -> (r: &Pos) {
        &self.screen_pos
    }

    fn render(&self, owner_ref: &TileMap) -> (r: Result<PaintCall, Error>) {
        let tile_size = owner_ref.tile_size();
        let p = self.screen_pos;
        let outline = tile_vertex(&p, tile_size);
        let marker = if self.highlight {
            let rect = tile_rect(&p, tile_size);
            Some(
                TileMarker {
                    frame: rect.top_left,
                    size: tile_size,
                    map_pos: self.map_pos,
                    label_at: Pos { x: p.x - LABEL_DX, y: p.y + LABEL_DY },
                },
            )
        } else {
            None
        };
        Ok(PaintCall::Tile(TilePaint { outline, marker }))
    }
}

impl Comparable for Tile {
    /// Plain tiles come before highlighted ones; within each kind, the
    /// smaller screen `y` comes first.
    open spec fn depth(&self) -> int {
        if self.is_lit() {
            self.anchor().y + highlight_lift()
        } else {
            self.anchor().y as int
        }
    }

    fn compare(&self, other: &Self) -> (r: Ordering) {
        if self.highlight != other.highlight {
            if self.highlight {
                Ordering::Greater
            } else {
                Ordering::Less
            }
        } else if self.screen_pos.y < other.screen_pos.y {
            Ordering::Less
        } else if self.screen_pos.y == other.screen_pos.y {
            Ordering::Equal
        } else {
            Ordering::Greater
        }
    }
}

/// Of two tiles at the same screen `y`, the highlighted one is painted last,
/// whichever order they were in before sorting.
pub proof fn lemma_highlight_paints_last(lit: Tile, plain: Tile)
    requires
        lit.is_lit(),
        !plain.is_lit(),
        lit.anchor().y == plain.anchor().y,
    ensures
        depth_sorted(seq![lit, plain]) == seq![plain, lit],
        depth_sorted(seq![plain, lit]) == seq![plain, lit],
{
    let none = Seq::<Tile>::empty();
    assert(seq![lit, plain].drop_last() =~= seq![lit]);
    assert(seq![plain, lit].drop_last() =~= seq![plain]);
    assert(seq![lit].drop_last() =~= none);
    assert(seq![plain].drop_last() =~= none);
    assert(depth_sorted(none) == none);
    assert(depth_sorted(seq![lit]) == insert_by_depth(none, lit));
    assert(depth_sorted(seq![plain]) == insert_by_depth(none, plain));
    assert(insert_by_depth(none, plain) == seq![plain]);
    assert(insert_by_depth(none, lit) == seq![lit]);
    assert(insert_by_depth(seq![lit], plain) == insert_by_depth(none, plain).push(lit));
    assert(seq![plain].push(lit) =~= seq![plain, lit]);
    assert(insert_by_depth(seq![plain], lit) == seq![plain].push(lit));
}

} // verus!
