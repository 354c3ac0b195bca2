use crate::depth::Comparable;
use crate::geometry::Pos;
use crate::paint::{Error, ErrorModel, PaintCall, PaintModel};
use crate::tilemap::{Entity, TileMap};
use std::cmp::Ordering;
use vstd::prelude::*;

verus! {

/// A sprite: a named image standing on the tile anchored at its screen point.
#[derive(Clone, Debug, PartialEq, Eq)]
pub struct Image {
    screen_pos: Pos,
    basename: String,
}

impl Image {
    /// The name of the image in the image table.
    pub closed spec fn name(&self) -> Seq<char> {
        self.basename@
    }

    /// The screen point of the tile the sprite stands on.
    pub closed spec fn anchor_point(&self) -> Pos {
        self.screen_pos
    }

    pub fn new(screen_pos: Pos, basename: &str) -> (r: Image)
        ensures
            r.anchor() == screen_pos,
            r.name() == basename@,
    {
        Image { screen_pos, basename: basename.to_owned() }
    }

    pub fn basename(&self) -> (r: &str)
        ensures
            r@ == self.name(),
    {
        self.basename.as_str()
    }
}

impl Entity for Image {
    open spec fn anchor(&self) -> Pos {
        self.anchor_point()
    }

    open spec fn paint(&self, owner: &TileMap) -> Result<PaintModel, ErrorModel> {
        owner.image_paint(self.name(), self.anchor())
    }

    fn screen_pos(&self) -> (r: &Pos) {
        &self.screen_pos
    }

    fn render(&self, owner_ref: &TileMap) -> (r: Result<PaintCall, Error>) {
        owner_ref.render_image(self.basename.as_str(), &self.screen_pos)
    }
}

impl Comparable for Image {
    /// Sprites are painted from the top of the screen down.
    open spec fn depth(&self) -> int {
        self.anchor().y as int
    }

    fn compare(&self, other: &Self) -> (r: Ordering) {
        if self.screen_pos.y < other.screen_pos.y {
            Ordering::Less
        } else if self.screen_pos.y == other.screen_pos.y {
            Ordering::Equal
        } else {
            Ordering::Greater
        }
    }
}

} // verus!
