use crate::geometry::{Pos, Size, TileVertex};
use vstd::prelude::*;

verus! {

/// The debug decoration of a highlighted tile: the outline of its enclosing
/// rectangle and a text label with its map cell.
#[derive(Clone, Copy, Debug, PartialEq, Eq, Structural)]
pub struct TileMarker {
    /// Top-left corner of the enclosing rectangle.
    pub frame: Pos,
    /// Size of the enclosing rectangle.
    pub size: Size,
    /// The map cell that the label shows.
    pub map_pos: Pos,
    /// Where the label is written.
    pub label_at: Pos,
}

/// How one tile is painted: its diamond outline, and for a highlighted tile
/// a marker drawn over it.
#[derive(Clone, Copy, Debug, PartialEq, Eq, Structural)]
pub struct TilePaint {
    pub outline: TileVertex,
    pub marker: Option<TileMarker>,
}

/// One call issued to the drawing surface.
#[derive(Clone, Debug, PartialEq, Eq)]
pub enum PaintCall {
    /// Clear the surface from (0, 0) over the given size.
    Clear(Size),
    /// Paint one tile.
    Tile(TilePaint),
    /// Blit the named image unscaled with its top-left corner at `at`.
    Image { name: String, at: Pos },
    /// Blit the whole of the named image, `source` in size, scaled into
    /// `target` with its top-left corner at `at`.
    ImageScaled { name: String, source: Size, at: Pos, target: Size },
}

/// A paint call with image names as character sequences.
pub enum PaintModel {
    Clear(Size),
    Tile(TilePaint),
    Image { name: Seq<char>, at: Pos },
    ImageScaled { name: Seq<char>, source: Size, at: Pos, target: Size },
}

impl View for PaintCall {
    type V = PaintModel;

    open spec fn view(&self) -> PaintModel {
        match self {
            PaintCall::Clear(s) => PaintModel::Clear(*s),
            PaintCall::Tile(t) => PaintModel::Tile(*t),
            PaintCall::Image { name, at } => PaintModel::Image { name: name@, at: *at },
            PaintCall::ImageScaled { name, source, at, target } => PaintModel::ImageScaled {
                name: name@,
                source: *source,
                at: *at,
                target: *target,
            },
        }
    }
}

/// A draw that could not be issued. Such a failure stays local to the one
/// draw: the rest of the frame is painted.
#[derive(Clone, Debug, PartialEq, Eq)]
pub enum Error {
    /// No image of this name is in the image table.
    ImageNotFound(String),
    /// The drawing surface cannot take the named image.
    RenderImage(String),
}

pub enum ErrorModel {
    ImageNotFound(Seq<char>),
    RenderImage(Seq<char>),
}

impl View for Error {
    type V = ErrorModel;

    open spec fn view(&self) -> ErrorModel {
        match self {
            Error::ImageNotFound(n) => ErrorModel::ImageNotFound(n@),
            Error::RenderImage(n) => ErrorModel::RenderImage(n@),
        }
    }
}

pub open spec fn outcome_view(r: Result<PaintCall, Error>) -> Result<PaintModel, ErrorModel> {
    match r {
        Ok(c) => Ok(c@),
        Err(e) => Err(e@),
    }
}

/// The pixel size and natural size of a loaded image.
#[derive(Clone, Copy, Debug, PartialEq, Eq, Structural)]
pub struct ImageInfo {
    pub size: Size,
    pub natural_size: Size,
}

} // verus!
