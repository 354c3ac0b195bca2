use vstd::prelude::*;

/// Depth order and a stable sort by it.
pub mod depth;
/// The isometric projection and the rectangle and outline of a tile.
pub mod geometry;
/// The load of one image, driven by the host's callbacks.
pub mod image_future;
/// The calls a frame issues to the drawing surface.
pub mod paint;
/// Sprites that stand on tiles.
pub mod sprite;
/// Paint order of a height map drawn as stacked diamonds.
pub mod terrace;
/// One cell of the grid.
pub mod tile;
/// The scene, its builder, its image table and its frames.
pub mod tilemap;

verus! {

} // verus!
