use crate::depth::{depth_sorted, lemma_depth_sorted_sorts, sort_by_depth, Comparable};
use crate::geometry::{
    grid_fits, half_of, in_bounds, lemma_grid_cell_fits, map_to_screen, projects, rect_of,
    screen_of, tile_rect, tile_vertex, vertex_of, Pos, Size, TileRect, TileVertex, COORD_LIMIT,
};
use crate::paint::{outcome_view, Error, ErrorModel, ImageInfo, PaintCall, PaintModel};
use crate::sprite::Image;
use crate::tile::Tile;
use vstd::prelude::*;

verus! {

/// Element id of the drawing surface when the builder names none.
pub open spec fn default_canvas_id() -> Seq<char> {
    "canvas"@
}

/// Tile color when the builder names none.
pub open spec fn default_color() -> Seq<char> {
    "#15B89A"@
}

/// The two sprite layers of a scene.
#[derive(Clone, Copy, Debug, PartialEq, Eq, Structural)]
pub enum Layer {
    PrismLayer,
    PersonLayer,
}

/// Anything with a screen point that the scene paints.
pub trait Entity {
    spec fn anchor(&self) -> Pos;

    /// What painting this entity in the scene `owner` gives.
    spec fn paint(&self, owner: &TileMap) -> Result<PaintModel, ErrorModel>;

    fn screen_pos(&self) -> (r: &Pos)
        ensures
            *r == self.anchor(),
    ;

    fn render(&self, owner_ref: &TileMap) -> (r: Result<PaintCall, Error>)
        requires
            owner_ref.wf(),
            in_bounds(self.anchor()),
        ensures
            outcome_view(r) == self.paint(owner_ref),
    ;
}

/// What a scene holds.
pub struct SceneModel {
    /// Screen point of map cell (0, 0).
    pub origin: Pos,
    pub map_size: Size,
    pub tile_size: Size,
    pub screen_size: Size,
    pub tile_color: Seq<char>,
    pub canvas_id: Seq<char>,
    pub images: Map<Seq<char>, ImageInfo>,
    pub tiles: Seq<Tile>,
    pub prism: Seq<Image>,
    pub person: Seq<Image>,
    /// How many sprite layers a frame paints, in layer order.
    pub painted_layers: nat,
}

/// The settings a builder has gathered.
pub struct BuilderModel {
    pub screen_size: Size,
    pub map_size: Size,
    pub tile_size: Size,
    pub canvas_id: Option<Seq<char>>,
    pub color: Option<Seq<char>>,
    pub painted_layers: nat,
}

/// Gathers the settings of a scene; `TileMap::builder` starts one.
pub struct TileMapBuilder {
    screen_size: Size,
    map_size: Size,
    tile_size: Size,
    canvas_id: Option<String>,
    color: Option<String>,
    painted_layers: usize,
}

/// The scene: a grid of tiles, two sprite layers and the table of loaded
/// images, with the geometry that places them on the screen.
pub struct TileMap {
    map_pos: Pos,
    map_size: Size,
    tile_size: Size,
    screen_size: Size,
    tile_color: String,
    canvas_id: String,
    images: Vec<(String, ImageInfo)>,
    render_tiles_layer: Vec<Tile>,
    prism_layer: Vec<Image>,
    person_layer: Vec<Image>,
    painted_layers: usize,
}

/// The image table that a list of entries stands for; a later entry
/// replaces an earlier one of the same name.
pub open spec fn table_of(s: Seq<(String, ImageInfo)>) -> Map<Seq<char>, ImageInfo>
    decreases s.len(),
{
    if s.len() == 0 {
        Map::empty()
    } else {
        table_of(s.drop_last()).insert(s.last().0@, s.last().1)
    }
}

pub open spec fn names_unique(s: Seq<(String, ImageInfo)>) -> bool {
    forall|i: int, j: int| 0 <= i < j < s.len() ==> #[trigger] s[i].0@ != #[trigger] s[j].0@
}

/// The image table `m` after the outcomes of a preload: each image that
/// loaded is entered under its name, and one that failed is left out.
pub open spec fn with_loaded(
    m: Map<Seq<char>, ImageInfo>,
    s: Seq<(String, Option<ImageInfo>)>,
) -> Map<Seq<char>, ImageInfo>
    decreases s.len(),
{
    if s.len() == 0 {
        m
    } else {
        let rest = with_loaded(m, s.drop_last());
        match s.last().1 {
            Some(info) => rest.insert(s.last().0@, info),
            None => rest,
        }
    }
}

proof fn lemma_table_lookup(s: Seq<(String, ImageInfo)>, k: Seq<char>)
    requires
        names_unique(s),
    ensures
        table_of(s).contains_key(k) <==> exists|i: int| 0 <= i < s.len() && #[trigger] s[i].0@ == k,
        forall|i: int| 0 <= i < s.len() && #[trigger] s[i].0@ == k ==> table_of(s)[k] == s[i].1,
    decreases s.len(),
{
    if s.len() > 0 {
        let t = s.drop_last();
        lemma_table_lookup(t, k);
        if s.last().0@ != k {
            assert forall|i: int| 0 <= i < s.len() && #[trigger] s[i].0@ == k implies 0 <= i
                < t.len() && t[i].0@ == k by {
                if i == s.len() - 1 {
                }
            }
        } else {
            assert(s[s.len() - 1].0@ == k);
        }
    }
}

proof fn lemma_table_update(s: Seq<(String, ImageInfo)>, i: int, e: (String, ImageInfo))
    requires
        names_unique(s),
        0 <= i < s.len(),
        s[i].0@ == e.0@,
    ensures
        table_of(s.update(i, e)) == table_of(s).insert(e.0@, e.1),
        names_unique(s.update(i, e)),
    decreases s.len(),
{
    let u = s.update(i, e);
    if i == s.len() - 1 {
        assert(u.drop_last() =~= s.drop_last());
        assert(table_of(u) =~= table_of(s).insert(e.0@, e.1));
    } else {
        let t = s.drop_last();
        lemma_table_update(t, i, e);
        assert(u.drop_last() =~= t.update(i, e));
        assert(s.last().0@ != e.0@) by {
            assert(s[i].0@ != s[s.len() - 1].0@);
        }
        assert(table_of(u) =~= table_of(s).insert(e.0@, e.1));
    }
    assert forall|a: int, b: int| 0 <= a < b < u.len() implies #[trigger] u[a].0@
        != #[trigger] u[b].0@ by {
        assert(s[a].0@ != s[b].0@);
    }
}

/// The tile of map cell (`x`, `y`), projected with half tile size `half`
/// from `origin`.
pub open spec fn cell_tile(x: int, y: int, half: Size, origin: Pos) -> Tile {
    let m = Pos { x: x as i64, y: y as i64 };
    Tile::placed(screen_of(m, half, origin), m)
}

/// The tiles of column `x` of the grid, for `y` from 0 up to `h`.
pub open spec fn grid_column(x: int, h: nat, half: Size, origin: Pos) -> Seq<Tile> {
    Seq::new(h, |y: int| cell_tile(x, y, half, origin))
}

/// The tiles of a grid `w` cells wide and `h` high, column by column.
pub open spec fn grid_tiles(w: nat, h: nat, half: Size, origin: Pos) -> Seq<Tile>
    decreases w,
{
    if w == 0 {
        Seq::empty()
    } else {
        grid_tiles((w - 1) as nat, h, half, origin) + grid_column(w - 1, h, half, origin)
    }
}

/// A grid `w` cells wide and `h` high has `w * h` tiles, and each one is
/// the tile of its own cell.
pub proof fn lemma_grid_tiles(w: nat, h: nat, half: Size, origin: Pos)
    ensures
        grid_tiles(w, h, half, origin).len() == w * h,
        forall|k: int|
            0 <= k < w * h ==> #[trigger] grid_tiles(w, h, half, origin)[k] == cell_tile(
                k / h as int,
                k % h as int,
                half,
                origin,
            ),
    decreases w,
{
    if w == 0 {
        assert(0 * h == 0);
    } else {
        let w1 = (w - 1) as nat;
        lemma_grid_tiles(w1, h, half, origin);
        assert(w1 * h + h == w * h) by (nonlinear_arith)
            requires
                w1 + 1 == w,
        ;
        let prev = grid_tiles(w1, h, half, origin);
        let col = grid_column(w1 as int, h, half, origin);
        let g = grid_tiles(w, h, half, origin);
        assert(g == prev + col);
        assert forall|k: int| 0 <= k < w * h implies #[trigger] g[k] == cell_tile(
            k / h as int,
            k % h as int,
            half,
            origin,
        ) by {
            if k >= w1 * h {
                let y = k - w1 * h;
                assert(0 <= y < h);
                assert(g[k] == col[y]);
                vstd::arithmetic::div_mod::lemma_fundamental_div_mod_converse(
                    k,
                    h as int,
                    w1 as int,
                    y,
                );
            } else {
                assert(g[k] == prev[k]);
            }
        }
    }
}

/// The tiles of a freshly laid out grid are plain, so sorting them by depth
/// orders them by screen `y`: a frame paints them from the top of the
/// screen down, one tile per cell.
pub proof fn lemma_grid_paints_top_down(w: nat, h: nat, half: Size, origin: Pos)
    ensures
        ({
            let s = depth_sorted(grid_tiles(w, h, half, origin));
            &&& s.len() == w * h
            &&& forall|i: int, j: int|
                0 <= i < j < s.len() ==> (#[trigger] s[i]).anchor().y <= (#[trigger] s[j]).anchor().y
        }),
{
    let g = grid_tiles(w, h, half, origin);
    let s = depth_sorted(g);
    lemma_grid_tiles(w, h, half, origin);
    lemma_depth_sorted_sorts(g);
    assert forall|i: int| 0 <= i < s.len() implies !(#[trigger] s[i]).is_lit() by {
        lemma_sorted_members(g, s, i);
        let k = choose|k: int| 0 <= k < g.len() && g[k] == s[i];
        assert(g[k] == cell_tile(k / h as int, k % h as int, half, origin));
        let m = Pos { x: (k / h as int) as i64, y: (k % h as int) as i64 };
        Tile::lemma_placed(screen_of(m, half, origin), m);
    }
    assert forall|i: int, j: int| 0 <= i < j < s.len() implies (#[trigger] s[i]).anchor().y
        <= (#[trigger] s[j]).anchor().y by {
        assert(s[i].depth() <= s[j].depth());
        assert(!s[i].is_lit() && !s[j].is_lit());
    }
}

impl View for TileMapBuilder {
    type V = BuilderModel;

    closed spec fn view(&self) -> BuilderModel {
        BuilderModel {
            screen_size: self.screen_size,
            map_size: self.map_size,
            tile_size: self.tile_size,
            canvas_id: match self.canvas_id {
                Some(s) => Some(s@),
                None => None,
            },
            color: match self.color {
                Some(s) => Some(s@),
                None => None,
            },
            painted_layers: self.painted_layers as nat,
        }
    }
}

impl Default for TileMapBuilder {
    /// No sizes, no element id or color (the defaults apply), and one
    /// painted sprite layer.
    fn default() -> (r: TileMapBuilder)
        ensures
            r@ == (BuilderModel {
                screen_size: Size { width: 0, height: 0 },
                map_size: Size { width: 0, height: 0 },
                tile_size: Size { width: 0, height: 0 },
                canvas_id: None,
                color: None,
                painted_layers: 1,
            }),
    {
        TileMapBuilder {
            screen_size: Size { width: 0, height: 0 },
            map_size: Size { width: 0, height: 0 },
            tile_size: Size { width: 0, height: 0 },
            canvas_id: None,
            color: None,
            painted_layers: 1,
        }
    }
}

impl TileMapBuilder {
    pub fn with_screen_size(self, size: Size) -> (r: TileMapBuilder)
        ensures
            r@ == (BuilderModel { screen_size: size, ..self@ }),
    {
        TileMapBuilder { screen_size: size, ..self }
    }

    pub fn with_map_size(self, size: Size) -> (r: TileMapBuilder)
        ensures
            r@ == (BuilderModel { map_size: size, ..self@ }),
    {
        TileMapBuilder { map_size: size, ..self }
    }

    pub fn with_tile_size(self, size: Size) -> (r: TileMapBuilder)
        ensures
            r@ == (BuilderModel { tile_size: size, ..self@ }),
    {
        TileMapBuilder { tile_size: size, ..self }
    }

    pub fn with_canvas_id(self, id: &str) -> (r: TileMapBuilder)
        ensures
            r@ == (BuilderModel { canvas_id: Some(id@), ..self@ }),
    {
        TileMapBuilder { canvas_id: Some(id.to_owned()), ..self }
    }

    pub fn with_color(self, color: &str) -> (r: TileMapBuilder)
        ensures
            r@ == (BuilderModel { color: Some(color@), ..self@ }),
    {
        TileMapBuilder { color: Some(color.to_owned()), ..self }
    }

    /// How many of the two sprite layers a frame paints, in layer order; a
    /// count above two paints both.
    pub fn with_painted_layers(self, count: usize) -> (r: TileMapBuilder)
        ensures
            r@ == (BuilderModel { painted_layers: if count <= 2 { count as nat } else { 2 }, ..self@ }),
    {
        let painted_layers = if count <= 2 {
            count
        } else {
            2
        };
        TileMapBuilder { painted_layers, ..self }
    }

    /// The scene these settings describe, with no tiles, sprites or images
    /// yet. Cell (0, 0) projects to the middle of the screen's width, two
    /// tile heights down.
    pub fn build(&self) -> (r: TileMap)
        ensures
            r.wf(),
            r@ == (SceneModel {
                origin: Pos {
                    x: (self@.screen_size.width / 2) as i64,
                    y: (self@.tile_size.height * 2) as i64,
                },
                map_size: self@.map_size,
                tile_size: self@.tile_size,
                screen_size: self@.screen_size,
                tile_color: match self@.color {
                    Some(c) => c,
                    None => default_color(),
                },
                canvas_id: match self@.canvas_id {
                    Some(c) => c,
                    None => default_canvas_id(),
                },
                images: Map::empty(),
                tiles: Seq::empty(),
                prism: Seq::empty(),
                person: Seq::empty(),
                painted_layers: if self@.painted_layers <= 2 {
                    self@.painted_layers
                } else {
                    2
                },
            }),
    {
        let canvas_id = match &self.canvas_id {
            Some(id) => id.clone(),
            None => "canvas".to_owned(),
        };
        let tile_color = match &self.color {
            Some(c) => c.clone(),
            None => "#15B89A".to_owned(),
        };
        let r = TileMap {
            map_pos: Pos {
                x: (self.screen_size.width / 2) as i64,
                y: self.tile_size.height as i64 * 2,
            },
            map_size: self.map_size,
            tile_size: self.tile_size,
            screen_size: self.screen_size,
            tile_color,
            canvas_id,
            images: Vec::new(),
            render_tiles_layer: Vec::new(),
            prism_layer: Vec::new(),
            person_layer: Vec::new(),
            painted_layers: if self.painted_layers <= 2 {
                self.painted_layers
            } else {
                2
            },
        };
        proof {
            reveal_strlit("canvas");
            reveal_strlit("#15B89A");
            assert(r@.images =~= Map::empty());
        }
        r
    }
}

impl View for TileMap {
    type V = SceneModel;

    closed spec fn view(&self) -> SceneModel {
        SceneModel {
            origin: self.map_pos,
            map_size: self.map_size,
            tile_size: self.tile_size,
            screen_size: self.screen_size,
            tile_color: self.tile_color@,
            canvas_id: self.canvas_id@,
            images: table_of(self.images@),
            tiles: self.render_tiles_layer@,
            prism: self.prism_layer@,
            person: self.person_layer@,
            painted_layers: self.painted_layers as nat,
        }
    }
}

/// The size an image of size `source` takes when it is scaled, the same way
/// in both directions, to the largest size that fits inside `to`: the factor
/// is the smaller of `to.width / source.width` and `to.height / source.height`,
/// and each side is rounded down to a whole pixel.
pub open spec fn scaled_size(source: Size, to: Size) -> Size {
    let w = (source.width * to.height) as int / source.height as int;
    let h = (source.height * to.width) as int / source.width as int;
    Size {
        width: if to.width <= w { to.width } else { w as u32 },
        height: if to.height <= h { to.height } else { h as u32 },
    }
}

impl TileMap {
    /// Well-formed: the origin and every tile and sprite are anchored where
    /// their geometry can be computed, image names are unique, and at most
    /// two layers are painted.
    pub closed spec fn wf(&self) -> bool {
        &&& in_bounds(self.map_pos)
        &&& names_unique(self.images@)
        &&& forall|i: int|
            0 <= i < self.render_tiles_layer@.len() ==> in_bounds(
                #[trigger] self.render_tiles_layer@[i].anchor_point(),
            )
        &&& forall|i: int|
            0 <= i < self.prism_layer@.len() ==> in_bounds(
                #[trigger] self.prism_layer@[i].anchor_point(),
            )
        &&& forall|i: int|
            0 <= i < self.person_layer@.len() ==> in_bounds(
                #[trigger] self.person_layer@[i].anchor_point(),
            )
        &&& self.painted_layers <= 2
    }

    pub open spec fn layer(&self, layer: Layer) -> Seq<Image> {
        match layer {
            Layer::PrismLayer => self@.prism,
            Layer::PersonLayer => self@.person,
        }
    }

    /// What blitting the named image onto the tile anchored at `at` gives:
    /// the image stands on the tile's bottom-left corner.
    pub open spec fn image_paint(&self, name: Seq<char>, at: Pos) -> Result<PaintModel, ErrorModel> {
        if !self@.images.contains_key(name) {
            Err(ErrorModel::ImageNotFound(name))
        } else {
            let info = self@.images[name];
            let corner = rect_of(at, self@.tile_size).bottom_left;
            Ok(
                PaintModel::Image {
                    name,
                    at: Pos { x: corner.x, y: (corner.y - info.natural_size.height) as i64 },
                },
            )
        }
    }

    /// What blitting the named image scaled into `to` onto the tile anchored
    /// at `at` gives: the image keeps its aspect ratio and stands on the
    /// tile's bottom-left corner.
    pub open spec fn scaled_paint(&self, name: Seq<char>, at: Pos, to: Size) -> Result<
        PaintModel,
        ErrorModel,
    > {
        if !self@.images.contains_key(name) {
            Err(ErrorModel::ImageNotFound(name))
        } else {
            let info = self@.images[name];
            if info.size.width == 0 || info.size.height == 0 {
                Err(ErrorModel::RenderImage(name))
            } else {
                let target = scaled_size(info.size, to);
                let corner = rect_of(at, self@.tile_size).bottom_left;
                Ok(
                    PaintModel::ImageScaled {
                        name,
                        source: info.size,
                        at: Pos { x: corner.x, y: (corner.y - target.height) as i64 },
                        target,
                    },
                )
            }
        }
    }

    /// The calls of one frame: the surface is cleared, then each tile is
    /// painted in the order the tile layer holds, then each sprite of the
    /// painted layers, layer by layer. A sprite whose image is missing gives
    /// an error in its place and the frame goes on.
    pub open spec fn frame(&self) -> Seq<Result<PaintModel, ErrorModel>> {
        seq![Ok(PaintModel::Clear(self@.screen_size))] + self@.tiles.map_values(
            |t: Tile| t.paint(self),
        ) + (if self@.painted_layers >= 1 {
            self@.prism.map_values(|e: Image| e.paint(self))
        } else {
            Seq::empty()
        }) + (if self@.painted_layers >= 2 {
            self@.person.map_values(|e: Image| e.paint(self))
        } else {
            Seq::empty()
        })
    }

    pub fn builder() -> (r: TileMapBuilder)
        ensures
            r@ == (BuilderModel {
                screen_size: Size { width: 0, height: 0 },
                map_size: Size { width: 0, height: 0 },
                tile_size: Size { width: 0, height: 0 },
                canvas_id: None,
                color: None,
                painted_layers: 1,
            }),
    {
        TileMapBuilder::default()
    }

    pub fn tile_size(&self) -> (r: Size)
        ensures
            r == self@.tile_size,
    {
        self.tile_size
    }

    pub fn map_size(&self) -> (r: Size)
        ensures
            r == self@.map_size,
    {
        self.map_size
    }

    pub fn screen_size(&self) -> (r: Size)
        ensures
            r == self@.screen_size,
    {
        self.screen_size
    }

    pub fn tile_color(&self) -> (r: &str)
        ensures
            r@ == self@.tile_color,
    {
        self.tile_color.as_str()
    }

    pub fn canvas_id(&self) -> (r: &str)
        ensures
            r@ == self@.canvas_id,
    {
        self.canvas_id.as_str()
    }

    pub fn tiles(&self) -> (r: &Vec<Tile>)
        ensures
            r@ == self@.tiles,
    {
        &self.render_tiles_layer
    }

    pub fn entities(&self, layer: Layer) -> (r: &Vec<Image>)
        ensures
            r@ == self.layer(layer),
    {
        match layer {
            Layer::PrismLayer => &self.prism_layer,
            Layer::PersonLayer => &self.person_layer,
        }
    }

    /// Rectangle of the tile anchored at `screen_pos`.
    pub fn get_tile_rect(&self, screen_pos: &Pos) -> (r: TileRect)
        requires
            in_bounds(*screen_pos),
        ensures
            r == rect_of(*screen_pos, self@.tile_size),
    {
        tile_rect(screen_pos, self.tile_size)
    }

    /// Diamond outline of the tile anchored at `screen_pos`.
    pub fn get_tile_vertex(&self, screen_pos: &Pos) -> (r: TileVertex)
        requires
            in_bounds(*screen_pos),
        ensures
            r == vertex_of(*screen_pos, self@.tile_size),
    {
        tile_vertex(screen_pos, self.tile_size)
    }

    /// Screen point of map cell `tile_pos`.
    pub fn convert_map_to_screen(&self, tile_pos: &Pos) -> (r: Pos)
        requires
            projects(*tile_pos, half_of(self@.tile_size), self@.origin),
        ensures
            r == screen_of(*tile_pos, half_of(self@.tile_size), self@.origin),
    {
        let half = Size { width: self.tile_size.width / 2, height: self.tile_size.height / 2 };
        map_to_screen(tile_pos, half, &self.map_pos)
    }

    fn find_image(&self, name: &str) -> (r: Option<usize>)
        ensures
            match r {
                Some(i) => i < self.images@.len() && self.images@[i as int].0@ == name@,
                None => forall|i: int|
                    0 <= i < self.images@.len() ==> #[trigger] self.images@[i].0@ != name@,
            },
    {
        let key = name.to_owned();
        let mut i: usize = 0;
        while i < self.images.len()
            invariant
                0 <= i <= self.images@.len(),
                key@ == name@,
                forall|j: int| 0 <= j < i ==> #[trigger] self.images@[j].0@ != name@,
            decreases self.images@.len() - i,
        {
            if self.images[i].0 == key {
                return Some(i);
            }
            i = i + 1;
        }
        None
    }

    /// The loaded image of this name, if there is one.
    pub fn image(&self, name: &str) -> (r: Option<ImageInfo>)
        requires
            self.wf(),
        ensures
            r == (if self@.images.contains_key(name@) {
                Some(self@.images[name@])
            } else {
                None
            }),
    {
        proof {
            lemma_table_lookup(self.images@, name@);
        }
        match self.find_image(name) {
            Some(i) => Some(self.images[i].1),
            None => None,
        }
    }

    fn insert_image(&mut self, name: String, info: ImageInfo)
        requires
            old(self).wf(),
        ensures
            final(self).wf(),
            final(self)@ == (SceneModel {
                images: old(self)@.images.insert(name@, info),
                ..old(self)@
            }),
    {
        match self.find_image(name.as_str()) {
            Some(i) => {
                proof {
                    lemma_table_update(self.images@, i as int, (name, info));
                }
                self.images[i] = (name, info);
            },
            None => {
                let ghost s = self.images@;
                self.images.push((name, info));
                proof {
                    assert(self.images@.drop_last() =~= s);
                    assert forall|a: int, b: int| 0 <= a < b < self.images@.len() implies #[trigger] self.images@[a].0@
                        != #[trigger] self.images@[b].0@ by {
                        if b < s.len() {
                            assert(s[a].0@ != s[b].0@);
                        } else {
                            assert(s[a].0@ != name@);
                        }
                    }
                }
            },
        }
    }

    /// Enters the outcomes of an image preload into the image table: each
    /// image that loaded goes in under its name, and one that failed is left
    /// out without any other effect.
    pub fn load_images(&mut self, loaded: Vec<(String, Option<ImageInfo>)>)
        requires
            old(self).wf(),
        ensures
            final(self).wf(),
            final(self)@ == (SceneModel {
                images: with_loaded(old(self)@.images, loaded@),
                ..old(self)@
            }),
    {
        let n = loaded.len();
        let mut i: usize = 0;
        while i < n
            invariant
                n == loaded@.len(),
                0 <= i <= n,
                self.wf(),
                self@ == (SceneModel {
                    images: with_loaded(old(self)@.images, loaded@.take(i as int)),
                    ..old(self)@
                }),
            decreases n - i,
        {
            proof {
                assert(loaded@.take(i + 1).drop_last() =~= loaded@.take(i as int));
            }
            match loaded[i].1 {
                Some(info) => {
                    let name = loaded[i].0.clone();
                    self.insert_image(name, info);
                },
                None => {},
            }
            i = i + 1;
        }
        proof {
            assert(loaded@.take(n as int) =~= loaded@);
        }
    }

    /// Adds a sprite to the end of a layer; the layer is not sorted again.
    pub fn add_entity(&mut self, layer: Layer, entity: Image)
        requires
            old(self).wf(),
            in_bounds(entity.anchor()),
        ensures
            final(self).wf(),
            final(self).layer(layer) == old(self).layer(layer).push(entity),
            final(self)@ == (SceneModel {
                prism: final(self)@.prism,
                person: final(self)@.person,
                ..old(self)@
            }),
            layer == Layer::PrismLayer ==> final(self)@.person == old(self)@.person,
            layer == Layer::PersonLayer ==> final(self)@.prism == old(self)@.prism,
    {
        match layer {
            Layer::PrismLayer => self.prism_layer.push(entity),
            Layer::PersonLayer => self.person_layer.push(entity),
        }
    }

    /// Sorts one sprite layer by depth.
    pub fn update_layer(&mut self, layer: Layer)
        requires
            old(self).wf(),
        ensures
            final(self).wf(),
            final(self).layer(layer) == depth_sorted(old(self).layer(layer)),
            final(self)@ == (SceneModel {
                prism: final(self)@.prism,
                person: final(self)@.person,
                ..old(self)@
            }),
            layer == Layer::PrismLayer ==> final(self)@.person == old(self)@.person,
            layer == Layer::PersonLayer ==> final(self)@.prism == old(self)@.prism,
    {
        match layer {
            Layer::PrismLayer => {
                let ghost s = self.prism_layer@;
                sort_by_depth(&mut self.prism_layer);
                proof {
                    let r = self.prism_layer@;
                    assert forall|i: int| 0 <= i < r.len() implies in_bounds(
                        #[trigger] r[i].anchor_point(),
                    ) by {
                        lemma_sorted_members(s, r, i);
                    }
                }
            },
            Layer::PersonLayer => {
                let ghost s = self.person_layer@;
                sort_by_depth(&mut self.person_layer);
                proof {
                    let r = self.person_layer@;
                    assert forall|i: int| 0 <= i < r.len() implies in_bounds(
                        #[trigger] r[i].anchor_point(),
                    ) by {
                        lemma_sorted_members(s, r, i);
                    }
                }
            },
        }
    }

    /// Turns the highlight of the tile at `index` on or off. The tiles are
    /// not sorted again.
    pub fn set_highlight(&mut self, index: usize, on: bool)
        requires
            old(self).wf(),
            index < old(self)@.tiles.len(),
        ensures
            final(self).wf(),
            final(self)@ == (SceneModel { tiles: final(self)@.tiles, ..old(self)@ }),
            final(self)@.tiles.len() == old(self)@.tiles.len(),
            forall|k: int|
                0 <= k < old(self)@.tiles.len() && k != index ==> #[trigger] final(self)@.tiles[k]
                    == old(self)@.tiles[k],
            final(self)@.tiles[index as int].is_lit() == on,
            final(self)@.tiles[index as int].anchor() == old(self)@.tiles[index as int].anchor(),
            final(self)@.tiles[index as int].map_cell() == old(self)@.tiles[index as int].map_cell(),
    {
        let mut tile = self.render_tiles_layer[index];
        tile.set_highlight(on);
        self.render_tiles_layer.set(index, tile);
    }

    /// Sorts the tiles by depth.
    pub fn sort_tiles(&mut self)
        requires
            old(self).wf(),
        ensures
            final(self).wf(),
            final(self)@ == (SceneModel { tiles: depth_sorted(old(self)@.tiles), ..old(self)@ }),
    {
        let ghost s = self.render_tiles_layer@;
        sort_by_depth(&mut self.render_tiles_layer);
        proof {
            let r = self.render_tiles_layer@;
            assert forall|i: int| 0 <= i < r.len() implies in_bounds(
                #[trigger] r[i].anchor_point(),
            ) by {
                lemma_sorted_members(s, r, i);
            }
        }
    }

    /// Whether every cell of the grid projects to where tile geometry can be
    /// computed, which `add_tiles` needs.
    pub fn fits_grid(&self) -> (r: bool)
        ensures
            r == grid_fits(self@.map_size, half_of(self@.tile_size), self@.origin),
    {
        let ox = self.map_pos.x as i128;
        let oy = self.map_pos.y as i128;
        let hw = (self.tile_size.width / 2) as i128;
        let hh = (self.tile_size.height / 2) as i128;
        let w = self.map_size.width as i128;
        let h = self.map_size.height as i128;
        let limit = COORD_LIMIT as i128;
        assert(0 <= hw * w <= 0xffff_ffff * 0xffff_ffff) by (nonlinear_arith)
            requires
                0 <= hw <= 0xffff_ffff,
                0 <= w <= 0xffff_ffff,
        ;
        assert(0 <= hw * h <= 0xffff_ffff * 0xffff_ffff) by (nonlinear_arith)
            requires
                0 <= hw <= 0xffff_ffff,
                0 <= h <= 0xffff_ffff,
        ;
        assert(0 <= hh * (w + h) <= 0xffff_ffff * 0x1_ffff_fffe) by (nonlinear_arith)
            requires
                0 <= hh <= 0xffff_ffff,
                0 <= w + h <= 0x1_ffff_fffe,
        ;
        -limit <= ox && ox <= limit && -limit <= oy && oy <= limit && ox + hw * w <= limit && ox
            - hw * h >= -limit && oy + hh * (w + h) <= limit
    }

    fn add_tile(&mut self, map_pos: &Pos)
        requires
            old(self).wf(),
            projects(*map_pos, half_of(old(self)@.tile_size), old(self)@.origin),
            in_bounds(screen_of(*map_pos, half_of(old(self)@.tile_size), old(self)@.origin)),
        ensures
            final(self).wf(),
            final(self)@ == (SceneModel {
                tiles: old(self)@.tiles.push(
                    Tile::placed(
                        screen_of(*map_pos, half_of(old(self)@.tile_size), old(self)@.origin),
                        *map_pos,
                    ),
                ),
                ..old(self)@
            }),
    {
        let screen_pos = self.convert_map_to_screen(map_pos);
        let tile = Tile::new(screen_pos, *map_pos);
        self.render_tiles_layer.push(tile);
    }

    /// Adds one tile for each cell of the map grid, column by column, and
    /// sorts the tiles by depth. Tiles already there stay: a second call
    /// adds the grid again.
    pub fn add_tiles(&mut self)
        requires
            old(self).wf(),
            grid_fits(old(self)@.map_size, half_of(old(self)@.tile_size), old(self)@.origin),
        ensures
            final(self).wf(),
            final(self)@ == (SceneModel {
                tiles: depth_sorted(
                    old(self)@.tiles + grid_tiles(
                        old(self)@.map_size.width as nat,
                        old(self)@.map_size.height as nat,
                        half_of(old(self)@.tile_size),
                        old(self)@.origin,
                    ),
                ),
                ..old(self)@
            }),
    {
        let ghost m0 = self@;
        let ghost half = half_of(m0.tile_size);
        let w = self.map_size.width;
        let h = self.map_size.height;
        let mut x: u32 = 0;
        while x < w
            invariant
                self.wf(),
                0 <= x <= w,
                w == m0.map_size.width,
                h == m0.map_size.height,
                half == half_of(m0.tile_size),
                grid_fits(m0.map_size, half, m0.origin),
                self@ == (SceneModel {
                    tiles: m0.tiles + grid_tiles(x as nat, h as nat, half, m0.origin),
                    ..m0
                }),
            decreases w - x,
        {
            let mut y: u32 = 0;
            while y < h
                invariant
                    self.wf(),
                    0 <= x < w,
                    0 <= y <= h,
                    w == m0.map_size.width,
                    h == m0.map_size.height,
                    half == half_of(m0.tile_size),
                    grid_fits(m0.map_size, half, m0.origin),
                    self@ == (SceneModel {
                        tiles: m0.tiles + grid_tiles(x as nat, h as nat, half, m0.origin)
                            + grid_column(x as int, h as nat, half, m0.origin).take(y as int),
                        ..m0
                    }),
                decreases h - y,
            {
                let cell = Pos { x: x as i64, y: y as i64 };
                proof {
                    lemma_grid_cell_fits(m0.map_size, half, m0.origin, cell);
                    let col = grid_column(x as int, h as nat, half, m0.origin);
                    assert(col.take(y + 1) =~= col.take(y as int).push(cell_tile(x as int, y as int, half, m0.origin)));
                }
                self.add_tile(&cell);
                proof {
                    let col = grid_column(x as int, h as nat, half, m0.origin);
                    let base = m0.tiles + grid_tiles(x as nat, h as nat, half, m0.origin);
                    assert((base + col.take(y as int)).push(cell_tile(x as int, y as int, half, m0.origin))
                        =~= base + col.take(y + 1));
                }
                y = y + 1;
            }
            proof {
                let col = grid_column(x as int, h as nat, half, m0.origin);
                assert(col.take(h as int) =~= col);
                assert(grid_tiles((x + 1) as nat, h as nat, half, m0.origin) == grid_tiles(x as nat, h as nat, half, m0.origin) + col);
                assert(m0.tiles + grid_tiles(x as nat, h as nat, half, m0.origin) + col =~= m0.tiles
                    + grid_tiles((x + 1) as nat, h as nat, half, m0.origin));
            }
            x = x + 1;
        }
        self.sort_tiles();
    }

    fn render_layer<E: Entity>(&self, layer: &Vec<E>, out: &mut Vec<Result<PaintCall, Error>>)
        requires
            self.wf(),
            forall|i: int| 0 <= i < layer@.len() ==> in_bounds(#[trigger] layer@[i].anchor()),
        ensures
            final(out)@.map_values(|c: Result<PaintCall, Error>| outcome_view(c)) == old(
                out,
            )@.map_values(|c: Result<PaintCall, Error>| outcome_view(c)) + layer@.map_values(
                |e: E| e.paint(self),
            ),
    {
        let ghost base = out@.map_values(|c: Result<PaintCall, Error>| outcome_view(c));
        let mut i: usize = 0;
        while i < layer.len()
            invariant
                self.wf(),
                0 <= i <= layer@.len(),
                forall|k: int| 0 <= k < layer@.len() ==> in_bounds(#[trigger] layer@[k].anchor()),
                out@.map_values(|c: Result<PaintCall, Error>| outcome_view(c)) == base
                    + layer@.take(i as int).map_values(|e: E| e.paint(self)),
            decreases layer@.len() - i,
        {
            let ghost before = out@;
            let call = layer[i].render(self);
            out.push(call);
            proof {
                assert(out@.map_values(|c: Result<PaintCall, Error>| outcome_view(c)) =~= before.map_values(
                    |c: Result<PaintCall, Error>| outcome_view(c),
                ).push(outcome_view(call)));
                assert(layer@.take(i + 1).map_values(|e: E| e.paint(self)) =~= layer@.take(
                    i as int,
                ).map_values(|e: E| e.paint(self)).push(layer@[i as int].paint(self)));
            }
            i = i + 1;
        }
        proof {
            assert(layer@.take(layer@.len() as int) =~= layer@);
        }
    }

    /// Paints one frame: see `frame`.
    pub fn render(&self) -> (r: Vec<Result<PaintCall, Error>>)
        requires
            self.wf(),
        ensures
            r@.map_values(|c: Result<PaintCall, Error>| outcome_view(c)) == self.frame(),
    {
        let mut out: Vec<Result<PaintCall, Error>> = Vec::new();
        out.push(Ok(PaintCall::Clear(self.screen_size)));
        proof {
            assert(out@.map_values(|c: Result<PaintCall, Error>| outcome_view(c)) =~= seq![
                Ok(PaintModel::Clear(self@.screen_size)),
            ]);
            assert forall|i: int| 0 <= i < self.render_tiles_layer@.len() implies in_bounds(
                #[trigger] self.render_tiles_layer@[i].anchor(),
            ) by {
                assert(in_bounds(self.render_tiles_layer@[i].anchor_point()));
            }
        }
        self.render_layer(&self.render_tiles_layer, &mut out);
        let ghost after_tiles = out@.map_values(|c: Result<PaintCall, Error>| outcome_view(c));
        if self.painted_layers >= 1 {
            proof {
                assert forall|i: int| 0 <= i < self.prism_layer@.len() implies in_bounds(
                    #[trigger] self.prism_layer@[i].anchor(),
                ) by {
                    assert(in_bounds(self.prism_layer@[i].anchor_point()));
                }
            }
            self.render_layer(&self.prism_layer, &mut out);
        } else {
            assert(after_tiles + Seq::<Result<PaintModel, ErrorModel>>::empty() =~= after_tiles);
        }
        let ghost after_prism = out@.map_values(|c: Result<PaintCall, Error>| outcome_view(c));
        if self.painted_layers >= 2 {
            proof {
                assert forall|i: int| 0 <= i < self.person_layer@.len() implies in_bounds(
                    #[trigger] self.person_layer@[i].anchor(),
                ) by {
                    assert(in_bounds(self.person_layer@[i].anchor_point()));
                }
            }
            self.render_layer(&self.person_layer, &mut out);
        } else {
            assert(after_prism + Seq::<Result<PaintModel, ErrorModel>>::empty() =~= after_prism);
        }
        out
    }

    /// Blits the named image onto the tile anchored at `screen_pos`.
    pub fn render_image(&self, basename: &str, screen_pos: &Pos) -> (r: Result<PaintCall, Error>)
        requires
            self.wf(),
            in_bounds(*screen_pos),
        ensures
            outcome_view(r) == self.image_paint(basename@, *screen_pos),
    {
        match self.image(basename) {
            None => Err(Error::ImageNotFound(basename.to_owned())),
            Some(info) => {
                let rect = self.get_tile_rect(screen_pos);
                let dy = rect.bottom_left.y - info.natural_size.height as i64;
                Ok(
                    PaintCall::Image {
                        name: basename.to_owned(),
                        at: Pos { x: rect.bottom_left.x, y: dy },
                    },
                )
            },
        }
    }

    /// Blits the named image onto the tile anchored at `screen_pos`, scaled
    /// with its aspect ratio kept to the largest size that fits inside
    /// `to_size` (see `scaled_size`), standing on the tile's bottom-left
    /// corner. An image without pixels cannot be scaled and is refused.
    pub fn render_image_scaled(&self, basename: &str, screen_pos: &Pos, to_size: &Size) -> (r:
        Result<PaintCall, Error>)
        requires
            self.wf(),
            in_bounds(*screen_pos),
        ensures
            outcome_view(r) == self.scaled_paint(basename@, *screen_pos, *to_size),
    {
        match self.image(basename) {
            None => Err(Error::ImageNotFound(basename.to_owned())),
            Some(info) => {
                if info.size.width == 0 || info.size.height == 0 {
                    return Err(Error::RenderImage(basename.to_owned()));
                }
                let w = info.size.width as u64;
                let h = info.size.height as u64;
                let tw = to_size.width as u64;
                let th = to_size.height as u64;
                assert(w * th <= 0xffff_ffff * 0xffff_ffff) by (nonlinear_arith)
                    requires
                        w <= 0xffff_ffff,
                        th <= 0xffff_ffff,
                ;
                assert(h * tw <= 0xffff_ffff * 0xffff_ffff) by (nonlinear_arith)
                    requires
                        h <= 0xffff_ffff,
                        tw <= 0xffff_ffff,
                ;
                let fit_w = w * th / h;
                let fit_h = h * tw / w;
                let target = Size {
                    width: if tw <= fit_w {
                        to_size.width
                    } else {
                        fit_w as u32
                    },
                    height: if th <= fit_h {
                        to_size.height
                    } else {
                        fit_h as u32
                    },
                };
                let rect = self.get_tile_rect(screen_pos);
                Ok(
                    PaintCall::ImageScaled {
                        name: basename.to_owned(),
                        source: info.size,
                        at: Pos { x: rect.bottom_left.x, y: rect.bottom_left.y - target.height as i64 },
                        target,
                    },
                )
            },
        }
    }
}

/// Sorting keeps every item: each item of the result was one of the input.
proof fn lemma_sorted_members<T>(s: Seq<T>, r: Seq<T>, i: int)
    requires
        r.to_multiset() == s.to_multiset(),
        0 <= i < r.len(),
    ensures
        exists|k: int| 0 <= k < s.len() && s[k] == r[i],
{
    broadcast use vstd::seq_lib::to_multiset_contains;

    assert(r.contains(r[i]));
    assert(s.to_multiset().count(r[i]) > 0);
}

} // verus!
