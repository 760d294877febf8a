use vstd::prelude::*;

use crate::seq_lemmas::{div_i64, lemma_filter_first, trunc_div};
use crate::strings::str_equals;
use crate::xy_range_iterator::XYRangeIterator;

verus! {

broadcast use vstd::seq_lib::group_seq_properties;

/// What fills a cell of a level's collision grid.
#[derive(Debug, Clone, Copy, PartialEq, Eq, Structural)]
pub enum ColliderType {
    Empty,
    Solid,
}

/// Why a level could not be read.
#[derive(Debug, Clone, Copy, PartialEq, Eq, Structural)]
pub enum LevelError {
    /// The collision layer holds a value other than 0 (empty) or 1 (solid).
    UnknownIntGridValue(i64),
    /// The level has no collision layer.
    MissingColliders,
    /// The level has no foreground tiles (which come with the collision layer).
    MissingTiles,
    /// The level has no background tile layer.
    MissingBackgroundTiles,
    /// The level has no entity tile layer.
    MissingEntityTiles,
    /// A tile of a tile layer does not land on the layer's grid (or the
    /// layer's size makes no sense).
    TileOutsideLayer,
}

/// The cell kind that the collision-layer value `value` stands for.
pub open spec fn collider_type_spec(value: i64) -> Option<ColliderType> {
    if value == 0 {
        Some(ColliderType::Empty)
    } else if value == 1 {
        Some(ColliderType::Solid)
    } else {
        None
    }
}

impl ColliderType {
    /// The cell kind of a collision-layer value: 0 is empty, 1 is solid.
    pub fn try_from(value: i64) -> (result: Result<ColliderType, LevelError>)
        ensures
            match collider_type_spec(value) {
                Some(t) => result == Ok::<ColliderType, LevelError>(t),
                None => result == Err::<ColliderType, LevelError>(
                    LevelError::UnknownIntGridValue(value),
                ),
            },
    {
        if value == 0 {
            Ok(ColliderType::Empty)
        } else if value == 1 {
            Ok(ColliderType::Solid)
        } else {
            Err(LevelError::UnknownIntGridValue(value))
        }
    }

    /// The cell kinds of a whole collision layer, or the error for its first
    /// unknown value.
    pub fn from_vec(numbers: &Vec<i64>) -> (result: Result<Vec<ColliderType>, LevelError>)
        ensures
            match result {
                Ok(types) => {
                    &&& types@.len() == numbers@.len()
                    &&& forall|i: int|
                        0 <= i < numbers@.len() ==> collider_type_spec(#[trigger] numbers@[i])
                            == Some(types@[i])
                },
                Err(e) => exists|k: int|
                    0 <= k < numbers@.len() && collider_type_spec(#[trigger] numbers@[k]) is None
                        && e == LevelError::UnknownIntGridValue(numbers@[k]) && forall|i: int|
                        0 <= i < k ==> collider_type_spec(#[trigger] numbers@[i]) is Some,
            },
    {
        let mut result: Vec<ColliderType> = Vec::with_capacity(numbers.len());
        for k in 0..numbers.len()
            invariant
                result@.len() == k,
                forall|i: int| 0 <= i < k ==> collider_type_spec(#[trigger] numbers@[i]) == Some(result@[i]),
        {
            match ColliderType::try_from(numbers[k]) {
                Ok(t) => {
                    result.push(t);
                },
                Err(e) => {
                    assert(forall|i: int| 0 <= i < k ==> collider_type_spec(#[trigger] numbers@[i]) is Some);
                    return Err(e);
                },
            }
        }
        Ok(result)
    }
}

/// The layers of a level file, by their identifiers.
#[derive(Debug, Clone, Copy, PartialEq, Eq, Structural)]
pub enum LayerKind {
    /// "IntGrid": the collision grid, with its automatic foreground tiles.
    IntGrid,
    /// "Entities": the level's entities.
    Entities,
    /// "BackgroundTiles": the tiles drawn behind everything.
    BackgroundTiles,
    /// "EntityTiles": the tiles that entities are drawn with.
    EntityTiles,
    /// Any other layer, which is passed over.
    Unknown,
}

/// The kind of the layer with identifier `identifier`.
pub open spec fn layer_kind_spec(identifier: Seq<char>) -> LayerKind {
    if identifier == "IntGrid"@ {
        LayerKind::IntGrid
    } else if identifier == "Entities"@ {
        LayerKind::Entities
    } else if identifier == "BackgroundTiles"@ {
        LayerKind::BackgroundTiles
    } else if identifier == "EntityTiles"@ {
        LayerKind::EntityTiles
    } else {
        LayerKind::Unknown
    }
}

/// The kind of the layer with identifier `identifier`.
pub fn layer_kind(identifier: &str) -> (result: LayerKind)
    ensures
        result == layer_kind_spec(identifier@),
{
    if str_equals(identifier, "IntGrid") {
        LayerKind::IntGrid
    } else if str_equals(identifier, "Entities") {
        LayerKind::Entities
    } else if str_equals(identifier, "BackgroundTiles") {
        LayerKind::BackgroundTiles
    } else if str_equals(identifier, "EntityTiles") {
        LayerKind::EntityTiles
    } else {
        LayerKind::Unknown
    }
}

/// The kinds of entities that a level file can hold, by their identifiers.
#[derive(Debug, Clone, Copy, PartialEq, Eq, Structural)]
pub enum EntityTag {
    PlayerStart,
    Text,
    FlyingEye,
    Mushroom,
    MovingPlatform,
    Crate,
    FloorSwitch,
    /// Any other entity, which is passed over.
    Unknown,
}

/// The kind of the entity with identifier `identifier`.
pub open spec fn entity_tag_spec(identifier: Seq<char>) -> EntityTag {
    if identifier == "PlayerStart"@ {
        EntityTag::PlayerStart
    } else if identifier == "Text"@ {
        EntityTag::Text
    } else if identifier == "FlyingEye"@ {
        EntityTag::FlyingEye
    } else if identifier == "Mushroom"@ {
        EntityTag::Mushroom
    } else if identifier == "MovingPlatform"@ {
        EntityTag::MovingPlatform
    } else if identifier == "Crate"@ {
        EntityTag::Crate
    } else if identifier == "FloorSwitch"@ {
        EntityTag::FloorSwitch
    } else {
        EntityTag::Unknown
    }
}

/// The kind of the entity with identifier `identifier`.
pub fn entity_tag(identifier: &str) -> (result: EntityTag)
    ensures
        result == entity_tag_spec(identifier@),
{
    if str_equals(identifier, "PlayerStart") {
        EntityTag::PlayerStart
    } else if str_equals(identifier, "Text") {
        EntityTag::Text
    } else if str_equals(identifier, "FlyingEye") {
        EntityTag::FlyingEye
    } else if str_equals(identifier, "Mushroom") {
        EntityTag::Mushroom
    } else if str_equals(identifier, "MovingPlatform") {
        EntityTag::MovingPlatform
    } else if str_equals(identifier, "Crate") {
        EntityTag::Crate
    } else if str_equals(identifier, "FloorSwitch") {
        EntityTag::FloorSwitch
    } else {
        EntityTag::Unknown
    }
}

/// A tile of a tile layer: the top-left corner of its picture in the tileset,
/// in pixels.
#[derive(Debug, Clone, Copy, PartialEq, Eq, Structural)]
pub struct Tile {
    pub tileset_x: i64,
    pub tileset_y: i64,
}

/// A tile placed on a tile layer of a level file.
pub struct TileInstance {
    /// Whether the tile is mirrored: bit 0 for X, bit 1 for Y.
    pub flip_bits: i64,
    /// Pixel coordinates `[x, y]` of the tile in the layer.
    pub layer_px: Vec<i64>,
    /// Pixel coordinates `[x, y]` of the tile's picture in the tileset.
    pub tileset_px: Vec<i64>,
    /// The tile's id in its tileset.
    pub t: i64,
}

/// The number of cells of a layer `c_wid` cells wide and `c_hei` cells high.
pub open spec fn layer_cell_count(c_wid: i64, c_hei: i64) -> int {
    if c_wid == 0 || c_hei == 0 {
        0
    } else {
        c_wid * c_hei
    }
}

/// The index, in row-major order, of the cell that holds `tile` on a layer
/// `c_wid` cells wide with cells `grid_size` pixels wide.
pub open spec fn tile_cell_index(tile: TileInstance, c_wid: i64, grid_size: i64) -> int {
    trunc_div(tile.layer_px@[1] as int, grid_size as int) * c_wid + trunc_div(
        tile.layer_px@[0] as int,
        grid_size as int,
    )
}

/// Whether `tile` can be placed on a layer of `cells` cells that is `c_wid`
/// cells wide with cells `grid_size` pixels wide: it has both coordinates, its
/// cell's index is computed without overflow, and that cell is on the layer.
pub open spec fn tile_fits(tile: TileInstance, c_wid: i64, grid_size: i64, cells: int) -> bool {
    &&& tile.layer_px@.len() >= 2
    &&& tile.tileset_px@.len() >= 2
    &&& !(tile.layer_px@[0] == i64::MIN && grid_size == -1)
    &&& !(tile.layer_px@[1] == i64::MIN && grid_size == -1)
    &&& i64::MIN <= trunc_div(tile.layer_px@[1] as int, grid_size as int) * c_wid <= i64::MAX
    &&& 0 <= tile_cell_index(tile, c_wid, grid_size) < cells
    &&& tile_cell_index(tile, c_wid, grid_size) <= i64::MAX
}

/// The tile of each cell of a layer of `cells` cells once the tiles of
/// `tiles` are placed in order: a later tile replaces an earlier one.
pub open spec fn layer_cells(tiles: Seq<TileInstance>, c_wid: i64, grid_size: i64, cells: nat) -> Seq<
    Option<Tile>,
>
    decreases tiles.len(),
{
    if tiles.len() == 0 {
        Seq::new(cells, |i: int| None)
    } else {
        let tile = tiles.last();
        layer_cells(tiles.drop_last(), c_wid, grid_size, cells).update(
            tile_cell_index(tile, c_wid, grid_size),
            Some(Tile { tileset_x: tile.tileset_px@[0], tileset_y: tile.tileset_px@[1] }),
        )
    }
}

/// Whether the tiles of `layer_tiles` can be placed on a tile layer `c_wid`
/// cells wide and `c_hei` cells high with cells `grid_size` pixels wide: the
/// layer's size makes sense and fits in memory, and every tile lands on it.
pub open spec fn tile_layer_fits_spec(c_wid: i64, c_hei: i64, grid_size: i64, layer_tiles: Seq<TileInstance>) -> bool {
    &&& grid_size != 0
    &&& (c_wid >= 0 && c_hei >= 0) || c_wid == 0 || c_hei == 0
    &&& layer_cell_count(c_wid, c_hei) <= usize::MAX
    &&& forall|j: int|
        0 <= j < layer_tiles.len() ==> tile_fits(
            #[trigger] layer_tiles[j],
            c_wid,
            grid_size,
            layer_cell_count(c_wid, c_hei),
        )
}

/// Whether a tile layer fits depends only on the layer's size, its cell size
/// and where each tile lies on the layer and in the tileset: two tile lists
/// that differ only in how their tiles are mirrored (`flip_bits`) or in their
/// tile ids (`t`) fit alike.
pub proof fn tile_layer_fit_ignores_mirroring_and_ids(
    c_wid: i64,
    c_hei: i64,
    grid_size: i64,
    a: Seq<TileInstance>,
    b: Seq<TileInstance>,
)
    requires
        a.len() == b.len(),
        forall|j: int|
            0 <= j < a.len() ==> (#[trigger] a[j]).layer_px@ == b[j].layer_px@ && a[j].tileset_px@
                == b[j].tileset_px@,
    ensures
        tile_layer_fits_spec(c_wid, c_hei, grid_size, a) == tile_layer_fits_spec(
            c_wid,
            c_hei,
            grid_size,
            b,
        ),
{
    let cells = layer_cell_count(c_wid, c_hei);
    if tile_layer_fits_spec(c_wid, c_hei, grid_size, a) {
        assert forall|j: int| 0 <= j < b.len() implies tile_fits(
            #[trigger] b[j],
            c_wid,
            grid_size,
            cells,
        ) by {
            assert(tile_fits(a[j], c_wid, grid_size, cells));
        }
    }
    if tile_layer_fits_spec(c_wid, c_hei, grid_size, b) {
        assert forall|j: int| 0 <= j < a.len() implies tile_fits(
            #[trigger] a[j],
            c_wid,
            grid_size,
            cells,
        ) by {
            assert(tile_fits(b[j], c_wid, grid_size, cells));
        }
    }
}

/// A layer with cells of positive size takes every tile that has both of its
/// coordinates and lies on the layer, whatever else is written of it.
pub proof fn tiles_on_the_layer_fit(c_wid: i64, c_hei: i64, grid_size: i64, tiles: Seq<TileInstance>)
    requires
        grid_size > 0,
        c_wid >= 0,
        c_hei >= 0,
        c_wid * c_hei <= usize::MAX,
        c_wid * c_hei <= i64::MAX,
        forall|j: int|
            0 <= j < tiles.len() ==> {
                &&& (#[trigger] tiles[j]).layer_px@.len() >= 2
                &&& tiles[j].tileset_px@.len() >= 2
                &&& 0 <= tiles[j].layer_px@[0] < c_wid * grid_size
                &&& 0 <= tiles[j].layer_px@[1] < c_hei * grid_size
            },
    ensures
        tile_layer_fits_spec(c_wid, c_hei, grid_size, tiles),
{
    assert forall|j: int| 0 <= j < tiles.len() implies tile_fits(
        #[trigger] tiles[j],
        c_wid,
        grid_size,
        layer_cell_count(c_wid, c_hei),
    ) by {
        let x = tiles[j].layer_px@[0] as int;
        let y = tiles[j].layer_px@[1] as int;
        let g = grid_size as int;
        let w = c_wid as int;
        let h = c_hei as int;
        assert(trunc_div(x, g) == x / g);
        assert(trunc_div(y, g) == y / g);
        assert(0 <= x / g < w) by (nonlinear_arith)
            requires
                0 <= x < w * g,
                g > 0,
        ;
        assert(0 <= y / g < h) by (nonlinear_arith)
            requires
                0 <= y < h * g,
                g > 0,
        ;
        assert(0 <= (y / g) * w + x / g < w * h) by (nonlinear_arith)
            requires
                0 <= x / g < w,
                0 <= y / g < h,
        ;
        assert(0 <= (y / g) * w <= w * h) by (nonlinear_arith)
            requires
                0 <= y / g < h,
                w >= 0,
        ;
        assert(w > 0 && h > 0) by (nonlinear_arith)
            requires
                0 <= x < w * g,
                0 <= y < h * g,
                g > 0,
                w >= 0,
                h >= 0,
        ;
        assert(layer_cell_count(c_wid, c_hei) == w * h);
        assert(tile_cell_index(tiles[j], c_wid, grid_size) == (y / g) * w + x / g);
    }
}

/// Whether `load_tile_layer` can place the tiles of `layer_tiles` on a layer
/// `c_wid` cells wide and `c_hei` cells high with cells `grid_size` pixels
/// wide.
pub fn tile_layer_fits(c_wid: i64, c_hei: i64, grid_size: i64, layer_tiles: &Vec<TileInstance>) -> (result: bool)
    ensures
        result == tile_layer_fits_spec(c_wid, c_hei, grid_size, layer_tiles@),
{
    if grid_size == 0 {
        return false;
    }
    if !((c_wid >= 0 && c_hei >= 0) || c_wid == 0 || c_hei == 0) {
        return false;
    }
    let cells: i128 = if c_wid == 0 || c_hei == 0 {
        0
    } else {
        assert(-0x8000_0000_0000_0000_0000_0000_0000_0000 < (c_wid as int) * (c_hei as int) < 0x8000_0000_0000_0000_0000_0000_0000_0000) by (nonlinear_arith)
            requires
                i64::MIN <= c_wid <= i64::MAX,
                i64::MIN <= c_hei <= i64::MAX,
        ;
        (c_wid as i128) * (c_hei as i128)
    };
    assert(cells == layer_cell_count(c_wid, c_hei));
    if cells > usize::MAX as i128 {
        return false;
    }
    for j in 0..layer_tiles.len()
        invariant
            grid_size != 0,
            cells == layer_cell_count(c_wid, c_hei),
            forall|k: int|
                0 <= k < j ==> tile_fits(#[trigger] layer_tiles@[k], c_wid, grid_size, cells as int),
    {
        let tile = &layer_tiles[j];
        if tile.layer_px.len() < 2 || tile.tileset_px.len() < 2 {
            return false;
        }
        let x = tile.layer_px[0];
        let y = tile.layer_px[1];
        if (x == i64::MIN || y == i64::MIN) && grid_size == -1 {
            return false;
        }
        let grid_x = div_i64(x, grid_size);
        let grid_y = div_i64(y, grid_size);
        assert(-0x8000_0000_0000_0000_0000_0000_0000_0000 < (grid_y as int) * (c_wid as int) < 0x8000_0000_0000_0000_0000_0000_0000_0000) by (nonlinear_arith)
            requires
                i64::MIN <= grid_y <= i64::MAX,
                i64::MIN <= c_wid <= i64::MAX,
        ;
        let row: i128 = (grid_y as i128) * (c_wid as i128);
        if row < i64::MIN as i128 || row > i64::MAX as i128 {
            return false;
        }
        let index: i128 = row + grid_x as i128;
        if index < 0 || index >= cells || index > i64::MAX as i128 {
            return false;
        }
        assert(tile_fits(layer_tiles@[j as int], c_wid, grid_size, cells as int));
    }
    true
}

/// Places the tiles of a tile layer `c_wid` cells wide and `c_hei` cells high,
/// with cells `grid_size` pixels wide, on its grid of cells, in row-major
/// order.
pub fn load_tile_layer(c_wid: i64, c_hei: i64, grid_size: i64, layer_tiles: &Vec<TileInstance>) -> (result: Vec<Option<Tile>>)
    requires
        grid_size != 0,
        (c_wid >= 0 && c_hei >= 0) || c_wid == 0 || c_hei == 0,
        layer_cell_count(c_wid, c_hei) <= usize::MAX,
        forall|j: int|
            0 <= j < layer_tiles@.len() ==> tile_fits(
                #[trigger] layer_tiles@[j],
                c_wid,
                grid_size,
                layer_cell_count(c_wid, c_hei),
            ),
    ensures
        result@ == layer_cells(layer_tiles@, c_wid, grid_size, layer_cell_count(c_wid, c_hei) as nat),
{
    let cells: usize = if c_wid == 0 || c_hei == 0 {
        0
    } else {
        assert(c_wid <= c_wid * c_hei && c_hei <= c_wid * c_hei) by (nonlinear_arith)
            requires
                c_wid >= 1,
                c_hei >= 1,
        ;
        let w = c_wid as usize;
        let h = c_hei as usize;
        assert((w as int) * (h as int) == c_wid * c_hei) by (nonlinear_arith)
            requires
                w as int == c_wid as int,
                h as int == c_hei as int,
        ;
        w * h
    };
    assert(cells == layer_cell_count(c_wid, c_hei));
    let mut tiles: Vec<Option<Tile>> = Vec::with_capacity(cells);
    for i in 0..cells
        invariant
            tiles@.len() == i,
            forall|k: int| 0 <= k < i ==> tiles@[k] is None,
    {
        tiles.push(None);
    }
    assert(layer_tiles@.take(0) =~= Seq::<TileInstance>::empty());
    assert(tiles@ =~= layer_cells(layer_tiles@.take(0), c_wid, grid_size, cells as nat));
    for j in 0..layer_tiles.len()
        invariant
            cells == layer_cell_count(c_wid, c_hei),
            tiles@.len() == cells,
            grid_size != 0,
            forall|j: int|
                0 <= j < layer_tiles@.len() ==> tile_fits(
                    #[trigger] layer_tiles@[j],
                    c_wid,
                    grid_size,
                    cells as int,
                ),
            tiles@ == layer_cells(layer_tiles@.take(j as int), c_wid, grid_size, cells as nat),
    {
        let grid_tile = &layer_tiles[j];
        assert(tile_fits(layer_tiles@[j as int], c_wid, grid_size, cells as int));
        assert(grid_tile.layer_px@ == layer_tiles@[j as int].layer_px@);
        let grid_x = div_i64(grid_tile.layer_px[0], grid_size);
        let grid_y = div_i64(grid_tile.layer_px[1], grid_size);
        let tile = Tile { tileset_x: grid_tile.tileset_px[0], tileset_y: grid_tile.tileset_px[1] };
        let index = (grid_y * c_wid + grid_x) as usize;
        assert(layer_tiles@.take(j + 1).drop_last() =~= layer_tiles@.take(j as int));
        tiles.set(index, Some(tile));
    }
    assert(layer_tiles@.take(layer_tiles@.len() as int) =~= layer_tiles@);
    tiles
}

/// The layers of a level as they are found in its file, each until found.
pub struct LevelLayers {
    pub colliders: Option<Vec<ColliderType>>,
    pub tiles: Option<Vec<Option<Tile>>>,
    pub background_tiles: Option<Vec<Option<Tile>>>,
    pub entity_tiles: Option<Vec<Option<Tile>>>,
}

/// The layers of a whole level: the collision grid, the foreground tiles, the
/// background tiles and the entity tiles.
pub struct CompleteLayers {
    pub colliders: Vec<ColliderType>,
    pub tiles: Vec<Option<Tile>>,
    pub background_tiles: Vec<Option<Tile>>,
    pub entity_tiles: Vec<Option<Tile>>,
}

impl LevelLayers {
    /// No layer found yet.
    pub fn new() -> (result: Self)
        ensures
            result.colliders is None,
            result.tiles is None,
            result.background_tiles is None,
            result.entity_tiles is None,
    {
        LevelLayers { colliders: None, tiles: None, background_tiles: None, entity_tiles: None }
    }

    /// Takes in a layer of kind `kind` of a level file, `c_wid` cells wide and
    /// `c_hei` cells high with cells `grid_size` pixels wide: the collision
    /// layer gives the collision grid (read from `int_grid_csv`) and the
    /// foreground tiles (its `auto_layer_tiles`); the background and entity
    /// tile layers give their `grid_tiles`; other layers give nothing. A layer
    /// replaces an earlier one of its kind. A collision layer with a value
    /// other than 0 or 1 gives the error for its first such value; after that,
    /// tiles that do not land on the layer give `TileOutsideLayer`. An error
    /// changes nothing.
    pub fn add_layer(
        &mut self,
        kind: LayerKind,
        c_wid: i64,
        c_hei: i64,
        grid_size: i64,
        int_grid_csv: &Vec<i64>,
        auto_layer_tiles: &Vec<TileInstance>,
        grid_tiles: &Vec<TileInstance>,
    ) -> (result: Result<(), LevelError>)
        ensures
            result is Err ==> *final(self) == *old(self),
            kind == LayerKind::IntGrid ==> match result {
                Ok(_) => {
                    &&& final(self).colliders matches Some(types) && types@.len()
                        == int_grid_csv@.len() && forall|i: int|
                        0 <= i < int_grid_csv@.len() ==> collider_type_spec(
                            #[trigger] int_grid_csv@[i],
                        ) == Some(types@[i])
                    &&& tile_layer_fits_spec(c_wid, c_hei, grid_size, auto_layer_tiles@)
                    &&& final(self).tiles matches Some(tiles) && tiles@ == layer_cells(
                        auto_layer_tiles@,
                        c_wid,
                        grid_size,
                        layer_cell_count(c_wid, c_hei) as nat,
                    )
                    &&& final(self).background_tiles == old(self).background_tiles
                    &&& final(self).entity_tiles == old(self).entity_tiles
                },
                Err(LevelError::TileOutsideLayer) => {
                    &&& forall|i: int|
                        0 <= i < int_grid_csv@.len() ==> collider_type_spec(
                            #[trigger] int_grid_csv@[i],
                        ) is Some
                    &&& !tile_layer_fits_spec(c_wid, c_hei, grid_size, auto_layer_tiles@)
                },
                Err(e) => exists|k: int|
                    0 <= k < int_grid_csv@.len() && collider_type_spec(#[trigger] int_grid_csv@[k])
                        is None && e == LevelError::UnknownIntGridValue(int_grid_csv@[k])
                        && forall|i: int|
                        0 <= i < k ==> collider_type_spec(#[trigger] int_grid_csv@[i]) is Some,
            },
            kind == LayerKind::BackgroundTiles || kind == LayerKind::EntityTiles ==> (result
                is Ok <==> tile_layer_fits_spec(c_wid, c_hei, grid_size, grid_tiles@)) && (result
                is Err ==> result == Err::<(), LevelError>(LevelError::TileOutsideLayer)),
            kind == LayerKind::BackgroundTiles && result is Ok ==> {
                &&& final(self).background_tiles matches Some(tiles) && tiles@ == layer_cells(
                    grid_tiles@,
                    c_wid,
                    grid_size,
                    layer_cell_count(c_wid, c_hei) as nat,
                )
                &&& final(self).colliders == old(self).colliders
                &&& final(self).tiles == old(self).tiles
                &&& final(self).entity_tiles == old(self).entity_tiles
            },
            kind == LayerKind::EntityTiles && result is Ok ==> {
                &&& final(self).entity_tiles matches Some(tiles) && tiles@ == layer_cells(
                    grid_tiles@,
                    c_wid,
                    grid_size,
                    layer_cell_count(c_wid, c_hei) as nat,
                )
                &&& final(self).colliders == old(self).colliders
                &&& final(self).tiles == old(self).tiles
                &&& final(self).background_tiles == old(self).background_tiles
            },
            kind == LayerKind::Entities || kind == LayerKind::Unknown ==> (result is Ok
                && *final(self) == *old(self)),
    {
        match kind {
            LayerKind::IntGrid => {
                let colliders = ColliderType::from_vec(int_grid_csv)?;
                if !tile_layer_fits(c_wid, c_hei, grid_size, auto_layer_tiles) {
                    return Err(LevelError::TileOutsideLayer);
                }
                self.colliders = Some(colliders);
                self.tiles = Some(load_tile_layer(c_wid, c_hei, grid_size, auto_layer_tiles));
            },
            LayerKind::BackgroundTiles => {
                if !tile_layer_fits(c_wid, c_hei, grid_size, grid_tiles) {
                    return Err(LevelError::TileOutsideLayer);
                }
                self.background_tiles = Some(load_tile_layer(c_wid, c_hei, grid_size, grid_tiles));
            },
            LayerKind::EntityTiles => {
                if !tile_layer_fits(c_wid, c_hei, grid_size, grid_tiles) {
                    return Err(LevelError::TileOutsideLayer);
                }
                self.entity_tiles = Some(load_tile_layer(c_wid, c_hei, grid_size, grid_tiles));
            },
            LayerKind::Entities | LayerKind::Unknown => {},
        }
        Ok(())
    }

    /// The layers of the level, or the error for the first missing one (in the
    /// order collision grid, foreground, background, entity tiles).
    pub fn complete(self) -> (result: Result<CompleteLayers, LevelError>)
        ensures
            match result {
                Ok(layers) => {
                    &&& self.colliders == Some(layers.colliders)
                    &&& self.tiles == Some(layers.tiles)
                    &&& self.background_tiles == Some(layers.background_tiles)
                    &&& self.entity_tiles == Some(layers.entity_tiles)
                },
                Err(e) => e == if self.colliders is None {
                    LevelError::MissingColliders
                } else if self.tiles is None {
                    LevelError::MissingTiles
                } else if self.background_tiles is None {
                    LevelError::MissingBackgroundTiles
                } else {
                    LevelError::MissingEntityTiles
                } && (self.colliders is None || self.tiles is None || self.background_tiles is None
                    || self.entity_tiles is None),
            },
    {
        let colliders = match self.colliders {
            Some(c) => c,
            None => {
                return Err(LevelError::MissingColliders);
            },
        };
        let tiles = match self.tiles {
            Some(t) => t,
            None => {
                return Err(LevelError::MissingTiles);
            },
        };
        let background_tiles = match self.background_tiles {
            Some(t) => t,
            None => {
                return Err(LevelError::MissingBackgroundTiles);
            },
        };
        let entity_tiles = match self.entity_tiles {
            Some(t) => t,
            None => {
                return Err(LevelError::MissingEntityTiles);
            },
        };
        Ok(CompleteLayers { colliders, tiles, background_tiles, entity_tiles })
    }
}

/// The collision grid of a level: its size in cells and what fills each cell.
pub ghost struct GridModel {
    pub width: int,
    pub height: int,
    pub cells: Seq<ColliderType>,
}

impl GridModel {
    /// Whether `(x, y)` lies outside the grid.
    pub open spec fn outside(self, x: int, y: int) -> bool {
        x < 0 || x >= self.width || y < 0 || y >= self.height
    }

    /// Whether reading the cell at `(x, y)` stays within `len` entries (in
    /// row-major order): it lies outside the grid, or its entry is one of them.
    pub open spec fn within(self, x: int, y: int, len: int) -> bool {
        self.outside(x, y) || y * self.width + x < len
    }

    /// Whether every cell of the grid has its entry among the cells given.
    pub open spec fn covered(self) -> bool {
        self.width <= 0 || self.height <= 0 || self.cells.len() >= self.width * self.height
    }

    /// Whether the cell at `(x, y)` is solid; cells outside the grid are not.
    pub open spec fn occupied(self, x: int, y: int) -> bool {
        !self.outside(x, y) && self.cells[y * self.width + x] != ColliderType::Empty
    }

    /// Whether the point `c` is a solid cell.
    pub open spec fn occupied_pred(self) -> spec_fn((int, int)) -> bool {
        |c: (int, int)| self.occupied(c.0, c.1)
    }
}

/// In a covered grid, every cell can be read.
proof fn lemma_covered_within(g: GridModel, x: int, y: int)
    requires
        g.covered(),
    ensures
        g.within(x, y, g.cells.len() as int),
{
    if !g.outside(x, y) {
        let w = g.width;
        let h = g.height;
        assert(y * w <= (h - 1) * w) by (nonlinear_arith)
            requires
                0 <= y < h,
                w >= 0,
        ;
        assert((h - 1) * w + w == w * h) by (nonlinear_arith);
    }
}

/// A solid cell of a level, with the sides of it that face a cell that is not
/// solid (the only sides that anything can collide with).
#[derive(Debug, Clone, Copy, PartialEq, Eq, Structural)]
pub struct GridCollider {
    pub x: i64,
    pub y: i64,
    pub enable_top: bool,
    pub enable_bottom: bool,
    pub enable_left: bool,
    pub enable_right: bool,
}

/// The collision grid of a level.
pub struct LevelGrid {
    width: i64,
    height: i64,
    colliders: Vec<ColliderType>,
}

impl LevelGrid {
    pub closed spec fn view(&self) -> GridModel {
        GridModel {
            width: self.width as int,
            height: self.height as int,
            cells: self.colliders@,
        }
    }

    /// A grid `width` cells wide and `height` cells high whose cells, in
    /// row-major order, are `colliders` (a cell without an entry cannot be
    /// read; entries after the last cell are never read).
    pub fn new(width: i64, height: i64, colliders: Vec<ColliderType>) -> (result: Self)
        ensures
            result@ == (GridModel { width: width as int, height: height as int, cells: colliders@ }),
    {
        LevelGrid { width, height, colliders }
    }

    /// Width of the grid, in cells.
    pub fn width(&self) -> (result: i64)
        ensures
            result == self@.width,
    {
        self.width
    }

    /// Height of the grid, in cells.
    pub fn height(&self) -> (result: i64)
        ensures
            result == self@.height,
    {
        self.height
    }

    /// Whether every cell of the grid has its entry among its cells.
    pub fn is_covered(&self) -> (result: bool)
        ensures
            result == self@.covered(),
    {
        if self.width <= 0 || self.height <= 0 {
            return true;
        }
        assert((self.width as int) * (self.height as int) < 0x8000_0000_0000_0000_0000_0000_0000_0000) by (nonlinear_arith)
            requires
                0 < self.width <= i64::MAX,
                0 < self.height <= i64::MAX,
        ;
        self.colliders.len() as i128 >= (self.width as i128) * (self.height as i128)
    }

    /// The row-major index of the cell at `(x, y)`, among `len` entries.
    fn get_index(&self, x: i64, y: i64, len: usize) -> (result: usize)
        requires
            !self@.outside(x as int, y as int),
            y * self@.width + x < len,
        ensures
            result == y * self@.width + x,
    {
        assert(0 <= (y as int) * (self.width as int) < 0x4000_0000_0000_0000_0000_0000_0000_0000) by (nonlinear_arith)
            requires
                0 <= y <= i64::MAX,
                0 <= self.width <= i64::MAX,
        ;
        ((y as i128) * (self.width as i128) + (x as i128)) as usize
    }

    /// Whether `(x, y)` lies outside the grid.
    pub fn is_grid_coordinate_outside_of_bounds(&self, x: i64, y: i64) -> (result: bool)
        ensures
            result == self@.outside(x as int, y as int),
    {
        x < 0 || x >= self.width || y < 0 || y >= self.height
    }

    /// Whether the cell at `(x, y)` is solid; cells outside the grid are not.
    pub fn is_occupied_at(&self, x: i64, y: i64) -> (result: bool)
        requires
            self@.within(x as int, y as int, self@.cells.len() as int),
        ensures
            result == self@.occupied(x as int, y as int),
    {
        if self.is_grid_coordinate_outside_of_bounds(x, y) {
            return false;
        }
        self.colliders[self.get_index(x, y, self.colliders.len())] != ColliderType::Empty
    }

    /// The tile of layer `tiles` (one entry per cell, in row-major order) at
    /// `(x, y)`, or `None` outside the grid.
    pub fn get_tile_at(&self, tiles: &Vec<Option<Tile>>, x: i64, y: i64) -> (result: Option<Tile>)
        requires
            self@.within(x as int, y as int, tiles@.len() as int),
        ensures
            result == if self@.outside(x as int, y as int) {
                None
            } else {
                tiles@[y * self@.width + x]
            },
    {
        if self.is_grid_coordinate_outside_of_bounds(x, y) {
            None
        } else {
            tiles[self.get_index(x, y, tiles.len())]
        }
    }

    /// The solid cells among the points that `range` has yet to yield.
    pub fn iter_colliders(&self, range: XYRangeIterator) -> (result: GridColliderIterator<'_>)
        ensures
            result.grid() == self@,
            result@ == range@.filter(self@.occupied_pred()),
    {
        GridColliderIterator { level: self, range }
    }
}

/// A side of a level, beyond which stands a collider for the entities that may
/// not leave it.
#[derive(Debug, Clone, Copy, PartialEq, Eq, Structural)]
pub enum BoundarySide {
    Top,
    Right,
    Bottom,
    Left,
}

/// The sides of a level, in the order in which colliders are made for them.
pub open spec fn boundary_sides() -> Seq<BoundarySide> {
    seq![BoundarySide::Top, BoundarySide::Right, BoundarySide::Bottom, BoundarySide::Left]
}

/// Iterates over the sides of a level, or over none of them.
pub struct BoundarySideIterator {
    position: u8,
}

impl BoundarySideIterator {
    #[verifier::type_invariant]
    spec fn inv(self) -> bool {
        self.position <= 4
    }

    /// The sides that the iterator has yet to yield, in order.
    pub closed spec fn view(&self) -> Seq<BoundarySide> {
        boundary_sides().skip(self.position as int)
    }

    /// An iterator over the four sides of a level.
    pub fn new() -> (result: Self)
        ensures
            result@ == boundary_sides(),
    {
        let result = BoundarySideIterator { position: 0 };
        assert(result@ =~= boundary_sides());
        result
    }

    /// An iterator over no side (for entities that may leave the level).
    pub fn empty() -> (result: Self)
        ensures
            result@ == Seq::<BoundarySide>::empty(),
    {
        let result = BoundarySideIterator { position: 4 };
        assert(result@ =~= Seq::<BoundarySide>::empty());
        result
    }

    /// Yields the next side, or `None` once every side has been yielded.
    pub fn next(&mut self) -> (result: Option<BoundarySide>)
        ensures
            old(self)@.len() == 0 ==> result is None && final(self)@ == old(self)@,
            old(self)@.len() > 0 ==> result == Some(old(self)@[0]) && final(self)@
                == old(self)@.drop_first(),
    {
        proof {
            use_type_invariant(&*self);
        }
        let side = match self.position {
            0 => BoundarySide::Top,
            1 => BoundarySide::Right,
            2 => BoundarySide::Bottom,
            3 => BoundarySide::Left,
            _ => {
                return None;
            },
        };
        let ghost before = self@;
        self.position = self.position + 1;
        assert(self@ =~= before.drop_first());
        Some(side)
    }
}

/// Iterates over the solid cells of a range of points of a level grid.
pub struct GridColliderIterator<'a> {
    level: &'a LevelGrid,
    range: XYRangeIterator,
}

impl<'a> GridColliderIterator<'a> {
    /// The grid the iterator runs over.
    pub closed spec fn grid(&self) -> GridModel {
        self.level@
    }

    /// The solid cells that the iterator has yet to yield, in order.
    pub closed spec fn view(&self) -> Seq<(int, int)> {
        self.range@.filter(self.level@.occupied_pred())
    }

    /// Yields the next solid cell with its open sides, or `None` once there is
    /// none left.
    pub fn next(&mut self) -> (result: Option<GridCollider>)
        requires
            old(self).grid().covered(),
        ensures
            final(self).grid() == old(self).grid(),
            old(self)@.len() == 0 ==> result is None,
            result is None ==> final(self)@.len() == 0,
            old(self)@.len() > 0 ==> {
                &&& result matches Some(c)
                &&& (c.x as int, c.y as int) == old(self)@[0]
                &&& final(self)@ == old(self)@.drop_first()
                &&& c.enable_top == !old(self).grid().occupied(c.x as int, c.y - 1)
                &&& c.enable_bottom == !old(self).grid().occupied(c.x as int, c.y + 1)
                &&& c.enable_left == !old(self).grid().occupied(c.x - 1, c.y as int)
                &&& c.enable_right == !old(self).grid().occupied(c.x + 1, c.y as int)
            },
    {
        let ghost pred = self.level@.occupied_pred();
        let ghost start = self@;
        loop
            invariant
                self.level@ == old(self).level@,
                self.level@.covered(),
                pred == self.level@.occupied_pred(),
                start == old(self)@,
                self.range@.filter(pred) == start,
            decreases self.range@.len(),
        {
            let ghost before = self.range@;
            match self.range.next() {
                None => {
                    proof {
                        reveal(Seq::filter);
                        assert(self.range@.filter(pred).len() == 0);
                    }
                    return None;
                },
                Some((x, y)) => {
                    proof {
                        lemma_filter_first(before, pred);
                        assert(before.drop_first() == self.range@);
                    }
                    proof {
                        lemma_covered_within(self.level@, x as int, y as int);
                    }
                    if self.level.is_occupied_at(x, y) {
                        proof {
                            let g = self.level@;
                            lemma_covered_within(g, x as int, y - 1);
                            lemma_covered_within(g, x as int, y + 1);
                            lemma_covered_within(g, x - 1, y as int);
                            lemma_covered_within(g, x + 1, y as int);
                        }
                        let collider = GridCollider {
                            enable_top: !self.level.is_occupied_at(x, y - 1),
                            enable_bottom: !self.level.is_occupied_at(x, y + 1),
                            enable_left: !self.level.is_occupied_at(x - 1, y),
                            enable_right: !self.level.is_occupied_at(x + 1, y),
                            x,
                            y,
                        };
                        return Some(collider);
                    }
                },
            }
        }
    }
}

} // verus!
