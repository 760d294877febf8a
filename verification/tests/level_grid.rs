use macroquad_fun::level::{
    entity_tag, layer_kind, load_tile_layer, tile_layer_fits, BoundarySide, BoundarySideIterator, ColliderType, EntityTag, GridCollider, LayerKind,
    LevelError, LevelGrid, LevelLayers, Tile, TileInstance,
};
use macroquad_fun::xy_range_iterator::XYRangeIterator;

#[test]
fn collider_types_from_layer_values() {
    assert_eq!(ColliderType::try_from(0), Ok(ColliderType::Empty));
    assert_eq!(ColliderType::try_from(1), Ok(ColliderType::Solid));
    assert_eq!(ColliderType::try_from(2), Err(LevelError::UnknownIntGridValue(2)));
    assert_eq!(
        ColliderType::from_vec(&vec![0, 1, 1, 0]),
        Ok(vec![ColliderType::Empty, ColliderType::Solid, ColliderType::Solid, ColliderType::Empty])
    );
    assert_eq!(
        ColliderType::from_vec(&vec![0, 7, -1]),
        Err(LevelError::UnknownIntGridValue(7))
    );
}

fn grid() -> LevelGrid {
    // 3x2:
    //   # . #
    //   # # .
    let cells = ColliderType::from_vec(&vec![1, 0, 1, 1, 1, 0]).unwrap();
    LevelGrid::new(3, 2, cells)
}

#[test]
fn occupancy_and_bounds() {
    let g = grid();
    assert!(g.is_occupied_at(0, 0));
    assert!(!g.is_occupied_at(1, 0));
    assert!(g.is_occupied_at(1, 1));
    assert!(!g.is_occupied_at(-1, 0));
    assert!(!g.is_occupied_at(3, 0));
    assert!(!g.is_occupied_at(0, 2));
    assert!(g.is_grid_coordinate_outside_of_bounds(0, -1));
    assert!(!g.is_grid_coordinate_outside_of_bounds(2, 1));
}

#[test]
fn colliders_have_open_sides_only() {
    let g = grid();
    let mut it = g.iter_colliders(XYRangeIterator::new(0, 0, 2, 1));
    let mut found = Vec::new();
    while let Some(c) = it.next() {
        found.push(c);
    }
    let cell = |x, y, t, b, l, r| GridCollider {
        x,
        y,
        enable_top: t,
        enable_bottom: b,
        enable_left: l,
        enable_right: r,
    };
    assert_eq!(
        found,
        vec![
            cell(0, 0, true, false, true, true),
            cell(2, 0, true, true, true, true),
            cell(0, 1, false, true, true, false),
            cell(1, 1, true, true, false, true),
        ]
    );
}

#[test]
fn tiles_land_in_their_cells() {
    let tile = |px: i64, py: i64, sx: i64, sy: i64| TileInstance {
        flip_bits: 0,
        layer_px: vec![px, py],
        tileset_px: vec![sx, sy],
        t: 0,
    };
    let tiles = load_tile_layer(3, 2, 16, &vec![tile(16, 0, 8, 8), tile(32, 16, 1, 2), tile(17, 15, 9, 9)]);
    assert_eq!(
        tiles,
        vec![
            None,
            Some(Tile { tileset_x: 9, tileset_y: 9 }),
            None,
            None,
            None,
            Some(Tile { tileset_x: 1, tileset_y: 2 }),
        ]
    );
    let g = grid();
    assert_eq!(g.get_tile_at(&tiles, 2, 1), Some(Tile { tileset_x: 1, tileset_y: 2 }));
    assert_eq!(g.get_tile_at(&tiles, 0, 0), None);
    assert_eq!(g.get_tile_at(&tiles, 5, 0), None);
}

#[test]
fn negative_pixels_round_toward_zero() {
    let tiles = load_tile_layer(
        2,
        1,
        16,
        &vec![TileInstance { flip_bits: 0, layer_px: vec![-5, -3], tileset_px: vec![4, 4], t: 1 }],
    );
    assert_eq!(tiles, vec![Some(Tile { tileset_x: 4, tileset_y: 4 }), None]);
}

#[test]
fn layers_and_entities_by_identifier() {
    assert_eq!(layer_kind("IntGrid"), LayerKind::IntGrid);
    assert_eq!(layer_kind("Entities"), LayerKind::Entities);
    assert_eq!(layer_kind("BackgroundTiles"), LayerKind::BackgroundTiles);
    assert_eq!(layer_kind("EntityTiles"), LayerKind::EntityTiles);
    assert_eq!(layer_kind("intgrid"), LayerKind::Unknown);
    assert_eq!(entity_tag("PlayerStart"), EntityTag::PlayerStart);
    assert_eq!(entity_tag("Text"), EntityTag::Text);
    assert_eq!(entity_tag("FlyingEye"), EntityTag::FlyingEye);
    assert_eq!(entity_tag("Mushroom"), EntityTag::Mushroom);
    assert_eq!(entity_tag("MovingPlatform"), EntityTag::MovingPlatform);
    assert_eq!(entity_tag("Crate"), EntityTag::Crate);
    assert_eq!(entity_tag("FloorSwitch"), EntityTag::FloorSwitch);
    assert_eq!(entity_tag("Gem"), EntityTag::Unknown);
}

#[test]
fn missing_layers_are_reported_in_order() {
    let none = || LevelLayers { colliders: None, tiles: None, background_tiles: None, entity_tiles: None };
    assert_eq!(none().complete().err(), Some(LevelError::MissingColliders));
    let mut layers = none();
    layers.colliders = Some(vec![]);
    assert_eq!(layers.complete().err(), Some(LevelError::MissingTiles));
    let layers = LevelLayers { colliders: Some(vec![]), tiles: Some(vec![]), background_tiles: None, entity_tiles: Some(vec![]) };
    assert_eq!(layers.complete().err(), Some(LevelError::MissingBackgroundTiles));
    let layers = LevelLayers { colliders: Some(vec![]), tiles: Some(vec![]), background_tiles: Some(vec![]), entity_tiles: None };
    assert_eq!(layers.complete().err(), Some(LevelError::MissingEntityTiles));
    let layers = LevelLayers {
        colliders: Some(vec![ColliderType::Solid]),
        tiles: Some(vec![None]),
        background_tiles: Some(vec![None]),
        entity_tiles: Some(vec![Some(Tile { tileset_x: 1, tileset_y: 2 })]),
    };
    let complete = layers.complete().ok().unwrap();
    assert_eq!(complete.colliders, vec![ColliderType::Solid]);
    assert_eq!(complete.entity_tiles, vec![Some(Tile { tileset_x: 1, tileset_y: 2 })]);
}

#[test]
fn tile_layers_that_fit_their_grid() {
    let tile = |px: i64, py: i64| TileInstance { flip_bits: 0, layer_px: vec![px, py], tileset_px: vec![0, 0], t: 0 };
    assert!(tile_layer_fits(3, 2, 8, &vec![tile(0, 0), tile(16, 8)]));
    assert!(tile_layer_fits(0, 0, 8, &vec![]));
    // A tile beyond the last cell.
    assert!(!tile_layer_fits(3, 2, 8, &vec![tile(0, 16)]));
    // A tile left of the first cell.
    assert!(!tile_layer_fits(3, 2, 8, &vec![tile(-8, 0)]));
    // Cells of no size.
    assert!(!tile_layer_fits(3, 2, 0, &vec![]));
    // A tile without both coordinates.
    let short = TileInstance { flip_bits: 0, layer_px: vec![0], tileset_px: vec![0, 0], t: 0 };
    assert!(!tile_layer_fits(3, 2, 8, &vec![short]));
}

#[test]
fn level_sides_come_top_right_bottom_left() {
    let mut sides = BoundarySideIterator::new();
    assert_eq!(sides.next(), Some(BoundarySide::Top));
    assert_eq!(sides.next(), Some(BoundarySide::Right));
    assert_eq!(sides.next(), Some(BoundarySide::Bottom));
    assert_eq!(sides.next(), Some(BoundarySide::Left));
    assert_eq!(sides.next(), None);
    assert_eq!(sides.next(), None);
    assert_eq!(BoundarySideIterator::empty().next(), None);
}

#[test]
fn layers_are_taken_in_by_kind() {
    let tile = |px: i64, py: i64, sx: i64| TileInstance { flip_bits: 0, layer_px: vec![px, py], tileset_px: vec![sx, 0], t: 0 };
    let mut layers = LevelLayers::new();
    assert_eq!(layers.add_layer(LayerKind::Entities, 2, 1, 8, &vec![], &vec![], &vec![]), Ok(()));
    assert!(layers.colliders.is_none());
    assert_eq!(
        layers.add_layer(LayerKind::IntGrid, 2, 1, 8, &vec![0, 3], &vec![], &vec![]),
        Err(LevelError::UnknownIntGridValue(3))
    );
    assert!(layers.colliders.is_none());
    assert_eq!(
        layers.add_layer(LayerKind::IntGrid, 2, 1, 8, &vec![1, 0], &vec![tile(8, 0, 16)], &vec![]),
        Ok(())
    );
    assert_eq!(layers.colliders, Some(vec![ColliderType::Solid, ColliderType::Empty]));
    assert_eq!(layers.tiles, Some(vec![None, Some(Tile { tileset_x: 16, tileset_y: 0 })]));
    assert_eq!(
        layers.add_layer(LayerKind::BackgroundTiles, 2, 1, 8, &vec![], &vec![], &vec![tile(0, 0, 4)]),
        Ok(())
    );
    assert_eq!(layers.background_tiles, Some(vec![Some(Tile { tileset_x: 4, tileset_y: 0 }), None]));
    assert!(layers.entity_tiles.is_none());
    assert_eq!(layers.add_layer(LayerKind::EntityTiles, 2, 1, 8, &vec![], &vec![], &vec![]), Ok(()));
    assert_eq!(layers.entity_tiles, Some(vec![None, None]));
    assert!(layers.complete().is_ok());
}

#[test]
fn collision_grids_may_hold_extra_cells() {
    let cells = ColliderType::from_vec(&vec![1, 0, 1]).unwrap();
    let grid = LevelGrid::new(1, 2, cells);
    assert!(grid.is_occupied_at(0, 0));
    assert!(!grid.is_occupied_at(0, 1));
    assert!(!grid.is_occupied_at(0, 2));
}

#[test]
fn tiles_off_the_layer_are_refused_after_the_values() {
    let off = TileInstance { flip_bits: 0, layer_px: vec![0, 64], tileset_px: vec![0, 0], t: 0 };
    let mut layers = LevelLayers::new();
    assert_eq!(
        layers.add_layer(LayerKind::IntGrid, 2, 1, 8, &vec![0, 5], &vec![off], &vec![]),
        Err(LevelError::UnknownIntGridValue(5))
    );
    let off = TileInstance { flip_bits: 0, layer_px: vec![0, 64], tileset_px: vec![0, 0], t: 0 };
    assert_eq!(
        layers.add_layer(LayerKind::IntGrid, 2, 1, 8, &vec![0, 1], &vec![off], &vec![]),
        Err(LevelError::TileOutsideLayer)
    );
    let off = TileInstance { flip_bits: 0, layer_px: vec![0, 64], tileset_px: vec![0, 0], t: 0 };
    assert_eq!(
        layers.add_layer(LayerKind::EntityTiles, 2, 1, 8, &vec![], &vec![], &vec![off]),
        Err(LevelError::TileOutsideLayer)
    );
    assert!(layers.colliders.is_none());
    assert!(layers.entity_tiles.is_none());
}

#[test]
fn grids_with_missing_cells_are_not_covered() {
    let short = LevelGrid::new(2, 2, ColliderType::from_vec(&vec![1, 0, 1]).unwrap());
    assert!(!short.is_covered());
    // Cells with an entry can still be read.
    assert!(short.is_occupied_at(0, 1));
    assert!(LevelGrid::new(-1, 3, vec![]).is_covered());
    assert!(LevelGrid::new(2, 2, ColliderType::from_vec(&vec![1, 0, 1, 0]).unwrap()).is_covered());
}

#[test]
fn exhausted_collider_iterator_stays_exhausted() {
    let grid = LevelGrid::new(2, 1, ColliderType::from_vec(&vec![1, 0]).unwrap());
    let mut colliders = grid.iter_colliders(XYRangeIterator::new(0, 0, 1, 0));
    assert_eq!(colliders.next().map(|c| (c.x, c.y)), Some((0, 0)));
    assert_eq!(colliders.next(), None);
    assert_eq!(colliders.next(), None);
}
