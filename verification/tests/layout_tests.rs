use rwm::config::MutableConfig;
use rwm::layout::{arrange, calculate_grid_dimensions, GridDirection, LayoutArea, LayoutType, LayoutWindow, ScaledSizes};

/// The master extent that the tile layout's default factor gives.
fn master_extent(config: &MutableConfig, area: &LayoutArea) -> i32 {
    let usable_w = area.width - 2 * config.tile.outer_gap;
    ((usable_w - config.tile.inner_gap) as f32 * 0.55) as i32
}

fn window(id: usize, focused: bool) -> LayoutWindow {
    LayoutWindow { id, min_width: 0, min_height: 0, focused, scroller_mfact: None }
}

#[test]
fn test_grid_dimensions() {
    assert_eq!(calculate_grid_dimensions(1, GridDirection::Horizontal), (1, 1));
    assert_eq!(calculate_grid_dimensions(2, GridDirection::Horizontal), (2, 1));
    assert_eq!(calculate_grid_dimensions(4, GridDirection::Horizontal), (2, 2));
    assert_eq!(calculate_grid_dimensions(5, GridDirection::Horizontal), (3, 2));
    assert_eq!(calculate_grid_dimensions(9, GridDirection::Horizontal), (3, 3));
}

#[test]
fn test_tile_layout() {
    let area = LayoutArea::new(0, 0, 1920, 1080);
    let windows = vec![window(0, true), window(1, false)];
    let config = MutableConfig::default();
    let sizes = ScaledSizes { tile_master: master_extent(&config, &area), scroller_main: 0, scroller_sides: Vec::new() };

    let result = arrange(LayoutType::Tile, area, &windows, &config, &sizes);
    assert_eq!(result.geometries.len(), 2);

    // Master should take the left side
    let (id0, geom0) = &result.geometries[0];
    assert_eq!(*id0, 0);
    assert!(geom0.width > 0);

    let (id1, geom1) = &result.geometries[1];
    assert_eq!(*id1, 1);
    assert!(geom1.x >= geom0.x + geom0.width || geom1.y >= geom0.y + geom0.height);
}

#[test]
fn test_grid_layout() {
    let area = LayoutArea::new(0, 0, 1920, 1080);
    let windows: Vec<LayoutWindow> = (0..4).map(|i| window(i, i == 0)).collect();
    let config = MutableConfig::default();
    let sizes = ScaledSizes { tile_master: 0, scroller_main: 0, scroller_sides: Vec::new() };

    let result = arrange(LayoutType::Grid, area, &windows, &config, &sizes);
    assert_eq!(result.geometries.len(), 4);

    // All windows should have positive dimensions
    for (_, geom) in &result.geometries {
        assert!(geom.width > 0);
        assert!(geom.height > 0);
    }
}

#[test]
fn test_monocle_layout() {
    let area = LayoutArea::new(0, 0, 1920, 1080);
    let windows = vec![window(0, true), window(1, false)];
    let config = MutableConfig::default();
    let sizes = ScaledSizes { tile_master: 0, scroller_main: 0, scroller_sides: Vec::new() };

    let result = arrange(LayoutType::Monocle, area, &windows, &config, &sizes);
    // Only focused window should have geometry
    assert_eq!(result.geometries.len(), 1);
    assert_eq!(result.geometries[0].0, 0);
}
