use tower_map_editor::models::{default_building_type, default_grid, BuildingType};
use tower_map_editor::utils::{fix_path, get_layer_color, get_time_value};

#[test]
fn time_value_orders_waves_and_phases() {
    assert_eq!(get_time_value(0, false), 0);
    assert_eq!(get_time_value(3, false), 6);
    assert_eq!(get_time_value(3, true), 7);
    assert!(get_time_value(3, true) < get_time_value(4, false));
    assert!(get_time_value(-2, true) < get_time_value(-1, false));
    assert_ne!(get_time_value(5, false), get_time_value(5, true));
}

#[test]
fn fix_path_adds_maps_dir_once() {
    assert_eq!(fix_path("icons/a.png"), "maps/icons/a.png");
    assert_eq!(fix_path("maps/icons/a.png"), "maps/icons/a.png");
    assert_eq!(fix_path("map"), "maps/map");
    assert_eq!(fix_path(""), "maps/");
    assert_eq!(fix_path("Maps/x"), "maps/Maps/x");
}

#[test]
fn layer_colors() {
    assert_eq!(get_layer_color(-1), [255, 0, 0, 100]);
    assert_eq!(get_layer_color(0), [0, 255, 0, 40]);
    assert_eq!(get_layer_color(1), [255, 255, 0, 100]);
    assert_eq!(get_layer_color(2), [0, 150, 255, 100]);
    assert_eq!(get_layer_color(3), [150, 0, 255, 100]);
    assert_eq!(get_layer_color(4), [0, 0, 0, 0]);
    assert_eq!(get_layer_color(-2), [0, 0, 0, 0]);
}

#[test]
fn defaults() {
    assert_eq!(default_building_type(), BuildingType::Floor);
    assert!(default_grid().is_empty());
}
