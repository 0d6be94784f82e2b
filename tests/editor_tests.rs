use tower_map_editor::editor::{MapEditor, BASE_UID, DEFAULT_GRID_SIZE, OBSTACLE};
use tower_map_editor::exchange::{file_stem, find_template_color, templates_from_configs};
use tower_map_editor::models::{
    BuildingConfig, BuildingExport, BuildingTemplate, BuildingType, DemolishEvent, LayerData,
    MapBuildingsExport, UpgradeEvent,
};
use tower_map_editor::terrain::copy_grid;
use tower_map_editor::timeline::NEVER;

fn template(name: &str, b_type: BuildingType, width: usize, height: usize) -> BuildingTemplate {
    BuildingTemplate { name: name.to_string(), b_type, width, height, color: [1, 2, 3, 4] }
}

fn editor_with(templates: Vec<BuildingTemplate>) -> MapEditor {
    MapEditor::new(templates)
}

fn floor_cell(ed: &MapEditor, r: usize, c: usize) -> i8 {
    ed.layers_data[0].floor_grid[r][c]
}

fn export(uid: usize, name: &str, x: usize, y: usize) -> BuildingExport {
    BuildingExport {
        uid,
        name: name.to_string(),
        b_type: BuildingType::Floor,
        grid_x: x,
        grid_y: y,
        width: 1,
        height: 1,
        wave_num: 1,
        is_late: false,
    }
}

#[test]
fn new_map_is_all_obstacle() {
    let ed = editor_with(vec![]);
    assert_eq!(ed.grid_rows, DEFAULT_GRID_SIZE);
    assert_eq!(ed.grid_cols, DEFAULT_GRID_SIZE);
    assert_eq!(ed.layers_data.len(), 1);
    assert_eq!(ed.layers_data[0].major_z, 0);
    for t in [BuildingType::Floor, BuildingType::Wall, BuildingType::Ceiling] {
        let g = ed.layers_data[0].get_grid(t);
        assert_eq!(g.len(), 40);
        assert!(g.iter().all(|row| row.len() == 40 && row.iter().all(|&v| v == OBSTACLE)));
    }
    assert_eq!(ed.building_templates.len(), 1);
    assert_eq!(ed.building_templates[0].width, 1);
    assert_eq!(ed.building_templates[0].color, [160, 160, 160, 255]);
    assert_eq!(ed.next_uid, BASE_UID);
    assert_eq!(ed.current_wave_num, 1);
    assert!(!ed.current_is_late);
}

#[test]
fn concrete_scenario_square_place_overlap_demolish() {
    let mut ed = editor_with(vec![template("Tower", BuildingType::Floor, 2, 2)]);
    ed.paint(BuildingType::Floor, 10, 10, 2, 0);
    for r in 0..40 {
        for c in 0..40 {
            let inside = (8..=12).contains(&r) && (8..=12).contains(&c);
            assert_eq!(floor_cell(&ed, r, c), if inside { 0 } else { -1 });
        }
    }
    assert!(ed.can_place_building(9, 9, 2, 2, BuildingType::Floor));
    assert_eq!(ed.place_building(0, 9, 9), Some(1000));
    assert!(!ed.can_place_building(10, 10, 2, 2, BuildingType::Floor));
    assert_eq!(ed.place_building(0, 10, 10), None);
    ed.current_wave_num = 3;
    assert!(ed.schedule_demolish(1000));
    assert!(ed.can_place_building(10, 10, 2, 2, BuildingType::Floor));
    ed.current_wave_num = 2;
    ed.current_is_late = true;
    assert!(!ed.can_place_building(10, 10, 2, 2, BuildingType::Floor));
    ed.current_wave_num = 4;
    ed.current_is_late = false;
    assert_eq!(ed.place_building(0, 10, 10), Some(1001));
}

#[test]
fn placement_rejects_out_of_bounds_obstacle_and_height_change() {
    let mut ed = editor_with(vec![]);
    ed.paint(BuildingType::Floor, 0, 0, 1, 1);
    ed.paint(BuildingType::Floor, 0, 2, 0, 2);
    assert!(ed.can_place_building(0, 0, 2, 2, BuildingType::Floor));
    assert!(!ed.can_place_building(0, 1, 2, 1, BuildingType::Floor));
    assert!(!ed.can_place_building(5, 5, 1, 1, BuildingType::Floor));
    assert!(!ed.can_place_building(39, 39, 2, 2, BuildingType::Floor));
    assert!(!ed.can_place_building(0, 0, 1, 1, BuildingType::Wall));
}

#[test]
fn building_not_yet_created_does_not_block() {
    let mut ed = editor_with(vec![template("Tower", BuildingType::Floor, 1, 1)]);
    ed.paint(BuildingType::Floor, 5, 5, 0, 0);
    ed.current_wave_num = 5;
    assert_eq!(ed.place_building(0, 5, 5), Some(1000));
    ed.current_wave_num = 4;
    assert!(ed.can_place_building(5, 5, 1, 1, BuildingType::Floor));
    ed.current_wave_num = 5;
    assert!(!ed.can_place_building(5, 5, 1, 1, BuildingType::Floor));
}

#[test]
fn other_category_never_blocks() {
    let mut ed = editor_with(vec![
        template("Floor", BuildingType::Floor, 2, 2),
        template("Wall", BuildingType::Wall, 2, 2),
    ]);
    ed.paint(BuildingType::Floor, 3, 3, 1, 0);
    ed.paint(BuildingType::Wall, 3, 3, 1, 2);
    assert_eq!(ed.place_building(0, 2, 2), Some(1000));
    assert!(ed.can_place_building(2, 2, 2, 2, BuildingType::Wall));
    assert_eq!(ed.place_building(1, 2, 2), Some(1001));
    assert!(!ed.can_place_building(2, 2, 2, 2, BuildingType::Wall));
}

#[test]
fn painting_clips_at_the_border() {
    let mut ed = editor_with(vec![]);
    ed.paint(BuildingType::Ceiling, 0, 39, 1, 3);
    let g = ed.layers_data[0].get_grid(BuildingType::Ceiling);
    assert_eq!(g[0][39], 3);
    assert_eq!(g[1][38], 3);
    assert_eq!(g[2][39], -1);
    assert_eq!(g[0][37], -1);
    assert_eq!(g.len(), 40);
    assert_eq!(g[0].len(), 40);
    ed.paint(BuildingType::Ceiling, -1, -1, 1, 1);
    assert_eq!(ed.layers_data[0].ceiling_grid[0][0], 1);
    assert_eq!(ed.layers_data[0].ceiling_grid[1][1], -1);
}

#[test]
fn erase_cascades_to_demolish_events() {
    let mut ed = editor_with(vec![template("T", BuildingType::Floor, 2, 2)]);
    ed.paint(BuildingType::Floor, 5, 5, 3, 0);
    assert_eq!(ed.place_building(0, 4, 4), Some(1000));
    assert_eq!(ed.place_building(0, 6, 6), Some(1001));
    assert!(ed.schedule_demolish(1000));
    assert!(ed.schedule_demolish(1001));
    assert!(!ed.schedule_demolish(1000));
    assert!(!ed.schedule_demolish(77));
    let removed = ed.erase_at(5, 5);
    assert_eq!(removed, vec![1000]);
    assert_eq!(ed.placed_buildings.len(), 1);
    assert_eq!(ed.placed_buildings[0].uid, 1001);
    assert_eq!(ed.demolish_events.len(), 1);
    assert_eq!(ed.demolish_events[0].uid, 1001);
    assert!(ed.erase_at(-3, 0).is_empty());
    assert_eq!(ed.placed_buildings.len(), 1);
}

#[test]
fn erase_ignores_time_and_category() {
    let mut ed = editor_with(vec![
        template("F", BuildingType::Floor, 1, 1),
        template("C", BuildingType::Ceiling, 1, 1),
    ]);
    ed.paint(BuildingType::Floor, 1, 1, 0, 0);
    ed.paint(BuildingType::Ceiling, 1, 1, 0, 0);
    ed.current_wave_num = 9;
    ed.place_building(0, 1, 1).unwrap();
    ed.place_building(1, 1, 1).unwrap();
    ed.current_wave_num = 1;
    assert_eq!(ed.erase_at(1, 1), vec![1000, 1001]);
    assert!(ed.placed_buildings.is_empty());
}

#[test]
fn demolish_event_captures_building_and_cursor() {
    let mut ed = editor_with(vec![template("Gun", BuildingType::Floor, 1, 2)]);
    ed.paint(BuildingType::Floor, 3, 3, 2, 1);
    ed.place_building(0, 2, 3).unwrap();
    assert_eq!(ed.get_building_demolish_time(1000), NEVER);
    ed.current_wave_num = 7;
    ed.current_is_late = true;
    assert!(ed.schedule_demolish(1000));
    let e = &ed.demolish_events[0];
    assert_eq!((e.uid, e.name.as_str(), e.grid_x, e.grid_y), (1000, "Gun", 3, 2));
    assert_eq!((e.width, e.height, e.wave_num, e.is_late), (1, 2, 7, true));
    assert_eq!(ed.get_building_demolish_time(1000), 15);
    ed.remove_demolish(0);
    assert!(ed.demolish_events.is_empty());
}

#[test]
fn first_demolish_event_wins() {
    let mut ed = editor_with(vec![]);
    let ev = |wave: i32| DemolishEvent {
        uid: 5,
        name: "x".to_string(),
        grid_x: 0,
        grid_y: 0,
        width: 1,
        height: 1,
        wave_num: wave,
        is_late: false,
    };
    ed.demolish_events = vec![ev(8), ev(3)];
    assert_eq!(ed.get_building_demolish_time(5), 16);
}

#[test]
fn active_building_queries() {
    let mut ed = editor_with(vec![
        template("A", BuildingType::Floor, 2, 2),
        template("B", BuildingType::Wall, 1, 1),
    ]);
    ed.paint(BuildingType::Floor, 1, 1, 1, 0);
    ed.paint(BuildingType::Wall, 1, 1, 1, 0);
    ed.place_building(0, 0, 0).unwrap();
    ed.current_wave_num = 2;
    ed.place_building(1, 1, 1).unwrap();
    assert_eq!(ed.active_buildings_at(1, 1), vec![0, 1]);
    assert_eq!(ed.find_active_building_at(1, 1), Some(0));
    ed.current_wave_num = 1;
    assert_eq!(ed.active_buildings_at(1, 1), vec![0]);
    assert_eq!(ed.find_active_building_at(5, 5), None);
}

#[test]
fn upgrades_are_a_log() {
    let mut ed = editor_with(vec![template("A", BuildingType::Floor, 1, 1)]);
    ed.add_upgrade(0);
    ed.current_is_late = true;
    ed.add_upgrade(0);
    assert_eq!(ed.upgrade_events.len(), 2);
    assert_eq!(ed.upgrade_events[1].building_name, "A");
    assert!(ed.upgrade_events[1].is_late);
    ed.remove_upgrade(0);
    assert_eq!(ed.upgrade_events.len(), 1);
    assert!(ed.upgrade_events[0].is_late);
}

#[test]
fn import_continues_uid_after_largest() {
    let mut ed = editor_with(vec![template("Known", BuildingType::Floor, 1, 1)]);
    let data = MapBuildingsExport {
        map_name: "m".to_string(),
        buildings: vec![export(5, "Known", 1, 1), export(2000, "Other", 2, 2), export(7, "Known", 3, 3)],
        upgrades: vec![UpgradeEvent { building_name: "Known".to_string(), wave_num: 2, is_late: true }],
        demolishes: vec![],
    };
    assert!(ed.load_buildings(data));
    assert_eq!(ed.next_uid, 2001);
    assert_eq!(ed.placed_buildings.len(), 3);
    assert_eq!(ed.placed_buildings[0].color, [1, 2, 3, 4]);
    assert_eq!(ed.placed_buildings[1].color, [160, 160, 160, 255]);
    assert_eq!(ed.upgrade_events.len(), 1);
    ed.paint(BuildingType::Floor, 20, 20, 0, 0);
    assert_eq!(ed.place_building(0, 20, 20), Some(2001));
}

#[test]
fn empty_import_restarts_above_base() {
    let mut ed = editor_with(vec![]);
    let data = MapBuildingsExport { map_name: String::new(), buildings: vec![], upgrades: vec![], demolishes: vec![] };
    assert!(ed.load_buildings(data));
    assert_eq!(ed.next_uid, BASE_UID + 1);
}

#[test]
fn import_with_exhausted_uid_is_refused() {
    let mut ed = editor_with(vec![]);
    let data = MapBuildingsExport {
        map_name: String::new(),
        buildings: vec![export(usize::MAX, "x", 0, 0)],
        upgrades: vec![],
        demolishes: vec![],
    };
    assert!(!ed.load_buildings(data));
    assert!(ed.placed_buildings.is_empty());
    assert_eq!(ed.next_uid, BASE_UID);
}

#[test]
fn export_then_import_keeps_buildings() {
    let mut ed = editor_with(vec![template("T", BuildingType::Floor, 1, 1)]);
    ed.paint(BuildingType::Floor, 2, 2, 1, 0);
    ed.place_building(0, 1, 1).unwrap();
    ed.place_building(0, 3, 3).unwrap();
    ed.schedule_demolish(1001);
    ed.add_upgrade(0);
    let out = ed.export_buildings(ed.map_name());
    assert_eq!(out.map_name, "terrain_01");
    assert_eq!(out.buildings.len(), 2);
    assert_eq!((out.buildings[1].uid, out.buildings[1].grid_x, out.buildings[1].grid_y), (1001, 3, 3));
    assert_eq!(out.demolishes.len(), 1);
    let mut other = editor_with(vec![template("T", BuildingType::Floor, 1, 1)]);
    assert!(other.load_buildings(out));
    assert_eq!(other.placed_buildings.len(), 2);
    assert_eq!(other.placed_buildings[1].uid, 1001);
    assert_eq!(other.next_uid, 1002);
    assert_eq!(other.demolish_events[0].uid, 1001);
    assert_eq!(other.upgrade_events[0].building_name, "T");
}

#[test]
fn resize_keeps_cells_and_pads_with_obstacle() {
    let mut ed = editor_with(vec![]);
    ed.paint(BuildingType::Floor, 39, 39, 0, 2);
    ed.paint(BuildingType::Wall, 0, 0, 0, 1);
    ed.set_grid_size(42, 43);
    let l = &ed.layers_data[0];
    assert_eq!(l.floor_grid.len(), 42);
    assert!(l.floor_grid.iter().all(|row| row.len() == 43));
    assert_eq!(l.floor_grid[39][39], 2);
    assert_eq!(l.wall_grid[0][0], 1);
    assert_eq!(l.floor_grid[40][0], -1);
    assert_eq!(l.floor_grid[0][42], -1);
    ed.set_grid_size(1, 1);
    assert_eq!(ed.layers_data[0].wall_grid, vec![vec![1]]);
    ed.set_grid_size(2, 2);
    assert_eq!(ed.layers_data[0].wall_grid, vec![vec![1, -1], vec![-1, -1]]);
}

#[test]
fn legacy_layer_migrates_into_floor() {
    let legacy = vec![vec![0, 1, 2, 3], vec![-1, 0, 0, 0], vec![1, 1, 1, 1]];
    let mut l = LayerData {
        major_z: 0,
        name: "old".to_string(),
        floor_grid: vec![],
        wall_grid: vec![],
        ceiling_grid: vec![],
        elevation_grid: Some(legacy.clone()),
    };
    l.normalize();
    assert_eq!(l.floor_grid, legacy);
    assert!(l.elevation_grid.is_none());
    l.normalize();
    assert_eq!(l.floor_grid, legacy);
    assert!(l.wall_grid.is_empty());
}

#[test]
fn legacy_grid_does_not_replace_floor() {
    let mut l = LayerData {
        major_z: 0,
        name: "both".to_string(),
        floor_grid: vec![vec![2]],
        wall_grid: vec![],
        ceiling_grid: vec![],
        elevation_grid: Some(vec![vec![0, 0]]),
    };
    l.normalize();
    assert_eq!(l.floor_grid, vec![vec![2]]);
    assert!(l.elevation_grid.is_none());
}

#[test]
fn terrain_import_migrates_and_resizes() {
    let mut ed = editor_with(vec![]);
    let legacy = vec![vec![0, 1, 2, 3], vec![-1, 0, 0, 0], vec![1, 1, 1, 1]];
    let layers = vec![
        LayerData {
            major_z: 2,
            name: "upper".to_string(),
            floor_grid: vec![],
            wall_grid: vec![],
            ceiling_grid: vec![],
            elevation_grid: None,
        },
        LayerData {
            major_z: 0,
            name: "ground".to_string(),
            floor_grid: vec![],
            wall_grid: vec![],
            ceiling_grid: vec![],
            elevation_grid: Some(legacy.clone()),
        },
    ];
    ed.load_terrain(layers);
    assert_eq!((ed.grid_rows, ed.grid_cols), (3, 4));
    assert_eq!(ed.layers_data.len(), 2);
    assert_eq!(ed.layers_data[0].major_z, 0);
    assert_eq!(ed.layers_data[1].major_z, 2);
    assert_eq!(ed.layers_data[0].floor_grid, legacy);
    assert_eq!(ed.layers_data[0].wall_grid, vec![vec![-1; 4]; 3]);
    assert_eq!(ed.layers_data[1].ceiling_grid, vec![vec![-1; 4]; 3]);
    assert!(ed.can_place_building(0, 1, 1, 1, BuildingType::Floor));
    assert!(!ed.can_place_building(1, 0, 1, 1, BuildingType::Floor));
}

#[test]
fn terrain_import_without_current_layer_adds_one() {
    let mut ed = editor_with(vec![]);
    let layers = vec![LayerData {
        major_z: 1,
        name: "one".to_string(),
        floor_grid: vec![vec![0, 0]],
        wall_grid: vec![],
        ceiling_grid: vec![],
        elevation_grid: None,
    }];
    ed.load_terrain(layers);
    assert_eq!((ed.grid_rows, ed.grid_cols), (1, 2));
    assert_eq!(ed.layers_data.len(), 2);
    assert_eq!(ed.layers_data[0].major_z, 0);
    assert_eq!(ed.layers_data[0].floor_grid, vec![vec![-1, -1]]);
    assert_eq!(ed.layers_data[1].floor_grid, vec![vec![0, 0]]);
}

#[test]
fn terrain_import_later_layer_wins() {
    let mut ed = editor_with(vec![]);
    let mk = |name: &str, v: i8| LayerData {
        major_z: 0,
        name: name.to_string(),
        floor_grid: vec![vec![v; 2]; 2],
        wall_grid: vec![],
        ceiling_grid: vec![],
        elevation_grid: None,
    };
    ed.load_terrain(vec![mk("a", 1), mk("b", 2)]);
    assert_eq!(ed.layers_data.len(), 1);
    assert_eq!(ed.layers_data[0].name, "b");
    assert_eq!(ed.layers_data[0].floor_grid, vec![vec![2, 2], vec![2, 2]]);
}

#[test]
fn exported_layers_drop_legacy_grid() {
    let ed = editor_with(vec![]);
    let out = ed.export_layers();
    assert_eq!(out.len(), 1);
    assert_eq!(out[0].name, "Default Layer");
    assert_eq!(out[0].floor_grid, ed.layers_data[0].floor_grid);
    assert!(out[0].elevation_grid.is_none());
    assert_eq!(copy_grid(&vec![vec![1, 2], vec![3]]), vec![vec![1, 2], vec![3]]);
}

#[test]
fn catalog_import_builds_templates() {
    let configs = vec![BuildingConfig {
        name: "Wall gun".to_string(),
        b_type: BuildingType::Wall,
        grid_index: [0, 1],
        width: 2,
        height: 3,
        color: [9, 8, 7, 6],
        icon_path: "icons/w.png".to_string(),
        cost: 150,
    }];
    let ts = templates_from_configs(&configs);
    assert_eq!(ts.len(), 1);
    assert_eq!((ts[0].name.as_str(), ts[0].b_type, ts[0].width, ts[0].height), ("Wall gun", BuildingType::Wall, 2, 3));
    assert_eq!(ts[0].color, [9, 8, 7, 6]);
    assert_eq!(find_template_color(&ts, &"Wall gun".to_string()), [9, 8, 7, 6]);
    assert_eq!(find_template_color(&ts, &"none".to_string()), [160, 160, 160, 255]);
    let mut ed = editor_with(vec![]);
    ed.set_building_configs(&configs);
    assert_eq!(ed.building_templates.len(), 1);
    assert_eq!(ed.building_templates[0].name, "Wall gun");
    ed.set_building_configs(&vec![]);
    assert_eq!(ed.building_templates.len(), 1);
    assert_eq!(ed.building_templates[0].width, 1);
}

#[test]
fn file_stems() {
    assert_eq!(file_stem("terrain_01.json"), "terrain_01");
    assert_eq!(file_stem("a.b.c"), "a");
    assert_eq!(file_stem("noext"), "noext");
    assert_eq!(file_stem(".hidden"), "");
    assert_eq!(file_stem("地图.json"), "地图");
}

#[test]
fn active_interval_is_half_open() {
    let mut ed = editor_with(vec![template("T", BuildingType::Floor, 1, 1)]);
    ed.paint(BuildingType::Floor, 0, 0, 0, 0);
    ed.place_building(0, 0, 0).unwrap();
    ed.current_wave_num = 3;
    assert!(ed.schedule_demolish(1000));
    assert_eq!(ed.find_active_building_at(0, 0), None);
    assert!(ed.can_place_building(0, 0, 1, 1, BuildingType::Floor));
    ed.current_wave_num = 2;
    ed.current_is_late = true;
    assert_eq!(ed.find_active_building_at(0, 0), Some(0));
    ed.current_wave_num = 1;
    ed.current_is_late = false;
    assert_eq!(ed.find_active_building_at(0, 0), Some(0));
    ed.current_wave_num = 0;
    ed.current_is_late = true;
    assert_eq!(ed.find_active_building_at(0, 0), None);
    ed.current_wave_num = 40;
    assert_eq!(ed.find_active_building_at(0, 0), None);
}
