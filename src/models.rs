use vstd::prelude::*;

verus! {

/// Which physical surface a building occupies and is collision-checked against.
#[derive(Clone, Copy, PartialEq, Eq, Debug, Hash, Structural)]
pub enum BuildingType {
    Floor,
    Wall,
    Ceiling,
}

/// Elevation codes of one rectangular grid, row by row.
pub open spec fn grid_view(g: Vec<Vec<i8>>) -> Seq<Seq<i8>> {
    g@.map_values(|row: Vec<i8>| row@)
}

/// One elevation band of the map, with an independent grid per surface.
///
/// `elevation_grid` is the single grid of the older file format; it is
/// consumed by [`LayerData::normalize`].
pub struct LayerData {
    pub major_z: i32,
    pub name: String,
    pub floor_grid: Vec<Vec<i8>>,
    pub wall_grid: Vec<Vec<i8>>,
    pub ceiling_grid: Vec<Vec<i8>>,
    pub elevation_grid: Option<Vec<Vec<i8>>>,
}

impl LayerData {
    /// The grid that buildings of category `t` sit on.
    pub open spec fn grid_of(self, t: BuildingType) -> Vec<Vec<i8>> {
        match t {
            BuildingType::Floor => self.floor_grid,
            BuildingType::Wall => self.wall_grid,
            BuildingType::Ceiling => self.ceiling_grid,
        }
    }

    /// This layer with the grid of category `t` replaced by `g`.
    pub open spec fn with_grid(self, t: BuildingType, g: Vec<Vec<i8>>) -> LayerData {
        match t {
            BuildingType::Floor => LayerData { floor_grid: g, ..self },
            BuildingType::Wall => LayerData { wall_grid: g, ..self },
            BuildingType::Ceiling => LayerData { ceiling_grid: g, ..self },
        }
    }

    /// The layer after migration: a legacy grid moves into an empty floor
    /// grid, and the legacy field is consumed either way.
    pub open spec fn normalized(self) -> LayerData {
        match self.elevation_grid {
            Some(g) => if self.floor_grid@.len() == 0 {
                LayerData { floor_grid: g, elevation_grid: None, ..self }
            } else {
                LayerData { elevation_grid: None, ..self }
            },
            None => self,
        }
    }

    pub fn get_grid(&self, b_type: BuildingType) -> (r: &Vec<Vec<i8>>)
        ensures
            *r == self.grid_of(b_type),
    {
        match b_type {
            BuildingType::Floor => &self.floor_grid,
            BuildingType::Wall => &self.wall_grid,
            BuildingType::Ceiling => &self.ceiling_grid,
        }
    }

    pub fn get_grid_mut(&mut self, b_type: BuildingType) -> (r: &mut Vec<Vec<i8>>)
        ensures
            *r == old(self).grid_of(b_type),
            *final(self) == old(self).with_grid(b_type, *final(r)),
    {
        match b_type {
            BuildingType::Floor => &mut self.floor_grid,
            BuildingType::Wall => &mut self.wall_grid,
            BuildingType::Ceiling => &mut self.ceiling_grid,
        }
    }

    /// Migrates a layer read in the older single-grid format.
    pub fn normalize(&mut self)
        ensures
            *final(self) == old(self).normalized(),
    {
        if let Some(old_grid) = self.elevation_grid.take() {
            if self.floor_grid.len() == 0 {
                self.floor_grid = old_grid;
            }
        }
    }
}

/// Migrating twice is the same as migrating once.
pub proof fn lemma_normalize_idempotent(l: LayerData)
    ensures
        l.normalized().normalized() == l.normalized(),
        l.normalized().elevation_grid is None,
        l.elevation_grid is Some && l.floor_grid@.len() == 0
            ==> l.normalized().floor_grid == l.elevation_grid->0,
{
}

/// Category assumed for records that do not name one.
pub fn default_building_type() -> (r: BuildingType)
    ensures
        r == BuildingType::Floor,
{
    BuildingType::Floor
}

/// Grid assumed for layers that do not carry one: no rows.
pub fn default_grid() -> (r: Vec<Vec<i8>>)
    ensures
        r@.len() == 0,
{
    Vec::new()
}

/// A placed building as written to and read from a strategy file.
pub struct BuildingExport {
    pub uid: usize,
    pub name: String,
    pub b_type: BuildingType,
    pub grid_x: usize,
    pub grid_y: usize,
    pub width: usize,
    pub height: usize,
    pub wave_num: i32,
    pub is_late: bool,
}

/// Upgrade of every building of one template name, from a point of the timeline on.
pub struct UpgradeEvent {
    pub building_name: String,
    pub wave_num: i32,
    pub is_late: bool,
}

/// Demolition of one placed building, identified by its uid.
pub struct DemolishEvent {
    pub uid: usize,
    pub name: String,
    pub grid_x: usize,
    pub grid_y: usize,
    pub width: usize,
    pub height: usize,
    pub wave_num: i32,
    pub is_late: bool,
}

/// Contents of a strategy file: buildings and the events on them.
pub struct MapBuildingsExport {
    pub map_name: String,
    pub buildings: Vec<BuildingExport>,
    pub upgrades: Vec<UpgradeEvent>,
    pub demolishes: Vec<DemolishEvent>,
}

/// One entry of a building catalog file; `color` is unmultiplied RGBA,
/// `grid_index` the entry's `[column, row]` in the catalog panel, `cost`
/// carried for the game and not read here.
pub struct BuildingConfig {
    pub name: String,
    pub b_type: BuildingType,
    pub grid_index: [usize; 2],
    pub width: usize,
    pub height: usize,
    pub color: [u8; 4],
    pub icon_path: String,
    pub cost: i64,
}

/// A bundle of files that are loaded together.
pub struct MapPreset {
    pub name: String,
    pub image_path: String,
    pub terrain_path: String,
    pub building_configs_path: String,
    pub strategy_path: String,
}

/// A catalog entry as the editor uses it; `color` is unmultiplied RGBA.
/// Icons are kept by the front end, index for index.
pub struct BuildingTemplate {
    pub name: String,
    pub b_type: BuildingType,
    pub width: usize,
    pub height: usize,
    pub color: [u8; 4],
}

/// A building on the map. Footprint and color are captured when it is placed.
pub struct PlacedBuilding {
    pub uid: usize,
    pub template_name: String,
    pub b_type: BuildingType,
    pub grid_x: usize,
    pub grid_y: usize,
    pub width: usize,
    pub height: usize,
    pub color: [u8; 4],
    pub wave_num: i32,
    pub is_late: bool,
}

/// What a pointer action on the map does.
#[derive(Clone, Copy, PartialEq, Eq, Debug, Structural)]
pub enum EditMode {
    Terrain,
    Building,
    Upgrade,
    Demolish,
}

} // verus!
