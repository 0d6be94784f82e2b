use vstd::prelude::*;
use vstd::string::StrSliceExecFns;
use crate::editor::{default_template, fallback_color, is_default_template, MapEditor, BASE_UID};
use crate::models::{
    BuildingConfig, BuildingExport, BuildingTemplate, DemolishEvent, MapBuildingsExport,
    PlacedBuilding, UpgradeEvent,
};

verus! {

/// Color of the first template named `name`, or the fallback color.
pub open spec fn template_color(ts: Seq<BuildingTemplate>, name: Seq<char>) -> [u8; 4]
    decreases ts.len(),
{
    if ts.len() == 0 {
        fallback_color()
    } else if ts[0].name@ == name {
        ts[0].color
    } else {
        template_color(ts.drop_first(), name)
    }
}

/// `b` is the building that the record `e` describes, colored `color`.
pub open spec fn placed_from(b: PlacedBuilding, e: BuildingExport, color: [u8; 4]) -> bool {
    &&& b.uid == e.uid
    &&& b.template_name@ == e.name@
    &&& b.b_type == e.b_type
    &&& b.grid_x == e.grid_x
    &&& b.grid_y == e.grid_y
    &&& b.width == e.width
    &&& b.height == e.height
    &&& b.color == color
    &&& b.wave_num == e.wave_num
    &&& b.is_late == e.is_late
}

/// `e` is the record written for building `b`.
pub open spec fn exported_from(e: BuildingExport, b: PlacedBuilding) -> bool {
    &&& e.uid == b.uid
    &&& e.name@ == b.template_name@
    &&& e.b_type == b.b_type
    &&& e.grid_x == b.grid_x
    &&& e.grid_y == b.grid_y
    &&& e.width == b.width
    &&& e.height == b.height
    &&& e.wave_num == b.wave_num
    &&& e.is_late == b.is_late
}

/// `next` is the uid counter's start after importing `s`: the base if `s` is
/// empty, else the largest uid of `s`, plus one.
pub open spec fn next_uid_after_import(s: Seq<BuildingExport>, next: int) -> bool {
    ||| s.len() == 0 && next == BASE_UID + 1
    ||| (exists|k: int| 0 <= k < s.len() && next == (#[trigger] s[k]).uid + 1) && (forall|k: int|
        0 <= k < s.len() ==> (#[trigger] s[k]).uid < next)
}

/// `t` is the template made of the catalog entry `c`.
pub open spec fn template_from(t: BuildingTemplate, c: BuildingConfig) -> bool {
    &&& t.name@ == c.name@
    &&& t.b_type == c.b_type
    &&& t.width == c.width
    &&& t.height == c.height
    &&& t.color == c.color
}

/// Color of the first template of `ts` named `name`, or the fallback color.
pub fn find_template_color(ts: &Vec<BuildingTemplate>, name: &String) -> (r: [u8; 4])
    ensures
        r == template_color(ts@, name@),
{
    let mut i: usize = 0;
    assert(ts@.skip(0) =~= ts@);
    while i < ts.len()
        invariant
            i <= ts@.len(),
            template_color(ts@, name@) == template_color(ts@.skip(i as int), name@),
        decreases ts@.len() - i,
    {
        proof {
            let s = ts@.skip(i as int);
            assert(s[0] == ts@[i as int]);
            assert(s.drop_first() =~= ts@.skip(i as int + 1));
        }
        if ts[i].name == *name {
            return ts[i].color;
        }
        i += 1;
    }
    proof {
        assert(ts@.skip(i as int).len() == 0);
    }
    [160, 160, 160, 255]
}

/// Templates for the entries of a building catalog, in order.
pub fn templates_from_configs(configs: &Vec<BuildingConfig>) -> (r: Vec<BuildingTemplate>)
    ensures
        r@.len() == configs@.len(),
        forall|k: int| 0 <= k < configs@.len() ==> template_from(#[trigger] r@[k], configs@[k]),
{
    let mut r: Vec<BuildingTemplate> = Vec::new();
    let mut i: usize = 0;
    while i < configs.len()
        invariant
            i <= configs@.len(),
            r@.len() == i,
            forall|k: int| 0 <= k < i ==> template_from(#[trigger] r@[k], configs@[k]),
        decreases configs@.len() - i,
    {
        let c = &configs[i];
        r.push(
            BuildingTemplate {
                name: c.name.clone(),
                b_type: c.b_type,
                width: c.width,
                height: c.height,
                color: c.color,
            },
        );
        i += 1;
    }
    r
}

fn copy_upgrade(e: &UpgradeEvent) -> (r: UpgradeEvent)
    ensures
        r == *e,
{
    UpgradeEvent { building_name: e.building_name.clone(), wave_num: e.wave_num, is_late: e.is_late }
}

fn copy_demolish(e: &DemolishEvent) -> (r: DemolishEvent)
    ensures
        r == *e,
{
    DemolishEvent {
        uid: e.uid,
        name: e.name.clone(),
        grid_x: e.grid_x,
        grid_y: e.grid_y,
        width: e.width,
        height: e.height,
        wave_num: e.wave_num,
        is_late: e.is_late,
    }
}

/// The characters of `s` before its first `.`, or all of them.
pub open spec fn stem(s: Seq<char>) -> Seq<char> {
    if exists|i: int| 0 <= i < s.len() && s[i] == '.' {
        s.take(choose|i: int| 0 <= i < s.len() && s[i] == '.' && forall|j: int| 0 <= j < i ==> s[j] != '.')
    } else {
        s
    }
}

/// The characters of `s` before its first `.`, or all of them.
pub fn file_stem(s: &str) -> (r: String)
    ensures
        r@ == stem(s@),
{
    let n = s.unicode_len();
    let mut i: usize = 0;
    while i < n
        invariant
            n == s@.len(),
            i <= n,
            forall|j: int| 0 <= j < i ==> s@[j] != '.',
        decreases n - i,
    {
        if s.get_char(i) == '.' {
            let ghost k = choose|k: int| 0 <= k < s@.len() && s@[k] == '.' && forall|j: int| 0 <= j < k ==> s@[j] != '.';
            proof {
                assert(s@[i as int] == '.');
                if k < i {
                } else if k > i {
                }
                assert(k == i);
            }
            return s.substring_char(0, i).to_owned();
        }
        i += 1;
    }
    assert(s@.take(n as int) =~= s@);
    s.substring_char(0, n).to_owned()
}

impl MapEditor {
    /// Name of the map: the stem of `map_filename`.
    pub fn map_name(&self) -> (r: String)
        ensures
            r@ == stem(self.map_filename@),
    {
        file_stem(self.map_filename.as_str())
    }

    /// Replaces the catalog by the templates of `configs`; an empty catalog
    /// is replaced by the default template.
    pub fn set_building_configs(&mut self, configs: &Vec<BuildingConfig>)
        requires
            old(self).wf(),
        ensures
            final(self).wf(),
            *final(self) == (MapEditor { building_templates: final(self).building_templates, ..*old(self) }),
            configs@.len() > 0 ==> final(self).building_templates@.len() == configs@.len()
                && forall|k: int|
                0 <= k < configs@.len() ==> template_from(
                    #[trigger] final(self).building_templates@[k],
                    configs@[k],
                ),
            configs@.len() == 0 ==> final(self).building_templates@.len() == 1 && is_default_template(
                final(self).building_templates@[0],
            ),
    {
        let mut ts = templates_from_configs(configs);
        if ts.len() == 0 {
            ts.push(default_template());
        }
        self.building_templates = ts;
    }

    /// Replaces buildings and events by those of a strategy file. Buildings
    /// take the color of the first template of their name. The uid counter
    /// continues after the largest uid read. Returns false, changing
    /// nothing, where a uid read is `usize::MAX`, after which no uid is left.
    pub fn load_buildings(&mut self, data: MapBuildingsExport) -> (ok: bool)
        requires
            old(self).wf(),
        ensures
            final(self).wf(),
            ok == forall|k: int| 0 <= k < data.buildings@.len() ==> (#[trigger] data.buildings@[k]).uid < usize::MAX,
            !ok ==> *final(self) == *old(self),
            ok ==> {
                &&& *final(self) == (MapEditor {
                    placed_buildings: final(self).placed_buildings,
                    next_uid: final(self).next_uid,
                    upgrade_events: final(self).upgrade_events,
                    demolish_events: final(self).demolish_events,
                    ..*old(self)
                })
                &&& final(self).placed_buildings@.len() == data.buildings@.len()
                &&& forall|k: int| 0 <= k < data.buildings@.len() ==> placed_from(
                    #[trigger] final(self).placed_buildings@[k],
                    data.buildings@[k],
                    template_color(old(self).building_templates@, data.buildings@[k].name@),
                )
                &&& next_uid_after_import(data.buildings@, final(self).next_uid as int)
                &&& final(self).upgrade_events@ == data.upgrades@
                &&& final(self).demolish_events@ == data.demolishes@
            },
    {
        let mut i: usize = 0;
        while i < data.buildings.len()
            invariant
                *self == *old(self),
                self.wf(),
                i <= data.buildings@.len(),
                forall|k: int| 0 <= k < i ==> (#[trigger] data.buildings@[k]).uid < usize::MAX,
            decreases data.buildings@.len() - i,
        {
            if data.buildings[i].uid == usize::MAX {
                return false;
            }
            i += 1;
        }
        let mut placed: Vec<PlacedBuilding> = Vec::new();
        let mut max_uid: usize = BASE_UID;
        let mut j: usize = 0;
        while j < data.buildings.len()
            invariant
                j <= data.buildings@.len(),
                placed@.len() == j,
                forall|k: int| 0 <= k < data.buildings@.len() ==> (#[trigger] data.buildings@[k]).uid < usize::MAX,
                forall|k: int| 0 <= k < j ==> placed_from(
                    #[trigger] placed@[k],
                    data.buildings@[k],
                    template_color(self.building_templates@, data.buildings@[k].name@),
                ),
                j == 0 ==> max_uid == BASE_UID,
                j > 0 ==> exists|k: int| 0 <= k < j && max_uid == (#[trigger] data.buildings@[k]).uid,
                forall|k: int| 0 <= k < j ==> (#[trigger] data.buildings@[k]).uid <= max_uid,
                max_uid < usize::MAX,
                *self == *old(self),
                self.wf(),
            decreases data.buildings@.len() - j,
        {
            let e = &data.buildings[j];
            let color = find_template_color(&self.building_templates, &e.name);
            placed.push(
                PlacedBuilding {
                    uid: e.uid,
                    template_name: e.name.clone(),
                    b_type: e.b_type,
                    grid_x: e.grid_x,
                    grid_y: e.grid_y,
                    width: e.width,
                    height: e.height,
                    color,
                    wave_num: e.wave_num,
                    is_late: e.is_late,
                },
            );
            if j == 0 || e.uid > max_uid {
                max_uid = e.uid;
            }
            j += 1;
        }
        let MapBuildingsExport { map_name: _, buildings: _, upgrades, demolishes } = data;
        self.placed_buildings = placed;
        self.next_uid = max_uid + 1;
        self.upgrade_events = upgrades;
        self.demolish_events = demolishes;
        true
    }

    /// The strategy file's contents: every building, every event, under `map_name`.
    pub fn export_buildings(&self, map_name: String) -> (r: MapBuildingsExport)
        ensures
            r.map_name == map_name,
            r.buildings@.len() == self.placed_buildings@.len(),
            forall|k: int| 0 <= k < self.placed_buildings@.len() ==> exported_from(
                #[trigger] r.buildings@[k],
                self.placed_buildings@[k],
            ),
            r.upgrades@ == self.upgrade_events@,
            r.demolishes@ == self.demolish_events@,
    {
        let mut buildings: Vec<BuildingExport> = Vec::new();
        let mut i: usize = 0;
        while i < self.placed_buildings.len()
            invariant
                i <= self.placed_buildings@.len(),
                buildings@.len() == i,
                forall|k: int| 0 <= k < i ==> exported_from(#[trigger] buildings@[k], self.placed_buildings@[k]),
            decreases self.placed_buildings@.len() - i,
        {
            let b = &self.placed_buildings[i];
            buildings.push(
                BuildingExport {
                    uid: b.uid,
                    name: b.template_name.clone(),
                    b_type: b.b_type,
                    grid_x: b.grid_x,
                    grid_y: b.grid_y,
                    width: b.width,
                    height: b.height,
                    wave_num: b.wave_num,
                    is_late: b.is_late,
                },
            );
            i += 1;
        }
        let mut upgrades: Vec<UpgradeEvent> = Vec::new();
        let mut k: usize = 0;
        while k < self.upgrade_events.len()
            invariant
                k <= self.upgrade_events@.len(),
                upgrades@ == self.upgrade_events@.take(k as int),
            decreases self.upgrade_events@.len() - k,
        {
            upgrades.push(copy_upgrade(&self.upgrade_events[k]));
            assert(upgrades@ =~= self.upgrade_events@.take(k as int + 1));
            k += 1;
        }
        let mut demolishes: Vec<DemolishEvent> = Vec::new();
        let mut d: usize = 0;
        while d < self.demolish_events.len()
            invariant
                d <= self.demolish_events@.len(),
                demolishes@ == self.demolish_events@.take(d as int),
            decreases self.demolish_events@.len() - d,
        {
            demolishes.push(copy_demolish(&self.demolish_events[d]));
            assert(demolishes@ =~= self.demolish_events@.take(d as int + 1));
            d += 1;
        }
        assert(upgrades@ =~= self.upgrade_events@);
        assert(demolishes@ =~= self.demolish_events@);
        MapBuildingsExport { map_name, buildings, upgrades, demolishes }
    }
}

} // verus!
