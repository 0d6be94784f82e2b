use vstd::prelude::*;
use crate::models::{grid_view, BuildingTemplate, BuildingType, DemolishEvent, LayerData, PlacedBuilding, UpgradeEvent};
use crate::timeline::{demolition_time, is_active, NEVER};
use crate::utils::time_value;

verus! {

/// Cell value of an impassable cell, and of every cell a resize adds.
pub const OBSTACLE: i8 = -1;

/// Rows and columns of the grid of a new map.
pub const DEFAULT_GRID_SIZE: usize = 40;

/// The uid counter of a new map; an import with no buildings continues from here.
pub const BASE_UID: usize = 1000;

/// `g` has exactly `rows` rows of `cols` cells each.
pub open spec fn grid_dims(g: Vec<Vec<i8>>, rows: int, cols: int) -> bool {
    &&& g@.len() == rows
    &&& forall|i: int| 0 <= i < rows ==> (#[trigger] g@[i])@.len() == cols
}

/// All three grids of `l` are `rows × cols`.
pub open spec fn layer_dims(l: LayerData, rows: int, cols: int) -> bool {
    &&& grid_dims(l.floor_grid, rows, cols)
    &&& grid_dims(l.wall_grid, rows, cols)
    &&& grid_dims(l.ceiling_grid, rows, cols)
}

/// Layers are kept ordered by strictly increasing `major_z`, so each key occurs once.
pub open spec fn layers_sorted(s: Seq<LayerData>) -> bool {
    forall|i: int, j: int| 0 <= i < j < s.len() ==> s[i].major_z < s[j].major_z
}

pub open spec fn has_layer(s: Seq<LayerData>, z: i32) -> bool {
    exists|i: int| 0 <= i < s.len() && s[i].major_z == z
}

pub open spec fn layer_index(s: Seq<LayerData>, z: i32) -> int {
    choose|i: int| 0 <= i < s.len() && s[i].major_z == z
}

/// The layers as a map from `major_z`.
pub open spec fn layer_map(s: Seq<LayerData>) -> Map<i32, LayerData> {
    Map::new(|z: i32| has_layer(s, z), |z: i32| s[layer_index(s, z)])
}

/// Half-open overlap of the footprint at row `r`, column `c`, `w` wide and
/// `h` high with the footprint of `b`.
pub open spec fn footprints_overlap(r: int, c: int, w: int, h: int, b: PlacedBuilding) -> bool {
    &&& c < b.grid_x + b.width
    &&& c + w > b.grid_x
    &&& r < b.grid_y + b.height
    &&& r + h > b.grid_y
}

/// Whether terrain of code `id` can carry a building of category `t`.
pub open spec fn terrain_capable(id: i8, t: BuildingType) -> bool {
    id >= 0
}

/// `new` is `old` with each of its three grids resized to `rows × cols`.
pub open spec fn layer_resized(new: LayerData, old: LayerData, rows: int, cols: int) -> bool {
    &&& new.major_z == old.major_z
    &&& new.name == old.name
    &&& new.elevation_grid == old.elevation_grid
    &&& forall|t: BuildingType|
        grid_view(#[trigger] new.grid_of(t)) == resized(grid_view(old.grid_of(t)), rows, cols)
}

/// The footprint of `b` contains column `x`, row `y`.
pub open spec fn covers(b: PlacedBuilding, x: int, y: int) -> bool {
    b.grid_x <= x < b.grid_x + b.width && b.grid_y <= y < b.grid_y + b.height
}

/// Some building of `s` has uid `uid`.
pub open spec fn has_uid(s: Seq<PlacedBuilding>, uid: usize) -> bool {
    exists|k: int| 0 <= k < s.len() && (#[trigger] s[k]).uid == uid
}

/// The buildings of `s` whose footprint does not contain column `x`, row `y`.
pub open spec fn kept_after_erase(s: Seq<PlacedBuilding>, x: int, y: int) -> Seq<PlacedBuilding> {
    s.filter(|b: PlacedBuilding| !covers(b, x, y))
}

/// The uids of the buildings of `s` whose footprint contains column `x`, row `y`.
pub open spec fn erased_uids(s: Seq<PlacedBuilding>, x: int, y: int) -> Seq<usize> {
    s.filter(|b: PlacedBuilding| covers(b, x, y)).map_values(|b: PlacedBuilding| b.uid)
}

/// The events of `events` whose building is among `placed`.
pub open spec fn events_of(events: Seq<DemolishEvent>, placed: Seq<PlacedBuilding>) -> Seq<DemolishEvent> {
    events.filter(|e: DemolishEvent| has_uid(placed, e.uid))
}

/// Some event of `events` is for building `uid`.
pub open spec fn has_event(events: Seq<DemolishEvent>, uid: usize) -> bool {
    exists|k: int| 0 <= k < events.len() && (#[trigger] events[k]).uid == uid
}

/// The footprints of `a` and `b` share a cell.
pub open spec fn buildings_intersect(a: PlacedBuilding, b: PlacedBuilding) -> bool {
    footprints_overlap(a.grid_y as int, a.grid_x as int, a.width as int, a.height as int, b)
}

/// `k` is the first index of `s` that holds a building with uid `uid`.
pub open spec fn is_first_with_uid(s: Seq<PlacedBuilding>, uid: usize, k: int) -> bool {
    &&& 0 <= k < s.len()
    &&& s[k].uid == uid
    &&& forall|j: int| 0 <= j < k ==> (#[trigger] s[j]).uid != uid
}

/// The demolish event for building `b`, at wave `wave_num`, phase `is_late`.
pub open spec fn demolish_event_for(e: DemolishEvent, b: PlacedBuilding, wave_num: i32, is_late: bool) -> bool {
    &&& e.uid == b.uid
    &&& e.name@ == b.template_name@
    &&& e.grid_x == b.grid_x
    &&& e.grid_y == b.grid_y
    &&& e.width == b.width
    &&& e.height == b.height
    &&& e.wave_num == wave_num
    &&& e.is_late == is_late
}

/// `g` with `v` written into every cell within Chebyshev distance `rad` of
/// row `r`, column `c`.
pub open spec fn painted(g: Seq<Seq<i8>>, r: int, c: int, rad: int, v: i8) -> Seq<Seq<i8>> {
    Seq::new(
        g.len(),
        |i: int|
            Seq::new(
                g[i].len(),
                |j: int|
                    if r - rad <= i <= r + rad && c - rad <= j <= c + rad {
                        v
                    } else {
                        g[i][j]
                    },
            ),
    )
}

/// Editing state of one map: terrain layers, catalog, placed buildings,
/// timeline cursor and the events on the timeline.
pub struct MapEditor {
    pub grid_rows: usize,
    pub grid_cols: usize,
    pub current_major_z: i32,
    /// Ordered by `major_z`, one layer per key.
    pub layers_data: Vec<LayerData>,
    pub building_templates: Vec<BuildingTemplate>,
    pub placed_buildings: Vec<PlacedBuilding>,
    pub next_uid: usize,
    pub current_wave_num: i32,
    pub current_is_late: bool,
    pub upgrade_events: Vec<UpgradeEvent>,
    pub demolish_events: Vec<DemolishEvent>,
    /// File name of the terrain in use; its stem names the exported files.
    pub map_filename: String,
}

impl MapEditor {
    /// Every part of well-formedness but the grid sizes.
    pub open spec fn wf_layers(self) -> bool {
        &&& layers_sorted(self.layers_data@)
        &&& has_layer(self.layers_data@, self.current_major_z)
        &&& self.building_templates@.len() > 0
        &&& forall|k: int|
            0 <= k < self.placed_buildings@.len() ==> (#[trigger] self.placed_buildings@[k]).uid
                < self.next_uid
    }

    pub open spec fn wf(self) -> bool {
        &&& self.wf_layers()
        &&& forall|i: int|
            0 <= i < self.layers_data@.len() ==> layer_dims(
                #[trigger] self.layers_data@[i],
                self.grid_rows as int,
                self.grid_cols as int,
            )
    }

    pub open spec fn current_time(self) -> int {
        time_value(self.current_wave_num as int, self.current_is_late)
    }

    pub open spec fn current_layer(self) -> LayerData {
        self.layers_data@[layer_index(self.layers_data@, self.current_major_z)]
    }

    /// Whether a building of category `t`, `w` wide and `h` high, may stand
    /// with its top-left cell at row `r`, column `c` at the current time.
    pub open spec fn placeable(self, r: int, c: int, w: int, h: int, t: BuildingType) -> bool {
        let g = self.current_layer().grid_of(t)@;
        &&& r + h <= self.grid_rows && c + w <= self.grid_cols
        &&& r < self.grid_rows && c < self.grid_cols
        &&& g.len() > 0
        &&& g[r]@[c] >= 0
        &&& forall|i: int, j: int|
            r <= i < r + h && c <= j < c + w ==> (#[trigger] g[i]@[j]) == g[r]@[c]
                && terrain_capable(g[i]@[j], t)
        &&& forall|k: int|
            0 <= k < self.placed_buildings@.len() && (#[trigger] self.placed_buildings@[k]).b_type
                == t && footprints_overlap(r, c, w, h, self.placed_buildings@[k]) ==> !is_active(
                self.placed_buildings@[k],
                self.current_time(),
                self.demolish_events@,
            )
    }

    /// Index of the layer being edited.
    fn current_layer_index(&self) -> (i: usize)
        requires
            self.wf_layers(),
        ensures
            i < self.layers_data@.len(),
            i == layer_index(self.layers_data@, self.current_major_z),
    {
        let mut i: usize = 0;
        while i < self.layers_data.len()
            invariant
                self.wf_layers(),
                i <= self.layers_data@.len(),
                forall|j: int| 0 <= j < i ==> self.layers_data@[j].major_z != self.current_major_z,
            decreases self.layers_data@.len() - i,
        {
            if self.layers_data[i].major_z == self.current_major_z {
                let ghost z = self.current_major_z;
                proof {
                    let k = layer_index(self.layers_data@, z);
                    assert(self.layers_data@[k].major_z == z);
                    assert(k == i as int) by {
                        if k < i {
                        } else if k > i {
                            assert(self.layers_data@[i as int].major_z < self.layers_data@[k].major_z);
                        }
                    }
                }
                return i;
            }
            i += 1;
        }
        proof {
            let k = layer_index(self.layers_data@, self.current_major_z);
            assert(self.layers_data@[k].major_z == self.current_major_z);
        }
        0
    }

    /// Brings every grid of every layer to the current `grid_rows × grid_cols`,
    /// keeping the cells inside both the old and the new size and filling
    /// the others with `OBSTACLE`.
    pub fn resize_grids(&mut self)
        requires
            old(self).wf_layers(),
        ensures
            final(self).wf(),
            *final(self) == (MapEditor { layers_data: final(self).layers_data, ..*old(self) }),
            final(self).layers_data@.len() == old(self).layers_data@.len(),
            forall|i: int|
                0 <= i < old(self).layers_data@.len() ==> layer_resized(
                    #[trigger] final(self).layers_data@[i],
                    old(self).layers_data@[i],
                    old(self).grid_rows as int,
                    old(self).grid_cols as int,
                ),
    {
        let rows = self.grid_rows;
        let cols = self.grid_cols;
        let ghost old_layers = self.layers_data@;
        let mut i: usize = 0;
        while i < self.layers_data.len()
            invariant
                *self == (MapEditor { layers_data: self.layers_data, ..*old(self) }),
                rows == self.grid_rows,
                cols == self.grid_cols,
                self.layers_data@.len() == old_layers.len(),
                old_layers == old(self).layers_data@,
                i <= old_layers.len(),
                forall|k: int|
                    0 <= k < i ==> layer_resized(
                        #[trigger] self.layers_data@[k],
                        old_layers[k],
                        rows as int,
                        cols as int,
                    ) && layer_dims(self.layers_data@[k], rows as int, cols as int),
                forall|k: int| i <= k < old_layers.len() ==> #[trigger] self.layers_data@[k] == old_layers[k],
            decreases old_layers.len() - i,
        {
            resize_grid(&mut self.layers_data[i].floor_grid, rows, cols);
            resize_grid(&mut self.layers_data[i].wall_grid, rows, cols);
            resize_grid(&mut self.layers_data[i].ceiling_grid, rows, cols);
            proof {
                let l = self.layers_data@[i as int];
                let o = old_layers[i as int];
                assert forall|t: BuildingType|
                    grid_view(#[trigger] l.grid_of(t)) == resized(grid_view(o.grid_of(t)), rows as int, cols as int) by {
                    match t {
                        BuildingType::Floor => {},
                        BuildingType::Wall => {},
                        BuildingType::Ceiling => {},
                    }
                }
            }
            i += 1;
        }
        proof {
            assert forall|a: int, b: int| 0 <= a < b < self.layers_data@.len() implies
                self.layers_data@[a].major_z < self.layers_data@[b].major_z by {
                assert(layer_resized(self.layers_data@[a], old_layers[a], rows as int, cols as int));
                assert(layer_resized(self.layers_data@[b], old_layers[b], rows as int, cols as int));
            }
            let z = self.current_major_z;
            let k = layer_index(old_layers, z);
            assert(layer_resized(self.layers_data@[k], old_layers[k], rows as int, cols as int));
            assert(self.layers_data@[k].major_z == z);
        }
    }

    /// Places a building of template `template_idx` with its top-left cell at
    /// row `r`, column `c`, at the current time, and returns its new uid.
    /// Returns `None`, changing nothing, where the placement is not allowed
    /// or the uid counter is exhausted.
    pub fn place_building(&mut self, template_idx: usize, r: usize, c: usize) -> (res: Option<usize>)
        requires
            old(self).wf(),
            template_idx < old(self).building_templates@.len(),
        ensures
            final(self).wf(),
            ({
                let t = old(self).building_templates@[template_idx as int];
                res is Some <==> old(self).placeable(r as int, c as int, t.width as int, t.height as int, t.b_type)
                    && old(self).next_uid < usize::MAX
            }),
            res is None ==> *final(self) == *old(self),
            res matches Some(uid) ==> {
                let t = old(self).building_templates@[template_idx as int];
                let b = final(self).placed_buildings@.last();
                &&& uid == old(self).next_uid
                &&& final(self).next_uid == uid + 1
                &&& *final(self) == (MapEditor {
                    placed_buildings: final(self).placed_buildings,
                    next_uid: final(self).next_uid,
                    ..*old(self)
                })
                &&& final(self).placed_buildings@ == old(self).placed_buildings@.push(b)
                &&& b.uid == uid
                &&& b.template_name@ == t.name@
                &&& b.b_type == t.b_type
                &&& b.grid_x == c && b.grid_y == r
                &&& b.width == t.width && b.height == t.height
                &&& b.color == t.color
                &&& b.wave_num == old(self).current_wave_num
                &&& b.is_late == old(self).current_is_late
                &&& forall|k: int|
                    0 <= k < old(self).placed_buildings@.len()
                        ==> (#[trigger] old(self).placed_buildings@[k]).uid < uid
                &&& forall|k: int|
                    0 <= k < old(self).placed_buildings@.len() && (#[trigger] old(
                        self,
                    ).placed_buildings@[k]).b_type == b.b_type && buildings_intersect(
                        b,
                        old(self).placed_buildings@[k],
                    ) ==> !(is_active(
                        old(self).placed_buildings@[k],
                        old(self).current_time(),
                        old(self).demolish_events@,
                    ) && is_active(b, old(self).current_time(), old(self).demolish_events@))
            },
    {
        let t = &self.building_templates[template_idx];
        if !self.can_place_building(r, c, t.width, t.height, t.b_type) {
            return None;
        }
        if self.next_uid == usize::MAX {
            return None;
        }
        let uid = self.next_uid;
        let b = PlacedBuilding {
            uid,
            template_name: t.name.clone(),
            b_type: t.b_type,
            grid_x: c,
            grid_y: r,
            width: t.width,
            height: t.height,
            color: t.color,
            wave_num: self.current_wave_num,
            is_late: self.current_is_late,
        };
        self.placed_buildings.push(b);
        self.next_uid = uid + 1;
        Some(uid)
    }

    /// Removes every building whose footprint contains column `x`, row `y`,
    /// of any category and at any time, then every demolish event whose
    /// building is gone. Returns the uids removed, in order.
    pub fn erase_at(&mut self, x: i32, y: i32) -> (removed: Vec<usize>)
        requires
            old(self).wf(),
        ensures
            final(self).wf(),
            final(self).placed_buildings@ == kept_after_erase(old(self).placed_buildings@, x as int, y as int),
            removed@ == erased_uids(old(self).placed_buildings@, x as int, y as int),
            final(self).demolish_events@ == events_of(old(self).demolish_events@, final(self).placed_buildings@),
            *final(self) == (MapEditor {
                placed_buildings: final(self).placed_buildings,
                demolish_events: final(self).demolish_events,
                ..*old(self)
            }),
    {
        let ghost old_placed = self.placed_buildings@;
        let ghost n = old_placed.len() as int;
        let mut rest: Vec<PlacedBuilding> = Vec::new();
        std::mem::swap(&mut self.placed_buildings, &mut rest);
        let mut removed: Vec<usize> = Vec::new();
        assert(old_placed.take(0) =~= Seq::<PlacedBuilding>::empty());
        proof {
            reveal(Seq::filter);
        }
        while rest.len() > 0
            invariant
                rest@.len() <= n,
                rest@ == old_placed.skip(n - rest@.len()),
                self.placed_buildings@ == kept_after_erase(old_placed.take(n - rest@.len()), x as int, y as int),
                removed@ == erased_uids(old_placed.take(n - rest@.len()), x as int, y as int),
                *self == (MapEditor { placed_buildings: self.placed_buildings, ..*old(self) }),
                n == old(self).placed_buildings@.len(),
                old_placed == old(self).placed_buildings@,
                old(self).wf(),
                forall|k: int|
                    0 <= k < self.placed_buildings@.len() ==> (#[trigger] self.placed_buildings@[k]).uid
                        < self.next_uid,
            decreases rest@.len(),
        {
            let ghost m = n - rest@.len();
            let b = rest.remove(0);
            proof {
                assert(b == old_placed[m]);
                assert(rest@ =~= old_placed.skip(m + 1));
                assert(old_placed.take(m + 1).drop_last() =~= old_placed.take(m));
                assert(old_placed.take(m + 1).last() == b);
                reveal(Seq::filter);
            }
            if (b.grid_x as i128) <= x as i128 && (x as i128) < b.grid_x as i128 + b.width as i128
                && (b.grid_y as i128) <= y as i128 && (y as i128) < b.grid_y as i128 + b.height as i128 {
                let ghost before = removed@;
                removed.push(b.uid);
                proof {
                    let f = |b: PlacedBuilding| covers(b, x as int, y as int);
                    let g = |b: PlacedBuilding| b.uid;
                    assert(old_placed.take(m + 1).filter(f) == old_placed.take(m).filter(f).push(b));
                    assert(old_placed.take(m).filter(f).push(b).map_values(g) =~= old_placed.take(m).filter(f).map_values(g).push(b.uid));
                }
            } else {
                self.placed_buildings.push(b);
            }
        }
        assert(old_placed.take(n) =~= old_placed);
        let ghost final_placed = self.placed_buildings@;
        let ghost old_events = self.demolish_events@;
        let ghost ne = old_events.len() as int;
        let mut pending: Vec<DemolishEvent> = Vec::new();
        std::mem::swap(&mut self.demolish_events, &mut pending);
        assert(old_events.take(0) =~= Seq::<DemolishEvent>::empty());
        while pending.len() > 0
            invariant
                pending@.len() <= ne,
                pending@ == old_events.skip(ne - pending@.len()),
                self.demolish_events@ == events_of(old_events.take(ne - pending@.len()), final_placed),
                self.placed_buildings@ == final_placed,
                *self == (MapEditor {
                    placed_buildings: self.placed_buildings,
                    demolish_events: self.demolish_events,
                    ..*old(self)
                }),
                ne == old_events.len(),
                old(self).wf(),
                forall|k: int|
                    0 <= k < self.placed_buildings@.len() ==> (#[trigger] self.placed_buildings@[k]).uid
                        < self.next_uid,
            decreases pending@.len(),
        {
            let ghost m = ne - pending@.len();
            let e = pending.remove(0);
            proof {
                assert(e == old_events[m]);
                assert(pending@ =~= old_events.skip(m + 1));
                assert(old_events.take(m + 1).drop_last() =~= old_events.take(m));
                assert(old_events.take(m + 1).last() == e);
                reveal(Seq::filter);
            }
            if contains_uid(&self.placed_buildings, e.uid) {
                self.demolish_events.push(e);
            }
        }
        assert(old_events.take(ne) =~= old_events);
        removed
    }

    /// Appends a demolish event at the current time for the first building
    /// with uid `uid`. Does nothing, and returns false, where that building
    /// already has a demolish event or there is no such building.
    pub fn schedule_demolish(&mut self, uid: usize) -> (r: bool)
        requires
            old(self).wf(),
        ensures
            final(self).wf(),
            r == (has_uid(old(self).placed_buildings@, uid) && !has_event(old(self).demolish_events@, uid)),
            !r ==> *final(self) == *old(self),
            r ==> {
                let e = final(self).demolish_events@.last();
                &&& *final(self) == (MapEditor { demolish_events: final(self).demolish_events, ..*old(self) })
                &&& final(self).demolish_events@ == old(self).demolish_events@.push(e)
                &&& exists|k: int|
                    is_first_with_uid(old(self).placed_buildings@, uid, k) && demolish_event_for(
                        e,
                        #[trigger] old(self).placed_buildings@[k],
                        old(self).current_wave_num,
                        old(self).current_is_late,
                    )
            },
    {
        let mut i: usize = 0;
        while i < self.demolish_events.len()
            invariant
                *self == *old(self),
                self.wf(),
                i <= self.demolish_events@.len(),
                forall|k: int| 0 <= k < i ==> (#[trigger] self.demolish_events@[k]).uid != uid,
            decreases self.demolish_events@.len() - i,
        {
            if self.demolish_events[i].uid == uid {
                return false;
            }
            i += 1;
        }
        let mut k: usize = 0;
        while k < self.placed_buildings.len()
            invariant
                *self == *old(self),
                self.wf(),
                !has_event(self.demolish_events@, uid),
                k <= self.placed_buildings@.len(),
                forall|j: int| 0 <= j < k ==> (#[trigger] self.placed_buildings@[j]).uid != uid,
            decreases self.placed_buildings@.len() - k,
        {
            if self.placed_buildings[k].uid == uid {
                let b = &self.placed_buildings[k];
                let e = DemolishEvent {
                    uid: b.uid,
                    name: b.template_name.clone(),
                    grid_x: b.grid_x,
                    grid_y: b.grid_y,
                    width: b.width,
                    height: b.height,
                    wave_num: self.current_wave_num,
                    is_late: self.current_is_late,
                };
                self.demolish_events.push(e);
                assert(is_first_with_uid(old(self).placed_buildings@, uid, k as int));
                return true;
            }
            k += 1;
        }
        false
    }

    /// Index of the first building whose footprint contains column `x`, row
    /// `y` and that is active at the current time.
    pub fn find_active_building_at(&self, x: i32, y: i32) -> (r: Option<usize>)
        ensures
            r matches Some(k) ==> {
                &&& k < self.placed_buildings@.len()
                &&& covers(self.placed_buildings@[k as int], x as int, y as int)
                &&& is_active(self.placed_buildings@[k as int], self.current_time(), self.demolish_events@)
            },
            forall|j: int|
                0 <= j < self.placed_buildings@.len() && (r matches Some(k) ==> j < k) ==> !(covers(
                    #[trigger] self.placed_buildings@[j],
                    x as int,
                    y as int,
                ) && is_active(self.placed_buildings@[j], self.current_time(), self.demolish_events@)),
    {
        let t_current = time_key(self.current_wave_num, self.current_is_late);
        let mut k: usize = 0;
        while k < self.placed_buildings.len()
            invariant
                k <= self.placed_buildings@.len(),
                t_current as int == self.current_time(),
                forall|j: int|
                    0 <= j < k ==> !(covers(#[trigger] self.placed_buildings@[j], x as int, y as int)
                        && is_active(self.placed_buildings@[j], self.current_time(), self.demolish_events@)),
            decreases self.placed_buildings@.len() - k,
        {
            if self.is_active_at(k, x, y, t_current) {
                return Some(k);
            }
            k += 1;
        }
        None
    }

    /// Indices, in order, of every building whose footprint contains column
    /// `x`, row `y` and that is active at the current time.
    pub fn active_buildings_at(&self, x: i32, y: i32) -> (r: Vec<usize>)
        ensures
            forall|i: int| 0 <= i < r@.len() ==> {
                &&& (#[trigger] r@[i]) < self.placed_buildings@.len()
                &&& covers(self.placed_buildings@[r@[i] as int], x as int, y as int)
                &&& is_active(self.placed_buildings@[r@[i] as int], self.current_time(), self.demolish_events@)
            },
            forall|i: int, j: int| 0 <= i < j < r@.len() ==> r@[i] < r@[j],
            forall|k: int|
                0 <= k < self.placed_buildings@.len() && covers(
                    #[trigger] self.placed_buildings@[k],
                    x as int,
                    y as int,
                ) && is_active(self.placed_buildings@[k], self.current_time(), self.demolish_events@)
                    ==> r@.contains(k as usize),
    {
        let t_current = time_key(self.current_wave_num, self.current_is_late);
        let mut out: Vec<usize> = Vec::new();
        let mut k: usize = 0;
        while k < self.placed_buildings.len()
            invariant
                k <= self.placed_buildings@.len(),
                t_current as int == self.current_time(),
                forall|i: int| 0 <= i < out@.len() ==> {
                    &&& (#[trigger] out@[i]) < k
                    &&& covers(self.placed_buildings@[out@[i] as int], x as int, y as int)
                    &&& is_active(self.placed_buildings@[out@[i] as int], self.current_time(), self.demolish_events@)
                },
                forall|i: int, j: int| 0 <= i < j < out@.len() ==> out@[i] < out@[j],
                forall|m: int|
                    0 <= m < k && covers(#[trigger] self.placed_buildings@[m], x as int, y as int)
                        && is_active(self.placed_buildings@[m], self.current_time(), self.demolish_events@)
                        ==> out@.contains(m as usize),
            decreases self.placed_buildings@.len() - k,
        {
            if self.is_active_at(k, x, y, t_current) {
                let ghost old_out = out@;
                out.push(k);
                assert(out@[out@.len() - 1] == k);
                assert forall|m: usize| #[trigger] old_out.contains(m) implies out@.contains(m) by {
                    let i = choose|i: int| 0 <= i < old_out.len() && old_out[i] == m;
                    assert(out@[i] == m);
                }
            }
            k += 1;
        }
        out
    }

    /// Whether building `k` covers column `x`, row `y` and is active at time `t`.
    fn is_active_at(&self, k: usize, x: i32, y: i32, t: i64) -> (r: bool)
        requires
            k < self.placed_buildings@.len(),
        ensures
            r == (covers(self.placed_buildings@[k as int], x as int, y as int) && is_active(
                self.placed_buildings@[k as int],
                t as int,
                self.demolish_events@,
            )),
    {
        let b = &self.placed_buildings[k];
        (b.grid_x as i128) <= x as i128 && (x as i128) < b.grid_x as i128 + b.width as i128
            && (b.grid_y as i128) <= y as i128 && (y as i128) < b.grid_y as i128 + b.height as i128
            && t >= time_key(b.wave_num, b.is_late) && t < self.get_building_demolish_time(b.uid)
    }

    /// Appends an upgrade of template `template_idx` at the current time.
    pub fn add_upgrade(&mut self, template_idx: usize)
        requires
            old(self).wf(),
            template_idx < old(self).building_templates@.len(),
        ensures
            final(self).wf(),
            *final(self) == (MapEditor { upgrade_events: final(self).upgrade_events, ..*old(self) }),
            final(self).upgrade_events@.len() == old(self).upgrade_events@.len() + 1,
            final(self).upgrade_events@.drop_last() == old(self).upgrade_events@,
            final(self).upgrade_events@.last().building_name@ == old(self).building_templates@[template_idx as int].name@,
            final(self).upgrade_events@.last().wave_num == old(self).current_wave_num,
            final(self).upgrade_events@.last().is_late == old(self).current_is_late,
    {
        let ev = UpgradeEvent {
            building_name: self.building_templates[template_idx].name.clone(),
            wave_num: self.current_wave_num,
            is_late: self.current_is_late,
        };
        self.upgrade_events.push(ev);
        assert(self.upgrade_events@.drop_last() =~= old(self).upgrade_events@);
    }

    /// Deletes the upgrade event at position `index`.
    pub fn remove_upgrade(&mut self, index: usize)
        requires
            old(self).wf(),
            index < old(self).upgrade_events@.len(),
        ensures
            final(self).wf(),
            *final(self) == (MapEditor { upgrade_events: final(self).upgrade_events, ..*old(self) }),
            final(self).upgrade_events@ == old(self).upgrade_events@.remove(index as int),
    {
        self.upgrade_events.remove(index);
    }

    /// Deletes the demolish event at position `index`.
    pub fn remove_demolish(&mut self, index: usize)
        requires
            old(self).wf(),
            index < old(self).demolish_events@.len(),
        ensures
            final(self).wf(),
            *final(self) == (MapEditor { demolish_events: final(self).demolish_events, ..*old(self) }),
            final(self).demolish_events@ == old(self).demolish_events@.remove(index as int),
    {
        self.demolish_events.remove(index);
    }

    /// A new map: one layer at `major_z` 0 whose grids are all `OBSTACLE`,
    /// `DEFAULT_GRID_SIZE` square, with the cursor at wave 1, early phase.
    /// An empty catalog is replaced by a single 1×1 floor template.
    pub fn new(templates: Vec<BuildingTemplate>) -> (r: MapEditor)
        ensures
            r.wf(),
            r.grid_rows == DEFAULT_GRID_SIZE && r.grid_cols == DEFAULT_GRID_SIZE,
            r.current_major_z == 0,
            r.layers_data@.len() == 1,
            r.layers_data@[0].major_z == 0,
            r.layers_data@[0].elevation_grid is None,
            forall|t: BuildingType|
                grid_view(#[trigger] r.layers_data@[0].grid_of(t)) == resized(
                    Seq::empty(),
                    DEFAULT_GRID_SIZE as int,
                    DEFAULT_GRID_SIZE as int,
                ),
            templates@.len() > 0 ==> r.building_templates@ == templates@,
            templates@.len() == 0 ==> r.building_templates@.len() == 1 && is_default_template(
                r.building_templates@[0],
            ),
            r.placed_buildings@.len() == 0,
            r.next_uid == BASE_UID,
            r.current_wave_num == 1,
            !r.current_is_late,
            r.upgrade_events@.len() == 0,
            r.demolish_events@.len() == 0,
            r.map_filename@ == "terrain_01.json"@,
    {
        let mut building_templates = templates;
        if building_templates.len() == 0 {
            building_templates.push(default_template());
        }
        let mut floor_grid: Vec<Vec<i8>> = Vec::new();
        assert(grid_view(floor_grid) =~= Seq::empty());
        resize_grid(&mut floor_grid, DEFAULT_GRID_SIZE, DEFAULT_GRID_SIZE);
        let mut wall_grid: Vec<Vec<i8>> = Vec::new();
        assert(grid_view(wall_grid) =~= Seq::empty());
        resize_grid(&mut wall_grid, DEFAULT_GRID_SIZE, DEFAULT_GRID_SIZE);
        let mut ceiling_grid: Vec<Vec<i8>> = Vec::new();
        assert(grid_view(ceiling_grid) =~= Seq::empty());
        resize_grid(&mut ceiling_grid, DEFAULT_GRID_SIZE, DEFAULT_GRID_SIZE);
        let layer = LayerData {
            major_z: 0,
            name: "Default Layer".to_owned(),
            floor_grid,
            wall_grid,
            ceiling_grid,
            elevation_grid: None,
        };
        let mut layers_data: Vec<LayerData> = Vec::new();
        layers_data.push(layer);
        let r = MapEditor {
            grid_rows: DEFAULT_GRID_SIZE,
            grid_cols: DEFAULT_GRID_SIZE,
            current_major_z: 0,
            layers_data,
            building_templates,
            placed_buildings: Vec::new(),
            next_uid: BASE_UID,
            current_wave_num: 1,
            current_is_late: false,
            upgrade_events: Vec::new(),
            demolish_events: Vec::new(),
            map_filename: "terrain_01.json".to_owned(),
        };
        proof {
            assert(r.layers_data@[0].major_z == 0);
            assert(has_layer(r.layers_data@, 0));
            assert forall|t: BuildingType|
                grid_view(#[trigger] r.layers_data@[0].grid_of(t)) == resized(
                    Seq::empty(),
                    DEFAULT_GRID_SIZE as int,
                    DEFAULT_GRID_SIZE as int,
                ) by {
                match t {
                    BuildingType::Floor => {},
                    BuildingType::Wall => {},
                    BuildingType::Ceiling => {},
                }
            }
        }
        r
    }

    /// Changes the grid size and resizes every grid of every layer to it.
    pub fn set_grid_size(&mut self, rows: usize, cols: usize)
        requires
            old(self).wf(),
        ensures
            final(self).wf(),
            final(self).grid_rows == rows && final(self).grid_cols == cols,
            *final(self) == (MapEditor {
                layers_data: final(self).layers_data,
                grid_rows: rows,
                grid_cols: cols,
                ..*old(self)
            }),
            final(self).layers_data@.len() == old(self).layers_data@.len(),
            forall|i: int|
                0 <= i < old(self).layers_data@.len() ==> layer_resized(
                    #[trigger] final(self).layers_data@[i],
                    old(self).layers_data@[i],
                    rows as int,
                    cols as int,
                ),
    {
        self.grid_rows = rows;
        self.grid_cols = cols;
        self.resize_grids();
    }

    /// Writes `value` into every cell of the current layer's grid for
    /// category `b_type` that lies within Chebyshev distance `radius` of row
    /// `r`, column `c`; cells outside the grid are skipped.
    pub fn paint(&mut self, b_type: BuildingType, r: i32, c: i32, radius: i32, value: i8)
        requires
            old(self).wf(),
            radius >= 0,
            -1 <= value <= 3,
        ensures
            final(self).wf(),
            *final(self) == (MapEditor { layers_data: final(self).layers_data, ..*old(self) }),
            ({
                let li = layer_index(old(self).layers_data@, old(self).current_major_z);
                let ol = old(self).layers_data@[li];
                let nl = final(self).layers_data@[li];
                &&& final(self).layers_data@ == old(self).layers_data@.update(li, nl)
                &&& nl == ol.with_grid(b_type, nl.grid_of(b_type))
                &&& grid_view(nl.grid_of(b_type)) == painted(
                    grid_view(ol.grid_of(b_type)),
                    r as int,
                    c as int,
                    radius as int,
                    value,
                )
            }),
    {
        let rows = self.grid_rows;
        let cols = self.grid_cols;
        let li = self.current_layer_index();
        let ghost ol = self.layers_data@[li as int];
        let ghost g0 = grid_view(ol.grid_of(b_type));
        assert(layer_dims(ol, rows as int, cols as int));
        let lo_r: i128 = if r as i128 - radius as i128 > 0 { r as i128 - radius as i128 } else { 0 };
        let hi_r: i128 = r as i128 + radius as i128;
        let lo_c: i128 = if c as i128 - radius as i128 > 0 { c as i128 - radius as i128 } else { 0 };
        let hi_c: i128 = c as i128 + radius as i128;
        let mut grid = Vec::new();
        std::mem::swap(self.layers_data[li].get_grid_mut(b_type), &mut grid);
        let ghost mid = self.layers_data@[li as int];
        let mut i: i128 = lo_r;
        while i <= hi_r && i < rows as i128
            invariant
                lo_r <= i,
                0 <= lo_r,
                grid_dims(grid, rows as int, cols as int),
                g0.len() == rows,
                forall|a: int| 0 <= a < rows ==> (#[trigger] g0[a]).len() == cols,
                forall|a: int, b: int|
                    0 <= a < rows && 0 <= b < cols ==> (#[trigger] grid@[a]@[b]) == if a < i
                        && r - radius <= a <= r + radius && c - radius <= b <= c + radius {
                        value
                    } else {
                        g0[a][b]
                    },
                lo_r == (if r as i128 - radius as i128 > 0 { r as i128 - radius as i128 } else { 0 }),
                hi_r == r as i128 + radius as i128,
                lo_c == (if c as i128 - radius as i128 > 0 { c as i128 - radius as i128 } else { 0 }),
                hi_c == c as i128 + radius as i128,
            decreases rows as i128 - i,
        {
            let mut j: i128 = lo_c;
            while j <= hi_c && j < cols as i128
                invariant
                    lo_r <= i <= hi_r,
                    0 <= i < rows,
                    lo_c <= j,
                    0 <= lo_c,
                    grid_dims(grid, rows as int, cols as int),
                    g0.len() == rows,
                    forall|a: int| 0 <= a < rows ==> (#[trigger] g0[a]).len() == cols,
                    forall|a: int, b: int|
                        0 <= a < rows && 0 <= b < cols ==> (#[trigger] grid@[a]@[b]) == if (a < i || (a
                            == i && b < j)) && r - radius <= a <= r + radius && c - radius <= b <= c
                            + radius {
                            value
                        } else {
                            g0[a][b]
                        },
                    lo_r == (if r as i128 - radius as i128 > 0 { r as i128 - radius as i128 } else { 0 }),
                    hi_r == r as i128 + radius as i128,
                    lo_c == (if c as i128 - radius as i128 > 0 { c as i128 - radius as i128 } else { 0 }),
                    hi_c == c as i128 + radius as i128,
                decreases cols as i128 - j,
            {
                grid[i as usize][j as usize] = value;
                j += 1;
            }
            i += 1;
        }
        let ghost done = grid;
        std::mem::swap(self.layers_data[li].get_grid_mut(b_type), &mut grid);
        proof {
            let nl = self.layers_data@[li as int];
            assert(nl.grid_of(b_type) == done);
            let p = painted(g0, r as int, c as int, radius as int, value);
            assert forall|a: int| 0 <= a < rows implies #[trigger] grid_view(done)[a] =~= p[a] by {
                assert forall|b: int| 0 <= b < cols implies grid_view(done)[a][b] == p[a][b] by {
                    assert(done@[a]@[b] == grid_view(done)[a][b]);
                }
            }
            assert(grid_view(nl.grid_of(b_type)) =~= p);
            assert(self.layers_data@ =~= old(self).layers_data@.update(li as int, nl));
        }
    }

    /// Time of the first demolish event for `uid`, or `NEVER`.
    pub fn get_building_demolish_time(&self, uid: usize) -> (r: i64)
        ensures
            r as int == demolition_time(self.demolish_events@, uid),
    {
        let mut i: usize = 0;
        assert(self.demolish_events@.skip(0) =~= self.demolish_events@);
        while i < self.demolish_events.len()
            invariant
                i <= self.demolish_events@.len(),
                demolition_time(self.demolish_events@, uid) == demolition_time(
                    self.demolish_events@.skip(i as int),
                    uid,
                ),
            decreases self.demolish_events@.len() - i,
        {
            let e = &self.demolish_events[i];
            proof {
                let s = self.demolish_events@.skip(i as int);
                assert(s[0] == self.demolish_events@[i as int]);
                assert(s.drop_first() =~= self.demolish_events@.skip(i as int + 1));
            }
            if e.uid == uid {
                return time_key(e.wave_num, e.is_late);
            }
            i += 1;
        }
        proof {
            assert(self.demolish_events@.skip(i as int).len() == 0);
        }
        NEVER
    }

    /// Whether terrain of code `terrain_id` can carry a building of category `b_type`.
    pub fn check_terrain_capability(&self, terrain_id: i8, b_type: BuildingType) -> (r: bool)
        ensures
            r == terrain_capable(terrain_id, b_type),
    {
        if terrain_id < 0 {
            return false;
        }
        match b_type {
            BuildingType::Floor => true,
            BuildingType::Wall => true,
            BuildingType::Ceiling => true,
        }
    }

    /// Whether a building of category `b_type`, `w` wide and `h` high, may be
    /// placed with its top-left cell at row `start_r`, column `start_c`.
    pub fn can_place_building(
        &self,
        start_r: usize,
        start_c: usize,
        w: usize,
        h: usize,
        b_type: BuildingType,
    ) -> (r: bool)
        requires
            self.wf(),
        ensures
            r == self.placeable(start_r as int, start_c as int, w as int, h as int, b_type),
    {
        if start_r as u128 + h as u128 > self.grid_rows as u128 || start_c as u128 + w as u128
            > self.grid_cols as u128 {
            return false;
        }
        if start_r >= self.grid_rows || start_c >= self.grid_cols {
            return false;
        }
        let li = self.current_layer_index();
        let target_grid = self.layers_data[li].get_grid(b_type);
        if target_grid.len() == 0 {
            return false;
        }
        assert(layer_dims(self.layers_data@[li as int], self.grid_rows as int, self.grid_cols as int));
        let base_height = target_grid[start_r][start_c];
        if base_height < 0 {
            return false;
        }
        let ghost g = target_grid@;
        let mut r = start_r;
        while r < start_r + h
            invariant
                start_r <= r <= start_r + h,
                start_r + h <= self.grid_rows,
                start_c + w <= self.grid_cols,
                g == self.current_layer().grid_of(b_type)@,
                g == target_grid@,
                grid_dims(*target_grid, self.grid_rows as int, self.grid_cols as int),
                base_height == g[start_r as int]@[start_c as int],
                forall|i: int, j: int|
                    start_r <= i < r && start_c <= j < start_c + w ==> (#[trigger] g[i]@[j])
                        == base_height && terrain_capable(g[i]@[j], b_type),
            decreases start_r + h - r,
        {
            let mut c = start_c;
            while c < start_c + w
                invariant
                    start_r <= r < start_r + h,
                    start_c <= c <= start_c + w,
                    start_r + h <= self.grid_rows,
                    start_c + w <= self.grid_cols,
                    g == target_grid@,
                    g == self.current_layer().grid_of(b_type)@,
                    base_height == g[start_r as int]@[start_c as int],
                    grid_dims(*target_grid, self.grid_rows as int, self.grid_cols as int),
                    forall|j: int| start_c <= j < c ==> (#[trigger] g[r as int]@[j]) == base_height
                        && terrain_capable(g[r as int]@[j], b_type),
                decreases start_c + w - c,
            {
                let cell_h = target_grid[r][c];
                if cell_h != base_height {
                    return false;
                }
                if !self.check_terrain_capability(cell_h, b_type) {
                    return false;
                }
                c += 1;
            }
            r += 1;
        }
        let t_current = time_key(self.current_wave_num, self.current_is_late);
        let mut k: usize = 0;
        while k < self.placed_buildings.len()
            invariant
                k <= self.placed_buildings@.len(),
                t_current as int == self.current_time(),
                forall|i: int, j: int|
                    start_r <= i < start_r + h && start_c <= j < start_c + w ==> (#[trigger] g[i]@[j])
                        == base_height && terrain_capable(g[i]@[j], b_type),
                forall|m: int|
                    0 <= m < k && (#[trigger] self.placed_buildings@[m]).b_type == b_type
                        && footprints_overlap(
                        start_r as int,
                        start_c as int,
                        w as int,
                        h as int,
                        self.placed_buildings@[m],
                    ) ==> !is_active(
                        self.placed_buildings@[m],
                        self.current_time(),
                        self.demolish_events@,
                    ),
            decreases self.placed_buildings@.len() - k,
        {
            let b = &self.placed_buildings[k];
            if b.b_type == b_type {
                if (start_c as u128) < b.grid_x as u128 + b.width as u128 && start_c as u128 + w as u128
                    > b.grid_x as u128 && (start_r as u128) < b.grid_y as u128 + b.height as u128
                    && start_r as u128 + h as u128 > b.grid_y as u128 {
                    let t_create = time_key(b.wave_num, b.is_late);
                    let t_demolish = self.get_building_demolish_time(b.uid);
                    if t_current >= t_create && t_current < t_demolish {
                        return false;
                    }
                }
            }
            k += 1;
        }
        true
    }
}

/// `g` cut or padded to `rows × cols`; cells outside the old grid are `OBSTACLE`.
pub open spec fn resized(g: Seq<Seq<i8>>, rows: int, cols: int) -> Seq<Seq<i8>> {
    Seq::new(
        rows as nat,
        |i: int|
            Seq::new(
                cols as nat,
                |j: int|
                    if i < g.len() && j < g[i].len() {
                        g[i][j]
                    } else {
                        OBSTACLE
                    },
            ),
    )
}

fn resize_row(row: &mut Vec<i8>, cols: usize)
    ensures
        final(row)@ == Seq::new(
            cols as nat,
            |j: int|
                if j < old(row)@.len() {
                    old(row)@[j]
                } else {
                    OBSTACLE
                },
        ),
{
    row.truncate(cols);
    while row.len() < cols
        invariant
            row@.len() <= cols,
            row@.len() < cols ==> row@.len() >= old(row)@.len(),
            forall|j: int|
                0 <= j < row@.len() ==> row@[j] == if j < old(row)@.len() {
                    old(row)@[j]
                } else {
                    OBSTACLE
                },
        decreases cols - row@.len(),
    {
        row.push(OBSTACLE);
    }
    assert(row@ =~= Seq::new(
        cols as nat,
        |j: int|
            if j < old(row)@.len() {
                old(row)@[j]
            } else {
                OBSTACLE
            },
    ));
}

/// Cuts or pads `g` to `rows × cols`, keeping every cell inside both sizes.
fn resize_grid(g: &mut Vec<Vec<i8>>, rows: usize, cols: usize)
    ensures
        grid_view(*final(g)) == resized(grid_view(*old(g)), rows as int, cols as int),
        grid_dims(*final(g), rows as int, cols as int),
{
    let ghost g0 = grid_view(*g);
    g.truncate(rows);
    while g.len() < rows
        invariant
            g@.len() <= rows,
            g@.len() < rows ==> g@.len() >= g0.len(),
            forall|k: int|
                0 <= k < g@.len() ==> (#[trigger] g@[k])@ == if k < g0.len() {
                    g0[k]
                } else {
                    Seq::<i8>::empty()
                },
        decreases rows - g@.len(),
    {
        g.push(Vec::new());
    }
    let mut i: usize = 0;
    while i < rows
        invariant
            g@.len() == rows,
            i <= rows,
            forall|k: int|
                0 <= k < i ==> (#[trigger] g@[k])@ == resized(g0, rows as int, cols as int)[k],
            forall|k: int|
                i <= k < rows ==> (#[trigger] g@[k])@ == if k < g0.len() {
                    g0[k]
                } else {
                    Seq::<i8>::empty()
                },
        decreases rows - i,
    {
        resize_row(&mut g[i], cols);
        assert(g@[i as int]@ =~= resized(g0, rows as int, cols as int)[i as int]);
        i += 1;
    }
    assert(grid_view(*g) =~= resized(g0, rows as int, cols as int));
}

/// Color given to buildings whose template is unknown: opaque gray.
pub open spec fn fallback_color() -> [u8; 4] {
    [160, 160, 160, 255]
}

/// The template that stands in for an empty catalog: a gray 1×1 floor building.
pub open spec fn is_default_template(t: BuildingTemplate) -> bool {
    &&& t.b_type == BuildingType::Floor
    &&& t.width == 1
    &&& t.height == 1
    &&& t.color == fallback_color()
}

/// The template that stands in for an empty catalog.
pub fn default_template() -> (t: BuildingTemplate)
    ensures
        is_default_template(t),
{
    BuildingTemplate {
        name: "默认 (1x1)".to_owned(),
        b_type: BuildingType::Floor,
        width: 1,
        height: 1,
        color: [160, 160, 160, 255],
    }
}

/// Whether some building of `v` has uid `uid`.
pub fn contains_uid(v: &Vec<PlacedBuilding>, uid: usize) -> (r: bool)
    ensures
        r == has_uid(v@, uid),
{
    let mut i: usize = 0;
    while i < v.len()
        invariant
            i <= v@.len(),
            forall|k: int| 0 <= k < i ==> (#[trigger] v@[k]).uid != uid,
        decreases v@.len() - i,
    {
        if v[i].uid == uid {
            return true;
        }
        i += 1;
    }
    false
}

/// Timeline key of `(wave, late)`, wide enough for every `i32` wave.
pub fn time_key(wave: i32, late: bool) -> (r: i64)
    ensures
        r as int == time_value(wave as int, late),
{
    wave as i64 * 2 + if late { 1 } else { 0 }
}

} // verus!
