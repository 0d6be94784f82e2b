use vstd::prelude::*;
use crate::editor::{
    has_layer, layer_index, layer_map, layer_resized, layers_sorted, resized,
    MapEditor,
};
use crate::models::{grid_view, BuildingType, LayerData};

verus! {

/// The layers read from a terrain file, migrated, keyed by `major_z`; a
/// later layer replaces an earlier one of the same key.
pub open spec fn imported_layers(s: Seq<LayerData>) -> Map<i32, LayerData>
    decreases s.len(),
{
    if s.len() == 0 {
        Map::empty()
    } else {
        imported_layers(s.drop_last()).insert(s.last().major_z, s.last().normalized())
    }
}

/// Grid size after reading `s`: that of the last migrated floor grid with
/// rows, taken from its row count and first row, else `(rows, cols)`.
pub open spec fn imported_dims(s: Seq<LayerData>, rows: int, cols: int) -> (int, int)
    decreases s.len(),
{
    if s.len() == 0 {
        (rows, cols)
    } else {
        let f = s.last().normalized().floor_grid@;
        if f.len() > 0 {
            (f.len() as int, f[0]@.len() as int)
        } else {
            imported_dims(s.drop_last(), rows, cols)
        }
    }
}

/// In ordered layers, the layer of key `s[i].major_z` is `s[i]`.
pub proof fn lemma_layer_map_index(s: Seq<LayerData>, i: int)
    requires
        layers_sorted(s),
        0 <= i < s.len(),
    ensures
        layer_index(s, s[i].major_z) == i,
        layer_map(s).contains_key(s[i].major_z),
        layer_map(s)[s[i].major_z] == s[i],
{
    let z = s[i].major_z;
    assert(has_layer(s, z));
    let k = layer_index(s, z);
    if k < i {
        assert(s[k].major_z < s[i].major_z);
    } else if k > i {
        assert(s[i].major_z < s[k].major_z);
    }
}

/// Adds `l` to ordered layers, in place of a layer of the same key.
pub fn insert_layer(layers: &mut Vec<LayerData>, l: LayerData)
    requires
        layers_sorted(old(layers)@),
    ensures
        layers_sorted(final(layers)@),
        layer_map(final(layers)@) == layer_map(old(layers)@).insert(l.major_z, l),
{
    let ghost s0 = layers@;
    let z = l.major_z;
    let mut pos: usize = 0;
    while pos < layers.len() && layers[pos].major_z < z
        invariant
            layers@ == s0,
            pos <= s0.len(),
            forall|j: int| 0 <= j < pos ==> (#[trigger] s0[j]).major_z < z,
        decreases s0.len() - pos,
    {
        pos += 1;
    }
    if pos < layers.len() && layers[pos].major_z == z {
        layers.set(pos, l);
    } else {
        layers.insert(pos, l);
    }
    let ghost s1 = layers@;
    proof {
        assert(layers_sorted(s1)) by {
            assert forall|a: int, b: int| 0 <= a < b < s1.len() implies s1[a].major_z < s1[b].major_z by {
                if s1.len() == s0.len() {
                } else {
                    if b < pos {
                    } else if b == pos {
                    } else if a < pos {
                        assert(s1[b] == s0[b - 1]);
                        if pos < s0.len() {
                            assert(s0[pos as int].major_z <= s0[b - 1].major_z);
                        }
                    } else if a == pos {
                        assert(s1[b] == s0[b - 1]);
                        assert(s0[pos as int].major_z <= s0[b - 1].major_z);
                    } else {
                        assert(s1[a] == s0[a - 1]);
                        assert(s1[b] == s0[b - 1]);
                    }
                }
            }
        }
        let m0 = layer_map(s0);
        let m1 = layer_map(s1);
        assert(s1[pos as int] == l);
        lemma_layer_map_index(s1, pos as int);
        assert forall|k: i32| #[trigger] m1.contains_key(k) == m0.insert(z, l).contains_key(k) by {
            if has_layer(s1, k) {
                let i = choose|i: int| 0 <= i < s1.len() && s1[i].major_z == k;
                if k != z {
                    if s1.len() == s0.len() {
                        assert(s0[i].major_z == k);
                    } else if i < pos {
                        assert(s0[i].major_z == k);
                    } else {
                        assert(s0[i - 1].major_z == k);
                    }
                }
            }
            if has_layer(s0, k) && k != z {
                let i = choose|i: int| 0 <= i < s0.len() && s0[i].major_z == k;
                if s1.len() == s0.len() {
                    assert(s1[i].major_z == k);
                } else if i < pos {
                    assert(s1[i].major_z == k);
                } else {
                    assert(s1[i + 1].major_z == k);
                }
            }
        }
        assert forall|k: i32| #[trigger] m1.contains_key(k) implies m1[k] == m0.insert(z, l)[k] by {
            if k != z {
                let i = choose|i: int| 0 <= i < s0.len() && s0[i].major_z == k;
                lemma_layer_map_index(s0, i);
                if s1.len() == s0.len() {
                    lemma_layer_map_index(s1, i);
                } else if i < pos {
                    lemma_layer_map_index(s1, i);
                } else {
                    lemma_layer_map_index(s1, i + 1);
                }
            }
        }
        assert(m1 =~= m0.insert(z, l));
    }
}

impl MapEditor {
    /// Replaces the layers by those of a terrain file. Each layer is
    /// migrated; a floor grid with rows sets the grid size; a later layer
    /// replaces an earlier one of the same key. Where no layer has the key
    /// being edited, an empty one is added. Every grid is then resized to
    /// the grid size.
    pub fn load_terrain(&mut self, layers: Vec<LayerData>)
        requires
            old(self).wf(),
        ensures
            final(self).wf(),
            *final(self) == (MapEditor {
                layers_data: final(self).layers_data,
                grid_rows: final(self).grid_rows,
                grid_cols: final(self).grid_cols,
                ..*old(self)
            }),
            (final(self).grid_rows as int, final(self).grid_cols as int) == imported_dims(
                layers@,
                old(self).grid_rows as int,
                old(self).grid_cols as int,
            ),
            forall|z: i32|
                #[trigger] layer_map(final(self).layers_data@).contains_key(z) <==> (imported_layers(
                    layers@,
                ).contains_key(z) || z == old(self).current_major_z),
            forall|z: i32|
                #[trigger] imported_layers(layers@).contains_key(z) ==> layer_resized(
                    layer_map(final(self).layers_data@)[z],
                    imported_layers(layers@)[z],
                    final(self).grid_rows as int,
                    final(self).grid_cols as int,
                ),
            !imported_layers(layers@).contains_key(old(self).current_major_z) ==> {
                let l = layer_map(final(self).layers_data@)[old(self).current_major_z];
                &&& l.elevation_grid is None
                &&& forall|t: BuildingType|
                    grid_view(#[trigger] l.grid_of(t)) == resized(
                        Seq::empty(),
                        final(self).grid_rows as int,
                        final(self).grid_cols as int,
                    )
            },
    {
        let ghost s0 = layers@;
        let ghost n = s0.len() as int;
        let mut rest = layers;
        let mut rows = self.grid_rows;
        let mut cols = self.grid_cols;
        let mut new_layers: Vec<LayerData> = Vec::new();
        assert(s0.take(0) =~= Seq::<LayerData>::empty());
        assert(layer_map(new_layers@) =~= Map::<i32, LayerData>::empty());
        while rest.len() > 0
            invariant
                rest@.len() <= n,
                rest@ == s0.skip(n - rest@.len()),
                layers_sorted(new_layers@),
                layer_map(new_layers@) == imported_layers(s0.take(n - rest@.len())),
                (rows as int, cols as int) == imported_dims(
                    s0.take(n - rest@.len()),
                    old(self).grid_rows as int,
                    old(self).grid_cols as int,
                ),
                *self == *old(self),
                self.wf(),
                n == s0.len(),
            decreases rest@.len(),
        {
            let ghost m = n - rest@.len();
            let mut layer = rest.remove(0);
            proof {
                assert(layer == s0[m]);
                assert(rest@ =~= s0.skip(m + 1));
                assert(s0.take(m + 1).drop_last() =~= s0.take(m));
                assert(s0.take(m + 1).last() == layer);
            }
            layer.normalize();
            if layer.floor_grid.len() > 0 {
                rows = layer.floor_grid.len();
                cols = layer.floor_grid[0].len();
            }
            insert_layer(&mut new_layers, layer);
        }
        assert(s0.take(n) =~= s0);
        let ghost imported = layer_map(new_layers@);
        let z = self.current_major_z;
        let mut i: usize = 0;
        let mut found = false;
        while i < new_layers.len()
            invariant
                i <= new_layers@.len(),
                found ==> has_layer(new_layers@, z),
                !found ==> forall|j: int| 0 <= j < i ==> (#[trigger] new_layers@[j]).major_z != z,
            decreases new_layers@.len() - i,
        {
            if new_layers[i].major_z == z {
                found = true;
            }
            i += 1;
        }
        if !found {
            let empty = LayerData {
                major_z: z,
                name: "Default Layer".to_owned(),
                floor_grid: Vec::new(),
                wall_grid: Vec::new(),
                ceiling_grid: Vec::new(),
                elevation_grid: None,
            };
            insert_layer(&mut new_layers, empty);
        }
        let ghost pre = new_layers@;
        assert(has_layer(pre, z)) by {
            if !found {
                assert(layer_map(pre).contains_key(z));
            }
        }
        self.layers_data = new_layers;
        self.grid_rows = rows;
        self.grid_cols = cols;
        self.resize_grids();
        proof {
            let fin = self.layers_data@;
            assert(layers_sorted(fin));
            assert forall|k: i32| #[trigger] layer_map(fin).contains_key(k) <==> layer_map(pre).contains_key(k) by {
                if has_layer(fin, k) {
                    let j = choose|j: int| 0 <= j < fin.len() && fin[j].major_z == k;
                    assert(layer_resized(fin[j], pre[j], rows as int, cols as int));
                }
                if has_layer(pre, k) {
                    let j = choose|j: int| 0 <= j < pre.len() && pre[j].major_z == k;
                    assert(layer_resized(fin[j], pre[j], rows as int, cols as int));
                }
            }
            assert forall|k: i32| #[trigger] layer_map(pre).contains_key(k) implies layer_resized(
                layer_map(fin)[k],
                layer_map(pre)[k],
                rows as int,
                cols as int,
            ) by {
                let j = choose|j: int| 0 <= j < pre.len() && pre[j].major_z == k;
                assert(layer_resized(fin[j], pre[j], rows as int, cols as int));
                lemma_layer_map_index(pre, j);
                lemma_layer_map_index(fin, j);
            }
            assert(imported == imported_layers(s0));
            assert forall|k: i32| #[trigger] imported.contains_key(k) implies layer_map(pre).contains_key(k)
                && layer_map(pre)[k] == imported[k] by {
                if !found {
                    assert(!imported.contains_key(z));
                }
            }
            if !found {
                assert(!imported.contains_key(z));
                let l = layer_map(pre)[z];
                assert forall|t: BuildingType| grid_view(#[trigger] l.grid_of(t)) =~= Seq::empty() by {
                    match t {
                        BuildingType::Floor => {},
                        BuildingType::Wall => {},
                        BuildingType::Ceiling => {},
                    }
                }
            } else {
                assert(imported.contains_key(z));
            }
        }
    }
}

/// A copy of `g`, cell for cell.
pub fn copy_grid(g: &Vec<Vec<i8>>) -> (r: Vec<Vec<i8>>)
    ensures
        grid_view(r) == grid_view(*g),
{
    let mut r: Vec<Vec<i8>> = Vec::new();
    let mut i: usize = 0;
    while i < g.len()
        invariant
            i <= g@.len(),
            r@.len() == i,
            forall|k: int| 0 <= k < i ==> (#[trigger] r@[k])@ == g@[k]@,
        decreases g@.len() - i,
    {
        let row = &g[i];
        let mut out: Vec<i8> = Vec::new();
        let mut j: usize = 0;
        while j < row.len()
            invariant
                j <= row@.len(),
                out@ == row@.take(j as int),
            decreases row@.len() - j,
        {
            out.push(row[j]);
            assert(out@ =~= row@.take(j as int + 1));
            j += 1;
        }
        assert(out@ =~= row@);
        r.push(out);
        i += 1;
    }
    assert(grid_view(r) =~= grid_view(*g));
    r
}

/// `e` is the layer written to a terrain file for `l`: the same key, name
/// and grids, and no legacy grid.
pub open spec fn exported_layer(e: LayerData, l: LayerData) -> bool {
    &&& e.major_z == l.major_z
    &&& e.name@ == l.name@
    &&& e.elevation_grid is None
    &&& forall|t: BuildingType| grid_view(#[trigger] e.grid_of(t)) == grid_view(l.grid_of(t))
}

impl MapEditor {
    /// The layers as written to a terrain file, ordered by `major_z`.
    pub fn export_layers(&self) -> (r: Vec<LayerData>)
        requires
            self.wf(),
        ensures
            r@.len() == self.layers_data@.len(),
            layers_sorted(r@),
            forall|k: int| 0 <= k < r@.len() ==> exported_layer(#[trigger] r@[k], self.layers_data@[k]),
    {
        let mut r: Vec<LayerData> = Vec::new();
        let mut i: usize = 0;
        while i < self.layers_data.len()
            invariant
                self.wf(),
                i <= self.layers_data@.len(),
                r@.len() == i,
                forall|k: int| 0 <= k < i ==> exported_layer(#[trigger] r@[k], self.layers_data@[k]),
            decreases self.layers_data@.len() - i,
        {
            let l = &self.layers_data[i];
            let e = LayerData {
                major_z: l.major_z,
                name: l.name.clone(),
                floor_grid: copy_grid(&l.floor_grid),
                wall_grid: copy_grid(&l.wall_grid),
                ceiling_grid: copy_grid(&l.ceiling_grid),
                elevation_grid: None,
            };
            assert forall|t: BuildingType| grid_view(#[trigger] e.grid_of(t)) == grid_view(l.grid_of(t)) by {
                match t {
                    BuildingType::Floor => {},
                    BuildingType::Wall => {},
                    BuildingType::Ceiling => {},
                }
            }
            r.push(e);
            i += 1;
        }
        proof {
            assert forall|a: int, b: int| 0 <= a < b < r@.len() implies r@[a].major_z < r@[b].major_z by {
                assert(exported_layer(r@[a], self.layers_data@[a]));
                assert(exported_layer(r@[b], self.layers_data@[b]));
            }
        }
        r
    }
}

} // verus!
