use vstd::prelude::*;
use crate::editor::{
    events_of, footprints_overlap, has_event, has_uid, resized, MapEditor, OBSTACLE,
};
use crate::models::{BuildingType, DemolishEvent, PlacedBuilding};
use crate::timeline::is_active;

verus! {

/// The buildings of `s` of category `t`, in order.
pub open spec fn of_category(s: Seq<PlacedBuilding>, t: BuildingType) -> Seq<PlacedBuilding> {
    s.filter(|b: PlacedBuilding| b.b_type == t)
}

/// Whether a placement is allowed depends on the buildings of its own
/// category only: two maps that differ only in buildings of other
/// categories allow the same placements.
pub proof fn lemma_other_categories_ignored(
    s1: MapEditor,
    s2: MapEditor,
    r: int,
    c: int,
    w: int,
    h: int,
    t: BuildingType,
)
    requires
        s1 == (MapEditor { placed_buildings: s1.placed_buildings, ..s2 }),
        of_category(s1.placed_buildings@, t) == of_category(s2.placed_buildings@, t),
    ensures
        s1.placeable(r, c, w, h, t) == s2.placeable(r, c, w, h, t),
{
    broadcast use vstd::seq_lib::group_filter_ensures;
    broadcast use vstd::seq::Seq::lemma_filter_contains_rev;

    if s2.placeable(r, c, w, h, t) {
        lemma_blockers_shared(s1, s2, r, c, w, h, t);
    }
    if s1.placeable(r, c, w, h, t) {
        assert(s2 == (MapEditor { placed_buildings: s2.placed_buildings, ..s1 }));
        lemma_blockers_shared(s2, s1, r, c, w, h, t);
    }
}

proof fn lemma_blockers_shared(
    s1: MapEditor,
    s2: MapEditor,
    r: int,
    c: int,
    w: int,
    h: int,
    t: BuildingType,
)
    requires
        s1 == (MapEditor { placed_buildings: s1.placed_buildings, ..s2 }),
        of_category(s1.placed_buildings@, t) == of_category(s2.placed_buildings@, t),
        s2.placeable(r, c, w, h, t),
    ensures
        s1.placeable(r, c, w, h, t),
{
    broadcast use vstd::seq_lib::group_filter_ensures;
    broadcast use vstd::seq::Seq::lemma_filter_contains_rev;

    let p1 = s1.placed_buildings@;
    let p2 = s2.placed_buildings@;
    let f = |b: PlacedBuilding| b.b_type == t;
    assert forall|k: int|
        0 <= k < p1.len() && (#[trigger] p1[k]).b_type == t && footprints_overlap(r, c, w, h, p1[k])
            implies !is_active(p1[k], s1.current_time(), s1.demolish_events@) by {
        assert(p1.filter(f).contains(p1[k]));
        assert(p2.contains(p1[k]));
        let j = choose|j: int| 0 <= j < p2.len() && p2[j] == p1[k];
        assert(p2[j].b_type == t);
    }
}

/// Growing a `rows × cols` grid by `k` rows and columns keeps every cell
/// and fills the new ones with `OBSTACLE`.
pub proof fn lemma_resize_lossless(g: Seq<Seq<i8>>, rows: int, cols: int, k: int)
    requires
        0 <= rows,
        0 <= cols,
        0 <= k,
        g.len() == rows,
        forall|i: int| 0 <= i < rows ==> (#[trigger] g[i]).len() == cols,
    ensures
        resized(g, rows + k, cols + k).len() == rows + k,
        forall|i: int|
            0 <= i < rows + k ==> (#[trigger] resized(g, rows + k, cols + k)[i]).len() == cols + k,
        forall|i: int, j: int|
            0 <= i < rows && 0 <= j < cols ==> #[trigger] resized(g, rows + k, cols + k)[i][j] == g[i][j],
        forall|i: int, j: int|
            0 <= i < rows + k && 0 <= j < cols + k && (i >= rows || j >= cols)
                ==> #[trigger] resized(g, rows + k, cols + k)[i][j] == OBSTACLE,
{
}

/// After the cascade of an erase, no demolish event is left for a uid that
/// no remaining building has.
pub proof fn lemma_cascade_leaves_no_event(
    events: Seq<DemolishEvent>,
    placed: Seq<PlacedBuilding>,
    uid: usize,
)
    requires
        !has_uid(placed, uid),
    ensures
        !has_event(events_of(events, placed), uid),
{
    broadcast use vstd::seq_lib::group_filter_ensures;

    let kept = events_of(events, placed);
    if has_event(kept, uid) {
        let k = choose|k: int| 0 <= k < kept.len() && (#[trigger] kept[k]).uid == uid;
        assert(has_uid(placed, kept[k].uid));
    }
}

} // verus!
