//! The spatial index over detection rectangles.
//!
//! One index is bulk-built per detection set and answers point-containment
//! queries in better than linear time. The tree itself is `rstar`'s
//! R-tree; the library states what the tree holds and what a lookup
//! returns, and proves everything around those statements.

use vstd::prelude::*;
use vstd::multiset::Multiset;
use rstar::RTree;
use rstar::primitives::{GeomWithData, Rectangle};
use crate::detection::Detection;

verus! {

/// The R-tree of one detection set, held behind an opaque wall: Verus sees
/// nothing of the tree itself, only what `rtree_entries` and the two
/// lookup wrappers below state about it.
#[verifier::external_body]
struct RectTree {
    tree: RTree<GeomWithData<Rectangle<[i64; 2]>, usize>>,
}

/// What the tree holds: one entry per stored rectangle, as its two corners
/// and the index it was stored under.
pub uninterp spec fn rtree_entries(t: RectTree) -> Multiset<(i64, i64, i64, i64, usize)>;

/// The corner pair of a rectangle tuple: left, top, right, bottom.
pub open spec fn spec_corner_contains(c: (i64, i64, i64, i64), px: int, py: int) -> bool {
    &&& c.0 <= px <= c.2
    &&& c.1 <= py <= c.3
}

/// The entries that a list of corner tuples builds: each with its position
/// in the list.
pub open spec fn spec_entries_of(rects: Seq<(i64, i64, i64, i64)>) -> Multiset<
    (i64, i64, i64, i64, usize),
> {
    Seq::new(rects.len(), |i: int| (rects[i].0, rects[i].1, rects[i].2, rects[i].3, i as usize)).to_multiset()
}

/// Relies on rstar's `RTree::bulk_load`, `Rectangle::from_corners` and
/// `GeomWithData::new`: the built tree holds exactly one entry per given
/// rectangle, under its position in the list.
#[verifier::external_body]
fn rtree_build(rects: &Vec<(i64, i64, i64, i64)>) -> (t: RectTree)
    requires
        forall|i: int|
            0 <= i < rects@.len() ==> {
                let r = #[trigger] rects@[i];
                r.0 <= r.2 && r.1 <= r.3 && -0x1000_0000_0000_0000 <= r.0 && r.2
                    <= 0x1000_0000_0000_0000 && -0x1000_0000_0000_0000 <= r.1 && r.3
                    <= 0x1000_0000_0000_0000
            },
    ensures
        rtree_entries(t) == spec_entries_of(rects@),
{
    let mut items: Vec<GeomWithData<Rectangle<[i64; 2]>, usize>> = Vec::new();
    for (i, r) in rects.iter().enumerate() {
        items.push(GeomWithData::new(Rectangle::from_corners([r.0, r.1], [r.2, r.3]), i));
    }
    RectTree { tree: RTree::bulk_load(items) }
}

/// Relies on rstar's `RTree::locate_at_point` (with `Rectangle::lower`,
/// `Rectangle::upper` and `GeomWithData::geom` reading the found entry
/// back): it returns an entry of the tree whose rectangle contains the
/// point, borders included, with no defined tie-break when several do; and
/// nothing exactly when no entry contains the point.
#[verifier::external_body]
fn rtree_find(t: &RectTree, x: i64, y: i64) -> (r: Option<(i64, i64, i64, i64, usize)>)
    ensures
        match r {
            Some(e) => rtree_entries(*t).contains(e) && spec_corner_contains(
                (e.0, e.1, e.2, e.3),
                x as int,
                y as int,
            ),
            None => forall|e: (i64, i64, i64, i64, usize)|
                rtree_entries(*t).contains(e) ==> !spec_corner_contains(
                    (e.0, e.1, e.2, e.3),
                    x as int,
                    y as int,
                ),
        },
{
    t.tree.locate_at_point([x, y]).map(
        |g| {
            let lo = g.geom().lower();
            let hi = g.geom().upper();
            (lo[0], lo[1], hi[0], hi[1], g.data)
        },
    )
}

/// A 2D spatial index over the rectangles of one detection set.
pub struct SpatialIndex {
    tree: RectTree,
    corners: Ghost<Seq<(i64, i64, i64, i64)>>,
}

/// The corner tuple of one detection's rectangle.
pub open spec fn spec_corners_of(d: Detection) -> (i64, i64, i64, i64) {
    (d.x, d.y, (d.x + d.w) as i64, (d.y + d.h) as i64)
}

impl View for SpatialIndex {
    type V = Seq<(i64, i64, i64, i64)>;

    closed spec fn view(&self) -> Seq<(i64, i64, i64, i64)> {
        self.corners@
    }
}

impl SpatialIndex {
    /// The tree holds exactly the indexed corner tuples.
    pub closed spec fn wf(self) -> bool {
        &&& rtree_entries(self.tree) == spec_entries_of(self.corners@)
        &&& self.corners@.len() <= usize::MAX
    }

    /// Whether the index was built from exactly the given detections.
    pub open spec fn indexes(self, dets: Seq<Detection>) -> bool {
        &&& self.wf()
        &&& self@.len() == dets.len()
        &&& forall|i: int| 0 <= i < dets.len() ==> self@[i] == spec_corners_of(#[trigger] dets[i])
    }

    /// Bulk-builds the index of one detection set. This is the expensive
    /// step, run once per set replacement, not per query.
    pub fn build(dets: &Vec<Detection>) -> (s: SpatialIndex)
        requires
            forall|i: int| 0 <= i < dets@.len() ==> (#[trigger] dets@[i]).wf(),
        ensures
            s.indexes(dets@),
    {
        let n = dets.len();
        let mut rects: Vec<(i64, i64, i64, i64)> = Vec::new();
        let mut i: usize = 0;
        while i < n
            invariant
                n == dets@.len(),
                i <= n,
                rects@.len() == i,
                forall|k: int| 0 <= k < n ==> (#[trigger] dets@[k]).wf(),
                forall|k: int|
                    0 <= k < i ==> (#[trigger] rects@[k]) == spec_corners_of(dets@[k]),
            decreases n - i,
        {
            let d = &dets[i];
            rects.push((d.x, d.y, d.x + d.w, d.y + d.h));
            i = i + 1;
        }
        let tree = rtree_build(&rects);
        SpatialIndex { tree, corners: Ghost(rects@) }
    }

    /// Finds a detection whose rectangle contains the pixel position,
    /// borders included: the index of any one such detection, with no
    /// defined tie-break when rectangles overlap; nothing exactly when no
    /// rectangle contains the position.
    pub fn find(&self, x: i64, y: i64) -> (r: Option<usize>)
        requires
            self.wf(),
        ensures
            match r {
                Some(j) => 0 <= j < self@.len() && spec_corner_contains(
                    self@[j as int],
                    x as int,
                    y as int,
                ),
                None => forall|j: int|
                    0 <= j < self@.len() ==> !spec_corner_contains(
                        #[trigger] self@[j],
                        x as int,
                        y as int,
                    ),
            },
    {
        let ghost entry_seq = Seq::new(
            self.corners@.len(),
            |i: int|
                (
                    self.corners@[i].0,
                    self.corners@[i].1,
                    self.corners@[i].2,
                    self.corners@[i].3,
                    i as usize,
                ),
        );
        proof {
            broadcast use vstd::seq_lib::group_to_multiset_ensures;

        }
        match rtree_find(&self.tree, x, y) {
            Some(e) => {
                proof {
                    assert(entry_seq.to_multiset().contains(e));
                    assert(entry_seq.contains(e));
                    let i = choose|i: int| 0 <= i < entry_seq.len() && entry_seq[i] == e;
                    assert(e.4 == i as usize);
                }
                Some(e.4)
            },
            None => {
                proof {
                    assert forall|j: int|
                        0 <= j < self@.len() implies !spec_corner_contains(
                        #[trigger] self@[j],
                        x as int,
                        y as int,
                    ) by {
                        assert(entry_seq[j] == (
                            self.corners@[j].0,
                            self.corners@[j].1,
                            self.corners@[j].2,
                            self.corners@[j].3,
                            j as usize,
                        ));
                        assert(entry_seq.contains(entry_seq[j]));
                        assert(entry_seq.to_multiset().contains(entry_seq[j]));
                    }
                }
                None
            },
        }
    }
}

/// A pixel position strictly inside exactly one rectangle is found: when
/// one detection contains the position and no other does, a lookup returns
/// that detection.
pub proof fn lemma_find_unique(s: SpatialIndex, x: int, y: int, j0: int, r: Option<usize>)
    requires
        s.wf(),
        0 <= j0 < s@.len(),
        spec_corner_contains(s@[j0], x, y),
        forall|j: int|
            0 <= j < s@.len() && j != j0 ==> !spec_corner_contains(#[trigger] s@[j], x, y),
        match r {
            Some(j) => 0 <= j < s@.len() && spec_corner_contains(s@[j as int], x, y),
            None => forall|j: int|
                0 <= j < s@.len() ==> !spec_corner_contains(#[trigger] s@[j], x, y),
        },
    ensures
        r == Some(j0 as usize),
{
}

} // verus!
