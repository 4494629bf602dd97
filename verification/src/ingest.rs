//! Point ingestion: classification and containment filtering, and appending
//! accepted points to every tile whose buffered box contains them.
//!
//! The surrounding pipeline streams raw archive records, reprojects the
//! accepted ones into the working system, and hands each resulting point to
//! `place_point`. Workers may fan the files out in parallel; the per-point
//! decision made here is pointwise and commutative, so the final buffer
//! contents do not depend on the interleaving.

use vstd::prelude::*;
use crate::bbox::BBox;
use crate::grid::TileMeta;

verus! {

/// A reprojected point in the working system, with its measured height.
#[derive(Clone, Copy, Debug, PartialEq, Eq, Structural)]
pub struct PointWithHeight {
    pub x: i64,
    pub y: i64,
    pub height: i64,
}

/// What a raw archive record is tagged as. Only bare-earth returns are
/// consumed by this pipeline.
#[derive(Clone, Copy, Debug, PartialEq, Eq, Structural)]
pub enum Classification {
    Ground,
    Other,
}

/// The pre-filter applied to a raw record while it is still in the archive's
/// native system: keep it only when it is a ground return lying inside the
/// reprojected query box.
pub fn accept_point(classification: Classification, x: i64, y: i64, query_box: &BBox) -> (r: bool)
    ensures
        r == (classification is Ground && query_box.spec_contains(x as int, y as int)),
{
    match classification {
        Classification::Ground => query_box.contains(x, y),
        Classification::Other => false,
    }
}

/// A tile takes a working-system point exactly when the point lies in the
/// overall working extent and in the tile's buffered box.
pub open spec fn accepts(tile: TileMeta, working: BBox, p: PointWithHeight) -> bool {
    working.spec_contains(p.x as int, p.y as int) && tile.bbox.spec_contains(
        p.x as int,
        p.y as int,
    )
}

/// How one tile changes when a point is offered: accepted points are appended
/// to its buffer, everything else about the tile stays as it was.
pub open spec fn placed_at(pre: TileMeta, post: TileMeta, working: BBox, p: PointWithHeight) -> bool {
    if accepts(pre, working, p) {
        post.id == pre.id && post.bbox == pre.bbox && post.points@ == pre.points@.push(p)
    } else {
        post == pre
    }
}

/// How the whole tile list changes when a point is offered.
pub open spec fn placed(
    pre: Seq<TileMeta>,
    post: Seq<TileMeta>,
    working: BBox,
    p: PointWithHeight,
) -> bool {
    post.len() == pre.len() && forall|j: int|
        0 <= j < pre.len() ==> placed_at(pre[j], post[j], working, p)
}

/// Offer one reprojected point to every tile: points outside the working
/// extent are dropped; otherwise the point is appended to the buffer of every
/// tile whose buffered box contains it — zero, one, or several tiles.
pub fn place_point(tiles: &mut Vec<TileMeta>, working: &BBox, p: PointWithHeight)
    ensures
        placed(old(tiles)@, final(tiles)@, *working, p),
{
    if !working.contains(p.x, p.y) {
        return ;
    }
    let n = tiles.len();
    let mut i: usize = 0;
    while i < n
        invariant
            n == tiles@.len(),
            tiles@.len() == old(tiles)@.len(),
            i <= n,
            forall|j: int| 0 <= j < i ==> placed_at(old(tiles)@[j], #[trigger] tiles@[j], *working, p),
            forall|j: int| i <= j < n ==> tiles@[j] == old(tiles)@[j],
            working.spec_contains(p.x as int, p.y as int),
        decreases n - i,
    {
        if tiles[i].bbox.contains(p.x, p.y) {
            tiles[i].points.push(p);
        }
        i = i + 1;
    }
}

/// No false acceptance: if every buffered point of every tile already lay
/// inside its tile's buffered box, that still holds after a point is offered.
pub open spec fn points_within(tiles: Seq<TileMeta>) -> bool {
    forall|j: int, k: int|
        0 <= j < tiles.len() && 0 <= k < tiles[j].points@.len()
            ==> tiles[j].bbox.spec_contains(
            tiles[j].points@[k].x as int,
            tiles[j].points@[k].y as int,
        )
}

/// Every accepted point's working-system position lies within the buffered
/// box of each tile that buffered it: offering points preserves the
/// containment invariant, whatever the point and the extent.
pub proof fn lemma_no_false_acceptance(
    pre: Seq<TileMeta>,
    post: Seq<TileMeta>,
    working: BBox,
    p: PointWithHeight,
)
    requires
        placed(pre, post, working, p),
        points_within(pre),
    ensures
        points_within(post),
{
    assert forall|j: int, k: int|
        0 <= j < post.len() && 0 <= k < post[j].points@.len() implies post[j].bbox.spec_contains(
        post[j].points@[k].x as int,
        post[j].points@[k].y as int,
    ) by {
        assert(placed_at(pre[j], post[j], working, p));
        if accepts(pre[j], working, p) {
            assert(post[j].points@ == pre[j].points@.push(p));
            if k < pre[j].points@.len() {
                assert(pre[j].bbox.spec_contains(
                    pre[j].points@[k].x as int,
                    pre[j].points@[k].y as int,
                ));
            } else {
                assert(post[j].points@[k] == p);
            }
        }
    }
}

/// No loss in overlap regions: a point lying in the overlap of two tiles'
/// buffered boxes (and inside the working extent) is appended to both tiles'
/// buffers.
pub proof fn lemma_overlap_point_in_both(
    pre: Seq<TileMeta>,
    post: Seq<TileMeta>,
    working: BBox,
    p: PointWithHeight,
    i: int,
    j: int,
)
    requires
        placed(pre, post, working, p),
        0 <= i < pre.len(),
        0 <= j < pre.len(),
        working.spec_contains(p.x as int, p.y as int),
        pre[i].bbox.spec_contains(p.x as int, p.y as int),
        pre[j].bbox.spec_contains(p.x as int, p.y as int),
    ensures
        post[i].points@ == pre[i].points@.push(p),
        post[j].points@ == pre[j].points@.push(p),
        post[i].points@[post[i].points@.len() - 1] == p,
        post[j].points@[post[j].points@.len() - 1] == p,
{
    assert(placed_at(pre[i], post[i], working, p));
    assert(placed_at(pre[j], post[j], working, p));
}

} // verus!
