//! The classifier: scan the site set in order, apply the active metric and
//! extremum rule to every site, and return the color of the winning site.
//!
//! The winner of a scan is pinned down exactly: it is the first site, in
//! scan order, attaining the extremum the rule asks for. Ties therefore go
//! to the earlier site, which keeps the whole tessellation reproducible.

use vstd::prelude::*;

use crate::geom::{opaque_black, Color, Point, Site};
use crate::metric::{dist_spec, distance, Metric};
use crate::selector::{beats, evaluate, Selector};

verus! {

/// The scaled distance from query `q` to the site at index `i`.
pub open spec fn site_dist(m: Metric, q: Point, sites: Seq<Site>, i: int) -> int {
    dist_spec(m, q, sites[i].pos)
}

/// The index of the site a scan of `sites` in order crowns: the first
/// candidate seeds the running best, and a later site displaces it only by
/// strictly beating it.
pub open spec fn winner(m: Metric, sel: Selector, q: Point, sites: Seq<Site>) -> int
    decreases sites.len(),
{
    if sites.len() <= 1 {
        0
    } else {
        let prev = winner(m, sel, q, sites.drop_last());
        let last = sites.len() - 1;
        if beats(sel, site_dist(m, q, sites, last), site_dist(m, q, sites, prev)) {
            last
        } else {
            prev
        }
    }
}

/// The winner of a nonempty scan is a real index.
pub proof fn lemma_winner_in_range(m: Metric, sel: Selector, q: Point, sites: Seq<Site>)
    requires
        sites.len() > 0,
    ensures
        0 <= winner(m, sel, q, sites) < sites.len(),
    decreases sites.len(),
{
    if sites.len() > 1 {
        lemma_winner_in_range(m, sel, q, sites.drop_last());
    }
}

/// The winner is the first site attaining the extremum: no site at all beats
/// it, and every site before it sits at a strictly different distance.
pub proof fn lemma_winner_first_extremal(m: Metric, sel: Selector, q: Point, sites: Seq<Site>)
    requires
        sites.len() > 0,
    ensures
        0 <= winner(m, sel, q, sites) < sites.len(),
        forall|j: int|
            0 <= j < sites.len() ==> !beats(
                sel,
                #[trigger] site_dist(m, q, sites, j),
                site_dist(m, q, sites, winner(m, sel, q, sites)),
            ),
        forall|j: int|
            0 <= j < winner(m, sel, q, sites) ==> #[trigger] site_dist(m, q, sites, j)
                != site_dist(m, q, sites, winner(m, sel, q, sites)),
    decreases sites.len(),
{
    lemma_winner_in_range(m, sel, q, sites);
    if sites.len() > 1 {
        let prefix = sites.drop_last();
        lemma_winner_first_extremal(m, sel, q, prefix);
        let pw = winner(m, sel, q, prefix);
        let last = sites.len() - 1;
        let w = winner(m, sel, q, sites);
        assert(forall|j: int| 0 <= j < last ==> prefix[j] == sites[j]);
        assert(forall|j: int|
            0 <= j < last ==> #[trigger] site_dist(m, q, prefix, j) == site_dist(m, q, sites, j));
        assert(0 <= pw < last);
        if beats(sel, site_dist(m, q, sites, last), site_dist(m, q, sites, pw)) {
            assert(w == last);
            assert forall|j: int|
                0 <= j < sites.len() implies !beats(
                sel,
                #[trigger] site_dist(m, q, sites, j),
                site_dist(m, q, sites, w),
            ) by {
                if j < last {
                    assert(!beats(sel, site_dist(m, q, prefix, j), site_dist(m, q, prefix, pw)));
                }
            }
            assert forall|j: int|
                0 <= j < w implies #[trigger] site_dist(m, q, sites, j) != site_dist(
                m,
                q,
                sites,
                w,
            ) by {
                assert(!beats(sel, site_dist(m, q, prefix, j), site_dist(m, q, prefix, pw)));
            }
        } else {
            assert(w == pw);
            assert forall|j: int|
                0 <= j < sites.len() implies !beats(
                sel,
                #[trigger] site_dist(m, q, sites, j),
                site_dist(m, q, sites, w),
            ) by {
                if j < last {
                    assert(!beats(sel, site_dist(m, q, prefix, j), site_dist(m, q, prefix, pw)));
                }
            }
            assert forall|j: int|
                0 <= j < w implies #[trigger] site_dist(m, q, sites, j) != site_dist(
                m,
                q,
                sites,
                w,
            ) by {
                assert(!beats(sel, site_dist(m, q, prefix, j), site_dist(m, q, prefix, pw)));
                assert(site_dist(m, q, prefix, j) != site_dist(m, q, prefix, pw));
            }
        }
    }
}

/// Tie-break stability: of two sites equidistant from the query, the scan
/// never crowns the later one.
pub proof fn lemma_tie_break(
    m: Metric,
    sel: Selector,
    q: Point,
    sites: Seq<Site>,
    i: int,
    j: int,
)
    requires
        0 <= i < j < sites.len(),
        site_dist(m, q, sites, i) == site_dist(m, q, sites, j),
    ensures
        winner(m, sel, q, sites) != j,
{
    lemma_winner_first_extremal(m, sel, q, sites);
}

/// The color a query point is classified as: the winning site's color, or
/// opaque black when there is no site at all.
pub open spec fn classify_spec(m: Metric, sel: Selector, q: Point, sites: Seq<Site>) -> Color {
    if sites.len() == 0 {
        opaque_black()
    } else {
        sites[winner(m, sel, q, sites)].color
    }
}

/// Scan the site set in order and return the color of the site the active
/// metric and extremum rule crown for query point `q`.
pub fn classify(q: Point, sites: &Vec<Site>, m: Metric, sel: Selector) -> (c: Color)
    ensures
        c == classify_spec(m, sel, q, sites@),
{
    let mut best: Option<u64> = None;
    let mut color = Color { r: 0, g: 0, b: 0, a: 255 };
    let mut i: usize = 0;
    while i < sites.len()
        invariant
            i <= sites@.len(),
            i == 0 ==> best is None && color == opaque_black(),
            i > 0 ==> {
                let w = winner(m, sel, q, sites@.take(i as int));
                &&& 0 <= w < i
                &&& 0 <= site_dist(m, q, sites@, w) <= u64::MAX
                &&& best == Some(site_dist(m, q, sites@, w) as u64)
                &&& color == sites@[w].color
            },
        decreases sites@.len() - i,
    {
        let d = distance(m, q, sites[i].pos);
        let accepted = evaluate(sel, &mut best, d);
        if accepted {
            color = sites[i].color;
        }
        proof {
            let t1 = sites@.take(i as int + 1);
            assert(t1.drop_last() =~= sites@.take(i as int));
            assert(t1[i as int] == sites@[i as int]);
            if i == 0 {
                assert(winner(m, sel, q, t1) == 0);
            } else {
                let w = winner(m, sel, q, sites@.take(i as int));
                lemma_winner_in_range(m, sel, q, sites@.take(i as int));
                assert(t1[w] == sites@[w]);
                assert(site_dist(m, q, t1, i as int) == site_dist(m, q, sites@, i as int));
                assert(site_dist(m, q, t1, w) == site_dist(m, q, sites@, w));
            }
        }
        i += 1;
    }
    proof {
        assert(sites@.take(sites@.len() as int) =~= sites@);
    }
    color
}

} // verus!
