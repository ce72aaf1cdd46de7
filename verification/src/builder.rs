//! The tessellation buffer builder: drive the classifier over every grid
//! cell, in a fixed traversal order, and produce the full color buffer.
//!
//! The buffer is fully replaced on every rebuild, and a rebuild happens only
//! when the active configuration is dirty; the renderer consumes the buffer
//! unconditionally. The traversal order is outer loop over x, inner loop
//! over y, so entry `k` of the buffer is the cell at `(k / height, k %
//! height)` — and two builds from the same configuration are identical.

use vstd::prelude::*;

use crate::classify::{classify, classify_spec};
use crate::geom::{Color, Point, Site};
use crate::metric::Metric;
use crate::selector::Selector;

verus! {

/// One finished grid cell: its own coordinate and the color the classifier
/// chose for it.
#[derive(Clone, Copy, PartialEq, Eq, Structural, Debug)]
pub struct Cell {
    pub pos: Point,
    pub color: Color,
}

/// The grid coordinate of buffer entry `k` under the builder's traversal
/// order.
pub open spec fn grid_point(k: int, height: int) -> Point {
    Point { x: (k / height) as i32, y: (k % height) as i32 }
}

/// What buffer entry `k` must hold: its own grid coordinate and the
/// classifier's color for that coordinate.
pub open spec fn cell_at(k: int, height: int, sites: Seq<Site>, m: Metric, sel: Selector) -> Cell {
    Cell { pos: grid_point(k, height), color: classify_spec(m, sel, grid_point(k, height), sites) }
}

/// A finished buffer: exactly one entry per grid cell, each pinned to its
/// coordinate and color.
pub open spec fn rebuild_post(
    buf: Seq<Cell>,
    width: int,
    height: int,
    sites: Seq<Site>,
    m: Metric,
    sel: Selector,
) -> bool {
    &&& buf.len() == width * height
    &&& forall|k: int| 0 <= k < buf.len() ==> buf[k] == cell_at(k, height, sites, m, sel)
}

/// Classify every grid cell of a `width` by `height` grid and return the
/// full color buffer, one entry per cell in a fixed traversal order.
pub fn rebuild(
    width: usize,
    height: usize,
    sites: &Vec<Site>,
    m: Metric,
    sel: Selector,
) -> (buf: Vec<Cell>)
    requires
        width <= i32::MAX as usize,
        height <= i32::MAX as usize,
        (width as int) * (height as int) <= usize::MAX as int,
    ensures
        rebuild_post(buf@, width as int, height as int, sites@, m, sel),
{
    let mut buf: Vec<Cell> = Vec::new();
    let mut x: usize = 0;
    while x < width
        invariant
            x <= width,
            width <= i32::MAX as usize,
            height <= i32::MAX as usize,
            buf@.len() == (x as int) * (height as int),
            forall|k: int|
                0 <= k < buf@.len() ==> buf@[k] == cell_at(k, height as int, sites@, m, sel),
        decreases width - x,
    {
        let mut y: usize = 0;
        while y < height
            invariant
                y <= height,
                x < width,
                width <= i32::MAX as usize,
                height <= i32::MAX as usize,
                buf@.len() == (x as int) * (height as int) + y as int,
                forall|k: int|
                    0 <= k < buf@.len() ==> buf@[k] == cell_at(k, height as int, sites@, m, sel),
            decreases height - y,
        {
            let p = Point { x: x as i32, y: y as i32 };
            let color = classify(p, sites, m, sel);
            buf.push(Cell { pos: p, color });
            proof {
                let k = (x as int) * (height as int) + y as int;
                vstd::arithmetic::div_mod::lemma_fundamental_div_mod_converse(
                    k,
                    height as int,
                    x as int,
                    y as int,
                );
                assert(grid_point(k, height as int) == p);
            }
            y += 1;
        }
        proof {
            assert((x as int + 1) * (height as int) == (x as int) * (height as int)
                + height as int) by (nonlinear_arith);
        }
        x += 1;
    }
    buf
}

/// Determinism: two buffers built from the same dimensions, site set, metric
/// and selector are equal, entry for entry.
pub proof fn lemma_rebuild_deterministic(
    b1: Seq<Cell>,
    b2: Seq<Cell>,
    width: int,
    height: int,
    sites: Seq<Site>,
    m: Metric,
    sel: Selector,
)
    requires
        rebuild_post(b1, width, height, sites, m, sel),
        rebuild_post(b2, width, height, sites, m, sel),
    ensures
        b1 == b2,
{
    assert(b1 =~= b2);
}

/// The active configuration: the currently selected metric and extremum
/// rule, plus the dirty flag that tells the builder a rebuild is owed.
pub struct ActiveConfig {
    pub metric: Metric,
    pub selector: Selector,
    pub dirty: bool,
}

impl ActiveConfig {
    /// The initial configuration: Euclidean metric, nearest-wins, and dirty,
    /// so that the very first frame gets a buffer.
    pub fn new() -> (c: Self)
        ensures
            c.metric == Metric::Euclidean,
            c.selector == Selector::Nearest,
            c.dirty,
    {
        ActiveConfig { metric: Metric::Euclidean, selector: Selector::Nearest, dirty: true }
    }

    /// Select a metric; any mutation raises the dirty flag.
    pub fn set_metric(&mut self, m: Metric)
        ensures
            final(self).metric == m,
            final(self).selector == old(self).selector,
            final(self).dirty,
    {
        self.metric = m;
        self.dirty = true;
    }

    /// Select an extremum rule; any mutation raises the dirty flag.
    pub fn set_selector(&mut self, sel: Selector)
        ensures
            final(self).metric == old(self).metric,
            final(self).selector == sel,
            final(self).dirty,
    {
        self.selector = sel;
        self.dirty = true;
    }

    /// Rebuild the buffer when, and only when, the configuration is dirty;
    /// a successful rebuild clears the flag.
    pub fn rebuild_if_dirty(
        &mut self,
        width: usize,
        height: usize,
        sites: &Vec<Site>,
    ) -> (r: Option<Vec<Cell>>)
        requires
            width <= i32::MAX as usize,
            height <= i32::MAX as usize,
            (width as int) * (height as int) <= usize::MAX as int,
        ensures
            final(self).metric == old(self).metric,
            final(self).selector == old(self).selector,
            !final(self).dirty,
            old(self).dirty ==> (r matches Some(buf) && rebuild_post(
                buf@,
                width as int,
                height as int,
                sites@,
                old(self).metric,
                old(self).selector,
            )),
            !old(self).dirty ==> r is None && *final(self) == *old(self),
    {
        if self.dirty {
            let buf = rebuild(width, height, sites, self.metric, self.selector);
            self.dirty = false;
            Some(buf)
        } else {
            None
        }
    }
}

} // verus!
