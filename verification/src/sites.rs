//! Site-set generation: a fixed number of sites drawn at random once at
//! startup, positions inside the grid and colors fully opaque.
//!
//! Randomness is the one outside ingredient here. Nothing downstream depends
//! on what was drawn — only on the ranges every draw respects — so the
//! classifier and builder are verified for every site set this can return.

use vstd::prelude::*;

use crate::geom::{Color, Point, Site};

verus! {

/// Relies on rand::random: one value drawn from the thread-local generator.
/// Nothing can be promised of a random value.
pub assume_specification<T>[ rand::random::<T> ]() -> (r: T)
    where
        rand::distributions::Standard: rand::distributions::Distribution<T>,
;

/// What generation promises of every site it draws: a position inside the
/// given ranges and a fully opaque color.
pub open spec fn site_in_ranges(s: Site, x_range: int, y_range: int) -> bool {
    &&& 0 <= s.pos.x < x_range
    &&& 0 <= s.pos.y < y_range
    &&& s.color.a == 255
}

/// A coordinate drawn from `[0, bound)`: a random machine word reduced into
/// the range.
fn random_coord(bound: u32) -> (r: u32)
    requires
        bound >= 1,
    ensures
        r < bound,
{
    let raw = rand::random::<u32>();
    raw % bound
}

/// One random site: a position inside `[0, x_range) x [0, y_range)`, each
/// color channel drawn independently, alpha fully opaque.
fn random_site(x_range: u32, y_range: u32) -> (s: Site)
    requires
        1 <= x_range <= i32::MAX as u32,
        1 <= y_range <= i32::MAX as u32,
    ensures
        site_in_ranges(s, x_range as int, y_range as int),
{
    let x = random_coord(x_range);
    let y = random_coord(y_range);
    let r = rand::random::<u8>();
    let g = rand::random::<u8>();
    let b = rand::random::<u8>();
    Site { pos: Point { x: x as i32, y: y as i32 }, color: Color { r, g, b, a: 255 } }
}

/// Generate the site set: `count` sites drawn independently. Done once per
/// process; the returned sequence is treated as immutable afterwards.
pub fn generate_sites(count: usize, x_range: u32, y_range: u32) -> (sites: Vec<Site>)
    requires
        1 <= x_range <= i32::MAX as u32,
        1 <= y_range <= i32::MAX as u32,
    ensures
        sites@.len() == count,
        forall|k: int|
            0 <= k < count ==> site_in_ranges(
                #[trigger] sites@[k],
                x_range as int,
                y_range as int,
            ),
{
    let mut sites: Vec<Site> = Vec::new();
    let mut i: usize = 0;
    while i < count
        invariant
            i <= count,
            1 <= x_range <= i32::MAX as u32,
            1 <= y_range <= i32::MAX as u32,
            sites@.len() == i,
            forall|k: int|
                0 <= k < i ==> site_in_ranges(#[trigger] sites@[k], x_range as int, y_range as int),
        decreases count - i,
    {
        let s = random_site(x_range, y_range);
        sites.push(s);
        i += 1;
    }
    sites
}

} // verus!
