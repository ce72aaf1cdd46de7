//! A generalized Voronoi-style tessellation engine.
//!
//! A small set of colored sites is scattered over a 2D grid; every grid
//! cell is colored after the site that wins under a configurable distance
//! metric and a configurable extremum rule (nearest or farthest wins).
//!
//! All coordinates are integers and all distances are exact fixed-point
//! integers at a scale of 1024, so every metric — the octagonal blend
//! included — is computed without rounding surprises and the whole
//! classification pipeline is deterministic.

pub mod geom;
pub mod metric;
pub mod builder;
pub mod classify;
pub mod selector;
pub mod sites;
