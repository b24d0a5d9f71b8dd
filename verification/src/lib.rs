//! Reconstruction of transit routes from a static feed snapshot.
//!
//! The library takes the four flat tables of a transit feed (stops, trips,
//! routes, stop-times), normalizes them, joins them into per-route station
//! lists, computes the bounding box of all stations, and assigns fetched
//! railway-geometry segments to routes by a containment test on consecutive
//! station pairs. All geographic coordinates are fixed-point integers in
//! units of 10^-7 degree, so that the geometry is exact.

pub mod text;
pub mod tmdb;
pub mod ui;
