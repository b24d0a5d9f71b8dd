//! The data layer behind the user interface: feed records and their
//! normalization, reconstructed routes with geometry, movie metadata, and
//! the state that the display layer observes.

pub mod gtfs;
pub mod state;
pub mod tmdb;
pub mod util;
