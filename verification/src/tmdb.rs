//! Records handed over by the remote movie-metadata service, in the shape
//! the search endpoint returned before the richer per-movie endpoints were
//! adopted. The network client that fills them lives outside the library.

use vstd::prelude::*;

verus! {

/// One row of a movie search: the display fields themselves.
#[derive(Debug)]
pub struct MovieSearchResult {
    pub original_title: String,
    pub release_date: String,
    pub poster_path: Option<String>,
}

/// The full response of a movie search.
#[derive(Debug)]
pub struct MovieSearchResponse {
    pub results: Vec<MovieSearchResult>,
}

} // verus!
