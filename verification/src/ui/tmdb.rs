//! Records handed over by the remote movie-metadata service: search hits,
//! per-movie details, and cast credits. The network client that fills them
//! lives outside the library.

use vstd::prelude::*;
use crate::text::clone_opt_string;

verus! {

/// One search hit: only the identifier used for follow-up queries.
#[derive(Debug)]
pub struct MovieSearchResult {
    pub id: u64,
}

/// The full response of a movie search.
#[derive(Debug)]
pub struct MovieSearchResponse {
    pub results: Vec<MovieSearchResult>,
}

/// Details of one movie, as the service reports them.
#[derive(Debug)]
pub struct MovieDetailsResponse {
    pub overview: Option<String>,
    pub runtime: u64,
    pub original_title: String,
    pub title: String,
    pub poster_path: Option<String>,
    pub release_date: Option<String>,
    pub tagline: Option<String>,
}

/// One cast member of a movie.
#[derive(Debug)]
pub struct MovieCastMember {
    pub name: String,
    pub profile_path: Option<String>,
    pub character: String,
}

impl Clone for MovieCastMember {
    fn clone(&self) -> (res: Self)
        ensures
            res == self,
    {
        MovieCastMember {
            name: self.name.clone(),
            profile_path: clone_opt_string(&self.profile_path),
            character: self.character.clone(),
        }
    }
}

/// The cast list of one movie.
#[derive(Debug)]
pub struct MovieCreditsResponse {
    pub cast: Vec<MovieCastMember>,
}

} // verus!
