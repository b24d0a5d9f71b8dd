use licht::ui::state::{MovieCredits, MovieDetails, MovieSearch};
use licht::ui::tmdb::{MovieCastMember, MovieCreditsResponse, MovieDetailsResponse};
use licht::ui::tmdb::{MovieSearchResponse, MovieSearchResult};

fn details_response() -> MovieDetailsResponse {
    MovieDetailsResponse {
        overview: Some("About a train.".to_string()),
        runtime: 95,
        original_title: "Der Zug".to_string(),
        title: "The Train".to_string(),
        poster_path: Some("/zug.jpg".to_string()),
        release_date: Some("1999-12-24".to_string()),
        tagline: Some("All aboard".to_string()),
    }
}

#[test]
fn movie_details_carry_every_field_over() {
    let d = MovieDetails::from(details_response());
    assert_eq!(d.original_title, "Der Zug");
    assert_eq!(d.title, "The Train");
    assert_eq!(d.release_date.as_deref(), Some("1999-12-24"));
    assert_eq!(d.poster_url, "https://image.tmdb.org/t/p/w600_and_h900_bestv2/zug.jpg");
    assert_eq!(d.runtime, 95);
    assert_eq!(d.tagline.as_deref(), Some("All aboard"));
    assert_eq!(d.overview.as_deref(), Some("About a train."));
}

#[test]
fn movie_credits_map_the_cast_entry_by_entry() {
    let resp = MovieCreditsResponse {
        cast: vec![
            MovieCastMember {
                name: "A. Actor".to_string(),
                profile_path: Some("/a.jpg".to_string()),
                character: "Driver".to_string(),
            },
            MovieCastMember {
                name: "B. Actor".to_string(),
                profile_path: None,
                character: "Guard".to_string(),
            },
        ],
    };
    let credits = MovieCredits::from(resp);
    assert_eq!(credits.credits.len(), 2);
    assert_eq!(credits.credits[0].name, "A. Actor");
    assert_eq!(
        credits.credits[0].profile_photo_url,
        "https://image.tmdb.org/t/p/w600_and_h900_bestv2/a.jpg"
    );
    assert_eq!(credits.credits[0].character, "Driver");
    assert_eq!(credits.credits[1].name, "B. Actor");
    assert!(credits.credits[1].profile_photo_url.contains("themoviedb.org/assets"));
}

#[test]
fn search_responses_carry_the_ids_for_follow_up_queries() {
    let resp = MovieSearchResponse {
        results: vec![MovieSearchResult { id: 42 }, MovieSearchResult { id: 7 }],
    };
    assert_eq!(resp.results.len(), 2);
    assert_eq!(resp.results[0].id, 42);
}

#[test]
fn early_search_responses_carry_the_display_fields() {
    let resp = licht::tmdb::MovieSearchResponse {
        results: vec![licht::tmdb::MovieSearchResult {
            original_title: "Der Zug".to_string(),
            release_date: "1999-12-24".to_string(),
            poster_path: None,
        }],
    };
    assert_eq!(resp.results[0].original_title, "Der Zug");
}

#[test]
fn a_movie_search_bundles_both_languages_and_the_cast() {
    let mut german = details_response();
    german.title = "Der Zug".to_string();
    let credits = MovieCreditsResponse { cast: Vec::new() };
    let search = MovieSearch::new(details_response(), german, credits);
    assert_eq!(search.details.title, "The Train");
    assert_eq!(search.german_details.title, "Der Zug");
    assert!(search.credits.credits.is_empty());
}
