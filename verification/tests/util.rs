use licht::ui::util::{build_poster_url, humanize_runtime};

#[test]
fn runtimes_below_one_hour_show_minutes_only() {
    assert_eq!(humanize_runtime(0), "0m");
    assert_eq!(humanize_runtime(1), "1m");
    assert_eq!(humanize_runtime(59), "59m");
}

#[test]
fn runtimes_above_one_hour_show_hours_and_minutes() {
    assert_eq!(humanize_runtime(60), "1h0m");
    assert_eq!(humanize_runtime(61), "1h1m");
    assert_eq!(humanize_runtime(125), "2h5m");
    assert_eq!(humanize_runtime(600), "10h0m");
    assert_eq!(humanize_runtime(6000), "100h0m");
}

#[test]
fn the_largest_runtime_still_renders() {
    assert_eq!(humanize_runtime(u64::MAX), "307445734561825860h15m");
}

#[test]
fn poster_url_appends_the_path() {
    assert_eq!(
        build_poster_url(Some("/abc.jpg".to_string())),
        "https://image.tmdb.org/t/p/w600_and_h900_bestv2/abc.jpg"
    );
}

#[test]
fn poster_url_without_path_is_the_placeholder() {
    assert_eq!(
        build_poster_url(None),
        "https://www.themoviedb.org/assets/2/v4/glyphicons/basic/glyphicons-basic-38-picture-grey-c2ebdbb057f2a7614185931650f8cee23fa137b93812ccb132b9df511df1cfac.svg"
    );
}
