use licht::ui::gtfs::{Route as RouteDef, Stop, StopTime, TransitData, Trip};
use licht::ui::state::{
    bounding_box, calculate_elements, calculate_geopoints, load_routes, movie_search_mutation,
    routes_mutation, stations_inside_element, Bounds, Element, Point, Route, State, Station,
    WaysResponse,
};
use licht::ui::tmdb::{MovieCreditsResponse, MovieDetailsResponse};
use licht::ui::state::MovieSearch;

fn station(name: &str, lat: i64, lon: i64) -> Station {
    Station { name: name.to_string(), lat, lon }
}

fn element(minlat: i64, minlon: i64, maxlat: i64, maxlon: i64) -> Element {
    Element {
        bounds: Bounds { minlat, minlon, maxlat, maxlon },
        geometry: vec![Point { lat: minlat, lon: minlon }, Point { lat: maxlat, lon: maxlon }],
    }
}

fn small_feed() -> TransitData {
    TransitData {
        stops: vec![
            Stop {
                stop_id: "s1".to_string(),
                stop_name: "A".to_string(),
                stop_lat: 490_000_000,
                stop_lon: 80_000_000,
            },
            Stop {
                stop_id: "s2".to_string(),
                stop_name: "B".to_string(),
                stop_lat: 491_000_000,
                stop_lon: 81_000_000,
            },
            Stop {
                stop_id: "s3".to_string(),
                stop_name: "C".to_string(),
                stop_lat: 495_000_000,
                stop_lon: 85_000_000,
            },
        ],
        trips: vec![Trip { trip_id: "t1".to_string(), route_id: "r1".to_string() }],
        routes: vec![RouteDef {
            route_id: "r1".to_string(),
            agency_id: "02".to_string(),
            route_short_name: "S1".to_string(),
            route_type: 1,
        }],
        stop_times: vec![
            StopTime { trip_id: "t1".to_string(), stop_id: "s1".to_string() },
            StopTime { trip_id: "t1".to_string(), stop_id: "s2".to_string() },
        ],
    }
}

#[test]
fn reconstructed_route_has_the_served_stops() {
    let td = small_feed();
    let routes = load_routes(&td);
    assert_eq!(routes.len(), 1);
    let r = &routes[0];
    assert_eq!(r.name, "S1");
    assert_eq!(r.stations.len(), 2);
    // unordered set semantics: both stations are present, the unserved one is not
    let names: Vec<&str> = r.stations.iter().map(|s| s.name.as_str()).collect();
    assert!(names.contains(&"A"));
    assert!(names.contains(&"B"));
    assert!(!names.contains(&"C"));
    assert!(r.elements.is_empty());
}

#[test]
fn repeated_visits_do_not_repeat_a_station() {
    let mut td = small_feed();
    // a second trip of the same route visiting the same stops: still a set
    td.trips.push(Trip { trip_id: "t2".to_string(), route_id: "r1".to_string() });
    td.stop_times.push(StopTime { trip_id: "t2".to_string(), stop_id: "s1".to_string() });
    td.stop_times.push(StopTime { trip_id: "t1".to_string(), stop_id: "s2".to_string() });
    let routes = load_routes(&td);
    assert_eq!(routes[0].stations.len(), 2);
}

#[test]
fn stations_beyond_the_seed_latitudes_keep_the_box_valid() {
    // a station south of the -85 degree seed widens the bottom, not the top
    let routes = vec![Route {
        stations: vec![station("far", -860_000_000, 0)],
        name: "S1".to_string(),
        elements: Vec::new(),
    }];
    let bb = bounding_box(&routes);
    assert_eq!(bb.top_left.lat, -850_000_000);
    assert_eq!(bb.bottom_right.lat, -860_000_000);
    assert_eq!(bb.top_left.lon, 0);
    assert_eq!(bb.bottom_right.lon, 0);
    assert!(!bb.is_degenerate());
}

#[test]
fn route_without_matching_trips_has_no_stations() {
    let mut td = small_feed();
    td.routes.push(RouteDef {
        route_id: "r9".to_string(),
        agency_id: "02".to_string(),
        route_short_name: "S9".to_string(),
        route_type: 1,
    });
    let routes = load_routes(&td);
    assert_eq!(routes.len(), 2);
    assert_eq!(routes[1].name, "S9");
    assert_eq!(routes[1].stations.len(), 0);
}

#[test]
fn bounding_box_spans_all_stations() {
    let routes = vec![Route {
        stations: vec![station("A", 490_000_000, 80_000_000), station("B", 492_000_000, 85_000_000)],
        name: "S1".to_string(),
        elements: Vec::new(),
    }];
    let bb = bounding_box(&routes);
    assert_eq!(bb.top_left.lat, 492_000_000);
    assert_eq!(bb.top_left.lon, 80_000_000);
    assert_eq!(bb.bottom_right.lat, 490_000_000);
    assert_eq!(bb.bottom_right.lon, 85_000_000);
    assert!(!bb.is_degenerate());
}

#[test]
fn bounding_box_is_idempotent() {
    let routes = vec![
        Route {
            stations: vec![station("A", 1, 2), station("B", -3, 44)],
            name: "S1".to_string(),
            elements: Vec::new(),
        },
        Route {
            stations: vec![station("C", 490_000_000, -80_000_000)],
            name: "S2".to_string(),
            elements: Vec::new(),
        },
    ];
    let bb1 = bounding_box(&routes);
    let bb2 = bounding_box(&routes);
    assert_eq!(bb1, bb2);
}

#[test]
fn bounding_box_without_stations_is_degenerate() {
    let routes = vec![Route { stations: Vec::new(), name: "S1".to_string(), elements: Vec::new() }];
    let bb = bounding_box(&routes);
    assert!(bb.top_left.lat < bb.bottom_right.lat);
    assert!(bb.top_left.lon > bb.bottom_right.lon);
    // the degenerate box is detected, so no way-geometry query is issued
    assert!(bb.is_degenerate());

    let no_routes: Vec<Route> = Vec::new();
    assert!(bounding_box(&no_routes).is_degenerate());
}

#[test]
fn containment_does_not_care_about_pair_order() {
    let a = station("A", 490_000_000, 80_000_000);
    let b = station("B", 492_000_000, 85_000_000);
    let inside = element(489_000_000, 79_000_000, 493_000_000, 86_000_000);
    let outside = element(489_000_000, 79_000_000, 491_000_000, 86_000_000);
    assert_eq!(
        stations_inside_element(&a, &b, &inside),
        stations_inside_element(&b, &a, &inside)
    );
    assert_eq!(
        stations_inside_element(&a, &b, &outside),
        stations_inside_element(&b, &a, &outside)
    );
}

#[test]
fn containment_is_strict_enclosure() {
    let a = station("A", 490_000_000, 80_000_000);
    let b = station("B", 492_000_000, 85_000_000);
    assert!(stations_inside_element(
        &a,
        &b,
        &element(489_999_999, 79_999_999, 492_000_001, 85_000_001)
    ));
    // a box that only touches the pair's box does not enclose it strictly
    assert!(!stations_inside_element(
        &a,
        &b,
        &element(490_000_000, 79_999_999, 492_000_001, 85_000_001)
    ));
}

#[test]
fn element_matching_one_pair_is_attached_once() {
    let s1 = station("S1", 490_000_000, 80_000_000);
    let s2 = station("S2", 491_000_000, 81_000_000);
    let s3 = station("S3", 495_000_000, 85_000_000);
    let route = Route {
        stations: vec![s1, s2, s3],
        name: "S1".to_string(),
        elements: Vec::new(),
    };
    // encloses (S1, S2) strictly, but not (S2, S3)
    let e = element(489_000_000, 79_000_000, 492_000_000, 82_000_000);
    let ways = WaysResponse { elements: vec![e.clone()] };
    let attached = calculate_elements(&route, &ways);
    assert_eq!(attached.len(), 1);
    assert_eq!(attached[0], e);
}

#[test]
fn element_matching_both_pairs_is_attached_twice() {
    let route = Route {
        stations: vec![
            station("S1", 490_000_000, 80_000_000),
            station("S2", 491_000_000, 81_000_000),
            station("S3", 492_000_000, 82_000_000),
        ],
        name: "S1".to_string(),
        elements: Vec::new(),
    };
    let e = element(489_000_000, 79_000_000, 493_000_000, 83_000_000);
    let ways = WaysResponse { elements: vec![e.clone()] };
    let attached = calculate_elements(&route, &ways);
    // duplication per matching pair is preserved, not deduplicated
    assert_eq!(attached.len(), 2);
    assert_eq!(attached[0], e);
    assert_eq!(attached[1], e);
}

#[test]
fn routes_with_fewer_than_two_stations_get_no_elements() {
    let ways = WaysResponse {
        elements: vec![element(-900_000_000, -1_800_000_000, 900_000_000, 1_800_000_000)],
    };
    let empty = Route { stations: Vec::new(), name: "E".to_string(), elements: Vec::new() };
    let single = Route {
        stations: vec![station("S1", 0, 0)],
        name: "O".to_string(),
        elements: Vec::new(),
    };
    assert!(calculate_elements(&empty, &ways).is_empty());
    assert!(calculate_elements(&single, &ways).is_empty());
}

#[test]
fn calculate_geopoints_fills_every_route() {
    let mut routes = vec![
        Route {
            stations: vec![station("S1", 490_000_000, 80_000_000), station("S2", 491_000_000, 81_000_000)],
            name: "S1".to_string(),
            elements: Vec::new(),
        },
        Route {
            stations: vec![station("X", 100, 100)],
            name: "S2".to_string(),
            elements: Vec::new(),
        },
    ];
    let e = element(489_000_000, 79_000_000, 492_000_000, 82_000_000);
    let ways = WaysResponse { elements: vec![e.clone()] };
    calculate_geopoints(&mut routes, &ways);
    assert_eq!(routes.len(), 2);
    assert_eq!(routes[0].name, "S1");
    assert_eq!(routes[0].stations.len(), 2);
    assert_eq!(routes[0].elements, vec![e]);
    assert_eq!(routes[1].name, "S2");
    assert!(routes[1].elements.is_empty());
}

#[test]
fn state_starts_empty() {
    let s = State::new();
    assert_eq!(s.search_text, "");
    assert!(s.movie_searches.is_empty());
    assert!(s.current_movie.is_none());
    assert!(!s.show_map);
    assert!(s.routes.is_empty());
    assert!(s.current_route.is_none());
}

#[test]
fn applying_routes_makes_the_first_route_current() {
    let mut s = State::new();
    let routes = vec![
        Route { stations: vec![station("A", 1, 2)], name: "S1".to_string(), elements: Vec::new() },
        Route { stations: Vec::new(), name: "S2".to_string(), elements: Vec::new() },
    ];
    s.apply(routes_mutation(routes));
    assert_eq!(s.routes.len(), 2);
    let current = s.current_route.as_ref().expect("a current route");
    assert_eq!(current.name, "S1");
    assert_eq!(current.stations, s.routes[0].stations);

    s.apply(routes_mutation(Vec::new()));
    assert!(s.routes.is_empty());
    assert!(s.current_route.is_none());
}

#[test]
fn applying_a_movie_search_appends_it() {
    let mut s = State::new();
    let details = MovieDetailsResponse {
        overview: None,
        runtime: 0,
        original_title: "T".to_string(),
        title: "T".to_string(),
        poster_path: None,
        release_date: None,
        tagline: None,
    };
    let german = MovieDetailsResponse {
        overview: None,
        runtime: 0,
        original_title: "T".to_string(),
        title: "T (de)".to_string(),
        poster_path: None,
        release_date: None,
        tagline: None,
    };
    let credits = MovieCreditsResponse { cast: Vec::new() };
    let search = MovieSearch::new(details, german, credits);
    s.apply(movie_search_mutation(search));
    assert_eq!(s.movie_searches.len(), 1);
    assert_eq!(s.movie_searches[0].german_details.title, "T (de)");
    assert!(s.routes.is_empty());
}
