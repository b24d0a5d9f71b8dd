use licht::ui::gtfs::{normalize_routes, normalize_stops, Route, Stop};

fn stop(id: &str, name: &str, lat: i64, lon: i64) -> Stop {
    Stop {
        stop_id: id.to_string(),
        stop_name: name.to_string(),
        stop_lat: lat,
        stop_lon: lon,
    }
}

fn route(id: &str, agency: &str, short_name: &str, kind: u8) -> Route {
    Route {
        route_id: id.to_string(),
        agency_id: agency.to_string(),
        route_short_name: short_name.to_string(),
        route_type: kind,
    }
}

#[test]
fn stops_with_equal_names_collapse_to_the_first() {
    let stops = vec![
        stop("1", "A", 490_000_000, 80_000_000),
        stop("2", "A", 491_000_000, 81_000_000),
    ];
    let r = normalize_stops(stops);
    assert_eq!(r.len(), 1);
    assert_eq!(r[0].stop_name, "A");
    assert_eq!(r[0].stop_id, "1");
    assert_eq!(r[0].stop_lat, 490_000_000);
    assert_eq!(r[0].stop_lon, 80_000_000);
}

#[test]
fn stops_are_sorted_by_name() {
    let stops = vec![
        stop("1", "Mitte", 0, 0),
        stop("2", "Altstadt", 0, 0),
        stop("3", "Zoo", 0, 0),
    ];
    let r = normalize_stops(stops);
    assert_eq!(r.len(), 3);
    assert_eq!(r[0].stop_name, "Altstadt");
    assert_eq!(r[1].stop_name, "Mitte");
    assert_eq!(r[2].stop_name, "Zoo");
}

#[test]
fn no_two_retained_stops_share_a_name() {
    let stops = vec![
        stop("1", "B", 1, 1),
        stop("2", "A", 2, 2),
        stop("3", "B", 3, 3),
        stop("4", "A", 4, 4),
        stop("5", "C", 5, 5),
    ];
    let r = normalize_stops(stops);
    assert_eq!(r.len(), 3);
    for i in 0..r.len() {
        for j in 0..r.len() {
            if i != j {
                assert_ne!(r[i].stop_name, r[j].stop_name);
            }
        }
    }
    // the first record of each name survives
    assert_eq!(r[0].stop_id, "2");
    assert_eq!(r[1].stop_id, "1");
    assert_eq!(r[2].stop_id, "5");
}

#[test]
fn empty_stop_input_is_valid() {
    let r = normalize_stops(Vec::new());
    assert!(r.is_empty());
}

#[test]
fn routes_are_filtered_by_agency_and_mode() {
    let routes = vec![
        route("r1", "02", "S1", 1),
        route("r2", "03", "S2", 1),
        route("r3", "01", "S3", 2),
        route("r4", "02", "S4", 3),
        route("r5", "02", "S5", 0),
    ];
    let r = normalize_routes(routes);
    assert_eq!(r.len(), 3);
    for rr in &r {
        assert!(rr.agency_id == "02" || rr.agency_id == "01");
        assert!(rr.route_type < 3);
    }
    let names: Vec<&str> = r.iter().map(|x| x.route_short_name.as_str()).collect();
    assert_eq!(names, vec!["S1", "S3", "S5"]);
}

#[test]
fn routes_with_equal_short_names_collapse_to_the_first_allowed() {
    let routes = vec![
        route("r1", "03", "S1", 1),
        route("r2", "02", "S1", 1),
        route("r3", "01", "S1", 0),
    ];
    let r = normalize_routes(routes);
    // the disallowed first record does not shadow the allowed ones
    assert_eq!(r.len(), 1);
    assert_eq!(r[0].route_id, "r2");
}

#[test]
fn routes_are_sorted_by_short_name() {
    let routes = vec![
        route("r1", "02", "T3", 0),
        route("r2", "02", "S1", 1),
        route("r3", "01", "T1", 2),
    ];
    let r = normalize_routes(routes);
    let names: Vec<&str> = r.iter().map(|x| x.route_short_name.as_str()).collect();
    assert_eq!(names, vec!["S1", "T1", "T3"]);
}

#[test]
fn empty_route_result_is_valid() {
    let routes = vec![route("r1", "07", "X9", 1), route("r2", "02", "B7", 5)];
    let r = normalize_routes(routes);
    assert!(r.is_empty());
}
