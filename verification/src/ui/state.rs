//! The core of the reconstruction: per-route station lists joined from the
//! feed tables, the bounding box over all stations, and the assignment of
//! fetched railway-geometry segments to routes. Also the movie metadata in
//! display form, and the state that the display layer observes, updated
//! through an explicit update type applied in receipt order.
//!
//! Coordinates are fixed-point integers in units of 10^-7 degree.

use vstd::prelude::*;
use vstd::pervasive::VecAdditionalExecFns;
use crate::text::clone_opt_string;
use crate::text::str_eq;
use crate::ui::gtfs::Stop;
use crate::ui::gtfs::StopTime;
use crate::ui::gtfs::TransitData;
use crate::ui::gtfs::Trip;
use crate::ui::tmdb::MovieCastMember;
use crate::ui::tmdb::MovieCreditsResponse;
use crate::ui::tmdb::MovieDetailsResponse;
use crate::ui::util::build_poster_url;
use crate::ui::util::spec_poster_url;

verus! {

/// A display-ready projection of a stop: name and fixed-point coordinates.
#[derive(Debug, PartialEq)]
pub struct Station {
    pub name: String,
    pub lon: i64,
    pub lat: i64,
}

impl Clone for Station {
    fn clone(&self) -> (res: Self)
        ensures
            res == self,
    {
        Station { name: self.name.clone(), lon: self.lon, lat: self.lat }
    }
}

/// One point of a way polyline.
#[derive(Debug, PartialEq, Eq)]
pub struct Point {
    pub lat: i64,
    pub lon: i64,
}

impl Clone for Point {
    fn clone(&self) -> (res: Self)
        ensures
            res == self,
    {
        Point { lat: self.lat, lon: self.lon }
    }
}

impl Copy for Point {

}

/// The bounding box a way segment came with.
#[derive(Debug, PartialEq, Eq)]
pub struct Bounds {
    pub minlat: i64,
    pub minlon: i64,
    pub maxlat: i64,
    pub maxlon: i64,
}

impl Clone for Bounds {
    fn clone(&self) -> (res: Self)
        ensures
            res == self,
    {
        Bounds {
            minlat: self.minlat,
            minlon: self.minlon,
            maxlat: self.maxlat,
            maxlon: self.maxlon,
        }
    }
}

impl Copy for Bounds {

}

/// A raw railway-geometry segment: its bounding box and its polyline.
#[derive(Debug, PartialEq)]
pub struct Element {
    pub bounds: Bounds,
    pub geometry: Vec<Point>,
}

/// The mathematical content of an [`Element`].
pub struct ElementView {
    pub bounds: Bounds,
    pub geometry: Seq<Point>,
}

impl View for Element {
    type V = ElementView;

    open spec fn view(&self) -> ElementView {
        ElementView { bounds: self.bounds, geometry: self.geometry@ }
    }
}

impl Clone for Element {
    fn clone(&self) -> (res: Self)
        ensures
            res@ == self@,
    {
        let geometry = self.geometry.clone();
        proof {
            assert(geometry@ =~= self.geometry@);
        }
        Element { bounds: self.bounds, geometry }
    }
}

/// The views of a sequence of elements.
pub open spec fn views_of_elements(es: Seq<Element>) -> Seq<ElementView> {
    es.map_values(|e: Element| e@)
}

/// The full answer of the way-geometry service.
#[derive(Debug)]
pub struct WaysResponse {
    pub elements: Vec<Element>,
}

/// A reconstructed transit line: its stations, its display name, and the
/// way segments judged to lie between consecutive stations.
#[derive(Debug, PartialEq)]
pub struct Route {
    pub stations: Vec<Station>,
    pub name: String,
    pub elements: Vec<Element>,
}

/// Whether two routes carry the same content.
pub open spec fn route_view_eq(a: Route, b: Route) -> bool {
    &&& a.stations@ == b.stations@
    &&& a.name == b.name
    &&& views_of_elements(a.elements@) == views_of_elements(b.elements@)
}

impl Clone for Route {
    fn clone(&self) -> (res: Self)
        ensures
            route_view_eq(res, *self),
    {
        let stations = self.stations.clone();
        let elements = self.elements.clone();
        proof {
            assert(stations@ =~= self.stations@);
            assert(views_of_elements(elements@) =~= views_of_elements(self.elements@));
        }
        Route { stations, name: self.name.clone(), elements }
    }
}

/// Some trip of `trips` belongs to the route and carries this trip id.
pub open spec fn trip_in_route(trips: Seq<Trip>, route_id: Seq<char>, trip_id: Seq<char>) -> bool {
    exists|j: int|
        0 <= j < trips.len() && (#[trigger] trips[j]).route_id@ == route_id
            && trips[j].trip_id@ == trip_id
}

/// Some trip of the route visits this stop.
pub open spec fn stop_served(
    trips: Seq<Trip>,
    stop_times: Seq<StopTime>,
    route_id: Seq<char>,
    stop_id: Seq<char>,
) -> bool {
    exists|k: int|
        0 <= k < stop_times.len() && (#[trigger] stop_times[k]).stop_id@ == stop_id
            && trip_in_route(trips, route_id, stop_times[k].trip_id@)
}

/// The display projection of a stop.
pub open spec fn station_of(s: Stop) -> Station {
    Station { name: s.stop_name, lon: s.stop_lon, lat: s.stop_lat }
}

/// The stations of a route: the served stops, projected, in stop-table
/// order (the feed's visit order is not consumed).
pub open spec fn route_stations(
    stops: Seq<Stop>,
    trips: Seq<Trip>,
    stop_times: Seq<StopTime>,
    route_id: Seq<char>,
) -> Seq<Station>
    decreases stops.len(),
{
    if stops.len() == 0 {
        Seq::empty()
    } else {
        let rest = route_stations(stops.drop_last(), trips, stop_times, route_id);
        if stop_served(trips, stop_times, route_id, stops.last().stop_id@) {
            rest.push(station_of(stops.last()))
        } else {
            rest
        }
    }
}

/// A route whose id no trip carries has no stations.
pub proof fn lemma_route_without_trips_has_no_stations(
    stops: Seq<Stop>,
    trips: Seq<Trip>,
    stop_times: Seq<StopTime>,
    route_id: Seq<char>,
)
    requires
        forall|j: int| 0 <= j < trips.len() ==> (#[trigger] trips[j]).route_id@ != route_id,
    ensures
        route_stations(stops, trips, stop_times, route_id) == Seq::<Station>::empty(),
    decreases stops.len(),
{
    if stops.len() > 0 {
        lemma_route_without_trips_has_no_stations(stops.drop_last(), trips, stop_times, route_id);
        assert(!stop_served(trips, stop_times, route_id, stops.last().stop_id@));
    }
}

/// Whether some trip of the route (by route id) carries this trip id.
fn is_trip_in_route(trips: &Vec<Trip>, route_id: &str, trip_id: &str) -> (r: bool)
    ensures
        r == trip_in_route(trips@, route_id@, trip_id@),
{
    let mut j: usize = 0;
    while j < trips.len()
        invariant
            j <= trips@.len(),
            forall|m: int|
                0 <= m < j ==> !((#[trigger] trips@[m]).route_id@ == route_id@
                    && trips@[m].trip_id@ == trip_id@),
        decreases trips@.len() - j,
    {
        if str_eq(trips[j].route_id.as_str(), route_id) && str_eq(
            trips[j].trip_id.as_str(),
            trip_id,
        ) {
            return true;
        }
        j = j + 1;
    }
    false
}

/// Whether some trip of the route visits this stop.
fn is_stop_served(
    trips: &Vec<Trip>,
    stop_times: &Vec<StopTime>,
    route_id: &str,
    stop_id: &str,
) -> (r: bool)
    ensures
        r == stop_served(trips@, stop_times@, route_id@, stop_id@),
{
    let mut k: usize = 0;
    while k < stop_times.len()
        invariant
            k <= stop_times@.len(),
            forall|m: int|
                0 <= m < k ==> !((#[trigger] stop_times@[m]).stop_id@ == stop_id@ && trip_in_route(
                    trips@,
                    route_id@,
                    stop_times@[m].trip_id@,
                )),
        decreases stop_times@.len() - k,
    {
        if str_eq(stop_times[k].stop_id.as_str(), stop_id) && is_trip_in_route(
            trips,
            route_id,
            stop_times[k].trip_id.as_str(),
        ) {
            return true;
        }
        k = k + 1;
    }
    false
}

impl Route {
    /// Reconstructs one route: joins trips to stop-times to stops, and
    /// projects every served stop into a station. The station list follows
    /// stop-table order; it carries no travel sequence. A route without
    /// matching trips gets an empty station list; that is valid. Way
    /// segments are attached separately, once the geometry is fetched.
    #[verifier::loop_isolation(false)]
    pub fn new(td: &TransitData, route_id: &str, name: String) -> (r: Route)
        ensures
            r.name == name,
            r.stations@ == route_stations(td.stops@, td.trips@, td.stop_times@, route_id@),
            r.elements@ == Seq::<Element>::empty(),
    {
        let mut stations: Vec<Station> = Vec::new();
        let mut i: usize = 0;
        while i < td.stops.len()
            invariant
                i <= td.stops@.len(),
                stations@ == route_stations(
                    td.stops@.take(i as int),
                    td.trips@,
                    td.stop_times@,
                    route_id@,
                ),
            decreases td.stops@.len() - i,
        {
            let ghost prefix = td.stops@.take(i as int);
            if is_stop_served(&td.trips, &td.stop_times, route_id, td.stops[i].stop_id.as_str()) {
                let s = &td.stops[i];
                stations.push(Station { name: s.stop_name.clone(), lon: s.stop_lon, lat: s.stop_lat });
            }
            proof {
                assert(td.stops@.take(i as int + 1).drop_last() =~= prefix);
                assert(td.stops@.take(i as int + 1).last() == td.stops@[i as int]);
            }
            i = i + 1;
        }
        proof {
            assert(td.stops@.take(td.stops@.len() as int) =~= td.stops@);
        }
        Route { stations, name, elements: Vec::new() }
    }
}

/// Reconstructs one route per retained feed route, named by its short name.
/// Way segments are attached by [`calculate_geopoints`] once the geometry
/// for the bounding box of these routes has been fetched.
#[verifier::loop_isolation(false)]
pub fn load_routes(td: &TransitData) -> (r: Vec<Route>)
    ensures
        r@.len() == td.routes@.len(),
        forall|i: int|
            0 <= i < r@.len() ==> {
                &&& (#[trigger] r@[i]).name == td.routes@[i].route_short_name
                &&& r@[i].stations@ == route_stations(
                    td.stops@,
                    td.trips@,
                    td.stop_times@,
                    td.routes@[i].route_id@,
                )
                &&& r@[i].elements@ == Seq::<Element>::empty()
            },
{
    let mut routes: Vec<Route> = Vec::new();
    let mut i: usize = 0;
    while i < td.routes.len()
        invariant
            i <= td.routes@.len(),
            routes@.len() == i,
            forall|k: int|
                0 <= k < i ==> {
                    &&& (#[trigger] routes@[k]).name == td.routes@[k].route_short_name
                    &&& routes@[k].stations@ == route_stations(
                        td.stops@,
                        td.trips@,
                        td.stop_times@,
                        td.routes@[k].route_id@,
                    )
                    &&& routes@[k].elements@ == Seq::<Element>::empty()
                },
        decreases td.routes@.len() - i,
    {
        let r = &td.routes[i];
        routes.push(Route::new(td, r.route_id.as_str(), r.route_short_name.clone()));
        i = i + 1;
    }
    routes
}

/// Latitude seed of the box: below every real latitude.
pub const TOP_SEED: i64 = -850_000_000;

/// Latitude seed of the box: above every real latitude.
pub const BOTTOM_SEED: i64 = 850_000_000;

/// Longitude seed of the box: above every real longitude.
pub const LEFT_SEED: i64 = 1_800_000_000;

/// Longitude seed of the box: below every real longitude.
pub const RIGHT_SEED: i64 = -1_800_000_000;

/// A geographic point, fixed-point coordinates.
#[derive(Debug, PartialEq, Eq)]
pub struct GeoPoint {
    pub lat: i64,
    pub lon: i64,
}

impl Clone for GeoPoint {
    fn clone(&self) -> (res: Self)
        ensures
            res == self,
    {
        GeoPoint { lat: self.lat, lon: self.lon }
    }
}

impl Copy for GeoPoint {

}

/// The box spanned by the stations of all routes.
#[derive(Debug, PartialEq, Eq)]
pub struct BoundingBox {
    pub top_left: GeoPoint,
    pub bottom_right: GeoPoint,
}

impl Clone for BoundingBox {
    fn clone(&self) -> (res: Self)
        ensures
            res == self,
    {
        BoundingBox { top_left: self.top_left, bottom_right: self.bottom_right }
    }
}

impl Copy for BoundingBox {

}

/// All stations of all routes, in route order.
pub open spec fn all_stations(routes: Seq<Route>) -> Seq<Station>
    decreases routes.len(),
{
    if routes.len() == 0 {
        Seq::empty()
    } else {
        all_stations(routes.drop_last()) + routes.last().stations@
    }
}

/// The largest latitude of the stations, from the seed.
pub open spec fn spec_top(stations: Seq<Station>) -> i64
    decreases stations.len(),
{
    if stations.len() == 0 {
        TOP_SEED
    } else {
        let p = spec_top(stations.drop_last());
        if stations.last().lat > p {
            stations.last().lat
        } else {
            p
        }
    }
}

/// The smallest latitude of the stations, from the seed.
pub open spec fn spec_bottom(stations: Seq<Station>) -> i64
    decreases stations.len(),
{
    if stations.len() == 0 {
        BOTTOM_SEED
    } else {
        let p = spec_bottom(stations.drop_last());
        if stations.last().lat < p {
            stations.last().lat
        } else {
            p
        }
    }
}

/// The smallest longitude of the stations, from the seed.
pub open spec fn spec_left(stations: Seq<Station>) -> i64
    decreases stations.len(),
{
    if stations.len() == 0 {
        LEFT_SEED
    } else {
        let p = spec_left(stations.drop_last());
        if stations.last().lon < p {
            stations.last().lon
        } else {
            p
        }
    }
}

/// The largest longitude of the stations, from the seed.
pub open spec fn spec_right(stations: Seq<Station>) -> i64
    decreases stations.len(),
{
    if stations.len() == 0 {
        RIGHT_SEED
    } else {
        let p = spec_right(stations.drop_last());
        if stations.last().lon > p {
            stations.last().lon
        } else {
            p
        }
    }
}

/// The bounding box of all stations of the routes.
pub open spec fn spec_bounding_box(routes: Seq<Route>) -> BoundingBox {
    BoundingBox {
        top_left: GeoPoint {
            lat: spec_top(all_stations(routes)),
            lon: spec_left(all_stations(routes)),
        },
        bottom_right: GeoPoint {
            lat: spec_bottom(all_stations(routes)),
            lon: spec_right(all_stations(routes)),
        },
    }
}

/// An inverted box: no station tightened it, so it covers nothing.
pub open spec fn spec_degenerate(bb: BoundingBox) -> bool {
    bb.top_left.lat < bb.bottom_right.lat || bb.top_left.lon > bb.bottom_right.lon
}

impl BoundingBox {
    /// Whether the box is inverted ("no data"). A degenerate box must not
    /// be handed to the way-geometry service.
    pub fn is_degenerate(&self) -> (r: bool)
        ensures
            r == spec_degenerate(*self),
    {
        self.top_left.lat < self.bottom_right.lat || self.top_left.lon > self.bottom_right.lon
    }
}

/// The box is a function of the stations alone: route collections with the
/// same stations span the same box.
pub proof fn lemma_bounding_box_pure(r1: Seq<Route>, r2: Seq<Route>)
    requires
        all_stations(r1) == all_stations(r2),
    ensures
        spec_bounding_box(r1) == spec_bounding_box(r2),
{
}

/// With no stations at all, the box stays at its seeds, which are inverted
/// on both axes; such a box must be detected before any geometry query.
pub proof fn lemma_empty_bounds_degenerate(routes: Seq<Route>)
    requires
        all_stations(routes).len() == 0,
    ensures
        spec_bounding_box(routes).top_left.lat < spec_bounding_box(routes).bottom_right.lat,
        spec_bounding_box(routes).top_left.lon > spec_bounding_box(routes).bottom_right.lon,
        spec_degenerate(spec_bounding_box(routes)),
{
    assert(all_stations(routes) =~= Seq::<Station>::empty());
}

/// The bounding box over every station of every route: each station pushes
/// the top up, the bottom down, the left west and the right east. With no
/// stations the box keeps its inverted seeds; callers must treat such a box
/// as "no data" and must not query the way-geometry service with it.
#[verifier::loop_isolation(false)]
pub fn bounding_box(routes: &Vec<Route>) -> (bb: BoundingBox)
    ensures
        bb == spec_bounding_box(routes@),
{
    let mut top: i64 = TOP_SEED;
    let mut bottom: i64 = BOTTOM_SEED;
    let mut left: i64 = LEFT_SEED;
    let mut right: i64 = RIGHT_SEED;

    let mut i: usize = 0;
    while i < routes.len()
        invariant
            i <= routes@.len(),
            top == spec_top(all_stations(routes@.take(i as int))),
            bottom == spec_bottom(all_stations(routes@.take(i as int))),
            left == spec_left(all_stations(routes@.take(i as int))),
            right == spec_right(all_stations(routes@.take(i as int))),
        decreases routes@.len() - i,
    {
        let ghost sofar = all_stations(routes@.take(i as int));
        let stations = &routes[i].stations;
        let mut j: usize = 0;
        while j < stations.len()
            invariant
                j <= stations@.len(),
                top == spec_top(sofar + stations@.take(j as int)),
                bottom == spec_bottom(sofar + stations@.take(j as int)),
                left == spec_left(sofar + stations@.take(j as int)),
                right == spec_right(sofar + stations@.take(j as int)),
            decreases stations@.len() - j,
        {
            let ghost before = sofar + stations@.take(j as int);
            let station = &stations[j];
            if station.lat > top {
                top = station.lat;
            }
            if station.lat < bottom {
                bottom = station.lat;
            }
            if station.lon < left {
                left = station.lon;
            }
            if station.lon > right {
                right = station.lon;
            }
            proof {
                let after = sofar + stations@.take(j as int + 1);
                assert(after.drop_last() =~= before);
                assert(after.last() == stations@[j as int]);
            }
            j = j + 1;
        }
        proof {
            assert(sofar + stations@.take(stations@.len() as int) =~= sofar + stations@);
            let next = all_stations(routes@.take(i as int + 1));
            assert(routes@.take(i as int + 1).drop_last() =~= routes@.take(i as int));
            assert(routes@.take(i as int + 1).last() == routes@[i as int]);
            assert(next == sofar + routes@[i as int].stations@);
        }
        i = i + 1;
    }
    proof {
        assert(routes@.take(routes@.len() as int) =~= routes@);
        // an empty start: the accumulators began at the seeds
        assert(all_stations(routes@.take(0)) =~= Seq::<Station>::empty());
    }
    BoundingBox {
        top_left: GeoPoint { lat: top, lon: left },
        bottom_right: GeoPoint { lat: bottom, lon: right },
    }
}

/// Whether the bounding box of a way segment strictly encloses the box
/// spanned by two stations.
pub open spec fn stations_inside(a: Station, b: Station, bounds: Bounds) -> bool {
    &&& bounds.maxlat > (if a.lat > b.lat {
        a.lat
    } else {
        b.lat
    })
    &&& bounds.minlat < (if a.lat < b.lat {
        a.lat
    } else {
        b.lat
    })
    &&& bounds.maxlon > (if a.lon > b.lon {
        a.lon
    } else {
        b.lon
    })
    &&& bounds.minlon < (if a.lon < b.lon {
        a.lon
    } else {
        b.lon
    })
}

/// The predicate does not care about the order of the pair.
pub proof fn lemma_stations_inside_symmetric(a: Station, b: Station, bounds: Bounds)
    ensures
        stations_inside(a, b, bounds) == stations_inside(b, a, bounds),
{
}

/// Whether the bounding box of `element` strictly encloses the box spanned
/// by the two stations.
pub fn stations_inside_element(a: &Station, b: &Station, element: &Element) -> (r: bool)
    ensures
        r == stations_inside(*a, *b, element.bounds),
{
    let max_lat = if a.lat > b.lat {
        a.lat
    } else {
        b.lat
    };
    let min_lat = if a.lat < b.lat {
        a.lat
    } else {
        b.lat
    };
    let max_lon = if a.lon > b.lon {
        a.lon
    } else {
        b.lon
    };
    let min_lon = if a.lon < b.lon {
        a.lon
    } else {
        b.lon
    };
    element.bounds.maxlat > max_lat && element.bounds.minlat < min_lat && element.bounds.maxlon
        > max_lon && element.bounds.minlon < min_lon
}

/// The ways whose boxes strictly enclose the pair `(a, b)`, in way order.
pub open spec fn pair_elements(a: Station, b: Station, ways: Seq<ElementView>) -> Seq<ElementView>
    decreases ways.len(),
{
    if ways.len() == 0 {
        Seq::empty()
    } else {
        let rest = pair_elements(a, b, ways.drop_last());
        if stations_inside(a, b, ways.last().bounds) {
            rest.push(ways.last())
        } else {
            rest
        }
    }
}

/// The ways matched by the first `n` consecutive station pairs, in pair
/// order; a way may appear once per pair it matches.
pub open spec fn elements_for_prefix(
    stations: Seq<Station>,
    ways: Seq<ElementView>,
    n: int,
) -> Seq<ElementView>
    decreases n,
{
    if n <= 0 {
        Seq::empty()
    } else {
        elements_for_prefix(stations, ways, n - 1) + pair_elements(
            stations[n - 1],
            stations[n],
            ways,
        )
    }
}

/// The ways attached to a route: every way matched by some consecutive
/// station pair, in pair order, kept once per matching pair (duplicates
/// are preserved on purpose). Fewer than two stations match nothing.
pub open spec fn route_elements(stations: Seq<Station>, ways: Seq<ElementView>) -> Seq<
    ElementView,
> {
    elements_for_prefix(stations, ways, stations.len() - 1)
}

/// Collects, for each consecutive station pair of the route, every way
/// whose box strictly encloses the pair. The same way may be collected for
/// several pairs, and then appears several times; that duplication is part
/// of the observable behavior and is preserved.
#[verifier::loop_isolation(false)]
pub fn calculate_elements(route: &Route, ways: &WaysResponse) -> (elements: Vec<Element>)
    ensures
        views_of_elements(elements@) == route_elements(
            route.stations@,
            views_of_elements(ways.elements@),
        ),
{
    let ghost wv = views_of_elements(ways.elements@);
    let mut elements: Vec<Element> = Vec::new();
    let n = route.stations.len();
    proof {
        assert(views_of_elements(elements@) =~= Seq::<ElementView>::empty());
    }
    if n == 0 {
        proof {
            assert(views_of_elements(elements@) =~= route_elements(route.stations@, wv));
        }
        return elements;
    }
    let mut i: usize = 0;
    while i < n - 1
        invariant
            n == route.stations@.len(),
            1 <= n,
            i <= n - 1,
            views_of_elements(elements@) == elements_for_prefix(route.stations@, wv, i as int),
        decreases n - i,
    {
        let ghost a = route.stations@[i as int];
        let ghost b = route.stations@[i as int + 1];
        let ghost done = elements_for_prefix(route.stations@, wv, i as int);
        let mut j: usize = 0;
        proof {
            assert(pair_elements(a, b, wv.take(0)) =~= Seq::<ElementView>::empty());
            assert(views_of_elements(elements@) =~= done + pair_elements(a, b, wv.take(0)));
        }
        while j < ways.elements.len()
            invariant
                j <= ways.elements@.len(),
                views_of_elements(elements@) == done + pair_elements(a, b, wv.take(j as int)),
            decreases ways.elements@.len() - j,
        {
            let ghost before = elements@;
            if stations_inside_element(&route.stations[i], &route.stations[i + 1], &ways.elements[j]) {
                let e = ways.elements[j].clone();
                elements.push(e);
                proof {
                    assert(views_of_elements(elements@) =~= views_of_elements(before).push(
                        ways.elements@[j as int]@,
                    ));
                }
            }
            proof {
                assert(wv.take(j as int + 1).drop_last() =~= wv.take(j as int));
                assert(wv.take(j as int + 1).last() == wv[j as int]);
                assert(wv[j as int] == ways.elements@[j as int]@);
            }
            j = j + 1;
        }
        proof {
            assert(wv.take(wv.len() as int) =~= wv);
        }
        i = i + 1;
    }
    elements
}

/// Attaches to every route the ways matched by its station pairs. Stations
/// and names stay as they are; only the element lists are filled. The ways
/// must come from the fetch for these routes' bounding box.
#[verifier::loop_isolation(false)]
pub fn calculate_geopoints(routes: &mut Vec<Route>, ways: &WaysResponse)
    ensures
        final(routes)@.len() == old(routes)@.len(),
        forall|k: int|
            0 <= k < old(routes)@.len() ==> {
                &&& (#[trigger] final(routes)@[k]).name == old(routes)@[k].name
                &&& final(routes)@[k].stations@ == old(routes)@[k].stations@
                &&& views_of_elements(final(routes)@[k].elements@) == route_elements(
                    old(routes)@[k].stations@,
                    views_of_elements(ways.elements@),
                )
            },
{
    let mut i: usize = 0;
    while i < routes.len()
        invariant
            routes@.len() == old(routes)@.len(),
            i <= routes@.len(),
            forall|k: int| i <= k < routes@.len() ==> #[trigger] routes@[k] == old(routes)@[k],
            forall|k: int|
                0 <= k < i ==> {
                    &&& (#[trigger] routes@[k]).name == old(routes)@[k].name
                    &&& routes@[k].stations@ == old(routes)@[k].stations@
                    &&& views_of_elements(routes@[k].elements@) == route_elements(
                        old(routes)@[k].stations@,
                        views_of_elements(ways.elements@),
                    )
                },
        decreases routes@.len() - i,
    {
        let elements = calculate_elements(&routes[i], ways);
        let stations = routes[i].stations.clone();
        let name = routes[i].name.clone();
        proof {
            assert(stations@ =~= routes@[i as int].stations@);
        }
        routes.set(i, Route { stations, name, elements });
        i = i + 1;
    }
}

/// One movie in display form.
#[derive(Debug)]
pub struct MovieDetails {
    pub original_title: String,
    pub title: String,
    pub release_date: Option<String>,
    pub poster_url: String,
    pub runtime: u64,
    pub tagline: Option<String>,
    pub overview: Option<String>,
}

impl Clone for MovieDetails {
    fn clone(&self) -> (res: Self)
        ensures
            res == self,
    {
        MovieDetails {
            original_title: self.original_title.clone(),
            title: self.title.clone(),
            release_date: clone_opt_string(&self.release_date),
            poster_url: self.poster_url.clone(),
            runtime: self.runtime,
            tagline: clone_opt_string(&self.tagline),
            overview: clone_opt_string(&self.overview),
        }
    }
}

/// How a displayed movie relates to the service's answer: all fields are
/// carried over, and the poster path becomes the poster address.
pub open spec fn details_match(resp: MovieDetailsResponse, d: MovieDetails) -> bool {
    &&& d.original_title == resp.original_title
    &&& d.title == resp.title
    &&& d.release_date == resp.release_date
    &&& d.poster_url@ == spec_poster_url(resp.poster_path.deep_view())
    &&& d.runtime == resp.runtime
    &&& d.tagline == resp.tagline
    &&& d.overview == resp.overview
}

impl MovieDetails {
    /// The display form of a details answer.
    pub fn from(details: MovieDetailsResponse) -> (r: Self)
        ensures
            details_match(details, r),
    {
        MovieDetails {
            original_title: details.original_title,
            title: details.title,
            release_date: details.release_date,
            poster_url: build_poster_url(details.poster_path),
            runtime: details.runtime,
            tagline: details.tagline,
            overview: details.overview,
        }
    }
}

/// One cast member in display form.
#[derive(Debug)]
pub struct MovieCredit {
    pub name: String,
    pub profile_photo_url: String,
    pub character: String,
}

impl Clone for MovieCredit {
    fn clone(&self) -> (res: Self)
        ensures
            res == self,
    {
        MovieCredit {
            name: self.name.clone(),
            profile_photo_url: self.profile_photo_url.clone(),
            character: self.character.clone(),
        }
    }
}

/// How a displayed credit relates to the service's cast entry.
pub open spec fn credit_match(c: MovieCastMember, r: MovieCredit) -> bool {
    &&& r.name == c.name
    &&& r.profile_photo_url@ == spec_poster_url(c.profile_path.deep_view())
    &&& r.character == c.character
}

impl MovieCredit {
    /// The display form of one cast entry.
    pub fn from(cast_member: MovieCastMember) -> (r: Self)
        ensures
            credit_match(cast_member, r),
    {
        MovieCredit {
            name: cast_member.name,
            profile_photo_url: build_poster_url(cast_member.profile_path),
            character: cast_member.character,
        }
    }
}

/// The cast of one movie in display form.
#[derive(Debug)]
pub struct MovieCredits {
    pub credits: Vec<MovieCredit>,
}

impl Clone for MovieCredits {
    fn clone(&self) -> (res: Self)
        ensures
            res.credits@ == self.credits@,
    {
        let credits = self.credits.clone();
        proof {
            assert(credits@ =~= self.credits@);
        }
        MovieCredits { credits }
    }
}

/// How a displayed cast relates to the service's answer: entry by entry.
pub open spec fn credits_match(resp: MovieCreditsResponse, c: MovieCredits) -> bool {
    &&& c.credits@.len() == resp.cast@.len()
    &&& forall|i: int|
        0 <= i < resp.cast@.len() ==> credit_match(resp.cast@[i], #[trigger] c.credits@[i])
}

impl MovieCredits {
    /// The display form of a credits answer.
    #[verifier::loop_isolation(false)]
    pub fn from(credits: MovieCreditsResponse) -> (r: Self)
        ensures
            credits_match(credits, r),
    {
        let mut out: Vec<MovieCredit> = Vec::new();
        let mut i: usize = 0;
        while i < credits.cast.len()
            invariant
                i <= credits.cast@.len(),
                out@.len() == i,
                forall|k: int|
                    0 <= k < i ==> credit_match(credits.cast@[k], #[trigger] out@[k]),
            decreases credits.cast@.len() - i,
        {
            let c = credits.cast[i].clone();
            out.push(MovieCredit::from(c));
            i = i + 1;
        }
        MovieCredits { credits: out }
    }
}

/// One finished movie search: details in two languages, and the cast.
#[derive(Debug)]
pub struct MovieSearch {
    pub details: MovieDetails,
    pub german_details: MovieDetails,
    pub credits: MovieCredits,
}

impl Clone for MovieSearch {
    fn clone(&self) -> (res: Self)
        ensures
            res.details == self.details,
            res.german_details == self.german_details,
            res.credits.credits@ == self.credits.credits@,
    {
        MovieSearch {
            details: self.details.clone(),
            german_details: self.german_details.clone(),
            credits: self.credits.clone(),
        }
    }
}

impl MovieSearch {
    /// Bundles the three answers of one movie search in display form.
    pub fn new(
        details: MovieDetailsResponse,
        german_details: MovieDetailsResponse,
        credits: MovieCreditsResponse,
    ) -> (r: Self)
        ensures
            details_match(details, r.details),
            details_match(german_details, r.german_details),
            credits_match(credits, r.credits),
    {
        MovieSearch {
            details: MovieDetails::from(details),
            german_details: MovieDetails::from(german_details),
            credits: MovieCredits::from(credits),
        }
    }
}

/// What the display layer observes. Display-only resources (map tiles, view
/// memory, input debouncing) live with the display layer itself.
pub struct State {
    pub search_text: String,
    pub movie_searches: Vec<MovieSearch>,
    pub current_movie: Option<MovieDetails>,
    pub show_map: bool,
    pub routes: Vec<Route>,
    pub current_route: Option<Route>,
}

impl State {
    /// The empty starting state.
    pub fn new() -> (s: State)
        ensures
            s.search_text@ == Seq::<char>::empty(),
            s.movie_searches@ == Seq::<MovieSearch>::empty(),
            s.current_movie is None,
            s.show_map == false,
            s.routes@ == Seq::<Route>::empty(),
            s.current_route is None,
    {
        State {
            search_text: String::new(),
            movie_searches: Vec::new(),
            current_movie: None,
            show_map: false,
            routes: Vec::new(),
            current_route: None,
        }
    }
}

/// One mutation of the observed state. The owner of the state applies
/// updates strictly in receipt order; the set of possible mutations is
/// exactly these variants.
#[derive(Debug)]
pub enum StateUpdate {
    /// A finished movie search arrived and is appended to the list.
    MovieSearchAdded(MovieSearch),
    /// A reconstruction run finished: the routes are replaced wholesale and
    /// the first route, if any, becomes current.
    RoutesLoaded(Vec<Route>),
}

/// The update that appends one finished movie search.
pub fn movie_search_mutation(movie_search: MovieSearch) -> (u: StateUpdate)
    ensures
        u == StateUpdate::MovieSearchAdded(movie_search),
{
    StateUpdate::MovieSearchAdded(movie_search)
}

/// The update that replaces the routes after a reconstruction run.
pub fn routes_mutation(routes: Vec<Route>) -> (u: StateUpdate)
    ensures
        u == StateUpdate::RoutesLoaded(routes),
{
    StateUpdate::RoutesLoaded(routes)
}

impl State {
    /// Applies one update. Appending a movie search touches nothing else;
    /// loading routes replaces the route list wholesale and makes the first
    /// route current (none, when the list is empty).
    pub fn apply(&mut self, update: StateUpdate)
        ensures
            final(self).search_text == old(self).search_text,
            final(self).current_movie == old(self).current_movie,
            final(self).show_map == old(self).show_map,
            (update matches StateUpdate::MovieSearchAdded(m) ==> {
                &&& final(self).movie_searches@ == old(self).movie_searches@.push(m)
                &&& final(self).routes == old(self).routes
                &&& final(self).current_route == old(self).current_route
            }),
            (update matches StateUpdate::RoutesLoaded(rs) ==> {
                &&& final(self).movie_searches == old(self).movie_searches
                &&& final(self).routes == rs
                &&& (rs@.len() == 0 ==> final(self).current_route is None)
                &&& (rs@.len() > 0 ==> (final(self).current_route matches Some(cr)
                    && route_view_eq(cr, rs@[0])))
            }),
    {
        match update {
            StateUpdate::MovieSearchAdded(m) => {
                self.movie_searches.push(m);
            },
            StateUpdate::RoutesLoaded(rs) => {
                if rs.len() > 0 {
                    self.current_route = Some(rs[0].clone());
                } else {
                    self.current_route = None;
                }
                self.routes = rs;
            },
        }
    }
}

} // verus!
