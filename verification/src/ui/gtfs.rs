//! Records of the static transit feed, and their normalization: stops
//! deduplicated by display name, routes filtered to the operators and
//! rail-class modes of interest and then deduplicated by short name.
//!
//! The deduplication policy is name-based on purpose, even though it can
//! collapse distinct locations that share a display name: the retained
//! record for a name is the first one in feed order, and the output is
//! sorted by name.
//!
//! Coordinates are fixed-point integers in units of 10^-7 degree.

use vstd::prelude::*;
use crate::text::lemma_lex_lt_total;
use crate::text::lemma_lex_lt_trans;
use crate::text::lex_lt;
use crate::text::str_eq;
use crate::text::str_lt;

verus! {

/// Operator code of the urban network whose routes are retained.
pub const VBK_AGENCY_ID: &'static str = "02";

/// Operator code of the regional network whose routes are retained.
pub const ALBTAL_AGENCY_ID: &'static str = "01";

/// Mode codes strictly below this value are rail-class (tram, metro, rail).
pub const RAIL_CLASS_LIMIT: u8 = 3;

/// A visit of one trip at one stop. Schedule order is not consumed.
#[derive(Debug)]
pub struct StopTime {
    pub trip_id: String,
    pub stop_id: String,
}

/// A raw feed route: identifier, operator, short display name, mode code.
#[derive(Debug)]
pub struct Route {
    pub route_id: String,
    pub agency_id: String,
    pub route_short_name: String,
    pub route_type: u8,
}

/// A trip of a route; used only as a join key.
#[derive(Debug)]
pub struct Trip {
    pub trip_id: String,
    pub route_id: String,
}

/// A physical transit location, with fixed-point coordinates.
#[derive(Debug)]
pub struct Stop {
    pub stop_id: String,
    pub stop_name: String,
    pub stop_lat: i64,
    pub stop_lon: i64,
}

/// One feed snapshot: the four flat tables.
#[derive(Debug)]
pub struct TransitData {
    pub stops: Vec<Stop>,
    pub trips: Vec<Trip>,
    pub routes: Vec<Route>,
    pub stop_times: Vec<StopTime>,
}

impl Clone for Stop {
    fn clone(&self) -> (res: Self)
        ensures
            res == self,
    {
        Stop {
            stop_id: self.stop_id.clone(),
            stop_name: self.stop_name.clone(),
            stop_lat: self.stop_lat,
            stop_lon: self.stop_lon,
        }
    }
}

impl Clone for Route {
    fn clone(&self) -> (res: Self)
        ensures
            res == self,
    {
        Route {
            route_id: self.route_id.clone(),
            agency_id: self.agency_id.clone(),
            route_short_name: self.route_short_name.clone(),
            route_type: self.route_type,
        }
    }
}

impl Clone for Trip {
    fn clone(&self) -> (res: Self)
        ensures
            res == self,
    {
        Trip { trip_id: self.trip_id.clone(), route_id: self.route_id.clone() }
    }
}

impl Clone for StopTime {
    fn clone(&self) -> (res: Self)
        ensures
            res == self,
    {
        StopTime { trip_id: self.trip_id.clone(), stop_id: self.stop_id.clone() }
    }
}

/// No two stops of the sequence share a display name.
pub open spec fn stop_names_distinct(stops: Seq<Stop>) -> bool {
    forall|i: int, j: int|
        0 <= i < j < stops.len() ==> (#[trigger] stops[i]).stop_name@ != (
        #[trigger] stops[j]).stop_name@
}

/// The sequence is strictly sorted by display name.
pub open spec fn stops_sorted_by_name(stops: Seq<Stop>) -> bool {
    forall|i: int, j: int|
        0 <= i < j < stops.len() ==> lex_lt(
            (#[trigger] stops[i]).stop_name@,
            (#[trigger] stops[j]).stop_name@,
        )
}

/// `x` stands in `stops`, before any other stop of the same name.
pub open spec fn stop_is_first_with_name(stops: Seq<Stop>, x: Stop) -> bool {
    exists|i: int|
        {
            &&& 0 <= i < stops.len()
            &&& stops[i] == x
            &&& forall|j: int| 0 <= j < i ==> (#[trigger] stops[j]).stop_name@ != x.stop_name@
        }
}

/// Some stop of the sequence carries this name.
pub open spec fn seq_has_stop_name(stops: Seq<Stop>, name: Seq<char>) -> bool {
    exists|k: int| 0 <= k < stops.len() && (#[trigger] stops[k]).stop_name@ == name
}

/// Whether any stop of `v` carries the name.
fn contains_stop_name(v: &Vec<Stop>, name: &str) -> (r: bool)
    ensures
        r == seq_has_stop_name(v@, name@),
{
    let mut k: usize = 0;
    while k < v.len()
        invariant
            k <= v@.len(),
            forall|j: int| 0 <= j < k ==> (#[trigger] v@[j]).stop_name@ != name@,
        decreases v@.len() - k,
    {
        if str_eq(v[k].stop_name.as_str(), name) {
            return true;
        }
        k = k + 1;
    }
    false
}

/// The position before the first entry whose name is not below `name`.
fn stop_insert_pos(out: &Vec<Stop>, name: &str) -> (pos: usize)
    ensures
        pos <= out@.len(),
        forall|k: int| 0 <= k < pos ==> lex_lt((#[trigger] out@[k]).stop_name@, name@),
        pos < out@.len() ==> !lex_lt(out@[pos as int].stop_name@, name@),
{
    let mut pos: usize = 0;
    while pos < out.len()
        invariant
            pos <= out@.len(),
            forall|k: int| 0 <= k < pos ==> lex_lt((#[trigger] out@[k]).stop_name@, name@),
        decreases out@.len() - pos,
    {
        if !str_lt(out[pos].stop_name.as_str(), name) {
            return pos;
        }
        pos = pos + 1;
    }
    pos
}

/// Sorts stops with pairwise-distinct names by name.
#[verifier::loop_isolation(false)]
fn sort_stops_by_name(v: Vec<Stop>) -> (r: Vec<Stop>)
    requires
        stop_names_distinct(v@),
    ensures
        stops_sorted_by_name(r@),
        r@.len() == v@.len(),
        forall|x: Stop| r@.contains(x) <==> v@.contains(x),
{
    let mut out: Vec<Stop> = Vec::new();
    let mut idx: usize = 0;
    while idx < v.len()
        invariant
            idx <= v@.len(),
            out@.len() == idx,
            stops_sorted_by_name(out@),
            forall|x: Stop| #[trigger] out@.contains(x) ==> v@.take(idx as int).contains(x),
            forall|x: Stop| #[trigger] v@.take(idx as int).contains(x) ==> out@.contains(x),
        decreases v@.len() - idx,
    {
        let s = v[idx].clone();
        let pos = stop_insert_pos(&out, s.stop_name.as_str());
        let ghost old_out = out@;
        proof {
            let n = old_out.len() as int;
            // every name already placed differs from the new one
            assert forall|k: int| 0 <= k < n implies (#[trigger] old_out[k]).stop_name@
                != s.stop_name@ by {
                assert(old_out.contains(old_out[k]));
                let j = choose|j: int|
                    0 <= j < v@.take(idx as int).len() && v@.take(idx as int)[j] == old_out[k];
                assert(v@[j] == old_out[k]);
            }
            // the new name is strictly below everything at or after `pos`
            assert forall|k: int| pos <= k < n implies lex_lt(
                s.stop_name@,
                (#[trigger] old_out[k]).stop_name@,
            ) by {
                lemma_lex_lt_total(s.stop_name@, old_out[pos as int].stop_name@);
                if k > pos {
                    lemma_lex_lt_trans(
                        s.stop_name@,
                        old_out[pos as int].stop_name@,
                        old_out[k].stop_name@,
                    );
                }
            }
        }
        out.insert(pos, s);
        proof {
            let n = old_out.len() as int;
            old_out.insert_ensures(pos as int, s);
            assert forall|i: int, j: int| 0 <= i < j < out@.len() implies lex_lt(
                (#[trigger] out@[i]).stop_name@,
                (#[trigger] out@[j]).stop_name@,
            ) by {
                if j < pos {
                } else if j == pos {
                    assert(out@[i] == old_out[i]);
                } else if i < pos {
                    assert(out@[j] == old_out[j - 1]);
                } else if i == pos {
                    assert(out@[j] == old_out[j - 1]);
                } else {
                    assert(out@[i] == old_out[i - 1]);
                    assert(out@[j] == old_out[j - 1]);
                }
            }
            assert forall|x: Stop| #[trigger] out@.contains(x) implies v@.take(
                idx as int + 1,
            ).contains(x) by {
                let i = choose|i: int| 0 <= i < out@.len() && out@[i] == x;
                if i < pos {
                    assert(old_out[i] == x);
                    assert(old_out.contains(x));
                    let j = choose|j: int|
                        0 <= j < v@.take(idx as int).len() && v@.take(idx as int)[j] == x;
                    assert(v@.take(idx as int + 1)[j] == x);
                } else if i == pos {
                    assert(v@.take(idx as int + 1)[idx as int] == x);
                } else {
                    assert(old_out[i - 1] == x);
                    assert(old_out.contains(x));
                    let j = choose|j: int|
                        0 <= j < v@.take(idx as int).len() && v@.take(idx as int)[j] == x;
                    assert(v@.take(idx as int + 1)[j] == x);
                }
            }
            assert forall|x: Stop| v@.take(idx as int + 1).contains(x) implies out@.contains(
                x,
            ) by {
                let j = choose|j: int|
                    0 <= j < v@.take(idx as int + 1).len() && (#[trigger] v@.take(
                        idx as int + 1,
                    )[j]) == x;
                if j < idx {
                    assert(v@.take(idx as int)[j] == x);
                    assert(v@.take(idx as int).contains(x));
                    assert(old_out.contains(x));
                    let i = choose|i: int| 0 <= i < old_out.len() && (#[trigger] old_out[i]) == x;
                    if i < pos {
                        assert(out@[i] == x);
                    } else {
                        assert(out@[i + 1] == x);
                    }
                } else {
                    assert(x == s);
                    assert(out@[pos as int] == x);
                }
            }
        }
        idx = idx + 1;
    }
    proof {
        assert(v@.take(v@.len() as int) =~= v@);
    }
    out
}

/// Keeps, for each display name, the first stop of the feed carrying it,
/// and returns the retained stops sorted by name.
///
/// No two retained stops share a name; every input name is still
/// represented; an empty input yields an empty output.
#[verifier::loop_isolation(false)]
pub fn normalize_stops(stops: Vec<Stop>) -> (r: Vec<Stop>)
    ensures
        stops_sorted_by_name(r@),
        stop_names_distinct(r@),
        forall|k: int| 0 <= k < r@.len() ==> stop_is_first_with_name(stops@, #[trigger] r@[k]),
        forall|i: int|
            0 <= i < stops@.len() ==> seq_has_stop_name(r@, (#[trigger] stops@[i]).stop_name@),
{
    let mut kept: Vec<Stop> = Vec::new();
    let mut i: usize = 0;
    while i < stops.len()
        invariant
            i <= stops@.len(),
            stop_names_distinct(kept@),
            forall|k: int| 0 <= k < kept@.len() ==> stop_is_first_with_name(stops@, #[trigger] kept@[k]),
            forall|j: int|
                0 <= j < i ==> seq_has_stop_name(kept@, (#[trigger] stops@[j]).stop_name@),
        decreases stops@.len() - i,
    {
        if !contains_stop_name(&kept, stops[i].stop_name.as_str()) {
            let s = stops[i].clone();
            let ghost old_kept = kept@;
            kept.push(s);
            proof {
                // `stops[i]` is the first stop of its name
                assert forall|j: int| 0 <= j < i implies (#[trigger] stops@[j]).stop_name@
                    != s.stop_name@ by {
                    if stops@[j].stop_name@ == s.stop_name@ {
                        assert(seq_has_stop_name(old_kept, stops@[j].stop_name@));
                    }
                }
                assert(kept@[old_kept.len() as int] == s);
                assert(stop_is_first_with_name(stops@, s));
                assert forall|j: int| 0 <= j < i + 1 implies seq_has_stop_name(
                    kept@,
                    (#[trigger] stops@[j]).stop_name@,
                ) by {
                    if j < i {
                        let k = choose|k: int|
                            0 <= k < old_kept.len() && (#[trigger] old_kept[k]).stop_name@
                                == stops@[j].stop_name@;
                        assert(kept@[k].stop_name@ == stops@[j].stop_name@);
                    } else {
                        assert(kept@[old_kept.len() as int].stop_name@ == stops@[j].stop_name@);
                    }
                }
            }
        }
        i = i + 1;
    }
    let r = sort_stops_by_name(kept);
    proof {
        assert forall|i: int, j: int| 0 <= i < j < r@.len() implies (#[trigger] r@[i]).stop_name@
            != (#[trigger] r@[j]).stop_name@ by {
            crate::text::lemma_lex_lt_ne(r@[i].stop_name@, r@[j].stop_name@);
        }
        assert forall|k: int| 0 <= k < r@.len() implies stop_is_first_with_name(
            stops@,
            #[trigger] r@[k],
        ) by {
            assert(r@.contains(r@[k]));
        }
        assert forall|j: int| 0 <= j < stops@.len() implies seq_has_stop_name(
            r@,
            (#[trigger] stops@[j]).stop_name@,
        ) by {
            let k = choose|k: int|
                0 <= k < kept@.len() && (#[trigger] kept@[k]).stop_name@ == stops@[j].stop_name@;
            assert(kept@.contains(kept@[k]));
            assert(r@.contains(kept@[k]));
            let m = choose|m: int| 0 <= m < r@.len() && r@[m] == kept@[k];
            assert(r@[m].stop_name@ == stops@[j].stop_name@);
        }
    }
    r
}

/// Whether a raw route is of interest: run by one of the two retained
/// operators, and of a rail-class mode.
pub open spec fn route_allowed(r: Route) -> bool {
    (r.agency_id@ == VBK_AGENCY_ID@ || r.agency_id@ == ALBTAL_AGENCY_ID@) && r.route_type
        < RAIL_CLASS_LIMIT
}

/// Whether a raw route is of interest.
pub fn is_route_allowed(r: &Route) -> (b: bool)
    ensures
        b == route_allowed(*r),
{
    (str_eq(r.agency_id.as_str(), VBK_AGENCY_ID) || str_eq(r.agency_id.as_str(), ALBTAL_AGENCY_ID))
        && r.route_type < RAIL_CLASS_LIMIT
}

/// No two routes of the sequence share a short name.
pub open spec fn route_names_distinct(routes: Seq<Route>) -> bool {
    forall|i: int, j: int|
        0 <= i < j < routes.len() ==> (#[trigger] routes[i]).route_short_name@ != (
        #[trigger] routes[j]).route_short_name@
}

/// The sequence is strictly sorted by short name.
pub open spec fn routes_sorted_by_name(routes: Seq<Route>) -> bool {
    forall|i: int, j: int|
        0 <= i < j < routes.len() ==> lex_lt(
            (#[trigger] routes[i]).route_short_name@,
            (#[trigger] routes[j]).route_short_name@,
        )
}

/// `x` stands in `routes`, before any other allowed route of its short name.
pub open spec fn route_is_first_allowed_with_name(routes: Seq<Route>, x: Route) -> bool {
    exists|i: int|
        {
            &&& 0 <= i < routes.len()
            &&& routes[i] == x
            &&& forall|j: int|
                0 <= j < i ==> route_allowed(#[trigger] routes[j]) ==> routes[j].route_short_name@
                    != x.route_short_name@
        }
}

/// Some route of the sequence carries this short name.
pub open spec fn seq_has_route_name(routes: Seq<Route>, name: Seq<char>) -> bool {
    exists|k: int| 0 <= k < routes.len() && (#[trigger] routes[k]).route_short_name@ == name
}

/// Whether any route of `v` carries the short name.
fn contains_route_name(v: &Vec<Route>, name: &str) -> (r: bool)
    ensures
        r == seq_has_route_name(v@, name@),
{
    let mut k: usize = 0;
    while k < v.len()
        invariant
            k <= v@.len(),
            forall|j: int| 0 <= j < k ==> (#[trigger] v@[j]).route_short_name@ != name@,
        decreases v@.len() - k,
    {
        if str_eq(v[k].route_short_name.as_str(), name) {
            return true;
        }
        k = k + 1;
    }
    false
}

/// The position before the first entry whose short name is not below `name`.
fn route_insert_pos(out: &Vec<Route>, name: &str) -> (pos: usize)
    ensures
        pos <= out@.len(),
        forall|k: int| 0 <= k < pos ==> lex_lt((#[trigger] out@[k]).route_short_name@, name@),
        pos < out@.len() ==> !lex_lt(out@[pos as int].route_short_name@, name@),
{
    let mut pos: usize = 0;
    while pos < out.len()
        invariant
            pos <= out@.len(),
            forall|k: int| 0 <= k < pos ==> lex_lt((#[trigger] out@[k]).route_short_name@, name@),
        decreases out@.len() - pos,
    {
        if !str_lt(out[pos].route_short_name.as_str(), name) {
            return pos;
        }
        pos = pos + 1;
    }
    pos
}

/// Sorts routes with pairwise-distinct short names by short name.
#[verifier::loop_isolation(false)]
fn sort_routes_by_name(v: Vec<Route>) -> (r: Vec<Route>)
    requires
        route_names_distinct(v@),
    ensures
        routes_sorted_by_name(r@),
        r@.len() == v@.len(),
        forall|x: Route| r@.contains(x) <==> v@.contains(x),
{
    let mut out: Vec<Route> = Vec::new();
    let mut idx: usize = 0;
    while idx < v.len()
        invariant
            idx <= v@.len(),
            out@.len() == idx,
            routes_sorted_by_name(out@),
            forall|x: Route| #[trigger] out@.contains(x) ==> v@.take(idx as int).contains(x),
            forall|x: Route| #[trigger] v@.take(idx as int).contains(x) ==> out@.contains(x),
        decreases v@.len() - idx,
    {
        let s = v[idx].clone();
        let pos = route_insert_pos(&out, s.route_short_name.as_str());
        let ghost old_out = out@;
        proof {
            let n = old_out.len() as int;
            // every short name already placed differs from the new one
            assert forall|k: int| 0 <= k < n implies (#[trigger] old_out[k]).route_short_name@
                != s.route_short_name@ by {
                assert(old_out.contains(old_out[k]));
                let j = choose|j: int|
                    0 <= j < v@.take(idx as int).len() && v@.take(idx as int)[j] == old_out[k];
                assert(v@[j] == old_out[k]);
            }
            // the new short name is strictly below everything at or after `pos`
            assert forall|k: int| pos <= k < n implies lex_lt(
                s.route_short_name@,
                (#[trigger] old_out[k]).route_short_name@,
            ) by {
                lemma_lex_lt_total(s.route_short_name@, old_out[pos as int].route_short_name@);
                if k > pos {
                    lemma_lex_lt_trans(
                        s.route_short_name@,
                        old_out[pos as int].route_short_name@,
                        old_out[k].route_short_name@,
                    );
                }
            }
        }
        out.insert(pos, s);
        proof {
            let n = old_out.len() as int;
            old_out.insert_ensures(pos as int, s);
            assert forall|i: int, j: int| 0 <= i < j < out@.len() implies lex_lt(
                (#[trigger] out@[i]).route_short_name@,
                (#[trigger] out@[j]).route_short_name@,
            ) by {
                if j < pos {
                } else if j == pos {
                    assert(out@[i] == old_out[i]);
                } else if i < pos {
                    assert(out@[j] == old_out[j - 1]);
                } else if i == pos {
                    assert(out@[j] == old_out[j - 1]);
                } else {
                    assert(out@[i] == old_out[i - 1]);
                    assert(out@[j] == old_out[j - 1]);
                }
            }
            assert forall|x: Route| #[trigger] out@.contains(x) implies v@.take(
                idx as int + 1,
            ).contains(x) by {
                let i = choose|i: int| 0 <= i < out@.len() && out@[i] == x;
                if i < pos {
                    assert(old_out[i] == x);
                    assert(old_out.contains(x));
                    let j = choose|j: int|
                        0 <= j < v@.take(idx as int).len() && v@.take(idx as int)[j] == x;
                    assert(v@.take(idx as int + 1)[j] == x);
                } else if i == pos {
                    assert(v@.take(idx as int + 1)[idx as int] == x);
                } else {
                    assert(old_out[i - 1] == x);
                    assert(old_out.contains(x));
                    let j = choose|j: int|
                        0 <= j < v@.take(idx as int).len() && v@.take(idx as int)[j] == x;
                    assert(v@.take(idx as int + 1)[j] == x);
                }
            }
            assert forall|x: Route| v@.take(idx as int + 1).contains(x) implies out@.contains(
                x,
            ) by {
                let j = choose|j: int|
                    0 <= j < v@.take(idx as int + 1).len() && (#[trigger] v@.take(
                        idx as int + 1,
                    )[j]) == x;
                if j < idx {
                    assert(v@.take(idx as int)[j] == x);
                    assert(v@.take(idx as int).contains(x));
                    assert(old_out.contains(x));
                    let i = choose|i: int| 0 <= i < old_out.len() && (#[trigger] old_out[i]) == x;
                    if i < pos {
                        assert(out@[i] == x);
                    } else {
                        assert(out@[i + 1] == x);
                    }
                } else {
                    assert(x == s);
                    assert(out@[pos as int] == x);
                }
            }
        }
        idx = idx + 1;
    }
    proof {
        assert(v@.take(v@.len() as int) =~= v@);
    }
    out
}

/// Keeps, for each short name, the first allowed route of the feed carrying
/// it, and returns the retained routes sorted by short name.
///
/// Every retained route is run by a retained operator and is of a rail-class
/// mode; no two retained routes share a short name; every allowed input
/// short name is still represented; an empty result is valid.
#[verifier::loop_isolation(false)]
pub fn normalize_routes(routes: Vec<Route>) -> (r: Vec<Route>)
    ensures
        routes_sorted_by_name(r@),
        route_names_distinct(r@),
        forall|k: int| 0 <= k < r@.len() ==> route_allowed(#[trigger] r@[k]),
        forall|k: int|
            0 <= k < r@.len() ==> route_is_first_allowed_with_name(routes@, #[trigger] r@[k]),
        forall|i: int|
            0 <= i < routes@.len() && route_allowed(#[trigger] routes@[i]) ==> seq_has_route_name(
                r@,
                routes@[i].route_short_name@,
            ),
{
    let mut kept: Vec<Route> = Vec::new();
    let mut i: usize = 0;
    while i < routes.len()
        invariant
            i <= routes@.len(),
            route_names_distinct(kept@),
            forall|k: int| 0 <= k < kept@.len() ==> route_allowed(#[trigger] kept@[k]),
            forall|k: int|
                0 <= k < kept@.len() ==> route_is_first_allowed_with_name(
                    routes@,
                    #[trigger] kept@[k],
                ),
            forall|j: int|
                0 <= j < i && route_allowed(#[trigger] routes@[j]) ==> seq_has_route_name(
                    kept@,
                    routes@[j].route_short_name@,
                ),
        decreases routes@.len() - i,
    {
        if is_route_allowed(&routes[i]) && !contains_route_name(
            &kept,
            routes[i].route_short_name.as_str(),
        ) {
            let s = routes[i].clone();
            let ghost old_kept = kept@;
            kept.push(s);
            proof {
                // `routes[i]` is the first allowed route of its short name
                assert forall|j: int|
                    0 <= j < i && route_allowed(#[trigger] routes@[j]) implies routes@[j].route_short_name@
                    != s.route_short_name@ by {
                    if routes@[j].route_short_name@ == s.route_short_name@ {
                        assert(seq_has_route_name(old_kept, routes@[j].route_short_name@));
                    }
                }
                assert(kept@[old_kept.len() as int] == s);
                assert(route_is_first_allowed_with_name(routes@, s));
                assert forall|j: int|
                    0 <= j < i + 1 && route_allowed(#[trigger] routes@[j]) implies seq_has_route_name(
                    kept@,
                    routes@[j].route_short_name@,
                ) by {
                    if j < i {
                        let k = choose|k: int|
                            0 <= k < old_kept.len() && (#[trigger] old_kept[k]).route_short_name@
                                == routes@[j].route_short_name@;
                        assert(kept@[k].route_short_name@ == routes@[j].route_short_name@);
                    } else {
                        assert(kept@[old_kept.len() as int].route_short_name@
                            == routes@[j].route_short_name@);
                    }
                }
            }
        }
        i = i + 1;
    }
    let r = sort_routes_by_name(kept);
    proof {
        assert forall|i: int, j: int|
            0 <= i < j < r@.len() implies (#[trigger] r@[i]).route_short_name@ != (
        #[trigger] r@[j]).route_short_name@ by {
            crate::text::lemma_lex_lt_ne(r@[i].route_short_name@, r@[j].route_short_name@);
        }
        assert forall|k: int| 0 <= k < r@.len() implies route_allowed(#[trigger] r@[k])
            && route_is_first_allowed_with_name(routes@, r@[k]) by {
            assert(r@.contains(r@[k]));
        }
        assert forall|j: int|
            0 <= j < routes@.len() && route_allowed(#[trigger] routes@[j]) implies seq_has_route_name(
            r@,
            routes@[j].route_short_name@,
        ) by {
            let k = choose|k: int|
                0 <= k < kept@.len() && (#[trigger] kept@[k]).route_short_name@
                    == routes@[j].route_short_name@;
            assert(kept@.contains(kept@[k]));
            assert(r@.contains(kept@[k]));
            let m = choose|m: int| 0 <= m < r@.len() && (#[trigger] r@[m]) == kept@[k];
            assert(r@[m].route_short_name@ == routes@[j].route_short_name@);
        }
    }
    r
}

} // verus!
