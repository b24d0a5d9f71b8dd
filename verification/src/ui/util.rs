//! Small display helpers for movie metadata.

use vstd::prelude::*;
use vstd::string::StringExecFns;
use crate::text::spec_dec;
use crate::text::u64_to_string;

verus! {

/// The rendering of a runtime in minutes as "XhYm", or "Ym" below one hour.
pub open spec fn spec_humanize(runtime: u64) -> Seq<char> {
    if runtime / 60 == 0 {
        spec_dec((runtime % 60) as nat) + "m"@
    } else {
        spec_dec((runtime / 60) as nat) + "h"@ + spec_dec((runtime % 60) as nat) + "m"@
    }
}

/// Renders a runtime in minutes as hours and minutes.
pub fn humanize_runtime(runtime: u64) -> (r: String)
    ensures
        r@ == spec_humanize(runtime),
{
    let hours = runtime / 60;
    let minutes = runtime % 60;

    if hours == 0 {
        let mut s = u64_to_string(minutes);
        s.append("m");
        s
    } else {
        let mut s = u64_to_string(hours);
        s.append("h");
        let minutes_str = u64_to_string(minutes);
        s.append(minutes_str.as_str());
        s.append("m");
        proof {
            assert(s@ =~= spec_humanize(runtime));
        }
        s
    }
}

/// The poster address for a poster path, or the placeholder image when the
/// service reported none.
pub open spec fn spec_poster_url(poster_path: Option<Seq<char>>) -> Seq<char> {
    match poster_path {
        Some(p) => "https://image.tmdb.org/t/p/w600_and_h900_bestv2"@ + p,
        None => "https://www.themoviedb.org/assets/2/v4/glyphicons/basic/glyphicons-basic-38-picture-grey-c2ebdbb057f2a7614185931650f8cee23fa137b93812ccb132b9df511df1cfac.svg"@,
    }
}

/// Builds the poster address for a poster path.
pub fn build_poster_url(poster_path: Option<String>) -> (r: String)
    ensures
        r@ == spec_poster_url(poster_path.deep_view()),
{
    match poster_path {
        Some(p) => {
            let mut s = "https://image.tmdb.org/t/p/w600_and_h900_bestv2".to_owned();
            s.append(p.as_str());
            s
        },
        None => {
            "https://www.themoviedb.org/assets/2/v4/glyphicons/basic/glyphicons-basic-38-picture-grey-c2ebdbb057f2a7614185931650f8cee23fa137b93812ccb132b9df511df1cfac.svg".to_owned()
        },
    }
}

} // verus!
