//! The environment a spawned session shell receives: the inherited variables
//! with a deny-list of keys stripped, standard binary search paths prepended
//! to the search path, and a fixed terminal type appended last (so it wins
//! over any inherited one). The deny-list is policy data handed in by the
//! caller, not wired into the logic.

use vstd::prelude::*;
use vstd::string::*;
use crate::text::{pair_views, str_eq};

verus! {

/// The terminal type a session shell always gets.
pub const FIXED_TERM: &'static str = "xterm-256color";

/// Whether the deny-list holds the key `k`.
pub open spec fn spec_denied(deny: Seq<String>, k: Seq<char>) -> bool {
    exists|i: int| 0 <= i < deny.len() && #[trigger] deny[i]@ == k
}

/// The sanitized environment, before the fixed terminal type: denied keys
/// dropped, the search path prefixed by `extra` and a separator, everything
/// else kept as it came.
pub open spec fn spec_sanitized(
    vars: Seq<(Seq<char>, Seq<char>)>,
    deny: Seq<String>,
    extra: Seq<char>,
) -> Seq<(Seq<char>, Seq<char>)>
    decreases vars.len(),
{
    if vars.len() == 0 {
        Seq::empty()
    } else {
        let rest = spec_sanitized(vars.drop_last(), deny, extra);
        let kv = vars.last();
        if spec_denied(deny, kv.0) {
            rest
        } else if kv.0 == "PATH"@ {
            rest.push((kv.0, extra + ":"@ + kv.1))
        } else {
            rest.push(kv)
        }
    }
}

/// Whether the deny-list holds the key `k`.
fn is_denied(deny: &Vec<String>, k: &str) -> (r: bool)
    ensures
        r == spec_denied(deny@, k@),
{
    let n = deny.len();
    let mut i: usize = 0;
    while i < n
        invariant
            0 <= i <= n,
            n == deny@.len(),
            forall|j: int| 0 <= j < i ==> #[trigger] deny@[j]@ != k@,
        decreases n - i,
    {
        if str_eq(deny[i].as_str(), k) {
            return true;
        }
        i = i + 1;
    }
    false
}

/// Sanitizes the inherited environment for a session shell: keys on the
/// deny-list are dropped, `extra` is prepended to the search path, and the
/// fixed terminal type is appended last, so it overrides an inherited one.
pub fn sanitize_env(
    vars: &Vec<(String, String)>,
    deny: &Vec<String>,
    extra_path: &str,
) -> (r: Vec<(String, String)>)
    ensures
        pair_views(r@) == spec_sanitized(pair_views(vars@), deny@, extra_path@).push(
            ("TERM"@, FIXED_TERM@),
        ),
{
    let n = vars.len();
    let ghost views = pair_views(vars@);
    let mut out: Vec<(String, String)> = Vec::new();
    let mut i: usize = 0;
    proof {
        assert(views.take(0).len() == 0);
        assert(pair_views(out@) =~= spec_sanitized(views.take(0), deny@, extra_path@));
    }
    while i < n
        invariant
            0 <= i <= n,
            n == vars@.len(),
            views == pair_views(vars@),
            views.len() == n,
            pair_views(out@) == spec_sanitized(views.take(i as int), deny@, extra_path@),
        decreases n - i,
    {
        proof {
            let t = views.take(i as int + 1);
            assert(t.drop_last() =~= views.take(i as int));
            assert(t.last() == views[i as int]);
        }
        let kv = &vars[i];
        if is_denied(deny, kv.0.as_str()) {
            proof {
                assert(pair_views(out@) =~= spec_sanitized(
                    views.take(i as int + 1),
                    deny@,
                    extra_path@,
                ));
            }
        } else if str_eq(kv.0.as_str(), "PATH") {
            let mut new_path = extra_path.to_owned();
            new_path.append(":");
            new_path.append(kv.1.as_str());
            out.push((kv.0.clone(), new_path));
            proof {
                assert(pair_views(out@) =~= spec_sanitized(
                    views.take(i as int + 1),
                    deny@,
                    extra_path@,
                ));
            }
        } else {
            out.push((kv.0.clone(), kv.1.clone()));
            proof {
                assert(pair_views(out@) =~= spec_sanitized(
                    views.take(i as int + 1),
                    deny@,
                    extra_path@,
                ));
            }
        }
        i = i + 1;
    }
    proof {
        assert(views.take(n as int) =~= views);
    }
    let term_key = String::from_str("TERM");
    let term_val = String::from_str(FIXED_TERM);
    out.push((term_key, term_val));
    proof {
        assert(pair_views(out@) =~= spec_sanitized(views, deny@, extra_path@).push(
            ("TERM"@, FIXED_TERM@),
        ));
    }
    out
}

} // verus!
