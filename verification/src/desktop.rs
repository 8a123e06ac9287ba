//! The desktop environment probe: turns the two session environment
//! variables into a `Desktop (Backend)` label.
//!
//! Neither variable is required to be present: a missing or empty value is
//! replaced by `Unknown`. Some environments spuriously prepend `none+` to
//! the desktop name; exactly one such prefix is stripped.

use vstd::prelude::*;
use crate::text::{opt_view, starts_with, strip_prefix_str};

verus! {

/// The desktop label: the raw value with one leading `none+` stripped,
/// `Unknown` when the variable is missing or the stripped value is empty.
pub open spec fn desktop_label(v: Option<Seq<char>>) -> Seq<char> {
    match v {
        None => "Unknown"@,
        Some(s) => {
            let t = if starts_with(s, "none+"@) {
                s.skip("none+"@.len() as int)
            } else {
                s
            };
            if t.len() == 0 {
                "Unknown"@
            } else {
                t
            }
        },
    }
}

/// The session label: the raw value, `Unknown` when the variable is missing
/// or its value empty.
pub open spec fn session_label(v: Option<Seq<char>>) -> Seq<char> {
    match v {
        None => "Unknown"@,
        Some(s) => if s.len() == 0 {
            "Unknown"@
        } else {
            s
        },
    }
}

/// The composed desktop fact: `Desktop (Backend)`.
pub open spec fn desktop_text(desktop: Option<Seq<char>>, session: Option<Seq<char>>) -> Seq<
    char,
> {
    desktop_label(desktop) + " ("@ + session_label(session) + ")"@
}

/// Composes the desktop fact from the raw values of the current-desktop and
/// session-type environment variables (`None` when a variable is unset).
pub fn get_desktop_info(desktop: Option<&str>, session: Option<&str>) -> (r: String)
    ensures
        r@ == desktop_text(opt_view(desktop), opt_view(session)),
{
    let mut r = match desktop {
        None => "Unknown".to_owned(),
        Some(s) => {
            let t = match strip_prefix_str(s, "none+") {
                Some(t) => t,
                None => s,
            };
            if t.unicode_len() == 0 {
                "Unknown".to_owned()
            } else {
                t.to_owned()
            }
        },
    };
    r.append(" (");
    match session {
        None => r.append("Unknown"),
        Some(s) => if s.unicode_len() == 0 {
            r.append("Unknown")
        } else {
            r.append(s)
        },
    }
    r.append(")");
    r
}

} // verus!
