//! The OS release probes: the kernel fact `Family Release (Arch)` and the
//! distribution's pretty name.

use vstd::prelude::*;
use crate::text::{
    chomp_cr, chomp_cr_str, opt_view, split_on, split_str, split_ws_tokens, starts_with,
    strip_prefix_str, trim_end_ws, trim_end_ws_str, trim_quotes, trim_quotes_str, trim_ws,
    trim_ws_str, views_of, ws_tokens,
};

verus! {

/// The kernel family implied by the marker files present: an os-release file
/// means Linux, a BSD marker means BSD, neither means Unknown.
pub open spec fn family_text(os_release_present: bool, bsd_marker_present: bool) -> Seq<char> {
    if os_release_present {
        "Linux"@
    } else if bsd_marker_present {
        "BSD"@
    } else {
        "Unknown"@
    }
}

/// Whether the whitespace-separated CPU feature tokens include the 64-bit
/// long-mode marker `lm`.
pub open spec fn has_long_mode(flags: Seq<char>) -> bool {
    ws_tokens(flags).contains("lm"@)
}

/// The architecture label: the architecture pseudo-file's content trimmed of
/// whitespace when that file is available; otherwise `x86_64` when the CPU
/// feature text carries the long-mode marker, and `unknown` when it does not
/// or no source is available.
pub open spec fn arch_text(arch_file: Option<Seq<char>>, cpu_flags: Option<Seq<char>>) -> Seq<
    char,
> {
    match arch_file {
        Some(a) => trim_ws(a),
        None => match cpu_flags {
            Some(f) => if has_long_mode(f) {
                "x86_64"@
            } else {
                "unknown"@
            },
            None => "unknown"@,
        },
    }
}

/// The composed kernel fact: `Family Release (Arch)`, with the release
/// trimmed of trailing whitespace.
pub open spec fn system_info_text(
    os_release_present: bool,
    bsd_marker_present: bool,
    kernel_release: Seq<char>,
    arch_file: Option<Seq<char>>,
    cpu_flags: Option<Seq<char>>,
) -> Seq<char> {
    family_text(os_release_present, bsd_marker_present) + " "@ + trim_end_ws(kernel_release)
        + " ("@ + arch_text(arch_file, cpu_flags) + ")"@
}

/// Tests the CPU feature text for the long-mode marker.
fn flags_have_long_mode(flags: &str) -> (b: bool)
    ensures
        b == has_long_mode(flags@),
{
    let toks = split_ws_tokens(flags);
    let mut i: usize = 0;
    while i < toks.len()
        invariant
            i <= toks@.len(),
            views_of(toks@) == ws_tokens(flags@),
            forall|j: int| 0 <= j < i ==> views_of(toks@)[j] != "lm"@,
        decreases toks@.len() - i,
    {
        proof {
            assert(views_of(toks@)[i as int] == toks@[i as int]@);
        }
        if crate::text::str_eq(toks[i].as_str(), "lm") {
            return true;
        }
        i = i + 1;
    }
    proof {
        assert(forall|j: int|
            0 <= j < ws_tokens(flags@).len() ==> ws_tokens(flags@)[j] != "lm"@);
    }
    false
}

/// Composes the kernel fact from the presence of the family marker files,
/// the kernel release pseudo-file's content, and the architecture sources
/// (`None` for a source that is unavailable).
pub fn get_system_info(
    os_release_present: bool,
    bsd_marker_present: bool,
    kernel_release: &str,
    arch_file: Option<&str>,
    cpu_flags: Option<&str>,
) -> (r: String)
    ensures
        r@ == system_info_text(
            os_release_present,
            bsd_marker_present,
            kernel_release@,
            opt_view(arch_file),
            opt_view(cpu_flags),
        ),
{
    let mut r = if os_release_present {
        "Linux".to_owned()
    } else if bsd_marker_present {
        "BSD".to_owned()
    } else {
        "Unknown".to_owned()
    };
    r.append(" ");
    r.append(trim_end_ws_str(kernel_release));
    r.append(" (");
    match arch_file {
        Some(a) => r.append(trim_ws_str(a)),
        None => match cpu_flags {
            Some(f) => if flags_have_long_mode(f) {
                r.append("x86_64")
            } else {
                r.append("unknown")
            },
            None => r.append("unknown"),
        },
    }
    r.append(")");
    r
}

/// The value of the first `PRETTY_NAME=` line among `lines`: the rest of
/// that line, less the carriage return a line cut from CRLF text ends in,
/// with surrounding double quotes removed.
pub open spec fn pretty_in_lines(lines: Seq<Seq<char>>) -> Option<Seq<char>>
    decreases lines.len(),
{
    if lines.len() == 0 {
        None
    } else if starts_with(lines.first(), "PRETTY_NAME="@) {
        Some(trim_quotes(chomp_cr(lines.first().skip("PRETTY_NAME="@.len() as int))))
    } else {
        pretty_in_lines(lines.drop_first())
    }
}

/// The parsed pretty name of `content`: `None` when no line starts with the
/// `PRETTY_NAME=` key.
pub open spec fn pretty_name_of(content: Seq<char>) -> Option<Seq<char>> {
    pretty_in_lines(split_on(content, '\n'))
}

/// The pretty-name fact: the parsed value, `Unknown` when the file is
/// missing, unreadable or carries no `PRETTY_NAME=` line.
pub open spec fn pretty_name_text(content: Option<Seq<char>>) -> Seq<char> {
    match content {
        None => "Unknown"@,
        Some(c) => match pretty_name_of(c) {
            Some(v) => v,
            None => "Unknown"@,
        },
    }
}

/// Resolves the pretty-name fact from the OS identification file's content
/// (`None` when the file is missing or unreadable).
pub fn get_os_pretty_name(content: Option<&str>) -> (r: String)
    ensures
        r@ == pretty_name_text(opt_view(content)),
{
    let c = match content {
        None => {
            return "Unknown".to_owned();
        },
        Some(c) => c,
    };
    let lines = split_str(c, '\n');
    let ghost ls = split_on(c@, '\n');
    let mut i: usize = 0;
    proof {
        assert(ls.skip(0) =~= ls);
    }
    while i < lines.len()
        invariant
            i <= lines@.len(),
            views_of(lines@) == ls,
            ls == split_on(c@, '\n'),
            opt_view(content) == Some(c@),
            pretty_in_lines(ls) == pretty_in_lines(ls.skip(i as int)),
        decreases lines@.len() - i,
    {
        proof {
            assert(views_of(lines@)[i as int] == lines@[i as int]@);
            assert(ls.skip(i as int).first() == ls[i as int]);
            assert(ls.skip(i as int).drop_first() =~= ls.skip(i + 1));
        }
        match strip_prefix_str(lines[i].as_str(), "PRETTY_NAME=") {
            Some(rest) => {
                proof {
                    assert(starts_with(ls[i as int], "PRETTY_NAME="@));
                    assert(rest@ == ls[i as int].skip("PRETTY_NAME="@.len() as int));
                    assert(pretty_in_lines(ls.skip(i as int)) == Some(
                        trim_quotes(chomp_cr(rest@)),
                    ));
                }
                return trim_quotes_str(chomp_cr_str(rest)).to_owned();
            },
            None => {
            },
        }
        i = i + 1;
    }
    proof {
        assert(ls.skip(i as int) =~= Seq::<Seq<char>>::empty());
    }
    "Unknown".to_owned()
}

} // verus!
