//! The identity, shell, memory and disk probes.
//!
//! The memory probe parses a meminfo text of `KEY: VALUE unit` lines; the
//! disk probe works from the root filesystem's block statistics. Both render
//! a used/total measurement in gibibytes with a rounded percentage, and both
//! treat a zero total as an error rather than divide by it.

use vstd::prelude::*;
use vstd::arithmetic::mul::lemma_mul_inequality;
use crate::error::{ErrorKind, ProbeError};
use crate::numfmt::{
    gib_hundredths, gib_hundredths_of_bytes, gib_hundredths_of_kb, pct_rounded, percentage,
    usage_text, UsageStats,
};
use crate::text::{
    after_last, after_last_str, digits_value, is_u64_digits, opt_view, split_on, split_str,
    split_ws_tokens, str_eq, trim_end_colons, trim_end_colons_str, views_of, ws_tokens,
};

verus! {

/// The identity fact: `user@host`, with `unknown_user` standing in when the
/// user variable is missing or empty.
pub open spec fn identity_text(user: Option<Seq<char>>, host: Seq<char>) -> Seq<char> {
    let u = match user {
        None => "unknown_user"@,
        Some(s) => if s.len() == 0 {
            "unknown_user"@
        } else {
            s
        },
    };
    u + "@"@ + host
}

/// Composes the identity fact from the raw value of the user environment
/// variable (`None` when unset) and the machine's host name.
pub fn get_username_and_hostname(user: Option<&str>, hostname: &str) -> (r: String)
    ensures
        r@ == identity_text(opt_view(user), hostname@),
{
    let mut r = match user {
        None => "unknown_user".to_owned(),
        Some(s) => if s.unicode_len() == 0 {
            "unknown_user".to_owned()
        } else {
            s.to_owned()
        },
    };
    r.append("@");
    r.append(hostname);
    r
}

/// The shell fact: what stands after the last `/` of the shell path, the
/// whole value when it has no `/`, and `unknown_shell` when the variable is
/// unset.
pub open spec fn shell_text(shell: Option<Seq<char>>) -> Seq<char> {
    match shell {
        None => "unknown_shell"@,
        Some(s) => after_last(s, '/'),
    }
}

/// Resolves the shell fact from the raw value of the shell environment
/// variable (`None` when unset).
pub fn get_shell(shell: Option<&str>) -> (r: String)
    ensures
        r@ == shell_text(opt_view(shell)),
{
    match shell {
        None => "unknown_shell".to_owned(),
        Some(s) => after_last_str(s, '/').to_owned(),
    }
}

/// The entry a meminfo line contributes for `key`: on a line of at least
/// three whitespace-separated fields whose first field, trailing colons
/// removed, is `key`, the second field read as a decimal number — `Some(None)`
/// when that field is not a decimal number fitting a `u64`. A line that does
/// not carry `key` contributes nothing (`None`).
pub open spec fn line_entry(line: Seq<char>, key: Seq<char>) -> Option<Option<int>> {
    let toks = ws_tokens(line);
    if toks.len() >= 3 && trim_end_colons(toks[0]) == key {
        if is_u64_digits(toks[1]) {
            Some(Some(digits_value(toks[1])))
        } else {
            Some(None)
        }
    } else {
        None
    }
}

/// The entry the lines carry for `key`; when several lines carry the key,
/// the last one governs, whether or not its value is well-formed.
pub open spec fn lookup_in_lines(lines: Seq<Seq<char>>, key: Seq<char>) -> Option<Option<int>>
    decreases lines.len(),
{
    if lines.len() == 0 {
        None
    } else {
        match line_entry(lines.last(), key) {
            Some(v) => Some(v),
            None => lookup_in_lines(lines.drop_last(), key),
        }
    }
}

/// The value the meminfo text associates with `key`: `None` when no line
/// carries the key, and also when the governing line's value field is not a
/// decimal number fitting a `u64`.
pub open spec fn meminfo_value(content: Seq<char>, key: Seq<char>) -> Option<int> {
    match lookup_in_lines(split_on(content, '\n'), key) {
        Some(Some(v)) => Some(v),
        _ => None,
    }
}

/// Reads the entry one line contributes for `key`.
fn line_entry_exec(line: &str, key: &str) -> (r: Option<Option<u64>>)
    ensures
        match r {
            Some(Some(n)) => line_entry(line@, key@) == Some(Some(n as int)),
            Some(None) => line_entry(line@, key@) == Some(Option::<int>::None),
            None => line_entry(line@, key@) is None,
        },
{
    let toks = split_ws_tokens(line);
    if toks.len() >= 3 {
        proof {
            assert(views_of(toks@)[0] == toks@[0]@);
            assert(views_of(toks@)[1] == toks@[1]@);
        }
        let k = trim_end_colons_str(toks[0].as_str());
        if str_eq(k, key) {
            return Some(crate::text::parse_u64_digits(toks[1].as_str()));
        }
    }
    None
}

/// Looks `key` up across the lines; the last line carrying it governs.
fn meminfo_lookup(lines: &Vec<String>, key: &str) -> (r: Option<Option<u64>>)
    ensures
        match r {
            Some(Some(n)) => lookup_in_lines(views_of(lines@), key@) == Some(Some(n as int)),
            Some(None) => lookup_in_lines(views_of(lines@), key@) == Some(Option::<int>::None),
            None => lookup_in_lines(views_of(lines@), key@) is None,
        },
{
    let ghost ls = views_of(lines@);
    let mut acc: Option<Option<u64>> = None;
    let mut i: usize = 0;
    proof {
        assert(ls.take(0) =~= Seq::<Seq<char>>::empty());
    }
    while i < lines.len()
        invariant
            i <= lines@.len(),
            ls == views_of(lines@),
            match acc {
                Some(Some(n)) => lookup_in_lines(ls.take(i as int), key@) == Some(Some(n as int)),
                Some(None) => lookup_in_lines(ls.take(i as int), key@) == Some(Option::<int>::None),
                None => lookup_in_lines(ls.take(i as int), key@) is None,
            },
        decreases lines@.len() - i,
    {
        proof {
            assert(views_of(lines@)[i as int] == lines@[i as int]@);
            assert(ls.take(i + 1).drop_last() =~= ls.take(i as int));
            assert(ls.take(i + 1).last() == ls[i as int]);
        }
        match line_entry_exec(lines[i].as_str(), key) {
            Some(v) => {
                acc = Some(v);
            },
            None => {
            },
        }
        i = i + 1;
    }
    proof {
        assert(ls.take(lines@.len() as int) =~= ls);
    }
    acc
}

/// The used and total memory in kilobytes that the meminfo text yields: the
/// `MemTotal` and `MemAvailable` values, used being total less available.
/// Nothing is yielded when either key is missing or its governing value is
/// malformed, the total is zero, or the available exceeds the total.
pub open spec fn memory_stats_of(content: Seq<char>) -> Option<(int, int)> {
    match (meminfo_value(content, "MemTotal"@), meminfo_value(content, "MemAvailable"@)) {
        (Some(t), Some(a)) => if 0 < t && a <= t {
            Some(((t - a), t))
        } else {
            None
        },
        _ => None,
    }
}

/// The rendered memory fact, when the meminfo text yields one.
pub open spec fn memory_text(content: Seq<char>) -> Option<Seq<char>> {
    match memory_stats_of(content) {
        Some(s) => Some(
            usage_text(
                gib_hundredths(s.0 * 1024) as nat,
                gib_hundredths(s.1 * 1024) as nat,
                pct_rounded(s.0, s.1) as nat,
            ),
        ),
        None => None,
    }
}

/// The memory probe's measurement: used and total memory in hundredths of a
/// gibibyte and the used share as a rounded percentage, from a meminfo text
/// of `KEY: VALUE unit` lines. A missing key, a governing value that is not
/// a decimal number fitting a `u64`, a zero total and an available amount
/// above the total are all parse failures.
pub fn memory_usage_stats(meminfo: &str) -> (r: Result<UsageStats, ProbeError>)
    ensures
        match memory_stats_of(meminfo@) {
            Some(s) => r is Ok && r->Ok_0.used_hundredths == gib_hundredths(s.0 * 1024)
                && r->Ok_0.total_hundredths == gib_hundredths(s.1 * 1024) && r->Ok_0.pct
                == pct_rounded(s.0, s.1),
            None => r is Err && r->Err_0.kind == ErrorKind::ParseFailure && r->Err_0.probe@
                == "memory"@,
        },
{
    let lines = split_str(meminfo, '\n');
    let total = meminfo_lookup(&lines, "MemTotal");
    let avail = meminfo_lookup(&lines, "MemAvailable");
    match (total, avail) {
        (Some(Some(t)), Some(Some(a))) => {
            if 0 < t && a <= t {
                let used = t - a;
                Ok(
                    UsageStats {
                        used_hundredths: gib_hundredths_of_kb(used),
                        total_hundredths: gib_hundredths_of_kb(t),
                        pct: percentage(used, t),
                    },
                )
            } else {
                Err(ProbeError::new("memory", ErrorKind::ParseFailure))
            }
        },
        _ => Err(ProbeError::new("memory", ErrorKind::ParseFailure)),
    }
}

/// Renders the memory fact from the meminfo text.
pub fn get_memory_usage(meminfo: &str) -> (r: Result<String, ProbeError>)
    ensures
        match memory_text(meminfo@) {
            Some(t) => r is Ok && r->Ok_0@ == t,
            None => r is Err && r->Err_0.kind == ErrorKind::ParseFailure && r->Err_0.probe@
                == "memory"@,
        },
{
    match memory_usage_stats(meminfo) {
        Ok(stats) => Ok(stats.render()),
        Err(e) => Err(e),
    }
}

/// The memory fact is a function of the meminfo text alone: within one
/// invocation, reading the same content twice yields the same fact.
pub proof fn lemma_memory_probe_idempotent(
    content: Seq<char>,
    first: Option<Seq<char>>,
    second: Option<Seq<char>>,
)
    requires
        first == memory_text(content),
        second == memory_text(content),
    ensures
        first == second,
{
}

/// The used and total bytes of a filesystem from its block statistics:
/// total is block size times total blocks, used is what is not available.
/// Nothing is yielded when the total is zero.
pub open spec fn disk_stats_of(
    block_size: int,
    total_blocks: int,
    available_blocks: int,
) -> Option<(int, int)> {
    let total = block_size * total_blocks;
    let avail = block_size * available_blocks;
    if 0 < total {
        Some(((total - avail), total))
    } else {
        None
    }
}

/// The rendered disk fact, when the block statistics yield one.
pub open spec fn disk_text(
    block_size: int,
    total_blocks: int,
    available_blocks: int,
) -> Option<Seq<char>> {
    match disk_stats_of(block_size, total_blocks, available_blocks) {
        Some(s) => Some(
            usage_text(
                gib_hundredths(s.0) as nat,
                gib_hundredths(s.1) as nat,
                pct_rounded(s.0, s.1) as nat,
            ),
        ),
        None => None,
    }
}

/// The disk probe's measurement: used and total space in hundredths of a
/// gibibyte and the used share as a rounded percentage, from the root
/// filesystem's block size, block count and available-block count. A
/// filesystem reporting no space at all is a parse failure, never a division
/// by zero.
pub fn disk_usage_stats(block_size: u64, total_blocks: u64, available_blocks: u64) -> (r: Result<
    UsageStats,
    ProbeError,
>)
    requires
        block_size * total_blocks <= u64::MAX,
        available_blocks <= total_blocks,
    ensures
        match disk_stats_of(block_size as int, total_blocks as int, available_blocks as int) {
            Some(s) => r is Ok && r->Ok_0.used_hundredths == gib_hundredths(s.0)
                && r->Ok_0.total_hundredths == gib_hundredths(s.1) && r->Ok_0.pct == pct_rounded(
                s.0,
                s.1,
            ),
            None => r is Err && r->Err_0.kind == ErrorKind::ParseFailure && r->Err_0.probe@
                == "disk"@,
        },
{
    proof {
        lemma_mul_inequality(available_blocks as int, total_blocks as int, block_size as int);
        vstd::arithmetic::mul::lemma_mul_is_commutative(available_blocks as int, block_size as int);
        vstd::arithmetic::mul::lemma_mul_is_commutative(total_blocks as int, block_size as int);
    }
    let total = block_size * total_blocks;
    let avail = block_size * available_blocks;
    if 0 < total {
        let used = total - avail;
        Ok(
            UsageStats {
                used_hundredths: gib_hundredths_of_bytes(used),
                total_hundredths: gib_hundredths_of_bytes(total),
                pct: percentage(used, total),
            },
        )
    } else {
        Err(ProbeError::new("disk", ErrorKind::ParseFailure))
    }
}

/// Renders the disk fact from the root filesystem's block statistics.
pub fn get_root_disk_usage(block_size: u64, total_blocks: u64, available_blocks: u64) -> (r:
    Result<String, ProbeError>)
    requires
        block_size * total_blocks <= u64::MAX,
        available_blocks <= total_blocks,
    ensures
        match disk_text(block_size as int, total_blocks as int, available_blocks as int) {
            Some(t) => r is Ok && r->Ok_0@ == t,
            None => r is Err && r->Err_0.kind == ErrorKind::ParseFailure && r->Err_0.probe@
                == "disk"@,
        },
{
    match disk_usage_stats(block_size, total_blocks, available_blocks) {
        Ok(stats) => Ok(stats.render()),
        Err(e) => Err(e),
    }
}

} // verus!
