//! Character-level text utilities the probes parse with: suffix after a
//! separator, prefix tests, trimming, splitting into lines and
//! whitespace-separated fields, and reading decimal numbers.

use vstd::prelude::*;

verus! {

/// Whitespace, as this library's parsers understand it.
pub open spec fn is_ws(c: char) -> bool {
    c == ' ' || c == '\t' || c == '\r' || c == '\n'
}

/// Runtime test for [`is_ws`].
pub fn char_is_ws(c: char) -> (b: bool)
    ensures
        b == is_ws(c),
{
    c == ' ' || c == '\t' || c == '\r' || c == '\n'
}

/// The characters after the last occurrence of `sep`; the whole of `s` when
/// `sep` does not occur in it.
pub open spec fn after_last(s: Seq<char>, sep: char) -> Seq<char>
    decreases s.len(),
{
    if s.len() == 0 {
        Seq::empty()
    } else if s.last() == sep {
        Seq::empty()
    } else {
        after_last(s.drop_last(), sep).push(s.last())
    }
}

/// When no `sep` occurs at or after position `i`, and `i` is either the start
/// of `s` or just past a `sep`, the suffix of `s` from `i` is exactly what
/// stands after the last `sep`.
proof fn lemma_after_last_suffix(s: Seq<char>, sep: char, i: int)
    requires
        0 <= i <= s.len(),
        forall|j: int| i <= j < s.len() ==> s[j] != sep,
        i > 0 ==> s[i - 1] == sep,
    ensures
        after_last(s, sep) == s.subrange(i, s.len() as int),
    decreases s.len(),
{
    if i == s.len() {
        if s.len() > 0 {
            assert(s.last() == sep);
        }
        assert(after_last(s, sep) =~= s.subrange(i, s.len() as int));
    } else {
        assert(s.last() != sep);
        lemma_after_last_suffix(s.drop_last(), sep, i);
        assert(after_last(s, sep) =~= s.subrange(i, s.len() as int));
    }
}

/// The suffix of `s` after its last `sep`; all of `s` when there is none.
pub fn after_last_str<'a>(s: &'a str, sep: char) -> (r: &'a str)
    ensures
        r@ == after_last(s@, sep),
{
    let len = s.unicode_len();
    let mut i = len;
    while i > 0 && s.get_char(i - 1) != sep
        invariant
            i <= len,
            len == s@.len(),
            forall|j: int| i <= j < len ==> s@[j] != sep,
        decreases i,
    {
        i = i - 1;
    }
    proof {
        lemma_after_last_suffix(s@, sep, i as int);
    }
    s.substring_char(i, len)
}

/// Whether `p` is a prefix of `s`.
pub open spec fn starts_with(s: Seq<char>, p: Seq<char>) -> bool {
    p.len() <= s.len() && s.subrange(0, p.len() as int) == p
}

/// Tests whether `p` is a prefix of `s`.
pub fn str_starts_with(s: &str, p: &str) -> (b: bool)
    ensures
        b == starts_with(s@, p@),
{
    let sl = s.unicode_len();
    let pl = p.unicode_len();
    if pl > sl {
        return false;
    }
    let mut i: usize = 0;
    while i < pl
        invariant
            i <= pl,
            pl == p@.len(),
            sl == s@.len(),
            pl <= sl,
            forall|j: int| 0 <= j < i ==> s@[j] == p@[j],
        decreases pl - i,
    {
        if s.get_char(i) != p.get_char(i) {
            proof {
                assert(s@.subrange(0, pl as int)[i as int] != p@[i as int]);
            }
            return false;
        }
        i = i + 1;
    }
    proof {
        assert(s@.subrange(0, pl as int) =~= p@);
    }
    true
}

/// `s` without its trailing whitespace.
pub open spec fn trim_end_ws(s: Seq<char>) -> Seq<char>
    decreases s.len(),
{
    if s.len() == 0 {
        s
    } else if is_ws(s.last()) {
        trim_end_ws(s.drop_last())
    } else {
        s
    }
}

/// `s` without its leading whitespace.
pub open spec fn trim_start_ws(s: Seq<char>) -> Seq<char>
    decreases s.len(),
{
    if s.len() == 0 {
        s
    } else if is_ws(s.first()) {
        trim_start_ws(s.drop_first())
    } else {
        s
    }
}

/// `s` without its leading and trailing whitespace.
pub open spec fn trim_ws(s: Seq<char>) -> Seq<char> {
    trim_start_ws(trim_end_ws(s))
}

/// `s` without its trailing double quotes.
pub open spec fn trim_end_quotes(s: Seq<char>) -> Seq<char>
    decreases s.len(),
{
    if s.len() == 0 {
        s
    } else if s.last() == '"' {
        trim_end_quotes(s.drop_last())
    } else {
        s
    }
}

/// `s` without its leading double quotes.
pub open spec fn trim_start_quotes(s: Seq<char>) -> Seq<char>
    decreases s.len(),
{
    if s.len() == 0 {
        s
    } else if s.first() == '"' {
        trim_start_quotes(s.drop_first())
    } else {
        s
    }
}

/// `s` without the double quotes that surround it.
pub open spec fn trim_quotes(s: Seq<char>) -> Seq<char> {
    trim_start_quotes(trim_end_quotes(s))
}

/// When everything at or after position `e` is whitespace and `e` is either
/// the start of `s` or just past a non-whitespace character, the prefix of
/// `s` up to `e` is `s` with its trailing whitespace removed.
proof fn lemma_trim_end_ws_prefix(s: Seq<char>, e: int)
    requires
        0 <= e <= s.len(),
        forall|j: int| e <= j < s.len() ==> is_ws(s[j]),
        e > 0 ==> !is_ws(s[e - 1]),
    ensures
        trim_end_ws(s) == s.subrange(0, e),
    decreases s.len(),
{
    if e == s.len() {
        assert(trim_end_ws(s) =~= s.subrange(0, e));
    } else {
        assert(is_ws(s.last()));
        lemma_trim_end_ws_prefix(s.drop_last(), e);
        assert(trim_end_ws(s) =~= s.subrange(0, e));
    }
}

/// When everything before position `b` is whitespace and `b` is either the
/// end of `s` or the position of a non-whitespace character, the suffix of
/// `s` from `b` is `s` with its leading whitespace removed.
proof fn lemma_trim_start_ws_suffix(s: Seq<char>, b: int)
    requires
        0 <= b <= s.len(),
        forall|j: int| 0 <= j < b ==> is_ws(s[j]),
        b < s.len() ==> !is_ws(s[b]),
    ensures
        trim_start_ws(s) == s.subrange(b, s.len() as int),
    decreases s.len(),
{
    if b == 0 {
        assert(trim_start_ws(s) =~= s.subrange(b, s.len() as int));
    } else {
        assert(is_ws(s.first()));
        lemma_trim_start_ws_suffix(s.drop_first(), b - 1);
        assert(s.drop_first().subrange(b - 1, s.drop_first().len() as int) =~= s.subrange(
            b,
            s.len() as int,
        ));
    }
}

/// The counterpart of [`lemma_trim_end_ws_prefix`] for double quotes.
proof fn lemma_trim_end_quotes_prefix(s: Seq<char>, e: int)
    requires
        0 <= e <= s.len(),
        forall|j: int| e <= j < s.len() ==> s[j] == '"',
        e > 0 ==> s[e - 1] != '"',
    ensures
        trim_end_quotes(s) == s.subrange(0, e),
    decreases s.len(),
{
    if e == s.len() {
        assert(trim_end_quotes(s) =~= s.subrange(0, e));
    } else {
        assert(s.last() == '"');
        lemma_trim_end_quotes_prefix(s.drop_last(), e);
        assert(trim_end_quotes(s) =~= s.subrange(0, e));
    }
}

/// The counterpart of [`lemma_trim_start_ws_suffix`] for double quotes.
proof fn lemma_trim_start_quotes_suffix(s: Seq<char>, b: int)
    requires
        0 <= b <= s.len(),
        forall|j: int| 0 <= j < b ==> s[j] == '"',
        b < s.len() ==> s[b] != '"',
    ensures
        trim_start_quotes(s) == s.subrange(b, s.len() as int),
    decreases s.len(),
{
    if b == 0 {
        assert(trim_start_quotes(s) =~= s.subrange(b, s.len() as int));
    } else {
        assert(s.first() == '"');
        lemma_trim_start_quotes_suffix(s.drop_first(), b - 1);
        assert(s.drop_first().subrange(b - 1, s.drop_first().len() as int) =~= s.subrange(
            b,
            s.len() as int,
        ));
    }
}

/// `s` without its trailing whitespace.
pub fn trim_end_ws_str<'a>(s: &'a str) -> (r: &'a str)
    ensures
        r@ == trim_end_ws(s@),
{
    let len = s.unicode_len();
    let mut e = len;
    while e > 0 && char_is_ws(s.get_char(e - 1))
        invariant
            e <= len,
            len == s@.len(),
            forall|j: int| e <= j < len ==> is_ws(s@[j]),
        decreases e,
    {
        e = e - 1;
    }
    proof {
        lemma_trim_end_ws_prefix(s@, e as int);
    }
    s.substring_char(0, e)
}

/// `s` without its leading and trailing whitespace.
pub fn trim_ws_str<'a>(s: &'a str) -> (r: &'a str)
    ensures
        r@ == trim_ws(s@),
{
    let len = s.unicode_len();
    let mut e = len;
    while e > 0 && char_is_ws(s.get_char(e - 1))
        invariant
            e <= len,
            len == s@.len(),
            forall|j: int| e <= j < len ==> is_ws(s@[j]),
        decreases e,
    {
        e = e - 1;
    }
    let mut b: usize = 0;
    while b < e && char_is_ws(s.get_char(b))
        invariant
            b <= e <= len,
            len == s@.len(),
            forall|j: int| 0 <= j < b ==> is_ws(s@[j]),
        decreases e - b,
    {
        b = b + 1;
    }
    proof {
        lemma_trim_end_ws_prefix(s@, e as int);
        lemma_trim_start_ws_suffix(s@.subrange(0, e as int), b as int);
        assert(s@.subrange(0, e as int).subrange(b as int, e as int) =~= s@.subrange(
            b as int,
            e as int,
        ));
    }
    s.substring_char(b, e)
}

/// `s` without the double quotes that surround it.
pub fn trim_quotes_str<'a>(s: &'a str) -> (r: &'a str)
    ensures
        r@ == trim_quotes(s@),
{
    let len = s.unicode_len();
    let mut e = len;
    while e > 0 && s.get_char(e - 1) == '"'
        invariant
            e <= len,
            len == s@.len(),
            forall|j: int| e <= j < len ==> s@[j] == '"',
        decreases e,
    {
        e = e - 1;
    }
    let mut b: usize = 0;
    while b < e && s.get_char(b) == '"'
        invariant
            b <= e <= len,
            len == s@.len(),
            forall|j: int| 0 <= j < b ==> s@[j] == '"',
        decreases e - b,
    {
        b = b + 1;
    }
    proof {
        lemma_trim_end_quotes_prefix(s@, e as int);
        lemma_trim_start_quotes_suffix(s@.subrange(0, e as int), b as int);
        assert(s@.subrange(0, e as int).subrange(b as int, e as int) =~= s@.subrange(
            b as int,
            e as int,
        ));
    }
    s.substring_char(b, e)
}

/// `s` without its trailing colons.
pub open spec fn trim_end_colons(s: Seq<char>) -> Seq<char>
    decreases s.len(),
{
    if s.len() == 0 {
        s
    } else if s.last() == ':' {
        trim_end_colons(s.drop_last())
    } else {
        s
    }
}

/// The counterpart of [`lemma_trim_end_ws_prefix`] for colons.
proof fn lemma_trim_end_colons_prefix(s: Seq<char>, e: int)
    requires
        0 <= e <= s.len(),
        forall|j: int| e <= j < s.len() ==> s[j] == ':',
        e > 0 ==> s[e - 1] != ':',
    ensures
        trim_end_colons(s) == s.subrange(0, e),
    decreases s.len(),
{
    if e == s.len() {
        assert(trim_end_colons(s) =~= s.subrange(0, e));
    } else {
        assert(s.last() == ':');
        lemma_trim_end_colons_prefix(s.drop_last(), e);
        assert(trim_end_colons(s) =~= s.subrange(0, e));
    }
}

/// `s` without its trailing colons.
pub fn trim_end_colons_str<'a>(s: &'a str) -> (r: &'a str)
    ensures
        r@ == trim_end_colons(s@),
{
    let len = s.unicode_len();
    let mut e = len;
    while e > 0 && s.get_char(e - 1) == ':'
        invariant
            e <= len,
            len == s@.len(),
            forall|j: int| e <= j < len ==> s@[j] == ':',
        decreases e,
    {
        e = e - 1;
    }
    proof {
        lemma_trim_end_colons_prefix(s@, e as int);
    }
    s.substring_char(0, e)
}

/// Tests whether `a` and `b` hold the same characters.
pub fn str_eq(a: &str, b: &str) -> (r: bool)
    ensures
        r == (a@ == b@),
{
    let al = a.unicode_len();
    let bl = b.unicode_len();
    if al != bl {
        return false;
    }
    let mut i: usize = 0;
    while i < al
        invariant
            i <= al,
            al == a@.len(),
            al == b@.len(),
            forall|j: int| 0 <= j < i ==> a@[j] == b@[j],
        decreases al - i,
    {
        if a.get_char(i) != b.get_char(i) {
            return false;
        }
        i = i + 1;
    }
    proof {
        assert(a@ =~= b@);
    }
    true
}

/// `s` without the prefix `p`: `Some` of the rest of `s` when `p` is a
/// prefix of it, `None` otherwise.
pub fn strip_prefix_str<'a>(s: &'a str, p: &str) -> (r: Option<&'a str>)
    ensures
        match r {
            Some(t) => starts_with(s@, p@) && t@ == s@.skip(p@.len() as int),
            None => !starts_with(s@, p@),
        },
{
    if str_starts_with(s, p) {
        Some(s.substring_char(p.unicode_len(), s.unicode_len()))
    } else {
        None
    }
}

/// The view of an optional borrowed string.
pub open spec fn opt_view(o: Option<&str>) -> Option<Seq<char>> {
    match o {
        Some(s) => Some(s@),
        None => None,
    }
}

/// The views of a sequence of owned strings.
pub open spec fn views_of(v: Seq<String>) -> Seq<Seq<char>> {
    v.map_values(|t: String| t@)
}

/// The fields of `s` between occurrences of `sep`: one more field than there
/// are separators, in order, possibly empty.
pub open spec fn split_on(s: Seq<char>, sep: char) -> Seq<Seq<char>>
    decreases s.len(),
{
    if s.len() == 0 {
        seq![Seq::empty()]
    } else if s.last() == sep {
        split_on(s.drop_last(), sep).push(Seq::empty())
    } else {
        let ps = split_on(s.drop_last(), sep);
        ps.update(ps.len() - 1, ps.last().push(s.last()))
    }
}

/// Splits `s` at every occurrence of `sep`.
pub fn split_str(s: &str, sep: char) -> (v: Vec<String>)
    ensures
        views_of(v@) == split_on(s@, sep),
{
    let mut v: Vec<String> = Vec::new();
    v.push(String::new());
    let len = s.unicode_len();
    let mut i: usize = 0;
    proof {
        assert(s@.take(0) =~= Seq::<char>::empty());
        assert(views_of(v@) =~~= split_on(s@.take(0), sep));
    }
    while i < len
        invariant
            i <= len,
            len == s@.len(),
            v@.len() >= 1,
            views_of(v@) == split_on(s@.take(i as int), sep),
        decreases len - i,
    {
        let ghost pre = split_on(s@.take(i as int), sep);
        proof {
            assert(s@.take(i + 1).drop_last() =~= s@.take(i as int));
            assert(s@.take(i + 1).last() == s@[i as int]);
        }
        let c = s.get_char(i);
        if c == sep {
            v.push(String::new());
            proof {
                assert(views_of(v@) =~~= pre.push(Seq::<char>::empty()));
            }
        } else {
            let ch = s.substring_char(i, i + 1);
            proof {
                assert(ch@ =~= seq![s@[i as int]]);
            }
            let mut t = v.pop().unwrap();
            t.append(ch);
            v.push(t);
            proof {
                assert(views_of(v@) =~~= pre.update(pre.len() - 1, pre.last().push(s@[i as int])));
            }
        }
        i = i + 1;
    }
    proof {
        assert(s@.take(len as int) =~= s@);
    }
    v
}

/// The maximal runs of non-whitespace characters in `s`, in order.
pub open spec fn ws_tokens(s: Seq<char>) -> Seq<Seq<char>>
    decreases s.len(),
{
    if s.len() == 0 {
        Seq::empty()
    } else if is_ws(s.last()) {
        ws_tokens(s.drop_last())
    } else if s.len() >= 2 && !is_ws(s[s.len() - 2]) {
        let ts = ws_tokens(s.drop_last());
        ts.update(ts.len() - 1, ts.last().push(s.last()))
    } else {
        ws_tokens(s.drop_last()).push(seq![s.last()])
    }
}

/// Text that ends in a non-whitespace character has at least one token.
proof fn lemma_ws_tokens_nonempty(s: Seq<char>)
    requires
        s.len() > 0,
        !is_ws(s.last()),
    ensures
        ws_tokens(s).len() >= 1,
    decreases s.len(),
{
    if s.len() >= 2 && !is_ws(s[s.len() - 2]) {
        lemma_ws_tokens_nonempty(s.drop_last());
    }
}

/// The whitespace-separated fields of `s`, in order; never empty fields.
pub fn split_ws_tokens(s: &str) -> (v: Vec<String>)
    ensures
        views_of(v@) == ws_tokens(s@),
{
    let mut v: Vec<String> = Vec::new();
    let len = s.unicode_len();
    let mut i: usize = 0;
    proof {
        assert(s@.take(0) =~= Seq::<char>::empty());
        assert(views_of(v@) =~~= ws_tokens(s@.take(0)));
    }
    while i < len
        invariant
            i <= len,
            len == s@.len(),
            views_of(v@) == ws_tokens(s@.take(i as int)),
        decreases len - i,
    {
        let ghost pre = ws_tokens(s@.take(i as int));
        proof {
            assert(s@.take(i + 1).drop_last() =~= s@.take(i as int));
            assert(s@.take(i + 1).last() == s@[i as int]);
        }
        let c = s.get_char(i);
        if char_is_ws(c) {
            proof {
                assert(ws_tokens(s@.take(i + 1)) == pre);
            }
        } else {
            let ch = s.substring_char(i, i + 1);
            proof {
                assert(ch@ =~= seq![s@[i as int]]);
            }
            if i > 0 && !char_is_ws(s.get_char(i - 1)) {
                proof {
                    assert(s@.take(i as int).last() == s@[i - 1]);
                    lemma_ws_tokens_nonempty(s@.take(i as int));
                }
                let mut t = v.pop().unwrap();
                t.append(ch);
                v.push(t);
                proof {
                    assert(views_of(v@) =~~= pre.update(
                        pre.len() - 1,
                        pre.last().push(s@[i as int]),
                    ));
                    assert(s@.take(i + 1).len() >= 2);
                    assert(!is_ws(s@.take(i + 1)[s@.take(i + 1).len() - 2]));
                }
            } else {
                v.push(ch.to_owned());
                proof {
                    assert(views_of(v@) =~~= pre.push(seq![s@[i as int]]));
                    assert(!(s@.take(i + 1).len() >= 2 && !is_ws(
                        s@.take(i + 1)[s@.take(i + 1).len() - 2],
                    )));
                }
            }
        }
        i = i + 1;
    }
    proof {
        assert(s@.take(len as int) =~= s@);
    }
    v
}

/// A decimal digit.
pub open spec fn is_digit(c: char) -> bool {
    48 <= c as u32 <= 57
}

/// The value of a decimal digit.
pub open spec fn digit_value(c: char) -> int {
    c as u32 - 48
}

/// Whether every character of `s` is a decimal digit.
pub open spec fn all_digits(s: Seq<char>) -> bool {
    forall|i: int| 0 <= i < s.len() ==> is_digit(s[i])
}

/// The number the decimal digits of `s` denote, most significant first.
pub open spec fn digits_value(s: Seq<char>) -> int
    decreases s.len(),
{
    if s.len() == 0 {
        0
    } else {
        digits_value(s.drop_last()) * 10 + digit_value(s.last())
    }
}

/// The value of a digit string is non-negative and no prefix of it denotes
/// a larger number.
pub proof fn lemma_digits_value_mono(s: Seq<char>, i: int)
    requires
        all_digits(s),
        0 <= i <= s.len(),
    ensures
        0 <= digits_value(s.take(i)) <= digits_value(s),
    decreases s.len(),
{
    if s.len() == 0 {
        assert(s.take(i) =~= s);
    } else if i == s.len() {
        assert(s.take(i) =~= s);
        lemma_digits_value_mono(s.drop_last(), s.len() - 1);
        assert(s.drop_last().take(s.len() - 1) =~= s.drop_last());
    } else {
        lemma_digits_value_mono(s.drop_last(), i);
        assert(s.drop_last().take(i) =~= s.take(i));
        lemma_digits_value_mono(s.drop_last(), s.len() - 1);
        assert(s.drop_last().take(s.len() - 1) =~= s.drop_last());
    }
}

/// Whether `s` is one or more decimal digits denoting a number that fits in
/// a `u64`.
pub open spec fn is_u64_digits(s: Seq<char>) -> bool {
    s.len() > 0 && all_digits(s) && digits_value(s) <= u64::MAX
}

/// Reads `s` as a decimal number: `Some` of its value when `s` is one or
/// more decimal digits denoting a number that fits in a `u64`, `None`
/// otherwise.
pub fn parse_u64_digits(s: &str) -> (r: Option<u64>)
    ensures
        match r {
            Some(n) => is_u64_digits(s@) && n == digits_value(s@),
            None => !is_u64_digits(s@),
        },
{
    let len = s.unicode_len();
    if len == 0 {
        return None;
    }
    let mut val: u64 = 0;
    let mut i: usize = 0;
    proof {
        assert(s@.take(0) =~= Seq::<char>::empty());
    }
    while i < len
        invariant
            i <= len,
            len == s@.len(),
            forall|j: int| 0 <= j < i ==> is_digit(s@[j]),
            val == digits_value(s@.take(i as int)),
        decreases len - i,
    {
        proof {
            assert(s@.take(i + 1).drop_last() =~= s@.take(i as int));
            assert(s@.take(i + 1).last() == s@[i as int]);
        }
        let c = s.get_char(i);
        let u = c as u32;
        if u < 48 || u > 57 {
            return None;
        }
        let d = (u - 48) as u64;
        let next = match val.checked_mul(10) {
            Some(m) => m.checked_add(d),
            None => None,
        };
        match next {
            Some(n) => {
                val = n;
            },
            None => {
                proof {
                    if s@.len() > 0 && all_digits(s@) {
                        lemma_digits_value_mono(s@, i + 1);
                    }
                }
                return None;
            },
        }
        i = i + 1;
    }
    proof {
        assert(s@.take(len as int) =~= s@);
    }
    Some(val)
}

/// `s` without one trailing carriage return, as a line cut from text with
/// CRLF line endings carries.
pub open spec fn chomp_cr(s: Seq<char>) -> Seq<char> {
    if s.len() > 0 && s.last() == '\r' {
        s.drop_last()
    } else {
        s
    }
}

/// `s` without one trailing carriage return.
pub fn chomp_cr_str<'a>(s: &'a str) -> (r: &'a str)
    ensures
        r@ == chomp_cr(s@),
{
    let len = s.unicode_len();
    if len > 0 && s.get_char(len - 1) == '\r' {
        let r = s.substring_char(0, len - 1);
        proof {
            assert(r@ =~= chomp_cr(s@));
        }
        r
    } else {
        s
    }
}

} // verus!
