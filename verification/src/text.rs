//! Character-level helpers shared by the rest of the crate: the models of
//! prefixes, suffixes, ASCII case folding, decimal numbers and text
//! replacement, with executable versions proved against them.
use vstd::prelude::*;

verus! {

// ---------------------------------------------------------------------------
// Models
// ---------------------------------------------------------------------------

/// `p` is a prefix of `s`.
pub open spec fn has_prefix(s: Seq<char>, p: Seq<char>) -> bool {
    p.len() <= s.len() && s.take(p.len() as int) == p
}

/// `p` is a suffix of `s`.
pub open spec fn has_suffix(s: Seq<char>, p: Seq<char>) -> bool {
    p.len() <= s.len() && s.skip(s.len() - p.len()) == p
}

/// `p` occurs somewhere in `s`.
pub open spec fn contains_seq(s: Seq<char>, p: Seq<char>) -> bool {
    exists|i: int| 0 <= i <= s.len() - p.len() && #[trigger] s.subrange(i, i + p.len()) == p
}

/// ASCII lower-casing of one character; every other character is unchanged.
pub open spec fn ascii_lower(c: char) -> char {
    if 'A' <= c && c <= 'Z' {
        ((c as u32) + 32) as char
    } else {
        c
    }
}

/// Equality of two texts up to ASCII case, as `eq_ignore_ascii_case` decides it.
pub open spec fn eq_ignore_ascii_case(a: Seq<char>, b: Seq<char>) -> bool {
    a.len() == b.len() && forall|i: int| 0 <= i < a.len() ==> ascii_lower(#[trigger] a[i]) == ascii_lower(b[i])
}

/// The decimal digit character of `d` (for `d < 10`).
pub open spec fn digit_char(d: nat) -> char {
    if d == 0 { '0' }
    else if d == 1 { '1' }
    else if d == 2 { '2' }
    else if d == 3 { '3' }
    else if d == 4 { '4' }
    else if d == 5 { '5' }
    else if d == 6 { '6' }
    else if d == 7 { '7' }
    else if d == 8 { '8' }
    else { '9' }
}

/// The shortest decimal writing of `n` (so `0` is written `"0"`).
pub open spec fn decimal(n: nat) -> Seq<char>
    decreases n,
{
    if n < 10 {
        seq![digit_char(n)]
    } else {
        decimal(n / 10).push(digit_char(n % 10))
    }
}

/// `c` is an ASCII decimal digit.
pub open spec fn is_digit(c: char) -> bool {
    '0' <= c && c <= '9'
}

/// The value of a character that `is_digit`.
pub open spec fn digit_value(c: char) -> nat {
    ((c as u32) - ('0' as u32)) as nat
}

/// The value of a sequence of decimal digits (`0` for the empty sequence).
pub open spec fn digits_value(s: Seq<char>) -> nat
    decreases s.len(),
{
    if s.len() == 0 {
        0
    } else {
        digits_value(s.drop_last()) * 10 + digit_value(s.last())
    }
}

/// Every character of `s` is an ASCII digit.
pub open spec fn all_digits(s: Seq<char>) -> bool {
    forall|i: int| 0 <= i < s.len() ==> is_digit(#[trigger] s[i])
}

/// The digit part of an unsigned integer literal as `str::parse` reads it: one
/// optional leading `+`, then the digits.
pub open spec fn unsigned_digits(s: Seq<char>) -> Seq<char> {
    if s.len() > 0 && s[0] == '+' { s.skip(1) } else { s }
}

/// What `str::parse::<uN>()` gives for `s`, where `max` is the largest value of
/// the type: `None` for an empty digit part, a non-digit, or a value above `max`.
pub open spec fn parse_unsigned(s: Seq<char>, max: nat) -> Option<nat> {
    let d = unsigned_digits(s);
    if d.len() > 0 && all_digits(d) && digits_value(d) <= max {
        Some(digits_value(d))
    } else {
        None
    }
}

/// `s` with every non-overlapping occurrence of `pat`, taken from the left,
/// replaced by `rep` (the behaviour of `str::replace` for a non-empty pattern).
pub open spec fn replace_all(s: Seq<char>, pat: Seq<char>, rep: Seq<char>) -> Seq<char>
    decreases s.len(),
{
    if pat.len() == 0 || s.len() == 0 {
        s
    } else if has_prefix(s, pat) {
        rep + replace_all(s.skip(pat.len() as int), pat, rep)
    } else {
        seq![s[0]] + replace_all(s.skip(1), pat, rep)
    }
}

/// The text of `s` up to (not including) the first character for which
/// `stop` holds; all of `s` when there is none.
pub open spec fn take_until(s: Seq<char>, stop: spec_fn(char) -> bool) -> Seq<char>
    decreases s.len(),
{
    if s.len() == 0 {
        s
    } else if stop(s[0]) {
        Seq::empty()
    } else {
        seq![s[0]] + take_until(s.skip(1), stop)
    }
}

/// The pieces of `s` between occurrences of `sep` (one empty piece for an
/// empty `s`), as `str::split` gives them.
pub open spec fn split_char(s: Seq<char>, sep: char) -> Seq<Seq<char>>
    decreases s.len(),
{
    if s.len() == 0 {
        seq![Seq::empty()]
    } else {
        let r = split_char(s.drop_last(), sep);
        if s.last() == sep {
            r.push(Seq::empty())
        } else {
            r.update(r.len() - 1, r.last().push(s.last()))
        }
    }
}

/// White space as `char::is_whitespace` decides it (the Unicode `White_Space`
/// property).
pub open spec fn is_white_space(c: char) -> bool {
    let v = c as u32;
    (0x09 <= v && v <= 0x0d) || v == 0x20 || v == 0x85 || v == 0xa0 || v == 0x1680
        || (0x2000 <= v && v <= 0x200a) || v == 0x2028 || v == 0x2029 || v == 0x202f
        || v == 0x205f || v == 0x3000
}

/// `s` without leading white space.
pub open spec fn trim_start(s: Seq<char>) -> Seq<char>
    decreases s.len(),
{
    if s.len() > 0 && is_white_space(s[0]) { trim_start(s.skip(1)) } else { s }
}

/// `s` without trailing white space.
pub open spec fn trim_end(s: Seq<char>) -> Seq<char>
    decreases s.len(),
{
    if s.len() > 0 && is_white_space(s.last()) { trim_end(s.drop_last()) } else { s }
}

/// `str::trim`: `s` without leading and trailing white space.
pub open spec fn trimmed(s: Seq<char>) -> Seq<char> {
    trim_end(trim_start(s))
}

// ---------------------------------------------------------------------------
// Trusted items for std functions that vstd does not specify
// ---------------------------------------------------------------------------

/// `String::push`: appends one character at the end of the string (as std's
/// documentation says).
#[verifier::external_body]
pub fn string_push(s: &mut String, c: char)
    ensures
        final(s)@ == old(s)@.push(c),
{
    s.push(c)
}

/// The full Unicode lower-case mapping that `str::to_lowercase` applies. It is
/// locale independent, so the result depends on the text alone.
pub uninterp spec fn unicode_lowercase(s: Seq<char>) -> Seq<char>;

/// `str::to_lowercase`: the result is `unicode_lowercase` of the argument;
/// nothing more of the Unicode tables is stated.
#[verifier::external_body]
pub fn str_to_lowercase(s: &str) -> (res: String)
    ensures
        res@ == unicode_lowercase(s@),
{
    s.to_lowercase()
}

/// The full Unicode upper-case mapping that `str::to_uppercase` applies.
pub uninterp spec fn unicode_uppercase(s: Seq<char>) -> Seq<char>;

/// `str::to_uppercase`: the result is `unicode_uppercase` of the argument;
/// nothing more of the Unicode tables is stated.
#[verifier::external_body]
pub fn str_to_uppercase(s: &str) -> (res: String)
    ensures
        res@ == unicode_uppercase(s@),
{
    s.to_uppercase()
}

// ---------------------------------------------------------------------------
// Executable helpers
// ---------------------------------------------------------------------------

/// The characters of a string slice, in order.
pub fn chars_of(s: &str) -> (res: Vec<char>)
    ensures
        res@ == s@,
{
    let mut res: Vec<char> = Vec::new();
    for c in it: s.chars()
        invariant
            res@ == it.seq().take(it.index() as int),
            it.seq() == s@,
    {
        res.push(c);
    }
    res
}

/// A `String` holding exactly the given characters.
pub fn string_from_chars(cs: &[char]) -> (res: String)
    ensures
        res@ == cs@,
{
    let mut res = String::new();
    let mut i: usize = 0;
    while i < cs.len()
        invariant
            i <= cs.len(),
            res@ == cs@.take(i as int),
        decreases cs.len() - i,
    {
        string_push(&mut res, cs[i]);
        i = i + 1;
        assert(res@ == cs@.take(i as int));
    }
    assert(cs@.take(cs.len() as int) == cs@);
    res
}

/// Appends the characters of `cs` to `s`.
pub fn push_chars(s: &mut String, cs: &[char])
    ensures
        final(s)@ == old(s)@ + cs@,
{
    let mut i: usize = 0;
    while i < cs.len()
        invariant
            i <= cs.len(),
            s@ == old(s)@ + cs@.take(i as int),
        decreases cs.len() - i,
    {
        string_push(s, cs[i]);
        i = i + 1;
        assert(s@ == old(s)@ + cs@.take(i as int));
    }
    assert(cs@.take(cs.len() as int) == cs@);
}

/// Appends the characters of `t` to `s`.
pub fn push_str(s: &mut String, t: &str)
    ensures
        final(s)@ == old(s)@ + t@,
{
    let cs = chars_of(t);
    push_chars(s, cs.as_slice());
}

/// Character-wise equality of two character slices.
pub fn chars_eq(a: &[char], b: &[char]) -> (res: bool)
    ensures
        res == (a@ == b@),
{
    if a.len() != b.len() {
        return false;
    }
    let mut i: usize = 0;
    while i < a.len()
        invariant
            a.len() == b.len(),
            i <= a.len(),
            forall|j: int| 0 <= j < i ==> a@[j] == b@[j],
        decreases a.len() - i,
    {
        if a[i] != b[i] {
            return false;
        }
        i = i + 1;
    }
    assert(a@ =~= b@);
    true
}

/// Equality of a string slice with a character sequence.
pub fn str_is(s: &str, lit: &str) -> (res: bool)
    ensures
        res == (s@ == lit@),
{
    let a = chars_of(s);
    let b = chars_of(lit);
    chars_eq(a.as_slice(), b.as_slice())
}

/// ASCII lower-casing of one character.
pub fn to_ascii_lower(c: char) -> (res: char)
    ensures
        res == ascii_lower(c),
{
    if 'A' <= c && c <= 'Z' {
        let v: u32 = (c as u32) + 32;
        assert(0x61 <= v <= 0x7a);
        let r: char = match v {
            0x61 => 'a', 0x62 => 'b', 0x63 => 'c', 0x64 => 'd', 0x65 => 'e', 0x66 => 'f',
            0x67 => 'g', 0x68 => 'h', 0x69 => 'i', 0x6a => 'j', 0x6b => 'k', 0x6c => 'l',
            0x6d => 'm', 0x6e => 'n', 0x6f => 'o', 0x70 => 'p', 0x71 => 'q', 0x72 => 'r',
            0x73 => 's', 0x74 => 't', 0x75 => 'u', 0x76 => 'v', 0x77 => 'w', 0x78 => 'x',
            0x79 => 'y', _ => 'z',
        };
        r
    } else {
        c
    }
}

/// Equality of `a[a_from..a_from + n]` and `b[0..n]` up to ASCII case.
fn range_eq_ignore_ascii_case(a: &[char], a_from: usize, b: &[char]) -> (res: bool)
    requires
        a_from + b.len() <= a.len(),
    ensures
        res == eq_ignore_ascii_case(a@.subrange(a_from as int, a_from + b.len()), b@),
{
    let mut i: usize = 0;
    while i < b.len()
        invariant
            a_from + b.len() <= a.len(),
            i <= b.len(),
            forall|j: int| 0 <= j < i ==> ascii_lower(a@[a_from + j]) == ascii_lower(b@[j]),
        decreases b.len() - i,
    {
        if to_ascii_lower(a[a_from + i]) != to_ascii_lower(b[i]) {
            assert(a@.subrange(a_from as int, a_from + b.len())[i as int] == a@[a_from + i]);
            return false;
        }
        i = i + 1;
    }
    proof {
        let sub = a@.subrange(a_from as int, a_from + b.len());
        assert forall|j: int| 0 <= j < sub.len() implies ascii_lower(#[trigger] sub[j]) == ascii_lower(b@[j]) by {
            assert(sub[j] == a@[a_from + j]);
        }
    }
    true
}

/// `eq_ignore_ascii_case` on two character slices.
pub fn chars_eq_ignore_ascii_case(a: &[char], b: &[char]) -> (res: bool)
    ensures
        res == eq_ignore_ascii_case(a@, b@),
{
    if a.len() != b.len() {
        return false;
    }
    let r = range_eq_ignore_ascii_case(a, 0, b);
    assert(a@.subrange(0, b.len() as int) == a@);
    r
}

/// `eq_ignore_ascii_case` on two string slices.
pub fn str_eq_ignore_ascii_case(a: &str, b: &str) -> (res: bool)
    ensures
        res == eq_ignore_ascii_case(a@, b@),
{
    let ca = chars_of(a);
    let cb = chars_of(b);
    chars_eq_ignore_ascii_case(ca.as_slice(), cb.as_slice())
}

/// Whether `s` starts with `p`.
pub fn chars_has_prefix(s: &[char], p: &[char]) -> (res: bool)
    ensures
        res == has_prefix(s@, p@),
{
    if p.len() > s.len() {
        return false;
    }
    let mut i: usize = 0;
    while i < p.len()
        invariant
            p.len() <= s.len(),
            i <= p.len(),
            forall|j: int| 0 <= j < i ==> s@[j] == p@[j],
        decreases p.len() - i,
    {
        if s[i] != p[i] {
            assert(s@.take(p.len() as int)[i as int] != p@[i as int]);
            return false;
        }
        i = i + 1;
    }
    assert(s@.take(p.len() as int) =~= p@);
    true
}

/// Whether `s[from..]` starts with `p`.
fn chars_has_prefix_at(s: &[char], from: usize, p: &[char]) -> (res: bool)
    requires
        from <= s.len(),
    ensures
        res == has_prefix(s@.skip(from as int), p@),
{
    if p.len() > s.len() - from {
        return false;
    }
    let mut i: usize = 0;
    while i < p.len()
        invariant
            from <= s.len(),
            p.len() <= s.len() - from,
            i <= p.len(),
            forall|j: int| 0 <= j < i ==> s@[from + j] == p@[j],
        decreases p.len() - i,
    {
        if s[from + i] != p[i] {
            assert(s@.skip(from as int).take(p.len() as int)[i as int] == s@[from + i]);
            return false;
        }
        i = i + 1;
    }
    assert(s@.skip(from as int).take(p.len() as int) =~= p@);
    true
}

/// Whether `s` ends with `p`.
pub fn chars_has_suffix(s: &[char], p: &[char]) -> (res: bool)
    ensures
        res == has_suffix(s@, p@),
{
    if p.len() > s.len() {
        return false;
    }
    let from = s.len() - p.len();
    let r = chars_has_prefix_at(s, from, p);
    assert(s@.skip(from as int).take(p.len() as int) == s@.skip(from as int));
    r
}

/// Whether `p` occurs in `s`.
pub fn chars_contains(s: &[char], p: &[char]) -> (res: bool)
    ensures
        res == contains_seq(s@, p@),
{
    if p.len() > s.len() {
        return false;
    }
    let last = s.len() - p.len();
    let mut i: usize = 0;
    loop
        invariant
            p.len() <= s.len(),
            last == s.len() - p.len(),
            i <= last,
            forall|j: int| 0 <= j < i ==> #[trigger] s@.subrange(j, j + p.len()) != p@,
        decreases last - i,
    {
        assert(s@.skip(i as int).take(p.len() as int) == s@.subrange(i as int, i + p.len()));
        if chars_has_prefix_at(s, i, p) {
            return true;
        }
        if i == last {
            return false;
        }
        i = i + 1;
    }
}

/// The pieces of `s` between occurrences of `sep`.
pub fn split_chars(s: &[char], sep: char) -> (res: Vec<Vec<char>>)
    ensures
        res@.len() >= 1,
        res@.len() == split_char(s@, sep).len(),
        forall|k: int| 0 <= k < res@.len() ==> (#[trigger] res@[k])@ == split_char(s@, sep)[k],
{
    let mut out: Vec<Vec<char>> = Vec::new();
    let mut cur: Vec<char> = Vec::new();
    let mut i: usize = 0;
    assert(s@.take(0) =~= Seq::<char>::empty());
    while i < s.len()
        invariant
            i <= s.len(),
            out@.len() + 1 == split_char(s@.take(i as int), sep).len(),
            forall|k: int| 0 <= k < out@.len() ==> (#[trigger] out@[k])@ == split_char(s@.take(i as int), sep)[k],
            cur@ == split_char(s@.take(i as int), sep).last(),
        decreases s.len() - i,
    {
        let c = s[i];
        let ghost pre = s@.take(i as int);
        let ghost next = s@.take(i + 1);
        assert(next.drop_last() == pre);
        assert(next.last() == c);
        let ghost sp = split_char(pre, sep);
        if c == sep {
            let piece = cur;
            cur = Vec::new();
            out.push(piece);
            assert(split_char(next, sep) == sp.push(Seq::<char>::empty()));
        } else {
            cur.push(c);
            assert(split_char(next, sep) == sp.update(sp.len() - 1, sp.last().push(c)));
        }
        i = i + 1;
    }
    assert(s@.take(s.len() as int) == s@);
    out.push(cur);
    out
}

/// Whether `c` is white space.
pub fn char_is_white_space(c: char) -> (res: bool)
    ensures
        res == is_white_space(c),
{
    let v = c as u32;
    (0x09 <= v && v <= 0x0d) || v == 0x20 || v == 0x85 || v == 0xa0 || v == 0x1680
        || (0x2000 <= v && v <= 0x200a) || v == 0x2028 || v == 0x2029 || v == 0x202f
        || v == 0x205f || v == 0x3000
}

/// `str::trim` on characters.
pub fn trim_chars(s: &[char]) -> (res: Vec<char>)
    ensures
        res@ == trimmed(s@),
{
    let mut a: usize = 0;
    assert(s@.skip(0) == s@);
    while a < s.len() && char_is_white_space(s[a])
        invariant
            a <= s.len(),
            trim_start(s@) == trim_start(s@.skip(a as int)),
        decreases s.len() - a,
    {
        assert(s@.skip(a as int).skip(1) == s@.skip(a + 1));
        a = a + 1;
    }
    let ghost ts = s@.skip(a as int);
    assert(trim_start(ts) == ts);
    let mut b: usize = s.len();
    assert(ts.take(ts.len() as int) == ts);
    while b > a && char_is_white_space(s[b - 1])
        invariant
            a <= b <= s.len(),
            ts == s@.skip(a as int),
            trim_end(ts) == trim_end(s@.subrange(a as int, b as int)),
        decreases b,
    {
        let ghost u = s@.subrange(a as int, b as int);
        assert(u.drop_last() == s@.subrange(a as int, b - 1));
        assert(u.last() == s@[b - 1]);
        b = b - 1;
    }
    let ghost u = s@.subrange(a as int, b as int);
    if b > a {
        assert(u.last() == s@[b - 1]);
    }
    assert(trim_end(u) == u);
    let mut out: Vec<char> = Vec::new();
    let mut k: usize = a;
    while k < b
        invariant
            a <= k <= b,
            b <= s.len(),
            out@ == s@.subrange(a as int, k as int),
        decreases b - k,
    {
        out.push(s[k]);
        k = k + 1;
        assert(out@ == s@.subrange(a as int, k as int));
    }
    out
}

/// The character of the decimal digit `d`.
pub fn digit_to_char(d: u8) -> (res: char)
    requires
        d < 10,
    ensures
        res == digit_char(d as nat),
{
    match d {
        0 => '0', 1 => '1', 2 => '2', 3 => '3', 4 => '4',
        5 => '5', 6 => '6', 7 => '7', 8 => '8', _ => '9',
    }
}

/// The decimal digits of `n`.
fn decimal_chars(n: u128) -> (res: Vec<char>)
    ensures
        res@ == decimal(n as nat),
    decreases n,
{
    if n < 10 {
        let mut v: Vec<char> = Vec::new();
        v.push(digit_to_char(n as u8));
        v
    } else {
        let mut v = decimal_chars(n / 10);
        v.push(digit_to_char((n % 10) as u8));
        v
    }
}

/// The decimal writing of `n`, as `format!("{}", n)` writes an unsigned integer.
pub fn decimal_string(n: u128) -> (res: String)
    ensures
        res@ == decimal(n as nat),
{
    let cs = decimal_chars(n);
    string_from_chars(cs.as_slice())
}

/// `s` with every occurrence of `pat` replaced by `rep`, as `str::replace` does it
/// for a non-empty pattern.
pub fn replace_chars(s: &[char], pat: &[char], rep: &[char]) -> (res: Vec<char>)
    requires
        pat.len() > 0,
    ensures
        res@ == replace_all(s@, pat@, rep@),
{
    let mut out: Vec<char> = Vec::new();
    let mut i: usize = 0;
    assert(s@.skip(0) == s@);
    assert(out@ + replace_all(s@, pat@, rep@) == replace_all(s@, pat@, rep@));
    while i < s.len()
        invariant
            pat.len() > 0,
            i <= s.len(),
            out@ + replace_all(s@.skip(i as int), pat@, rep@) == replace_all(s@, pat@, rep@),
        decreases s.len() - i,
    {
        let ghost rest = s@.skip(i as int);
        if chars_has_prefix_at(s, i, pat) {
            let mut k: usize = 0;
            let ghost before = out@;
            while k < rep.len()
                invariant
                    k <= rep.len(),
                    out@ == before + rep@.take(k as int),
                decreases rep.len() - k,
            {
                out.push(rep[k]);
                k = k + 1;
                assert(out@ == before + rep@.take(k as int));
            }
            assert(rep@.take(rep.len() as int) == rep@);
            assert(rest.skip(pat.len() as int) == s@.skip(i + pat.len()));
            assert(out@ + replace_all(s@.skip(i + pat.len()), pat@, rep@) == before + replace_all(rest, pat@, rep@));
            i = i + pat.len();
        } else {
            let ghost before = out@;
            out.push(s[i]);
            assert(rest.skip(1) == s@.skip(i + 1));
            assert(out@ + replace_all(s@.skip(i + 1), pat@, rep@) =~= before + replace_all(rest, pat@, rep@));
            i = i + 1;
        }
    }
    assert(s@.skip(s.len() as int) =~= Seq::<char>::empty());
    assert(out@ + Seq::<char>::empty() == out@);
    out
}

/// `str::replace` for a non-empty pattern.
pub fn replace_str(s: &str, pat: &str, rep: &str) -> (res: String)
    requires
        pat@.len() > 0,
    ensures
        res@ == replace_all(s@, pat@, rep@),
{
    let cs = chars_of(s);
    let cp = chars_of(pat);
    let cr = chars_of(rep);
    let out = replace_chars(cs.as_slice(), cp.as_slice(), cr.as_slice());
    string_from_chars(out.as_slice())
}

/// `str::parse::<u64>()` on a character slice.
pub fn parse_u64_chars(s: &[char]) -> (res: Option<u64>)
    ensures
        match res {
            Some(v) => parse_unsigned(s@, u64::MAX as nat) == Some(v as nat),
            None => parse_unsigned(s@, u64::MAX as nat) is None,
        },
{
    let start: usize = if s.len() > 0 && s[0] == '+' { 1 } else { 0 };
    let ghost d = unsigned_digits(s@);
    assert(d == s@.skip(start as int));
    if start >= s.len() {
        assert(d.len() == 0);
        return None;
    }
    let mut v: u64 = 0;
    let mut i: usize = start;
    while i < s.len()
        invariant
            start <= i <= s.len(),
            d == s@.skip(start as int),
            d == unsigned_digits(s@),
            all_digits(s@.subrange(start as int, i as int)),
            v as nat == digits_value(s@.subrange(start as int, i as int)),
        decreases s.len() - i,
    {
        let c = s[i];
        let ghost pre = s@.subrange(start as int, i as int);
        let ghost next = s@.subrange(start as int, i + 1);
        assert(next.drop_last() == pre);
        assert(next.last() == c);
        if !('0' <= c && c <= '9') {
            proof {
                assert(d[i - start] == c);
                assert(!all_digits(d));
            }
            return None;
        }
        let dv: u32 = (c as u32) - ('0' as u32);
        assert(dv as nat == digit_value(c));
        assert(digits_value(next) == digits_value(pre) * 10 + digit_value(c));
        assert(all_digits(next)) by {
            assert forall|j: int| 0 <= j < next.len() implies is_digit(#[trigger] next[j]) by {
                if j < pre.len() {
                    assert(next[j] == pre[j]);
                }
            }
        }
        match v.checked_mul(10) {
            None => {
                proof {
                    assert(d.take((i + 1 - start) as int) == next);
                    lemma_prefix_value_le(d, (i + 1 - start) as nat);
                }
                return None;
            },
            Some(t) => match t.checked_add(dv as u64) {
                None => {
                    proof {
                        lemma_prefix_value_le(d, (i + 1 - start) as nat);
                        assert(d.take((i + 1 - start) as int) == next);
                    }
                    return None;
                },
                Some(w) => {
                    v = w;
                },
            },
        }
        i = i + 1;
    }
    assert(s@.subrange(start as int, s.len() as int) == d);
    Some(v)
}

/// The value of a digit prefix never exceeds the value of the whole digit
/// sequence, so an overflow on a prefix is an overflow of the whole.
proof fn lemma_prefix_value_le(d: Seq<char>, k: nat)
    requires
        k <= d.len(),
        all_digits(d.take(k as int)),
    ensures
        all_digits(d) ==> digits_value(d.take(k as int)) <= digits_value(d),
    decreases d.len() - k,
{
    if k < d.len() && all_digits(d) {
        assert(all_digits(d.take((k + 1) as int))) by {
            assert forall|j: int| 0 <= j < k + 1 implies is_digit(#[trigger] d.take((k + 1) as int)[j]) by {
                assert(d.take((k + 1) as int)[j] == d[j]);
            }
        }
        lemma_prefix_value_le(d, k + 1);
        assert(d.take((k + 1) as int).drop_last() == d.take(k as int));
    } else if k == d.len() {
        assert(d.take(k as int) == d);
    }
}

/// `str::parse::<u64>()`.
pub fn parse_u64(s: &str) -> (res: Option<u64>)
    ensures
        match res {
            Some(v) => parse_unsigned(s@, u64::MAX as nat) == Some(v as nat),
            None => parse_unsigned(s@, u64::MAX as nat) is None,
        },
{
    let cs = chars_of(s);
    parse_u64_chars(cs.as_slice())
}

} // verus!
