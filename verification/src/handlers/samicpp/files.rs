//! Decisions about the file a route leads to: whether access is forbidden,
//! what kind of file it is, the error pages, the headers of a plain file,
//! byte ranges, reading in chunks, redirects and the variables of template
//! files.
use vstd::prelude::*;
use crate::text::{
    chars_of, chars_has_suffix, chars_has_prefix, chars_contains, has_suffix, has_prefix, contains_seq,
    push_str, push_chars, string_from_chars, split_char, split_chars, parse_unsigned, parse_u64_chars,
    decimal, decimal_string, replace_all, replace_chars, replace_str, trimmed, trim_chars,
    unicode_lowercase, unicode_uppercase, str_to_lowercase, str_to_uppercase,
};
use crate::handlers::{joined, path_join};
use crate::handlers::samicpp::{RouteConfig, regex_search, regex_test, scheme_text};

verus! {

// ---------------------------------------------------------------------------
// Access and file kinds
// ---------------------------------------------------------------------------

/// Some text of `list` ends `name`.
pub open spec fn any_suffix(name: Seq<char>, list: Seq<String>) -> bool {
    exists|i: int| 0 <= i < list.len() && has_suffix(name, #[trigger] list[i]@)
}

/// Whether a route forbids the file `name`: its `forbid` pattern matches the
/// name, or the name ends with one of `forbid_end` or of `forbid_start` (both
/// lists are compared with the end of the name).
pub open spec fn forbidden(conf: RouteConfig, name: Seq<char>) -> bool {
    ||| (conf.forbid matches Some(p) && regex_search(p@, name) == Some(true))
    ||| (conf.forbid_end matches Some(l) && any_suffix(name, l.items()))
    ||| (conf.forbid_start matches Some(l) && any_suffix(name, l.items()))
}

/// A file whose name ends with any entry of `forbid_end` or of `forbid_start`
/// is forbidden, wherever the entry stands in its list; a name that ends with
/// none of them, and that the `forbid` pattern does not match, is not.
pub proof fn lemma_forbidden_by_any_entry(conf: RouteConfig, name: Seq<char>, i: int)
    ensures
        (conf.forbid_end matches Some(l) && 0 <= i < l.items().len() && has_suffix(name, l.items()[i]@))
            ==> file_kind_of(conf, name) == FileKind::Forbidden,
        (conf.forbid_start matches Some(l) && 0 <= i < l.items().len() && has_suffix(name, l.items()[i]@))
            ==> file_kind_of(conf, name) == FileKind::Forbidden,
        (!(conf.forbid matches Some(p) && regex_search(p@, name) == Some(true))
            && (conf.forbid_end matches Some(l) ==> forall|j: int| 0 <= j < l.items().len() ==> !has_suffix(name, #[trigger] l.items()[j]@))
            && (conf.forbid_start matches Some(l) ==> forall|j: int| 0 <= j < l.items().len() ==> !has_suffix(name, #[trigger] l.items()[j]@)))
            ==> file_kind_of(conf, name) != FileKind::Forbidden,
{
    if let Some(l) = conf.forbid_end {
        if 0 <= i < l.items().len() && has_suffix(name, l.items()[i]@) {
            assert(any_suffix(name, l.items()));
        }
    }
    if let Some(l) = conf.forbid_start {
        if 0 <= i < l.items().len() && has_suffix(name, l.items()[i]@) {
            assert(any_suffix(name, l.items()));
        }
    }
}

/// Whether some text of `list` ends `name`.
fn ends_with_any(name: &[char], list: &[String]) -> (res: bool)
    ensures
        res == any_suffix(name@, list@),
{
    let mut i: usize = 0;
    while i < list.len()
        invariant
            i <= list.len(),
            forall|j: int| 0 <= j < i ==> !has_suffix(name@, #[trigger] list@[j]@),
        decreases list.len() - i,
    {
        let p = chars_of(list[i].as_str());
        if chars_has_suffix(name, p.as_slice()) {
            return true;
        }
        i = i + 1;
    }
    false
}

/// Whether the route forbids access to the file `name`.
pub fn is_forbidden(conf: &RouteConfig, name: &str) -> (res: bool)
    ensures
        res == forbidden(*conf, name@),
{
    let cs = chars_of(name);
    let by_pattern = match &conf.forbid {
        Some(p) => match regex_test(p.as_str(), name) {
            Some(b) => b,
            None => false,
        },
        None => false,
    };
    let by_end = match &conf.forbid_end {
        Some(l) => ends_with_any(cs.as_slice(), l.get()),
        None => false,
    };
    let by_start = match &conf.forbid_start {
        Some(l) => ends_with_any(cs.as_slice(), l.get()),
        None => false,
    };
    by_pattern || by_end || by_start
}

/// What a file is served as.
#[derive(PartialEq, Eq, Structural, Clone, Copy, Debug)]
pub enum FileKind {
    /// Access is denied by the route (403).
    Forbidden,
    /// `*.blank`: answered with 204 and no body.
    Blank,
    /// `*.var.*`: the content with its variables filled in.
    Variables,
    /// `*.redirect`: a redirect to the location the file holds.
    Redirect,
    /// `*.link`: the path the file holds is served instead.
    Link,
    /// `*.ffi.so`, `*.ffi.dll`, `*.ffi.dylib`: a module that answers itself.
    FfiModule,
    /// Any other file: its bytes.
    Regular,
}

/// The kind of file `name` for a route, in the order the handler tests them.
pub open spec fn file_kind_of(conf: RouteConfig, name: Seq<char>) -> FileKind {
    if forbidden(conf, name) {
        FileKind::Forbidden
    } else if has_suffix(name, ".blank"@) {
        FileKind::Blank
    } else if contains_seq(name, ".var."@) {
        FileKind::Variables
    } else if has_suffix(name, ".redirect"@) {
        FileKind::Redirect
    } else if has_suffix(name, ".link"@) {
        FileKind::Link
    } else if has_suffix(name, ".ffi.so"@) || has_suffix(name, ".ffi.dll"@) || has_suffix(name, ".ffi.dylib"@) {
        FileKind::FfiModule
    } else {
        FileKind::Regular
    }
}

/// Whether `name` ends with the literal `lit`.
fn ends_with_lit(name: &[char], lit: &str) -> (res: bool)
    ensures
        res == has_suffix(name@, lit@),
{
    let l = chars_of(lit);
    chars_has_suffix(name, l.as_slice())
}

/// The kind of the file `name` under a route.
pub fn file_kind(conf: &RouteConfig, name: &str) -> (res: FileKind)
    ensures
        res == file_kind_of(*conf, name@),
{
    if is_forbidden(conf, name) {
        return FileKind::Forbidden;
    }
    let cs = chars_of(name);
    if ends_with_lit(cs.as_slice(), ".blank") {
        FileKind::Blank
    } else if chars_contains(cs.as_slice(), chars_of(".var.").as_slice()) {
        FileKind::Variables
    } else if ends_with_lit(cs.as_slice(), ".redirect") {
        FileKind::Redirect
    } else if ends_with_lit(cs.as_slice(), ".link") {
        FileKind::Link
    } else if ends_with_lit(cs.as_slice(), ".ffi.so") || ends_with_lit(cs.as_slice(), ".ffi.dll")
        || ends_with_lit(cs.as_slice(), ".ffi.dylib") {
        FileKind::FfiModule
    } else {
        FileKind::Regular
    }
}

// ---------------------------------------------------------------------------
// Error pages
// ---------------------------------------------------------------------------

/// How an error is answered.
pub struct ErrorPage {
    pub status: u16,
    /// The reason phrase of the status line.
    pub status_text: String,
    /// The route's own page for this error, if it names one; it is served in
    /// place of `body`.
    pub page_file: Option<String>,
    /// The plain-text body sent when there is no page file.
    pub body: String,
}

/// The reason phrase for an error status.
pub open spec fn error_reason_phrase(code: u16) -> Seq<char> {
    if code == 400 { "Bad Request"@ }
    else if code == 403 { "Forbidden"@ }
    else if code == 404 { "Not Found"@ }
    else if code == 409 { "Conflict"@ }
    else if code == 416 { "Range Not Satisfiable"@ }
    else if code == 500 { "Internal Server Error"@ }
    else if code == 501 { "Not Implemented"@ }
    else { "Error"@ }
}

/// The page file that the route names for an error status.
pub open spec fn error_file(conf: RouteConfig, code: u16) -> Option<String> {
    if code == 400 { conf.e400_file }
    else if code == 403 { conf.e403_file }
    else if code == 404 { conf.e404_file }
    else if code == 409 { conf.e409_file }
    else if code == 416 { conf.e416_file }
    else if code == 500 { conf.e500_file }
    else if code == 501 { conf.e501_file }
    else { None }
}

/// The plain-text body of an error answer. `path_text` is the requested path
/// as the handler writes it in messages.
pub open spec fn error_body(code: u16, path_text: Seq<char>, reason: Seq<char>, detail: Seq<char>) -> Seq<char> {
    if code == 400 { "broken request"@ }
    else if code == 403 { "forbidden"@ }
    else if code == 404 { "couldnt find "@ + path_text }
    else if code == 409 { "something went wrong. "@ + reason }
    else if code == 416 { "Range Not Satisfiable. "@ + reason }
    else if code == 500 { "something went wrong\r\n"@ + reason }
    else if code == 501 { "not implemented"@ }
    else { reason + " "@ + detail }
}

/// The answer to an error `code` under a route. A page file of the route is
/// looked for in the route's directory inside the served directory.
pub fn error_page(conf: &RouteConfig, serve_dir: &str, code: u16, path_text: &str, reason: &str, detail: &str) -> (res: ErrorPage)
    ensures
        res.status == code,
        res.status_text@ == error_reason_phrase(code),
        res.body@ == error_body(code, path_text@, reason@, detail@),
        match error_file(*conf, code) {
            Some(f) => res.page_file matches Some(p) && p@ == joined(joined(serve_dir@, conf.directory@), f@),
            None => res.page_file is None,
        },
{
    let (text, file, body) = if code == 400 {
        (String::from_str("Bad Request"), &conf.e400_file, String::from_str("broken request"))
    } else if code == 403 {
        (String::from_str("Forbidden"), &conf.e403_file, String::from_str("forbidden"))
    } else if code == 404 {
        let mut b = String::from_str("couldnt find ");
        push_str(&mut b, path_text);
        (String::from_str("Not Found"), &conf.e404_file, b)
    } else if code == 409 {
        let mut b = String::from_str("something went wrong. ");
        push_str(&mut b, reason);
        (String::from_str("Conflict"), &conf.e409_file, b)
    } else if code == 416 {
        let mut b = String::from_str("Range Not Satisfiable. ");
        push_str(&mut b, reason);
        (String::from_str("Range Not Satisfiable"), &conf.e416_file, b)
    } else if code == 500 {
        let mut b = String::from_str("something went wrong\r\n");
        push_str(&mut b, reason);
        (String::from_str("Internal Server Error"), &conf.e500_file, b)
    } else if code == 501 {
        (String::from_str("Not Implemented"), &conf.e501_file, String::from_str("not implemented"))
    } else {
        let mut b = String::from_str(reason);
        push_str(&mut b, " ");
        push_str(&mut b, detail);
        (String::from_str("Error"), &None, b)
    };
    let page_file = match file {
        Some(f) => {
            let base = path_join(serve_dir, conf.directory.as_str());
            Some(path_join(base.as_str(), f.as_str()))
        },
        None => None,
    };
    ErrorPage { status: code, status_text: text, page_file, body }
}

// ---------------------------------------------------------------------------
// Plain files
// ---------------------------------------------------------------------------

/// `s` without its suffix `p` (when `s` ends with `p`).
pub open spec fn without_suffix(s: Seq<char>, p: Seq<char>) -> Seq<char> {
    s.take(s.len() - p.len())
}

/// The name of a file once a `.gz` or `.br` ending is taken off.
pub open spec fn stem_of(name: Seq<char>) -> Seq<char> {
    if has_suffix(name, ".gz"@) {
        without_suffix(name, ".gz"@)
    } else if has_suffix(name, ".br"@) {
        without_suffix(name, ".br"@)
    } else {
        name
    }
}

/// The `Content-Encoding` that a `.gz` or `.br` ending of `name` stands for.
pub open spec fn encoding_of(name: Seq<char>) -> Option<Seq<char>> {
    if has_suffix(name, ".gz"@) {
        Some("gzip"@)
    } else if has_suffix(name, ".br"@) {
        Some("br"@)
    } else {
        None
    }
}

/// The headers of a plain file, before and after its content type.
pub struct PlainFileHeaders {
    /// `Content-Encoding` for a `.gz` or `.br` name.
    pub encoding: Option<String>,
    /// `Content-Disposition` for a name (without compression ending) that
    /// ends with `.download`.
    pub disposition: Option<String>,
    /// The text after the last `.` of the name without compression ending:
    /// the key of its content type.
    pub extension: String,
    /// `Content-Encoding` again, when the name without compression ending
    /// itself ends with `.gz` or `.br`; it is set after the content type.
    pub late_encoding: Option<String>,
}

/// Whether `o` is `None` exactly when `s` is, with the same text.
pub open spec fn same_text(o: Option<String>, s: Option<Seq<char>>) -> bool {
    match s {
        Some(t) => o matches Some(x) && x@ == t,
        None => o is None,
    }
}

/// The headers that a plain file `name` is served with.
pub open spec fn plain_headers_ok(res: PlainFileHeaders, name: Seq<char>) -> bool {
    let stem = stem_of(name);
    &&& same_text(res.encoding, encoding_of(name))
    &&& same_text(res.disposition, if has_suffix(stem, ".download"@) {
        Some("attachment; filename="@ + without_suffix(stem, ".download"@))
    } else {
        None
    })
    &&& res.extension@ == split_char(stem, '.').last()
    &&& same_text(res.late_encoding, encoding_of(stem))
}

/// The characters of `s` without its last `n`.
fn drop_tail(s: &[char], n: usize) -> (res: Vec<char>)
    requires
        n <= s.len(),
    ensures
        res@ == s@.take(s.len() - n),
{
    let mut out: Vec<char> = Vec::new();
    let m = s.len() - n;
    let mut i: usize = 0;
    while i < m
        invariant
            m == s.len() - n,
            m <= s.len(),
            i <= m,
            out@ == s@.take(i as int),
        decreases m - i,
    {
        out.push(s[i]);
        i = i + 1;
        assert(out@ == s@.take(i as int));
    }
    out
}

/// The encoding that a `.gz` or `.br` ending stands for.
fn encoding_for(name: &[char]) -> (res: Option<String>)
    ensures
        same_text(res, encoding_of(name@)),
{
    if ends_with_lit(name, ".gz") {
        let s = String::from_str("gzip");
        proof { reveal_strlit("gzip"); }
        Some(s)
    } else if ends_with_lit(name, ".br") {
        Some(String::from_str("br"))
    } else {
        None
    }
}

/// The headers that a plain file `name` is served with.
pub fn plain_file_headers(name: &str) -> (res: PlainFileHeaders)
    ensures
        plain_headers_ok(res, name@),
{
    let cs = chars_of(name);
    let encoding = encoding_for(cs.as_slice());
    proof {
        reveal_strlit(".gz");
        reveal_strlit(".br");
        reveal_strlit(".download");
    }
    let stem = if ends_with_lit(cs.as_slice(), ".gz") {
        drop_tail(cs.as_slice(), 3)
    } else if ends_with_lit(cs.as_slice(), ".br") {
        drop_tail(cs.as_slice(), 3)
    } else {
        cs
    };
    assert(stem@ == stem_of(name@));
    let disposition = if ends_with_lit(stem.as_slice(), ".download") {
        let base = drop_tail(stem.as_slice(), 9);
        let mut d = String::from_str("attachment; filename=");
        push_chars(&mut d, base.as_slice());
        Some(d)
    } else {
        None
    };
    let pieces = split_chars(stem.as_slice(), '.');
    let last = &pieces[pieces.len() - 1];
    let extension = string_from_chars(last.as_slice());
    let late_encoding = encoding_for(stem.as_slice());
    PlainFileHeaders { encoding, disposition, extension, late_encoding }
}

/// How many bytes a file of `len` bytes is read in: at once when it is smaller
/// than `max_read`, else in `count` chunks of `chunk` bytes and a rest of
/// `remain` bytes.
#[derive(PartialEq, Eq, Structural, Clone, Copy, Debug)]
pub enum ReadPlan {
    Whole,
    Chunked { count: u64, remain: u64 },
}

/// How a body of `len` bytes is read, given the read limit and chunk size.
pub fn read_plan(len: u64, max_read: usize, chunk: usize) -> (res: ReadPlan)
    requires
        (len as int) < (max_read as int) || chunk > 0,
    ensures
        (len as int) < (max_read as int) ==> res == ReadPlan::Whole,
        (len as int) >= (max_read as int) ==> res == (ReadPlan::Chunked {
            count: (len as int / chunk as int) as u64,
            remain: (len as int % chunk as int) as u64,
        }),
{
    if (len as u128) < (max_read as u128) {
        ReadPlan::Whole
    } else {
        let c = chunk as u64;
        ReadPlan::Chunked { count: len / c, remain: len % c }
    }
}

/// Whether a file of `len` bytes is larger than the configured limit.
pub fn file_too_big(len: u64, max_file_size: Option<usize>) -> (res: bool)
    ensures
        res == (max_file_size matches Some(m) && (len as int) > (m as int)),
{
    match max_file_size {
        Some(m) => (len as u128) > (m as u128),
        None => false,
    }
}

// ---------------------------------------------------------------------------
// Byte ranges
// ---------------------------------------------------------------------------

/// A requested range of bytes, both ends as the client wrote them.
#[derive(PartialEq, Eq, Structural, Clone, Copy, Debug)]
pub struct ByteRange {
    pub start: u64,
    pub end: u64,
}

/// The value of an unsigned 64-bit number written as `s`.
pub open spec fn parse_u64_text(s: Seq<char>) -> Option<nat> {
    parse_unsigned(s, u64::MAX as nat)
}

/// The range that one comma-separated piece `a-b` of a `Range` value asks for
/// in a file of `len` bytes: `-n` is the last `n` bytes, `a-` runs to the last
/// byte, `a-b` is taken as written; anything else is skipped (`None`).
pub open spec fn range_piece(piece: Seq<char>, len: nat) -> Option<(int, int)> {
    let r = split_char(piece, '-');
    if r.len() < 2 {
        None
    } else {
        let s = r[0];
        let e = r[1];
        if s.len() == 0 && e.len() == 0 {
            None
        } else if s.len() == 0 {
            match parse_u64_text(e) {
                Some(v) => Some((len - v, len - 1)),
                None => None,
            }
        } else if e.len() == 0 {
            match parse_u64_text(s) {
                Some(v) => Some((v as int, len - 1)),
                None => None,
            }
        } else {
            match (parse_u64_text(s), parse_u64_text(e)) {
                (Some(a), Some(b)) => Some((a as int, b as int)),
                _ => None,
            }
        }
    }
}

/// The ranges of a list of pieces, in order.
pub open spec fn pieces_ranges(pieces: Seq<Seq<char>>, len: nat) -> Seq<(int, int)>
    decreases pieces.len(),
{
    if pieces.len() == 0 {
        Seq::empty()
    } else {
        let r = pieces_ranges(pieces.drop_last(), len);
        match range_piece(pieces.last(), len) {
            Some(x) => r.push(x),
            None => r,
        }
    }
}

/// The pieces of a `Range` value: the comma-separated parts after `bytes=`;
/// a value without that prefix has none.
pub open spec fn value_pieces(v: Seq<char>) -> Seq<Seq<char>> {
    if has_prefix(v, "bytes="@) {
        split_char(v.skip(6), ',')
    } else {
        Seq::empty()
    }
}

/// The ranges of all `Range` values, in order.
pub open spec fn header_ranges(values: Seq<String>, len: nat) -> Seq<(int, int)>
    decreases values.len(),
{
    if values.len() == 0 {
        Seq::empty()
    } else {
        header_ranges(values.drop_last(), len) + pieces_ranges(value_pieces(values.last()@), len)
    }
}

/// Whether the range of a piece stays within 0 and `u64::MAX` for a file of
/// `len` bytes: the forms `-n` and `a-` count back from the file's length.
pub open spec fn piece_fits(piece: Seq<char>, len: nat) -> bool {
    match range_piece(piece, len) {
        Some((s, e)) => 0 <= s && 0 <= e,
        None => true,
    }
}

/// Every piece of every value fits.
pub open spec fn ranges_fit_spec(values: Seq<String>, len: nat) -> bool {
    forall|i: int| 0 <= i < values.len() ==>
        forall|k: int| 0 <= k < value_pieces((#[trigger] values[i])@).len() ==>
            piece_fits(#[trigger] value_pieces(values[i]@)[k], len)
}

/// The numeric view of parsed ranges.
pub open spec fn range_views(rs: Seq<ByteRange>) -> Seq<(int, int)> {
    rs.map_values(|r: ByteRange| (r.start as int, r.end as int))
}

/// Parses an unsigned 64-bit number from characters.
fn parse_piece_number(s: &[char]) -> (res: Option<u64>)
    ensures
        match res {
            Some(v) => parse_u64_text(s@) == Some(v as nat),
            None => parse_u64_text(s@) is None,
        },
{
    parse_u64_chars(s)
}

/// The range one piece asks for, if it fits.
fn piece_range(piece: &[char], len: u64) -> (res: Option<ByteRange>)
    requires
        piece_fits(piece@, len as nat),
    ensures
        match range_piece(piece@, len as nat) {
            Some((s, e)) => res matches Some(r) && r.start as int == s && r.end as int == e,
            None => res is None,
        },
{
    let r = split_chars(piece, '-');
    if r.len() < 2 {
        return None;
    }
    let s = &r[0];
    let e = &r[1];
    if s.len() == 0 && e.len() == 0 {
        None
    } else if s.len() == 0 {
        match parse_piece_number(e.as_slice()) {
            Some(v) => Some(ByteRange { start: len - v, end: len - 1 }),
            None => None,
        }
    } else if e.len() == 0 {
        match parse_piece_number(s.as_slice()) {
            Some(v) => Some(ByteRange { start: v, end: len - 1 }),
            None => None,
        }
    } else {
        match (parse_piece_number(s.as_slice()), parse_piece_number(e.as_slice())) {
            (Some(a), Some(b)) => Some(ByteRange { start: a, end: b }),
            _ => None,
        }
    }
}

/// The pieces of one `Range` value.
fn range_value_pieces(v: &str) -> (res: Vec<Vec<char>>)
    ensures
        res@.len() == value_pieces(v@).len(),
        forall|k: int| 0 <= k < res@.len() ==> (#[trigger] res@[k])@ == value_pieces(v@)[k],
{
    let cs = chars_of(v);
    let prefix = chars_of("bytes=");
    proof {
        reveal_strlit("bytes=");
    }
    if chars_has_prefix(cs.as_slice(), prefix.as_slice()) {
        let rest = drop_head(cs.as_slice(), 6);
        split_chars(rest.as_slice(), ',')
    } else {
        Vec::new()
    }
}

/// The characters of `s` after the first `n`.
fn drop_head(s: &[char], n: usize) -> (res: Vec<char>)
    requires
        n <= s.len(),
    ensures
        res@ == s@.skip(n as int),
{
    let mut out: Vec<char> = Vec::new();
    let mut i: usize = n;
    while i < s.len()
        invariant
            n <= i <= s.len(),
            out@ == s@.subrange(n as int, i as int),
        decreases s.len() - i,
    {
        out.push(s[i]);
        i = i + 1;
        assert(out@ == s@.subrange(n as int, i as int));
    }
    out
}

/// Whether every range of the `Range` values fits in 64 bits for a file of
/// `len` bytes (a suffix longer than the file, or an open range of an empty
/// file, does not).
pub fn ranges_fit(values: &[String], len: u64) -> (res: bool)
    ensures
        res == ranges_fit_spec(values@, len as nat),
{
    let mut i: usize = 0;
    while i < values.len()
        invariant
            i <= values.len(),
            forall|a: int| 0 <= a < i ==>
                forall|k: int| 0 <= k < value_pieces((#[trigger] values@[a])@).len() ==>
                    piece_fits(#[trigger] value_pieces(values@[a]@)[k], len as nat),
        decreases values.len() - i,
    {
        let pieces = range_value_pieces(values[i].as_str());
        let mut k: usize = 0;
        while k < pieces.len()
            invariant
                i < values.len(),
                k <= pieces.len(),
                pieces@.len() == value_pieces(values@[i as int]@).len(),
                forall|m: int| 0 <= m < pieces@.len() ==> (#[trigger] pieces@[m])@ == value_pieces(values@[i as int]@)[m],
                forall|m: int| 0 <= m < k ==> piece_fits(#[trigger] value_pieces(values@[i as int]@)[m], len as nat),
            decreases pieces.len() - k,
        {
            if !piece_fits_exec(pieces[k].as_slice(), len) {
                proof {
                    assert(pieces@[k as int]@ == value_pieces(values@[i as int]@)[k as int]);
                }
                return false;
            }
            k = k + 1;
        }
        i = i + 1;
    }
    true
}

/// Whether one piece fits.
fn piece_fits_exec(piece: &[char], len: u64) -> (res: bool)
    ensures
        res == piece_fits(piece@, len as nat),
{
    let r = split_chars(piece, '-');
    if r.len() < 2 {
        return true;
    }
    let s = &r[0];
    let e = &r[1];
    if s.len() == 0 && e.len() == 0 {
        true
    } else if s.len() == 0 {
        match parse_piece_number(e.as_slice()) {
            Some(v) => v <= len && len >= 1,
            None => true,
        }
    } else if e.len() == 0 {
        match parse_piece_number(s.as_slice()) {
            Some(_) => len >= 1,
            None => true,
        }
    } else {
        true
    }
}

/// The byte ranges that the `Range` header values ask for in a file of `len`
/// bytes, in order; `None` when the request has no `Range` header.
pub fn parse_ranges(values: Option<&[String]>, len: u64) -> (res: Option<Vec<ByteRange>>)
    requires
        values matches Some(vs) ==> ranges_fit_spec(vs@, len as nat),
    ensures
        match values {
            Some(vs) => res matches Some(rs) && range_views(rs@) == header_ranges(vs@, len as nat),
            None => res is None,
        },
{
    match values {
        None => None,
        Some(vs) => {
            let mut out: Vec<ByteRange> = Vec::new();
            let mut i: usize = 0;
            assert(vs@.take(0) =~= Seq::<String>::empty());
            assert(range_views(out@) =~= Seq::<(int, int)>::empty());
            while i < vs.len()
                invariant
                    i <= vs.len(),
                    ranges_fit_spec(vs@, len as nat),
                    range_views(out@) == header_ranges(vs@.take(i as int), len as nat),
                decreases vs.len() - i,
            {
                let pieces = range_value_pieces(vs[i].as_str());
                let ghost before = range_views(out@);
                let ghost vp = value_pieces(vs@[i as int]@);
                let mut k: usize = 0;
                assert(vp.take(0) =~= Seq::<Seq<char>>::empty());
                assert(before + pieces_ranges(vp.take(0), len as nat) =~= before);
                while k < pieces.len()
                    invariant
                        i < vs.len(),
                        ranges_fit_spec(vs@, len as nat),
                        vp == value_pieces(vs@[i as int]@),
                        k <= pieces.len(),
                        pieces@.len() == vp.len(),
                        forall|m: int| 0 <= m < pieces@.len() ==> (#[trigger] pieces@[m])@ == vp[m],
                        range_views(out@) == before + pieces_ranges(vp.take(k as int), len as nat),
                    decreases pieces.len() - k,
                {
                    assert(pieces@[k as int]@ == vp[k as int]);
                    assert(piece_fits(vp[k as int], len as nat));
                    let ghost t = vp.take(k + 1);
                    assert(t.drop_last() =~= vp.take(k as int));
                    assert(t.last() == vp[k as int]);
                    let ghost old_out = out@;
                    match piece_range(pieces[k].as_slice(), len) {
                        Some(r) => {
                            out.push(r);
                            proof {
                                let x = (r.start as int, r.end as int);
                                assert(range_piece(vp[k as int], len as nat) == Some(x));
                                assert(pieces_ranges(t, len as nat) == pieces_ranges(vp.take(k as int), len as nat).push(x));
                                assert(range_views(out@) =~= range_views(old_out).push(x));
                                assert(range_views(out@) =~= before + pieces_ranges(t, len as nat));
                            }
                        },
                        None => {
                            assert(range_piece(vp[k as int], len as nat) is None);
                            assert(pieces_ranges(t, len as nat) == pieces_ranges(vp.take(k as int), len as nat));
                        },
                    }
                    k = k + 1;
                }
                proof {
                    let t = vs@.take(i + 1);
                    assert(t.drop_last() =~= vs@.take(i as int));
                    assert(t.last() == vs@[i as int]);
                    assert(vp.take(vp.len() as int) =~= vp);
                }
                i = i + 1;
            }
            assert(vs@.take(vs.len() as int) =~= vs@);
            Some(out)
        },
    }
}

/// Whether a range can be served from a file of `len` bytes.
pub open spec fn satisfiable(r: ByteRange, len: u64) -> bool {
    !(r.start > r.end || r.start > len || r.end > len)
}

/// Whether a range can be served from a file of `len` bytes: its start is not
/// after its end and neither end lies past the length.
pub fn range_satisfiable(r: &ByteRange, len: u64) -> (res: bool)
    ensures
        res == satisfiable(*r, len),
{
    !(r.start > r.end || r.start > len || r.end > len)
}

/// `bytes start-end/len`, the value of `Content-Range`.
pub open spec fn content_range_text(start: u64, end: u64, len: u64) -> Seq<char> {
    "bytes "@ + decimal(start as nat) + "-"@ + decimal(end as nat) + "/"@ + decimal(len as nat)
}

/// The `Content-Range` value of a range of a file of `len` bytes.
pub fn content_range(r: &ByteRange, len: u64) -> (res: String)
    ensures
        res@ == content_range_text(r.start, r.end, len),
{
    let mut s = String::from_str("bytes ");
    push_str(&mut s, decimal_string(r.start as u128).as_str());
    push_str(&mut s, "-");
    push_str(&mut s, decimal_string(r.end as u128).as_str());
    push_str(&mut s, "/");
    push_str(&mut s, decimal_string(len as u128).as_str());
    s
}

/// The boundary between the parts of a multi-range answer.
pub open spec fn boundary_text() -> Seq<char> {
    "aGV5IGhvdyBhcmUgeW91"@
}

/// The `Content-Type` of a multi-range answer.
pub fn multipart_content_type() -> (res: String)
    ensures
        res@ == "multipart/byteranges; boundary="@ + boundary_text(),
{
    let mut s = String::from_str("multipart/byteranges; boundary=");
    push_str(&mut s, "aGV5IGhvdyBhcmUgeW91");
    s
}

/// The head of one part of a multi-range answer.
pub fn multipart_part_head(mime: &str, r: &ByteRange, len: u64) -> (res: String)
    ensures
        res@ == "--"@ + boundary_text() + "\r\nContent-Type: "@ + mime@
            + "\r\nContent-Range: "@ + content_range_text(r.start, r.end, len) + "\r\n\r\n"@,
{
    let mut s = String::from_str("--");
    push_str(&mut s, "aGV5IGhvdyBhcmUgeW91");
    push_str(&mut s, "\r\nContent-Type: ");
    push_str(&mut s, mime);
    push_str(&mut s, "\r\nContent-Range: ");
    push_str(&mut s, content_range(r, len).as_str());
    push_str(&mut s, "\r\n\r\n");
    s
}

/// The closing line of a multi-range answer.
pub fn multipart_end() -> (res: String)
    ensures
        res@ == "--"@ + boundary_text() + "--\r\n"@,
{
    let mut s = String::from_str("--");
    push_str(&mut s, "aGV5IGhvdyBhcmUgeW91");
    push_str(&mut s, "--\r\n");
    s
}

// ---------------------------------------------------------------------------
// Redirects and links
// ---------------------------------------------------------------------------

/// The status of a redirect file: the number between the last two dots of its
/// name (`to.301.redirect`), or 302 when there is none or it is not a number
/// that fits in 16 bits.
pub open spec fn redirect_status_of(name: Seq<char>) -> u16 {
    let parts = split_char(name, '.');
    if parts.len() >= 3 {
        match parse_unsigned(parts[parts.len() - 2], u16::MAX as nat) {
            Some(v) => v as u16,
            None => 302,
        }
    } else {
        302
    }
}

/// The status of the redirect file `name`.
pub fn redirect_status(name: &str) -> (res: u16)
    ensures
        res == redirect_status_of(name@),
{
    let cs = chars_of(name);
    let parts = split_chars(cs.as_slice(), '.');
    if parts.len() >= 3 {
        let p = &parts[parts.len() - 2];
        match parse_u64_chars(p.as_slice()) {
            Some(v) => {
                if v <= 65535 {
                    v as u16
                } else {
                    302
                }
            },
            None => 302,
        }
    } else {
        302
    }
}

/// The location a redirect file holds: its content without line feeds,
/// trimmed of white space.
pub fn redirect_location(content: &str) -> (res: String)
    ensures
        res@ == trimmed(replace_all(content@, seq!['\n'], Seq::empty())),
{
    let cs = chars_of(content);
    let mut nl: Vec<char> = Vec::new();
    nl.push('\n');
    let empty: Vec<char> = Vec::new();
    let joined_lines = replace_chars(cs.as_slice(), nl.as_slice(), empty.as_slice());
    let t = trim_chars(joined_lines.as_slice());
    string_from_chars(t.as_slice())
}

// ---------------------------------------------------------------------------
// Variables of template files
// ---------------------------------------------------------------------------

/// Where the request came from, as a template writes it.
pub enum ClientAddress {
    /// An address with an IP or a socket path: `%IP%` stands for this text.
    Named(String),
    /// An unnamed socket: the whole content becomes this text.
    Unnamed(String),
}

/// What the variables of a template file stand for.
pub struct TemplateVars {
    /// The request's headers, each name with its first value.
    pub headers: Vec<(String, String)>,
    pub address: ClientAddress,
    /// The client's full address.
    pub full_ip: String,
    /// The sanitised request path.
    pub path: String,
    /// The request's host (`about:blank` when it has none).
    pub host: String,
    pub is_secure: bool,
    /// The served directory.
    pub base_dir: String,
    /// The `User-Agent` (empty when there is none).
    pub user_agent: String,
    /// The domain of the host.
    pub domain: String,
    /// The protocol version.
    pub version: String,
}

/// `%` protected as `%PERCENT%` so that it survives the later replacements.
pub open spec fn escape_percent(s: Seq<char>) -> Seq<char> {
    replace_all(s, "%"@, "%PERCENT%"@)
}

/// The variable `%H-NAME%` of a header, with its name upper-cased.
pub open spec fn header_variable(name: Seq<char>) -> Seq<char> {
    "%H-"@ + unicode_uppercase(name) + "%"@
}

/// The content with every header variable replaced, headers taken in order.
pub open spec fn with_headers(content: Seq<char>, headers: Seq<(String, String)>) -> Seq<char>
    decreases headers.len(),
{
    if headers.len() == 0 {
        content
    } else {
        let c = with_headers(content, headers.drop_last());
        let (h, v) = headers.last();
        replace_all(c, header_variable(h@), escape_percent(v@))
    }
}

/// The platform named by a `User-Agent`.
pub open spec fn platform_of(user_agent: Seq<char>) -> Seq<char> {
    let ua = unicode_lowercase(user_agent);
    if contains_seq(ua, "windows"@) { "windows"@ }
    else if contains_seq(ua, "android"@) { "android"@ }
    else if contains_seq(ua, "macintosh"@) { "macos"@ }
    else if contains_seq(ua, "iphone"@) { "iphone"@ }
    else if contains_seq(ua, "ipad"@) { "ipad"@ }
    else if contains_seq(ua, "linux"@) { "linux"@ }
    else if contains_seq(ua, "curl"@) { "curl"@ }
    else { "unknown"@ }
}

/// A template's content with its variables filled in: header variables first,
/// then `%IP%`, `%FULL_IP%`, `%PATH%`, `%HOST%`, `%SCHEME%`, `%BASE_DIR%`,
/// `%USER_AGENT%`, `%PLATFORM%`, `%DOMAIN%`, `%VERSION%`, and at last
/// `%PERCENT%` back to `%`.
pub open spec fn expanded(content: Seq<char>, v: TemplateVars) -> Seq<char> {
    let c1 = with_headers(content, v.headers@);
    let c2 = match v.address {
        ClientAddress::Named(ip) => replace_all(c1, "%IP%"@, ip@),
        ClientAddress::Unnamed(all) => all@,
    };
    let c3 = replace_all(c2, "%FULL_IP%"@, v.full_ip@);
    let c4 = replace_all(c3, "%PATH%"@, escape_percent(v.path@));
    let c5 = replace_all(c4, "%HOST%"@, escape_percent(v.host@));
    let c6 = replace_all(c5, "%SCHEME%"@, scheme_text(v.is_secure));
    let c7 = replace_all(c6, "%BASE_DIR%"@, v.base_dir@);
    let c8 = replace_all(c7, "%USER_AGENT%"@, escape_percent(v.user_agent@));
    let c9 = replace_all(c8, "%PLATFORM%"@, platform_of(v.user_agent@));
    let c10 = replace_all(c9, "%DOMAIN%"@, v.domain@);
    let c11 = replace_all(c10, "%VERSION%"@, v.version@);
    replace_all(c11, "%PERCENT%"@, "%"@)
}

/// The text `%DOMAIN%`.
spec fn domain_variable() -> Seq<char> {
    "%DOMAIN%"@
}

/// Replacing a pattern that occurs nowhere changes nothing.
proof fn lemma_replace_absent(s: Seq<char>, pat: Seq<char>, rep: Seq<char>)
    requires
        pat.len() > 0,
        forall|i: int| 0 <= i < s.len() ==> !has_prefix(#[trigger] s.skip(i), pat),
    ensures
        replace_all(s, pat, rep) == s,
    decreases s.len(),
{
    if s.len() > 0 {
        assert(s.skip(0) == s);
        assert forall|i: int| 0 <= i < s.skip(1).len() implies !has_prefix(#[trigger] s.skip(1).skip(i), pat) by {
            assert(s.skip(1).skip(i) == s.skip(i + 1));
        }
        lemma_replace_absent(s.skip(1), pat, rep);
        assert(seq![s[0]] + s.skip(1) == s);
    }
}

/// A text without `%` holds no variable.
proof fn lemma_replace_in_plain(s: Seq<char>, pat: Seq<char>, rep: Seq<char>)
    requires
        pat.len() > 0,
        pat[0] == '%',
        forall|i: int| 0 <= i < s.len() ==> s[i] != '%',
    ensures
        replace_all(s, pat, rep) == s,
{
    assert forall|i: int| 0 <= i < s.len() implies !has_prefix(#[trigger] s.skip(i), pat) by {
        if has_prefix(s.skip(i), pat) {
            assert(s.skip(i).take(pat.len() as int)[0] == s[i]);
        }
    }
    lemma_replace_absent(s, pat, rep);
}

/// `%DOMAIN%` holds no variable whose second character is not `D`.
proof fn lemma_replace_in_domain_variable(pat: Seq<char>, rep: Seq<char>)
    requires
        pat.len() >= 2,
        pat[0] == '%',
        pat[1] != 'D',
    ensures
        replace_all(domain_variable(), pat, rep) == domain_variable(),
{
    reveal_strlit("%DOMAIN%");
    let s = domain_variable();
    assert forall|i: int| 0 <= i < s.len() implies !has_prefix(#[trigger] s.skip(i), pat) by {
        if has_prefix(s.skip(i), pat) {
            assert(s.skip(i).take(pat.len() as int)[0] == s[i]);
            if i == 0 {
                assert(s.skip(i).take(pat.len() as int)[1] == s[1]);
            } else if i < 7 {
                assert(s[i] != '%');
            } else {
                assert(s.skip(i).len() == 1);
            }
        }
    }
    lemma_replace_absent(s, pat, rep);
}

/// No header variable occurs in `%DOMAIN%`.
proof fn lemma_headers_in_domain_variable(headers: Seq<(String, String)>)
    ensures
        with_headers(domain_variable(), headers) == domain_variable(),
    decreases headers.len(),
{
    if headers.len() > 0 {
        lemma_headers_in_domain_variable(headers.drop_last());
        let (h, v) = headers.last();
        reveal_strlit("%H-");
        reveal_strlit("%");
        let var = header_variable(h@);
        assert(var[0] == '%' && var[1] == 'H');
        lemma_replace_in_domain_variable(var, escape_percent(v@));
    }
}

/// In a template made of `%DOMAIN%` alone, the variable becomes the domain of
/// the request's host (not the host itself), provided the domain holds no `%`
/// and the client has a named address.
pub proof fn lemma_domain_variable_is_domain(v: TemplateVars)
    requires
        v.address is Named,
        forall|i: int| 0 <= i < v.domain@.len() ==> v.domain@[i] != '%',
    ensures
        expanded("%DOMAIN%"@, v) == v.domain@,
{
    let s = domain_variable();
    reveal_strlit("%DOMAIN%");
    reveal_strlit("%IP%");
    reveal_strlit("%FULL_IP%");
    reveal_strlit("%PATH%");
    reveal_strlit("%HOST%");
    reveal_strlit("%SCHEME%");
    reveal_strlit("%BASE_DIR%");
    reveal_strlit("%USER_AGENT%");
    reveal_strlit("%PLATFORM%");
    reveal_strlit("%VERSION%");
    reveal_strlit("%PERCENT%");
    lemma_headers_in_domain_variable(v.headers@);
    let ip = match v.address { ClientAddress::Named(ip) => ip, ClientAddress::Unnamed(a) => a };
    lemma_replace_in_domain_variable("%IP%"@, ip@);
    lemma_replace_in_domain_variable("%FULL_IP%"@, v.full_ip@);
    lemma_replace_in_domain_variable("%PATH%"@, escape_percent(v.path@));
    lemma_replace_in_domain_variable("%HOST%"@, escape_percent(v.host@));
    lemma_replace_in_domain_variable("%SCHEME%"@, scheme_text(v.is_secure));
    lemma_replace_in_domain_variable("%BASE_DIR%"@, v.base_dir@);
    lemma_replace_in_domain_variable("%USER_AGENT%"@, escape_percent(v.user_agent@));
    lemma_replace_in_domain_variable("%PLATFORM%"@, platform_of(v.user_agent@));
    assert(s.take(s.len() as int) =~= s);
    assert(has_prefix(s, s));
    assert(s.skip(8).len() == 0);
    assert(replace_all(s.skip(8), s, v.domain@) == s.skip(8));
    assert(replace_all(s, s, v.domain@) =~= v.domain@);
    lemma_replace_in_plain(v.domain@, "%VERSION%"@, v.version@);
    lemma_replace_in_plain(v.domain@, "%PERCENT%"@, "%"@);
}

/// The platform named by a `User-Agent`.
pub fn platform(user_agent: &str) -> (res: String)
    ensures
        res@ == platform_of(user_agent@),
{
    let lower = str_to_lowercase(user_agent);
    let ua = chars_of(lower.as_str());
    if chars_contains(ua.as_slice(), chars_of("windows").as_slice()) { String::from_str("windows") }
    else if chars_contains(ua.as_slice(), chars_of("android").as_slice()) { String::from_str("android") }
    else if chars_contains(ua.as_slice(), chars_of("macintosh").as_slice()) { String::from_str("macos") }
    else if chars_contains(ua.as_slice(), chars_of("iphone").as_slice()) { String::from_str("iphone") }
    else if chars_contains(ua.as_slice(), chars_of("ipad").as_slice()) { String::from_str("ipad") }
    else if chars_contains(ua.as_slice(), chars_of("linux").as_slice()) { String::from_str("linux") }
    else if chars_contains(ua.as_slice(), chars_of("curl").as_slice()) { String::from_str("curl") }
    else { String::from_str("unknown") }
}

/// `s` with `%` protected as `%PERCENT%`.
fn escaped(s: &str) -> (res: String)
    ensures
        res@ == escape_percent(s@),
{
    proof { reveal_strlit("%"); }
    replace_str(s, "%", "%PERCENT%")
}

/// `replace_str` for a literal pattern.
fn replace_lit(s: &str, pat: &str, rep: &str) -> (res: String)
    requires
        pat@.len() > 0,
    ensures
        res@ == replace_all(s@, pat@, rep@),
{
    replace_str(s, pat, rep)
}

/// A template's content with its variables filled in.
pub fn expand_template(content: &str, v: &TemplateVars) -> (res: String)
    ensures
        res@ == expanded(content@, *v),
{
    let mut c = String::from_str(content);
    let mut i: usize = 0;
    assert(v.headers@.take(0) =~= Seq::<(String, String)>::empty());
    while i < v.headers.len()
        invariant
            i <= v.headers.len(),
            c@ == with_headers(content@, v.headers@.take(i as int)),
        decreases v.headers.len() - i,
    {
        let (h, val) = &v.headers[i];
        let mut var = String::from_str("%H-");
        push_str(&mut var, str_to_uppercase(h.as_str()).as_str());
        push_str(&mut var, "%");
        proof {
            reveal_strlit("%H-");
        }
        let e = escaped(val.as_str());
        c = replace_str(c.as_str(), var.as_str(), e.as_str());
        proof {
            let t = v.headers@.take(i + 1);
            assert(t.drop_last() =~= v.headers@.take(i as int));
            assert(t.last() == v.headers@[i as int]);
        }
        i = i + 1;
    }
    assert(v.headers@.take(v.headers.len() as int) =~= v.headers@);
    proof {
        reveal_strlit("%IP%");
        reveal_strlit("%FULL_IP%");
        reveal_strlit("%PATH%");
        reveal_strlit("%HOST%");
        reveal_strlit("%SCHEME%");
        reveal_strlit("%BASE_DIR%");
        reveal_strlit("%USER_AGENT%");
        reveal_strlit("%PLATFORM%");
        reveal_strlit("%DOMAIN%");
        reveal_strlit("%VERSION%");
        reveal_strlit("%PERCENT%");
    }
    c = match &v.address {
        ClientAddress::Named(ip) => replace_lit(c.as_str(), "%IP%", ip.as_str()),
        ClientAddress::Unnamed(all) => all.clone(),
    };
    c = replace_lit(c.as_str(), "%FULL_IP%", v.full_ip.as_str());
    c = replace_lit(c.as_str(), "%PATH%", escaped(v.path.as_str()).as_str());
    c = replace_lit(c.as_str(), "%HOST%", escaped(v.host.as_str()).as_str());
    let scheme = if v.is_secure { "https" } else { "http" };
    c = replace_lit(c.as_str(), "%SCHEME%", scheme);
    c = replace_lit(c.as_str(), "%BASE_DIR%", v.base_dir.as_str());
    c = replace_lit(c.as_str(), "%USER_AGENT%", escaped(v.user_agent.as_str()).as_str());
    c = replace_lit(c.as_str(), "%PLATFORM%", platform(v.user_agent.as_str()).as_str());
    c = replace_lit(c.as_str(), "%DOMAIN%", v.domain.as_str());
    c = replace_lit(c.as_str(), "%VERSION%", v.version.as_str());
    c = replace_lit(c.as_str(), "%PERCENT%", "%");
    c
}

// ---------------------------------------------------------------------------
// Directories
// ---------------------------------------------------------------------------

/// Whether a directory entry can stand for the directory `dir_name`: it is a
/// file and its name starts with the directory's name or with `index`.
pub open spec fn index_candidate(entry: (String, bool), dir_name: Seq<char>) -> bool {
    entry.1 && (has_prefix(entry.0@, dir_name) || has_prefix(entry.0@, "index"@))
}

/// Whether an entry can stand for the directory.
fn is_index_candidate(entry: &(String, bool), dir_name: &[char]) -> (res: bool)
    ensures
        res == index_candidate(*entry, dir_name@),
{
    if !entry.1 {
        return false;
    }
    let n = chars_of(entry.0.as_str());
    chars_has_prefix(n.as_slice(), dir_name) || chars_has_prefix(n.as_slice(), chars_of("index").as_slice())
}

/// Among the entries of a directory (each a name and whether it is a file),
/// the first that can stand for the directory `dir_name`.
pub fn first_index_file(entries: &[(String, bool)], dir_name: &str) -> (res: Option<usize>)
    ensures
        res matches Some(i) ==> i < entries@.len() && index_candidate(entries@[i as int], dir_name@)
            && forall|j: int| 0 <= j < i ==> !index_candidate(#[trigger] entries@[j], dir_name@),
        res is None ==> forall|j: int| 0 <= j < entries@.len() ==> !index_candidate(#[trigger] entries@[j], dir_name@),
{
    let d = chars_of(dir_name);
    let mut i: usize = 0;
    while i < entries.len()
        invariant
            i <= entries.len(),
            d@ == dir_name@,
            forall|j: int| 0 <= j < i ==> !index_candidate(#[trigger] entries@[j], dir_name@),
        decreases entries.len() - i,
    {
        if is_index_candidate(&entries[i], d.as_slice()) {
            return Some(i);
        }
        i = i + 1;
    }
    None
}

/// Among the entries of a directory, the last that can stand for the
/// directory `dir_name`.
pub fn last_index_file(entries: &[(String, bool)], dir_name: &str) -> (res: Option<usize>)
    ensures
        res matches Some(i) ==> i < entries@.len() && index_candidate(entries@[i as int], dir_name@)
            && forall|j: int| i < j < entries@.len() ==> !index_candidate(#[trigger] entries@[j], dir_name@),
        res is None ==> forall|j: int| 0 <= j < entries@.len() ==> !index_candidate(#[trigger] entries@[j], dir_name@),
{
    let d = chars_of(dir_name);
    let mut found: Option<usize> = None;
    let mut i: usize = 0;
    while i < entries.len()
        invariant
            i <= entries.len(),
            d@ == dir_name@,
            found matches Some(f) ==> f < i && index_candidate(entries@[f as int], dir_name@)
                && forall|j: int| f < j < i ==> !index_candidate(#[trigger] entries@[j], dir_name@),
            found is None ==> forall|j: int| 0 <= j < i ==> !index_candidate(#[trigger] entries@[j], dir_name@),
        decreases entries.len() - i,
    {
        if is_index_candidate(&entries[i], d.as_slice()) {
            found = Some(i);
        }
        i = i + 1;
    }
    found
}

} // verus!
