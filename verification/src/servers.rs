//! How the listeners are set up and how a connection is taken up: the
//! protocols an address may name and what each of them allows, the protocol
//! a connection is spoken in, and the timing text of answers.
use vstd::prelude::*;
use crate::settings::OneOrMany;
use crate::text::{chars_of, decimal, decimal_string, has_prefix, push_str, string_from_chars, split_char, split_chars, str_is, unicode_lowercase, str_to_lowercase};

verus! {

// ---------------------------------------------------------------------------
// Protocol versions
// ---------------------------------------------------------------------------

/// An HTTP protocol version.
#[derive(Clone, Debug)]
pub enum HttpVersion {
    Debug,
    Http09,
    Http10,
    Http11,
    Http2,
    Http3,
    Unknown(Option<String>),
}

/// `h2`.
pub open spec fn alpn_h2() -> Seq<u8> { seq![104u8, 50u8] }
/// `http/1.1`.
pub open spec fn alpn_http11() -> Seq<u8> { seq![104u8, 116u8, 116u8, 112u8, 47u8, 49u8, 46u8, 49u8] }
/// `http/1.0`.
pub open spec fn alpn_http10() -> Seq<u8> { seq![104u8, 116u8, 116u8, 112u8, 47u8, 49u8, 46u8, 48u8] }
/// `http/0.9`.
pub open spec fn alpn_http09() -> Seq<u8> { seq![104u8, 116u8, 116u8, 112u8, 47u8, 48u8, 46u8, 57u8] }

/// The version that an ALPN protocol name stands for.
pub open spec fn alpn_version(alpn: Seq<u8>) -> Option<HttpVersion> {
    if alpn == alpn_h2() {
        Some(HttpVersion::Http2)
    } else if alpn == alpn_http11() {
        Some(HttpVersion::Http11)
    } else if alpn == alpn_http10() {
        Some(HttpVersion::Http10)
    } else if alpn == alpn_http09() {
        Some(HttpVersion::Http09)
    } else {
        None
    }
}

/// Byte-wise equality.
fn bytes_eq(a: &[u8], b: &[u8]) -> (res: bool)
    ensures
        res == (a@ == b@),
{
    if a.len() != b.len() {
        return false;
    }
    let mut i: usize = 0;
    while i < a.len()
        invariant
            a.len() == b.len(),
            i <= a.len(),
            forall|j: int| 0 <= j < i ==> a@[j] == b@[j],
        decreases a.len() - i,
    {
        if a[i] != b[i] {
            return false;
        }
        i = i + 1;
    }
    assert(a@ =~= b@);
    true
}

/// The version that the ALPN protocol a TLS client chose stands for (`h2`,
/// `http/1.1`, and the unofficial `http/1.0` and `http/0.9`).
pub fn alpn_match(alpn: &[u8]) -> (res: Option<HttpVersion>)
    ensures
        res == alpn_version(alpn@),
{
    let h2: [u8; 2] = [104u8, 50u8];
    let h11: [u8; 8] = [104u8, 116u8, 116u8, 112u8, 47u8, 49u8, 46u8, 49u8];
    let h10: [u8; 8] = [104u8, 116u8, 116u8, 112u8, 47u8, 49u8, 46u8, 48u8];
    let h09: [u8; 8] = [104u8, 116u8, 116u8, 112u8, 47u8, 48u8, 46u8, 57u8];
    assert(h2@ =~= alpn_h2());
    assert(h11@ =~= alpn_http11());
    assert(h10@ =~= alpn_http10());
    assert(h09@ =~= alpn_http09());
    if bytes_eq(alpn, h2.as_slice()) {
        Some(HttpVersion::Http2)
    } else if bytes_eq(alpn, h11.as_slice()) {
        Some(HttpVersion::Http11)
    } else if bytes_eq(alpn, h10.as_slice()) {
        Some(HttpVersion::Http10)
    } else if bytes_eq(alpn, h09.as_slice()) {
        Some(HttpVersion::Http09)
    } else {
        None
    }
}

// ---------------------------------------------------------------------------
// Listeners
// ---------------------------------------------------------------------------

/// How a listener treats TLS.
#[derive(PartialEq, Eq, Structural, Clone, Copy, Debug)]
pub enum TlsMode {
    /// Plain connections only.
    Plain,
    /// Every connection starts with a TLS handshake.
    Always,
    /// A connection whose first byte opens a TLS handshake is upgraded; others
    /// stay plain.
    Detect,
}

/// What a listener allows and assumes.
#[derive(Clone, Debug)]
pub struct ListenerOptions {
    /// Whether an HTTP/1 request may upgrade to h2c.
    pub allow_h2c: bool,
    /// Whether a connection may start HTTP/2 with prior knowledge.
    pub allow_prior_knowledge: bool,
    /// The version assumed for every connection, if any.
    pub assumed: Option<HttpVersion>,
    pub tls: TlsMode,
    /// Whether the listener is a Unix socket.
    pub unix: bool,
}

/// Listener options built from their parts.
pub open spec fn opts(allow_h2c: bool, allow_prior_knowledge: bool, assumed: Option<HttpVersion>, tls: TlsMode) -> ListenerOptions {
    ListenerOptions { allow_h2c, allow_prior_knowledge, assumed, tls, unix: false }
}

/// The options that both the `address` list and `binding` entries give a
/// protocol, except for `https` (and `unix`), where they differ.
pub open spec fn common_options_of(prot: Seq<char>) -> Option<ListenerOptions> {
    if prot == "tcp"@ || prot == "http"@ { Some(opts(true, true, None, TlsMode::Plain)) }
    else if prot == "http1"@ { Some(opts(false, false, None, TlsMode::Plain)) }
    else if prot == "http1.1"@ { Some(opts(false, false, Some(HttpVersion::Http11), TlsMode::Plain)) }
    else if prot == "http1.0"@ { Some(opts(false, false, Some(HttpVersion::Http10), TlsMode::Plain)) }
    else if prot == "http0.9"@ { Some(opts(false, false, Some(HttpVersion::Http09), TlsMode::Plain)) }
    else if prot == "http2"@ { Some(opts(false, false, Some(HttpVersion::Http2), TlsMode::Plain)) }
    else if prot == "httpx"@ { Some(opts(true, true, None, TlsMode::Detect)) }
    else { None }
}

/// The options of an address of the `address` list, by its protocol: `https`
/// allows h2c, and `unix` names a Unix socket.
pub open spec fn address_options_of(prot: Seq<char>) -> Option<ListenerOptions> {
    if prot == "https"@ { Some(opts(true, false, None, TlsMode::Always)) }
    else if prot == "unix"@ { Some(ListenerOptions { allow_h2c: true, allow_prior_knowledge: true, assumed: None, tls: TlsMode::Plain, unix: true }) }
    else { common_options_of(prot) }
}

/// The options of a `binding` entry, by its protocol: `https` allows no h2c
/// here, and there is no `unix`.
pub open spec fn binding_options_of(prot: Seq<char>) -> Option<ListenerOptions> {
    if prot == "https"@ { Some(opts(false, false, None, TlsMode::Always)) }
    else { common_options_of(prot) }
}

fn make_opts(allow_h2c: bool, allow_prior_knowledge: bool, assumed: Option<HttpVersion>, tls: TlsMode) -> (res: ListenerOptions)
    ensures
        res == opts(allow_h2c, allow_prior_knowledge, assumed, tls),
{
    ListenerOptions { allow_h2c, allow_prior_knowledge, assumed, tls, unix: false }
}

/// The options shared by both tables.
fn common_options(prot: &str) -> (res: Option<ListenerOptions>)
    ensures
        res == common_options_of(prot@),
{
    if str_is(prot, "tcp") || str_is(prot, "http") {
        Some(make_opts(true, true, None, TlsMode::Plain))
    } else if str_is(prot, "http1") {
        Some(make_opts(false, false, None, TlsMode::Plain))
    } else if str_is(prot, "http1.1") {
        Some(make_opts(false, false, Some(HttpVersion::Http11), TlsMode::Plain))
    } else if str_is(prot, "http1.0") {
        Some(make_opts(false, false, Some(HttpVersion::Http10), TlsMode::Plain))
    } else if str_is(prot, "http0.9") {
        Some(make_opts(false, false, Some(HttpVersion::Http09), TlsMode::Plain))
    } else if str_is(prot, "http2") {
        Some(make_opts(false, false, Some(HttpVersion::Http2), TlsMode::Plain))
    } else if str_is(prot, "httpx") {
        Some(make_opts(true, true, None, TlsMode::Detect))
    } else {
        None
    }
}

/// The options of an address of the `address` list (or the command line).
pub fn address_options(prot: &str) -> (res: Option<ListenerOptions>)
    ensures
        res == address_options_of(prot@),
{
    if str_is(prot, "https") {
        Some(make_opts(true, false, None, TlsMode::Always))
    } else if str_is(prot, "unix") {
        Some(ListenerOptions { allow_h2c: true, allow_prior_knowledge: true, assumed: None, tls: TlsMode::Plain, unix: true })
    } else {
        common_options(prot)
    }
}

/// The options of a `binding` entry.
pub fn binding_options(prot: &str) -> (res: Option<ListenerOptions>)
    ensures
        res == binding_options_of(prot@),
{
    if str_is(prot, "https") {
        Some(make_opts(false, false, None, TlsMode::Always))
    } else {
        common_options(prot)
    }
}

/// The position of the first `://` in `s` (from `from` on), if any.
pub open spec fn scheme_end_from(s: Seq<char>, from: int) -> Option<int>
    decreases s.len() - from,
{
    if from < 0 || from + 3 > s.len() {
        None
    } else if s[from] == ':' && s[from + 1] == '/' && s[from + 2] == '/' {
        Some(from)
    } else {
        scheme_end_from(s, from + 1)
    }
}

/// An address split at its first `://`: the protocol, and the location when
/// there is a `://` at all (`splitn(2, "://")`).
pub open spec fn split_address_of(s: Seq<char>) -> (Seq<char>, Option<Seq<char>>) {
    match scheme_end_from(s, 0) {
        Some(i) => (s.take(i), Some(s.skip(i + 3))),
        None => (s, None),
    }
}

/// An address such as `https://0.0.0.0:8002` split into its protocol and its
/// location.
pub fn split_address(addr: &str) -> (res: (String, Option<String>))
    ensures
        res.0@ == split_address_of(addr@).0,
        match split_address_of(addr@).1 {
            Some(l) => res.1 matches Some(x) && x@ == l,
            None => res.1 is None,
        },
{
    let cs = chars_of(addr);
    let mut i: usize = 0;
    while cs.len() >= 3 && i <= cs.len() - 3
        invariant
            cs@ == addr@,
            i <= cs.len(),
            scheme_end_from(cs@, 0) == scheme_end_from(cs@, i as int),
        decreases cs.len() - i,
    {
        if cs[i] == ':' && cs[i + 1] == '/' && cs[i + 2] == '/' {
            let mut prot: Vec<char> = Vec::new();
            let mut k: usize = 0;
            while k < i
                invariant
                    i + 3 <= cs.len(),
                    k <= i,
                    prot@ == cs@.take(k as int),
                decreases i - k,
            {
                prot.push(cs[k]);
                k = k + 1;
                assert(prot@ == cs@.take(k as int));
            }
            let mut loc: Vec<char> = Vec::new();
            let mut m: usize = i + 3;
            while m < cs.len()
                invariant
                    i + 3 <= m <= cs.len(),
                    loc@ == cs@.subrange(i + 3, m as int),
                decreases cs.len() - m,
            {
                loc.push(cs[m]);
                m = m + 1;
                assert(loc@ == cs@.subrange(i + 3, m as int));
            }
            assert(cs@.subrange(i + 3, cs.len() as int) == cs@.skip(i + 3));
            return (string_from_chars(prot.as_slice()), Some(string_from_chars(loc.as_slice())));
        }
        i = i + 1;
    }
    assert(scheme_end_from(cs@, i as int) is None);
    (String::from_str(addr), None)
}

/// The addresses to listen on: those of the command line, then those of the
/// settings.
pub fn listen_addresses(cli: Option<&[String]>, settings: &OneOrMany<String>) -> (res: Vec<String>)
    ensures
        res@ == (match cli { Some(c) => c@, None => Seq::empty() }) + settings.items(),
{
    let mut out: Vec<String> = Vec::new();
    if let Some(c) = cli {
        let mut i: usize = 0;
        while i < c.len()
            invariant
                i <= c.len(),
                out@ == c@.take(i as int),
            decreases c.len() - i,
        {
            out.push(c[i].clone());
            i = i + 1;
            assert(out@ == c@.take(i as int));
        }
        assert(c@.take(c.len() as int) == c@);
    }
    let ghost first = out@;
    let s = settings.get();
    let mut j: usize = 0;
    while j < s.len()
        invariant
            j <= s.len(),
            out@ == first + s@.take(j as int),
        decreases s.len() - j,
    {
        out.push(s[j].clone());
        j = j + 1;
        assert(out@ =~= first + s@.take(j as int));
    }
    assert(s@.take(s.len() as int) == s@);
    out
}

/// The content handlers the server knows.
#[derive(PartialEq, Eq, Structural, Clone, Copy, Debug)]
pub enum HandlerKind {
    Debug,
    Simple,
    Samicpp,
}

/// The name of the handler: the settings' choice, else the command line's,
/// else `simple`.
pub open spec fn handler_name_of(settings: Option<Seq<char>>, cli: Option<Seq<char>>) -> Seq<char> {
    match settings {
        Some(s) => s,
        None => match cli {
            Some(c) => c,
            None => "simple"@,
        },
    }
}

/// The handler a name stands for; `debug` only where debug builds offer it.
pub open spec fn handler_kind_of(name: Seq<char>, debug_build: bool) -> Option<HandlerKind> {
    if name == "debug"@ && debug_build { Some(HandlerKind::Debug) }
    else if name == "simple"@ { Some(HandlerKind::Simple) }
    else if name == "samicpp"@ { Some(HandlerKind::Samicpp) }
    else { None }
}

/// The name of the handler to run.
pub fn handler_name(settings: Option<&str>, cli: Option<&str>) -> (res: String)
    ensures
        res@ == handler_name_of(
            match settings { Some(s) => Some(s@), None => None },
            match cli { Some(c) => Some(c@), None => None },
        ),
{
    match settings {
        Some(s) => String::from_str(s),
        None => match cli {
            Some(c) => String::from_str(c),
            None => String::from_str("simple"),
        },
    }
}

/// The handler a name stands for, or `None` when there is none of that name.
pub fn handler_kind(name: &str, debug_build: bool) -> (res: Option<HandlerKind>)
    ensures
        res == handler_kind_of(name@, debug_build),
{
    if str_is(name, "debug") && debug_build {
        Some(HandlerKind::Debug)
    } else if str_is(name, "simple") {
        Some(HandlerKind::Simple)
    } else if str_is(name, "samicpp") {
        Some(HandlerKind::Samicpp)
    } else {
        None
    }
}

/// The UTF-8 bytes of a text.
fn utf8_of(s: &str) -> (res: Vec<u8>)
    ensures
        res@ == vstd::utf8::encode_utf8(s@),
{
    let b = s.as_bytes();
    let mut out: Vec<u8> = Vec::new();
    let mut i: usize = 0;
    while i < b.len()
        invariant
            i <= b.len(),
            out@ == b@.take(i as int),
        decreases b.len() - i,
    {
        out.push(b[i]);
        i = i + 1;
        assert(out@ == b@.take(i as int));
    }
    assert(b@.take(b.len() as int) == b@);
    out
}

/// The ALPN protocols offered to TLS clients: those of the command line
/// (comma-separated) when given, else those of the settings; `None` keeps the
/// TLS library's default.
pub open spec fn alpn_list_ok(res: Option<Vec<Vec<u8>>>, cli: Option<Seq<char>>, settings: Option<Seq<String>>) -> bool {
    match cli {
        Some(c) => res matches Some(v) && v@.len() == split_char(c, ',').len()
            && forall|i: int| 0 <= i < v@.len() ==> (#[trigger] v@[i])@ == vstd::utf8::encode_utf8(split_char(c, ',')[i]),
        None => match settings {
            Some(s) => res matches Some(v) && v@.len() == s.len()
                && forall|i: int| 0 <= i < v@.len() ==> (#[trigger] v@[i])@ == vstd::utf8::encode_utf8(s[i]@),
            None => res is None,
        },
    }
}

/// The ALPN protocols to offer.
pub fn alpn_protocols(cli: Option<&str>, settings: Option<&OneOrMany<String>>) -> (res: Option<Vec<Vec<u8>>>)
    ensures
        alpn_list_ok(res, match cli { Some(c) => Some(c@), None => None },
            match settings { Some(s) => Some(s.items()), None => None }),
{
    match cli {
        Some(c) => {
            let cs = chars_of(c);
            let parts = split_chars(cs.as_slice(), ',');
            let mut out: Vec<Vec<u8>> = Vec::new();
            let mut i: usize = 0;
            while i < parts.len()
                invariant
                    cs@ == c@,
                    i <= parts.len(),
                    parts@.len() == split_char(c@, ',').len(),
                    forall|k: int| 0 <= k < parts@.len() ==> (#[trigger] parts@[k])@ == split_char(c@, ',')[k],
                    out@.len() == i,
                    forall|k: int| 0 <= k < i ==> (#[trigger] out@[k])@ == vstd::utf8::encode_utf8(split_char(c@, ',')[k]),
                decreases parts.len() - i,
            {
                let s = string_from_chars(parts[i].as_slice());
                out.push(utf8_of(s.as_str()));
                i = i + 1;
            }
            Some(out)
        },
        None => match settings {
            Some(s) => {
                let items = s.get();
                let mut out: Vec<Vec<u8>> = Vec::new();
                let mut i: usize = 0;
                while i < items.len()
                    invariant
                        i <= items.len(),
                        items@ == s.items(),
                        out@.len() == i,
                        forall|k: int| 0 <= k < i ==> (#[trigger] out@[k])@ == vstd::utf8::encode_utf8(items@[k]@),
                    decreases items.len() - i,
                {
                    out.push(utf8_of(items[i].as_str()));
                    i = i + 1;
                }
                Some(out)
            },
            None => None,
        },
    }
}

/// The listen backlog: the configured one, else 1024.
pub fn backlog_or_default(backlog: Option<u32>) -> (res: u32)
    ensures
        res == (match backlog { Some(b) => b, None => 1024 }),
{
    match backlog {
        Some(b) => b,
        None => 1024,
    }
}

// ---------------------------------------------------------------------------
// Taking up a connection
// ---------------------------------------------------------------------------

/// The family of a protocol version.
pub open spec fn is_http2(v: HttpVersion) -> bool {
    v is Http2
}

/// The first step on a new connection.
#[derive(PartialEq, Eq, Structural, Clone, Copy, Debug)]
pub enum ConnectionStart {
    /// Speak HTTP/2 from the start.
    Http2,
    /// Speak HTTP/1 and let the client upgrade to h2c.
    Http1Upgradable,
    /// Speak HTTP/1 only.
    Http1,
    /// The client sent the HTTP/2 preface: speak HTTP/2 with prior knowledge.
    PriorKnowledge,
    /// Read the request head first and decide then.
    ReadHead,
}

/// The HTTP/2 connection preface, `PRI * HTTP/2.0\r\n\r\nSM\r\n\r\n`.
pub open spec fn preface() -> Seq<u8> {
    seq![80u8, 82u8, 73u8, 32u8, 42u8, 32u8, 72u8, 84u8, 84u8, 80u8, 47u8, 50u8, 46u8, 48u8,
        13u8, 10u8, 13u8, 10u8, 83u8, 77u8, 13u8, 10u8, 13u8, 10u8]
}

/// The version a connection is taken as: the one its TLS client chose by ALPN
/// (`None` for no or an unknown choice), or for a plain connection the one the
/// listener assumes.
pub open spec fn connection_version(tls_alpn: Option<Option<Seq<u8>>>, assumed: Option<HttpVersion>) -> Option<HttpVersion> {
    match tls_alpn {
        Some(a) => alpn_version(match a { Some(b) => b, None => Seq::empty() }),
        None => assumed,
    }
}

/// How a connection starts, given its version (if known), the listener's
/// permissions and the bytes the client sent first.
pub open spec fn connection_start_of(version: Option<HttpVersion>, allow_h2c: bool, allow_prior_knowledge: bool, peek: Seq<u8>) -> ConnectionStart {
    match version {
        Some(v) => if is_http2(v) {
            ConnectionStart::Http2
        } else if allow_h2c {
            ConnectionStart::Http1Upgradable
        } else {
            ConnectionStart::Http1
        },
        None => if allow_prior_knowledge && peek == preface() {
            ConnectionStart::PriorKnowledge
        } else {
            ConnectionStart::ReadHead
        },
    }
}

/// The version a connection is taken as.
pub fn connection_version_of(tls_alpn: Option<Option<&[u8]>>, assumed: Option<HttpVersion>) -> (res: Option<HttpVersion>)
    ensures
        res == connection_version(match tls_alpn {
            Some(a) => Some(match a { Some(b) => Some(b@), None => None }),
            None => None,
        }, assumed),
{
    match tls_alpn {
        Some(a) => match a {
            Some(b) => alpn_match(b),
            None => {
                let empty: Vec<u8> = Vec::new();
                assert(empty@ =~= Seq::<u8>::empty());
                alpn_match(empty.as_slice())
            },
        },
        None => assumed,
    }
}

/// How a connection starts. HTTP/3 is not offered by any listener.
pub fn connection_start(version: &Option<HttpVersion>, allow_h2c: bool, allow_prior_knowledge: bool, peek: &[u8]) -> (res: ConnectionStart)
    requires
        *version != Some(HttpVersion::Http3),
    ensures
        res == connection_start_of(*version, allow_h2c, allow_prior_knowledge, peek@),
{
    match version {
        Some(v) => {
            if matches!(v, HttpVersion::Http2) {
                ConnectionStart::Http2
            } else if allow_h2c {
                ConnectionStart::Http1Upgradable
            } else {
                ConnectionStart::Http1
            }
        },
        None => {
            let p: [u8; 24] = [80u8, 82u8, 73u8, 32u8, 42u8, 32u8, 72u8, 84u8, 84u8, 80u8, 47u8, 50u8, 46u8, 48u8,
                13u8, 10u8, 13u8, 10u8, 83u8, 77u8, 13u8, 10u8, 13u8, 10u8];
            assert(p@ =~= preface());
            if allow_prior_knowledge && bytes_eq(peek, p.as_slice()) {
                ConnectionStart::PriorKnowledge
            } else {
                ConnectionStart::ReadHead
            }
        },
    }
}

/// Whether the first byte of a connection opens a TLS handshake (a TLS
/// record of content type 22); a listener that detects TLS upgrades exactly
/// these connections.
pub fn opens_tls_handshake(first_byte: u8) -> (res: bool)
    ensures
        res == (first_byte == 22),
{
    first_byte == 22
}

/// What follows once an HTTP/1 request head has been read.
#[derive(PartialEq, Eq, Structural, Clone, Copy, Debug)]
pub enum AfterHead {
    /// The head is the HTTP/2 preface: continue in HTTP/2.
    PriorKnowledge,
    /// Serve the request, letting it upgrade to h2c.
    Upgradable,
    /// Serve the request and close the connection.
    Close,
}

/// The request head that opens HTTP/2 with prior knowledge: method `PRI`,
/// path `*`, version `HTTP/2.0`, no headers.
pub open spec fn is_preface_head(method: Option<Seq<char>>, path: Seq<char>, version: Option<Seq<char>>, header_count: nat) -> bool {
    method == Some("PRI"@) && path == "*"@ && version == Some("HTTP/2.0"@) && header_count == 0
}

/// What follows a request head. `unknown_method` and `unknown_version` are the
/// method and version texts when the parser did not recognise them.
pub fn after_head(allow_prior_knowledge: bool, allow_h2c: bool, unknown_method: Option<&str>, path: &str, unknown_version: Option<&str>, header_count: usize) -> (res: AfterHead)
    ensures
        res == (if allow_prior_knowledge && is_preface_head(
            match unknown_method { Some(m) => Some(m@), None => None },
            path@,
            match unknown_version { Some(v) => Some(v@), None => None },
            header_count as nat,
        ) {
            AfterHead::PriorKnowledge
        } else if allow_h2c {
            AfterHead::Upgradable
        } else {
            AfterHead::Close
        }),
{
    let m_ok = match unknown_method {
        Some(m) => str_is(m, "PRI"),
        None => false,
    };
    let v_ok = match unknown_version {
        Some(v) => str_is(v, "HTTP/2.0"),
        None => false,
    };
    if allow_prior_knowledge && m_ok && str_is(path, "*") && v_ok && header_count == 0 {
        AfterHead::PriorKnowledge
    } else if allow_h2c {
        AfterHead::Upgradable
    } else {
        AfterHead::Close
    }
}

/// Whether the first `Upgrade` header value asks for h2c (compared after
/// Unicode lower-casing).
pub fn is_h2c_upgrade(upgrade: Option<&str>) -> (res: bool)
    ensures
        res == (upgrade matches Some(u) && unicode_lowercase(u@) == "h2c"@),
{
    match upgrade {
        Some(u) => {
            let l = str_to_lowercase(u);
            str_is(l.as_str(), "h2c")
        },
        None => false,
    }
}

/// The errors an HTTP/2 session can end with.
#[derive(PartialEq, Eq, Structural, Clone, Copy, Debug)]
pub enum Http2Failure {
    InvalidFrame,
    InvalidStream,
    ProtocolError,
    Huffman,
    Other,
}

/// Whether the session is closed with a GOAWAY frame: for protocol errors,
/// not for other failures.
pub fn sends_goaway(f: Http2Failure) -> (res: bool)
    ensures
        res == (f != Http2Failure::Other),
{
    match f {
        Http2Failure::Other => false,
        _ => true,
    }
}

// ---------------------------------------------------------------------------
// Timing
// ---------------------------------------------------------------------------

/// ` {value}{unit}` when `present`, nothing otherwise.
pub open spec fn segment(present: bool, value: nat, unit: Seq<char>) -> Seq<char> {
    if present { " "@ + decimal(value) + unit } else { Seq::empty() }
}

/// The text of a duration of `nanos` nanoseconds: days, then hours (marked
/// `d` as well), minutes, seconds and milliseconds where the duration reaches
/// them, then microseconds and nanoseconds.
pub open spec fn timestamp_text(nanos: nat) -> Seq<char> {
    let micros = nanos / 1000;
    let milis = micros / 1000;
    let sec = milis / 1000;
    let min = sec / 60;
    let hours = min / 60;
    let days = hours / 24;
    (if days > 0 { decimal(days) + "d"@ } else { Seq::empty() })
        + segment(hours > 0, hours % 24, "d"@)
        + segment(min > 0, min % 60, "m"@)
        + segment(sec > 0, sec % 60, "s"@)
        + segment(milis > 0, milis % 1000, "ms"@)
        + segment(true, micros % 1000, "\u{3bc}s"@)
        + segment(true, nanos % 1000, "ns"@)
}

/// Appends ` {value}{unit}` when `present`.
fn push_segment(s: &mut String, present: bool, value: u128, unit: &str)
    ensures
        final(s)@ == old(s)@ + segment(present, value as nat, unit@),
{
    if present {
        push_str(s, " ");
        let d = decimal_string(value);
        push_str(s, d.as_str());
        push_str(s, unit);
        proof {
            reveal_strlit(" ");
        }
        assert(s@ =~= old(s)@ + segment(present, value as nat, unit@));
    } else {
        assert(s@ =~= old(s)@ + segment(present, value as nat, unit@));
    }
}

/// The text of a duration given in nanoseconds.
pub fn timestamp(nanos: u128) -> (res: String)
    ensures
        res@ == timestamp_text(nanos as nat),
{
    let micros = nanos / 1_000;
    let milis = micros / 1_000;
    let sec = milis / 1_000;
    let min = sec / 60;
    let hours = min / 60;
    let days = hours / 24;

    let mut stamp = String::new();
    if days > 0 {
        let d = decimal_string(days);
        push_str(&mut stamp, d.as_str());
        push_str(&mut stamp, "d");
    }
    assert(stamp@ =~= (if days > 0 { decimal(days as nat) + "d"@ } else { Seq::<char>::empty() }));
    push_segment(&mut stamp, hours > 0, hours % 24, "d");
    push_segment(&mut stamp, min > 0, min % 60, "m");
    push_segment(&mut stamp, sec > 0, sec % 60, "s");
    push_segment(&mut stamp, milis > 0, milis % 1000, "ms");
    push_segment(&mut stamp, true, micros % 1_000, "\u{3bc}s");
    push_segment(&mut stamp, true, nanos % 1_000, "ns");
    stamp
}

} // verus!
