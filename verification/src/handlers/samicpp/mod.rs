//! The routing handler: a table of routes read from a routes file, the rules
//! by which a request picks its route, and the decisions taken for the file a
//! route leads to (access, authentication, error pages, file kinds, ranges).
use vstd::prelude::*;
use dashmap::DashMap;
use vstd::utf8::encode_utf8;
use base64::Engine;
use crate::settings::OneOrMany;
use crate::text::{
    chars_of, chars_eq_ignore_ascii_case, chars_has_suffix, eq_ignore_ascii_case,
    has_suffix, push_str, str_eq_ignore_ascii_case, str_is,
};
use crate::handlers::{joined, path_join};

pub mod files;

verus! {

// ---------------------------------------------------------------------------
// Route configuration
// ---------------------------------------------------------------------------

/// How the label of a route is compared with a request.
#[derive(PartialEq, Eq, Structural, Clone, Copy, Debug)]
pub enum MatchType {
    Always,
    Default,
    Host,
    Start,
    End,
    Regex,
    PathStart,
    Scheme,
    Protocol,
    Type,
    Domain,
}

/// One route of the routes file.
#[derive(Clone, Debug)]
pub struct RouteConfig {
    pub match_type: MatchType,
    pub directory: String,
    pub router: Option<String>,
    pub auth: Option<String>,
    pub middleware: Option<OneOrMany<String>>,
    pub allow_invalid_clients: bool,
    pub forbid: Option<String>,
    pub forbid_end: Option<OneOrMany<String>>,
    pub forbid_start: Option<OneOrMany<String>>,
    pub e400_file: Option<String>,
    pub e403_file: Option<String>,
    pub e404_file: Option<String>,
    pub e409_file: Option<String>,
    pub e416_file: Option<String>,
    pub e500_file: Option<String>,
    pub e501_file: Option<String>,
}

impl Default for RouteConfig {
    /// The route used when the routes file has no `default` entry: match by
    /// host, serve from `.`, nothing else set.
    fn default() -> (res: Self)
        ensures
            res.match_type == MatchType::Host,
            res.directory@ == seq!['.'],
            res.router is None,
            res.auth is None,
            res.middleware is None,
            !res.allow_invalid_clients,
            res.forbid is None,
            res.forbid_end is None,
            res.forbid_start is None,
            res.e400_file is None,
            res.e403_file is None,
            res.e404_file is None,
            res.e409_file is None,
            res.e416_file is None,
            res.e500_file is None,
            res.e501_file is None,
    {
        let directory = String::from_str(".");
        proof {
            reveal_strlit(".");
        }
        RouteConfig {
            match_type: MatchType::Host,
            directory,
            router: None,
            auth: None,
            middleware: None,
            allow_invalid_clients: false,
            forbid: None,
            forbid_end: None,
            forbid_start: None,
            e400_file: None,
            e403_file: None,
            e404_file: None,
            e409_file: None,
            e416_file: None,
            e500_file: None,
            e501_file: None,
        }
    }
}

/// A route under its label (the key it has in the routes file).
pub struct RouteEntry {
    pub label: String,
    pub config: RouteConfig,
}

// ---------------------------------------------------------------------------
// Trusted items of outside crates
// ---------------------------------------------------------------------------

/// What the `regex` crate answers for a pattern and a text: `None` when the
/// pattern does not compile, else whether the text has a match.
pub uninterp spec fn regex_search(pattern: Seq<char>, haystack: Seq<char>) -> Option<bool>;

/// `regex::Regex::new` followed by `Regex::is_match`: compiles `pattern` and, if
/// it compiles, tests `haystack` against it. The result is `regex_search` of the
/// two texts; nothing of the regex language itself is stated.
#[verifier::external_body]
fn regex_test(pattern: &str, haystack: &str) -> (res: Option<bool>)
    ensures
        res == regex_search(pattern@, haystack@),
{
    regex::Regex::new(pattern).ok().map(|r| r.is_match(haystack))
}

/// The registrable domain that the public suffix list gives for a host name.
pub uninterp spec fn registrable_domain(host: Seq<char>) -> Option<Seq<char>>;

/// `psl::domain`: the registrable domain of `host`, as text. The crate returns a
/// tail of the name it is given (`name.get(offset..)` in `psl-types`), so the
/// result is a suffix of `host`; which suffix is left to `registrable_domain`.
#[verifier::external_body]
fn psl_domain(host: &str) -> (res: Option<String>)
    ensures
        res matches Some(d) ==> Some(d@) == registrable_domain(host@),
        res is None ==> registrable_domain(host@) is None,
        res matches Some(d) ==> has_suffix(host@, d@),
{
    psl::domain(host.as_bytes()).map(|d| String::from_utf8_lossy(d.as_bytes()).into_owned())
}

/// What standard Base64 decoding gives for a text: `None` when it is not valid.
pub uninterp spec fn base64_standard(s: Seq<char>) -> Option<Seq<u8>>;

/// `base64::engine::general_purpose::STANDARD.decode`: the decoded bytes, or
/// `None` where the crate reports a decode error. The result is
/// `base64_standard` of the text.
#[verifier::external_body]
fn base64_decode(s: &str) -> (res: Option<Vec<u8>>)
    ensures
        res matches Some(v) ==> base64_standard(s@) == Some(v@),
        res is None ==> base64_standard(s@) is None,
{
    base64::engine::general_purpose::STANDARD.decode(s).ok()
}

/// `dashmap::DashMap`, the concurrent map that caches routes.
#[verifier::external_type_specification]
#[verifier::external_body]
#[verifier::reject_recursive_types(K)]
#[verifier::reject_recursive_types(V)]
#[verifier::reject_recursive_types(S)]
pub struct ExDashMap<K, V, S>(DashMap<K, V, S>);

/// The route cache: request keys and the index of the route of each.
pub type RouteCache = DashMap<String, u64>;

/// The entries of the route cache: a request key and the index of its route.
pub uninterp spec fn cache_contents(m: RouteCache) -> Map<Seq<char>, u64>;

/// The empty cache contents.
pub open spec fn no_entries() -> Map<Seq<char>, u64> {
    Map::empty()
}

/// `DashMap::new`: an empty map.
#[verifier::external_body]
fn cache_new() -> (res: RouteCache)
    ensures
        cache_contents(res) == no_entries(),
{
    DashMap::new()
}

/// `DashMap::get`: the value stored under `key`, if any.
#[verifier::external_body]
fn cache_get(m: &RouteCache, key: &str) -> (res: Option<u64>)
    ensures
        res == (if cache_contents(*m).dom().contains(key@) {
            Some(cache_contents(*m)[key@])
        } else {
            None
        }),
{
    m.get(key).map(|r| *r.value())
}

/// `DashMap::insert`: stores `v` under `key`, replacing what was there.
#[verifier::external_body]
fn cache_insert(m: &mut RouteCache, key: String, v: u64)
    ensures
        cache_contents(*final(m)) == cache_contents(*old(m)).insert(key@, v),
{
    m.insert(key, v);
}

// ---------------------------------------------------------------------------
// Matching a request against a route
// ---------------------------------------------------------------------------

/// `needle` starts `haystack`, up to ASCII case.
pub open spec fn ci_prefix(haystack: Seq<char>, needle: Seq<char>) -> bool {
    needle.len() <= haystack.len() && eq_ignore_ascii_case(haystack.take(needle.len() as int), needle)
}

/// `needle` ends `haystack`, up to ASCII case.
pub open spec fn ci_suffix(haystack: Seq<char>, needle: Seq<char>) -> bool {
    needle.len() <= haystack.len()
        && eq_ignore_ascii_case(haystack.skip(haystack.len() - needle.len()), needle)
}

/// Whether `haystack` starts with `needle`, ignoring ASCII case.
pub fn starts_with_case_insensitive(haystack: &str, needle: &str) -> (res: bool)
    ensures
        res == ci_prefix(haystack@, needle@),
{
    let h = chars_of(haystack);
    let n = chars_of(needle);
    if n.len() <= h.len() {
        let head = slice_prefix(h.as_slice(), n.len());
        chars_eq_ignore_ascii_case(head.as_slice(), n.as_slice())
    } else {
        false
    }
}

/// Whether `haystack` ends with `needle`, ignoring ASCII case.
pub fn ends_with_case_insensitive(haystack: &str, needle: &str) -> (res: bool)
    ensures
        res == ci_suffix(haystack@, needle@),
{
    let h = chars_of(haystack);
    let n = chars_of(needle);
    if n.len() <= h.len() {
        let tail = slice_from(h.as_slice(), h.len() - n.len());
        chars_eq_ignore_ascii_case(tail.as_slice(), n.as_slice())
    } else {
        false
    }
}

/// The first `n` characters.
fn slice_prefix(s: &[char], n: usize) -> (res: Vec<char>)
    requires
        n <= s.len(),
    ensures
        res@ == s@.take(n as int),
{
    let mut out: Vec<char> = Vec::new();
    let mut i: usize = 0;
    while i < n
        invariant
            n <= s.len(),
            i <= n,
            out@ == s@.take(i as int),
        decreases n - i,
    {
        out.push(s[i]);
        i = i + 1;
        assert(out@ == s@.take(i as int));
    }
    out
}

/// The characters from `from` on.
fn slice_from(s: &[char], from: usize) -> (res: Vec<char>)
    requires
        from <= s.len(),
    ensures
        res@ == s@.skip(from as int),
{
    let mut out: Vec<char> = Vec::new();
    let mut i: usize = from;
    while i < s.len()
        invariant
            from <= i <= s.len(),
            out@ == s@.subrange(from as int, i as int),
        decreases s.len() - i,
    {
        out.push(s[i]);
        i = i + 1;
        assert(out@ == s@.subrange(from as int, i as int));
    }
    out
}

/// The text before the first `:` (the whole text when there is none).
pub open spec fn before_colon(s: Seq<char>) -> Seq<char> {
    crate::text::take_until(s, |c: char| c == ':')
}

/// The domain of a host: the registrable domain of the host without its port,
/// or the host without its port when the public suffix list knows none.
pub open spec fn host_domain(host: Seq<char>) -> Seq<char> {
    match registrable_domain(before_colon(host)) {
        Some(d) => d,
        None => before_colon(host),
    }
}

/// The text before the first `:`.
fn text_before_colon(s: &str) -> (res: String)
    ensures
        res@ == before_colon(s@),
{
    let cs = chars_of(s);
    let ghost stop = |c: char| c == ':';
    let mut out = String::new();
    let mut i: usize = 0;
    assert(cs@.skip(0) == cs@);
    while i < cs.len()
        invariant
            i <= cs.len(),
            cs@ == s@,
            stop == (|c: char| c == ':'),
            out@ + crate::text::take_until(cs@.skip(i as int), stop) == crate::text::take_until(cs@, stop),
        decreases cs.len() - i,
    {
        let ghost rest = cs@.skip(i as int);
        if cs[i] == ':' {
            assert(crate::text::take_until(rest, stop) == Seq::<char>::empty());
            assert(out@ + Seq::<char>::empty() == out@);
            return out;
        }
        let ghost before = out@;
        crate::text::string_push(&mut out, cs[i]);
        assert(rest.skip(1) == cs@.skip(i + 1));
        assert(out@ + crate::text::take_until(cs@.skip(i + 1), stop) =~= before + crate::text::take_until(rest, stop));
        i = i + 1;
    }
    assert(cs@.skip(cs.len() as int) =~= Seq::<char>::empty());
    assert(out@ + Seq::<char>::empty() == out@);
    out
}

/// The domain of a host, as `host_domain` describes it.
pub fn domain_from_host(host: &str) -> (res: String)
    ensures
        res@ == host_domain(host@),
{
    let portless = text_before_colon(host);
    match psl_domain(portless.as_str()) {
        Some(d) => d,
        None => portless,
    }
}

/// What a route is matched against: facts about one request.
pub struct RouteRequest {
    /// The `Host` of the request (`about:blank` when it has none).
    pub host: String,
    /// `scheme://host/path` with the sanitised path.
    pub fullhost: String,
    /// The sanitised path.
    pub path: String,
    pub is_secure: bool,
    /// The protocol version as the request writes it.
    pub version: String,
    /// The kind of connection the request came on.
    pub socket_type: String,
    /// The domain of the host.
    pub domain: String,
}

/// `https` for a secure connection, `http` otherwise.
pub open spec fn scheme_text(is_secure: bool) -> Seq<char> {
    if is_secure { "https"@ } else { "http"@ }
}

/// The host a request is routed by: its `Host`, or `about:blank`.
pub open spec fn request_host(host: Option<Seq<char>>) -> Seq<char> {
    match host {
        Some(h) => h,
        None => "about:blank"@,
    }
}

/// `scheme://host` followed by the path.
pub open spec fn full_host(is_secure: bool, host: Seq<char>, path: Seq<char>) -> Seq<char> {
    scheme_text(is_secure) + "://"@ + host + path
}

/// The key under which a request's route is cached: `[version]` followed by
/// the full host.
pub open spec fn cache_key(version: Seq<char>, fullhost: Seq<char>) -> Seq<char> {
    "["@ + version + "]"@ + fullhost
}

impl RouteRequest {
    /// The facts of a request with the given `Host` (if any), sanitised path,
    /// security, version and connection kind.
    pub fn new(host: Option<&str>, path: &str, is_secure: bool, version: &str, socket_type: &str) -> (res: Self)
        ensures
            res.host@ == request_host(match host { Some(h) => Some(h@), None => None }),
            res.fullhost@ == full_host(is_secure, res.host@, path@),
            res.path@ == path@,
            res.is_secure == is_secure,
            res.version@ == version@,
            res.socket_type@ == socket_type@,
            res.domain@ == host_domain(res.host@),
    {
        let h = match host {
            Some(h) => String::from_str(h),
            None => String::from_str("about:blank"),
        };
        let mut full = if is_secure { String::from_str("https") } else { String::from_str("http") };
        push_str(&mut full, "://");
        push_str(&mut full, h.as_str());
        push_str(&mut full, path);
        let domain = domain_from_host(h.as_str());
        RouteRequest {
            host: h,
            fullhost: full,
            path: String::from_str(path),
            is_secure,
            version: String::from_str(version),
            socket_type: String::from_str(socket_type),
            domain,
        }
    }

    /// The key under which this request's route is cached.
    pub fn cache_key(&self) -> (res: String)
        ensures
            res@ == cache_key(self.version@, self.fullhost@),
    {
        let mut k = String::from_str("[");
        push_str(&mut k, self.version.as_str());
        push_str(&mut k, "]");
        push_str(&mut k, self.fullhost.as_str());
        k
    }
}

/// Whether a route with the given kind and label matches a request.
pub open spec fn label_matches(kind: MatchType, label: Seq<char>, req: RouteRequest) -> bool {
    match kind {
        MatchType::Always => true,
        MatchType::Default => false,
        MatchType::Host => eq_ignore_ascii_case(req.host@, label),
        MatchType::Start => ci_prefix(req.fullhost@, label),
        MatchType::End => ci_suffix(req.fullhost@, label),
        MatchType::Regex => regex_search(label, req.fullhost@) == Some(true),
        MatchType::PathStart => ci_prefix(req.path@, label),
        MatchType::Scheme => (req.is_secure && eq_ignore_ascii_case(label, "https"@))
            || (!req.is_secure && eq_ignore_ascii_case(label, "http"@)),
        MatchType::Protocol => eq_ignore_ascii_case(req.version@, label),
        MatchType::Type => eq_ignore_ascii_case(req.socket_type@, label),
        MatchType::Domain => eq_ignore_ascii_case(req.domain@, label),
    }
}

/// Whether route `e` matches request `req`.
pub open spec fn entry_matches(e: RouteEntry, req: RouteRequest) -> bool {
    label_matches(e.config.match_type, e.label@, req)
}

/// Whether a route with the given kind and label matches a request; a
/// `regex` route compiles its label and tests the full host with it.
pub fn route_matches(kind: MatchType, label: &str, req: &RouteRequest) -> (res: bool)
    ensures
        res == label_matches(kind, label@, *req),
{
    match kind {
        MatchType::Always => true,
        MatchType::Default => false,
        MatchType::Host => str_eq_ignore_ascii_case(req.host.as_str(), label),
        MatchType::Start => starts_with_case_insensitive(req.fullhost.as_str(), label),
        MatchType::End => ends_with_case_insensitive(req.fullhost.as_str(), label),
        MatchType::Regex => match regex_test(label, req.fullhost.as_str()) {
            Some(b) => b,
            None => false,
        },
        MatchType::PathStart => starts_with_case_insensitive(req.path.as_str(), label),
        MatchType::Scheme => {
            (req.is_secure && str_eq_ignore_ascii_case(label, "https"))
                || (!req.is_secure && str_eq_ignore_ascii_case(label, "http"))
        },
        MatchType::Protocol => str_eq_ignore_ascii_case(req.version.as_str(), label),
        MatchType::Type => str_eq_ignore_ascii_case(req.socket_type.as_str(), label),
        MatchType::Domain => str_eq_ignore_ascii_case(req.domain.as_str(), label),
    }
}

/// The index of the first route from `start` on that matches, if any.
pub open spec fn first_match_from(routes: Seq<RouteEntry>, req: RouteRequest, start: int) -> Option<usize>
    decreases routes.len() - start,
{
    if start < 0 || start >= routes.len() {
        None
    } else if entry_matches(routes[start], req) {
        Some(start as usize)
    } else {
        first_match_from(routes, req, start + 1)
    }
}

/// The index of the first route that matches, if any.
pub open spec fn first_match(routes: Seq<RouteEntry>, req: RouteRequest) -> Option<usize> {
    first_match_from(routes, req, 0)
}

/// What `first_match_from` gives: the earliest matching index from `start`
/// on, or `None` when no route from there matches.
pub proof fn lemma_first_match_from(routes: Seq<RouteEntry>, req: RouteRequest, start: int)
    requires
        0 <= start,
        routes.len() <= usize::MAX,
    ensures
        first_match_from(routes, req, start) matches Some(i) ==> start <= i < routes.len()
            && entry_matches(routes[i as int], req)
            && forall|j: int| start <= j < i ==> !entry_matches(#[trigger] routes[j], req),
        first_match_from(routes, req, start) is None ==>
            forall|j: int| start <= j < routes.len() ==> !entry_matches(#[trigger] routes[j], req),
    decreases routes.len() - start,
{
    if start < routes.len() && !entry_matches(routes[start], req) {
        lemma_first_match_from(routes, req, start + 1);
    }
}

/// Among routes in the given order, the first one that matches the request.
pub fn select_route(routes: &[RouteEntry], req: &RouteRequest) -> (res: Option<usize>)
    ensures
        res == first_match(routes@, *req),
        res matches Some(i) ==> i < routes@.len() && entry_matches(routes@[i as int], *req)
            && forall|j: int| 0 <= j < i ==> !entry_matches(#[trigger] routes@[j], *req),
        res is None ==> forall|j: int| 0 <= j < routes@.len() ==> !entry_matches(#[trigger] routes@[j], *req),
{
    let n = routes.len();
    let mut i: usize = 0;
    while i < routes.len()
        invariant
            i <= routes.len(),
            n == routes@.len(),
            first_match(routes@, *req) == first_match_from(routes@, *req, i as int),
        decreases routes.len() - i,
    {
        if route_matches(routes[i].config.match_type, routes[i].label.as_str(), req) {
            assert(entry_matches(routes@[i as int], *req));
            assert(first_match_from(routes@, *req, i as int) == Some(i));
            proof {
                lemma_first_match_from(routes@, *req, 0);
            }
            return Some(i);
        }
        i = i + 1;
    }
    proof {
        lemma_first_match_from(routes@, *req, 0);
    }
    None
}

// ---------------------------------------------------------------------------
// The route table
// ---------------------------------------------------------------------------

/// The routes of the routes file, in a fixed order, with a cache from request
/// keys to the index of the route each request was given.
pub struct RouteTable {
    routes: Vec<RouteEntry>,
    cache: RouteCache,
}

/// The index of the first route from `start` on labelled `default`, if any.
pub open spec fn default_index_from(routes: Seq<RouteEntry>, start: int) -> Option<usize>
    decreases routes.len() - start,
{
    if start < 0 || start >= routes.len() {
        None
    } else if routes[start].label@ == "default"@ {
        Some(start as usize)
    } else {
        default_index_from(routes, start + 1)
    }
}

/// The index of the first route labelled `default`, if any.
pub open spec fn default_index(routes: Seq<RouteEntry>) -> Option<usize> {
    default_index_from(routes, 0)
}

proof fn lemma_default_index_from(routes: Seq<RouteEntry>, start: int)
    requires
        0 <= start,
        routes.len() <= usize::MAX,
    ensures
        default_index_from(routes, start) matches Some(i) ==> start <= i < routes.len(),
    decreases routes.len() - start,
{
    if start < routes.len() && routes[start].label@ != "default"@ {
        lemma_default_index_from(routes, start + 1);
    }
}

/// The first route labelled `default`.
fn find_default(routes: &[RouteEntry]) -> (res: Option<usize>)
    ensures
        res == default_index(routes@),
{
    let mut i: usize = 0;
    while i < routes.len()
        invariant
            i <= routes.len(),
            default_index(routes@) == default_index_from(routes@, i as int),
        decreases routes.len() - i,
    {
        if str_is(routes[i].label.as_str(), "default") {
            return Some(i);
        }
        i = i + 1;
    }
    None
}

/// The cache right after the routes are (re)loaded: only the `default` entry.
pub open spec fn fresh_cache(routes: Seq<RouteEntry>) -> Map<Seq<char>, u64> {
    match default_index(routes) {
        Some(i) => Map::<Seq<char>, u64>::empty().insert("default"@, i as u64),
        None => Map::<Seq<char>, u64>::empty(),
    }
}

/// The route index that a lookup of `key` for `req` gives: the cached one when
/// the key is cached, else the first matching route.
pub open spec fn lookup_result(routes: Seq<RouteEntry>, cache: Map<Seq<char>, u64>, key: Seq<char>, req: RouteRequest) -> Option<usize> {
    if cache.dom().contains(key) {
        Some(cache[key] as usize)
    } else {
        first_match(routes, req)
    }
}

/// The cache after such a lookup: a freshly found route is remembered under
/// the key.
pub open spec fn lookup_cache(routes: Seq<RouteEntry>, cache: Map<Seq<char>, u64>, key: Seq<char>, req: RouteRequest) -> Map<Seq<char>, u64> {
    if cache.dom().contains(key) {
        cache
    } else {
        match first_match(routes, req) {
            Some(i) => cache.insert(key, i as u64),
            None => cache,
        }
    }
}

impl RouteTable {
    /// Every cached index names a route.
    #[verifier::type_invariant]
    spec fn inv(self) -> bool {
        forall|k: Seq<char>| #[trigger] cache_contents(self.cache).dom().contains(k)
            ==> (cache_contents(self.cache)[k] as int) < self.routes@.len()
    }

    /// The routes, in order.
    pub closed spec fn routes_view(self) -> Seq<RouteEntry> {
        self.routes@
    }

    /// The cached request keys and their route indexes.
    pub closed spec fn cache_view(self) -> Map<Seq<char>, u64> {
        cache_contents(self.cache)
    }

    /// A table without routes.
    pub fn new() -> (res: Self)
        ensures
            res.routes_view().len() == 0,
            res.cache_view() == Map::<Seq<char>, u64>::empty(),
    {
        RouteTable { routes: Vec::new(), cache: cache_new() }
    }

    /// Replaces the routes with freshly loaded ones; the cache then holds only
    /// the `default` route, if there is one.
    pub fn replace_routes(&mut self, routes: Vec<RouteEntry>)
        ensures
            final(self).routes_view() == routes@,
            final(self).cache_view() == fresh_cache(routes@),
    {
        let n = routes.len();
        proof {
            lemma_default_index_from(routes@, 0);
        }
        let mut cache = cache_new();
        match find_default(routes.as_slice()) {
            Some(i) => cache_insert(&mut cache, String::from_str("default"), i as u64),
            None => {},
        }
        proof {
            reveal_strlit("default");
        }
        *self = RouteTable { routes, cache };
    }

    /// The number of routes.
    pub fn len(&self) -> (res: usize)
        ensures
            res == self.routes_view().len(),
    {
        self.routes.len()
    }

    /// Route `i`.
    pub fn route(&self, i: usize) -> (res: &RouteEntry)
        requires
            i < self.routes_view().len(),
        ensures
            *res == self.routes_view()[i as int],
    {
        &self.routes[i]
    }

    /// The index of the `default` route, as the cache holds it.
    pub fn default_route(&self) -> (res: Option<usize>)
        ensures
            res == (if self.cache_view().dom().contains("default"@) {
                Some(self.cache_view()["default"@] as usize)
            } else {
                None
            }),
            res matches Some(i) ==> i < self.routes_view().len(),
    {
        proof {
            use_type_invariant(self);
        }
        match cache_get(&self.cache, "default") {
            Some(i) => Some(i as usize),
            None => None,
        }
    }

    /// The route of request `req` cached under `key`: the cached route when
    /// there is one, else the first matching route, which is then cached.
    pub fn route_for(&mut self, key: &str, req: &RouteRequest) -> (res: Option<usize>)
        ensures
            res == lookup_result(old(self).routes_view(), old(self).cache_view(), key@, *req),
            final(self).cache_view() == lookup_cache(old(self).routes_view(), old(self).cache_view(), key@, *req),
            final(self).routes_view() == old(self).routes_view(),
            res matches Some(i) ==> i < final(self).routes_view().len(),
    {
        proof {
            use_type_invariant(&*self);
        }
        match cache_get(&self.cache, key) {
            Some(i) => Some(i as usize),
            None => {
                let found = select_route(self.routes.as_slice(), req);
                match found {
                    Some(i) => {
                        let mut cache = cache_new();
                        std::mem::swap(&mut cache, &mut self.cache);
                        cache_insert(&mut cache, String::from_str(key), i as u64);
                        let mut routes: Vec<RouteEntry> = Vec::new();
                        std::mem::swap(&mut routes, &mut self.routes);
                        *self = RouteTable { routes, cache };
                    },
                    None => {},
                }
                found
            },
        }
    }
}

impl RouteTable {
    /// The route a request is served by: its own route (cached or found as
    /// `route_for` does), else the `default` route as the cache held it before
    /// the lookup; `None` means the built-in `RouteConfig::default()`.
    pub fn choose_route(&mut self, key: &str, req: &RouteRequest) -> (res: Option<usize>)
        ensures
            res == (match lookup_result(old(self).routes_view(), old(self).cache_view(), key@, *req) {
                Some(i) => Some(i),
                None => if old(self).cache_view().dom().contains("default"@) {
                    Some(old(self).cache_view()["default"@] as usize)
                } else {
                    None
                },
            }),
            final(self).cache_view() == lookup_cache(old(self).routes_view(), old(self).cache_view(), key@, *req),
            final(self).routes_view() == old(self).routes_view(),
            res matches Some(i) ==> i < final(self).routes_view().len(),
    {
        let default = self.default_route();
        match self.route_for(key, req) {
            Some(i) => Some(i),
            None => default,
        }
    }
}

/// Once a request key has been given a route, every later lookup of that key
/// gives the same route, whatever request it comes with, until the routes are
/// replaced.
pub proof fn lemma_cached_route_sticks(
    routes: Seq<RouteEntry>,
    cache: Map<Seq<char>, u64>,
    key: Seq<char>,
    first: RouteRequest,
    later: RouteRequest,
)
    requires
        routes.len() <= usize::MAX,
        forall|k: Seq<char>| #[trigger] cache.dom().contains(k) ==> (cache[k] as int) < routes.len(),
    ensures
        lookup_result(routes, cache, key, first) matches Some(i) ==> {
            let c1 = lookup_cache(routes, cache, key, first);
            &&& lookup_result(routes, c1, key, later) == Some(i)
            &&& lookup_cache(routes, c1, key, later) == c1
        },
{
    lemma_first_match_from(routes, first, 0);
}

/// A lookup never picks a route that does not match when it is not cached,
/// and the route it picks is the earliest matching one.
pub proof fn lemma_fresh_lookup_is_first_match(routes: Seq<RouteEntry>, cache: Map<Seq<char>, u64>, key: Seq<char>, req: RouteRequest)
    requires
        routes.len() <= usize::MAX,
        !cache.dom().contains(key),
    ensures
        lookup_result(routes, cache, key, req) matches Some(i) ==> i < routes.len()
            && entry_matches(routes[i as int], req)
            && forall|j: int| 0 <= j < i ==> !entry_matches(#[trigger] routes[j], req),
{
    lemma_first_match_from(routes, req, 0);
}

// ---------------------------------------------------------------------------
// Access to a route
// ---------------------------------------------------------------------------

/// The text after the last space (all of it when there is no space).
pub open spec fn last_word(s: Seq<char>) -> Seq<char>
    decreases s.len(),
{
    if s.len() == 0 {
        s
    } else if s.last() == ' ' {
        Seq::empty()
    } else {
        last_word(s.drop_last()).push(s.last())
    }
}

/// Whether the `Authorization` value proves the credentials `usrpass`: its last
/// word decodes, as standard Base64, to the UTF-8 bytes of `usrpass`.
pub open spec fn authorized(header: Option<Seq<char>>, usrpass: Seq<char>) -> bool {
    match header {
        Some(h) => base64_standard(last_word(h)) == Some(encode_utf8(usrpass)),
        None => false,
    }
}

/// The text after the last space.
fn last_word_of(s: &str) -> (res: String)
    ensures
        res@ == last_word(s@),
{
    let cs = chars_of(s);
    let mut start: usize = cs.len();
    assert(cs@.take(cs.len() as int) == cs@);
    assert(cs@.skip(cs.len() as int) =~= Seq::<char>::empty());
    assert(last_word(s@) + Seq::<char>::empty() == last_word(s@));
    while start > 0 && cs[start - 1] != ' '
        invariant
            start <= cs.len(),
            cs@ == s@,
            last_word(s@) == last_word(cs@.take(start as int)) + cs@.skip(start as int),
        decreases start,
    {
        let ghost t = cs@.take(start as int);
        assert(t.drop_last() == cs@.take(start - 1));
        assert(t.last() == cs@[start - 1]);
        assert(cs@.skip(start - 1) =~= seq![cs@[start - 1]] + cs@.skip(start as int));
        assert(last_word(t) == last_word(t.drop_last()).push(t.last()));
        assert(last_word(t) + cs@.skip(start as int) =~= last_word(cs@.take(start - 1)) + cs@.skip(start - 1));
        start = start - 1;
    }
    proof {
        let t = cs@.take(start as int);
        if start > 0 {
            assert(t.last() == ' ');
        }
        assert(last_word(t) =~= Seq::<char>::empty());
        assert(Seq::<char>::empty() + cs@.skip(start as int) =~= cs@.skip(start as int));
    }
    let tail = slice_from(cs.as_slice(), start);
    crate::text::string_from_chars(tail.as_slice())
}

/// Whether the value of the first `Authorization` header (if any) proves the
/// credentials `usrpass` of a route.
pub fn authorization_matches(header: Option<&str>, usrpass: &str) -> (res: bool)
    ensures
        res == authorized(match header { Some(h) => Some(h@), None => None }, usrpass@),
{
    match header {
        None => false,
        Some(h) => {
            let word = last_word_of(h);
            match base64_decode(word.as_str()) {
                None => false,
                Some(bytes) => {
                    let expected = usrpass.as_bytes();
                    bytes_eq(bytes.as_slice(), expected)
                },
            }
        },
    }
}

/// Byte-wise equality.
fn bytes_eq(a: &[u8], b: &[u8]) -> (res: bool)
    ensures
        res == (a@ == b@),
{
    if a.len() != b.len() {
        return false;
    }
    let mut i: usize = 0;
    while i < a.len()
        invariant
            a.len() == b.len(),
            i <= a.len(),
            forall|j: int| 0 <= j < i ==> a@[j] == b@[j],
        decreases a.len() - i,
    {
        if a[i] != b[i] {
            return false;
        }
        i = i + 1;
    }
    assert(a@ =~= b@);
    true
}

/// The `WWW-Authenticate` value sent with a 401 answer.
pub open spec fn www_authenticate(realm: Seq<char>) -> Seq<char> {
    "Basic realm=\""@ + realm + "\", charset=\"UTF-8\""@
}

/// The `WWW-Authenticate` value sent with a 401 answer for `realm`.
pub fn www_authenticate_value(realm: &str) -> (res: String)
    ensures
        res@ == www_authenticate(realm@),
{
    let mut s = String::from_str("Basic realm=\"");
    push_str(&mut s, realm);
    push_str(&mut s, "\", charset=\"UTF-8\"");
    s
}

/// What the handler does with a request once its route is known.
pub enum RequestPlan {
    /// The client's request was malformed and the route refuses such clients:
    /// answer 400.
    RejectInvalid,
    /// The route asks for credentials that the request does not prove: answer
    /// 401 with the given `WWW-Authenticate` value.
    Unauthorized(String),
    /// Run the route's router file at this path for the file at `target`.
    Router { router: String, target: String },
    /// Serve the directory or file at this path.
    Serve(String),
}

/// `directory` of the route inside the served directory.
pub open spec fn route_base(serve_dir: Seq<char>, directory: Seq<char>) -> Seq<char> {
    joined(serve_dir, directory)
}

/// The plan for a request: first the client's validity, then the route's
/// credentials, then the router (if the route has one) or the file itself.
pub open spec fn request_plan_ok(
    plan: RequestPlan,
    serve_dir: Seq<char>,
    route: RouteConfig,
    path: Seq<char>,
    client_valid: bool,
    authorization: Option<Seq<char>>,
    fullhost: Seq<char>,
) -> bool {
    let base = route_base(serve_dir, route.directory@);
    if !client_valid && !route.allow_invalid_clients {
        plan is RejectInvalid
    } else if route.auth is Some && !authorized(authorization, route.auth.unwrap()@) {
        plan matches RequestPlan::Unauthorized(v) && v@ == www_authenticate(fullhost)
    } else {
        match route.router {
            Some(r) => plan matches RequestPlan::Router { router, target }
                && router@ == joined(base, r@) && target@ == joined(base, path),
            None => plan matches RequestPlan::Serve(p) && p@ == joined(base, path),
        }
    }
}

/// Decides what to do with a request once its route is known.
pub fn plan_request(
    serve_dir: &str,
    route: &RouteConfig,
    path: &str,
    client_valid: bool,
    authorization: Option<&str>,
    fullhost: &str,
) -> (res: RequestPlan)
    ensures
        request_plan_ok(res, serve_dir@, *route, path@, client_valid,
            match authorization { Some(a) => Some(a@), None => None }, fullhost@),
{
    let base = path_join(serve_dir, route.directory.as_str());
    if !client_valid && !route.allow_invalid_clients {
        return RequestPlan::RejectInvalid;
    }
    if let Some(usrpass) = &route.auth {
        if !authorization_matches(authorization, usrpass.as_str()) {
            return RequestPlan::Unauthorized(www_authenticate_value(fullhost));
        }
    }
    match &route.router {
        Some(r) => RequestPlan::Router {
            router: path_join(base.as_str(), r.as_str()),
            target: path_join(base.as_str(), path),
        },
        None => RequestPlan::Serve(path_join(base.as_str(), path)),
    }
}

/// The routes file of a handler: `routes_name` (or `routes.json`) inside the
/// served directory; a name given on the command line comes first.
pub fn routes_path(serve_dir: &str, cli_routes: Option<&str>, routes_name: Option<&str>) -> (res: String)
    ensures
        res@ == joined(serve_dir@, match cli_routes {
            Some(r) => r@,
            None => match routes_name {
                Some(n) => n@,
                None => "routes.json"@,
            },
        }),
{
    match cli_routes {
        Some(r) => path_join(serve_dir, r),
        None => match routes_name {
            Some(n) => path_join(serve_dir, n),
            None => path_join(serve_dir, "routes.json"),
        },
    }
}

} // verus!
