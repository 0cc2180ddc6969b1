//! L7 routing with path, method and header matching.
//!
//! A router holds its routes ordered by priority — exact path rules first,
//! then prefix rules, then regular-expression rules, each group in the order
//! the routes were added — and answers a request with the first enabled route
//! whose conditions all hold, or with its default upstream.

use crate::headers::{header_get, value_text, value_to_text, RequestHeaders};
use crate::text::{chars_of, contains, owned, seq_contains, seq_starts_with, starts_with, str_eq, string_from_chars, occurs_at};
use std::collections::HashMap;
use vstd::prelude::*;
use vstd::utf8::encode_utf8;

verus! {

broadcast use vstd::string::group_string_axioms;

/// The outcome of compiling `pattern` with `regex::Regex::new` and, when it
/// compiles, testing `text` against it with `Regex::is_match`: `None` when
/// the pattern does not compile.
pub uninterp spec fn regex_outcome(pattern: Seq<char>, text: Seq<char>) -> Option<bool>;

/// Calls `regex::Regex::new(pattern)` and, on success, `Regex::is_match(text)`.
/// The contract only names the outcome: it depends on the pattern and the
/// text alone, and what it is for given values is left to the regex crate.
#[verifier::external_body]
fn regex_is_match(pattern: &str, text: &str) -> (r: Option<bool>)
    ensures
        r == regex_outcome(pattern@, text@),
{
    match regex::Regex::new(pattern) {
        Ok(re) => Some(re.is_match(text)),
        Err(_) => None,
    }
}

/// Whether a regular-expression condition holds, given the outcome of the
/// regex test: it holds only when the pattern compiled and matched.
pub fn regex_verdict(outcome: Option<bool>) -> (r: bool)
    ensures
        r == (outcome == Some(true)),
{
    match outcome {
        Some(b) => b,
        None => false,
    }
}

/// Route matching priority (higher is evaluated first).
#[derive(Debug, Clone, Copy, PartialEq, Eq, Structural)]
pub enum RoutePriority {
    /// Exact match routes (highest priority).
    Exact,
    /// Prefix match routes.
    Prefix,
    /// Regex match routes.
    Regex,
    /// Default/catch-all routes (lowest priority).
    Default,
}

impl RoutePriority {
    /// The numeric rank of a priority.
    pub open spec fn rank(self) -> u32 {
        match self {
            RoutePriority::Exact => 100,
            RoutePriority::Prefix => 50,
            RoutePriority::Regex => 25,
            RoutePriority::Default => 0,
        }
    }

    /// The numeric rank: 100, 50, 25 and 0.
    pub fn value(&self) -> (v: u32)
        ensures
            v == self.rank(),
    {
        match self {
            RoutePriority::Exact => 100,
            RoutePriority::Prefix => 50,
            RoutePriority::Regex => 25,
            RoutePriority::Default => 0,
        }
    }
}

/// Condition on a header, as text.
pub enum HeaderMatchView {
    Exact { name: Seq<char>, value: Seq<char> },
    Contains { name: Seq<char>, value: Seq<char> },
    Regex { name: Seq<char>, pattern: Seq<char> },
    Present { name: Seq<char> },
    Absent { name: Seq<char> },
}

/// Condition for matching a header.
#[derive(Debug)]
pub enum HeaderMatch {
    /// Header must have exactly this value.
    Exact { name: String, value: String },
    /// Header must contain this substring.
    Contains { name: String, value: String },
    /// Header must match this regex pattern.
    Regex { name: String, pattern: String },
    /// Header must be present (any value).
    Present { name: String },
    /// Header must be absent.
    Absent { name: String },
}

impl View for HeaderMatch {
    type V = HeaderMatchView;

    open spec fn view(&self) -> HeaderMatchView {
        match self {
            HeaderMatch::Exact { name, value } => HeaderMatchView::Exact {
                name: name@,
                value: value@,
            },
            HeaderMatch::Contains { name, value } => HeaderMatchView::Contains {
                name: name@,
                value: value@,
            },
            HeaderMatch::Regex { name, pattern } => HeaderMatchView::Regex {
                name: name@,
                pattern: pattern@,
            },
            HeaderMatch::Present { name } => HeaderMatchView::Present { name: name@ },
            HeaderMatch::Absent { name } => HeaderMatchView::Absent { name: name@ },
        }
    }
}

impl Clone for HeaderMatch {
    fn clone(&self) -> (r: Self)
        ensures
            r@ == self@,
    {
        match self {
            HeaderMatch::Exact { name, value } => HeaderMatch::Exact {
                name: name.clone(),
                value: value.clone(),
            },
            HeaderMatch::Contains { name, value } => HeaderMatch::Contains {
                name: name.clone(),
                value: value.clone(),
            },
            HeaderMatch::Regex { name, pattern } => HeaderMatch::Regex {
                name: name.clone(),
                pattern: pattern.clone(),
            },
            HeaderMatch::Present { name } => HeaderMatch::Present { name: name.clone() },
            HeaderMatch::Absent { name } => HeaderMatch::Absent { name: name.clone() },
        }
    }
}

/// Whether a header condition holds of the request headers `h`.
pub open spec fn header_match_holds(m: HeaderMatchView, h: Seq<(Seq<char>, Seq<u8>)>) -> bool {
    match m {
        HeaderMatchView::Exact { name, value } => header_get(h, name) == Some(encode_utf8(value)),
        HeaderMatchView::Contains { name, value } => match header_get(h, name) {
            Some(v) => match value_text(v) {
                Some(t) => seq_contains(t, value),
                None => false,
            },
            None => false,
        },
        HeaderMatchView::Regex { name, pattern } => match header_get(h, name) {
            Some(v) => match value_text(v) {
                Some(t) => regex_outcome(pattern, t) == Some(true),
                None => false,
            },
            None => false,
        },
        HeaderMatchView::Present { name } => header_get(h, name) is Some,
        HeaderMatchView::Absent { name } => header_get(h, name) is None,
    }
}

/// A `Contains` header condition holds exactly when the header is present,
/// its value is text, and the given string occurs in that text at some
/// position (anywhere, not only at its start).
pub proof fn lemma_contains_condition(name: Seq<char>, value: Seq<char>, h: Seq<(Seq<char>, Seq<u8>)>)
    ensures
        header_match_holds(HeaderMatchView::Contains { name, value }, h) == (match header_get(h, name) {
            Some(v) => match value_text(v) {
                Some(t) => exists|i: int|
                    0 <= i && i + value.len() <= t.len() && #[trigger] t.subrange(i, i + value.len())
                        == value,
                None => false,
            },
            None => false,
        }),
{
    if let Some(v) = header_get(h, name) {
        if let Some(t) = value_text(v) {
            if seq_contains(t, value) {
                let i = choose|i: int| #[trigger] occurs_at(t, value, i);
                assert(t.subrange(i, i + value.len()) == value);
            }
            if exists|i: int| 0 <= i && i + value.len() <= t.len() && #[trigger] t.subrange(i, i + value.len()) == value {
                let i = choose|i: int| 0 <= i && i + value.len() <= t.len() && #[trigger] t.subrange(i, i + value.len()) == value;
                assert(occurs_at(t, value, i));
            }
        }
    }
}

/// Whether two byte sequences are equal.
fn bytes_eq(a: &Vec<u8>, b: &[u8]) -> (r: bool)
    ensures
        r == (a@ == b@),
{
    if a.len() != b.len() {
        return false;
    }
    let mut i: usize = 0;
    while i < a.len()
        invariant
            a@.len() == b@.len(),
            i <= a@.len(),
            forall|k: int| 0 <= k < i ==> a@[k] == b@[k],
        decreases a@.len() - i,
    {
        if a[i] != b[i] {
            return false;
        }
        i = i + 1;
    }
    assert(a@ =~= b@);
    true
}

impl HeaderMatch {
    /// Creates an exact header match.
    pub fn exact(name: &str, value: &str) -> (m: Self)
        ensures
            m@ == (HeaderMatchView::Exact { name: name@, value: value@ }),
    {
        HeaderMatch::Exact { name: owned(name), value: owned(value) }
    }

    /// Creates a header presence check.
    pub fn present(name: &str) -> (m: Self)
        ensures
            m@ == (HeaderMatchView::Present { name: name@ }),
    {
        HeaderMatch::Present { name: owned(name) }
    }

    /// Creates a header absence check.
    pub fn absent(name: &str) -> (m: Self)
        ensures
            m@ == (HeaderMatchView::Absent { name: name@ }),
    {
        HeaderMatch::Absent { name: owned(name) }
    }

    /// Checks if the header condition holds.
    pub fn matches(&self, headers: &RequestHeaders) -> (r: bool)
        ensures
            r == header_match_holds(self@, headers.view()),
    {
        match self {
            HeaderMatch::Exact { name, value } => match headers.get(name.as_str()) {
                Some(v) => bytes_eq(&v, value.as_str().as_bytes()),
                None => false,
            },
            HeaderMatch::Contains { name, value } => match headers.get(name.as_str()) {
                Some(v) => match value_to_text(&v) {
                    Some(t) => {
                        let tc = chars_of(t.as_str());
                        let vc = chars_of(value.as_str());
                        contains(&tc, &vc)
                    },
                    None => false,
                },
                None => false,
            },
            HeaderMatch::Regex { name, pattern } => match headers.get(name.as_str()) {
                Some(v) => match value_to_text(&v) {
                    Some(t) => regex_verdict(regex_is_match(pattern.as_str(), t.as_str())),
                    None => false,
                },
                None => false,
            },
            HeaderMatch::Present { name } => headers.contains_key(name.as_str()),
            HeaderMatch::Absent { name } => !headers.contains_key(name.as_str()),
        }
    }
}

/// Condition on a path, as text.
pub enum PathMatchView {
    Exact(Seq<char>),
    Prefix(Seq<char>),
    Regex(Seq<char>),
}

/// Condition for matching a request path.
#[derive(Debug)]
pub enum PathMatch {
    /// Path must be exactly this value.
    Exact { path: String },
    /// Path must start with this prefix.
    Prefix { prefix: String },
    /// Path must match this regex pattern.
    Regex { pattern: String },
}

impl View for PathMatch {
    type V = PathMatchView;

    open spec fn view(&self) -> PathMatchView {
        match self {
            PathMatch::Exact { path } => PathMatchView::Exact(path@),
            PathMatch::Prefix { prefix } => PathMatchView::Prefix(prefix@),
            PathMatch::Regex { pattern } => PathMatchView::Regex(pattern@),
        }
    }
}

impl Clone for PathMatch {
    fn clone(&self) -> (r: Self)
        ensures
            r@ == self@,
    {
        match self {
            PathMatch::Exact { path } => PathMatch::Exact { path: path.clone() },
            PathMatch::Prefix { prefix } => PathMatch::Prefix { prefix: prefix.clone() },
            PathMatch::Regex { pattern } => PathMatch::Regex { pattern: pattern.clone() },
        }
    }
}

/// Whether a path condition holds of `path`.
pub open spec fn path_match_holds(m: PathMatchView, path: Seq<char>) -> bool {
    match m {
        PathMatchView::Exact(expected) => path == expected,
        PathMatchView::Prefix(prefix) => seq_starts_with(path, prefix),
        PathMatchView::Regex(pattern) => regex_outcome(pattern, path) == Some(true),
    }
}

/// The priority of a path condition.
pub open spec fn path_priority(m: PathMatchView) -> RoutePriority {
    match m {
        PathMatchView::Exact(_) => RoutePriority::Exact,
        PathMatchView::Prefix(_) => RoutePriority::Prefix,
        PathMatchView::Regex(_) => RoutePriority::Regex,
    }
}

impl PathMatch {
    /// Creates an exact path match.
    pub fn exact(path: &str) -> (m: Self)
        ensures
            m@ == PathMatchView::Exact(path@),
    {
        PathMatch::Exact { path: owned(path) }
    }

    /// Creates a prefix path match.
    pub fn prefix(prefix: &str) -> (m: Self)
        ensures
            m@ == PathMatchView::Prefix(prefix@),
    {
        PathMatch::Prefix { prefix: owned(prefix) }
    }

    /// Creates a regex path match.
    pub fn regex(pattern: &str) -> (m: Self)
        ensures
            m@ == PathMatchView::Regex(pattern@),
    {
        PathMatch::Regex { pattern: owned(pattern) }
    }

    /// Checks if the path matches.
    pub fn matches(&self, path: &str) -> (r: bool)
        ensures
            r == path_match_holds(self@, path@),
    {
        match self {
            PathMatch::Exact { path: expected } => str_eq(path, expected.as_str()),
            PathMatch::Prefix { prefix } => {
                let pc = chars_of(path);
                let xc = chars_of(prefix.as_str());
                starts_with(&pc, &xc)
            },
            PathMatch::Regex { pattern } => regex_verdict(regex_is_match(pattern.as_str(), path)),
        }
    }

    /// Returns the priority for this match type.
    pub fn priority(&self) -> (p: RoutePriority)
        ensures
            p == path_priority(self@),
    {
        match self {
            PathMatch::Exact { .. } => RoutePriority::Exact,
            PathMatch::Prefix { .. } => RoutePriority::Prefix,
            PathMatch::Regex { .. } => RoutePriority::Regex,
        }
    }
}

/// Condition for matching the HTTP method.
#[derive(Debug, Clone, Copy, PartialEq, Eq, Structural)]
pub enum MethodMatch {
    Get,
    Post,
    Put,
    Delete,
    Patch,
    Head,
    Options,
    Any,
}

impl Default for MethodMatch {
    fn default() -> (m: Self)
        ensures
            m == MethodMatch::Any,
    {
        MethodMatch::Any
    }
}

/// Whether a method condition holds of the method named `method`.
pub open spec fn method_match_holds(m: MethodMatch, method: Seq<char>) -> bool {
    match m {
        MethodMatch::Any => true,
        MethodMatch::Get => method == "GET"@,
        MethodMatch::Post => method == "POST"@,
        MethodMatch::Put => method == "PUT"@,
        MethodMatch::Delete => method == "DELETE"@,
        MethodMatch::Patch => method == "PATCH"@,
        MethodMatch::Head => method == "HEAD"@,
        MethodMatch::Options => method == "OPTIONS"@,
    }
}

impl MethodMatch {
    /// Checks if the method (by its name, such as `GET`) matches.
    pub fn matches(&self, method: &str) -> (r: bool)
        ensures
            r == method_match_holds(*self, method@),
    {
        match self {
            MethodMatch::Any => true,
            MethodMatch::Get => str_eq(method, "GET"),
            MethodMatch::Post => str_eq(method, "POST"),
            MethodMatch::Put => str_eq(method, "PUT"),
            MethodMatch::Delete => str_eq(method, "DELETE"),
            MethodMatch::Patch => str_eq(method, "PATCH"),
            MethodMatch::Head => str_eq(method, "HEAD"),
            MethodMatch::Options => str_eq(method, "OPTIONS"),
        }
    }
}

/// A routing rule, as text.
pub struct RouteView {
    pub name: Seq<char>,
    pub path: PathMatchView,
    pub method: MethodMatch,
    pub headers: Seq<HeaderMatchView>,
    pub upstream: Seq<char>,
    pub weight: u32,
    pub enabled: bool,
    pub timeout_ms: Option<u64>,
    pub rewrite: Option<Seq<char>>,
}

/// A single routing rule.
#[derive(Debug)]
pub struct Route {
    /// Unique name for this route.
    pub name: String,
    /// Path matching condition.
    pub path: PathMatch,
    /// HTTP method matching (defaults to Any).
    pub method: MethodMatch,
    /// Header matching conditions (all must match).
    pub headers: Vec<HeaderMatch>,
    /// Target upstream cluster name.
    pub upstream: String,
    /// Weight for load balancing (when multiple routes match).
    pub weight: u32,
    /// Whether this route is enabled.
    pub enabled: bool,
    /// Request timeout override for this route.
    pub timeout_ms: Option<u64>,
    /// Path rewrite (replace matched path with this).
    pub rewrite: Option<String>,
}

/// The views of a sequence of header conditions.
pub open spec fn header_views(hs: Seq<HeaderMatch>) -> Seq<HeaderMatchView> {
    hs.map_values(|h: HeaderMatch| h@)
}

/// The view of an optional string.
pub open spec fn opt_view(o: Option<String>) -> Option<Seq<char>> {
    match o {
        Some(s) => Some(s@),
        None => None,
    }
}

impl View for Route {
    type V = RouteView;

    open spec fn view(&self) -> RouteView {
        RouteView {
            name: self.name@,
            path: self.path@,
            method: self.method,
            headers: header_views(self.headers@),
            upstream: self.upstream@,
            weight: self.weight,
            enabled: self.enabled,
            timeout_ms: self.timeout_ms,
            rewrite: opt_view(self.rewrite),
        }
    }
}

fn clone_opt_string(o: &Option<String>) -> (r: Option<String>)
    ensures
        opt_view(r) == opt_view(*o),
{
    match o {
        Some(s) => Some(s.clone()),
        None => None,
    }
}

fn clone_headers(hs: &Vec<HeaderMatch>) -> (r: Vec<HeaderMatch>)
    ensures
        header_views(r@) == header_views(hs@),
{
    let mut r: Vec<HeaderMatch> = Vec::new();
    let mut i: usize = 0;
    while i < hs.len()
        invariant
            i <= hs@.len(),
            header_views(r@) == header_views(hs@.take(i as int)),
        decreases hs@.len() - i,
    {
        let c = hs[i].clone();
        assert(c@ == hs@[i as int]@);
        let ghost before = r@;
        r.push(c);
        assert(r@ =~= before.push(c));
        assert(hs@.take(i + 1) =~= hs@.take(i as int).push(hs@[i as int]));
        assert(header_views(r@) =~= header_views(before).push(c@));
        assert(header_views(hs@.take(i + 1)) =~= header_views(hs@.take(i as int)).push(
            hs@[i as int]@,
        ));
        i = i + 1;
    }
    assert(hs@.take(i as int) =~= hs@);
    r
}

impl Clone for Route {
    fn clone(&self) -> (r: Self)
        ensures
            r@ == self@,
    {
        Route {
            name: self.name.clone(),
            path: self.path.clone(),
            method: self.method,
            headers: clone_headers(&self.headers),
            upstream: self.upstream.clone(),
            weight: self.weight,
            enabled: self.enabled,
            timeout_ms: self.timeout_ms,
            rewrite: clone_opt_string(&self.rewrite),
        }
    }
}

/// Whether a route answers a request with method `method`, path `path` and
/// headers `h`: it is enabled and all of its conditions hold.
pub open spec fn route_matches(
    r: RouteView,
    method: Seq<char>,
    path: Seq<char>,
    h: Seq<(Seq<char>, Seq<u8>)>,
) -> bool {
    &&& r.enabled
    &&& method_match_holds(r.method, method)
    &&& path_match_holds(r.path, path)
    &&& forall|i: int| 0 <= i < r.headers.len() ==> header_match_holds(#[trigger] r.headers[i], h)
}

/// The route a fresh `Route::new(name, path, upstream)` describes.
pub open spec fn new_route_view(name: Seq<char>, path: PathMatchView, upstream: Seq<char>) -> RouteView {
    RouteView {
        name,
        path,
        method: MethodMatch::Any,
        headers: Seq::empty(),
        upstream,
        weight: 100,
        enabled: true,
        timeout_ms: None,
        rewrite: None,
    }
}

impl Route {
    /// Creates a new enabled route for any method, with weight 100 and no
    /// header conditions, timeout or rewrite.
    pub fn new(name: &str, path: PathMatch, upstream: &str) -> (r: Self)
        ensures
            r@ == new_route_view(name@, path@, upstream@),
    {
        let r = Route {
            name: owned(name),
            path,
            method: MethodMatch::Any,
            headers: Vec::new(),
            upstream: owned(upstream),
            weight: 100,
            enabled: true,
            timeout_ms: None,
            rewrite: None,
        };
        assert(header_views(r.headers@) =~= Seq::<HeaderMatchView>::empty());
        r
    }

    /// Sets the HTTP method for this route.
    pub fn with_method(self, method: MethodMatch) -> (r: Self)
        ensures
            r@ == (RouteView { method, ..self@ }),
    {
        let mut r = self;
        r.method = method;
        r
    }

    /// Adds a header match condition.
    pub fn with_header(self, header: HeaderMatch) -> (r: Self)
        ensures
            r@ == (RouteView { headers: self@.headers.push(header@), ..self@ }),
    {
        let mut r = self;
        let ghost old_headers = r.headers@;
        r.headers.push(header);
        assert(header_views(r.headers@) =~= header_views(old_headers).push(header@));
        r
    }

    /// Sets the weight for this route.
    pub fn with_weight(self, weight: u32) -> (r: Self)
        ensures
            r@ == (RouteView { weight, ..self@ }),
    {
        let mut r = self;
        r.weight = weight;
        r
    }

    /// Sets a timeout override.
    pub fn with_timeout(self, timeout_ms: u64) -> (r: Self)
        ensures
            r@ == (RouteView { timeout_ms: Some(timeout_ms), ..self@ }),
    {
        let mut r = self;
        r.timeout_ms = Some(timeout_ms);
        r
    }

    /// Sets a path rewrite rule.
    pub fn with_rewrite(self, rewrite: &str) -> (r: Self)
        ensures
            r@ == (RouteView { rewrite: Some(rewrite@), ..self@ }),
    {
        let mut r = self;
        r.rewrite = Some(owned(rewrite));
        r
    }

    /// Checks if this route matches the request.
    pub fn matches(&self, method: &str, path: &str, headers: &RequestHeaders) -> (r: bool)
        ensures
            r == route_matches(self@, method@, path@, headers.view()),
    {
        if !self.enabled {
            return false;
        }
        if !self.method.matches(method) {
            return false;
        }
        if !self.path.matches(path) {
            return false;
        }
        let mut i: usize = 0;
        while i < self.headers.len()
            invariant
                i <= self.headers@.len(),
                forall|k: int|
                    0 <= k < i ==> header_match_holds(
                        #[trigger] header_views(self.headers@)[k],
                        headers.view(),
                    ),
            decreases self.headers@.len() - i,
        {
            if !self.headers[i].matches(headers) {
                assert(header_views(self.headers@)[i as int] == self.headers@[i as int]@);
                assert(!header_match_holds(header_views(self.headers@)[i as int], headers.view()));
                assert(self@.headers == header_views(self.headers@));
                return false;
            }
            i = i + 1;
        }
        true
    }

    /// Returns the priority of this route.
    pub fn priority(&self) -> (p: RoutePriority)
        ensures
            p == path_priority(self@.path),
    {
        self.path.priority()
    }
}

/// Selects the routes whose path condition has priority `p`.
pub open spec fn priority_class(p: RoutePriority) -> spec_fn(Route) -> bool {
    |r: Route| path_priority(r@.path) == p
}

/// `s` stably sorted by priority, highest first: the exact-path routes in
/// their order in `s`, then the prefix routes, then the regex routes.
pub open spec fn sorted_routes(s: Seq<Route>) -> Seq<Route> {
    s.filter(priority_class(RoutePriority::Exact)) + s.filter(priority_class(RoutePriority::Prefix))
        + s.filter(priority_class(RoutePriority::Regex))
}

/// Whether no route in `s` has a lower priority than a route after it.
pub open spec fn priority_ordered(s: Seq<Route>) -> bool {
    forall|i: int, j: int|
        0 <= i < j < s.len() ==> path_priority(#[trigger] s[i]@.path).rank() >= path_priority(
            #[trigger] s[j]@.path,
        ).rank()
}

/// The position of the first route in `s`, from position `k` on, that
/// answers the request.
pub open spec fn first_match_from(
    s: Seq<Route>,
    k: int,
    method: Seq<char>,
    path: Seq<char>,
    h: Seq<(Seq<char>, Seq<u8>)>,
) -> Option<int>
    decreases s.len() - k,
{
    if k < 0 || k >= s.len() {
        None
    } else if route_matches(s[k]@, method, path, h) {
        Some(k)
    } else {
        first_match_from(s, k + 1, method, path, h)
    }
}

/// The position of the first route view in `vs`, from position `k` on,
/// that answers the request.
pub open spec fn first_match_view(
    vs: Seq<RouteView>,
    k: int,
    method: Seq<char>,
    path: Seq<char>,
    h: Seq<(Seq<char>, Seq<u8>)>,
) -> Option<int>
    decreases vs.len() - k,
{
    if k < 0 || k >= vs.len() {
        None
    } else if route_matches(vs[k], method, path, h) {
        Some(k)
    } else {
        first_match_view(vs, k + 1, method, path, h)
    }
}

/// The answer of a router whose routes, in the order they are tried, have
/// the views `vs` and whose default upstream is `default`: the route chosen
/// and the rewritten path, or `None`.
pub open spec fn router_answer(
    vs: Seq<RouteView>,
    default: Option<Seq<char>>,
    method: Seq<char>,
    path: Seq<char>,
    h: Seq<(Seq<char>, Seq<u8>)>,
) -> Option<(RouteView, Option<Seq<char>>)> {
    match first_match_view(vs, 0, method, path, h) {
        Some(i) => Some((vs[i], rewritten_path(vs[i], path))),
        None => match default {
            Some(u) => Some((default_route_view(u), None)),
            None => None,
        },
    }
}

/// Finding the first match only depends on the views of the routes.
pub proof fn lemma_first_match_views(
    s: Seq<Route>,
    k: int,
    method: Seq<char>,
    path: Seq<char>,
    h: Seq<(Seq<char>, Seq<u8>)>,
)
    ensures
        first_match_from(s, k, method, path, h) == first_match_view(route_views(s), k, method, path, h),
    decreases s.len() - k,
{
    if 0 <= k < s.len() {
        lemma_first_match_views(s, k + 1, method, path, h);
    }
}

/// What the first match is: a matching position from `k` on with no match
/// between `k` and it, or no match at all from `k` on.
pub proof fn lemma_first_match_view_meaning(
    vs: Seq<RouteView>,
    k: int,
    method: Seq<char>,
    path: Seq<char>,
    h: Seq<(Seq<char>, Seq<u8>)>,
)
    requires
        0 <= k,
    ensures
        first_match_view(vs, k, method, path, h) matches Some(i) ==> k <= i < vs.len()
            && route_matches(vs[i], method, path, h) && forall|j: int|
            k <= j < i ==> !route_matches(#[trigger] vs[j], method, path, h),
        first_match_view(vs, k, method, path, h) is None ==> forall|j: int|
            k <= j < vs.len() ==> !route_matches(#[trigger] vs[j], method, path, h),
    decreases vs.len() - k,
{
    if k < vs.len() {
        lemma_first_match_view_meaning(vs, k + 1, method, path, h);
    }
}

/// The answer of a route lookup, as route view and rewritten path.
pub open spec fn answer_view(r: Option<RouteMatch>) -> Option<(RouteView, Option<Seq<char>>)> {
    match r {
        Some(m) => Some((m.route@, opt_view(m.rewritten_path))),
        None => None,
    }
}

/// The first position, from `k` on, where `t` occurs in `s`.
pub open spec fn first_occurrence_from(s: Seq<char>, t: Seq<char>, k: int) -> Option<int>
    decreases s.len() + 1 - k,
{
    if k < 0 || k + t.len() > s.len() {
        None
    } else if occurs_at(s, t, k) {
        Some(k)
    } else {
        first_occurrence_from(s, t, k + 1)
    }
}

/// `s` with its first occurrence of `t` replaced by `r` (unchanged when `t`
/// does not occur), as `str::replacen(t, r, 1)` computes it.
pub open spec fn replace_first(s: Seq<char>, t: Seq<char>, r: Seq<char>) -> Seq<char> {
    match first_occurrence_from(s, t, 0) {
        Some(i) => s.subrange(0, i) + r + s.subrange(i + t.len(), s.len() as int),
        None => s,
    }
}

/// The rewritten path for a request on `path` answered by route `r`: a
/// prefix route replaces its prefix with the rewrite, any other route
/// replaces the whole path.
pub open spec fn rewritten_path(r: RouteView, path: Seq<char>) -> Option<Seq<char>> {
    match r.rewrite {
        None => None,
        Some(rw) => match r.path {
            PathMatchView::Prefix(prefix) => Some(replace_first(path, prefix, rw)),
            _ => Some(rw),
        },
    }
}

/// The route used for requests that match no rule, when a default upstream
/// is set.
pub open spec fn default_route_view(upstream: Seq<char>) -> RouteView {
    new_route_view("default"@, PathMatchView::Prefix("/"@), upstream)
}

/// The position of the first route in `s`, from position `k` on, with the
/// given name.
pub open spec fn first_named_from(s: Seq<Route>, k: int, name: Seq<char>) -> Option<int>
    decreases s.len() - k,
{
    if k < 0 || k >= s.len() {
        None
    } else if s[k]@.name == name {
        Some(k)
    } else {
        first_named_from(s, k + 1, name)
    }
}

/// Result of a route match.
#[derive(Debug)]
pub struct RouteMatch {
    /// The matched route.
    pub route: Route,
    /// Rewritten path (if applicable).
    pub rewritten_path: Option<String>,
}

/// Stably sorts routes by priority, highest first.
fn sort_by_priority(routes: Vec<Route>) -> (r: Vec<Route>)
    ensures
        r@ == sorted_routes(routes@),
{
    let ghost orig = routes@;
    let ghost pe = priority_class(RoutePriority::Exact);
    let ghost pp = priority_class(RoutePriority::Prefix);
    let ghost pr = priority_class(RoutePriority::Regex);
    let mut rest = routes;
    let mut exact: Vec<Route> = Vec::new();
    let mut prefix: Vec<Route> = Vec::new();
    let mut regex: Vec<Route> = Vec::new();
    let n = rest.len();
    let mut i: usize = 0;
    while i < n
        invariant
            n == orig.len(),
            i <= n,
            rest@ == orig.subrange(i as int, n as int),
            pe == priority_class(RoutePriority::Exact),
            pp == priority_class(RoutePriority::Prefix),
            pr == priority_class(RoutePriority::Regex),
            exact@ == orig.take(i as int).filter(pe),
            prefix@ == orig.take(i as int).filter(pp),
            regex@ == orig.take(i as int).filter(pr),
        decreases n - i,
    {
        let r = rest.remove(0);
        assert(r == orig[i as int]);
        assert(rest@ =~= orig.subrange(i + 1, n as int));
        assert(orig.take(i + 1) =~= orig.take(i as int).push(r));
        proof {
            orig.take(i as int).lemma_filter_push(r, pe);
            orig.take(i as int).lemma_filter_push(r, pp);
            orig.take(i as int).lemma_filter_push(r, pr);
        }
        match r.priority() {
            RoutePriority::Exact => exact.push(r),
            RoutePriority::Prefix => prefix.push(r),
            _ => regex.push(r),
        }
        i = i + 1;
    }
    assert(orig.take(n as int) =~= orig);
    exact.append(&mut prefix);
    exact.append(&mut regex);
    exact
}

/// Every route sorted by [`sorted_routes`] comes before every route of lower
/// priority: the sorted routes are in priority order.
pub proof fn lemma_sorted_routes_ordered(s: Seq<Route>)
    ensures
        priority_ordered(sorted_routes(s)),
{
    let pe = priority_class(RoutePriority::Exact);
    let pp = priority_class(RoutePriority::Prefix);
    let pr = priority_class(RoutePriority::Regex);
    let e = s.filter(pe);
    let p = s.filter(pp);
    let r = s.filter(pr);
    let t = sorted_routes(s);
    assert forall|i: int| 0 <= i < e.len() implies path_priority(#[trigger] e[i]@.path)
        == RoutePriority::Exact by {
        s.lemma_filter_pred(pe, i);
    }
    assert forall|i: int| 0 <= i < p.len() implies path_priority(#[trigger] p[i]@.path)
        == RoutePriority::Prefix by {
        s.lemma_filter_pred(pp, i);
    }
    assert forall|i: int| 0 <= i < r.len() implies path_priority(#[trigger] r[i]@.path)
        == RoutePriority::Regex by {
        s.lemma_filter_pred(pr, i);
    }
    assert forall|i: int, j: int| 0 <= i < j < t.len() implies path_priority(
        #[trigger] t[i]@.path,
    ).rank() >= path_priority(#[trigger] t[j]@.path).rank() by {
        if i < e.len() {
        } else if i < e.len() + p.len() {
            assert(t[i] == p[i - e.len()]);
            if j < e.len() + p.len() {
                assert(t[j] == p[j - e.len()]);
            } else {
                assert(t[j] == r[j - e.len() - p.len()]);
            }
        } else {
            assert(t[i] == r[i - e.len() - p.len()]);
            assert(t[j] == r[j - e.len() - p.len()]);
        }
    }
}

/// Every route of `s` appears in the sorted routes as often as in `s`, and
/// no other route does: sorting only reorders.
pub proof fn lemma_sorted_routes_permutes(s: Seq<Route>)
    ensures
        sorted_routes(s).to_multiset() == s.to_multiset(),
    decreases s.len(),
{
    broadcast use vstd::seq_lib::group_to_multiset_ensures;

    let pe = priority_class(RoutePriority::Exact);
    let pp = priority_class(RoutePriority::Prefix);
    let pr = priority_class(RoutePriority::Regex);
    if s.len() == 0 {
        reveal(Seq::filter);
        assert(sorted_routes(s) =~= s);
    } else {
        let t = s.drop_last();
        let x = s.last();
        assert(s =~= t.push(x));
        lemma_sorted_routes_permutes(t);
        t.lemma_filter_push(x, pe);
        t.lemma_filter_push(x, pp);
        t.lemma_filter_push(x, pr);
        let (e, p, r) = (t.filter(pe), t.filter(pp), t.filter(pr));
        vstd::seq_lib::lemma_multiset_commutative(e, p);
        vstd::seq_lib::lemma_multiset_commutative(e + p, r);
        if pe(x) {
            vstd::seq_lib::lemma_multiset_commutative(e.push(x), p);
            vstd::seq_lib::lemma_multiset_commutative(e.push(x) + p, r);
            assert(e.push(x).to_multiset() == e.to_multiset().insert(x));
        } else if pp(x) {
            vstd::seq_lib::lemma_multiset_commutative(e, p.push(x));
            vstd::seq_lib::lemma_multiset_commutative(e + p.push(x), r);
            assert(p.push(x).to_multiset() == p.to_multiset().insert(x));
        } else {
            assert(pr(x));
            vstd::seq_lib::lemma_multiset_commutative(e + p, r.push(x));
            assert(r.push(x).to_multiset() == r.to_multiset().insert(x));
        }
        assert(sorted_routes(s).to_multiset() =~= s.to_multiset());
    }
}

/// Router for L7 traffic routing.
pub struct Router {
    routes: Vec<Route>,
    default_upstream: Option<String>,
}

impl Router {
    #[verifier::type_invariant]
    closed spec fn inv(self) -> bool {
        priority_ordered(self.routes@)
    }

    /// The routes, in the order they are tried.
    pub closed spec fn route_list(&self) -> Seq<Route> {
        self.routes@
    }

    /// The upstream used when no route matches.
    pub closed spec fn default_upstream_view(&self) -> Option<Seq<char>> {
        opt_view(self.default_upstream)
    }

    /// Creates a new router with no routes.
    pub fn new() -> (r: Self)
        ensures
            r.route_list() == Seq::<Route>::empty(),
            r.default_upstream_view() is None,
    {
        Router { routes: Vec::new(), default_upstream: None }
    }

    /// Creates a router with the given routes, sorted by priority.
    pub fn with_routes(routes: Vec<Route>) -> (r: Self)
        ensures
            r.route_list() == sorted_routes(routes@),
            priority_ordered(r.route_list()),
            r.default_upstream_view() is None,
    {
        let sorted = sort_by_priority(routes);
        proof {
            lemma_sorted_routes_ordered(routes@);
        }
        Router { routes: sorted, default_upstream: None }
    }

    /// Sets the default upstream for unmatched requests.
    pub fn with_default_upstream(self, upstream: &str) -> (r: Self)
        ensures
            r.route_list() == self.route_list(),
            r.default_upstream_view() == Some(upstream@),
    {
        proof {
            use_type_invariant(&self);
        }
        Router { routes: self.routes, default_upstream: Some(owned(upstream)) }
    }

    /// Adds a route, keeping the routes sorted by priority.
    pub fn add_route(&mut self, route: Route)
        ensures
            final(self).route_list() == sorted_routes(old(self).route_list().push(route)),
            priority_ordered(final(self).route_list()),
            final(self).default_upstream_view() == old(self).default_upstream_view(),
    {
        let mut routes: Vec<Route> = Vec::new();
        std::mem::swap(&mut routes, &mut self.routes);
        routes.push(route);
        let ghost pushed = routes@;
        let sorted = sort_by_priority(routes);
        proof {
            lemma_sorted_routes_ordered(pushed);
        }
        self.routes = sorted;
    }

    /// Removes the first route with the given name and returns it.
    pub fn remove_route(&mut self, name: &str) -> (removed: Option<Route>)
        ensures
            match first_named_from(old(self).route_list(), 0, name@) {
                Some(i) => removed == Some(old(self).route_list()[i]) && final(self).route_list()
                    == old(self).route_list().remove(i),
                None => removed is None && final(self).route_list() == old(self).route_list(),
            },
            priority_ordered(final(self).route_list()),
            final(self).default_upstream_view() == old(self).default_upstream_view(),
    {
        proof {
            use_type_invariant(&*self);
        }
        let ghost s = self.routes@;
        let mut i: usize = 0;
        while i < self.routes.len()
            invariant
                s == self.routes@,
                s == old(self).routes@,
                self.default_upstream == old(self).default_upstream,
                i <= s.len(),
                priority_ordered(s),
                first_named_from(s, 0, name@) == first_named_from(s, i as int, name@),
            decreases s.len() - i,
        {
            if str_eq(self.routes[i].name.as_str(), name) {
                let mut routes: Vec<Route> = Vec::new();
                std::mem::swap(&mut routes, &mut self.routes);
                let r = routes.remove(i);
                assert forall|a: int, b: int| 0 <= a < b < routes@.len() implies path_priority(
                    #[trigger] routes@[a]@.path,
                ).rank() >= path_priority(#[trigger] routes@[b]@.path).rank() by {
                    let a2 = if a < i { a } else { a + 1 };
                    let b2 = if b < i { b } else { b + 1 };
                    assert(routes@[a] == s[a2]);
                    assert(routes@[b] == s[b2]);
                }
                self.routes = routes;
                return Some(r);
            }
            i = i + 1;
        }
        None
    }

    /// Finds the route for a request: the first route, in priority order,
    /// that answers it, or a catch-all route to the default upstream.
    pub fn route(&self, method: &str, path: &str, headers: &RequestHeaders) -> (r: Option<RouteMatch>)
        ensures
            answer_view(r) == router_answer(
                route_views(self.route_list()),
                self.default_upstream_view(),
                method@,
                path@,
                headers.view(),
            ),
            match first_match_from(self.route_list(), 0, method@, path@, headers.view()) {
                Some(i) => r matches Some(m) && m.route@ == self.route_list()[i]@ && opt_view(
                    m.rewritten_path,
                ) == rewritten_path(self.route_list()[i]@, path@),
                None => match self.default_upstream_view() {
                    Some(u) => r matches Some(m) && m.route@ == default_route_view(u)
                        && m.rewritten_path is None,
                    None => r is None,
                },
            },
            // the chosen route has the highest priority among those that answer
            first_match_from(self.route_list(), 0, method@, path@, headers.view()) matches Some(i)
                ==> forall|j: int|
                0 <= j < self.route_list().len() && route_matches(
                    self.route_list()[j]@,
                    method@,
                    path@,
                    headers.view(),
                ) ==> path_priority(#[trigger] self.route_list()[j]@.path).rank() <= path_priority(
                    self.route_list()[i]@.path,
                ).rank(),
    {
        proof {
            use_type_invariant(self);
            lemma_first_match_views(self.routes@, 0, method@, path@, headers.view());
        }
        let ghost s = self.routes@;
        let ghost h = headers.view();
        let mut i: usize = 0;
        while i < self.routes.len()
            invariant
                s == self.routes@,
                h == headers.view(),
                priority_ordered(s),
                first_match_from(s, 0, method@, path@, h) == first_match_view(
                    route_views(s),
                    0,
                    method@,
                    path@,
                    h,
                ),
                i <= s.len(),
                first_match_from(s, 0, method@, path@, h) == first_match_from(
                    s,
                    i as int,
                    method@,
                    path@,
                    h,
                ),
                forall|j: int| 0 <= j < i ==> !route_matches(#[trigger] s[j]@, method@, path@, h),
            decreases s.len() - i,
        {
            let route = &self.routes[i];
            if route.matches(method, path, headers) {
                let rewritten = match &route.rewrite {
                    None => None,
                    Some(rw) => match &route.path {
                        PathMatch::Prefix { prefix } => {
                            let pc = chars_of(path);
                            let rc = chars_of(rw.as_str());
                            let xlen = prefix.as_str().unicode_len();
                            Some(replace_leading(&pc, xlen, &rc, Ghost(prefix@)))
                        },
                        _ => Some(rw.clone()),
                    },
                };
                assert forall|j: int|
                    0 <= j < s.len() && route_matches(s[j]@, method@, path@, h) implies path_priority(
                    #[trigger] s[j]@.path,
                ).rank() <= path_priority(s[i as int]@.path).rank() by {
                    if j > i {
                    }
                }
                return Some(RouteMatch { route: route.clone(), rewritten_path: rewritten });
            }
            i = i + 1;
        }
        match &self.default_upstream {
            Some(u) => Some(
                RouteMatch {
                    route: Route::new("default", PathMatch::prefix("/"), u.as_str()),
                    rewritten_path: None,
                },
            ),
            None => None,
        }
    }

    /// Returns all routes, in the order they are tried.
    pub fn routes(&self) -> (r: &[Route])
        ensures
            r@ == self.route_list(),
    {
        self.routes.as_slice()
    }

    /// Returns the number of routes.
    pub fn len(&self) -> (n: usize)
        ensures
            n == self.route_list().len(),
    {
        self.routes.len()
    }

    /// Returns true if there are no routes.
    pub fn is_empty(&self) -> (b: bool)
        ensures
            b == (self.route_list().len() == 0),
    {
        self.routes.len() == 0
    }
}

impl Default for Router {
    fn default() -> (r: Self)
        ensures
            r.route_list() == Seq::<Route>::empty(),
            r.default_upstream_view() is None,
    {
        Router::new()
    }
}

/// `s` with its first `n` characters, which are `t`, replaced by `r`.
fn replace_leading(s: &Vec<char>, n: usize, r: &Vec<char>, Ghost(t): Ghost<Seq<char>>) -> (out: String)
    requires
        n == t.len(),
        seq_starts_with(s@, t),
    ensures
        out@ == replace_first(s@, t, r@),
{
    let mut cs: Vec<char> = Vec::new();
    let mut k: usize = 0;
    while k < r.len()
        invariant
            k <= r@.len(),
            cs@ == r@.take(k as int),
        decreases r@.len() - k,
    {
        cs.push(r[k]);
        assert(r@.take(k + 1) =~= r@.take(k as int).push(r@[k as int]));
        k = k + 1;
    }
    let mut j: usize = n;
    while j < s.len()
        invariant
            n <= j <= s@.len(),
            r@.take(r@.len() as int) == r@,
            cs@ == r@ + s@.subrange(n as int, j as int),
        decreases s@.len() - j,
    {
        cs.push(s[j]);
        assert(s@.subrange(n as int, j + 1) =~= s@.subrange(n as int, j as int).push(s@[j as int]));
        j = j + 1;
    }
    assert(occurs_at(s@, t, 0));
    assert(first_occurrence_from(s@, t, 0) == Some(0int));
    assert(s@.subrange(0, 0) + r@ + s@.subrange(t.len() as int, s@.len() as int) =~= cs@);
    string_from_chars(&cs)
}

/// Load balancing policy.
#[derive(Debug, Clone, Copy, PartialEq, Eq, Structural)]
pub enum LoadBalancingPolicy {
    /// Round-robin selection.
    RoundRobin,
    /// Least connections.
    LeastConnections,
    /// Random selection.
    Random,
    /// Consistent hashing.
    ConsistentHash,
}

impl Default for LoadBalancingPolicy {
    fn default() -> (p: Self)
        ensures
            p == LoadBalancingPolicy::RoundRobin,
    {
        LoadBalancingPolicy::RoundRobin
    }
}

/// Health check configuration.
#[derive(Debug)]
pub struct HealthCheckConfig {
    /// Health check interval.
    pub interval_ms: u64,
    /// Health check timeout.
    pub timeout_ms: u64,
    /// Path to check.
    pub path: String,
    /// Number of failures before marking unhealthy.
    pub unhealthy_threshold: u32,
    /// Number of successes before marking healthy.
    pub healthy_threshold: u32,
}

impl Default for HealthCheckConfig {
    fn default() -> (c: Self)
        ensures
            c.interval_ms == 10000,
            c.timeout_ms == 5000,
            c.path@ == "/health"@,
            c.unhealthy_threshold == 3,
            c.healthy_threshold == 2,
    {
        HealthCheckConfig {
            interval_ms: 10000,
            timeout_ms: 5000,
            path: owned("/health"),
            unhealthy_threshold: 3,
            healthy_threshold: 2,
        }
    }
}

/// Upstream cluster definition.
#[derive(Debug)]
pub struct UpstreamCluster {
    /// Cluster name.
    pub name: String,
    /// List of upstream endpoints.
    pub endpoints: Vec<String>,
    /// Load balancing policy.
    pub load_balancing: LoadBalancingPolicy,
    /// Health check configuration.
    pub health_check: Option<HealthCheckConfig>,
}

/// Routing configuration that can be loaded from a file.
#[derive(Debug)]
pub struct RoutingConfig {
    /// List of routes.
    pub routes: Vec<Route>,
    /// Upstream clusters.
    pub upstreams: HashMap<String, UpstreamCluster>,
    /// Default upstream cluster name.
    pub default_upstream: Option<String>,
}

/// The views of a sequence of routes.
pub open spec fn route_views(s: Seq<Route>) -> Seq<RouteView> {
    s.map_values(|r: Route| r@)
}

/// Selects the route views whose path condition has priority `p`.
pub open spec fn view_class(p: RoutePriority) -> spec_fn(RouteView) -> bool {
    |r: RouteView| path_priority(r.path) == p
}

/// Route views stably sorted by priority, highest first.
pub open spec fn sorted_route_views(s: Seq<RouteView>) -> Seq<RouteView> {
    s.filter(view_class(RoutePriority::Exact)) + s.filter(view_class(RoutePriority::Prefix))
        + s.filter(view_class(RoutePriority::Regex))
}

/// Sorting routes and then viewing them gives the same as viewing them and
/// then sorting the views: the order depends on the views alone.
pub proof fn lemma_sort_commutes_with_view(s: Seq<Route>)
    ensures
        route_views(sorted_routes(s)) == sorted_route_views(route_views(s)),
{
    broadcast use vstd::seq_lib::group_seq_properties;

    vstd::seq_lib::lemma_filter_view_commute(s, priority_class(RoutePriority::Exact), view_class(RoutePriority::Exact));
    vstd::seq_lib::lemma_filter_view_commute(s, priority_class(RoutePriority::Prefix), view_class(RoutePriority::Prefix));
    vstd::seq_lib::lemma_filter_view_commute(s, priority_class(RoutePriority::Regex), view_class(RoutePriority::Regex));
    let e = s.filter(priority_class(RoutePriority::Exact));
    let p = s.filter(priority_class(RoutePriority::Prefix));
    let r = s.filter(priority_class(RoutePriority::Regex));
    assert(route_views(e + p + r) =~= route_views(e) + route_views(p) + route_views(r));
}

/// A priority sort keeps exactly the route views it is given, and the
/// ranks never increase along the sorted list.
proof fn lemma_sorted_views_facts(rv: Seq<RouteView>)
    ensures
        forall|t: int|
            0 <= t < sorted_route_views(rv).len() ==> rv.contains(#[trigger] sorted_route_views(rv)[t]),
        forall|j: int| 0 <= j < rv.len() ==> sorted_route_views(rv).contains(#[trigger] rv[j]),
        forall|i: int, t: int|
            0 <= i <= t < sorted_route_views(rv).len() ==> path_priority(
                #[trigger] sorted_route_views(rv)[i].path,
            ).rank() >= path_priority(#[trigger] sorted_route_views(rv)[t].path).rank(),
{
    broadcast use vstd::seq_lib::group_filter_ensures;

    let fe = view_class(RoutePriority::Exact);
    let fp = view_class(RoutePriority::Prefix);
    let fr = view_class(RoutePriority::Regex);
    let e = rv.filter(fe);
    let p = rv.filter(fp);
    let r = rv.filter(fr);
    let vs = sorted_route_views(rv);
    assert(vs == e + p + r);
    assert forall|t: int| 0 <= t < vs.len() implies #[trigger] path_priority(vs[t].path) == (if t
        < e.len() {
        RoutePriority::Exact
    } else if t < e.len() + p.len() {
        RoutePriority::Prefix
    } else {
        RoutePriority::Regex
    }) && rv.contains(vs[t]) by {
        if t < e.len() {
            assert(vs[t] == e[t]);
            assert(fe(e[t]));
            assert(e.contains(e[t]));
            rv.lemma_filter_contains_rev(fe, e[t]);
        } else if t < e.len() + p.len() {
            assert(vs[t] == p[t - e.len()]);
            assert(fp(p[t - e.len()]));
            assert(p.contains(p[t - e.len()]));
            rv.lemma_filter_contains_rev(fp, p[t - e.len()]);
        } else {
            assert(vs[t] == r[t - e.len() - p.len()]);
            assert(fr(r[t - e.len() - p.len()]));
            assert(r.contains(r[t - e.len() - p.len()]));
            rv.lemma_filter_contains_rev(fr, r[t - e.len() - p.len()]);
        }
    }
    assert forall|j: int| 0 <= j < rv.len() implies vs.contains(#[trigger] rv[j]) by {
        let x = rv[j];
        match path_priority(x.path) {
            RoutePriority::Exact => {
                assert(fe(x));
                assert(e.contains(x));
                let k = choose|k: int| 0 <= k < e.len() && e[k] == x;
                assert(vs[k] == x);
            },
            RoutePriority::Prefix => {
                assert(fp(x));
                assert(p.contains(x));
                let k = choose|k: int| 0 <= k < p.len() && p[k] == x;
                assert(vs[e.len() + k] == x);
            },
            _ => {
                assert(fr(x));
                assert(r.contains(x));
                let k = choose|k: int| 0 <= k < r.len() && r[k] == x;
                assert(vs[e.len() + p.len() + k] == x);
            },
        }
    }
    assert forall|i: int, t: int| 0 <= i <= t < vs.len() implies path_priority(
        #[trigger] vs[i].path,
    ).rank() >= path_priority(#[trigger] vs[t].path).rank() by {
        assert(path_priority(vs[i].path) == (if i < e.len() {
            RoutePriority::Exact
        } else if i < e.len() + p.len() {
            RoutePriority::Prefix
        } else {
            RoutePriority::Regex
        }));
        assert(path_priority(vs[t].path) == (if t < e.len() {
            RoutePriority::Exact
        } else if t < e.len() + p.len() {
            RoutePriority::Prefix
        } else {
            RoutePriority::Regex
        }));
    }
}

/// The answer that routing by a configuration gives: routing over its routes
/// sorted by priority, with its default upstream.
pub open spec fn config_answer(
    cfg: RoutingConfig,
    method: Seq<char>,
    path: Seq<char>,
    h: Seq<(Seq<char>, Seq<u8>)>,
) -> Option<(RouteView, Option<Seq<char>>)> {
    router_answer(
        sorted_route_views(route_views(cfg.routes@)),
        opt_view(cfg.default_upstream),
        method,
        path,
        h,
    )
}

/// Routing by a configuration: a request that no configured route answers
/// goes to the default upstream (and is not routed without one); any other
/// request is answered by a configured route that answers it, of the highest
/// priority among those, with the path rewritten as that route says.
pub proof fn lemma_configured_routing(
    cfg: RoutingConfig,
    method: Seq<char>,
    path: Seq<char>,
    h: Seq<(Seq<char>, Seq<u8>)>,
)
    ensures
        (forall|j: int|
            0 <= j < cfg.routes@.len() ==> !route_matches(#[trigger] cfg.routes@[j]@, method, path, h))
            ==> config_answer(cfg, method, path, h) == match opt_view(cfg.default_upstream) {
            Some(u) => Some((default_route_view(u), Option::<Seq<char>>::None)),
            None => None,
        },
        (exists|j: int|
            0 <= j < cfg.routes@.len() && route_matches(#[trigger] cfg.routes@[j]@, method, path, h))
            ==> (config_answer(cfg, method, path, h) matches Some((v, rw)) && route_views(
            cfg.routes@,
        ).contains(v) && route_matches(v, method, path, h) && rw == rewritten_path(v, path)
            && forall|j: int|
            0 <= j < cfg.routes@.len() && route_matches(cfg.routes@[j]@, method, path, h)
                ==> path_priority(#[trigger] cfg.routes@[j]@.path).rank() <= path_priority(
                v.path,
            ).rank()),
{
    let rv = route_views(cfg.routes@);
    let vs = sorted_route_views(rv);
    lemma_sorted_views_facts(rv);
    lemma_first_match_view_meaning(vs, 0, method, path, h);
    assert forall|j: int| 0 <= j < cfg.routes@.len() implies #[trigger] rv[j] == cfg.routes@[j]@ by {}
    if forall|j: int| 0 <= j < cfg.routes@.len() ==> !route_matches(#[trigger] cfg.routes@[j]@, method, path, h) {
        if let Some(i) = first_match_view(vs, 0, method, path, h) {
            assert(rv.contains(vs[i]));
            let j = choose|j: int| 0 <= j < rv.len() && rv[j] == vs[i];
            assert(rv[j] == cfg.routes@[j]@);
            assert(false);
        }
    }
    if exists|j: int| 0 <= j < cfg.routes@.len() && route_matches(#[trigger] cfg.routes@[j]@, method, path, h) {
        let j0 = choose|j: int| 0 <= j < cfg.routes@.len() && route_matches(#[trigger] cfg.routes@[j]@, method, path, h);
        assert(rv[j0] == cfg.routes@[j0]@);
        assert(vs.contains(rv[j0]));
        let t0 = choose|t: int| 0 <= t < vs.len() && vs[t] == rv[j0];
        assert(route_matches(vs[t0], method, path, h));
        assert(first_match_view(vs, 0, method, path, h) is Some);
        let i = first_match_view(vs, 0, method, path, h)->0;
        assert(rv.contains(vs[i]));
        assert forall|j: int|
            0 <= j < cfg.routes@.len() && route_matches(cfg.routes@[j]@, method, path, h) implies path_priority(
            #[trigger] cfg.routes@[j]@.path,
        ).rank() <= path_priority(vs[i].path).rank() by {
            assert(rv[j] == cfg.routes@[j]@);
            assert(vs.contains(rv[j]));
            let t = choose|t: int| 0 <= t < vs.len() && vs[t] == rv[j];
            assert(route_matches(vs[t], method, path, h));
            assert(i <= t);
            assert(path_priority(vs[i].path).rank() >= path_priority(vs[t].path).rank());
        }
    }
}

fn clone_routes(rs: &Vec<Route>) -> (r: Vec<Route>)
    ensures
        route_views(r@) == route_views(rs@),
{
    let mut r: Vec<Route> = Vec::new();
    let mut i: usize = 0;
    while i < rs.len()
        invariant
            i <= rs@.len(),
            route_views(r@) == route_views(rs@.take(i as int)),
        decreases rs@.len() - i,
    {
        let c = rs[i].clone();
        let ghost before = r@;
        r.push(c);
        assert(route_views(r@) =~= route_views(before).push(c@));
        assert(rs@.take(i + 1) =~= rs@.take(i as int).push(rs@[i as int]));
        assert(route_views(rs@.take(i + 1)) =~= route_views(rs@.take(i as int)).push(rs@[i as int]@));
        i = i + 1;
    }
    assert(rs@.take(i as int) =~= rs@);
    r
}

impl RoutingConfig {
    /// Builds a router from this configuration: its routes sorted by
    /// priority, and its default upstream.
    pub fn build_router(&self) -> (r: Router)
        ensures
            route_views(r.route_list()) == sorted_route_views(route_views(self.routes@)),
            r.default_upstream_view() == opt_view(self.default_upstream),
            forall|method: Seq<char>, path: Seq<char>, h: Seq<(Seq<char>, Seq<u8>)>|
                #[trigger] router_answer(route_views(r.route_list()), r.default_upstream_view(), method, path, h)
                    == config_answer(*self, method, path, h),
    {
        let routes = clone_routes(&self.routes);
        let router = Router::with_routes(routes);
        proof {
            lemma_sort_commutes_with_view(routes@);
            lemma_sort_commutes_with_view(self.routes@);
            assert(route_views(routes@) == route_views(self.routes@));
        }
        match &self.default_upstream {
            Some(default) => router.with_default_upstream(default.as_str()),
            None => router,
        }
    }
}

} // verus!
