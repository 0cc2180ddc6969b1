//! Proxy configuration: defaults, reading the settings from their text form,
//! and validation.
//!
//! Reading the process environment and parsing socket addresses are done by
//! the caller; this module receives the raw setting values and the outcome of
//! the socket-address parses, and decides everything else.

use crate::text::{
    char_views, chars_of, owned, parse_u64, parse_u64_spec, seq_starts_with,
    split_chars, split_seq, starts_with, str_eq, string_from_chars, trim_chars, trim_seq,
};
use vstd::prelude::*;

verus! {

/// The largest request timeout accepted by validation: one hour.
pub const MAX_TIMEOUT_MS: u64 = 3_600_000u64;

/// The request timeout used when none is configured: thirty seconds.
pub const DEFAULT_TIMEOUT_MS: u64 = 30_000u64;

/// Configuration validation errors.
#[derive(Debug)]
pub enum ConfigError {
    /// Invalid listen address format.
    InvalidListenAddr { addr: String, reason: String },
    /// Invalid metrics address format.
    InvalidMetricsAddr { addr: String, reason: String },
    /// Invalid upstream address format.
    InvalidUpstreamAddr { addr: String, reason: String },
    /// No upstream addresses configured.
    NoUpstreamAddrs,
    /// Invalid timeout value.
    InvalidTimeout { reason: String },
    /// Duplicate listen and metrics addresses.
    DuplicateAddrs { addr: String },
}

/// The mathematical form of a [`ConfigError`].
pub enum ConfigErrorView {
    InvalidListenAddr { addr: Seq<char>, reason: Seq<char> },
    InvalidMetricsAddr { addr: Seq<char>, reason: Seq<char> },
    InvalidUpstreamAddr { addr: Seq<char>, reason: Seq<char> },
    NoUpstreamAddrs,
    InvalidTimeout { reason: Seq<char> },
    DuplicateAddrs { addr: Seq<char> },
}

impl View for ConfigError {
    type V = ConfigErrorView;

    open spec fn view(&self) -> ConfigErrorView {
        match self {
            ConfigError::InvalidListenAddr { addr, reason } => ConfigErrorView::InvalidListenAddr {
                addr: addr@,
                reason: reason@,
            },
            ConfigError::InvalidMetricsAddr { addr, reason } => ConfigErrorView::InvalidMetricsAddr {
                addr: addr@,
                reason: reason@,
            },
            ConfigError::InvalidUpstreamAddr { addr, reason } =>
                ConfigErrorView::InvalidUpstreamAddr { addr: addr@, reason: reason@ },
            ConfigError::NoUpstreamAddrs => ConfigErrorView::NoUpstreamAddrs,
            ConfigError::InvalidTimeout { reason } => ConfigErrorView::InvalidTimeout {
                reason: reason@,
            },
            ConfigError::DuplicateAddrs { addr } => ConfigErrorView::DuplicateAddrs { addr: addr@ },
        }
    }
}

/// Proxy configuration loaded at startup.
#[derive(Debug)]
pub struct ProxyConfig {
    /// Address to listen on for incoming connections.
    pub listen_addr: String,
    /// List of upstream server addresses for load balancing.
    pub upstream_addrs: Vec<String>,
    /// Address to serve metrics on.
    pub metrics_addr: String,
    /// Request timeout, in milliseconds.
    pub request_timeout_ms: u64,
    /// Maximum concurrent connections.
    pub max_connections: usize,
}

/// The mathematical form of a [`ProxyConfig`].
pub struct ProxyConfigView {
    pub listen_addr: Seq<char>,
    pub upstream_addrs: Seq<Seq<char>>,
    pub metrics_addr: Seq<char>,
    pub request_timeout_ms: u64,
    pub max_connections: usize,
}

/// The views of a sequence of strings.
pub open spec fn string_views(v: Seq<String>) -> Seq<Seq<char>> {
    Seq::new(v.len(), |i: int| v[i]@)
}

impl View for ProxyConfig {
    type V = ProxyConfigView;

    open spec fn view(&self) -> ProxyConfigView {
        ProxyConfigView {
            listen_addr: self.listen_addr@,
            upstream_addrs: string_views(self.upstream_addrs@),
            metrics_addr: self.metrics_addr@,
            request_timeout_ms: self.request_timeout_ms,
            max_connections: self.max_connections,
        }
    }
}

/// The default maximum number of concurrent connections.
pub open spec fn spec_default_max_connections() -> usize {
    10_000
}

/// The default maximum number of concurrent connections.
pub fn default_max_connections() -> (n: usize)
    ensures
        n == spec_default_max_connections(),
{
    10_000
}

/// The default listen address.
pub open spec fn default_listen_addr() -> Seq<char> {
    "127.0.0.1:3000"@
}

/// The default upstream address list.
pub open spec fn default_upstreams() -> Seq<char> {
    "http://127.0.0.1:8080"@
}

/// The default metrics address.
pub open spec fn default_metrics_addr() -> Seq<char> {
    "127.0.0.1:9090"@
}

/// The default configuration.
pub open spec fn default_config() -> ProxyConfigView {
    ProxyConfigView {
        listen_addr: default_listen_addr(),
        upstream_addrs: seq![default_upstreams()],
        metrics_addr: default_metrics_addr(),
        request_timeout_ms: DEFAULT_TIMEOUT_MS,
        max_connections: spec_default_max_connections(),
    }
}

impl Default for ProxyConfig {
    fn default() -> (c: Self)
        ensures
            c@ == default_config(),
    {
        let mut upstreams: Vec<String> = Vec::new();
        upstreams.push(owned("http://127.0.0.1:8080"));
        let c = ProxyConfig {
            listen_addr: owned("127.0.0.1:3000"),
            upstream_addrs: upstreams,
            metrics_addr: owned("127.0.0.1:9090"),
            request_timeout_ms: DEFAULT_TIMEOUT_MS,
            max_connections: default_max_connections(),
        };
        assert(c@.upstream_addrs =~= default_config().upstream_addrs);
        c
    }
}

/// The trimmed, nonempty pieces of a list of pieces, in order.
pub open spec fn nonempty_trimmed(ps: Seq<Seq<char>>) -> Seq<Seq<char>>
    decreases ps.len(),
{
    if ps.len() == 0 {
        Seq::empty()
    } else {
        let r = nonempty_trimmed(ps.drop_last());
        let t = trim_seq(ps.last());
        if t.len() > 0 {
            r.push(t)
        } else {
            r
        }
    }
}

/// The upstream list written as comma-separated text: each piece trimmed,
/// empty pieces dropped.
pub open spec fn upstream_list_spec(s: Seq<char>) -> Seq<Seq<char>> {
    nonempty_trimmed(split_seq(s, ','))
}

/// Reads a comma-separated upstream list.
pub fn upstream_list(text: &str) -> (r: Vec<String>)
    ensures
        string_views(r@) == upstream_list_spec(text@),
{
    let cs = chars_of(text);
    let pieces = split_chars(&cs, ',');
    let ghost ps = split_seq(text@, ',');
    let mut out: Vec<String> = Vec::new();
    let mut k: usize = 0;
    let n = pieces.len();
    assert(ps.take(0) =~= Seq::<Seq<char>>::empty());
    assert(string_views(out@) =~= nonempty_trimmed(ps.take(0)));
    while k < n
        invariant
            n == pieces@.len(),
            k <= n,
            char_views(pieces@) == ps,
            string_views(out@) == nonempty_trimmed(ps.take(k as int)),
        decreases n - k,
    {
        let t = trim_chars(&pieces[k]);
        let ghost before = ps.take(k as int);
        let ghost after = ps.take(k + 1);
        assert(after.drop_last() =~= before);
        assert(after.last() == pieces@[k as int]@);
        if t.len() > 0 {
            let s = string_from_chars(&t);
            out.push(s);
            assert(string_views(out@) =~= nonempty_trimmed(after));
        } else {
            assert(string_views(out@) =~= nonempty_trimmed(after));
        }
        k = k + 1;
    }
    assert(ps.take(n as int) =~= ps);
    out
}

/// The raw values of the configuration settings, as read from the
/// environment: `None` where a setting is absent or not valid Unicode.
pub struct ConfigSources {
    /// `PROXY_LISTEN_ADDR`.
    pub listen_addr: Option<String>,
    /// `PROXY_UPSTREAM_ADDRS`.
    pub upstream_addrs: Option<String>,
    /// `PROXY_METRICS_ADDR`.
    pub metrics_addr: Option<String>,
    /// `PROXY_REQUEST_TIMEOUT_MS`.
    pub request_timeout_ms: Option<String>,
    /// `PROXY_MAX_CONNECTIONS`.
    pub max_connections: Option<String>,
}

/// A setting's value, or the default where it is absent.
pub open spec fn or_default(v: Option<String>, d: Seq<char>) -> Seq<char> {
    match v {
        Some(s) => s@,
        None => d,
    }
}

/// A number setting: the parsed value, or the default where the setting is
/// absent or does not parse.
pub open spec fn number_or(v: Option<String>, d: u64) -> u64 {
    match v {
        Some(s) => match parse_u64_spec(s@) {
            Some(n) => n,
            None => d,
        },
        None => d,
    }
}

/// A `usize` setting: the parsed value where it parses and fits, else the
/// default.
pub open spec fn count_or(v: Option<String>, d: usize) -> usize {
    match v {
        Some(s) => match parse_u64_spec(s@) {
            Some(n) => if n <= usize::MAX {
                n as usize
            } else {
                d
            },
            None => d,
        },
        None => d,
    }
}

/// The configuration that the given setting values describe.
pub open spec fn config_from_sources(src: ConfigSources) -> ProxyConfigView {
    ProxyConfigView {
        listen_addr: or_default(src.listen_addr, default_listen_addr()),
        upstream_addrs: upstream_list_spec(or_default(src.upstream_addrs, default_upstreams())),
        metrics_addr: or_default(src.metrics_addr, default_metrics_addr()),
        request_timeout_ms: number_or(src.request_timeout_ms, DEFAULT_TIMEOUT_MS),
        max_connections: count_or(src.max_connections, spec_default_max_connections()),
    }
}

/// Calls `url::Url::parse` and reports whether it accepted the text.
/// What the URL parser accepts is its own grammar, so the result is only
/// named: `url_parses` of the text.
#[verifier::external_body]
fn url_is_valid(s: &str) -> (r: bool)
    ensures
        r == url_parses(s@),
{
    url::Url::parse(s).is_ok()
}

/// Whether `url::Url::parse` accepts the text.
pub uninterp spec fn url_parses(s: Seq<char>) -> bool;

/// The reason given for an upstream address without an HTTP scheme.
pub open spec fn scheme_reason() -> Seq<char> {
    "must start with http:// or https://"@
}

/// The reason given for an upstream address the URL parser refuses.
pub open spec fn url_reason() -> Seq<char> {
    "invalid URL format"@
}

/// The reason given for a zero timeout.
pub open spec fn zero_timeout_reason() -> Seq<char> {
    "timeout must be greater than zero"@
}

/// The reason given for a timeout above one hour.
pub open spec fn long_timeout_reason() -> Seq<char> {
    "timeout must not exceed 1 hour"@
}

/// What is wrong with one upstream address, given whether the URL parser
/// accepts it: the scheme is checked first.
pub open spec fn upstream_problem(addr: Seq<char>, url_ok: bool) -> Option<ConfigErrorView> {
    if !(seq_starts_with(addr, "http://"@) || seq_starts_with(addr, "https://"@)) {
        Some(ConfigErrorView::InvalidUpstreamAddr { addr, reason: scheme_reason() })
    } else if !url_ok {
        Some(ConfigErrorView::InvalidUpstreamAddr { addr, reason: url_reason() })
    } else {
        None
    }
}

/// Whether `addr` begins with the characters of `prefix` (written out
/// position by position).
pub open spec fn begins_with(addr: Seq<char>, prefix: Seq<char>) -> bool {
    prefix.len() <= addr.len() && forall|i: int| 0 <= i < prefix.len() ==> addr[i] == prefix[i]
}

/// Upstream addresses: one that begins with `http://` or `https://` and
/// that the URL parser accepts is never a problem; one that begins with
/// neither is refused for its scheme, whatever the parser says; one with
/// either scheme that the parser refuses is refused as an invalid URL.
pub proof fn lemma_upstream_schemes(addr: Seq<char>, url_ok: bool)
    ensures
        (begins_with(addr, "http://"@) || begins_with(addr, "https://"@)) && url_ok ==> upstream_problem(
            addr,
            url_ok,
        ) is None,
        !(begins_with(addr, "http://"@) || begins_with(addr, "https://"@)) ==> upstream_problem(
            addr,
            url_ok,
        ) == Some(ConfigErrorView::InvalidUpstreamAddr { addr, reason: scheme_reason() }),
        (begins_with(addr, "http://"@) || begins_with(addr, "https://"@)) && !url_ok ==> upstream_problem(
            addr,
            url_ok,
        ) == Some(ConfigErrorView::InvalidUpstreamAddr { addr, reason: url_reason() }),
{
    let a = "http://"@;
    let b = "https://"@;
    if begins_with(addr, a) {
        assert(addr.subrange(0, a.len() as int) =~= a);
    }
    if begins_with(addr, b) {
        assert(addr.subrange(0, b.len() as int) =~= b);
    }
    if seq_starts_with(addr, a) {
        assert forall|i: int| 0 <= i < a.len() implies addr[i] == a[i] by {
            assert(addr.subrange(0, a.len() as int)[i] == addr[i]);
        }
    }
    if seq_starts_with(addr, b) {
        assert forall|i: int| 0 <= i < b.len() implies addr[i] == b[i] by {
            assert(addr.subrange(0, b.len() as int)[i] == addr[i]);
        }
    }
}

/// The problem with the first faulty address of a list.
pub open spec fn first_upstream_problem(addrs: Seq<Seq<char>>) -> Option<ConfigErrorView>
    decreases addrs.len(),
{
    if addrs.len() == 0 {
        None
    } else {
        match upstream_problem(addrs[0], url_parses(addrs[0])) {
            Some(e) => Some(e),
            None => first_upstream_problem(addrs.drop_first()),
        }
    }
}

/// A list of upstream addresses has no problem exactly when every address
/// begins with `http://` or `https://` and the URL parser accepts it.
pub proof fn lemma_upstream_list_valid(addrs: Seq<Seq<char>>)
    ensures
        first_upstream_problem(addrs) is None <==> forall|i: int|
            0 <= i < addrs.len() ==> (begins_with(#[trigger] addrs[i], "http://"@) || begins_with(
                addrs[i],
                "https://"@,
            )) && url_parses(addrs[i]),
    decreases addrs.len(),
{
    if addrs.len() > 0 {
        lemma_upstream_list_valid(addrs.drop_first());
        lemma_upstream_schemes(addrs[0], url_parses(addrs[0]));
        if first_upstream_problem(addrs) is None {
            assert forall|i: int| 0 <= i < addrs.len() implies (begins_with(#[trigger] addrs[i], "http://"@)
                || begins_with(addrs[i], "https://"@)) && url_parses(addrs[i]) by {
                if i > 0 {
                    assert(addrs[i] == addrs.drop_first()[i - 1]);
                }
            }
        } else {
            if upstream_problem(addrs[0], url_parses(addrs[0])) is None {
                let i = choose|i: int| 0 <= i < addrs.drop_first().len() && !((begins_with(
                    #[trigger] addrs.drop_first()[i],
                    "http://"@,
                ) || begins_with(addrs.drop_first()[i], "https://"@)) && url_parses(addrs.drop_first()[i]));
                assert(addrs.drop_first()[i] == addrs[i + 1]);
            }
        }
    }
}

/// What validation reports: `None` when the configuration is valid, else the
/// first problem found, in the order listen address, metrics address,
/// duplicate addresses, upstream list, each upstream address, timeout.
/// `listen_parse` and `metrics_parse` are the outcomes of parsing the two
/// addresses as socket addresses, with the parser's message on failure.
pub open spec fn validation(
    c: ProxyConfigView,
    listen_parse: Result<(), Seq<char>>,
    metrics_parse: Result<(), Seq<char>>,
) -> Option<ConfigErrorView> {
    if listen_parse is Err {
        Some(
            ConfigErrorView::InvalidListenAddr {
                addr: c.listen_addr,
                reason: listen_parse->Err_0,
            },
        )
    } else if metrics_parse is Err {
        Some(
            ConfigErrorView::InvalidMetricsAddr {
                addr: c.metrics_addr,
                reason: metrics_parse->Err_0,
            },
        )
    } else if c.listen_addr == c.metrics_addr {
        Some(ConfigErrorView::DuplicateAddrs { addr: c.listen_addr })
    } else if c.upstream_addrs.len() == 0 {
        Some(ConfigErrorView::NoUpstreamAddrs)
    } else if first_upstream_problem(c.upstream_addrs) is Some {
        first_upstream_problem(c.upstream_addrs)
    } else if c.request_timeout_ms == 0 {
        Some(ConfigErrorView::InvalidTimeout { reason: zero_timeout_reason() })
    } else if c.request_timeout_ms > MAX_TIMEOUT_MS {
        Some(ConfigErrorView::InvalidTimeout { reason: long_timeout_reason() })
    } else {
        None
    }
}

/// Validation accepts a configuration exactly when both addresses parse as
/// socket addresses, the listen and metrics addresses differ, there is at
/// least one upstream, every upstream begins with `http://` or `https://`
/// and the URL parser accepts it, and the timeout lies between 1 ms and one
/// hour (3 600 000 ms) inclusive.
pub proof fn lemma_validation_accepts(
    c: ProxyConfigView,
    listen_parse: Result<(), Seq<char>>,
    metrics_parse: Result<(), Seq<char>>,
)
    ensures
        validation(c, listen_parse, metrics_parse) is None <==> {
            &&& listen_parse is Ok
            &&& metrics_parse is Ok
            &&& c.listen_addr != c.metrics_addr
            &&& c.upstream_addrs.len() > 0
            &&& forall|i: int|
                0 <= i < c.upstream_addrs.len() ==> (begins_with(
                    #[trigger] c.upstream_addrs[i],
                    "http://"@,
                ) || begins_with(c.upstream_addrs[i], "https://"@)) && url_parses(c.upstream_addrs[i])
            &&& 1 <= c.request_timeout_ms <= 3_600_000
        },
{
    lemma_upstream_list_valid(c.upstream_addrs);
}

/// The view of a parse outcome.
pub open spec fn outcome_view(r: Result<(), String>) -> Result<(), Seq<char>> {
    match r {
        Ok(()) => Ok(()),
        Err(e) => Err(e@),
    }
}

/// Whether `r` reports exactly what `v` describes.
pub open spec fn reports(r: Result<(), ConfigError>, v: Option<ConfigErrorView>) -> bool {
    match r {
        Ok(()) => v is None,
        Err(e) => v == Some(e@),
    }
}

/// Checks one upstream address, given whether the URL parser accepts it.
pub fn check_upstream(addr: &str, url_ok: bool) -> (r: Result<(), ConfigError>)
    ensures
        reports(r, upstream_problem(addr@, url_ok)),
{
    let cs = chars_of(addr);
    let http = chars_of("http://");
    let https = chars_of("https://");
    if !starts_with(&cs, &http) && !starts_with(&cs, &https) {
        return Err(
            ConfigError::InvalidUpstreamAddr {
                addr: owned(addr),
                reason: owned("must start with http:// or https://"),
            },
        );
    }
    if !url_ok {
        return Err(
            ConfigError::InvalidUpstreamAddr { addr: owned(addr), reason: owned("invalid URL format") },
        );
    }
    Ok(())
}

/// The verdict of validation as the caller receives it.
pub open spec fn validated(
    c: ProxyConfigView,
    listen_parse: Result<(), String>,
    metrics_parse: Result<(), String>,
    r: Result<(), ConfigError>,
) -> bool {
    reports(r, validation(c, outcome_view(listen_parse), outcome_view(metrics_parse)))
}

impl ProxyConfig {
    /// The configuration described by the given setting values, with the
    /// default for each one that is absent or does not parse.
    pub fn from_sources(src: ConfigSources) -> (c: Self)
        ensures
            c@ == config_from_sources(src),
    {
        let ghost g = src;
        let listen_addr = match src.listen_addr {
            Some(s) => s,
            None => owned("127.0.0.1:3000"),
        };
        let upstream_addrs = match src.upstream_addrs {
            Some(s) => upstream_list(s.as_str()),
            None => upstream_list("http://127.0.0.1:8080"),
        };
        let metrics_addr = match src.metrics_addr {
            Some(s) => s,
            None => owned("127.0.0.1:9090"),
        };
        let request_timeout_ms = match src.request_timeout_ms {
            Some(s) => match parse_u64(s.as_str()) {
                Some(n) => n,
                None => DEFAULT_TIMEOUT_MS,
            },
            None => DEFAULT_TIMEOUT_MS,
        };
        let max_connections = match src.max_connections {
            Some(s) => match parse_u64(s.as_str()) {
                Some(n) => if n <= usize::MAX as u64 {
                    n as usize
                } else {
                    default_max_connections()
                },
                None => default_max_connections(),
            },
            None => default_max_connections(),
        };
        let c = ProxyConfig {
            listen_addr,
            upstream_addrs,
            metrics_addr,
            request_timeout_ms,
            max_connections,
        };
        assert(c@.upstream_addrs == config_from_sources(g).upstream_addrs);
        c
    }

    /// Validates the configuration.  `listen_parse` and `metrics_parse` are
    /// the outcomes of parsing `listen_addr` and `metrics_addr` as socket
    /// addresses, with the parser's message on failure.
    pub fn validate(&self, listen_parse: Result<(), String>, metrics_parse: Result<(), String>) -> (r:
        Result<(), ConfigError>)
        ensures
            validated(self@, listen_parse, metrics_parse, r),
    {
        match listen_parse {
            Err(reason) => {
                return Err(
                    ConfigError::InvalidListenAddr { addr: self.listen_addr.clone(), reason },
                );
            },
            Ok(()) => {},
        }
        match metrics_parse {
            Err(reason) => {
                return Err(
                    ConfigError::InvalidMetricsAddr { addr: self.metrics_addr.clone(), reason },
                );
            },
            Ok(()) => {},
        }
        if str_eq(self.listen_addr.as_str(), self.metrics_addr.as_str()) {
            return Err(ConfigError::DuplicateAddrs { addr: self.listen_addr.clone() });
        }
        let n = self.upstream_addrs.len();
        if n == 0 {
            return Err(ConfigError::NoUpstreamAddrs);
        }
        let ghost all = string_views(self.upstream_addrs@);
        let mut i: usize = 0;
        assert(all.subrange(0, n as int) =~= all);
        while i < n
            invariant
                n == self.upstream_addrs@.len(),
                n > 0,
                all == string_views(self.upstream_addrs@),
                listen_parse is Ok,
                metrics_parse is Ok,
                self@.listen_addr != self@.metrics_addr,
                i <= n,
                first_upstream_problem(all) == first_upstream_problem(
                    all.subrange(i as int, n as int),
                ),
            decreases n - i,
        {
            let addr = self.upstream_addrs[i].as_str();
            let ghost rest = all.subrange(i as int, n as int);
            assert(rest[0] == addr@);
            assert(rest.drop_first() =~= all.subrange(i + 1, n as int));
            let ok = url_is_valid(addr);
            match check_upstream(addr, ok) {
                Err(e) => {
                    return Err(e);
                },
                Ok(()) => {},
            }
            i = i + 1;
        }
        assert(all.subrange(n as int, n as int) =~= Seq::<Seq<char>>::empty());
        if self.request_timeout_ms == 0 {
            return Err(
                ConfigError::InvalidTimeout { reason: owned("timeout must be greater than zero") },
            );
        }
        if self.request_timeout_ms > MAX_TIMEOUT_MS {
            return Err(
                ConfigError::InvalidTimeout { reason: owned("timeout must not exceed 1 hour") },
            );
        }
        Ok(())
    }

    /// Builds the configuration from the given setting values and validates
    /// it.  `listen_parse` and `metrics_parse` are the outcomes of parsing
    /// the listen and metrics addresses that the settings give.
    pub fn from_env_validated(
        src: ConfigSources,
        listen_parse: Result<(), String>,
        metrics_parse: Result<(), String>,
    ) -> (r: Result<Self, ConfigError>)
        ensures
            match r {
                Ok(c) => c@ == config_from_sources(src) && validation(
                    config_from_sources(src),
                    outcome_view(listen_parse),
                    outcome_view(metrics_parse),
                ) is None,
                Err(e) => validation(
                    config_from_sources(src),
                    outcome_view(listen_parse),
                    outcome_view(metrics_parse),
                ) == Some(e@),
            },
    {
        let config = Self::from_sources(src);
        match config.validate(listen_parse, metrics_parse) {
            Ok(()) => Ok(config),
            Err(e) => Err(e),
        }
    }

    /// A copy of the upstream addresses, for sharing.
    pub fn upstream_addrs_arc(&self) -> (r: std::sync::Arc<Vec<String>>)
        ensures
            string_views(r@) == string_views(self.upstream_addrs@),
    {
        let mut out: Vec<String> = Vec::new();
        let n = self.upstream_addrs.len();
        let mut i: usize = 0;
        while i < n
            invariant
                n == self.upstream_addrs@.len(),
                i <= n,
                out@.len() == i,
                forall|k: int| 0 <= k < i ==> #[trigger] out@[k]@ == self.upstream_addrs@[k]@,
            decreases n - i,
        {
            out.push(self.upstream_addrs[i].clone());
            i = i + 1;
        }
        assert(string_views(out@) =~= string_views(self.upstream_addrs@));
        std::sync::Arc::new(out)
    }

    /// The request timeout, in milliseconds.
    pub fn timeout(&self) -> (ms: u64)
        ensures
            ms == self.request_timeout_ms,
    {
        self.request_timeout_ms
    }
}

impl Clone for ProxyConfig {
    fn clone(&self) -> (c: Self)
        ensures
            c@ == self@,
    {
        let a = self.upstream_addrs_arc();
        let mut upstream_addrs: Vec<String> = Vec::new();
        let n = a.len();
        let mut i: usize = 0;
        while i < n
            invariant
                n == a@.len(),
                i <= n,
                upstream_addrs@.len() == i,
                forall|k: int| 0 <= k < i ==> #[trigger] upstream_addrs@[k]@ == a@[k]@,
            decreases n - i,
        {
            upstream_addrs.push(a[i].clone());
            i = i + 1;
        }
        assert(string_views(upstream_addrs@) =~= string_views(a@));
        ProxyConfig {
            listen_addr: self.listen_addr.clone(),
            upstream_addrs,
            metrics_addr: self.metrics_addr.clone(),
            request_timeout_ms: self.request_timeout_ms,
            max_connections: self.max_connections,
        }
    }
}

} // verus!
