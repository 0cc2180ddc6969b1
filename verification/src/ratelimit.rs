//! Rate limiting with the token bucket algorithm.
//!
//! A global bucket and, when enabled, one bucket per client hold tokens; each
//! request takes one token from each bucket it goes through, and buckets fill
//! at `requests_per_second` tokens per second up to `burst_size` tokens.
//!
//! Tokens are counted in thousandths and time in milliseconds, so refilling is
//! exact: `t` milliseconds add `t * requests_per_second` thousandths.

use crate::clock::{elapsed_between, elapsed_ms, instant_now, spec_elapsed_between};
use crate::headers::{header_get, value_text, value_to_text, RequestHeaders};
use crate::text::{before_first, chars_before_first, chars_of, string_from_chars, trim_chars, trim_seq};
use dashmap::DashMap;
use std::sync::Arc;
use std::time::Instant;
use vstd::prelude::*;

verus! {

/// Thousandths in one token.
pub const MILLI: u128 = 1000;

/// Minimum interval, in milliseconds, between sweeps of idle client entries.
pub const CLEANUP_INTERVAL_MS: u64 = 60_000;

/// Configuration for rate limiting.
#[derive(Debug, Clone, Copy, PartialEq, Eq, Structural)]
pub struct RateLimitConfig {
    /// Tokens added per second.
    pub requests_per_second: u64,
    /// Capacity of each bucket, in tokens.
    pub burst_size: u64,
    /// Whether to limit each client separately as well.
    pub per_client: bool,
    /// Milliseconds after its last request that a client entry may be dropped.
    pub client_ttl_ms: u64,
    /// Whether to trust the X-Forwarded-For and X-Real-IP headers.
    pub trust_forwarded_for: bool,
    /// Maximum number of addresses to consider from X-Forwarded-For.
    pub max_forwarded_ips: usize,
}

impl Default for RateLimitConfig {
    fn default() -> (c: Self)
        ensures
            c.requests_per_second == 100,
            c.burst_size == 50,
            c.per_client,
            c.client_ttl_ms == 300_000,
            !c.trust_forwarded_for,
            c.max_forwarded_ips == 1,
    {
        RateLimitConfig {
            requests_per_second: 100,
            burst_size: 50,
            per_client: true,
            client_ttl_ms: 300_000,
            trust_forwarded_for: false,
            max_forwarded_ips: 1,
        }
    }
}

impl RateLimitConfig {
    /// Creates a configuration with the given rate and burst and the other
    /// settings at their defaults.
    pub fn new(requests_per_second: u64, burst_size: u64) -> (c: Self)
        ensures
            c == (RateLimitConfig { requests_per_second, burst_size, ..RateLimitConfig::spec_default() }),
    {
        RateLimitConfig { requests_per_second, burst_size, ..RateLimitConfig::default() }
    }

    /// The default configuration.
    pub open spec fn spec_default() -> RateLimitConfig {
        RateLimitConfig {
            requests_per_second: 100,
            burst_size: 50,
            per_client: true,
            client_ttl_ms: 300_000,
            trust_forwarded_for: false,
            max_forwarded_ips: 1,
        }
    }

    /// Enables or disables per-client rate limiting.
    pub fn with_per_client(self, per_client: bool) -> (c: Self)
        ensures
            c == (RateLimitConfig { per_client, ..self }),
    {
        RateLimitConfig { per_client, ..self }
    }

    /// Sets the time-to-live of client entries, in milliseconds.
    pub fn with_client_ttl(self, ttl_ms: u64) -> (c: Self)
        ensures
            c == (RateLimitConfig { client_ttl_ms: ttl_ms, ..self }),
    {
        RateLimitConfig { client_ttl_ms: ttl_ms, ..self }
    }

    /// Enables trusting X-Forwarded-For headers.
    ///
    /// Only enable this behind a trusted load balancer that sets the header:
    /// clients can otherwise spoof it to escape their limit.
    pub fn with_trust_forwarded_for(self, trust: bool) -> (c: Self)
        ensures
            c == (RateLimitConfig { trust_forwarded_for: trust, ..self }),
    {
        RateLimitConfig { trust_forwarded_for: trust, ..self }
    }

    /// Sets the maximum number of addresses to consider from
    /// X-Forwarded-For; values below 1 count as 1.
    pub fn with_max_forwarded_ips(self, max: usize) -> (c: Self)
        ensures
            c == (RateLimitConfig { max_forwarded_ips: if max >= 1 { max } else { 1 }, ..self }),
    {
        let m = if max >= 1 { max } else { 1 };
        RateLimitConfig { max_forwarded_ips: m, ..self }
    }
}

/// A token bucket: thousandths of tokens held, and when it was last filled.
#[derive(Clone, Copy, PartialEq, Eq, Structural)]
pub struct BucketModel {
    pub tokens: u128,
    pub last_update: u64,
}

/// The capacity of a bucket, in thousandths of tokens.
pub open spec fn capacity(c: RateLimitConfig) -> u128 {
    (c.burst_size * MILLI) as u128
}

/// A full bucket, as created at time `now`.
pub open spec fn bucket_full(c: RateLimitConfig, now: u64) -> BucketModel {
    BucketModel { tokens: capacity(c), last_update: now }
}

/// The bucket after filling it up to time `now`: `requests_per_second`
/// thousandths per elapsed millisecond, up to the capacity.
pub open spec fn bucket_refill(b: BucketModel, c: RateLimitConfig, now: u64) -> BucketModel {
    let add = spec_elapsed_between(now, b.last_update) * c.requests_per_second;
    BucketModel {
        tokens: if b.tokens + add >= capacity(c) { capacity(c) } else { (b.tokens + add) as u128 },
        last_update: now,
    }
}

/// Taking one token at time `now`: the bucket afterwards, and whether a
/// token was there to take.
pub open spec fn bucket_consume(b: BucketModel, c: RateLimitConfig, now: u64) -> (BucketModel, bool) {
    let r = bucket_refill(b, c, now);
    if r.tokens >= MILLI {
        (BucketModel { tokens: (r.tokens - MILLI) as u128, ..r }, true)
    } else {
        (r, false)
    }
}

/// Milliseconds until the bucket holds a whole token again, at the fill
/// rate (meaningful when the rate is not zero).
pub open spec fn bucket_wait_ms(b: BucketModel, c: RateLimitConfig) -> u64 {
    if b.tokens >= MILLI {
        0
    } else {
        ((MILLI - b.tokens) as int / c.requests_per_second as int) as u64
    }
}

/// The bucket after `k` token requests, all at time `now`.
pub open spec fn bucket_consume_n(b: BucketModel, c: RateLimitConfig, now: u64, k: nat) -> BucketModel
    decreases k,
{
    if k == 0 {
        b
    } else {
        bucket_consume(bucket_consume_n(b, c, now, (k - 1) as nat), c, now).0
    }
}

/// A bucket holding `n` whole tokens, already filled up to time `now`,
/// grants exactly `n` requests made at `now`: each of the first `n` takes a
/// token, and the next one is refused.
pub proof fn lemma_bucket_grants_exactly_its_tokens(b: BucketModel, c: RateLimitConfig, now: u64, n: nat, k: nat)
    requires
        b.last_update == now,
        b.tokens == n * MILLI,
        b.tokens <= capacity(c),
        k <= n,
    ensures
        bucket_consume_n(b, c, now, k).tokens == (n - k) * MILLI,
        bucket_consume_n(b, c, now, k).last_update == now,
        k < n ==> bucket_consume(bucket_consume_n(b, c, now, k), c, now).1,
        k == n ==> !bucket_consume(bucket_consume_n(b, c, now, k), c, now).1,
    decreases k,
{
    assert(0 * c.requests_per_second == 0);
    if k > 0 {
        lemma_bucket_grants_exactly_its_tokens(b, c, now, n, (k - 1) as nat);
        let prev = bucket_consume_n(b, c, now, (k - 1) as nat);
        assert((n - (k - 1)) * 1000 == (n - k) * 1000 + 1000) by (nonlinear_arith)
            requires
                k >= 1,
        ;
        assert((n - k) * 1000 >= 0) by (nonlinear_arith)
            requires
                k <= n,
        ;
        assert(prev.tokens <= b.tokens) by (nonlinear_arith)
            requires
                prev.tokens == (n - (k - 1)) * 1000,
                b.tokens == n * 1000,
                k >= 1,
        ;
        assert(spec_elapsed_between(now, prev.last_update) == 0);
        assert(bucket_refill(prev, c, now).tokens == prev.tokens);
    }
    let cur = bucket_consume_n(b, c, now, k);
    assert((n - k) * 1000 >= 1000 <==> k < n) by (nonlinear_arith)
        requires
            k <= n,
    ;
    assert(cur.tokens <= b.tokens) by (nonlinear_arith)
        requires
            cur.tokens == (n - k) * 1000,
            b.tokens == n * 1000,
            k <= n,
    ;
    assert(bucket_refill(cur, c, now).tokens == cur.tokens);
}

/// Draining a bucket that was empty when last filled: after `k` granted
/// requests at `now`, refilling holds the `requests_per_second` thousandths
/// per elapsed millisecond that came in, less the `k` tokens taken.
proof fn lemma_refill_drain(b: BucketModel, c: RateLimitConfig, now: u64, k: nat)
    requires
        b.tokens == 0,
        b.last_update <= now,
        (now - b.last_update) * c.requests_per_second <= capacity(c),
        k * 1000 <= (now - b.last_update) * c.requests_per_second,
    ensures
        bucket_refill(bucket_consume_n(b, c, now, k), c, now).tokens == (now - b.last_update)
            * c.requests_per_second - k * 1000,
        k > 0 ==> bucket_consume_n(b, c, now, k).last_update == now,
    decreases k,
{
    let t = (now - b.last_update) * c.requests_per_second;
    assert(0 * c.requests_per_second == 0);
    if k > 0 {
        let k1 = (k - 1) as nat;
        assert(k1 * 1000 <= t) by (nonlinear_arith)
            requires
                k * 1000 <= t,
                k1 == k - 1,
        ;
        lemma_refill_drain(b, c, now, k1);
        assert(t - k1 * 1000 == t - k * 1000 + 1000) by (nonlinear_arith)
            requires
                k1 == k - 1,
        ;
        let cur = bucket_consume_n(b, c, now, k);
        assert(cur.tokens == t - k * 1000);
        assert(cur.last_update == now);
        assert(spec_elapsed_between(now, cur.last_update) == 0);
        assert(t - k * 1000 <= capacity(c));
    }
}

/// The refill rate: a bucket that was empty when last filled, asked at
/// `now`, has taken in `requests_per_second` thousandths of a token for each
/// millisecond since (up to its capacity), so it grants exactly as many
/// whole requests as that amount holds tokens, and refuses the next.
pub proof fn lemma_refill_rate(b: BucketModel, c: RateLimitConfig, now: u64, k: nat)
    requires
        b.tokens == 0,
        b.last_update <= now,
        (now - b.last_update) * c.requests_per_second <= capacity(c),
    ensures
        (k + 1) * 1000 <= (now - b.last_update) * c.requests_per_second ==> bucket_consume(
            bucket_consume_n(b, c, now, k),
            c,
            now,
        ).1,
        k * 1000 <= (now - b.last_update) * c.requests_per_second < (k + 1) * 1000 ==> !bucket_consume(
            bucket_consume_n(b, c, now, k),
            c,
            now,
        ).1,
{
    let t = (now - b.last_update) * c.requests_per_second;
    if k * 1000 <= t {
        lemma_refill_drain(b, c, now, k);
    } else if (k + 1) * 1000 <= t {
        assert(k * 1000 <= t) by (nonlinear_arith)
            requires
                (k + 1) * 1000 <= t,
        ;
    }
}

/// A new limiter, or any limiter whose global bucket is full and was last
/// filled at `now`, lets exactly `burst_size` requests through at `now` when
/// per-client limiting is off; the next request is refused by the global
/// limit.
pub proof fn lemma_burst_then_refuse(c: RateLimitConfig, now: u64, k: nat)
    requires
        k <= c.burst_size,
    ensures
        k < c.burst_size ==> bucket_consume(
            bucket_consume_n(bucket_full(c, now), c, now, k),
            c,
            now,
        ).1,
        k == c.burst_size ==> !bucket_consume(
            bucket_consume_n(bucket_full(c, now), c, now, k),
            c,
            now,
        ).1,
{
    lemma_bucket_grants_exactly_its_tokens(bucket_full(c, now), c, now, c.burst_size as nat, k);
}

/// With per-client limiting off, a check's verdict is the global bucket's:
/// it passes exactly when the global bucket has a token to give.
pub proof fn lemma_global_only_verdict(m: LimiterModel, client: Option<ClientIp>, now: u64)
    requires
        !m.config.per_client || client is None,
    ensures
        limiter_check(m, client, now).1 is Ok <==> bucket_consume(m.global, m.config, now).1,
        limiter_check(m, client, now).0.global == bucket_consume(m.global, m.config, now).0,
        limiter_check(m, client, now).0.clients == m.clients,
{
}

/// Waiting longer never leaves a bucket with fewer tokens.
pub proof fn lemma_refill_monotone(b: BucketModel, c: RateLimitConfig, t1: u64, t2: u64)
    requires
        b.last_update <= t1 <= t2,
        b.tokens <= capacity(c),
    ensures
        bucket_refill(b, c, t1).tokens <= bucket_refill(b, c, t2).tokens,
        bucket_refill(b, c, t2).tokens <= capacity(c),
{
    assert((t1 - b.last_update) * c.requests_per_second <= (t2 - b.last_update) * c.requests_per_second)
        by (nonlinear_arith)
        requires
            t1 - b.last_update <= t2 - b.last_update,
            c.requests_per_second >= 0,
    ;
}

/// A check for one client leaves every other client's entry as the sweep
/// left it, and a refusal by the global limit touches no client entry.
pub proof fn lemma_clients_independent(m: LimiterModel, client: ClientIp, now: u64, other: ClientKey)
    requires
        other != ip_key(client),
    ensures
        ({
            let swept = limiter_cleanup(m, now).clients;
            let after = limiter_check(m, Some(client), now).0.clients;
            m.config.per_client && bucket_consume(m.global, m.config, now).1 ==> (after.contains_key(
                other,
            ) == swept.contains_key(other) && (swept.contains_key(other) ==> after[other]
                == swept[other]))
        }),
        !bucket_consume(m.global, m.config, now).1 ==> limiter_check(m, Some(client), now).0.clients
            == m.clients,
{
}

/// A token bucket.
#[derive(Debug)]
struct TokenBucket {
    tokens: u128,
    last_update: u64,
}

impl TokenBucket {
    spec fn model(&self) -> BucketModel {
        BucketModel { tokens: self.tokens, last_update: self.last_update }
    }

    /// Fills the bucket up to time `now` and takes a token if there is one.
    fn try_consume(&mut self, c: RateLimitConfig, now: u64) -> (ok: bool)
        requires
            old(self).tokens <= capacity(c),
        ensures
            (final(self).model(), ok) == bucket_consume(old(self).model(), c, now),
            final(self).tokens <= capacity(c),
    {
        let cap: u128 = (c.burst_size as u128) * MILLI;
        let e = elapsed_between(now, self.last_update);
        proof {
            vstd::arithmetic::mul::lemma_mul_upper_bound(
                e as int,
                u64::MAX as int,
                c.requests_per_second as int,
                u64::MAX as int,
            );
        }
        let add: u128 = (elapsed_between(now, self.last_update) as u128) * (
        c.requests_per_second as u128);
        let filled = if add >= cap - self.tokens { cap } else { self.tokens + add };
        if filled >= MILLI {
            *self = TokenBucket { tokens: filled - MILLI, last_update: now };
            true
        } else {
            *self = TokenBucket { tokens: filled, last_update: now };
            false
        }
    }

    /// Milliseconds until a whole token is available.
    fn wait_time_ms(&self, c: RateLimitConfig) -> (ms: u64)
        requires
            self.tokens < MILLI ==> c.requests_per_second > 0,
        ensures
            ms == bucket_wait_ms(self.model(), c),
    {
        if self.tokens >= MILLI {
            0
        } else {
            let w: u128 = (MILLI - self.tokens) / (c.requests_per_second as u128);
            w as u64
        }
    }
}

/// A client's address: IPv4 or IPv6, as a number.
#[derive(Debug, Clone, Copy, PartialEq, Eq, Structural)]
pub enum ClientIp {
    V4(u32),
    V6(u128),
}

/// The key under which a client's bucket is kept.
pub open spec fn ip_key(ip: ClientIp) -> (u8, u128) {
    match ip {
        ClientIp::V4(a) => (4u8, a as u128),
        ClientIp::V6(a) => (6u8, a),
    }
}

fn client_key(ip: ClientIp) -> (k: (u8, u128))
    ensures
        k == ip_key(ip),
{
    match ip {
        ClientIp::V4(a) => (4u8, a as u128),
        ClientIp::V6(a) => (6u8, a),
    }
}

/// A client entry: thousandths of tokens, last fill time, last request time.
pub type ClientEntry = (u128, u64, u64);

/// The key of a client entry: address family (4 or 6) and address.
pub type ClientKey = (u8, u128);

#[verifier::external_type_specification]
#[verifier::external_body]
#[verifier::reject_recursive_types(K)]
#[verifier::reject_recursive_types(V)]
#[verifier::reject_recursive_types(S)]
pub struct ExDashMap<K, V, S>(DashMap<K, V, S>);

/// The entries a client table holds.
pub uninterp spec fn client_table(m: DashMap<ClientKey, ClientEntry>) -> Map<ClientKey, ClientEntry>;

/// Calls `DashMap::new`, which creates an empty map.
#[verifier::external_body]
fn table_new() -> (table: DashMap<ClientKey, ClientEntry>)
    ensures
        client_table(table) =~= Map::empty(),
{
    DashMap::new()
}

/// Calls `DashMap::get`, which yields the entry for `key` if there is one;
/// the entry is copied out.
#[verifier::external_body]
fn table_get(m: &DashMap<ClientKey, ClientEntry>, key: ClientKey) -> (r: Option<ClientEntry>)
    ensures
        match r {
            Some(v) => client_table(*m).contains_key(key) && client_table(*m)[key] == v,
            None => !client_table(*m).contains_key(key),
        },
{
    m.get(&key).map(|e| *e)
}

/// Calls `DashMap::insert`, which sets the entry for `key` to `value`,
/// replacing any entry it had.
#[verifier::external_body]
fn table_insert(m: &mut DashMap<ClientKey, ClientEntry>, key: ClientKey, value: ClientEntry)
    ensures
        client_table(*final(m)) == client_table(*old(m)).insert(key, value),
{
    m.insert(key, value);
}

/// Calls `DashMap::len`, the number of entries.
#[verifier::external_body]
fn table_len(m: &DashMap<ClientKey, ClientEntry>) -> (n: usize)
    ensures
        n == client_table(*m).len(),
{
    m.len()
}

/// Whether a client entry was used within the last `ttl_ms` milliseconds
/// before `now`.
pub open spec fn entry_fresh(e: (u128, u64, u64), now: u64, ttl_ms: u64) -> bool {
    !(spec_elapsed_between(now, e.2) > ttl_ms)
}

/// Executable form of [`entry_fresh`].
pub fn is_entry_fresh(e: (u128, u64, u64), now: u64, ttl_ms: u64) -> (r: bool)
    ensures
        r == entry_fresh(e, now, ttl_ms),
{
    !(elapsed_between(now, e.2) > ttl_ms)
}

/// The entries of `t` that are still fresh at `now`.
pub open spec fn fresh_entries(t: Map<ClientKey, ClientEntry>, now: u64, ttl_ms: u64) -> Map<ClientKey, ClientEntry> {
    Map::new(|k: (u8, u128)| t.contains_key(k) && entry_fresh(t[k], now, ttl_ms), |k: (u8, u128)| t[k])
}

/// Calls `DashMap::retain`, which keeps exactly the entries for which the
/// predicate holds; the predicate is [`is_entry_fresh`].
#[verifier::external_body]
fn table_retain_fresh(m: &mut DashMap<ClientKey, ClientEntry>, now: u64, ttl_ms: u64)
    ensures
        client_table(*final(m)) == fresh_entries(client_table(*old(m)), now, ttl_ms),
{
    m.retain(|_, e| is_entry_fresh(*e, now, ttl_ms));
}

/// Type of rate limit that was exceeded.
#[derive(Debug, Clone, Copy, PartialEq, Eq, Structural)]
pub enum RateLimitType {
    /// Global rate limit was exceeded.
    Global,
    /// Per-client rate limit was exceeded.
    PerClient,
}

/// Information about a rate limit rejection.
#[derive(Debug, Clone, Copy, PartialEq, Eq, Structural)]
pub struct RateLimitInfo {
    /// Type of rate limit that was exceeded.
    pub limit_type: RateLimitType,
    /// Suggested time to wait before retrying, in milliseconds.
    pub retry_after_ms: u64,
    /// Remaining requests in the current window.
    pub remaining: u64,
}

impl RateLimitInfo {
    /// The `Retry-After` header value: whole seconds, at least one.
    pub fn retry_after_secs(&self) -> (s: u64)
        ensures
            s == if self.retry_after_ms / 1000 >= 1 { self.retry_after_ms / 1000 } else { 1 },
            s >= 1,
    {
        let secs = self.retry_after_ms / 1000;
        if secs >= 1 { secs } else { 1 }
    }
}

/// Rate limiter statistics.
#[derive(Debug, Clone, Copy)]
pub struct RateLimitStats {
    /// Whole tokens available in the global bucket.
    pub global_available: u64,
    /// Number of tracked clients.
    pub client_count: usize,
    /// Configured requests per second.
    pub requests_per_second: u64,
    /// Configured burst size.
    pub burst_size: u64,
}

/// The abstract state of a rate limiter.
pub struct LimiterModel {
    pub config: RateLimitConfig,
    pub global: BucketModel,
    pub clients: Map<ClientKey, ClientEntry>,
    pub last_cleanup: u64,
}

/// Well-formedness: no bucket holds more than its capacity.
pub open spec fn limiter_wf(m: LimiterModel) -> bool {
    &&& m.global.tokens <= capacity(m.config)
    &&& forall|k: (u8, u128)| #[trigger] m.clients.contains_key(k) ==> m.clients[k].0 <= capacity(
        m.config,
    )
    &&& m.clients.dom().finite()
}

/// The limiter after the periodic sweep at `now`: at most once a minute,
/// client entries idle for longer than their time-to-live are dropped.
pub open spec fn limiter_cleanup(m: LimiterModel, now: u64) -> LimiterModel {
    if spec_elapsed_between(now, m.last_cleanup) < CLEANUP_INTERVAL_MS {
        m
    } else {
        LimiterModel {
            last_cleanup: now,
            clients: fresh_entries(m.clients, now, m.config.client_ttl_ms),
            ..m
        }
    }
}

/// The bucket of client key `k` before a request at `now`: its entry, or a
/// full new bucket.
pub open spec fn client_bucket(m: LimiterModel, k: (u8, u128), now: u64) -> BucketModel {
    if m.clients.contains_key(k) {
        BucketModel { tokens: m.clients[k].0, last_update: m.clients[k].1 }
    } else {
        bucket_full(m.config, now)
    }
}

/// Checking a request from `client` at time `now`: the limiter afterwards
/// and the verdict.  The global bucket is tried first; then, when per-client
/// limiting is on and the client is known, the client's own bucket.
pub open spec fn limiter_check(m: LimiterModel, client: Option<ClientIp>, now: u64) -> (
    LimiterModel,
    Result<(), RateLimitInfo>,
) {
    let (g, ok) = bucket_consume(m.global, m.config, now);
    let m0 = LimiterModel { global: g, ..m };
    if !ok {
        (
            m0,
            Err(
                RateLimitInfo {
                    limit_type: RateLimitType::Global,
                    retry_after_ms: bucket_wait_ms(g, m.config),
                    remaining: 0,
                },
            ),
        )
    } else if m.config.per_client && client is Some {
        let m1 = limiter_cleanup(m0, now);
        let k = ip_key(client->0);
        let (b, ok2) = bucket_consume(client_bucket(m1, k, now), m.config, now);
        let m2 = LimiterModel { clients: m1.clients.insert(k, (b.tokens, b.last_update, now)), ..m1 };
        if ok2 {
            (m2, Ok(()))
        } else {
            (
                m2,
                Err(
                    RateLimitInfo {
                        limit_type: RateLimitType::PerClient,
                        retry_after_ms: bucket_wait_ms(b, m.config),
                        remaining: 0,
                    },
                ),
            )
        }
    } else {
        (m0, Ok(()))
    }
}

/// Whether deciding the request would have to compute a waiting time at a zero fill
/// rate, which has no answer (the rejection would wait forever).
pub open spec fn check_has_no_wait(m: LimiterModel, client: Option<ClientIp>, now: u64) -> bool {
    &&& m.config.requests_per_second == 0
    &&& limiter_check(m, client, now).1 is Err
}

/// The addresses, as text, that the forwarding headers name for the client,
/// in the order they are to be tried: when the headers are trusted, the
/// first entry of X-Forwarded-For, then X-Real-IP, each without surrounding
/// white space.  A header whose value is not text is skipped.
pub open spec fn ip_candidates(trust: bool, h: Seq<(Seq<char>, Seq<u8>)>) -> Seq<Seq<char>> {
    if !trust {
        Seq::empty()
    } else {
        let xff = match header_get(h, "x-forwarded-for"@) {
            Some(v) => match value_text(v) {
                Some(t) => seq![trim_seq(before_first(t, ','))],
                None => Seq::empty(),
            },
            None => Seq::empty(),
        };
        let xri = match header_get(h, "x-real-ip"@) {
            Some(v) => match value_text(v) {
                Some(t) => seq![trim_seq(t)],
                None => Seq::empty(),
            },
            None => Seq::empty(),
        };
        xff + xri
    }
}

/// The client address chosen from the parsed candidates: the first that
/// parsed, else the address of the connection.
pub open spec fn first_parsed(parsed: Seq<Option<ClientIp>>, socket: Option<ClientIp>) -> Option<ClientIp>
    decreases parsed.len(),
{
    if parsed.len() == 0 {
        socket
    } else if parsed[0] is Some {
        parsed[0]
    } else {
        first_parsed(parsed.drop_first(), socket)
    }
}

/// Chooses the client address: the first candidate that parsed as an IP
/// address, else the connection's own address.
pub fn select_client_ip(parsed: &Vec<Option<ClientIp>>, socket: Option<ClientIp>) -> (r: Option<ClientIp>)
    ensures
        r == first_parsed(parsed@, socket),
{
    let n = parsed.len();
    let mut i: usize = 0;
    assert(parsed@.subrange(0, n as int) =~= parsed@);
    while i < n
        invariant
            n == parsed@.len(),
            i <= n,
            first_parsed(parsed@, socket) == first_parsed(parsed@.subrange(i as int, n as int), socket),
        decreases n - i,
    {
        let ghost sub = parsed@.subrange(i as int, n as int);
        assert(sub[0] == parsed@[i as int]);
        assert(sub.drop_first() =~= parsed@.subrange(i + 1, n as int));
        if parsed[i].is_some() {
            return parsed[i];
        }
        i = i + 1;
    }
    socket
}

fn header_text(headers: &RequestHeaders, name: &str) -> (r: Option<Vec<char>>)
    ensures
        match r {
            Some(t) => (match header_get(headers.view(), name@) {
                Some(v) => value_text(v) == Some(t@),
                None => false,
            }),
            None => match header_get(headers.view(), name@) {
                Some(v) => value_text(v) is None,
                None => true,
            },
        },
{
    match headers.get(name) {
        Some(v) => match value_to_text(&v) {
            Some(t) => Some(chars_of(t.as_str())),
            None => None,
        },
        None => None,
    }
}

/// Rate limiter with support for global and per-client limiting.
pub struct RateLimiter {
    config: RateLimitConfig,
    global_bucket: TokenBucket,
    client_buckets: DashMap<ClientKey, ClientEntry>,
    last_cleanup: u64,
    started: Instant,
}

impl View for RateLimiter {
    type V = LimiterModel;

    closed spec fn view(&self) -> LimiterModel {
        LimiterModel {
            config: self.config,
            global: self.global_bucket.model(),
            clients: client_table(self.client_buckets),
            last_cleanup: self.last_cleanup,
        }
    }
}

impl RateLimiter {
    /// Creates a rate limiter with a full global bucket and no clients.
    pub fn new(config: RateLimitConfig) -> (r: Self)
        ensures
            r@.config == config,
            r@.global == bucket_full(config, 0),
            r@.clients == Map::<ClientKey, ClientEntry>::empty(),
            r@.last_cleanup == 0,
            limiter_wf(r@),
    {
        RateLimiter {
            config,
            global_bucket: TokenBucket { tokens: (config.burst_size as u128) * MILLI, last_update: 0 },
            client_buckets: table_new(),
            last_cleanup: 0,
            started: instant_now(),
        }
    }

    /// Creates a rate limiter with the default configuration.
    pub fn with_defaults() -> (r: Self)
        ensures
            r@.config == RateLimitConfig::spec_default(),
            r@.global == bucket_full(RateLimitConfig::spec_default(), 0),
            r@.clients == Map::<ClientKey, ClientEntry>::empty(),
            r@.last_cleanup == 0,
    {
        RateLimiter::new(RateLimitConfig::default())
    }

    /// Milliseconds since this limiter was created, read from the clock.
    pub fn now_ms(&self) -> u64 {
        elapsed_ms(&self.started)
    }

    /// Checks a request from `client_ip` at time `now` (milliseconds since
    /// creation): `Ok` if it may proceed, `Err` with the limit that refused
    /// it and how long to wait.
    pub fn check_at(&mut self, client_ip: Option<ClientIp>, now: u64) -> (r: Result<(), RateLimitInfo>)
        requires
            limiter_wf(old(self)@),
            !check_has_no_wait(old(self)@, client_ip, now),
        ensures
            (final(self)@, r) == limiter_check(old(self)@, client_ip, now),
            limiter_wf(final(self)@),
    {
        let ghost m = self@;
        let config = self.config;
        let mut global = TokenBucket { tokens: self.global_bucket.tokens, last_update: self.global_bucket.last_update };
        let ok = global.try_consume(config, now);
        if !ok {
            let wait = global.wait_time_ms(config);
            self.global_bucket = global;
            return Err(RateLimitInfo { limit_type: RateLimitType::Global, retry_after_ms: wait, remaining: 0 });
        }
        self.global_bucket = global;
        if config.per_client {
            if let Some(ip) = client_ip {
                self.maybe_cleanup(now);
                let key = client_key(ip);
                let mut bucket = match table_get(&self.client_buckets, key) {
                    Some(e) => TokenBucket { tokens: e.0, last_update: e.1 },
                    None => TokenBucket { tokens: (config.burst_size as u128) * MILLI, last_update: now },
                };
                let ok2 = bucket.try_consume(config, now);
                let entry: (u128, u64, u64) = (bucket.tokens, bucket.last_update, now);
                table_insert(&mut self.client_buckets, key, entry);
                if !ok2 {
                    let wait = bucket.wait_time_ms(config);
                    return Err(RateLimitInfo { limit_type: RateLimitType::PerClient, retry_after_ms: wait, remaining: 0 });
                }
            }
        }
        Ok(())
    }

    /// Whether a request from `client_ip` at `now` would be refused with a
    /// wait that never ends (a zero fill rate): the one case in which
    /// [`RateLimiter::check_at`] has no answer.  Nothing is changed.
    pub fn refusal_waits_forever(&self, client_ip: Option<ClientIp>, now: u64) -> (r: bool)
        requires
            limiter_wf(self@),
        ensures
            r == check_has_no_wait(self@, client_ip, now),
    {
        let config = self.config;
        if config.requests_per_second != 0 {
            return false;
        }
        let mut global = TokenBucket { tokens: self.global_bucket.tokens, last_update: self.global_bucket.last_update };
        let ok = global.try_consume(config, now);
        if !ok {
            return true;
        }
        if config.per_client {
            if let Some(ip) = client_ip {
                let key = client_key(ip);
                let due = !(elapsed_between(now, self.last_cleanup) < CLEANUP_INTERVAL_MS);
                let full = TokenBucket { tokens: (config.burst_size as u128) * MILLI, last_update: now };
                let mut bucket = match table_get(&self.client_buckets, key) {
                    Some(e) => if due && !is_entry_fresh(e, now, config.client_ttl_ms) {
                        full
                    } else {
                        TokenBucket { tokens: e.0, last_update: e.1 }
                    },
                    None => full,
                };
                let ok2 = bucket.try_consume(config, now);
                return !ok2;
            }
        }
        false
    }

    /// Checks a request from `client_ip` now, reading the clock.
    pub fn check(&mut self, client_ip: Option<ClientIp>) -> (r: Result<(), RateLimitInfo>)
        requires
            limiter_wf(old(self)@),
            forall|now: u64| !check_has_no_wait(old(self)@, client_ip, now),
        ensures
            exists|now: u64| (final(self)@, r) == #[trigger] limiter_check(old(self)@, client_ip, now),
            limiter_wf(final(self)@),
    {
        let now = self.now_ms();
        self.check_at(client_ip, now)
    }

    /// Drops idle client entries, at most once a minute.
    fn maybe_cleanup(&mut self, now: u64)
        requires
            limiter_wf(old(self)@),
        ensures
            final(self)@ == limiter_cleanup(old(self)@, now),
            limiter_wf(final(self)@),
    {
        if elapsed_between(now, self.last_cleanup) < CLEANUP_INTERVAL_MS {
            return;
        }
        self.last_cleanup = now;
        table_retain_fresh(&mut self.client_buckets, now, self.config.client_ttl_ms);
        proof {
            let t = old(self)@.clients;
            let f = fresh_entries(t, now, self.config.client_ttl_ms);
            assert(f.dom().subset_of(t.dom()));
            vstd::set_lib::lemma_set_subset_finite(t.dom(), f.dom());
        }
    }

    /// The client addresses, as text, that the forwarding headers name, in
    /// the order they are to be tried; empty unless the configuration trusts
    /// these headers.  The caller parses them and picks the client with
    /// [`select_client_ip`], falling back to the connection's address.
    pub fn client_ip_candidates(&self, headers: &RequestHeaders) -> (r: Vec<String>)
        ensures
            r@.map_values(|s: String| s@) == ip_candidates(self@.config.trust_forwarded_for, headers.view()),
    {
        let mut r: Vec<String> = Vec::new();
        if !self.config.trust_forwarded_for {
            assert(r@.map_values(|s: String| s@) =~= Seq::<Seq<char>>::empty());
            return r;
        }
        if let Some(t) = header_text(headers, "x-forwarded-for") {
            let first = chars_before_first(&t, ',');
            let trimmed = trim_chars(&first);
            r.push(string_from_chars(&trimmed));
        }
        if let Some(t) = header_text(headers, "x-real-ip") {
            let trimmed = trim_chars(&t);
            r.push(string_from_chars(&trimmed));
        }
        assert(r@.map_values(|s: String| s@) =~= ip_candidates(true, headers.view()));
        r
    }

    /// Returns the current statistics.
    pub fn stats(&self) -> (s: RateLimitStats)
        requires
            limiter_wf(self@),
        ensures
            s.global_available == self@.global.tokens / MILLI,
            s.client_count == self@.clients.len(),
            s.requests_per_second == self@.config.requests_per_second,
            s.burst_size == self@.config.burst_size,
    {
        RateLimitStats {
            global_available: (self.global_bucket.tokens / MILLI) as u64,
            client_count: table_len(&self.client_buckets),
            requests_per_second: self.config.requests_per_second,
            burst_size: self.config.burst_size,
        }
    }

    /// The configuration.
    pub fn config(&self) -> (c: RateLimitConfig)
        ensures
            c == self@.config,
    {
        self.config
    }
}

/// Rate limiter middleware wrapper, sharing one limiter among the
/// connections it serves.
pub struct RateLimitLayer {
    limiter: Arc<RateLimiter>,
}

impl RateLimitLayer {
    /// The limiter the layer shares.
    pub closed spec fn spec_limiter(&self) -> LimiterModel {
        self.limiter@
    }

    /// Creates a new rate limit layer.
    pub fn new(limiter: Arc<RateLimiter>) -> (r: Self)
        ensures
            r.spec_limiter() == limiter@,
    {
        RateLimitLayer { limiter }
    }

    /// Returns the underlying rate limiter.
    pub fn limiter(&self) -> (r: &Arc<RateLimiter>)
        ensures
            r@ == self.spec_limiter(),
    {
        &self.limiter
    }
}

impl Clone for RateLimitLayer {
    fn clone(&self) -> (r: Self)
        ensures
            r.spec_limiter() == self.spec_limiter(),
    {
        RateLimitLayer { limiter: Arc::clone(&self.limiter) }
    }
}

} // verus!
