//! Retry policy with exponential backoff.
//!
//! The delay before retry `n` (counting from 0) is the base delay scaled `n`
//! times by the backoff multiplier (kept in thousandths, each step rounded
//! down to a microsecond), capped at `max_delay_ms`; with
//! jitter enabled it is then scaled by a random factor in `[0.5, 1.5)`,
//! drawn in thousandths.  Connection errors and timeouts are retryable, as
//! are the configured HTTP status codes, while retries remain.

use crate::text::{chars_of, contains, seq_contains};
use rand::Rng;
use vstd::prelude::*;

verus! {

/// `b` to the power `e`.
pub open spec fn power(b: int, e: nat) -> int
    decreases e,
{
    if e == 0 {
        1
    } else {
        b * power(b, (e - 1) as nat)
    }
}

/// Configuration for retry behaviour.
#[derive(Debug)]
pub struct RetryConfig {
    /// Maximum number of retries (excluding the initial request).
    pub max_retries: u32,
    /// Delay before the first retry, in milliseconds.
    pub base_delay_ms: u64,
    /// Maximum delay between retries, in milliseconds.
    pub max_delay_ms: u64,
    /// Factor by which the delay grows with each retry, in thousandths
    /// (2000 doubles the delay, 1500 multiplies it by one and a half).
    pub backoff_multiplier_permille: u64,
    /// Whether to scale delays by a random factor.
    pub use_jitter: bool,
    /// HTTP status codes that should trigger a retry.
    pub retryable_status_codes: Vec<u16>,
}

/// The retry settings, as plain values.
pub struct RetryConfigView {
    pub max_retries: u32,
    pub base_delay_ms: u64,
    pub max_delay_ms: u64,
    pub backoff_multiplier_permille: u64,
    pub use_jitter: bool,
    pub retryable_status_codes: Seq<u16>,
}

impl View for RetryConfig {
    type V = RetryConfigView;

    open spec fn view(&self) -> RetryConfigView {
        RetryConfigView {
            max_retries: self.max_retries,
            base_delay_ms: self.base_delay_ms,
            max_delay_ms: self.max_delay_ms,
            backoff_multiplier_permille: self.backoff_multiplier_permille,
            use_jitter: self.use_jitter,
            retryable_status_codes: self.retryable_status_codes@,
        }
    }
}

/// The default retry settings.
pub open spec fn default_retry_config() -> RetryConfigView {
    RetryConfigView {
        max_retries: 3,
        base_delay_ms: 100,
        max_delay_ms: 10_000,
        backoff_multiplier_permille: 2000,
        use_jitter: true,
        retryable_status_codes: seq![502u16, 503u16, 504u16],
    }
}

impl Default for RetryConfig {
    fn default() -> (c: Self)
        ensures
            c@ == default_retry_config(),
    {
        let c = RetryConfig {
            max_retries: 3,
            base_delay_ms: 100,
            max_delay_ms: 10_000,
            backoff_multiplier_permille: 2000,
            use_jitter: true,
            retryable_status_codes: vec![502u16, 503u16, 504u16],
        };
        assert(c@.retryable_status_codes =~= seq![502u16, 503u16, 504u16]);
        c
    }
}

impl Clone for RetryConfig {
    fn clone(&self) -> (c: Self)
        ensures
            c@ == self@,
    {
        let codes = self.retryable_status_codes.clone();
        assert(codes@ =~= self.retryable_status_codes@);
        RetryConfig {
            max_retries: self.max_retries,
            base_delay_ms: self.base_delay_ms,
            max_delay_ms: self.max_delay_ms,
            backoff_multiplier_permille: self.backoff_multiplier_permille,
            use_jitter: self.use_jitter,
            retryable_status_codes: codes,
        }
    }
}

impl RetryConfig {
    /// Creates a retry configuration with default values.
    pub fn new() -> (c: Self)
        ensures
            c@ == default_retry_config(),
    {
        RetryConfig::default()
    }

    /// Sets the maximum number of retries.
    pub fn with_max_retries(self, max_retries: u32) -> (c: Self)
        ensures
            c@ == (RetryConfigView { max_retries, ..self@ }),
    {
        let mut c = self;
        c.max_retries = max_retries;
        c
    }

    /// Sets the delay before the first retry, in milliseconds.
    pub fn with_base_delay(self, delay_ms: u64) -> (c: Self)
        ensures
            c@ == (RetryConfigView { base_delay_ms: delay_ms, ..self@ }),
    {
        let mut c = self;
        c.base_delay_ms = delay_ms;
        c
    }

    /// Sets the maximum delay between retries, in milliseconds.
    pub fn with_max_delay(self, delay_ms: u64) -> (c: Self)
        ensures
            c@ == (RetryConfigView { max_delay_ms: delay_ms, ..self@ }),
    {
        let mut c = self;
        c.max_delay_ms = delay_ms;
        c
    }

    /// Sets the backoff multiplier, in thousandths.
    pub fn with_backoff_multiplier(self, multiplier_permille: u64) -> (c: Self)
        ensures
            c@ == (RetryConfigView { backoff_multiplier_permille: multiplier_permille, ..self@ }),
    {
        let mut c = self;
        c.backoff_multiplier_permille = multiplier_permille;
        c
    }

    /// Enables or disables jitter.
    pub fn with_jitter(self, use_jitter: bool) -> (c: Self)
        ensures
            c@ == (RetryConfigView { use_jitter, ..self@ }),
    {
        let mut c = self;
        c.use_jitter = use_jitter;
        c
    }

    /// Sets the HTTP status codes that should trigger a retry.
    pub fn with_retryable_status_codes(self, codes: Vec<u16>) -> (c: Self)
        ensures
            c@ == (RetryConfigView { retryable_status_codes: codes@, ..self@ }),
    {
        let mut c = self;
        c.retryable_status_codes = codes;
        c
    }

    /// Checks if a status code should trigger a retry.
    pub fn is_retryable_status(&self, status: u16) -> (r: bool)
        ensures
            r == self@.retryable_status_codes.contains(status),
    {
        let mut i: usize = 0;
        while i < self.retryable_status_codes.len()
            invariant
                i <= self@.retryable_status_codes.len(),
                forall|k: int| 0 <= k < i ==> self@.retryable_status_codes[k] != status,
            decreases self@.retryable_status_codes.len() - i,
        {
            if self.retryable_status_codes[i] == status {
                assert(self@.retryable_status_codes[i as int] == status);
                return true;
            }
            i = i + 1;
        }
        false
    }
}

/// The delay before retry `attempt` in microseconds, before the cap: the
/// base delay scaled by the multiplier once per retry, each step rounded
/// down to a whole microsecond.
pub open spec fn scaled_delay_us(c: RetryConfigView, attempt: nat) -> nat
    decreases attempt,
{
    if attempt == 0 {
        (c.base_delay_ms * 1000) as nat
    } else {
        (scaled_delay_us(c, (attempt - 1) as nat) * c.backoff_multiplier_permille / 1000) as nat
    }
}

/// The delay before retry `attempt`, without jitter, in whole milliseconds:
/// the scaled delay capped at the maximum delay.
pub open spec fn backoff_delay(c: RetryConfigView, attempt: nat) -> u64 {
    let d = scaled_delay_us(c, attempt) / 1000;
    if d >= c.max_delay_ms {
        c.max_delay_ms
    } else {
        d as u64
    }
}

/// A delay scaled by a jitter factor given in thousandths, saturated at
/// `u64::MAX`.
pub open spec fn jittered(delay: u64, jitter_permille: u64) -> u64 {
    let d = delay * jitter_permille / 1000;
    if d > u64::MAX {
        u64::MAX
    } else {
        d as u64
    }
}

/// The delay before retry `attempt` for a given jitter factor: the backoff
/// delay, scaled when jitter is enabled.
pub open spec fn retry_delay(c: RetryConfigView, attempt: nat, jitter_permille: u64) -> u64 {
    if c.use_jitter {
        jittered(backoff_delay(c, attempt), jitter_permille)
    } else {
        backoff_delay(c, attempt)
    }
}

/// Calls `rand::Rng::gen_range(low..high)` on the thread-local generator
/// (`rand::thread_rng`): a number drawn from `[low, high)`.  Only the range is
/// claimed; the draw itself is random.
#[verifier::external_body]
fn random_in_range(low: u64, high: u64) -> (r: u64)
    requires
        low < high,
    ensures
        low <= r < high,
{
    rand::thread_rng().gen_range(low..high)
}

/// Whether an error message, already lowercased, names a failure worth
/// retrying: a connection problem, a timeout, a reset or a refusal.
pub open spec fn transient_failure_text(lowered: Seq<char>) -> bool {
    ||| seq_contains(lowered, "connection"@)
    ||| seq_contains(lowered, "timeout"@)
    ||| seq_contains(lowered, "reset"@)
    ||| seq_contains(lowered, "refused"@)
}

/// Whether a lowercased error message names a failure worth retrying.
pub fn is_transient_failure_text(lowered: &str) -> (r: bool)
    ensures
        r == transient_failure_text(lowered@),
{
    let t = chars_of(lowered);
    let a = chars_of("connection");
    let b = chars_of("timeout");
    let c = chars_of("reset");
    let d = chars_of("refused");
    contains(&t, &a) || contains(&t, &b) || contains(&t, &c) || contains(&t, &d)
}

/// What `str::to_lowercase` returns for a string: its characters mapped by
/// the Unicode lowercase mapping.
pub uninterp spec fn unicode_lowercase(s: Seq<char>) -> Seq<char>;

/// Calls `str::to_lowercase`.  The result depends on the string alone; the
/// Unicode case tables that define it are not restated here.
#[verifier::external_body]
fn to_lowercase(s: &str) -> (r: String)
    ensures
        r@ == unicode_lowercase(s@),
{
    s.to_lowercase()
}

/// With a multiplier of at least one, the scaled delay never shrinks from
/// one retry to a later one.
pub proof fn lemma_scaled_grows(c: RetryConfigView, k1: nat, k2: nat)
    requires
        k1 <= k2,
        c.backoff_multiplier_permille >= 1000,
    ensures
        scaled_delay_us(c, k1) <= scaled_delay_us(c, k2),
    decreases k2,
{
    if k2 > k1 {
        let k = (k2 - 1) as nat;
        lemma_scaled_grows(c, k1, k);
        let d = scaled_delay_us(c, k) as int;
        let m = c.backoff_multiplier_permille as int;
        assert(d * 1000 <= d * m) by (nonlinear_arith)
            requires
                d >= 0,
                m >= 1000,
        ;
        vstd::arithmetic::div_mod::lemma_div_is_ordered(d * 1000, d * m, 1000);
        vstd::arithmetic::div_mod::lemma_div_multiples_vanish(d, 1000);
        assert(1000 * d == d * 1000) by (nonlinear_arith);
    }
}

/// The backoff delay never exceeds the maximum delay, and with a multiplier
/// of at least one it never shrinks from one retry to a later one.
pub proof fn lemma_backoff_bounded_and_growing(c: RetryConfigView, a1: nat, a2: nat)
    requires
        a1 <= a2,
        c.backoff_multiplier_permille >= 1000,
    ensures
        backoff_delay(c, a1) <= c.max_delay_ms,
        backoff_delay(c, a1) <= backoff_delay(c, a2),
{
    lemma_scaled_grows(c, a1, a2);
    vstd::arithmetic::div_mod::lemma_div_is_ordered(
        scaled_delay_us(c, a1) as int,
        scaled_delay_us(c, a2) as int,
        1000,
    );
}

/// With a whole multiplier `w` (a multiple of a thousand thousandths), no
/// rounding happens: the delay before retry `a`, before the cap, is exactly
/// `base_delay_ms * w^a` milliseconds.
pub proof fn lemma_whole_multiplier(c: RetryConfigView, a: nat)
    requires
        c.backoff_multiplier_permille % 1000 == 0,
    ensures
        scaled_delay_us(c, a) == 1000 * (c.base_delay_ms * power(
            (c.backoff_multiplier_permille / 1000) as int,
            a,
        )),
    decreases a,
{
    let w = (c.backoff_multiplier_permille / 1000) as int;
    let m = c.backoff_multiplier_permille as int;
    if a > 0 {
        let k = (a - 1) as nat;
        lemma_whole_multiplier(c, k);
        let b = c.base_delay_ms * power(w, k);
        assert(m == 1000 * w);
        assert(power(w, a) == w * power(w, k));
        assert((1000 * b) * m == 1000 * (1000 * (b * w))) by (nonlinear_arith)
            requires
                m == 1000 * w,
        ;
        vstd::arithmetic::div_mod::lemma_div_multiples_vanish(1000 * (b * w), 1000);
        assert(c.base_delay_ms * power(w, a) == b * w) by (nonlinear_arith)
            requires
                power(w, a) == w * power(w, k),
                b == c.base_delay_ms * power(w, k),
        ;
    }
}

/// With a whole multiplier and below the cap, each retry waits the
/// multiplier times as long as the one before (100, 200, 400, ... with the
/// defaults).
pub proof fn lemma_backoff_step(c: RetryConfigView, a: nat)
    requires
        c.backoff_multiplier_permille % 1000 == 0,
        backoff_delay(c, a + 1) < c.max_delay_ms,
    ensures
        backoff_delay(c, a + 1) == (c.backoff_multiplier_permille / 1000) * backoff_delay(c, a),
{
    let w = (c.backoff_multiplier_permille / 1000) as int;
    lemma_whole_multiplier(c, a);
    lemma_whole_multiplier(c, a + 1);
    lemma_power_nonneg(w, a);
    let b = c.base_delay_ms * power(w, a);
    assert(b >= 0) by (nonlinear_arith)
        requires
            power(w, a) >= 0,
            c.base_delay_ms >= 0,
            b == c.base_delay_ms * power(w, a),
    ;
    assert(power(w, a + 1) == w * power(w, a));
    assert(c.base_delay_ms * power(w, a + 1) == w * b) by (nonlinear_arith)
        requires
            power(w, a + 1) == w * power(w, a),
            b == c.base_delay_ms * power(w, a),
    ;
    vstd::arithmetic::div_mod::lemma_div_multiples_vanish(b, 1000);
    vstd::arithmetic::div_mod::lemma_div_multiples_vanish(w * b, 1000);
    if w >= 1 {
        assert(b <= w * b) by (nonlinear_arith)
            requires
                w >= 1,
                b >= 0,
        ;
    } else {
        assert(w * b == 0) by (nonlinear_arith)
            requires
                w == 0,
        ;
    }
}

/// Powers of a natural number are natural numbers.
proof fn lemma_power_nonneg(b: int, e: nat)
    requires
        b >= 0,
    ensures
        power(b, e) >= 0,
    decreases e,
{
    if e > 0 {
        lemma_power_nonneg(b, (e - 1) as nat);
        let p = power(b, (e - 1) as nat);
        assert(b * p >= 0) by (nonlinear_arith)
            requires
                b >= 0,
                p >= 0,
        ;
    }
}

/// A jittered delay lies between half and one and a half times the delay.
pub proof fn lemma_jitter_bounds(d: u64, j: u64)
    requires
        500 <= j < 1500,
    ensures
        d / 2 <= jittered(d, j),
        jittered(d, j) <= d * 3 / 2,
{
    assert(d * 500 <= d * j <= d * 1500) by (nonlinear_arith)
        requires
            500 <= j < 1500,
            d >= 0,
    ;
    assert(d * 500 / 1000 == d / 2) by (nonlinear_arith);
    assert(d * 1500 / 1000 == d * 3 / 2) by (nonlinear_arith);
    vstd::arithmetic::div_mod::lemma_div_is_ordered(d * 500, d * j, 1000);
    vstd::arithmetic::div_mod::lemma_div_is_ordered(d * j, d * 1500, 1000);
    assert(d * 3 / 2 <= u64::MAX * 3 / 2);
    if d * j / 1000 > u64::MAX {
    }
}

/// Retry policy: when and how long to wait before retrying.
#[derive(Debug)]
pub struct RetryPolicy {
    config: RetryConfig,
    attempt: u32,
}

impl RetryPolicy {
    /// The settings.
    pub closed spec fn config_view(&self) -> RetryConfigView {
        self.config@
    }

    /// The number of retries recorded so far.
    pub closed spec fn attempts(&self) -> u32 {
        self.attempt
    }

    /// Creates a retry policy with no retries recorded.
    pub fn new(config: RetryConfig) -> (p: Self)
        ensures
            p.config_view() == config@,
            p.attempts() == 0,
    {
        RetryPolicy { config, attempt: 0 }
    }

    /// Returns the number of retries recorded so far.
    pub fn attempt(&self) -> (a: u32)
        ensures
            a == self.attempts(),
    {
        self.attempt
    }

    /// Returns the maximum number of retries.
    pub fn max_retries(&self) -> (m: u32)
        ensures
            m == self.config_view().max_retries,
    {
        self.config.max_retries
    }

    /// Checks if more retries are available.
    pub fn has_remaining_retries(&self) -> (b: bool)
        ensures
            b == (self.attempts() < self.config_view().max_retries),
    {
        self.attempt < self.config.max_retries
    }

    /// The backoff delay before the next retry, without jitter.
    pub fn backoff_delay_ms(&self) -> (d: u64)
        ensures
            d == backoff_delay(self.config_view(), self.attempts() as nat),
    {
        let ghost cv = self.config@;
        let max = self.config.max_delay_ms;
        let m: u128 = self.config.backoff_multiplier_permille as u128;
        let attempt = self.attempt;
        let mut d: u128 = (self.config.base_delay_ms as u128) * 1000;
        let mut k: u32 = 0;
        while k < attempt
            invariant
                k <= attempt,
                cv == self.config_view(),
                attempt == self.attempts(),
                max == cv.max_delay_ms,
                m == cv.backoff_multiplier_permille,
                d == scaled_delay_us(cv, k as nat),
                m < 1000 ==> d <= cv.base_delay_ms * 1000,
            decreases attempt - k,
        {
            if m >= 1000 && d / 1000 >= max as u128 {
                proof {
                    lemma_scaled_grows(cv, k as nat, attempt as nat);
                    vstd::arithmetic::div_mod::lemma_div_is_ordered(
                        d as int,
                        scaled_delay_us(cv, attempt as nat) as int,
                        1000,
                    );
                }
                return max;
            }
            let q: u128 = d / 1000;
            let r: u128 = d % 1000;
            proof {
                if m < 1000 {
                    vstd::arithmetic::div_mod::lemma_div_is_ordered(
                        d as int,
                        cv.base_delay_ms * 1000,
                        1000,
                    );
                    vstd::arithmetic::div_mod::lemma_div_multiples_vanish(cv.base_delay_ms as int, 1000);
                }
                assert(q <= 0xffff_ffff_ffff_ffffu128);
                vstd::arithmetic::mul::lemma_mul_upper_bound(
                    q as int,
                    0xffff_ffff_ffff_ffff,
                    m as int,
                    0xffff_ffff_ffff_ffff,
                );
                vstd::arithmetic::mul::lemma_mul_upper_bound(
                    r as int,
                    999,
                    m as int,
                    0xffff_ffff_ffff_ffff,
                );
                vstd::arithmetic::div_mod::lemma_div_is_ordered(
                    (r * m) as int,
                    999 * 0xffff_ffff_ffff_ffffint,
                    1000,
                );
            }
            let next: u128 = q * m + r * m / 1000;
            proof {
                vstd::arithmetic::div_mod::lemma_fundamental_div_mod(d as int, 1000);
                assert(d * m == r * m + (q * m) * 1000) by (nonlinear_arith)
                    requires
                        d == 1000 * q + r,
                ;
                vstd::arithmetic::div_mod::lemma_hoist_over_denominator((r * m) as int, (q * m) as int, 1000);
                if m < 1000 {
                    assert(d * m <= d * 1000) by (nonlinear_arith)
                        requires
                            m < 1000,
                    ;
                    vstd::arithmetic::div_mod::lemma_div_is_ordered((d * m) as int, (d * 1000) as int, 1000);
                    vstd::arithmetic::div_mod::lemma_div_multiples_vanish(d as int, 1000);
                    assert(1000 * d == d * 1000) by (nonlinear_arith);
                }
            }
            d = next;
            k = k + 1;
        }
        if d / 1000 >= max as u128 {
            max
        } else {
            (d / 1000) as u64
        }
    }

    /// The delay before the next retry for a given jitter factor in
    /// thousandths.
    pub fn delay_for_jitter(&self, jitter_permille: u64) -> (d: u64)
        ensures
            d == retry_delay(self.config_view(), self.attempts() as nat, jitter_permille),
    {
        let base = self.backoff_delay_ms();
        if !self.config.use_jitter {
            return base;
        }
        proof {
            vstd::arithmetic::mul::lemma_mul_upper_bound(
                base as int,
                u64::MAX as int,
                jitter_permille as int,
                u64::MAX as int,
            );
        }
        let scaled: u128 = (base as u128) * (jitter_permille as u128) / 1000;
        if scaled > 0xffff_ffff_ffff_ffffu128 {
            0xffff_ffff_ffff_ffffu64
        } else {
            scaled as u64
        }
    }

    /// Calculates the delay before the next retry; the jitter factor, when
    /// enabled, is drawn at random from `[500, 1500)` thousandths.
    pub fn next_delay(&self) -> (d: u64)
        ensures
            exists|j: u64|
                500 <= j < 1500 && d == #[trigger] retry_delay(
                    self.config_view(),
                    self.attempts() as nat,
                    j,
                ),
    {
        let j = random_in_range(500, 1500);
        self.delay_for_jitter(j)
    }

    /// Records a retry and returns the delay to wait before it, or `None`
    /// when no retries remain.
    pub fn record_retry(&mut self) -> (r: Option<u64>)
        ensures
            final(self).config_view() == old(self).config_view(),
            old(self).attempts() < old(self).config_view().max_retries ==> {
                &&& final(self).attempts() == old(self).attempts() + 1
                &&& r matches Some(d) && exists|j: u64|
                    500 <= j < 1500 && d == #[trigger] retry_delay(
                        old(self).config_view(),
                        old(self).attempts() as nat,
                        j,
                    )
            },
            old(self).attempts() >= old(self).config_view().max_retries ==> r is None
                && final(self).attempts() == old(self).attempts(),
    {
        if !self.has_remaining_retries() {
            return None;
        }
        let delay = self.next_delay();
        self.attempt = self.attempt + 1;
        Some(delay)
    }

    /// Resets the policy for a new request.
    pub fn reset(&mut self)
        ensures
            final(self).config_view() == old(self).config_view(),
            final(self).attempts() == 0,
    {
        self.attempt = 0;
    }

    /// Checks if a response with this status should be retried.
    pub fn should_retry_status(&self, status: u16) -> (b: bool)
        ensures
            b == (self.attempts() < self.config_view().max_retries
                && self.config_view().retryable_status_codes.contains(status)),
    {
        self.has_remaining_retries() && self.config.is_retryable_status(status)
    }

    /// Checks if an error should be retried: retries remain and the
    /// lowercased message names a connection problem, a timeout, a reset or
    /// a refusal.
    pub fn should_retry_error(&self, error: &str) -> (b: bool)
        ensures
            b == (self.attempts() < self.config_view().max_retries && transient_failure_text(
                unicode_lowercase(error@),
            )),
    {
        if !self.has_remaining_retries() {
            return false;
        }
        let lowered = to_lowercase(error);
        is_transient_failure_text(lowered.as_str())
    }
}

/// What the caller of a failed attempt should do next.
#[derive(Debug, Clone, Copy, PartialEq, Eq, Structural)]
pub enum RetryStep {
    /// Wait this many milliseconds, then try again.
    RetryAfter(u64),
    /// Stop: this many attempts were made in all.
    GiveUp(u32),
}

/// Drives a request through its retries.  The caller makes each attempt and,
/// when one fails, asks [`RetryExecutor::on_error`] what to do next.
#[derive(Debug)]
pub struct RetryExecutor {
    policy: RetryPolicy,
}

impl RetryExecutor {
    /// The policy.
    pub closed spec fn policy_view(&self) -> RetryPolicy {
        self.policy
    }

    /// Creates a retry executor with the given configuration.
    pub fn new(config: RetryConfig) -> (e: Self)
        ensures
            e.policy_view().config_view() == config@,
            e.policy_view().attempts() == 0,
    {
        RetryExecutor { policy: RetryPolicy::new(config) }
    }

    /// Creates a retry executor with the default configuration.
    pub fn with_defaults() -> (e: Self)
        ensures
            e.policy_view().config_view() == default_retry_config(),
            e.policy_view().attempts() == 0,
    {
        RetryExecutor::new(RetryConfig::default())
    }

    /// Decides what follows a failed attempt with this error message: a
    /// retry after a delay while the error is retryable and retries remain,
    /// else giving up after `attempts + 1` attempts.
    pub fn on_error(&mut self, error: &str) -> (step: RetryStep)
        requires
            old(self).policy_view().attempts() < u32::MAX,
        ensures
            final(self).policy_view().config_view() == old(self).policy_view().config_view(),
            ({
                let p = old(self).policy_view();
                if p.attempts() < p.config_view().max_retries && transient_failure_text(
                    unicode_lowercase(error@),
                ) {
                    &&& final(self).policy_view().attempts() == p.attempts() + 1
                    &&& step matches RetryStep::RetryAfter(d) && exists|j: u64|
                        500 <= j < 1500 && d == #[trigger] retry_delay(
                            p.config_view(),
                            p.attempts() as nat,
                            j,
                        )
                } else {
                    &&& final(self).policy_view().attempts() == p.attempts()
                    &&& step == RetryStep::GiveUp((p.attempts() + 1) as u32)
                }
            }),
    {
        if self.policy.should_retry_error(error) {
            if let Some(delay) = self.policy.record_retry() {
                return RetryStep::RetryAfter(delay);
            }
        }
        RetryStep::GiveUp(self.policy.attempt() + 1)
    }

    /// Returns the number of retries recorded so far.
    pub fn attempt(&self) -> (a: u32)
        ensures
            a == self.policy_view().attempts(),
    {
        self.policy.attempt()
    }

    /// Resets the executor for a new request.
    pub fn reset(&mut self)
        ensures
            final(self).policy_view().config_view() == old(self).policy_view().config_view(),
            final(self).policy_view().attempts() == 0,
    {
        self.policy.reset();
    }
}

/// Error returned when retry attempts are exhausted.
#[derive(Debug)]
pub enum RetryError<E> {
    /// All retry attempts were exhausted.
    Exhausted {
        /// Total number of attempts made.
        attempts: u32,
        /// The last error encountered.
        last_error: E,
    },
}

} // verus!
