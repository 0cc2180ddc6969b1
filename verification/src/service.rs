//! The forwarding decisions of the proxy service: which upstream takes the
//! next request, the URI it is sent to, and what the client is answered when
//! forwarding fails.
//!
//! The HTTP client that sends the request, and the timer around it, live in
//! the program around the library.

use crate::text::{chars_of, string_from_chars};
use std::sync::Arc;
use vstd::prelude::*;

verus! {

#[verifier::external_type_specification]
#[verifier::external_body]
pub struct ExUri(http::Uri);

/// What `http::Uri::from_str` gives for the text: the URI it builds, or
/// `None` where it refuses the text.
pub uninterp spec fn uri_parse(s: Seq<char>) -> Option<http::Uri>;

/// Whether `http::Uri` parses the text.
pub open spec fn uri_parses(s: Seq<char>) -> bool {
    uri_parse(s) is Some
}

/// Calls `str::parse::<http::Uri>`, that is `http::Uri::from_str`, and
/// keeps the URI it gives.  The outcome depends on the text alone and is
/// named `uri_parse` of the text; the URI grammar is not restated here.
#[verifier::external_body]
fn parse_uri(s: &str) -> (r: Option<http::Uri>)
    ensures
        r == uri_parse(s@),
{
    s.parse::<http::Uri>().ok()
}

/// The text of the URI a request is forwarded to: the upstream address
/// followed by the request's path and query, or by `/` when it has none.
pub open spec fn upstream_uri_text(upstream: Seq<char>, path_and_query: Option<Seq<char>>) -> Seq<char> {
    match path_and_query {
        Some(pq) => upstream + pq,
        None => upstream + "/"@,
    }
}

/// The text of the URI a request is forwarded to.
pub fn upstream_uri_string(upstream: &str, path_and_query: Option<&str>) -> (r: String)
    ensures
        r@ == upstream_uri_text(
            upstream@,
            match path_and_query {
                Some(pq) => Some(pq@),
                None => None,
            },
        ),
{
    let mut out = chars_of(upstream);
    let tail = match path_and_query {
        Some(pq) => chars_of(pq),
        None => chars_of("/"),
    };
    let ghost start = out@;
    let n = tail.len();
    let mut i: usize = 0;
    while i < n
        invariant
            n == tail@.len(),
            i <= n,
            out@ == start + tail@.take(i as int),
        decreases n - i,
    {
        out.push(tail[i]);
        assert(tail@.take(i + 1) =~= tail@.take(i as int).push(tail@[i as int]));
        i = i + 1;
    }
    assert(tail@.take(n as int) =~= tail@);
    string_from_chars(&out)
}

/// Builds the URI a request is forwarded to: the parse of the upstream
/// address followed by the request's path and query; `None` when that text
/// does not parse as a URI.
pub fn build_upstream_uri(upstream: &str, path_and_query: Option<&str>) -> (r: Option<http::Uri>)
    ensures
        r == uri_parse(
            upstream_uri_text(
                upstream@,
                match path_and_query {
                    Some(pq) => Some(pq@),
                    None => None,
                },
            ),
        ),
{
    let text = upstream_uri_string(upstream, path_and_query);
    parse_uri(text.as_str())
}

/// The views of a sequence of strings.
pub open spec fn upstream_views(v: Seq<String>) -> Seq<Seq<char>> {
    Seq::new(v.len(), |i: int| v[i]@)
}

/// Round-robin choice among the upstream addresses of the proxy service.
pub struct UpstreamRotation {
    upstream_addrs: Arc<Vec<String>>,
    next_upstream: usize,
}

/// The state of a rotation: the addresses, and the counter of choices made.
pub struct RotationView {
    pub addrs: Seq<Seq<char>>,
    pub next: usize,
}

impl View for UpstreamRotation {
    type V = RotationView;

    closed spec fn view(&self) -> RotationView {
        RotationView { addrs: upstream_views(self.upstream_addrs@), next: self.next_upstream }
    }
}

/// The counter step of the rotation, which wraps as an atomic `fetch_add`
/// does.
pub open spec fn wrapping_next(n: usize) -> usize {
    if n == usize::MAX {
        0
    } else {
        (n + 1) as usize
    }
}

/// The choice a rotation makes and its next state: `None`, with nothing
/// changed, when there is no upstream; else the address at the counter
/// modulo the number of addresses, with the counter stepped.
pub open spec fn rotation_step(r: RotationView) -> (RotationView, Option<Seq<char>>) {
    if r.addrs.len() == 0 {
        (r, None)
    } else {
        (
            RotationView { next: wrapping_next(r.next), ..r },
            Some(r.addrs[(r.next as int) % (r.addrs.len() as int)]),
        )
    }
}

impl UpstreamRotation {
    /// A rotation over the given addresses, starting with the first.
    pub fn new(upstream_addrs: Arc<Vec<String>>) -> (r: Self)
        ensures
            r@.addrs == upstream_views(upstream_addrs@),
            r@.next == 0,
    {
        UpstreamRotation { upstream_addrs, next_upstream: 0 }
    }

    /// Selects the next upstream server using round-robin load balancing.
    pub fn select_upstream(&mut self) -> (r: Option<String>)
        ensures
            (final(self)@, match r {
                Some(s) => Some(s@),
                None => None,
            }) == rotation_step(old(self)@),
    {
        let n = self.upstream_addrs.len();
        if n == 0 {
            return None;
        }
        let idx = self.next_upstream % n;
        let chosen = self.upstream_addrs[idx].clone();
        let next = if self.next_upstream == usize::MAX {
            0
        } else {
            self.next_upstream + 1
        };
        self.next_upstream = next;
        Some(chosen)
    }
}

/// Why forwarding a request failed.
#[derive(Debug, Clone, Copy, PartialEq, Eq, Structural)]
pub enum ForwardFailure {
    /// There is no upstream to send to.
    NoUpstream,
    /// The upstream URI does not parse.
    InvalidUri,
    /// The upstream request failed.
    UpstreamFailed,
    /// The upstream did not answer in time.
    TimedOut,
}

/// The answer the client receives when forwarding fails.
#[derive(Debug, Clone)]
pub struct FailureReply {
    /// Status code of the answer.
    pub status: u16,
    /// Plain-text body of the answer.
    pub message: String,
    /// Whether the request is recorded in the request metrics.
    pub recorded: bool,
}

/// The status code answered for a failure: 504 for a timeout, else 502.
pub open spec fn failure_status(f: ForwardFailure) -> u16 {
    match f {
        ForwardFailure::TimedOut => 504,
        _ => 502,
    }
}

/// The body answered for a failure.
pub open spec fn failure_message(f: ForwardFailure) -> Seq<char> {
    match f {
        ForwardFailure::NoUpstream => "Proxy error"@,
        ForwardFailure::InvalidUri => "Invalid upstream URI"@,
        ForwardFailure::UpstreamFailed => "Upstream request failed"@,
        ForwardFailure::TimedOut => "Upstream request timed out"@,
    }
}

/// The answer to a failed forward; every failure but a missing upstream is
/// recorded in the request metrics.
pub fn failure_reply(f: ForwardFailure) -> (r: FailureReply)
    ensures
        r.status == failure_status(f),
        r.message@ == failure_message(f),
        r.recorded == (f != ForwardFailure::NoUpstream),
{
    match f {
        ForwardFailure::NoUpstream => FailureReply {
            status: 502,
            message: crate::text::owned("Proxy error"),
            recorded: false,
        },
        ForwardFailure::InvalidUri => FailureReply {
            status: 502,
            message: crate::text::owned("Invalid upstream URI"),
            recorded: true,
        },
        ForwardFailure::UpstreamFailed => FailureReply {
            status: 502,
            message: crate::text::owned("Upstream request failed"),
            recorded: true,
        },
        ForwardFailure::TimedOut => FailureReply {
            status: 504,
            message: crate::text::owned("Upstream request timed out"),
            recorded: true,
        },
    }
}

/// Consecutive choices visit the upstreams in order: as long as the counter
/// does not wrap, `k` choices after a state pick the address at position
/// `(next + k) mod n`.
pub open spec fn rotation_after(r: RotationView, k: nat) -> RotationView
    decreases k,
{
    if k == 0 {
        r
    } else {
        rotation_step(rotation_after(r, (k - 1) as nat)).0
    }
}

/// Round-robin fairness: the `k`-th choice after a state, before the counter
/// wraps, is the address at `(next + k) mod n`, so any `n` consecutive
/// choices pick every address once.
pub proof fn lemma_rotation_cycles(r: RotationView, k: nat)
    requires
        r.addrs.len() > 0,
        r.next + k <= usize::MAX,
    ensures
        rotation_after(r, k).next == r.next + k,
        rotation_after(r, k).addrs == r.addrs,
        rotation_step(rotation_after(r, k)).1 == Some(
            r.addrs[((r.next + k) as int) % (r.addrs.len() as int)],
        ),
    decreases k,
{
    if k > 0 {
        lemma_rotation_cycles(r, (k - 1) as nat);
    }
}

} // verus!
