use vstd::prelude::*;
use std::collections::HashMap;

verus! {

broadcast use vstd::std_specs::hash::group_hash_axioms;

/// Requests one client may make in one window.
pub const MAX_REQUESTS: u32 = 100;

/// The length of a window, in nanoseconds (60 seconds).
pub const WINDOW_NANOS: u64 = 60_000_000_000;

/// A client's bucket: requests counted in the current window, and when that
/// window began (nanoseconds on a monotonic clock).
pub open spec fn spec_bucket_at(m: Map<u128, (u32, u64)>, client: u128, now: u64) -> (u32, u64) {
    let (count, start) = if m.contains_key(client) {
        m[client]
    } else {
        (0u32, now)
    };
    if (if now >= start { now - start } else { 0 }) > WINDOW_NANOS {
        (0u32, now)
    } else {
        (count, start)
    }
}

/// Whether a request from `client` at `now` is admitted.
pub open spec fn spec_admits(m: Map<u128, (u32, u64)>, client: u128, now: u64) -> bool {
    spec_bucket_at(m, client, now).0 < MAX_REQUESTS
}

/// The buckets after a request from `client` at `now`.
pub open spec fn spec_after_request(m: Map<u128, (u32, u64)>, client: u128, now: u64) -> Map<
    u128,
    (u32, u64),
> {
    let (count, start) = spec_bucket_at(m, client, now);
    if count < MAX_REQUESTS {
        m.insert(client, ((count + 1) as u32, start))
    } else {
        m.insert(client, (count, start))
    }
}

/// No bucket holds more than `MAX_REQUESTS` requests.
pub open spec fn counts_bounded(m: Map<u128, (u32, u64)>) -> bool {
    forall|c: u128| #[trigger] m.contains_key(c) ==> m[c].0 <= MAX_REQUESTS
}

/// How many of the requests that `client` makes at `times`, one after another
/// from the buckets `m`, are admitted.
pub open spec fn admitted_in(m: Map<u128, (u32, u64)>, client: u128, times: Seq<u64>) -> int
    decreases times.len(),
{
    if times.len() == 0 {
        0
    } else {
        (if spec_admits(m, client, times[0]) {
            1int
        } else {
            0int
        }) + admitted_in(spec_after_request(m, client, times[0]), client, times.drop_first())
    }
}

/// Law: within one window a client is admitted at most `MAX_REQUESTS` times in
/// all. If the first of a run of requests finds the client's window holding
/// `count` requests and every request of the run falls inside that window, at
/// most `MAX_REQUESTS - count` of them are admitted. Every limiter's buckets
/// meet `counts_bounded`: it is the limiter's type invariant, and `check`
/// states it of the buckets before and after each request.
pub proof fn lemma_window_admits_at_most_max(m: Map<u128, (u32, u64)>, client: u128, times: Seq<u64>)
    requires
        times.len() > 0,
        counts_bounded(m),
        forall|i: int|
            0 <= i < times.len() ==> spec_bucket_at(m, client, times[0]).1 <= #[trigger] times[i]
                <= spec_bucket_at(m, client, times[0]).1 + WINDOW_NANOS,
    ensures
        admitted_in(m, client, times) <= MAX_REQUESTS - spec_bucket_at(m, client, times[0]).0,
    decreases times.len(),
{
    let (count, start) = spec_bucket_at(m, client, times[0]);
    assert(count <= MAX_REQUESTS) by {
        if m.contains_key(client) {
            assert(m[client].0 <= MAX_REQUESTS);
        }
    }
    let m2 = spec_after_request(m, client, times[0]);
    let rest = times.drop_first();
    assert(admitted_in(m, client, times) == (if spec_admits(m, client, times[0]) {
        1int
    } else {
        0int
    }) + admitted_in(m2, client, rest));
    if rest.len() == 0 {
        assert(admitted_in(m2, client, rest) == 0);
    }
    if rest.len() > 0 {
        assert(m2.contains_key(client));
        assert(m2[client].1 == start);
        assert(rest[0] == times[1]);
        assert(start <= times[1] <= start + WINDOW_NANOS);
        assert(spec_bucket_at(m2, client, rest[0]) == m2[client]);
        assert(counts_bounded(m2)) by {
            assert forall|c: u128| #[trigger] m2.contains_key(c) implies m2[c].0 <= MAX_REQUESTS by {
                if c != client {
                    assert(m.contains_key(c));
                }
            }
        }
        assert forall|i: int| 0 <= i < rest.len() implies spec_bucket_at(m2, client, rest[0]).1
            <= #[trigger] rest[i] <= spec_bucket_at(m2, client, rest[0]).1 + WINDOW_NANOS by {
            assert(rest[i] == times[i + 1]);
        }
        lemma_window_admits_at_most_max(m2, client, rest);
        assert(spec_bucket_at(m2, client, rest[0]).0 == if count < MAX_REQUESTS {
            count + 1
        } else {
            count as int
        });
    }
}

/// The request at `now` restarts `client`'s window: the client has no bucket
/// yet, or more than `WINDOW_NANOS` have passed since its window began.
pub open spec fn restarts_window(m: Map<u128, (u32, u64)>, client: u128, now: u64) -> bool {
    !m.contains_key(client) || (m[client].1 <= now && now - m[client].1 > WINDOW_NANOS)
}

/// Law: a request that restarts a client's window is admitted and begins a
/// new window at its own time, holding one request: the client's bucket
/// becomes `(1, now)` and no other bucket changes.
pub proof fn lemma_restart_begins_new_window(m: Map<u128, (u32, u64)>, client: u128, now: u64)
    requires
        restarts_window(m, client, now),
    ensures
        spec_admits(m, client, now),
        spec_after_request(m, client, now) == m.insert(client, (1u32, now)),
{
}

/// Law: after a restart a client gets at most `MAX_REQUESTS` requests per
/// window. Of a run of requests whose first restarts the client's window and
/// all of which fall within `WINDOW_NANOS` of that first one, at most
/// `MAX_REQUESTS` are admitted.
pub proof fn lemma_restarted_window_admits_at_most_max(m: Map<u128, (u32, u64)>, client: u128, times: Seq<u64>)
    requires
        counts_bounded(m),
        times.len() > 0,
        restarts_window(m, client, times[0]),
        forall|i: int| 0 <= i < times.len() ==> times[0] <= #[trigger] times[i] <= times[0] + WINDOW_NANOS,
    ensures
        admitted_in(m, client, times) <= MAX_REQUESTS,
{
    assert(spec_bucket_at(m, client, times[0]) == (0u32, times[0]));
    lemma_window_admits_at_most_max(m, client, times);
}

/// A token-bucket rate limiter keyed by client address (IPv6-mapped, as a
/// 128-bit integer): each client may make `MAX_REQUESTS` requests per window
/// of `WINDOW_NANOS`.
pub struct RateLimiter {
    buckets: HashMap<u128, (u32, u64)>,
}

impl RateLimiter {
    /// No bucket of a limiter ever holds more than `MAX_REQUESTS` requests.
    #[verifier::type_invariant]
    spec fn buckets_bounded(self) -> bool {
        counts_bounded(self.buckets@)
    }
}

impl View for RateLimiter {
    type V = Map<u128, (u32, u64)>;

    closed spec fn view(&self) -> Map<u128, (u32, u64)> {
        self.buckets@
    }
}

impl RateLimiter {
    /// A limiter that has seen no client.
    pub fn new() -> (r: RateLimiter)
        ensures
            r@ == Map::<u128, (u32, u64)>::empty(),
    {
        RateLimiter { buckets: HashMap::new() }
    }

    /// Counts a request from `client` at `now` and says whether it is admitted.
    ///
    /// A client's window restarts when more than `WINDOW_NANOS` have passed
    /// since it began; within a window the first `MAX_REQUESTS` requests are
    /// admitted and the rest refused.
    pub fn check(&mut self, client: u128, now: u64) -> (allowed: bool)
        ensures
            allowed == spec_admits(old(self)@, client, now),
            final(self)@ == spec_after_request(old(self)@, client, now),
            counts_bounded(old(self)@),
            counts_bounded(final(self)@),
    {
        proof {
            use_type_invariant(&*self);
        }
        let (mut count, mut start) = match self.buckets.get(&client) {
            Some(entry) => *entry,
            None => (0u32, now),
        };
        let elapsed = if now >= start { now - start } else { 0 };
        if elapsed > WINDOW_NANOS {
            count = 0;
            start = now;
        }
        let mut buckets: HashMap<u128, (u32, u64)> = HashMap::new();
        std::mem::swap(&mut buckets, &mut self.buckets);
        let allowed = count < MAX_REQUESTS;
        if allowed {
            buckets.insert(client, (count + 1, start));
        } else {
            buckets.insert(client, (count, start));
        }
        self.buckets = buckets;
        allowed
    }
}

} // verus!
