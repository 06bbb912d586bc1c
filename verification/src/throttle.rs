use vstd::prelude::*;
use crate::envelope::{Envelope, env_value};
use crate::text::{bytes_eq, push_bytes};

verus! {

// Envelope attributes a throttle key may be composed of.
pub const THROTTLE_RCPT: u16 = 1;
pub const THROTTLE_RCPT_DOMAIN: u16 = 2;
pub const THROTTLE_SENDER: u16 = 4;
pub const THROTTLE_SENDER_DOMAIN: u16 = 8;
pub const THROTTLE_AUTH_AS: u16 = 16;
pub const THROTTLE_LISTENER: u16 = 32;
pub const THROTTLE_REMOTE_IP: u16 = 64;
pub const THROTTLE_LOCAL_IP: u16 = 128;
pub const THROTTLE_HELO_DOMAIN: u16 = 256;

/// A token-bucket rate: so many admissions per period.
#[derive(Clone, Copy, PartialEq, Eq, Structural, Debug)]
pub struct Rate {
    pub requests: u64,
    pub period_ms: u64,
}

/// One configured throttle: the envelope keys it groups by, and the
/// rate and concurrency limits it enforces.
#[derive(Clone, Copy, PartialEq, Eq, Structural, Debug)]
pub struct Throttle {
    pub keys: u16,
    pub rate: Option<Rate>,
    pub concurrency: Option<u64>,
}

/// Live counters for one throttle key: when its current period began,
/// how many admissions it granted in that period, and how many
/// sessions hold a concurrency slot.
#[derive(Clone, Copy, PartialEq, Eq, Structural, Debug)]
pub struct ThrottleEntry {
    pub period_start_ms: u64,
    pub used: u64,
    pub concurrent: u64,
}

/// The outcome of asking a throttle for admission.
#[derive(Clone, Copy, PartialEq, Eq, Structural, Debug)]
pub enum Admission {
    Granted,
    RejectedConcurrency,
    RejectedRate { retry_at_ms: u64 },
}

/// The entry after one admission request, and the outcome: concurrency
/// is checked first; then the rate bucket, whose period restarts when
/// it has elapsed.
pub open spec fn spec_admit(e: ThrottleEntry, t: Throttle, now: u64) -> (ThrottleEntry, Admission) {
    if t.concurrency is Some && e.concurrent >= t.concurrency->0 {
        (e, Admission::RejectedConcurrency)
    } else {
        let granted_conc = if t.concurrency is Some {
            (e.concurrent + 1) as u64
        } else {
            e.concurrent
        };
        match t.rate {
            Option::Some(rate) => {
                let fresh = now >= e.period_start_ms + rate.period_ms;
                let start = if fresh {
                    now
                } else {
                    e.period_start_ms
                };
                let used = if fresh {
                    0int
                } else {
                    e.used as int
                };
                if used < rate.requests {
                    (
                        ThrottleEntry {
                            period_start_ms: start,
                            used: (used + 1) as u64,
                            concurrent: granted_conc,
                        },
                        Admission::Granted,
                    )
                } else {
                    (
                        e,
                        Admission::RejectedRate {
                            retry_at_ms: (e.period_start_ms + rate.period_ms) as u64,
                        },
                    )
                }
            },
            Option::None => {
                (
                    ThrottleEntry {
                        period_start_ms: e.period_start_ms,
                        used: e.used,
                        concurrent: granted_conc,
                    },
                    Admission::Granted,
                )
            },
        }
    }
}

impl ThrottleEntry {
    /// A fresh entry whose period begins now.
    pub fn new(now_ms: u64) -> (r: ThrottleEntry)
        ensures
            r.period_start_ms == now_ms,
            r.used == 0,
            r.concurrent == 0,
    {
        ThrottleEntry { period_start_ms: now_ms, used: 0, concurrent: 0 }
    }

    /// Asks for admission: rejects over-concurrency first, then spends
    /// a rate token, restarting the period when it has elapsed. On a
    /// rate rejection the result names when the next period opens.
    pub fn try_admit(&mut self, t: &Throttle, now_ms: u64) -> (r: Admission)
        requires
            old(self).period_start_ms <= now_ms,
            (match t.rate {
                Option::Some(rate) => old(self).period_start_ms + rate.period_ms <= u64::MAX
                    && rate.requests < u64::MAX,
                Option::None => true,
            }),
            old(self).concurrent < u64::MAX,
        ensures
            (*final(self), r) == spec_admit(*old(self), *t, now_ms),
    {
        match t.concurrency {
            Option::Some(cap) => {
                if self.concurrent >= cap {
                    return Admission::RejectedConcurrency;
                }
            },
            Option::None => {},
        }
        let granted_conc: u64 = if t.concurrency.is_some() {
            self.concurrent + 1
        } else {
            self.concurrent
        };
        match &t.rate {
            Option::Some(rate) => {
                let fresh = now_ms - self.period_start_ms >= rate.period_ms;
                let start: u64 = if fresh {
                    now_ms
                } else {
                    self.period_start_ms
                };
                let used: u64 = if fresh {
                    0
                } else {
                    self.used
                };
                if used < rate.requests {
                    self.period_start_ms = start;
                    self.used = used + 1;
                    self.concurrent = granted_conc;
                    Admission::Granted
                } else {
                    Admission::RejectedRate { retry_at_ms: self.period_start_ms + rate.period_ms }
                }
            },
            Option::None => {
                self.concurrent = granted_conc;
                Admission::Granted
            },
        }
    }

    /// Returns a concurrency slot when a session ends.
    pub fn release(&mut self)
        requires
            old(self).concurrent > 0,
        ensures
            final(self).concurrent == old(self).concurrent - 1,
            final(self).period_start_ms == old(self).period_start_ms,
            final(self).used == old(self).used,
    {
        self.concurrent = self.concurrent - 1;
    }

    /// Whether this entry may be dropped on access: nothing in flight
    /// and its counter has sat at the period boundary for one whole
    /// further period.
    pub fn is_stale(&self, t: &Throttle, now_ms: u64) -> (r: bool)
        requires
            (match t.rate {
                Option::Some(rate) => self.period_start_ms + 2 * rate.period_ms <= u64::MAX,
                Option::None => true,
            }),
        ensures
            r == spec_is_stale(*self, *t, now_ms),
    {
        if self.concurrent != 0 {
            return false;
        }
        match &t.rate {
            Option::Some(rate) => now_ms >= self.period_start_ms + 2 * rate.period_ms,
            Option::None => false,
        }
    }
}

/// Whether an entry may be dropped on access: nothing in flight and
/// its counter idle at the period boundary for one whole further
/// period.
pub open spec fn spec_is_stale(e: ThrottleEntry, t: Throttle, now_ms: u64) -> bool {
    e.concurrent == 0 && (match t.rate {
        Option::Some(rate) => now_ms >= e.period_start_ms + 2 * rate.period_ms,
        Option::None => false,
    })
}

/// A fresh entry whose period begins now.
pub open spec fn fresh_entry(now_ms: u64) -> ThrottleEntry {
    ThrottleEntry { period_start_ms: now_ms, used: 0, concurrent: 0 }
}

/// The entry an admission request actually consults: a stored entry,
/// unless it is from a clock that ran ahead, saturated, or stale, in
/// which case a fresh one replaces it.
pub open spec fn spec_effective(e: ThrottleEntry, t: Throttle, now_ms: u64) -> ThrottleEntry {
    let e1 = if e.period_start_ms > now_ms || e.concurrent == u64::MAX {
        fresh_entry(now_ms)
    } else {
        e
    };
    if spec_is_stale(e1, t, now_ms) {
        fresh_entry(now_ms)
    } else {
        e1
    }
}

/// The entry an admission request for this key consults, over the
/// whole map: the key's stored entry made effective, or a fresh one
/// for a key never seen.
pub open spec fn spec_entry_for(
    entries: Seq<(Vec<u8>, ThrottleEntry)>,
    key: Seq<u8>,
    t: Throttle,
    now_ms: u64,
) -> ThrottleEntry {
    match spec_key_index(entries, key) {
        Option::Some(i) => spec_effective(entries[i].1, t, now_ms),
        Option::None => fresh_entry(now_ms),
    }
}

/// Where a key is known to sit first, `spec_key_index` returns that
/// place.
proof fn lemma_key_index_at(entries: Seq<(Vec<u8>, ThrottleEntry)>, key: Seq<u8>, i: int)
    requires
        0 <= i < entries.len(),
        entries[i].0@ == key,
        forall|j: int| 0 <= j < i ==> (#[trigger] entries[j]).0@ != key,
    ensures
        spec_key_index(entries, key) == Option::Some(i),
    decreases i,
{
    if i > 0 {
        assert(forall|j: int|
            0 <= j < i - 1 ==> (#[trigger] entries.drop_first()[j]).0@ != key);
        assert(entries.drop_first()[i - 1].0@ == key);
        lemma_key_index_at(entries.drop_first(), key, i - 1);
    }
}

/// Where a key is absent, `spec_key_index` reports nothing.
proof fn lemma_key_index_none(entries: Seq<(Vec<u8>, ThrottleEntry)>, key: Seq<u8>)
    requires
        forall|j: int| 0 <= j < entries.len() ==> (#[trigger] entries[j]).0@ != key,
    ensures
        spec_key_index(entries, key) == Option::<int>::None,
    decreases entries.len(),
{
    if entries.len() > 0 {
        assert(forall|j: int|
            0 <= j < entries.drop_first().len() ==> (#[trigger] entries.drop_first()[j]).0@
                != key);
        lemma_key_index_none(entries.drop_first(), key);
    }
}

/// The entry after a run of admission requests, all against the same
/// throttle and at the given instants.
pub open spec fn spec_admit_run(e: ThrottleEntry, t: Throttle, times: Seq<u64>) -> ThrottleEntry
    decreases times.len(),
{
    if times.len() == 0 {
        e
    } else {
        spec_admit(spec_admit_run(e, t, times.drop_last()), t, times.last()).0
    }
}

/// Whether the Nth request of the run (counting from one) is granted.
pub open spec fn spec_nth_granted(e: ThrottleEntry, t: Throttle, times: Seq<u64>, n: int) -> bool {
    spec_admit(spec_admit_run(e, t, times.take(n - 1)), t, times[n - 1]).1 is Granted
}

/// Throttle monotonicity: against a pure rate throttle, starting from
/// a fresh entry, with every request of the run falling inside the
/// first period, the Nth request is granted exactly when N is at most
/// the configured rate.
pub proof fn lemma_throttle_monotonicity(
    start: u64,
    rate: Rate,
    times: Seq<u64>,
    n: int,
)
    requires
        1 <= n <= times.len(),
        forall|i: int|
            0 <= i < times.len() ==> start <= #[trigger] times[i] && times[i] < start
                + rate.period_ms,
        start + rate.period_ms <= u64::MAX,
    ensures
        spec_nth_granted(
            ThrottleEntry { period_start_ms: start, used: 0, concurrent: 0 },
            Throttle { keys: 0, rate: Option::Some(rate), concurrency: Option::None },
            times,
            n,
        ) == (n <= rate.requests),
{
    let e0 = ThrottleEntry { period_start_ms: start, used: 0, concurrent: 0 };
    let t = Throttle { keys: 0, rate: Option::Some(rate), concurrency: Option::None };
    lemma_run_state(e0, t, start, rate, times, n - 1);
    let ek = spec_admit_run(e0, t, times.take(n - 1));
    assert(ek.period_start_ms == start);
    assert(ek.used as int == if n - 1 <= rate.requests {
        n - 1
    } else {
        rate.requests as int
    });
    assert(times[n - 1] < start + rate.period_ms);
}

/// After k in-period requests from a fresh entry, the period has not
/// moved and the tokens spent are k, capped at the configured rate.
proof fn lemma_run_state(
    e0: ThrottleEntry,
    t: Throttle,
    start: u64,
    rate: Rate,
    times: Seq<u64>,
    k: int,
)
    requires
        0 <= k <= times.len(),
        e0 == (ThrottleEntry { period_start_ms: start, used: 0, concurrent: 0 }),
        t == (Throttle { keys: 0, rate: Option::Some(rate), concurrency: Option::None }),
        forall|i: int|
            0 <= i < times.len() ==> start <= #[trigger] times[i] && times[i] < start
                + rate.period_ms,
        start + rate.period_ms <= u64::MAX,
    ensures
        spec_admit_run(e0, t, times.take(k)).period_start_ms == start,
        spec_admit_run(e0, t, times.take(k)).used as int == if k <= rate.requests {
            k
        } else {
            rate.requests as int
        },
    decreases k,
{
    if k == 0 {
        assert(times.take(0) =~= Seq::<u64>::empty());
    } else {
        lemma_run_state(e0, t, start, rate, times, k - 1);
        assert(times.take(k).drop_last() =~= times.take(k - 1));
        assert(times.take(k).last() == times[k - 1]);
        let ek1 = spec_admit_run(e0, t, times.take(k - 1));
        assert(times[k - 1] < start + rate.period_ms);
    }
}


/// The key segment one attribute contributes when its bit is set.
pub open spec fn seg_listener(mask: u16, e: Envelope) -> Seq<u8> {
    if mask & THROTTLE_LISTENER != 0 {
        env_value(e, crate::envelope::EnvelopeKey::Listener) + seq![0u8]
    } else {
        Seq::empty()
    }
}
/// The key segment one attribute contributes when its bit is set.
pub open spec fn seg_remote_ip(mask: u16, e: Envelope) -> Seq<u8> {
    if mask & THROTTLE_REMOTE_IP != 0 {
        env_value(e, crate::envelope::EnvelopeKey::RemoteIp) + seq![0u8]
    } else {
        Seq::empty()
    }
}
/// The key segment one attribute contributes when its bit is set.
pub open spec fn seg_local_ip(mask: u16, e: Envelope) -> Seq<u8> {
    if mask & THROTTLE_LOCAL_IP != 0 {
        env_value(e, crate::envelope::EnvelopeKey::LocalIp) + seq![0u8]
    } else {
        Seq::empty()
    }
}
/// The key segment one attribute contributes when its bit is set.
pub open spec fn seg_authenticated_as(mask: u16, e: Envelope) -> Seq<u8> {
    if mask & THROTTLE_AUTH_AS != 0 {
        env_value(e, crate::envelope::EnvelopeKey::AuthenticatedAs) + seq![0u8]
    } else {
        Seq::empty()
    }
}
/// The key segment one attribute contributes when its bit is set.
pub open spec fn seg_helo_domain(mask: u16, e: Envelope) -> Seq<u8> {
    if mask & THROTTLE_HELO_DOMAIN != 0 {
        env_value(e, crate::envelope::EnvelopeKey::HeloDomain) + seq![0u8]
    } else {
        Seq::empty()
    }
}
/// The key segment one attribute contributes when its bit is set.
pub open spec fn seg_sender(mask: u16, e: Envelope) -> Seq<u8> {
    if mask & THROTTLE_SENDER != 0 {
        env_value(e, crate::envelope::EnvelopeKey::Sender) + seq![0u8]
    } else {
        Seq::empty()
    }
}
/// The key segment one attribute contributes when its bit is set.
pub open spec fn seg_sender_domain(mask: u16, e: Envelope) -> Seq<u8> {
    if mask & THROTTLE_SENDER_DOMAIN != 0 {
        env_value(e, crate::envelope::EnvelopeKey::SenderDomain) + seq![0u8]
    } else {
        Seq::empty()
    }
}
/// The key segment one attribute contributes when its bit is set.
pub open spec fn seg_rcpt(mask: u16, e: Envelope) -> Seq<u8> {
    if mask & THROTTLE_RCPT != 0 {
        env_value(e, crate::envelope::EnvelopeKey::Recipient) + seq![0u8]
    } else {
        Seq::empty()
    }
}
/// The key segment one attribute contributes when its bit is set.
pub open spec fn seg_rcpt_domain(mask: u16, e: Envelope) -> Seq<u8> {
    if mask & THROTTLE_RCPT_DOMAIN != 0 {
        env_value(e, crate::envelope::EnvelopeKey::RecipientDomain) + seq![0u8]
    } else {
        Seq::empty()
    }
}
/// The composite key a throttle groups a session under: the selected
/// envelope attributes, in a fixed order, each terminated by a zero
/// byte so that distinct attribute splits never collide.
pub open spec fn spec_throttle_key(mask: u16, e: Envelope) -> Seq<u8> {
    seg_listener(mask, e) + seg_remote_ip(mask, e) + seg_local_ip(mask, e) + seg_authenticated_as(mask, e) + seg_helo_domain(mask, e) + seg_sender(mask, e) + seg_sender_domain(mask, e) + seg_rcpt(mask, e) + seg_rcpt_domain(mask, e)
}
/// Builds the composite throttle key for an envelope.
#[verifier::rlimit(100)]
pub fn throttle_key(mask: u16, e: &Envelope) -> (r: Vec<u8>)
    ensures
        r@ == spec_throttle_key(mask, *e),
{
    let mut key: Vec<u8> = Vec::new();
    if mask & THROTTLE_LISTENER != 0 {
        push_bytes(&mut key, e.listener.as_slice());
        key.push(0);
    }
    proof {
        assert(key@ =~= seg_listener(mask, *e));
    }
    if mask & THROTTLE_REMOTE_IP != 0 {
        push_bytes(&mut key, e.remote_ip.as_slice());
        key.push(0);
    }
    proof {
        assert(key@ =~= seg_listener(mask, *e) + seg_remote_ip(mask, *e));
    }
    if mask & THROTTLE_LOCAL_IP != 0 {
        push_bytes(&mut key, e.local_ip.as_slice());
        key.push(0);
    }
    proof {
        assert(key@ =~= seg_listener(mask, *e) + seg_remote_ip(mask, *e) + seg_local_ip(mask, *e));
    }
    if mask & THROTTLE_AUTH_AS != 0 {
        push_bytes(&mut key, e.authenticated_as.as_slice());
        key.push(0);
    }
    proof {
        assert(key@ =~= seg_listener(mask, *e) + seg_remote_ip(mask, *e) + seg_local_ip(mask, *e) + seg_authenticated_as(mask, *e));
    }
    if mask & THROTTLE_HELO_DOMAIN != 0 {
        push_bytes(&mut key, e.helo_domain.as_slice());
        key.push(0);
    }
    proof {
        assert(key@ =~= seg_listener(mask, *e) + seg_remote_ip(mask, *e) + seg_local_ip(mask, *e) + seg_authenticated_as(mask, *e) + seg_helo_domain(mask, *e));
    }
    if mask & THROTTLE_SENDER != 0 {
        push_bytes(&mut key, e.sender.as_slice());
        key.push(0);
    }
    proof {
        assert(key@ =~= seg_listener(mask, *e) + seg_remote_ip(mask, *e) + seg_local_ip(mask, *e) + seg_authenticated_as(mask, *e) + seg_helo_domain(mask, *e) + seg_sender(mask, *e));
    }
    if mask & THROTTLE_SENDER_DOMAIN != 0 {
        push_bytes(&mut key, e.sender_domain.as_slice());
        key.push(0);
    }
    proof {
        assert(key@ =~= seg_listener(mask, *e) + seg_remote_ip(mask, *e) + seg_local_ip(mask, *e) + seg_authenticated_as(mask, *e) + seg_helo_domain(mask, *e) + seg_sender(mask, *e) + seg_sender_domain(mask, *e));
    }
    if mask & THROTTLE_RCPT != 0 {
        push_bytes(&mut key, e.rcpt.as_slice());
        key.push(0);
    }
    proof {
        assert(key@ =~= seg_listener(mask, *e) + seg_remote_ip(mask, *e) + seg_local_ip(mask, *e) + seg_authenticated_as(mask, *e) + seg_helo_domain(mask, *e) + seg_sender(mask, *e) + seg_sender_domain(mask, *e) + seg_rcpt(mask, *e));
    }
    if mask & THROTTLE_RCPT_DOMAIN != 0 {
        push_bytes(&mut key, e.rcpt_domain.as_slice());
        key.push(0);
    }
    proof {
        assert(key@ =~= seg_listener(mask, *e) + seg_remote_ip(mask, *e) + seg_local_ip(mask, *e) + seg_authenticated_as(mask, *e) + seg_helo_domain(mask, *e) + seg_sender(mask, *e) + seg_sender_domain(mask, *e) + seg_rcpt(mask, *e) + seg_rcpt_domain(mask, *e));
    }
    key
}

/// The in-memory throttle state: one entry of counters per composite
/// key seen so far.
pub struct ThrottleMap {
    pub entries: Vec<(Vec<u8>, ThrottleEntry)>,
}

/// The index of the entry a key is stored under.
pub open spec fn spec_key_index(entries: Seq<(Vec<u8>, ThrottleEntry)>, key: Seq<u8>) -> Option<
    int,
>
    decreases entries.len(),
{
    if entries.len() == 0 {
        Option::None
    } else if entries[0].0@ == key {
        Option::Some(0)
    } else {
        match spec_key_index(entries.drop_first(), key) {
            Option::Some(i) => Option::Some(i + 1),
            Option::None => Option::None,
        }
    }
}

impl ThrottleMap {
    /// An empty throttle state.
    pub fn new() -> (r: ThrottleMap)
        ensures
            r.entries@.len() == 0,
    {
        ThrottleMap { entries: Vec::new() }
    }

    /// Admission for one key: the key's entry decides, a fresh entry
    /// is made for a key never seen, and a stale entry (idle for a
    /// whole further period) is dropped on access and replaced by a
    /// fresh one, so idle keys do not accumulate counters. The outcome
    /// and the key's new counters are exactly one admission step
    /// against the entry the key held; no other key's entry moves.
    #[verifier::rlimit(100)]
    pub fn try_admit(&mut self, key: Vec<u8>, t: &Throttle, now_ms: u64) -> (r: Admission)
        requires
            (match t.rate {
                Option::Some(rate) => rate.period_ms <= 1000000000 && rate.requests < u64::MAX,
                Option::None => true,
            }),
            now_ms <= u64::MAX - 2000000000,
        ensures
            ({
                let old_entries = old(self).entries@;
                let stepped = spec_admit(spec_entry_for(old_entries, key@, *t, now_ms), *t, now_ms);
                &&& r == stepped.1
                &&& match spec_key_index(old_entries, key@) {
                    Option::Some(i) => {
                        &&& final(self).entries@.len() == old_entries.len()
                        &&& final(self).entries@[i].0@ == key@
                        &&& final(self).entries@[i].1 == stepped.0
                        &&& (forall|j: int|
                            0 <= j < old_entries.len() && j != i ==> final(self).entries@[j]
                                == old_entries[j])
                    },
                    Option::None => {
                        &&& final(self).entries@.len() == old_entries.len() + 1
                        &&& final(self).entries@[old_entries.len() as int].0@ == key@
                        &&& final(self).entries@[old_entries.len() as int].1 == stepped.0
                        &&& (forall|j: int|
                            0 <= j < old_entries.len() ==> final(self).entries@[j]
                                == old_entries[j])
                    },
                }
            }),
    {
        let ghost old_entries = self.entries@;
        let mut i: usize = 0;
        let n = self.entries.len();
        while i < n
            invariant
                0 <= i <= n,
                n == self.entries@.len(),
                old_entries == old(self).entries@,
                self.entries@ == old_entries,
                forall|j: int| 0 <= j < i ==> (#[trigger] old_entries[j]).0@ != key@,
                (match t.rate {
                    Option::Some(rate) => rate.period_ms <= 1000000000 && rate.requests
                        < u64::MAX,
                    Option::None => true,
                }),
                now_ms <= u64::MAX - 2000000000,
            decreases n - i,
        {
            if bytes_eq(self.entries[i].0.as_slice(), key.as_slice()) {
                proof {
                    lemma_key_index_at(old_entries, key@, i as int);
                }
                let mut entry = self.entries[i].1;
                if entry.period_start_ms > now_ms || entry.concurrent == u64::MAX {
                    entry = ThrottleEntry::new(now_ms);
                }
                if entry.is_stale(t, now_ms) {
                    entry = ThrottleEntry::new(now_ms);
                }
                proof {
                    assert(entry == spec_effective(old_entries[i as int].1, *t, now_ms));
                }
                let outcome = entry.try_admit(t, now_ms);
                let ghost gi = i as int;
                self.entries.set(i, (key, entry));
                proof {
                    assert(self.entries@[gi].0@ == key@);
                }
                return outcome;
            }
            i = i + 1;
        }
        proof {
            lemma_key_index_none(old_entries, key@);
        }
        let mut entry = ThrottleEntry::new(now_ms);
        let outcome = entry.try_admit(t, now_ms);
        self.entries.push((key, entry));
        proof {
            assert(self.entries@[old_entries.len() as int].0@ == key@);
        }
        outcome
    }

    /// Returns the concurrency slot a session held under its key: the
    /// key's entry, if it exists and has a slot out, gives one back;
    /// nothing else in the map moves.
    pub fn release(&mut self, key: &Vec<u8>)
        ensures
            ({
                let old_entries = old(self).entries@;
                match spec_key_index(old_entries, key@) {
                    Option::Some(i) => {
                        if old_entries[i].1.concurrent > 0 {
                            &&& final(self).entries@.len() == old_entries.len()
                            &&& final(self).entries@[i].0 == old_entries[i].0
                            &&& final(self).entries@[i].1.concurrent == old_entries[i].1.concurrent
                                - 1
                            &&& final(self).entries@[i].1.period_start_ms
                                == old_entries[i].1.period_start_ms
                            &&& final(self).entries@[i].1.used == old_entries[i].1.used
                            &&& (forall|j: int|
                                0 <= j < old_entries.len() && j != i ==> final(self).entries@[j]
                                    == old_entries[j])
                        } else {
                            final(self).entries@ == old_entries
                        }
                    },
                    Option::None => final(self).entries@ == old_entries,
                }
            }),
    {
        let ghost old_entries = self.entries@;
        let mut i: usize = 0;
        let n = self.entries.len();
        while i < n
            invariant
                0 <= i <= n,
                n == self.entries@.len(),
                old_entries == old(self).entries@,
                self.entries@ == old_entries,
                forall|j: int| 0 <= j < i ==> (#[trigger] old_entries[j]).0@ != key@,
            decreases n - i,
        {
            if bytes_eq(self.entries[i].0.as_slice(), key.as_slice()) {
                proof {
                    lemma_key_index_at(old_entries, key@, i as int);
                }
                let c = self.entries[i].1.concurrent;
                if c > 0 {
                    self.entries[i].1.concurrent = c - 1;
                }
                return ;
            }
            i = i + 1;
        }
        proof {
            lemma_key_index_none(old_entries, key@);
        }
    }
}

} // verus!
