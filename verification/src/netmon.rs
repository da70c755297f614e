//! Network quality: probe classification and the hysteresis filter that
//! filters successive classifications.

use vstd::prelude::*;
use crate::text::{ascii_lower, chars_of, contains, has_sub, same, to_ascii_lower};

verus! {

/// Latency (milliseconds) from which a connection counts as poor, inclusive.
pub const POOR_LATENCY_MS: u64 = 600;

/// Public-network connectivity quality.
#[derive(Clone, Copy, Debug, PartialEq, Eq, Structural)]
pub enum NetQuality {
    /// Connectivity is fine.
    Good,
    /// High latency, or at most half of the endpoints reachable.
    Poor,
    /// No endpoint reachable.
    Offline,
}

/// Health snapshot of one probe round, after hysteresis.
#[derive(Clone, Debug, PartialEq, Eq, Structural)]
pub struct NetHealth {
    pub quality: NetQuality,
    /// Best successful handshake latency in milliseconds; `None` when all failed.
    pub latency_ms: Option<u32>,
}

/// Number of successful probes in `results`.
pub open spec fn success_count(results: Seq<Option<u64>>) -> nat
    decreases results.len(),
{
    if results.len() == 0 {
        0
    } else {
        success_count(results.drop_last()) + if results.last() is Some { 1nat } else { 0nat }
    }
}

/// Whether some successful probe has latency `ms`, and no successful probe is faster.
pub open spec fn is_best_latency(results: Seq<Option<u64>>, ms: u64) -> bool {
    &&& exists|i: int| 0 <= i < results.len() && results[i] == Some(ms)
    &&& forall|i: int| 0 <= i < results.len() && results[i] is Some ==> ms <= results[i]->0
}

/// Quality of one probe round: no success is `Offline`; at most half successful, or a best
/// latency of at least `POOR_LATENCY_MS`, is `Poor`; anything else is `Good`.
pub open spec fn classify_spec(results: Seq<Option<u64>>) -> NetQuality {
    if success_count(results) == 0 {
        NetQuality::Offline
    } else if success_count(results) * 2 <= results.len() {
        NetQuality::Poor
    } else if exists|ms: u64| is_best_latency(results, ms) && ms >= POOR_LATENCY_MS {
        NetQuality::Poor
    } else {
        NetQuality::Good
    }
}

proof fn lemma_success_count_bound(results: Seq<Option<u64>>)
    ensures
        success_count(results) <= results.len(),
    decreases results.len(),
{
    if results.len() > 0 {
        lemma_success_count_bound(results.drop_last());
    }
}

/// Fastest successful probe of the round and the number of successes, scanning a prefix.
fn best_and_count(results: &[Option<u64>]) -> (r: (usize, Option<u64>))
    ensures
        r.0 == success_count(results@),
        r.0 <= results@.len(),
        r.1 is None <==> r.0 == 0,
        r.1 matches Some(ms) ==> is_best_latency(results@, ms),
{
    let mut count: usize = 0;
    let mut best: Option<u64> = None;
    let mut i: usize = 0;
    while i < results.len()
        invariant
            i <= results@.len(),
            count == success_count(results@.subrange(0, i as int)),
            count <= i,
            best is None <==> count == 0,
            best is None ==> forall|k: int| 0 <= k < i ==> results@[k] is None,
            best matches Some(ms) ==> is_best_latency(results@.subrange(0, i as int), ms),
        decreases results@.len() - i,
    {
        let ghost prefix = results@.subrange(0, i as int);
        let ghost next = results@.subrange(0, i + 1);
        assert(next.drop_last() =~= prefix);
        match results[i] {
            Some(ms) => {
                count = count + 1;
                match best {
                    Some(b) => {
                        if ms < b {
                            best = Some(ms);
                        }
                    },
                    None => {
                        best = Some(ms);
                    },
                }
                assert(next[i as int] == Some(ms));
                assert forall|k: int| 0 <= k < next.len() && next[k] is Some implies best->0 <= next[k]->0 by {
                    if k < i {
                        assert(next[k] == prefix[k]);
                    }
                }
                assert(exists|k: int| 0 <= k < next.len() && next[k] == Some(best->0)) by {
                    if best->0 == ms {
                        assert(next[i as int] == Some(ms));
                    } else {
                        let k = choose|k: int| 0 <= k < prefix.len() && prefix[k] == Some(best->0);
                        assert(next[k] == prefix[k]);
                    }
                }
            },
            None => {
                if let Some(bv) = best {
                    let ghost b = bv;
                    assert forall|k: int| 0 <= k < next.len() && next[k] is Some implies b <= next[k]->0 by {
                        if k < i {
                            assert(next[k] == prefix[k]);
                        }
                    }
                    proof {
                        let k = choose|k: int| 0 <= k < prefix.len() && prefix[k] == Some(b);
                        assert(next[k] == prefix[k]);
                    }
                }
            },
        }
        i = i + 1;
    }
    assert(results@.subrange(0, results@.len() as int) =~= results@);
    (count, best)
}

proof fn lemma_best_unique(results: Seq<Option<u64>>, a: u64, b: u64)
    requires
        is_best_latency(results, a),
        is_best_latency(results, b),
    ensures
        a == b,
{
    let i = choose|i: int| 0 <= i < results.len() && results[i] == Some(a);
    let j = choose|j: int| 0 <= j < results.len() && results[j] == Some(b);
    assert(a <= results[j]->0);
    assert(b <= results[i]->0);
}

/// Classifies one probe round (one entry per endpoint, `None` = failed).
pub fn classify_probe(results: &[Option<u64>]) -> (q: NetQuality)
    ensures
        q == classify_spec(results@),
{
    if results.len() == 0 {
        return NetQuality::Offline;
    }
    let (count, best) = best_and_count(results);
    if count == 0 {
        return NetQuality::Offline;
    }
    if count <= results.len() / 2 {
        return NetQuality::Poor;
    }
    let ms = match best {
        Some(ms) => ms,
        None => { return NetQuality::Offline; },
    };
    proof {
        assert forall|m: u64| is_best_latency(results@, m) implies m == ms by {
            lemma_best_unique(results@, m, ms);
        }
    }
    if ms >= POOR_LATENCY_MS {
        NetQuality::Poor
    } else {
        NetQuality::Good
    }
}


/// Best successful latency of a round, when it fits in `u32`.
pub open spec fn best_latency_spec(results: Seq<Option<u64>>) -> Option<u32> {
    if success_count(results) == 0 {
        None
    } else {
        let ms = choose|ms: u64| is_best_latency(results, ms);
        if ms <= u32::MAX {
            Some(ms as u32)
        } else {
            None
        }
    }
}

/// Best successful latency of a round in milliseconds (`None` when every probe failed
/// or the value does not fit in `u32`).
pub fn best_latency_ms(results: &[Option<u64>]) -> (r: Option<u32>)
    ensures
        r == best_latency_spec(results@),
        r matches Some(ms) ==> is_best_latency(results@, ms as u64),
{
    let (count, best) = best_and_count(results);
    match best {
        None => None,
        Some(ms) => {
            proof {
                let c = choose|m: u64| is_best_latency(results@, m);
                lemma_best_unique(results@, c, ms);
            }
            if ms <= 4294967295u64 {
                Some(ms as u32)
            } else {
                None
            }
        },
    }
}

/// Health record published after one probe round.
pub fn health_of_round(quality: NetQuality, results: &[Option<u64>]) -> (h: NetHealth)
    ensures
        h.quality == quality,
        h.latency_ms == best_latency_spec(results@),
{
    NetHealth { quality, latency_ms: best_latency_ms(results) }
}

/// Interface names treated as loopback: containing `loopback` (ASCII case-insensitive),
/// or exactly `lo` / `lo0`.
pub open spec fn is_loopback_spec(name: Seq<char>) -> bool {
    let l = ascii_lower(name);
    contains(l, "loopback"@) || l == "lo"@ || l == "lo0"@
}

/// Whether an interface name denotes a loopback interface.
pub fn is_loopback_name(name: &str) -> (b: bool)
    ensures
        b == is_loopback_spec(name@),
{
    let n = chars_of(name);
    let l = to_ascii_lower(&n);
    let loopback = chars_of("loopback");
    let lo = chars_of("lo");
    let lo0 = chars_of("lo0");
    has_sub(&l, &loopback) || same(&l, &lo) || same(&l, &lo0)
}

/// `a + b`, saturating at `u64::MAX`.
pub open spec fn sat_add(a: u64, b: u64) -> u64 {
    if a + b > u64::MAX {
        u64::MAX
    } else {
        (a + b) as u64
    }
}

/// Download / upload byte totals over the non-loopback interfaces, saturating.
pub open spec fn sample_spec(ifaces: Seq<(&str, u64, u64)>) -> (u64, u64)
    decreases ifaces.len(),
{
    if ifaces.len() == 0 {
        (0, 0)
    } else {
        let (d, u) = sample_spec(ifaces.drop_last());
        let (name, rx, tx) = ifaces.last();
        if is_loopback_spec(name@) {
            (d, u)
        } else {
            (sat_add(d, rx), sat_add(u, tx))
        }
    }
}

/// Sums the byte deltas `(name, received, transmitted)` of all interfaces that are not
/// loopback, saturating at `u64::MAX`.
pub fn collect_sample(ifaces: &[(&str, u64, u64)]) -> (r: (u64, u64))
    ensures
        r == sample_spec(ifaces@),
{
    let mut down: u64 = 0;
    let mut up: u64 = 0;
    let mut i: usize = 0;
    while i < ifaces.len()
        invariant
            i <= ifaces@.len(),
            (down, up) == sample_spec(ifaces@.subrange(0, i as int)),
        decreases ifaces@.len() - i,
    {
        let (name, rx, tx) = ifaces[i];
        assert(ifaces@.subrange(0, i + 1).drop_last() =~= ifaces@.subrange(0, i as int));
        if !is_loopback_name(name) {
            down = down.saturating_add(rx);
            up = up.saturating_add(tx);
        }
        i = i + 1;
    }
    assert(ifaces@.subrange(0, ifaces@.len() as int) =~= ifaces@);
    (down, up)
}

/// State of the hysteresis filter: the adopted quality and a pending candidate.
pub struct GateState {
    pub current: Option<NetQuality>,
    pub pending: Option<(NetQuality, u32)>,
}

/// One step of the filter on a new classification `q`:
/// the first reading, a reading equal to the adopted one, and `Offline` take effect at once;
/// a different reading takes effect only when it repeats the pending candidate, otherwise
/// it becomes the pending candidate with count 1. Every adoption clears the candidate.
pub open spec fn gate_step(s: GateState, q: NetQuality) -> GateState {
    match s.current {
        None => GateState { current: Some(q), pending: None },
        Some(c) => {
            if q == c || q == NetQuality::Offline {
                GateState { current: Some(q), pending: None }
            } else {
                let count: int = match s.pending {
                    Some((pq, n)) => if pq == q { n + 1 } else { 1 },
                    None => 1,
                };
                if count >= 2 {
                    GateState { current: Some(q), pending: None }
                } else {
                    GateState { current: Some(c), pending: Some((q, 1)) }
                }
            }
        },
    }
}

/// Hysteresis filter over successive classifications.
///
/// The first reading and `Offline` take effect at once; a switch between `Good` and
/// `Poor` (including a partial recovery from `Offline`) needs two consecutive equal
/// readings; every adoption clears the pending reading.
#[derive(Debug)]
pub struct QualityGate {
    current: Option<NetQuality>,
    pending: Option<(NetQuality, u32)>,
}

impl View for QualityGate {
    type V = GateState;

    closed spec fn view(&self) -> GateState {
        GateState { current: self.current, pending: self.pending }
    }
}

impl QualityGate {
    /// Reachable states: a pending candidate has count 1, differs from the adopted
    /// quality and is never `Offline`.
    #[verifier::type_invariant]
    closed spec fn well_formed(self) -> bool {
        match self.pending {
            Some((pq, n)) => n == 1 && self.current is Some && pq != self.current->0
                && pq != NetQuality::Offline,
            None => true,
        }
    }

    /// An empty filter (no reading yet).
    pub fn new() -> (g: Self)
        ensures
            g@.current is None,
            g@.pending is None,
    {
        QualityGate { current: None, pending: None }
    }

    /// Pushes one classification and returns the adopted quality.
    pub fn push(&mut self, quality: NetQuality) -> (r: NetQuality)
        ensures
            final(self)@ == gate_step(old(self)@, quality),
            final(self)@.current == Some(r),
    {
        proof {
            use_type_invariant(&*self);
        }
        let next = match self.current {
            None => QualityGate { current: Some(quality), pending: None },
            Some(current) => {
                if quality == current || quality == NetQuality::Offline {
                    QualityGate { current: Some(quality), pending: None }
                } else {
                    let count: u32 = match self.pending {
                        Some((pq, c)) => if pq == quality { c + 1 } else { 1 },
                        None => 1,
                    };
                    if count >= 2 {
                        QualityGate { current: Some(quality), pending: None }
                    } else {
                        QualityGate { current: Some(current), pending: Some((quality, count)) }
                    }
                }
            },
        };
        *self = next;
        quality_of(&self.current, quality)
    }

    /// The adopted quality (`None` before the first reading).
    pub fn get(&self) -> (r: Option<NetQuality>)
        ensures
            r == self@.current,
    {
        self.current
    }
}

fn quality_of(current: &Option<NetQuality>, fallback: NetQuality) -> (r: NetQuality)
    ensures
        current matches Some(c) ==> r == c,
        current is None ==> r == fallback,
{
    match current {
        Some(c) => *c,
        None => fallback,
    }
}

impl Default for QualityGate {
    fn default() -> (g: Self)
        ensures
            g@.current is None,
            g@.pending is None,
    {
        QualityGate::new()
    }
}

/// Law: the first reading takes effect immediately, whatever it is.
pub proof fn law_first_reading_commits(q: NetQuality)
    ensures
        gate_step(GateState { current: None, pending: None }, q).current == Some(q),
{
}

/// Law: `Offline` takes effect immediately from any state, and clears any pending reading.
pub proof fn law_offline_is_immediate(s: GateState)
    ensures
        gate_step(s, NetQuality::Offline).current == Some(NetQuality::Offline),
        gate_step(s, NetQuality::Offline).pending is None,
{
}

/// Law: once a quality is adopted, a single differing reading other than `Offline`
/// does not change it when no equal reading is pending; the same reading pushed twice
/// in a row then takes effect.
pub proof fn law_switch_needs_two_confirmations(c: NetQuality, q: NetQuality)
    requires
        q != c,
        q != NetQuality::Offline,
    ensures
        ({
            let s0 = GateState { current: Some(c), pending: None };
            let s1 = gate_step(s0, q);
            let s2 = gate_step(s1, q);
            &&& s1.current == Some(c)
            &&& s2.current == Some(q)
            &&& s2.pending is None
        }),
{
}

/// Law: alternating a differing reading with the adopted one never flips the filter.
pub proof fn law_oscillation_never_flips(c: NetQuality, q: NetQuality, s: GateState)
    requires
        s.current == Some(c),
        s.pending is None,
        q != c,
        q != NetQuality::Offline,
    ensures
        gate_step(s, q).current == Some(c),
        gate_step(gate_step(s, q), c) == (GateState { current: Some(c), pending: None }),
{
}

/// Law: every adoption clears the pending reading.
pub proof fn law_commit_clears_pending(s: GateState, q: NetQuality)
    ensures
        gate_step(s, q).current != s.current ==> gate_step(s, q).pending is None,
        gate_step(s, q).current == Some(q) ==> gate_step(s, q).pending is None,
{
}

/// Law: the filter only ever adopts a reading it was given, or keeps its current one.
pub proof fn law_committed_was_pushed(s: GateState, q: NetQuality)
    ensures
        gate_step(s, q).current == Some(q) || gate_step(s, q).current == s.current,
{
}

/// The filter's state after the readings `qs`, pushed in order from state `s`.
pub open spec fn gate_run(s: GateState, qs: Seq<NetQuality>) -> GateState
    decreases qs.len(),
{
    if qs.len() == 0 {
        s
    } else {
        gate_step(gate_run(s, qs.drop_last()), qs.last())
    }
}

proof fn lemma_run_step(s: GateState, qs: Seq<NetQuality>, k: int)
    requires
        0 <= k < qs.len(),
    ensures
        gate_run(s, qs.take(k + 1)) == gate_step(gate_run(s, qs.take(k)), qs[k]),
{
    assert(qs.take(k + 1).drop_last() =~= qs.take(k));
    assert(qs.take(k + 1).last() == qs[k]);
}

proof fn lemma_pending_was_pushed(s: GateState, qs: Seq<NetQuality>, k: int)
    requires
        s.pending is None,
        0 <= k <= qs.len(),
    ensures
        gate_run(s, qs.take(k)).pending matches Some((p, n)) ==> k >= 1 && qs[k - 1] == p,
{
    if k == 0 {
        assert(qs.take(0) =~= Seq::<NetQuality>::empty());
    } else {
        lemma_run_step(s, qs, k - 1);
    }
}

/// Law: over any sequence of readings pushed from a state with no pending reading, the
/// filter switches from an adopted quality to a different one other than `Offline` only
/// on the second of two consecutive equal readings.
pub proof fn law_switch_only_on_repeat(s: GateState, qs: Seq<NetQuality>, k: int)
    requires
        s.pending is None,
        0 <= k < qs.len(),
        gate_run(s, qs.take(k)).current is Some,
        gate_run(s, qs.take(k + 1)).current != gate_run(s, qs.take(k)).current,
        qs[k] != NetQuality::Offline,
    ensures
        k >= 1,
        qs[k - 1] == qs[k],
        gate_run(s, qs.take(k + 1)).current == Some(qs[k]),
{
    lemma_run_step(s, qs, k);
    lemma_pending_was_pushed(s, qs, k);
}

/// Law: over any sequence of readings from any state, two consecutive equal readings
/// make that reading the adopted quality.
pub proof fn law_repeat_is_adopted(s: GateState, qs: Seq<NetQuality>, k: int)
    requires
        1 <= k < qs.len(),
        qs[k - 1] == qs[k],
    ensures
        gate_run(s, qs.take(k + 1)).current == Some(qs[k]),
{
    lemma_run_step(s, qs, k - 1);
    lemma_run_step(s, qs, k);
}

/// Readings that alternate between `q` (at even positions) and `c` (at odd ones).
pub open spec fn alternating(qs: Seq<NetQuality>, q: NetQuality, c: NetQuality) -> bool {
    forall|i: int| 0 <= i < qs.len() ==> #[trigger] qs[i] == (if i % 2 == 0 { q } else { c })
}

/// Law: from an adopted quality `c` with nothing pending, readings that alternate
/// between a different quality `q` (not `Offline`) and `c`, starting with `q`, never
/// change the adopted quality, after any number of them.
pub proof fn law_alternation_never_flips(c: NetQuality, q: NetQuality, qs: Seq<NetQuality>, k: int)
    requires
        q != c,
        q != NetQuality::Offline,
        alternating(qs, q, c),
        0 <= k <= qs.len(),
    ensures
        gate_run(GateState { current: Some(c), pending: None }, qs.take(k)).current == Some(c),
{
    lemma_alternation_states(c, q, qs, k);
}

proof fn lemma_alternation_states(c: NetQuality, q: NetQuality, qs: Seq<NetQuality>, k: int)
    requires
        q != c,
        q != NetQuality::Offline,
        alternating(qs, q, c),
        0 <= k <= qs.len(),
    ensures
        gate_run(GateState { current: Some(c), pending: None }, qs.take(k)) == (if k % 2 == 0 {
            GateState { current: Some(c), pending: None }
        } else {
            GateState { current: Some(c), pending: Some((q, 1u32)) }
        }),
    decreases k,
{
    let s = GateState { current: Some(c), pending: None };
    if k == 0 {
        assert(qs.take(0) =~= Seq::<NetQuality>::empty());
    } else {
        lemma_alternation_states(c, q, qs, k - 1);
        lemma_run_step(s, qs, k - 1);
        assert(qs[k - 1] == (if (k - 1) % 2 == 0 { q } else { c }));
    }
}

/// The empty filter, before the first reading.
pub open spec fn gate_start() -> GateState {
    GateState { current: None, pending: None }
}

proof fn lemma_pending_from_start(qs: Seq<NetQuality>, k: int)
    requires
        0 <= k <= qs.len(),
    ensures
        gate_run(gate_start(), qs.take(k)).pending matches Some((p, n)) ==> n == 1 && k >= 1
            && qs[k - 1] == p && gate_run(gate_start(), qs.take(k)).current == gate_run(
            gate_start(),
            qs.take(k - 1),
        ).current && gate_run(gate_start(), qs.take(k)).current is Some && gate_run(
            gate_start(),
            qs.take(k),
        ).current != Some(p),
{
    if k == 0 {
        assert(qs.take(0) =~= Seq::<NetQuality>::empty());
    } else {
        lemma_run_step(gate_start(), qs, k - 1);
    }
}

/// Law: for a filter that started empty and was given the readings `qs`, the `k`-th push
/// of `q = qs[k]` against the adopted value `c`: the first reading, a repeat of `c` and
/// `Offline` are adopted at once; any other reading is adopted exactly when the previous
/// push was the same reading and left the adopted value unchanged, and otherwise `c`
/// stays. (So strictly alternating `Good` and `Poor` never changes the adopted value.)
pub proof fn law_push_rule(qs: Seq<NetQuality>, k: int)
    requires
        0 <= k < qs.len(),
    ensures
        ({
            let c = gate_run(gate_start(), qs.take(k)).current;
            let after = gate_run(gate_start(), qs.take(k + 1)).current;
            let q = qs[k];
            &&& (c is None || c == Some(q) || q == NetQuality::Offline) ==> after == Some(q)
            &&& !(c is None || c == Some(q) || q == NetQuality::Offline) ==> (after == Some(q) <==> (
            k >= 1 && qs[k - 1] == q && c == gate_run(gate_start(), qs.take(k - 1)).current))
            &&& !(c is None || c == Some(q) || q == NetQuality::Offline) && after != Some(q)
                ==> after == c
        }),
{
    lemma_run_step(gate_start(), qs, k);
    lemma_pending_from_start(qs, k);
    if k >= 1 {
        lemma_run_step(gate_start(), qs, k - 1);
    }
}

} // verus!
