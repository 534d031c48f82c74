//! Reproduction mode: a bounded work queue built from the archived crash
//! records (each record duplicated a fixed number of times), and the
//! statistics aggregated over the runs the workers perform against it.
//!
//! Work items are the indices of the records in the caller's list, so the
//! queue and the statistics speak of plain integers; the caller keeps the
//! record paths beside them.

use vstd::prelude::*;

use crossbeam_queue::ArrayQueue;
use vstd::multiset::Multiset;

use crate::gen::WorldGenResult;

verus! {

broadcast use vstd::multiset::group_multiset_axioms;

/// A fatal configuration error, reported before any worker starts.
#[derive(PartialEq, Eq, Structural, Clone, Copy, Debug)]
pub enum ConfigError {
    /// Reproduction mode was asked to run over an empty set of crash records.
    NoCrashRecords,
}

impl ConfigError {
    pub fn message(&self) -> (r: &'static str)
        ensures
            r@ == "No crashes in the crashes directory."@,
    {
        "No crashes in the crashes directory."
    }
}

#[verifier::external_type_specification]
#[verifier::external_body]
#[verifier::reject_recursive_types(T)]
pub struct ExArrayQueue<T>(ArrayQueue<T>);

/// What the work queue holds. It is a multiset: concurrent pops hand the
/// items out in an order these contracts do not fix.
pub uninterp spec fn queue_contents(q: ArrayQueue<u64>) -> Multiset<u64>;

/// The fixed capacity the work queue was created with.
pub uninterp spec fn queue_capacity(q: ArrayQueue<u64>) -> nat;

/// Relies on crossbeam's `ArrayQueue::new`: an empty bounded queue of the
/// given capacity. It panics on a zero capacity and on one too large for its
/// power-of-two stamp arithmetic, so both are excluded here.
#[verifier::external_body]
fn queue_new(cap: usize) -> (q: ArrayQueue<u64>)
    requires
        1 <= cap <= usize::MAX / 4,
    ensures
        queue_contents(q) == Multiset::<u64>::empty(),
        queue_capacity(q) == cap,
{
    ArrayQueue::new(cap)
}

/// Relies on crossbeam's `ArrayQueue::push`: the value enters the queue
/// unless the queue is full, in which case it comes back unchanged as the
/// error.
#[verifier::external_body]
fn queue_push(q: &mut ArrayQueue<u64>, v: u64) -> (r: Result<(), u64>)
    ensures
        queue_capacity(*final(q)) == queue_capacity(*old(q)),
        (r is Ok) <==> queue_contents(*old(q)).len() < queue_capacity(*old(q)),
        r is Ok ==> queue_contents(*final(q)) == queue_contents(*old(q)).insert(v),
        r matches Err(e) ==> e == v && queue_contents(*final(q)) == queue_contents(*old(q)),
{
    q.push(v)
}

/// Build the reproduction work queue over `k` archived crash records: a queue
/// of capacity `k * num` holding every record index `num` times. An empty
/// record set is a configuration error, reported before any worker starts.
pub fn build_repro_queue(k: usize, num: usize) -> (r: Result<ArrayQueue<u64>, ConfigError>)
    requires
        num >= 1,
        k * num <= usize::MAX / 4,
    ensures
        (r is Ok) <==> k >= 1,
        r matches Err(e) ==> e == ConfigError::NoCrashRecords && k == 0,
        r matches Ok(q) ==> queue_capacity(q) == k * num && queue_contents(q).len() == k * num && (
        forall|v: u64|
            queue_contents(q).count(v) == if (v as int) < k {
                num as nat
            } else {
                0nat
            }),
{
    if k == 0 {
        return Err(ConfigError::NoCrashRecords);
    }
    let cap = k * num;
    proof {
        assert(1 <= k * num) by (nonlinear_arith)
            requires
                1 <= k,
                1 <= num,
        ;
    }
    let mut q = queue_new(cap);
    let mut i: usize = 0;
    while i < k
        invariant
            num >= 1,
            1 <= k,
            k * num <= usize::MAX / 4,
            cap == k * num,
            0 <= i <= k,
            queue_capacity(q) == cap,
            queue_contents(q).len() == i * num,
            forall|v: u64|
                queue_contents(q).count(v) == if (v as int) < i {
                    num as nat
                } else {
                    0nat
                },
        decreases k - i,
    {
        let mut j: usize = 0;
        proof {
            assert(i * num + num <= k * num) by (nonlinear_arith)
                requires
                    i < k,
                    num >= 1,
            ;
        }
        while j < num
            invariant
                num >= 1,
                1 <= k,
                k * num <= usize::MAX / 4,
                cap == k * num,
                0 <= i < k,
                0 <= j <= num,
                i * num + num <= k * num,
                queue_capacity(q) == cap,
                queue_contents(q).len() == i * num + j,
                forall|v: u64|
                    queue_contents(q).count(v) == if (v as int) < i {
                        num as nat
                    } else if v == i as u64 {
                        j as nat
                    } else {
                        0nat
                    },
            decreases num - j,
        {
            let ghost old_q = q;
            let _ = queue_push(&mut q, i as u64);
            proof {
                assert(queue_contents(old_q).len() < cap);
                assert(queue_contents(q) == queue_contents(old_q).insert(i as u64));
                assert forall|v: u64|
                    queue_contents(q).count(v) == if (v as int) < i {
                        num as nat
                    } else if v == i as u64 {
                        (j + 1) as nat
                    } else {
                        0nat
                    } by {
                    assert(queue_contents(q).count(v) == queue_contents(old_q).count(v)
                        + Multiset::singleton(i as u64).count(v));
                }
            }
            j += 1;
        }
        proof {
            assert((i + 1) * num == i * num + num) by (nonlinear_arith);
            assert forall|v: u64|
                queue_contents(q).count(v) == if (v as int) < i + 1 {
                    num as nat
                } else {
                    0nat
                } by {}
        }
        i += 1;
    }
    Ok(q)
}

/// One archived record's reproduction counters: how often its runs crashed,
/// how often they exported a world, and the crashing runs' cumulative
/// duration. Counters are only ever incremented for the lifetime of one
/// reproduction run.
#[derive(PartialEq, Eq, Structural, Clone, Copy, Debug)]
pub struct ReproEntry {
    pub key: u64,
    pub crashes: u64,
    pub successes: u64,
    pub crash_ms: u64,
}

/// Crash and success outcomes are counted; aborted and failed runs are not.
pub open spec fn is_counted(r: WorldGenResult) -> bool {
    r is Crash || r is Success
}

/// How many runs one entry has counted.
pub open spec fn counts(e: ReproEntry) -> int {
    e.crashes + e.successes
}

/// The sum of crash and success counters across all entries.
pub open spec fn total_counted(s: Seq<ReproEntry>) -> int
    decreases s.len(),
{
    if s.len() == 0 {
        0
    } else {
        total_counted(s.drop_last()) + counts(s.last())
    }
}

pub open spec fn has_key(s: Seq<ReproEntry>, key: u64) -> bool {
    exists|i: int| 0 <= i < s.len() && s[i].key == key
}

pub open spec fn key_index(s: Seq<ReproEntry>, key: u64) -> int {
    choose|i: int| 0 <= i < s.len() && s[i].key == key
}

pub open spec fn keys_unique(s: Seq<ReproEntry>) -> bool {
    forall|i: int, j: int| 0 <= i < j < s.len() ==> s[i].key != s[j].key
}

/// Addition that stops at the largest duration rather than wrapping.
pub open spec fn sat_add64(a: u64, b: u64) -> u64 {
    if a + b > u64::MAX {
        u64::MAX
    } else {
        (a + b) as u64
    }
}

/// One entry after one more counted outcome: a crash bumps the crash counter
/// and accumulates the run's duration, a success bumps the success counter
/// only.
pub open spec fn updated_entry(e: ReproEntry, result: WorldGenResult, elapsed: u64) -> ReproEntry {
    if result is Crash {
        ReproEntry {
            key: e.key,
            crashes: (e.crashes + 1) as u64,
            successes: e.successes,
            crash_ms: sat_add64(e.crash_ms, elapsed),
        }
    } else {
        ReproEntry {
            key: e.key,
            crashes: e.crashes,
            successes: (e.successes + 1) as u64,
            crash_ms: e.crash_ms,
        }
    }
}

/// The entry created on a key's first counted outcome.
pub open spec fn fresh_entry(key: u64, result: WorldGenResult, elapsed: u64) -> ReproEntry {
    if result is Crash {
        ReproEntry { key, crashes: 1, successes: 0, crash_ms: elapsed }
    } else {
        ReproEntry { key, crashes: 0, successes: 1, crash_ms: 0 }
    }
}

/// The statistics after one outcome is recorded for `key`: the entry is
/// created on first observation and updated in place afterwards, as one
/// atomic step; outcomes that are not counted leave the statistics unchanged.
pub open spec fn record_spec(
    s: Seq<ReproEntry>,
    key: u64,
    result: WorldGenResult,
    elapsed: u64,
) -> Seq<ReproEntry> {
    if !is_counted(result) {
        s
    } else if has_key(s, key) {
        s.update(key_index(s, key), updated_entry(s[key_index(s, key)], result, elapsed))
    } else {
        s.push(fresh_entry(key, result, elapsed))
    }
}

proof fn lemma_total_nonneg(s: Seq<ReproEntry>)
    ensures
        total_counted(s) >= 0,
    decreases s.len(),
{
    if s.len() > 0 {
        lemma_total_nonneg(s.drop_last());
    }
}

proof fn lemma_total_push(s: Seq<ReproEntry>, e: ReproEntry)
    ensures
        total_counted(s.push(e)) == total_counted(s) + counts(e),
{
    assert(s.push(e).drop_last() =~= s);
    assert(s.push(e).last() == e);
}

proof fn lemma_total_update(s: Seq<ReproEntry>, i: int, e: ReproEntry)
    requires
        0 <= i < s.len(),
    ensures
        total_counted(s.update(i, e)) == total_counted(s) - counts(s[i]) + counts(e),
    decreases s.len(),
{
    let su = s.update(i, e);
    if i == s.len() - 1 {
        assert(su.drop_last() =~= s.drop_last());
        assert(su.last() == e);
    } else {
        assert(su.drop_last() =~= s.drop_last().update(i, e));
        lemma_total_update(s.drop_last(), i, e);
        assert(su.last() == s.last());
        assert(s.drop_last()[i] == s[i]);
    }
}

/// No single entry counts more runs than all entries together.
pub proof fn lemma_counts_le_total(s: Seq<ReproEntry>, i: int)
    requires
        0 <= i < s.len(),
    ensures
        counts(s[i]) <= total_counted(s),
    decreases s.len(),
{
    if i == s.len() - 1 {
        lemma_total_nonneg(s.drop_last());
    } else {
        lemma_counts_le_total(s.drop_last(), i);
        assert(s.drop_last()[i] == s[i]);
    }
}

/// The per-record reproduction statistics, read only after all workers
/// finish; every update is a whole get-or-insert-then-update step.
pub struct ReproStats {
    entries: Vec<ReproEntry>,
    total: u64,
}

impl View for ReproStats {
    type V = Seq<ReproEntry>;

    closed spec fn view(&self) -> Seq<ReproEntry> {
        self.entries@
    }
}

impl ReproStats {
    pub closed spec fn total_spec(self) -> u64 {
        self.total
    }

    /// Every key appears at most once, and the cached total is the sum of all
    /// counters.
    pub open spec fn wf(self) -> bool {
        &&& keys_unique(self@)
        &&& self.total_spec() == total_counted(self@)
    }

    pub fn new() -> (r: ReproStats)
        ensures
            r.wf(),
            r@ == Seq::<ReproEntry>::empty(),
    {
        ReproStats { entries: Vec::new(), total: 0 }
    }

    /// How many runs have been counted so far, across all entries.
    pub fn total(&self) -> (r: u64)
        requires
            self.wf(),
        ensures
            r == total_counted(self@),
    {
        self.total
    }

    pub fn len(&self) -> (r: usize)
        ensures
            r == self@.len(),
    {
        self.entries.len()
    }

    pub fn get(&self, i: usize) -> (r: ReproEntry)
        requires
            i < self@.len(),
        ensures
            r == self@[i as int],
    {
        self.entries[i]
    }

    /// The entry recorded for `key`, if any outcome of that record was
    /// counted yet.
    pub fn find(&self, key: u64) -> (r: Option<ReproEntry>)
        requires
            self.wf(),
        ensures
            has_key(self@, key) ==> r == Some(self@[key_index(self@, key)]),
            !has_key(self@, key) ==> r is None,
    {
        let n = self.entries.len();
        let mut i: usize = 0;
        while i < n
            invariant
                self.wf(),
                n == self@.len(),
                0 <= i <= n,
                forall|j: int| 0 <= j < i ==> self@[j].key != key,
            decreases n - i,
        {
            if self.entries[i].key == key {
                proof {
                    lemma_key_index_is(self@, key, i as int);
                }
                return Some(self.entries[i]);
            }
            i += 1;
        }
        None
    }

    /// Record one run's outcome for `key`, as one atomic
    /// get-or-insert-then-update step: crashes and successes are counted,
    /// crashes also accumulate the run's duration, anything else changes
    /// nothing.
    pub fn record(&mut self, key: u64, result: WorldGenResult, elapsed_ms: u64)
        requires
            old(self).wf(),
            total_counted(old(self)@) < u64::MAX,
        ensures
            final(self).wf(),
            final(self)@ == record_spec(old(self)@, key, result, elapsed_ms),
    {
        let counted = matches!(result, WorldGenResult::Crash) || matches!(
            result,
            WorldGenResult::Success,
        );
        if !counted {
            return ;
        }
        let n = self.entries.len();
        let mut i: usize = 0;
        while i < n
            invariant
                *self == *old(self),
                self.wf(),
                is_counted(result),
                total_counted(old(self)@) < u64::MAX,
                n == self@.len(),
                0 <= i <= n,
                forall|j: int| 0 <= j < i ==> self@[j].key != key,
            decreases n - i,
        {
            if self.entries[i].key == key {
                proof {
                    lemma_key_index_is(old(self)@, key, i as int);
                    lemma_counts_le_total(old(self)@, i as int);
                }
                let e = self.entries[i];
                assert(e == old(self)@[i as int]);
                assert(counts(e) < u64::MAX);
                let newe = if matches!(result, WorldGenResult::Crash) {
                    ReproEntry {
                        key: e.key,
                        crashes: e.crashes + 1,
                        successes: e.successes,
                        crash_ms: e.crash_ms.saturating_add(elapsed_ms),
                    }
                } else {
                    ReproEntry {
                        key: e.key,
                        crashes: e.crashes,
                        successes: e.successes + 1,
                        crash_ms: e.crash_ms,
                    }
                };
                assert(newe == updated_entry(e, result, elapsed_ms));
                self.entries[i] = newe;
                self.total = self.total + 1;
                proof {
                    assert(record_spec(old(self)@, key, result, elapsed_ms) == old(self)@.update(
                        i as int,
                        newe,
                    ));
                    lemma_total_update(old(self)@, i as int, newe);
                    assert(keys_unique(self@)) by {
                        assert forall|a: int, b: int| 0 <= a < b < self@.len() implies self@[a].key
                            != self@[b].key by {
                            assert(self@[a].key == old(self)@[a].key);
                            assert(self@[b].key == old(self)@[b].key);
                        }
                    }
                }
                return ;
            }
            i += 1;
        }
        let newe = if matches!(result, WorldGenResult::Crash) {
            ReproEntry { key, crashes: 1, successes: 0, crash_ms: elapsed_ms }
        } else {
            ReproEntry { key, crashes: 0, successes: 1, crash_ms: 0 }
        };
        assert(newe == fresh_entry(key, result, elapsed_ms));
        assert(!has_key(self@, key));
        self.entries.push(newe);
        self.total = self.total + 1;
        proof {
            lemma_total_push(old(self)@, newe);
            assert(keys_unique(self@)) by {
                assert forall|a: int, b: int| 0 <= a < b < self@.len() implies self@[a].key
                    != self@[b].key by {
                    if b < self@.len() - 1 {
                        assert(self@[a].key == old(self)@[a].key);
                        assert(self@[b].key == old(self)@[b].key);
                    } else {
                        assert(self@[a].key == old(self)@[a].key);
                        assert(self@[b] == newe);
                    }
                }
            }
        }
    }
}

/// With unique keys, the entry found at `i` is the entry `key_index` names.
proof fn lemma_key_index_is(s: Seq<ReproEntry>, key: u64, i: int)
    requires
        keys_unique(s),
        0 <= i < s.len(),
        s[i].key == key,
    ensures
        has_key(s, key),
        key_index(s, key) == i,
{
    assert(has_key(s, key));
    let ki = key_index(s, key);
    assert(0 <= ki < s.len() && s[ki].key == key);
    if ki < i {
        assert(s[ki].key != s[i].key);
    } else if i < ki {
        assert(s[i].key != s[ki].key);
    }
}

impl ReproEntry {
    /// The average duration of one crashing run; unknown without a crash.
    pub fn avg_crash_ms(&self) -> (r: Option<u64>)
        ensures
            self.crashes == 0 ==> r is None,
            self.crashes > 0 ==> r == Some((self.crash_ms / self.crashes) as u64),
    {
        if self.crashes == 0 {
            None
        } else {
            Some(self.crash_ms / self.crashes)
        }
    }
}

/// One recorded reproduction outcome: the record it ran, how the run ended,
/// and how long it took.
pub ghost struct ReproEvent {
    pub key: u64,
    pub result: WorldGenResult,
    pub elapsed_ms: u64,
}

/// The statistics left after recording a sequence of outcomes, oldest first.
pub open spec fn stats_after(s: Seq<ReproEntry>, evs: Seq<ReproEvent>) -> Seq<ReproEntry>
    decreases evs.len(),
{
    if evs.len() == 0 {
        s
    } else {
        stats_after(record_spec(s, evs[0].key, evs[0].result, evs[0].elapsed_ms), evs.drop_first())
    }
}

/// How many of the outcomes are counted ones (crash or success).
pub open spec fn counted_events(evs: Seq<ReproEvent>) -> int
    decreases evs.len(),
{
    if evs.len() == 0 {
        0
    } else {
        (if is_counted(evs[0].result) {
            1int
        } else {
            0int
        }) + counted_events(evs.drop_first())
    }
}

proof fn lemma_record_total(s: Seq<ReproEntry>, key: u64, result: WorldGenResult, elapsed: u64)
    requires
        total_counted(s) < u64::MAX,
    ensures
        total_counted(record_spec(s, key, result, elapsed)) == total_counted(s) + (
        if is_counted(result) {
            1int
        } else {
            0int
        }),
{
    if is_counted(result) {
        if has_key(s, key) {
            let i = key_index(s, key);
            assert(0 <= i < s.len() && s[i].key == key);
            lemma_counts_le_total(s, i);
            lemma_total_update(s, i, updated_entry(s[i], result, elapsed));
        } else {
            lemma_total_push(s, fresh_entry(key, result, elapsed));
        }
    }
}

proof fn lemma_stats_after_total(s: Seq<ReproEntry>, evs: Seq<ReproEvent>)
    requires
        total_counted(s) + evs.len() <= u64::MAX,
    ensures
        total_counted(stats_after(s, evs)) == total_counted(s) + counted_events(evs),
        0 <= counted_events(evs) <= evs.len(),
    decreases evs.len(),
{
    lemma_total_nonneg(s);
    if evs.len() > 0 {
        let s2 = record_spec(s, evs[0].key, evs[0].result, evs[0].elapsed_ms);
        lemma_record_total(s, evs[0].key, evs[0].result, evs[0].elapsed_ms);
        lemma_stats_after_total(s2, evs.drop_first());
    }
}

/// Law: for a queue built from `k` records each duplicated `num` times, after
/// recording any sequence of outcomes its drain can deliver (one per work
/// item, so at most `k * num` of them) into empty statistics, the crash and
/// success counters across all entries sum to exactly the number of crash or
/// success outcomes among them, and never exceed `k * num`.
pub proof fn lemma_repro_totals(evs: Seq<ReproEvent>, k: nat, num: nat)
    requires
        evs.len() <= k * num,
        k * num <= u64::MAX,
    ensures
        total_counted(stats_after(Seq::empty(), evs)) == counted_events(evs),
        total_counted(stats_after(Seq::empty(), evs)) <= k * num,
{
    assert(total_counted(Seq::<ReproEntry>::empty()) == 0);
    lemma_stats_after_total(Seq::empty(), evs);
}

} // verus!
