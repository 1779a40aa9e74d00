//! A batching coalescer for lookups.
//!
//! Requests for keys that arrive close together are merged into one call of
//! the backend. The coalescer decides; it neither waits nor calls: the
//! caller is told what to do, does it, and reports back.
//!
//! A request is answered in one of three ways. `Direct`: call the backend
//! now, for the request's keys alone. `Scheduled`: the request opened a
//! staging slot; wait until the controller's delay has passed or an early
//! dispatch is signalled, then `take_batch` and call the backend for the
//! batch. `Joined`: the request's keys were added to the open slot; await
//! the result of that batch, after signalling an early dispatch if told so.
//! Every caller then projects the result of the call onto its own keys.

use crate::assoc::{lemma_push_contains, AssocMap, KeySet};
use crate::keys::MapKey;
use crate::model::bump;
use vstd::prelude::*;

verus! {

/// Decides when a coalescer batches and when it dispatches.
pub trait RendezVousController {
    /// Decide whether we should be starting a new batch. This is asked once
    /// per request.
    fn should_batch(&self) -> bool;

    /// If the number of queued keys reaches this threshold, the batch is
    /// dispatched even before the delay has passed.
    fn early_dispatch_threshold(&self) -> usize;
}

/// Counters that a coalescer keeps. Each stops at the largest value it can
/// hold.
#[derive(Clone, Copy, Debug, PartialEq, Eq, Structural)]
pub struct RendezVousStats {
    /// Requests that were dispatched at once, without batching.
    pub dispatch_no_batch: u64,
    /// Batches that were dispatched when their delay had passed.
    pub dispatch_batch_scheduled: u64,
    /// Batches that were dispatched early, because they had grown large.
    pub dispatch_batch_early: u64,
    /// Keys that a request asked for and that were already staged.
    pub keys_deduplicated: u64,
    /// Keys handed to the backend.
    pub keys_dispatched: u64,
    /// Backend calls that were started and have not completed.
    pub inflight: u64,
    /// Time spent in completed backend calls, in milliseconds.
    pub fetch_completion_time_ms: u64,
}

/// `n` plus `d`, stopping at the largest value.
pub open spec fn bump_by(n: u64, d: nat) -> u64 {
    if n + d <= u64::MAX {
        (n + d) as u64
    } else {
        u64::MAX
    }
}

fn bumped(n: u64) -> (r: u64)
    ensures
        r == bump(n),
{
    if n < u64::MAX {
        n + 1
    } else {
        n
    }
}

fn bumped_by(n: u64, d: usize) -> (r: u64)
    ensures
        r == bump_by(n, d as nat),
{
    let d64 = d as u64;
    if d64 <= u64::MAX - n {
        n + d64
    } else {
        u64::MAX
    }
}

/// What a coalescer tells the caller of `dispatch` to do.
pub enum Dispatch<K: MapKey> {
    /// Call the backend now, with these keys.
    Direct(KeySet<K>),
    /// A staging slot was opened with the request's keys. Wait for the delay
    /// or an early signal, then take the batch and call the backend.
    Scheduled,
    /// The request's keys were added to the open slot. If `notify_early`,
    /// signal that the batch should be dispatched now.
    Joined { notify_early: bool },
}

/// The mathematical value of a [`Dispatch`].
pub enum DispatchView<K> {
    Direct(Seq<K>),
    Scheduled,
    Joined { notify_early: bool },
}

impl<K: MapKey> View for Dispatch<K> {
    type V = DispatchView<K::V>;

    open spec fn view(&self) -> DispatchView<K::V> {
        match self {
            Dispatch::Direct(keys) => DispatchView::Direct(keys@),
            Dispatch::Scheduled => DispatchView::Scheduled,
            Dispatch::Joined { notify_early } => DispatchView::Joined {
                notify_early: *notify_early,
            },
        }
    }
}

/// The mathematical value of a coalescer.
pub struct RendezVousView<K> {
    /// The keys staged for the next batch, if a slot is open.
    pub staging: Option<Seq<K>>,
    /// How many staging slots were opened so far.
    pub epochs: nat,
    /// How many batches were taken for dispatch so far.
    pub batches: nat,
    pub stats: RendezVousStats,
}

/// The staged keys after the keys of a request were added: those not yet
/// staged, in the order of the request, go to the end.
pub open spec fn merge_keys<K>(staged: Seq<K>, keys: Seq<K>) -> Seq<K>
    decreases keys.len(),
{
    if keys.len() == 0 {
        staged
    } else {
        let s = merge_keys(staged, keys.drop_last());
        if s.contains(keys.last()) {
            s
        } else {
            s.push(keys.last())
        }
    }
}

/// How many keys of a request were already staged.
pub open spec fn count_staged<K>(staged: Seq<K>, keys: Seq<K>) -> nat
    decreases keys.len(),
{
    if keys.len() == 0 {
        0
    } else {
        let n = count_staged(staged, keys.drop_last());
        if merge_keys(staged, keys.drop_last()).contains(keys.last()) {
            n + 1
        } else {
            n
        }
    }
}

impl<K> RendezVousView<K> {
    /// Every open or taken slot was opened once, and every taken slot was
    /// taken once: the batches taken are the slots opened, less the one
    /// that is still open.
    pub open spec fn inv(self) -> bool {
        self.batches + (if self.staging is Some {
            1nat
        } else {
            0nat
        }) == self.epochs
    }

    /// The request is dispatched at once: batching is off, or the request
    /// alone reaches the threshold.
    pub open spec fn is_direct(keys: Seq<K>, should_batch: bool, threshold: usize) -> bool {
        !(should_batch && keys.len() < threshold)
    }

    /// The coalescer after a request for `keys`, given what the controller
    /// said, and what the caller is told.
    pub open spec fn decide(self, keys: Seq<K>, should_batch: bool, threshold: usize) -> (
        RendezVousView<K>,
        DispatchView<K>,
    ) {
        if Self::is_direct(keys, should_batch, threshold) {
            (
                RendezVousView {
                    stats: RendezVousStats {
                        dispatch_no_batch: bump(self.stats.dispatch_no_batch),
                        keys_dispatched: bump_by(self.stats.keys_dispatched, keys.len()),
                        inflight: bump(self.stats.inflight),
                        ..self.stats
                    },
                    ..self
                },
                DispatchView::Direct(keys),
            )
        } else {
            match self.staging {
                None => (
                    RendezVousView { staging: Some(keys), epochs: self.epochs + 1, ..self },
                    DispatchView::Scheduled,
                ),
                Some(staged) => {
                    let merged = merge_keys(staged, keys);
                    (
                        RendezVousView {
                            staging: Some(merged),
                            stats: RendezVousStats {
                                keys_deduplicated: bump_by(
                                    self.stats.keys_deduplicated,
                                    count_staged(staged, keys),
                                ),
                                ..self.stats
                            },
                            ..self
                        },
                        DispatchView::Joined { notify_early: merged.len() >= threshold },
                    )
                },
            }
        }
    }

    /// The coalescer after the open slot was taken for dispatch.
    pub open spec fn take_batch(self, is_early: bool) -> RendezVousView<K> {
        RendezVousView {
            staging: None,
            batches: self.batches + 1,
            stats: RendezVousStats {
                dispatch_batch_early: if is_early {
                    bump(self.stats.dispatch_batch_early)
                } else {
                    self.stats.dispatch_batch_early
                },
                dispatch_batch_scheduled: if is_early {
                    self.stats.dispatch_batch_scheduled
                } else {
                    bump(self.stats.dispatch_batch_scheduled)
                },
                keys_dispatched: bump_by(self.stats.keys_dispatched, self.staging->0.len()),
                inflight: bump(self.stats.inflight),
                ..self.stats
            },
            ..self
        }
    }

    /// The coalescer after a backend call completed.
    pub open spec fn complete(self, elapsed_ms: u64) -> RendezVousView<K> {
        RendezVousView {
            stats: RendezVousStats {
                inflight: if self.stats.inflight > 0 {
                    (self.stats.inflight - 1) as u64
                } else {
                    0
                },
                fetch_completion_time_ms: bump_by(
                    self.stats.fetch_completion_time_ms,
                    elapsed_ms as nat,
                ),
                ..self.stats
            },
            ..self
        }
    }
}

/// At most one batch is dispatched per staging slot, however many requests
/// joined the slot: a request either leaves the count of slots and batches
/// alone, or opens a slot that no batch was taken from yet.
pub proof fn lemma_decide_inv<K>(
    r: RendezVousView<K>,
    keys: Seq<K>,
    should_batch: bool,
    threshold: usize,
)
    requires
        r.inv(),
    ensures
        r.decide(keys, should_batch, threshold).0.inv(),
        r.decide(keys, should_batch, threshold).0.batches == r.batches,
        r.decide(keys, should_batch, threshold).1 is Joined ==> r.decide(
            keys,
            should_batch,
            threshold,
        ).0.epochs == r.epochs,
{
}

/// Taking the batch of the open slot closes the slot: the next batch can
/// only come from a slot opened later.
pub proof fn lemma_take_batch_inv<K>(r: RendezVousView<K>, is_early: bool)
    requires
        r.inv(),
        r.staging is Some,
    ensures
        r.take_batch(is_early).inv(),
        r.take_batch(is_early).staging is None,
        r.take_batch(is_early).batches == r.batches + 1,
        r.take_batch(is_early).batches == r.epochs,
{
}

/// Merging adds no key twice, keeps what was staged, and stages every key
/// of the request.
pub proof fn lemma_merge_keys<K>(staged: Seq<K>, keys: Seq<K>)
    requires
        staged.no_duplicates(),
    ensures
        merge_keys(staged, keys).no_duplicates(),
        forall|x: K|
            merge_keys(staged, keys).contains(x) <==> (staged.contains(x) || keys.contains(x)),
        merge_keys(staged, keys).len() + count_staged(staged, keys) == staged.len() + keys.len(),
    decreases keys.len(),
{
    if keys.len() > 0 {
        let front = keys.drop_last();
        let last = keys.last();
        lemma_merge_keys(staged, front);
        let s = merge_keys(staged, front);
        lemma_push_contains(s, last);
        assert(keys =~= front.push(last));
        lemma_push_contains(front, last);
        assert forall|x: K|
            merge_keys(staged, keys).contains(x) <==> (staged.contains(x) || keys.contains(
                x,
            )) by {
            assert(s.contains(x) <==> (staged.contains(x) || front.contains(x)));
            assert(front.push(last).contains(x) <==> (x == last || front.contains(x)));
            assert(s.push(last).contains(x) <==> (x == last || s.contains(x)));
        }
        if !s.contains(last) {
            let q = s.push(last);
            assert forall|i: int, j: int|
                0 <= i < q.len() && 0 <= j < q.len() && i != j implies q[i] != q[j] by {
                if i < s.len() {
                    assert(s.contains(s[i]));
                }
                if j < s.len() {
                    assert(s.contains(s[j]));
                }
            }
        }
    }
}

/// A batching coalescer.
pub struct RendezVous<K: MapKey, C: RendezVousController> {
    staging: Option<KeySet<K>>,
    controller: C,
    stats: RendezVousStats,
    epochs: Ghost<nat>,
    batches: Ghost<nat>,
}

impl<K: MapKey, C: RendezVousController> View for RendezVous<K, C> {
    type V = RendezVousView<K::V>;

    closed spec fn view(&self) -> RendezVousView<K::V> {
        RendezVousView {
            staging: match self.staging {
                Some(keys) => Some(keys@),
                None => None,
            },
            epochs: self.epochs@,
            batches: self.batches@,
            stats: self.stats,
        }
    }
}

impl<K: MapKey, C: RendezVousController> RendezVous<K, C> {
    /// A coalescer with no slot open and all counters at zero.
    pub fn new(controller: C) -> (r: Self)
        ensures
            r@ == (RendezVousView::<K::V> {
                staging: None,
                epochs: 0,
                batches: 0,
                stats: RendezVousStats {
                    dispatch_no_batch: 0,
                    dispatch_batch_scheduled: 0,
                    dispatch_batch_early: 0,
                    keys_deduplicated: 0,
                    keys_dispatched: 0,
                    inflight: 0,
                    fetch_completion_time_ms: 0,
                },
            }),
            r@.inv(),
    {
        RendezVous {
            staging: None,
            controller,
            stats: RendezVousStats {
                dispatch_no_batch: 0,
                dispatch_batch_scheduled: 0,
                dispatch_batch_early: 0,
                keys_deduplicated: 0,
                keys_dispatched: 0,
                inflight: 0,
                fetch_completion_time_ms: 0,
            },
            epochs: Ghost(0),
            batches: Ghost(0),
        }
    }

    /// The counters.
    pub fn stats(&self) -> (r: RendezVousStats)
        ensures
            r == self@.stats,
    {
        self.stats
    }

    /// True when a staging slot is open.
    pub fn has_staging(&self) -> (r: bool)
        ensures
            r == self@.staging is Some,
    {
        self.staging.is_some()
    }

    /// Handles a request for `keys`, given what the controller said about
    /// batching and about the threshold for an early dispatch.
    pub fn decide(&mut self, keys: &KeySet<K>, should_batch: bool, threshold: usize) -> (r:
        Dispatch<K>)
        ensures
            (final(self)@, r@) == old(self)@.decide(keys@, should_batch, threshold),
            old(self)@.inv() ==> final(self)@.inv(),
    {
        let n = keys.len();
        if should_batch && n < threshold {
            match self.staging.take() {
                None => {
                    self.staging = Some(keys.duplicate());
                    proof {
                        self.epochs@ = self.epochs@ + 1;
                    }
                    Dispatch::Scheduled
                },
                Some(mut staged_keys) => {
                    let ghost staged = staged_keys@;
                    let mut deduplicated: usize = 0;
                    let mut i: usize = 0;
                    while i < n
                        invariant
                            i <= n,
                            n == keys@.len(),
                            staged_keys@ == merge_keys(staged, keys@.subrange(0, i as int)),
                            deduplicated == count_staged(staged, keys@.subrange(0, i as int)),
                            deduplicated <= i,
                        decreases n - i,
                    {
                        proof {
                            assert(keys@.subrange(0, i + 1).drop_last() =~= keys@.subrange(
                                0,
                                i as int,
                            ));
                            assert(keys@.subrange(0, i + 1).last() == keys@[i as int]);
                        }
                        if !staged_keys.insert(keys.key_at(i).clone_key()) {
                            deduplicated += 1;
                        }
                        i += 1;
                    }
                    proof {
                        assert(keys@.subrange(0, n as int) =~= keys@);
                    }
                    let notify_early = staged_keys.len() >= threshold;
                    self.staging = Some(staged_keys);
                    self.stats.keys_deduplicated = bumped_by(
                        self.stats.keys_deduplicated,
                        deduplicated,
                    );
                    Dispatch::Joined { notify_early }
                },
            }
        } else {
            self.stats.dispatch_no_batch = bumped(self.stats.dispatch_no_batch);
            self.stats.keys_dispatched = bumped_by(self.stats.keys_dispatched, n);
            self.stats.inflight = bumped(self.stats.inflight);
            Dispatch::Direct(keys.duplicate())
        }
    }

    /// Handles a request for `keys`: the controller is asked whether to
    /// batch and for its threshold, and the request is decided by what it
    /// says.
    pub fn dispatch(&mut self, keys: &KeySet<K>) -> (r: Dispatch<K>)
        ensures
            exists|should_batch: bool, threshold: usize|
                (final(self)@, r@) == old(self)@.decide(keys@, should_batch, threshold),
            old(self)@.inv() ==> final(self)@.inv(),
    {
        let should_batch = self.controller.should_batch();
        let threshold = self.controller.early_dispatch_threshold();
        self.decide(keys, should_batch, threshold)
    }

    /// Takes the staged keys out of the open slot, for the one backend call
    /// of this batch. `is_early` says whether the batch is dispatched
    /// because it grew large rather than because its delay has passed.
    pub fn take_batch(&mut self, is_early: bool) -> (r: KeySet<K>)
        requires
            old(self)@.staging is Some,
        ensures
            final(self)@ == old(self)@.take_batch(is_early),
            r@ == old(self)@.staging->0,
            old(self)@.inv() ==> final(self)@.inv(),
    {
        let keys = match self.staging.take() {
            Some(keys) => keys,
            None => KeySet::new(),
        };
        if is_early {
            self.stats.dispatch_batch_early = bumped(self.stats.dispatch_batch_early);
        } else {
            self.stats.dispatch_batch_scheduled = bumped(self.stats.dispatch_batch_scheduled);
        }
        self.stats.keys_dispatched = bumped_by(self.stats.keys_dispatched, keys.len());
        self.stats.inflight = bumped(self.stats.inflight);
        proof {
            self.batches@ = self.batches@ + 1;
        }
        keys
    }

    /// Records that a backend call completed after `elapsed_ms`
    /// milliseconds.
    pub fn complete(&mut self, elapsed_ms: u64)
        ensures
            final(self)@ == old(self)@.complete(elapsed_ms),
            old(self)@.inv() ==> final(self)@.inv(),
    {
        if self.stats.inflight > 0 {
            self.stats.inflight = self.stats.inflight - 1;
        }
        self.stats.fetch_completion_time_ms = if elapsed_ms <= u64::MAX
            - self.stats.fetch_completion_time_ms {
            self.stats.fetch_completion_time_ms + elapsed_ms
        } else {
            u64::MAX
        };
    }
}

/// Projects the result of a backend call onto the keys of one request:
/// each key of the request, in order, with the value the backend returned
/// for it, or with `None` where the backend returned nothing.
pub fn project<'a, K: MapKey, V: View>(keys: &KeySet<K>, result: &'a AssocMap<K, V>) -> (r: Vec<
    (K, Option<&'a V>),
>)
    ensures
        r@.len() == keys@.len(),
        forall|i: int|
            0 <= i < r@.len() ==> (#[trigger] r@[i]).0@ == keys@[i] && match r@[i].1 {
                Some(v) => result@.get(keys@[i]) == Some(v@),
                None => result@.get(keys@[i]) is None,
            },
{
    let mut out: Vec<(K, Option<&'a V>)> = Vec::new();
    let n = keys.len();
    let mut i: usize = 0;
    while i < n
        invariant
            i <= n,
            n == keys@.len(),
            out@.len() == i,
            forall|j: int|
                0 <= j < i ==> (#[trigger] out@[j]).0@ == keys@[j] && match out@[j].1 {
                    Some(v) => result@.get(keys@[j]) == Some(v@),
                    None => result@.get(keys@[j]) is None,
                },
        decreases n - i,
    {
        let k = keys.key_at(i);
        let v = result.get(k);
        out.push((k.clone_key(), v));
        i += 1;
    }
    out
}

} // verus!
