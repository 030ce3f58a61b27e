//! The hand-off of the latest sample from one writer to many readers.
//!
//! A reader never waits: while a publish is in flight, or before the first
//! one, a read declines.

use crate::sample::{Sample, SampleView};
use tokio::sync::{Mutex, MutexGuard};
use vstd::prelude::*;

verus! {

/// `tokio::sync::Mutex`, the lock under which a store is shared between
/// tasks. Nothing is known of what it holds.
#[verifier::external_type_specification]
#[verifier::external_body]
#[verifier::reject_recursive_types(T)]
pub struct ExMutex<T: ?Sized>(tokio::sync::Mutex<T>);

/// `tokio::sync::MutexGuard`, which stands for the lock being held.
#[verifier::external_type_specification]
#[verifier::external_body]
#[verifier::reject_recursive_types(T)]
pub struct ExMutexGuard<'a, T: ?Sized>(tokio::sync::MutexGuard<'a, T>);

/// What a store is, mathematically: the latest published sample, if any, and
/// whether a publish is in flight.
pub struct StoreState {
    pub latest: Option<SampleView>,
    pub in_flight: bool,
}

impl StoreState {
    /// The store before the first publish.
    pub open spec fn empty() -> StoreState {
        StoreState { latest: None, in_flight: false }
    }

    /// What a reader gets: the latest sample, unless a publish is in flight.
    pub open spec fn readable(self) -> Option<SampleView> {
        if self.in_flight {
            None
        } else {
            self.latest
        }
    }

    /// The number of per-core channels, fixed by the first publish.
    pub open spec fn channel_count(self) -> Option<nat> {
        match self.latest {
            Some(s) => Some(s.cores.len()),
            None => None,
        }
    }

    /// Holds when `sample` has the channel count this store is fixed to.
    pub open spec fn accepts(self, sample: SampleView) -> bool {
        self.channel_count() is None || self.channel_count() == Some(sample.cores.len())
    }

    /// The store after a publish of `sample` has finished: an accepted sample
    /// replaces the latest one whole, a refused one leaves it in place.
    pub open spec fn published(self, sample: SampleView) -> StoreState {
        StoreState {
            latest: if self.accepts(sample) {
                Some(sample)
            } else {
                self.latest
            },
            in_flight: false,
        }
    }
}

/// A reader that comes after an accepted publish gets exactly the sample
/// that was published, whatever the store held before.
pub proof fn lemma_read_after_publish(store: StoreState, sample: SampleView)
    requires
        store.accepts(sample),
    ensures
        store.published(sample).readable() == Some(sample),
{
}

/// A refused publish leaves the latest sample in place and readable.
pub proof fn lemma_refused_publish_keeps_latest(store: StoreState, sample: SampleView)
    requires
        !store.accepts(sample),
    ensures
        store.published(sample).latest == store.latest,
        store.published(sample).readable() == store.latest,
{
}

/// Once a publish has fixed the channel count, no later publish changes it.
pub proof fn lemma_channel_count_fixed(store: StoreState, sample: SampleView)
    requires
        store.channel_count() is Some,
    ensures
        store.published(sample).channel_count() == store.channel_count(),
{
}

/// Holds the latest sample for one writer and any number of readers.
#[derive(Debug)]
pub struct SnapshotStore {
    latest: Option<Sample>,
    in_flight: bool,
}

impl View for SnapshotStore {
    type V = StoreState;

    closed spec fn view(&self) -> StoreState {
        StoreState {
            latest: match self.latest {
                Some(s) => Some(s@),
                None => None,
            },
            in_flight: self.in_flight,
        }
    }
}

impl SnapshotStore {
    /// A store in which nothing has been published yet.
    pub fn new() -> (s: SnapshotStore)
        ensures
            s@ == StoreState::empty(),
    {
        SnapshotStore { latest: None, in_flight: false }
    }

    /// Marks a publish as in flight, for a writer that hands over its sample
    /// in a later step. Returns `false`, and changes nothing, if a publish is
    /// in flight already: there is one writer at a time.
    pub fn begin_publish(&mut self) -> (begun: bool)
        ensures
            begun == !old(self)@.in_flight,
            final(self)@ == (StoreState { in_flight: true, ..old(self)@ }),
    {
        let begun = !self.in_flight;
        self.in_flight = true;
        begun
    }

    /// Replaces the latest sample by `sample` in one step and ends the publish
    /// in flight, if there is one. A sample whose channel count differs from
    /// that of the first publish is refused, and the latest one stays.
    pub fn publish(&mut self, sample: Sample) -> (accepted: bool)
        ensures
            accepted == old(self)@.accepts(sample@),
            final(self)@ == old(self)@.published(sample@),
    {
        let accepted = match &self.latest {
            Some(held) => held.channel_count() == sample.channel_count(),
            None => true,
        };
        if accepted {
            self.latest = Some(sample);
        }
        self.in_flight = false;
        accepted
    }

    /// The latest published sample, or `None` right away if a publish is in
    /// flight or nothing has been published.
    pub fn try_read(&self) -> (r: Option<&Sample>)
        ensures
            match self@.readable() {
                Some(v) => r is Some && r->0@ == v && v.valid(),
                None => r is None,
            },
    {
        if self.in_flight {
            None
        } else {
            match &self.latest {
                Some(sample) => {
                    proof {
                        use_type_invariant(sample);
                    }
                    Some(sample)
                },
                None => None,
            }
        }
    }

    /// The number of per-core channels, once the first publish has fixed it.
    pub fn channel_count(&self) -> (n: Option<usize>)
        ensures
            match self@.channel_count() {
                Some(c) => n == Some(c as usize) && c <= usize::MAX,
                None => n is None,
            },
    {
        match &self.latest {
            Some(held) => Some(held.channel_count()),
            None => None,
        }
    }
}

/// Calls `tokio::sync::Mutex::try_lock` and returns the guard, or `None` if
/// the lock is held right now. Nothing is claimed of the outcome: it depends
/// on what other tasks are doing.
#[verifier::external_body]
pub(crate) fn try_lock_store(shared: &Mutex<SnapshotStore>) -> (guard: Option<
    MutexGuard<'_, SnapshotStore>,
>) {
    shared.try_lock().ok()
}

/// Dereferences a `tokio::sync::MutexGuard` to the store it guards. Nothing
/// is claimed of what the store holds: other tasks wrote it.
#[verifier::external_body]
pub(crate) fn locked_store<'a>(guard: &'a MutexGuard<'_, SnapshotStore>) -> (store:
    &'a SnapshotStore) {
    &**guard
}

} // verus!
