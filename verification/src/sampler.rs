//! The decisions of the sampler task.
//!
//! The task itself runs elsewhere: it refreshes the telemetry source, sleeps,
//! and reports each event here. This module says what to do next and
//! publishes what a refresh brought.

use crate::sample::Sample;
use crate::store::{SnapshotStore, StoreState};
use vstd::prelude::*;

verus! {

/// The time between two refreshes unless another is asked for, in milliseconds.
pub const DEFAULT_INTERVAL_MS: u64 = 128;

/// What happened to the sampler task.
#[derive(Debug)]
pub enum SamplerEvent {
    /// The task has been started.
    Started,
    /// A refresh of the telemetry source brought this sample.
    Refreshed(Sample),
    /// A refresh of the telemetry source failed.
    RefreshFailed,
    /// The sleep between two refreshes is over.
    Woke,
    /// The process asks the task to end.
    ShutdownRequested,
}

/// What the sampler task does next.
#[derive(Clone, Copy, Debug, PartialEq, Eq, Structural)]
pub enum SamplerAction {
    /// Refresh the telemetry source and report the outcome.
    Refresh,
    /// Sleep for this many milliseconds, then report having woken.
    Sleep(u64),
    /// End the task.
    Stop,
}

/// What a sampler is, mathematically: its interval and whether it has been
/// shut down.
pub struct SamplerState {
    pub interval_ms: u64,
    pub stopped: bool,
}

/// A sampler and its store after an event, and the action the event calls for.
pub struct Outcome {
    pub sampler: SamplerState,
    pub store: StoreState,
    pub action: SamplerAction,
}

impl SamplerState {
    /// How a sampler reacts to `event`.
    ///
    /// Once shut down it stops whatever comes. Otherwise a start or a wake-up
    /// calls for a refresh, a sample is published and followed by a sleep, and
    /// a failed refresh is followed by the same sleep with the store untouched.
    pub open spec fn react(self, store: StoreState, event: SamplerEvent) -> Outcome {
        if self.stopped {
            Outcome { sampler: self, store, action: SamplerAction::Stop }
        } else {
            match event {
                SamplerEvent::Started | SamplerEvent::Woke => Outcome {
                    sampler: self,
                    store,
                    action: SamplerAction::Refresh,
                },
                SamplerEvent::Refreshed(sample) => Outcome {
                    sampler: self,
                    store: store.published(sample@),
                    action: SamplerAction::Sleep(self.interval_ms),
                },
                SamplerEvent::RefreshFailed => Outcome {
                    sampler: self,
                    store,
                    action: SamplerAction::Sleep(self.interval_ms),
                },
                SamplerEvent::ShutdownRequested => Outcome {
                    sampler: SamplerState { stopped: true, ..self },
                    store,
                    action: SamplerAction::Stop,
                },
            }
        }
    }
}

/// A failed refresh changes nothing that a reader can see, and the sampler
/// goes on: it sleeps and will refresh again when woken.
pub proof fn lemma_failed_refresh_keeps_store(sampler: SamplerState, store: StoreState)
    requires
        !sampler.stopped,
    ensures
        sampler.react(store, SamplerEvent::RefreshFailed).store == store,
        sampler.react(store, SamplerEvent::RefreshFailed).sampler == sampler,
        sampler.react(store, SamplerEvent::RefreshFailed).action == SamplerAction::Sleep(
            sampler.interval_ms,
        ),
        sampler.react(store, SamplerEvent::Woke).action == SamplerAction::Refresh,
{
}

/// A sampler that has been shut down stays so, never publishes and never
/// asks for anything but the end of the task.
pub proof fn lemma_stopped_stays_stopped(
    sampler: SamplerState,
    store: StoreState,
    event: SamplerEvent,
)
    requires
        sampler.stopped,
    ensures
        sampler.react(store, event).sampler == sampler,
        sampler.react(store, event).store == store,
        sampler.react(store, event).action == SamplerAction::Stop,
{
}

/// Decides what the sampler task does, event by event.
#[derive(Debug)]
pub struct Sampler {
    interval_ms: u64,
    stopped: bool,
}

impl View for Sampler {
    type V = SamplerState;

    closed spec fn view(&self) -> SamplerState {
        SamplerState { interval_ms: self.interval_ms, stopped: self.stopped }
    }
}

impl Sampler {
    /// A sampler that refreshes every `interval_ms` milliseconds.
    pub fn new(interval_ms: u64) -> (s: Sampler)
        ensures
            s@ == (SamplerState { interval_ms, stopped: false }),
    {
        Sampler { interval_ms, stopped: false }
    }

    /// Takes in one event: publishes to `store` what a refresh brought and
    /// returns the next action.
    pub fn step(&mut self, store: &mut SnapshotStore, event: SamplerEvent) -> (action:
        SamplerAction)
        ensures
            final(self)@ == old(self)@.react(old(store)@, event).sampler,
            final(store)@ == old(self)@.react(old(store)@, event).store,
            action == old(self)@.react(old(store)@, event).action,
    {
        if self.stopped {
            return SamplerAction::Stop;
        }
        match event {
            SamplerEvent::Started | SamplerEvent::Woke => SamplerAction::Refresh,
            SamplerEvent::Refreshed(sample) => {
                store.publish(sample);
                SamplerAction::Sleep(self.interval_ms)
            },
            SamplerEvent::RefreshFailed => SamplerAction::Sleep(self.interval_ms),
            SamplerEvent::ShutdownRequested => {
                self.stopped = true;
                SamplerAction::Stop
            },
        }
    }

    /// The time between two refreshes, in milliseconds.
    pub fn interval_ms(&self) -> (ms: u64)
        ensures
            ms == self@.interval_ms,
    {
        self.interval_ms
    }

    /// Whether the sampler has been shut down.
    pub fn is_stopped(&self) -> (b: bool)
        ensures
            b == self@.stopped,
    {
        self.stopped
    }
}

} // verus!
