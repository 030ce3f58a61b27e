//! One telemetry reading across all channels.

use vstd::prelude::*;

verus! {

/// Full utilization: ratios are counted in millionths.
pub const RATIO_ONE: u32 = 1_000_000;

/// One monitored stream: the aggregate over all cores, or one core.
#[derive(Clone, Copy, Debug, PartialEq, Eq, Structural)]
pub enum Channel {
    Aggregate,
    Core(usize),
}

/// What a sample holds: the aggregate ratio and one ratio per core.
pub struct SampleView {
    pub aggregate: u32,
    pub cores: Seq<u32>,
}

impl SampleView {
    /// Holds when no ratio exceeds [`RATIO_ONE`].
    pub open spec fn valid(self) -> bool {
        &&& self.aggregate <= RATIO_ONE
        &&& forall|i: int| 0 <= i < self.cores.len() ==> #[trigger] self.cores[i] <= RATIO_ONE
    }

    /// The ratio of `channel`, if the sample has that channel.
    pub open spec fn reading(self, channel: Channel) -> Option<u32> {
        match channel {
            Channel::Aggregate => Some(self.aggregate),
            Channel::Core(i) => if i < self.cores.len() {
                Some(self.cores[i as int])
            } else {
                None
            },
        }
    }
}

/// A ratio saturated to [`RATIO_ONE`].
pub open spec fn capped(ratio: u32) -> u32 {
    if ratio > RATIO_ONE {
        RATIO_ONE
    } else {
        ratio
    }
}

/// A reading of every channel, taken at one moment. It never changes once made.
#[derive(Debug)]
pub struct Sample {
    aggregate: u32,
    cores: Vec<u32>,
}

impl View for Sample {
    type V = SampleView;

    closed spec fn view(&self) -> SampleView {
        SampleView { aggregate: self.aggregate, cores: self.cores@ }
    }
}

impl Sample {
    #[verifier::type_invariant]
    pub(crate) open spec fn consistent(self) -> bool {
        self@.valid()
    }

    /// Makes a sample of the given ratios, in millionths. A ratio above
    /// [`RATIO_ONE`] is saturated to it.
    pub fn new(aggregate: u32, cores: Vec<u32>) -> (s: Sample)
        ensures
            s@.aggregate == capped(aggregate),
            s@.cores.len() == cores@.len(),
            forall|i: int| 0 <= i < cores@.len() ==> #[trigger] s@.cores[i] == capped(cores@[i]),
            s@.valid(),
    {
        let mut kept: Vec<u32> = Vec::new();
        let mut i: usize = 0;
        while i < cores.len()
            invariant
                i <= cores.len(),
                kept@.len() == i,
                forall|j: int| 0 <= j < i ==> #[trigger] kept@[j] == capped(cores@[j]),
            decreases cores.len() - i,
        {
            let ratio: u32 = cores[i];
            kept.push(if ratio > RATIO_ONE { RATIO_ONE } else { ratio });
            i = i + 1;
        }
        Sample { aggregate: if aggregate > RATIO_ONE { RATIO_ONE } else { aggregate }, cores: kept }
    }

    /// The number of per-core channels.
    pub fn channel_count(&self) -> (n: usize)
        ensures
            n == self@.cores.len(),
    {
        self.cores.len()
    }

    /// The aggregate ratio, in millionths.
    pub fn aggregate(&self) -> (ratio: u32)
        ensures
            ratio == self@.aggregate,
            ratio <= RATIO_ONE,
    {
        proof {
            use_type_invariant(self);
        }
        self.aggregate
    }

    /// The ratio of `channel`, in millionths, if the sample has that channel.
    pub fn ratio(&self, channel: Channel) -> (r: Option<u32>)
        ensures
            r == self@.reading(channel),
            r is Some ==> r->0 <= RATIO_ONE,
    {
        proof {
            use_type_invariant(self);
        }
        match channel {
            Channel::Aggregate => Some(self.aggregate),
            Channel::Core(i) => if i < self.cores.len() {
                Some(self.cores[i])
            } else {
                None
            },
        }
    }

    /// The per-core ratios, in millionths, by core index.
    pub fn cores(&self) -> (v: Vec<u32>)
        ensures
            v@ == self@.cores,
    {
        let mut out: Vec<u32> = Vec::new();
        let mut i: usize = 0;
        while i < self.cores.len()
            invariant
                i <= self.cores.len(),
                out@ == self.cores@.subrange(0, i as int),
            decreases self.cores.len() - i,
        {
            out.push(self.cores[i]);
            proof {
                assert(out@ =~= self.cores@.subrange(0, i + 1));
            }
            i = i + 1;
        }
        proof {
            assert(out@ =~= self.cores@);
        }
        out
    }

    /// A copy of this sample.
    pub fn duplicate(&self) -> (s: Sample)
        ensures
            s@ == self@,
    {
        proof {
            use_type_invariant(self);
        }
        Sample { aggregate: self.aggregate, cores: self.cores() }
    }
}

} // verus!
