//! A second-order smoothing filter in fixed-point arithmetic.
//!
//! The filter follows a target the way a damped spring follows its anchor.
//! Time is counted in microseconds, values in caller-chosen units, rates in
//! units per second, and the tuning parameters in thousandths (frequency in
//! millihertz). Value and rate are whole numbers; what a step leaves over of
//! a unit is kept and carried into the next, so that nothing is lost.

use crate::arith::{
    clamp, clamp_i128, floor_sqrt, is_floor_sqrt, isqrt, lemma_floor_sqrt_exists,
    lemma_floor_sqrt_unique, lemma_product_bounded, lemma_quot_bounded, lemma_rest_bounded,
    lemma_square_monotone, quot, quot_i128, rest, rest_i128,
};
use vstd::arithmetic::div_mod::{lemma_div_is_ordered, lemma_div_is_ordered_by_denominator};
use vstd::prelude::*;

verus! {

/// Microseconds in one second.
pub const MICROS_PER_SECOND: i64 = 1_000_000;

/// Largest magnitude a filtered value or a target may take.
pub const VALUE_LIMIT: i64 = 1_000_000_000;

/// Largest magnitude of a rate of change, in units per second.
pub const RATE_LIMIT: i64 = 1_000_000_000_000;

/// Highest natural frequency that can be represented, in millihertz.
pub const MAX_FREQUENCY: i64 = 1_000_000;

/// Highest damping ratio that can be represented, in thousandths.
pub const MAX_DAMPING: i64 = 100_000;

/// Largest magnitude of the anticipation factor, in thousandths.
pub const MAX_ANTICIPATION: i64 = 100_000;

/// Most sub-intervals a single update is ever divided into.
pub const MAX_SUBSTEPS: u64 = 8;

/// The circle constant in billionths, rounded to nearest.
pub const PI_BILLIONTHS: i64 = 3_141_592_654;

/// Largest damping time constant the tuning limits allow, in microseconds.
pub const MAX_DAMPING_TIME: i64 = 31_830_988_614;

/// Largest inertia the tuning limits allow, in square microseconds.
pub const MAX_INERTIA: i64 = 25_330_295_903_969_544;

/// Largest magnitude of the lead time the tuning limits allow, in microseconds.
pub const MAX_LEAD_TIME: i64 = 1_591_549_430_711;

/// No critical step is as long as this many microseconds.
pub const MAX_CRITICAL_STEP: i64 = 320_000_000;

/// Three fixed-point components, such as the Euler angles of an orientation.
#[derive(Clone, Copy, Debug, PartialEq, Eq, Structural)]
pub struct Vector3 {
    pub x: i64,
    pub y: i64,
    pub z: i64,
}

impl Vector3 {
    /// Holds when every component lies in `-limit ..= limit`.
    pub open spec fn within(self, limit: int) -> bool {
        &&& -limit <= self.x <= limit
        &&& -limit <= self.y <= limit
        &&& -limit <= self.z <= limit
    }

    /// The vector with every component saturated to `-limit ..= limit`.
    pub open spec fn saturated(self, limit: int) -> Vector3 {
        Vector3 {
            x: clamp(self.x as int, limit) as i64,
            y: clamp(self.y as int, limit) as i64,
            z: clamp(self.z as int, limit) as i64,
        }
    }

    /// The zero vector.
    pub open spec fn origin() -> Vector3 {
        Vector3 { x: 0, y: 0, z: 0 }
    }

    pub fn new(x: i64, y: i64, z: i64) -> (v: Vector3)
        ensures
            v == (Vector3 { x, y, z }),
    {
        Vector3 { x, y, z }
    }

    pub fn zero() -> (v: Vector3)
        ensures
            v == Vector3::origin(),
    {
        Vector3 { x: 0, y: 0, z: 0 }
    }

    /// Saturates every component to `-limit ..= limit`.
    pub fn saturate(self, limit: i64) -> (v: Vector3)
        requires
            limit >= 0,
        ensures
            v == self.saturated(limit as int),
            v.within(limit as int),
    {
        Vector3 {
            x: clamp_i128(self.x as i128, limit),
            y: clamp_i128(self.y as i128, limit),
            z: clamp_i128(self.z as i128, limit),
        }
    }

    /// Tells whether every component lies in `-limit ..= limit`.
    pub fn is_within(&self, limit: i64) -> (b: bool)
        requires
            limit >= 0,
        ensures
            b == self.within(limit as int),
    {
        -limit <= self.x && self.x <= limit && -limit <= self.y && self.y <= limit && -limit
            <= self.z && self.z <= limit
    }
}

/// Why a tuning cannot be used.
#[derive(Clone, Copy, Debug, PartialEq, Eq, Structural)]
pub enum FilterError {
    /// The natural frequency is zero or negative.
    NonPositiveFrequency,
    /// The damping ratio is negative.
    NegativeDamping,
    /// A parameter or an initial value exceeds what the fixed-point format holds.
    OutOfRange,
    /// The stable step of the integration is shorter than one microsecond.
    TooStiff,
}

/// The coefficients of the integration, derived once from a [`Tuning`].
#[derive(Clone, Copy, Debug, PartialEq, Eq, Structural)]
pub struct Coefficients {
    /// Damping time constant `z / (pi f)`, in microseconds.
    pub damping_time: i64,
    /// Inertia `1 / (2 pi f)^2`, in square microseconds.
    pub inertia: i64,
    /// Lead time `r z / (2 pi f)`, in microseconds.
    pub lead_time: i64,
    /// Longest sub-interval that the integration takes in one piece, in microseconds.
    pub critical_step: i64,
}

impl Coefficients {
    /// The ranges in which the integration is free of overflow.
    pub open spec fn sound(self) -> bool {
        &&& 0 <= self.damping_time <= MAX_DAMPING_TIME
        &&& 1 <= self.inertia <= MAX_INERTIA
        &&& -MAX_LEAD_TIME <= self.lead_time <= MAX_LEAD_TIME
        &&& 1 <= self.critical_step <= MAX_CRITICAL_STEP
    }
}

/// The three tuning parameters of a filter.
#[derive(Clone, Copy, Debug, PartialEq, Eq, Structural)]
pub struct Tuning {
    /// Natural frequency `f`, in millihertz.
    pub frequency: i64,
    /// Damping ratio `z`, in thousandths.
    pub damping: i64,
    /// Anticipation factor `r`, in thousandths.
    pub anticipation: i64,
}

impl Tuning {
    /// Holds when each parameter lies in the range the fixed-point format holds.
    pub open spec fn in_range(self) -> bool {
        &&& 0 < self.frequency <= MAX_FREQUENCY
        &&& 0 <= self.damping <= MAX_DAMPING
        &&& -MAX_ANTICIPATION <= self.anticipation <= MAX_ANTICIPATION
    }

    /// `z / (pi f)` in microseconds, rounded down.
    pub open spec fn damping_time(self) -> int {
        (1_000_000_000_000_000 * self.damping) / (PI_BILLIONTHS * self.frequency)
    }

    /// `1 / (2 pi f)^2` in square microseconds, rounded down.
    pub open spec fn inertia(self) -> int {
        1_000_000_000_000_000_000_000_000_000_000_000_000int / ((2 * PI_BILLIONTHS
            * self.frequency) * (2 * PI_BILLIONTHS * self.frequency))
    }

    /// `r z / (2 pi f)` in microseconds, rounded toward zero.
    pub open spec fn lead_time(self) -> int {
        quot(
            1_000_000_000_000 * (self.anticipation * self.damping),
            2 * PI_BILLIONTHS * self.frequency,
        )
    }

    /// Four fifths of the step `sqrt(4 k2 + k1^2) - k1` beyond which the
    /// integration is unstable, in microseconds.
    pub open spec fn critical_step(self) -> int {
        (floor_sqrt(4 * self.inertia() + self.damping_time() * self.damping_time())
            - self.damping_time()) * 4 / 5
    }

    /// The coefficients that this tuning stands for.
    pub open spec fn coefficients(self) -> Coefficients {
        Coefficients {
            damping_time: self.damping_time() as i64,
            inertia: self.inertia() as i64,
            lead_time: self.lead_time() as i64,
            critical_step: self.critical_step() as i64,
        }
    }

    /// The reason for which this tuning is refused, if it is.
    pub open spec fn fault(self) -> Option<FilterError> {
        if self.frequency <= 0 {
            Some(FilterError::NonPositiveFrequency)
        } else if self.damping < 0 {
            Some(FilterError::NegativeDamping)
        } else if !self.in_range() {
            Some(FilterError::OutOfRange)
        } else if self.critical_step() < 1 {
            Some(FilterError::TooStiff)
        } else {
            None
        }
    }

    pub fn new(frequency: i64, damping: i64, anticipation: i64) -> (t: Tuning)
        ensures
            t == (Tuning { frequency, damping, anticipation }),
    {
        Tuning { frequency, damping, anticipation }
    }

    /// Derives the coefficients, or says why the tuning is refused.
    pub fn derive(&self) -> (r: Result<Coefficients, FilterError>)
        ensures
            match self.fault() {
                Some(e) => r == Err::<Coefficients, FilterError>(e),
                None => r == Ok::<Coefficients, FilterError>(self.coefficients()),
            },
            r is Ok ==> r->Ok_0.sound(),
    {
        if self.frequency <= 0 {
            return Err(FilterError::NonPositiveFrequency);
        }
        if self.damping < 0 {
            return Err(FilterError::NegativeDamping);
        }
        if self.frequency > MAX_FREQUENCY || self.damping > MAX_DAMPING || self.anticipation
            > MAX_ANTICIPATION || self.anticipation < -MAX_ANTICIPATION {
            return Err(FilterError::OutOfRange);
        }
        let f: i128 = self.frequency as i128;
        let z: i128 = self.damping as i128;
        let r: i128 = self.anticipation as i128;
        let half_turn: i128 = PI_BILLIONTHS as i128 * f;
        let turn: i128 = 2 * half_turn;
        proof {
            lemma_gains_bounded(*self);
            assert(6_283_185_308 <= turn <= 6_283_185_308_000_000) by (nonlinear_arith)
                requires
                    1 <= f <= MAX_FREQUENCY,
                    turn == 2 * (PI_BILLIONTHS * f),
            ;
            lemma_square_monotone(6_283_185_308, turn as int);
            lemma_square_monotone(turn as int, 6_283_185_308_000_000);
            lemma_product_bounded(
                r as int,
                z as int,
                MAX_ANTICIPATION as int,
                MAX_DAMPING as int,
            );
            assert(r * z == self.anticipation * self.damping);
            assert(turn == 2 * PI_BILLIONTHS * self.frequency);
        }
        let k1: i128 = (1_000_000_000_000_000 * z) / half_turn;
        let k2: i128 = 1_000_000_000_000_000_000_000_000_000_000_000_000 / (turn * turn);
        let k3: i128 = quot_i128(1_000_000_000_000 * (r * z), turn);
        proof {
            assert(k1 == self.damping_time());
            assert(k2 == self.inertia());
            assert(k3 == self.lead_time());
        }
        let root: u128 = isqrt((4 * k2 + k1 * k1) as u128);
        let step: i128 = (root as i128 - k1) * 4 / 5;
        if step < 1 {
            return Err(FilterError::TooStiff);
        }
        Ok(
            Coefficients {
                damping_time: k1 as i64,
                inertia: k2 as i64,
                lead_time: k3 as i64,
                critical_step: step as i64,
            },
        )
    }
}

/// The rate at which the target moved since the previous update, in units
/// per second, saturated to the rate limit.
pub open spec fn input_rate(target: int, previous: int, dt: int) -> int
    recommends
        dt > 0,
{
    clamp(quot((target - previous) * MICROS_PER_SECOND, dt), RATE_LIMIT as int)
}

/// Into how many sub-intervals an update over `dt` microseconds is divided:
/// as many as keep each within the critical step, but never more than
/// [`MAX_SUBSTEPS`].
pub open spec fn substep_count(dt: int, critical: int) -> int
    recommends
        dt > 0,
        critical > 0,
{
    let wanted = if dt % critical == 0 {
        dt / critical
    } else {
        dt / critical + 1
    };
    if wanted > MAX_SUBSTEPS {
        MAX_SUBSTEPS as int
    } else {
        wanted
    }
}

/// The length of each sub-interval: an equal share of `dt`, cut down to the
/// critical step where the number of sub-intervals was capped.
pub open spec fn substep_length(dt: int, critical: int) -> int
    recommends
        dt > 0,
        critical > 0,
{
    let share = dt / substep_count(dt, critical);
    if share > critical {
        critical
    } else {
        share
    }
}

/// One component of a filter: its value and rate, and what is left over of
/// a unit of each, carried from one sub-interval into the next.
pub struct Axis {
    /// The value, in units.
    pub value: int,
    /// The rate of change, in units per second.
    pub rate: int,
    /// What the value has yet to move, in millionths of a unit.
    pub value_rest: int,
    /// What the rate has yet to gain, in units per second times the inertia.
    pub rate_rest: int,
}

impl Axis {
    /// Holds when value and rate lie within their limits and what is left
    /// over is less than a unit.
    pub open spec fn bounded(self, c: Coefficients) -> bool {
        &&& -VALUE_LIMIT <= self.value <= VALUE_LIMIT
        &&& -RATE_LIMIT <= self.rate <= RATE_LIMIT
        &&& -MICROS_PER_SECOND < self.value_rest < MICROS_PER_SECOND
        &&& -c.inertia < self.rate_rest < c.inertia
    }

    /// The component after moving at its rate for `h` microseconds: the
    /// whole units moved are added to the value, the rest is kept.
    pub open spec fn moved(self, h: int) -> Axis {
        let travel = h * self.rate + self.value_rest;
        Axis {
            value: clamp(
                self.value + quot(travel, MICROS_PER_SECOND as int),
                VALUE_LIMIT as int,
            ),
            value_rest: rest(travel, MICROS_PER_SECOND as int),
            ..self
        }
    }

    /// The component, already moved, after the spring has pulled it toward
    /// `target` for `h` microseconds: the whole units gained are added to the
    /// rate, the rest is kept.
    pub open spec fn pulled(self, c: Coefficients, target: int, approach: int, h: int) -> Axis {
        let push = h * (MICROS_PER_SECOND * (target - self.value) + c.lead_time * approach
            - c.damping_time * self.rate) + self.rate_rest;
        Axis {
            rate: clamp(self.rate + quot(push, c.inertia as int), RATE_LIMIT as int),
            rate_rest: rest(push, c.inertia as int),
            ..self
        }
    }

    /// The component after one sub-interval of `h` microseconds.
    pub open spec fn stepped(self, c: Coefficients, target: int, approach: int, h: int) -> Axis {
        self.moved(h).pulled(c, target, approach, h)
    }

    /// The component after `n` sub-intervals of `h` microseconds.
    pub open spec fn after(
        self,
        c: Coefficients,
        target: int,
        approach: int,
        h: int,
        n: nat,
    ) -> Axis
        decreases n,
    {
        if n == 0 {
            self
        } else {
            self.after(c, target, approach, h, (n - 1) as nat).stepped(c, target, approach, h)
        }
    }

    /// The component after an update over `dt` microseconds toward `target`,
    /// `previous` being the target of the update before.
    pub open spec fn updated(self, c: Coefficients, previous: int, target: int, dt: int) -> Axis {
        self.after(
            c,
            target,
            input_rate(target, previous, dt),
            substep_length(dt, c.critical_step as int),
            substep_count(dt, c.critical_step as int) as nat,
        )
    }
}

/// One update of a filter: the time elapsed, in microseconds, and the target.
#[derive(Clone, Copy, Debug, PartialEq, Eq, Structural)]
pub struct Frame {
    pub dt: u64,
    pub target: Vector3,
}

/// What a filter is, mathematically: its tuning, its current value and rate
/// of change, the target it saw last, and what is left over of a unit of
/// value and of rate.
pub struct FilterState {
    pub tuning: Tuning,
    pub value: Vector3,
    pub rate: Vector3,
    pub input: Vector3,
    pub value_rest: Vector3,
    pub rate_rest: Vector3,
}

impl FilterState {
    /// The first component.
    pub open spec fn x(self) -> Axis {
        Axis {
            value: self.value.x as int,
            rate: self.rate.x as int,
            value_rest: self.value_rest.x as int,
            rate_rest: self.rate_rest.x as int,
        }
    }

    /// The second component.
    pub open spec fn y(self) -> Axis {
        Axis {
            value: self.value.y as int,
            rate: self.rate.y as int,
            value_rest: self.value_rest.y as int,
            rate_rest: self.rate_rest.y as int,
        }
    }

    /// The third component.
    pub open spec fn z(self) -> Axis {
        Axis {
            value: self.value.z as int,
            rate: self.rate.z as int,
            value_rest: self.value_rest.z as int,
            rate_rest: self.rate_rest.z as int,
        }
    }

    /// The state with the given tuning, components and last target.
    pub open spec fn of(tuning: Tuning, x: Axis, y: Axis, z: Axis, input: Vector3) -> FilterState {
        FilterState {
            tuning,
            value: Vector3 { x: x.value as i64, y: y.value as i64, z: z.value as i64 },
            rate: Vector3 { x: x.rate as i64, y: y.rate as i64, z: z.rate as i64 },
            input,
            value_rest: Vector3 {
                x: x.value_rest as i64,
                y: y.value_rest as i64,
                z: z.value_rest as i64,
            },
            rate_rest: Vector3 {
                x: x.rate_rest as i64,
                y: y.rate_rest as i64,
                z: z.rate_rest as i64,
            },
        }
    }

    /// Holds when the tuning is accepted and the state lies within the limits.
    pub open spec fn valid(self) -> bool {
        &&& self.tuning.fault() is None
        &&& self.x().bounded(self.tuning.coefficients())
        &&& self.y().bounded(self.tuning.coefficients())
        &&& self.z().bounded(self.tuning.coefficients())
        &&& self.input.within(VALUE_LIMIT as int)
    }

    /// The state at rest on `initial`, with nothing left over.
    pub open spec fn resting(tuning: Tuning, initial: Vector3) -> FilterState {
        FilterState {
            tuning,
            value: initial,
            rate: Vector3::origin(),
            input: initial,
            value_rest: Vector3::origin(),
            rate_rest: Vector3::origin(),
        }
    }

    /// The state with another tuning: value, rate and last target stay, and
    /// so does what is left over of the value; what is left over of the rate
    /// is dropped, because it is counted in the inertia of the tuning.
    pub open spec fn retuned(self, tuning: Tuning) -> FilterState {
        FilterState { tuning, rate_rest: Vector3::origin(), ..self }
    }

    /// The state after one update over `dt` microseconds toward `target`.
    pub open spec fn after(self, dt: int, target: Vector3) -> FilterState
        recommends
            dt > 0,
    {
        let c = self.tuning.coefficients();
        let aim = target.saturated(VALUE_LIMIT as int);
        FilterState::of(
            self.tuning,
            self.x().updated(c, self.input.x as int, aim.x as int, dt),
            self.y().updated(c, self.input.y as int, aim.y as int, dt),
            self.z().updated(c, self.input.z as int, aim.z as int, dt),
            aim,
        )
    }

    /// The state after the updates of `frames`, in their order.
    pub open spec fn after_all(self, frames: Seq<Frame>) -> FilterState
        decreases frames.len(),
    {
        if frames.len() == 0 {
            self
        } else {
            self.after_all(frames.drop_last()).after(
                frames.last().dt as int,
                frames.last().target,
            )
        }
    }
}

/// A second-order filter over three components.
///
/// The coefficients are derived when the filter is made or retuned, never
/// during an update.
#[derive(Clone, Copy, Debug)]
pub struct Filter {
    tuning: Tuning,
    gains: Coefficients,
    value: Vector3,
    rate: Vector3,
    input: Vector3,
    value_rest: Vector3,
    rate_rest: Vector3,
}

impl View for Filter {
    type V = FilterState;

    closed spec fn view(&self) -> FilterState {
        FilterState {
            tuning: self.tuning,
            value: self.value,
            rate: self.rate,
            input: self.input,
            value_rest: self.value_rest,
            rate_rest: self.rate_rest,
        }
    }
}

impl Filter {
    #[verifier::type_invariant]
    closed spec fn consistent(self) -> bool {
        &&& self@.valid()
        &&& self.gains == self.tuning.coefficients()
        &&& self.gains.sound()
    }

    /// The reason for which a filter cannot be made, if there is one: the
    /// fault of the tuning, or an initial value beyond [`VALUE_LIMIT`].
    pub open spec fn fault(tuning: Tuning, initial: Vector3) -> Option<FilterError> {
        if tuning.fault() is Some {
            tuning.fault()
        } else if !initial.within(VALUE_LIMIT as int) {
            Some(FilterError::OutOfRange)
        } else {
            None
        }
    }

    /// Makes a filter at rest on `initial`, or refuses the parameters.
    ///
    /// Value and rate are whole numbers of units, but what each sub-interval
    /// leaves over of a unit is carried into the next. So a slow tuning moves
    /// as surely as a fast one, only later, and a filter comes to rest
    /// nowhere but on its target ([`lemma_rest_is_on_target`]).
    pub fn new(frequency: i64, damping: i64, anticipation: i64, initial: Vector3) -> (r: Result<
        Filter,
        FilterError,
    >)
        ensures
            match Filter::fault(Tuning { frequency, damping, anticipation }, initial) {
                Some(e) => r is Err && r->Err_0 == e,
                None => r is Ok && r->Ok_0@ == FilterState::resting(
                    Tuning { frequency, damping, anticipation },
                    initial,
                ) && r->Ok_0@.valid(),
            },
    {
        let tuning = Tuning { frequency, damping, anticipation };
        match tuning.derive() {
            Err(e) => Err(e),
            Ok(gains) => {
                if !initial.is_within(VALUE_LIMIT) {
                    return Err(FilterError::OutOfRange);
                }
                Ok(
                    Filter {
                        tuning,
                        gains,
                        value: initial,
                        rate: Vector3::zero(),
                        input: initial,
                        value_rest: Vector3::zero(),
                        rate_rest: Vector3::zero(),
                    },
                )
            },
        }
    }

    /// Replaces the tuning and derives the coefficients anew. A refused tuning
    /// leaves the filter as it was.
    pub fn retune(&mut self, frequency: i64, damping: i64, anticipation: i64) -> (r: Result<
        (),
        FilterError,
    >)
        ensures
            match (Tuning { frequency, damping, anticipation }).fault() {
                Some(e) => r is Err && r->Err_0 == e && final(self)@ == old(self)@,
                None => r is Ok && final(self)@ == old(self)@.retuned(
                    Tuning { frequency, damping, anticipation },
                ),
            },
            final(self)@.valid(),
    {
        proof {
            use_type_invariant(&*self);
        }
        let tuning = Tuning { frequency, damping, anticipation };
        match tuning.derive() {
            Err(e) => Err(e),
            Ok(gains) => {
                *self = Filter {
                    tuning,
                    gains,
                    value: self.value,
                    rate: self.rate,
                    input: self.input,
                    value_rest: self.value_rest,
                    rate_rest: Vector3::zero(),
                };
                Ok(())
            },
        }
    }

    /// Advances the filter by `dt` microseconds toward `target` and returns
    /// the new value. A target beyond [`VALUE_LIMIT`] is saturated to it.
    pub fn update(&mut self, dt: u64, target: Vector3) -> (value: Vector3)
        requires
            dt > 0,
        ensures
            final(self)@ == old(self)@.after(dt as int, target),
            final(self)@.tuning == old(self)@.tuning,
            value == final(self)@.value,
            final(self)@.valid(),
    {
        proof {
            use_type_invariant(&*self);
        }
        let aim = target.saturate(VALUE_LIMIT);
        let (count, length) = plan_substeps(dt, self.gains.critical_step);
        let x = update_axis(
            &self.gains,
            (self.value.x, self.rate.x, self.value_rest.x, self.rate_rest.x),
            self.input.x,
            aim.x,
            dt,
            count,
            length,
        );
        let y = update_axis(
            &self.gains,
            (self.value.y, self.rate.y, self.value_rest.y, self.rate_rest.y),
            self.input.y,
            aim.y,
            dt,
            count,
            length,
        );
        let z = update_axis(
            &self.gains,
            (self.value.z, self.rate.z, self.value_rest.z, self.rate_rest.z),
            self.input.z,
            aim.z,
            dt,
            count,
            length,
        );
        *self = Filter {
            tuning: self.tuning,
            gains: self.gains,
            value: Vector3 { x: x.0, y: y.0, z: z.0 },
            rate: Vector3 { x: x.1, y: y.1, z: z.1 },
            input: aim,
            value_rest: Vector3 { x: x.2, y: y.2, z: z.2 },
            rate_rest: Vector3 { x: x.3, y: y.3, z: z.3 },
        };
        self.value
    }

    /// The current smoothed value.
    pub fn value(&self) -> (v: Vector3)
        ensures
            v == self@.value,
            v.within(VALUE_LIMIT as int),
    {
        proof {
            use_type_invariant(self);
        }
        self.value
    }

    /// The current rate of change, in units per second.
    pub fn velocity(&self) -> (v: Vector3)
        ensures
            v == self@.rate,
            v.within(RATE_LIMIT as int),
    {
        proof {
            use_type_invariant(self);
        }
        self.rate
    }

    /// The tuning in force.
    pub fn tuning(&self) -> (t: Tuning)
        ensures
            t == self@.tuning,
            t.fault() is None,
    {
        proof {
            use_type_invariant(self);
        }
        self.tuning
    }

    /// The coefficients in force.
    pub fn coefficients(&self) -> (c: Coefficients)
        ensures
            c == self@.tuning.coefficients(),
            c.sound(),
    {
        proof {
            use_type_invariant(self);
        }
        self.gains
    }
}


/// Divides an update over `dt` microseconds into sub-intervals: returns how
/// many there are and how long each is.
pub fn plan_substeps(dt: u64, critical: i64) -> (plan: (u64, i64))
    requires
        dt > 0,
        critical > 0,
    ensures
        plan.0 == substep_count(dt as int, critical as int),
        plan.1 == substep_length(dt as int, critical as int),
        1 <= plan.0 <= MAX_SUBSTEPS,
        1 <= plan.1 <= critical,
        plan.0 * plan.1 <= dt,
{
    proof {
        lemma_substeps_bounded(dt as int, critical as int);
    }
    let step: u64 = critical as u64;
    let whole: u64 = dt / step;
    let count: u64 = if whole >= MAX_SUBSTEPS {
        MAX_SUBSTEPS
    } else if dt % step == 0 {
        whole
    } else {
        whole + 1
    };
    let share: u64 = dt / count;
    let length: i64 = if share > step {
        critical
    } else {
        share as i64
    };
    (count, length)
}

/// The component that four machine numbers stand for.
pub open spec fn axis_of(parts: (i64, i64, i64, i64)) -> Axis {
    Axis {
        value: parts.0 as int,
        rate: parts.1 as int,
        value_rest: parts.2 as int,
        rate_rest: parts.3 as int,
    }
}

/// Advances one component by `count` sub-intervals of `length` microseconds.
fn update_axis(
    c: &Coefficients,
    parts: (i64, i64, i64, i64),
    previous: i64,
    target: i64,
    dt: u64,
    count: u64,
    length: i64,
) -> (r: (i64, i64, i64, i64))
    requires
        c.sound(),
        axis_of(parts).bounded(*c),
        -VALUE_LIMIT <= previous <= VALUE_LIMIT,
        -VALUE_LIMIT <= target <= VALUE_LIMIT,
        dt > 0,
        count == substep_count(dt as int, c.critical_step as int),
        length == substep_length(dt as int, c.critical_step as int),
        1 <= length <= c.critical_step,
    ensures
        axis_of(r) == axis_of(parts).updated(*c, previous as int, target as int, dt as int),
        axis_of(r).bounded(*c),
{
    let spread: i128 = target as i128 - previous as i128;
    proof {
        lemma_product_bounded(
            spread as int,
            MICROS_PER_SECOND as int,
            2 * VALUE_LIMIT as int,
            MICROS_PER_SECOND as int,
        );
    }
    let approach: i64 = clamp_i128(
        quot_i128(spread * (MICROS_PER_SECOND as i128), dt as i128),
        RATE_LIMIT,
    );
    let h: i128 = length as i128;
    let mut y: i64 = parts.0;
    let mut yd: i64 = parts.1;
    let mut ry: i64 = parts.2;
    let mut rd: i64 = parts.3;
    let mut i: u64 = 0;
    while i < count
        invariant
            i <= count,
            c.sound(),
            1 <= h <= c.critical_step,
            h == length,
            axis_of((y, yd, ry, rd)).bounded(*c),
            -VALUE_LIMIT <= target <= VALUE_LIMIT,
            -RATE_LIMIT <= approach <= RATE_LIMIT,
            axis_of((y, yd, ry, rd)) == axis_of(parts).after(
                *c,
                target as int,
                approach as int,
                length as int,
                i as nat,
            ),
        decreases count - i,
    {
        proof {
            lemma_product_bounded(h as int, yd as int, MAX_CRITICAL_STEP as int, RATE_LIMIT as int);
            lemma_quot_bounded(h * yd + ry, MICROS_PER_SECOND as int);
        }
        let travel: i128 = h * (yd as i128) + ry as i128;
        let moved: i64 = clamp_i128(
            y as i128 + quot_i128(travel, MICROS_PER_SECOND as i128),
            VALUE_LIMIT,
        );
        let left: i64 = rest_i128(travel, MICROS_PER_SECOND as i128) as i64;
        proof {
            lemma_product_bounded(
                c.lead_time as int,
                approach as int,
                MAX_LEAD_TIME as int,
                RATE_LIMIT as int,
            );
            lemma_product_bounded(
                c.damping_time as int,
                yd as int,
                MAX_DAMPING_TIME as int,
                RATE_LIMIT as int,
            );
        }
        let pull: i128 = (MICROS_PER_SECOND as i128) * (target as i128 - moved as i128) + (
        c.lead_time as i128) * (approach as i128) - (c.damping_time as i128) * (yd as i128);
        proof {
            lemma_product_bounded(
                h as int,
                pull as int,
                MAX_CRITICAL_STEP as int,
                2 * VALUE_LIMIT * MICROS_PER_SECOND + MAX_LEAD_TIME * RATE_LIMIT
                    + MAX_DAMPING_TIME * RATE_LIMIT,
            );
            lemma_quot_bounded(h * pull + rd, c.inertia as int);
        }
        let push: i128 = h * pull + rd as i128;
        let gained: i64 = clamp_i128(yd as i128 + quot_i128(push, c.inertia as i128), RATE_LIMIT);
        let owed: i64 = rest_i128(push, c.inertia as i128) as i64;
        y = moved;
        yd = gained;
        ry = left;
        rd = owed;
        i = i + 1;
    }
    (y, yd, ry, rd)
}

/// Sub-intervals are between one and [`MAX_SUBSTEPS`] in number, each between one
/// microsecond and the critical step long, and together they never span more
/// than the elapsed time.
pub proof fn lemma_substeps_bounded(dt: int, critical: int)
    requires
        dt >= 1,
        critical >= 1,
    ensures
        1 <= substep_count(dt, critical) <= MAX_SUBSTEPS,
        1 <= substep_length(dt, critical) <= critical,
        substep_count(dt, critical) * substep_length(dt, critical) <= dt,
        dt <= MAX_SUBSTEPS * critical ==> dt - substep_count(dt, critical) < substep_count(
            dt,
            critical,
        ) * substep_length(dt, critical),
{
    let n = substep_count(dt, critical);
    let h = substep_length(dt, critical);
    assert(0 <= dt / critical <= dt && (dt % critical != 0 ==> dt / critical < dt) && (dt
        % critical == 0 ==> dt / critical >= 1)) by (nonlinear_arith)
        requires
            dt >= 1,
            critical >= 1,
    ;
    assert(1 <= n <= dt && n <= MAX_SUBSTEPS);
    assert(dt / n >= 1 && n * (dt / n) <= dt) by (nonlinear_arith)
        requires
            1 <= n <= dt,
    ;
    assert(n * h <= n * (dt / n)) by (nonlinear_arith)
        requires
            n >= 1,
            h <= dt / n,
    ;
    if dt <= MAX_SUBSTEPS * critical {
        let wanted = if dt % critical == 0 {
            dt / critical
        } else {
            dt / critical + 1
        };
        assert(dt <= wanted * critical && wanted <= 8) by (nonlinear_arith)
            requires
                1 <= dt <= 8 * critical,
                critical >= 1,
                wanted == dt / critical + (if dt % critical == 0 {
                    0int
                } else {
                    1int
                }),
        ;
        assert(dt / n <= critical && dt - n < n * (dt / n)) by (nonlinear_arith)
            requires
                1 <= n,
                dt <= n * critical,
        ;
    }
}

/// A component within the limits stays within them, however many
/// sub-intervals pass.
pub proof fn lemma_axis_stays_bounded(
    a: Axis,
    c: Coefficients,
    target: int,
    approach: int,
    h: int,
    n: nat,
)
    requires
        c.inertia >= 1,
        a.bounded(c),
    ensures
        a.after(c, target, approach, h, n).bounded(c),
    decreases n,
{
    if n > 0 {
        lemma_axis_stays_bounded(a, c, target, approach, h, (n - 1) as nat);
        let before = a.after(c, target, approach, h, (n - 1) as nat);
        lemma_rest_bounded(h * before.rate + before.value_rest, MICROS_PER_SECOND as int);
        let moved = before.moved(h);
        lemma_rest_bounded(
            h * (MICROS_PER_SECOND * (target - moved.value) + c.lead_time * approach
                - c.damping_time * moved.rate) + moved.rate_rest,
            c.inertia as int,
        );
    }
}

/// Nothing is lost in a sub-interval. Counted in millionths of a unit, the
/// value changes by exactly `h` times the rate; counted in units per second
/// times the inertia, the rate changes by exactly `h` times the pull of
/// the spring. Only a value or a rate that ends on its limit may have lost
/// what went beyond it. So a pull, however weak, moves the filter in the end.
pub proof fn lemma_step_loses_nothing(a: Axis, c: Coefficients, target: int, approach: int, h: int)
    requires
        c.inertia >= 1,
        a.bounded(c),
    ensures
        ({
            let b = a.stepped(c, target, approach, h);
            &&& -VALUE_LIMIT < b.value < VALUE_LIMIT ==> b.value * MICROS_PER_SECOND
                + b.value_rest == a.value * MICROS_PER_SECOND + a.value_rest + h * a.rate
            &&& -RATE_LIMIT < b.rate < RATE_LIMIT ==> b.rate * c.inertia + b.rate_rest == a.rate
                * c.inertia + a.rate_rest + h * (MICROS_PER_SECOND * (target - b.value)
                + c.lead_time * approach - c.damping_time * a.rate)
        }),
{
    let m = MICROS_PER_SECOND as int;
    let k2 = c.inertia as int;
    let travel = h * a.rate + a.value_rest;
    let moved = a.moved(h);
    let push = h * (m * (target - moved.value) + c.lead_time * approach - c.damping_time
        * moved.rate) + moved.rate_rest;
    let b = a.stepped(c, target, approach, h);
    assert((a.value + quot(travel, m)) * m + rest(travel, m) == a.value * m + travel)
        by (nonlinear_arith);
    assert((a.rate + quot(push, k2)) * k2 + rest(push, k2) == a.rate * k2 + push)
        by (nonlinear_arith);
}

/// A component at rest on its target stays as it is, whatever is left over.
pub proof fn lemma_axis_rest(a: Axis, c: Coefficients, h: int, n: nat)
    requires
        c.inertia >= 1,
        a.bounded(c),
        a.rate == 0,
    ensures
        a.after(c, a.value, 0, h, n) == a,
    decreases n,
{
    if n > 0 {
        lemma_axis_rest(a, c, h, (n - 1) as nat);
        assert(h * 0 == 0);
        assert(c.lead_time * 0 == 0);
        assert(c.damping_time * 0 == 0);
        assert(MICROS_PER_SECOND * (a.value - a.value) == 0);
        assert(h * (MICROS_PER_SECOND * (a.value - a.value) + c.lead_time * 0 - c.damping_time
            * 0) == 0);
        lemma_rest_bounded(a.value_rest, MICROS_PER_SECOND as int);
        lemma_rest_bounded(a.rate_rest, c.inertia as int);
        assert(quot(a.value_rest, MICROS_PER_SECOND as int) == 0);
        assert(quot(a.rate_rest, c.inertia as int) == 0) by (nonlinear_arith)
            requires
                -c.inertia < a.rate_rest < c.inertia,
                c.inertia >= 1,
        ;
        assert(a.moved(h) == a);
        assert(a.moved(h).pulled(c, a.value, 0, h) == a);
    }
}

/// A component that a sub-interval leaves as it was, strictly inside the
/// limits and with its target standing still, is on its target and has no
/// rate: nothing is left over that would move it later.
pub proof fn lemma_axis_standstill_is_on_target(a: Axis, c: Coefficients, target: int, h: int)
    requires
        c.sound(),
        h >= 1,
        a.bounded(c),
        -VALUE_LIMIT < a.value < VALUE_LIMIT,
        -RATE_LIMIT < a.rate < RATE_LIMIT,
        a.stepped(c, target, 0, h) == a,
    ensures
        a.value == target,
        a.rate == 0,
{
    let m = MICROS_PER_SECOND as int;
    let k2 = c.inertia as int;
    let travel = h * a.rate + a.value_rest;
    lemma_rest_bounded(travel, m);
    assert(quot(travel, m) == 0);
    assert(travel == a.value_rest);
    assert(a.rate == 0) by (nonlinear_arith)
        requires
            h * a.rate == 0,
            h >= 1,
    ;
    assert(c.lead_time * 0 == 0);
    assert(c.damping_time * 0 == 0);
    let moved = a.moved(h);
    let push = h * (m * (target - moved.value) + c.lead_time * 0 - c.damping_time * moved.rate)
        + moved.rate_rest;
    lemma_rest_bounded(push, k2);
    assert(quot(push, k2) == 0);
    assert(push == a.rate_rest);
    assert(target == a.value) by (nonlinear_arith)
        requires
            h * (m * (target - a.value)) == 0,
            h >= 1,
            m == 1_000_000,
    ;
}

/// A filter that an update toward the target it saw last leaves as it was
/// is on that target and has no rate, if the update is no longer than the
/// critical step and the state lies strictly inside the limits.
pub proof fn lemma_rest_is_on_target(s: FilterState, dt: int)
    requires
        s.valid(),
        1 <= dt <= s.tuning.critical_step(),
        s.value.within(VALUE_LIMIT - 1),
        s.rate.within(RATE_LIMIT - 1),
        s.after(dt, s.input) == s,
    ensures
        s.value == s.input,
        s.rate == Vector3::origin(),
{
    let c = s.tuning.coefficients();
    let step = c.critical_step as int;
    lemma_coefficients_sound(s.tuning);
    assert((dt < step ==> dt / step == 0 && dt % step == dt) && (dt == step ==> dt / step == 1
        && dt % step == 0)) by (nonlinear_arith)
        requires
            1 <= dt <= step,
    ;
    assert(substep_count(dt, step) == 1);
    assert(dt / 1 == dt);
    assert(substep_length(dt, step) == dt);
    assert(s.input.saturated(VALUE_LIMIT as int) == s.input);
    lemma_axis_single_update(s.x(), c, s.input.x as int, dt);
    lemma_axis_single_update(s.y(), c, s.input.y as int, dt);
    lemma_axis_single_update(s.z(), c, s.input.z as int, dt);
    lemma_axis_stays_bounded(s.x(), c, s.input.x as int, 0, dt, 1);
    lemma_axis_stays_bounded(s.y(), c, s.input.y as int, 0, dt, 1);
    lemma_axis_stays_bounded(s.z(), c, s.input.z as int, 0, dt, 1);
    assert(s.x().stepped(c, s.input.x as int, 0, dt) == s.x());
    assert(s.y().stepped(c, s.input.y as int, 0, dt) == s.y());
    assert(s.z().stepped(c, s.input.z as int, 0, dt) == s.z());
    lemma_axis_standstill_is_on_target(s.x(), c, s.input.x as int, dt);
    lemma_axis_standstill_is_on_target(s.y(), c, s.input.y as int, dt);
    lemma_axis_standstill_is_on_target(s.z(), c, s.input.z as int, dt);
}

/// An update of one sub-interval toward a target that stands still is one
/// step of the component.
proof fn lemma_axis_single_update(a: Axis, c: Coefficients, target: int, h: int)
    requires
        h >= 1,
    ensures
        input_rate(target, target, h) == 0,
        a.after(c, target, 0, h, 1) == a.stepped(c, target, 0, h),
{
    assert((target - target) * MICROS_PER_SECOND == 0);
    assert(a.after(c, target, 0, h, 0) == a);
}

/// An update keeps a valid state valid and leaves the tuning alone.
pub proof fn lemma_update_keeps_valid(s: FilterState, dt: int, target: Vector3)
    requires
        s.valid(),
    ensures
        s.after(dt, target).valid(),
        s.after(dt, target).tuning == s.tuning,
{
    let c = s.tuning.coefficients();
    let aim = target.saturated(VALUE_LIMIT as int);
    let h = substep_length(dt, c.critical_step as int);
    let n = substep_count(dt, c.critical_step as int) as nat;
    lemma_coefficients_sound(s.tuning);
    lemma_axis_stays_bounded(
        s.x(),
        c,
        aim.x as int,
        input_rate(aim.x as int, s.input.x as int, dt),
        h,
        n,
    );
    lemma_axis_stays_bounded(
        s.y(),
        c,
        aim.y as int,
        input_rate(aim.y as int, s.input.y as int, dt),
        h,
        n,
    );
    lemma_axis_stays_bounded(
        s.z(),
        c,
        aim.z as int,
        input_rate(aim.z as int, s.input.z as int, dt),
        h,
        n,
    );
}

/// Whatever the elapsed times and targets, and however many updates there
/// are, value and rate stay within [`VALUE_LIMIT`] and [`RATE_LIMIT`].
pub proof fn lemma_output_stays_bounded(s: FilterState, frames: Seq<Frame>)
    requires
        s.valid(),
    ensures
        s.after_all(frames).valid(),
        s.after_all(frames).tuning == s.tuning,
        s.after_all(frames).value.within(VALUE_LIMIT as int),
        s.after_all(frames).rate.within(RATE_LIMIT as int),
    decreases frames.len(),
{
    if frames.len() > 0 {
        lemma_output_stays_bounded(s, frames.drop_last());
        lemma_update_keeps_valid(
            s.after_all(frames.drop_last()),
            frames.last().dt as int,
            frames.last().target,
        );
    }
}

/// A filter at rest on its target stays at rest on it: a constant target is a
/// fixed point of the update, whatever the elapsed time.
pub proof fn lemma_rest_is_fixed_point(s: FilterState, dt: int)
    requires
        s.valid(),
        dt > 0,
        s.rate == Vector3::origin(),
        s.input == s.value,
    ensures
        s.after(dt, s.value) == s,
{
    let c = s.tuning.coefficients();
    let h = substep_length(dt, c.critical_step as int);
    let n = substep_count(dt, c.critical_step as int) as nat;
    lemma_coefficients_sound(s.tuning);
    assert(quot(0, dt) == 0);
    assert((s.value.x - s.value.x) * MICROS_PER_SECOND == 0);
    assert((s.value.y - s.value.y) * MICROS_PER_SECOND == 0);
    assert((s.value.z - s.value.z) * MICROS_PER_SECOND == 0);
    lemma_axis_rest(s.x(), c, h, n);
    lemma_axis_rest(s.y(), c, h, n);
    lemma_axis_rest(s.z(), c, h, n);
}

/// Within the tuning limits the coefficients lie in the ranges in which the
/// integration is free of overflow, and the root from which the critical
/// step is taken exceeds the damping time by less than [`MAX_CRITICAL_STEP`].
pub proof fn lemma_gains_bounded(t: Tuning)
    requires
        t.in_range(),
    ensures
        0 <= t.damping_time() <= MAX_DAMPING_TIME,
        1 <= t.inertia() <= MAX_INERTIA,
        -MAX_LEAD_TIME <= t.lead_time() <= MAX_LEAD_TIME,
        0 <= t.damping_time() * t.damping_time() <= MAX_DAMPING_TIME * MAX_DAMPING_TIME,
        is_floor_sqrt(
            floor_sqrt(4 * t.inertia() + t.damping_time() * t.damping_time()),
            4 * t.inertia() + t.damping_time() * t.damping_time(),
        ),
        0 <= floor_sqrt(4 * t.inertia() + t.damping_time() * t.damping_time())
            - t.damping_time() < MAX_CRITICAL_STEP,
        0 <= t.critical_step() < MAX_CRITICAL_STEP,
{
    let f = t.frequency as int;
    let z = t.damping as int;
    let r = t.anticipation as int;
    let half_turn = PI_BILLIONTHS * f;
    let turn = 2 * PI_BILLIONTHS * f;
    let big: int = 1_000_000_000_000_000_000_000_000_000_000_000_000;
    assert(PI_BILLIONTHS <= half_turn <= PI_BILLIONTHS * MAX_FREQUENCY && turn == 2 * half_turn)
        by (nonlinear_arith)
        requires
            1 <= f <= MAX_FREQUENCY,
            half_turn == PI_BILLIONTHS * f,
            turn == 2 * PI_BILLIONTHS * f,
    ;
    lemma_square_monotone(6_283_185_308, turn);
    lemma_square_monotone(turn, 6_283_185_308_000_000);
    assert(6_283_185_308int * 6_283_185_308 == 39_478_417_614_667_054_864int);
    assert(6_283_185_308_000_000int * 6_283_185_308_000_000 <= big);
    lemma_product_bounded(r, z, MAX_ANTICIPATION as int, MAX_DAMPING as int);
    lemma_div_is_ordered_by_denominator(
        1_000_000_000_000_000 * z,
        PI_BILLIONTHS as int,
        half_turn,
    );
    lemma_div_is_ordered(
        1_000_000_000_000_000 * z,
        1_000_000_000_000_000 * MAX_DAMPING as int,
        PI_BILLIONTHS as int,
    );
    lemma_div_is_ordered_by_denominator(big, 39_478_417_614_667_054_864, turn * turn);
    lemma_div_is_ordered(turn * turn, big, turn * turn);
    assert((turn * turn) / (turn * turn) == 1) by (nonlinear_arith)
        requires
            turn * turn >= 1,
    ;
    lemma_lead_time_bounded(1_000_000_000_000 * (r * z), turn);
    assert(100_000_000_000_000_000_000int / 3_141_592_654 == 31_830_988_614int);
    assert(big / 39_478_417_614_667_054_864 == 25_330_295_903_969_544int);
    let k1 = t.damping_time();
    let k2 = t.inertia();
    assert(0 <= k1 <= MAX_DAMPING_TIME);
    assert(1 <= k2 <= MAX_INERTIA);
    lemma_product_bounded(k1, k1, MAX_DAMPING_TIME as int, MAX_DAMPING_TIME as int);
    assert(k1 * k1 >= 0) by (nonlinear_arith);
    lemma_floor_sqrt_exists(4 * k2 + k1 * k1);
    lemma_root_gap_bounded(floor_sqrt(4 * k2 + k1 * k1), k1, k2);
}

/// The coefficients of an accepted tuning lie in the ranges in which the
/// integration is free of overflow.
pub proof fn lemma_coefficients_sound(t: Tuning)
    requires
        t.fault() is None,
    ensures
        t.coefficients().sound(),
        t.coefficients().damping_time == t.damping_time(),
        t.coefficients().inertia == t.inertia(),
        t.coefficients().lead_time == t.lead_time(),
        t.coefficients().critical_step == t.critical_step(),
{
    lemma_gains_bounded(t);
}

/// A tuning within the limits is accepted when `root`, the floor square root
/// of `4 k2 + k1^2`, leaves a critical step of at least one microsecond.
pub proof fn lemma_tuning_accepted(t: Tuning, root: int)
    requires
        t.in_range(),
        is_floor_sqrt(root, 4 * t.inertia() + t.damping_time() * t.damping_time()),
        (root - t.damping_time()) * 4 / 5 >= 1,
    ensures
        t.fault() is None,
        t.critical_step() == (root - t.damping_time()) * 4 / 5,
{
    lemma_gains_bounded(t);
    lemma_floor_sqrt_unique(
        root,
        floor_sqrt(4 * t.inertia() + t.damping_time() * t.damping_time()),
        4 * t.inertia() + t.damping_time() * t.damping_time(),
    );
}

/// The lead time stays within its limit whatever the sign of its numerator.
proof fn lemma_lead_time_bounded(a: int, d: int)
    requires
        -10_000_000_000_000_000_000_000 <= a <= 10_000_000_000_000_000_000_000,
        d >= 2 * PI_BILLIONTHS,
    ensures
        -MAX_LEAD_TIME <= quot(a, d) <= MAX_LEAD_TIME,
{
    let m: int = if a >= 0 {
        a
    } else {
        -a
    };
    lemma_div_is_ordered_by_denominator(m, 6_283_185_308, d);
    lemma_div_is_ordered(m, 10_000_000_000_000_000_000_000, 6_283_185_308);
    assert(10_000_000_000_000_000_000_000int / 6_283_185_308 == 1_591_549_430_711int);
    assert(m / d <= MAX_LEAD_TIME);
}

/// The root of `4 k2 + k1^2` exceeds `k1` by at least nothing and by less than
/// the longest critical step.
proof fn lemma_root_gap_bounded(s: int, k1: int, k2: int)
    by (nonlinear_arith)
    requires
        0 <= k1,
        0 <= k2 <= MAX_INERTIA,
        0 <= s,
        s * s <= 4 * k2 + k1 * k1 < (s + 1) * (s + 1),
    ensures
        0 <= s - k1 < MAX_CRITICAL_STEP,
{
}

} // verus!
