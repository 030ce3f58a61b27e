//! The gauges: what each frame turns the latest sample into.
//!
//! A dial shows one core as a pointer that turns about the z axis, a bar
//! shows a ratio as a length, and a meter is a fixed row of dials, one per
//! core. Angles are counted in thousandths of a degree, scales in millionths.

use crate::arith::{
    clamp, clamp_i128, is_floor_sqrt, lemma_product_bounded, lemma_quot_bounded, quot, quot_i128,
};
use crate::filter::{
    input_rate, lemma_axis_rest, lemma_coefficients_sound, lemma_rest_is_on_target,
    lemma_tuning_accepted, lemma_update_keeps_valid, substep_count, substep_length, Coefficients,
    Filter, FilterState, Tuning, Vector3, RATE_LIMIT, VALUE_LIMIT,
};
use crate::sample::{Channel, Sample, SampleView, RATIO_ONE};
use crate::store::{locked_store, try_lock_store, SnapshotStore};
use tokio::sync::Mutex;
use vstd::arithmetic::div_mod::lemma_div_is_ordered;
use vstd::prelude::*;

verus! {

/// Half a turn, in thousandths of a degree.
pub const HALF_TURN: i64 = 180_000;

/// A full turn, in thousandths of a degree.
pub const FULL_TURN: i64 = 360_000;

/// Where a dial's pointer stands at no load.
pub const DIAL_REST_ANGLE: i64 = 125_000;

/// How far a dial's pointer turns from no load to full load.
pub const DIAL_SWEEP: i64 = -250_000;

/// Natural frequency of a dial's pointer, in millihertz.
pub const DIAL_FREQUENCY: i64 = 1_000;

/// Damping ratio of a dial's pointer, in thousandths.
pub const DIAL_DAMPING: i64 = 800;

/// Dials stand in this many columns.
pub const DIAL_COLUMNS: usize = 2;

/// Distance between neighbouring dials, in thousandths of a scene unit.
pub const DIAL_PITCH: i64 = 1_750;

/// Where the leftmost column of dials stands, in thousandths of a scene unit.
pub const DIAL_LEFT: i64 = -1_000;

/// Where the topmost row of dials stands, in thousandths of a scene unit.
pub const DIAL_TOP: i64 = 1_000;

/// Largest magnitude of a coordinate of a position: what the number holds.
pub const POSITION_LIMIT: i64 = 0x7fff_ffff_ffff_ffff;

/// Dials for cores below this number stand in a cell of their own, at the
/// very place their row and column give.
pub const PLACED_DIALS: usize = 0x100_0000;

/// Natural frequency of a bar, in millihertz.
pub const BAR_FREQUENCY: i64 = 500;

/// Damping ratio of a bar, in thousandths.
pub const BAR_DAMPING: i64 = 300;

/// Length of a bar at full load, in millionths.
pub const BAR_FULL_LENGTH: i64 = 1_000_000;

/// Thickness of a bar and of its frame, in millionths.
pub const BAR_THICKNESS: i64 = 100_000;

/// Length of the frame of a bar, in millionths.
pub const BAR_FRAME_LENGTH: i64 = 300_000;

/// A linear map from a ratio to a target: `offset + gain * ratio`.
#[derive(Clone, Copy, Debug, PartialEq, Eq, Structural)]
pub struct Mapping {
    /// What a ratio of one adds to the target.
    pub gain: i64,
    /// The target at a ratio of zero.
    pub offset: i64,
}

impl Mapping {
    /// The target that stands for `ratio`, given in millionths: the offset
    /// plus the ratio's share of the gain, rounded toward zero and saturated
    /// to [`VALUE_LIMIT`]. It depends on nothing but the mapping and the ratio.
    pub open spec fn target(self, ratio: u32) -> int {
        clamp(self.offset + quot(self.gain * ratio, RATIO_ONE as int), VALUE_LIMIT as int)
    }

    /// Computes [`Mapping::target`].
    pub fn apply(&self, ratio: u32) -> (t: i64)
        ensures
            t == self.target(ratio),
            -VALUE_LIMIT <= t <= VALUE_LIMIT,
    {
        proof {
            lemma_product_bounded(
                self.gain as int,
                ratio as int,
                0x8000_0000_0000_0000,
                0x1_0000_0000,
            );
        }
        let share: i128 = quot_i128((self.gain as i128) * (ratio as i128), RATIO_ONE as i128);
        proof {
            lemma_quot_bounded(self.gain * ratio, RATIO_ONE as int);
        }
        clamp_i128(self.offset as i128 + share, VALUE_LIMIT)
    }
}

/// The mapping of a dial: from [`DIAL_REST_ANGLE`] at no load through
/// [`DIAL_SWEEP`] to full load.
pub open spec fn dial_mapping() -> Mapping {
    Mapping { gain: DIAL_SWEEP, offset: DIAL_REST_ANGLE }
}

/// The mapping of a bar: from no length at no load to [`BAR_FULL_LENGTH`].
pub open spec fn bar_mapping() -> Mapping {
    Mapping { gain: BAR_FULL_LENGTH, offset: 0 }
}

/// The tuning of a dial's pointer.
pub open spec fn dial_tuning() -> Tuning {
    Tuning { frequency: DIAL_FREQUENCY, damping: DIAL_DAMPING, anticipation: 0 }
}

/// The tuning of a bar.
pub open spec fn bar_tuning() -> Tuning {
    Tuning { frequency: BAR_FREQUENCY, damping: BAR_DAMPING, anticipation: 0 }
}

/// The angle in `-HALF_TURN .. HALF_TURN` that differs from `angle` by whole turns.
pub open spec fn principal(angle: int) -> int {
    (angle + HALF_TURN) % (FULL_TURN as int) - HALF_TURN
}

/// The tuning of a dial is accepted, and these are its coefficients.
pub proof fn lemma_dial_tuning_accepted()
    ensures
        dial_tuning().fault() is None,
        dial_tuning().coefficients() == (Coefficients {
            damping_time: 254_647,
            inertia: 25_330_295_903,
            lead_time: 0,
            critical_step: 122_389,
        }),
{
    let t = dial_tuning();
    assert(t.damping_time() == 254_647) by {
        assert(800_000_000_000_000_000int / 3_141_592_654_000 == 254_647);
    }
    assert(t.inertia() == 25_330_295_903) by {
        assert(6_283_185_308_000int * 6_283_185_308_000 == 39_478_417_614_667_054_864_000_000);
        assert(1_000_000_000_000_000_000_000_000_000_000_000_000int
            / 39_478_417_614_667_054_864_000_000 == 25_330_295_903);
    }
    assert(254_647int * 254_647 == 64_845_094_609);
    assert(407_634int * 407_634 == 166_165_477_956);
    assert(407_635int * 407_635 == 166_166_293_225);
    assert(is_floor_sqrt(407_634, 4 * t.inertia() + t.damping_time() * t.damping_time()));
    lemma_tuning_accepted(t, 407_634);
    assert(t.anticipation * t.damping == 0);
    assert(t.lead_time() == 0);
}

/// The tuning of a bar is accepted, and these are its coefficients.
pub proof fn lemma_bar_tuning_accepted()
    ensures
        bar_tuning().fault() is None,
        bar_tuning().coefficients() == (Coefficients {
            damping_time: 190_985,
            inertia: 101_321_183_615,
            lead_time: 0,
            critical_step: 378_932,
        }),
{
    let t = bar_tuning();
    assert(t.damping_time() == 190_985) by {
        assert(300_000_000_000_000_000int / 1_570_796_327_000 == 190_985);
    }
    assert(t.inertia() == 101_321_183_615) by {
        assert(3_141_592_654_000int * 3_141_592_654_000 == 9_869_604_403_666_763_716_000_000);
        assert(1_000_000_000_000_000_000_000_000_000_000_000_000int
            / 9_869_604_403_666_763_716_000_000 == 101_321_183_615);
    }
    assert(190_985int * 190_985 == 36_475_270_225);
    assert(664_650int * 664_650 == 441_759_622_500);
    assert(664_651int * 664_651 == 441_760_951_801);
    assert(is_floor_sqrt(664_650, 4 * t.inertia() + t.damping_time() * t.damping_time()));
    lemma_tuning_accepted(t, 664_650);
    assert(t.anticipation * t.damping == 0);
    assert(t.lead_time() == 0);
}

/// The filter of a dial comes to rest nowhere but on its target, with no
/// rate left. This holds of frames no longer than the critical step of a
/// dial and of states strictly inside the limits.
pub proof fn lemma_dial_rests_on_target(s: FilterState, dt: int)
    requires
        s.valid(),
        s.tuning == dial_tuning(),
        1 <= dt <= 122_389,
        s.value.within(VALUE_LIMIT - 1),
        s.rate.within(RATE_LIMIT - 1),
        s.after(dt, s.input) == s,
    ensures
        s.value == s.input,
        s.rate == Vector3::origin(),
{
    lemma_dial_tuning_accepted();
    lemma_rest_is_on_target(s, dt);
}

/// The filter of a bar comes to rest nowhere but on its target, with no
/// rate left. This holds of frames no longer than the critical step of a
/// bar and of states strictly inside the limits.
pub proof fn lemma_bar_rests_on_target(s: FilterState, dt: int)
    requires
        s.valid(),
        s.tuning == bar_tuning(),
        1 <= dt <= 378_932,
        s.value.within(VALUE_LIMIT - 1),
        s.rate.within(RATE_LIMIT - 1),
        s.after(dt, s.input) == s,
    ensures
        s.value == s.input,
        s.rate == Vector3::origin(),
{
    lemma_bar_tuning_accepted();
    lemma_rest_is_on_target(s, dt);
}

/// A mapping with a gain of zero or more never maps a larger ratio to a
/// smaller target; one with a gain of zero or less never to a larger one.
pub proof fn lemma_mapping_monotone(m: Mapping, low: u32, high: u32)
    requires
        low <= high,
    ensures
        m.gain >= 0 ==> m.target(low) <= m.target(high),
        m.gain <= 0 ==> m.target(low) >= m.target(high),
{
    let one = RATIO_ONE as int;
    if m.gain >= 0 {
        assert(0 <= m.gain * low <= m.gain * high) by (nonlinear_arith)
            requires
                m.gain >= 0,
                0 <= low <= high,
        ;
        lemma_div_is_ordered(m.gain * low, m.gain * high, one);
    }
    if m.gain <= 0 {
        assert(0 <= -(m.gain * low) <= -(m.gain * high)) by (nonlinear_arith)
            requires
                m.gain <= 0,
                0 <= low <= high,
        ;
        lemma_div_is_ordered(-(m.gain * low), -(m.gain * high), one);
    }
}

/// At a ratio of zero a mapping gives its offset, at a ratio of one its
/// offset plus its gain, each saturated to [`VALUE_LIMIT`].
pub proof fn lemma_mapping_ends(m: Mapping)
    ensures
        m.target(0) == clamp(m.offset as int, VALUE_LIMIT as int),
        m.target(RATIO_ONE) == clamp(m.offset + m.gain, VALUE_LIMIT as int),
{
    assert(m.gain * 0 == 0);
    let one = RATIO_ONE as int;
    assert(quot(m.gain * one, one) == m.gain) by (nonlinear_arith)
        requires
            one == 1_000_000,
    ;
}

/// For a ratio of at most one, the angle a dial is sent to lies between its
/// angle at full load and its angle at rest, and is an angle of the turn
/// about zero already: bringing it into one turn changes nothing.
pub proof fn lemma_dial_angle_in_sweep(ratio: u32)
    requires
        ratio <= RATIO_ONE,
    ensures
        DIAL_REST_ANGLE + DIAL_SWEEP <= dial_mapping().target(ratio) <= DIAL_REST_ANGLE,
        principal(dial_mapping().target(ratio)) == dial_mapping().target(ratio),
{
    lemma_mapping_monotone(dial_mapping(), 0, ratio);
    lemma_mapping_monotone(dial_mapping(), ratio, RATIO_ONE);
    lemma_mapping_ends(dial_mapping());
}

/// Brings an angle into `-HALF_TURN .. HALF_TURN` by whole turns.
pub fn principal_angle(angle: i64) -> (r: i64)
    ensures
        r == principal(angle as int),
        -HALF_TURN <= r < HALF_TURN,
{
    let shifted: i128 = angle as i128 + HALF_TURN as i128;
    let rest: i128 = shifted % (FULL_TURN as i128);
    let turned: i128 = if rest < 0 {
        rest + FULL_TURN as i128
    } else {
        rest
    };
    (turned - HALF_TURN as i128) as i64
}

/// What a dial is, mathematically: the core it shows, the angle its pointer
/// is heading for, and the filter that moves the pointer.
pub struct DialState {
    pub id: usize,
    pub goal: i64,
    pub filter: FilterState,
}

impl DialState {
    /// A dial for core `id`, its pointer at rest at angle zero.
    pub open spec fn fresh(id: usize) -> DialState {
        DialState { id, goal: 0, filter: FilterState::resting(dial_tuning(), Vector3::origin()) }
    }

    /// The dial after a frame of `dt` microseconds in which it is sent to `angle`.
    pub open spec fn after(self, angle: i64, dt: u64) -> DialState {
        let goal = principal(angle as int) as i64;
        DialState {
            id: self.id,
            goal,
            filter: self.filter.after(dt as int, Vector3 { x: 0, y: 0, z: goal }),
        }
    }

    /// The dial after a frame in which its core reads `ratio`.
    pub open spec fn driven(self, ratio: u32, dt: u64) -> DialState {
        self.after(dial_mapping().target(ratio) as i64, dt)
    }

    /// Holds of every dial: its filter is valid and has the tuning of a
    /// dial, its goal is an angle of the turn about zero, and its pointer
    /// turns about the z axis alone.
    pub open spec fn valid(self) -> bool {
        &&& self.filter.valid()
        &&& self.filter.tuning == dial_tuning()
        &&& -HALF_TURN <= self.goal < HALF_TURN
        &&& self.filter.value.x == 0 && self.filter.value.y == 0
        &&& self.filter.rate.x == 0 && self.filter.rate.y == 0
        &&& self.filter.input.x == 0 && self.filter.input.y == 0
        &&& self.filter.value_rest.x == 0 && self.filter.value_rest.y == 0
        &&& self.filter.rate_rest.x == 0 && self.filter.rate_rest.y == 0
    }

    /// Where the dial stands in the scene, in thousandths of a scene unit:
    /// [`DIAL_PITCH`] to the right of [`DIAL_LEFT`] for each column and below
    /// [`DIAL_TOP`] for each row, the latter saturated to [`POSITION_LIMIT`].
    pub open spec fn position(self) -> Vector3 {
        Vector3 {
            x: (DIAL_LEFT + (self.id % DIAL_COLUMNS) * DIAL_PITCH) as i64,
            y: clamp(
                DIAL_TOP - (self.id / DIAL_COLUMNS) * DIAL_PITCH,
                POSITION_LIMIT as int,
            ) as i64,
            z: 0,
        }
    }
}

/// A dial for a core below [`PLACED_DIALS`] stands at the very place its
/// row and column give: nothing is saturated.
pub proof fn lemma_position_is_exact(s: DialState)
    requires
        s.id < PLACED_DIALS,
    ensures
        s.position().x == DIAL_LEFT + (s.id % DIAL_COLUMNS) * DIAL_PITCH,
        s.position().y == DIAL_TOP - (s.id / DIAL_COLUMNS) * DIAL_PITCH,
        s.position().z == 0,
{
    let row = (s.id / DIAL_COLUMNS) as int;
    let column = (s.id % DIAL_COLUMNS) as int;
    assert(0 <= row * DIAL_PITCH <= 0x100_0000 * DIAL_PITCH) by (nonlinear_arith)
        requires
            0 <= row <= 0x100_0000,
            DIAL_PITCH == 1_750,
    ;
    assert(0 <= column * DIAL_PITCH <= DIAL_PITCH) by (nonlinear_arith)
        requires
            0 <= column <= 1,
            DIAL_PITCH == 1_750,
    ;
}

/// Two dials for different cores below [`PLACED_DIALS`] never stand at the
/// same place.
pub proof fn lemma_positions_differ(i: usize, j: usize)
    requires
        i != j,
        i < PLACED_DIALS,
        j < PLACED_DIALS,
    ensures
        DialState::fresh(i).position() != DialState::fresh(j).position(),
{
    lemma_position_is_exact(DialState::fresh(i));
    lemma_position_is_exact(DialState::fresh(j));
    let columns = DIAL_COLUMNS as int;
    assert(i == columns * (i as int / columns) + (i as int % columns));
    assert(j == columns * (j as int / columns) + (j as int % columns));
    if i / DIAL_COLUMNS != j / DIAL_COLUMNS {
        assert((i / DIAL_COLUMNS) * DIAL_PITCH != (j / DIAL_COLUMNS) * DIAL_PITCH)
            by (nonlinear_arith)
            requires
                i / DIAL_COLUMNS != j / DIAL_COLUMNS,
                DIAL_PITCH == 1_750,
        ;
    } else {
        assert((i % DIAL_COLUMNS) * DIAL_PITCH != (j % DIAL_COLUMNS) * DIAL_PITCH)
            by (nonlinear_arith)
            requires
                i % DIAL_COLUMNS != j % DIAL_COLUMNS,
                DIAL_PITCH == 1_750,
        ;
    }
}

/// A frame keeps a dial valid and leaves alone which core it shows and how
/// its filter is tuned.
pub proof fn lemma_dial_stays_valid(s: DialState, angle: i64, dt: u64)
    requires
        s.valid(),
        dt > 0,
    ensures
        s.after(angle, dt).valid(),
        s.after(angle, dt).id == s.id,
        s.after(angle, dt).filter.tuning == s.filter.tuning,
{
    let goal = principal(angle as int) as i64;
    let target = Vector3 { x: 0, y: 0, z: goal };
    let c = s.filter.tuning.coefficients();
    let h = substep_length(dt as int, c.critical_step as int);
    let n = substep_count(dt as int, c.critical_step as int) as nat;
    lemma_update_keeps_valid(s.filter, dt as int, target);
    lemma_coefficients_sound(s.filter.tuning);
    assert(input_rate(0, 0, dt as int) == 0);
    lemma_axis_rest(s.filter.x(), c, h, n);
    lemma_axis_rest(s.filter.y(), c, h, n);
}

/// A pointer gauge for one core.
#[derive(Debug)]
pub struct Dial {
    id: usize,
    goal: i64,
    filter: Filter,
}

impl View for Dial {
    type V = DialState;

    closed spec fn view(&self) -> DialState {
        DialState { id: self.id, goal: self.goal, filter: self.filter@ }
    }
}

impl Dial {
    #[verifier::type_invariant]
    closed spec fn consistent(self) -> bool {
        self@.valid()
    }

    /// A dial for core `id`, its pointer at rest at angle zero.
    pub fn new(id: usize) -> (d: Dial)
        ensures
            d@ == DialState::fresh(id),
            d@.valid(),
    {
        proof {
            lemma_dial_tuning_accepted();
        }
        let made = Filter::new(DIAL_FREQUENCY, DIAL_DAMPING, 0, Vector3::zero());
        Dial { id, goal: 0, filter: made.unwrap() }
    }

    /// Sends the pointer to `angle` and advances its filter by one frame of
    /// `dt` microseconds. Returns the rotation to show, as Euler angles: the
    /// smoothed angle about the z axis, and nothing about the others.
    pub fn update(&mut self, angle: i64, dt: u64) -> (rotation: Vector3)
        requires
            dt > 0,
        ensures
            final(self)@ == old(self)@.after(angle, dt),
            final(self)@.valid(),
            final(self)@.filter.valid(),
            final(self)@.filter.tuning == old(self)@.filter.tuning,
            final(self)@.id == old(self)@.id,
            rotation == final(self)@.filter.value,
            rotation.x == 0 && rotation.y == 0,
            rotation.within(VALUE_LIMIT as int),
    {
        proof {
            use_type_invariant(&*self);
            lemma_dial_stays_valid(self@, angle, dt);
        }
        let goal: i64 = principal_angle(angle);
        let mut filter: Filter = self.filter;
        let rotation = filter.update(dt, Vector3::new(0, 0, goal));
        *self = Dial { id: self.id, goal, filter };
        rotation
    }

    /// Where the dial stands in the scene, in thousandths of a scene unit.
    pub fn position(&self) -> (p: Vector3)
        ensures
            p == self@.position(),
            p.x == DIAL_LEFT + (self@.id % DIAL_COLUMNS) * DIAL_PITCH,
            self@.id < PLACED_DIALS ==> p.y == DIAL_TOP - (self@.id / DIAL_COLUMNS) * DIAL_PITCH,
            p.z == 0,
    {
        let column: i64 = (self.id % DIAL_COLUMNS) as i64;
        let row: i128 = (self.id / DIAL_COLUMNS) as i128;
        proof {
            lemma_product_bounded(
                row as int,
                DIAL_PITCH as int,
                0x1_0000_0000_0000_0000,
                DIAL_PITCH as int,
            );
            if self.id < PLACED_DIALS {
                lemma_position_is_exact(self@);
            }
        }
        Vector3 {
            x: DIAL_LEFT + column * DIAL_PITCH,
            y: clamp_i128(DIAL_TOP as i128 - row * (DIAL_PITCH as i128), POSITION_LIMIT),
            z: 0,
        }
    }

    /// The core this dial shows.
    pub fn channel(&self) -> (c: Channel)
        ensures
            c == Channel::Core(self@.id),
    {
        Channel::Core(self.id)
    }

    /// The column in which the dial stands, counted from the left.
    pub fn column(&self) -> (c: usize)
        ensures
            c == self@.id % DIAL_COLUMNS,
    {
        self.id % DIAL_COLUMNS
    }

    /// The row in which the dial stands, counted from the top.
    pub fn row(&self) -> (r: usize)
        ensures
            r == self@.id / DIAL_COLUMNS,
    {
        self.id / DIAL_COLUMNS
    }

    /// The angle the pointer is heading for.
    pub fn goal(&self) -> (a: i64)
        ensures
            a == self@.goal,
    {
        self.goal
    }

    /// The rotation to show, as Euler angles.
    pub fn rotation(&self) -> (r: Vector3)
        ensures
            r == self@.filter.value,
            r.x == 0 && r.y == 0,
    {
        proof {
            use_type_invariant(self);
        }
        self.filter.value()
    }
}

/// What a bar is, mathematically: the channel it is numbered by and the
/// filter that moves its scale.
pub struct BarState {
    pub id: usize,
    pub filter: FilterState,
}

impl BarState {
    /// A bar numbered `id`, its scale at rest at zero.
    pub open spec fn fresh(id: usize) -> BarState {
        BarState { id, filter: FilterState::resting(bar_tuning(), Vector3::origin()) }
    }

    /// The scale a bar heads for at `usage`: as long as the usage's share of
    /// [`BAR_FULL_LENGTH`], and [`BAR_THICKNESS`] thick.
    pub open spec fn aim(usage: u32) -> Vector3 {
        Vector3 { x: bar_mapping().target(usage) as i64, y: BAR_THICKNESS, z: 0 }
    }

    /// The bar after a frame of `dt` microseconds at `usage`.
    pub open spec fn after(self, usage: u32, dt: u64) -> BarState {
        BarState { id: self.id, filter: self.filter.after(dt as int, BarState::aim(usage)) }
    }
}

/// A bar gauge: a moving bar in a frame of fixed size.
#[derive(Debug)]
pub struct Bar {
    id: usize,
    filter: Filter,
}

impl View for Bar {
    type V = BarState;

    closed spec fn view(&self) -> BarState {
        BarState { id: self.id, filter: self.filter@ }
    }
}

impl Bar {
    /// A bar numbered `id`, its scale at rest at zero.
    pub fn new(id: usize) -> (b: Bar)
        ensures
            b@ == BarState::fresh(id),
    {
        proof {
            lemma_bar_tuning_accepted();
        }
        let made = Filter::new(BAR_FREQUENCY, BAR_DAMPING, 0, Vector3::zero());
        Bar { id, filter: made.unwrap() }
    }

    /// Heads for the scale that stands for `usage`, a ratio in millionths,
    /// and advances by one frame of `dt` microseconds. Returns the scale of
    /// the moving bar.
    pub fn update(&mut self, usage: u32, dt: u64) -> (scale: Vector3)
        requires
            dt > 0,
        ensures
            final(self)@ == old(self)@.after(usage, dt),
            final(self)@.filter.valid(),
            final(self)@.filter.tuning == old(self)@.filter.tuning,
            final(self)@.id == old(self)@.id,
            scale == final(self)@.filter.value,
            scale.within(VALUE_LIMIT as int),
    {
        let mapping = Mapping { gain: BAR_FULL_LENGTH, offset: 0 };
        let length: i64 = mapping.apply(usage);
        self.filter.update(dt, Vector3::new(length, BAR_THICKNESS, 0))
    }

    /// The number of this bar.
    pub fn id(&self) -> (id: usize)
        ensures
            id == self@.id,
    {
        self.id
    }

    /// The scale of the moving bar.
    pub fn scale(&self) -> (s: Vector3)
        ensures
            s == self@.filter.value,
    {
        self.filter.value()
    }

    /// The scale of the frame, which never moves.
    pub fn frame_scale(&self) -> (s: Vector3)
        ensures
            s == (Vector3 { x: BAR_FRAME_LENGTH, y: BAR_THICKNESS, z: 0 }),
    {
        Vector3::new(BAR_FRAME_LENGTH, BAR_THICKNESS, 0)
    }
}

/// The dials of a meter after a frame of `dt` microseconds in which `read`
/// is what the store gave: without a sample every dial holds, with one dial
/// `i` is driven by the reading of core `i` and holds if the sample has no
/// such core.
pub open spec fn dials_after(dials: Seq<DialState>, read: Option<SampleView>, dt: u64) -> Seq<
    DialState,
> {
    match read {
        None => dials,
        Some(sample) => Seq::new(
            dials.len(),
            |i: int|
                match sample.reading(Channel::Core(i as usize)) {
                    Some(ratio) => dials[i].driven(ratio, dt),
                    None => dials[i],
                },
        ),
    }
}

/// Holds of the dials of every meter: each is valid, and dial `i` shows
/// core `i`.
pub open spec fn in_place(dials: Seq<DialState>) -> bool {
    forall|i: int| 0 <= i < dials.len() ==> (#[trigger] dials[i]).id == i && dials[i].valid()
}

/// A frame leaves the dials of a meter in place: there are as many as
/// before, each is valid, and dial `i` still shows core `i`.
pub proof fn lemma_drive_keeps_dials_in_place(
    dials: Seq<DialState>,
    read: Option<SampleView>,
    dt: u64,
)
    requires
        in_place(dials),
        dt > 0,
    ensures
        dials_after(dials, read, dt).len() == dials.len(),
        in_place(dials_after(dials, read, dt)),
{
    match read {
        None => {},
        Some(sample) => {
            let after = dials_after(dials, read, dt);
            assert forall|i: int| 0 <= i < after.len() implies (#[trigger] after[i]).id == i
                && after[i].valid() by {
                match sample.reading(Channel::Core(i as usize)) {
                    Some(ratio) => {
                        lemma_dial_stays_valid(
                            dials[i],
                            dial_mapping().target(ratio) as i64,
                            dt,
                        );
                    },
                    None => {},
                }
            }
        },
    }
}

/// What a read of the store gave, as the sample it holds.
pub open spec fn sample_read(read: Option<&Sample>) -> Option<SampleView> {
    match read {
        Some(sample) => Some(sample@),
        None => None,
    }
}

/// A row of dials, one per core. Their number is fixed when the meter is made.
#[derive(Debug)]
pub struct Meter {
    dials: Vec<Dial>,
}

impl View for Meter {
    type V = Seq<DialState>;

    closed spec fn view(&self) -> Seq<DialState> {
        Seq::new(self.dials@.len(), |i: int| self.dials@[i]@)
    }
}

impl Meter {
    /// A meter with one fresh dial for each of `channel_count` cores, or
    /// `None` if there is no core to show.
    pub fn new(channel_count: usize) -> (m: Option<Meter>)
        ensures
            channel_count == 0 <==> m is None,
            m is Some ==> m->0@.len() == channel_count,
            m is Some ==> forall|i: int|
                0 <= i < channel_count ==> #[trigger] m->0@[i] == DialState::fresh(i as usize),
            m is Some ==> in_place(m->0@),
    {
        if channel_count == 0 {
            return None;
        }
        let mut dials: Vec<Dial> = Vec::new();
        let mut i: usize = 0;
        while i < channel_count
            invariant
                i <= channel_count,
                dials@.len() == i,
                forall|j: int| 0 <= j < i ==> #[trigger] dials@[j]@ == DialState::fresh(j as usize),
                forall|j: int| 0 <= j < i ==> (#[trigger] dials@[j])@.valid(),
            decreases channel_count - i,
        {
            dials.push(Dial::new(i));
            i = i + 1;
        }
        Some(Meter { dials })
    }

    /// One frame of `dt` microseconds with `read` as what the store gave:
    /// with a sample, drives dial `i` by the reading of core `i`; without
    /// one, holds every dial. Returns whether there was a sample.
    pub fn drive(&mut self, read: Option<&Sample>, dt: u64) -> (driven: bool)
        requires
            dt > 0,
        ensures
            driven == read is Some,
            final(self)@ == dials_after(old(self)@, sample_read(read), dt),
            final(self)@.len() == old(self)@.len(),
            in_place(old(self)@) ==> in_place(final(self)@),
    {
        proof {
            if in_place(self@) {
                lemma_drive_keeps_dials_in_place(self@, sample_read(read), dt);
            }
        }
        match read {
            None => false,
            Some(sample) => {
                let mapping = Mapping { gain: DIAL_SWEEP, offset: DIAL_REST_ANGLE };
                let mut i: usize = 0;
                while i < self.dials.len()
                    invariant
                        dt > 0,
                        i <= self.dials@.len(),
                        self.dials@.len() == old(self).dials@.len(),
                        mapping == dial_mapping(),
                        forall|j: int|
                            0 <= j < i ==> #[trigger] self.dials@[j]@ == dials_after(
                                old(self)@,
                                Some(sample@),
                                dt,
                            )[j],
                        forall|j: int|
                            i <= j < self.dials@.len() ==> #[trigger] self.dials@[j]@ == old(
                                self,
                            ).dials@[j]@,
                    decreases self.dials@.len() - i,
                {
                    match sample.ratio(Channel::Core(i)) {
                        Some(ratio) => {
                            let angle: i64 = mapping.apply(ratio);
                            self.dials[i].update(angle, dt);
                        },
                        None => {},
                    }
                    i = i + 1;
                }
                proof {
                    assert(self@ =~= dials_after(old(self)@, Some(sample@), dt));
                }
                true
            },
        }
    }

    /// One frame of `dt` microseconds against a store that other tasks share:
    /// tries the lock without waiting and, if it is free, drives the dials by
    /// what the store gives to a reader. If the lock is held, or the store
    /// has nothing to read, every dial holds. Returns whether a sample drove
    /// the dials.
    pub fn update(&mut self, shared: &Mutex<SnapshotStore>, dt: u64) -> (driven: bool)
        requires
            dt > 0,
        ensures
            final(self)@.len() == old(self)@.len(),
            in_place(old(self)@) ==> in_place(final(self)@),
            !driven ==> final(self)@ == old(self)@,
            driven ==> exists|sample: SampleView|
                sample.valid() && final(self)@ == #[trigger] dials_after(
                    old(self)@,
                    Some(sample),
                    dt,
                ),
    {
        match try_lock_store(shared) {
            None => false,
            Some(guard) => {
                let read = locked_store(&guard).try_read();
                self.drive(read, dt)
            },
        }
    }

    /// The number of dials.
    pub fn len(&self) -> (n: usize)
        ensures
            n == self@.len(),
    {
        self.dials.len()
    }

    /// Dial `i`, if the meter has that many.
    pub fn dial(&self, i: usize) -> (d: Option<&Dial>)
        ensures
            match d {
                Some(dial) => i < self@.len() && dial@ == self@[i as int],
                None => i >= self@.len(),
            },
    {
        if i < self.dials.len() {
            Some(&self.dials[i])
        } else {
            None
        }
    }

    /// The rotation that dial `i` shows, as Euler angles.
    pub fn rotation(&self, i: usize) -> (r: Option<Vector3>)
        ensures
            r == if i < self@.len() {
                Some(self@[i as int].filter.value)
            } else {
                None
            },
    {
        if i < self.dials.len() {
            Some(self.dials[i].rotation())
        } else {
            None
        }
    }
}

} // verus!
