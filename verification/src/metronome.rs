//! The metronome: a tempo clock with interval-crossing detection.
//!
//! Beat time is a fixed-point count of beats. While ticking, each update
//! advances beat time by `tempo / 60 * dt` and emits, in registration order,
//! every configured interval whose boundary was crossed.

use vstd::prelude::*;
use crate::fixed::{SCALE, SCALAR_MAX, TIME_MAX, add_time_saturating, mul_div_nn};

use crate::value::{Value, CachedValue, spec_cached_update, cached_ok};
use crate::parameter::{Parameter, Parameters};
use crate::command::MetronomeCommand;

verus! {

/// The tempo a fresh metronome resolves to before its first update: 120
/// beats per minute.
pub const DEFAULT_TEMPO: i64 = 120 * SCALE;

#[derive(Clone, Debug)]
pub struct MetronomeSettings {
    /// The tempo of the metronome, in fixed-point beats per minute.
    pub tempo: Value,
    /// Which intervals (in fixed-point beats) the metronome emits events
    /// for, in registration order.
    pub interval_events_to_emit: Vec<i64>,
}

impl Default for MetronomeSettings {
    /// 120 beats per minute, no interval events.
    fn default() -> (r: MetronomeSettings)
        ensures
            r.tempo == Value::Fixed(DEFAULT_TEMPO),
            r.interval_events_to_emit@ == Seq::<i64>::empty(),
    {
        MetronomeSettings { tempo: Value::Fixed(DEFAULT_TEMPO), interval_events_to_emit: Vec::new() }
    }
}

#[derive(Clone, Debug)]
pub struct Metronome {
    pub tempo: CachedValue,
    pub interval_events_to_emit: Vec<i64>,
    pub ticking: bool,
    pub time: i64,
    pub previous_time: i64,
}

pub open spec fn metronome_ok(m: Metronome) -> bool {
    &&& cached_ok(m.tempo)
    &&& 0 <= m.time <= TIME_MAX
    &&& 0 <= m.previous_time <= TIME_MAX
    &&& forall|i: int|
        0 <= i < m.interval_events_to_emit@.len() ==> 0 < #[trigger] m.interval_events_to_emit@[i]
            <= SCALAR_MAX
}

/// The crossing rule: moving from beat time `prev` to `t`, the interval `i`
/// fires when `prev mod i` exceeds `t mod i`; a previous time of zero always
/// counts, so every interval fires once at the first tick after a start from
/// zero.
///
/// Boundary choice: when `t` lands exactly on a multiple of `i` the rule
/// fires on this update (`t mod i` is zero), and when `prev` sits exactly on
/// a multiple (other than zero) the rule cannot fire before `t` passes the
/// next one. In exact fixed-point arithmetic these landings really occur —
/// for instance, a run of sub-interval steps covering exactly four beats
/// emits the interval `1.0` five times, for the boundaries at beats 0
/// (first tick), 1, 2, 3 and 4 — whereas rounding would usually stop just
/// short of the last boundary and emit four. The counting law below makes
/// the count exact: `floor(beats / i) + 1` for every run of positive
/// sub-interval steps.
pub open spec fn spec_crossed(prev: int, t: int, i: int) -> bool
    recommends
        i > 0,
{
    prev == 0 || prev % i > t % i
}

/// The configured intervals that fire between `prev` and `t`, in
/// registration order.
pub open spec fn spec_crossings(intervals: Seq<i64>, prev: int, t: int) -> Seq<i64>
    decreases intervals.len(),
{
    if intervals.len() == 0 {
        Seq::empty()
    } else {
        let rest = spec_crossings(intervals.drop_last(), prev, t);
        if spec_crossed(prev, t, intervals.last() as int) {
            rest.push(intervals.last())
        } else {
            rest
        }
    }
}

/// A negative resolved tempo does not run the clock backwards: the beat rate
/// is the tempo floored at zero.
pub open spec fn spec_tempo_rate(tempo: int) -> int {
    if tempo < 0 {
        0
    } else {
        tempo
    }
}

/// Beats (fixed-point) gained over `dt` at the given tempo.
pub open spec fn spec_beat_delta(tempo: int, dt: int) -> int {
    (spec_tempo_rate(tempo) * dt) / ((60 * SCALE) as int)
}

pub open spec fn spec_advance_time(t: int, tempo: int, dt: int) -> int {
    let d = spec_beat_delta(tempo, dt);
    if t + d <= TIME_MAX as int {
        t + d
    } else {
        TIME_MAX as int
    }
}

/// The intervals kept from the settings: positive and in scalar range.
pub open spec fn spec_keep_intervals(s: Seq<i64>) -> Seq<i64>
    decreases s.len(),
{
    if s.len() == 0 {
        Seq::empty()
    } else {
        let rest = spec_keep_intervals(s.drop_last());
        if 0 < s.last() <= SCALAR_MAX {
            rest.push(s.last())
        } else {
            rest
        }
    }
}

/// What one command does to the metronome. Start and pause keep the beat
/// time; stop resets it to zero.
pub open spec fn spec_metronome_apply(m: Metronome, cmd: MetronomeCommand) -> Metronome {
    match cmd {
        MetronomeCommand::SetMetronomeTempo(v) => Metronome {
            tempo: CachedValue {
                value: crate::value::spec_sanitize_value(v),
                cached: m.tempo.cached,
            },
            ..m
        },
        MetronomeCommand::StartMetronome => Metronome { ticking: true, ..m },
        MetronomeCommand::PauseMetronome => Metronome { ticking: false, ..m },
        MetronomeCommand::StopMetronome => Metronome {
            ticking: false,
            time: 0,
            previous_time: 0,
            ..m
        },
    }
}

/// One update step: the tempo is resolved first; while ticking, beat time
/// advances and the crossed intervals are emitted.
pub open spec fn spec_metronome_update(m: Metronome, ps: Seq<(u64, Parameter)>, dt: int) -> (
    Metronome,
    Seq<i64>,
) {
    let tempo2 = spec_cached_update(m.tempo, ps);
    if m.ticking {
        let t2 = spec_advance_time(m.time as int, tempo2.cached as int, dt);
        (
            Metronome { tempo: tempo2, time: t2 as i64, previous_time: m.time, ..m },
            spec_crossings(m.interval_events_to_emit@, m.time as int, t2),
        )
    } else {
        (Metronome { tempo: tempo2, ..m }, Seq::empty())
    }
}

impl Metronome {
    pub fn new(settings: MetronomeSettings) -> (m: Metronome)
        ensures
            m.tempo == (CachedValue { value: settings.tempo, cached: DEFAULT_TEMPO }),
            m.interval_events_to_emit@ == spec_keep_intervals(settings.interval_events_to_emit@),
            !m.ticking,
            m.time == 0,
            m.previous_time == 0,
            crate::value::value_ok(settings.tempo) ==> metronome_ok(m),
    {
        let src = settings.interval_events_to_emit;
        let mut kept: Vec<i64> = Vec::new();
        let n = src.len();
        let mut i: usize = 0;
        while i < n
            invariant
                n == src@.len(),
                i <= n,
                kept@ == spec_keep_intervals(src@.take(i as int)),
                forall|j: int| 0 <= j < kept@.len() ==> 0 < #[trigger] kept@[j] <= SCALAR_MAX,
            decreases n - i,
        {
            let x = src[i];
            proof {
                assert(src@.take(i + 1).drop_last() =~= src@.take(i as int));
                assert(src@.take(i + 1).last() == src@[i as int]);
            }
            if 0 < x && x <= SCALAR_MAX {
                kept.push(x);
            }
            i += 1;
        }
        proof {
            assert(src@.take(n as int) =~= src@);
        }
        Metronome {
            tempo: CachedValue::new(settings.tempo, DEFAULT_TEMPO),
            interval_events_to_emit: kept,
            ticking: false,
            time: 0,
            previous_time: 0,
        }
    }

    /// The tempo the rest of the engine sees: zero when not ticking.
    pub fn effective_tempo(&self) -> (r: i64)
        ensures
            r == if self.ticking {
                self.tempo.cached
            } else {
                0i64
            },
    {
        if self.ticking {
            self.tempo.value()
        } else {
            0
        }
    }

    pub fn start(&mut self)
        ensures
            *final(self) == (Metronome { ticking: true, ..*old(self) }),
    {
        self.ticking = true;
    }

    pub fn pause(&mut self)
        ensures
            *final(self) == (Metronome { ticking: false, ..*old(self) }),
    {
        self.ticking = false;
    }

    pub fn stop(&mut self)
        ensures
            *final(self) == (Metronome {
                ticking: false,
                time: 0,
                previous_time: 0,
                ..*old(self)
            }),
    {
        self.ticking = false;
        self.time = 0;
        self.previous_time = 0;
    }

    pub fn run_command(&mut self, command: MetronomeCommand)
        requires
            metronome_ok(*old(self)),
        ensures
            *final(self) == spec_metronome_apply(*old(self), command),
            metronome_ok(*final(self)),
    {
        match command {
            MetronomeCommand::SetMetronomeTempo(tempo) => {
                self.tempo.set(crate::value::sanitize_value(tempo));
            },
            MetronomeCommand::StartMetronome => self.start(),
            MetronomeCommand::PauseMetronome => self.pause(),
            MetronomeCommand::StopMetronome => self.stop(),
        }
    }

    /// Whether the last update crossed a boundary of `interval`.
    pub fn interval_passed(&self, interval: i64) -> (r: bool)
        requires
            0 < interval,
            0 <= self.time,
            0 <= self.previous_time,
        ensures
            r == (self.ticking && spec_crossed(
                self.previous_time as int,
                self.time as int,
                interval as int,
            )),
    {
        if !self.ticking {
            return false;
        }
        if self.previous_time == 0 {
            return true;
        }
        (self.previous_time % interval) > (self.time % interval)
    }

    /// One per-frame update. Returns the crossed intervals, in registration
    /// order.
    pub fn update(&mut self, dt: i64, parameters: &Parameters) -> (emitted: Vec<i64>)
        requires
            metronome_ok(*old(self)),
            0 <= dt <= SCALAR_MAX,
            parameters.wf(),
        ensures
            (*final(self), emitted@) == spec_metronome_update(*old(self), parameters@, dt as int),
            metronome_ok(*final(self)),
    {
        self.tempo.update(parameters);
        let mut emitted: Vec<i64> = Vec::new();
        if self.ticking {
            self.previous_time = self.time;
            let tempo = self.tempo.value();
            let rate = if tempo < 0 {
                0
            } else {
                tempo
            };
            let delta = mul_div_nn(rate, dt, 60 * SCALE);
            proof {
                assert(rate as int * dt as int <= TIME_MAX as int) by (nonlinear_arith)
                    requires
                        0 <= rate as int <= SCALAR_MAX as int,
                        0 <= dt as int <= SCALAR_MAX as int,
                ;
            }
            self.time = add_time_saturating(self.time, delta);
            let n = self.interval_events_to_emit.len();
            let mut i: usize = 0;
            while i < n
                invariant
                    n == self.interval_events_to_emit@.len(),
                    i <= n,
                    0 <= self.previous_time,
                    0 <= self.time,
                    forall|j: int|
                        0 <= j < n ==> 0 < #[trigger] self.interval_events_to_emit@[j]
                            <= SCALAR_MAX,
                    emitted@ == spec_crossings(
                        self.interval_events_to_emit@.take(i as int),
                        self.previous_time as int,
                        self.time as int,
                    ),
                    self.ticking,
                decreases n - i,
            {
                let interval = self.interval_events_to_emit[i];
                proof {
                    assert(self.interval_events_to_emit@.take(i + 1).drop_last()
                        =~= self.interval_events_to_emit@.take(i as int));
                    assert(self.interval_events_to_emit@.take(i + 1).last()
                        == self.interval_events_to_emit@[i as int]);
                }
                if self.interval_passed(interval) {
                    emitted.push(interval);
                }
                i += 1;
            }
            proof {
                assert(self.interval_events_to_emit@.take(n as int)
                    =~= self.interval_events_to_emit@);
            }
        }
        emitted
    }
}

/// With a single configured interval, one update emits it exactly when
/// the crossing rule fires: the link between an update's emission list and
/// the counting law below.
pub proof fn lemma_crossings_single(i: i64, prev: int, t: int)
    ensures
        spec_crossings(seq![i], prev, t) == if spec_crossed(prev, t, i as int) {
            seq![i]
        } else {
            Seq::<i64>::empty()
        },
{
    assert(seq![i].drop_last() =~= Seq::<i64>::empty());
    assert(seq![i].last() == i);
    assert(spec_crossings(Seq::<i64>::empty(), prev, t) == Seq::<i64>::empty());
    assert(Seq::<i64>::empty().push(i) =~= seq![i]);
}

/// Crossing detection is exact for sub-interval steps: when beat time moves
/// from `prev` to `t` with `0 < prev <= t` and `t - prev < i`, the interval
/// fires exactly when a new multiple of `i` was reached, that is, when the
/// whole number of elapsed intervals grew by one.
pub proof fn lemma_crossed_iff_new_multiple(prev: int, t: int, i: int)
    requires
        0 < i,
        0 < prev <= t,
        t - prev < i,
    ensures
        spec_crossed(prev, t, i) <==> t / i == prev / i + 1,
        !spec_crossed(prev, t, i) <==> t / i == prev / i,
{
    vstd::arithmetic::div_mod::lemma_fundamental_div_mod(prev, i);
    vstd::arithmetic::div_mod::lemma_fundamental_div_mod(t, i);
    vstd::arithmetic::div_mod::lemma_mod_bound(prev, i);
    vstd::arithmetic::div_mod::lemma_mod_bound(t, i);
    vstd::arithmetic::div_mod::lemma_div_is_ordered(prev, t, i);
    let qp = prev / i;
    let rp = prev % i;
    let qt = t / i;
    let rt = t % i;
    assert(t - prev == i * (qt - qp) + rt - rp) by (nonlinear_arith)
        requires
            prev == i * qp + rp,
            t == i * qt + rt,
    ;
    if qt == qp {
        assert(rt - rp == t - prev);
        assert(!spec_crossed(prev, t, i));
    } else {
        assert(qt > qp);
        assert(i * (qt - qp) >= i) by (nonlinear_arith)
            requires
                qt - qp >= 1,
                i > 0,
        ;
        assert(rp > rt);
        assert(i * (qt - qp) < 2 * i);
        assert(qt - qp < 2) by (nonlinear_arith)
            requires
                i * (qt - qp) < 2 * i,
                i > 0,
        ;
        assert(qt == qp + 1);
        assert(spec_crossed(prev, t, i));
    }
}

/// The number of updates in a run that fire the interval `i`, given the
/// successive beat times the run passes through.
pub open spec fn spec_fire_count(times: Seq<int>, i: int) -> int
    decreases times.len(),
{
    if times.len() < 2 {
        0
    } else {
        spec_fire_count(times.drop_last(), i) + (if spec_crossed(
            times[times.len() - 2],
            times[times.len() - 1],
            i,
        ) {
            1int
        } else {
            0int
        })
    }
}

/// Event-count law: over a run that starts at beat time zero and advances by
/// a positive amount smaller than `i` on every update, the events fired for
/// the interval `i` number exactly `floor(final_beats / i) + 1` — within one
/// of the ideal count `floor(final_beats / i)`, the first update firing once
/// unconditionally.
pub proof fn lemma_fire_count_exact(times: Seq<int>, i: int)
    requires
        0 < i,
        times.len() >= 2,
        times[0] == 0,
        forall|k: int|
            0 <= k < times.len() - 1 ==> #[trigger] times[k] < times[k + 1] && times[k + 1]
                - times[k] < i,
    ensures
        spec_fire_count(times, i) == times.last() / i + 1,
        times.last() > 0,
    decreases times.len(),
{
    if times.len() == 2 {
        assert(spec_crossed(times[0], times[1], i));
        assert(0 < times[1] < i);
        vstd::arithmetic::div_mod::lemma_basic_div(times[1], i);
        assert(spec_fire_count(times, i) == spec_fire_count(times.drop_last(), i) + 1);
        assert(spec_fire_count(times.drop_last(), i) == 0);
    } else {
        let prefix = times.drop_last();
        assert(prefix[0] == 0);
        assert(forall|k: int|
            0 <= k < prefix.len() - 1 ==> #[trigger] prefix[k] < prefix[k + 1] && prefix[k + 1]
                - prefix[k] < i) by {
            assert(forall|k: int|
                0 <= k < prefix.len() ==> #[trigger] prefix[k] == times[k]);
        }
        lemma_fire_count_exact(prefix, i);
        let p = times[times.len() - 2];
        let t = times[times.len() - 1];
        assert(p == prefix.last());
        assert(p > 0);
        assert(p < t && t - p < i);
        lemma_crossed_iff_new_multiple(p, t, i);
        if spec_crossed(p, t, i) {
            assert(spec_fire_count(times, i) == (p / i + 1) + 1);
            assert(t / i == p / i + 1);
        } else {
            assert(spec_fire_count(times, i) == p / i + 1);
            assert(t / i == p / i);
        }
    }
}

} // verus!
