//! Mixer tracks and their effect chains.
//!
//! A track owns an ordered chain of effect slots and a per-frame input
//! accumulator. Processing a track sums its accumulated input through the
//! chain, applies the track volume, and resets the accumulator.

use vstd::prelude::*;
use crate::fixed::{SCALE, scalar_ok, spec_clamp, spec_lerp, clamp_scalar, lerp};
use crate::frame::{Frame, frame_ok, spec_frame_add, spec_frame_scale};
use crate::value::{CachedValue, cached_ok, spec_cached_update, spec_sanitize_cached,
    sanitize_cached};
use crate::parameter::{Parameter, Parameters};
use crate::table::{Table, unique_keys, spec_index_of, spec_contains, spec_table_insert,
    spec_table_remove, lemma_index_of};

verus! {

#[derive(Clone, Copy, Debug, PartialEq, Eq, Structural)]
pub struct SubTrackId(pub u64);

/// Where audio is routed: the terminal main track or a sub-track.
#[derive(Clone, Copy, Debug, PartialEq, Eq, Structural)]
pub enum TrackIndex {
    Main,
    Sub(SubTrackId),
}

/// An effect id remembers the track it was added to, so that removal can
/// resolve the owning track without a search.
#[derive(Clone, Copy, Debug, PartialEq, Eq, Structural)]
pub struct EffectId {
    pub index: u64,
    pub track: TrackIndex,
}

impl EffectId {
    pub fn track_index(&self) -> (r: TrackIndex)
        ensures
            r == self.track,
    {
        self.track
    }
}

#[derive(Clone, Copy, Debug, PartialEq, Eq, Structural)]
pub struct TrackSettings {
    /// Fixed-point output volume of the track.
    pub volume: i64,
}

impl Default for TrackSettings {
    /// Unit volume.
    fn default() -> (r: TrackSettings)
        ensures
            r.volume == SCALE,
    {
        TrackSettings { volume: SCALE }
    }
}

#[derive(Clone, Copy, Debug, PartialEq, Eq, Structural)]
pub struct EffectSettings {
    pub enabled: bool,
    /// Wet/dry blend in `[0, SCALE]`: `SCALE` is fully wet.
    pub mix: i64,
}

impl Default for EffectSettings {
    /// Enabled, fully wet.
    fn default() -> (r: EffectSettings)
        ensures
            r.enabled,
            r.mix == SCALE,
    {
        EffectSettings { enabled: true, mix: SCALE }
    }
}

/// The slot a command payload builds: effect and mix clamped into range.
pub open spec fn spec_new_slot(effect: EffectKind, settings: EffectSettings) -> EffectSlot {
    EffectSlot {
        effect: spec_sanitize_effect(effect),
        enabled: settings.enabled,
        mix: (if settings.mix < 0 {
            0int
        } else if settings.mix > SCALE {
            SCALE as int
        } else {
            settings.mix as int
        }) as i64,
    }
}

/// The closed set of effect capabilities. Each resolves its control value
/// against the live parameters, then transforms the frame.
#[derive(Clone, Copy, Debug, PartialEq, Eq, Structural)]
pub enum EffectKind {
    /// Scales both channels by its resolved value.
    Gain(CachedValue),
    /// Adds its resolved value to both channels.
    Offset(CachedValue),
}

pub open spec fn effect_ok(e: EffectKind) -> bool {
    match e {
        EffectKind::Gain(cv) => cached_ok(cv),
        EffectKind::Offset(cv) => cached_ok(cv),
    }
}

pub open spec fn spec_sanitize_effect(e: EffectKind) -> EffectKind {
    match e {
        EffectKind::Gain(cv) => EffectKind::Gain(spec_sanitize_cached(cv)),
        EffectKind::Offset(cv) => EffectKind::Offset(spec_sanitize_cached(cv)),
    }
}

pub fn sanitize_effect(e: EffectKind) -> (r: EffectKind)
    ensures
        r == spec_sanitize_effect(e),
        effect_ok(r),
{
    match e {
        EffectKind::Gain(cv) => EffectKind::Gain(sanitize_cached(cv)),
        EffectKind::Offset(cv) => EffectKind::Offset(sanitize_cached(cv)),
    }
}

/// One effect transformation: resolve, then transform.
pub open spec fn spec_effect_process(e: EffectKind, f: Frame, ps: Seq<(u64, Parameter)>) -> (
    EffectKind,
    Frame,
) {
    match e {
        EffectKind::Gain(cv) => {
            let cv2 = spec_cached_update(cv, ps);
            (EffectKind::Gain(cv2), spec_frame_scale(f, cv2.cached as int))
        },
        EffectKind::Offset(cv) => {
            let cv2 = spec_cached_update(cv, ps);
            (EffectKind::Offset(cv2), spec_frame_add(f, Frame { left: cv2.cached, right: cv2.cached }))
        },
    }
}

/// A stateful effect plus its enable and mix settings.
#[derive(Clone, Copy, Debug, PartialEq, Eq, Structural)]
pub struct EffectSlot {
    pub effect: EffectKind,
    pub enabled: bool,
    pub mix: i64,
}

pub open spec fn slot_ok(s: EffectSlot) -> bool {
    effect_ok(s.effect) && 0 <= s.mix <= SCALE
}

/// A disabled slot passes the frame through untouched; an enabled one blends
/// the dry frame toward the effect's wet frame by `mix / SCALE`.
pub open spec fn spec_slot_process(s: EffectSlot, f: Frame, ps: Seq<(u64, Parameter)>) -> (
    EffectSlot,
    Frame,
) {
    if !s.enabled {
        (s, f)
    } else {
        let (e2, wet) = spec_effect_process(s.effect, f, ps);
        (
            EffectSlot { effect: e2, ..s },
            Frame {
                left: spec_lerp(f.left as int, wet.left as int, s.mix as int) as i64,
                right: spec_lerp(f.right as int, wet.right as int, s.mix as int) as i64,
            },
        )
    }
}

impl EffectSlot {
    /// Build a slot from a command payload, clamped into range.
    pub fn new(effect: EffectKind, settings: EffectSettings) -> (s: EffectSlot)
        ensures
            s == spec_new_slot(effect, settings),
            slot_ok(s),
    {
        let mix = if settings.mix < 0 {
            0
        } else if settings.mix > SCALE {
            SCALE
        } else {
            settings.mix
        };
        EffectSlot { effect: sanitize_effect(effect), enabled: settings.enabled, mix }
    }

    pub fn set_enabled(&mut self, enabled: bool)
        ensures
            *final(self) == (EffectSlot { enabled, ..*old(self) }),
    {
        self.enabled = enabled;
    }

    pub fn is_enabled(&self) -> (r: bool)
        ensures
            r == self.enabled,
    {
        self.enabled
    }

    /// Transform one frame; `dt` is the step the effect may integrate over.
    pub fn process(&mut self, f: Frame, dt: i64, parameters: &Parameters) -> (r: Frame)
        requires
            slot_ok(*old(self)),
            frame_ok(f),
            parameters.wf(),
        ensures
            (*final(self), r) == spec_slot_process(*old(self), f, parameters@),
            slot_ok(*final(self)),
            frame_ok(r),
    {
        let _ = dt;
        if !self.enabled {
            return f;
        }
        let wet: Frame;
        match &mut self.effect {
            EffectKind::Gain(cv) => {
                cv.update(parameters);
                wet = f.scale(cv.value());
            },
            EffectKind::Offset(cv) => {
                cv.update(parameters);
                wet = f.add(Frame::from_mono(cv.value()));
            },
        }
        Frame {
            left: lerp(f.left, wet.left, self.mix),
            right: lerp(f.right, wet.right, self.mix),
        }
    }
}

/// The spec-level value of a track.
pub struct TrackView {
    pub volume: i64,
    pub slots: Seq<(u64, EffectSlot)>,
    pub input: Frame,
}

pub open spec fn track_view_ok(tv: TrackView) -> bool {
    &&& scalar_ok(tv.volume as int)
    &&& frame_ok(tv.input)
    &&& unique_keys(tv.slots)
    &&& forall|i: int| 0 <= i < tv.slots.len() ==> slot_ok((#[trigger] tv.slots[i]).1)
}

/// The whole chain, first slot first, threading the frame through.
pub open spec fn spec_chain(slots: Seq<(u64, EffectSlot)>, f: Frame, ps: Seq<(u64, Parameter)>)
    -> (Seq<(u64, EffectSlot)>, Frame)
    decreases slots.len(),
{
    if slots.len() == 0 {
        (slots, f)
    } else {
        let (front, f1) = spec_chain(slots.drop_last(), f, ps);
        let (s2, f2) = spec_slot_process(slots.last().1, f1, ps);
        (front.push((slots.last().0, s2)), f2)
    }
}

/// One track-processing step: the accumulated input runs through the chain,
/// the track volume scales the result, and the accumulator resets.
pub open spec fn spec_track_process(tv: TrackView, ps: Seq<(u64, Parameter)>) -> (
    TrackView,
    Frame,
) {
    let (slots2, out) = spec_chain(tv.slots, tv.input, ps);
    (
        TrackView { volume: tv.volume, slots: slots2, input: Frame { left: 0, right: 0 } },
        spec_frame_scale(out, tv.volume as int),
    )
}

pub struct Track {
    volume: i64,
    effect_slots: Table<EffectSlot>,
    input: Frame,
}

impl View for Track {
    type V = TrackView;

    closed spec fn view(&self) -> TrackView {
        TrackView { volume: self.volume, slots: self.effect_slots@, input: self.input }
    }
}

impl Track {
    pub fn new(settings: TrackSettings) -> (t: Track)
        ensures
            t@.volume == spec_clamp(settings.volume as int),
            t@.slots == Seq::<(u64, EffectSlot)>::empty(),
            t@.input == (Frame { left: 0i64, right: 0i64 }),
            track_view_ok(t@),
    {
        Track { volume: clamp_scalar(settings.volume), effect_slots: Table::new(), input: Frame::zero() }
    }

    /// Append (or replace) the effect stored under `id.index`.
    pub fn add_effect(&mut self, id: EffectId, effect: EffectKind, settings: EffectSettings)
        requires
            track_view_ok(old(self)@),
        ensures
            final(self)@.slots == spec_table_insert(
                old(self)@.slots,
                id.index,
                spec_new_slot(effect, settings),
            ),
            final(self)@.volume == old(self)@.volume,
            final(self)@.input == old(self)@.input,
            track_view_ok(final(self)@),
    {
        let slot = EffectSlot::new(effect, settings);
        self.effect_slots.insert(id.index, slot);
        proof {
            let s = old(self)@.slots;
            let i = spec_index_of(s, id.index);
            lemma_index_of(s, id.index);
            assert forall|j: int| 0 <= j < self@.slots.len() implies slot_ok(
                (#[trigger] self@.slots[j]).1,
            ) by {
                if i >= 0 {
                    if j != i {
                        assert(self@.slots[j] == s[j]);
                    }
                } else {
                    if j < s.len() {
                        assert(self@.slots[j] == s[j]);
                    }
                }
            }
        }
    }

    /// Remove the effect stored under `id.index`, handing the vacated slot
    /// back; a stale id is a no-op.
    pub fn remove_effect(&mut self, id: EffectId) -> (r: Option<EffectSlot>)
        requires
            track_view_ok(old(self)@),
        ensures
            final(self)@.slots == spec_table_remove(old(self)@.slots, id.index),
            r == if spec_contains(old(self)@.slots, id.index) {
                Some(old(self)@.slots[spec_index_of(old(self)@.slots, id.index)].1)
            } else {
                None::<EffectSlot>
            },
            final(self)@.volume == old(self)@.volume,
            final(self)@.input == old(self)@.input,
            track_view_ok(final(self)@),
    {
        let r = self.effect_slots.remove(id.index);
        proof {
            let s = old(self)@.slots;
            let i = spec_index_of(s, id.index);
            lemma_index_of(s, id.index);
            assert forall|j: int| 0 <= j < self@.slots.len() implies slot_ok(
                (#[trigger] self@.slots[j]).1,
            ) by {
                if i >= 0 {
                    if j < i {
                        assert(self@.slots[j] == s[j]);
                    } else {
                        assert(self@.slots[j] == s[j + 1]);
                    }
                }
            }
        }
        r
    }

    /// Accumulate one input frame.
    pub fn add_input(&mut self, f: Frame)
        requires
            track_view_ok(old(self)@),
            frame_ok(f),
        ensures
            final(self)@ == (TrackView {
                input: spec_frame_add(old(self)@.input, f),
                ..old(self)@
            }),
            track_view_ok(final(self)@),
    {
        self.input = self.input.add(f);
    }

    /// Run the accumulated input through the chain and reset the
    /// accumulator.
    pub fn process(&mut self, dt: i64, parameters: &Parameters) -> (r: Frame)
        requires
            track_view_ok(old(self)@),
            parameters.wf(),
        ensures
            (final(self)@, r) == spec_track_process(old(self)@, parameters@),
            track_view_ok(final(self)@),
            frame_ok(r),
    {
        let mut f = self.input;
        self.input = Frame::zero();
        let n = self.effect_slots.len();
        let mut i: usize = 0;
        while i < n
            invariant
                parameters.wf(),
                n == old(self)@.slots.len(),
                i <= n,
                self@.slots.len() == n,
                self@.volume == old(self)@.volume,
                self@.input == (Frame { left: 0i64, right: 0i64 }),
                frame_ok(f),
                track_view_ok(old(self)@),
                (self@.slots.take(i as int), f) == spec_chain(
                    old(self)@.slots.take(i as int),
                    old(self)@.input,
                    parameters@,
                ),
                forall|j: int| i <= j < n ==> #[trigger] self@.slots[j] == old(self)@.slots[j],
                forall|j: int| 0 <= j < i ==> slot_ok((#[trigger] self@.slots[j]).1),
            decreases n - i,
        {
            proof {
                assert(old(self)@.slots.take(i + 1).drop_last() =~= old(self)@.slots.take(
                    i as int,
                ));
                assert(old(self)@.slots.take(i + 1).last() == old(self)@.slots[i as int]);
            }
            let ghost prev_slots = self@.slots;
            let ghost prev_f = f;
            let slot = self.effect_slots.value_at_mut(i);
            f = slot.process(f, dt, parameters);
            proof {
                assert(self@.slots.take(i + 1) =~= prev_slots.take(i as int).push(
                    self@.slots[i as int],
                ));
            }
            i += 1;
        }
        proof {
            assert(self@.slots.take(n as int) =~= self@.slots);
            assert(old(self)@.slots.take(n as int) =~= old(self)@.slots);
        }
        let out = f.scale(self.volume);
        proof {
            assert(final(self)@ == (TrackView {
                volume: old(self)@.volume,
                slots: spec_chain(old(self)@.slots, old(self)@.input, parameters@).0,
                input: Frame { left: 0i64, right: 0i64 },
            }));
            assert forall|a: int, b: int| 0 <= a < b < self@.slots.len() implies self@.slots[a].0
                != self@.slots[b].0 by {
                lemma_chain_keys(old(self)@.slots, old(self)@.input, parameters@);
            }
        }
        out
    }
}

/// The chain keeps ids and order.
pub proof fn lemma_chain_keys(slots: Seq<(u64, EffectSlot)>, f: Frame, ps: Seq<(u64, Parameter)>)
    ensures
        spec_chain(slots, f, ps).0.len() == slots.len(),
        forall|i: int|
            0 <= i < slots.len() ==> (#[trigger] spec_chain(slots, f, ps).0[i]).0 == slots[i].0,
    decreases slots.len(),
{
    if slots.len() > 0 {
        lemma_chain_keys(slots.drop_last(), f, ps);
    }
}

} // verus!
