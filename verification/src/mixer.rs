//! The mixer: a fixed two-level track graph.
//!
//! A main track plus a registry of sub-tracks; no cross-sub-track routing.
//! Every processing step sums each sub-track through its effect chain into
//! the main track, then runs the main track's own chain, yielding the
//! engine's single output frame.

use vstd::prelude::*;
use crate::fixed::spec_clamp;
use crate::frame::{Frame, frame_ok, spec_frame_add};
use crate::parameter::{Parameter, Parameters};
use crate::track::{Track, TrackView, TrackSettings, TrackIndex, SubTrackId, EffectId, EffectSlot,
    track_view_ok, spec_track_process, spec_new_slot};
use crate::table::{Table, unique_keys, spec_index_of, spec_contains, spec_table_insert,
    spec_table_remove, lemma_index_of};
use crate::command::MixerCommand;
use crate::channel::channel_push;

verus! {

/// The spec-level value of the mixer.
pub struct MixerView {
    pub main: TrackView,
    pub subs: Seq<(u64, TrackView)>,
}

pub open spec fn mixer_view_ok(mv: MixerView) -> bool {
    &&& track_view_ok(mv.main)
    &&& unique_keys(mv.subs)
    &&& forall|i: int| 0 <= i < mv.subs.len() ==> track_view_ok((#[trigger] mv.subs[i]).1)
}

/// A fresh sub-track built from command settings.
pub open spec fn spec_new_track(settings: TrackSettings) -> TrackView {
    TrackView {
        volume: spec_clamp(settings.volume as int) as i64,
        slots: Seq::empty(),
        input: Frame { left: 0, right: 0 },
    }
}

/// What one command does to the mixer. A stale track or effect id degrades
/// to a no-op; removal hands the removed resource to a reclamation channel,
/// which the view does not record.
pub open spec fn spec_mixer_apply(mv: MixerView, cmd: MixerCommand) -> MixerView {
    match cmd {
        MixerCommand::AddSubTrack(id, settings) => MixerView {
            main: mv.main,
            subs: spec_table_insert(mv.subs, id.0, spec_new_track(settings)),
        },
        MixerCommand::RemoveSubTrack(id) => MixerView {
            main: mv.main,
            subs: spec_table_remove(mv.subs, id.0),
        },
        MixerCommand::AddEffect(index, id, effect, settings) => match index {
            TrackIndex::Main => MixerView {
                main: TrackView {
                    slots: spec_table_insert(mv.main.slots, id.index, spec_new_slot(effect, settings)),
                    ..mv.main
                },
                subs: mv.subs,
            },
            TrackIndex::Sub(sid) => {
                let i = spec_index_of(mv.subs, sid.0);
                if i >= 0 {
                    MixerView {
                        main: mv.main,
                        subs: mv.subs.update(
                            i,
                            (
                                sid.0,
                                TrackView {
                                    slots: spec_table_insert(
                                        mv.subs[i].1.slots,
                                        id.index,
                                        spec_new_slot(effect, settings),
                                    ),
                                    ..mv.subs[i].1
                                },
                            ),
                        ),
                    }
                } else {
                    mv
                }
            },
        },
        MixerCommand::RemoveEffect(eid) => match eid.track {
            TrackIndex::Main => MixerView {
                main: TrackView { slots: spec_table_remove(mv.main.slots, eid.index), ..mv.main },
                subs: mv.subs,
            },
            TrackIndex::Sub(sid) => {
                let i = spec_index_of(mv.subs, sid.0);
                if i >= 0 {
                    MixerView {
                        main: mv.main,
                        subs: mv.subs.update(
                            i,
                            (
                                sid.0,
                                TrackView {
                                    slots: spec_table_remove(mv.subs[i].1.slots, eid.index),
                                    ..mv.subs[i].1
                                },
                            ),
                        ),
                    }
                } else {
                    mv
                }
            },
        },
    }
}

/// Routing one input frame: an unknown sub-track id falls back to the main
/// track, so no audio is ever dropped.
pub open spec fn spec_mixer_add_input(mv: MixerView, index: TrackIndex, f: Frame) -> MixerView {
    match index {
        TrackIndex::Main => MixerView {
            main: TrackView { input: spec_frame_add(mv.main.input, f), ..mv.main },
            subs: mv.subs,
        },
        TrackIndex::Sub(sid) => {
            let i = spec_index_of(mv.subs, sid.0);
            if i >= 0 {
                MixerView {
                    main: mv.main,
                    subs: mv.subs.update(
                        i,
                        (
                            sid.0,
                            TrackView {
                                input: spec_frame_add(mv.subs[i].1.input, f),
                                ..mv.subs[i].1
                            },
                        ),
                    ),
                }
            } else {
                MixerView {
                    main: TrackView { input: spec_frame_add(mv.main.input, f), ..mv.main },
                    subs: mv.subs,
                }
            }
        },
    }
}

/// All sub-tracks processed in registration order; their outputs summed.
pub open spec fn spec_subs_process(subs: Seq<(u64, TrackView)>, ps: Seq<(u64, Parameter)>) -> (
    Seq<(u64, TrackView)>,
    Frame,
)
    decreases subs.len(),
{
    if subs.len() == 0 {
        (subs, Frame { left: 0, right: 0 })
    } else {
        let (front, acc) = spec_subs_process(subs.drop_last(), ps);
        let (tv2, out) = spec_track_process(subs.last().1, ps);
        (front.push((subs.last().0, tv2)), spec_frame_add(acc, out))
    }
}

/// One mixer step: sub-tracks feed the main track, which produces the
/// engine's output frame.
pub open spec fn spec_mixer_process(mv: MixerView, ps: Seq<(u64, Parameter)>) -> (
    MixerView,
    Frame,
) {
    let (subs2, sum) = spec_subs_process(mv.subs, ps);
    let main1 = TrackView { input: spec_frame_add(mv.main.input, sum), ..mv.main };
    let (main2, out) = spec_track_process(main1, ps);
    (MixerView { main: main2, subs: subs2 }, out)
}

pub struct Mixer {
    main_track: Track,
    sub_tracks: Table<Track>,
}

impl View for Mixer {
    type V = MixerView;

    closed spec fn view(&self) -> MixerView {
        MixerView {
            main: self.main_track@,
            subs: self.sub_tracks@.map(|i: int, e: (u64, Track)| (e.0, e.1@)),
        }
    }
}

impl Mixer {
    pub fn new() -> (m: Mixer)
        ensures
            m@.main == spec_new_track(TrackSettings { volume: crate::fixed::SCALE }),
            m@.subs == Seq::<(u64, TrackView)>::empty(),
            mixer_view_ok(m@),
    {
        let m = Mixer { main_track: Track::new(TrackSettings { volume: crate::fixed::SCALE }), sub_tracks: Table::new() };
        proof {
            assert(m@.subs =~= Seq::<(u64, TrackView)>::empty());
        }
        m
    }

    /// Apply one mixer command. A removed sub-track or effect slot moves to
    /// its reclamation channel instead of being dropped in place; a stale id
    /// is a silent no-op.
    pub fn run_command(
        &mut self,
        command: MixerCommand,
        tracks_to_unload_producer: &mut ringbuf::Producer<Track>,
        effect_slots_to_unload_producer: &mut ringbuf::Producer<EffectSlot>,
    )
        requires
            mixer_view_ok(old(self)@),
        ensures
            final(self)@ == spec_mixer_apply(old(self)@, command),
            mixer_view_ok(final(self)@),
    {
        match command {
            MixerCommand::AddSubTrack(id, settings) => {
                proof {
                    lemma_index_of_map(self.sub_tracks@, id.0);
                    lemma_index_of(self.sub_tracks@, id.0);
                }
                let t = Track::new(settings);
                self.sub_tracks.insert(id.0, t);
                proof {
                    let s = old(self)@.subs;
                    let olds = old(self).sub_tracks@;
                    let i = spec_index_of(olds, id.0);
                    lemma_map_pointwise(self.sub_tracks@);
                    lemma_map_pointwise(olds);
                    assert(self@.subs =~= spec_table_insert(s, id.0, spec_new_track(settings)));
                    assert forall|j: int| 0 <= j < self@.subs.len() implies track_view_ok(
                        (#[trigger] self@.subs[j]).1,
                    ) by {
                        if i >= 0 {
                            if j != i {
                                assert(self@.subs[j] == s[j]);
                            }
                        } else {
                            if j < s.len() {
                                assert(self@.subs[j] == s[j]);
                            }
                        }
                    }
                    lemma_unique_map(self.sub_tracks@);
                }
            },
            MixerCommand::RemoveSubTrack(id) => {
                proof {
                    lemma_index_of_map(self.sub_tracks@, id.0);
                    lemma_index_of(self.sub_tracks@, id.0);
                    lemma_map_pointwise(old(self).sub_tracks@);
                }
                let removed = self.sub_tracks.remove(id.0);
                match removed {
                    Some(track) => {
                        let _ = channel_push(tracks_to_unload_producer, track);
                    },
                    None => {},
                }
                proof {
                    let s = old(self)@.subs;
                    let olds = old(self).sub_tracks@;
                    let i = spec_index_of(olds, id.0);
                    lemma_map_pointwise(self.sub_tracks@);
                    assert(self@.subs =~= spec_table_remove(s, id.0));
                    assert forall|j: int| 0 <= j < self@.subs.len() implies track_view_ok(
                        (#[trigger] self@.subs[j]).1,
                    ) by {
                        if i >= 0 {
                            if j < i {
                                assert(self@.subs[j] == s[j]);
                            } else {
                                assert(self@.subs[j] == s[j + 1]);
                            }
                        }
                    }
                    lemma_unique_map(self.sub_tracks@);
                }
            },
            MixerCommand::AddEffect(index, id, effect, settings) => {
                match index {
                    TrackIndex::Main => {
                        self.main_track.add_effect(id, effect, settings);
                    },
                    TrackIndex::Sub(sid) => {
                        proof {
                            lemma_index_of_map(self.sub_tracks@, sid.0);
                        }
                        match self.sub_tracks.index_of(sid.0) {
                            Some(i) => {
                                proof {
                                    lemma_index_of(self.sub_tracks@, sid.0);
                                    lemma_map_pointwise(self.sub_tracks@);
                                    assert(track_view_ok(self@.subs[i as int].1));
                                }
                                let track = self.sub_tracks.value_at_mut(i);
                                track.add_effect(id, effect, settings);
                                proof {
                                    lemma_map_pointwise(self.sub_tracks@);
                                    lemma_map_pointwise(old(self).sub_tracks@);
                                    assert(self@.subs =~= spec_mixer_apply(
                                        old(self)@,
                                        command,
                                    ).subs);
                                    assert forall|j: int|
                                        0 <= j < self@.subs.len() implies track_view_ok(
                                        (#[trigger] self@.subs[j]).1,
                                    ) by {
                                        if j != i as int {
                                            assert(self@.subs[j] == old(self)@.subs[j]);
                                        }
                                    }
                                    lemma_unique_map(self.sub_tracks@);
                                }
                            },
                            None => {},
                        }
                    },
                }
            },
            MixerCommand::RemoveEffect(effect_id) => {
                match effect_id.track_index() {
                    TrackIndex::Main => {
                        match self.main_track.remove_effect(effect_id) {
                            Some(slot) => {
                                let _ = channel_push(effect_slots_to_unload_producer, slot);
                            },
                            None => {},
                        }
                    },
                    TrackIndex::Sub(sid) => {
                        proof {
                            lemma_index_of_map(self.sub_tracks@, sid.0);
                        }
                        match self.sub_tracks.index_of(sid.0) {
                            Some(i) => {
                                proof {
                                    lemma_index_of(self.sub_tracks@, sid.0);
                                    lemma_map_pointwise(self.sub_tracks@);
                                    assert(track_view_ok(self@.subs[i as int].1));
                                }
                                let track = self.sub_tracks.value_at_mut(i);
                                let removed = track.remove_effect(effect_id);
                                match removed {
                                    Some(slot) => {
                                        let _ = channel_push(effect_slots_to_unload_producer, slot);
                                    },
                                    None => {},
                                }
                                proof {
                                    lemma_map_pointwise(self.sub_tracks@);
                                    lemma_map_pointwise(old(self).sub_tracks@);
                                    assert(self@.subs =~= spec_mixer_apply(
                                        old(self)@,
                                        command,
                                    ).subs);
                                    assert forall|j: int|
                                        0 <= j < self@.subs.len() implies track_view_ok(
                                        (#[trigger] self@.subs[j]).1,
                                    ) by {
                                        if j != i as int {
                                            assert(self@.subs[j] == old(self)@.subs[j]);
                                        }
                                    }
                                    lemma_unique_map(self.sub_tracks@);
                                }
                            },
                            None => {},
                        }
                    },
                }
            },
        }
    }

    /// Route one frame of audio into the addressed track's accumulator,
    /// falling back to the main track on an unknown sub-track id.
    pub fn add_input(&mut self, index: TrackIndex, input: Frame)
        requires
            mixer_view_ok(old(self)@),
            frame_ok(input),
        ensures
            final(self)@ == spec_mixer_add_input(old(self)@, index, input),
            mixer_view_ok(final(self)@),
    {
        match index {
            TrackIndex::Main => {
                self.main_track.add_input(input);
            },
            TrackIndex::Sub(sid) => {
                proof {
                    lemma_index_of_map(self.sub_tracks@, sid.0);
                }
                match self.sub_tracks.index_of(sid.0) {
                    Some(i) => {
                        proof {
                            lemma_index_of(self.sub_tracks@, sid.0);
                            lemma_map_pointwise(self.sub_tracks@);
                            assert(track_view_ok(self@.subs[i as int].1));
                        }
                        let track = self.sub_tracks.value_at_mut(i);
                        track.add_input(input);
                        proof {
                            lemma_map_pointwise(self.sub_tracks@);
                            lemma_map_pointwise(old(self).sub_tracks@);
                            assert(self@.subs =~= spec_mixer_add_input(
                                old(self)@,
                                index,
                                input,
                            ).subs);
                            assert forall|j: int|
                                0 <= j < self@.subs.len() implies track_view_ok(
                                (#[trigger] self@.subs[j]).1,
                            ) by {
                                if j != i as int {
                                    assert(self@.subs[j] == old(self)@.subs[j]);
                                }
                            }
                            lemma_unique_map(self.sub_tracks@);
                        }
                    },
                    None => {
                        self.main_track.add_input(input);
                    },
                }
            },
        }
    }

    /// One mixer step: produce the engine's output frame for this step.
    pub fn process(&mut self, dt: i64, parameters: &Parameters) -> (r: Frame)
        requires
            mixer_view_ok(old(self)@),
            parameters.wf(),
        ensures
            (final(self)@, r) == spec_mixer_process(old(self)@, parameters@),
            mixer_view_ok(final(self)@),
            frame_ok(r),
    {
        let mut main_input = Frame::zero();
        let n = self.sub_tracks.len();
        let mut i: usize = 0;
        while i < n
            invariant
                parameters.wf(),
                n == old(self)@.subs.len(),
                i <= n,
                self@.subs.len() == n,
                self@.main == old(self)@.main,
                frame_ok(main_input),
                mixer_view_ok(old(self)@),
                (self@.subs.take(i as int), main_input) == spec_subs_process(
                    old(self)@.subs.take(i as int),
                    parameters@,
                ),
                forall|j: int| i <= j < n ==> #[trigger] self@.subs[j] == old(self)@.subs[j],
                forall|j: int| 0 <= j < i ==> track_view_ok((#[trigger] self@.subs[j]).1),
            decreases n - i,
        {
            proof {
                assert(old(self)@.subs.take(i + 1).drop_last() =~= old(self)@.subs.take(i as int));
                assert(old(self)@.subs.take(i + 1).last() == old(self)@.subs[i as int]);
                lemma_map_pointwise(self.sub_tracks@);
                assert(self@.subs[i as int] == old(self)@.subs[i as int]);
                assert(track_view_ok(self@.subs[i as int].1));
            }
            let ghost prev_subs = self@.subs;
            let track = self.sub_tracks.value_at_mut(i);
            let out = track.process(dt, parameters);
            main_input = main_input.add(out);
            proof {
                lemma_map_pointwise(self.sub_tracks@);
                assert(self@.subs.take(i + 1) =~= prev_subs.take(i as int).push(
                    self@.subs[i as int],
                ));
                assert forall|j: int| i + 1 <= j < n implies #[trigger] self@.subs[j] == old(
                    self,
                )@.subs[j] by {
                    assert(self@.subs[j] == prev_subs[j]);
                }
            }
            i += 1;
        }
        proof {
            assert(self@.subs.take(n as int) =~= self@.subs);
            assert(old(self)@.subs.take(n as int) =~= old(self)@.subs);
        }
        self.main_track.add_input(main_input);
        let r = self.main_track.process(dt, parameters);
        proof {
            assert forall|a: int, b: int| 0 <= a < b < self@.subs.len() implies self@.subs[a].0
                != self@.subs[b].0 by {
                lemma_subs_process_keys(old(self)@.subs, parameters@);
            }
        }
        r
    }
}

/// Mapping tracks to their views keeps keys, order and membership.
pub proof fn lemma_index_of_map(s: Seq<(u64, Track)>, k: u64)
    ensures
        spec_index_of(s.map(|i: int, e: (u64, Track)| (e.0, e.1@)), k) == spec_index_of(s, k),
    decreases s.len(),
{
    let m = s.map(|i: int, e: (u64, Track)| (e.0, e.1@));
    if s.len() == 0 {
    } else if s[0].0 == k {
        assert(m[0].0 == k);
    } else {
        let tail = s.subrange(1, s.len() as int);
        lemma_index_of_map(tail, k);
        assert(m[0].0 != k);
        assert(m.subrange(1, m.len() as int) =~= tail.map(
            |i: int, e: (u64, Track)| (e.0, e.1@),
        ));
    }
}

/// Pointwise shape of the view map.
pub proof fn lemma_map_pointwise(s: Seq<(u64, Track)>)
    ensures
        s.map(|i: int, e: (u64, Track)| (e.0, e.1@)).len() == s.len(),
        forall|i: int|
            0 <= i < s.len() ==> s.map(|j: int, e: (u64, Track)| (e.0, e.1@))[i] == (
                (#[trigger] s[i]).0,
                s[i].1@,
            ),
{
}

pub proof fn lemma_unique_map(s: Seq<(u64, Track)>)
    ensures
        unique_keys(s) ==> unique_keys(s.map(|i: int, e: (u64, Track)| (e.0, e.1@))),
{
    let m = s.map(|i: int, e: (u64, Track)| (e.0, e.1@));
    if unique_keys(s) {
        assert forall|a: int, b: int| 0 <= a < b < m.len() implies m[a].0 != m[b].0 by {
            assert(m[a].0 == s[a].0);
            assert(m[b].0 == s[b].0);
        }
    }
}

/// Processing the sub-tracks keeps their ids and order.
pub proof fn lemma_subs_process_keys(subs: Seq<(u64, TrackView)>, ps: Seq<(u64, Parameter)>)
    ensures
        spec_subs_process(subs, ps).0.len() == subs.len(),
        forall|i: int|
            0 <= i < subs.len() ==> (#[trigger] spec_subs_process(subs, ps).0[i]).0 == subs[i].0,
    decreases subs.len(),
{
    if subs.len() > 0 {
        lemma_subs_process_keys(subs.drop_last(), ps);
    }
}

/// Law: audio routed to a sub-track id the mixer does not know lands in
/// the main track's accumulator — it is never dropped.
pub proof fn lemma_add_input_falls_back_to_main(mv: MixerView, sid: SubTrackId, f: Frame)
    requires
        !spec_contains(mv.subs, sid.0),
    ensures
        spec_mixer_add_input(mv, TrackIndex::Sub(sid), f) == (MixerView {
            main: TrackView { input: spec_frame_add(mv.main.input, f), ..mv.main },
            subs: mv.subs,
        }),
{
}

/// Removing a sub-track reclaims it together with its effects: a
/// remove-effect aimed at that sub-track afterwards is a no-op — there is
/// nothing left to act on, and nothing panics.
pub proof fn lemma_remove_effect_after_remove_sub_track(
    mv: MixerView,
    sid: SubTrackId,
    eid: EffectId,
)
    requires
        mixer_view_ok(mv),
        eid.track == TrackIndex::Sub(sid),
    ensures
        ({
            let mv2 = spec_mixer_apply(mv, MixerCommand::RemoveSubTrack(sid));
            spec_mixer_apply(mv2, MixerCommand::RemoveEffect(eid)) == mv2
        }),
{
    let mv2 = spec_mixer_apply(mv, MixerCommand::RemoveSubTrack(sid));
    let i = spec_index_of(mv.subs, sid.0);
    lemma_index_of(mv.subs, sid.0);
    if i >= 0 {
        let s2 = mv.subs.remove(i);
        assert(mv2.subs == s2);
        lemma_index_of(s2, sid.0);
        let j = spec_index_of(s2, sid.0);
        if j >= 0 {
            assert(s2[j].0 == sid.0);
            if j < i {
                assert(s2[j] == mv.subs[j]);
                assert(mv.subs[j].0 != sid.0);
            } else {
                assert(s2[j] == mv.subs[j + 1]);
                assert(mv.subs[j + 1].0 != mv.subs[i].0);
            }
            assert(false);
        }
    } else {
        lemma_index_of(mv2.subs, sid.0);
    }
}

} // verus!
