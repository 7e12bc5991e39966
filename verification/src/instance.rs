//! Playing sound instances.
//!
//! An instance plays one loaded sound at a tweenable volume and pitch,
//! routed to a mixer track. Pausing, resuming and stopping may fade through
//! an optional tween; a stopped instance leaves the registry at the end of
//! the processing step.

use vstd::prelude::*;
use crate::fixed::{SCALE, SCALAR_MAX, scalar_ok, spec_clamp, spec_mul_scale, mul_scale,
    add_clamped, clamp_scalar};
use crate::frame::{Frame, frame_ok, spec_frame_scale};
use crate::value::{Value, CachedValue, cached_ok, spec_cached_update, sanitize_value,
    spec_sanitize_value, Tween};
use crate::parameter::{Parameter, Parameters, param_ok, spec_param_set, spec_param_update};
use crate::sound::{Sound, SoundId, sound_ok, spec_frame_at};
use crate::sequence::SequenceId;
use crate::track::TrackIndex;
use crate::table::{Table, unique_keys, spec_index_of, spec_contains, spec_table_insert,
    lemma_index_of};
use crate::command::InstanceCommand;
use crate::mixer::{Mixer, MixerView, mixer_view_ok, spec_mixer_add_input};

verus! {

#[derive(Clone, Copy, Debug, PartialEq, Eq, Structural)]
pub struct InstanceId(pub u64);

#[derive(Clone, Copy, Debug, PartialEq, Eq, Structural)]
pub struct InstanceSettings {
    pub volume: Value,
    pub pitch: Value,
}

impl Default for InstanceSettings {
    /// Unit volume and pitch.
    fn default() -> (r: InstanceSettings)
        ensures
            r == (InstanceSettings { volume: Value::Fixed(SCALE), pitch: Value::Fixed(SCALE) }),
    {
        InstanceSettings { volume: Value::Fixed(SCALE), pitch: Value::Fixed(SCALE) }
    }
}

#[derive(Clone, Copy, Debug, PartialEq, Eq, Structural)]
pub enum InstanceState {
    Playing,
    /// Fading out toward a pause.
    Pausing,
    Paused,
    /// Fading back in after a resume.
    Resuming,
    /// Fading out toward a stop.
    Stopping,
    Stopped,
}

/// States in which the instance produces audio and advances.
pub open spec fn active_state(s: InstanceState) -> bool {
    match s {
        InstanceState::Playing => true,
        InstanceState::Pausing => true,
        InstanceState::Resuming => true,
        InstanceState::Stopping => true,
        InstanceState::Paused => false,
        InstanceState::Stopped => false,
    }
}

#[derive(Clone, Copy, Debug, PartialEq, Eq, Structural)]
pub struct Instance {
    pub sound_id: SoundId,
    pub track: TrackIndex,
    /// The sequence that started this instance, if any.
    pub sequence_id: Option<SequenceId>,
    pub volume: CachedValue,
    pub pitch: CachedValue,
    /// Fade level in `[0, SCALE]`, tweened by pause, resume and stop.
    pub fade: Parameter,
    pub state: InstanceState,
    /// Playback position in fixed-point seconds.
    pub position: i64,
}

pub open spec fn instance_ok(i: Instance) -> bool {
    &&& cached_ok(i.volume)
    &&& cached_ok(i.pitch)
    &&& param_ok(i.fade)
    &&& 0 <= i.position && scalar_ok(i.position as int)
}

/// A freshly played instance: full fade, position zero, routed to the
/// sound's default track.
pub open spec fn spec_new_instance(
    sound_id: SoundId,
    track: TrackIndex,
    sequence_id: Option<SequenceId>,
    settings: InstanceSettings,
) -> Instance {
    Instance {
        sound_id,
        track,
        sequence_id,
        volume: CachedValue { value: spec_sanitize_value(settings.volume), cached: SCALE },
        pitch: CachedValue { value: spec_sanitize_value(settings.pitch), cached: SCALE },
        fade: Parameter { value: SCALE, active: None },
        state: InstanceState::Playing,
        position: 0,
    }
}

/// Pause: immediate without a tween, else fade toward silence. An instance
/// already on its way out cannot be paused.
pub open spec fn spec_inst_pause(i: Instance, tween: Option<Tween>) -> Instance {
    if i.state == InstanceState::Stopping || i.state == InstanceState::Stopped {
        i
    } else {
        match tween {
            None => Instance { state: InstanceState::Paused, ..i },
            Some(tw) => Instance {
                state: InstanceState::Pausing,
                fade: spec_param_set(i.fade, 0, Some(tw)),
                ..i
            },
        }
    }
}

/// Resume: immediate without a tween, else fade back in. A stopped or
/// stopping instance cannot be restarted.
pub open spec fn spec_inst_resume(i: Instance, tween: Option<Tween>) -> Instance {
    if i.state == InstanceState::Stopping || i.state == InstanceState::Stopped {
        i
    } else {
        match tween {
            None => Instance {
                state: InstanceState::Playing,
                fade: Parameter { value: SCALE, active: None },
                ..i
            },
            Some(tw) => Instance {
                state: InstanceState::Resuming,
                fade: spec_param_set(i.fade, SCALE as int, Some(tw)),
                ..i
            },
        }
    }
}

/// Stop: immediate without a tween, else fade out and then stop.
pub open spec fn spec_inst_stop(i: Instance, tween: Option<Tween>) -> Instance {
    if i.state == InstanceState::Stopped {
        i
    } else {
        match tween {
            None => Instance { state: InstanceState::Stopped, ..i },
            Some(tw) => Instance {
                state: InstanceState::Stopping,
                fade: spec_param_set(i.fade, 0, Some(tw)),
                ..i
            },
        }
    }
}

/// One instance command, applied to the instance stored under key `k`; a
/// command aimed elsewhere leaves it untouched.
pub open spec fn spec_apply_one(k: u64, i: Instance, cmd: InstanceCommand) -> Instance {
    match cmd {
        InstanceCommand::Play(_, _, _, _) => i,
        InstanceCommand::SetInstanceVolume(id, v) => if id.0 == k {
            Instance { volume: CachedValue { value: spec_sanitize_value(v), cached: i.volume.cached }, ..i }
        } else {
            i
        },
        InstanceCommand::SetInstancePitch(id, v) => if id.0 == k {
            Instance { pitch: CachedValue { value: spec_sanitize_value(v), cached: i.pitch.cached }, ..i }
        } else {
            i
        },
        InstanceCommand::PauseInstance(id, t) => if id.0 == k {
            spec_inst_pause(i, t)
        } else {
            i
        },
        InstanceCommand::ResumeInstance(id, t) => if id.0 == k {
            spec_inst_resume(i, t)
        } else {
            i
        },
        InstanceCommand::StopInstance(id, t) => if id.0 == k {
            spec_inst_stop(i, t)
        } else {
            i
        },
        InstanceCommand::PauseInstancesOfSound(sid, t) => if i.sound_id == sid {
            spec_inst_pause(i, t)
        } else {
            i
        },
        InstanceCommand::ResumeInstancesOfSound(sid, t) => if i.sound_id == sid {
            spec_inst_resume(i, t)
        } else {
            i
        },
        InstanceCommand::StopInstancesOfSound(sid, t) => if i.sound_id == sid {
            spec_inst_stop(i, t)
        } else {
            i
        },
        InstanceCommand::PauseInstancesOfSequence(qid, t) => if i.sequence_id == Some(qid) {
            spec_inst_pause(i, t)
        } else {
            i
        },
        InstanceCommand::ResumeInstancesOfSequence(qid, t) => if i.sequence_id == Some(qid) {
            spec_inst_resume(i, t)
        } else {
            i
        },
        InstanceCommand::StopInstancesOfSequence(qid, t) => if i.sequence_id == Some(qid) {
            spec_inst_stop(i, t)
        } else {
            i
        },
    }
}

/// What one instance command does to the registries. Play looks the sound
/// up: a missing sound or one still on cooldown makes it a no-op; otherwise
/// the instance starts on the sound's default track and the sound's
/// cooldown begins.
pub open spec fn spec_instances_apply(
    insts: Seq<(u64, Instance)>,
    sounds: Seq<(u64, Sound)>,
    cmd: InstanceCommand,
) -> (Seq<(u64, Instance)>, Seq<(u64, Sound)>) {
    match cmd {
        InstanceCommand::Play(id, sound_id, sequence_id, settings) => {
            let si = spec_index_of(sounds, sound_id.0);
            if si >= 0 && sounds[si].1.cooldown_timer <= 0 {
                let sound = sounds[si].1;
                (
                    spec_table_insert(
                        insts,
                        id.0,
                        spec_new_instance(sound_id, sound.default_track, sequence_id, settings),
                    ),
                    sounds.update(
                        si,
                        (sound_id.0, Sound { cooldown_timer: sound.cooldown, ..sound }),
                    ),
                )
            } else {
                (insts, sounds)
            }
        },
        _ => (
            insts.map(|j: int, e: (u64, Instance)| (e.0, spec_apply_one(e.0, e.1, cmd))),
            sounds,
        ),
    }
}

/// One per-frame step of a single instance: resolve volume and pitch,
/// advance the fade (completing a pending pause, resume or stop), pull one
/// frame from the sound at the current position, and advance. A missing
/// sound degrades to silence; reaching the end of the sound stops the
/// instance.
pub open spec fn spec_inst_step(
    i: Instance,
    sounds: Seq<(u64, Sound)>,
    ps: Seq<(u64, Parameter)>,
    dt: int,
) -> (Instance, Option<(TrackIndex, Frame)>) {
    if !active_state(i.state) {
        (i, None)
    } else {
        let vol = spec_cached_update(i.volume, ps);
        let pitch = spec_cached_update(i.pitch, ps);
        let fade = spec_param_update(i.fade, dt);
        let st1 = if fade.active is None {
            match i.state {
                InstanceState::Pausing => InstanceState::Paused,
                InstanceState::Stopping => InstanceState::Stopped,
                InstanceState::Resuming => InstanceState::Playing,
                s => s,
            }
        } else {
            i.state
        };
        let si = spec_index_of(sounds, i.sound_id.0);
        if si >= 0 {
            let sound = sounds[si].1;
            let eff = spec_mul_scale(vol.cached as int, fade.value as int);
            let f = spec_frame_scale(spec_frame_at(sound, i.position as int), eff);
            let delta = spec_mul_scale(pitch.cached as int, dt);
            let p1 = spec_clamp(i.position + (if delta < 0 {
                0int
            } else {
                delta
            }));
            let st2 = if p1 >= sound.duration {
                InstanceState::Stopped
            } else {
                st1
            };
            (
                Instance { volume: vol, pitch, fade, state: st2, position: p1 as i64, ..i },
                Some((i.track, f)),
            )
        } else {
            (Instance { volume: vol, pitch, fade, state: st1, ..i }, None)
        }
    }
}

/// One processing pass over the registry, first started first: each active
/// instance routes its frame into the mixer; stopped instances leave.
pub open spec fn spec_instances_process(
    insts: Seq<(u64, Instance)>,
    sounds: Seq<(u64, Sound)>,
    mv: MixerView,
    ps: Seq<(u64, Parameter)>,
    dt: int,
) -> (Seq<(u64, Instance)>, MixerView)
    decreases insts.len(),
{
    if insts.len() == 0 {
        (Seq::empty(), mv)
    } else {
        let (inst2, out) = spec_inst_step(insts[0].1, sounds, ps, dt);
        let mv1 = match out {
            Some((tr, f)) => spec_mixer_add_input(mv, tr, f),
            None => mv,
        };
        let (rest, mv2) = spec_instances_process(insts.drop_first(), sounds, mv1, ps, dt);
        (
            if inst2.state == InstanceState::Stopped {
                rest
            } else {
                seq![(insts[0].0, inst2)] + rest
            },
            mv2,
        )
    }
}

impl Instance {
    /// Apply one instance command addressed by `k`.
    pub fn apply_one(&mut self, k: u64, cmd: &InstanceCommand)
        requires
            instance_ok(*old(self)),
        ensures
            *final(self) == spec_apply_one(k, *old(self), *cmd),
            instance_ok(*final(self)),
    {
        match cmd {
            InstanceCommand::Play(_, _, _, _) => {},
            InstanceCommand::SetInstanceVolume(id, v) => {
                if id.0 == k {
                    self.volume.set(sanitize_value(*v));
                }
            },
            InstanceCommand::SetInstancePitch(id, v) => {
                if id.0 == k {
                    self.pitch.set(sanitize_value(*v));
                }
            },
            InstanceCommand::PauseInstance(id, t) => {
                if id.0 == k {
                    self.pause(*t);
                }
            },
            InstanceCommand::ResumeInstance(id, t) => {
                if id.0 == k {
                    self.resume(*t);
                }
            },
            InstanceCommand::StopInstance(id, t) => {
                if id.0 == k {
                    self.stop(*t);
                }
            },
            InstanceCommand::PauseInstancesOfSound(sid, t) => {
                if self.sound_id == *sid {
                    self.pause(*t);
                }
            },
            InstanceCommand::ResumeInstancesOfSound(sid, t) => {
                if self.sound_id == *sid {
                    self.resume(*t);
                }
            },
            InstanceCommand::StopInstancesOfSound(sid, t) => {
                if self.sound_id == *sid {
                    self.stop(*t);
                }
            },
            InstanceCommand::PauseInstancesOfSequence(qid, t) => {
                if self.matches_sequence(*qid) {
                    self.pause(*t);
                }
            },
            InstanceCommand::ResumeInstancesOfSequence(qid, t) => {
                if self.matches_sequence(*qid) {
                    self.resume(*t);
                }
            },
            InstanceCommand::StopInstancesOfSequence(qid, t) => {
                if self.matches_sequence(*qid) {
                    self.stop(*t);
                }
            },
        }
    }

    fn matches_sequence(&self, qid: SequenceId) -> (r: bool)
        ensures
            r == (self.sequence_id == Some(qid)),
    {
        match self.sequence_id {
            Some(s) => s == qid,
            None => false,
        }
    }

    fn pause(&mut self, tween: Option<Tween>)
        requires
            instance_ok(*old(self)),
        ensures
            *final(self) == spec_inst_pause(*old(self), tween),
            instance_ok(*final(self)),
    {
        if matches!(self.state, InstanceState::Stopping) || matches!(
            self.state,
            InstanceState::Stopped,
        ) {
            return ;
        }
        match tween {
            None => {
                self.state = InstanceState::Paused;
            },
            Some(tw) => {
                self.state = InstanceState::Pausing;
                self.fade.set(0, Some(tw));
            },
        }
    }

    fn resume(&mut self, tween: Option<Tween>)
        requires
            instance_ok(*old(self)),
        ensures
            *final(self) == spec_inst_resume(*old(self), tween),
            instance_ok(*final(self)),
    {
        if matches!(self.state, InstanceState::Stopping) || matches!(
            self.state,
            InstanceState::Stopped,
        ) {
            return ;
        }
        match tween {
            None => {
                self.state = InstanceState::Playing;
                self.fade = Parameter { value: SCALE, active: None };
            },
            Some(tw) => {
                self.state = InstanceState::Resuming;
                self.fade.set(SCALE, Some(tw));
            },
        }
    }

    fn stop(&mut self, tween: Option<Tween>)
        requires
            instance_ok(*old(self)),
        ensures
            *final(self) == spec_inst_stop(*old(self), tween),
            instance_ok(*final(self)),
    {
        if matches!(self.state, InstanceState::Stopped) {
            return ;
        }
        match tween {
            None => {
                self.state = InstanceState::Stopped;
            },
            Some(tw) => {
                self.state = InstanceState::Stopping;
                self.fade.set(0, Some(tw));
            },
        }
    }

    /// One per-frame step; returns the frame to route, if any.
    pub fn step(&mut self, sounds: &Table<Sound>, parameters: &Parameters, dt: i64) -> (r: Option<
        (TrackIndex, Frame),
    >)
        requires
            instance_ok(*old(self)),
            0 <= dt <= SCALAR_MAX,
            parameters.wf(),
            unique_keys(sounds@),
            forall|j: int| 0 <= j < sounds@.len() ==> sound_ok((#[trigger] sounds@[j]).1),
        ensures
            (*final(self), r) == spec_inst_step(*old(self), sounds@, parameters@, dt as int),
            instance_ok(*final(self)),
            r matches Some(p) ==> frame_ok(p.1),
    {
        let active = match self.state {
            InstanceState::Playing => true,
            InstanceState::Pausing => true,
            InstanceState::Resuming => true,
            InstanceState::Stopping => true,
            InstanceState::Paused => false,
            InstanceState::Stopped => false,
        };
        if !active {
            return None;
        }
        self.volume.update(parameters);
        self.pitch.update(parameters);
        self.fade.update(dt);
        if self.fade.active.is_none() {
            match self.state {
                InstanceState::Pausing => {
                    self.state = InstanceState::Paused;
                },
                InstanceState::Stopping => {
                    self.state = InstanceState::Stopped;
                },
                InstanceState::Resuming => {
                    self.state = InstanceState::Playing;
                },
                _ => {},
            }
        }
        proof {
            lemma_index_of(sounds@, self.sound_id.0);
            if spec_contains(sounds@, self.sound_id.0) {
                assert(sound_ok(sounds@[spec_index_of(sounds@, self.sound_id.0)].1));
            }
        }
        match sounds.get(self.sound_id.0) {
            Some(sound) => {
                let eff = mul_scale(self.volume.value(), self.fade.value);
                let f = sound.frame_at(self.position).scale(eff);
                let delta = mul_scale(self.pitch.value(), dt);
                let delta = if delta < 0 {
                    0
                } else {
                    delta
                };
                self.position = add_clamped(self.position, delta);
                if self.position >= sound.duration {
                    self.state = InstanceState::Stopped;
                }
                Some((self.track, f))
            },
            None => None,
        }
    }
}

/// The playing-instance registry.
pub struct Instances {
    table: Table<Instance>,
}

impl Instances {
    pub closed spec fn view(&self) -> Seq<(u64, Instance)> {
        self.table@
    }

    pub open spec fn wf(&self) -> bool {
        &&& unique_keys(self@)
        &&& forall|i: int| 0 <= i < self@.len() ==> instance_ok((#[trigger] self@[i]).1)
    }

    pub fn new() -> (r: Instances)
        ensures
            r@ == Seq::<(u64, Instance)>::empty(),
            r.wf(),
    {
        Instances { table: Table::new() }
    }

    /// Apply one instance command; `sounds` is consulted (and its cooldown
    /// advanced) by play commands.
    pub fn run_command(&mut self, cmd: InstanceCommand, sounds: &mut Table<Sound>)
        requires
            old(self).wf(),
            unique_keys(old(sounds)@),
            forall|j: int| 0 <= j < old(sounds)@.len() ==> sound_ok((#[trigger] old(sounds)@[j]).1),
        ensures
            (final(self)@, final(sounds)@) == spec_instances_apply(old(self)@, old(sounds)@, cmd),
            final(self).wf(),
            unique_keys(final(sounds)@),
            forall|j: int|
                0 <= j < final(sounds)@.len() ==> sound_ok((#[trigger] final(sounds)@[j]).1),
    {
        match cmd {
            InstanceCommand::Play(id, sound_id, sequence_id, settings) => {
                proof {
                    lemma_index_of(sounds@, sound_id.0);
                }
                match sounds.index_of(sound_id.0) {
                    Some(si) => {
                        proof {
                            assert(sound_ok(sounds@[si as int].1));
                        }
                        let ready = sounds.value_at(si).ready();
                        if ready {
                            let default_track = sounds.value_at(si).default_track();
                            let sk = sounds.key_at(si);
                            let sref = sounds.value_at_mut(si);
                            sref.start_cooldown();
                            let inst = Instance {
                                sound_id,
                                track: default_track,
                                sequence_id,
                                volume: CachedValue { value: sanitize_value(settings.volume), cached: SCALE },
                                pitch: CachedValue { value: sanitize_value(settings.pitch), cached: SCALE },
                                fade: Parameter { value: SCALE, active: None },
                                state: InstanceState::Playing,
                                position: 0,
                            };
                            self.table.insert(id.0, inst);
                            proof {
                                let s = old(self)@;
                                let i = spec_index_of(s, id.0);
                                lemma_index_of(s, id.0);
                                assert(sounds@ == old(sounds)@.update(
                                    si as int,
                                    (sound_id.0, Sound {
                                        cooldown_timer: old(sounds)@[si as int].1.cooldown,
                                        ..old(sounds)@[si as int].1
                                    }),
                                ));
                                assert forall|j: int|
                                    0 <= j < sounds@.len() implies sound_ok(
                                    (#[trigger] sounds@[j]).1,
                                ) by {
                                    if j != si as int {
                                        assert(sounds@[j] == old(sounds)@[j]);
                                    }
                                }
                                assert forall|a: int, b: int|
                                    0 <= a < b < sounds@.len() implies sounds@[a].0
                                    != sounds@[b].0 by {
                                    assert(sounds@[a].0 == old(sounds)@[a].0);
                                    assert(sounds@[b].0 == old(sounds)@[b].0);
                                }
                                assert forall|j: int|
                                    0 <= j < self@.len() implies instance_ok(
                                    (#[trigger] self@[j]).1,
                                ) by {
                                    if i >= 0 {
                                        if j != i {
                                            assert(self@[j] == s[j]);
                                        }
                                    } else {
                                        if j < s.len() {
                                            assert(self@[j] == s[j]);
                                        }
                                    }
                                }
                            }
                        }
                    },
                    None => {},
                }
            },
            _ => {
                let ghost cmdg = cmd;
                let n = self.table.len();
                let mut i: usize = 0;
                while i < n
                    invariant
                        n == old(self)@.len(),
                        i <= n,
                        self@.len() == n,
                        cmdg == cmd,
                        !(cmdg matches InstanceCommand::Play(_, _, _, _)),
                        forall|j: int| 0 <= j < n ==> (#[trigger] self@[j]).0 == old(self)@[j].0,
                        forall|j: int| i <= j < n ==> #[trigger] self@[j] == old(self)@[j],
                        forall|j: int|
                            0 <= j < i ==> #[trigger] self@[j] == (old(self)@[j].0, spec_apply_one(
                                old(self)@[j].0,
                                old(self)@[j].1,
                                cmdg,
                            )),
                        unique_keys(old(self)@),
                        forall|j: int| 0 <= j < n ==> instance_ok((#[trigger] old(self)@[j]).1),
                        forall|j: int| 0 <= j < i ==> instance_ok((#[trigger] self@[j]).1),
                    decreases n - i,
                {
                    let k = self.table.key_at(i);
                    let inst = self.table.value_at_mut(i);
                    inst.apply_one(k, &cmd);
                    proof {
                        assert(self@[i as int] == (old(self)@[i as int].0, spec_apply_one(
                            old(self)@[i as int].0,
                            old(self)@[i as int].1,
                            cmdg,
                        )));
                    }
                    i += 1;
                }
                proof {
                    assert(self@ =~= old(self)@.map(
                        |j: int, e: (u64, Instance)| (e.0, spec_apply_one(e.0, e.1, cmdg)),
                    ));
                    assert forall|a: int, b: int| 0 <= a < b < self@.len() implies self@[a].0
                        != self@[b].0 by {
                        assert(self@[a].0 == old(self)@[a].0);
                        assert(self@[b].0 == old(self)@[b].0);
                    }
                }
            },
        }
    }

    /// One processing pass: route every active instance's audio into the
    /// mixer and drop the instances that stopped.
    pub fn process(
        &mut self,
        dt: i64,
        sounds: &Table<Sound>,
        mixer: &mut Mixer,
        parameters: &Parameters,
    )
        requires
            old(self).wf(),
            0 <= dt <= SCALAR_MAX,
            parameters.wf(),
            mixer_view_ok(old(mixer)@),
            unique_keys(sounds@),
            forall|j: int| 0 <= j < sounds@.len() ==> sound_ok((#[trigger] sounds@[j]).1),
        ensures
            (final(self)@, final(mixer)@) == spec_instances_process(
                old(self)@,
                sounds@,
                old(mixer)@,
                parameters@,
                dt as int,
            ),
            final(self).wf(),
            mixer_view_ok(final(mixer)@),
    {
        let mut entries = self.table.take_entries();
        proof {
            assert(self@ =~= Seq::<(u64, Instance)>::empty());
        }
        while entries.len() > 0
            invariant
                0 <= dt <= SCALAR_MAX,
                parameters.wf(),
                unique_keys(sounds@),
                forall|j: int| 0 <= j < sounds@.len() ==> sound_ok((#[trigger] sounds@[j]).1),
                unique_keys(self@),
                forall|j: int| 0 <= j < self@.len() ==> instance_ok((#[trigger] self@[j]).1),
                forall|j: int|
                    0 <= j < entries@.len() ==> instance_ok((#[trigger] entries@[j]).1),
                mixer_view_ok(mixer@),
                spec_instances_process(old(self)@, sounds@, old(mixer)@, parameters@, dt as int)
                    == ({
                    let (rem, mv) = spec_instances_process(
                        entries@,
                        sounds@,
                        mixer@,
                        parameters@,
                        dt as int,
                    );
                    (self@ + rem, mv)
                }),
                forall|a: int, b: int|
                    0 <= a < self@.len() && 0 <= b < entries@.len() ==> (#[trigger] self@[a]).0
                        != (#[trigger] entries@[b]).0,
                unique_keys(entries@),
            decreases entries@.len(),
        {
            let ghost entries0 = entries@;
            let ghost self0 = self@;
            let ghost mixer0 = mixer@;
            let e = entries.remove(0);
            proof {
                assert(entries0.drop_first() =~= entries@);
                assert(e == entries0[0]);
            }
            let (k, mut inst) = e;
            let ghost inst0 = inst;
            proof {
                assert(k == entries0[0].0);
                assert(inst0 == entries0[0].1);
            }
            let out = inst.step(sounds, parameters, dt);
            match out {
                Some(p) => {
                    let (tr, f) = p;
                    mixer.add_input(tr, f);
                },
                None => {},
            }
            let stopped = matches!(inst.state, InstanceState::Stopped);
            if !stopped {
                proof {
                    assert forall|j: int| 0 <= j < self@.len() implies (#[trigger] self@[j]).0
                        != k by {
                        assert(self@[j].0 != entries0[0].0);
                    }
                }
                self.table.push_back(k, inst);
            }
            proof {
                let step = spec_inst_step(entries0[0].1, sounds@, parameters@, dt as int);
                let (rem, mv) = spec_instances_process(
                    entries@,
                    sounds@,
                    mixer@,
                    parameters@,
                    dt as int,
                );
                let (rem0, mv0) = spec_instances_process(
                    entries0,
                    sounds@,
                    mixer0,
                    parameters@,
                    dt as int,
                );
                if step.0.state == InstanceState::Stopped {
                    assert(self@ + rem =~= self0 + rem0);
                } else {
                    assert(rem0 == seq![(entries0[0].0, step.0)] + rem);
                    assert(self@ =~= self0.push((k, step.0)));
                    assert(self@ + rem =~= self0 + rem0);
                }
                assert forall|a: int, b: int|
                    0 <= a < self@.len() && 0 <= b < entries@.len() implies (
                #[trigger] self@[a]).0 != (#[trigger] entries@[b]).0 by {
                    assert(entries@[b] == entries0[b + 1]);
                    if a < self0.len() {
                        assert(self@[a] == self0[a]);
                    }
                }
            }
        }
        proof {
            let (rem, mv) = spec_instances_process(
                entries@,
                sounds@,
                mixer@,
                parameters@,
                dt as int,
            );
            assert(self@ + rem =~= self@);
        }
    }
}

} // verus!
