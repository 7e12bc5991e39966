//! The processor: owner of every subsystem, run once per output sample.
//!
//! The per-frame order is fixed: drain and apply commands, advance
//! parameters, advance sound cooldowns, advance the metronome and translate
//! its crossings into events, advance sequences (their commands join the
//! queue for the next frame, keeping the pipeline non-reentrant), advance
//! instances into the mixer, and mix. No step fails loudly: a stale id
//! degrades that one unit of work to a no-op and the frame is always
//! produced.

use vstd::prelude::*;
use crate::fixed::{SCALE, SCALAR_MAX};
use crate::frame::{Frame, frame_ok};
use crate::table::{Table, unique_keys, spec_index_of, spec_table_insert, spec_table_remove,
    lemma_index_of};
use crate::parameter::{Parameter, Parameters, param_ok, spec_parameters_apply,
    spec_parameters_update};
use crate::metronome::{Metronome, metronome_ok, spec_metronome_apply, spec_metronome_update};
use crate::mixer::{Mixer, MixerView, mixer_view_ok, spec_mixer_apply, spec_mixer_process};
use crate::track::{Track, EffectSlot};
use crate::sound::{Sound, sound_ok, spec_sanitize_sound};
use crate::instance::{Instance, Instances, instance_ok, spec_instances_apply,
    spec_instances_process};
use crate::sequence::{SequenceInstance, Sequences, sequence_ok, spec_sequences_apply,
    spec_sequences_update};
use crate::command::{Command, SoundCommand, InstanceCommand, Event, spec_output_to_command,
    SequenceOutputCommand};
use crate::channel::{channel_push, channel_pop};
use crate::manager::AudioManagerSettings;

verus! {

/// The channel ends the audio context owns.
pub struct ProcessorThreadChannels {
    pub command_consumer: ringbuf::Consumer<Command>,
    pub event_producer: ringbuf::Producer<Event>,
    pub sounds_to_unload_producer: ringbuf::Producer<Sound>,
    pub sequences_to_unload_producer: ringbuf::Producer<SequenceInstance>,
    pub tracks_to_unload_producer: ringbuf::Producer<Track>,
    pub effect_slots_to_unload_producer: ringbuf::Producer<EffectSlot>,
}

/// The spec-level state of the engine: everything a processing step reads
/// or writes, channels aside.
pub struct EngineView {
    pub dt: i64,
    pub sounds: Seq<(u64, Sound)>,
    pub command_queue: Seq<Command>,
    pub metronome: Metronome,
    pub parameters: Seq<(u64, Parameter)>,
    pub instances: Seq<(u64, Instance)>,
    pub sequences: Seq<(u64, SequenceInstance)>,
    pub mixer: MixerView,
}

pub open spec fn engine_ok(v: EngineView) -> bool {
    &&& 0 <= v.dt <= SCALAR_MAX
    &&& unique_keys(v.sounds)
    &&& forall|i: int| 0 <= i < v.sounds.len() ==> sound_ok((#[trigger] v.sounds[i]).1)
    &&& metronome_ok(v.metronome)
    &&& unique_keys(v.parameters)
    &&& forall|i: int| 0 <= i < v.parameters.len() ==> param_ok((#[trigger] v.parameters[i]).1)
    &&& unique_keys(v.instances)
    &&& forall|i: int| 0 <= i < v.instances.len() ==> instance_ok((#[trigger] v.instances[i]).1)
    &&& unique_keys(v.sequences)
    &&& forall|i: int| 0 <= i < v.sequences.len() ==> sequence_ok((#[trigger] v.sequences[i]).1)
    &&& mixer_view_ok(v.mixer)
}

/// What one command does to the engine, dispatched to its owning
/// subsystem. Unloading a sound first stops that sound's instances, then
/// hands the sound to reclamation.
pub open spec fn spec_engine_apply(v: EngineView, c: Command) -> EngineView {
    match c {
        Command::Sound(sc) => match sc {
            SoundCommand::LoadSound(id, sound) => EngineView {
                sounds: spec_table_insert(v.sounds, id.0, spec_sanitize_sound(sound)),
                ..v
            },
            SoundCommand::UnloadSound(id) => {
                let (insts2, sounds1) = spec_instances_apply(
                    v.instances,
                    v.sounds,
                    InstanceCommand::StopInstancesOfSound(id, None),
                );
                EngineView {
                    instances: insts2,
                    sounds: spec_table_remove(sounds1, id.0),
                    ..v
                }
            },
        },
        Command::Instance(ic) => {
            let (insts2, sounds2) = spec_instances_apply(v.instances, v.sounds, ic);
            EngineView { instances: insts2, sounds: sounds2, ..v }
        },
        Command::Metronome(mc) => EngineView {
            metronome: spec_metronome_apply(v.metronome, mc),
            ..v
        },
        Command::Sequence(sc) => EngineView { sequences: spec_sequences_apply(v.sequences, sc), ..v },
        Command::Mixer(mc) => EngineView { mixer: spec_mixer_apply(v.mixer, mc), ..v },
        Command::Parameter(pc) => EngineView {
            parameters: spec_parameters_apply(v.parameters, pc),
            ..v
        },
        Command::EmitCustomEvent(_) => v,
    }
}

/// Commands applied strictly in arrival order: each acts on the state every
/// earlier one produced.
pub open spec fn spec_engine_apply_all(v: EngineView, cmds: Seq<Command>) -> EngineView
    decreases cmds.len(),
{
    if cmds.len() == 0 {
        v
    } else {
        spec_engine_apply(spec_engine_apply_all(v, cmds.drop_last()), cmds.last())
    }
}

/// Ordering law: applying an enqueued batch and then one more command is
/// the same as applying the command to the state the batch produced — for
/// any id, commands affecting it take effect in exactly the order they were
/// enqueued.
pub proof fn lemma_commands_apply_in_order(v: EngineView, cmds: Seq<Command>, c: Command)
    ensures
        spec_engine_apply_all(v, cmds.push(c)) == spec_engine_apply(
            spec_engine_apply_all(v, cmds),
            c,
        ),
{
    assert(cmds.push(c).drop_last() =~= cmds);
    assert(cmds.push(c).last() == c);
}

/// No command changes the step length.
pub proof fn lemma_apply_all_keeps_dt(v: EngineView, cmds: Seq<Command>)
    ensures
        spec_engine_apply_all(v, cmds).dt == v.dt,
    decreases cmds.len(),
{
    if cmds.len() > 0 {
        lemma_apply_all_keeps_dt(v, cmds.drop_last());
    }
}

/// A command-processing pass: the commands drained from the channel join
/// the queued ones, all apply in order, and the queue empties.
pub open spec fn spec_engine_run_queue(v: EngineView, drained: Seq<Command>) -> EngineView {
    EngineView {
        command_queue: Seq::empty(),
        ..spec_engine_apply_all(v, v.command_queue + drained)
    }
}

/// Every sound's cooldown advanced by `dt`.
pub open spec fn spec_sounds_update(s: Seq<(u64, Sound)>, dt: int) -> Seq<(u64, Sound)> {
    s.map(
        |i: int, e: (u64, Sound)|
            (
                e.0,
                Sound {
                    cooldown_timer: (if e.1.cooldown_timer - dt < 0 {
                        0int
                    } else {
                        e.1.cooldown_timer - dt
                    }) as i64,
                    ..e.1
                },
            ),
    )
}

/// One whole processing step, given the commands the channel yielded this
/// frame: the fixed pipeline order of the engine.
pub open spec fn spec_engine_process(v: EngineView, drained: Seq<Command>) -> (EngineView, Frame) {
    let v1 = spec_engine_run_queue(v, drained);
    let v2 = EngineView { parameters: spec_parameters_update(v1.parameters, v.dt as int), ..v1 };
    let v3 = EngineView { sounds: spec_sounds_update(v2.sounds, v.dt as int), ..v2 };
    let (m2, emitted) = spec_metronome_update(v3.metronome, v3.parameters, v.dt as int);
    let v4 = EngineView { metronome: m2, ..v3 };
    let (seqs2, outs) = spec_sequences_update(v4.sequences, v.dt as int);
    let v5 = EngineView {
        sequences: seqs2,
        command_queue: v4.command_queue + outs.map(
            |i: int, c: SequenceOutputCommand| spec_output_to_command(c),
        ),
        ..v4
    };
    let (insts2, mv1) = spec_instances_process(
        v5.instances,
        v5.sounds,
        v5.mixer,
        v5.parameters,
        v.dt as int,
    );
    let v6 = EngineView { instances: insts2, mixer: mv1, ..v5 };
    let (mv2, out) = spec_mixer_process(v6.mixer, v6.parameters);
    (EngineView { mixer: mv2, ..v6 }, out)
}

pub struct Processor {
    dt: i64,
    command_capacity: usize,
    sounds: Table<Sound>,
    command_queue: Vec<Command>,
    thread_channels: ProcessorThreadChannels,
    metronome: Metronome,
    parameters: Parameters,
    instances: Instances,
    sequences: Sequences,
    mixer: Mixer,
}

impl View for Processor {
    type V = EngineView;

    closed spec fn view(&self) -> EngineView {
        EngineView {
            dt: self.dt,
            sounds: self.sounds@,
            command_queue: self.command_queue@,
            metronome: self.metronome,
            parameters: self.parameters@,
            instances: self.instances@,
            sequences: self.sequences@,
            mixer: self.mixer@,
        }
    }
}

impl Processor {
    /// A fresh engine running at `sample_rate` frames per second: the step
    /// is one sample, `SCALE / sample_rate` fixed-point seconds.
    pub fn new(
        sample_rate: u32,
        settings: AudioManagerSettings,
        thread_channels: ProcessorThreadChannels,
    ) -> (p: Processor)
        requires
            0 < sample_rate,
        ensures
            p@.dt == SCALE as int / sample_rate as int,
            p@.sounds == Seq::<(u64, Sound)>::empty(),
            p@.command_queue == Seq::<Command>::empty(),
            p@.metronome.tempo.value == settings.metronome_settings.tempo,
            p@.metronome.tempo.cached == crate::metronome::DEFAULT_TEMPO,
            p@.metronome.interval_events_to_emit@ == crate::metronome::spec_keep_intervals(
                settings.metronome_settings.interval_events_to_emit@,
            ),
            !p@.metronome.ticking,
            p@.metronome.time == 0,
            p@.metronome.previous_time == 0,
            p@.mixer.main == crate::mixer::spec_new_track(
                crate::track::TrackSettings { volume: SCALE },
            ),
            p@.mixer.subs == Seq::<(u64, crate::track::TrackView)>::empty(),
            p@.parameters == Seq::<(u64, Parameter)>::empty(),
            p@.instances == Seq::<(u64, Instance)>::empty(),
            p@.sequences == Seq::<(u64, SequenceInstance)>::empty(),
            crate::value::value_ok(settings.metronome_settings.tempo) ==> engine_ok(p@),
    {
        let dt = SCALE / (sample_rate as i64);
        proof {
            assert(0 <= SCALE as int / sample_rate as int <= SCALE as int) by (nonlinear_arith)
                requires
                    sample_rate as int >= 1,
                    SCALE as int > 0,
            ;
        }
        Processor {
            dt,
            command_capacity: settings.num_commands,
            sounds: Table::new(),
            command_queue: Vec::new(),
            thread_channels,
            metronome: Metronome::new(settings.metronome_settings),
            parameters: Parameters::new(),
            instances: Instances::new(),
            sequences: Sequences::new(),
            mixer: Mixer::new(),
        }
    }

    /// Apply one command to its owning subsystem.
    fn apply_command(&mut self, command: Command)
        requires
            engine_ok(old(self)@),
        ensures
            final(self)@ == spec_engine_apply(old(self)@, command),
            engine_ok(final(self)@),
    {
        match command {
            Command::Sound(sc) => match sc {
                SoundCommand::LoadSound(id, sound) => {
                    self.sounds.insert(id.0, sound.sanitize());
                    proof {
                        let s = old(self)@.sounds;
                        let i = spec_index_of(s, id.0);
                        lemma_index_of(s, id.0);
                        assert forall|j: int| 0 <= j < self@.sounds.len() implies sound_ok(
                            (#[trigger] self@.sounds[j]).1,
                        ) by {
                            if i >= 0 {
                                if j != i {
                                    assert(self@.sounds[j] == s[j]);
                                }
                            } else {
                                if j < s.len() {
                                    assert(self@.sounds[j] == s[j]);
                                }
                            }
                        }
                    }
                },
                SoundCommand::UnloadSound(id) => {
                    self.instances.run_command(
                        InstanceCommand::StopInstancesOfSound(id, None),
                        &mut self.sounds,
                    );
                    let removed = self.sounds.remove(id.0);
                    match removed {
                        Some(sound) => {
                            let _ = channel_push(
                                &mut self.thread_channels.sounds_to_unload_producer,
                                sound,
                            );
                        },
                        None => {},
                    }
                    proof {
                        let s1 = spec_instances_apply(
                            old(self)@.instances,
                            old(self)@.sounds,
                            InstanceCommand::StopInstancesOfSound(id, None),
                        ).1;
                        let i = spec_index_of(s1, id.0);
                        lemma_index_of(s1, id.0);
                        assert forall|j: int| 0 <= j < self@.sounds.len() implies sound_ok(
                            (#[trigger] self@.sounds[j]).1,
                        ) by {
                            if i >= 0 {
                                if j < i {
                                    assert(self@.sounds[j] == s1[j]);
                                } else {
                                    assert(self@.sounds[j] == s1[j + 1]);
                                }
                            }
                        }
                    }
                },
            },
            Command::Instance(ic) => {
                self.instances.run_command(ic, &mut self.sounds);
            },
            Command::Metronome(mc) => {
                self.metronome.run_command(mc);
            },
            Command::Sequence(sc) => {
                let removed = self.sequences.run_command(sc);
                match removed {
                    Some(seq_inst) => {
                        let _ = channel_push(
                            &mut self.thread_channels.sequences_to_unload_producer,
                            seq_inst,
                        );
                    },
                    None => {},
                }
            },
            Command::Mixer(mc) => {
                self.mixer.run_command(
                    mc,
                    &mut self.thread_channels.tracks_to_unload_producer,
                    &mut self.thread_channels.effect_slots_to_unload_producer,
                );
            },
            Command::Parameter(pc) => {
                self.parameters.run_command(pc);
            },
            Command::EmitCustomEvent(e) => {
                let _ = channel_push(
                    &mut self.thread_channels.event_producer,
                    Event::Custom(e),
                );
            },
        }
    }

    /// Drain the command channel (bounded by the configured capacity per
    /// frame), then apply every queued command strictly in arrival order.
    fn process_commands(&mut self) -> (drained: Ghost<Seq<Command>>)
        requires
            engine_ok(old(self)@),
        ensures
            final(self)@ == spec_engine_run_queue(old(self)@, drained@),
            engine_ok(final(self)@),
    {
        let ghost v0 = self@;
        let mut drained: Ghost<Seq<Command>> = Ghost(Seq::empty());
        let cap = self.command_capacity;
        let mut i: usize = 0;
        let mut done = false;
        proof {
            assert(self@.command_queue =~= v0.command_queue + drained@);
        }
        while i < cap && !done
            invariant
                i <= cap,
                self@ == (EngineView { command_queue: self@.command_queue, ..v0 }),
                self@.command_queue == v0.command_queue + drained@,
                engine_ok(v0),
                engine_ok(self@),
            decreases cap - i,
        {
            match channel_pop(&mut self.thread_channels.command_consumer) {
                Some(c) => {
                    let ghost d0 = drained@;
                    self.command_queue.push(c);
                    proof {
                        drained@ = d0.push(c);
                        assert(self@.command_queue =~= v0.command_queue + drained@);
                    }
                },
                None => {
                    done = true;
                },
            }
            i += 1;
        }
        let ghost all = v0.command_queue + drained@;
        let mut queue: Vec<Command> = Vec::new();
        core::mem::swap(&mut self.command_queue, &mut queue);
        let ghost n = all.len();
        let ghost k: int = 0;
        proof {
            assert(all.take(0) =~= Seq::<Command>::empty());
            assert(self@ == (EngineView { command_queue: Seq::empty(), ..spec_engine_apply_all(
                v0,
                all.take(0),
            ) }));
            assert(queue@ =~= all.skip(0));
        }
        while queue.len() > 0
            invariant
                engine_ok(self@),
                exists|k: int|
                    0 <= k <= all.len() && self@ == (EngineView {
                        command_queue: Seq::empty(),
                        ..#[trigger] spec_engine_apply_all(v0, all.take(k))
                    }) && queue@ == all.skip(k),
            decreases queue@.len(),
        {
            let ghost k = choose|k: int|
                0 <= k <= all.len() && self@ == (EngineView {
                    command_queue: Seq::empty(),
                    ..#[trigger] spec_engine_apply_all(v0, all.take(k))
                }) && queue@ == all.skip(k);
            let c = queue.remove(0);
            proof {
                assert(queue@ =~= all.skip(k + 1));
                assert(c == all[k]);
                assert(all.take(k + 1).drop_last() =~= all.take(k));
                assert(all.take(k + 1).last() == all[k]);
            }
            self.apply_command(c);
            proof {
                assert(self@ == (EngineView {
                    command_queue: Seq::empty(),
                    ..spec_engine_apply_all(v0, all.take(k + 1))
                }));
            }
        }
        proof {
            let k = choose|k: int|
                0 <= k <= all.len() && self@ == (EngineView {
                    command_queue: Seq::empty(),
                    ..#[trigger] spec_engine_apply_all(v0, all.take(k))
                }) && queue@ == all.skip(k);
            assert(all.skip(k).len() == 0);
            assert(k == all.len());
            assert(all.take(k) =~= all);
        }
        drained
    }

    /// Advance every sound's retrigger cooldown.
    fn update_sounds(&mut self)
        requires
            engine_ok(old(self)@),
        ensures
            final(self)@ == (EngineView {
                sounds: spec_sounds_update(old(self)@.sounds, old(self)@.dt as int),
                ..old(self)@
            }),
            engine_ok(final(self)@),
    {
        let dt = self.dt;
        let n = self.sounds.len();
        let mut i: usize = 0;
        while i < n
            invariant
                0 <= dt <= SCALAR_MAX,
                dt == old(self)@.dt,
                n == old(self)@.sounds.len(),
                i <= n,
                self@ == (EngineView { sounds: self@.sounds, ..old(self)@ }),
                self@.sounds.len() == n,
                forall|j: int|
                    0 <= j < n ==> (#[trigger] self@.sounds[j]).0 == old(self)@.sounds[j].0,
                forall|j: int| i <= j < n ==> #[trigger] self@.sounds[j] == old(self)@.sounds[j],
                forall|j: int|
                    0 <= j < i ==> #[trigger] self@.sounds[j] == spec_sounds_update(
                        old(self)@.sounds,
                        dt as int,
                    )[j],
                engine_ok(old(self)@),
                forall|j: int| 0 <= j < i ==> sound_ok((#[trigger] self@.sounds[j]).1),
            decreases n - i,
        {
            let s = self.sounds.value_at_mut(i);
            s.update_cooldown(dt);
            i += 1;
        }
        proof {
            assert(self@.sounds =~= spec_sounds_update(old(self)@.sounds, dt as int));
            assert forall|a: int, b: int| 0 <= a < b < self@.sounds.len() implies self@.sounds[a].0
                != self@.sounds[b].0 by {
                assert(self@.sounds[a].0 == old(self)@.sounds[a].0);
                assert(self@.sounds[b].0 == old(self)@.sounds[b].0);
            }
        }
    }

    /// Advance the metronome and translate each crossed interval into an
    /// outbound event; the event channel is best-effort.
    fn update_metronome(&mut self)
        requires
            engine_ok(old(self)@),
        ensures
            final(self)@ == (EngineView {
                metronome: spec_metronome_update(
                    old(self)@.metronome,
                    old(self)@.parameters,
                    old(self)@.dt as int,
                ).0,
                ..old(self)@
            }),
            engine_ok(final(self)@),
    {
        let emitted = self.metronome.update(self.dt, &self.parameters);
        let n = emitted.len();
        let mut i: usize = 0;
        while i < n
            invariant
                i <= n,
                n == emitted@.len(),
                self@ == (EngineView { metronome: self@.metronome, ..old(self)@ }),
                self@.metronome == spec_metronome_update(
                    old(self)@.metronome,
                    old(self)@.parameters,
                    old(self)@.dt as int,
                ).0,
                engine_ok(self@),
            decreases n - i,
        {
            let interval = emitted[i];
            let _ = channel_push(
                &mut self.thread_channels.event_producer,
                Event::MetronomeIntervalPassed(interval),
            );
            i += 1;
        }
    }

    /// Advance every sequence; the commands they emit join the queue and
    /// take effect next frame.
    fn update_sequences(&mut self)
        requires
            engine_ok(old(self)@),
        ensures
            final(self)@ == ({
                let (seqs2, outs) = spec_sequences_update(old(self)@.sequences, old(self)@.dt as int);
                EngineView {
                    sequences: seqs2,
                    command_queue: old(self)@.command_queue + outs.map(
                        |i: int, c: SequenceOutputCommand| spec_output_to_command(c),
                    ),
                    ..old(self)@
                }
            }),
            engine_ok(final(self)@),
    {
        let mut outs = self.sequences.update(
            self.dt,
            &mut self.thread_channels.sequences_to_unload_producer,
        );
        let ghost outs0 = outs@;
        let n = outs.len();
        let mut i: usize = 0;
        while i < n
            invariant
                i <= n,
                n == outs0.len(),
                outs@ == outs0,
                self@ == (EngineView { command_queue: self@.command_queue, ..({
                    let (seqs2, o) = spec_sequences_update(
                        old(self)@.sequences,
                        old(self)@.dt as int,
                    );
                    EngineView { sequences: seqs2, ..old(self)@ }
                }) }),
                self@.command_queue == old(self)@.command_queue + outs0.take(i as int).map(
                    |j: int, c: SequenceOutputCommand| spec_output_to_command(c),
                ),
                engine_ok(self@),
            decreases n - i,
        {
            let c = outs[i];
            self.command_queue.push(c.into_command());
            proof {
                assert(outs0.take(i + 1).map(
                    |j: int, c: SequenceOutputCommand| spec_output_to_command(c),
                ) =~= outs0.take(i as int).map(
                    |j: int, c: SequenceOutputCommand| spec_output_to_command(c),
                ).push(spec_output_to_command(outs0[i as int])));
                assert(self@.command_queue =~= old(self)@.command_queue + outs0.take(i + 1).map(
                    |j: int, c: SequenceOutputCommand| spec_output_to_command(c),
                ));
            }
            i += 1;
        }
        proof {
            assert(outs0.take(n as int) =~= outs0);
        }
    }

    /// Produce one stereo frame, running the whole fixed pipeline once.
    /// The drained commands are whatever the control side had enqueued at
    /// the moment of the call.
    pub fn process(&mut self) -> (out: Frame)
        requires
            engine_ok(old(self)@),
        ensures
            exists|drained: Seq<Command>|
                (final(self)@, out) == #[trigger] spec_engine_process(old(self)@, drained),
            engine_ok(final(self)@),
            frame_ok(out),
    {
        let drained = self.process_commands();
        let ghost s1 = self@;
        let dt = self.dt;
        self.parameters.update(dt);
        let ghost s2 = self@;
        self.update_sounds();
        let ghost s3 = self@;
        self.update_metronome();
        let ghost s4 = self@;
        self.update_sequences();
        let ghost s5 = self@;
        self.instances.process(dt, &self.sounds, &mut self.mixer, &self.parameters);
        let ghost s6 = self@;
        let out = self.mixer.process(dt, &self.parameters);
        proof {
            let v0 = old(self)@;
            let v1 = spec_engine_run_queue(v0, drained@);
            assert(s1 == v1);
            lemma_apply_all_keeps_dt(v0, v0.command_queue + drained@);
            assert(v1.dt == v0.dt);
            let v2 = EngineView { parameters: spec_parameters_update(v1.parameters, v0.dt as int), ..v1 };
            assert(s2 == v2);
            let v3 = EngineView { sounds: spec_sounds_update(v2.sounds, v0.dt as int), ..v2 };
            assert(s3 == v3);
            let m2 = spec_metronome_update(v3.metronome, v3.parameters, v0.dt as int).0;
            let v4 = EngineView { metronome: m2, ..v3 };
            assert(s4 == v4);
            let (seqs2, outs) = spec_sequences_update(v4.sequences, v0.dt as int);
            let v5 = EngineView {
                sequences: seqs2,
                command_queue: v4.command_queue + outs.map(
                    |i: int, c: SequenceOutputCommand| spec_output_to_command(c),
                ),
                ..v4
            };
            assert(s5 == v5);
            let (insts2, mv1) = spec_instances_process(
                v5.instances,
                v5.sounds,
                v5.mixer,
                v5.parameters,
                v0.dt as int,
            );
            let v6 = EngineView { instances: insts2, mixer: mv1, ..v5 };
            assert(s6 == v6);
            let (mv2, o) = spec_mixer_process(v6.mixer, v6.parameters);
            assert(self@ == (EngineView { mixer: mv2, ..v6 }));
            assert(out == o);
            assert((self@, out) == spec_engine_process(v0, drained@));
        }
        out
    }
}

} // verus!
