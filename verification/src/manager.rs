//! The control-side handle.
//!
//! The manager owns the producer ends of the command and quit channels and
//! the consumer ends of the event and reclamation channels. Each operation
//! builds one command, allocates any needed id synchronously, and pushes the
//! command into the bounded channel; a full channel surfaces as
//! `AudioError::CommandQueueFull` for the caller to retry or drop. The
//! ghost log `sent_log` records exactly which commands were handed over, so
//! every operation's contract pins the command it enqueues.

use vstd::prelude::*;
use crate::metronome::MetronomeSettings;
use crate::value::{Value, Tween};
use crate::parameter::ParameterId;
use crate::sound::{Sound, SoundId};
use crate::instance::{InstanceId, InstanceSettings};
use crate::sequence::{SequenceId, SequenceInstance};
use crate::track::{SubTrackId, TrackIndex, TrackSettings, EffectId, EffectSettings, EffectKind,
    Track, EffectSlot};
use crate::command::{Command, SoundCommand, InstanceCommand, MetronomeCommand, SequenceCommand,
    MixerCommand, ParameterCommand, Event};
use crate::channel::{channel, channel_push, channel_pop, CommandProducer, command_channel,
    command_producer_push, command_consumer_bound};
use crate::processor::ProcessorThreadChannels;

verus! {

/// Control-side failures: the command channel was full at the moment of the
/// push.
#[derive(Clone, Copy, Debug, PartialEq, Eq, Structural)]
pub enum AudioError {
    CommandQueueFull,
}

/// One capacity bound per channel or container, plus the metronome
/// configuration.
#[derive(Clone, Debug)]
pub struct AudioManagerSettings {
    /// The number of commands that can be sent to the audio thread at a time.
    pub num_commands: usize,
    /// The number of events the audio thread can send at a time.
    pub num_events: usize,
    /// The maximum number of sounds that can be loaded at a time.
    pub num_sounds: usize,
    /// The maximum number of parameters that can exist at a time.
    pub num_parameters: usize,
    /// The maximum number of instances of sounds that can be playing at a time.
    pub num_instances: usize,
    /// The maximum number of sequences that can be running at a time.
    pub num_sequences: usize,
    /// The maximum number of mixer tracks that can be used at a time.
    pub num_tracks: usize,
    /// The maximum number of effects per mixer track.
    pub num_effects_per_track: usize,
    /// Settings for the metronome.
    pub metronome_settings: MetronomeSettings,
}

impl Default for AudioManagerSettings {
    fn default() -> (r: AudioManagerSettings)
        ensures
            r.num_commands == 100,
            r.num_events == 100,
            r.num_sounds == 100,
            r.num_parameters == 100,
            r.num_instances == 100,
            r.num_sequences == 25,
            r.num_tracks == 100,
            r.num_effects_per_track == 10,
            r.metronome_settings.tempo == Value::Fixed(crate::metronome::DEFAULT_TEMPO),
            r.metronome_settings.interval_events_to_emit@ == Seq::<i64>::empty(),
    {
        AudioManagerSettings {
            num_commands: 100,
            num_events: 100,
            num_sounds: 100,
            num_parameters: 100,
            num_instances: 100,
            num_sequences: 25,
            num_tracks: 100,
            num_effects_per_track: 10,
            metronome_settings: MetronomeSettings::default(),
        }
    }
}

/// `a * b` capped at `usize::MAX`: the effect-slot reclamation channel is
/// sized for every track's whole chain.
fn sat_mul_usize(a: usize, b: usize) -> (r: usize)
    ensures
        r == if a * b <= usize::MAX as int {
            a * b
        } else {
            usize::MAX as int
        },
{
    if a == 0 {
        return 0;
    }
    if b <= usize::MAX / a {
        proof {
            assert(a * b <= a * (usize::MAX as int / a as int)) by (nonlinear_arith)
                requires
                    a > 0,
                    b <= usize::MAX as int / a as int,
            ;
            assert(a * (usize::MAX as int / a as int) <= usize::MAX as int) by (nonlinear_arith)
                requires
                    a > 0,
            ;
        }
        a * b
    } else {
        proof {
            assert(a * b > usize::MAX as int) by (nonlinear_arith)
                requires
                    a > 0,
                    b > usize::MAX as int / a as int,
            ;
        }
        usize::MAX
    }
}

/// The id that follows `id`: a fresh id per operation, wrapping at the
/// end of the range.
pub open spec fn spec_next_id(id: u64) -> u64 {
    if id == u64::MAX {
        0
    } else {
        (id + 1) as u64
    }
}

/// Plays and manages audio from the control context.
pub struct AudioManager {
    quit_signal_producer: ringbuf::Producer<bool>,
    command_producer: CommandProducer,
    event_consumer: ringbuf::Consumer<Event>,
    sounds_to_unload_consumer: ringbuf::Consumer<Sound>,
    sequences_to_unload_consumer: ringbuf::Consumer<SequenceInstance>,
    tracks_to_unload_consumer: ringbuf::Consumer<Track>,
    effect_slots_to_unload_consumer: ringbuf::Consumer<EffectSlot>,
    event_capacity: usize,
    reclaim_capacity: usize,
    next_id: u64,
}

impl AudioManager {
    pub closed spec fn next_id_spec(&self) -> u64 {
        self.next_id
    }

    /// Every command this handle has handed to the command channel, oldest
    /// first.
    pub closed spec fn sent_log(&self) -> Seq<Command> {
        self.command_producer.sent()
    }

    /// The command channel's configured capacity.
    pub closed spec fn command_bound(&self) -> nat {
        self.command_producer.bound()
    }

    pub closed spec fn event_capacity_spec(&self) -> usize {
        self.event_capacity
    }

    /// Build the manager together with the audio side's channel ends and
    /// the quit-signal consumer. Binding the hardware stream — which runs
    /// the processor against these ends on its own thread — is the
    /// embedding application's part.
    pub fn new(settings: &AudioManagerSettings) -> (r: (
        AudioManager,
        ProcessorThreadChannels,
        ringbuf::Consumer<bool>,
    ))
        ensures
            r.0.next_id_spec() == 0,
            r.0.sent_log() == Seq::<Command>::empty(),
            r.0.command_bound() == settings.num_commands,
            command_consumer_bound(r.1.command_consumer) == settings.num_commands,
            r.0.event_capacity_spec() == settings.num_events,
    {
        let (quit_signal_producer, quit_signal_consumer) = channel(1);
        let (command_producer, command_consumer) = command_channel(settings.num_commands);
        let (event_producer, event_consumer) = channel(settings.num_events);
        let (sounds_to_unload_producer, sounds_to_unload_consumer) = channel(settings.num_sounds);
        let (sequences_to_unload_producer, sequences_to_unload_consumer) = channel(
            settings.num_sequences,
        );
        let (tracks_to_unload_producer, tracks_to_unload_consumer) = channel(settings.num_tracks);
        let effect_slot_cap = sat_mul_usize(settings.num_tracks, settings.num_effects_per_track);
        let (effect_slots_to_unload_producer, effect_slots_to_unload_consumer) = channel(
            effect_slot_cap,
        );
        // one drain bound that covers every reclamation channel
        let mut reclaim_capacity = settings.num_sounds;
        if settings.num_sequences > reclaim_capacity {
            reclaim_capacity = settings.num_sequences;
        }
        if settings.num_tracks > reclaim_capacity {
            reclaim_capacity = settings.num_tracks;
        }
        if effect_slot_cap > reclaim_capacity {
            reclaim_capacity = effect_slot_cap;
        }
        let manager = AudioManager {
            quit_signal_producer,
            command_producer,
            event_consumer,
            sounds_to_unload_consumer,
            sequences_to_unload_consumer,
            tracks_to_unload_consumer,
            effect_slots_to_unload_consumer,
            event_capacity: settings.num_events,
            reclaim_capacity,
            next_id: 0,
        };
        let channels = ProcessorThreadChannels {
            command_consumer,
            event_producer,
            sounds_to_unload_producer,
            sequences_to_unload_producer,
            tracks_to_unload_producer,
            effect_slots_to_unload_producer,
        };
        (manager, channels, quit_signal_consumer)
    }

    /// The next id this manager will hand out; ids advance whether or not
    /// the accompanying command fits into the channel.
    fn alloc_id(&mut self) -> (r: u64)
        ensures
            r == old(self).next_id_spec(),
            final(self).next_id_spec() == spec_next_id(old(self).next_id_spec()),
            final(self).sent_log() == old(self).sent_log(),
            final(self).command_bound() == old(self).command_bound(),
    {
        let id = self.next_id;
        self.next_id = if self.next_id == u64::MAX {
            0
        } else {
            self.next_id + 1
        };
        id
    }

    fn send_command_to_processor(&mut self, command: Command) -> (r: Result<(), AudioError>)
        ensures
            r matches Ok(()) ==> final(self).sent_log() == old(self).sent_log().push(command),
            r matches Err(e) ==> e == AudioError::CommandQueueFull && final(self).sent_log()
                == old(self).sent_log(),
            final(self).next_id_spec() == old(self).next_id_spec(),
            final(self).command_bound() == old(self).command_bound(),
    {
        match command_producer_push(&mut self.command_producer, command) {
            Ok(()) => Ok(()),
            Err(_) => Err(AudioError::CommandQueueFull),
        }
    }

    /// Send a sound to the audio thread; the returned id names it from now
    /// on.
    pub fn add_sound(&mut self, sound: Sound) -> (r: Result<SoundId, AudioError>)
        ensures
            r matches Ok(id2) ==> id2 == SoundId(old(self).next_id_spec()) && final(self).sent_log()
                == old(self).sent_log().push(
                Command::Sound(SoundCommand::LoadSound(SoundId(old(self).next_id_spec()), sound)),
            ),
            r matches Err(e) ==> e == AudioError::CommandQueueFull && final(self).sent_log()
                == old(self).sent_log(),
            final(self).next_id_spec() == spec_next_id(old(self).next_id_spec()),
    {
        let allocated = SoundId(self.alloc_id());
        match self.send_command_to_processor(
            Command::Sound(SoundCommand::LoadSound(allocated, sound)),
        ) {
            Ok(()) => Ok(allocated),
            Err(e) => Err(e),
        }
    }

    /// Remove a sound from the audio thread, allowing its memory to be freed.
    pub fn remove_sound(&mut self, id: SoundId) -> (r: Result<(), AudioError>)
        ensures
            r matches Ok(()) ==> final(self).sent_log() == old(self).sent_log().push(
                Command::Sound(SoundCommand::UnloadSound(id)),
            ),
            r matches Err(e) ==> e == AudioError::CommandQueueFull && final(self).sent_log()
                == old(self).sent_log(),
            final(self).next_id_spec() == old(self).next_id_spec(),
    {
        self.send_command_to_processor(
            Command::Sound(SoundCommand::UnloadSound(id)),
        )
    }

    /// Play a sound: the instance id is allocated synchronously, so it can
    /// be referenced before the command is even applied.
    pub fn play_sound(&mut self, sound_id: SoundId, settings: InstanceSettings) -> (r: Result<InstanceId, AudioError>)
        ensures
            r matches Ok(id2) ==> id2 == InstanceId(old(self).next_id_spec()) && final(self).sent_log()
                == old(self).sent_log().push(
                Command::Instance(InstanceCommand::Play(InstanceId(old(self).next_id_spec()), sound_id,
                    None, settings)),
            ),
            r matches Err(e) ==> e == AudioError::CommandQueueFull && final(self).sent_log()
                == old(self).sent_log(),
            final(self).next_id_spec() == spec_next_id(old(self).next_id_spec()),
    {
        let allocated = InstanceId(self.alloc_id());
        match self.send_command_to_processor(
            Command::Instance(InstanceCommand::Play(allocated, sound_id, None, settings)),
        ) {
            Ok(()) => Ok(allocated),
            Err(e) => Err(e),
        }
    }

    /// Set the volume of an instance.
    pub fn set_instance_volume(&mut self, id: InstanceId, volume: Value) -> (r: Result<(), AudioError>)
        ensures
            r matches Ok(()) ==> final(self).sent_log() == old(self).sent_log().push(
                Command::Instance(InstanceCommand::SetInstanceVolume(id, volume)),
            ),
            r matches Err(e) ==> e == AudioError::CommandQueueFull && final(self).sent_log()
                == old(self).sent_log(),
            final(self).next_id_spec() == old(self).next_id_spec(),
    {
        self.send_command_to_processor(
            Command::Instance(InstanceCommand::SetInstanceVolume(id, volume)),
        )
    }

    /// Set the pitch of an instance.
    pub fn set_instance_pitch(&mut self, id: InstanceId, pitch: Value) -> (r: Result<(), AudioError>)
        ensures
            r matches Ok(()) ==> final(self).sent_log() == old(self).sent_log().push(
                Command::Instance(InstanceCommand::SetInstancePitch(id, pitch)),
            ),
            r matches Err(e) ==> e == AudioError::CommandQueueFull && final(self).sent_log()
                == old(self).sent_log(),
            final(self).next_id_spec() == old(self).next_id_spec(),
    {
        self.send_command_to_processor(
            Command::Instance(InstanceCommand::SetInstancePitch(id, pitch)),
        )
    }

    /// Pause a playing instance, with an optional fade-out tween.
    pub fn pause_instance(&mut self, instance_id: InstanceId, fade_tween: Option<Tween>) -> (r: Result<(), AudioError>)
        ensures
            r matches Ok(()) ==> final(self).sent_log() == old(self).sent_log().push(
                Command::Instance(InstanceCommand::PauseInstance(instance_id, fade_tween)),
            ),
            r matches Err(e) ==> e == AudioError::CommandQueueFull && final(self).sent_log()
                == old(self).sent_log(),
            final(self).next_id_spec() == old(self).next_id_spec(),
    {
        self.send_command_to_processor(
            Command::Instance(InstanceCommand::PauseInstance(instance_id, fade_tween)),
        )
    }

    /// Resume a paused instance, with an optional fade-in tween.
    pub fn resume_instance(&mut self, instance_id: InstanceId, fade_tween: Option<Tween>) -> (r: Result<(), AudioError>)
        ensures
            r matches Ok(()) ==> final(self).sent_log() == old(self).sent_log().push(
                Command::Instance(InstanceCommand::ResumeInstance(instance_id, fade_tween)),
            ),
            r matches Err(e) ==> e == AudioError::CommandQueueFull && final(self).sent_log()
                == old(self).sent_log(),
            final(self).next_id_spec() == old(self).next_id_spec(),
    {
        self.send_command_to_processor(
            Command::Instance(InstanceCommand::ResumeInstance(instance_id, fade_tween)),
        )
    }

    /// Stop an instance, with an optional fade-out tween; once stopped it cannot be restarted.
    pub fn stop_instance(&mut self, instance_id: InstanceId, fade_tween: Option<Tween>) -> (r: Result<(), AudioError>)
        ensures
            r matches Ok(()) ==> final(self).sent_log() == old(self).sent_log().push(
                Command::Instance(InstanceCommand::StopInstance(instance_id, fade_tween)),
            ),
            r matches Err(e) ==> e == AudioError::CommandQueueFull && final(self).sent_log()
                == old(self).sent_log(),
            final(self).next_id_spec() == old(self).next_id_spec(),
    {
        self.send_command_to_processor(
            Command::Instance(InstanceCommand::StopInstance(instance_id, fade_tween)),
        )
    }

    /// Pause all playing instances of a sound.
    pub fn pause_instances_of_sound(&mut self, sound_id: SoundId, fade_tween: Option<Tween>) -> (r: Result<(), AudioError>)
        ensures
            r matches Ok(()) ==> final(self).sent_log() == old(self).sent_log().push(
                Command::Instance(InstanceCommand::PauseInstancesOfSound(sound_id, fade_tween)),
            ),
            r matches Err(e) ==> e == AudioError::CommandQueueFull && final(self).sent_log()
                == old(self).sent_log(),
            final(self).next_id_spec() == old(self).next_id_spec(),
    {
        self.send_command_to_processor(
            Command::Instance(InstanceCommand::PauseInstancesOfSound(sound_id, fade_tween)),
        )
    }

    /// Resume all paused instances of a sound.
    pub fn resume_instances_of_sound(&mut self, sound_id: SoundId, fade_tween: Option<Tween>) -> (r: Result<(), AudioError>)
        ensures
            r matches Ok(()) ==> final(self).sent_log() == old(self).sent_log().push(
                Command::Instance(InstanceCommand::ResumeInstancesOfSound(sound_id, fade_tween)),
            ),
            r matches Err(e) ==> e == AudioError::CommandQueueFull && final(self).sent_log()
                == old(self).sent_log(),
            final(self).next_id_spec() == old(self).next_id_spec(),
    {
        self.send_command_to_processor(
            Command::Instance(InstanceCommand::ResumeInstancesOfSound(sound_id, fade_tween)),
        )
    }

    /// Stop all playing instances of a sound.
    pub fn stop_instances_of_sound(&mut self, sound_id: SoundId, fade_tween: Option<Tween>) -> (r: Result<(), AudioError>)
        ensures
            r matches Ok(()) ==> final(self).sent_log() == old(self).sent_log().push(
                Command::Instance(InstanceCommand::StopInstancesOfSound(sound_id, fade_tween)),
            ),
            r matches Err(e) ==> e == AudioError::CommandQueueFull && final(self).sent_log()
                == old(self).sent_log(),
            final(self).next_id_spec() == old(self).next_id_spec(),
    {
        self.send_command_to_processor(
            Command::Instance(InstanceCommand::StopInstancesOfSound(sound_id, fade_tween)),
        )
    }

    /// Set the tempo of the metronome.
    pub fn set_metronome_tempo(&mut self, tempo: Value) -> (r: Result<(), AudioError>)
        ensures
            r matches Ok(()) ==> final(self).sent_log() == old(self).sent_log().push(
                Command::Metronome(MetronomeCommand::SetMetronomeTempo(tempo)),
            ),
            r matches Err(e) ==> e == AudioError::CommandQueueFull && final(self).sent_log()
                == old(self).sent_log(),
            final(self).next_id_spec() == old(self).next_id_spec(),
    {
        self.send_command_to_processor(
            Command::Metronome(MetronomeCommand::SetMetronomeTempo(tempo)),
        )
    }

    /// Start or resume the metronome.
    pub fn start_metronome(&mut self) -> (r: Result<(), AudioError>)
        ensures
            r matches Ok(()) ==> final(self).sent_log() == old(self).sent_log().push(
                Command::Metronome(MetronomeCommand::StartMetronome),
            ),
            r matches Err(e) ==> e == AudioError::CommandQueueFull && final(self).sent_log()
                == old(self).sent_log(),
            final(self).next_id_spec() == old(self).next_id_spec(),
    {
        self.send_command_to_processor(
            Command::Metronome(MetronomeCommand::StartMetronome),
        )
    }

    /// Pause the metronome, keeping its beat time.
    pub fn pause_metronome(&mut self) -> (r: Result<(), AudioError>)
        ensures
            r matches Ok(()) ==> final(self).sent_log() == old(self).sent_log().push(
                Command::Metronome(MetronomeCommand::PauseMetronome),
            ),
            r matches Err(e) ==> e == AudioError::CommandQueueFull && final(self).sent_log()
                == old(self).sent_log(),
            final(self).next_id_spec() == old(self).next_id_spec(),
    {
        self.send_command_to_processor(
            Command::Metronome(MetronomeCommand::PauseMetronome),
        )
    }

    /// Stop the metronome and reset its beat time to zero.
    pub fn stop_metronome(&mut self) -> (r: Result<(), AudioError>)
        ensures
            r matches Ok(()) ==> final(self).sent_log() == old(self).sent_log().push(
                Command::Metronome(MetronomeCommand::StopMetronome),
            ),
            r matches Err(e) ==> e == AudioError::CommandQueueFull && final(self).sent_log()
                == old(self).sent_log(),
            final(self).next_id_spec() == old(self).next_id_spec(),
    {
        self.send_command_to_processor(
            Command::Metronome(MetronomeCommand::StopMetronome),
        )
    }

    /// Start a sequence. The step list is straight-line — scripts cannot
    /// loop — so there is nothing further for the handle to validate
    /// before enqueueing.
    pub fn start_sequence(&mut self, sequence: SequenceInstance) -> (r: Result<SequenceId, AudioError>)
        ensures
            r matches Ok(id2) ==> id2 == SequenceId(old(self).next_id_spec()) && final(self).sent_log()
                == old(self).sent_log().push(
                Command::Sequence(SequenceCommand::StartSequence(SequenceId(old(self).next_id_spec()),
                    sequence)),
            ),
            r matches Err(e) ==> e == AudioError::CommandQueueFull && final(self).sent_log()
                == old(self).sent_log(),
            final(self).next_id_spec() == spec_next_id(old(self).next_id_spec()),
    {
        let allocated = SequenceId(self.alloc_id());
        match self.send_command_to_processor(
            Command::Sequence(SequenceCommand::StartSequence(allocated, sequence)),
        ) {
            Ok(()) => Ok(allocated),
            Err(e) => Err(e),
        }
    }

    /// Mute a sequence: it keeps waiting for durations but emits nothing.
    pub fn mute_sequence(&mut self, id: SequenceId) -> (r: Result<(), AudioError>)
        ensures
            r matches Ok(()) ==> final(self).sent_log() == old(self).sent_log().push(
                Command::Sequence(SequenceCommand::MuteSequence(id)),
            ),
            r matches Err(e) ==> e == AudioError::CommandQueueFull && final(self).sent_log()
                == old(self).sent_log(),
            final(self).next_id_spec() == old(self).next_id_spec(),
    {
        self.send_command_to_processor(
            Command::Sequence(SequenceCommand::MuteSequence(id)),
        )
    }

    /// Unmute a sequence.
    pub fn unmute_sequence(&mut self, id: SequenceId) -> (r: Result<(), AudioError>)
        ensures
            r matches Ok(()) ==> final(self).sent_log() == old(self).sent_log().push(
                Command::Sequence(SequenceCommand::UnmuteSequence(id)),
            ),
            r matches Err(e) ==> e == AudioError::CommandQueueFull && final(self).sent_log()
                == old(self).sent_log(),
            final(self).next_id_spec() == old(self).next_id_spec(),
    {
        self.send_command_to_processor(
            Command::Sequence(SequenceCommand::UnmuteSequence(id)),
        )
    }

    /// Pause a sequence.
    pub fn pause_sequence(&mut self, id: SequenceId) -> (r: Result<(), AudioError>)
        ensures
            r matches Ok(()) ==> final(self).sent_log() == old(self).sent_log().push(
                Command::Sequence(SequenceCommand::PauseSequence(id)),
            ),
            r matches Err(e) ==> e == AudioError::CommandQueueFull && final(self).sent_log()
                == old(self).sent_log(),
            final(self).next_id_spec() == old(self).next_id_spec(),
    {
        self.send_command_to_processor(
            Command::Sequence(SequenceCommand::PauseSequence(id)),
        )
    }

    /// Resume a sequence.
    pub fn resume_sequence(&mut self, id: SequenceId) -> (r: Result<(), AudioError>)
        ensures
            r matches Ok(()) ==> final(self).sent_log() == old(self).sent_log().push(
                Command::Sequence(SequenceCommand::ResumeSequence(id)),
            ),
            r matches Err(e) ==> e == AudioError::CommandQueueFull && final(self).sent_log()
                == old(self).sent_log(),
            final(self).next_id_spec() == old(self).next_id_spec(),
    {
        self.send_command_to_processor(
            Command::Sequence(SequenceCommand::ResumeSequence(id)),
        )
    }

    /// Stop a sequence.
    pub fn stop_sequence(&mut self, id: SequenceId) -> (r: Result<(), AudioError>)
        ensures
            r matches Ok(()) ==> final(self).sent_log() == old(self).sent_log().push(
                Command::Sequence(SequenceCommand::StopSequence(id)),
            ),
            r matches Err(e) ==> e == AudioError::CommandQueueFull && final(self).sent_log()
                == old(self).sent_log(),
            final(self).next_id_spec() == old(self).next_id_spec(),
    {
        self.send_command_to_processor(
            Command::Sequence(SequenceCommand::StopSequence(id)),
        )
    }

    /// Pause a sequence and any instances it started. If the first push saturates, the second is not attempted, so
    /// the pair reaches the channel in order but possibly partially.
    pub fn pause_sequence_and_instances(&mut self, id: SequenceId, fade_tween: Option<Tween>) -> (r: Result<
        (),
        AudioError,
    >)
        ensures
            r matches Ok(()) ==> final(self).sent_log() == old(self).sent_log().push(
                Command::Sequence(SequenceCommand::PauseSequence(id)),
            ).push(Command::Instance(InstanceCommand::PauseInstancesOfSequence(id, fade_tween))),
            r matches Err(e) ==> e == AudioError::CommandQueueFull && (final(self).sent_log()
                == old(self).sent_log() || final(self).sent_log() == old(self).sent_log().push(
                Command::Sequence(SequenceCommand::PauseSequence(id)),
            )),
            final(self).next_id_spec() == old(self).next_id_spec(),
    {
        match self.send_command_to_processor(
            Command::Sequence(SequenceCommand::PauseSequence(id)),
        ) {
            Ok(()) => self.send_command_to_processor(
                Command::Instance(InstanceCommand::PauseInstancesOfSequence(id, fade_tween)),
            ),
            Err(e) => Err(e),
        }
    }

    /// Resume a sequence and any instances it started. If the first push saturates, the second is not attempted, so
    /// the pair reaches the channel in order but possibly partially.
    pub fn resume_sequence_and_instances(&mut self, id: SequenceId, fade_tween: Option<Tween>) -> (r: Result<
        (),
        AudioError,
    >)
        ensures
            r matches Ok(()) ==> final(self).sent_log() == old(self).sent_log().push(
                Command::Sequence(SequenceCommand::ResumeSequence(id)),
            ).push(Command::Instance(InstanceCommand::ResumeInstancesOfSequence(id, fade_tween))),
            r matches Err(e) ==> e == AudioError::CommandQueueFull && (final(self).sent_log()
                == old(self).sent_log() || final(self).sent_log() == old(self).sent_log().push(
                Command::Sequence(SequenceCommand::ResumeSequence(id)),
            )),
            final(self).next_id_spec() == old(self).next_id_spec(),
    {
        match self.send_command_to_processor(
            Command::Sequence(SequenceCommand::ResumeSequence(id)),
        ) {
            Ok(()) => self.send_command_to_processor(
                Command::Instance(InstanceCommand::ResumeInstancesOfSequence(id, fade_tween)),
            ),
            Err(e) => Err(e),
        }
    }

    /// Stop a sequence and any instances it started. If the first push saturates, the second is not attempted, so
    /// the pair reaches the channel in order but possibly partially.
    pub fn stop_sequence_and_instances(&mut self, id: SequenceId, fade_tween: Option<Tween>) -> (r: Result<
        (),
        AudioError,
    >)
        ensures
            r matches Ok(()) ==> final(self).sent_log() == old(self).sent_log().push(
                Command::Sequence(SequenceCommand::StopSequence(id)),
            ).push(Command::Instance(InstanceCommand::StopInstancesOfSequence(id, fade_tween))),
            r matches Err(e) ==> e == AudioError::CommandQueueFull && (final(self).sent_log()
                == old(self).sent_log() || final(self).sent_log() == old(self).sent_log().push(
                Command::Sequence(SequenceCommand::StopSequence(id)),
            )),
            final(self).next_id_spec() == old(self).next_id_spec(),
    {
        match self.send_command_to_processor(
            Command::Sequence(SequenceCommand::StopSequence(id)),
        ) {
            Ok(()) => self.send_command_to_processor(
                Command::Instance(InstanceCommand::StopInstancesOfSequence(id, fade_tween)),
            ),
            Err(e) => Err(e),
        }
    }

    /// Create a parameter with the given starting value.
    pub fn add_parameter(&mut self, value: i64) -> (r: Result<ParameterId, AudioError>)
        ensures
            r matches Ok(id2) ==> id2 == ParameterId(old(self).next_id_spec()) && final(self).sent_log()
                == old(self).sent_log().push(
                Command::Parameter(ParameterCommand::AddParameter(ParameterId(old(self).next_id_spec()),
                    value)),
            ),
            r matches Err(e) ==> e == AudioError::CommandQueueFull && final(self).sent_log()
                == old(self).sent_log(),
            final(self).next_id_spec() == spec_next_id(old(self).next_id_spec()),
    {
        let allocated = ParameterId(self.alloc_id());
        match self.send_command_to_processor(
            Command::Parameter(ParameterCommand::AddParameter(allocated, value)),
        ) {
            Ok(()) => Ok(allocated),
            Err(e) => Err(e),
        }
    }

    /// Remove a parameter.
    pub fn remove_parameter(&mut self, id: ParameterId) -> (r: Result<(), AudioError>)
        ensures
            r matches Ok(()) ==> final(self).sent_log() == old(self).sent_log().push(
                Command::Parameter(ParameterCommand::RemoveParameter(id)),
            ),
            r matches Err(e) ==> e == AudioError::CommandQueueFull && final(self).sent_log()
                == old(self).sent_log(),
            final(self).next_id_spec() == old(self).next_id_spec(),
    {
        self.send_command_to_processor(
            Command::Parameter(ParameterCommand::RemoveParameter(id)),
        )
    }

    /// Set a parameter, optionally tweening toward the target.
    pub fn set_parameter(&mut self, id: ParameterId, value: i64, tween: Option<Tween>) -> (r: Result<(), AudioError>)
        ensures
            r matches Ok(()) ==> final(self).sent_log() == old(self).sent_log().push(
                Command::Parameter(ParameterCommand::SetParameter(id, value, tween)),
            ),
            r matches Err(e) ==> e == AudioError::CommandQueueFull && final(self).sent_log()
                == old(self).sent_log(),
            final(self).next_id_spec() == old(self).next_id_spec(),
    {
        self.send_command_to_processor(
            Command::Parameter(ParameterCommand::SetParameter(id, value, tween)),
        )
    }

    /// Create a mixer sub-track.
    pub fn add_sub_track(&mut self, settings: TrackSettings) -> (r: Result<SubTrackId, AudioError>)
        ensures
            r matches Ok(id2) ==> id2 == SubTrackId(old(self).next_id_spec()) && final(self).sent_log()
                == old(self).sent_log().push(
                Command::Mixer(MixerCommand::AddSubTrack(SubTrackId(old(self).next_id_spec()),
                    settings)),
            ),
            r matches Err(e) ==> e == AudioError::CommandQueueFull && final(self).sent_log()
                == old(self).sent_log(),
            final(self).next_id_spec() == spec_next_id(old(self).next_id_spec()),
    {
        let allocated = SubTrackId(self.alloc_id());
        match self.send_command_to_processor(
            Command::Mixer(MixerCommand::AddSubTrack(allocated, settings)),
        ) {
            Ok(()) => Ok(allocated),
            Err(e) => Err(e),
        }
    }

    /// Remove a sub-track from the mixer.
    pub fn remove_sub_track(&mut self, id: SubTrackId) -> (r: Result<(), AudioError>)
        ensures
            r matches Ok(()) ==> final(self).sent_log() == old(self).sent_log().push(
                Command::Mixer(MixerCommand::RemoveSubTrack(id)),
            ),
            r matches Err(e) ==> e == AudioError::CommandQueueFull && final(self).sent_log()
                == old(self).sent_log(),
            final(self).next_id_spec() == old(self).next_id_spec(),
    {
        self.send_command_to_processor(
            Command::Mixer(MixerCommand::RemoveSubTrack(id)),
        )
    }

    /// Add an effect to a track; the returned id permanently names the
    /// track it was created for.
    pub fn add_effect_to_track(&mut self, track_index: TrackIndex, effect: EffectKind, settings: EffectSettings) -> (r: Result<EffectId, AudioError>)
        ensures
            r matches Ok(id2) ==> id2 == (EffectId { index: old(self).next_id_spec(), track: track_index }) && final(self).sent_log()
                == old(self).sent_log().push(
                Command::Mixer(MixerCommand::AddEffect(track_index, EffectId {
                    index: old(self).next_id_spec(), track: track_index }, effect, settings)),
            ),
            r matches Err(e) ==> e == AudioError::CommandQueueFull && final(self).sent_log()
                == old(self).sent_log(),
            final(self).next_id_spec() == spec_next_id(old(self).next_id_spec()),
    {
        let allocated = EffectId { index: self.alloc_id(), track: track_index };
        match self.send_command_to_processor(
            Command::Mixer(MixerCommand::AddEffect(track_index, allocated, effect, settings)),
        ) {
            Ok(()) => Ok(allocated),
            Err(e) => Err(e),
        }
    }

    /// Remove an effect from the mixer.
    pub fn remove_effect(&mut self, effect_id: EffectId) -> (r: Result<(), AudioError>)
        ensures
            r matches Ok(()) ==> final(self).sent_log() == old(self).sent_log().push(
                Command::Mixer(MixerCommand::RemoveEffect(effect_id)),
            ),
            r matches Err(e) ==> e == AudioError::CommandQueueFull && final(self).sent_log()
                == old(self).sent_log(),
            final(self).next_id_spec() == old(self).next_id_spec(),
    {
        self.send_command_to_processor(
            Command::Mixer(MixerCommand::RemoveEffect(effect_id)),
        )
    }

    /// Every event the audio thread has sent since the last call, oldest
    /// first.
    pub fn events(&mut self) -> (r: Vec<Event>)
        ensures
            r@.len() <= old(self).event_capacity_spec(),
    {
        let mut events: Vec<Event> = Vec::new();
        let cap = self.event_capacity;
        let mut i: usize = 0;
        let mut done = false;
        while i < cap && !done
            invariant
                i <= cap,
                events@.len() <= i,
            decreases cap - i,
        {
            match channel_pop(&mut self.event_consumer) {
                Some(event) => {
                    events.push(event);
                },
                None => {
                    done = true;
                },
            }
            i += 1;
        }
        events
    }

    /// Drop resources the audio thread has handed back: unloaded sounds,
    /// finished sequences, removed tracks and effect slots. The drain bound
    /// covers every reclamation channel's capacity, so one call empties
    /// them all.
    pub fn free_unused_resources(&mut self) {
        let cap = self.reclaim_capacity;
        let mut i: usize = 0;
        let mut done = false;
        while i < cap && !done
            invariant
                i <= cap,
            decreases cap - i,
        {
            match channel_pop(&mut self.sounds_to_unload_consumer) {
                Some(_) => {},
                None => {
                    done = true;
                },
            }
            i += 1;
        }
        let mut i: usize = 0;
        let mut done = false;
        while i < cap && !done
            invariant
                i <= cap,
            decreases cap - i,
        {
            match channel_pop(&mut self.sequences_to_unload_consumer) {
                Some(_) => {},
                None => {
                    done = true;
                },
            }
            i += 1;
        }
        let mut i: usize = 0;
        let mut done = false;
        while i < cap && !done
            invariant
                i <= cap,
            decreases cap - i,
        {
            match channel_pop(&mut self.tracks_to_unload_consumer) {
                Some(_) => {},
                None => {
                    done = true;
                },
            }
            i += 1;
        }
        let mut i: usize = 0;
        let mut done = false;
        while i < cap && !done
            invariant
                i <= cap,
            decreases cap - i,
        {
            match channel_pop(&mut self.effect_slots_to_unload_consumer) {
                Some(_) => {},
                None => {
                    done = true;
                },
            }
            i += 1;
        }
    }

    /// Signal the audio thread to shut down and release the stream. The
    /// quit channel carries nothing but this flag, and this method is its
    /// only writer.
    pub fn quit(&mut self) {
        let _ = channel_push(&mut self.quit_signal_producer, true);
    }
}

} // verus!
