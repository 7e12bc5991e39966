//! Commands crossing from the control context into the audio context, and
//! events travelling the other way. A command is immutable once enqueued and
//! its ownership transfers fully to the processor; one referencing a stale
//! id degrades to a no-op at apply time.

use vstd::prelude::*;
use crate::parameter::ParameterId;
use crate::value::{Tween, Value};
use crate::track::{SubTrackId, TrackIndex, TrackSettings, EffectId, EffectSettings, EffectKind};
use crate::sound::{Sound, SoundId};
use crate::instance::{InstanceId, InstanceSettings};
use crate::sequence::{SequenceId, SequenceInstance};

verus! {

#[derive(Clone, Copy, Debug, PartialEq, Eq, Structural)]
pub enum SoundCommand {
    LoadSound(SoundId, Sound),
    UnloadSound(SoundId),
}

#[derive(Clone, Copy, Debug, PartialEq, Eq, Structural)]
pub enum InstanceCommand {
    Play(InstanceId, SoundId, Option<SequenceId>, InstanceSettings),
    SetInstanceVolume(InstanceId, Value),
    SetInstancePitch(InstanceId, Value),
    PauseInstance(InstanceId, Option<Tween>),
    ResumeInstance(InstanceId, Option<Tween>),
    StopInstance(InstanceId, Option<Tween>),
    PauseInstancesOfSound(SoundId, Option<Tween>),
    ResumeInstancesOfSound(SoundId, Option<Tween>),
    StopInstancesOfSound(SoundId, Option<Tween>),
    PauseInstancesOfSequence(SequenceId, Option<Tween>),
    ResumeInstancesOfSequence(SequenceId, Option<Tween>),
    StopInstancesOfSequence(SequenceId, Option<Tween>),
}

#[derive(Clone, Copy, Debug, PartialEq, Eq, Structural)]
pub enum MetronomeCommand {
    SetMetronomeTempo(Value),
    StartMetronome,
    PauseMetronome,
    StopMetronome,
}

#[derive(Debug)]
pub enum SequenceCommand {
    StartSequence(SequenceId, SequenceInstance),
    MuteSequence(SequenceId),
    UnmuteSequence(SequenceId),
    PauseSequence(SequenceId),
    ResumeSequence(SequenceId),
    StopSequence(SequenceId),
}

#[derive(Clone, Copy, Debug, PartialEq, Eq, Structural)]
pub enum MixerCommand {
    AddSubTrack(SubTrackId, TrackSettings),
    RemoveSubTrack(SubTrackId),
    AddEffect(TrackIndex, EffectId, EffectKind, EffectSettings),
    RemoveEffect(EffectId),
}

#[derive(Clone, Copy, Debug, PartialEq, Eq, Structural)]
pub enum ParameterCommand {
    AddParameter(ParameterId, i64),
    RemoveParameter(ParameterId),
    SetParameter(ParameterId, i64, Option<Tween>),
}

/// What a sequence step may feed back into the engine: no sequence control,
/// so sequence advancement cannot recurse.
#[derive(Clone, Copy, Debug, PartialEq, Eq, Structural)]
pub enum SequenceOutputCommand {
    Instance(InstanceCommand),
    Metronome(MetronomeCommand),
    Parameter(ParameterCommand),
    EmitCustomEvent(i64),
}

/// Every intent the control side can enqueue, grouped by subsystem.
#[derive(Debug)]
pub enum Command {
    Sound(SoundCommand),
    Instance(InstanceCommand),
    Metronome(MetronomeCommand),
    Sequence(SequenceCommand),
    Mixer(MixerCommand),
    Parameter(ParameterCommand),
    EmitCustomEvent(i64),
}

pub open spec fn spec_output_to_command(c: SequenceOutputCommand) -> Command {
    match c {
        SequenceOutputCommand::Instance(ic) => Command::Instance(ic),
        SequenceOutputCommand::Metronome(mc) => Command::Metronome(mc),
        SequenceOutputCommand::Parameter(pc) => Command::Parameter(pc),
        SequenceOutputCommand::EmitCustomEvent(e) => Command::EmitCustomEvent(e),
    }
}

impl SequenceOutputCommand {
    /// Lift a sequence-emitted command into the processor's command type.
    pub fn into_command(self) -> (r: Command)
        ensures
            r == spec_output_to_command(self),
    {
        match self {
            SequenceOutputCommand::Instance(ic) => Command::Instance(ic),
            SequenceOutputCommand::Metronome(mc) => Command::Metronome(mc),
            SequenceOutputCommand::Parameter(pc) => Command::Parameter(pc),
            SequenceOutputCommand::EmitCustomEvent(e) => Command::EmitCustomEvent(e),
        }
    }
}

/// What the audio thread reports back to the control thread.
#[derive(Clone, Copy, Debug, PartialEq, Eq, Structural)]
pub enum Event {
    MetronomeIntervalPassed(i64),
    Custom(i64),
}

} // verus!
