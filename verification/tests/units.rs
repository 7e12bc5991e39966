//! Subsystem-level behaviour: metronome crossings, parameter tweens,
//! cached-value degradation, mixer routing and effect chains, sequences.

use kira::fixed::{SCALE, SCALAR_MAX};
use kira::frame::Frame;
use kira::value::{Value, Tween, Easing, Mapping, CachedValue, identity_mapping};
use kira::parameter::{ParameterId, Parameters};
use kira::command::{ParameterCommand, MixerCommand, SequenceOutputCommand};
use kira::metronome::{Metronome, MetronomeSettings};
use kira::mixer::Mixer;
use kira::track::{Track, TrackIndex, TrackSettings, SubTrackId, EffectId, EffectSettings,
    EffectKind, EffectSlot};
use kira::sound::Sound;
use kira::sequence::{SequenceInstance, SequenceStep};
use kira::channel::channel;

fn empty_params() -> Parameters {
    Parameters::new()
}

fn metronome_120bpm(intervals: Vec<i64>) -> Metronome {
    let mut m = Metronome::new(MetronomeSettings {
        tempo: Value::Fixed(120 * SCALE),
        interval_events_to_emit: intervals,
    });
    m.start();
    m
}

#[test]
fn metronome_emits_exactly_four_events_over_two_seconds() {
    // 120 BPM, interval set {1.0}: advancing exactly 2.0 s of simulated
    // time yields exactly 4 interval events.
    let params = empty_params();
    let mut m = metronome_120bpm(vec![SCALE]);
    let dts = [350_000i64, 400_000, 400_000, 350_000, 500_000];
    assert_eq!(dts.iter().sum::<i64>(), 2 * SCALE);
    let mut events: Vec<i64> = Vec::new();
    for dt in dts {
        let mut emitted = m.update(dt, &params);
        events.append(&mut emitted);
    }
    assert_eq!(events, vec![SCALE, SCALE, SCALE, SCALE]);
}

#[test]
fn metronome_first_update_emits_every_interval_in_registration_order() {
    let params = empty_params();
    let mut m = metronome_120bpm(vec![SCALE / 4, SCALE, SCALE / 2]);
    let emitted = m.update(10_000, &params);
    assert_eq!(emitted, vec![SCALE / 4, SCALE, SCALE / 2]);
}

#[test]
fn metronome_event_count_is_floor_of_beats_plus_one() {
    // The proven counting law on concrete values: 200 updates of 10 ms at
    // 120 BPM cover 4.0 beats; with every step below the interval the
    // events for interval 1.0 number floor(4.0 / 1.0) + 1.
    let params = empty_params();
    let mut m = metronome_120bpm(vec![SCALE]);
    let mut count = 0;
    for _ in 0..200 {
        count += m.update(10_000, &params).len();
    }
    assert_eq!(count, 5);
}

#[test]
fn metronome_pause_keeps_time_stop_resets_it() {
    let params = empty_params();
    let mut m = metronome_120bpm(vec![]);
    let _ = m.update(500_000, &params);
    assert_eq!(m.time, SCALE); // one beat after half a second at 120 BPM
    m.pause();
    let _ = m.update(500_000, &params);
    assert_eq!(m.time, SCALE);
    m.stop();
    assert_eq!(m.time, 0);
    assert_eq!(m.previous_time, 0);
}

#[test]
fn metronome_not_ticking_emits_nothing() {
    let params = empty_params();
    let mut m = Metronome::new(MetronomeSettings {
        tempo: Value::Fixed(120 * SCALE),
        interval_events_to_emit: vec![SCALE],
    });
    assert!(m.update(500_000, &params).is_empty());
    assert_eq!(m.effective_tempo(), 0);
    m.start();
    assert_eq!(m.effective_tempo(), 120 * SCALE);
}

#[test]
fn parameter_linear_tween_is_exact_at_halfway_and_at_the_end() {
    let id = ParameterId(1);
    let mut params = Parameters::new();
    params.run_command(ParameterCommand::AddParameter(id, 0));
    params.run_command(ParameterCommand::SetParameter(
        id,
        10 * SCALE,
        Some(Tween { duration: SCALE, easing: Easing::Linear }),
    ));
    params.update(SCALE / 2);
    assert_eq!(params.get(id).unwrap().value, 5 * SCALE);
    params.update(SCALE / 2);
    let p = params.get(id).unwrap();
    assert_eq!(p.value, 10 * SCALE);
    assert!(p.active.is_none());
    // no drift on further advances
    params.update(SCALE);
    params.update(123_456);
    assert_eq!(params.get(id).unwrap().value, 10 * SCALE);
}

#[test]
fn parameter_quadratic_easing_is_exact_at_halfway() {
    let id = ParameterId(2);
    let mut params = Parameters::new();
    params.run_command(ParameterCommand::AddParameter(id, 0));
    params.run_command(ParameterCommand::SetParameter(
        id,
        10 * SCALE,
        Some(Tween { duration: SCALE, easing: Easing::InQuad }),
    ));
    params.update(SCALE / 2);
    // eased progress (1/2)^2 = 1/4 of the way to 10.0
    assert_eq!(params.get(id).unwrap().value, 5 * SCALE / 2);
}

#[test]
fn parameter_set_without_tween_snaps_immediately() {
    let id = ParameterId(3);
    let mut params = Parameters::new();
    params.run_command(ParameterCommand::AddParameter(id, 7 * SCALE));
    params.run_command(ParameterCommand::SetParameter(id, -2 * SCALE, None));
    assert_eq!(params.get(id).unwrap().value, -2 * SCALE);
}

#[test]
fn parameter_commands_apply_in_enqueue_order() {
    let id = ParameterId(4);
    let mut params = Parameters::new();
    params.run_command(ParameterCommand::AddParameter(id, SCALE));
    params.run_command(ParameterCommand::SetParameter(id, 2 * SCALE, None));
    params.run_command(ParameterCommand::SetParameter(id, 3 * SCALE, None));
    assert_eq!(params.get(id).unwrap().value, 3 * SCALE);
}

#[test]
fn parameter_values_are_clamped_into_the_scalar_range() {
    let id = ParameterId(5);
    let mut params = Parameters::new();
    params.run_command(ParameterCommand::AddParameter(id, i64::MAX));
    assert_eq!(params.get(id).unwrap().value, SCALAR_MAX);
}

#[test]
fn stale_parameter_commands_are_no_ops() {
    let id = ParameterId(6);
    let ghost_id = ParameterId(60);
    let mut params = Parameters::new();
    params.run_command(ParameterCommand::AddParameter(id, SCALE));
    params.run_command(ParameterCommand::SetParameter(ghost_id, 9 * SCALE, None));
    params.run_command(ParameterCommand::RemoveParameter(ghost_id));
    assert_eq!(params.get(id).unwrap().value, SCALE);
    assert!(params.get(ghost_id).is_none());
}

#[test]
fn cached_value_keeps_last_resolved_value_after_parameter_removal() {
    let id = ParameterId(7);
    let mut params = Parameters::new();
    params.run_command(ParameterCommand::AddParameter(id, 3 * SCALE));
    let mut cv = CachedValue::new(Value::Parameter(id, identity_mapping()), 0);
    cv.update(&params);
    assert_eq!(cv.value(), 3 * SCALE);
    params.run_command(ParameterCommand::RemoveParameter(id));
    cv.update(&params);
    cv.update(&params);
    // the last resolved value is retained, never a default
    assert_eq!(cv.value(), 3 * SCALE);
}

#[test]
fn cached_value_fixed_recopies_its_literal() {
    let params = empty_params();
    let mut cv = CachedValue::new(Value::Fixed(3 * SCALE), 0);
    assert_eq!(cv.value(), 0);
    cv.update(&params);
    assert_eq!(cv.value(), 3 * SCALE);
}

#[test]
fn cached_value_applies_its_mapping() {
    let id = ParameterId(8);
    let mut params = Parameters::new();
    params.run_command(ParameterCommand::AddParameter(id, 2 * SCALE));
    let mapping = Mapping { scale: SCALE / 2, offset: SCALE };
    let mut cv = CachedValue::new(Value::Parameter(id, mapping), 0);
    cv.update(&params);
    // 2.0 * 0.5 + 1.0 = 2.0
    assert_eq!(cv.value(), 2 * SCALE);
}

#[test]
fn mixer_add_input_to_unknown_sub_track_reaches_the_main_output() {
    let params = empty_params();
    let mut mixer = Mixer::new();
    let frame = Frame::new(1_000, -2_000);
    mixer.add_input(TrackIndex::Sub(SubTrackId(42)), frame);
    let out = mixer.process(10_000, &params);
    assert_eq!(out, frame);
}

#[test]
fn mixer_sub_track_feeds_the_main_track() {
    let params = empty_params();
    let mut mixer = Mixer::new();
    let (mut tracks_p, _tracks_c) = channel::<Track>(4);
    let (mut slots_p, _slots_c) = channel::<EffectSlot>(4);
    let id = SubTrackId(1);
    mixer.run_command(
        MixerCommand::AddSubTrack(id, TrackSettings { volume: SCALE / 2 }),
        &mut tracks_p,
        &mut slots_p,
    );
    mixer.add_input(TrackIndex::Sub(id), Frame::new(100_000, 200_000));
    let out = mixer.process(10_000, &params);
    assert_eq!(out, Frame::new(50_000, 100_000));
}

#[test]
fn gain_effect_scales_the_track_output() {
    let params = empty_params();
    let mut mixer = Mixer::new();
    let (mut tracks_p, _tracks_c) = channel::<Track>(4);
    let (mut slots_p, _slots_c) = channel::<EffectSlot>(4);
    let eid = EffectId { index: 9, track: TrackIndex::Main };
    mixer.run_command(
        MixerCommand::AddEffect(
            TrackIndex::Main,
            eid,
            EffectKind::Gain(CachedValue::new(Value::Fixed(SCALE / 2), SCALE / 2)),
            EffectSettings::default(),
        ),
        &mut tracks_p,
        &mut slots_p,
    );
    mixer.add_input(TrackIndex::Main, Frame::new(100_000, 200_000));
    let out = mixer.process(10_000, &params);
    assert_eq!(out, Frame::new(50_000, 100_000));
}

#[test]
fn removing_a_sub_track_then_its_effect_is_a_silent_no_op() {
    // The reclaimed sub-track took its effect chain with it: the
    // remove-effect command aimed at it afterwards does nothing and
    // nothing panics.
    let params = empty_params();
    let mut mixer = Mixer::new();
    let (mut tracks_p, mut tracks_c) = channel::<Track>(4);
    let (mut slots_p, _slots_c) = channel::<EffectSlot>(4);
    let sid = SubTrackId(3);
    let eid = EffectId { index: 11, track: TrackIndex::Sub(sid) };
    mixer.run_command(
        MixerCommand::AddSubTrack(sid, TrackSettings::default()),
        &mut tracks_p,
        &mut slots_p,
    );
    mixer.run_command(
        MixerCommand::AddEffect(
            TrackIndex::Sub(sid),
            eid,
            EffectKind::Gain(CachedValue::new(Value::Fixed(0), 0)),
            EffectSettings::default(),
        ),
        &mut tracks_p,
        &mut slots_p,
    );
    mixer.run_command(MixerCommand::RemoveSubTrack(sid), &mut tracks_p, &mut slots_p);
    // the track was handed to the reclamation channel
    assert!(tracks_c.pop().is_some());
    mixer.run_command(MixerCommand::RemoveEffect(eid), &mut tracks_p, &mut slots_p);
    // the zero-gain effect is gone with its track: input passes untouched
    let frame = Frame::new(7_000, 7_000);
    mixer.add_input(TrackIndex::Sub(sid), frame);
    let out = mixer.process(10_000, &params);
    assert_eq!(out, frame);
}

#[test]
fn sound_cooldown_blocks_until_it_elapses() {
    let mut sound = Sound::new(SCALE, TrackIndex::Main, 100_000, SCALE / 2);
    assert!(sound.ready());
    sound.start_cooldown();
    assert!(!sound.ready());
    sound.update_cooldown(SCALE / 4);
    assert!(!sound.ready());
    sound.update_cooldown(SCALE / 4);
    assert!(sound.ready());
}

#[test]
fn sequence_waits_then_emits_and_finishes() {
    let mut seq = SequenceInstance::new(vec![
        SequenceStep::Emit(SequenceOutputCommand::EmitCustomEvent(7)),
        SequenceStep::Wait(SCALE),
        SequenceStep::Emit(SequenceOutputCommand::EmitCustomEvent(8)),
    ]);
    let (out, finished) = seq.advance(SCALE / 2);
    assert_eq!(out, vec![SequenceOutputCommand::EmitCustomEvent(7)]);
    assert!(!finished);
    let (out, finished) = seq.advance(SCALE / 2);
    assert_eq!(out, vec![SequenceOutputCommand::EmitCustomEvent(8)]);
    assert!(finished);
}

#[test]
fn muted_sequence_keeps_waiting_but_emits_nothing() {
    let mut seq = SequenceInstance::new(vec![
        SequenceStep::Wait(SCALE),
        SequenceStep::Emit(SequenceOutputCommand::EmitCustomEvent(5)),
    ]);
    seq.muted = true;
    let (out, finished) = seq.advance(SCALE);
    assert!(out.is_empty());
    assert!(finished);
}

#[test]
fn paused_sequence_holds_still() {
    let mut seq = SequenceInstance::new(vec![
        SequenceStep::Wait(SCALE),
        SequenceStep::Emit(SequenceOutputCommand::EmitCustomEvent(5)),
    ]);
    seq.paused = true;
    let (out, finished) = seq.advance(10 * SCALE);
    assert!(out.is_empty());
    assert!(!finished);
    seq.paused = false;
    let (out, finished) = seq.advance(SCALE);
    assert_eq!(out, vec![SequenceOutputCommand::EmitCustomEvent(5)]);
    assert!(finished);
}

#[test]
fn frame_arithmetic_clamps_at_the_scalar_range() {
    let a = Frame::new(SCALAR_MAX, -SCALAR_MAX);
    let b = Frame::new(SCALAR_MAX, -SCALAR_MAX);
    let sum = a.add(b);
    assert_eq!(sum, Frame::new(SCALAR_MAX, -SCALAR_MAX));
    let scaled = Frame::new(2 * SCALE, -4 * SCALE).scale(SCALE / 2);
    assert_eq!(scaled, Frame::new(SCALE, -2 * SCALE));
}

#[test]
fn parameter_out_quad_easing_is_exact_at_halfway() {
    let id = ParameterId(9);
    let mut params = Parameters::new();
    params.run_command(ParameterCommand::AddParameter(id, 0));
    params.run_command(ParameterCommand::SetParameter(
        id,
        10 * SCALE,
        Some(Tween { duration: SCALE, easing: Easing::OutQuad }),
    ));
    params.update(SCALE / 2);
    // eased progress 1 - (1/2)^2 = 3/4 of the way to 10.0
    assert_eq!(params.get(id).unwrap().value, 15 * SCALE / 2);
}
