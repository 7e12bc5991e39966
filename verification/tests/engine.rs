//! End-to-end behaviour through the control handle, the real bounded
//! channels and the processor's per-frame pipeline.

use kira::fixed::SCALE;
use kira::frame::Frame;
use kira::manager::{AudioManager, AudioManagerSettings, AudioError};
use kira::metronome::MetronomeSettings;
use kira::processor::Processor;
use kira::sound::Sound;
use kira::sequence::{SequenceInstance, SequenceStep};
use kira::command::{Event, SequenceOutputCommand};
use kira::instance::InstanceSettings;
use kira::track::TrackIndex;
use kira::value::Value;

fn settings_with_intervals(intervals: Vec<i64>) -> AudioManagerSettings {
    let mut settings = AudioManagerSettings::default();
    settings.metronome_settings = MetronomeSettings {
        tempo: Value::Fixed(120 * SCALE),
        interval_events_to_emit: intervals,
    };
    settings
}

#[test]
fn command_queue_saturates_at_capacity_and_recovers_after_a_drain() {
    let settings = AudioManagerSettings::default();
    let (mut manager, channels, _quit) = AudioManager::new(&settings);
    // 100 samples per second: one processing step is 10 ms.
    let mut processor = Processor::new(100, settings.clone(), channels);
    for _ in 0..settings.num_commands {
        assert_eq!(manager.start_metronome(), Ok(()));
    }
    // the channel is at its configured capacity: the next enqueue reports
    // saturation synchronously
    assert_eq!(manager.start_metronome(), Err(AudioError::CommandQueueFull));
    // one drain-apply cycle makes room again
    let _ = processor.process();
    assert_eq!(manager.start_metronome(), Ok(()));
}

#[test]
fn playing_a_sound_routes_its_level_to_the_output() {
    let settings = AudioManagerSettings::default();
    let (mut manager, channels, _quit) = AudioManager::new(&settings);
    let mut processor = Processor::new(1_000, settings.clone(), channels);
    let sound = Sound::new(SCALE, TrackIndex::Main, 500_000, 0);
    let sound_id = manager.add_sound(sound).unwrap();
    let _instance_id = manager.play_sound(sound_id, InstanceSettings::default()).unwrap();
    let out = processor.process();
    assert_eq!(out, Frame::new(500_000, 500_000));
}

#[test]
fn unloading_a_sound_stops_its_instances() {
    let settings = AudioManagerSettings::default();
    let (mut manager, channels, _quit) = AudioManager::new(&settings);
    let mut processor = Processor::new(1_000, settings.clone(), channels);
    let sound_id = manager.add_sound(Sound::new(SCALE, TrackIndex::Main, 400_000, 0)).unwrap();
    let _ = manager.play_sound(sound_id, InstanceSettings::default()).unwrap();
    assert_eq!(processor.process(), Frame::new(400_000, 400_000));
    manager.remove_sound(sound_id).unwrap();
    assert_eq!(processor.process(), Frame::new(0, 0));
    // the unloaded sound is handed back for deallocation off the audio path
    manager.free_unused_resources();
}

#[test]
fn metronome_interval_events_reach_the_control_side_in_order() {
    let settings = settings_with_intervals(vec![SCALE]);
    let (mut manager, channels, _quit) = AudioManager::new(&settings);
    // 5 samples per second: one step is 0.2 s, 0.4 beats at 120 BPM.
    let mut processor = Processor::new(5, settings.clone(), channels);
    manager.start_metronome().unwrap();
    for _ in 0..10 {
        let _ = processor.process();
    }
    let events = manager.events();
    // beats pass 0 (first tick), 1, 2, 3 and land exactly on 4:
    // floor(4.0) + 1 events, as the counting law states for sub-interval
    // steps
    assert_eq!(events.len(), 5);
    for event in events {
        assert_eq!(event, Event::MetronomeIntervalPassed(SCALE));
    }
}

#[test]
fn sequence_commands_take_effect_on_the_following_frame() {
    let settings = AudioManagerSettings::default();
    let (mut manager, channels, _quit) = AudioManager::new(&settings);
    let mut processor = Processor::new(1_000, settings.clone(), channels);
    let sequence = SequenceInstance::new(vec![
        SequenceStep::Emit(SequenceOutputCommand::EmitCustomEvent(9)),
    ]);
    let _id = manager.start_sequence(sequence).unwrap();
    let _ = processor.process();
    // the emitted command joined the queue during this frame and has not
    // been applied yet
    assert!(manager.events().is_empty());
    let _ = processor.process();
    assert_eq!(manager.events(), vec![Event::Custom(9)]);
    manager.free_unused_resources();
}

#[test]
fn parameter_tween_drives_playback_volume_end_to_end() {
    let settings = AudioManagerSettings::default();
    let (mut manager, channels, _quit) = AudioManager::new(&settings);
    // 2 samples per second: one step is half a second.
    let mut processor = Processor::new(2, settings.clone(), channels);
    let param_id = manager.add_parameter(SCALE).unwrap();
    let sound_id = manager.add_sound(Sound::new(10 * SCALE, TrackIndex::Main, 100_000, 0)).unwrap();
    let _ = manager
        .play_sound(
            sound_id,
            InstanceSettings {
                volume: Value::Parameter(param_id, kira::value::identity_mapping()),
                pitch: Value::Fixed(SCALE),
            },
        )
        .unwrap();
    // full volume on the first frame
    assert_eq!(processor.process(), Frame::new(100_000, 100_000));
    manager.set_parameter(param_id, 0, None).unwrap();
    // the snap is visible on the next frame
    assert_eq!(processor.process(), Frame::new(0, 0));
    manager.quit();
}

#[test]
fn pausing_with_a_fade_ramps_the_output_down() {
    let settings = AudioManagerSettings::default();
    let (mut manager, channels, _quit) = AudioManager::new(&settings);
    // 2 samples per second: one step is half a second.
    let mut processor = Processor::new(2, settings.clone(), channels);
    let sound_id = manager.add_sound(Sound::new(10 * SCALE, TrackIndex::Main, 100_000, 0)).unwrap();
    let instance_id = manager.play_sound(sound_id, InstanceSettings::default()).unwrap();
    assert_eq!(processor.process(), Frame::new(100_000, 100_000));
    manager
        .pause_instance(
            instance_id,
            Some(kira::value::Tween { duration: SCALE, easing: kira::value::Easing::Linear }),
        )
        .unwrap();
    // half a second into the one-second fade: half volume
    assert_eq!(processor.process(), Frame::new(50_000, 50_000));
    // the fade completes: silence, and the instance pauses
    assert_eq!(processor.process(), Frame::new(0, 0));
    assert_eq!(processor.process(), Frame::new(0, 0));
    // resuming without a tween restores full volume on the next frame
    manager.resume_instance(instance_id, None).unwrap();
    assert_eq!(processor.process(), Frame::new(100_000, 100_000));
}

#[test]
fn a_stopped_instance_cannot_be_restarted() {
    let settings = AudioManagerSettings::default();
    let (mut manager, channels, _quit) = AudioManager::new(&settings);
    let mut processor = Processor::new(1_000, settings.clone(), channels);
    let sound_id = manager.add_sound(Sound::new(10 * SCALE, TrackIndex::Main, 100_000, 0)).unwrap();
    let instance_id = manager.play_sound(sound_id, InstanceSettings::default()).unwrap();
    assert_eq!(processor.process(), Frame::new(100_000, 100_000));
    manager.stop_instance(instance_id, None).unwrap();
    assert_eq!(processor.process(), Frame::new(0, 0));
    manager.resume_instance(instance_id, None).unwrap();
    assert_eq!(processor.process(), Frame::new(0, 0));
}

#[test]
fn retrigger_cooldown_makes_an_immediate_replay_a_no_op() {
    let settings = AudioManagerSettings::default();
    let (mut manager, channels, _quit) = AudioManager::new(&settings);
    let mut processor = Processor::new(1_000, settings.clone(), channels);
    let sound_id = manager
        .add_sound(Sound::new(10 * SCALE, TrackIndex::Main, 100_000, SCALE))
        .unwrap();
    let _ = manager.play_sound(sound_id, InstanceSettings::default()).unwrap();
    let _ = manager.play_sound(sound_id, InstanceSettings::default()).unwrap();
    // the first play starts the cooldown, so the second is dropped: one
    // instance, not two
    assert_eq!(processor.process(), Frame::new(100_000, 100_000));
}
