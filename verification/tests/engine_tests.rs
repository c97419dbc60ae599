use midah::engine::{AudioCommand, AudioEngine, SinkReport};
use midah::error::AudioError;
use midah::gain::Gain;
use midah::instance::{SinkPlan, SinkTarget};
use midah::manager::AudioManager;

const CABLE: &str = "CABLE Input (VB-Audio Virtual Cable)";
const SPEAKERS: &str = "Speakers";
const MIC: &str = "Microphone";

fn routed_manager() -> AudioManager {
    let outputs = vec![SPEAKERS.to_string(), CABLE.to_string()];
    let inputs = vec![MIC.to_string()];
    AudioManager::new(&outputs, &Some(SPEAKERS.to_string()), &inputs, &Some(MIC.to_string()))
        .expect("both defaults are listed")
}

fn play(sound_id: &str, start: Option<u64>, volume: Gain, local_only: bool) -> AudioCommand {
    AudioCommand::Play {
        file_path: format!("/sounds/{}.mp3", sound_id),
        sound_id: sound_id.to_string(),
        start_position: start,
        sound_volume: volume,
        local_only,
    }
}

fn open_all(plan: &mut SinkPlan) -> Vec<SinkTarget> {
    let mut tried = Vec::new();
    while let Some(target) = plan.next_target() {
        tried.push(target);
        plan.try_add_device_stream(true);
    }
    tried
}

fn start(
    engine: &mut AudioEngine,
    manager: &AudioManager,
    sound_id: &str,
    start_position: Option<u64>,
    volume: Gain,
    local_only: bool,
    duration: Option<u64>,
    now: u64,
) {
    let outcome = engine.handle_command(&play(sound_id, start_position, volume, local_only), manager);
    assert!(outcome.accepted);
    let mut plan = outcome.start.expect("a play hands back a plan");
    open_all(&mut plan);
    let played = engine.handle_play_command(sound_id, start_position, volume, &plan, Ok(duration), now);
    assert_eq!(played, Ok(()));
}

fn volumes(engine: &AudioEngine, sound_id: &str) -> Vec<u64> {
    engine
        .sink_volumes(sound_id)
        .expect("the sound plays")
        .iter()
        .map(|v| v.trillionths())
        .collect()
}

#[test]
fn position_follows_the_clock_from_the_start_offset() {
    let manager = routed_manager();
    let mut engine = AudioEngine::new();
    start(&mut engine, &manager, "s1", Some(2_000_000), Gain::full(), false, Some(10_000_000), 50_000);
    assert_eq!(engine.get_playback_position("s1", 50_000), Some(2_000_000));
    assert_eq!(engine.get_playback_position("s1", 3_050_000), Some(5_000_000));
    let seconds = engine.get_playback_position("s1", 3_050_000).unwrap() as f64 / 1e6;
    assert!((seconds - 5.0).abs() < 1e-9);
}

#[test]
fn position_ends_with_the_known_duration() {
    let manager = routed_manager();
    let mut engine = AudioEngine::new();
    start(&mut engine, &manager, "s1", None, Gain::full(), false, Some(4_000_000), 0);
    assert_eq!(engine.get_playback_position("s1", 3_999_999), Some(3_999_999));
    assert_eq!(engine.get_playback_position("s1", 4_000_000), None);
    assert_eq!(engine.get_playback_position("absent", 0), None);
}

#[test]
fn position_of_unknown_or_zero_duration_never_ends() {
    let manager = routed_manager();
    let mut engine = AudioEngine::new();
    start(&mut engine, &manager, "live", Some(1), Gain::full(), false, None, 10);
    start(&mut engine, &manager, "zero", Some(1), Gain::full(), false, Some(0), 10);
    assert_eq!(engine.get_playback_position("live", 1_000_000_010), Some(1_000_000_001));
    assert_eq!(engine.get_playback_position("zero", 1_000_000_010), Some(1_000_000_001));
    assert_eq!(engine.get_playback_position("live", 5), Some(1));
    assert_eq!(engine.get_playback_position("live", u64::MAX), Some(u64::MAX - 9));
    start(&mut engine, &manager, "far", Some(u64::MAX - 3), Gain::full(), false, None, 10);
    assert_eq!(engine.get_playback_position("far", 13), Some(u64::MAX));
    assert_eq!(engine.get_playback_position("far", 500), Some(u64::MAX));
}

#[test]
fn two_devices_each_follow_their_own_gain() {
    let mut manager = routed_manager();
    manager.set_virtual_volume(500_000);
    manager.set_output_volume(800_000);
    let mut engine = AudioEngine::new();
    let outcome = engine.handle_command(&play("s2", None, Gain::full(), false), &manager);
    let mut plan = outcome.start.unwrap();
    assert_eq!(open_all(&mut plan), vec![SinkTarget::Virtual, SinkTarget::Output]);
    engine
        .handle_play_command("s2", None, Gain::full(), &plan, Ok(Some(1_000_000)), 0)
        .unwrap();
    assert_eq!(volumes(&engine, "s2"), vec![500_000_000_000, 800_000_000_000]);
    let as_float: Vec<f64> = volumes(&engine, "s2").iter().map(|v| *v as f64 / 1e12).collect();
    assert_eq!(as_float, vec![0.5, 0.8]);

    manager.set_virtual_volume(200_000);
    let outcome = engine.handle_command(&AudioCommand::UpdateDeviceVolumes, &manager);
    assert!(outcome.accepted && !outcome.exit && outcome.stopped.is_empty());
    assert_eq!(volumes(&engine, "s2"), vec![200_000_000_000, 800_000_000_000]);
}

#[test]
fn a_single_sink_follows_the_output_gain() {
    let mut manager = routed_manager();
    manager.set_virtual_volume(500_000);
    manager.set_output_volume(800_000);
    let mut engine = AudioEngine::new();
    let outcome = engine.handle_command(&play("s", None, Gain::full(), false), &manager);
    let mut plan = outcome.start.unwrap();
    assert_eq!(plan.next_target(), Some(SinkTarget::Virtual));
    plan.try_add_device_stream(true);
    assert_eq!(plan.next_target(), Some(SinkTarget::Output));
    plan.try_add_device_stream(false);
    assert_eq!(plan.next_target(), None);
    engine.handle_play_command("s", None, Gain::full(), &plan, Ok(None), 0).unwrap();
    assert_eq!(volumes(&engine, "s"), vec![500_000_000_000]);
    engine.handle_command(&AudioCommand::UpdateDeviceVolumes, &manager);
    assert_eq!(volumes(&engine, "s"), vec![800_000_000_000]);
}

#[test]
fn local_only_has_one_sink_at_the_sound_gain() {
    let mut manager = routed_manager();
    manager.set_virtual_volume(100_000);
    manager.set_output_volume(200_000);
    let mut engine = AudioEngine::new();
    let gain = Gain::clamped(700_000);
    let outcome = engine.handle_command(&play("local", None, gain, true), &manager);
    let mut plan = outcome.start.unwrap();
    assert_eq!(open_all(&mut plan), vec![SinkTarget::SystemDefault]);
    engine.handle_play_command("local", None, gain, &plan, Ok(None), 0).unwrap();
    assert_eq!(volumes(&engine, "local"), vec![700_000_000_000]);

    let unconfigured = AudioManager::empty();
    let outcome = engine.handle_command(&play("bare", None, gain, true), &unconfigured);
    let mut plan = outcome.start.unwrap();
    assert_eq!(open_all(&mut plan), vec![SinkTarget::SystemDefault]);
    assert_eq!(plan.sinks().len(), 1);
}

#[test]
fn fallback_is_tried_only_when_nothing_else_opened() {
    let manager = routed_manager();
    let mut plan = SinkPlan::setup_devices_for_playback(&manager, false);
    plan.try_add_device_stream(false);
    plan.try_add_device_stream(false);
    assert_eq!(plan.next_target(), Some(SinkTarget::SystemDefault));
    plan.try_add_device_stream(true);
    assert_eq!(plan.next_target(), None);
    let sinks = plan.sinks();
    assert_eq!(sinks.len(), 1);
    assert_eq!(sinks[0].target(), SinkTarget::SystemDefault);
    assert_eq!(sinks[0].device_volume().millionths(), 1_000_000);

    let mut plan = SinkPlan::setup_devices_for_playback(&manager, false);
    plan.try_add_device_stream(false);
    plan.try_add_device_stream(true);
    assert_eq!(plan.next_target(), None);
    assert_eq!(plan.sinks().len(), 1);
    assert_eq!(plan.sinks()[0].target(), SinkTarget::Output);

    let mut plan = SinkPlan::setup_devices_for_playback(&AudioManager::empty(), false);
    assert_eq!(plan.next_target(), Some(SinkTarget::SystemDefault));
    plan.try_add_device_stream(false);
    assert_eq!(plan.next_target(), None);
    assert!(plan.sinks().is_empty());
    plan.try_add_device_stream(true);
    assert!(plan.sinks().is_empty());
}

#[test]
fn a_failed_decode_adds_nothing_and_the_engine_goes_on() {
    let manager = routed_manager();
    let mut engine = AudioEngine::new();
    let outcome = engine.handle_command(&play("bad", None, Gain::full(), false), &manager);
    let mut plan = outcome.start.unwrap();
    open_all(&mut plan);
    let played = engine.handle_play_command(
        "bad",
        None,
        Gain::full(),
        &plan,
        Err(AudioError::DecodeOpenFailed),
        0,
    );
    assert_eq!(played, Err(AudioError::DecodeOpenFailed));
    assert!(engine.get_playing_sounds().is_empty());
    assert_eq!(engine.get_playback_position("bad", 1), None);
    assert!(engine.sink_volumes("bad").is_none());
    assert!(engine.is_running());

    start(&mut engine, &manager, "good", None, Gain::full(), false, Some(1_000_000), 0);
    assert_eq!(engine.get_playing_sounds(), vec!["good".to_string()]);
    assert_eq!(engine.get_playback_position("good", 10), Some(10));
}

#[test]
fn a_failed_decode_still_discards_the_sound_it_replaces() {
    let manager = routed_manager();
    let mut engine = AudioEngine::new();
    start(&mut engine, &manager, "s", None, Gain::full(), false, None, 0);
    let outcome = engine.handle_command(&play("s", None, Gain::full(), false), &manager);
    assert_eq!(outcome.stopped, vec!["s".to_string()]);
    let plan = outcome.start.unwrap();
    let played = engine.handle_play_command(
        "s",
        None,
        Gain::full(),
        &plan,
        Err(AudioError::UnsupportedSampleEncoding),
        0,
    );
    assert_eq!(played, Err(AudioError::UnsupportedSampleEncoding));
    assert!(engine.get_playing_sounds().is_empty());
}

#[test]
fn a_drained_sound_is_swept_without_a_stop() {
    let manager = routed_manager();
    let mut engine = AudioEngine::new();
    start(&mut engine, &manager, "a", None, Gain::full(), false, Some(1_000_000), 0);
    start(&mut engine, &manager, "b", None, Gain::full(), false, Some(1_000_000), 0);
    let reports = vec![
        SinkReport { sound_id: "a".to_string(), queue_empty: vec![true, false] },
        SinkReport { sound_id: "b".to_string(), queue_empty: vec![true, true] },
    ];
    let removed = engine.cleanup_finished_sounds(&reports);
    assert_eq!(removed, vec!["b".to_string()]);
    assert_eq!(engine.get_playing_sounds(), vec!["a".to_string()]);
    assert_eq!(engine.get_playback_position("b", 1), None);
    assert_eq!(engine.get_playback_position("a", 1), Some(1));

    let short = vec![SinkReport { sound_id: "a".to_string(), queue_empty: vec![true] }];
    assert!(engine.cleanup_finished_sounds(&short).is_empty());
    assert!(engine.cleanup_finished_sounds(&Vec::new()).is_empty());
    let twice = vec![
        SinkReport { sound_id: "a".to_string(), queue_empty: vec![false, false] },
        SinkReport { sound_id: "a".to_string(), queue_empty: vec![true, true] },
    ];
    assert!(engine.cleanup_finished_sounds(&twice).is_empty());
    let done = vec![SinkReport { sound_id: "a".to_string(), queue_empty: vec![true, true, false] }];
    assert_eq!(engine.cleanup_finished_sounds(&done), vec!["a".to_string()]);
    assert!(engine.get_playing_sounds().is_empty());
}

#[test]
fn a_sound_without_any_sink_is_swept_at_once() {
    let manager = AudioManager::empty();
    let mut engine = AudioEngine::new();
    let outcome = engine.handle_command(&play("mute", None, Gain::full(), false), &manager);
    let mut plan = outcome.start.unwrap();
    while plan.next_target().is_some() {
        plan.try_add_device_stream(false);
    }
    engine.handle_play_command("mute", None, Gain::full(), &plan, Ok(None), 0).unwrap();
    assert_eq!(engine.get_playing_sounds(), vec!["mute".to_string()]);
    let reports = vec![SinkReport { sound_id: "mute".to_string(), queue_empty: Vec::new() }];
    assert_eq!(engine.cleanup_finished_sounds(&reports), vec!["mute".to_string()]);
}

#[test]
fn the_table_holds_one_entry_per_id() {
    let manager = routed_manager();
    let mut engine = AudioEngine::new();
    start(&mut engine, &manager, "a", None, Gain::full(), false, None, 0);
    start(&mut engine, &manager, "b", None, Gain::full(), false, None, 0);
    start(&mut engine, &manager, "a", Some(7), Gain::clamped(250_000), false, None, 100);
    assert_eq!(engine.get_playing_sounds(), vec!["b".to_string(), "a".to_string()]);
    assert_eq!(engine.get_playback_position("a", 100), Some(7));
    let plan = SinkPlan::setup_devices_for_playback(&manager, true);
    engine.handle_play_command("b", None, Gain::full(), &plan, Ok(None), 0).unwrap();
    assert_eq!(engine.get_playing_sounds(), vec!["a".to_string(), "b".to_string()]);
}

#[test]
fn play_then_stop_leaves_nothing() {
    let manager = routed_manager();
    let mut engine = AudioEngine::new();
    start(&mut engine, &manager, "a", None, Gain::full(), false, None, 0);
    let outcome = engine.handle_command(&AudioCommand::Stop { sound_id: "a".to_string() }, &manager);
    assert_eq!(outcome.stopped, vec!["a".to_string()]);
    assert!(outcome.start.is_none());
    assert!(engine.get_playing_sounds().is_empty());
}

#[test]
fn stop_of_an_absent_id_changes_nothing() {
    let manager = routed_manager();
    let mut engine = AudioEngine::new();
    start(&mut engine, &manager, "a", None, Gain::clamped(300_000), false, Some(5), 1);
    let before = (engine.get_playing_sounds(), volumes(&engine, "a"), engine.get_playback_position("a", 2));
    let outcome = engine.handle_command(&AudioCommand::Stop { sound_id: "zz".to_string() }, &manager);
    assert!(outcome.accepted);
    assert!(outcome.stopped.is_empty());
    assert!(!outcome.exit);
    let after = (engine.get_playing_sounds(), volumes(&engine, "a"), engine.get_playback_position("a", 2));
    assert_eq!(before, after);
}

#[test]
fn stop_all_empties_the_table() {
    let manager = routed_manager();
    let mut engine = AudioEngine::new();
    start(&mut engine, &manager, "a", None, Gain::full(), false, None, 0);
    start(&mut engine, &manager, "b", None, Gain::full(), false, None, 0);
    let outcome = engine.handle_command(&AudioCommand::StopAll, &manager);
    assert_eq!(outcome.stopped, vec!["a".to_string(), "b".to_string()]);
    assert!(!outcome.exit);
    assert!(engine.is_running());
    assert!(engine.get_playing_sounds().is_empty());
}

#[test]
fn shutdown_twice_is_shutdown_once() {
    let manager = routed_manager();
    let mut engine = AudioEngine::new();
    start(&mut engine, &manager, "a", None, Gain::full(), false, None, 0);
    let first = engine.handle_command(&AudioCommand::Shutdown, &manager);
    assert!(first.accepted && first.exit);
    assert_eq!(first.stopped, vec!["a".to_string()]);
    assert!(!engine.is_running());
    let second = engine.handle_command(&AudioCommand::Shutdown, &manager);
    assert!(!second.accepted);
    assert!(second.exit);
    assert!(second.stopped.is_empty());
    assert!(!engine.is_running());
    assert!(engine.get_playing_sounds().is_empty());
}

#[test]
fn nothing_is_taken_after_shutdown() {
    let manager = routed_manager();
    let mut engine = AudioEngine::new();
    engine.handle_command(&AudioCommand::Shutdown, &manager);
    let outcome = engine.handle_command(&play("late", None, Gain::full(), false), &manager);
    assert!(!outcome.accepted);
    assert!(outcome.start.is_none());
    let plan = SinkPlan::setup_devices_for_playback(&manager, false);
    let played = engine.handle_play_command("late", None, Gain::full(), &plan, Ok(None), 0);
    assert_eq!(played, Err(AudioError::ChannelClosed));
    assert!(engine.get_playing_sounds().is_empty());
}

#[test]
fn a_closed_channel_ends_the_worker() {
    let manager = routed_manager();
    let mut engine = AudioEngine::new();
    start(&mut engine, &manager, "a", None, Gain::full(), false, None, 0);
    let turn = engine.audio_thread_worker(&Some(AudioCommand::UpdateDeviceVolumes), &manager);
    assert!(!turn.exit);
    let last = engine.audio_thread_worker(&None, &manager);
    assert!(last.exit);
    assert_eq!(last.stopped, vec!["a".to_string()]);
    assert!(!engine.is_running());
}

#[test]
fn sound_gain_changes_only_the_named_sound() {
    let mut manager = routed_manager();
    manager.set_virtual_volume(500_000);
    manager.set_output_volume(1_000_000);
    let mut engine = AudioEngine::new();
    start(&mut engine, &manager, "a", None, Gain::full(), false, None, 0);
    start(&mut engine, &manager, "b", None, Gain::full(), false, None, 0);
    let cmd = AudioCommand::UpdateSoundVolume {
        sound_id: "a".to_string(),
        sound_volume: Gain::clamped(400_000),
    };
    engine.handle_command(&cmd, &manager);
    assert_eq!(volumes(&engine, "a"), vec![200_000_000_000, 400_000_000_000]);
    assert_eq!(volumes(&engine, "b"), vec![500_000_000_000, 1_000_000_000_000]);
    let absent = AudioCommand::UpdateSoundVolume {
        sound_id: "zz".to_string(),
        sound_volume: Gain::silent(),
    };
    engine.handle_command(&absent, &manager);
    assert_eq!(volumes(&engine, "a"), vec![200_000_000_000, 400_000_000_000]);
    assert_eq!(engine.get_playing_sounds(), vec!["a".to_string(), "b".to_string()]);
}
