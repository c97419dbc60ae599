use midah::commands::{gain_text, get_audio_status, list_all_devices};
use midah::dependencies::{located_path, version_check_passed};
use midah::gain::Gain;
use midah::hotkeys::{
    HotkeyAction, HotkeyBinding, HotkeyManager, Key, KeyEvent, Modifiers, RemovedBinding, Timestamp,
};
use midah::manager::AudioManager;
use midah::shell::ShellProcessResult;

const NOW: Timestamp = Timestamp { secs: 1_700_000_000, nanos: 0 };

fn none() -> Modifiers {
    Modifiers::default()
}

fn ctrl() -> Modifiers {
    Modifiers { ctrl: true, ..Modifiers::default() }
}

fn play(id: &str) -> HotkeyAction {
    HotkeyAction::PlaySound { sound_id: id.to_string() }
}

fn ids(manager: &HotkeyManager) -> Vec<String> {
    manager.get_bindings().into_iter().map(|b: HotkeyBinding| b.id).collect()
}

fn pressed(manager: &mut HotkeyManager, key: Key) -> Option<String> {
    let action = manager.handle_event(KeyEvent::Press(key));
    manager.handle_event(KeyEvent::Release(key));
    action.map(|a| match a {
        HotkeyAction::PlaySound { sound_id } => sound_id,
        HotkeyAction::StopAllSounds => "<stop>".to_string(),
    })
}

#[test]
fn a_bound_key_sets_off_its_action() {
    let mut manager = HotkeyManager::new();
    let added = manager.add_binding("A".to_string(), none(), play("s1"), Some("s1".to_string()), NOW);
    assert_eq!(added.id, "sound_s1");
    assert_eq!(added.persist_for, Some("s1".to_string()));
    let stop = manager.add_binding_no_persist(
        "ESCAPE".to_string(),
        none(),
        HotkeyAction::StopAllSounds,
        Some("global_stop".to_string()),
        NOW,
    );
    assert_eq!(stop.id, "global_stop");
    assert_eq!(stop.persist_for, None);
    assert_eq!(pressed(&mut manager, Key::KeyA), Some("s1".to_string()));
    assert_eq!(pressed(&mut manager, Key::Escape), Some("<stop>".to_string()));
    assert_eq!(pressed(&mut manager, Key::KeyB), None);
    assert_eq!(manager.handle_event(KeyEvent::Other).is_none(), true);
    assert_eq!(ids(&manager), vec!["sound_s1".to_string(), "global_stop".to_string()]);
}

#[test]
fn nothing_is_stored_for_a_stop_or_without_a_sound() {
    let mut manager = HotkeyManager::new();
    let a = manager.add_binding("A".to_string(), none(), HotkeyAction::StopAllSounds, Some("x".to_string()), NOW);
    assert_eq!(a.persist_for, None);
    let b = manager.add_binding("B".to_string(), none(), play("s"), None, NOW);
    assert_eq!(b.persist_for, None);
    let c = manager.add_binding_with_persist("C".to_string(), none(), play("t"), Some("t".to_string()), false, NOW);
    assert_eq!(c.persist_for, None);
}

#[test]
fn modifiers_must_match_the_binding() {
    let mut manager = HotkeyManager::new();
    manager.add_binding_no_persist("A".to_string(), ctrl(), play("s1"), None, NOW);
    assert_eq!(pressed(&mut manager, Key::KeyA), None);
    assert!(manager.handle_event(KeyEvent::Press(Key::ControlLeft)).is_none());
    assert_eq!(manager.modifier_state(), ctrl());
    assert_eq!(pressed(&mut manager, Key::KeyA), Some("s1".to_string()));
    manager.handle_event(KeyEvent::Press(Key::ShiftLeft));
    assert_eq!(pressed(&mut manager, Key::KeyA), None);
    manager.handle_event(KeyEvent::Release(Key::ShiftRight));
    manager.handle_event(KeyEvent::Release(Key::ControlRight));
    assert_eq!(manager.modifier_state(), none());
    assert_eq!(pressed(&mut manager, Key::KeyA), None);
}

#[test]
fn a_new_binding_replaces_the_one_of_the_same_name() {
    let mut manager = HotkeyManager::new();
    manager.add_binding_no_persist("A".to_string(), none(), play("s1"), None, NOW);
    manager.add_binding_no_persist("B".to_string(), none(), play("s2"), None, NOW);
    manager.add_binding_no_persist("C".to_string(), none(), play("s1"), None, NOW);
    assert_eq!(ids(&manager), vec!["sound_s2".to_string(), "sound_s1".to_string()]);
    assert_eq!(pressed(&mut manager, Key::KeyC), Some("s1".to_string()));
    assert_eq!(pressed(&mut manager, Key::KeyB), Some("s2".to_string()));
    manager.add_binding_no_persist("B".to_string(), none(), play("s3"), None, NOW);
    assert_eq!(pressed(&mut manager, Key::KeyB), Some("s3".to_string()));
    assert_eq!(ids(&manager).len(), 3);
}

#[test]
fn removing_a_binding_frees_its_key() {
    let mut manager = HotkeyManager::new();
    manager.add_binding_no_persist("A".to_string(), none(), play("s1"), None, NOW);
    manager.add_binding_no_persist("F1".to_string(), none(), HotkeyAction::StopAllSounds, None, NOW);
    assert_eq!(
        manager.remove_binding("sound_s1"),
        RemovedBinding { removed: true, forget_stored: false }
    );
    assert_eq!(pressed(&mut manager, Key::KeyA), None);
    assert_eq!(
        manager.remove_binding("sound_s1"),
        RemovedBinding { removed: false, forget_stored: false }
    );
    assert_eq!(
        manager.remove_binding("global_stop"),
        RemovedBinding { removed: true, forget_stored: true }
    );
    assert_eq!(
        manager.remove_binding("global_stop"),
        RemovedBinding { removed: false, forget_stored: false }
    );
    assert!(ids(&manager).is_empty());
    assert_eq!(pressed(&mut manager, Key::F1), None);
}

#[test]
fn a_binding_can_be_given_another_key() {
    let mut manager = HotkeyManager::new();
    manager.add_binding_no_persist("A".to_string(), none(), play("s1"), None, NOW);
    manager.add_binding_no_persist("B".to_string(), none(), play("s2"), None, NOW);
    assert!(manager.update_binding("sound_s1", "B".to_string(), none()));
    assert_eq!(pressed(&mut manager, Key::KeyA), None);
    assert_eq!(pressed(&mut manager, Key::KeyB), Some("s1".to_string()));
    assert!(!manager.update_binding("sound_zz", "C".to_string(), none()));
    assert_eq!(pressed(&mut manager, Key::KeyC), None);
    let shown: Vec<(String, String)> =
        manager.get_bindings().into_iter().map(|b| (b.id, b.key)).collect();
    assert_eq!(
        shown,
        vec![("sound_s1".to_string(), "B".to_string()), ("sound_s2".to_string(), "B".to_string())]
    );
}

fn ran(stdout: &str, code: Option<i32>) -> Result<ShellProcessResult, String> {
    Ok(ShellProcessResult { exit_code: code, stdout: stdout.to_string(), stderr: String::new() })
}

#[test]
fn the_first_line_of_the_search_is_the_path() {
    assert_eq!(located_path(&ran("/usr/bin/ffmpeg\n", Some(0))), Some("/usr/bin/ffmpeg".to_string()));
    assert_eq!(
        located_path(&ran("\r\n C:\\bin\\yt-dlp.exe\r\nC:\\other\\yt-dlp.exe\r\n", Some(0))),
        Some("C:\\bin\\yt-dlp.exe".to_string())
    );
    assert_eq!(located_path(&ran("a\rb", None)), Some("a\rb".to_string()));
    assert_eq!(located_path(&ran("a b\n\nc", None)), Some("a b".to_string()));
    assert_eq!(located_path(&ran("  \n\t", Some(0))), None);
    assert_eq!(located_path(&ran("", Some(1))), None);
    assert_eq!(located_path(&Err("which timed out".to_string())), None);
    assert!(version_check_passed(&ran("1.0", Some(0))));
    assert!(!version_check_passed(&ran("1.0", Some(1))));
    assert!(!version_check_passed(&ran("1.0", None)));
    assert!(!version_check_passed(&Err("failed".to_string())));
}

#[test]
fn outputs_are_listed_one_per_line() {
    let outputs = Some(vec!["Speakers".to_string(), "VB-Cable".to_string()]);
    assert_eq!(list_all_devices(&outputs), "=== OUTPUT DEVICES ===\n- Speakers\n- VB-Cable\n");
    assert_eq!(list_all_devices(&Some(Vec::new())), "=== OUTPUT DEVICES ===\n");
    assert_eq!(list_all_devices(&None), "=== OUTPUT DEVICES ===\nFailed to get output devices\n");
}

#[test]
fn gains_are_shown_with_two_places() {
    let text = |m: i64| gain_text(Gain::clamped(m)).iter().collect::<String>();
    assert_eq!(text(0), "0.00");
    assert_eq!(text(1_000_000), "1.00");
    assert_eq!(text(500_000), "0.50");
    assert_eq!(text(50_000), "0.05");
    assert_eq!(text(994_999), "0.99");
    assert_eq!(text(995_001), "1.00");
    assert_eq!(text(125_000), "0.12");
    assert_eq!(text(135_000), "0.14");
    assert_eq!(text(4_999), "0.00");
    assert_eq!(format!("{:.2}", 0.125f32), text(125_000));
    assert_eq!(format!("{:.2}", 0.5f32), text(500_000));
}

#[test]
fn status_names_both_devices_and_their_gains() {
    let outputs = vec!["Speakers".to_string(), "VB-Cable".to_string()];
    let mut manager = AudioManager::new(&outputs, &Some("Speakers".to_string()), &Vec::new(), &None).unwrap();
    manager.set_virtual_volume(250_000);
    assert_eq!(
        get_audio_status(&manager),
        "Virtual Device: VB-Cable (Volume: 0.25)\nOutput Device: Speakers (Volume: 1.00)"
    );
    assert_eq!(
        get_audio_status(&AudioManager::empty()),
        "Virtual Device: None (Volume: 1.00)\nOutput Device: None (Volume: 1.00)"
    );
}
