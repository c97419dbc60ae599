use midah::dependencies::{archive_kind, get_platform, which_command, ArchiveKind, DependencyError, DependencyType};
use midah::hotkeys::{
    hotkey_to_string, is_modifier_key, key_to_string, update_modifier_state, FrontendHotkeyBinding,
    HotkeyAction, HotkeyBinding, Key, Modifiers, Timestamp,
};
use midah::pipewire::{get_virtual_sink_device, listing_shows_sink, PipeWireStatus};
use midah::shell::ShellProcessResult;
use midah::text::{chars_of, is_whitespace, parse_u32, string_of, trim_chars};
use midah::updater::{
    find_msi_asset, is_msi, is_version_newer, parse_parts, tag_version, validate_update_url, UpdateError,
};
use midah::vbcable::{cable_kind, check_virtual_cable, CableKind, VirtualCableStatus};
use midah::virtual_audio::{check_virtual_audio_status, PlatformProbe};
use midah::youtube::{
    format_clock, pick_video_id, get_youtube_service, init_youtube_service, parse_duration,
    update_youtube_service_api_key, DownloadEvent, DownloadStage, DownloadStep, DownloadTracker,
    YouTubeError, YouTubeService,
};

fn names(list: &[&str]) -> Vec<String> {
    list.iter().map(|s| s.to_string()).collect()
}

#[test]
fn helper_programs_have_their_names() {
    assert_eq!(DependencyType::YtDlp.name(), "yt-dlp");
    assert_eq!(DependencyType::Ffmpeg.name(), "ffmpeg");
    assert_eq!(DependencyType::YtDlp.executable_name(true), "yt-dlp.exe");
    assert_eq!(DependencyType::YtDlp.executable_name(false), "yt-dlp");
    assert_eq!(DependencyType::Ffmpeg.executable_name(true), "ffmpeg.exe");
    assert_eq!(DependencyType::Ffmpeg.executable_name(false), "ffmpeg");
    assert_eq!(DependencyType::YtDlp.version_arg(), "--version");
    assert_eq!(DependencyType::Ffmpeg.version_arg(), "-version");
    assert!(DependencyType::Ffmpeg.is_archive_download());
    assert!(!DependencyType::YtDlp.is_archive_download());
    assert_eq!(which_command(true), "where");
    assert_eq!(which_command(false), "which");
}

#[test]
fn download_addresses_depend_on_the_platform() {
    let yt = DependencyType::YtDlp;
    assert_eq!(
        yt.get_download_url("windows-x64").unwrap(),
        "https://github.com/yt-dlp/yt-dlp/releases/latest/download/yt-dlp.exe"
    );
    assert_eq!(
        yt.get_download_url("windows-x86").unwrap(),
        "https://github.com/yt-dlp/yt-dlp/releases/latest/download/yt-dlp.exe"
    );
    assert_eq!(
        yt.get_download_url("plan9-mips").unwrap(),
        "https://github.com/yt-dlp/yt-dlp/releases/latest/download/yt-dlp"
    );
    let ff = DependencyType::Ffmpeg;
    assert_eq!(
        ff.get_download_url("windows-x64").unwrap(),
        "https://github.com/BtbN/FFmpeg-Builds/releases/download/latest/ffmpeg-master-latest-win64-gpl.zip"
    );
    assert_eq!(
        ff.get_download_url("windows-x86").unwrap(),
        "https://github.com/BtbN/FFmpeg-Builds/releases/download/latest/ffmpeg-master-latest-win32-gpl.zip"
    );
    assert_eq!(ff.get_download_url("macos-x64").unwrap(), "https://evermeet.cx/ffmpeg/getrelease/zip");
    assert_eq!(ff.get_download_url("macos-arm64").unwrap(), "https://evermeet.cx/ffmpeg/getrelease/zip");
    assert_eq!(
        ff.get_download_url("linux-x64").unwrap(),
        "https://johnvansickle.com/ffmpeg/releases/ffmpeg-release-amd64-static.tar.xz"
    );
    assert_eq!(
        ff.get_download_url("linux-arm64").unwrap(),
        "https://johnvansickle.com/ffmpeg/releases/ffmpeg-release-arm64-static.tar.xz"
    );
    assert_eq!(ff.get_download_url("plan9-mips"), Err(DependencyError::UnsupportedPlatform));
    assert_eq!(ff.get_download_url(""), Err(DependencyError::UnsupportedPlatform));
}

#[test]
fn six_platforms_have_a_name() {
    assert_eq!(get_platform("windows", "x86_64"), Ok("windows-x64"));
    assert_eq!(get_platform("windows", "x86"), Ok("windows-x86"));
    assert_eq!(get_platform("macos", "x86_64"), Ok("macos-x64"));
    assert_eq!(get_platform("macos", "aarch64"), Ok("macos-arm64"));
    assert_eq!(get_platform("linux", "x86_64"), Ok("linux-x64"));
    assert_eq!(get_platform("linux", "aarch64"), Ok("linux-arm64"));
    assert_eq!(get_platform("linux", "x86"), Err(DependencyError::UnsupportedPlatform));
    assert_eq!(get_platform("freebsd", "x86_64"), Err(DependencyError::UnsupportedPlatform));
}

#[test]
fn archives_are_told_apart_by_their_first_bytes() {
    assert_eq!(archive_kind(&b"PK\x03\x04rest".to_vec()), ArchiveKind::Zip);
    assert_eq!(archive_kind(&b"PK".to_vec()), ArchiveKind::Zip);
    assert_eq!(archive_kind(&b"P".to_vec()), ArchiveKind::TarXz);
    assert_eq!(archive_kind(&b"\xfd7zXZ".to_vec()), ArchiveKind::TarXz);
    assert_eq!(archive_kind(&Vec::new()), ArchiveKind::TarXz);
}

#[test]
fn a_process_succeeds_with_exit_code_zero() {
    let done = |code| ShellProcessResult { exit_code: code, stdout: String::new(), stderr: String::new() };
    assert!(done(Some(0)).succeeded());
    assert!(!done(Some(1)).succeeded());
    assert!(!done(None).succeeded());
}

#[test]
fn hotkeys_are_spelled_with_plus_signs() {
    let none = Modifiers::default();
    assert_eq!(none, Modifiers { ctrl: false, alt: false, shift: false, meta: false });
    let all = Modifiers { ctrl: true, alt: true, shift: true, meta: true };
    assert_eq!(hotkey_to_string("A", &none), "A");
    assert_eq!(hotkey_to_string("A", &all), "Ctrl+Alt+Shift+Meta+A");
    assert_eq!(hotkey_to_string("", &all), "Ctrl+Alt+Shift+Meta");
    assert_eq!(hotkey_to_string("", &none), "");
    assert_eq!(hotkey_to_string("F5", &Modifiers { shift: true, ..none }), "Shift+F5");
    assert_eq!(hotkey_to_string("X", &Modifiers { ctrl: true, meta: true, ..none }), "Ctrl+Meta+X");
}

#[test]
fn keys_have_the_names_they_are_bound_under() {
    assert_eq!(key_to_string(Key::KeyA), "A");
    assert_eq!(key_to_string(Key::KeyZ), "Z");
    assert_eq!(key_to_string(Key::F1), "F1");
    assert_eq!(key_to_string(Key::F12), "F12");
    assert_eq!(key_to_string(Key::Escape), "ESCAPE");
    assert_eq!(key_to_string(Key::Space), "SPACE");
    assert_eq!(key_to_string(Key::Return), "ENTER");
    assert_eq!(key_to_string(Key::Tab), "TAB");
    assert_eq!(key_to_string(Key::Backspace), "BACKSPACE");
    assert_eq!(key_to_string(Key::ShiftLeft), "UNKNOWN");
    assert_eq!(key_to_string(Key::Other), "UNKNOWN");
    assert!(is_modifier_key(Key::AltGr));
    assert!(is_modifier_key(Key::MetaRight));
    assert!(!is_modifier_key(Key::KeyA));
    assert!(!is_modifier_key(Key::Other));
}

#[test]
fn modifier_keys_set_and_clear_their_flag() {
    let none = Modifiers::default();
    let held = update_modifier_state(none, Key::ControlRight, true);
    assert_eq!(held, Modifiers { ctrl: true, ..none });
    let both = update_modifier_state(held, Key::AltGr, true);
    assert_eq!(both, Modifiers { ctrl: true, alt: true, ..none });
    assert_eq!(update_modifier_state(both, Key::ControlLeft, false), Modifiers { alt: true, ..none });
    assert_eq!(update_modifier_state(both, Key::KeyA, true), both);
    assert_eq!(update_modifier_state(none, Key::ShiftLeft, true).shift, true);
    assert_eq!(update_modifier_state(none, Key::MetaLeft, true).meta, true);
}

#[test]
fn bindings_are_shown_with_name_kind_and_time() {
    let binding = HotkeyBinding {
        id: "sound_42".to_string(),
        key: "K".to_string(),
        modifiers: Modifiers { ctrl: true, alt: false, shift: true, meta: false },
        action: HotkeyAction::PlaySound { sound_id: "42".to_string() },
        sound_id: Some("42".to_string()),
        created_at: Timestamp { secs: 1_431_648_000, nanos: 0 },
    };
    let shown = FrontendHotkeyBinding::from(binding);
    assert_eq!(shown.id, "sound_42");
    assert_eq!(shown.hotkey, "Ctrl+Shift+K");
    assert_eq!(shown.action, "PlaySound");
    assert_eq!(shown.sound_id, Some("42".to_string()));
    assert_eq!(shown.created_at, "2015-05-15T00:00:00+00:00");

    let stop = HotkeyBinding {
        id: "global_stop".to_string(),
        key: "ESCAPE".to_string(),
        modifiers: Modifiers::default(),
        action: HotkeyAction::StopAllSounds,
        sound_id: None,
        created_at: Timestamp { secs: 0, nanos: 500_000_000 },
    };
    let shown = FrontendHotkeyBinding::from(stop);
    assert_eq!(shown.action, "StopAllSounds");
    assert_eq!(shown.created_at, "1970-01-01T00:00:00.500+00:00");
    assert_eq!(HotkeyAction::StopAllSounds.binding_id(), "global_stop");
    assert_eq!(HotkeyAction::PlaySound { sound_id: "7".to_string() }.binding_id(), "sound_7");
}

#[test]
fn an_instant_beyond_the_calendar_has_no_text() {
    let binding = HotkeyBinding {
        id: "x".to_string(),
        key: String::new(),
        modifiers: Modifiers::default(),
        action: HotkeyAction::StopAllSounds,
        sound_id: None,
        created_at: Timestamp { secs: i64::MAX, nanos: 0 },
    };
    assert_eq!(FrontendHotkeyBinding::from(binding).created_at, "");
}

#[test]
fn versions_compare_part_by_part() {
    assert!(is_version_newer("1.2.4", "1.2.3"));
    assert!(!is_version_newer("1.2.3", "1.2.3"));
    assert!(!is_version_newer("1.2.3", "1.2.4"));
    assert!(is_version_newer("1.10", "1.9.9"));
    assert!(is_version_newer("2", "1.99.99"));
    assert!(is_version_newer("1.0.0.1", "1.0"));
    assert!(!is_version_newer("1.0", "1.0.0.0"));
    assert!(is_version_newer("1.2.3-beta", "1.2.2"));
    assert!(!is_version_newer("1.x.9", "1.0.9"));
    assert!(!is_version_newer("", ""));
    assert!(is_version_newer("0.0.1", ""));
    assert!(!is_version_newer("99999999999999999999", "1"));
    assert!(is_version_newer("9223372036854775807", "9223372036854775806"));
    assert_eq!(parse_parts("1.22.x3.4y"), vec![1, 22, 0, 4]);
    assert_eq!(parse_parts(""), vec![0]);
    assert_eq!(parse_parts("3..5."), vec![3, 0, 5, 0]);
    assert_eq!(parse_parts("+5.-2"), vec![0, 0]);
    assert_eq!(parse_parts("9223372036854775808"), vec![0]);
}

#[test]
fn release_tags_lose_their_leading_v() {
    assert_eq!(tag_version("v1.2.3"), "1.2.3");
    assert_eq!(tag_version("  v1.2.3\n"), "1.2.3");
    assert_eq!(tag_version("vv2"), "2");
    assert_eq!(tag_version("1.0v"), "1.0v");
    assert_eq!(tag_version(" \t "), "");
    assert_eq!(tag_version("\u{a0}v3\u{2003}"), "3");
}

#[test]
fn installers_come_from_the_code_host_only() {
    assert_eq!(validate_update_url("https://github.com/a/b/releases/download/v1/app.msi"), Ok(()));
    assert_eq!(validate_update_url("https://objects.githubusercontent.com/x/APP.MSI"), Ok(()));
    assert_eq!(
        validate_update_url("https://github.com/a/b/app.exe"),
        Err(UpdateError::NotAnInstaller)
    );
    assert_eq!(validate_update_url("https://evil.example/app.msi"), Err(UpdateError::UntrustedHost));
    assert_eq!(validate_update_url("http://github.com/app.msi"), Err(UpdateError::UntrustedHost));
    assert_eq!(validate_update_url("https://evil.example/app.zip"), Err(UpdateError::NotAnInstaller));
    assert_eq!(validate_update_url(""), Err(UpdateError::NotAnInstaller));
    assert!(is_msi("Setup.Msi"));
    assert!(!is_msi("msi"));
    assert_eq!(find_msi_asset(&names(&["a.zip", "b.MSI", "c.msi"])), Some(1));
    assert_eq!(find_msi_asset(&names(&["a.zip"])), None);
}

#[test]
fn video_ids_are_found_in_four_forms_of_address() {
    assert_eq!(
        YouTubeService::extract_video_id("https://www.youtube.com/watch?v=dQw4w9WgXcQ&t=3"),
        Some("dQw4w9WgXcQ".to_string())
    );
    assert_eq!(YouTubeService::extract_video_id("https://youtu.be/abc_DEF-123"), Some("abc_DEF-123".to_string()));
    assert_eq!(
        YouTubeService::extract_video_id("https://www.youtube.com/embed/abcdefghijk?x=1"),
        Some("abcdefghijk".to_string())
    );
    assert_eq!(YouTubeService::extract_video_id("http://youtube.com/v/ABCDEFGHIJK"), Some("ABCDEFGHIJK".to_string()));
    assert_eq!(YouTubeService::extract_video_id("https://youtu.be/short"), None);
    assert_eq!(YouTubeService::extract_video_id("https://example.com/watch?v=dQw4w9WgXcQ"), None);
    assert_eq!(YouTubeService::extract_video_id(""), None);
    assert_eq!(
        YouTubeService::extract_video_id("youtu.be/AAAAAAAAAAA youtube.com/watch?v=BBBBBBBBBBB"),
        Some("BBBBBBBBBBB".to_string())
    );
}

#[test]
fn durations_are_shown_as_a_clock() {
    assert_eq!(parse_duration("PT1H2M3S"), Ok("1:02:03".to_string()));
    assert_eq!(parse_duration("PT4M13S"), Ok("4:13".to_string()));
    assert_eq!(parse_duration("PT45S"), Ok("0:45".to_string()));
    assert_eq!(parse_duration("PT2H"), Ok("2:00:00".to_string()));
    assert_eq!(parse_duration("PT10M"), Ok("10:00".to_string()));
    assert_eq!(parse_duration("PT1H5S"), Ok("1:00:05".to_string()));
    assert_eq!(parse_duration("PT"), Ok("0:00".to_string()));
    assert_eq!(parse_duration(""), Ok("0:00".to_string()));
    assert_eq!(parse_duration("PTPT7S"), Ok("0:07".to_string()));
    assert_eq!(parse_duration("PT100M100S"), Ok("100:100".to_string()));
    assert_eq!(parse_duration("PT+3M"), Ok("3:00".to_string()));
    assert_eq!(parse_duration("90"), Ok("0:00".to_string()));
    assert_eq!(format_clock(0, 0, 0).iter().collect::<String>(), "0:00");
    assert_eq!(format_clock(12, 3, 4).iter().collect::<String>(), "12:03:04");
}

#[test]
fn malformed_durations_are_rejected() {
    for bad in ["PTxS", "PT1.5S", "PTM", "PT1H M", "PT5M3H", "PT3S2M", "P1DT2H", "PT4294967296S", "PT-1S"] {
        assert_eq!(parse_duration(bad), Err(YouTubeError::InvalidDuration), "{}", bad);
    }
    assert_eq!(parse_duration("PT4294967295S"), Ok("0:4294967295".to_string()));
}

#[test]
fn the_service_is_set_up_once() {
    let mut slot = None;
    assert_eq!(get_youtube_service(&slot).err(), Some(YouTubeError::NotInitialized));
    assert_eq!(init_youtube_service(&mut slot, "first".to_string()), Ok(()));
    assert_eq!(
        init_youtube_service(&mut slot, "second".to_string()),
        Err(YouTubeError::AlreadyInitialized)
    );
    assert_eq!(get_youtube_service(&slot).unwrap().api_key, "first");
    update_youtube_service_api_key(&mut slot, "third".to_string());
    assert_eq!(get_youtube_service(&slot).unwrap().api_key, "first");
    let mut empty = None;
    update_youtube_service_api_key(&mut empty, "key".to_string());
    assert_eq!(get_youtube_service(&empty).unwrap().api_key, "key");
}

#[test]
fn a_download_is_finalizing_once_it_was_complete() {
    let mut tracker = DownloadTracker::new();
    assert_eq!(tracker.on_event(DownloadEvent::Other), DownloadStep::Continue);
    assert!(!tracker.has_seen_progress);
    assert_eq!(
        tracker.on_event(DownloadEvent::Percent { complete: false }),
        DownloadStep::Report(DownloadStage::Downloading)
    );
    assert!(tracker.has_seen_progress && !tracker.has_reached_100);
    assert_eq!(
        tracker.on_event(DownloadEvent::Percent { complete: true }),
        DownloadStep::Report(DownloadStage::Finalizing)
    );
    assert_eq!(
        tracker.on_event(DownloadEvent::Percent { complete: false }),
        DownloadStep::Report(DownloadStage::Finalizing)
    );
    assert_eq!(
        tracker.on_event(DownloadEvent::Terminated { exit_code: Some(0) }),
        DownloadStep::Collect(DownloadStage::Processing)
    );
    assert_eq!(
        tracker.on_event(DownloadEvent::Terminated { exit_code: Some(2) }),
        DownloadStep::Abort(DownloadStage::Failed)
    );
    assert_eq!(
        tracker.on_event(DownloadEvent::Terminated { exit_code: None }),
        DownloadStep::Abort(DownloadStage::Failed)
    );
    assert_eq!(tracker.on_event(DownloadEvent::Error), DownloadStep::Abort(DownloadStage::Failed));
    let stages = [
        (DownloadStage::Starting, "starting"),
        (DownloadStage::Initializing, "initializing"),
        (DownloadStage::Downloading, "downloading"),
        (DownloadStage::Finalizing, "finalizing"),
        (DownloadStage::Processing, "processing"),
        (DownloadStage::Completed, "completed"),
        (DownloadStage::Failed, "error"),
    ];
    for (stage, name) in stages {
        assert_eq!(stage.name(), name);
    }
}

#[test]
fn the_first_cable_among_the_outputs_is_reported() {
    let status = check_virtual_cable(&names(&["Speakers", "Voicemod Virtual", "CABLE (VB-Audio)"]));
    assert!(status.found && status.is_voicemod);
    assert_eq!(status.device_name, Some("Voicemod Virtual".to_string()));
    assert!(status.message.unwrap().starts_with("Voicemod Virtual Cable detected."));
    let status = check_virtual_cable(&names(&["VB-Cable Voicemod", "Voicemod"]));
    assert!(status.found && !status.is_voicemod);
    assert_eq!(status.device_name, Some("VB-Cable Voicemod".to_string()));
    assert_eq!(status.message, None);
    let status = check_virtual_cable(&names(&["Speakers"]));
    assert!(!status.found && !status.is_voicemod);
    assert_eq!(status.device_name, None);
    assert_eq!(status.message, None);
}

#[test]
fn the_virtual_sink_is_found_by_name_or_description() {
    assert_eq!(get_virtual_sink_device(&names(&["a", "x midah-virtual-sink y", "b"])), Some(1));
    assert_eq!(get_virtual_sink_device(&names(&["Midah Virtual Audio Sink"])), Some(0));
    assert_eq!(get_virtual_sink_device(&names(&["MIDAH-VIRTUAL-SINK"])), None);
    assert!(listing_shows_sink("id 41\n  node.name = \"midah-virtual-sink\"\n"));
    assert!(!listing_shows_sink("id 41\n  node.name = \"alsa_output\"\n"));
}

#[test]
fn each_platform_gets_its_own_status() {
    let cable = VirtualCableStatus {
        found: true,
        device_name: Some("VB-Cable".to_string()),
        is_voicemod: false,
        message: None,
    };
    let status = check_virtual_audio_status("windows", PlatformProbe::Cable(cable));
    assert_eq!(status.platform, "windows");
    assert!(status.available && !status.installation_required && !status.is_special_device);
    assert_eq!(status.device_name, Some("VB-Cable".to_string()));

    let status = check_virtual_audio_status("windows", PlatformProbe::Nothing);
    assert!(!status.available && !status.installation_required);
    assert_eq!(status.message, Some("VB-Cable is only supported on Windows".to_string()));

    let pw = PipeWireStatus {
        pipewire_available: true,
        virtual_sink_available: false,
        virtual_sink_name: None,
        installation_message: Some("install".to_string()),
    };
    let status = check_virtual_audio_status("linux", PlatformProbe::PipeWire(pw));
    assert!(!status.available && status.installation_required);
    assert_eq!(status.message, Some("install".to_string()));
    let status = check_virtual_audio_status("linux", PlatformProbe::Nothing);
    assert_eq!(status.message, Some("PipeWire is only supported on Linux".to_string()));

    let status = check_virtual_audio_status("macos", PlatformProbe::Nothing);
    assert_eq!(
        status.message,
        Some(
            "Virtual audio setup for macOS is not yet implemented. You can use applications like BlackHole manually."
                .to_string()
        )
    );
    let status = check_virtual_audio_status("freebsd", PlatformProbe::Nothing);
    assert_eq!(status.platform, "freebsd");
    assert_eq!(status.message, Some("Virtual audio is not supported on freebsd".to_string()));
    assert!(!status.available && !status.installation_required && status.device_name.is_none());
}

#[test]
fn text_helpers_round_trip() {
    assert_eq!(string_of(&chars_of("héllo ✓")), "héllo ✓");
    assert_eq!(string_of(&trim_chars(&chars_of("  a b \n"))), "a b");
    assert_eq!(string_of(&trim_chars(&chars_of("\n\t"))), "");
    assert_eq!(parse_u32(&chars_of("4294967295")), Some(u32::MAX));
    assert_eq!(parse_u32(&chars_of("4294967296")), None);
    assert_eq!(parse_u32(&chars_of("+12")), Some(12));
    assert_eq!(parse_u32(&chars_of("007")), Some(7));
    assert_eq!(parse_u32(&chars_of("+")), None);
    assert_eq!(parse_u32(&chars_of("")), None);
    assert_eq!(parse_u32(&chars_of("-1")), None);
    assert_eq!(parse_u32(&chars_of("1 ")), None);
    assert_eq!(parse_u32(&chars_of("٣")), None);
}

#[test]
fn white_space_is_what_the_standard_library_calls_so() {
    for code in 0..=0x10ffffu32 {
        if let Some(c) = char::from_u32(code) {
            assert_eq!(is_whitespace(c), c.is_whitespace(), "U+{:04X}", code);
        }
    }
    assert!(is_whitespace(' '));
    assert!(is_whitespace('\u{3000}'));
    assert!(!is_whitespace('\u{200b}'));
    assert!(!is_whitespace('a'));
}

#[test]
fn the_earlier_pattern_wins() {
    let id = |s: &str| Some(s.to_string());
    assert_eq!(pick_video_id(id("w"), id("s"), id("e"), id("l")), id("w"));
    assert_eq!(pick_video_id(None, id("s"), id("e"), id("l")), id("s"));
    assert_eq!(pick_video_id(None, None, id("e"), id("l")), id("e"));
    assert_eq!(pick_video_id(None, None, None, id("l")), id("l"));
    assert_eq!(pick_video_id(None, None, None, None), None);
    assert_eq!(pick_video_id(id("w"), None, None, id("l")), id("w"));
}

#[test]
fn a_lowercase_name_tells_the_kind_of_cable() {
    let kind = |s: &str| cable_kind(&chars_of(s));
    assert_eq!(kind("cable input (vb-audio virtual cable)"), CableKind::VbCable);
    assert_eq!(kind("vb audio"), CableKind::VbCable);
    assert_eq!(kind("virtual cable"), CableKind::VbCable);
    assert_eq!(kind("vb-cable by voicemod"), CableKind::VbCable);
    assert_eq!(kind("voicemod virtual audio"), CableKind::Voicemod);
    assert_eq!(kind("Voicemod"), CableKind::NoCable);
    assert_eq!(kind("speakers"), CableKind::NoCable);
    assert_eq!(kind(""), CableKind::NoCable);
}
