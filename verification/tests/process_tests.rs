use midah::pipewire::{find_sink_id, pipewire_runs, pipewire_status, INSTALLATION_MESSAGE};
use midah::shell::{ProcessEnding, ProcessEvent, ProcessLog};
use midah::soundboard::{is_blank, legacy_category, stored_categories};
use midah::text::{chars_of, split_chars, split_whitespace_chars, str_equal};

fn parts(split: Vec<Vec<char>>) -> Vec<String> {
    split.into_iter().map(|p| p.into_iter().collect()).collect()
}

#[test]
fn text_is_split_at_every_separator() {
    assert_eq!(parts(split_chars(&chars_of("a.b..c"), '.')), vec!["a", "b", "", "c"]);
    assert_eq!(parts(split_chars(&chars_of(""), '.')), vec![""]);
    assert_eq!(parts(split_chars(&chars_of("."), '.')), vec!["", ""]);
    assert_eq!(parts(split_whitespace_chars(&chars_of("a b\t\nc"))), vec!["a", "b", "", "c"]);
    assert_eq!(parts(split_whitespace_chars(&chars_of("x\u{3000}y"))), vec!["x", "y"]);
}

#[test]
fn the_sink_id_is_the_first_number_on_the_sink_line() {
    let listing = "\tid 31, type PipeWire:Interface:Node/3\r\n \t\tnode.name = \"alsa_output\"\r\n\
                   id 42 node.name = \"midah-virtual-sink\" 77\n\
                   id 43 node.name = \"midah-virtual-sink\"\n";
    assert_eq!(find_sink_id(listing), Some(42));
    assert_eq!(find_sink_id("node midah-virtual-sink id=5 x 6"), Some(6));
    assert_eq!(find_sink_id("midah-virtual-sink +9"), Some(9));
    assert_eq!(find_sink_id("midah-virtual-sink 99999999999 12"), Some(12));
    assert_eq!(find_sink_id("midah-virtual-sink none\n17 midah-virtual-sink"), None);
    assert_eq!(find_sink_id("id 31 alsa_output\n"), None);
    assert_eq!(find_sink_id(""), None);
}

#[test]
fn pipewire_must_be_found_and_answer() {
    assert!(pipewire_runs(true, true));
    assert!(!pipewire_runs(true, false));
    assert!(!pipewire_runs(false, true));
    assert!(!pipewire_runs(false, false));
}

#[test]
fn without_pipewire_the_user_is_told_how_to_install_it() {
    let status = pipewire_status(false, true, Some("sink".to_string()));
    assert!(!status.pipewire_available && !status.virtual_sink_available);
    assert_eq!(status.virtual_sink_name, None);
    assert_eq!(status.installation_message, Some(INSTALLATION_MESSAGE.to_string()));
    assert!(INSTALLATION_MESSAGE.starts_with("PipeWire is not installed or not running."));
    assert!(INSTALLATION_MESSAGE.contains("Arch: sudo pacman -S pipewire pipewire-pulse\n\nAfter"));

    let status = pipewire_status(true, true, Some("sink".to_string()));
    assert!(status.pipewire_available && status.virtual_sink_available);
    assert_eq!(status.virtual_sink_name, Some("sink".to_string()));
    assert_eq!(status.installation_message, None);

    let status = pipewire_status(true, false, Some("sink".to_string()));
    assert!(status.pipewire_available && !status.virtual_sink_available);
    assert_eq!(status.virtual_sink_name, None);
    assert_eq!(status.installation_message, None);
}

#[test]
fn output_is_collected_until_the_process_ends() {
    let mut log = ProcessLog::new();
    assert!(!log.on_event(ProcessEvent::Stdout(Some("one ".to_string()))));
    assert!(!log.on_event(ProcessEvent::Stderr(Some("warn".to_string()))));
    assert!(!log.on_event(ProcessEvent::Stdout(None)));
    assert!(!log.on_event(ProcessEvent::Other));
    assert!(!log.on_event(ProcessEvent::Stdout(Some("two".to_string()))));
    assert!(log.on_event(ProcessEvent::Terminated(Some(3))));
    let done = log.finish("tool", ProcessEnding::Completed).unwrap();
    assert_eq!(done.exit_code, Some(3));
    assert_eq!(done.stdout, "one two");
    assert_eq!(done.stderr, "warn");
    assert!(!done.succeeded());
}

#[test]
fn a_process_that_does_not_end_gives_a_message() {
    let mut log = ProcessLog::new();
    log.on_event(ProcessEvent::Stdout(Some("partial".to_string())));
    assert_eq!(
        log.finish("yt-dlp", ProcessEnding::Interrupted).err(),
        Some("yt-dlp did not complete".to_string())
    );
    assert_eq!(
        ProcessLog::new().finish("ffmpeg", ProcessEnding::TimedOut).err(),
        Some("ffmpeg timed out".to_string())
    );
    let empty = ProcessLog::new().finish("x", ProcessEnding::Completed).unwrap();
    assert_eq!(empty.exit_code, None);
    assert_eq!(empty.stdout, "");
}

#[test]
fn blank_categories_are_not_stored() {
    let given: Vec<String> = ["memes", "  ", "", "\t\n", " music "].iter().map(|s| s.to_string()).collect();
    assert_eq!(stored_categories(&given), vec!["memes".to_string(), " music ".to_string()]);
    assert!(stored_categories(&Vec::new()).is_empty());
    assert!(is_blank(" \u{a0} "));
    assert!(!is_blank(" x "));
    assert_eq!(legacy_category(&given), Some("memes".to_string()));
    assert_eq!(legacy_category(&Vec::new()), None);
}

#[test]
fn strings_are_equal_when_their_bytes_are() {
    assert!(str_equal("", ""));
    assert!(str_equal("héllo", "héllo"));
    assert!(!str_equal("héllo", "hello"));
    assert!(!str_equal("a", "ab"));
    assert!(!str_equal("ab", "ac"));
    assert!(!str_equal("é", "e\u{301}"));
}
