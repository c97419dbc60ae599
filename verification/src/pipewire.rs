//! The state of the PipeWire setup on Linux.

use vstd::prelude::*;
use vstd::string::StringExecFns;
use crate::text::{
    chars_contain_str, chars_of, contains_seq, parse_u32, spec_parse_u32, spec_split,
    spec_split_whitespace, split_chars, split_whitespace_chars,
};

verus! {

/// The name of the virtual sink that the soundboard creates.
pub const VIRTUAL_SINK_NAME: &'static str = "midah-virtual-sink";

/// The description of the virtual sink that the soundboard creates.
pub const VIRTUAL_SINK_DESCRIPTION: &'static str = "Midah Virtual Audio Sink";

/// What is known of PipeWire and of the virtual sink.
#[derive(Debug)]
pub struct PipeWireStatus {
    pub pipewire_available: bool,
    pub virtual_sink_available: bool,
    pub virtual_sink_name: Option<String>,
    pub installation_message: Option<String>,
}

/// Whether a device of this name is the soundboard's own virtual sink.
pub open spec fn names_virtual_sink(name: Seq<char>) -> bool {
    contains_seq(name, VIRTUAL_SINK_NAME@) || contains_seq(name, VIRTUAL_SINK_DESCRIPTION@)
}

/// Whether `devices[i]` is the first device that is the virtual sink.
pub open spec fn is_first_sink(devices: Seq<String>, i: int) -> bool {
    &&& 0 <= i < devices.len()
    &&& names_virtual_sink(devices[i]@)
    &&& forall|j: int| 0 <= j < i ==> !names_virtual_sink(devices[j]@)
}

/// The position of the first output whose name holds the name or the
/// description of the soundboard's virtual sink.
pub fn get_virtual_sink_device(outputs: &Vec<String>) -> (found: Option<usize>)
    ensures
        match found {
            Some(i) => is_first_sink(outputs@, i as int),
            None => forall|j: int| 0 <= j < outputs.len() ==> !names_virtual_sink(outputs[j]@),
        },
{
    let mut i: usize = 0;
    while i < outputs.len()
        invariant
            i <= outputs.len(),
            forall|j: int| 0 <= j < i ==> !names_virtual_sink(outputs[j]@),
        decreases outputs.len() - i,
    {
        let name = chars_of(outputs[i].as_str());
        if chars_contain_str(&name, VIRTUAL_SINK_NAME) || chars_contain_str(
            &name,
            VIRTUAL_SINK_DESCRIPTION,
        ) {
            return Some(i);
        }
        i = i + 1;
    }
    None
}

/// Whether the listing of PipeWire's nodes shows the virtual sink.
pub fn listing_shows_sink(listing: &str) -> (shown: bool)
    ensures
        shown == contains_seq(listing@, VIRTUAL_SINK_NAME@),
{
    let chars = chars_of(listing);
    chars_contain_str(&chars, VIRTUAL_SINK_NAME)
}

/// The first of `lines` that names the virtual sink.
pub open spec fn spec_sink_line(lines: Seq<Seq<char>>) -> Option<Seq<char>>
    decreases lines.len(),
{
    if lines.len() == 0 {
        None
    } else if contains_seq(lines[0], VIRTUAL_SINK_NAME@) {
        Some(lines[0])
    } else {
        spec_sink_line(lines.drop_first())
    }
}

/// The first of `words` that is a number of at most 32 bits.
pub open spec fn spec_first_number(words: Seq<Seq<char>>) -> Option<u32>
    decreases words.len(),
{
    if words.len() == 0 {
        None
    } else if spec_parse_u32(words[0]) is Some {
        spec_parse_u32(words[0])
    } else {
        spec_first_number(words.drop_first())
    }
}

/// The id of the virtual sink in a listing of PipeWire's nodes: the first
/// number on the first line that names the sink.
pub open spec fn spec_sink_id(listing: Seq<char>) -> Option<u32> {
    match spec_sink_line(spec_split(listing, '\n')) {
        Some(line) => spec_first_number(spec_split_whitespace(line)),
        None => None,
    }
}

/// The first of `words` that is a number.
fn first_number(words: &Vec<Vec<char>>) -> (number: Option<u32>)
    ensures
        number == spec_first_number(words@.map_values(|w: Vec<char>| w@)),
{
    let ghost views = words@.map_values(|w: Vec<char>| w@);
    let mut i: usize = 0;
    assert(views.skip(0) =~= views);
    while i < words.len()
        invariant
            i <= words.len(),
            views == words@.map_values(|w: Vec<char>| w@),
            spec_first_number(views) == spec_first_number(views.skip(i as int)),
        decreases words.len() - i,
    {
        assert(views.skip(i as int).drop_first() =~= views.skip(i + 1));
        assert(views.skip(i as int)[0] == words[i as int]@);
        let parsed = parse_u32(&words[i]);
        if parsed.is_some() {
            return parsed;
        }
        i = i + 1;
    }
    None
}

/// Finds the id of the virtual sink in a listing of PipeWire's nodes, so
/// that the sink can be destroyed.
pub fn find_sink_id(listing: &str) -> (id: Option<u32>)
    ensures
        id == spec_sink_id(listing@),
{
    let chars = chars_of(listing);
    let lines = split_chars(&chars, '\n');
    let ghost views = lines@.map_values(|l: Vec<char>| l@);
    let mut i: usize = 0;
    assert(views.skip(0) =~= views);
    while i < lines.len()
        invariant
            i <= lines.len(),
            views == lines@.map_values(|l: Vec<char>| l@),
            views == spec_split(listing@, '\n'),
            spec_sink_line(views) == spec_sink_line(views.skip(i as int)),
        decreases lines.len() - i,
    {
        assert(views.skip(i as int).drop_first() =~= views.skip(i + 1));
        assert(views.skip(i as int)[0] == lines[i as int]@);
        if chars_contain_str(&lines[i], VIRTUAL_SINK_NAME) {
            let words = split_whitespace_chars(&lines[i]);
            return first_number(&words);
        }
        i = i + 1;
    }
    None
}

/// What the user is told when PipeWire is missing.
pub const INSTALLATION_MESSAGE: &'static str =
    "PipeWire is not installed or not running. Please install PipeWire:\n\nUbuntu/Debian: sudo apt install pipewire pipewire-pulse\nFedora: sudo dnf install pipewire pipewire-pulseaudio\nArch: sudo pacman -S pipewire pipewire-pulse\n\nAfter installation, you may need to restart your session.";

/// Whether PipeWire is installed and runs: its command line tool was found
/// and could ask the server for its state.
pub fn pipewire_runs(tool_found: bool, server_answered: bool) -> (runs: bool)
    ensures
        runs == (tool_found && server_answered),
{
    tool_found && server_answered
}

/// Puts together what is known of PipeWire and of the virtual sink. Without
/// PipeWire nothing else counts, and the user is told how to install it.
/// The name of the sink is reported only where the sink exists.
pub fn pipewire_status(
    pipewire_available: bool,
    virtual_sink_available: bool,
    virtual_sink_name: Option<String>,
) -> (status: PipeWireStatus)
    ensures
        status.pipewire_available == pipewire_available,
        status.virtual_sink_available == (pipewire_available && virtual_sink_available),
        status.virtual_sink_name == (if pipewire_available && virtual_sink_available {
            virtual_sink_name
        } else {
            None
        }),
        pipewire_available ==> status.installation_message is None,
        !pipewire_available ==> status.installation_message is Some
            && status.installation_message->0@ == INSTALLATION_MESSAGE@,
{
    if !pipewire_available {
        return PipeWireStatus {
            pipewire_available: false,
            virtual_sink_available: false,
            virtual_sink_name: None,
            installation_message: Some(String::from_str(INSTALLATION_MESSAGE)),
        };
    }
    PipeWireStatus {
        pipewire_available,
        virtual_sink_available,
        virtual_sink_name: if virtual_sink_available {
            virtual_sink_name
        } else {
            None
        },
        installation_message: None,
    }
}

} // verus!
