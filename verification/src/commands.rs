//! What the user interface is told in words about devices and gains.

use vstd::prelude::*;
use vstd::string::StringExecFns;
use crate::gain::Gain;
use crate::manager::AudioManager;
use crate::text::{append_chars, decimal, decimal_chars, decimal_two_places, string_of};

verus! {

/// The lines that list the outputs, one after the other.
pub open spec fn spec_device_lines(outputs: Seq<String>) -> Seq<char>
    decreases outputs.len(),
{
    if outputs.len() == 0 {
        Seq::empty()
    } else {
        spec_device_lines(outputs.drop_last()) + "- "@ + outputs.last()@ + "\n"@
    }
}

/// The list of the outputs as text.
pub open spec fn spec_device_list(outputs: Option<Vec<String>>) -> Seq<char> {
    match outputs {
        Some(names) => "=== OUTPUT DEVICES ===\n"@ + spec_device_lines(names@),
        None => "=== OUTPUT DEVICES ===\n"@ + "Failed to get output devices\n"@,
    }
}

/// Lists the outputs of the host as text, one line for each; a single line
/// says so where the host could not list them.
pub fn list_all_devices(outputs: &Option<Vec<String>>) -> (device_list: String)
    ensures
        device_list@ == spec_device_list(*outputs),
{
    let mut device_list = String::from_str("=== OUTPUT DEVICES ===\n");
    match outputs {
        Some(names) => {
            let mut i: usize = 0;
            assert(names@.take(0) =~= Seq::<String>::empty());
            while i < names.len()
                invariant
                    i <= names.len(),
                    device_list@ == "=== OUTPUT DEVICES ===\n"@ + spec_device_lines(
                        names@.take(i as int),
                    ),
                decreases names.len() - i,
            {
                proof {
                    assert(names@.take(i + 1).drop_last() =~= names@.take(i as int));
                    assert(names@.take(i + 1).last() == names@[i as int]);
                }
                let ghost before = device_list@;
                device_list.append("- ");
                device_list.append(names[i].as_str());
                device_list.append("\n");
                assert(device_list@ =~= "=== OUTPUT DEVICES ===\n"@ + (spec_device_lines(
                    names@.take(i as int),
                ) + "- "@ + names@[i as int]@ + "\n"@));
                i = i + 1;
            }
            assert(names@.take(names.len() as int) =~= names@);
        },
        None => {
            device_list.append("Failed to get output devices\n");
        },
    }
    device_list
}

/// A gain in hundredths, rounded to the nearest and on a tie to the even
/// one.
pub open spec fn spec_hundredths(millionths: int) -> int {
    let whole = millionths / 10_000;
    let rest = millionths % 10_000;
    if rest > 5_000 || (rest == 5_000 && whole % 2 == 1) {
        whole + 1
    } else {
        whole
    }
}

/// A gain with two decimal places.
pub open spec fn spec_gain_text(millionths: int) -> Seq<char> {
    decimal((spec_hundredths(millionths) / 100) as nat) + seq!['.'] + decimal_two_places(
        (spec_hundredths(millionths) % 100) as nat,
    )
}

/// Writes a gain with two decimal places.
pub fn gain_text(gain: Gain) -> (text: Vec<char>)
    ensures
        text@ == spec_gain_text(gain@),
{
    let millionths: u32 = gain.millionths();
    let whole: u32 = millionths / 10_000;
    let rest: u32 = millionths % 10_000;
    let hundredths: u32 = if rest > 5_000 || (rest == 5_000 && whole % 2 == 1) {
        whole + 1
    } else {
        whole
    };
    let mut text = decimal_chars((hundredths / 100) as u64);
    text.push('.');
    let places: u32 = hundredths % 100;
    if places < 10 {
        text.push('0');
    }
    let digits = decimal_chars(places as u64);
    append_chars(&mut text, &digits);
    assert(text@ =~= spec_gain_text(gain@));
    text
}

/// The name of a device, or `None` where none is selected.
pub open spec fn spec_device_text(name: Option<Seq<char>>) -> Seq<char> {
    match name {
        Some(n) => n,
        None => "None"@,
    }
}

/// The state of the two playback devices as text.
pub open spec fn spec_audio_status(
    virtual_device: Option<Seq<char>>,
    virtual_volume: int,
    output_device: Option<Seq<char>>,
    output_volume: int,
) -> Seq<char> {
    "Virtual Device: "@ + spec_device_text(virtual_device) + " (Volume: "@ + spec_gain_text(
        virtual_volume,
    ) + ")\nOutput Device: "@ + spec_device_text(output_device) + " (Volume: "@ + spec_gain_text(
        output_volume,
    ) + ")"@
}

/// Says in two lines which virtual device and which output are selected,
/// and the gain of each with two decimal places.
pub fn get_audio_status(manager: &AudioManager) -> (status: String)
    ensures
        status@ == spec_audio_status(
            manager@.virtual_device,
            manager@.virtual_volume,
            manager@.output_device,
            manager@.output_volume,
        ),
{
    let virtual_device = match manager.get_virtual_device() {
        Some(name) => name,
        None => String::from_str("None"),
    };
    let output_device = match manager.get_output_device() {
        Some(name) => name,
        None => String::from_str("None"),
    };
    let virtual_volume = string_of(&gain_text(manager.get_virtual_volume()));
    let output_volume = string_of(&gain_text(manager.get_output_volume()));
    let mut status = String::from_str("Virtual Device: ");
    status.append(virtual_device.as_str());
    status.append(" (Volume: ");
    status.append(virtual_volume.as_str());
    status.append(")\nOutput Device: ");
    status.append(output_device.as_str());
    status.append(" (Volume: ");
    status.append(output_volume.as_str());
    status.append(")");
    status
}

} // verus!
