//! Device descriptors and the classification of device names.

use vstd::prelude::*;
use crate::text::{chars_contain_str, chars_of, contains_seq, lowercase, lowercase_of, str_equal};

verus! {

/// What a device is used for.
#[derive(Clone, Copy, Debug, PartialEq, Eq, Structural)]
pub enum DeviceRole {
    /// A physical output such as speakers or headphones.
    Output,
    /// A capture device such as a microphone.
    Input,
    /// A software loopback output that other programs record from.
    Virtual,
}

impl DeviceRole {
    /// The role as the user interface spells it.
    pub open spec fn spec_name(self) -> Seq<char> {
        match self {
            DeviceRole::Output => "output"@,
            DeviceRole::Input => "input"@,
            DeviceRole::Virtual => "virtual"@,
        }
    }

    /// The role as the user interface spells it.
    pub fn name(&self) -> (name: &'static str)
        ensures
            name@ == self.spec_name(),
    {
        match self {
            DeviceRole::Output => "output",
            DeviceRole::Input => "input",
            DeviceRole::Virtual => "virtual",
        }
    }
}

/// One device of the host, as shown to the user.
#[derive(Clone, Debug)]
pub struct AudioDevice {
    pub name: String,
    pub is_default: bool,
    pub device_type: DeviceRole,
}

/// Whether a lowercase device name is that of a known virtual audio product.
pub open spec fn names_virtual_device(lower: Seq<char>) -> bool {
    ||| contains_seq(lower, "vb-cable"@)
    ||| contains_seq(lower, "vb audio"@)
    ||| contains_seq(lower, "virtual cable"@)
    ||| contains_seq(lower, "vb-audio"@)
    ||| contains_seq(lower, "voicemod"@)
    ||| contains_seq(lower, "midah-virtual-sink"@)
    ||| (contains_seq(lower, "virtual"@) && (contains_seq(lower, "sink"@) || contains_seq(
        lower,
        "audio"@,
    ) || contains_seq(lower, "cable"@) || contains_seq(lower, "loopback"@)))
}

/// Whether a name that is already in lowercase is that of a known virtual
/// audio product: it holds one of the product names, or the word `virtual`
/// together with `sink`, `audio`, `cable` or `loopback`.
pub fn names_virtual(name_lower: &Vec<char>) -> (is_virtual: bool)
    ensures
        is_virtual == names_virtual_device(name_lower@),
{
    if chars_contain_str(name_lower, "vb-cable") || chars_contain_str(name_lower, "vb audio")
        || chars_contain_str(name_lower, "virtual cable") || chars_contain_str(
        name_lower,
        "vb-audio",
    ) || chars_contain_str(name_lower, "voicemod") {
        return true;
    }
    if chars_contain_str(name_lower, "midah-virtual-sink") {
        return true;
    }
    chars_contain_str(name_lower, "virtual") && (chars_contain_str(name_lower, "sink")
        || chars_contain_str(name_lower, "audio") || chars_contain_str(name_lower, "cable")
        || chars_contain_str(name_lower, "loopback"))
}

/// Whether a device of this name can serve as the virtual microphone. The
/// match is a heuristic on the lowercase name, so a user may still have to
/// pick the device by hand.
pub fn is_virtual_audio_device(device_name: &str) -> (is_virtual: bool)
    ensures
        is_virtual == names_virtual_device(lowercase_of(device_name@)),
{
    let lower = lowercase(device_name);
    let name_lower = chars_of(lower.as_str());
    names_virtual(&name_lower)
}

/// Whether a lowercase output name is listed under the virtual role.
pub open spec fn lists_as_virtual(lower: Seq<char>) -> bool {
    ||| contains_seq(lower, "cable"@)
    ||| contains_seq(lower, "vb-audio"@)
    ||| contains_seq(lower, "virtual"@)
    ||| contains_seq(lower, "vb-cable"@)
}

/// The role under which an output device of this name is listed.
pub open spec fn listed_output_role(name: Seq<char>) -> DeviceRole {
    if lists_as_virtual(lowercase_of(name)) {
        DeviceRole::Virtual
    } else {
        DeviceRole::Output
    }
}

/// Whether an output whose name is already in lowercase is listed under
/// the virtual role: its name holds `cable`, `vb-audio`, `virtual` or
/// `vb-cable`.
pub fn lists_virtual(name_lower: &Vec<char>) -> (is_virtual: bool)
    ensures
        is_virtual == lists_as_virtual(name_lower@),
{
    chars_contain_str(name_lower, "cable") || chars_contain_str(name_lower, "vb-audio")
        || chars_contain_str(name_lower, "virtual") || chars_contain_str(name_lower, "vb-cable")
}

/// The role under which an output device of this name is listed.
pub fn output_role(name: &str) -> (role: DeviceRole)
    ensures
        role == listed_output_role(name@),
{
    let lower = lowercase(name);
    let name_lower = chars_of(lower.as_str());
    if lists_virtual(&name_lower) {
        DeviceRole::Virtual
    } else {
        DeviceRole::Output
    }
}

/// Whether `names[i]` is the first name equal to the host's default.
pub open spec fn is_first_named(names: Seq<String>, default_name: Option<String>, i: int) -> bool {
    &&& default_name is Some
    &&& 0 <= i < names.len()
    &&& names[i]@ == default_name->0@
    &&& forall|j: int| 0 <= j < i ==> names[j]@ != default_name->0@
}

/// The position of the first device called `device_name`, if there is one.
pub fn find_device(devices: &Vec<String>, device_name: &str) -> (found: Option<usize>)
    ensures
        match found {
            Some(i) => i < devices.len() && devices[i as int]@ == device_name@ && forall|j: int|
                0 <= j < i ==> devices[j]@ != device_name@,
            None => forall|j: int| 0 <= j < devices.len() ==> devices[j]@ != device_name@,
        },
{
    let mut i: usize = 0;
    while i < devices.len()
        invariant
            i <= devices.len(),
            forall|j: int| 0 <= j < i ==> devices[j]@ != device_name@,
        decreases devices.len() - i,
    {
        if str_equal(devices[i].as_str(), device_name) {
            return Some(i);
        }
        i = i + 1;
    }
    None
}

/// Describes every device of the host: the outputs in the order given, then
/// the inputs. An output is listed as virtual when its name holds one of the
/// virtual-audio keywords. In each of the two groups the first device that
/// bears the name of the host's default is marked as the default, and no
/// other.
pub fn get_audio_devices(
    outputs: &Vec<String>,
    default_output: &Option<String>,
    inputs: &Vec<String>,
    default_input: &Option<String>,
) -> (devices: Vec<AudioDevice>)
    ensures
        devices.len() == outputs.len() + inputs.len(),
        forall|i: int|
            0 <= i < outputs.len() ==> {
                &&& (#[trigger] devices[i]).name@ == outputs[i]@
                &&& devices[i].device_type == listed_output_role(outputs[i]@)
                &&& devices[i].is_default == is_first_named(outputs@, *default_output, i)
            },
        forall|i: int|
            0 <= i < inputs.len() ==> {
                &&& (#[trigger] devices[outputs.len() + i]).name@ == inputs[i]@
                &&& devices[outputs.len() + i].device_type == DeviceRole::Input
                &&& devices[outputs.len() + i].is_default == is_first_named(
                    inputs@,
                    *default_input,
                    i,
                )
            },
{
    let mut devices: Vec<AudioDevice> = Vec::new();
    let default_at: Option<usize> = match default_output {
        Some(name) => find_device(outputs, name.as_str()),
        None => None,
    };
    let mut i: usize = 0;
    while i < outputs.len()
        invariant
            i <= outputs.len(),
            devices.len() == i,
            match default_at {
                Some(d) => is_first_named(outputs@, *default_output, d as int),
                None => forall|j: int| 0 <= j < outputs.len() ==> !is_first_named(outputs@, *default_output, j),
            },
            forall|k: int|
                0 <= k < i ==> {
                    &&& (#[trigger] devices[k]).name@ == outputs[k]@
                    &&& devices[k].device_type == listed_output_role(outputs[k]@)
                    &&& devices[k].is_default == is_first_named(outputs@, *default_output, k)
                },
        decreases outputs.len() - i,
    {
        let name = outputs[i].clone();
        let device_type = output_role(name.as_str());
        let is_default = default_at == Some(i);
        devices.push(AudioDevice { name, is_default, device_type });
        i = i + 1;
    }
    let input_default_at: Option<usize> = match default_input {
        Some(name) => find_device(inputs, name.as_str()),
        None => None,
    };
    let mut n: usize = 0;
    while n < inputs.len()
        invariant
            n <= inputs.len(),
            devices.len() == outputs.len() + n,
            match input_default_at {
                Some(d) => is_first_named(inputs@, *default_input, d as int),
                None => forall|j: int| 0 <= j < inputs.len() ==> !is_first_named(inputs@, *default_input, j),
            },
            forall|k: int|
                0 <= k < outputs.len() ==> {
                    &&& (#[trigger] devices[k]).name@ == outputs[k]@
                    &&& devices[k].device_type == listed_output_role(outputs[k]@)
                    &&& devices[k].is_default == is_first_named(outputs@, *default_output, k)
                },
            forall|k: int|
                0 <= k < n ==> {
                    &&& (#[trigger] devices[outputs.len() + k]).name@ == inputs[k]@
                    &&& devices[outputs.len() + k].device_type == DeviceRole::Input
                    &&& devices[outputs.len() + k].is_default == is_first_named(
                        inputs@,
                        *default_input,
                        k,
                    )
                },
        decreases inputs.len() - n,
    {
        let name = inputs[n].clone();
        let is_default = input_default_at == Some(n);
        devices.push(AudioDevice { name, is_default, device_type: DeviceRole::Input });
        n = n + 1;
    }
    devices
}

/// At most one output and at most one input is marked as the default.
pub proof fn lemma_single_default(names: Seq<String>, default_name: Option<String>, i: int, j: int)
    requires
        is_first_named(names, default_name, i),
        is_first_named(names, default_name, j),
    ensures
        i == j,
{
    if i < j {
        assert(names[i]@ != default_name->0@);
    } else if j < i {
        assert(names[j]@ != default_name->0@);
    }
}

} // verus!
