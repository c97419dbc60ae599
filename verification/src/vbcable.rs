//! The search for a virtual cable among the outputs on Windows.

use vstd::prelude::*;
use vstd::string::StringExecFns;
use crate::text::{chars_contain_str, chars_of, contains_seq, lowercase, lowercase_of};

verus! {

/// What the search for a virtual cable found.
#[derive(Debug)]
pub struct VirtualCableStatus {
    pub found: bool,
    pub device_name: Option<String>,
    pub is_voicemod: bool,
    pub message: Option<String>,
}

/// What the user is told when the cable is Voicemod's.
pub const VOICEMOD_MESSAGE: &'static str =
    "Voicemod Virtual Cable detected. Please ensure the Voicemod app is open for the cable to function.\n\nWarning: If Voicemod is not running, the virtual cable will not work!";

/// Whether a lowercase name is that of a VB-Audio cable.
pub open spec fn names_vb_cable(lower: Seq<char>) -> bool {
    ||| contains_seq(lower, "vb-cable"@)
    ||| contains_seq(lower, "vb audio"@)
    ||| contains_seq(lower, "virtual cable"@)
    ||| contains_seq(lower, "vb-audio"@)
}

/// Whether a lowercase name is that of Voicemod's cable.
pub open spec fn names_voicemod(lower: Seq<char>) -> bool {
    contains_seq(lower, "voicemod"@)
}

/// Whether a device of this name counts as a virtual cable.
pub open spec fn names_cable(name: Seq<char>) -> bool {
    names_vb_cable(lowercase_of(name)) || names_voicemod(lowercase_of(name))
}

/// The status for the first cable among `names`, or for none.
pub open spec fn spec_cable_status(names: Seq<String>, status: VirtualCableStatus) -> bool {
    if exists|i: int| 0 <= i < names.len() && names_cable(#[trigger] names[i]@) {
        exists|i: int|
            {
                &&& 0 <= i < names.len()
                &&& names_cable(#[trigger] names[i]@)
                &&& forall|j: int| 0 <= j < i ==> !names_cable(#[trigger] names[j]@)
                &&& status.found
                &&& status.device_name is Some
                &&& status.device_name->0@ == names[i]@
                &&& status.is_voicemod == !names_vb_cable(lowercase_of(names[i]@))
                &&& (status.is_voicemod ==> status.message is Some && status.message->0@
                    == VOICEMOD_MESSAGE@)
                &&& (!status.is_voicemod ==> status.message is None)
            }
    } else {
        !status.found && status.device_name is None && !status.is_voicemod && status.message is None
    }
}

/// What kind of virtual cable a name stands for.
#[derive(Debug, Clone, Copy, PartialEq, Eq, Structural)]
pub enum CableKind {
    /// A cable of VB-Audio.
    VbCable,
    /// The cable of Voicemod.
    Voicemod,
    /// No virtual cable.
    NoCable,
}

/// The kind of cable that a lowercase name stands for; the name of a
/// VB-Audio cable goes before that of Voicemod.
pub open spec fn spec_cable_kind(lower: Seq<char>) -> CableKind {
    if names_vb_cable(lower) {
        CableKind::VbCable
    } else if names_voicemod(lower) {
        CableKind::Voicemod
    } else {
        CableKind::NoCable
    }
}

/// Tells from a name that is already in lowercase what kind of virtual
/// cable it stands for.
pub fn cable_kind(name_lower: &Vec<char>) -> (kind: CableKind)
    ensures
        kind == spec_cable_kind(name_lower@),
{
    if chars_contain_str(name_lower, "vb-cable") || chars_contain_str(name_lower, "vb audio")
        || chars_contain_str(name_lower, "virtual cable") || chars_contain_str(
        name_lower,
        "vb-audio",
    ) {
        CableKind::VbCable
    } else if chars_contain_str(name_lower, "voicemod") {
        CableKind::Voicemod
    } else {
        CableKind::NoCable
    }
}

/// Looks for a virtual cable among the names of the outputs. The first
/// output that bears the name of a VB-Audio cable or of Voicemod's cable is
/// the cable; Voicemod's comes with a warning for the user.
pub fn check_virtual_cable(names: &Vec<String>) -> (status: VirtualCableStatus)
    ensures
        spec_cable_status(names@, status),
{
    let mut i: usize = 0;
    while i < names.len()
        invariant
            i <= names.len(),
            forall|j: int| 0 <= j < i ==> !names_cable(#[trigger] names[j]@),
        decreases names.len() - i,
    {
        let lower = lowercase(names[i].as_str());
        let name_lower = chars_of(lower.as_str());
        match cable_kind(&name_lower) {
            CableKind::VbCable => {
                assert(names_cable(names[i as int]@));
                return VirtualCableStatus {
                    found: true,
                    device_name: Some(names[i].clone()),
                    is_voicemod: false,
                    message: None,
                };
            },
            CableKind::Voicemod => {
                assert(names_cable(names[i as int]@));
                return VirtualCableStatus {
                    found: true,
                    device_name: Some(names[i].clone()),
                    is_voicemod: true,
                    message: Some(String::from_str(VOICEMOD_MESSAGE)),
                };
            },
            CableKind::NoCable => {},
        }
        i = i + 1;
    }
    VirtualCableStatus { found: false, device_name: None, is_voicemod: false, message: None }
}

} // verus!
