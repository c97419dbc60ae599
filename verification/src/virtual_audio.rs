//! What the user is told about virtual audio on each platform.

use vstd::prelude::*;
use vstd::string::StringExecFns;
use crate::pipewire::PipeWireStatus;
use crate::text::str_equal;
use crate::vbcable::VirtualCableStatus;

verus! {

/// The state of virtual audio on this machine.
#[derive(Debug)]
pub struct VirtualAudioStatus {
    pub platform: String,
    pub available: bool,
    pub device_name: Option<String>,
    pub is_special_device: bool,
    pub message: Option<String>,
    pub installation_required: bool,
}

/// What was found out about the platform's own virtual audio.
#[derive(Debug)]
pub enum PlatformProbe {
    /// The search for a virtual cable, on Windows.
    Cable(VirtualCableStatus),
    /// The state of PipeWire, on Linux.
    PipeWire(PipeWireStatus),
    /// Nothing was looked for.
    Nothing,
}

/// The characters of an optional string.
pub open spec fn text_view(text: Option<String>) -> Option<Seq<char>> {
    match text {
        Some(s) => Some(s@),
        None => None,
    }
}

/// The status as a plain value.
pub struct StatusView {
    pub platform: Seq<char>,
    pub available: bool,
    pub device_name: Option<Seq<char>>,
    pub is_special_device: bool,
    pub message: Option<Seq<char>>,
    pub installation_required: bool,
}

impl VirtualAudioStatus {
    /// The status as a plain value.
    pub open spec fn view(&self) -> StatusView {
        StatusView {
            platform: self.platform@,
            available: self.available,
            device_name: text_view(self.device_name),
            is_special_device: self.is_special_device,
            message: text_view(self.message),
            installation_required: self.installation_required,
        }
    }
}

/// A status that says that nothing is available, with a message.
pub open spec fn unavailable(platform: Seq<char>, message: Seq<char>) -> StatusView {
    StatusView {
        platform,
        available: false,
        device_name: None,
        is_special_device: false,
        message: Some(message),
        installation_required: false,
    }
}

/// The status for `platform`, given what was found out.
pub open spec fn spec_virtual_audio_status(platform: Seq<char>, probe: PlatformProbe) -> StatusView {
    if platform == "windows"@ {
        match probe {
            PlatformProbe::Cable(cable) => StatusView {
                platform,
                available: cable.found,
                device_name: text_view(cable.device_name),
                is_special_device: cable.is_voicemod,
                message: text_view(cable.message),
                installation_required: !cable.found,
            },
            _ => unavailable(platform, "VB-Cable is only supported on Windows"@),
        }
    } else if platform == "linux"@ {
        match probe {
            PlatformProbe::PipeWire(pw) => StatusView {
                platform,
                available: pw.virtual_sink_available,
                device_name: text_view(pw.virtual_sink_name),
                is_special_device: false,
                message: text_view(pw.installation_message),
                installation_required: !pw.pipewire_available || !pw.virtual_sink_available,
            },
            _ => unavailable(platform, "PipeWire is only supported on Linux"@),
        }
    } else if platform == "macos"@ {
        unavailable(
            platform,
            "Virtual audio setup for macOS is not yet implemented. You can use applications like BlackHole manually."@,
        )
    } else {
        unavailable(platform, "Virtual audio is not supported on "@ + platform)
    }
}

/// Says what the user is told about virtual audio. On Windows the status
/// follows the search for a virtual cable, on Linux the state of PipeWire;
/// on every other platform nothing is available.
pub fn check_virtual_audio_status(platform: &str, probe: PlatformProbe) -> (status:
    VirtualAudioStatus)
    ensures
        status@ == spec_virtual_audio_status(platform@, probe),
{
    let name = String::from_str(platform);
    if str_equal(platform, "windows") {
        match probe {
            PlatformProbe::Cable(cable) => VirtualAudioStatus {
                platform: name,
                available: cable.found,
                device_name: cable.device_name,
                is_special_device: cable.is_voicemod,
                message: cable.message,
                installation_required: !cable.found,
            },
            _ => VirtualAudioStatus {
                platform: name,
                available: false,
                device_name: None,
                is_special_device: false,
                message: Some(String::from_str("VB-Cable is only supported on Windows")),
                installation_required: false,
            },
        }
    } else if str_equal(platform, "linux") {
        match probe {
            PlatformProbe::PipeWire(pw) => VirtualAudioStatus {
                platform: name,
                available: pw.virtual_sink_available,
                device_name: pw.virtual_sink_name,
                is_special_device: false,
                message: pw.installation_message,
                installation_required: !pw.pipewire_available || !pw.virtual_sink_available,
            },
            _ => VirtualAudioStatus {
                platform: name,
                available: false,
                device_name: None,
                is_special_device: false,
                message: Some(String::from_str("PipeWire is only supported on Linux")),
                installation_required: false,
            },
        }
    } else if str_equal(platform, "macos") {
        VirtualAudioStatus {
            platform: name,
            available: false,
            device_name: None,
            is_special_device: false,
            message: Some(
                String::from_str(
                    "Virtual audio setup for macOS is not yet implemented. You can use applications like BlackHole manually.",
                ),
            ),
            installation_required: false,
        }
    } else {
        VirtualAudioStatus {
            platform: name,
            available: false,
            device_name: None,
            is_special_device: false,
            message: Some(String::from_str("Virtual audio is not supported on ").concat(platform)),
            installation_required: false,
        }
    }
}

} // verus!
