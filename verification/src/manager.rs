//! The device catalog: which devices are selected and the three gains.

use vstd::prelude::*;
use crate::device::{find_device, is_virtual_audio_device, names_virtual_device, DeviceRole};
use crate::error::AudioError;
use crate::gain::{clamp_to_unit, Gain, GAIN_UNIT};
use crate::text::lowercase_of;

verus! {

/// The two ends of the microphone loopback as plain values.
pub struct RouteView {
    pub input_name: Seq<char>,
    pub output_name: Seq<char>,
}

/// The two ends of the microphone loopback: the input that is captured and
/// the virtual device that it is rendered to.
#[derive(Clone, Debug)]
pub struct CaptureRoute {
    pub input_name: String,
    pub output_name: String,
}

impl CaptureRoute {
    /// The route as a plain value.
    pub open spec fn view(&self) -> RouteView {
        RouteView { input_name: self.input_name@, output_name: self.output_name@ }
    }
}

/// The catalog as a plain value.
pub struct ManagerView {
    pub virtual_device: Option<Seq<char>>,
    pub output_device: Option<Seq<char>>,
    pub input_device: Option<Seq<char>>,
    pub virtual_volume: int,
    pub output_volume: int,
    pub input_volume: int,
    pub input_capture: Option<RouteView>,
}

impl ManagerView {
    /// The same catalog with the loopback running on `route`, or not running.
    pub open spec fn with_capture(self, route: Option<RouteView>) -> ManagerView {
        ManagerView { input_capture: route, ..self }
    }

    /// The route that a loopback started now would run on: the selected
    /// input and the selected virtual device, if both are selected.
    pub open spec fn capture_route(self) -> Option<RouteView> {
        if self.input_device is Some && self.virtual_device is Some {
            Some(RouteView { input_name: self.input_device->0, output_name: self.virtual_device->0 })
        } else {
            None
        }
    }

    /// The device selected for `role`.
    pub open spec fn device(self, role: DeviceRole) -> Option<Seq<char>> {
        match role {
            DeviceRole::Virtual => self.virtual_device,
            DeviceRole::Output => self.output_device,
            DeviceRole::Input => self.input_device,
        }
    }

    /// The gain stored for `role`, in millionths.
    pub open spec fn volume(self, role: DeviceRole) -> int {
        match role {
            DeviceRole::Virtual => self.virtual_volume,
            DeviceRole::Output => self.output_volume,
            DeviceRole::Input => self.input_volume,
        }
    }

    /// The same catalog with `name` selected for `role`.
    pub open spec fn with_device(self, role: DeviceRole, name: Seq<char>) -> ManagerView {
        match role {
            DeviceRole::Virtual => ManagerView { virtual_device: Some(name), ..self },
            DeviceRole::Output => ManagerView { output_device: Some(name), ..self },
            DeviceRole::Input => ManagerView { input_device: Some(name), ..self },
        }
    }

    /// The same catalog with the gain of `role` set to `millionths`.
    pub open spec fn with_volume(self, role: DeviceRole, millionths: int) -> ManagerView {
        match role {
            DeviceRole::Virtual => ManagerView { virtual_volume: millionths, ..self },
            DeviceRole::Output => ManagerView { output_volume: millionths, ..self },
            DeviceRole::Input => ManagerView { input_volume: millionths, ..self },
        }
    }

    /// Every gain lies between zero and one.
    pub open spec fn gains_in_range(self) -> bool {
        &&& 0 <= self.virtual_volume <= GAIN_UNIT
        &&& 0 <= self.output_volume <= GAIN_UNIT
        &&& 0 <= self.input_volume <= GAIN_UNIT
    }
}

/// Whether some device bears this name.
pub open spec fn has_device(devices: Seq<String>, name: Seq<char>) -> bool {
    exists|i: int| 0 <= i < devices.len() && devices[i]@ == name
}

/// Whether `devices[i]` is the first device with a virtual-audio name.
pub open spec fn is_first_virtual(devices: Seq<String>, i: int) -> bool {
    &&& 0 <= i < devices.len()
    &&& names_virtual_device(lowercase_of(devices[i]@))
    &&& forall|j: int| 0 <= j < i ==> !names_virtual_device(lowercase_of(devices[j]@))
}

/// Whether no device has a virtual-audio name.
pub open spec fn no_virtual(devices: Seq<String>) -> bool {
    forall|j: int| 0 <= j < devices.len() ==> !names_virtual_device(lowercase_of(devices[j]@))
}

/// The catalog that discovery yields when every default is present.
pub open spec fn discovered(
    outputs: Seq<String>,
    default_output: Option<String>,
    default_input: Option<String>,
    m: ManagerView,
) -> bool {
    &&& match m.virtual_device {
        Some(name) => exists|i: int| is_first_virtual(outputs, i) && outputs[i]@ == name,
        None => no_virtual(outputs),
    }
    &&& m.output_device == match default_output {
        Some(name) => Some(name@),
        None => None,
    }
    &&& m.input_device == match default_input {
        Some(name) => Some(name@),
        None => None,
    }
    &&& m.virtual_volume == GAIN_UNIT
    &&& m.output_volume == GAIN_UNIT
    &&& m.input_volume == GAIN_UNIT
    &&& m.input_capture is None
}

/// Stopping a loopback that is not running changes nothing, and restarting
/// one never touches the selection or the gains.
pub proof fn lemma_capture_control_is_idempotent(m: ManagerView)
    ensures
        m.with_capture(None).with_capture(None) == m.with_capture(None),
        m.input_capture is None ==> m.with_capture(None) == m,
        m.with_capture(m.capture_route()).with_capture(m.with_capture(m.capture_route()).capture_route())
            == m.with_capture(m.capture_route()),
{
}

/// Selection of the virtual, output and input device, their gains, and the
/// route of the microphone loopback while it runs.
pub struct AudioManager {
    virtual_device: Option<String>,
    output_device: Option<String>,
    input_device: Option<String>,
    virtual_volume: Gain,
    output_volume: Gain,
    input_volume: Gain,
    input_capture: Option<CaptureRoute>,
}

/// The characters of an optional name.
pub open spec fn name_view(name: Option<String>) -> Option<Seq<char>> {
    match name {
        Some(s) => Some(s@),
        None => None,
    }
}

impl AudioManager {
    /// The catalog as a plain value.
    pub closed spec fn view(&self) -> ManagerView {
        ManagerView {
            virtual_device: name_view(self.virtual_device),
            output_device: name_view(self.output_device),
            input_device: name_view(self.input_device),
            virtual_volume: self.virtual_volume@,
            output_volume: self.output_volume@,
            input_volume: self.input_volume@,
            input_capture: match self.input_capture {
                Some(route) => Some(route@),
                None => None,
            },
        }
    }

    /// The gains of a catalog are always between zero and one.
    #[verifier::type_invariant]
    pub closed spec fn wf(&self) -> bool {
        &&& self.virtual_volume.wf()
        &&& self.output_volume.wf()
        &&& self.input_volume.wf()
    }

    /// In a well-formed catalog every gain is between zero and one.
    pub proof fn lemma_gains_in_range(m: AudioManager)
        requires
            m.wf(),
        ensures
            m@.gains_in_range(),
    {
        Gain::lemma_bounded(m.virtual_volume);
        Gain::lemma_bounded(m.output_volume);
        Gain::lemma_bounded(m.input_volume);
    }

    /// A catalog with nothing selected and every gain at one.
    pub fn empty() -> (m: AudioManager)
        ensures
            m.wf(),
            m@.virtual_device is None,
            m@.output_device is None,
            m@.input_device is None,
            m@.virtual_volume == GAIN_UNIT,
            m@.output_volume == GAIN_UNIT,
            m@.input_volume == GAIN_UNIT,
            m@.input_capture is None,
    {
        AudioManager {
            virtual_device: None,
            output_device: None,
            input_device: None,
            virtual_volume: Gain::full(),
            output_volume: Gain::full(),
            input_volume: Gain::full(),
            input_capture: None,
        }
    }

    /// Sets up the catalog from one enumeration of the host: the first output
    /// with a virtual-audio name becomes the virtual device, and the host's
    /// default output and input are selected. Fails when a default that the
    /// host reports is not among the devices it lists.
    pub fn new(
        outputs: &Vec<String>,
        default_output: &Option<String>,
        inputs: &Vec<String>,
        default_input: &Option<String>,
    ) -> (made: Result<AudioManager, AudioError>)
        ensures
            match made {
                Ok(m) => {
                    &&& m.wf()
                    &&& discovered(outputs@, *default_output, *default_input, m@)
                    &&& default_output is Some ==> has_device(outputs@, default_output->0@)
                    &&& default_input is Some ==> has_device(inputs@, default_input->0@)
                },
                Err(e) => {
                    &&& e == AudioError::DeviceNotFound
                    &&& (default_output is Some && !has_device(outputs@, default_output->0@)) || (
                    default_input is Some && !has_device(inputs@, default_input->0@))
                },
            },
    {
        let mut manager = AudioManager::empty();
        match AudioManager::find_virtual_audio_device(outputs) {
            Some(i) => {
                manager.virtual_device = Some(outputs[i].clone());
            },
            None => {},
        }
        match default_output {
            Some(name) => {
                match find_device(outputs, name.as_str()) {
                    Some(i) => {
                        manager.output_device = Some(name.clone());
                    },
                    None => {
                        return Err(AudioError::DeviceNotFound);
                    },
                }
            },
            None => {},
        }
        match default_input {
            Some(name) => {
                match find_device(inputs, name.as_str()) {
                    Some(i) => {
                        manager.input_device = Some(name.clone());
                    },
                    None => {
                        return Err(AudioError::DeviceNotFound);
                    },
                }
            },
            None => {},
        }
        Ok(manager)
    }

    /// The position of the first output whose name marks it as a virtual
    /// audio device.
    pub fn find_virtual_audio_device(outputs: &Vec<String>) -> (found: Option<usize>)
        ensures
            match found {
                Some(i) => is_first_virtual(outputs@, i as int),
                None => no_virtual(outputs@),
            },
    {
        let mut i: usize = 0;
        while i < outputs.len()
            invariant
                i <= outputs.len(),
                forall|j: int| 0 <= j < i ==> !names_virtual_device(lowercase_of(outputs[j]@)),
            decreases outputs.len() - i,
        {
            if is_virtual_audio_device(outputs[i].as_str()) {
                return Some(i);
            }
            i = i + 1;
        }
        None
    }

    /// Selects the device called `device_name` for `role`. The name must be
    /// that of one of `devices`, the devices that the host lists for the role
    /// at the time of the call; otherwise nothing changes.
    pub fn select(&mut self, role: DeviceRole, device_name: &str, devices: &Vec<String>) -> (done:
        Result<(), AudioError>)
        ensures
            final(self).wf(),
            match done {
                Ok(_) => has_device(devices@, device_name@) && final(self)@ == old(self)@.with_device(
                    role,
                    device_name@,
                ),
                Err(e) => e == AudioError::DeviceNotFound && !has_device(devices@, device_name@)
                    && final(self)@ == old(self)@,
            },
    {
        proof {
            use_type_invariant(&*self);
        }
        match find_device(devices, device_name) {
            Some(i) => {
                let name = devices[i].clone();
                match role {
                    DeviceRole::Virtual => {
                        self.virtual_device = Some(name);
                    },
                    DeviceRole::Output => {
                        self.output_device = Some(name);
                    },
                    DeviceRole::Input => {
                        self.input_device = Some(name);
                    },
                }
                Ok(())
            },
            None => Err(AudioError::DeviceNotFound),
        }
    }

    /// Selects the virtual device from among the host's outputs.
    pub fn set_virtual_device(&mut self, device_name: &str, outputs: &Vec<String>) -> (done: Result<
        (),
        AudioError,
    >)
        ensures
            final(self).wf(),
            match done {
                Ok(_) => has_device(outputs@, device_name@) && final(self)@ == old(self)@.with_device(
                    DeviceRole::Virtual,
                    device_name@,
                ),
                Err(e) => e == AudioError::DeviceNotFound && !has_device(outputs@, device_name@)
                    && final(self)@ == old(self)@,
            },
    {
        self.select(DeviceRole::Virtual, device_name, outputs)
    }

    /// Selects the physical output from among the host's outputs.
    pub fn set_output_device(&mut self, device_name: &str, outputs: &Vec<String>) -> (done: Result<
        (),
        AudioError,
    >)
        ensures
            final(self).wf(),
            match done {
                Ok(_) => has_device(outputs@, device_name@) && final(self)@ == old(self)@.with_device(
                    DeviceRole::Output,
                    device_name@,
                ),
                Err(e) => e == AudioError::DeviceNotFound && !has_device(outputs@, device_name@)
                    && final(self)@ == old(self)@,
            },
    {
        self.select(DeviceRole::Output, device_name, outputs)
    }

    /// Selects the input from among the host's inputs.
    pub fn set_input_device(&mut self, device_name: &str, inputs: &Vec<String>) -> (done: Result<
        (),
        AudioError,
    >)
        ensures
            final(self).wf(),
            match done {
                Ok(_) => has_device(inputs@, device_name@) && final(self)@ == old(self)@.with_device(
                    DeviceRole::Input,
                    device_name@,
                ),
                Err(e) => e == AudioError::DeviceNotFound && !has_device(inputs@, device_name@)
                    && final(self)@ == old(self)@,
            },
    {
        self.select(DeviceRole::Input, device_name, inputs)
    }

    /// The gain stored for `role`.
    pub fn get_volume(&self, role: DeviceRole) -> (g: Gain)
        ensures
            g.wf(),
            g@ == self@.volume(role),
            0 <= g@ <= GAIN_UNIT,
    {
        proof {
            use_type_invariant(self);
        }
        let g = match role {
            DeviceRole::Virtual => self.virtual_volume,
            DeviceRole::Output => self.output_volume,
            DeviceRole::Input => self.input_volume,
        };
        proof {
            Gain::lemma_bounded(g);
        }
        g
    }

    /// Stores `millionths`, clamped to the range from zero to one, as the gain
    /// of `role`. Nothing else changes.
    pub fn set_volume(&mut self, role: DeviceRole, millionths: i64)
        ensures
            final(self).wf(),
            final(self)@ == old(self)@.with_volume(role, clamp_to_unit(millionths as int)),
    {
        proof {
            use_type_invariant(&*self);
        }
        let volume = Gain::clamped(millionths);
        match role {
            DeviceRole::Virtual => {
                self.virtual_volume = volume;
            },
            DeviceRole::Output => {
                self.output_volume = volume;
            },
            DeviceRole::Input => {
                self.input_volume = volume;
            },
        }
    }

    /// The gain of the virtual device.
    pub fn get_virtual_volume(&self) -> (g: Gain)
        ensures
            g.wf(),
            g@ == self@.virtual_volume,
            0 <= g@ <= GAIN_UNIT,
    {
        self.get_volume(DeviceRole::Virtual)
    }

    /// Stores the clamped gain of the virtual device.
    pub fn set_virtual_volume(&mut self, volume: i64)
        ensures
            final(self).wf(),
            final(self)@ == old(self)@.with_volume(DeviceRole::Virtual, clamp_to_unit(volume as int)),
    {
        self.set_volume(DeviceRole::Virtual, volume)
    }

    /// The gain of the physical output.
    pub fn get_output_volume(&self) -> (g: Gain)
        ensures
            g.wf(),
            g@ == self@.output_volume,
            0 <= g@ <= GAIN_UNIT,
    {
        self.get_volume(DeviceRole::Output)
    }

    /// Stores the clamped gain of the physical output.
    pub fn set_output_volume(&mut self, volume: i64)
        ensures
            final(self).wf(),
            final(self)@ == old(self)@.with_volume(DeviceRole::Output, clamp_to_unit(volume as int)),
    {
        self.set_volume(DeviceRole::Output, volume)
    }

    /// The gain of the input.
    pub fn get_input_volume(&self) -> (g: Gain)
        ensures
            g.wf(),
            g@ == self@.input_volume,
            0 <= g@ <= GAIN_UNIT,
    {
        self.get_volume(DeviceRole::Input)
    }

    /// Stores the clamped gain of the input.
    pub fn set_input_volume(&mut self, volume: i64)
        ensures
            final(self).wf(),
            final(self)@ == old(self)@.with_volume(DeviceRole::Input, clamp_to_unit(volume as int)),
    {
        self.set_volume(DeviceRole::Input, volume)
    }

    /// Starts the microphone loopback afresh on the devices that are selected
    /// now. A loopback that was running is given up first, whatever follows.
    /// Without a selected input or a selected virtual device there is no
    /// route, and then no loopback runs after the call.
    pub fn start_input_capture(&mut self) -> (started: Result<CaptureRoute, AudioError>)
        ensures
            final(self).wf(),
            final(self)@ == old(self)@.with_capture(old(self)@.capture_route()),
            match started {
                Ok(route) => Some(route@) == old(self)@.capture_route(),
                Err(e) => e == AudioError::DeviceNotFound && old(self)@.capture_route() is None,
            },
    {
        proof {
            use_type_invariant(&*self);
        }
        self.input_capture = None;
        let input_name = match &self.input_device {
            Some(name) => name.clone(),
            None => {
                return Err(AudioError::DeviceNotFound);
            },
        };
        let output_name = match &self.virtual_device {
            Some(name) => name.clone(),
            None => {
                return Err(AudioError::DeviceNotFound);
            },
        };
        self.input_capture = Some(
            CaptureRoute { input_name: input_name.clone(), output_name: output_name.clone() },
        );
        Ok(CaptureRoute { input_name, output_name })
    }

    /// Stops the microphone loopback and says whether one was running.
    /// Stopping twice is the same as stopping once.
    pub fn stop_input_capture(&mut self) -> (was_running: bool)
        ensures
            final(self).wf(),
            final(self)@ == old(self)@.with_capture(None),
            was_running == (old(self)@.input_capture is Some),
    {
        proof {
            use_type_invariant(&*self);
        }
        let was_running = self.input_capture.is_some();
        self.input_capture = None;
        was_running
    }

    /// The route of the running loopback, if one runs.
    pub fn capture_route(&self) -> (route: Option<CaptureRoute>)
        ensures
            match route {
                Some(r) => self@.input_capture == Some(r@),
                None => self@.input_capture is None,
            },
    {
        match &self.input_capture {
            Some(r) => Some(
                CaptureRoute { input_name: r.input_name.clone(), output_name: r.output_name.clone() },
            ),
            None => None,
        }
    }

    /// The name of the device selected for `role`.
    pub fn get_device(&self, role: DeviceRole) -> (name: Option<String>)
        ensures
            name_view(name) == self@.device(role),
    {
        match role {
            DeviceRole::Virtual => self.virtual_device.clone(),
            DeviceRole::Output => self.output_device.clone(),
            DeviceRole::Input => self.input_device.clone(),
        }
    }

    /// The name of the selected virtual device.
    pub fn get_virtual_device(&self) -> (name: Option<String>)
        ensures
            name_view(name) == self@.virtual_device,
    {
        self.get_device(DeviceRole::Virtual)
    }

    /// The name of the selected physical output.
    pub fn get_output_device(&self) -> (name: Option<String>)
        ensures
            name_view(name) == self@.output_device,
    {
        self.get_device(DeviceRole::Output)
    }

    /// The name of the selected input.
    pub fn get_input_device(&self) -> (name: Option<String>)
        ensures
            name_view(name) == self@.input_device,
    {
        self.get_device(DeviceRole::Input)
    }
}

} // verus!
