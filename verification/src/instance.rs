//! One sound as it plays on one or several devices at once: which sinks are
//! opened for it, and the gain of each.

use vstd::prelude::*;
use crate::gain::{combine_volume, Gain, Volume, GAIN_UNIT};
use crate::manager::{AudioManager, ManagerView};

verus! {

/// The device that a sink plays on.
#[derive(Clone, Copy, Debug, PartialEq, Eq, Structural)]
pub enum SinkTarget {
    /// The selected virtual device.
    Virtual,
    /// The selected physical output.
    Output,
    /// The output that the system uses by default.
    SystemDefault,
}

/// One sink as a plain value.
pub struct SinkView {
    pub target: SinkTarget,
    pub device_volume: int,
}

/// One sink of a sound: the device it plays on and the gain of that device.
#[derive(Clone, Copy, Debug, PartialEq, Eq, Structural)]
pub struct Sink {
    target: SinkTarget,
    device_volume: Gain,
}

impl Sink {
    /// The sink as a plain value.
    pub closed spec fn view(&self) -> SinkView {
        SinkView { target: self.target, device_volume: self.device_volume@ }
    }

    /// The gain of a sink lies between zero and one.
    #[verifier::type_invariant]
    pub closed spec fn wf(&self) -> bool {
        self.device_volume.wf()
    }

    /// The device that the sink plays on.
    pub fn target(&self) -> (target: SinkTarget)
        ensures
            target == self@.target,
    {
        self.target
    }

    /// The gain of the sink's device.
    pub fn device_volume(&self) -> (g: Gain)
        ensures
            g.wf(),
            g@ == self@.device_volume,
            0 <= g@ <= GAIN_UNIT,
    {
        proof {
            use_type_invariant(self);
            Gain::lemma_bounded(self.device_volume);
        }
        self.device_volume
    }
}

/// What decides which sinks a sound is given.
pub struct PlanView {
    pub local_only: bool,
    pub virtual_configured: bool,
    pub output_configured: bool,
    pub virtual_volume: int,
    pub output_volume: int,
    pub virtual_attempt: Option<bool>,
    pub output_attempt: Option<bool>,
    pub default_attempt: Option<bool>,
}

impl PlanView {
    /// The plan at the start, before any device was tried.
    pub open spec fn initial(manager: ManagerView, local_only: bool) -> PlanView {
        PlanView {
            local_only,
            virtual_configured: manager.virtual_device is Some,
            output_configured: manager.output_device is Some,
            virtual_volume: manager.virtual_volume,
            output_volume: manager.output_volume,
            virtual_attempt: None,
            output_attempt: None,
            default_attempt: None,
        }
    }

    /// The device to try next; `None` when the plan is complete. A local
    /// sound tries the system default and nothing else. Any other sound
    /// tries the virtual device and the physical output where they are
    /// selected, and the system default only if neither gave a sink.
    pub open spec fn next_target(self) -> Option<SinkTarget> {
        if self.local_only {
            if self.default_attempt is None {
                Some(SinkTarget::SystemDefault)
            } else {
                None
            }
        } else if self.virtual_configured && self.virtual_attempt is None {
            Some(SinkTarget::Virtual)
        } else if self.output_configured && self.output_attempt is None {
            Some(SinkTarget::Output)
        } else if self.virtual_attempt != Some(true) && self.output_attempt != Some(true)
            && self.default_attempt is None {
            Some(SinkTarget::SystemDefault)
        } else {
            None
        }
    }

    /// The plan after the device that was due has been tried.
    pub open spec fn record(self, opened: bool) -> PlanView {
        match self.next_target() {
            Some(SinkTarget::Virtual) => PlanView { virtual_attempt: Some(opened), ..self },
            Some(SinkTarget::Output) => PlanView { output_attempt: Some(opened), ..self },
            Some(SinkTarget::SystemDefault) => PlanView { default_attempt: Some(opened), ..self },
            None => self,
        }
    }

    /// The sinks that were opened, in the order in which they were tried.
    pub open spec fn sinks(self) -> Seq<SinkView> {
        let first: Seq<SinkView> = if self.virtual_attempt == Some(true) {
            seq![SinkView { target: SinkTarget::Virtual, device_volume: self.virtual_volume }]
        } else {
            Seq::empty()
        };
        let second: Seq<SinkView> = if self.output_attempt == Some(true) {
            seq![SinkView { target: SinkTarget::Output, device_volume: self.output_volume }]
        } else {
            Seq::empty()
        };
        let third: Seq<SinkView> = if self.default_attempt == Some(true) {
            seq![SinkView { target: SinkTarget::SystemDefault, device_volume: GAIN_UNIT as int }]
        } else {
            Seq::empty()
        };
        first + second + third
    }

    /// What holds of every plan that was built by starting from `initial` and
    /// recording outcomes: a device is tried only in its turn.
    pub open spec fn reachable(self) -> bool {
        if self.local_only {
            self.virtual_attempt is None && self.output_attempt is None
        } else {
            &&& self.virtual_attempt is Some ==> self.virtual_configured
            &&& self.output_attempt is Some ==> self.output_configured && (self.virtual_configured
                ==> self.virtual_attempt is Some)
            &&& self.default_attempt is Some ==> {
                &&& self.virtual_attempt != Some(true)
                &&& self.output_attempt != Some(true)
                &&& self.virtual_configured ==> self.virtual_attempt is Some
                &&& self.output_configured ==> self.output_attempt is Some
            }
        }
    }
}

/// A fresh plan is reachable, and recording an outcome keeps a plan
/// reachable.
pub proof fn lemma_plan_stays_reachable(manager: ManagerView, local_only: bool, plan: PlanView, opened: bool)
    requires
        plan.reachable(),
    ensures
        PlanView::initial(manager, local_only).reachable(),
        plan.record(opened).reachable(),
{
}

/// Every plan is complete after three recorded outcomes at the latest.
pub proof fn lemma_plan_completes(plan: PlanView, a: bool, b: bool, c: bool)
    requires
        plan.reachable(),
    ensures
        plan.record(a).record(b).record(c).next_target() is None,
{
}

/// A local sound has exactly one sink, at unity gain, if the system default
/// could be opened, and none otherwise, whatever devices are selected.
pub proof fn lemma_local_plan(manager: ManagerView, opened: bool)
    ensures
        PlanView::initial(manager, true).next_target() == Some(SinkTarget::SystemDefault),
        PlanView::initial(manager, true).record(opened).next_target() is None,
        opened ==> PlanView::initial(manager, true).record(opened).sinks() == seq![
            SinkView { target: SinkTarget::SystemDefault, device_volume: GAIN_UNIT as int },
        ],
        !opened ==> PlanView::initial(manager, true).record(opened).sinks() == Seq::<
            SinkView,
        >::empty(),
{
    let done = PlanView::initial(manager, true).record(opened);
    if opened {
        assert(done.sinks() =~= seq![
            SinkView { target: SinkTarget::SystemDefault, device_volume: GAIN_UNIT as int },
        ]);
    } else {
        assert(done.sinks() =~= Seq::<SinkView>::empty());
    }
}

/// A complete plan is without a sink only if the system default was tried
/// and could not be opened; it never holds more than two sinks, and the
/// system default is never one of two.
pub proof fn lemma_fallback_chain(plan: PlanView)
    requires
        plan.reachable(),
        plan.next_target() is None,
    ensures
        plan.sinks().len() == 0 ==> plan.default_attempt == Some(false),
        plan.sinks().len() <= 2,
        plan.default_attempt == Some(true) ==> plan.sinks() == seq![
            SinkView { target: SinkTarget::SystemDefault, device_volume: GAIN_UNIT as int },
        ],
        !plan.local_only && plan.virtual_attempt == Some(true) && plan.output_attempt == Some(true)
            ==> plan.sinks() == seq![
            SinkView { target: SinkTarget::Virtual, device_volume: plan.virtual_volume },
            SinkView { target: SinkTarget::Output, device_volume: plan.output_volume },
        ],
{
    if plan.default_attempt == Some(true) {
        assert(plan.sinks() =~= seq![
            SinkView { target: SinkTarget::SystemDefault, device_volume: GAIN_UNIT as int },
        ]);
    }
    if !plan.local_only && plan.virtual_attempt == Some(true) && plan.output_attempt == Some(true) {
        assert(plan.sinks() =~= seq![
            SinkView { target: SinkTarget::Virtual, device_volume: plan.virtual_volume },
            SinkView { target: SinkTarget::Output, device_volume: plan.output_volume },
        ]);
    }
}

/// The steps by which the sinks of one sound are opened.
pub struct SinkPlan {
    local_only: bool,
    virtual_configured: bool,
    output_configured: bool,
    virtual_volume: Gain,
    output_volume: Gain,
    virtual_attempt: Option<bool>,
    output_attempt: Option<bool>,
    default_attempt: Option<bool>,
}

impl SinkPlan {
    /// The plan as a plain value.
    pub closed spec fn view(&self) -> PlanView {
        PlanView {
            local_only: self.local_only,
            virtual_configured: self.virtual_configured,
            output_configured: self.output_configured,
            virtual_volume: self.virtual_volume@,
            output_volume: self.output_volume@,
            virtual_attempt: self.virtual_attempt,
            output_attempt: self.output_attempt,
            default_attempt: self.default_attempt,
        }
    }

    /// A plan is always reachable and its gains lie between zero and one.
    #[verifier::type_invariant]
    pub closed spec fn wf(&self) -> bool {
        &&& self.virtual_volume.wf()
        &&& self.output_volume.wf()
        &&& self@.reachable()
    }

    /// Starts the plan for one sound from the selection and the gains of the
    /// catalog as they stand now.
    pub fn setup_devices_for_playback(manager: &AudioManager, local_only: bool) -> (plan: SinkPlan)
        ensures
            plan.wf(),
            plan@ == PlanView::initial(manager@, local_only),
    {
        SinkPlan {
            local_only,
            virtual_configured: manager.get_virtual_device().is_some(),
            output_configured: manager.get_output_device().is_some(),
            virtual_volume: manager.get_virtual_volume(),
            output_volume: manager.get_output_volume(),
            virtual_attempt: None,
            output_attempt: None,
            default_attempt: None,
        }
    }

    /// The device whose stream must be opened next; `None` when nothing is
    /// left to try.
    pub fn next_target(&self) -> (target: Option<SinkTarget>)
        ensures
            target == self@.next_target(),
    {
        if self.local_only {
            if self.default_attempt.is_none() {
                Some(SinkTarget::SystemDefault)
            } else {
                None
            }
        } else if self.virtual_configured && self.virtual_attempt.is_none() {
            Some(SinkTarget::Virtual)
        } else if self.output_configured && self.output_attempt.is_none() {
            Some(SinkTarget::Output)
        } else if !Self::succeeded(self.virtual_attempt) && !Self::succeeded(self.output_attempt)
            && self.default_attempt.is_none() {
            Some(SinkTarget::SystemDefault)
        } else {
            None
        }
    }

    /// Whether an attempt was made and gave a sink.
    fn succeeded(attempt: Option<bool>) -> (yes: bool)
        ensures
            yes == (attempt == Some(true)),
    {
        match attempt {
            Some(opened) => opened,
            None => false,
        }
    }

    /// Takes note of whether the stream of the device that was due could be
    /// opened. A failure on one device does not touch the others. On a
    /// complete plan nothing changes.
    pub fn try_add_device_stream(&mut self, opened: bool)
        ensures
            final(self).wf(),
            final(self)@ == old(self)@.record(opened),
    {
        proof {
            use_type_invariant(&*self);
        }
        match self.next_target() {
            Some(SinkTarget::Virtual) => {
                self.virtual_attempt = Some(opened);
            },
            Some(SinkTarget::Output) => {
                self.output_attempt = Some(opened);
            },
            Some(SinkTarget::SystemDefault) => {
                self.default_attempt = Some(opened);
            },
            None => {},
        }
    }

    /// The sinks that were opened, in the order in which they were tried,
    /// each with the gain of its device: the virtual gain, the output gain,
    /// or one for the system default.
    pub fn sinks(&self) -> (sinks: Vec<Sink>)
        ensures
            sinks@.map_values(|s: Sink| s@) == self@.sinks(),
            forall|i: int| 0 <= i < sinks.len() ==> (#[trigger] sinks[i]).wf(),
    {
        proof {
            use_type_invariant(self);
        }
        let mut sinks: Vec<Sink> = Vec::new();
        if Self::succeeded(self.virtual_attempt) {
            sinks.push(Sink { target: SinkTarget::Virtual, device_volume: self.virtual_volume });
        }
        if Self::succeeded(self.output_attempt) {
            sinks.push(Sink { target: SinkTarget::Output, device_volume: self.output_volume });
        }
        if Self::succeeded(self.default_attempt) {
            sinks.push(Sink { target: SinkTarget::SystemDefault, device_volume: Gain::full() });
        }
        assert(sinks@.map_values(|s: Sink| s@) =~= self@.sinks());
        sinks
    }
}

/// One playing sound as a plain value.
pub struct InstanceView {
    pub sound_id: Seq<char>,
    pub sinks: Seq<SinkView>,
    pub sound_volume: int,
    pub started_at: u64,
    pub duration: Option<u64>,
    pub start_position: u64,
}

/// The gain that sink `i` of `count` has after the device gains were
/// re-read: of two or more sinks the first follows the virtual gain and the
/// second the output gain; a single sink follows the output gain.
pub open spec fn spec_updated_gain(
    i: int,
    count: int,
    current: int,
    virtual_volume: int,
    output_volume: int,
) -> int {
    if i == 0 && count > 1 {
        virtual_volume
    } else if i == 1 || count == 1 {
        output_volume
    } else {
        current
    }
}

/// Whether sink `i` is reported to have an empty queue.
pub open spec fn spec_drained(queue_empty: Seq<bool>, i: int) -> bool {
    0 <= i < queue_empty.len() && queue_empty[i]
}

impl InstanceView {
    /// The composed volume of sink `i`, in million-millionths.
    pub open spec fn sink_volume(self, i: int) -> int {
        self.sinks[i].device_volume * self.sound_volume
    }

    /// The composed volume of every sink, in order.
    pub open spec fn sink_volumes(self) -> Seq<int> {
        Seq::new(self.sinks.len(), |i: int| self.sink_volume(i))
    }

    /// The same sound with another gain of its own.
    pub open spec fn with_sound_volume(self, sound_volume: int) -> InstanceView {
        InstanceView { sound_volume, ..self }
    }

    /// The same sound after the device gains were re-read.
    pub open spec fn with_device_volumes(self, virtual_volume: int, output_volume: int) -> InstanceView {
        InstanceView {
            sinks: Seq::new(
                self.sinks.len(),
                |i: int|
                    SinkView {
                        target: self.sinks[i].target,
                        device_volume: spec_updated_gain(
                            i,
                            self.sinks.len() as int,
                            self.sinks[i].device_volume,
                            virtual_volume,
                            output_volume,
                        ),
                    },
            ),
            ..self
        }
    }

    /// Whether every sink has played all that was queued on it, going by
    /// `queue_empty`, which holds one flag per sink. A sink without a flag
    /// counts as still playing.
    pub open spec fn is_finished(self, queue_empty: Seq<bool>) -> bool {
        forall|i: int| 0 <= i < self.sinks.len() ==> #[trigger] spec_drained(queue_empty, i)
    }

    /// The time since the sound was started, in microseconds.
    pub open spec fn elapsed(self, now: u64) -> u64 {
        if now >= self.started_at {
            (now - self.started_at) as u64
        } else {
            0
        }
    }

    /// The position of the sound at `now`: its start position plus the time
    /// since it was started, as long as that time is shorter than the known
    /// duration. A sound of unknown or zero duration always has a position.
    pub open spec fn position(self, now: u64) -> Option<u64> {
        if self.duration is None || self.duration == Some(0u64) || self.elapsed(now)
            < self.duration->0 {
            Some(
                if self.start_position + self.elapsed(now) > u64::MAX {
                    u64::MAX
                } else {
                    (self.start_position + self.elapsed(now)) as u64
                },
            )
        } else {
            None
        }
    }

    /// Every gain of the sound lies between zero and one.
    pub open spec fn gains_in_range(self) -> bool {
        &&& 0 <= self.sound_volume <= GAIN_UNIT
        &&& forall|i: int|
            0 <= i < self.sinks.len() ==> 0 <= (#[trigger] self.sinks[i]).device_volume <= GAIN_UNIT
    }
}

/// The composed volume of every sink of a sound lies between zero and one.
pub proof fn lemma_sink_volume_in_range(instance: InstanceView, i: int)
    requires
        instance.gains_in_range(),
        0 <= i < instance.sinks.len(),
    ensures
        0 <= instance.sink_volume(i) <= crate::gain::VOLUME_UNIT,
{
    let d = instance.sinks[i].device_volume;
    let s = instance.sound_volume;
    assert(0 <= d * s <= 1_000_000 * 1_000_000) by (nonlinear_arith)
        requires
            0 <= d <= 1_000_000,
            0 <= s <= 1_000_000,
    ;
}

/// After the device gains were re-read, the first of two sinks has the
/// virtual gain and the second the output gain, while a single sink has the
/// output gain. The devices of the sinks and the sound's own gain stay.
pub proof fn lemma_sinks_follow_device_gains(instance: InstanceView, virtual_volume: int, output_volume: int)
    ensures
        instance.with_device_volumes(virtual_volume, output_volume).sinks.len()
            == instance.sinks.len(),
        instance.with_device_volumes(virtual_volume, output_volume).sound_volume
            == instance.sound_volume,
        instance.sinks.len() == 2 ==> instance.with_device_volumes(
            virtual_volume,
            output_volume,
        ).sinks[0].device_volume == virtual_volume && instance.with_device_volumes(
            virtual_volume,
            output_volume,
        ).sinks[1].device_volume == output_volume,
        instance.sinks.len() == 1 ==> instance.with_device_volumes(
            virtual_volume,
            output_volume,
        ).sinks[0].device_volume == output_volume,
        forall|i: int|
            0 <= i < instance.sinks.len() ==> (#[trigger] instance.with_device_volumes(
                virtual_volume,
                output_volume,
            ).sinks[i]).target == instance.sinks[i].target,
{
}

/// The live state of one sound.
pub struct SoundInstance {
    sound_id: String,
    sinks: Vec<Sink>,
    sound_volume: Gain,
    started_at: u64,
    duration: Option<u64>,
    start_position: u64,
}

impl SoundInstance {
    /// The sound as a plain value.
    pub closed spec fn view(&self) -> InstanceView {
        InstanceView {
            sound_id: self.sound_id@,
            sinks: self.sinks@.map_values(|s: Sink| s@),
            sound_volume: self.sound_volume@,
            started_at: self.started_at,
            duration: self.duration,
            start_position: self.start_position,
        }
    }

    /// Every gain of a sound lies between zero and one.
    #[verifier::type_invariant]
    pub closed spec fn wf(&self) -> bool {
        &&& self.sound_volume.wf()
        &&& forall|i: int| 0 <= i < self.sinks.len() ==> (#[trigger] self.sinks[i]).wf()
    }

    /// In a well-formed sound every gain lies between zero and one.
    pub proof fn lemma_gains_in_range(instance: SoundInstance)
        requires
            instance.wf(),
        ensures
            instance@.gains_in_range(),
    {
        Gain::lemma_bounded(instance.sound_volume);
        assert forall|i: int| 0 <= i < instance@.sinks.len() implies 0 <= (
        #[trigger] instance@.sinks[i]).device_volume <= GAIN_UNIT by {
            assert(instance.sinks[i].wf());
            Gain::lemma_bounded(instance.sinks[i].device_volume);
        }
    }

    /// A sound that starts to play at `started_at` on the given sinks.
    pub fn new(
        sound_id: String,
        sinks: Vec<Sink>,
        sound_volume: Gain,
        started_at: u64,
        duration: Option<u64>,
        start_position: u64,
    ) -> (instance: SoundInstance)
        requires
            forall|i: int| 0 <= i < sinks.len() ==> (#[trigger] sinks[i]).wf(),
        ensures
            instance.wf(),
            instance@ == (InstanceView {
                sound_id: sound_id@,
                sinks: sinks@.map_values(|s: Sink| s@),
                sound_volume: sound_volume@,
                started_at,
                duration,
                start_position,
            }),
    {
        proof {
            use_type_invariant(sound_volume);
        }
        SoundInstance { sound_id, sinks, sound_volume, started_at, duration, start_position }
    }

    /// The id of the sound.
    pub fn sound_id(&self) -> (id: &String)
        ensures
            id@ == self@.sound_id,
    {
        &self.sound_id
    }

    /// The number of sinks.
    pub fn sink_count(&self) -> (n: usize)
        ensures
            n == self@.sinks.len(),
    {
        self.sinks.len()
    }

    /// The sound's own gain.
    pub fn sound_volume(&self) -> (g: Gain)
        ensures
            g.wf(),
            g@ == self@.sound_volume,
    {
        proof {
            use_type_invariant(self);
        }
        self.sound_volume
    }

    /// The volume to apply to each sink, in order: the gain of the sink's
    /// device composed with the sound's own gain.
    pub fn apply_volume_updates(&self) -> (volumes: Vec<Volume>)
        ensures
            volumes@.map_values(|v: Volume| v@) == self@.sink_volumes(),
            forall|i: int| 0 <= i < volumes.len() ==> (#[trigger] volumes[i]).wf(),
    {
        proof {
            use_type_invariant(self);
        }
        let mut volumes: Vec<Volume> = Vec::new();
        let mut i: usize = 0;
        while i < self.sinks.len()
            invariant
                i <= self.sinks.len(),
                volumes.len() == i,
                self.wf(),
                forall|k: int| 0 <= k < i ==> (#[trigger] volumes[k]).wf(),
                forall|k: int| 0 <= k < i ==> (#[trigger] volumes[k])@ == self@.sink_volume(k),
            decreases self.sinks.len() - i,
        {
            let sink = self.sinks[i];
            let volume = combine_volume(sink.device_volume, self.sound_volume);
            volumes.push(volume);
            i = i + 1;
        }
        assert(volumes@.map_values(|v: Volume| v@) =~= self@.sink_volumes());
        volumes
    }

    /// Stores a new gain for the sound. The volume of every sink follows.
    pub fn update_sound_volume(&mut self, new_volume: Gain)
        ensures
            final(self).wf(),
            final(self)@ == old(self)@.with_sound_volume(new_volume@),
    {
        proof {
            use_type_invariant(&*self);
            use_type_invariant(new_volume);
        }
        self.sound_volume = new_volume;
    }

    /// Re-reads the device gains: of two or more sinks the first follows the
    /// virtual gain and the second the output gain; a single sink follows
    /// the output gain.
    pub fn update_device_volumes(&mut self, virtual_volume: Gain, output_volume: Gain)
        ensures
            final(self).wf(),
            final(self)@ == old(self)@.with_device_volumes(virtual_volume@, output_volume@),
    {
        proof {
            use_type_invariant(&*self);
            use_type_invariant(virtual_volume);
            use_type_invariant(output_volume);
        }
        let device_count: usize = self.sinks.len();
        let mut updated: Vec<Sink> = Vec::new();
        let mut i: usize = 0;
        while i < device_count
            invariant
                i <= device_count,
                device_count == self.sinks.len(),
                updated.len() == i,
                self.wf(),
                virtual_volume.wf(),
                output_volume.wf(),
                forall|k: int| 0 <= k < i ==> (#[trigger] updated[k]).wf(),
                forall|k: int|
                    0 <= k < i ==> (#[trigger] updated[k])@ == (SinkView {
                        target: self.sinks[k]@.target,
                        device_volume: spec_updated_gain(
                            k,
                            device_count as int,
                            self.sinks[k]@.device_volume,
                            virtual_volume@,
                            output_volume@,
                        ),
                    }),
            decreases device_count - i,
        {
            let sink = self.sinks[i];
            let device_volume = if i == 0 && device_count > 1 {
                virtual_volume
            } else if i == 1 || device_count == 1 {
                output_volume
            } else {
                sink.device_volume
            };
            updated.push(Sink { target: sink.target, device_volume });
            i = i + 1;
        }
        assert(updated@.map_values(|s: Sink| s@) =~= old(self)@.with_device_volumes(
            virtual_volume@,
            output_volume@,
        ).sinks);
        self.sinks = updated;
    }

    /// Whether the sound has played out: every sink has an empty queue,
    /// going by `queue_empty`, which holds one flag per sink in order.
    pub fn is_finished(&self, queue_empty: &Vec<bool>) -> (finished: bool)
        ensures
            finished == self@.is_finished(queue_empty@),
    {
        let mut i: usize = 0;
        while i < self.sinks.len()
            invariant
                i <= self.sinks.len(),
                self@.sinks.len() == self.sinks.len(),
                forall|k: int| 0 <= k < i ==> #[trigger] spec_drained(queue_empty@, k),
            decreases self.sinks.len() - i,
        {
            if i >= queue_empty.len() || !queue_empty[i] {
                assert(!spec_drained(queue_empty@, i as int));
                return false;
            }
            i = i + 1;
        }
        true
    }

    /// The position of the sound at `now`, in microseconds.
    pub fn position(&self, now: u64) -> (position: Option<u64>)
        ensures
            position == self@.position(now),
    {
        let elapsed: u64 = if now >= self.started_at {
            now - self.started_at
        } else {
            0
        };
        let playing = match self.duration {
            None => true,
            Some(d) => d == 0 || elapsed < d,
        };
        if playing {
            if elapsed > u64::MAX - self.start_position {
                Some(u64::MAX)
            } else {
                Some(self.start_position + elapsed)
            }
        } else {
            None
        }
    }
}

} // verus!
