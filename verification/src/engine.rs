//! The playback engine: the table of playing sounds and what each command
//! does to it.
//!
//! The engine holds no device and reads no file. It is told what the host
//! could open, and it says which sounds the host must stop. One worker calls
//! it for one command at a time.

use vstd::prelude::*;
use vstd::string::StringExecFns;
use crate::error::AudioError;
use crate::gain::{Gain, Volume};
use crate::instance::{InstanceView, PlanView, SinkPlan, SinkView, SoundInstance};
use crate::manager::{AudioManager, ManagerView};
use crate::table::{distinct_by, lemma_filter_keeps_distinct};
use crate::text::str_equal;

verus! {

/// A command to the engine.
#[derive(Clone, Debug)]
pub enum AudioCommand {
    Play {
        file_path: String,
        sound_id: String,
        start_position: Option<u64>,
        sound_volume: Gain,
        local_only: bool,
    },
    Stop { sound_id: String },
    StopAll,
    UpdateSoundVolume { sound_id: String, sound_volume: Gain },
    UpdateDeviceVolumes,
    Shutdown,
}

/// A command as a plain value.
pub enum CommandView {
    Play {
        file_path: Seq<char>,
        sound_id: Seq<char>,
        start_position: Option<u64>,
        sound_volume: int,
        local_only: bool,
    },
    Stop { sound_id: Seq<char> },
    StopAll,
    UpdateSoundVolume { sound_id: Seq<char>, sound_volume: int },
    UpdateDeviceVolumes,
    Shutdown,
}

impl AudioCommand {
    /// The command as a plain value.
    pub open spec fn view(&self) -> CommandView {
        match *self {
            AudioCommand::Play { file_path, sound_id, start_position, sound_volume, local_only } => {
                CommandView::Play {
                    file_path: file_path@,
                    sound_id: sound_id@,
                    start_position,
                    sound_volume: sound_volume@,
                    local_only,
                }
            },
            AudioCommand::Stop { sound_id } => CommandView::Stop { sound_id: sound_id@ },
            AudioCommand::StopAll => CommandView::StopAll,
            AudioCommand::UpdateSoundVolume { sound_id, sound_volume } => {
                CommandView::UpdateSoundVolume { sound_id: sound_id@, sound_volume: sound_volume@ }
            },
            AudioCommand::UpdateDeviceVolumes => CommandView::UpdateDeviceVolumes,
            AudioCommand::Shutdown => CommandView::Shutdown,
        }
    }
}

/// What the host found when it looked at the sinks of one sound.
#[derive(Clone, Debug)]
pub struct SinkReport {
    pub sound_id: String,
    pub queue_empty: Vec<bool>,
}

/// A report as a plain value.
pub struct ReportView {
    pub sound_id: Seq<char>,
    pub queue_empty: Seq<bool>,
}

impl SinkReport {
    /// The report as a plain value.
    pub open spec fn view(&self) -> ReportView {
        ReportView { sound_id: self.sound_id@, queue_empty: self.queue_empty@ }
    }
}

/// The reports as plain values.
pub open spec fn reports_view(reports: Seq<SinkReport>) -> Seq<ReportView> {
    reports.map_values(|r: SinkReport| r@)
}

/// The flags of the first report on the sound `id`.
pub open spec fn spec_report_for(reports: Seq<ReportView>, id: Seq<char>) -> Option<Seq<bool>>
    decreases reports.len(),
{
    if reports.len() == 0 {
        None
    } else if reports[0].sound_id == id {
        Some(reports[0].queue_empty)
    } else {
        spec_report_for(reports.drop_first(), id)
    }
}

/// The first sound with the id `id`.
pub open spec fn spec_find(instances: Seq<InstanceView>, id: Seq<char>) -> Option<InstanceView>
    decreases instances.len(),
{
    if instances.len() == 0 {
        None
    } else if instances[0].sound_id == id {
        Some(instances[0])
    } else {
        spec_find(instances.drop_first(), id)
    }
}

/// Holds of every sound but the one with the id `id`.
pub open spec fn other_than(id: Seq<char>) -> spec_fn(InstanceView) -> bool {
    |instance: InstanceView| instance.sound_id != id
}

/// Holds of the sound with the id `id`.
pub open spec fn named(id: Seq<char>) -> spec_fn(InstanceView) -> bool {
    |instance: InstanceView| instance.sound_id == id
}

/// Whether the reports say that the sound has played out on every sink. A
/// sound without a report counts as still playing.
pub open spec fn spec_finished(reports: Seq<ReportView>, instance: InstanceView) -> bool {
    match spec_report_for(reports, instance.sound_id) {
        Some(queue_empty) => instance.is_finished(queue_empty),
        None => false,
    }
}

/// Holds of the sounds that have played out.
pub open spec fn finished_in(reports: Seq<ReportView>) -> spec_fn(InstanceView) -> bool {
    |instance: InstanceView| spec_finished(reports, instance)
}

/// Holds of the sounds that have not played out.
pub open spec fn unfinished_in(reports: Seq<ReportView>) -> spec_fn(InstanceView) -> bool {
    |instance: InstanceView| !spec_finished(reports, instance)
}

/// The ids of the sounds, in order.
pub open spec fn spec_ids(instances: Seq<InstanceView>) -> Seq<Seq<char>> {
    instances.map_values(|instance: InstanceView| instance.sound_id)
}

/// The characters of every string, in order.
pub open spec fn strings_view(strings: Seq<String>) -> Seq<Seq<char>> {
    strings.map_values(|s: String| s@)
}

/// No two sounds bear the same id.
pub open spec fn unique_ids(instances: Seq<InstanceView>) -> bool {
    forall|i: int, j: int|
        0 <= i < j < instances.len() ==> (#[trigger] instances[i]).sound_id != (
        #[trigger] instances[j]).sound_id
}

/// The table after the sound `sound_id` was given another gain of its own.
pub open spec fn spec_retuned(
    instances: Seq<InstanceView>,
    sound_id: Seq<char>,
    sound_volume: int,
) -> Seq<InstanceView> {
    instances.map_values(
        |instance: InstanceView|
            if instance.sound_id == sound_id {
                instance.with_sound_volume(sound_volume)
            } else {
                instance
            },
    )
}

/// The engine as a plain value.
pub struct EngineView {
    pub instances: Seq<InstanceView>,
    pub running: bool,
}

impl EngineView {
    /// No two sounds bear the same id, and an engine that has shut down
    /// holds no sound.
    pub open spec fn wf(self) -> bool {
        &&& unique_ids(self.instances)
        &&& !self.running ==> self.instances.len() == 0
    }

    /// Whether a sound with this id is playing.
    pub open spec fn contains(self, id: Seq<char>) -> bool {
        exists|i: int| 0 <= i < self.instances.len() && (#[trigger] self.instances[i]).sound_id == id
    }

    /// The engine after a command. A command to an engine that has shut down
    /// changes nothing. `Play` only makes room: the sound itself is added
    /// once the host has opened its sinks and its decoder.
    pub open spec fn after_command(self, cmd: CommandView, manager: ManagerView) -> EngineView {
        if !self.running {
            self
        } else {
            match cmd {
                CommandView::Play { sound_id, .. } => EngineView {
                    instances: self.instances.filter(other_than(sound_id)),
                    ..self
                },
                CommandView::Stop { sound_id } => EngineView {
                    instances: self.instances.filter(other_than(sound_id)),
                    ..self
                },
                CommandView::StopAll => EngineView { instances: Seq::empty(), ..self },
                CommandView::UpdateSoundVolume { sound_id, sound_volume } => EngineView {
                    instances: spec_retuned(self.instances, sound_id, sound_volume),
                    ..self
                },
                CommandView::UpdateDeviceVolumes => EngineView {
                    instances: self.instances.map_values(
                        |instance: InstanceView|
                            instance.with_device_volumes(
                                manager.virtual_volume,
                                manager.output_volume,
                            ),
                    ),
                    ..self
                },
                CommandView::Shutdown => EngineView { instances: Seq::empty(), running: false },
            }
        }
    }

    /// The ids of the sounds that a command takes out of the table, in the
    /// order of the table.
    pub open spec fn stopped_by(self, cmd: CommandView) -> Seq<Seq<char>> {
        if !self.running {
            Seq::empty()
        } else {
            match cmd {
                CommandView::Play { sound_id, .. } => spec_ids(self.instances.filter(named(sound_id))),
                CommandView::Stop { sound_id } => spec_ids(self.instances.filter(named(sound_id))),
                CommandView::StopAll => spec_ids(self.instances),
                CommandView::Shutdown => spec_ids(self.instances),
                _ => Seq::empty(),
            }
        }
    }

    /// The engine after the host has carried out a `Play`: any sound of the
    /// same id is gone, and if the decoder could be opened the new sound
    /// stands at the end of the table.
    pub open spec fn after_play(
        self,
        sound_id: Seq<char>,
        start_position: Option<u64>,
        sound_volume: int,
        sinks: Seq<SinkView>,
        decoder: Result<Option<u64>, AudioError>,
        now: u64,
    ) -> EngineView {
        if !self.running {
            self
        } else {
            let others = self.instances.filter(other_than(sound_id));
            match decoder {
                Ok(duration) => EngineView {
                    instances: others.push(
                        InstanceView {
                            sound_id,
                            sinks,
                            sound_volume,
                            started_at: now,
                            duration,
                            start_position: match start_position {
                                Some(p) => p,
                                None => 0,
                            },
                        },
                    ),
                    ..self
                },
                Err(_) => EngineView { instances: others, ..self },
            }
        }
    }

    /// The engine after a sweep: the sounds that have played out are gone.
    pub open spec fn after_cleanup(self, reports: Seq<ReportView>) -> EngineView {
        EngineView { instances: self.instances.filter(unfinished_in(reports)), ..self }
    }

    /// The position of the sound `id` at `now`, if it is playing.
    pub open spec fn position(self, id: Seq<char>, now: u64) -> Option<u64> {
        match spec_find(self.instances, id) {
            Some(instance) => instance.position(now),
            None => None,
        }
    }
}

/// What holds of a filtered table: it keeps the order, and with it the
/// uniqueness of the ids.
pub proof fn lemma_filter_keeps_unique(instances: Seq<InstanceView>, keep: spec_fn(InstanceView) -> bool)
    requires
        unique_ids(instances),
    ensures
        unique_ids(instances.filter(keep)),
        forall|k: int|
            0 <= k < instances.filter(keep).len() ==> instances.contains(
                #[trigger] instances.filter(keep)[k],
            ) && keep(instances.filter(keep)[k]),
{
    let id_of = |instance: InstanceView| instance.sound_id;
    assert(distinct_by(instances, id_of));
    lemma_filter_keeps_distinct(instances, id_of, keep);
    let kept = instances.filter(keep);
    assert forall|i: int, j: int| 0 <= i < j < kept.len() implies (#[trigger] kept[i]).sound_id != (
    #[trigger] kept[j]).sound_id by {
        assert(id_of(kept[i]) != id_of(kept[j]));
    }
}

/// A table without the sound `id` loses nothing when that sound is taken
/// out.
pub proof fn lemma_filter_absent(instances: Seq<InstanceView>, id: Seq<char>)
    requires
        forall|i: int| 0 <= i < instances.len() ==> (#[trigger] instances[i]).sound_id != id,
    ensures
        instances.filter(other_than(id)) == instances,
        instances.filter(named(id)) == Seq::<InstanceView>::empty(),
    decreases instances.len(),
{
    reveal(Seq::filter);
    if instances.len() > 0 {
        let front = instances.drop_last();
        assert forall|i: int| 0 <= i < front.len() implies (#[trigger] front[i]).sound_id != id by {
            assert(front[i] == instances[i]);
        }
        lemma_filter_absent(front, id);
        assert(instances[instances.len() - 1].sound_id != id);
        assert(front.push(instances.last()) =~= instances);
    }
}

/// After the sound `id` was taken out, no sound of the table bears that id.
pub proof fn lemma_filter_removes(instances: Seq<InstanceView>, id: Seq<char>)
    ensures
        forall|i: int|
            0 <= i < instances.filter(other_than(id)).len() ==> (#[trigger] instances.filter(
                other_than(id),
            )[i]).sound_id != id,
    decreases instances.len(),
{
    reveal(Seq::filter);
    if instances.len() > 0 {
        lemma_filter_removes(instances.drop_last(), id);
    }
}

/// Whatever the engine is told, and whatever the host reports, no two sounds
/// of the table ever bear the same id.
pub proof fn lemma_ids_stay_unique(
    engine: EngineView,
    cmd: CommandView,
    manager: ManagerView,
    sound_id: Seq<char>,
    start_position: Option<u64>,
    sound_volume: int,
    sinks: Seq<SinkView>,
    decoder: Result<Option<u64>, AudioError>,
    now: u64,
    reports: Seq<ReportView>,
)
    requires
        engine.wf(),
    ensures
        engine.after_command(cmd, manager).wf(),
        engine.after_play(sound_id, start_position, sound_volume, sinks, decoder, now).wf(),
        engine.after_cleanup(reports).wf(),
{
    reveal(Seq::filter);
    match cmd {
        CommandView::Play { sound_id, .. } => {
            lemma_filter_keeps_unique(engine.instances, other_than(sound_id));
        },
        CommandView::Stop { sound_id } => {
            lemma_filter_keeps_unique(engine.instances, other_than(sound_id));
        },
        _ => {},
    }
    lemma_filter_keeps_unique(engine.instances, other_than(sound_id));
    lemma_filter_removes(engine.instances, sound_id);
    lemma_filter_keeps_unique(engine.instances, unfinished_in(reports));
}

/// Stopping a sound that is not playing changes nothing and stops nothing.
pub proof fn lemma_stop_absent_changes_nothing(engine: EngineView, sound_id: Seq<char>, manager: ManagerView)
    requires
        !engine.contains(sound_id),
    ensures
        engine.after_command(CommandView::Stop { sound_id }, manager) == engine,
        engine.stopped_by(CommandView::Stop { sound_id }) == Seq::<Seq<char>>::empty(),
{
    lemma_filter_absent(engine.instances, sound_id);
    assert(spec_ids(Seq::<InstanceView>::empty()) =~= Seq::<Seq<char>>::empty());
}

/// A second shutdown changes nothing and stops nothing, and neither does any
/// other command that follows a shutdown.
pub proof fn lemma_shutdown_is_final(engine: EngineView, later: CommandView, manager: ManagerView)
    requires
        engine.wf(),
    ensures
        engine.after_command(CommandView::Shutdown, manager).after_command(later, manager)
            == engine.after_command(CommandView::Shutdown, manager),
        engine.after_command(CommandView::Shutdown, manager).stopped_by(later) == Seq::<
            Seq<char>,
        >::empty(),
        !engine.after_command(CommandView::Shutdown, manager).running,
        engine.after_command(CommandView::Shutdown, manager).instances.len() == 0,
{
}

/// On a running engine a `Play` that is followed by a `Stop` of the same
/// sound leaves no such sound in the table.
pub proof fn lemma_play_then_stop(
    engine: EngineView,
    sound_id: Seq<char>,
    start_position: Option<u64>,
    sound_volume: int,
    sinks: Seq<SinkView>,
    decoder: Result<Option<u64>, AudioError>,
    now: u64,
    manager: ManagerView,
)
    requires
        engine.running,
    ensures
        !engine.after_play(sound_id, start_position, sound_volume, sinks, decoder, now).after_command(
            CommandView::Stop { sound_id },
            manager,
        ).contains(sound_id),
{
    let played = engine.after_play(sound_id, start_position, sound_volume, sinks, decoder, now);
    lemma_filter_removes(played.instances, sound_id);
}

/// A sound that stands at the end of a table without another of its id is
/// the one that a search for the id finds.
pub proof fn lemma_find_after_push(others: Seq<InstanceView>, instance: InstanceView)
    requires
        forall|i: int| 0 <= i < others.len() ==> (#[trigger] others[i]).sound_id != instance.sound_id,
    ensures
        spec_find(others.push(instance), instance.sound_id) == Some(instance),
    decreases others.len(),
{
    let all = others.push(instance);
    if others.len() == 0 {
        assert(all[0] == instance);
        assert(all.drop_first() =~= Seq::<InstanceView>::empty());
    } else {
        assert(all[0] == others[0]);
        assert(others[0].sound_id != instance.sound_id);
        let rest = others.drop_first();
        assert forall|i: int| 0 <= i < rest.len() implies (#[trigger] rest[i]).sound_id
            != instance.sound_id by {
            assert(rest[i] == others[i + 1]);
        }
        lemma_find_after_push(rest, instance);
        assert(all.drop_first() =~= rest.push(instance));
    }
}

/// A sound that was started at `now` stands at its start position at that
/// time, and `later` microseconds on it stands that much further, as long as
/// `later` is less than its duration or the duration is unknown or zero.
pub proof fn lemma_started_sound_has_position(
    engine: EngineView,
    sound_id: Seq<char>,
    start_position: Option<u64>,
    sound_volume: int,
    sinks: Seq<SinkView>,
    duration: Option<u64>,
    now: u64,
    later: u64,
)
    requires
        engine.running,
        now + later <= u64::MAX,
        (match start_position {
            Some(p) => p,
            None => 0,
        }) + later <= u64::MAX,
        duration is None || duration == Some(0u64) || later < duration->0,
    ensures
        engine.after_play(
            sound_id,
            start_position,
            sound_volume,
            sinks,
            Ok(duration),
            now,
        ).position(sound_id, (now + later) as u64) == Some(
            ((match start_position {
                Some(p) => p,
                None => 0,
            }) + later) as u64,
        ),
{
    let others = engine.instances.filter(other_than(sound_id));
    lemma_filter_removes(engine.instances, sound_id);
    let instance = InstanceView {
        sound_id,
        sinks,
        sound_volume,
        started_at: now,
        duration,
        start_position: match start_position {
            Some(p) => p,
            None => 0,
        },
    };
    lemma_find_after_push(others, instance);
}

/// A `Play` whose decoder could not be opened leaves no sound of that id,
/// and with it no position.
pub proof fn lemma_failed_play_leaves_no_sound(
    engine: EngineView,
    sound_id: Seq<char>,
    start_position: Option<u64>,
    sound_volume: int,
    sinks: Seq<SinkView>,
    error: AudioError,
    now: u64,
    at: u64,
)
    requires
        engine.wf(),
    ensures
        !engine.after_play(sound_id, start_position, sound_volume, sinks, Err(error), now).contains(
            sound_id,
        ),
        engine.after_play(sound_id, start_position, sound_volume, sinks, Err(error), now).position(
            sound_id,
            at,
        ) is None,
{
    let after = engine.after_play(sound_id, start_position, sound_volume, sinks, Err(error), now);
    if engine.running {
        lemma_filter_removes(engine.instances, sound_id);
    }
    lemma_find_absent(after.instances, sound_id);
}

/// A search for an id that no sound bears finds nothing.
pub proof fn lemma_find_absent(instances: Seq<InstanceView>, sound_id: Seq<char>)
    requires
        forall|i: int| 0 <= i < instances.len() ==> (#[trigger] instances[i]).sound_id != sound_id,
    ensures
        spec_find(instances, sound_id) is None,
    decreases instances.len(),
{
    if instances.len() > 0 {
        assert(instances[0].sound_id != sound_id);
        let rest = instances.drop_first();
        assert forall|i: int| 0 <= i < rest.len() implies (#[trigger] rest[i]).sound_id != sound_id by {
            assert(rest[i] == instances[i + 1]);
        }
        lemma_find_absent(rest, sound_id);
    }
}

/// After a sweep no sound is left that the reports show as played out, and
/// every sound that is left was there before.
pub proof fn lemma_sweep_leaves_only_unfinished(engine: EngineView, reports: Seq<ReportView>, k: int)
    requires
        engine.wf(),
        0 <= k < engine.after_cleanup(reports).instances.len(),
    ensures
        !spec_finished(reports, engine.after_cleanup(reports).instances[k]),
        engine.instances.contains(engine.after_cleanup(reports).instances[k]),
{
    lemma_filter_keeps_unique(engine.instances, unfinished_in(reports));
}

/// Starting a sound that already plays is the same as stopping it first
/// and starting it then: a seek is a stop and a play.
pub proof fn lemma_play_replaces_like_stop_then_play(
    engine: EngineView,
    sound_id: Seq<char>,
    start_position: Option<u64>,
    sound_volume: int,
    sinks: Seq<SinkView>,
    decoder: Result<Option<u64>, AudioError>,
    now: u64,
    manager: ManagerView,
)
    ensures
        engine.after_command(CommandView::Stop { sound_id }, manager).after_play(
            sound_id,
            start_position,
            sound_volume,
            sinks,
            decoder,
            now,
        ) == engine.after_play(sound_id, start_position, sound_volume, sinks, decoder, now),
{
    if engine.running {
        let others = engine.instances.filter(other_than(sound_id));
        lemma_filter_removes(engine.instances, sound_id);
        lemma_filter_absent(others, sound_id);
    }
}

/// What the host must do after a command.
pub struct CommandOutcome {
    /// Whether the engine took the command. It takes none once it has shut
    /// down: the sender must then treat the engine as gone.
    pub accepted: bool,
    /// The ids of the sounds that left the table, in the order of the table.
    /// The host stops their sinks and gives them up.
    pub stopped: Vec<String>,
    /// For a `Play` that was taken: the plan by which the host opens the
    /// sinks of the new sound.
    pub start: Option<SinkPlan>,
    /// Whether the worker must leave its loop.
    pub exit: bool,
}

/// The plan of an optional start as a plain value.
pub open spec fn start_view(start: Option<SinkPlan>) -> Option<PlanView> {
    match start {
        Some(plan) => Some(plan@),
        None => None,
    }
}

/// The plan that a command starts, if it starts one.
pub open spec fn spec_start(engine: EngineView, cmd: CommandView, manager: ManagerView) -> Option<
    PlanView,
> {
    match cmd {
        CommandView::Play { local_only, .. } => if engine.running {
            Some(PlanView::initial(manager, local_only))
        } else {
            None
        },
        _ => None,
    }
}

/// The playback engine: the sounds that play now, in the order in which
/// they were started.
pub struct AudioEngine {
    instances: Vec<SoundInstance>,
    running: bool,
}

impl AudioEngine {
    /// The engine as a plain value.
    pub closed spec fn view(&self) -> EngineView {
        EngineView {
            instances: self.instances@.map_values(|instance: SoundInstance| instance@),
            running: self.running,
        }
    }

    /// No two sounds of an engine bear the same id, an engine that has shut
    /// down holds no sound, and every gain lies between zero and one.
    #[verifier::type_invariant]
    pub closed spec fn wf(&self) -> bool {
        &&& self@.wf()
        &&& forall|i: int| 0 <= i < self.instances.len() ==> (#[trigger] self.instances[i]).wf()
    }

    /// The table of a well-formed engine is well-formed.
    pub proof fn lemma_view_wf(engine: AudioEngine)
        requires
            engine.wf(),
        ensures
            engine@.wf(),
            forall|i: int|
                0 <= i < engine@.instances.len() ==> (#[trigger] engine@.instances[i]).gains_in_range(),
    {
        assert forall|i: int| 0 <= i < engine@.instances.len() implies (
        #[trigger] engine@.instances[i]).gains_in_range() by {
            assert(engine.instances[i].wf());
            SoundInstance::lemma_gains_in_range(engine.instances[i]);
        }
    }

    /// A running engine without any sound.
    pub fn new() -> (engine: AudioEngine)
        ensures
            engine.wf(),
            engine@.running,
            engine@.instances.len() == 0,
    {
        AudioEngine { instances: Vec::new(), running: true }
    }

    /// Whether the engine still takes commands.
    pub fn is_running(&self) -> (running: bool)
        ensures
            running == self@.running,
    {
        self.running
    }

    /// Takes out of the table every sound whose flag is set, and returns
    /// their ids.
    fn remove_where(
        &mut self,
        flags: &Vec<bool>,
        Ghost(keep): Ghost<spec_fn(InstanceView) -> bool>,
        Ghost(drop): Ghost<spec_fn(InstanceView) -> bool>,
    ) -> (removed: Vec<String>)
        requires
            flags.len() == old(self)@.instances.len(),
            forall|i: int|
                0 <= i < flags.len() ==> flags[i] == drop(#[trigger] old(self)@.instances[i]),
            forall|x: InstanceView| #[trigger] keep(x) == !drop(x),
        ensures
            final(self).wf(),
            final(self)@.running == old(self)@.running,
            final(self)@.instances == old(self)@.instances.filter(keep),
            strings_view(removed@) == spec_ids(old(self)@.instances.filter(drop)),
    {
        proof {
            use_type_invariant(&*self);
        }
        let ghost before = self@.instances;
        let mut all: Vec<SoundInstance> = Vec::new();
        std::mem::swap(&mut self.instances, &mut all);
        let ghost view_of = |instance: SoundInstance| instance@;
        assert(all@.map_values(view_of) == before);
        let mut kept: Vec<SoundInstance> = Vec::new();
        let mut removed: Vec<String> = Vec::new();
        let mut n: usize = 0;
        proof {
            reveal(Seq::filter);
            assert(before.take(0).filter(keep) =~= Seq::<InstanceView>::empty());
            assert(before.take(0).filter(drop) =~= Seq::<InstanceView>::empty());
            assert(kept@.map_values(view_of) =~= Seq::<InstanceView>::empty());
            assert(strings_view(removed@) =~= spec_ids(Seq::<InstanceView>::empty()));
        }
        for instance in it: all
            invariant
                n == it.index(),
                it.seq().map_values(view_of) == before,
                it.seq().len() == flags.len(),
                view_of == (|instance: SoundInstance| instance@),
                forall|i: int| 0 <= i < it.seq().len() ==> (#[trigger] it.seq()[i]).wf(),
                forall|i: int| 0 <= i < flags.len() ==> flags[i] == drop(#[trigger] before[i]),
                forall|x: InstanceView| #[trigger] keep(x) == !drop(x),
                forall|i: int| 0 <= i < kept.len() ==> (#[trigger] kept[i]).wf(),
                kept@.map_values(view_of) == before.take(n as int).filter(keep),
                strings_view(removed@) == spec_ids(before.take(n as int).filter(drop)),
        {
            let ghost kept_before = kept@;
            let ghost removed_before = removed@;
            proof {
                assert(before.take(n + 1) =~= before.take(n as int).push(before[n as int]));
                before.take(n as int).lemma_filter_push(before[n as int], keep);
                before.take(n as int).lemma_filter_push(before[n as int], drop);
                assert(instance@ == before[n as int]);
                assert(it.seq()[n as int].wf());
            }
            if flags[n] {
                removed.push(instance.sound_id().clone());
                proof {
                    assert(strings_view(removed@) =~= strings_view(removed_before).push(
                        before[n as int].sound_id,
                    ));
                    assert(spec_ids(before.take(n as int).filter(drop).push(before[n as int]))
                        =~= spec_ids(before.take(n as int).filter(drop)).push(
                        before[n as int].sound_id,
                    ));
                }
            } else {
                kept.push(instance);
                proof {
                    assert(kept@.map_values(view_of) =~= kept_before.map_values(view_of).push(
                        before[n as int],
                    ));
                }
            }
            n = n + 1;
        }
        proof {
            assert(before.take(n as int) =~= before);
            lemma_filter_keeps_unique(before, keep);
        }
        self.instances = kept;
        removed
    }

    /// The position in the table of the sound `sound_id`.
    fn find(&self, sound_id: &str) -> (found: Option<usize>)
        ensures
            match found {
                Some(k) => k < self@.instances.len() && self@.instances[k as int].sound_id == sound_id@
                    && spec_find(self@.instances, sound_id@) == Some(self@.instances[k as int]),
                None => !self@.contains(sound_id@) && spec_find(self@.instances, sound_id@) is None,
            },
    {
        let mut k: usize = 0;
        assert(self@.instances.skip(0) =~= self@.instances);
        while k < self.instances.len()
            invariant
                k <= self.instances.len(),
                self@.instances.len() == self.instances.len(),
                forall|j: int| 0 <= j < k ==> (#[trigger] self@.instances[j]).sound_id != sound_id@,
                spec_find(self@.instances, sound_id@) == spec_find(
                    self@.instances.skip(k as int),
                    sound_id@,
                ),
            decreases self.instances.len() - k,
        {
            assert(self@.instances.skip(k as int).drop_first() =~= self@.instances.skip(k + 1));
            assert(self@.instances.skip(k as int)[0] == self@.instances[k as int]);
            assert(self@.instances[k as int] == self.instances[k as int]@);
            if str_equal(self.instances[k].sound_id().as_str(), sound_id) {
                return Some(k);
            }
            k = k + 1;
        }
        None
    }

    /// For each sound of the table, whether it bears the id `sound_id`.
    fn flags_for_id(&self, sound_id: &str) -> (flags: Vec<bool>)
        ensures
            flags.len() == self@.instances.len(),
            forall|i: int|
                0 <= i < flags.len() ==> flags[i] == named(sound_id@)(#[trigger] self@.instances[i]),
    {
        let mut flags: Vec<bool> = Vec::new();
        let mut k: usize = 0;
        while k < self.instances.len()
            invariant
                k <= self.instances.len(),
                flags.len() == k,
                self@.instances.len() == self.instances.len(),
                forall|i: int|
                    0 <= i < k ==> flags[i] == named(sound_id@)(#[trigger] self@.instances[i]),
            decreases self.instances.len() - k,
        {
            assert(self@.instances[k as int] == self.instances[k as int]@);
            flags.push(str_equal(self.instances[k].sound_id().as_str(), sound_id));
            k = k + 1;
        }
        flags
    }

    /// Takes the sound `sound_id` out of the table, if it is there.
    fn remove_sound(&mut self, sound_id: &str) -> (removed: Vec<String>)
        ensures
            final(self).wf(),
            final(self)@.running == old(self)@.running,
            final(self)@.instances == old(self)@.instances.filter(other_than(sound_id@)),
            strings_view(removed@) == spec_ids(old(self)@.instances.filter(named(sound_id@))),
    {
        let flags = self.flags_for_id(sound_id);
        self.remove_where(&flags, Ghost(other_than(sound_id@)), Ghost(named(sound_id@)))
    }

    /// Takes every sound out of the table.
    fn remove_all(&mut self) -> (removed: Vec<String>)
        ensures
            final(self).wf(),
            final(self)@.running == old(self)@.running,
            final(self)@.instances == Seq::<InstanceView>::empty(),
            strings_view(removed@) == spec_ids(old(self)@.instances),
    {
        proof {
            use_type_invariant(&*self);
        }
        let removed = self.get_playing_sounds();
        self.instances = Vec::new();
        assert(self@.instances =~= Seq::<InstanceView>::empty());
        removed
    }

    /// Carries out one command. `Play` takes a sound of the same id out of
    /// the table and hands back the plan for the new one; the host opens the
    /// sinks and the decoder and reports to `handle_play_command`. `Stop`
    /// takes out the named sound if it is there. `StopAll` empties the table.
    /// The two updates change the gains of the sounds in place. `Shutdown`
    /// empties the table and ends the engine: from then on no command is
    /// taken and nothing changes.
    pub fn handle_command(&mut self, cmd: &AudioCommand, manager: &AudioManager) -> (outcome:
        CommandOutcome)
        ensures
            final(self).wf(),
            final(self)@ == old(self)@.after_command(cmd@, manager@),
            outcome.accepted == old(self)@.running,
            strings_view(outcome.stopped@) == old(self)@.stopped_by(cmd@),
            start_view(outcome.start) == spec_start(old(self)@, cmd@, manager@),
            outcome.start is Some ==> outcome.start->0.wf(),
            outcome.exit == (!old(self)@.running || cmd@ is Shutdown),
    {
        proof {
            use_type_invariant(&*self);
        }
        if !self.running {
            let stopped: Vec<String> = Vec::new();
            assert(strings_view(stopped@) =~= Seq::<Seq<char>>::empty());
            return CommandOutcome { accepted: false, stopped, start: None, exit: true };
        }
        match cmd {
            AudioCommand::Play { sound_id, local_only, .. } => {
                let stopped = self.remove_sound(sound_id.as_str());
                let plan = SinkPlan::setup_devices_for_playback(manager, *local_only);
                CommandOutcome { accepted: true, stopped, start: Some(plan), exit: false }
            },
            AudioCommand::Stop { sound_id } => {
                let stopped = self.remove_sound(sound_id.as_str());
                CommandOutcome { accepted: true, stopped, start: None, exit: false }
            },
            AudioCommand::StopAll => {
                let stopped = self.remove_all();
                CommandOutcome { accepted: true, stopped, start: None, exit: false }
            },
            AudioCommand::UpdateSoundVolume { sound_id, sound_volume } => {
                self.update_sound_volume(sound_id.as_str(), *sound_volume);
                let stopped: Vec<String> = Vec::new();
                assert(strings_view(stopped@) =~= Seq::<Seq<char>>::empty());
                CommandOutcome { accepted: true, stopped, start: None, exit: false }
            },
            AudioCommand::UpdateDeviceVolumes => {
                self.update_device_volumes(manager);
                let stopped: Vec<String> = Vec::new();
                assert(strings_view(stopped@) =~= Seq::<Seq<char>>::empty());
                CommandOutcome { accepted: true, stopped, start: None, exit: false }
            },
            AudioCommand::Shutdown => {
                let stopped = self.remove_all();
                self.running = false;
                CommandOutcome { accepted: true, stopped, start: None, exit: true }
            },
        }
    }

    /// Gives the sound `sound_id` a new gain of its own, if it is playing.
    fn update_sound_volume(&mut self, sound_id: &str, sound_volume: Gain)
        requires
            old(self)@.running,
        ensures
            final(self).wf(),
            final(self)@.running,
            final(self)@.instances == spec_retuned(
                old(self)@.instances,
                sound_id@,
                sound_volume@,
            ),
    {
        proof {
            use_type_invariant(&*self);
        }
        let ghost before = self@;
        let ghost expected = EngineView {
            instances: spec_retuned(before.instances, sound_id@, sound_volume@),
            running: true,
        };
        match self.find(sound_id) {
            Some(k) => {
                let mut all: Vec<SoundInstance> = Vec::new();
                std::mem::swap(&mut self.instances, &mut all);
                let ghost all_before = all@;
                all[k].update_sound_volume(sound_volume);
                proof {
                    assert(all@.len() == all_before.len());
                    assert forall|i: int| 0 <= i < all@.len() implies (#[trigger] all@[i]).wf() by {
                        if i != k {
                            assert(all@[i] == all_before[i]);
                        }
                    }
                    let after = all@.map_values(|instance: SoundInstance| instance@);
                    assert forall|i: int| 0 <= i < after.len() implies after[i]
                        == expected.instances[i] by {
                        if i != k {
                            assert(all@[i] == all_before[i]);
                            assert(before.instances[i] == all_before[i]@);
                            if i < k {
                                assert(before.instances[i].sound_id != before.instances[k as int].sound_id);
                            } else {
                                assert(before.instances[k as int].sound_id != before.instances[i].sound_id);
                            }
                        } else {
                            assert(before.instances[i] == all_before[i]@);
                        }
                    }
                    assert(after =~= expected.instances);
                    assert(unique_ids(after)) by {
                        assert forall|i: int, j: int| 0 <= i < j < after.len() implies (
                        #[trigger] after[i]).sound_id != (#[trigger] after[j]).sound_id by {
                            assert(after[i].sound_id == before.instances[i].sound_id);
                            assert(after[j].sound_id == before.instances[j].sound_id);
                        }
                    }
                }
                self.instances = all;
            },
            None => {
                proof {
                    assert forall|i: int| 0 <= i < before.instances.len() implies before.instances[i]
                        == expected.instances[i] by {
                        assert(before.instances[i].sound_id != sound_id@);
                    }
                    assert(before.instances =~= expected.instances);
                }
            },
        }
    }

    /// Gives every sound the device gains as the catalog holds them now.
    fn update_device_volumes(&mut self, manager: &AudioManager)
        requires
            old(self)@.running,
        ensures
            final(self).wf(),
            final(self)@ == old(self)@.after_command(CommandView::UpdateDeviceVolumes, manager@),
    {
        proof {
            use_type_invariant(&*self);
        }
        let ghost before = self@;
        let ghost expected = before.after_command(CommandView::UpdateDeviceVolumes, manager@);
        let virtual_volume = manager.get_virtual_volume();
        let output_volume = manager.get_output_volume();
        let mut all: Vec<SoundInstance> = Vec::new();
        std::mem::swap(&mut self.instances, &mut all);
        let ghost view_of = |instance: SoundInstance| instance@;
        let mut updated: Vec<SoundInstance> = Vec::new();
        let mut n: usize = 0;
        let total: usize = all.len();
        for instance in it: all
            invariant
                n == it.index(),
                it.seq().len() == total,
                updated.len() == n,
                view_of == (|instance: SoundInstance| instance@),
                it.seq().map_values(view_of) == before.instances,
                virtual_volume@ == manager@.virtual_volume,
                output_volume@ == manager@.output_volume,
                forall|i: int| 0 <= i < updated.len() ==> (#[trigger] updated[i]).wf(),
                forall|i: int|
                    0 <= i < n ==> (#[trigger] updated[i])@ == before.instances[i].with_device_volumes(
                        manager@.virtual_volume,
                        manager@.output_volume,
                    ),
        {
            let mut instance = instance;
            proof {
                assert(instance@ == before.instances[n as int]);
            }
            instance.update_device_volumes(virtual_volume, output_volume);
            updated.push(instance);
            n = n + 1;
        }
        proof {
            let after = updated@.map_values(view_of);
            assert(after =~= expected.instances);
            assert(unique_ids(after)) by {
                assert forall|i: int, j: int| 0 <= i < j < after.len() implies (
                #[trigger] after[i]).sound_id != (#[trigger] after[j]).sound_id by {
                    assert(after[i].sound_id == before.instances[i].sound_id);
                    assert(after[j].sound_id == before.instances[j].sound_id);
                }
            }
        }
        self.instances = updated;
    }

    /// One turn of the worker: carries out the command that was received, or
    /// shuts down if the senders are gone.
    pub fn audio_thread_worker(&mut self, received: &Option<AudioCommand>, manager: &AudioManager) -> (outcome:
        CommandOutcome)
        ensures
            final(self).wf(),
            match *received {
                Some(cmd) => {
                    &&& final(self)@ == old(self)@.after_command(cmd@, manager@)
                    &&& outcome.accepted == old(self)@.running
                    &&& strings_view(outcome.stopped@) == old(self)@.stopped_by(cmd@)
                    &&& start_view(outcome.start) == spec_start(old(self)@, cmd@, manager@)
                    &&& outcome.exit == (!old(self)@.running || cmd@ is Shutdown)
                },
                None => {
                    &&& final(self)@ == old(self)@.after_command(CommandView::Shutdown, manager@)
                    &&& outcome.accepted == old(self)@.running
                    &&& strings_view(outcome.stopped@) == old(self)@.stopped_by(CommandView::Shutdown)
                    &&& outcome.start is None
                    &&& outcome.exit
                },
            },
            outcome.start is Some ==> outcome.start->0.wf(),
    {
        match received {
            Some(cmd) => self.handle_command(cmd, manager),
            None => self.handle_command(&AudioCommand::Shutdown, manager),
        }
    }

    /// Takes in what the host could do for a `Play`. A sound of the same id
    /// leaves the table in any case. If the decoder could not be opened the
    /// request is given up: no sound is added, and the engine goes on. If it
    /// could, the new sound is added at the end of the table with the sinks
    /// that the plan holds, the duration that the decoder reported, and `now`
    /// as the time at which it started.
    pub fn handle_play_command(
        &mut self,
        sound_id: &str,
        start_position: Option<u64>,
        sound_volume: Gain,
        plan: &SinkPlan,
        decoder: Result<Option<u64>, AudioError>,
        now: u64,
    ) -> (played: Result<(), AudioError>)
        ensures
            final(self).wf(),
            final(self)@ == old(self)@.after_play(
                sound_id@,
                start_position,
                sound_volume@,
                plan@.sinks(),
                decoder,
                now,
            ),
            played == (if !old(self)@.running {
                Err::<(), AudioError>(AudioError::ChannelClosed)
            } else {
                match decoder {
                    Ok(_) => Ok::<(), AudioError>(()),
                    Err(e) => Err::<(), AudioError>(e),
                }
            }),
    {
        proof {
            use_type_invariant(&*self);
        }
        if !self.running {
            return Err(AudioError::ChannelClosed);
        }
        let ghost before = self@;
        let _ = self.remove_sound(sound_id);
        let duration = match decoder {
            Ok(duration) => duration,
            Err(e) => {
                return Err(e);
            },
        };
        let used_start_position: u64 = match start_position {
            Some(p) => p,
            None => 0,
        };
        let id = String::from_str(sound_id);
        let instance = SoundInstance::new(
            id,
            plan.sinks(),
            sound_volume,
            now,
            duration,
            used_start_position,
        );
        proof {
            use_type_invariant(&*self);
            lemma_filter_removes(before.instances, sound_id@);
        }
        let ghost others = self@.instances;
        let ghost others_exec = self.instances@;
        let mut all: Vec<SoundInstance> = Vec::new();
        std::mem::swap(&mut self.instances, &mut all);
        all.push(instance);
        proof {
            let after = all@.map_values(|instance: SoundInstance| instance@);
            assert(after =~= others.push(instance@));
            assert(unique_ids(after)) by {
                assert forall|i: int, j: int| 0 <= i < j < after.len() implies (
                #[trigger] after[i]).sound_id != (#[trigger] after[j]).sound_id by {
                    if j < others.len() {
                        assert(after[i] == others[i]);
                        assert(after[j] == others[j]);
                    } else {
                        assert(after[i] == others[i]);
                        assert(others[i].sound_id != sound_id@);
                    }
                }
            }
            assert forall|i: int| 0 <= i < all.len() implies (#[trigger] all[i]).wf() by {
                if i < others_exec.len() {
                    assert(all[i] == others_exec[i]);
                }
            }
        }
        self.instances = all;
        Ok(())
    }

    /// The sweep that follows every command: takes out of the table each
    /// sound that has played out on all of its sinks, going by the first
    /// report that bears its id, and returns the ids of those sounds. A
    /// sound without a report stays.
    pub fn cleanup_finished_sounds(&mut self, reports: &Vec<SinkReport>) -> (removed: Vec<String>)
        ensures
            final(self).wf(),
            final(self)@ == old(self)@.after_cleanup(reports_view(reports@)),
            strings_view(removed@) == spec_ids(
                old(self)@.instances.filter(finished_in(reports_view(reports@))),
            ),
    {
        let mut flags: Vec<bool> = Vec::new();
        let mut k: usize = 0;
        while k < self.instances.len()
            invariant
                k <= self.instances.len(),
                flags.len() == k,
                self@.instances.len() == self.instances.len(),
                forall|i: int|
                    0 <= i < k ==> flags[i] == finished_in(reports_view(reports@))(
                        #[trigger] self@.instances[i],
                    ),
            decreases self.instances.len() - k,
        {
            assert(self@.instances[k as int] == self.instances[k as int]@);
            let finished = match Self::report_for(reports, self.instances[k].sound_id().as_str()) {
                Some(r) => self.instances[k].is_finished(&reports[r].queue_empty),
                None => false,
            };
            flags.push(finished);
            k = k + 1;
        }
        self.remove_where(
            &flags,
            Ghost(unfinished_in(reports_view(reports@))),
            Ghost(finished_in(reports_view(reports@))),
        )
    }

    /// The position of the first report on the sound `sound_id`.
    fn report_for(reports: &Vec<SinkReport>, sound_id: &str) -> (found: Option<usize>)
        ensures
            match found {
                Some(r) => r < reports.len() && spec_report_for(reports_view(reports@), sound_id@)
                    == Some(reports[r as int].queue_empty@),
                None => spec_report_for(reports_view(reports@), sound_id@) is None,
            },
    {
        let ghost views = reports_view(reports@);
        let mut r: usize = 0;
        assert(views.skip(0) =~= views);
        while r < reports.len()
            invariant
                r <= reports.len(),
                views == reports_view(reports@),
                spec_report_for(views, sound_id@) == spec_report_for(views.skip(r as int), sound_id@),
            decreases reports.len() - r,
        {
            assert(views.skip(r as int).drop_first() =~= views.skip(r + 1));
            assert(views.skip(r as int)[0] == reports[r as int]@);
            if str_equal(reports[r].sound_id.as_str(), sound_id) {
                return Some(r);
            }
            r = r + 1;
        }
        None
    }

    /// The ids of the sounds that play now, in the order in which they were
    /// started.
    pub fn get_playing_sounds(&self) -> (ids: Vec<String>)
        ensures
            strings_view(ids@) == spec_ids(self@.instances),
    {
        let mut ids: Vec<String> = Vec::new();
        let mut k: usize = 0;
        while k < self.instances.len()
            invariant
                k <= self.instances.len(),
                ids.len() == k,
                forall|i: int| 0 <= i < k ==> (#[trigger] ids[i])@ == self.instances[i]@.sound_id,
            decreases self.instances.len() - k,
        {
            ids.push(self.instances[k].sound_id().clone());
            k = k + 1;
        }
        assert(strings_view(ids@) =~= spec_ids(self@.instances));
        ids
    }

    /// The position of the sound `sound_id` at the time `now`, in
    /// microseconds: its start position plus the time since it was started.
    /// There is none if the sound is not playing, or if more time has passed
    /// than its known duration.
    pub fn get_playback_position(&self, sound_id: &str, now: u64) -> (position: Option<u64>)
        ensures
            position == self@.position(sound_id@, now),
    {
        match self.find(sound_id) {
            Some(k) => {
                assert(self@.instances[k as int] == self.instances[k as int]@);
                self.instances[k].position(now)
            },
            None => None,
        }
    }

    /// The volume to apply to each sink of the sound `sound_id`, in order.
    pub fn sink_volumes(&self, sound_id: &str) -> (volumes: Option<Vec<Volume>>)
        ensures
            match volumes {
                Some(v) => spec_find(self@.instances, sound_id@) is Some && v@.map_values(
                    |volume: Volume| volume@,
                ) == spec_find(self@.instances, sound_id@)->0.sink_volumes(),
                None => spec_find(self@.instances, sound_id@) is None,
            },
    {
        match self.find(sound_id) {
            Some(k) => {
                assert(self@.instances[k as int] == self.instances[k as int]@);
                Some(self.instances[k].apply_volume_updates())
            },
            None => None,
        }
    }
}

} // verus!
