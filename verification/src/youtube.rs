//! Clips from the video platform: video ids, durations, and the progress of
//! a download.

use vstd::prelude::*;
use crate::text::{
    append_chars, chars_of, decimal, decimal_chars, decimal_two_places, parse_u32, position_of,
    slice_chars, spec_parse_u32, spec_position, string_of,
};

verus! {

/// Why a request about a clip fails.
#[derive(Debug, Clone, Copy, PartialEq, Eq, Structural)]
pub enum YouTubeError {
    /// The duration is not written as hours, minutes and seconds.
    InvalidDuration,
    /// The service was set up before.
    AlreadyInitialized,
    /// The service has not been set up.
    NotInitialized,
}

/// The four forms of address that hold a video id, as patterns.
pub const WATCH_PATTERN: &'static str = r"youtube\.com/watch\?v=([a-zA-Z0-9_-]{11})";

pub const SHORT_PATTERN: &'static str = r"youtu\.be/([a-zA-Z0-9_-]{11})";

pub const EMBED_PATTERN: &'static str = r"youtube\.com/embed/([a-zA-Z0-9_-]{11})";

pub const LEGACY_PATTERN: &'static str = r"youtube\.com/v/([a-zA-Z0-9_-]{11})";

/// What the first capture group of `pattern` holds at the leftmost match of
/// `pattern` in `text`; none if the pattern is not a valid regular
/// expression, if it does not match, or if the group took no part in the
/// match.
pub uninterp spec fn regex_first_group(pattern: Seq<char>, text: Seq<char>) -> Option<Seq<char>>;

/// The characters of an optional string.
pub open spec fn text_view(text: Option<String>) -> Option<Seq<char>> {
    match text {
        Some(s) => Some(s@),
        None => None,
    }
}

/// Calls `regex::Regex::new` on the pattern, `Regex::captures` on the text
/// and `Captures::get` with index one, and copies what `Match::as_str`
/// gives. The first fails on an invalid pattern, the second returns the
/// groups of the leftmost match, the third the group with that index. The
/// contract only gives the result a name.
#[verifier::external_body]
fn first_group(pattern: &str, text: &str) -> (group: Option<String>)
    ensures
        text_view(group) == regex_first_group(pattern@, text@),
{
    let re = match regex::Regex::new(pattern) {
        Ok(re) => re,
        Err(_) => return None,
    };
    let captures = match re.captures(text) {
        Some(captures) => captures,
        None => return None,
    };
    match captures.get(1) {
        Some(found) => Some(found.as_str().to_string()),
        None => None,
    }
}

/// The video id for which the four patterns were searched: what the first
/// of them that found one has found.
pub open spec fn spec_video_id(
    watch: Option<Seq<char>>,
    short: Option<Seq<char>>,
    embed: Option<Seq<char>>,
    legacy: Option<Seq<char>>,
) -> Option<Seq<char>> {
    if watch is Some {
        watch
    } else if short is Some {
        short
    } else if embed is Some {
        embed
    } else {
        legacy
    }
}

/// Picks the video id from what the four patterns found, the earlier
/// pattern before the later.
pub fn pick_video_id(
    watch: Option<String>,
    short: Option<String>,
    embed: Option<String>,
    legacy: Option<String>,
) -> (id: Option<String>)
    ensures
        text_view(id) == spec_video_id(
            text_view(watch),
            text_view(short),
            text_view(embed),
            text_view(legacy),
        ),
{
    if watch.is_some() {
        watch
    } else if short.is_some() {
        short
    } else if embed.is_some() {
        embed
    } else {
        legacy
    }
}

/// How often `text` begins with the letters `PT`, counted in characters.
pub open spec fn leading_pt(text: Seq<char>) -> nat
    decreases text.len(),
{
    if text.len() >= 2 && text[0] == 'P' && text[1] == 'T' {
        2 + leading_pt(text.skip(2))
    } else {
        0
    }
}

/// Counting the leading `PT`s may start after `k` characters that are known
/// to be made of them.
proof fn lemma_leading_pt_step(text: Seq<char>, k: int)
    requires
        0 <= k <= text.len(),
        k % 2 == 0,
        forall|j: int| 0 <= j < k ==> #[trigger] text[j] == (if j % 2 == 0 {
            'P'
        } else {
            'T'
        }),
    ensures
        leading_pt(text) == k + leading_pt(text.skip(k)),
    decreases k,
{
    if k == 0 {
        assert(text.skip(0) =~= text);
    } else {
        assert(text[0] == 'P');
        assert(text[1] == 'T');
        let rest = text.skip(2);
        assert forall|j: int| 0 <= j < k - 2 implies #[trigger] rest[j] == (if j % 2 == 0 {
            'P'
        } else {
            'T'
        }) by {
            assert(rest[j] == text[j + 2]);
        }
        lemma_leading_pt_step(rest, k - 2);
        assert(rest.skip(k - 2) =~= text.skip(k));
    }
}

/// One field of a duration: the number between `start` and the unit letter
/// at `end`, or zero where the unit letter is missing. There is no value if
/// the letter stands before `start` or if what stands between is not a
/// number.
pub open spec fn spec_field(text: Seq<char>, start: int, end: Option<int>) -> Option<u32> {
    match end {
        None => Some(0u32),
        Some(e) => if start > e {
            None
        } else {
            spec_parse_u32(text.subrange(start, e))
        },
    }
}

/// The position that follows the unit letter at `at`, or zero.
pub open spec fn after(at: Option<int>) -> int {
    match at {
        Some(p) => p + 1,
        None => 0,
    }
}

/// Hours, minutes and seconds as the user reads them: `h:mm:ss` with hours,
/// `m:ss` without.
pub open spec fn spec_clock(hours: u32, minutes: u32, seconds: u32) -> Seq<char> {
    if hours > 0 {
        decimal(hours as nat) + seq![':'] + decimal_two_places(minutes as nat) + seq![':']
            + decimal_two_places(seconds as nat)
    } else {
        decimal(minutes as nat) + seq![':'] + decimal_two_places(seconds as nat)
    }
}

/// The three fields of a duration.
#[derive(Debug, Clone, Copy, PartialEq, Eq, Structural)]
pub struct ClockFields {
    pub hours: u32,
    pub minutes: u32,
    pub seconds: u32,
}

/// The fields of a duration whose leading `PT` has been taken off.
pub open spec fn spec_fields(text: Seq<char>) -> Option<ClockFields> {
    let h = spec_position(text, 'H');
    let m = spec_position(text, 'M');
    let s = spec_position(text, 'S');
    let hours = spec_field(text, 0, h);
    let minutes = spec_field(text, after(h), m);
    let seconds = spec_field(
        text,
        if m is Some {
            after(m)
        } else {
            after(h)
        },
        s,
    );
    if hours is Some && minutes is Some && seconds is Some {
        Some(ClockFields { hours: hours->0, minutes: minutes->0, seconds: seconds->0 })
    } else {
        None
    }
}

/// The duration `PT#H#M#S` as the user reads it.
pub open spec fn spec_parse_duration(duration: Seq<char>) -> Option<Seq<char>> {
    match spec_fields(duration.skip(leading_pt(duration) as int)) {
        Some(f) => Some(spec_clock(f.hours, f.minutes, f.seconds)),
        None => None,
    }
}

/// Reads one field of a duration.
fn read_field(chars: &Vec<char>, start: usize, end: Option<usize>) -> (value: Option<u32>)
    requires
        end is Some ==> end->0 < chars.len(),
    ensures
        value == spec_field(
            chars@,
            start as int,
            match end {
                Some(e) => Some(e as int),
                None => None,
            },
        ),
{
    match end {
        None => Some(0),
        Some(e) => {
            if start > e {
                None
            } else {
                let part = slice_chars(chars, start, e);
                parse_u32(&part)
            }
        },
    }
}

/// Reads the three fields of a duration whose leading `PT` has been taken
/// off.
fn read_fields(chars: &Vec<char>) -> (fields: Option<ClockFields>)
    ensures
        fields == spec_fields(chars@),
{
    let h = position_of(chars, 'H');
    let m = position_of(chars, 'M');
    let s = position_of(chars, 'S');
    let after_h: usize = match h {
        Some(p) => p + 1,
        None => 0,
    };
    let after_m: usize = match m {
        Some(p) => p + 1,
        None => after_h,
    };
    let hours = read_field(chars, 0, h);
    let minutes = read_field(chars, after_h, m);
    let seconds = read_field(chars, after_m, s);
    match hours {
        Some(hours) => match minutes {
            Some(minutes) => match seconds {
                Some(seconds) => Some(ClockFields { hours, minutes, seconds }),
                None => None,
            },
            None => None,
        },
        None => None,
    }
}

/// Takes the leading `PT`s off a duration.
fn strip_pt(all: &Vec<char>) -> (rest: Vec<char>)
    ensures
        rest@ == all@.skip(leading_pt(all@) as int),
{
    let mut k: usize = 0;
    while k + 1 < all.len() && all[k] == 'P' && all[k + 1] == 'T'
        invariant
            k <= all.len(),
            k % 2 == 0,
            forall|j: int| 0 <= j < k ==> #[trigger] all@[j] == (if j % 2 == 0 {
                'P'
            } else {
                'T'
            }),
        decreases all.len() - k,
    {
        k = k + 2;
    }
    proof {
        lemma_leading_pt_step(all@, k as int);
        let rest = all@.skip(k as int);
        if rest.len() >= 2 {
            assert(rest[0] == all@[k as int]);
            assert(rest[1] == all@[k + 1]);
        }
        assert(leading_pt(all@) == k);
        assert(all@.subrange(k as int, all.len() as int) =~= all@.skip(k as int));
    }
    slice_chars(all, k, all.len())
}

/// Writes `n` in at least two places.
fn push_two_places(out: &mut Vec<char>, n: u32)
    ensures
        final(out)@ == old(out)@ + decimal_two_places(n as nat),
{
    if n < 10 {
        out.push('0');
    }
    let digits = decimal_chars(n as u64);
    append_chars(out, &digits);
    if n < 10 {
        assert(old(out)@.push('0') + digits@ =~= old(out)@ + (seq!['0'] + digits@));
    }
}

/// Writes hours, minutes and seconds as the user reads them.
pub fn format_clock(hours: u32, minutes: u32, seconds: u32) -> (out: Vec<char>)
    ensures
        out@ == spec_clock(hours, minutes, seconds),
{
    let mut out: Vec<char> = Vec::new();
    if hours > 0 {
        let digits = decimal_chars(hours as u64);
        append_chars(&mut out, &digits);
        out.push(':');
        push_two_places(&mut out, minutes);
        out.push(':');
        push_two_places(&mut out, seconds);
        assert(out@ =~= spec_clock(hours, minutes, seconds));
    } else {
        let digits = decimal_chars(minutes as u64);
        append_chars(&mut out, &digits);
        out.push(':');
        push_two_places(&mut out, seconds);
        assert(out@ =~= spec_clock(hours, minutes, seconds));
    }
    out
}

/// Turns a duration in the form `PT#H#M#S` into the form `h:mm:ss`, or
/// `m:ss` where there are no hours. Each of the three fields may be missing
/// and then counts as zero. A field that is not a number of at most 32 bits,
/// or unit letters out of order, make the duration invalid.
pub fn parse_duration(duration: &str) -> (clock: Result<String, YouTubeError>)
    ensures
        match clock {
            Ok(text) => spec_parse_duration(duration@) == Some(text@),
            Err(e) => e == YouTubeError::InvalidDuration && spec_parse_duration(duration@) is None,
        },
{
    let all = chars_of(duration);
    let chars = strip_pt(&all);
    match read_fields(&chars) {
        Some(fields) => {
            let out = format_clock(fields.hours, fields.minutes, fields.seconds);
            Ok(string_of(&out))
        },
        None => Err(YouTubeError::InvalidDuration),
    }
}

/// The handle on the video platform's interface.
#[derive(Debug, Clone)]
pub struct YouTubeService {
    pub api_key: String,
}

impl YouTubeService {
    /// A service that signs its requests with `api_key`.
    pub fn new(api_key: String) -> (service: YouTubeService)
        ensures
            service.api_key == api_key,
    {
        YouTubeService { api_key }
    }

    /// The video id in an address: the eleven characters that follow one of the
    /// four known forms, searched for in the order watch page, short link,
    /// embedded player, legacy player.
    pub fn extract_video_id(url: &str) -> (id: Option<String>)
        ensures
            text_view(id) == spec_video_id(
                regex_first_group(WATCH_PATTERN@, url@),
                regex_first_group(SHORT_PATTERN@, url@),
                regex_first_group(EMBED_PATTERN@, url@),
                regex_first_group(LEGACY_PATTERN@, url@),
            ),
    {
        let watch = first_group(WATCH_PATTERN, url);
        let short = first_group(SHORT_PATTERN, url);
        let embed = first_group(EMBED_PATTERN, url);
        let legacy = first_group(LEGACY_PATTERN, url);
        pick_video_id(watch, short, embed, legacy)
    }
}

/// Sets the service up once. A second call fails and leaves the first
/// service in place.
pub fn init_youtube_service(slot: &mut Option<YouTubeService>, api_key: String) -> (done: Result<
    (),
    YouTubeError,
>)
    ensures
        match done {
            Ok(_) => *old(slot) is None && *final(slot) == Some(YouTubeService { api_key }),
            Err(e) => e == YouTubeError::AlreadyInitialized && *old(slot) is Some && *final(slot)
                == *old(slot),
        },
{
    if slot.is_some() {
        return Err(YouTubeError::AlreadyInitialized);
    }
    *slot = Some(YouTubeService::new(api_key));
    Ok(())
}

/// Takes in a new key: it sets the service up if none is, and otherwise
/// leaves the running service as it is until the next start.
pub fn update_youtube_service_api_key(slot: &mut Option<YouTubeService>, api_key: String)
    ensures
        *old(slot) is None ==> *final(slot) == Some(YouTubeService { api_key }),
        *old(slot) is Some ==> *final(slot) == *old(slot),
{
    if slot.is_none() {
        *slot = Some(YouTubeService::new(api_key));
    }
}

/// The service, if it has been set up.
pub fn get_youtube_service(slot: &Option<YouTubeService>) -> (service: Result<
    &YouTubeService,
    YouTubeError,
>)
    ensures
        match service {
            Ok(s) => *slot == Some(*s),
            Err(e) => e == YouTubeError::NotInitialized && *slot is None,
        },
{
    match slot {
        Some(s) => Ok(s),
        None => Err(YouTubeError::NotInitialized),
    }
}

/// How far a download has come.
#[derive(Debug, Clone, Copy, PartialEq, Eq, Structural)]
pub enum DownloadStage {
    Starting,
    Initializing,
    Downloading,
    Finalizing,
    Processing,
    Completed,
    Failed,
}

impl DownloadStage {
    /// The stage as the user interface spells it.
    pub open spec fn spec_name(self) -> Seq<char> {
        match self {
            DownloadStage::Starting => "starting"@,
            DownloadStage::Initializing => "initializing"@,
            DownloadStage::Downloading => "downloading"@,
            DownloadStage::Finalizing => "finalizing"@,
            DownloadStage::Processing => "processing"@,
            DownloadStage::Completed => "completed"@,
            DownloadStage::Failed => "error"@,
        }
    }

    /// The stage as the user interface spells it.
    pub fn name(&self) -> (name: &'static str)
        ensures
            name@ == self.spec_name(),
    {
        match self {
            DownloadStage::Starting => "starting",
            DownloadStage::Initializing => "initializing",
            DownloadStage::Downloading => "downloading",
            DownloadStage::Finalizing => "finalizing",
            DownloadStage::Processing => "processing",
            DownloadStage::Completed => "completed",
            DownloadStage::Failed => "error",
        }
    }
}

/// What the downloader's process reports.
#[derive(Debug, Clone, Copy, PartialEq, Eq, Structural)]
pub enum DownloadEvent {
    /// A line with a percentage; the flag says whether it is at least one
    /// hundred.
    Percent { complete: bool },
    /// The process reported an error.
    Error,
    /// The process ended with this exit code.
    Terminated { exit_code: Option<i32> },
    /// Anything else.
    Other,
}

/// What the caller does after an event.
#[derive(Debug, Clone, Copy, PartialEq, Eq, Structural)]
pub enum DownloadStep {
    /// Tell the user interface the stage, and go on reading.
    Report(DownloadStage),
    /// Go on reading.
    Continue,
    /// The process has ended well: tell the user interface the stage, then
    /// collect the file.
    Collect(DownloadStage),
    /// Tell the user interface the stage and give the download up.
    Abort(DownloadStage),
}

/// What is remembered of a download while the process runs.
#[derive(Debug, Clone, Copy, PartialEq, Eq, Structural)]
pub struct DownloadTracker {
    pub has_seen_progress: bool,
    pub has_reached_100: bool,
}

impl DownloadTracker {
    /// The tracker after an event.
    pub open spec fn spec_next(self, event: DownloadEvent) -> DownloadTracker {
        match event {
            DownloadEvent::Percent { complete } => DownloadTracker {
                has_seen_progress: true,
                has_reached_100: self.has_reached_100 || complete,
            },
            _ => self,
        }
    }

    /// What the caller does after an event.
    pub open spec fn spec_step(self, event: DownloadEvent) -> DownloadStep {
        match event {
            DownloadEvent::Percent { complete } => if self.has_reached_100 || complete {
                DownloadStep::Report(DownloadStage::Finalizing)
            } else {
                DownloadStep::Report(DownloadStage::Downloading)
            },
            DownloadEvent::Error => DownloadStep::Abort(DownloadStage::Failed),
            DownloadEvent::Terminated { exit_code } => if exit_code == Some(0i32) {
                DownloadStep::Collect(DownloadStage::Processing)
            } else {
                DownloadStep::Abort(DownloadStage::Failed)
            },
            DownloadEvent::Other => DownloadStep::Continue,
        }
    }

    /// A tracker for a download that has not reported anything yet.
    pub fn new() -> (tracker: DownloadTracker)
        ensures
            !tracker.has_seen_progress,
            !tracker.has_reached_100,
    {
        DownloadTracker { has_seen_progress: false, has_reached_100: false }
    }

    /// Takes in one event of the downloader's process. A percentage is
    /// reported as downloading until one of them is complete, and as
    /// finalizing from then on. An error, or an exit code other than zero,
    /// gives the download up. Exit code zero ends the reading.
    pub fn on_event(&mut self, event: DownloadEvent) -> (step: DownloadStep)
        ensures
            *final(self) == old(self).spec_next(event),
            step == old(self).spec_step(event),
    {
        match event {
            DownloadEvent::Percent { complete } => {
                self.has_seen_progress = true;
                if complete && !self.has_reached_100 {
                    self.has_reached_100 = true;
                }
                if self.has_reached_100 {
                    DownloadStep::Report(DownloadStage::Finalizing)
                } else {
                    DownloadStep::Report(DownloadStage::Downloading)
                }
            },
            DownloadEvent::Error => DownloadStep::Abort(DownloadStage::Failed),
            DownloadEvent::Terminated { exit_code } => {
                match exit_code {
                    Some(code) => if code == 0 {
                        DownloadStep::Collect(DownloadStage::Processing)
                    } else {
                        DownloadStep::Abort(DownloadStage::Failed)
                    },
                    None => DownloadStep::Abort(DownloadStage::Failed),
                }
            },
            DownloadEvent::Other => DownloadStep::Continue,
        }
    }
}

/// Once a download has been reported as finalizing it is never reported as
/// downloading again.
pub proof fn lemma_finalizing_is_kept(tracker: DownloadTracker, first: bool, second: bool)
    requires
        tracker.spec_step(DownloadEvent::Percent { complete: first }) == DownloadStep::Report(
            DownloadStage::Finalizing,
        ),
    ensures
        tracker.spec_next(DownloadEvent::Percent { complete: first }).spec_step(
            DownloadEvent::Percent { complete: second },
        ) == DownloadStep::Report(DownloadStage::Finalizing),
{
}

} // verus!
