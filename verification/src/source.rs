//! The streaming decoder's cursor: which track is read, where in the stream
//! the cursor stands, and what each packet read and each decode leads to.
//!
//! The container reader and the codec stay with the caller. The cursor is
//! told what they returned and answers with what to do next.

use std::collections::VecDeque;
use vstd::prelude::*;
use vstd::arithmetic::div_mod::lemma_fundamental_div_mod_converse;
use crate::error::AudioError;
use crate::sample::SampleEncoding;

verus! {

/// The sample rate taken for a track that does not state one.
pub const DEFAULT_SAMPLE_RATE: u32 = 44100;

/// The channel count taken for a track that does not state a usable one.
pub const DEFAULT_CHANNELS: u16 = 2;

/// The number of microseconds in a second.
pub const MICROS_PER_SECOND: u64 = 1_000_000;

/// What the container says of one track.
#[derive(Clone, Copy, Debug, PartialEq, Eq, Structural)]
pub struct TrackParams {
    pub id: u32,
    pub codec_is_null: bool,
    pub sample_rate: Option<u32>,
    pub channels: Option<usize>,
    pub n_frames: Option<u64>,
}

/// The first of `tracks` that has a codec.
pub open spec fn spec_select_track(tracks: Seq<TrackParams>) -> Option<TrackParams>
    decreases tracks.len(),
{
    if tracks.len() == 0 {
        None
    } else if !tracks[0].codec_is_null {
        Some(tracks[0])
    } else {
        spec_select_track(tracks.drop_first())
    }
}

/// The first track that has a codec.
pub fn select_track(tracks: &Vec<TrackParams>) -> (track: Option<TrackParams>)
    ensures
        track == spec_select_track(tracks@),
{
    let mut i: usize = 0;
    assert(tracks@.skip(0) =~= tracks@);
    while i < tracks.len()
        invariant
            i <= tracks.len(),
            spec_select_track(tracks@) == spec_select_track(tracks@.skip(i as int)),
        decreases tracks.len() - i,
    {
        let t = tracks[i];
        assert(tracks@.skip(i as int).drop_first() =~= tracks@.skip(i + 1));
        assert(tracks@.skip(i as int)[0] == t);
        if !t.codec_is_null {
            return Some(t);
        }
        i = i + 1;
    }
    None
}

/// The sample rate that a track is read at.
pub open spec fn spec_track_rate(track: TrackParams) -> u32 {
    match track.sample_rate {
        Some(rate) => rate,
        None => DEFAULT_SAMPLE_RATE,
    }
}

/// The channel count that a track is read with.
pub open spec fn spec_track_channels(track: TrackParams) -> u16 {
    match track.channels {
        Some(count) => if count <= u16::MAX {
            count as u16
        } else {
            DEFAULT_CHANNELS
        },
        None => DEFAULT_CHANNELS,
    }
}

/// The time that `frames` frames take at `sample_rate`, in whole
/// microseconds; the greatest number that fits where the rate is zero or the
/// time is longer than can be counted.
pub open spec fn spec_frames_to_micros(frames: u64, sample_rate: u32) -> u64 {
    if sample_rate == 0 {
        u64::MAX
    } else if frames * MICROS_PER_SECOND / (sample_rate as int) > u64::MAX {
        u64::MAX
    } else {
        (frames * MICROS_PER_SECOND / (sample_rate as int)) as u64
    }
}

/// The number of frames that pass in `micros` microseconds at `sample_rate`,
/// rounded down; the greatest number that fits where there are more.
pub open spec fn spec_micros_to_frames(micros: u64, sample_rate: u32) -> u64 {
    if micros * sample_rate / (MICROS_PER_SECOND as int) > u64::MAX {
        u64::MAX
    } else {
        (micros * sample_rate / (MICROS_PER_SECOND as int)) as u64
    }
}

/// The time that `frames` frames take at `sample_rate`, in microseconds.
pub fn frames_to_micros(frames: u64, sample_rate: u32) -> (micros: u64)
    ensures
        micros == spec_frames_to_micros(frames, sample_rate),
{
    if sample_rate == 0 {
        return u64::MAX;
    }
    assert(frames * MICROS_PER_SECOND <= 0xffff_ffff_ffff_ffff * 1_000_000) by (nonlinear_arith)
        requires
            frames <= 0xffff_ffff_ffff_ffff,
            MICROS_PER_SECOND == 1_000_000,
    ;
    let scaled: u128 = (frames as u128) * (MICROS_PER_SECOND as u128);
    let micros: u128 = scaled / (sample_rate as u128);
    if micros > u64::MAX as u128 {
        u64::MAX
    } else {
        micros as u64
    }
}

/// The number of frames that pass in `micros` microseconds at `sample_rate`.
pub fn micros_to_frames(micros: u64, sample_rate: u32) -> (frames: u64)
    ensures
        frames == spec_micros_to_frames(micros, sample_rate),
{
    assert(micros * sample_rate <= 0xffff_ffff_ffff_ffff * 0xffff_ffff) by (nonlinear_arith)
        requires
            micros <= 0xffff_ffff_ffff_ffff,
            sample_rate <= 0xffff_ffff,
    ;
    let scaled: u128 = (micros as u128) * (sample_rate as u128);
    let frames: u128 = scaled / (MICROS_PER_SECOND as u128);
    if frames > u64::MAX as u128 {
        u64::MAX
    } else {
        frames as u64
    }
}

/// The length of the first track that has a codec, in microseconds.
pub open spec fn spec_audio_duration(tracks: Seq<TrackParams>) -> Result<u64, AudioError> {
    match spec_select_track(tracks) {
        None => Err(AudioError::DecodeOpenFailed),
        Some(track) => match track.n_frames {
            None => Err(AudioError::DecodeOpenFailed),
            Some(frames) => Ok(spec_frames_to_micros(frames, spec_track_rate(track))),
        },
    }
}

/// The length of a media file, from the tracks that its container lists: the
/// frame count of the first track with a codec, at that track's sample rate.
/// There is no length when no track has a codec or the container does not
/// state the frame count.
pub fn get_audio_duration(tracks: &Vec<TrackParams>) -> (duration: Result<u64, AudioError>)
    ensures
        duration == spec_audio_duration(tracks@),
{
    match select_track(tracks) {
        None => Err(AudioError::DecodeOpenFailed),
        Some(track) => {
            let sample_rate: u32 = match track.sample_rate {
                Some(rate) => rate,
                None => DEFAULT_SAMPLE_RATE,
            };
            match track.n_frames {
                None => Err(AudioError::DecodeOpenFailed),
                Some(frames) => Ok(frames_to_micros(frames, sample_rate)),
            }
        },
    }
}

/// Where the container must be positioned before the first packet is read:
/// a point in time, given in whole seconds and the microseconds beyond
/// them, on one track.
#[derive(Clone, Copy, Debug, PartialEq, Eq, Structural)]
pub struct SeekRequest {
    pub seconds: u64,
    pub micros: u32,
    pub track_id: u32,
}

impl SeekRequest {
    /// The point in time that the request names, in microseconds.
    pub open spec fn position(self) -> int {
        self.seconds * MICROS_PER_SECOND + self.micros
    }
}

/// What reading the next packet from the container came to.
#[derive(Clone, Copy, Debug, PartialEq, Eq, Structural)]
pub enum PacketRead {
    /// A packet of the track with this id.
    Packet { track_id: u32 },
    /// The container asks for the decoder to be set up anew.
    ResetRequired,
    /// The container has no more packets.
    EndOfFile,
    /// Reading failed.
    IoError,
    /// The container reported another error.
    Failed,
}

/// What decoding one packet came to.
pub enum Decoded<S> {
    /// The samples of the packet, interleaved.
    Samples(Vec<S>),
    /// The buffer holds an encoding that is not handled.
    Unsupported,
    /// The codec could not read what it needed.
    IoError,
    /// The codec reported another error.
    Failed,
}

/// What to do after a packet was read.
#[derive(Clone, Copy, Debug, PartialEq, Eq, Structural)]
pub enum ReadStep {
    /// The packet belongs to the track: decode it and report the result.
    Decode,
    /// The packet belongs to another track: leave it.
    Skip,
    /// There is nothing more to read.
    End,
}

/// What priming has come to.
#[derive(Clone, Copy, Debug, PartialEq, Eq, Structural)]
pub enum PrimeStep {
    /// The first buffer is in: the source is ready.
    Primed,
    /// Decode the packet just read and report the result.
    Decode,
    /// Read another packet.
    ReadAgain,
    /// The source cannot be opened.
    Fail(AudioError),
}

/// What asking for the next sample came to.
#[derive(Debug, PartialEq, Eq)]
pub enum Poll<S> {
    /// The next sample.
    Sample(S),
    /// No more samples.
    End,
    /// The queue is empty: read a packet and report it.
    NeedPacket,
}

/// The cursor as a plain value.
pub struct SourceView<S> {
    pub track_id: u32,
    pub current_ts: u64,
    pub end_ts: Option<u64>,
    pub sample_rate: u32,
    pub channels: u16,
    pub pending: Seq<S>,
}

/// The timestamp one sample further on.
pub open spec fn spec_advance(ts: u64) -> u64 {
    if ts < u64::MAX {
        (ts + 1) as u64
    } else {
        ts
    }
}

impl<S> SourceView<S> {
    /// Whether the cursor has reached the known end of the track.
    pub open spec fn at_end(self) -> bool {
        self.end_ts is Some && self.current_ts >= self.end_ts->0
    }

    /// The cursor after it has given out its oldest pending sample.
    pub open spec fn after_sample(self) -> SourceView<S> {
        SourceView {
            current_ts: spec_advance(self.current_ts),
            pending: self.pending.drop_first(),
            ..self
        }
    }

    /// The cursor with the pending samples replaced.
    pub open spec fn with_pending(self, pending: Seq<S>) -> SourceView<S> {
        SourceView { pending, ..self }
    }

    /// The time left to the known end of the track, in microseconds.
    pub open spec fn total_duration(self) -> Option<u64> {
        match self.end_ts {
            Some(end) => Some(
                spec_frames_to_micros(
                    if end >= self.current_ts {
                        (end - self.current_ts) as u64
                    } else {
                        0
                    },
                    self.sample_rate,
                ),
            ),
            None => None,
        }
    }
}

/// The cursor that a source opened on `track` at `start_position` starts
/// with.
pub open spec fn spec_opened<S>(track: TrackParams, start_position: u64) -> SourceView<S> {
    SourceView {
        track_id: track.id,
        current_ts: spec_micros_to_frames(start_position, spec_track_rate(track)),
        end_ts: track.n_frames,
        sample_rate: spec_track_rate(track),
        channels: spec_track_channels(track),
        pending: Seq::empty(),
    }
}

/// The seek that a start position asks for: none at zero, else to the very
/// position, whole seconds and the part of a second alike.
pub open spec fn spec_seek(track: TrackParams, start_position: u64) -> Option<SeekRequest> {
    if start_position > 0 {
        Some(
            SeekRequest {
                seconds: start_position / MICROS_PER_SECOND,
                micros: (start_position % MICROS_PER_SECOND) as u32,
                track_id: track.id,
            },
        )
    } else {
        None
    }
}

/// A seek names the start position that asked for it, to the microsecond,
/// and the part of a second that it carries is less than a second.
pub proof fn lemma_seek_is_accurate(track: TrackParams, start_position: u64)
    requires
        start_position > 0,
    ensures
        spec_seek(track, start_position) is Some,
        spec_seek(track, start_position)->0.position() == start_position,
        spec_seek(track, start_position)->0.micros < MICROS_PER_SECOND,
        spec_seek(track, start_position)->0.track_id == track.id,
{
    vstd::arithmetic::div_mod::lemma_fundamental_div_mod(
        start_position as int,
        MICROS_PER_SECOND as int,
    );
    assert((start_position / MICROS_PER_SECOND) * MICROS_PER_SECOND == MICROS_PER_SECOND * (
    start_position / MICROS_PER_SECOND)) by (nonlinear_arith);
}

/// What `prime_on_read` answers.
pub open spec fn spec_prime_on_read(track_id: u32, read: PacketRead) -> PrimeStep {
    match read {
        PacketRead::Packet { track_id: id } => if id == track_id {
            PrimeStep::Decode
        } else {
            PrimeStep::ReadAgain
        },
        _ => PrimeStep::Fail(AudioError::DecodeOpenFailed),
    }
}

/// What `on_packet` answers.
pub open spec fn spec_on_packet(track_id: u32, read: PacketRead) -> ReadStep {
    match read {
        PacketRead::Packet { track_id: id } => if id == track_id {
            ReadStep::Decode
        } else {
            ReadStep::Skip
        },
        _ => ReadStep::End,
    }
}

/// The cursor of one streaming decode.
pub struct SymphoniaAudioSource<S> {
    track_id: u32,
    current_ts: u64,
    end_ts: Option<u64>,
    sample_rate: u32,
    channels: u16,
    sample_buffer: VecDeque<S>,
}

/// A freshly opened source and the seek that must precede its priming.
pub struct OpenedSource<S> {
    pub source: SymphoniaAudioSource<S>,
    pub seek: Option<SeekRequest>,
}

impl<S: Copy> SymphoniaAudioSource<S> {
    /// The cursor as a plain value.
    pub closed spec fn view(&self) -> SourceView<S> {
        SourceView {
            track_id: self.track_id,
            current_ts: self.current_ts,
            end_ts: self.end_ts,
            sample_rate: self.sample_rate,
            channels: self.channels,
            pending: self.sample_buffer@,
        }
    }

    /// Opens a source on the first track that has a codec. The cursor starts
    /// at the frame that `start_position`, in microseconds, falls on. A start
    /// position above zero asks for a seek to that very position. The source
    /// holds no samples until it has been primed.
    pub fn new(tracks: &Vec<TrackParams>, start_position: u64) -> (opened: Result<
        OpenedSource<S>,
        AudioError,
    >)
        ensures
            match opened {
                Ok(o) => {
                    &&& spec_select_track(tracks@) is Some
                    &&& o.source@ == spec_opened::<S>(spec_select_track(tracks@)->0, start_position)
                    &&& o.seek == spec_seek(spec_select_track(tracks@)->0, start_position)
                    &&& start_position > 0 ==> o.seek is Some && o.seek->0.position()
                        == start_position
                },
                Err(e) => e == AudioError::DecodeOpenFailed && spec_select_track(tracks@) is None,
            },
    {
        let track = match select_track(tracks) {
            Some(t) => t,
            None => {
                return Err(AudioError::DecodeOpenFailed);
            },
        };
        let sample_rate: u32 = match track.sample_rate {
            Some(rate) => rate,
            None => DEFAULT_SAMPLE_RATE,
        };
        let channels: u16 = match track.channels {
            Some(count) => if count <= 0xffff {
                count as u16
            } else {
                DEFAULT_CHANNELS
            },
            None => DEFAULT_CHANNELS,
        };
        proof {
            if start_position > 0 {
                lemma_seek_is_accurate(track, start_position);
            }
        }
        let seek = if start_position > 0 {
            Some(
                SeekRequest {
                    seconds: start_position / MICROS_PER_SECOND,
                    micros: (start_position % MICROS_PER_SECOND) as u32,
                    track_id: track.id,
                },
            )
        } else {
            None
        };
        let source = SymphoniaAudioSource {
            track_id: track.id,
            current_ts: micros_to_frames(start_position, sample_rate),
            end_ts: track.n_frames,
            sample_rate,
            channels,
            sample_buffer: VecDeque::new(),
        };
        Ok(OpenedSource { source, seek })
    }

    /// While priming: what to do with what the container returned. A packet
    /// of the track is decoded, a packet of another track is passed over, and
    /// anything else fails the open.
    pub fn prime_on_read(&self, read: PacketRead) -> (step: PrimeStep)
        ensures
            step == spec_prime_on_read(self@.track_id, read),
    {
        match read {
            PacketRead::Packet { track_id } => if track_id == self.track_id {
                PrimeStep::Decode
            } else {
                PrimeStep::ReadAgain
            },
            _ => PrimeStep::Fail(AudioError::DecodeOpenFailed),
        }
    }

    /// While priming: takes in what the codec made of the first packet of the
    /// track. Samples become the pending samples and the source is primed.
    /// An encoding that is not handled, or a failed decode, fails the open.
    pub fn prime_on_decoded(&mut self, decoded: Decoded<S>) -> (step: PrimeStep)
        ensures
            match decoded {
                Decoded::Samples(samples) => step == PrimeStep::Primed && final(self)@ == old(self)@.with_pending(samples@),
                Decoded::Unsupported => step == PrimeStep::Fail(
                    AudioError::UnsupportedSampleEncoding,
                ) && final(self)@ == old(self)@,
                _ => step == PrimeStep::Fail(AudioError::DecodeOpenFailed) && final(self)@ == old(self)@,
            },
    {
        match decoded {
            Decoded::Samples(samples) => {
                self.refill(samples);
                PrimeStep::Primed
            },
            Decoded::Unsupported => PrimeStep::Fail(AudioError::UnsupportedSampleEncoding),
            _ => PrimeStep::Fail(AudioError::DecodeOpenFailed),
        }
    }

    /// Replaces the pending samples.
    fn refill(&mut self, samples: Vec<S>)
        ensures
            final(self)@ == old(self)@.with_pending(samples@),
    {
        let mut queue: VecDeque<S> = VecDeque::new();
        let mut i: usize = 0;
        while i < samples.len()
            invariant
                i <= samples.len(),
                queue@ == samples@.take(i as int),
            decreases samples.len() - i,
        {
            queue.push_back(samples[i]);
            i = i + 1;
        }
        assert(samples@.take(samples.len() as int) == samples@);
        self.sample_buffer = queue;
    }

    /// Gives out the oldest pending sample and moves the cursor on by one.
    fn pop_sample(&mut self) -> (sample: Option<S>)
        ensures
            match sample {
                Some(s) => old(self)@.pending.len() > 0 && s == old(self)@.pending[0] && final(self)@ == old(self)@.after_sample(),
                None => old(self)@.pending.len() == 0 && final(self)@ == old(self)@,
            },
    {
        match self.sample_buffer.pop_front() {
            Some(s) => {
                if self.current_ts < u64::MAX {
                    self.current_ts = self.current_ts + 1;
                }
                assert(old(self)@.pending.subrange(1, old(self)@.pending.len() as int) == old(self)@.pending.drop_first());
                Some(s)
            },
            None => None,
        }
    }

    /// Asks for the next sample. A pending sample is given out and the cursor
    /// moves on by one. With none pending, the stream has ended if the known
    /// frame count is reached, and otherwise a packet must be read.
    pub fn next(&mut self) -> (poll: Poll<S>)
        ensures
            old(self)@.pending.len() > 0 ==> poll == Poll::Sample(old(self)@.pending[0]) && final(self)@ == old(self)@.after_sample(),
            old(self)@.pending.len() == 0 ==> final(self)@ == old(self)@ && poll == (if old(self)@.at_end() {
                Poll::<S>::End
            } else {
                Poll::<S>::NeedPacket
            }),
    {
        match self.pop_sample() {
            Some(s) => Poll::Sample(s),
            None => {
                match self.end_ts {
                    Some(end) => if self.current_ts >= end {
                        Poll::End
                    } else {
                        Poll::NeedPacket
                    },
                    None => Poll::NeedPacket,
                }
            },
        }
    }

    /// What to do with what the container returned: a packet of the track is
    /// decoded, a packet of another track is passed over, and the end of the
    /// file, a required reset or an error all end the stream.
    pub fn on_packet(&self, read: PacketRead) -> (step: ReadStep)
        ensures
            step == spec_on_packet(self@.track_id, read),
    {
        match read {
            PacketRead::Packet { track_id } => if track_id == self.track_id {
                ReadStep::Decode
            } else {
                ReadStep::Skip
            },
            _ => ReadStep::End,
        }
    }

    /// Takes in what the codec made of a packet of the track. Samples become
    /// the pending samples and the first of them is given out; a packet
    /// without samples asks for the next one. An encoding that is not handled,
    /// or a failed decode, ends the stream.
    pub fn on_decoded(&mut self, decoded: Decoded<S>) -> (poll: Poll<S>)
        ensures
            match decoded {
                Decoded::Samples(samples) => if samples@.len() > 0 {
                    poll == Poll::Sample(samples@[0]) && final(self)@ == old(self)@.with_pending(
                        samples@,
                    ).after_sample()
                } else {
                    poll == Poll::<S>::NeedPacket && final(self)@ == old(self)@.with_pending(
                        samples@,
                    )
                },
                _ => poll == Poll::<S>::End && final(self)@ == old(self)@,
            },
    {
        match decoded {
            Decoded::Samples(samples) => {
                self.refill(samples);
                match self.pop_sample() {
                    Some(s) => Poll::Sample(s),
                    None => Poll::NeedPacket,
                }
            },
            _ => Poll::End,
        }
    }

    /// The length of one frame of the stream is not fixed.
    pub fn current_frame_len(&self) -> (len: Option<usize>)
        ensures
            len is None,
    {
        None
    }

    /// The number of interleaved channels.
    pub fn channels(&self) -> (channels: u16)
        ensures
            channels == self@.channels,
    {
        self.channels
    }

    /// The sample rate of the track.
    pub fn sample_rate(&self) -> (rate: u32)
        ensures
            rate == self@.sample_rate,
    {
        self.sample_rate
    }

    /// The time from the cursor to the end of the track in microseconds,
    /// where the container states the frame count; `None` means that the
    /// length is not known.
    pub fn total_duration(&self) -> (duration: Option<u64>)
        ensures
            duration == self@.total_duration(),
    {
        match self.end_ts {
            Some(end) => {
                let remaining: u64 = if end >= self.current_ts {
                    end - self.current_ts
                } else {
                    0
                };
                Some(frames_to_micros(remaining, self.sample_rate))
            },
            None => None,
        }
    }
}

/// Whether `planes` holds `frames` samples for each of `channels` channels.
pub open spec fn planes_cover<T>(planes: Seq<Vec<T>>, frames: usize, channels: u16) -> bool {
    &&& planes.len() >= channels
    &&& forall|ch: int| 0 <= ch < channels ==> (#[trigger] planes[ch]).len() >= frames
}

/// Whether `samples` is `planes` interleaved frame by frame, each sample
/// being what `convert` may return for the raw one.
pub open spec fn spec_interleaved<T, S, F: Fn(T) -> S>(
    planes: Seq<Vec<T>>,
    frames: usize,
    channels: u16,
    convert: F,
    samples: Seq<S>,
) -> bool {
    &&& samples.len() == frames * channels
    &&& forall|i: int|
        0 <= i < samples.len() ==> call_ensures(
            convert,
            (planes[i % (channels as int)][i / (channels as int)],),
            #[trigger] samples[i],
        )
}

/// Turns one decoded buffer, held as one plane of raw samples per channel,
/// into interleaved samples. An encoding that is not handled is reported as
/// such; planes that do not cover `frames` frames of `channels` channels, or
/// more samples than can be indexed, are a failed decode.
pub fn decode_and_buffer<T: Copy, S, F: Fn(T) -> S>(
    encoding: SampleEncoding,
    planes: &Vec<Vec<T>>,
    frames: usize,
    channels: u16,
    convert: F,
) -> (decoded: Decoded<S>)
    requires
        forall|raw: T| call_requires(convert, (raw,)),
    ensures
        match decoded {
            Decoded::Samples(samples) => encoding.spec_scale() is Some && planes_cover(
                planes@,
                frames,
                channels,
            ) && spec_interleaved(planes@, frames, channels, convert, samples@),
            Decoded::Unsupported => encoding.spec_scale() is None,
            Decoded::Failed => encoding.spec_scale() is Some && (!planes_cover(
                planes@,
                frames,
                channels,
            ) || frames * channels > usize::MAX),
            Decoded::IoError => false,
        },
{
    if encoding.scale().is_none() {
        return Decoded::Unsupported;
    }
    let width: usize = channels as usize;
    if planes.len() < width {
        return Decoded::Failed;
    }
    let mut ch: usize = 0;
    while ch < width
        invariant
            ch <= width,
            width == channels,
            encoding.spec_scale() is Some,
            planes.len() >= width,
            forall|k: int| 0 <= k < ch ==> (#[trigger] planes[k]).len() >= frames,
        decreases width - ch,
    {
        if planes[ch].len() < frames {
            assert(planes@[ch as int].len() < frames);
            return Decoded::Failed;
        }
        ch = ch + 1;
    }
    if width != 0 && frames > usize::MAX / width {
        proof {
            vstd::arithmetic::div_mod::lemma_fundamental_div_mod(usize::MAX as int, width as int);
            assert(frames * width > usize::MAX) by (nonlinear_arith)
                requires
                    frames >= usize::MAX as int / width as int + 1,
                    usize::MAX == width * (usize::MAX as int / width as int) + usize::MAX as int
                        % width as int,
                    (usize::MAX as int % width as int) < width,
                    width > 0,
            ;
        }
        return Decoded::Failed;
    }
    let mut samples: Vec<S> = Vec::new();
    let mut frame: usize = 0;
    proof {
        assert(0 * width == 0) by (nonlinear_arith);
    }
    while frame < frames
        invariant
            frame <= frames,
            width == channels,
            planes_cover(planes@, frames, channels),
            samples.len() == frame * width,
            forall|raw: T| call_requires(convert, (raw,)),
            forall|i: int|
                0 <= i < samples.len() ==> call_ensures(
                    convert,
                    (planes[i % (channels as int)][i / (channels as int)],),
                    #[trigger] samples[i],
                ),
        decreases frames - frame,
    {
        let mut c: usize = 0;
        proof {
            assert((frame + 1) * width == frame * width + width) by (nonlinear_arith);
        }
        while c < width
            invariant
                c <= width,
                frame < frames,
                width == channels,
                planes_cover(planes@, frames, channels),
                samples.len() == frame * width + c,
                forall|raw: T| call_requires(convert, (raw,)),
                forall|i: int|
                    0 <= i < samples.len() ==> call_ensures(
                        convert,
                        (planes[i % (channels as int)][i / (channels as int)],),
                        #[trigger] samples[i],
                    ),
            decreases width - c,
        {
            let ghost before = samples@;
            let raw = planes[c][frame];
            let sample = convert(raw);
            samples.push(sample);
            proof {
                let i = frame * width + c;
                lemma_fundamental_div_mod_converse(i, width as int, frame as int, c as int);
                assert(forall|k: int| 0 <= k < before.len() ==> samples[k] == before[k]);
            }
            c = c + 1;
        }
        frame = frame + 1;
    }
    Decoded::Samples(samples)
}

} // verus!
