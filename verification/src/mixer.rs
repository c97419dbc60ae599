//! The microphone loopback: a bounded buffer between the capture and the
//! render side, the mapping of input channels to output channels, and the
//! choice of the output stream's shape.
//!
//! The buffer and the frame logic are generic in the sample type. Whatever
//! arithmetic a sample needs is handed in by the caller as a function.

use std::collections::VecDeque;
use vstd::prelude::*;
use vstd::arithmetic::div_mod::{lemma_fundamental_div_mod, lemma_fundamental_div_mod_converse};
use crate::error::AudioError;
use crate::gain::{combine_volume, Volume};
use crate::manager::AudioManager;
use crate::sample::SampleFormat;

verus! {

/// The most samples that one capture batch evicts.
pub const EVICTION_BATCH: usize = 1024;

/// Where the sample of one output channel comes from.
#[derive(Clone, Copy, Debug, PartialEq, Eq, Structural)]
pub enum ChannelSource {
    /// There is no input channel: the output is silent.
    Silence,
    /// The sample of the input channel with this index.
    Input(usize),
    /// The mean of all input channels.
    AverageOfAll,
    /// The mean of the first two input channels.
    AverageOfFirstTwo,
}

/// The source of output channel `c` when `in_ch` input channels feed
/// `out_ch` output channels.
pub open spec fn spec_channel_source(in_ch: usize, out_ch: usize, c: usize) -> ChannelSource {
    if in_ch == 0 {
        ChannelSource::Silence
    } else if in_ch == out_ch {
        ChannelSource::Input(c)
    } else if in_ch == 1 {
        ChannelSource::Input(0)
    } else if out_ch == 1 {
        ChannelSource::AverageOfAll
    } else if c < in_ch {
        ChannelSource::Input(c)
    } else {
        ChannelSource::AverageOfFirstTwo
    }
}

/// The source of output channel `c`: equal channel counts pass through, a
/// single input channel is copied to every output, several inputs into one
/// output are averaged, and otherwise the leading channels are copied and
/// each further output takes the mean of the first two inputs.
pub fn channel_source(in_ch: usize, out_ch: usize, c: usize) -> (source: ChannelSource)
    ensures
        source == spec_channel_source(in_ch, out_ch, c),
{
    if in_ch == 0 {
        ChannelSource::Silence
    } else if in_ch == out_ch {
        ChannelSource::Input(c)
    } else if in_ch == 1 {
        ChannelSource::Input(0)
    } else if out_ch == 1 {
        ChannelSource::AverageOfAll
    } else if c < in_ch {
        ChannelSource::Input(c)
    } else {
        ChannelSource::AverageOfFirstTwo
    }
}

/// A copied input channel always exists, and the mean of the first two is
/// only asked for when there are two.
pub proof fn lemma_channel_source_in_range(in_ch: usize, out_ch: usize, c: usize)
    requires
        c < out_ch,
    ensures
        match spec_channel_source(in_ch, out_ch, c) {
            ChannelSource::Input(i) => i < in_ch,
            ChannelSource::AverageOfFirstTwo => in_ch >= 2,
            ChannelSource::AverageOfAll => in_ch >= 2 && out_ch == 1,
            ChannelSource::Silence => in_ch == 0,
        },
{
}

/// How many of the oldest samples leave a buffer of `len` samples and the
/// given capacity before a batch of `incoming` samples is appended. Nothing
/// leaves while the batch fits. Otherwise a batch of the oldest leaves: as
/// many as come in, up to `EVICTION_BATCH`, and more where more must leave
/// for the buffer to stay within its capacity; never more than are there.
pub open spec fn spec_evicted(len: nat, capacity: nat, incoming: nat) -> nat {
    if len + incoming <= capacity {
        0
    } else {
        let batch: int = spec_min(incoming as int, EVICTION_BATCH as int);
        let needed: int = len + incoming - capacity;
        let wanted: int = if batch >= needed {
            batch
        } else {
            needed
        };
        spec_min(wanted, len as int) as nat
    }
}

/// The greater of two numbers.
pub open spec fn spec_max(a: int, b: int) -> int {
    if a > b {
        a
    } else {
        b
    }
}

/// The input frame with index `f` that the render side reads from `queued`:
/// `in_ch` samples, with `silence` wherever the queue has run dry.
pub open spec fn spec_frame<S>(queued: Seq<S>, in_ch: usize, f: int, silence: S) -> Seq<S> {
    Seq::new(
        in_ch as nat,
        |c: int|
            if f * in_ch + c < queued.len() {
                queued[f * in_ch + c]
            } else {
                silence
            },
    )
}

/// The smaller of two numbers.
pub open spec fn spec_min(a: int, b: int) -> int {
    if a < b {
        a
    } else {
        b
    }
}

/// The samples that wait between the capture side and the render side.
pub struct CaptureBuffer<S> {
    samples: VecDeque<S>,
    capacity: usize,
}

impl<S: Copy> CaptureBuffer<S> {
    /// The waiting samples, oldest first.
    pub closed spec fn view(&self) -> Seq<S> {
        self.samples@
    }

    /// The number of samples beyond which the oldest are evicted.
    pub closed spec fn spec_capacity(&self) -> nat {
        self.capacity as nat
    }

    /// An empty buffer of the given capacity.
    pub fn new(capacity: usize) -> (buffer: Self)
        ensures
            buffer@.len() == 0,
            buffer.spec_capacity() == capacity,
    {
        CaptureBuffer { samples: VecDeque::new(), capacity }
    }

    /// An empty buffer that holds two seconds of an input stream, or as much
    /// as an index can count.
    pub fn for_stream(sample_rate: u32, channels: u16) -> (buffer: Self)
        ensures
            buffer@.len() == 0,
            buffer.spec_capacity() == spec_min(sample_rate * channels * 2, usize::MAX as int),
    {
        assert(sample_rate * channels <= 0xffff_ffff * 0xffff) by (nonlinear_arith)
            requires
                sample_rate <= 0xffff_ffff,
                channels <= 0xffff,
        ;
        let wanted: u64 = (sample_rate as u64) * (channels as u64) * 2;
        let capacity: usize = if wanted > usize::MAX as u64 {
            usize::MAX
        } else {
            wanted as usize
        };
        CaptureBuffer { samples: VecDeque::new(), capacity }
    }

    /// The number of waiting samples.
    pub fn len(&self) -> (n: usize)
        ensures
            n == self@.len(),
    {
        self.samples.len()
    }

    /// The number of samples beyond which the oldest are evicted.
    pub fn capacity(&self) -> (n: usize)
        ensures
            n == self.spec_capacity(),
    {
        self.capacity
    }

    /// Takes in one batch from the capture side. If the batch does not fit
    /// under the capacity, up to `EVICTION_BATCH` of the oldest samples (or as
    /// many as the batch holds, if fewer) leave first. Then every incoming
    /// sample is converted and appended in order.
    pub fn capture<T: Copy, F: Fn(T) -> S>(&mut self, data: &Vec<T>, converter: F)
        requires
            forall|i: int| 0 <= i < data.len() ==> call_requires(converter, (data[i],)),
        ensures
            final(self).spec_capacity() == old(self).spec_capacity(),
            final(self)@.len() == old(self)@.len() - spec_evicted(
                old(self)@.len(),
                old(self).spec_capacity(),
                data.len() as nat,
            ) + data.len(),
            final(self)@.take(final(self)@.len() - data.len()) == old(self)@.skip(
                spec_evicted(old(self)@.len(), old(self).spec_capacity(), data.len() as nat) as int,
            ),
            final(self)@.len() <= spec_max(old(self).spec_capacity() as int, data.len() as int),
            forall|i: int|
                0 <= i < data.len() ==> call_ensures(
                    converter,
                    (data[i],),
                    #[trigger] final(self)@[final(self)@.len() - data.len() + i],
                ),
    {
        let incoming: usize = data.len();
        let ghost before = self.samples@;
        let held: usize = self.samples.len();
        let mut drain: usize = 0;
        if incoming > self.capacity {
            drain = held;
        } else if held > self.capacity - incoming {
            let needed: usize = held - (self.capacity - incoming);
            let batch: usize = if incoming < EVICTION_BATCH {
                incoming
            } else {
                EVICTION_BATCH
            };
            drain = if batch >= needed {
                batch
            } else {
                needed
            };
            if drain > held {
                drain = held;
            }
        }
        assert(drain == spec_evicted(before.len(), self.capacity as nat, incoming as nat));
        let mut gone: usize = 0;
        while gone < drain
            invariant
                gone <= drain <= before.len(),
                self.samples@ == before.skip(gone as int),
                self.capacity == old(self).capacity,
            decreases drain - gone,
        {
            let _ = self.samples.pop_front();
            assert(before.skip(gone as int).subrange(1, before.len() - gone) == before.skip(
                gone + 1,
            ));
            gone = gone + 1;
        }
        let ghost kept = before.skip(drain as int);
        let mut i: usize = 0;
        while i < incoming
            invariant
                i <= incoming,
                incoming == data.len(),
                self.capacity == old(self).capacity,
                self.samples@.len() == kept.len() + i,
                self.samples@.take(kept.len() as int) == kept,
                forall|k: int| 0 <= k < data.len() ==> call_requires(converter, (data[k],)),
                forall|k: int|
                    0 <= k < i ==> call_ensures(
                        converter,
                        (data[k],),
                        #[trigger] self.samples@[kept.len() + k],
                    ),
            decreases incoming - i,
        {
            let ghost so_far = self.samples@;
            let sample = converter(data[i]);
            self.samples.push_back(sample);
            assert(self.samples@.take(kept.len() as int) == so_far.take(kept.len() as int));
            assert(forall|k: int| 0 <= k < i ==> #[trigger] self.samples@[kept.len() + k] == so_far[kept.len() + k]);
            i = i + 1;
        }
    }

    /// Takes the next input frame for the render side: `channels` samples
    /// from the front of the buffer, with `silence` in place of each sample
    /// that the buffer no longer holds.
    pub fn take_frame(&mut self, channels: usize, silence: S) -> (frame: Vec<S>)
        ensures
            final(self).spec_capacity() == old(self).spec_capacity(),
            frame@ == spec_frame(old(self)@, channels, 0, silence),
            final(self)@ == old(self)@.skip(spec_min(channels as int, old(self)@.len() as int)),
    {
        let ghost before = self.samples@;
        let mut frame: Vec<S> = Vec::new();
        let mut c: usize = 0;
        while c < channels
            invariant
                c <= channels,
                frame.len() == c,
                self.capacity == old(self).capacity,
                self.samples@ == before.skip(spec_min(c as int, before.len() as int)),
                forall|k: int|
                    0 <= k < c ==> frame[k] == if k < before.len() {
                        before[k]
                    } else {
                        silence
                    },
            decreases channels - c,
        {
            match self.samples.pop_front() {
                Some(s) => {
                    assert(before.skip(c as int).subrange(1, before.len() - c) == before.skip(c + 1));
                    frame.push(s);
                },
                None => {
                    frame.push(silence);
                },
            }
            c = c + 1;
        }
        assert(frame@ =~= spec_frame(before, channels, 0, silence));
        frame
    }
}

/// The number of whole output frames in a device buffer of `len` samples.
pub open spec fn spec_frames(len: usize, out_ch: usize) -> int {
    if out_ch == 0 {
        0
    } else {
        len as int / out_ch as int
    }
}

/// Whether `sample` is what `mix` may return for position `i` of a device
/// buffer: the mix of input frame `i / out_ch` for output channel `i % out_ch`.
pub open spec fn spec_rendered<S, F: Fn(&Vec<S>, ChannelSource) -> S>(
    queued: Seq<S>,
    in_ch: usize,
    out_ch: usize,
    silence: S,
    mix: F,
    i: int,
    sample: S,
) -> bool {
    exists|frame: &Vec<S>|
        frame@ == spec_frame(queued, in_ch, i / out_ch as int, silence) && call_ensures(
            mix,
            (frame, spec_channel_source(in_ch, out_ch, (i % out_ch as int) as usize)),
            sample,
        )
}

/// Reading frame `f` of a queue is reading the first frame of what is left
/// after `f` frames.
proof fn lemma_frame_after_skip<S>(queued: Seq<S>, in_ch: usize, f: int, silence: S)
    requires
        0 <= f,
    ensures
        spec_frame(queued.skip(spec_min(f * in_ch, queued.len() as int)), in_ch, 0, silence)
            == spec_frame(queued, in_ch, f, silence),
        queued.skip(spec_min(f * in_ch, queued.len() as int)).skip(
            spec_min(
                in_ch as int,
                queued.skip(spec_min(f * in_ch, queued.len() as int)).len() as int,
            ),
        ) == queued.skip(spec_min((f + 1) * in_ch, queued.len() as int)),
{
    assert(0 <= f * in_ch) by (nonlinear_arith)
        requires
            0 <= f,
            0 <= in_ch,
    ;
    assert((f + 1) * in_ch == f * in_ch + in_ch) by (nonlinear_arith);
    let rest = queued.skip(spec_min(f * in_ch, queued.len() as int));
    assert(spec_frame(rest, in_ch, 0, silence) =~= spec_frame(queued, in_ch, f, silence));
    assert(rest.skip(spec_min(in_ch as int, rest.len() as int)) =~= queued.skip(
        spec_min((f + 1) * in_ch, queued.len() as int),
    ));
}

/// Renders the whole output frames of a device buffer of `len` samples from
/// the waiting input. For each whole output frame one input frame of
/// `in_ch` samples is taken from the buffer, with `silence` on underrun, and
/// every output channel gets what `mix` makes of that frame and the
/// channel's source. Nothing is rendered for the samples beyond the last
/// whole frame: they are the caller's to leave as they are.
pub fn fill_output_from_buffer<S: Copy, F: Fn(&Vec<S>, ChannelSource) -> S>(
    len: usize,
    buffer: &mut CaptureBuffer<S>,
    in_ch: usize,
    out_ch: usize,
    silence: S,
    mix: F,
) -> (data: Vec<S>)
    requires
        forall|frame: &Vec<S>, source: ChannelSource|
            frame@.len() == in_ch ==> call_requires(mix, (frame, source)),
    ensures
        data.len() == spec_frames(len, out_ch) * out_ch,
        data.len() <= len,
        final(buffer).spec_capacity() == old(buffer).spec_capacity(),
        final(buffer)@ == old(buffer)@.skip(
            spec_min(spec_frames(len, out_ch) * in_ch, old(buffer)@.len() as int),
        ),
        forall|i: int|
            0 <= i < data.len() ==> spec_rendered(
                old(buffer)@,
                in_ch,
                out_ch,
                silence,
                mix,
                i,
                #[trigger] data[i],
            ),
{
    let ghost queued = buffer@;
    let frames: usize = if out_ch == 0 {
        0
    } else {
        len / out_ch
    };
    proof {
        if out_ch != 0 {
            lemma_fundamental_div_mod(len as int, out_ch as int);
            assert(0 <= frames * out_ch <= len) by (nonlinear_arith)
                requires
                    len == out_ch * (len as int / out_ch as int) + (len as int % out_ch as int),
                    0 <= len as int % out_ch as int,
                    frames == len as int / out_ch as int,
                    0 <= frames,
                    0 < out_ch,
            ;
        }
        assert(queued.skip(0) =~= queued);
        assert(0 * in_ch == 0) by (nonlinear_arith);
        assert(0 * out_ch == 0) by (nonlinear_arith);
    }
    let mut data: Vec<S> = Vec::new();
    let mut f: usize = 0;
    while f < frames
        invariant
            f <= frames,
            frames == spec_frames(len, out_ch),
            0 <= frames * out_ch <= len,
            data.len() == f * out_ch,
            buffer.spec_capacity() == old(buffer).spec_capacity(),
            buffer@ == queued.skip(spec_min(f * in_ch, queued.len() as int)),
            forall|frame: &Vec<S>, source: ChannelSource|
                frame@.len() == in_ch ==> call_requires(mix, (frame, source)),
            forall|i: int|
                0 <= i < data.len() ==> spec_rendered(
                    queued,
                    in_ch,
                    out_ch,
                    silence,
                    mix,
                    i,
                    #[trigger] data[i],
                ),
        decreases frames - f,
    {
        proof {
            lemma_frame_after_skip(queued, in_ch, f as int, silence);
            assert((f + 1) * out_ch == f * out_ch + out_ch) by (nonlinear_arith);
            assert((f + 1) * out_ch <= frames * out_ch) by (nonlinear_arith)
                requires
                    f + 1 <= frames,
                    0 <= out_ch,
            ;
        }
        let inputs = buffer.take_frame(in_ch, silence);
        let mut c: usize = 0;
        while c < out_ch
            invariant
                c <= out_ch,
                f < frames,
                data.len() == f * out_ch + c,
                f * out_ch + out_ch <= len,
                inputs@ == spec_frame(queued, in_ch, f as int, silence),
                forall|frame: &Vec<S>, source: ChannelSource|
                    frame@.len() == in_ch ==> call_requires(mix, (frame, source)),
                forall|i: int|
                    0 <= i < data.len() ==> spec_rendered(
                        queued,
                        in_ch,
                        out_ch,
                        silence,
                        mix,
                        i,
                        #[trigger] data[i],
                    ),
            decreases out_ch - c,
        {
            let ghost before = data@;
            let source = channel_source(in_ch, out_ch, c);
            let sample = mix(&inputs, source);
            data.push(sample);
            proof {
                let i = f * out_ch + c;
                lemma_fundamental_div_mod_converse(i, out_ch as int, f as int, c as int);
                assert(spec_rendered(queued, in_ch, out_ch, silence, mix, i, sample));
                assert(forall|k: int| 0 <= k < before.len() ==> data[k] == before[k]);
            }
            c = c + 1;
        }
        f = f + 1;
    }
    data
}

/// The volume of the loopback: the input gain composed with the gain of the
/// virtual device, as they stand at the time of the call.
pub fn loopback_volume(manager: &AudioManager) -> (volume: Volume)
    ensures
        volume.wf(),
        volume@ == manager@.input_volume * manager@.virtual_volume,
{
    combine_volume(manager.get_input_volume(), manager.get_virtual_volume())
}

/// A range of stream shapes that a device supports.
#[derive(Clone, Copy, Debug, PartialEq, Eq, Structural)]
pub struct ConfigRange {
    pub channels: u16,
    pub min_sample_rate: u32,
    pub max_sample_rate: u32,
    pub sample_format: SampleFormat,
}

/// The shape of one stream.
#[derive(Clone, Copy, Debug, PartialEq, Eq, Structural)]
pub struct StreamShape {
    pub channels: u16,
    pub sample_rate: u32,
    pub sample_format: SampleFormat,
}

/// Whether `range` allows streams of the given sample rate.
pub open spec fn allows_rate(range: ConfigRange, sample_rate: u32) -> bool {
    range.min_sample_rate <= sample_rate <= range.max_sample_rate
}

/// The first of `ranges` that allows the sample rate.
pub open spec fn first_allowing(ranges: Seq<ConfigRange>, sample_rate: u32) -> Option<ConfigRange>
    decreases ranges.len(),
{
    if ranges.len() == 0 {
        None
    } else if allows_rate(ranges[0], sample_rate) {
        Some(ranges[0])
    } else {
        first_allowing(ranges.drop_first(), sample_rate)
    }
}

/// The shape chosen for the output stream: that of the first supported range
/// which allows the input's sample rate, at that rate; the device's own
/// default where no range does or the ranges could not be listed.
pub open spec fn spec_output_config(
    input_sample_rate: u32,
    supported: Option<Seq<ConfigRange>>,
    default_config: Option<StreamShape>,
) -> Option<StreamShape> {
    match supported {
        Some(ranges) => match first_allowing(ranges, input_sample_rate) {
            Some(range) => Some(
                StreamShape {
                    channels: range.channels,
                    sample_rate: input_sample_rate,
                    sample_format: range.sample_format,
                },
            ),
            None => default_config,
        },
        None => default_config,
    }
}

/// The view of an optional list of ranges.
pub open spec fn ranges_view(supported: Option<Vec<ConfigRange>>) -> Option<Seq<ConfigRange>> {
    match supported {
        Some(v) => Some(v@),
        None => None,
    }
}

/// Chooses the shape of the output stream so that it runs at the input's
/// sample rate where the device allows it.
pub fn choose_output_config(
    input_sample_rate: u32,
    supported: &Option<Vec<ConfigRange>>,
    default_config: &Option<StreamShape>,
) -> (chosen: Option<StreamShape>)
    ensures
        chosen == spec_output_config(input_sample_rate, ranges_view(*supported), *default_config),
{
    match supported {
        Some(ranges) => {
            let mut i: usize = 0;
            assert(ranges@.skip(0) =~= ranges@);
            while i < ranges.len()
                invariant
                    i <= ranges.len(),
                    ranges_view(*supported) == Some(ranges@),
                    first_allowing(ranges@, input_sample_rate) == first_allowing(
                        ranges@.skip(i as int),
                        input_sample_rate,
                    ),
                decreases ranges.len() - i,
            {
                let r = ranges[i];
                assert(ranges@.skip(i as int).drop_first() =~= ranges@.skip(i + 1));
                assert(ranges@.skip(i as int)[0] == r);
                if r.min_sample_rate <= input_sample_rate && r.max_sample_rate >= input_sample_rate {
                    return Some(
                        StreamShape {
                            channels: r.channels,
                            sample_rate: input_sample_rate,
                            sample_format: r.sample_format,
                        },
                    );
                }
                i = i + 1;
            }
            *default_config
        },
        None => *default_config,
    }
}

/// What the loopback needs to know before its two streams are built.
#[derive(Clone, Copy, Debug, PartialEq, Eq, Structural)]
pub struct CapturePlan {
    pub input: StreamShape,
    pub output: StreamShape,
    pub buffer_capacity: usize,
}

/// The plan that `plan_capture` settles on, if there is one.
pub open spec fn spec_capture_plan(
    input: StreamShape,
    supported: Option<Seq<ConfigRange>>,
    default_config: Option<StreamShape>,
) -> Result<CapturePlan, AudioError> {
    match spec_output_config(input.sample_rate, supported, default_config) {
        None => Err(AudioError::StreamConstructionFailed),
        Some(output) => if input.sample_format.spec_scale() is None
            || output.sample_format.spec_scale() is None {
            Err(AudioError::UnsupportedSampleEncoding)
        } else {
            Ok(
                CapturePlan {
                    input,
                    output,
                    buffer_capacity: spec_min(
                        input.sample_rate * input.channels * 2,
                        usize::MAX as int,
                    ) as usize,
                },
            )
        },
    }
}

/// Settles the shapes of the loopback's two streams and the capacity of the
/// buffer between them. There is no plan when the output device offers no
/// shape at all, or when either stream would run in a sample format that the
/// loopback does not handle.
pub fn plan_capture(
    input: StreamShape,
    supported: &Option<Vec<ConfigRange>>,
    default_config: &Option<StreamShape>,
) -> (plan: Result<CapturePlan, AudioError>)
    ensures
        plan == spec_capture_plan(input, ranges_view(*supported), *default_config),
{
    match choose_output_config(input.sample_rate, supported, default_config) {
        None => Err(AudioError::StreamConstructionFailed),
        Some(output) => {
            if !input.sample_format.is_supported() || !output.sample_format.is_supported() {
                Err(AudioError::UnsupportedSampleEncoding)
            } else {
                let buffer: CaptureBuffer<u8> = CaptureBuffer::for_stream(
                    input.sample_rate,
                    input.channels,
                );
                Ok(CapturePlan { input, output, buffer_capacity: buffer.capacity() })
            }
        },
    }
}

/// Whatever the batch, the buffer afterwards holds no more than its
/// capacity, or than the batch itself where the batch alone is larger. No
/// sample leaves while the batch fits, and where samples leave, as many
/// leave as come in, up to `EVICTION_BATCH`, if so many are there.
pub proof fn lemma_capture_is_bounded(len: nat, capacity: nat, incoming: nat)
    ensures
        spec_evicted(len, capacity, incoming) <= len,
        len - spec_evicted(len, capacity, incoming) + incoming <= spec_max(
            capacity as int,
            incoming as int,
        ),
        len + incoming <= capacity ==> spec_evicted(len, capacity, incoming) == 0,
        len + incoming > capacity ==> spec_evicted(len, capacity, incoming) >= spec_min(
            spec_min(incoming as int, EVICTION_BATCH as int),
            len as int,
        ),
{
}

} // verus!
