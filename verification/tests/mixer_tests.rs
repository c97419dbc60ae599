use midah::error::AudioError;
use midah::gain::Gain;
use midah::manager::AudioManager;
use midah::mixer::{
    channel_source, choose_output_config, fill_output_from_buffer, loopback_volume, plan_capture,
    CaptureBuffer, ChannelSource, ConfigRange, StreamShape, EVICTION_BATCH,
};
use midah::sample::{SampleEncoding, SampleFormat, Scale};

fn mix(volume: f32) -> impl Fn(&Vec<f32>, ChannelSource) -> f32 {
    move |frame: &Vec<f32>, source: ChannelSource| {
        let sample = match source {
            ChannelSource::Silence => 0.0,
            ChannelSource::Input(i) => frame[i],
            ChannelSource::AverageOfAll => frame.iter().sum::<f32>() / frame.len() as f32,
            ChannelSource::AverageOfFirstTwo => frame.iter().take(2).sum::<f32>() / 2.0,
        };
        (sample * volume).clamp(-1.0, 1.0)
    }
}

fn filled(samples: &[f32]) -> CaptureBuffer<f32> {
    let mut buffer = CaptureBuffer::new(1_000_000);
    buffer.capture(&samples.to_vec(), |x: f32| x);
    buffer
}

#[test]
fn channel_sources_follow_the_four_rules() {
    assert_eq!(channel_source(2, 2, 1), ChannelSource::Input(1));
    assert_eq!(channel_source(1, 6, 5), ChannelSource::Input(0));
    assert_eq!(channel_source(4, 1, 0), ChannelSource::AverageOfAll);
    assert_eq!(channel_source(2, 6, 1), ChannelSource::Input(1));
    assert_eq!(channel_source(2, 6, 2), ChannelSource::AverageOfFirstTwo);
    assert_eq!(channel_source(6, 2, 1), ChannelSource::Input(1));
    assert_eq!(channel_source(0, 2, 1), ChannelSource::Silence);
    assert_eq!(channel_source(1, 1, 0), ChannelSource::Input(0));
}

#[test]
fn equal_channel_counts_pass_through() {
    let mut buffer = filled(&[0.1, 0.2, 0.3, 0.4]);
    let out = fill_output_from_buffer(4, &mut buffer, 2, 2, 0.0, mix(1.0));
    assert_eq!(out, vec![0.1, 0.2, 0.3, 0.4]);
    assert_eq!(buffer.len(), 0);
}

#[test]
fn mono_is_copied_to_every_output_channel() {
    let mut buffer = filled(&[0.5, -0.25, 0.75]);
    let out = fill_output_from_buffer(4, &mut buffer, 1, 2, 0.0, mix(1.0));
    assert_eq!(out, vec![0.5, 0.5, -0.25, -0.25]);
    assert_eq!(buffer.len(), 1);
}

#[test]
fn many_channels_into_one_are_averaged() {
    let mut buffer = filled(&[0.2, 0.4, 1.0, 0.0]);
    let out = fill_output_from_buffer(2, &mut buffer, 2, 1, 0.0, mix(1.0));
    assert!((out[0] - 0.3).abs() < 1e-6);
    assert!((out[1] - 0.5).abs() < 1e-6);
}

#[test]
fn extra_outputs_take_the_mean_of_the_first_two_inputs() {
    let mut buffer = filled(&[0.2, 0.6, 1.0]);
    let out = fill_output_from_buffer(4, &mut buffer, 3, 4, 0.0, mix(1.0));
    assert_eq!(out[0], 0.2);
    assert_eq!(out[1], 0.6);
    assert_eq!(out[2], 1.0);
    assert!((out[3] - 0.4).abs() < 1e-6);
}

#[test]
fn underrun_is_filled_with_silence() {
    let mut buffer = filled(&[0.5, 0.25, 0.125]);
    let out = fill_output_from_buffer(6, &mut buffer, 2, 2, 0.0, mix(1.0));
    assert_eq!(out, vec![0.5, 0.25, 0.125, 0.0, 0.0, 0.0]);
    assert_eq!(buffer.len(), 0);
    let out = fill_output_from_buffer(2, &mut buffer, 2, 2, 0.0, mix(1.0));
    assert_eq!(out, vec![0.0, 0.0]);
}

#[test]
fn only_whole_frames_are_rendered() {
    let mut buffer = filled(&[0.5, 0.5, 0.5, 0.5]);
    let out = fill_output_from_buffer(5, &mut buffer, 1, 2, -2.0, mix(1.0));
    assert_eq!(out, vec![0.5, 0.5, 0.5, 0.5]);
    assert_eq!(buffer.len(), 2);
    let mut device = vec![9.0f32; 5];
    for (d, s) in device.iter_mut().zip(out.iter()) {
        *d = *s;
    }
    assert_eq!(device, vec![0.5, 0.5, 0.5, 0.5, 9.0]);
    let none = fill_output_from_buffer(3, &mut buffer, 1, 0, 0.0, mix(1.0));
    assert!(none.is_empty());
    assert_eq!(buffer.len(), 2);
    let short = fill_output_from_buffer(1, &mut buffer, 1, 2, 0.0, mix(1.0));
    assert!(short.is_empty());
    assert_eq!(buffer.len(), 2);
}

#[test]
fn output_is_scaled_and_clamped() {
    let manager = {
        let mut m = AudioManager::empty();
        m.set_input_volume(500_000);
        m.set_virtual_volume(500_000);
        m
    };
    let volume = loopback_volume(&manager);
    assert_eq!(volume.trillionths(), 250_000_000_000);
    let as_float = volume.trillionths() as f32 / 1e12;
    let mut buffer = filled(&[1.0, -1.0, 3.0, -3.0]);
    let out = fill_output_from_buffer(4, &mut buffer, 1, 1, 0.0, mix(as_float));
    assert_eq!(out, vec![0.25, -0.25, 0.75, -0.75]);
    let mut buffer = filled(&[3.0, -3.0]);
    let out = fill_output_from_buffer(2, &mut buffer, 1, 1, 0.0, mix(1.0));
    assert_eq!(out, vec![1.0, -1.0]);
}

#[test]
fn capture_converts_and_appends_in_order() {
    let mut buffer: CaptureBuffer<f32> = CaptureBuffer::new(16);
    let format = SampleFormat::I16;
    let scale = format.scale().unwrap();
    buffer.capture(&vec![0i16, 32767, -32768, 16384], |x: i16| {
        format.centred(x as i64).unwrap() as f32 / scale.divisor as f32
    });
    assert_eq!(buffer.take_frame(4, 9.0), vec![0.0, 32767.0 / 32768.0, -1.0, 0.5]);
    assert_eq!(buffer.take_frame(2, 9.0), vec![9.0, 9.0]);
    assert_eq!(buffer.capacity(), 16);
}

#[test]
fn a_full_buffer_loses_its_oldest_samples() {
    let mut buffer: CaptureBuffer<u32> = CaptureBuffer::new(10);
    buffer.capture(&(0..8).collect::<Vec<u32>>(), |x: u32| x);
    assert_eq!(buffer.len(), 8);
    buffer.capture(&vec![100, 101], |x: u32| x);
    assert_eq!(buffer.len(), 10);
    buffer.capture(&vec![200, 201, 202], |x: u32| x);
    assert_eq!(buffer.len(), 10);
    assert_eq!(buffer.take_frame(10, 0), vec![3, 4, 5, 6, 7, 100, 101, 200, 201, 202]);
}

#[test]
fn a_batch_evicts_what_it_takes_to_stay_within_capacity() {
    let mut buffer: CaptureBuffer<u32> = CaptureBuffer::new(2000);
    buffer.capture(&vec![1; 2000], |x: u32| x);
    assert_eq!(buffer.len(), 2000);
    buffer.capture(&vec![2; 1500], |x: u32| x);
    assert_eq!(buffer.len(), 2000);
    buffer.capture(&vec![3; 2000], |x: u32| x);
    assert_eq!(buffer.len(), 2000);
    assert_eq!(buffer.take_frame(1, 0), vec![3]);
    buffer.capture(&vec![4; 5000], |x: u32| x);
    assert_eq!(buffer.len(), 5000);
    buffer.capture(&Vec::new(), |x: u32| x);
    assert_eq!(buffer.len(), 2000);
}

#[test]
fn at_least_one_batch_leaves_when_the_buffer_is_full() {
    let mut buffer: CaptureBuffer<u32> = CaptureBuffer::new(3000);
    buffer.capture(&(0..2900).collect::<Vec<u32>>(), |x: u32| x);
    buffer.capture(&vec![7; 200], |x: u32| x);
    assert_eq!(buffer.len(), 2900);
    assert_eq!(buffer.take_frame(1, 0), vec![200]);
    let mut wide: CaptureBuffer<u32> = CaptureBuffer::new(3000);
    wide.capture(&(0..2900).collect::<Vec<u32>>(), |x: u32| x);
    wide.capture(&vec![7; 1100], |x: u32| x);
    assert_eq!(wide.len(), 2900 - EVICTION_BATCH + 1100);
    assert_eq!(wide.take_frame(1, 0), vec![EVICTION_BATCH as u32]);
    let mut small: CaptureBuffer<u32> = CaptureBuffer::new(10);
    small.capture(&vec![1, 2, 3], |x: u32| x);
    small.capture(&vec![7; 8], |x: u32| x);
    assert_eq!(small.len(), 8);
    let mut tiny: CaptureBuffer<u32> = CaptureBuffer::new(0);
    tiny.capture(&vec![1, 2], |x: u32| x);
    assert_eq!(tiny.len(), 2);
    tiny.capture(&vec![3], |x: u32| x);
    assert_eq!(tiny.take_frame(2, 0), vec![3, 0]);
}

#[test]
fn buffer_holds_two_seconds_of_input() {
    let buffer: CaptureBuffer<f32> = CaptureBuffer::for_stream(48_000, 2);
    assert_eq!(buffer.capacity(), 192_000);
    assert_eq!(buffer.len(), 0);
    let none: CaptureBuffer<f32> = CaptureBuffer::for_stream(44_100, 0);
    assert_eq!(none.capacity(), 0);
}

fn range(channels: u16, min: u32, max: u32, format: SampleFormat) -> ConfigRange {
    ConfigRange { channels, min_sample_rate: min, max_sample_rate: max, sample_format: format }
}

#[test]
fn output_runs_at_the_input_rate_where_a_range_allows_it() {
    let ranges = Some(vec![
        range(2, 8_000, 32_000, SampleFormat::I16),
        range(6, 44_100, 96_000, SampleFormat::F32),
        range(2, 44_100, 48_000, SampleFormat::U8),
    ]);
    let default = Some(StreamShape { channels: 2, sample_rate: 22_050, sample_format: SampleFormat::I32 });
    assert_eq!(
        choose_output_config(48_000, &ranges, &default),
        Some(StreamShape { channels: 6, sample_rate: 48_000, sample_format: SampleFormat::F32 })
    );
    assert_eq!(
        choose_output_config(8_000, &ranges, &default),
        Some(StreamShape { channels: 2, sample_rate: 8_000, sample_format: SampleFormat::I16 })
    );
    assert_eq!(choose_output_config(192_000, &ranges, &default), default);
    assert_eq!(choose_output_config(48_000, &None, &default), default);
    assert_eq!(choose_output_config(48_000, &Some(Vec::new()), &None), None);
}

#[test]
fn capture_plan_names_both_shapes_and_the_capacity() {
    let input = StreamShape { channels: 1, sample_rate: 16_000, sample_format: SampleFormat::I16 };
    let ranges = Some(vec![range(2, 8_000, 48_000, SampleFormat::F32)]);
    let plan = plan_capture(input, &ranges, &None).unwrap();
    assert_eq!(plan.input, input);
    assert_eq!(
        plan.output,
        StreamShape { channels: 2, sample_rate: 16_000, sample_format: SampleFormat::F32 }
    );
    assert_eq!(plan.buffer_capacity, 32_000);
    assert_eq!(plan_capture(input, &Some(Vec::new()), &None), Err(AudioError::StreamConstructionFailed));
    let odd = StreamShape { channels: 1, sample_rate: 16_000, sample_format: SampleFormat::I64 };
    assert_eq!(plan_capture(odd, &ranges, &None), Err(AudioError::UnsupportedSampleEncoding));
    let odd_out = Some(vec![range(2, 8_000, 48_000, SampleFormat::U64)]);
    assert_eq!(plan_capture(input, &odd_out, &None), Err(AudioError::UnsupportedSampleEncoding));
}

#[test]
fn each_format_has_its_offset_and_divisor() {
    assert_eq!(SampleFormat::I8.scale(), Some(Scale { offset: 0, divisor: 128 }));
    assert_eq!(SampleFormat::I16.scale(), Some(Scale { offset: 0, divisor: 32_768 }));
    assert_eq!(SampleFormat::I32.scale(), Some(Scale { offset: 0, divisor: 2_147_483_648 }));
    assert_eq!(SampleFormat::U8.scale(), Some(Scale { offset: 128, divisor: 128 }));
    assert_eq!(SampleFormat::U16.scale(), Some(Scale { offset: 32_768, divisor: 32_768 }));
    assert_eq!(SampleFormat::U32.scale(), Some(Scale { offset: 2_147_483_648, divisor: 2_147_483_648 }));
    assert_eq!(SampleFormat::F32.scale(), Some(Scale { offset: 0, divisor: 1 }));
    assert_eq!(SampleFormat::F64.scale(), Some(Scale { offset: 0, divisor: 1 }));
    assert_eq!(SampleFormat::I64.scale(), None);
    assert!(!SampleFormat::U64.is_supported());
    assert!(SampleFormat::U8.is_supported());
    assert_eq!(SampleEncoding::S24.scale(), Some(Scale { offset: 0, divisor: 8_388_608 }));
    assert_eq!(SampleEncoding::S16.scale(), Some(Scale { offset: 0, divisor: 32_768 }));
    assert_eq!(SampleEncoding::S32.scale(), Some(Scale { offset: 0, divisor: 2_147_483_648 }));
    assert_eq!(SampleEncoding::U8.scale(), Some(Scale { offset: 128, divisor: 128 }));
    assert_eq!(SampleEncoding::F32.scale(), Some(Scale { offset: 0, divisor: 1 }));
    for unsupported in [
        SampleEncoding::U16,
        SampleEncoding::U24,
        SampleEncoding::U32,
        SampleEncoding::S8,
        SampleEncoding::F64,
    ] {
        assert_eq!(unsupported.scale(), None);
    }
    let u8_scale = SampleEncoding::U8.scale().unwrap();
    let low = (0.0 - u8_scale.offset as f32) / u8_scale.divisor as f32;
    let high = (255.0 - u8_scale.offset as f32) / u8_scale.divisor as f32;
    assert_eq!(low, -1.0);
    assert_eq!(high, 0.9921875);
}

#[test]
fn every_raw_sample_is_centred_within_the_divisor() {
    assert_eq!(SampleFormat::I16.centred(-32_768), Some(-32_768));
    assert_eq!(SampleFormat::I16.centred(32_767), Some(32_767));
    assert_eq!(SampleFormat::I16.centred(32_768), None);
    assert_eq!(SampleFormat::I8.centred(-128), Some(-128));
    assert_eq!(SampleFormat::I8.centred(-129), None);
    assert_eq!(SampleFormat::I32.centred(i32::MIN as i64), Some(-2_147_483_648));
    assert_eq!(SampleFormat::U8.centred(0), Some(-128));
    assert_eq!(SampleFormat::U8.centred(255), Some(127));
    assert_eq!(SampleFormat::U8.centred(256), None);
    assert_eq!(SampleFormat::U16.centred(0), Some(-32_768));
    assert_eq!(SampleFormat::U32.centred(4_294_967_295), Some(2_147_483_647));
    assert_eq!(SampleFormat::F32.centred(0), None);
    assert_eq!(SampleFormat::I64.centred(0), None);
    assert_eq!(SampleEncoding::S16.centred(-32_768), Some(-32_768));
    assert_eq!(SampleEncoding::S24.centred(-8_388_608), Some(-8_388_608));
    assert_eq!(SampleEncoding::S24.centred(8_388_608), None);
    assert_eq!(SampleEncoding::S32.centred(i32::MIN as i64), Some(-2_147_483_648));
    assert_eq!(SampleEncoding::U8.centred(128), Some(0));
    assert_eq!(SampleEncoding::U16.centred(5), None);
    assert_eq!(SampleEncoding::F32.centred(5), None);
    for (encoding, least, greatest) in [
        (SampleEncoding::S16, -32_768i64, 32_767i64),
        (SampleEncoding::S24, -8_388_608, 8_388_607),
        (SampleEncoding::S32, -2_147_483_648, 2_147_483_647),
        (SampleEncoding::U8, 0, 255),
    ] {
        let divisor = encoding.scale().unwrap().divisor;
        let low = encoding.centred(least).unwrap() as f64 / divisor as f64;
        let high = encoding.centred(greatest).unwrap() as f64 / divisor as f64;
        assert_eq!(low, -1.0);
        assert!(high < 1.0 && high > 0.99);
    }
}

#[test]
fn instance_gains_compose_with_the_sound_gain() {
    let v = midah::gain::combine_volume(Gain::clamped(250_000), Gain::clamped(400_000));
    assert_eq!(v.trillionths(), 100_000_000_000);
}
