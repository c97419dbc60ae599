//! Sample encodings and how each is brought to the normalised range.
//!
//! A raw integer sample stands for the fraction `(raw - offset) / divisor`.
//! The library names the two integers; the division itself is carried out in
//! floating point by the caller.

use vstd::prelude::*;

verus! {

/// The sample formats of a device stream.
#[derive(Clone, Copy, Debug, PartialEq, Eq, Structural)]
pub enum SampleFormat {
    I8,
    I16,
    I32,
    I64,
    U8,
    U16,
    U32,
    U64,
    F32,
    F64,
}

/// The sample encodings of a decoded buffer.
#[derive(Clone, Copy, Debug, PartialEq, Eq, Structural)]
pub enum SampleEncoding {
    U8,
    U16,
    U24,
    U32,
    S8,
    S16,
    S24,
    S32,
    F32,
    F64,
}

/// The least and the greatest raw value of an integer sample.
pub struct RawRange {
    pub least: int,
    pub greatest: int,
}

/// How a raw sample is centred and scaled: it stands for
/// `(raw - offset) / divisor`.
#[derive(Clone, Copy, Debug, PartialEq, Eq, Structural)]
pub struct Scale {
    pub offset: i64,
    pub divisor: i64,
}

impl SampleFormat {
    /// The scale of a device format; `None` for the formats that the
    /// loopback does not handle. Floating formats pass through unchanged.
    pub open spec fn spec_scale(self) -> Option<Scale> {
        match self {
            SampleFormat::I8 => Some(Scale { offset: 0, divisor: 128 }),
            SampleFormat::I16 => Some(Scale { offset: 0, divisor: 32768 }),
            SampleFormat::I32 => Some(Scale { offset: 0, divisor: 2147483648 }),
            SampleFormat::U8 => Some(Scale { offset: 128, divisor: 128 }),
            SampleFormat::U16 => Some(Scale { offset: 32768, divisor: 32768 }),
            SampleFormat::U32 => Some(Scale { offset: 2147483648, divisor: 2147483648 }),
            SampleFormat::F32 => Some(Scale { offset: 0, divisor: 1 }),
            SampleFormat::F64 => Some(Scale { offset: 0, divisor: 1 }),
            SampleFormat::I64 => None,
            SampleFormat::U64 => None,
        }
    }

    /// The least and the greatest raw value of an integer format.
    pub open spec fn spec_range(self) -> Option<RawRange> {
        match self {
            SampleFormat::I8 => Some(RawRange { least: -128, greatest: 127 }),
            SampleFormat::I16 => Some(RawRange { least: -32768, greatest: 32767 }),
            SampleFormat::I32 => Some(RawRange { least: -2147483648, greatest: 2147483647 }),
            SampleFormat::U8 => Some(RawRange { least: 0, greatest: 255 }),
            SampleFormat::U16 => Some(RawRange { least: 0, greatest: 65535 }),
            SampleFormat::U32 => Some(RawRange { least: 0, greatest: 4294967295 }),
            _ => None,
        }
    }

    /// The scale of a device format, if the loopback handles it.
    pub fn scale(&self) -> (s: Option<Scale>)
        ensures
            s == self.spec_scale(),
    {
        match self {
            SampleFormat::I8 => Some(Scale { offset: 0, divisor: 128 }),
            SampleFormat::I16 => Some(Scale { offset: 0, divisor: 32768 }),
            SampleFormat::I32 => Some(Scale { offset: 0, divisor: 2147483648 }),
            SampleFormat::U8 => Some(Scale { offset: 128, divisor: 128 }),
            SampleFormat::U16 => Some(Scale { offset: 32768, divisor: 32768 }),
            SampleFormat::U32 => Some(Scale { offset: 2147483648, divisor: 2147483648 }),
            SampleFormat::F32 => Some(Scale { offset: 0, divisor: 1 }),
            SampleFormat::F64 => Some(Scale { offset: 0, divisor: 1 }),
            SampleFormat::I64 => None,
            SampleFormat::U64 => None,
        }
    }

    /// Whether the loopback handles streams of this format.
    pub fn is_supported(&self) -> (supported: bool)
        ensures
            supported == (self.spec_scale() is Some),
    {
        self.scale().is_some()
    }

    /// The centred value of a raw sample of an integer format that the
    /// loopback handles.
    pub open spec fn spec_centred(self, raw: i64) -> Option<i64> {
        if self.spec_scale() is Some && self.spec_range() is Some && self.spec_range()->0.least
            <= raw <= self.spec_range()->0.greatest {
            Some((raw - self.spec_scale()->0.offset) as i64)
        } else {
            None
        }
    }

    /// Centres a raw sample of an integer format: the result, divided by
    /// the divisor of the format, is the normalised sample, and it lies
    /// between minus the divisor and the divisor. There is none for a
    /// floating format, for a format that is not handled, and for a value
    /// that the format cannot hold.
    pub fn centred(&self, raw: i64) -> (centred: Option<i64>)
        ensures
            centred == self.spec_centred(raw),
            centred is Some ==> -self.spec_scale()->0.divisor <= centred->0
                <= self.spec_scale()->0.divisor,
    {
        let (least, greatest): (i64, i64) = match self {
            SampleFormat::I8 => (-128, 127),
            SampleFormat::I16 => (-32768, 32767),
            SampleFormat::I32 => (-2147483648, 2147483647),
            SampleFormat::U8 => (0, 255),
            SampleFormat::U16 => (0, 65535),
            SampleFormat::U32 => (0, 4294967295),
            _ => {
                return None;
            },
        };
        match self.scale() {
            Some(scale) => if least <= raw && raw <= greatest {
                Some(raw - scale.offset)
            } else {
                None
            },
            None => None,
        }
    }
}

impl SampleEncoding {
    /// The scale of a decoded encoding; `None` for the encodings that the
    /// decoder does not handle.
    pub open spec fn spec_scale(self) -> Option<Scale> {
        match self {
            SampleEncoding::F32 => Some(Scale { offset: 0, divisor: 1 }),
            SampleEncoding::S16 => Some(Scale { offset: 0, divisor: 32768 }),
            SampleEncoding::S24 => Some(Scale { offset: 0, divisor: 8388608 }),
            SampleEncoding::S32 => Some(Scale { offset: 0, divisor: 2147483648 }),
            SampleEncoding::U8 => Some(Scale { offset: 128, divisor: 128 }),
            _ => None,
        }
    }

    /// The least and the greatest raw value of an integer encoding.
    pub open spec fn spec_range(self) -> Option<RawRange> {
        match self {
            SampleEncoding::U8 => Some(RawRange { least: 0, greatest: 255 }),
            SampleEncoding::U16 => Some(RawRange { least: 0, greatest: 65535 }),
            SampleEncoding::U24 => Some(RawRange { least: 0, greatest: 16777215 }),
            SampleEncoding::U32 => Some(RawRange { least: 0, greatest: 4294967295 }),
            SampleEncoding::S8 => Some(RawRange { least: -128, greatest: 127 }),
            SampleEncoding::S16 => Some(RawRange { least: -32768, greatest: 32767 }),
            SampleEncoding::S24 => Some(RawRange { least: -8388608, greatest: 8388607 }),
            SampleEncoding::S32 => Some(RawRange { least: -2147483648, greatest: 2147483647 }),
            _ => None,
        }
    }

    /// The scale of a decoded encoding, if the decoder handles it.
    pub fn scale(&self) -> (s: Option<Scale>)
        ensures
            s == self.spec_scale(),
    {
        match self {
            SampleEncoding::F32 => Some(Scale { offset: 0, divisor: 1 }),
            SampleEncoding::S16 => Some(Scale { offset: 0, divisor: 32768 }),
            SampleEncoding::S24 => Some(Scale { offset: 0, divisor: 8388608 }),
            SampleEncoding::S32 => Some(Scale { offset: 0, divisor: 2147483648 }),
            SampleEncoding::U8 => Some(Scale { offset: 128, divisor: 128 }),
            _ => None,
        }
    }

    /// The centred value of a raw sample of an integer encoding that the
    /// decoder handles.
    pub open spec fn spec_centred(self, raw: i64) -> Option<i64> {
        if self.spec_scale() is Some && self.spec_range() is Some && self.spec_range()->0.least
            <= raw <= self.spec_range()->0.greatest {
            Some((raw - self.spec_scale()->0.offset) as i64)
        } else {
            None
        }
    }

    /// Centres a raw sample of an integer encoding: the result, divided by
    /// the divisor of the encoding, is the normalised sample, and it lies
    /// between minus the divisor and the divisor. There is none for a
    /// floating encoding, for an encoding that is not handled, and for a
    /// value that the encoding cannot hold.
    pub fn centred(&self, raw: i64) -> (centred: Option<i64>)
        ensures
            centred == self.spec_centred(raw),
            centred is Some ==> -self.spec_scale()->0.divisor <= centred->0
                <= self.spec_scale()->0.divisor,
    {
        let (least, greatest): (i64, i64) = match self {
            SampleEncoding::U8 => (0, 255),
            SampleEncoding::S16 => (-32768, 32767),
            SampleEncoding::S24 => (-8388608, 8388607),
            SampleEncoding::S32 => (-2147483648, 2147483647),
            _ => {
                return None;
            },
        };
        match self.scale() {
            Some(scale) => if least <= raw && raw <= greatest {
                Some(raw - scale.offset)
            } else {
                None
            },
            None => None,
        }
    }
}

/// Every raw sample of a handled device format, centred, lies between minus
/// the divisor and the divisor: the fraction that it stands for lies between
/// minus one and one.
pub proof fn lemma_format_scale_bounds(format: SampleFormat, raw: int)
    requires
        format.spec_range() is Some,
        format.spec_scale() is Some,
        format.spec_range()->0.least <= raw <= format.spec_range()->0.greatest,
    ensures
        format.spec_scale()->0.divisor > 0,
        -format.spec_scale()->0.divisor <= raw - format.spec_scale()->0.offset
            <= format.spec_scale()->0.divisor,
{
}

/// Every raw sample of a handled decoded encoding, centred, lies between
/// minus the divisor and the divisor: the fraction that it stands for lies
/// between minus one and one.
pub proof fn lemma_encoding_scale_bounds(encoding: SampleEncoding, raw: int)
    requires
        encoding.spec_range() is Some,
        encoding.spec_scale() is Some,
        encoding.spec_range()->0.least <= raw <= encoding.spec_range()->0.greatest,
    ensures
        encoding.spec_scale()->0.divisor > 0,
        -encoding.spec_scale()->0.divisor <= raw - encoding.spec_scale()->0.offset
            <= encoding.spec_scale()->0.divisor,
{
}

/// The divisor of an integer format is its greatest magnitude: the least
/// raw sample stands for minus one exactly.
pub proof fn lemma_scale_reaches_minus_one(format: SampleFormat, encoding: SampleEncoding)
    ensures
        format.spec_range() is Some && format.spec_scale() is Some
            ==> format.spec_range()->0.least - format.spec_scale()->0.offset
            == -format.spec_scale()->0.divisor,
        encoding.spec_range() is Some && encoding.spec_scale() is Some
            ==> encoding.spec_range()->0.least - encoding.spec_scale()->0.offset
            == -encoding.spec_scale()->0.divisor,
{
}

} // verus!
