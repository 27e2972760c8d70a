//! Decisions of the voice recorder: which input device to use, which sample
//! types it can record, and the WAV header that describes the recording.

use vstd::prelude::*;

use crate::text::same_text;

verus! {

/// Sample formats an audio input device may deliver.
#[derive(Debug, Clone, Copy, PartialEq, Eq, Structural)]
pub enum SampleFormat {
    I8,
    I16,
    I32,
    I64,
    U8,
    U16,
    U32,
    U64,
    F32,
    F64,
}

/// Size in bytes of one sample of `format`.
pub open spec fn sample_size_spec(format: SampleFormat) -> int {
    match format {
        SampleFormat::I8 | SampleFormat::U8 => 1,
        SampleFormat::I16 | SampleFormat::U16 => 2,
        SampleFormat::I32 | SampleFormat::U32 | SampleFormat::F32 => 4,
        SampleFormat::I64 | SampleFormat::U64 | SampleFormat::F64 => 8,
    }
}

/// Whether samples of `format` are floating point numbers.
pub open spec fn is_float_spec(format: SampleFormat) -> bool {
    format == SampleFormat::F32 || format == SampleFormat::F64
}

impl SampleFormat {
    /// Size in bytes of one sample.
    pub fn sample_size(&self) -> (r: usize)
        ensures
            r == sample_size_spec(*self),
            *self == SampleFormat::I8 || *self == SampleFormat::U8 ==> r == 1,
            *self == SampleFormat::I16 || *self == SampleFormat::U16 ==> r == 2,
            *self == SampleFormat::I32 || *self == SampleFormat::U32 || *self == SampleFormat::F32 ==> r == 4,
            *self == SampleFormat::I64 || *self == SampleFormat::U64 || *self == SampleFormat::F64 ==> r == 8,
    {
        match self {
            SampleFormat::I8 | SampleFormat::U8 => 1,
            SampleFormat::I16 | SampleFormat::U16 => 2,
            SampleFormat::I32 | SampleFormat::U32 | SampleFormat::F32 => 4,
            SampleFormat::I64 | SampleFormat::U64 | SampleFormat::F64 => 8,
        }
    }

    /// Whether samples are floating point numbers.
    pub fn is_float(&self) -> (r: bool)
        ensures
            r == is_float_spec(*self),
    {
        match self {
            SampleFormat::F32 | SampleFormat::F64 => true,
            _ => false,
        }
    }
}

/// How a WAV file stores its samples.
#[derive(Debug, Clone, Copy, PartialEq, Eq, Structural)]
pub enum WavSampleFormat {
    Float,
    Int,
}

/// The header of a WAV file.
#[derive(Debug, Clone, Copy, PartialEq, Eq, Structural)]
pub struct WavSpecification {
    pub channels: u16,
    pub sample_rate: u32,
    pub bits_per_sample: u16,
    pub sample_format: WavSampleFormat,
}

/// How a WAV file stores samples of `format`: floats as floats, the rest as
/// integers.
pub fn sample_format(format: SampleFormat) -> (r: WavSampleFormat)
    ensures
        r == (if is_float_spec(format) {
            WavSampleFormat::Float
        } else {
            WavSampleFormat::Int
        }),
{
    if format.is_float() {
        WavSampleFormat::Float
    } else {
        WavSampleFormat::Int
    }
}

/// The WAV header for a recording from an input with `channels` channels,
/// at `sample_rate` samples per second, in `format`.
pub fn wav_spec_from_config(channels: u16, sample_rate: u32, format: SampleFormat) -> (r:
    WavSpecification)
    ensures
        r.channels == channels,
        r.sample_rate == sample_rate,
        r.bits_per_sample == sample_size_spec(format) * 8,
        format == SampleFormat::I8 || format == SampleFormat::U8 ==> r.bits_per_sample == 8,
        format == SampleFormat::I16 || format == SampleFormat::U16 ==> r.bits_per_sample == 16,
        format == SampleFormat::I32 || format == SampleFormat::U32 || format == SampleFormat::F32
            ==> r.bits_per_sample == 32,
        format == SampleFormat::I64 || format == SampleFormat::U64 || format == SampleFormat::F64
            ==> r.bits_per_sample == 64,
        format == SampleFormat::F32 || format == SampleFormat::F64 ==> r.sample_format
            == WavSampleFormat::Float,
        format != SampleFormat::F32 && format != SampleFormat::F64 ==> r.sample_format
            == WavSampleFormat::Int,
        r.sample_format == (if is_float_spec(format) {
            WavSampleFormat::Float
        } else {
            WavSampleFormat::Int
        }),
{
    let bytes: usize = format.sample_size();
    let bits: u16 = (bytes * 8) as u16;
    WavSpecification {
        channels,
        sample_rate,
        bits_per_sample: bits,
        sample_format: sample_format(format),
    }
}

/// A WAV header declares as many bits per sample as the samples are wide:
/// 8 for the 8-bit formats, 16 for the 16-bit, 32 for the 32-bit and 64 for
/// the 64-bit ones, floats only for `F32` and `F64`; so the four formats
/// that are recorded (as `i8`, `i16`, `i32` and `f32`) get headers of 8, 16,
/// 32 and 32 bits.
pub proof fn lemma_header_matches_samples(format: SampleFormat)
    ensures
        format == SampleFormat::I8 || format == SampleFormat::U8 ==> sample_size_spec(format) * 8 == 8,
        format == SampleFormat::I16 || format == SampleFormat::U16 ==> sample_size_spec(format) * 8 == 16,
        format == SampleFormat::I32 || format == SampleFormat::U32 || format == SampleFormat::F32
            ==> sample_size_spec(format) * 8 == 32,
        format == SampleFormat::I64 || format == SampleFormat::U64 || format == SampleFormat::F64
            ==> sample_size_spec(format) * 8 == 64,
        is_float_spec(format) <==> (format == SampleFormat::F32 || format == SampleFormat::F64),
{
}

/// The sample types the recorder writes to a WAV file.
#[derive(Debug, Clone, Copy, PartialEq, Eq, Structural)]
pub enum RecordingSampleType {
    I8,
    I16,
    I32,
    F32,
}

/// Why recording could not start.
#[derive(Debug, Clone, Copy, PartialEq, Eq, Structural)]
pub enum AudioError {
    /// The input device delivers samples the recorder does not write.
    UnsupportedSampleFormat(SampleFormat),
}

/// The sample type recorded from an input that delivers `format`: 8, 16 and
/// 32 bit integers and 32 bit floats are recorded as they come; every other
/// format is refused.
pub fn recording_sample_type(format: SampleFormat) -> (r: Result<RecordingSampleType, AudioError>)
    ensures
        r == (match format {
            SampleFormat::I8 => Ok(RecordingSampleType::I8),
            SampleFormat::I16 => Ok(RecordingSampleType::I16),
            SampleFormat::I32 => Ok(RecordingSampleType::I32),
            SampleFormat::F32 => Ok(RecordingSampleType::F32),
            _ => Err(AudioError::UnsupportedSampleFormat(format)),
        }),
{
    match format {
        SampleFormat::I8 => Ok(RecordingSampleType::I8),
        SampleFormat::I16 => Ok(RecordingSampleType::I16),
        SampleFormat::I32 => Ok(RecordingSampleType::I32),
        SampleFormat::F32 => Ok(RecordingSampleType::F32),
        _ => Err(AudioError::UnsupportedSampleFormat(format)),
    }
}

/// Whether a device whose name could be read as `name` (`None` when it could
/// not) is the device called `wanted`.
pub open spec fn device_is_named(name: Option<String>, wanted: Seq<char>) -> bool {
    match name {
        Some(n) => n@ == wanted,
        None => false,
    }
}

/// Position of the first input device called `wanted`, given the devices'
/// names in order (`None` for a name that could not be read).
pub fn find_input_device(names: &Vec<Option<String>>, wanted: &str) -> (r: Option<usize>)
    ensures
        match r {
            Some(i) => i < names@.len() && device_is_named(names@[i as int], wanted@) && forall|
                j: int,
            | 0 <= j < i ==> !device_is_named(#[trigger] names@[j], wanted@),
            None => forall|j: int|
                0 <= j < names@.len() ==> !device_is_named(#[trigger] names@[j], wanted@),
        },
{
    let mut i: usize = 0;
    while i < names.len()
        invariant
            i <= names@.len(),
            forall|j: int| 0 <= j < i ==> !device_is_named(#[trigger] names@[j], wanted@),
        decreases names@.len() - i,
    {
        let found = match &names[i] {
            Some(n) => same_text(n.as_str(), wanted),
            None => false,
        };
        if found {
            return Some(i);
        }
        i = i + 1;
    }
    None
}

} // verus!
