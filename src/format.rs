use vstd::prelude::*;

verus! {

/// Encoding of the samples in a headerless input file.
#[derive(Clone, Copy, Debug, PartialEq, Eq, Structural, Hash)]
pub enum SampleFormat {
    /// Unsigned 8-bit samples centred on 128.
    Int8,
    /// Signed 16-bit samples.
    Int16,
    /// 24-bit samples.
    Int24,
    /// Signed 32-bit samples.
    Int32,
    /// 4-bit OKI/VOX ADPCM, two samples per byte.
    Vox,
}

/// Byte order of the multi-byte sample formats.
#[derive(Clone, Copy, Debug, PartialEq, Eq, Structural, Hash)]
pub enum Endianness {
    Little,
    Big,
}

impl SampleFormat {
    /// Bits per sample of the WAV file written for this input format.
    pub fn bits_per_sample(self) -> (r: u16)
        ensures
            r == (match self {
                SampleFormat::Int8 => 8u16,
                SampleFormat::Int16 => 16u16,
                SampleFormat::Int24 => 24u16,
                SampleFormat::Int32 => 32u16,
                SampleFormat::Vox => 16u16,
            }),
    {
        match self {
            SampleFormat::Int8 => 8,
            SampleFormat::Int16 => 16,
            SampleFormat::Int24 => 24,
            SampleFormat::Int32 => 32,
            SampleFormat::Vox => 16,
        }
    }
}

} // verus!
