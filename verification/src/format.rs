//! Sample encodings and stream geometry.

use vstd::prelude::*;

verus! {

/// How one raw sample is encoded on the wire.
#[derive(Clone, Copy, PartialEq, Eq, Debug, Structural)]
pub enum SampleEncoding {
    UnsignedInt16,
    SignedInt16,
    Float32,
}

/// The geometry of a capture stream. It is fixed when the stream is opened.
#[derive(Clone, Copy, PartialEq, Eq, Debug, Structural)]
pub struct SampleFormat {
    pub encoding: SampleEncoding,
    pub channel_count: u16,
    pub sample_rate: u32,
}

impl SampleEncoding {
    /// Whether raw samples of this encoding are 16-bit integers.
    pub open spec fn is_integer(self) -> bool {
        self != SampleEncoding::Float32
    }

    /// The short label of the encoding: `U16`, `I16` or `F32`.
    pub open spec fn label(self) -> Seq<char> {
        match self {
            SampleEncoding::UnsignedInt16 => seq!['U', '1', '6'],
            SampleEncoding::SignedInt16 => seq!['I', '1', '6'],
            SampleEncoding::Float32 => seq!['F', '3', '2'],
        }
    }

    /// The short label of the encoding as a string slice.
    pub fn name(self) -> (s: &'static str)
        ensures
            s@ == self.label(),
    {
        proof {
            reveal_strlit("U16");
            reveal_strlit("I16");
            reveal_strlit("F32");
        }
        match self {
            SampleEncoding::UnsignedInt16 => {
                "U16"
            },
            SampleEncoding::SignedInt16 => {
                "I16"
            },
            SampleEncoding::Float32 => {
                "F32"
            },
        }
    }
}

impl SampleFormat {
    /// A format describes a stream only if it has a channel and a clock.
    pub open spec fn valid(self) -> bool {
        self.channel_count > 0 && self.sample_rate > 0
    }

    /// Tests [`SampleFormat::valid`].
    pub fn is_valid(&self) -> (b: bool)
        ensures
            b == self.valid(),
    {
        self.channel_count > 0 && self.sample_rate > 0
    }

    /// Whether an interleaved buffer of `len` samples holds whole frames of
    /// this format, and at least one.
    pub open spec fn whole_frames(self, len: nat) -> bool {
        self.valid() && len > 0 && len % (self.channel_count as nat) == 0
    }

    /// Tests [`SampleFormat::whole_frames`].
    pub fn has_frames(&self, len: usize) -> (b: bool)
        ensures
            b == self.whole_frames(len as nat),
    {
        self.is_valid() && len > 0 && len % (self.channel_count as usize) == 0
    }
}

} // verus!
