//! A buffer of interleaved raw samples of one encoding.

use crate::format::SampleEncoding;
use crate::format::SampleFormat;
use crate::sample::normalize;
use crate::sample::normalize_spec;
use crate::sample::CanonicalSample;
use crate::sample::RawSample;
use vstd::prelude::*;

verus! {

/// Interleaved raw samples as they arrive from the capture layer.
#[derive(PartialEq, Eq, Debug)]
pub enum RawBuffer {
    UnsignedInt16(Vec<u16>),
    SignedInt16(Vec<i16>),
}

impl RawBuffer {
    /// The samples of the buffer, each tagged with the buffer's encoding.
    pub open spec fn samples(self) -> Seq<RawSample> {
        match self {
            RawBuffer::UnsignedInt16(words) => Seq::new(
                words@.len(),
                |i: int| RawSample::UnsignedInt16(words@[i]),
            ),
            RawBuffer::SignedInt16(words) => Seq::new(
                words@.len(),
                |i: int| RawSample::SignedInt16(words@[i]),
            ),
        }
    }

    /// The samples of the buffer in canonical form.
    pub open spec fn canonical(self) -> Seq<CanonicalSample> {
        Seq::new(self.samples().len(), |i: int| normalize_spec(self.samples()[i]))
    }

    /// The encoding of the samples.
    pub open spec fn encoding_spec(self) -> SampleEncoding {
        match self {
            RawBuffer::UnsignedInt16(_) => SampleEncoding::UnsignedInt16,
            RawBuffer::SignedInt16(_) => SampleEncoding::SignedInt16,
        }
    }

    /// The encoding of the samples.
    pub fn encoding(&self) -> (encoding: SampleEncoding)
        ensures
            encoding == self.encoding_spec(),
            encoding.is_integer(),
    {
        match self {
            RawBuffer::UnsignedInt16(_) => SampleEncoding::UnsignedInt16,
            RawBuffer::SignedInt16(_) => SampleEncoding::SignedInt16,
        }
    }

    /// Whether the buffer is one of `format`: the encoding is the format's,
    /// and the samples are whole frames, at least one.
    pub open spec fn matches_format(self, format: SampleFormat) -> bool {
        format.encoding == self.encoding_spec() && format.whole_frames(self.samples().len())
    }

    /// Tests [`RawBuffer::matches_format`].
    pub fn fits(&self, format: &SampleFormat) -> (b: bool)
        ensures
            b == self.matches_format(*format),
    {
        format.encoding == self.encoding() && format.has_frames(self.len())
    }

    /// The number of samples, all channels together.
    pub fn len(&self) -> (len: usize)
        ensures
            len == self.samples().len(),
            len == self.canonical().len(),
    {
        match self {
            RawBuffer::UnsignedInt16(words) => words.len(),
            RawBuffer::SignedInt16(words) => words.len(),
        }
    }

    /// The sample at `index`.
    pub fn sample(&self, index: usize) -> (raw: RawSample)
        requires
            index < self.samples().len(),
        ensures
            raw == self.samples()[index as int],
    {
        match self {
            RawBuffer::UnsignedInt16(words) => RawSample::UnsignedInt16(words[index]),
            RawBuffer::SignedInt16(words) => RawSample::SignedInt16(words[index]),
        }
    }

    /// Normalizes every sample of the buffer.
    pub fn to_canonical(&self) -> (samples: Vec<CanonicalSample>)
        ensures
            samples@ == self.canonical(),
    {
        let len = self.len();
        let mut samples: Vec<CanonicalSample> = Vec::new();
        let mut i: usize = 0;
        while i < len
            invariant
                i <= len,
                len == self.samples().len(),
                samples.len() == i,
                forall|k: int| 0 <= k < i ==> #[trigger] samples[k] == normalize_spec(self.samples()[k]),
            decreases len - i,
        {
            samples.push(normalize(self.sample(i)));
            i += 1;
        }
        samples
    }
}

impl Clone for RawBuffer {
    /// A copy that holds the same samples.
    fn clone(&self) -> (copy: RawBuffer)
        ensures
            copy.samples() == self.samples(),
            copy.encoding_spec() == self.encoding_spec(),
    {
        match self {
            RawBuffer::UnsignedInt16(words) => {
                let copy = words.clone();
                RawBuffer::UnsignedInt16(copy)
            },
            RawBuffer::SignedInt16(words) => {
                let copy = words.clone();
                RawBuffer::SignedInt16(copy)
            },
        }
    }
}

} // verus!
