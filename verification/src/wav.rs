//! RIFF WAV structure: the "fmt " chunk with its field accessors, the
//! parsing of the file's fixed headers from plain bytes, and the byte
//! layout of a 16-bit stereo PCM file.  Reading and writing files is
//! the caller's business; everything here is bytes to values and back.

use vstd::prelude::*;

use crate::bytes::{le16, le32, push_le16, push_le32, read_le16, read_le32};

verus! {

/// Relies on std::io::Error as an opaque value: carried inside
/// `Error::Io` so callers can report what the operating system said,
/// never inspected here.
#[verifier::external_type_specification]
#[verifier::external_body]
pub struct ExIoError(std::io::Error);

/// A decoding error.
pub enum Error {
    /// The file is missing the RIFF header.
    NotRiff,
    /// The file is a RIFF file, but not a WAV file.
    NotWav,
    /// The "fmt " chunk is missing from the file.
    FmtMissing,
    /// The size of the "fmt " chunk is invalid.
    FmtSize,
    /// The format is invalid.
    Format,
    /// Subformat contains invalid data.
    Subformat,
    /// Unknown chunk.
    Chunk([u8; 4]),
    /// An I/O error.
    Io(std::io::Error),
}

/// Standard WAV audio formats.
#[derive(Clone, Copy, Debug, PartialEq, Eq, Structural)]
pub enum Format {
    /// PCM: the samples are stored as integers.
    Pcm,
    /// The samples are stored as IEEE floating-point numbers.
    Float,
    /// 8-bit ITU-T G.711 A-law.
    ALaw,
    /// 8-bit ITU-T G.711 mu-law.
    MuLaw,
}

/// The "fmt " chunk: its declared size and its at most 40 data bytes.
pub struct Fmt(u32, [u8; 40]);

/// A chunk in a RIFF WAV file.
pub enum Chunk {
    /// The "fmt " chunk.
    Fmt(Fmt),
}

/// What `Fmt::format` answers for given chunk bytes: the format code
/// is the little-endian 16-bit word in the chunk's first two bytes.
pub open spec fn spec_format(d: Seq<u8>) -> Result<Option<Format>, Error> {
    let code = d[0] + 0x100 * d[1];
    if code == 0x0001 {
        Ok(Some(Format::Pcm))
    } else if code == 0x0003 {
        Ok(Some(Format::Float))
    } else if code == 0x0006 {
        Ok(Some(Format::ALaw))
    } else if code == 0x0007 {
        Ok(Some(Format::MuLaw))
    } else if code == 0xFFFE {
        // Extensible: determined by the subformat.
        Ok(None)
    } else {
        Err(Error::Format)
    }
}

/// Whether the extensible subformat GUID carries the fixed tail every
/// WAV subformat must have.
pub open spec fn subformat_guid_ok(d: Seq<u8>) -> bool {
    &&& d[26] == 0x00
    &&& d[27] == 0x00
    &&& d[28] == 0x00
    &&& d[29] == 0x00
    &&& d[30] == 0x10
    &&& d[31] == 0x00
    &&& d[32] == 0x80
    &&& d[33] == 0x00
    &&& d[34] == 0x00
    &&& d[35] == 0xAA
    &&& d[36] == 0x00
    &&& d[37] == 0x38
    &&& d[38] == 0x9B
    &&& d[39] == 0x71
}

impl Fmt {
    /// The chunk's declared size.
    pub closed spec fn size(&self) -> u32 {
        self.0
    }

    /// The chunk's data bytes.
    pub closed spec fn data(&self) -> Seq<u8> {
        self.1@
    }

    /// Wrap a chunk read off a file: its declared size and its bytes.
    pub fn new(size: u32, data: [u8; 40]) -> (r: Self)
        ensures
            r.size() == size,
            r.data() == data@,
    {
        Fmt(size, data)
    }

    /// Get the audio format.
    pub fn format(&self) -> (r: Result<Option<Format>, Error>)
        ensures
            r == spec_format(self.data()),
    {
        let code = read_le16(self.1[0], self.1[1]);
        if code == 0x0001 {
            Ok(Some(Format::Pcm))
        } else if code == 0x0003 {
            Ok(Some(Format::Float))
        } else if code == 0x0006 {
            Ok(Some(Format::ALaw))
        } else if code == 0x0007 {
            Ok(Some(Format::MuLaw))
        } else if code == 0xFFFE {
            Ok(None)
        } else {
            Err(Error::Format)
        }
    }

    /// Get the channel count.
    pub fn channels(&self) -> (r: u16)
        ensures
            r == self.data()[2] + 0x100 * self.data()[3],
    {
        read_le16(self.1[2], self.1[3])
    }

    /// Get the sample rate: blocks (frames) per second.
    pub fn rate(&self) -> (r: u32)
        ensures
            r == self.data()[4] + 0x100 * self.data()[5] + 0x10000 * self.data()[6] + 0x1000000
                * self.data()[7],
    {
        read_le32(self.1[4], self.1[5], self.1[6], self.1[7])
    }

    /// Get the number of bytes per second (`rate * frame`).
    pub fn bytes_per_sec(&self) -> (r: u32)
        ensures
            r == self.data()[8] + 0x100 * self.data()[9] + 0x10000 * self.data()[10] + 0x1000000
                * self.data()[11],
    {
        read_le32(self.1[8], self.1[9], self.1[10], self.1[11])
    }

    /// Get the frame size in bytes.
    pub fn frame(&self) -> (r: u16)
        ensures
            r == self.data()[12] + 0x100 * self.data()[13],
    {
        read_le16(self.1[12], self.1[13])
    }

    /// Get the bit depth (`frame / channels`).
    pub fn bit_depth(&self) -> (r: u16)
        ensures
            r == self.data()[14] + 0x100 * self.data()[15],
    {
        read_le16(self.1[14], self.1[15])
    }

    /// Get the size of the extension, present only past the basic
    /// chunk.
    pub fn ext_size(&self) -> (r: Option<u16>)
        ensures
            r == if self.size() > 16 {
                Some((self.data()[16] + 0x100 * self.data()[17]) as u16)
            } else {
                None::<u16>
            },
    {
        if self.0 > 16 {
            Some(read_le16(self.1[16], self.1[17]))
        } else {
            None
        }
    }

    /// Number of valid bits per sample, present only in the extended
    /// chunk.
    pub fn valid_bits(&self) -> (r: Option<u16>)
        ensures
            r == if self.size() == 40 {
                Some((self.data()[18] + 0x100 * self.data()[19]) as u16)
            } else {
                None::<u16>
            },
    {
        if self.0 == 40 {
            Some(read_le16(self.1[18], self.1[19]))
        } else {
            None
        }
    }

    /// Speaker position mask, present only in the extended chunk.
    pub fn speaker_position(&self) -> (r: Option<u32>)
        ensures
            r == if self.size() == 40 {
                Some(
                    (self.data()[20] + 0x100 * self.data()[21] + 0x10000 * self.data()[22]
                        + 0x1000000 * self.data()[23]) as u32,
                )
            } else {
                None::<u32>
            },
    {
        if self.0 == 40 {
            Some(read_le32(self.1[20], self.1[21], self.1[22], self.1[23]))
        } else {
            None
        }
    }

    /// The subformat's two-byte format code, present only in the
    /// extended chunk, after checking the GUID's fixed tail.
    pub fn subformat(&self) -> (r: Result<Option<[u8; 2]>, Error>)
        ensures
            self.size() != 40 ==> r == Ok::<Option<[u8; 2]>, Error>(None),
            self.size() == 40 && !subformat_guid_ok(self.data()) ==> r == Err::<
                Option<[u8; 2]>,
                Error,
            >(Error::Subformat),
            self.size() == 40 && subformat_guid_ok(self.data()) ==> (r matches Ok(v) && v matches
                Some(b) && b@ == seq![self.data()[24], self.data()[25]]),
    {
        if self.0 == 40 {
            let ok = self.1[26] == 0x00 && self.1[27] == 0x00 && self.1[28] == 0x00 && self.1[29]
                == 0x00 && self.1[30] == 0x10 && self.1[31] == 0x00 && self.1[32] == 0x80
                && self.1[33] == 0x00 && self.1[34] == 0x00 && self.1[35] == 0xAA && self.1[36]
                == 0x00 && self.1[37] == 0x38 && self.1[38] == 0x9B && self.1[39] == 0x71;
            if !ok {
                return Err(Error::Subformat);
            }
            let b: [u8; 2] = [self.1[24], self.1[25]];
            assert(b@ =~= seq![self.data()[24], self.data()[25]]);
            Ok(Some(b))
        } else {
            Ok(None)
        }
    }
}

/// What the fixed 20 bytes at the front of a WAV file say: the size
/// left after the WAVE tag, and the name and size of the first chunk.
pub struct RiffInfo {
    /// RIFF chunk size minus the 4 bytes of the WAVE tag.
    pub size: u32,
    /// The name of the first chunk.
    pub chunk_name: [u8; 4],
    /// The size of the first chunk.
    pub chunk_size: u32,
}

/// Whether the first bytes carry the RIFF tag and a plausible size.
pub open spec fn riff_tag_ok(b: Seq<u8>) -> bool {
    &&& b[0] == 0x52
    &&& b[1] == 0x49
    &&& b[2] == 0x46
    &&& b[3] == 0x46
    &&& b[4] + 0x100 * b[5] + 0x10000 * b[6] + 0x1000000 * b[7] >= 4
}

/// Whether bytes 8 to 12 carry the WAVE tag.
pub open spec fn wave_tag_ok(b: Seq<u8>) -> bool {
    &&& b[8] == 0x57
    &&& b[9] == 0x41
    &&& b[10] == 0x56
    &&& b[11] == 0x45
}

/// Parse the 20 fixed bytes at the front of a WAV file: RIFF tag and
/// size, WAVE tag, then the first chunk's name and size.
pub fn parse_riff_header(b: &[u8; 20]) -> (r: Result<RiffInfo, Error>)
    ensures
        !riff_tag_ok(b@) ==> (r matches Err(e) && e matches Error::NotRiff),
        riff_tag_ok(b@) && !wave_tag_ok(b@) ==> (r matches Err(e) && e matches Error::NotWav),
        riff_tag_ok(b@) && wave_tag_ok(b@) ==> (r matches Ok(info) && info.size == b@[4] + 0x100
            * b@[5] + 0x10000 * b@[6] + 0x1000000 * b@[7] - 4 && info.chunk_name@ == seq![
            b@[12],
            b@[13],
            b@[14],
            b@[15],
        ] && info.chunk_size == b@[16] + 0x100 * b@[17] + 0x10000 * b@[18] + 0x1000000 * b@[19]),
{
    if !(b[0] == 0x52 && b[1] == 0x49 && b[2] == 0x46 && b[3] == 0x46) {
        return Err(Error::NotRiff);
    }
    let riff_size = read_le32(b[4], b[5], b[6], b[7]);
    if riff_size < 4 {
        return Err(Error::NotRiff);
    }
    if !(b[8] == 0x57 && b[9] == 0x41 && b[10] == 0x56 && b[11] == 0x45) {
        return Err(Error::NotWav);
    }
    let chunk_name: [u8; 4] = [b[12], b[13], b[14], b[15]];
    let chunk_size = read_le32(b[16], b[17], b[18], b[19]);
    let info = RiffInfo { size: riff_size - 4, chunk_name, chunk_size };
    assert(info.chunk_name@ =~= seq![b@[12], b@[13], b@[14], b@[15]]);
    Ok(info)
}

/// Interpret one chunk from its name, declared size, and data bytes:
/// nothing on the terminating empty name, the "fmt " chunk when so
/// named, otherwise the unknown-chunk error.
pub fn parse_chunk(name: &[u8; 4], size: u32, data: &[u8; 40]) -> (r: Option<Result<Chunk, Error>>)
    ensures
        name@ == seq![0u8, 0u8, 0u8, 0u8] ==> r is None,
        name@ == seq![0x66u8, 0x6Du8, 0x74u8, 0x20u8] ==> (r matches Some(c) && c matches Ok(ch)
            && ch matches Chunk::Fmt(f) && f.size() == size && f.data() == data@),
        name@ != seq![0u8, 0u8, 0u8, 0u8] && name@ != seq![0x66u8, 0x6Du8, 0x74u8, 0x20u8] ==> (
        r matches Some(c) && c matches Err(e) && e matches Error::Chunk(n) && n@ == name@),
{
    if name[0] == 0x00 && name[1] == 0x00 && name[2] == 0x00 && name[3] == 0x00 {
        proof {
            assert(name@ =~= seq![0u8, 0u8, 0u8, 0u8]);
        }
        None
    } else if name[0] == 0x66 && name[1] == 0x6D && name[2] == 0x74 && name[3] == 0x20 {
        proof {
            assert(name@ =~= seq![0x66u8, 0x6Du8, 0x74u8, 0x20u8]);
        }
        Some(Ok(Chunk::Fmt(Fmt::new(size, *data))))
    } else {
        proof {
            assert(name@ != seq![0u8, 0u8, 0u8, 0u8]);
            assert(name@ != seq![0x66u8, 0x6Du8, 0x74u8, 0x20u8]);
        }
        Some(Err(Error::Chunk(*name)))
    }
}

/// The little-endian bytes of each sample in turn.
pub open spec fn samples_le(s: Seq<i16>) -> Seq<u8>
    decreases s.len(),
{
    if s.len() == 0 {
        Seq::empty()
    } else {
        samples_le(s.drop_last()) + le16(s.last() as u16)
    }
}

/// The bytes of a 16-bit stereo PCM WAV file holding the interleaved
/// samples: RIFF header, "fmt " chunk, then the "data" chunk.
pub open spec fn wav_file_spec(samples: Seq<i16>, rate: u32) -> Seq<u8> {
    seq![0x52u8, 0x49u8, 0x46u8, 0x46u8] + le32((36 + 2 * samples.len()) as u32) + seq![
        0x57u8,
        0x41u8,
        0x56u8,
        0x45u8,
    ] + seq![0x66u8, 0x6Du8, 0x74u8, 0x20u8] + le32(16) + le16(1) + le16(2) + le32(rate) + le32(
        (4 * rate) as u32,
    ) + le16(4) + le16(16) + seq![0x64u8, 0x61u8, 0x74u8, 0x61u8] + le32(
        (2 * samples.len()) as u32,
    ) + samples_le(samples)
}

/// Serialize interleaved 16-bit stereo samples as a complete WAV file.
pub fn wav_file_bytes(samples: &Vec<i16>, rate: u32) -> (r: Vec<u8>)
    requires
        samples@.len() % 2 == 0,
        2 * samples@.len() + 36 <= u32::MAX,
        4 * rate <= u32::MAX,
    ensures
        r@ == wav_file_spec(samples@, rate),
{
    let mut out: Vec<u8> = Vec::new();
    out.push(0x52);
    out.push(0x49);
    out.push(0x46);
    out.push(0x46);
    push_le32(&mut out, 36 + 2 * (samples.len() as u32));
    out.push(0x57);
    out.push(0x41);
    out.push(0x56);
    out.push(0x45);
    out.push(0x66);
    out.push(0x6D);
    out.push(0x74);
    out.push(0x20);
    push_le32(&mut out, 16);
    push_le16(&mut out, 1);
    push_le16(&mut out, 2);
    push_le32(&mut out, rate);
    push_le32(&mut out, 4 * rate);
    push_le16(&mut out, 4);
    push_le16(&mut out, 16);
    out.push(0x64);
    out.push(0x61);
    out.push(0x74);
    out.push(0x61);
    push_le32(&mut out, 2 * (samples.len() as u32));
    let ghost prefix = out@;
    let mut i: usize = 0;
    while i < samples.len()
        invariant
            i <= samples@.len(),
            out@ == prefix + samples_le(samples@.take(i as int)),
        decreases samples@.len() - i,
    {
        push_le16(&mut out, samples[i] as u16);
        proof {
            assert(samples@.take(i + 1).drop_last() =~= samples@.take(i as int));
            assert(samples@.take(i + 1).last() == samples@[i as int]);
            assert(out@ =~= prefix + samples_le(samples@.take(i + 1)));
        }
        i = i + 1;
    }
    proof {
        assert(samples@.take(samples@.len() as int) =~= samples@);
        assert(out@ =~= wav_file_spec(samples@, rate));
    }
    out
}

} // verus!
