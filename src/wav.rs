//! The RIFF/WAVE container: the format descriptor, the opaque chunks that
//! precede the samples, the sample payload, and the file that holds them.
use crate::le::{
    bytes2, bytes4, push_i16, push_i32, push_u16, push_u32, read_u16_at, read_u32_at, twos16,
    twos32, u16_le, u32_le,
};
use crate::laws::lemma_unit_gain;
use crate::samples::{decode_samples, gained, sample_width, SampleBits};
use vstd::prelude::*;
use vstd::slice::{slice_subrange, slice_to_vec};

verus! {

/// Why a buffer could not be read as a WAVE file, or a gain was refused.
#[derive(Clone, Copy, Debug, PartialEq, Eq, Structural)]
pub enum WavError {
    /// The fixed region is truncated or its tags are wrong.
    MalformedHeader,
    /// No `data` tag, no length field, or a partial trailing sample.
    MalformedPayload,
    /// A bit depth other than 16 or 32.
    UnsupportedBitDepth,
    /// A negative gain, or one with a zero denominator.
    InvalidGain,
}

/// The ASCII tag `RIFF`.
pub open spec fn riff_tag() -> Seq<u8> {
    seq![82u8, 73u8, 70u8, 70u8]
}

/// The ASCII tag `WAVE`.
pub open spec fn wave_tag() -> Seq<u8> {
    seq![87u8, 65u8, 86u8, 69u8]
}

/// The ASCII tag `fmt `.
pub open spec fn fmt_tag() -> Seq<u8> {
    seq![102u8, 109u8, 116u8, 32u8]
}

/// The ASCII tag `data`.
pub open spec fn data_tag() -> Seq<u8> {
    seq![100u8, 97u8, 116u8, 97u8]
}

/// The tag `data` starts at index `i` of `s`.
pub open spec fn data_at(s: Seq<u8>, i: int) -> bool {
    &&& 0 <= i
    &&& i + 4 <= s.len()
    &&& s[i] == 100u8
    &&& s[i + 1] == 97u8
    &&& s[i + 2] == 116u8
    &&& s[i + 3] == 97u8
}

/// `i` is the first index of `s` where the tag `data` starts.
pub open spec fn first_data_at(s: Seq<u8>, i: int) -> bool {
    data_at(s, i) && forall|j: int| 0 <= j < i ==> !data_at(s, j)
}

/// Where the first tag `data` of `s` starts, if there is one.
pub open spec fn data_tag_index(s: Seq<u8>) -> Option<int> {
    if exists|i: int| first_data_at(s, i) {
        Some(choose|i: int| first_data_at(s, i))
    } else {
        None
    }
}

/// The `fmt ` sub-chunk of a WAVE file, without its tag.
#[derive(Clone, Copy, Debug, PartialEq, Eq, Structural)]
pub struct FileHeader {
    pub bloc_size: u32,
    pub audio_format: u16,
    pub nbr_channels: u16,
    pub frequency: u32,
    pub byte_per_sec: u32,
    pub byte_per_bloc: u16,
    pub bits_per_sample: u16,
}

/// The format descriptor that the 20 bytes after the tag `fmt ` hold.
pub open spec fn header_of(b: Seq<u8>) -> FileHeader {
    FileHeader {
        bloc_size: u32_le(b[0], b[1], b[2], b[3]) as u32,
        audio_format: u16_le(b[4], b[5]) as u16,
        nbr_channels: u16_le(b[6], b[7]) as u16,
        frequency: u32_le(b[8], b[9], b[10], b[11]) as u32,
        byte_per_sec: u32_le(b[12], b[13], b[14], b[15]) as u32,
        byte_per_bloc: u16_le(b[16], b[17]) as u16,
        bits_per_sample: u16_le(b[18], b[19]) as u16,
    }
}

/// The encoded `fmt ` sub-chunk: its tag, then the seven fields.
pub open spec fn header_bytes(h: FileHeader) -> Seq<u8> {
    fmt_tag() + bytes4(h.bloc_size as int) + bytes2(h.audio_format as int) + bytes2(
        h.nbr_channels as int,
    ) + bytes4(h.frequency as int) + bytes4(h.byte_per_sec as int) + bytes2(
        h.byte_per_bloc as int,
    ) + bytes2(h.bits_per_sample as int)
}

impl FileHeader {
    /// A canonical PCM descriptor: block alignment and byte rate derived from
    /// the channel count, the bit depth and the sample rate.
    pub fn new(audio_format: u16, nbr_channels: u16, frequency: u32, bits_per_sample: u16) -> (r:
        Self)
        requires
            nbr_channels * bits_per_sample / 8 <= u16::MAX,
            frequency * (nbr_channels * bits_per_sample / 8) <= u32::MAX,
        ensures
            r.bloc_size == 16,
            r.audio_format == audio_format,
            r.nbr_channels == nbr_channels,
            r.frequency == frequency,
            r.bits_per_sample == bits_per_sample,
            r.byte_per_bloc == nbr_channels * bits_per_sample / 8,
            r.byte_per_sec == frequency * (nbr_channels * bits_per_sample / 8),
    {
        assert(nbr_channels as int * bits_per_sample as int <= 65535 * 65535) by (nonlinear_arith)
            requires
                nbr_channels <= 65535,
                bits_per_sample <= 65535,
        ;
        let byte_per_bloc = ((nbr_channels as u32) * (bits_per_sample as u32) / 8) as u16;
        let byte_per_sec = ((frequency as u64) * (byte_per_bloc as u64)) as u32;
        FileHeader {
            bloc_size: 16,
            audio_format,
            nbr_channels,
            frequency,
            byte_per_sec,
            byte_per_bloc,
            bits_per_sample,
        }
    }

    /// Reads the seven fields from the 20 bytes that follow the tag `fmt `;
    /// the tag itself is not part of `bytes`.
    pub fn from_bytes(bytes: &[u8]) -> (r: Result<Self, WavError>)
        ensures
            bytes@.len() < 20 ==> r == Err::<Self, WavError>(WavError::MalformedHeader),
            bytes@.len() >= 20 ==> r == Ok::<Self, WavError>(header_of(bytes@)),
    {
        if bytes.len() < 20 {
            return Err(WavError::MalformedHeader);
        }
        Ok(FileHeader {
            bloc_size: read_u32_at(bytes, 0),
            audio_format: read_u16_at(bytes, 4),
            nbr_channels: read_u16_at(bytes, 6),
            frequency: read_u32_at(bytes, 8),
            byte_per_sec: read_u32_at(bytes, 12),
            byte_per_bloc: read_u16_at(bytes, 16),
            bits_per_sample: read_u16_at(bytes, 18),
        })
    }

    /// The 24 bytes of the sub-chunk: the tag `fmt `, which `from_bytes` does
    /// not read, then the seven fields.
    pub fn to_bytes(&self) -> (r: Vec<u8>)
        ensures
            r@ == header_bytes(*self),
    {
        let mut bytes: Vec<u8> = Vec::new();
        bytes.push(102);
        bytes.push(109);
        bytes.push(116);
        bytes.push(32);
        push_u32(&mut bytes, self.bloc_size);
        push_u16(&mut bytes, self.audio_format);
        push_u16(&mut bytes, self.nbr_channels);
        push_u32(&mut bytes, self.frequency);
        push_u32(&mut bytes, self.byte_per_sec);
        push_u16(&mut bytes, self.byte_per_bloc);
        push_u16(&mut bytes, self.bits_per_sample);
        assert(bytes@ =~= header_bytes(*self));
        bytes
    }
}

impl Default for FileHeader {
    /// Stereo, 16-bit, 44100 Hz integer PCM.
    fn default() -> (r: Self)
        ensures
            r == (FileHeader {
                bloc_size: 16,
                audio_format: 1,
                nbr_channels: 2,
                frequency: 44100,
                byte_per_sec: 176400,
                byte_per_bloc: 4,
                bits_per_sample: 16,
            }),
    {
        FileHeader::new(1, 2, 44100, 16)
    }
}

/// The chunks between the format descriptor and the sample data, kept as
/// opaque bytes.
#[derive(Clone, Debug)]
pub struct Metadata {
    pub data: Vec<u8>,
}

impl Metadata {
    /// Splits `bytes` at the first tag `data`: the bytes before it, and the
    /// count consumed up to and including the tag. Without such a tag, all of
    /// `bytes` and a count of 0.
    pub fn from_bytes(bytes: &[u8]) -> (r: (Self, usize))
        ensures
            match data_tag_index(bytes@) {
                Some(k) => r.0.data@ == bytes@.take(k) && r.1 == k + 4,
                None => r.0.data@ == bytes@ && r.1 == 0,
            },
    {
        let mut data: Vec<u8> = Vec::new();
        let len = bytes.len();
        let mut i: usize = 0;
        while i < len
            invariant
                len == bytes@.len(),
                i <= len,
                data@ == bytes@.take(i as int),
                forall|j: int| 0 <= j < i ==> !data_at(bytes@, j),
            decreases len - i,
        {
            if len - i >= 4 && bytes[i] == 100 && bytes[i + 1] == 97 && bytes[i + 2] == 116
                && bytes[i + 3] == 97 {
                proof {
                    assert(first_data_at(bytes@, i as int));
                    let k = choose|k: int| first_data_at(bytes@, k);
                    assert(!(k < i) && !(i < k));
                }
                return (Metadata { data }, i + 4);
            }
            data.push(bytes[i]);
            assert(data@ =~= bytes@.take(i + 1));
            i = i + 1;
        }
        proof {
            assert(data@ =~= bytes@);
            assert(!exists|k: int| first_data_at(bytes@, k));
        }
        (Metadata { data }, 0)
    }

    /// The stored bytes, unchanged.
    pub fn to_bytes(&self) -> (r: Vec<u8>)
        ensures
            r@ == self.data@,
    {
        slice_to_vec(self.data.as_slice())
    }
}

impl Default for Metadata {
    /// No metadata.
    fn default() -> (r: Self)
        ensures
            r.data@.len() == 0,
    {
        Metadata { data: Vec::new() }
    }
}

/// The bytes of samples at the given bit depth, each little-endian in two's
/// complement, in order.
pub open spec fn encode_samples(bits: u16, v: Seq<int>) -> Seq<u8> {
    if bits == 16 {
        Seq::new(2 * v.len(), |j: int| bytes2(twos16(v[j / 2]))[j % 2])
    } else {
        Seq::new(4 * v.len(), |j: int| bytes4(twos32(v[j / 4]))[j % 4])
    }
}

/// The sample values that a data sub-chunk holds after its tag: a 4-byte
/// length field, then the samples up to the end of `s`.
pub open spec fn decode_payload(bits: u16, s: Seq<u8>) -> Result<Seq<int>, WavError> {
    if bits != 16 && bits != 32 {
        Err(WavError::UnsupportedBitDepth)
    } else if s.len() < 4 {
        Err(WavError::MalformedPayload)
    } else if (s.len() - 4) % sample_width(bits) != 0 {
        Err(WavError::MalformedPayload)
    } else {
        Ok(decode_samples(bits, s.subrange(4, s.len() as int)))
    }
}

/// The encoded data sub-chunk: its tag, the byte length of the samples, and
/// the samples.
pub open spec fn payload_bytes(bits: u16, v: Seq<int>) -> Seq<u8> {
    data_tag() + bytes4(v.len() * sample_width(bits)) + encode_samples(bits, v)
}

proof fn lemma_encode_samples_push(bits: u16, v: Seq<int>, k: int)
    requires
        0 <= k < v.len(),
    ensures
        bits == 16 ==> encode_samples(bits, v.take(k + 1)) == encode_samples(bits, v.take(k))
            + bytes2(twos16(v[k])),
        bits != 16 ==> encode_samples(bits, v.take(k + 1)) == encode_samples(bits, v.take(k))
            + bytes4(twos32(v[k])),
{
    if bits == 16 {
        assert(encode_samples(bits, v.take(k + 1)) =~= encode_samples(bits, v.take(k)) + bytes2(
            twos16(v[k]),
        ));
    } else {
        assert(encode_samples(bits, v.take(k + 1)) =~= encode_samples(bits, v.take(k)) + bytes4(
            twos32(v[k]),
        ));
    }
}

/// The sample data of a WAVE file.
#[derive(Clone, Debug)]
pub struct Payload {
    pub samples: SampleBits,
    /// The byte length of the samples, as declared when read.
    pub total_bytes: usize,
}

impl Payload {
    /// A payload of the given samples.
    pub fn new(samples: SampleBits) -> (r: Self)
        requires
            samples.values().len() * sample_width(samples.bits()) <= usize::MAX,
        ensures
            r.samples == samples,
            r.total_bytes == samples.values().len() * sample_width(samples.bits()),
    {
        let n = samples.len();
        let width: usize = if samples.bit_depth() == 16 { 2 } else { 4 };
        Payload { total_bytes: n * width, samples }
    }

    /// Reads a data sub-chunk that follows its tag: the length field, then
    /// samples of `bits_per_sample` bits up to the end of `bytes`.
    pub fn from_bytes(bits_per_sample: u16, bytes: &[u8]) -> (r: Result<Self, WavError>)
        ensures
            match decode_payload(bits_per_sample, bytes@) {
                Ok(v) => r is Ok && r->Ok_0.samples.bits() == bits_per_sample
                    && r->Ok_0.samples.values() == v && r->Ok_0.total_bytes == u32_le(
                    bytes@[0],
                    bytes@[1],
                    bytes@[2],
                    bytes@[3],
                ),
                Err(e) => r is Err && r->Err_0 == e,
            },
    {
        if bits_per_sample != 16 && bits_per_sample != 32 {
            return Err(WavError::UnsupportedBitDepth);
        }
        let len = bytes.len();
        if len < 4 {
            return Err(WavError::MalformedPayload);
        }
        let declared = read_u32_at(bytes, 0);
        let raw = slice_subrange(bytes, 4, len);
        let mut samples = if bits_per_sample == 16 {
            if raw.len() % 2 != 0 {
                return Err(WavError::MalformedPayload);
            }
            SampleBits::I16bits(Vec::new())
        } else {
            if raw.len() % 4 != 0 {
                return Err(WavError::MalformedPayload);
            }
            SampleBits::I32bits(Vec::new())
        };
        assert(samples.values() =~= Seq::<int>::empty());
        samples.write_raw(raw);
        assert(samples.values() =~= decode_samples(bits_per_sample, raw@));
        Ok(Payload { samples, total_bytes: declared as usize })
    }

    /// The data sub-chunk: the tag `data`, the byte length of the samples as
    /// they are now, and each sample little-endian.
    pub fn to_bytes(&self) -> (r: Vec<u8>)
        requires
            self.samples.values().len() * sample_width(self.samples.bits()) <= u32::MAX,
        ensures
            r@ == payload_bytes(self.samples.bits(), self.samples.values()),
    {
        let mut bytes: Vec<u8> = Vec::new();
        bytes.push(100);
        bytes.push(97);
        bytes.push(116);
        bytes.push(97);
        let ghost bits = self.samples.bits();
        let ghost vals = self.samples.values();
        match &self.samples {
            SampleBits::I16bits(v) => {
                let n = v.len();
                push_u32(&mut bytes, (n * 2) as u32);
                let ghost head = bytes@;
                let mut k: usize = 0;
                while k < n
                    invariant
                        n == v@.len(),
                        bits == 16,
                        vals == v@.map_values(|x: i16| x as int),
                        k <= n,
                        bytes@ == head + encode_samples(16, vals.take(k as int)),
                    decreases n - k,
                {
                    push_i16(&mut bytes, v[k]);
                    proof {
                        lemma_encode_samples_push(16, vals, k as int);
                    }
                    k = k + 1;
                }
                assert(vals.take(n as int) =~= vals);
                assert(bytes@ =~= payload_bytes(bits, vals));
            },
            SampleBits::I32bits(v) => {
                let n = v.len();
                push_u32(&mut bytes, (n * 4) as u32);
                let ghost head = bytes@;
                let mut k: usize = 0;
                while k < n
                    invariant
                        n == v@.len(),
                        bits == 32,
                        vals == v@.map_values(|x: i32| x as int),
                        k <= n,
                        bytes@ == head + encode_samples(32, vals.take(k as int)),
                    decreases n - k,
                {
                    push_i32(&mut bytes, v[k]);
                    proof {
                        lemma_encode_samples_push(32, vals, k as int);
                    }
                    k = k + 1;
                }
                assert(vals.take(n as int) =~= vals);
                assert(bytes@ =~= payload_bytes(bits, vals));
            },
        }
        bytes
    }
}

impl Default for Payload {
    /// No samples, 16 bits wide.
    fn default() -> (r: Self)
        ensures
            r.samples.bits() == 16,
            r.samples.values().len() == 0,
            r.total_bytes == 0,
    {
        let r = Payload::new(SampleBits::I16bits(Vec::new()));
        assert(r.samples.values() =~= Seq::<int>::empty());
        r
    }
}

/// What a WAVE file holds: the declared RIFF size, the format descriptor, the
/// opaque metadata bytes and the sample values.
pub struct WavModel {
    pub file_size: u32,
    pub header: FileHeader,
    pub metadata: Seq<u8>,
    pub samples: Seq<int>,
}

/// The file that `b` holds, or why it holds none. The tags `RIFF`, `WAVE` and
/// `fmt ` must stand in the first 36 bytes; the metadata runs from there to
/// the first tag `data`, and the samples from its length field to the end.
#[verifier::opaque]
pub open spec fn decode_wav(b: Seq<u8>) -> Result<WavModel, WavError> {
    if b.len() < 36 || b.subrange(0, 4) != riff_tag() || b.subrange(8, 12) != wave_tag()
        || b.subrange(12, 16) != fmt_tag() {
        Err(WavError::MalformedHeader)
    } else {
        let header = header_of(b.subrange(16, 36));
        let bits = header.bits_per_sample;
        let rest = b.subrange(36, b.len() as int);
        if bits != 16 && bits != 32 {
            Err(WavError::UnsupportedBitDepth)
        } else {
            match data_tag_index(rest) {
                None => Err(WavError::MalformedPayload),
                Some(k) => match decode_payload(bits, rest.subrange(k + 4, rest.len() as int)) {
                    Err(e) => Err(e),
                    Ok(samples) => Ok(
                        WavModel {
                            file_size: u32_le(b[4], b[5], b[6], b[7]) as u32,
                            header,
                            metadata: rest.take(k),
                            samples,
                        },
                    ),
                },
            }
        }
    }
}

/// The RIFF size of a file: everything after the size field.
pub open spec fn riff_size(m: WavModel) -> int {
    4 + 24 + m.metadata.len() + 8 + m.samples.len() * sample_width(m.header.bits_per_sample)
}

/// The bytes of a file, with its size fields computed from what it holds.
#[verifier::opaque]
pub open spec fn encode_wav(m: WavModel) -> Seq<u8> {
    riff_tag() + bytes4(riff_size(m)) + wave_tag() + header_bytes(m.header) + m.metadata
        + payload_bytes(m.header.bits_per_sample, m.samples)
}

/// A RIFF/WAVE file held in memory.
#[derive(Clone, Debug)]
pub struct Wav {
    file_size: u32,
    header: FileHeader,
    metadata: Metadata,
    payload: Payload,
}

impl Wav {
    /// The samples are as wide as the format descriptor says.
    pub closed spec fn wf(&self) -> bool {
        self.header.bits_per_sample == self.payload.samples.bits()
    }

    pub closed spec fn view(&self) -> WavModel {
        WavModel {
            file_size: self.file_size,
            header: self.header,
            metadata: self.metadata.data@,
            samples: self.payload.samples.values(),
        }
    }

    pub closed spec fn sample_buffer(&self) -> SampleBits {
        self.payload.samples
    }

    /// A file of the given parts, with its RIFF size computed from them.
    pub fn new(header: FileHeader, metadata: Metadata, payload: Payload) -> (r: Self)
        requires
            header.bits_per_sample == payload.samples.bits(),
            36 + metadata.data@.len() + payload.samples.values().len() * sample_width(
                header.bits_per_sample,
            ) <= u32::MAX,
        ensures
            r.wf(),
            r.sample_buffer() == payload.samples,
            r@ == (WavModel {
                file_size: (36 + metadata.data@.len() + payload.samples.values().len()
                    * sample_width(header.bits_per_sample)) as u32,
                header,
                metadata: metadata.data@,
                samples: payload.samples.values(),
            }),
    {
        let n = payload.samples.len();
        let width: usize = if header.bits_per_sample == 16 { 2 } else { 4 };
        let file_size = (36 + metadata.data.len() + n * width) as u32;
        Wav { file_size, header, metadata, payload }
    }

    /// Reads a whole WAVE file from `bytes`.
    pub fn from_bytes(bytes: &[u8]) -> (r: Result<Self, WavError>)
        ensures
            match decode_wav(bytes@) {
                Ok(m) => r is Ok && r->Ok_0.wf() && r->Ok_0@ == m,
                Err(e) => r is Err && r->Err_0 == e,
            },
    {
        reveal(decode_wav);
        let len = bytes.len();
        if len < 36 {
            return Err(WavError::MalformedHeader);
        }
        if !(bytes[0] == 82 && bytes[1] == 73 && bytes[2] == 70 && bytes[3] == 70 && bytes[8]
            == 87 && bytes[9] == 65 && bytes[10] == 86 && bytes[11] == 69 && bytes[12] == 102
            && bytes[13] == 109 && bytes[14] == 116 && bytes[15] == 32) {
            assert(bytes@.subrange(0, 4) != riff_tag() || bytes@.subrange(8, 12) != wave_tag()
                || bytes@.subrange(12, 16) != fmt_tag()) by {
                if bytes@.subrange(0, 4) == riff_tag() && bytes@.subrange(8, 12) == wave_tag()
                    && bytes@.subrange(12, 16) == fmt_tag() {
                    assert(bytes@.subrange(0, 4)[0] == bytes@[0]);
                    assert(bytes@.subrange(0, 4)[1] == bytes@[1]);
                    assert(bytes@.subrange(0, 4)[2] == bytes@[2]);
                    assert(bytes@.subrange(0, 4)[3] == bytes@[3]);
                    assert(bytes@.subrange(8, 12)[0] == bytes@[8]);
                    assert(bytes@.subrange(8, 12)[1] == bytes@[9]);
                    assert(bytes@.subrange(8, 12)[2] == bytes@[10]);
                    assert(bytes@.subrange(8, 12)[3] == bytes@[11]);
                    assert(bytes@.subrange(12, 16)[0] == bytes@[12]);
                    assert(bytes@.subrange(12, 16)[1] == bytes@[13]);
                    assert(bytes@.subrange(12, 16)[2] == bytes@[14]);
                    assert(bytes@.subrange(12, 16)[3] == bytes@[15]);
                }
            }
            return Err(WavError::MalformedHeader);
        }
        assert(bytes@.subrange(0, 4) =~= riff_tag());
        assert(bytes@.subrange(8, 12) =~= wave_tag());
        assert(bytes@.subrange(12, 16) =~= fmt_tag());
        let file_size = read_u32_at(bytes, 4);
        let fmt = slice_subrange(bytes, 16, 36);
        let header = match FileHeader::from_bytes(fmt) {
            Ok(h) => h,
            Err(e) => {
                return Err(e);
            },
        };
        if header.bits_per_sample != 16 && header.bits_per_sample != 32 {
            return Err(WavError::UnsupportedBitDepth);
        }
        let rest = slice_subrange(bytes, 36, len);
        let (metadata, end) = Metadata::from_bytes(rest);
        if end == 0 {
            return Err(WavError::MalformedPayload);
        }
        let tail = slice_subrange(rest, end, rest.len());
        match Payload::from_bytes(header.bits_per_sample, tail) {
            Ok(payload) => {
                let r = Wav { file_size, header, metadata, payload };
                assert(r@ == decode_wav(bytes@)->Ok_0);
                Ok(r)
            },
            Err(e) => Err(e),
        }
    }
    /// The RIFF size that the file would be written with, if it fits in the
    /// 32-bit size field.
    pub fn encoded_riff_size(&self) -> (r: Option<u32>)
        requires
            self.wf(),
        ensures
            riff_size(self@) <= u32::MAX ==> r == Some(riff_size(self@) as u32),
            riff_size(self@) > u32::MAX ==> r is None,
    {
        let n = self.payload.samples.len();
        let m = self.metadata.data.len();
        if n > 4294967295 || m > 4294967295 {
            return None;
        }
        let width: u64 = if self.header.bits_per_sample == 16 { 2 } else { 4 };
        let total: u64 = 36 + m as u64 + (n as u64) * width;
        if total > 4294967295 {
            None
        } else {
            Some(total as u32)
        }
    }

    /// The bytes of the file: the RIFF header with a size recomputed from what
    /// the file holds now, the format descriptor, the metadata and the sample
    /// data. The stored RIFF size is updated to the one written.
    pub fn to_bytes(&mut self) -> (r: Vec<u8>)
        requires
            old(self).wf(),
            riff_size(old(self)@) <= u32::MAX,
        ensures
            final(self).wf(),
            final(self).sample_buffer() == old(self).sample_buffer(),
            final(self)@ == (WavModel { file_size: riff_size(old(self)@) as u32, ..old(self)@ }),
            r@ == encode_wav(old(self)@),
    {
        let n = self.payload.samples.len();
        let width: usize = if self.header.bits_per_sample == 16 { 2 } else { 4 };
        let size = (36 + self.metadata.data.len() + n * width) as u32;
        self.file_size = size;
        let mut bytes: Vec<u8> = Vec::new();
        bytes.push(82);
        bytes.push(73);
        bytes.push(70);
        bytes.push(70);
        push_u32(&mut bytes, size);
        bytes.push(87);
        bytes.push(65);
        bytes.push(86);
        bytes.push(69);
        let mut header = self.header.to_bytes();
        bytes.append(&mut header);
        let mut metadata = self.metadata.to_bytes();
        bytes.append(&mut metadata);
        let mut payload = self.payload.to_bytes();
        bytes.append(&mut payload);
        reveal(encode_wav);
        assert(bytes@ =~= encode_wav(old(self)@));
        bytes
    }

    /// The sample rate in Hz.
    pub fn sample_rate(&self) -> (r: u32)
        ensures
            r == self@.header.frequency,
    {
        self.header.frequency
    }

    /// The number of channels.
    pub fn channels(&self) -> (r: u16)
        ensures
            r == self@.header.nbr_channels,
    {
        self.header.nbr_channels
    }

    /// The bit depth of the samples.
    pub fn bit_depth(&self) -> (r: u16)
        ensures
            r == self@.header.bits_per_sample,
    {
        self.header.bits_per_sample
    }

    /// The RIFF size as read, or as last computed.
    pub fn file_size(&self) -> (r: u32)
        ensures
            r == self@.file_size,
    {
        self.file_size
    }

    /// The format descriptor.
    pub fn header(&self) -> (r: FileHeader)
        ensures
            r == self@.header,
    {
        self.header
    }

    /// The opaque metadata bytes.
    pub fn metadata(&self) -> (r: &Metadata)
        ensures
            r.data@ == self@.metadata,
    {
        &self.metadata
    }

    /// The sample buffer.
    pub fn samples(&self) -> (r: &SampleBits)
        ensures
            *r == self.sample_buffer(),
            r.values() == self@.samples,
            self.wf() ==> r.bits() == self@.header.bits_per_sample,
    {
        &self.payload.samples
    }

    /// Appends the samples that `raw` holds, little-endian, at the file's bit
    /// depth. A length that is not a whole number of samples is refused and
    /// nothing changes.
    pub fn write_raw_samples(&mut self, raw: &[u8]) -> (r: Result<(), WavError>)
        requires
            old(self).wf(),
        ensures
            final(self).wf(),
            raw@.len() as int % sample_width(old(self)@.header.bits_per_sample) != 0 ==> r
                == Err::<(), WavError>(WavError::MalformedPayload) && *final(self) == *old(self),
            raw@.len() as int % sample_width(old(self)@.header.bits_per_sample) == 0 ==> r is Ok
                && final(self)@ == (WavModel {
                samples: old(self)@.samples + decode_samples(
                    old(self)@.header.bits_per_sample,
                    raw@,
                ),
                ..old(self)@
            }),
    {
        let width: usize = if self.header.bits_per_sample == 16 { 2 } else { 4 };
        if raw.len() % width != 0 {
            return Err(WavError::MalformedPayload);
        }
        self.payload.samples.write_raw(raw);
        Ok(())
    }

    /// Multiplies every sample by `numerator / denominator`, truncating toward
    /// zero and saturating at the range of the bit depth. A negative gain, or
    /// a zero denominator, is refused and nothing changes.
    pub fn set_volume(&mut self, numerator: i64, denominator: u64) -> (r: Result<(), WavError>)
        requires
            old(self).wf(),
        ensures
            final(self).wf(),
            numerator < 0 || denominator == 0 ==> r == Err::<(), WavError>(WavError::InvalidGain)
                && *final(self) == *old(self),
            numerator >= 0 && denominator > 0 ==> {
                &&& r is Ok
                &&& final(self)@.file_size == old(self)@.file_size
                &&& final(self)@.header == old(self)@.header
                &&& final(self)@.metadata == old(self)@.metadata
                &&& final(self)@.samples.len() == old(self)@.samples.len()
                &&& forall|i: int|
                    0 <= i < old(self)@.samples.len() ==> #[trigger] final(self)@.samples[i]
                        == gained(
                        old(self)@.header.bits_per_sample,
                        old(self)@.samples[i],
                        numerator as int,
                        denominator as int,
                    )
            },
            numerator > 0 && numerator as int == denominator as int ==> final(self)@ == old(
                self,
            )@,
    {
        if numerator < 0 || denominator == 0 {
            return Err(WavError::InvalidGain);
        }
        let ghost before = self@;
        self.payload.samples.apply_gain(numerator as u64, denominator);
        proof {
            if numerator as int == denominator as int {
                assert forall|i: int| 0 <= i < before.samples.len() implies self@.samples[i]
                    == before.samples[i] by {
                    lemma_unit_gain(before.header.bits_per_sample, before.samples[i], numerator as int);
                }
                assert(self@.samples =~= before.samples);
            }
        }
        Ok(())
    }
}

impl Default for Wav {
    /// An empty stereo, 16-bit, 44100 Hz file.
    fn default() -> (r: Self)
        ensures
            r.wf(),
            r@.file_size == 36,
            r@.header == (FileHeader {
                bloc_size: 16,
                audio_format: 1,
                nbr_channels: 2,
                frequency: 44100,
                byte_per_sec: 176400,
                byte_per_bloc: 4,
                bits_per_sample: 16,
            }),
            r@.metadata.len() == 0,
            r@.samples.len() == 0,
    {
        Wav::new(FileHeader::default(), Metadata::default(), Payload::default())
    }
}

} // verus!
