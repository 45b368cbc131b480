//! What holds across the codec's functions: decoding what was encoded gives
//! back the file, and the gain behaves as a saturating scale factor.
use crate::le::{
    bytes2, bytes4, lemma_i16_round_trip, lemma_i32_round_trip, lemma_u16_round_trip,
    lemma_u32_round_trip,
};
use crate::samples::{decode_samples, gained, sample_max, sample_min, sample_width};
use crate::wav::{
    data_at, data_tag, data_tag_index, decode_payload, decode_wav, encode_samples, encode_wav,
    first_data_at, fmt_tag, header_bytes, header_of, payload_bytes, riff_tag, wave_tag,
    FileHeader, WavError,
};
use vstd::prelude::*;

verus! {

/// Every value of a sample sequence fits its bit depth.
pub open spec fn in_range(bits: u16, v: Seq<int>) -> bool {
    forall|i: int| 0 <= i < v.len() ==> sample_min(bits) <= #[trigger] v[i] <= sample_max(bits)
}

/// The format descriptor read back from its encoding is the one encoded.
pub proof fn lemma_header_round_trip(h: FileHeader)
    ensures
        header_bytes(h).len() == 24,
        header_bytes(h).subrange(0, 4) == fmt_tag(),
        header_of(header_bytes(h).subrange(4, 24)) == h,
{
    lemma_u32_round_trip(h.bloc_size as int);
    lemma_u16_round_trip(h.audio_format as int);
    lemma_u16_round_trip(h.nbr_channels as int);
    lemma_u32_round_trip(h.frequency as int);
    lemma_u32_round_trip(h.byte_per_sec as int);
    lemma_u16_round_trip(h.byte_per_bloc as int);
    lemma_u16_round_trip(h.bits_per_sample as int);
    let e = header_bytes(h);
    assert(e.subrange(0, 4) =~= fmt_tag());
    let b = e.subrange(4, 24);
    assert(b.subrange(0, 4) =~= bytes4(h.bloc_size as int));
    assert(b.subrange(4, 6) =~= bytes2(h.audio_format as int));
    assert(b.subrange(6, 8) =~= bytes2(h.nbr_channels as int));
    assert(b.subrange(8, 12) =~= bytes4(h.frequency as int));
    assert(b.subrange(12, 16) =~= bytes4(h.byte_per_sec as int));
    assert(b.subrange(16, 18) =~= bytes2(h.byte_per_bloc as int));
    assert(b.subrange(18, 20) =~= bytes2(h.bits_per_sample as int));
    assert(b[0] == b.subrange(0, 4)[0] && b[1] == b.subrange(0, 4)[1]);
    assert(b[2] == b.subrange(0, 4)[2] && b[3] == b.subrange(0, 4)[3]);
    assert(b[4] == b.subrange(4, 6)[0] && b[5] == b.subrange(4, 6)[1]);
    assert(b[6] == b.subrange(6, 8)[0] && b[7] == b.subrange(6, 8)[1]);
    assert(b[8] == b.subrange(8, 12)[0] && b[9] == b.subrange(8, 12)[1]);
    assert(b[10] == b.subrange(8, 12)[2] && b[11] == b.subrange(8, 12)[3]);
    assert(b[12] == b.subrange(12, 16)[0] && b[13] == b.subrange(12, 16)[1]);
    assert(b[14] == b.subrange(12, 16)[2] && b[15] == b.subrange(12, 16)[3]);
    assert(b[16] == b.subrange(16, 18)[0] && b[17] == b.subrange(16, 18)[1]);
    assert(b[18] == b.subrange(18, 20)[0] && b[19] == b.subrange(18, 20)[1]);
}

/// Samples decoded from bytes fit their bit depth.
pub proof fn lemma_decoded_in_range(bits: u16, d: Seq<u8>)
    ensures
        in_range(bits, decode_samples(bits, d)),
{
}

/// Samples that fit their bit depth, encoded and decoded, are unchanged.
pub proof fn lemma_samples_round_trip(bits: u16, v: Seq<int>)
    requires
        bits == 16 || bits == 32,
        in_range(bits, v),
    ensures
        encode_samples(bits, v).len() == v.len() * sample_width(bits),
        decode_samples(bits, encode_samples(bits, v)) == v,
{
    let e = encode_samples(bits, v);
    if bits == 16 {
        assert forall|i: int| 0 <= i < v.len() implies #[trigger] decode_samples(bits, e)[i]
            == v[i] by {
            lemma_i16_round_trip(v[i]);
            assert((2 * i) / 2 == i && (2 * i) % 2 == 0);
            assert((2 * i + 1) / 2 == i && (2 * i + 1) % 2 == 1);
        }
    } else {
        assert forall|i: int| 0 <= i < v.len() implies #[trigger] decode_samples(bits, e)[i]
            == v[i] by {
            lemma_i32_round_trip(v[i]);
            assert((4 * i) / 4 == i && (4 * i) % 4 == 0);
            assert((4 * i + 1) / 4 == i && (4 * i + 1) % 4 == 1);
            assert((4 * i + 2) / 4 == i && (4 * i + 2) % 4 == 2);
            assert((4 * i + 3) / 4 == i && (4 * i + 3) % 4 == 3);
        }
    }
    assert(decode_samples(bits, e) =~= v);
}

/// Two sequences that agree up to and including a first tag `data` at `k`
/// have their first tag `data` at `k`.
proof fn lemma_first_tag_kept(s: Seq<u8>, t: Seq<u8>, k: int)
    requires
        first_data_at(s, k),
        k + 4 <= t.len(),
        forall|i: int| 0 <= i < k + 4 ==> s[i] == t[i],
    ensures
        data_tag_index(t) == Some(k),
{
    assert forall|j: int| 0 <= j < k implies !data_at(t, j) by {
        assert(!data_at(s, j));
        assert(s[j] == t[j] && s[j + 1] == t[j + 1] && s[j + 2] == t[j + 2] && s[j + 3] == t[
            j + 3
        ]);
    }
    assert(s[k] == t[k] && s[k + 1] == t[k + 1] && s[k + 2] == t[k + 2] && s[k + 3] == t[k + 3]);
    assert(first_data_at(t, k));
    let c = choose|c: int| first_data_at(t, c);
    assert(!(c < k) && !(k < c));
}

/// The fixed region of an encoded file holds the tags and the format
/// descriptor; the metadata and the data sub-chunk follow it.
proof fn lemma_encoded_layout(m: crate::wav::WavModel)
    ensures
        encode_wav(m).len() >= 36,
        encode_wav(m).subrange(0, 4) == riff_tag(),
        encode_wav(m).subrange(8, 12) == wave_tag(),
        encode_wav(m).subrange(12, 16) == fmt_tag(),
        header_of(encode_wav(m).subrange(16, 36)) == m.header,
        encode_wav(m).subrange(36, encode_wav(m).len() as int) == m.metadata + payload_bytes(
            m.header.bits_per_sample,
            m.samples,
        ),
{
    reveal(encode_wav);
    lemma_header_round_trip(m.header);
    lemma_u32_round_trip(0);
    let e = encode_wav(m);
    let hb = header_bytes(m.header);
    let pb = payload_bytes(m.header.bits_per_sample, m.samples);
    let size = bytes4(crate::wav::riff_size(m));
    assert(e =~= riff_tag() + size + wave_tag() + hb + m.metadata + pb);
    assert(e.subrange(0, 4) =~= riff_tag());
    assert(e.subrange(8, 12) =~= wave_tag());
    assert(e.subrange(12, 16) =~= hb.subrange(0, 4));
    assert(e.subrange(16, 36) =~= hb.subrange(4, 24));
    assert(e.subrange(36, e.len() as int) =~= m.metadata + pb);
}

/// A data sub-chunk after its tag decodes to the samples it was encoded from.
proof fn lemma_payload_round_trip(bits: u16, v: Seq<int>)
    requires
        bits == 16 || bits == 32,
        in_range(bits, v),
    ensures
        payload_bytes(bits, v).subrange(0, 4) == data_tag(),
        decode_payload(bits, payload_bytes(bits, v).subrange(4, payload_bytes(bits, v).len() as int))
            == Ok::<Seq<int>, WavError>(v),
{
    lemma_samples_round_trip(bits, v);
    lemma_u32_round_trip(0);
    let pb = payload_bytes(bits, v);
    assert(pb.subrange(0, 4) =~= data_tag());
    let payload = pb.subrange(4, pb.len() as int);
    assert(payload =~= bytes4(v.len() * sample_width(bits)) + encode_samples(bits, v));
    assert(payload.subrange(4, payload.len() as int) =~= encode_samples(bits, v));
    assert(payload.len() - 4 == v.len() * sample_width(bits));
    vstd::arithmetic::div_mod::lemma_mod_multiples_basic(v.len() as int, sample_width(bits));
    assert((payload.len() - 4) % sample_width(bits) == 0);
}

/// What a successful decode tells of the buffer: where its first tag `data`
/// stands after the fixed region, and that its samples fit their bit depth.
proof fn lemma_decoded_parts(b: Seq<u8>) -> (k: int)
    requires
        decode_wav(b) is Ok,
    ensures
        first_data_at(b.subrange(36, b.len() as int), k),
        decode_wav(b)->Ok_0.metadata == b.subrange(36, b.len() as int).take(k),
        decode_wav(b)->Ok_0.header.bits_per_sample == 16 || decode_wav(
            b,
        )->Ok_0.header.bits_per_sample == 32,
        in_range(decode_wav(b)->Ok_0.header.bits_per_sample, decode_wav(b)->Ok_0.samples),
{
    reveal(decode_wav);
    let m = decode_wav(b)->Ok_0;
    let rest0 = b.subrange(36, b.len() as int);
    let k = data_tag_index(rest0)->Some_0;
    assert(exists|i: int| first_data_at(rest0, i));
    let payload0 = rest0.subrange(k + 4, rest0.len() as int);
    lemma_decoded_in_range(m.header.bits_per_sample, payload0.subrange(4, payload0.len() as int));
    k
}

/// A buffer with the right fixed region, a supported bit depth, a first tag
/// `data` after the metadata, and a well-formed data sub-chunk after that,
/// decodes to those parts.
proof fn lemma_decode_parts(e: Seq<u8>, meta: Seq<u8>, v: Seq<int>)
    requires
        e.len() >= 36,
        e.subrange(0, 4) == riff_tag(),
        e.subrange(8, 12) == wave_tag(),
        e.subrange(12, 16) == fmt_tag(),
        header_of(e.subrange(16, 36)).bits_per_sample == 16 || header_of(
            e.subrange(16, 36),
        ).bits_per_sample == 32,
        data_tag_index(e.subrange(36, e.len() as int)) == Some(meta.len() as int),
        e.subrange(36, e.len() as int).take(meta.len() as int) == meta,
        decode_payload(
            header_of(e.subrange(16, 36)).bits_per_sample,
            e.subrange(36, e.len() as int).subrange(meta.len() as int + 4, e.len() as int - 36),
        ) == Ok::<Seq<int>, WavError>(v),
    ensures
        decode_wav(e) is Ok,
        decode_wav(e)->Ok_0.header == header_of(e.subrange(16, 36)),
        decode_wav(e)->Ok_0.metadata == meta,
        decode_wav(e)->Ok_0.samples == v,
{
    reveal(decode_wav);
}

/// Decoding the encoding of a file decoded from `b` gives back its format
/// descriptor, its metadata bytes and its samples; only the size fields may
/// differ, since they are recomputed.
pub proof fn lemma_round_trip(b: Seq<u8>)
    requires
        decode_wav(b) is Ok,
    ensures
        decode_wav(encode_wav(decode_wav(b)->Ok_0)) is Ok,
        decode_wav(encode_wav(decode_wav(b)->Ok_0))->Ok_0.header == decode_wav(b)->Ok_0.header,
        decode_wav(encode_wav(decode_wav(b)->Ok_0))->Ok_0.metadata == decode_wav(
            b,
        )->Ok_0.metadata,
        decode_wav(encode_wav(decode_wav(b)->Ok_0))->Ok_0.samples == decode_wav(
            b,
        )->Ok_0.samples,
{
    let m = decode_wav(b)->Ok_0;
    let bits = m.header.bits_per_sample;
    let rest0 = b.subrange(36, b.len() as int);
    let k = lemma_decoded_parts(b);
    lemma_encoded_layout(m);
    lemma_payload_round_trip(bits, m.samples);
    let e = encode_wav(m);
    let pb = payload_bytes(bits, m.samples);
    let rest = e.subrange(36, e.len() as int);
    assert(rest == m.metadata + pb);
    assert(m.metadata.len() == k);
    assert forall|i: int| 0 <= i < k + 4 implies rest0[i] == rest[i] by {
        if i >= k {
            assert(rest[i] == pb[i - k]);
            assert(pb[i - k] == pb.subrange(0, 4)[i - k]);
        } else {
            assert(rest[i] == m.metadata[i]);
        }
    }
    lemma_first_tag_kept(rest0, rest, k);
    assert(rest.subrange(k + 4, e.len() as int - 36) =~= pb.subrange(4, pb.len() as int));
    assert(rest.take(k) =~= m.metadata);
    lemma_decode_parts(e, m.metadata, m.samples);
}

/// A buffer shorter than the fixed region is a malformed header.
pub proof fn lemma_short_buffer(b: Seq<u8>)
    requires
        b.len() < 36,
    ensures
        decode_wav(b) == Err::<crate::wav::WavModel, WavError>(WavError::MalformedHeader),
{
    reveal(decode_wav);
}

/// A buffer whose fixed region is right, with a supported bit depth, but with
/// no tag `data` after it, is a malformed payload.
pub proof fn lemma_missing_data_tag(b: Seq<u8>)
    requires
        b.len() >= 36,
        b.subrange(0, 4) == riff_tag(),
        b.subrange(8, 12) == wave_tag(),
        b.subrange(12, 16) == fmt_tag(),
        header_of(b.subrange(16, 36)).bits_per_sample == 16 || header_of(
            b.subrange(16, 36),
        ).bits_per_sample == 32,
        forall|j: int| !data_at(b.subrange(36, b.len() as int), j),
    ensures
        decode_wav(b) == Err::<crate::wav::WavModel, WavError>(WavError::MalformedPayload),
{
    reveal(decode_wav);
}

/// A buffer whose fixed region is right but whose bit depth is neither 16 nor
/// 32 is refused as such, whatever follows.
pub proof fn lemma_unsupported_bit_depth(b: Seq<u8>)
    requires
        b.len() >= 36,
        b.subrange(0, 4) == riff_tag(),
        b.subrange(8, 12) == wave_tag(),
        b.subrange(12, 16) == fmt_tag(),
        header_of(b.subrange(16, 36)).bits_per_sample != 16,
        header_of(b.subrange(16, 36)).bits_per_sample != 32,
    ensures
        decode_wav(b) == Err::<crate::wav::WavModel, WavError>(WavError::UnsupportedBitDepth),
{
    reveal(decode_wav);
}

/// A gain of one leaves a sample that fits its bit depth unchanged.
pub proof fn lemma_unit_gain(bits: u16, s: int, n: int)
    requires
        n > 0,
        sample_min(bits) <= s <= sample_max(bits),
    ensures
        gained(bits, s, n, n) == s,
{
    if s >= 0 {
        assert((s * n) / n == s) by (nonlinear_arith)
            requires
                n > 0,
        ;
    } else {
        assert((-s * n) / n == -s) by (nonlinear_arith)
            requires
                n > 0,
        ;
    }
}

/// A gained sample fits its bit depth, and the greatest sample scaled by a
/// gain above one stays the greatest.
pub proof fn lemma_gain_saturates(bits: u16, s: int, n: int, d: int)
    requires
        n >= 0,
        d > 0,
    ensures
        sample_min(bits) <= gained(bits, s, n, d) <= sample_max(bits),
        n > d ==> gained(bits, sample_max(bits), n, d) == sample_max(bits),
{
    let mx = sample_max(bits);
    if n > d {
        assert((mx * n) / d >= mx) by (nonlinear_arith)
            requires
                mx > 0,
                n > d,
                d > 0,
        {
            assert(mx * n >= mx * d);
            vstd::arithmetic::div_mod::lemma_div_is_ordered(mx * d, mx * n, d);
            vstd::arithmetic::div_mod::lemma_div_multiples_vanish(mx, d);
        }
    }
}

/// Of two gains, the greater gives a non-negative sample a result at least
/// as great.
pub proof fn lemma_gain_monotonic(bits: u16, s: int, n1: int, d1: int, n2: int, d2: int)
    requires
        s >= 0,
        n1 >= 0,
        n2 >= 0,
        d1 > 0,
        d2 > 0,
        n1 * d2 < n2 * d1,
    ensures
        gained(bits, s, n1, d1) <= gained(bits, s, n2, d2),
{
    let q1 = (s * n1) / d1;
    let q2 = (s * n2) / d2;
    assert(q1 <= q2) by (nonlinear_arith)
        requires
            s >= 0,
            n1 >= 0,
            d1 > 0,
            d2 > 0,
            n1 * d2 < n2 * d1,
            q1 == (s * n1) / d1,
            q2 == (s * n2) / d2,
    {
        vstd::arithmetic::div_mod::lemma_fundamental_div_mod(s * n1, d1);
        vstd::arithmetic::div_mod::lemma_mod_pos_bound(s * n1, d1);
        assert(q1 * d1 <= s * n1);
        assert(q1 * d1 * d2 <= s * n1 * d2);
        assert(s * n1 * d2 <= s * n2 * d1);
        assert(q1 * d2 * d1 <= s * n2 * d1);
        assert(q1 * d2 <= s * n2);
        vstd::arithmetic::div_mod::lemma_div_is_ordered(q1 * d2, s * n2, d2);
        vstd::arithmetic::div_mod::lemma_div_multiples_vanish(q1, d2);
    }
}

} // verus!
