//! Interleaved PCM samples of one of the two supported widths, and the gain
//! applied to them.
use crate::le::{i16_le, i32_le, read_i16_at, read_i32_at};
use vstd::prelude::*;

verus! {

/// Bytes taken by one sample of the given bit depth (16 or 32).
pub open spec fn sample_width(bits: u16) -> int {
    if bits == 16 { 2 } else { 4 }
}

/// The samples that raw little-endian bytes hold at the given bit depth; a
/// trailing partial sample is not read.
pub open spec fn decode_samples(bits: u16, d: Seq<u8>) -> Seq<int> {
    if bits == 16 {
        Seq::new(d.len() / 2, |i: int| i16_le(d[2 * i], d[2 * i + 1]))
    } else {
        Seq::new(d.len() / 4, |i: int| i32_le(d[4 * i], d[4 * i + 1], d[4 * i + 2], d[4 * i + 3]))
    }
}

/// Least and greatest value of a sample of the given bit depth.
pub open spec fn sample_min(bits: u16) -> int {
    if bits == 16 { -32768 } else { -2147483648 }
}

pub open spec fn sample_max(bits: u16) -> int {
    if bits == 16 { 32767 } else { 2147483647 }
}

/// `s` times `num / den`, truncated toward zero.
pub open spec fn scale(s: int, num: int, den: int) -> int {
    if s >= 0 { (s * num) / den } else { -((-s * num) / den) }
}

pub open spec fn clamp(v: int, lo: int, hi: int) -> int {
    if v < lo { lo } else if v > hi { hi } else { v }
}

/// A sample after a gain of `num / den`: scaled, truncated toward zero and
/// saturated to the range of its bit depth.
pub open spec fn gained(bits: u16, s: int, num: int, den: int) -> int {
    clamp(scale(s, num, den), sample_min(bits), sample_max(bits))
}

/// A buffer of samples, 16 or 32 bits wide.
#[derive(Clone, Debug)]
pub enum SampleBits {
    I16bits(Vec<i16>),
    I32bits(Vec<i32>),
}


/// The magnitude of `m * num / den`, truncated, saturated at `cap`.
fn scaled_magnitude(m: u64, num: u64, den: u64, cap: u64) -> (r: u64)
    requires
        den > 0,
        m <= 2147483648,
    ensures
        r as int == clamp((m as int * num as int) / den as int, 0, cap as int),
{
    assert(m as int * num as int <= 2147483648 * 18446744073709551615) by (nonlinear_arith)
        requires
            m <= 2147483648,
            num <= 18446744073709551615,
    ;
    let q: u128 = (m as u128) * (num as u128) / (den as u128);
    if q > cap as u128 {
        cap
    } else {
        q as u64
    }
}

/// One 16-bit sample after a gain of `num / den`.
fn gain_i16(s: i16, num: u64, den: u64) -> (r: i16)
    requires
        den > 0,
    ensures
        r as int == gained(16, s as int, num as int, den as int),
{
    if s >= 0 {
        scaled_magnitude(s as u64, num, den, 32767) as i16
    } else {
        let m = scaled_magnitude((-(s as i32)) as u64, num, den, 32768);
        (-(m as i32)) as i16
    }
}

/// One 32-bit sample after a gain of `num / den`.
fn gain_i32(s: i32, num: u64, den: u64) -> (r: i32)
    requires
        den > 0,
    ensures
        r as int == gained(32, s as int, num as int, den as int),
{
    if s >= 0 {
        scaled_magnitude(s as u64, num, den, 2147483647) as i32
    } else {
        let m = scaled_magnitude((-(s as i64)) as u64, num, den, 2147483648);
        (-(m as i64)) as i32
    }
}

impl SampleBits {
    /// The bit depth of the samples.
    pub open spec fn bits(&self) -> u16 {
        match self {
            SampleBits::I16bits(_) => 16,
            SampleBits::I32bits(_) => 32,
        }
    }

    /// The sample values, in order.
    pub open spec fn values(&self) -> Seq<int> {
        match self {
            SampleBits::I16bits(v) => v@.map_values(|x: i16| x as int),
            SampleBits::I32bits(v) => v@.map_values(|x: i32| x as int),
        }
    }

    /// The number of samples.
    pub fn len(&self) -> (r: usize)
        ensures
            r == self.values().len(),
    {
        match self {
            SampleBits::I16bits(v) => v.len(),
            SampleBits::I32bits(v) => v.len(),
        }
    }

    /// The bit depth of the samples.
    pub fn bit_depth(&self) -> (r: u16)
        ensures
            r == self.bits(),
    {
        match self {
            SampleBits::I16bits(_) => 16,
            SampleBits::I32bits(_) => 32,
        }
    }

    /// Appends the samples that `raw` holds, little-endian, at this buffer's
    /// bit depth.
    pub fn write_raw(&mut self, raw: &[u8])
        requires
            raw@.len() as int % sample_width(old(self).bits()) == 0,
        ensures
            final(self).bits() == old(self).bits(),
            final(self).values() == old(self).values() + decode_samples(old(self).bits(), raw@),
    {
        let ghost before = self.values();
        match self {
            SampleBits::I16bits(v) => {
                let len = raw.len();
                let n = len / 2;
                let mut k: usize = 0;
                while k < n
                    invariant
                        n == raw@.len() / 2,
                        len == raw@.len(),
                        2 * n <= len,
                        k <= n,
                        v@.map_values(|x: i16| x as int) == before + decode_samples(16, raw@).take(
                            k as int,
                        ),
                    decreases n - k,
                {
                    let x = read_i16_at(raw, 2 * k);
                    let ghost prev = v@;
                    v.push(x);
                    proof {
                        assert(v@.map_values(|x: i16| x as int) =~= prev.map_values(|x: i16| x as int).push(
                            x as int,
                        ));
                        assert(decode_samples(16, raw@).take(k + 1) =~= decode_samples(
                            16,
                            raw@,
                        ).take(k as int).push(x as int));
                        assert(v@.map_values(|x: i16| x as int) =~= before + decode_samples(
                            16,
                            raw@,
                        ).take(k + 1));
                    }
                    k = k + 1;
                }
                assert(decode_samples(16, raw@).take(n as int) =~= decode_samples(16, raw@));
            },
            SampleBits::I32bits(v) => {
                let len = raw.len();
                let n = len / 4;
                let mut k: usize = 0;
                while k < n
                    invariant
                        n == raw@.len() / 4,
                        len == raw@.len(),
                        4 * n <= len,
                        k <= n,
                        v@.map_values(|x: i32| x as int) == before + decode_samples(32, raw@).take(
                            k as int,
                        ),
                    decreases n - k,
                {
                    let x = read_i32_at(raw, 4 * k);
                    let ghost prev = v@;
                    v.push(x);
                    proof {
                        assert(v@.map_values(|x: i32| x as int) =~= prev.map_values(|x: i32| x as int).push(
                            x as int,
                        ));
                        assert(decode_samples(32, raw@).take(k + 1) =~= decode_samples(
                            32,
                            raw@,
                        ).take(k as int).push(x as int));
                        assert(v@.map_values(|x: i32| x as int) =~= before + decode_samples(
                            32,
                            raw@,
                        ).take(k + 1));
                    }
                    k = k + 1;
                }
                assert(decode_samples(32, raw@).take(n as int) =~= decode_samples(32, raw@));
            },
        }
    }
    /// Multiplies every sample by `num / den`, truncating toward zero and
    /// saturating at the range of the bit depth.
    pub fn apply_gain(&mut self, num: u64, den: u64)
        requires
            den > 0,
        ensures
            final(self).bits() == old(self).bits(),
            final(self).values().len() == old(self).values().len(),
            forall|i: int|
                0 <= i < old(self).values().len() ==> #[trigger] final(self).values()[i] == gained(
                    old(self).bits(),
                    old(self).values()[i],
                    num as int,
                    den as int,
                ),
    {
        let ghost before = self.values();
        match self {
            SampleBits::I16bits(v) => {
                let n = v.len();
                let mut k: usize = 0;
                while k < n
                    invariant
                        n == v@.len(),
                        n == before.len(),
                        den > 0,
                        k <= n,
                        forall|i: int|
                            0 <= i < k ==> #[trigger] v@[i] as int == gained(
                                16,
                                before[i],
                                num as int,
                                den as int,
                            ),
                        forall|i: int| k <= i < n ==> #[trigger] v@[i] as int == before[i],
                    decreases n - k,
                {
                    let x = gain_i16(v[k], num, den);
                    v.set(k, x);
                    k = k + 1;
                }
            },
            SampleBits::I32bits(v) => {
                let n = v.len();
                let mut k: usize = 0;
                while k < n
                    invariant
                        n == v@.len(),
                        n == before.len(),
                        den > 0,
                        k <= n,
                        forall|i: int|
                            0 <= i < k ==> #[trigger] v@[i] as int == gained(
                                32,
                                before[i],
                                num as int,
                                den as int,
                            ),
                        forall|i: int| k <= i < n ==> #[trigger] v@[i] as int == before[i],
                    decreases n - k,
                {
                    let x = gain_i32(v[k], num, den);
                    v.set(k, x);
                    k = k + 1;
                }
            },
        }
    }
}

} // verus!
