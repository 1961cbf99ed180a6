//! The byte layout of a PCM16 stereo WAV capture: its 44-byte header, the sample bytes of each
//! batch, and the size bookkeeping that decides whether a batch still fits the RIFF limits.

use vstd::prelude::*;
use super::wire::u32_bytes;
use super::snapshot::push_u32;

verus! {

/// The 44-byte header of a PCM16 stereo WAV file at `rate` Hz with these RIFF and data sizes.
pub open spec fn wav_header_bytes(rate: u32, riff_bytes: u32, data_bytes: u32) -> Seq<u8> {
    let byte_rate: u32 = if rate * 4 > u32::MAX { u32::MAX } else { (rate * 4) as u32 };
    seq![0x52u8, 0x49, 0x46, 0x46] + u32_bytes(riff_bytes) + seq![0x57u8, 0x41, 0x56, 0x45]
        + seq![0x66u8, 0x6d, 0x74, 0x20] + u32_bytes(16) + seq![1u8, 0, 2, 0]
        + u32_bytes(rate) + u32_bytes(byte_rate) + seq![4u8, 0, 16, 0]
        + seq![0x64u8, 0x61, 0x74, 0x61] + u32_bytes(data_bytes)
}

fn push_bytes(out: &mut Vec<u8>, b: &[u8])
    ensures final(out)@ == old(out)@ + b@,
{
    let mut k: usize = 0;
    while k < b.len()
        invariant k <= b@.len(), out@ == old(out)@ + b@.subrange(0, k as int),
        decreases b.len() - k,
    {
        out.push(b[k]);
        k += 1;
        assert(out@ =~= old(out)@ + b@.subrange(0, k as int));
    }
    assert(b@.subrange(0, b@.len() as int) =~= b@);
}

/// The header of a PCM16 stereo WAV file ([`wav_header_bytes`]).
pub fn wav_header(sample_rate_hz: u32, riff_bytes: u32, data_bytes: u32) -> (r: [u8; 44])
    ensures r@ == wav_header_bytes(sample_rate_hz, riff_bytes, data_bytes),
{
    let byte_rate: u32 = if sample_rate_hz > u32::MAX / 4 { u32::MAX } else { sample_rate_hz * 4 };
    let mut v: Vec<u8> = Vec::new();
    push_bytes(&mut v, &[0x52, 0x49, 0x46, 0x46]);
    push_u32(&mut v, riff_bytes);
    push_bytes(&mut v, &[0x57, 0x41, 0x56, 0x45]);
    push_bytes(&mut v, &[0x66, 0x6d, 0x74, 0x20]);
    push_u32(&mut v, 16);
    push_bytes(&mut v, &[1, 0, 2, 0]);
    push_u32(&mut v, sample_rate_hz);
    push_u32(&mut v, byte_rate);
    push_bytes(&mut v, &[4, 0, 16, 0]);
    push_bytes(&mut v, &[0x64, 0x61, 0x74, 0x61]);
    push_u32(&mut v, data_bytes);
    assert(v@ =~= wav_header_bytes(sample_rate_hz, riff_bytes, data_bytes));
    let mut h = [0u8; 44];
    let mut k: usize = 0;
    while k < 44
        invariant k <= 44, v@.len() == 44, h@.len() == 44, forall|j: int| 0 <= j < k ==> h@[j] == v@[j],
        decreases 44 - k,
    {
        h[k] = v[k];
        k += 1;
    }
    assert(h@ =~= v@);
    h
}

/// The data size after a batch of `frames_len` samples at `rate` joins a capture at
/// `sink_rate` that holds `data_bytes`: refused (`None`) after an earlier failure, at another
/// rate, for an odd sample count, or when the total would pass `u32::MAX` bytes.
pub open spec fn wav_total_after(failed: bool, sink_rate: u32, data_bytes: u64, frames_len: nat, rate: u32) -> Option<u64> {
    if failed || rate != sink_rate || frames_len % 2 != 0 || data_bytes + 2 * frames_len > u32::MAX {
        None
    } else {
        Some((data_bytes + 2 * frames_len) as u64)
    }
}

/// Whether a batch may be appended, and the data size after it ([`wav_total_after`]).
pub fn wav_accepts(failed: bool, sink_rate: u32, data_bytes: u64, frames_len: usize, rate: u32) -> (r: Option<u64>)
    ensures r == wav_total_after(failed, sink_rate, data_bytes, frames_len as nat, rate),
{
    if failed || rate != sink_rate || frames_len % 2 != 0 {
        return None;
    }
    let byte_len = match (frames_len as u64).checked_mul(2) {
        Some(b) => b,
        None => return None,
    };
    match data_bytes.checked_add(byte_len) {
        Some(t) => if t > u32::MAX as u64 { None } else { Some(t) },
        None => None,
    }
}

/// The little-endian bytes of the interleaved samples `frames`.
pub open spec fn sample_bytes(frames: Seq<i16>) -> Seq<u8>
    decreases frames.len(),
{
    if frames.len() == 0 {
        Seq::empty()
    } else {
        let u = frames.last() as u16;
        sample_bytes(frames.drop_last()) + seq![(u % 256) as u8, (u / 256) as u8]
    }
}

/// The bytes a batch of samples is written as ([`sample_bytes`]).
pub fn pcm_bytes(frames: &[i16]) -> (r: Vec<u8>)
    ensures r@ == sample_bytes(frames@),
{
    let mut out: Vec<u8> = Vec::new();
    let mut k: usize = 0;
    while k < frames.len()
        invariant k <= frames@.len(), out@ == sample_bytes(frames@.subrange(0, k as int)),
        decreases frames.len() - k,
    {
        let u = frames[k] as u16;
        out.push((u % 256) as u8);
        out.push((u / 256) as u8);
        proof {
            assert(frames@.subrange(0, k + 1).drop_last() =~= frames@.subrange(0, k as int));
        }
        k += 1;
        assert(out@ =~= sample_bytes(frames@.subrange(0, k as int)));
    }
    assert(frames@.subrange(0, frames@.len() as int) =~= frames@);
    out
}

/// The RIFF and data sizes a finished capture of `data_bytes` records, or `None` when they do
/// not fit the 32-bit fields.
pub fn wav_sizes(data_bytes: u64) -> (r: Option<(u32, u32)>)
    ensures r == (if data_bytes + 36 > u32::MAX { None } else { Some(((data_bytes + 36) as u32, data_bytes as u32)) }),
{
    if data_bytes > u32::MAX as u64 - 36 {
        return None;
    }
    Some(((data_bytes + 36) as u32, data_bytes as u32))
}

} // verus!
