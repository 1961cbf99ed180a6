//! Little-endian wire encoding of the virtio-snd control and queue records. Every record has a
//! fixed size; decoding never reads beyond the bytes provided.

use vstd::prelude::*;
use super::{SndStatus, status_code};

verus! {

/// The four little-endian bytes of `v`.
pub open spec fn u32_bytes(v: u32) -> Seq<u8> {
    seq![(v & 0xff) as u8, ((v >> 8u32) & 0xff) as u8, ((v >> 16u32) & 0xff) as u8, ((v >> 24u32) & 0xff) as u8]
}

/// The eight little-endian bytes of `v`.
pub open spec fn u64_bytes(v: u64) -> Seq<u8> {
    u32_bytes((v & 0xffff_ffff) as u32) + u32_bytes((v >> 32u64) as u32)
}

/// The little-endian `u32` at `off` in `s`.
pub open spec fn u32_at(s: Seq<u8>, off: int) -> u32 {
    (s[off] as u32) | ((s[off + 1] as u32) << 8u32) | ((s[off + 2] as u32) << 16u32) | ((s[off + 3] as u32) << 24u32)
}

/// The little-endian `u64` at `off` in `s`.
pub open spec fn u64_at(s: Seq<u8>, off: int) -> u64 {
    (u32_at(s, off) as u64) | ((u32_at(s, off + 4) as u64) << 32u64)
}

/// Decoding the encoding of a `u32` gives it back.
pub proof fn lemma_u32_roundtrip(v: u32)
    ensures u32_at(u32_bytes(v), 0) == v,
{
    assert(((v & 0xff) as u8 as u32) | ((((v >> 8u32) & 0xff) as u8 as u32) << 8u32)
        | ((((v >> 16u32) & 0xff) as u8 as u32) << 16u32) | ((((v >> 24u32) & 0xff) as u8 as u32) << 24u32) == v) by (bit_vector);
}

/// Decoding the encoding of a `u64` gives it back.
pub proof fn lemma_u64_roundtrip(v: u64)
    ensures u64_at(u64_bytes(v), 0) == v,
{
    let lo = (v & 0xffff_ffff) as u32;
    let hi = (v >> 32u64) as u32;
    lemma_u32_roundtrip(lo);
    lemma_u32_roundtrip(hi);
    let s = u64_bytes(v);
    assert(s.subrange(0, 4) =~= u32_bytes(lo));
    assert(s.subrange(4, 8) =~= u32_bytes(hi));
    assert(u32_at(s, 0) == u32_at(u32_bytes(lo), 0));
    assert(u32_at(s, 4) == u32_at(u32_bytes(hi), 0));
    assert((((v & 0xffff_ffff) as u32) as u64) | ((((v >> 32u64) as u32) as u64) << 32u64) == v) by (bit_vector);
}

/// `out` with the bytes of `v` at `off`.
pub open spec fn with_u32(out: Seq<u8>, off: int, v: u32) -> Seq<u8> {
    out.subrange(0, off) + u32_bytes(v) + out.subrange(off + 4, out.len() as int)
}

/// Write `v` little-endian at `out[off..off + 4]`.
pub fn put_u32<const N: usize>(out: &mut [u8; N], off: usize, v: u32)
    requires off + 4 <= N,
    ensures final(out)@ == with_u32(old(out)@, off as int, v),
{
    out[off] = (v & 0xff) as u8;
    out[off + 1] = ((v >> 8u32) & 0xff) as u8;
    out[off + 2] = ((v >> 16u32) & 0xff) as u8;
    out[off + 3] = ((v >> 24u32) & 0xff) as u8;
    assert(out@ =~= with_u32(old(out)@, off as int, v));
}

/// Write `v` little-endian at `out[off..off + 8]`.
pub fn put_u64<const N: usize>(out: &mut [u8; N], off: usize, v: u64)
    requires off + 8 <= N,
    ensures final(out)@ == old(out)@.subrange(0, off as int) + u64_bytes(v) + old(out)@.subrange(off + 8, N as int),
{
    put_u32(out, off, (v & 0xffff_ffff) as u32);
    put_u32(out, off + 4, (v >> 32u64) as u32);
    assert(out@ =~= old(out)@.subrange(0, off as int) + u64_bytes(v) + old(out)@.subrange(off + 8, N as int));
}

/// The little-endian `u32` at `offset`, or `None` when fewer than four bytes remain.
pub fn read_u32(bytes: &[u8], offset: usize) -> (r: Option<u32>)
    ensures
        offset + 4 <= bytes@.len() ==> r == Some(u32_at(bytes@, offset as int)),
        offset + 4 > bytes@.len() ==> r is None,
{
    if offset > bytes.len() || bytes.len() - offset < 4 {
        return None;
    }
    Some((bytes[offset] as u32) | ((bytes[offset + 1] as u32) << 8u32) | ((bytes[offset + 2] as u32) << 16u32)
        | ((bytes[offset + 3] as u32) << 24u32))
}

/// A virtio-snd item-information request: four little-endian u32 fields.
#[derive(Debug, Clone, Copy, PartialEq, Eq)]
pub struct QueryInfo {
    pub code: u32,
    pub start_id: u32,
    pub count: u32,
    pub size: u32,
}

impl QueryInfo {
    /// The 16 encoded bytes.
    pub open spec fn spec_bytes(self) -> Seq<u8> {
        u32_bytes(self.code) + u32_bytes(self.start_id) + u32_bytes(self.count) + u32_bytes(self.size)
    }

    /// Encode the exact 16-byte request layout.
    pub fn to_bytes(self) -> (r: [u8; 16])
        ensures r@ == self.spec_bytes(),
    {
        let mut out = [0u8; 16];
        put_u32(&mut out, 0, self.code);
        put_u32(&mut out, 4, self.start_id);
        put_u32(&mut out, 8, self.count);
        put_u32(&mut out, 12, self.size);
        assert(out@ =~= self.spec_bytes());
        out
    }

    /// Decode a complete query request; `None` when fewer than 16 bytes are given.
    pub fn from_bytes(bytes: &[u8]) -> (r: Option<Self>)
        ensures
            r == query_of(bytes@),
    {
        if bytes.len() < 16 {
            return None;
        }
        Some(QueryInfo {
            code: read_u32(bytes, 0)?,
            start_id: read_u32(bytes, 4)?,
            count: read_u32(bytes, 8)?,
            size: read_u32(bytes, 12)?,
        })
    }
}

/// Information common to every returned sound item.
#[derive(Debug, Clone, Copy, PartialEq, Eq)]
pub struct SndInfo {
    pub hda_fn_nid: u32,
}

/// One output jack information record.
#[derive(Debug, Clone, Copy, PartialEq, Eq)]
pub struct JackInfo {
    pub hda_fn_nid: u32,
    pub features: u32,
    pub hda_reg_defconf: u32,
    pub hda_reg_caps: u32,
    pub connected: u8,
}

impl JackInfo {
    /// The single connected output jack exposed by this device.
    pub fn output() -> (r: Self)
        ensures r == (JackInfo { hda_fn_nid: 0, features: 0, hda_reg_defconf: 0, hda_reg_caps: 0, connected: 1 }),
    {
        JackInfo { hda_fn_nid: 0, features: 0, hda_reg_defconf: 0, hda_reg_caps: 0, connected: 1 }
    }

    /// The 24 encoded bytes.
    pub open spec fn spec_bytes(self) -> Seq<u8> {
        u32_bytes(self.hda_fn_nid) + u32_bytes(self.features) + u32_bytes(self.hda_reg_defconf)
            + u32_bytes(self.hda_reg_caps) + seq![self.connected] + Seq::new(7, |i: int| 0u8)
    }

    /// Encode the exact 24-byte `virtio_snd_jack_info` layout with zero padding.
    pub fn to_bytes(self) -> (r: [u8; 24])
        ensures r@ == self.spec_bytes(),
    {
        let mut out = [0u8; 24];
        put_u32(&mut out, 0, self.hda_fn_nid);
        put_u32(&mut out, 4, self.features);
        put_u32(&mut out, 8, self.hda_reg_defconf);
        put_u32(&mut out, 12, self.hda_reg_caps);
        out[16] = self.connected;
        assert(out@ =~= self.spec_bytes());
        out
    }
}

} // verus!

verus! {

/// One PCM stream capability record.
#[derive(Debug, Clone, Copy, PartialEq, Eq)]
pub struct PcmInfo {
    pub hda_fn_nid: u32,
    pub features: u32,
    pub formats: u64,
    pub rates: u64,
    pub direction: u8,
    pub channels_min: u8,
    pub channels_max: u8,
}

impl PcmInfo {
    /// The stereo S16 output stream with a caller-selected rate bitmap; XRUN notifications are
    /// advertised.
    pub fn output_with_rates(rates: u64) -> (r: Self)
        ensures r == (PcmInfo {
            hda_fn_nid: 0, features: super::VIRTIO_SND_PCM_F_EVT_XRUNS, formats: 0x20, rates,
            direction: super::VIRTIO_SND_D_OUTPUT, channels_min: 2, channels_max: 2,
        }),
    {
        PcmInfo {
            hda_fn_nid: 0,
            features: super::VIRTIO_SND_PCM_F_EVT_XRUNS,
            formats: 0x20,
            rates,
            direction: super::VIRTIO_SND_D_OUTPUT,
            channels_min: 2,
            channels_max: 2,
        }
    }

    /// The default output capability: 44.1 kHz and 48 kHz.
    pub fn output() -> (r: Self)
        ensures r == (PcmInfo {
            hda_fn_nid: 0, features: super::VIRTIO_SND_PCM_F_EVT_XRUNS, formats: 0x20, rates: super::SUPPORTED_PCM_RATE_MASK,
            direction: super::VIRTIO_SND_D_OUTPUT, channels_min: 2, channels_max: 2,
        }),
    {
        Self::output_with_rates(super::SUPPORTED_PCM_RATE_MASK)
    }

    /// The mono/stereo S16 input stream with a caller-selected rate bitmap.
    pub fn input_with_rates(rates: u64) -> (r: Self)
        ensures r == (PcmInfo {
            hda_fn_nid: 0, features: super::VIRTIO_SND_PCM_F_EVT_XRUNS, formats: 0x20, rates,
            direction: super::VIRTIO_SND_D_INPUT, channels_min: 1, channels_max: 2,
        }),
    {
        PcmInfo {
            hda_fn_nid: 0,
            features: super::VIRTIO_SND_PCM_F_EVT_XRUNS,
            formats: 0x20,
            rates,
            direction: super::VIRTIO_SND_D_INPUT,
            channels_min: 1,
            channels_max: 2,
        }
    }

    /// The input capability: S16 mono/stereo at 48 kHz.
    pub fn input() -> (r: Self)
        ensures r == (PcmInfo {
            hda_fn_nid: 0, features: super::VIRTIO_SND_PCM_F_EVT_XRUNS, formats: 0x20, rates: super::SUPPORTED_CAPTURE_PCM_RATE_MASK,
            direction: super::VIRTIO_SND_D_INPUT, channels_min: 1, channels_max: 2,
        }),
    {
        Self::input_with_rates(super::SUPPORTED_CAPTURE_PCM_RATE_MASK)
    }

    /// The 32 encoded bytes.
    pub open spec fn spec_bytes(self) -> Seq<u8> {
        u32_bytes(self.hda_fn_nid) + u32_bytes(self.features) + u64_bytes(self.formats) + u64_bytes(self.rates)
            + seq![self.direction, self.channels_min, self.channels_max] + Seq::new(5, |i: int| 0u8)
    }

    /// Encode the exact 32-byte `virtio_snd_pcm_info` layout with zero padding.
    pub fn to_bytes(self) -> (r: [u8; 32])
        ensures r@ == self.spec_bytes(),
    {
        let mut out = [0u8; 32];
        put_u32(&mut out, 0, self.hda_fn_nid);
        put_u32(&mut out, 4, self.features);
        put_u64(&mut out, 8, self.formats);
        put_u64(&mut out, 16, self.rates);
        out[24] = self.direction;
        out[25] = self.channels_min;
        out[26] = self.channels_max;
        assert(out@ =~= self.spec_bytes());
        out
    }
}

/// One stereo front-left/front-right channel map record.
#[derive(Debug, Clone, Copy, PartialEq, Eq)]
pub struct ChmapInfo {
    pub hda_fn_nid: u32,
    pub direction: u8,
    pub channels: u8,
    pub positions: [u8; 18],
}

impl ChmapInfo {
    /// The one interleaved stereo output map.
    pub fn output() -> (r: Self)
        ensures
            r.hda_fn_nid == 0, r.direction == super::VIRTIO_SND_D_OUTPUT, r.channels == 2,
            r.positions@ == seq![super::VIRTIO_SND_CHMAP_FL, super::VIRTIO_SND_CHMAP_FR] + Seq::new(16, |i: int| 0u8),
    {
        let mut positions = [0u8; 18];
        positions[0] = super::VIRTIO_SND_CHMAP_FL;
        positions[1] = super::VIRTIO_SND_CHMAP_FR;
        assert(positions@ =~= seq![super::VIRTIO_SND_CHMAP_FL, super::VIRTIO_SND_CHMAP_FR] + Seq::new(16, |i: int| 0u8));
        ChmapInfo { hda_fn_nid: 0, direction: super::VIRTIO_SND_D_OUTPUT, channels: 2, positions }
    }

    /// The 24 encoded bytes.
    pub open spec fn spec_bytes(self) -> Seq<u8> {
        u32_bytes(self.hda_fn_nid) + seq![self.direction, self.channels] + self.positions@
    }

    /// Encode the exact 24-byte `virtio_snd_chmap_info` layout.
    pub fn to_bytes(self) -> (r: [u8; 24])
        ensures r@ == self.spec_bytes(),
    {
        let mut out = [0u8; 24];
        put_u32(&mut out, 0, self.hda_fn_nid);
        out[4] = self.direction;
        out[5] = self.channels;
        let mut k: usize = 0;
        while k < 18
            invariant
                k <= 18,
                out@.len() == 24,
                out@.subrange(0, 6) == u32_bytes(self.hda_fn_nid) + seq![self.direction, self.channels],
                forall|j: int| 0 <= j < k ==> out@[6 + j] == self.positions@[j],
            decreases 18 - k,
        {
            out[6 + k] = self.positions[k];
            k += 1;
            assert(out@.subrange(0, 6) =~= u32_bytes(self.hda_fn_nid) + seq![self.direction, self.channels]);
        }
        assert(out@ =~= self.spec_bytes()) by {
            assert(out@.subrange(0, 6) =~= u32_bytes(self.hda_fn_nid) + seq![self.direction, self.channels]);
            assert forall|j: int| 0 <= j < 6 implies out@[j] == self.spec_bytes()[j] by {
                assert(out@[j] == out@.subrange(0, 6)[j]);
            }
        }
        out
    }
}

/// A `R_PCM_SET_PARAMS` request.
#[derive(Debug, Clone, Copy, PartialEq, Eq)]
pub struct PcmParams {
    pub stream_id: u32,
    pub buffer_bytes: u32,
    pub period_bytes: u32,
    pub features: u32,
    pub channels: u8,
    pub format: u8,
    pub rate: u8,
    pub padding: u8,
}

/// Whether `p` is acceptable for a stream with id `stream_id` and the given channel range: S16
/// frames, buffer and period multiples of the frame size, the buffer a multiple of the period and
/// at most 16 MiB, no features, a 44.1/48 kHz rate and zero padding.
pub open spec fn params_valid_for(p: PcmParams, stream_id: u32, channels_min: u8, channels_max: u8) -> bool {
    let frame_bytes = ((p.channels as u32) * 2) as u32;
    &&& p.stream_id == stream_id
    &&& p.channels >= channels_min
    &&& p.channels <= channels_max
    &&& frame_bytes != 0
    &&& p.buffer_bytes >= frame_bytes
    &&& p.buffer_bytes <= super::MAX_PCM_BUFFER_BYTES
    &&& p.period_bytes >= frame_bytes
    &&& p.period_bytes <= p.buffer_bytes
    &&& p.buffer_bytes % frame_bytes == 0
    &&& p.period_bytes % frame_bytes == 0
    &&& p.buffer_bytes % p.period_bytes == 0
    &&& p.features == 0
    &&& p.format == super::VIRTIO_SND_PCM_FMT_S16
    &&& (p.rate == super::VIRTIO_SND_PCM_RATE_44100 || p.rate == super::VIRTIO_SND_PCM_RATE_48000)
    &&& p.padding == 0
}

/// The host sample rate of a rate enum value.
pub open spec fn sample_rate_of(rate: u8) -> Option<u32> {
    if rate == super::VIRTIO_SND_PCM_RATE_44100 {
        Some(44_100)
    } else if rate == super::VIRTIO_SND_PCM_RATE_48000 {
        Some(48_000)
    } else {
        None
    }
}

impl Default for PcmParams {
    fn default() -> (r: Self)
        ensures r == (PcmParams {
            stream_id: 0, buffer_bytes: 65536, period_bytes: 4096, features: 0, channels: 2,
            format: super::VIRTIO_SND_PCM_FMT_S16, rate: super::VIRTIO_SND_PCM_RATE_48000, padding: 0,
        }),
    {
        PcmParams {
            stream_id: 0,
            buffer_bytes: 64 * 1024,
            period_bytes: 4096,
            features: 0,
            channels: 2,
            format: super::VIRTIO_SND_PCM_FMT_S16,
            rate: super::VIRTIO_SND_PCM_RATE_48000,
            padding: 0,
        }
    }
}

impl PcmParams {
    /// The 24 encoded bytes (request code first).
    pub open spec fn spec_bytes(self) -> Seq<u8> {
        u32_bytes(super::VIRTIO_SND_R_PCM_SET_PARAMS) + u32_bytes(self.stream_id) + u32_bytes(self.buffer_bytes)
            + u32_bytes(self.period_bytes) + u32_bytes(self.features)
            + seq![self.channels, self.format, self.rate, self.padding]
    }

    /// Encode the exact 24-byte `virtio_snd_pcm_set_params` request layout.
    pub fn to_bytes(self) -> (r: [u8; 24])
        ensures r@ == self.spec_bytes(),
    {
        let mut out = [0u8; 24];
        put_u32(&mut out, 0, super::VIRTIO_SND_R_PCM_SET_PARAMS);
        put_u32(&mut out, 4, self.stream_id);
        put_u32(&mut out, 8, self.buffer_bytes);
        put_u32(&mut out, 12, self.period_bytes);
        put_u32(&mut out, 16, self.features);
        out[20] = self.channels;
        out[21] = self.format;
        out[22] = self.rate;
        out[23] = self.padding;
        assert(out@ =~= self.spec_bytes());
        out
    }

    /// Decode a complete set-parameters request without interpreting its values: `None` when
    /// fewer than 24 bytes are given or the request code is not `PCM_SET_PARAMS`.
    pub fn from_bytes(bytes: &[u8]) -> (r: Option<Self>)
        ensures
            r == (if bytes@.len() < 24 || u32_at(bytes@, 0) != super::VIRTIO_SND_R_PCM_SET_PARAMS {
                None
            } else {
                Some(PcmParams {
                    stream_id: u32_at(bytes@, 4), buffer_bytes: u32_at(bytes@, 8),
                    period_bytes: u32_at(bytes@, 12), features: u32_at(bytes@, 16),
                    channels: bytes@[20], format: bytes@[21], rate: bytes@[22], padding: bytes@[23],
                })
            }),
    {
        if bytes.len() < 24 {
            return None;
        }
        if read_u32(bytes, 0)? != super::VIRTIO_SND_R_PCM_SET_PARAMS {
            return None;
        }
        Some(PcmParams {
            stream_id: read_u32(bytes, 4)?,
            buffer_bytes: read_u32(bytes, 8)?,
            period_bytes: read_u32(bytes, 12)?,
            features: read_u32(bytes, 16)?,
            channels: bytes[20],
            format: bytes[21],
            rate: bytes[22],
            padding: bytes[23],
        })
    }

    /// Validate every field against the stereo output stream.
    pub fn is_valid(self) -> (r: bool)
        ensures r == params_valid_for(self, 0, 2, 2),
    {
        self.is_valid_for(0, 2, 2)
    }

    /// Validate parameters against one stream's identifier, channel range and supported rates.
    pub fn is_valid_for(self, stream_id: u32, channels_min: u8, channels_max: u8) -> (r: bool)
        ensures r == params_valid_for(self, stream_id, channels_min, channels_max),
    {
        let frame_bytes = (self.channels as u32) * 2;
        self.stream_id == stream_id
            && self.channels >= channels_min
            && self.channels <= channels_max
            && frame_bytes != 0
            && self.buffer_bytes >= frame_bytes
            && self.buffer_bytes <= super::MAX_PCM_BUFFER_BYTES
            && self.period_bytes >= frame_bytes
            && self.period_bytes <= self.buffer_bytes
            && self.buffer_bytes % frame_bytes == 0
            && self.period_bytes % frame_bytes == 0
            && self.buffer_bytes % self.period_bytes == 0
            && self.features == 0
            && self.format == super::VIRTIO_SND_PCM_FMT_S16
            && (self.rate == super::VIRTIO_SND_PCM_RATE_44100 || self.rate == super::VIRTIO_SND_PCM_RATE_48000)
            && self.padding == 0
    }

    /// The host sample rate of the requested rate enum.
    pub fn sample_rate_hz(self) -> (r: Option<u32>)
        ensures r == sample_rate_of(self.rate),
    {
        if self.rate == super::VIRTIO_SND_PCM_RATE_44100 {
            Some(44_100)
        } else if self.rate == super::VIRTIO_SND_PCM_RATE_48000 {
            Some(48_000)
        } else {
            None
        }
    }
}

/// The query request [`QueryInfo::from_bytes`] reads from `b`.
pub open spec fn query_of(b: Seq<u8>) -> Option<QueryInfo> {
    if b.len() < 16 {
        None
    } else {
        Some(QueryInfo { code: u32_at(b, 0), start_id: u32_at(b, 4), count: u32_at(b, 8), size: u32_at(b, 12) })
    }
}

/// Decoding an encoded query request gives it back, and decoding reads only the first 16 bytes.
pub proof fn lemma_query_roundtrip(q: QueryInfo, b: Seq<u8>)
    ensures
        query_of(q.spec_bytes()) == Some(q),
        b.len() >= 16 ==> query_of(b) == query_of(b.subrange(0, 16)),
{
    let s = q.spec_bytes();
    lemma_u32_roundtrip(q.code);
    lemma_u32_roundtrip(q.start_id);
    lemma_u32_roundtrip(q.count);
    lemma_u32_roundtrip(q.size);
    assert(u32_at(s, 0) == u32_at(u32_bytes(q.code), 0));
    assert(u32_at(s, 4) == u32_at(u32_bytes(q.start_id), 0));
    assert(u32_at(s, 8) == u32_at(u32_bytes(q.count), 0));
    assert(u32_at(s, 12) == u32_at(u32_bytes(q.size), 0));
    if b.len() >= 16 {
        let h = b.subrange(0, 16);
        assert(u32_at(b, 0) == u32_at(h, 0) && u32_at(b, 4) == u32_at(h, 4));
        assert(u32_at(b, 8) == u32_at(h, 8) && u32_at(b, 12) == u32_at(h, 12));
    }
}

/// Decoding an encoded set-parameters request gives the parameters back.
pub proof fn lemma_params_roundtrip(p: PcmParams)
    ensures
        u32_at(p.spec_bytes(), 0) == super::VIRTIO_SND_R_PCM_SET_PARAMS,
        u32_at(p.spec_bytes(), 4) == p.stream_id,
        u32_at(p.spec_bytes(), 8) == p.buffer_bytes,
        u32_at(p.spec_bytes(), 12) == p.period_bytes,
        u32_at(p.spec_bytes(), 16) == p.features,
        p.spec_bytes().len() == 24,
        p.spec_bytes()[20] == p.channels, p.spec_bytes()[21] == p.format,
        p.spec_bytes()[22] == p.rate, p.spec_bytes()[23] == p.padding,
{
    let s = p.spec_bytes();
    lemma_u32_roundtrip(super::VIRTIO_SND_R_PCM_SET_PARAMS);
    lemma_u32_roundtrip(p.stream_id);
    lemma_u32_roundtrip(p.buffer_bytes);
    lemma_u32_roundtrip(p.period_bytes);
    lemma_u32_roundtrip(p.features);
    assert(u32_at(s, 0) == u32_at(u32_bytes(super::VIRTIO_SND_R_PCM_SET_PARAMS), 0));
    assert(u32_at(s, 4) == u32_at(u32_bytes(p.stream_id), 0));
    assert(u32_at(s, 8) == u32_at(u32_bytes(p.buffer_bytes), 0));
    assert(u32_at(s, 12) == u32_at(u32_bytes(p.period_bytes), 0));
    assert(u32_at(s, 16) == u32_at(u32_bytes(p.features), 0));
}

} // verus!

verus! {

/// One output-queue transfer header: a stream identifier.
#[derive(Debug, Clone, Copy, PartialEq, Eq)]
pub struct PcmXfer {
    pub stream_id: u32,
}

impl PcmXfer {
    /// Encode the exact `virtio_snd_pcm_xfer` header.
    pub fn to_bytes(self) -> (r: [u8; 4])
        ensures r@ == u32_bytes(self.stream_id),
    {
        let mut out = [0u8; 4];
        put_u32(&mut out, 0, self.stream_id);
        assert(out@ =~= u32_bytes(self.stream_id));
        out
    }

    /// Decode a complete transfer header; `None` when fewer than four bytes are given.
    pub fn from_bytes(bytes: &[u8]) -> (r: Option<Self>)
        ensures r == (if bytes@.len() < 4 { None } else { Some(PcmXfer { stream_id: u32_at(bytes@, 0) }) }),
    {
        Some(PcmXfer { stream_id: read_u32(bytes, 0)? })
    }
}

/// The status with guest-visible code `c`, if any.
pub open spec fn status_of_code(c: u32) -> Option<SndStatus> {
    if c == super::VIRTIO_SND_S_OK {
        Some(SndStatus::Success)
    } else if c == super::VIRTIO_SND_S_BAD_MSG {
        Some(SndStatus::BadMsg)
    } else if c == super::VIRTIO_SND_S_NOT_SUPP {
        Some(SndStatus::NotSupp)
    } else if c == super::VIRTIO_SND_S_IO_ERR {
        Some(SndStatus::IoErr)
    } else {
        None
    }
}

/// One output-queue completion status.
#[derive(Debug, Clone, Copy, PartialEq, Eq)]
pub struct PcmStatus {
    pub status: SndStatus,
    pub latency_bytes: u32,
}

impl PcmStatus {
    /// The 8 encoded bytes.
    pub open spec fn spec_bytes(self) -> Seq<u8> {
        u32_bytes(status_code(self.status)) + u32_bytes(self.latency_bytes)
    }

    /// Encode the exact `virtio_snd_pcm_status` layout.
    pub fn to_bytes(self) -> (r: [u8; 8])
        ensures r@ == self.spec_bytes(),
    {
        let mut out = [0u8; 8];
        put_u32(&mut out, 0, self.status.code());
        put_u32(&mut out, 4, self.latency_bytes);
        assert(out@ =~= self.spec_bytes());
        out
    }

    /// Decode a complete completion status; `None` when short or the status code is unknown.
    pub fn from_bytes(bytes: &[u8]) -> (r: Option<Self>)
        ensures
            r == (if bytes@.len() < 8 {
                None
            } else {
                match status_of_code(u32_at(bytes@, 0)) {
                    Some(status) => Some(PcmStatus { status, latency_bytes: u32_at(bytes@, 4) }),
                    None => None,
                }
            }),
    {
        let code = read_u32(bytes, 0)?;
        let status = if code == super::VIRTIO_SND_S_OK {
            SndStatus::Success
        } else if code == super::VIRTIO_SND_S_BAD_MSG {
            SndStatus::BadMsg
        } else if code == super::VIRTIO_SND_S_NOT_SUPP {
            SndStatus::NotSupp
        } else if code == super::VIRTIO_SND_S_IO_ERR {
            SndStatus::IoErr
        } else {
            return None;
        };
        Some(PcmStatus { status, latency_bytes: read_u32(bytes, 4)? })
    }
}

/// One asynchronous virtio-snd event: two little-endian u32 fields.
#[derive(Debug, Clone, Copy, PartialEq, Eq)]
pub struct SndEvent {
    /// Event type, such as `VIRTIO_SND_EVT_PCM_XRUN`.
    pub event: u32,
    /// Event-specific data; for PCM events the stream identifier.
    pub data: u32,
}

impl SndEvent {
    /// A PCM XRUN notification for `stream_id`.
    pub fn pcm_xrun(stream_id: u32) -> (r: Self)
        ensures r == (SndEvent { event: super::VIRTIO_SND_EVT_PCM_XRUN, data: stream_id }),
    {
        SndEvent { event: super::VIRTIO_SND_EVT_PCM_XRUN, data: stream_id }
    }

    /// The 8 encoded bytes.
    pub open spec fn spec_bytes(self) -> Seq<u8> {
        u32_bytes(self.event) + u32_bytes(self.data)
    }

    /// Encode the exact `virtio_snd_event` layout.
    pub fn to_bytes(self) -> (r: [u8; 8])
        ensures r@ == self.spec_bytes(),
    {
        let mut out = [0u8; 8];
        put_u32(&mut out, 0, self.event);
        put_u32(&mut out, 4, self.data);
        assert(out@ =~= self.spec_bytes());
        out
    }

    /// Decode one complete event record; `None` when fewer than eight bytes are given.
    pub fn from_bytes(bytes: &[u8]) -> (r: Option<Self>)
        ensures
            r == (if bytes@.len() < 8 { None } else { Some(SndEvent { event: u32_at(bytes@, 0), data: u32_at(bytes@, 4) }) }),
    {
        Some(SndEvent { event: read_u32(bytes, 0)?, data: read_u32(bytes, 4)? })
    }
}

/// Decoding an encoded event gives it back.
pub proof fn lemma_event_roundtrip(e: SndEvent)
    ensures
        e.spec_bytes().len() == 8,
        u32_at(e.spec_bytes(), 0) == e.event,
        u32_at(e.spec_bytes(), 4) == e.data,
{
    lemma_u32_roundtrip(e.event);
    lemma_u32_roundtrip(e.data);
    assert(u32_at(e.spec_bytes(), 0) == u32_at(u32_bytes(e.event), 0));
    assert(u32_at(e.spec_bytes(), 4) == u32_at(u32_bytes(e.data), 0));
}

/// Result of one paced playback service boundary.
#[derive(Debug, Clone, Copy, PartialEq, Eq, Default)]
pub struct PlaybackReport {
    /// Number of well-formed transfers moved into the pacing queue.
    pub queued: u32,
    /// Number of descriptors published to the used ring.
    pub completed: u32,
    /// Number of malformed transfers completed with `IO_ERR`.
    pub errors: u32,
    /// Stereo frames delivered successfully to the sink.
    pub frames_pushed: u64,
    /// `latency_bytes` from the last completion, or current pending latency when idle.
    pub latency_bytes: u32,
    /// Bytes still waiting for the audio clock.
    pub pending_bytes: u32,
    /// Deadline of the first pending transfer, if any.
    pub next_deadline_ns: Option<u64>,
    /// Number of XRUN events generated.
    pub xrun_events: u32,
    /// Number of eventq descriptors completed.
    pub event_descriptors_completed: u32,
}

/// Result of one clock-paced capture service boundary.
#[derive(Debug, Clone, Copy, PartialEq, Eq, Default)]
pub struct CaptureReport {
    /// Number of well-formed receive buffers held for their capture deadline.
    pub queued: u32,
    /// Number of descriptors published to the used ring.
    pub completed: u32,
    /// Number of malformed or failed source buffers completed with `IO_ERR`.
    pub errors: u32,
    /// Number of PCM frames written into guest capture buffers.
    pub frames_pulled: u64,
    /// Number of PCM data bytes written into guest capture buffers.
    pub bytes_written: u64,
    /// Number of capture XRUN notifications generated.
    pub xrun_events: u32,
    /// Number of eventq descriptors completed.
    pub event_descriptors_completed: u32,
    /// Bytes still waiting for the capture clock.
    pub pending_bytes: u32,
    /// Deadline of the first pending capture transfer, if any.
    pub next_deadline_ns: Option<u64>,
}

} // verus!
