//! The resume-snapshot container format: a versioned, sectioned (tag-length-value) blob a
//! whole-machine snapshot serializes into, the coherence guards that make restoring one safe, and
//! the RAM zero-elision codec.
//!
//! A snapshot is only valid against the same emulator build, the same base disk image, and an
//! overlay generation consistent with it; the header binds all three and
//! [`SnapshotHeader::validate_for`] refuses a mismatch. The parser never reads out of bounds on a
//! truncated or garbage blob: every length is checked against the remaining bytes.

use vstd::prelude::*;
use crate::dev::virtio::snd::wire::{u32_bytes, u64_bytes, u32_at, u64_at};

pub mod section;

verus! {

/// Blob magic: `"WVMRESU1"`.
pub const MAGIC: [u8; 8] = [0x57, 0x56, 0x4d, 0x52, 0x45, 0x53, 0x55, 0x31];
/// The one container-format version this reader understands.
pub const FORMAT_VERSION: u32 = 1;
/// Magic, version, two 32-byte hashes and the overlay generation.
pub const HEADER_LEN: usize = 84;
/// Tag and length of a section.
pub const SECTION_HEADER_LEN: usize = 8;

/// Whether `tag` is one of the section tags this build understands (1 through 7).
pub open spec fn known_section(tag: u32) -> bool {
    1 <= tag <= 7
}

/// Is `tag` a section this build understands?
pub fn is_known_section(tag: u32) -> (r: bool)
    ensures r == known_section(tag),
{
    tag == section::CPU || tag == section::RAM || tag == section::CLINT || tag == section::PLIC
        || tag == section::UART || tag == section::VIRTIO_BLK || tag == section::VIRTIO_NET
}

/// A rejected snapshot.
#[derive(Debug, Clone, PartialEq, Eq)]
pub enum SnapshotError {
    /// The blob is shorter than the fixed header (or a section header runs past the end).
    Truncated,
    /// The leading magic is not [`MAGIC`].
    BadMagic,
    /// `format_version` is not [`FORMAT_VERSION`].
    VersionMismatch { found: u32, supported: u32 },
    /// The snapshot was taken by a different emulator build.
    CoreHashMismatch,
    /// The snapshot is for a different base disk image.
    BaseImageMismatch,
    /// The overlay generation no longer matches the snapshot.
    OverlayGenerationMismatch { snapshot: u64, current: u64 },
    /// A section tag this build does not understand.
    UnknownSection { tag: u32 },
    /// A section's declared length exceeds the bytes remaining in the blob.
    SectionLengthOverflow { tag: u32 },
    /// The zero-elision payload is malformed, over-reads, declares a run past the expected length
    /// (refused before the buffer grows), or decodes to a different length than expected.
    BadSparseEncoding,
    /// A zero-elision run longer than the expected total. [`decode_sparse`] reports such a run as
    /// `BadSparseEncoding`; the variant stays part of the error vocabulary.
    SparseRunExceedsTotal,
    /// A component-state section payload was malformed for its component.
    BadComponentState { tag: u32 },
}

/// A machine component whose full state serializes to a section payload and restores from one.
pub trait ComponentSnapshot {
    /// The section tag this component's state is stored under.
    fn section_tag(&self) -> u32;
    /// Serialize the component's full state.
    fn to_snapshot(&self) -> Vec<u8>;
    /// Restore state from a payload; a malformed payload is a typed error.
    fn restore(&mut self, payload: &[u8]) -> Result<(), SnapshotError>;
}

/// The parsed, fixed-size container header.
#[derive(Debug, Clone, PartialEq, Eq)]
pub struct SnapshotHeader {
    pub format_version: u32,
    /// Identity of the emulator build that wrote the blob.
    pub core_hash: [u8; 32],
    /// Identity of the base disk image the snapshot rides.
    pub base_image_hash: [u8; 32],
    /// The overlay commit generation at snapshot time.
    pub overlay_generation: u64,
}

/// The header bytes of a blob written for these identities.
pub open spec fn header_bytes(core_hash: Seq<u8>, base_image_hash: Seq<u8>, overlay_generation: u64) -> Seq<u8> {
    MAGIC@ + u32_bytes(FORMAT_VERSION) + core_hash + base_image_hash + u64_bytes(overlay_generation)
}

/// Whether the header fields of `h` are the ones recorded in `blob`.
pub open spec fn header_of(h: SnapshotHeader, blob: Seq<u8>) -> bool {
    &&& h.format_version == u32_at(blob, 8)
    &&& h.core_hash@ == blob.subrange(12, 44)
    &&& h.base_image_hash@ == blob.subrange(44, 76)
    &&& h.overlay_generation == u64_at(blob, 76)
}

/// The verdict of the coherence guards, in order: build, base image, overlay generation.
pub open spec fn guard_result(h: SnapshotHeader, core: Seq<u8>, base: Seq<u8>, generation: u64) -> Result<(), SnapshotError> {
    if h.core_hash@ != core {
        Err(SnapshotError::CoreHashMismatch)
    } else if h.base_image_hash@ != base {
        Err(SnapshotError::BaseImageMismatch)
    } else if h.overlay_generation != generation {
        Err(SnapshotError::OverlayGenerationMismatch { snapshot: h.overlay_generation, current: generation })
    } else {
        Ok(())
    }
}

fn copy_hash(blob: &[u8], off: usize) -> (r: [u8; 32])
    requires off + 32 <= blob@.len(),
    ensures r@ == blob@.subrange(off as int, off + 32),
{
    let n = blob.len();
    let mut h = [0u8; 32];
    let mut k: usize = 0;
    while k < 32
        invariant k <= 32, off + 32 <= blob@.len(), h@.len() == 32, n == blob@.len(),
            forall|j: int| 0 <= j < k ==> h@[j] == blob@[off + j],
        decreases 32 - k,
    {
        h[k] = blob[off + k];
        k += 1;
    }
    assert(h@ =~= blob@.subrange(off as int, off + 32));
    h
}

fn same_hash(a: &[u8; 32], b: &[u8; 32]) -> (r: bool)
    ensures r == (a@ == b@),
{
    let mut k: usize = 0;
    while k < 32
        invariant k <= 32, a@.len() == 32, b@.len() == 32,
            forall|j: int| 0 <= j < k ==> a@[j] == b@[j],
        decreases 32 - k,
    {
        if a[k] != b[k] {
            return false;
        }
        k += 1;
    }
    assert(a@ =~= b@);
    true
}

impl SnapshotHeader {
    /// Parse and magic/version-check the header; returns it and the offset where sections begin.
    /// The identity guards are [`SnapshotHeader::validate_for`]'s.
    pub fn parse(blob: &[u8]) -> (r: Result<(SnapshotHeader, usize), SnapshotError>)
        ensures
            blob@.len() < 84 ==> r == Err::<(SnapshotHeader, usize), SnapshotError>(SnapshotError::Truncated),
            blob@.len() >= 84 && blob@.subrange(0, 8) != MAGIC@ ==> r == Err::<(SnapshotHeader, usize), SnapshotError>(SnapshotError::BadMagic),
            blob@.len() >= 84 && blob@.subrange(0, 8) == MAGIC@ && u32_at(blob@, 8) != FORMAT_VERSION
                ==> r == Err::<(SnapshotHeader, usize), SnapshotError>(SnapshotError::VersionMismatch { found: u32_at(blob@, 8), supported: FORMAT_VERSION }),
            blob@.len() >= 84 && blob@.subrange(0, 8) == MAGIC@ && u32_at(blob@, 8) == FORMAT_VERSION
                ==> (r matches Ok((h, off)) && off == 84 && header_of(h, blob@)),
    {
        let n = blob.len();
        if n < 84 {
            return Err(SnapshotError::Truncated);
        }
        let mut m: usize = 0;
        while m < 8
            invariant m <= 8, n == blob@.len(), n >= 84,
                forall|i: int| 0 <= i < m ==> blob@[i] == MAGIC@[i],
            decreases 8 - m,
        {
            if blob[m] != MAGIC[m] {
                assert(blob@.subrange(0, 8)[m as int] != MAGIC@[m as int]);
                return Err(SnapshotError::BadMagic);
            }
            m += 1;
        }
        assert(blob@.subrange(0, 8) =~= MAGIC@);
        let format_version = (blob[8] as u32) | ((blob[9] as u32) << 8u32) | ((blob[10] as u32) << 16u32) | ((blob[11] as u32) << 24u32);
        if format_version != FORMAT_VERSION {
            return Err(SnapshotError::VersionMismatch { found: format_version, supported: FORMAT_VERSION });
        }
        let core_hash = copy_hash(blob, 12);
        let base_image_hash = copy_hash(blob, 44);
        let lo = (blob[76] as u32) | ((blob[77] as u32) << 8u32) | ((blob[78] as u32) << 16u32) | ((blob[79] as u32) << 24u32);
        let hi = (blob[80] as u32) | ((blob[81] as u32) << 8u32) | ((blob[82] as u32) << 16u32) | ((blob[83] as u32) << 24u32);
        let overlay_generation = (lo as u64) | ((hi as u64) << 32u64);
        Ok((SnapshotHeader { format_version, core_hash, base_image_hash, overlay_generation }, 84))
    }

    /// The coherence guards: refuse a snapshot from a different build, a different base image, or
    /// an overlay generation that no longer matches the live disk.
    pub fn validate_for(&self, expected_core_hash: &[u8; 32], expected_base_image_hash: &[u8; 32], current_overlay_generation: u64) -> (r: Result<(), SnapshotError>)
        ensures r == guard_result(*self, expected_core_hash@, expected_base_image_hash@, current_overlay_generation),
    {
        if !same_hash(&self.core_hash, expected_core_hash) {
            return Err(SnapshotError::CoreHashMismatch);
        }
        if !same_hash(&self.base_image_hash, expected_base_image_hash) {
            return Err(SnapshotError::BaseImageMismatch);
        }
        if self.overlay_generation != current_overlay_generation {
            return Err(SnapshotError::OverlayGenerationMismatch { snapshot: self.overlay_generation, current: current_overlay_generation });
        }
        Ok(())
    }
}


/// The bytes of one section: tag, payload length, payload.
pub open spec fn section_bytes(tag: u32, payload: Seq<u8>) -> Seq<u8> {
    u32_bytes(tag) + u32_bytes(payload.len() as u32) + payload
}

/// Builds a snapshot blob: the fixed header, then sections in the order added.
pub struct SnapshotWriter {
    buf: Vec<u8>,
}

fn append_bytes(out: &mut Vec<u8>, src: &[u8])
    ensures final(out)@ == old(out)@ + src@,
{
    let mut k: usize = 0;
    while k < src.len()
        invariant k <= src@.len(), out@ == old(out)@ + src@.subrange(0, k as int),
        decreases src.len() - k,
    {
        out.push(src[k]);
        k += 1;
        assert(out@ =~= old(out)@ + src@.subrange(0, k as int));
    }
    assert(src@.subrange(0, src@.len() as int) =~= src@);
}

fn append_u32(out: &mut Vec<u8>, v: u32)
    ensures final(out)@ == old(out)@ + u32_bytes(v),
{
    crate::dev::virtio::snd::snapshot::push_u32(out, v);
}

impl SnapshotWriter {
    /// The blob written so far.
    pub closed spec fn bytes(&self) -> Seq<u8> {
        self.buf@
    }

    /// A writer holding the header for these identities.
    pub fn new(core_hash: &[u8; 32], base_image_hash: &[u8; 32], overlay_generation: u64) -> (r: Self)
        ensures r.bytes() == header_bytes(core_hash@, base_image_hash@, overlay_generation),
    {
        let mut buf: Vec<u8> = Vec::new();
        append_bytes(&mut buf, &MAGIC);
        append_u32(&mut buf, FORMAT_VERSION);
        append_bytes(&mut buf, core_hash);
        append_bytes(&mut buf, base_image_hash);
        crate::dev::virtio::snd::snapshot::push_u64(&mut buf, overlay_generation);
        assert(buf@ =~= header_bytes(core_hash@, base_image_hash@, overlay_generation));
        SnapshotWriter { buf }
    }

    /// Append a section `[tag][len][payload]`. A payload longer than `u32::MAX` bytes cannot be
    /// represented.
    pub fn section(&mut self, tag: u32, payload: &[u8]) -> (r: &mut Self)
        requires payload@.len() <= u32::MAX,
        ensures
            r.bytes() == old(self).bytes() + section_bytes(tag, payload@),
            final(self).bytes() == final(r).bytes(),
    {
        let len = payload.len() as u32;
        append_u32(&mut self.buf, tag);
        append_u32(&mut self.buf, len);
        append_bytes(&mut self.buf, payload);
        assert(self.buf@ =~= old(self).bytes() + section_bytes(tag, payload@));
        self
    }

    /// The finished blob.
    pub fn finish(self) -> (r: Vec<u8>)
        ensures r@ == self.bytes(),
    {
        self.buf
    }
}

/// One parsed section.
#[derive(Debug, Clone, PartialEq, Eq)]
pub struct Section<'a> {
    pub tag: u32,
    pub payload: &'a [u8],
}

/// Walks the sections after the header, checking every length and rejecting any unknown tag.
/// Ends at the exact end of the blob; a partial trailing section header is `Truncated`.
pub struct SectionReader<'a> {
    blob: &'a [u8],
    pos: usize,
    done: bool,
}

/// What reading at `pos` yields: nothing at the end, the section there, or the error; and the
/// position after it.
pub open spec fn section_at(blob: Seq<u8>, pos: int) -> Option<Result<(u32, int, int), SnapshotError>> {
    if pos == blob.len() {
        None
    } else if pos + 8 > blob.len() {
        Some(Err(SnapshotError::Truncated))
    } else {
        let tag = u32_at(blob, pos);
        let len = u32_at(blob, pos + 4);
        if pos + 8 + len > blob.len() {
            Some(Err(SnapshotError::SectionLengthOverflow { tag }))
        } else if !known_section(tag) {
            Some(Err(SnapshotError::UnknownSection { tag }))
        } else {
            Some(Ok((tag, pos + 8, pos + 8 + len)))
        }
    }
}

impl<'a> SectionReader<'a> {
    /// The blob being read.
    pub closed spec fn spec_blob(&self) -> Seq<u8> { self.blob@ }
    /// The position of the next section.
    pub closed spec fn spec_pos(&self) -> int { self.pos as int }
    /// Whether reading stopped on an error.
    pub closed spec fn spec_done(&self) -> bool { self.done }

    #[verifier::type_invariant]
    closed spec fn wf(&self) -> bool {
        self.pos <= self.blob@.len()
    }

    /// Parse the header and position the reader after it.
    pub fn new(blob: &'a [u8]) -> (r: Result<(SnapshotHeader, SectionReader<'a>), SnapshotError>)
        ensures
            blob@.len() < 84 ==> r is Err,
            r matches Ok((h, rd)) ==> header_of(h, blob@) && rd.spec_blob() == blob@ && rd.spec_pos() == 84 && !rd.spec_done()
                && blob@.len() >= 84 && blob@.subrange(0, 8) == MAGIC@ && u32_at(blob@, 8) == FORMAT_VERSION,
            r matches Err(e) ==> SnapshotHeader::parse_fails(blob@, e),
    {
        let (header, start) = SnapshotHeader::parse(blob)?;
        Ok((header, SectionReader { blob, pos: start, done: false }))
    }

    /// The next section, `None` at the end of the blob (or after an error was reported).
    pub fn next(&mut self) -> (r: Option<Result<Section<'a>, SnapshotError>>)
        ensures
            final(self).spec_blob() == old(self).spec_blob(),
            old(self).spec_done() ==> r is None && *final(self) == *old(self),
            !old(self).spec_done() ==> match section_at(old(self).spec_blob(), old(self).spec_pos()) {
                None => r is None && *final(self) == *old(self),
                Some(Err(e)) => r == Some(Err::<Section<'a>, SnapshotError>(e)) && final(self).spec_done(),
                Some(Ok((tag, start, end))) => (r matches Some(Ok(s)) && s.tag == tag
                    && s.payload@ == old(self).spec_blob().subrange(start, end))
                    && final(self).spec_pos() == end && !final(self).spec_done(),
            },
    {
        proof { use_type_invariant(&*self); }
        let n = self.blob.len();
        if self.done || self.pos == n {
            return None;
        }
        if n - self.pos < 8 {
            self.done = true;
            return Some(Err(SnapshotError::Truncated));
        }
        let p = self.pos;
        let b = self.blob;
        let tag = (b[p] as u32) | ((b[p + 1] as u32) << 8u32) | ((b[p + 2] as u32) << 16u32) | ((b[p + 3] as u32) << 24u32);
        let len = (b[p + 4] as u32) | ((b[p + 5] as u32) << 8u32) | ((b[p + 6] as u32) << 16u32) | ((b[p + 7] as u32) << 24u32);
        let body = p + 8;
        if (len as usize) > n - body {
            self.done = true;
            return Some(Err(SnapshotError::SectionLengthOverflow { tag }));
        }
        if !is_known_section(tag) {
            self.done = true;
            return Some(Err(SnapshotError::UnknownSection { tag }));
        }
        let end = body + len as usize;
        self.pos = end;
        let payload = vstd::slice::slice_subrange(b, body, end);
        Some(Ok(Section { tag, payload }))
    }
}

impl SnapshotHeader {
    /// `e` is the error parsing `blob`'s header reports.
    pub open spec fn parse_fails(blob: Seq<u8>, e: SnapshotError) -> bool {
        if blob.len() < 84 {
            e == SnapshotError::Truncated
        } else if blob.subrange(0, 8) != MAGIC@ {
            e == SnapshotError::BadMagic
        } else {
            u32_at(blob, 8) != FORMAT_VERSION && e == (SnapshotError::VersionMismatch { found: u32_at(blob, 8), supported: FORMAT_VERSION })
        }
    }
}


// RAM zero-elision codec: a sequence of chunks `[kind: u8][len: u32 LE]`, where kind 0 is a run
// of `len` implicit zero bytes and kind 1 is `len` literal bytes that follow.

pub const CHUNK_ZERO: u8 = 0;
pub const CHUNK_DATA: u8 = 1;

/// `n` zero bytes.
pub open spec fn zeros(n: nat) -> Seq<u8> {
    Seq::new(n, |i: int| 0u8)
}

/// Decoding `enc` from position `i`, having reconstructed `acc` so far, toward `expected` bytes.
/// A run that would exceed `expected` is rejected before anything grows.
pub open spec fn sparse_decode_from(enc: Seq<u8>, i: int, acc: Seq<u8>, expected: nat) -> Result<Seq<u8>, SnapshotError>
    decreases enc.len() - i,
{
    if i < 0 || i >= enc.len() {
        if acc.len() == expected { Ok(acc) } else { Err(SnapshotError::BadSparseEncoding) }
    } else if i + 5 > enc.len() {
        Err(SnapshotError::BadSparseEncoding)
    } else {
        let kind = enc[i];
        let len = u32_at(enc, i + 1);
        if acc.len() + len > expected {
            Err(SnapshotError::BadSparseEncoding)
        } else if kind == CHUNK_ZERO {
            sparse_decode_from(enc, i + 5, acc + zeros(len as nat), expected)
        } else if kind == CHUNK_DATA {
            if i + 5 + len > enc.len() {
                Err(SnapshotError::BadSparseEncoding)
            } else {
                sparse_decode_from(enc, i + 5 + len, acc + enc.subrange(i + 5, i + 5 + len), expected)
            }
        } else {
            Err(SnapshotError::BadSparseEncoding)
        }
    }
}

/// A successful decode reconstructs exactly the expected number of bytes.
pub proof fn lemma_sparse_decode_len(enc: Seq<u8>, i: int, acc: Seq<u8>, expected: nat)
    ensures sparse_decode_from(enc, i, acc, expected) matches Ok(v) ==> v.len() == expected,
    decreases enc.len() - i,
{
    if !(i < 0 || i >= enc.len()) && i + 5 <= enc.len() {
        let len = u32_at(enc, i + 1);
        if acc.len() + len <= expected {
            if enc[i] == CHUNK_ZERO {
                lemma_sparse_decode_len(enc, i + 5, acc + zeros(len as nat), expected);
            } else if enc[i] == CHUNK_DATA && i + 5 + len <= enc.len() {
                lemma_sparse_decode_len(enc, i + 5 + len, acc + enc.subrange(i + 5, i + 5 + len), expected);
            }
        }
    }
}

/// Decode an [`encode_sparse`] payload back to exactly `expected_len` bytes.
pub fn decode_sparse(enc: &[u8], expected_len: usize) -> (r: Result<Vec<u8>, SnapshotError>)
    ensures
        match sparse_decode_from(enc@, 0, Seq::empty(), expected_len as nat) {
            Ok(v) => r matches Ok(out) && out@ == v,
            Err(e) => r == Err::<Vec<u8>, SnapshotError>(e),
        },
{
    let n = enc.len();
    let mut out: Vec<u8> = Vec::new();
    let mut i: usize = 0;
    while i < n
        invariant
            n == enc@.len(), i <= n, out@.len() <= expected_len,
            sparse_decode_from(enc@, 0, Seq::empty(), expected_len as nat)
                == sparse_decode_from(enc@, i as int, out@, expected_len as nat),
        decreases n - i,
    {
        if n - i < 5 {
            return Err(SnapshotError::BadSparseEncoding);
        }
        let kind = enc[i];
        let len = ((enc[i + 1] as u32) | ((enc[i + 2] as u32) << 8u32) | ((enc[i + 3] as u32) << 16u32)
            | ((enc[i + 4] as u32) << 24u32)) as usize;
        i = i + 5;
        let new_len = match out.len().checked_add(len) {
            Some(v) => v,
            None => return Err(SnapshotError::BadSparseEncoding),
        };
        if new_len > expected_len {
            return Err(SnapshotError::BadSparseEncoding);
        }
        if kind == CHUNK_ZERO {
            let ghost before = out@;
            out.resize(new_len, 0u8);
            assert(out@ =~= before + zeros(len as nat));
        } else if kind == CHUNK_DATA {
            if len > n - i {
                return Err(SnapshotError::BadSparseEncoding);
            }
            let end = i + len;
            let ghost before = out@;
            let mut k: usize = i;
            while k < end
                invariant
                    i <= k <= end, end <= n, n == enc@.len(),
                    out@ == before + enc@.subrange(i as int, k as int),
                decreases end - k,
            {
                out.push(enc[k]);
                k += 1;
                assert(out@ =~= before + enc@.subrange(i as int, k as int));
            }
            i = end;
        } else {
            return Err(SnapshotError::BadSparseEncoding);
        }
    }
    if out.len() != expected_len {
        return Err(SnapshotError::BadSparseEncoding);
    }
    Ok(out)
}


/// The bytes of one chunk.
pub open spec fn chunk_bytes(kind: u8, len: u32, data: Seq<u8>) -> Seq<u8> {
    seq![kind] + u32_bytes(len) + data
}

/// What decoding `enc` from position 0 gives equals what decoding from `out.len()` gives with
/// `acc` already reconstructed, whatever follows `out`.
pub open spec fn prefix_decodes(out: Seq<u8>, acc: Seq<u8>, expected: nat) -> bool {
    forall|rest: Seq<u8>| #[trigger] sparse_decode_from(out + rest, 0, Seq::empty(), expected)
        == sparse_decode_from(out + rest, out.len() as int, acc, expected)
}

/// Decoding steps over one chunk at the end of `out`: a zero run of `len`, or `len` literal bytes.
proof fn lemma_chunk_step(out: Seq<u8>, acc: Seq<u8>, kind: u8, len: u32, data: Seq<u8>, rest: Seq<u8>, expected: nat)
    requires
        kind == CHUNK_ZERO && data.len() == 0 || kind == CHUNK_DATA && data.len() == len,
        acc.len() + len <= expected,
    ensures
        sparse_decode_from(out + (chunk_bytes(kind, len, data) + rest), out.len() as int, acc, expected)
            == sparse_decode_from((out + chunk_bytes(kind, len, data)) + rest, (out + chunk_bytes(kind, len, data)).len() as int,
                acc + (if kind == CHUNK_ZERO { zeros(len as nat) } else { data }), expected),
{
    let c = chunk_bytes(kind, len, data);
    let enc = out + (c + rest);
    assert(enc =~= (out + c) + rest);
    let i = out.len() as int;
    assert(enc[i] == kind);
    assert(enc.subrange(i + 1, i + 5) =~= u32_bytes(len));
    crate::dev::virtio::snd::wire::lemma_u32_roundtrip(len);
    assert(u32_at(enc, i + 1) == u32_at(u32_bytes(len), 0));
    if kind == CHUNK_DATA {
        assert(enc.subrange(i + 5, i + 5 + len) =~= data);
    }
}

/// Where the run of bytes with the same zero-ness as `buf[i]` that has reached `j` ends.
pub open spec fn run_end(buf: Seq<u8>, i: int, j: int) -> int
    decreases buf.len() - j,
{
    if j >= buf.len() || (buf[j] == 0) != (buf[i] == 0) { j } else { run_end(buf, i, j + 1) }
}

/// A run reaching `j` ends at `j` or later, and within the buffer.
pub proof fn lemma_run_end_ge(buf: Seq<u8>, i: int, j: int)
    ensures run_end(buf, i, j) >= j, j <= buf.len() ==> run_end(buf, i, j) <= buf.len(),
    decreases buf.len() - j,
{
    if !(j >= buf.len() || (buf[j] == 0) != (buf[i] == 0)) {
        lemma_run_end_ge(buf, i, j + 1);
    }
}

/// The chunks of one run of `run` bytes from `start`, split at `u32::MAX` bytes: kind 0 with
/// only a length for zeros, kind 1 with the bytes for anything else.
pub open spec fn run_chunks(buf: Seq<u8>, start: int, run: nat, is_zero: bool) -> Seq<u8>
    decreases run,
{
    if run == 0 {
        Seq::empty()
    } else {
        let take: nat = if run < 0xffff_ffff { run } else { 0xffff_ffff };
        chunk_bytes(if is_zero { CHUNK_ZERO } else { CHUNK_DATA }, take as u32,
            if is_zero { Seq::empty() } else { buf.subrange(start, start + take) })
            + run_chunks(buf, start + take, (run - take) as nat, is_zero)
    }
}

/// The sparse encoding of `buf` from byte `i` on: each maximal run of zero bytes becomes zero
/// chunks and each maximal run of non-zero bytes becomes data chunks, in order.
pub open spec fn sparse_from(buf: Seq<u8>, i: int) -> Seq<u8>
    decreases buf.len() - i,
{
    if i < 0 || i >= buf.len() {
        Seq::empty()
    } else {
        let e = run_end(buf, i, i + 1);
        proof { lemma_run_end_ge(buf, i, i + 1); }
        run_chunks(buf, i, (e - i) as nat, buf[i] == 0) + sparse_from(buf, e)
    }
}

proof fn lemma_run_end_same(buf: Seq<u8>, i: int, j: int)
    requires
        0 <= i < j <= buf.len(),
        forall|k: int| i <= k < j ==> (#[trigger] buf[k] == 0) == (buf[i] == 0),
    ensures
        j <= run_end(buf, i, j) <= buf.len(),
        forall|k: int| i <= k < run_end(buf, i, j) ==> (#[trigger] buf[k] == 0) == (buf[i] == 0),
    decreases buf.len() - j,
{
    if !(j >= buf.len() || (buf[j] == 0) != (buf[i] == 0)) {
        lemma_run_end_same(buf, i, j + 1);
    }
}

#[verifier::spinoff_prover]
#[verifier::rlimit(50)]
proof fn lemma_run_chunks_decode(buf: Seq<u8>, pre: Seq<u8>, start: int, run: nat, is_zero: bool, rest: Seq<u8>)
    requires
        0 <= start, start + run <= buf.len(),
        forall|k: int| start <= k < start + run ==> (#[trigger] buf[k] == 0) == is_zero,
    ensures
        sparse_decode_from(pre + (run_chunks(buf, start, run, is_zero) + rest), pre.len() as int, buf.subrange(0, start), buf.len())
            == sparse_decode_from(pre + run_chunks(buf, start, run, is_zero) + rest, (pre + run_chunks(buf, start, run, is_zero)).len() as int,
                buf.subrange(0, start + run), buf.len()),
    decreases run,
{
    if run == 0 {
        assert(run_chunks(buf, start, run, is_zero) =~= Seq::<u8>::empty());
        assert(pre + (Seq::<u8>::empty() + rest) =~= pre + Seq::<u8>::empty() + rest);
        assert((pre + Seq::<u8>::empty()).len() == pre.len());
    } else {
        let take: nat = if run < 0xffff_ffff { run } else { 0xffff_ffff };
        let kind: u8 = if is_zero { CHUNK_ZERO } else { CHUNK_DATA };
        let data: Seq<u8> = if is_zero { Seq::empty() } else { buf.subrange(start, start + take) };
        let c = chunk_bytes(kind, take as u32, data);
        let tail = run_chunks(buf, start + take, (run - take) as nat, is_zero);
        assert(run_chunks(buf, start, run, is_zero) == c + tail);
        lemma_chunk_step(pre, buf.subrange(0, start), kind, take as u32, data, tail + rest, buf.len());
        let expand = if kind == CHUNK_ZERO { zeros(take) } else { data };
        assert(buf.subrange(0, start) + expand =~= buf.subrange(0, start + take)) by {
            assert forall|k: int| start <= k < start + take implies #[trigger] buf[k] == expand[k - start] by {
                assert((buf[k] == 0) == is_zero);
            }
        }
        assert(pre + (c + (tail + rest)) =~= pre + ((c + tail) + rest));
        lemma_run_chunks_decode(buf, pre + c, start + take, (run - take) as nat, is_zero, rest);
        assert((pre + c) + (tail + rest) =~= pre + (c + tail) + rest);
        assert((pre + c) + tail =~= pre + (c + tail));
    }
}

proof fn lemma_sparse_from_decode_at(buf: Seq<u8>, pre: Seq<u8>, i: int)
    requires 0 <= i <= buf.len(),
    ensures
        sparse_decode_from(pre + sparse_from(buf, i), pre.len() as int, buf.subrange(0, i), buf.len())
            == Ok::<Seq<u8>, SnapshotError>(buf),
    decreases buf.len() - i,
{
    if i == buf.len() {
        assert(sparse_from(buf, i) =~= Seq::<u8>::empty());
        assert(pre + Seq::<u8>::empty() =~= pre);
        assert(buf.subrange(0, i) =~= buf);
    } else {
        let e = run_end(buf, i, i + 1);
        lemma_run_end_same(buf, i, i + 1);
        let rc = run_chunks(buf, i, (e - i) as nat, buf[i] == 0);
        assert(sparse_from(buf, i) == rc + sparse_from(buf, e));
        lemma_run_chunks_decode(buf, pre, i, (e - i) as nat, buf[i] == 0, sparse_from(buf, e));
        lemma_sparse_from_decode_at(buf, pre + rc, e);
        assert(pre + rc + sparse_from(buf, e) =~= (pre + rc) + sparse_from(buf, e));
    }
}

/// Decoding the sparse encoding of `buf` gives `buf` back.
pub proof fn lemma_sparse_roundtrip(buf: Seq<u8>)
    ensures sparse_decode_from(sparse_from(buf, 0), 0, Seq::empty(), buf.len()) == Ok::<Seq<u8>, SnapshotError>(buf),
{
    lemma_sparse_from_decode_at(buf, Seq::empty(), 0);
    assert(Seq::<u8>::empty() + sparse_from(buf, 0) =~= sparse_from(buf, 0));
    assert(buf.subrange(0, 0) =~= Seq::<u8>::empty());
}

/// Encode `buf` with zero-run elision; decoding the result gives `buf` back.
pub fn encode_sparse(buf: &[u8]) -> (r: Vec<u8>)
    ensures
        sparse_decode_from(r@, 0, Seq::empty(), buf@.len()) == Ok::<Seq<u8>, SnapshotError>(buf@),
        r@ == sparse_from(buf@, 0),
{
    let n = buf.len();
    let mut out: Vec<u8> = Vec::new();
    let mut i: usize = 0;
    proof {
        assert forall|rest: Seq<u8>| #[trigger] sparse_decode_from(out@ + rest, 0, Seq::empty(), n as nat)
            == sparse_decode_from(out@ + rest, out@.len() as int, buf@.subrange(0, 0), n as nat) by {
            assert(buf@.subrange(0, 0) =~= Seq::<u8>::empty());
        }
    }
    while i < n
        invariant
            n == buf@.len(), i <= n,
            prefix_decodes(out@, buf@.subrange(0, i as int), n as nat),
            out@ + sparse_from(buf@, i as int) == sparse_from(buf@, 0),
        decreases n - i,
    {
        let is_zero = buf[i] == 0;
        let start = i;
        while i < n && (buf[i] == 0) == is_zero
            invariant
                start <= i <= n, n == buf@.len(), start < n, is_zero == (buf@[start as int] == 0),
                forall|k: int| start <= k < i ==> (buf@[k] == 0) == is_zero,
                i > start ==> run_end(buf@, start as int, start + 1) == run_end(buf@, start as int, i as int),
            decreases n - i,
        {
            i += 1;
        }
        proof {
            assert(run_end(buf@, start as int, i as int) == i);
            assert(sparse_from(buf@, start as int) == run_chunks(buf@, start as int, (i - start) as nat, is_zero) + sparse_from(buf@, i as int));
        }
        let mut run = i - start;
        let mut span_start = start;
        while run > 0
            invariant
                start <= span_start, span_start + run == i, i <= n, n == buf@.len(),
                forall|k: int| start <= k < i ==> (buf@[k] == 0) == is_zero,
                prefix_decodes(out@, buf@.subrange(0, span_start as int), n as nat),
                out@ + run_chunks(buf@, span_start as int, run as nat, is_zero) + sparse_from(buf@, i as int) == sparse_from(buf@, 0),
            decreases run,
        {
            let take: usize = if run < 0xffff_ffff { run } else { 0xffff_ffff };
            let ghost old_out = out@;
            let ghost acc = buf@.subrange(0, span_start as int);
            let ghost data: Seq<u8> = if is_zero { Seq::empty() } else { buf@.subrange(span_start as int, span_start + take) };
            let kind: u8 = if is_zero { CHUNK_ZERO } else { CHUNK_DATA };
            out.push(kind);
            crate::dev::virtio::snd::snapshot::push_u32(&mut out, take as u32);
            if !is_zero {
                let mut k: usize = span_start;
                let ghost mid = out@;
                while k < span_start + take
                    invariant
                        span_start <= k <= span_start + take, span_start + take <= n, n == buf@.len(),
                        out@ == mid + buf@.subrange(span_start as int, k as int),
                    decreases span_start + take - k,
                {
                    out.push(buf[k]);
                    k += 1;
                    assert(out@ =~= mid + buf@.subrange(span_start as int, k as int));
                }
            }
            proof {
                let c = chunk_bytes(kind, take as u32, data);
                assert(out@ =~= old_out + c);
                assert(run_chunks(buf@, span_start as int, run as nat, is_zero)
                    == c + run_chunks(buf@, span_start + take, (run - take) as nat, is_zero));
                assert(out@ + run_chunks(buf@, span_start + take, (run - take) as nat, is_zero) + sparse_from(buf@, i as int)
                    =~= old_out + run_chunks(buf@, span_start as int, run as nat, is_zero) + sparse_from(buf@, i as int));
                let expand = if kind == CHUNK_ZERO { zeros(take as nat) } else { data };
                assert(acc + expand =~= buf@.subrange(0, span_start + take)) by {
                    if is_zero {
                        assert forall|k: int| span_start <= k < span_start + take implies buf@[k] == 0 by {}
                    }
                }
                assert forall|rest: Seq<u8>| #[trigger] sparse_decode_from(out@ + rest, 0, Seq::empty(), n as nat)
                    == sparse_decode_from(out@ + rest, out@.len() as int, buf@.subrange(0, span_start + take), n as nat) by {
                    assert(old_out + (c + rest) =~= out@ + rest);
                    assert(sparse_decode_from(old_out + (c + rest), 0, Seq::empty(), n as nat)
                        == sparse_decode_from(old_out + (c + rest), old_out.len() as int, acc, n as nat));
                    lemma_chunk_step(old_out, acc, kind, take as u32, data, rest, n as nat);
                }
            }
            span_start = span_start + take;
            run = run - take;
        }
    }
    proof {
        assert(out@ + Seq::<u8>::empty() =~= out@);
        assert(sparse_from(buf@, n as int) =~= Seq::<u8>::empty());
        assert(buf@.subrange(0, n as int) =~= buf@);
        assert(sparse_decode_from(out@ + Seq::<u8>::empty(), 0, Seq::empty(), n as nat)
            == sparse_decode_from(out@ + Seq::<u8>::empty(), out@.len() as int, buf@.subrange(0, n as int), n as nat));
    }
    out
}


/// The bytes of the sections `ts`, in order.
pub open spec fn sections_bytes(ts: Seq<(u32, Seq<u8>)>) -> Seq<u8>
    decreases ts.len(),
{
    if ts.len() == 0 { Seq::empty() } else { sections_bytes(ts.drop_last()) + section_bytes(ts.last().0, ts.last().1) }
}

proof fn lemma_sections_split(ts: Seq<(u32, Seq<u8>)>, k: int)
    requires 0 <= k < ts.len(),
    ensures
        sections_bytes(ts) == sections_bytes(ts.take(k)) + section_bytes(ts[k].0, ts[k].1) + sections_bytes(ts.skip(k + 1)),
    decreases ts.len(),
{
    if k == ts.len() - 1 {
        assert(ts.take(k) =~= ts.drop_last());
        assert(ts.skip(k + 1) =~= Seq::<(u32, Seq<u8>)>::empty());
        assert(sections_bytes(ts) =~= sections_bytes(ts.take(k)) + section_bytes(ts[k].0, ts[k].1) + Seq::<u8>::empty());
    } else {
        let d = ts.drop_last();
        lemma_sections_split(d, k);
        assert(d.take(k) =~= ts.take(k));
        assert(d[k] == ts[k]);
        assert(ts.skip(k + 1).drop_last() =~= d.skip(k + 1));
        assert(ts.skip(k + 1).last() == ts.last());
        assert(sections_bytes(ts.skip(k + 1)) == sections_bytes(d.skip(k + 1)) + section_bytes(ts.last().0, ts.last().1));
        assert(sections_bytes(ts) =~= sections_bytes(ts.take(k)) + section_bytes(ts[k].0, ts[k].1) + sections_bytes(ts.skip(k + 1)));
    }
}

/// A written blob reads back in order: in the blob of the header and sections `ts`, the section
/// read at the end of the first `k` is section `k`, with its tag and exactly its payload (an
/// unknown tag is `UnknownSection`), and after the last section reading ends.
#[verifier::spinoff_prover]
#[verifier::rlimit(40)]
pub proof fn lemma_sections_read_back(core_hash: Seq<u8>, base_image_hash: Seq<u8>, overlay_generation: u64, ts: Seq<(u32, Seq<u8>)>, k: int)
    requires
        core_hash.len() == 32, base_image_hash.len() == 32,
        0 <= k <= ts.len(),
        forall|i: int| 0 <= i < ts.len() ==> #[trigger] ts[i].1.len() <= u32::MAX,
    ensures ({
        let blob = header_bytes(core_hash, base_image_hash, overlay_generation) + sections_bytes(ts);
        let pos: int = 84 + sections_bytes(ts.take(k)).len() as int;
        if k == ts.len() {
            section_at(blob, pos) is None
        } else if known_section(ts[k].0) {
            section_at(blob, pos) == Some(Ok::<(u32, int, int), SnapshotError>((ts[k].0, pos + 8, pos + 8 + ts[k].1.len() as int)))
                && blob.subrange(pos + 8, pos + 8 + ts[k].1.len() as int) == ts[k].1
        } else {
            section_at(blob, pos) == Some(Err::<(u32, int, int), SnapshotError>(SnapshotError::UnknownSection { tag: ts[k].0 }))
        }
    }),
{
    let h = header_bytes(core_hash, base_image_hash, overlay_generation);
    assert(h.len() == 84);
    let blob = h + sections_bytes(ts);
    if k == ts.len() {
        assert(ts.take(k) =~= ts);
    } else {
        lemma_sections_split(ts, k);
        let pre = h + sections_bytes(ts.take(k));
        let sec = section_bytes(ts[k].0, ts[k].1);
        let post = sections_bytes(ts.skip(k + 1));
        assert(blob =~= pre + sec + post);
        let pos = pre.len() as int;
        let len = ts[k].1.len() as u32;
        crate::dev::virtio::snd::wire::lemma_u32_roundtrip(ts[k].0);
        crate::dev::virtio::snd::wire::lemma_u32_roundtrip(len);
        assert(blob.subrange(pos, pos + 4) =~= u32_bytes(ts[k].0));
        assert(blob.subrange(pos + 4, pos + 8) =~= u32_bytes(len));
        assert(u32_at(blob, pos) == u32_at(u32_bytes(ts[k].0), 0));
        assert(u32_at(blob, pos + 4) == u32_at(u32_bytes(len), 0));
        assert(blob.subrange(pos + 8, pos + 8 + ts[k].1.len() as int) =~= ts[k].1);
    }
}

/// A blob that starts with the header a writer produced parses back to that header: the magic
/// and version check pass and the identities and overlay generation read back unchanged.
pub proof fn lemma_header_roundtrip(core_hash: Seq<u8>, base_image_hash: Seq<u8>, overlay_generation: u64, rest: Seq<u8>)
    requires core_hash.len() == 32, base_image_hash.len() == 32,
    ensures ({
        let blob = header_bytes(core_hash, base_image_hash, overlay_generation) + rest;
        &&& blob.len() >= 84
        &&& blob.subrange(0, 8) == MAGIC@
        &&& u32_at(blob, 8) == FORMAT_VERSION
        &&& blob.subrange(12, 44) == core_hash
        &&& blob.subrange(44, 76) == base_image_hash
        &&& u64_at(blob, 76) == overlay_generation
    }),
{
    let blob = header_bytes(core_hash, base_image_hash, overlay_generation) + rest;
    assert(blob.subrange(0, 8) =~= MAGIC@);
    assert(blob.subrange(8, 12) =~= u32_bytes(FORMAT_VERSION));
    crate::dev::virtio::snd::wire::lemma_u32_roundtrip(FORMAT_VERSION);
    assert(u32_at(blob, 8) == u32_at(u32_bytes(FORMAT_VERSION), 0));
    assert(blob.subrange(12, 44) =~= core_hash);
    assert(blob.subrange(44, 76) =~= base_image_hash);
    assert(blob.subrange(76, 84) =~= u64_bytes(overlay_generation));
    crate::dev::virtio::snd::wire::lemma_u64_roundtrip(overlay_generation);
    let g = u64_bytes(overlay_generation);
    assert(u32_at(blob, 76) == u32_at(g, 0));
    assert(u32_at(blob, 80) == u32_at(g, 4));
}

} // verus!
