//! Machine checkpoints: a resume blob of the CPU and RAM sections, bound to the machine's
//! coherence identity, and its guarded restore.
//!
//! The CPU section holds `x0..x31` then `pc`, each a little-endian `u64` (264 bytes, `x0` zero).
//! The RAM section holds the RAM length as a little-endian `u64` followed by its zero-elided
//! bytes.

use vstd::prelude::*;
use super::{Machine, SnapshotCoherence};
use crate::hart::regs::XRegs;
use crate::mmio::MmioDevice;
use crate::resume::{
    SnapshotError, SnapshotWriter, SectionReader, SnapshotHeader, section, header_bytes, section_bytes, section_at,
    sparse_decode_from, sparse_from, encode_sparse, decode_sparse, guard_result, header_of, MAGIC, FORMAT_VERSION,
    sections_bytes, lemma_sections_read_back, lemma_sparse_roundtrip, lemma_header_roundtrip, known_section,
};
use crate::dev::virtio::snd::wire::{u32_at, u64_at, u64_bytes};
use crate::dev::virtio::snd::snapshot::{push_u64, read_u64_at};

verus! {

/// The CPU section payload for registers `x` and program counter `pc`.
pub open spec fn cpu_payload(x: Seq<u64>, pc: u64) -> Seq<u8>
    decreases x.len(),
{
    if x.len() == 0 { u64_bytes(pc) } else { u64_bytes(x[0]) + cpu_payload(x.drop_first(), pc) }
}

/// The RAM section payload for RAM bytes `ram`.
pub open spec fn ram_payload(ram: Seq<u8>) -> Seq<u8> {
    u64_bytes(ram.len() as u64) + sparse_from(ram, 0)
}

/// The CPU state a CPU section restores, `x0` first: 264 bytes with `x0` zero.
pub open spec fn cpu_restored(p: Seq<u8>) -> Result<(Seq<u64>, u64), SnapshotError> {
    if p.len() != 264 || u64_at(p, 0) != 0 {
        Err(SnapshotError::BadComponentState { tag: section::CPU })
    } else {
        Ok((Seq::new(32, |i: int| u64_at(p, 8 * i)), u64_at(p, 256)))
    }
}

/// The RAM bytes a RAM section restores into a RAM of `len` bytes: the recorded length must be
/// `len` and the rest must decode to exactly that many bytes.
pub open spec fn ram_restored(p: Seq<u8>, len: nat) -> Result<Seq<u8>, SnapshotError> {
    if p.len() < 8 || u64_at(p, 0) != len {
        Err(SnapshotError::BadComponentState { tag: section::RAM })
    } else {
        sparse_decode_from(p.subrange(8, p.len() as int), 0, Seq::empty(), len)
    }
}

/// A machine state as far as a checkpoint carries it: registers, program counter, RAM bytes.
pub type CheckpointState = (Seq<u64>, u64, Seq<u8>);

/// Applying one section: CPU and RAM sections restore their component; a virtio section is
/// refused, having no device here to receive it; a CLINT, PLIC or UART section is skipped, as for
/// any machine without that device attached. No other tag reaches here: the reader refuses every
/// tag past the seven known ones as an unknown section.
pub open spec fn apply_section(tag: u32, p: Seq<u8>, st: CheckpointState) -> Result<CheckpointState, SnapshotError> {
    if tag == section::CPU {
        match cpu_restored(p) { Ok((x, pc)) => Ok((x, pc, st.2)), Err(e) => Err(e) }
    } else if tag == section::RAM {
        match ram_restored(p, st.2.len()) { Ok(ram) => Ok((st.0, st.1, ram)), Err(e) => Err(e) }
    } else if tag == section::VIRTIO_BLK || tag == section::VIRTIO_NET {
        Err(SnapshotError::BadComponentState { tag })
    } else {
        Ok(st)
    }
}

/// The state after applying the sections of `blob` from `pos` on to `st`, in order, or the first
/// error a section or its component reports.
pub open spec fn restore_from(blob: Seq<u8>, pos: int, st: CheckpointState) -> Result<CheckpointState, SnapshotError>
    decreases blob.len() - pos,
{
    match section_at(blob, pos) {
        None => Ok(st),
        Some(Err(e)) => Err(e),
        Some(Ok((tag, start, end))) => if end <= pos || end > blob.len() {
            Err(SnapshotError::Truncated)
        } else {
            match apply_section(tag, blob.subrange(start, end), st) {
                Err(e) => Err(e),
                Ok(st2) => restore_from(blob, end, st2),
            }
        },
    }
}

/// The state a restore of `blob` from `pos` on leaves when a section fails: every section before
/// the failing one applied, in order, and the failing one not.
pub open spec fn applied_before_failure(blob: Seq<u8>, pos: int, st: CheckpointState) -> CheckpointState
    decreases blob.len() - pos,
{
    match section_at(blob, pos) {
        Some(Ok((tag, start, end))) => if end <= pos || end > blob.len() {
            st
        } else {
            match apply_section(tag, blob.subrange(start, end), st) {
                Err(_) => st,
                Ok(st2) => applied_before_failure(blob, end, st2),
            }
        },
        _ => st,
    }
}

/// Why `blob` is refused before anything is restored: its header does not parse, or it was not
/// taken for this build, base image and overlay generation.
pub open spec fn resume_refusal(blob: Seq<u8>, c: SnapshotCoherence) -> Option<SnapshotError> {
    if blob.len() < 84 {
        Some(SnapshotError::Truncated)
    } else if blob.subrange(0, 8) != MAGIC@ {
        Some(SnapshotError::BadMagic)
    } else if u32_at(blob, 8) != FORMAT_VERSION {
        Some(SnapshotError::VersionMismatch { found: u32_at(blob, 8), supported: FORMAT_VERSION })
    } else if blob.subrange(12, 44) != c.core_hash@ {
        Some(SnapshotError::CoreHashMismatch)
    } else if blob.subrange(44, 76) != c.base_image_hash@ {
        Some(SnapshotError::BaseImageMismatch)
    } else if u64_at(blob, 76) != c.generation {
        Some(SnapshotError::OverlayGenerationMismatch { snapshot: u64_at(blob, 76), current: c.generation })
    } else {
        None
    }
}

/// The checkpoint state of machine `m`.
pub open spec fn state_of<D: MmioDevice>(m: Machine<D>) -> CheckpointState {
    (m.spec_hart().regs@, m.spec_hart().regs.pc, m.spec_bus().ram_view().bytes)
}

/// The blob [`Machine::save_resume`] writes for state `st` and identity `c`.
pub open spec fn resume_blob(st: CheckpointState, c: SnapshotCoherence) -> Seq<u8> {
    header_bytes(c.core_hash@, c.base_image_hash@, c.generation)
        + section_bytes(section::CPU, cpu_payload(st.0, st.1))
        + section_bytes(section::RAM, ram_payload(st.2))
}

fn push_u64_at_end(out: &mut Vec<u8>, v: u64)
    ensures final(out)@ == old(out)@ + u64_bytes(v),
{
    push_u64(out, v);
}

proof fn lemma_u64_at_shift(s: Seq<u8>, off: int, t: Seq<u8>, toff: int)
    requires
        0 <= off, off + 8 <= s.len(), 0 <= toff, toff + 8 <= t.len(),
        s.subrange(off, off + 8) == t.subrange(toff, toff + 8),
    ensures u64_at(s, off) == u64_at(t, toff),
{
    let a = s.subrange(off, off + 8);
    let b = t.subrange(toff, toff + 8);
    assert(a[0] == b[0] && a[1] == b[1] && a[2] == b[2] && a[3] == b[3]);
    assert(a[4] == b[4] && a[5] == b[5] && a[6] == b[6] && a[7] == b[7]);
    assert(s[off] == t[toff] && s[off + 1] == t[toff + 1] && s[off + 2] == t[toff + 2] && s[off + 3] == t[toff + 3]);
    assert(s[off + 4] == t[toff + 4] && s[off + 5] == t[toff + 5] && s[off + 6] == t[toff + 6] && s[off + 7] == t[toff + 7]);
}

proof fn lemma_cpu_payload(x: Seq<u64>, pc: u64)
    ensures
        cpu_payload(x, pc).len() == 8 * x.len() + 8,
        forall|i: int| 0 <= i < x.len() ==> #[trigger] u64_at(cpu_payload(x, pc), 8 * i) == x[i],
        u64_at(cpu_payload(x, pc), 8 * x.len() as int) == pc,
    decreases x.len(),
{
    let p = cpu_payload(x, pc);
    if x.len() == 0 {
        crate::dev::virtio::snd::wire::lemma_u64_roundtrip(pc);
        assert(p.subrange(0, 8) =~= u64_bytes(pc).subrange(0, 8));
        lemma_u64_at_shift(p, 0, u64_bytes(pc), 0);
    } else {
        let rest = x.drop_first();
        lemma_cpu_payload(rest, pc);
        let rp = cpu_payload(rest, pc);
        let head = u64_bytes(x[0]);
        assert(head.len() == 8);
        assert(p == head + rp);
        crate::dev::virtio::snd::wire::lemma_u64_roundtrip(x[0]);
        assert(p.subrange(0, 8) =~= head.subrange(0, 8));
        lemma_u64_at_shift(p, 0, head, 0);
        assert forall|i: int| 0 <= i < x.len() implies #[trigger] u64_at(p, 8 * i) == x[i] by {
            if i > 0 {
                assert(p.subrange(8 * i, 8 * i + 8) =~= rp.subrange(8 * (i - 1), 8 * (i - 1) + 8));
                lemma_u64_at_shift(p, 8 * i, rp, 8 * (i - 1));
                assert(u64_at(rp, 8 * (i - 1)) == rest[i - 1]);
            }
        }
        let n = 8 * x.len() as int;
        assert(p.subrange(n, n + 8) =~= rp.subrange(n - 8, n));
        lemma_u64_at_shift(p, n, rp, 8 * rest.len() as int);
    }
}

/// A CPU section written for registers `x` (with `x0` zero) and `pc` restores exactly them.
proof fn lemma_cpu_restored(x: Seq<u64>, pc: u64)
    requires x.len() == 32, x[0] == 0,
    ensures cpu_restored(cpu_payload(x, pc)) == Ok::<(Seq<u64>, u64), SnapshotError>((x, pc)),
{
    let cp = cpu_payload(x, pc);
    lemma_cpu_payload(x, pc);
    assert(u64_at(cp, 8 * 0int) == x[0]);
    assert(u64_at(cp, 256int) == pc);
    assert(Seq::new(32, |j: int| u64_at(cp, 8 * j)) =~= x);
}

/// A RAM section written for `ram` restores exactly `ram` into a RAM of the same size.
proof fn lemma_ram_restored(ram: Seq<u8>)
    requires ram.len() <= u64::MAX,
    ensures ram_restored(ram_payload(ram), ram.len()) == Ok::<Seq<u8>, SnapshotError>(ram),
{
    let rp = ram_payload(ram);
    let lb = u64_bytes(ram.len() as u64);
    crate::dev::virtio::snd::wire::lemma_u64_roundtrip(ram.len() as u64);
    assert(lb.len() == 8);
    assert(rp.subrange(0, 8) =~= lb.subrange(0, 8));
    lemma_u64_at_shift(rp, 0, lb, 0);
    assert(rp.subrange(8, rp.len() as int) =~= sparse_from(ram, 0));
    lemma_sparse_roundtrip(ram);
}

/// The section list of a resume blob and its byte layout.
proof fn lemma_two_sections(cp: Seq<u8>, rp: Seq<u8>)
    requires cp.len() == 264,
    ensures ({
        let ts: Seq<(u32, Seq<u8>)> = seq![(section::CPU, cp), (section::RAM, rp)];
        &&& sections_bytes(ts) == section_bytes(section::CPU, cp) + section_bytes(section::RAM, rp)
        &&& sections_bytes(ts.take(0)).len() == 0
        &&& sections_bytes(ts.take(1)).len() == 272
        &&& sections_bytes(ts.take(2)).len() == 280 + rp.len()
        &&& ts[0] == (section::CPU, cp) && ts[1] == (section::RAM, rp) && ts.len() == 2
    }),
{
    let ts: Seq<(u32, Seq<u8>)> = seq![(section::CPU, cp), (section::RAM, rp)];
    let one: Seq<(u32, Seq<u8>)> = seq![(section::CPU, cp)];
    assert(one.drop_last() =~= Seq::<(u32, Seq<u8>)>::empty());
    assert(sections_bytes(one) == sections_bytes(one.drop_last()) + section_bytes(one.last().0, one.last().1));
    assert(sections_bytes(one) =~= section_bytes(section::CPU, cp));
    assert(ts.drop_last() =~= one);
    assert(sections_bytes(ts) == sections_bytes(ts.drop_last()) + section_bytes(ts.last().0, ts.last().1));
    assert(ts.take(0) =~= Seq::<(u32, Seq<u8>)>::empty());
    assert(ts.take(1) =~= one);
    assert(ts.take(2) =~= ts);
}

/// The sections of a resume blob: a CPU section then a RAM section.
#[verifier::spinoff_prover]
#[verifier::rlimit(40)]
proof fn lemma_blob_sections(st: CheckpointState, c: SnapshotCoherence)
    requires
        st.0.len() == 32,
        8 + sparse_from(st.2, 0).len() <= u32::MAX,
    ensures ({
        let cp = cpu_payload(st.0, st.1);
        let rp = ram_payload(st.2);
        let blob = resume_blob(st, c);
        let p3 = 356 + 8 + rp.len() as int;
        &&& section_at(blob, 84) == Some(Ok::<(u32, int, int), SnapshotError>((section::CPU, 92, 356)))
        &&& blob.subrange(92, 356) == cp
        &&& section_at(blob, 356) == Some(Ok::<(u32, int, int), SnapshotError>((section::RAM, 364, p3)))
        &&& blob.subrange(364, p3) == rp
        &&& section_at(blob, p3) is None
    }),
{
    let cp = cpu_payload(st.0, st.1);
    let rp = ram_payload(st.2);
    lemma_cpu_payload(st.0, st.1);
    let ts: Seq<(u32, Seq<u8>)> = seq![(section::CPU, cp), (section::RAM, rp)];
    lemma_two_sections(cp, rp);
    let h = header_bytes(c.core_hash@, c.base_image_hash@, c.generation);
    let blob = resume_blob(st, c);
    assert(blob =~= h + sections_bytes(ts));
    assert(forall|i: int| 0 <= i < ts.len() ==> #[trigger] ts[i].1.len() <= u32::MAX);
    assert(known_section(section::CPU) && known_section(section::RAM));
    assert(section_at(blob, 84) == Some(Ok::<(u32, int, int), SnapshotError>((section::CPU, 92, 356)))
        && blob.subrange(92, 356) == cp) by {
        lemma_sections_read_back(c.core_hash@, c.base_image_hash@, c.generation, ts, 0);
    }
    let p3 = 356 + 8 + rp.len() as int;
    assert(section_at(blob, 356) == Some(Ok::<(u32, int, int), SnapshotError>((section::RAM, 364, p3)))
        && blob.subrange(364, p3) == rp) by {
        lemma_sections_read_back(c.core_hash@, c.base_image_hash@, c.generation, ts, 1);
    }
    assert(section_at(blob, p3) is None) by {
        lemma_sections_read_back(c.core_hash@, c.base_image_hash@, c.generation, ts, 2);
    }
}

/// A resume blob passes the coherence guard of the identity it was written for.
proof fn lemma_blob_accepted(st: CheckpointState, c: SnapshotCoherence)
    ensures resume_refusal(resume_blob(st, c), c) is None,
{
    let cp = cpu_payload(st.0, st.1);
    let rp = ram_payload(st.2);
    let rest = section_bytes(section::CPU, cp) + section_bytes(section::RAM, rp);
    let h = header_bytes(c.core_hash@, c.base_image_hash@, c.generation);
    assert(resume_blob(st, c) =~= h + rest);
    lemma_header_roundtrip(c.core_hash@, c.base_image_hash@, c.generation, rest);
}

/// What a checkpoint saves, a restore gives back: the blob [`Machine::save_resume`] writes for
/// state `st` and identity `c` passes the coherence guard, and restoring it onto any state with
/// a RAM of the same size yields exactly `st`.
#[verifier::spinoff_prover]
#[verifier::rlimit(80)]
pub proof fn lemma_resume_roundtrip(st: CheckpointState, c: SnapshotCoherence, st0: CheckpointState)
    requires
        st.0.len() == 32, st.0[0] == 0,
        st0.2.len() == st.2.len(), st.2.len() <= u64::MAX,
        8 + sparse_from(st.2, 0).len() <= u32::MAX,
    ensures
        resume_refusal(resume_blob(st, c), c) is None,
        restore_from(resume_blob(st, c), 84, st0) == Ok::<CheckpointState, SnapshotError>(st),
{
    let cp = cpu_payload(st.0, st.1);
    let rp = ram_payload(st.2);
    let blob = resume_blob(st, c);
    lemma_blob_accepted(st, c);
    lemma_blob_sections(st, c);
    lemma_cpu_restored(st.0, st.1);
    lemma_ram_restored(st.2);
    let p3 = 356 + 8 + rp.len() as int;
    let mid: CheckpointState = (st.0, st.1, st0.2);
    assert(apply_section(section::CPU, cp, st0) == Ok::<CheckpointState, SnapshotError>(mid));
    assert(apply_section(section::RAM, rp, mid) == Ok::<CheckpointState, SnapshotError>(st));
    assert(restore_from(blob, p3, st) == Ok::<CheckpointState, SnapshotError>(st));
    assert(restore_from(blob, 356, mid) == Ok::<CheckpointState, SnapshotError>(st));
}

impl<D: MmioDevice> Machine<D> {
    /// The CPU section payload of the current registers.
    fn cpu_section(&self) -> (r: Vec<u8>)
        ensures r@ == cpu_payload(self.hart.regs@, self.hart.regs.pc), r@.len() == 264,
    {
        let mut out: Vec<u8> = Vec::new();
        proof {
            self.hart.regs.lemma_wf();
            assert(self.hart.regs@.subrange(0, 32) =~= self.hart.regs@);
        }
        let mut i: u8 = 0;
        while i < 32
            invariant
                i <= 32, self.hart.regs@.len() == 32,
                out@ + cpu_payload(self.hart.regs@.subrange(i as int, 32), self.hart.regs.pc)
                    == cpu_payload(self.hart.regs@, self.hart.regs.pc),
                out@.len() == 8 * i,
            decreases 32 - i,
        {
            let v = self.hart.regs.read(i);
            let ghost old_out = out@;
            push_u64_at_end(&mut out, v);
            proof {
                let s = self.hart.regs@.subrange(i as int, 32);
                assert(s[0] == v);
                assert(s.drop_first() =~= self.hart.regs@.subrange(i + 1, 32));
                assert(out@ + cpu_payload(self.hart.regs@.subrange(i + 1, 32), self.hart.regs.pc)
                    =~= old_out + cpu_payload(s, self.hart.regs.pc));
            }
            i += 1;
        }
        push_u64_at_end(&mut out, self.hart.regs.pc);
        proof {
            assert(self.hart.regs@.subrange(32, 32) =~= Seq::<u64>::empty());
        }
        out
    }

    /// Restore the registers from a CPU section payload ([`cpu_restored`]); on `Err` nothing
    /// changes.
    fn restore_cpu(&mut self, payload: &[u8]) -> (r: Result<(), SnapshotError>)
        requires old(self).wf(),
        ensures
            final(self).wf(),
            match cpu_restored(payload@) {
                Ok((x, pc)) => r is Ok && state_of(*final(self)) == (x, pc, state_of(*old(self)).2),
                Err(e) => r == Err::<(), SnapshotError>(e) && *final(self) == *old(self),
            },
            final(self).spec_coherence() == old(self).spec_coherence(),
            final(self).spec_htif() == old(self).spec_htif(),
            final(self).spec_bus() == old(self).spec_bus(),
    {
        if payload.len() != 264 || read_u64_at(payload, 0) != 0 {
            return Err(SnapshotError::BadComponentState { tag: section::CPU });
        }
        let mut x = XRegs::new();
        let mut i: u8 = 1;
        while i < 32
            invariant
                1 <= i <= 32, payload@.len() == 264, u64_at(payload@, 0) == 0,
                x@.len() == 32,
                forall|j: int| 0 <= j < i ==> x@[j] == u64_at(payload@, 8 * j),
            decreases 32 - i,
        {
            let v = read_u64_at(payload, 8 * (i as usize));
            x.write(i, v);
            i += 1;
        }
        x.pc = read_u64_at(payload, 256);
        self.hart.regs = x;
        assert(self.hart.regs@ =~= Seq::new(32, |j: int| u64_at(payload@, 8 * j)));
        Ok(())
    }

    /// Restore RAM from a RAM section payload ([`ram_restored`]); on `Err` nothing changes.
    fn restore_ram(&mut self, payload: &[u8]) -> (r: Result<(), SnapshotError>)
        requires old(self).wf(),
        ensures
            final(self).wf(),
            match ram_restored(payload@, state_of(*old(self)).2.len()) {
                Ok(ram) => r is Ok && state_of(*final(self)) == (state_of(*old(self)).0, state_of(*old(self)).1, ram),
                Err(e) => r == Err::<(), SnapshotError>(e) && *final(self) == *old(self),
            },
            final(self).spec_coherence() == old(self).spec_coherence(),
            final(self).spec_htif() == old(self).spec_htif(),
    {
        let ram_len = self.bus.ram().len();
        if payload.len() < 8 || read_u64_at(payload, 0) != ram_len as u64 {
            return Err(SnapshotError::BadComponentState { tag: section::RAM });
        }
        let enc = vstd::slice::slice_subrange(payload, 8, payload.len());
        let bytes = decode_sparse(enc, ram_len)?;
        proof { crate::resume::lemma_sparse_decode_len(enc@, 0, Seq::empty(), ram_len as nat); }
        let base = self.bus.ram().base();
        let written = self.load_blob(base, bytes.as_slice());
        proof {
            assert(crate::ram::splice(old(self).spec_bus().ram_view().bytes, 0, bytes@) =~= bytes@);
        }
        if written.is_err() {
            return Err(SnapshotError::BadComponentState { tag: section::RAM });
        }
        Ok(())
    }

    /// Restore the machine from a [`Self::save_resume`] blob. The header and the coherence guard
    /// come first: a blob that does not parse, or was taken for another build, base image or
    /// overlay generation, is refused ([`resume_refusal`]) with the machine unchanged. The
    /// sections are then applied in order ([`restore_from`]): CPU and RAM sections restore their
    /// component, the sections of devices this machine does not have are skipped, a virtio
    /// section is refused, and the first refusal ends the restore, leaving the sections before it
    /// applied ([`applied_before_failure`]).
    pub fn load_resume(&mut self, blob: &[u8]) -> (r: Result<(), SnapshotError>)
        requires old(self).wf(),
        ensures
            final(self).wf(),
            resume_refusal(blob@, old(self).spec_coherence()) matches Some(e) ==> r == Err::<(), SnapshotError>(e) && *final(self) == *old(self),
            resume_refusal(blob@, old(self).spec_coherence()) is None ==> match restore_from(blob@, 84, state_of(*old(self))) {
                Ok(st) => r is Ok && state_of(*final(self)) == st,
                Err(e) => r == Err::<(), SnapshotError>(e)
                    && state_of(*final(self)) == applied_before_failure(blob@, 84, state_of(*old(self))),
            },
            final(self).spec_coherence() == old(self).spec_coherence(),
            final(self).spec_htif() == old(self).spec_htif(),
    {
        let (hdr, mut reader) = match SectionReader::new(blob) {
            Ok(p) => p,
            Err(e) => return Err(e),
        };
        if let Err(e) = hdr.validate_for(&self.coherence.core_hash, &self.coherence.base_image_hash, self.coherence.generation) {
            return Err(e);
        }
        assert(resume_refusal(blob@, old(self).spec_coherence()) is None);
        loop
            invariant
                self.wf(),
                reader.spec_blob() == blob@, !reader.spec_done(),
                84 <= reader.spec_pos() <= blob@.len(),
                resume_refusal(blob@, old(self).spec_coherence()) is None,
                restore_from(blob@, 84, state_of(*old(self))) == restore_from(blob@, reader.spec_pos(), state_of(*self)),
                applied_before_failure(blob@, 84, state_of(*old(self))) == applied_before_failure(blob@, reader.spec_pos(), state_of(*self)),
                self.spec_coherence() == old(self).spec_coherence(),
                self.spec_htif() == old(self).spec_htif(),
            ensures
                self.wf(),
                self.spec_coherence() == old(self).spec_coherence(),
                self.spec_htif() == old(self).spec_htif(),
                restore_from(blob@, 84, state_of(*old(self))) == Ok::<CheckpointState, SnapshotError>(state_of(*self)),
            decreases blob@.len() - reader.spec_pos(),
        {
            let ghost pos = reader.spec_pos();
            let next = reader.next();
            match next {
                None => break,
                Some(Err(e)) => return Err(e),
                Some(Ok(sec)) => {
                    let step = if sec.tag == section::CPU {
                        self.restore_cpu(sec.payload)
                    } else if sec.tag == section::RAM {
                        self.restore_ram(sec.payload)
                    } else if sec.tag == section::VIRTIO_BLK || sec.tag == section::VIRTIO_NET {
                        Err(SnapshotError::BadComponentState { tag: sec.tag })
                    } else {
                        Ok(())
                    };
                    if let Err(e) = step {
                        return Err(e);
                    }
                },
            }
        }
        self.block_cursor = None;
        Ok(())
    }

    /// Serialize the machine into a resume blob bound to its coherence identity: the header,
    /// then the CPU section, then the RAM section ([`resume_blob`]). The RAM section must fit a
    /// `u32` length; a larger one is `SectionLengthOverflow`.
    pub fn save_resume(&mut self) -> (r: Result<Vec<u8>, SnapshotError>)
        requires old(self).wf(),
        ensures
            *final(self) == *old(self),
            8 + sparse_from(state_of(*old(self)).2, 0).len() <= u32::MAX ==> (r matches Ok(b)
                && b@ == resume_blob(state_of(*old(self)), old(self).spec_coherence())),
            8 + sparse_from(state_of(*old(self)).2, 0).len() > u32::MAX
                ==> r == Err::<Vec<u8>, SnapshotError>(SnapshotError::SectionLengthOverflow { tag: section::RAM }),
            r matches Ok(b) ==> (forall|h: SnapshotHeader| #[trigger] header_of(h, b@) ==> h.core_hash@ == old(self).spec_coherence().core_hash@
                && h.base_image_hash@ == old(self).spec_coherence().base_image_hash@
                && h.overlay_generation == old(self).spec_coherence().generation
                && h.format_version == FORMAT_VERSION),
    {
        let cpu = self.cpu_section();
        let ram = self.bus.ram();
        let enc = encode_sparse(ram.as_bytes());
        if enc.len() > (u32::MAX as usize) - 8 {
            return Err(SnapshotError::SectionLengthOverflow { tag: section::RAM });
        }
        let mut ram_sec: Vec<u8> = Vec::new();
        push_u64_at_end(&mut ram_sec, ram.len() as u64);
        let ghost head = ram_sec@;
        let mut k: usize = 0;
        while k < enc.len()
            invariant k <= enc@.len(), ram_sec@ == head + enc@.subrange(0, k as int),
            decreases enc.len() - k,
        {
            ram_sec.push(enc[k]);
            k += 1;
            assert(ram_sec@ =~= head + enc@.subrange(0, k as int));
        }
        assert(enc@.subrange(0, enc@.len() as int) =~= enc@);
        let mut w = SnapshotWriter::new(&self.coherence.core_hash, &self.coherence.base_image_hash, self.coherence.generation);
        w.section(section::CPU, cpu.as_slice());
        w.section(section::RAM, ram_sec.as_slice());
        let b = w.finish();
        proof {
            let c = self.coherence;
            crate::resume::lemma_header_roundtrip(c.core_hash@, c.base_image_hash@, c.generation,
                section_bytes(section::CPU, cpu@) + section_bytes(section::RAM, ram_sec@));
            assert(b@ =~= header_bytes(c.core_hash@, c.base_image_hash@, c.generation)
                + (section_bytes(section::CPU, cpu@) + section_bytes(section::RAM, ram_sec@)));
        }
        Ok(b)
    }
}

} // verus!
