//! ELF64 loader for bare-metal riscv64 executables.
//!
//! Segments load at `p_paddr`, not `p_vaddr`. Loading is two-pass: pass 1 validates the header
//! and every `PT_LOAD` segment (file ranges and RAM ranges, all with checked arithmetic); pass 2
//! copies. On any `Err`, guest RAM is bit-identical to its state before the call.
//!
//! Symbol lookup (`tohost`/`fromhost`) is best-effort: a malformed `.symtab`/`.strtab` yields
//! `None`s, never an error.

use vstd::prelude::*;
use crate::ram::{Ram, RamView, le_value, ram_range};

verus! {

/// Result of a successful load.
#[derive(Debug, Clone, Copy, PartialEq, Eq)]
pub struct LoadedImage {
    /// `e_entry`: where the hart's PC should start.
    pub entry: u64,
    /// Address of the `tohost` symbol, when present.
    pub tohost: Option<u64>,
    /// Address of the `fromhost` symbol, when present.
    pub fromhost: Option<u64>,
}

/// Why an image was rejected.
#[derive(Debug, Clone, Copy, PartialEq, Eq)]
pub enum ElfError {
    /// Not `\x7fELF`.
    BadMagic,
    /// `EI_CLASS != ELFCLASS64`.
    WrongClass,
    /// `EI_DATA != ELFDATA2LSB`.
    WrongEndian,
    /// `e_machine != EM_RISCV (243)`.
    WrongMachine,
    /// `e_type != ET_EXEC`.
    WrongType,
    /// A file-side inconsistency: short buffer, tables or segments past EOF, overflowing
    /// arithmetic, `p_filesz > p_memsz`, or more than 16 loadable segments.
    Truncated,
    /// A `PT_LOAD` destination `[p_paddr, p_paddr + p_memsz)` does not fit in RAM.
    SegmentOutOfRam,
}

pub const PT_LOAD: u64 = 1;
pub const SHT_SYMTAB: u64 = 2;
pub const EM_RISCV: u64 = 243;
pub const ET_EXEC: u64 = 2;

/// The verdict of the fixed 64-byte header checks, in the order they are made: magic, length,
/// class, endianness, machine (before type), type, program-header entry size.
pub open spec fn header_error(b: Seq<u8>) -> Option<ElfError> {
    if b.len() < 4 || b[0] != 0x7f || b[1] != 0x45 || b[2] != 0x4c || b[3] != 0x46 {
        Some(ElfError::BadMagic)
    } else if b.len() < 64 {
        Some(ElfError::Truncated)
    } else if b[4] != 2 {
        Some(ElfError::WrongClass)
    } else if b[5] != 1 {
        Some(ElfError::WrongEndian)
    } else if le_value(b, 18, 2) != EM_RISCV {
        Some(ElfError::WrongMachine)
    } else if le_value(b, 16, 2) != ET_EXEC {
        Some(ElfError::WrongType)
    } else if le_value(b, 54, 2) < 56 {
        Some(ElfError::Truncated)
    } else {
        None
    }
}

/// A `PT_LOAD` program header: `filesz` file bytes from `file_off` go to `paddr`, followed by
/// zeros up to `memsz` bytes.
#[derive(Debug, Clone, Copy, PartialEq, Eq)]
pub struct Segment {
    pub file_off: u64,
    pub filesz: u64,
    pub paddr: u64,
    pub memsz: u64,
}

/// A segment whose file bytes lie in `b` and whose destination lies in `ram`.
pub open spec fn segment_ok(s: Segment, b: Seq<u8>, ram: RamView) -> bool {
    &&& s.filesz <= s.memsz
    &&& s.file_off + s.filesz <= b.len()
    &&& ram_range(ram, s.paddr, s.memsz as nat) is Ok
    &&& s.paddr + s.memsz <= 0x1_0000_0000_0000_0000
}

/// Program header `i` of `b` checked against `ram`: `Ok(None)` for a header that is not
/// `PT_LOAD`, `Ok(Some(seg))` for a valid loadable segment, else the error it is refused with.
pub open spec fn ph_entry(b: Seq<u8>, ram: RamView, i: u64) -> Result<Option<Segment>, ElfError> {
    let phoff = le_value(b, 32, 8);
    let phent = le_value(b, 54, 2);
    let ph = phoff + i * phent;
    if i * phent > u64::MAX || ph > u64::MAX || ph + 56 > b.len() {
        Err(ElfError::Truncated)
    } else if le_value(b, ph, 4) != PT_LOAD {
        Ok(None)
    } else {
        let seg = Segment {
            file_off: le_value(b, ph + 8, 8), paddr: le_value(b, ph + 24, 8),
            filesz: le_value(b, ph + 32, 8), memsz: le_value(b, ph + 40, 8),
        };
        if seg.filesz > seg.memsz || seg.file_off + seg.filesz > b.len() {
            Err(ElfError::Truncated)
        } else if seg.paddr < ram.base || seg.paddr + seg.memsz > ram.base + ram.bytes.len()
            || seg.paddr + seg.memsz > 0x1_0000_0000_0000_0000 {
            Err(ElfError::SegmentOutOfRam)
        } else {
            Ok(Some(seg))
        }
    }
}

/// The loadable segments among the first `k` program headers, in order, or the first error;
/// more than 16 loadable segments is `Truncated`.
pub open spec fn ph_scan(b: Seq<u8>, ram: RamView, k: nat) -> Result<Seq<Segment>, ElfError>
    decreases k,
{
    if k == 0 {
        Ok(Seq::empty())
    } else {
        match ph_scan(b, ram, (k - 1) as nat) {
            Err(e) => Err(e),
            Ok(segs) => match ph_entry(b, ram, (k - 1) as u64) {
                Err(e) => Err(e),
                Ok(None) => Ok(segs),
                Ok(Some(seg)) => if segs.len() >= 16 { Err(ElfError::Truncated) } else { Ok(segs.push(seg)) },
            },
        }
    }
}

/// Why `b` cannot be loaded into `ram`, in the order of the checks; `None` when it can.
pub open spec fn elf_error(b: Seq<u8>, ram: RamView) -> Option<ElfError> {
    match header_error(b) {
        Some(e) => Some(e),
        None => match ph_scan(b, ram, le_value(b, 56, 2) as nat) {
            Err(e) => Some(e),
            Ok(_) => None,
        },
    }
}

/// The loadable segments of an image that loads.
pub open spec fn elf_segments(b: Seq<u8>, ram: RamView) -> Seq<Segment> {
    ph_scan(b, ram, le_value(b, 56, 2) as nat)->Ok_0
}

/// `prev` with `data` at `off` and zeros from its end up to `zero_end`.
pub open spec fn fill(prev: Seq<u8>, off: int, data: Seq<u8>, zero_end: int) -> Seq<u8> {
    Seq::new(prev.len(), |j: int| if off <= j < off + data.len() { data[j - off] } else if off + data.len() <= j < zero_end { 0u8 } else { prev[j] })
}

/// RAM bytes `prev` (based at `base`) after segment `seg` of `b` is loaded.
pub open spec fn load_segment(prev: Seq<u8>, base: u64, seg: Segment, b: Seq<u8>) -> Seq<u8> {
    fill(prev, seg.paddr - base, b.subrange(seg.file_off as int, seg.file_off + seg.filesz), seg.paddr - base + seg.memsz)
}

/// RAM bytes `ram` (based at `base`) after the segments `segs` of `b` are loaded in order.
pub open spec fn load_all(ram: Seq<u8>, base: u64, segs: Seq<Segment>, b: Seq<u8>) -> Seq<u8>
    decreases segs.len(),
{
    if segs.len() == 0 { ram } else { load_segment(load_all(ram, base, segs.drop_last(), b), base, segs.last(), b) }
}

proof fn lemma_ph_scan_err_sticks(b: Seq<u8>, ram: RamView, k: nat, n: nat)
    requires k <= n, ph_scan(b, ram, k) is Err,
    ensures ph_scan(b, ram, n) == ph_scan(b, ram, k),
    decreases n - k,
{
    if k < n {
        lemma_ph_scan_err_sticks(b, ram, k, (n - 1) as nat);
    }
}

proof fn lemma_ph_scan_ok(b: Seq<u8>, ram: RamView, k: nat)
    requires ph_scan(b, ram, k) is Ok,
    ensures
        ph_scan(b, ram, k)->Ok_0.len() <= 16,
        forall|j: int| 0 <= j < ph_scan(b, ram, k)->Ok_0.len() ==> segment_ok(#[trigger] ph_scan(b, ram, k)->Ok_0[j], b, ram),
    decreases k,
{
    if k > 0 {
        lemma_ph_scan_ok(b, ram, (k - 1) as nat);
    }
}

/// The little-endian value of `width` bytes at `off`, or `Truncated` past the end.
fn read_le(b: &[u8], off: u64, width: u64) -> (r: Result<u64, ElfError>)
    requires width == 2 || width == 4 || width == 8,
    ensures
        off + width <= b@.len() ==> r == Ok::<u64, ElfError>(le_value(b@, off as int, width as nat)),
        off + width > b@.len() ==> r == Err::<u64, ElfError>(ElfError::Truncated),
{
    let b_len = b.len();
    proof { crate::ram::lemma_usize_fits_u64(b_len as nat); }
    let n = b.len() as u64;
    if off > n || n - off < width {
        return Err(ElfError::Truncated);
    }
    let o = off as usize;
    if width == 2 {
        Ok((b[o] as u64) | ((b[o + 1] as u64) << 8u64))
    } else if width == 4 {
        Ok((b[o] as u64) | ((b[o + 1] as u64) << 8u64) | ((b[o + 2] as u64) << 16u64)
            | ((b[o + 3] as u64) << 24u64))
    } else {
        Ok((b[o] as u64) | ((b[o + 1] as u64) << 8u64) | ((b[o + 2] as u64) << 16u64)
            | ((b[o + 3] as u64) << 24u64) | ((b[o + 4] as u64) << 32u64)
            | ((b[o + 5] as u64) << 40u64) | ((b[o + 6] as u64) << 48u64)
            | ((b[o + 7] as u64) << 56u64))
    }
}

/// `[off, off + size)` as an in-bounds range of `b`, or `Truncated`.
fn file_range(b: &[u8], off: u64, size: u64) -> (r: Result<(usize, usize), ElfError>)
    ensures
        off + size <= b@.len() ==> r == Ok::<(usize, usize), ElfError>((off as usize, (off + size) as usize)),
        off + size > b@.len() ==> r == Err::<(usize, usize), ElfError>(ElfError::Truncated),
{
    let b_len = b.len();
    proof { crate::ram::lemma_usize_fits_u64(b_len as nat); }
    let end = match off.checked_add(size) {
        Some(e) => e,
        None => return Err(ElfError::Truncated),
    };
    if end > b.len() as u64 {
        return Err(ElfError::Truncated);
    }
    Ok((off as usize, end as usize))
}

/// Validate `bytes` as a bare-metal rv64 `ET_EXEC` image and load it into `ram`: refused with
/// [`elf_error`] when it cannot be loaded (RAM untouched), else every loadable segment is copied
/// in order ([`load_all`]) and the entry point and `tohost`/`fromhost` symbols are returned.
#[verifier::rlimit(30)]
pub fn load_elf(bytes: &[u8], ram: &mut Ram) -> (r: Result<LoadedImage, ElfError>)
    ensures
        header_error(bytes@) matches Some(e) ==> r == Err::<LoadedImage, ElfError>(e),
        elf_error(bytes@, old(ram)@) matches Some(e) ==> r == Err::<LoadedImage, ElfError>(e),
        r matches Ok(img) ==> header_error(bytes@) is None && img.entry == le_value(bytes@, 24, 8),
        r is Err ==> final(ram)@ == old(ram)@,
        elf_error(bytes@, old(ram)@) is None ==> r is Ok,
        r matches Ok(img) ==> elf_error(bytes@, old(ram)@) is None
            && (img.tohost, img.fromhost) == htif_symbols(bytes@, le_value(bytes@, 40, 8), le_value(bytes@, 58, 2), le_value(bytes@, 60, 2)),
        r is Ok ==> final(ram)@.bytes == load_all(old(ram)@.bytes, old(ram)@.base, elf_segments(bytes@, old(ram)@), bytes@),
        final(ram)@.base == old(ram)@.base,
        final(ram)@.bytes.len() == old(ram)@.bytes.len(),
{
    if bytes.len() < 4 || bytes[0] != 0x7f || bytes[1] != 0x45 || bytes[2] != 0x4c || bytes[3] != 0x46 {
        return Err(ElfError::BadMagic);
    }
    if bytes.len() < 64 {
        return Err(ElfError::Truncated);
    }
    if bytes[4] != 2 {
        return Err(ElfError::WrongClass);
    }
    if bytes[5] != 1 {
        return Err(ElfError::WrongEndian);
    }
    let e_machine = read_le(bytes, 18, 2)?;
    if e_machine != EM_RISCV {
        return Err(ElfError::WrongMachine);
    }
    let e_type = read_le(bytes, 16, 2)?;
    if e_type != ET_EXEC {
        return Err(ElfError::WrongType);
    }
    let entry = read_le(bytes, 24, 8)?;
    let e_phoff = read_le(bytes, 32, 8)?;
    let e_shoff = read_le(bytes, 40, 8)?;
    let e_phentsize = read_le(bytes, 54, 2)?;
    let e_phnum = read_le(bytes, 56, 2)?;
    let e_shentsize = read_le(bytes, 58, 2)?;
    let e_shnum = read_le(bytes, 60, 2)?;
    if e_phentsize < 56 {
        return Err(ElfError::Truncated);
    }

    // Pass 1: parse and validate every PT_LOAD; no RAM writes.
    let ram_base = ram.base();
    let ram_len = ram.len() as u64;
    let mut segments: Vec<Segment> = Vec::new();
    let mut i: u64 = 0;
    let bytes_len = bytes.len();
    proof { crate::ram::lemma_usize_fits_u64(bytes_len as nat); }
    while i < e_phnum
        invariant
            header_error(bytes@) is None,
            e_phoff == le_value(bytes@, 32, 8), e_phentsize == le_value(bytes@, 54, 2),
            e_phnum == le_value(bytes@, 56, 2),
            bytes_len == bytes@.len(), bytes_len <= u64::MAX,
            ram@ == old(ram)@,
            ram_base == ram@.base, ram_len == ram@.bytes.len(),
            i <= e_phnum,
            ph_scan(bytes@, ram@, i as nat) == Ok::<Seq<Segment>, ElfError>(segments@),
        decreases e_phnum - i,
    {
        let step = match i.checked_mul(e_phentsize) {
            Some(v) => v,
            None => {
                proof { lemma_ph_scan_err_sticks(bytes@, ram@, (i + 1) as nat, e_phnum as nat); }
                return Err(ElfError::Truncated);
            },
        };
        let ph = match e_phoff.checked_add(step) {
            Some(v) => v,
            None => {
                proof { lemma_ph_scan_err_sticks(bytes@, ram@, (i + 1) as nat, e_phnum as nat); }
                return Err(ElfError::Truncated);
            },
        };
        let ph = match file_range(bytes, ph, 56) {
            Ok((ph, _)) => ph as u64,
            Err(e) => {
                proof { lemma_ph_scan_err_sticks(bytes@, ram@, (i + 1) as nat, e_phnum as nat); }
                return Err(e);
            },
        };
        if read_le(bytes, ph, 4)? != PT_LOAD {
            i += 1;
            continue;
        }
        let seg = Segment {
            file_off: read_le(bytes, ph + 8, 8)?,
            paddr: read_le(bytes, ph + 24, 8)?,
            filesz: read_le(bytes, ph + 32, 8)?,
            memsz: read_le(bytes, ph + 40, 8)?,
        };
        if seg.filesz > seg.memsz {
            proof { lemma_ph_scan_err_sticks(bytes@, ram@, (i + 1) as nat, e_phnum as nat); }
            return Err(ElfError::Truncated);
        }
        if file_range(bytes, seg.file_off, seg.filesz).is_err() {
            proof { lemma_ph_scan_err_sticks(bytes@, ram@, (i + 1) as nat, e_phnum as nat); }
            return Err(ElfError::Truncated);
        }
        let ram_end = (ram_base as u128) + (ram_len as u128);
        let seg_end = (seg.paddr as u128) + (seg.memsz as u128);
        if (seg.paddr as u128) < (ram_base as u128) || seg_end > ram_end || seg_end > 0x1_0000_0000_0000_0000u128 {
            proof { lemma_ph_scan_err_sticks(bytes@, ram@, (i + 1) as nat, e_phnum as nat); }
            return Err(ElfError::SegmentOutOfRam);
        }
        if segments.len() >= 16 {
            proof { lemma_ph_scan_err_sticks(bytes@, ram@, (i + 1) as nat, e_phnum as nat); }
            return Err(ElfError::Truncated);
        }
        segments.push(seg);
        i += 1;
    }
    proof { lemma_ph_scan_ok(bytes@, ram@, e_phnum as nat); }

    // Pass 2: copy and zero-fill. Validation is complete; every write lands in RAM.
    let ghost ram0 = ram@;
    let nseg = segments.len();
    let mut s: usize = 0;
    while s < nseg
        invariant
            header_error(bytes@) is None,
            nseg == segments@.len(),
            ram@.base == ram0.base, ram@.bytes.len() == ram0.bytes.len(),
            ram0 == old(ram)@,
            s <= nseg,
            forall|k: int| 0 <= k < segments@.len() ==> segment_ok(#[trigger] segments@[k], bytes@, ram0),
            elf_error(bytes@, ram0) is None, elf_segments(bytes@, ram0) == segments@,
            ram@.bytes == load_all(ram0.bytes, ram0.base, segments@.take(s as int), bytes@),
        decreases nseg - s,
    {
        let seg = &segments[s];
        assert(segment_ok(segments@[s as int], bytes@, ram0));
        let bytes_len = bytes.len();
        proof { crate::ram::lemma_usize_fits_u64(bytes_len as nat); }
        let (a, b) = file_range(bytes, seg.file_off, seg.filesz)?;
        let mut data: Vec<u8> = Vec::new();
        let mut k: usize = a;
        while k < b
            invariant
                a <= k <= b, b <= bytes@.len(),
                data@ == bytes@.subrange(a as int, k as int),
            decreases b - k,
        {
            data.push(bytes[k]);
            k += 1;
        }
        let ghost prev = ram@.bytes;
        let ghost off: int = seg.paddr - ram0.base;
        let ghost file = bytes@.subrange(seg.file_off as int, seg.file_off + seg.filesz);
        if ram.write_slice(seg.paddr, data.as_slice()).is_err() {
            return Err(ElfError::SegmentOutOfRam);
        }
        proof {
            assert(data@ == file);
            assert(ram@.bytes =~= fill(prev, off, file, off + seg.filesz));
        }
        let mut at = seg.paddr.wrapping_add(seg.filesz);
        let mut remaining = seg.memsz - seg.filesz;
        while remaining > 0
            invariant
                header_error(bytes@) is None,
                ram@.base == ram0.base, ram@.bytes.len() == ram0.bytes.len(),
                ram0 == old(ram)@,
                prev.len() == ram0.bytes.len(),
                off == seg.paddr - ram0.base, file.len() == seg.filesz,
                segment_ok(*seg, bytes@, ram0),
                elf_error(bytes@, ram0) is None,
                remaining <= seg.memsz - seg.filesz,
                remaining > 0 ==> at == seg.paddr + seg.memsz - remaining,
                ram@.bytes == fill(prev, off, file, off + seg.memsz - remaining),
                remaining > 0 ==> ram_range(ram0, at, remaining as nat) is Ok
                    && at + remaining <= 0x1_0000_0000_0000_0000,
            decreases remaining,
        {
            let n: u64 = if remaining < 512 { remaining } else { 512 };
            let zeros: Vec<u8> = vec![0u8; n as usize];
            let ghost cur = ram@.bytes;
            proof {
                assert(ram_range(ram@, at, n as nat) is Ok);
            }
            if ram.write_slice(at, zeros.as_slice()).is_err() {
                return Err(ElfError::SegmentOutOfRam);
            }
            proof {
                assert(ram@.bytes =~= fill(prev, off, file, off + seg.memsz - (remaining - n)));
            }
            at = at.wrapping_add(n);
            remaining = remaining - n;
        }
        proof {
            assert(segments@.take(s as int + 1).drop_last() =~= segments@.take(s as int));
            assert(segments@.take(s as int + 1).last() == *seg);
            assert(ram@.bytes =~= load_segment(prev, ram0.base, *seg, bytes@));
        }
        s += 1;
    }
    assert(segments@.take(nseg as int) =~= segments@);

    let (tohost, fromhost) = find_htif_symbols(bytes, e_shoff, e_shentsize, e_shnum);
    Ok(LoadedImage { entry, tohost, fromhost })
}

/// Whether the NUL-terminated string at `off` in `strtab` is exactly `name`.
fn name_is(strtab: &[u8], off: u64, name: &[u8]) -> (r: bool)
    ensures
        r == (off + name@.len() < strtab@.len()
            && strtab@.subrange(off as int, off + name@.len()) == name@
            && strtab@[off + name@.len()] == 0),
{
    let strtab_len = strtab.len();
    let name_len = name.len();
    proof {
        crate::ram::lemma_usize_fits_u64(strtab_len as nat);
        crate::ram::lemma_usize_fits_u64(name_len as nat);
    }
    let n = strtab.len() as u64;
    let m = name.len() as u64;
    if off >= n || n - off <= m {
        return false;
    }
    let o = off as usize;
    let mut k: usize = 0;
    while k < name.len()
        invariant
            o + name@.len() < strtab@.len(), o == off,
            strtab_len == strtab@.len(),
            forall|j: int| 0 <= j < k ==> strtab@[o + j] == name@[j],
        decreases name.len() - k,
    {
        if strtab[o + k] != name[k] {
            assert(strtab@.subrange(off as int, off + name@.len())[k as int] != name@[k as int]);
            return false;
        }
        k += 1;
    }
    assert(strtab@.subrange(off as int, off + name@.len()) =~= name@);
    strtab[o + name.len()] == 0
}

/// Field `field` (`width` bytes) of section header `i` of `b`: `None` when its offset overflows
/// or it lies past the end.
pub open spec fn sh_field_of(b: Seq<u8>, e_shoff: u64, e_shentsize: u64, i: u64, field: u64, width: u64) -> Option<u64> {
    let at = e_shoff + i * e_shentsize + field;
    if i * e_shentsize > u64::MAX || e_shoff + i * e_shentsize > u64::MAX || at > u64::MAX || at + width > b.len() {
        None
    } else {
        Some(le_value(b, at, width as nat))
    }
}

/// The symbol record `k` of a symbol table at `sym_off`: its name offset and value, or `None`
/// when its address overflows or it lies past the end.
pub open spec fn sym_record(b: Seq<u8>, sym_off: u64, k: int) -> Option<(u64, u64)> {
    let a = sym_off + 24 * k;
    if a > u64::MAX || a + 24 > b.len() { None } else { Some((le_value(b, a, 4), le_value(b, a + 8, 8))) }
}

/// The NUL-terminated string at `off` in `strtab` is exactly `name`.
pub open spec fn names(strtab: Seq<u8>, off: u64, name: Seq<u8>) -> bool {
    off + name.len() < strtab.len() && strtab.subrange(off as int, off + name.len()) == name && strtab[off + name.len()] == 0
}

/// `tohost` in ASCII.
pub open spec fn tohost_name() -> Seq<u8> { seq![0x74u8, 0x6f, 0x68, 0x6f, 0x73, 0x74] }

/// `fromhost` in ASCII.
pub open spec fn fromhost_name() -> Seq<u8> { seq![0x66u8, 0x72, 0x6f, 0x6d, 0x68, 0x6f, 0x73, 0x74] }

/// The `(tohost, fromhost)` values found after the first `k` records of a symbol table, from
/// `acc`: a later definition of a name replaces an earlier one; unreadable records are skipped
/// (all records after one are unreadable too).
pub open spec fn scan_syms(b: Seq<u8>, strtab: Seq<u8>, sym_off: u64, k: nat, acc: (Option<u64>, Option<u64>)) -> (Option<u64>, Option<u64>)
    decreases k,
{
    if k == 0 {
        acc
    } else {
        let prev = scan_syms(b, strtab, sym_off, (k - 1) as nat, acc);
        match sym_record(b, sym_off, k - 1) {
            None => prev,
            Some((name_off, value)) => if names(strtab, name_off, tohost_name()) {
                (Some(value), prev.1)
            } else if names(strtab, name_off, fromhost_name()) {
                (prev.0, Some(value))
            } else {
                prev
            },
        }
    }
}

/// Section `i` applied to `acc`: a symbol table (type `SHT_SYMTAB`) with readable offsets, size,
/// link and linked string table contributes its first `min(size / 24, 4096)` records; another
/// section changes nothing; an unreadable symbol table gives `None`.
pub open spec fn scan_section(b: Seq<u8>, e_shoff: u64, e_shentsize: u64, i: u64, acc: (Option<u64>, Option<u64>)) -> Option<(Option<u64>, Option<u64>)> {
    if sh_field_of(b, e_shoff, e_shentsize, i, 4, 4) != Some(SHT_SYMTAB) {
        Some(acc)
    } else {
        match (sh_field_of(b, e_shoff, e_shentsize, i, 24, 8), sh_field_of(b, e_shoff, e_shentsize, i, 32, 8), sh_field_of(b, e_shoff, e_shentsize, i, 40, 4)) {
            (Some(sym_off), Some(sym_size), Some(link)) => match (sh_field_of(b, e_shoff, e_shentsize, link, 24, 8), sh_field_of(b, e_shoff, e_shentsize, link, 32, 8)) {
                (Some(str_off), Some(str_size)) => if str_off + str_size > b.len() {
                    None
                } else {
                    let count = sym_size / 24;
                    let lim: nat = if count < 4096 { count as nat } else { 4096 };
                    Some(scan_syms(b, b.subrange(str_off as int, str_off + str_size), sym_off, lim, acc))
                },
                _ => None,
            },
            _ => None,
        }
    }
}

/// The symbols found in the first `k` sections; `None` once a symbol table is unreadable.
pub open spec fn scan_sections(b: Seq<u8>, e_shoff: u64, e_shentsize: u64, k: nat) -> Option<(Option<u64>, Option<u64>)>
    decreases k,
{
    if k == 0 {
        Some((None, None))
    } else {
        match scan_sections(b, e_shoff, e_shentsize, (k - 1) as nat) {
            None => None,
            Some(acc) => scan_section(b, e_shoff, e_shentsize, (k - 1) as u64, acc),
        }
    }
}

/// The `tohost`/`fromhost` symbol values of an image: found in the first 256 section headers
/// (entries of at least 64 bytes), both `None` when the symbol tables are inconsistent.
pub open spec fn htif_symbols(b: Seq<u8>, e_shoff: u64, e_shentsize: u64, e_shnum: u64) -> (Option<u64>, Option<u64>) {
    if e_shentsize < 64 {
        (None, None)
    } else {
        let lim: nat = if e_shnum < 256 { e_shnum as nat } else { 256 };
        match scan_sections(b, e_shoff, e_shentsize, lim) {
            Some(r) => r,
            None => (None, None),
        }
    }
}

proof fn lemma_scan_sections_none_sticks(b: Seq<u8>, e_shoff: u64, e_shentsize: u64, k: nat, n: nat)
    requires k <= n, scan_sections(b, e_shoff, e_shentsize, k) is None,
    ensures scan_sections(b, e_shoff, e_shentsize, n) is None,
    decreases n - k,
{
    if k < n {
        lemma_scan_sections_none_sticks(b, e_shoff, e_shentsize, k, (n - 1) as nat);
    }
}

proof fn lemma_scan_syms_tail(b: Seq<u8>, strtab: Seq<u8>, sym_off: u64, k: nat, n: nat, acc: (Option<u64>, Option<u64>))
    requires k <= n, sym_record(b, sym_off, k as int) is None,
    ensures scan_syms(b, strtab, sym_off, n, acc) == scan_syms(b, strtab, sym_off, k, acc),
    decreases n - k,
{
    if k < n {
        lemma_scan_syms_tail(b, strtab, sym_off, k, (n - 1) as nat, acc);
        assert(sym_record(b, sym_off, n - 1) is None);
    }
}

/// Field `field` (`width` bytes) of section header `i`, or `None` on any inconsistency.
fn sh_field(bytes: &[u8], e_shoff: u64, e_shentsize: u64, i: u64, field: u64, width: u64) -> (r: Option<u64>)
    requires width == 4 || width == 8,
    ensures r == sh_field_of(bytes@, e_shoff, e_shentsize, i, field, width),
{
    let step = i.checked_mul(e_shentsize)?;
    let off = e_shoff.checked_add(step)?;
    let at = off.checked_add(field)?;
    match read_le(bytes, at, width) {
        Ok(v) => Some(v),
        Err(_) => None,
    }
}

/// Scan `.symtab`/`.strtab` for `tohost`/`fromhost` ([`htif_symbols`]). Any inconsistency
/// gives `None`s.
fn find_htif_symbols(bytes: &[u8], e_shoff: u64, e_shentsize: u64, e_shnum: u64) -> (r: (Option<u64>, Option<u64>))
    ensures r == htif_symbols(bytes@, e_shoff, e_shentsize, e_shnum),
{
    if e_shentsize < 64 {
        return (None, None);
    }
    let to_name: [u8; 6] = [0x74, 0x6f, 0x68, 0x6f, 0x73, 0x74];
    let from_name: [u8; 8] = [0x66, 0x72, 0x6f, 0x6d, 0x68, 0x6f, 0x73, 0x74];
    assert(to_name@ =~= tohost_name());
    assert(from_name@ =~= fromhost_name());
    let mut tohost: Option<u64> = None;
    let mut fromhost: Option<u64> = None;
    let limit: u64 = if e_shnum < 256 { e_shnum } else { 256 };
    let mut i: u64 = 0;
    while i < limit
        invariant
            i <= limit, limit <= 256, e_shentsize >= 64,
            limit == (if e_shnum < 256 { e_shnum } else { 256 }),
            to_name@ == tohost_name(), from_name@ == fromhost_name(),
            scan_sections(bytes@, e_shoff, e_shentsize, i as nat) == Some((tohost, fromhost)),
        decreases limit - i,
    {
        if sh_field(bytes, e_shoff, e_shentsize, i, 4, 4) != Some(SHT_SYMTAB) {
            i += 1;
            continue;
        }
        let sym_off = sh_field(bytes, e_shoff, e_shentsize, i, 24, 8);
        let sym_size = sh_field(bytes, e_shoff, e_shentsize, i, 32, 8);
        let link = sh_field(bytes, e_shoff, e_shentsize, i, 40, 4);
        let (sym_off, sym_size, link) = match (sym_off, sym_size, link) {
            (Some(a), Some(b), Some(c)) => (a, b, c),
            _ => {
                proof { lemma_scan_sections_none_sticks(bytes@, e_shoff, e_shentsize, (i + 1) as nat, limit as nat); }
                return (None, None);
            },
        };
        let str_off = sh_field(bytes, e_shoff, e_shentsize, link, 24, 8);
        let str_size = sh_field(bytes, e_shoff, e_shentsize, link, 32, 8);
        let (str_off, str_size) = match (str_off, str_size) {
            (Some(a), Some(b)) => (a, b),
            _ => {
                proof { lemma_scan_sections_none_sticks(bytes@, e_shoff, e_shentsize, (i + 1) as nat, limit as nat); }
                return (None, None);
            },
        };
        let (str_a, str_b) = match file_range(bytes, str_off, str_size) {
            Ok(p) => p,
            Err(_) => {
                proof { lemma_scan_sections_none_sticks(bytes@, e_shoff, e_shentsize, (i + 1) as nat, limit as nat); }
                return (None, None);
            },
        };
        let bytes_len = bytes.len();
        proof { crate::ram::lemma_usize_fits_u64(bytes_len as nat); }
        let mut strtab: Vec<u8> = Vec::new();
        let mut k: usize = str_a;
        while k < str_b
            invariant str_a <= k <= str_b, str_b <= bytes@.len(), strtab@ == bytes@.subrange(str_a as int, k as int),
            decreases str_b - k,
        {
            strtab.push(bytes[k]);
            k += 1;
            assert(strtab@ =~= bytes@.subrange(str_a as int, k as int));
        }
        let ghost acc0 = (tohost, fromhost);
        let count = sym_size / 24;
        let sym_limit: u64 = if count < 4096 { count } else { 4096 };
        let mut s: u64 = 0;
        while s < sym_limit
            invariant
                s <= sym_limit, sym_limit <= 4096,
                to_name@ == tohost_name(), from_name@ == fromhost_name(),
                (tohost, fromhost) == scan_syms(bytes@, strtab@, sym_off, s as nat, acc0),
            ensures
                (tohost, fromhost) == scan_syms(bytes@, strtab@, sym_off, sym_limit as nat, acc0),
            decreases sym_limit - s,
        {
            let base = match sym_off.checked_add(s * 24) {
                Some(v) => v,
                None => {
                    proof { lemma_scan_syms_tail(bytes@, strtab@, sym_off, s as nat, sym_limit as nat, acc0); }
                    break;
                },
            };
            let bytes_len = bytes.len();
            proof { crate::ram::lemma_usize_fits_u64(bytes_len as nat); }
            let a = match file_range(bytes, base, 24) {
                Ok((a, _)) => a as u64,
                Err(_) => {
                    proof { lemma_scan_syms_tail(bytes@, strtab@, sym_off, s as nat, sym_limit as nat, acc0); }
                    break;
                },
            };
            let name_off = match read_le(bytes, a, 4) {
                Ok(v) => v,
                Err(_) => break,
            };
            let value = match read_le(bytes, a + 8, 8) {
                Ok(v) => v,
                Err(_) => break,
            };
            assert(sym_record(bytes@, sym_off, s as int) == Some((name_off, value)));
            if name_is(strtab.as_slice(), name_off, &to_name) {
                tohost = Some(value);
            } else if name_is(strtab.as_slice(), name_off, &from_name) {
                fromhost = Some(value);
            }
            s += 1;
        }
        i += 1;
    }
    (tohost, fromhost)
}

/// The string at `off` in `strtab` is exactly the NUL-terminated `name`.
pub open spec fn string_at_is(strtab: Seq<u8>, off: u64, name: Seq<u8>) -> bool {
    &&& off + name.len() < strtab.len()
    &&& forall|i: int| 0 <= i < name.len() ==> #[trigger] strtab[off + i] == name[i]
    &&& strtab[off + name.len()] == 0
}

/// Symbol `k` of the table at `sym_off` is readable and named `name` in `strtab`.
pub open spec fn symbol_named(b: Seq<u8>, strtab: Seq<u8>, sym_off: u64, k: int, name: Seq<u8>) -> bool {
    sym_record(b, sym_off, k) matches Some((name_off, _)) && string_at_is(strtab, name_off, name)
}

proof fn lemma_names_is_string_at(strtab: Seq<u8>, off: u64, name: Seq<u8>)
    ensures names(strtab, off, name) == string_at_is(strtab, off, name),
{
    if string_at_is(strtab, off, name) {
        assert forall|i: int| 0 <= i < name.len() implies #[trigger] strtab.subrange(off as int, off + name.len())[i] == name[i] by {
            assert(strtab[off + i] == name[i]);
        }
        assert(strtab.subrange(off as int, off + name.len()) =~= name);
    }
    if names(strtab, off, name) {
        assert forall|i: int| 0 <= i < name.len() implies #[trigger] strtab[off + i] == name[i] by {
            assert(strtab.subrange(off as int, off + name.len())[i] == strtab[off + i]);
        }
    }
}

/// The ASCII spelling of `tohost`: t o h o s t.
pub open spec fn tohost_bytes() -> Seq<u8> { seq![116u8, 111, 104, 111, 115, 116] }

/// The ASCII spelling of `fromhost`: f r o m h o s t.
pub open spec fn fromhost_bytes() -> Seq<u8> { seq![102u8, 114, 111, 109, 104, 111, 115, 116] }

/// The name of the `tohost` symbol when `to`, else of `fromhost`.
pub open spec fn htif_name(to: bool) -> Seq<u8> {
    if to { tohost_bytes() } else { fromhost_bytes() }
}

/// The symbol lookup law: when the first `n` records of a symbol table hold exactly one symbol
/// named `tohost`, the scan finds `tohost` at that symbol's value, and likewise for `fromhost`;
/// what the scan started from does not matter.
pub proof fn lemma_scan_finds_symbol(b: Seq<u8>, strtab: Seq<u8>, sym_off: u64, n: nat, acc: (Option<u64>, Option<u64>), j: int, to: bool)
    requires
        0 <= j < n,
        symbol_named(b, strtab, sym_off, j, htif_name(to)),
        forall|k: int| 0 <= k < n && k != j ==> !#[trigger] symbol_named(b, strtab, sym_off, k, htif_name(to)),
    ensures ({
        let found = scan_syms(b, strtab, sym_off, n, acc);
        let value = sym_record(b, sym_off, j)->Some_0.1;
        if to { found.0 == Some(value) } else { found.1 == Some(value) }
    }),
    decreases n,
{
    let name = htif_name(to);
    assert(tohost_bytes() =~= tohost_name());
    assert(fromhost_bytes() =~= fromhost_name());
    let k = n - 1;
    if k > j {
        lemma_scan_finds_symbol(b, strtab, sym_off, (n - 1) as nat, acc, j, to);
        match sym_record(b, sym_off, k) {
            None => {},
            Some((o, v)) => {
                assert(!symbol_named(b, strtab, sym_off, k, name));
                lemma_names_is_string_at(strtab, o, tohost_name());
                lemma_names_is_string_at(strtab, o, fromhost_name());
            },
        }
    } else {
        let (o, v) = sym_record(b, sym_off, j)->Some_0;
        lemma_names_is_string_at(strtab, o, tohost_name());
        lemma_names_is_string_at(strtab, o, fromhost_name());
        if !to {
            // a `fromhost` string is not `tohost`: they differ in their first byte
            assert(strtab[o + 0] == fromhost_bytes()[0]);
            assert(!string_at_is(strtab, o, tohost_name()));
        }
    }
}

} // verus!
