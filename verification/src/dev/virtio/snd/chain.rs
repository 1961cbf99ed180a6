//! The guest buffers of a sound descriptor chain: device-writable segments split into PCM
//! storage and a trailing status record, and byte offsets resolved to guest addresses.

use vstd::prelude::*;

verus! {

/// One guest-memory buffer of a descriptor chain.
#[derive(Debug, Clone, Copy, PartialEq, Eq)]
pub struct Segment {
    pub addr: u64,
    pub len: u32,
    pub writable: bool,
}

/// Why a descriptor chain cannot be used.
#[derive(Debug, Clone, Copy, PartialEq, Eq)]
pub enum Violation {
    /// A buffer address wraps the 64-bit guest address space.
    BadAddress,
}

/// The number of bytes the segments `s` span.
pub open spec fn seg_total(s: Seq<Segment>) -> nat
    decreases s.len(),
{
    if s.len() == 0 { 0 } else { seg_total(s.drop_last()) + s.last().len as nat }
}

/// The split of the first `k` segments of `segs` when `data_bytes` bytes go to PCM storage:
/// each segment gives its first bytes (up to what storage still needs) to storage and the rest
/// to the status tail, empty pieces are left out, and the storage still needed is carried.
pub open spec fn split_prefix(segs: Seq<Segment>, data_bytes: u64, k: nat) -> Result<(Seq<Segment>, Seq<Segment>, u64), Violation>
    decreases k,
{
    if k == 0 {
        Ok((Seq::empty(), Seq::empty(), data_bytes))
    } else {
        match split_prefix(segs, data_bytes, (k - 1) as nat) {
            Err(e) => Err(e),
            Ok((d, st, rem)) => {
                let seg = segs[k - 1];
                let dl: u32 = if rem < seg.len { rem as u32 } else { seg.len };
                let d2 = if dl != 0 { d.push(Segment { addr: seg.addr, len: dl, writable: true }) } else { d };
                let sl = (seg.len - dl) as u32;
                if sl == 0 {
                    Ok((d2, st, (rem - dl) as u64))
                } else if seg.addr + dl > u64::MAX {
                    Err(Violation::BadAddress)
                } else {
                    Ok((d2, st.push(Segment { addr: (seg.addr + dl) as u64, len: sl, writable: true }), (rem - dl) as u64))
                }
            },
        }
    }
}

/// The split of the writable segments `segs` into PCM storage and a `tail`-byte status record:
/// with fewer than `tail` bytes everything is the status part.
pub open spec fn writable_split(segs: Seq<Segment>, tail: nat) -> Result<(Seq<Segment>, Seq<Segment>), Violation> {
    if seg_total(segs) < tail {
        Ok((Seq::empty(), segs))
    } else {
        match split_prefix(segs, (seg_total(segs) - tail) as u64, segs.len()) {
            Ok((d, st, _)) => Ok((d, st)),
            Err(e) => Err(e),
        }
    }
}

proof fn lemma_seg_total_push(s: Seq<Segment>, x: Segment)
    ensures seg_total(s.push(x)) == seg_total(s) + x.len,
{
    assert(s.push(x).drop_last() =~= s);
}

proof fn lemma_seg_total_take(s: Seq<Segment>, k: int)
    requires 0 <= k < s.len(),
    ensures seg_total(s.take(k + 1)) == seg_total(s.take(k)) + s[k].len,
{
    assert(s.take(k + 1).drop_last() =~= s.take(k));
}

/// The storage part of a prefix split holds as many bytes as storage asked for, up to what the
/// prefix spans, and storage plus status hold exactly the prefix's bytes.
proof fn lemma_split_prefix_totals(segs: Seq<Segment>, data_bytes: u64, k: nat)
    requires k <= segs.len(),
    ensures
        split_prefix(segs, data_bytes, k) matches Ok((d, st, rem)) ==> {
            let p = seg_total(segs.take(k as int));
            &&& seg_total(d) == (if data_bytes <= p { data_bytes as nat } else { p })
            &&& rem == data_bytes - seg_total(d)
            &&& seg_total(d) + seg_total(st) == p
        },
    decreases k,
{
    if k > 0 {
        lemma_split_prefix_totals(segs, data_bytes, (k - 1) as nat);
        lemma_seg_total_take(segs, k - 1);
        if let Ok((d, st, rem)) = split_prefix(segs, data_bytes, (k - 1) as nat) {
            let seg = segs[k - 1];
            let dl: u32 = if rem < seg.len { rem as u32 } else { seg.len };
            let sl = (seg.len - dl) as u32;
            if dl != 0 {
                lemma_seg_total_push(d, Segment { addr: seg.addr, len: dl, writable: true });
            }
            if sl != 0 && seg.addr + dl <= u64::MAX {
                lemma_seg_total_push(st, Segment { addr: (seg.addr + dl) as u64, len: sl, writable: true });
            }
        }
    }
}

/// A successful split covers the writable bytes exactly: when they span at least `tail` bytes,
/// PCM storage gets all but the last `tail` of them and the status part exactly `tail`.
pub proof fn lemma_writable_split_covers(segs: Seq<Segment>, tail: nat)
    requires seg_total(segs) <= u64::MAX,
    ensures
        writable_split(segs, tail) matches Ok((d, st)) ==> seg_total(segs) >= tail ==> {
            &&& seg_total(d) == seg_total(segs) - tail
            &&& seg_total(st) == tail
        },
{
    if seg_total(segs) >= tail {
        lemma_split_prefix_totals(segs, (seg_total(segs) - tail) as u64, segs.len());
        assert(segs.take(segs.len() as int) =~= segs);
    }
}

/// Once a prefix split fails, every longer prefix fails the same way.
proof fn lemma_split_err_sticks(segs: Seq<Segment>, data_bytes: u64, k: nat, n: nat)
    requires k <= n, split_prefix(segs, data_bytes, k) is Err,
    ensures split_prefix(segs, data_bytes, n) == split_prefix(segs, data_bytes, k),
    decreases n - k,
{
    if k < n {
        lemma_split_err_sticks(segs, data_bytes, k, (n - 1) as nat);
    }
}

/// Split the writable segments `writable` into PCM storage and a trailing `tail_bytes`-byte
/// status record ([`writable_split`]); the split is by length, so the status record may share
/// a segment with the storage. `Err` when a status piece's address would wrap.
pub fn split_writable_tail(writable: &[Segment], tail_bytes: usize) -> (r: Result<(Vec<Segment>, Vec<Segment>), Violation>)
    requires seg_total(writable@) <= u64::MAX,
    ensures
        match r {
            Ok((d, st)) => writable_split(writable@, tail_bytes as nat) == Ok::<(Seq<Segment>, Seq<Segment>), Violation>((d@, st@)),
            Err(e) => writable_split(writable@, tail_bytes as nat) == Err::<(Seq<Segment>, Seq<Segment>), Violation>(e),
        },
{
    let mut total: u64 = 0;
    let mut k: usize = 0;
    while k < writable.len()
        invariant
            k <= writable@.len(),
            seg_total(writable@) <= u64::MAX,
            total == seg_total(writable@.take(k as int)),
        decreases writable@.len() - k,
    {
        proof {
            lemma_seg_total_take(writable@, k as int);
            assert(seg_total(writable@.take(k as int + 1)) <= seg_total(writable@)) by {
                lemma_seg_total_prefix_le(writable@, k as int + 1);
            }
        }
        total = total + writable[k].len as u64;
        k += 1;
    }
    assert(writable@.take(writable@.len() as int) =~= writable@);
    if total < tail_bytes as u64 {
        let mut all: Vec<Segment> = Vec::new();
        let mut j: usize = 0;
        while j < writable.len()
            invariant j <= writable@.len(), all@ == writable@.take(j as int),
            decreases writable@.len() - j,
        {
            all.push(writable[j]);
            assert(all@ =~= writable@.take(j as int + 1));
            j += 1;
        }
        assert(all@ =~= writable@);
        return Ok((Vec::new(), all));
    }
    let data_bytes = total - tail_bytes as u64;
    let mut data: Vec<Segment> = Vec::new();
    let mut status: Vec<Segment> = Vec::new();
    let mut remaining_data = data_bytes;
    let mut i: usize = 0;
    while i < writable.len()
        invariant
            i <= writable@.len(),
            seg_total(writable@) >= tail_bytes as nat,
            data_bytes == (seg_total(writable@) - tail_bytes) as u64,
            split_prefix(writable@, data_bytes, i as nat) == Ok::<(Seq<Segment>, Seq<Segment>, u64), Violation>((data@, status@, remaining_data)),
        decreases writable@.len() - i,
    {
        let segment = writable[i];
        let data_len: u32 = if remaining_data < segment.len as u64 { remaining_data as u32 } else { segment.len };
        if data_len != 0 {
            data.push(Segment { addr: segment.addr, len: data_len, writable: true });
        }
        remaining_data = remaining_data - data_len as u64;
        let status_len = segment.len - data_len;
        if status_len != 0 {
            let status_addr = match segment.addr.checked_add(data_len as u64) {
                Some(a) => a,
                None => {
                    proof {
                        assert(split_prefix(writable@, data_bytes, (i + 1) as nat) == Err::<(Seq<Segment>, Seq<Segment>, u64), Violation>(Violation::BadAddress));
                        lemma_split_err_sticks(writable@, data_bytes, (i + 1) as nat, writable@.len());
                    }
                    return Err(Violation::BadAddress);
                },
            };
            status.push(Segment { addr: status_addr, len: status_len, writable: true });
        }
        i += 1;
    }
    Ok((data, status))
}

/// Where byte `offset` of the concatenated segments `segs`, from segment `k` on, lies.
pub open spec fn seg_addr(segs: Seq<Segment>, offset: nat, k: int) -> Result<u64, Violation>
    decreases segs.len() - k,
{
    if k < 0 || k >= segs.len() {
        Err(Violation::BadAddress)
    } else if offset < segs[k].len {
        if segs[k].addr + offset > u64::MAX { Err(Violation::BadAddress) } else { Ok((segs[k].addr + offset) as u64) }
    } else {
        seg_addr(segs, (offset - segs[k].len) as nat, k + 1)
    }
}

/// The guest address of byte `offset` of the concatenated segments; `Err` past their end or
/// when the address would wrap.
pub fn segment_address(segments: &[Segment], offset: usize) -> (r: Result<u64, Violation>)
    ensures r == seg_addr(segments@, offset as nat, 0),
{
    let mut remaining = offset;
    let mut k: usize = 0;
    while k < segments.len()
        invariant
            k <= segments@.len(),
            seg_addr(segments@, offset as nat, 0) == seg_addr(segments@, remaining as nat, k as int),
        decreases segments@.len() - k,
    {
        let len = segments[k].len as usize;
        if remaining < len {
            return match segments[k].addr.checked_add(remaining as u64) {
                Some(a) => Ok(a),
                None => Err(Violation::BadAddress),
            };
        }
        remaining = remaining - len;
        k += 1;
    }
    Err(Violation::BadAddress)
}

proof fn lemma_seg_total_prefix_le(s: Seq<Segment>, k: int)
    requires 0 <= k <= s.len(),
    ensures seg_total(s.take(k)) <= seg_total(s),
    decreases s.len() - k,
{
    if k < s.len() {
        lemma_seg_total_prefix_le(s, k + 1);
        lemma_seg_total_take(s, k);
    } else {
        assert(s.take(k) =~= s);
    }
}

} // verus!
