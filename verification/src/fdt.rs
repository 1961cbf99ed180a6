//! Flattened-device-tree builder: serializes the platform definition into a DTB blob so the
//! kernel discovers memory, CPUs and every device from `a1`.
//!
//! Format (devicetree spec v0.4): header magic `0xd00dfeed`, version 17, every header field,
//! token and cell big-endian; a memory-reservation block of `(addr, size)` u64 pairs ending with
//! `(0, 0)`; a structure block of 4-byte-aligned tokens (BEGIN_NODE 1, END_NODE 2, PROP 3,
//! END 9); and a strings block holding each property name once, referenced by offset.
//! [`build_virt_dtb`] emits the tree for the `virt` platform from the platform constants only.

use vstd::prelude::*;
use vstd::string::StringExecFns;
use vstd::string::StringSliceAdditionalSpecFns;
use vstd::utf8::encode_utf8;
use crate::platform::{Platform, virt, virtio_base_spec};
use crate::text::{digits, push_digits};

verus! {

pub const FDT_BEGIN_NODE: u32 = 1;
pub const FDT_END_NODE: u32 = 2;
pub const FDT_PROP: u32 = 3;
pub const FDT_END: u32 = 9;
/// Header magic.
pub const FDT_MAGIC: u32 = 0xd00d_feed;
/// The version emitted.
pub const FDT_VERSION: u32 = 17;
/// The last version the output is compatible with.
pub const FDT_LAST_COMP_VERSION: u32 = 16;
/// Fixed header size for version 17: ten big-endian u32 fields.
pub const HEADER_LEN: usize = 40;

/// The four big-endian bytes of `v`.
pub open spec fn be32(v: u32) -> Seq<u8> {
    seq![((v >> 24u32) & 0xff) as u8, ((v >> 16u32) & 0xff) as u8, ((v >> 8u32) & 0xff) as u8, (v & 0xff) as u8]
}

/// The eight big-endian bytes of `v`.
pub open spec fn be64(v: u64) -> Seq<u8> {
    be32((v >> 32u64) as u32) + be32((v & 0xffff_ffff) as u32)
}

/// The big-endian u32 at `off`.
pub open spec fn be32_at(s: Seq<u8>, off: int) -> u32 {
    ((s[off] as u32) << 24u32) | ((s[off + 1] as u32) << 16u32) | ((s[off + 2] as u32) << 8u32) | (s[off + 3] as u32)
}

/// Reading back a big-endian encoding gives the value.
pub proof fn lemma_be32_roundtrip(v: u32)
    ensures be32_at(be32(v), 0) == v,
{
    assert((((((v >> 24u32) & 0xff) as u8) as u32) << 24u32) | (((((v >> 16u32) & 0xff) as u8) as u32) << 16u32)
        | (((((v >> 8u32) & 0xff) as u8) as u32) << 8u32) | (((v & 0xff) as u8) as u32) == v) by (bit_vector);
}

/// `n` zero bytes.
pub open spec fn zero_pad(n: nat) -> Seq<u8> {
    Seq::new(n, |i: int| 0u8)
}

/// The zero bytes that pad a block of length `len` to a multiple of 4.
pub open spec fn pad_to4(len: nat) -> Seq<u8> {
    zero_pad(((4 - len % 4) % 4) as nat)
}

/// `s` followed by the zero bytes that pad it to a multiple of 4.
pub open spec fn padded(s: Seq<u8>) -> Seq<u8> {
    s + pad_to4(s.len())
}

/// The UTF-8 bytes of `s` and a terminating NUL.
pub open spec fn strz(s: Seq<char>) -> Seq<u8> {
    encode_utf8(s) + seq![0u8]
}

/// One step of a tree description, as the builder records it.
pub enum FdtItem {
    /// Open a node with this name.
    Begin(Seq<char>),
    /// Close the innermost open node.
    End,
    /// A property with this name and raw value.
    Prop(Seq<char>, Seq<u8>),
}

/// The strings-block offset of `name`: its interned entry, or the current end of the block.
pub open spec fn intern_offset(names: Seq<(Seq<u8>, u32)>, strs: Seq<u8>, name: Seq<u8>) -> u32 {
    match find_interned(names, name, 0) {
        Some(i) => names[i].1,
        None => strs.len() as u32,
    }
}

/// The strings block after interning `name`.
pub open spec fn intern_strings(names: Seq<(Seq<u8>, u32)>, strs: Seq<u8>, name: Seq<u8>) -> Seq<u8> {
    if find_interned(names, name, 0) is Some { strs } else { strs + name + seq![0u8] }
}

/// The interned-name table after interning `name`.
pub open spec fn intern_names(names: Seq<(Seq<u8>, u32)>, strs: Seq<u8>, name: Seq<u8>) -> Seq<(Seq<u8>, u32)> {
    if find_interned(names, name, 0) is Some { names } else { names.push((name, strs.len() as u32)) }
}

/// What a list of items encodes to: the structure block (without the final END token), the
/// strings block, and the table of interned names with their offsets.
pub open spec fn encode_items(items: Seq<FdtItem>) -> (Seq<u8>, Seq<u8>, Seq<(Seq<u8>, u32)>)
    decreases items.len(),
{
    if items.len() == 0 {
        (Seq::empty(), Seq::empty(), Seq::empty())
    } else {
        let prev = encode_items(items.drop_last());
        match items.last() {
            FdtItem::Begin(n) => (padded(prev.0 + be32(FDT_BEGIN_NODE) + encode_utf8(n) + seq![0u8]), prev.1, prev.2),
            FdtItem::End => (prev.0 + be32(FDT_END_NODE), prev.1, prev.2),
            FdtItem::Prop(n, v) => {
                let b = encode_utf8(n);
                (
                    padded(prev.0 + be32(FDT_PROP) + be32(v.len() as u32) + be32(intern_offset(prev.2, prev.1, b)) + v),
                    intern_strings(prev.2, prev.1, b),
                    intern_names(prev.2, prev.1, b),
                )
            },
        }
    }
}

/// How many nodes are open after `items`.
pub open spec fn open_depth(items: Seq<FdtItem>) -> int
    decreases items.len(),
{
    if items.len() == 0 {
        0
    } else {
        open_depth(items.drop_last()) + match items.last() {
            FdtItem::Begin(_) => 1int,
            FdtItem::End => -1int,
            FdtItem::Prop(_, _) => 0int,
        }
    }
}

/// The memory-reservation entries, each address then size, big-endian.
pub open spec fn rsv_bytes(rsv: Seq<(u64, u64)>) -> Seq<u8>
    decreases rsv.len(),
{
    if rsv.len() == 0 { Seq::empty() } else { rsv_bytes(rsv.drop_last()) + be64(rsv.last().0) + be64(rsv.last().1) }
}

/// The ten header fields (lengths truncated to 32 bits, as the format stores them).
pub open spec fn header_fields(st_len: int, strs_len: int, rsv_len: int) -> Seq<u32> {
    let off_struct = HEADER_LEN + (rsv_len + 1) * 16;
    let off_strings = off_struct + st_len;
    let total = off_strings + strs_len;
    seq![
        FDT_MAGIC, total as u32, off_struct as u32, off_strings as u32, HEADER_LEN as u32,
        FDT_VERSION, FDT_LAST_COMP_VERSION, virt::BOOT_HART as u32, strs_len as u32, st_len as u32,
    ]
}

/// The header: its fields, big-endian.
pub open spec fn fdt_header(st_len: int, strs_len: int, rsv_len: int) -> Seq<u8> {
    cells_bytes(header_fields(st_len, strs_len, rsv_len))
}

/// A whole blob: header, reservations with their `(0, 0)` terminator, structure, strings.
pub open spec fn fdt_blob(st: Seq<u8>, strs: Seq<u8>, rsv: Seq<(u64, u64)>) -> Seq<u8> {
    fdt_header(st.len() as int, strs.len() as int, rsv.len() as int) + rsv_bytes(rsv) + be64(0) + be64(0) + st + strs
}

/// The blob a finished builder with `items` produces.
pub open spec fn fdt_image(items: Seq<FdtItem>, rsv: Seq<(u64, u64)>) -> Seq<u8> {
    fdt_blob(encode_items(items).0 + be32(FDT_END), encode_items(items).1, rsv)
}

/// Incremental DTB writer: `begin_node` / `prop_*` / `end_node`, then [`FdtBuilder::finish`].
/// Its model is the list of items written so far.
pub struct FdtBuilder {
    structure: Vec<u8>,
    strings: Vec<u8>,
    interned: Vec<(Vec<u8>, u32)>,
    depth: u32,
    items: Ghost<Seq<FdtItem>>,
}

/// The index of the first interned name equal to `name`, searching from `i`.
pub open spec fn find_interned(names: Seq<(Seq<u8>, u32)>, name: Seq<u8>, i: int) -> Option<int>
    decreases names.len() - i,
{
    if i < 0 || i >= names.len() {
        None
    } else if names[i].0 == name {
        Some(i)
    } else {
        find_interned(names, name, i + 1)
    }
}

fn extend(out: &mut Vec<u8>, src: &[u8])
    ensures final(out)@ == old(out)@ + src@,
{
    let mut k: usize = 0;
    while k < src.len()
        invariant k <= src@.len(), out@ == old(out)@ + src@.subrange(0, k as int),
        decreases src.len() - k,
    {
        out.push(src[k]);
        k += 1;
        assert(out@ =~= old(out)@ + src@.subrange(0, k as int));
    }
    assert(src@.subrange(0, src@.len() as int) =~= src@);
}

fn push_be32(out: &mut Vec<u8>, v: u32)
    ensures final(out)@ == old(out)@ + be32(v),
{
    out.push(((v >> 24u32) & 0xff) as u8);
    out.push(((v >> 16u32) & 0xff) as u8);
    out.push(((v >> 8u32) & 0xff) as u8);
    out.push((v & 0xff) as u8);
    assert(out@ =~= old(out)@ + be32(v));
}

fn push_be64(out: &mut Vec<u8>, v: u64)
    ensures final(out)@ == old(out)@ + be64(v),
{
    push_be32(out, (v >> 32u64) as u32);
    push_be32(out, (v & 0xffff_ffff) as u32);
    assert(out@ =~= old(out)@ + be64(v));
}

fn same_bytes(a: &[u8], b: &[u8]) -> (r: bool)
    ensures r == (a@ == b@),
{
    if a.len() != b.len() {
        return false;
    }
    let mut k: usize = 0;
    while k < a.len()
        invariant k <= a@.len(), a@.len() == b@.len(), forall|j: int| 0 <= j < k ==> a@[j] == b@[j],
        decreases a.len() - k,
    {
        if a[k] != b[k] {
            return false;
        }
        k += 1;
    }
    assert(a@ =~= b@);
    true
}

impl FdtBuilder {
    pub closed spec fn spec_structure(&self) -> Seq<u8> { self.structure@ }
    pub closed spec fn spec_strings(&self) -> Seq<u8> { self.strings@ }
    pub closed spec fn spec_depth(&self) -> u32 { self.depth }
    pub closed spec fn spec_interned(&self) -> Seq<(Seq<u8>, u32)> {
        self.interned@.map_values(|p: (Vec<u8>, u32)| (p.0@, p.1))
    }
    /// The items written so far.
    pub closed spec fn items(&self) -> Seq<FdtItem> { self.items@ }

    /// The buffers hold exactly the encoding of the items, and the depth counts open nodes.
    #[verifier::opaque]
    pub closed spec fn wf(&self) -> bool {
        &&& self.structure@ == encode_items(self.items@).0
        &&& self.strings@ == encode_items(self.items@).1
        &&& self.spec_interned() == encode_items(self.items@).2
        &&& self.depth as int == open_depth(self.items@)
    }

    /// An empty builder.
    pub fn new() -> (r: Self)
        ensures r.wf(), r.items() == Seq::<FdtItem>::empty(), r.spec_depth() == 0,
    {
        proof { reveal(FdtBuilder::wf); }
        let r = FdtBuilder {
            structure: Vec::new(),
            strings: Vec::new(),
            interned: Vec::new(),
            depth: 0,
            items: Ghost(Seq::empty()),
        };
        assert(r.spec_interned() =~= Seq::<(Seq<u8>, u32)>::empty());
        r
    }

    fn pad4(&mut self)
        ensures
            final(self).structure@ == padded(old(self).structure@),
            final(self).strings@ == old(self).strings@,
            final(self).interned@ == old(self).interned@,
            final(self).depth == old(self).depth,
            final(self).items@ == old(self).items@,
    {
        let ghost s0 = self.structure@;
        let pad = (4 - self.structure.len() % 4) % 4;
        let mut k: usize = 0;
        while k < pad
            invariant
                k <= pad, pad == (4 - s0.len() % 4) % 4,
                self.structure@ == s0 + zero_pad(k as nat),
                self.strings@ == old(self).strings@, self.interned@ == old(self).interned@,
                self.depth == old(self).depth, self.items@ == old(self).items@,
            decreases pad - k,
        {
            self.structure.push(0);
            k += 1;
            assert(self.structure@ =~= s0 + zero_pad(k as nat));
        }
    }

    /// Offset of `name` in the strings block, interning it on first use.
    fn string_offset(&mut self, name: &str) -> (r: u32)
        ensures
            r == intern_offset(old(self).spec_interned(), old(self).strings@, name.spec_bytes()),
            final(self).strings@ == intern_strings(old(self).spec_interned(), old(self).strings@, name.spec_bytes()),
            final(self).spec_interned() == intern_names(old(self).spec_interned(), old(self).strings@, name.spec_bytes()),
            final(self).structure@ == old(self).structure@,
            final(self).depth == old(self).depth,
            final(self).items@ == old(self).items@,
    {
        let bytes = name.as_bytes();
        let n = self.interned.len();
        let mut k: usize = 0;
        while k < n
            invariant
                k <= n, n == self.interned@.len(), bytes@ == name.spec_bytes(),
                find_interned(self.spec_interned(), bytes@, 0) == find_interned(self.spec_interned(), bytes@, k as int),
            decreases n - k,
        {
            assert(self.spec_interned()[k as int] == (self.interned@[k as int].0@, self.interned@[k as int].1));
            if same_bytes(self.interned[k].0.as_slice(), bytes) {
                return self.interned[k].1;
            }
            k += 1;
        }
        let off = #[verifier::truncate] (self.strings.len() as u32);
        extend(&mut self.strings, bytes);
        self.strings.push(0);
        let mut copy: Vec<u8> = Vec::new();
        extend(&mut copy, bytes);
        let ghost before = self.spec_interned();
        self.interned.push((copy, off));
        assert(self.strings@ =~= old(self).strings@ + name.spec_bytes() + seq![0u8]);
        assert(self.spec_interned() =~= before.push((name.spec_bytes(), off)));
        off
    }

    /// Open a node named `name` (the root's name is empty).
    pub fn begin_node(&mut self, name: &str)
        requires old(self).wf(), old(self).spec_depth() < u32::MAX,
        ensures
            final(self).wf(),
            final(self).items() == old(self).items().push(FdtItem::Begin(name@)),
            final(self).spec_depth() == old(self).spec_depth() + 1,
    {
        proof { reveal(FdtBuilder::wf); }
        let ghost items = self.items@.push(FdtItem::Begin(name@));
        push_be32(&mut self.structure, FDT_BEGIN_NODE);
        extend(&mut self.structure, name.as_bytes());
        self.structure.push(0);
        assert(self.structure@ =~= old(self).structure@ + be32(FDT_BEGIN_NODE) + encode_utf8(name@) + seq![0u8]);
        self.pad4();
        self.depth = self.depth + 1;
        self.items = Ghost(items);
        assert(items.drop_last() =~= old(self).items@);
    }

    /// Close the innermost open node.
    pub fn end_node(&mut self)
        requires old(self).wf(), old(self).spec_depth() > 0,
        ensures
            final(self).wf(),
            final(self).items() == old(self).items().push(FdtItem::End),
            final(self).spec_depth() == old(self).spec_depth() - 1,
    {
        proof { reveal(FdtBuilder::wf); }
        let ghost items = self.items@.push(FdtItem::End);
        push_be32(&mut self.structure, FDT_END_NODE);
        self.depth = self.depth - 1;
        self.items = Ghost(items);
        assert(items.drop_last() =~= old(self).items@);
    }

    /// A raw property: length, name offset and value, padded to 4 bytes.
    pub fn prop(&mut self, name: &str, value: &[u8])
        requires old(self).wf(),
        ensures
            final(self).wf(),
            final(self).items() == old(self).items().push(FdtItem::Prop(name@, value@)),
            final(self).spec_depth() == old(self).spec_depth(),
    {
        proof { reveal(FdtBuilder::wf); }
        let ghost items = self.items@.push(FdtItem::Prop(name@, value@));
        let nameoff = self.string_offset(name);
        push_be32(&mut self.structure, FDT_PROP);
        push_be32(&mut self.structure, #[verifier::truncate] (value.len() as u32));
        push_be32(&mut self.structure, nameoff);
        extend(&mut self.structure, value);
        self.pad4();
        self.items = Ghost(items);
        assert(items.drop_last() =~= old(self).items@);
    }

    /// An empty (presence-only) property.
    pub fn prop_empty(&mut self, name: &str)
        requires old(self).wf(),
        ensures
            final(self).wf(),
            final(self).items() == old(self).items().push(FdtItem::Prop(name@, Seq::empty())),
            final(self).spec_depth() == old(self).spec_depth(),
    {
        let empty: [u8; 0] = [];
        assert(empty@ =~= Seq::<u8>::empty());
        self.prop(name, &empty);
    }

    /// One big-endian cell.
    pub fn prop_u32(&mut self, name: &str, v: u32)
        requires old(self).wf(),
        ensures
            final(self).wf(),
            final(self).items() == old(self).items().push(FdtItem::Prop(name@, be32(v))),
            final(self).spec_depth() == old(self).spec_depth(),
    {
        let mut b: Vec<u8> = Vec::new();
        push_be32(&mut b, v);
        assert(b@ =~= be32(v));
        self.prop(name, b.as_slice());
    }

    /// One big-endian u64 (two cells).
    pub fn prop_u64(&mut self, name: &str, v: u64)
        requires old(self).wf(),
        ensures
            final(self).wf(),
            final(self).items() == old(self).items().push(FdtItem::Prop(name@, be64(v))),
            final(self).spec_depth() == old(self).spec_depth(),
    {
        let mut b: Vec<u8> = Vec::new();
        push_be64(&mut b, v);
        assert(b@ =~= be64(v));
        self.prop(name, b.as_slice());
    }
}

/// The big-endian encoding of a cell list.
pub open spec fn cells_bytes(cells: Seq<u32>) -> Seq<u8>
    decreases cells.len(),
{
    if cells.len() == 0 { Seq::empty() } else { cells_bytes(cells.drop_last()) + be32(cells.last()) }
}

/// The encoding of a string list, each entry NUL-terminated.
pub open spec fn str_list_bytes(list: Seq<Seq<char>>) -> Seq<u8>
    decreases list.len(),
{
    if list.len() == 0 { Seq::empty() } else { str_list_bytes(list.drop_last()) + strz(list.last()) }
}

impl FdtBuilder {
    /// A list of big-endian cells.
    pub fn prop_cells(&mut self, name: &str, cells: &[u32])
        requires old(self).wf(),
        ensures
            final(self).wf(),
            final(self).items() == old(self).items().push(FdtItem::Prop(name@, cells_bytes(cells@))),
            final(self).spec_depth() == old(self).spec_depth(),
    {
        let mut bytes: Vec<u8> = Vec::new();
        let mut k: usize = 0;
        while k < cells.len()
            invariant k <= cells@.len(), bytes@ == cells_bytes(cells@.subrange(0, k as int)),
            decreases cells.len() - k,
        {
            push_be32(&mut bytes, cells[k]);
            assert(cells@.subrange(0, k + 1).drop_last() =~= cells@.subrange(0, k as int));
            k += 1;
        }
        assert(cells@.subrange(0, cells@.len() as int) =~= cells@);
        self.prop(name, bytes.as_slice());
    }

    /// A NUL-terminated string property.
    pub fn prop_str(&mut self, name: &str, s: &str)
        requires old(self).wf(),
        ensures
            final(self).wf(),
            final(self).items() == old(self).items().push(FdtItem::Prop(name@, strz(s@))),
            final(self).spec_depth() == old(self).spec_depth(),
    {
        let mut bytes: Vec<u8> = Vec::new();
        extend(&mut bytes, s.as_bytes());
        bytes.push(0);
        assert(bytes@ =~= strz(s@));
        self.prop(name, bytes.as_slice());
    }

    /// A string-list property, each entry NUL-terminated.
    pub fn prop_str_list(&mut self, name: &str, list: &[&str])
        requires old(self).wf(),
        ensures
            final(self).wf(),
            final(self).items() == old(self).items().push(
                FdtItem::Prop(name@, str_list_bytes(list@.map_values(|x: &str| x@))),
            ),
            final(self).spec_depth() == old(self).spec_depth(),
    {
        let ghost names = list@.map_values(|x: &str| x@);
        let mut bytes: Vec<u8> = Vec::new();
        let mut k: usize = 0;
        while k < list.len()
            invariant
                k <= list@.len(), names == list@.map_values(|x: &str| x@),
                bytes@ == str_list_bytes(names.subrange(0, k as int)),
            decreases list.len() - k,
        {
            extend(&mut bytes, list[k].as_bytes());
            bytes.push(0);
            assert(names.subrange(0, k + 1).drop_last() =~= names.subrange(0, k as int));
            k += 1;
        }
        assert(names.subrange(0, names.len() as int) =~= names);
        self.prop(name, bytes.as_slice());
    }

    /// Serialize: header, memory-reservation block, structure, strings. `reservations` are
    /// `(address, size)` pairs; the terminating `(0, 0)` entry is appended here.
    pub fn finish(self, reservations: &[(u64, u64)]) -> (r: Vec<u8>)
        requires self.wf(), self.spec_depth() == 0,
        ensures r@ == fdt_image(self.items(), reservations@),
    {
        proof { reveal(FdtBuilder::wf); }
        let ghost items = self.items@;
        let FdtBuilder { structure, strings, interned: _, depth: _, items: _ } = self;
        let mut st = structure;
        push_be32(&mut st, FDT_END);
        let n = reservations.len();
        let off_struct: u128 = 40 + ((n as u128) + 1) * 16;
        let off_strings: u128 = off_struct + st.len() as u128;
        let total: u128 = off_strings + strings.len() as u128;
        let mut out: Vec<u8> = Vec::new();
        let mut fields: Vec<u32> = Vec::new();
        fields.push(FDT_MAGIC);
        fields.push(#[verifier::truncate] (total as u32));
        fields.push(#[verifier::truncate] (off_struct as u32));
        fields.push(#[verifier::truncate] (off_strings as u32));
        fields.push(40);
        fields.push(FDT_VERSION);
        fields.push(FDT_LAST_COMP_VERSION);
        fields.push(#[verifier::truncate] (virt::BOOT_HART as u32));
        fields.push(#[verifier::truncate] (strings.len() as u32));
        fields.push(#[verifier::truncate] (st.len() as u32));
        assert(fields@ =~= header_fields(st@.len() as int, strings@.len() as int, n as int));
        let mut j: usize = 0;
        while j < fields.len()
            invariant j <= fields@.len(), out@ == cells_bytes(fields@.subrange(0, j as int)),
            decreases fields.len() - j,
        {
            push_be32(&mut out, fields[j]);
            assert(fields@.subrange(0, j + 1).drop_last() =~= fields@.subrange(0, j as int));
            j += 1;
        }
        assert(fields@.subrange(0, fields@.len() as int) =~= fields@);
        let ghost header = out@;
        assert(header =~= fdt_header(st@.len() as int, strings@.len() as int, n as int));
        let mut k: usize = 0;
        while k < n
            invariant
                k <= n, n == reservations@.len(),
                out@ == header + rsv_bytes(reservations@.subrange(0, k as int)),
            decreases n - k,
        {
            let (addr, size) = reservations[k];
            push_be64(&mut out, addr);
            push_be64(&mut out, size);
            assert(reservations@.subrange(0, k + 1).drop_last() =~= reservations@.subrange(0, k as int));
            k += 1;
        }
        assert(reservations@.subrange(0, n as int) =~= reservations@);
        push_be64(&mut out, 0);
        push_be64(&mut out, 0);
        extend(&mut out, st.as_slice());
        extend(&mut out, strings.as_slice());
        out
    }
}

impl Default for FdtBuilder {
    fn default() -> (r: Self)
        ensures r.wf(), r.items() == Seq::<FdtItem>::empty(), r.spec_depth() == 0,
    {
        Self::new()
    }
}

/// A big-endian field read back from its four bytes.
proof fn lemma_be32_at_field(s: Seq<u8>, off: int, v: u32)
    requires 0 <= off, off + 4 <= s.len(), s.subrange(off, off + 4) == be32(v),
    ensures be32_at(s, off) == v,
{
    let b = be32(v);
    assert(s[off] == b[0] && s[off + 1] == b[1] && s[off + 2] == b[2] && s[off + 3] == b[3]) by {
        assert(s.subrange(off, off + 4)[0] == s[off]);
        assert(s.subrange(off, off + 4)[1] == s[off + 1]);
        assert(s.subrange(off, off + 4)[2] == s[off + 2]);
        assert(s.subrange(off, off + 4)[3] == s[off + 3]);
    }
    lemma_be32_roundtrip(v);
}

/// The header of every blob that fits the format's 32-bit sizes is valid: magic, `totalsize`
/// equal to the blob's length, version 17 (compatible back to 16), boot CPU 0, the reservation
/// block at offset 40 ending in a `(0, 0)` entry, and the structure and strings blocks where
/// their offsets say.
pub proof fn lemma_blob_header(st: Seq<u8>, strs: Seq<u8>, rsv: Seq<(u64, u64)>)
    requires fdt_blob(st, strs, rsv).len() <= u32::MAX,
    ensures ({
        let blob = fdt_blob(st, strs, rsv);
        let off_struct = HEADER_LEN + (rsv.len() + 1) * 16;
        &&& blob.len() == off_struct + st.len() + strs.len()
        &&& be32_at(blob, 0) == FDT_MAGIC
        &&& be32_at(blob, 4) == blob.len()
        &&& be32_at(blob, 8) == off_struct
        &&& be32_at(blob, 12) == off_struct + st.len()
        &&& be32_at(blob, 16) == HEADER_LEN
        &&& be32_at(blob, 20) == FDT_VERSION
        &&& be32_at(blob, 24) == FDT_LAST_COMP_VERSION
        &&& be32_at(blob, 28) == virt::BOOT_HART
        &&& be32_at(blob, 32) == strs.len()
        &&& be32_at(blob, 36) == st.len()
        &&& blob.subrange(off_struct - 16, off_struct as int) == zero_pad(16)
        &&& blob.subrange(off_struct as int, off_struct + st.len()) == st
        &&& blob.subrange(off_struct + st.len(), blob.len() as int) == strs
    }),
{
    let blob = fdt_blob(st, strs, rsv);
    let n = rsv.len() as int;
    let off_struct = HEADER_LEN + (n + 1) * 16;
    let fields = header_fields(st.len() as int, strs.len() as int, n);
    let h = fdt_header(st.len() as int, strs.len() as int, n);
    lemma_cells_bytes_len(fields);
    lemma_rsv_bytes_len(rsv);
    assert(blob.len() == off_struct + st.len() + strs.len());
    assert forall|i: int| 0 <= i < 10 implies be32_at(blob, 4 * i) == fields[i] by {
        lemma_cells_bytes_at(fields, i);
        assert(blob.subrange(4 * i, 4 * i + 4) =~= h.subrange(4 * i, 4 * i + 4));
        lemma_be32_at_field(blob, 4 * i, fields[i]);
    }
    assert(be32_at(blob, 0) == fields[0]);
    assert(be32_at(blob, 4) == fields[1]);
    assert(be32_at(blob, 8) == fields[2]);
    assert(be32_at(blob, 12) == fields[3]);
    assert(be32_at(blob, 16) == fields[4]);
    assert(be32_at(blob, 20) == fields[5]);
    assert(be32_at(blob, 24) == fields[6]);
    assert(be32_at(blob, 28) == fields[7]);
    assert(be32_at(blob, 32) == fields[8]);
    assert(be32_at(blob, 36) == fields[9]);
    assert(((0u32 >> 24u32) & 0xff) == 0 && ((0u32 >> 16u32) & 0xff) == 0 && ((0u32 >> 8u32) & 0xff) == 0
        && (0u32 & 0xff) == 0 && (0u64 >> 32u64) == 0 && (0u64 & 0xffff_ffff) == 0) by (bit_vector);
    assert(be64(0) =~= zero_pad(8));
    assert(blob.subrange(off_struct - 16, off_struct as int) =~= zero_pad(16));
    assert(blob.subrange(off_struct as int, off_struct + st.len()) =~= st);
    assert(blob.subrange(off_struct + st.len(), blob.len() as int) =~= strs);
}

proof fn lemma_rsv_bytes_len(rsv: Seq<(u64, u64)>)
    ensures rsv_bytes(rsv).len() == 16 * rsv.len(),
    decreases rsv.len(),
{
    if rsv.len() > 0 {
        lemma_rsv_bytes_len(rsv.drop_last());
    }
}

proof fn lemma_cells_bytes_len(cells: Seq<u32>)
    ensures cells_bytes(cells).len() == 4 * cells.len(),
    decreases cells.len(),
{
    if cells.len() > 0 {
        lemma_cells_bytes_len(cells.drop_last());
    }
}

/// The bytes of cell `i` sit at offset `4 * i` of the encoding.
proof fn lemma_cells_bytes_at(cells: Seq<u32>, i: int)
    requires 0 <= i < cells.len(),
    ensures
        cells_bytes(cells).len() == 4 * cells.len(),
        cells_bytes(cells).subrange(4 * i, 4 * i + 4) == be32(cells[i]),
    decreases cells.len(),
{
    let prev = cells.drop_last();
    lemma_cells_bytes_len(cells);
    lemma_cells_bytes_len(prev);
    if i < prev.len() {
        lemma_cells_bytes_at(prev, i);
        assert(cells_bytes(cells).subrange(4 * i, 4 * i + 4) =~= cells_bytes(prev).subrange(4 * i, 4 * i + 4));
    } else {
        assert(cells_bytes(cells).subrange(4 * i, 4 * i + 4) =~= be32(cells[i]));
    }
}

// Phandles of the interrupt parents and the syscon test device.
const PHANDLE_CPU_INTC: u32 = 1;
const PHANDLE_PLIC: u32 = 2;
const PHANDLE_TEST: u32 = 3;

// RISC-V local interrupt numbers used in `interrupts-extended`: M-soft, M-timer, S-ext, M-ext.
const IRQ_M_SOFT: u32 = 3;
const IRQ_M_TIMER: u32 = 7;
const IRQ_S_EXT: u32 = 9;
const IRQ_M_EXT: u32 = 11;

/// Optional initrd placement advertised via `/chosen`.
#[derive(Debug, Clone, Copy)]
pub struct Initrd {
    pub start: u64,
    /// One past the last byte (`linux,initrd-end` convention).
    pub end: u64,
}

/// A two-cell address followed by a two-cell size.
pub open spec fn reg2_cells(base: u64, len: u64) -> Seq<u32> {
    seq![(base >> 32u64) as u32, base as u32, (len >> 32u64) as u32, len as u32]
}

/// The name of a node at `addr`: `prefix` and the address in lowercase hex.
pub open spec fn unit_name(prefix: Seq<char>, addr: u64) -> Seq<char> {
    prefix + digits(addr as nat, 16)
}

#[verifier::opaque]
pub closed spec fn root_head_items() -> Seq<FdtItem> {
    seq![
        FdtItem::Begin(""@),
        FdtItem::Prop("#address-cells"@, be32(2)),
        FdtItem::Prop("#size-cells"@, be32(2)),
        FdtItem::Prop("compatible"@, strz("riscv-virtio"@)),
        FdtItem::Prop("model"@, strz("riscv-virtio,qemu"@)),
    ]
}

#[verifier::opaque]
pub closed spec fn syscon_items(name: Seq<char>, compat: Seq<char>, value: u32) -> Seq<FdtItem> {
    seq![
        FdtItem::Begin(name),
        FdtItem::Prop("compatible"@, strz(compat)),
        FdtItem::Prop("regmap"@, be32(PHANDLE_TEST)),
        FdtItem::Prop("offset"@, be32(0)),
        FdtItem::Prop("value"@, be32(value)),
        FdtItem::End,
    ]
}

closed spec fn initrd_items(initrd: Option<Initrd>) -> Seq<FdtItem> {
    match initrd {
        Some(rd) => seq![
            FdtItem::Prop("linux,initrd-start"@, be64(rd.start)),
            FdtItem::Prop("linux,initrd-end"@, be64(rd.end)),
        ],
        None => Seq::empty(),
    }
}

#[verifier::opaque]
pub closed spec fn chosen_items(bootargs: Seq<char>, initrd: Option<Initrd>) -> Seq<FdtItem> {
    seq![
        FdtItem::Begin("chosen"@),
        FdtItem::Prop("bootargs"@, strz(bootargs)),
        FdtItem::Prop("stdout-path"@, strz(unit_name("/soc/serial@"@, virt::UART0_BASE))),
    ] + initrd_items(initrd) + seq![FdtItem::End]
}

#[verifier::opaque]
pub closed spec fn memory_items(dram_size: u64) -> Seq<FdtItem> {
    seq![
        FdtItem::Begin(unit_name("memory@"@, virt::DRAM_BASE)),
        FdtItem::Prop("device_type"@, strz("memory"@)),
        FdtItem::Prop("reg"@, cells_bytes(reg2_cells(virt::DRAM_BASE, dram_size))),
        FdtItem::End,
    ]
}

#[verifier::opaque]
pub closed spec fn cpus_items() -> Seq<FdtItem> {
    seq![
        FdtItem::Begin("cpus"@),
        FdtItem::Prop("#address-cells"@, be32(1)),
        FdtItem::Prop("#size-cells"@, be32(0)),
        FdtItem::Prop("timebase-frequency"@, be32(virt::TIMEBASE_FREQ_HZ)),
        FdtItem::Begin("cpu@0"@),
        FdtItem::Prop("device_type"@, strz("cpu"@)),
        FdtItem::Prop("reg"@, be32(virt::BOOT_HART as u32)),
        FdtItem::Prop("status"@, strz("okay"@)),
        FdtItem::Prop("compatible"@, strz("riscv"@)),
        FdtItem::Prop("riscv,isa"@, strz("rv64imafdc"@)),
        FdtItem::Prop("mmu-type"@, strz("riscv,sv57"@)),
        FdtItem::Begin("interrupt-controller"@),
        FdtItem::Prop("#interrupt-cells"@, be32(1)),
        FdtItem::Prop("interrupt-controller"@, Seq::empty()),
        FdtItem::Prop("compatible"@, strz("riscv,cpu-intc"@)),
        FdtItem::Prop("phandle"@, be32(PHANDLE_CPU_INTC)),
        FdtItem::End,
        FdtItem::End,
        FdtItem::End,
    ]
}

#[verifier::opaque]
pub closed spec fn soc_head_items() -> Seq<FdtItem> {
    seq![
        FdtItem::Begin("soc"@),
        FdtItem::Prop("#address-cells"@, be32(2)),
        FdtItem::Prop("#size-cells"@, be32(2)),
        FdtItem::Prop("compatible"@, strz("simple-bus"@)),
        FdtItem::Prop("ranges"@, Seq::empty()),
    ]
}

#[verifier::opaque]
pub closed spec fn test_items() -> Seq<FdtItem> {
    seq![
        FdtItem::Begin(unit_name("test@"@, virt::TEST_BASE)),
        FdtItem::Prop("compatible"@, str_list_bytes(seq!["sifive,test1"@, "sifive,test0"@, "syscon"@])),
        FdtItem::Prop("reg"@, cells_bytes(reg2_cells(virt::TEST_BASE, virt::TEST_LEN))),
        FdtItem::Prop("phandle"@, be32(PHANDLE_TEST)),
        FdtItem::End,
    ]
}

#[verifier::opaque]
pub closed spec fn rtc_items() -> Seq<FdtItem> {
    seq![
        FdtItem::Begin(unit_name("rtc@"@, virt::RTC_BASE)),
        FdtItem::Prop("compatible"@, strz("google,goldfish-rtc"@)),
        FdtItem::Prop("reg"@, cells_bytes(reg2_cells(virt::RTC_BASE, virt::RTC_LEN))),
        FdtItem::Prop("interrupts"@, cells_bytes(seq![virt::RTC_IRQ])),
        FdtItem::Prop("interrupt-parent"@, be32(PHANDLE_PLIC)),
        FdtItem::End,
    ]
}

#[verifier::opaque]
pub closed spec fn clint_items() -> Seq<FdtItem> {
    seq![
        FdtItem::Begin(unit_name("clint@"@, virt::CLINT_BASE)),
        FdtItem::Prop("compatible"@, str_list_bytes(seq!["sifive,clint0"@, "riscv,clint0"@])),
        FdtItem::Prop("reg"@, cells_bytes(reg2_cells(virt::CLINT_BASE, virt::CLINT_LEN))),
        FdtItem::Prop("interrupts-extended"@, cells_bytes(seq![PHANDLE_CPU_INTC, IRQ_M_SOFT, PHANDLE_CPU_INTC, IRQ_M_TIMER])),
        FdtItem::End,
    ]
}

#[verifier::opaque]
pub closed spec fn plic_items() -> Seq<FdtItem> {
    seq![
        FdtItem::Begin(unit_name("plic@"@, virt::PLIC_BASE)),
        FdtItem::Prop("compatible"@, str_list_bytes(seq!["sifive,plic-1.0.0"@, "riscv,plic0"@])),
        FdtItem::Prop("reg"@, cells_bytes(reg2_cells(virt::PLIC_BASE, virt::PLIC_LEN))),
        FdtItem::Prop("#interrupt-cells"@, be32(1)),
        FdtItem::Prop("#address-cells"@, be32(0)),
        FdtItem::Prop("interrupt-controller"@, Seq::empty()),
        FdtItem::Prop("riscv,ndev"@, be32(virt::PLIC_NDEV)),
        FdtItem::Prop("interrupts-extended"@, cells_bytes(seq![PHANDLE_CPU_INTC, IRQ_M_EXT, PHANDLE_CPU_INTC, IRQ_S_EXT])),
        FdtItem::Prop("phandle"@, be32(PHANDLE_PLIC)),
        FdtItem::End,
    ]
}

#[verifier::opaque]
pub closed spec fn serial_items() -> Seq<FdtItem> {
    seq![
        FdtItem::Begin(unit_name("serial@"@, virt::UART0_BASE)),
        FdtItem::Prop("compatible"@, strz("ns16550a"@)),
        FdtItem::Prop("reg"@, cells_bytes(reg2_cells(virt::UART0_BASE, virt::UART0_LEN))),
        FdtItem::Prop("clock-frequency"@, be32(virt::UART_CLOCK_HZ)),
        FdtItem::Prop("interrupts"@, cells_bytes(seq![virt::UART0_IRQ])),
        FdtItem::Prop("interrupt-parent"@, be32(PHANDLE_PLIC)),
        FdtItem::End,
    ]
}

#[verifier::opaque]
closed spec fn virtio_slot_items(i: u64) -> Seq<FdtItem> {
    let base = virtio_base_spec(i) as u64;
    seq![
        FdtItem::Begin(unit_name("virtio_mmio@"@, base)),
        FdtItem::Prop("compatible"@, strz("virtio,mmio"@)),
        FdtItem::Prop("reg"@, cells_bytes(reg2_cells(base, virt::VIRTIO_LEN))),
        FdtItem::Prop("interrupts"@, cells_bytes(seq![(virt::VIRTIO_IRQ_BASE + i) as u32])),
        FdtItem::Prop("interrupt-parent"@, be32(PHANDLE_PLIC)),
        FdtItem::End,
    ]
}

/// The nodes of the first `n` virtio-mmio slots.
pub closed spec fn virtio_items(n: nat) -> Seq<FdtItem>
    decreases n,
{
    if n == 0 { Seq::empty() } else { virtio_items((n - 1) as nat) + virtio_slot_items((n - 1) as u64) }
}

/// The tree of the `virt` platform with `dram_size` bytes of DRAM: the root with poweroff and
/// reboot, `/chosen`, memory, one hart with its interrupt controller, and under `/soc` the test
/// device, rtc, CLINT, PLIC, UART and the virtio-mmio slots.
pub open spec fn virt_items(dram_size: u64, bootargs: Seq<char>, initrd: Option<Initrd>) -> Seq<FdtItem> {
    root_head_items()
        + syscon_items("poweroff"@, "syscon-poweroff"@, 0x5555)
        + syscon_items("reboot"@, "syscon-reboot"@, 0x7777)
        + chosen_items(bootargs, initrd)
        + memory_items(dram_size)
        + cpus_items()
        + soc_head_items()
        + test_items()
        + rtc_items()
        + clint_items()
        + plic_items()
        + serial_items()
        + virtio_items(virt::VIRTIO_COUNT as nat)
        + seq![FdtItem::End, FdtItem::End]
}

/// Items `a` and `b` encode alike but for property values: same length, and at each index the
/// same item, or properties of the same name whose values have the same length.
pub open spec fn same_shape(a: Seq<FdtItem>, b: Seq<FdtItem>) -> bool {
    &&& a.len() == b.len()
    &&& forall|i: int| 0 <= i < a.len() ==> #[trigger] a[i] == b[i] || (a[i] is Prop && b[i] is Prop
        && a[i]->Prop_0 == b[i]->Prop_0 && a[i]->Prop_1.len() == b[i]->Prop_1.len())
}

proof fn lemma_same_shape_encode(a: Seq<FdtItem>, b: Seq<FdtItem>)
    requires same_shape(a, b),
    ensures
        encode_items(a).1 == encode_items(b).1,
        encode_items(a).2 == encode_items(b).2,
        encode_items(a).0.len() == encode_items(b).0.len(),
    decreases a.len(),
{
    if a.len() > 0 {
        let n = a.len() - 1;
        assert(same_shape(a.drop_last(), b.drop_last())) by {
            assert forall|i: int| 0 <= i < a.drop_last().len() implies #[trigger] a.drop_last()[i] == b.drop_last()[i]
                || (a.drop_last()[i] is Prop && b.drop_last()[i] is Prop && a.drop_last()[i]->Prop_0 == b.drop_last()[i]->Prop_0
                    && a.drop_last()[i]->Prop_1.len() == b.drop_last()[i]->Prop_1.len()) by {
                assert(a[i] == a.drop_last()[i] && b[i] == b.drop_last()[i]);
            }
        }
        lemma_same_shape_encode(a.drop_last(), b.drop_last());
        assert(a[n] == b[n] || (a[n] is Prop && b[n] is Prop && a[n]->Prop_0 == b[n]->Prop_0 && a[n]->Prop_1.len() == b[n]->Prop_1.len()));
    }
}

proof fn lemma_encode_prefix(items: Seq<FdtItem>, k: int)
    requires 0 <= k <= items.len(),
    ensures
        encode_items(items.take(k)).0.len() <= encode_items(items).0.len(),
        encode_items(items).0.subrange(0, encode_items(items.take(k)).0.len() as int) == encode_items(items.take(k)).0,
    decreases items.len(),
{
    if k == items.len() {
        assert(items.take(k) =~= items);
        assert(encode_items(items).0.subrange(0, encode_items(items).0.len() as int) =~= encode_items(items).0);
    } else {
        let d = items.drop_last();
        lemma_encode_prefix(d, k);
        assert(d.take(k) =~= items.take(k));
        let p = encode_items(d).0;
        let q = encode_items(items).0;
        assert(q.subrange(0, p.len() as int) =~= p);
        let t = encode_items(items.take(k)).0;
        assert(q.subrange(0, t.len() as int) =~= p.subrange(0, t.len() as int));
    }
}

/// Two shape-alike item lists that agree before index `j` and differ there in a property value
/// of the same length encode to different structure blocks of the same length.
proof fn lemma_value_change_encodes_apart(a: Seq<FdtItem>, b: Seq<FdtItem>, j: int)
    requires
        same_shape(a, b), 0 <= j < a.len(),
        a.take(j) == b.take(j),
        a[j] is Prop && b[j] is Prop && a[j]->Prop_1 != b[j]->Prop_1,
    ensures encode_items(a).0 != encode_items(b).0,
{
    lemma_same_shape_encode(a, b);
    let aj = a.take(j + 1);
    let bj = b.take(j + 1);
    assert(aj.drop_last() =~= a.take(j));
    assert(bj.drop_last() =~= b.take(j));
    assert(aj.last() == a[j] && bj.last() == b[j]);
    let prev = encode_items(a.take(j));
    let va = a[j]->Prop_1;
    let vb = b[j]->Prop_1;
    let name = encode_utf8(a[j]->Prop_0);
    let xa = prev.0 + be32(FDT_PROP) + be32(va.len() as u32) + be32(intern_offset(prev.2, prev.1, name)) + va;
    let xb = prev.0 + be32(FDT_PROP) + be32(vb.len() as u32) + be32(intern_offset(prev.2, prev.1, name)) + vb;
    assert(encode_items(aj).0 == padded(xa));
    assert(encode_items(bj).0 == padded(xb));
    let off: int = prev.0.len() as int + 12;
    assert(padded(xa).subrange(off, off + va.len() as int) =~= va);
    assert(padded(xb).subrange(off, off + vb.len() as int) =~= vb);
    lemma_encode_prefix(a, j + 1);
    lemma_encode_prefix(b, j + 1);
    if encode_items(a).0 == encode_items(b).0 {
        assert(encode_items(aj).0 == encode_items(bj).0);
        assert(false);
    }
}

proof fn lemma_reg_cells_apart(s1: u64, s2: u64)
    requires s1 != s2,
    ensures cells_bytes(reg2_cells(virt::DRAM_BASE, s1)) != cells_bytes(reg2_cells(virt::DRAM_BASE, s2)),
{
    let c1 = reg2_cells(virt::DRAM_BASE, s1);
    let c2 = reg2_cells(virt::DRAM_BASE, s2);
    lemma_cells_bytes_at(c1, 2);
    lemma_cells_bytes_at(c1, 3);
    lemma_cells_bytes_at(c2, 2);
    lemma_cells_bytes_at(c2, 3);
    lemma_be32_roundtrip(c1[2]);
    lemma_be32_roundtrip(c1[3]);
    lemma_be32_roundtrip(c2[2]);
    lemma_be32_roundtrip(c2[3]);
    assert((s1 >> 32u64) as u32 == (s2 >> 32u64) as u32 && s1 as u32 == s2 as u32 ==> s1 == s2) by (bit_vector);
    if cells_bytes(c1) == cells_bytes(c2) {
        assert(cells_bytes(c1).subrange(8, 12) == cells_bytes(c2).subrange(8, 12));
        assert(cells_bytes(c1).subrange(12, 16) == cells_bytes(c2).subrange(12, 16));
        assert(false);
    }
}

/// The blob records the memory size: two platforms of different RAM sizes get different blobs
/// for the same boot arguments and initrd.
pub proof fn lemma_dtb_tracks_memory_size(s1: u64, s2: u64, bootargs: Seq<char>, initrd: Option<Initrd>)
    requires s1 != s2,
    ensures fdt_image(virt_items(s1, bootargs, initrd), Seq::empty()) != fdt_image(virt_items(s2, bootargs, initrd), Seq::empty()),
{
    reveal(memory_items);
    let pre = root_head_items()
        + syscon_items("poweroff"@, "syscon-poweroff"@, 0x5555)
        + syscon_items("reboot"@, "syscon-reboot"@, 0x7777)
        + chosen_items(bootargs, initrd);
    let post = cpus_items() + soc_head_items() + test_items() + rtc_items() + clint_items() + plic_items()
        + serial_items() + virtio_items(virt::VIRTIO_COUNT as nat) + seq![FdtItem::End, FdtItem::End];
    let a = virt_items(s1, bootargs, initrd);
    let b = virt_items(s2, bootargs, initrd);
    assert(a =~= pre + memory_items(s1) + post);
    assert(b =~= pre + memory_items(s2) + post);
    let j: int = pre.len() as int + 2;
    let v1 = cells_bytes(reg2_cells(virt::DRAM_BASE, s1));
    let v2 = cells_bytes(reg2_cells(virt::DRAM_BASE, s2));
    lemma_cells_bytes_len(reg2_cells(virt::DRAM_BASE, s1));
    lemma_cells_bytes_len(reg2_cells(virt::DRAM_BASE, s2));
    lemma_reg_cells_apart(s1, s2);
    assert(a[j] == FdtItem::Prop("reg"@, v1));
    assert(b[j] == FdtItem::Prop("reg"@, v2));
    assert forall|i: int| 0 <= i < a.len() implies #[trigger] a[i] == b[i] || (a[i] is Prop && b[i] is Prop
        && a[i]->Prop_0 == b[i]->Prop_0 && a[i]->Prop_1.len() == b[i]->Prop_1.len()) by {
        if i != j {
            if i < pre.len() {
                assert(a[i] == pre[i] && b[i] == pre[i]);
            } else if i < pre.len() + 4 {
                assert(a[i] == memory_items(s1)[i - pre.len()] && b[i] == memory_items(s2)[i - pre.len()]);
            } else {
                assert(a[i] == post[i - pre.len() - 4] && b[i] == post[i - pre.len() - 4]);
            }
        }
    }
    assert(a.take(j) =~= b.take(j)) by {
        assert forall|i: int| 0 <= i < j implies a.take(j)[i] == b.take(j)[i] by {
            if i < pre.len() {
                assert(a[i] == pre[i] && b[i] == pre[i]);
            } else {
                assert(a[i] == memory_items(s1)[i - pre.len()] && b[i] == memory_items(s2)[i - pre.len()]);
            }
        }
    }
    lemma_value_change_encodes_apart(a, b, j);
    lemma_same_shape_encode(a, b);
    let ea = encode_items(a);
    let eb = encode_items(b);
    let ia = fdt_image(a, Seq::empty());
    let ib = fdt_image(b, Seq::empty());
    let h = fdt_header((ea.0.len() + 4) as int, ea.1.len() as int, 0) + rsv_bytes(Seq::empty()) + be64(0) + be64(0);
    assert(ia =~= h + (ea.0 + be32(FDT_END)) + ea.1);
    assert(ib =~= h + (eb.0 + be32(FDT_END)) + eb.1);
    if ia == ib {
        assert(ia.subrange(h.len() as int, (h.len() + ea.0.len()) as int) =~= ea.0);
        assert(ib.subrange(h.len() as int, (h.len() + eb.0.len()) as int) =~= eb.0);
        assert(false);
    }
}

/// The initrd shows in the tree exactly as its two `/chosen` properties: without an initrd the
/// chosen node holds only `bootargs` and `stdout-path`; the items with an initrd are the items
/// without one, with `linux,initrd-start` and `linux,initrd-end` (its start and end) inserted after
/// the chosen node's `stdout-path`.
#[verifier::spinoff_prover]
#[verifier::rlimit(60)]
pub proof fn lemma_dtb_initrd_props(dram_size: u64, bootargs: Seq<char>, rd: Initrd)
    ensures ({
        let none = virt_items(dram_size, bootargs, None);
        &&& none.subrange(17, 21) == seq![
            FdtItem::Begin("chosen"@),
            FdtItem::Prop("bootargs"@, strz(bootargs)),
            FdtItem::Prop("stdout-path"@, strz(unit_name("/soc/serial@"@, virt::UART0_BASE))),
            FdtItem::End,
        ]
        &&& virt_items(dram_size, bootargs, Some(rd)) == none.take(20)
            + seq![FdtItem::Prop("linux,initrd-start"@, be64(rd.start)), FdtItem::Prop("linux,initrd-end"@, be64(rd.end))]
            + none.skip(20)
    }),
{
    reveal(root_head_items);
    reveal(syscon_items);
    reveal(chosen_items);
    let pre = root_head_items()
        + syscon_items("poweroff"@, "syscon-poweroff"@, 0x5555)
        + syscon_items("reboot"@, "syscon-reboot"@, 0x7777);
    let post = memory_items(dram_size) + cpus_items() + soc_head_items() + test_items() + rtc_items() + clint_items()
        + plic_items() + serial_items() + virtio_items(virt::VIRTIO_COUNT as nat) + seq![FdtItem::End, FdtItem::End];
    let head = seq![
        FdtItem::Begin("chosen"@),
        FdtItem::Prop("bootargs"@, strz(bootargs)),
        FdtItem::Prop("stdout-path"@, strz(unit_name("/soc/serial@"@, virt::UART0_BASE))),
    ];
    let props = seq![FdtItem::Prop("linux,initrd-start"@, be64(rd.start)), FdtItem::Prop("linux,initrd-end"@, be64(rd.end))];
    let none = virt_items(dram_size, bootargs, None);
    assert(pre.len() == 17);
    assert(none =~= (pre + head) + (seq![FdtItem::End] + post));
    assert(virt_items(dram_size, bootargs, Some(rd)) =~= (pre + head) + props + (seq![FdtItem::End] + post));
    assert(none.take(20) =~= pre + head);
    assert(none.skip(20) =~= seq![FdtItem::End] + post);
    assert(none.subrange(17, 21) =~= head + seq![FdtItem::End]);
}

fn reg2(base: u64, len: u64) -> (r: Vec<u32>)
    ensures r@ == reg2_cells(base, len),
{
    let mut v: Vec<u32> = Vec::new();
    v.push((base >> 32u64) as u32);
    v.push(#[verifier::truncate] (base as u32));
    v.push((len >> 32u64) as u32);
    v.push(#[verifier::truncate] (len as u32));
    assert(v@ =~= reg2_cells(base, len));
    v
}

fn node_name(prefix: &str, addr: u64) -> (r: String)
    ensures r@ == unit_name(prefix@, addr),
{
    let mut s = String::from_str(prefix);
    push_digits(&mut s, addr, 16);
    s
}

fn one_cell(v: u32) -> (r: Vec<u32>)
    ensures r@ == seq![v],
{
    let mut c: Vec<u32> = Vec::new();
    c.push(v);
    assert(c@ =~= seq![v]);
    c
}

fn four_cells(a: u32, b: u32, c: u32, d: u32) -> (r: Vec<u32>)
    ensures r@ == seq![a, b, c, d],
{
    let mut v: Vec<u32> = Vec::new();
    v.push(a);
    v.push(b);
    v.push(c);
    v.push(d);
    assert(v@ =~= seq![a, b, c, d]);
    v
}

fn emit_root_head(f: &mut FdtBuilder)
    requires old(f).wf(), old(f).spec_depth() < 16,
    ensures
        final(f).wf(),
        final(f).items() == old(f).items() + root_head_items(),
        final(f).spec_depth() == old(f).spec_depth() + 1,
{
    proof { reveal(root_head_items); }
    f.begin_node("");
    f.prop_u32("#address-cells", 2);
    f.prop_u32("#size-cells", 2);
    f.prop_str("compatible", "riscv-virtio");
    f.prop_str("model", "riscv-virtio,qemu");
    assert(f.items() =~= old(f).items() + root_head_items());
}

fn emit_syscon(f: &mut FdtBuilder, name: &str, compat: &str, value: u32)
    requires old(f).wf(), old(f).spec_depth() < 16,
    ensures
        final(f).wf(),
        final(f).items() == old(f).items() + syscon_items(name@, compat@, value),
        final(f).spec_depth() == old(f).spec_depth(),
{
    proof { reveal(syscon_items); }
    f.begin_node(name);
    f.prop_str("compatible", compat);
    f.prop_u32("regmap", PHANDLE_TEST);
    f.prop_u32("offset", 0);
    f.prop_u32("value", value);
    f.end_node();
    assert(f.items() =~= old(f).items() + syscon_items(name@, compat@, value));
}

fn emit_chosen(f: &mut FdtBuilder, bootargs: &str, initrd: Option<Initrd>)
    requires old(f).wf(), old(f).spec_depth() < 16,
    ensures
        final(f).wf(),
        final(f).items() == old(f).items() + chosen_items(bootargs@, initrd),
        final(f).spec_depth() == old(f).spec_depth(),
{
    proof { reveal(chosen_items); }
    f.begin_node("chosen");
    f.prop_str("bootargs", bootargs);
    let path = node_name("/soc/serial@", virt::UART0_BASE);
    f.prop_str("stdout-path", path.as_str());
    let ghost mid = f.items();
    match initrd {
        Some(rd) => {
            f.prop_u64("linux,initrd-start", rd.start);
            f.prop_u64("linux,initrd-end", rd.end);
        },
        None => {},
    }
    assert(f.items() =~= mid + initrd_items(initrd));
    f.end_node();
    assert(f.items() =~= old(f).items() + chosen_items(bootargs@, initrd));
}

fn emit_memory(f: &mut FdtBuilder, dram_size: u64)
    requires old(f).wf(), old(f).spec_depth() < 16,
    ensures
        final(f).wf(),
        final(f).items() == old(f).items() + memory_items(dram_size),
        final(f).spec_depth() == old(f).spec_depth(),
{
    proof { reveal(memory_items); }
    let name = node_name("memory@", virt::DRAM_BASE);
    f.begin_node(name.as_str());
    f.prop_str("device_type", "memory");
    let reg = reg2(virt::DRAM_BASE, dram_size);
    f.prop_cells("reg", reg.as_slice());
    f.end_node();
    assert(f.items() =~= old(f).items() + memory_items(dram_size));
}

fn emit_cpus(f: &mut FdtBuilder)
    requires old(f).wf(), old(f).spec_depth() < 16,
    ensures
        final(f).wf(),
        final(f).items() == old(f).items() + cpus_items(),
        final(f).spec_depth() == old(f).spec_depth(),
{
    proof { reveal(cpus_items); }
    f.begin_node("cpus");
    f.prop_u32("#address-cells", 1);
    f.prop_u32("#size-cells", 0);
    f.prop_u32("timebase-frequency", virt::TIMEBASE_FREQ_HZ);
    f.begin_node("cpu@0");
    f.prop_str("device_type", "cpu");
    f.prop_u32("reg", virt::BOOT_HART as u32);
    f.prop_str("status", "okay");
    f.prop_str("compatible", "riscv");
    f.prop_str("riscv,isa", "rv64imafdc");
    f.prop_str("mmu-type", "riscv,sv57");
    f.begin_node("interrupt-controller");
    f.prop_u32("#interrupt-cells", 1);
    f.prop_empty("interrupt-controller");
    f.prop_str("compatible", "riscv,cpu-intc");
    f.prop_u32("phandle", PHANDLE_CPU_INTC);
    f.end_node();
    f.end_node();
    f.end_node();
    assert(f.items() =~= old(f).items() + cpus_items());
}

fn emit_soc_head(f: &mut FdtBuilder)
    requires old(f).wf(), old(f).spec_depth() < 16,
    ensures
        final(f).wf(),
        final(f).items() == old(f).items() + soc_head_items(),
        final(f).spec_depth() == old(f).spec_depth() + 1,
{
    proof { reveal(soc_head_items); }
    f.begin_node("soc");
    f.prop_u32("#address-cells", 2);
    f.prop_u32("#size-cells", 2);
    f.prop_str("compatible", "simple-bus");
    f.prop_empty("ranges");
    assert(f.items() =~= old(f).items() + soc_head_items());
}

fn emit_test(f: &mut FdtBuilder)
    requires old(f).wf(), old(f).spec_depth() < 16,
    ensures
        final(f).wf(),
        final(f).items() == old(f).items() + test_items(),
        final(f).spec_depth() == old(f).spec_depth(),
{
    proof { reveal(test_items); }
    let name = node_name("test@", virt::TEST_BASE);
    f.begin_node(name.as_str());
    let mut compat: Vec<&str> = Vec::new();
    compat.push("sifive,test1");
    compat.push("sifive,test0");
    compat.push("syscon");
    assert(compat@.map_values(|x: &str| x@) =~= seq!["sifive,test1"@, "sifive,test0"@, "syscon"@]);
    f.prop_str_list("compatible", compat.as_slice());
    let reg = reg2(virt::TEST_BASE, virt::TEST_LEN);
    f.prop_cells("reg", reg.as_slice());
    f.prop_u32("phandle", PHANDLE_TEST);
    f.end_node();
    assert(f.items() =~= old(f).items() + test_items());
}

fn emit_rtc(f: &mut FdtBuilder)
    requires old(f).wf(), old(f).spec_depth() < 16,
    ensures
        final(f).wf(),
        final(f).items() == old(f).items() + rtc_items(),
        final(f).spec_depth() == old(f).spec_depth(),
{
    proof { reveal(rtc_items); }
    let name = node_name("rtc@", virt::RTC_BASE);
    f.begin_node(name.as_str());
    f.prop_str("compatible", "google,goldfish-rtc");
    let reg = reg2(virt::RTC_BASE, virt::RTC_LEN);
    f.prop_cells("reg", reg.as_slice());
    let irq = one_cell(virt::RTC_IRQ);
    f.prop_cells("interrupts", irq.as_slice());
    f.prop_u32("interrupt-parent", PHANDLE_PLIC);
    f.end_node();
    assert(f.items() =~= old(f).items() + rtc_items());
}

fn emit_clint(f: &mut FdtBuilder)
    requires old(f).wf(), old(f).spec_depth() < 16,
    ensures
        final(f).wf(),
        final(f).items() == old(f).items() + clint_items(),
        final(f).spec_depth() == old(f).spec_depth(),
{
    proof { reveal(clint_items); }
    let name = node_name("clint@", virt::CLINT_BASE);
    f.begin_node(name.as_str());
    let mut compat: Vec<&str> = Vec::new();
    compat.push("sifive,clint0");
    compat.push("riscv,clint0");
    assert(compat@.map_values(|x: &str| x@) =~= seq!["sifive,clint0"@, "riscv,clint0"@]);
    f.prop_str_list("compatible", compat.as_slice());
    let reg = reg2(virt::CLINT_BASE, virt::CLINT_LEN);
    f.prop_cells("reg", reg.as_slice());
    let ext = four_cells(PHANDLE_CPU_INTC, IRQ_M_SOFT, PHANDLE_CPU_INTC, IRQ_M_TIMER);
    f.prop_cells("interrupts-extended", ext.as_slice());
    f.end_node();
    assert(f.items() =~= old(f).items() + clint_items());
}

fn emit_plic(f: &mut FdtBuilder)
    requires old(f).wf(), old(f).spec_depth() < 16,
    ensures
        final(f).wf(),
        final(f).items() == old(f).items() + plic_items(),
        final(f).spec_depth() == old(f).spec_depth(),
{
    proof { reveal(plic_items); }
    let name = node_name("plic@", virt::PLIC_BASE);
    f.begin_node(name.as_str());
    let mut compat: Vec<&str> = Vec::new();
    compat.push("sifive,plic-1.0.0");
    compat.push("riscv,plic0");
    assert(compat@.map_values(|x: &str| x@) =~= seq!["sifive,plic-1.0.0"@, "riscv,plic0"@]);
    f.prop_str_list("compatible", compat.as_slice());
    let reg = reg2(virt::PLIC_BASE, virt::PLIC_LEN);
    f.prop_cells("reg", reg.as_slice());
    f.prop_u32("#interrupt-cells", 1);
    f.prop_u32("#address-cells", 0);
    f.prop_empty("interrupt-controller");
    f.prop_u32("riscv,ndev", virt::PLIC_NDEV);
    let ext = four_cells(PHANDLE_CPU_INTC, IRQ_M_EXT, PHANDLE_CPU_INTC, IRQ_S_EXT);
    f.prop_cells("interrupts-extended", ext.as_slice());
    f.prop_u32("phandle", PHANDLE_PLIC);
    f.end_node();
    assert(f.items() =~= old(f).items() + plic_items());
}

fn emit_serial(f: &mut FdtBuilder)
    requires old(f).wf(), old(f).spec_depth() < 16,
    ensures
        final(f).wf(),
        final(f).items() == old(f).items() + serial_items(),
        final(f).spec_depth() == old(f).spec_depth(),
{
    proof { reveal(serial_items); }
    let name = node_name("serial@", virt::UART0_BASE);
    f.begin_node(name.as_str());
    f.prop_str("compatible", "ns16550a");
    let reg = reg2(virt::UART0_BASE, virt::UART0_LEN);
    f.prop_cells("reg", reg.as_slice());
    f.prop_u32("clock-frequency", virt::UART_CLOCK_HZ);
    let irq = one_cell(virt::UART0_IRQ);
    f.prop_cells("interrupts", irq.as_slice());
    f.prop_u32("interrupt-parent", PHANDLE_PLIC);
    f.end_node();
    assert(f.items() =~= old(f).items() + serial_items());
}

fn emit_virtio_slot(f: &mut FdtBuilder, i: u64)
    requires old(f).wf(), old(f).spec_depth() < 16, i < virt::VIRTIO_COUNT,
    ensures
        final(f).wf(),
        final(f).items() == old(f).items() + virtio_slot_items(i),
        final(f).spec_depth() == old(f).spec_depth(),
{
    proof { reveal(virtio_slot_items); }
    let base = Platform::virtio_base(i);
    let name = node_name("virtio_mmio@", base);
    f.begin_node(name.as_str());
    f.prop_str("compatible", "virtio,mmio");
    let reg = reg2(base, virt::VIRTIO_LEN);
    f.prop_cells("reg", reg.as_slice());
    let irq = one_cell(Platform::virtio_irq(i));
    f.prop_cells("interrupts", irq.as_slice());
    f.prop_u32("interrupt-parent", PHANDLE_PLIC);
    f.end_node();
    assert(f.items() =~= old(f).items() + virtio_slot_items(i));
}

/// Build the DTB for the `virt` platform: memory, one hart (with its interrupt controller),
/// CLINT, PLIC, UART, the virtio-mmio slots, rtc, the syscon test device (with poweroff and
/// reboot), and `/chosen`. Every address, size and IRQ comes from [`virt`] and `platform`.
pub fn build_virt_dtb(platform: &Platform, bootargs: &str, initrd: Option<Initrd>) -> (r: Vec<u8>)
    ensures r@ == fdt_image(virt_items(platform.spec_dram_size(), bootargs@, initrd), Seq::empty()),
{
    let mut f = FdtBuilder::new();
    emit_root_head(&mut f);
    emit_syscon(&mut f, "poweroff", "syscon-poweroff", 0x5555);
    emit_syscon(&mut f, "reboot", "syscon-reboot", 0x7777);
    emit_chosen(&mut f, bootargs, initrd);
    emit_memory(&mut f, platform.dram_size());
    emit_cpus(&mut f);
    emit_soc_head(&mut f);
    emit_test(&mut f);
    emit_rtc(&mut f);
    emit_clint(&mut f);
    emit_plic(&mut f);
    emit_serial(&mut f);
    let ghost before_virtio = f.items();
    let mut i: u64 = 0;
    while i < virt::VIRTIO_COUNT
        invariant
            i <= virt::VIRTIO_COUNT, f.wf(), f.spec_depth() == 2,
            f.items() == before_virtio + virtio_items(i as nat),
        decreases virt::VIRTIO_COUNT - i,
    {
        emit_virtio_slot(&mut f, i);
        assert(virtio_items((i + 1) as nat) == virtio_items(i as nat) + virtio_slot_items(i));
        assert(f.items() =~= before_virtio + virtio_items((i + 1) as nat));
        i += 1;
    }
    f.end_node();
    f.end_node();
    let ghost items = f.items();
    assert(items =~= virt_items(platform.spec_dram_size(), bootargs@, initrd));
    let empty: [(u64, u64); 0] = [];
    assert(empty@ =~= Seq::<(u64, u64)>::empty());
    f.finish(&empty)
}

/// Headroom left above the DTB: firmware fixups edit the blob in place and grow it.
pub const DTB_SLACK: u64 = 16 * 1024;

/// Where a DTB of `dtb_len` bytes goes: `DTB_SLACK` below the top of DRAM, rounded down to
/// 8 bytes; `None` when it does not fit above the DRAM base.
pub open spec fn dtb_placement_spec(dram_size: u64, dtb_len: u64) -> Option<u64> {
    let end = virt::DRAM_BASE + dram_size;
    let need = dtb_len + DTB_SLACK;
    if end > u64::MAX || need > u64::MAX || need > end {
        None
    } else {
        let top = end - need;
        let addr = top - top % 8;
        if addr < virt::DRAM_BASE { None } else { Some(addr as u64) }
    }
}

/// Where to place a DTB of `dtb_len` bytes in DRAM: at the top, 8-byte aligned downward,
/// leaving `DTB_SLACK` bytes above it, clear of the kernel image at the bottom of DRAM.
/// `None` if the blob doesn't fit.
pub fn dtb_placement(platform: &Platform, dtb_len: u64) -> (r: Option<u64>)
    ensures
        r == dtb_placement_spec(platform.spec_dram_size(), dtb_len),
        r matches Some(a) ==> (a % 8 == 0 && a >= virt::DRAM_BASE
            && a + dtb_len + DTB_SLACK <= virt::DRAM_BASE + platform.spec_dram_size()),
{
    let dram_end = match virt::DRAM_BASE.checked_add(platform.dram_size()) {
        Some(e) => e,
        None => return None,
    };
    let need = match dtb_len.checked_add(DTB_SLACK) {
        Some(n) => n,
        None => return None,
    };
    let top = match dram_end.checked_sub(need) {
        Some(t) => t,
        None => return None,
    };
    let addr = top - top % 8;
    if addr < virt::DRAM_BASE {
        return None;
    }
    Some(addr)
}

/// The slot-interrupt law: in the items of the first `n` virtio-mmio slots, slot `i` is the six
/// items from `6 * i`, a node named `virtio_mmio@` and its base whose `interrupts` property (the
/// fourth item) holds one big-endian cell with the slot's IRQ, `VIRTIO_IRQ_BASE + i`.
pub proof fn lemma_virtio_slot_irq(n: nat, i: int)
    requires 0 <= i < n, n <= virt::VIRTIO_COUNT,
    ensures
        virtio_items(n).len() == 6 * n,
        virtio_items(n)[6 * i] == FdtItem::Begin(unit_name("virtio_mmio@"@, virtio_base_spec(i as u64) as u64)),
        virtio_items(n)[6 * i + 3] matches FdtItem::Prop(name, value)
            && name == "interrupts"@ && value.len() == 4 && be32_at(value, 0) == virt::VIRTIO_IRQ_BASE + i,
    decreases n,
{
    reveal(virtio_slot_items);
    let m = (n - 1) as nat;
    let slot = virtio_slot_items(m as u64);
    assert(slot.len() == 6);
    if m > 0 {
        lemma_virtio_len(m);
    }
    assert(virtio_items(n) == virtio_items(m) + slot);
    if i < m {
        lemma_virtio_slot_irq(m, i);
    } else {
        let irq = (virt::VIRTIO_IRQ_BASE + m) as u32;
        let cells = seq![irq];
        assert(cells.drop_last() =~= Seq::<u32>::empty());
        assert(cells_bytes(Seq::<u32>::empty()) == Seq::<u8>::empty());
        assert(cells.last() == irq);
        assert(cells_bytes(cells) == cells_bytes(cells.drop_last()) + be32(cells.last()));
        assert(cells_bytes(cells) =~= be32(irq));
        lemma_be32_roundtrip(irq);
    }
}

proof fn lemma_virtio_len(n: nat)
    ensures virtio_items(n).len() == 6 * n,
    decreases n,
{
    reveal(virtio_slot_items);
    if n > 0 {
        lemma_virtio_len((n - 1) as nat);
    }
}

/// In the tree of the `virt` platform, the virtio-mmio slots are the last nodes before the two
/// closing items: slot `i`'s `interrupts` property carries `VIRTIO_IRQ_BASE + i`.
pub proof fn lemma_virt_tree_virtio_irq(dram_size: u64, bootargs: Seq<char>, initrd: Option<Initrd>, i: int)
    requires 0 <= i < virt::VIRTIO_COUNT,
    ensures ({
        let t = virt_items(dram_size, bootargs, initrd);
        let first = t.len() - 2 - 6 * virt::VIRTIO_COUNT;
        &&& t[first + 6 * i + 3] matches FdtItem::Prop(name, value)
            && name == "interrupts"@ && value.len() == 4 && be32_at(value, 0) == virt::VIRTIO_IRQ_BASE + i
        &&& t[first + 6 * i] == FdtItem::Begin(unit_name("virtio_mmio@"@, virtio_base_spec(i as u64) as u64))
    }),
{
    let n = virt::VIRTIO_COUNT as nat;
    lemma_virtio_slot_irq(n, i);
    let t = virt_items(dram_size, bootargs, initrd);
    let v = virtio_items(n);
    let tail = seq![FdtItem::End, FdtItem::End];
    let pre = t.subrange(0, t.len() - 2 - 48);
    assert(t =~= pre + v + tail);
    assert(t[t.len() - 2 - 48 + 6 * i + 3] == v[6 * i + 3]);
    assert(t[t.len() - 2 - 48 + 6 * i] == v[6 * i]);
}

} // verus!
