//! The logic of reading another process's memory: decoding little-endian
//! values, walking a module's PE headers to its `.text` section and scanning it
//! for a signature, the layout of an MSVC `std::string`, the bookkeeping of a
//! best-effort region read, and the choice of memory regions to scan.
//!
//! The reads themselves are done by the caller: each step here says which
//! address to read next and takes the value read. Remote addresses are
//! computed with wrapping arithmetic, as the release build does.

use vstd::prelude::*;
use vstd::utf8::{decode_utf8, valid_utf8};
use crate::pattern::{find_pattern_in, first_match_of, parse_signature, signature_pattern};
use crate::text::{ascii_lower, from_utf16_lossy, from_utf8_lossy, to_ascii_lowercase, utf16_lossy, utf8_lossy};

verus! {

// ---------------------------------------------------------------------------
// Little-endian values
// ---------------------------------------------------------------------------

/// Unsigned value of little-endian bytes.
pub open spec fn le_value(b: Seq<u8>) -> nat
    decreases b.len(),
{
    if b.len() == 0 {
        0
    } else {
        b[0] as nat + 256 * le_value(b.drop_first())
    }
}

/// `i16::from_le_bytes` of the first two bytes, `None` on a short read.
pub fn le_i16(b: &[u8]) -> (r: Option<i16>)
    ensures
        b@.len() < 2 ==> r is None,
        b@.len() >= 2 ==> r == Some(le_value(b@.take(2)) as i16),
{
    if b.len() < 2 {
        return None;
    }
    proof {
        reveal_with_fuel(le_value, 3);
        assert(b@.take(2).drop_first() =~= seq![b@[1]]);
        assert(seq![b@[1]].drop_first() =~= Seq::<u8>::empty());
    }
    let u: u16 = b[0] as u16 + (b[1] as u16) * 256;
    Some(u as i16)
}

/// `u32::from_le_bytes` of the first four bytes, `None` on a short read.
pub fn le_u32(b: &[u8]) -> (r: Option<u32>)
    ensures
        b@.len() < 4 ==> r is None,
        b@.len() >= 4 ==> r == Some(le_value(b@.take(4)) as u32),
        b@.len() >= 4 ==> le_value(b@.take(4)) < 0x1_0000_0000,
{
    if b.len() < 4 {
        return None;
    }
    proof {
        lemma_le_value_4(b@.take(4));
    }
    let u: u32 = b[0] as u32 + (b[1] as u32) * 256 + (b[2] as u32) * 65536 + (b[3] as u32)
        * 16777216;
    Some(u)
}

/// `i32::from_le_bytes` of the first four bytes, `None` on a short read.
pub fn le_i32(b: &[u8]) -> (r: Option<i32>)
    ensures
        b@.len() < 4 ==> r is None,
        b@.len() >= 4 ==> r == Some(le_value(b@.take(4)) as i32),
{
    match le_u32(b) {
        Some(u) => Some(u as i32),
        None => None,
    }
}

/// `u64::from_le_bytes` of the first eight bytes, `None` on a short read.
pub fn le_u64(b: &[u8]) -> (r: Option<u64>)
    ensures
        b@.len() < 8 ==> r is None,
        b@.len() >= 8 ==> r == Some(le_value(b@.take(8)) as u64),
        b@.len() >= 8 ==> le_value(b@.take(8)) <= u64::MAX,
{
    if b.len() < 8 {
        return None;
    }
    proof {
        lemma_le_value_8(b@.take(8));
    }
    let u: u64 = b[0] as u64 + (b[1] as u64) * 0x100 + (b[2] as u64) * 0x1_0000 + (b[3] as u64)
        * 0x100_0000 + (b[4] as u64) * 0x1_0000_0000 + (b[5] as u64) * 0x100_0000_0000 + (
    b[6] as u64) * 0x1_0000_0000_0000 + (b[7] as u64) * 0x100_0000_0000_0000;
    Some(u)
}

/// `i64::from_le_bytes` of the first eight bytes, `None` on a short read.
pub fn le_i64(b: &[u8]) -> (r: Option<i64>)
    ensures
        b@.len() < 8 ==> r is None,
        b@.len() >= 8 ==> r == Some(le_value(b@.take(8)) as i64),
{
    match le_u64(b) {
        Some(u) => Some(u as i64),
        None => None,
    }
}

proof fn lemma_le_value_4(s: Seq<u8>)
    requires
        s.len() == 4,
    ensures
        le_value(s) == s[0] + 256 * s[1] + 65536 * s[2] + 16777216 * s[3],
{
    reveal_with_fuel(le_value, 5);
    let d1 = s.drop_first();
    let d2 = d1.drop_first();
    let d3 = d2.drop_first();
    let d4 = d3.drop_first();
    assert(d4.len() == 0);
    assert(d1[0] == s[1] && d2[0] == s[2] && d3[0] == s[3]);
}

proof fn lemma_le_value_8(s: Seq<u8>)
    requires
        s.len() == 8,
    ensures
        le_value(s) == s[0] + 0x100 * s[1] + 0x1_0000 * s[2] + 0x100_0000 * s[3] + 0x1_0000_0000
            * s[4] + 0x100_0000_0000 * s[5] + 0x1_0000_0000_0000 * s[6] + 0x100_0000_0000_0000
            * s[7],
{
    let d1 = s.drop_first();
    let d2 = d1.drop_first();
    let d3 = d2.drop_first();
    let d4 = d3.drop_first();
    let d5 = d4.drop_first();
    let d6 = d5.drop_first();
    let d7 = d6.drop_first();
    let d8 = d7.drop_first();
    assert(d8.len() == 0);
    assert(le_value(d8) == 0);
    assert(le_value(d7) == s[7]);
    assert(le_value(d6) == s[6] + 256 * s[7]);
    assert(le_value(d5) == s[5] + 256 * le_value(d6));
    assert(le_value(d4) == s[4] + 256 * le_value(d5));
    assert(le_value(d3) == s[3] + 256 * le_value(d4));
    assert(le_value(d2) == s[2] + 256 * le_value(d3));
    assert(le_value(d1) == s[1] + 256 * le_value(d2));
    assert(le_value(s) == s[0] + 256 * le_value(d1));
}

/// The eight little-endian bytes of `u`, low byte first.
pub open spec fn le_bytes(u: nat, n: nat) -> Seq<u8>
    decreases n,
{
    if n == 0 {
        seq![]
    } else {
        seq![(u % 256) as u8] + le_bytes(u / 256, (n - 1) as nat)
    }
}

// ---------------------------------------------------------------------------
// Names
// ---------------------------------------------------------------------------

/// Index of the first zero of `s`, or its length.
pub open spec fn nul_pos<T>(s: Seq<T>, zero: T) -> nat
    decreases s.len(),
{
    if s.len() == 0 || s[0] == zero {
        0
    } else {
        1 + nul_pos(s.drop_first(), zero)
    }
}

proof fn lemma_nul_pos_exact<T>(s: Seq<T>, zero: T, k: int)
    requires
        0 <= k <= s.len(),
        forall|i: int| 0 <= i < k ==> s[i] != zero,
        k == s.len() || s[k] == zero,
    ensures
        nul_pos(s, zero) == k,
    decreases k,
{
    if k > 0 {
        let d = s.drop_first();
        assert forall|i: int| 0 <= i < k - 1 implies d[i] != zero by {
            assert(d[i] == s[i + 1]);
        }
        if k < s.len() {
            assert(d[k - 1] == s[k]);
        }
        lemma_nul_pos_exact(d, zero, k - 1);
    }
}

/// A NUL-terminated UTF-16 buffer as text: the units before the first zero
/// (all of them when there is none), decoded lossily.
pub fn u16_buf_to_string(buf: &[u16]) -> (r: String)
    ensures
        ({
            let head = buf@.take(nul_pos(buf@, 0u16) as int);
            r@ == utf16_lossy(head)
        }),
{
    let mut end: usize = 0;
    let mut units: Vec<u16> = Vec::new();
    while end < buf.len() && buf[end] != 0
        invariant
            end <= buf@.len(),
            units@ == buf@.take(end as int),
            forall|i: int| 0 <= i < end ==> buf@[i] != 0u16,
        decreases buf@.len() - end,
    {
        units.push(buf[end]);
        end += 1;
        assert(units@ =~= buf@.take(end as int));
    }
    proof {
        lemma_nul_pos_exact(buf@, 0u16, end as int);
    }
    from_utf16_lossy(units.as_slice())
}

/// Decode an 8-byte PE section name (read as a little-endian i64) to text:
/// its bytes before the first zero, decoded lossily as UTF-8.
pub fn section_name(name_le: i64) -> (r: String)
    ensures
        ({
            let bytes = le_bytes(name_le as u64 as nat, 8);
            let head = bytes.take(nul_pos(bytes, 0u8) as int);
            &&& r@ == utf8_lossy(head)
            &&& valid_utf8(head) ==> r@ == decode_utf8(head)
        }),
{
    let ghost bytes = le_bytes(name_le as u64 as nat, 8);
    let mut v: u64 = name_le as u64;
    let mut all: Vec<u8> = Vec::new();
    let mut k: usize = 0;
    while k < 8
        invariant
            k <= 8,
            all@.len() == k,
            all@ + le_bytes(v as nat, (8 - k) as nat) == bytes,
        decreases 8 - k,
    {
        let ghost old_all = all@;
        assert(le_bytes(v as nat, (8 - k) as nat) == seq![(v % 256) as u8] + le_bytes(
            (v / 256) as nat,
            (8 - k - 1) as nat,
        ));
        all.push((v % 256) as u8);
        v = v / 256;
        k += 1;
        assert(all@ + le_bytes(v as nat, (8 - k) as nat) =~= bytes);
    }
    assert(le_bytes(v as nat, 0) =~= Seq::<u8>::empty());
    assert(all@ =~= bytes);
    let mut end: usize = 0;
    let mut head: Vec<u8> = Vec::new();
    while end < 8 && all[end] != 0
        invariant
            end <= 8,
            all@.len() == 8,
            head@ == all@.take(end as int),
            forall|i: int| 0 <= i < end ==> all@[i] != 0u8,
        decreases 8 - end,
    {
        head.push(all[end]);
        end += 1;
        assert(head@ =~= all@.take(end as int));
    }
    proof {
        lemma_nul_pos_exact(all@, 0u8, end as int);
    }
    from_utf8_lossy(head.as_slice())
}

/// A readable name of a PE `Machine` value.
pub fn machine_name(machine: u16) -> (r: &'static str)
    ensures
        machine == 0x8664 ==> r@ == "x64"@,
        machine == 0x014C ==> r@ == "x86"@,
        machine == 0xAA64 ==> r@ == "arm64"@,
        machine != 0x8664 && machine != 0x014C && machine != 0xAA64 ==> r@ == "unknown"@,
{
    if machine == 0x8664 {
        "x64"
    } else if machine == 0x014C {
        "x86"
    } else if machine == 0xAA64 {
        "arm64"
    } else {
        "unknown"
    }
}

/// Whether a module's name is `target`, ignoring ASCII case.
pub fn module_name_matches(name: &str, target: &str) -> (r: bool)
    ensures
        r == (ascii_lower(name@) == ascii_lower(target@)),
{
    let a = to_ascii_lowercase(name);
    let b = to_ascii_lowercase(target);
    a.eq(&b)
}

/// One entry of a process's module snapshot.
pub struct ModuleEntry {
    /// The module's file name (its `szModule`, up to the NUL).
    pub name: String,
    /// `modBaseAddr`.
    pub base: usize,
    /// `modBaseSize`.
    pub size: usize,
}

/// The entry names the module `target`, ignoring ASCII case.
pub open spec fn module_is(e: ModuleEntry, target: Seq<char>) -> bool {
    ascii_lower(e.name@) == ascii_lower(target)
}

/// Entry `k` is the first one of `entries` that names `target`.
pub open spec fn is_first_module(entries: Seq<ModuleEntry>, target: Seq<char>, k: int) -> bool {
    &&& 0 <= k < entries.len()
    &&& module_is(entries[k], target)
    &&& forall|j: int| 0 <= j < k ==> !module_is(#[trigger] entries[j], target)
}

/// The base address and image size of the first entry of the snapshot (in
/// enumeration order) whose name is `target`, ignoring ASCII case; `None`
/// when no entry has that name.
pub fn find_module(entries: &Vec<ModuleEntry>, target: &str) -> (r: Option<(usize, usize)>)
    ensures
        match r {
            Some((b, sz)) => exists|k: int|
                #![trigger entries@[k]]
                is_first_module(entries@, target@, k) && entries@[k].base == b && entries@[k].size == sz,
            None => forall|k: int| 0 <= k < entries@.len() ==> !module_is(#[trigger] entries@[k], target@),
        },
{
    let mut i: usize = 0;
    while i < entries.len()
        invariant
            i <= entries@.len(),
            forall|j: int| 0 <= j < i ==> !module_is(#[trigger] entries@[j], target@),
        decreases entries@.len() - i,
    {
        let e = &entries[i];
        if module_name_matches(e.name.as_str(), target) {
            assert(is_first_module(entries@, target@, i as int));
            return Some((e.base, e.size));
        }
        i += 1;
    }
    None
}

/// Law: the first entry naming the module wins; any later entry with the
/// same name is not used.
pub proof fn law_first_module_wins(entries: Seq<ModuleEntry>, target: Seq<char>, k: int, j: int)
    requires
        is_first_module(entries, target, k),
        is_first_module(entries, target, j),
    ensures
        k == j,
{
    if k < j {
        assert(!module_is(entries[k], target));
    } else if j < k {
        assert(!module_is(entries[j], target));
    }
}

// ---------------------------------------------------------------------------
// PE `.text` scan
// ---------------------------------------------------------------------------

/// `.text\0\0\0` read as a little-endian i64.
pub const DOT_TEXT: i64 = 0x0074_7865_742E;

/// `sizeof(IMAGE_SECTION_HEADER)`.
pub const SECTION_HEADER_SIZE: usize = 40;

/// A read the scan needs next.
#[derive(Clone, Copy, PartialEq, Eq, Structural)]
pub enum PeRead {
    I16(usize),
    I32(usize),
    I64(usize),
    /// `len` bytes from `addr` (a read may return fewer).
    Bytes(usize, usize),
}

/// A value read for a [`PeRead::I16`], [`PeRead::I32`] or [`PeRead::I64`] request.
#[derive(Clone, Copy, PartialEq, Eq, Structural)]
pub enum PeValue {
    I16(i16),
    I32(i32),
    I64(i64),
}

/// Where the scan of a module's headers stands.
#[derive(Clone, Copy, PartialEq, Eq, Structural)]
pub enum PeStage {
    /// Waiting for `e_lfanew` (i32 at base + 0x3C).
    NtOffset,
    /// Waiting for the `Machine` field (i16 at the file header).
    Machine { nt: usize },
    /// Waiting for `NumberOfSections` (i16 at nt + 6).
    Sections { nt: usize },
    /// Waiting for `SizeOfOptionalHeader` (i16 at file header + 16).
    OptSize { nt: usize, sections: usize },
    /// Waiting for the name (i64) of section header `index` at `cursor`.
    Name { cursor: usize, index: usize, sections: usize },
    /// Waiting for its `VirtualSize` (i32 at cursor + 8).
    VirtSize { cursor: usize, index: usize, sections: usize, name: i64 },
    /// Waiting for its `VirtualAddress` (i32 at cursor + 12).
    VirtAddr { cursor: usize, index: usize, sections: usize, name: i64, vsize: usize },
    /// Waiting for the bytes of the `.text` section.
    Text { start: usize, len: usize },
    /// Finished: the absolute address of the match, if any.
    Done(Option<usize>),
}

/// The section index of a header stage is below the section count.
pub open spec fn pe_stage_ok(stage: PeStage) -> bool {
    match stage {
        PeStage::Name { index, sections, .. } => index < sections,
        PeStage::VirtSize { index, sections, .. } => index < sections,
        PeStage::VirtAddr { index, sections, .. } => index < sections,
        _ => true,
    }
}

/// The read that `stage` waits for, for a module based at `base`.
pub open spec fn pe_request(stage: PeStage, base: usize) -> Option<PeRead> {
    match stage {
        PeStage::NtOffset => Some(PeRead::I32(base.wrapping_add(0x3C))),
        PeStage::Machine { nt } => Some(PeRead::I16(nt.wrapping_add(4))),
        PeStage::Sections { nt } => Some(PeRead::I16(nt.wrapping_add(6))),
        PeStage::OptSize { nt, .. } => Some(PeRead::I16(nt.wrapping_add(4).wrapping_add(16))),
        PeStage::Name { cursor, .. } => Some(PeRead::I64(cursor)),
        PeStage::VirtSize { cursor, .. } => Some(PeRead::I32(cursor.wrapping_add(8))),
        PeStage::VirtAddr { cursor, .. } => Some(PeRead::I32(cursor.wrapping_add(12))),
        PeStage::Text { start, len } => Some(PeRead::Bytes(start, len)),
        PeStage::Done(_) => None,
    }
}

/// A value of the kind that `stage` waits for.
pub open spec fn pe_value_fits(stage: PeStage, v: PeValue) -> bool {
    match pe_request(stage, 0) {
        Some(PeRead::I16(_)) => v is I16,
        Some(PeRead::I32(_)) => v is I32,
        Some(PeRead::I64(_)) => v is I64,
        _ => false,
    }
}

pub open spec fn value_i64(v: PeValue) -> i64 {
    match v {
        PeValue::I16(x) => x as i64,
        PeValue::I32(x) => x as i64,
        PeValue::I64(x) => x,
    }
}

/// The stage after `stage` received the integer `v`.
pub open spec fn pe_after(stage: PeStage, base: usize, v: i64) -> PeStage {
    match stage {
        PeStage::NtOffset => PeStage::Machine { nt: base.wrapping_add(v as usize) },
        PeStage::Machine { nt } => PeStage::Sections { nt },
        PeStage::Sections { nt } => PeStage::OptSize { nt, sections: v as usize },
        PeStage::OptSize { nt, sections } => {
            let cursor = nt.wrapping_add(4).wrapping_add(20).wrapping_add(v as usize);
            if 0 < sections {
                PeStage::Name { cursor, index: 0, sections }
            } else {
                PeStage::Done(None)
            }
        },
        PeStage::Name { cursor, index, sections } => PeStage::VirtSize {
            cursor,
            index,
            sections,
            name: v,
        },
        PeStage::VirtSize { cursor, index, sections, name } => PeStage::VirtAddr {
            cursor,
            index,
            sections,
            name,
            vsize: v as usize,
        },
        PeStage::VirtAddr { cursor, index, sections, name, vsize } => {
            if name == DOT_TEXT {
                PeStage::Text { start: base.wrapping_add(v as usize), len: vsize }
            } else if index + 1 < sections {
                PeStage::Name {
                    cursor: cursor.wrapping_add(SECTION_HEADER_SIZE),
                    index: (index + 1) as usize,
                    sections,
                }
            } else {
                PeStage::Done(None)
            }
        },
        _ => stage,
    }
}

/// Scan of the `.text` section of a module for a signature.
pub struct PeScan {
    base: usize,
    pattern: Vec<Option<u8>>,
    stage: PeStage,
}

impl PeScan {
    pub closed spec fn base(&self) -> usize {
        self.base
    }

    pub closed spec fn pattern(&self) -> Seq<Option<u8>> {
        self.pattern@
    }

    pub closed spec fn stage(&self) -> PeStage {
        self.stage
    }

    pub closed spec fn wf(&self) -> bool {
        pe_stage_ok(self.stage)
    }

    /// Start scanning the module based at `module_base` for `signature`.
    pub fn new(signature: &str, module_base: usize) -> (r: Self)
        ensures
            r.base() == module_base,
            r.pattern() == signature_pattern(signature@),
            r.stage() == PeStage::NtOffset,
            r.wf(),
    {
        PeScan { base: module_base, pattern: parse_signature(signature), stage: PeStage::NtOffset }
    }

    /// Where the scan stands.
    pub fn current_stage(&self) -> (r: PeStage)
        ensures
            r == self.stage(),
    {
        self.stage
    }

    /// The read to perform next, or `None` when the scan is finished.
    pub fn next_read(&self) -> (r: Option<PeRead>)
        ensures
            r == pe_request(self.stage(), self.base()),
    {
        match self.stage {
            PeStage::NtOffset => Some(PeRead::I32(self.base.wrapping_add(0x3C))),
            PeStage::Machine { nt } => Some(PeRead::I16(nt.wrapping_add(4))),
            PeStage::Sections { nt } => Some(PeRead::I16(nt.wrapping_add(6))),
            PeStage::OptSize { nt, .. } => Some(PeRead::I16(nt.wrapping_add(4).wrapping_add(16))),
            PeStage::Name { cursor, .. } => Some(PeRead::I64(cursor)),
            PeStage::VirtSize { cursor, .. } => Some(PeRead::I32(cursor.wrapping_add(8))),
            PeStage::VirtAddr { cursor, .. } => Some(PeRead::I32(cursor.wrapping_add(12))),
            PeStage::Text { start, len } => Some(PeRead::Bytes(start, len)),
            PeStage::Done(_) => None,
        }
    }

    /// The result, once the scan is finished.
    pub fn result(&self) -> (r: Option<Option<usize>>)
        ensures
            r == (match self.stage() {
                PeStage::Done(x) => Some(x),
                _ => None,
            }),
    {
        match self.stage {
            PeStage::Done(x) => Some(x),
            _ => None,
        }
    }

    /// Take the integer read for the pending [`PeRead::I16`], [`PeRead::I32`]
    /// or [`PeRead::I64`] request.
    pub fn feed(&mut self, v: PeValue)
        requires
            old(self).wf(),
            pe_value_fits(old(self).stage(), v),
        ensures
            final(self).wf(),
            final(self).base() == old(self).base(),
            final(self).pattern() == old(self).pattern(),
            final(self).stage() == pe_after(old(self).stage(), old(self).base(), value_i64(v)),
    {
        let x: i64 = match v {
            PeValue::I16(a) => a as i64,
            PeValue::I32(a) => a as i64,
            PeValue::I64(a) => a,
        };
        let base = self.base;
        self.stage = match self.stage {
            PeStage::NtOffset => PeStage::Machine { nt: base.wrapping_add(x as usize) },
            PeStage::Machine { nt } => PeStage::Sections { nt },
            PeStage::Sections { nt } => PeStage::OptSize { nt, sections: x as usize },
            PeStage::OptSize { nt, sections } => {
                let cursor = nt.wrapping_add(4).wrapping_add(20).wrapping_add(x as usize);
                if 0 < sections {
                    PeStage::Name { cursor, index: 0, sections }
                } else {
                    PeStage::Done(None)
                }
            },
            PeStage::Name { cursor, index, sections } => PeStage::VirtSize {
                cursor,
                index,
                sections,
                name: x,
            },
            PeStage::VirtSize { cursor, index, sections, name } => PeStage::VirtAddr {
                cursor,
                index,
                sections,
                name,
                vsize: x as usize,
            },
            PeStage::VirtAddr { cursor, index, sections, name, vsize } => {
                if name == DOT_TEXT {
                    PeStage::Text { start: base.wrapping_add(x as usize), len: vsize }
                } else if index + 1 < sections {
                    PeStage::Name {
                        cursor: cursor.wrapping_add(SECTION_HEADER_SIZE),
                        index: index + 1,
                        sections,
                    }
                } else {
                    PeStage::Done(None)
                }
            },
            s => s,
        };
    }

    /// Take the bytes read for the pending [`PeRead::Bytes`] request (the
    /// `.text` section): the scan finishes with the address of the first
    /// match of the pattern, if any.
    pub fn feed_text(&mut self, block: &[u8])
        requires
            old(self).stage() is Text,
        ensures
            final(self).wf(),
            final(self).base() == old(self).base(),
            final(self).pattern() == old(self).pattern(),
            final(self).stage() == pe_after_text(old(self).stage(), old(self).pattern(), block@),
    {
        if let PeStage::Text { start, .. } = self.stage {
            let off = find_pattern_in(block, self.pattern.as_slice());
            self.stage = PeStage::Done(
                match off {
                    Some(o) => Some(start.wrapping_add(o)),
                    None => None,
                },
            );
        }
    }
}

/// The stage after the `.text` bytes `block` arrive at `stage`: finished,
/// with the absolute address of the first match of `pat`, if any.
pub open spec fn pe_after_text(stage: PeStage, pat: Seq<Option<u8>>, block: Seq<u8>) -> PeStage {
    match stage {
        PeStage::Text { start, .. } => PeStage::Done(
            match first_match_of(block, pat) {
                Some(o) => Some(start.wrapping_add(o)),
                None => None,
            },
        ),
        _ => stage,
    }
}

// ---------------------------------------------------------------------------
// The whole header walk over a memory image
// ---------------------------------------------------------------------------

/// `n` bytes of the memory image `mem` from `addr` on.
pub open spec fn image_bytes(mem: spec_fn(usize) -> u8, addr: usize, n: nat) -> Seq<u8> {
    Seq::new(n, |i: int| mem(addr.wrapping_add(i as usize)))
}

/// The little-endian integer of `n` bytes (2, 4 or 8) at `addr`,
/// sign-extended to 64 bits.
pub open spec fn image_int(mem: spec_fn(usize) -> u8, addr: usize, n: nat) -> i64 {
    if n == 2 {
        le_value(image_bytes(mem, addr, 2)) as i16 as i64
    } else if n == 4 {
        le_value(image_bytes(mem, addr, 4)) as i32 as i64
    } else {
        le_value(image_bytes(mem, addr, 8)) as i64
    }
}

/// What an integer request of the scan reads from `mem`.
pub open spec fn image_answer(mem: spec_fn(usize) -> u8, req: PeRead) -> i64 {
    match req {
        PeRead::I16(a) => image_int(mem, a, 2),
        PeRead::I32(a) => image_int(mem, a, 4),
        PeRead::I64(a) => image_int(mem, a, 8),
        PeRead::Bytes(a, _) => 0,
    }
}

/// The stage reached from `stage` after answering at most `n` integer
/// requests from `mem` (it stops at a `.text` request or when finished).
pub open spec fn pe_run(stage: PeStage, base: usize, mem: spec_fn(usize) -> u8, n: nat) -> PeStage
    decreases n,
{
    if n == 0 {
        stage
    } else {
        match pe_request(stage, base) {
            Some(PeRead::I16(a)) => pe_run(pe_after(stage, base, image_int(mem, a, 2)), base, mem, (n - 1) as nat),
            Some(PeRead::I32(a)) => pe_run(pe_after(stage, base, image_int(mem, a, 4)), base, mem, (n - 1) as nat),
            Some(PeRead::I64(a)) => pe_run(pe_after(stage, base, image_int(mem, a, 8)), base, mem, (n - 1) as nat),
            _ => stage,
        }
    }
}

/// The NT headers of the module based at `base` (`e_lfanew` at `base + 0x3C`).
pub open spec fn pe_nt(mem: spec_fn(usize) -> u8, base: usize) -> usize {
    base.wrapping_add(image_int(mem, base.wrapping_add(0x3C), 4) as usize)
}

/// `NumberOfSections`.
pub open spec fn pe_section_count(mem: spec_fn(usize) -> u8, base: usize) -> usize {
    image_int(mem, pe_nt(mem, base).wrapping_add(6), 2) as usize
}

/// The header of section `i`: section headers follow the optional header,
/// 40 bytes each.
pub open spec fn pe_section_header(mem: spec_fn(usize) -> u8, base: usize, i: nat) -> usize
    decreases i,
{
    if i == 0 {
        let nt = pe_nt(mem, base);
        nt.wrapping_add(4).wrapping_add(20).wrapping_add(
            image_int(mem, nt.wrapping_add(4).wrapping_add(16), 2) as usize,
        )
    } else {
        pe_section_header(mem, base, (i - 1) as nat).wrapping_add(SECTION_HEADER_SIZE)
    }
}

/// Section `i` is named `.text`.
pub open spec fn pe_is_text(mem: spec_fn(usize) -> u8, base: usize, i: nat) -> bool {
    image_int(mem, pe_section_header(mem, base, i), 8) == DOT_TEXT
}

/// The first `.text` section among the module's sections, as (absolute start,
/// virtual size), or `None` when there is none.
pub open spec fn pe_text_section(mem: spec_fn(usize) -> u8, base: usize) -> Option<(usize, usize)> {
    let n = pe_section_count(mem, base) as nat;
    if exists|i: nat| i < n && #[trigger] pe_is_text(mem, base, i) {
        let i = choose|i: nat|
            i < n && #[trigger] pe_is_text(mem, base, i) && forall|j: nat|
                j < i ==> !pe_is_text(mem, base, j);
        let h = pe_section_header(mem, base, i);
        Some(
            (
                base.wrapping_add(image_int(mem, h.wrapping_add(12), 4) as usize),
                image_int(mem, h.wrapping_add(8), 4) as usize,
            ),
        )
    } else {
        None
    }
}

/// The stage the scan of a module ends its header walk in.
pub open spec fn pe_walk_end(mem: spec_fn(usize) -> u8, base: usize) -> PeStage {
    match pe_text_section(mem, base) {
        Some((start, len)) => PeStage::Text { start, len },
        None => PeStage::Done(None),
    }
}

proof fn lemma_pe_run_stays(stage: PeStage, base: usize, mem: spec_fn(usize) -> u8, n: nat)
    requires
        stage is Text || stage is Done,
    ensures
        pe_run(stage, base, mem, n) == stage,
{
    reveal_with_fuel(pe_run, 2);
}

/// Walking the section headers from header `i` on, when none before it is
/// `.text`, ends where `pe_walk_end` says.
proof fn lemma_pe_sections(mem: spec_fn(usize) -> u8, base: usize, i: nat)
    requires
        i < pe_section_count(mem, base),
        forall|j: nat| j < i ==> !#[trigger] pe_is_text(mem, base, j),
    ensures
        pe_run(
            PeStage::Name {
                cursor: pe_section_header(mem, base, i),
                index: i as usize,
                sections: pe_section_count(mem, base),
            },
            base,
            mem,
            (3 * (pe_section_count(mem, base) - i)) as nat,
        ) == pe_walk_end(mem, base),
    decreases pe_section_count(mem, base) - i,
{
    let count = pe_section_count(mem, base);
    let h = pe_section_header(mem, base, i);
    let n = (3 * (count - i)) as nat;
    let name = image_int(mem, h, 8);
    let vsize = image_int(mem, h.wrapping_add(8), 4) as usize;
    let s0 = PeStage::Name { cursor: h, index: i as usize, sections: count };
    let s1 = PeStage::VirtSize { cursor: h, index: i as usize, sections: count, name };
    let s2 = PeStage::VirtAddr { cursor: h, index: i as usize, sections: count, name, vsize };
    let s3 = pe_after(s2, base, image_int(mem, h.wrapping_add(12), 4));
    assert(pe_run(s0, base, mem, n) == pe_run(s1, base, mem, (n - 1) as nat));
    assert(pe_run(s1, base, mem, (n - 1) as nat) == pe_run(s2, base, mem, (n - 2) as nat));
    assert(pe_run(s2, base, mem, (n - 2) as nat) == pe_run(s3, base, mem, (n - 3) as nat));
    if pe_is_text(mem, base, i) {
        assert(s3 == PeStage::Text {
            start: base.wrapping_add(image_int(mem, h.wrapping_add(12), 4) as usize),
            len: vsize,
        });
        lemma_pe_run_stays(s3, base, mem, (n - 3) as nat);
        let c = choose|c: nat|
            c < count as nat && #[trigger] pe_is_text(mem, base, c) && forall|j: nat|
                j < c ==> !pe_is_text(mem, base, j);
        assert(c == i) by {
            if c < i {
                assert(!pe_is_text(mem, base, c));
            } else if c > i {
                assert(!pe_is_text(mem, base, i));
            }
        }
    } else if i + 1 < count {
        assert(pe_section_header(mem, base, i + 1) == h.wrapping_add(SECTION_HEADER_SIZE));
        assert(s3 == PeStage::Name {
            cursor: pe_section_header(mem, base, i + 1),
            index: (i + 1) as usize,
            sections: count,
        });
        assert forall|j: nat| j < i + 1 implies !#[trigger] pe_is_text(mem, base, j) by {
            if j < i {
            }
        }
        lemma_pe_sections(mem, base, i + 1);
        assert((n - 3) as nat == (3 * (count - (i + 1))) as nat);
    } else {
        assert(s3 == PeStage::Done(None));
        lemma_pe_run_stays(s3, base, mem, (n - 3) as nat);
        assert forall|j: nat| j < count as nat implies !#[trigger] pe_is_text(mem, base, j) by {
            if j < i {
            }
        }
    }
}

/// Law: answering each header read of a scan from a memory image brings the
/// scan to the module's first `.text` section (the section named `.text`
/// whose header comes first; its start is relative to the module base), or
/// finishes it without a match when no section is named `.text`; the bytes of
/// that section are then searched by `feed_text`.
pub proof fn law_pe_walk_reaches_text(mem: spec_fn(usize) -> u8, base: usize)
    ensures
        pe_run(PeStage::NtOffset, base, mem, (4 + 3 * pe_section_count(mem, base)) as nat)
            == pe_walk_end(mem, base),
{
    let count = pe_section_count(mem, base);
    let nt = pe_nt(mem, base);
    let n = (4 + 3 * count) as nat;
    let s1 = PeStage::Machine { nt };
    let s2 = PeStage::Sections { nt };
    let s3 = PeStage::OptSize { nt, sections: count };
    let s4 = pe_after(s3, base, image_int(mem, nt.wrapping_add(4).wrapping_add(16), 2));
    assert(pe_run(PeStage::NtOffset, base, mem, n) == pe_run(s1, base, mem, (n - 1) as nat));
    assert(pe_run(s1, base, mem, (n - 1) as nat) == pe_run(s2, base, mem, (n - 2) as nat));
    assert(pe_run(s2, base, mem, (n - 2) as nat) == pe_run(s3, base, mem, (n - 3) as nat));
    assert(pe_run(s3, base, mem, (n - 3) as nat) == pe_run(s4, base, mem, (n - 4) as nat));
    if 0 < count {
        assert(s4 == PeStage::Name {
            cursor: pe_section_header(mem, base, 0),
            index: 0usize,
            sections: count,
        });
        lemma_pe_sections(mem, base, 0);
    } else {
        assert(s4 == PeStage::Done(None));
        lemma_pe_run_stays(s4, base, mem, (n - 4) as nat);
    }
}

/// What a scan of the module based at `base` in `mem` for `pat` answers,
/// when `block` is what reading its first `.text` section gave: the absolute
/// address of the first match in that block, or `None` when the module has
/// no `.text` section or the block holds no match.
pub open spec fn pe_find(mem: spec_fn(usize) -> u8, base: usize, pat: Seq<Option<u8>>, block: Seq<u8>) -> Option<usize> {
    match pe_text_section(mem, base) {
        Some((start, _)) => match first_match_of(block, pat) {
            Some(o) => Some(start.wrapping_add(o)),
            None => None,
        },
        None => None,
    }
}

/// Law: a whole scan (the header reads answered from `mem`, then the `.text`
/// bytes as read, `block`) finishes with the address of the first match of
/// the signature's pattern in the first `.text` section, or `None`.
pub proof fn law_pe_scan_finds_first_match(
    mem: spec_fn(usize) -> u8,
    base: usize,
    sig: Seq<char>,
    block: Seq<u8>,
)
    ensures
        pe_after_text(
            pe_run(PeStage::NtOffset, base, mem, (4 + 3 * pe_section_count(mem, base)) as nat),
            signature_pattern(sig),
            block,
        ) == PeStage::Done(pe_find(mem, base, signature_pattern(sig), block)),
{
    law_pe_walk_reaches_text(mem, base);
}

// ---------------------------------------------------------------------------
// MSVC std::string
// ---------------------------------------------------------------------------

/// Offset of the length field in an MSVC `std::string`.
pub const STD_STRING_LEN_OFFSET: usize = 0x10;

/// Longest string kept inline (small-string optimisation).
pub const STD_STRING_INLINE_MAX: usize = 15;

/// Where the bytes of a remote `std::string` are, given its length field.
#[derive(Clone, Copy, PartialEq, Eq, Structural)]
pub enum SsoLayout {
    /// Length not positive: the empty string.
    Empty,
    /// The bytes are inline at the string's base.
    Inline(usize),
    /// The bytes are behind the pointer stored at the string's base.
    Heap(usize),
}

pub open spec fn spec_sso_layout(len: i64) -> SsoLayout {
    if len <= 0 {
        SsoLayout::Empty
    } else if len as usize <= 15 {
        SsoLayout::Inline(len as usize)
    } else {
        SsoLayout::Heap(len as usize)
    }
}

/// The layout of a `std::string` whose length field reads `len` (an i64 in a
/// 64-bit process; a 32-bit process's i32, widened).
pub fn sso_layout(len: i64) -> (r: SsoLayout)
    ensures
        r == spec_sso_layout(len),
        len <= 0 ==> r == SsoLayout::Empty,
        0 < len <= 15 ==> r == SsoLayout::Inline(len as usize),
        15 < len <= usize::MAX ==> r == SsoLayout::Heap(len as usize),
{
    if len <= 0 {
        SsoLayout::Empty
    } else {
        let l = len as usize;
        if l <= STD_STRING_INLINE_MAX {
            SsoLayout::Inline(l)
        } else {
            SsoLayout::Heap(l)
        }
    }
}

/// The number of bytes to read for a `std::string` of layout `l`.
pub open spec fn sso_byte_count(l: SsoLayout) -> nat {
    match l {
        SsoLayout::Empty => 0,
        SsoLayout::Inline(n) => n as nat,
        SsoLayout::Heap(n) => n as nat,
    }
}

/// Law: the bytes read for a remote `std::string` are exactly as many as its
/// length field says (none for a length that is not positive), inline up to
/// 15 bytes and behind the pointer beyond.
pub proof fn law_sso_reads_whole_string(len: i64)
    requires
        len <= usize::MAX,
    ensures
        sso_byte_count(spec_sso_layout(len)) == if len <= 0 {
            0
        } else {
            len as int
        },
        (spec_sso_layout(len) is Inline) <==> 0 < len <= 15,
        (spec_sso_layout(len) is Heap) <==> 15 < len,
        (spec_sso_layout(len) is Empty) <==> len <= 0,
{
}

/// The address of the length field of the `std::string` at `base`.
pub fn std_string_len_addr(base: usize) -> (r: usize)
    ensures
        r == base.wrapping_add(STD_STRING_LEN_OFFSET),
{
    base.wrapping_add(STD_STRING_LEN_OFFSET)
}

/// The text of a remote `std::string` of layout `layout`, given its bytes as
/// read (`None` when the read failed): the empty string needs no bytes, the
/// others are decoded as UTF-8 with invalid sequences replaced.
pub fn std_string_text(layout: SsoLayout, bytes: Option<&[u8]>) -> (r: Option<String>)
    ensures
        layout is Empty ==> (r matches Some(s) && s@.len() == 0),
        !(layout is Empty) ==> match bytes {
            Some(b) => r matches Some(s) && s@ == utf8_lossy(b@) && (valid_utf8(b@) ==> s@
                == decode_utf8(b@)),
            None => r is None,
        },
{
    match layout {
        SsoLayout::Empty => Some(String::new()),
        _ => match bytes {
            Some(b) => Some(from_utf8_lossy(b)),
            None => None,
        },
    }
}

// ---------------------------------------------------------------------------
// Best-effort region read
// ---------------------------------------------------------------------------

/// Size of one read of a best-effort region read.
pub const REGION_CHUNK: usize = 0x40000;

/// `dst` with `src[..n]` written at `at`, where `n` is the shorter of the chunk
/// length `len` and what was read.
pub open spec fn splice(dst: Seq<u8>, at: int, src: Seq<u8>, len: int) -> Seq<u8> {
    let n = if src.len() < len {
        src.len() as int
    } else {
        len
    };
    Seq::new(
        dst.len(),
        |i: int|
            if at <= i < at + n {
                src[i - at]
            } else {
                dst[i]
            },
    )
}

/// Best-effort read of a whole region into one buffer, chunk by chunk;
/// unreadable chunks are left as zeros.
pub struct RegionRead {
    base: usize,
    size: usize,
    off: usize,
    buf: Vec<u8>,
}

impl RegionRead {
    pub closed spec fn base(&self) -> usize {
        self.base
    }

    pub closed spec fn size(&self) -> usize {
        self.size
    }

    /// How many bytes of the region have been handled.
    pub closed spec fn offset(&self) -> usize {
        self.off
    }

    /// The buffer so far.
    pub closed spec fn buffer(&self) -> Seq<u8> {
        self.buf@
    }

    pub closed spec fn wf(&self) -> bool {
        self.off <= self.size && self.buf@.len() == self.size
    }

    /// Start reading `size` bytes from `base`: the buffer is all zeros.
    pub fn new(base: usize, size: usize) -> (r: Self)
        ensures
            r.wf(),
            r.base() == base,
            r.size() == size,
            r.offset() == 0,
            r.buffer() == Seq::new(size as nat, |i: int| 0u8),
    {
        let mut buf: Vec<u8> = Vec::new();
        let mut i: usize = 0;
        while i < size
            invariant
                i <= size,
                buf@ == Seq::new(i as nat, |k: int| 0u8),
            decreases size - i,
        {
            buf.push(0);
            i += 1;
            assert(buf@ =~= Seq::new(i as nat, |k: int| 0u8));
        }
        RegionRead { base, size, off: 0, buf }
    }

    /// The next chunk to read, as (address, length), or `None` when done.
    pub fn next_chunk(&self) -> (r: Option<(usize, usize)>)
        requires
            self.wf(),
        ensures
            self.offset() < self.size() ==> r == Some(
                (
                    self.base().wrapping_add(self.offset()),
                    if REGION_CHUNK < self.size() - self.offset() {
                        REGION_CHUNK
                    } else {
                        (self.size() - self.offset()) as usize
                    },
                ),
            ),
            self.offset() >= self.size() ==> r is None,
    {
        if self.off < self.size {
            let rest = self.size - self.off;
            let len = if REGION_CHUNK < rest {
                REGION_CHUNK
            } else {
                rest
            };
            Some((self.base.wrapping_add(self.off), len))
        } else {
            None
        }
    }

    /// Take the outcome of reading the pending chunk: its bytes, or `None`
    /// when the read failed (the chunk stays zero).
    pub fn feed(&mut self, bytes: Option<&[u8]>)
        requires
            old(self).wf(),
            old(self).offset() < old(self).size(),
        ensures
            final(self).wf(),
            final(self).base() == old(self).base(),
            final(self).size() == old(self).size(),
            ({
                let len = if REGION_CHUNK < old(self).size() - old(self).offset() {
                    REGION_CHUNK as int
                } else {
                    old(self).size() - old(self).offset()
                };
                &&& final(self).offset() == old(self).offset() + len
                &&& final(self).buffer() == match bytes {
                    Some(b) => splice(old(self).buffer(), old(self).offset() as int, b@, len),
                    None => old(self).buffer(),
                }
            }),
    {
        let rest = self.size - self.off;
        let len = if REGION_CHUNK < rest {
            REGION_CHUNK
        } else {
            rest
        };
        if let Some(b) = bytes {
            let n = if b.len() < len {
                b.len()
            } else {
                len
            };
            let ghost dst = self.buf@;
            let ghost at = self.off as int;
            let ghost b0 = self.base;
            let mut i: usize = 0;
            while i < n
                invariant
                    i <= n <= len,
                    n <= b@.len(),
                    n as int == (if b@.len() < len {
                        b@.len() as int
                    } else {
                        len as int
                    }),
                    self.off + len <= self.size,
                    self.base == b0,
                    self.size == dst.len(),
                    at == self.off,
                    self.buf@.len() == dst.len(),
                    forall|k: int|
                        0 <= k < dst.len() ==> #[trigger] self.buf@[k] == (if at <= k < at + i {
                            b@[k - at]
                        } else {
                            dst[k]
                        }),
                decreases n - i,
            {
                self.buf.set(self.off + i, b[i]);
                i += 1;
            }
            assert(self.buf@ =~= splice(dst, at, b@, len as int));
        }
        self.off = self.off + len;
    }

    /// The buffer, once every chunk has been handled.
    pub fn finish(self) -> (r: Vec<u8>)
        requires
            self.wf(),
        ensures
            r@ == self.buffer(),
            r@.len() == self.size(),
    {
        self.buf
    }
}

/// Length of the chunk read at offset `off` of a region of `size` bytes.
pub open spec fn chunk_len(size: nat, off: nat) -> nat {
    if REGION_CHUNK < size - off {
        REGION_CHUNK as nat
    } else {
        (size - off) as nat
    }
}

/// The index of the chunk that holds offset `i`.
pub open spec fn chunk_of(i: int) -> nat {
    (i / REGION_CHUNK as int) as nat
}

/// The buffer of a best-effort read of `size` bytes holding `buf` with the
/// chunks before `off` handled, when the read of chunk `c` (offsets
/// `c * REGION_CHUNK ..`) gives `reads(c)`: its bytes (possibly fewer than
/// asked, possibly more), or `None` when it failed. This is what
/// [`RegionRead::feed`] does chunk after chunk.
pub open spec fn region_fill(
    buf: Seq<u8>,
    size: nat,
    off: nat,
    reads: spec_fn(nat) -> Option<Seq<u8>>,
) -> Seq<u8>
    decreases size + REGION_CHUNK - off,
{
    if off >= size {
        buf
    } else {
        let len = chunk_len(size, off);
        let next = match reads(chunk_of(off as int)) {
            Some(b) => splice(buf, off as int, b, len as int),
            None => buf,
        };
        region_fill(next, size, off + len, reads)
    }
}

/// Byte `i` of a best-effort read: the byte the read of its chunk returned
/// at that place, zero when that read failed or returned too few bytes.
pub open spec fn region_byte(reads: spec_fn(nat) -> Option<Seq<u8>>, i: int) -> u8 {
    let c = chunk_of(i);
    match reads(c) {
        Some(b) => if i - c * REGION_CHUNK < b.len() {
            b[i - c * REGION_CHUNK]
        } else {
            0u8
        },
        None => 0u8,
    }
}

proof fn lemma_chunk_index(c: nat, i: int)
    requires
        c * 0x40000 <= i < c * 0x40000 + 0x40000,
    ensures
        i / 0x40000 == c,
        chunk_of(i) == c,
{
    assert(i / 0x40000 == c) by (nonlinear_arith)
        requires
            c * 0x40000 <= i < c * 0x40000 + 0x40000,
    ;
}

proof fn lemma_region_fill(
    buf: Seq<u8>,
    size: nat,
    c: nat,
    reads: spec_fn(nat) -> Option<Seq<u8>>,
)
    requires
        buf.len() == size,
        c * REGION_CHUNK <= size,
    ensures
        ({
            let out = region_fill(buf, size, c * REGION_CHUNK as nat, reads);
            &&& out.len() == size
            &&& forall|i: int|
                0 <= i < size ==> #[trigger] out[i] == if i < c * REGION_CHUNK {
                    buf[i]
                } else if reads(chunk_of(i)) is Some && i - chunk_of(i) * REGION_CHUNK
                    < reads(chunk_of(i))->0.len() {
                    region_byte(reads, i)
                } else {
                    buf[i]
                }
        }),
    decreases size + REGION_CHUNK - c * REGION_CHUNK,
{
    let off = c * REGION_CHUNK as nat;
    if off < size {
        let len = chunk_len(size, off);
        let next = match reads(chunk_of(off as int)) {
            Some(b) => splice(buf, off as int, b, len as int),
            None => buf,
        };
        lemma_chunk_index(c, off as int);
        assert forall|i: int| off <= i < off + len implies #[trigger] chunk_of(i) == c by {
            lemma_chunk_index(c, i);
        }
        assert(region_fill(buf, size, off, reads) == region_fill(next, size, off + len, reads));
        if off + len < size {
            assert(off + len == (c + 1) * REGION_CHUNK);
            lemma_region_fill(next, size, c + 1, reads);
        } else {
            assert(region_fill(next, size, off + len, reads) == next);
        }
    }
}

/// Law: a best-effort read that handles every chunk of a region in turn ends
/// with a buffer of the region's size whose byte `i` is what the read of its
/// chunk returned at that place; where that read failed or came back short,
/// the byte is zero.
pub proof fn law_region_read_fills_readable_chunks(size: usize, reads: spec_fn(nat) -> Option<Seq<u8>>)
    ensures
        ({
            let out = region_fill(Seq::new(size as nat, |i: int| 0u8), size as nat, 0, reads);
            &&& out.len() == size
            &&& forall|i: int| 0 <= i < size ==> #[trigger] out[i] == region_byte(reads, i)
        }),
{
    let zeros = Seq::new(size as nat, |i: int| 0u8);
    lemma_region_fill(zeros, size as nat, 0, reads);
    let out = region_fill(zeros, size as nat, 0, reads);
    assert forall|i: int| 0 <= i < size implies #[trigger] out[i] == region_byte(reads, i) by {
    }
}

// ---------------------------------------------------------------------------
// Writable regions (where a playback clock lives)
// ---------------------------------------------------------------------------

/// `MEM_COMMIT`.
pub const MEM_COMMIT: u32 = 0x1000;
/// `PAGE_NOACCESS`.
pub const PAGE_NOACCESS: u32 = 0x01;
/// `PAGE_READWRITE`.
pub const PAGE_READWRITE: u32 = 0x04;
/// `PAGE_WRITECOPY`.
pub const PAGE_WRITECOPY: u32 = 0x08;
/// `PAGE_EXECUTE_READWRITE`.
pub const PAGE_EXECUTE_READWRITE: u32 = 0x40;
/// `PAGE_EXECUTE_WRITECOPY`.
pub const PAGE_EXECUTE_WRITECOPY: u32 = 0x80;
/// `PAGE_GUARD`.
pub const PAGE_GUARD: u32 = 0x100;

/// Highest address of the region walk (32-bit user space, large-address-aware).
pub const REGION_WALK_MAX: usize = 0xFFFF_FFFF;

/// What the region walk does with one `VirtualQueryEx` answer.
pub struct RegionStep {
    /// Keep the region as a scan target.
    pub keep: bool,
    /// Where to query next, or `None` to stop.
    pub next: Option<usize>,
}

pub open spec fn writable_mask() -> u32 {
    PAGE_READWRITE | PAGE_WRITECOPY | PAGE_EXECUTE_READWRITE | PAGE_EXECUTE_WRITECOPY
}

/// One step of the walk over a process's address space: the query at `addr`
/// answered a region at `base` of `size` bytes in `state` with `protect`.
/// A region is kept when it is committed, writable and neither a guard page
/// nor inaccessible. The walk stops on an empty region or when the next base
/// overflows, does not advance, or passes [`REGION_WALK_MAX`].
pub fn region_step(addr: usize, base: usize, size: usize, state: u32, protect: u32) -> (r:
    RegionStep)
    ensures
        size == 0 ==> !r.keep && r.next is None,
        size != 0 ==> r.keep == (state == MEM_COMMIT && protect & writable_mask() != 0 && protect
            & (PAGE_GUARD | PAGE_NOACCESS) == 0),
        size != 0 ==> r.next == (if base + size <= usize::MAX && base + size > addr && base + size
            <= REGION_WALK_MAX {
            Some((base + size) as usize)
        } else {
            None::<usize>
        }),
{
    if size == 0 {
        return RegionStep { keep: false, next: None };
    }
    let writable = protect & (PAGE_READWRITE | PAGE_WRITECOPY | PAGE_EXECUTE_READWRITE
        | PAGE_EXECUTE_WRITECOPY) != 0;
    let inaccessible = protect & (PAGE_GUARD | PAGE_NOACCESS) != 0;
    let keep = state == MEM_COMMIT && writable && !inaccessible;
    let next = match base.checked_add(size) {
        Some(n) => if n > addr && n <= REGION_WALK_MAX {
            Some(n)
        } else {
            None
        },
        None => None,
    };
    RegionStep { keep, next }
}

/// The snapshots a clock scan takes of `regions` (base, size) within a
/// budget: each region in turn up to what the budget has left, stopping once
/// the budget is spent.
pub open spec fn snapshot_plan(regions: Seq<(usize, usize)>, budget: nat) -> Seq<(usize, usize)>
    decreases regions.len(),
{
    if regions.len() == 0 || budget == 0 {
        seq![]
    } else {
        let (b, s) = regions[0];
        let take = if (s as nat) < budget {
            s as nat
        } else {
            budget
        };
        seq![(b, take as usize)] + snapshot_plan(regions.drop_first(), (budget - take) as nat)
    }
}

/// The total size of planned snapshots.
pub open spec fn total_size(plan: Seq<(usize, usize)>) -> nat
    decreases plan.len(),
{
    if plan.len() == 0 {
        0
    } else {
        plan[0].1 as nat + total_size(plan.drop_first())
    }
}

/// The snapshots to take of `regions` with at most `cap` bytes in all.
pub fn plan_snapshots(regions: &Vec<(usize, usize)>, cap: usize) -> (r: Vec<(usize, usize)>)
    ensures
        r@ == snapshot_plan(regions@, cap as nat),
{
    let mut out: Vec<(usize, usize)> = Vec::new();
    let mut used: usize = 0;
    let mut i: usize = 0;
    assert(regions@.skip(0) =~= regions@);
    while i < regions.len() && used < cap
        invariant
            i <= regions@.len(),
            used <= cap,
            snapshot_plan(regions@, cap as nat) == out@ + snapshot_plan(
                regions@.skip(i as int),
                (cap - used) as nat,
            ),
        decreases regions@.len() - i,
    {
        let ghost rest = regions@.skip(i as int);
        let (b, s) = regions[i];
        let take = if s < cap - used {
            s
        } else {
            cap - used
        };
        assert(rest.drop_first() =~= regions@.skip(i + 1));
        let ghost old_out = out@;
        out.push((b, take));
        used = used + take;
        i += 1;
        assert(out@ =~= old_out + seq![(b, take)]);
    }
    assert(snapshot_plan(regions@.skip(i as int), (cap - used) as nat) =~= Seq::<
        (usize, usize),
    >::empty()) by {
        if i < regions.len() {
            assert(used >= cap);
        } else {
            assert(regions@.skip(i as int).len() == 0);
        }
    }
    assert(out@ + Seq::<(usize, usize)>::empty() =~= out@);
    out
}

/// Law: the planned snapshots follow the regions in order, each at its
/// region's base and no larger than the region; when the regions fit well
/// within the budget, every region is planned whole.
pub proof fn law_snapshots_follow_regions(regions: Seq<(usize, usize)>, budget: nat)
    ensures
        snapshot_plan(regions, budget).len() <= regions.len(),
        forall|i: int|
            0 <= i < snapshot_plan(regions, budget).len() ==> (#[trigger] snapshot_plan(regions, budget)[i]).0
                == regions[i].0 && snapshot_plan(regions, budget)[i].1 <= regions[i].1,
        total_size(regions) < budget ==> snapshot_plan(regions, budget) == regions,
    decreases regions.len(),
{
    if regions.len() > 0 && budget > 0 {
        let (b, s) = regions[0];
        let take = if (s as nat) < budget {
            s as nat
        } else {
            budget
        };
        let rest = regions.drop_first();
        law_snapshots_follow_regions(rest, (budget - take) as nat);
        let p = snapshot_plan(regions, budget);
        assert(p.drop_first() =~= snapshot_plan(rest, (budget - take) as nat));
        assert forall|i: int| 0 <= i < p.len() implies (#[trigger] p[i]).0 == regions[i].0 && p[i].1
            <= regions[i].1 by {
            if i > 0 {
                assert(p[i] == p.drop_first()[i - 1]);
                assert(regions[i] == rest[i - 1]);
            }
        }
        if total_size(regions) < budget {
            assert(total_size(regions) == s + total_size(rest));
            assert(p =~= regions) by {
                assert(p[0] == regions[0]);
                assert forall|i: int| 0 <= i < p.len() implies p[i] == regions[i] by {
                    if i > 0 {
                        assert(p[i] == p.drop_first()[i - 1]);
                        assert(regions[i] == rest[i - 1]);
                    }
                }
            }
        }
    }
}

/// Law: a clock scan never plans more than its budget.
pub proof fn law_snapshots_within_budget(regions: Seq<(usize, usize)>, budget: nat)
    ensures
        total_size(snapshot_plan(regions, budget)) <= budget,
    decreases regions.len(),
{
    if regions.len() > 0 && budget > 0 {
        let (b, s) = regions[0];
        let take = if (s as nat) < budget {
            s as nat
        } else {
            budget
        };
        law_snapshots_within_budget(regions.drop_first(), (budget - take) as nat);
        let p = snapshot_plan(regions, budget);
        assert(p.drop_first() =~= snapshot_plan(regions.drop_first(), (budget - take) as nat));
    }
}

// ---------------------------------------------------------------------------
// Playback clock formats
// ---------------------------------------------------------------------------

/// How a playback-clock value is encoded in memory. Different NetEase builds
/// use different types/units, so the clock search tries them all.
#[derive(Clone, Copy, Debug, PartialEq, Eq, Structural)]
pub enum ClockFormat {
    F64Sec,
    F64Ms,
    F32Sec,
    F32Ms,
    I32Ms,
}

/// How many bytes a value of format `f` takes.
pub open spec fn clock_width(f: ClockFormat) -> usize {
    if f == ClockFormat::F64Sec || f == ClockFormat::F64Ms {
        8usize
    } else {
        4usize
    }
}

impl ClockFormat {
    /// How many bytes a value of this format takes.
    pub fn width(&self) -> (r: usize)
        ensures
            r == clock_width(*self),
    {
        match self {
            ClockFormat::F64Sec | ClockFormat::F64Ms => 8,
            _ => 4,
        }
    }

    /// The raw little-endian value of this format's bytes at `buf[i..]` (the
    /// bits of the float, or the integer's bits), `None` when they run past
    /// the end of `buf`.
    pub fn raw_at(&self, buf: &[u8], i: usize) -> (r: Option<u64>)
        ensures
            ({
                let w = clock_width(*self) as int;
                &&& i + w <= buf@.len() ==> r == Some(le_value(buf@.subrange(i as int, i + w)) as u64)
                &&& i + w > buf@.len() ==> r is None
            }),
    {
        let w = self.width();
        if i > buf.len() || buf.len() - i < w {
            return None;
        }
        let b = &buf[i..i + w];
        assert(b@.take(w as int) =~= b@);
        if w == 8 {
            le_u64(b)
        } else {
            match le_u32(b) {
                Some(u) => Some(u as u64),
                None => None,
            }
        }
    }

    /// Whether the value counts milliseconds (seconds otherwise).
    pub fn in_millis(&self) -> (r: bool)
        ensures
            r == (*self == ClockFormat::F64Ms || *self == ClockFormat::F32Ms || *self
                == ClockFormat::I32Ms),
    {
        match self {
            ClockFormat::F64Ms | ClockFormat::F32Ms | ClockFormat::I32Ms => true,
            _ => false,
        }
    }
}

} // verus!
