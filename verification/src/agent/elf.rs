//! Which shared libraries an old PostgreSQL installation actually needs.
//!
//! The binaries answer that themselves, in their `DT_NEEDED` entries. Reading
//! a file and looking for one belong to the caller; what the bytes say and
//! what to ask for next is decided here.

use crate::path::{
    any_above, any_same_path, below, file_name, file_name_of, in_path_order, in_path_order_sorts,
    join_path, joined_path, path_le, paths_differ, same_path, sort_paths,
};
use crate::text::{
    begins_with, clone_list, contains, find_from_is_first, in_list, is_at, occurs, rsplit_once, same,
    split, split_first, split_first_at, split_first_nowhere, split_last, split_last_at,
    split_last_none, split_on, split_once, starts_with, texts,
};
use vstd::prelude::*;
use vstd::string::*;

verus! {

/// What one ELF file says about its dynamic dependencies.
#[derive(Debug, Clone, PartialEq, Eq)]
pub struct DynamicInfo {
    /// `DT_NEEDED`: sonames, not paths.
    pub needed: Vec<String>,
    /// `DT_RPATH` and `DT_RUNPATH`, with `$ORIGIN` already expanded.
    pub search_paths: Vec<String>,
}

/// [`DynamicInfo`], over text.
pub struct DynamicView {
    pub needed: Seq<Seq<char>>,
    pub search_paths: Seq<Seq<char>>,
}

impl View for DynamicInfo {
    type V = DynamicView;

    open spec fn view(&self) -> DynamicView {
        DynamicView { needed: texts(self.needed@), search_paths: texts(self.search_paths@) }
    }
}

/// A file names an offset that no file position can hold.
#[derive(Debug, Clone, Copy, PartialEq, Eq, Structural)]
pub struct OffsetOutOfRange;

/// The largest file position.
pub const MAX_POSITION: u64 = 0x7fff_ffff_ffff_ffff;

pub const PT_LOAD: u64 = 1;

pub const PT_DYNAMIC: u64 = 2;

pub const DT_NULL: u64 = 0;

pub const DT_NEEDED: u64 = 1;

pub const DT_STRTAB: u64 = 5;

pub const DT_STRSZ: u64 = 10;

pub const DT_RPATH: u64 = 15;

pub const DT_RUNPATH: u64 = 29;

/// How much of a string table of unknown size is read.
pub const STRTAB_CAP: u64 = 1048576;

// ---- numbers ---------------------------------------------------------

/// Two bytes, little-endian.
pub open spec fn le2(b: Seq<u8>, at: int) -> int {
    b[at] + 256 * b[at + 1]
}

/// Four bytes, little-endian.
pub open spec fn le4(b: Seq<u8>, at: int) -> int {
    le2(b, at) + 65536 * le2(b, at + 2)
}

/// Eight bytes, little-endian.
pub open spec fn le8(b: Seq<u8>, at: int) -> int {
    le4(b, at) + 4294967296 * le4(b, at + 4)
}

fn u16le(b: &[u8], at: usize) -> (r: u64)
    requires
        at + 2 <= b.len(),
    ensures
        r == le2(b@, at as int),
        r <= 0xffff,
{
    b[at] as u64 + 256 * b[at + 1] as u64
}

fn u32le(b: &[u8], at: usize) -> (r: u64)
    requires
        at + 4 <= b.len(),
    ensures
        r == le4(b@, at as int),
        r <= 0xffff_ffff,
{
    u16le(b, at) + 65536 * u16le(b, at + 2)
}

fn u64le(b: &[u8], at: usize) -> (r: u64)
    requires
        at + 8 <= b.len(),
    ensures
        r == le8(b@, at as int),
{
    u32le(b, at) + 4294967296 * u32le(b, at + 4)
}

// ---- segments --------------------------------------------------------

/// A program header, as far as it matters here.
#[derive(Debug, Clone, Copy, PartialEq, Eq, Structural)]
pub struct Segment {
    pub kind: u64,
    pub offset: u64,
    pub vaddr: u64,
    pub filesz: u64,
}

/// The program header at a position.
pub open spec fn segment_at(b: Seq<u8>, at: int) -> Segment {
    Segment {
        kind: le4(b, at) as u64,
        offset: le8(b, at + 8) as u64,
        vaddr: le8(b, at + 16) as u64,
        filesz: le8(b, at + 32) as u64,
    }
}

/// The program headers.
pub open spec fn segments_of(b: Seq<u8>, phoff: int, entsize: int, n: nat) -> Seq<Segment> {
    Seq::new(n, |i: int| segment_at(b, phoff + i * entsize))
}

/// The last segment of a kind.
pub open spec fn last_of_kind(s: Seq<Segment>, kind: u64) -> Option<Segment>
    decreases s.len(),
{
    if s.len() == 0 {
        None
    } else if s.last().kind == kind {
        Some(s.last())
    } else {
        last_of_kind(s.drop_last(), kind)
    }
}

/// The loaded segment `s` holds the address.
pub open spec fn holds(s: Segment, vaddr: u64) -> bool {
    s.kind == PT_LOAD && s.vaddr <= vaddr < s.vaddr + s.filesz
}

/// The file offset of an address: its place in the first loaded segment that
/// holds it.
pub open spec fn offset_of(s: Seq<Segment>, vaddr: u64) -> Option<int>
    decreases s.len(),
{
    if s.len() == 0 {
        None
    } else if holds(s[0], vaddr) {
        Some(s[0].offset + (vaddr - s[0].vaddr))
    } else {
        offset_of(s.subrange(1, s.len() as int), vaddr)
    }
}

/// The file offset of an address.
pub fn vaddr_to_offset(s: &Vec<Segment>, vaddr: u64) -> (r: Option<u128>)
    ensures
        match r {
            Some(o) => offset_of(s@, vaddr) == Some(o as int),
            None => offset_of(s@, vaddr) is None,
        },
{
    let mut i: usize = 0;
    assert(s@.subrange(0, s@.len() as int) =~= s@);
    while i < s.len()
        invariant
            i <= s.len(),
            offset_of(s@, vaddr) == offset_of(s@.subrange(i as int, s@.len() as int), vaddr),
        decreases s.len() - i,
    {
        let g = s[i];
        if g.kind == PT_LOAD && g.vaddr <= vaddr && vaddr - g.vaddr < g.filesz {
            return Some(g.offset as u128 + (vaddr - g.vaddr) as u128);
        }
        assert(s@.subrange(i as int, s@.len() as int).subrange(1, s@.len() - i) =~= s@.subrange(
            i + 1,
            s@.len() as int,
        ));
        i = i + 1;
    }
    None
}

// ---- the dynamic section ---------------------------------------------

/// The entries of a dynamic section before its terminator: tag and value.
pub open spec fn entries_of(b: Seq<u8>) -> Seq<(u64, u64)>
    decreases b.len(),
{
    if b.len() < 16 || le8(b, 0) == DT_NULL {
        Seq::empty()
    } else {
        seq![(le8(b, 0) as u64, le8(b, 8) as u64)] + entries_of(b.subrange(16, b.len() as int))
    }
}

/// The values of the entries with one of two tags, in order.
pub open spec fn values_of(e: Seq<(u64, u64)>, tag: u64, or: u64) -> Seq<u64>
    decreases e.len(),
{
    if e.len() == 0 {
        Seq::empty()
    } else {
        let before = values_of(e.drop_last(), tag, or);
        if e.last().0 == tag || e.last().0 == or {
            before.push(e.last().1)
        } else {
            before
        }
    }
}

/// The last value with a tag.
pub open spec fn last_value(e: Seq<(u64, u64)>, tag: u64) -> Option<u64>
    decreases e.len(),
{
    if e.len() == 0 {
        None
    } else if e.last().0 == tag {
        Some(e.last().1)
    } else {
        last_value(e.drop_last(), tag)
    }
}

/// What a dynamic section says.
pub struct Dynamic {
    pub needed: Vec<u64>,
    pub paths: Vec<u64>,
    pub strtab: Option<u64>,
    pub strsz: u64,
}

pub open spec fn size_of_strtab(e: Seq<(u64, u64)>) -> u64 {
    match last_value(e, DT_STRSZ) {
        Some(s) => s,
        None => 0,
    }
}

proof fn entries_step(b: Seq<u8>, at: int, n: int)
    requires
        0 <= at,
        at + 16 <= n <= b.len(),
        le8(b, at) != DT_NULL,
    ensures
        entries_of(b.subrange(at, n)) == seq![(le8(b, at) as u64, le8(b, at + 8) as u64)]
            + entries_of(b.subrange(at + 16, n)),
{
    let s = b.subrange(at, n);
    assert(s.subrange(16, s.len() as int) =~= b.subrange(at + 16, n));
    assert(le8(s, 0) == le8(b, at));
    assert(le8(s, 8) == le8(b, at + 8));
}

/// Reads the entries in `b[from..to]`.
pub fn read_dynamic(b: &[u8], from: usize, to: usize) -> (r: Dynamic)
    requires
        from <= to <= b.len(),
    ensures
        r.needed@ == values_of(entries_of(b@.subrange(from as int, to as int)), DT_NEEDED, DT_NEEDED),
        r.paths@ == values_of(entries_of(b@.subrange(from as int, to as int)), DT_RPATH, DT_RUNPATH),
        r.strtab == last_value(entries_of(b@.subrange(from as int, to as int)), DT_STRTAB),
        r.strsz == size_of_strtab(entries_of(b@.subrange(from as int, to as int))),
{
    let mut d = Dynamic { needed: Vec::new(), paths: Vec::new(), strtab: None, strsz: 0 };
    let mut at: usize = from;
    let ghost mut seen: Seq<(u64, u64)> = Seq::empty();
    let ghost all = entries_of(b@.subrange(from as int, to as int));
    assert(seen + entries_of(b@.subrange(at as int, to as int)) =~= all);
    while to - at >= 16
        invariant
            from <= at <= to <= b.len(),
            seen + entries_of(b@.subrange(at as int, to as int)) == all,
            d.needed@ == values_of(seen, DT_NEEDED, DT_NEEDED),
            d.paths@ == values_of(seen, DT_RPATH, DT_RUNPATH),
            d.strtab == last_value(seen, DT_STRTAB),
            d.strsz == size_of_strtab(seen),
        ensures
            seen == all,
            d.needed@ == values_of(seen, DT_NEEDED, DT_NEEDED),
            d.paths@ == values_of(seen, DT_RPATH, DT_RUNPATH),
            d.strtab == last_value(seen, DT_STRTAB),
            d.strsz == size_of_strtab(seen),
        decreases to - at,
    {
        let tag = u64le(b, at);
        let val = u64le(b, at + 8);
        let ghost here = b@.subrange(at as int, to as int);
        assert(le8(here, 0) == le8(b@, at as int));
        if tag == DT_NULL {
            assert(seen + entries_of(here) =~= seen);
            break;
        }
        proof {
            entries_step(b@, at as int, to as int);
            let more = seen.push((tag, val));
            assert(more.drop_last() =~= seen);
            assert(seen + entries_of(here) =~= more + entries_of(
                b@.subrange(at + 16, to as int),
            ));
            seen = more;
        }
        if tag == DT_NEEDED {
            d.needed.push(val);
        } else if tag == DT_RPATH || tag == DT_RUNPATH {
            d.paths.push(val);
        } else if tag == DT_STRTAB {
            d.strtab = Some(val);
        } else if tag == DT_STRSZ {
            d.strsz = val;
        }
        at = at + 16;
        assert(to - at < 16 ==> seen + entries_of(b@.subrange(at as int, to as int)) =~= seen);
    }
    d
}

// ---- strings ---------------------------------------------------------

/// Bytes as text, with what is not UTF-8 replaced.
pub uninterp spec fn lossy(b: Seq<u8>) -> Seq<char>;

/// `String::from_utf8_lossy`, as a function of the bytes.
#[verifier::external_body]
fn from_utf8_lossy(b: &[u8]) -> (r: String)
    ensures
        r@ == lossy(b@),
{
    String::from_utf8_lossy(b).into_owned()
}

/// The position of the first zero byte at or after `i`.
pub open spec fn zero_from(t: Seq<u8>, i: int) -> Option<int>
    decreases t.len() - i,
{
    if i >= t.len() {
        None
    } else if t[i] == 0 {
        Some(i)
    } else {
        zero_from(t, i + 1)
    }
}

/// The zero-terminated string at an offset of a string table.
pub open spec fn string_in(t: Seq<u8>, offset: int) -> Option<Seq<char>> {
    match zero_from(t, offset) {
        Some(end) => Some(lossy(t.subrange(offset, end))),
        None => None,
    }
}

/// The zero-terminated string at an offset of a string table. One that has no
/// terminator is none.
pub fn string_at(t: &[u8], offset: u64) -> (r: Option<String>)
    ensures
        match r {
            Some(s) => string_in(t@, offset as int) == Some(s@),
            None => string_in(t@, offset as int) is None,
        },
{
    if offset >= t.len() as u64 {
        return None;
    }
    let start: usize = offset as usize;
    let mut i: usize = start;
    while i < t.len()
        invariant
            start <= i <= t.len(),
            zero_from(t@, start as int) == zero_from(t@, i as int),
            start == offset,
        decreases t.len() - i,
    {
        if t[i] == 0 {
            return Some(from_utf8_lossy(vstd::slice::slice_subrange(t, start, i)));
        }
        i = i + 1;
    }
    None
}

/// `s` with every occurrence of `pat` replaced, from the left.
pub open spec fn replaced(s: Seq<char>, pat: Seq<char>, with: Seq<char>) -> Seq<char>
    decreases s.len(),
{
    match split_first(s, pat) {
        Some((a, b)) => if b.len() < s.len() {
            a + with + replaced(b, pat, with)
        } else {
            s
        },
        None => s,
    }
}

/// `str::replace`.
pub fn replace(s: &str, pat: &str, with: &str) -> (r: String)
    requires
        pat@.len() > 0,
    ensures
        r@ == replaced(s@, pat@, with@),
{
    let mut out = String::new();
    let mut rest = s;
    assert(out@ + replaced(rest@, pat@, with@) =~= replaced(s@, pat@, with@));
    loop
        invariant
            pat@.len() > 0,
            out@ + replaced(rest@, pat@, with@) == replaced(s@, pat@, with@),
        decreases rest@.len(),
    {
        match split_once(rest, pat) {
            Some((a, b)) => {
                let ghost before = out@;
                proof {
                    find_from_is_first(rest@, pat@, 0);
                }
                out.append(a);
                out.append(with);
                assert(b@.len() < rest@.len());
                assert(out@ + replaced(b@, pat@, with@) =~= before + replaced(
                    rest@,
                    pat@,
                    with@,
                ));
                rest = b;
            },
            None => {
                out.append(rest);
                return out;
            },
        }
    }
}

/// A search path entry with `$ORIGIN` expanded.
pub open spec fn expanded(part: Seq<char>, origin: Seq<char>) -> Seq<char> {
    replaced(replaced(part, "${ORIGIN}"@, origin), "$ORIGIN"@, origin)
}

/// The non-empty entries among the first pieces, expanded.
pub open spec fn expanded_parts(parts: Seq<Seq<char>>, origin: Seq<char>) -> Seq<Seq<char>>
    decreases parts.len(),
{
    if parts.len() == 0 {
        Seq::empty()
    } else {
        let before = expanded_parts(parts.drop_last(), origin);
        if parts.last().len() == 0 {
            before
        } else {
            before.push(expanded(parts.last(), origin))
        }
    }
}

/// The strings at several offsets, without the offsets that name none.
pub open spec fn strings_at(t: Seq<u8>, offsets: Seq<u64>) -> Seq<Seq<char>>
    decreases offsets.len(),
{
    if offsets.len() == 0 {
        Seq::empty()
    } else {
        let before = strings_at(t, offsets.drop_last());
        match string_in(t, offsets.last() as int) {
            Some(s) => before.push(s),
            None => before,
        }
    }
}

/// The search paths in several colon-separated lists.
pub open spec fn paths_in(lists: Seq<Seq<char>>, origin: Seq<char>) -> Seq<Seq<char>>
    decreases lists.len(),
{
    if lists.len() == 0 {
        Seq::empty()
    } else {
        paths_in(lists.drop_last(), origin) + expanded_parts(split_on(lists.last(), ':'), origin)
    }
}

fn read_strings(t: &[u8], offsets: &Vec<u64>) -> (r: Vec<String>)
    ensures
        texts(r@) == strings_at(t@, offsets@),
{
    let mut out: Vec<String> = Vec::new();
    let mut i: usize = 0;
    assert(texts(out@) =~= strings_at(t@, offsets@.take(0)));
    while i < offsets.len()
        invariant
            i <= offsets.len(),
            texts(out@) == strings_at(t@, offsets@.take(i as int)),
        decreases offsets.len() - i,
    {
        assert(offsets@.take(i + 1).drop_last() =~= offsets@.take(i as int));
        let ghost before = texts(out@);
        if let Some(s) = string_at(t, offsets[i]) {
            let ghost added = s@;
            out.push(s);
            assert(texts(out@) =~= before.push(added));
        }
        i = i + 1;
    }
    assert(offsets@.take(i as int) =~= offsets@);
    out
}

fn expand_list(out: &mut Vec<String>, list: &str, origin: &str)
    ensures
        texts(final(out)@) == texts(old(out)@) + expanded_parts(split_on(list@, ':'), origin@),
{
    let parts = split(list, ':');
    let ghost all = split_on(list@, ':');
    let ghost start = texts(out@);
    let mut i: usize = 0;
    assert(texts(out@) =~= start + expanded_parts(all.take(0), origin@));
    proof {
        reveal_strlit("${ORIGIN}");
        reveal_strlit("$ORIGIN");
    }
    while i < parts.len()
        invariant
            i <= parts.len(),
            all == texts(parts@),
            texts(out@) == start + expanded_parts(all.take(i as int), origin@),
            "${ORIGIN}"@.len() > 0,
            "$ORIGIN"@.len() > 0,
        decreases parts.len() - i,
    {
        assert(all.take(i + 1).drop_last() =~= all.take(i as int));
        let part = parts[i].as_str();
        assert(part@ == all[i as int]);
        let ghost before = texts(out@);
        if part.unicode_len() > 0 {
            let once = replace(part, "${ORIGIN}", origin);
            let twice = replace(once.as_str(), "$ORIGIN", origin);
            let ghost added = twice@;
            out.push(twice);
            assert(texts(out@) =~= before.push(added));
            assert(texts(out@) =~= start + expanded_parts(all.take(i + 1), origin@));
        }
        i = i + 1;
    }
    assert(all.take(i as int) =~= all);
}

fn expand_lists(lists: &Vec<String>, origin: &str) -> (r: Vec<String>)
    ensures
        texts(r@) == paths_in(texts(lists@), origin@),
{
    let mut out: Vec<String> = Vec::new();
    let ghost all = texts(lists@);
    let mut i: usize = 0;
    assert(texts(out@) =~= paths_in(all.take(0), origin@));
    while i < lists.len()
        invariant
            i <= lists.len(),
            all == texts(lists@),
            texts(out@) == paths_in(all.take(i as int), origin@),
        decreases lists.len() - i,
    {
        assert(all.take(i + 1).drop_last() =~= all.take(i as int));
        assert(all.take(i + 1).last() == lists@[i as int]@);
        expand_list(&mut out, lists[i].as_str(), origin);
        i = i + 1;
    }
    assert(all.take(i as int) =~= all);
    out
}

// ---- a whole file ----------------------------------------------------

/// A 64-bit little-endian ELF file with a usable program header table.
pub open spec fn is_elf(b: Seq<u8>) -> bool {
    &&& b.len() >= 64
    &&& b[0] == 0x7f && b[1] == 0x45 && b[2] == 0x4c && b[3] == 0x46
    &&& b[4] == 2 && b[5] == 1
    &&& le8(b, 32) != 0 && le2(b, 54) >= 56 && le2(b, 56) != 0
}

/// The program headers of an ELF file.
pub open spec fn file_segments(b: Seq<u8>) -> Seq<Segment> {
    segments_of(b, le8(b, 32), le2(b, 54), le2(b, 56) as nat)
}

/// The string table: from its offset as far as it says it goes, or as far as
/// the file does.
pub open spec fn strtab_of(b: Seq<u8>, offset: int, size: u64) -> Seq<u8> {
    let cap = if size == 0 {
        STRTAB_CAP as int
    } else {
        size as int
    };
    if offset >= b.len() {
        Seq::empty()
    } else if offset + cap > b.len() {
        b.subrange(offset, b.len() as int)
    } else {
        b.subrange(offset, offset + cap)
    }
}

/// What a dynamic section, found at a place in the file, says.
pub open spec fn dynamic_at(b: Seq<u8>, d: Segment, origin: Seq<char>) -> Result<
    Option<DynamicView>,
    OffsetOutOfRange,
> {
    if d.offset > MAX_POSITION {
        Err(OffsetOutOfRange)
    } else if d.offset + d.filesz > b.len() {
        Ok(None)
    } else {
        let e = entries_of(b.subrange(d.offset as int, d.offset + d.filesz));
        match last_value(e, DT_STRTAB) {
            None => Ok(None),
            Some(vaddr) => match offset_of(file_segments(b), vaddr) {
                None => Ok(None),
                Some(offset) => if offset > MAX_POSITION {
                    Err(OffsetOutOfRange)
                } else {
                    let t = strtab_of(b, offset, size_of_strtab(e));
                    Ok(
                        Some(
                            DynamicView {
                                needed: strings_at(t, values_of(e, DT_NEEDED, DT_NEEDED)),
                                search_paths: paths_in(
                                    strings_at(t, values_of(e, DT_RPATH, DT_RUNPATH)),
                                    origin,
                                ),
                            },
                        ),
                    )
                },
            },
        }
    }
}

/// What a file says about its dynamic dependencies: nothing for anything that
/// is not an ELF file with a dynamic section that lies inside it.
pub open spec fn dynamic_of(b: Seq<u8>, origin: Seq<char>) -> Result<
    Option<DynamicView>,
    OffsetOutOfRange,
> {
    if !is_elf(b) {
        Ok(None)
    } else if le8(b, 32) > MAX_POSITION {
        Err(OffsetOutOfRange)
    } else if le8(b, 32) + le2(b, 56) * le2(b, 54) > b.len() {
        Ok(None)
    } else {
        match last_of_kind(file_segments(b), PT_DYNAMIC) {
            None => Ok(None),
            Some(d) => dynamic_at(b, d, origin),
        }
    }
}

pub open spec fn dynamic_result(r: Result<Option<DynamicInfo>, OffsetOutOfRange>) -> Result<
    Option<DynamicView>,
    OffsetOutOfRange,
> {
    match r {
        Ok(Some(i)) => Ok(Some(i@)),
        Ok(None) => Ok(None),
        Err(e) => Err(e),
    }
}

fn read_segments(b: &[u8], phoff: usize, entsize: usize, n: usize) -> (r: Vec<Segment>)
    requires
        entsize >= 56,
        phoff + n * entsize <= b.len(),
    ensures
        r@ == segments_of(b@, phoff as int, entsize as int, n as nat),
{
    let mut out: Vec<Segment> = Vec::new();
    let mut i: usize = 0;
    let mut at: usize = phoff;
    while i < n
        invariant
            i <= n,
            entsize >= 56,
            phoff + n * entsize <= b.len(),
            at == phoff + i * entsize,
            out.len() == i,
            forall|k: int| 0 <= k < i ==> out@[k] == segment_at(b@, phoff + k * entsize),
        decreases n - i,
    {
        assert(i * entsize + entsize <= n * entsize) by (nonlinear_arith)
            requires
                i < n,
        ;
        assert((i + 1) * entsize == i * entsize + entsize) by (nonlinear_arith);
        out.push(
            Segment {
                kind: u32le(b, at),
                offset: u64le(b, at + 8),
                vaddr: u64le(b, at + 16),
                filesz: u64le(b, at + 32),
            },
        );
        at = at + entsize;
        i = i + 1;
    }
    assert(out@ =~= segments_of(b@, phoff as int, entsize as int, n as nat));
    out
}

fn find_last(s: &Vec<Segment>, kind: u64) -> (r: Option<Segment>)
    ensures
        r == last_of_kind(s@, kind),
{
    let mut n: usize = s.len();
    assert(s@.take(n as int) =~= s@);
    while n > 0
        invariant
            n <= s.len(),
            last_of_kind(s@, kind) == last_of_kind(s@.take(n as int), kind),
        decreases n,
    {
        if s[n - 1].kind == kind {
            return Some(s[n - 1]);
        }
        assert(s@.take(n as int).drop_last() =~= s@.take(n - 1));
        n = n - 1;
    }
    None
}

fn info_at(b: &[u8], segments: &Vec<Segment>, d: Segment, origin: &str) -> (r: Result<
    Option<DynamicInfo>,
    OffsetOutOfRange,
>)
    requires
        segments@ == file_segments(b@),
    ensures
        dynamic_result(r) == dynamic_at(b@, d, origin@),
{
    let len: u64 = b.len() as u64;
    if d.offset > MAX_POSITION {
        return Err(OffsetOutOfRange);
    }
    if d.offset > len || d.filesz > len - d.offset {
        return Ok(None);
    }
    let from: usize = d.offset as usize;
    let to: usize = from + d.filesz as usize;
    let dynamic = read_dynamic(b, from, to);
    let vaddr = match dynamic.strtab {
        Some(v) => v,
        None => {
            return Ok(None);
        },
    };
    let offset: u128 = match vaddr_to_offset(segments, vaddr) {
        Some(o) => o,
        None => {
            return Ok(None);
        },
    };
    if offset > MAX_POSITION as u128 {
        return Err(OffsetOutOfRange);
    }
    let start: usize = if offset >= len as u128 { b.len() } else { offset as usize };
    let cap: u64 = if dynamic.strsz == 0 { STRTAB_CAP } else { dynamic.strsz };
    let end: usize = if cap > len - start as u64 { b.len() } else { start + cap as usize };
    let t = vstd::slice::slice_subrange(b, start, end);
    assert(t@ =~= strtab_of(b@, offset as int, dynamic.strsz));
    let needed = read_strings(t, &dynamic.needed);
    let lists = read_strings(t, &dynamic.paths);
    let search_paths = expand_lists(&lists, origin);
    Ok(Some(DynamicInfo { needed, search_paths }))
}

/// Reads one ELF file's dynamic section. `origin` is the directory the file
/// stands in.
pub fn dynamic_info(b: &[u8], origin: &str) -> (r: Result<Option<DynamicInfo>, OffsetOutOfRange>)
    ensures
        dynamic_result(r) == dynamic_of(b@, origin@),
{
    if b.len() < 64 {
        return Ok(None);
    }
    if b[0] != 0x7f || b[1] != 0x45 || b[2] != 0x4c || b[3] != 0x46 || b[4] != 2 || b[5] != 1 {
        return Ok(None);
    }
    let phoff: u64 = u64le(b, 32);
    let entsize: u64 = u16le(b, 54);
    let n: u64 = u16le(b, 56);
    if phoff == 0 || entsize < 56 || n == 0 {
        return Ok(None);
    }
    if phoff > MAX_POSITION {
        return Err(OffsetOutOfRange);
    }
    assert(n * entsize <= 0xffff * 0xffff) by (nonlinear_arith)
        requires
            n <= 0xffff,
            entsize <= 0xffff,
    ;
    let size: u64 = n * entsize;
    if phoff + size > b.len() as u64 {
        return Ok(None);
    }
    let segments = read_segments(b, phoff as usize, entsize as usize, n as usize);
    match find_last(&segments, PT_DYNAMIC) {
        None => Ok(None),
        Some(d) => info_at(b, &segments, d, origin),
    }
}

// ---- the glibc runtime -----------------------------------------------

/// What stands behind the last slash.
pub open spec fn base_name(s: Seq<char>) -> Seq<char> {
    match split_last(s, '/') {
        Some((_, b)) => b,
        None => s,
    }
}

/// What stands before the first `.so`.
pub open spec fn stem(s: Seq<char>) -> Seq<char> {
    match split_first(s, ".so"@) {
        Some((a, _)) => a,
        None => s,
    }
}

/// The libraries that are versioned together with the loader.
pub open spec fn glibc_stems() -> Seq<Seq<char>> {
    seq![
        "libc"@,
        "libm"@,
        "libpthread"@,
        "libdl"@,
        "librt"@,
        "libresolv"@,
        "libutil"@,
        "libnsl"@,
        "libanl"@,
        "libmvec"@,
        "libBrokenLocale"@,
        "libthread_db"@,
        "libSegFault"@,
        "libpcprofile"@,
    ]
}

/// The glibc runtime, which must always come from the image the binaries are
/// executed in.
pub open spec fn glibc_core(soname: Seq<char>) -> bool {
    let base = base_name(soname);
    ||| begins_with(base, "ld-linux"@)
    ||| begins_with(base, "ld64"@)
    ||| base == "ld.so"@
    ||| begins_with(base, "libnss_"@)
    ||| glibc_stems().contains(stem(base))
}

fn is_glibc_stem(s: &str) -> (r: bool)
    ensures
        r == glibc_stems().contains(s@),
{
    let all: [&str; 14] = [
        "libc", "libm", "libpthread", "libdl", "librt", "libresolv", "libutil", "libnsl",
        "libanl", "libmvec", "libBrokenLocale", "libthread_db", "libSegFault", "libpcprofile",
    ];
    let mut i: usize = 0;
    let ghost g = glibc_stems();
    assert(forall|k: int| 0 <= k < 14 ==> (#[trigger] all@[k])@ == g[k]);
    while i < 14
        invariant
            i <= 14,
            g == glibc_stems(),
            g.len() == 14,
            all@.len() == 14,
            forall|k: int| 0 <= k < 14 ==> (#[trigger] all@[k])@ == g[k],
            forall|k: int| 0 <= k < i ==> g[k] != s@,
        decreases 14 - i,
    {
        if same(all[i], s) {
            assert(g[i as int] == s@);
            return true;
        }
        i = i + 1;
    }
    false
}

/// Whether a library belongs to the glibc runtime. The loader resolves
/// private symbols against its own libc and nothing else, so staging these
/// would swap half of that pair.
pub fn is_glibc_core(soname: &str) -> (r: bool)
    ensures
        r == glibc_core(soname@),
{
    let base = match rsplit_once(soname, '/') {
        Some((_, b)) => b,
        None => soname,
    };
    if starts_with(base, "ld-linux") || starts_with(base, "ld64") || same(base, "ld.so")
        || starts_with(base, "libnss_") {
        return true;
    }
    let s = match split_once(base, ".so") {
        Some((a, _)) => a,
        None => base,
    };
    is_glibc_stem(s)
}

// ---- finding a library -----------------------------------------------

/// Where the loader looks when no search path has a library.
pub open spec fn default_dirs() -> Seq<Seq<char>> {
    seq![
        "/usr/local/lib"@,
        "/usr/local/lib64"@,
        "/lib/x86_64-linux-gnu"@,
        "/usr/lib/x86_64-linux-gnu"@,
        "/lib/aarch64-linux-gnu"@,
        "/usr/lib/aarch64-linux-gnu"@,
        "/lib64"@,
        "/usr/lib64"@,
        "/lib"@,
        "/usr/lib"@,
    ]
}

/// Where a soname is looked for, in order: the search paths, then the
/// conventional directories.
pub open spec fn candidates(soname: Seq<char>, search: Seq<Seq<char>>) -> Seq<Seq<char>> {
    (search + default_dirs()).map_values(|d: Seq<char>| joined_path(d, soname))
}

/// Where the loader would look for a soname, in the order it looks. The
/// first of these that is a file is the library.
pub fn find_library(soname: &str, search: &Vec<String>) -> (r: Vec<String>)
    ensures
        texts(r@) == candidates(soname@, texts(search@)),
{
    let defaults: [&str; 10] = [
        "/usr/local/lib", "/usr/local/lib64", "/lib/x86_64-linux-gnu",
        "/usr/lib/x86_64-linux-gnu", "/lib/aarch64-linux-gnu", "/usr/lib/aarch64-linux-gnu",
        "/lib64", "/usr/lib64", "/lib", "/usr/lib",
    ];
    let ghost d = default_dirs();
    assert(forall|k: int| 0 <= k < 10 ==> (#[trigger] defaults@[k])@ == d[k]);
    let ghost want = candidates(soname@, texts(search@));
    let mut out: Vec<String> = Vec::new();
    let mut i: usize = 0;
    while i < search.len()
        invariant
            i <= search.len(),
            want == candidates(soname@, texts(search@)),
            texts(out@) == want.take(i as int),
        decreases search.len() - i,
    {
        let ghost before = texts(out@);
        let p = join_path(search[i].as_str(), soname);
        let ghost added = p@;
        out.push(p);
        assert(added == want[i as int]);
        assert(texts(out@) =~= before.push(added));
        assert(texts(out@) =~= want.take(i + 1));
        i = i + 1;
    }
    let n: usize = search.len();
    let mut j: usize = 0;
    while j < 10
        invariant
            j <= 10,
            n == search.len(),
            want == candidates(soname@, texts(search@)),
            d == default_dirs(),
            defaults@.len() == 10,
            forall|k: int| 0 <= k < 10 ==> (#[trigger] defaults@[k])@ == d[k],
            texts(out@) == want.take(n + j),
        decreases 10 - j,
    {
        let ghost before = texts(out@);
        let p = join_path(defaults[j], soname);
        let ghost added = p@;
        out.push(p);
        assert((texts(search@) + default_dirs())[n + j] == d[j as int]);
        assert(added == want[n + j]);
        assert(texts(out@) =~= before.push(added));
        assert(texts(out@) =~= want.take(n + j + 1));
        j = j + 1;
    }
    assert(want.take(n + 10) =~= want);
    out
}

// ---- everything a set of files needs ----------------------------------

/// What has to be known before the search can go on.
#[derive(Debug, Clone, PartialEq, Eq)]
pub enum Question {
    /// What does this file say about its dependencies?
    Read(String),
    /// Which of these is the first that is a file?
    Find(Vec<String>),
    /// Nothing: these are the libraries, each once, in the order of paths.
    Done(Vec<String>),
}

/// [`Question`], over text.
pub enum QuestionView {
    Read(Seq<char>),
    Find(Seq<Seq<char>>),
    Done(Seq<Seq<char>>),
}

impl View for Question {
    type V = QuestionView;

    open spec fn view(&self) -> QuestionView {
        match *self {
            Question::Read(p) => QuestionView::Read(p@),
            Question::Find(c) => QuestionView::Find(texts(c@)),
            Question::Done(r) => QuestionView::Done(texts(r@)),
        }
    }
}

/// The answer to a question.
#[derive(Debug, Clone, PartialEq, Eq)]
pub enum Answer {
    /// What the file says, where it says anything.
    Info(Option<DynamicInfo>),
    /// The file that was found.
    Found(Option<String>),
}

/// [`Answer`], over text.
pub enum AnswerView {
    Info(Option<DynamicView>),
    Found(Option<Seq<char>>),
}

impl View for Answer {
    type V = AnswerView;

    open spec fn view(&self) -> AnswerView {
        match *self {
            Answer::Info(Some(i)) => AnswerView::Info(Some(i@)),
            Answer::Info(None) => AnswerView::Info(None),
            Answer::Found(Some(p)) => AnswerView::Found(Some(p@)),
            Answer::Found(None) => AnswerView::Found(None),
        }
    }
}

/// A file whose dependencies are still to be looked at, with the search
/// paths it inherits.
#[derive(Debug, Clone)]
pub struct Queued {
    pub path: String,
    pub inherited: Vec<String>,
}

/// A search under way.
#[derive(Debug, Clone)]
pub struct Resolver {
    pub roots: Vec<String>,
    pub skip_below: Vec<String>,
    /// How many roots have been read.
    pub read: usize,
    /// Whether the current file came off the queue.
    pub queued: bool,
    /// Files to be looked at, first come first served.
    pub queue: Vec<Queued>,
    /// Sonames already found.
    pub seen: Vec<String>,
    /// The soname last looked for.
    pub asking: String,
    /// What was found so far.
    pub resolved: Vec<String>,
    /// Sonames the current file needs that were not considered yet.
    pub pending: Vec<String>,
    /// Where the current file's needs are looked for.
    pub search: Vec<String>,
    /// The search paths the file being read inherits.
    pub inherited: Vec<String>,
}

/// [`Resolver`], over text.
pub struct ResolverView {
    pub roots: Seq<Seq<char>>,
    pub skip_below: Seq<Seq<char>>,
    pub read: int,
    pub queued: bool,
    pub queue: Seq<(Seq<char>, Seq<Seq<char>>)>,
    pub seen: Seq<Seq<char>>,
    pub asking: Seq<char>,
    pub resolved: Seq<Seq<char>>,
    pub pending: Seq<Seq<char>>,
    pub search: Seq<Seq<char>>,
    pub inherited: Seq<Seq<char>>,
}

pub open spec fn queue_view(q: Seq<Queued>) -> Seq<(Seq<char>, Seq<Seq<char>>)> {
    q.map_values(|e: Queued| (e.path@, texts(e.inherited@)))
}

impl View for Resolver {
    type V = ResolverView;

    open spec fn view(&self) -> ResolverView {
        ResolverView {
            roots: texts(self.roots@),
            skip_below: texts(self.skip_below@),
            read: self.read as int,
            queued: self.queued,
            queue: queue_view(self.queue@),
            seen: texts(self.seen@),
            asking: self.asking@,
            resolved: texts(self.resolved@),
            pending: texts(self.pending@),
            search: texts(self.search@),
            inherited: texts(self.inherited@),
        }
    }
}

/// A file that does not travel: part of the glibc runtime, staged already
/// with a whole directory, or one of the roots.
pub open spec fn stays(roots: Seq<Seq<char>>, skip_below: Seq<Seq<char>>, p: Seq<char>) -> bool {
    ||| glibc_core(file_name(p))
    ||| exists|i: int| 0 <= i < skip_below.len() && below(p, #[trigger] skip_below[i])
    ||| exists|i: int| 0 <= i < roots.len() && same_path(#[trigger] roots[i], p)
}

/// One of the libraries found so far.
pub open spec fn listed(resolved: Seq<Seq<char>>, p: Seq<char>) -> bool {
    exists|i: int| 0 <= i < resolved.len() && same_path(#[trigger] resolved[i], p)
}

/// The front of the queue taken off, and noted where it travels.
pub open spec fn taken(s: ResolverView) -> ResolverView {
    let p = s.queue[0].0;
    ResolverView {
        queue: s.queue.subrange(1, s.queue.len() as int),
        resolved: if stays(s.roots, s.skip_below, p) || listed(s.resolved, p) {
            s.resolved
        } else {
            s.resolved.push(p)
        },
        inherited: s.queue[0].1,
        queued: true,
        ..s
    }
}

/// Where the search stands once it needs to know something, and what that
/// is. What a root needs is always looked for; what a file off the queue
/// needs only where it is not part of the glibc runtime. What was found
/// already is not looked for again; what was not found is, since the next
/// file that needs it may look elsewhere.
pub open spec fn advanced(s: ResolverView) -> (ResolverView, QuestionView)
    decreases s.queue.len(), s.pending.len(),
{
    if s.pending.len() > 0 {
        let name = s.pending[0];
        let rest = ResolverView {
            pending: s.pending.subrange(1, s.pending.len() as int),
            ..s
        };
        if s.seen.contains(name) || (s.queued && glibc_core(name)) {
            advanced(rest)
        } else {
            (
                ResolverView { asking: name, ..rest },
                QuestionView::Find(candidates(name, s.search)),
            )
        }
    } else if s.read < s.roots.len() {
        (s, QuestionView::Read(s.roots[s.read]))
    } else if s.queue.len() == 0 {
        (s, QuestionView::Done(in_path_order(s.resolved)))
    } else {
        let t = taken(s);
        if glibc_core(file_name(s.queue[0].0)) {
            advanced(t)
        } else {
            (t, QuestionView::Read(s.queue[0].0))
        }
    }
}

/// The search with an answer taken in.
pub open spec fn answered(s: ResolverView, a: AnswerView) -> ResolverView {
    match a {
        AnswerView::Found(Some(p)) => ResolverView {
            queue: s.queue.push((p, s.search)),
            seen: s.seen.push(s.asking),
            ..s
        },
        AnswerView::Found(None) => s,
        AnswerView::Info(info) => if s.read < s.roots.len() {
            match info {
                None => ResolverView { read: s.read + 1, ..s },
                Some(i) => ResolverView {
                    read: s.read + 1,
                    queue: s.queue.push((s.roots[s.read], i.search_paths)),
                    pending: i.needed,
                    search: i.search_paths,
                    ..s
                },
            }
        } else {
            match info {
                None => s,
                Some(i) => ResolverView {
                    pending: i.needed,
                    search: i.search_paths + s.inherited,
                    ..s
                },
            }
        },
    }
}

/// A search that has not asked anything yet.
pub open spec fn fresh(roots: Seq<Seq<char>>, skip_below: Seq<Seq<char>>) -> ResolverView {
    ResolverView {
        roots,
        skip_below,
        read: 0,
        queued: false,
        queue: Seq::empty(),
        seen: Seq::empty(),
        asking: Seq::empty(),
        resolved: Seq::empty(),
        pending: Seq::empty(),
        search: Seq::empty(),
        inherited: Seq::empty(),
    }
}

/// The search after a number of answers, and what it asks then.
pub open spec fn after_answers(
    roots: Seq<Seq<char>>,
    skip_below: Seq<Seq<char>>,
    answers: Seq<AnswerView>,
) -> (ResolverView, QuestionView)
    decreases answers.len(),
{
    if answers.len() == 0 {
        advanced(fresh(roots, skip_below))
    } else {
        advanced(
            answered(after_answers(roots, skip_below, answers.drop_last()).0, answers.last()),
        )
    }
}

impl Resolver {
    /// No more roots are counted as read than there are.
    pub open spec fn wf(&self) -> bool {
        self.read <= self.roots.len()
    }

    /// A search for everything `roots` need.
    pub fn new(roots: &Vec<String>, skip_below: &Vec<String>) -> (r: Self)
        ensures
            r.wf(),
            r@ == fresh(texts(roots@), texts(skip_below@)),
    {
        let r = Resolver {
            roots: clone_list(roots),
            skip_below: clone_list(skip_below),
            read: 0,
            queued: false,
            queue: Vec::new(),
            seen: Vec::new(),
            asking: String::new(),
            resolved: Vec::new(),
            pending: Vec::new(),
            search: Vec::new(),
            inherited: Vec::new(),
        };
        assert(r@.queue =~= Seq::empty());
        assert(r@.seen =~= Seq::empty());
        assert(r@.asking =~= Seq::empty());
        assert(r@.resolved =~= Seq::empty());
        assert(r@.pending =~= Seq::empty());
        assert(r@.search =~= Seq::empty());
        assert(r@.inherited =~= Seq::empty());
        r
    }

    /// Takes the front off the queue.
    fn take(&mut self) -> (p: String)
        requires
            old(self).wf(),
            old(self).queue.len() > 0,
        ensures
            final(self).wf(),
            final(self)@ == taken(old(self)@),
            p@ == old(self)@.queue[0].0,
    {
        let ghost before = self@;
        let first = self.queue.remove(0);
        assert(queue_view(self.queue@) =~= before.queue.subrange(1, before.queue.len() as int));
        let path = first.path.as_str();
        let core = is_glibc_core(file_name_of(path).as_str());
        let skipped = any_above(&self.skip_below, path);
        let root = any_same_path(&self.roots, path);
        assert(texts(self.skip_below@) == before.skip_below && texts(self.roots@) == before.roots);
        if !core && !skipped && !root && !any_same_path(&self.resolved, path) {
            self.resolved.push(first.path.clone());
            assert(texts(self.resolved@) =~= before.resolved.push(path@));
        }
        self.queued = true;
        self.inherited = first.inherited;
        first.path
    }

    /// Goes on until something has to be known, and says what.
    pub fn question(&mut self) -> (q: Question)
        requires
            old(self).wf(),
        ensures
            final(self).wf(),
            (final(self)@, q@) == advanced(old(self)@),
    {
        loop
            invariant
                self.wf(),
                advanced(self@) == advanced(old(self)@),
            decreases self.queue.len(), self.pending.len(),
        {
            let ghost s = self@;
            assert(s.queue.len() == self.queue.len());
            assert(s.pending.len() == self.pending.len());
            if self.pending.len() > 0 {
                let name = self.pending.remove(0);
                assert(name@ == s.pending[0]);
                assert(texts(self.pending@) =~= s.pending.subrange(1, s.pending.len() as int));
                if !in_list(&self.seen, name.as_str()) && !(self.queued && is_glibc_core(
                    name.as_str(),
                )) {
                    let places = find_library(name.as_str(), &self.search);
                    self.asking = name;
                    return Question::Find(places);
                }
            } else if self.read < self.roots.len() {
                assert(s.roots[s.read] == self.roots@[self.read as int]@);
                return Question::Read(self.roots[self.read].clone());
            } else if self.queue.len() == 0 {
                return Question::Done(sort_paths(&self.resolved));
            } else {
                let p = self.take();
                assert(self.queue.len() == self@.queue.len());
                if !is_glibc_core(file_name_of(p.as_str()).as_str()) {
                    return Question::Read(p);
                }
            }
        }
    }

    /// Takes in the answer to the last question.
    pub fn answer(&mut self, a: &Answer)
        requires
            old(self).wf(),
        ensures
            final(self).wf(),
            final(self)@ == answered(old(self)@, a@),
    {
        let ghost s = self@;
        match a {
            Answer::Found(Some(p)) => {
                self.queue.push(Queued { path: p.clone(), inherited: clone_list(&self.search) });
                assert(queue_view(self.queue@) =~= s.queue.push((p@, s.search)));
                self.seen.push(self.asking.clone());
                assert(texts(self.seen@) =~= s.seen.push(s.asking));
            },
            Answer::Found(None) => {},
            Answer::Info(info) => {
                if self.read < self.roots.len() {
                    if let Some(i) = info {
                        let root = self.roots[self.read].clone();
                        let ghost r = root@;
                        self.queue.push(
                            Queued { path: root, inherited: clone_list(&i.search_paths) },
                        );
                        assert(queue_view(self.queue@) =~= s.queue.push((r, i@.search_paths)));
                        self.pending = clone_list(&i.needed);
                        self.search = clone_list(&i.search_paths);
                    }
                    self.read = self.read + 1;
                } else if let Some(i) = info {
                    self.pending = clone_list(&i.needed);
                    let mut search = clone_list(&i.search_paths);
                    let mut inherited = clone_list(&self.inherited);
                    search.append(&mut inherited);
                    assert(texts(search@) =~= i@.search_paths + s.inherited);
                    self.search = search;
                }
            },
        }
    }
}

/// The views of several answers.
pub open spec fn answer_views(v: Seq<Answer>) -> Seq<AnswerView> {
    v.map_values(|a: Answer| a@)
}

/// Resolves the full transitive set of libraries `roots` need, as far as the
/// answers given so far go: what has to be known next, or the libraries.
pub fn resolve_dependencies(
    roots: &Vec<String>,
    skip_below: &Vec<String>,
    answers: &Vec<Answer>,
) -> (q: Question)
    ensures
        q@ == after_answers(texts(roots@), texts(skip_below@), answer_views(answers@)).1,
{
    let ghost all = answer_views(answers@);
    let mut r = Resolver::new(roots, skip_below);
    let mut q = r.question();
    let mut i: usize = 0;
    assert(all.take(0) =~= Seq::empty());
    while i < answers.len()
        invariant
            i <= answers.len(),
            all == answer_views(answers@),
            r.wf(),
            (r@, q@) == after_answers(texts(roots@), texts(skip_below@), all.take(i as int)),
        decreases answers.len() - i,
    {
        assert(all.take(i + 1).drop_last() =~= all.take(i as int));
        assert(all.take(i + 1).last() == answers@[i as int]@);
        r.answer(&answers[i]);
        q = r.question();
        i = i + 1;
    }
    assert(all.take(i as int) =~= all);
    q
}

// ---- what holds of every search --------------------------------------

/// What a search may have found: only files that travel, each of them found
/// in answer to a question, and none twice.
pub open spec fn sound(s: ResolverView, found: Set<Seq<char>>) -> bool {
    &&& 0 <= s.read
    &&& forall|i: int|
        0 <= i < s.resolved.len() ==> !stays(s.roots, s.skip_below, #[trigger] s.resolved[i]) && found.contains(
            s.resolved[i],
        )
    &&& forall|i: int, j: int|
        0 <= i < j < s.resolved.len() ==> !same_path(
            #[trigger] s.resolved[i],
            #[trigger] s.resolved[j],
        )
    &&& forall|i: int|
        0 <= i < s.queue.len() ==> found.contains((#[trigger] s.queue[i]).0) || stays(s.roots, s.skip_below, s.queue[i].0,
        )
}

/// Nothing is lost: a file that was found is still queued, stays behind, or
/// is among the libraries.
pub open spec fn complete(s: ResolverView, found: Set<Seq<char>>) -> bool {
    forall|p: Seq<char>| #[trigger]
        found.contains(p) ==> stays(s.roots, s.skip_below, p) || listed(s.resolved, p)
            || waiting(s.queue, p)
}

/// A file is in the queue.
pub open spec fn waiting(queue: Seq<(Seq<char>, Seq<Seq<char>>)>, p: Seq<char>) -> bool {
    exists|i: int| 0 <= i < queue.len() && (#[trigger] queue[i]).0 == p
}

proof fn taking_keeps(s: ResolverView, found: Set<Seq<char>>)
    requires
        s.queue.len() > 0,
        sound(s, found),
        complete(s, found),
    ensures
        sound(taken(s), found),
        complete(taken(s), found),
{
    let t = taken(s);
    let p = s.queue[0].0;
    assert forall|i: int| 0 <= i < t.queue.len() implies found.contains((#[trigger] t.queue[i]).0)
        || stays(t.roots, t.skip_below, t.queue[i].0) by {
        assert(t.queue[i] == s.queue[i + 1]);
    }
    assert forall|i: int| 0 <= i < t.resolved.len() implies !stays(t.roots, t.skip_below, #[trigger] t.resolved[i])
        && found.contains(t.resolved[i]) by {
        if i < s.resolved.len() {
            assert(t.resolved[i] == s.resolved[i]);
        } else {
            assert(s.queue[0].0 == p);
        }
    }
    assert forall|i: int, j: int| 0 <= i < j < t.resolved.len() implies !same_path(
        #[trigger] t.resolved[i],
        #[trigger] t.resolved[j],
    ) by {
        assert(t.resolved[i] == s.resolved[i]);
        if j < s.resolved.len() {
            assert(t.resolved[j] == s.resolved[j]);
        } else {
            assert(!listed(s.resolved, p));
        }
    }
    assert forall|q: Seq<char>| #[trigger] found.contains(q) implies stays(t.roots, t.skip_below, q) || listed(t.resolved, q,
    ) || waiting(t.queue, q) by {
        if listed(s.resolved, q) {
            let i = choose|i: int|
                0 <= i < s.resolved.len() && same_path(#[trigger] s.resolved[i], q);
            assert(t.resolved[i] == s.resolved[i]);
        } else if !stays(s.roots, s.skip_below, q) {
            let i = choose|i: int| 0 <= i < s.queue.len() && (#[trigger] s.queue[i]).0 == q;
            if i > 0 {
                assert(t.queue[i - 1].0 == q);
            } else {
                assert(t.resolved[s.resolved.len() as int] == p);
            }
        }
    }
}

proof fn advancing_keeps(s: ResolverView, found: Set<Seq<char>>)
    requires
        sound(s, found),
        complete(s, found),
    ensures
        sound(advanced(s).0, found),
        complete(advanced(s).0, found),
        advanced(s).0.roots == s.roots,
        advanced(s).0.skip_below == s.skip_below,
        advanced(s).1 matches QuestionView::Done(r) ==> r == in_path_order(
            advanced(s).0.resolved,
        )
            && advanced(s).0.queue.len() == 0,
    decreases s.queue.len(), s.pending.len(),
{
    if s.pending.len() > 0 {
        let name = s.pending[0];
        let rest = ResolverView {
            pending: s.pending.subrange(1, s.pending.len() as int),
            ..s
        };
        assert(sound(rest, found));
        assert(complete(rest, found));
        let asked = ResolverView { asking: name, ..rest };
        assert(sound(asked, found));
        assert(complete(asked, found));
        if s.seen.contains(name) || (s.queued && glibc_core(name)) {
            advancing_keeps(rest, found);
        }
    } else if s.read < s.roots.len() {
    } else if s.queue.len() > 0 {
        taking_keeps(s, found);
        if glibc_core(file_name(s.queue[0].0)) {
            advancing_keeps(taken(s), found);
        }
    }
}

/// The files found in answer to the questions.
pub open spec fn found_in(answers: Seq<AnswerView>) -> Set<Seq<char>> {
    Set::new(|p: Seq<char>| answers.contains(AnswerView::Found(Some(p))))
}

proof fn search_keeps(
    roots: Seq<Seq<char>>,
    skip_below: Seq<Seq<char>>,
    answers: Seq<AnswerView>,
)
    ensures
        ({
            let s = after_answers(roots, skip_below, answers).0;
            &&& s.roots == roots
            &&& s.skip_below == skip_below
            &&& sound(s, found_in(answers))
            &&& complete(s, found_in(answers))
        }),
        after_answers(roots, skip_below, answers).1 matches QuestionView::Done(r) ==> r
            == in_path_order(after_answers(roots, skip_below, answers).0.resolved)
            && after_answers(roots, skip_below, answers).0.queue.len() == 0,
    decreases answers.len(),
{
    let found = found_in(answers);
    if answers.len() == 0 {
        let s = fresh(roots, skip_below);
        advancing_keeps(s, found);
    } else {
        let before = answers.drop_last();
        let a = answers.last();
        search_keeps(roots, skip_below, before);
        let s = after_answers(roots, skip_below, before).0;
        let t = answered(s, a);
        assert forall|p: Seq<char>| #[trigger] found_in(before).contains(p) implies found.contains(
            p,
        ) by {
            let i = choose|i: int|
                0 <= i < before.len() && before[i] == AnswerView::Found(Some(p));
            assert(answers[i] == before[i]);
        }
        assert forall|p: Seq<char>| #[trigger] found.contains(p) implies found_in(before).contains(
            p,
        ) || a == AnswerView::Found(Some(p)) by {
            let i = choose|i: int|
                0 <= i < answers.len() && answers[i] == AnswerView::Found(Some(p));
            if i < before.len() {
                assert(before[i] == answers[i]);
            }
        }
        assert(answers[answers.len() - 1] == a);
        assert(a matches AnswerView::Found(Some(p)) ==> found.contains(p));
        assert forall|i: int| 0 <= i < t.queue.len() implies found.contains(
            (#[trigger] t.queue[i]).0,
        ) || stays(t.roots, t.skip_below, t.queue[i].0) by {
            if i < s.queue.len() {
                assert(t.queue[i] == s.queue[i]);
            } else if a is Info {
                assert(same_path(s.roots[s.read], t.queue[i].0));
            }
        }
        assert(sound(t, found));
        assert forall|p: Seq<char>| #[trigger] found.contains(p) implies stays(t.roots, t.skip_below, p)
            || listed(t.resolved, p) || waiting(t.queue, p) by {
            if found_in(before).contains(p) {
                if !stays(s.roots, s.skip_below, p) && !listed(s.resolved, p) {
                    let i = choose|i: int|
                        0 <= i < s.queue.len() && (#[trigger] s.queue[i]).0 == p;
                    assert(t.queue[i].0 == p);
                }
            } else {
                assert(t.queue[s.queue.len() as int].0 == p);
            }
        }
        advancing_keeps(t, found);
    }
}

/// When the search is done: the glibc runtime is not among the libraries, nor
/// is anything below a skipped directory, nor a root; every library was found
/// in answer to a question; none is listed twice; every file that was found
/// and may travel is listed; and the list is in the order of paths.
pub proof fn what_is_staged(
    roots: Seq<Seq<char>>,
    skip_below: Seq<Seq<char>>,
    answers: Seq<AnswerView>,
)
    requires
        after_answers(roots, skip_below, answers).1 is Done,
    ensures
        ({
            let libs = after_answers(roots, skip_below, answers).1->Done_0;
            &&& forall|i: int|
                0 <= i < libs.len() ==> {
                    &&& !glibc_core(file_name(#[trigger] libs[i]))
                    &&& forall|d: int|
                        0 <= d < skip_below.len() ==> !below(libs[i], #[trigger] skip_below[d])
                    &&& forall|r: int|
                        0 <= r < roots.len() ==> !same_path(#[trigger] roots[r], libs[i])
                    &&& answers.contains(AnswerView::Found(Some(libs[i])))
                }
            &&& forall|i: int, j: int|
                0 <= i < j < libs.len() ==> !same_path(#[trigger] libs[i], #[trigger] libs[j])
            &&& forall|i: int, j: int|
                0 <= i < j < libs.len() ==> path_le(#[trigger] libs[i], #[trigger] libs[j])
            &&& forall|p: Seq<char>|
                #![trigger answers.contains(AnswerView::Found(Some(p)))]
                answers.contains(AnswerView::Found(Some(p))) && !glibc_core(file_name(p)) && (
                forall|d: int| 0 <= d < skip_below.len() ==> !below(p, #[trigger] skip_below[d]))
                    && (forall|r: int|
                    0 <= r < roots.len() ==> !same_path(#[trigger] roots[r], p)) ==> exists|i: int|
                    0 <= i < libs.len() && same_path(#[trigger] libs[i], p)
        }),
{
    search_keeps(roots, skip_below, answers);
    let s = after_answers(roots, skip_below, answers).0;
    let found = s.resolved;
    let libs = in_path_order(found);
    in_path_order_sorts(found);
    assert(paths_differ(found));
    assert forall|i: int| 0 <= i < libs.len() implies {
        &&& !glibc_core(file_name(#[trigger] libs[i]))
        &&& forall|d: int| 0 <= d < skip_below.len() ==> !below(libs[i], #[trigger] skip_below[d])
        &&& forall|r: int| 0 <= r < roots.len() ==> !same_path(#[trigger] roots[r], libs[i])
        &&& answers.contains(AnswerView::Found(Some(libs[i])))
    } by {
        assert(libs.contains(libs[i]));
        let j = choose|j: int| 0 <= j < found.len() && found[j] == libs[i];
        assert(!stays(s.roots, s.skip_below, s.resolved[j]));
        assert(found_in(answers).contains(s.resolved[j]));
    }
    assert forall|p: Seq<char>|
        #![trigger answers.contains(AnswerView::Found(Some(p)))]
        answers.contains(AnswerView::Found(Some(p))) && !glibc_core(file_name(p)) && (forall|d: int|
            0 <= d < skip_below.len() ==> !below(p, #[trigger] skip_below[d])) && (forall|r: int|
            0 <= r < roots.len() ==> !same_path(#[trigger] roots[r], p)) implies exists|i: int|
        0 <= i < libs.len() && same_path(#[trigger] libs[i], p) by {
        assert(found_in(answers).contains(p));
        assert(!stays(s.roots, s.skip_below, p));
        let j = choose|j: int| 0 <= j < found.len() && same_path(#[trigger] found[j], p);
        assert(libs.contains(found[j]));
        let i = choose|i: int| 0 <= i < libs.len() && libs[i] == found[j];
        assert(same_path(libs[i], p));
    }
}

// ---- nothing is forgotten ---------------------------------------------

/// Where the search stood when answer `k` was given.
pub open spec fn stood(
    roots: Seq<Seq<char>>,
    skip_below: Seq<Seq<char>>,
    answers: Seq<AnswerView>,
    k: int,
) -> ResolverView {
    after_answers(roots, skip_below, answers.take(k)).0
}

/// The question that answer `k` was given to.
pub open spec fn asked(
    roots: Seq<Seq<char>>,
    skip_below: Seq<Seq<char>>,
    answers: Seq<AnswerView>,
    k: int,
) -> QuestionView {
    after_answers(roots, skip_below, answers.take(k)).1
}

/// Where the needs of the file that answer `k` speaks of are looked for.
pub open spec fn search_of(
    roots: Seq<Seq<char>>,
    skip_below: Seq<Seq<char>>,
    answers: Seq<AnswerView>,
    k: int,
) -> Seq<Seq<char>> {
    answered(stood(roots, skip_below, answers, k), answers[k]).search
}

/// An answer to what was asked: what a file says, or where one is.
pub open spec fn fits(q: QuestionView, a: AnswerView) -> bool {
    match q {
        QuestionView::Read(_) => a is Info,
        QuestionView::Find(_) => a is Found,
        QuestionView::Done(_) => false,
    }
}

/// Every answer was given to its question.
pub open spec fn fitting(
    roots: Seq<Seq<char>>,
    skip_below: Seq<Seq<char>>,
    answers: Seq<AnswerView>,
) -> bool {
    forall|k: int|
        0 <= k < answers.len() ==> fits(#[trigger] asked(roots, skip_below, answers, k), answers[k])
}

/// Answer `j` says where a soname was found.
pub open spec fn found_at(
    roots: Seq<Seq<char>>,
    skip_below: Seq<Seq<char>>,
    answers: Seq<AnswerView>,
    name: Seq<char>,
    j: int,
) -> bool {
    &&& 0 <= j < answers.len()
    &&& stood(roots, skip_below, answers, j).asking == name
    &&& asked(roots, skip_below, answers, j) == QuestionView::Find(
        candidates(name, stood(roots, skip_below, answers, j).search),
    )
    &&& answers[j] matches AnswerView::Found(Some(_))
}

/// Answer `j` says that a soname is at none of the places a search gives.
pub open spec fn missed_at(
    roots: Seq<Seq<char>>,
    skip_below: Seq<Seq<char>>,
    answers: Seq<AnswerView>,
    name: Seq<char>,
    search: Seq<Seq<char>>,
    j: int,
) -> bool {
    &&& 0 <= j < answers.len()
    &&& asked(roots, skip_below, answers, j) == QuestionView::Find(candidates(name, search))
    &&& answers[j] == AnswerView::Found(None)
}

/// A soname was found, or is nowhere the search leads.
pub open spec fn settled(
    roots: Seq<Seq<char>>,
    skip_below: Seq<Seq<char>>,
    answers: Seq<AnswerView>,
    name: Seq<char>,
    search: Seq<Seq<char>>,
) -> bool {
    ||| exists|j: int| #[trigger] found_at(roots, skip_below, answers, name, j)
    ||| exists|j: int| #[trigger] missed_at(roots, skip_below, answers, name, search, j)
}

/// One of the answers was given to the question what a file says.
pub open spec fn was_read(
    roots: Seq<Seq<char>>,
    skip_below: Seq<Seq<char>>,
    answers: Seq<AnswerView>,
    p: Seq<char>,
) -> bool {
    exists|k: int|
        0 <= k < answers.len() && #[trigger] asked(roots, skip_below, answers, k)
            == QuestionView::Read(p)
}

/// A file was read, or is what is asked for now.
spec fn looked_into(
    roots: Seq<Seq<char>>,
    skip_below: Seq<Seq<char>>,
    answers: Seq<AnswerView>,
    p: Seq<char>,
) -> bool {
    exists|k: int|
        0 <= k <= answers.len() && #[trigger] asked(roots, skip_below, answers, k)
            == QuestionView::Read(p)
}

/// Answer `k` names a soname among what its file needs.
pub open spec fn needed_at(answers: Seq<AnswerView>, k: int, name: Seq<char>) -> bool {
    &&& 0 <= k < answers.len()
    &&& answers[k] matches AnswerView::Info(Some(i)) && i.needed.contains(name)
}

/// A soname is yet to be considered, under the search it has to be looked for.
spec fn in_hand(
    s: ResolverView,
    q: QuestionView,
    name: Seq<char>,
    search: Seq<Seq<char>>,
) -> bool {
    s.search == search && (s.pending.contains(name) || (q is Find && s.asking == name))
}

spec fn nothing_forgotten(
    roots: Seq<Seq<char>>,
    skip_below: Seq<Seq<char>>,
    answers: Seq<AnswerView>,
) -> bool {
    let s = after_answers(roots, skip_below, answers).0;
    let q = after_answers(roots, skip_below, answers).1;
    &&& s.roots == roots
    &&& 0 <= s.read
    &&& q matches QuestionView::Find(c) ==> c == candidates(s.asking, s.search)
    &&& !(q is Find) ==> s.pending.len() == 0
    &&& q is Done ==> s.queue.len() == 0 && s.read >= roots.len()
    &&& q is Read && s.read < roots.len() ==> q == QuestionView::Read(roots[s.read])
    &&& forall|name: Seq<char>| #[trigger]
        s.seen.contains(name) ==> exists|j: int| #[trigger]
            found_at(roots, skip_below, answers, name, j)
    &&& forall|k: int, name: Seq<char>| #[trigger]
        needed_at(answers, k, name) ==> glibc_core(name) || settled(
            roots,
            skip_below,
            answers,
            name,
            search_of(roots, skip_below, answers, k),
        ) || in_hand(s, q, name, search_of(roots, skip_below, answers, k))
    &&& forall|r: int|
        0 <= r < s.read && r < roots.len() ==> looked_into(
            roots,
            skip_below,
            answers,
            #[trigger] roots[r],
        )
    &&& forall|p: Seq<char>| #[trigger]
        answers.contains(AnswerView::Found(Some(p))) ==> glibc_core(file_name(p)) || waiting(
            s.queue,
            p,
        ) || looked_into(roots, skip_below, answers, p)
}

proof fn what_advancing_does(t: ResolverView)
    ensures
        ({
            let u = advanced(t).0;
            let q = advanced(t).1;
            &&& u.roots == t.roots
            &&& u.read == t.read
            &&& u.seen == t.seen
            &&& u.search == t.search
            &&& q matches QuestionView::Find(c) ==> c == candidates(u.asking, u.search)
            &&& !(q is Find) ==> u.pending.len() == 0
            &&& q is Done ==> u.queue.len() == 0 && u.read >= u.roots.len()
            &&& q is Read && u.read < u.roots.len() ==> q == QuestionView::Read(u.roots[u.read])
            &&& forall|name: Seq<char>| #[trigger]
                t.pending.contains(name) ==> glibc_core(name) || t.seen.contains(name) || in_hand(
                    u,
                    q,
                    name,
                    t.search,
                )
            &&& forall|p: Seq<char>| #[trigger]
                waiting(t.queue, p) ==> glibc_core(file_name(p)) || waiting(u.queue, p) || q
                    == QuestionView::Read(p)
        }),
    decreases t.queue.len(), t.pending.len(),
{
    let u = advanced(t).0;
    let q = advanced(t).1;
    if t.pending.len() > 0 {
        let first = t.pending[0];
        let rest = ResolverView {
            pending: t.pending.subrange(1, t.pending.len() as int),
            ..t
        };
        let skipped = t.seen.contains(first) || (t.queued && glibc_core(first));
        if skipped {
            what_advancing_does(rest);
        }
        assert forall|name: Seq<char>| #[trigger] t.pending.contains(name) implies glibc_core(name)
            || t.seen.contains(name) || in_hand(u, q, name, t.search) by {
            let i = choose|i: int| 0 <= i < t.pending.len() && t.pending[i] == name;
            if i > 0 {
                assert(rest.pending[i - 1] == name);
                assert(rest.pending.contains(name));
            }
        }
    } else if t.read < t.roots.len() {
    } else if t.queue.len() > 0 {
        let v = taken(t);
        let core = glibc_core(file_name(t.queue[0].0));
        if core {
            what_advancing_does(v);
        }
        assert forall|p: Seq<char>| #[trigger] waiting(t.queue, p) implies glibc_core(file_name(p))
            || waiting(u.queue, p) || q == QuestionView::Read(p) by {
            let i = choose|i: int| 0 <= i < t.queue.len() && (#[trigger] t.queue[i]).0 == p;
            if i > 0 {
                assert(v.queue[i - 1].0 == p);
                assert(waiting(v.queue, p));
            }
        }
    }
}

/// What was said of the first answers holds with one more.
proof fn one_more_answer(
    roots: Seq<Seq<char>>,
    skip_below: Seq<Seq<char>>,
    answers: Seq<AnswerView>,
)
    requires
        answers.len() > 0,
    ensures
        ({
            let before = answers.drop_last();
            &&& forall|k: int|
                0 <= k <= before.len() ==> #[trigger] answers.take(k) == before.take(k)
            &&& forall|k: int|
                0 <= k <= before.len() ==> #[trigger] before.take(k) == answers.take(k)
            &&& forall|name: Seq<char>, j: int| #[trigger]
                found_at(roots, skip_below, before, name, j) ==> found_at(
                    roots,
                    skip_below,
                    answers,
                    name,
                    j,
                )
            &&& forall|name: Seq<char>, search: Seq<Seq<char>>| #[trigger]
                settled(roots, skip_below, before, name, search) ==> settled(
                    roots,
                    skip_below,
                    answers,
                    name,
                    search,
                )
            &&& forall|p: Seq<char>| #[trigger]
                looked_into(roots, skip_below, before, p) ==> looked_into(
                    roots,
                    skip_below,
                    answers,
                    p,
                )
            &&& stood(roots, skip_below, answers, before.len() as int) == after_answers(
                roots,
                skip_below,
                before,
            ).0
            &&& asked(roots, skip_below, answers, before.len() as int) == after_answers(
                roots,
                skip_below,
                before,
            ).1
            &&& asked(roots, skip_below, answers, answers.len() as int) == after_answers(
                roots,
                skip_below,
                answers,
            ).1
        }),
{
    let before = answers.drop_last();
    assert forall|k: int| 0 <= k <= before.len() implies #[trigger] answers.take(k)
        == before.take(k) by {
        assert(answers.take(k) =~= before.take(k));
    }
    assert forall|k: int| 0 <= k <= before.len() implies #[trigger] before.take(k)
        == answers.take(k) by {
        assert(answers.take(k) =~= before.take(k));
    }
    assert(before.take(before.len() as int) =~= before);
    assert(answers.take(answers.len() as int) =~= answers);
    assert forall|name: Seq<char>, j: int| #[trigger]
        found_at(roots, skip_below, before, name, j) implies found_at(
        roots,
        skip_below,
        answers,
        name,
        j,
    ) by {
        assert(answers.take(j) == before.take(j));
        assert(answers[j] == before[j]);
    }
    assert forall|name: Seq<char>, search: Seq<Seq<char>>| #[trigger]
        settled(roots, skip_below, before, name, search) implies settled(
        roots,
        skip_below,
        answers,
        name,
        search,
    ) by {
        if exists|j: int| #[trigger] found_at(roots, skip_below, before, name, j) {
            let j = choose|j: int| #[trigger] found_at(roots, skip_below, before, name, j);
            assert(found_at(roots, skip_below, answers, name, j));
        } else {
            let j = choose|j: int| #[trigger]
                missed_at(roots, skip_below, before, name, search, j);
            assert(answers.take(j) == before.take(j));
            assert(answers[j] == before[j]);
            assert(missed_at(roots, skip_below, answers, name, search, j));
        }
    }
    assert forall|p: Seq<char>| #[trigger]
        looked_into(roots, skip_below, before, p) implies looked_into(
        roots,
        skip_below,
        answers,
        p,
    ) by {
        let k = choose|k: int|
            0 <= k <= before.len() && #[trigger] asked(roots, skip_below, before, k)
                == QuestionView::Read(p);
        assert(answers.take(k) == before.take(k));
        assert(asked(roots, skip_below, answers, k) == QuestionView::Read(p));
    }
}

#[verifier::spinoff_prover]
proof fn needs_are_kept(
    roots: Seq<Seq<char>>,
    skip_below: Seq<Seq<char>>,
    answers: Seq<AnswerView>,
)
    requires
        answers.len() > 0,
        fits(after_answers(roots, skip_below, answers.drop_last()).1, answers.last()),
        nothing_forgotten(roots, skip_below, answers.drop_last()),
    ensures
        ({
            let s = after_answers(roots, skip_below, answers).0;
            let q = after_answers(roots, skip_below, answers).1;
            &&& forall|name: Seq<char>| #[trigger]
                s.seen.contains(name) ==> exists|j: int| #[trigger]
                    found_at(roots, skip_below, answers, name, j)
            &&& forall|k: int, name: Seq<char>| #[trigger]
                needed_at(answers, k, name) ==> glibc_core(name) || settled(
                    roots,
                    skip_below,
                    answers,
                    name,
                    search_of(roots, skip_below, answers, k),
                ) || in_hand(s, q, name, search_of(roots, skip_below, answers, k))
        }),
{
    let before = answers.drop_last();
    let a = answers.last();
    let n = before.len() as int;
    let s = after_answers(roots, skip_below, before).0;
    let q = after_answers(roots, skip_below, before).1;
    let t = answered(s, a);
    let u = advanced(t).0;
    let v = advanced(t).1;
    one_more_answer(roots, skip_below, answers);
    what_advancing_does(t);
    assert forall|name: Seq<char>| #[trigger] u.seen.contains(name) implies exists|j: int|
        #[trigger] found_at(roots, skip_below, answers, name, j) by {
        if s.seen.contains(name) {
            let j = choose|j: int| #[trigger] found_at(roots, skip_below, before, name, j);
            assert(found_at(roots, skip_below, answers, name, j));
        } else {
            let i = choose|i: int| 0 <= i < t.seen.len() && t.seen[i] == name;
            if i < s.seen.len() {
                assert(s.seen[i] == name);
            }
            assert(found_at(roots, skip_below, answers, name, n));
        }
    }
    assert forall|k: int, name: Seq<char>| #[trigger]
        needed_at(answers, k, name) implies glibc_core(name) || settled(
        roots,
        skip_below,
        answers,
        name,
        search_of(roots, skip_below, answers, k),
    ) || in_hand(u, v, name, search_of(roots, skip_below, answers, k)) by {
        let search = search_of(roots, skip_below, answers, k);
        if k < n {
            assert(answers[k] == before[k]);
            assert(answers.take(k) == before.take(k));
            assert(needed_at(before, k, name));
            assert(search == search_of(roots, skip_below, before, k));
            if !glibc_core(name) && !settled(roots, skip_below, before, name, search) {
                assert(in_hand(s, q, name, search));
                assert(q is Find);
                if s.pending.contains(name) {
                    assert(t.pending.contains(name));
                    assert(t.search == s.search);
                } else {
                    if a is Found && a->Found_0 is Some {
                        assert(found_at(roots, skip_below, answers, name, n));
                    } else {
                        assert(missed_at(roots, skip_below, answers, name, search, n));
                    }
                }
            }
        } else {
            assert(t.pending.contains(name));
            assert(t.search == search);
        }
    }
}

#[verifier::spinoff_prover]
proof fn files_are_kept(
    roots: Seq<Seq<char>>,
    skip_below: Seq<Seq<char>>,
    answers: Seq<AnswerView>,
)
    requires
        answers.len() > 0,
        fits(after_answers(roots, skip_below, answers.drop_last()).1, answers.last()),
        nothing_forgotten(roots, skip_below, answers.drop_last()),
    ensures
        ({
            let s = after_answers(roots, skip_below, answers).0;
            &&& forall|r: int|
                0 <= r < s.read && r < roots.len() ==> looked_into(
                    roots,
                    skip_below,
                    answers,
                    #[trigger] roots[r],
                )
            &&& forall|p: Seq<char>| #[trigger]
                answers.contains(AnswerView::Found(Some(p))) ==> glibc_core(file_name(p))
                    || waiting(s.queue, p) || looked_into(roots, skip_below, answers, p)
        }),
{
    let before = answers.drop_last();
    let a = answers.last();
    let n = before.len() as int;
    let s = after_answers(roots, skip_below, before).0;
    let t = answered(s, a);
    let u = advanced(t).0;
    let v = advanced(t).1;
    one_more_answer(roots, skip_below, answers);
    what_advancing_does(t);
    assert forall|r: int| 0 <= r < u.read && r < roots.len() implies looked_into(
        roots,
        skip_below,
        answers,
        #[trigger] roots[r],
    ) by {
        if r < s.read {
            assert(looked_into(roots, skip_below, before, roots[r]));
        } else {
            assert(asked(roots, skip_below, answers, n) == QuestionView::Read(roots[r]));
        }
    }
    assert forall|p: Seq<char>| #[trigger]
        answers.contains(AnswerView::Found(Some(p))) implies glibc_core(file_name(p)) || waiting(
        u.queue,
        p,
    ) || looked_into(roots, skip_below, answers, p) by {
        let i = choose|i: int| 0 <= i < answers.len() && answers[i] == AnswerView::Found(Some(p));
        if i < n {
            assert(before[i] == AnswerView::Found(Some(p)));
            assert(before.contains(AnswerView::Found(Some(p))));
            if looked_into(roots, skip_below, before, p) {
            } else if waiting(s.queue, p) {
                let w = choose|w: int| 0 <= w < s.queue.len() && (#[trigger] s.queue[w]).0 == p;
                assert(t.queue[w].0 == p);
                assert(waiting(t.queue, p));
            }
        } else {
            assert(t.queue[s.queue.len() as int].0 == p);
            assert(waiting(t.queue, p));
        }
        if v == QuestionView::Read(p) {
            assert(asked(roots, skip_below, answers, answers.len() as int)
                == QuestionView::Read(p));
        }
    }
}

proof fn forgets_nothing(
    roots: Seq<Seq<char>>,
    skip_below: Seq<Seq<char>>,
    answers: Seq<AnswerView>,
)
    requires
        fitting(roots, skip_below, answers),
    ensures
        nothing_forgotten(roots, skip_below, answers),
    decreases answers.len(),
{
    if answers.len() == 0 {
        what_advancing_does(fresh(roots, skip_below));
    } else {
        let before = answers.drop_last();
        one_more_answer(roots, skip_below, answers);
        assert forall|k: int| 0 <= k < before.len() implies fits(
            #[trigger] asked(roots, skip_below, before, k),
            before[k],
        ) by {
            assert(answers.take(k) == before.take(k));
            assert(fits(asked(roots, skip_below, answers, k), answers[k]));
        }
        forgets_nothing(roots, skip_below, before);
        assert(fits(
            asked(roots, skip_below, answers, before.len() as int),
            answers[before.len() as int],
        ));
        what_advancing_does(
            answered(after_answers(roots, skip_below, before).0, answers.last()),
        );
        needs_are_kept(roots, skip_below, answers);
        files_are_kept(roots, skip_below, answers);
    }
}

/// When the search is done, nothing was forgotten. Every soname that a root or
/// a library that was read needs, the glibc runtime aside, was found, or was
/// looked for under that file's own search paths and is nowhere there. Every
/// root was read, and so was every file that was found and is not part of the
/// glibc runtime: what the libraries need in turn was followed to its end.
pub proof fn everything_needed_is_found(
    roots: Seq<Seq<char>>,
    skip_below: Seq<Seq<char>>,
    answers: Seq<AnswerView>,
)
    requires
        fitting(roots, skip_below, answers),
        after_answers(roots, skip_below, answers).1 is Done,
    ensures
        forall|k: int, name: Seq<char>| #[trigger]
            needed_at(answers, k, name) && !glibc_core(name) ==> settled(
                roots,
                skip_below,
                answers,
                name,
                search_of(roots, skip_below, answers, k),
            ),
        forall|r: int|
            0 <= r < roots.len() ==> was_read(roots, skip_below, answers, #[trigger] roots[r]),
        forall|p: Seq<char>| #[trigger]
            answers.contains(AnswerView::Found(Some(p))) && !glibc_core(file_name(p)) ==> was_read(
                roots,
                skip_below,
                answers,
                p,
            ),
{
    forgets_nothing(roots, skip_below, answers);
    assert(answers.take(answers.len() as int) =~= answers);
    assert forall|p: Seq<char>| #[trigger]
        looked_into(roots, skip_below, answers, p) implies was_read(
        roots,
        skip_below,
        answers,
        p,
    ) by {
        let k = choose|k: int|
            0 <= k <= answers.len() && #[trigger] asked(roots, skip_below, answers, k)
                == QuestionView::Read(p);
        assert(k < answers.len());
    }
}

// ---- what the bytes say ----------------------------------------------

/// Numbers are little-endian.
pub proof fn numbers_are_little_endian(b: Seq<u8>, at: int)
    ensures
        le2(b, at) == b[at] + 256 * b[at + 1],
        le4(b, at) == b[at] + 256 * b[at + 1] + 65536 * b[at + 2] + 16777216 * b[at + 3],
        le8(b, at) == b[at] + 256 * b[at + 1] + 65536 * b[at + 2] + 16777216 * b[at + 3]
            + 4294967296 * b[at + 4] + 1099511627776 * b[at + 5] + 281474976710656 * b[at + 6]
            + 72057594037927936 * b[at + 7],
{
}

/// A program header has its kind at its start, its place in the file eight
/// bytes on, its address sixteen and its size in the file thirty-two. The
/// headers stand one entry size apart from where the file says.
pub proof fn where_a_header_says_what(b: Seq<u8>, i: int)
    requires
        is_elf(b),
        0 <= i < le2(b, 56),
    ensures
        file_segments(b).len() == le2(b, 56),
        ({
            let at = le8(b, 32) + i * le2(b, 54);
            let s = file_segments(b)[i];
            &&& s.kind == le4(b, at)
            &&& s.offset == le8(b, at + 8)
            &&& s.vaddr == le8(b, at + 16)
            &&& s.filesz == le8(b, at + 32)
        }),
{
}

/// What is taken for an ELF file: a whole header that starts with the magic
/// number, 64 bits wide, little-endian, and that has a table of program
/// headers of at least their size.
pub proof fn what_is_an_elf_file(b: Seq<u8>)
    ensures
        is_elf(b) <==> b.len() >= 64 && b[0] == 127 && b[1] == 69 && b[2] == 76 && b[3] == 70
            && b[4] == 2 && b[5] == 1 && le8(b, 32) > 0 && le2(b, 54) >= 56 && le2(b, 56) > 0,
{
}

/// An address is found in the first loaded segment that holds it, as far from
/// the segment's place in the file as from its address; and not at all where
/// none does.
pub proof fn the_first_segment_that_holds_it(s: Seq<Segment>, vaddr: u64, i: int)
    requires
        0 <= i <= s.len(),
        forall|k: int|
            0 <= k < i ==> (#[trigger] s[k]).kind != 1 || vaddr < s[k].vaddr || vaddr >= s[k].vaddr
                + s[k].filesz,
        i < s.len() ==> s[i].kind == 1 && s[i].vaddr <= vaddr && vaddr < s[i].vaddr + s[i].filesz,
    ensures
        i < s.len() ==> offset_of(s, vaddr) == Some(s[i].offset + vaddr - s[i].vaddr),
        i == s.len() ==> offset_of(s, vaddr) is None,
    decreases s.len(),
{
    if i > 0 {
        let t = s.subrange(1, s.len() as int);
        assert(s[0].kind != 1 || vaddr < s[0].vaddr || vaddr >= s[0].vaddr + s[0].filesz);
        assert forall|k: int| 0 <= k < i - 1 implies (#[trigger] t[k]).kind != 1 || vaddr
            < t[k].vaddr || vaddr >= t[k].vaddr + t[k].filesz by {
            assert(t[k] == s[k + 1]);
        }
        the_first_segment_that_holds_it(t, vaddr, i - 1);
    }
}

/// Of the segments of a kind the last one counts, and one that comes behind
/// takes its place.
pub proof fn one_segment_more(s: Seq<Segment>, x: Segment, kind: u64)
    ensures
        last_of_kind(Seq::empty(), kind) is None,
        x.kind == kind ==> last_of_kind(s.push(x), kind) == Some(x),
        x.kind != kind ==> last_of_kind(s.push(x), kind) == last_of_kind(s, kind),
{
    assert(s.push(x).drop_last() =~= s);
}

/// One entry more of a dynamic section counts exactly for its own tag: the
/// last value with a tag is the one that holds, and all of them are kept in
/// order.
pub proof fn one_entry_more(e: Seq<(u64, u64)>, x: (u64, u64), tag: u64, or: u64)
    ensures
        last_value(Seq::empty(), tag) is None,
        values_of(Seq::empty(), tag, or).len() == 0,
        x.0 == tag ==> last_value(e.push(x), tag) == Some(x.1),
        x.0 != tag ==> last_value(e.push(x), tag) == last_value(e, tag),
        x.0 == tag || x.0 == or ==> values_of(e.push(x), tag, or) == values_of(e, tag, or).push(
            x.1,
        ),
        x.0 != tag && x.0 != or ==> values_of(e.push(x), tag, or) == values_of(e, tag, or),
{
    assert(e.push(x).drop_last() =~= e);
}

/// A dynamic section is entries of sixteen bytes, tag before value, up to the
/// first whose tag is zero.
pub proof fn an_entry_is_sixteen_bytes(b: Seq<u8>)
    ensures
        b.len() < 16 ==> entries_of(b).len() == 0,
        b.len() >= 16 && le8(b, 0) == 0 ==> entries_of(b).len() == 0,
        b.len() >= 16 && le8(b, 0) != 0 ==> ({
            let e = entries_of(b);
            &&& e.len() > 0
            &&& e[0].0 == le8(b, 0)
            &&& e[0].1 == le8(b, 8)
            &&& e.subrange(1, e.len() as int) == entries_of(b.subrange(16, b.len() as int))
        }),
{
    if b.len() >= 16 && le8(b, 0) != 0 {
        let e = entries_of(b);
        assert(e.subrange(1, e.len() as int) =~= entries_of(b.subrange(16, b.len() as int)));
    }
}

/// A string ends before the first zero byte, and is none where there is no
/// such byte.
pub proof fn a_string_ends_at_the_first_zero(t: Seq<u8>, offset: int, end: int)
    requires
        0 <= offset <= end <= t.len(),
        forall|k: int| offset <= k < end ==> #[trigger] t[k] != 0,
        end < t.len() ==> t[end] == 0,
    ensures
        end < t.len() ==> string_in(t, offset) == Some(lossy(t.subrange(offset, end))),
        end == t.len() ==> string_in(t, offset) is None,
{
    zero_is_at(t, offset, end);
}

proof fn zero_is_at(t: Seq<u8>, i: int, end: int)
    requires
        0 <= i <= end <= t.len(),
        forall|k: int| i <= k < end ==> #[trigger] t[k] != 0,
        end < t.len() ==> t[end] == 0,
    ensures
        end < t.len() ==> zero_from(t, i) == Some(end),
        end == t.len() ==> zero_from(t, i) is None,
    decreases end - i,
{
    if i < end {
        assert(t[i] != 0);
        zero_is_at(t, i + 1, end);
    }
}

/// The string table starts at its offset and is as long as it says, or as the
/// file allows; where it says nothing, a mebibyte of it is read.
pub proof fn how_far_the_strings_go(b: Seq<u8>, offset: int, size: u64)
    requires
        0 <= offset,
    ensures
        ({
            let t = strtab_of(b, offset, size);
            let says: int = if size == 0 { 1_048_576int } else { size as int };
            &&& offset >= b.len() ==> t.len() == 0
            &&& offset < b.len() && says <= b.len() - offset ==> t.len() == says
            &&& offset < b.len() && says > b.len() - offset ==> t.len() == b.len() - offset
            &&& forall|i: int| 0 <= i < t.len() ==> #[trigger] t[i] == b[offset + i]
        }),
{
}

/// What a file says of its dependencies, from its first byte to its last
/// string.
pub proof fn what_a_file_says(b: Seq<u8>, origin: Seq<char>)
    ensures
        ({
            let headers = le8(b, 32) + le2(b, 56) * le2(b, 54);
            let said = dynamic_of(b, origin);
            &&& !is_elf(b) ==> said == Ok::<Option<DynamicView>, OffsetOutOfRange>(None)
            &&& is_elf(b) && le8(b, 32) >= 0x8000_0000_0000_0000 ==> said is Err
            &&& is_elf(b) && le8(b, 32) < 0x8000_0000_0000_0000 && headers > b.len() ==> said == Ok::<
                Option<DynamicView>,
                OffsetOutOfRange,
            >(None)
            &&& is_elf(b) && le8(b, 32) < 0x8000_0000_0000_0000 && headers <= b.len() ==> {
                let last = last_of_kind(file_segments(b), 2);
                &&& last is None ==> said == Ok::<Option<DynamicView>, OffsetOutOfRange>(None)
                &&& last matches Some(d) ==> {
                    &&& d.offset >= 0x8000_0000_0000_0000 ==> said is Err
                    &&& d.offset < 0x8000_0000_0000_0000 && d.offset + d.filesz > b.len() ==> said
                        == Ok::<Option<DynamicView>, OffsetOutOfRange>(None)
                    &&& d.offset < 0x8000_0000_0000_0000 && d.offset + d.filesz <= b.len()
                        ==> what_a_section_says(
                        b,
                        entries_of(b.subrange(d.offset as int, d.offset + d.filesz)),
                        origin,
                        said,
                    )
                }
            }
        }),
{
}

/// What the entries of a dynamic section say: the libraries behind the entries
/// tagged 1 and the search paths behind those tagged 15 or 29, by the strings
/// of the table whose address is tagged 5 and whose size is tagged 10.
pub open spec fn what_a_section_says(
    b: Seq<u8>,
    e: Seq<(u64, u64)>,
    origin: Seq<char>,
    said: Result<Option<DynamicView>, OffsetOutOfRange>,
) -> bool {
    let size: u64 = match last_value(e, 10) {
        Some(n) => n,
        None => 0,
    };
    let place: Option<int> = match last_value(e, 5) {
        Some(a) => offset_of(file_segments(b), a),
        None => None,
    };
    &&& place is None ==> said == Ok::<Option<DynamicView>, OffsetOutOfRange>(None)
    &&& place matches Some(at) ==> {
        &&& at >= 0x8000_0000_0000_0000 ==> said is Err
        &&& at < 0x8000_0000_0000_0000 ==> (said matches Ok(Some(i)) && i.needed == strings_at(
            strtab_of(b, at, size),
            values_of(e, 1, 1),
        ) && i.search_paths == paths_in(
            strings_at(strtab_of(b, at, size), values_of(e, 15, 29)),
            origin,
        ))
    }
}

/// One string more is kept exactly where there is one.
pub proof fn one_string_more(t: Seq<u8>, offsets: Seq<u64>, x: u64)
    ensures
        strings_at(t, Seq::empty()).len() == 0,
        string_in(t, x as int) matches Some(s) ==> strings_at(t, offsets.push(x)) == strings_at(
            t,
            offsets,
        ).push(s),
        string_in(t, x as int) is None ==> strings_at(t, offsets.push(x)) == strings_at(t, offsets),
{
    assert(offsets.push(x).drop_last() =~= offsets);
}

/// One list of search paths more comes behind the others, entry by entry, the
/// empty ones left out.
pub proof fn one_search_path_more(
    lists: Seq<Seq<char>>,
    list: Seq<char>,
    parts: Seq<Seq<char>>,
    part: Seq<char>,
    origin: Seq<char>,
)
    ensures
        paths_in(Seq::empty(), origin).len() == 0,
        paths_in(lists.push(list), origin) == paths_in(lists, origin) + expanded_parts(
            split_on(list, ':'),
            origin,
        ),
        expanded_parts(Seq::empty(), origin).len() == 0,
        part.len() == 0 ==> expanded_parts(parts.push(part), origin) == expanded_parts(
            parts,
            origin,
        ),
        part.len() > 0 ==> expanded_parts(parts.push(part), origin) == expanded_parts(
            parts,
            origin,
        ).push(replaced(replaced(part, "${ORIGIN}"@, origin), "$ORIGIN"@, origin)),
{
    assert(lists.push(list).drop_last() =~= lists);
    assert(parts.push(part).drop_last() =~= parts);
}

/// What is replaced is replaced from the left: what stands before the first
/// occurrence stays, and behind it it goes on.
pub proof fn what_is_replaced(s: Seq<char>, pat: Seq<char>, with: Seq<char>, i: int)
    requires
        pat.len() > 0,
        0 <= i,
        is_at(s, pat, i),
        forall|k: int| 0 <= k < i ==> !#[trigger] is_at(s, pat, k),
    ensures
        replaced(s, pat, with) == s.subrange(0, i) + with + replaced(
            s.subrange(i + pat.len(), s.len() as int),
            pat,
            with,
        ),
{
    split_first_at(s, pat, i);
}

/// Where nothing is to be replaced, nothing changes.
pub proof fn what_is_not_there_is_not_replaced(s: Seq<char>, pat: Seq<char>, with: Seq<char>)
    requires
        !occurs(s, pat),
    ensures
        replaced(s, pat, with) == s,
{
    split_first_nowhere(s, pat);
}

// ---- which libraries travel ------------------------------------------

/// A library is looked for in the search paths first, in their order, and then
/// where the loader looks by itself.
pub proof fn where_a_library_is_looked_for(soname: Seq<char>, search: Seq<Seq<char>>, i: int)
    ensures
        candidates(soname, search).len() == search.len() + 10,
        0 <= i < search.len() ==> candidates(soname, search)[i] == joined_path(search[i], soname),
        ({
            let n = search.len() as int;
            let c = candidates(soname, search);
            &&& c[n] == joined_path("/usr/local/lib"@, soname)
            &&& c[n + 1] == joined_path("/usr/local/lib64"@, soname)
            &&& c[n + 2] == joined_path("/lib/x86_64-linux-gnu"@, soname)
            &&& c[n + 3] == joined_path("/usr/lib/x86_64-linux-gnu"@, soname)
            &&& c[n + 4] == joined_path("/lib/aarch64-linux-gnu"@, soname)
            &&& c[n + 5] == joined_path("/usr/lib/aarch64-linux-gnu"@, soname)
            &&& c[n + 6] == joined_path("/lib64"@, soname)
            &&& c[n + 7] == joined_path("/usr/lib64"@, soname)
            &&& c[n + 8] == joined_path("/lib"@, soname)
            &&& c[n + 9] == joined_path("/usr/lib"@, soname)
        }),
{
}

/// What belongs to the glibc runtime: the loader, the name services, and the
/// libraries that are versioned with them, whatever directory and version
/// they are written with.
pub proof fn what_belongs_to_glibc(soname: Seq<char>)
    ensures
        ({
            let b = base_name(soname);
            let s = stem(b);
            glibc_core(soname) <==> begins_with(b, "ld-linux"@) || begins_with(b, "ld64"@) || b
                == "ld.so"@ || begins_with(b, "libnss_"@) || s == "libc"@ || s == "libm"@ || s
                == "libpthread"@ || s == "libdl"@ || s == "librt"@ || s == "libresolv"@ || s
                == "libutil"@ || s == "libnsl"@ || s == "libanl"@ || s == "libmvec"@ || s
                == "libBrokenLocale"@ || s == "libthread_db"@ || s == "libSegFault"@ || s
                == "libpcprofile"@
        }),
{
    let v = glibc_stems();
    let s = stem(base_name(soname));
    assert(v[0] == "libc"@ && v[1] == "libm"@ && v[2] == "libpthread"@ && v[3] == "libdl"@);
    assert(v[4] == "librt"@ && v[5] == "libresolv"@ && v[6] == "libutil"@ && v[7] == "libnsl"@);
    assert(v[8] == "libanl"@ && v[9] == "libmvec"@ && v[10] == "libBrokenLocale"@);
    assert(v[11] == "libthread_db"@ && v[12] == "libSegFault"@ && v[13] == "libpcprofile"@);
    assert(v.len() == 14);
}

/// What stands behind a library's last slash is its name, and what stands
/// before the first `.so` in it its stem.
pub proof fn a_librarys_name_and_stem(dir: Seq<char>, name: Seq<char>, i: int)
    requires
        forall|k: int| 0 <= k < name.len() ==> #[trigger] name[k] != '/',
        0 <= i,
        is_at(name, ".so"@, i),
        forall|k: int| 0 <= k < i ==> !#[trigger] is_at(name, ".so"@, k),
    ensures
        base_name(dir + seq!['/'] + name) == name,
        base_name(name) == name,
        stem(name) == name.subrange(0, i),
{
    split_first_at(name, ".so"@, i);
    let all = dir + seq!['/'] + name;
    split_last_at(all, '/', dir.len() as int);
    assert(all.subrange(dir.len() as int + 1, all.len() as int) =~= name);
    split_last_none(name, '/');
}

/// A file travels unless it belongs to the glibc runtime, lies in a directory
/// that is staged whole, or is one of the files the search started from.
pub proof fn what_travels(roots: Seq<Seq<char>>, skip_below: Seq<Seq<char>>, p: Seq<char>, i: int)
    ensures
        glibc_core(file_name(p)) ==> stays(roots, skip_below, p),
        0 <= i < skip_below.len() && below(p, skip_below[i]) ==> stays(roots, skip_below, p),
        0 <= i < roots.len() && same_path(roots[i], p) ==> stays(roots, skip_below, p),
        !glibc_core(file_name(p)) && (forall|k: int|
            0 <= k < skip_below.len() ==> !below(p, #[trigger] skip_below[k])) && (forall|k: int|
            0 <= k < roots.len() ==> !same_path(#[trigger] roots[k], p)) ==> !stays(
            roots,
            skip_below,
            p,
        ),
{
}

/// What a file needs is looked for in its own search paths before those of
/// the file that needed it; a file that was found inherits the paths it was
/// found by.
pub proof fn whose_search_paths_count(s: ResolverView, i: DynamicView, p: Seq<char>)
    ensures
        s.read >= s.roots.len() ==> ({
            let t = answered(s, AnswerView::Info(Some(i)));
            &&& t.pending == i.needed
            &&& t.search == i.search_paths + s.inherited
            &&& t.queue == s.queue
            &&& t.read == s.read
            &&& t.resolved == s.resolved
        }),
        s.read < s.roots.len() ==> ({
            let t = answered(s, AnswerView::Info(Some(i)));
            &&& t.pending == i.needed
            &&& t.search == i.search_paths
            &&& t.queue == s.queue.push((s.roots[s.read], i.search_paths))
            &&& t.read == s.read + 1
            &&& t.resolved == s.resolved
        }),
        ({
            let t = answered(s, AnswerView::Found(Some(p)));
            &&& t.queue == s.queue.push((p, s.search))
            &&& t.seen == s.seen.push(s.asking)
            &&& t.pending == s.pending
            &&& t.read == s.read
            &&& t.resolved == s.resolved
        }),
        answered(s, AnswerView::Found(None)) == s,
{
}

} // verus!
