//! Just enough ELF64 to read a symbol table.
//!
//! Every `discord_voice.node` seen so far ships a full `.symtab`: around 64k
//! function symbols, covering the bundled Opus and WebRTC code by name and
//! Discord's own C++ under its mangled names. That is a far better anchor than
//! a byte pattern: a signature can drift or match twice, whereas
//! `opus_encoder_init` is `opus_encoder_init`.
//!
//! Symbols are treated as an optimisation, never a requirement. A stripped
//! build falls back to scanning, which is why the signature catalogue is still
//! carried for every site.
//!
//! Offsets in a file are modelled as mathematical integers, so a sum that does
//! not fit a machine word is simply a place outside the file.

pub mod laws;

use crate::bytes;
use crate::bytes::{u16le, u32le, u64le, u8_at};
use vstd::hash_map::StringHashMap;
use vstd::prelude::*;
use vstd::slice::slice_subrange;

verus! {

broadcast use vstd::hash_map::group_hash_map_axioms;

#[derive(Debug, Clone, Copy)]
pub struct Sym {
    /// Offset of the function within the file.
    pub offset: usize,
    pub size: usize,
}

pub struct Symbols {
    by_name: StringHashMap<Sym>,
}

impl View for Symbols {
    type V = Map<Seq<char>, Sym>;

    closed spec fn view(&self) -> Map<Seq<char>, Sym> {
        self.by_name@
    }
}

impl Symbols {
    pub fn get(&self, name: &str) -> (res: Option<Sym>)
        ensures
            res == (if self@.dom().contains(name@) {
                Some(self@[name@])
            } else {
                None
            }),
    {
        match self.by_name.get(name) {
            Some(sym) => Some(*sym),
            None => None,
        }
    }

    pub fn len(&self) -> (res: usize)
        ensures
            res == self@.len(),
    {
        self.by_name.len()
    }
}

// ---------------------------------------------------------------------------
// What a symbol table holds
// ---------------------------------------------------------------------------

pub const SHT_SYMTAB: u32 = 2;

pub const STT_FUNC: u8 = 2;

pub const PT_LOAD: u32 = 1;

/// The file starts as a little-endian 64-bit ELF does.
pub open spec fn is_elf64(d: Seq<u8>) -> bool {
    &&& d.len() >= 6
    &&& d[0] == 0x7F
    &&& d[1] == 0x45
    &&& d[2] == 0x4C
    &&& d[3] == 0x46
    &&& d[4] == 2
    &&& d[5] == 1
}

/// What one section header says.
pub struct Section {
    pub kind: int,
    pub offset: int,
    pub size: int,
    pub link: int,
    pub entsize: int,
}

/// The `i`-th section header of a table at `shoff` with entries of `shentsize`
/// bytes, if the file holds all of it.
pub open spec fn section(d: Seq<u8>, shoff: int, shentsize: int, i: int) -> Option<Section> {
    let base = shoff + i * shentsize;
    match (
        bytes::u32_at(d, base + 4),
        bytes::u64_at(d, base + 0x18),
        bytes::u64_at(d, base + 0x20),
        bytes::u32_at(d, base + 0x28),
        bytes::u64_at(d, base + 0x38),
    ) {
        (Some(kind), Some(offset), Some(size), Some(link), Some(entsize)) => Some(
            Section { kind, offset, size, link, entsize },
        ),
        _ => None,
    }
}

/// One loadable segment: where it sits in memory, how many of its bytes are in
/// the file, and where in the file they are.
pub struct Segment {
    pub vaddr: int,
    pub filesz: int,
    pub offset: int,
}

/// The loadable segments among the program headers from the `i`-th on, up to the
/// first header that the file does not hold.
pub open spec fn segments_from(
    d: Seq<u8>,
    phoff: int,
    phentsize: int,
    phnum: int,
    i: int,
) -> Seq<Segment>
    decreases phnum - i,
{
    if i >= phnum {
        seq![]
    } else {
        let base = phoff + i * phentsize;
        match bytes::u32_at(d, base) {
            None => seq![],
            Some(kind) => if kind != PT_LOAD {
                segments_from(d, phoff, phentsize, phnum, i + 1)
            } else {
                match (
                    bytes::u64_at(d, base + 0x08),
                    bytes::u64_at(d, base + 0x10),
                    bytes::u64_at(d, base + 0x20),
                ) {
                    (Some(offset), Some(vaddr), Some(filesz)) => seq![
                        Segment { vaddr, filesz, offset },
                    ] + segments_from(d, phoff, phentsize, phnum, i + 1),
                    _ => seq![],
                }
            },
        }
    }
}

/// The loadable segments of a file.
pub open spec fn segments(d: Seq<u8>) -> Seq<Segment> {
    match (bytes::u64_at(d, 0x20), bytes::u16_at(d, 0x36), bytes::u16_at(d, 0x38)) {
        (Some(phoff), Some(phentsize), Some(phnum)) => segments_from(
            d,
            phoff,
            phentsize,
            phnum,
            0,
        ),
        _ => seq![],
    }
}

/// The file offset of a virtual address: through the first segment that holds it.
pub open spec fn translate(segs: Seq<Segment>, vaddr: int) -> Option<int>
    decreases segs.len(),
{
    if segs.len() == 0 {
        None
    } else if segs[0].vaddr <= vaddr < segs[0].vaddr + segs[0].filesz {
        Some(vaddr - segs[0].vaddr + segs[0].offset)
    } else {
        translate(segs.drop_first(), vaddr)
    }
}

/// The first zero byte at or after `at`, or the end.
pub open spec fn terminator(s: Seq<u8>, at: int) -> int
    decreases s.len() - at,
{
    if at >= s.len() || s[at] == 0 {
        at
    } else {
        terminator(s, at + 1)
    }
}

/// The name that starts at `at` in a string table, if it is text.
pub open spec fn name_at(strtab: Seq<u8>, at: int) -> Option<Seq<char>> {
    if at > strtab.len() {
        None
    } else {
        let raw = strtab.subrange(at, terminator(strtab, at));
        if vstd::utf8::valid_utf8(raw) {
            Some(vstd::utf8::decode_utf8(raw))
        } else {
            None
        }
    }
}

/// What one symbol table entry contributes.
pub enum Entry {
    /// The file does not hold all of it.
    Cut,
    /// Not a function with an address in the file and a name.
    Skip,
    Function { name: Seq<char>, sym: Sym },
}

/// A size as a machine word, the largest one where it does not fit.
pub open spec fn clamped(size: int) -> usize {
    if size <= usize::MAX {
        size as usize
    } else {
        usize::MAX
    }
}

/// The entry at offset `e`.
pub open spec fn entry(d: Seq<u8>, segs: Seq<Segment>, strtab: Seq<u8>, e: int) -> Entry {
    match bytes::u32_at(d, e) {
        None => Entry::Cut,
        Some(name_offset) => if e + 4 >= d.len() {
            Entry::Cut
        } else if d[e + 4] & 0xF != STT_FUNC {
            Entry::Skip
        } else {
            match (bytes::u64_at(d, e + 8), bytes::u64_at(d, e + 16)) {
                (Some(value), Some(size)) => if value == 0 {
                    Entry::Skip
                } else {
                    match (translate(segs, value), name_at(strtab, name_offset)) {
                        (Some(offset), Some(name)) => if name.len() == 0 || offset > usize::MAX {
                            Entry::Skip
                        } else {
                            Entry::Function {
                                name,
                                sym: Sym { offset: offset as usize, size: clamped(size) },
                            }
                        },
                        _ => Entry::Skip,
                    }
                },
                _ => Entry::Cut,
            }
        },
    }
}

/// The functions among the first `n` entries of a table at `offset` with entries
/// of `entsize` bytes, each name with its first definition. Duplicates are
/// aliases that share the same code.
pub open spec fn table(
    d: Seq<u8>,
    segs: Seq<Segment>,
    strtab: Seq<u8>,
    offset: int,
    entsize: int,
    n: int,
) -> Option<Map<Seq<char>, Sym>>
    decreases n,
{
    if n <= 0 {
        Some(Map::empty())
    } else {
        match (
            table(d, segs, strtab, offset, entsize, n - 1),
            entry(d, segs, strtab, offset + (n - 1) * entsize),
        ) {
            (None, _) => None,
            (_, Entry::Cut) => None,
            (Some(known), Entry::Skip) => Some(known),
            (Some(known), Entry::Function { name, sym }) => if known.dom().contains(name) {
                Some(known)
            } else {
                Some(known.insert(name, sym))
            },
        }
    }
}

/// The functions of the symbol table that section `s` is.
pub open spec fn table_of(d: Seq<u8>, shoff: int, shentsize: int, s: Section) -> Option<
    Map<Seq<char>, Sym>,
> {
    match section(d, shoff, shentsize, s.link) {
        None => None,
        Some(strings) => if strings.offset + strings.size > d.len() {
            None
        } else {
            match table(
                d,
                segments(d),
                d.subrange(strings.offset, strings.offset + strings.size),
                s.offset,
                s.entsize,
                s.size / s.entsize,
            ) {
                Some(known) => if known.len() == 0 {
                    None
                } else {
                    Some(known)
                },
                None => None,
            }
        },
    }
}

/// The functions of the first symbol table among the sections from the `i`-th on.
pub open spec fn tables_from(
    d: Seq<u8>,
    shoff: int,
    shentsize: int,
    shnum: int,
    i: int,
) -> Option<Map<Seq<char>, Sym>>
    decreases shnum - i,
{
    if i >= shnum {
        None
    } else {
        match section(d, shoff, shentsize, i) {
            None => None,
            Some(s) => if s.kind != SHT_SYMTAB || s.entsize < 24 {
                tables_from(d, shoff, shentsize, shnum, i + 1)
            } else {
                table_of(d, shoff, shentsize, s)
            },
        }
    }
}

/// The function symbols of a file.
pub open spec fn function_symbols(d: Seq<u8>) -> Option<Map<Seq<char>, Sym>> {
    if !is_elf64(d) {
        None
    } else {
        match (bytes::u64_at(d, 0x28), bytes::u16_at(d, 0x3A), bytes::u16_at(d, 0x3C)) {
            (Some(shoff), Some(shentsize), Some(shnum)) => if shoff == 0 || shentsize < 64
                || shnum == 0 {
                None
            } else {
                tables_from(d, shoff, shentsize, shnum, 0)
            },
            _ => None,
        }
    }
}

// ---------------------------------------------------------------------------
// Reading it
// ---------------------------------------------------------------------------

/// `str::from_utf8`: the text that the bytes encode, where they are valid UTF-8.
#[verifier::external_body]
fn utf8_text(raw: &[u8]) -> (res: Option<String>)
    ensures
        res is Some == vstd::utf8::valid_utf8(raw@),
        res matches Some(s) ==> s@ == vstd::utf8::decode_utf8(raw@),
{
    match std::str::from_utf8(raw) {
        Ok(s) => Some(s.to_string()),
        Err(_) => None,
    }
}

struct RawSection {
    kind: u32,
    offset: u64,
    size: u64,
    link: u32,
    entsize: u64,
}

impl View for RawSection {
    type V = Section;

    closed spec fn view(&self) -> Section {
        Section {
            kind: self.kind as int,
            offset: self.offset as int,
            size: self.size as int,
            link: self.link as int,
            entsize: self.entsize as int,
        }
    }
}

fn read_section(data: &[u8], shoff: u64, shentsize: u16, i: u32) -> (res: Option<RawSection>)
    ensures
        res is Some == section(data@, shoff as int, shentsize as int, i as int) is Some,
        res matches Some(s) ==> section(data@, shoff as int, shentsize as int, i as int) == Some(
            s@,
        ),
{
    assert(0 <= i * shentsize < 0x1_0000_0000_0000) by (nonlinear_arith)
        requires
            0 <= i <= 0xFFFF_FFFF,
            0 <= shentsize <= 0xFFFF,
    ;
    let base: u128 = shoff as u128 + (i as u128) * (shentsize as u128);
    let kind: Option<u32> = u32le(data, base + 4);
    let offset: Option<u64> = u64le(data, base + 0x18);
    let size: Option<u64> = u64le(data, base + 0x20);
    let link: Option<u32> = u32le(data, base + 0x28);
    let entsize: Option<u64> = u64le(data, base + 0x38);
    match (kind, offset, size, link, entsize) {
        (Some(kind), Some(offset), Some(size), Some(link), Some(entsize)) => Some(
            RawSection { kind, offset, size, link, entsize },
        ),
        _ => None,
    }
}

struct RawSegment {
    vaddr: u64,
    filesz: u64,
    offset: u64,
}

spec fn raw_segments(list: Seq<RawSegment>) -> Seq<Segment> {
    list.map_values(
        |s: RawSegment|
            Segment { vaddr: s.vaddr as int, filesz: s.filesz as int, offset: s.offset as int },
    )
}

/// The PT_LOAD program headers.
fn load_segments(data: &[u8]) -> (res: Vec<RawSegment>)
    ensures
        raw_segments(res@) == segments(data@),
{
    let mut segs: Vec<RawSegment> = Vec::new();
    let phoff: u64 = match u64le(data, 0x20) {
        Some(v) => v,
        None => {
            assert(raw_segments(segs@) =~= segments(data@));
            return segs;
        },
    };
    let phentsize: u16 = match u16le(data, 0x36) {
        Some(v) => v,
        None => {
            assert(raw_segments(segs@) =~= segments(data@));
            return segs;
        },
    };
    let phnum: u16 = match u16le(data, 0x38) {
        Some(v) => v,
        None => {
            assert(raw_segments(segs@) =~= segments(data@));
            return segs;
        },
    };
    let mut i: u16 = 0;
    assert(raw_segments(segs@) + segments_from(
        data@,
        phoff as int,
        phentsize as int,
        phnum as int,
        0,
    ) =~= segments(data@));
    while i < phnum
        invariant
            i <= phnum,
            raw_segments(segs@) + segments_from(
                data@,
                phoff as int,
                phentsize as int,
                phnum as int,
                i as int,
            ) == segments(data@),
        decreases phnum - i,
    {
        assert(0 <= i * phentsize < 0x1_0000_0000) by (nonlinear_arith)
            requires
                0 <= i <= 0xFFFF,
                0 <= phentsize <= 0xFFFF,
        ;
        let base: u128 = phoff as u128 + (i as u128) * (phentsize as u128);
        let ghost rest = segments_from(
            data@,
            phoff as int,
            phentsize as int,
            phnum as int,
            i + 1,
        );
        match u32le(data, base) {
            None => {
                assert(raw_segments(segs@) =~= segments(data@));
                return segs;
            },
            Some(kind) => {
                if kind == PT_LOAD {
                    let offset: Option<u64> = u64le(data, base + 0x08);
                    let vaddr: Option<u64> = u64le(data, base + 0x10);
                    let filesz: Option<u64> = u64le(data, base + 0x20);
                    match (offset, vaddr, filesz) {
                        (Some(offset), Some(vaddr), Some(filesz)) => {
                            let seg = RawSegment { vaddr, filesz, offset };
                            let ghost before = segs@;
                            segs.push(seg);
                            assert(raw_segments(segs@) + rest =~= raw_segments(before) + (seq![
                                Segment {
                                    vaddr: vaddr as int,
                                    filesz: filesz as int,
                                    offset: offset as int,
                                },
                            ] + rest));
                        },
                        _ => {
                            assert(raw_segments(segs@) =~= segments(data@));
                            return segs;
                        },
                    }
                }
            },
        }
        i = i + 1;
    }
    assert(raw_segments(segs@) =~= segments(data@));
    segs
}

fn find_offset(segs: &Vec<RawSegment>, vaddr: u64) -> (res: Option<u128>)
    ensures
        res is Some == translate(raw_segments(segs@), vaddr as int) is Some,
        res matches Some(v) ==> translate(raw_segments(segs@), vaddr as int) == Some(v as int),
{
    let mut i: usize = 0;
    let ghost all = raw_segments(segs@);
    assert(all.skip(0) =~= all);
    while i < segs.len()
        invariant
            i <= segs@.len(),
            all == raw_segments(segs@),
            translate(all, vaddr as int) == translate(all.skip(i as int), vaddr as int),
        decreases segs.len() - i,
    {
        let v: u64 = segs[i].vaddr;
        assert(all.skip(i as int)[0] == all[i as int]);
        assert(all.skip(i as int).drop_first() =~= all.skip(i + 1));
        if vaddr >= v && ((vaddr - v) as u64) < segs[i].filesz {
            return Some((vaddr - v) as u128 + segs[i].offset as u128);
        }
        i = i + 1;
    }
    None
}

fn cstr(strtab: &[u8], at: u32) -> (res: Option<String>)
    ensures
        res is Some == name_at(strtab@, at as int) is Some,
        res matches Some(s) ==> name_at(strtab@, at as int) == Some(s@),
{
    if at as u128 > strtab.len() as u128 {
        return None;
    }
    let start: usize = at as usize;
    let mut end: usize = start;
    while end < strtab.len() && strtab[end] != 0
        invariant
            start <= end <= strtab@.len(),
            terminator(strtab@, start as int) == terminator(strtab@, end as int),
        decreases strtab@.len() - end,
    {
        end = end + 1;
    }
    utf8_text(slice_subrange(strtab, start, end))
}

enum RawEntry {
    Cut,
    Skip,
    Function(String, Sym),
}

fn read_entry(data: &[u8], segs: &Vec<RawSegment>, strtab: &[u8], e: u128) -> (res: RawEntry)
    requires
        e < 0x2_0000_0000_0000_0000,
    ensures
        match (res, entry(data@, raw_segments(segs@), strtab@, e as int)) {
            (RawEntry::Cut, Entry::Cut) => true,
            (RawEntry::Skip, Entry::Skip) => true,
            (RawEntry::Function(text, sym), Entry::Function { name, sym: s }) => text@ == name
                && sym == s,
            _ => false,
        },
{
    let st_name: u32 = match u32le(data, e) {
        Some(v) => v,
        None => {
            return RawEntry::Cut;
        },
    };
    let st_info: u8 = match u8_at(data, e + 4) {
        Some(v) => v,
        None => {
            return RawEntry::Cut;
        },
    };
    if st_info & 0xF != STT_FUNC {
        return RawEntry::Skip;
    }
    let st_value: u64 = match u64le(data, e + 8) {
        Some(v) => v,
        None => {
            return RawEntry::Cut;
        },
    };
    let st_size: u64 = match u64le(data, e + 16) {
        Some(v) => v,
        None => {
            return RawEntry::Cut;
        },
    };
    if st_value == 0 {
        return RawEntry::Skip;
    }
    let offset: u128 = match find_offset(segs, st_value) {
        Some(v) => v,
        None => {
            return RawEntry::Skip;
        },
    };
    let name = match cstr(strtab, st_name) {
        Some(s) => s,
        None => {
            return RawEntry::Skip;
        },
    };
    if name.as_str().unicode_len() == 0 || offset > usize::MAX as u128 {
        return RawEntry::Skip;
    }
    let size: usize = if st_size as u128 <= usize::MAX as u128 {
        st_size as usize
    } else {
        usize::MAX
    };
    RawEntry::Function(name, Sym { offset: offset as usize, size })
}

fn read_table(data: &[u8], segs: &Vec<RawSegment>, strtab: &[u8], section: &RawSection) -> (res:
    Option<StringHashMap<Sym>>)
    requires
        section.entsize >= 24,
    ensures
        ({
            let all = table(
                data@,
                raw_segments(segs@),
                strtab@,
                section@.offset,
                section@.entsize,
                section@.size / section@.entsize,
            );
            &&& res is Some == all is Some
            &&& res matches Some(known) ==> all == Some(known@)
        }),
{
    let count: u64 = section.size / section.entsize;
    let mut known: StringHashMap<Sym> = StringHashMap::new();
    let ghost segments = raw_segments(segs@);
    let ghost off = section.offset as int;
    let ghost ent = section.entsize as int;
    let mut n: u64 = 0;
    while n < count
        invariant
            n <= count,
            count == section.size / section.entsize,
            section.entsize >= 24,
            segments == raw_segments(segs@),
            off == section.offset,
            ent == section.entsize,
            table(data@, segments, strtab@, off, ent, n as int) == Some(known@),
        decreases count - n,
    {
        assert(0 <= n * section.entsize <= section.size) by (nonlinear_arith)
            requires
                0 <= n < section.size / section.entsize,
                section.entsize >= 24,
                section.size >= 0,
        ;
        let e: u128 = section.offset as u128 + (n as u128) * (section.entsize as u128);
        let ghost next = table(data@, segments, strtab@, off, ent, n + 1);
        match read_entry(data, segs, strtab, e) {
            RawEntry::Cut => {
                assert(next is None);
                proof {
                    lemma_table_stays_cut(
                        data@,
                        segments,
                        strtab@,
                        off,
                        ent,
                        n + 1,
                        count as int,
                    );
                }
                return None;
            },
            RawEntry::Skip => {},
            RawEntry::Function(name, sym) => {
                if !known.contains_key(name.as_str()) {
                    known.insert(name, sym);
                }
            },
        }
        n = n + 1;
    }
    Some(known)
}

proof fn lemma_table_stays_cut(
    d: Seq<u8>,
    segs: Seq<Segment>,
    strtab: Seq<u8>,
    offset: int,
    entsize: int,
    n: int,
    m: int,
)
    requires
        n <= m,
        table(d, segs, strtab, offset, entsize, n) is None,
    ensures
        table(d, segs, strtab, offset, entsize, m) is None,
    decreases m - n,
{
    if n < m {
        lemma_table_stays_cut(d, segs, strtab, offset, entsize, n, m - 1);
        assert(m > 0) by {
            if m <= 0 {
                assert(table(d, segs, strtab, offset, entsize, n) is Some);
            }
        }
    }
}

/// The functions of the symbol table that `section` is, by name.
fn read_symtab(data: &[u8], shoff: u64, shentsize: u16, section: &RawSection) -> (res: Option<
    Symbols,
>)
    requires
        section.entsize >= 24,
    ensures
        ({
            let all = table_of(data@, shoff as int, shentsize as int, section@);
            &&& res is Some == all is Some
            &&& res matches Some(s) ==> all == Some(s@)
        }),
{
    let strings = match read_section(data, shoff, shentsize, section.link) {
        Some(s) => s,
        None => {
            return None;
        },
    };
    let end: u128 = strings.offset as u128 + strings.size as u128;
    if end > data.len() as u128 {
        return None;
    }
    let strtab: &[u8] = slice_subrange(data, strings.offset as usize, end as usize);
    let segs = load_segments(data);
    match read_table(data, &segs, strtab, section) {
        Some(known) => {
            if known.len() == 0 {
                None
            } else {
                Some(Symbols { by_name: known })
            }
        },
        None => None,
    }
}

fn read_magic(data: &[u8]) -> (res: bool)
    ensures
        res == is_elf64(data@),
{
    data.len() >= 6 && data[0] == 0x7F && data[1] == 0x45 && data[2] == 0x4C && data[3] == 0x46
        && data[4] == 2 && data[5] == 1
}

/// Read the function symbols of a little-endian 64-bit ELF.
///
/// Returns `None` for anything that is not one, or that carries no `.symtab`;
/// callers treat that as "fall back to scanning" rather than as an error.
pub fn symbols(data: &[u8]) -> (res: Option<Symbols>)
    ensures
        res is Some == function_symbols(data@) is Some,
        res matches Some(s) ==> function_symbols(data@) == Some(s@),
{
    if !read_magic(data) {
        return None;
    }
    let shoff: u64 = match u64le(data, 0x28) {
        Some(v) => v,
        None => {
            return None;
        },
    };
    let shentsize: u16 = match u16le(data, 0x3A) {
        Some(v) => v,
        None => {
            return None;
        },
    };
    let shnum: u16 = match u16le(data, 0x3C) {
        Some(v) => v,
        None => {
            return None;
        },
    };
    if shoff == 0 || shentsize < 64 || shnum == 0 {
        return None;
    }
    let ghost all = tables_from(data@, shoff as int, shentsize as int, shnum as int, 0);
    let mut i: u16 = 0;
    while i < shnum
        invariant
            i <= shnum,
            all == function_symbols(data@),
            all == tables_from(data@, shoff as int, shentsize as int, shnum as int, i as int),
        decreases shnum - i,
    {
        match read_section(data, shoff, shentsize, i as u32) {
            None => {
                return None;
            },
            Some(section) => {
                if section.kind == SHT_SYMTAB && section.entsize >= 24 {
                    return read_symtab(data, shoff, shentsize, &section);
                }
            },
        }
        i = i + 1;
    }
    None
}

// ---------------------------------------------------------------------------
// Laws
// ---------------------------------------------------------------------------

/// A symbol table that was read is never empty: a file without function symbols
/// counts as one without a table.
pub proof fn law_symbols_are_never_empty(d: Seq<u8>)
    ensures
        function_symbols(d) matches Some(known) ==> known.len() > 0,
{
    if is_elf64(d) {
        match (bytes::u64_at(d, 0x28), bytes::u16_at(d, 0x3A), bytes::u16_at(d, 0x3C)) {
            (Some(shoff), Some(shentsize), Some(shnum)) => {
                lemma_tables_are_never_empty(d, shoff, shentsize, shnum, 0);
            },
            _ => {},
        }
    }
}

proof fn lemma_tables_are_never_empty(d: Seq<u8>, shoff: int, shentsize: int, shnum: int, i: int)
    ensures
        tables_from(d, shoff, shentsize, shnum, i) matches Some(known) ==> known.len() > 0,
    decreases shnum - i,
{
    if i < shnum {
        lemma_tables_are_never_empty(d, shoff, shentsize, shnum, i + 1);
    }
}

/// The first definition of a name is the one that is kept: reading further
/// entries never changes what a name already stands for.
pub proof fn law_first_definition_is_kept(
    d: Seq<u8>,
    segs: Seq<Segment>,
    strtab: Seq<u8>,
    offset: int,
    entsize: int,
    n: int,
    m: int,
    name: Seq<char>,
)
    requires
        0 <= n <= m,
        table(d, segs, strtab, offset, entsize, m) is Some,
        table(d, segs, strtab, offset, entsize, n) matches Some(known) && known.dom().contains(
            name,
        ),
    ensures
        table(d, segs, strtab, offset, entsize, m)->0.dom().contains(name),
        table(d, segs, strtab, offset, entsize, m)->0[name] == table(
            d,
            segs,
            strtab,
            offset,
            entsize,
            n,
        )->0[name],
    decreases m - n,
{
    if n < m {
        law_first_definition_is_kept(d, segs, strtab, offset, entsize, n, m - 1, name);
    }
}

} // verus!
