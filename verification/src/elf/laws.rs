//! What the symbols of a file are, said of its headers and tables.

use crate::bytes;
use crate::elf;
use crate::elf::{Entry, Section, Segment, Sym};
use vstd::prelude::*;

verus! {

/// The number that the `len` bytes at `at` denote, the lowest first.
pub open spec fn num(d: Seq<u8>, at: int, len: nat) -> int
    decreases len,
{
    if len == 0 {
        0
    } else {
        d[at] + 256 * num(d, at + 1, (len - 1) as nat)
    }
}

proof fn lemma_num(d: Seq<u8>, at: int)
    ensures
        bytes::u16_at(d, at) == if 0 <= at && at + 2 <= d.len() {
            Some(num(d, at, 2))
        } else {
            None
        },
        bytes::u32_at(d, at) == if 0 <= at && at + 4 <= d.len() {
            Some(num(d, at, 4))
        } else {
            None
        },
        bytes::u64_at(d, at) == if 0 <= at && at + 8 <= d.len() {
            Some(num(d, at, 8))
        } else {
            None
        },
        num(d, at, 2) >= 0,
        num(d, at, 4) >= 0,
        num(d, at, 8) >= 0,
{
    reveal_with_fuel(num, 9);
}

// ---------------------------------------------------------------------------
// Segments
// ---------------------------------------------------------------------------

/// How many program headers the file says it has.
pub open spec fn headers(d: Seq<u8>) -> int {
    num(d, 0x38, 2)
}

/// Where program header `j` stands.
pub open spec fn header(d: Seq<u8>, j: int) -> int {
    num(d, 0x20, 8) + j * num(d, 0x36, 2)
}

/// The file holds its program headers, as far as they are read.
pub open spec fn holds_its_headers(d: Seq<u8>) -> bool {
    &&& d.len() >= 0x3A
    &&& forall|j: int| 0 <= j < headers(d) ==> #[trigger] header(d, j) + 0x28 <= d.len()
}

/// Program header `j` says that a part of the file is loaded.
pub open spec fn is_load(d: Seq<u8>, j: int) -> bool {
    0 <= j < headers(d) && num(d, header(d, j), 4) == 1
}

/// Program header `j` as a segment.
pub open spec fn loaded(d: Seq<u8>, j: int) -> Segment {
    Segment {
        vaddr: num(d, header(d, j) + 0x10, 8),
        filesz: num(d, header(d, j) + 0x20, 8),
        offset: num(d, header(d, j) + 0x08, 8),
    }
}

/// Some program header says that the segment is loaded.
pub open spec fn is_loaded(d: Seq<u8>, s: Segment) -> bool {
    exists|j: int| #[trigger] is_load(d, j) && s == loaded(d, j)
}

/// The address lies in the part of the file that header `j` loads.
pub open spec fn has_address(d: Seq<u8>, j: int, vaddr: int) -> bool {
    is_load(d, j) && loaded(d, j).vaddr <= vaddr < loaded(d, j).vaddr + loaded(d, j).filesz
}

spec fn rest(d: Seq<u8>, i: int) -> Seq<Segment> {
    elf::segments_from(d, num(d, 0x20, 8), num(d, 0x36, 2), headers(d), i)
}

proof fn lemma_rest(d: Seq<u8>, i: int)
    requires
        holds_its_headers(d),
        0 <= i < headers(d),
    ensures
        rest(d, i) == if is_load(d, i) {
            seq![loaded(d, i)] + rest(d, i + 1)
        } else {
            rest(d, i + 1)
        },
{
    let base = header(d, i);
    lemma_num(d, 0x20);
    lemma_num(d, 0x36);
    assert(i * num(d, 0x36, 2) >= 0) by (nonlinear_arith)
        requires
            i >= 0,
            num(d, 0x36, 2) >= 0,
    ;
    lemma_num(d, base);
    lemma_num(d, base + 0x08);
    lemma_num(d, base + 0x10);
    lemma_num(d, base + 0x20);
}

proof fn lemma_segments(d: Seq<u8>)
    requires
        d.len() >= 0x3A,
    ensures
        elf::segments(d) == rest(d, 0),
{
    lemma_num(d, 0x20);
    lemma_num(d, 0x36);
    lemma_num(d, 0x38);
}

proof fn lemma_load_is_read(d: Seq<u8>, i: int, j: int)
    requires
        holds_its_headers(d),
        0 <= i <= j,
        is_load(d, j),
    ensures
        rest(d, i).contains(loaded(d, j)),
    decreases j - i,
{
    lemma_rest(d, i);
    if i == j {
        assert(rest(d, i)[0] == loaded(d, j));
    } else {
        lemma_load_is_read(d, i + 1, j);
        let more = rest(d, i + 1);
        let k = choose|k: int| 0 <= k < more.len() && more[k] == loaded(d, j);
        if is_load(d, i) {
            assert(rest(d, i)[k + 1] == loaded(d, j));
        } else {
            assert(rest(d, i)[k] == loaded(d, j));
        }
    }
}

proof fn lemma_read_is_load(d: Seq<u8>, i: int, k: int) -> (j: int)
    requires
        holds_its_headers(d),
        0 <= i,
        0 <= k < rest(d, i).len(),
    ensures
        i <= j,
        is_load(d, j),
        rest(d, i)[k] == loaded(d, j),
    decreases headers(d) - i,
{
    lemma_rest(d, i);
    if !is_load(d, i) {
        lemma_read_is_load(d, i + 1, k)
    } else if k == 0 {
        i
    } else {
        assert(rest(d, i)[k] == rest(d, i + 1)[k - 1]);
        lemma_read_is_load(d, i + 1, k - 1)
    }
}

/// In a file that holds its program headers, every header that loads a part of the
/// file is among the segments, and every segment is one.
pub proof fn law_every_loaded_part_is_a_segment(d: Seq<u8>)
    requires
        holds_its_headers(d),
    ensures
        forall|j: int| #[trigger] is_load(d, j) ==> elf::segments(d).contains(loaded(d, j)),
        forall|k: int|
            0 <= k < elf::segments(d).len() ==> is_loaded(d, #[trigger] elf::segments(d)[k]),
{
    lemma_segments(d);
    assert forall|j: int| #[trigger] is_load(d, j) implies elf::segments(d).contains(
        loaded(d, j),
    ) by {
        lemma_load_is_read(d, 0, j);
    }
    assert forall|k: int| 0 <= k < elf::segments(d).len() implies is_loaded(
        d,
        #[trigger] elf::segments(d)[k],
    ) by {
        let j = lemma_read_is_load(d, 0, k);
        assert(is_load(d, j));
    }
}

proof fn lemma_translates(d: Seq<u8>, vaddr: int, i: int)
    requires
        holds_its_headers(d),
        0 <= i,
    ensures
        elf::translate(rest(d, i), vaddr) is None ==> forall|j: int|
            i <= j ==> !#[trigger] has_address(d, j, vaddr),
        elf::translate(rest(d, i), vaddr) matches Some(o) ==> exists|j: int|
            i <= j && #[trigger] has_address(d, j, vaddr) && o == vaddr - loaded(d, j).vaddr
                + loaded(d, j).offset && forall|h: int|
                i <= h < j ==> !#[trigger] has_address(d, h, vaddr),
    decreases headers(d) - i,
{
    if i < headers(d) {
        lemma_rest(d, i);
        lemma_translates(d, vaddr, i + 1);
        let tail = elf::translate(rest(d, i + 1), vaddr);
        if has_address(d, i, vaddr) {
            assert(rest(d, i)[0] == loaded(d, i));
        } else {
            if is_load(d, i) {
                assert(rest(d, i)[0] == loaded(d, i));
                assert(rest(d, i).drop_first() =~= rest(d, i + 1));
            }
            assert(elf::translate(rest(d, i), vaddr) == tail);
            if let Some(o) = tail {
                let j = choose|j: int|
                    i + 1 <= j && #[trigger] has_address(d, j, vaddr) && o == vaddr - loaded(
                        d,
                        j,
                    ).vaddr + loaded(d, j).offset && forall|h: int|
                        i + 1 <= h < j ==> !#[trigger] has_address(d, h, vaddr);
                assert forall|h: int| i <= h < j implies !#[trigger] has_address(d, h, vaddr) by {
                    if h == i {
                    }
                }
            } else {
                assert forall|j: int| i <= j implies !#[trigger] has_address(d, j, vaddr) by {
                    if j == i {
                    }
                }
            }
        }
    } else {
        assert(rest(d, i).len() == 0);
    }
}

/// An address is in the file exactly where some header loads the part of the file that
/// it lies in, and then it is as far into that part of the file as it is into the
/// memory; of several headers that load it, the first counts.
pub proof fn law_an_address_is_where_it_is_loaded_from(d: Seq<u8>, vaddr: int, j: int)
    requires
        holds_its_headers(d),
    ensures
        has_address(d, j, vaddr) ==> elf::translate(elf::segments(d), vaddr) is Some,
        has_address(d, j, vaddr) && (forall|h: int|
            0 <= h < j ==> !#[trigger] has_address(d, h, vaddr)) ==> elf::translate(
            elf::segments(d),
            vaddr,
        ) == Some(vaddr - loaded(d, j).vaddr + loaded(d, j).offset),
        elf::translate(elf::segments(d), vaddr) is Some ==> exists|h: int| #[trigger]
            has_address(d, h, vaddr),
{
    lemma_segments(d);
    lemma_translates(d, vaddr, 0);
    let found = elf::translate(elf::segments(d), vaddr);
    if let Some(o) = found {
        let k = choose|k: int|
            0 <= k && #[trigger] has_address(d, k, vaddr) && o == vaddr - loaded(d, k).vaddr
                + loaded(d, k).offset && forall|h: int|
                0 <= h < k ==> !#[trigger] has_address(d, h, vaddr);
        if has_address(d, j, vaddr) && forall|h: int|
            0 <= h < j ==> !#[trigger] has_address(d, h, vaddr) {
            assert(k == j) by {
                if k < j {
                    assert(!has_address(d, k, vaddr));
                }
                if j < k {
                    assert(!has_address(d, j, vaddr));
                }
            }
        }
    } else {
        assert(!has_address(d, j, vaddr));
    }
}

// ---------------------------------------------------------------------------
// Symbols
// ---------------------------------------------------------------------------

/// Where section header `i` stands.
pub open spec fn section_header(d: Seq<u8>, i: int) -> int {
    num(d, 0x28, 8) + i * num(d, 0x3A, 2)
}

/// The file holds section header `i`.
pub open spec fn holds_section(d: Seq<u8>, i: int) -> bool {
    section_header(d, i) + 0x40 <= d.len()
}

/// Section `i` is a symbol table with entries of a usable size.
pub open spec fn is_symtab(d: Seq<u8>, i: int) -> bool {
    num(d, section_header(d, i) + 0x04, 4) == 2 && num(d, section_header(d, i) + 0x38, 8) >= 24
}

/// How many symbols the table of section `i` has.
pub open spec fn symbol_count(d: Seq<u8>, i: int) -> int {
    num(d, section_header(d, i) + 0x20, 8) / num(d, section_header(d, i) + 0x38, 8)
}

/// Where symbol `n` of the table of section `i` stands.
pub open spec fn symbol(d: Seq<u8>, i: int, n: int) -> int {
    num(d, section_header(d, i) + 0x18, 8) + n * num(d, section_header(d, i) + 0x38, 8)
}

/// The section that holds the names for the table of section `i`.
pub open spec fn strings_of(d: Seq<u8>, i: int) -> int {
    num(d, section_header(d, i) + 0x28, 4)
}

/// Where the names start in the file.
pub open spec fn strings_start(d: Seq<u8>, i: int) -> int {
    num(d, section_header(d, strings_of(d, i)) + 0x18, 8)
}

/// Where they end.
pub open spec fn strings_end(d: Seq<u8>, i: int) -> int {
    strings_start(d, i) + num(d, section_header(d, strings_of(d, i)) + 0x20, 8)
}

/// The file is a little-endian 64-bit ELF that has section headers, and section `i` is
/// the first symbol table of it; the file holds the headers up to there, the table, and
/// its names.
pub open spec fn has_symtab(d: Seq<u8>, i: int) -> bool {
    &&& d.len() >= 0x3E
    &&& d[0] == 0x7F && d[1] == 0x45 && d[2] == 0x4C && d[3] == 0x46
    &&& d[4] == 2 && d[5] == 1
    &&& num(d, 0x28, 8) > 0
    &&& num(d, 0x3A, 2) >= 64
    &&& 0 <= i < num(d, 0x3C, 2)
    &&& is_symtab(d, i)
    &&& forall|h: int| 0 <= h < i ==> holds_section(d, h) && !#[trigger] is_symtab(d, h)
    &&& holds_section(d, i)
    &&& holds_section(d, strings_of(d, i))
    &&& strings_end(d, i) <= d.len()
    &&& forall|n: int| 0 <= n < symbol_count(d, i) ==> #[trigger] symbol(d, i, n) + 24 <= d.len()
}

/// The text from `at` up to the first zero byte, or up to `end`, is `name`.
pub open spec fn is_text(d: Seq<u8>, at: int, end: int, name: Seq<char>) -> bool {
    exists|stop: int|
        {
            &&& at <= stop <= end
            &&& stop == end || d[stop] == 0
            &&& forall|k: int| at <= k < stop ==> #[trigger] d[k] != 0
            &&& #[trigger] is_encoded(d.subrange(at, stop), name)
        }
}

/// The bytes are the text in UTF-8.
pub open spec fn is_encoded(raw: Seq<u8>, name: Seq<char>) -> bool {
    vstd::utf8::valid_utf8(raw) && vstd::utf8::decode_utf8(raw) == name
}

/// Symbol `n` of the table of section `i` is a function of that name, in the file at
/// that place, with that size as far as a machine word holds it.
pub open spec fn defines(d: Seq<u8>, i: int, n: int, name: Seq<char>, sym: Sym) -> bool {
    let e = symbol(d, i, n);
    let size = num(d, e + 16, 8);
    &&& 0 <= n < symbol_count(d, i)
    &&& d[e + 4] % 16 == 2
    &&& num(d, e + 8, 8) != 0
    &&& elf::translate(elf::segments(d), num(d, e + 8, 8)) == Some(sym.offset as int)
    &&& name.len() > 0
    &&& strings_start(d, i) + num(d, e, 4) <= strings_end(d, i)
    &&& is_text(d, strings_start(d, i) + num(d, e, 4), strings_end(d, i), name)
    &&& sym.size == if size <= usize::MAX {
        size
    } else {
        usize::MAX as int
    }
}

/// Symbol `n` is a function of that name, wherever it is.
pub open spec fn names(d: Seq<u8>, i: int, n: int, name: Seq<char>) -> bool {
    exists|sym: Sym| #[trigger] defines(d, i, n, name, sym)
}

proof fn lemma_terminator(s: Seq<u8>, at: int)
    requires
        0 <= at <= s.len(),
    ensures
        at <= elf::terminator(s, at) <= s.len(),
        elf::terminator(s, at) == s.len() || s[elf::terminator(s, at)] == 0,
        forall|k: int| at <= k < elf::terminator(s, at) ==> #[trigger] s[k] != 0,
    decreases s.len() - at,
{
    if at < s.len() && s[at] != 0 {
        lemma_terminator(s, at + 1);
    }
}

proof fn lemma_name(d: Seq<u8>, start: int, end: int, at: int, name: Seq<char>)
    requires
        0 <= start <= end <= d.len(),
        0 <= at,
    ensures
        elf::name_at(d.subrange(start, end), at) == Some(name) <==> start + at <= end && is_text(
            d,
            start + at,
            end,
            name,
        ),
{
    let s = d.subrange(start, end);
    if start + at <= end {
        let t = elf::terminator(s, at);
        lemma_terminator(s, at);
        let raw = s.subrange(at, t);
        assert(raw =~= d.subrange(start + at, start + t));
        assert forall|k: int| start + at <= k < start + t implies #[trigger] d[k] != 0 by {
            assert(s[k - start] != 0);
        }
        if elf::name_at(s, at) == Some(name) {
            assert(is_encoded(d.subrange(start + at, start + t), name));
        }
        if is_text(d, start + at, end, name) {
            let stop = choose|stop: int|
                {
                    &&& start + at <= stop <= end
                    &&& stop == end || d[stop] == 0
                    &&& forall|k: int| start + at <= k < stop ==> #[trigger] d[k] != 0
                    &&& #[trigger] is_encoded(d.subrange(start + at, stop), name)
                };
            if stop < start + t {
                assert(d[stop] != 0);
            }
            if start + t < stop {
                assert(d[start + t] != 0);
                assert(s[t] == d[start + t]);
            }
        }
    }
}

proof fn lemma_low_bits(b: u8)
    ensures
        b & 0xF == b % 16,
{
    assert(b & 0xF == b % 16) by (bit_vector);
}

proof fn lemma_nonnegative(n: int, size: int)
    requires
        n >= 0,
        size >= 0,
    ensures
        n * size >= 0,
{
    assert(n * size >= 0) by (nonlinear_arith)
        requires
            n >= 0,
            size >= 0,
    ;
}

proof fn lemma_section(d: Seq<u8>, i: int)
    requires
        d.len() >= 0x3E,
        0 <= i,
        holds_section(d, i),
    ensures
        elf::section(d, num(d, 0x28, 8), num(d, 0x3A, 2), i) == Some(
            Section {
                kind: num(d, section_header(d, i) + 0x04, 4),
                offset: num(d, section_header(d, i) + 0x18, 8),
                size: num(d, section_header(d, i) + 0x20, 8),
                link: num(d, section_header(d, i) + 0x28, 4),
                entsize: num(d, section_header(d, i) + 0x38, 8),
            },
        ),
        num(d, section_header(d, i) + 0x18, 8) >= 0,
        num(d, section_header(d, i) + 0x20, 8) >= 0,
        num(d, section_header(d, i) + 0x28, 4) >= 0,
{
    let base = section_header(d, i);
    lemma_num(d, 0x28);
    lemma_num(d, 0x3A);
    lemma_nonnegative(i, num(d, 0x3A, 2));
    lemma_num(d, base + 0x04);
    lemma_num(d, base + 0x18);
    lemma_num(d, base + 0x20);
    lemma_num(d, base + 0x28);
    lemma_num(d, base + 0x38);
}

proof fn lemma_first_symtab(d: Seq<u8>, i: int, h: int)
    requires
        has_symtab(d, i),
        0 <= h <= i,
    ensures
        elf::tables_from(d, num(d, 0x28, 8), num(d, 0x3A, 2), num(d, 0x3C, 2), h)
            == elf::tables_from(d, num(d, 0x28, 8), num(d, 0x3A, 2), num(d, 0x3C, 2), i),
    decreases i - h,
{
    if h < i {
        assert(!is_symtab(d, h));
        lemma_section(d, h);
        lemma_first_symtab(d, i, h + 1);
    }
}

spec fn strtab(d: Seq<u8>, i: int) -> Seq<u8> {
    d.subrange(strings_start(d, i), strings_end(d, i))
}

spec fn read_entry(d: Seq<u8>, i: int, n: int) -> Entry {
    elf::entry(d, elf::segments(d), strtab(d, i), symbol(d, i, n))
}

proof fn lemma_entry(d: Seq<u8>, i: int, n: int)
    requires
        has_symtab(d, i),
        0 <= n < symbol_count(d, i),
    ensures
        !(read_entry(d, i, n) is Cut),
        forall|name: Seq<char>, sym: Sym| #[trigger]
            defines(d, i, n, name, sym) <==> read_entry(d, i, n) == (Entry::Function { name, sym }),
{
    let e = symbol(d, i, n);
    lemma_section(d, i);
    lemma_section(d, strings_of(d, i));
    lemma_num(d, section_header(d, i) + 0x38);
    lemma_nonnegative(n, num(d, section_header(d, i) + 0x38, 8));
    assert(e + 24 <= d.len());
    lemma_num(d, e);
    lemma_num(d, e + 8);
    lemma_num(d, e + 16);
    lemma_low_bits(d[e + 4]);
    let value = num(d, e + 8, 8);
    let place = elf::translate(elf::segments(d), value);
    lemma_place(d, value);
    assert forall|name: Seq<char>, sym: Sym| #[trigger]
        defines(d, i, n, name, sym) <==> read_entry(d, i, n) == (Entry::Function { name, sym }) by {
        lemma_name(d, strings_start(d, i), strings_end(d, i), num(d, e, 4), name);
    }
}

/// A place in the file is never negative.
proof fn lemma_place(d: Seq<u8>, vaddr: int)
    ensures
        elf::translate(elf::segments(d), vaddr) matches Some(o) ==> o >= 0,
{
    lemma_num(d, 0x20);
    lemma_num(d, 0x36);
    lemma_num(d, 0x38);
    if d.len() >= 0x3A {
        lemma_segments(d);
        lemma_places(d, vaddr, 0);
    }
}

proof fn lemma_places(d: Seq<u8>, vaddr: int, i: int)
    ensures
        elf::translate(rest(d, i), vaddr) matches Some(o) ==> o >= 0,
    decreases headers(d) - i,
{
    if i < headers(d) {
        let base = header(d, i);
        lemma_places(d, vaddr, i + 1);
        lemma_num(d, base);
        lemma_num(d, base + 0x08);
        lemma_num(d, base + 0x10);
        lemma_num(d, base + 0x20);
        let segs = rest(d, i);
        if segs.len() > 0 && segs != rest(d, i + 1) {
            assert(segs[0] == loaded(d, i));
            assert(segs.drop_first() =~= rest(d, i + 1));
        }
    }
}

spec fn read_table(d: Seq<u8>, i: int, n: int) -> Option<Map<Seq<char>, Sym>> {
    elf::table(
        d,
        elf::segments(d),
        strtab(d, i),
        num(d, section_header(d, i) + 0x18, 8),
        num(d, section_header(d, i) + 0x38, 8),
        n,
    )
}

/// Symbol `n` is the first function of that name.
pub open spec fn is_first(d: Seq<u8>, i: int, n: int, name: Seq<char>, sym: Sym) -> bool {
    defines(d, i, n, name, sym) && forall|m: int| 0 <= m < n ==> !#[trigger] names(d, i, m, name)
}

proof fn lemma_table(d: Seq<u8>, i: int, n: int)
    requires
        has_symtab(d, i),
        0 <= n <= symbol_count(d, i),
    ensures
        read_table(d, i, n) is Some,
        read_table(d, i, n)->0.dom().finite(),
        forall|name: Seq<char>| #[trigger]
            read_table(d, i, n)->0.dom().contains(name) ==> exists|m: int|
                0 <= m < n && #[trigger] is_first(d, i, m, name, read_table(d, i, n)->0[name]),
        forall|m: int, name: Seq<char>|
            0 <= m < n && #[trigger] names(d, i, m, name) ==> read_table(
                d,
                i,
                n,
            )->0.dom().contains(name),
    decreases n,
{
    if n > 0 {
        lemma_table(d, i, n - 1);
        lemma_entry(d, i, n - 1);
        let before = read_table(d, i, n - 1)->0;
        let entry = read_entry(d, i, n - 1);
        let all = read_table(d, i, n)->0;
        assert forall|name: Seq<char>| #[trigger] all.dom().contains(name) implies exists|m: int|
            0 <= m < n && #[trigger] is_first(d, i, m, name, all[name]) by {
            if before.dom().contains(name) {
                let m = choose|m: int|
                    0 <= m < n - 1 && #[trigger] is_first(d, i, m, name, before[name]);
                assert(is_first(d, i, m, name, all[name]));
            } else {
                assert(defines(d, i, n - 1, name, all[name]));
                assert forall|m: int| 0 <= m < n - 1 implies !#[trigger] names(d, i, m, name) by {
                    if names(d, i, m, name) {
                        assert(before.dom().contains(name));
                    }
                }
                assert(is_first(d, i, n - 1, name, all[name]));
            }
        }
        assert forall|m: int, name: Seq<char>|
            0 <= m < n && #[trigger] names(d, i, m, name) implies all.dom().contains(name) by {
            if m < n - 1 {
                assert(before.dom().contains(name));
            } else {
                let sym = choose|sym: Sym| #[trigger] defines(d, i, m, name, sym);
                assert(defines(d, i, m, name, sym));
            }
        }
    }
}

/// Every function of the first symbol table is known under its name, with the place and
/// the size that its first definition gives, and nothing else is known. A table without
/// functions counts as none.
pub proof fn law_the_symbols_are_the_functions_of_the_first_table(d: Seq<u8>, i: int)
    requires
        has_symtab(d, i),
    ensures
        forall|n: int, name: Seq<char>, sym: Sym| #[trigger]
            is_first(d, i, n, name, sym) ==> (elf::function_symbols(d) matches Some(known)
                && known.dom().contains(name) && known[name] == sym),
        elf::function_symbols(d) matches Some(known) ==> forall|name: Seq<char>| #[trigger]
            known.dom().contains(name) ==> exists|n: int| #[trigger]
                is_first(d, i, n, name, known[name]),
{
    let count = symbol_count(d, i);
    lemma_num(d, 0x28);
    lemma_num(d, 0x3A);
    lemma_num(d, 0x3C);
    lemma_first_symtab(d, i, 0);
    lemma_section(d, i);
    lemma_section(d, strings_of(d, i));
    assert(count >= 0) by {
        vstd::arithmetic::div_mod::lemma_div_pos_is_pos(
            num(d, section_header(d, i) + 0x20, 8),
            num(d, section_header(d, i) + 0x38, 8),
        );
    }
    lemma_table(d, i, count);
    let known = read_table(d, i, count)->0;
    assert(elf::function_symbols(d) == if known.len() == 0 {
        None
    } else {
        Some(known)
    });
    assert forall|n: int, name: Seq<char>, sym: Sym| #[trigger]
        is_first(d, i, n, name, sym) implies known.dom().contains(name) && known[name] == sym
        && known.len() > 0 by {
        assert(names(d, i, n, name));
        assert(known.dom().contains(name));
        assert(known.dom().len() > 0) by {
            if known.dom().len() == 0 {
                assert(known.dom() =~= Set::empty());
            }
        }
        let m = choose|m: int| 0 <= m < count && #[trigger] is_first(d, i, m, name, known[name]);
        assert(names(d, i, m, name));
        assert(m == n) by {
            if m < n {
                assert(!names(d, i, m, name));
            }
            if n < m {
                assert(!names(d, i, n, name));
            }
        }
        lemma_entry(d, i, n);
    }
}

} // verus!
