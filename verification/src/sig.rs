//! Byte-signature scanning with single-byte wildcards.
//!
//! Patterns are written the way a disassembler prints them: space separated hex
//! bytes, with `??` marking a byte whose value varies between builds (relative
//! call/jump displacements, struct offsets, register-encoding nibbles).

use crate::text;
use crate::text::{chars_of, join, push_char, split_words, str_eq, upper_digit};
use vstd::prelude::*;

verus! {

broadcast use vstd::seq_lib::group_seq_properties;

#[derive(Debug, Clone, Copy, PartialEq, Eq, Structural)]
pub enum Tok {
    Byte(u8),
    Any,
}

#[derive(Debug, Clone)]
pub struct Pattern {
    pub toks: Vec<Tok>,
    /// Byte offset, from the start of a match, of the region this pattern is
    /// used to locate. Lets one pattern anchor on surrounding context while
    /// pointing at an immediate buried in the middle of it.
    pub delta: usize,
    pub source: &'static str,
}

// ---------------------------------------------------------------------------
// What a signature denotes
// ---------------------------------------------------------------------------

/// The value of a hexadecimal digit, in either case.
pub open spec fn hex_digit(c: char) -> Option<int> {
    if '0' <= c <= '9' {
        Some(c as int - 0x30)
    } else if 'a' <= c <= 'f' {
        Some(c as int - 0x57)
    } else if 'A' <= c <= 'F' {
        Some(c as int - 0x37)
    } else {
        None
    }
}

/// The number that a run of hexadecimal digits denotes, if it is one.
pub open spec fn hex_value(s: Seq<char>) -> Option<int>
    decreases s.len(),
{
    if s.len() == 0 {
        Some(0)
    } else {
        match (hex_value(s.drop_last()), hex_digit(s.last())) {
            (Some(high), Some(low)) => Some(high * 16 + low),
            _ => None,
        }
    }
}

/// The byte that `s` is in hexadecimal: at least one digit, a plus sign allowed
/// in front, and a value below 256.
pub open spec fn hex_byte(s: Seq<char>) -> Option<u8> {
    let digits = text::without_plus(s);
    if digits.len() == 0 {
        None
    } else {
        match hex_value(digits) {
            Some(v) => if v < 256 {
                Some(v as u8)
            } else {
                None
            },
            None => None,
        }
    }
}

/// One word of a signature.
pub open spec fn token(word: Seq<char>) -> Option<Tok> {
    if word == seq!['?', '?'] {
        Some(Tok::Any)
    } else {
        match hex_byte(word) {
            Some(b) => Some(Tok::Byte(b)),
            None => None,
        }
    }
}

/// Every word of the signature is a byte or a wildcard.
pub open spec fn readable(words: Seq<Seq<char>>) -> bool {
    forall|i: int| 0 <= i < words.len() ==> token(#[trigger] words[i]) is Some
}

/// The tokens of a signature.
pub open spec fn tokens(src: Seq<char>) -> Seq<Tok> {
    text::words(src).map_values(|w: Seq<char>| token(w)->0)
}

/// `src` is a signature, not empty, and `delta` points inside what it matches.
pub open spec fn valid(src: Seq<char>, delta: int) -> bool {
    &&& readable(text::words(src))
    &&& 0 <= delta < text::words(src).len()
}

/// `t` admits the byte `b`.
pub open spec fn admits(t: Tok, b: u8) -> bool {
    match t {
        Tok::Any => true,
        Tok::Byte(x) => x == b,
    }
}

/// The bytes of `hay` from `at` on are what the tokens ask for.
pub open spec fn matches(toks: Seq<Tok>, hay: Seq<u8>, at: int) -> bool {
    &&& 0 <= at
    &&& at + toks.len() <= hay.len()
    &&& forall|i: int| 0 <= i < toks.len() ==> admits(#[trigger] toks[i], hay[at + i])
}

/// At least one token is a concrete byte.
pub open spec fn concrete(toks: Seq<Tok>) -> bool {
    exists|i: int| 0 <= i < toks.len() && (#[trigger] toks[i]) is Byte
}

/// The positions below `end` at which the tokens match, in rising order, each
/// moved on by `delta`.
pub open spec fn hits_below(toks: Seq<Tok>, delta: int, hay: Seq<u8>, end: int) -> Seq<int>
    decreases end,
{
    if end <= 0 {
        seq![]
    } else if matches(toks, hay, end - 1) {
        hits_below(toks, delta, hay, end - 1).push(end - 1 + delta)
    } else {
        hits_below(toks, delta, hay, end - 1)
    }
}

/// What a pattern finds in `hay`. A pattern of nothing but wildcards would match
/// everywhere, and finds nothing.
pub open spec fn hits(toks: Seq<Tok>, delta: int, hay: Seq<u8>) -> Seq<int> {
    if concrete(toks) {
        hits_below(toks, delta, hay, hay.len() as int)
    } else {
        seq![]
    }
}

/// Offsets as mathematical integers.
pub open spec fn ints(v: Seq<usize>) -> Seq<int> {
    v.map_values(|x: usize| x as int)
}

impl Pattern {
    /// The delta points inside the pattern.
    pub open spec fn wf(&self) -> bool {
        self.delta < self.toks@.len()
    }

    /// What the pattern finds in `hay`.
    pub open spec fn finds(&self, hay: Seq<u8>) -> Seq<int> {
        hits(self.toks@, self.delta as int, hay)
    }
}

// ---------------------------------------------------------------------------
// Reading and matching
// ---------------------------------------------------------------------------

fn hex_digit_value(c: char) -> (res: Option<u32>)
    ensures
        res is Some == hex_digit(c) is Some,
        res matches Some(v) ==> v == hex_digit(c)->0 && v < 16,
{
    if '0' <= c && c <= '9' {
        Some(c as u32 - 0x30)
    } else if 'a' <= c && c <= 'f' {
        Some(c as u32 - 0x57)
    } else if 'A' <= c && c <= 'F' {
        Some(c as u32 - 0x37)
    } else {
        None
    }
}

proof fn lemma_hex_value_prefix(s: Seq<char>, n: int)
    requires
        0 <= n <= s.len(),
    ensures
        hex_value(s) is Some ==> hex_value(s.take(n)) is Some && 0 <= hex_value(s.take(n))->0
            <= hex_value(s)->0,
    decreases s.len() - n,
{
    if n < s.len() {
        lemma_hex_value_prefix(s.drop_last(), n);
        assert(s.drop_last().take(n) =~= s.take(n));
    } else {
        assert(s.take(n) =~= s);
        lemma_hex_value_nonnegative(s);
    }
}

proof fn lemma_hex_value_nonnegative(s: Seq<char>)
    ensures
        hex_value(s) is Some ==> hex_value(s)->0 >= 0,
    decreases s.len(),
{
    if s.len() > 0 {
        lemma_hex_value_nonnegative(s.drop_last());
    }
}

/// `u8::from_str_radix(s, 16)`, the error dropped.
pub fn parse_hex_byte(s: &str) -> (res: Option<u8>)
    ensures
        res == hex_byte(s@),
{
    let cs = chars_of(s);
    let start: usize = if cs.len() > 0 && cs[0] == '+' {
        1
    } else {
        0
    };
    let ghost digits = cs@.skip(start as int);
    assert(digits =~= text::without_plus(s@));
    if start == cs.len() {
        return None;
    }
    let mut value: u32 = 0;
    let mut i: usize = start;
    assert(digits.take(0) =~= Seq::<char>::empty());
    while i < cs.len()
        invariant
            start <= i <= cs@.len(),
            digits == cs@.skip(start as int),
            digits == text::without_plus(s@),
            hex_value(digits.take(i - start)) == Some(value as int),
            value < 256,
        decreases cs.len() - i,
    {
        let ghost next = digits.take(i + 1 - start);
        assert(next.drop_last() =~= digits.take(i - start));
        assert(next.last() == cs@[i as int]);
        proof {
            lemma_hex_value_prefix(digits, i + 1 - start);
        }
        match hex_digit_value(cs[i]) {
            Some(d) => {
                value = value * 16 + d;
                if value >= 256 {
                    return None;
                }
            },
            None => {
                return None;
            },
        }
        i = i + 1;
    }
    assert(digits.take(i - start) =~= digits);
    Some(value as u8)
}

impl Pattern {
    pub fn parse(src: &'static str, delta: usize) -> (res: Pattern)
        requires
            valid(src@, delta as int),
        ensures
            res.toks@ == tokens(src@),
            res.delta == delta,
            res.source@ == src@,
            res.wf(),
    {
        let words = split_words(src);
        let mut toks: Vec<Tok> = Vec::new();
        let mut i: usize = 0;
        let ghost spec_words = text::words(src@);
        while i < words.len()
            invariant
                i <= words@.len(),
                text::views(words@) == spec_words,
                spec_words == text::words(src@),
                readable(spec_words),
                toks@ == tokens(src@).take(i as int),
            decreases words.len() - i,
        {
            assert(spec_words[i as int] == words@[i as int]@);
            assert(token(spec_words[i as int]) is Some);
            proof {
                reveal_strlit("??");
                assert("??"@ =~= seq!['?', '?']);
            }
            let t: Tok = if str_eq(words[i].as_str(), "??") {
                Tok::Any
            } else {
                match parse_hex_byte(words[i].as_str()) {
                    Some(b) => Tok::Byte(b),
                    None => Tok::Any,
                }
            };
            assert(t == tokens(src@)[i as int]);
            toks.push(t);
            i = i + 1;
            assert(toks@ =~= tokens(src@).take(i as int));
        }
        assert(tokens(src@).take(i as int) =~= tokens(src@));
        Pattern { toks, delta, source: src }
    }

    fn matches_at(&self, hay: &[u8], at: usize) -> (res: bool)
        requires
            at + self.toks@.len() <= hay@.len(),
        ensures
            res == matches(self.toks@, hay@, at as int),
    {
        let mut i: usize = 0;
        let size: usize = hay.len();
        while i < self.toks.len()
            invariant
                i <= self.toks@.len(),
                size == hay@.len(),
                at + self.toks@.len() <= hay@.len(),
                forall|j: int| 0 <= j < i ==> admits(#[trigger] self.toks@[j], hay@[at + j]),
            decreases self.toks.len() - i,
        {
            match self.toks[i] {
                Tok::Any => {},
                Tok::Byte(b) => {
                    if hay[at + i] != b {
                        assert(!admits(self.toks@[i as int], hay@[at + i]));
                        return false;
                    }
                },
            }
            i = i + 1;
        }
        true
    }

    /// The first concrete byte of the pattern and where it stands.
    fn anchor(&self) -> (res: Option<(usize, u8)>)
        ensures
            res is Some == concrete(self.toks@),
            res matches Some((i, b)) ==> i < self.toks@.len() && self.toks@[i as int] == Tok::Byte(
                b,
            ),
    {
        let mut i: usize = 0;
        while i < self.toks.len()
            invariant
                i <= self.toks@.len(),
                forall|j: int| 0 <= j < i ==> (#[trigger] self.toks@[j]) is Any,
            decreases self.toks.len() - i,
        {
            match self.toks[i] {
                Tok::Byte(b) => {
                    assert(self.toks@[i as int] is Byte);
                    return Some((i, b));
                },
                Tok::Any => {},
            }
            i = i + 1;
        }
        None
    }

    /// All positions where this pattern matches, already adjusted by `delta`.
    pub fn find_all(&self, hay: &[u8]) -> (res: Vec<usize>)
        requires
            self.wf(),
        ensures
            ints(res@) == self.finds(hay@),
    {
        let n: usize = self.toks.len();
        let mut out: Vec<usize> = Vec::new();
        if hay.len() < n {
            proof {
                lemma_no_room(self.toks@, self.delta as int, hay@, 0, hay@.len() as int);
            }
            return out;
        }
        // Comparing the first concrete byte before anything else makes the common
        // case a skip rather than a full comparison at every position.
        let (skip, first): (usize, u8) = match self.anchor() {
            Some(found) => found,
            None => {
                return out;
            },
        };
        let last: usize = hay.len() - n;
        let mut at: usize = 0;
        while at <= last
            invariant
                self.wf(),
                n == self.toks@.len(),
                n <= hay@.len() <= usize::MAX,
                last == hay@.len() - n,
                n > 0,
                at <= last + 1,
                skip < n,
                self.toks@[skip as int] == Tok::Byte(first),
                ints(out@) == hits_below(self.toks@, self.delta as int, hay@, at as int),
            decreases last + 1 - at,
        {
            let ghost before = out@;
            if hay[at + skip] == first && self.matches_at(hay, at) {
                out.push(at + self.delta);
                assert(ints(out@) =~= ints(before).push(at + self.delta as int));
            } else {
                proof {
                    if hay@[at + skip] != first {
                        assert(!admits(self.toks@[skip as int], hay@[at + skip]));
                    }
                }
                assert(!matches(self.toks@, hay@, at as int));
            }
            at = at + 1;
        }
        proof {
            lemma_no_room(self.toks@, self.delta as int, hay@, at as int, hay@.len() as int);
        }
        out
    }
}

// ---------------------------------------------------------------------------
// Signatures in their usual form
// ---------------------------------------------------------------------------

/// `src` is a signature of `n` words.
pub open spec fn reads_as(src: Seq<char>, n: int) -> bool {
    readable(text::words(src)) && text::words(src).len() == n
}

/// A wildcard or two hexadecimal digits.
pub open spec fn cell(a: char, b: char) -> bool {
    ||| a == '?' && b == '?'
    ||| hex_digit(a) is Some && hex_digit(b) is Some
}

/// From its `k`-th word on, `s` is two-character cells with one space between.
pub open spec fn regular_from(s: Seq<char>, k: int) -> bool
    decreases s.len() - 3 * k,
{
    &&& 0 <= k
    &&& 3 * k + 2 <= s.len()
    &&& cell(s[3 * k], s[3 * k + 1])
    &&& 3 * k + 2 == s.len() || (s[3 * k + 2] == ' ' && regular_from(s, k + 1))
}

pub open spec fn regular(s: Seq<char>, n: int) -> bool {
    s.len() == 3 * n - 1 && regular_from(s, 0)
}

proof fn lemma_cell_token(w: Seq<char>)
    requires
        w.len() == 2,
        cell(w[0], w[1]),
    ensures
        token(w) is Some,
{
    if w[0] == '?' {
        assert(w =~= seq!['?', '?']);
    } else {
        assert(text::without_plus(w) == w);
        reveal_with_fuel(hex_value, 3);
        assert(w.drop_last().drop_last().len() == 0);
        assert(w.drop_last().last() == w[0]);
        assert(w.last() == w[1]);
    }
}

proof fn lemma_regular_from(s: Seq<char>, k: int)
    requires
        regular_from(s, k),
    ensures
        readable(text::words(s.skip(3 * k))),
        text::words(s.skip(3 * k)).len() * 3 == s.len() - 3 * k + 1,
    decreases s.len() - 3 * k,
{
    let t = s.skip(3 * k);
    let w = t.take(2);
    assert(t[0] == s[3 * k] && t[1] == s[3 * k + 1]);
    assert(t.drop_first()[0] == t[1]);
    lemma_cell_token(w);
    if 3 * k + 2 == s.len() {
        assert(t.drop_first().drop_first().len() == 0);
        reveal_with_fuel(text::leading_word, 3);
        assert(text::leading_word(t) == 2);
        assert(t.skip(2).len() == 0);
        assert(text::words(t.skip(2)) =~= Seq::<Seq<char>>::empty());
        assert(text::words(t) =~= seq![w]);
    } else {
        assert(t.drop_first().drop_first()[0] == s[3 * k + 2]);
        reveal_with_fuel(text::leading_word, 3);
        assert(text::leading_word(t) == 2);
        let rest = t.skip(2);
        assert(rest[0] == ' ');
        assert(rest.drop_first() =~= s.skip(3 * (k + 1)));
        assert(text::words(rest) == text::words(s.skip(3 * (k + 1))));
        lemma_regular_from(s, k + 1);
        assert(text::words(t) =~= seq![w] + text::words(rest));
    }
}

pub proof fn lemma_regular(s: Seq<char>, n: int)
    requires
        regular(s, n),
    ensures
        reads_as(s, n),
{
    lemma_regular_from(s, 0);
    assert(s.skip(0) =~= s);
}

proof fn lemma_no_room(toks: Seq<Tok>, delta: int, hay: Seq<u8>, from: int, to: int)
    requires
        0 <= from <= to,
        from + toks.len() > hay.len(),
    ensures
        hits_below(toks, delta, hay, to) == hits_below(toks, delta, hay, from),
    decreases to - from,
{
    if from < to {
        lemma_no_room(toks, delta, hay, from, to - 1);
    }
}

/// Two upper-case digits.
pub open spec fn byte_upper(b: u8) -> Seq<char> {
    seq![text::digit_upper(b as int / 16), text::digit_upper(b as int % 16)]
}

/// The bytes in upper-case hexadecimal, a space between neighbours.
pub open spec fn hex_text(bytes: Seq<u8>) -> Seq<char> {
    text::joined(bytes.map_values(|b: u8| byte_upper(b)), seq![' '])
}

/// Render bytes the way the rest of the tool prints them.
pub fn hex(bytes: &[u8]) -> (res: String)
    ensures
        res@ == hex_text(bytes@),
{
    let mut parts: Vec<String> = Vec::new();
    let ghost all = bytes@.map_values(|b: u8| byte_upper(b));
    let mut i: usize = 0;
    while i < bytes.len()
        invariant
            i <= bytes@.len(),
            all == bytes@.map_values(|b: u8| byte_upper(b)),
            text::views(parts@) == all.take(i as int),
        decreases bytes.len() - i,
    {
        let mut s = String::new();
        push_char(&mut s, upper_digit(bytes[i] as u32 / 16));
        push_char(&mut s, upper_digit(bytes[i] as u32 % 16));
        assert(s@ =~= byte_upper(bytes@[i as int]));
        assert(text::views(parts@.push(s)) =~= text::views(parts@).push(s@));
        assert(all.take(i + 1) =~= all.take(i as int).push(all[i as int]));
        parts.push(s);
        i = i + 1;
    }
    assert(all.take(i as int) =~= all);
    proof {
        reveal_strlit(" ");
        assert(" "@ =~= seq![' ']);
    }
    join(&parts, " ")
}

// ---------------------------------------------------------------------------
// Laws
// ---------------------------------------------------------------------------

pub proof fn lemma_hits_below(toks: Seq<Tok>, delta: int, hay: Seq<u8>, end: int)
    ensures
        forall|k: int|
            0 <= k < hits_below(toks, delta, hay, end).len() ==> {
                let h = #[trigger] hits_below(toks, delta, hay, end)[k];
                &&& 0 <= h - delta < end
                &&& matches(toks, hay, h - delta)
            },
        forall|at: int|
            0 <= at < end && matches(toks, hay, at) ==> #[trigger] hits_below(
                toks,
                delta,
                hay,
                end,
            ).contains(at + delta),
        forall|j: int, k: int|
            0 <= j < k < hits_below(toks, delta, hay, end).len() ==> #[trigger] hits_below(
                toks,
                delta,
                hay,
                end,
            )[j] < #[trigger] hits_below(toks, delta, hay, end)[k],
    decreases end,
{
    if end > 0 {
        lemma_hits_below(toks, delta, hay, end - 1);
        let shorter = hits_below(toks, delta, hay, end - 1);
        let all = hits_below(toks, delta, hay, end);
        if matches(toks, hay, end - 1) {
            assert forall|at: int|
                0 <= at < end && matches(toks, hay, at) implies #[trigger] all.contains(at + delta) by {
                if at == end - 1 {
                    assert(all[all.len() - 1] == at + delta);
                } else {
                    assert(shorter.contains(at + delta));
                    let k = choose|k: int| 0 <= k < shorter.len() && shorter[k] == at + delta;
                    assert(all[k] == at + delta);
                }
            }
        }
    }
}

/// Every position that tokens are found at lies inside the bytes searched.
pub proof fn lemma_hits_in_range(toks: Seq<Tok>, delta: int, hay: Seq<u8>)
    requires
        0 <= delta < toks.len(),
    ensures
        forall|k: int|
            #![trigger hits(toks, delta, hay)[k]]
            0 <= k < hits(toks, delta, hay).len() ==> 0 <= hits(toks, delta, hay)[k] < hay.len(),
{
    lemma_hits_below(toks, delta, hay, hay.len() as int);
}

/// A pattern with a concrete byte finds exactly the positions where it matches,
/// each once and in rising order, and every position it reports lies inside the
/// bytes it searched.
pub proof fn law_finds_every_match_once(p: Pattern, hay: Seq<u8>)
    requires
        p.wf(),
        concrete(p.toks@),
    ensures
        forall|at: int|
            matches(p.toks@, hay, at) <==> #[trigger] p.finds(hay).contains(at + p.delta),
        forall|j: int, k: int|
            0 <= j < k < p.finds(hay).len() ==> #[trigger] p.finds(hay)[j] < #[trigger] p.finds(
                hay,
            )[k],
        forall|k: int|
            0 <= k < p.finds(hay).len() ==> p.delta <= #[trigger] p.finds(hay)[k] < hay.len(),
{
    lemma_hits_below(p.toks@, p.delta as int, hay, hay.len() as int);
    let found = p.finds(hay);
    assert forall|at: int| matches(p.toks@, hay, at) <==> #[trigger] found.contains(at + p.delta) by {
        if found.contains(at + p.delta) {
            let k = choose|k: int| 0 <= k < found.len() && found[k] == at + p.delta;
            assert(matches(p.toks@, hay, found[k] - p.delta));
        }
    }
}

/// Changing a byte that a pattern leaves open does not change what it finds
/// there: a wildcard matches any byte.
pub proof fn law_wildcards_match_any_byte(toks: Seq<Tok>, hay: Seq<u8>, at: int, i: int, b: u8)
    requires
        matches(toks, hay, at),
        0 <= i < toks.len(),
        toks[i] is Any,
    ensures
        matches(toks, hay.update(at + i, b), at),
{
    let changed = hay.update(at + i, b);
    assert forall|j: int| 0 <= j < toks.len() implies admits(#[trigger] toks[j], changed[at + j]) by {
        assert(admits(toks[j], hay[at + j]));
    }
}

} // verus!
