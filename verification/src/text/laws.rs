//! What splitting, trimming and spelling out undo.

use crate::sig;
use crate::sig::Tok;
use crate::text;
use vstd::prelude::*;

verus! {

/// A word: some characters, none of them white space.
pub open spec fn is_word(w: Seq<char>) -> bool {
    w.len() > 0 && forall|i: int| 0 <= i < w.len() ==> !text::is_white_space(#[trigger] w[i])
}

proof fn lemma_leading(w: Seq<char>, rest: Seq<char>)
    requires
        forall|i: int| 0 <= i < w.len() ==> !text::is_white_space(#[trigger] w[i]),
        rest.len() == 0 || text::is_white_space(rest[0]),
    ensures
        text::leading_word(w + rest) == w.len(),
    decreases w.len(),
{
    let s = w + rest;
    if w.len() == 0 {
        assert(s =~= rest);
    } else {
        assert(s[0] == w[0]);
        assert(s.drop_first() =~= w.drop_first() + rest);
        lemma_leading(w.drop_first(), rest);
    }
}

pub proof fn lemma_first_word(w: Seq<char>, rest: Seq<char>)
    requires
        is_word(w),
        rest.len() == 0 || text::is_white_space(rest[0]),
    ensures
        text::words(w + rest) == seq![w] + text::words(rest),
{
    let s = w + rest;
    lemma_leading(w, rest);
    assert(s[0] == w[0]);
    assert(s.take(w.len() as int) =~= w);
    assert(s.skip(w.len() as int) =~= rest);
}

proof fn lemma_joined_front(parts: Seq<Seq<char>>, sep: Seq<char>)
    requires
        parts.len() > 1,
    ensures
        text::joined(parts, sep) == parts[0] + sep + text::joined(parts.drop_first(), sep),
    decreases parts.len(),
{
    let rest = parts.drop_first();
    if parts.len() == 2 {
        assert(parts.drop_last() =~= seq![parts[0]]);
        assert(rest =~= seq![parts[1]]);
        assert(text::joined(parts.drop_last(), sep) == parts[0]);
    } else {
        lemma_joined_front(parts.drop_last(), sep);
        assert(parts.drop_last().drop_first() =~= rest.drop_last());
        assert(text::joined(parts, sep) =~= parts[0] + sep + text::joined(rest, sep));
    }
}

/// Words that are joined by spaces come apart again as they were.
pub proof fn law_joined_words_come_apart(parts: Seq<Seq<char>>)
    requires
        forall|k: int| 0 <= k < parts.len() ==> is_word(#[trigger] parts[k]),
    ensures
        text::words(text::joined(parts, seq![' '])) == parts,
    decreases parts.len(),
{
    let s = text::joined(parts, seq![' ']);
    let none = Seq::<char>::empty();
    if parts.len() == 0 {
        assert(text::words(s) =~= parts);
    } else if parts.len() == 1 {
        assert(is_word(parts[0]));
        assert(s =~= parts[0] + none);
        lemma_first_word(parts[0], none);
        assert(text::words(none) =~= Seq::<Seq<char>>::empty());
        assert(text::words(s) =~= parts);
    } else {
        let rest = parts.drop_first();
        let tail = text::joined(rest, seq![' ']);
        assert forall|k: int| 0 <= k < rest.len() implies is_word(#[trigger] rest[k]) by {
            assert(rest[k] == parts[k + 1]);
        }
        lemma_joined_front(parts, seq![' ']);
        assert(is_word(parts[0]));
        let behind = seq![' '] + tail;
        assert(s =~= parts[0] + behind);
        assert(text::is_white_space(' '));
        lemma_first_word(parts[0], behind);
        assert(behind.drop_first() =~= tail);
        law_joined_words_come_apart(rest);
        assert(text::words(behind) == rest);
        assert(text::words(s) =~= parts);
    }
}

proof fn lemma_trim_start(s: Seq<char>) -> (n: int)
    ensures
        0 <= n <= s.len(),
        text::trim_start(s) == s.skip(n),
        forall|i: int| 0 <= i < n ==> text::is_white_space(#[trigger] s[i]),
        n == s.len() || !text::is_white_space(s[n]),
    decreases s.len(),
{
    if s.len() > 0 && text::is_white_space(s[0]) {
        let m = lemma_trim_start(s.drop_first());
        assert(s.drop_first().skip(m) =~= s.skip(m + 1));
        assert forall|i: int| 0 <= i < m + 1 implies text::is_white_space(#[trigger] s[i]) by {
            if i > 0 {
                assert(s[i] == s.drop_first()[i - 1]);
            }
        }
        m + 1
    } else {
        assert(s.skip(0) =~= s);
        0
    }
}

proof fn lemma_trim_end(s: Seq<char>) -> (n: int)
    ensures
        0 <= n <= s.len(),
        text::trim_end(s) == s.take(n),
        forall|i: int| n <= i < s.len() ==> text::is_white_space(#[trigger] s[i]),
        n == 0 || !text::is_white_space(s[n - 1]),
    decreases s.len(),
{
    if s.len() > 0 && text::is_white_space(s.last()) {
        let m = lemma_trim_end(s.drop_last());
        assert(s.drop_last().take(m) =~= s.take(m));
        assert forall|i: int| m <= i < s.len() implies text::is_white_space(#[trigger] s[i]) by {
            if i < s.len() - 1 {
                assert(s[i] == s.drop_last()[i]);
            }
        }
        m
    } else {
        assert(s.take(s.len() as int) =~= s);
        s.len() as int
    }
}

/// `s` from `from` up to `to`, with nothing but white space around it, and none at
/// either end of it.
pub open spec fn is_core(s: Seq<char>, from: int, to: int) -> bool {
    &&& 0 <= from <= to <= s.len()
    &&& forall|i: int|
        0 <= i < s.len() && !(from <= i < to) ==> text::is_white_space(#[trigger] s[i])
    &&& from < to ==> !text::is_white_space(s[from]) && !text::is_white_space(s[to - 1])
}

/// Trimming takes white space off both ends, all of it, and nothing else.
pub proof fn law_trimming_takes_the_white_space_off(s: Seq<char>)
    ensures
        exists|from: int, to: int| #[trigger]
            is_core(s, from, to) && text::trimmed(s) == s.subrange(from, to),
{
    let n = lemma_trim_start(s);
    let t = text::trim_start(s);
    let m = lemma_trim_end(t);
    assert forall|i: int| 0 <= i < s.len() && !(n <= i < n + m) implies text::is_white_space(
        #[trigger] s[i],
    ) by {
        if i >= n + m {
            assert(t[i - n] == s[i]);
        }
    }
    if m > 0 {
        assert(t[0] == s[n]);
        assert(t[m - 1] == s[n + m - 1]);
    }
    assert(is_core(s, n, n + m));
    assert(text::trimmed(s) =~= s.subrange(n, n + m));
}

/// A text that has no white space is left as it is by trimming.
pub proof fn law_a_word_is_its_own_trimming(w: Seq<char>)
    requires
        is_word(w),
    ensures
        text::trimmed(w) == w,
{
    assert(!text::is_white_space(w[0]));
    assert(!text::is_white_space(w[w.len() - 1]));
}

proof fn lemma_byte_word(b: u8)
    ensures
        is_word(sig::byte_upper(b)),
        sig::token(sig::byte_upper(b)) == Some(Tok::Byte(b)),
{
    let w = sig::byte_upper(b);
    let high = b as int / 16;
    let low = b as int % 16;
    assert(sig::hex_digit(w[0]) == Some(high));
    assert(sig::hex_digit(w[1]) == Some(low));
    assert(text::without_plus(w) == w);
    reveal_with_fuel(sig::hex_value, 3);
    assert(w.drop_last() =~= seq![w[0]]);
    assert(w.drop_last().drop_last() =~= Seq::<char>::empty());
    assert(sig::hex_value(w) == Some(high * 16 + low));
    assert(w != seq!['?', '?']) by {
        assert(w[0] != seq!['?', '?'][0]);
    }
    assert forall|i: int| 0 <= i < w.len() implies !text::is_white_space(#[trigger] w[i]) by {}
}

/// A token as it is written in a signature: two digits, or two question marks.
pub open spec fn spelled(t: Tok) -> Seq<char> {
    match t {
        Tok::Any => seq!['?', '?'],
        Tok::Byte(b) => sig::byte_upper(b),
    }
}

/// A signature reads back as the bytes and the wildcards that were written.
pub proof fn law_signatures_read_back(toks: Seq<Tok>)
    ensures
        ({
            let src = text::joined(toks.map_values(|t: Tok| spelled(t)), seq![' ']);
            sig::readable(text::words(src)) && sig::tokens(src) == toks
        }),
{
    let parts = toks.map_values(|t: Tok| spelled(t));
    let src = text::joined(parts, seq![' ']);
    assert forall|k: int| 0 <= k < parts.len() implies is_word(#[trigger] parts[k]) && sig::token(
        parts[k],
    ) == Some(toks[k]) by {
        match toks[k] {
            Tok::Any => {
                assert(parts[k] == seq!['?', '?']);
                assert(!text::is_white_space('?'));
            },
            Tok::Byte(b) => {
                lemma_byte_word(b);
            },
        }
    }
    law_joined_words_come_apart(parts);
    assert(sig::tokens(src) =~= toks);
}

/// Bytes that are shown in hexadecimal are, read as a signature, those bytes.
pub proof fn law_shown_bytes_read_back(b: Seq<u8>)
    ensures
        sig::tokens(sig::hex_text(b)) == b.map_values(|x: u8| Tok::Byte(x)),
{
    let toks = b.map_values(|x: u8| Tok::Byte(x));
    law_signatures_read_back(toks);
    assert(toks.map_values(|t: Tok| spelled(t)) =~= b.map_values(|x: u8| sig::byte_upper(x)));
}

/// A number reads back from its hexadecimal form.
pub proof fn law_hexadecimals_read_back(n: nat)
    ensures
        sig::hex_value(text::hexadecimal(n)) == Some(n as int),
    decreases n,
{
    let s = text::hexadecimal(n);
    let last = (n % 16) as int;
    assert(sig::hex_digit(text::digit_upper(last)) == Some(last));
    if n < 16 {
        assert(s.drop_last() =~= Seq::<char>::empty());
        reveal_with_fuel(sig::hex_value, 2);
    } else {
        law_hexadecimals_read_back(n / 16);
        assert(s.drop_last() =~= text::hexadecimal(n / 16));
    }
}

/// A padded text is as wide as was asked for, or as the text where that is wider; it has
/// the text at one end and nothing but padding besides.
pub proof fn law_padding_fills_the_width(s: Seq<char>, width: int)
    ensures
        ({
            let extra = if width > s.len() {
                width - s.len()
            } else {
                0
            };
            let right = text::padded(s, width);
            let left = text::padded_left(s, width);
            let zeros = text::zero_padded(s, width);
            &&& right.len() == s.len() + extra && left.len() == s.len() + extra && zeros.len()
                == s.len() + extra
            &&& right.take(s.len() as int) == s && left.skip(extra) == s && zeros.skip(extra) == s
            &&& forall|i: int| s.len() <= i < right.len() ==> #[trigger] right[i] == ' '
            &&& forall|i: int| 0 <= i < extra ==> #[trigger] left[i] == ' '
            &&& forall|i: int| 0 <= i < extra ==> #[trigger] zeros[i] == '0'
        }),
{
    let extra = if width > s.len() {
        width - s.len()
    } else {
        0
    };
    assert(text::padded(s, width).take(s.len() as int) =~= s);
    assert(text::padded_left(s, width).skip(extra) =~= s);
    assert(text::zero_padded(s, width).skip(extra) =~= s);
}

/// Lines that are joined come apart again: each without its newline, and a last one that
/// is ended does not start another.
pub proof fn law_joined_lines_come_apart(lines: Seq<Seq<char>>)
    requires
        lines.len() > 0,
        forall|k: int, i: int|
            0 <= k < lines.len() && 0 <= i < lines[k].len() ==> #[trigger] lines[k][i] != '\n'
                && lines[k][i] != '\r',
    ensures
        lines.last().len() > 0 ==> text::text_lines(text::joined(lines, seq!['\n'])) == lines,
        lines.last().len() == 0 ==> text::text_lines(text::joined(lines, seq!['\n']))
            == lines.drop_last(),
{
    let s = text::joined(lines, seq!['\n']);
    text::law_splitting_undoes_joining(lines, '\n');
    let front = lines.drop_last();
    let ended = front.map_values(|p: Seq<char>| text::strip_return(p));
    assert forall|k: int| 0 <= k < front.len() implies #[trigger] ended[k] == front[k] by {
        if front[k].len() > 0 {
            assert(lines[k][lines[k].len() - 1] != '\r');
        }
    }
    assert(ended =~= front);
    assert(front.push(lines.last()) =~= lines);
}

/// A text is a number only where it is digits, and some, after at most one plus sign; the
/// sign and leading zeros do not change which.
pub proof fn law_only_digits_are_a_number(s: Seq<char>)
    ensures
        text::u32_of(s) is Some ==> s.len() > 0 && forall|i: int|
            0 <= i < s.len() ==> ('0' <= #[trigger] s[i] <= '9' || (i == 0 && s[0] == '+' && s.len()
                > 1)),
        s.len() > 0 && s[0] != '+' ==> text::u32_of(seq!['+'] + s) == text::u32_of(s),
        s.len() > 0 && s[0] != '+' ==> text::u32_of(seq!['0'] + s) == text::u32_of(s),
{
    let digits = text::without_plus(s);
    if text::u32_of(s) is Some {
        assert forall|i: int| 0 <= i < s.len() implies ('0' <= #[trigger] s[i] <= '9' || (i == 0
            && s[0] == '+' && s.len() > 1)) by {
            if s[0] == '+' {
                if i > 0 {
                    assert(text::is_digit(digits[i - 1]));
                }
            } else {
                assert(text::is_digit(digits[i]));
            }
        }
    }
    if s.len() > 0 && s[0] != '+' {
        let signed = seq!['+'] + s;
        let longer = seq!['0'] + s;
        assert(signed.drop_first() =~= s);
        lemma_leading_zero(s);
        assert(text::all_digits(longer) == text::all_digits(s)) by {
            if text::all_digits(longer) {
                assert forall|i: int| 0 <= i < s.len() implies text::is_digit(#[trigger] s[i]) by {
                    assert(longer[i + 1] == s[i]);
                }
            }
            if text::all_digits(s) {
                assert forall|i: int| 0 <= i < longer.len() implies text::is_digit(
                    #[trigger] longer[i],
                ) by {
                    if i > 0 {
                        assert(longer[i] == s[i - 1]);
                    }
                }
            }
        }
    }
}

proof fn lemma_leading_zero(s: Seq<char>)
    ensures
        text::digits_value(seq!['0'] + s) == text::digits_value(s),
    decreases s.len(),
{
    let longer = seq!['0'] + s;
    if s.len() == 0 {
        assert(longer.drop_last() =~= s);
        reveal_with_fuel(text::digits_value, 2);
    } else {
        lemma_leading_zero(s.drop_last());
        assert(longer.drop_last() =~= seq!['0'] + s.drop_last());
        assert(longer.last() == s.last());
    }
}

} // verus!
