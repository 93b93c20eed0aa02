//! Text building blocks: comparing, splitting, numbering and padding strings.
//!
//! A string is modelled by the sequence of its characters. Everything here is
//! stated over that model, so that the messages and parsers of the other
//! modules can be stated exactly.

pub mod laws;

use vstd::prelude::*;

verus! {

// ---------------------------------------------------------------------------
// The model
// ---------------------------------------------------------------------------

/// The Unicode `White_Space` property.
pub open spec fn is_white_space(c: char) -> bool {
    let n = c as u32;
    ||| 0x09 <= n <= 0x0D
    ||| n == 0x20
    ||| n == 0x85
    ||| n == 0xA0
    ||| n == 0x1680
    ||| 0x2000 <= n <= 0x200A
    ||| n == 0x2028
    ||| n == 0x2029
    ||| n == 0x202F
    ||| n == 0x205F
    ||| n == 0x3000
}

/// How many characters at the front of `s` come before any white space.
pub open spec fn leading_word(s: Seq<char>) -> nat
    decreases s.len(),
{
    if s.len() > 0 && !is_white_space(s[0]) {
        1 + leading_word(s.drop_first())
    } else {
        0
    }
}

/// The runs of `s` that hold no white space, in order.
pub open spec fn words(s: Seq<char>) -> Seq<Seq<char>>
    decreases s.len(),
{
    if s.len() == 0 {
        seq![]
    } else if is_white_space(s[0]) {
        words(s.drop_first())
    } else {
        let n = leading_word(s);
        if n < 1 || n > s.len() {
            seq![]
        } else {
            seq![s.take(n as int)] + words(s.skip(n as int))
        }
    }
}

/// `s` without the white space at its front.
pub open spec fn trim_start(s: Seq<char>) -> Seq<char>
    decreases s.len(),
{
    if s.len() > 0 && is_white_space(s[0]) {
        trim_start(s.drop_first())
    } else {
        s
    }
}

/// `s` without the white space at its end.
pub open spec fn trim_end(s: Seq<char>) -> Seq<char>
    decreases s.len(),
{
    if s.len() > 0 && is_white_space(s.last()) {
        trim_end(s.drop_last())
    } else {
        s
    }
}

/// `s` without the white space at either end.
pub open spec fn trimmed(s: Seq<char>) -> Seq<char> {
    trim_end(trim_start(s))
}

/// The pieces of `s` between occurrences of `sep`: one more piece than there
/// are separators.
pub open spec fn split_on(s: Seq<char>, sep: char) -> Seq<Seq<char>>
    decreases s.len(),
{
    if s.len() == 0 {
        seq![seq![]]
    } else if s.last() == sep {
        split_on(s.drop_last(), sep).push(seq![])
    } else {
        let rest = split_on(s.drop_last(), sep);
        rest.drop_last().push(rest.last().push(s.last()))
    }
}

/// A line without the carriage return that may end it.
pub open spec fn strip_return(s: Seq<char>) -> Seq<char> {
    if s.len() > 0 && s.last() == '\r' {
        s.drop_last()
    } else {
        s
    }
}

/// The lines of `s`. A final newline ends the last line rather than starting an
/// empty one. Only a carriage return that stands before a newline goes with it.
pub open spec fn text_lines(s: Seq<char>) -> Seq<Seq<char>> {
    let pieces = split_on(s, '\n');
    let ended = pieces.drop_last().map_values(|p: Seq<char>| strip_return(p));
    if pieces.last().len() == 0 {
        ended
    } else {
        ended.push(pieces.last())
    }
}

/// `parts` with `sep` between neighbours.
pub open spec fn joined(parts: Seq<Seq<char>>, sep: Seq<char>) -> Seq<char>
    decreases parts.len(),
{
    if parts.len() == 0 {
        seq![]
    } else if parts.len() == 1 {
        parts[0]
    } else {
        joined(parts.drop_last(), sep) + sep + parts.last()
    }
}

/// The character of a digit below sixteen, letters in upper case.
pub open spec fn digit_upper(d: int) -> char {
    if d < 10 {
        (0x30 + d) as char
    } else {
        (0x37 + d) as char
    }
}

/// The character of a digit below sixteen, letters in lower case.
pub open spec fn digit_lower(d: int) -> char {
    if d < 10 {
        (0x30 + d) as char
    } else {
        (0x57 + d) as char
    }
}

/// `n` in decimal, without leading zeros.
pub open spec fn decimal(n: nat) -> Seq<char>
    decreases n,
{
    if n < 10 {
        seq![digit_upper(n as int)]
    } else {
        decimal(n / 10).push(digit_upper((n % 10) as int))
    }
}

/// `n` in upper-case hexadecimal, without leading zeros.
pub open spec fn hexadecimal(n: nat) -> Seq<char>
    decreases n,
{
    if n < 16 {
        seq![digit_upper(n as int)]
    } else {
        hexadecimal(n / 16).push(digit_upper((n % 16) as int))
    }
}

/// `n` copies of `c`.
pub open spec fn repeated(c: char, n: int) -> Seq<char> {
    Seq::new(if n > 0 { n as nat } else { 0 }, |i: int| c)
}

/// `s` followed by as many spaces as bring it to `width` characters.
pub open spec fn padded(s: Seq<char>, width: int) -> Seq<char> {
    s + repeated(' ', width - s.len())
}

/// `s` preceded by as many spaces as bring it to `width` characters.
pub open spec fn padded_left(s: Seq<char>, width: int) -> Seq<char> {
    repeated(' ', width - s.len()) + s
}

/// `s` preceded by as many zeros as bring it to `width` characters.
pub open spec fn zero_padded(s: Seq<char>, width: int) -> Seq<char> {
    repeated('0', width - s.len()) + s
}

pub open spec fn begins(s: Seq<char>, prefix: Seq<char>) -> bool {
    prefix.len() <= s.len() && s.take(prefix.len() as int) == prefix
}

/// `needle` stands somewhere in `s`.
pub open spec fn holds(s: Seq<char>, needle: Seq<char>) -> bool {
    exists|at: int|
        0 <= at && at + needle.len() <= s.len() && #[trigger] s.subrange(at, at + needle.len())
            == needle
}

/// The characters of each string of a list.
pub open spec fn views(list: Seq<String>) -> Seq<Seq<char>> {
    list.map_values(|s: String| s@)
}

/// The characters of each string slice of a list.
pub open spec fn str_views(list: Seq<&'static str>) -> Seq<Seq<char>> {
    list.map_values(|s: &'static str| s@)
}

pub open spec fn is_digit(c: char) -> bool {
    '0' <= c <= '9'
}

/// The number that a run of decimal digits denotes.
pub open spec fn digits_value(s: Seq<char>) -> nat
    decreases s.len(),
{
    if s.len() == 0 {
        0
    } else {
        digits_value(s.drop_last()) * 10 + (s.last() as u32 - 0x30) as nat
    }
}

/// `s` without the plus sign that may lead it.
pub open spec fn without_plus(s: Seq<char>) -> Seq<char> {
    if s.len() > 0 && s[0] == '+' {
        s.drop_first()
    } else {
        s
    }
}

pub open spec fn all_digits(s: Seq<char>) -> bool {
    forall|i: int| 0 <= i < s.len() ==> is_digit(#[trigger] s[i])
}

/// The `u32` that `s` is in decimal: digits, at least one, after at most one
/// plus sign.
pub open spec fn u32_of(s: Seq<char>) -> Option<u32> {
    let digits = without_plus(s);
    if digits.len() > 0 && all_digits(digits) && digits_value(digits) <= u32::MAX {
        Some(digits_value(digits) as u32)
    } else {
        None
    }
}

/// From its `k`-th character on, `s` is ASCII.
pub open spec fn ascii_from(s: Seq<char>, k: int) -> bool
    decreases s.len() + 1 - k,
{
    k >= s.len() || (s[k] <= '\u{7f}' && (k + 1 >= s.len() || s[k + 1] <= '\u{7f}') && ascii_from(
        s,
        k + 2,
    ))
}

proof fn lemma_ascii_at(s: Seq<char>, k: int, i: int)
    requires
        ascii_from(s, k),
        k <= i < s.len(),
    ensures
        s[i] <= '\u{7f}',
    decreases i - k,
{
    if k + 1 < i {
        lemma_ascii_at(s, k + 2, i);
    }
}

proof fn lemma_lowest_char(c: char)
    ensures
        '\0' <= c,
{
}

pub proof fn lemma_ascii(s: Seq<char>)
    requires
        ascii_from(s, 0),
    ensures
        vstd::utf8::is_ascii_chars(s),
{
    assert forall|i: int| 0 <= i < s.len() implies '\0' <= #[trigger] s[i] <= '\u{7f}' by {
        lemma_ascii_at(s, 0, i);
        lemma_lowest_char(s[i]);
    }
}

// ---------------------------------------------------------------------------
// What std gives
// ---------------------------------------------------------------------------

/// `String::push`: appends one character.
#[verifier::external_body]
pub(crate) fn push_char(s: &mut String, c: char)
    ensures
        final(s)@ == old(s)@.push(c),
{
    s.push(c)
}

/// What `str::to_lowercase` makes of a string: a table lookup per character,
/// with the final-sigma rule.
pub uninterp spec fn lowercase(s: Seq<char>) -> Seq<char>;

/// `str::to_lowercase`. Its result depends on the characters alone; which
/// lower-case form each has is Unicode's table and is left unsaid.
#[verifier::external_body]
pub(crate) fn to_lowercase(s: &str) -> (res: String)
    ensures
        res@ == lowercase(s@),
{
    s.to_lowercase()
}

/// What `{:?}` prints for a string: quoted, with control characters, quotes and
/// some others escaped.
pub uninterp spec fn quoted(s: Seq<char>) -> Seq<char>;

/// `Debug` formatting of a `str`. Its result depends on the characters alone;
/// the escapes are left unsaid.
#[verifier::external_body]
pub(crate) fn to_quoted(s: &str) -> (res: String)
    ensures
        res@ == quoted(s@),
{
    format!("{:?}", s)
}

// ---------------------------------------------------------------------------
// Strings
// ---------------------------------------------------------------------------

/// Equal encodings are the encodings of equal strings.
pub proof fn lemma_encoding_injective(a: Seq<char>, b: Seq<char>)
    requires
        vstd::utf8::encode_utf8(a) == vstd::utf8::encode_utf8(b),
    ensures
        a == b,
{
    vstd::utf8::encode_utf8_decode_utf8(a);
    vstd::utf8::encode_utf8_decode_utf8(b);
}

pub fn str_eq(a: &str, b: &str) -> (res: bool)
    ensures
        res == (a@ == b@),
{
    let x: &[u8] = a.as_bytes();
    let y: &[u8] = b.as_bytes();
    let same = bytes_eq(x, y);
    proof {
        if same {
            lemma_encoding_injective(a@, b@);
        }
    }
    same
}

pub fn bytes_eq(a: &[u8], b: &[u8]) -> (res: bool)
    ensures
        res == (a@ == b@),
{
    if a.len() != b.len() {
        return false;
    }
    let mut i: usize = 0;
    while i < a.len()
        invariant
            i <= a.len(),
            a.len() == b.len(),
            forall|j: int| 0 <= j < i ==> a@[j] == b@[j],
        decreases a.len() - i,
    {
        if a[i] != b[i] {
            return false;
        }
        i = i + 1;
    }
    assert(a@ =~= b@);
    true
}

pub fn chars_of(s: &str) -> (res: Vec<char>)
    ensures
        res@ == s@,
{
    let mut res: Vec<char> = Vec::new();
    for c in it: s.chars()
        invariant
            it.seq() == s@,
            res@ == it.seq().take(it.index() as int),
    {
        res.push(c);
    }
    res
}

/// The characters `from..to` of `s`.
pub fn slice_of(s: &Vec<char>, from: usize, to: usize) -> (res: String)
    requires
        from <= to <= s@.len(),
    ensures
        res@ == s@.subrange(from as int, to as int),
{
    let mut out = String::new();
    let mut i: usize = from;
    while i < to
        invariant
            from <= i <= to <= s@.len(),
            out@ == s@.subrange(from as int, i as int),
        decreases to - i,
    {
        push_char(&mut out, s[i]);
        i = i + 1;
    }
    out
}

pub fn cat2(a: &str, b: &str) -> (res: String)
    ensures
        res@ == a@ + b@,
{
    let mut out = a.to_owned();
    out.append(b);
    out
}

pub fn cat3(a: &str, b: &str, c: &str) -> (res: String)
    ensures
        res@ == a@ + b@ + c@,
{
    let mut out = a.to_owned();
    out.append(b);
    out.append(c);
    out
}

pub fn cat4(a: &str, b: &str, c: &str, d: &str) -> (res: String)
    ensures
        res@ == a@ + b@ + c@ + d@,
{
    let mut out = a.to_owned();
    out.append(b);
    out.append(c);
    out.append(d);
    out
}

pub fn cat5(a: &str, b: &str, c: &str, d: &str, e: &str) -> (res: String)
    ensures
        res@ == a@ + b@ + c@ + d@ + e@,
{
    let mut out = cat4(a, b, c, d);
    out.append(e);
    out
}

pub fn begins_with(s: &str, prefix: &str) -> (res: bool)
    ensures
        res == begins(s@, prefix@),
{
    let a = chars_of(s);
    let b = chars_of(prefix);
    if b.len() > a.len() {
        return false;
    }
    let mut i: usize = 0;
    while i < b.len()
        invariant
            i <= b.len() <= a.len(),
            a@ == s@,
            b@ == prefix@,
            forall|j: int| 0 <= j < i ==> a@[j] == b@[j],
        decreases b.len() - i,
    {
        if a[i] != b[i] {
            assert(s@.take(prefix@.len() as int)[i as int] != prefix@[i as int]);
            return false;
        }
        i = i + 1;
    }
    assert(s@.take(prefix@.len() as int) =~= prefix@);
    true
}

/// `s` without `prefix`, where it begins with it.
pub fn without_prefix(s: &str, prefix: &str) -> (res: Option<String>)
    ensures
        res is Some == begins(s@, prefix@),
        res matches Some(rest) ==> rest@ == s@.skip(prefix@.len() as int),
{
    if begins_with(s, prefix) {
        let cs = chars_of(s);
        let n: usize = chars_of(prefix).len();
        Some(slice_of(&cs, n, cs.len()))
    } else {
        None
    }
}

pub fn contains_str(s: &str, needle: &str) -> (res: bool)
    ensures
        res == holds(s@, needle@),
{
    let a = chars_of(s);
    let b = chars_of(needle);
    if b.len() > a.len() {
        return false;
    }
    let last: usize = a.len() - b.len();
    let mut at: usize = 0;
    loop
        invariant
            a@ == s@,
            b@ == needle@,
            at <= last,
            last == a@.len() - b@.len(),
            a@.len() <= usize::MAX,
            forall|p: int|
                0 <= p < at ==> #[trigger] s@.subrange(p, p + needle@.len()) != needle@,
        decreases last - at,
    {
        let mut i: usize = 0;
        while i < b.len() && a[at + i] == b[i]
            invariant
                a@ == s@,
                b@ == needle@,
                i <= b@.len(),
                at + b@.len() <= a@.len(),
                a@.len() <= usize::MAX,
                forall|j: int| 0 <= j < i ==> a@[at + j] == b@[j],
            decreases b.len() - i,
        {
            i = i + 1;
        }
        if i == b.len() {
            assert(s@.subrange(at as int, at + needle@.len()) =~= needle@);
            return true;
        }
        assert(s@.subrange(at as int, at + needle@.len())[i as int] != needle@[i as int]);
        if at == last {
            return false;
        }
        at = at + 1;
    }
}

pub fn white_space(c: char) -> (res: bool)
    ensures
        res == is_white_space(c),
{
    let n: u32 = c as u32;
    (0x09 <= n && n <= 0x0D) || n == 0x20 || n == 0x85 || n == 0xA0 || n == 0x1680 || (0x2000 <= n
        && n <= 0x200A) || n == 0x2028 || n == 0x2029 || n == 0x202F || n == 0x205F || n == 0x3000
}

proof fn lemma_leading_word(s: Seq<char>, n: int)
    requires
        0 <= n <= s.len(),
        forall|i: int| 0 <= i < n ==> !is_white_space(#[trigger] s[i]),
        n < s.len() ==> is_white_space(s[n]),
    ensures
        leading_word(s) == n,
    decreases n,
{
    if n > 0 {
        assert forall|i: int| 0 <= i < n - 1 implies !is_white_space(
            #[trigger] s.drop_first()[i],
        ) by {
            assert(s.drop_first()[i] == s[i + 1]);
        }
        lemma_leading_word(s.drop_first(), n - 1);
    }
}

/// `str::split_whitespace`, collected.
pub fn split_words(s: &str) -> (res: Vec<String>)
    ensures
        views(res@) == words(s@),
{
    let cs = chars_of(s);
    let mut out: Vec<String> = Vec::new();
    let mut i: usize = 0;
    assert(cs@.skip(0) =~= cs@);
    while i < cs.len()
        invariant
            cs@ == s@,
            i <= cs@.len(),
            words(s@) == views(out@) + words(cs@.skip(i as int)),
        decreases cs.len() - i,
    {
        let ghost rest = cs@.skip(i as int);
        assert(rest.len() > 0 && rest[0] == cs@[i as int]);
        if white_space(cs[i]) {
            assert(rest.drop_first() =~= cs@.skip(i + 1));
            i = i + 1;
        } else {
            let start: usize = i;
            while i < cs.len() && !white_space(cs[i])
                invariant
                    start <= i <= cs@.len(),
                    forall|j: int| start <= j < i ==> !is_white_space(#[trigger] cs@[j]),
                ensures
                    start <= i <= cs@.len(),
                    forall|j: int| start <= j < i ==> !is_white_space(#[trigger] cs@[j]),
                    i < cs@.len() ==> is_white_space(cs@[i as int]),
                decreases cs.len() - i,
            {
                i = i + 1;
            }
            let word = slice_of(&cs, start, i);
            proof {
                let n = i - start;
                assert forall|j: int| 0 <= j < n implies !is_white_space(#[trigger] rest[j]) by {
                    assert(rest[j] == cs@[start + j]);
                }
                assert(n < rest.len() ==> rest[n] == cs@[i as int]);
                lemma_leading_word(rest, n);
                if n == 0 {
                    assert(i == start);
                    assert(is_white_space(cs@[start as int]));
                }
                assert(n >= 1);
                assert(rest.take(n) =~= word@);
                assert(rest.skip(n) =~= cs@.skip(i as int));
                assert(views(out@.push(word)) =~= views(out@).push(word@));
                assert(words(s@) =~= views(out@.push(word)) + words(cs@.skip(i as int)));
            }
            out.push(word);
        }
    }
    assert(words(cs@.skip(i as int)) =~= Seq::<Seq<char>>::empty());
    assert(views(out@) =~= words(s@));
    out
}

proof fn lemma_trim_start(s: Seq<char>, n: int)
    requires
        0 <= n <= s.len(),
        forall|i: int| 0 <= i < n ==> is_white_space(#[trigger] s[i]),
        n < s.len() ==> !is_white_space(s[n]),
    ensures
        trim_start(s) == s.skip(n),
    decreases n,
{
    if n > 0 {
        assert forall|i: int| 0 <= i < n - 1 implies is_white_space(#[trigger] s.drop_first()[i]) by {
            assert(s.drop_first()[i] == s[i + 1]);
        }
        lemma_trim_start(s.drop_first(), n - 1);
        assert(s.drop_first().skip(n - 1) =~= s.skip(n));
    } else {
        assert(s.skip(0) =~= s);
    }
}

proof fn lemma_trim_end(s: Seq<char>, n: int)
    requires
        0 <= n <= s.len(),
        forall|i: int| n <= i < s.len() ==> is_white_space(#[trigger] s[i]),
        n > 0 ==> !is_white_space(s[n - 1]),
    ensures
        trim_end(s) == s.take(n),
    decreases s.len() - n,
{
    if n < s.len() {
        assert(is_white_space(s[s.len() - 1]));
        lemma_trim_end(s.drop_last(), n);
        assert(s.drop_last().take(n) =~= s.take(n));
    } else {
        assert(s.take(n) =~= s);
    }
}

/// `str::trim`.
pub fn trim(s: &str) -> (res: String)
    ensures
        res@ == trimmed(s@),
{
    let cs = chars_of(s);
    let mut from: usize = 0;
    while from < cs.len() && white_space(cs[from])
        invariant
            from <= cs@.len(),
            forall|i: int| 0 <= i < from ==> is_white_space(#[trigger] cs@[i]),
        ensures
            from <= cs@.len(),
            forall|i: int| 0 <= i < from ==> is_white_space(#[trigger] cs@[i]),
            from < cs@.len() ==> !is_white_space(cs@[from as int]),
        decreases cs.len() - from,
    {
        from = from + 1;
    }
    let mut to: usize = cs.len();
    while to > from && white_space(cs[to - 1])
        invariant
            from <= to <= cs@.len(),
            forall|i: int| to <= i < cs@.len() ==> is_white_space(#[trigger] cs@[i]),
        ensures
            from <= to <= cs@.len(),
            forall|i: int| to <= i < cs@.len() ==> is_white_space(#[trigger] cs@[i]),
            to > from ==> !is_white_space(cs@[to - 1]),
        decreases to,
    {
        to = to - 1;
    }
    proof {
        lemma_trim_start(cs@, from as int);
        let t = cs@.skip(from as int);
        assert forall|i: int| to - from <= i < t.len() implies is_white_space(#[trigger] t[i]) by {
            assert(t[i] == cs@[from + i]);
        }
        lemma_trim_end(t, to - from);
        assert(t.take(to - from) =~= cs@.subrange(from as int, to as int));
    }
    slice_of(&cs, from, to)
}

/// `str::split` at a character, collected.
pub fn split_at_char(s: &str, sep: char) -> (res: Vec<String>)
    ensures
        views(res@) == split_on(s@, sep),
        res@.len() >= 1,
{
    let cs = chars_of(s);
    let mut out: Vec<String> = Vec::new();
    let mut cur = String::new();
    let mut i: usize = 0;
    assert(cs@.take(0) =~= Seq::<char>::empty());
    assert(views(out@).push(cur@) =~= split_on(cs@.take(0), sep));
    while i < cs.len()
        invariant
            cs@ == s@,
            i <= cs@.len(),
            views(out@).push(cur@) == split_on(cs@.take(i as int), sep),
        decreases cs.len() - i,
    {
        let c = cs[i];
        let ghost next = cs@.take(i + 1);
        assert(next.drop_last() =~= cs@.take(i as int));
        assert(next.last() == c);
        let ghost before = views(out@).push(cur@);
        assert(before.drop_last() =~= views(out@));
        assert(before.last() == cur@);
        if c == sep {
            let ghost done = out@.push(cur);
            assert(views(done) =~= views(out@).push(cur@));
            out.push(cur);
            cur = String::new();
            assert(split_on(next, sep) =~= views(out@).push(cur@));
        } else {
            push_char(&mut cur, c);
            assert(split_on(next, sep) =~= views(out@).push(cur@));
        }
        i = i + 1;
    }
    assert(cs@.take(i as int) =~= s@);
    assert(views(out@.push(cur)) =~= views(out@).push(cur@));
    out.push(cur);
    out
}

/// `str::lines`, collected.
pub fn split_lines(s: &str) -> (res: Vec<String>)
    ensures
        views(res@) == text_lines(s@),
{
    let pieces = split_at_char(s, '\n');
    let n: usize = pieces.len();
    let mut out: Vec<String> = Vec::new();
    let mut i: usize = 0;
    let ghost ended = split_on(s@, '\n').drop_last().map_values(
        |p: Seq<char>| strip_return(p),
    );
    while i < n - 1
        invariant
            n == pieces@.len(),
            n >= 1,
            i <= n - 1,
            views(pieces@) == split_on(s@, '\n'),
            ended == split_on(s@, '\n').drop_last().map_values(|p: Seq<char>| strip_return(p)),
            views(out@) == ended.take(i as int),
        decreases n - 1 - i,
    {
        let cs = chars_of(pieces[i].as_str());
        let end: usize = if cs.len() > 0 && cs[cs.len() - 1] == '\r' {
            cs.len() - 1
        } else {
            cs.len()
        };
        let line = slice_of(&cs, 0, end);
        proof {
            assert(views(pieces@)[i as int] == pieces@[i as int]@);
            assert(line@ =~= strip_return(cs@));
            assert(ended[i as int] == line@);
            assert(views(out@.push(line)) =~= views(out@).push(line@));
            assert(ended.take(i + 1) =~= ended.take(i as int).push(ended[i as int]));
        }
        out.push(line);
        i = i + 1;
    }
    assert(ended.take(i as int) =~= ended);
    assert(views(pieces@).last() == pieces@[n - 1]@);
    if !pieces[n - 1].as_str().is_empty() {
        let last = pieces[n - 1].clone();
        assert(views(out@.push(last)) =~= views(out@).push(last@));
        out.push(last);
    }
    out
}

pub fn upper_digit(d: u32) -> (res: char)
    requires
        d < 16,
    ensures
        res == digit_upper(d as int),
{
    if d < 10 {
        char_from_ascii((0x30 + d) as u8)
    } else {
        char_from_ascii((0x37 + d) as u8)
    }
}

pub fn lower_digit(d: u32) -> (res: char)
    requires
        d < 16,
    ensures
        res == digit_lower(d as int),
{
    if d < 10 {
        char_from_ascii((0x30 + d) as u8)
    } else {
        char_from_ascii((0x57 + d) as u8)
    }
}

fn char_from_ascii(b: u8) -> (res: char)
    requires
        b < 128,
    ensures
        res == b as char,
{
    b as char
}

pub fn push_decimal(out: &mut String, n: u64)
    ensures
        final(out)@ == old(out)@ + decimal(n as nat),
    decreases n,
{
    if n >= 10 {
        push_decimal(out, n / 10);
    }
    push_char(out, upper_digit((n % 10) as u32));
    assert(out@ =~= old(out)@ + decimal(n as nat));
}

/// `n` in decimal.
pub fn to_decimal(n: u64) -> (res: String)
    ensures
        res@ == decimal(n as nat),
{
    let mut out = String::new();
    push_decimal(&mut out, n);
    assert(Seq::<char>::empty() + decimal(n as nat) =~= decimal(n as nat));
    out
}

pub fn push_hexadecimal(out: &mut String, n: u64)
    ensures
        final(out)@ == old(out)@ + hexadecimal(n as nat),
    decreases n,
{
    if n >= 16 {
        push_hexadecimal(out, n / 16);
    }
    push_char(out, upper_digit((n % 16) as u32));
    assert(out@ =~= old(out)@ + hexadecimal(n as nat));
}

/// `n` in upper-case hexadecimal.
pub fn to_hexadecimal(n: u64) -> (res: String)
    ensures
        res@ == hexadecimal(n as nat),
{
    let mut out = String::new();
    push_hexadecimal(&mut out, n);
    assert(Seq::<char>::empty() + hexadecimal(n as nat) =~= hexadecimal(n as nat));
    out
}

/// A number of any size that occurs, in decimal.
pub fn wide_decimal(n: u128) -> (res: String)
    ensures
        res@ == decimal(n as nat),
    decreases n,
{
    let mut out = if n >= 10 {
        wide_decimal(n / 10)
    } else {
        String::new()
    };
    push_char(&mut out, upper_digit((n % 10) as u32));
    assert(out@ =~= decimal(n as nat));
    out
}

/// `n` copies of `c`.
pub fn repeat_char(c: char, n: usize) -> (res: String)
    ensures
        res@ == repeated(c, n as int),
{
    let mut out = String::new();
    let mut i: usize = 0;
    while i < n
        invariant
            i <= n,
            out@ == repeated(c, i as int),
        decreases n - i,
    {
        push_char(&mut out, c);
        i = i + 1;
        assert(out@ =~= repeated(c, i as int));
    }
    out
}

pub fn pad_left(s: &str, width: usize) -> (res: String)
    ensures
        res@ == padded_left(s@, width as int),
{
    let n: usize = s.unicode_len();
    if n >= width {
        assert(repeated(' ', width - n) + s@ =~= s@);
        s.to_owned()
    } else {
        let mut out = repeat_char(' ', width - n);
        out.append(s);
        out
    }
}

pub fn pad_zeros(s: &str, width: usize) -> (res: String)
    ensures
        res@ == zero_padded(s@, width as int),
{
    let n: usize = s.unicode_len();
    if n >= width {
        assert(repeated('0', width - n) + s@ =~= s@);
        s.to_owned()
    } else {
        let mut out = repeat_char('0', width - n);
        out.append(s);
        out
    }
}

/// The strings of `parts` with `sep` between neighbours.
pub fn join(parts: &Vec<String>, sep: &str) -> (res: String)
    ensures
        res@ == joined(views(parts@), sep@),
{
    let mut out = String::new();
    let mut i: usize = 0;
    assert(views(parts@).take(0) =~= Seq::<Seq<char>>::empty());
    while i < parts.len()
        invariant
            i <= parts@.len(),
            out@ == joined(views(parts@).take(i as int), sep@),
        decreases parts.len() - i,
    {
        let ghost next = views(parts@).take(i + 1);
        assert(next.drop_last() =~= views(parts@).take(i as int));
        assert(next.last() == parts@[i as int]@);
        if i > 0 {
            out.append(sep);
        }
        out.append(parts[i].as_str());
        assert(out@ =~= joined(next, sep@)) by {
            if i == 0 {
                assert(next.len() == 1);
            }
        }
        i = i + 1;
    }
    assert(views(parts@).take(i as int) =~= views(parts@));
    out
}

/// As [`join`], for string slices.
pub fn join_strs(parts: &Vec<&'static str>, sep: &str) -> (res: String)
    ensures
        res@ == joined(str_views(parts@), sep@),
{
    let owned = own_all(parts);
    join(&owned, sep)
}

/// Owned copies of string slices.
pub fn own_all(parts: &Vec<&'static str>) -> (res: Vec<String>)
    ensures
        views(res@) == str_views(parts@),
{
    let mut out: Vec<String> = Vec::new();
    let mut i: usize = 0;
    while i < parts.len()
        invariant
            i <= parts@.len(),
            views(out@) == str_views(parts@).take(i as int),
        decreases parts.len() - i,
    {
        let s = parts[i].to_owned();
        assert(views(out@.push(s)) =~= views(out@).push(s@));
        assert(str_views(parts@).take(i + 1) =~= str_views(parts@).take(i as int).push(
            parts@[i as int]@,
        ));
        out.push(s);
        i = i + 1;
    }
    assert(str_views(parts@).take(i as int) =~= str_views(parts@));
    out
}

/// Appends to a list of strings.
pub fn push_text(out: &mut Vec<String>, s: String)
    ensures
        views(final(out)@) == views(old(out)@).push(s@),
{
    assert(views(out@.push(s)) =~= views(out@).push(s@));
    out.push(s);
}

/// Appends a list of strings to another.
pub fn push_all(out: &mut Vec<String>, more: Vec<String>)
    ensures
        views(final(out)@) == views(old(out)@) + views(more@),
{
    let ghost before = views(out@);
    let ghost added = views(more@);
    let mut i: usize = 0;
    assert(before + added.take(0) =~= before);
    while i < more.len()
        invariant
            i <= more@.len(),
            added == views(more@),
            views(out@) == before + added.take(i as int),
        decreases more@.len() - i,
    {
        assert(added[i as int] == more@[i as int]@);
        assert(before + added.take(i + 1) =~= (before + added.take(i as int)).push(
            added[i as int],
        ));
        push_text(out, more[i].clone());
        i = i + 1;
    }
    assert(added.take(i as int) =~= added);
}

/// `s` followed by as many spaces as bring it to `width` characters.
pub fn pad(s: &str, width: usize) -> (res: String)
    ensures
        res@ == padded(s@, width as int),
{
    let n: usize = s.unicode_len();
    let mut out = s.to_owned();
    if n < width {
        out.append(repeat_char(' ', width - n).as_str());
    } else {
        assert(s@ + repeated(' ', width - n) =~= s@);
    }
    out
}

// ---------------------------------------------------------------------------
// Wrapping
// ---------------------------------------------------------------------------

/// Lines that are full, and the line being filled.
pub struct Filling {
    pub lines: Seq<Seq<char>>,
    pub current: Seq<char>,
}

/// The first `n` words laid out in lines of at most `width` columns. A word that
/// does not fit behind the others starts a new line.
pub open spec fn filled(words: Seq<Seq<char>>, width: int, n: int) -> Filling
    decreases n,
{
    if n <= 0 {
        Filling { lines: seq![], current: seq![] }
    } else {
        let before = filled(words, width, n - 1);
        let word = words[n - 1];
        if before.current.len() == 0 {
            Filling { lines: before.lines, current: word }
        } else if before.current.len() + 1 + word.len() > width {
            Filling { lines: before.lines.push(before.current), current: word }
        } else {
            Filling { lines: before.lines, current: before.current + seq![' '] + word }
        }
    }
}

/// Words laid out in lines of at most `width` columns.
pub open spec fn wrapped_words(words: Seq<Seq<char>>, width: int) -> Seq<Seq<char>> {
    let all = filled(words, width, words.len() as int);
    if all.current.len() > 0 {
        all.lines.push(all.current)
    } else {
        all.lines
    }
}

/// A text broken into lines of at most `width` columns, between words only.
pub open spec fn wrapped(s: Seq<char>, width: int) -> Seq<Seq<char>> {
    wrapped_words(words(s), width)
}

/// Break a text into lines of at most `width` columns.
pub fn wrap_plain(s: &str, width: usize) -> (res: Vec<String>)
    ensures
        views(res@) == wrapped(s@, width as int),
{
    let list = split_words(s);
    let ghost all = views(list@);
    let mut lines: Vec<String> = Vec::new();
    let mut cur = String::new();
    let mut i: usize = 0;
    assert(views(lines@) =~= filled(all, width as int, 0).lines);
    assert(cur@ =~= filled(all, width as int, 0).current);
    while i < list.len()
        invariant
            i <= list@.len(),
            all == views(list@),
            views(lines@) == filled(all, width as int, i as int).lines,
            cur@ == filled(all, width as int, i as int).current,
        decreases list@.len() - i,
    {
        let word = list[i].as_str();
        assert(all[i as int] == word@);
        let have: usize = cur.as_str().unicode_len();
        let need: usize = word.unicode_len();
        if have == 0 {
            cur = word.to_owned();
        } else if have as u128 + 1 + need as u128 > width as u128 {
            push_text(&mut lines, cur);
            cur = word.to_owned();
        } else {
            push_char(&mut cur, ' ');
            cur.append(word);
            assert(cur@ =~= filled(all, width as int, i as int).current + seq![' '] + word@);
        }
        i = i + 1;
    }
    if cur.as_str().unicode_len() > 0 {
        push_text(&mut lines, cur);
    }
    lines
}

/// Every line of a wrapped text fits its width, or is a single word that does not.
pub proof fn law_wrapped_lines_fit(list: Seq<Seq<char>>, width: int, k: int)
    requires
        0 <= k < wrapped_words(list, width).len(),
    ensures
        wrapped_words(list, width)[k].len() <= width || list.contains(
            wrapped_words(list, width)[k],
        ),
{
    lemma_filled_fits(list, width, list.len() as int);
}

proof fn lemma_filled_fits(list: Seq<Seq<char>>, width: int, n: int)
    requires
        0 <= n <= list.len(),
    ensures
        forall|k: int|
            0 <= k < filled(list, width, n).lines.len() ==> (#[trigger] filled(
                list,
                width,
                n,
            ).lines[k].len() <= width || list.contains(filled(list, width, n).lines[k])),
        filled(list, width, n).current.len() == 0 || filled(list, width, n).current.len() <= width
            || list.contains(filled(list, width, n).current),
    decreases n,
{
    if n > 0 {
        lemma_filled_fits(list, width, n - 1);
        assert(list.contains(list[n - 1]));
        let before = filled(list, width, n - 1);
        let after = filled(list, width, n);
        assert forall|k: int| 0 <= k < after.lines.len() implies (#[trigger] after.lines[k].len()
            <= width || list.contains(after.lines[k])) by {
            if k < before.lines.len() {
                assert(after.lines[k] == before.lines[k]);
            }
        }
    }
}

proof fn lemma_words_nonempty(s: Seq<char>)
    ensures
        forall|k: int| 0 <= k < words(s).len() ==> (#[trigger] words(s)[k]).len() > 0,
    decreases s.len(),
{
    if s.len() > 0 {
        if is_white_space(s[0]) {
            lemma_words_nonempty(s.drop_first());
            assert(words(s) == words(s.drop_first()));
        } else {
            let n = leading_word(s);
            if 1 <= n <= s.len() {
                let rest = words(s.skip(n as int));
                lemma_words_nonempty(s.skip(n as int));
                assert forall|k: int| 0 <= k < words(s).len() implies (#[trigger] words(
                    s,
                )[k]).len() > 0 by {
                    if k > 0 {
                        assert(words(s)[k] == rest[k - 1]);
                    }
                }
            }
        }
    }
}

/// No word is lost in wrapping, and none is added: the lines joined by spaces are
/// the words joined by spaces.
pub proof fn law_wrapping_keeps_every_word(s: Seq<char>, width: int)
    ensures
        joined(wrapped(s, width), seq![' ']) == joined(words(s), seq![' ']),
{
    let list = words(s);
    lemma_words_nonempty(s);
    let n = list.len() as int;
    lemma_filled_joins(list, width, n);
    assert(list.take(n) =~= list);
    if n == 0 {
        assert(wrapped_words(list, width) =~= list);
    }
}

proof fn lemma_filled_joins(list: Seq<Seq<char>>, width: int, n: int)
    requires
        0 <= n <= list.len(),
        forall|k: int| 0 <= k < list.len() ==> (#[trigger] list[k]).len() > 0,
    ensures
        n > 0 ==> filled(list, width, n).current.len() > 0,
        n > 0 ==> joined(
            filled(list, width, n).lines.push(filled(list, width, n).current),
            seq![' '],
        ) == joined(list.take(n), seq![' ']),
    decreases n,
{
    if n > 0 {
        lemma_filled_joins(list, width, n - 1);
        let sep = seq![' '];
        let before = filled(list, width, n - 1);
        let after = filled(list, width, n);
        let word = list[n - 1];
        assert(word.len() > 0);
        assert(list.take(n).drop_last() =~= list.take(n - 1));
        assert(list.take(n).last() == word);
        let whole = after.lines.push(after.current);
        assert(whole.drop_last() =~= after.lines);
        assert(whole.last() == after.current);
        if n == 1 {
            assert(before.lines =~= Seq::<Seq<char>>::empty());
            assert(whole =~= seq![word]);
            assert(list.take(1) =~= seq![word]);
        } else if before.current.len() + 1 + word.len() > width {
            assert(after.lines == before.lines.push(before.current));
            assert(joined(whole, sep) == joined(after.lines, sep) + sep + word);
        } else {
            let earlier = before.lines.push(before.current);
            assert(earlier.drop_last() =~= before.lines);
            assert(earlier.last() == before.current);
            if before.lines.len() == 0 {
                assert(joined(whole, sep) == after.current);
                assert(joined(earlier, sep) == before.current);
            } else {
                assert(joined(whole, sep) == joined(before.lines, sep) + sep + after.current);
                assert(joined(earlier, sep) == joined(before.lines, sep) + sep + before.current);
                assert(joined(whole, sep) =~= joined(earlier, sep) + sep + word);
            }
        }
    }
}

/// Whether a list of strings holds `s`.
pub fn list_holds(list: &Vec<String>, s: &str) -> (res: bool)
    ensures
        res == views(list@).contains(s@),
{
    let mut i: usize = 0;
    while i < list.len()
        invariant
            i <= list@.len(),
            forall|j: int| 0 <= j < i ==> (#[trigger] list@[j])@ != s@,
        decreases list.len() - i,
    {
        if str_eq(list[i].as_str(), s) {
            assert(views(list@)[i as int] == s@);
            return true;
        }
        i = i + 1;
    }
    assert forall|j: int| 0 <= j < views(list@).len() implies views(list@)[j] != s@ by {
        assert(list@[j]@ != s@);
    }
    false
}

proof fn lemma_digits_value_monotone(s: Seq<char>, n: int)
    requires
        0 <= n <= s.len(),
        all_digits(s),
    ensures
        digits_value(s.take(n)) <= digits_value(s),
    decreases s.len() - n,
{
    if n < s.len() {
        assert(is_digit(s[s.len() - 1]));
        assert forall|i: int| 0 <= i < s.drop_last().len() implies is_digit(
            #[trigger] s.drop_last()[i],
        ) by {
            assert(s.drop_last()[i] == s[i]);
        }
        lemma_digits_value_monotone(s.drop_last(), n);
        assert(s.drop_last().take(n) =~= s.take(n));
    } else {
        assert(s.take(n) =~= s);
    }
}

/// `str::parse::<u32>`, the error dropped.
pub fn parse_u32(s: &str) -> (res: Option<u32>)
    ensures
        res == u32_of(s@),
{
    let cs = chars_of(s);
    let start: usize = if cs.len() > 0 && cs[0] == '+' {
        1
    } else {
        0
    };
    let ghost digits = cs@.skip(start as int);
    assert(digits =~= without_plus(s@));
    if start == cs.len() {
        return None;
    }
    let mut value: u64 = 0;
    let mut i: usize = start;
    assert(digits.take(0) =~= Seq::<char>::empty());
    while i < cs.len()
        invariant
            start <= i <= cs@.len(),
            digits == cs@.skip(start as int),
            forall|j: int| 0 <= j < i - start ==> is_digit(#[trigger] digits[j]),
            value == digits_value(digits.take(i - start)),
            value <= u32::MAX,
            digits == without_plus(s@),
        decreases cs.len() - i,
    {
        let c = cs[i];
        assert(digits[i - start] == c);
        if !('0' <= c && c <= '9') {
            assert(!is_digit(digits[i - start]));
            return None;
        }
        value = value * 10 + (c as u32 - 0x30) as u64;
        let ghost next = digits.take(i + 1 - start);
        assert(next.drop_last() =~= digits.take(i - start));
        assert(next.last() == c);
        if value > u32::MAX as u64 {
            proof {
                if all_digits(digits) {
                    lemma_digits_value_monotone(digits, i + 1 - start);
                }
            }
            return None;
        }
        i = i + 1;
    }
    assert(digits.take(i - start) =~= digits);
    Some(value as u32)
}

pub proof fn lemma_decimal_digits(n: nat)
    ensures
        decimal(n).len() > 0,
        all_digits(decimal(n)),
        digits_value(decimal(n)) == n,
    decreases n,
{
    let s = decimal(n);
    if n < 10 {
        assert(s.drop_last() =~= Seq::<char>::empty());
        assert(digits_value(s.drop_last()) == 0);
        assert(s.last() == digit_upper(n as int));
    } else {
        lemma_decimal_digits(n / 10);
        assert(s.drop_last() =~= decimal(n / 10));
        assert forall|i: int| 0 <= i < s.len() implies is_digit(#[trigger] s[i]) by {
            if i < s.len() - 1 {
                assert(s[i] == decimal(n / 10)[i]);
            }
        }
    }
}

/// A number reads back from its decimal form.
pub proof fn law_decimals_read_back(n: u32)
    ensures
        u32_of(decimal(n as nat)) == Some(n),
{
    lemma_decimal_digits(n as nat);
    assert(is_digit(decimal(n as nat)[0]));
}

proof fn lemma_split_on_nonempty(s: Seq<char>, sep: char)
    ensures
        split_on(s, sep).len() > 0,
    decreases s.len(),
{
    if s.len() > 0 {
        lemma_split_on_nonempty(s.drop_last(), sep);
    }
}

/// Text without a separator goes on with the last piece.
proof fn lemma_split_on_more(s: Seq<char>, more: Seq<char>, sep: char)
    requires
        forall|i: int| 0 <= i < more.len() ==> #[trigger] more[i] != sep,
    ensures
        split_on(s + more, sep) == split_on(s, sep).drop_last().push(
            split_on(s, sep).last() + more,
        ),
    decreases more.len(),
{
    lemma_split_on_nonempty(s, sep);
    let before = split_on(s, sep);
    if more.len() == 0 {
        assert(s + more =~= s);
        assert(before.last() + more =~= before.last());
        assert(before.drop_last().push(before.last()) =~= before);
    } else {
        let all = s + more;
        let shorter = more.drop_last();
        assert(all.drop_last() =~= s + shorter);
        assert(all.last() == more[more.len() - 1]);
        lemma_split_on_more(s, shorter, sep);
        let rest = split_on(s + shorter, sep);
        assert(rest.drop_last() =~= before.drop_last());
        assert((before.last() + shorter).push(more.last()) =~= before.last() + more);
    }
}

/// Splitting undoes joining: pieces without the separator come back as they were.
pub proof fn law_splitting_undoes_joining(parts: Seq<Seq<char>>, sep: char)
    requires
        parts.len() > 0,
        forall|k: int, i: int|
            0 <= k < parts.len() && 0 <= i < parts[k].len() ==> #[trigger] parts[k][i] != sep,
    ensures
        split_on(joined(parts, seq![sep]), sep) == parts,
    decreases parts.len(),
{
    let last = parts.last();
    assert forall|i: int| 0 <= i < last.len() implies #[trigger] last[i] != sep by {
        assert(parts[parts.len() - 1][i] != sep);
    }
    if parts.len() == 1 {
        let none = Seq::<char>::empty();
        lemma_split_on_more(none, last, sep);
        assert(none + last =~= last);
        assert(split_on(none, sep) =~= seq![none]);
        assert(split_on(last, sep) =~= parts);
    } else {
        let front = parts.drop_last();
        assert forall|k: int, i: int|
            0 <= k < front.len() && 0 <= i < front[k].len() implies #[trigger] front[k][i] != sep by {
            assert(parts[k][i] != sep);
        }
        law_splitting_undoes_joining(front, sep);
        let start = joined(front, seq![sep]) + seq![sep];
        assert(start.last() == sep);
        assert(start.drop_last() =~= joined(front, seq![sep]));
        lemma_split_on_more(start, last, sep);
        assert(split_on(start, sep) == front.push(seq![]));
        assert(front.push(seq![]).drop_last() =~= front);
        assert(Seq::<char>::empty() + last =~= last);
        assert(front.push(last) =~= parts);
    }
}

} // verus!
