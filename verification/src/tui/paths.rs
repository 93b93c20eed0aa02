//! Typing a path: what `~` means, and how far a half-typed one can be completed.

use crate::text;
use crate::text::{begins_with, cat2, cat3, chars_of, slice_of, str_eq, without_prefix};
use vstd::prelude::*;

verus! {

/// A path with `~` or `$HOME` at its front spelled out.
pub open spec fn expanded(input: Seq<char>, home: Seq<char>) -> Seq<char> {
    if home.len() == 0 {
        input
    } else if input == "~"@ {
        home
    } else if text::begins(input, "~/"@) {
        home + "/"@ + input.skip("~/"@.len() as int)
    } else if text::begins(input, "$HOME"@) {
        home + input.skip("$HOME"@.len() as int)
    } else {
        input
    }
}

/// `~` and `$HOME` are what people type; neither means anything to a path.
/// `home` is empty where the home directory is not known.
pub fn expand(input: &str, home: &str) -> (res: String)
    ensures
        res@ == expanded(input@, home@),
{
    if home.unicode_len() == 0 {
        return input.to_owned();
    }
    if str_eq(input, "~") {
        return home.to_owned();
    }
    if let Some(rest) = without_prefix(input, "~/") {
        return cat3(home, "/", rest.as_str());
    }
    if let Some(rest) = without_prefix(input, "$HOME") {
        return cat2(home, rest.as_str());
    }
    input.to_owned()
}

/// How many characters `a` and `b` have in common at the front.
pub open spec fn shared_len(a: Seq<char>, b: Seq<char>) -> nat
    decreases a.len(),
{
    if a.len() == 0 || b.len() == 0 || a[0] != b[0] {
        0
    } else {
        1 + shared_len(a.drop_first(), b.drop_first())
    }
}

/// What `a` and `b` have in common at the front.
pub open spec fn shared(a: Seq<char>, b: Seq<char>) -> Seq<char> {
    a.take(shared_len(a, b) as int)
}

proof fn lemma_shared_len(a: Seq<char>, b: Seq<char>)
    ensures
        shared_len(a, b) <= a.len(),
        shared_len(a, b) <= b.len(),
        a.take(shared_len(a, b) as int) == b.take(shared_len(a, b) as int),
        shared_len(a, b) < a.len() && shared_len(a, b) < b.len() ==> a[shared_len(a, b) as int]
            != b[shared_len(a, b) as int],
    decreases a.len(),
{
    if !(a.len() == 0 || b.len() == 0 || a[0] != b[0]) {
        let x = a.drop_first();
        let y = b.drop_first();
        lemma_shared_len(x, y);
        let n = shared_len(x, y) as int;
        assert forall|i: int| 0 <= i < n + 1 implies a[i] == b[i] by {
            if i > 0 {
                assert(x.take(n)[i - 1] == y.take(n)[i - 1]);
            }
        }
        assert(a.take(n + 1) =~= b.take(n + 1));
    } else {
        assert(a.take(0) =~= b.take(0));
    }
}

/// What two strings have in common at the front is at the front of both, and
/// nothing longer is.
pub proof fn law_the_shared_part_is_the_longest(a: Seq<char>, b: Seq<char>, p: Seq<char>)
    ensures
        text::begins(a, shared(a, b)),
        text::begins(b, shared(a, b)),
        text::begins(a, p) && text::begins(b, p) ==> text::begins(shared(a, b), p),
{
    lemma_shared_len(a, b);
    let n = shared_len(a, b) as int;
    assert(a.take(n) =~= shared(a, b));
    if text::begins(a, p) && text::begins(b, p) {
        let k = p.len() as int;
        if k > n {
            assert(a[n] == a.take(k)[n]);
            assert(b[n] == b.take(k)[n]);
        }
        assert(shared(a, b).take(k) =~= p);
    }
}

pub fn common_prefix(a: &str, b: &str) -> (res: String)
    ensures
        res@ == shared(a@, b@),
{
    let x = chars_of(a);
    let y = chars_of(b);
    let mut n: usize = 0;
    assert(a@.skip(0) =~= a@);
    assert(b@.skip(0) =~= b@);
    while n < x.len() && n < y.len() && x[n] == y[n]
        invariant
            x@ == a@,
            y@ == b@,
            n <= x@.len(),
            n <= y@.len(),
            n + shared_len(a@.skip(n as int), b@.skip(n as int)) == shared_len(a@, b@),
        decreases x@.len() - n,
    {
        assert(a@.skip(n as int).drop_first() =~= a@.skip(n + 1));
        assert(b@.skip(n as int).drop_first() =~= b@.skip(n + 1));
        n = n + 1;
    }
    let res = slice_of(&x, 0, n);
    assert(res@ =~= shared(a@, b@));
    res
}

/// How much of a path is its directory: up to and with the last slash.
pub open spec fn dir_len(path: Seq<char>, n: int) -> int
    decreases n,
{
    if n <= 0 {
        0
    } else if path[n - 1] == '/' {
        n
    } else {
        dir_len(path, n - 1)
    }
}

/// The directory a path is completed in.
pub open spec fn dir_part(path: Seq<char>) -> Seq<char> {
    let n = dir_len(path, path.len() as int);
    if n == 0 {
        "./"@
    } else {
        path.take(n)
    }
}

/// The half-typed name.
pub open spec fn name_part(path: Seq<char>) -> Seq<char> {
    path.skip(dir_len(path, path.len() as int))
}

/// The directory a path is completed in, and the half-typed name.
pub fn split_typed(path: &str) -> (res: (String, String))
    ensures
        res.0@ == dir_part(path@),
        res.1@ == name_part(path@),
{
    let cs = chars_of(path);
    let mut n: usize = cs.len();
    while n > 0 && cs[n - 1] != '/'
        invariant
            cs@ == path@,
            n <= cs@.len(),
            dir_len(path@, n as int) == dir_len(path@, path@.len() as int),
        decreases n,
    {
        n = n - 1;
    }
    let name = slice_of(&cs, n, cs.len());
    assert(name@ =~= path@.skip(n as int));
    if n == 0 {
        ("./".to_owned(), name)
    } else {
        let dir = slice_of(&cs, 0, n);
        assert(dir@ =~= path@.take(n as int));
        (dir, name)
    }
}

/// What the names that start with `prefix` have in common, among the first `n`.
pub open spec fn common_below(names: Seq<Seq<char>>, prefix: Seq<char>, n: int) -> Option<Seq<char>>
    decreases n,
{
    if n <= 0 {
        None
    } else if !text::begins(names[n - 1], prefix) {
        common_below(names, prefix, n - 1)
    } else {
        match common_below(names, prefix, n - 1) {
            None => Some(names[n - 1]),
            Some(so_far) => Some(shared(so_far, names[n - 1])),
        }
    }
}

/// How many of the first `n` names start with `prefix`.
pub open spec fn starting_below(names: Seq<Seq<char>>, prefix: Seq<char>, n: int) -> int
    decreases n,
{
    if n <= 0 {
        0
    } else {
        starting_below(names, prefix, n - 1) + if text::begins(names[n - 1], prefix) {
            1int
        } else {
            0
        }
    }
}

/// How far a half-typed path goes.
pub struct Completion {
    pub path: String,
    /// Whether it is a single name that was meant.
    pub unique: bool,
}

/// Extend a half-typed name as far as it can go unambiguously. `names` is what is
/// in the directory.
pub fn completion(dir: &str, prefix: &str, names: &Vec<String>) -> (res: Option<Completion>)
    ensures
        ({
            let all = text::views(names@);
            let n = all.len() as int;
            match (res, common_below(all, prefix@, n)) {
                (None, None) => true,
                (Some(c), Some(common)) => c.path@ == dir@ + common && c.unique == (
                starting_below(all, prefix@, n) == 1),
                _ => false,
            }
        }),
{
    let ghost all = text::views(names@);
    let mut common: Option<String> = None;
    let mut count: usize = 0;
    let mut i: usize = 0;
    while i < names.len()
        invariant
            i <= names@.len(),
            all == text::views(names@),
            count <= i,
            count == starting_below(all, prefix@, i as int),
            match (common, common_below(all, prefix@, i as int)) {
                (None, None) => true,
                (Some(c), Some(s)) => c@ == s,
                _ => false,
            },
        decreases names@.len() - i,
    {
        assert(all[i as int] == names@[i as int]@);
        if begins_with(names[i].as_str(), prefix) {
            common = match common {
                None => Some(names[i].clone()),
                Some(so_far) => Some(common_prefix(so_far.as_str(), names[i].as_str())),
            };
            count = count + 1;
        }
        i = i + 1;
    }
    match common {
        None => None,
        Some(c) => Some(Completion { path: cat2(dir, c.as_str()), unique: count == 1 }),
    }
}

proof fn lemma_common(names: Seq<Seq<char>>, prefix: Seq<char>, n: int, p: Seq<char>)
    requires
        0 <= n <= names.len(),
    ensures
        common_below(names, prefix, n) matches Some(c) ==> {
            &&& text::begins(c, prefix)
            &&& forall|k: int|
                0 <= k < n && text::begins(#[trigger] names[k], prefix) ==> text::begins(
                    names[k],
                    c,
                )
            &&& (forall|k: int|
                0 <= k < n && text::begins(#[trigger] names[k], prefix) ==> text::begins(
                    names[k],
                    p,
                )) ==> text::begins(c, p)
        },
    decreases n,
{
    if n > 0 {
        lemma_common(names, prefix, n - 1, p);
        lemma_common(names, prefix, n - 1, prefix);
        let name = names[n - 1];
        if text::begins(name, prefix) {
            match common_below(names, prefix, n - 1) {
                None => {
                    lemma_none(names, prefix, n - 1);
                    assert(name.take(name.len() as int) =~= name);
                },
                Some(so_far) => {
                    law_the_shared_part_is_the_longest(so_far, name, p);
                    law_the_shared_part_is_the_longest(so_far, name, prefix);
                    let c = shared(so_far, name);
                    assert forall|k: int|
                        0 <= k < n && text::begins(#[trigger] names[k], prefix) implies text::begins(
                        names[k],
                        c,
                    ) by {
                        if k < n - 1 {
                            assert(names[k].take(c.len() as int) =~= names[k].take(
                                so_far.len() as int,
                            ).take(c.len() as int));
                        }
                    }
                },
            }
        }
    }
}

proof fn lemma_none(names: Seq<Seq<char>>, prefix: Seq<char>, n: int)
    requires
        0 <= n <= names.len(),
        common_below(names, prefix, n) is None,
    ensures
        forall|k: int| 0 <= k < n ==> !text::begins(#[trigger] names[k], prefix),
    decreases n,
{
    if n > 0 {
        lemma_none(names, prefix, n - 1);
    }
}

/// A completed name keeps what was typed, fits every name that does too, and is
/// the longest to do so: the order of the names does not matter.
pub proof fn law_completion_is_the_longest_unambiguous_name(
    names: Seq<Seq<char>>,
    prefix: Seq<char>,
    p: Seq<char>,
)
    ensures
        common_below(names, prefix, names.len() as int) matches Some(c) ==> {
            &&& text::begins(c, prefix)
            &&& forall|k: int|
                0 <= k < names.len() && text::begins(#[trigger] names[k], prefix) ==> text::begins(
                    names[k],
                    c,
                )
            &&& (forall|k: int|
                0 <= k < names.len() && text::begins(#[trigger] names[k], prefix) ==> text::begins(
                    names[k],
                    p,
                )) ==> text::begins(c, p)
        },
        common_below(names, prefix, names.len() as int) is None ==> forall|k: int|
            0 <= k < names.len() ==> !text::begins(#[trigger] names[k], prefix),
{
    lemma_common(names, prefix, names.len() as int, p);
    if common_below(names, prefix, names.len() as int) is None {
        lemma_none(names, prefix, names.len() as int);
    }
}

} // verus!
