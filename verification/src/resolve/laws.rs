//! What it means that a site is found, missing or ambiguous, said of the bytes of
//! the file.

use crate::elf::Sym;
use crate::resolve;
use crate::resolve::{OutcomeModel, ViaModel};
use crate::sig;
use crate::sig::Tok;
use crate::sites;
use crate::sites::{ExpectModel, SiteModel};
use vstd::prelude::*;

verus! {

/// Every byte that a signature names stands in the file, the first token at `at`.
pub open spec fn stands_at(src: Seq<char>, data: Seq<u8>, at: int) -> bool {
    let toks = sig::tokens(src);
    &&& 0 <= at && at + toks.len() <= data.len()
    &&& forall|i: int|
        0 <= i < toks.len() ==> (#[trigger] toks[i] matches Tok::Byte(b) ==> data[at + i] == b)
}

/// A signature names some byte.
pub open spec fn names_a_byte(src: Seq<char>) -> bool {
    exists|i: int| 0 <= i < sig::tokens(src).len() && #[trigger] sig::tokens(src)[i] is Byte
}

/// How many matches make a site found.
pub open spec fn number(expect: ExpectModel) -> int {
    match expect {
        ExpectModel::All(n) => n,
        ExpectModel::One => 1,
        ExpectModel::NearestAfter { .. } => 1,
    }
}

/// An anchored site counts only behind its anchor, at most `window` bytes on.
pub open spec fn in_reach(expect: ExpectModel, base: Option<int>, o: int) -> bool {
    expect matches ExpectModel::NearestAfter { window, .. } ==> base matches Some(b) && b < o <= b
        + window
}

/// The `v`-th encoding of a site is in the file such that the site is at `o`.
pub open spec fn is_at(site: SiteModel, v: int, data: Seq<u8>, base: Option<int>, o: int) -> bool {
    stands_at(site.patterns[v].0, data, o - site.patterns[v].1) && in_reach(site.expect, base, o)
}

pub open spec fn rising(places: Seq<int>) -> bool {
    forall|j: int, k: int| 0 <= j < k < places.len() ==> #[trigger] places[j] < #[trigger] places[k]
}

/// `places` are all the places where the `v`-th encoding of a site is, in order.
pub open spec fn lists(
    places: Seq<int>,
    site: SiteModel,
    v: int,
    data: Seq<u8>,
    base: Option<int>,
) -> bool {
    &&& rising(places)
    &&& forall|o: int| #[trigger] places.contains(o) <==> is_at(site, v, data, base, o)
}

// ---------------------------------------------------------------------------
// Steps of the proofs
// ---------------------------------------------------------------------------

proof fn lemma_same_lists(a: Seq<int>, b: Seq<int>)
    requires
        rising(a),
        rising(b),
        forall|o: int| a.contains(o) <==> b.contains(o),
    ensures
        a == b,
    decreases a.len(),
{
    if a.len() == 0 {
        if b.len() > 0 {
            assert(b.contains(b[0]));
        }
        assert(a =~= b);
    } else {
        assert(a.contains(a.last()));
        assert(b.contains(a.last()));
        let i = choose|i: int| 0 <= i < b.len() && b[i] == a.last();
        assert(b.contains(b.last()));
        assert(a.contains(b.last()));
        let j = choose|j: int| 0 <= j < a.len() && a[j] == b.last();
        assert(a.last() == b.last());
        let x = a.drop_last();
        let y = b.drop_last();
        assert forall|o: int| x.contains(o) <==> y.contains(o) by {
            if x.contains(o) {
                let k = choose|k: int| 0 <= k < x.len() && x[k] == o;
                assert(a[k] == o && o < a.last());
                assert(a.contains(o));
                let m = choose|m: int| 0 <= m < b.len() && b[m] == o;
                assert(y[m] == o);
            }
            if y.contains(o) {
                let k = choose|k: int| 0 <= k < y.len() && y[k] == o;
                assert(b[k] == o && o < b.last());
                assert(b.contains(o));
                let m = choose|m: int| 0 <= m < a.len() && a[m] == o;
                assert(x[m] == o);
            }
        }
        lemma_same_lists(x, y);
        assert(a =~= x.push(a.last()));
        assert(b =~= y.push(b.last()));
    }
}

proof fn lemma_within(hits: Seq<int>, base: int, window: int)
    requires
        rising(hits),
    ensures
        rising(resolve::within(hits, base, window)),
        forall|h: int| #[trigger]
            resolve::within(hits, base, window).contains(h) <==> hits.contains(h) && base < h
                <= base + window,
    decreases hits.len(),
{
    let left = resolve::within(hits, base, window);
    if hits.len() > 0 {
        let rest = hits.drop_last();
        assert(rising(rest)) by {
            assert forall|j: int, k: int| 0 <= j < k < rest.len() implies #[trigger] rest[j]
                < #[trigger] rest[k] by {
                assert(hits[j] < hits[k]);
            }
        }
        lemma_within(rest, base, window);
        let before = resolve::within(rest, base, window);
        assert forall|h: int| left.contains(h) <==> hits.contains(h) && base < h <= base + window by {
            if left.contains(h) {
                let k = choose|k: int| 0 <= k < left.len() && left[k] == h;
                if k < before.len() && before[k] == h {
                    assert(before.contains(h));
                    let m = choose|m: int| 0 <= m < rest.len() && rest[m] == h;
                    assert(hits[m] == h);
                } else {
                    assert(hits[hits.len() - 1] == h);
                }
            }
            if hits.contains(h) && base < h <= base + window {
                let m = choose|m: int| 0 <= m < hits.len() && hits[m] == h;
                if m < rest.len() {
                    assert(rest[m] == h);
                    assert(before.contains(h));
                    let k = choose|k: int| 0 <= k < before.len() && before[k] == h;
                    assert(left[k] == h);
                } else {
                    assert(left[left.len() - 1] == h);
                }
            }
        }
        assert forall|j: int, k: int| 0 <= j < k < left.len() implies #[trigger] left[j]
            < #[trigger] left[k] by {
            if k < before.len() {
                assert(left[j] == before[j] && left[k] == before[k]);
            } else {
                assert(left[j] == before[j]);
                assert(before.contains(before[j]));
                let m = choose|m: int| 0 <= m < rest.len() && rest[m] == before[j];
                assert(hits[m] < hits[hits.len() - 1]);
            }
        }
    }
}

proof fn lemma_raw(hay: Seq<u8>, site: SiteModel, v: int)
    requires
        sites::patterns_valid(site),
        0 <= v < site.patterns.len(),
    ensures
        rising(resolve::raw_hits(hay, site, v)),
        !names_a_byte(site.patterns[v].0) ==> resolve::raw_hits(hay, site, v).len() == 0,
        names_a_byte(site.patterns[v].0) ==> forall|o: int| #[trigger]
            resolve::raw_hits(hay, site, v).contains(o) <==> stands_at(
                site.patterns[v].0,
                hay,
                o - site.patterns[v].1,
            ),
{
    let src = site.patterns[v].0;
    let delta = site.patterns[v].1;
    let toks = sig::tokens(src);
    let raw = resolve::raw_hits(hay, site, v);
    assert(sig::valid(src, delta));
    sig::lemma_hits_below(toks, delta, hay, hay.len() as int);
    assert forall|at: int| sig::matches(toks, hay, at) <==> stands_at(src, hay, at) by {
        if sig::matches(toks, hay, at) {
            assert forall|i: int| 0 <= i < toks.len() implies (#[trigger] toks[i] matches Tok::Byte(b)
                ==> hay[at + i] == b) by {
                assert(sig::admits(toks[i], hay[at + i]));
            }
        }
        if stands_at(src, hay, at) {
            assert forall|i: int| 0 <= i < toks.len() implies sig::admits(
                #[trigger] toks[i],
                hay[at + i],
            ) by {}
        }
    }
    if names_a_byte(src) {
        assert(sig::concrete(toks));
        assert forall|o: int| #[trigger] raw.contains(o) <==> stands_at(src, hay, o - delta) by {
            if raw.contains(o) {
                let k = choose|k: int| 0 <= k < raw.len() && raw[k] == o;
                assert(sig::matches(toks, hay, raw[k] - delta));
            }
            if stands_at(src, hay, o - delta) {
                assert(sig::matches(toks, hay, o - delta));
                assert(raw.contains(o - delta + delta));
            }
        }
    } else {
        assert(!sig::concrete(toks));
    }
}

proof fn lemma_kept(hay: Seq<u8>, site: SiteModel, base: Option<int>, v: int)
    requires
        sites::patterns_valid(site),
        0 <= v < site.patterns.len(),
        names_a_byte(site.patterns[v].0),
    ensures
        lists(
            resolve::kept(resolve::raw_hits(hay, site, v), site.expect, base),
            site,
            v,
            hay,
            base,
        ),
{
    let raw = resolve::raw_hits(hay, site, v);
    lemma_raw(hay, site, v);
    if let ExpectModel::NearestAfter { window, .. } = site.expect {
        if let Some(b) = base {
            lemma_within(raw, b, window);
        }
    }
}

/// What a search gives says where its encoding is, and that no earlier one is
/// there as often as is wanted.
proof fn lemma_search(hay: Seq<u8>, site: SiteModel, base: Option<int>, v: int)
    requires
        sites::patterns_valid(site),
        number(site.expect) > 0,
        0 <= v,
    ensures
        resolve::search_from(hay, site, base, v) matches Some(m) ==> {
            &&& v <= m.variant < site.patterns.len()
            &&& names_a_byte(site.patterns[m.variant].0)
            &&& lists(m.offsets, site, m.variant, hay, base)
            &&& m.offsets.len() == number(site.expect)
            &&& forall|u: int, p: Seq<int>|
                v <= u < m.variant && names_a_byte(site.patterns[u].0) && #[trigger] lists(
                    p,
                    site,
                    u,
                    hay,
                    base,
                ) ==> p.len() != number(site.expect)
        },
        resolve::search_from(hay, site, base, v) is None ==> forall|u: int, p: Seq<int>|
            v <= u < site.patterns.len() && names_a_byte(site.patterns[u].0) && #[trigger] lists(
                p,
                site,
                u,
                hay,
                base,
            ) ==> p.len() != number(site.expect),
    decreases site.patterns.len() - v,
{
    if v < site.patterns.len() {
        let raw = resolve::raw_hits(hay, site, v);
        let left = resolve::kept(raw, site.expect, base);
        lemma_raw(hay, site, v);
        if names_a_byte(site.patterns[v].0) {
            lemma_kept(hay, site, base, v);
        }
        lemma_search(hay, site, base, v + 1);
        if raw.len() > 0 && left.len() == resolve::wanted(site.expect) {
            assert(names_a_byte(site.patterns[v].0));
        } else {
            assert forall|p: Seq<int>|
                names_a_byte(site.patterns[v].0) && #[trigger] lists(p, site, v, hay, base) implies
                p.len() != number(site.expect) by {
                lemma_same_lists(p, left);
                if raw.len() == 0 {
                    if left.len() > 0 {
                        assert(left.contains(left[0]));
                        assert(raw.contains(left[0]));
                    }
                }
            }
        }
    }
}

proof fn lemma_failure(hay: Seq<u8>, site: SiteModel, base: Option<int>, v: int)
    requires
        sites::patterns_valid(site),
        0 <= v,
    ensures
        resolve::failure_from(hay, site, base, v) is Missing ==> forall|u: int, o: int|
            v <= u < site.patterns.len() && names_a_byte(site.patterns[u].0) ==> !#[trigger] is_at(
                site,
                u,
                hay,
                base,
                o,
            ),
        resolve::failure_from(hay, site, base, v) matches OutcomeModel::Ambiguous { found, .. }
            ==> exists|u: int, p: Seq<int>|
            v <= u < site.patterns.len() && names_a_byte(site.patterns[u].0) && #[trigger] lists(
                p,
                site,
                u,
                hay,
                base,
            ) && p.len() == found && found > 0,
        !(resolve::failure_from(hay, site, base, v) is Found),
    decreases site.patterns.len() - v,
{
    if v < site.patterns.len() {
        let raw = resolve::raw_hits(hay, site, v);
        let left = resolve::kept(raw, site.expect, base);
        lemma_raw(hay, site, v);
        lemma_failure(hay, site, base, v + 1);
        if names_a_byte(site.patterns[v].0) {
            lemma_kept(hay, site, base, v);
            if left.len() > 0 {
                assert(lists(left, site, v, hay, base));
            } else {
                assert forall|o: int| !#[trigger] is_at(site, v, hay, base, o) by {
                    assert(!left.contains(o));
                }
            }
        } else if let ExpectModel::NearestAfter { window, .. } = site.expect {
            if let Some(b) = base {
                lemma_within(raw, b, window);
                if left.len() > 0 {
                    assert(left.contains(left[0]));
                }
            }
        }
    }
}

// ---------------------------------------------------------------------------
// Laws
// ---------------------------------------------------------------------------

/// Of the matches of a signature an anchored site keeps those that lie behind its
/// anchor, at most `window` bytes on, and it keeps all of them; any other site keeps
/// every match.
pub proof fn law_what_is_kept_is_in_reach(hits: Seq<int>, expect: ExpectModel, base: Option<int>)
    requires
        rising(hits),
    ensures
        rising(resolve::kept(hits, expect, base)),
        forall|h: int| #[trigger]
            resolve::kept(hits, expect, base).contains(h) <==> hits.contains(h) && in_reach(
                expect,
                base,
                h,
            ),
{
    if let ExpectModel::NearestAfter { window, .. } = expect {
        if let Some(b) = base {
            lemma_within(hits, b, window);
        }
    }
}

/// A site that a scan found is where the file holds one of its signatures byte for
/// byte: at all places where it does, as many as the site wants, and nowhere else.
/// The signature is the first of the site's that is there so often.
pub proof fn law_scanned_sites_are_where_their_signature_is(
    data: Seq<u8>,
    syms: Option<Map<Seq<char>, Sym>>,
    site: SiteModel,
    base: Option<int>,
)
    requires
        sites::patterns_valid(site),
        number(site.expect) > 0,
    ensures
        resolve::one_outcome(data, syms, site, base) matches OutcomeModel::Found(r) ==> (
        r.via is Scan ==> {
            &&& 0 <= r.variant < site.patterns.len()
            &&& r.pattern == site.patterns[r.variant].0
            &&& lists(r.offsets, site, r.variant, data, base)
            &&& r.offsets.len() == number(site.expect)
            &&& forall|u: int, p: Seq<int>|
                0 <= u < r.variant && names_a_byte(site.patterns[u].0) && #[trigger] lists(
                    p,
                    site,
                    u,
                    data,
                    base,
                ) ==> p.len() != number(site.expect)
        }),
{
    lemma_search(data, site, base, 0);
    lemma_failure(data, site, base, 0);
    if let Some(known) = syms {
        lemma_named(data, known, site, base, 0);
    }
}

/// Where a function's bytes lie in the file: as many as its symbol says, at least
/// one, and none behind the end of the file.
pub open spec fn in_function(sym: Sym, data: Seq<u8>, at: int, len: int) -> bool {
    &&& sym.offset <= at
    &&& at + len <= data.len()
    &&& at + len <= sym.offset + sym.size || sym.size == 0 && at + len <= sym.offset + 1
}

proof fn lemma_scoped(data: Seq<u8>, sym: Sym, src: Seq<char>, at: int)
    requires
        sym.offset < resolve::function_end(sym, data.len() as int),
        sig::tokens(src).len() > 0,
    ensures
        ({
            let end = resolve::function_end(sym, data.len() as int);
            let hay = data.subrange(sym.offset as int, end);
            stands_at(src, hay, at - sym.offset) <==> stands_at(src, data, at) && in_function(
                sym,
                data,
                at,
                sig::tokens(src).len() as int,
            )
        }),
{
    let end = resolve::function_end(sym, data.len() as int);
    let hay = data.subrange(sym.offset as int, end);
    let toks = sig::tokens(src);
    let from = at - sym.offset;
    if stands_at(src, hay, from) {
        assert forall|i: int| 0 <= i < toks.len() implies (#[trigger] toks[i] matches Tok::Byte(b)
            ==> data[at + i] == b) by {
            assert(hay[from + i] == data[at + i]);
        }
    }
    if stands_at(src, data, at) && in_function(sym, data, at, toks.len() as int) {
        assert forall|i: int| 0 <= i < toks.len() implies (#[trigger] toks[i] matches Tok::Byte(b)
            ==> hay[from + i] == b) by {
            assert(hay[from + i] == data[at + i]);
        }
    }
}

/// What a site's function symbols give.
proof fn lemma_named(
    data: Seq<u8>,
    known: Map<Seq<char>, Sym>,
    site: SiteModel,
    base: Option<int>,
    k: int,
)
    requires
        sites::patterns_valid(site),
        number(site.expect) > 0,
        0 <= k,
    ensures
        resolve::by_symbol_from(data, known, site, base, k) matches Some(r) ==> {
            &&& !(r.via is Scan)
            &&& r.via is SymbolEntry <==> site.entry
            &&& r.via matches ViaModel::SymbolEntry(name) ==> known.dom().contains(name)
                && site.symbols.contains(name) && r.offsets == seq![known[name].offset as int]
            &&& r.via matches ViaModel::InSymbol(name) ==> {
                &&& known.dom().contains(name) && site.symbols.contains(name)
                &&& 0 <= r.variant < site.patterns.len()
                &&& r.offsets.len() == number(site.expect)
                &&& forall|o: int| #[trigger]
                    r.offsets.contains(o) <==> is_at(site, r.variant, data, base, o)
                        && in_function(
                        known[name],
                        data,
                        o - site.patterns[r.variant].1,
                        sig::tokens(site.patterns[r.variant].0).len() as int,
                    ) && (site.expect is NearestAfter ==> base->0 >= known[name].offset)
            }
        },
    decreases site.symbols.len() - k,
{
    if k < site.symbols.len() {
        lemma_named(data, known, site, base, k + 1);
        let name = site.symbols[k];
        assert(site.symbols.contains(name));
        if known.dom().contains(name) && !site.entry {
            let sym = known[name];
            let start = sym.offset as int;
            let end = resolve::function_end(sym, data.len() as int);
            if sym.offset < end {
                let hay = data.subrange(start, end);
                let rel = resolve::relative(base, start);
                lemma_search(hay, site, rel, 0);
                if let Some(m) = resolve::search_from(hay, site, rel, 0) {
                    let src = site.patterns[m.variant].0;
                    let delta = site.patterns[m.variant].1;
                    assert(sig::valid(src, delta));
                    let moved = resolve::shifted(m.offsets, start);
                    assert forall|o: int| #[trigger] moved.contains(o) <==> is_at(
                        site,
                        m.variant,
                        data,
                        base,
                        o,
                    ) && in_function(sym, data, o - delta, sig::tokens(src).len() as int) && (
                    site.expect is NearestAfter ==> base->0 >= sym.offset) by {
                        lemma_scoped(data, sym, src, o - delta);
                        assert((o - delta) - start == (o - start) - delta);
                        if moved.contains(o) {
                            let i = choose|i: int| 0 <= i < moved.len() && moved[i] == o;
                            assert(m.offsets[i] == o - start);
                            assert(m.offsets.contains(o - start));
                            assert(is_at(site, m.variant, hay, rel, o - start));
                        }
                        if is_at(site, m.variant, data, base, o) && in_function(
                            sym,
                            data,
                            o - delta,
                            sig::tokens(src).len() as int,
                        ) && (site.expect is NearestAfter ==> base->0 >= sym.offset) {
                            assert(is_at(site, m.variant, hay, rel, o - start));
                            assert(m.offsets.contains(o - start));
                            let i = choose|i: int|
                                0 <= i < m.offsets.len() && m.offsets[i] == o - start;
                            assert(moved[i] == o);
                        }
                    }
                }
            }
        }
    }
}

/// A site that was found inside a named function is at all places inside that
/// function where the file holds the signature, and nowhere else.
pub proof fn law_scoped_sites_are_where_their_signature_is(
    data: Seq<u8>,
    known: Map<Seq<char>, Sym>,
    site: SiteModel,
    base: Option<int>,
)
    requires
        sites::patterns_valid(site),
        number(site.expect) > 0,
    ensures
        resolve::one_outcome(data, Some(known), site, base) matches OutcomeModel::Found(r) ==> (
        r.via matches ViaModel::InSymbol(name) ==> {
            &&& known.dom().contains(name) && site.symbols.contains(name)
            &&& !site.entry
            &&& 0 <= r.variant < site.patterns.len()
            &&& r.offsets.len() == number(site.expect)
            &&& forall|o: int| #[trigger]
                r.offsets.contains(o) <==> is_at(site, r.variant, data, base, o) && in_function(
                    known[name],
                    data,
                    o - site.patterns[r.variant].1,
                    sig::tokens(site.patterns[r.variant].0).len() as int,
                ) && (site.expect is NearestAfter ==> base->0 >= known[name].offset)
        }),
{
    lemma_named(data, known, site, base, 0);
    lemma_failure(data, site, base, 0);
}

/// A site whose signature is in the file as often as it wants is found, whatever the
/// symbol table holds. Without symbols, and if the signature is the first of the
/// site's, it is found at just those places.
pub proof fn law_a_site_that_is_there_is_found(
    data: Seq<u8>,
    syms: Option<Map<Seq<char>, Sym>>,
    site: SiteModel,
    base: Option<int>,
    v: int,
    places: Seq<int>,
)
    requires
        sites::patterns_valid(site),
        number(site.expect) > 0,
        0 <= v < site.patterns.len(),
        names_a_byte(site.patterns[v].0),
        lists(places, site, v, data, base),
        places.len() == number(site.expect),
    ensures
        resolve::one_outcome(data, syms, site, base) is Found,
        syms is None && v == 0 ==> resolve::one_outcome(data, syms, site, base)->Found_0.offsets
            == places,
{
    lemma_search(data, site, base, 0);
    if syms is None && v == 0 {
        let m = resolve::search_from(data, site, base, 0)->0;
        assert(m.variant == 0);
        lemma_same_lists(m.offsets, places);
    }
}

/// Missing means that no signature of the site is anywhere in reach; ambiguous, that
/// one is, but not as often as the site wants.
pub proof fn law_missing_is_nowhere_and_ambiguous_is_too_often(
    data: Seq<u8>,
    syms: Option<Map<Seq<char>, Sym>>,
    site: SiteModel,
    base: Option<int>,
)
    requires
        sites::patterns_valid(site),
        number(site.expect) > 0,
    ensures
        resolve::one_outcome(data, syms, site, base) is Missing ==> forall|u: int, o: int|
            0 <= u < site.patterns.len() && names_a_byte(site.patterns[u].0) ==> !#[trigger] is_at(
                site,
                u,
                data,
                base,
                o,
            ),
        resolve::one_outcome(data, syms, site, base) matches OutcomeModel::Ambiguous { found, .. }
            ==> found > 0 && found != number(site.expect) && exists|u: int, p: Seq<int>|
            0 <= u < site.patterns.len() && names_a_byte(site.patterns[u].0) && #[trigger] lists(
                p,
                site,
                u,
                data,
                base,
            ) && p.len() == found,
{
    lemma_search(data, site, base, 0);
    lemma_failure(data, site, base, 0);
    if let Some(known) = syms {
        lemma_named(data, known, site, base, 0);
    }
    if let OutcomeModel::Ambiguous { found, .. } = resolve::one_outcome(data, syms, site, base) {
        let (u, p) = choose|u: int, p: Seq<int>|
            0 <= u < site.patterns.len() && names_a_byte(site.patterns[u].0) && #[trigger] lists(
                p,
                site,
                u,
                data,
                base,
            ) && p.len() == found && found > 0;
        assert(lists(p, site, u, data, base));
    }
}

/// An anchored site lies behind its anchor, at most the window's bytes on, and is
/// not looked for where the anchor was not found.
pub proof fn law_anchored_sites_follow_their_anchor(
    cat: Seq<SiteModel>,
    data: Seq<u8>,
    syms: Option<Map<Seq<char>, Sym>>,
    i: int,
    j: int,
)
    requires
        sites::well_formed(cat),
        0 <= i < cat.len(),
        0 <= j < cat.len(),
        cat[i].expect matches ExpectModel::NearestAfter { anchor, .. } && anchor == cat[j].name,
        !(cat[j].expect is NearestAfter),
        !cat[i].entry,
    ensures
        match resolve::outcome_of(cat, data, syms, cat[j]) {
            OutcomeModel::Found(a) => resolve::outcome_of(
                cat,
                data,
                syms,
                cat[i],
            ) matches OutcomeModel::Found(r) ==> a.offsets.len() > 0 && r.offsets.len() == 1
                && a.offsets[0] < r.offsets[0] <= a.offsets[0] + cat[i].expect->window,
            _ => resolve::outcome_of(cat, data, syms, cat[i]) is Missing,
        },
{
    let site = cat[i];
    assert(sites::patterns_valid(cat[i]));
    resolve::lemma_site_named(cat, j);
    if let OutcomeModel::Found(a) = resolve::outcome_of(cat, data, syms, cat[j]) {
        let base: Option<int> = if a.offsets.len() > 0 {
            Some(a.offsets[0])
        } else {
            None
        };
        lemma_search(data, site, base, 0);
        lemma_failure(data, site, base, 0);
        if let Some(known) = syms {
            lemma_named(data, known, site, base, 0);
        }
        if let OutcomeModel::Found(r) = resolve::one_outcome(data, syms, site, base) {
            assert(r.offsets.contains(r.offsets[0]));
        }
    }
}

} // verus!
