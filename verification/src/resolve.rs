//! Turning the site catalogue into concrete file offsets for one binary.

pub mod laws;

use crate::elf::{Sym, Symbols};
use crate::sig;
use crate::sites;
use crate::sites::{compile_patterns, Expect, ExpectModel, Site, SiteModel};
use crate::text;
use crate::text::{cat2, str_eq, to_decimal};
use vstd::prelude::*;
use vstd::slice::slice_subrange;

verus! {

/// How a site's offset was arrived at. Reported by `scan -v`, because "found
/// by name" and "found by pattern" carry very different confidence.
#[derive(Clone, Copy)]
pub enum Via {
    /// The symbol's own address.
    SymbolEntry(&'static str),
    /// A pattern, searched only inside the named function.
    InSymbol(&'static str),
    /// A pattern, searched across the whole file.
    Scan,
}

pub struct Resolved {
    pub site: &'static Site,
    pub offsets: Vec<usize>,
    /// Which of the site's alternative encodings matched.
    pub variant: usize,
    pub pattern: &'static str,
    pub via: Via,
}

pub enum Outcome {
    Found(Resolved),
    /// No alternative matched anywhere.
    Missing,
    /// Matched, but not the number of times the site requires.
    Ambiguous { found: usize, wanted: String },
}

/// What became of each site, in catalogue order.
pub struct Report {
    pub order: Vec<&'static str>,
    /// One outcome for each name in `order`, at the same place.
    pub outcomes: Vec<Outcome>,
}

// ---------------------------------------------------------------------------
// The model
// ---------------------------------------------------------------------------

#[verifier::ext_equal]
pub enum ViaModel {
    SymbolEntry(Seq<char>),
    InSymbol(Seq<char>),
    Scan,
}

#[verifier::ext_equal]
pub struct ResolvedModel {
    pub site: SiteModel,
    pub offsets: Seq<int>,
    pub variant: int,
    pub pattern: Seq<char>,
    pub via: ViaModel,
}

#[verifier::ext_equal]
pub enum OutcomeModel {
    Found(ResolvedModel),
    Missing,
    Ambiguous { found: int, wanted: Seq<char> },
}

impl View for Via {
    type V = ViaModel;

    open spec fn view(&self) -> ViaModel {
        match *self {
            Via::SymbolEntry(name) => ViaModel::SymbolEntry(name@),
            Via::InSymbol(name) => ViaModel::InSymbol(name@),
            Via::Scan => ViaModel::Scan,
        }
    }
}

impl View for Resolved {
    type V = ResolvedModel;

    open spec fn view(&self) -> ResolvedModel {
        ResolvedModel {
            site: self.site@,
            offsets: sig::ints(self.offsets@),
            variant: self.variant as int,
            pattern: self.pattern@,
            via: self.via@,
        }
    }
}

impl View for Outcome {
    type V = OutcomeModel;

    open spec fn view(&self) -> OutcomeModel {
        match *self {
            Outcome::Found(r) => OutcomeModel::Found(r@),
            Outcome::Missing => OutcomeModel::Missing,
            Outcome::Ambiguous { found, wanted } => OutcomeModel::Ambiguous {
                found: found as int,
                wanted: wanted@,
            },
        }
    }
}

impl Report {
    /// Every name has an outcome.
    pub open spec fn wf(&self) -> bool {
        self.order@.len() == self.outcomes@.len()
    }

    /// How each site was found can be said in words.
    pub open spec fn plain(&self) -> bool {
        forall|i: int| 0 <= i < self.outcomes@.len() ==> (#[trigger] self.outcomes@[i]).plain()
    }
}

impl Outcome {
    /// How the site was found, if it was, can be said in words.
    pub open spec fn plain(&self) -> bool {
        match *self {
            Outcome::Found(r) => r.via.plain(),
            _ => true,
        }
    }
}

/// The names of a report with their outcomes.
impl View for Report {
    type V = Seq<(Seq<char>, OutcomeModel)>;

    open spec fn view(&self) -> Seq<(Seq<char>, OutcomeModel)> {
        Seq::new(self.order@.len(), |i: int| (self.order@[i]@, self.outcomes@[i]@))
    }
}

/// How many matches a site wants.
pub open spec fn wanted(expect: ExpectModel) -> int {
    match expect {
        ExpectModel::All(n) => n,
        _ => 1,
    }
}

/// The hits that lie after `base`, at most `window` bytes on.
pub open spec fn within(hits: Seq<int>, base: int, window: int) -> Seq<int>
    decreases hits.len(),
{
    if hits.len() == 0 {
        seq![]
    } else if base < hits.last() <= base + window {
        within(hits.drop_last(), base, window).push(hits.last())
    } else {
        within(hits.drop_last(), base, window)
    }
}

/// The hits that a site's expectation leaves. `base` is where its anchor is.
pub open spec fn kept(hits: Seq<int>, expect: ExpectModel, base: Option<int>) -> Seq<int> {
    match expect {
        ExpectModel::NearestAfter { window, .. } => match base {
            Some(b) => within(hits, b, window),
            None => seq![],
        },
        _ => hits,
    }
}

/// All that the `v`-th encoding of a site matches in `hay`.
pub open spec fn raw_hits(hay: Seq<u8>, site: SiteModel, v: int) -> Seq<int> {
    sig::hits(sig::tokens(site.patterns[v].0), site.patterns[v].1, hay)
}

/// What a successful search hands back: which encoding, and where.
pub struct Match {
    pub variant: int,
    pub offsets: Seq<int>,
}

/// The first encoding, from the `v`-th on, that matches the wanted number of
/// times.
pub open spec fn search_from(hay: Seq<u8>, site: SiteModel, base: Option<int>, v: int) -> Option<
    Match,
>
    decreases site.patterns.len() - v,
{
    if v >= site.patterns.len() {
        None
    } else {
        let raw = raw_hits(hay, site, v);
        let left = kept(raw, site.expect, base);
        if raw.len() > 0 && left.len() == wanted(site.expect) {
            Some(Match { variant: v, offsets: left })
        } else {
            search_from(hay, site, base, v + 1)
        }
    }
}

/// Why a whole-file scan came up short, from the `v`-th encoding on.
pub open spec fn failure_from(hay: Seq<u8>, site: SiteModel, base: Option<int>, v: int) -> OutcomeModel
    decreases site.patterns.len() - v,
{
    if v >= site.patterns.len() {
        OutcomeModel::Missing
    } else {
        let left = kept(raw_hits(hay, site, v), site.expect, base);
        if left.len() > 0 {
            OutcomeModel::Ambiguous {
                found: left.len() as int,
                wanted: text::decimal(wanted(site.expect) as nat),
            }
        } else {
            failure_from(hay, site, base, v + 1)
        }
    }
}

/// Where a function's bytes end in a file of `len` bytes.
pub open spec fn function_end(sym: Sym, len: int) -> int {
    let size = if sym.size > 0 {
        sym.size as int
    } else {
        1
    };
    if sym.offset + size <= len {
        sym.offset + size
    } else {
        len
    }
}

/// The anchor as seen from the start of a function; nothing follows an anchor
/// that lies before it.
pub open spec fn relative(base: Option<int>, start: int) -> Option<int> {
    match base {
        Some(b) => if b >= start {
            Some(b - start)
        } else {
            None
        },
        None => None,
    }
}

pub open spec fn shifted(offsets: Seq<int>, by: int) -> Seq<int> {
    offsets.map_values(|o: int| o + by)
}

/// What the site's function symbols give, from the `k`-th name on.
pub open spec fn by_symbol_from(
    data: Seq<u8>,
    syms: Map<Seq<char>, Sym>,
    site: SiteModel,
    base: Option<int>,
    k: int,
) -> Option<ResolvedModel>
    decreases site.symbols.len() - k,
{
    if k >= site.symbols.len() {
        None
    } else {
        let name = site.symbols[k];
        let next = by_symbol_from(data, syms, site, base, k + 1);
        if !syms.dom().contains(name) {
            next
        } else {
            let sym = syms[name];
            let end = function_end(sym, data.len() as int);
            if site.entry {
                Some(
                    ResolvedModel {
                        site,
                        offsets: seq![sym.offset as int],
                        variant: 0,
                        pattern: FUNCTION_ENTRY@,
                        via: ViaModel::SymbolEntry(name),
                    },
                )
            } else if sym.offset >= end {
                next
            } else {
                match search_from(
                    data.subrange(sym.offset as int, end),
                    site,
                    relative(base, sym.offset as int),
                    0,
                ) {
                    Some(m) => Some(
                        ResolvedModel {
                            site,
                            offsets: shifted(m.offsets, sym.offset as int),
                            variant: m.variant,
                            pattern: site.patterns[m.variant].0,
                            via: ViaModel::InSymbol(name),
                        },
                    ),
                    None => next,
                }
            }
        }
    }
}

/// What becomes of one site whose anchor, if it has one, is at `base`. The
/// symbol table goes first: scoping the search to one function turns a
/// whole-file scan that might match twice into one that cannot.
pub open spec fn one_outcome(
    data: Seq<u8>,
    syms: Option<Map<Seq<char>, Sym>>,
    site: SiteModel,
    base: Option<int>,
) -> OutcomeModel {
    let named = match syms {
        Some(known) => by_symbol_from(data, known, site, base, 0),
        None => None,
    };
    match named {
        Some(r) => OutcomeModel::Found(r),
        None => match search_from(data, site, base, 0) {
            Some(m) => OutcomeModel::Found(
                ResolvedModel {
                    site,
                    offsets: m.offsets,
                    variant: m.variant,
                    pattern: site.patterns[m.variant].0,
                    via: ViaModel::Scan,
                },
            ),
            None => failure_from(data, site, base, 0),
        },
    }
}

/// The site of that name.
pub open spec fn site_named(cat: Seq<SiteModel>, name: Seq<char>) -> SiteModel {
    cat[choose|j: int| 0 <= j < cat.len() && (#[trigger] cat[j]).name == name]
}

/// What becomes of one site of a catalogue: an anchored site is looked for only
/// where its anchor was found, and only after it.
pub open spec fn outcome_of(
    cat: Seq<SiteModel>,
    data: Seq<u8>,
    syms: Option<Map<Seq<char>, Sym>>,
    site: SiteModel,
) -> OutcomeModel {
    match site.expect {
        ExpectModel::NearestAfter { anchor, .. } => match one_outcome(
            data,
            syms,
            site_named(cat, anchor),
            None,
        ) {
            OutcomeModel::Found(r) => one_outcome(
                data,
                syms,
                site,
                if r.offsets.len() > 0 {
                    Some(r.offsets[0])
                } else {
                    None
                },
            ),
            _ => OutcomeModel::Missing,
        },
        _ => one_outcome(data, syms, site, None),
    }
}

/// What becomes of every site of a catalogue.
pub open spec fn outcomes_of(
    cat: Seq<SiteModel>,
    data: Seq<u8>,
    syms: Option<Map<Seq<char>, Sym>>,
) -> Seq<(Seq<char>, OutcomeModel)> {
    Seq::new(cat.len(), |i: int| (cat[i].name, outcome_of(cat, data, syms, cat[i])))
}

/// The outcome that a report gives for a name.
pub open spec fn lookup(report: Seq<(Seq<char>, OutcomeModel)>, name: Seq<char>) -> Option<
    OutcomeModel,
>
    decreases report.len(),
{
    if report.len() == 0 {
        None
    } else if report.last().0 == name {
        Some(report.last().1)
    } else {
        lookup(report.drop_last(), name)
    }
}

/// The site of that name, if it was found.
pub open spec fn found(report: Seq<(Seq<char>, OutcomeModel)>, name: Seq<char>) -> Option<
    ResolvedModel,
> {
    match lookup(report, name) {
        Some(OutcomeModel::Found(r)) => Some(r),
        _ => None,
    }
}

/// The names among the first `n` of a report that were not found.
pub open spec fn missing_below(report: Seq<(Seq<char>, OutcomeModel)>, n: int) -> Seq<Seq<char>>
    decreases n,
{
    if n <= 0 {
        seq![]
    } else if found(report, report[n - 1].0) is None {
        missing_below(report, n - 1).push(report[n - 1].0)
    } else {
        missing_below(report, n - 1)
    }
}

/// Why the absence of a site is not a failure, where it is not: the site matched
/// nowhere, it may be absent, and what covers it, if anything must, was found.
pub open spec fn excuse(report: Seq<(Seq<char>, OutcomeModel)>, site: SiteModel) -> Option<
    Seq<char>,
> {
    if lookup(report, site.name) != Some(OutcomeModel::Missing) {
        None
    } else {
        match site.absent_ok {
            None => None,
            Some(absent) => match absent.covered_by {
                None => Some(absent.note),
                Some(other) => if found(report, other) is Some {
                    Some(absent.note)
                } else {
                    None
                },
            },
        }
    }
}

/// The excuse for the site of that name in the catalogue.
pub open spec fn excuse_for(report: Seq<(Seq<char>, OutcomeModel)>, name: Seq<char>) -> Option<
    Seq<char>,
> {
    if exists|i: int|
        0 <= i < sites::catalogue().len() && (#[trigger] sites::catalogue()[i]).name == name {
        excuse(report, site_named(sites::catalogue(), name))
    } else {
        None
    }
}

// ---------------------------------------------------------------------------
// Saying how a site was found
// ---------------------------------------------------------------------------

pub const FUNCTION_ENTRY: &'static str = "<function entry>";

pub const SHOWN_NAME: usize = 42;

pub const CUT_NAME: usize = 39;

/// A name short enough to show: all of it up to 42 bytes, else its first 39.
pub open spec fn short_name(name: Seq<char>) -> Seq<char> {
    let raw = vstd::utf8::encode_utf8(name);
    if raw.len() <= SHOWN_NAME {
        name
    } else {
        vstd::utf8::decode_utf8(raw.take(CUT_NAME as int)) + "..."@
    }
}

/// The name is short, or can be cut without splitting a character.
pub open spec fn cuttable(name: Seq<char>) -> bool {
    let raw = vstd::utf8::encode_utf8(name);
    raw.len() <= SHOWN_NAME || vstd::utf8::is_char_boundary(raw, CUT_NAME as int)
}

/// Mangled C++ names run to 100+ characters; the report only needs enough to
/// tell which function was used.
fn short(name: &str) -> (res: String)
    requires
        cuttable(name@),
    ensures
        res@ == short_name(name@),
{
    if name.as_bytes().len() <= SHOWN_NAME {
        name.to_owned()
    } else {
        let (head, _) = name.split_at(CUT_NAME);
        proof {
            vstd::utf8::encode_utf8_decode_utf8(head@);
            assert(vstd::utf8::encode_utf8(head@) =~= vstd::utf8::encode_utf8(name@).take(
                CUT_NAME as int,
            ));
        }
        cat2(head, "...")
    }
}

/// An ASCII name can be cut anywhere.
proof fn lemma_ascii_is_cuttable(name: Seq<char>)
    requires
        vstd::utf8::is_ascii_chars(name),
    ensures
        cuttable(name),
{
    let raw = vstd::utf8::encode_utf8(name);
    vstd::utf8::is_ascii_chars_encode_utf8(name);
    vstd::utf8::encode_utf8_valid_utf8(name);
    if raw.len() > SHOWN_NAME {
        assert(name[CUT_NAME as int] <= '\u{7f}');
        assert(name[CUT_NAME as int] as u8 == raw[CUT_NAME as int]);
        vstd::utf8::is_char_boundary_iff_not_is_continuation_byte(raw, CUT_NAME as int);
    }
}

pub open spec fn via_text(via: ViaModel) -> Seq<char> {
    match via {
        ViaModel::SymbolEntry(name) => "symbol "@ + short_name(name),
        ViaModel::InSymbol(name) => "sig in "@ + short_name(name),
        ViaModel::Scan => "scan"@,
    }
}

impl Via {
    /// The symbol name, if there is one, can be shortened.
    pub open spec fn plain(&self) -> bool {
        match *self {
            Via::SymbolEntry(name) => cuttable(name@),
            Via::InSymbol(name) => cuttable(name@),
            Via::Scan => true,
        }
    }

    /// How the site was found, in words.
    pub fn to_text(&self) -> (res: String)
        requires
            self.plain(),
        ensures
            res@ == via_text(self@),
    {
        match *self {
            Via::SymbolEntry(name) => cat2("symbol ", short(name).as_str()),
            Via::InSymbol(name) => cat2("sig in ", short(name).as_str()),
            Via::Scan => "scan".to_owned(),
        }
    }
}

// ---------------------------------------------------------------------------
// Reading a report
// ---------------------------------------------------------------------------

impl Report {
    /// The place of a name in the report.
    fn place(&self, name: &str) -> (res: Option<usize>)
        requires
            self.wf(),
        ensures
            res is Some == lookup(self@, name@) is Some,
            res matches Some(i) ==> i < self.order@.len() && lookup(self@, name@) == Some(
                self.outcomes@[i as int]@,
            ),
    {
        let mut i: usize = self.order.len();
        assert(self@.take(i as int) =~= self@);
        while i > 0
            invariant
                self.wf(),
                i <= self.order@.len(),
                lookup(self@, name@) == lookup(self@.take(i as int), name@),
            decreases i,
        {
            i = i - 1;
            assert(self@.take(i + 1).last() == self@[i as int]);
            assert(self@.take(i + 1).drop_last() =~= self@.take(i as int));
            if str_eq(self.order[i], name) {
                return Some(i);
            }
        }
        None
    }

    /// What became of the site of that name.
    pub fn outcome(&self, name: &str) -> (res: Option<&Outcome>)
        requires
            self.wf(),
        ensures
            res is Some == lookup(self@, name@) is Some,
            res matches Some(o) ==> lookup(self@, name@) == Some(o@) && (self.plain() ==> o.plain()),
    {
        match self.place(name) {
            Some(i) => Some(&self.outcomes[i]),
            None => None,
        }
    }

    pub fn resolved(&self, name: &str) -> (res: Option<&Resolved>)
        requires
            self.wf(),
        ensures
            res is Some == found(self@, name@) is Some,
            res matches Some(r) ==> found(self@, name@) == Some(r@),
    {
        match self.place(name) {
            Some(i) => match &self.outcomes[i] {
                Outcome::Found(r) => Some(r),
                _ => None,
            },
            None => None,
        }
    }

    pub fn missing(&self) -> (res: Vec<&'static str>)
        requires
            self.wf(),
        ensures
            text::str_views(res@) == missing_below(self@, self@.len() as int),
    {
        let mut out: Vec<&'static str> = Vec::new();
        let mut i: usize = 0;
        while i < self.order.len()
            invariant
                self.wf(),
                i <= self.order@.len(),
                text::str_views(out@) == missing_below(self@, i as int),
            decreases self.order@.len() - i,
        {
            let name = self.order[i];
            assert(self@[i as int].0 == name@);
            if self.resolved(name).is_none() {
                assert(text::str_views(out@.push(name)) =~= text::str_views(out@).push(name@));
                out.push(name);
            }
            i = i + 1;
        }
        out
    }

    /// Why it does not matter that a site matched nowhere, where it does not.
    pub fn excused(&self, name: &str) -> (res: Option<&'static str>)
        requires
            self.wf(),
        ensures
            res is Some == excuse_for(self@, name@) is Some,
            res matches Some(note) ==> excuse_for(self@, name@) == Some(note@),
    {
        let site = match sites::find(name) {
            Some(s) => s,
            None => {
                return None;
            },
        };
        proof {
            let i = choose|i: int|
                0 <= i < sites::catalogue().len() && sites::catalogue()[i] == site@;
            assert(sites::catalogue()[i].name == name@);
            sites::law_site_names_are_unique();
            let j = choose|j: int|
                0 <= j < sites::catalogue().len() && (#[trigger] sites::catalogue()[j]).name
                    == name@;
            if i < j {
                assert(sites::catalogue()[i].name != sites::catalogue()[j].name);
            }
            if j < i {
                assert(sites::catalogue()[j].name != sites::catalogue()[i].name);
            }
            assert(site_named(sites::catalogue(), name@) == site@);
        }
        match self.place(name) {
            Some(i) => match &self.outcomes[i] {
                Outcome::Missing => {},
                _ => {
                    return None;
                },
            },
            None => {
                return None;
            },
        }
        match site.absent_ok {
            None => None,
            Some(absent) => match absent.covered_by {
                None => Some(absent.note),
                Some(other) => if self.resolved(other).is_some() {
                    Some(absent.note)
                } else {
                    None
                },
            },
        }
    }

    /// Nothing is lost at this site: it was found, or it is not needed.
    pub fn covered(&self, name: &str) -> (res: bool)
        requires
            self.wf(),
        ensures
            res == (found(self@, name@) is Some || excuse_for(self@, name@) is Some),
    {
        self.resolved(name).is_some() || self.excused(name).is_some()
    }
}

// ---------------------------------------------------------------------------
// Resolving
// ---------------------------------------------------------------------------

fn wanted_matches(site: &Site) -> (res: usize)
    ensures
        res == wanted(site@.expect),
{
    match site.expect {
        Expect::All(n) => n,
        _ => 1,
    }
}

/// Keep what a site's expectation leaves of its hits.
fn retain(hits: Vec<usize>, site: &Site, base: Option<usize>) -> (res: Vec<usize>)
    ensures
        sig::ints(res@) == kept(
            sig::ints(hits@),
            site@.expect,
            match base {
                Some(b) => Some(b as int),
                None => None,
            },
        ),
{
    match site.expect {
        Expect::NearestAfter { anchor, window } => {
            let mut out: Vec<usize> = Vec::new();
            match base {
                None => {
                    assert(sig::ints(out@) =~= Seq::<int>::empty());
                },
                Some(b) => {
                    let ghost all = sig::ints(hits@);
                    let mut i: usize = 0;
                    assert(all.take(0) =~= Seq::<int>::empty());
                    assert(sig::ints(out@) =~= Seq::<int>::empty());
                    while i < hits.len()
                        invariant
                            i <= hits@.len(),
                            all == sig::ints(hits@),
                            sig::ints(out@) == within(
                                all.take(i as int),
                                b as int,
                                window as int,
                            ),
                        decreases hits.len() - i,
                    {
                        let h: usize = hits[i];
                        assert(all.take(i + 1).last() == h);
                        assert(all.take(i + 1).drop_last() =~= all.take(i as int));
                        if h > b && h - b <= window {
                            assert(sig::ints(out@.push(h)) =~= sig::ints(out@).push(h as int));
                            out.push(h);
                        }
                        i = i + 1;
                    }
                    assert(all.take(i as int) =~= all);
                },
            }
            out
        },
        _ => hits,
    }
}

pub open spec fn opt_int(base: Option<usize>) -> Option<int> {
    match base {
        Some(b) => Some(b as int),
        None => None,
    }
}

/// Try each encoding against `hay`, returning the first that matches the
/// expected number of times.
fn search(hay: &[u8], site: &'static Site, base: Option<usize>) -> (res: Option<Resolved>)
    requires
        sites::patterns_valid(site@),
    ensures
        ({
            let m = search_from(hay@, site@, opt_int(base), 0);
            &&& res is Some == m is Some
            &&& res matches Some(r) ==> {
                &&& r@.site == site@
                &&& r@.offsets == m->0.offsets
                &&& r@.variant == m->0.variant
                &&& r@.pattern == site@.patterns[m->0.variant].0
                &&& r@.via is Scan
                &&& r.via.plain()
            }
        }),
{
    let patterns = compile_patterns(site);
    let want: usize = wanted_matches(site);
    let mut v: usize = 0;
    while v < patterns.len()
        invariant
            v <= patterns@.len(),
            sites::compiled(site@, patterns@),
            want == wanted(site@.expect),
            search_from(hay@, site@, opt_int(base), 0) == search_from(
                hay@,
                site@,
                opt_int(base),
                v as int,
            ),
        decreases patterns.len() - v,
    {
        let hits = patterns[v].find_all(hay);
        assert(sig::ints(hits@) == raw_hits(hay@, site@, v as int));
        if hits.len() > 0 {
            let left = retain(hits, site, base);
            if left.len() == want {
                return Some(
                    Resolved {
                        site,
                        offsets: left,
                        variant: v,
                        pattern: patterns[v].source,
                        via: Via::Scan,
                    },
                );
            }
        }
        v = v + 1;
    }
    None
}

proof fn lemma_kept_of_nothing(expect: ExpectModel, base: Option<int>)
    ensures
        kept(Seq::<int>::empty(), expect, base).len() == 0,
{
}

/// Describe why a whole-file scan came up short, so the report can distinguish
/// "this build moved the code" from "this pattern is no longer specific".
fn scan_failure(data: &[u8], site: &'static Site, base: Option<usize>) -> (res: Outcome)
    requires
        sites::patterns_valid(site@),
    ensures
        res@ == failure_from(data@, site@, opt_int(base), 0),
        res.plain(),
{
    let patterns = compile_patterns(site);
    let want: usize = wanted_matches(site);
    let mut v: usize = 0;
    while v < patterns.len()
        invariant
            v <= patterns@.len(),
            sites::compiled(site@, patterns@),
            want == wanted(site@.expect),
            failure_from(data@, site@, opt_int(base), 0) == failure_from(
                data@,
                site@,
                opt_int(base),
                v as int,
            ),
        decreases patterns.len() - v,
    {
        let hits = patterns[v].find_all(data);
        assert(sig::ints(hits@) == raw_hits(data@, site@, v as int));
        if hits.len() > 0 {
            let left = retain(hits, site, base);
            if left.len() > 0 {
                return Outcome::Ambiguous { found: left.len(), wanted: to_decimal(want as u64) };
            }
        } else {
            proof {
                assert(sig::ints(hits@) =~= Seq::<int>::empty());
                lemma_kept_of_nothing(site@.expect, opt_int(base));
            }
        }
        v = v + 1;
    }
    Outcome::Missing
}

/// Moves the offsets found inside a function to where they are in the file.
fn shift_all(offsets: &Vec<usize>, by: usize) -> (res: Vec<usize>)
    requires
        forall|i: int| 0 <= i < offsets@.len() ==> #[trigger] offsets@[i] + by <= usize::MAX,
    ensures
        sig::ints(res@) == shifted(sig::ints(offsets@), by as int),
{
    let mut out: Vec<usize> = Vec::new();
    let ghost all = shifted(sig::ints(offsets@), by as int);
    let mut i: usize = 0;
    while i < offsets.len()
        invariant
            i <= offsets@.len(),
            forall|i: int| 0 <= i < offsets@.len() ==> #[trigger] offsets@[i] + by <= usize::MAX,
            all == shifted(sig::ints(offsets@), by as int),
            sig::ints(out@) == all.take(i as int),
        decreases offsets.len() - i,
    {
        let o: usize = offsets[i] + by;
        assert(sig::ints(out@.push(o)) =~= sig::ints(out@).push(o as int));
        assert(all.take(i + 1) =~= all.take(i as int).push(all[i as int]));
        out.push(o);
        i = i + 1;
    }
    assert(all.take(i as int) =~= all);
    out
}

proof fn lemma_within_subset(hits: Seq<int>, base: int, window: int)
    ensures
        forall|k: int|
            0 <= k < within(hits, base, window).len() ==> hits.contains(
                #[trigger] within(hits, base, window)[k],
            ),
    decreases hits.len(),
{
    if hits.len() > 0 {
        lemma_within_subset(hits.drop_last(), base, window);
        let shorter = within(hits.drop_last(), base, window);
        let all = within(hits, base, window);
        assert forall|k: int| 0 <= k < all.len() implies hits.contains(#[trigger] all[k]) by {
            if k < shorter.len() {
                assert(hits.drop_last().contains(shorter[k]));
                let j = choose|j: int|
                    0 <= j < hits.drop_last().len() && hits.drop_last()[j] == shorter[k];
                assert(hits[j] == all[k]);
            } else {
                assert(hits[hits.len() - 1] == all[k]);
            }
        }
    }
}

/// What a search finds lies inside what was searched.
proof fn lemma_search_in_range(hay: Seq<u8>, site: SiteModel, base: Option<int>, v: int)
    requires
        sites::patterns_valid(site),
        0 <= v,
    ensures
        search_from(hay, site, base, v) matches Some(m) ==> v <= m.variant < site.patterns.len()
            && forall|k: int| 0 <= k < m.offsets.len() ==> 0 <= #[trigger] m.offsets[k] < hay.len(),
    decreases site.patterns.len() - v,
{
    if v < site.patterns.len() {
        let raw = raw_hits(hay, site, v);
        let left = kept(raw, site.expect, base);
        if raw.len() > 0 && left.len() == wanted(site.expect) {
            let src = site.patterns[v].0;
            let delta = site.patterns[v].1;
            assert(sig::valid(src, delta));
            sig::lemma_hits_in_range(sig::tokens(src), delta, hay);
            if let ExpectModel::NearestAfter { window, .. } = site.expect {
                if let Some(b) = base {
                    lemma_within_subset(raw, b, window);
                    assert forall|k: int| 0 <= k < left.len() implies 0 <= #[trigger] left[k]
                        < hay.len() by {
                        assert(raw.contains(left[k]));
                    }
                }
            }
        } else {
            lemma_search_in_range(hay, site, base, v + 1);
        }
    }
}

/// The part of the file that a function occupies, where there is any.
fn function_range(sym: Sym, len: usize) -> (res: Option<(usize, usize)>)
    ensures
        res is Some == (sym.offset < function_end(sym, len as int)),
        res matches Some((from, to)) ==> from == sym.offset && to == function_end(sym, len as int)
            && from < to <= len,
{
    let size: usize = if sym.size > 0 {
        sym.size
    } else {
        1
    };
    if sym.offset >= len {
        None
    } else if size <= len - sym.offset {
        Some((sym.offset, sym.offset + size))
    } else {
        Some((sym.offset, len))
    }
}

fn resolve_by_symbol(
    data: &[u8],
    syms: &Symbols,
    site: &'static Site,
    base: Option<usize>,
) -> (res: Option<Resolved>)
    requires
        sites::patterns_valid(site@),
        sites::symbols_plain(site@),
    ensures
        ({
            let r = by_symbol_from(data@, syms@, site@, opt_int(base), 0);
            &&& res is Some == r is Some
            &&& res matches Some(found) ==> r == Some(found@) && found.via.plain()
        }),
{
    let mut k: usize = 0;
    while k < site.symbols.len()
        invariant
            k <= site.symbols@.len(),
            sites::patterns_valid(site@),
            sites::symbols_plain(site@),
            by_symbol_from(data@, syms@, site@, opt_int(base), 0) == by_symbol_from(
                data@,
                syms@,
                site@,
                opt_int(base),
                k as int,
            ),
        decreases site.symbols@.len() - k,
    {
        let name: &'static str = site.symbols[k];
        assert(site@.symbols[k as int] == name@);
        proof {
            lemma_ascii_is_cuttable(name@);
        }
        if let Some(sym) = syms.get(name) {
            if site.entry {
                let r = Resolved {
                    site,
                    offsets: vec![sym.offset],
                    variant: 0,
                    pattern: FUNCTION_ENTRY,
                    via: Via::SymbolEntry(name),
                };
                assert(r@.offsets =~= seq![sym.offset as int]);
                return Some(r);
            }
            if let Some((from, to)) = function_range(sym, data.len()) {
                let scoped: &[u8] = slice_subrange(data, from, to);
                let inner: Option<usize> = match base {
                    Some(b) => if b >= from {
                        Some(b - from)
                    } else {
                        None
                    },
                    None => None,
                };
                assert(opt_int(inner) == relative(opt_int(base), from as int));
                let size: usize = data.len();
                if let Some(found) = search(scoped, site, inner) {
                    proof {
                        lemma_search_in_range(scoped@, site@, opt_int(inner), 0);
                        assert forall|i: int| 0 <= i < found.offsets@.len() implies
                            #[trigger] found.offsets@[i] + from <= usize::MAX by {
                            assert(found@.offsets[i] == found.offsets@[i]);
                        }
                    }
                    let offsets = shift_all(&found.offsets, from);
                    return Some(
                        Resolved {
                            site,
                            offsets,
                            variant: found.variant,
                            pattern: found.pattern,
                            via: Via::InSymbol(name),
                        },
                    );
                }
            }
        }
        k = k + 1;
    }
    None
}

pub open spec fn opt_map(syms: Option<&Symbols>) -> Option<Map<Seq<char>, Sym>> {
    match syms {
        Some(s) => Some(s@),
        None => None,
    }
}

fn resolve_one(
    data: &[u8],
    syms: Option<&Symbols>,
    site: &'static Site,
    base: Option<usize>,
) -> (res: Outcome)
    requires
        sites::patterns_valid(site@),
        sites::symbols_plain(site@),
    ensures
        res@ == one_outcome(data@, opt_map(syms), site@, opt_int(base)),
        res.plain(),
{
    if let Some(known) = syms {
        if let Some(r) = resolve_by_symbol(data, known, site, base) {
            return Outcome::Found(r);
        }
    }
    match search(data, site, base) {
        Some(r) => Outcome::Found(r),
        None => scan_failure(data, site, base),
    }
}

/// A name that one site of a catalogue has picks that site out.
pub proof fn lemma_site_named(cat: Seq<SiteModel>, j: int)
    requires
        sites::names_unique(cat),
        0 <= j < cat.len(),
    ensures
        site_named(cat, cat[j].name) == cat[j],
{
    let k = choose|k: int| 0 <= k < cat.len() && (#[trigger] cat[k]).name == cat[j].name;
    assert(cat[j].name == cat[j].name);
    if k < j {
        assert(cat[k].name != cat[j].name);
    }
    if j < k {
        assert(cat[j].name != cat[k].name);
    }
}

/// The place of the site of that name in a list.
fn place_of(list: &Vec<&'static Site>, name: &str) -> (res: Option<usize>)
    ensures
        res matches Some(i) ==> i < list@.len() && list@[i as int]@.name == name@,
        res is None ==> forall|i: int|
            0 <= i < list@.len() ==> (#[trigger] list@[i])@.name != name@,
{
    let mut i: usize = 0;
    while i < list.len()
        invariant
            i <= list@.len(),
            forall|j: int| 0 <= j < i ==> (#[trigger] list@[j])@.name != name@,
        decreases list.len() - i,
    {
        if str_eq(list[i].name, name) {
            return Some(i);
        }
        i = i + 1;
    }
    None
}

/// Locate every site of a list in `data`.
///
/// Sites whose disambiguation depends on another site are deferred until that
/// anchor has been resolved, so ordering inside the list does not matter.
pub fn resolve_list(list: &Vec<&'static Site>, data: &[u8], syms: Option<&Symbols>) -> (res: Report)
    requires
        sites::well_formed(sites::models(list@)),
    ensures
        res.wf(),
        res.plain(),
        res@ == outcomes_of(sites::models(list@), data@, opt_map(syms)),
{
    let ghost cat = sites::models(list@);
    let ghost known = opt_map(syms);
    let mut order: Vec<&'static str> = Vec::new();
    let mut outcomes: Vec<Outcome> = Vec::new();
    let mut i: usize = 0;
    // Sites that stand on their own; an anchored one is left for later.
    while i < list.len()
        invariant
            i <= list@.len(),
            cat == sites::models(list@),
            known == opt_map(syms),
            sites::well_formed(cat),
            order@.len() == i,
            outcomes@.len() == i,
            forall|k: int| 0 <= k < i ==> (#[trigger] outcomes@[k]).plain(),
            forall|k: int| 0 <= k < i ==> (#[trigger] order@[k])@ == cat[k].name,
            forall|k: int|
                0 <= k < i && !(cat[k].expect is NearestAfter) ==> (#[trigger] outcomes@[k])@
                    == one_outcome(data@, known, cat[k], None),
        decreases list.len() - i,
    {
        let site: &'static Site = list[i];
        assert(cat[i as int] == site@);
        let outcome = match site.expect {
            Expect::NearestAfter { .. } => Outcome::Missing,
            _ => resolve_one(data, syms, site, None),
        };
        order.push(site.name);
        outcomes.push(outcome);
        i = i + 1;
    }
    // Anchored sites: every anchor is settled by now.
    let mut i: usize = 0;
    while i < list.len()
        invariant
            i <= list@.len(),
            cat == sites::models(list@),
            known == opt_map(syms),
            sites::well_formed(cat),
            order@.len() == list@.len(),
            outcomes@.len() == list@.len(),
            forall|k: int| 0 <= k < list@.len() ==> (#[trigger] outcomes@[k]).plain(),
            forall|k: int| 0 <= k < list@.len() ==> (#[trigger] order@[k])@ == cat[k].name,
            forall|k: int|
                0 <= k < list@.len() && !(cat[k].expect is NearestAfter) ==> (
                #[trigger] outcomes@[k])@ == one_outcome(data@, known, cat[k], None),
            forall|k: int|
                0 <= k < i ==> (#[trigger] outcomes@[k])@ == outcome_of(
                    cat,
                    data@,
                    known,
                    cat[k],
                ),
        decreases list.len() - i,
    {
        let site: &'static Site = list[i];
        assert(cat[i as int] == site@);
        if let Expect::NearestAfter { anchor, .. } = site.expect {
            assert(sites::names_free_site(cat, anchor@));
            let ghost free = choose|j: int|
                0 <= j < cat.len() && (#[trigger] cat[j]).name == anchor@ && !(
                cat[j].expect is NearestAfter);
            let outcome = match place_of(list, anchor) {
                Some(j) => {
                    assert(cat[j as int] == list@[j as int]@);
                    proof {
                        lemma_site_named(cat, j as int);
                        if free < j {
                            assert(cat[free].name != cat[j as int].name);
                        }
                        if j < free {
                            assert(cat[j as int].name != cat[free].name);
                        }
                    }
                    let mut base: Option<usize> = None;
                    let mut ready = false;
                    if let Outcome::Found(r) = &outcomes[j] {
                        ready = true;
                        if r.offsets.len() > 0 {
                            base = Some(r.offsets[0]);
                            assert(r@.offsets[0] == r.offsets@[0]);
                        }
                    }
                    if ready {
                        resolve_one(data, syms, site, base)
                    } else {
                        Outcome::Missing
                    }
                },
                None => {
                    assert(list@[free]@.name == cat[free].name);
                    Outcome::Missing
                },
            };
            assert(outcome@ == outcome_of(cat, data@, known, site@));
            outcomes.set(i, outcome);
        }
        i = i + 1;
    }
    let report = Report { order, outcomes };
    assert(report@ =~= outcomes_of(cat, data@, known));
    report
}

/// Locate every site of the catalogue in `data`.
pub fn resolve_all(data: &[u8], syms: Option<&Symbols>) -> (res: Report)
    ensures
        res.wf(),
        res.plain(),
        res@ == outcomes_of(sites::catalogue(), data@, opt_map(syms)),
{
    let list = sites::sites();
    proof {
        sites::lemma_catalogue_well_formed();
    }
    resolve_list(&list, data, syms)
}

// ---------------------------------------------------------------------------
// Laws
// ---------------------------------------------------------------------------

/// Ordering inside the catalogue does not matter: two catalogues of the same
/// sites give a site the same outcome.
pub proof fn law_order_does_not_matter(
    a: Seq<SiteModel>,
    b: Seq<SiteModel>,
    data: Seq<u8>,
    syms: Option<Map<Seq<char>, Sym>>,
    site: SiteModel,
)
    requires
        sites::well_formed(a),
        sites::well_formed(b),
        forall|s: SiteModel| a.contains(s) <==> b.contains(s),
        a.contains(site),
    ensures
        outcome_of(a, data, syms, site) == outcome_of(b, data, syms, site),
{
    if let ExpectModel::NearestAfter { anchor, .. } = site.expect {
        let i = choose|i: int| 0 <= i < a.len() && a[i] == site;
        assert(a[i].expect is NearestAfter);
        assert(sites::names_free_site(a, anchor));
        let j = choose|j: int|
            0 <= j < a.len() && (#[trigger] a[j]).name == anchor && !(
            a[j].expect is NearestAfter);
        lemma_site_named(a, j);
        assert(a.contains(a[j]));
        assert(b.contains(a[j]));
        let k = choose|k: int| 0 <= k < b.len() && b[k] == a[j];
        lemma_site_named(b, k);
    }
}

/// A site is found, missing or ambiguous for what the file holds: a site that is
/// found was found as often as it wants, or at its function's entry.
pub proof fn law_found_as_often_as_wanted(
    data: Seq<u8>,
    syms: Option<Map<Seq<char>, Sym>>,
    site: SiteModel,
    base: Option<int>,
)
    ensures
        one_outcome(data, syms, site, base) matches OutcomeModel::Found(r) ==> r.site == site && (
        r.via is SymbolEntry && r.offsets.len() == 1 || r.offsets.len() == wanted(site.expect)),
{
    if let Some(known) = syms {
        lemma_by_symbol_count(data, known, site, base, 0);
    }
    lemma_search_count(data, site, base, 0);
    lemma_failure_is_not_found(data, site, base, 0);
}

proof fn lemma_failure_is_not_found(hay: Seq<u8>, site: SiteModel, base: Option<int>, v: int)
    ensures
        !(failure_from(hay, site, base, v) is Found),
    decreases site.patterns.len() - v,
{
    if v < site.patterns.len() {
        lemma_failure_is_not_found(hay, site, base, v + 1);
    }
}

proof fn lemma_search_count(hay: Seq<u8>, site: SiteModel, base: Option<int>, v: int)
    ensures
        search_from(hay, site, base, v) matches Some(m) ==> m.offsets.len() == wanted(site.expect),
    decreases site.patterns.len() - v,
{
    if v < site.patterns.len() {
        lemma_search_count(hay, site, base, v + 1);
    }
}

proof fn lemma_by_symbol_count(
    data: Seq<u8>,
    syms: Map<Seq<char>, Sym>,
    site: SiteModel,
    base: Option<int>,
    k: int,
)
    ensures
        by_symbol_from(data, syms, site, base, k) matches Some(r) ==> r.site == site && (
        r.via is SymbolEntry && r.offsets.len() == 1 || r.offsets.len() == wanted(site.expect)),
    decreases site.symbols.len() - k,
{
    if k < site.symbols.len() {
        lemma_by_symbol_count(data, syms, site, base, k + 1);
        let name = site.symbols[k];
        if syms.dom().contains(name) {
            let sym = syms[name];
            let end = function_end(sym, data.len() as int);
            lemma_search_count(
                data.subrange(sym.offset as int, end),
                site,
                relative(base, sym.offset as int),
                0,
            );
        }
    }
}

/// A site that was found without an entry symbol lies inside the file.
pub proof fn law_scanned_offsets_lie_in_the_file(
    data: Seq<u8>,
    site: SiteModel,
    base: Option<int>,
)
    requires
        sites::patterns_valid(site),
    ensures
        one_outcome(data, None, site, base) matches OutcomeModel::Found(r) ==> forall|k: int|
            0 <= k < r.offsets.len() ==> 0 <= #[trigger] r.offsets[k] < data.len(),
{
    lemma_search_in_range(data, site, base, 0);
    lemma_failure_is_not_found(data, site, base, 0);
}

/// A site at a function's entry is where its symbol says, for the first of its
/// names that the file has: no search is made for it.
pub proof fn law_entry_sites_are_where_their_symbol_is(
    data: Seq<u8>,
    known: Map<Seq<char>, Sym>,
    site: SiteModel,
    base: Option<int>,
    k: int,
)
    requires
        site.entry,
        0 <= k < site.symbols.len(),
        known.dom().contains(site.symbols[k]),
        forall|j: int| 0 <= j < k ==> !known.dom().contains(#[trigger] site.symbols[j]),
    ensures
        one_outcome(data, Some(known), site, base) matches OutcomeModel::Found(r) && r.offsets
            == seq![known[site.symbols[k]].offset as int] && r.via == ViaModel::SymbolEntry(
            site.symbols[k],
        ),
{
    lemma_entry_from(data, known, site, base, 0, k);
}

proof fn lemma_entry_from(
    data: Seq<u8>,
    known: Map<Seq<char>, Sym>,
    site: SiteModel,
    base: Option<int>,
    from: int,
    k: int,
)
    requires
        site.entry,
        0 <= from <= k < site.symbols.len(),
        known.dom().contains(site.symbols[k]),
        forall|j: int| from <= j < k ==> !known.dom().contains(#[trigger] site.symbols[j]),
    ensures
        by_symbol_from(data, known, site, base, from) matches Some(r) && r.offsets == seq![
            known[site.symbols[k]].offset as int,
        ] && r.via == ViaModel::SymbolEntry(site.symbols[k]),
    decreases k - from,
{
    if from < k {
        assert(!known.dom().contains(site.symbols[from]));
        lemma_entry_from(data, known, site, base, from + 1, k);
    }
}

/// A signature that was searched for inside a named function matched inside that
/// function, and nowhere else in the file.
pub proof fn law_scoped_matches_lie_in_their_function(
    data: Seq<u8>,
    known: Map<Seq<char>, Sym>,
    site: SiteModel,
    base: Option<int>,
)
    requires
        sites::patterns_valid(site),
    ensures
        one_outcome(data, Some(known), site, base) matches OutcomeModel::Found(r) ==> (
        r.via matches ViaModel::InSymbol(name) ==> forall|i: int|
            0 <= i < r.offsets.len() ==> known[name].offset <= #[trigger] r.offsets[i]
                < function_end(known[name], data.len() as int)),
{
    lemma_scoped_from(data, known, site, base, 0);
    lemma_failure_is_not_found(data, site, base, 0);
}

proof fn lemma_scoped_from(
    data: Seq<u8>,
    known: Map<Seq<char>, Sym>,
    site: SiteModel,
    base: Option<int>,
    k: int,
)
    requires
        0 <= k,
        sites::patterns_valid(site),
    ensures
        by_symbol_from(data, known, site, base, k) matches Some(r) ==> (
        r.via matches ViaModel::InSymbol(name) ==> forall|i: int|
            0 <= i < r.offsets.len() ==> known[name].offset <= #[trigger] r.offsets[i]
                < function_end(known[name], data.len() as int)),
    decreases site.symbols.len() - k,
{
    if k < site.symbols.len() {
        lemma_scoped_from(data, known, site, base, k + 1);
        let name = site.symbols[k];
        if known.dom().contains(name) && !site.entry {
            let sym = known[name];
            let end = function_end(sym, data.len() as int);
            if sym.offset < end {
                lemma_search_in_range(
                    data.subrange(sym.offset as int, end),
                    site,
                    relative(base, sym.offset as int),
                    0,
                );
            }
        }
    }
}

/// A file without symbols is scanned whole.
pub proof fn law_stripped_files_are_scanned(data: Seq<u8>, site: SiteModel, base: Option<int>)
    ensures
        one_outcome(data, None, site, base) matches OutcomeModel::Found(r) ==> r.via is Scan,
{
    lemma_failure_is_not_found(data, site, base, 0);
}

} // verus!
