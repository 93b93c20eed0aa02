//! Finding the Discord installations on this machine.
//!
//! Discord keeps each app version in its own `app-<version>` directory and
//! downloads native modules into it separately. That detail matters: a client
//! that has just staged an update has a *new* `app-` directory whose voice
//! module is still empty or still stock, so a patch applied to the previous
//! directory stops taking effect the next time Discord restarts, with no error
//! anywhere. Every install is reported, newest first, along with whether it
//! looks like the one Discord will actually run.
//!
//! What is on disk comes in as plain values: the names of directory entries, the
//! components of a path, the text a path is shown as.

pub mod laws;

use crate::md5;
use crate::text;
use crate::text::{
    begins_with, cat2, cat3, chars_of, contains_str, join, parse_u32, slice_of, split_at_char,
    str_eq, to_decimal, without_prefix,
};
use vstd::prelude::*;

verus! {

// ---------------------------------------------------------------------------
// Order
// ---------------------------------------------------------------------------

/// Dictionary order.
pub open spec fn lex_less(a: Seq<u32>, b: Seq<u32>) -> bool
    decreases a.len(),
{
    if b.len() == 0 {
        false
    } else if a.len() == 0 {
        true
    } else if a[0] != b[0] {
        a[0] < b[0]
    } else {
        lex_less(a.drop_first(), b.drop_first())
    }
}

pub fn less(a: &Vec<u32>, b: &Vec<u32>) -> (res: bool)
    ensures
        res == lex_less(a@, b@),
{
    let mut i: usize = 0;
    assert(a@.skip(0) =~= a@ && b@.skip(0) =~= b@);
    while i < a.len() && i < b.len()
        invariant
            i <= a@.len(),
            i <= b@.len(),
            lex_less(a@, b@) == lex_less(a@.skip(i as int), b@.skip(i as int)),
        decreases a@.len() - i,
    {
        assert(a@.skip(i as int)[0] == a@[i as int]);
        assert(b@.skip(i as int)[0] == b@[i as int]);
        if a[i] != b[i] {
            return a[i] < b[i];
        }
        assert(a@.skip(i as int).drop_first() =~= a@.skip(i + 1));
        assert(b@.skip(i as int).drop_first() =~= b@.skip(i + 1));
        i = i + 1;
    }
    i < b.len()
}

proof fn lemma_lex_irreflexive(a: Seq<u32>)
    ensures
        !lex_less(a, a),
    decreases a.len(),
{
    if a.len() > 0 {
        lemma_lex_irreflexive(a.drop_first());
    }
}

proof fn lemma_lex_total(a: Seq<u32>, b: Seq<u32>)
    ensures
        lex_less(a, b) || lex_less(b, a) || a == b,
        !(lex_less(a, b) && lex_less(b, a)),
    decreases a.len(),
{
    if a.len() > 0 && b.len() > 0 && a[0] == b[0] {
        lemma_lex_total(a.drop_first(), b.drop_first());
        if a.drop_first() == b.drop_first() {
            assert(a =~= seq![a[0]] + a.drop_first());
            assert(b =~= seq![b[0]] + b.drop_first());
        }
    } else if a.len() == 0 && b.len() == 0 {
        assert(a =~= b);
    }
}

proof fn lemma_lex_transitive(a: Seq<u32>, b: Seq<u32>, c: Seq<u32>)
    ensures
        lex_less(a, b) && lex_less(b, c) ==> lex_less(a, c),
    decreases a.len(),
{
    if a.len() > 0 && b.len() > 0 && c.len() > 0 {
        lemma_lex_transitive(a.drop_first(), b.drop_first(), c.drop_first());
    }
}

/// The code points of a text. Their dictionary order is that of its bytes.
pub open spec fn codes(s: Seq<char>) -> Seq<u32> {
    s.map_values(|c: char| code(c))
}

pub open spec fn code(c: char) -> u32 {
    c as u32
}

fn codes_of(s: &str) -> (res: Vec<u32>)
    ensures
        res@ == codes(s@),
{
    let cs = chars_of(s);
    let mut out: Vec<u32> = Vec::new();
    let mut i: usize = 0;
    while i < cs.len()
        invariant
            i <= cs@.len(),
            cs@ == s@,
            out@ == codes(s@).take(i as int),
        decreases cs@.len() - i,
    {
        out.push(cs[i] as u32);
        i = i + 1;
        assert(out@ =~= codes(s@).take(i as int));
    }
    assert(codes(s@).take(i as int) =~= codes(s@));
    out
}

proof fn lemma_codes_injective(a: Seq<char>, b: Seq<char>)
    requires
        codes(a) == codes(b),
    ensures
        a == b,
{
    assert(codes(a).len() == a.len() && codes(b).len() == b.len());
    assert forall|i: int| 0 <= i < a.len() implies a[i] == b[i] by {
        assert(i < b.len());
        assert(codes(a)[i] == code(a[i]));
        assert(codes(b)[i] == code(b[i]));
        lemma_code_injective(a[i], b[i]);
    }
    assert(a =~= b);
}

proof fn lemma_code_injective(a: char, b: char)
    requires
        code(a) == code(b),
    ensures
        a == b,
{
}

// ---------------------------------------------------------------------------
// Versions and installs
// ---------------------------------------------------------------------------

#[derive(Debug, Clone, PartialEq, Eq, PartialOrd, Ord)]
pub struct Version(pub Vec<u32>);

impl View for Version {
    type V = Seq<u32>;

    open spec fn view(&self) -> Seq<u32> {
        self.0@
    }
}

/// The pieces that are numbers.
pub open spec fn numbers(pieces: Seq<Seq<char>>) -> Seq<u32>
    decreases pieces.len(),
{
    if pieces.len() == 0 {
        seq![]
    } else {
        match text::u32_of(pieces.last()) {
            Some(n) => numbers(pieces.drop_last()).push(n),
            None => numbers(pieces.drop_last()),
        }
    }
}

/// The version that a text denotes: its numbers between dots, the rest left out.
pub open spec fn version_in(s: Seq<char>) -> Seq<u32> {
    numbers(text::split_on(s, '.'))
}

/// A version with dots between its numbers.
pub open spec fn version_text(v: Seq<u32>) -> Seq<char> {
    text::joined(v.map_values(|n: u32| text::decimal(n as nat)), "."@)
}

impl Version {
    pub fn parse(s: &str) -> (res: Version)
        ensures
            res@ == version_in(s@),
    {
        let pieces = split_at_char(s, '.');
        let ghost all = text::views(pieces@);
        let mut out: Vec<u32> = Vec::new();
        let mut i: usize = 0;
        assert(all.take(0) =~= Seq::<Seq<char>>::empty());
        while i < pieces.len()
            invariant
                i <= pieces@.len(),
                all == text::views(pieces@),
                out@ == numbers(all.take(i as int)),
            decreases pieces@.len() - i,
        {
            assert(all.take(i + 1).last() == pieces@[i as int]@);
            assert(all.take(i + 1).drop_last() =~= all.take(i as int));
            if let Some(n) = parse_u32(pieces[i].as_str()) {
                out.push(n);
            }
            i = i + 1;
        }
        assert(all.take(i as int) =~= all);
        Version(out)
    }

    /// The version with dots between its numbers.
    pub fn to_text(&self) -> (res: String)
        ensures
            res@ == version_text(self@),
    {
        let ghost all = self@.map_values(|n: u32| text::decimal(n as nat));
        let mut parts: Vec<String> = Vec::new();
        let mut i: usize = 0;
        while i < self.0.len()
            invariant
                i <= self@.len(),
                all == self@.map_values(|n: u32| text::decimal(n as nat)),
                text::views(parts@) == all.take(i as int),
            decreases self@.len() - i,
        {
            let s = to_decimal(self.0[i] as u64);
            assert(text::views(parts@.push(s)) =~= text::views(parts@).push(s@));
            assert(all.take(i + 1) =~= all.take(i as int).push(all[i as int]));
            parts.push(s);
            i = i + 1;
        }
        assert(all.take(i as int) =~= all);
        join(&parts, ".")
    }

    /// Whether this version comes before `other`.
    pub fn before(&self, other: &Version) -> (res: bool)
        ensures
            res == lex_less(self@, other@),
    {
        less(&self.0, &other.0)
    }
}

#[derive(Debug, Clone)]
pub struct Install {
    /// "Discord", "Discord PTB", ...
    pub channel: String,
    /// e.g. "1.0.155"
    pub version: Version,
    pub app_dir: String,
    /// `None` when the module directory exists but Discord has not finished
    /// downloading the voice module into it yet.
    pub node: Option<String>,
    /// Overrides the name the backup is filed under. Set only for modules the
    /// user pointed at by path: those have no channel and no version to be
    /// named after, and two of them must not end up sharing one backup.
    pub key: Option<String>,
}

#[verifier::ext_equal]
pub struct InstallModel {
    pub channel: Seq<char>,
    pub version: Seq<u32>,
    pub app_dir: Seq<char>,
    pub node: Option<Seq<char>>,
    pub key: Option<Seq<char>>,
}

pub open spec fn opt_text(s: Option<String>) -> Option<Seq<char>> {
    match s {
        Some(x) => Some(x@),
        None => None,
    }
}

impl View for Install {
    type V = InstallModel;

    open spec fn view(&self) -> InstallModel {
        InstallModel {
            channel: self.channel@,
            version: self.version@,
            app_dir: self.app_dir@,
            node: opt_text(self.node),
            key: opt_text(self.key),
        }
    }
}

pub open spec fn install_views(list: Seq<Install>) -> Seq<InstallModel> {
    list.map_values(|i: Install| i@)
}

/// What an install is called.
pub open spec fn label_of(install: InstallModel) -> Seq<char> {
    if install.version.len() == 0 {
        install.channel
    } else {
        install.channel + " "@ + version_text(install.version)
    }
}

pub const CUSTOM_CHANNEL: &'static str = "Custom module";

/// The first of the names that starts with `app-` gives the version.
pub open spec fn version_among(names: Seq<Seq<char>>) -> Seq<u32>
    decreases names.len(),
{
    if names.len() == 0 {
        seq![]
    } else if text::begins(names[0], "app-"@) {
        version_in(names[0].skip("app-"@.len() as int))
    } else {
        version_among(names.drop_first())
    }
}

/// The first twelve digits of a path's digest.
pub open spec fn path_digest(path: Seq<char>) -> Seq<char> {
    md5::hex_digest(vstd::utf8::encode_utf8(path)).take(12)
}

/// The first twelve digits of a path's digest.
pub fn short_digest(path: &str) -> (res: String)
    ensures
        res@ == path_digest(path@),
        res@.len() == 12,
{
    let digest = md5::hex(path.as_bytes());
    proof {
        md5::law_digests_are_32_hex_digits(vstd::utf8::encode_utf8(path@));
    }
    let cs = chars_of(digest.as_str());
    let head = slice_of(&cs, 0, 12);
    assert(head@ =~= digest@.take(12));
    head
}

/// The name a module that was pointed at by path is filed under.
pub open spec fn path_key(path: Seq<char>) -> Seq<char> {
    "custom-"@ + path_digest(path)
}

/// Stands in for an install when a module was named by path.
pub open spec fn path_install(
    path: Seq<char>,
    names: Seq<Seq<char>>,
    app_dir: Seq<char>,
) -> InstallModel {
    InstallModel {
        channel: CUSTOM_CHANNEL@,
        version: version_among(names),
        app_dir,
        node: Some(path),
        key: Some(path_key(path)),
    }
}

impl Install {
    pub fn label(&self) -> (res: String)
        ensures
            res@ == label_of(self@),
    {
        if self.version.0.len() == 0 {
            self.channel.clone()
        } else {
            cat3(self.channel.as_str(), " ", self.version.to_text().as_str())
        }
    }

    /// The same install again.
    pub fn copied(&self) -> (res: Install)
        ensures
            res@ == self@,
    {
        let version = self.version.0.clone();
        assert(version@ =~= self.version.0@);
        Install {
            channel: self.channel.clone(),
            version: Version(version),
            app_dir: self.app_dir.clone(),
            node: match &self.node {
                Some(s) => Some(s.clone()),
                None => None,
            },
            key: match &self.key {
                Some(s) => Some(s.clone()),
                None => None,
            },
        }
    }

    /// Stand in for an install when the user has named a module by path.
    ///
    /// Custom clients ship Discord's own voice module, so patching one is the
    /// same operation, but the path is all there is to identify it by, so the
    /// backup is filed under a digest of that path rather than under a channel
    /// and version that would collide with every other such module. An
    /// `app-<version>` component means this is a Discord tree after all, just one
    /// reached by path; carrying the version through makes the readout say
    /// something useful instead of nothing.
    ///
    /// `path` is the canonical path, `names` its components that are text.
    pub fn for_path(path: &str, names: &Vec<String>, app_dir: &str) -> (res: Install)
        ensures
            res@ == path_install(path@, text::views(names@), app_dir@),
    {
        let head = short_digest(path);
        let ghost all = text::views(names@);
        let mut version = Version(Vec::new());
        let mut i: usize = 0;
        let mut done = false;
        assert(all.skip(0) =~= all);
        while i < names.len() && !done
            invariant
                i <= names@.len(),
                all == text::views(names@),
                done ==> version@ == version_among(all),
                !done ==> version@ == Seq::<u32>::empty() && version_among(all) == version_among(
                    all.skip(i as int),
                ),
            decreases names@.len() - i,
        {
            assert(all.skip(i as int)[0] == names@[i as int]@);
            assert(all.skip(i as int).drop_first() =~= all.skip(i + 1));
            if let Some(rest) = without_prefix(names[i].as_str(), "app-") {
                version = Version::parse(rest.as_str());
                done = true;
            }
            i = i + 1;
        }
        Install {
            channel: CUSTOM_CHANNEL.to_owned(),
            version,
            app_dir: app_dir.to_owned(),
            node: Some(path.to_owned()),
            key: Some(cat2("custom-", head.as_str())),
        }
    }
}

/// Which ancestor of a module named by path is its install: the nearest that has
/// a `modules` directory, else the directory the module is in. The first entry is
/// the path itself.
pub open spec fn app_dir_place(has_modules: Seq<bool>) -> int {
    if exists|k: int| 0 <= k < has_modules.len() && #[trigger] has_modules[k] {
        choose|k: int|
            0 <= k < has_modules.len() && #[trigger] has_modules[k] && forall|j: int|
                0 <= j < k ==> !#[trigger] has_modules[j]
    } else if has_modules.len() > 1 {
        1
    } else {
        0
    }
}

/// Which ancestor of a module named by path is its install.
pub fn app_dir_of(has_modules: &Vec<bool>) -> (res: usize)
    ensures
        res == app_dir_place(has_modules@),
{
    let mut k: usize = 0;
    while k < has_modules.len()
        invariant
            k <= has_modules@.len(),
            forall|j: int| 0 <= j < k ==> !#[trigger] has_modules@[j],
        decreases has_modules@.len() - k,
    {
        if has_modules[k] {
            proof {
                let c = app_dir_place(has_modules@);
                assert(has_modules@[k as int]);
                assert(0 <= k < has_modules@.len() && has_modules@[k as int] && forall|j: int|
                    0 <= j < k ==> !#[trigger] has_modules@[j]);
                if c < k {
                    assert(!has_modules@[c]);
                }
                if k < c {
                    assert(has_modules@[k as int]);
                }
            }
            return k;
        }
        k = k + 1;
    }
    if has_modules.len() > 1 {
        1
    } else {
        0
    }
}

// ---------------------------------------------------------------------------
// Channels
// ---------------------------------------------------------------------------

/// The directory of each channel, and what it is called, in the order they are
/// offered.
pub open spec fn channel_table() -> Seq<(Seq<char>, Seq<char>)> {
    seq![
        ("discord"@, "Discord"@),
        ("discordptb"@, "Discord PTB"@),
        ("discordcanary"@, "Discord Canary"@),
        ("discorddevelopment"@, "Discord Development"@),
    ]
}

/// The directory of each channel, and what it is called.
pub fn channels() -> (res: Vec<(&'static str, &'static str)>)
    ensures
        res@.map_values(|c: (&'static str, &'static str)| (c.0@, c.1@)) == channel_table(),
{
    let out: Vec<(&'static str, &'static str)> = vec![
        ("discord", "Discord"),
        ("discordptb", "Discord PTB"),
        ("discordcanary", "Discord Canary"),
        ("discorddevelopment", "Discord Development"),
    ];
    assert(out@.map_values(|c: (&'static str, &'static str)| (c.0@, c.1@)) =~= channel_table());
    out
}

/// The display names of every channel.
pub open spec fn channel_names() -> Seq<Seq<char>> {
    channel_table().map_values(|c: (Seq<char>, Seq<char>)| c.1)
}

/// The display names of every channel this tool knows about, in the order they
/// should be offered. Channels with nothing installed are still worth showing:
/// "Canary: not installed" answers the question, where a list that silently
/// omits it does not.
pub fn known_channels() -> (res: Vec<&'static str>)
    ensures
        text::str_views(res@) == channel_names(),
{
    let out: Vec<&'static str> = vec![
        "Discord",
        "Discord PTB",
        "Discord Canary",
        "Discord Development",
    ];
    assert(text::str_views(out@) =~= channel_names());
    out
}

/// A place under which configuration trees are looked for.
#[derive(Clone, Copy)]
pub enum Root {
    /// `$XDG_CONFIG_HOME`
    Xdg,
    /// `$HOME/.config`
    HomeConfig,
    /// `$HOME/.var/app/<id>/config`: Flatpak keeps a private config tree per
    /// application id.
    Flatpak(&'static str),
}

#[verifier::ext_equal]
pub enum RootModel {
    Xdg,
    HomeConfig,
    Flatpak(Seq<char>),
}

impl View for Root {
    type V = RootModel;

    open spec fn view(&self) -> RootModel {
        match *self {
            Root::Xdg => RootModel::Xdg,
            Root::HomeConfig => RootModel::HomeConfig,
            Root::Flatpak(id) => RootModel::Flatpak(id@),
        }
    }
}

pub open spec fn roots_of(has_xdg: bool, has_home: bool) -> Seq<RootModel> {
    (if has_xdg {
        seq![RootModel::Xdg]
    } else {
        seq![]
    }) + (if has_home {
        seq![
            RootModel::HomeConfig,
            RootModel::Flatpak("com.discordapp.Discord"@),
            RootModel::Flatpak("com.discordapp.DiscordPTB"@),
            RootModel::Flatpak("com.discordapp.DiscordCanary"@),
        ]
    } else {
        seq![]
    })
}

/// Where configuration trees are looked for, by which variables are set.
pub fn config_roots(has_xdg: bool, has_home: bool) -> (res: Vec<Root>)
    ensures
        res@.map_values(|r: Root| r@) == roots_of(has_xdg, has_home),
{
    let mut out: Vec<Root> = Vec::new();
    if has_xdg {
        out.push(Root::Xdg);
    }
    if has_home {
        out.push(Root::HomeConfig);
        out.push(Root::Flatpak("com.discordapp.Discord"));
        out.push(Root::Flatpak("com.discordapp.DiscordPTB"));
        out.push(Root::Flatpak("com.discordapp.DiscordCanary"));
    }
    assert(out@.map_values(|r: Root| r@) =~= roots_of(has_xdg, has_home));
    out
}

// ---------------------------------------------------------------------------
// Finding installs
// ---------------------------------------------------------------------------

/// The version of the install in a directory of that name, if it is one.
pub fn app_version(name: &str) -> (res: Option<Version>)
    ensures
        res is Some == text::begins(name@, "app-"@),
        res matches Some(v) ==> v@ == version_in(name@.skip("app-"@.len() as int)),
{
    match without_prefix(name, "app-") {
        Some(rest) => Some(Version::parse(rest.as_str())),
        None => None,
    }
}

/// The directory of a voice module revision.
pub open spec fn names_voice_module(name: Seq<char>) -> bool {
    text::begins(name, "discord_voice-"@)
}

pub fn is_voice_dir(name: &str) -> (res: bool)
    ensures
        res == names_voice_module(name@),
{
    begins_with(name, "discord_voice-")
}

/// Place `k` holds the last name in order, and the last of those that are equal.
pub open spec fn is_last_name(names: Seq<Seq<char>>, k: int) -> bool {
    &&& 0 <= k < names.len()
    &&& forall|j: int|
        0 <= j < names.len() ==> !lex_less(codes(names[k]), codes(#[trigger] names[j])) && (j > k
            ==> lex_less(codes(names[j]), codes(names[k])))
}

/// Of the voice module revisions that have a module, the one that is used: the
/// last by name.
pub fn last_name(names: &Vec<String>) -> (res: Option<usize>)
    ensures
        res is None <==> names@.len() == 0,
        res matches Some(k) ==> is_last_name(text::views(names@), k as int),
{
    if names.len() == 0 {
        return None;
    }
    let ghost all = text::views(names@);
    let mut best: usize = 0;
    let mut i: usize = 1;
    proof {
        assert(all.take(1)[0] == all[0]);
        lemma_lex_irreflexive(codes(all[0]));
        assert(is_last_name(all.take(1), 0));
    }
    while i < names.len()
        invariant
            1 <= i <= names@.len(),
            all == text::views(names@),
            best < i,
            is_last_name(all.take(i as int), best as int),
        decreases names@.len() - i,
    {
        let a = codes_of(names[i].as_str());
        let b = codes_of(names[best].as_str());
        let ghost shorter = all.take(i as int);
        let ghost longer = all.take(i + 1);
        assert(longer[i as int] == all[i as int]);
        assert(longer[best as int] == shorter[best as int]);
        proof {
            lemma_lex_total(a@, b@);
            lemma_lex_irreflexive(a@);
        }
        if !less(&a, &b) {
            proof {
                assert forall|j: int| 0 <= j < longer.len() implies !lex_less(
                    codes(longer[i as int]),
                    codes(#[trigger] longer[j]),
                ) && (j > i ==> lex_less(codes(longer[j]), codes(longer[i as int]))) by {
                    if j < i {
                        assert(longer[j] == shorter[j]);
                        assert(!lex_less(b@, codes(shorter[j])));
                        if lex_less(a@, codes(shorter[j])) {
                            if lex_less(b@, a@) {
                                lemma_lex_transitive(b@, a@, codes(shorter[j]));
                            }
                        }
                    }
                }
            }
            best = i;
        } else {
            proof {
                assert forall|j: int| 0 <= j < longer.len() implies !lex_less(
                    codes(longer[best as int]),
                    codes(#[trigger] longer[j]),
                ) && (j > best ==> lex_less(codes(longer[j]), codes(longer[best as int]))) by {
                    if j < i {
                        assert(longer[j] == shorter[j]);
                    }
                }
            }
        }
        i = i + 1;
    }
    assert(all.take(i as int) =~= all);
    Some(best)
}

/// The order in which installs are listed: by channel, then newest first.
pub open spec fn listed_before(a: InstallModel, b: InstallModel) -> bool {
    lex_less(codes(a.channel), codes(b.channel)) || (a.channel == b.channel && lex_less(
        b.version,
        a.version,
    ))
}

/// `order` with `x` put in behind everything that is not listed after it.
pub open spec fn put_in(order: Seq<int>, list: Seq<InstallModel>, x: int) -> Seq<int>
    decreases order.len(),
{
    if order.len() == 0 || !listed_before(list[x], list[order.last()]) {
        order.push(x)
    } else {
        put_in(order.drop_last(), list, x).push(order.last())
    }
}

/// The places of the first `n` installs, in listing order. Installs that neither
/// order puts first stay as they were found.
pub open spec fn order_below(list: Seq<InstallModel>, n: int) -> Seq<int>
    decreases n,
{
    if n <= 0 {
        seq![]
    } else {
        put_in(order_below(list, n - 1), list, n - 1)
    }
}

fn is_listed_before(a: &Install, b: &Install) -> (res: bool)
    ensures
        res == listed_before(a@, b@),
{
    let x = codes_of(a.channel.as_str());
    let y = codes_of(b.channel.as_str());
    less(&x, &y) || (str_eq(a.channel.as_str(), b.channel.as_str()) && b.version.before(
        &a.version,
    ))
}

proof fn lemma_put_in(order: Seq<int>, list: Seq<InstallModel>, x: int, p: int)
    requires
        0 <= p <= order.len(),
        p > 0 ==> !listed_before(list[x], list[order[p - 1]]),
        forall|k: int| p <= k < order.len() ==> listed_before(list[x], list[#[trigger] order[k]]),
    ensures
        put_in(order, list, x) == order.insert(p, x),
    decreases order.len() - p,
{
    if p == order.len() {
        assert(order.insert(p, x) =~= order.push(x));
    } else {
        assert(listed_before(list[x], list[order[order.len() - 1]]));
        lemma_put_in(order.drop_last(), list, x, p);
        assert(order.drop_last().insert(p, x).push(order.last()) =~= order.insert(p, x));
    }
}

pub open spec fn places(v: Seq<usize>) -> Seq<int> {
    v.map_values(|x: usize| x as int)
}

/// The places of all installs, newest version first within each channel.
pub fn listing_order(list: &Vec<Install>) -> (res: Vec<usize>)
    ensures
        places(res@) == order_below(install_views(list@), list@.len() as int),
        forall|k: int| 0 <= k < res@.len() ==> #[trigger] res@[k] < list@.len(),
{
    let ghost all = install_views(list@);
    let mut order: Vec<usize> = Vec::new();
    let mut i: usize = 0;
    assert(places(order@) =~= Seq::<int>::empty());
    while i < list.len()
        invariant
            i <= list@.len(),
            all == install_views(list@),
            places(order@) == order_below(all, i as int),
            forall|k: int| 0 <= k < order@.len() ==> #[trigger] order@[k] < i,
        decreases list@.len() - i,
    {
        let mut p: usize = order.len();
        while p > 0 && is_listed_before(&list[i], &list[order[p - 1]])
            invariant
                i < list@.len(),
                p <= order@.len(),
                all == install_views(list@),
                forall|k: int| 0 <= k < order@.len() ==> #[trigger] order@[k] < i,
                forall|k: int|
                    p <= k < order@.len() ==> listed_before(
                        all[i as int],
                        all[#[trigger] places(order@)[k]],
                    ),
            ensures
                p <= order@.len(),
                p > 0 ==> !listed_before(all[i as int], all[places(order@)[p - 1]]),
                forall|k: int|
                    p <= k < order@.len() ==> listed_before(
                        all[i as int],
                        all[#[trigger] places(order@)[k]],
                    ),
            decreases p,
        {
            p = p - 1;
        }
        proof {
            lemma_put_in(places(order@), all, i as int, p as int);
            assert(places(order@.insert(p as int, i)) =~= places(order@).insert(
                p as int,
                i as int,
            ));
        }
        let ghost before = order@;
        order.insert(p, i);
        assert forall|k: int| 0 <= k < order@.len() implies #[trigger] order@[k] < i + 1 by {
            if k < p {
                assert(order@[k] == before[k]);
            } else if k > p {
                assert(order@[k] == before[k - 1]);
            }
        }
        i = i + 1;
    }
    order
}

// ---------------------------------------------------------------------------
// Paths
// ---------------------------------------------------------------------------

/// One component of a path.
#[derive(Debug)]
pub enum Part {
    Root,
    Current,
    Parent,
    Name(String),
}

#[verifier::ext_equal]
pub enum PartModel {
    Root,
    Current,
    Parent,
    Name(Seq<char>),
}

impl View for Part {
    type V = PartModel;

    open spec fn view(&self) -> PartModel {
        match *self {
            Part::Root => PartModel::Root,
            Part::Current => PartModel::Current,
            Part::Parent => PartModel::Parent,
            Part::Name(s) => PartModel::Name(s@),
        }
    }
}

pub open spec fn part_views(path: Seq<Part>) -> Seq<PartModel> {
    path.map_values(|p: Part| p@)
}

/// How many components the directory that a path is in has, if it is in one.
pub open spec fn parent_len(path: Seq<PartModel>, n: int) -> Option<int> {
    if n > 0 && !(path[n - 1] is Root) {
        Some(n - 1)
    } else {
        None
    }
}

/// The name that the first `n` components end in, if they end in one.
pub open spec fn end_name(path: Seq<PartModel>, n: int) -> Option<Seq<char>> {
    if n > 0 {
        match path[n - 1] {
            PartModel::Name(s) => Some(s),
            _ => None,
        }
    } else {
        None
    }
}

/// The `modules/discord_voice-<n>` directory a voice module lives in. Anything
/// that is not shaped like it has none, so a surprising layout deletes nothing
/// rather than deleting the wrong thing.
pub open spec fn module_dir_of(node: Seq<PartModel>) -> Option<Seq<PartModel>> {
    match parent_len(node, node.len() as int) {
        None => None,
        Some(m) => match parent_len(node, m) {
            None => None,
            Some(n) => match end_name(node, n) {
                Some(name) => if names_voice_module(name) {
                    Some(node.take(n))
                } else {
                    None
                },
                None => None,
            },
        },
    }
}

fn copy_parts(path: &Vec<Part>, n: usize) -> (res: Vec<Part>)
    requires
        n <= path@.len(),
    ensures
        part_views(res@) == part_views(path@).take(n as int),
{
    let ghost all = part_views(path@);
    let mut out: Vec<Part> = Vec::new();
    let mut i: usize = 0;
    while i < n
        invariant
            i <= n <= path@.len(),
            all == part_views(path@),
            part_views(out@) == all.take(i as int),
        decreases n - i,
    {
        let part = match &path[i] {
            Part::Root => Part::Root,
            Part::Current => Part::Current,
            Part::Parent => Part::Parent,
            Part::Name(s) => Part::Name(s.clone()),
        };
        assert(part_views(out@.push(part)) =~= part_views(out@).push(part@));
        assert(all.take(i + 1) =~= all.take(i as int).push(all[i as int]));
        out.push(part);
        i = i + 1;
    }
    out
}

fn up(path: &Vec<Part>, n: usize) -> (res: Option<usize>)
    requires
        n <= path@.len(),
    ensures
        res is Some == parent_len(part_views(path@), n as int) is Some,
        res matches Some(m) ==> parent_len(part_views(path@), n as int) == Some(m as int),
{
    if n == 0 {
        return None;
    }
    assert(part_views(path@)[n - 1] == path@[n - 1]@);
    match &path[n - 1] {
        Part::Root => None,
        _ => Some(n - 1),
    }
}

fn name_at_end(path: &Vec<Part>, n: usize) -> (res: Option<&String>)
    requires
        n <= path@.len(),
    ensures
        res is Some == end_name(part_views(path@), n as int) is Some,
        res matches Some(s) ==> end_name(part_views(path@), n as int) == Some(s@),
{
    if n == 0 {
        return None;
    }
    assert(part_views(path@)[n - 1] == path@[n - 1]@);
    match &path[n - 1] {
        Part::Name(s) => Some(s),
        _ => None,
    }
}

/// The `modules/discord_voice-<n>` directory a voice module lives in.
///
/// That whole directory is the unit Discord's module updater installs and
/// replaces, so it is also the unit to delete when the point is to make it
/// fetch a fresh one.
pub fn module_dir(node: &Vec<Part>) -> (res: Option<Vec<Part>>)
    ensures
        res is Some == module_dir_of(part_views(node@)) is Some,
        res matches Some(dir) ==> module_dir_of(part_views(node@)) == Some(part_views(dir@)),
{
    match up(node, node.len()) {
        None => None,
        Some(m) => match up(node, m) {
            None => None,
            Some(n) => match name_at_end(node, n) {
                None => None,
                Some(name) => {
                    if is_voice_dir(name.as_str()) {
                        Some(copy_parts(node, n))
                    } else {
                        None
                    }
                },
            },
        },
    }
}

/// Whether the directory that a path is in has that name.
pub fn is_directly_under(path: &Vec<Part>, name: &str) -> (res: bool)
    ensures
        res == (parent_len(part_views(path@), path@.len() as int) matches Some(n) && end_name(
            part_views(path@),
            n,
        ) == Some(name@)),
{
    match up(path, path.len()) {
        None => false,
        Some(n) => match name_at_end(path, n) {
            None => false,
            Some(s) => str_eq(s.as_str(), name),
        },
    }
}

/// The name is the directory of a channel.
pub open spec fn is_channel_dir(name: Seq<char>) -> bool {
    exists|k: int| 0 <= k < channel_table().len() && (#[trigger] channel_table()[k]).0 == name
}

/// Discord's updater database for the install in a directory: beside the
/// `app-<version>` directories, in a channel directory that is known, so that a
/// path from somewhere unexpected cannot nominate a file for deletion.
pub open spec fn installer_db_of(app_dir: Seq<PartModel>) -> Option<Seq<PartModel>> {
    match parent_len(app_dir, app_dir.len() as int) {
        None => None,
        Some(n) => match end_name(app_dir, n) {
            Some(name) => if is_channel_dir(name) {
                Some(app_dir.take(n).push(PartModel::Name("installer.db"@)))
            } else {
                None
            },
            None => None,
        },
    }
}

fn names_channel(name: &str) -> (res: bool)
    ensures
        res == is_channel_dir(name@),
{
    let res = str_eq(name, "discord") || str_eq(name, "discordptb") || str_eq(
        name,
        "discordcanary",
    ) || str_eq(name, "discorddevelopment");
    proof {
        let t = channel_table();
        assert(t[0].0 == "discord"@);
        assert(t[1].0 == "discordptb"@);
        assert(t[2].0 == "discordcanary"@);
        assert(t[3].0 == "discorddevelopment"@);
    }
    res
}

/// Discord's updater database for the install in `app_dir`.
///
/// It sits beside the `app-<version>` directories, one per channel, and records
/// which host version and which modules are installed. Removing it is the only
/// thing that makes the updater fetch a fresh module.
pub fn installer_db(app_dir: &Vec<Part>) -> (res: Option<Vec<Part>>)
    ensures
        res is Some == installer_db_of(part_views(app_dir@)) is Some,
        res matches Some(db) ==> installer_db_of(part_views(app_dir@)) == Some(part_views(db@)),
{
    match up(app_dir, app_dir.len()) {
        None => None,
        Some(n) => match name_at_end(app_dir, n) {
            None => None,
            Some(name) => {
                if names_channel(name.as_str()) {
                    let mut out = copy_parts(app_dir, n);
                    let db = Part::Name("installer.db".to_owned());
                    assert(part_views(out@.push(db)) =~= part_views(out@).push(db@));
                    out.push(db);
                    Some(out)
                } else {
                    None
                }
            },
        },
    }
}

/// One of the names is a Discord module other than the voice module.
pub open spec fn has_other_module(names: Seq<Seq<char>>) -> bool {
    exists|k: int|
        0 <= k < names.len() && text::begins(#[trigger] names[k], "discord_"@)
            && !names_voice_module(names[k])
}

/// True when this install has modules but no voice module.
///
/// The difference matters, and neither the file system nor Discord will state
/// it. An install that has never been launched has an empty `modules/` and
/// simply needs starting; one whose `modules/` is full of everything *except*
/// the voice module had it removed, and Discord will not fetch it back on its
/// own: the updater's record still says it is installed. Telling the second
/// case to "launch Discord once" is advice that cannot work.
///
/// `modules` is what the `modules` directory holds, if it can be read.
pub fn voice_module_removed(has_node: bool, modules: &Option<Vec<String>>) -> (res: bool)
    ensures
        res == (!has_node && (modules matches Some(names) && has_other_module(
            text::views(names@),
        ))),
{
    if has_node {
        return false;
    }
    match modules {
        None => false,
        Some(names) => {
            let ghost all = text::views(names@);
            let mut k: usize = 0;
            while k < names.len()
                invariant
                    k <= names@.len(),
                    all == text::views(names@),
                    !has_node,
                    modules is Some && modules->0@ == names@,
                    forall|j: int|
                        0 <= j < k ==> !(text::begins(#[trigger] all[j], "discord_"@)
                            && !names_voice_module(all[j])),
                decreases names@.len() - k,
            {
                assert(all[k as int] == names@[k as int]@);
                if begins_with(names[k].as_str(), "discord_") && !is_voice_dir(names[k].as_str()) {
                    assert(has_other_module(all));
                    return true;
                }
                k = k + 1;
            }
            false
        },
    }
}

// ---------------------------------------------------------------------------
// Running processes
// ---------------------------------------------------------------------------

/// One entry of the process table: its name, and the command line if it could be
/// read.
pub struct Process {
    pub name: String,
    pub cmdline: Option<String>,
}

/// The process id of an entry that runs from `app_dir`.
pub open spec fn holder(p: Process, app_dir: Seq<char>) -> Option<u32> {
    match (text::u32_of(p.name@), p.cmdline) {
        (Some(pid), Some(line)) => if text::holds(line@, app_dir) {
            Some(pid)
        } else {
            None
        },
        _ => None,
    }
}

/// A rising list with `x` put in its place.
pub open spec fn put_number(s: Seq<u32>, x: u32) -> Seq<u32>
    decreases s.len(),
{
    if s.len() == 0 || s.last() <= x {
        s.push(x)
    } else {
        put_number(s.drop_last(), x).push(s.last())
    }
}

/// The ids of the first `n` entries that run from `app_dir`, in rising order.
pub open spec fn holders_below(list: Seq<Process>, app_dir: Seq<char>, n: int) -> Seq<u32>
    decreases n,
{
    if n <= 0 {
        seq![]
    } else {
        match holder(list[n - 1], app_dir) {
            Some(pid) => put_number(holders_below(list, app_dir, n - 1), pid),
            None => holders_below(list, app_dir, n - 1),
        }
    }
}

proof fn lemma_put_number(s: Seq<u32>, x: u32, p: int)
    requires
        0 <= p <= s.len(),
        p > 0 ==> s[p - 1] <= x,
        forall|k: int| p <= k < s.len() ==> #[trigger] s[k] > x,
    ensures
        put_number(s, x) == s.insert(p, x),
    decreases s.len() - p,
{
    if p == s.len() {
        assert(s.insert(p, x) =~= s.push(x));
    } else {
        assert(s[s.len() - 1] > x);
        lemma_put_number(s.drop_last(), x, p);
        assert(s.drop_last().insert(p, x).push(s.last()) =~= s.insert(p, x));
    }
}

/// PIDs of running Discord processes launched from `app_dir`.
///
/// A patch written while the client is running does not take effect: the old
/// image is already mapped, and the file the process reopens on restart may
/// well be a different one anyway. Only the executable itself, not helper
/// processes that merely mention the path in a flag, would be enough, but any
/// process holding the module mapped is a reason to stop, so the whole command
/// line is matched.
pub fn running_pids(processes: &Vec<Process>, app_dir: &str) -> (res: Vec<u32>)
    ensures
        res@ == holders_below(processes@, app_dir@, processes@.len() as int),
{
    let mut pids: Vec<u32> = Vec::new();
    let mut i: usize = 0;
    while i < processes.len()
        invariant
            i <= processes@.len(),
            pids@ == holders_below(processes@, app_dir@, i as int),
        decreases processes@.len() - i,
    {
        if let Some(pid) = parse_u32(processes[i].name.as_str()) {
            if let Some(line) = &processes[i].cmdline {
                if contains_str(line.as_str(), app_dir) {
                    let mut p: usize = pids.len();
                    while p > 0 && pids[p - 1] > pid
                        invariant
                            p <= pids@.len(),
                            forall|k: int| p <= k < pids@.len() ==> #[trigger] pids@[k] > pid,
                        ensures
                            p <= pids@.len(),
                            p > 0 ==> pids@[p - 1] <= pid,
                            forall|k: int| p <= k < pids@.len() ==> #[trigger] pids@[k] > pid,
                        decreases p,
                    {
                        p = p - 1;
                    }
                    proof {
                        lemma_put_number(pids@, pid, p as int);
                    }
                    pids.insert(p, pid);
                }
            }
        }
        i = i + 1;
    }
    pids
}

// ---------------------------------------------------------------------------
// Laws
// ---------------------------------------------------------------------------

/// Parsing undoes printing: every version reads back from its text.
pub proof fn law_versions_read_back(v: Seq<u32>)
    ensures
        version_in(version_text(v)) == v,
{
    let parts = v.map_values(|n: u32| text::decimal(n as nat));
    reveal_strlit(".");
    assert("."@ =~= seq!['.']);
    if v.len() == 0 {
        let none = Seq::<char>::empty();
        assert(version_text(v) == none);
        assert(text::split_on(none, '.') =~= seq![none]);
        assert(numbers(seq![none]) =~= v) by {
            assert(seq![none].drop_last() =~= Seq::<Seq<char>>::empty());
            reveal_with_fuel(numbers, 2);
        }
    } else {
        assert forall|k: int, i: int|
            0 <= k < parts.len() && 0 <= i < parts[k].len() implies #[trigger] parts[k][i] != '.' by {
            text::lemma_decimal_digits(v[k] as nat);
            assert(text::is_digit(text::decimal(v[k] as nat)[i]));
        }
        text::law_splitting_undoes_joining(parts, '.');
        lemma_numbers_read_back(v);
    }
}

proof fn lemma_numbers_read_back(v: Seq<u32>)
    ensures
        numbers(v.map_values(|n: u32| text::decimal(n as nat))) == v,
    decreases v.len(),
{
    let parts = v.map_values(|n: u32| text::decimal(n as nat));
    if v.len() > 0 {
        lemma_numbers_read_back(v.drop_last());
        assert(parts.drop_last() =~= v.drop_last().map_values(|n: u32| text::decimal(n as nat)));
        text::law_decimals_read_back(v.last());
        assert(parts.last() == text::decimal(v.last() as nat));
        assert(v.drop_last().push(v.last()) =~= v);
    } else {
        assert(parts =~= Seq::<Seq<char>>::empty());
    }
}

/// Every install is listed exactly once.
pub proof fn law_every_install_is_listed_once(list: Seq<InstallModel>, n: int)
    requires
        0 <= n,
    ensures
        order_below(list, n).len() == n,
        order_below(list, n).no_duplicates(),
        forall|k: int| 0 <= k < n ==> #[trigger] order_below(list, n).contains(k),
        forall|j: int| 0 <= j < n ==> 0 <= #[trigger] order_below(list, n)[j] < n,
    decreases n,
{
    if n > 0 {
        law_every_install_is_listed_once(list, n - 1);
        let before = order_below(list, n - 1);
        lemma_put_in_keeps(before, list, n - 1);
        let all = order_below(list, n);
        assert forall|k: int| 0 <= k < n implies #[trigger] all.contains(k) by {
            if k < n - 1 {
                assert(before.contains(k));
            }
        }
        assert forall|j: int| 0 <= j < n implies 0 <= #[trigger] all[j] < n by {
            assert(all.contains(all[j]));
            if all[j] != n - 1 {
                assert(before.contains(all[j]));
            }
        }
    }
}

proof fn lemma_put_in_keeps(order: Seq<int>, list: Seq<InstallModel>, x: int)
    requires
        order.no_duplicates(),
        !order.contains(x),
    ensures
        put_in(order, list, x).len() == order.len() + 1,
        put_in(order, list, x).no_duplicates(),
        forall|k: int|
            #[trigger] put_in(order, list, x).contains(k) <==> (k == x || order.contains(k)),
    decreases order.len(),
{
    let out = put_in(order, list, x);
    if order.len() == 0 || !listed_before(list[x], list[order.last()]) {
        assert(out == order.push(x));
        assert forall|k: int| #[trigger] out.contains(k) <==> (k == x || order.contains(k)) by {
            if order.contains(k) {
                let j = choose|j: int| 0 <= j < order.len() && order[j] == k;
                assert(out[j] == k);
            }
            if k == x {
                assert(out[order.len() as int] == k);
            }
            if out.contains(k) {
                let j = choose|j: int| 0 <= j < out.len() && out[j] == k;
                if j < order.len() {
                    assert(order[j] == k);
                }
            }
        }
    } else {
        let shorter = order.drop_last();
        assert forall|k: int| shorter.contains(k) implies order.contains(k) by {
            let j = choose|j: int| 0 <= j < shorter.len() && shorter[j] == k;
            assert(order[j] == k);
        }
        lemma_put_in_keeps(shorter, list, x);
        let inner = put_in(shorter, list, x);
        let last = order.last();
        assert(order[order.len() - 1] == last);
        assert(!shorter.contains(last)) by {
            if shorter.contains(last) {
                let j = choose|j: int| 0 <= j < shorter.len() && shorter[j] == last;
                assert(order[j] == order[order.len() - 1]);
            }
        }
        assert(last != x) by {
            assert(order.contains(last));
        }
        assert(!inner.contains(last));
        assert forall|k: int| #[trigger] out.contains(k) <==> (k == x || order.contains(k)) by {
            if out.contains(k) {
                let j = choose|j: int| 0 <= j < out.len() && out[j] == k;
                if j < inner.len() {
                    assert(inner.contains(k)) by {
                        assert(inner[j] == k);
                    }
                }
            }
            if k == x || order.contains(k) {
                if k == last {
                    assert(out[inner.len() as int] == k);
                } else {
                    if k != x {
                        let j = choose|j: int| 0 <= j < order.len() && order[j] == k;
                        assert(shorter[j] == k);
                    }
                    assert(inner.contains(k));
                    let j = choose|j: int| 0 <= j < inner.len() && inner[j] == k;
                    assert(out[j] == k);
                }
            }
        }
        assert forall|i: int, j: int| 0 <= i < j < out.len() implies out[i] != out[j] by {
            assert(inner.contains(inner[i]));
            if j < inner.len() {
                assert(inner[i] != inner[j]);
            }
        }
    }
}

/// Listing order is a strict weak order: what is not before stays not before.
proof fn lemma_not_before_transitive(a: InstallModel, b: InstallModel, c: InstallModel)
    requires
        !listed_before(a, b),
        !listed_before(b, c),
    ensures
        !listed_before(a, c),
{
    let (x, y, z) = (codes(a.channel), codes(b.channel), codes(c.channel));
    lemma_lex_total(x, y);
    lemma_lex_total(y, z);
    lemma_lex_total(x, z);
    lemma_lex_transitive(z, y, x);
    lemma_lex_irreflexive(x);
    lemma_lex_irreflexive(y);
    if x == y {
        lemma_codes_injective(a.channel, b.channel);
    }
    if y == z {
        lemma_codes_injective(b.channel, c.channel);
    }
    if x == z {
        lemma_codes_injective(a.channel, c.channel);
    }
    lemma_lex_total(a.version, b.version);
    lemma_lex_total(b.version, c.version);
    lemma_lex_total(a.version, c.version);
    lemma_lex_transitive(a.version, b.version, c.version);
    lemma_lex_irreflexive(a.version);
}

proof fn lemma_put_in_sorted(order: Seq<int>, list: Seq<InstallModel>, x: int)
    requires
        forall|i: int, j: int|
            0 <= i < j < order.len() ==> !listed_before(
                list[#[trigger] order[j]],
                list[#[trigger] order[i]],
            ),
    ensures
        forall|i: int, j: int|
            0 <= i < j < put_in(order, list, x).len() ==> !listed_before(
                list[#[trigger] put_in(order, list, x)[j]],
                list[#[trigger] put_in(order, list, x)[i]],
            ),
        forall|j: int|
            0 <= j < put_in(order, list, x).len() ==> #[trigger] put_in(order, list, x)[j] == x
                || order.contains(put_in(order, list, x)[j]),
    decreases order.len(),
{
    let out = put_in(order, list, x);
    if order.len() == 0 || !listed_before(list[x], list[order.last()]) {
        assert forall|i: int, j: int| 0 <= i < j < out.len() implies !listed_before(
            list[#[trigger] out[j]],
            list[#[trigger] out[i]],
        ) by {
            if j == order.len() {
                if i < order.len() - 1 {
                    assert(!listed_before(list[order[order.len() - 1]], list[order[i]]));
                    lemma_not_before_transitive(list[x], list[order.last()], list[order[i]]);
                }
            } else {
                assert(!listed_before(list[order[j]], list[order[i]]));
            }
        }
        assert forall|j: int| 0 <= j < out.len() implies #[trigger] out[j] == x
            || order.contains(out[j]) by {
            if j < order.len() {
                assert(order[j] == out[j]);
            }
        }
    } else {
        let shorter = order.drop_last();
        assert forall|i: int, j: int| 0 <= i < j < shorter.len() implies !listed_before(
            list[#[trigger] shorter[j]],
            list[#[trigger] shorter[i]],
        ) by {
            assert(!listed_before(list[order[j]], list[order[i]]));
        }
        lemma_put_in_sorted(shorter, list, x);
        let inner = put_in(shorter, list, x);
        let last = order.last();
        lemma_lex_total(codes(list[x].channel), codes(list[last].channel));
        lemma_lex_irreflexive(codes(list[x].channel));
        lemma_lex_total(list[x].version, list[last].version);
        assert(!listed_before(list[last], list[x]));
        assert forall|i: int, j: int| 0 <= i < j < out.len() implies !listed_before(
            list[#[trigger] out[j]],
            list[#[trigger] out[i]],
        ) by {
            if j == inner.len() {
                assert(inner[i] == x || shorter.contains(inner[i]));
                if inner[i] != x {
                    let k = choose|k: int| 0 <= k < shorter.len() && shorter[k] == inner[i];
                    assert(!listed_before(list[order[order.len() - 1]], list[order[k]]));
                }
            } else {
                assert(!listed_before(list[inner[j]], list[inner[i]]));
            }
        }
        assert forall|j: int| 0 <= j < out.len() implies #[trigger] out[j] == x
            || order.contains(out[j]) by {
            if j < inner.len() {
                assert(inner[j] == x || shorter.contains(inner[j]));
                if inner[j] != x {
                    let k = choose|k: int| 0 <= k < shorter.len() && shorter[k] == inner[j];
                    assert(order[k] == out[j]);
                }
            } else {
                assert(order[order.len() - 1] == out[j]);
            }
        }
    }
}

/// Installs are listed newest version first within each channel.
pub proof fn law_newest_first_within_a_channel(list: Seq<InstallModel>, n: int, i: int, j: int)
    requires
        0 <= i < j < order_below(list, n).len(),
    ensures
        ({
            let first = list[order_below(list, n)[i]];
            let second = list[order_below(list, n)[j]];
            &&& !lex_less(codes(second.channel), codes(first.channel))
            &&& first.channel == second.channel ==> !lex_less(first.version, second.version)
        }),
{
    lemma_order_sorted(list, n);
    assert(!listed_before(list[order_below(list, n)[j]], list[order_below(list, n)[i]]));
}

proof fn lemma_order_sorted(list: Seq<InstallModel>, n: int)
    ensures
        forall|i: int, j: int|
            0 <= i < j < order_below(list, n).len() ==> !listed_before(
                list[#[trigger] order_below(list, n)[j]],
                list[#[trigger] order_below(list, n)[i]],
            ),
    decreases n,
{
    if n > 0 {
        lemma_order_sorted(list, n - 1);
        lemma_put_in_sorted(order_below(list, n - 1), list, n - 1);
    }
}

/// The directory that may be deleted is always the one two levels above the
/// module, and is always named as a voice module's is.
pub proof fn law_module_dir_is_a_voice_module_dir(node: Seq<PartModel>)
    ensures
        module_dir_of(node) matches Some(dir) ==> {
            &&& dir.len() + 2 == node.len()
            &&& dir == node.take(dir.len() as int)
            &&& end_name(dir, dir.len() as int) matches Some(name) && names_voice_module(name)
        },
{
}

/// Nothing outside a known channel's directory is ever taken for the updater's
/// database, and the file is always called `installer.db`.
pub proof fn law_installer_db_is_in_a_channel_dir(app_dir: Seq<PartModel>)
    ensures
        installer_db_of(app_dir) matches Some(db) ==> {
            &&& end_name(db, db.len() as int) == Some("installer.db"@)
            &&& end_name(db, db.len() - 1) matches Some(name) && is_channel_dir(name)
        },
{
    if let Some(db) = installer_db_of(app_dir) {
        let n = app_dir.len() - 1;
        assert(db[db.len() - 2] == app_dir[n - 1]);
    }
}

} // verus!
