//! The opening list: every install, every channel that is not installed, and the
//! way in for a module named by path.

use super::theme;
use super::theme::bytes;
use crate::discovery;
use crate::discovery::{known_channels, Install, InstallModel};
use crate::text;
use crate::text::{cat2, str_eq};
use vstd::prelude::*;

verus! {

// ---------------------------------------------------------------------------
// Rows
// ---------------------------------------------------------------------------

/// One row of the opening list.
pub enum Kind {
    /// An install with a voice module ready to work on.
    Ready { install: Install, node: String },
    /// An install with no voice module. `removed` distinguishes the two ways
    /// that happens: `false` means Discord has simply not downloaded it yet and
    /// launching once is the answer, `true` means it was deleted and Discord
    /// will not fetch it back on its own — which is a state only this tool can
    /// get it out of.
    NoModule { install: Install, removed: bool },
    /// A channel this tool knows about that is not installed here.
    NotInstalled,
    /// A module the user named by path.
    Loose { install: Install, node: String },
    /// The row that asks for such a path.
    AskForPath,
}

#[verifier::ext_equal]
pub enum KindModel {
    Ready { install: InstallModel, node: Seq<char> },
    NoModule { install: InstallModel, removed: bool },
    NotInstalled,
    Loose { install: InstallModel, node: Seq<char> },
    AskForPath,
}

impl View for Kind {
    type V = KindModel;

    open spec fn view(&self) -> KindModel {
        match *self {
            Kind::Ready { install, node } => KindModel::Ready { install: install@, node: node@ },
            Kind::NoModule { install, removed } => KindModel::NoModule {
                install: install@,
                removed,
            },
            Kind::NotInstalled => KindModel::NotInstalled,
            Kind::Loose { install, node } => KindModel::Loose { install: install@, node: node@ },
            Kind::AskForPath => KindModel::AskForPath,
        }
    }
}

pub struct Target {
    pub label: String,
    pub detail: String,
    pub kind: Kind,
}

#[verifier::ext_equal]
pub struct TargetModel {
    pub label: Seq<char>,
    pub detail: Seq<char>,
    pub kind: KindModel,
}

impl View for Target {
    type V = TargetModel;

    open spec fn view(&self) -> TargetModel {
        TargetModel { label: self.label@, detail: self.detail@, kind: self.kind@ }
    }
}

pub open spec fn target_views(list: Seq<Target>) -> Seq<TargetModel> {
    Seq::new(list.len(), |i: int| list[i]@)
}

pub open spec fn can_select(t: TargetModel) -> bool {
    match t.kind {
        KindModel::Ready { .. } => true,
        KindModel::NoModule { removed, .. } => removed,
        KindModel::NotInstalled => false,
        KindModel::Loose { .. } => true,
        KindModel::AskForPath => true,
    }
}

pub open spec fn install_of(t: TargetModel) -> Option<InstallModel> {
    match t.kind {
        KindModel::Ready { install, .. } => Some(install),
        KindModel::NoModule { install, .. } => Some(install),
        KindModel::Loose { install, .. } => Some(install),
        KindModel::NotInstalled => None,
        KindModel::AskForPath => None,
    }
}

pub open spec fn node_of(t: TargetModel) -> Option<Seq<char>> {
    match t.kind {
        KindModel::Ready { node, .. } => Some(node),
        KindModel::Loose { node, .. } => Some(node),
        KindModel::NoModule { .. } => None,
        KindModel::NotInstalled => None,
        KindModel::AskForPath => None,
    }
}

/// The directory of the install that a row stands for.
pub open spec fn dir_of(t: TargetModel) -> Option<Seq<char>> {
    match install_of(t) {
        Some(install) => Some(install.app_dir),
        None => None,
    }
}

/// Two rows of two lists stand for the same thing: the label is the same, and so is
/// the directory of the install, which tells two installs of one version apart.
pub open spec fn same_row(a: TargetModel, b: TargetModel) -> bool {
    a.label == b.label && dir_of(a) == dir_of(b)
}

impl Target {
    /// Whether two rows of two lists stand for the same thing.
    pub fn is_same_row(&self, other: &Target) -> (res: bool)
        ensures
            res == same_row(self@, other@),
    {
        if !str_eq(self.label.as_str(), other.label.as_str()) {
            return false;
        }
        match (self.install(), other.install()) {
            (Some(a), Some(b)) => str_eq(a.app_dir.as_str(), b.app_dir.as_str()),
            (None, None) => true,
            _ => false,
        }
    }

    /// Whether the cursor may land on this row at all.
    ///
    /// An install whose module was deleted is selectable even though there is
    /// nothing to read there: the way out of that state is on its manage
    /// screen, and a row you cannot reach is a dead end.
    pub fn selectable(&self) -> (res: bool)
        ensures
            res == can_select(self@),
    {
        match &self.kind {
            Kind::Ready { .. } => true,
            Kind::NoModule { removed, .. } => *removed,
            Kind::NotInstalled => false,
            Kind::Loose { .. } => true,
            Kind::AskForPath => true,
        }
    }

    pub fn install(&self) -> (res: Option<&Install>)
        ensures
            res is Some == install_of(self@) is Some,
            res matches Some(i) ==> install_of(self@) == Some(i@),
    {
        match &self.kind {
            Kind::Ready { install, .. } => Some(install),
            Kind::NoModule { install, .. } => Some(install),
            Kind::Loose { install, .. } => Some(install),
            Kind::NotInstalled => None,
            Kind::AskForPath => None,
        }
    }

    /// A real Discord install, as opposed to a module named by path. Only these
    /// have an updater behind them to be told anything.
    pub fn is_install(&self) -> (res: bool)
        ensures
            res == (self@.kind is Ready || self@.kind is NoModule),
    {
        match &self.kind {
            Kind::Ready { .. } => true,
            Kind::NoModule { .. } => true,
            _ => false,
        }
    }

    pub fn node(&self) -> (res: Option<&String>)
        ensures
            res is Some == node_of(self@) is Some,
            res matches Some(n) ==> node_of(self@) == Some(n@),
    {
        match &self.kind {
            Kind::Ready { node, .. } => Some(node),
            Kind::Loose { node, .. } => Some(node),
            _ => None,
        }
    }
}

// ---------------------------------------------------------------------------
// Building the list
// ---------------------------------------------------------------------------

/// What was found on disk of one install.
pub struct Found {
    pub install: Install,
    /// The size of its module, where it has one.
    pub size: u64,
    pub backup: bool,
    /// Whether a module that is not there was deleted.
    pub removed: bool,
}

#[verifier::ext_equal]
pub struct FoundModel {
    pub install: InstallModel,
    pub size: int,
    pub backup: bool,
    pub removed: bool,
}

impl View for Found {
    type V = FoundModel;

    open spec fn view(&self) -> FoundModel {
        FoundModel {
            install: self.install@,
            size: self.size as int,
            backup: self.backup,
            removed: self.removed,
        }
    }
}

pub open spec fn found_views(list: Seq<Found>) -> Seq<FoundModel> {
    Seq::new(list.len(), |i: int| list[i]@)
}

/// A module named by path whose file is there.
pub struct LooseFile {
    pub path: String,
    pub found: Found,
}

#[verifier::ext_equal]
pub struct LooseModel {
    pub path: Seq<char>,
    pub found: FoundModel,
}

impl View for LooseFile {
    type V = LooseModel;

    open spec fn view(&self) -> LooseModel {
        LooseModel { path: self.path@, found: self.found@ }
    }
}

pub open spec fn loose_view(loose: Option<LooseFile>) -> Option<LooseModel> {
    match loose {
        Some(f) => Some(f@),
        None => None,
    }
}

pub const MODULE_GONE: &'static str =
    "voice module missing — Discord will not fetch it back on its own";

pub const MODULE_NOT_YET: &'static str = "no voice module yet — launch Discord once";

pub open spec fn backup_note(backup: bool) -> Seq<char> {
    if backup {
        " · backup on record"@
    } else {
        ""@
    }
}

/// The row of an install.
pub open spec fn install_row(f: FoundModel) -> TargetModel {
    let label = discovery::label_of(f.install);
    match f.install.node {
        Some(node) => TargetModel {
            label,
            detail: theme::size_text(f.size) + backup_note(f.backup),
            kind: KindModel::Ready { install: f.install, node },
        },
        None => TargetModel {
            label,
            detail: if f.removed {
                MODULE_GONE@
            } else {
                MODULE_NOT_YET@
            },
            kind: KindModel::NoModule { install: f.install, removed: f.removed },
        },
    }
}

/// The row of a channel that is not installed.
pub open spec fn absent_row(channel: Seq<char>) -> TargetModel {
    TargetModel { label: channel, detail: "not installed"@, kind: KindModel::NotInstalled }
}

/// The row of a module named by path.
pub open spec fn loose_row(l: LooseModel) -> TargetModel {
    TargetModel {
        label: discovery::label_of(l.found.install),
        detail: theme::size_text(l.found.size) + backup_note(l.found.backup) + " · "@ + l.path,
        kind: KindModel::Loose { install: l.found.install, node: l.path },
    }
}

/// The row that asks for a path.
pub open spec fn path_row() -> TargetModel {
    TargetModel {
        label: "Another module, by path"@,
        detail: "for a custom client using Discord's module"@,
        kind: KindModel::AskForPath,
    }
}

/// The rows of the installs of a channel, among the first `n`.
pub open spec fn channel_rows(found: Seq<FoundModel>, channel: Seq<char>, n: int) -> Seq<
    TargetModel,
>
    decreases n,
{
    if n <= 0 {
        seq![]
    } else if found[n - 1].install.channel == channel {
        channel_rows(found, channel, n - 1).push(install_row(found[n - 1]))
    } else {
        channel_rows(found, channel, n - 1)
    }
}

/// The rows of a channel: its installs, or that there is none.
pub open spec fn rows_for(found: Seq<FoundModel>, channel: Seq<char>) -> Seq<TargetModel> {
    let mine = channel_rows(found, channel, found.len() as int);
    if mine.len() == 0 {
        seq![absent_row(channel)]
    } else {
        mine
    }
}

/// The rows of the first `n` channels.
pub open spec fn all_rows(found: Seq<FoundModel>, channels: Seq<Seq<char>>, n: int) -> Seq<
    TargetModel,
>
    decreases n,
{
    if n <= 0 {
        seq![]
    } else {
        all_rows(found, channels, n - 1) + rows_for(found, channels[n - 1])
    }
}

/// The opening list.
pub open spec fn opening_list(found: Seq<FoundModel>, loose: Option<LooseModel>) -> Seq<
    TargetModel,
> {
    let channels = discovery::channel_names();
    let rows = all_rows(found, channels, channels.len() as int);
    (match loose {
        Some(l) => rows.push(loose_row(l)),
        None => rows,
    }).push(path_row())
}

fn push_target(list: &mut Vec<Target>, t: Target)
    ensures
        target_views(final(list)@) == target_views(old(list)@).push(t@),
{
    let ghost before = target_views(list@);
    list.push(t);
    assert(target_views(list@) =~= before.push(t@));
}

fn size_detail(f: &Found) -> (res: String)
    ensures
        res@ == theme::size_text(f@.size) + backup_note(f@.backup),
{
    let backup = if f.backup {
        " · backup on record"
    } else {
        ""
    };
    cat2(bytes(f.size).as_str(), backup)
}

fn row_of(f: &Found) -> (res: Target)
    ensures
        res@ == install_row(f@),
{
    let label = f.install.label();
    match &f.install.node {
        Some(node) => Target {
            label,
            detail: size_detail(f),
            kind: Kind::Ready { install: f.install.copied(), node: node.clone() },
        },
        None => Target {
            label,
            detail: if f.removed {
                MODULE_GONE.to_owned()
            } else {
                MODULE_NOT_YET.to_owned()
            },
            kind: Kind::NoModule { install: f.install.copied(), removed: f.removed },
        },
    }
}

fn push_channel(list: &mut Vec<Target>, found: &Vec<Found>, channel: &str)
    ensures
        target_views(final(list)@) == target_views(old(list)@) + rows_for(
            found_views(found@),
            channel@,
        ),
{
    let ghost before = target_views(list@);
    let ghost all = found_views(found@);
    let mut any = false;
    let mut i: usize = 0;
    assert(before + channel_rows(all, channel@, 0) =~= before);
    while i < found.len()
        invariant
            i <= found@.len(),
            all == found_views(found@),
            any == (channel_rows(all, channel@, i as int).len() > 0),
            target_views(list@) == before + channel_rows(all, channel@, i as int),
        decreases found@.len() - i,
    {
        assert(all[i as int] == found@[i as int]@);
        if str_eq(found[i].install.channel.as_str(), channel) {
            let t = row_of(&found[i]);
            assert(before + channel_rows(all, channel@, i + 1) =~= (before + channel_rows(
                all,
                channel@,
                i as int,
            )).push(t@));
            push_target(list, t);
            any = true;
        }
        i = i + 1;
    }
    if !any {
        let t = Target {
            label: channel.to_owned(),
            detail: "not installed".to_owned(),
            kind: Kind::NotInstalled,
        };
        push_target(list, t);
        assert(target_views(list@) =~= before + seq![absent_row(channel@)]);
    }
}

/// Build the opening list: every install found, every channel that is not
/// installed, a module named by path if there is one, and the way in for
/// naming another.
///
/// A module named by path survives as long as the file does. Dropping it after
/// every write would take the reader back to this screen straight after patching,
/// which is the one moment they want to see the readout.
pub fn build_targets(found: &Vec<Found>, loose: &Option<LooseFile>) -> (res: Vec<Target>)
    ensures
        target_views(res@) == opening_list(found_views(found@), loose_view(*loose)),
{
    let channels = known_channels();
    let ghost names = discovery::channel_names();
    let ghost all = found_views(found@);
    let mut out: Vec<Target> = Vec::new();
    let mut i: usize = 0;
    assert(text::str_views(channels@).len() == channels@.len());
    assert(target_views(out@) =~= all_rows(all, names, 0));
    while i < channels.len()
        invariant
            i <= channels@.len(),
            all == found_views(found@),
            text::str_views(channels@) == names,
            target_views(out@) == all_rows(all, names, i as int),
        decreases channels@.len() - i,
    {
        assert(text::str_views(channels@)[i as int] == channels@[i as int]@);
        push_channel(&mut out, found, channels[i]);
        i = i + 1;
    }
    if let Some(file) = loose {
        let detail = size_detail(&file.found);
        push_target(
            &mut out,
            Target {
                label: file.found.install.label(),
                detail: text::cat3(detail.as_str(), " · ", file.path.as_str()),
                kind: Kind::Loose { install: file.found.install.copied(), node: file.path.clone() },
            },
        );
    }
    push_target(
        &mut out,
        Target {
            label: "Another module, by path".to_owned(),
            detail: "for a custom client using Discord's module".to_owned(),
            kind: Kind::AskForPath,
        },
    );
    out
}

// ---------------------------------------------------------------------------
// Moving about
// ---------------------------------------------------------------------------

#[derive(PartialEq, Eq, Clone, Copy, Structural)]
pub enum Way {
    Up,
    Down,
}

/// The neighbour of row `i`, where the ends of the list meet.
pub open spec fn neighbour(i: int, n: int, way: Way) -> int {
    match way {
        Way::Down => (i + 1) % n,
        Way::Up => (i - 1) % n,
    }
}

/// The first row that can be selected, looking at `tries` rows from row `i` on.
pub open spec fn selectable_from(list: Seq<TargetModel>, i: int, way: Way, tries: int) -> Option<
    int,
>
    decreases tries,
{
    if tries <= 0 {
        None
    } else if can_select(list[i]) {
        Some(i)
    } else {
        selectable_from(list, neighbour(i, list.len() as int, way), way, tries - 1)
    }
}

/// Where the cursor goes from row `i`: to the nearest row that can be selected,
/// if there is one.
pub open spec fn moved_from(list: Seq<TargetModel>, i: int, way: Way) -> int {
    let n = list.len() as int;
    match selectable_from(list, neighbour(i, n, way), way, n) {
        Some(k) => k,
        None => i,
    }
}

/// The first row that can be selected, or the first row of all.
pub open spec fn first_choice(list: Seq<TargetModel>) -> int {
    match selectable_from(list, 0, Way::Down, list.len() as int) {
        Some(k) => k,
        None => 0,
    }
}

/// The row next to row `i`.
pub fn beside(i: usize, n: usize, way: Way) -> (res: usize)
    requires
        0 < n,
    ensures
        res == neighbour(i as int, n as int, way),
        res < n,
{
    match way {
        Way::Down => ((i as u128 + 1) % (n as u128)) as usize,
        Way::Up => if i == 0 {
            assert((0 - 1) % (n as int) == n - 1) by {
                vstd::arithmetic::div_mod::lemma_small_mod((n - 1) as nat, n as nat);
                vstd::arithmetic::div_mod::lemma_mod_add_multiples_vanish(-1, n as int);
            }
            n - 1
        } else {
            (i - 1) % n
        },
    }
}

/// The first row that can be selected, from row `from` on.
pub fn next_selectable(list: &Vec<Target>, from: usize, way: Way) -> (res: Option<usize>)
    requires
        list@.len() == 0 || from < list@.len(),
    ensures
        res is Some == selectable_from(
            target_views(list@),
            from as int,
            way,
            list@.len() as int,
        ) is Some,
        res matches Some(k) ==> k < list@.len() && selectable_from(
            target_views(list@),
            from as int,
            way,
            list@.len() as int,
        ) == Some(k as int),
{
    let n: usize = list.len();
    let ghost all = target_views(list@);
    let mut i: usize = from;
    let mut left: usize = n;
    while left > 0
        invariant
            n == list@.len(),
            all == target_views(list@),
            left <= n,
            left > 0 ==> i < n,
            selectable_from(all, from as int, way, n as int) == selectable_from(
                all,
                i as int,
                way,
                left as int,
            ),
        decreases left,
    {
        assert(all[i as int] == list@[i as int]@);
        if list[i].selectable() {
            return Some(i);
        }
        i = beside(i, n, way);
        left = left - 1;
    }
    None
}

/// Where the cursor goes from row `from`.
pub fn moved(list: &Vec<Target>, from: usize, way: Way) -> (res: usize)
    ensures
        res == moved_from(target_views(list@), from as int, way),
{
    if list.len() == 0 {
        return from;
    }
    match next_selectable(list, beside(from, list.len(), way), way) {
        Some(k) => k,
        None => from,
    }
}

// ---------------------------------------------------------------------------
// Laws
// ---------------------------------------------------------------------------

/// The list always ends in the row that asks for a path, and that row can be
/// selected: even with nothing installed there is a way past the first screen.
pub proof fn law_the_opening_list_always_offers_a_way_in(
    found: Seq<FoundModel>,
    loose: Option<LooseModel>,
)
    ensures
        opening_list(found, loose).len() > 0,
        opening_list(found, loose).last() == path_row(),
        can_select(path_row()),
        selectable_from(
            opening_list(found, loose),
            0,
            Way::Down,
            opening_list(found, loose).len() as int,
        ) is Some,
        can_select(opening_list(found, loose)[first_choice(opening_list(found, loose))]),
{
    let list = opening_list(found, loose);
    lemma_down_finds(list, 0, list.len() - 1, list.len() as int);
    lemma_found_is_selectable(list, 0, Way::Down, list.len() as int);
}

proof fn lemma_down_finds(list: Seq<TargetModel>, i: int, k: int, tries: int)
    requires
        0 <= i <= k < list.len(),
        can_select(list[k]),
        k - i < tries,
    ensures
        selectable_from(list, i, Way::Down, tries) is Some,
    decreases tries,
{
    if !can_select(list[i]) {
        vstd::arithmetic::div_mod::lemma_small_mod((i + 1) as nat, list.len());
        lemma_down_finds(list, i + 1, k, tries - 1);
    }
}

proof fn lemma_found_is_selectable(list: Seq<TargetModel>, i: int, way: Way, tries: int)
    requires
        0 <= i < list.len(),
    ensures
        selectable_from(list, i, way, tries) matches Some(k) ==> 0 <= k < list.len()
            && can_select(list[k]),
    decreases tries,
{
    if tries > 0 && !can_select(list[i]) {
        lemma_found_is_selectable(list, neighbour(i, list.len() as int, way), way, tries - 1);
    }
}

/// The cursor only ever moves to a row that can be selected, and never off the
/// list.
pub proof fn law_the_cursor_lands_on_selectable_rows(list: Seq<TargetModel>, i: int, way: Way)
    requires
        0 <= i < list.len(),
    ensures
        0 <= moved_from(list, i, way) < list.len(),
        can_select(list[moved_from(list, i, way)]) || moved_from(list, i, way) == i,
{
    let n = list.len() as int;
    lemma_found_is_selectable(list, neighbour(i, n, way), way, n);
}

proof fn lemma_channel_rows_hold(found: Seq<FoundModel>, channel: Seq<char>, n: int, k: int)
    requires
        0 <= k < n <= found.len(),
        found[k].install.channel == channel,
    ensures
        channel_rows(found, channel, n).contains(install_row(found[k])),
    decreases n,
{
    let row = install_row(found[k]);
    let list = channel_rows(found, channel, n);
    if k == n - 1 {
        assert(list[list.len() - 1] == row);
    } else {
        lemma_channel_rows_hold(found, channel, n - 1, k);
        let before = channel_rows(found, channel, n - 1);
        let i = choose|i: int| 0 <= i < before.len() && before[i] == row;
        assert(list[i] == row);
    }
}

proof fn lemma_rows_hold(
    found: Seq<FoundModel>,
    channels: Seq<Seq<char>>,
    n: int,
    c: int,
    row: TargetModel,
)
    requires
        0 <= c < n <= channels.len(),
        rows_for(found, channels[c]).contains(row),
    ensures
        all_rows(found, channels, n).contains(row),
    decreases n,
{
    let mine = rows_for(found, channels[n - 1]);
    let before = all_rows(found, channels, n - 1);
    let list = all_rows(found, channels, n);
    if c == n - 1 {
        let i = choose|i: int| 0 <= i < mine.len() && mine[i] == row;
        assert(list[before.len() + i] == row);
    } else {
        lemma_rows_hold(found, channels, n - 1, c, row);
        let i = choose|i: int| 0 <= i < before.len() && before[i] == row;
        assert(list[i] == row);
    }
}

/// Every install of a known channel has its row.
pub proof fn law_every_install_has_a_row(
    found: Seq<FoundModel>,
    loose: Option<LooseModel>,
    k: int,
)
    requires
        0 <= k < found.len(),
        discovery::channel_names().contains(found[k].install.channel),
    ensures
        opening_list(found, loose).contains(install_row(found[k])),
{
    let channels = discovery::channel_names();
    let row = install_row(found[k]);
    let c = choose|c: int| 0 <= c < channels.len() && channels[c] == found[k].install.channel;
    lemma_channel_rows_hold(found, channels[c], found.len() as int, k);
    lemma_rows_hold(found, channels, channels.len() as int, c, row);
    let rows = all_rows(found, channels, channels.len() as int);
    let i = choose|i: int| 0 <= i < rows.len() && rows[i] == row;
    assert(opening_list(found, loose)[i] == row);
}

} // verus!
