//! The command line: what was asked for, which installs it concerns, and what is
//! said about them.

pub mod choices;
pub mod laws;

use crate::discovery;
use crate::discovery::{Install, InstallModel};
use crate::patch;
use crate::patch::{Config, ConfigModel};
use crate::sites;
use crate::sites::groups;
use crate::sites::groups::{default_groups, Group, GroupModel};
use crate::text;
use crate::text::{
    begins_with, cat2, cat3, cat4, contains_str, join, own_all, parse_u32, push_text, split_at_char,
    str_eq, to_decimal, to_lowercase, to_quoted, trim,
};
use vstd::prelude::*;

verus! {

pub const USAGE: &'static str = "\
stereocord — force stereo, 48 kHz and a high Opus bitrate in Discord on Linux

USAGE:
    stereocord                    Open the interface
    stereocord <COMMAND> [OPTIONS]

Run with no arguments at all and stereocord opens a terminal interface: choose
a client, see what its voice module is currently doing to your audio, and patch
or restore from there. Everything below is the same work without the interface.

COMMANDS:
    tui                 Open the interface (what running with no arguments does)
    scan                Show every Discord install, what its module is doing,
                        and whether each patch site can still be located
    patch               Apply the patches
    restore             Put the original module back from the backup
    backups             List backups on record
    groups              List the patch groups and what each one does
    shellcode           Print the injected filter replacements as bytes

OPTIONS:
    -c, --client <TEXT>   Only act on installs whose label contains TEXT
                          (e.g. 'Canary', '1.0.155')
    -a, --all             Act on every install, not just the newest per channel
                          that has a voice module
    -b, --bitrate <KBPS>  Opus bitrate to lock in           [default: 248]
        --gain <FACTOR>   Gain applied by the injected filters  [default: 1.0]
    -n, --dry-run         Say what would be written, write nothing
    -f, --force           Patch even while Discord is running
        --allow-partial   Patch even if some sites could not be located
    -y, --yes             Do not ask for confirmation
    -g, --groups <LIST>   Comma-separated groups to apply (see 'groups');
                          'all' selects every group  [default: the recommended set]
    -v, --verbose         Show every resolved offset
        --node <PATH>     Act on this discord_voice.node instead of searching
                          for installs (useful for checking a build, or for a
                          custom client using Discord's own module)
    -h, --help            Show this message
    -V, --version         Show the version

Discord must be closed: a running client already has the old module mapped.
";

pub const VERSION: &'static str = "0.1.0";

pub const MIN_BITRATE_KBPS: u32 = 8;

pub const MAX_BITRATE_KBPS: u32 = 512;

// ---------------------------------------------------------------------------
// Arguments
// ---------------------------------------------------------------------------

/// A gain as it was given: its bits, whether it is in the accepted range, and how
/// it is shown.
pub struct Gain {
    pub bits: u32,
    pub in_range: bool,
    pub shown: String,
}

#[verifier::ext_equal]
pub struct GainModel {
    pub bits: int,
    pub in_range: bool,
    pub shown: Seq<char>,
}

impl View for Gain {
    type V = GainModel;

    open spec fn view(&self) -> GainModel {
        GainModel { bits: self.bits as int, in_range: self.in_range, shown: self.shown@ }
    }
}

impl Gain {
    fn copy(&self) -> (res: Gain)
        ensures
            res@ == self@,
    {
        Gain { bits: self.bits, in_range: self.in_range, shown: self.shown.clone() }
    }
}

pub struct Args {
    pub command: String,
    pub client: Option<String>,
    pub all: bool,
    pub bitrate: u32,
    pub gain: Gain,
    pub dry_run: bool,
    pub force: bool,
    pub allow_partial: bool,
    pub yes: bool,
    pub verbose: bool,
    pub node: Option<String>,
    pub groups: Option<Vec<String>>,
}

#[verifier::ext_equal]
pub struct ArgsModel {
    pub command: Seq<char>,
    pub client: Option<Seq<char>>,
    pub all: bool,
    pub bitrate: int,
    pub gain: GainModel,
    pub dry_run: bool,
    pub force: bool,
    pub allow_partial: bool,
    pub yes: bool,
    pub verbose: bool,
    pub node: Option<Seq<char>>,
    pub groups: Option<Seq<Seq<char>>>,
}

impl View for Args {
    type V = ArgsModel;

    open spec fn view(&self) -> ArgsModel {
        ArgsModel {
            command: self.command@,
            client: discovery::opt_text(self.client),
            all: self.all,
            bitrate: self.bitrate as int,
            gain: self.gain@,
            dry_run: self.dry_run,
            force: self.force,
            allow_partial: self.allow_partial,
            yes: self.yes,
            verbose: self.verbose,
            node: discovery::opt_text(self.node),
            groups: match self.groups {
                Some(list) => Some(text::views(list@)),
                None => None,
            },
        }
    }
}

/// What the arguments ask for.
pub enum Parsed {
    Help,
    Version,
    Run(Args),
}

#[verifier::ext_equal]
pub enum ParsedModel {
    Help,
    Version,
    Run(ArgsModel),
}

impl View for Parsed {
    type V = ParsedModel;

    open spec fn view(&self) -> ParsedModel {
        match *self {
            Parsed::Help => ParsedModel::Help,
            Parsed::Version => ParsedModel::Version,
            Parsed::Run(a) => ParsedModel::Run(a@),
        }
    }
}

pub open spec fn default_args() -> ArgsModel {
    ArgsModel {
        command: seq![],
        client: None,
        all: false,
        bitrate: patch::DEFAULT_BITRATE_KBPS as int,
        gain: GainModel { bits: patch::UNITY_GAIN as int, in_range: true, shown: "1"@ },
        dry_run: false,
        force: false,
        allow_partial: false,
        yes: false,
        verbose: false,
        node: None,
        groups: None,
    }
}

/// What one argument leads to.
pub enum Step {
    Done(ParsedModel),
    Failed(Seq<char>),
    /// Go on with these arguments, at that place.
    Next(ArgsModel, int),
}

pub open spec fn gain_views(gains: Seq<Option<Gain>>) -> Seq<Option<GainModel>> {
    gains.map_values(
        |g: Option<Gain>|
            match g {
                Some(x) => Some(x@),
                None => None,
            },
    )
}

/// What the argument at place `i` does to the arguments so far. `gains` holds what
/// each argument is as a gain, where it is one.
pub open spec fn step(
    args: Seq<Seq<char>>,
    gains: Seq<Option<GainModel>>,
    i: int,
    so_far: ArgsModel,
) -> Step {
    let arg = args[i];
    let has_value = i + 1 < args.len();
    let value = args[i + 1];
    if arg == "-h"@ || arg == "--help"@ {
        Step::Done(ParsedModel::Help)
    } else if arg == "-V"@ || arg == "--version"@ {
        Step::Done(ParsedModel::Version)
    } else if arg == "-c"@ || arg == "--client"@ {
        if has_value {
            Step::Next(ArgsModel { client: Some(value), ..so_far }, i + 2)
        } else {
            Step::Failed("--client needs a value"@)
        }
    } else if arg == "-a"@ || arg == "--all"@ {
        Step::Next(ArgsModel { all: true, ..so_far }, i + 1)
    } else if arg == "-b"@ || arg == "--bitrate"@ {
        if has_value {
            match text::u32_of(value) {
                Some(n) => Step::Next(ArgsModel { bitrate: n as int, ..so_far }, i + 2),
                None => Step::Failed("bad bitrate "@ + text::quoted(value)),
            }
        } else {
            Step::Failed("--bitrate needs a value"@)
        }
    } else if arg == "--gain"@ {
        if has_value {
            match gains[i + 1] {
                Some(g) => Step::Next(ArgsModel { gain: g, ..so_far }, i + 2),
                None => Step::Failed("bad gain "@ + text::quoted(value)),
            }
        } else {
            Step::Failed("--gain needs a value"@)
        }
    } else if arg == "-g"@ || arg == "--groups"@ {
        if has_value {
            match groups_in(value) {
                Ok(list) => Step::Next(ArgsModel { groups: Some(list), ..so_far }, i + 2),
                Err(e) => Step::Failed(e),
            }
        } else {
            Step::Failed("--groups needs a value"@)
        }
    } else if arg == "-n"@ || arg == "--dry-run"@ {
        Step::Next(ArgsModel { dry_run: true, ..so_far }, i + 1)
    } else if arg == "-f"@ || arg == "--force"@ {
        Step::Next(ArgsModel { force: true, ..so_far }, i + 1)
    } else if arg == "--allow-partial"@ {
        Step::Next(ArgsModel { allow_partial: true, ..so_far }, i + 1)
    } else if arg == "-y"@ || arg == "--yes"@ {
        Step::Next(ArgsModel { yes: true, ..so_far }, i + 1)
    } else if arg == "-v"@ || arg == "--verbose"@ {
        Step::Next(ArgsModel { verbose: true, ..so_far }, i + 1)
    } else if arg == "--node"@ {
        if has_value {
            Step::Next(ArgsModel { node: Some(value), ..so_far }, i + 2)
        } else {
            Step::Failed("--node needs a value"@)
        }
    } else if text::begins(arg, "-"@) {
        Step::Failed("unknown option "@ + text::quoted(arg))
    } else if so_far.command.len() == 0 {
        Step::Next(ArgsModel { command: arg, ..so_far }, i + 1)
    } else {
        Step::Failed("unexpected argument "@ + text::quoted(arg))
    }
}

/// What a whole command line amounts to: no arguments at all mean the interface,
/// options without a command mean `scan`, and the bitrate and gain have to be in
/// range.
pub open spec fn settled(so_far: ArgsModel, count: int) -> Result<ParsedModel, Seq<char>> {
    let args = if so_far.command.len() == 0 {
        ArgsModel {
            command: if count == 0 {
                "tui"@
            } else {
                "scan"@
            },
            ..so_far
        }
    } else {
        so_far
    };
    if !(MIN_BITRATE_KBPS <= args.bitrate <= MAX_BITRATE_KBPS) {
        Err("bitrate "@ + text::decimal(args.bitrate as nat) + " kbps is outside 8-512"@)
    } else if !args.gain.in_range {
        Err("gain "@ + args.gain.shown + " is outside 0.1-10.0"@)
    } else {
        Ok(ParsedModel::Run(args))
    }
}

/// What the arguments from place `i` on amount to.
pub open spec fn parsed_from(
    args: Seq<Seq<char>>,
    gains: Seq<Option<GainModel>>,
    i: int,
    so_far: ArgsModel,
) -> Result<ParsedModel, Seq<char>>
    decreases args.len() - i,
{
    if i >= args.len() {
        settled(so_far, args.len() as int)
    } else {
        match step(args, gains, i, so_far) {
            Step::Done(p) => Ok(p),
            Step::Failed(e) => Err(e),
            Step::Next(next, j) => if j > i {
                parsed_from(args, gains, j, next)
            } else {
                Err(seq![])
            },
        }
    }
}

/// The names of all groups.
pub open spec fn all_group_names() -> Seq<Seq<char>> {
    groups::group_catalogue().map_values(|g: GroupModel| g.name)
}

/// What a --groups value selects, from its `i`-th part on.
pub open spec fn groups_from(
    parts: Seq<Seq<char>>,
    i: int,
    so_far: Seq<Seq<char>>,
) -> Result<Seq<Seq<char>>, Seq<char>>
    decreases parts.len() - i,
{
    if i >= parts.len() {
        if so_far.len() == 0 {
            Err("--groups selected nothing"@)
        } else {
            Ok(so_far)
        }
    } else {
        let name = text::trimmed(parts[i]);
        if name.len() == 0 {
            groups_from(parts, i + 1, so_far)
        } else if groups::declared(name) {
            groups_from(parts, i + 1, so_far.push(name))
        } else {
            Err(
                "unknown group "@ + text::quoted(name) + "; known groups are "@ + text::joined(
                    all_group_names(),
                    ", "@,
                ),
            )
        }
    }
}

/// What a --groups value selects.
pub open spec fn groups_in(spec: Seq<char>) -> Result<Seq<Seq<char>>, Seq<char>> {
    if text::trimmed(spec) == "all"@ {
        Ok(all_group_names())
    } else {
        groups_from(text::split_on(spec, ','), 0, seq![])
    }
}

fn group_names() -> (res: Vec<String>)
    ensures
        text::views(res@) == all_group_names(),
{
    let list = groups::groups();
    let ghost all = all_group_names();
    let mut out: Vec<String> = Vec::new();
    let mut i: usize = 0;
    assert(groups::group_models(list@).len() == groups::group_catalogue().len());
    while i < list.len()
        invariant
            i <= list@.len(),
            all == all_group_names(),
            groups::group_models(list@) == groups::group_catalogue(),
            text::views(out@) == all.take(i as int),
        decreases list@.len() - i,
    {
        let g: &'static Group = list[i];
        assert(groups::group_models(list@)[i as int] == g@);
        assert(all[i as int] == g.name@);
        assert(all.take(i + 1) =~= all.take(i as int).push(all[i as int]));
        push_text(&mut out, g.name.to_owned());
        i = i + 1;
    }
    assert(all.take(i as int) =~= all);
    out
}

/// Parse a --groups value. `all` is spelled out rather than inferred so that a
/// typo is an error instead of a silent no-op.
pub fn parse_groups(spec: &str) -> (res: Result<Vec<String>, String>)
    ensures
        match (res, groups_in(spec@)) {
            (Ok(list), Ok(names)) => text::views(list@) == names,
            (Err(e), Err(m)) => e@ == m,
            _ => false,
        },
{
    if str_eq(trim(spec).as_str(), "all") {
        return Ok(group_names());
    }
    let parts = split_at_char(spec, ',');
    let ghost all = text::views(parts@);
    let mut out: Vec<String> = Vec::new();
    let mut i: usize = 0;
    assert(text::views(out@) =~= Seq::<Seq<char>>::empty());
    while i < parts.len()
        invariant
            i <= parts@.len(),
            all == text::views(parts@),
            groups_in(spec@) == groups_from(all, i as int, text::views(out@)),
        decreases parts@.len() - i,
    {
        assert(all[i as int] == parts@[i as int]@);
        let name = trim(parts[i].as_str());
        if name.as_str().unicode_len() > 0 {
            match groups::group(name.as_str()) {
                Some(g) => {
                    push_text(&mut out, g.name.to_owned());
                },
                None => {
                    let known = group_names();
                    return Err(
                        cat4(
                            "unknown group ",
                            to_quoted(name.as_str()).as_str(),
                            "; known groups are ",
                            join(&known, ", ").as_str(),
                        ),
                    );
                },
            }
        }
        i = i + 1;
    }
    assert(text::views(out@).len() == out@.len());
    if out.len() == 0 {
        return Err("--groups selected nothing".to_owned());
    }
    Ok(out)
}

enum Taken {
    Done(Parsed),
    Failed(String),
    Next(usize),
}

fn missing_value(name: &str) -> (res: Taken)
    ensures
        res matches Taken::Failed(e) && e@ == name@ + " needs a value"@,
{
    Taken::Failed(cat2(name, " needs a value"))
}

/// Whether the argument is the short or the long form of an option.
fn is_option(arg: &str, short: &str, long: &str) -> (res: bool)
    ensures
        res == (arg@ == short@ || arg@ == long@),
{
    str_eq(arg, short) || str_eq(arg, long)
}

proof fn lemma_missing_values()
    ensures
        "--client"@ + " needs a value"@ == "--client needs a value"@,
        "--bitrate"@ + " needs a value"@ == "--bitrate needs a value"@,
        "--gain"@ + " needs a value"@ == "--gain needs a value"@,
        "--groups"@ + " needs a value"@ == "--groups needs a value"@,
        "--node"@ + " needs a value"@ == "--node needs a value"@,
{
    reveal_strlit(" needs a value");
    reveal_strlit("--client");
    reveal_strlit("--bitrate");
    reveal_strlit("--gain");
    reveal_strlit("--groups");
    reveal_strlit("--node");
    reveal_strlit("--client needs a value");
    reveal_strlit("--bitrate needs a value");
    reveal_strlit("--gain needs a value");
    reveal_strlit("--groups needs a value");
    reveal_strlit("--node needs a value");
    assert("--client"@ + " needs a value"@ =~= "--client needs a value"@);
    assert("--bitrate"@ + " needs a value"@ =~= "--bitrate needs a value"@);
    assert("--gain"@ + " needs a value"@ =~= "--gain needs a value"@);
    assert("--groups"@ + " needs a value"@ =~= "--groups needs a value"@);
    assert("--node"@ + " needs a value"@ =~= "--node needs a value"@);
}

/// Take one argument.
fn take(args: &Vec<String>, gains: &Vec<Option<Gain>>, i: usize, out: &mut Args) -> (res: Taken)
    requires
        i < args@.len(),
        gains@.len() == args@.len(),
    ensures
        match (res, step(text::views(args@), gain_views(gains@), i as int, old(out)@)) {
            (Taken::Done(p), Step::Done(m)) => p@ == m,
            (Taken::Failed(e), Step::Failed(m)) => e@ == m,
            (Taken::Next(j), Step::Next(next, k)) => j == k && final(out)@ == next && j > i,
            _ => false,
        },
        res matches Taken::Next(j) ==> j <= args@.len(),
{
    let ghost all = text::views(args@);
    let n: usize = args.len();
    let arg = args[i].as_str();
    let has_value = i < n - 1;
    assert(all[i as int] == arg@);
    assert(all.len() == n);
    proof {
        lemma_missing_values();
        if has_value {
            assert(all[i + 1] == args@[i + 1]@);
        }
    }
    if is_option(arg, "-h", "--help") {
        Taken::Done(Parsed::Help)
    } else if is_option(arg, "-V", "--version") {
        Taken::Done(Parsed::Version)
    } else if is_option(arg, "-c", "--client") {
        if has_value {
            out.client = Some(args[i + 1].clone());
            Taken::Next(i + 2)
        } else {
            missing_value("--client")
        }
    } else if is_option(arg, "-a", "--all") {
        out.all = true;
        Taken::Next(i + 1)
    } else if is_option(arg, "-b", "--bitrate") {
        if has_value {
            match parse_u32(args[i + 1].as_str()) {
                Some(v) => {
                    out.bitrate = v;
                    Taken::Next(i + 2)
                },
                None => Taken::Failed(
                    cat2("bad bitrate ", to_quoted(args[i + 1].as_str()).as_str()),
                ),
            }
        } else {
            missing_value("--bitrate")
        }
    } else if str_eq(arg, "--gain") {
        if has_value {
            match &gains[i + 1] {
                Some(g) => {
                    out.gain = g.copy();
                    Taken::Next(i + 2)
                },
                None => Taken::Failed(cat2("bad gain ", to_quoted(args[i + 1].as_str()).as_str())),
            }
        } else {
            missing_value("--gain")
        }
    } else if is_option(arg, "-g", "--groups") {
        if has_value {
            match parse_groups(args[i + 1].as_str()) {
                Ok(list) => {
                    out.groups = Some(list);
                    Taken::Next(i + 2)
                },
                Err(e) => Taken::Failed(e),
            }
        } else {
            missing_value("--groups")
        }
    } else if is_option(arg, "-n", "--dry-run") {
        out.dry_run = true;
        Taken::Next(i + 1)
    } else if is_option(arg, "-f", "--force") {
        out.force = true;
        Taken::Next(i + 1)
    } else if str_eq(arg, "--allow-partial") {
        out.allow_partial = true;
        Taken::Next(i + 1)
    } else if is_option(arg, "-y", "--yes") {
        out.yes = true;
        Taken::Next(i + 1)
    } else if is_option(arg, "-v", "--verbose") {
        out.verbose = true;
        Taken::Next(i + 1)
    } else if str_eq(arg, "--node") {
        if has_value {
            out.node = Some(args[i + 1].clone());
            Taken::Next(i + 2)
        } else {
            missing_value("--node")
        }
    } else if begins_with(arg, "-") {
        Taken::Failed(cat2("unknown option ", to_quoted(arg).as_str()))
    } else if out.command.as_str().unicode_len() == 0 {
        out.command = arg.to_owned();
        Taken::Next(i + 1)
    } else {
        Taken::Failed(cat2("unexpected argument ", to_quoted(arg).as_str()))
    }
}

/// Read the arguments, the program's own name left out. `gains` holds, for each
/// argument, what it is as a gain, where it is a number.
pub fn parse_args(args: &Vec<String>, gains: &Vec<Option<Gain>>) -> (res: Result<Parsed, String>)
    requires
        gains@.len() == args@.len(),
    ensures
        match (
            res,
            parsed_from(text::views(args@), gain_views(gains@), 0, default_args()),
        ) {
            (Ok(p), Ok(m)) => p@ == m,
            (Err(e), Err(m)) => e@ == m,
            _ => false,
        },
{
    let mut out = Args {
        command: String::new(),
        client: None,
        all: false,
        bitrate: patch::DEFAULT_BITRATE_KBPS,
        gain: Gain { bits: patch::UNITY_GAIN, in_range: true, shown: "1".to_owned() },
        dry_run: false,
        force: false,
        allow_partial: false,
        yes: false,
        verbose: false,
        node: None,
        groups: None,
    };
    assert(out@.command =~= default_args().command);
    let ghost all = text::views(args@);
    let ghost given = gain_views(gains@);
    let ghost whole = parsed_from(all, given, 0, default_args());
    let mut i: usize = 0;
    while i < args.len()
        invariant
            i <= args@.len(),
            gains@.len() == args@.len(),
            all == text::views(args@),
            given == gain_views(gains@),
            whole == parsed_from(all, given, 0, default_args()),
            whole == parsed_from(all, given, i as int, out@),
        decreases args@.len() - i,
    {
        match take(args, gains, i, &mut out) {
            Taken::Done(p) => {
                return Ok(p);
            },
            Taken::Failed(e) => {
                return Err(e);
            },
            Taken::Next(j) => {
                i = j;
            },
        }
    }
    assert(all.len() == args@.len());
    if out.command.as_str().unicode_len() == 0 {
        out.command = if args.len() == 0 {
            "tui".to_owned()
        } else {
            "scan".to_owned()
        };
    }
    if out.bitrate < MIN_BITRATE_KBPS || out.bitrate > MAX_BITRATE_KBPS {
        return Err(
            cat3("bitrate ", to_decimal(out.bitrate as u64).as_str(), " kbps is outside 8-512"),
        );
    }
    if !out.gain.in_range {
        return Err(cat3("gain ", out.gain.shown.as_str(), " is outside 0.1-10.0"));
    }
    Ok(Parsed::Run(out))
}

/// Whatever was given, a run has a command, a bitrate of 8 to 512 kbps and a gain
/// that is in range.
pub proof fn law_a_run_is_in_range(
    args: Seq<Seq<char>>,
    gains: Seq<Option<GainModel>>,
    i: int,
    so_far: ArgsModel,
)
    ensures
        parsed_from(args, gains, i, so_far) matches Ok(ParsedModel::Run(a)) ==> a.command.len() > 0
            && MIN_BITRATE_KBPS <= a.bitrate <= MAX_BITRATE_KBPS && a.gain.in_range,
    decreases args.len() - i,
{
    reveal_strlit("tui");
    reveal_strlit("scan");
    if i < args.len() {
        if let Step::Next(next, j) = step(args, gains, i, so_far) {
            if j > i {
                law_a_run_is_in_range(args, gains, j, next);
            }
        }
    }
}

/// Only declared groups are ever selected, and never none.
pub proof fn law_selected_groups_are_declared(spec: Seq<char>)
    ensures
        groups_in(spec) matches Ok(list) ==> list.len() > 0 && forall|k: int|
            0 <= k < list.len() ==> groups::declared(#[trigger] list[k]),
{
    let all = all_group_names();
    assert forall|k: int| 0 <= k < all.len() implies groups::declared(#[trigger] all[k]) by {
        assert(groups::group_catalogue()[k].name == all[k]);
    }
    assert(all.len() == groups::GROUP_COUNT);
    lemma_groups_from_declared(text::split_on(spec, ','), 0, seq![]);
}

proof fn lemma_groups_from_declared(parts: Seq<Seq<char>>, i: int, so_far: Seq<Seq<char>>)
    requires
        forall|k: int| 0 <= k < so_far.len() ==> groups::declared(#[trigger] so_far[k]),
    ensures
        groups_from(parts, i, so_far) matches Ok(list) ==> list.len() > 0 && forall|k: int|
            0 <= k < list.len() ==> groups::declared(#[trigger] list[k]),
    decreases parts.len() - i,
{
    if i < parts.len() {
        let name = text::trimmed(parts[i]);
        if name.len() == 0 {
            lemma_groups_from_declared(parts, i + 1, so_far);
        } else if groups::declared(name) {
            lemma_groups_from_declared(parts, i + 1, so_far.push(name));
        }
    }
}

// ---------------------------------------------------------------------------
// Commands
// ---------------------------------------------------------------------------

#[derive(PartialEq, Eq, Clone, Copy, Structural)]
pub enum Command {
    Tui,
    Scan,
    Patch,
    Restore,
    Backups,
    Groups,
    Shellcode,
}

pub const TRY_HELP: &'static str = "\n\nTry 'stereocord --help'.";

/// The command of that name.
pub open spec fn command_named(name: Seq<char>) -> Option<Command> {
    if name == "tui"@ {
        Some(Command::Tui)
    } else if name == "scan"@ {
        Some(Command::Scan)
    } else if name == "patch"@ {
        Some(Command::Patch)
    } else if name == "restore"@ {
        Some(Command::Restore)
    } else if name == "backups"@ {
        Some(Command::Backups)
    } else if name == "groups"@ {
        Some(Command::Groups)
    } else if name == "shellcode"@ {
        Some(Command::Shellcode)
    } else {
        None
    }
}

/// The command of that name.
pub fn command(name: &str) -> (res: Result<Command, String>)
    ensures
        match (res, command_named(name@)) {
            (Ok(c), Some(known)) => c == known,
            (Err(e), None) => e@ == "unknown command "@ + text::quoted(name@) + TRY_HELP@,
            _ => false,
        },
{
    if str_eq(name, "tui") {
        Ok(Command::Tui)
    } else if str_eq(name, "scan") {
        Ok(Command::Scan)
    } else if str_eq(name, "patch") {
        Ok(Command::Patch)
    } else if str_eq(name, "restore") {
        Ok(Command::Restore)
    } else if str_eq(name, "backups") {
        Ok(Command::Backups)
    } else if str_eq(name, "groups") {
        Ok(Command::Groups)
    } else if str_eq(name, "shellcode") {
        Ok(Command::Shellcode)
    } else {
        Err(cat3("unknown command ", to_quoted(name).as_str(), TRY_HELP))
    }
}

/// What a command acts on.
pub enum Scope {
    /// The module at this path, and no install that could be found.
    Module(String),
    /// The installs that are found.
    Installs,
}

impl Args {
    /// What a command acts on: the module that was named, instead of searching for
    /// installs.
    pub fn scope(&self) -> (res: Scope)
        ensures
            match (res, self@.node) {
                (Scope::Module(path), Some(named)) => path@ == named,
                (Scope::Installs, None) => true,
                _ => false,
            },
    {
        match &self.node {
            Some(path) => Scope::Module(path.clone()),
            None => Scope::Installs,
        }
    }

    /// What a patch is made with: the groups that were asked for, or the
    /// recommended set.
    pub fn config(&self) -> (res: Config)
        ensures
            res@ == (ConfigModel {
                bitrate_kbps: self@.bitrate,
                gain: self@.gain.bits,
                groups: match self@.groups {
                    Some(list) => list,
                    None => groups::defaults_below(groups::GROUP_COUNT as int),
                },
            }),
            self.bitrate <= MAX_BITRATE_KBPS ==> res.wf(),
    {
        let chosen = match &self.groups {
            Some(list) => copy_texts(list),
            None => own_all(&default_groups()),
        };
        Config { bitrate_kbps: self.bitrate, gain: self.gain.bits, groups: chosen }
    }
}

fn copy_texts(list: &Vec<String>) -> (res: Vec<String>)
    ensures
        text::views(res@) == text::views(list@),
{
    let mut out: Vec<String> = Vec::new();
    let mut i: usize = 0;
    assert(text::views(out@) =~= text::views(list@).take(0));
    while i < list.len()
        invariant
            i <= list@.len(),
            text::views(out@) == text::views(list@).take(i as int),
        decreases list@.len() - i,
    {
        push_text(&mut out, list[i].clone());
        assert(text::views(out@) =~= text::views(list@).take(i + 1));
        i = i + 1;
    }
    assert(text::views(list@).take(i as int) =~= text::views(list@));
    out
}

// ---------------------------------------------------------------------------
// Choosing installs
// ---------------------------------------------------------------------------

/// A list of texts that is said to be lower case, of the same length.
pub open spec fn lowered_labels(installs: Seq<InstallModel>) -> Seq<Seq<char>> {
    installs.map_values(|i: InstallModel| text::lowercase(discovery::label_of(i)))
}

/// The places below `n` whose label holds what was asked for.
pub open spec fn matching_below(
    labels: Seq<Seq<char>>,
    wanted: Option<Seq<char>>,
    n: int,
) -> Seq<int>
    decreases n,
{
    if n <= 0 {
        seq![]
    } else if wanted matches Some(w) && !text::holds(labels[n - 1], w) {
        matching_below(labels, wanted, n - 1)
    } else {
        matching_below(labels, wanted, n - 1).push(n - 1)
    }
}

/// The channel already has a place among these.
pub open spec fn channel_taken(
    installs: Seq<InstallModel>,
    chosen: Seq<int>,
    channel: Seq<char>,
) -> bool {
    exists|k: int| 0 <= k < chosen.len() && installs[#[trigger] chosen[k]].channel == channel
}

/// Of the first `n` places, the first of each channel that has a module.
pub open spec fn first_with_module(
    installs: Seq<InstallModel>,
    candidates: Seq<int>,
    n: int,
) -> Seq<int>
    decreases n,
{
    if n <= 0 {
        seq![]
    } else {
        let before = first_with_module(installs, candidates, n - 1);
        let i = candidates[n - 1];
        if installs[i].node is None || channel_taken(installs, before, installs[i].channel) {
            before
        } else {
            before.push(i)
        }
    }
}

pub const NO_INSTALLS: &'static str = "no Discord installation found under ~/.config";

pub const EMPTY_MODULES: &'static str =
    "every Discord install here has an empty voice module directory.\nLaunch Discord once so it downloads the module, then patch.";

/// Which installs to act on, given the lower-case labels and the lower-case text
/// that was asked for. `shown` is that text as it was given, quoted.
pub open spec fn selection(
    installs: Seq<InstallModel>,
    labels: Seq<Seq<char>>,
    wanted: Option<Seq<char>>,
    shown: Seq<char>,
    every: bool,
) -> Result<Seq<int>, Seq<char>> {
    let matching = matching_below(labels, wanted, installs.len() as int);
    let newest = first_with_module(installs, matching, matching.len() as int);
    if installs.len() == 0 {
        Err(NO_INSTALLS@)
    } else if matching.len() == 0 {
        Err("no install matches "@ + shown + "; run 'stereocord scan' to see what is here"@)
    } else if every {
        Ok(matching)
    } else if newest.len() == 0 {
        Err(EMPTY_MODULES@)
    } else {
        Ok(newest)
    }
}

fn taken(installs: &Vec<Install>, chosen: &Vec<usize>, channel: &str) -> (res: bool)
    requires
        forall|k: int| 0 <= k < chosen@.len() ==> #[trigger] chosen@[k] < installs@.len(),
    ensures
        res == channel_taken(
            discovery::install_views(installs@),
            discovery::places(chosen@),
            channel@,
        ),
{
    let ghost all = discovery::install_views(installs@);
    let ghost at = discovery::places(chosen@);
    let mut k: usize = 0;
    while k < chosen.len()
        invariant
            k <= chosen@.len(),
            all == discovery::install_views(installs@),
            at == discovery::places(chosen@),
            forall|k: int| 0 <= k < chosen@.len() ==> #[trigger] chosen@[k] < installs@.len(),
            forall|j: int| 0 <= j < k ==> all[#[trigger] at[j]].channel != channel@,
        decreases chosen@.len() - k,
    {
        assert(at[k as int] == chosen@[k as int]);
        assert(all[at[k as int]] == installs@[chosen@[k as int] as int]@);
        if str_eq(installs[chosen[k]].channel.as_str(), channel) {
            return true;
        }
        k = k + 1;
    }
    false
}

/// Choose among installs whose labels are already in lower case.
pub fn select_from(
    installs: &Vec<Install>,
    labels: &Vec<String>,
    wanted: &Option<String>,
    shown: &str,
    every: bool,
) -> (res: Result<Vec<usize>, String>)
    requires
        labels@.len() == installs@.len(),
    ensures
        match (
            res,
            selection(
                discovery::install_views(installs@),
                text::views(labels@),
                discovery::opt_text(*wanted),
                shown@,
                every,
            ),
        ) {
            (Ok(list), Ok(places)) => discovery::places(list@) == places,
            (Err(e), Err(m)) => e@ == m,
            _ => false,
        },
        res matches Ok(list) ==> forall|k: int|
            0 <= k < list@.len() ==> #[trigger] list@[k] < installs@.len(),
{
    let ghost all = discovery::install_views(installs@);
    let ghost names = text::views(labels@);
    let ghost want = discovery::opt_text(*wanted);
    if installs.len() == 0 {
        return Err(NO_INSTALLS.to_owned());
    }
    let mut matching: Vec<usize> = Vec::new();
    let mut i: usize = 0;
    assert(discovery::places(matching@) =~= matching_below(names, want, 0));
    while i < installs.len()
        invariant
            i <= installs@.len(),
            labels@.len() == installs@.len(),
            names == text::views(labels@),
            want == discovery::opt_text(*wanted),
            discovery::places(matching@) == matching_below(names, want, i as int),
            forall|k: int| 0 <= k < matching@.len() ==> #[trigger] matching@[k] < i,
        decreases installs@.len() - i,
    {
        assert(names[i as int] == labels@[i as int]@);
        let fits = match wanted {
            Some(w) => contains_str(labels[i].as_str(), w.as_str()),
            None => true,
        };
        if fits {
            assert(discovery::places(matching@.push(i)) =~= discovery::places(matching@).push(
                i as int,
            ));
            matching.push(i);
        }
        i = i + 1;
    }
    assert(discovery::places(matching@).len() == matching@.len());
    if matching.len() == 0 {
        return Err(
            cat3("no install matches ", shown, "; run 'stereocord scan' to see what is here"),
        );
    }
    if every {
        return Ok(matching);
    }
    // Newest version per channel that actually has a module. The newest
    // directory overall may be an update Discord has staged but not yet
    // populated; patching is only meaningful where a module exists, and
    // the staged one is reported separately.
    let ghost candidates = discovery::places(matching@);
    let mut chosen: Vec<usize> = Vec::new();
    let mut k: usize = 0;
    assert(discovery::places(chosen@) =~= first_with_module(all, candidates, 0));
    while k < matching.len()
        invariant
            k <= matching@.len(),
            all == discovery::install_views(installs@),
            candidates == discovery::places(matching@),
            forall|k: int| 0 <= k < matching@.len() ==> #[trigger] matching@[k] < installs@.len(),
            forall|k: int| 0 <= k < chosen@.len() ==> #[trigger] chosen@[k] < installs@.len(),
            discovery::places(chosen@) == first_with_module(all, candidates, k as int),
        decreases matching@.len() - k,
    {
        let at: usize = matching[k];
        assert(candidates[k as int] == at);
        assert(all[at as int] == installs@[at as int]@);
        if installs[at].node.is_some() && !taken(installs, &chosen, installs[at].channel.as_str()) {
            assert(discovery::places(chosen@.push(at)) =~= discovery::places(chosen@).push(
                at as int,
            ));
            chosen.push(at);
        }
        k = k + 1;
    }
    assert(discovery::places(chosen@).len() == chosen@.len());
    if chosen.len() == 0 {
        return Err(EMPTY_MODULES.to_owned());
    }
    Ok(chosen)
}

/// Installs to act on, honouring --client / --all.
///
/// Without --all only the newest version per channel is selected, because that
/// is the one Discord will launch. Older `app-` directories are left alone.
pub fn select(installs: &Vec<Install>, client: &Option<String>, every: bool) -> (res: Result<
    Vec<usize>,
    String,
>)
    ensures
        ({
            let all = discovery::install_views(installs@);
            let asked = discovery::opt_text(*client);
            match (
                res,
                selection(
                    all,
                    lowered_labels(all),
                    match asked {
                        Some(t) => Some(text::lowercase(t)),
                        None => None,
                    },
                    text::quoted(
                        match asked {
                            Some(t) => t,
                            None => seq![],
                        },
                    ),
                    every,
                ),
            ) {
                (Ok(list), Ok(places)) => discovery::places(list@) == places,
                (Err(e), Err(m)) => e@ == m,
                _ => false,
            }
        }),
        res matches Ok(list) ==> forall|k: int|
            0 <= k < list@.len() ==> #[trigger] list@[k] < installs@.len(),
{
    let ghost all = discovery::install_views(installs@);
    let ghost lowered = lowered_labels(all);
    let mut labels: Vec<String> = Vec::new();
    let mut i: usize = 0;
    while i < installs.len()
        invariant
            i <= installs@.len(),
            all == discovery::install_views(installs@),
            lowered == lowered_labels(all),
            labels@.len() == i,
            text::views(labels@) == lowered.take(i as int),
        decreases installs@.len() - i,
    {
        assert(all[i as int] == installs@[i as int]@);
        let label = to_lowercase(installs[i].label().as_str());
        assert(lowered.take(i + 1) =~= lowered.take(i as int).push(lowered[i as int]));
        push_text(&mut labels, label);
        assert(labels@.len() == text::views(labels@).len());
        i = i + 1;
    }
    assert(lowered.take(i as int) =~= lowered);
    match client {
        Some(t) => {
            let wanted = Some(to_lowercase(t.as_str()));
            let shown = to_quoted(t.as_str());
            select_from(installs, &labels, &wanted, shown.as_str(), every)
        },
        None => {
            let empty = String::new();
            assert(empty@ =~= Seq::<char>::empty());
            let shown = to_quoted(empty.as_str());
            select_from(installs, &labels, &None, shown.as_str(), every)
        },
    }
}

/// The labels of the first install of each channel among the first `n`.
pub open spec fn newest_below(installs: Seq<InstallModel>, n: int) -> Seq<Seq<char>>
    decreases n,
{
    if n <= 0 {
        seq![]
    } else if exists|k: int|
        0 <= k < n - 1 && (#[trigger] installs[k]).channel == installs[n - 1].channel {
        newest_below(installs, n - 1)
    } else {
        newest_below(installs, n - 1).push(discovery::label_of(installs[n - 1]))
    }
}

/// The labels of the installs that Discord will launch: the first of each channel.
pub fn newest_per_channel(installs: &Vec<Install>) -> (res: Vec<String>)
    ensures
        text::views(res@) == newest_below(
            discovery::install_views(installs@),
            installs@.len() as int,
        ),
{
    let ghost all = discovery::install_views(installs@);
    let mut out: Vec<String> = Vec::new();
    let mut i: usize = 0;
    assert(text::views(out@) =~= newest_below(all, 0));
    while i < installs.len()
        invariant
            i <= installs@.len(),
            all == discovery::install_views(installs@),
            text::views(out@) == newest_below(all, i as int),
        decreases installs@.len() - i,
    {
        assert(all[i as int] == installs@[i as int]@);
        let mut seen = false;
        let mut k: usize = 0;
        while k < i && !seen
            invariant
                i < installs@.len(),
                k <= i,
                all == discovery::install_views(installs@),
                seen ==> exists|j: int|
                    0 <= j < i && (#[trigger] all[j]).channel == all[i as int].channel,
                !seen ==> forall|j: int|
                    0 <= j < k ==> (#[trigger] all[j]).channel != all[i as int].channel,
            decreases i - k,
        {
            assert(all[k as int] == installs@[k as int]@);
            if str_eq(installs[k].channel.as_str(), installs[i].channel.as_str()) {
                seen = true;
            }
            k = k + 1;
        }
        if !seen {
            push_text(&mut out, installs[i].label());
        }
        i = i + 1;
    }
    out
}

// ---------------------------------------------------------------------------
// Staged updates
// ---------------------------------------------------------------------------

/// `older` is an install of the same channel that has a module, with a version
/// before that of `staged`.
pub open spec fn superseded_by(older: InstallModel, staged: InstallModel) -> bool {
    older.channel == staged.channel && older.node is Some && discovery::lex_less(
        older.version,
        staged.version,
    )
}

/// The first install below `n` that `staged` supersedes and whose module is not
/// stock.
pub open spec fn blocker_below(
    installs: Seq<InstallModel>,
    modified: Seq<bool>,
    staged: InstallModel,
    n: int,
) -> Option<Seq<char>>
    decreases n,
{
    if n <= 0 {
        None
    } else {
        match blocker_below(installs, modified, staged, n - 1) {
            Some(label) => Some(label),
            None => if superseded_by(installs[n - 1], staged) && modified[n - 1] {
                Some(discovery::label_of(installs[n - 1]))
            } else {
                None
            },
        }
    }
}

/// The staged updates among the first `n` installs: those without a module that
/// supersede one with a module, and what blocks them.
pub open spec fn staged_below(
    installs: Seq<InstallModel>,
    modified: Seq<bool>,
    n: int,
) -> Seq<(int, Option<Seq<char>>)>
    decreases n,
{
    if n <= 0 {
        seq![]
    } else {
        let before = staged_below(installs, modified, n - 1);
        let i = installs[n - 1];
        if i.node is None && exists|k: int|
            0 <= k < installs.len() && superseded_by(#[trigger] installs[k], i) {
            before.push((n - 1, blocker_below(installs, modified, i, installs.len() as int)))
        } else {
            before
        }
    }
}

pub open spec fn staged_views(list: Seq<(usize, Option<String>)>) -> Seq<
    (int, Option<Seq<char>>),
> {
    list.map_values(|e: (usize, Option<String>)| (e.0 as int, discovery::opt_text(e.1)))
}

fn is_superseded(older: &Install, staged: &Install) -> (res: bool)
    ensures
        res == superseded_by(older@, staged@),
{
    str_eq(older.channel.as_str(), staged.channel.as_str()) && older.node.is_some()
        && older.version.before(&staged.version)
}

/// Installs that are newer than a sibling that does have a module (an update
/// Discord has staged but not yet populated) paired with the label of the older
/// install if that one is patched. `modified` says of each install whether its
/// module could be read and is not stock.
///
/// Discord ships module updates as binary deltas and verifies the SHA-256 of
/// the file it is about to patch. A patched module fails that check, which
/// aborts the whole update, so Discord goes on launching the old version. The
/// staged directory then sits half-populated indefinitely, which looks like a
/// stalled download rather than what it is.
pub fn staged_updates(installs: &Vec<Install>, modified: &Vec<bool>) -> (res: Vec<
    (usize, Option<String>),
>)
    requires
        modified@.len() == installs@.len(),
    ensures
        staged_views(res@) == staged_below(
            discovery::install_views(installs@),
            modified@,
            installs@.len() as int,
        ),
        forall|k: int| 0 <= k < res@.len() ==> (#[trigger] res@[k]).0 < installs@.len(),
{
    let ghost all = discovery::install_views(installs@);
    let n: usize = installs.len();
    let mut out: Vec<(usize, Option<String>)> = Vec::new();
    let mut i: usize = 0;
    assert(staged_views(out@) =~= staged_below(all, modified@, 0));
    while i < n
        invariant
            i <= n,
            n == installs@.len(),
            modified@.len() == installs@.len(),
            all == discovery::install_views(installs@),
            staged_views(out@) == staged_below(all, modified@, i as int),
            forall|k: int| 0 <= k < out@.len() ==> (#[trigger] out@[k]).0 < installs@.len(),
        decreases n - i,
    {
        assert(all[i as int] == installs@[i as int]@);
        if installs[i].node.is_none() {
            let mut any = false;
            let mut blocker: Option<String> = None;
            let mut k: usize = 0;
            while k < n
                invariant
                    i < n,
                    k <= n,
                    n == installs@.len(),
                    modified@.len() == installs@.len(),
                    all == discovery::install_views(installs@),
                    any ==> exists|j: int|
                        0 <= j < all.len() && superseded_by(#[trigger] all[j], all[i as int]),
                    !any ==> forall|j: int|
                        0 <= j < k ==> !superseded_by(#[trigger] all[j], all[i as int]),
                    discovery::opt_text(blocker) == blocker_below(
                        all,
                        modified@,
                        all[i as int],
                        k as int,
                    ),
                decreases n - k,
            {
                assert(all[k as int] == installs@[k as int]@);
                if is_superseded(&installs[k], &installs[i]) {
                    any = true;
                    if blocker.is_none() && modified[k] {
                        blocker = Some(installs[k].label());
                    }
                }
                k = k + 1;
            }
            assert(all.len() == n);
            if any {
                let entry = (i, blocker);
                assert(staged_views(out@.push(entry)) =~= staged_views(out@).push(
                    (i as int, discovery::opt_text(entry.1)),
                ));
                out.push(entry);
            }
        }
        i = i + 1;
    }
    out
}

/// The first install of a channel is the one that is marked as launched. Within a
/// channel the newest is listed first.
pub proof fn law_the_newest_of_each_channel_is_marked(
    installs: Seq<InstallModel>,
    n: int,
    k: int,
)
    requires
        0 <= k < n <= installs.len(),
        forall|j: int| 0 <= j < k ==> (#[trigger] installs[j]).channel != installs[k].channel,
    ensures
        newest_below(installs, n).contains(discovery::label_of(installs[k])),
    decreases n,
{
    let label = discovery::label_of(installs[k]);
    let list = newest_below(installs, n);
    if k == n - 1 {
        assert(list[list.len() - 1] == label);
    } else {
        law_the_newest_of_each_channel_is_marked(installs, n - 1, k);
        let before = newest_below(installs, n - 1);
        let i = choose|i: int| 0 <= i < before.len() && before[i] == label;
        assert(list[i] == label);
    }
}

proof fn lemma_matching(labels: Seq<Seq<char>>, wanted: Option<Seq<char>>, n: int)
    ensures
        forall|i: int|
            0 <= i < matching_below(labels, wanted, n).len() ==> {
                let k = #[trigger] matching_below(labels, wanted, n)[i];
                0 <= k < n && (wanted matches Some(w) ==> text::holds(labels[k], w))
            },
    decreases n,
{
    if n > 0 {
        lemma_matching(labels, wanted, n - 1);
        let before = matching_below(labels, wanted, n - 1);
        let all = matching_below(labels, wanted, n);
        assert forall|i: int| 0 <= i < all.len() implies {
            let k = #[trigger] all[i];
            0 <= k < n && (wanted matches Some(w) ==> text::holds(labels[k], w))
        } by {
            if i < before.len() {
                assert(all[i] == before[i]);
            }
        }
    }
}

proof fn lemma_first_with_module(installs: Seq<InstallModel>, candidates: Seq<int>, n: int)
    requires
        0 <= n <= candidates.len(),
    ensures
        forall|i: int|
            0 <= i < first_with_module(installs, candidates, n).len() ==> installs[
            #[trigger] first_with_module(installs, candidates, n)[i]].node is Some
                && candidates.contains(first_with_module(installs, candidates, n)[i]),
        forall|i: int, j: int|
            0 <= i < j < first_with_module(installs, candidates, n).len() ==> installs[
            #[trigger] first_with_module(installs, candidates, n)[i]].channel != installs[
            #[trigger] first_with_module(installs, candidates, n)[j]].channel,
        forall|c: int|
            0 <= c < n && installs[#[trigger] candidates[c]].node is Some ==> channel_taken(
                installs,
                first_with_module(installs, candidates, n),
                installs[candidates[c]].channel,
            ),
    decreases n,
{
    if n > 0 {
        lemma_first_with_module(installs, candidates, n - 1);
        let before = first_with_module(installs, candidates, n - 1);
        let all = first_with_module(installs, candidates, n);
        assert(candidates.contains(candidates[n - 1]));
        assert forall|i: int| 0 <= i < all.len() implies installs[#[trigger] all[i]].node is Some
            && candidates.contains(all[i]) by {
            if i < before.len() {
                assert(all[i] == before[i]);
            }
        }
        assert forall|i: int, j: int| 0 <= i < j < all.len() implies installs[
        #[trigger] all[i]].channel != installs[#[trigger] all[j]].channel by {
            assert(all[i] == before[i]);
            if j < before.len() {
                assert(all[j] == before[j]);
            }
        }
        assert forall|c: int|
            0 <= c < n && installs[#[trigger] candidates[c]].node is Some implies channel_taken(
            installs,
            all,
            installs[candidates[c]].channel,
        ) by {
            let channel = installs[candidates[c]].channel;
            if channel_taken(installs, before, channel) {
                let i = choose|i: int|
                    0 <= i < before.len() && installs[#[trigger] before[i]].channel == channel;
                assert(all[i] == before[i]);
            } else {
                assert(c == n - 1);
                assert(all[all.len() - 1] == candidates[c]);
            }
        }
    }
}

/// Without `--all`, what is selected has a module, matches what was asked for, and
/// is the only one of its channel; and every channel that has a matching install
/// with a module is represented.
pub proof fn law_one_install_per_channel_is_selected(
    installs: Seq<InstallModel>,
    labels: Seq<Seq<char>>,
    wanted: Option<Seq<char>>,
    shown: Seq<char>,
)
    ensures
        selection(installs, labels, wanted, shown, false) matches Ok(places) ==> {
            let matching = matching_below(labels, wanted, installs.len() as int);
            &&& places.len() > 0
            &&& forall|i: int|
                0 <= i < places.len() ==> {
                    let k = #[trigger] places[i];
                    &&& 0 <= k < installs.len()
                    &&& installs[k].node is Some
                    &&& (wanted matches Some(w) ==> text::holds(labels[k], w))
                }
            &&& forall|i: int, j: int|
                0 <= i < j < places.len() ==> installs[#[trigger] places[i]].channel != installs[
                #[trigger] places[j]].channel
            &&& forall|c: int|
                0 <= c < matching.len() && installs[#[trigger] matching[c]].node is Some
                    ==> channel_taken(installs, places, installs[matching[c]].channel)
        },
{
    let matching = matching_below(labels, wanted, installs.len() as int);
    lemma_matching(labels, wanted, installs.len() as int);
    lemma_first_with_module(installs, matching, matching.len() as int);
    let places = first_with_module(installs, matching, matching.len() as int);
    assert forall|i: int| 0 <= i < places.len() implies {
        let k = #[trigger] places[i];
        &&& 0 <= k < installs.len()
        &&& installs[k].node is Some
        &&& (wanted matches Some(w) ==> text::holds(labels[k], w))
    } by {
        let c = choose|c: int| 0 <= c < matching.len() && matching[c] == places[i];
        assert(matching[c] == places[i]);
    }
}

} // verus!
