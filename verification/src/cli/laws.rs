//! What a command line means: each option does what its name says wherever it stands,
//! under either of its names.

use crate::cli;
use crate::cli::{ArgsModel, Command, GainModel, ParsedModel, Step};
use crate::text;
use vstd::prelude::*;

verus! {

// ---------------------------------------------------------------------------
// The grammar
// ---------------------------------------------------------------------------

/// An option that takes the next argument for its value.
pub open spec fn takes_value(arg: Seq<char>) -> bool {
    ||| arg == "-c"@ || arg == "--client"@
    ||| arg == "-b"@ || arg == "--bitrate"@
    ||| arg == "-g"@ || arg == "--groups"@
    ||| arg == "--gain"@
    ||| arg == "--node"@
}

/// An option that stands for itself.
pub open spec fn is_flag(arg: Seq<char>) -> bool {
    ||| arg == "-a"@ || arg == "--all"@
    ||| arg == "-n"@ || arg == "--dry-run"@
    ||| arg == "-f"@ || arg == "--force"@
    ||| arg == "--allow-partial"@
    ||| arg == "-y"@ || arg == "--yes"@
    ||| arg == "-v"@ || arg == "--verbose"@
}

pub open spec fn asks_for_help(arg: Seq<char>) -> bool {
    arg == "-h"@ || arg == "--help"@
}

pub open spec fn asks_for_version(arg: Seq<char>) -> bool {
    arg == "-V"@ || arg == "--version"@
}

/// An argument that does not look like an option.
pub open spec fn is_plain(arg: Seq<char>) -> bool {
    arg.len() == 0 || arg[0] != '-'
}

/// Argument `i` is the value of the option before it.
pub open spec fn is_value(args: Seq<Seq<char>>, i: int) -> bool
    decreases i,
{
    0 < i <= args.len() && !is_value(args, i - 1) && takes_value(args[i - 1])
}

/// The last of the first `n` arguments that is the option of these names.
pub open spec fn last_given(
    args: Seq<Seq<char>>,
    n: int,
    short: Seq<char>,
    long: Seq<char>,
) -> Option<int>
    decreases n,
{
    if n <= 0 {
        None
    } else if !is_value(args, n - 1) && (args[n - 1] == short || args[n - 1] == long) {
        Some(n - 1)
    } else {
        last_given(args, n - 1, short, long)
    }
}

/// The last of the first `n` arguments that is neither an option nor a value.
pub open spec fn last_plain(args: Seq<Seq<char>>, n: int) -> Option<int>
    decreases n,
{
    if n <= 0 {
        None
    } else if !is_value(args, n - 1) && is_plain(args[n - 1]) {
        Some(n - 1)
    } else {
        last_plain(args, n - 1)
    }
}

/// Some argument is the option of these names.
pub open spec fn is_given(args: Seq<Seq<char>>, short: Seq<char>, long: Seq<char>) -> bool {
    exists|i: int|
        0 <= i < args.len() && !#[trigger] is_value(args, i) && (args[i] == short || args[i]
            == long)
}

/// Argument `i`, which is no value, lets a run go on: a flag, an option with a good
/// value, or the command where none was given before.
pub open spec fn goes_on(args: Seq<Seq<char>>, gains: Seq<Option<GainModel>>, i: int) -> bool {
    let arg = args[i];
    if is_flag(arg) {
        true
    } else if takes_value(arg) {
        i + 1 < args.len() && if arg == "-b"@ || arg == "--bitrate"@ {
            text::u32_of(args[i + 1]) is Some
        } else if arg == "--gain"@ {
            gains[i + 1] is Some
        } else if arg == "-g"@ || arg == "--groups"@ {
            cli::groups_in(args[i + 1]) is Ok
        } else {
            true
        }
    } else {
        is_plain(arg) && (last_plain(args, i) matches Some(k) ==> args[k].len() == 0)
    }
}

/// All arguments let the run go on.
pub open spec fn all_go_on(
    args: Seq<Seq<char>>,
    gains: Seq<Option<GainModel>>,
    from: int,
    to: int,
) -> bool {
    forall|i: int|
        from <= i < to && !#[trigger] is_value(args, i) ==> goes_on(args, gains, i)
}

/// Argument `i` is the first one that ends it.
pub open spec fn ends_it(
    args: Seq<Seq<char>>,
    gains: Seq<Option<GainModel>>,
    from: int,
    i: int,
) -> bool {
    &&& from <= i < args.len()
    &&& !is_value(args, i)
    &&& !goes_on(args, gains, i)
    &&& all_go_on(args, gains, from, i)
}

/// What the first `n` arguments say, but for the command.
pub open spec fn says(
    args: Seq<Seq<char>>,
    gains: Seq<Option<GainModel>>,
    n: int,
    r: ArgsModel,
) -> bool {
    &&& r.all == last_given(args, n, "-a"@, "--all"@) is Some
    &&& r.dry_run == last_given(args, n, "-n"@, "--dry-run"@) is Some
    &&& r.force == last_given(args, n, "-f"@, "--force"@) is Some
    &&& r.allow_partial == last_given(args, n, "--allow-partial"@, "--allow-partial"@) is Some
    &&& r.yes == last_given(args, n, "-y"@, "--yes"@) is Some
    &&& r.verbose == last_given(args, n, "-v"@, "--verbose"@) is Some
    &&& r.client == match last_given(args, n, "-c"@, "--client"@) {
        Some(k) => Some(args[k + 1]),
        None => None,
    }
    &&& r.node == match last_given(args, n, "--node"@, "--node"@) {
        Some(k) => Some(args[k + 1]),
        None => None,
    }
    &&& match last_given(args, n, "-b"@, "--bitrate"@) {
        Some(k) => text::u32_of(args[k + 1]) matches Some(kbps) && r.bitrate == kbps,
        None => r.bitrate == 248,
    }
    &&& match last_given(args, n, "--gain"@, "--gain"@) {
        Some(k) => gains[k + 1] == Some(r.gain),
        None => r.gain == (GainModel { bits: 0x3F80_0000, in_range: true, shown: "1"@ }),
    }
    &&& match last_given(args, n, "-g"@, "--groups"@) {
        Some(k) => cli::groups_in(args[k + 1]) matches Ok(list) && r.groups == Some(list),
        None => r.groups is None,
    }
}

/// The command that the first `n` arguments name, if any.
pub open spec fn named(args: Seq<Seq<char>>, n: int) -> Seq<char> {
    match last_plain(args, n) {
        Some(k) => args[k],
        None => seq![],
    }
}

/// The command that is run: the one that is named, else `tui` without any arguments
/// and `scan` with some.
pub open spec fn command_run(args: Seq<Seq<char>>) -> Seq<char> {
    if named(args, args.len() as int).len() > 0 {
        named(args, args.len() as int)
    } else if args.len() == 0 {
        "tui"@
    } else {
        "scan"@
    }
}

// ---------------------------------------------------------------------------
// Steps of the proofs
// ---------------------------------------------------------------------------

/// No two options share a name.
proof fn lemma_names()
    ensures
        "-h"@.len() == 2 && "-h"@[0] == '-' && "-h"@[1] == 'h',
        "-V"@.len() == 2 && "-V"@[0] == '-' && "-V"@[1] == 'V',
        "-c"@.len() == 2 && "-c"@[0] == '-' && "-c"@[1] == 'c',
        "-a"@.len() == 2 && "-a"@[0] == '-' && "-a"@[1] == 'a',
        "-b"@.len() == 2 && "-b"@[0] == '-' && "-b"@[1] == 'b',
        "-g"@.len() == 2 && "-g"@[0] == '-' && "-g"@[1] == 'g',
        "-n"@.len() == 2 && "-n"@[0] == '-' && "-n"@[1] == 'n',
        "-f"@.len() == 2 && "-f"@[0] == '-' && "-f"@[1] == 'f',
        "-y"@.len() == 2 && "-y"@[0] == '-' && "-y"@[1] == 'y',
        "-v"@.len() == 2 && "-v"@[0] == '-' && "-v"@[1] == 'v',
        "--help"@.len() == 6 && "--help"@[0] == '-' && "--help"@[2] == 'h',
        "--gain"@.len() == 6 && "--gain"@[0] == '-' && "--gain"@[2] == 'g',
        "--node"@.len() == 6 && "--node"@[0] == '-' && "--node"@[2] == 'n',
        "--version"@.len() == 9 && "--version"@[0] == '-' && "--version"@[5] == 's',
        "--verbose"@.len() == 9 && "--verbose"@[0] == '-' && "--verbose"@[5] == 'b',
        "--bitrate"@.len() == 9 && "--bitrate"@[0] == '-' && "--bitrate"@[5] == 'r',
        "--dry-run"@.len() == 9 && "--dry-run"@[0] == '-' && "--dry-run"@[5] == '-',
        "--client"@.len() == 8 && "--client"@[0] == '-' && "--client"@[2] == 'c',
        "--groups"@.len() == 8 && "--groups"@[0] == '-' && "--groups"@[2] == 'g',
        "--all"@.len() == 5 && "--all"@[0] == '-' && "--all"@[2] == 'a',
        "--yes"@.len() == 5 && "--yes"@[0] == '-' && "--yes"@[2] == 'y',
        "--force"@.len() == 7 && "--force"@[0] == '-',
        "--allow-partial"@.len() == 15 && "--allow-partial"@[0] == '-',
{
    reveal_strlit("-h");
    reveal_strlit("-V");
    reveal_strlit("-c");
    reveal_strlit("-a");
    reveal_strlit("-b");
    reveal_strlit("-g");
    reveal_strlit("-n");
    reveal_strlit("-f");
    reveal_strlit("-y");
    reveal_strlit("-v");
    reveal_strlit("--help");
    reveal_strlit("--gain");
    reveal_strlit("--node");
    reveal_strlit("--version");
    reveal_strlit("--verbose");
    reveal_strlit("--bitrate");
    reveal_strlit("--dry-run");
    reveal_strlit("--client");
    reveal_strlit("--groups");
    reveal_strlit("--all");
    reveal_strlit("--yes");
    reveal_strlit("--force");
    reveal_strlit("--allow-partial");
}

proof fn lemma_plain(arg: Seq<char>)
    ensures
        text::begins(arg, "-"@) == !is_plain(arg),
{
    reveal_strlit("-");
    if arg.len() > 0 {
        assert(arg.take(1)[0] == arg[0]);
        if arg[0] == '-' {
            assert(arg.take(1) =~= "-"@);
        }
    }
}

/// What the options say grows by one argument at a time.
proof fn lemma_one_more(args: Seq<Seq<char>>, i: int, short: Seq<char>, long: Seq<char>)
    requires
        0 <= i < args.len(),
        !is_value(args, i),
    ensures
        last_given(args, i + 1, short, long) == if args[i] == short || args[i] == long {
            Some(i)
        } else {
            last_given(args, i, short, long)
        },
        is_value(args, i + 1) == takes_value(args[i]),
        is_value(args, i + 1) ==> last_given(args, i + 2, short, long) == last_given(
            args,
            i + 1,
            short,
            long,
        ),
        is_value(args, i + 1) ==> !is_value(args, i + 2),
{
}

proof fn lemma_one_more_plain(args: Seq<Seq<char>>, i: int)
    requires
        0 <= i < args.len(),
        !is_value(args, i),
    ensures
        last_plain(args, i + 1) == if is_plain(args[i]) {
            Some(i)
        } else {
            last_plain(args, i)
        },
        is_value(args, i + 1) ==> last_plain(args, i + 2) == last_plain(args, i + 1),
{
}

/// What step `i` leads to.
#[verifier::rlimit(60)]
proof fn lemma_step(
    args: Seq<Seq<char>>,
    gains: Seq<Option<GainModel>>,
    i: int,
    so_far: ArgsModel,
)
    requires
        0 <= i < args.len(),
        !is_value(args, i),
        says(args, gains, i, so_far),
        so_far.command == named(args, i),
    ensures
        goes_on(args, gains, i) ==> ({
            let j = if takes_value(args[i]) {
                i + 2
            } else {
                i + 1
            };
            &&& j <= args.len()
            &&& !is_value(args, j)
            &&& cli::step(args, gains, i, so_far) matches Step::Next(next, k) && k == j && says(
                args,
                gains,
                j,
                next,
            ) && next.command == named(args, j)
        }),
        !goes_on(args, gains, i) ==> match cli::step(args, gains, i, so_far) {
            Step::Done(ParsedModel::Help) => asks_for_help(args[i]),
            Step::Done(ParsedModel::Version) => asks_for_version(args[i]),
            Step::Done(ParsedModel::Run(_)) => false,
            Step::Failed(_) => !asks_for_help(args[i]) && !asks_for_version(args[i]),
            Step::Next(_, _) => false,
        },
{
    lemma_names();
    lemma_plain(args[i]);
    lemma_one_more_plain(args, i);
    lemma_one_more(args, i, "-a"@, "--all"@);
    lemma_one_more(args, i, "-n"@, "--dry-run"@);
    lemma_one_more(args, i, "-f"@, "--force"@);
    lemma_one_more(args, i, "--allow-partial"@, "--allow-partial"@);
    lemma_one_more(args, i, "-y"@, "--yes"@);
    lemma_one_more(args, i, "-v"@, "--verbose"@);
    lemma_one_more(args, i, "-c"@, "--client"@);
    lemma_one_more(args, i, "--node"@, "--node"@);
    lemma_one_more(args, i, "-b"@, "--bitrate"@);
    lemma_one_more(args, i, "--gain"@, "--gain"@);
    lemma_one_more(args, i, "-g"@, "--groups"@);
}

/// A parse that is at place `i` ends as the arguments from there on say.
pub open spec fn ends_as(
    args: Seq<Seq<char>>,
    gains: Seq<Option<GainModel>>,
    from: int,
    result: Result<ParsedModel, Seq<char>>,
) -> bool {
    match result {
        Ok(ParsedModel::Help) => exists|i: int| #[trigger]
            ends_it(args, gains, from, i) && asks_for_help(args[i]),
        Ok(ParsedModel::Version) => exists|i: int| #[trigger]
            ends_it(args, gains, from, i) && asks_for_version(args[i]),
        Ok(ParsedModel::Run(r)) => {
            &&& all_go_on(args, gains, from, args.len() as int)
            &&& says(args, gains, args.len() as int, r)
            &&& r.command == command_run(args)
            &&& 8 <= r.bitrate <= 512
            &&& r.gain.in_range
        },
        Err(_) => {
            ||| exists|i: int| #[trigger]
                ends_it(args, gains, from, i) && !asks_for_help(args[i]) && !asks_for_version(
                    args[i],
                )
            ||| all_go_on(args, gains, from, args.len() as int) && exists|r: ArgsModel| #[trigger]
                says(args, gains, args.len() as int, r) && !(8 <= r.bitrate <= 512
                    && r.gain.in_range)
        },
    }
}

proof fn lemma_later(
    args: Seq<Seq<char>>,
    gains: Seq<Option<GainModel>>,
    i: int,
    j: int,
    result: Result<ParsedModel, Seq<char>>,
)
    requires
        0 <= i < args.len(),
        goes_on(args, gains, i),
        j == i + 1 || j == i + 2 && is_value(args, i + 1),
        ends_as(args, gains, j, result),
    ensures
        ends_as(args, gains, i, result),
{
    assert forall|to: int| #[trigger] all_go_on(args, gains, j, to) implies all_go_on(
        args,
        gains,
        i,
        to,
    ) by {
        assert forall|h: int| i <= h < to && !#[trigger] is_value(args, h) implies goes_on(
            args,
            gains,
            h,
        ) by {
            if h != i && h < j {
                assert(h == i + 1);
            }
        }
    }
    assert forall|b: int| #[trigger] ends_it(args, gains, j, b) implies ends_it(
        args,
        gains,
        i,
        b,
    ) by {}
}

proof fn lemma_parsed(
    args: Seq<Seq<char>>,
    gains: Seq<Option<GainModel>>,
    i: int,
    so_far: ArgsModel,
)
    requires
        0 <= i <= args.len(),
        !is_value(args, i),
        says(args, gains, i, so_far),
        so_far.command == named(args, i),
    ensures
        ends_as(args, gains, i, cli::parsed_from(args, gains, i, so_far)),
    decreases args.len() - i,
{
    if i == args.len() {
        assert(all_go_on(args, gains, i, args.len() as int));
        assert(says(args, gains, args.len() as int, so_far));
    } else {
        lemma_step(args, gains, i, so_far);
        if goes_on(args, gains, i) {
            let j = if takes_value(args[i]) {
                i + 2
            } else {
                i + 1
            };
            lemma_one_more_plain(args, i);
            lemma_one_more(args, i, "-a"@, "--all"@);
            match cli::step(args, gains, i, so_far) {
                Step::Next(next, k) => {
                    lemma_parsed(args, gains, j, next);
                    lemma_later(args, gains, i, j, cli::parsed_from(args, gains, j, next));
                },
                _ => {},
            }
        } else {
            assert(all_go_on(args, gains, i, i));
            assert(ends_it(args, gains, i, i));
        }
    }
}

proof fn lemma_given(args: Seq<Seq<char>>, n: int, short: Seq<char>, long: Seq<char>)
    requires
        0 <= n <= args.len(),
    ensures
        last_given(args, n, short, long) matches Some(k) ==> 0 <= k < n && !is_value(args, k) && (
        args[k] == short || args[k] == long),
        forall|i: int|
            0 <= i < n && !#[trigger] is_value(args, i) && (args[i] == short || args[i] == long)
                ==> (last_given(args, n, short, long) matches Some(k) && k >= i),
    decreases n,
{
    if n > 0 {
        lemma_given(args, n - 1, short, long);
    }
}

proof fn lemma_is_given(args: Seq<Seq<char>>, short: Seq<char>, long: Seq<char>)
    ensures
        is_given(args, short, long) == last_given(args, args.len() as int, short, long) is Some,
{
    lemma_given(args, args.len() as int, short, long);
}

// ---------------------------------------------------------------------------
// The laws
// ---------------------------------------------------------------------------

/// What a command line comes to. Where every argument that is no value lets the run go
/// on, the run has what its options say (of each the last one counts), if the bitrate
/// and the gain are in range. Else the first argument that does not decides: help, the
/// version, or an error.
pub proof fn law_what_a_command_line_comes_to(
    args: Seq<Seq<char>>,
    gains: Seq<Option<GainModel>>,
)
    ensures
        ends_as(args, gains, 0, cli::parsed_from(args, gains, 0, cli::default_args())),
{
    lemma_parsed(args, gains, 0, cli::default_args());
}

/// A flag of a run is set exactly where it was given, under either of its names.
pub proof fn law_a_flag_is_set_where_it_is_given(
    args: Seq<Seq<char>>,
    gains: Seq<Option<GainModel>>,
    r: ArgsModel,
)
    requires
        cli::parsed_from(args, gains, 0, cli::default_args()) == Ok::<ParsedModel, Seq<char>>(
            ParsedModel::Run(r),
        ),
    ensures
        r.all == is_given(args, "-a"@, "--all"@),
        r.dry_run == is_given(args, "-n"@, "--dry-run"@),
        r.force == is_given(args, "-f"@, "--force"@),
        r.allow_partial == is_given(args, "--allow-partial"@, "--allow-partial"@),
        r.yes == is_given(args, "-y"@, "--yes"@),
        r.verbose == is_given(args, "-v"@, "--verbose"@),
{
    law_what_a_command_line_comes_to(args, gains);
    lemma_is_given(args, "-a"@, "--all"@);
    lemma_is_given(args, "-n"@, "--dry-run"@);
    lemma_is_given(args, "-f"@, "--force"@);
    lemma_is_given(args, "--allow-partial"@, "--allow-partial"@);
    lemma_is_given(args, "-y"@, "--yes"@);
    lemma_is_given(args, "-v"@, "--verbose"@);
}

/// Argument `i` is the option of these names, and no later argument is.
pub open spec fn is_last(
    args: Seq<Seq<char>>,
    i: int,
    short: Seq<char>,
    long: Seq<char>,
) -> bool {
    &&& 0 <= i < args.len()
    &&& !is_value(args, i)
    &&& args[i] == short || args[i] == long
    &&& forall|j: int|
        i < j < args.len() && !#[trigger] is_value(args, j) ==> args[j] != short && args[j] != long
}

proof fn lemma_is_last(args: Seq<Seq<char>>, i: int, short: Seq<char>, long: Seq<char>)
    requires
        is_last(args, i, short, long),
    ensures
        last_given(args, args.len() as int, short, long) == Some(i),
{
    lemma_given(args, args.len() as int, short, long);
}

/// An option with a value gives the run the argument behind it, under either of its
/// names; of several the last one counts.
pub proof fn law_an_option_gives_its_value(
    args: Seq<Seq<char>>,
    gains: Seq<Option<GainModel>>,
    r: ArgsModel,
    i: int,
)
    requires
        cli::parsed_from(args, gains, 0, cli::default_args()) == Ok::<ParsedModel, Seq<char>>(
            ParsedModel::Run(r),
        ),
    ensures
        is_last(args, i, "-c"@, "--client"@) ==> r.client == Some(args[i + 1]),
        is_last(args, i, "--node"@, "--node"@) ==> r.node == Some(args[i + 1]),
        is_last(args, i, "-b"@, "--bitrate"@) ==> text::u32_of(args[i + 1]) == Some(
            r.bitrate as u32,
        ),
        is_last(args, i, "--gain"@, "--gain"@) ==> gains[i + 1] == Some(r.gain),
        is_last(args, i, "-g"@, "--groups"@) ==> (r.groups matches Some(list) && cli::groups_in(
            args[i + 1],
        ) == Ok::<Seq<Seq<char>>, Seq<char>>(list)),
        !is_given(args, "-c"@, "--client"@) ==> r.client is None,
        !is_given(args, "--node"@, "--node"@) ==> r.node is None,
        !is_given(args, "-b"@, "--bitrate"@) ==> r.bitrate == 248,
        !is_given(args, "--gain"@, "--gain"@) ==> r.gain.bits == 0x3F80_0000,
        !is_given(args, "-g"@, "--groups"@) ==> r.groups is None,
{
    law_what_a_command_line_comes_to(args, gains);
    lemma_is_given(args, "-c"@, "--client"@);
    lemma_is_given(args, "--node"@, "--node"@);
    lemma_is_given(args, "-b"@, "--bitrate"@);
    lemma_is_given(args, "--gain"@, "--gain"@);
    lemma_is_given(args, "-g"@, "--groups"@);
    if is_last(args, i, "-c"@, "--client"@) {
        lemma_is_last(args, i, "-c"@, "--client"@);
    }
    if is_last(args, i, "--node"@, "--node"@) {
        lemma_is_last(args, i, "--node"@, "--node"@);
    }
    if is_last(args, i, "-b"@, "--bitrate"@) {
        lemma_is_last(args, i, "-b"@, "--bitrate"@);
    }
    if is_last(args, i, "--gain"@, "--gain"@) {
        lemma_is_last(args, i, "--gain"@, "--gain"@);
    }
    if is_last(args, i, "-g"@, "--groups"@) {
        lemma_is_last(args, i, "-g"@, "--groups"@);
    }
}

/// `a` and `b` are two names of one option.
pub open spec fn same_option(a: Seq<char>, b: Seq<char>) -> bool {
    ||| (a == "-h"@ || a == "--help"@) && (b == "-h"@ || b == "--help"@)
    ||| (a == "-V"@ || a == "--version"@) && (b == "-V"@ || b == "--version"@)
    ||| (a == "-c"@ || a == "--client"@) && (b == "-c"@ || b == "--client"@)
    ||| (a == "-a"@ || a == "--all"@) && (b == "-a"@ || b == "--all"@)
    ||| (a == "-b"@ || a == "--bitrate"@) && (b == "-b"@ || b == "--bitrate"@)
    ||| (a == "-g"@ || a == "--groups"@) && (b == "-g"@ || b == "--groups"@)
    ||| (a == "-n"@ || a == "--dry-run"@) && (b == "-n"@ || b == "--dry-run"@)
    ||| (a == "-f"@ || a == "--force"@) && (b == "-f"@ || b == "--force"@)
    ||| (a == "-y"@ || a == "--yes"@) && (b == "-y"@ || b == "--yes"@)
    ||| (a == "-v"@ || a == "--verbose"@) && (b == "-v"@ || b == "--verbose"@)
}

/// Two command lines that differ only in which name of an option is used.
pub open spec fn same_line(a: Seq<Seq<char>>, b: Seq<Seq<char>>) -> bool {
    &&& a.len() == b.len()
    &&& forall|i: int|
        0 <= i < a.len() ==> #[trigger] a[i] == b[i] || !is_value(a, i) && same_option(a[i], b[i])
}

proof fn lemma_same_values(a: Seq<Seq<char>>, b: Seq<Seq<char>>, i: int)
    requires
        same_line(a, b),
        0 <= i <= a.len(),
    ensures
        is_value(a, i) == is_value(b, i),
    decreases i,
{
    if i > 0 {
        lemma_same_values(a, b, i - 1);
        lemma_names();
        assert(a[i - 1] == b[i - 1] || same_option(a[i - 1], b[i - 1]));
    }
}

#[verifier::rlimit(40)]
proof fn lemma_same_step(
    a: Seq<Seq<char>>,
    b: Seq<Seq<char>>,
    gains: Seq<Option<GainModel>>,
    i: int,
    so_far: ArgsModel,
)
    requires
        same_line(a, b),
        0 <= i < a.len(),
        !is_value(a, i),
    ensures
        cli::step(a, gains, i, so_far) == cli::step(b, gains, i, so_far),
        cli::step(a, gains, i, so_far) matches Step::Next(_, j) ==> i < j <= a.len() && !is_value(
            a,
            j,
        ),
{
    lemma_names();
    lemma_plain(a[i]);
    assert(a[i] == b[i] || same_option(a[i], b[i]));
    assert(is_value(a, i + 1) == takes_value(a[i]));
    if i + 1 < a.len() && takes_value(a[i]) {
        assert(a[i + 1] == b[i + 1]);
        assert(!is_value(a, i + 2));
    }
}

proof fn lemma_same_parse(
    a: Seq<Seq<char>>,
    b: Seq<Seq<char>>,
    gains: Seq<Option<GainModel>>,
    i: int,
    so_far: ArgsModel,
)
    requires
        same_line(a, b),
        0 <= i <= a.len(),
        !is_value(a, i),
    ensures
        cli::parsed_from(a, gains, i, so_far) == cli::parsed_from(b, gains, i, so_far),
    decreases a.len() - i,
{
    if i < a.len() {
        lemma_same_step(a, b, gains, i, so_far);
        match cli::step(a, gains, i, so_far) {
            Step::Next(next, j) => {
                lemma_same_parse(a, b, gains, j, next);
            },
            _ => {},
        }
    }
}

/// An option does the same under its short and its long name: a command line in which
/// one is written for the other comes to the same.
pub proof fn law_short_and_long_names_are_one_option(
    a: Seq<Seq<char>>,
    b: Seq<Seq<char>>,
    gains: Seq<Option<GainModel>>,
)
    requires
        same_line(a, b),
    ensures
        cli::parsed_from(a, gains, 0, cli::default_args()) == cli::parsed_from(
            b,
            gains,
            0,
            cli::default_args(),
        ),
{
    lemma_same_parse(a, b, gains, 0, cli::default_args());
}

/// Every command answers to its own name and to no other.
pub proof fn law_every_command_has_its_name(name: Seq<char>)
    ensures
        cli::command_named(name) == Some(Command::Tui) <==> name == "tui"@,
        cli::command_named(name) == Some(Command::Scan) <==> name == "scan"@,
        cli::command_named(name) == Some(Command::Patch) <==> name == "patch"@,
        cli::command_named(name) == Some(Command::Restore) <==> name == "restore"@,
        cli::command_named(name) == Some(Command::Backups) <==> name == "backups"@,
        cli::command_named(name) == Some(Command::Groups) <==> name == "groups"@,
        cli::command_named(name) == Some(Command::Shellcode) <==> name == "shellcode"@,
{
    reveal_strlit("tui");
    reveal_strlit("scan");
    reveal_strlit("patch");
    reveal_strlit("restore");
    reveal_strlit("backups");
    reveal_strlit("groups");
    reveal_strlit("shellcode");
    assert("tui"@.len() == 3 && "scan"@.len() == 4 && "patch"@.len() == 5);
    assert("groups"@.len() == 6 && "shellcode"@.len() == 9);
    assert("restore"@.len() == 7 && "backups"@.len() == 7 && "restore"@[0] != "backups"@[0]);
}

} // verus!
