//! How versions, processes and directories of an install are told.

use crate::discovery;
use crate::discovery::{PartModel, Process, RootModel};
use crate::text;
use vstd::prelude::*;

verus! {

/// `a` comes before `b`: at the first number in which they differ `a` has the smaller
/// one, or `a` ends there.
pub open spec fn is_older(a: Seq<u32>, b: Seq<u32>) -> bool {
    exists|p: int| #[trigger] differs_first(a, b, p)
}

/// `p` is where `a` first falls short of `b`.
pub open spec fn differs_first(a: Seq<u32>, b: Seq<u32>, p: int) -> bool {
    &&& 0 <= p <= a.len()
    &&& p < b.len()
    &&& forall|i: int| 0 <= i < p ==> #[trigger] a[i] == b[i]
    &&& p == a.len() || a[p] < b[p]
}

/// Versions are ordered by their first numbers, then by their second, and so on; a
/// version comes before a longer one that it is the start of.
pub proof fn law_versions_are_ordered_number_by_number(a: Seq<u32>, b: Seq<u32>)
    ensures
        discovery::lex_less(a, b) <==> is_older(a, b),
    decreases a.len(),
{
    if b.len() == 0 {
    } else if a.len() == 0 {
        assert(differs_first(a, b, 0));
    } else if a[0] != b[0] {
        if a[0] < b[0] {
            assert(differs_first(a, b, 0));
        }
        if is_older(a, b) {
            let p = choose|p: int| #[trigger] differs_first(a, b, p);
            if p > 0 {
                assert(a[0] == b[0]);
            }
        }
    } else {
        let x = a.drop_first();
        let y = b.drop_first();
        law_versions_are_ordered_number_by_number(x, y);
        if is_older(x, y) {
            let p = choose|p: int| #[trigger] differs_first(x, y, p);
            assert forall|i: int| 0 <= i < p + 1 implies #[trigger] a[i] == b[i] by {
                if i > 0 {
                    assert(x[i - 1] == y[i - 1]);
                }
            }
            assert(differs_first(a, b, p + 1));
        }
        if is_older(a, b) {
            let p = choose|p: int| #[trigger] differs_first(a, b, p);
            assert(p > 0);
            assert forall|i: int| 0 <= i < p - 1 implies #[trigger] x[i] == y[i] by {
                assert(a[i + 1] == b[i + 1]);
            }
            assert(differs_first(x, y, p - 1));
        }
    }
}

/// The entry is a process whose command line could be read and names the directory.
pub open spec fn runs_from(p: Process, app_dir: Seq<char>, pid: u32) -> bool {
    &&& text::u32_of(p.name@) == Some(pid)
    &&& p.cmdline matches Some(line) && exists|at: int|
        0 <= at && at + app_dir.len() <= line@.len() && #[trigger] line@.subrange(
            at,
            at + app_dir.len(),
        ) == app_dir
}

proof fn lemma_put_number(s: Seq<u32>, x: u32)
    requires
        forall|i: int, j: int| 0 <= i < j < s.len() ==> s[i] <= s[j],
    ensures
        discovery::put_number(s, x).len() == s.len() + 1,
        forall|i: int, j: int|
            0 <= i < j < s.len() + 1 ==> discovery::put_number(s, x)[i] <= discovery::put_number(
                s,
                x,
            )[j],
        forall|y: u32| #[trigger]
            discovery::put_number(s, x).contains(y) <==> y == x || s.contains(y),
    decreases s.len(),
{
    let all = discovery::put_number(s, x);
    if s.len() == 0 || s.last() <= x {
        assert forall|y: u32| #[trigger] all.contains(y) <==> y == x || s.contains(y) by {
            if y == x {
                assert(all[s.len() as int] == y);
            }
            if s.contains(y) {
                let i = choose|i: int| 0 <= i < s.len() && s[i] == y;
                assert(all[i] == y);
            }
        }
    } else {
        let front = s.drop_last();
        lemma_put_number(front, x);
        let rest = discovery::put_number(front, x);
        assert forall|i: int| 0 <= i < rest.len() implies #[trigger] rest[i] <= s.last() by {
            assert(rest.contains(rest[i]));
            if rest[i] != x {
                let j = choose|j: int| 0 <= j < front.len() && front[j] == rest[i];
                assert(s[j] <= s[s.len() - 1]);
            }
        }
        assert forall|y: u32| #[trigger] all.contains(y) <==> y == x || s.contains(y) by {
            if all.contains(y) {
                let i = choose|i: int| 0 <= i < all.len() && all[i] == y;
                if i < rest.len() {
                    assert(rest.contains(y));
                    if y != x {
                        let j = choose|j: int| 0 <= j < front.len() && front[j] == y;
                        assert(s[j] == y);
                    }
                } else {
                    assert(s[s.len() - 1] == y);
                }
            }
            if y == x {
                assert(rest.contains(y));
                let i = choose|i: int| 0 <= i < rest.len() && rest[i] == y;
                assert(all[i] == y);
            } else if s.contains(y) {
                let i = choose|i: int| 0 <= i < s.len() && s[i] == y;
                if i < front.len() {
                    assert(front[i] == y);
                    assert(rest.contains(y));
                    let j = choose|j: int| 0 <= j < rest.len() && rest[j] == y;
                    assert(all[j] == y);
                } else {
                    assert(all[rest.len() as int] == y);
                }
            }
        }
    }
}

/// The ids that hold an install are those of the processes whose command line names
/// its directory, in rising order: no client that runs from it is missed, and no other
/// process is taken for one.
pub proof fn law_the_running_clients_are_found(list: Seq<Process>, app_dir: Seq<char>, n: int)
    requires
        0 <= n <= list.len(),
    ensures
        forall|pid: u32| #[trigger]
            discovery::holders_below(list, app_dir, n).contains(pid) <==> exists|k: int|
                0 <= k < n && runs_from(#[trigger] list[k], app_dir, pid),
        forall|i: int, j: int|
            0 <= i < j < discovery::holders_below(list, app_dir, n).len()
                ==> discovery::holders_below(list, app_dir, n)[i] <= discovery::holders_below(
                list,
                app_dir,
                n,
            )[j],
    decreases n,
{
    let all = discovery::holders_below(list, app_dir, n);
    if n > 0 {
        law_the_running_clients_are_found(list, app_dir, n - 1);
        let before = discovery::holders_below(list, app_dir, n - 1);
        let p = list[n - 1];
        assert forall|pid: u32|
            discovery::holder(p, app_dir) == Some(pid) <==> #[trigger] runs_from(
                p,
                app_dir,
                pid,
            ) by {}
        if let Some(pid) = discovery::holder(p, app_dir) {
            lemma_put_number(before, pid);
        }
        assert forall|pid: u32| #[trigger] all.contains(pid) <==> exists|k: int|
            0 <= k < n && runs_from(#[trigger] list[k], app_dir, pid) by {
            if all.contains(pid) {
                if before.contains(pid) {
                } else {
                    assert(runs_from(list[n - 1], app_dir, pid));
                }
            }
            if exists|k: int| 0 <= k < n && runs_from(#[trigger] list[k], app_dir, pid) {
                let k = choose|k: int| 0 <= k < n && runs_from(#[trigger] list[k], app_dir, pid);
                if k < n - 1 {
                    assert(before.contains(pid));
                } else {
                    assert(discovery::holder(p, app_dir) == Some(pid));
                }
            }
        }
    }
}

/// A module that lies where voice modules do, two levels below a directory that is
/// named as theirs are, has that directory.
pub proof fn law_a_voice_module_has_its_directory(
    dir: Seq<PartModel>,
    name: Seq<char>,
    inner: PartModel,
    file: PartModel,
)
    requires
        dir.len() > 0,
        dir.last() == PartModel::Name(name),
        name.len() >= 14,
        name.take(14) == "discord_voice-"@,
        !(inner is Root),
        !(file is Root),
    ensures
        discovery::module_dir_of(dir.push(inner).push(file)) == Some(dir),
{
    reveal_strlit("discord_voice-");
    let node = dir.push(inner).push(file);
    assert(node.take(dir.len() as int) =~= dir);
    assert(node[dir.len() - 1] == dir.last());
}

/// The updater's database of an install in a channel's directory is the file
/// `installer.db` beside it.
pub proof fn law_the_updater_database_is_beside_the_install(
    dir: Seq<PartModel>,
    name: Seq<char>,
    app: PartModel,
)
    requires
        dir.len() > 0,
        dir.last() == PartModel::Name(name),
        name == "discord"@ || name == "discordptb"@ || name == "discordcanary"@ || name
            == "discorddevelopment"@,
        !(app is Root),
    ensures
        discovery::installer_db_of(dir.push(app)) == Some(
            dir.push(PartModel::Name("installer.db"@)),
        ),
{
    let app_dir = dir.push(app);
    let table = discovery::channel_table();
    assert(app_dir.take(dir.len() as int) =~= dir);
    assert(app_dir[dir.len() - 1] == dir.last());
    assert(table[0].0 == "discord"@);
    assert(table[1].0 == "discordptb"@);
    assert(table[2].0 == "discordcanary"@);
    assert(table[3].0 == "discorddevelopment"@);
}

/// The version of a module that was named by its path is that of the first component
/// that starts with `app-`, and is empty where none does.
pub proof fn law_the_app_directory_gives_the_version(names: Seq<Seq<char>>, k: int)
    requires
        forall|j: int| 0 <= j < k ==> !text::begins(#[trigger] names[j], "app-"@),
        0 <= k <= names.len(),
    ensures
        k == names.len() ==> discovery::version_among(names).len() == 0,
        k < names.len() && text::begins(names[k], "app-"@) ==> discovery::version_among(names)
            == discovery::version_in(names[k].skip(4)),
    decreases k,
{
    reveal_strlit("app-");
    if k > 0 {
        let rest = names.drop_first();
        assert(!text::begins(names[0], "app-"@));
        assert forall|j: int| 0 <= j < k - 1 implies !text::begins(#[trigger] rest[j], "app-"@) by {
            assert(rest[j] == names[j + 1]);
        }
        law_the_app_directory_gives_the_version(rest, k - 1);
    }
}

/// The install of a module that was named by path is the nearest directory above it that
/// has modules, and else the one it is in.
pub proof fn law_the_nearest_modules_directory_is_the_install(has_modules: Seq<bool>, k: int)
    requires
        0 <= k < has_modules.len(),
    ensures
        has_modules[k] && (forall|j: int| 0 <= j < k ==> !#[trigger] has_modules[j])
            ==> discovery::app_dir_place(has_modules) == k,
        (forall|j: int| 0 <= j < has_modules.len() ==> !#[trigger] has_modules[j])
            ==> discovery::app_dir_place(has_modules) == if has_modules.len() > 1 {
            1int
        } else {
            0
        },
{
    if has_modules[k] && (forall|j: int| 0 <= j < k ==> !#[trigger] has_modules[j]) {
        let c = discovery::app_dir_place(has_modules);
        assert(exists|k: int|
            0 <= k < has_modules.len() && #[trigger] has_modules[k] && forall|j: int|
                0 <= j < k ==> !#[trigger] has_modules[j]);
        if c < k {
            assert(!has_modules[c]);
        }
        if k < c {
            assert(!has_modules[k]);
        }
    }
}

/// The roots that are searched: the one that the environment names comes first, and those
/// below the home directory are searched wherever there is one.
pub proof fn law_every_root_is_searched(has_xdg: bool, has_home: bool)
    ensures
        ({
            let roots = discovery::roots_of(has_xdg, has_home);
            &&& has_xdg ==> roots.len() > 0 && roots[0] is Xdg
            &&& roots.contains(RootModel::Xdg) <==> has_xdg
            &&& roots.contains(RootModel::HomeConfig) <==> has_home
            &&& roots.contains(RootModel::Flatpak("com.discordapp.Discord"@)) <==> has_home
            &&& roots.contains(RootModel::Flatpak("com.discordapp.DiscordPTB"@)) <==> has_home
            &&& roots.contains(RootModel::Flatpak("com.discordapp.DiscordCanary"@)) <==> has_home
        }),
{
    let roots = discovery::roots_of(has_xdg, has_home);
    let first: int = if has_xdg {
        1
    } else {
        0
    };
    if has_xdg {
        assert(roots[0] is Xdg);
    }
    if has_home {
        assert(roots[first] is HomeConfig);
        assert(roots[first + 1] == RootModel::Flatpak("com.discordapp.Discord"@));
        assert(roots[first + 2] == RootModel::Flatpak("com.discordapp.DiscordPTB"@));
        assert(roots[first + 3] == RootModel::Flatpak("com.discordapp.DiscordCanary"@));
    }
}

} // verus!
