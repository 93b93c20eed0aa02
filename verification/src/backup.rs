//! Backups of the untouched module, kept per install.
//!
//! The backup is what makes the whole thing reversible, so it is taken before
//! the first write and never overwritten by a later, already-patched copy:
//! backing up a patched file is how a "restore" quietly stops restoring
//! anything.

use crate::discovery;
use crate::discovery::{short_digest, Install, InstallModel};
use crate::md5;
use crate::text;
use crate::text::{cat2, cat3, chars_of, push_char, to_lowercase};
use vstd::prelude::*;

verus! {

/// What this tool's state is kept under.
#[derive(PartialEq, Eq, Clone, Copy, Structural)]
pub enum StateBase {
    /// `$XDG_STATE_HOME`
    Xdg,
    /// `$HOME/.local/state`
    Home,
    /// The current directory, where neither is known.
    Here,
}

/// What this tool's state is kept under, by which variables are set.
pub fn state_base(has_state: bool, has_home: bool) -> (res: StateBase)
    ensures
        res == StateBase::Xdg <==> has_state,
        res == StateBase::Home <==> !has_state && has_home,
        res == StateBase::Here <==> !has_state && !has_home,
{
    if has_state {
        StateBase::Xdg
    } else if has_home {
        StateBase::Home
    } else {
        StateBase::Here
    }
}

/// `s` with every `from` made a `to`.
pub open spec fn with_replaced(s: Seq<char>, from: char, to: char) -> Seq<char> {
    s.map_values(
        |c: char|
            if c == from {
                to
            } else {
                c
            },
    )
}

fn replace_char(s: &str, from: char, to: char) -> (res: String)
    ensures
        res@ == with_replaced(s@, from, to),
{
    let cs = chars_of(s);
    let mut out = String::new();
    let mut i: usize = 0;
    while i < cs.len()
        invariant
            i <= cs@.len(),
            cs@ == s@,
            out@ == with_replaced(s@, from, to).take(i as int),
        decreases cs@.len() - i,
    {
        if cs[i] == from {
            push_char(&mut out, to);
        } else {
            push_char(&mut out, cs[i]);
        }
        i = i + 1;
        assert(out@ =~= with_replaced(s@, from, to).take(i as int));
    }
    assert(with_replaced(s@, from, to).take(i as int) =~= with_replaced(s@, from, to));
    out
}

/// What an install is filed under, given its channel in lower case. An install
/// is where it is: two of one channel and version in different directories are
/// two installs, so the directory's digest is part of the name.
pub open spec fn filed_name(install: InstallModel, channel: Seq<char>) -> Seq<char> {
    match install.key {
        Some(key) => key,
        None => channel + "-"@ + discovery::version_text(install.version) + "-"@
            + discovery::path_digest(install.app_dir),
    }
}

/// What an install is filed under: its key, or its channel, its version and its
/// directory.
pub open spec fn slug_of(install: InstallModel) -> Seq<char> {
    filed_name(install, text::lowercase(with_replaced(install.channel, ' ', '_')))
}

/// What an install is filed under, given its channel in lower case.
pub fn filed_as(install: &Install, channel: &str) -> (res: String)
    ensures
        res@ == filed_name(install@, channel@),
{
    match &install.key {
        Some(key) => key.clone(),
        None => {
            let mut out = cat3(channel, "-", install.version.to_text().as_str());
            out.append("-");
            out.append(short_digest(install.app_dir.as_str()).as_str());
            out
        },
    }
}

/// What an install is filed under.
pub fn slug(install: &Install) -> (res: String)
    ensures
        res@ == slug_of(install@),
{
    let channel = replace_char(install.channel.as_str(), ' ', '_');
    filed_as(install, to_lowercase(channel.as_str()).as_str())
}

/// The file name of an install's backup.
pub fn file_name(install: &Install) -> (res: String)
    ensures
        res@ == slug_of(install@) + ".node"@,
{
    cat2(slug(install).as_str(), ".node")
}

/// The file name that a copy of Discord's updater database is kept under.
///
/// It holds no user data (an install id, and the versions and file manifests of
/// what is installed) but it is Discord's, not ours, and deleting someone else's
/// file without keeping a copy is not a thing to do on a hunch. Kept under this
/// tool's own directory rather than beside the original, so that Discord never
/// sees a file it did not put there.
pub fn registry_name(install: &Install) -> (res: String)
    ensures
        res@ == slug_of(install@) + "-installer.db"@,
{
    cat2(slug(install).as_str(), "-installer.db")
}

/// The name of a backup file: something, then `.node`.
pub open spec fn names_backup(name: Seq<char>) -> bool {
    name.len() > 5 && name.skip(name.len() - 5) == seq!['.', 'n', 'o', 'd', 'e']
}

/// Whether a directory entry of that name is a backup.
pub fn is_backup_name(name: &str) -> (res: bool)
    ensures
        res == names_backup(name@),
{
    let cs = chars_of(name);
    let n: usize = cs.len();
    if n <= 5 {
        return false;
    }
    let ghost tail = name@.skip(n - 5);
    let res = cs[n - 5] == '.' && cs[n - 4] == 'n' && cs[n - 3] == 'o' && cs[n - 2] == 'd' && cs[n
        - 1] == 'e';
    proof {
        if res {
            assert(tail =~= seq!['.', 'n', 'o', 'd', 'e']);
        } else {
            assert(tail[0] == name@[n - 5] && tail[1] == name@[n - 4] && tail[2] == name@[n - 3]
                && tail[3] == name@[n - 2] && tail[4] == name@[n - 1]);
        }
    }
    res
}

/// The message where there is nothing to restore from.
pub fn no_backup(path: &str) -> (res: String)
    ensures
        res@ == "no backup on record at "@ + path@,
{
    cat2("no backup on record at ", path)
}

/// A module that was named by path is filed under its key alone.
pub proof fn law_a_key_decides_the_name(install: InstallModel, channel: Seq<char>)
    requires
        install.key is Some,
    ensures
        filed_name(install, channel) == install.key->0,
        slug_of(install) == install.key->0,
{
}

/// The digest that an install is told apart by: that of its directory, or that of
/// the path it was named by.
pub open spec fn filed_by(install: InstallModel, digest: Seq<char>) -> bool {
    match install.key {
        Some(key) => exists|path: Seq<char>|
            key == #[trigger] discovery::path_key(path) && digest == discovery::path_digest(path),
        None => digest == discovery::path_digest(install.app_dir),
    }
}

/// One backup per install: two installs are filed apart wherever the digests of
/// their directories, or of the paths they were named by, start differently. So
/// restoring one never writes the module of another.
pub proof fn law_one_backup_per_install(
    a: InstallModel,
    b: InstallModel,
    of_a: Seq<char>,
    of_b: Seq<char>,
)
    requires
        filed_by(a, of_a),
        filed_by(b, of_b),
        of_a != of_b,
    ensures
        slug_of(a) != slug_of(b),
        slug_of(a) + ".node"@ != slug_of(b) + ".node"@,
        slug_of(a) + "-installer.db"@ != slug_of(b) + "-installer.db"@,
{
    lemma_ends_in_its_digest(a, of_a);
    lemma_ends_in_its_digest(b, of_b);
    lemma_same_start(slug_of(a), slug_of(b), ".node"@);
    lemma_same_start(slug_of(a), slug_of(b), "-installer.db"@);
}

proof fn lemma_same_start(a: Seq<char>, b: Seq<char>, tail: Seq<char>)
    ensures
        a + tail == b + tail ==> a == b,
{
    if a + tail == b + tail {
        assert((a + tail).len() == (b + tail).len());
        assert((a + tail).take(a.len() as int) =~= a);
        assert((b + tail).take(a.len() as int) =~= b);
    }
}

proof fn lemma_ends_in_its_digest(install: InstallModel, digest: Seq<char>)
    requires
        filed_by(install, digest),
    ensures
        slug_of(install).len() >= 12,
        slug_of(install).skip(slug_of(install).len() - 12) == digest,
{
    let name = slug_of(install);
    let path = match install.key {
        Some(key) => choose|path: Seq<char>|
            key == #[trigger] discovery::path_key(path) && digest == discovery::path_digest(path),
        None => install.app_dir,
    };
    md5::law_digests_are_32_hex_digits(vstd::utf8::encode_utf8(path));
    assert(digest.len() == 12);
    assert(name.skip(name.len() - 12) =~= digest);
}

/// The backup of an install is listed as a backup, and the copy of the updater's record
/// beside it is not.
pub proof fn law_backups_are_told_from_records(install: InstallModel)
    requires
        slug_of(install).len() > 0,
    ensures
        names_backup(slug_of(install) + ".node"@),
        !names_backup(slug_of(install) + "-installer.db"@),
{
    let slug = slug_of(install);
    let backup = slug + ".node"@;
    let record = slug + "-installer.db"@;
    reveal_strlit(".node");
    reveal_strlit("-installer.db");
    assert(backup.skip(backup.len() - 5) =~= seq!['.', 'n', 'o', 'd', 'e']);
    assert(record.skip(record.len() - 5)[4] == 'b');
    assert(seq!['.', 'n', 'o', 'd', 'e'][4] == 'e');
}

} // verus!
