//! The groups of sites that are turned on or off as one unit.
//!
//! The catalogue is organised by what the machine code does; this is organised
//! by what the person sitting there is choosing. Every site belongs to exactly
//! one group, and the summary has to make sense to someone who has never heard
//! of Opus.

use crate::text;
use crate::text::str_eq;
use vstd::prelude::*;

verus! {

/// A group of sites the user turns on or off as one unit.
#[derive(Clone, Copy)]
pub struct Group {
    pub name: &'static str,
    /// Short label for the picker.
    pub title: &'static str,
    /// What this does to your audio, in plain words.
    pub summary: &'static str,
    /// Shown under the summary when the choice has a catch worth knowing.
    pub caveat: Option<&'static str>,
    /// Whether it is on unless the user says otherwise. On for everything that
    /// gets the signal through untouched; off for anything that is a trade.
    pub default_on: bool,
}

#[verifier::ext_equal]
pub struct GroupModel {
    pub name: Seq<char>,
    pub title: Seq<char>,
    pub summary: Seq<char>,
    pub caveat: Option<Seq<char>>,
    pub default_on: bool,
}

impl View for Group {
    type V = GroupModel;

    open spec fn view(&self) -> GroupModel {
        GroupModel {
            name: self.name@,
            title: self.title@,
            summary: self.summary@,
            caveat: match self.caveat {
                Some(text) => Some(text@),
                None => None,
            },
            default_on: self.default_on,
        }
    }
}

pub const GROUP_COUNT: usize = 11;

pub const SUMMARY_STEREO: &'static str =
    "Sends left and right as separate channels instead of mixing them into one. This is the main reason to use stereocord.";

pub const CAVEAT_STEREO: &'static str =
    "A mono microphone still gives you two identical channels.";

pub const SUMMARY_SAMPLERATE: &'static str =
    "Keeps the full sample rate instead of dropping to 32 kHz, which throws away the top of the treble.";

pub const SUMMARY_BITRATE: &'static str =
    "Raises how much data each second of audio may use, far above what Discord normally allows. Choose the amount with --bitrate.";

pub const SUMMARY_OPUS: &'static str =
    "Tells the encoder it is handling music rather than a phone call, and lets it accept the settings above.";

pub const SUMMARY_CELT: &'static str =
    "Stops the encoder switching to its speech mode partway through, which would fold the stereo image down and cut the highs.";

pub const SUMMARY_ENCODER: &'static str =
    "Quality dial to maximum and the full frequency range, and stops Discord spending part of your bitrate on error correction, silence detection, or shorter frames when the network dips.";

pub const SUMMARY_FILTER: &'static str =
    "Removes the filters that cut the low end out of your signal before it reaches the encoder.";

pub const SUMMARY_GAIN: &'static str =
    "Stops Discord riding your volume up and down on its own, and stops it moving your system input slider. Your level goes out the way you set it.";

pub const CAVEAT_GAIN: &'static str =
    "Set your input level yourself; nothing will rescue a quiet or clipping source.";

pub const SUMMARY_DENOISE: &'static str =
    "Turns off noise suppression. It is tuned for speech and treats quiet detail — room tone, reverb tails, fade-outs — as noise to be deleted.";

pub const CAVEAT_DENOISE: &'static str =
    "Steady background noise in your room will now be audible to everyone.";

pub const SUMMARY_ECHO: &'static str =
    "Turns off the echo canceller, which subtracts a guess at what your speakers are playing from what your microphone hears. It is the most destructive thing in the chain for music.";

pub const CAVEAT_ECHO: &'static str =
    "Headphones only. On speakers, everyone else will hear themselves echoing back.";

pub const SUMMARY_CBR: &'static str =
    "Sends the same amount of data every moment instead of easing off during quiet passages. Steadier on the network, not better sounding.";

pub const CAVEAT_CBR: &'static str =
    "Off by default: it uses noticeably more bandwidth for no gain in quality.";

/// The group at one place of the picker: what gets sent, then how it is encoded,
/// then what would otherwise be done to the signal on the way in.
#[verifier::opaque]
pub open spec fn group_model(i: int) -> GroupModel {
    if i == 0 {
        GroupModel {
            name: "stereo"@,
            title: "True stereo"@,
            summary: SUMMARY_STEREO@,
            caveat: Some(CAVEAT_STEREO@),
            default_on: true,
        }
    } else if i == 1 {
        GroupModel {
            name: "samplerate"@,
            title: "Full 48 kHz"@,
            summary: SUMMARY_SAMPLERATE@,
            caveat: None,
            default_on: true,
        }
    } else if i == 2 {
        GroupModel {
            name: "bitrate"@,
            title: "High bitrate"@,
            summary: SUMMARY_BITRATE@,
            caveat: None,
            default_on: true,
        }
    } else if i == 3 {
        GroupModel {
            name: "opus"@,
            title: "Music mode"@,
            summary: SUMMARY_OPUS@,
            caveat: None,
            default_on: true,
        }
    } else if i == 4 {
        GroupModel {
            name: "celt"@,
            title: "Stay in music mode"@,
            summary: SUMMARY_CELT@,
            caveat: None,
            default_on: true,
        }
    } else if i == 5 {
        GroupModel {
            name: "encoder"@,
            title: "Encoder pinned wide open"@,
            summary: SUMMARY_ENCODER@,
            caveat: None,
            default_on: true,
        }
    } else if i == 6 {
        GroupModel {
            name: "filter"@,
            title: "No bass filtering"@,
            summary: SUMMARY_FILTER@,
            caveat: None,
            default_on: true,
        }
    } else if i == 7 {
        GroupModel {
            name: "gain"@,
            title: "No automatic volume"@,
            summary: SUMMARY_GAIN@,
            caveat: Some(CAVEAT_GAIN@),
            default_on: true,
        }
    } else if i == 8 {
        GroupModel {
            name: "denoise"@,
            title: "No noise removal"@,
            summary: SUMMARY_DENOISE@,
            caveat: Some(CAVEAT_DENOISE@),
            default_on: true,
        }
    } else if i == 9 {
        GroupModel {
            name: "echo"@,
            title: "No echo cancellation"@,
            summary: SUMMARY_ECHO@,
            caveat: Some(CAVEAT_ECHO@),
            default_on: true,
        }
    } else {
        GroupModel {
            name: "cbr"@,
            title: "Constant bitrate"@,
            summary: SUMMARY_CBR@,
            caveat: Some(CAVEAT_CBR@),
            default_on: false,
        }
    }
}

/// Every group, in picker order.
pub open spec fn group_catalogue() -> Seq<GroupModel> {
    Seq::new(GROUP_COUNT as nat, |i: int| group_model(i))
}

/// The models of a list of groups.
pub open spec fn group_models(list: Seq<&'static Group>) -> Seq<GroupModel> {
    list.map_values(|g: &'static Group| g@)
}

/// A group of that name exists.
pub open spec fn declared(name: Seq<char>) -> bool {
    exists|i: int| 0 <= i < group_catalogue().len() && (#[trigger] group_catalogue()[i]).name == name
}

/// The names of the groups below place `n` that are on unless the user says
/// otherwise.
pub open spec fn defaults_below(n: int) -> Seq<Seq<char>>
    decreases n,
{
    if n <= 0 {
        seq![]
    } else if group_catalogue()[n - 1].default_on {
        defaults_below(n - 1).push(group_catalogue()[n - 1].name)
    } else {
        defaults_below(n - 1)
    }
}

fn group_at(i: usize) -> (res: &'static Group)
    requires
        i < GROUP_COUNT,
    ensures
        res@ == group_model(i as int),
{
    proof {
        reveal(group_model);
    }
    if i == 0 {
        &Group {
            name: "stereo",
            title: "True stereo",
            summary: SUMMARY_STEREO,
            caveat: Some(CAVEAT_STEREO),
            default_on: true,
        }
    } else if i == 1 {
        &Group {
            name: "samplerate",
            title: "Full 48 kHz",
            summary: SUMMARY_SAMPLERATE,
            caveat: None,
            default_on: true,
        }
    } else if i == 2 {
        &Group {
            name: "bitrate",
            title: "High bitrate",
            summary: SUMMARY_BITRATE,
            caveat: None,
            default_on: true,
        }
    } else if i == 3 {
        &Group {
            name: "opus",
            title: "Music mode",
            summary: SUMMARY_OPUS,
            caveat: None,
            default_on: true,
        }
    } else if i == 4 {
        &Group {
            name: "celt",
            title: "Stay in music mode",
            summary: SUMMARY_CELT,
            caveat: None,
            default_on: true,
        }
    } else if i == 5 {
        &Group {
            name: "encoder",
            title: "Encoder pinned wide open",
            summary: SUMMARY_ENCODER,
            caveat: None,
            default_on: true,
        }
    } else if i == 6 {
        &Group {
            name: "filter",
            title: "No bass filtering",
            summary: SUMMARY_FILTER,
            caveat: None,
            default_on: true,
        }
    } else if i == 7 {
        &Group {
            name: "gain",
            title: "No automatic volume",
            summary: SUMMARY_GAIN,
            caveat: Some(CAVEAT_GAIN),
            default_on: true,
        }
    } else if i == 8 {
        &Group {
            name: "denoise",
            title: "No noise removal",
            summary: SUMMARY_DENOISE,
            caveat: Some(CAVEAT_DENOISE),
            default_on: true,
        }
    } else if i == 9 {
        &Group {
            name: "echo",
            title: "No echo cancellation",
            summary: SUMMARY_ECHO,
            caveat: Some(CAVEAT_ECHO),
            default_on: true,
        }
    } else {
        &Group {
            name: "cbr",
            title: "Constant bitrate",
            summary: SUMMARY_CBR,
            caveat: Some(CAVEAT_CBR),
            default_on: false,
        }
    }
}

/// Every group, in picker order.
pub fn groups() -> (res: Vec<&'static Group>)
    ensures
        group_models(res@) == group_catalogue(),
{
    let mut out: Vec<&'static Group> = Vec::new();
    let mut i: usize = 0;
    while i < GROUP_COUNT
        invariant
            i <= GROUP_COUNT,
            group_models(out@) == group_catalogue().take(i as int),
        decreases GROUP_COUNT - i,
    {
        let group = group_at(i);
        assert(group_models(out@.push(group)) =~= group_models(out@).push(group@));
        assert(group_catalogue().take(i + 1) =~= group_catalogue().take(i as int).push(
            group_catalogue()[i as int],
        ));
        out.push(group);
        i = i + 1;
    }
    assert(group_catalogue().take(i as int) =~= group_catalogue());
    out
}

/// The groups that are on when nobody has said otherwise.
pub fn default_groups() -> (res: Vec<&'static str>)
    ensures
        text::str_views(res@) == defaults_below(GROUP_COUNT as int),
{
    let mut out: Vec<&'static str> = Vec::new();
    let mut i: usize = 0;
    while i < GROUP_COUNT
        invariant
            i <= GROUP_COUNT,
            text::str_views(out@) == defaults_below(i as int),
        decreases GROUP_COUNT - i,
    {
        let group = group_at(i);
        if group.default_on {
            assert(text::str_views(out@.push(group.name)) =~= text::str_views(out@).push(
                group.name@,
            ));
            out.push(group.name);
        }
        i = i + 1;
    }
    out
}

/// The group of that name.
pub fn group(name: &str) -> (res: Option<&'static Group>)
    ensures
        res is Some == declared(name@),
        res matches Some(g) ==> group_catalogue().contains(g@) && g@.name == name@,
{
    let mut i: usize = 0;
    while i < GROUP_COUNT
        invariant
            i <= GROUP_COUNT,
            forall|j: int| 0 <= j < i ==> (#[trigger] group_catalogue()[j]).name != name@,
        decreases GROUP_COUNT - i,
    {
        let group = group_at(i);
        assert(group_catalogue()[i as int] == group@);
        if str_eq(group.name, name) {
            return Some(group);
        }
        i = i + 1;
    }
    None
}

/// Group names are unique, so a name picks one group out.
pub proof fn law_group_names_are_unique()
    ensures
        forall|i: int, j: int|
            0 <= i < j < group_catalogue().len() ==> (#[trigger] group_catalogue()[i]).name != (
            #[trigger] group_catalogue()[j]).name,
{
    reveal(group_model);
    reveal_strlit("stereo");
    reveal_strlit("samplerate");
    reveal_strlit("bitrate");
    reveal_strlit("opus");
    reveal_strlit("celt");
    reveal_strlit("encoder");
    reveal_strlit("filter");
    reveal_strlit("gain");
    reveal_strlit("denoise");
    reveal_strlit("echo");
    reveal_strlit("cbr");
    let all = group_catalogue();
    assert forall|i: int, j: int| 0 <= i < j < all.len() implies (#[trigger] all[i]).name != (
    #[trigger] all[j]).name by {
        assert(all[i].name.len() != all[j].name.len() || all[i].name[0] != all[j].name[0]);
    }
}

} // verus!
