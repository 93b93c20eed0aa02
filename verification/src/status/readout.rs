//! The readout: what a module does to the audio, one line per question.

use crate::sites;
use crate::sites::Site;
use crate::status;
use crate::status::SiteState;
use crate::text;
use crate::text::{cat3, join_strs, str_eq, to_decimal};
use vstd::prelude::*;

verus! {

/// How a row reads at a glance. The colour is the whole point of the panel:
/// someone should be able to tell whether their audio is intact without
/// reading a word.
#[derive(Clone, Copy, PartialEq, Eq, Structural)]
pub enum Level {
    /// The signal gets through untouched.
    Good,
    /// Works, but with a catch worth naming.
    Warn,
    /// Discord is still degrading this.
    Bad,
    /// Neither good nor bad: a setting that is a trade either way.
    Neutral,
    /// Not determinable on this build.
    Unknown,
}

/// One line of the readout.
pub struct Row {
    pub label: &'static str,
    pub value: String,
    pub level: Level,
    /// One sentence, for someone who does not know what any of these words
    /// mean. Shown under the panel for whichever row is highlighted.
    pub note: String,
}

#[verifier::ext_equal]
pub struct RowModel {
    pub label: Seq<char>,
    pub value: Seq<char>,
    pub level: Level,
    pub note: Seq<char>,
}

impl View for Row {
    type V = RowModel;

    open spec fn view(&self) -> RowModel {
        RowModel {
            label: self.label@,
            value: self.value@,
            level: self.level,
            note: self.note@,
        }
    }
}

pub open spec fn row_views(rows: Seq<Row>) -> Seq<RowModel> {
    rows.map_values(|r: Row| r@)
}

/// The character that stands for a level where there is no colour to lean on.
pub open spec fn glyph_of(level: Level) -> Seq<char> {
    match level {
        Level::Good => "+"@,
        Level::Warn => "~"@,
        Level::Bad => "-"@,
        Level::Neutral => "."@,
        Level::Unknown => "?"@,
    }
}

/// The same shape the interface draws, for output that has no colour to lean
/// on. A pipe, a log, a bug report: the glyph has to carry the meaning alone.
pub fn plain_glyph(level: Level) -> (res: &'static str)
    ensures
        res@ == glyph_of(level),
{
    match level {
        Level::Good => "+",
        Level::Warn => "~",
        Level::Bad => "-",
        Level::Neutral => ".",
        Level::Unknown => "?",
    }
}

// ---------------------------------------------------------------------------
// Answers
// ---------------------------------------------------------------------------

#[derive(PartialEq, Eq, Clone, Copy, Structural)]
pub enum Verdict {
    /// Everything that had to be in place is.
    Yes,
    /// Nothing is.
    No,
    /// Some is and some demonstrably is not.
    Partial,
    /// Too much of it could not be read to say.
    Unclear,
}

/// Is this site doing its job? `None` means the file could not be read there,
/// which is a third answer and not a synonym for "no".
///
/// Keeping that distinction is the whole discipline of this module. A patched
/// module with no backup hides most of its own evidence, and the tempting
/// shortcut (treat unreadable as unpatched) turns a fully patched install into a
/// panel of red warnings about things that are in fact fine.
pub open spec fn answer(state: SiteState) -> Option<bool> {
    match state {
        // A build that does not have the code has nothing left to do here.
        SiteState::Applied | SiteState::Excused => Some(true),
        SiteState::Stock | SiteState::Foreign => Some(false),
        SiteState::Unknown => None,
    }
}

/// As [`answer`], but "this build does not have it" reads as unreadable rather
/// than as done. Used where the excuse is conditional on another site actually
/// being applied, which resolving alone does not establish.
pub open spec fn strict_answer(state: SiteState) -> Option<bool> {
    match state {
        SiteState::Applied => Some(true),
        SiteState::Stock | SiteState::Foreign => Some(false),
        SiteState::Unknown | SiteState::Excused => None,
    }
}

pub open spec fn tri(states: Seq<(Seq<char>, SiteState)>, name: Seq<char>) -> Option<bool> {
    answer(status::state_named(states, name))
}

pub open spec fn tri_strict(states: Seq<(Seq<char>, SiteState)>, name: Seq<char>) -> Option<bool> {
    strict_answer(status::state_named(states, name))
}

/// What several answers amount to.
pub open spec fn verdict_of(readings: Seq<Option<bool>>) -> Verdict {
    if readings.len() == 0 {
        Verdict::Unclear
    } else if forall|i: int| 0 <= i < readings.len() ==> #[trigger] readings[i] == Some(true) {
        Verdict::Yes
    } else if forall|i: int| 0 <= i < readings.len() ==> #[trigger] readings[i] == Some(false) {
        Verdict::No
    } else if readings.contains(Some(true)) && readings.contains(Some(false)) {
        Verdict::Partial
    } else {
        Verdict::Unclear
    }
}

/// The answers of a group's sites among the first `n`, all of them or only the
/// critical ones.
pub open spec fn group_answers(
    states: Seq<(Seq<char>, SiteState)>,
    group: Seq<char>,
    only_critical: bool,
    n: int,
) -> Seq<Option<bool>>
    decreases n,
{
    if n <= 0 {
        seq![]
    } else {
        let site = sites::catalogue()[n - 1];
        let before = group_answers(states, group, only_critical, n - 1);
        if site.group == group && (site.critical || !only_critical) {
            before.push(tri(states, site.name))
        } else {
            before
        }
    }
}

pub open spec fn selected_verdict(
    states: Seq<(Seq<char>, SiteState)>,
    group: Seq<char>,
    only_critical: bool,
) -> Verdict {
    verdict_of(group_answers(states, group, only_critical, sites::catalogue().len() as int))
}

/// Two filters, each of which can be out of the path more than one way: the
/// function replaced, its coefficient zeroed, or the build unable to reach it at
/// all. The last of those is conditional (libopus skips `hp_cutoff` only in the
/// mode the application patch selects) so it counts only when that patch is
/// actually applied, not merely when its site was found.
pub open spec fn low_cut_readings(states: Seq<(Seq<char>, SiteState)>) -> Seq<Option<bool>> {
    let coefficient = tri_strict(states, "DcReject_Coefficient"@);
    let replaced = tri_strict(states, "DcReject_Inject"@);
    seq![
        tri(states, "SplHighPass_Entry"@),
        match status::state_named(states, "HpCutoff_Inject"@) {
            SiteState::Excused => tri(states, "OpusConfig_Application"@),
            state => answer(state),
        },
        if coefficient == Some(true) || replaced == Some(true) {
            Some(true)
        } else if coefficient == Some(false) || replaced == Some(false) {
            Some(false)
        } else {
            None
        },
    ]
}

fn read_tri(states: &Vec<(&'static str, SiteState)>, name: &str) -> (res: Option<bool>)
    ensures
        res == tri(status::state_views(states@), name@),
{
    match status::find_state(states, name) {
        SiteState::Applied | SiteState::Excused => Some(true),
        SiteState::Stock | SiteState::Foreign => Some(false),
        SiteState::Unknown => None,
    }
}

fn read_tri_strict(states: &Vec<(&'static str, SiteState)>, name: &str) -> (res: Option<bool>)
    ensures
        res == tri_strict(status::state_views(states@), name@),
{
    match status::find_state(states, name) {
        SiteState::Applied => Some(true),
        SiteState::Stock | SiteState::Foreign => Some(false),
        SiteState::Unknown | SiteState::Excused => None,
    }
}

fn combine(readings: &Vec<Option<bool>>) -> (res: Verdict)
    ensures
        res == verdict_of(readings@),
{
    let n: usize = readings.len();
    let mut yes: usize = 0;
    let mut no: usize = 0;
    let mut i: usize = 0;
    while i < n
        invariant
            i <= n,
            n == readings@.len(),
            yes + no <= i,
            yes == i <==> forall|j: int| 0 <= j < i ==> #[trigger] readings@[j] == Some(true),
            no == i <==> forall|j: int| 0 <= j < i ==> #[trigger] readings@[j] == Some(false),
            yes > 0 <==> exists|j: int| 0 <= j < i && #[trigger] readings@[j] == Some(true),
            no > 0 <==> exists|j: int| 0 <= j < i && #[trigger] readings@[j] == Some(false),
        decreases n - i,
    {
        match readings[i] {
            Some(true) => {
                assert(readings@[i as int] == Some(true));
                yes = yes + 1;
            },
            Some(false) => {
                assert(readings@[i as int] == Some(false));
                no = no + 1;
            },
            None => {
                assert(readings@[i as int] == None::<bool>);
            },
        }
        i = i + 1;
    }
    if n == 0 {
        Verdict::Unclear
    } else if yes == n {
        Verdict::Yes
    } else if no == n {
        Verdict::No
    } else if yes > 0 && no > 0 {
        Verdict::Partial
    } else {
        Verdict::Unclear
    }
}

fn verdict_for(
    states: &Vec<(&'static str, SiteState)>,
    group: &str,
    only_critical: bool,
) -> (res: Verdict)
    ensures
        res == selected_verdict(status::state_views(states@), group@, only_critical),
{
    let list = sites::sites();
    let ghost cat = sites::catalogue();
    let mut readings: Vec<Option<bool>> = Vec::new();
    let mut i: usize = 0;
    assert(sites::models(list@).len() == cat.len());
    while i < list.len()
        invariant
            i <= list@.len(),
            cat == sites::catalogue(),
            sites::models(list@) == cat,
            readings@ == group_answers(status::state_views(states@), group@, only_critical, i as int),
        decreases list@.len() - i,
    {
        let site: &'static Site = list[i];
        assert(cat[i as int] == sites::models(list@)[i as int]);
        if str_eq(site.group, group) && (site.critical || !only_critical) {
            readings.push(read_tri(states, site.name));
        }
        i = i + 1;
    }
    combine(&readings)
}

fn read_low_cut(states: &Vec<(&'static str, SiteState)>) -> (res: Verdict)
    ensures
        res == verdict_of(low_cut_readings(status::state_views(states@))),
{
    let high_pass = read_tri(states, "SplHighPass_Entry");
    let cutoff = match status::find_state(states, "HpCutoff_Inject") {
        SiteState::Applied => Some(true),
        SiteState::Excused => read_tri(states, "OpusConfig_Application"),
        SiteState::Stock | SiteState::Foreign => Some(false),
        SiteState::Unknown => None,
    };
    let coefficient = read_tri_strict(states, "DcReject_Coefficient");
    let replaced = read_tri_strict(states, "DcReject_Inject");
    let dc = match (coefficient, replaced) {
        (Some(true), _) | (_, Some(true)) => Some(true),
        (None, None) => None,
        _ => Some(false),
    };
    let readings: Vec<Option<bool>> = vec![high_pass, cutoff, dc];
    assert(readings@ =~= low_cut_readings(status::state_views(states@)));
    combine(&readings)
}

/// "a, b and c": the note is prose, and a bare comma list reads as a dump.
pub open spec fn joined_and(items: Seq<Seq<char>>) -> Seq<char> {
    if items.len() == 0 {
        "nothing"@
    } else if items.len() == 1 {
        items[0]
    } else {
        text::joined(items.drop_last(), ", "@) + " and "@ + items.last()
    }
}

/// "a, b and c": the note is prose, and a bare comma list reads as a dump.
pub fn join_and(items: &Vec<&'static str>) -> (res: String)
    ensures
        res@ == joined_and(text::str_views(items@)),
{
    if items.len() == 0 {
        return "nothing".to_owned();
    }
    let last: &'static str = items[items.len() - 1];
    assert(text::str_views(items@).last() == last@);
    if items.len() == 1 {
        return last.to_owned();
    }
    let mut rest: Vec<&'static str> = Vec::new();
    let mut i: usize = 0;
    while i < items.len() - 1
        invariant
            items@.len() >= 2,
            i <= items@.len() - 1,
            rest@ == items@.take(i as int),
        decreases items@.len() - 1 - i,
    {
        rest.push(items[i]);
        i = i + 1;
        assert(rest@ =~= items@.take(i as int));
    }
    assert(text::str_views(rest@) =~= text::str_views(items@).drop_last());
    cat3(join_strs(&rest, ", ").as_str(), " and ", last)
}

// ---------------------------------------------------------------------------
// The rows
// ---------------------------------------------------------------------------

pub const UNREADABLE: &'static str =
    "This part of the module could not be read. Restoring the original and scanning again will say for certain.";

pub const STEREO_HELD: &'static str =
    "Left and right go out as two separate channels, and Discord cannot quietly fold them back together when the network dips.";

pub const STEREO_LOOSE: &'static str =
    "Calls start in stereo, but Discord is still allowed to drop back to one channel when it thinks your connection is struggling. It does not come back on its own.";

pub const STEREO_PLAIN: &'static str =
    "Left and right go out as two separate channels. Whether Discord can still drop back to mono partway through a call could not be read here.";

pub const STEREO_PARTIAL: &'static str =
    "Some of the stereo changes are in place and some are not, which usually means stereo is negotiated and then sent as one channel. Patching again fixes it.";

pub const STEREO_OFF: &'static str =
    "Discord mixes your left and right together before anyone hears them.";

pub const RATE_FULL: &'static str =
    "The full sample rate is kept, so the top of the treble survives.";

pub const RATE_LOW: &'static str =
    "Discord resamples you down to 32 kHz, which throws away everything above about 16 kHz.";

pub const BITRATE_LOCKED: &'static str =
    "Every request to change the bitrate is overridden with this value, including the one the server sends when you join a channel.";

pub const BITRATE_START: &'static str =
    "The encoder starts here, but Discord can still talk it down once you are in a channel.";

pub const BITRATE_FREE: &'static str =
    "Normally 64 kbps, or up to 384 in a boosted server — and Discord lowers it again whenever it decides the connection needs it to.";

pub const MODE_MUSIC: &'static str =
    "The encoder is told it is handling music rather than a phone call, and it accepts the settings above instead of rejecting them.";

pub const MODE_CHECKED: &'static str =
    "The encoder is in music mode, but the check that would otherwise throw out a high bitrate or a second channel is still in place.";

pub const MODE_VOICE: &'static str =
    "The encoder is tuned for speech: it narrows the stereo image and spends its bitrate on intelligibility rather than on fidelity.";

pub const CELT_LOCKED: &'static str =
    "The encoder cannot switch to its speech mode partway through, which would fold the stereo image down and cut the highs.";

pub const CELT_PARTIAL: &'static str =
    "Only some of the mode locks are in place, so the encoder may still switch to speech mode.";

pub const CELT_FREE: &'static str =
    "The encoder can drop into speech mode on its own, which narrows the stereo image and cuts the top end.";

pub const LOW_BYPASSED: &'static str =
    "Nothing removes the low end of your signal before it is encoded. Bass, room tone and the body of instruments stay in.";

pub const LOW_PARTIAL: &'static str =
    "One of the low-cut filters is still in the path, so some of the bottom end is still being removed.";

pub const LOW_ACTIVE: &'static str =
    "Discord filters the low end out of your signal on the way in, which thins out anything with bass in it.";

pub const HIGH_FULL: &'static str =
    "The encoder has to code the whole audible range instead of narrowing it when it wants to save data.";

pub const HIGH_FREE: &'static str =
    "The encoder narrows the top end on its own when it decides the connection cannot carry it.";

pub const HELD_OPEN: &'static str =
    "Quality is pinned to maximum, and none of your bitrate is spent on error correction, silence detection or shorter frames when the connection dips.";

pub const LOOSE_HEAD: &'static str =
    "Discord still decides ";

pub const LOOSE_TAIL: &'static str =
    ". It is free to spend part of your bitrate on those rather than on the sound itself whenever it decides the network needs it.";

pub const GAIN_OFF: &'static str =
    "Your level goes out the way you set it. Nothing rides it up and down, and nothing moves your system input slider behind your back.";

pub const GAIN_ON: &'static str =
    "Discord adjusts your volume for you. On music this is audible as pumping: quiet parts pushed up, loud parts pulled down.";

pub const DENOISE_OFF: &'static str =
    "Nothing is being deleted from your signal. Room tone, reverb tails and fade-outs survive.";

pub const DENOISE_ON: &'static str =
    "Noise suppression is running. It is tuned for speech and treats quiet detail as noise to be removed.";

pub const ECHO_OFF: &'static str =
    "The echo canceller is out of the path. It is the most destructive thing in the chain for music — but you need headphones now.";

pub const ECHO_ON: &'static str =
    "Discord is subtracting a guess at what your speakers are playing from what your microphone hears, and guessing wrong on music.";

pub const PROCESSING_PARTIAL: &'static str =
    "Some of this is switched off and some is not, so it is still touching your signal.";

pub const CBR_ON: &'static str =
    "The same amount of data goes out every moment, including during silence. Steadier on the network, not better sounding.";

pub const CBR_OFF: &'static str =
    "The encoder eases off during quiet passages, which is the normal and slightly more efficient behaviour.";

pub open spec fn text_row(label: Seq<char>, level: Level, value: Seq<char>, note: Seq<char>) -> RowModel {
    RowModel { label, value, level, note }
}

fn row(label: &'static str, level: Level, value: &str, note: &str) -> (res: Row)
    ensures
        res@ == text_row(label@, level, value@, note@),
{
    Row { label, value: value.to_owned(), level, note: note.to_owned() }
}

/// Three separate things have to be true, and they fail in ways that look
/// identical from the outside. The offer has to advertise stereo, the capture path
/// has to stop folding the two channels together, and the network adaptor has to be
/// stopped from undoing both partway through a call. The third is why this row is
/// not a yes or a no: a client missing only that starts every call in stereo and
/// collapses to mono the first time the uplink estimate dips, which sounds like the
/// patch wearing off rather than like a setting.
pub open spec fn stereo_row_of(states: Seq<(Seq<char>, SiteState)>) -> RowModel {
    match (selected_verdict(states, "stereo"@, true), tri(states, "ChannelController_ForceStereo"@)) {
        (Verdict::Yes, Some(true)) => text_row(
            "True stereo"@,
            Level::Good,
            "working, and held for the whole call"@,
            STEREO_HELD@,
        ),
        (Verdict::Yes, Some(false)) => text_row(
            "True stereo"@,
            Level::Warn,
            "working, but can collapse mid-call"@,
            STEREO_LOOSE@,
        ),
        (Verdict::Yes, None) => text_row(
            "True stereo"@,
            Level::Good,
            "working"@,
            STEREO_PLAIN@,
        ),
        (Verdict::Partial, _) => text_row(
            "True stereo"@,
            Level::Bad,
            "partly patched"@,
            STEREO_PARTIAL@,
        ),
        (Verdict::No, _) => text_row(
            "True stereo"@,
            Level::Bad,
            "off — you are sending mono"@,
            STEREO_OFF@,
        ),
        (Verdict::Unclear, _) => text_row(
            "True stereo"@,
            Level::Unknown,
            "cannot tell"@,
            UNREADABLE@,
        ),
    }
}

fn stereo_row(states: &Vec<(&'static str, SiteState)>) -> (res: Row)
    ensures
        res@ == stereo_row_of(status::state_views(states@)),
{
    match (verdict_for(states, "stereo", true), read_tri(states, "ChannelController_ForceStereo")) {
        (Verdict::Yes, Some(true)) => row(
            "True stereo",
            Level::Good,
            "working, and held for the whole call",
            STEREO_HELD,
        ),
        (Verdict::Yes, Some(false)) => row(
            "True stereo",
            Level::Warn,
            "working, but can collapse mid-call",
            STEREO_LOOSE,
        ),
        (Verdict::Yes, None) => row(
            "True stereo",
            Level::Good,
            "working",
            STEREO_PLAIN,
        ),
        (Verdict::Partial, _) => row(
            "True stereo",
            Level::Bad,
            "partly patched",
            STEREO_PARTIAL,
        ),
        (Verdict::No, _) => row(
            "True stereo",
            Level::Bad,
            "off — you are sending mono",
            STEREO_OFF,
        ),
        (Verdict::Unclear, _) => row(
            "True stereo",
            Level::Unknown,
            "cannot tell",
            UNREADABLE,
        ),
    }
}

/// The sample rate.
pub open spec fn rate_row_of(states: Seq<(Seq<char>, SiteState)>) -> RowModel {
    match tri(states, "SelectSampleRate_48k"@) {
        Some(true) => text_row(
            "Sample rate"@,
            Level::Good,
            "48 kHz"@,
            RATE_FULL@,
        ),
        Some(false) => text_row(
            "Sample rate"@,
            Level::Bad,
            "32 kHz"@,
            RATE_LOW@,
        ),
        None => text_row(
            "Sample rate"@,
            Level::Unknown,
            "cannot tell"@,
            UNREADABLE@,
        ),
    }
}

fn rate_row(states: &Vec<(&'static str, SiteState)>) -> (res: Row)
    ensures
        res@ == rate_row_of(status::state_views(states@)),
{
    match read_tri(states, "SelectSampleRate_48k") {
        Some(true) => row(
            "Sample rate",
            Level::Good,
            "48 kHz",
            RATE_FULL,
        ),
        Some(false) => row(
            "Sample rate",
            Level::Bad,
            "32 kHz",
            RATE_LOW,
        ),
        None => row(
            "Sample rate",
            Level::Unknown,
            "cannot tell",
            UNREADABLE,
        ),
    }
}

/// The encoder mode.
pub open spec fn mode_row_of(states: Seq<(Seq<char>, SiteState)>) -> RowModel {
    match (tri(states, "OpusConfig_Application"@), tri(states, "OpusConfig_IsOk"@)) {
        (Some(true), Some(true)) => text_row(
            "Encoder mode"@,
            Level::Good,
            "music"@,
            MODE_MUSIC@,
        ),
        (Some(true), _) => text_row(
            "Encoder mode"@,
            Level::Warn,
            "music, but settings may be rejected"@,
            MODE_CHECKED@,
        ),
        (Some(false), _) => text_row(
            "Encoder mode"@,
            Level::Bad,
            "voice call"@,
            MODE_VOICE@,
        ),
        (None, _) => text_row(
            "Encoder mode"@,
            Level::Unknown,
            "cannot tell"@,
            UNREADABLE@,
        ),
    }
}

fn mode_row(states: &Vec<(&'static str, SiteState)>) -> (res: Row)
    ensures
        res@ == mode_row_of(status::state_views(states@)),
{
    match (read_tri(states, "OpusConfig_Application"), read_tri(states, "OpusConfig_IsOk")) {
        (Some(true), Some(true)) => row(
            "Encoder mode",
            Level::Good,
            "music",
            MODE_MUSIC,
        ),
        (Some(true), _) => row(
            "Encoder mode",
            Level::Warn,
            "music, but settings may be rejected",
            MODE_CHECKED,
        ),
        (Some(false), _) => row(
            "Encoder mode",
            Level::Bad,
            "voice call",
            MODE_VOICE,
        ),
        (None, _) => row(
            "Encoder mode",
            Level::Unknown,
            "cannot tell",
            UNREADABLE,
        ),
    }
}

/// The coding mode.
pub open spec fn coding_row_of(states: Seq<(Seq<char>, SiteState)>) -> RowModel {
    match selected_verdict(states, "celt"@, false) {
        Verdict::Yes => text_row(
            "Coding mode"@,
            Level::Good,
            "locked to music"@,
            CELT_LOCKED@,
        ),
        Verdict::Partial => text_row(
            "Coding mode"@,
            Level::Warn,
            "partly locked"@,
            CELT_PARTIAL@,
        ),
        Verdict::No => text_row(
            "Coding mode"@,
            Level::Bad,
            "encoder's choice"@,
            CELT_FREE@,
        ),
        Verdict::Unclear => text_row(
            "Coding mode"@,
            Level::Unknown,
            "cannot tell"@,
            UNREADABLE@,
        ),
    }
}

fn coding_row(states: &Vec<(&'static str, SiteState)>) -> (res: Row)
    ensures
        res@ == coding_row_of(status::state_views(states@)),
{
    match verdict_for(states, "celt", false) {
        Verdict::Yes => row(
            "Coding mode",
            Level::Good,
            "locked to music",
            CELT_LOCKED,
        ),
        Verdict::Partial => row(
            "Coding mode",
            Level::Warn,
            "partly locked",
            CELT_PARTIAL,
        ),
        Verdict::No => row(
            "Coding mode",
            Level::Bad,
            "encoder's choice",
            CELT_FREE,
        ),
        Verdict::Unclear => row(
            "Coding mode",
            Level::Unknown,
            "cannot tell",
            UNREADABLE,
        ),
    }
}

/// The low cut.
pub open spec fn low_cut_row_of(states: Seq<(Seq<char>, SiteState)>) -> RowModel {
    match verdict_of(low_cut_readings(states)) {
        Verdict::Yes => text_row(
            "Low cut (high-pass)"@,
            Level::Good,
            "bypassed"@,
            LOW_BYPASSED@,
        ),
        Verdict::Partial => text_row(
            "Low cut (high-pass)"@,
            Level::Warn,
            "partly bypassed"@,
            LOW_PARTIAL@,
        ),
        Verdict::No => text_row(
            "Low cut (high-pass)"@,
            Level::Bad,
            "active"@,
            LOW_ACTIVE@,
        ),
        Verdict::Unclear => text_row(
            "Low cut (high-pass)"@,
            Level::Unknown,
            "cannot tell"@,
            UNREADABLE@,
        ),
    }
}

fn low_cut_row(states: &Vec<(&'static str, SiteState)>) -> (res: Row)
    ensures
        res@ == low_cut_row_of(status::state_views(states@)),
{
    match read_low_cut(states) {
        Verdict::Yes => row(
            "Low cut (high-pass)",
            Level::Good,
            "bypassed",
            LOW_BYPASSED,
        ),
        Verdict::Partial => row(
            "Low cut (high-pass)",
            Level::Warn,
            "partly bypassed",
            LOW_PARTIAL,
        ),
        Verdict::No => row(
            "Low cut (high-pass)",
            Level::Bad,
            "active",
            LOW_ACTIVE,
        ),
        Verdict::Unclear => row(
            "Low cut (high-pass)",
            Level::Unknown,
            "cannot tell",
            UNREADABLE,
        ),
    }
}

/// The high cut.
pub open spec fn high_cut_row_of(states: Seq<(Seq<char>, SiteState)>) -> RowModel {
    match tri(states, "WebRtcOpus_Bandwidth_Fullband"@) {
        Some(true) => text_row(
            "High cut (bandwidth)"@,
            Level::Good,
            "fullband, 20 kHz"@,
            HIGH_FULL@,
        ),
        Some(false) => text_row(
            "High cut (bandwidth)"@,
            Level::Bad,
            "encoder's choice"@,
            HIGH_FREE@,
        ),
        None => text_row(
            "High cut (bandwidth)"@,
            Level::Unknown,
            "cannot tell"@,
            UNREADABLE@,
        ),
    }
}

fn high_cut_row(states: &Vec<(&'static str, SiteState)>) -> (res: Row)
    ensures
        res@ == high_cut_row_of(status::state_views(states@)),
{
    match read_tri(states, "WebRtcOpus_Bandwidth_Fullband") {
        Some(true) => row(
            "High cut (bandwidth)",
            Level::Good,
            "fullband, 20 kHz",
            HIGH_FULL,
        ),
        Some(false) => row(
            "High cut (bandwidth)",
            Level::Bad,
            "encoder's choice",
            HIGH_FREE,
        ),
        None => row(
            "High cut (bandwidth)",
            Level::Unknown,
            "cannot tell",
            UNREADABLE,
        ),
    }
}

/// Constant bitrate, which is a trade rather than a win.
pub open spec fn cbr_row_of(states: Seq<(Seq<char>, SiteState)>) -> RowModel {
    match tri(states, "WebRtcOpus_Cbr_Always"@) {
        Some(true) => text_row(
            "Constant bitrate"@,
            Level::Neutral,
            "forced on"@,
            CBR_ON@,
        ),
        Some(false) => text_row(
            "Constant bitrate"@,
            Level::Neutral,
            "off"@,
            CBR_OFF@,
        ),
        None => text_row(
            "Constant bitrate"@,
            Level::Neutral,
            "cannot tell"@,
            UNREADABLE@,
        ),
    }
}

fn cbr_row(states: &Vec<(&'static str, SiteState)>) -> (res: Row)
    ensures
        res@ == cbr_row_of(status::state_views(states@)),
{
    match read_tri(states, "WebRtcOpus_Cbr_Always") {
        Some(true) => row(
            "Constant bitrate",
            Level::Neutral,
            "forced on",
            CBR_ON,
        ),
        Some(false) => row(
            "Constant bitrate",
            Level::Neutral,
            "off",
            CBR_OFF,
        ),
        None => row(
            "Constant bitrate",
            Level::Neutral,
            "cannot tell",
            UNREADABLE,
        ),
    }
}

/// The bitrate.
pub open spec fn bitrate_row_of(
    states: Seq<(Seq<char>, SiteState)>,
    bitrate: Option<int>,
    locked: bool,
) -> RowModel {
    match bitrate {
        Some(v) => text_row(
            "Bitrate"@,
            Level::Good,
            text::decimal((v / 1000) as nat) + " kbps"@ + if locked {
                ""@
            } else {
                " (starting value only)"@
            },
            if locked {
                BITRATE_LOCKED@
            } else {
                BITRATE_START@
            },
        ),
        None => if tri(states, "WebRtcOpus_SetBitRate"@) is None {
            text_row("Bitrate"@, Level::Unknown, "cannot tell"@, UNREADABLE@)
        } else {
            text_row("Bitrate"@, Level::Bad, "whatever Discord asks for"@, BITRATE_FREE@)
        },
    }
}

pub open spec fn opt_int(v: Option<u32>) -> Option<int> {
    match v {
        Some(n) => Some(n as int),
        None => None,
    }
}

fn bitrate_row(
    states: &Vec<(&'static str, SiteState)>,
    bitrate: Option<u32>,
    locked: bool,
) -> (res: Row)
    ensures
        res@ == bitrate_row_of(status::state_views(states@), opt_int(bitrate), locked),
{
    match bitrate {
        Some(v) => {
            let number = to_decimal((v / 1000) as u64);
            if locked {
                let value = cat3(number.as_str(), " kbps", "");
                row("Bitrate", Level::Good, value.as_str(), BITRATE_LOCKED)
            } else {
                let value = cat3(number.as_str(), " kbps", " (starting value only)");
                row("Bitrate", Level::Good, value.as_str(), BITRATE_START)
            }
        },
        None => {
            if read_tri(states, "WebRtcOpus_SetBitRate").is_none() {
                row("Bitrate", Level::Unknown, "cannot tell", UNREADABLE)
            } else {
                row("Bitrate", Level::Bad, "whatever Discord asks for", BITRATE_FREE)
            }
        },
    }
}

/// The rest of the encoder locks: the site, and what it takes out of Discord's
/// hands.
pub open spec fn locks() -> Seq<(Seq<char>, Seq<char>)> {
    seq![
        ("WebRtcOpus_Fec_Off"@, "error correction"@),
        ("WebRtcOpus_Dtx_Off"@, "silence skipping"@),
        ("WebRtcOpus_PacketLoss_Zero"@, "loss padding"@),
        ("WebRtcOpus_Complexity_Max"@, "the quality dial"@),
        ("FrameLength_Pin"@, "frame length"@),
    ]
}

pub open spec fn lock_answers(states: Seq<(Seq<char>, SiteState)>) -> Seq<Option<bool>> {
    locks().map_values(|l: (Seq<char>, Seq<char>)| tri(states, l.0))
}

/// What among the first `n` locks is demonstrably not held.
pub open spec fn loose_below(states: Seq<(Seq<char>, SiteState)>, n: int) -> Seq<Seq<char>>
    decreases n,
{
    if n <= 0 {
        seq![]
    } else if tri(states, locks()[n - 1].0) == Some(false) {
        loose_below(states, n - 1).push(locks()[n - 1].1)
    } else {
        loose_below(states, n - 1)
    }
}

/// The encoder locks. The list of what is still loose goes in the note, not in
/// the value: it runs to five items, and a value column that overflows its pane
/// is worse than one that says less.
pub open spec fn held_row_of(states: Seq<(Seq<char>, SiteState)>) -> RowModel {
    let note = LOOSE_HEAD@ + joined_and(loose_below(states, 5)) + LOOSE_TAIL@;
    match verdict_of(lock_answers(states)) {
        Verdict::Yes => text_row("Encoder held open"@, Level::Good, "yes"@, HELD_OPEN@),
        Verdict::Unclear => text_row(
            "Encoder held open"@,
            Level::Unknown,
            "cannot tell"@,
            UNREADABLE@,
        ),
        Verdict::No => text_row("Encoder held open"@, Level::Bad, "no"@, note),
        Verdict::Partial => text_row("Encoder held open"@, Level::Warn, "only partly"@, note),
    }
}

fn held_row(states: &Vec<(&'static str, SiteState)>) -> (res: Row)
    ensures
        res@ == held_row_of(status::state_views(states@)),
{
    let names: [&'static str; 5] = [
        "WebRtcOpus_Fec_Off",
        "WebRtcOpus_Dtx_Off",
        "WebRtcOpus_PacketLoss_Zero",
        "WebRtcOpus_Complexity_Max",
        "FrameLength_Pin",
    ];
    let labels: [&'static str; 5] = [
        "error correction",
        "silence skipping",
        "loss padding",
        "the quality dial",
        "frame length",
    ];
    let ghost all = status::state_views(states@);
    let mut readings: Vec<Option<bool>> = Vec::new();
    let mut loose: Vec<&'static str> = Vec::new();
    let mut i: usize = 0;
    while i < 5
        invariant
            i <= 5,
            all == status::state_views(states@),
            names@.len() == 5,
            labels@.len() == 5,
            forall|k: int| 0 <= k < 5 ==> #[trigger] names@[k]@ == locks()[k].0,
            forall|k: int| 0 <= k < 5 ==> #[trigger] labels@[k]@ == locks()[k].1,
            readings@ == lock_answers(all).take(i as int),
            text::str_views(loose@) == loose_below(all, i as int),
        decreases 5 - i,
    {
        assert(names@[i as int]@ == locks()[i as int].0);
        assert(labels@[i as int]@ == locks()[i as int].1);
        let t = read_tri(states, names[i]);
        assert(lock_answers(all)[i as int] == t);
        assert(lock_answers(all).take(i + 1) =~= lock_answers(all).take(i as int).push(t));
        readings.push(t);
        if let Some(false) = t {
            let label: &'static str = labels[i];
            assert(text::str_views(loose@.push(label)) =~= text::str_views(loose@).push(label@));
            loose.push(label);
        }
        i = i + 1;
    }
    assert(lock_answers(all).take(5) =~= lock_answers(all));
    let note = cat3(LOOSE_HEAD, join_and(&loose).as_str(), LOOSE_TAIL);
    match combine(&readings) {
        Verdict::Yes => row("Encoder held open", Level::Good, "yes", HELD_OPEN),
        Verdict::Unclear => row("Encoder held open", Level::Unknown, "cannot tell", UNREADABLE),
        Verdict::No => row("Encoder held open", Level::Bad, "no", note.as_str()),
        Verdict::Partial => row("Encoder held open", Level::Warn, "only partly", note.as_str()),
    }
}

/// What happens before the encoder.
pub open spec fn processing_row_of(
    states: Seq<(Seq<char>, SiteState)>,
    group: Seq<char>,
    label: Seq<char>,
    off_note: Seq<char>,
    on_note: Seq<char>,
) -> RowModel {
    match selected_verdict(states, group, false) {
        Verdict::Yes => text_row(label, Level::Good, "off"@, off_note),
        Verdict::Partial => text_row(label, Level::Warn, "partly off"@, PROCESSING_PARTIAL@),
        Verdict::No => text_row(label, Level::Bad, "on"@, on_note),
        Verdict::Unclear => text_row(label, Level::Unknown, "cannot tell"@, UNREADABLE@),
    }
}

fn processing_row(
    states: &Vec<(&'static str, SiteState)>,
    group: &str,
    label: &'static str,
    off_note: &str,
    on_note: &str,
) -> (res: Row)
    ensures
        res@ == processing_row_of(status::state_views(states@), group@, label@, off_note@, on_note@),
{
    match verdict_for(states, group, false) {
        Verdict::Yes => row(label, Level::Good, "off", off_note),
        Verdict::Partial => row(label, Level::Warn, "partly off", PROCESSING_PARTIAL),
        Verdict::No => row(label, Level::Bad, "on", on_note),
        Verdict::Unclear => row(label, Level::Unknown, "cannot tell", UNREADABLE),
    }
}

/// The whole readout.
pub open spec fn rows_of(
    states: Seq<(Seq<char>, SiteState)>,
    bitrate: Option<int>,
    locked: bool,
) -> Seq<RowModel> {
    seq![
        stereo_row_of(states),
        rate_row_of(states),
        bitrate_row_of(states, bitrate, locked),
        mode_row_of(states),
        coding_row_of(states),
        low_cut_row_of(states),
        high_cut_row_of(states),
        held_row_of(states),
        processing_row_of(states, "gain"@, "Automatic volume"@, GAIN_OFF@, GAIN_ON@),
        processing_row_of(states, "denoise"@, "Noise removal"@, DENOISE_OFF@, DENOISE_ON@),
        processing_row_of(states, "echo"@, "Echo cancellation"@, ECHO_OFF@, ECHO_ON@),
        cbr_row_of(states),
    ]
}

/// The whole readout, from what each site holds and the bitrate the module
/// carries.
pub fn rows(
    states: &Vec<(&'static str, SiteState)>,
    bitrate: Option<u32>,
    locked: bool,
) -> (res: Vec<Row>)
    ensures
        row_views(res@) == rows_of(status::state_views(states@), opt_int(bitrate), locked),
{
    let mut out: Vec<Row> = Vec::new();
    out.push(stereo_row(states));
    out.push(rate_row(states));
    out.push(bitrate_row(states, bitrate, locked));
    out.push(mode_row(states));
    out.push(coding_row(states));
    out.push(low_cut_row(states));
    out.push(high_cut_row(states));
    out.push(held_row(states));
    out.push(processing_row(states, "gain", "Automatic volume", GAIN_OFF, GAIN_ON));
    out.push(processing_row(states, "denoise", "Noise removal", DENOISE_OFF, DENOISE_ON));
    out.push(processing_row(states, "echo", "Echo cancellation", ECHO_OFF, ECHO_ON));
    out.push(cbr_row(states));
    assert(row_views(out@) =~= rows_of(status::state_views(states@), opt_int(bitrate), locked));
    out
}

// ---------------------------------------------------------------------------
// Laws
// ---------------------------------------------------------------------------

/// A row has a value and a note.
pub open spec fn says_something(row: RowModel) -> bool {
    row.value.len() > 0 && row.note.len() > 0
}

/// Whatever the state, no row is blank.
pub proof fn law_every_row_says_something(
    states: Seq<(Seq<char>, SiteState)>,
    bitrate: Option<int>,
    locked: bool,
)
    ensures
        rows_of(states, bitrate, locked).len() == 12,
        forall|i: int|
            0 <= i < 12 ==> says_something(#[trigger] rows_of(states, bitrate, locked)[i]),
{
    reveal_strlit("32 kHz");
    reveal_strlit("48 kHz");
    reveal_strlit("active");
    reveal_strlit("bypassed");
    reveal_strlit("cannot tell");
    reveal_strlit("encoder's choice");
    reveal_strlit("forced on");
    reveal_strlit("fullband, 20 kHz");
    reveal_strlit("locked to music");
    reveal_strlit("music");
    reveal_strlit("music, but settings may be rejected");
    reveal_strlit("off");
    reveal_strlit("off — you are sending mono");
    reveal_strlit("partly bypassed");
    reveal_strlit("partly locked");
    reveal_strlit("partly patched");
    reveal_strlit("voice call");
    reveal_strlit("working");
    reveal_strlit("working, and held for the whole call");
    reveal_strlit("working, but can collapse mid-call");
    reveal_strlit(
        "This part of the module could not be read. Restoring the original and scanning again will say for certain.",
    );
    reveal_strlit(
        "Left and right go out as two separate channels, and Discord cannot quietly fold them back together when the network dips.",
    );
    reveal_strlit(
        "Calls start in stereo, but Discord is still allowed to drop back to one channel when it thinks your connection is struggling. It does not come back on its own.",
    );
    reveal_strlit(
        "Left and right go out as two separate channels. Whether Discord can still drop back to mono partway through a call could not be read here.",
    );
    reveal_strlit(
        "Some of the stereo changes are in place and some are not, which usually means stereo is negotiated and then sent as one channel. Patching again fixes it.",
    );
    reveal_strlit(
        "Discord mixes your left and right together before anyone hears them.",
    );
    reveal_strlit(
        "The full sample rate is kept, so the top of the treble survives.",
    );
    reveal_strlit(
        "Discord resamples you down to 32 kHz, which throws away everything above about 16 kHz.",
    );
    reveal_strlit(
        "Every request to change the bitrate is overridden with this value, including the one the server sends when you join a channel.",
    );
    reveal_strlit(
        "The encoder starts here, but Discord can still talk it down once you are in a channel.",
    );
    reveal_strlit(
        "Normally 64 kbps, or up to 384 in a boosted server — and Discord lowers it again whenever it decides the connection needs it to.",
    );
    reveal_strlit(
        "The encoder is told it is handling music rather than a phone call, and it accepts the settings above instead of rejecting them.",
    );
    reveal_strlit(
        "The encoder is in music mode, but the check that would otherwise throw out a high bitrate or a second channel is still in place.",
    );
    reveal_strlit(
        "The encoder is tuned for speech: it narrows the stereo image and spends its bitrate on intelligibility rather than on fidelity.",
    );
    reveal_strlit(
        "The encoder cannot switch to its speech mode partway through, which would fold the stereo image down and cut the highs.",
    );
    reveal_strlit(
        "Only some of the mode locks are in place, so the encoder may still switch to speech mode.",
    );
    reveal_strlit(
        "The encoder can drop into speech mode on its own, which narrows the stereo image and cuts the top end.",
    );
    reveal_strlit(
        "Nothing removes the low end of your signal before it is encoded. Bass, room tone and the body of instruments stay in.",
    );
    reveal_strlit(
        "One of the low-cut filters is still in the path, so some of the bottom end is still being removed.",
    );
    reveal_strlit(
        "Discord filters the low end out of your signal on the way in, which thins out anything with bass in it.",
    );
    reveal_strlit(
        "The encoder has to code the whole audible range instead of narrowing it when it wants to save data.",
    );
    reveal_strlit(
        "The encoder narrows the top end on its own when it decides the connection cannot carry it.",
    );
    reveal_strlit(
        "Quality is pinned to maximum, and none of your bitrate is spent on error correction, silence detection or shorter frames when the connection dips.",
    );
    reveal_strlit(
        "Discord still decides ",
    );
    reveal_strlit(
        ". It is free to spend part of your bitrate on those rather than on the sound itself whenever it decides the network needs it.",
    );
    reveal_strlit(
        "Your level goes out the way you set it. Nothing rides it up and down, and nothing moves your system input slider behind your back.",
    );
    reveal_strlit(
        "Discord adjusts your volume for you. On music this is audible as pumping: quiet parts pushed up, loud parts pulled down.",
    );
    reveal_strlit(
        "Nothing is being deleted from your signal. Room tone, reverb tails and fade-outs survive.",
    );
    reveal_strlit(
        "Noise suppression is running. It is tuned for speech and treats quiet detail as noise to be removed.",
    );
    reveal_strlit(
        "The echo canceller is out of the path. It is the most destructive thing in the chain for music — but you need headphones now.",
    );
    reveal_strlit(
        "Discord is subtracting a guess at what your speakers are playing from what your microphone hears, and guessing wrong on music.",
    );
    reveal_strlit(
        "Some of this is switched off and some is not, so it is still touching your signal.",
    );
    reveal_strlit(
        "The same amount of data goes out every moment, including during silence. Steadier on the network, not better sounding.",
    );
    reveal_strlit(
        "The encoder eases off during quiet passages, which is the normal and slightly more efficient behaviour.",
    );
    reveal_strlit(" kbps");
    reveal_strlit("whatever Discord asks for");
    reveal_strlit("yes");
    reveal_strlit("no");
    reveal_strlit("only partly");
    reveal_strlit("partly off");
    reveal_strlit("on");
    let rows = rows_of(states, bitrate, locked);
    assert(says_something(rows[0]));
    assert(says_something(rows[1]));
    assert(says_something(rows[2]));
    assert(says_something(rows[3]));
    assert(says_something(rows[4]));
    assert(says_something(rows[5]));
    assert(says_something(rows[6]));
    assert(says_something(rows[7]));
    assert(says_something(rows[8]));
    assert(says_something(rows[9]));
    assert(says_something(rows[10]));
    assert(says_something(rows[11]));
}

proof fn lemma_unread_groups(
    states: Seq<(Seq<char>, SiteState)>,
    group: Seq<char>,
    only_critical: bool,
    n: int,
)
    requires
        forall|name: Seq<char>| #[trigger] status::state_named(states, name) is Unknown,
    ensures
        forall|i: int|
            0 <= i < group_answers(states, group, only_critical, n).len()
                ==> #[trigger] group_answers(states, group, only_critical, n)[i] is None,
    decreases n,
{
    if n > 0 {
        lemma_unread_groups(states, group, only_critical, n - 1);
        let site = sites::catalogue()[n - 1];
        assert(status::state_named(states, site.name) is Unknown);
    }
}

/// Unreadable is not unpatched: when nothing about a module could be read, no row
/// says that anything is fine or that anything is wrong.
pub proof fn law_unreadable_is_not_unpatched(states: Seq<(Seq<char>, SiteState)>, locked: bool)
    requires
        forall|name: Seq<char>| #[trigger] status::state_named(states, name) is Unknown,
    ensures
        forall|i: int|
            0 <= i < 12 ==> ((#[trigger] rows_of(states, None, locked)[i]).level is Unknown
                || rows_of(states, None, locked)[i].level is Neutral),
{
    let n = sites::catalogue().len() as int;
    lemma_unread_groups(states, "stereo"@, true, n);
    lemma_unread_groups(states, "celt"@, false, n);
    lemma_unread_groups(states, "gain"@, false, n);
    lemma_unread_groups(states, "denoise"@, false, n);
    lemma_unread_groups(states, "echo"@, false, n);
    assert(status::state_named(states, "ChannelController_ForceStereo"@) is Unknown);
    assert(status::state_named(states, "SelectSampleRate_48k"@) is Unknown);
    assert(status::state_named(states, "WebRtcOpus_SetBitRate"@) is Unknown);
    assert(status::state_named(states, "OpusConfig_Application"@) is Unknown);
    assert(status::state_named(states, "OpusConfig_IsOk"@) is Unknown);
    assert(status::state_named(states, "SplHighPass_Entry"@) is Unknown);
    assert(status::state_named(states, "HpCutoff_Inject"@) is Unknown);
    assert(status::state_named(states, "DcReject_Coefficient"@) is Unknown);
    assert(status::state_named(states, "DcReject_Inject"@) is Unknown);
    assert(status::state_named(states, "WebRtcOpus_Bandwidth_Fullband"@) is Unknown);
    assert(status::state_named(states, "WebRtcOpus_Cbr_Always"@) is Unknown);
    let low = low_cut_readings(states);
    assert(low[0] is None && low[1] is None && low[2] is None);
    let held = lock_answers(states);
    assert forall|i: int| 0 <= i < held.len() implies #[trigger] held[i] is None by {
        assert(status::state_named(states, locks()[i].0) is Unknown);
    }
    let rows = rows_of(states, None, locked);
    lemma_nothing_read_is_unclear(low);
    lemma_nothing_read_is_unclear(held);
    lemma_nothing_read_is_unclear(group_answers(states, "stereo"@, true, n));
    lemma_nothing_read_is_unclear(group_answers(states, "celt"@, false, n));
    lemma_nothing_read_is_unclear(group_answers(states, "gain"@, false, n));
    lemma_nothing_read_is_unclear(group_answers(states, "denoise"@, false, n));
    lemma_nothing_read_is_unclear(group_answers(states, "echo"@, false, n));
}

proof fn lemma_nothing_read_is_unclear(readings: Seq<Option<bool>>)
    requires
        forall|i: int| 0 <= i < readings.len() ==> #[trigger] readings[i] is None,
    ensures
        verdict_of(readings) is Unclear,
{
    if readings.len() > 0 {
        assert(readings[0] is None);
    }
}

/// A yes is never given on an unread or a contrary answer.
pub proof fn law_yes_means_every_answer_is_yes(readings: Seq<Option<bool>>)
    ensures
        verdict_of(readings) is Yes <==> readings.len() > 0 && forall|i: int|
            0 <= i < readings.len() ==> #[trigger] readings[i] == Some(true),
{
}

/// In part means that something is in place and something demonstrably is not:
/// what could not be read is never taken for either.
pub proof fn law_partial_means_some_of_each(readings: Seq<Option<bool>>)
    ensures
        verdict_of(readings) is Partial <==> readings.contains(Some(true)) && readings.contains(
            Some(false),
        ),
        verdict_of(readings) is No <==> readings.len() > 0 && forall|i: int|
            0 <= i < readings.len() ==> #[trigger] readings[i] == Some(false),
{
    if readings.len() > 0 {
        assert(readings[0] == readings[0]);
    }
}

} // verus!
