//! What the keys of the picker do, and what a group is said to be covered for.

use crate::console;
use crate::picker;
use crate::picker::{ChoiceModel, Input, PickerModel};
use crate::resolve;
use crate::resolve::OutcomeModel;
use crate::sites;
use crate::sites::groups;
use vstd::prelude::*;

verus! {

pub open spec fn is_ready(p: PickerModel) -> bool {
    p.on.len() == groups::group_catalogue().len() && 0 <= p.cursor < groups::group_catalogue().len()
}

/// Space turns the group under the cursor on or off, and no other; `a` turns all on, `n`
/// all off, and `d` goes back to the recommended set. None of them moves the cursor or
/// ends the picking.
pub proof fn law_keys_switch_groups(p: PickerModel, k: int)
    requires
        is_ready(p),
        0 <= k < p.on.len(),
    ensures
        ({
            let space = picker::after(p, Input::Byte(0x20));
            let a = picker::after(p, Input::Byte(0x61));
            let n = picker::after(p, Input::Byte(0x6E));
            let d = picker::after(p, Input::Byte(0x64));
            &&& space.0.on[k] == (if k == p.cursor {
                !p.on[k]
            } else {
                p.on[k]
            })
            &&& a.0.on[k]
            &&& !n.0.on[k]
            &&& d.0.on[k] == groups::group_catalogue()[k].default_on
            &&& space.0.cursor == p.cursor && a.0.cursor == p.cursor && n.0.cursor == p.cursor
                && d.0.cursor == p.cursor
            &&& space.1 is None && a.1 is None && n.1 is None && d.1 is None
        }),
{
}

/// Down goes to the next group and from the last to the first, up the other way; the
/// arrows and the letters do the same. Neither changes what is on.
pub proof fn law_keys_move_the_cursor(p: PickerModel)
    requires
        is_ready(p),
    ensures
        ({
            let last = groups::group_catalogue().len() - 1;
            let down = picker::after(p, Input::Byte(0x6A));
            let up = picker::after(p, Input::Byte(0x6B));
            &&& down.0.cursor == (if p.cursor == last {
                0
            } else {
                p.cursor + 1
            })
            &&& up.0.cursor == (if p.cursor == 0 {
                last
            } else {
                p.cursor - 1
            })
            &&& down.0.on == p.on && up.0.on == p.on
            &&& down.1 is None && up.1 is None
            &&& picker::after(p, Input::Escape(Some((0x5B, 0x42)))) == down
            &&& picker::after(p, Input::Escape(Some((0x5B, 0x41)))) == up
        }),
{
}

/// Only return applies; `q`, ctrl-c, a bare escape and the end of the input back out.
/// Every other key lets the picking go on.
pub proof fn law_only_return_applies(p: PickerModel, input: Input)
    ensures
        match picker::after(p, input).1 {
            Some(ChoiceModel::Apply(names)) => (input == Input::Byte(0x0D) || input == Input::Byte(
                0x0A,
            )) && names == picker::chosen(p.on),
            Some(ChoiceModel::Cancel) => input == Input::Byte(0x71) || input == Input::Byte(0x03)
                || input is Closed || (input matches Input::Escape(tail) && (tail matches Some(t)
                ==> t.0 != 0x5B)),
            None => true,
        },
        input == Input::Byte(0x0D) || input == Input::Byte(0x0A) ==> picker::after(p, input).1
            matches Some(ChoiceModel::Apply(_)),
        input == Input::Byte(0x71) || input == Input::Byte(0x03) || input is Closed || input
            == Input::Escape(None) ==> picker::after(p, input).1 == Some(ChoiceModel::Cancel),
        picker::after(p, input).1 is Some ==> picker::after(p, input).0 == p,
{
}

/// Site `i` of the catalogue is of the group, and was neither found nor excused.
pub open spec fn is_short(
    report: Seq<(Seq<char>, OutcomeModel)>,
    group: Seq<char>,
    i: int,
) -> bool {
    &&& sites::catalogue()[i].group == group
    &&& resolve::found(report, sites::catalogue()[i].name) is None
    &&& resolve::excuse_for(report, sites::catalogue()[i].name) is None
}

proof fn lemma_coverage(report: Seq<(Seq<char>, OutcomeModel)>, group: Seq<char>, n: int)
    requires
        0 <= n,
    ensures
        0 <= picker::covered_below(report, group, n) <= console::members_below(group, n) <= n,
        picker::covered_below(report, group, n) == console::members_below(group, n) <==> forall|
            i: int,
        |
            0 <= i < n ==> !#[trigger] is_short(report, group, i),
        console::members_below(group, n) == 0 <==> forall|i: int|
            0 <= i < n ==> (#[trigger] sites::catalogue()[i]).group != group,
    decreases n,
{
    if n > 0 {
        lemma_coverage(report, group, n - 1);
        let site = sites::catalogue()[n - 1];
        assert(is_short(report, group, n - 1) == (site.group == group && !picker::is_covered(
            report,
            site.name,
        )));
    }
}

/// A group is wholly covered exactly where each of its sites was found or is not needed.
pub proof fn law_coverage_is_whole_where_nothing_is_short(
    report: Seq<(Seq<char>, OutcomeModel)>,
    group: Seq<char>,
)
    ensures
        picker::coverage_of(report, group).0 == picker::coverage_of(report, group).1 <==> forall|
            i: int,
        |
            0 <= i < sites::catalogue().len() ==> !#[trigger] is_short(report, group, i),
{
    lemma_coverage(report, group, sites::catalogue().len() as int);
}

/// A text without escape sequences.
pub open spec fn is_unstyled(s: Seq<char>) -> bool {
    forall|i: int| 0 <= i < s.len() ==> #[trigger] s[i] != '\x1b'
}

proof fn lemma_plain_front(s: Seq<char>, rest: Seq<char>)
    requires
        is_unstyled(s),
    ensures
        picker::shown_from(s + rest, false) == s.len() + picker::shown_from(rest, false),
    decreases s.len(),
{
    let all = s + rest;
    if s.len() == 0 {
        assert(all =~= rest);
    } else {
        assert(all[0] == s[0]);
        assert(all.drop_first() =~= s.drop_first() + rest);
        assert forall|i: int| 0 <= i < s.drop_first().len() implies #[trigger] s.drop_first()[i]
            != '\x1b' by {
            assert(s.drop_first()[i] == s[i + 1]);
        }
        lemma_plain_front(s.drop_first(), rest);
    }
}

/// An escape sequence: the escape character, some characters that are no letters, and a
/// letter.
pub open spec fn is_sequence(e: Seq<char>) -> bool {
    &&& e.len() >= 2
    &&& e[0] == '\x1b'
    &&& picker::is_ascii_letter(e.last())
    &&& forall|i: int| 0 < i < e.len() - 1 ==> !picker::is_ascii_letter(#[trigger] e[i])
}

proof fn lemma_inside(e: Seq<char>, rest: Seq<char>)
    requires
        e.len() >= 1,
        picker::is_ascii_letter(e.last()),
        forall|i: int| 0 <= i < e.len() - 1 ==> !picker::is_ascii_letter(#[trigger] e[i]),
    ensures
        picker::shown_from(e + rest, true) == picker::shown_from(rest, false),
    decreases e.len(),
{
    let all = e + rest;
    assert(all[0] == e[0]);
    if e.len() == 1 {
        assert(all.drop_first() =~= rest);
    } else {
        let tail = e.drop_first();
        assert(all.drop_first() =~= tail + rest);
        assert forall|i: int| 0 <= i < tail.len() - 1 implies !picker::is_ascii_letter(
            #[trigger] tail[i],
        ) by {
            assert(tail[i] == e[i + 1]);
        }
        lemma_inside(tail, rest);
    }
}

/// Escape sequences take no room: a text in a style shows as many columns as the text.
pub proof fn law_styles_take_no_room(before: Seq<char>, s: Seq<char>, after: Seq<char>)
    requires
        is_sequence(before),
        is_unstyled(s),
        is_sequence(after),
    ensures
        picker::shown_from(before + s + after, false) == s.len(),
        picker::shown_from(s, false) == s.len(),
{
    let none = Seq::<char>::empty();
    let all = before + s + after;
    let tail = before.drop_first();
    assert(all[0] == '\x1b');
    assert(all.drop_first() =~= tail + (s + after));
    assert forall|i: int| 0 <= i < tail.len() - 1 implies !picker::is_ascii_letter(
        #[trigger] tail[i],
    ) by {
        assert(tail[i] == before[i + 1]);
    }
    lemma_inside(tail, s + after);
    lemma_plain_front(s, after);
    let end = after.drop_first();
    assert(after =~= after + none);
    assert(after.drop_first() =~= end + none);
    assert forall|i: int| 0 <= i < end.len() - 1 implies !picker::is_ascii_letter(
        #[trigger] end[i],
    ) by {
        assert(end[i] == after[i + 1]);
    }
    lemma_inside(end, none);
    lemma_plain_front(s, none);
    assert(s + none =~= s);
}

/// The styles that the picker uses are escape sequences.
pub proof fn law_the_styles_are_sequences()
    ensures
        is_sequence(picker::BOLD@),
        is_sequence(picker::DIM@),
        is_sequence(picker::GREEN@),
        is_sequence(picker::YELLOW@),
        is_sequence(picker::RESET@),
{
    reveal_strlit("\x1b[1m");
    reveal_strlit("\x1b[2m");
    reveal_strlit("\x1b[32m");
    reveal_strlit("\x1b[33m");
    reveal_strlit("\x1b[0m");
}

} // verus!
