use crate::events::{Key, MsgView, NotificationView, ENTER_KEY_CODE};
use crate::state::{step, StateView};
use vstd::math::{max, min};
use vstd::prelude::*;

verus! {

/// The state after feeding a whole sequence of events through the transition
/// function, first event first.
pub open spec fn run(s: StateView, msgs: Seq<MsgView>) -> StateView
    decreases msgs.len(),
{
    if msgs.len() == 0 {
        s
    } else {
        run(step(s, msgs[0]).state, msgs.drop_first())
    }
}

/// Every event in the sequence is an arrow-down press, whatever its raw code.
pub open spec fn all_arrow_downs(msgs: Seq<MsgView>) -> bool {
    forall|i: int|
        0 <= i < msgs.len() ==> (#[trigger] msgs[i]) matches MsgView::InputKeyDown(
            Key::ArrowDown,
            _,
        )
}

/// Every event in the sequence is an arrow-up press, whatever its raw code.
pub open spec fn all_arrow_ups(msgs: Seq<MsgView>) -> bool {
    forall|i: int|
        0 <= i < msgs.len() ==> (#[trigger] msgs[i]) matches MsgView::InputKeyDown(
            Key::ArrowUp,
            _,
        )
}

/// One transition preserves well-formedness and never touches the suggestion
/// list: only `set_suggestions` replaces it.
pub proof fn lemma_step_preserves_wf(s: StateView, msg: MsgView)
    requires
        s.wf(),
    ensures
        step(s, msg).state.wf(),
        step(s, msg).state.suggestions == s.suggestions,
{
}

/// Feeding any sequence of events preserves well-formedness and leaves the
/// suggestion list as it was.
pub proof fn lemma_run_preserves_wf(s: StateView, msgs: Seq<MsgView>)
    requires
        s.wf(),
    ensures
        run(s, msgs).wf(),
        run(s, msgs).suggestions == s.suggestions,
    decreases msgs.len(),
{
    if msgs.len() > 0 {
        lemma_step_preserves_wf(s, msgs[0]);
        lemma_run_preserves_wf(step(s, msgs[0]).state, msgs.drop_first());
    }
}

/// Law: however long a sequence of arrow-down presses, at no point does the
/// highlight pass the last row of the suggestion list.
pub proof fn lemma_arrow_down_never_overruns(s: StateView, msgs: Seq<MsgView>, k: int)
    requires
        s.wf(),
        all_arrow_downs(msgs),
        0 <= k <= msgs.len(),
    ensures
        run(s, msgs.take(k)).highlighted matches Some(h) ==> 0 <= h
            < s.suggestions.len(),
{
    lemma_run_preserves_wf(s, msgs.take(k));
}

/// Where a run of arrow-down presses starts from: the highlighted row, or
/// one before the first row when nothing is highlighted.
pub open spec fn down_position(s: StateView) -> int {
    match s.highlighted {
        Some(i) => i,
        None => -1,
    }
}

/// Law: a run of arrow-down presses on a non-empty list marches the
/// highlight down one row per press and then holds it at the last row; the
/// first press that moves the highlight also opens the panel.
pub proof fn lemma_arrow_down_marches(s: StateView, msgs: Seq<MsgView>)
    requires
        s.wf(),
        s.suggestions.len() > 0,
        all_arrow_downs(msgs),
        msgs.len() >= 1,
    ensures
        run(s, msgs).highlighted == Some(
            min(down_position(s) + msgs.len(), s.suggestions.len() - 1),
        ),
        run(s, msgs).is_open == (s.is_open || down_position(s) + 1 < s.suggestions.len()),
    decreases msgs.len(),
{
    let s1 = step(s, msgs[0]).state;
    assert(msgs[0] matches MsgView::InputKeyDown(Key::ArrowDown, _));
    lemma_step_preserves_wf(s, msgs[0]);
    if msgs.len() == 1 {
        assert(msgs.drop_first().len() == 0);
    } else {
        assert(all_arrow_downs(msgs.drop_first())) by {
            assert(forall|i: int|
                0 <= i < msgs.drop_first().len() ==> msgs.drop_first()[i] == msgs[i + 1]);
        }
        lemma_arrow_down_marches(s1, msgs.drop_first());
    }
}

/// Where a run of arrow-up presses starts from: the highlighted row, or one
/// past the last row when nothing is highlighted, so that the first press
/// lands on the last row.
pub open spec fn up_position(s: StateView) -> int {
    match s.highlighted {
        Some(i) => i,
        None => s.suggestions.len() as int,
    }
}

/// Law: a run of arrow-up presses on a non-empty list marches the highlight
/// up one row per press and then holds it at the first row; from no
/// highlight, the first press lands on the last row. The first press that
/// moves the highlight also opens the panel.
pub proof fn lemma_arrow_up_marches(s: StateView, msgs: Seq<MsgView>)
    requires
        s.wf(),
        s.suggestions.len() > 0,
        all_arrow_ups(msgs),
        msgs.len() >= 1,
    ensures
        run(s, msgs).highlighted == Some(max(up_position(s) - msgs.len(), 0)),
        run(s, msgs).is_open == (s.is_open || up_position(s) > 0),
    decreases msgs.len(),
{
    let s1 = step(s, msgs[0]).state;
    assert(msgs[0] matches MsgView::InputKeyDown(Key::ArrowUp, _));
    lemma_step_preserves_wf(s, msgs[0]);
    if msgs.len() == 1 {
        assert(msgs.drop_first().len() == 0);
    } else {
        assert(all_arrow_ups(msgs.drop_first())) by {
            assert(forall|i: int|
                0 <= i < msgs.drop_first().len() ==> msgs.drop_first()[i] == msgs[i + 1]);
        }
        lemma_arrow_up_marches(s1, msgs.drop_first());
    }
}

/// Law: a blur while pointer interaction with the panel is in progress never
/// closes the panel or moves the highlight; instead focus is forced back
/// onto the input and the resulting synthetic focus is swallowed exactly
/// once: it only clears the suppression flag, and a focus after that opens
/// the panel as any ordinary focus does.
pub proof fn lemma_blur_suppressed(s: StateView)
    requires
        s.ignore_blur,
    ensures
        ({
            let after_blur = step(s, MsgView::InputBlur);
            let after_focus = step(after_blur.state, MsgView::InputFocus);
            &&& after_blur.state.is_open == s.is_open
            &&& after_blur.state.highlighted == s.highlighted
            &&& after_blur.state.ignore_focus
            &&& after_blur.refocus_input
            &&& after_blur.notifications == Seq::<NotificationView>::empty()
            &&& after_focus.state == (StateView { ignore_focus: false, ..after_blur.state })
            &&& after_focus.notifications == Seq::<NotificationView>::empty()
            &&& step(after_focus.state, MsgView::InputFocus).state.is_open
        }),
{
}

/// The row an event confirms as the selection: the highlighted row for a
/// real `Enter` press with the panel open, the clicked row for a click that
/// still lies within the list.
pub open spec fn confirmed_row(s: StateView, msg: MsgView) -> Option<int> {
    match msg {
        MsgView::InputKeyDown(Key::Enter, code) => if code == ENTER_KEY_CODE && s.is_open
            && s.highlighted is Some {
            s.highlighted
        } else {
            None
        },
        MsgView::SuggestionClick(i) => if 0 <= i < s.suggestions.len() {
            Some(i)
        } else {
            None
        },
        _ => None,
    }
}

/// Law: in the notifications of any single transition, a selection is never
/// preceded by a submission: the embedder always learns of the selected
/// suggestion before it is asked to submit.
pub proof fn lemma_selection_before_submit(s: StateView, msg: MsgView)
    ensures
        forall|i: int, j: int|
            0 <= i < step(s, msg).notifications.len() && 0 <= j < step(s, msg).notifications.len()
                && ((#[trigger] step(s, msg).notifications[i])
                matches NotificationView::SuggestionSelected(_)) && ((#[trigger] step(
                s,
                msg,
            ).notifications[j]) matches NotificationView::Submit) ==> i < j,
{
}

/// Law: confirming a suggestion, whether by `Enter` on a highlighted row or
/// by a click on a row, emits exactly the selection of that row followed by
/// the submission, records the row as the selection, and closes the panel
/// with the highlight cleared.
pub proof fn lemma_selection_emits_pair(s: StateView, msg: MsgView)
    requires
        s.wf(),
        confirmed_row(s, msg) is Some,
    ensures
        ({
            let row = confirmed_row(s, msg)->0;
            let r = step(s, msg);
            &&& r.notifications == seq![
                NotificationView::SuggestionSelected(s.suggestions[row]),
                NotificationView::Submit,
            ]
            &&& r.state.selected == Some(s.suggestions[row])
            &&& !r.state.is_open
            &&& r.state.highlighted is None
        }),
{
}

/// Law: `Escape` closes the panel and clears both the highlight and the
/// blur suppression, whatever the prior state, and emits nothing.
pub proof fn lemma_escape_closes(s: StateView, code: u32)
    ensures
        ({
            let r = step(s, MsgView::InputKeyDown(Key::Escape, code));
            &&& r.state == (StateView {
                is_open: false,
                highlighted: None,
                ignore_blur: false,
                ..s
            })
            &&& r.notifications == Seq::<NotificationView>::empty()
            &&& !r.refocus_input
            &&& !r.prevent_default
        }),
{
}

/// Law: whenever a transition closes the panel, the same transition clears
/// the highlight, so a closed panel is never left with a highlighted row.
pub proof fn lemma_closing_clears_highlight(s: StateView, msg: MsgView)
    requires
        s.is_open,
        !step(s, msg).state.is_open,
    ensures
        step(s, msg).state.highlighted is None,
{
}

} // verus!
