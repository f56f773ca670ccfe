use crate::events::{Key, MsgView, NotificationView, ENTER_KEY_CODE};
use vstd::prelude::*;

verus! {

/// The abstract state of the widget: whether the suggestion panel is open,
/// which row is highlighted, the current suggestion list, the most recently
/// confirmed selection, and the two transient suppression flags that resolve
/// the race between a blur on the input and a click on the panel.
#[verifier::ext_equal]
pub ghost struct StateView {
    pub is_open: bool,
    pub highlighted: Option<int>,
    pub suggestions: Seq<Seq<char>>,
    pub selected: Option<Seq<char>>,
    pub ignore_blur: bool,
    pub ignore_focus: bool,
}

/// Everything one transition produces: the successor state, the notifications
/// for the embedder in the order they are owed, and two requests to the
/// rendering layer (force focus back onto the input; suppress the browser's
/// default reaction to the key).
#[verifier::ext_equal]
pub ghost struct StepResult {
    pub state: StateView,
    pub notifications: Seq<NotificationView>,
    pub refocus_input: bool,
    pub prevent_default: bool,
}

impl StateView {
    /// Well-formedness: a highlight always denotes a row of the current list.
    pub open spec fn wf(self) -> bool {
        self.highlighted matches Some(i) ==> 0 <= i < self.suggestions.len()
    }
}

/// The state of a freshly created widget: panel closed, nothing highlighted,
/// no suggestions, no selection, suppression flags off.
pub open spec fn initial_state() -> StateView {
    StateView {
        is_open: false,
        highlighted: None,
        suggestions: Seq::empty(),
        selected: None,
        ignore_blur: false,
        ignore_focus: false,
    }
}

/// A transition to the given state that emits nothing and requests nothing.
pub open spec fn stay(s: StateView) -> StepResult {
    StepResult {
        state: s,
        notifications: Seq::empty(),
        refocus_input: false,
        prevent_default: false,
    }
}

/// A focus opens the panel, unless it is the synthetic focus that follows a
/// suppressed blur, which is swallowed once.
pub open spec fn step_focus(s: StateView) -> StepResult {
    if s.ignore_focus {
        stay(StateView { ignore_focus: false, ..s })
    } else {
        stay(StateView { is_open: true, ..s })
    }
}

/// A blur closes the panel and clears the highlight, unless pointer
/// interaction with the panel is in progress: then the panel stays as it is,
/// focus is forced back onto the input, and the resulting synthetic focus is
/// armed to be swallowed.
pub open spec fn step_blur(s: StateView) -> StepResult {
    if s.ignore_blur {
        StepResult { refocus_input: true, ..stay(StateView { ignore_focus: true, ..s }) }
    } else {
        stay(StateView { is_open: false, highlighted: None, ..s })
    }
}

/// Arrow down advances the highlight, entering the list at the first row and
/// stopping at the last one rather than wrapping, and opens the panel; on an
/// empty list it does nothing. The browser's default reaction is suppressed
/// either way.
pub open spec fn step_arrow_down(s: StateView) -> StepResult {
    let moved = if s.suggestions.len() == 0 {
        s
    } else {
        let index: int = match s.highlighted {
            Some(i) => i + 1,
            None => 0,
        };
        if index < s.suggestions.len() {
            StateView { highlighted: Some(index), is_open: true, ..s }
        } else {
            s
        }
    };
    StepResult { prevent_default: true, ..stay(moved) }
}

/// Arrow up retreats the highlight, entering the list at the last row and
/// stopping at the first one rather than wrapping, and opens the panel; on an
/// empty list it does nothing. The browser's default reaction is suppressed
/// either way.
pub open spec fn step_arrow_up(s: StateView) -> StepResult {
    let moved = if s.suggestions.len() == 0 {
        s
    } else {
        let index: int = match s.highlighted {
            Some(i) => i,
            None => s.suggestions.len() as int,
        };
        if index > 0 {
            StateView { highlighted: Some(index - 1), is_open: true, ..s }
        } else {
            s
        }
    };
    StepResult { prevent_default: true, ..stay(moved) }
}

/// A real `Enter` press clears blur suppression and then: with the panel
/// closed it only submits; with a highlighted row it confirms that row as the
/// selection, closes the panel, and emits the selection before the
/// submission; with the panel open but nothing highlighted it closes the
/// panel and submits. A press whose raw code is not the `Enter` code is an
/// input-method composition confirmation and does nothing at all.
pub open spec fn step_enter(s: StateView, code: u32) -> StepResult {
    if code != ENTER_KEY_CODE {
        stay(s)
    } else {
        let t = StateView { ignore_blur: false, ..s };
        if !t.is_open {
            StepResult { notifications: seq![NotificationView::Submit], ..stay(t) }
        } else {
            match t.highlighted {
                Some(i) => StepResult {
                    state: StateView {
                        is_open: false,
                        highlighted: None,
                        selected: Some(s.suggestions[i]),
                        ..t
                    },
                    notifications: seq![
                        NotificationView::SuggestionSelected(s.suggestions[i]),
                        NotificationView::Submit,
                    ],
                    refocus_input: false,
                    prevent_default: true,
                },
                None => StepResult {
                    notifications: seq![NotificationView::Submit],
                    ..stay(StateView { is_open: false, ..t })
                },
            }
        }
    }
}

/// One key press. Escape closes the panel and clears highlight and blur
/// suppression; Tab clears blur suppression only, leaving the panel as it is
/// so that default focus traversal can proceed; any other key opens the
/// panel, since the user is typing.
pub open spec fn step_key(s: StateView, key: Key, code: u32) -> StepResult {
    match key {
        Key::ArrowDown => step_arrow_down(s),
        Key::ArrowUp => step_arrow_up(s),
        Key::Enter => step_enter(s, code),
        Key::Escape => stay(
            StateView { ignore_blur: false, highlighted: None, is_open: false, ..s },
        ),
        Key::Tab => stay(StateView { ignore_blur: false, ..s }),
        Key::Other => stay(StateView { is_open: true, ..s }),
    }
}

/// A click or tap on row `index` confirms it as the selection, clears blur
/// suppression, closes the panel, and emits the selection before the
/// submission. An index outside the current list may reach the widget when
/// the click races against a replacement of the list; it is ignored.
pub open spec fn step_suggestion_click(s: StateView, index: int) -> StepResult {
    if 0 <= index < s.suggestions.len() {
        StepResult {
            state: StateView {
                selected: Some(s.suggestions[index]),
                ignore_blur: false,
                is_open: false,
                highlighted: None,
                ..s
            },
            notifications: seq![
                NotificationView::SuggestionSelected(s.suggestions[index]),
                NotificationView::Submit,
            ],
            refocus_input: false,
            prevent_default: false,
        }
    } else {
        stay(s)
    }
}

/// The transition function of the widget: what one event does to the state,
/// which notifications it emits and in which order, and what it asks of the
/// rendering layer. It is total: every event is defined in every state, and
/// out-of-range indices are ignored rather than faulted on.
pub open spec fn step(s: StateView, msg: MsgView) -> StepResult {
    match msg {
        MsgView::InputFocus => step_focus(s),
        MsgView::InputBlur => step_blur(s),
        MsgView::InputKeyDown(key, code) => step_key(s, key, code),
        MsgView::InputClick(input_focused) => if input_focused {
            stay(StateView { is_open: true, ..s })
        } else {
            stay(s)
        },
        MsgView::InputChange(value) => StepResult {
            notifications: seq![NotificationView::InputChanged(value)],
            ..stay(s)
        },
        MsgView::SuggestionClick(index) => step_suggestion_click(s, index),
        MsgView::SuggestionHover(index) => if 0 <= index < s.suggestions.len() {
            stay(StateView { highlighted: Some(index), ..s })
        } else {
            stay(s)
        },
        MsgView::SetIgnoreSuggestionBlur(ignore) => stay(StateView { ignore_blur: ignore, ..s }),
    }
}

/// Replacing the suggestion list keeps the panel, the selection and the
/// suppression flags as they are; a highlight that the new list still covers
/// is kept, one beyond its end is cleared.
pub open spec fn with_suggestions(s: StateView, items: Seq<Seq<char>>) -> StateView {
    StateView {
        suggestions: items,
        highlighted: match s.highlighted {
            Some(i) => if 0 <= i < items.len() {
                Some(i)
            } else {
                None
            },
            None => None,
        },
        ..s
    }
}

} // verus!
