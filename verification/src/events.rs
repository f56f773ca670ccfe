use vstd::prelude::*;

verus! {

/// Raw key code of a confirmed `Enter` press. Input-method composition
/// confirmations (Pinyin, Kana, and similar character selectors) share the
/// `Enter` key identity but carry a different raw code, and must not be
/// treated as a submission.
pub const ENTER_KEY_CODE: u32 = 13;

/// The key identities the widget reacts to; every key it does not treat
/// specially is `Other`.
#[derive(Clone, Copy, Debug, PartialEq, Eq, Structural)]
pub enum Key {
    ArrowDown,
    ArrowUp,
    Enter,
    Escape,
    Tab,
    Other,
}

/// Which `Key` a DOM `KeyboardEvent.key` name denotes.
pub open spec fn key_of_name(name: Seq<char>) -> Key {
    if name == "ArrowDown"@ {
        Key::ArrowDown
    } else if name == "ArrowUp"@ {
        Key::ArrowUp
    } else if name == "Enter"@ {
        Key::Enter
    } else if name == "Escape"@ {
        Key::Escape
    } else if name == "Tab"@ {
        Key::Tab
    } else {
        Key::Other
    }
}

impl Key {
    /// Classify a DOM `KeyboardEvent.key` name.
    pub fn from_name(name: &str) -> (k: Key)
        ensures
            k == key_of_name(name@),
    {
        let n: String = name.to_owned();
        if n == "ArrowDown".to_owned() {
            Key::ArrowDown
        } else if n == "ArrowUp".to_owned() {
            Key::ArrowUp
        } else if n == "Enter".to_owned() {
            Key::Enter
        } else if n == "Escape".to_owned() {
            Key::Escape
        } else if n == "Tab".to_owned() {
            Key::Tab
        } else {
            Key::Other
        }
    }
}

/// What the widget reads from a keyboard event: the key identity and the raw
/// key code, the latter used only to tell real `Enter` presses from
/// input-method composition confirmations.
#[derive(Clone, Copy, Debug)]
pub struct KeyPress {
    pub key: Key,
    pub code: u32,
}

/// A low-level UI event delivered to the widget by the rendering layer.
#[derive(Clone, Debug)]
pub enum Msg {
    /// The input control gained focus.
    InputFocus,
    /// The input control lost focus.
    InputBlur,
    /// A key went down while the input had focus.
    InputKeyDown(KeyPress),
    /// The input was clicked; the payload says whether the input is the
    /// document's active element at the time of the click.
    InputClick(bool),
    /// The text of the input changed to the given value.
    InputChange(String),
    /// A suggestion row was clicked or tapped.
    SuggestionClick(usize),
    /// The pointer moved onto a suggestion row.
    SuggestionHover(usize),
    /// Pointer or touch interaction with the suggestion panel started (true)
    /// or ended (false); while it lasts, a blur must not close the panel.
    SetIgnoreSuggestionBlur(bool),
}

/// The mathematical image of a `Msg`.
pub ghost enum MsgView {
    InputFocus,
    InputBlur,
    InputKeyDown(Key, u32),
    InputClick(bool),
    InputChange(Seq<char>),
    SuggestionClick(int),
    SuggestionHover(int),
    SetIgnoreSuggestionBlur(bool),
}

impl View for Msg {
    type V = MsgView;

    open spec fn view(&self) -> MsgView {
        match *self {
            Msg::InputFocus => MsgView::InputFocus,
            Msg::InputBlur => MsgView::InputBlur,
            Msg::InputKeyDown(kp) => MsgView::InputKeyDown(kp.key, kp.code),
            Msg::InputClick(focused) => MsgView::InputClick(focused),
            Msg::InputChange(ref value) => MsgView::InputChange(value@),
            Msg::SuggestionClick(idx) => MsgView::SuggestionClick(idx as int),
            Msg::SuggestionHover(idx) => MsgView::SuggestionHover(idx as int),
            Msg::SetIgnoreSuggestionBlur(ignore) => MsgView::SetIgnoreSuggestionBlur(ignore),
        }
    }
}

/// A message the widget sends back to its embedder.
#[derive(Clone, Debug)]
pub enum Notification {
    /// The text of the input changed to the given value.
    InputChanged(String),
    /// The user confirmed the given suggestion, by keyboard or pointer.
    SuggestionSelected(String),
    /// The user confirmed the current input as a whole.
    Submit,
}

/// The mathematical image of a `Notification`.
pub ghost enum NotificationView {
    InputChanged(Seq<char>),
    SuggestionSelected(Seq<char>),
    Submit,
}

impl View for Notification {
    type V = NotificationView;

    open spec fn view(&self) -> NotificationView {
        match *self {
            Notification::InputChanged(ref value) => NotificationView::InputChanged(value@),
            Notification::SuggestionSelected(ref value) => NotificationView::SuggestionSelected(
                value@,
            ),
            Notification::Submit => NotificationView::Submit,
        }
    }
}

impl PartialEq for Notification {
    fn eq(&self, other: &Notification) -> (r: bool) {
        match (self, other) {
            (Notification::InputChanged(a), Notification::InputChanged(b)) => *a == *b,
            (Notification::SuggestionSelected(a), Notification::SuggestionSelected(b)) => *a
                == *b,
            (Notification::Submit, Notification::Submit) => true,
            _ => false,
        }
    }
}

impl vstd::std_specs::cmp::PartialEqSpecImpl for Notification {
    open spec fn obeys_eq_spec() -> bool {
        true
    }

    open spec fn eq_spec(&self, other: &Notification) -> bool {
        self@ == other@
    }
}

} // verus!
