use crate::events::{Key, Msg, Notification, NotificationView, ENTER_KEY_CODE};
use crate::state::{initial_state, step, with_suggestions, StateView, StepResult};
use vstd::prelude::*;

verus! {

/// The views of a sequence of notifications.
pub open spec fn notifications_view(v: Seq<Notification>) -> Seq<NotificationView> {
    v.map_values(|n: Notification| n@)
}

/// Everything one call of `Model::update` asks its caller to do: deliver the
/// notifications to the embedder in order, force focus back onto the input if
/// requested, and suppress the browser's default reaction to the key if
/// requested.
pub struct UpdateOutput {
    pub notifications: Vec<Notification>,
    pub refocus_input: bool,
    pub prevent_default: bool,
}

impl UpdateOutput {
    /// The output carries exactly what the given transition produced.
    pub open spec fn corresponds_to(self, r: StepResult) -> bool {
        &&& notifications_view(self.notifications@) == r.notifications
        &&& self.refocus_input == r.refocus_input
        &&& self.prevent_default == r.prevent_default
    }
}

/// Model of the autocomplete widget; one of these lives in the embedder's
/// model for each autocomplete in the view. It is mutated exclusively through
/// `update` and `set_suggestions`, whose contracts tie every change to the
/// transition function `step`.
pub struct Model {
    selected: Option<String>,
    suggestions: Vec<String>,
    is_open: bool,
    highlighted_index: Option<usize>,
    ignore_blur: bool,
    ignore_focus: bool,
}

impl View for Model {
    type V = StateView;

    closed spec fn view(&self) -> StateView {
        StateView {
            is_open: self.is_open,
            highlighted: match self.highlighted_index {
                Some(i) => Some(i as int),
                None => None,
            },
            suggestions: self.suggestions.deep_view(),
            selected: match self.selected {
                Some(s) => Some(s@),
                None => None,
            },
            ignore_blur: self.ignore_blur,
            ignore_focus: self.ignore_focus,
        }
    }
}

impl Model {
    #[verifier::type_invariant]
    spec fn inv(self) -> bool {
        self@.wf()
    }

    /// A fresh widget: panel closed, nothing highlighted, no suggestions, no
    /// selection, suppression flags off.
    pub fn new() -> (m: Model)
        ensures
            m@ == initial_state(),
    {
        let m = Model {
            selected: None,
            suggestions: Vec::new(),
            is_open: false,
            highlighted_index: None,
            ignore_blur: false,
            ignore_focus: false,
        };
        proof {
            assert(m@ =~= initial_state());
        }
        m
    }

    /// The most recently confirmed selection, if any.
    pub fn get_selection(&self) -> (r: Option<&String>)
        ensures
            match r {
                Some(s) => self@.selected == Some(s@),
                None => self@.selected is None,
            },
    {
        self.selected.as_ref()
    }

    /// Whether the suggestion panel is open.
    pub fn is_open(&self) -> (r: bool)
        ensures
            r == self@.is_open,
    {
        self.is_open
    }

    /// The index of the highlighted suggestion row, if any.
    pub fn highlighted_index(&self) -> (r: Option<usize>)
        ensures
            match r {
                Some(i) => self@.highlighted == Some(i as int),
                None => self@.highlighted is None,
            },
    {
        self.highlighted_index
    }

    /// The current suggestion list, in display and navigation order.
    pub fn suggestions(&self) -> (r: &Vec<String>)
        ensures
            r.deep_view() == self@.suggestions,
    {
        &self.suggestions
    }

    /// Replace the suggestions shown in the panel. A highlight that the new
    /// list still covers is kept; one beyond its end is cleared, so that no
    /// later read can see an out-of-range index.
    pub fn set_suggestions(&mut self, suggestions: Vec<String>)
        ensures
            final(self)@ == with_suggestions(
                old(self)@,
                suggestions.deep_view(),
            ),
    {
        proof {
            use_type_invariant(&*self);
        }
        let ghost items = suggestions.deep_view();
        match self.highlighted_index {
            Some(i) => {
                if i >= suggestions.len() {
                    self.highlighted_index = None;
                }
            },
            None => {},
        }
        self.suggestions = suggestions;
        proof {
            assert(self@ =~= with_suggestions(old(self)@, items));
        }
    }

    /// Feed one UI event through the widget's transition function. The new
    /// state and the returned output are exactly what `step` prescribes for
    /// the old state and this event.
    pub fn update(&mut self, msg: Msg) -> (out: UpdateOutput)
        ensures
            final(self)@ == step(old(self)@, msg@).state,
            out.corresponds_to(step(old(self)@, msg@)),
    {
        proof {
            use_type_invariant(&*self);
        }
        let mut out = UpdateOutput {
            notifications: Vec::new(),
            refocus_input: false,
            prevent_default: false,
        };
        match msg {
            Msg::InputFocus => {
                if self.ignore_focus {
                    self.ignore_focus = false;
                } else {
                    self.is_open = true;
                }
            },
            Msg::InputBlur => {
                if self.ignore_blur {
                    self.ignore_focus = true;
                    out.refocus_input = true;
                } else {
                    self.is_open = false;
                    self.highlighted_index = None;
                }
            },
            Msg::InputKeyDown(kp) => {
                match kp.key {
                    Key::ArrowDown => {
                        out.prevent_default = true;
                        if self.suggestions.len() > 0 {
                            let index: usize = match self.highlighted_index {
                                Some(i) => i + 1,
                                None => 0,
                            };
                            if index < self.suggestions.len() {
                                self.highlighted_index = Some(index);
                                self.is_open = true;
                            }
                        }
                    },
                    Key::ArrowUp => {
                        out.prevent_default = true;
                        if self.suggestions.len() > 0 {
                            let index: usize = match self.highlighted_index {
                                Some(i) => i,
                                None => self.suggestions.len(),
                            };
                            if index > 0 {
                                self.highlighted_index = Some(index - 1);
                                self.is_open = true;
                            }
                        }
                    },
                    Key::Enter => {
                        if kp.code == ENTER_KEY_CODE {
                            // the user may still be hovering over the panel
                            self.ignore_blur = false;
                            if !self.is_open {
                                // the panel is closed, so there is no
                                // selection to accept
                                out.notifications.push(Notification::Submit);
                            } else {
                                match self.highlighted_index {
                                    Some(i) => {
                                        out.prevent_default = true;
                                        let item = self.suggestions[i].clone();
                                        self.is_open = false;
                                        self.highlighted_index = None;
                                        self.selected = Some(item.clone());
                                        out.notifications.push(
                                            Notification::SuggestionSelected(item),
                                        );
                                        out.notifications.push(Notification::Submit);
                                    },
                                    None => {
                                        self.is_open = false;
                                        out.notifications.push(Notification::Submit);
                                    },
                                }
                            }
                        }
                    },
                    Key::Escape => {
                        self.ignore_blur = false;
                        self.highlighted_index = None;
                        self.is_open = false;
                    },
                    Key::Tab => {
                        self.ignore_blur = false;
                    },
                    Key::Other => {
                        self.is_open = true;
                    },
                }
            },
            Msg::InputClick(input_focused) => {
                if input_focused {
                    self.is_open = true;
                }
            },
            Msg::InputChange(value) => {
                out.notifications.push(Notification::InputChanged(value));
            },
            Msg::SuggestionClick(idx) => {
                if idx < self.suggestions.len() {
                    let item = self.suggestions[idx].clone();
                    self.selected = Some(item.clone());
                    self.ignore_blur = false;
                    self.is_open = false;
                    self.highlighted_index = None;
                    out.notifications.push(Notification::SuggestionSelected(item));
                    out.notifications.push(Notification::Submit);
                }
            },
            Msg::SuggestionHover(idx) => {
                if idx < self.suggestions.len() {
                    self.highlighted_index = Some(idx);
                }
            },
            Msg::SetIgnoreSuggestionBlur(value) => {
                self.ignore_blur = value;
            },
        }
        proof {
            assert(self@ =~= step(old(self)@, msg@).state);
            assert(notifications_view(out.notifications@) =~= step(old(self)@, msg@).notifications);
        }
        out
    }
}

} // verus!
