//! An embeddable autocomplete widget: a text input with a panel of
//! suggestions, driven by keyboard, mouse and touch.
//!
//! The heart of the crate is an interaction state machine. It consumes
//! low-level UI events — focus, blur, key presses, clicks, hovers — and
//! produces a new presentation state together with the notifications owed to
//! the embedding application, resolving on the way the race between the blur
//! of the input and the click on a suggestion that every such widget faces.
//! The machine is pure and total: the spec function `state::step` states
//! what every event does in every state, `Model::update` is proved to follow
//! it exactly, and the laws the widget keeps — clamped navigation, the blur
//! suppression protocol, selection before submission — are proved in `laws`.
//!
//! Suggestions are supplied by the embedder, which listens for
//! `Notification::InputChanged` and answers with `Model::set_suggestions`.
//! As one such source, `country_search` offers a verified prefix search over
//! the ISO 3166-1 country table, backed by a ternary search tree.
//!
//! Rendering is left to the embedder: a rendering layer reads the state
//! through the `Model` getters, sends events in as `Msg` values, and carries
//! out the few effects — refocusing the input, suppressing a browser
//! default — that `UpdateOutput` asks of it.

pub mod country_search;
pub mod events;
pub mod laws;
pub mod machine;
pub mod state;

pub use events::{Key, KeyPress, Msg, Notification, ENTER_KEY_CODE};
pub use machine::{Model, UpdateOutput};
