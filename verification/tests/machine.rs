use autocomplete::{Key, KeyPress, Model, Msg, Notification, ENTER_KEY_CODE};

fn key(k: Key, code: u32) -> Msg {
    Msg::InputKeyDown(KeyPress { key: k, code })
}

fn down() -> Msg {
    key(Key::ArrowDown, 40)
}

fn up() -> Msg {
    key(Key::ArrowUp, 38)
}

fn enter() -> Msg {
    key(Key::Enter, ENTER_KEY_CODE)
}

fn with_suggestions(items: &[&str]) -> Model {
    let mut m = Model::new();
    m.set_suggestions(items.iter().map(|s| s.to_string()).collect());
    m
}

#[test]
fn starts_closed_and_empty() {
    let m = Model::new();
    assert!(!m.is_open());
    assert_eq!(m.highlighted_index(), None);
    assert!(m.get_selection().is_none());
    assert!(m.suggestions().is_empty());
}

#[test]
fn input_change_notifies_embedder() {
    let mut m = Model::new();
    let out = m.update(Msg::InputChange("al".to_string()));
    assert_eq!(
        out.notifications,
        vec![Notification::InputChanged("al".to_string())]
    );
    assert!(!out.refocus_input);
    assert!(!out.prevent_default);
    assert!(!m.is_open());
}

#[test]
fn focus_opens_the_panel() {
    let mut m = Model::new();
    let out = m.update(Msg::InputFocus);
    assert!(m.is_open());
    assert!(out.notifications.is_empty());
}

#[test]
fn blur_closes_and_clears_the_highlight() {
    let mut m = with_suggestions(&["alpha", "beta"]);
    m.update(down());
    assert!(m.is_open());
    assert_eq!(m.highlighted_index(), Some(0));
    let out = m.update(Msg::InputBlur);
    assert!(!m.is_open());
    assert_eq!(m.highlighted_index(), None);
    assert!(!out.refocus_input);
}

#[test]
fn arrow_down_marches_then_stays_at_the_last_row() {
    let mut m = with_suggestions(&["alpha", "beta", "gamma"]);
    m.update(down());
    assert_eq!(m.highlighted_index(), Some(0));
    m.update(down());
    assert_eq!(m.highlighted_index(), Some(1));
    m.update(down());
    assert_eq!(m.highlighted_index(), Some(2));
    assert!(m.is_open());
    let out = m.update(down());
    assert_eq!(m.highlighted_index(), Some(2));
    assert!(out.prevent_default);
}

#[test]
fn arrow_up_enters_at_the_last_row_and_stops_at_the_first() {
    let mut m = with_suggestions(&["alpha", "beta", "gamma"]);
    m.update(up());
    assert_eq!(m.highlighted_index(), Some(2));
    assert!(m.is_open());
    m.update(up());
    assert_eq!(m.highlighted_index(), Some(1));
    m.update(up());
    assert_eq!(m.highlighted_index(), Some(0));
    m.update(up());
    assert_eq!(m.highlighted_index(), Some(0));
}

#[test]
fn arrows_do_nothing_on_an_empty_list() {
    let mut m = Model::new();
    let out = m.update(down());
    assert_eq!(m.highlighted_index(), None);
    assert!(!m.is_open());
    assert!(out.prevent_default);
    let out = m.update(up());
    assert_eq!(m.highlighted_index(), None);
    assert!(!m.is_open());
    assert!(out.prevent_default);
}

#[test]
fn enter_with_the_panel_closed_only_submits() {
    let mut m = with_suggestions(&["alpha"]);
    let out = m.update(enter());
    assert_eq!(out.notifications, vec![Notification::Submit]);
    assert!(!m.is_open());
    assert!(m.get_selection().is_none());
}

#[test]
fn enter_with_a_highlight_selects_then_submits() {
    let mut m = with_suggestions(&["alpha", "beta", "gamma"]);
    m.update(down());
    m.update(down());
    assert_eq!(m.highlighted_index(), Some(1));
    let out = m.update(enter());
    assert_eq!(
        out.notifications,
        vec![
            Notification::SuggestionSelected("beta".to_string()),
            Notification::Submit,
        ]
    );
    assert!(out.prevent_default);
    assert!(!m.is_open());
    assert_eq!(m.highlighted_index(), None);
    assert_eq!(m.get_selection(), Some(&"beta".to_string()));
}

#[test]
fn enter_with_the_panel_open_but_no_highlight_closes_and_submits() {
    let mut m = with_suggestions(&["alpha"]);
    m.update(Msg::InputFocus);
    assert!(m.is_open());
    let out = m.update(enter());
    assert_eq!(out.notifications, vec![Notification::Submit]);
    assert!(!m.is_open());
    assert!(m.get_selection().is_none());
}

#[test]
fn composition_confirmations_are_not_submissions() {
    let mut m = with_suggestions(&["alpha", "beta"]);
    m.update(down());
    m.update(Msg::SetIgnoreSuggestionBlur(true));
    let out = m.update(key(Key::Enter, 229));
    assert!(out.notifications.is_empty());
    assert!(!out.prevent_default);
    assert!(m.is_open());
    assert_eq!(m.highlighted_index(), Some(0));
    assert!(m.get_selection().is_none());
    // the suppression flag is untouched too: a blur still refocuses
    let out = m.update(Msg::InputBlur);
    assert!(out.refocus_input);
}

#[test]
fn escape_closes_whatever_the_suppression_state() {
    let mut m = with_suggestions(&["alpha", "beta"]);
    m.update(down());
    m.update(Msg::SetIgnoreSuggestionBlur(true));
    let out = m.update(key(Key::Escape, 27));
    assert!(out.notifications.is_empty());
    assert!(!m.is_open());
    assert_eq!(m.highlighted_index(), None);
    // suppression was cleared: the next blur closes instead of refocusing
    let out = m.update(Msg::InputBlur);
    assert!(!out.refocus_input);
}

#[test]
fn tab_clears_suppression_but_keeps_the_panel() {
    let mut m = with_suggestions(&["alpha"]);
    m.update(Msg::InputFocus);
    m.update(Msg::SetIgnoreSuggestionBlur(true));
    m.update(key(Key::Tab, 9));
    assert!(m.is_open());
    let out = m.update(Msg::InputBlur);
    assert!(!out.refocus_input);
    assert!(!m.is_open());
}

#[test]
fn any_other_key_opens_the_panel() {
    let mut m = Model::new();
    m.update(key(Key::Other, 65));
    assert!(m.is_open());
}

#[test]
fn a_click_opens_only_a_focused_input() {
    let mut m = Model::new();
    m.update(Msg::InputClick(false));
    assert!(!m.is_open());
    m.update(Msg::InputClick(true));
    assert!(m.is_open());
}

#[test]
fn hovering_highlights_the_row() {
    let mut m = with_suggestions(&["alpha", "beta"]);
    m.update(Msg::SuggestionHover(1));
    assert_eq!(m.highlighted_index(), Some(1));
}

#[test]
fn hovering_outside_the_list_is_ignored() {
    let mut m = with_suggestions(&["alpha", "beta"]);
    m.update(Msg::SuggestionHover(5));
    assert_eq!(m.highlighted_index(), None);
}

#[test]
fn clicking_a_suggestion_selects_then_submits() {
    let mut m = with_suggestions(&["alpha", "beta", "gamma"]);
    m.update(Msg::InputFocus);
    m.update(Msg::SetIgnoreSuggestionBlur(true));
    let out = m.update(Msg::SuggestionClick(2));
    assert_eq!(
        out.notifications,
        vec![
            Notification::SuggestionSelected("gamma".to_string()),
            Notification::Submit,
        ]
    );
    assert!(!m.is_open());
    assert_eq!(m.highlighted_index(), None);
    assert_eq!(m.get_selection(), Some(&"gamma".to_string()));
    // the click also lifted blur suppression
    let out = m.update(Msg::InputBlur);
    assert!(!out.refocus_input);
}

#[test]
fn clicking_outside_the_list_is_ignored() {
    let mut m = with_suggestions(&["alpha", "beta"]);
    m.update(Msg::InputFocus);
    let out = m.update(Msg::SuggestionClick(9));
    assert!(out.notifications.is_empty());
    assert!(m.is_open());
    assert!(m.get_selection().is_none());
}

#[test]
fn shrinking_the_list_clears_a_stranded_highlight() {
    let mut m = with_suggestions(&["alpha", "beta", "gamma"]);
    m.update(down());
    m.update(down());
    m.update(down());
    assert_eq!(m.highlighted_index(), Some(2));
    m.set_suggestions(vec!["alpha".to_string()]);
    assert_eq!(m.highlighted_index(), None);
    assert!(m.is_open());
}

#[test]
fn replacing_the_list_keeps_a_covered_highlight() {
    let mut m = with_suggestions(&["alpha", "beta", "gamma"]);
    m.update(down());
    assert_eq!(m.highlighted_index(), Some(0));
    m.set_suggestions(vec!["delta".to_string(), "epsilon".to_string()]);
    assert_eq!(m.highlighted_index(), Some(0));
}

#[test]
fn the_selection_outlives_list_updates() {
    let mut m = with_suggestions(&["alpha", "beta"]);
    m.update(Msg::SuggestionClick(1));
    assert_eq!(m.get_selection(), Some(&"beta".to_string()));
    m.set_suggestions(vec!["other".to_string()]);
    assert_eq!(m.get_selection(), Some(&"beta".to_string()));
}

#[test]
fn a_suppressed_blur_keeps_the_panel_and_swallows_one_focus() {
    let mut m = with_suggestions(&["alpha", "beta"]);
    m.update(Msg::InputFocus);
    m.update(down());
    m.update(Msg::SetIgnoreSuggestionBlur(true));
    let out = m.update(Msg::InputBlur);
    assert!(m.is_open());
    assert_eq!(m.highlighted_index(), Some(0));
    assert!(out.refocus_input);
    assert!(out.notifications.is_empty());
    // the synthetic focus that follows is swallowed: nothing changes
    let out = m.update(Msg::InputFocus);
    assert!(m.is_open());
    assert_eq!(m.highlighted_index(), Some(0));
    assert!(out.notifications.is_empty());
    // it was swallowed exactly once: once the pointer leaves the panel, a
    // blur closes and the next focus opens as usual
    m.update(Msg::SetIgnoreSuggestionBlur(false));
    m.update(Msg::InputBlur);
    assert!(!m.is_open());
    m.update(Msg::InputFocus);
    assert!(m.is_open());
}

#[test]
fn key_names_map_to_keys() {
    assert_eq!(Key::from_name("ArrowDown"), Key::ArrowDown);
    assert_eq!(Key::from_name("ArrowUp"), Key::ArrowUp);
    assert_eq!(Key::from_name("Enter"), Key::Enter);
    assert_eq!(Key::from_name("Escape"), Key::Escape);
    assert_eq!(Key::from_name("Tab"), Key::Tab);
    assert_eq!(Key::from_name("a"), Key::Other);
    assert_eq!(Key::from_name("ArrowLeft"), Key::Other);
}

#[test]
fn notifications_compare_by_content() {
    assert_eq!(
        Notification::InputChanged("a".to_string()),
        Notification::InputChanged("a".to_string())
    );
    assert_ne!(
        Notification::InputChanged("a".to_string()),
        Notification::InputChanged("b".to_string())
    );
    assert_ne!(
        Notification::InputChanged("a".to_string()),
        Notification::SuggestionSelected("a".to_string())
    );
    assert_eq!(Notification::Submit, Notification::Submit);
}
