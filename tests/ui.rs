use patclib::flow::{AppState, GameFlow};
use patclib::ui::{excess_events, ChatEvent, UIHelper};

#[test]
fn helper_starts_with_blank_lines() {
    let mut h = UIHelper::new();
    let events = h.drain_events();
    assert_eq!(events.len(), 10);
    assert!(events.iter().all(|e| matches!(e, ChatEvent::Line(l) if l.is_empty())));
    assert!(h.drain_events().is_empty());
}

#[test]
fn selection_moves_within_options() {
    let mut h = UIHelper::new();
    h.prompt("Where?".to_string(), vec!["a".to_string(), "b".to_string(), "c".to_string()]);
    assert_eq!(h.selected_option, Some(0));
    h.select_previous();
    assert_eq!(h.selected_option, Some(0));
    h.select_next();
    h.select_next();
    h.select_next();
    assert_eq!(h.selected_option, Some(2));
    h.select_previous();
    assert_eq!(h.confirm(), Some(1));
    assert_eq!(h.selected_option, None);
    assert_eq!(h.confirm(), None);
}

#[test]
fn lines_are_queued_in_order() {
    let mut h = UIHelper::new();
    h.drain_events();
    h.show_line("one".to_string());
    h.show_highlighted_line("two".to_string());
    let events = h.drain_events();
    assert!(matches!(&events[0], ChatEvent::Line(l) if l == "one"));
    assert!(matches!(&events[1], ChatEvent::HighlightedLine(l) if l == "two"));
}

#[test]
fn excess_chat_entries() {
    assert_eq!(excess_events(3), 0);
    assert_eq!(excess_events(6), 0);
    assert_eq!(excess_events(9), 3);
}

#[test]
fn states_stack_up() {
    let mut f = GameFlow::new();
    assert_eq!(f.current(), Some(AppState::MainMenu));
    f.set(AppState::Travel);
    f.push(AppState::Encounter);
    f.push(AppState::Battle);
    assert_eq!(f.current(), Some(AppState::Battle));
    assert!(f.pop());
    assert_eq!(f.current(), Some(AppState::Encounter));
    assert!(f.pop());
    assert!(!f.pop());
    assert_eq!(f.current(), Some(AppState::Travel));
}
