use rester::key_bind::{KeyCode, KeyEvent, KeyModifiers};
use rester::paragraph_with_state::ParagraphWithState;
use rester::ui::paragraph::make_cache;
use rester::ScrollDirection;

fn press(code: KeyCode) -> KeyEvent {
    KeyEvent::new(code, KeyModifiers::none())
}

#[test]
fn new_pane_holds_its_text_unscrolled() {
    let pane = ParagraphWithState::new("hello".to_string(), true, false);
    assert_eq!(pane.as_str(), "hello");
    assert_eq!(pane.get_scroll(), 0);
    assert_eq!(pane.get_version(), 0);
    assert!(pane.get_cache().is_none());
    assert!(!pane.is_empty());
    assert!(ParagraphWithState::new(String::new(), true, false).is_empty());
}

#[test]
fn every_change_of_the_text_drops_the_wrapped_form() {
    let mut pane = ParagraphWithState::new("one two".to_string(), true, true);
    pane.refresh(3, 5);
    assert!(pane.get_cache().is_some());
    pane.set_value("three".to_string());
    assert!(pane.get_cache().is_none());
    assert_eq!(pane.get_version(), 1);

    pane.refresh(3, 5);
    pane.append_value(" four".to_string());
    assert_eq!(pane.as_str(), "three four");
    assert!(pane.get_cache().is_none());
    assert_eq!(pane.get_version(), 2);

    pane.refresh(3, 5);
    pane.handle_input(press(KeyCode::Char('x')));
    assert!(pane.get_cache().is_none());
    assert_eq!(pane.get_version(), 3);

    pane.refresh(3, 5);
    pane.reset();
    assert!(pane.get_cache().is_none());
    assert_eq!(pane.as_str(), "");
    assert_eq!(pane.get_scroll(), 0);
    assert_eq!(pane.get_version(), 4);
}

#[test]
fn refresh_wraps_once_for_a_text_and_a_width() {
    let mut pane = ParagraphWithState::new("one two three".to_string(), true, false);
    pane.refresh(5, 10);
    let first = pane.get_cache().as_ref().unwrap().as_str().to_string();
    assert_eq!(first, "one\ntwo\nthree");
    assert_eq!(pane.get_cache().as_ref().unwrap().get_version(), 0);
    pane.refresh(5, 10);
    assert_eq!(pane.get_cache().as_ref().unwrap().as_str(), first);
    pane.refresh(9, 10);
    assert_eq!(pane.get_cache().as_ref().unwrap().as_str(), "one two\nthree");
    assert_eq!(pane.get_cache().as_ref().unwrap().get_width(), 9);
}

#[test]
fn refresh_clamps_the_scroll() {
    let mut pane = ParagraphWithState::new("one two three".to_string(), true, false);
    for _ in 0..10 {
        pane.scroll(ScrollDirection::Down);
    }
    assert_eq!(pane.get_scroll(), 10);
    pane.refresh(5, 2);
    assert_eq!(pane.get_scroll(), 1);
    pane.refresh(5, 3);
    assert_eq!(pane.get_scroll(), 0);
}

#[test]
fn update_takes_over_scroll_and_cache() {
    let mut pane = ParagraphWithState::new("one two three".to_string(), true, false);
    let cache = make_cache(pane.as_str(), pane.get_version(), 5);
    pane.update((1, cache));
    assert_eq!(pane.get_scroll(), 1);
    assert_eq!(pane.get_cache().as_ref().unwrap().get_lines(), 2);
}

#[test]
fn arrows_scroll_a_scrolling_pane() {
    let mut pane = ParagraphWithState::new("text".to_string(), true, false);
    pane.handle_input(press(KeyCode::Up));
    assert_eq!(pane.get_scroll(), 0);
    pane.handle_input(press(KeyCode::Down));
    pane.handle_input(press(KeyCode::Down));
    assert_eq!(pane.get_scroll(), 2);
    pane.handle_input(press(KeyCode::Up));
    assert_eq!(pane.get_scroll(), 1);

    let mut fixed = ParagraphWithState::new("text".to_string(), false, false);
    fixed.handle_input(press(KeyCode::Down));
    assert_eq!(fixed.get_scroll(), 0);
}

#[test]
fn scroll_down_stops_at_the_largest_offset() {
    let mut pane = ParagraphWithState::new("text".to_string(), true, false);
    for _ in 0..70000 {
        pane.scroll(ScrollDirection::Down);
    }
    assert_eq!(pane.get_scroll(), 65535);
}

#[test]
fn keys_edit_an_editable_pane() {
    let mut pane = ParagraphWithState::new("ab".to_string(), true, true);
    pane.handle_input(press(KeyCode::Char('c')));
    assert_eq!(pane.as_str(), "abc");
    pane.handle_input(press(KeyCode::Backspace));
    pane.handle_input(press(KeyCode::Backspace));
    assert_eq!(pane.as_str(), "a");
    pane.handle_input(press(KeyCode::Enter));
    assert_eq!(pane.as_str(), "a\r\n");
    pane.handle_input(press(KeyCode::Tab));
    assert_eq!(pane.as_str(), "a\r\n");

    let mut empty = ParagraphWithState::new(String::new(), true, true);
    empty.handle_input(press(KeyCode::Backspace));
    assert_eq!(empty.as_str(), "");
}

#[test]
fn keys_leave_a_read_only_pane_alone() {
    let mut pane = ParagraphWithState::new("ab".to_string(), true, false);
    pane.handle_input(press(KeyCode::Char('c')));
    pane.handle_input(press(KeyCode::Enter));
    pane.handle_input(press(KeyCode::Backspace));
    assert_eq!(pane.as_str(), "ab");
    assert_eq!(pane.get_version(), 0);
}

#[test]
fn enter_scrolls_to_the_line_count_of_the_kept_form() {
    let mut pane = ParagraphWithState::new("one two three".to_string(), true, true);
    pane.refresh(5, 10);
    pane.handle_input(press(KeyCode::Enter));
    assert_eq!(pane.get_scroll(), 2);
    pane.handle_input(press(KeyCode::Enter));
    assert_eq!(pane.get_scroll(), 2);
}
