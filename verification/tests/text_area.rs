use rester::ui::text_area::{
    count_newlines, row_topology, text_area_layout, EditCommand, EditState,
};

fn typed(text: &str) -> EditState {
    let mut state = EditState::new("");
    for c in text.chars() {
        state.handle_command(EditCommand::InsertCharacter(c));
    }
    state
}

#[test]
fn topology_of_empty_buffer_has_one_row() {
    let (rows, current) = row_topology("", 0);
    assert_eq!(rows.len(), 1);
    assert_eq!(current, 0);
    assert_eq!((rows[0].start, rows[0].end, rows[0].size), (0, 0, 0));
}

#[test]
fn topology_splits_on_newlines() {
    let (rows, current) = row_topology("ab\ncde\n", 4);
    assert_eq!(rows.len(), 3);
    assert_eq!((rows[0].start, rows[0].end, rows[0].size), (0, 2, 3));
    assert_eq!((rows[1].start, rows[1].end, rows[1].size), (3, 6, 4));
    assert_eq!((rows[2].start, rows[2].end, rows[2].size), (7, 7, 0));
    assert_eq!(current, 1);
}

#[test]
fn topology_covers_every_offset_once() {
    let text = "one\n\ntwo three\nfour";
    for pos in 0..=text.len() {
        let (rows, current) = row_topology(text, pos);
        assert_eq!(rows[0].start, 0);
        assert_eq!(rows[rows.len() - 1].end, text.len());
        for k in 0..rows.len() - 1 {
            assert_eq!(rows[k + 1].start, rows[k].end + 1);
            assert_eq!(text.as_bytes()[rows[k].end], b'\n');
        }
        let holding: Vec<usize> =
            (0..rows.len()).filter(|k| rows[*k].start <= pos && pos <= rows[*k].end).collect();
        assert_eq!(holding, vec![current]);
    }
}

#[test]
fn topology_puts_an_offset_at_a_newline_in_the_row_it_closes() {
    let (_, current) = row_topology("ab\ncd", 2);
    assert_eq!(current, 0);
    let (_, current) = row_topology("ab\ncd", 3);
    assert_eq!(current, 1);
}

#[test]
fn topology_puts_an_offset_past_the_end_in_the_last_row() {
    let (rows, current) = row_topology("ab\ncd", 99);
    assert_eq!(rows.len(), 2);
    assert_eq!(current, 1);
    let (rows, current) = row_topology("ab\n", 3);
    assert_eq!(rows.len(), 2);
    assert_eq!(current, 1);
}

#[test]
fn count_newlines_before_offset() {
    assert_eq!(count_newlines("ab\ncde\nf", 5), (1, 3, 2));
    assert_eq!(count_newlines("ab\ncde\nf", 100), (2, 7, 1));
    assert_eq!(count_newlines("ab\ncde\nf", 0), (0, 0, 0));
    assert_eq!(count_newlines("", 3), (0, 0, 0));
}

#[test]
fn new_buffer_has_its_cursor_at_the_start() {
    let state = EditState::new("hello");
    assert_eq!(state.as_str(), "hello");
    assert_eq!(state.position(), 0);
    assert!(!state.is_empty());
    assert!(EditState::new("").is_empty());
}

#[test]
fn insert_advances_by_the_encoded_length() {
    let mut state = EditState::new("");
    state.handle_command(EditCommand::InsertCharacter('a'));
    state.handle_command(EditCommand::InsertCharacter('é'));
    state.handle_command(EditCommand::InsertCharacter('b'));
    assert_eq!(state.as_str(), "aéb");
    assert_eq!(state.position(), 4);
    state.handle_command(EditCommand::InsertCharacter('€'));
    assert_eq!(state.position(), 7);
}

#[test]
fn insert_lands_at_the_cursor() {
    let mut state = typed("ac");
    state.handle_command(EditCommand::BackwardCursor);
    state.handle_command(EditCommand::InsertCharacter('b'));
    assert_eq!(state.as_str(), "abc");
    assert_eq!(state.position(), 2);
}

#[test]
fn delete_backward_removes_a_whole_character() {
    let mut state = typed("aé");
    state.handle_command(EditCommand::BackwardDelete);
    assert_eq!(state.as_str(), "a");
    assert_eq!(state.position(), 1);
    state.handle_command(EditCommand::BackwardDelete);
    assert_eq!(state.as_str(), "");
    assert_eq!(state.position(), 0);
    state.handle_command(EditCommand::BackwardDelete);
    assert_eq!(state.as_str(), "");
    assert_eq!(state.position(), 0);
}

#[test]
fn delete_forward_removes_the_character_at_the_cursor() {
    let mut state = EditState::new("éa");
    state.handle_command(EditCommand::ForwardDelete);
    assert_eq!(state.as_str(), "a");
    assert_eq!(state.position(), 0);
    state.handle_command(EditCommand::ForwardDelete);
    assert_eq!(state.as_str(), "");
    state.handle_command(EditCommand::ForwardDelete);
    assert_eq!(state.as_str(), "");
    assert_eq!(state.position(), 0);
}

#[test]
fn cursor_moves_by_characters_and_stops_at_the_ends() {
    let mut state = EditState::new("é€");
    state.handle_command(EditCommand::BackwardCursor);
    assert_eq!(state.position(), 0);
    state.handle_command(EditCommand::ForwardCursor);
    assert_eq!(state.position(), 2);
    state.handle_command(EditCommand::ForwardCursor);
    assert_eq!(state.position(), 5);
    state.handle_command(EditCommand::ForwardCursor);
    assert_eq!(state.position(), 5);
    state.handle_command(EditCommand::BackwardCursor);
    assert_eq!(state.position(), 2);
}

#[test]
fn cursor_moves_up_to_the_same_column_or_the_row_end() {
    let mut state = typed("abcdef\nxy\n12345");
    assert_eq!(state.position(), 15);
    state.handle_command(EditCommand::UpCursor);
    assert_eq!(state.position(), 9);
    state.handle_command(EditCommand::UpCursor);
    assert_eq!(state.position(), 2);
    state.handle_command(EditCommand::UpCursor);
    assert_eq!(state.position(), 2);
}

#[test]
fn cursor_moves_down_to_the_same_column_or_the_row_end() {
    let mut state = EditState::new("abcdef\nxy\n12345");
    for _ in 0..4 {
        state.handle_command(EditCommand::ForwardCursor);
    }
    state.handle_command(EditCommand::DownCursor);
    assert_eq!(state.position(), 9);
    state.handle_command(EditCommand::DownCursor);
    assert_eq!(state.position(), 12);
    state.handle_command(EditCommand::DownCursor);
    assert_eq!(state.position(), 12);
}

#[test]
fn up_then_down_returns_to_the_row_at_the_smaller_column() {
    let mut state = typed("abcdef\nxy\n12345");
    state.handle_command(EditCommand::UpCursor);
    state.handle_command(EditCommand::DownCursor);
    let (rows, row) = row_topology(state.as_str(), state.position());
    assert_eq!(row, 2);
    assert_eq!(state.position() - rows[row].start, 2);

    let mut state = typed("abcdef\nxy");
    state.handle_command(EditCommand::BackwardCursor);
    state.handle_command(EditCommand::UpCursor);
    state.handle_command(EditCommand::DownCursor);
    let (rows, row) = row_topology(state.as_str(), state.position());
    assert_eq!(row, 1);
    assert_eq!(state.position() - rows[row].start, 1);
}

#[test]
fn vertical_move_falls_back_to_a_character_boundary() {
    let mut state = typed("é\na");
    assert_eq!(state.position(), 4);
    state.handle_command(EditCommand::UpCursor);
    assert_eq!(state.position(), 0);
    state.handle_command(EditCommand::InsertCharacter('x'));
    assert_eq!(state.as_str(), "xé\na");
}

#[test]
fn set_value_keeps_the_cursor_inside_the_text() {
    let mut state = typed("abcdef");
    state.set_value("xy".to_string());
    assert_eq!(state.as_str(), "xy");
    assert_eq!(state.position(), 2);
    let mut state = typed("a");
    state.set_value("é".to_string());
    assert_eq!(state.position(), 0);
    let mut state = typed("ab");
    state.set_value("abcd".to_string());
    assert_eq!(state.position(), 2);
}

#[test]
fn layout_scrolls_to_keep_the_cursor_in_sight() {
    let state = typed("a\nb\nc\nd\nefghij");
    let layout = text_area_layout(&state, 4, 3).unwrap();
    assert_eq!(layout.y_scroll, 2);
    assert_eq!(layout.x_scroll, 3);
    assert_eq!(layout.cursor.cell(10, 20), Some((16 - 3, 24 - 2)));
    let state = EditState::new("abc");
    let layout = text_area_layout(&state, 4, 3).unwrap();
    assert_eq!((layout.y_scroll, layout.x_scroll), (0, 0));
    assert_eq!(layout.cursor.cell(1, 1), Some((1, 1)));
}

#[test]
fn layout_needs_a_cell() {
    let state = EditState::new("abc");
    assert!(text_area_layout(&state, 0, 3).is_none());
    assert!(text_area_layout(&state, 3, 0).is_none());
    assert!(text_area_layout(&state, 1, 1).is_some());
}
