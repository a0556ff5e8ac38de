use rester::ui::cursor::Cursor;

#[test]
fn cursor_cell_is_offset_by_area_and_scroll() {
    let cursor = Cursor::default().position(5, 7).scroll(2, 1);
    assert_eq!(cursor.cell(10, 20), Some((14, 25)));
}

#[test]
fn default_cursor_is_at_the_origin() {
    assert_eq!(Cursor::default().cell(3, 4), Some((3, 4)));
}

#[test]
fn scroll_takes_rows_first() {
    let cursor = Cursor::default().position(9, 9).scroll(9, 0);
    assert_eq!(cursor.cell(0, 0), Some((9, 0)));
}

#[test]
fn cursor_cell_outside_the_coordinates_is_none() {
    let cursor = Cursor::default().position(1, 1).scroll(5, 5);
    assert_eq!(cursor.cell(0, 0), None);
    let cursor = Cursor::default().position(65535, 0);
    assert_eq!(cursor.cell(1, 0), None);
    assert_eq!(cursor.cell(0, 0), Some((65535, 0)));
}
