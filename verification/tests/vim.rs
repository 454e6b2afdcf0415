use nixbox::input::{EditRequest, TextInput};
use nixbox::vim::{VimInput, VimMode};

#[test]
fn normal_mode_keeps_cursor_on_a_character() {
    let mut input = VimInput::new("abc".into());
    assert_eq!(input.cursor(), 2);

    input.move_right();
    assert_eq!(input.cursor(), 2);
    input.move_start();
    input.move_left();
    assert_eq!(input.cursor(), 0);
}

#[test]
fn visual_delete_removes_the_inclusive_selection() {
    let mut input = VimInput::new("abcdef".into());
    input.move_start();
    input.move_right();
    input.enter_visual();
    input.move_right();
    input.move_right();

    assert_eq!(input.selection_range(), Some((1, 3)));
    assert!(input.delete_selection(false));
    assert_eq!(input.value(), "aef");
    assert_eq!(input.cursor(), 1);
    assert_eq!(input.mode(), VimMode::Normal);
}

#[test]
fn append_and_escape_follow_vim_cursor_semantics() {
    let mut input = VimInput::new("ab".into());
    input.enter_insert_after();
    input.handle_insert_request(Some(EditRequest::InsertChar('c')));
    input.enter_normal();

    assert_eq!(input.value(), "abc");
    assert_eq!(input.cursor(), 2);
}

#[test]
fn insert_modes_place_the_cursor() {
    let mut input = VimInput::new("hello".into());
    input.move_start();
    input.enter_insert_end();
    assert_eq!(input.mode(), VimMode::Insert);
    assert_eq!(input.cursor(), 5);
    input.enter_normal();
    input.enter_insert_start();
    assert_eq!(input.cursor(), 0);
    input.enter_normal();
    assert_eq!(input.cursor(), 0);
}

#[test]
fn delete_commands() {
    let mut input = VimInput::new("abc".into());
    input.move_start();
    assert!(input.delete_char());
    assert_eq!(input.value(), "bc");
    input.move_right();
    assert!(input.delete_to_end());
    assert_eq!(input.value(), "b");
    assert_eq!(input.cursor(), 0);
}

#[test]
fn word_motions() {
    let mut input = VimInput::new("foo bar baz".into());
    input.move_start();
    input.move_next_word();
    assert_eq!(input.cursor(), 4);
    input.move_end();
    assert_eq!(input.cursor(), 10);
    input.move_prev_word();
    assert_eq!(input.cursor(), 8);
}

#[test]
fn empty_input_has_no_selection() {
    let input = VimInput::default();
    assert_eq!(input.value(), "");
    assert_eq!(input.cursor(), 0);
    assert_eq!(input.mode(), VimMode::Normal);
    assert_eq!(input.selection_range(), None);
}

#[test]
fn text_input_edits() {
    let mut t = TextInput::new(String::from("ab"));
    assert_eq!(t.cursor(), 2);
    t.handle(EditRequest::InsertChar('c'));
    assert_eq!(t.value(), "abc");
    t.handle(EditRequest::GoToStart);
    t.handle(EditRequest::DeleteNextChar);
    assert_eq!(t.value(), "bc");
    assert_eq!(t.cursor(), 0);
    t.handle(EditRequest::GoToEnd);
    t.handle(EditRequest::DeletePrevChar);
    assert_eq!(t.value(), "b");
    let mut w = TextInput::new(String::from("one two"));
    w.handle(EditRequest::DeletePrevWord);
    assert_eq!(w.value(), "one ");
}

#[test]
fn visual_columns_count_display_width() {
    let wide = VimInput::new("日本".into());
    assert_eq!(wide.cursor(), 1);
    assert_eq!(wide.visual_cursor(), 2);
    let plain = VimInput::new("abcdef".into());
    assert_eq!(plain.visual_cursor(), 5);
    assert_eq!(plain.visual_scroll(3), 2);
    assert_eq!(plain.visual_scroll(10), 0);
}
