use tumeto::keys::{KeyCode, KeyPress};
use tumeto::layout::{
    bar_width_checked, tab_range, tab_widths, tab_window, wrap_measured, wrap_text, wrap_text_checked,
};
use tumeto::model::{App, AppMode, Group, RowRef, SubTask, TodoItem};
use tumeto::rows::rows_for_keys;

fn key(c: char) -> KeyPress {
    KeyPress { code: KeyCode::Char(c), ctrl: false }
}

fn press(app: &mut App, code: KeyCode) {
    app.handle_key(KeyPress { code, ctrl: false });
}

fn lines(v: &[&str]) -> Vec<String> {
    v.iter().map(|s| s.to_string()).collect()
}

#[test]
fn ctrl_c_quits_in_every_mode() {
    let mut app = App::default();
    app.mode = AppMode::Input;
    app.handle_key(KeyPress { code: KeyCode::Char('c'), ctrl: true });
    assert!(app.should_quit);
    assert_eq!(app.input_buffer, "");
}

#[test]
fn q_quits_only_in_the_list() {
    let mut app = App::default();
    app.mode = AppMode::Input;
    app.handle_key(key('q'));
    assert!(!app.should_quit);
    assert_eq!(app.input_buffer, "q");
    app.mode = AppMode::Normal;
    app.handle_key(key('q'));
    assert!(app.should_quit);
}

#[test]
fn keys_add_todo_and_subtask() {
    let mut app = App::default();
    app.handle_key(key('a'));
    assert_eq!(app.mode, AppMode::Input);
    for c in "tea".chars() {
        app.handle_key(key(c));
    }
    press(&mut app, KeyCode::Backspace);
    app.handle_key(key('x'));
    press(&mut app, KeyCode::Enter);
    assert_eq!(app.current_todos()[0].title, "tex");
    app.handle_key(key('s'));
    app.handle_key(key('y'));
    press(&mut app, KeyCode::Enter);
    assert_eq!(app.current_todos()[0].subtasks[0].title, "y");
    assert_eq!(app.current_row(), Some(RowRef::Sub(0, 0)));
    app.handle_key(key('k'));
    assert_eq!(app.current_row(), Some(RowRef::Todo(0)));
    app.handle_key(key(' '));
    assert!(app.current_todos()[0].subtasks[0].completed);
    app.handle_key(key('p'));
    app.handle_key(key('d'));
    assert!(app.current_todos().is_empty());
    app.handle_key(key('u'));
    assert_eq!(app.current_todos()[0].title, "tex");
    press(&mut app, KeyCode::Esc);
    assert_eq!(app.mode, AppMode::Normal);
}

#[test]
fn help_closes_on_any_key() {
    let mut app = App::default();
    app.handle_key(key('?'));
    assert_eq!(app.mode, AppMode::Help);
    app.handle_key(key('j'));
    assert_eq!(app.mode, AppMode::Normal);
}

#[test]
fn keys_in_popup_and_group_input() {
    let mut app = App::default();
    app.handle_key(key('c'));
    assert_eq!(app.mode, AppMode::CategoryPopup);
    app.handle_key(key('n'));
    assert_eq!(app.mode, AppMode::GroupInput);
    app.handle_key(key('w'));
    press(&mut app, KeyCode::Enter);
    assert_eq!(app.groups[1].name, "w");
    press(&mut app, KeyCode::Enter);
    assert_eq!(app.selected_group, 1);
    app.handle_key(key('c'));
    app.handle_key(key('d'));
    assert_eq!(app.mode, AppMode::GroupDeleteConfirm);
    app.handle_key(key('y'));
    assert_eq!(app.groups.len(), 1);
    assert_eq!(app.mode, AppMode::CategoryPopup);
    press(&mut app, KeyCode::Esc);
    assert_eq!(app.mode, AppMode::Normal);
}

#[test]
fn tab_and_search_keys() {
    let mut app = App::default();
    app.groups.push(tumeto::model::Group::new("two".to_string()));
    press(&mut app, KeyCode::Tab);
    assert_eq!(app.selected_group, 1);
    press(&mut app, KeyCode::BackTab);
    assert_eq!(app.selected_group, 0);
    app.handle_key(key('l'));
    app.handle_key(key('h'));
    assert_eq!(app.selected_group, 0);
    app.handle_key(key('/'));
    assert_eq!(app.mode, AppMode::Search);
    app.handle_key(key('z'));
    assert_eq!(app.search_query, "z");
    press(&mut app, KeyCode::Esc);
    assert_eq!(app.search_query, "");
    assert_eq!(app.mode, AppMode::Normal);
}

#[test]
fn ctrl_s_outside_notes_does_nothing() {
    let mut app = App::default();
    app.handle_key(KeyPress { code: KeyCode::Char('s'), ctrl: true });
    assert_eq!(app.mode, AppMode::Normal);
    assert_eq!(app.input_buffer, "");
}

#[test]
fn tab_window_grows_right_then_left() {
    assert_eq!(tab_window(&[5, 5, 5, 5], 1, 3, 13), (1, 3));
    assert_eq!(tab_window(&[5, 5, 5, 5], 3, 3, 13), (2, 4));
    assert_eq!(tab_window(&[5, 5, 5, 5], 0, 3, 100), (0, 4));
    assert_eq!(tab_window(&[20, 5], 0, 3, 10), (0, 1));
    assert_eq!(tab_window(&[5, 6, 5], 1, 3, 14), (1, 3));
}

#[test]
fn tab_window_saturates() {
    assert_eq!(tab_window(&[65535, 65535], 0, 3, 65535), (0, 2));
}

#[test]
fn wrap_breaks_at_width_and_newlines() {
    assert_eq!(wrap_text("abcde", 2), lines(&["ab", "cd", "e"]));
    assert_eq!(wrap_text("a\nbc", 5), lines(&["a", "bc"]));
    assert_eq!(wrap_text("", 5), lines(&[""]));
    assert_eq!(wrap_text("ab\n", 5), lines(&["ab", ""]));
}

#[test]
fn wrap_counts_wide_characters() {
    assert_eq!(wrap_text("한글a", 3), lines(&["한", "글a"]));
    assert_eq!(wrap_text("한", 1), lines(&["", "한"]));
    assert_eq!(wrap_text("a\tb", 2), lines(&["a\tb"]));
}

#[test]
fn checked_wrap_agrees() {
    assert_eq!(wrap_text_checked("abcde", 2), Some(lines(&["ab", "cd", "e"])));
    let long: String = "a".repeat(65536);
    assert_eq!(wrap_text_checked(&long, 65535), None);
    assert!(wrap_text_checked(&long, 100).is_some());
}

#[test]
fn wrap_with_given_widths() {
    assert_eq!(wrap_measured("abc", &[2, 2, 2], 4), lines(&["ab", "c"]));
    assert_eq!(wrap_measured("a\nb", &[9, 0, 1], 4), lines(&["", "a", "b"]));
}

#[test]
fn rows_from_search_keys() {
    let mut a = TodoItem::new("A".to_string());
    a.subtasks.push(SubTask::new("s".to_string()));
    let b = TodoItem::new("B".to_string());
    let todos = vec![a, b];
    let keys = vec!["xa".to_string(), "xb".to_string()];
    assert_eq!(rows_for_keys(&todos, &keys, "b"), vec![RowRef::Todo(1)]);
    assert_eq!(rows_for_keys(&todos, &keys, "x"), vec![RowRef::Todo(0), RowRef::Sub(0, 0), RowRef::Todo(1)]);
    assert_eq!(rows_for_keys(&todos, &keys, ""), vec![RowRef::Todo(0), RowRef::Sub(0, 0), RowRef::Todo(1)]);
    assert!(rows_for_keys(&todos, &keys, "A").is_empty());
}

#[test]
fn commit_given_title_and_name() {
    let mut app = App::default();
    app.commit_title(" raw ".to_string());
    assert_eq!(app.current_todos()[0].title, " raw ");
    app.commit_title(String::new());
    assert_eq!(app.current_todos().len(), 1);
    app.commit_group_name("g".to_string());
    assert_eq!(app.groups[1].name, "g");
    assert_eq!(app.category_cursor, 1);
    assert_eq!(app.mode, AppMode::CategoryPopup);
}

#[test]
fn tab_range_shows_all_when_bar_fits() {
    assert_eq!(tab_range(&[5, 5, 5], 1, 3, 21), (0, 3));
    assert_eq!(tab_range(&[5, 5, 5], 1, 3, 20), (1, 3));
    assert_eq!(tab_range(&[], 0, 3, 0), (0, 0));
}

#[test]
fn notes_shown_follow_the_cursor() {
    let mut app = App::default();
    assert_eq!(app.notes_to_show(), "");
    app.commit_title("a".to_string());
    app.groups[0].todos[0].notes = "note".to_string();
    app.groups[0].todos[0].subtasks.push(SubTask::new("s".to_string()));
    assert_eq!(app.notes_to_show(), "note");
    app.selected = 1;
    assert_eq!(app.notes_to_show(), "");
    app.mode = AppMode::EditingNotes;
    app.notes_buffer = "draft".to_string();
    assert_eq!(app.notes_to_show(), "draft");
}

#[test]
fn completed_subtasks_are_counted() {
    let mut t = TodoItem::new("t".to_string());
    assert_eq!(t.completed_subtasks(), 0);
    t.subtasks.push(SubTask::new("a".to_string()));
    t.subtasks.push(SubTask::new("b".to_string()));
    t.subtasks[1].completed = true;
    assert_eq!(t.completed_subtasks(), 1);
}

#[test]
fn tab_widths_pad_each_name() {
    let groups = vec![Group::new("ab".to_string()), Group::new("한".to_string())];
    assert_eq!(tab_widths(&groups), Some(vec![4, 4]));
    assert_eq!(tab_widths(&[]), Some(vec![]));
}

#[test]
fn bar_width_counts_separators_and_overflow() {
    assert_eq!(bar_width_checked(&[4, 4, 4], 3), Some(18));
    assert_eq!(bar_width_checked(&[], 3), Some(0));
    assert_eq!(bar_width_checked(&[65535, 1], 0), None);
    assert_eq!(bar_width_checked(&[1, 1, 1], 40000), None);
}

#[test]
fn unicode_white_space_is_trimmed() {
    let mut app = App::default();
    app.input_buffer = "\u{3000} b \t".to_string();
    app.commit_input();
    assert_eq!(app.current_todos()[0].title, "b");
    app.input_buffer = "\u{a0}\u{2028} ".to_string();
    app.commit_input();
    assert_eq!(app.current_todos().len(), 1);
}

#[test]
fn cleared_search_shows_every_todo() {
    let mut app = App::default();
    app.commit_title("alpha".to_string());
    app.commit_title("beta".to_string());
    app.push_search('a');
    app.push_search('l');
    assert_eq!(app.visible_rows(), vec![RowRef::Todo(0)]);
    app.cancel_search();
    assert_eq!(app.visible_rows(), vec![RowRef::Todo(0), RowRef::Todo(1)]);
}
