use tumeto::keys::{KeyCode, KeyPress};
use tumeto::model::{App, AppMode, Group, InputTarget, LastDeleted, Priority, RowRef, SubTask, TodoItem};

fn typed(app: &mut App, text: &str) {
    for c in text.chars() {
        app.handle_key(KeyPress { code: KeyCode::Char(c), ctrl: false });
    }
}

fn add_todo(app: &mut App, title: &str) {
    app.enter_input_mode();
    typed(app, title);
    app.commit_input();
}

fn add_subtask(app: &mut App, title: &str) {
    app.enter_subtask_input();
    typed(app, title);
    app.commit_input();
}

fn titles(app: &App) -> Vec<String> {
    app.current_todos().iter().map(|t| t.title.clone()).collect()
}

#[test]
fn priority_cycles_low_medium_high() {
    assert_eq!(Priority::Low.cycle(), Priority::Medium);
    assert_eq!(Priority::Medium.cycle(), Priority::High);
    assert_eq!(Priority::High.cycle(), Priority::Low);
    assert_eq!(Priority::Low.cycle().cycle().cycle(), Priority::Low);
    assert_eq!(Priority::default(), Priority::Low);
}

#[test]
fn constructors_start_empty() {
    let s = SubTask::new("s".to_string());
    assert_eq!(s.title, "s");
    assert!(!s.completed);
    let t = TodoItem::new("t".to_string());
    assert_eq!(t.title, "t");
    assert!(!t.completed);
    assert_eq!(t.notes, "");
    assert_eq!(t.priority, Priority::Low);
    assert!(t.subtasks.is_empty());
    assert!(!t.collapsed);
    let g = Group::new("g".to_string());
    assert_eq!(g.name, "g");
    assert!(g.todos.is_empty());
    assert_eq!(InputTarget::default(), InputTarget::NewTodo);
    assert_eq!(AppMode::default(), AppMode::Normal);
}

#[test]
fn default_app_has_one_group() {
    let app = App::default();
    assert_eq!(app.groups.len(), 1);
    assert_eq!(app.groups[0].name, "기본");
    assert_eq!(app.selected_group, 0);
    assert_eq!(app.selected, 0);
    assert_eq!(app.mode, AppMode::Normal);
    assert!(!app.dirty);
    assert!(app.last_deleted.is_none());
    assert!(app.visible_rows().is_empty());
    assert_eq!(app.current_row(), None);
}

#[test]
fn legacy_todos_become_default_group() {
    let todos = vec![TodoItem::new("a".to_string()), TodoItem::new("b".to_string())];
    let app = App::from_legacy(todos, 1);
    assert_eq!(app.groups.len(), 1);
    assert_eq!(app.groups[0].name, "기본");
    assert_eq!(titles(&app), vec!["a", "b"]);
    assert_eq!(app.selected, 1);
    assert_eq!(app.current_row(), Some(RowRef::Todo(1)));
}

#[test]
fn commit_input_trims_and_selects_new_todo() {
    let mut app = App::default();
    add_todo(&mut app, "  buy milk  ");
    assert_eq!(titles(&app), vec!["buy milk"]);
    assert!(app.dirty);
    assert_eq!(app.mode, AppMode::Normal);
    assert_eq!(app.input_buffer, "");
    assert_eq!(app.input_target, InputTarget::NewTodo);
    add_todo(&mut app, "second");
    assert_eq!(app.current_row(), Some(RowRef::Todo(1)));
}

#[test]
fn blank_input_adds_nothing() {
    let mut app = App::default();
    add_todo(&mut app, "   ");
    assert!(app.current_todos().is_empty());
    assert!(!app.dirty);
    assert_eq!(app.mode, AppMode::Normal);
}

#[test]
fn cancel_input_discards_text() {
    let mut app = App::default();
    app.enter_input_mode();
    typed(&mut app, "nope");
    assert_eq!(app.input_buffer, "nope");
    app.cancel_input();
    assert!(app.current_todos().is_empty());
    assert_eq!(app.input_buffer, "");
    assert_eq!(app.mode, AppMode::Normal);
}

#[test]
fn subtasks_follow_their_todo_in_rows() {
    let mut app = App::default();
    add_todo(&mut app, "a");
    add_subtask(&mut app, "a1");
    add_subtask(&mut app, "a2");
    add_todo(&mut app, "b");
    assert_eq!(
        app.visible_rows(),
        vec![RowRef::Todo(0), RowRef::Sub(0, 0), RowRef::Sub(0, 1), RowRef::Todo(1)]
    );
    assert_eq!(app.current_row(), Some(RowRef::Todo(1)));
    assert_eq!(app.current_todos()[0].subtasks[1].title, "a2");
}

#[test]
fn edit_replaces_title() {
    let mut app = App::default();
    add_todo(&mut app, "old");
    add_subtask(&mut app, "sub");
    app.selected = 0;
    app.enter_edit_mode();
    assert_eq!(app.input_buffer, "old");
    assert_eq!(app.input_target, InputTarget::EditTodo(0));
    app.input_buffer = "new".to_string();
    app.commit_input();
    assert_eq!(titles(&app), vec!["new"]);
    app.selected = 1;
    app.enter_edit_mode();
    assert_eq!(app.input_target, InputTarget::EditSubtask(0, 0));
    assert_eq!(app.input_buffer, "sub");
    app.input_buffer = " sub2 ".to_string();
    app.commit_input();
    assert_eq!(app.current_todos()[0].subtasks[0].title, "sub2");
}

#[test]
fn unchanged_edit_does_not_mark_dirty() {
    let mut app = App::from_legacy(vec![TodoItem::new("same".to_string())], 0);
    app.enter_edit_mode();
    app.commit_input();
    assert_eq!(titles(&app), vec!["same"]);
    assert!(!app.dirty);
}

#[test]
fn toggle_todo_cascades_to_subtasks() {
    let mut app = App::default();
    add_todo(&mut app, "a");
    add_subtask(&mut app, "a1");
    add_subtask(&mut app, "a2");
    app.selected = 1;
    app.toggle_selected();
    assert!(app.current_todos()[0].subtasks[0].completed);
    assert!(!app.current_todos()[0].completed);
    app.selected = 0;
    app.toggle_selected();
    let todo = &app.current_todos()[0];
    assert!(todo.completed);
    assert!(todo.subtasks.iter().all(|s| s.completed));
    app.toggle_selected();
    let todo = &app.current_todos()[0];
    assert!(!todo.completed);
    assert!(todo.subtasks.iter().all(|s| !s.completed));
}

#[test]
fn toggle_subtask_twice_restores() {
    let mut app = App::default();
    add_todo(&mut app, "a");
    add_subtask(&mut app, "a1");
    app.selected = 1;
    app.toggle_selected();
    app.toggle_selected();
    assert!(!app.current_todos()[0].subtasks[0].completed);
}

#[test]
fn delete_then_undo_restores_todo() {
    let mut app = App::default();
    add_todo(&mut app, "a");
    add_todo(&mut app, "b");
    add_todo(&mut app, "c");
    app.selected = 1;
    app.delete_selected();
    assert_eq!(titles(&app), vec!["a", "c"]);
    assert!(matches!(app.last_deleted, Some(LastDeleted::Todo { group: 0, index: 1, .. })));
    app.undo();
    assert_eq!(titles(&app), vec!["a", "b", "c"]);
    assert_eq!(app.selected, 1);
    assert!(app.last_deleted.is_none());
    app.undo();
    assert_eq!(titles(&app), vec!["a", "b", "c"]);
}

#[test]
fn delete_last_row_clamps_cursor() {
    let mut app = App::default();
    add_todo(&mut app, "a");
    add_todo(&mut app, "b");
    assert_eq!(app.selected, 1);
    app.delete_selected();
    assert_eq!(app.selected, 0);
    app.delete_selected();
    assert_eq!(app.selected, 0);
    assert!(app.current_todos().is_empty());
    app.delete_selected();
    assert!(app.current_todos().is_empty());
}

#[test]
fn delete_then_undo_restores_subtask_and_unfolds() {
    let mut app = App::default();
    add_todo(&mut app, "a");
    add_subtask(&mut app, "a1");
    add_subtask(&mut app, "a2");
    app.selected = 2;
    app.delete_selected();
    assert_eq!(app.current_todos()[0].subtasks.len(), 1);
    assert_eq!(app.selected, 1);
    app.undo();
    assert_eq!(app.current_todos()[0].subtasks[1].title, "a2");
    assert_eq!(app.selected, 2);
    assert!(!app.current_todos()[0].collapsed);
}

#[test]
fn undo_into_deleted_group_is_dropped() {
    let mut app = App::default();
    add_todo(&mut app, "a");
    app.last_deleted = Some(LastDeleted::Todo { group: 5, index: 0, item: TodoItem::new("x".to_string()) });
    app.undo();
    assert!(app.last_deleted.is_none());
    assert_eq!(titles(&app), vec!["a"]);
}

#[test]
fn moving_the_cursor_stops_at_the_ends() {
    let mut app = App::default();
    add_todo(&mut app, "a");
    add_todo(&mut app, "b");
    app.selected = 0;
    app.move_up();
    assert_eq!(app.selected, 0);
    app.move_down();
    assert_eq!(app.selected, 1);
    app.move_down();
    assert_eq!(app.selected, 1);
    let mut empty = App::default();
    empty.move_down();
    assert_eq!(empty.selected, 0);
}

#[test]
fn cycle_priority_only_on_todo_rows() {
    let mut app = App::default();
    add_todo(&mut app, "a");
    add_subtask(&mut app, "a1");
    app.selected = 1;
    app.cycle_priority();
    assert_eq!(app.current_todos()[0].priority, Priority::Low);
    app.selected = 0;
    app.cycle_priority();
    assert_eq!(app.current_todos()[0].priority, Priority::Medium);
    app.cycle_priority();
    app.cycle_priority();
    assert_eq!(app.current_todos()[0].priority, Priority::Low);
}

#[test]
fn collapse_hides_subtasks_and_selects_parent() {
    let mut app = App::default();
    add_todo(&mut app, "a");
    add_subtask(&mut app, "a1");
    add_todo(&mut app, "b");
    app.selected = 1;
    app.toggle_collapse();
    assert!(app.current_todos()[0].collapsed);
    assert_eq!(app.visible_rows(), vec![RowRef::Todo(0), RowRef::Todo(1)]);
    assert_eq!(app.current_row(), Some(RowRef::Todo(0)));
    app.toggle_collapse();
    assert_eq!(app.visible_rows().len(), 3);
    app.selected = 2;
    app.toggle_collapse();
    assert!(!app.current_todos()[1].collapsed);
    assert_eq!(app.selected, 2);
}

#[test]
fn new_subtask_unfolds_its_todo() {
    let mut app = App::default();
    add_todo(&mut app, "a");
    add_subtask(&mut app, "a1");
    app.selected = 0;
    app.toggle_collapse();
    add_subtask(&mut app, "a2");
    assert!(!app.current_todos()[0].collapsed);
    assert_eq!(app.current_row(), Some(RowRef::Sub(0, 1)));
}

#[test]
fn notes_save_and_cancel() {
    let mut app = App::default();
    add_todo(&mut app, "a");
    app.dirty = false;
    app.enter_notes_mode();
    assert_eq!(app.mode, AppMode::EditingNotes);
    app.commit_notes();
    assert!(!app.dirty);
    app.enter_notes_mode();
    typed(&mut app, "hi");
    app.handle_key(KeyPress { code: KeyCode::Enter, ctrl: false });
    typed(&mut app, "yo");
    app.handle_key(KeyPress { code: KeyCode::Char('s'), ctrl: true });
    assert_eq!(app.current_todos()[0].notes, "hi\nyo");
    assert!(app.dirty);
    assert_eq!(app.notes_buffer, "");
    assert_eq!(app.mode, AppMode::Normal);
    app.enter_notes_mode();
    app.notes_buffer.push('!');
    app.cancel_notes();
    assert_eq!(app.current_todos()[0].notes, "hi\nyo");
    assert_eq!(app.notes_buffer, "");
}

#[test]
fn notes_off_a_todo_row_only_close() {
    let mut app = App::default();
    add_todo(&mut app, "a");
    add_subtask(&mut app, "a1");
    app.enter_notes_mode();
    assert_eq!(app.mode, AppMode::Normal);
    app.mode = AppMode::EditingNotes;
    app.notes_buffer = "x".to_string();
    app.commit_notes();
    assert_eq!(app.mode, AppMode::Normal);
    assert_eq!(app.current_todos()[0].notes, "");
}

#[test]
fn search_filters_ignoring_case() {
    let mut app = App::default();
    add_todo(&mut app, "Buy Milk");
    add_subtask(&mut app, "store");
    add_todo(&mut app, "walk dog");
    app.enter_search_mode();
    assert_eq!(app.mode, AppMode::Search);
    app.push_search('M');
    app.push_search('I');
    assert_eq!(app.visible_rows(), vec![RowRef::Todo(0), RowRef::Sub(0, 0)]);
    assert!(app.selected < 2);
    app.backspace_search();
    assert_eq!(app.search_query, "M");
    app.push_search('z');
    assert!(app.visible_rows().is_empty());
    assert_eq!(app.selected, 0);
    app.confirm_search();
    assert_eq!(app.search_query, "Mz");
    assert_eq!(app.mode, AppMode::Normal);
    app.cancel_search();
    assert_eq!(app.search_query, "");
    assert_eq!(app.visible_rows().len(), 3);
}

#[test]
fn backspace_on_empty_search_keeps_it_empty() {
    let mut app = App::default();
    app.backspace_search();
    assert_eq!(app.search_query, "");
}

#[test]
fn groups_cycle_and_reset_view() {
    let mut app = App::default();
    app.groups.push(Group::new("work".to_string()));
    app.groups.push(Group::new("home".to_string()));
    app.search_query = "x".to_string();
    app.next_group();
    assert_eq!(app.selected_group, 1);
    assert_eq!(app.search_query, "");
    app.next_group();
    app.next_group();
    assert_eq!(app.selected_group, 0);
    app.prev_group();
    assert_eq!(app.selected_group, 2);
    app.prev_group();
    assert_eq!(app.selected_group, 1);
    app.switch_group(7);
    assert_eq!(app.selected_group, 1);
    app.switch_group(0);
    assert_eq!(app.selected_group, 0);
    let mut single = App::default();
    single.next_group();
    single.prev_group();
    assert_eq!(single.selected_group, 0);
}

#[test]
fn category_popup_adds_renames_and_jumps() {
    let mut app = App::default();
    app.enter_category_popup();
    assert_eq!(app.mode, AppMode::CategoryPopup);
    app.enter_group_add();
    assert_eq!(app.mode, AppMode::GroupInput);
    app.input_buffer = "  work ".to_string();
    app.commit_group_input();
    assert_eq!(app.groups.len(), 2);
    assert_eq!(app.groups[1].name, "work");
    assert_eq!(app.category_cursor, 1);
    assert_eq!(app.mode, AppMode::CategoryPopup);
    app.enter_group_rename();
    assert_eq!(app.input_buffer, "work");
    assert_eq!(app.group_editing, Some(1));
    app.input_buffer = "job".to_string();
    app.commit_group_input();
    assert_eq!(app.groups[1].name, "job");
    assert_eq!(app.group_editing, None);
    app.category_cursor_down();
    assert_eq!(app.category_cursor, 1);
    app.category_cursor_up();
    app.category_cursor_up();
    assert_eq!(app.category_cursor, 0);
    app.category_cursor_down();
    app.confirm_category_popup();
    assert_eq!(app.selected_group, 1);
    assert_eq!(app.mode, AppMode::Normal);
    app.enter_category_popup();
    app.enter_group_add();
    app.input_buffer = "   ".to_string();
    app.commit_group_input();
    assert_eq!(app.groups.len(), 2);
    app.enter_group_add();
    app.cancel_group_input();
    assert_eq!(app.mode, AppMode::CategoryPopup);
    app.cancel_category_popup();
    assert_eq!(app.mode, AppMode::Normal);
}

#[test]
fn group_delete_keeps_at_least_one() {
    let mut app = App::default();
    app.enter_category_popup();
    app.enter_group_delete_confirm();
    assert_eq!(app.mode, AppMode::CategoryPopup);
    app.confirm_group_delete();
    assert_eq!(app.groups.len(), 1);
    app.groups.push(Group::new("b".to_string()));
    app.groups.push(Group::new("c".to_string()));
    app.selected_group = 2;
    app.category_cursor = 0;
    app.enter_group_delete_confirm();
    assert_eq!(app.mode, AppMode::GroupDeleteConfirm);
    app.cancel_group_delete();
    assert_eq!(app.mode, AppMode::CategoryPopup);
    app.confirm_group_delete();
    assert_eq!(app.groups.len(), 2);
    assert_eq!(app.groups[0].name, "b");
    assert_eq!(app.selected_group, 1);
    assert_eq!(app.category_cursor, 0);
    app.category_cursor = 9;
    app.confirm_group_delete();
    assert_eq!(app.groups.len(), 1);
    assert_eq!(app.selected_group, 0);
    assert_eq!(app.category_cursor, 0);
    assert!(app.last_deleted.is_none());
}

#[test]
fn help_toggles() {
    let mut app = App::default();
    app.toggle_help();
    assert_eq!(app.mode, AppMode::Help);
    app.toggle_help();
    assert_eq!(app.mode, AppMode::Normal);
}
