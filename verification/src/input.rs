//! Moving the cursor, the help screen, typing a title (new todo, new
//! subtask, or an edit) and the search box.
use crate::app::lemma_app_fits;
use crate::model::{
    App, AppMode, AppView, InputTarget, RowRef, SubTask, SubTaskView, TodoItem, TodoView,
    fresh_todo, lemma_groups_update, lemma_subtasks_edit, lemma_todos_edit, lemma_todos_update,
};
use crate::rows::{lemma_current_row_valid, row_todo};
use crate::text::{pop_char, push_char, trim_str, trimmed};
use vstd::prelude::*;

verus! {

impl AppView {
    /// Showing the help screen, or closing it back to the list when shown.
    pub open spec fn after_toggle_help(self) -> AppView {
        AppView {
            mode: if self.mode == AppMode::Help {
                AppMode::Normal
            } else {
                AppMode::Help
            },
            ..self
        }
    }

    /// Moving the cursor one row down, stopping at the last row.
    pub open spec fn after_move_down(self) -> AppView {
        let c = self.visible_rows().len();
        if c > 0 {
            AppView {
                selected: if self.selected + 1 < c {
                    (self.selected + 1) as usize
                } else {
                    (c - 1) as usize
                },
                ..self
            }
        } else {
            self
        }
    }

    /// Opening the title editor on the row under the cursor, with its title
    /// in the buffer.
    pub open spec fn after_enter_edit_mode(self) -> AppView {
        match self.current_row() {
            None => self,
            Some(RowRef::Todo(i)) => AppView {
                input_buffer: self.cur_todos()[i as int].title,
                input_target: InputTarget::EditTodo(i),
                mode: AppMode::Input,
                ..self
            },
            Some(RowRef::Sub(i, j)) => AppView {
                input_buffer: self.cur_todos()[i as int].subtasks[j as int].title,
                input_target: InputTarget::EditSubtask(i, j),
                mode: AppMode::Input,
                ..self
            },
        }
    }

    /// Opening an empty title editor for a new subtask of the todo of the
    /// row under the cursor.
    pub open spec fn after_enter_subtask_input(self) -> AppView {
        match self.current_row() {
            None => self,
            Some(r) => AppView {
                input_buffer: Seq::empty(),
                input_target: InputTarget::NewSubtask(row_todo(r) as usize),
                mode: AppMode::Input,
                ..self
            },
        }
    }

    /// The editor closed: empty buffer, next target a new todo, back to the
    /// list.
    pub open spec fn input_closed(self) -> AppView {
        AppView {
            input_buffer: Seq::empty(),
            input_target: InputTarget::NewTodo,
            mode: AppMode::Normal,
            ..self
        }
    }

    /// Committing the title editor: with its trimmed text as the title.
    pub open spec fn after_commit_input(self) -> AppView {
        self.after_commit_title(trimmed(self.input_buffer))
    }

    /// Committing the title editor with the given title. When it is empty
    /// nothing is added or changed. A new todo is appended to the selected
    /// group and a new subtask to its todo (which unfolds), and the cursor
    /// goes onto the new row; an edit replaces the title when it differs.
    /// Targets that no longer exist are ignored. In every case the editor
    /// closes and the cursor is put back onto the rows.
    pub open spec fn after_commit_title(self, title: Seq<char>) -> AppView {
        let g = self.selected_group as int;
        let base = self.input_closed();
        let todos = self.groups[g].todos;
        let group_ok = self.selected_group < self.groups.len();
        if title.len() == 0 {
            base.clamp()
        } else {
            match self.input_target {
                InputTarget::NewTodo => if group_ok {
                    AppView {
                        dirty: true,
                        ..base.with_todos(g, todos.push(fresh_todo(title)))
                    }.select_row(RowRef::Todo(todos.len() as usize)).clamp()
                } else {
                    base.clamp()
                },
                InputTarget::NewSubtask(p) => if group_ok && p < todos.len() {
                    let t = todos[p as int];
                    AppView {
                        dirty: true,
                        ..base.with_todo(
                            g,
                            p as int,
                            TodoView {
                                subtasks: t.subtasks.push(SubTaskView { title, completed: false }),
                                collapsed: false,
                                ..t
                            },
                        )
                    }.select_row(RowRef::Sub(p, t.subtasks.len() as usize)).clamp()
                } else {
                    base.clamp()
                },
                InputTarget::EditTodo(i) => if group_ok && i < todos.len() && todos[i as int].title
                    != title {
                    AppView {
                        dirty: true,
                        ..base.with_todo(g, i as int, TodoView { title, ..todos[i as int] })
                    }.clamp()
                } else {
                    base.clamp()
                },
                InputTarget::EditSubtask(i, j) => if group_ok && i < todos.len() && j
                    < todos[i as int].subtasks.len() && todos[i as int].subtasks[j as int].title
                    != title {
                    let t = todos[i as int];
                    AppView {
                        dirty: true,
                        ..base.with_todo(
                            g,
                            i as int,
                            TodoView {
                                subtasks: t.subtasks.update(
                                    j as int,
                                    SubTaskView { title, ..t.subtasks[j as int] },
                                ),
                                ..t
                            },
                        )
                    }.clamp()
                } else {
                    base.clamp()
                },
            }
        }
    }

    /// The search box closed and the filter cleared, cursor back onto the
    /// rows.
    pub open spec fn after_cancel_search(self) -> AppView {
        AppView { search_query: Seq::empty(), mode: AppMode::Normal, ..self }.clamp()
    }

    /// The search query with one more character, cursor back onto the rows.
    pub open spec fn after_push_search(self, c: char) -> AppView {
        AppView { search_query: self.search_query.push(c), ..self }.clamp()
    }

    /// The search query without its last character (unchanged when empty),
    /// cursor back onto the rows.
    pub open spec fn after_backspace_search(self) -> AppView {
        AppView {
            search_query: if self.search_query.len() > 0 {
                self.search_query.drop_last()
            } else {
                self.search_query
            },
            ..self
        }.clamp()
    }
}

impl App {
    /// Shows the help screen, or closes it when it is shown.
    pub fn toggle_help(&mut self)
        ensures
            final(self)@ == old(self)@.after_toggle_help(),
    {
        self.mode = match self.mode {
            AppMode::Help => AppMode::Normal,
            _ => AppMode::Help,
        };
    }

    /// Moves the cursor one row down, stopping at the last row.
    pub fn move_down(&mut self)
        requires
            old(self)@.visible_rows().len() > 0 ==> old(self).selected < usize::MAX,
        ensures
            final(self)@ == old(self)@.after_move_down(),
    {
        let count = self.visible_rows().len();
        if count > 0 {
            let next = self.selected + 1;
            self.selected = if next < count - 1 {
                next
            } else {
                count - 1
            };
        }
    }

    /// Moves the cursor one row up, stopping at the first row.
    pub fn move_up(&mut self)
        ensures
            final(self)@ == (AppView {
                selected: if old(self).selected > 0 {
                    (old(self).selected - 1) as usize
                } else {
                    0
                },
                ..old(self)@
            }),
    {
        self.selected = self.selected.saturating_sub(1);
    }

    /// Opens the title editor on the row under the cursor.
    pub fn enter_edit_mode(&mut self)
        ensures
            final(self)@ == old(self)@.after_enter_edit_mode(),
    {
        let r = match self.current_row() {
            None => {
                return;
            },
            Some(r) => r,
        };
        proof {
            lemma_app_fits(self);
            lemma_current_row_valid(self@);
        }
        let g = self.selected_group;
        match r {
            RowRef::Todo(i) => {
                self.input_buffer = self.groups[g].todos[i].title.clone();
                self.input_target = InputTarget::EditTodo(i);
            },
            RowRef::Sub(i, j) => {
                self.input_buffer = self.groups[g].todos[i].subtasks[j].title.clone();
                self.input_target = InputTarget::EditSubtask(i, j);
            },
        }
        self.mode = AppMode::Input;
    }

    /// Opens an empty title editor for a new todo.
    pub fn enter_input_mode(&mut self)
        ensures
            final(self)@ == (AppView {
                mode: AppMode::Input,
                input_buffer: Seq::empty(),
                input_target: InputTarget::NewTodo,
                ..old(self)@
            }),
    {
        self.mode = AppMode::Input;
        self.input_buffer = String::new();
        self.input_target = InputTarget::NewTodo;
    }

    /// Closes the title editor without changing any todo.
    pub fn cancel_input(&mut self)
        ensures
            final(self)@ == old(self)@.input_closed(),
    {
        self.mode = AppMode::Normal;
        self.input_buffer = String::new();
        self.input_target = InputTarget::NewTodo;
    }

    /// Commits the title editor: its text, trimmed, becomes the title of the
    /// new todo or subtask, or of the edited one, then the editor closes.
    pub fn commit_input(&mut self)
        ensures
            final(self)@ == old(self)@.after_commit_input(),
    {
        let title = trim_str(self.input_buffer.as_str()).to_owned();
        self.commit_title(title);
    }

    /// Commits the title editor with the given title: adds the new todo or
    /// subtask, or renames the edited one, then closes the editor.
    pub fn commit_title(&mut self, title: String)
        ensures
            final(self)@ == old(self)@.after_commit_title(title@),
    {
        let mut to_select: Option<RowRef> = None;
        let g = self.selected_group;
        let ghost old_groups = self.groups@;
        if !title.as_str().is_empty() {
            match self.input_target {
                InputTarget::NewTodo => {
                    if g < self.groups.len() {
                        let ghost old_todos = self.groups@[g as int].todos@;
                        let item = TodoItem::new(title);
                        self.groups[g].todos.push(item);
                        proof {
                            lemma_todos_edit(old_todos, 0, item);
                            lemma_groups_update(old_groups, g as int, self.groups@[g as int]);
                        }
                        to_select = Some(RowRef::Todo(self.groups[g].todos.len() - 1));
                        self.dirty = true;
                    }
                },
                InputTarget::NewSubtask(p) => {
                    if g < self.groups.len() && p < self.groups[g].todos.len() {
                        let ghost old_todos = self.groups@[g as int].todos@;
                        let ghost old_subs = old_todos[p as int].subtasks@;
                        let sub = SubTask::new(title);
                        self.groups[g].todos[p].subtasks.push(sub);
                        self.groups[g].todos[p].collapsed = false;
                        proof {
                            let t = self.groups@[g as int].todos@[p as int];
                            assert(t.subtasks@ == old_subs.push(sub));
                            lemma_subtasks_edit(old_subs, 0, sub);
                            assert(self.groups@ =~= old_groups.update(
                                g as int,
                                self.groups@[g as int],
                            ));
                            assert(self.groups@[g as int].todos@ =~= old_todos.update(p as int, t));
                            lemma_todos_update(old_todos, p as int, t);
                            lemma_groups_update(old_groups, g as int, self.groups@[g as int]);
                        }
                        to_select = Some(
                            RowRef::Sub(p, self.groups[g].todos[p].subtasks.len() - 1),
                        );
                        self.dirty = true;
                    }
                },
                InputTarget::EditTodo(i) => {
                    if g < self.groups.len() && i < self.groups[g].todos.len() && !(
                    self.groups[g].todos[i].title == title) {
                        let ghost old_todos = self.groups@[g as int].todos@;
                        self.groups[g].todos[i].title = title;
                        proof {
                            let t = self.groups@[g as int].todos@[i as int];
                            lemma_todos_update(old_todos, i as int, t);
                            lemma_groups_update(old_groups, g as int, self.groups@[g as int]);
                        }
                        self.dirty = true;
                    }
                },
                InputTarget::EditSubtask(i, j) => {
                    if g < self.groups.len() && i < self.groups[g].todos.len() && j
                        < self.groups[g].todos[i].subtasks.len() && !(
                    self.groups[g].todos[i].subtasks[j].title == title) {
                        let ghost old_todos = self.groups@[g as int].todos@;
                        let ghost old_subs = old_todos[i as int].subtasks@;
                        self.groups[g].todos[i].subtasks[j].title = title;
                        proof {
                            let t = self.groups@[g as int].todos@[i as int];
                            lemma_subtasks_edit(old_subs, j as int, t.subtasks@[j as int]);
                            assert(t.subtasks@ == old_subs.update(j as int, t.subtasks@[j as int]));
                            lemma_todos_update(old_todos, i as int, t);
                            assert(self.groups@[g as int].todos@ == old_todos.update(i as int, t));
                            lemma_groups_update(old_groups, g as int, self.groups@[g as int]);
                        }
                        self.dirty = true;
                    }
                },
            }
        }
        self.input_buffer = String::new();
        self.input_target = InputTarget::NewTodo;
        self.mode = AppMode::Normal;
        match to_select {
            Some(row) => self.select_row(row),
            None => {},
        }
        self.clamp_selection();
    }

    /// Opens an empty title editor for a new subtask of the todo of the row
    /// under the cursor.
    pub fn enter_subtask_input(&mut self)
        ensures
            final(self)@ == old(self)@.after_enter_subtask_input(),
    {
        let r = match self.current_row() {
            None => {
                return;
            },
            Some(r) => r,
        };
        let parent = match r {
            RowRef::Todo(i) => i,
            RowRef::Sub(i, _) => i,
        };
        self.input_buffer = String::new();
        self.input_target = InputTarget::NewSubtask(parent);
        self.mode = AppMode::Input;
    }

    /// Opens the search box.
    pub fn enter_search_mode(&mut self)
        ensures
            final(self)@ == (AppView { mode: AppMode::Search, ..old(self)@ }),
    {
        self.mode = AppMode::Search;
    }

    /// Adds a character to the search query and moves the cursor back onto
    /// the rows.
    pub fn push_search(&mut self, c: char)
        ensures
            final(self)@ == old(self)@.after_push_search(c),
    {
        push_char(&mut self.search_query, c);
        self.clamp_selection();
    }

    /// Removes the last character of the search query and moves the cursor
    /// back onto the rows.
    pub fn backspace_search(&mut self)
        ensures
            final(self)@ == old(self)@.after_backspace_search(),
    {
        let _ = pop_char(&mut self.search_query);
        self.clamp_selection();
    }

    /// Closes the search box, keeping the filter.
    pub fn confirm_search(&mut self)
        ensures
            final(self)@ == (AppView { mode: AppMode::Normal, ..old(self)@ }).clamp(),
    {
        self.mode = AppMode::Normal;
        self.clamp_selection();
    }

    /// Closes the search box and clears the filter.
    pub fn cancel_search(&mut self)
        ensures
            final(self)@ == old(self)@.after_cancel_search(),
    {
        self.search_query = String::new();
        self.mode = AppMode::Normal;
        self.clamp_selection();
    }
}

} // verus!
