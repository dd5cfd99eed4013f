//! What the keys on a row do to the todos: toggling completion, deleting
//! and undoing, cycling the priority, folding, and editing notes.
use crate::app::lemma_app_fits;
use crate::model::{
    App, AppMode, AppView, DeletedView, LastDeleted, RowRef, SubTaskView, TodoItem, TodoView,
    lemma_groups_update, lemma_subtasks_edit, lemma_todos_edit, lemma_todos_update, next_priority,
    subtasks_view,
};
use crate::rows::{lemma_current_row_valid, row_todo};
use vstd::prelude::*;

verus! {

/// The todo marked done (or not), with every subtask marked the same.
pub open spec fn complete_all(t: TodoView, state: bool) -> TodoView {
    TodoView {
        completed: state,
        subtasks: t.subtasks.map_values(|s: SubTaskView| SubTaskView { completed: state, ..s }),
        ..t
    }
}

/// The todo with the completion of subtask `j` flipped.
pub open spec fn flip_subtask(t: TodoView, j: int) -> TodoView {
    TodoView {
        subtasks: t.subtasks.update(
            j,
            SubTaskView { completed: !t.subtasks[j].completed, ..t.subtasks[j] },
        ),
        ..t
    }
}

impl AppView {
    /// Toggling the row under the cursor: a todo flips its completion and
    /// passes the new state to all its subtasks; a subtask flips alone.
    pub open spec fn after_toggle_selected(self) -> AppView {
        let g = self.selected_group as int;
        match self.current_row() {
            None => self,
            Some(RowRef::Todo(i)) => {
                let t = self.cur_todos()[i as int];
                AppView { dirty: true, ..self.with_todo(g, i as int, complete_all(t, !t.completed)) }
            },
            Some(RowRef::Sub(i, j)) => AppView {
                dirty: true,
                ..self.with_todo(g, i as int, flip_subtask(self.cur_todos()[i as int], j as int))
            },
        }
    }

    /// Deleting the row under the cursor: the todo (with its subtasks) or the
    /// subtask leaves the list and is kept, with where it stood, for undo;
    /// then the cursor is put back onto the rows.
    pub open spec fn after_delete_selected(self) -> AppView {
        let g = self.selected_group as int;
        match self.current_row() {
            None => self,
            Some(RowRef::Todo(i)) => AppView {
                last_deleted: Some(
                    DeletedView::Todo {
                        group: self.selected_group,
                        index: i,
                        item: self.cur_todos()[i as int],
                    },
                ),
                dirty: true,
                ..self.with_todos(g, self.cur_todos().remove(i as int))
            }.clamp(),
            Some(RowRef::Sub(i, j)) => {
                let t = self.cur_todos()[i as int];
                AppView {
                    last_deleted: Some(
                        DeletedView::Sub {
                            group: self.selected_group,
                            todo: i,
                            index: j,
                            item: t.subtasks[j as int],
                        },
                    ),
                    dirty: true,
                    ..self.with_todo(g, i as int, TodoView { subtasks: t.subtasks.remove(j as int), ..t })
                }.clamp()
            },
        }
    }

    /// Undoing the last deletion: the item goes back where it stood (or at
    /// the end, when that place no longer exists) in its group, which becomes
    /// the selected one, and the cursor goes onto it. A restored subtask
    /// unfolds its todo. The deletion is forgotten in any case; when its
    /// group (or todo) no longer exists nothing else changes.
    pub open spec fn after_undo(self) -> AppView {
        let v = AppView { last_deleted: None, ..self };
        match self.last_deleted {
            None => self,
            Some(DeletedView::Todo { group, index, item }) => {
                if group >= self.groups.len() {
                    v
                } else {
                    let todos = self.groups[group as int].todos;
                    let at = if index < todos.len() { index } else { todos.len() as usize };
                    AppView {
                        selected_group: group,
                        dirty: true,
                        ..v.with_todos(group as int, todos.insert(at as int, item))
                    }.select_row(RowRef::Todo(at))
                }
            },
            Some(DeletedView::Sub { group, todo, index, item }) => {
                if group >= self.groups.len() || todo >= self.groups[group as int].todos.len() {
                    v
                } else {
                    let t = self.groups[group as int].todos[todo as int];
                    let at = if index < t.subtasks.len() { index } else { t.subtasks.len() as usize };
                    AppView {
                        selected_group: group,
                        dirty: true,
                        ..v.with_todo(
                            group as int,
                            todo as int,
                            TodoView { subtasks: t.subtasks.insert(at as int, item), collapsed: false, ..t },
                        )
                    }.select_row(RowRef::Sub(todo, at))
                }
            },
        }
    }

    /// Cycling the priority of the todo under the cursor (nothing for a
    /// subtask row).
    pub open spec fn after_cycle_priority(self) -> AppView {
        match self.current_row() {
            Some(RowRef::Todo(i)) => {
                let t = self.cur_todos()[i as int];
                AppView {
                    dirty: true,
                    ..self.with_todo(
                        self.selected_group as int,
                        i as int,
                        TodoView { priority: next_priority(t.priority), ..t },
                    )
                }
            },
            _ => self,
        }
    }

    /// Folding or unfolding the todo of the row under the cursor (a todo
    /// without subtasks stays as it is), then putting the cursor on that todo.
    pub open spec fn after_toggle_collapse(self) -> AppView {
        match self.current_row() {
            None => self,
            Some(r) => {
                let p = row_todo(r);
                let t = self.cur_todos()[p];
                if t.subtasks.len() == 0 {
                    self
                } else {
                    self.with_todo(
                        self.selected_group as int,
                        p,
                        TodoView { collapsed: !t.collapsed, ..t },
                    ).select_row(RowRef::Todo(p as usize)).clamp()
                }
            },
        }
    }

    /// Opening the notes editor on the todo under the cursor, with its notes
    /// in the buffer (nothing for a subtask row).
    pub open spec fn after_enter_notes_mode(self) -> AppView {
        match self.current_row() {
            Some(RowRef::Todo(i)) => AppView {
                notes_buffer: self.cur_todos()[i as int].notes,
                mode: AppMode::EditingNotes,
                ..self
            },
            _ => self,
        }
    }

    /// Saving the notes buffer into the todo under the cursor (marking the
    /// data changed only when the notes differ), emptying the buffer and
    /// returning to the list; off a todo row only the return happens.
    pub open spec fn after_commit_notes(self) -> AppView {
        match self.current_row() {
            Some(RowRef::Todo(i)) => {
                let t = self.cur_todos()[i as int];
                let v = AppView { notes_buffer: Seq::empty(), mode: AppMode::Normal, ..self };
                if t.notes != self.notes_buffer {
                    AppView {
                        dirty: true,
                        ..v.with_todo(
                            self.selected_group as int,
                            i as int,
                            TodoView { notes: self.notes_buffer, ..t },
                        )
                    }
                } else {
                    v
                }
            },
            _ => AppView { mode: AppMode::Normal, ..self },
        }
    }
}

/// How many of the subtasks are done.
pub open spec fn done_count(subs: Seq<SubTaskView>) -> int
    decreases subs.len(),
{
    if subs.len() == 0 {
        0
    } else {
        done_count(subs.drop_last()) + if subs.last().completed {
            1int
        } else {
            0
        }
    }
}

impl AppView {
    /// The notes shown beside the list: the buffer while editing notes, else
    /// the notes of the todo under the cursor, else none.
    pub open spec fn notes_shown(self) -> Seq<char> {
        if self.mode == AppMode::EditingNotes {
            self.notes_buffer
        } else {
            match self.current_row() {
                Some(RowRef::Todo(i)) => self.cur_todos()[i as int].notes,
                _ => Seq::empty(),
            }
        }
    }
}

impl TodoItem {
    /// How many of the subtasks are done.
    pub fn completed_subtasks(&self) -> (n: usize)
        ensures
            n == done_count(self@.subtasks),
    {
        let ghost sv = self@.subtasks;
        let len = self.subtasks.len();
        let mut n: usize = 0;
        let mut j: usize = 0;
        while j < len
            invariant
                len == self.subtasks@.len(),
                sv == subtasks_view(self.subtasks@),
                j <= len,
                n == done_count(sv.take(j as int)),
                n <= j,
            decreases len - j,
        {
            assert(sv.take(j + 1).drop_last() =~= sv.take(j as int));
            assert(sv.take(j + 1).last() == self.subtasks@[j as int]@);
            if self.subtasks[j].completed {
                n += 1;
            }
            j += 1;
        }
        assert(sv.take(len as int) =~= sv);
        n
    }

    /// Marks the todo and all of its subtasks with the given state.
    fn complete_all(&mut self, state: bool)
        ensures
            final(self)@ == complete_all(old(self)@, state),
    {
        self.completed = state;
        let n = self.subtasks.len();
        let mut j: usize = 0;
        while j < n
            invariant
                n == self.subtasks.len(),
                j <= n,
                self.completed == state,
                self.title == old(self).title,
                self.notes == old(self).notes,
                self.priority == old(self).priority,
                self.collapsed == old(self).collapsed,
                forall|k: int|
                    0 <= k < n ==> (#[trigger] self.subtasks@[k]).title@ == old(self).subtasks@[k].title@,
                forall|k: int| 0 <= k < j ==> (#[trigger] self.subtasks@[k]).completed == state,
                forall|k: int|
                    j <= k < n ==> (#[trigger] self.subtasks@[k]).completed == old(
                        self,
                    ).subtasks@[k].completed,
            decreases n - j,
        {
            self.subtasks[j].completed = state;
            j += 1;
        }
        assert(subtasks_view(self.subtasks@) =~= subtasks_view(old(self).subtasks@).map_values(
            |s: SubTaskView| SubTaskView { completed: state, ..s },
        ));
    }
}

impl App {
    /// Toggles the completion of the row under the cursor; toggling a todo
    /// passes its new state on to all of its subtasks.
    pub fn toggle_selected(&mut self)
        ensures
            final(self)@ == old(self)@.after_toggle_selected(),
    {
        let row = self.current_row();
        let r = match row {
            None => {
                return;
            },
            Some(r) => r,
        };
        proof {
            lemma_app_fits(self);
            lemma_current_row_valid(self@);
        }
        let g = self.selected_group;
        let ghost old_groups = self.groups@;
        match r {
            RowRef::Todo(i) => {
                let ghost old_todos = self.groups@[g as int].todos@;
                let new_state = !self.groups[g].todos[i].completed;
                self.groups[g].todos[i].complete_all(new_state);
                proof {
                    lemma_todos_update(old_todos, i as int, self.groups@[g as int].todos@[i as int]);
                    assert(self.groups@[g as int].todos@ == old_todos.update(
                        i as int,
                        self.groups@[g as int].todos@[i as int],
                    ));
                    lemma_groups_update(old_groups, g as int, self.groups@[g as int]);
                }
            },
            RowRef::Sub(i, j) => {
                let ghost old_todos = self.groups@[g as int].todos@;
                let ghost old_subs = old_todos[i as int].subtasks@;
                let flipped = !self.groups[g].todos[i].subtasks[j].completed;
                self.groups[g].todos[i].subtasks[j].completed = flipped;
                proof {
                    let t = self.groups@[g as int].todos@[i as int];
                    lemma_subtasks_edit(old_subs, j as int, t.subtasks@[j as int]);
                    assert(t.subtasks@ == old_subs.update(j as int, t.subtasks@[j as int]));
                    lemma_todos_update(old_todos, i as int, t);
                    assert(self.groups@[g as int].todos@ == old_todos.update(i as int, t));
                    lemma_groups_update(old_groups, g as int, self.groups@[g as int]);
                }
            },
        }
        self.dirty = true;
    }

    /// Deletes the row under the cursor, keeping the deleted todo or subtask
    /// for undo, and moves the cursor back onto the rows.
    pub fn delete_selected(&mut self)
        ensures
            final(self)@ == old(self)@.after_delete_selected(),
    {
        let row = self.current_row();
        let r = match row {
            None => {
                return;
            },
            Some(r) => r,
        };
        proof {
            lemma_app_fits(self);
            lemma_current_row_valid(self@);
        }
        let g = self.selected_group;
        let ghost old_groups = self.groups@;
        match r {
            RowRef::Todo(i) => {
                let ghost old_todos = self.groups@[g as int].todos@;
                let item = self.groups[g].todos.remove(i);
                proof {
                    lemma_todos_edit(old_todos, i as int, item);
                    lemma_groups_update(old_groups, g as int, self.groups@[g as int]);
                }
                self.last_deleted = Some(LastDeleted::Todo { group: g, index: i, item });
            },
            RowRef::Sub(i, j) => {
                let ghost old_todos = self.groups@[g as int].todos@;
                let ghost old_subs = old_todos[i as int].subtasks@;
                let item = self.groups[g].todos[i].subtasks.remove(j);
                proof {
                    let t = self.groups@[g as int].todos@[i as int];
                    lemma_subtasks_edit(old_subs, j as int, item);
                    lemma_todos_update(old_todos, i as int, t);
                    assert(self.groups@[g as int].todos@ == old_todos.update(i as int, t));
                    lemma_groups_update(old_groups, g as int, self.groups@[g as int]);
                }
                self.last_deleted = Some(
                    LastDeleted::Sub { group: g, todo: i, index: j, item },
                );
            },
        }
        self.dirty = true;
        self.clamp_selection();
    }

    /// Puts the last deleted todo or subtask back where it stood and moves the
    /// cursor onto it.
    pub fn undo(&mut self)
        ensures
            final(self)@ == old(self)@.after_undo(),
    {
        let deleted = self.last_deleted.take();
        let ghost old_groups = self.groups@;
        match deleted {
            None => {},
            Some(LastDeleted::Todo { group, index, item }) => {
                if group >= self.groups.len() {
                    return;
                }
                let ghost old_todos = self.groups@[group as int].todos@;
                let len = self.groups[group].todos.len();
                let at = if index < len {
                    index
                } else {
                    len
                };
                let ghost it = item;
                self.groups[group].todos.insert(at, item);
                proof {
                    lemma_todos_edit(old_todos, at as int, it);
                    lemma_groups_update(old_groups, group as int, self.groups@[group as int]);
                }
                self.selected_group = group;
                self.dirty = true;
                self.select_row(RowRef::Todo(at));
            },
            Some(LastDeleted::Sub { group, todo, index, item }) => {
                if group >= self.groups.len() {
                    return;
                }
                if todo >= self.groups[group].todos.len() {
                    return;
                }
                let ghost old_todos = self.groups@[group as int].todos@;
                let ghost old_subs = old_todos[todo as int].subtasks@;
                let len = self.groups[group].todos[todo].subtasks.len();
                let at = if index < len {
                    index
                } else {
                    len
                };
                let ghost it = item;
                self.groups[group].todos[todo].subtasks.insert(at, item);
                self.groups[group].todos[todo].collapsed = false;
                proof {
                    let t = self.groups@[group as int].todos@[todo as int];
                    assert(t.subtasks@ == old_subs.insert(at as int, it));
                    assert(self.groups@ =~= old_groups.update(group as int, self.groups@[group as int]));
                    assert(self.groups@[group as int].todos@ =~= old_todos.update(todo as int, t));
                    lemma_subtasks_edit(old_subs, at as int, it);
                    assert(t@ == (TodoView { subtasks: subtasks_view(old_subs).insert(at as int, it@), collapsed: false, ..old_todos[todo as int]@ }));
                    lemma_todos_update(old_todos, todo as int, t);
                    assert(self.groups@[group as int].todos@ == old_todos.update(todo as int, t));
                    lemma_groups_update(old_groups, group as int, self.groups@[group as int]);
                }
                self.selected_group = group;
                self.dirty = true;
                self.select_row(RowRef::Sub(todo, at));
            },
        }
    }

    /// Cycles the priority of the todo under the cursor.
    pub fn cycle_priority(&mut self)
        ensures
            final(self)@ == old(self)@.after_cycle_priority(),
    {
        let i = match self.current_row() {
            Some(RowRef::Todo(i)) => i,
            _ => {
                return;
            },
        };
        proof {
            lemma_app_fits(self);
            lemma_current_row_valid(self@);
        }
        let g = self.selected_group;
        let ghost old_groups = self.groups@;
        let ghost old_todos = self.groups@[g as int].todos@;
        let next = self.groups[g].todos[i].priority.cycle();
        self.groups[g].todos[i].priority = next;
        proof {
            let t = self.groups@[g as int].todos@[i as int];
            lemma_todos_update(old_todos, i as int, t);
            assert(self.groups@[g as int].todos@ == old_todos.update(i as int, t));
            lemma_groups_update(old_groups, g as int, self.groups@[g as int]);
        }
        self.dirty = true;
    }

    /// Folds or unfolds the subtasks of the todo of the row under the cursor
    /// and puts the cursor on that todo.
    pub fn toggle_collapse(&mut self)
        ensures
            final(self)@ == old(self)@.after_toggle_collapse(),
    {
        let r = match self.current_row() {
            None => {
                return;
            },
            Some(r) => r,
        };
        proof {
            lemma_app_fits(self);
            lemma_current_row_valid(self@);
        }
        let parent = match r {
            RowRef::Todo(i) => i,
            RowRef::Sub(i, _) => i,
        };
        let g = self.selected_group;
        if self.groups[g].todos[parent].subtasks.is_empty() {
            return;
        }
        let ghost old_groups = self.groups@;
        let ghost old_todos = self.groups@[g as int].todos@;
        let folded = !self.groups[g].todos[parent].collapsed;
        self.groups[g].todos[parent].collapsed = folded;
        proof {
            let t = self.groups@[g as int].todos@[parent as int];
            lemma_todos_update(old_todos, parent as int, t);
            assert(self.groups@[g as int].todos@ == old_todos.update(parent as int, t));
            lemma_groups_update(old_groups, g as int, self.groups@[g as int]);
        }
        self.select_row(RowRef::Todo(parent));
        self.clamp_selection();
    }

    /// Opens the notes editor on the todo under the cursor.
    pub fn enter_notes_mode(&mut self)
        ensures
            final(self)@ == old(self)@.after_enter_notes_mode(),
    {
        let i = match self.current_row() {
            Some(RowRef::Todo(i)) => i,
            _ => {
                return;
            },
        };
        proof {
            lemma_app_fits(self);
            lemma_current_row_valid(self@);
        }
        let g = self.selected_group;
        self.notes_buffer = self.groups[g].todos[i].notes.clone();
        self.mode = AppMode::EditingNotes;
    }

    /// Saves the notes buffer into the todo under the cursor and returns to
    /// the list.
    pub fn commit_notes(&mut self)
        ensures
            final(self)@ == old(self)@.after_commit_notes(),
    {
        let i = match self.current_row() {
            Some(RowRef::Todo(i)) => i,
            _ => {
                self.mode = AppMode::Normal;
                return;
            },
        };
        proof {
            lemma_app_fits(self);
            lemma_current_row_valid(self@);
        }
        let g = self.selected_group;
        if !(self.groups[g].todos[i].notes == self.notes_buffer) {
            let ghost old_groups = self.groups@;
            let ghost old_todos = self.groups@[g as int].todos@;
            let mut taken = String::new();
            std::mem::swap(&mut taken, &mut self.notes_buffer);
            self.groups[g].todos[i].notes = taken;
            proof {
                let t = self.groups@[g as int].todos@[i as int];
                lemma_todos_update(old_todos, i as int, t);
                assert(self.groups@[g as int].todos@ == old_todos.update(i as int, t));
                lemma_groups_update(old_groups, g as int, self.groups@[g as int]);
            }
            self.dirty = true;
        } else {
            self.notes_buffer = String::new();
        }
        self.mode = AppMode::Normal;
    }

    /// The notes to show beside the list: the buffer while editing notes,
    /// else the notes of the todo under the cursor, else none.
    pub fn notes_to_show(&self) -> (r: &str)
        ensures
            r@ == self@.notes_shown(),
    {
        if self.mode == AppMode::EditingNotes {
            return self.notes_buffer.as_str();
        }
        match self.current_row() {
            Some(RowRef::Todo(i)) => {
                proof {
                    lemma_app_fits(self);
                    lemma_current_row_valid(self@);
                }
                self.groups[self.selected_group].todos[i].notes.as_str()
            },
            _ => {
                proof {
                    reveal_strlit("");
                }
                ""
            },
        }
    }

    /// Leaves the notes editor without saving, emptying the buffer.
    pub fn cancel_notes(&mut self)
        ensures
            final(self)@ == (AppView {
                notes_buffer: Seq::empty(),
                mode: AppMode::Normal,
                ..old(self)@
            }),
    {
        self.notes_buffer = String::new();
        self.mode = AppMode::Normal;
    }
}

} // verus!
