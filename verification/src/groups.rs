//! Switching between groups, and the category popup that adds, renames
//! and deletes them.
use crate::model::{App, AppMode, AppView, Group, GroupView, lemma_groups_edit, lemma_groups_update};
use crate::text::{trim_str, trimmed};
use vstd::prelude::*;

verus! {

impl AppView {
    /// A fresh view of a group: cursor on the first row, no search.
    pub open spec fn reset_view(self) -> AppView {
        AppView { selected: 0, search_query: Seq::empty(), ..self }
    }

    /// Selecting group `index` when it exists, with a fresh view.
    pub open spec fn after_switch_group(self, index: usize) -> AppView {
        if index < self.groups.len() {
            AppView { selected_group: index, ..self }.reset_view()
        } else {
            self
        }
    }

    /// Selecting the next group, the first after the last; nothing with at
    /// most one group.
    pub open spec fn after_next_group(self) -> AppView {
        if self.groups.len() <= 1 {
            self
        } else {
            AppView {
                selected_group: ((self.selected_group + 1) % (self.groups.len() as int)) as usize,
                ..self
            }.reset_view()
        }
    }

    /// Selecting the previous group, the last before the first; nothing with
    /// at most one group.
    pub open spec fn after_prev_group(self) -> AppView {
        if self.groups.len() <= 1 {
            self
        } else {
            AppView {
                selected_group: ((self.selected_group + self.groups.len() - 1) % (
                self.groups.len() as int)) as usize,
                ..self
            }.reset_view()
        }
    }

    /// Opening the rename box on the group under the popup cursor, with its
    /// name in the buffer (nothing when the cursor is past the groups).
    pub open spec fn after_enter_group_rename(self) -> AppView {
        if self.category_cursor < self.groups.len() {
            AppView {
                input_buffer: self.groups[self.category_cursor as int].name,
                group_editing: Some(self.category_cursor),
                mode: AppMode::GroupInput,
                ..self
            }
        } else {
            self
        }
    }

    /// Committing the group name box: with its trimmed text as the name.
    pub open spec fn after_commit_group_input(self) -> AppView {
        self.after_commit_group_name(trimmed(self.input_buffer))
    }

    /// Committing the group name box with the given name. When it is empty
    /// nothing changes. A rename replaces the name when it differs and
    /// the group exists; otherwise a new empty group is appended and the popup
    /// cursor goes onto it. The box closes back to the popup in every case.
    pub open spec fn after_commit_group_name(self, name: Seq<char>) -> AppView {
        let base = AppView {
            input_buffer: Seq::empty(),
            group_editing: None,
            mode: AppMode::CategoryPopup,
            ..self
        };
        if name.len() == 0 {
            base
        } else {
            match self.group_editing {
                Some(i) => if i < self.groups.len() && self.groups[i as int].name != name {
                    AppView {
                        groups: self.groups.update(
                            i as int,
                            GroupView { name, ..self.groups[i as int] },
                        ),
                        dirty: true,
                        ..base
                    }
                } else {
                    base
                },
                None => AppView {
                    groups: self.groups.push(GroupView { name, todos: Seq::empty() }),
                    category_cursor: self.groups.len() as usize,
                    dirty: true,
                    ..base
                },
            }
        }
    }

    /// Deleting the group under the popup cursor (the last one when the
    /// cursor is past them), never the only group. The selected group keeps
    /// pointing at the same group, or, when it was the deleted one, at the
    /// group that took its place (the last when there is none) with a fresh
    /// view. The popup cursor is kept on the groups, the undo record is
    /// dropped, and the popup stays open.
    pub open spec fn after_confirm_group_delete(self) -> AppView {
        let n = self.groups.len();
        if n <= 1 {
            AppView { mode: AppMode::CategoryPopup, ..self }
        } else {
            let target = if self.category_cursor < n - 1 {
                self.category_cursor as int
            } else {
                n - 1
            };
            let v1 = AppView { groups: self.groups.remove(target), ..self };
            let m = n - 1;
            let v2 = if self.selected_group == target {
                AppView {
                    selected_group: if self.selected_group < m - 1 {
                        self.selected_group
                    } else {
                        (m - 1) as usize
                    },
                    ..v1
                }.reset_view()
            } else if self.selected_group > target {
                AppView { selected_group: (self.selected_group - 1) as usize, ..v1 }
            } else {
                v1
            };
            AppView {
                category_cursor: if self.category_cursor < m - 1 {
                    self.category_cursor
                } else {
                    (m - 1) as usize
                },
                last_deleted: None,
                dirty: true,
                mode: AppMode::CategoryPopup,
                ..v2
            }
        }
    }
}

impl App {
    /// Selects the next group (the first after the last).
    pub fn next_group(&mut self)
        requires
            old(self).groups.len() > 1 ==> old(self).selected_group < usize::MAX,
        ensures
            final(self)@ == old(self)@.after_next_group(),
    {
        if self.groups.len() <= 1 {
            return;
        }
        self.selected_group = (self.selected_group + 1) % self.groups.len();
        self.reset_group_view();
    }

    /// Selects the previous group (the last before the first).
    pub fn prev_group(&mut self)
        requires
            old(self).groups.len() > 1 ==> old(self).selected_group + old(self).groups.len()
                <= usize::MAX,
        ensures
            final(self)@ == old(self)@.after_prev_group(),
    {
        if self.groups.len() <= 1 {
            return;
        }
        self.selected_group = (self.selected_group + self.groups.len() - 1) % self.groups.len();
        self.reset_group_view();
    }

    /// Selects group `index`, when it exists, with a fresh view.
    pub fn switch_group(&mut self, index: usize)
        ensures
            final(self)@ == old(self)@.after_switch_group(index),
    {
        if index < self.groups.len() {
            self.selected_group = index;
            self.reset_group_view();
        }
    }

    /// Puts the cursor on the first row and clears the search.
    fn reset_group_view(&mut self)
        ensures
            final(self)@ == old(self)@.reset_view(),
    {
        self.selected = 0;
        self.search_query = String::new();
    }

    /// Opens the category popup with its cursor on the selected group.
    pub fn enter_category_popup(&mut self)
        ensures
            final(self)@ == (AppView {
                category_cursor: old(self).selected_group,
                mode: AppMode::CategoryPopup,
                ..old(self)@
            }),
    {
        self.category_cursor = self.selected_group;
        self.mode = AppMode::CategoryPopup;
    }

    /// Moves the popup cursor up, stopping at the first group.
    pub fn category_cursor_up(&mut self)
        ensures
            final(self)@ == (AppView {
                category_cursor: if old(self).category_cursor > 0 {
                    (old(self).category_cursor - 1) as usize
                } else {
                    0
                },
                ..old(self)@
            }),
    {
        self.category_cursor = self.category_cursor.saturating_sub(1);
    }

    /// Moves the popup cursor down, stopping at the last group.
    pub fn category_cursor_down(&mut self)
        requires
            old(self).category_cursor < usize::MAX,
        ensures
            final(self)@ == (AppView {
                category_cursor: if old(self).category_cursor + 1 < old(self).groups.len() {
                    (old(self).category_cursor + 1) as usize
                } else {
                    old(self).category_cursor
                },
                ..old(self)@
            }),
    {
        if self.category_cursor + 1 < self.groups.len() {
            self.category_cursor += 1;
        }
    }

    /// Jumps to the group under the popup cursor and closes the popup.
    pub fn confirm_category_popup(&mut self)
        ensures
            final(self)@ == (AppView {
                mode: AppMode::Normal,
                ..old(self)@.after_switch_group(old(self).category_cursor)
            }),
    {
        self.switch_group(self.category_cursor);
        self.mode = AppMode::Normal;
    }

    /// Closes the category popup.
    pub fn cancel_category_popup(&mut self)
        ensures
            final(self)@ == (AppView { mode: AppMode::Normal, ..old(self)@ }),
    {
        self.mode = AppMode::Normal;
    }

    /// Opens an empty name box for a new group.
    pub fn enter_group_add(&mut self)
        ensures
            final(self)@ == (AppView {
                group_editing: None,
                input_buffer: Seq::empty(),
                mode: AppMode::GroupInput,
                ..old(self)@
            }),
    {
        self.group_editing = None;
        self.input_buffer = String::new();
        self.mode = AppMode::GroupInput;
    }

    /// Opens the name box on the group under the popup cursor.
    pub fn enter_group_rename(&mut self)
        ensures
            final(self)@ == old(self)@.after_enter_group_rename(),
    {
        if self.category_cursor < self.groups.len() {
            self.input_buffer = self.groups[self.category_cursor].name.clone();
            self.group_editing = Some(self.category_cursor);
            self.mode = AppMode::GroupInput;
        }
    }

    /// Commits the name box: its text, trimmed, renames the edited group or
    /// names a new one.
    pub fn commit_group_input(&mut self)
        ensures
            final(self)@ == old(self)@.after_commit_group_input(),
    {
        let name = trim_str(self.input_buffer.as_str()).to_owned();
        self.commit_group_name(name);
    }

    /// Commits the name box with the given name: renames the edited group or
    /// adds a new one, then closes the box.
    pub fn commit_group_name(&mut self, name: String)
        ensures
            final(self)@ == old(self)@.after_commit_group_name(name@),
    {
        let ghost old_groups = self.groups@;
        if !name.as_str().is_empty() {
            match self.group_editing {
                Some(i) => {
                    if i < self.groups.len() && !(self.groups[i].name == name) {
                        self.groups[i].name = name;
                        proof {
                            lemma_groups_update(old_groups, i as int, self.groups@[i as int]);
                        }
                        self.dirty = true;
                    }
                },
                None => {
                    let group = Group::new(name);
                    self.groups.push(group);
                    proof {
                        lemma_groups_edit(old_groups, 0, group);
                    }
                    self.category_cursor = self.groups.len() - 1;
                    self.dirty = true;
                },
            }
        }
        self.input_buffer = String::new();
        self.group_editing = None;
        self.mode = AppMode::CategoryPopup;
    }

    /// Closes the name box back to the popup.
    pub fn cancel_group_input(&mut self)
        ensures
            final(self)@ == (AppView {
                input_buffer: Seq::empty(),
                group_editing: None,
                mode: AppMode::CategoryPopup,
                ..old(self)@
            }),
    {
        self.input_buffer = String::new();
        self.group_editing = None;
        self.mode = AppMode::CategoryPopup;
    }

    /// Asks to confirm the deletion of the group under the popup cursor,
    /// unless it is the only group.
    pub fn enter_group_delete_confirm(&mut self)
        ensures
            final(self)@ == (if old(self).groups.len() <= 1 {
                old(self)@
            } else {
                AppView { mode: AppMode::GroupDeleteConfirm, ..old(self)@ }
            }),
    {
        if self.groups.len() <= 1 {
            return;
        }
        self.mode = AppMode::GroupDeleteConfirm;
    }

    /// Deletes the group under the popup cursor, with its todos.
    pub fn confirm_group_delete(&mut self)
        ensures
            final(self)@ == old(self)@.after_confirm_group_delete(),
    {
        if self.groups.len() <= 1 {
            self.mode = AppMode::CategoryPopup;
            return;
        }
        let last = self.groups.len() - 1;
        let target = if self.category_cursor < last {
            self.category_cursor
        } else {
            last
        };
        let ghost old_groups = self.groups@;
        let removed = self.groups.remove(target);
        proof {
            lemma_groups_edit(old_groups, target as int, removed);
        }
        let m = self.groups.len();
        if self.selected_group == target {
            if self.selected_group >= m - 1 {
                self.selected_group = m - 1;
            }
            self.reset_group_view();
        } else if self.selected_group > target {
            self.selected_group -= 1;
        }
        if self.category_cursor >= m - 1 {
            self.category_cursor = m - 1;
        }
        self.last_deleted = None;
        self.dirty = true;
        self.mode = AppMode::CategoryPopup;
    }

    /// Closes the delete confirmation back to the popup.
    pub fn cancel_group_delete(&mut self)
        ensures
            final(self)@ == (AppView { mode: AppMode::CategoryPopup, ..old(self)@ }),
    {
        self.mode = AppMode::CategoryPopup;
    }
}

} // verus!
