//! The rows of the current group, the cursor over them, and the state
//! built at start.
use crate::model::{
    App, AppMode, AppView, Group, GroupView, InputTarget, RowRef, TodoItem, groups_view,
    strings_view, todos_view,
};
use crate::rows::{is_first_index, lemma_first_index, lemma_rows_keyed, rows_for_keys, todos_fit};
use crate::text::{is_ascii_text, lower_key, to_lower};
use vstd::prelude::*;

verus! {

/// The model of every `App` fits `usize` positions.
pub proof fn lemma_app_fits(app: &App)
    ensures
        app@.fits(),
{
    let gv = groups_view(app.groups@);
    assert(app.groups@.len() == app.groups.len());
    assert forall|g: int| 0 <= g < gv.len() implies todos_fit(#[trigger] gv[g].todos) by {
        let grp = app.groups@[g];
        assert(grp.todos@.len() == grp.todos.len());
        let tv = gv[g].todos;
        assert forall|i: int| 0 <= i < tv.len() implies #[trigger] tv[i].subtasks.len()
            <= usize::MAX by {
            let t = grp.todos@[i];
            assert(t.subtasks@.len() == t.subtasks.len());
        }
    }
}

impl AppView {
    /// The state at first start: one empty group named "기본" (default),
    /// selected, with the cursor on its first row, in the list, with empty
    /// buffers, no search, nothing to undo and nothing changed.
    pub open spec fn initial() -> AppView {
        AppView {
            groups: seq![GroupView { name: "기본"@, todos: Seq::empty() }],
            selected_group: 0,
            selected: 0,
            mode: AppMode::Normal,
            input_buffer: Seq::empty(),
            should_quit: false,
            dirty: false,
            input_target: InputTarget::NewTodo,
            last_deleted: None,
            notes_buffer: Seq::empty(),
            search_query: Seq::empty(),
            category_cursor: 0,
            group_editing: None,
        }
    }
}

impl Default for App {
    /// The state at first start.
    fn default() -> (r: Self)
        ensures
            r@ == AppView::initial(),
    {
        let mut groups: Vec<Group> = Vec::new();
        let first = Group::new("기본".to_owned());
        groups.push(first);
        let r = App {
            groups,
            selected_group: 0,
            selected: 0,
            mode: AppMode::Normal,
            input_buffer: String::new(),
            should_quit: false,
            dirty: false,
            input_target: InputTarget::NewTodo,
            last_deleted: None,
            notes_buffer: String::new(),
            search_query: String::new(),
            category_cursor: 0,
            group_editing: None,
        };
        assert(groups_view(r.groups@) =~= seq![first@]);
        r
    }
}

impl App {
    /// The state built from data saved in the single-list layout: its todos
    /// become the one group "기본" (default) and its cursor is kept.
    pub fn from_legacy(todos: Vec<TodoItem>, selected: usize) -> (r: Self)
        ensures
            r@ == (AppView {
                groups: seq![GroupView { name: "기본"@, todos: todos_view(todos@) }],
                selected,
                ..AppView::initial()
            }),
    {
        let mut r = App::default();
        let ghost tv = todos_view(todos@);
        let group = Group { name: "기본".to_owned(), todos };
        r.groups = Vec::new();
        r.groups.push(group);
        r.selected = selected;
        assert(groups_view(r.groups@) =~= seq![group@]);
        r
    }

    /// The rows that the list shows for the selected group: each todo whose
    /// lowercased title contains the lowercased search query (every todo
    /// when the query is empty), followed by its subtasks unless folded.
    pub fn visible_rows(&self) -> (rows: Vec<RowRef>)
        ensures
            rows@ == self@.visible_rows(),
    {
        if self.selected_group >= self.groups.len() {
            return Vec::new();
        }
        let group = &self.groups[self.selected_group];
        let query = to_lower(self.search_query.as_str());
        assert(query@ == lower_key(self.search_query@)) by {
            if is_ascii_text(self.search_query@) {
            }
        }
        let ghost tv = todos_view(group.todos@);
        let mut keys: Vec<String> = Vec::new();
        let n = group.todos.len();
        let mut i: usize = 0;
        while i < n
            invariant
                n == group.todos@.len(),
                tv == todos_view(group.todos@),
                i <= n,
                keys@.len() == i,
                forall|j: int| 0 <= j < i ==> #[trigger] keys@[j]@ == lower_key(tv[j].title),
            decreases n - i,
        {
            let key = to_lower(group.todos[i].title.as_str());
            assert(key@ == lower_key(tv[i as int].title)) by {
                if is_ascii_text(tv[i as int].title) {
                }
            }
            keys.push(key);
            i += 1;
        }
        let rows = rows_for_keys(group.todos.as_slice(), keys.as_slice(), query.as_str());
        proof {
            let kv = strings_view(keys@);
            assert forall|j: int| 0 <= j < tv.len() implies kv[j] == lower_key(
                #[trigger] tv[j].title,
            ) by {
                assert(kv[j] == keys@[j]@);
            }
            lemma_rows_keyed(tv, kv, query@);
        }
        rows
    }

    /// The row under the cursor, if the cursor is on one of the rows.
    pub fn current_row(&self) -> (r: Option<RowRef>)
        ensures
            r == self@.current_row(),
    {
        let rows = self.visible_rows();
        if self.selected < rows.len() {
            Some(rows[self.selected])
        } else {
            None
        }
    }

    /// The todos of the selected group, or none when it does not exist.
    pub fn current_todos(&self) -> (r: &[TodoItem])
        ensures
            self.selected_group < self.groups.len() ==> r@ == self.groups@[self.selected_group as int].todos@,
            self.selected_group >= self.groups.len() ==> r@.len() == 0,
    {
        if self.selected_group < self.groups.len() {
            self.groups[self.selected_group].todos.as_slice()
        } else {
            &[]
        }
    }

    /// Moves the cursor back onto the rows.
    pub(crate) fn clamp_selection(&mut self)
        ensures
            final(self)@ == old(self)@.clamp(),
    {
        let count = self.visible_rows().len();
        if count == 0 {
            self.selected = 0;
        } else if self.selected >= count {
            self.selected = count - 1;
        }
    }

    /// Puts the cursor on the first row equal to `target`, if any.
    pub(crate) fn select_row(&mut self, target: RowRef)
        ensures
            final(self)@ == old(self)@.select_row(target),
    {
        let rows = self.visible_rows();
        let n = rows.len();
        let mut k: usize = 0;
        while k < n
            invariant
                n == rows@.len(),
                rows@ == self@.visible_rows(),
                *self == *old(self),
                k <= n,
                forall|j: int| 0 <= j < k ==> rows@[j] != target,
            decreases n - k,
        {
            if rows[k] == target {
                assert(is_first_index(rows@, target, k as int));
                proof {
                    lemma_first_index(rows@, target, k as int);
                }
                self.selected = k;
                return;
            }
            k += 1;
        }
    }
}

} // verus!
