//! Which rows the list shows: every todo of the current group whose title
//! matches the search, each followed by its subtasks unless it is folded.
use crate::model::{AppView, RowRef, TodoItem, TodoView, strings_view, todos_view};
use crate::text::{is_substring, lower_key, str_contains};
use vstd::prelude::*;

verus! {

/// A todo passes the search when the query (a search key) is empty or
/// occurs in the search key of its title.
pub open spec fn todo_matches(t: TodoView, query: Seq<char>) -> bool {
    query.len() == 0 || is_substring(query, lower_key(t.title))
}

/// The rows of the `n` subtasks of the todo at position `i`.
pub open spec fn sub_rows(i: int, n: nat) -> Seq<RowRef> {
    Seq::new(n, |j: int| RowRef::Sub(i as usize, j as usize))
}

/// The rows of the todo at position `i`: the todo, then its subtasks unless
/// it is folded.
pub open spec fn todo_rows(i: int, t: TodoView) -> Seq<RowRef> {
    seq![RowRef::Todo(i as usize)] + (if t.collapsed {
        Seq::<RowRef>::empty()
    } else {
        sub_rows(i, t.subtasks.len())
    })
}

/// The rows shown for a list of todos under a (lowercased) query, in order.
pub open spec fn rows_of(todos: Seq<TodoView>, query: Seq<char>) -> Seq<RowRef>
    decreases todos.len(),
{
    if todos.len() == 0 {
        Seq::empty()
    } else {
        let k = todos.len() - 1;
        rows_of(todos.drop_last(), query) + (if todo_matches(todos[k], query) {
            todo_rows(k, todos[k])
        } else {
            Seq::<RowRef>::empty()
        })
    }
}

/// A todo passes the search when the (lowercased) query is empty or occurs
/// in its search key, the lowercased title.
pub open spec fn key_matches(key: Seq<char>, query: Seq<char>) -> bool {
    query.len() == 0 || is_substring(query, key)
}

/// The rows shown for a list of todos, given the search key of each todo
/// (by position) and the lowercased query, in order.
pub open spec fn rows_keyed(todos: Seq<TodoView>, keys: Seq<Seq<char>>, query: Seq<char>) -> Seq<
    RowRef,
>
    decreases todos.len(),
{
    if todos.len() == 0 {
        Seq::empty()
    } else {
        let k = todos.len() - 1;
        rows_keyed(todos.drop_last(), keys, query) + (if key_matches(keys[k], query) {
            todo_rows(k, todos[k])
        } else {
            Seq::<RowRef>::empty()
        })
    }
}

/// With the search keys of the titles as keys, the keyed rows are the rows
/// shown.
pub proof fn lemma_rows_keyed(todos: Seq<TodoView>, keys: Seq<Seq<char>>, query: Seq<char>)
    requires
        keys.len() >= todos.len(),
        forall|i: int| 0 <= i < todos.len() ==> keys[i] == lower_key(#[trigger] todos[i].title),
    ensures
        rows_keyed(todos, keys, query) == rows_of(todos, query),
    decreases todos.len(),
{
    if todos.len() > 0 {
        let pre = todos.drop_last();
        assert forall|i: int| 0 <= i < pre.len() implies keys[i] == lower_key(
            #[trigger] pre[i].title,
        ) by {
            assert(pre[i] == todos[i]);
        }
        lemma_rows_keyed(pre, keys, query);
        assert(keys[todos.len() - 1] == lower_key(todos[todos.len() - 1].title));
    }
}

/// The todo position a row belongs to.
pub open spec fn row_todo(r: RowRef) -> int {
    match r {
        RowRef::Todo(i) => i as int,
        RowRef::Sub(i, _) => i as int,
    }
}

/// A row names a todo that exists and passes the search, and, for a
/// subtask row, a subtask that exists under an unfolded todo.
pub open spec fn row_valid(todos: Seq<TodoView>, query: Seq<char>, r: RowRef) -> bool {
    &&& 0 <= row_todo(r) < todos.len()
    &&& todo_matches(todos[row_todo(r)], query)
    &&& match r {
        RowRef::Todo(_) => true,
        RowRef::Sub(i, j) => j < todos[i as int].subtasks.len() && !todos[i as int].collapsed,
    }
}

/// The todos and their subtasks can be numbered by `usize` positions, as
/// those held in vectors can.
pub open spec fn todos_fit(todos: Seq<TodoView>) -> bool {
    &&& todos.len() <= usize::MAX
    &&& forall|i: int| 0 <= i < todos.len() ==> #[trigger] todos[i].subtasks.len() <= usize::MAX
}

/// `k` is the first position at which `x` occurs in `s`.
pub open spec fn is_first_index(s: Seq<RowRef>, x: RowRef, k: int) -> bool {
    &&& 0 <= k < s.len()
    &&& s[k] == x
    &&& forall|j: int| 0 <= j < k ==> s[j] != x
}

/// The first position at which `x` occurs in `s` (meaningful when it occurs).
pub open spec fn first_index(s: Seq<RowRef>, x: RowRef) -> int {
    choose|k: int| is_first_index(s, x, k)
}

/// Where `x` occurs in `s` first, `first_index` names that position.
pub proof fn lemma_first_index(s: Seq<RowRef>, x: RowRef, k: int)
    requires
        is_first_index(s, x, k),
    ensures
        first_index(s, x) == k,
{
    let f = first_index(s, x);
    assert(is_first_index(s, x, f));
    if f < k {
        assert(s[f] != x);
    } else if f > k {
        assert(s[k] != x);
    }
}

/// When `s` has no duplicates, the position of any of its elements is the
/// first position of that element.
pub proof fn lemma_first_index_unique(s: Seq<RowRef>, k: int)
    requires
        0 <= k < s.len(),
        s.no_duplicates(),
    ensures
        first_index(s, s[k]) == k,
        s.contains(s[k]),
{
    assert(is_first_index(s, s[k], k));
    lemma_first_index(s, s[k], k);
}

/// Every row shown names an existing todo or subtask that passes the
/// search, the todo positions never decrease along the rows, and no row is
/// shown twice.
pub proof fn lemma_rows_of(todos: Seq<TodoView>, query: Seq<char>)
    requires
        todos_fit(todos),
    ensures
        forall|k: int|
            0 <= k < rows_of(todos, query).len() ==> row_valid(
                todos,
                query,
                #[trigger] rows_of(todos, query)[k],
            ),
        rows_of(todos, query).no_duplicates(),
    decreases todos.len(),
{
    let rows = rows_of(todos, query);
    if todos.len() > 0 {
        let k = todos.len() - 1;
        let pre = todos.drop_last();
        assert(todos_fit(pre)) by {
            assert forall|m: int| 0 <= m < pre.len() implies #[trigger] pre[m].subtasks.len()
                <= usize::MAX by {
                assert(pre[m] == todos[m]);
            }
        }
        lemma_rows_of(pre, query);
        let prev = rows_of(pre, query);
        let seg = if todo_matches(todos[k], query) {
            todo_rows(k, todos[k])
        } else {
            Seq::<RowRef>::empty()
        };
        assert(rows == prev + seg);
        assert forall|m: int| 0 <= m < seg.len() implies row_todo(#[trigger] seg[m]) == k
            && row_valid(todos, query, seg[m]) by {
            if m > 0 {
                assert(seg[m] == RowRef::Sub(k as usize, (m - 1) as usize));
            }
        }
        assert forall|m: int| 0 <= m < prev.len() implies row_todo(#[trigger] prev[m]) < k
            && row_valid(todos, query, prev[m]) by {
            assert(row_valid(pre, query, prev[m]));
        }
        assert forall|m: int| 0 <= m < rows.len() implies row_valid(
            todos,
            query,
            #[trigger] rows[m],
        ) by {
            if m < prev.len() {
                assert(rows[m] == prev[m]);
            } else {
                assert(rows[m] == seg[m - prev.len()]);
            }
        }
        assert forall|a: int, b: int| 0 <= a < rows.len() && 0 <= b < rows.len() && a != b implies rows[a]
            != rows[b] by {
            if a < prev.len() && b < prev.len() {
                assert(rows[a] == prev[a] && rows[b] == prev[b]);
            } else if a >= prev.len() && b >= prev.len() {
                assert(rows[a] == seg[a - prev.len()] && rows[b] == seg[b - prev.len()]);
                let ma = a - prev.len();
                let mb = b - prev.len();
                if ma > 0 && mb > 0 {
                    assert(seg[ma] == RowRef::Sub(k as usize, (ma - 1) as usize));
                    assert(seg[mb] == RowRef::Sub(k as usize, (mb - 1) as usize));
                } else if ma > 0 {
                    assert(seg[ma] == RowRef::Sub(k as usize, (ma - 1) as usize));
                } else if mb > 0 {
                    assert(seg[mb] == RowRef::Sub(k as usize, (mb - 1) as usize));
                }
            } else if a < prev.len() {
                assert(rows[a] == prev[a] && rows[b] == seg[b - prev.len()]);
                assert(row_todo(rows[a]) < k);
                assert(row_todo(rows[b]) == k);
            } else {
                assert(rows[b] == prev[b] && rows[a] == seg[a - prev.len()]);
                assert(row_todo(rows[b]) < k);
                assert(row_todo(rows[a]) == k);
            }
        }
    }
}

/// The row of a todo is shown exactly when the todo exists and passes the
/// search.
pub proof fn lemma_todo_row_shown(todos: Seq<TodoView>, query: Seq<char>, i: int)
    requires
        todos_fit(todos),
        0 <= i <= usize::MAX,
    ensures
        rows_of(todos, query).contains(RowRef::Todo(i as usize)) <==> (0 <= i < todos.len()
            && todo_matches(todos[i], query)),
    decreases todos.len(),
{
    if 0 <= i < todos.len() {
        lemma_rows_of(todos, query);
    } else {
        lemma_rows_of(todos, query);
        let rows = rows_of(todos, query);
        if rows.contains(RowRef::Todo(i as usize)) {
            let m = choose|m: int| 0 <= m < rows.len() && rows[m] == RowRef::Todo(i as usize);
            assert(row_valid(todos, query, rows[m]));
        }
    }
    if todos.len() > 0 && 0 <= i < todos.len() {
        let k = todos.len() - 1;
        let pre = todos.drop_last();
        assert(todos_fit(pre)) by {
            assert forall|m: int| 0 <= m < pre.len() implies #[trigger] pre[m].subtasks.len()
                <= usize::MAX by {
                assert(pre[m] == todos[m]);
            }
        }
        lemma_todo_row_shown(pre, query, i);
        let prev = rows_of(pre, query);
        let rows = rows_of(todos, query);
        let seg = if todo_matches(todos[k], query) {
            todo_rows(k, todos[k])
        } else {
            Seq::<RowRef>::empty()
        };
        assert(rows == prev + seg);
        if i == k {
            if todo_matches(todos[k], query) {
                assert(rows[prev.len() as int] == RowRef::Todo(i as usize));
            } else {
                lemma_rows_of(pre, query);
                if rows.contains(RowRef::Todo(i as usize)) {
                    let m = choose|m: int| 0 <= m < rows.len() && rows[m] == RowRef::Todo(i as usize);
                    assert(rows[m] == prev[m]);
                    assert(row_valid(pre, query, prev[m]));
                }
            }
        } else {
            assert(pre[i] == todos[i]);
            if prev.contains(RowRef::Todo(i as usize)) {
                let m = choose|m: int| 0 <= m < prev.len() && prev[m] == RowRef::Todo(i as usize);
                assert(rows[m] == prev[m]);
            }
            if rows.contains(RowRef::Todo(i as usize)) {
                let m = choose|m: int| 0 <= m < rows.len() && rows[m] == RowRef::Todo(i as usize);
                if m >= prev.len() {
                    let mm = m - prev.len();
                    assert(rows[m] == seg[mm]);
                    if mm > 0 {
                        assert(seg[mm] == RowRef::Sub(k as usize, (mm - 1) as usize));
                    }
                } else {
                    assert(rows[m] == prev[m]);
                }
            }
        }
    }
}

/// The rows depend only on the titles, the folding and the number of
/// subtasks of the todos.
pub proof fn lemma_rows_same_shape(t1: Seq<TodoView>, t2: Seq<TodoView>, query: Seq<char>)
    requires
        t1.len() == t2.len(),
        forall|i: int|
            0 <= i < t1.len() ==> (#[trigger] t1[i]).title == t2[i].title && t1[i].collapsed
                == t2[i].collapsed && t1[i].subtasks.len() == t2[i].subtasks.len(),
    ensures
        rows_of(t1, query) == rows_of(t2, query),
    decreases t1.len(),
{
    if t1.len() > 0 {
        let k = t1.len() - 1;
        assert(t1[k].title == t2[k].title);
        lemma_rows_same_shape(t1.drop_last(), t2.drop_last(), query);
    }
}

/// The rows of `todos`, given the search key of each todo (by position)
/// and a search query: each todo whose key contains the query (every
/// todo when the query is empty), followed by its subtasks unless folded.
pub fn rows_for_keys(todos: &[TodoItem], keys: &[String], query: &str) -> (rows: Vec<RowRef>)
    requires
        keys@.len() == todos@.len(),
    ensures
        rows@ == rows_keyed(todos_view(todos@), strings_view(keys@), query@),
{
    let ghost tv = todos_view(todos@);
    let ghost kv = strings_view(keys@);
    let mut rows: Vec<RowRef> = Vec::new();
    let n = todos.len();
    let mut i: usize = 0;
    while i < n
        invariant
            n == todos@.len(),
            keys@.len() == n,
            tv == todos_view(todos@),
            kv == strings_view(keys@),
            i <= n,
            rows@ == rows_keyed(tv.take(i as int), kv, query@),
        decreases n - i,
    {
        let todo = &todos[i];
        assert(tv[i as int] == todo@);
        let ghost before = rows@;
        let keep = if query.is_empty() {
            true
        } else {
            str_contains(keys[i].as_str(), query)
        };
        assert(keep == key_matches(kv[i as int], query@));
        if keep {
            rows.push(RowRef::Todo(i));
            if !todo.collapsed {
                let m = todo.subtasks.len();
                let mut j: usize = 0;
                while j < m
                    invariant
                        m == todo.subtasks.len(),
                        j <= m,
                        rows@ == before + seq![RowRef::Todo(i)] + sub_rows(i as int, j as nat),
                    decreases m - j,
                {
                    rows.push(RowRef::Sub(i, j));
                    assert(sub_rows(i as int, (j + 1) as nat) =~= sub_rows(i as int, j as nat).push(
                        RowRef::Sub(i, j),
                    ));
                    j += 1;
                }
                assert(todo@.subtasks.len() == m);
                assert(rows@ =~= before + todo_rows(i as int, todo@));
            } else {
                assert(rows@ =~= before + todo_rows(i as int, todo@));
            }
        }
        assert(tv.take(i + 1).drop_last() =~= tv.take(i as int));
        assert(tv.take(i + 1)[i as int] == tv[i as int]);
        i += 1;
    }
    assert(tv.take(n as int) =~= tv);
    rows
}

impl AppView {
    /// The groups, todos and subtasks can be numbered by `usize` positions,
    /// as those of an `App` can.
    pub open spec fn fits(self) -> bool {
        &&& self.groups.len() <= usize::MAX
        &&& forall|g: int| 0 <= g < self.groups.len() ==> todos_fit(#[trigger] self.groups[g].todos)
    }

    /// The todos of the selected group (meaningful when it exists).
    pub open spec fn cur_todos(self) -> Seq<TodoView> {
        self.groups[self.selected_group as int].todos
    }

    /// The rows that the list shows: none when the selected group does not
    /// exist, else the rows of its todos under the search key of the query.
    pub open spec fn visible_rows(self) -> Seq<RowRef> {
        if self.selected_group < self.groups.len() {
            rows_of(self.cur_todos(), lower_key(self.search_query))
        } else {
            Seq::empty()
        }
    }

    /// The row under the cursor, if the cursor is on a row.
    pub open spec fn current_row(self) -> Option<RowRef> {
        if self.selected < self.visible_rows().len() {
            Some(self.visible_rows()[self.selected as int])
        } else {
            None
        }
    }

    /// The state with the cursor moved back onto the rows: to the last row
    /// when it is past them, to 0 when there are none.
    pub open spec fn clamp(self) -> AppView {
        let c = self.visible_rows().len();
        AppView {
            selected: if c == 0 {
                0
            } else if self.selected < c {
                self.selected
            } else {
                (c - 1) as usize
            },
            ..self
        }
    }

    /// The state with the cursor on the first row equal to `target`, or
    /// unchanged when no row is.
    pub open spec fn select_row(self, target: RowRef) -> AppView {
        if self.visible_rows().contains(target) {
            AppView { selected: first_index(self.visible_rows(), target) as usize, ..self }
        } else {
            self
        }
    }
}

/// Whenever a row is under the cursor, the selected group exists and the
/// row names an existing todo (and subtask) of it.
pub proof fn lemma_current_row_valid(v: AppView)
    requires
        v.fits(),
        v.current_row() is Some,
    ensures
        v.selected_group < v.groups.len(),
        row_valid(v.cur_todos(), lower_key(v.search_query), v.current_row()->0),
{
    lemma_rows_of(v.cur_todos(), lower_key(v.search_query));
}

} // verus!
