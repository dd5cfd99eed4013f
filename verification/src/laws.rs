//! What holds of the todo manager across its operations.
use crate::model::{AppView, RowRef, TodoView, next_priority};
use crate::rows::{
    lemma_first_index_unique, lemma_rows_of, lemma_rows_same_shape, lemma_todo_row_shown,
    row_todo, rows_of, todo_matches, todo_rows, todos_fit,
};
use crate::layout::{
    char_cols, lemma_span_monotone, text_cols, window_ok, wrap_state, wrapped, wrapped_by,
};
use crate::text::{
    ascii_lower, ascii_lowered, is_ascii_text, is_substring, is_white_space, lower_key, trimmed,
};
use vstd::prelude::*;

verus! {

/// Cycling the priority three times gives the priority back.
pub proof fn law_priority_cycle_returns(p: crate::model::Priority)
    ensures
        next_priority(next_priority(next_priority(p))) == p,
{
}

/// Deleting the row under the cursor and then undoing gives back the same
/// groups, todos and subtasks, the same selected group and the cursor on
/// the same row, with nothing left to undo.
pub proof fn law_undo_restores_deleted(v: AppView)
    requires
        v.fits(),
        v.current_row() is Some,
    ensures
        v.after_delete_selected().after_undo().groups == v.groups,
        v.after_delete_selected().after_undo().selected_group == v.selected_group,
        v.after_delete_selected().after_undo().selected == v.selected,
        v.after_delete_selected().after_undo().search_query == v.search_query,
        v.after_delete_selected().after_undo().last_deleted is None,
{
    let g = v.selected_group as int;
    let q = lower_key(v.search_query);
    crate::rows::lemma_current_row_valid(v);
    lemma_rows_of(v.cur_todos(), q);
    let rows = v.visible_rows();
    lemma_first_index_unique(rows, v.selected as int);
    let d = v.after_delete_selected();
    let u = d.after_undo();
    let todos = v.cur_todos();
    match v.current_row() {
        Some(RowRef::Todo(i)) => {
            let rest = todos.remove(i as int);
            assert(d.groups[g].todos == rest);
            assert(rest.insert(i as int, todos[i as int]) =~= todos);
            assert(u.groups =~= v.groups);
        },
        Some(RowRef::Sub(i, j)) => {
            let t = todos[i as int];
            let rest = t.subtasks.remove(j as int);
            assert(d.groups[g].todos[i as int].subtasks == rest);
            assert(rest.insert(j as int, t.subtasks[j as int]) =~= t.subtasks);
            assert(u.groups[g].todos =~= todos);
            assert(u.groups =~= v.groups);
        },
        None => {},
    }
}

/// Toggling a todo flips its completion and gives every one of its
/// subtasks that same new state; the titles stay as they were.
pub proof fn law_toggle_cascades(v: AppView, i: usize)
    requires
        v.fits(),
        v.current_row() == Some(RowRef::Todo(i)),
    ensures
        v.after_toggle_selected().cur_todos()[i as int].completed == !v.cur_todos()[i as int].completed,
        v.after_toggle_selected().cur_todos()[i as int].subtasks.len() == v.cur_todos()[i as int].subtasks.len(),
        forall|j: int|
            0 <= j < v.cur_todos()[i as int].subtasks.len() ==> (#[trigger] v.after_toggle_selected().cur_todos()[i as int].subtasks[j]).completed
                == !v.cur_todos()[i as int].completed
                && v.after_toggle_selected().cur_todos()[i as int].subtasks[j].title == v.cur_todos()[i as int].subtasks[j].title,
{
    crate::rows::lemma_current_row_valid(v);
}

/// Toggling a subtask twice gives the same groups, todos and subtasks back.
pub proof fn law_toggle_subtask_twice(v: AppView, i: usize, j: usize)
    requires
        v.fits(),
        v.current_row() == Some(RowRef::Sub(i, j)),
    ensures
        v.after_toggle_selected().after_toggle_selected().groups == v.groups,
{
    crate::rows::lemma_current_row_valid(v);
    let g = v.selected_group as int;
    let w = v.after_toggle_selected();
    let todos = v.cur_todos();
    lemma_rows_same_shape(w.cur_todos(), todos, lower_key(v.search_query));
    assert(w.current_row() == v.current_row());
    let t = todos[i as int];
    assert(w.after_toggle_selected().groups[g].todos[i as int].subtasks =~= t.subtasks);
    assert(w.after_toggle_selected().groups[g].todos =~= todos);
    assert(w.after_toggle_selected().groups =~= v.groups);
}

/// The cursor is always put back onto the rows: on one of them when there
/// are any, at 0 when there are none.
pub proof fn law_clamp_on_rows(v: AppView)
    ensures
        v.clamp().visible_rows() == v.visible_rows(),
        v.visible_rows().len() > 0 ==> v.clamp().selected < v.visible_rows().len(),
        v.visible_rows().len() == 0 ==> v.clamp().selected == 0,
        v.selected < v.visible_rows().len() ==> v.clamp() == v,
{
}

/// Selecting the next group and then the previous one comes back to the
/// same group, and so does the other order.
pub proof fn law_next_prev_inverse(v: AppView)
    requires
        v.fits(),
        v.selected_group < v.groups.len(),
    ensures
        v.after_next_group().after_prev_group().selected_group == v.selected_group,
        v.after_prev_group().after_next_group().selected_group == v.selected_group,
{
    let n = v.groups.len() as int;
    let s = v.selected_group as int;
    let a = v.after_next_group();
    let b = v.after_prev_group();
    assert(a.groups.len() == n && b.groups.len() == n);
    if n > 1 {
        if s + 1 < n {
            assert((s + 1) % n == s + 1) by (nonlinear_arith)
                requires
                    0 <= s + 1 < n,
            ;
            assert((s + 1 + n - 1) % n == s) by (nonlinear_arith)
                requires
                    0 <= s < n,
            ;
        } else {
            assert((s + 1) % n == 0) by (nonlinear_arith)
                requires
                    s + 1 == n,
                    n > 1,
            ;
            assert((0 + n - 1) % n == s) by (nonlinear_arith)
                requires
                    s == n - 1,
                    n > 1,
            ;
        }
        if s > 0 {
            assert((s + n - 1) % n == s - 1) by (nonlinear_arith)
                requires
                    0 < s < n,
            ;
            assert((s - 1 + 1) % n == s) by (nonlinear_arith)
                requires
                    0 < s < n,
            ;
        } else {
            assert((s + n - 1) % n == n - 1) by (nonlinear_arith)
                requires
                    s == 0,
                    n > 1,
            ;
            assert((n - 1 + 1) % n == 0) by (nonlinear_arith)
                requires
                    n > 1,
            ;
        }
    }
}

/// Deleting a group never deletes the only group, deletes exactly one
/// otherwise, and keeps the selected group and the popup cursor on
/// existing groups.
pub proof fn law_group_delete_keeps_groups(v: AppView)
    requires
        v.groups.len() >= 1,
        v.selected_group < v.groups.len(),
    ensures
        v.groups.len() == 1 ==> v.after_confirm_group_delete().groups == v.groups,
        v.groups.len() > 1 ==> v.after_confirm_group_delete().groups.len() == v.groups.len() - 1,
        v.after_confirm_group_delete().selected_group < v.after_confirm_group_delete().groups.len(),
        v.groups.len() > 1 ==> v.after_confirm_group_delete().category_cursor
            < v.after_confirm_group_delete().groups.len(),
{
}

/// Removing the character just typed into the search gives the query back.
pub proof fn law_backspace_undoes_push(v: AppView, c: char)
    ensures
        v.after_push_search(c).after_backspace_search().search_query == v.search_query,
{
    assert(v.search_query.push(c).drop_last() =~= v.search_query);
}

/// Committing a title that is blank once trimmed changes no todo and
/// closes the editor.
pub proof fn law_blank_title_adds_nothing(v: AppView)
    requires
        crate::text::trimmed(v.input_buffer).len() == 0,
    ensures
        v.after_commit_input().groups == v.groups,
        v.after_commit_input().dirty == v.dirty,
        v.after_commit_input().mode == crate::model::AppMode::Normal,
{
}

/// Folding or unfolding puts the cursor on the todo that was folded.
pub proof fn law_collapse_selects_parent(v: AppView, r: RowRef)
    requires
        v.fits(),
        v.current_row() == Some(r),
        v.cur_todos()[row_todo(r)].subtasks.len() > 0,
        v.after_toggle_collapse().visible_rows().len() <= usize::MAX,
    ensures
        v.after_toggle_collapse().current_row() == Some(RowRef::Todo(row_todo(r) as usize)),
{
    crate::rows::lemma_current_row_valid(v);
    let g = v.selected_group as int;
    let p = row_todo(r);
    let q = lower_key(v.search_query);
    let t = v.cur_todos()[p];
    let w = v.with_todo(g, p, TodoView { collapsed: !t.collapsed, ..t });
    assert(w.cur_todos() == v.cur_todos().update(p, TodoView { collapsed: !t.collapsed, ..t }));
    assert(todos_fit(w.cur_todos())) by {
        assert(todos_fit(v.groups[g].todos));
    }
    lemma_todo_row_shown(w.cur_todos(), q, p);
    let rows = w.visible_rows();
    lemma_rows_of(w.cur_todos(), q);
    assert(rows.contains(RowRef::Todo(p as usize)));
    let k = choose|k: int| 0 <= k < rows.len() && rows[k] == RowRef::Todo(p as usize);
    lemma_first_index_unique(rows, k);
    let x = w.select_row(RowRef::Todo(p as usize));
    assert(x.selected == k);
    assert(x.visible_rows() == rows);
    assert(x.clamp() == x);
    assert(v.after_toggle_collapse() == x.clamp());
}

/// Opening the notes of a todo and saving them unchanged changes nothing in
/// the todos and does not mark the data changed.
pub proof fn law_notes_unchanged_roundtrip(v: AppView, i: usize)
    requires
        v.fits(),
        v.current_row() == Some(RowRef::Todo(i)),
    ensures
        v.after_enter_notes_mode().after_commit_notes().groups == v.groups,
        v.after_enter_notes_mode().after_commit_notes().dirty == v.dirty,
        v.after_enter_notes_mode().after_commit_notes().notes_buffer.len() == 0,
{
}

/// The search ignores case: two states whose queries lowercase alike show
/// the same rows.
pub proof fn law_search_ignores_case(v: AppView, query: Seq<char>)
    requires
        lower_key(query) == lower_key(v.search_query),
    ensures
        (AppView { search_query: query, ..v }).visible_rows() == v.visible_rows(),
{
}

/// Opening and closing the help screen from the list comes back to the
/// list, and nothing else changes.
pub proof fn law_help_toggles_back(v: AppView)
    requires
        v.mode == crate::model::AppMode::Normal,
    ensures
        v.after_toggle_help().after_toggle_help() == v,
{
}

/// A todo added with a title that passes the search ends up under the
/// cursor.
pub proof fn law_new_todo_selected(v: AppView, title: Seq<char>)
    requires
        v.fits(),
        v.input_target == crate::model::InputTarget::NewTodo,
        v.selected_group < v.groups.len(),
        title.len() > 0,
        crate::rows::todo_matches(crate::model::fresh_todo(title), lower_key(v.search_query)),
        v.cur_todos().len() < usize::MAX,
        v.visible_rows().len() < usize::MAX,
    ensures
        v.after_commit_title(title).visible_rows() == v.visible_rows().push(
            RowRef::Todo(v.cur_todos().len() as usize),
        ),
        v.after_commit_title(title).selected == v.visible_rows().len(),
        v.after_commit_title(title).current_row() == Some(
            RowRef::Todo(v.cur_todos().len() as usize),
        ),
{
    let g = v.selected_group as int;
    let q = lower_key(v.search_query);
    let todos = v.cur_todos();
    let n = todos.len() as int;
    let w = AppView { dirty: true, ..v.input_closed().with_todos(g, todos.push(crate::model::fresh_todo(title))) };
    let nt = w.cur_todos();
    assert(nt == todos.push(crate::model::fresh_todo(title)));
    assert(todos_fit(nt)) by {
        assert(todos_fit(v.groups[g].todos));
        assert forall|i: int| 0 <= i < nt.len() implies #[trigger] nt[i].subtasks.len() <= usize::MAX by {
            if i < n {
                assert(nt[i] == todos[i]);
            }
        }
    }
    lemma_rows_of(nt, q);
    let rows = w.visible_rows();
    assert(nt.drop_last() =~= todos);
    assert(todo_rows(n, nt[n]) =~= seq![RowRef::Todo(n as usize)]);
    assert(rows =~= v.visible_rows().push(RowRef::Todo(n as usize)));
    let k = v.visible_rows().len() as int;
    assert(rows[k] == RowRef::Todo(n as usize));
    lemma_first_index_unique(rows, k);
    let x = w.select_row(RowRef::Todo(n as usize));
    assert(x.selected == k);
    assert(x.visible_rows() == rows);
    assert(x.clamp() == x);
}

/// The row is one of the subtasks of the todo at position `p`.
pub open spec fn is_subtask_row_of(r: RowRef, p: int) -> bool {
    r matches RowRef::Sub(i, _) && i == p
}

/// Folding a todo hides its subtask rows and keeps its own row.
pub proof fn law_fold_hides_subtasks(v: AppView, r: RowRef)
    requires
        v.fits(),
        v.current_row() == Some(r),
        v.cur_todos()[row_todo(r)].subtasks.len() > 0,
        !v.cur_todos()[row_todo(r)].collapsed,
    ensures
        forall|k: int|
            0 <= k < v.after_toggle_collapse().visible_rows().len() ==> !is_subtask_row_of(
                #[trigger] v.after_toggle_collapse().visible_rows()[k],
                row_todo(r),
            ),
        v.after_toggle_collapse().visible_rows().contains(RowRef::Todo(row_todo(r) as usize)),
{
    crate::rows::lemma_current_row_valid(v);
    let g = v.selected_group as int;
    let p = row_todo(r);
    let q = lower_key(v.search_query);
    let t = v.cur_todos()[p];
    let w = v.with_todo(g, p, TodoView { collapsed: !t.collapsed, ..t });
    let nt = w.cur_todos();
    assert(nt == v.cur_todos().update(p, TodoView { collapsed: !t.collapsed, ..t }));
    assert(todos_fit(nt)) by {
        assert(todos_fit(v.groups[g].todos));
    }
    lemma_rows_of(nt, q);
    lemma_todo_row_shown(nt, q, p);
    let rows = w.visible_rows();
    assert forall|k: int| 0 <= k < rows.len() implies !is_subtask_row_of(#[trigger] rows[k], p) by {
        assert(crate::rows::row_valid(nt, q, rows[k]));
    }
    let x = w.select_row(RowRef::Todo(p as usize));
    assert(x.visible_rows() == rows);
    assert(x.clamp().visible_rows() == rows);
}

/// The lines joined back together.
pub open spec fn joined(lines: Seq<Seq<char>>) -> Seq<char>
    decreases lines.len(),
{
    if lines.len() == 0 {
        Seq::empty()
    } else {
        joined(lines.drop_last()) + lines.last()
    }
}

/// The text with its line breaks taken out.
pub open spec fn without_breaks(text: Seq<char>) -> Seq<char>
    decreases text.len(),
{
    if text.len() == 0 {
        Seq::empty()
    } else if text.last() == '\n' {
        without_breaks(text.drop_last())
    } else {
        without_breaks(text.drop_last()).push(text.last())
    }
}

proof fn lemma_wrap_state_keeps(text: Seq<char>, widths: Seq<int>, pw: int)
    ensures
        joined(wrap_state(text, widths, pw).done) + wrap_state(text, widths, pw).cur
            == without_breaks(text),
    decreases text.len(),
{
    if text.len() > 0 {
        let pre = text.drop_last();
        lemma_wrap_state_keeps(pre, widths, pw);
        let st = wrap_state(pre, widths, pw);
        let c = text.last();
        assert(st.done.push(st.cur).drop_last() =~= st.done);
        if c == '\n' {
            assert(joined(st.done.push(st.cur)) + Seq::<char>::empty() =~= joined(st.done) + st.cur);
        } else if st.width + widths[text.len() - 1] > pw {
            assert(joined(st.done.push(st.cur)) + seq![c] =~= (joined(st.done) + st.cur).push(c));
        } else {
            assert(joined(st.done) + st.cur.push(c) =~= (joined(st.done) + st.cur).push(c));
        }
    }
}

/// Wrapping loses and adds no character: the lines joined back together
/// are the text without its line breaks.
pub proof fn law_wrap_keeps_characters(text: Seq<char>, widths: Seq<int>, pw: int)
    ensures
        joined(wrapped_by(text, widths, pw)) == without_breaks(text),
{
    lemma_wrap_state_keeps(text, widths, pw);
    let st = wrap_state(text, widths, pw);
    assert(st.done.push(st.cur).drop_last() =~= st.done);
}

/// The columns a line takes: the sum of the display widths of its
/// characters.
pub open spec fn line_cols(line: Seq<char>) -> int
    decreases line.len(),
{
    if line.len() == 0 {
        0
    } else {
        line_cols(line.drop_last()) + char_cols(line.last())
    }
}

/// A line fits the panel, or holds a single character.
pub open spec fn line_fits(line: Seq<char>, pw: int) -> bool {
    line_cols(line) <= pw || line.len() == 1
}

proof fn lemma_wrap_state_fits(text: Seq<char>, widths: Seq<int>, pw: int)
    requires
        0 <= pw,
        widths.len() >= text.len(),
        forall|k: int| 0 <= k < text.len() ==> widths[k] == char_cols(#[trigger] text[k]),
    ensures
        wrap_state(text, widths, pw).width == line_cols(wrap_state(text, widths, pw).cur),
        line_fits(wrap_state(text, widths, pw).cur, pw),
        forall|i: int|
            0 <= i < wrap_state(text, widths, pw).done.len() ==> line_fits(
                #[trigger] wrap_state(text, widths, pw).done[i],
                pw,
            ),
    decreases text.len(),
{
    if text.len() > 0 {
        let pre = text.drop_last();
        assert forall|k: int| 0 <= k < pre.len() implies widths[k] == char_cols(#[trigger] pre[k]) by {
            assert(pre[k] == text[k]);
        }
        lemma_wrap_state_fits(pre, widths, pw);
        let st = wrap_state(pre, widths, pw);
        let c = text.last();
        assert(widths[text.len() - 1] == char_cols(text[text.len() - 1]));
        assert(seq![c].drop_last() =~= Seq::<char>::empty());
        assert(st.cur.push(c).drop_last() =~= st.cur);
        assert(line_cols(Seq::<char>::empty()) == 0);
        assert(line_cols(seq![c]) == char_cols(c));
        assert(line_cols(st.cur.push(c)) == line_cols(st.cur) + char_cols(c));
        let nd = wrap_state(text, widths, pw).done;
        assert forall|i: int| 0 <= i < nd.len() implies line_fits(#[trigger] nd[i], pw) by {
            if i < st.done.len() {
                assert(nd[i] == st.done[i]);
            }
        }
    }
}

/// Every line of wrapped notes fits the width of the panel, except a line
/// holding a single character that is wider than the panel on its own.
pub proof fn law_wrap_lines_fit(text: Seq<char>, pw: int)
    requires
        0 <= pw,
    ensures
        forall|i: int|
            0 <= i < wrapped(text, pw).len() ==> line_fits(#[trigger] wrapped(text, pw)[i], pw),
{
    lemma_wrap_state_fits(text, text_cols(text), pw);
    let st = wrap_state(text, text_cols(text), pw);
    let w = wrapped(text, pw);
    assert forall|i: int| 0 <= i < w.len() implies line_fits(#[trigger] w[i], pw) by {
        if i < st.done.len() {
            assert(w[i] == st.done[i]);
        }
    }
}

/// At most one window of tabs suits a selected tab in a given width, so
/// `tab_window` has exactly one possible result.
pub proof fn law_tab_window_unique(
    widths: Seq<u16>,
    sel: int,
    sep: u16,
    max: int,
    r1: (usize, usize),
    r2: (usize, usize),
)
    requires
        window_ok(widths, sel, sep, max, r1),
        window_ok(widths, sel, sep, max, r2),
    ensures
        r1 == r2,
{
    if r1.1 < r2.1 {
        lemma_span_monotone(widths, sep, sel, sel, sel, r1.1 + 1, r2.1 as int);
    } else if r2.1 < r1.1 {
        lemma_span_monotone(widths, sep, sel, sel, sel, r2.1 + 1, r1.1 as int);
    }
    assert(r1.1 == r2.1);
    if r1.0 < r2.0 {
        lemma_span_monotone(widths, sep, sel, r2.0 - 1, r1.0 as int, r1.1 as int, r1.1 as int);
    } else if r2.0 < r1.0 {
        lemma_span_monotone(widths, sep, sel, r1.0 - 1, r2.0 as int, r1.1 as int, r1.1 as int);
    }
}

/// The rows of all todos that an empty query shows: every todo, each
/// followed by its subtasks unless folded.
proof fn lemma_empty_query_shows_all(todos: Seq<TodoView>, i: int)
    requires
        todos_fit(todos),
        0 <= i < todos.len(),
    ensures
        rows_of(todos, Seq::empty()).contains(RowRef::Todo(i as usize)),
{
    lemma_todo_row_shown(todos, Seq::empty(), i);
}

/// Clearing the search shows every todo of the selected group again, each
/// followed by its subtasks unless folded.
pub proof fn law_cleared_search_shows_all(v: AppView)
    requires
        v.fits(),
        v.selected_group < v.groups.len(),
    ensures
        v.after_cancel_search().search_query.len() == 0,
        v.after_cancel_search().visible_rows() == rows_of(v.cur_todos(), Seq::empty()),
        forall|i: usize|
            i < v.cur_todos().len() ==> #[trigger] v.after_cancel_search().visible_rows().contains(
                RowRef::Todo(i),
            ),
{
    let e = Seq::<char>::empty();
    assert(is_ascii_text(e));
    assert(ascii_lowered(e) =~= e);
    assert(lower_key(e) == e);
    assert forall|i: usize| i < v.cur_todos().len() implies #[trigger] v.after_cancel_search().visible_rows().contains(
        RowRef::Todo(i),
    ) by {
        assert(todos_fit(v.groups[v.selected_group as int].todos));
        lemma_empty_query_shows_all(v.cur_todos(), i as int);
    }
}

/// A longer query is found only where the shorter one is.
proof fn lemma_substring_prefix(x: Seq<char>, d: char, key: Seq<char>)
    requires
        is_substring(x.push(d), key),
    ensures
        is_substring(x, key),
{
    let i = choose|i: int|
        0 <= i && i + x.push(d).len() <= key.len() && #[trigger] key.subrange(i, i + x.push(d).len())
            == x.push(d);
    assert(key.subrange(i, i + x.len()) =~= x.push(d).subrange(0, x.len() as int));
    assert(x.push(d).subrange(0, x.len() as int) =~= x);
}

/// Typing an ASCII character into an ASCII search only narrows the list: a
/// todo shown afterwards was shown before; the todos themselves stay.
pub proof fn law_search_push_narrows(v: AppView, c: char)
    requires
        v.fits(),
        is_ascii_text(v.search_query),
        (c as int) < 128,
    ensures
        v.after_push_search(c).groups == v.groups,
        v.after_push_search(c).search_query == v.search_query.push(c),
        forall|i: usize|
            #[trigger] v.after_push_search(c).visible_rows().contains(RowRef::Todo(i))
                ==> v.visible_rows().contains(RowRef::Todo(i)),
{
    let q = v.search_query;
    let w = v.after_push_search(c);
    let qk = lower_key(q);
    let wk = lower_key(q.push(c));
    assert(is_ascii_text(q.push(c))) by {
        assert forall|i: int| 0 <= i < q.push(c).len() implies (#[trigger] q.push(c)[i] as int) < 128 by {
            if i < q.len() {
                assert(q.push(c)[i] == q[i]);
            }
        }
    }
    assert(wk =~= qk.push(ascii_lower(c)));
    assert forall|i: usize| #[trigger] w.visible_rows().contains(RowRef::Todo(i)) implies v.visible_rows().contains(
        RowRef::Todo(i),
    ) by {
        if v.selected_group < v.groups.len() {
            let todos = v.cur_todos();
            assert(todos_fit(v.groups[v.selected_group as int].todos));
            lemma_todo_row_shown(todos, wk, i as int);
            lemma_todo_row_shown(todos, qk, i as int);
            if qk.len() > 0 {
                lemma_substring_prefix(qk, ascii_lower(c), lower_key(todos[i as int].title));
            }
        }
    }
}

/// In the rows shown, every subtask row comes after the row of its todo.
pub proof fn law_subtask_follows_todo(todos: Seq<TodoView>, query: Seq<char>, k: int)
    requires
        todos_fit(todos),
        0 <= k < rows_of(todos, query).len(),
        rows_of(todos, query)[k] is Sub,
    ensures
        exists|m: int|
            0 <= m < k && #[trigger] rows_of(todos, query)[m] == RowRef::Todo(
                row_todo(rows_of(todos, query)[k]) as usize,
            ),
    decreases todos.len(),
{
    let rows = rows_of(todos, query);
    let n = todos.len() - 1;
    let pre = todos.drop_last();
    let prev = rows_of(pre, query);
    let seg = if todo_matches(todos[n], query) {
        todo_rows(n, todos[n])
    } else {
        Seq::<RowRef>::empty()
    };
    assert(rows == prev + seg);
    assert(todos_fit(pre)) by {
        assert forall|m: int| 0 <= m < pre.len() implies #[trigger] pre[m].subtasks.len() <= usize::MAX by {
            assert(pre[m] == todos[m]);
        }
    }
    if k < prev.len() {
        assert(rows[k] == prev[k]);
        law_subtask_follows_todo(pre, query, k);
        let m = choose|m: int|
            0 <= m < k && #[trigger] prev[m] == RowRef::Todo(row_todo(prev[k]) as usize);
        assert(rows[m] == prev[m]);
    } else {
        let j = k - prev.len();
        assert(rows[k] == seg[j]);
        assert(j > 0);
        assert(seg[j] == RowRef::Sub(n as usize, (j - 1) as usize));
        assert(rows[prev.len() as int] == RowRef::Todo(n as usize));
    }
}

/// A string of white space only trims to nothing.
pub proof fn lemma_trim_white_space(s: Seq<char>)
    requires
        forall|i: int| 0 <= i < s.len() ==> is_white_space(#[trigger] s[i]),
    ensures
        trimmed(s).len() == 0,
    decreases s.len(),
{
    if s.len() > 0 {
        assert forall|i: int| 0 <= i < s.drop_first().len() implies is_white_space(
            #[trigger] s.drop_first()[i],
        ) by {
            assert(s.drop_first()[i] == s[i + 1]);
        }
        lemma_trim_white_space(s.drop_first());
        assert(is_white_space(s[0]));
    }
}

/// A title typed of white space only adds or renames nothing and closes the
/// editor.
pub proof fn law_white_space_title_adds_nothing(v: AppView)
    requires
        forall|i: int| 0 <= i < v.input_buffer.len() ==> is_white_space(#[trigger] v.input_buffer[i]),
    ensures
        v.after_commit_input().groups == v.groups,
        v.after_commit_input().dirty == v.dirty,
        v.after_commit_input().input_buffer.len() == 0,
{
    lemma_trim_white_space(v.input_buffer);
}

/// Committing an edit of todo `i` with a new, non-empty title renames todo
/// `i` of the selected group, whatever row the cursor is on, and changes
/// nothing else of any group: the other todos, the other groups, and the
/// renamed todo's state, notes, priority, subtasks and folding stay.
pub proof fn law_edit_todo_renames_that_todo(v: AppView, i: usize, title: Seq<char>)
    requires
        v.input_target == crate::model::InputTarget::EditTodo(i),
        v.selected_group < v.groups.len(),
        i < v.cur_todos().len(),
        title.len() > 0,
        v.cur_todos()[i as int].title != title,
    ensures
        v.after_commit_title(title).groups.len() == v.groups.len(),
        v.after_commit_title(title).groups[v.selected_group as int].name == v.groups[v.selected_group as int].name,
        v.after_commit_title(title).groups[v.selected_group as int].todos.len() == v.cur_todos().len(),
        v.after_commit_title(title).groups[v.selected_group as int].todos[i as int].title == title,
        v.after_commit_title(title).groups[v.selected_group as int].todos[i as int].completed == v.cur_todos()[i as int].completed,
        v.after_commit_title(title).groups[v.selected_group as int].todos[i as int].notes == v.cur_todos()[i as int].notes,
        v.after_commit_title(title).groups[v.selected_group as int].todos[i as int].priority == v.cur_todos()[i as int].priority,
        v.after_commit_title(title).groups[v.selected_group as int].todos[i as int].subtasks == v.cur_todos()[i as int].subtasks,
        v.after_commit_title(title).groups[v.selected_group as int].todos[i as int].collapsed == v.cur_todos()[i as int].collapsed,
        forall|j: int|
            0 <= j < v.cur_todos().len() && j != i ==> #[trigger] v.after_commit_title(title).groups[v.selected_group as int].todos[j]
                == v.cur_todos()[j],
        forall|g: int|
            0 <= g < v.groups.len() && g != v.selected_group ==> #[trigger] v.after_commit_title(title).groups[g]
                == v.groups[g],
        v.after_commit_title(title).dirty,
        v.after_commit_title(title).input_buffer.len() == 0,
        v.after_commit_title(title).mode == crate::model::AppMode::Normal,
{
}

/// Committing an edit of subtask `j` of todo `i` with a new, non-empty
/// title renames that subtask, whatever row the cursor is on, and changes
/// nothing else of any group.
pub proof fn law_edit_subtask_renames_that_subtask(v: AppView, i: usize, j: usize, title: Seq<char>)
    requires
        v.input_target == crate::model::InputTarget::EditSubtask(i, j),
        v.selected_group < v.groups.len(),
        i < v.cur_todos().len(),
        j < v.cur_todos()[i as int].subtasks.len(),
        title.len() > 0,
        v.cur_todos()[i as int].subtasks[j as int].title != title,
    ensures
        v.after_commit_title(title).groups.len() == v.groups.len(),
        v.after_commit_title(title).groups[v.selected_group as int].todos.len() == v.cur_todos().len(),
        v.after_commit_title(title).groups[v.selected_group as int].todos[i as int].subtasks.len() == v.cur_todos()[i as int].subtasks.len(),
        v.after_commit_title(title).groups[v.selected_group as int].todos[i as int].subtasks[j as int].title == title,
        v.after_commit_title(title).groups[v.selected_group as int].todos[i as int].subtasks[j as int].completed
            == v.cur_todos()[i as int].subtasks[j as int].completed,
        v.after_commit_title(title).groups[v.selected_group as int].todos[i as int].title == v.cur_todos()[i as int].title,
        forall|k: int|
            0 <= k < v.cur_todos()[i as int].subtasks.len() && k != j ==> #[trigger] v.after_commit_title(title).groups[v.selected_group as int].todos[i as int].subtasks[k]
                == v.cur_todos()[i as int].subtasks[k],
        forall|k: int|
            0 <= k < v.cur_todos().len() && k != i ==> #[trigger] v.after_commit_title(title).groups[v.selected_group as int].todos[k]
                == v.cur_todos()[k],
        forall|g: int|
            0 <= g < v.groups.len() && g != v.selected_group ==> #[trigger] v.after_commit_title(title).groups[g]
                == v.groups[g],
{
}

/// In the list, j and Down move the cursor one row down, stopping at the
/// last row, and k and Up one row up, stopping at the first; nothing else
/// changes.
pub proof fn law_list_keys_move_cursor(v: AppView)
    requires
        v.mode == crate::model::AppMode::Normal,
    ensures
        forall|code: crate::keys::KeyCode|
            (code == crate::keys::KeyCode::Char('j') || code == crate::keys::KeyCode::Down)
                ==> #[trigger] v.after_key(crate::keys::KeyPress { code, ctrl: false }) == (AppView {
                selected: if v.visible_rows().len() == 0 {
                    v.selected
                } else if v.selected + 1 < v.visible_rows().len() {
                    (v.selected + 1) as usize
                } else {
                    (v.visible_rows().len() - 1) as usize
                },
                ..v
            }),
        forall|code: crate::keys::KeyCode|
            (code == crate::keys::KeyCode::Char('k') || code == crate::keys::KeyCode::Up)
                ==> #[trigger] v.after_key(crate::keys::KeyPress { code, ctrl: false }) == (AppView {
                selected: if v.selected > 0 {
                    (v.selected - 1) as usize
                } else {
                    0
                },
                ..v
            }),
{
}

/// Undoing the deletion of a todo recorded with group `k` (still existing)
/// and index `x` puts the todo back into group `k` at `x` (at the end when
/// `x` is past it) and selects group `k`, whatever group was selected; every
/// other group stays as it was, and the undo record is used up.
pub proof fn law_undo_todo_into_its_group(v: AppView)
    requires
        v.last_deleted matches Some(crate::model::DeletedView::Todo { group, index, item })
            && group < v.groups.len(),
    ensures
        ({
            let (k, x, item) = match v.last_deleted {
                Some(crate::model::DeletedView::Todo { group, index, item }) => (group as int, index as int, item),
                _ => (0int, 0int, arbitrary()),
            };
            let n = v.groups[k].todos.len() as int;
            let at = if x < n { x } else { n };
            let w = v.after_undo();
            &&& w.selected_group == k
            &&& w.groups.len() == v.groups.len()
            &&& w.groups[k].name == v.groups[k].name
            &&& w.groups[k].todos == v.groups[k].todos.insert(at, item)
            &&& forall|g: int| 0 <= g < v.groups.len() && g != k ==> #[trigger] w.groups[g] == v.groups[g]
            &&& w.last_deleted is None
            &&& w.search_query == v.search_query
        }),
{
}

/// Undoing the deletion of a subtask recorded with group `k`, todo `t` (both
/// still existing) and index `x` puts the subtask back into that todo at `x`
/// (at the end when `x` is past it), unfolds the todo and selects group `k`;
/// every other todo and group stays as it was.
pub proof fn law_undo_subtask_into_its_todo(v: AppView)
    requires
        v.last_deleted matches Some(crate::model::DeletedView::Sub { group, todo, index, item })
            && group < v.groups.len() && todo < v.groups[group as int].todos.len(),
    ensures
        ({
            let (k, t, x, item) = match v.last_deleted {
                Some(crate::model::DeletedView::Sub { group, todo, index, item }) => (group as int, todo as int, index as int, item),
                _ => (0int, 0int, 0int, arbitrary()),
            };
            let old_t = v.groups[k].todos[t];
            let n = old_t.subtasks.len() as int;
            let at = if x < n { x } else { n };
            let w = v.after_undo();
            &&& w.selected_group == k
            &&& w.groups.len() == v.groups.len()
            &&& w.groups[k].todos.len() == v.groups[k].todos.len()
            &&& w.groups[k].todos[t].subtasks == old_t.subtasks.insert(at, item)
            &&& !w.groups[k].todos[t].collapsed
            &&& w.groups[k].todos[t].title == old_t.title
            &&& w.groups[k].todos[t].completed == old_t.completed
            &&& forall|j: int| 0 <= j < v.groups[k].todos.len() && j != t ==> #[trigger] w.groups[k].todos[j] == v.groups[k].todos[j]
            &&& forall|g: int| 0 <= g < v.groups.len() && g != k ==> #[trigger] w.groups[g] == v.groups[g]
            &&& w.last_deleted is None
        }),
{
}

/// Toggling the subtask row `Sub(i, j)` under the cursor flips subtask `j`
/// of todo `i` and changes nothing else of any group.
pub proof fn law_toggle_subtask_flips_only_it(v: AppView, i: usize, j: usize)
    requires
        v.fits(),
        v.current_row() == Some(RowRef::Sub(i, j)),
    ensures
        v.after_toggle_selected().groups.len() == v.groups.len(),
        v.after_toggle_selected().cur_todos().len() == v.cur_todos().len(),
        v.after_toggle_selected().cur_todos()[i as int].subtasks.len() == v.cur_todos()[i as int].subtasks.len(),
        v.after_toggle_selected().cur_todos()[i as int].subtasks[j as int].completed
            == !v.cur_todos()[i as int].subtasks[j as int].completed,
        v.after_toggle_selected().cur_todos()[i as int].subtasks[j as int].title
            == v.cur_todos()[i as int].subtasks[j as int].title,
        v.after_toggle_selected().cur_todos()[i as int].completed == v.cur_todos()[i as int].completed,
        v.after_toggle_selected().cur_todos()[i as int].title == v.cur_todos()[i as int].title,
        forall|k: int|
            0 <= k < v.cur_todos()[i as int].subtasks.len() && k != j ==> #[trigger] v.after_toggle_selected().cur_todos()[i as int].subtasks[k]
                == v.cur_todos()[i as int].subtasks[k],
        forall|k: int|
            0 <= k < v.cur_todos().len() && k != i ==> #[trigger] v.after_toggle_selected().cur_todos()[k]
                == v.cur_todos()[k],
        forall|g: int|
            0 <= g < v.groups.len() && g != v.selected_group ==> #[trigger] v.after_toggle_selected().groups[g]
                == v.groups[g],
{
    crate::rows::lemma_current_row_valid(v);
}

/// Renaming group `i` to a new, non-empty name changes only that group's
/// name: its todos and every other group stay as they were.
pub proof fn law_rename_group_keeps_todos(v: AppView, i: usize, name: Seq<char>)
    requires
        v.group_editing == Some(i),
        i < v.groups.len(),
        name.len() > 0,
        v.groups[i as int].name != name,
    ensures
        v.after_commit_group_name(name).groups.len() == v.groups.len(),
        v.after_commit_group_name(name).groups[i as int].name == name,
        v.after_commit_group_name(name).groups[i as int].todos == v.groups[i as int].todos,
        forall|g: int|
            0 <= g < v.groups.len() && g != i ==> #[trigger] v.after_commit_group_name(name).groups[g]
                == v.groups[g],
        v.after_commit_group_name(name).selected_group == v.selected_group,
{
}

/// Adding a group with a non-empty name appends one empty group of that name
/// and keeps every existing group.
pub proof fn law_add_group_appends(v: AppView, name: Seq<char>)
    requires
        v.group_editing is None,
        name.len() > 0,
    ensures
        v.after_commit_group_name(name).groups.len() == v.groups.len() + 1,
        v.after_commit_group_name(name).groups[v.groups.len() as int].name == name,
        v.after_commit_group_name(name).groups[v.groups.len() as int].todos.len() == 0,
        forall|g: int|
            0 <= g < v.groups.len() ==> #[trigger] v.after_commit_group_name(name).groups[g] == v.groups[g],
{
}

} // verus!
