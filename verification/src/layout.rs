//! Text layout for the screen: which group tabs fit in the tab bar, and
//! how notes wrap to the width of their pane.
use crate::model::{Group, strings_view};
use crate::text::{char_width, str_width, str_width_of, width_of_char};
use vstd::prelude::*;

verus! {

/// The largest width a `u16` counter holds; sums saturate there.
pub open spec fn cap() -> int {
    65535
}

/// What tab `k` adds to the bar: its width and a separator, saturated.
pub open spec fn tab_cost(widths: Seq<u16>, sep: u16, k: int) -> int {
    if widths[k] + sep > cap() {
        cap()
    } else {
        widths[k] + sep
    }
}

/// The summed cost of tabs `s` up to (not including) `e`.
pub open spec fn cost_sum(widths: Seq<u16>, sep: u16, s: int, e: int) -> int
    decreases e - s,
{
    if e <= s {
        0
    } else {
        tab_cost(widths, sep, s) + cost_sum(widths, sep, s + 1, e)
    }
}

/// The width of the window of tabs `s..e` around tab `sel`: the selected
/// tab, plus the cost of each other tab in the window, saturated.
pub open spec fn span(widths: Seq<u16>, sep: u16, sel: int, s: int, e: int) -> int {
    let total = widths[sel] + cost_sum(widths, sep, s, sel) + cost_sum(widths, sep, sel + 1, e);
    if total > cap() {
        cap()
    } else {
        total
    }
}

/// Costs are not negative, and splitting a range splits its cost.
proof fn lemma_cost_sum(widths: Seq<u16>, sep: u16, s: int, m: int, e: int)
    requires
        0 <= s <= m <= e <= widths.len(),
    ensures
        cost_sum(widths, sep, s, e) == cost_sum(widths, sep, s, m) + cost_sum(widths, sep, m, e),
        cost_sum(widths, sep, s, e) >= 0,
    decreases m - s,
{
    if s < m {
        lemma_cost_sum(widths, sep, s + 1, m, e);
    } else {
        lemma_cost_nonneg(widths, sep, m, e);
    }
}

proof fn lemma_cost_nonneg(widths: Seq<u16>, sep: u16, s: int, e: int)
    requires
        0 <= s <= e <= widths.len(),
    ensures
        cost_sum(widths, sep, s, e) >= 0,
    decreases e - s,
{
    if s < e {
        lemma_cost_nonneg(widths, sep, s + 1, e);
    }
}

/// A wider window is never narrower.
pub proof fn lemma_span_monotone(widths: Seq<u16>, sep: u16, sel: int, s1: int, s2: int, e1: int, e2: int)
    requires
        0 <= s2 <= s1 <= sel < e1 <= e2 <= widths.len(),
    ensures
        span(widths, sep, sel, s1, e1) <= span(widths, sep, sel, s2, e2),
{
    lemma_cost_sum(widths, sep, s2, s1, sel);
    lemma_cost_sum(widths, sep, sel + 1, e1, e2);
    lemma_cost_nonneg(widths, sep, s2, s1);
    lemma_cost_nonneg(widths, sep, e1, e2);
    lemma_cost_nonneg(widths, sep, s1, sel);
    lemma_cost_nonneg(widths, sep, sel + 1, e1);
}

/// The window `r` of tabs suits tab `sel` within `max` columns: it holds
/// the selected tab, ends at the last tab that fits after it, and starts at
/// the first that then still fits before it.
pub open spec fn window_ok(widths: Seq<u16>, sel: int, sep: u16, max: int, r: (usize, usize)) -> bool {
    &&& r.0 <= sel < r.1 <= widths.len()
    &&& r.1 == sel + 1 || span(widths, sep, sel, sel, r.1 as int) <= max
    &&& r.1 < widths.len() ==> span(widths, sep, sel, sel, r.1 + 1) > max
    &&& r.0 < sel ==> span(widths, sep, sel, r.0 as int, r.1 as int) <= max
    &&& r.0 > 0 ==> span(widths, sep, sel, r.0 - 1, r.1 as int) > max
}

/// The window of group tabs `start..end` to show around the selected tab
/// when not all fit in `max_width`. It first grows to the right while the
/// next tab still fits, then to the left while the previous one fits (a
/// tab's cost is its width plus a separator; sums saturate at `u16::MAX`).
/// So the window ends at the last tab that fits after the selected one,
/// and starts at the first that then still fits before it.
pub fn tab_window(tab_widths: &[u16], selected: usize, sep_w: u16, max_width: u16) -> (r: (
    usize,
    usize,
))
    requires
        selected < tab_widths@.len(),
    ensures
        window_ok(tab_widths@, selected as int, sep_w, max_width as int, r),
{
    let ghost w = tab_widths@;
    let ghost sel = selected as int;
    let n = tab_widths.len();
    let mut start = selected;
    let mut end = selected + 1;
    let mut width = tab_widths[selected];
    assert(span(w, sep_w, sel, sel, sel + 1) == width);
    loop
        invariant
            n == w.len(),
            w == tab_widths@,
            sel == selected,
            start <= selected < end <= n,
            width == span(w, sep_w, sel, start as int, end as int),
            end == selected + 1 || span(w, sep_w, sel, sel, end as int) <= max_width,
            start < selected ==> span(w, sep_w, sel, start as int, end as int) <= max_width,
            start < selected ==> (end == n || span(w, sep_w, sel, sel, end + 1) > max_width),
            start < selected ==> (end == n || span(w, sep_w, sel, start as int, end + 1) > max_width),
        ensures
            start <= selected < end <= n,
            end == selected + 1 || span(w, sep_w, sel, sel, end as int) <= max_width,
            end < n ==> span(w, sep_w, sel, sel, end + 1) > max_width,
            start < selected ==> span(w, sep_w, sel, start as int, end as int) <= max_width,
            start > 0 ==> span(w, sep_w, sel, start - 1, end as int) > max_width,
        decreases start + n - end,
    {
        let can_left = start > 0;
        let can_right = end < n;
        let left_cost = if can_left {
            tab_widths[start - 1].saturating_add(sep_w)
        } else {
            u16::MAX
        };
        let right_cost = if can_right {
            tab_widths[end].saturating_add(sep_w)
        } else {
            u16::MAX
        };
        if can_right && width.saturating_add(right_cost) <= max_width {
            proof {
                assert(right_cost == tab_cost(w, sep_w, end as int));
                lemma_cost_sum(w, sep_w, sel + 1, end as int, end + 1);
                lemma_cost_nonneg(w, sep_w, start as int, sel);
                lemma_cost_nonneg(w, sep_w, sel + 1, end as int);
                assert(cost_sum(w, sep_w, end + 1, end + 1) == 0);
                if start < selected {
                    assert(false);
                }
            }
            width = width.saturating_add(right_cost);
            end += 1;
        } else if can_left && width.saturating_add(left_cost) <= max_width {
            proof {
                assert(left_cost == tab_cost(w, sep_w, start - 1));
                lemma_cost_sum(w, sep_w, start - 1, start as int, sel);
                lemma_cost_nonneg(w, sep_w, start as int, sel);
                lemma_cost_nonneg(w, sep_w, sel + 1, end as int);
                if end < n {
                    lemma_span_monotone(w, sep_w, sel, start as int, start - 1, end + 1, end + 1);
                    if start == selected {
                        assert(span(w, sep_w, sel, sel, end + 1) > max_width) by {
                            lemma_cost_sum(w, sep_w, sel + 1, end as int, end + 1);
                            assert(cost_sum(w, sep_w, end + 1, end + 1) == 0);
                        }
                    }
                }
            }
            width = width.saturating_add(left_cost);
            start -= 1;
        } else {
            proof {
                if end < n {
                    assert(right_cost == tab_cost(w, sep_w, end as int));
                    lemma_cost_sum(w, sep_w, sel + 1, end as int, end + 1);
                    lemma_cost_nonneg(w, sep_w, start as int, sel);
                    lemma_cost_nonneg(w, sep_w, sel + 1, end as int);
                    assert(cost_sum(w, sep_w, end + 1, end + 1) == 0);
                    lemma_span_monotone(w, sep_w, sel, sel, start as int, end + 1, end + 1);
                }
                if start > 0 {
                    assert(left_cost == tab_cost(w, sep_w, start - 1));
                    lemma_cost_sum(w, sep_w, start - 1, start as int, sel);
                    lemma_cost_nonneg(w, sep_w, start as int, sel);
                    lemma_cost_nonneg(w, sep_w, sel + 1, end as int);
                }
            }
            break;
        }
    }
    (start, end)
}

/// The width of a group's tab: its name's display width (as a `u16`,
/// wrapping) and a space on each side.
pub open spec fn tab_width_of(name: Seq<char>) -> int {
    (str_width_of(name) as u16) + 2
}

/// The tab widths of all the groups, or `None` when a tab is wider than
/// `u16::MAX` columns.
pub fn tab_widths(groups: &[Group]) -> (r: Option<Vec<u16>>)
    ensures
        r is Some <==> forall|i: int|
            0 <= i < groups@.len() ==> tab_width_of(#[trigger] groups@[i].name@) <= u16::MAX,
        r matches Some(ws) ==> ws@.len() == groups@.len() && forall|i: int|
            0 <= i < ws@.len() ==> #[trigger] ws@[i] as int == tab_width_of(groups@[i].name@),
{
    let n = groups.len();
    let mut ws: Vec<u16> = Vec::new();
    let mut i: usize = 0;
    while i < n
        invariant
            n == groups@.len(),
            i <= n,
            ws@.len() == i,
            forall|j: int| 0 <= j < i ==> #[trigger] ws@[j] as int == tab_width_of(groups@[j].name@),
            forall|j: int| 0 <= j < i ==> tab_width_of(#[trigger] groups@[j].name@) <= u16::MAX,
        decreases n - i,
    {
        let w: u16 = #[verifier::truncate] (str_width(groups[i].name.as_str()) as u16);
        if w > u16::MAX - 2 {
            return None;
        }
        ws.push(w + 2);
        i += 1;
    }
    Some(ws)
}

/// The width of the whole tab bar, or `None` when a sum passes `u16::MAX`.
pub fn bar_width_checked(tab_widths: &[u16], sep_w: u16) -> (r: Option<u16>)
    ensures
        r is Some <==> (widths_sum(tab_widths@) <= u16::MAX && sep_w * gap_count(tab_widths@)
            <= u16::MAX && bar_width(tab_widths@, sep_w) <= u16::MAX),
        r matches Some(t) ==> t == bar_width(tab_widths@, sep_w),
{
    let n = tab_widths.len();
    let mut sum: u16 = 0;
    let mut i: usize = 0;
    while i < n
        invariant
            n == tab_widths@.len(),
            i <= n,
            sum as int == widths_sum(tab_widths@.take(i as int)),
        decreases n - i,
    {
        proof {
            assert(tab_widths@.take(i + 1).drop_last() =~= tab_widths@.take(i as int));
            lemma_widths_sum_prefix(tab_widths@, i as int + 1);
            lemma_widths_sum_mono(tab_widths@, i as int + 1);
        }
        if sum > u16::MAX - tab_widths[i] {
            return None;
        }
        sum = sum + tab_widths[i];
        i += 1;
    }
    assert(tab_widths@.take(n as int) =~= tab_widths@);
    let gaps: u16 = #[verifier::truncate] (n.saturating_sub(1) as u16);
    let sep_total = sep_w.checked_mul(gaps);
    match sep_total {
        None => None,
        Some(g) => sum.checked_add(g),
    }
}

/// The sum of the widths.
pub open spec fn widths_sum(ws: Seq<u16>) -> int
    decreases ws.len(),
{
    if ws.len() == 0 {
        0
    } else {
        widths_sum(ws.drop_last()) + ws.last()
    }
}

/// The number of separators between the tabs, as a `u16` (wrapping).
pub open spec fn gap_count(ws: Seq<u16>) -> u16 {
    (if ws.len() > 0 {
        ws.len() - 1
    } else {
        0
    }) as u16
}

/// The width of the whole tab bar: all tabs and the separators between them.
pub open spec fn bar_width(ws: Seq<u16>, sep: u16) -> int {
    widths_sum(ws) + sep * gap_count(ws)
}

/// The tabs to show in a bar `width` columns wide: all of them when the
/// whole bar fits, else the window around the selected tab that fits two
/// columns less (room for the scroll arrows).
pub fn tab_range(tab_widths: &[u16], selected: usize, sep_w: u16, width: u16) -> (r: (usize, usize))
    requires
        widths_sum(tab_widths@) <= u16::MAX,
        sep_w * gap_count(tab_widths@) <= u16::MAX,
        bar_width(tab_widths@, sep_w) <= u16::MAX,
        bar_width(tab_widths@, sep_w) > width ==> selected < tab_widths@.len(),
    ensures
        bar_width(tab_widths@, sep_w) <= width ==> r == (0usize, tab_widths@.len() as usize),
        bar_width(tab_widths@, sep_w) > width ==> window_ok(
            tab_widths@,
            selected as int,
            sep_w,
            if width >= 2 {
                width - 2
            } else {
                0
            },
            r,
        ),
{
    let n = tab_widths.len();
    let mut sum: u16 = 0;
    let mut i: usize = 0;
    while i < n
        invariant
            n == tab_widths@.len(),
            i <= n,
            sum as int == widths_sum(tab_widths@.take(i as int)),
            widths_sum(tab_widths@) <= u16::MAX,
        decreases n - i,
    {
        proof {
            lemma_widths_sum_prefix(tab_widths@, i as int + 1);
            assert(tab_widths@.take(i + 1).drop_last() =~= tab_widths@.take(i as int));
        }
        sum = sum + tab_widths[i];
        i += 1;
    }
    assert(tab_widths@.take(n as int) =~= tab_widths@);
    let gaps: u16 = #[verifier::truncate] (n.saturating_sub(1) as u16);
    let total = sum + sep_w * gaps;
    if total <= width {
        (0, n)
    } else {
        tab_window(tab_widths, selected, sep_w, width.saturating_sub(2))
    }
}

/// Longer prefixes of the widths never sum to less.
proof fn lemma_widths_sum_mono(ws: Seq<u16>, k: int)
    requires
        0 <= k <= ws.len(),
    ensures
        forall|j: int| 0 <= j <= k ==> widths_sum(ws.take(j)) <= #[trigger] widths_sum(ws.take(k)),
    decreases k,
{
    if k > 0 {
        lemma_widths_sum_mono(ws, k - 1);
        assert(ws.take(k).drop_last() =~= ws.take(k - 1));
    }
}

/// A prefix of the widths never sums to more than all of them.
proof fn lemma_widths_sum_prefix(ws: Seq<u16>, k: int)
    requires
        0 <= k <= ws.len(),
    ensures
        widths_sum(ws.take(k)) <= widths_sum(ws),
    decreases ws.len(),
{
    if k < ws.len() {
        lemma_widths_sum_prefix(ws.drop_last(), k);
        assert(ws.drop_last().take(k) =~= ws.take(k));
    } else {
        assert(ws.take(k) =~= ws);
    }
}

/// The columns a character takes when notes are wrapped: its display
/// width, or none for a control character.
pub open spec fn char_cols(c: char) -> int {
    match char_width(c) {
        Some(w) => w as int,
        None => 0,
    }
}

/// The columns of each character of a text.
pub open spec fn text_cols(text: Seq<char>) -> Seq<int> {
    text.map_values(|c: char| char_cols(c))
}

/// Column counts held as `u16`, as integers.
pub open spec fn cols_view(ws: Seq<u16>) -> Seq<int> {
    ws.map_values(|w: u16| w as int)
}

/// Where wrapping stands after some characters: the finished lines, the
/// line being filled and its width in columns.
pub struct WrapState {
    pub done: Seq<Seq<char>>,
    pub cur: Seq<char>,
    pub width: int,
}

/// One character `c`, `cw` columns wide, of wrapping: a line break ends the
/// line; a character that would make the line wider than `pw` starts a new
/// line; otherwise it joins the current line.
pub open spec fn wrap_step(st: WrapState, c: char, cw: int, pw: int) -> WrapState {
    if c == '\n' {
        WrapState { done: st.done.push(st.cur), cur: Seq::empty(), width: 0 }
    } else if st.width + cw > pw {
        WrapState { done: st.done.push(st.cur), cur: seq![c], width: cw }
    } else {
        WrapState { done: st.done, cur: st.cur.push(c), width: st.width + cw }
    }
}

/// Where wrapping stands after all of `text`, character `k` being
/// `widths[k]` columns wide.
pub open spec fn wrap_state(text: Seq<char>, widths: Seq<int>, pw: int) -> WrapState
    decreases text.len(),
{
    if text.len() == 0 {
        WrapState { done: Seq::empty(), cur: Seq::empty(), width: 0 }
    } else {
        wrap_step(
            wrap_state(text.drop_last(), widths, pw),
            text.last(),
            widths[text.len() - 1],
            pw,
        )
    }
}

/// The lines of `text` wrapped to `pw` columns, character `k` being
/// `widths[k]` columns wide: every line break of the text ends a line (so
/// the text has one more line than it has breaks, the last possibly empty),
/// and a line that would grow wider than `pw` continues on a new line.
pub open spec fn wrapped_by(text: Seq<char>, widths: Seq<int>, pw: int) -> Seq<Seq<char>> {
    wrap_state(text, widths, pw).done.push(wrap_state(text, widths, pw).cur)
}

/// While wrapping, the width of the current line plus that of the next
/// character never passes `u16::MAX`.
pub open spec fn fits_by(text: Seq<char>, widths: Seq<int>, pw: int) -> bool {
    forall|k: int|
        0 <= k < text.len() ==> #[trigger] text[k] == '\n' || wrap_state(text.take(k), widths, pw).width
            + widths[k] <= cap()
}

/// The lines of `text` wrapped to `pw` columns with the display widths of
/// its characters.
pub open spec fn wrapped(text: Seq<char>, pw: int) -> Seq<Seq<char>> {
    wrapped_by(text, text_cols(text), pw)
}

/// Wrapping `text` with the display widths of its characters keeps every
/// width within `u16::MAX`.
pub open spec fn wrap_fits(text: Seq<char>, pw: int) -> bool {
    fits_by(text, text_cols(text), pw)
}

/// The display widths of the characters of `text`, as column counts.
fn measure(text: &str) -> (widths: Vec<u16>)
    ensures
        widths@.len() == text@.len(),
        cols_view(widths@) == text_cols(text@),
        forall|k: int| 0 <= k < widths@.len() ==> #[trigger] widths@[k] <= 3,
{
    broadcast use vstd::string::group_string_axioms;

    let mut widths: Vec<u16> = Vec::new();
    for c in it: text.chars()
        invariant
            it.seq() == text@,
            widths@.len() == it.index(),
            forall|k: int| 0 <= k < it.index() ==> #[trigger] widths@[k] as int == char_cols(text@[k]),
            forall|k: int| 0 <= k < widths@.len() ==> #[trigger] widths@[k] <= 3,
    {
        let ghost k = it.index() as int;
        assert(text@[k] == c);
        let cw: u16 = match width_of_char(c) {
            Some(w) => w as u16,
            None => 0,
        };
        widths.push(cw);
    }
    assert(cols_view(widths@) =~= text_cols(text@));
    widths
}

/// Whether wrapping `text` with the given widths keeps every width within
/// `u16::MAX`.
fn fits_measured(text: &str, widths: &[u16], panel_width: u16) -> (r: bool)
    requires
        widths@.len() == text@.len(),
    ensures
        r == fits_by(text@, cols_view(widths@), panel_width as int),
{
    broadcast use vstd::string::group_string_axioms;

    let ghost pw = panel_width as int;
    let ghost ws = cols_view(widths@);
    let mut width: u32 = 0;
    let mut k: usize = 0;
    for c in it: text.chars()
        invariant
            it.seq() == text@,
            widths@.len() == text@.len(),
            ws == cols_view(widths@),
            pw == panel_width as int,
            k == it.index(),
            width as int == wrap_state(text@.take(k as int), ws, pw).width,
            width <= 65535,
            forall|j: int|
                0 <= j < k ==> #[trigger] text@[j] == '\n' || wrap_state(text@.take(j), ws, pw).width
                    + ws[j] <= cap(),
    {
        let ghost pre = text@.take(k as int);
        assert(text@.take(k + 1).drop_last() =~= pre);
        assert(text@[k as int] == c);
        if c != '\n' {
            let cw = widths[k] as u32;
            if width + cw > 65535 {
                return false;
            }
            if width + cw > panel_width as u32 {
                width = cw;
            } else {
                width = width + cw;
            }
        } else {
            width = 0;
        }
        k += 1;
    }
    true
}

/// Wraps `text` to lines of at most `panel_width` columns (a character wider
/// than the panel still takes a line of its own), breaking at each line
/// break of the text, character `k` being `widths[k]` columns wide.
pub fn wrap_measured(text: &str, widths: &[u16], panel_width: u16) -> (lines: Vec<String>)
    requires
        widths@.len() == text@.len(),
        fits_by(text@, cols_view(widths@), panel_width as int),
    ensures
        strings_view(lines@) == wrapped_by(text@, cols_view(widths@), panel_width as int),
{
    broadcast use vstd::string::group_string_axioms;

    let ghost pw = panel_width as int;
    let ghost ws = cols_view(widths@);
    let mut lines: Vec<String> = Vec::new();
    let mut current = String::new();
    let mut width: u16 = 0;
    let mut k: usize = 0;
    let n = widths.len();
    assert(strings_view(lines@) =~= Seq::<Seq<char>>::empty());
    for c in it: text.chars()
        invariant
            it.seq() == text@,
            widths@.len() == text@.len(),
            ws == cols_view(widths@),
            pw == panel_width as int,
            n == widths@.len(),
            k == it.index(),
            fits_by(text@, ws, pw),
            strings_view(lines@) == wrap_state(text@.take(k as int), ws, pw).done,
            current@ == wrap_state(text@.take(k as int), ws, pw).cur,
            width as int == wrap_state(text@.take(k as int), ws, pw).width,
    {
        let ghost pre = text@.take(k as int);
        assert(text@.take(k + 1).drop_last() =~= pre);
        assert(text@.take(k + 1).last() == c);
        assert(text@[k as int] == c);
        assert(k < n);
        let ghost old_lines = lines@;
        if c == '\n' {
            lines.push(current);
            current = String::new();
            width = 0;
            assert(strings_view(lines@) =~= strings_view(old_lines).push(wrap_state(pre, ws, pw).cur));
        } else {
            let cw = widths[k];
            if width + cw > panel_width {
                lines.push(current);
                current = String::new();
                width = 0;
                assert(strings_view(lines@) =~= strings_view(old_lines).push(
                    wrap_state(pre, ws, pw).cur,
                ));
            }
            assert(current@ =~= (if wrap_state(pre, ws, pw).width + ws[k as int] > pw {
                Seq::<char>::empty()
            } else {
                wrap_state(pre, ws, pw).cur
            }));
            crate::text::push_char(&mut current, c);
            width = width + cw;
        }
        k += 1;
    }
    let ghost st = wrap_state(text@, ws, pw);
    assert(text@.take(text@.len() as int) =~= text@);
    let ghost before = lines@;
    lines.push(current);
    assert(strings_view(lines@) =~= strings_view(before).push(st.cur));
    lines
}

/// Wraps `text` to lines of at most `panel_width` columns (a character wider
/// than the panel still takes a line of its own), breaking at each line
/// break of the text. The widths of the characters are those of the
/// unicode-width crate, with control characters counted as 0.
pub fn wrap_text(text: &str, panel_width: u16) -> (lines: Vec<String>)
    requires
        wrap_fits(text@, panel_width as int),
    ensures
        strings_view(lines@) == wrapped(text@, panel_width as int),
{
    let widths = measure(text);
    wrap_measured(text, widths.as_slice(), panel_width)
}

/// Wraps `text` as `wrap_text` does, or gives `None` when a line would
/// grow past `u16::MAX` columns on the way.
pub fn wrap_text_checked(text: &str, panel_width: u16) -> (r: Option<Vec<String>>)
    ensures
        r is Some <==> wrap_fits(text@, panel_width as int),
        r matches Some(lines) ==> strings_view(lines@) == wrapped(text@, panel_width as int),
{
    let widths = measure(text);
    if fits_measured(text, widths.as_slice(), panel_width) {
        Some(wrap_text(text, panel_width))
    } else {
        None
    }
}

} // verus!
