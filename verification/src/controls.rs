//! The key-hint bar at the bottom of the interactive views, the help overlay
//! and the placement of popups.
use crate::format::{ago_text, format_ago};
use crate::text::push_text;
use crate::calendar::is_local_civil_text;
use crate::time::{rfc3339_instant, Timestamp};
use vstd::prelude::*;
use vstd::string::StringSliceAdditionalSpecFns;

verus! {

/// A key hint: the key's label and what it does.
pub type Shortcut = (&'static str, &'static str);

/// The hints shown in the bar of the status view.
pub fn get_basic_shortcuts(in_history: bool) -> (r: Vec<Shortcut>)
    ensures
        in_history ==> r@ == seq![("↑↓/jk", "Navigate"), ("?", "All Keys"), ("q/Esc", "Back")],
        !in_history ==> r@ == seq![
            ("↑↓/jk", "Navigate"),
            ("Enter/h", "History"),
            ("?", "All Keys"),
            ("q/Esc", "Quit"),
        ],
{
    if in_history {
        vec![("↑↓/jk", "Navigate"), ("?", "All Keys"), ("q/Esc", "Back")]
    } else {
        vec![("↑↓/jk", "Navigate"), ("Enter/h", "History"), ("?", "All Keys"), ("q/Esc", "Quit")]
    }
}

/// Every key of the status view, for the help overlay.
pub fn get_all_shortcuts(in_history: bool) -> (r: Vec<Shortcut>)
    ensures
        in_history ==> r@ == seq![
            ("↑↓/jk", "Navigate"),
            ("PgUp/PgDn", "Page"),
            ("d", "Delete Entry"),
            ("r", "Refresh"),
            ("?", "Help"),
            ("q/Esc", "Back"),
        ],
        !in_history ==> r@ == seq![
            ("↑↓/jk", "Navigate"),
            ("PgUp/PgDn", "Page"),
            ("←→/Tab", "Sort"),
            ("s", "Toggle Order"),
            ("Enter/h", "History"),
            ("d", "Delete Task"),
            ("r", "Refresh"),
            ("?", "Help"),
            ("q/Esc", "Quit"),
        ],
{
    if in_history {
        vec![
            ("↑↓/jk", "Navigate"),
            ("PgUp/PgDn", "Page"),
            ("d", "Delete Entry"),
            ("r", "Refresh"),
            ("?", "Help"),
            ("q/Esc", "Back"),
        ]
    } else {
        vec![
            ("↑↓/jk", "Navigate"),
            ("PgUp/PgDn", "Page"),
            ("←→/Tab", "Sort"),
            ("s", "Toggle Order"),
            ("Enter/h", "History"),
            ("d", "Delete Task"),
            ("r", "Refresh"),
            ("?", "Help"),
            ("q/Esc", "Quit"),
        ]
    }
}

/// Width of one hint without its separator: the key padded by a space on
/// each side, a space, and the description (in characters).
pub open spec fn hint_width(s: Shortcut) -> int {
    (s.0@.len() + 3 + s.1@.len()) as int
}

/// Hint lists the bar can measure without overflow.
pub open spec fn hints_small(items: Seq<Shortcut>) -> bool {
    &&& items.len() < 4096
    &&& forall|i: int| 0 <= i < items.len() ==> (#[trigger] items[i]).0@.len() < 4096 && items[i].1@.len() < 4096
}

/// The count the bar height is reckoned from: (lines, width used on the
/// current line, whether the next hint starts a line). Lines start two
/// columns in; hints after the first on a line are two columns apart. A hint
/// that does not fit goes to a new line, and the hint after it is then taken
/// as the first on its line again.
pub open spec fn height_count(items: Seq<Shortcut>, content_width: int) -> (int, int, bool)
    decreases items.len(),
{
    if items.len() == 0 {
        (1, 2, true)
    } else {
        let st = height_count(items.drop_last(), content_width);
        let w = (if st.2 { 0int } else { 2int }) + hint_width(items.last());
        if !st.2 && st.1 + w > content_width {
            (st.0 + 1, 2 + hint_width(items.last()), true)
        } else {
            (st.0, st.1 + w, false)
        }
    }
}

proof fn lemma_height_count_bounds(items: Seq<Shortcut>, cw: int)
    requires
        hints_small(items),
    ensures
        1 <= height_count(items, cw).0 <= items.len() + 1,
        2 <= height_count(items, cw).1 <= 2 + items.len() * 8200,
    decreases items.len(),
{
    if items.len() > 0 {
        let p = items.drop_last();
        assert(hints_small(p)) by {
            assert forall|i: int| 0 <= i < p.len() implies (#[trigger] p[i]).0@.len() < 4096 && p[i].1@.len() < 4096 by {
                assert(p[i] == items[i]);
            }
        }
        lemma_height_count_bounds(p, cw);
        assert(items[items.len() - 1] == items.last());
        assert((items.len() - 1) * 8200 + 8200 == items.len() * 8200) by (nonlinear_arith);
    }
}

/// How many rows the hint bar takes in a terminal `terminal_width` wide:
/// the counted lines plus two borders.
pub fn controls_height_for(terminal_width: u16, shortcuts: &Vec<Shortcut>) -> (r: u16)
    requires
        hints_small(shortcuts@),
    ensures
        r == height_count(shortcuts@, if terminal_width >= 2 { terminal_width - 2 } else { 0 }).0 + 2,
{
    let content_width: usize = if terminal_width >= 2 { (terminal_width - 2) as usize } else { 0 };
    let mut lines: u16 = 1;
    let mut current_width: usize = 2;
    let mut first_on_line: bool = true;
    let mut i: usize = 0;
    while i < shortcuts.len()
        invariant
            i <= shortcuts@.len(),
            hints_small(shortcuts@),
            content_width == (if terminal_width >= 2 { terminal_width - 2 } else { 0 }),
            (lines as int, current_width as int, first_on_line) == height_count(shortcuts@.take(i as int), content_width as int),
        decreases shortcuts@.len() - i,
    {
        proof {
            assert(hints_small(shortcuts@.take(i as int))) by {
                assert forall|j: int| 0 <= j < shortcuts@.take(i as int).len() implies
                    (#[trigger] shortcuts@.take(i as int)[j]).0@.len() < 4096 && shortcuts@.take(i as int)[j].1@.len() < 4096 by {
                    assert(shortcuts@.take(i as int)[j] == shortcuts@[j]);
                }
            }
            lemma_height_count_bounds(shortcuts@.take(i as int), content_width as int);
            assert(i * 8200 <= 4096 * 8200) by (nonlinear_arith) requires i < 4096;
        }
        let (key, desc) = shortcuts[i];
        assert(shortcuts@[i as int].0@.len() < 4096 && shortcuts@[i as int].1@.len() < 4096);
        let kl = key.unicode_len();
        let dl = desc.unicode_len();
        let sep: usize = if first_on_line { 0 } else { 2 };
        let item_width: usize = sep + kl + 2 + 1 + dl;
        if !first_on_line && current_width + item_width > content_width {
            lines = lines + 1;
            current_width = 2 + kl + 2 + 1 + dl;
            first_on_line = true;
        } else {
            current_width = current_width + item_width;
            first_on_line = false;
        }
        assert(shortcuts@.take(i + 1).drop_last() =~= shortcuts@.take(i as int));
        assert(shortcuts@.take(i + 1).last() == shortcuts@[i as int]);
        i = i + 1;
    }
    assert(shortcuts@.take(shortcuts@.len() as int) =~= shortcuts@);
    proof {
        lemma_height_count_bounds(shortcuts@, content_width as int);
    }
    lines + 2
}

/// The hints of the status view's bar (see `get_basic_shortcuts`).
pub open spec fn basic_hints(in_history: bool) -> Seq<Shortcut> {
    if in_history {
        seq![("↑↓/jk", "Navigate"), ("?", "All Keys"), ("q/Esc", "Back")]
    } else {
        seq![("↑↓/jk", "Navigate"), ("Enter/h", "History"), ("?", "All Keys"), ("q/Esc", "Quit")]
    }
}

/// How many rows the hint bar of the status view takes.
pub fn controls_height(terminal_width: u16, in_history: bool) -> (r: u16)
    ensures
        r == height_count(basic_hints(in_history), if terminal_width >= 2 { terminal_width - 2 } else { 0 }).0 + 2,
{
    let shortcuts = get_basic_shortcuts(in_history);
    proof {
        reveal_strlit("↑↓/jk");
        reveal_strlit("Navigate");
        reveal_strlit("Enter/h");
        reveal_strlit("History");
        reveal_strlit("?");
        reveal_strlit("All Keys");
        reveal_strlit("q/Esc");
        reveal_strlit("Back");
        reveal_strlit("Quit");
    }
    controls_height_for(terminal_width, &shortcuts)
}

/// In a terminal at least 30 columns wide, the bar of the status view is
/// exactly as tall as the lines it draws its hints on, plus its two borders.
pub proof fn lemma_bar_height_fits_lines(terminal_width: u16, in_history: bool)
    requires
        terminal_width >= 30,
    ensures
        height_count(basic_hints(in_history), terminal_width - 2).0 == hint_lines(
            basic_hints(in_history),
            terminal_width - 2,
        ).len(),
{
    reveal_strlit("↑↓/jk");
    reveal_strlit("Navigate");
    reveal_strlit("Enter/h");
    reveal_strlit("History");
    reveal_strlit("?");
    reveal_strlit("All Keys");
    reveal_strlit("q/Esc");
    reveal_strlit("Back");
    reveal_strlit("Quit");
    reveal_with_fuel(height_count, 5);
    reveal_with_fuel(line_fold, 5);
}


/// How the hint bar breaks its hints into lines: (finished lines, hints on
/// the current line, width used on it, whether it is still empty). A hint
/// that does not fit after others starts a new line.
pub open spec fn line_fold(items: Seq<Shortcut>, content_width: int) -> (Seq<Seq<Shortcut>>, Seq<Shortcut>, int, bool)
    decreases items.len(),
{
    if items.len() == 0 {
        (Seq::empty(), Seq::empty(), 2, true)
    } else {
        let st = line_fold(items.drop_last(), content_width);
        let it = items.last();
        let sep = if st.3 { 0int } else { 2int };
        if !st.3 && st.2 + sep + hint_width(it) > content_width {
            (st.0.push(st.1), seq![it], 2 + hint_width(it), false)
        } else {
            (st.0, st.1.push(it), st.2 + sep + hint_width(it), false)
        }
    }
}

/// The lines of the hint bar: the finished lines and then the current one.
pub open spec fn hint_lines(items: Seq<Shortcut>, content_width: int) -> Seq<Seq<Shortcut>> {
    let st = line_fold(items, content_width);
    st.0.push(st.1)
}

proof fn lemma_line_fold_bounds(items: Seq<Shortcut>, cw: int)
    requires
        hints_small(items),
    ensures
        line_fold(items, cw).0.len() <= items.len(),
        2 <= line_fold(items, cw).2 <= 2 + items.len() * 8200,
    decreases items.len(),
{
    if items.len() > 0 {
        let p = items.drop_last();
        assert(hints_small(p)) by {
            assert forall|i: int| 0 <= i < p.len() implies (#[trigger] p[i]).0@.len() < 4096 && p[i].1@.len() < 4096 by {
                assert(p[i] == items[i]);
            }
        }
        lemma_line_fold_bounds(p, cw);
        assert(items[items.len() - 1] == items.last());
        assert((items.len() - 1) * 8200 + 8200 == items.len() * 8200) by (nonlinear_arith);
    }
}

/// Breaks the hints into the lines the bar shows in a terminal
/// `terminal_width` wide (two columns go to the borders).
pub fn control_lines(terminal_width: u16, shortcuts: &Vec<Shortcut>) -> (r: Vec<Vec<Shortcut>>)
    requires
        hints_small(shortcuts@),
    ensures
        r@.len() == hint_lines(shortcuts@, if terminal_width >= 2 { terminal_width - 2 } else { 0 }).len(),
        forall|i: int| 0 <= i < r@.len() ==> (#[trigger] r@[i])@ == hint_lines(
            shortcuts@,
            if terminal_width >= 2 { terminal_width - 2 } else { 0 },
        )[i],
{
    let content_width: usize = if terminal_width >= 2 { (terminal_width - 2) as usize } else { 0 };
    let mut lines: Vec<Vec<Shortcut>> = Vec::new();
    let mut current: Vec<Shortcut> = Vec::new();
    let mut current_width: usize = 2;
    let mut first_on_line: bool = true;
    let mut i: usize = 0;
    while i < shortcuts.len()
        invariant
            i <= shortcuts@.len(),
            hints_small(shortcuts@),
            content_width == (if terminal_width >= 2 { terminal_width - 2 } else { 0 }),
            ({
                let st = line_fold(shortcuts@.take(i as int), content_width as int);
                &&& lines@.len() == st.0.len()
                &&& forall|k: int| 0 <= k < lines@.len() ==> (#[trigger] lines@[k])@ == st.0[k]
                &&& current@ == st.1
                &&& current_width == st.2
                &&& first_on_line == st.3
            }),
        decreases shortcuts@.len() - i,
    {
        proof {
            assert(hints_small(shortcuts@.take(i as int))) by {
                assert forall|j: int| 0 <= j < shortcuts@.take(i as int).len() implies
                    (#[trigger] shortcuts@.take(i as int)[j]).0@.len() < 4096 && shortcuts@.take(i as int)[j].1@.len() < 4096 by {
                    assert(shortcuts@.take(i as int)[j] == shortcuts@[j]);
                }
            }
            lemma_line_fold_bounds(shortcuts@.take(i as int), content_width as int);
            assert(i * 8200 <= 4096 * 8200) by (nonlinear_arith) requires i < 4096;
        }
        let item = shortcuts[i];
        let (key, desc) = item;
        assert(shortcuts@[i as int].0@.len() < 4096 && shortcuts@[i as int].1@.len() < 4096);
        let kl = key.unicode_len();
        let dl = desc.unicode_len();
        let sep: usize = if first_on_line { 0 } else { 2 };
        let item_width: usize = sep + kl + 2 + 1 + dl;
        let ghost old_lines = lines@;
        if !first_on_line && current_width + item_width > content_width {
            let mut done: Vec<Shortcut> = Vec::new();
            std::mem::swap(&mut done, &mut current);
            lines.push(done);
            current_width = 2;
            first_on_line = true;
        }
        if !first_on_line {
            current_width = current_width + 2;
        }
        current.push(item);
        current_width = current_width + kl + 2 + 1 + dl;
        first_on_line = false;
        assert(shortcuts@.take(i + 1).drop_last() =~= shortcuts@.take(i as int));
        assert(shortcuts@.take(i + 1).last() == shortcuts@[i as int]);
        proof {
            let st = line_fold(shortcuts@.take(i + 1), content_width as int);
            assert(current@ =~= st.1);
            assert forall|k: int| 0 <= k < lines@.len() implies (#[trigger] lines@[k])@ == st.0[k] by {
                if k < old_lines.len() {
                    assert(lines@[k] == old_lines[k]);
                }
            }
        }
        i = i + 1;
    }
    assert(shortcuts@.take(shortcuts@.len() as int) =~= shortcuts@);
    let ghost pre = lines@;
    lines.push(current);
    proof {
        let h = hint_lines(shortcuts@, content_width as int);
        assert forall|k: int| 0 <= k < lines@.len() implies (#[trigger] lines@[k])@ == h[k] by {
            if k < pre.len() {
                assert(lines@[k] == pre[k]);
            }
        }
    }
    lines
}

/// A screen rectangle.
#[derive(Clone, Copy, PartialEq, Eq, Debug, Structural)]
pub struct Rect {
    pub x: u16,
    pub y: u16,
    pub width: u16,
    pub height: u16,
}

/// A rectangle that stays on a `u16` screen (ratatui keeps its areas so).
pub open spec fn rect_ok(r: Rect) -> bool {
    r.x + r.width <= u16::MAX && r.y + r.height <= u16::MAX
}

pub open spec fn sat_sub(a: int, b: int) -> int {
    if a >= b { a - b } else { 0 }
}

pub open spec fn min_int(a: int, b: int) -> int {
    if a <= b { a } else { b }
}

pub open spec fn max_int(a: int, b: int) -> int {
    if a >= b { a } else { b }
}

/// A `width` by `height` box centred in `area`.
pub open spec fn centered(area: Rect, width: int, height: int) -> Rect {
    Rect {
        x: (area.x + sat_sub(area.width as int, width) / 2) as u16,
        y: (area.y + sat_sub(area.height as int, height) / 2) as u16,
        width: width as u16,
        height: height as u16,
    }
}

fn center_in(area: Rect, width: u16, height: u16) -> (r: Rect)
    requires
        rect_ok(area),
    ensures
        r == centered(area, width as int, height as int),
{
    let dx: u16 = if area.width >= width { (area.width - width) / 2 } else { 0 };
    let dy: u16 = if area.height >= height { (area.height - height) / 2 } else { 0 };
    Rect { x: area.x + dx, y: area.y + dy, width, height }
}

/// The widest key label (with its padding), 4 without hints.
pub open spec fn widest_key(items: Seq<Shortcut>) -> int
    decreases items.len(),
{
    if items.len() == 0 {
        4
    } else if items.len() == 1 {
        items[0].0@.len() + 2int
    } else {
        max_int(widest_key(items.drop_last()), items.last().0@.len() + 2int)
    }
}

/// The widest description, 4 without hints.
pub open spec fn widest_desc(items: Seq<Shortcut>) -> int
    decreases items.len(),
{
    if items.len() == 0 {
        4
    } else if items.len() == 1 {
        items[0].1@.len() as int
    } else {
        max_int(widest_desc(items.drop_last()), items.last().1@.len() as int)
    }
}

/// Where the help overlay goes: wide enough for the widest key and
/// description (but within the screen less four columns, and at least 30),
/// one row per hint plus borders (within the screen less two rows), centred.
pub open spec fn help_popup(area: Rect, items: Seq<Shortcut>) -> Rect {
    let inner = widest_key(items) + 1 + widest_desc(items) + 4;
    let width = max_int(min_int(inner + 2, sat_sub(area.width as int, 4)), 30);
    let height = min_int(items.len() + 2int, sat_sub(area.height as int, 2));
    centered(area, width, height)
}

proof fn lemma_widest_bounds(items: Seq<Shortcut>)
    requires
        hints_small(items),
    ensures
        0 <= widest_key(items) <= 4097,
        0 <= widest_desc(items) <= 4095,
    decreases items.len(),
{
    if items.len() > 1 {
        let p = items.drop_last();
        assert(hints_small(p)) by {
            assert forall|i: int| 0 <= i < p.len() implies (#[trigger] p[i]).0@.len() < 4096 && p[i].1@.len() < 4096 by {
                assert(p[i] == items[i]);
            }
        }
        lemma_widest_bounds(p);
        assert(items[items.len() - 1] == items.last());
    } else if items.len() == 1 {
        assert(items[0].0@.len() < 4096);
    }
}

/// Places the help overlay for these hints.
pub fn help_popup_area(area: Rect, shortcuts: &Vec<Shortcut>) -> (r: Rect)
    requires
        rect_ok(area),
        hints_small(shortcuts@),
    ensures
        r == help_popup(area, shortcuts@),
{
    let n = shortcuts.len();
    let mut max_key: usize = 4;
    let mut max_desc: usize = 4;
    let mut i: usize = 0;
    while i < n
        invariant
            n == shortcuts@.len(),
            i <= n,
            hints_small(shortcuts@),
            max_key == widest_key(shortcuts@.take(i as int)),
            max_desc == widest_desc(shortcuts@.take(i as int)),
        decreases n - i,
    {
        proof {
            assert(hints_small(shortcuts@.take(i as int))) by {
                assert forall|j: int| 0 <= j < shortcuts@.take(i as int).len() implies
                    (#[trigger] shortcuts@.take(i as int)[j]).0@.len() < 4096 && shortcuts@.take(i as int)[j].1@.len() < 4096 by {
                    assert(shortcuts@.take(i as int)[j] == shortcuts@[j]);
                }
            }
            lemma_widest_bounds(shortcuts@.take(i as int));
        }
        let (key, desc) = shortcuts[i];
        assert(shortcuts@[i as int].0@.len() < 4096 && shortcuts@[i as int].1@.len() < 4096);
        let kl: usize = key.unicode_len() + 2;
        let dl: usize = desc.unicode_len();
        assert(shortcuts@.take(i + 1).drop_last() =~= shortcuts@.take(i as int));
        assert(shortcuts@.take(i + 1).last() == shortcuts@[i as int]);
        if i == 0 {
            assert(shortcuts@.take(1)[0] == shortcuts@[0]);
            max_key = kl;
            max_desc = dl;
        } else {
            if kl > max_key {
                max_key = kl;
            }
            if dl > max_desc {
                max_desc = dl;
            }
        }
        i = i + 1;
    }
    assert(shortcuts@.take(n as int) =~= shortcuts@);
    proof {
        lemma_widest_bounds(shortcuts@);
    }
    let inner: u16 = (max_key + 1 + max_desc + 4) as u16;
    let room_w: u16 = if area.width >= 4 { area.width - 4 } else { 0 };
    let room_h: u16 = if area.height >= 2 { area.height - 2 } else { 0 };
    let w0: u16 = if inner + 2 <= room_w { inner + 2 } else { room_w };
    let width: u16 = if w0 >= 30 { w0 } else { 30 };
    let rows: u16 = n as u16 + 2;
    let height: u16 = if rows <= room_h { rows } else { room_h };
    center_in(area, width, height)
}

/// The text of the popup that asks to confirm deleting a task.
pub open spec fn task_popup_text(task_id: Seq<char>) -> Seq<char> {
    " Delete \""@ + task_id + "\" and all its history?  [y] Yes   [n] No "@
}

/// A one-line popup for `content`: its UTF-8 length (taken modulo 2^16, as
/// the `u16` cast does) plus four, within the screen less four columns, at
/// least `min_width`; three rows; centred.
pub open spec fn text_popup(area: Rect, content: Seq<char>, min_width: int) -> Rect {
    let len16 = byte_len(content) % 65536;
    let width = max_int(min_int(len16 + 4int, sat_sub(area.width as int, 4)), min_width);
    centered(area, width, 3)
}

/// Whether a popup text's length, cut to 16 bits, leaves room for the border.
pub open spec fn popup_text_fits(content: Seq<char>) -> bool {
    byte_len(content) % 65536 + 4 <= u16::MAX
}

/// The UTF-8 length of a text, as `str::len` gives it.
pub open spec fn byte_len(content: Seq<char>) -> int {
    vstd::utf8::encode_utf8(content).len() as usize as int
}

/// Places a one-line popup for `content` (see `text_popup`).
pub fn text_popup_area(area: Rect, content: &str, min_width: u16) -> (r: Rect)
    requires
        rect_ok(area),
        popup_text_fits(content@),
    ensures
        r == text_popup(area, content@, min_width as int),
{
    let len = content.len();
    assert(content.spec_bytes() == vstd::utf8::encode_utf8(content@));
    let len16: u16 = (len % 65536) as u16;
    let room_w: u16 = if area.width >= 4 { area.width - 4 } else { 0 };
    let w0: u16 = if len16 + 4 <= room_w { len16 + 4 } else { room_w };
    let width: u16 = if w0 >= min_width { w0 } else { min_width };
    center_in(area, width, 3)
}

/// Whether a text can be placed as a one-line popup.
pub fn popup_fits(content: &str) -> (r: bool)
    ensures
        r == popup_text_fits(content@),
{
    assert(content.spec_bytes() == vstd::utf8::encode_utf8(content@));
    content.len() % 65536 + 4 <= 65535
}

/// The question of the popup that confirms deleting a task.
pub fn confirm_task_text(task_id: &str) -> (r: String)
    ensures
        r@ == task_popup_text(task_id@),
{
    let mut content = String::new();
    push_text(&mut content, " Delete \"");
    push_text(&mut content, task_id);
    push_text(&mut content, "\" and all its history?  [y] Yes   [n] No ");
    assert(content@ =~= task_popup_text(task_id@));
    content
}

/// The text of the popup that asks to confirm deleting a run, given how its
/// time is shown.
pub open spec fn log_popup_text(shown_time: Seq<char>) -> Seq<char> {
    " Delete entry from "@ + shown_time + "?  [y] Yes   [n] No "@
}

/// The question of the popup that confirms deleting a run. A stored time
/// that reads as RFC 3339 is shown in local time (its second shifted by the
/// local offset) followed by how long ago it was, in parentheses; otherwise
/// the stored text is shown as it is.
pub fn confirm_log_text(raw_end_time: &str, now: &Timestamp) -> (r: String)
    ensures
        match rfc3339_instant(raw_end_time@) {
            None => r@ == log_popup_text(raw_end_time@),
            Some(t) => exists|local: Seq<char>| #[trigger] is_local_civil_text(local, t.0 as int) && r@ == log_popup_text(
                local + " ("@ + ago_text(now.instant() - (t.0 * 1_000_000_000 + t.1)) + ")"@,
            ),
        },
{
    let mut shown = String::new();
    match Timestamp::parse_rfc3339(raw_end_time) {
        Some(t) => {
            let local = t.format_local();
            let ago = format_ago(&now.signed_duration_since(&t));
            push_text(&mut shown, local.as_str());
            push_text(&mut shown, " (");
            push_text(&mut shown, ago.as_str());
            push_text(&mut shown, ")");
            assert(shown@ =~= local@ + " ("@ + ago_text(now.instant() - t.instant()) + ")"@);
        },
        None => {
            push_text(&mut shown, raw_end_time);
            assert(shown@ =~= raw_end_time@);
        },
    }
    let mut content = String::new();
    push_text(&mut content, " Delete entry from ");
    push_text(&mut content, shown.as_str());
    push_text(&mut content, "?  [y] Yes   [n] No ");
    assert(content@ =~= log_popup_text(shown@));
    content
}

} // verus!
