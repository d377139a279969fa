//! Reading task records out of the entries of a task manager's listing.
//!
//! A title reads `[<id>] <marker> <text> [<details>]`. The marker and the
//! details are optional; whatever cannot be read is passed over in silence,
//! so that one odd entry never costs the rest of the list.

use vstd::prelude::*;
use crate::task::{copy_opt, item_views, status_of, status_text, todo_views};
use crate::task::{AlfredItem, ItemView, Todo, TodoView};
use crate::text::{chars_of, find_char, parse_decimal, skip_char_run, trim_back, trim_front};
use crate::text::{decimal_u32, drop_spaces, first_at, is_space, skip_run, skip_spaces};
use crate::text::{lemma_drop_spaces, lemma_first_at, lemma_skip_spaces};

verus! {

/// The glyph that marks an open task in a title.
pub const TARGET_MARK: char = '\u{1F3AF}';

/// The glyph that marks a finished task, in a title or a subtitle.
pub const DONE_MARK: char = '\u{2705}';

/// Where the text begins in the window `[from, to)` that follows the
/// identifier: behind the first target mark, else behind the first done mark,
/// else at `from`.
pub open spec fn text_start(t: Seq<char>, from: int, to: int) -> int {
    let target = first_at(t, TARGET_MARK, from, to);
    let done = first_at(t, DONE_MARK, from, to);
    if target < to {
        target + 1
    } else if done < to {
        done + 1
    } else {
        from
    }
}

/// The identifier that a title carries in front of its first `]`: any run of
/// `[`, then a decimal number that white space may surround. `None` where
/// there is no `]` or no such number.
pub open spec fn title_id(t: Seq<char>) -> Option<u32> {
    let n = t.len() as int;
    let close = first_at(t, ']', 0, n);
    if close == n {
        None
    } else {
        let a = skip_spaces(t, skip_run(t, '[', 0, close), close);
        decimal_u32(t.subrange(a, drop_spaces(t, a, close)))
    }
}

/// The task text that a title carries behind its first `]`: what follows the
/// marker, up to the first `[`, without the white space around it. Empty
/// where the title has no `]`.
pub open spec fn title_text(t: Seq<char>) -> Seq<char> {
    let n = t.len() as int;
    let close = first_at(t, ']', 0, n);
    if close == n {
        Seq::empty()
    } else {
        let from = skip_spaces(t, close + 1, n);
        let to = drop_spaces(t, from, n);
        let start = text_start(t, from, to);
        let stop = first_at(t, '[', start, to);
        let a = skip_spaces(t, start, stop);
        t.subrange(a, drop_spaces(t, a, stop))
    }
}

/// What a title yields: its identifier and text, or `None` where the
/// identifier is missing, unreadable or zero, or the text is empty.
pub open spec fn title_fields(t: Seq<char>) -> Option<(u32, Seq<char>)> {
    match title_id(t) {
        Some(id) => if id != 0 && title_text(t).len() > 0 {
            Some((id, title_text(t)))
        } else {
            None
        },
        None => None,
    }
}

/// Whether a subtitle says that the task is finished.
pub open spec fn subtitle_done(subtitle: Option<Seq<char>>) -> bool {
    match subtitle {
        Some(s) => s.contains(DONE_MARK),
        None => false,
    }
}

/// The record that a listing entry yields, or `None` where its title yields none.
pub open spec fn item_todo(item: ItemView) -> Option<TodoView> {
    match title_fields(item.title) {
        Some((id, text)) => Some(
            TodoView {
                id,
                text,
                status: status_text(subtitle_done(item.subtitle)),
                description: item.subtitle,
                due_date: None,
                urgent: None,
                completed: subtitle_done(item.subtitle),
            },
        ),
        None => None,
    }
}

/// The records that a listing yields: one for each entry that yields one, in
/// the order of the listing.
pub open spec fn items_todos(items: Seq<ItemView>) -> Seq<TodoView>
    decreases items.len(),
{
    if items.len() == 0 {
        Seq::empty()
    } else {
        let front = items_todos(items.drop_last());
        match item_todo(items.last()) {
            Some(t) => front.push(t),
            None => front,
        }
    }
}

/// The text of a title holds no `[`, and neither starts nor ends with white space.
pub proof fn lemma_title_text_clean(t: Seq<char>)
    ensures
        !title_text(t).contains('['),
        title_text(t).len() > 0 ==> !is_space(title_text(t).first()) && !is_space(
            title_text(t).last(),
        ),
{
    let n = t.len() as int;
    let close = first_at(t, ']', 0, n);
    lemma_first_at(t, ']', 0, n);
    if close < n {
        let from = skip_spaces(t, close + 1, n);
        lemma_skip_spaces(t, close + 1, n);
        let to = drop_spaces(t, from, n);
        lemma_drop_spaces(t, from, n);
        let start = text_start(t, from, to);
        lemma_first_at(t, TARGET_MARK, from, to);
        lemma_first_at(t, DONE_MARK, from, to);
        let stop = first_at(t, '[', start, to);
        lemma_first_at(t, '[', start, to);
        let a = skip_spaces(t, start, stop);
        lemma_skip_spaces(t, start, stop);
        let b = drop_spaces(t, a, stop);
        lemma_drop_spaces(t, a, stop);
        assert forall|i: int| 0 <= i < b - a implies t.subrange(a, b)[i] != '[' by {
            assert(t.subrange(a, b)[i] == t[a + i]);
        }
    }
}

/// A listing yields at most one record for each entry, and every record it
/// yields has an identifier other than zero, a text that is not empty, and
/// a status text that says what its completion flag says.
pub proof fn lemma_items_todos(items: Seq<ItemView>)
    ensures
        items_todos(items).len() <= items.len(),
        forall|k: int|
            0 <= k < items_todos(items).len() ==> {
                let t = #[trigger] items_todos(items)[k];
                t.id != 0 && t.text.len() > 0 && t.is_consistent()
            },
    decreases items.len(),
{
    if items.len() > 0 {
        lemma_items_todos(items.drop_last());
        let front = items_todos(items.drop_last());
        assert forall|k: int| 0 <= k < items_todos(items).len() implies {
            let t = #[trigger] items_todos(items)[k];
            t.id != 0 && t.text.len() > 0 && t.is_consistent()
        } by {
            if k < front.len() {
                assert(items_todos(items)[k] == front[k]);
            }
        }
    }
}

/// A title with no `]` yields nothing, and neither does one whose identifier is zero.
pub proof fn lemma_title_skipped(t: Seq<char>)
    ensures
        !t.contains(']') ==> title_fields(t) is None,
        title_id(t) == Some(0u32) ==> title_fields(t) is None,
{
    let n = t.len() as int;
    lemma_first_at(t, ']', 0, n);
    if !t.contains(']') {
        let close = first_at(t, ']', 0, n);
        if close < n {
            assert(t[close] == ']');
        }
    }
}

/// Whether `s` holds the character `c`.
pub fn has_char(s: &str, c: char) -> (b: bool)
    ensures
        b == s@.contains(c),
{
    let v = chars_of(s);
    let i = find_char(&v, c, 0, v.len());
    i < v.len()
}

/// Reads the identifier and the text out of a title.
pub fn parse_title(title: &str) -> (r: Option<(u32, String)>)
    ensures
        match r {
            Some((id, text)) => title_fields(title@) == Some((id, text@)) && id != 0
                && text@.len() > 0,
            None => title_fields(title@) is None,
        },
{
    let t = chars_of(title);
    let n: usize = t.len();
    let close: usize = find_char(&t, ']', 0, n);
    if close == n {
        return None;
    }
    let id_from: usize = trim_front(&t, skip_char_run(&t, '[', 0, close), close);
    let id_to: usize = trim_back(&t, id_from, close);
    let id: u32 = match parse_decimal(&t, id_from, id_to) {
        Some(id) => id,
        None => {
            return None;
        },
    };
    if id == 0 {
        return None;
    }
    let from: usize = trim_front(&t, close + 1, n);
    let to: usize = trim_back(&t, from, n);
    let target: usize = find_char(&t, TARGET_MARK, from, to);
    let done: usize = find_char(&t, DONE_MARK, from, to);
    let start: usize = if target < to {
        target + 1
    } else if done < to {
        done + 1
    } else {
        from
    };
    let stop: usize = find_char(&t, '[', start, to);
    let a: usize = trim_front(&t, start, stop);
    let b: usize = trim_back(&t, a, stop);
    if a == b {
        return None;
    }
    let text = title.substring_char(a, b).to_owned();
    Some((id, text))
}

/// Whether a subtitle says that the task is finished.
pub fn is_done(subtitle: &Option<String>) -> (b: bool)
    ensures
        b == subtitle_done(crate::task::opt_text(*subtitle)),
{
    match subtitle {
        Some(s) => has_char(s.as_str(), DONE_MARK),
        None => false,
    }
}

/// Reads a record out of one listing entry.
pub fn todo_from_item(item: &AlfredItem) -> (r: Option<Todo>)
    ensures
        match r {
            Some(t) => item_todo(item@) == Some(t@),
            None => item_todo(item@) is None,
        },
{
    match parse_title(item.title.as_str()) {
        Some((id, text)) => {
            let completed = is_done(&item.subtitle);
            Some(
                Todo {
                    id,
                    text,
                    status: status_of(completed),
                    description: copy_opt(&item.subtitle),
                    due_date: None,
                    urgent: None,
                    completed,
                },
            )
        },
        None => None,
    }
}

/// Reads the records out of a listing, passing over the entries that yield none.
pub fn todos_from_items(items: &Vec<AlfredItem>) -> (r: Vec<Todo>)
    ensures
        todo_views(r@) == items_todos(item_views(items@)),
        forall|i: int| 0 <= i < r.len() ==> (#[trigger] r[i]).id != 0 && r[i]@.is_consistent(),
{
    let mut out: Vec<Todo> = Vec::new();
    let mut i: usize = 0;
    assert(item_views(items@).take(0) =~= Seq::<ItemView>::empty());
    assert(todo_views(out@) =~= Seq::<TodoView>::empty());
    while i < items.len()
        invariant
            i <= items.len(),
            todo_views(out@) == items_todos(item_views(items@).take(i as int)),
            forall|k: int|
                0 <= k < out.len() ==> (#[trigger] out[k]).id != 0 && out[k]@.is_consistent(),
        decreases items.len() - i,
    {
        let ghost before = todo_views(out@);
        let ghost views = item_views(items@);
        assert(views.take(i + 1).drop_last() =~= views.take(i as int));
        assert(views.take(i + 1).last() == items[i as int]@);
        match todo_from_item(&items[i]) {
            Some(t) => {
                out.push(t);
                assert(todo_views(out@) =~= before.push(t@));
            },
            None => {},
        }
        i += 1;
    }
    assert(item_views(items@).take(items.len() as int) =~= item_views(items@));
    out
}

} // verus!
