//! The `/todos` reply and the paged todo keyboard.

use vstd::prelude::*;
use vstd::utf8::{encode_scalar, encode_utf8};
use crate::models::Button;
use crate::text::{
    char_utf8_width, decimal, fits_utf8, has_prefix, has_suffix, join, join_seq, push_str, to_owned,
    u64_to_decimal,
};

verus! {

/// A todo item.
pub struct TodoEntry {
    pub id: String,
    pub description: String,
    pub completed: bool,
    pub created_at: String,
    pub updated_at: Option<String>,
}

/// How many of the leading characters of `s` fit in `budget` UTF-8 bytes.
pub open spec fn chars_within(s: Seq<char>, budget: nat) -> nat
    decreases s.len(),
{
    if s.len() == 0 {
        0
    } else if encode_scalar(s[0] as u32).len() > budget {
        0
    } else {
        1 + chars_within(s.drop_first(), (budget - encode_scalar(s[0] as u32).len()) as nat)
    }
}

/// A button label that fits Telegram's limit: labels of at most 62 bytes
/// as they are, longer ones cut to the longest prefix of at most 59 bytes
/// followed by `…`.
pub open spec fn spec_truncate_button_label(label: Seq<char>) -> Seq<char> {
    if encode_utf8(label).len() <= 62 {
        label
    } else {
        label.take(chars_within(label, 59) as int) + "…"@
    }
}

/// The ellipsis `…` takes three bytes.
pub proof fn lemma_ellipsis_bytes()
    ensures
        encode_utf8("…"@).len() == 3,
{
    reveal_strlit("…");
    assert("…"@.drop_first() =~= Seq::<char>::empty());
    assert(encode_utf8(Seq::<char>::empty()) =~= Seq::<u8>::empty());
    assert(('…' as u32) == 0x2026u32);
    assert(encode_scalar('…' as u32).len() == 3);
    assert(encode_utf8("…"@) =~= encode_scalar('…' as u32));
}

/// A button label takes at most 62 bytes, within Telegram's limit on
/// button text.
pub proof fn lemma_button_label_fits(label: Seq<char>)
    ensures
        encode_utf8(spec_truncate_button_label(label)).len() <= 62,
{
    if encode_utf8(label).len() > 62 {
        let cut = label.take(chars_within(label, 59) as int);
        crate::telegram::lemma_chars_within_bound(label, 59);
        lemma_ellipsis_bytes();
        crate::text::lemma_encode_utf8_concat(cut, "…"@);
    }
}

/// A button label that fits Telegram's limit.
pub fn truncate_button_label(label: &str) -> (r: String)
    ensures
        r@ == spec_truncate_button_label(label@),
{
    if fits_utf8(label, 62) {
        return to_owned(label);
    }
    let n = label.unicode_len();
    let mut budget: usize = 59;
    let mut i: usize = 0;
    proof {
        assert(label@.skip(0) =~= label@);
    }
    loop
        invariant
            n == label@.len(),
            i <= n,
            budget <= 59,
            chars_within(label@, 59) == i + chars_within(label@.skip(i as int), budget as nat),
        ensures
            chars_within(label@, 59) == i,
            i <= n,
        decreases n - i,
    {
        if i == n {
            assert(label@.skip(i as int).len() == 0);
            break;
        }
        let w = char_utf8_width(label.get_char(i));
        proof {
            assert(label@.skip(i as int)[0] == label@[i as int]);
            assert(label@.skip(i as int).drop_first() =~= label@.skip(i + 1));
        }
        if w > budget {
            break;
        }
        budget = budget - w;
        i += 1;
    }
    let mut r = to_owned(label.substring_char(0, i));
    push_str(&mut r, "…");
    r
}

/// The mark of a todo.
pub open spec fn status_mark(completed: bool) -> Seq<char> {
    if completed {
        "✅"@
    } else {
        "⬜"@
    }
}

/// The line of todo number `i` (from 0) in the `/todos` reply.
pub open spec fn todo_line(i: nat, t: TodoEntry, details: bool) -> Seq<char> {
    if details {
        decimal(i + 1) + ". "@ + status_mark(t.completed) + " `"@ + t.id@ + "` — "@
            + t.description@ + "\n   Created: "@ + t.created_at@ + " | Updated: "@ + match t.updated_at {
            Some(u) => u@,
            None => "never"@,
        }
    } else {
        decimal(i + 1) + ". "@ + status_mark(t.completed) + " "@ + t.description@
    }
}

/// The `/todos` reply (before Markdown escaping).
pub open spec fn spec_todos_text(todos: Seq<TodoEntry>, details: bool) -> Seq<char> {
    if todos.len() == 0 {
        "No todos for this chat."@
    } else {
        let header = if details {
            "*"@ + decimal(todos.len()) + " todo(s) (detailed):*"@
        } else {
            "*"@ + decimal(todos.len()) + " todo(s):*"@
        };
        join_seq(
            seq![header] + Seq::new(todos.len(), |i: int| todo_line(i as nat, todos[i], details)),
            "\n"@,
        )
    }
}

fn append_mark(out: &mut String, completed: bool)
    ensures
        final(out)@ == old(out)@ + status_mark(completed),
{
    if completed {
        push_str(out, "✅");
    } else {
        push_str(out, "⬜");
    }
}

fn todo_line_exec(i: usize, t: &TodoEntry, details: bool) -> (r: String)
    requires
        i < usize::MAX,
    ensures
        r@ == todo_line(i as nat, *t, details),
{
    let mut out = u64_to_decimal((i + 1) as u64);
    push_str(&mut out, ". ");
    append_mark(&mut out, t.completed);
    if details {
        push_str(&mut out, " `");
        push_str(&mut out, t.id.as_str());
        push_str(&mut out, "` — ");
        push_str(&mut out, t.description.as_str());
        push_str(&mut out, "\n   Created: ");
        push_str(&mut out, t.created_at.as_str());
        push_str(&mut out, " | Updated: ");
        match &t.updated_at {
            Some(u) => push_str(&mut out, u.as_str()),
            None => push_str(&mut out, "never"),
        }
    } else {
        push_str(&mut out, " ");
        push_str(&mut out, t.description.as_str());
    }
    out
}

/// The `/todos` reply (before Markdown escaping).
pub fn todos_text(todos: &Vec<TodoEntry>, details: bool) -> (r: String)
    ensures
        r@ == spec_todos_text(todos@, details),
{
    let n = todos.len();
    if n == 0 {
        return to_owned("No todos for this chat.");
    }
    let mut header = to_owned("*");
    let count = u64_to_decimal(n as u64);
    push_str(&mut header, count.as_str());
    if details {
        push_str(&mut header, " todo(s) (detailed):*");
    } else {
        push_str(&mut header, " todo(s):*");
    }
    let ghost hv = header@;
    let mut lines: Vec<String> = Vec::new();
    lines.push(header);
    let mut i: usize = 0;
    proof {
        assert(lines@.map_values(|s: String| s@) =~= seq![hv] + Seq::new(
            0,
            |k: int| todo_line(k as nat, todos@[k], details),
        ));
    }
    while i < n
        invariant
            n == todos@.len(),
            i <= n,
            lines@.map_values(|s: String| s@) == seq![hv] + Seq::new(
                i as nat,
                |k: int| todo_line(k as nat, todos@[k], details),
            ),
        decreases n - i,
    {
        let line = todo_line_exec(i, &todos[i], details);
        let ghost before = lines@.map_values(|s: String| s@);
        lines.push(line);
        assert(lines@.map_values(|s: String| s@) =~= before.push(todo_line(i as nat, todos@[i as int], details)));
        assert(Seq::new((i + 1) as nat, |k: int| todo_line(k as nat, todos@[k], details)) =~= Seq::new(
            i as nat,
            |k: int| todo_line(k as nat, todos@[k], details),
        ).push(todo_line(i as nat, todos@[i as int], details)));
        assert(lines@.map_values(|s: String| s@) =~= seq![hv] + Seq::new(
            (i + 1) as nat,
            |k: int| todo_line(k as nat, todos@[k], details),
        ));
        i += 1;
    }
    join(&lines, "\n")
}

/// How many keyboard pages `total` todos take.
pub open spec fn page_count(total: nat) -> nat {
    ((total + 7) / 8) as nat
}

/// The page actually shown: the requested one, at most the last.
pub open spec fn shown_page(total: nat, page: nat) -> nat {
    let pages = page_count(total);
    if pages == 0 {
        0
    } else if page < pages {
        page
    } else {
        (pages - 1) as nat
    }
}

/// A button viewed as its label and data.
pub open spec fn button_view(b: Button) -> (Seq<char>, Seq<char>) {
    (b.label@, b.data@)
}

/// Rows of buttons viewed.
pub open spec fn rows_view(rows: Seq<Vec<Button>>) -> Seq<Seq<(Seq<char>, Seq<char>)>> {
    rows.map_values(|r: Vec<Button>| r@.map_values(|b: Button| button_view(b)))
}

/// The button of a todo.
pub open spec fn todo_button(t: TodoEntry) -> (Seq<char>, Seq<char>) {
    (
        spec_truncate_button_label(status_mark(t.completed) + " "@ + t.description@),
        "todo:toggle:"@ + t.id@,
    )
}

/// The navigation row of page `page` out of `pages`.
pub open spec fn nav_row(page: nat, pages: nat) -> Seq<(Seq<char>, Seq<char>)> {
    let prev = if page > 0 {
        seq![("◀️ Prev"@, "todo:menu:"@ + decimal((page - 1) as nat))]
    } else {
        Seq::empty()
    };
    let next = if page + 1 < pages {
        seq![("Next ▶️"@, "todo:menu:"@ + decimal(page + 1))]
    } else {
        Seq::empty()
    };
    prev + seq![(decimal(page + 1) + "/"@ + decimal(pages), "noop"@)] + next
}

/// A page of the todo keyboard: its text and its rows of buttons.
pub struct TodoMenu {
    pub text: String,
    pub rows: Vec<Vec<Button>>,
}

/// The todo keyboard page: for no todos a closing note and no buttons; else
/// a header naming the todos shown, one button per todo of the page, a
/// navigation row, and a close button.
pub open spec fn todo_menu_matches(m: TodoMenu, todos: Seq<TodoEntry>, page: nat) -> bool {
    let total = todos.len();
    if total == 0 {
        &&& m.text@ == "✅ *All done\\!* No todos remaining."@
        &&& m.rows@.len() == 0
    } else {
        let pages = page_count(total);
        let p = shown_page(total, page);
        let start = p * 8;
        let end = if start + 8 < total {
            start + 8
        } else {
            total
        };
        let rows = rows_view(m.rows@);
        &&& m.text@ == "*Todos \\("@ + decimal(start + 1) + "—"@ + decimal(end as nat) + " of "@
            + decimal(total) + "\\):*"@
        &&& rows.len() == end - start + 2
        &&& forall|i: int|
            0 <= i < end - start ==> #[trigger] rows[i] == seq![todo_button(todos[start + i])]
        &&& rows[end - start] == nav_row(p, pages as nat)
        &&& rows[end - start + 1] == seq![("✖️ Close"@, "todo:close"@)]
    }
}

fn button(label: String, data: String) -> (b: Button)
    ensures
        b.label@ == label@,
        b.data@ == data@,
{
    Button { label, data }
}

fn menu_data(page: usize) -> (r: String)
    ensures
        r@ == "todo:menu:"@ + decimal(page as nat),
{
    let mut r = to_owned("todo:menu:");
    let d = u64_to_decimal(page as u64);
    push_str(&mut r, d.as_str());
    r
}

/// The todo keyboard page for `page`.
pub fn todo_menu(todos: &Vec<TodoEntry>, page: usize) -> (r: TodoMenu)
    ensures
        todo_menu_matches(r, todos@, page as nat),
{
    let total = todos.len();
    if total == 0 {
        return TodoMenu {
            text: to_owned("✅ *All done\\!* No todos remaining."),
            rows: Vec::new(),
        };
    }
    let pages = total / 8 + if total % 8 == 0 { 0 } else { 1 };
    assert(pages == page_count(total as nat));
    let p = if page < pages { page } else { pages - 1 };
    assert(p * 8 < total) by (nonlinear_arith)
        requires
            p < pages,
            pages == total / 8 + if total % 8 == 0 { 0int } else { 1int },
            total > 0,
    ;
    let start = p * 8;
    let end = if total - start > 8 { start + 8 } else { total };
    let mut text = to_owned("*Todos \\(");
    let a = u64_to_decimal((start + 1) as u64);
    push_str(&mut text, a.as_str());
    push_str(&mut text, "—");
    let b = u64_to_decimal(end as u64);
    push_str(&mut text, b.as_str());
    push_str(&mut text, " of ");
    let c = u64_to_decimal(total as u64);
    push_str(&mut text, c.as_str());
    push_str(&mut text, "\\):*");
    let mut rows: Vec<Vec<Button>> = Vec::new();
    let mut i: usize = start;
    while i < end
        invariant
            start <= i <= end <= total,
            total == todos@.len(),
            rows@.len() == i - start,
            forall|k: int|
                0 <= k < i - start ==> #[trigger] rows_view(rows@)[k] == seq![
                    todo_button(todos@[start + k]),
                ],
        decreases end - i,
    {
        let t = &todos[i];
        let mut label = String::new();
        append_mark(&mut label, t.completed);
        push_str(&mut label, " ");
        push_str(&mut label, t.description.as_str());
        let label = truncate_button_label(label.as_str());
        let mut data = to_owned("todo:toggle:");
        push_str(&mut data, t.id.as_str());
        let mut row: Vec<Button> = Vec::new();
        row.push(button(label, data));
        let ghost before = rows@;
        rows.push(row);
        proof {
            assert forall|k: int| 0 <= k < i + 1 - start implies #[trigger] rows_view(rows@)[k]
                == seq![todo_button(todos@[start + k])] by {
                if k < i - start {
                    assert(rows@[k] == before[k]);
                    assert(rows_view(rows@)[k] == rows_view(before)[k]);
                } else {
                    assert(rows_view(rows@)[k] =~= seq![todo_button(todos@[start + k])]);
                }
            }
        }
        i += 1;
    }
    let mut nav: Vec<Button> = Vec::new();
    if p > 0 {
        nav.push(button(to_owned("◀️ Prev"), menu_data(p - 1)));
    }
    let mut counter = u64_to_decimal((p + 1) as u64);
    push_str(&mut counter, "/");
    let pg = u64_to_decimal(pages as u64);
    push_str(&mut counter, pg.as_str());
    nav.push(button(counter, to_owned("noop")));
    if p + 1 < pages {
        nav.push(button(to_owned("Next ▶️"), menu_data(p + 1)));
    }
    assert(nav@.map_values(|b: Button| button_view(b)) =~= nav_row(p as nat, pages as nat));
    let ghost before_nav = rows@;
    rows.push(nav);
    let mut close: Vec<Button> = Vec::new();
    close.push(button(to_owned("✖️ Close"), to_owned("todo:close")));
    assert(close@.map_values(|b: Button| button_view(b)) =~= seq![("✖️ Close"@, "todo:close"@)]);
    let ghost before_close = rows@;
    rows.push(close);
    proof {
        assert forall|k: int| 0 <= k < end - start implies #[trigger] rows_view(rows@)[k] == seq![
            todo_button(todos@[start + k]),
        ] by {
            assert(rows@[k] == before_nav[k]);
            assert(rows_view(rows@)[k] == rows_view(before_nav)[k]);
        }
    }
    TodoMenu { text, rows }
}

/// The confirmation shown after toggling a todo: its new state and description.
pub open spec fn spec_toggle_confirmation(done: bool, description: Seq<char>) -> Seq<char> {
    "Marked "@ + (if done {
        "done ✅"@
    } else {
        "reopened 🔄"@
    }) + ": "@ + description
}

/// The confirmation shown after toggling a todo.
pub fn toggle_confirmation(done: bool, description: &str) -> (r: String)
    ensures
        r@ == spec_toggle_confirmation(done, description@),
{
    let mut r = to_owned("Marked ");
    if done {
        push_str(&mut r, "done ✅");
    } else {
        push_str(&mut r, "reopened 🔄");
    }
    push_str(&mut r, ": ");
    push_str(&mut r, description);
    r
}


/// In the detailed `/todos` listing a todo's line ends with the time it was
/// last updated, or `never` when it has not been; in the short listing it
/// ends with the description.
pub proof fn lemma_todo_line_ends(i: nat, t: TodoEntry)
    ensures
        match t.updated_at {
            Some(u) => has_suffix(todo_line(i, t, true), " | Updated: "@ + u@),
            None => has_suffix(todo_line(i, t, true), " | Updated: never"@),
        },
        has_suffix(todo_line(i, t, false), " "@ + t.description@),
        has_prefix(todo_line(i, t, true), decimal(i + 1) + ". "@ + status_mark(t.completed)),
        has_prefix(
            todo_line(i, t, true),
            decimal(i + 1) + ". "@ + status_mark(t.completed) + " `"@ + t.id@ + "` — "@
                + t.description@ + "\n"@,
        ),
        has_suffix(
            todo_line(i, t, true),
            "\n   Created: "@ + t.created_at@ + " | Updated: "@ + match t.updated_at {
                Some(u) => u@,
                None => "never"@,
            },
        ),
        has_prefix(todo_line(i, t, false), decimal(i + 1) + ". "@ + status_mark(t.completed) + " "@),
{
    reveal_strlit(" | Updated: never");
    reveal_strlit(" | Updated: ");
    reveal_strlit("never");
    assert(" | Updated: never"@ =~= " | Updated: "@ + "never"@);
    let head = decimal(i + 1) + ". "@ + status_mark(t.completed);
    let d = todo_line(i, t, true);
    let tail = match t.updated_at {
        Some(u) => " | Updated: "@ + u@,
        None => " | Updated: never"@,
    };
    let mid = " `"@ + t.id@ + "` — "@ + t.description@ + "\n   Created: "@ + t.created_at@;
    assert(d =~= head + mid + tail);
    assert(d.subrange(d.len() - tail.len(), d.len() as int) =~= tail);
    assert(d.subrange(0, head.len() as int) =~= head);
    reveal_strlit("\n   Created: ");
    reveal_strlit("\n");
    let first = head + " `"@ + t.id@ + "` — "@ + t.description@ + "\n"@;
    let second = "\n   Created: "@ + t.created_at@ + " | Updated: "@ + match t.updated_at {
        Some(u) => u@,
        None => "never"@,
    };
    assert(d =~= head + " `"@ + t.id@ + "` — "@ + t.description@ + second);
    assert(d.subrange(0, first.len() as int) =~= first);
    assert(d.subrange(d.len() - second.len(), d.len() as int) =~= second);
    let s = todo_line(i, t, false);
    let e = " "@ + t.description@;
    assert(s =~= head + e);
    assert(s.subrange(s.len() - e.len(), s.len() as int) =~= e);
    assert(s.subrange(0, (head + " "@).len() as int) =~= head + " "@);
}

/// The `/todos` listing counts the todos in its first line and has the line
/// of every todo, in the detailed or the short form.
pub proof fn lemma_todos_listed(todos: Seq<TodoEntry>, details: bool)
    ensures
        todos.len() == 0 ==> spec_todos_text(todos, details) == "No todos for this chat."@,
        todos.len() > 0 ==> has_prefix(
            spec_todos_text(todos, details),
            "*"@ + decimal(todos.len()) + if details {
                " todo(s) (detailed):*"@
            } else {
                " todo(s):*"@
            },
        ),
        forall|k: int|
            0 <= k < todos.len() ==> crate::text::contains_seq(
                spec_todos_text(todos, details),
                todo_line(k as nat, #[trigger] todos[k], details),
            ),
{
    if todos.len() > 0 {
        let header = if details {
            "*"@ + decimal(todos.len()) + " todo(s) (detailed):*"@
        } else {
            "*"@ + decimal(todos.len()) + " todo(s):*"@
        };
        let parts = seq![header] + Seq::new(todos.len(), |i: int| todo_line(i as nat, todos[i], details));
        crate::text::lemma_join_has_parts(parts, "\n"@);
        assert(parts[0] == header);
        assert forall|k: int| 0 <= k < todos.len() implies crate::text::contains_seq(
            spec_todos_text(todos, details),
            todo_line(k as nat, #[trigger] todos[k], details),
        ) by {
            assert(parts[k + 1] == todo_line(k as nat, todos[k], details));
        }
    }
}
} // verus!
