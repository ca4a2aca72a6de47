//! Pieces of the Codex client that involve no I/O: the endpoint URL, the
//! speaker prefix of user messages, and the framing of server-sent events.

use vstd::prelude::*;
use crate::text::{chars_vec, ends_with, has_prefix, has_suffix, is_whitespace, is_ws, join_seq, push_char, push_str, to_owned, trim_start};

verus! {

/// `s` without trailing `/` characters.
pub open spec fn trim_trailing_slashes(s: Seq<char>) -> Seq<char>
    decreases s.len(),
{
    if s.len() > 0 && s.last() == '/' {
        trim_trailing_slashes(s.drop_last())
    } else {
        s
    }
}

/// The Responses endpoint under a base URL: the base (without trailing
/// slashes) if it already ends in `/codex/responses`, with `/responses`
/// appended if it ends in `/codex`, else with `/codex/responses` appended.
pub open spec fn spec_codex_endpoint(base_url: Seq<char>) -> Seq<char> {
    let base = trim_trailing_slashes(base_url);
    if has_suffix(base, "/codex/responses"@) {
        base
    } else if has_suffix(base, "/codex"@) {
        base + "/responses"@
    } else {
        base + "/codex/responses"@
    }
}

/// The Responses endpoint under a base URL.
pub fn codex_endpoint(base_url: &str) -> (r: String)
    ensures
        r@ == spec_codex_endpoint(base_url@),
{
    let mut j = base_url.unicode_len();
    proof {
        assert(base_url@.subrange(0, j as int) =~= base_url@);
    }
    loop
        invariant
            j <= base_url@.len(),
            trim_trailing_slashes(base_url@) == trim_trailing_slashes(
                base_url@.subrange(0, j as int),
            ),
        ensures
            j <= base_url@.len(),
            trim_trailing_slashes(base_url@) == base_url@.subrange(0, j as int),
        decreases j,
    {
        if j == 0 || base_url.get_char(j - 1) != '/' {
            break;
        }
        proof {
            assert(base_url@.subrange(0, j as int).drop_last() =~= base_url@.subrange(
                0,
                j - 1,
            ));
        }
        j -= 1;
    }
    let base = base_url.substring_char(0, j);
    if ends_with(base, "/codex/responses") {
        to_owned(base)
    } else if ends_with(base, "/codex") {
        let mut r = to_owned(base);
        push_str(&mut r, "/responses");
        r
    } else {
        let mut r = to_owned(base);
        push_str(&mut r, "/codex/responses");
        r
    }
}

/// The endpoint always ends in `/codex/responses`, and taking the endpoint of
/// an endpoint changes nothing.
pub proof fn lemma_codex_endpoint_is_stable(base_url: Seq<char>)
    ensures
        has_suffix(spec_codex_endpoint(base_url), "/codex/responses"@),
        spec_codex_endpoint(spec_codex_endpoint(base_url)) == spec_codex_endpoint(base_url),
{
    reveal_strlit("/codex/responses");
    reveal_strlit("/responses");
    reveal_strlit("/codex");
    let base = trim_trailing_slashes(base_url);
    let e = spec_codex_endpoint(base_url);
    let suffix = "/codex/responses"@;
    if has_suffix(base, suffix) {
    } else if has_suffix(base, "/codex"@) {
        let head = "/codex"@;
        let tail = "/responses"@;
        assert(base.subrange(base.len() - 6, base.len() as int) == head);
        assert(e == base + tail);
        assert forall|i: int| 0 <= i < 16 implies #[trigger] e.subrange(
            e.len() - 16,
            e.len() as int,
        )[i] == suffix[i] by {
            if i < 6 {
                assert(e[e.len() - 16 + i] == base[base.len() - 6 + i]);
                assert(base[base.len() - 6 + i] == base.subrange(
                    base.len() - 6,
                    base.len() as int,
                )[i]);
            } else {
                assert(e[e.len() - 16 + i] == tail[i - 6]);
            }
        }
        assert(e.subrange(e.len() - suffix.len(), e.len() as int) =~= suffix);
    } else {
        assert(e.subrange(e.len() - suffix.len(), e.len() as int) =~= suffix);
    }
    // the endpoint ends in `s`, so it has no trailing slash to trim
    assert(has_suffix(e, suffix));
    assert(e.subrange(e.len() - 16, e.len() as int)[15] == suffix[15]);
    assert(e.last() == 's');
    assert(trim_trailing_slashes(e) == e);
}

/// A user message's text, prefixed by `[name]` and a newline when the speaker's name is known.
pub open spec fn spec_with_name(text: Seq<char>, name: Option<Seq<char>>) -> Seq<char> {
    match name {
        Some(n) => "["@ + n + "]\n"@ + text,
        None => text,
    }
}

/// A user message's text with the speaker's name prefixed when it is known.
pub fn with_name(text: &str, name: Option<&str>) -> (r: String)
    ensures
        r@ == spec_with_name(text@, crate::config::opt_view(name)),
{
    match name {
        Some(n) => {
            let mut r = to_owned("[");
            push_str(&mut r, n);
            push_str(&mut r, "]\n");
            push_str(&mut r, text);
            r
        },
        None => to_owned(text),
    }
}


/// `s` with every `\r\n` replaced by `\n` (as `str::replace`).
pub open spec fn replace_crlf(s: Seq<char>) -> Seq<char>
    decreases s.len(),
{
    if s.len() == 0 {
        Seq::empty()
    } else if s.len() >= 2 && s[0] == '\r' && s[1] == '\n' {
        seq!['\n'] + replace_crlf(s.skip(2))
    } else {
        seq![s[0]] + replace_crlf(s.drop_first())
    }
}

/// The pieces of `cur + s` split at each `\n\n` (as `str::split("\n\n")`),
/// where `cur` is the start of the current piece.
pub open spec fn blocks_from(cur: Seq<char>, s: Seq<char>) -> Seq<Seq<char>>
    decreases s.len(),
{
    if s.len() == 0 {
        seq![cur]
    } else if s.len() >= 2 && s[0] == '\n' && s[1] == '\n' {
        seq![cur] + blocks_from(Seq::empty(), s.skip(2))
    } else {
        blocks_from(cur.push(s[0]), s.drop_first())
    }
}

/// A line without its `\r`, for a line that ended in `\r\n`.
pub open spec fn strip_cr(line: Seq<char>) -> Seq<char> {
    if line.len() > 0 && line.last() == '\r' {
        line.drop_last()
    } else {
        line
    }
}

/// The lines of `cur + s` (as `str::lines`), where `cur` is the start of the current line.
pub open spec fn lines_from(cur: Seq<char>, s: Seq<char>) -> Seq<Seq<char>>
    decreases s.len(),
{
    if s.len() == 0 {
        if cur.len() == 0 {
            Seq::empty()
        } else {
            seq![cur]
        }
    } else if s[0] == '\n' {
        seq![strip_cr(cur)] + lines_from(Seq::empty(), s.drop_first())
    } else {
        lines_from(cur.push(s[0]), s.drop_first())
    }
}

/// The values of the `data:` lines, each without leading whitespace.
pub open spec fn data_values(lines: Seq<Seq<char>>) -> Seq<Seq<char>>
    decreases lines.len(),
{
    if lines.len() == 0 {
        Seq::empty()
    } else {
        data_values(lines.drop_last()) + if has_prefix(lines.last(), "data:"@) {
            seq![trim_start(lines.last().skip(5))]
        } else {
            Seq::empty()
        }
    }
}

/// The data of an event block: its `data:` values joined by newlines, if it has any.
pub open spec fn block_payload(block: Seq<char>) -> Option<Seq<char>> {
    let v = data_values(lines_from(Seq::empty(), block));
    if v.len() == 0 {
        None
    } else {
        Some(join_seq(v, "\n"@))
    }
}

/// The data of the blocks that have any, in order.
pub open spec fn payloads(blocks: Seq<Seq<char>>) -> Seq<Seq<char>>
    decreases blocks.len(),
{
    if blocks.len() == 0 {
        Seq::empty()
    } else {
        payloads(blocks.drop_last()) + match block_payload(blocks.last()) {
            Some(d) => seq![d],
            None => Seq::empty(),
        }
    }
}

/// The event data of a server-sent event stream: line endings normalised,
/// events separated by blank lines, and the `data:` lines of each event
/// joined by newlines; events without data are left out.
pub open spec fn spec_sse_data(body: Seq<char>) -> Seq<Seq<char>> {
    payloads(blocks_from(Seq::empty(), replace_crlf(body)))
}

proof fn lemma_lines_last(cur: Seq<char>, m: Seq<char>)
    requires
        !m.contains('\n'),
    ensures
        lines_from(cur, m) == if (cur + m).len() == 0 {
            Seq::<Seq<char>>::empty()
        } else {
            seq![cur + m]
        },
    decreases m.len(),
{
    if m.len() == 0 {
        assert(cur + m =~= cur);
    } else {
        assert(m[0] != '\n');
        assert(!m.drop_first().contains('\n')) by {
            if m.drop_first().contains('\n') {
                let k = choose|k: int| 0 <= k < m.drop_first().len() && m.drop_first()[k] == '\n';
                assert(m[k + 1] == '\n');
            }
        }
        lemma_lines_last(cur.push(m[0]), m.drop_first());
        assert(cur.push(m[0]) + m.drop_first() =~= cur + m);
    }
}

proof fn lemma_lines_split(cur: Seq<char>, l: Seq<char>, m: Seq<char>)
    requires
        !l.contains('\n'),
    ensures
        lines_from(cur, l + seq!['\n'] + m) == seq![strip_cr(cur + l)] + lines_from(
            Seq::empty(),
            m,
        ),
    decreases l.len(),
{
    let s = l + seq!['\n'] + m;
    if l.len() == 0 {
        assert(s[0] == '\n');
        assert(s.drop_first() =~= m);
        assert(cur + l =~= cur);
    } else {
        assert(s[0] == l[0]);
        assert(l[0] != '\n');
        assert(!l.drop_first().contains('\n')) by {
            if l.drop_first().contains('\n') {
                let k = choose|k: int| 0 <= k < l.drop_first().len() && l.drop_first()[k] == '\n';
                assert(l[k + 1] == '\n');
            }
        }
        assert(s.drop_first() =~= l.drop_first() + seq!['\n'] + m);
        lemma_lines_split(cur.push(l[0]), l.drop_first(), m);
        assert(cur.push(l[0]) + l.drop_first() =~= cur + l);
    }
}

/// The data of an event block does not depend on its other lines: a block
/// made of any line that is not a `data:` line followed by the line
/// `data: <x>` has the data `x`, as the block `data: <x>` alone does.
pub proof fn lemma_block_data_ignores_other_lines(l: Seq<char>, x: Seq<char>)
    requires
        !l.contains('\n'),
        !has_prefix(l, "data:"@),
        !x.contains('\n'),
        x.len() == 0 || !is_ws(x[0]),
    ensures
        block_payload("data: "@ + x) == Some(x),
        block_payload(l + "\n"@ + "data: "@ + x) == Some(x),
{
    reveal_strlit("data: ");
    reveal_strlit("data:");
    reveal_strlit("\n");
    let d = "data: "@ + x;
    assert(!d.contains('\n')) by {
        if d.contains('\n') {
            let k = choose|k: int| 0 <= k < d.len() && d[k] == '\n';
            if k >= 6 {
                assert(x[k - 6] == '\n');
            }
        }
    }
    lemma_lines_last(Seq::empty(), d);
    assert(Seq::<char>::empty() + d =~= d);
    assert(d.subrange(0, 5) =~= "data:"@);
    let rest = d.skip(5);
    assert(rest.len() > 0 && rest[0] == ' ');
    assert(rest.drop_first() =~= x);
    assert(trim_start(x) == x);
    assert(trim_start(rest) == x);
    assert(seq![d].drop_last() =~= Seq::<Seq<char>>::empty());
    assert(has_prefix(d, "data:"@));
    assert(seq![d].last() == d);
    assert(data_values(Seq::<Seq<char>>::empty()) == Seq::<Seq<char>>::empty());
    assert(data_values(seq![d]) == data_values(seq![d].drop_last()) + seq![trim_start(d.skip(5))]);
    assert(data_values(seq![d]) =~= seq![x]);
    assert(join_seq(seq![x], "\n"@) == x);
    // with a line before
    let a = strip_cr(l);
    lemma_lines_split(Seq::empty(), l, d);
    assert(l + "\n"@ + d =~= l + seq!['\n'] + d);
    assert(Seq::<char>::empty() + l =~= l);
    let ls = seq![a] + seq![d];
    assert(lines_from(Seq::empty(), l + "\n"@ + d) == ls);
    assert(!has_prefix(a, "data:"@)) by {
        if has_prefix(a, "data:"@) {
            assert(a.len() <= l.len());
            assert(l.subrange(0, 5) =~= a.subrange(0, 5));
        }
    }
    assert(ls.drop_last() =~= seq![a]);
    assert(seq![a].drop_last() =~= Seq::<Seq<char>>::empty());
    assert(data_values(seq![a]) =~= Seq::<Seq<char>>::empty());
    assert(data_values(ls) =~= seq![x]);
    assert(l + "\n"@ + "data: "@ + x =~= l + "\n"@ + d);
}

proof fn lemma_crlf_free(s: Seq<char>)
    requires
        !s.contains('\r'),
    ensures
        replace_crlf(s) == s,
    decreases s.len(),
{
    if s.len() > 0 {
        assert(s[0] != '\r');
        assert(!s.drop_first().contains('\r')) by {
            if s.drop_first().contains('\r') {
                let k = choose|k: int| 0 <= k < s.drop_first().len() && s.drop_first()[k] == '\r';
                assert(s[k + 1] == '\r');
            }
        }
        lemma_crlf_free(s.drop_first());
        assert(seq![s[0]] + s.drop_first() =~= s);
    }
}

proof fn lemma_blocks_split(cur: Seq<char>, a: Seq<char>, rest: Seq<char>)
    requires
        !a.contains('\n'),
    ensures
        blocks_from(cur, a + seq!['\n', '\n'] + rest) == seq![cur + a] + blocks_from(Seq::empty(), rest),
    decreases a.len(),
{
    let s = a + seq!['\n', '\n'] + rest;
    if a.len() == 0 {
        assert(s[0] == '\n' && s[1] == '\n');
        assert(s.skip(2) =~= rest);
        assert(cur + a =~= cur);
    } else {
        assert(s[0] == a[0] && a[0] != '\n');
        assert(!a.drop_first().contains('\n')) by {
            if a.drop_first().contains('\n') {
                let k = choose|k: int| 0 <= k < a.drop_first().len() && a.drop_first()[k] == '\n';
                assert(a[k + 1] == '\n');
            }
        }
        assert(s.drop_first() =~= a.drop_first() + seq!['\n', '\n'] + rest);
        lemma_blocks_split(cur.push(a[0]), a.drop_first(), rest);
        assert(cur.push(a[0]) + a.drop_first() =~= cur + a);
    }
}

proof fn lemma_one_data_line(x: Seq<char>)
    requires
        !x.contains('\n'),
        x.len() == 0 || !is_ws(x[0]),
    ensures
        data_values(lines_from(Seq::empty(), "data: "@ + x)) == seq![x],
        !("data: "@ + x).contains('\n'),
{
    reveal_strlit("data: ");
    reveal_strlit("data:");
    let d = "data: "@ + x;
    assert(!d.contains('\n')) by {
        if d.contains('\n') {
            let k = choose|k: int| 0 <= k < d.len() && d[k] == '\n';
            if k >= 6 {
                assert(x[k - 6] == '\n');
            }
        }
    }
    lemma_lines_last(Seq::empty(), d);
    assert(Seq::<char>::empty() + d =~= d);
    assert(d.subrange(0, 5) =~= "data:"@);
    let rest = d.skip(5);
    assert(rest.drop_first() =~= x);
    assert(trim_start(x) == x);
    assert(trim_start(rest) == x);
    assert(seq![d].drop_last() =~= Seq::<Seq<char>>::empty());
    assert(has_prefix(d, "data:"@));
    assert(data_values(seq![d]) == data_values(seq![d].drop_last()) + seq![trim_start(d.skip(5))]);
    assert(data_values(seq![d]) =~= seq![x]);
}

/// An event with several `data:` lines has their values joined by newlines.
pub proof fn lemma_block_data_lines_join(x: Seq<char>, y: Seq<char>)
    requires
        !x.contains('\n'),
        !y.contains('\n'),
        x.len() == 0 || !is_ws(x[0]),
        y.len() == 0 || !is_ws(y[0]),
        x.len() == 0 || x.last() != '\r',
    ensures
        block_payload("data: "@ + x + "\n"@ + "data: "@ + y) == Some(x + "\n"@ + y),
{
    reveal_strlit("data: ");
    reveal_strlit("data:");
    reveal_strlit("\n");
    let dx = "data: "@ + x;
    let dy = "data: "@ + y;
    lemma_one_data_line(x);
    lemma_one_data_line(y);
    lemma_lines_last(Seq::empty(), dy);
    assert(Seq::<char>::empty() + dy =~= dy);
    lemma_lines_split(Seq::empty(), dx, dy);
    assert(Seq::<char>::empty() + dx =~= dx);
    assert(strip_cr(dx) == dx);
    assert("data: "@ + x + "\n"@ + "data: "@ + y =~= dx + seq!['\n'] + dy);
    let ls = seq![dx] + seq![dy];
    lemma_lines_last(Seq::empty(), dx);
    assert(ls.drop_last() =~= seq![dx]);
    assert(ls.last() == dy);
    assert(lines_from(Seq::empty(), dx) == seq![dx]);
    assert(lines_from(Seq::empty(), dy) == seq![dy]);
    assert(dy.subrange(0, 5) =~= "data:"@);
    assert(dy.skip(5).drop_first() =~= y);
    assert(trim_start(y) == y);
    assert(data_values(ls) =~= seq![x, y]);
    assert(seq![x, y].drop_last() =~= seq![x]);
    assert(join_seq(seq![x], "\n"@) == x);
}

/// A stream of events separated by blank lines yields the data of each
/// event, in order.
pub proof fn lemma_sse_events_in_order(x: Seq<char>, y: Seq<char>)
    requires
        !x.contains('\n') && !x.contains('\r'),
        !y.contains('\n') && !y.contains('\r'),
        x.len() == 0 || !is_ws(x[0]),
        y.len() == 0 || !is_ws(y[0]),
    ensures
        spec_sse_data("data: "@ + x + "\n\n"@ + "data: "@ + y + "\n\n"@) == seq![x, y],
{
    reveal_strlit("data: ");
    reveal_strlit("\n\n");
    let dx = "data: "@ + x;
    let dy = "data: "@ + y;
    lemma_one_data_line(x);
    lemma_one_data_line(y);
    let body = dx + seq!['\n', '\n'] + (dy + seq!['\n', '\n'] + Seq::<char>::empty());
    assert("data: "@ + x + "\n\n"@ + "data: "@ + y + "\n\n"@ =~= body);
    assert(!body.contains('\r')) by {
        if body.contains('\r') {
            let k = choose|k: int| 0 <= k < body.len() && body[k] == '\r';
            if 6 <= k < 6 + x.len() {
                assert(x[k - 6] == '\r');
            } else if 6 + x.len() + 8 <= k < 6 + x.len() + 8 + y.len() {
                assert(y[k - 6 - x.len() - 8] == '\r');
            }
        }
    }
    lemma_crlf_free(body);
    lemma_blocks_split(Seq::empty(), dx, dy + seq!['\n', '\n'] + Seq::<char>::empty());
    lemma_blocks_split(Seq::empty(), dy, Seq::<char>::empty());
    assert(Seq::<char>::empty() + dx =~= dx);
    assert(Seq::<char>::empty() + dy =~= dy);
    let bs = seq![dx] + (seq![dy] + seq![Seq::<char>::empty()]);
    assert(blocks_from(Seq::empty(), body) == bs);
    assert(lines_from(Seq::<char>::empty(), Seq::<char>::empty()) == Seq::<Seq<char>>::empty());
    assert(block_payload(Seq::empty()) is None);
    assert(join_seq(seq![x], "\n"@) == x);
    assert(join_seq(seq![y], "\n"@) == y);
    assert(block_payload(dx) == Some(x));
    assert(block_payload(dy) == Some(y));
    assert(bs.drop_last() =~= seq![dx, dy]);
    assert(seq![dx, dy].drop_last() =~= seq![dx]);
    assert(seq![dx].drop_last() =~= Seq::<Seq<char>>::empty());
    assert(seq![dx].last() == dx);
    assert(payloads(Seq::<Seq<char>>::empty()) == Seq::<Seq<char>>::empty());
    assert(payloads(seq![dx]) == payloads(seq![dx].drop_last()) + seq![x]);
    assert(payloads(seq![dx]) =~= seq![x]);
    assert(seq![dx, dy].last() == dy);
    assert(bs.last() == Seq::<char>::empty());
    assert(payloads(seq![dx, dy]) =~= seq![x, y]);
    assert(payloads(bs) =~= seq![x, y]);
}

proof fn lemma_trim_slashes_prefix(s: Seq<char>)
    ensures
        has_prefix(s, trim_trailing_slashes(s)),
        trim_trailing_slashes(s).len() == 0 || trim_trailing_slashes(s).last() != '/',
        forall|i: int|
            trim_trailing_slashes(s).len() <= i < s.len() ==> #[trigger] s[i] == '/',
    decreases s.len(),
{
    if s.len() > 0 && s.last() == '/' {
        lemma_trim_slashes_prefix(s.drop_last());
        let t = trim_trailing_slashes(s);
        assert(s.subrange(0, t.len() as int) =~= s.drop_last().subrange(0, t.len() as int));
        assert forall|i: int| t.len() <= i < s.len() implies #[trigger] s[i] == '/' by {
            if i < s.len() - 1 {
                assert(s.drop_last()[i] == s[i]);
            }
        }
    } else {
        assert(s.subrange(0, s.len() as int) =~= s);
    }
}

/// The endpoint is the base URL without its trailing slashes, extended by at
/// most `/codex/responses`: the base is never cut, and only slashes are
/// dropped from it.
pub proof fn lemma_codex_endpoint_extends_base(base_url: Seq<char>)
    ensures
        has_prefix(spec_codex_endpoint(base_url), trim_trailing_slashes(base_url)),
        has_prefix(base_url, trim_trailing_slashes(base_url)),
        forall|i: int|
            trim_trailing_slashes(base_url).len() <= i < base_url.len() ==> #[trigger] base_url[i]
                == '/',
        spec_codex_endpoint(base_url).len() <= trim_trailing_slashes(base_url).len() + 16,
        !has_suffix(trim_trailing_slashes(base_url), "/codex"@) && !has_suffix(
            trim_trailing_slashes(base_url),
            "/codex/responses"@,
        ) ==> spec_codex_endpoint(base_url) == trim_trailing_slashes(base_url) + "/codex/responses"@,
{
    reveal_strlit("/codex/responses");
    reveal_strlit("/responses");
    lemma_trim_slashes_prefix(base_url);
    let b = trim_trailing_slashes(base_url);
    let e = spec_codex_endpoint(base_url);
    assert(e.subrange(0, b.len() as int) =~= b);
}

/// A named message is its sender's name in brackets on a line of its own,
/// followed by the text; an unnamed one is the text alone.
pub proof fn lemma_with_name_shape(text: Seq<char>, name: Option<Seq<char>>)
    ensures
        has_suffix(spec_with_name(text, name), text),
        name is None ==> spec_with_name(text, name) == text,
        name matches Some(n) ==> {
            let r = spec_with_name(text, name);
            &&& r.len() == n.len() + 3 + text.len()
            &&& r[0] == '['
            &&& r.subrange(1, n.len() as int + 1) == n
            &&& r[n.len() as int + 1] == ']'
            &&& r[n.len() as int + 2] == '\n'
        },
{
    reveal_strlit("[");
    reveal_strlit("]\n");
    let r = spec_with_name(text, name);
    assert(r.subrange(r.len() - text.len(), r.len() as int) =~= text);
    if let Some(n) = name {
        assert(r.subrange(1, n.len() as int + 1) =~= n);
    }
}

/// The views of a list of character vectors.
pub open spec fn vviews(v: Seq<Vec<char>>) -> Seq<Seq<char>> {
    v.map_values(|x: Vec<char>| x@)
}

fn replace_crlf_exec(c: &Vec<char>) -> (r: Vec<char>)
    ensures
        r@ == replace_crlf(c@),
{
    let n = c.len();
    let mut out: Vec<char> = Vec::new();
    let mut i: usize = 0;
    proof {
        assert(c@.skip(0) =~= c@);
        assert(Seq::<char>::empty() + replace_crlf(c@) =~= replace_crlf(c@));
    }
    while i < n
        invariant
            n == c@.len(),
            i <= n,
            out@ + replace_crlf(c@.skip(i as int)) == replace_crlf(c@),
        decreases n - i,
    {
        let ghost rest = c@.skip(i as int);
        if i + 1 < n && c[i] == '\r' && c[i + 1] == '\n' {
            proof {
                assert(rest.skip(2) =~= c@.skip(i + 2));
                assert(out@ + replace_crlf(rest) =~= out@.push('\n') + replace_crlf(c@.skip(i + 2)));
            }
            out.push('\n');
            i += 2;
        } else {
            proof {
                assert(rest.drop_first() =~= c@.skip(i + 1));
                assert(rest[0] == c@[i as int]);
                assert(out@ + replace_crlf(rest) =~= out@.push(c@[i as int]) + replace_crlf(c@.skip(i + 1)));
            }
            out.push(c[i]);
            i += 1;
        }
    }
    assert(c@.skip(n as int) =~= Seq::<char>::empty());
    assert(out@ + Seq::<char>::empty() =~= out@);
    out
}

fn blocks_exec(c: &Vec<char>) -> (r: Vec<Vec<char>>)
    ensures
        vviews(r@) == blocks_from(Seq::empty(), c@),
{
    let n = c.len();
    let mut done: Vec<Vec<char>> = Vec::new();
    let mut cur: Vec<char> = Vec::new();
    let mut i: usize = 0;
    proof {
        assert(c@.skip(0) =~= c@);
        assert(vviews(done@) + blocks_from(cur@, c@) =~= blocks_from(Seq::empty(), c@));
    }
    while i < n
        invariant
            n == c@.len(),
            i <= n,
            vviews(done@) + blocks_from(cur@, c@.skip(i as int)) == blocks_from(Seq::empty(), c@),
        decreases n - i,
    {
        let ghost rest = c@.skip(i as int);
        if i + 1 < n && c[i] == '\n' && c[i + 1] == '\n' {
            proof {
                assert(rest.skip(2) =~= c@.skip(i + 2));
            }
            let ghost before = vviews(done@);
            let ghost cv = cur@;
            done.push(cur);
            cur = Vec::new();
            proof {
                assert(vviews(done@) =~= before.push(cv));
                assert(before + blocks_from(cv, rest) =~= vviews(done@) + blocks_from(cur@, c@.skip(i + 2)));
            }
            i += 2;
        } else {
            proof {
                assert(rest.drop_first() =~= c@.skip(i + 1));
                assert(rest[0] == c@[i as int]);
            }
            cur.push(c[i]);
            i += 1;
        }
    }
    proof {
        assert(c@.skip(n as int) =~= Seq::<char>::empty());
    }
    let ghost before = vviews(done@);
    let ghost cv = cur@;
    done.push(cur);
    assert(vviews(done@) =~= before.push(cv));
    assert(before + seq![cv] =~= before.push(cv));
    done
}

fn lines_exec(c: &Vec<char>) -> (r: Vec<Vec<char>>)
    ensures
        vviews(r@) == lines_from(Seq::empty(), c@),
{
    let n = c.len();
    let mut done: Vec<Vec<char>> = Vec::new();
    let mut cur: Vec<char> = Vec::new();
    let mut i: usize = 0;
    proof {
        assert(c@.skip(0) =~= c@);
        assert(vviews(done@) + lines_from(cur@, c@) =~= lines_from(Seq::empty(), c@));
    }
    while i < n
        invariant
            n == c@.len(),
            i <= n,
            vviews(done@) + lines_from(cur@, c@.skip(i as int)) == lines_from(Seq::empty(), c@),
        decreases n - i,
    {
        let ghost rest = c@.skip(i as int);
        proof {
            assert(rest.drop_first() =~= c@.skip(i + 1));
            assert(rest[0] == c@[i as int]);
        }
        if c[i] == '\n' {
            let ghost before = vviews(done@);
            let ghost cv = cur@;
            let l = cur.len();
            if l > 0 && cur[l - 1] == '\r' {
                cur.pop();
            }
            assert(cur@ == strip_cr(cv));
            done.push(cur);
            cur = Vec::new();
            proof {
                assert(vviews(done@) =~= before.push(strip_cr(cv)));
                assert(before + lines_from(cv, rest) =~= vviews(done@) + lines_from(cur@, c@.skip(i + 1)));
            }
        } else {
            cur.push(c[i]);
        }
        i += 1;
    }
    proof {
        assert(c@.skip(n as int) =~= Seq::<char>::empty());
    }
    if cur.len() > 0 {
        let ghost before = vviews(done@);
        let ghost cv = cur@;
        done.push(cur);
        assert(vviews(done@) =~= before + seq![cv]);
    } else {
        assert(vviews(done@) + Seq::<Seq<char>>::empty() =~= vviews(done@));
    }
    done
}

fn trim_start_chars(c: &Vec<char>, from: usize) -> (r: Vec<char>)
    requires
        from <= c@.len(),
    ensures
        r@ == trim_start(c@.skip(from as int)),
{
    let n = c.len();
    let mut i = from;
    while i < n && is_whitespace(c[i])
        invariant
            n == c@.len(),
            from <= i <= n,
            trim_start(c@.skip(from as int)) == trim_start(c@.skip(i as int)),
        decreases n - i,
    {
        assert(c@.skip(i as int).drop_first() =~= c@.skip(i + 1));
        i += 1;
    }
    let mut out: Vec<char> = Vec::new();
    let mut j = i;
    while j < n
        invariant
            n == c@.len(),
            i <= j <= n,
            out@ == c@.subrange(i as int, j as int),
        decreases n - j,
    {
        out.push(c[j]);
        assert(c@.subrange(i as int, j + 1) =~= c@.subrange(i as int, j as int).push(c@[j as int]));
        j += 1;
    }
    assert(out@ =~= c@.skip(i as int));
    out
}

fn has_data_prefix(l: &Vec<char>) -> (r: bool)
    ensures
        r == has_prefix(l@, "data:"@),
{
    proof {
        reveal_strlit("data:");
    }
    let r = l.len() >= 5 && l[0] == 'd' && l[1] == 'a' && l[2] == 't' && l[3] == 'a' && l[4] == ':';
    proof {
        if l@.len() >= 5 {
            let p = l@.subrange(0, 5);
            if r {
                assert(p =~= "data:"@);
            } else {
                assert(p[0] == l@[0] && p[1] == l@[1] && p[2] == l@[2] && p[3] == l@[3] && p[4] == l@[4]);
            }
        }
    }
    r
}

fn block_payload_exec(block: &Vec<char>) -> (r: Option<String>)
    ensures
        match r {
            Some(d) => block_payload(block@) == Some(d@),
            None => block_payload(block@) is None,
        },
{
    proof {
        reveal_strlit("data:");
    }
    let lines = lines_exec(block);
    let ghost lv = vviews(lines@);
    let m = lines.len();
    let mut values: Vec<Vec<char>> = Vec::new();
    let mut k: usize = 0;
    proof {
        assert(lv.take(0) =~= Seq::<Seq<char>>::empty());
        assert(vviews(values@) =~= Seq::<Seq<char>>::empty());
    }
    while k < m
        invariant
            m == lines@.len(),
            lv == vviews(lines@),
            k <= m,
            vviews(values@) == data_values(lv.take(k as int)),
        decreases m - k,
    {
        assert(lv.take(k + 1).drop_last() =~= lv.take(k as int));
        assert(lv.take(k + 1).last() == lines@[k as int]@);
        if has_data_prefix(&lines[k]) {
            proof {
                reveal_strlit("data:");
            }
            let v = trim_start_chars(&lines[k], 5);
            let ghost before = vviews(values@);
            values.push(v);
            assert(vviews(values@) =~= before + seq![trim_start(lines@[k as int]@.skip(5))]);
        } else {
            assert(data_values(lv.take(k + 1)) =~= data_values(lv.take(k as int)));
        }
        k += 1;
    }
    assert(lv.take(m as int) =~= lv);
    if values.len() == 0 {
        return None;
    }
    // join the values with newlines
    let ghost vv = vviews(values@);
    let mut out = String::new();
    let nv = values.len();
    let mut j: usize = 0;
    proof {
        reveal_strlit("\n");
        assert(vv.take(0) =~= Seq::<Seq<char>>::empty());
    }
    while j < nv
        invariant
            nv == values@.len(),
            vv == vviews(values@),
            j <= nv,
            "\n"@ == seq!['\n'],
            out@ == join_seq(vv.take(j as int), "\n"@),
        decreases nv - j,
    {
        let ghost start = out@;
        if j > 0 {
            push_char(&mut out, '\n');
        }
        let w = &values[j];
        let wl = w.len();
        let mut t: usize = 0;
        while t < wl
            invariant
                wl == w@.len(),
                t <= wl,
                out@ == (if j > 0 { start + "\n"@ } else { start }) + w@.take(t as int),
            decreases wl - t,
        {
            push_char(&mut out, w[t]);
            assert(w@.take(t + 1) =~= w@.take(t as int).push(w@[t as int]));
            t += 1;
        }
        proof {
            assert(w@.take(wl as int) =~= w@);
            assert(vv.take(j + 1).drop_last() =~= vv.take(j as int));
            assert(vv.take(j + 1).last() == w@);
            if j == 0 {
                assert(vv.take(1) =~= seq![w@]);
                assert(out@ =~= join_seq(vv.take(1), "\n"@));
            } else {
                assert(out@ =~= join_seq(vv.take(j + 1), "\n"@));
            }
        }
        j += 1;
    }
    assert(vv.take(nv as int) =~= vv);
    Some(out)
}

/// The event data of a server-sent event stream.
pub fn sse_data(body: &str) -> (r: Vec<String>)
    ensures
        r@.map_values(|s: String| s@) == spec_sse_data(body@),
{
    let chars = chars_vec(body);
    let normalized = replace_crlf_exec(&chars);
    let blocks = blocks_exec(&normalized);
    let ghost bv = vviews(blocks@);
    let n = blocks.len();
    let mut out: Vec<String> = Vec::new();
    let mut i: usize = 0;
    proof {
        assert(bv.take(0) =~= Seq::<Seq<char>>::empty());
        assert(out@.map_values(|s: String| s@) =~= Seq::<Seq<char>>::empty());
    }
    while i < n
        invariant
            n == blocks@.len(),
            bv == vviews(blocks@),
            i <= n,
            out@.map_values(|s: String| s@) == payloads(bv.take(i as int)),
        decreases n - i,
    {
        assert(bv.take(i + 1).drop_last() =~= bv.take(i as int));
        assert(bv.take(i + 1).last() == blocks@[i as int]@);
        match block_payload_exec(&blocks[i]) {
            Some(d) => {
                let ghost before = out@.map_values(|s: String| s@);
                let ghost dv = d@;
                out.push(d);
                assert(out@.map_values(|s: String| s@) =~= before + seq![dv]);
            },
            None => {
                assert(payloads(bv.take(i + 1)) =~= payloads(bv.take(i as int)));
            },
        }
        i += 1;
    }
    assert(bv.take(n as int) =~= bv);
    out
}
} // verus!
