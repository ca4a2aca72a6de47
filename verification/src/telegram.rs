//! Splitting long replies into messages that fit Telegram's size limit.

use vstd::prelude::*;
use vstd::utf8::{encode_scalar, encode_utf8};
use crate::text::{
    char_utf8_width, chars_vec, collect_chars, decimal, is_last_index, lemma_encode_utf8_concat,
    push_str, to_owned, u64_to_decimal,
};
use crate::todos::chars_within;

verus! {

/// Length in bytes of the UTF-8 encoding of `s`.
pub open spec fn utf8_len(s: Seq<char>) -> nat {
    encode_utf8(s).len()
}

/// How many characters of `rem` go into the next chunk when `rem` is longer
/// than `max_len` characters: those up to and including the last newline
/// among the first `max_len`, or all `max_len` when they hold no newline.
pub open spec fn cut_point(rem: Seq<char>, max_len: nat) -> int {
    let window = rem.take(max_len as int);
    if window.contains('\n') {
        (choose|j: int| is_last_index(window, '\n', j)) + 1
    } else {
        max_len as int
    }
}

/// The chunks that `rem` is sent in: nothing for empty text, the whole text
/// when it has at most `max_len` characters, else the part up to the cut
/// point followed by the chunks of the rest.
pub open spec fn telegram_chunks(rem: Seq<char>, max_len: nat) -> Seq<Seq<char>>
    decreases rem.len(),
{
    if rem.len() == 0 {
        Seq::empty()
    } else if rem.len() <= max_len {
        seq![rem]
    } else {
        let p = cut_point(rem, max_len);
        if 0 < p <= rem.len() {
            seq![rem.take(p)] + telegram_chunks(rem.skip(p), max_len)
        } else {
            Seq::empty()
        }
    }
}

/// A text that holds `c` has a last position of `c`.
proof fn lemma_last_index_exists(s: Seq<char>, c: char)
    requires
        s.contains(c),
    ensures
        exists|j: int| is_last_index(s, c, j),
    decreases s.len(),
{
    if s.last() == c {
        assert(is_last_index(s, c, s.len() - 1));
    } else {
        let i = choose|i: int| 0 <= i < s.len() && s[i] == c;
        assert(s.drop_last()[i] == c);
        lemma_last_index_exists(s.drop_last(), c);
        let d = s.drop_last();
        let j = choose|j: int| is_last_index(d, c, j);
        assert(s[j] == d[j]);
        assert forall|t: int| j < t < s.len() implies s[t] != c by {
            if t < d.len() {
                assert(s[t] == d[t]);
            }
        }
        assert(is_last_index(s, c, j));
    }
}

/// The characters that fit in `budget` bytes make up at most `budget` bytes.
pub proof fn lemma_chars_within_bound(s: Seq<char>, budget: nat)
    ensures
        chars_within(s, budget) <= s.len(),
        utf8_len(s.take(chars_within(s, budget) as int)) <= budget,
    decreases s.len(),
{
    let k = chars_within(s, budget);
    if s.len() == 0 {
        assert(s.take(0) =~= Seq::<char>::empty());
    } else if encode_scalar(s[0] as u32).len() > budget {
        assert(s.take(0) =~= Seq::<char>::empty());
    } else {
        let w = encode_scalar(s[0] as u32).len();
        let rest = s.drop_first();
        lemma_chars_within_bound(rest, (budget - w) as nat);
        let t = s.take(k as int);
        assert(t.drop_first() =~= rest.take((k - 1) as int));
        assert(t[0] == s[0]);
    }
}

/// How many of the characters of `c` from `start` on fit in `budget` bytes,
/// and how many bytes those characters take.
pub(crate) fn chars_within_from(c: &Vec<char>, start: usize, budget: usize) -> (r: (usize, usize))
    requires
        start <= c.len(),
    ensures
        r.0 == chars_within(c@.skip(start as int), budget as nat),
        start + r.0 <= c.len(),
        r.1 == utf8_len(c@.skip(start as int).take(r.0 as int)),
{
    let n = c.len();
    let mut left: usize = budget;
    let mut i: usize = start;
    proof {
        assert(c@.subrange(start as int, start as int) =~= Seq::<char>::empty());
        assert(encode_utf8(Seq::<char>::empty()) =~= Seq::<u8>::empty());
    }
    loop
        invariant
            n == c@.len(),
            start <= i <= n,
            left <= budget,
            budget - left == utf8_len(c@.subrange(start as int, i as int)),
            chars_within(c@.skip(start as int), budget as nat) == (i - start) + chars_within(
                c@.skip(i as int),
                left as nat,
            ),
        ensures
            chars_within(c@.skip(start as int), budget as nat) == i - start,
            i <= n,
            left <= budget,
            budget - left == utf8_len(c@.subrange(start as int, i as int)),
        decreases n - i,
    {
        if i == n {
            assert(c@.skip(i as int).len() == 0);
            break;
        }
        let w = char_utf8_width(c[i]);
        proof {
            assert(c@.skip(i as int)[0] == c@[i as int]);
            assert(c@.skip(i as int).drop_first() =~= c@.skip(i + 1));
        }
        if w > left {
            break;
        }
        proof {
            let before = c@.subrange(start as int, i as int);
            assert(c@.subrange(start as int, i + 1) =~= before + seq![c@[i as int]]);
            lemma_encode_utf8_concat(before, seq![c@[i as int]]);
            assert(seq![c@[i as int]].drop_first() =~= Seq::<char>::empty());
            assert(encode_utf8(Seq::<char>::empty()) =~= Seq::<u8>::empty());
            assert(encode_utf8(seq![c@[i as int]]) =~= encode_scalar(c@[i as int] as u32));
        }
        left = left - w;
        i += 1;
    }
    assert(c@.skip(start as int).take((i - start) as int) =~= c@.subrange(start as int, i as int));
    (i - start, budget - left)
}

/// The cut point of `rem` when it is longer than `max_len` characters lies
/// within the first `max_len` characters and is not at the start.
proof fn lemma_cut_point_bounds(rem: Seq<char>, max_len: nat)
    requires
        0 < max_len < rem.len(),
    ensures
        0 < cut_point(rem, max_len) <= max_len,
{
    let window = rem.take(max_len as int);
    if window.contains('\n') {
        lemma_last_index_exists(window, '\n');
    }
}

/// Split `text` into chunks of at most `max_len` characters, preferring to
/// cut just after a newline.
pub fn split_for_telegram(text: &str, max_len: usize) -> (r: Vec<String>)
    requires
        max_len > 0,
    ensures
        r@.map_values(|s: String| s@) == telegram_chunks(text@, max_len as nat),
{
    let c = chars_vec(text);
    let n = c.len();
    let mut chunks: Vec<String> = Vec::new();
    let mut start: usize = 0;
    proof {
        assert(c@.skip(0) =~= c@);
        assert(chunks@.map_values(|s: String| s@) =~= Seq::<Seq<char>>::empty());
    }
    loop
        invariant
            n == c@.len(),
            c@ == text@,
            start <= n,
            max_len > 0,
            telegram_chunks(text@, max_len as nat) == chunks@.map_values(|s: String| s@)
                + telegram_chunks(c@.skip(start as int), max_len as nat),
        decreases n - start,
    {
        let ghost rem = c@.skip(start as int);
        let ghost done = chunks@.map_values(|s: String| s@);
        if start == n {
            assert(rem.len() == 0);
            assert(done + telegram_chunks(rem, max_len as nat) =~= done);
            return chunks;
        }
        if n - start <= max_len {
            let whole = collect_chars(&c, start, n);
            proof {
                assert(whole@ =~= rem);
            }
            chunks.push(whole);
            assert(chunks@.map_values(|s: String| s@) =~= done + seq![rem]);
            return chunks;
        }
        let k = max_len;
        let ghost window = rem.take(k as int);
        let mut j: usize = start + k;
        let mut found = false;
        while j > start
            invariant_except_break
                !found,
            invariant
                n == c@.len(),
                start < n,
                start + k <= n,
                start <= j <= start + k,
                rem == c@.skip(start as int),
                window == rem.take(k as int),
                forall|t: int| j <= t < start + k ==> c@[t] != '\n',
            ensures
                start <= j <= start + k,
                forall|t: int| j <= t < start + k ==> c@[t] != '\n',
                found ==> j > start && c@[j - 1] == '\n',
                !found ==> j == start,
            decreases j,
        {
            if c[j - 1] == '\n' {
                found = true;
                break;
            }
            j -= 1;
        }
        let p: usize = if found {
            j - start
        } else {
            k
        };
        proof {
            if found {
                let q = (j - 1 - start) as int;
                assert(window[q] == c@[j - 1]);
                assert forall|t: int| q < t < window.len() implies window[t] != '\n' by {
                    assert(window[t] == c@[start + t]);
                }
                assert(is_last_index(window, '\n', q));
                assert(window.contains('\n'));
                let q2 = choose|t: int| is_last_index(window, '\n', t);
                assert(q2 == q);
                assert(cut_point(rem, max_len as nat) == p);
            } else {
                assert forall|t: int| 0 <= t < window.len() implies window[t] != '\n' by {
                    assert(window[t] == c@[start + t]);
                }
                assert(!window.contains('\n'));
                assert(cut_point(rem, max_len as nat) == p);
            }
            assert(0 < p <= rem.len());
        }
        let piece = collect_chars(&c, start, start + p);
        proof {
            assert(piece@ =~= rem.take(p as int));
            assert(rem.skip(p as int) =~= c@.skip(start + p));
        }
        chunks.push(piece);
        assert(chunks@.map_values(|s: String| s@) =~= done + seq![rem.take(p as int)]);
        start = start + p;
    }
}

/// Sending the chunks one after another sends the whole text: joined, the
/// chunks give back the text, none is empty, and each has at most
/// `max_len` characters.
pub proof fn lemma_chunks_rebuild_text(text: Seq<char>, max_len: nat)
    requires
        max_len > 0,
    ensures
        telegram_chunks(text, max_len).flatten() == text,
        forall|i: int|
            0 <= i < telegram_chunks(text, max_len).len() ==> {
                let chunk = #[trigger] telegram_chunks(text, max_len)[i];
                0 < chunk.len() <= max_len
            },
    decreases text.len(),
{
    let c = telegram_chunks(text, max_len);
    if text.len() == 0 {
        assert(c =~= Seq::<Seq<char>>::empty());
    } else if text.len() <= max_len {
        assert(c == seq![text]);
        assert(c.drop_first() =~= Seq::<Seq<char>>::empty());
        assert(c.drop_first().flatten() == Seq::<char>::empty());
        assert(c.first() + Seq::<char>::empty() =~= text);
    } else {
        let p = cut_point(text, max_len);
        lemma_cut_point_bounds(text, max_len);
        let rest = text.skip(p);
        lemma_chunks_rebuild_text(rest, max_len);
        let tail = telegram_chunks(rest, max_len);
        assert(c == seq![text.take(p)] + tail);
        assert(c.first() == text.take(p));
        assert(c.drop_first() =~= tail);
        assert(text.take(p) + rest =~= text);
        assert forall|i: int| 0 <= i < c.len() implies {
            let chunk = #[trigger] c[i];
            0 < chunk.len() <= max_len
        } by {
            if i > 0 {
                assert(c[i] == tail[i - 1]);
            }
        }
    }
}

/// A text longer than `max_len` characters is cut after the last newline
/// among its first `max_len` characters; only when those hold no newline is
/// it cut after exactly `max_len` characters.
pub proof fn lemma_first_chunk_cut(text: Seq<char>, max_len: nat)
    requires
        0 < max_len < text.len(),
    ensures
        telegram_chunks(text, max_len).len() >= 1,
        ({
            let first = telegram_chunks(text, max_len)[0];
            &&& 0 < first.len() <= max_len
            &&& first == text.take(first.len() as int)
            &&& text.take(max_len as int).contains('\n') ==> first.last() == '\n' && forall|j: int|
                first.len() <= j < max_len ==> #[trigger] text[j] != '\n'
            &&& !text.take(max_len as int).contains('\n') ==> first.len() == max_len
        }),
{
    let p = cut_point(text, max_len);
    lemma_cut_point_bounds(text, max_len);
    let c = telegram_chunks(text, max_len);
    assert(c == seq![text.take(p)] + telegram_chunks(text.skip(p), max_len));
    assert(c[0] == text.take(p));
    let window = text.take(max_len as int);
    if window.contains('\n') {
        lemma_last_index_exists(window, '\n');
        let q = choose|j: int| is_last_index(window, '\n', j);
        assert(p == q + 1);
        assert(text.take(p).last() == window[q]);
        assert forall|j: int| p <= j < max_len implies #[trigger] text[j] != '\n' by {
            assert(window[j] == text[j]);
        }
    }
}

/// The most characters sent in one message: below Telegram's limit of
/// 4096, leaving room for the MarkdownV2 escapes added before sending.
pub const MAX_CHUNK_CHARS: usize = 4000;

/// The heading of chunk `index` (from 0) of a reply sent in `total` chunks:
/// `*Part i/n*` and a blank line when there is more than one chunk.
pub open spec fn spec_part_header(index: nat, total: nat) -> Seq<char> {
    if total > 1 {
        "*Part "@ + decimal(index + 1) + "/"@ + decimal(total) + "*\n\n"@
    } else {
        Seq::empty()
    }
}

/// The heading of chunk `index` of a reply sent in `total` chunks.
pub fn part_header(index: usize, total: usize) -> (r: String)
    requires
        index < total,
    ensures
        r@ == spec_part_header(index as nat, total as nat),
{
    if total > 1 {
        let mut h = to_owned("*Part ");
        let i = u64_to_decimal((index + 1) as u64);
        push_str(&mut h, i.as_str());
        push_str(&mut h, "/");
        let t = u64_to_decimal(total as u64);
        push_str(&mut h, t.as_str());
        push_str(&mut h, "*\n\n");
        h
    } else {
        String::new()
    }
}

} // verus!
