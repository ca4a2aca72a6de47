//! Character-level string helpers shared by the rest of the library.
//!
//! Strings are viewed as sequences of Unicode scalar values (`Seq<char>`).

use vstd::prelude::*;
use vstd::string::*;
use vstd::utf8::{encode_scalar, encode_utf8};

verus! {

/// Unicode `White_Space`, the set that `char::is_whitespace` and `str::trim` use.
pub open spec fn is_ws(c: char) -> bool {
    let x = c as u32;
    ||| (0x9 <= x && x <= 0xd)
    ||| x == 0x20
    ||| x == 0x85
    ||| x == 0xa0
    ||| x == 0x1680
    ||| (0x2000 <= x && x <= 0x200a)
    ||| x == 0x2028
    ||| x == 0x2029
    ||| x == 0x202f
    ||| x == 0x205f
    ||| x == 0x3000
}

/// `s` with leading whitespace removed.
pub open spec fn trim_start(s: Seq<char>) -> Seq<char>
    decreases s.len(),
{
    if s.len() > 0 && is_ws(s[0]) {
        trim_start(s.drop_first())
    } else {
        s
    }
}

/// `s` with trailing whitespace removed.
pub open spec fn trim_end(s: Seq<char>) -> Seq<char>
    decreases s.len(),
{
    if s.len() > 0 && is_ws(s.last()) {
        trim_end(s.drop_last())
    } else {
        s
    }
}

/// `s` with whitespace removed at both ends.
pub open spec fn trim_seq(s: Seq<char>) -> Seq<char> {
    trim_end(trim_start(s))
}

/// `p` is a prefix of `s`.
pub open spec fn has_prefix(s: Seq<char>, p: Seq<char>) -> bool {
    p.len() <= s.len() && s.subrange(0, p.len() as int) == p
}

/// `p` is a suffix of `s`.
pub open spec fn has_suffix(s: Seq<char>, p: Seq<char>) -> bool {
    p.len() <= s.len() && s.subrange(s.len() - p.len(), s.len() as int) == p
}

/// `i` is the first position of `c` in `s`.
pub open spec fn is_first_index(s: Seq<char>, c: char, i: int) -> bool {
    &&& 0 <= i < s.len()
    &&& s[i] == c
    &&& forall|j: int| 0 <= j < i ==> s[j] != c
}

/// `i` is the last position of `c` in `s`.
pub open spec fn is_last_index(s: Seq<char>, c: char, i: int) -> bool {
    &&& 0 <= i < s.len()
    &&& s[i] == c
    &&& forall|j: int| i < j < s.len() ==> s[j] != c
}

/// Split at the first occurrence of `c` (as `str::split_once` with a char pattern).
pub open spec fn split_once_seq(s: Seq<char>, c: char) -> Option<(Seq<char>, Seq<char>)> {
    if s.contains(c) {
        let i = choose|i: int| is_first_index(s, c, i);
        Some((s.subrange(0, i), s.subrange(i + 1, s.len() as int)))
    } else {
        None
    }
}

/// Split at the last occurrence of `c` (as `str::rsplit_once` with a char pattern).
pub open spec fn rsplit_once_seq(s: Seq<char>, c: char) -> Option<(Seq<char>, Seq<char>)> {
    if s.contains(c) {
        let i = choose|i: int| is_last_index(s, c, i);
        Some((s.subrange(0, i), s.subrange(i + 1, s.len() as int)))
    } else {
        None
    }
}

/// The first `n` characters of `s`, followed by `...` when `s` is longer than `n`.
pub open spec fn truncate_chars(s: Seq<char>, n: nat) -> Seq<char> {
    if s.len() <= n {
        s
    } else {
        s.take(n as int) + seq!['.', '.', '.']
    }
}

/// The decimal digit for `d` (`0 <= d < 10`).
pub open spec fn digit_char(d: nat) -> char {
    if d == 0 { '0' }
    else if d == 1 { '1' }
    else if d == 2 { '2' }
    else if d == 3 { '3' }
    else if d == 4 { '4' }
    else if d == 5 { '5' }
    else if d == 6 { '6' }
    else if d == 7 { '7' }
    else if d == 8 { '8' }
    else { '9' }
}

/// The decimal representation of `n`, as `Display` writes it.
pub open spec fn decimal(n: nat) -> Seq<char>
    decreases n,
{
    if n < 10 {
        seq![digit_char(n)]
    } else {
        decimal(n / 10).push(digit_char(n % 10))
    }
}

/// Whether `c` is whitespace.
pub fn is_whitespace(c: char) -> (b: bool)
    ensures
        b == is_ws(c),
{
    let x = c as u32;
    (0x9 <= x && x <= 0xd) || x == 0x20 || x == 0x85 || x == 0xa0 || x == 0x1680 || (0x2000
        <= x && x <= 0x200a) || x == 0x2028 || x == 0x2029 || x == 0x202f || x == 0x205f || x
        == 0x3000
}

/// Number of characters in `s`.
pub fn char_len(s: &str) -> (n: usize)
    ensures
        n == s@.len(),
{
    s.unicode_len()
}

/// Character equality of two strings.
pub fn str_eq(a: &str, b: &str) -> (r: bool)
    ensures
        r == (a@ == b@),
{
    let n = a.unicode_len();
    let m = b.unicode_len();
    if n != m {
        return false;
    }
    let mut i: usize = 0;
    while i < n
        invariant
            n == a@.len(),
            m == b@.len(),
            n == m,
            i <= n,
            forall|j: int| 0 <= j < i ==> a@[j] == b@[j],
        decreases n - i,
    {
        if a.get_char(i) != b.get_char(i) {
            return false;
        }
        i += 1;
    }
    assert(a@ =~= b@);
    true
}

/// Whether `s` begins with `p`.
pub fn starts_with(s: &str, p: &str) -> (r: bool)
    ensures
        r == has_prefix(s@, p@),
{
    let n = s.unicode_len();
    let m = p.unicode_len();
    if m > n {
        return false;
    }
    let mut i: usize = 0;
    while i < m
        invariant
            n == s@.len(),
            m == p@.len(),
            m <= n,
            i <= m,
            forall|j: int| 0 <= j < i ==> s@[j] == p@[j],
        decreases m - i,
    {
        if s.get_char(i) != p.get_char(i) {
            assert(s@.subrange(0, m as int)[i as int] != p@[i as int]);
            return false;
        }
        i += 1;
    }
    assert(s@.subrange(0, m as int) =~= p@);
    true
}

/// Whether `s` ends with `p`.
pub fn ends_with(s: &str, p: &str) -> (r: bool)
    ensures
        r == has_suffix(s@, p@),
{
    let n = s.unicode_len();
    let m = p.unicode_len();
    if m > n {
        return false;
    }
    let off = n - m;
    let mut i: usize = 0;
    while i < m
        invariant
            n == s@.len(),
            m == p@.len(),
            m <= n,
            off == n - m,
            i <= m,
            forall|j: int| 0 <= j < i ==> s@[off + j] == p@[j],
        decreases m - i,
    {
        if s.get_char(off + i) != p.get_char(i) {
            assert(s@.subrange(off as int, n as int)[i as int] != p@[i as int]);
            return false;
        }
        i += 1;
    }
    assert(s@.subrange(off as int, n as int) =~= p@);
    true
}

/// The characters of `s` from `from` up to (not including) `to`.
pub fn slice_chars(s: &str, from: usize, to: usize) -> (r: &str)
    requires
        from <= to <= s@.len(),
    ensures
        r@ == s@.subrange(from as int, to as int),
{
    s.substring_char(from, to)
}

proof fn lemma_trim_start_step(s: Seq<char>, i: int)
    requires
        0 <= i < s.len(),
        is_ws(s[i]),
    ensures
        trim_start(s.subrange(i, s.len() as int)) == trim_start(s.subrange(i + 1, s.len() as int)),
{
    assert(s.subrange(i, s.len() as int).drop_first() =~= s.subrange(i + 1, s.len() as int));
}

proof fn lemma_trim_end_step(s: Seq<char>, j: int)
    requires
        0 < j <= s.len(),
        is_ws(s[j - 1]),
    ensures
        trim_end(s.subrange(0, j)) == trim_end(s.subrange(0, j - 1)),
{
    assert(s.subrange(0, j).drop_last() =~= s.subrange(0, j - 1));
}

/// `s` with whitespace removed at both ends (as `str::trim`).
pub fn trim(s: &str) -> (r: &str)
    ensures
        r@ == trim_seq(s@),
{
    let n = s.unicode_len();
    let mut i: usize = 0;
    proof {
        assert(s@.subrange(0, n as int) =~= s@);
    }
    loop
        invariant
            n == s@.len(),
            i <= n,
            trim_start(s@) == trim_start(s@.subrange(i as int, n as int)),
        ensures
            i <= n,
            trim_start(s@) == s@.subrange(i as int, n as int),
        decreases n - i,
    {
        if i == n {
            break;
        }
        if !is_whitespace(s.get_char(i)) {
            break;
        }
        proof {
            lemma_trim_start_step(s@, i as int);
        }
        i += 1;
    }
    let ghost t = s@.subrange(i as int, n as int);
    let mut j: usize = n;
    proof {
        assert(t.subrange(0, (n - i) as int) =~= t);
    }
    loop
        invariant
            n == s@.len(),
            i <= j <= n,
            t == s@.subrange(i as int, n as int),
            trim_end(t) == trim_end(t.subrange(0, (j - i) as int)),
        ensures
            i <= j <= n,
            trim_end(t) == t.subrange(0, (j - i) as int),
        decreases j - i,
    {
        if j == i {
            break;
        }
        if !is_whitespace(s.get_char(j - 1)) {
            break;
        }
        proof {
            lemma_trim_end_step(t, (j - i) as int);
        }
        j -= 1;
    }
    proof {
        assert(t.subrange(0, (j - i) as int) =~= s@.subrange(i as int, j as int));
    }
    s.substring_char(i, j)
}

/// Position of the first `c` in `s`, if any.
pub fn find_char(s: &str, c: char) -> (r: Option<usize>)
    ensures
        match r {
            Some(i) => is_first_index(s@, c, i as int),
            None => !s@.contains(c),
        },
{
    let n = s.unicode_len();
    let mut i: usize = 0;
    while i < n
        invariant
            n == s@.len(),
            i <= n,
            forall|j: int| 0 <= j < i ==> s@[j] != c,
        decreases n - i,
    {
        if s.get_char(i) == c {
            return Some(i);
        }
        i += 1;
    }
    None
}

/// Position of the last `c` in `s`, if any.
pub fn rfind_char(s: &str, c: char) -> (r: Option<usize>)
    ensures
        match r {
            Some(i) => is_last_index(s@, c, i as int),
            None => !s@.contains(c),
        },
{
    let n = s.unicode_len();
    let mut i: usize = n;
    while i > 0
        invariant
            n == s@.len(),
            i <= n,
            forall|j: int| i <= j < n ==> s@[j] != c,
        decreases i,
    {
        if s.get_char(i - 1) == c {
            return Some(i - 1);
        }
        i -= 1;
    }
    None
}

proof fn lemma_first_index_unique(s: Seq<char>, c: char, i: int, k: int)
    requires
        is_first_index(s, c, i),
        is_first_index(s, c, k),
    ensures
        i == k,
{
}

proof fn lemma_last_index_unique(s: Seq<char>, c: char, i: int, k: int)
    requires
        is_last_index(s, c, i),
        is_last_index(s, c, k),
    ensures
        i == k,
{
}

/// Split `s` at the first `c` (as `str::split_once`).
pub fn split_once(s: &str, c: char) -> (r: Option<(&str, &str)>)
    ensures
        match r {
            Some((a, b)) => split_once_seq(s@, c) == Some((a@, b@)),
            None => split_once_seq(s@, c) is None,
        },
{
    let n = s.unicode_len();
    match find_char(s, c) {
        Some(i) => {
            proof {
                assert(s@.contains(c)) by {
                    assert(s@[i as int] == c);
                }
                let k = choose|k: int| is_first_index(s@, c, k);
                lemma_first_index_unique(s@, c, i as int, k);
            }
            Some((s.substring_char(0, i), s.substring_char(i + 1, n)))
        },
        None => None,
    }
}

/// Split `s` at the last `c` (as `str::rsplit_once`).
pub fn rsplit_once(s: &str, c: char) -> (r: Option<(&str, &str)>)
    ensures
        match r {
            Some((a, b)) => rsplit_once_seq(s@, c) == Some((a@, b@)),
            None => rsplit_once_seq(s@, c) is None,
        },
{
    let n = s.unicode_len();
    match rfind_char(s, c) {
        Some(i) => {
            proof {
                assert(s@.contains(c)) by {
                    assert(s@[i as int] == c);
                }
                let k = choose|k: int| is_last_index(s@, c, k);
                lemma_last_index_unique(s@, c, i as int, k);
            }
            Some((s.substring_char(0, i), s.substring_char(i + 1, n)))
        },
        None => None,
    }
}

/// Append the character `c` to `s`.
///
/// Calls `String::push`, which the standard library documents as appending
/// the given char to the end of the string; the contract states exactly that.
#[verifier::external_body]
pub fn push_char(s: &mut String, c: char)
    ensures
        final(s)@ == old(s)@.push(c),
{
    s.push(c);
}

/// Append `t` to `s`.
pub fn push_str(s: &mut String, t: &str)
    ensures
        final(s)@ == old(s)@ + t@,
{
    s.append(t);
}

/// A new `String` holding `t`.
pub fn to_owned(t: &str) -> (r: String)
    ensures
        r@ == t@,
{
    String::from_str(t)
}

/// The first `n` characters of `s`, followed by `...` when `s` is longer.
pub fn truncate(s: &str, n: usize) -> (r: String)
    ensures
        r@ == truncate_chars(s@, n as nat),
{
    let len = s.unicode_len();
    if len <= n {
        String::from_str(s)
    } else {
        let mut r = String::from_str(s.substring_char(0, n));
        push_char(&mut r, '.');
        push_char(&mut r, '.');
        push_char(&mut r, '.');
        assert(r@ =~= s@.take(n as int) + seq!['.', '.', '.']);
        r
    }
}

/// The decimal digit character for `d`.
pub fn digit_to_char(d: u64) -> (c: char)
    requires
        d < 10,
    ensures
        c == digit_char(d as nat),
{
    if d == 0 { '0' }
    else if d == 1 { '1' }
    else if d == 2 { '2' }
    else if d == 3 { '3' }
    else if d == 4 { '4' }
    else if d == 5 { '5' }
    else if d == 6 { '6' }
    else if d == 7 { '7' }
    else if d == 8 { '8' }
    else { '9' }
}

/// The decimal representation of `n` (as `n.to_string()`).
pub fn u64_to_decimal(n: u64) -> (r: String)
    ensures
        r@ == decimal(n as nat),
    decreases n,
{
    if n < 10 {
        let mut r = String::new();
        push_char(&mut r, digit_to_char(n));
        assert(r@ =~= seq![digit_char(n as nat)]);
        r
    } else {
        let mut r = u64_to_decimal(n / 10);
        push_char(&mut r, digit_to_char(n % 10));
        r
    }
}


/// The elements of `parts` separated by `sep`.
pub open spec fn join_seq(parts: Seq<Seq<char>>, sep: Seq<char>) -> Seq<char>
    decreases parts.len(),
{
    if parts.len() == 0 {
        Seq::empty()
    } else if parts.len() == 1 {
        parts[0]
    } else {
        join_seq(parts.drop_last(), sep) + sep + parts.last()
    }
}

/// The strings of `parts` separated by `sep` (as `[String]::join`).
pub fn join(parts: &Vec<String>, sep: &str) -> (r: String)
    ensures
        r@ == join_seq(parts@.map_values(|s: String| s@), sep@),
{
    let ghost all = parts@.map_values(|s: String| s@);
    let n = parts.len();
    let mut r = String::new();
    let mut i: usize = 0;
    while i < n
        invariant
            n == parts@.len(),
            all == parts@.map_values(|s: String| s@),
            i <= n,
            r@ == join_seq(all.take(i as int), sep@),
        decreases n - i,
    {
        if i > 0 {
            r.append(sep);
        }
        r.append(parts[i].as_str());
        proof {
            assert(all.take(i + 1).drop_last() =~= all.take(i as int));
            assert(all.take(i + 1).last() == parts@[i as int]@);
            if i == 0 {
                assert(all.take(1)[0] == parts@[0]@);
                assert(r@ =~= join_seq(all.take(1), sep@));
            }
        }
        i += 1;
    }
    assert(all.take(n as int) =~= all);
    r
}

/// `p` occurs in `s` at position `i`.
pub open spec fn occurs_at(s: Seq<char>, p: Seq<char>, i: int) -> bool {
    0 <= i && i + p.len() <= s.len() && s.subrange(i, i + p.len()) == p
}

/// `i` is the first position where `p` occurs in `s`.
pub open spec fn is_first_occurrence(s: Seq<char>, p: Seq<char>, i: int) -> bool {
    occurs_at(s, p, i) && forall|j: int| 0 <= j < i ==> !occurs_at(s, p, j)
}

fn occurs_at_exec(s: &str, p: &str, i: usize) -> (r: bool)
    requires
        i + p@.len() <= s@.len(),
    ensures
        r == occurs_at(s@, p@, i as int),
{
    let m = p.unicode_len();
    let n = s.unicode_len();
    let mut k: usize = 0;
    while k < m
        invariant
            m == p@.len(),
            n == s@.len(),
            i + m <= s@.len(),
            k <= m,
            forall|j: int| 0 <= j < k ==> s@[i + j] == p@[j],
        decreases m - k,
    {
        if s.get_char(i + k) != p.get_char(k) {
            assert(s@.subrange(i as int, i + m)[k as int] != p@[k as int]);
            return false;
        }
        k += 1;
    }
    assert(s@.subrange(i as int, i + m) =~= p@);
    true
}

/// Position of the first occurrence of `p` in `s`, if any (as `str::find`
/// with a string pattern, counted in characters).
pub fn find_str(s: &str, p: &str) -> (r: Option<usize>)
    ensures
        match r {
            Some(i) => is_first_occurrence(s@, p@, i as int),
            None => forall|j: int| !occurs_at(s@, p@, j),
        },
{
    let n = s.unicode_len();
    let m = p.unicode_len();
    if m > n {
        return None;
    }
    if m == 0 {
        assert(s@.subrange(0, 0) =~= p@);
        return Some(0);
    }
    let mut i: usize = 0;
    while i <= n - m
        invariant
            n == s@.len(),
            m == p@.len(),
            1 <= m <= n,
            i <= n - m + 1,
            forall|j: int| 0 <= j < i ==> !occurs_at(s@, p@, j),
        decreases n - m + 1 - i,
    {
        if occurs_at_exec(s, p, i) {
            return Some(i);
        }
        i += 1;
    }
    None
}

/// The UTF-8 encoding of `a + b` is that of `a` followed by that of `b`.
pub proof fn lemma_encode_utf8_concat(a: Seq<char>, b: Seq<char>)
    ensures
        encode_utf8(a + b) == encode_utf8(a) + encode_utf8(b),
    decreases a.len(),
{
    if a.len() == 0 {
        assert(a + b =~= b);
        assert(encode_utf8(a) =~= Seq::<u8>::empty());
        assert(encode_utf8(a + b) =~= encode_utf8(a) + encode_utf8(b));
    } else {
        assert((a + b).drop_first() =~= a.drop_first() + b);
        lemma_encode_utf8_concat(a.drop_first(), b);
        assert((a + b)[0] == a[0]);
        assert(encode_utf8(a + b) =~= encode_utf8(a) + encode_utf8(b));
    }
}

proof fn lemma_encode_utf8_take_step(s: Seq<char>, i: int)
    requires
        0 <= i < s.len(),
    ensures
        encode_utf8(s.take(i + 1)).len() == encode_utf8(s.take(i)).len() + encode_scalar(
            s[i] as u32,
        ).len(),
{
    assert(s.take(i + 1) =~= s.take(i) + seq![s[i]]);
    lemma_encode_utf8_concat(s.take(i), seq![s[i]]);
    assert(seq![s[i]].drop_first() =~= Seq::<char>::empty());
    assert(encode_utf8(Seq::<char>::empty()) =~= Seq::<u8>::empty());
    assert(encode_utf8(seq![s[i]]) =~= encode_scalar(s[i] as u32));
}

/// Number of bytes in the UTF-8 encoding of `c`.
pub fn char_utf8_width(c: char) -> (w: usize)
    ensures
        w == encode_scalar(c as u32).len(),
        1 <= w <= 4,
{
    proof {
        vstd::utf8::char_is_scalar(c);
    }
    let x = c as u32;
    if x <= 0x7F {
        1
    } else if x <= 0x7FF {
        2
    } else if x <= 0xFFFF {
        3
    } else {
        4
    }
}

/// Whether the UTF-8 encoding of `s` takes at most `budget` bytes.
pub fn fits_utf8(s: &str, budget: usize) -> (r: bool)
    ensures
        r == (encode_utf8(s@).len() <= budget),
{
    let n = s.unicode_len();
    let mut total: usize = 0;
    let mut i: usize = 0;
    proof {
        assert(s@.take(0) =~= Seq::<char>::empty());
        assert(encode_utf8(Seq::<char>::empty()) =~= Seq::<u8>::empty());
    }
    while i < n
        invariant
            n == s@.len(),
            i <= n,
            total <= budget,
            total == encode_utf8(s@.take(i as int)).len(),
        decreases n - i,
    {
        let w = char_utf8_width(s.get_char(i));
        proof {
            lemma_encode_utf8_take_step(s@, i as int);
        }
        if w > budget - total {
            proof {
                assert(encode_utf8(s@) == encode_utf8(s@.take(i + 1)) + encode_utf8(
                    s@.skip(i + 1),
                )) by {
                    assert(s@ =~= s@.take(i + 1) + s@.skip(i + 1));
                    lemma_encode_utf8_concat(s@.take(i + 1), s@.skip(i + 1));
                }
            }
            return false;
        }
        total = total + w;
        i += 1;
    }
    assert(s@.take(n as int) =~= s@);
    true
}

/// The characters of `s`, in order.
pub fn chars_vec(s: &str) -> (v: Vec<char>)
    ensures
        v@ == s@,
{
    broadcast use vstd::string::group_string_axioms;

    let mut v: Vec<char> = Vec::new();
    let mut it = s.chars();
    assert(vstd::std_specs::iter::IteratorSpec::remaining(&it) == s@);
    loop
        invariant
            v@ + vstd::std_specs::iter::IteratorSpec::remaining(&it) == s@,
            vstd::std_specs::iter::IteratorSpec::obeys_prophetic_iter_laws(&it),
            vstd::std_specs::iter::IteratorSpec::decrease(&it) is Some,
        decreases vstd::std_specs::iter::IteratorSpec::decrease(&it)->0,
    {
        let ghost before = vstd::std_specs::iter::IteratorSpec::remaining(&it);
        match it.next() {
            Some(c) => {
                v.push(c);
                assert(v@ + vstd::std_specs::iter::IteratorSpec::remaining(&it) =~= s@);
            },
            None => {
                assert(v@ =~= s@);
                return v;
            },
        }
    }
}


/// The characters `c[from..to]` as a string.
pub fn collect_chars(c: &Vec<char>, from: usize, to: usize) -> (r: String)
    requires
        from <= to <= c.len(),
    ensures
        r@ == c@.subrange(from as int, to as int),
{
    let mut r = String::new();
    let mut i: usize = from;
    proof {
        assert(r@ =~= c@.subrange(from as int, from as int));
    }
    while i < to
        invariant
            from <= i <= to,
            to <= c.len(),
            r@ == c@.subrange(from as int, i as int),
        decreases to - i,
    {
        push_char(&mut r, c[i]);
        assert(r@ =~= c@.subrange(from as int, i + 1));
        i += 1;
    }
    r
}

/// Splitting `a + c + rest` at its first `c` gives `a` and `rest` when `a`
/// holds no `c`.
pub proof fn lemma_split_after(a: Seq<char>, c: char, rest: Seq<char>)
    requires
        !a.contains(c),
    ensures
        split_once_seq(a + seq![c] + rest, c) == Some((a, rest)),
{
    let s = a + seq![c] + rest;
    assert(s[a.len() as int] == c);
    assert(s.contains(c));
    assert forall|j: int| 0 <= j < a.len() implies s[j] != c by {
        assert(s[j] == a[j]);
    }
    assert(is_first_index(s, c, a.len() as int));
    let i = choose|i: int| is_first_index(s, c, i);
    assert(i == a.len()) by {
        if i < a.len() {
            assert(s[i] == a[i]);
        }
    }
    assert(s.subrange(0, i) =~= a);
    assert(s.subrange(i + 1, s.len() as int) =~= rest);
}


/// What `trim_start` leaves is empty or begins with a non-whitespace character.
pub proof fn lemma_trim_start_head(s: Seq<char>)
    ensures
        trim_start(s).len() == 0 || !is_ws(trim_start(s)[0]),
    decreases s.len(),
{
    if s.len() > 0 && is_ws(s[0]) {
        lemma_trim_start_head(s.drop_first());
    }
}

/// What `trim_end` leaves is a prefix of `s`, and is empty or ends with a
/// non-whitespace character.
pub proof fn lemma_trim_end_prefix(s: Seq<char>)
    ensures
        trim_end(s).len() <= s.len(),
        trim_end(s) =~= s.subrange(0, trim_end(s).len() as int),
        trim_end(s).len() == 0 || !is_ws(trim_end(s).last()),
    decreases s.len(),
{
    if s.len() > 0 && is_ws(s.last()) {
        lemma_trim_end_prefix(s.drop_last());
        assert(s.drop_last().subrange(0, trim_end(s).len() as int) =~= s.subrange(
            0,
            trim_end(s).len() as int,
        ));
    }
}

/// Trimming twice is trimming once.
pub proof fn lemma_trim_idempotent(s: Seq<char>)
    ensures
        trim_seq(trim_seq(s)) == trim_seq(s),
{
    let u = trim_start(s);
    let v = trim_end(u);
    lemma_trim_start_head(s);
    lemma_trim_end_prefix(u);
    if v.len() > 0 {
        assert(v[0] == u[0]);
    }
    assert(trim_start(v) == v);
    assert(trim_end(v) == v);
}

/// A sequence without whitespace is its own trim.
pub proof fn lemma_trim_no_ws(s: Seq<char>)
    requires
        forall|k: int| 0 <= k < s.len() ==> !is_ws(#[trigger] s[k]),
    ensures
        trim_seq(s) == s,
{
    assert(trim_start(s) == s);
    assert(trim_end(s) == s);
}

/// Trimming the end of `x + r`, where `x` ends with a non-whitespace
/// character, trims the end of `r` alone.
pub proof fn lemma_trim_end_append(x: Seq<char>, r: Seq<char>)
    requires
        x.len() > 0,
        !is_ws(x.last()),
    ensures
        trim_end(x + r) == x + trim_end(r),
    decreases r.len(),
{
    if r.len() > 0 && is_ws(r.last()) {
        lemma_trim_end_append(x, r.drop_last());
        assert((x + r).drop_last() =~= x + r.drop_last());
    } else if r.len() == 0 {
        assert(x + r =~= x);
    }
}

/// `split_once_seq` splits at the first occurrence.
pub proof fn lemma_split_once_at(s: Seq<char>, c: char, i: int)
    requires
        is_first_index(s, c, i),
    ensures
        split_once_seq(s, c) == Some((s.subrange(0, i), s.subrange(i + 1, s.len() as int))),
{
    assert(s.contains(c));
    let k = choose|k: int| is_first_index(s, c, k);
    assert(k == i) by {
        if k < i {
            assert(s[k] == c);
        } else if k > i {
            assert(s[i] == c);
        }
    }
}

/// Trimming the end of `y + r` trims only `r` when `r` keeps something, and
/// trims `y` when `r` is all whitespace.
pub proof fn lemma_trim_end_concat(y: Seq<char>, r: Seq<char>)
    ensures
        trim_end(r).len() > 0 ==> trim_end(y + r) == y + trim_end(r),
        trim_end(r).len() == 0 ==> trim_end(y + r) == trim_end(y),
    decreases r.len(),
{
    if r.len() == 0 {
        assert(y + r =~= y);
    } else if is_ws(r.last()) {
        lemma_trim_end_concat(y, r.drop_last());
        assert((y + r).drop_last() =~= y + r.drop_last());
    }
}

/// Truncating to `n` characters keeps a text that fits; a longer one keeps
/// its first `n` characters and gets `...`.
pub proof fn lemma_truncate_shape(s: Seq<char>, n: nat)
    ensures
        s.len() <= n ==> truncate_chars(s, n) == s,
        s.len() > n ==> truncate_chars(s, n).len() == n + 3 && truncate_chars(s, n).subrange(0, n as int)
            == s.subrange(0, n as int) && has_suffix(truncate_chars(s, n), seq!['.', '.', '.']),
        truncate_chars(s, n).len() <= s.len() + 3,
{
    if s.len() > n {
        let r = truncate_chars(s, n);
        assert(r.subrange(0, n as int) =~= s.subrange(0, n as int));
        assert(r.subrange(r.len() - 3, r.len() as int) =~= seq!['.', '.', '.']);
    }
}

/// `p` occurs somewhere in `s`.
pub open spec fn contains_seq(s: Seq<char>, p: Seq<char>) -> bool {
    exists|i: int| occurs_at(s, p, i)
}

/// Each part occurs in the parts joined by a separator, and the joined text
/// starts with the first part.
pub proof fn lemma_join_has_parts(parts: Seq<Seq<char>>, sep: Seq<char>)
    ensures
        forall|k: int| 0 <= k < parts.len() ==> contains_seq(join_seq(parts, sep), #[trigger] parts[k]),
        parts.len() > 0 ==> has_prefix(join_seq(parts, sep), parts[0]),
    decreases parts.len(),
{
    if parts.len() > 0 {
        let prev = parts.drop_last();
        lemma_join_has_parts(prev, sep);
        let j = join_seq(parts, sep);
        if parts.len() == 1 {
            assert(j == parts[0]);
            assert(occurs_at(j, parts[0], 0)) by {
                assert(j.subrange(0, parts[0].len() as int) =~= parts[0]);
            }
            assert(j.subrange(0, parts[0].len() as int) =~= parts[0]);
            assert forall|k: int| 0 <= k < parts.len() implies contains_seq(j, #[trigger] parts[k]) by {
                assert(k == 0);
                assert(occurs_at(j, parts[0], 0));
            }
        } else {
            let jp = join_seq(prev, sep);
            assert(j == jp + sep + parts.last());
            assert forall|k: int| 0 <= k < parts.len() implies contains_seq(j, #[trigger] parts[k]) by {
                if k < parts.len() - 1 {
                    assert(parts[k] == prev[k]);
                    assert(contains_seq(jp, prev[k]));
                    let i = choose|i: int| occurs_at(jp, prev[k], i);
                    assert(j.subrange(i, i + parts[k].len()) =~= jp.subrange(i, i + parts[k].len()));
                    assert(occurs_at(j, parts[k], i));
                } else {
                    let i = (jp + sep).len() as int;
                    assert(j.subrange(i, i + parts[k].len()) =~= parts[k]);
                    assert(occurs_at(j, parts[k], i));
                }
            }
            assert(prev[0] == parts[0]);
            assert(j.subrange(0, parts[0].len() as int) =~= jp.subrange(0, parts[0].len() as int));
        }
    }
}

/// Different numbers are written differently in decimal.
pub proof fn lemma_decimal_injective(a: nat, b: nat)
    requires
        decimal(a) == decimal(b),
    ensures
        a == b,
    decreases a,
{
    if a < 10 && b < 10 {
        assert(decimal(a)[0] == digit_char(a));
        assert(decimal(b)[0] == digit_char(b));
    } else if a < 10 {
        assert(decimal(b).len() == decimal(b / 10).len() + 1);
        assert(decimal(b / 10).len() >= 1) by {
            if b / 10 < 10 {
            } else {
                assert(decimal(b / 10) == decimal(b / 10 / 10).push(digit_char((b / 10) % 10)));
            }
        }
    } else if b < 10 {
        assert(decimal(a).len() == decimal(a / 10).len() + 1);
        assert(decimal(a / 10).len() >= 1) by {
            if a / 10 < 10 {
            } else {
                assert(decimal(a / 10) == decimal(a / 10 / 10).push(digit_char((a / 10) % 10)));
            }
        }
    } else {
        let da = decimal(a);
        let db = decimal(b);
        assert(da.last() == digit_char(a % 10));
        assert(db.last() == digit_char(b % 10));
        assert(da.drop_last() =~= decimal(a / 10));
        assert(db.drop_last() =~= decimal(b / 10));
        lemma_decimal_injective(a / 10, b / 10);
        assert(a % 10 == b % 10);
    }
}

proof fn lemma_digit_char_value(k: nat)
    requires
        k < 10,
    ensures
        ((digit_char(k) as u32) - ('0' as u32)) as nat == k,
        crate::callbacks::is_digit(digit_char(k)),
{
    assert(('0' as u32) == 48);
    if k == 0 {
    } else if k == 1 {
        assert(('1' as u32) == 49);
    } else if k == 2 {
        assert(('2' as u32) == 50);
    } else if k == 3 {
        assert(('3' as u32) == 51);
    } else if k == 4 {
        assert(('4' as u32) == 52);
    } else if k == 5 {
        assert(('5' as u32) == 53);
    } else if k == 6 {
        assert(('6' as u32) == 54);
    } else if k == 7 {
        assert(('7' as u32) == 55);
    } else if k == 8 {
        assert(('8' as u32) == 56);
    } else {
        assert(('9' as u32) == 57);
    }
}

proof fn lemma_decimal_digits(n: nat)
    ensures
        decimal(n).len() > 0,
        crate::callbacks::all_digits(decimal(n)),
        crate::callbacks::digits_value(decimal(n)) == n,
    decreases n,
{
    let d = decimal(n);
    if n < 10 {
        lemma_digit_char_value(n);
        assert(d == seq![digit_char(n)]);
        assert(d.drop_last() =~= Seq::<char>::empty());
        assert(d.last() == digit_char(n));
        assert(crate::callbacks::is_digit(d[0]));
        assert(crate::callbacks::digits_value(Seq::<char>::empty()) == 0);
        assert(crate::callbacks::digits_value(d) == crate::callbacks::digits_value(d.drop_last()) * 10 + ((d.last() as u32) - ('0' as u32)) as nat);
    } else {
        lemma_decimal_digits(n / 10);
        lemma_digit_char_value(n % 10);
        let p = decimal(n / 10);
        assert(d == p.push(digit_char(n % 10)));
        assert(d.drop_last() =~= p);
        assert(d.last() == digit_char(n % 10));
        assert forall|i: int| 0 <= i < d.len() implies crate::callbacks::is_digit(#[trigger] d[i]) by {
            if i < p.len() {
                assert(d[i] == p[i]);
            }
        }
        assert(crate::callbacks::digits_value(d) == crate::callbacks::digits_value(d.drop_last()) * 10 + ((d.last() as u32) - ('0' as u32)) as nat);
        assert(n == (n / 10) * 10 + n % 10);
    }
}

/// A number written in decimal is read back as that number.
pub proof fn lemma_parse_usize_reads_decimal(n: usize)
    ensures
        crate::callbacks::spec_parse_usize(decimal(n as nat)) == Some(n),
{
    lemma_decimal_digits(n as nat);
    let d = decimal(n as nat);
    assert(crate::callbacks::is_digit(d[0]));
    assert(crate::callbacks::digits_part(d) == d);
}

} // verus!
