//! The callback data of inline keyboards: what a press of a model picker or
//! todo button asks for.

use vstd::prelude::*;
use crate::config::LlmProvider;
use crate::models::{parse_provider, spec_callback};
use crate::text::{
    has_prefix, lemma_split_after, slice_chars, split_once, split_once_seq, starts_with, str_eq, to_owned,
};

verus! {

/// Whether `c` is an ASCII digit.
pub open spec fn is_digit(c: char) -> bool {
    '0' <= c && c <= '9'
}

/// The value of a string of decimal digits.
pub open spec fn digits_value(d: Seq<char>) -> nat
    decreases d.len(),
{
    if d.len() == 0 {
        0
    } else {
        digits_value(d.drop_last()) * 10 + ((d.last() as u32) - ('0' as u32)) as nat
    }
}

/// `s` without a leading `+`.
pub open spec fn digits_part(s: Seq<char>) -> Seq<char> {
    if s.len() > 0 && s[0] == '+' {
        s.drop_first()
    } else {
        s
    }
}

/// Every character of `d` is a digit.
pub open spec fn all_digits(d: Seq<char>) -> bool {
    forall|i: int| 0 <= i < d.len() ==> is_digit(#[trigger] d[i])
}

/// What `s.parse::<usize>()` yields: an optional `+`, then one or more
/// decimal digits whose value fits in `usize`.
pub open spec fn spec_parse_usize(s: Seq<char>) -> Option<usize> {
    let d = digits_part(s);
    if d.len() > 0 && all_digits(d) && digits_value(d) <= usize::MAX {
        Some(digits_value(d) as usize)
    } else {
        None
    }
}

proof fn lemma_digits_value_grows(d: Seq<char>, i: int)
    requires
        0 <= i <= d.len(),
        forall|j: int| 0 <= j < d.len() ==> is_digit(#[trigger] d[j]),
    ensures
        digits_value(d.take(i)) <= digits_value(d),
    decreases d.len() - i,
{
    if i < d.len() {
        let e = d.take(i + 1);
        lemma_digits_value_grows(d, i + 1);
        assert(e.drop_last() =~= d.take(i));
        assert(digits_value(e) == digits_value(d.take(i)) * 10 + ((e.last() as u32) - ('0' as u32)) as nat);
    } else {
        assert(d.take(i) =~= d);
    }
}

/// `s` parsed as a `usize` (as `str::parse::<usize>`).
pub fn parse_usize(s: &str) -> (r: Option<usize>)
    ensures
        r == spec_parse_usize(s@),
{
    let n = s.unicode_len();
    let mut start: usize = 0;
    if n > 0 && s.get_char(0) == '+' {
        start = 1;
    }
    let d = slice_chars(s, start, n);
    proof {
        if start == 1 {
            assert(d@ =~= s@.drop_first());
        } else {
            assert(d@ =~= s@);
        }
    }
    let m = d.unicode_len();
    if m == 0 {
        return None;
    }
    let mut acc: usize = 0;
    let mut i: usize = 0;
    proof {
        assert(d@.take(0) =~= Seq::<char>::empty());
    }
    while i < m
        invariant
            m == d@.len(),
            d@ == digits_part(s@),
            i <= m,
            forall|j: int| 0 <= j < i ==> is_digit(#[trigger] d@[j]),
            acc as nat == digits_value(d@.take(i as int)),
        decreases m - i,
    {
        let c = d.get_char(i);
        if !('0' <= c && c <= '9') {
            assert(!is_digit(d@[i as int]));
            return None;
        }
        let digit = (c as u32 - '0' as u32) as usize;
        let ghost t = d@.take(i + 1);
        proof {
            assert(t.drop_last() =~= d@.take(i as int));
            assert(t.last() == c);
            assert(digits_value(t) == digits_value(t.drop_last()) * 10 + ((t.last() as u32) - ('0' as u32)) as nat);
            assert(digits_value(t) == acc * 10 + digit);
        }
        match acc.checked_mul(10) {
            Some(x) => match x.checked_add(digit) {
                Some(y) => {
                    acc = y;
                },
                None => {
                    proof {
                        lemma_overflow_is_final(d@, i as int);
                    }
                    return None;
                },
            },
            None => {
                proof {
                    assert(digits_value(t) >= acc * 10) by (nonlinear_arith)
                        requires
                            digits_value(t) == acc * 10 + digit,
                            digit >= 0,
                    ;
                    assert(digits_value(t) > usize::MAX);
                    lemma_overflow_is_final(d@, i as int);
                }
                return None;
            },
        }
        i += 1;
    }
    assert(d@.take(m as int) =~= d@);
    Some(acc)
}

proof fn lemma_overflow_is_final(d: Seq<char>, i: int)
    requires
        0 <= i < d.len(),
        digits_value(d.take(i + 1)) > usize::MAX,
    ensures
        !(d.len() > 0 && all_digits(d) && digits_value(d) <= usize::MAX),
{
    if all_digits(d) {
        lemma_digits_value_grows(d, i + 1);
    }
}

/// The `k`-th piece of `s` split at every `c` (as `str::split(c).nth(k)`).
pub open spec fn nth_piece(s: Seq<char>, c: char, k: nat) -> Option<Seq<char>>
    decreases k,
{
    match split_once_seq(s, c) {
        Some((a, b)) => if k == 0 {
            Some(a)
        } else {
            nth_piece(b, c, (k - 1) as nat)
        },
        None => if k == 0 {
            Some(s)
        } else {
            None
        },
    }
}

/// The `k`-th piece of `s` split at every `c`.
pub fn nth_piece_exec(s: &str, c: char, k: usize) -> (r: Option<&str>)
    ensures
        crate::config::opt_view(r) == nth_piece(s@, c, k as nat),
    decreases k,
{
    match split_once(s, c) {
        Some((a, b)) => if k == 0 {
            Some(a)
        } else {
            nth_piece_exec(b, c, k - 1)
        },
        None => if k == 0 {
            Some(s)
        } else {
            None
        },
    }
}

/// What what follows the second `c` in `s` (as `s.splitn(3, c).nth(2)`).
pub open spec fn after_second(s: Seq<char>, c: char) -> Option<Seq<char>> {
    match split_once_seq(s, c) {
        Some((_, b)) => match split_once_seq(b, c) {
            Some((_, r)) => Some(r),
            None => None,
        },
        None => None,
    }
}

/// A press in the model picker.
pub enum ModelCallback {
    /// Back to the provider chooser.
    Menu,
    /// Browse the models of a provider.
    Provider(LlmProvider),
    /// A page of a model category, or of one upstream provider's models.
    Browse { category: String, provider: Option<String>, page: usize },
    /// A model's detail view.
    Detail(String),
    /// Back to the last browse page.
    BrowseBack,
    /// Select a model.
    Select(String),
    /// A page of the upstream provider list.
    ProviderList(usize),
    /// Apply a routing specifier.
    Spec(String),
}

/// A [`ModelCallback`] with its text viewed as characters.
pub enum ModelCallbackView {
    Menu,
    Provider(LlmProvider),
    Browse { category: Seq<char>, provider: Option<Seq<char>>, page: usize },
    Detail(Seq<char>),
    BrowseBack,
    Select(Seq<char>),
    ProviderList(usize),
    Spec(Seq<char>),
}

impl View for ModelCallback {
    type V = ModelCallbackView;

    open spec fn view(&self) -> ModelCallbackView {
        match self {
            ModelCallback::Menu => ModelCallbackView::Menu,
            ModelCallback::Provider(p) => ModelCallbackView::Provider(*p),
            ModelCallback::Browse { category, provider, page } => ModelCallbackView::Browse {
                category: category@,
                provider: crate::config::ostr(*provider),
                page: *page,
            },
            ModelCallback::Detail(m) => ModelCallbackView::Detail(m@),
            ModelCallback::BrowseBack => ModelCallbackView::BrowseBack,
            ModelCallback::Select(m) => ModelCallbackView::Select(m@),
            ModelCallback::ProviderList(p) => ModelCallbackView::ProviderList(*p),
            ModelCallback::Spec(s) => ModelCallbackView::Spec(s@),
        }
    }
}

/// A page number from an optional piece: its value when it parses, else 0.
pub open spec fn page_of(piece: Option<Seq<char>>) -> usize {
    match piece {
        Some(p) => match spec_parse_usize(p) {
            Some(n) => n,
            None => 0,
        },
        None => 0,
    }
}

/// The model picker action that callback data asks for, if any.
///
/// The data is split at `:` and its second piece names the action; the
/// model ID of a detail or select action is everything after the second `:`
/// (`model:detail:<id>`), or after the first for the short forms.
pub open spec fn spec_parse_model_callback(data: Seq<char>) -> Option<ModelCallbackView> {
    let first = nth_piece(data, ':', 0);
    if first == Some("d"@) || first == Some("s"@) {
        let id = match split_once_seq(data, ':') {
            Some((_, r)) => r,
            None => Seq::empty(),
        };
        if first == Some("d"@) {
            Some(ModelCallbackView::Detail(id))
        } else {
            Some(ModelCallbackView::Select(id))
        }
    } else {
        spec_parse_long_model_callback(data)
    }
}

/// The model picker action of callback data in the long form
/// `model:<action>:...`.
pub open spec fn spec_parse_long_model_callback(data: Seq<char>) -> Option<ModelCallbackView> {
    let action = nth_piece(data, ':', 1);
    let arg = |k: nat| nth_piece(data, ':', k);
    match action {
        None => None,
        Some(a) => if a == "menu"@ {
            Some(ModelCallbackView::Menu)
        } else if a == "provider"@ {
            match arg(2) {
                Some(p) => match (if p == "openrouter"@ {
                    Some(LlmProvider::Openrouter)
                } else if p == "codex"@ {
                    Some(LlmProvider::Codex)
                } else {
                    None
                }) {
                    Some(prov) => Some(ModelCallbackView::Provider(prov)),
                    None => None,
                },
                None => None,
            }
        } else if a == "browse"@ {
            let category = match arg(2) {
                Some(c) => c,
                None => "free"@,
            };
            if category == "provider"@ {
                Some(
                    ModelCallbackView::Browse {
                        category,
                        provider: arg(3),
                        page: page_of(arg(4)),
                    },
                )
            } else {
                Some(ModelCallbackView::Browse { category, provider: None, page: page_of(arg(3)) })
            }
        } else if a == "detail"@ || a == "d"@ {
            Some(
                ModelCallbackView::Detail(
                    if a == "detail"@ {
                        match after_second(data, ':') {
                            Some(r) => r,
                            None => Seq::empty(),
                        }
                    } else {
                        match split_once_seq(data, ':') {
                            Some((_, r)) => r,
                            None => Seq::empty(),
                        }
                    },
                ),
            )
        } else if a == "browseback"@ {
            Some(ModelCallbackView::BrowseBack)
        } else if a == "select"@ || a == "s"@ {
            Some(
                ModelCallbackView::Select(
                    if a == "select"@ {
                        match after_second(data, ':') {
                            Some(r) => r,
                            None => Seq::empty(),
                        }
                    } else {
                        match split_once_seq(data, ':') {
                            Some((_, r)) => r,
                            None => Seq::empty(),
                        }
                    },
                ),
            )
        } else if a == "provider_list"@ {
            Some(ModelCallbackView::ProviderList(page_of(arg(2))))
        } else if a == "spec"@ {
            Some(
                ModelCallbackView::Spec(
                    match arg(2) {
                        Some(s) => s,
                        None => Seq::empty(),
                    },
                ),
            )
        } else {
            None
        },
    }
}

/// The detail and select callbacks of a model, long or short, are read
/// back as the detail and select actions of that very model.
pub proof fn lemma_picker_callbacks_read_back(id: Seq<char>)
    ensures
        spec_parse_model_callback(spec_callback("model:detail:"@, "d:"@, id)) == Some(
            ModelCallbackView::Detail(id),
        ),
        spec_parse_model_callback(spec_callback("model:select:"@, "s:"@, id)) == Some(
            ModelCallbackView::Select(id),
        ),
{
    reveal_strlit("model:detail:");
    reveal_strlit("model:select:");
    reveal_strlit("d:");
    reveal_strlit("s:");
    reveal_strlit("d");
    reveal_strlit("s");
    reveal_strlit("model");
    reveal_strlit("detail");
    reveal_strlit("select");
    reveal_strlit("menu");
    reveal_strlit("provider");
    reveal_strlit("browse");
    reveal_strlit("browseback");
    reveal_strlit("provider_list");
    reveal_strlit("spec");
    let model = "model"@;
    assert(!model.contains(':'));
    assert(!"detail"@.contains(':'));
    assert(!"select"@.contains(':'));
    assert(!"d"@.contains(':'));
    assert(!"s"@.contains(':'));
    // short forms
    assert("d:"@ + id =~= "d"@ + seq![':'] + id);
    lemma_split_after("d"@, ':', id);
    assert("s:"@ + id =~= "s"@ + seq![':'] + id);
    lemma_split_after("s"@, ':', id);
    // long forms
    let dt = "detail"@ + seq![':'] + id;
    let st = "select"@ + seq![':'] + id;
    assert("model:detail:"@ + id =~= model + seq![':'] + dt);
    assert("model:select:"@ + id =~= model + seq![':'] + st);
    lemma_split_after(model, ':', dt);
    lemma_split_after(model, ':', st);
    lemma_split_after("detail"@, ':', id);
    lemma_split_after("select"@, ':', id);
    assert(model != "d"@ && model != "s"@);
    assert("detail"@.len() != "menu"@.len() && "detail"@.len() != "provider"@.len());
    assert("detail"@[0] != "browse"@[0]);
    assert("select"@.len() != "menu"@.len() && "select"@.len() != "provider"@.len());
    assert("select"@.len() != "d"@.len() && "select"@.len() != "browseback"@.len());
    assert("select"@[0] != "browse"@[0] && "select"@[0] != "detail"@[0]);
    let sd = "d:"@ + id;
    let ss = "s:"@ + id;
    assert(nth_piece(sd, ':', 0) == Some("d"@));
    assert(spec_parse_model_callback(sd) == Some(ModelCallbackView::Detail(id)));
    assert(nth_piece(ss, ':', 0) == Some("s"@));
    assert("s"@[0] != "d"@[0]);
    assert(spec_parse_model_callback(ss) == Some(ModelCallbackView::Select(id)));
    let ld = "model:detail:"@ + id;
    let ls = "model:select:"@ + id;
    assert(nth_piece(ld, ':', 0) == Some(model));
    assert(nth_piece(dt, ':', 0) == Some("detail"@));
    assert(nth_piece(ld, ':', 1) == Some("detail"@));
    assert(after_second(ld, ':') == Some(id));
    assert(spec_parse_long_model_callback(ld) == Some(ModelCallbackView::Detail(id)));
    assert(spec_parse_model_callback(ld) == Some(ModelCallbackView::Detail(id)));
    assert(nth_piece(ls, ':', 0) == Some(model));
    assert(nth_piece(st, ':', 0) == Some("select"@));
    assert(nth_piece(ls, ':', 1) == Some("select"@));
    assert(after_second(ls, ':') == Some(id));
    assert(spec_parse_long_model_callback(ls) == Some(ModelCallbackView::Select(id)));
    assert(spec_parse_model_callback(ls) == Some(ModelCallbackView::Select(id)));
}

fn page_of_exec(piece: Option<&str>) -> (r: usize)
    ensures
        r == page_of(crate::config::opt_view(piece)),
{
    match piece {
        Some(p) => match parse_usize(p) {
            Some(n) => n,
            None => 0,
        },
        None => 0,
    }
}

fn model_id_of(data: &str, long: bool) -> (r: String)
    ensures
        r@ == if long {
            match after_second(data@, ':') {
                Some(r) => r,
                None => Seq::empty(),
            }
        } else {
            match split_once_seq(data@, ':') {
                Some((_, r)) => r,
                None => Seq::empty(),
            }
        },
{
    if long {
        match split_once(data, ':') {
            Some((_, b)) => match split_once(b, ':') {
                Some((_, r)) => to_owned(r),
                None => String::new(),
            },
            None => String::new(),
        }
    } else {
        match split_once(data, ':') {
            Some((_, r)) => to_owned(r),
            None => String::new(),
        }
    }
}

/// The model picker action that callback data asks for, if any.
pub fn parse_model_callback(data: &str) -> (r: Option<ModelCallback>)
    ensures
        match r {
            Some(c) => spec_parse_model_callback(data@) == Some(c@),
            None => spec_parse_model_callback(data@) is None,
        },
{
    if let Some(first) = nth_piece_exec(data, ':', 0) {
        if str_eq(first, "d") || str_eq(first, "s") {
            let id = match split_once(data, ':') {
                Some((_, r)) => to_owned(r),
                None => String::new(),
            };
            if str_eq(first, "d") {
                return Some(ModelCallback::Detail(id));
            } else {
                return Some(ModelCallback::Select(id));
            }
        }
    }
    let action = match nth_piece_exec(data, ':', 1) {
        Some(a) => a,
        None => return None,
    };
    if str_eq(action, "menu") {
        Some(ModelCallback::Menu)
    } else if str_eq(action, "provider") {
        match nth_piece_exec(data, ':', 2) {
            Some(p) => match parse_provider(p) {
                Some(prov) => Some(ModelCallback::Provider(prov)),
                None => None,
            },
            None => None,
        }
    } else if str_eq(action, "browse") {
        let category = match nth_piece_exec(data, ':', 2) {
            Some(c) => c,
            None => "free",
        };
        if str_eq(category, "provider") {
            let provider = match nth_piece_exec(data, ':', 3) {
                Some(p) => Some(to_owned(p)),
                None => None,
            };
            let page = page_of_exec(nth_piece_exec(data, ':', 4));
            Some(ModelCallback::Browse { category: to_owned(category), provider, page })
        } else {
            let page = page_of_exec(nth_piece_exec(data, ':', 3));
            Some(ModelCallback::Browse { category: to_owned(category), provider: None, page })
        }
    } else if str_eq(action, "detail") || str_eq(action, "d") {
        Some(ModelCallback::Detail(model_id_of(data, str_eq(action, "detail"))))
    } else if str_eq(action, "browseback") {
        Some(ModelCallback::BrowseBack)
    } else if str_eq(action, "select") || str_eq(action, "s") {
        Some(ModelCallback::Select(model_id_of(data, str_eq(action, "select"))))
    } else if str_eq(action, "provider_list") {
        Some(ModelCallback::ProviderList(page_of_exec(nth_piece_exec(data, ':', 2))))
    } else if str_eq(action, "spec") {
        let spec = match nth_piece_exec(data, ':', 2) {
            Some(s) => to_owned(s),
            None => String::new(),
        };
        Some(ModelCallback::Spec(spec))
    } else {
        None
    }
}

/// A press on the todo keyboard.
pub enum TodoCallback {
    /// Close the keyboard.
    Close,
    /// Show a page of the todo menu (`None`: the page number does not parse,
    /// and nothing is shown).
    Menu(Option<usize>),
    /// Toggle the todo with this ID.
    Toggle(String),
}

/// A [`TodoCallback`] with its text viewed as characters.
pub enum TodoCallbackView {
    Close,
    Menu(Option<usize>),
    Toggle(Seq<char>),
}

impl View for TodoCallback {
    type V = TodoCallbackView;

    open spec fn view(&self) -> TodoCallbackView {
        match self {
            TodoCallback::Close => TodoCallbackView::Close,
            TodoCallback::Menu(p) => TodoCallbackView::Menu(*p),
            TodoCallback::Toggle(id) => TodoCallbackView::Toggle(id@),
        }
    }
}

/// The todo action that callback data asks for; `None` for data that the
/// todo keyboard does not handle.
pub open spec fn spec_parse_todo_callback(data: Seq<char>) -> Option<TodoCallbackView> {
    if !has_prefix(data, "todo:"@) {
        None
    } else if data == "todo:close"@ {
        Some(TodoCallbackView::Close)
    } else if has_prefix(data, "todo:menu:"@) {
        Some(TodoCallbackView::Menu(spec_parse_usize(data.skip(10))))
    } else if has_prefix(data, "todo:toggle:"@) {
        Some(TodoCallbackView::Toggle(data.skip(12)))
    } else {
        None
    }
}

/// The todo action that callback data asks for, if the todo keyboard handles it.
pub fn parse_todo_callback(data: &str) -> (r: Option<TodoCallback>)
    ensures
        match r {
            Some(c) => spec_parse_todo_callback(data@) == Some(c@),
            None => spec_parse_todo_callback(data@) is None,
        },
{
    proof {
        reveal_strlit("todo:menu:");
        reveal_strlit("todo:toggle:");
    }
    if !starts_with(data, "todo:") {
        return None;
    }
    if str_eq(data, "todo:close") {
        return Some(TodoCallback::Close);
    }
    let n = data.unicode_len();
    if starts_with(data, "todo:menu:") {
        let page = parse_usize(slice_chars(data, 10, n));
        return Some(TodoCallback::Menu(page));
    }
    if starts_with(data, "todo:toggle:") {
        return Some(TodoCallback::Toggle(to_owned(slice_chars(data, 12, n))));
    }
    None
}

} // verus!
