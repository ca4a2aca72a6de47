//! A page of the model browser: one button per model of the page, the
//! navigation row and the way back.

use vstd::prelude::*;
use crate::config::LlmProvider;
use crate::models::{
    catalogue_name, codex_catalogue, detail_cb, is_known_codex_model, known_models, spec_callback,
    Button,
};
use crate::config::strs;
use crate::order::{
    insert_sorted, lemma_lex_asymmetric, lemma_lex_transitive, lex_lt, sorted_strict, str_lt,
};
use crate::telegram::{chars_within_from, utf8_len};
use crate::text::{chars_vec, collect_chars, decimal, fits_utf8, push_str, to_owned, u64_to_decimal};
use crate::todos::{button_view, chars_within, rows_view};

verus! {

/// How many models one page of the browser shows.
pub const MODELS_PER_PAGE: usize = 6;

/// How many pages `total` models fill (one page when there are none).
pub open spec fn browse_page_count(total: nat) -> nat {
    if total == 0 {
        1
    } else {
        ((total + 5) / 6) as nat
    }
}

/// The page shown: the requested one, at most the last.
pub open spec fn browse_shown_page(total: nat, page: nat) -> nat {
    let pages = browse_page_count(total);
    if page < pages {
        page
    } else {
        (pages - 1) as nat
    }
}

/// The first and one-past-last index of the models on the page shown.
pub open spec fn browse_range(total: nat, page: nat) -> (nat, nat) {
    let start = browse_shown_page(total, page) * 6;
    (start, if start + 6 < total {
        start + 6
    } else {
        total
    })
}

/// The pages of the browser list every model once: the first starts at the
/// first model, each ends where the next starts, none is empty, and the last
/// ends at the last model.
pub proof fn lemma_browse_pages_cover(total: nat)
    requires
        total > 0,
    ensures
        browse_range(total, 0).0 == 0,
        browse_range(total, (browse_page_count(total) - 1) as nat).1 == total,
        forall|p: nat|
            p + 1 < browse_page_count(total) ==> #[trigger] browse_range(total, p).1 == browse_range(
                total,
                p + 1,
            ).0,
        forall|p: nat|
            p < browse_page_count(total) ==> #[trigger] browse_range(total, p).0 < browse_range(
                total,
                p,
            ).1,
{
    let pages = browse_page_count(total);
    assert(pages == (total + 5) / 6);
    assert(pages >= 1);
    assert((pages - 1) * 6 < total) by (nonlinear_arith)
        requires
            pages == (total + 5) / 6,
            total > 0,
    ;
    assert(total <= pages * 6) by (nonlinear_arith)
        requires
            pages == (total + 5) / 6,
    ;
    assert forall|p: nat| p + 1 < pages implies #[trigger] browse_range(total, p).1 == browse_range(
        total,
        p + 1,
    ).0 by {
        assert(p * 6 + 6 == (p + 1) * 6) by (nonlinear_arith);
        assert((p + 1) * 6 <= (pages - 1) * 6) by (nonlinear_arith)
            requires
                p + 1 <= pages - 1,
        ;
    }
    assert forall|p: nat| p < pages implies #[trigger] browse_range(total, p).0
        < browse_range(total, p).1 by {
        assert(p * 6 <= (pages - 1) * 6) by (nonlinear_arith)
            requires
                p <= pages - 1,
        ;
    }
    assert(((pages - 1) as nat) * 6 + 6 >= total) by (nonlinear_arith)
        requires
            total <= pages * 6,
            pages >= 1,
    ;
}

/// The name a model is listed under: its name, or its ID when it has none.
pub open spec fn display_name(id: Seq<char>, name: Seq<char>) -> Seq<char> {
    if name.len() == 0 {
        id
    } else {
        name
    }
}

/// Whether cutting the label of `name` to 39 bytes, as done for names over
/// 40 bytes, falls on a character boundary.
pub open spec fn label_cut_ok(name: Seq<char>) -> bool {
    cut_ok(name, 40, 39)
}

/// The button label of a model: its name, cut to 39 bytes and `…` when it
/// is over 40 bytes.
pub open spec fn model_label(name: Seq<char>) -> Seq<char> {
    cut_label(name, 40, 39)
}

/// The callback that opens page `page` of a category (of one provider's
/// models when `provider` is given).
pub open spec fn browse_cb(category: Seq<char>, provider: Option<Seq<char>>, page: nat) -> Seq<
    char,
> {
    match provider {
        Some(p) => "model:browse:"@ + category + ":"@ + p + ":"@ + decimal(page),
        None => "model:browse:"@ + category + ":"@ + decimal(page),
    }
}

/// The navigation row of page `page` out of `pages`: back, position (only
/// with more than one page), forward.
pub open spec fn browse_nav(
    category: Seq<char>,
    provider: Option<Seq<char>>,
    page: nat,
    pages: nat,
) -> Seq<(Seq<char>, Seq<char>)> {
    (if page > 0 {
        seq![("◀ Prev"@, browse_cb(category, provider, (page - 1) as nat))]
    } else {
        Seq::empty()
    }) + (if pages > 1 {
        seq![(decimal(page + 1) + "/"@ + decimal(pages), "noop"@)]
    } else {
        Seq::empty()
    }) + (if page + 1 < pages {
        seq![("Next ▶"@, browse_cb(category, provider, page + 1))]
    } else {
        Seq::empty()
    })
}

/// The heading of a category.
pub open spec fn spec_category_label(category: Seq<char>, provider: Option<Seq<char>>) -> Seq<
    char,
> {
    if category == "free"@ {
        "Free Models"@
    } else if category == "provider"@ {
        match provider {
            Some(p) => if p == "all"@ {
                "All Models"@
            } else {
                p
            },
            None => "Provider"@,
        }
    } else if category == "newest"@ {
        "Newest"@
    } else if category == "popular"@ {
        "Popular"@
    } else {
        "Models"@
    }
}

/// The heading of a category.
pub fn category_label(category: &str, provider: Option<&str>) -> (r: String)
    ensures
        r@ == spec_category_label(category@, crate::config::opt_view(provider)),
{
    if crate::text::str_eq(category, "free") {
        to_owned("Free Models")
    } else if crate::text::str_eq(category, "provider") {
        match provider {
            Some(p) => if crate::text::str_eq(p, "all") {
                to_owned("All Models")
            } else {
                to_owned(p)
            },
            None => to_owned("Provider"),
        }
    } else if crate::text::str_eq(category, "newest") {
        to_owned("Newest")
    } else if crate::text::str_eq(category, "popular") {
        to_owned("Popular")
    } else {
        to_owned("Models")
    }
}

/// The text above a page of `total` models; `escaped_label` is the category
/// label escaped for MarkdownV2.
pub fn browse_title(escaped_label: &str, total: usize) -> (r: String)
    ensures
        r@ == "*"@ + escaped_label@ + "* \\("@ + decimal(total as nat) + " models\\)"@,
{
    let mut t = to_owned("*");
    push_str(&mut t, escaped_label);
    push_str(&mut t, "* \\(");
    let d = u64_to_decimal(total as u64);
    push_str(&mut t, d.as_str());
    push_str(&mut t, " models\\)");
    t
}

/// A model's button label takes at most 42 bytes.
pub proof fn lemma_model_label_fits(name: Seq<char>)
    ensures
        utf8_len(model_label(name)) <= 42,
{
    if utf8_len(name) > 40 {
        let cut = name.take(chars_within(name, 39) as int);
        crate::telegram::lemma_chars_within_bound(name, 39);
        crate::todos::lemma_ellipsis_bytes();
        crate::text::lemma_encode_utf8_concat(cut, "…"@);
    }
}

/// The button label of a model.
pub fn model_button_label(name: &str) -> (r: String)
    requires
        label_cut_ok(name@),
    ensures
        r@ == model_label(name@),
{
    cut_button_label(name, 40, 39)
}

/// A page of the model browser.
pub struct BrowseMenu {
    /// Whether the category has no models; the page then shows a note and
    /// only the way back.
    pub empty: bool,
    pub rows: Vec<Vec<Button>>,
}

/// The browser page for `page` of `models` (IDs and names, in the order
/// shown): for no models only a way back to the menu; else one button per
/// model of the page (its label, opening its detail view), the navigation
/// row when it has a button, and a way back (to the provider list when
/// browsing one provider's models).
pub open spec fn browse_menu_matches(
    m: BrowseMenu,
    category: Seq<char>,
    provider: Option<Seq<char>>,
    models: Seq<(Seq<char>, Seq<char>)>,
    page: nat,
) -> bool {
    let total = models.len();
    let rows = rows_view(m.rows@);
    if total == 0 {
        &&& m.empty
        &&& rows == seq![seq![("↩ Back"@, "model:menu"@)]]
    } else {
        let pages = browse_page_count(total);
        let p = browse_shown_page(total, page);
        let (start, end) = browse_range(total, page);
        let nav = browse_nav(category, provider, p, pages);
        let back = if provider is Some {
            "model:provider_list"@
        } else {
            "model:menu"@
        };
        let after = end - start;
        &&& !m.empty
        &&& rows.len() == after + (if nav.len() > 0 {
            1int
        } else {
            0int
        }) + 1
        &&& forall|i: int|
            0 <= i < after ==> #[trigger] rows[i] == seq![
                (
                    model_label(display_name(models[start + i].0, models[start + i].1)),
                    spec_callback("model:detail:"@, "d:"@, models[start + i].0),
                ),
            ]
        &&& nav.len() > 0 ==> rows[after] == nav
        &&& rows.last() == seq![("↩ Back"@, back)]
    }
}

/// Whether every label on the page shown can be cut where it must be.
pub open spec fn page_labels_ok(models: Seq<(Seq<char>, Seq<char>)>, page: nat) -> bool {
    let (start, end) = browse_range(models.len(), page);
    forall|i: int|
        start <= i < end ==> label_cut_ok(#[trigger] display_name(models[i].0, models[i].1))
}

fn page_cb(category: &str, provider: Option<&str>, page: usize) -> (r: String)
    ensures
        r@ == browse_cb(category@, crate::config::opt_view(provider), page as nat),
{
    let mut r = to_owned("model:browse:");
    push_str(&mut r, category);
    push_str(&mut r, ":");
    if let Some(p) = provider {
        push_str(&mut r, p);
        push_str(&mut r, ":");
    }
    let d = u64_to_decimal(page as u64);
    push_str(&mut r, d.as_str());
    r
}

fn button(label: String, data: String) -> (b: Button)
    ensures
        b.label@ == label@,
        b.data@ == data@,
{
    Button { label, data }
}

/// The browser page for `page` of `models`.
pub fn browse_menu(
    category: &str,
    provider: Option<&str>,
    models: &Vec<(String, String)>,
    page: usize,
) -> (r: BrowseMenu)
    requires
        page_labels_ok(models@.map_values(|m: (String, String)| (m.0@, m.1@)), page as nat),
    ensures
        browse_menu_matches(
            r,
            category@,
            crate::config::opt_view(provider),
            models@.map_values(|m: (String, String)| (m.0@, m.1@)),
            page as nat,
        ),
{
    let ghost mv = models@.map_values(|m: (String, String)| (m.0@, m.1@));
    let total = models.len();
    if total == 0 {
        let mut rows: Vec<Vec<Button>> = Vec::new();
        let mut back: Vec<Button> = Vec::new();
        back.push(button(to_owned("↩ Back"), to_owned("model:menu")));
        assert(back@.map_values(|b: Button| button_view(b)) =~= seq![("↩ Back"@, "model:menu"@)]);
        rows.push(back);
        assert(rows_view(rows@)[0] == seq![("↩ Back"@, "model:menu"@)]);
        assert(rows_view(rows@) =~= seq![seq![("↩ Back"@, "model:menu"@)]]);
        return BrowseMenu { empty: true, rows };
    }
    let pages = total / 6 + if total % 6 == 0 { 0 } else { 1 };
    assert(pages == browse_page_count(total as nat));
    let p = if page < pages { page } else { pages - 1 };
    assert(p * 6 < total) by (nonlinear_arith)
        requires
            p < pages,
            pages == total / 6 + if total % 6 == 0 { 0int } else { 1int },
            total > 0,
    ;
    let start = p * 6;
    let end = if total - start > 6 { start + 6 } else { total };
    assert((start as nat, end as nat) == browse_range(total as nat, page as nat));
    let mut rows: Vec<Vec<Button>> = Vec::new();
    let mut i: usize = start;
    while i < end
        invariant
            start <= i <= end <= total,
            total == models@.len(),
            mv == models@.map_values(|m: (String, String)| (m.0@, m.1@)),
            (start as nat, end as nat) == browse_range(total as nat, page as nat),
            page_labels_ok(mv, page as nat),
            rows@.len() == i - start,
            forall|k: int|
                0 <= k < i - start ==> #[trigger] rows_view(rows@)[k] == seq![
                    (
                        model_label(display_name(mv[start + k].0, mv[start + k].1)),
                        spec_callback("model:detail:"@, "d:"@, mv[start + k].0),
                    ),
                ],
        decreases end - i,
    {
        let (id, name) = (&models[i].0, &models[i].1);
        assert(mv[i as int] == (id@, name@));
        let shown: &str = if name.as_str().unicode_len() == 0 {
            id.as_str()
        } else {
            name.as_str()
        };
        assert(shown@ == display_name(id@, name@));
        assert(label_cut_ok(display_name(mv[i as int].0, mv[i as int].1)));
        let label = model_button_label(shown);
        let data = detail_cb(id.as_str());
        let mut row: Vec<Button> = Vec::new();
        row.push(button(label, data));
        let ghost before = rows@;
        rows.push(row);
        proof {
            assert forall|k: int| 0 <= k < i + 1 - start implies #[trigger] rows_view(rows@)[k]
                == seq![
                (
                    model_label(display_name(mv[start + k].0, mv[start + k].1)),
                    spec_callback("model:detail:"@, "d:"@, mv[start + k].0),
                ),
            ] by {
                if k < i - start {
                    assert(rows@[k] == before[k]);
                    assert(rows_view(rows@)[k] == rows_view(before)[k]);
                } else {
                    assert(rows_view(rows@)[k] =~= seq![
                        (
                            model_label(display_name(mv[start + k].0, mv[start + k].1)),
                            spec_callback("model:detail:"@, "d:"@, mv[start + k].0),
                        ),
                    ]);
                }
            }
        }
        i += 1;
    }
    let ghost page_rows = rows@;
    let mut nav: Vec<Button> = Vec::new();
    if p > 0 {
        nav.push(button(to_owned("◀ Prev"), page_cb(category, provider, p - 1)));
    }
    if pages > 1 {
        let mut counter = u64_to_decimal((p + 1) as u64);
        push_str(&mut counter, "/");
        let pg = u64_to_decimal(pages as u64);
        push_str(&mut counter, pg.as_str());
        nav.push(button(counter, to_owned("noop")));
    }
    if p + 1 < pages {
        nav.push(button(to_owned("Next ▶"), page_cb(category, provider, p + 1)));
    }
    let ghost navv = browse_nav(category@, crate::config::opt_view(provider), p as nat, pages as nat);
    assert(nav@.map_values(|b: Button| button_view(b)) =~= navv);
    let has_nav = nav.len() > 0;
    if has_nav {
        rows.push(nav);
    }
    let ghost before_back = rows@;
    let mut back: Vec<Button> = Vec::new();
    if provider.is_some() {
        back.push(button(to_owned("↩ Back"), to_owned("model:provider_list")));
    } else {
        back.push(button(to_owned("↩ Back"), to_owned("model:menu")));
    }
    rows.push(back);
    proof {
        let after = end - start;
        assert forall|k: int| 0 <= k < after implies #[trigger] rows_view(rows@)[k] == seq![
            (
                model_label(display_name(mv[start + k].0, mv[start + k].1)),
                spec_callback("model:detail:"@, "d:"@, mv[start + k].0),
            ),
        ] by {
            assert(rows@[k] == page_rows[k]);
            assert(rows_view(rows@)[k] == rows_view(page_rows)[k]);
        }
        if has_nav {
            assert(rows_view(rows@)[after as int] == navv);
        }
        assert(rows_view(rows@).last() =~= seq![
            (
                "↩ Back"@,
                if provider is Some {
                    "model:provider_list"@
                } else {
                    "model:menu"@
                },
            ),
        ]);
    }
    BrowseMenu { empty: false, rows }
}

/// A model as the browser sorts it: its ID, its name, when it was created,
/// and its place in the catalogue's own order (for "popular").
pub struct BrowseModel {
    pub id: String,
    pub name: String,
    pub created: u64,
    pub rank: Option<usize>,
}

/// How a category orders its models.
#[derive(Clone, Copy, Debug, PartialEq, Eq, Structural)]
pub enum BrowseOrder {
    /// Most recently created first.
    Newest,
    /// In the catalogue's order; models missing from it first.
    Popular,
    /// By name.
    ByName,
}

/// How the category `category` orders its models.
pub open spec fn spec_browse_order(category: Seq<char>) -> BrowseOrder {
    if category == "newest"@ {
        BrowseOrder::Newest
    } else if category == "popular"@ {
        BrowseOrder::Popular
    } else {
        BrowseOrder::ByName
    }
}

/// How the category `category` orders its models.
pub fn browse_order(category: &str) -> (r: BrowseOrder)
    ensures
        r == spec_browse_order(category@),
{
    if crate::text::str_eq(category, "newest") {
        BrowseOrder::Newest
    } else if crate::text::str_eq(category, "popular") {
        BrowseOrder::Popular
    } else {
        BrowseOrder::ByName
    }
}

/// Whether `a` comes strictly before `b` in the order `order`.
pub open spec fn goes_before(order: BrowseOrder, a: BrowseModel, b: BrowseModel) -> bool {
    match order {
        BrowseOrder::Newest => a.created > b.created,
        BrowseOrder::Popular => match (a.rank, b.rank) {
            (None, Some(_)) => true,
            (Some(x), Some(y)) => x < y,
            _ => false,
        },
        BrowseOrder::ByName => lex_lt(a.name@, b.name@),
    }
}

/// No model of `s` comes before an earlier one.
pub open spec fn sorted_for_browse(s: Seq<BrowseModel>, order: BrowseOrder) -> bool {
    forall|i: int, j: int| 0 <= i < j < s.len() ==> !goes_before(order, #[trigger] s[j], #[trigger] s[i])
}

proof fn lemma_goes_before_transitive(order: BrowseOrder, a: BrowseModel, b: BrowseModel, c: BrowseModel)
    requires
        goes_before(order, a, b),
        goes_before(order, b, c),
    ensures
        goes_before(order, a, c),
{
    if order == BrowseOrder::ByName {
        lemma_lex_transitive(a.name@, b.name@, c.name@);
    }
}

proof fn lemma_goes_before_asymmetric(order: BrowseOrder, a: BrowseModel, b: BrowseModel)
    requires
        goes_before(order, a, b),
    ensures
        !goes_before(order, b, a),
{
    if order == BrowseOrder::ByName {
        lemma_lex_asymmetric(a.name@, b.name@);
    }
}

fn goes_before_exec(order: BrowseOrder, a: &BrowseModel, b: &BrowseModel) -> (r: bool)
    ensures
        r == goes_before(order, *a, *b),
{
    match order {
        BrowseOrder::Newest => a.created > b.created,
        BrowseOrder::Popular => match (a.rank, b.rank) {
            (None, Some(_)) => true,
            (Some(x), Some(y)) => x < y,
            _ => false,
        },
        BrowseOrder::ByName => str_lt(a.name.as_str(), b.name.as_str()),
    }
}

/// The first place of `id` in the catalogue's order, if it is there.
pub fn rank_in(order: &Vec<String>, id: &str) -> (r: Option<usize>)
    ensures
        match r {
            Some(i) => i < order@.len() && order@[i as int]@ == id@ && forall|j: int|
                0 <= j < i ==> #[trigger] order@[j]@ != id@,
            None => forall|j: int| 0 <= j < order@.len() ==> #[trigger] order@[j]@ != id@,
        },
{
    let n = order.len();
    let mut i: usize = 0;
    while i < n
        invariant
            n == order@.len(),
            i <= n,
            forall|j: int| 0 <= j < i ==> #[trigger] order@[j]@ != id@,
        decreases n - i,
    {
        if crate::text::str_eq(order[i].as_str(), id) {
            return Some(i);
        }
        i += 1;
    }
    None
}

/// Neither model comes before the other in the order `order`.
pub open spec fn same_place(order: BrowseOrder, a: BrowseModel, b: BrowseModel) -> bool {
    !goes_before(order, a, b) && !goes_before(order, b, a)
}

/// `r` holds the models of `models` arranged by `perm` (model `k` of `r` is
/// model `perm[k]` of `models`, each taken once), and models in the same
/// place keep their relative order.
pub open spec fn stable_arrangement(
    r: Seq<BrowseModel>,
    models: Seq<BrowseModel>,
    order: BrowseOrder,
    perm: Seq<int>,
) -> bool {
    &&& perm.len() == r.len()
    &&& r.len() == models.len()
    &&& forall|k: int| 0 <= k < r.len() ==> 0 <= #[trigger] perm[k] < models.len() && r[k] == models[perm[k]]
    &&& forall|k: int, l: int| 0 <= k < l < r.len() ==> #[trigger] perm[k] != #[trigger] perm[l]
    &&& forall|k: int, l: int|
        0 <= k < l < r.len() && same_place(order, #[trigger] r[k], #[trigger] r[l]) ==> perm[k]
            < perm[l]
}

proof fn lemma_goes_before_split(order: BrowseOrder, a: BrowseModel, b: BrowseModel, c: BrowseModel)
    requires
        goes_before(order, a, c),
    ensures
        goes_before(order, a, b) || goes_before(order, b, c),
{
    if order == BrowseOrder::ByName && !lex_lt(a.name@, b.name@) {
        if a.name@ != b.name@ {
            crate::order::lemma_lex_total(a.name@, b.name@);
            lemma_lex_transitive(b.name@, a.name@, c.name@);
        }
    }
}

/// The models in the order of `order`: the same models, none after one
/// that it should come before, and models in the same place in the order
/// they came in.
pub fn sort_for_browse(models: Vec<BrowseModel>, order: BrowseOrder) -> (r: Vec<BrowseModel>)
    ensures
        r@.to_multiset() == models@.to_multiset(),
        sorted_for_browse(r@, order),
        exists|perm: Seq<int>| stable_arrangement(r@, models@, order, perm),
{
    broadcast use vstd::multiset::group_multiset_axioms;

    let ghost original = models@;
    let mut rest = models;
    let mut out: Vec<BrowseModel> = Vec::new();
    let ghost mut perm: Seq<int> = Seq::empty();
    proof {
        assert(out@.to_multiset() =~= vstd::multiset::Multiset::empty()) by {
            broadcast use vstd::seq_lib::to_multiset_len;
            assert(out@.to_multiset().len() == 0);
        }
        assert(rest@ =~= original.take(rest@.len() as int));
    }
    loop
        invariant
            out@.to_multiset().add(rest@.to_multiset()) == original.to_multiset(),
            original == models@,
            sorted_for_browse(out@, order),
            rest@ == original.take(rest@.len() as int),
            out@.len() + rest@.len() == original.len(),
            perm.len() == out@.len(),
            forall|k: int|
                0 <= k < out@.len() ==> rest@.len() <= #[trigger] perm[k] < original.len()
                    && out@[k] == original[perm[k]],
            forall|k: int, l: int| 0 <= k < l < out@.len() ==> #[trigger] perm[k] != #[trigger] perm[l],
            forall|k: int, l: int|
                0 <= k < l < out@.len() && same_place(order, #[trigger] out@[k], #[trigger] out@[l])
                    ==> perm[k] < perm[l],
        decreases rest@.len(),
    {
        let ghost before_rest = rest@;
        match rest.pop() {
            None => {
                assert(rest@.len() == 0);
                assert(rest@.to_multiset() =~= vstd::multiset::Multiset::empty()) by {
                    broadcast use vstd::seq_lib::to_multiset_len;
                    assert(rest@.to_multiset().len() == 0);
                }
                assert(out@.to_multiset().add(rest@.to_multiset()) =~= out@.to_multiset());
                assert(out@.to_multiset() == original.to_multiset());
                assert(stable_arrangement(out@, models@, order, perm));
                return out;
            },
            Some(x) => {
                assert(before_rest =~= rest@.push(x));
                let ghost m: int = rest@.len() as int;
                assert(rest@ =~= original.take(m));
                assert(x == original[m]);
                let n = out.len();
                let mut k: usize = 0;
                while k < n && goes_before_exec(order, &out[k], &x)
                    invariant
                        n == out@.len(),
                        k <= n,
                        forall|i: int| 0 <= i < k ==> goes_before(order, #[trigger] out@[i], x),
                    decreases n - k,
                {
                    k += 1;
                }
                let ghost old_out = out@;
                let ghost old_perm = perm;
                proof {
                    // nothing from `k` on comes before `x`
                    assert forall|j: int| k <= j < n implies !goes_before(
                        order,
                        #[trigger] old_out[j],
                        x,
                    ) by {
                        if goes_before(order, old_out[j], x) && j > k {
                            lemma_goes_before_split(order, old_out[j], old_out[k as int], x);
                        }
                    }
                    assert forall|i: int| 0 <= i < k implies !goes_before(
                        order,
                        x,
                        #[trigger] old_out[i],
                    ) by {
                        lemma_goes_before_asymmetric(order, old_out[i], x);
                    }
                }
                out.insert(k, x);
                proof {
                    perm = old_perm.insert(k as int, m);
                    let s = out@;
                    assert(s == old_out.insert(k as int, x));
                    assert forall|i: int, j: int| 0 <= i < j < s.len() implies !goes_before(
                        order,
                        #[trigger] s[j],
                        #[trigger] s[i],
                    ) by {
                        if i < k && j < k {
                            assert(s[i] == old_out[i] && s[j] == old_out[j]);
                        } else if i < k && j == k {
                            assert(s[i] == old_out[i]);
                        } else if i < k {
                            assert(s[i] == old_out[i] && s[j] == old_out[j - 1]);
                        } else if i == k {
                            assert(s[j] == old_out[j - 1]);
                        } else {
                            assert(s[i] == old_out[i - 1] && s[j] == old_out[j - 1]);
                        }
                    }
                    assert forall|q: int| 0 <= q < s.len() implies rest@.len() <= #[trigger] perm[q]
                        < original.len() && s[q] == original[perm[q]] by {
                        if q < k {
                            assert(s[q] == old_out[q] && perm[q] == old_perm[q]);
                        } else if q > k {
                            assert(s[q] == old_out[q - 1] && perm[q] == old_perm[q - 1]);
                        }
                    }
                    assert forall|i: int, j: int| 0 <= i < j < s.len() implies #[trigger] perm[i]
                        != #[trigger] perm[j] by {
                        if i < k && j < k {
                        } else if i < k && j == k {
                            assert(perm[i] == old_perm[i]);
                        } else if i < k {
                            assert(perm[i] == old_perm[i] && perm[j] == old_perm[j - 1]);
                        } else if i == k {
                            assert(perm[j] == old_perm[j - 1]);
                        } else {
                            assert(perm[i] == old_perm[i - 1] && perm[j] == old_perm[j - 1]);
                        }
                    }
                    assert forall|i: int, j: int|
                        0 <= i < j < s.len() && same_place(
                            order,
                            #[trigger] s[i],
                            #[trigger] s[j],
                        ) implies perm[i] < perm[j] by {
                        if i < k && j < k {
                            assert(s[i] == old_out[i] && s[j] == old_out[j]);
                        } else if i < k && j == k {
                            assert(s[i] == old_out[i]);
                            assert(goes_before(order, old_out[i], x));
                        } else if i < k {
                            assert(s[i] == old_out[i] && s[j] == old_out[j - 1]);
                            assert(perm[i] == old_perm[i] && perm[j] == old_perm[j - 1]);
                        } else if i == k {
                            assert(perm[j] == old_perm[j - 1]);
                        } else {
                            assert(s[i] == old_out[i - 1] && s[j] == old_out[j - 1]);
                            assert(perm[i] == old_perm[i - 1] && perm[j] == old_perm[j - 1]);
                        }
                    }
                    vstd::seq_lib::to_multiset_insert(old_out, k as int, x);
                    vstd::seq_lib::to_multiset_build(rest@, x);
                    assert(out@.to_multiset() == old_out.to_multiset().insert(x));
                    assert(before_rest.to_multiset() == rest@.to_multiset().insert(x));
                    assert(out@.to_multiset().add(rest@.to_multiset()) =~= old_out.to_multiset().add(
                        before_rest.to_multiset(),
                    ));
                }
            },
        }
    }
}

/// How a model's price reads in its detail view: Codex models come with
/// the subscription; other models are free or cost the given amount per
/// million tokens.
pub open spec fn spec_pricing_text(is_codex: bool, is_free: bool, per_million: Seq<char>) -> Seq<
    char,
> {
    if is_codex {
        "Included with ChatGPT/Codex subscription"@
    } else if is_free {
        "🆓 Free"@
    } else {
        "💲 "@ + per_million + " per 1M tokens"@
    }
}

/// How a model's price reads in its detail view.
pub fn pricing_text(is_codex: bool, is_free: bool, per_million: &str) -> (r: String)
    ensures
        r@ == spec_pricing_text(is_codex, is_free, per_million@),
{
    if is_codex {
        to_owned("Included with ChatGPT/Codex subscription")
    } else if is_free {
        to_owned("🆓 Free")
    } else {
        let mut t = to_owned("💲 ");
        push_str(&mut t, per_million);
        push_str(&mut t, " per 1M tokens");
        t
    }
}

/// The detail view of a model; the name, context and price come escaped for
/// MarkdownV2.
pub open spec fn spec_detail_text(
    name: Seq<char>,
    model_id: Seq<char>,
    context: Seq<char>,
    pricing: Seq<char>,
    is_config_default: bool,
    is_selected: bool,
) -> Seq<char> {
    "*"@ + name + "*\nID: `"@ + model_id + "`\nContext: "@ + context + "\nPricing: "@ + pricing
        + (if is_config_default {
        "\n📌 Config default"@
    } else {
        Seq::empty()
    }) + (if is_selected {
        "\n✅ Currently selected"@
    } else {
        Seq::empty()
    })
}

/// The detail view of a model.
pub fn detail_text(
    name: &str,
    model_id: &str,
    context: &str,
    pricing: &str,
    is_config_default: bool,
    is_selected: bool,
) -> (r: String)
    ensures
        r@ == spec_detail_text(name@, model_id@, context@, pricing@, is_config_default, is_selected),
{
    let mut t = to_owned("*");
    push_str(&mut t, name);
    push_str(&mut t, "*\nID: `");
    push_str(&mut t, model_id);
    push_str(&mut t, "`\nContext: ");
    push_str(&mut t, context);
    push_str(&mut t, "\nPricing: ");
    push_str(&mut t, pricing);
    if is_config_default {
        push_str(&mut t, "\n📌 Config default");
    }
    if is_selected {
        push_str(&mut t, "\n✅ Currently selected");
    }
    t
}

/// The buttons of a model's detail view: select (marked when selected) and
/// back to the page it came from.
pub fn detail_rows(model_id: &str, is_selected: bool) -> (r: Vec<Vec<Button>>)
    ensures
        rows_view(r@) == seq![
            seq![
                (
                    if is_selected {
                        "✅ Selected"@
                    } else {
                        "📌 Select Model"@
                    },
                    spec_callback("model:select:"@, "s:"@, model_id@),
                ),
            ],
            seq![("↩ Back"@, "model:browseback"@)],
        ],
{
    let label = if is_selected {
        to_owned("✅ Selected")
    } else {
        to_owned("📌 Select Model")
    };
    let mut select: Vec<Button> = Vec::new();
    select.push(button(label, crate::models::select_cb(model_id)));
    let mut back: Vec<Button> = Vec::new();
    back.push(button(to_owned("↩ Back"), to_owned("model:browseback")));
    let ghost sv = select@.map_values(|b: Button| button_view(b));
    let ghost bv = back@.map_values(|b: Button| button_view(b));
    assert(sv =~= seq![
        (
            if is_selected {
                "✅ Selected"@
            } else {
                "📌 Select Model"@
            },
            spec_callback("model:select:"@, "s:"@, model_id@),
        ),
    ]);
    assert(bv =~= seq![("↩ Back"@, "model:browseback"@)]);
    let mut rows: Vec<Vec<Button>> = Vec::new();
    rows.push(select);
    rows.push(back);
    assert(rows_view(rows@)[0] =~= sv);
    assert(rows_view(rows@)[1] =~= bv);
    assert(rows_view(rows@) =~= seq![sv, bv]);
    rows
}

/// Whether a model may be picked from the menu of `provider`: any model for
/// OpenRouter, only a catalogued one for Codex.
pub fn pick_allowed(provider: LlmProvider, model_id: &str) -> (r: bool)
    ensures
        r == (provider != LlmProvider::Codex || catalogue_name(model_id@) is Some),
{
    match provider {
        LlmProvider::Codex => is_known_codex_model(model_id),
        LlmProvider::Openrouter => true,
    }
}

/// The confirmation after picking a model.
pub fn model_selected_text(display_name: &str) -> (r: String)
    ensures
        r@ == "✅ *Model Selected*\n\n`"@ + display_name@
            + "`\n\nUse `/model\\_default` to reset to config default\\."@,
{
    let mut t = to_owned("✅ *Model Selected*\n\n`");
    push_str(&mut t, display_name);
    push_str(&mut t, "`\n\nUse `/model\\_default` to reset to config default\\.");
    t
}

/// How many providers one page of the provider list shows.
pub const PROVIDERS_PER_PAGE: usize = 20;

/// How many pages `total` providers fill.
pub open spec fn provider_page_count(total: nat) -> nat {
    ((total + 19) / 20) as nat
}

/// The first and one-past-last index of the providers on the page shown
/// (the requested one, at most the last), for `total > 0`.
pub open spec fn provider_range(total: nat, page: nat) -> (nat, nat) {
    let pages = provider_page_count(total);
    let p = if page < pages {
        page
    } else {
        (pages - 1) as nat
    };
    let start = p * 20;
    (start, if start + 20 < total {
        start + 20
    } else {
        total
    })
}

/// Whether cutting a label of more than `limit` bytes to `keep` bytes falls
/// on a character boundary.
pub open spec fn cut_ok(name: Seq<char>, limit: nat, keep: nat) -> bool {
    utf8_len(name) <= limit || utf8_len(name.take(chars_within(name, keep) as int)) == keep
}

/// A label of at most `limit` bytes as it is; a longer one cut to `keep`
/// bytes and `…`.
pub open spec fn cut_label(name: Seq<char>, limit: nat, keep: nat) -> Seq<char> {
    if utf8_len(name) <= limit {
        name
    } else {
        name.take(chars_within(name, keep) as int) + "…"@
    }
}

fn cut_button_label(name: &str, limit: usize, keep: usize) -> (r: String)
    requires
        cut_ok(name@, limit as nat, keep as nat),
    ensures
        r@ == cut_label(name@, limit as nat, keep as nat),
{
    if fits_utf8(name, limit) {
        return to_owned(name);
    }
    let c = chars_vec(name);
    assert(c@.skip(0) =~= c@);
    let (k, _) = chars_within_from(&c, 0, keep);
    let mut r = collect_chars(&c, 0, k);
    assert(c@.subrange(0, k as int) =~= c@.take(k as int));
    push_str(&mut r, "…");
    r
}

/// Whether every label on the provider page shown can be cut where it must be.
pub open spec fn provider_labels_ok(providers: Seq<Seq<char>>, page: nat) -> bool {
    let (start, end) = provider_range(providers.len(), page);
    forall|i: int| start <= i < end ==> cut_ok(#[trigger] providers[i], 20, 19)
}

/// The callback of a provider-list page.
pub open spec fn provider_list_cb(page: nat) -> Seq<char> {
    "model:provider_list:"@ + decimal(page)
}

/// The navigation row of the provider list.
pub open spec fn provider_nav(page: nat, pages: nat) -> Seq<(Seq<char>, Seq<char>)> {
    (if page > 0 {
        seq![("◀ Prev"@, provider_list_cb((page - 1) as nat))]
    } else {
        Seq::empty()
    }) + (if pages > 1 {
        seq![(decimal(page + 1) + "/"@ + decimal(pages), "noop"@)]
    } else {
        Seq::empty()
    }) + (if page + 1 < pages {
        seq![("Next ▶"@, provider_list_cb(page + 1))]
    } else {
        Seq::empty()
    })
}

/// A page of the provider list: its text and, unless there are no
/// providers, its buttons.
pub struct ProviderListMenu {
    pub text: String,
    pub rows: Vec<Vec<Button>>,
}

/// The provider-list page for `page` of `providers` (in the order shown):
/// for none a note without buttons; else a heading with their number, one
/// button per provider of the page (opening its models), the navigation
/// row when it has a button, and the way back to the menu.
pub open spec fn provider_list_matches(m: ProviderListMenu, providers: Seq<Seq<char>>, page: nat) -> bool {
    let total = providers.len();
    let rows = rows_view(m.rows@);
    if total == 0 {
        &&& m.text@ == "No models cached\\."@
        &&& rows.len() == 0
    } else {
        let pages = provider_page_count(total);
        let (start, end) = provider_range(total, page);
        let p = start / 20;
        let nav = provider_nav(p, pages);
        let after = end - start;
        &&& m.text@ == "*Select Provider* \\("@ + decimal(total) + " available\\)"@
        &&& rows.len() == after + (if nav.len() > 0 {
            1int
        } else {
            0int
        }) + 1
        &&& forall|i: int|
            0 <= i < after ==> #[trigger] rows[i] == seq![
                (
                    cut_label(providers[start + i], 20, 19),
                    "model:browse:provider:"@ + providers[start + i] + ":0"@,
                ),
            ]
        &&& nav.len() > 0 ==> rows[after] == nav
        &&& rows.last() == seq![("↩ Back"@, "model:menu"@)]
    }
}

fn provider_page_data(page: usize) -> (r: String)
    ensures
        r@ == provider_list_cb(page as nat),
{
    let mut r = to_owned("model:provider_list:");
    let d = u64_to_decimal(page as u64);
    push_str(&mut r, d.as_str());
    r
}

/// The provider-list page for `page` of `providers`.
pub fn provider_list_menu(providers: &Vec<String>, page: usize) -> (r: ProviderListMenu)
    requires
        provider_labels_ok(providers@.map_values(|p: String| p@), page as nat),
    ensures
        provider_list_matches(r, providers@.map_values(|p: String| p@), page as nat),
{
    let ghost pv = providers@.map_values(|p: String| p@);
    let total = providers.len();
    if total == 0 {
        return ProviderListMenu { text: to_owned("No models cached\\."), rows: Vec::new() };
    }
    let pages = total / 20 + if total % 20 == 0 { 0 } else { 1 };
    assert(pages == provider_page_count(total as nat));
    let p = if page < pages { page } else { pages - 1 };
    assert(p * 20 < total) by (nonlinear_arith)
        requires
            p < pages,
            pages == total / 20 + if total % 20 == 0 { 0int } else { 1int },
            total > 0,
    ;
    let start = p * 20;
    let end = if total - start > 20 { start + 20 } else { total };
    assert((start as nat, end as nat) == provider_range(total as nat, page as nat));
    assert(start / 20 == p) by (nonlinear_arith)
        requires
            start == p * 20,
    ;
    let mut text = to_owned("*Select Provider* \\(");
    let d = u64_to_decimal(total as u64);
    push_str(&mut text, d.as_str());
    push_str(&mut text, " available\\)");
    let mut rows: Vec<Vec<Button>> = Vec::new();
    let mut i: usize = start;
    while i < end
        invariant
            start <= i <= end <= total,
            total == providers@.len(),
            pv == providers@.map_values(|p: String| p@),
            (start as nat, end as nat) == provider_range(total as nat, page as nat),
            provider_labels_ok(pv, page as nat),
            rows@.len() == i - start,
            forall|k: int|
                0 <= k < i - start ==> #[trigger] rows_view(rows@)[k] == seq![
                    (
                        cut_label(pv[start + k], 20, 19),
                        "model:browse:provider:"@ + pv[start + k] + ":0"@,
                    ),
                ],
        decreases end - i,
    {
        let name = providers[i].as_str();
        assert(pv[i as int] == name@);
        assert(cut_ok(pv[i as int], 20, 19));
        let label = cut_button_label(name, 20, 19);
        let mut data = to_owned("model:browse:provider:");
        push_str(&mut data, name);
        push_str(&mut data, ":0");
        let mut row: Vec<Button> = Vec::new();
        row.push(button(label, data));
        let ghost before = rows@;
        rows.push(row);
        proof {
            assert forall|k: int| 0 <= k < i + 1 - start implies #[trigger] rows_view(rows@)[k]
                == seq![
                (
                    cut_label(pv[start + k], 20, 19),
                    "model:browse:provider:"@ + pv[start + k] + ":0"@,
                ),
            ] by {
                if k < i - start {
                    assert(rows@[k] == before[k]);
                    assert(rows_view(rows@)[k] == rows_view(before)[k]);
                } else {
                    assert(rows_view(rows@)[k] =~= seq![
                        (
                            cut_label(pv[start + k], 20, 19),
                            "model:browse:provider:"@ + pv[start + k] + ":0"@,
                        ),
                    ]);
                }
            }
        }
        i += 1;
    }
    let ghost page_rows = rows@;
    let mut nav: Vec<Button> = Vec::new();
    if p > 0 {
        nav.push(button(to_owned("◀ Prev"), provider_page_data(p - 1)));
    }
    if pages > 1 {
        let mut counter = u64_to_decimal((p + 1) as u64);
        push_str(&mut counter, "/");
        let pg = u64_to_decimal(pages as u64);
        push_str(&mut counter, pg.as_str());
        nav.push(button(counter, to_owned("noop")));
    }
    if p + 1 < pages {
        nav.push(button(to_owned("Next ▶"), provider_page_data(p + 1)));
    }
    let ghost navv = provider_nav(p as nat, pages as nat);
    assert(nav@.map_values(|b: Button| button_view(b)) =~= navv);
    let has_nav = nav.len() > 0;
    if has_nav {
        rows.push(nav);
    }
    let mut back: Vec<Button> = Vec::new();
    back.push(button(to_owned("↩ Back"), to_owned("model:menu")));
    rows.push(back);
    proof {
        let after = end - start;
        assert forall|k: int| 0 <= k < after implies #[trigger] rows_view(rows@)[k] == seq![
            (
                cut_label(pv[start + k], 20, 19),
                "model:browse:provider:"@ + pv[start + k] + ":0"@,
            ),
        ] by {
            assert(rows@[k] == page_rows[k]);
            assert(rows_view(rows@)[k] == rows_view(page_rows)[k]);
        }
        if has_nav {
            assert(rows_view(rows@)[after as int] == navv);
        }
        assert(rows_view(rows@).last() =~= seq![("↩ Back"@, "model:menu"@)]);
    }
    ProviderListMenu { text, rows }
}

/// The rows of the OpenRouter menu: free models, by provider, newest,
/// popular.
pub fn openrouter_menu_rows() -> (r: Vec<Vec<Button>>)
    ensures
        rows_view(r@) == seq![
            seq![("🆓 Free Models"@, "model:browse:free:0"@)],
            seq![("🏭 By Provider"@, "model:provider_list:0"@)],
            seq![("🆕 Newest"@, "model:browse:newest:0"@)],
            seq![("🔥 Popular"@, "model:browse:popular:0"@)],
        ],
{
    let mut rows: Vec<Vec<Button>> = Vec::new();
    let mut a: Vec<Button> = Vec::new();
    a.push(button(to_owned("🆓 Free Models"), to_owned("model:browse:free:0")));
    let mut b: Vec<Button> = Vec::new();
    b.push(button(to_owned("🏭 By Provider"), to_owned("model:provider_list:0")));
    let mut c: Vec<Button> = Vec::new();
    c.push(button(to_owned("🆕 Newest"), to_owned("model:browse:newest:0")));
    let mut d: Vec<Button> = Vec::new();
    d.push(button(to_owned("🔥 Popular"), to_owned("model:browse:popular:0")));
    assert(a@.map_values(|x: Button| button_view(x)) =~= seq![("🆓 Free Models"@, "model:browse:free:0"@)]);
    assert(b@.map_values(|x: Button| button_view(x)) =~= seq![("🏭 By Provider"@, "model:provider_list:0"@)]);
    assert(c@.map_values(|x: Button| button_view(x)) =~= seq![("🆕 Newest"@, "model:browse:newest:0"@)]);
    assert(d@.map_values(|x: Button| button_view(x)) =~= seq![("🔥 Popular"@, "model:browse:popular:0"@)]);
    rows.push(a);
    rows.push(b);
    rows.push(c);
    rows.push(d);
    assert(rows_view(rows@) =~= seq![
        seq![("🆓 Free Models"@, "model:browse:free:0"@)],
        seq![("🏭 By Provider"@, "model:provider_list:0"@)],
        seq![("🆕 Newest"@, "model:browse:newest:0"@)],
        seq![("🔥 Popular"@, "model:browse:popular:0"@)],
    ]);
    rows
}

/// The rows of the Codex picker: one per catalogue model, opening its
/// detail view.
pub fn codex_menu_rows() -> (r: Vec<Vec<Button>>)
    ensures
        rows_view(r@).len() == codex_catalogue().len(),
        forall|i: int|
            0 <= i < codex_catalogue().len() ==> #[trigger] rows_view(r@)[i] == seq![
                (codex_catalogue()[i].1, spec_callback("model:detail:"@, "d:"@, codex_catalogue()[i].0)),
            ],
{
    let models = known_models();
    let ghost cat = codex_catalogue();
    let n = models.len();
    let mut rows: Vec<Vec<Button>> = Vec::new();
    let mut i: usize = 0;
    while i < n
        invariant
            n == models@.len(),
            cat == codex_catalogue(),
            models@.map_values(|p: (&str, &str)| (p.0@, p.1@)) == cat,
            i <= n,
            rows@.len() == i,
            forall|k: int|
                0 <= k < i ==> #[trigger] rows_view(rows@)[k] == seq![
                    (cat[k].1, spec_callback("model:detail:"@, "d:"@, cat[k].0)),
                ],
        decreases n - i,
    {
        let (id, label) = models[i];
        assert(cat[i as int] == (id@, label@));
        let mut row: Vec<Button> = Vec::new();
        row.push(button(to_owned(label), detail_cb(id)));
        let ghost before = rows@;
        rows.push(row);
        proof {
            assert forall|k: int| 0 <= k < i + 1 implies #[trigger] rows_view(rows@)[k] == seq![
                (cat[k].1, spec_callback("model:detail:"@, "d:"@, cat[k].0)),
            ] by {
                if k < i {
                    assert(rows@[k] == before[k]);
                    assert(rows_view(rows@)[k] == rows_view(before)[k]);
                } else {
                    assert(rows_view(rows@)[k] =~= seq![
                        (cat[k].1, spec_callback("model:detail:"@, "d:"@, cat[k].0)),
                    ]);
                }
            }
        }
        i += 1;
    }
    rows
}

/// The providers to list: each name once, in order.
pub fn distinct_sorted(names: &Vec<String>) -> (r: Vec<String>)
    ensures
        sorted_strict(strs(r@)),
        forall|x: Seq<char>| #[trigger] strs(r@).contains(x) <==> strs(names@).contains(x),
{
    let n = names.len();
    let mut out: Vec<String> = Vec::new();
    let mut i: usize = 0;
    proof {
        assert(strs(out@) =~= Seq::<Seq<char>>::empty());
    }
    while i < n
        invariant
            n == names@.len(),
            i <= n,
            sorted_strict(strs(out@)),
            forall|x: Seq<char>| #[trigger]
                strs(out@).contains(x) <==> strs(names@).take(i as int).contains(x),
        decreases n - i,
    {
        let ghost before = strs(out@);
        let name = to_owned(names[i].as_str());
        let ghost nv = name@;
        insert_sorted(&mut out, name);
        proof {
            assert(strs(names@)[i as int] == nv);
            assert(strs(names@).take(i + 1) =~= strs(names@).take(i as int).push(nv));
            assert forall|x: Seq<char>| #[trigger]
                strs(out@).contains(x) <==> strs(names@).take(i + 1).contains(x) by {
                if strs(names@).take(i + 1).contains(x) {
                    let k = choose|k: int| 0 <= k < i + 1 && #[trigger] strs(names@).take(i + 1)[k] == x;
                    if k < i {
                        assert(strs(names@).take(i as int)[k] == x);
                    }
                }
                if strs(names@).take(i as int).contains(x) {
                    let k = choose|k: int| 0 <= k < i && #[trigger] strs(names@).take(i as int)[k] == x;
                    assert(strs(names@).take(i + 1)[k] == x);
                }
                if x == nv {
                    assert(strs(names@).take(i + 1)[i as int] == x);
                }
            }
        }
        i += 1;
    }
    assert(strs(names@).take(n as int) =~= strs(names@));
    out
}

} // verus!
