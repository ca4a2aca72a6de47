use glowbot::browse::{
    browse_menu, browse_order, browse_title, category_label, codex_menu_rows, detail_rows,
    detail_text, distinct_sorted, model_button_label, model_selected_text, openrouter_menu_rows,
    pick_allowed, pricing_text, provider_list_menu, rank_in, sort_for_browse, BrowseModel,
    BrowseOrder,
};
use glowbot::config::LlmProvider;

fn models(n: usize) -> Vec<(String, String)> {
    (0..n).map(|i| (format!("p/m{}", i), format!("Model {}", i))).collect()
}

fn labels(rows: &[Vec<glowbot::models::Button>]) -> Vec<Vec<(String, String)>> {
    rows.iter()
        .map(|r| r.iter().map(|b| (b.label.clone(), b.data.clone())).collect())
        .collect()
}

fn pair(a: &str, b: &str) -> (String, String) {
    (a.to_string(), b.to_string())
}

#[test]
fn first_page_of_two() {
    let m = browse_menu("free", None, &models(7), 0);
    assert!(!m.empty);
    let rows = labels(&m.rows);
    assert_eq!(rows.len(), 8);
    assert_eq!(rows[0], vec![pair("Model 0", "model:detail:p/m0")]);
    assert_eq!(rows[5], vec![pair("Model 5", "model:detail:p/m5")]);
    assert_eq!(
        rows[6],
        vec![pair("1/2", "noop"), pair("Next ▶", "model:browse:free:1")]
    );
    assert_eq!(rows[7], vec![pair("↩ Back", "model:menu")]);
}

#[test]
fn a_page_past_the_end_shows_the_last() {
    let m = browse_menu("provider", Some("openai"), &models(7), 9);
    let rows = labels(&m.rows);
    assert_eq!(rows.len(), 3);
    assert_eq!(rows[0], vec![pair("Model 6", "model:detail:p/m6")]);
    assert_eq!(
        rows[1],
        vec![pair("◀ Prev", "model:browse:provider:openai:0"), pair("2/2", "noop")]
    );
    assert_eq!(rows[2], vec![pair("↩ Back", "model:provider_list")]);
}

#[test]
fn a_single_page_has_no_navigation() {
    let m = browse_menu("newest", None, &models(2), 0);
    let rows = labels(&m.rows);
    assert_eq!(rows.len(), 3);
    assert_eq!(rows[2], vec![pair("↩ Back", "model:menu")]);
}

#[test]
fn an_empty_category_only_leads_back() {
    let m = browse_menu("free", Some("x"), &vec![], 3);
    assert!(m.empty);
    assert_eq!(labels(&m.rows), vec![vec![pair("↩ Back", "model:menu")]]);
}

#[test]
fn labels_use_the_id_and_cut_long_names() {
    let list = vec![("only/id".to_string(), String::new()), ("x/y".to_string(), "n".repeat(45))];
    let rows = labels(&browse_menu("popular", None, &list, 0).rows);
    assert_eq!(rows[0][0].0, "only/id");
    assert_eq!(rows[1][0].0, format!("{}…", "n".repeat(39)));
    assert_eq!(model_button_label(&"a".repeat(40)), "a".repeat(40));
}

#[test]
fn category_headings() {
    assert_eq!(category_label("free", None), "Free Models");
    assert_eq!(category_label("provider", Some("all")), "All Models");
    assert_eq!(category_label("provider", Some("google")), "google");
    assert_eq!(category_label("provider", None), "Provider");
    assert_eq!(category_label("newest", None), "Newest");
    assert_eq!(category_label("popular", None), "Popular");
    assert_eq!(category_label("other", None), "Models");
    assert_eq!(browse_title("Free Models", 12), "*Free Models* \\(12 models\\)");
}

fn bm(id: &str, name: &str, created: u64, rank: Option<usize>) -> BrowseModel {
    BrowseModel { id: id.into(), name: name.into(), created, rank }
}

fn ids(v: &[BrowseModel]) -> Vec<String> {
    v.iter().map(|m| m.id.clone()).collect()
}

#[test]
fn sorting_by_each_order() {
    let input = || {
        vec![
            bm("a", "Zeta", 10, Some(2)),
            bm("b", "Alpha", 30, None),
            bm("c", "Mu", 20, Some(0)),
        ]
    };
    assert_eq!(browse_order("newest"), BrowseOrder::Newest);
    assert_eq!(browse_order("popular"), BrowseOrder::Popular);
    assert_eq!(browse_order("free"), BrowseOrder::ByName);
    assert_eq!(ids(&sort_for_browse(input(), BrowseOrder::Newest)), vec!["b", "c", "a"]);
    assert_eq!(ids(&sort_for_browse(input(), BrowseOrder::Popular)), vec!["b", "c", "a"]);
    assert_eq!(ids(&sort_for_browse(input(), BrowseOrder::ByName)), vec!["b", "c", "a"]);
    let by_created = vec![bm("x", "b", 1, None), bm("y", "a", 2, None), bm("z", "c", 3, None)];
    assert_eq!(ids(&sort_for_browse(by_created, BrowseOrder::ByName)), vec!["y", "x", "z"]);
    assert!(sort_for_browse(vec![], BrowseOrder::Newest).is_empty());
}

#[test]
fn ranks_are_first_positions() {
    let order = vec!["m1".to_string(), "m2".to_string(), "m1".to_string()];
    assert_eq!(rank_in(&order, "m1"), Some(0));
    assert_eq!(rank_in(&order, "m2"), Some(1));
    assert_eq!(rank_in(&order, "m3"), None);
}

#[test]
fn model_detail_view() {
    assert_eq!(
        pricing_text(true, false, "x"),
        "Included with ChatGPT/Codex subscription"
    );
    assert_eq!(pricing_text(false, true, "x"), "🆓 Free");
    assert_eq!(pricing_text(false, false, "$1.00/$2.00"), "💲 $1.00/$2.00 per 1M tokens");
    assert_eq!(
        detail_text("GPT", "openai/gpt", "128k", "🆓 Free", true, true),
        "*GPT*\nID: `openai/gpt`\nContext: 128k\nPricing: 🆓 Free\n📌 Config default\n✅ Currently selected"
    );
    assert_eq!(
        detail_text("GPT", "openai/gpt", "unknown", "unknown", false, false),
        "*GPT*\nID: `openai/gpt`\nContext: unknown\nPricing: unknown"
    );
    let rows = labels(&detail_rows("openai/gpt", false));
    assert_eq!(
        rows,
        vec![
            vec![pair("📌 Select Model", "model:select:openai/gpt")],
            vec![pair("↩ Back", "model:browseback")]
        ]
    );
    assert_eq!(labels(&detail_rows("m", true))[0][0].0, "✅ Selected");
}

#[test]
fn picking_models() {
    assert!(pick_allowed(LlmProvider::Openrouter, "anything/at-all"));
    assert!(pick_allowed(LlmProvider::Codex, "gpt-5.4"));
    assert!(!pick_allowed(LlmProvider::Codex, "gpt-9"));
    assert_eq!(
        model_selected_text("GPT 5"),
        format!(
            "✅ *Model Selected*\n\n`{}`\n\nUse `/model\\_default` to reset to config default\\.",
            "GPT 5"
        )
    );
}

#[test]
fn providers_are_listed_once_in_order() {
    let names: Vec<String> = ["openai", "google", "openai", "anthropic", "google"]
        .iter()
        .map(|s| s.to_string())
        .collect();
    assert_eq!(distinct_sorted(&names), vec!["anthropic", "google", "openai"]);
}

#[test]
fn provider_list_pages() {
    let none = provider_list_menu(&vec![], 0);
    assert_eq!(none.text, "No models cached\\.");
    assert!(none.rows.is_empty());
    let providers: Vec<String> = (0..25).map(|i| format!("p{:02}", i)).collect();
    let first = provider_list_menu(&providers, 0);
    assert_eq!(first.text, "*Select Provider* \\(25 available\\)");
    let rows = labels(&first.rows);
    assert_eq!(rows.len(), 22);
    assert_eq!(rows[0], vec![pair("p00", "model:browse:provider:p00:0")]);
    assert_eq!(
        rows[20],
        vec![pair("1/2", "noop"), pair("Next ▶", "model:provider_list:1")]
    );
    assert_eq!(rows[21], vec![pair("↩ Back", "model:menu")]);
    let last = labels(&provider_list_menu(&providers, 7).rows);
    assert_eq!(last.len(), 7);
    assert_eq!(last[5], vec![pair("◀ Prev", "model:provider_list:0"), pair("2/2", "noop")]);
    let long = vec!["x".repeat(21)];
    let one = labels(&provider_list_menu(&long, 0).rows);
    assert_eq!(one[0][0].0, format!("{}…", "x".repeat(19)));
    assert_eq!(one.len(), 2);
}

#[test]
fn menus_of_the_model_picker() {
    assert_eq!(
        labels(&openrouter_menu_rows()),
        vec![
            vec![pair("🆓 Free Models", "model:browse:free:0")],
            vec![pair("🏭 By Provider", "model:provider_list:0")],
            vec![pair("🆕 Newest", "model:browse:newest:0")],
            vec![pair("🔥 Popular", "model:browse:popular:0")],
        ]
    );
    let codex = labels(&codex_menu_rows());
    assert_eq!(codex.len(), 7);
    assert_eq!(codex[0], vec![pair("GPT-5.3 Codex Spark", "model:detail:gpt-5.3-codex-spark")]);
    assert_eq!(codex[6], vec![pair("GPT-5.6 Terra", "model:detail:gpt-5.6-terra")]);
}

#[test]
fn the_pages_list_every_model_once() {
    let list = models(13);
    let mut seen = Vec::new();
    for page in 0..3 {
        let m = browse_menu("free", None, &list, page);
        for row in &m.rows {
            if row.len() == 1 && row[0].data.starts_with("model:detail:") {
                seen.push(row[0].data.trim_start_matches("model:detail:").to_string());
            }
        }
    }
    let expected: Vec<String> = list.iter().map(|(id, _)| id.clone()).collect();
    assert_eq!(seen, expected);
}

#[test]
fn sorting_keeps_the_order_of_equal_models() {
    let models = vec![
        bm("p", "Same", 5, None),
        bm("q", "Other", 5, Some(1)),
        bm("r", "Same", 5, None),
        bm("s", "Same", 7, Some(1)),
    ];
    let copy = || models.iter().map(|m| bm(&m.id, &m.name, m.created, m.rank)).collect::<Vec<_>>();
    assert_eq!(ids(&sort_for_browse(copy(), BrowseOrder::ByName)), vec!["q", "p", "r", "s"]);
    assert_eq!(ids(&sort_for_browse(copy(), BrowseOrder::Newest)), vec!["s", "p", "q", "r"]);
    assert_eq!(ids(&sort_for_browse(copy(), BrowseOrder::Popular)), vec!["p", "r", "q", "s"]);
}
