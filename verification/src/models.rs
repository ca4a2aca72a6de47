//! Model metadata, the Codex model catalogue, and the callback data of the
//! model picker.

use vstd::prelude::*;
use vstd::utf8::encode_utf8;
use crate::config::LlmProvider;
use crate::text::{fits_utf8, push_str, str_eq, to_owned};
use crate::config::contains_str;

verus! {

/// Prices of a model (as decimal strings, per token).
pub struct ModelPricing {
    pub prompt: String,
    pub completion: String,
    pub request: String,
}

/// What a model accepts as input.
pub struct ModelArchitecture {
    pub input_modalities: Vec<String>,
}

/// Metadata of a model.
pub struct ModelInfo {
    pub id: String,
    pub name: String,
    pub created: u64,
    pub context_length: u64,
    pub architecture: ModelArchitecture,
    pub pricing: ModelPricing,
}

impl ModelPricing {
    /// Empty prices.
    pub fn empty() -> (r: Self)
        ensures
            r.prompt@.len() == 0,
            r.completion@.len() == 0,
            r.request@.len() == 0,
    {
        ModelPricing { prompt: String::new(), completion: String::new(), request: String::new() }
    }
}

impl ModelInfo {
    /// Whether the model accepts input of modality `m` (`text`, `image`, `audio`, ...).
    pub fn supports_modality(&self, m: &str) -> (r: bool)
        ensures
            r == crate::config::strs(self.architecture.input_modalities@).contains(m@),
    {
        contains_str(&self.architecture.input_modalities, m)
    }
}

/// The Codex models that the picker offers, with their display names.
pub open spec fn codex_catalogue() -> Seq<(Seq<char>, Seq<char>)> {
    seq![
        ("gpt-5.3-codex-spark"@, "GPT-5.3 Codex Spark"@),
        ("gpt-5.4"@, "GPT-5.4"@),
        ("gpt-5.4-mini"@, "GPT-5.4 mini"@),
        ("gpt-5.5"@, "GPT-5.5"@),
        ("gpt-5.6-luna"@, "GPT-5.6 Luna"@),
        ("gpt-5.6-sol"@, "GPT-5.6 Sol"@),
        ("gpt-5.6-terra"@, "GPT-5.6 Terra"@),
    ]
}

/// The Codex models that the picker offers, as `(id, display name)`.
pub fn known_models() -> (r: Vec<(&'static str, &'static str)>)
    ensures
        r@.map_values(|p: (&str, &str)| (p.0@, p.1@)) == codex_catalogue(),
{
    let r = vec![
        ("gpt-5.3-codex-spark", "GPT-5.3 Codex Spark"),
        ("gpt-5.4", "GPT-5.4"),
        ("gpt-5.4-mini", "GPT-5.4 mini"),
        ("gpt-5.5", "GPT-5.5"),
        ("gpt-5.6-luna", "GPT-5.6 Luna"),
        ("gpt-5.6-sol", "GPT-5.6 Sol"),
        ("gpt-5.6-terra", "GPT-5.6 Terra"),
    ];
    assert(r@.map_values(|p: (&str, &str)| (p.0@, p.1@)) =~= codex_catalogue());
    r
}

/// The display name of a catalogue model.
pub open spec fn catalogue_name(id: Seq<char>) -> Option<Seq<char>> {
    if id == "gpt-5.3-codex-spark"@ {
        Some("GPT-5.3 Codex Spark"@)
    } else if id == "gpt-5.4"@ {
        Some("GPT-5.4"@)
    } else if id == "gpt-5.4-mini"@ {
        Some("GPT-5.4 mini"@)
    } else if id == "gpt-5.5"@ {
        Some("GPT-5.5"@)
    } else if id == "gpt-5.6-luna"@ {
        Some("GPT-5.6 Luna"@)
    } else if id == "gpt-5.6-sol"@ {
        Some("GPT-5.6 Sol"@)
    } else if id == "gpt-5.6-terra"@ {
        Some("GPT-5.6 Terra"@)
    } else {
        None
    }
}

/// The display name of a catalogue model, if `id` is one.
pub fn known_model_name(id: &str) -> (r: Option<&'static str>)
    ensures
        crate::config::opt_view(r) == catalogue_name(id@),
{
    if str_eq(id, "gpt-5.3-codex-spark") {
        Some("GPT-5.3 Codex Spark")
    } else if str_eq(id, "gpt-5.4") {
        Some("GPT-5.4")
    } else if str_eq(id, "gpt-5.4-mini") {
        Some("GPT-5.4 mini")
    } else if str_eq(id, "gpt-5.5") {
        Some("GPT-5.5")
    } else if str_eq(id, "gpt-5.6-luna") {
        Some("GPT-5.6 Luna")
    } else if str_eq(id, "gpt-5.6-sol") {
        Some("GPT-5.6 Sol")
    } else if str_eq(id, "gpt-5.6-terra") {
        Some("GPT-5.6 Terra")
    } else {
        None
    }
}

/// Whether `id` is one of the catalogue's Codex models.
pub fn is_known_codex_model(id: &str) -> (r: bool)
    ensures
        r == (catalogue_name(id@) is Some),
{
    known_model_name(id).is_some()
}

/// Context window and input modalities of a Codex model; an unknown model
/// gets 0 and text only.
pub open spec fn codex_model_limits(model: Seq<char>) -> (u64, Seq<Seq<char>>) {
    if model == "gpt-5.3-codex-spark"@ {
        (128_000, seq!["text"@])
    } else if model == "gpt-5.4"@ || model == "gpt-5.4-mini"@ || model == "gpt-5.5"@ {
        (272_000, seq!["text"@, "image"@])
    } else if model == "gpt-5.6-luna"@ || model == "gpt-5.6-sol"@ || model == "gpt-5.6-terra"@ {
        (372_000, seq!["text"@, "image"@])
    } else {
        (0, seq!["text"@])
    }
}

/// Metadata for a configured Codex model.
pub fn model_info(model: &str) -> (r: ModelInfo)
    ensures
        r.id@ == model@,
        r.name@ == "OpenAI Codex: "@ + match catalogue_name(model@) {
            Some(n) => n,
            None => model@,
        },
        r.created == 0,
        r.context_length == codex_model_limits(model@).0,
        crate::config::strs(r.architecture.input_modalities@) == codex_model_limits(model@).1,
        r.pricing.prompt@.len() == 0,
        r.pricing.completion@.len() == 0,
        r.pricing.request@.len() == 0,
{
    let mut modalities: Vec<String> = Vec::new();
    modalities.push(to_owned("text"));
    let context_length: u64;
    if str_eq(model, "gpt-5.3-codex-spark") {
        context_length = 128_000;
    } else if str_eq(model, "gpt-5.4") || str_eq(model, "gpt-5.4-mini") || str_eq(model, "gpt-5.5") {
        context_length = 272_000;
        modalities.push(to_owned("image"));
    } else if str_eq(model, "gpt-5.6-luna") || str_eq(model, "gpt-5.6-sol") || str_eq(
        model,
        "gpt-5.6-terra",
    ) {
        context_length = 372_000;
        modalities.push(to_owned("image"));
    } else {
        context_length = 0;
    }
    assert(crate::config::strs(modalities@) =~= codex_model_limits(model@).1);
    let mut name = to_owned("OpenAI Codex: ");
    match known_model_name(model) {
        Some(n) => push_str(&mut name, n),
        None => push_str(&mut name, model),
    }
    ModelInfo {
        id: to_owned(model),
        name,
        created: 0,
        context_length,
        architecture: ModelArchitecture { input_modalities: modalities },
        pricing: ModelPricing::empty(),
    }
}

/// Every model the picker offers is known by its display name and has a
/// context window, a model it does not offer has none (0, text only), and
/// every model takes text, with images as its second modality when it takes
/// any other.
pub proof fn lemma_catalogue_consistent(id: Seq<char>)
    ensures
        forall|k: int|
            0 <= k < codex_catalogue().len() ==> catalogue_name(#[trigger] codex_catalogue()[k].0)
                == Some(codex_catalogue()[k].1),
        (catalogue_name(id) is Some) <==> codex_model_limits(id).0 > 0,
        (catalogue_name(id) is Some) <==> exists|k: int|
            0 <= k < codex_catalogue().len() && #[trigger] codex_catalogue()[k].0 == id,
        codex_model_limits(id).1.len() >= 1 && codex_model_limits(id).1[0] == "text"@,
        codex_model_limits(id).1.len() == 2 ==> codex_model_limits(id).1[1] == "image"@,
        codex_model_limits(id).1.len() <= 2,
{
    reveal_strlit("gpt-5.3-codex-spark");
    reveal_strlit("gpt-5.4");
    reveal_strlit("gpt-5.4-mini");
    reveal_strlit("gpt-5.5");
    reveal_strlit("gpt-5.6-luna");
    reveal_strlit("gpt-5.6-sol");
    reveal_strlit("gpt-5.6-terra");
    assert("gpt-5.3-codex-spark"@.len() != "gpt-5.4"@.len());
    assert("gpt-5.3-codex-spark"@.len() != "gpt-5.4-mini"@.len());
    assert("gpt-5.3-codex-spark"@.len() != "gpt-5.5"@.len());
    assert("gpt-5.3-codex-spark"@.len() != "gpt-5.6-luna"@.len());
    assert("gpt-5.3-codex-spark"@.len() != "gpt-5.6-sol"@.len());
    assert("gpt-5.3-codex-spark"@.len() != "gpt-5.6-terra"@.len());
    assert("gpt-5.4"@.len() != "gpt-5.4-mini"@.len());
    assert("gpt-5.4"@[6] != "gpt-5.5"@[6]);
    assert("gpt-5.4"@.len() != "gpt-5.6-luna"@.len());
    assert("gpt-5.4"@.len() != "gpt-5.6-sol"@.len());
    assert("gpt-5.4"@.len() != "gpt-5.6-terra"@.len());
    assert("gpt-5.4-mini"@.len() != "gpt-5.5"@.len());
    assert("gpt-5.4-mini"@[6] != "gpt-5.6-luna"@[6]);
    assert("gpt-5.4-mini"@.len() != "gpt-5.6-sol"@.len());
    assert("gpt-5.4-mini"@.len() != "gpt-5.6-terra"@.len());
    assert("gpt-5.5"@.len() != "gpt-5.6-luna"@.len());
    assert("gpt-5.5"@.len() != "gpt-5.6-sol"@.len());
    assert("gpt-5.5"@.len() != "gpt-5.6-terra"@.len());
    assert("gpt-5.6-luna"@.len() != "gpt-5.6-sol"@.len());
    assert("gpt-5.6-luna"@.len() != "gpt-5.6-terra"@.len());
    assert("gpt-5.6-sol"@.len() != "gpt-5.6-terra"@.len());
    let c = codex_catalogue();
    assert forall|k: int| 0 <= k < c.len() implies catalogue_name(#[trigger] c[k].0) == Some(c[k].1) by {
        if k == 0 {} else if k == 1 {} else if k == 2 {} else if k == 3 {} else if k == 4 {} else if k == 5 {} else {}
    }
    if catalogue_name(id) is Some {
        if id == "gpt-5.3-codex-spark"@ { assert(c[0].0 == id); }
        if id == "gpt-5.4"@ { assert(c[1].0 == id); }
        if id == "gpt-5.4-mini"@ { assert(c[2].0 == id); }
        if id == "gpt-5.5"@ { assert(c[3].0 == id); }
        if id == "gpt-5.6-luna"@ { assert(c[4].0 == id); }
        if id == "gpt-5.6-sol"@ { assert(c[5].0 == id); }
        if id == "gpt-5.6-terra"@ { assert(c[6].0 == id); }
    }
}

/// The provider a picker callback names, if any.
pub fn parse_provider(value: &str) -> (r: Option<LlmProvider>)
    ensures
        r == if value@ == "openrouter"@ {
            Some(LlmProvider::Openrouter)
        } else if value@ == "codex"@ {
            Some(LlmProvider::Codex)
        } else {
            None
        },
{
    if str_eq(value, "openrouter") {
        Some(LlmProvider::Openrouter)
    } else if str_eq(value, "codex") {
        Some(LlmProvider::Codex)
    } else {
        None
    }
}

/// Telegram's limit on callback data, in bytes.
pub open spec fn max_callback_bytes() -> nat {
    64
}

/// Callback data `<long_prefix><id>`, or `<short_prefix><id>` when the long
/// form exceeds Telegram's 64-byte limit.
pub open spec fn spec_callback(long_prefix: Seq<char>, short_prefix: Seq<char>, id: Seq<char>) -> Seq<
    char,
> {
    if encode_utf8(long_prefix + id).len() <= max_callback_bytes() {
        long_prefix + id
    } else {
        short_prefix + id
    }
}

/// Callback data stays within Telegram's 64-byte limit whenever its short
/// form does: the long form is used only when it fits.
pub proof fn lemma_callback_fits(long_prefix: Seq<char>, short_prefix: Seq<char>, id: Seq<char>)
    requires
        encode_utf8(short_prefix + id).len() <= 64,
    ensures
        encode_utf8(spec_callback(long_prefix, short_prefix, id)).len() <= 64,
{
}

/// The detail and select callbacks of a model whose ID takes at most 62
/// bytes fit in Telegram's 64-byte limit.
pub proof fn lemma_model_callbacks_fit(id: Seq<char>)
    requires
        encode_utf8(id).len() <= 62,
    ensures
        encode_utf8(spec_callback("model:detail:"@, "d:"@, id)).len() <= 64,
        encode_utf8(spec_callback("model:select:"@, "s:"@, id)).len() <= 64,
{
    reveal_strlit("d:");
    reveal_strlit("s:");
    crate::text::lemma_encode_utf8_concat("d:"@, id);
    crate::text::lemma_encode_utf8_concat("s:"@, id);
    assert(encode_utf8("d:"@).len() == 2) by {
        reveal_with_fuel(encode_utf8, 3);
        assert("d:"@.drop_first() =~= seq![':']);
        assert(seq![':'].drop_first() =~= Seq::<char>::empty());
    }
    assert(encode_utf8("s:"@).len() == 2) by {
        reveal_with_fuel(encode_utf8, 3);
        assert("s:"@.drop_first() =~= seq![':']);
        assert(seq![':'].drop_first() =~= Seq::<char>::empty());
    }
}

fn callback(long_prefix: &str, short_prefix: &str, id: &str) -> (r: String)
    ensures
        r@ == spec_callback(long_prefix@, short_prefix@, id@),
{
    let mut full = to_owned(long_prefix);
    push_str(&mut full, id);
    if fits_utf8(full.as_str(), 64) {
        full
    } else {
        let mut r = to_owned(short_prefix);
        push_str(&mut r, id);
        r
    }
}

/// The callback that opens a model's detail view.
pub fn detail_cb(model_id: &str) -> (r: String)
    ensures
        r@ == spec_callback("model:detail:"@, "d:"@, model_id@),
{
    callback("model:detail:", "d:", model_id)
}

/// The callback that selects a model.
pub fn select_cb(model_id: &str) -> (r: String)
    ensures
        r@ == spec_callback("model:select:"@, "s:"@, model_id@),
{
    callback("model:select:", "s:", model_id)
}

/// A button of an inline keyboard: its label and its callback data.
pub struct Button {
    pub label: String,
    pub data: String,
}

/// The rows of the provider chooser: OpenRouter, and Codex when configured.
pub fn provider_menu_rows(has_codex: bool) -> (r: Vec<Vec<Button>>)
    ensures
        r@.len() == if has_codex { 2nat } else { 1nat },
        r@[0]@.len() == 1,
        r@[0]@[0].label@ == "🌐 OpenRouter Models"@,
        r@[0]@[0].data@ == "model:provider:openrouter"@,
        has_codex ==> r@[1]@.len() == 1 && r@[1]@[0].label@ == "🤖 Codex Subscription Models"@
            && r@[1]@[0].data@ == "model:provider:codex"@,
{
    let mut rows: Vec<Vec<Button>> = Vec::new();
    let mut first: Vec<Button> = Vec::new();
    first.push(
        Button {
            label: to_owned("🌐 OpenRouter Models"),
            data: to_owned("model:provider:openrouter"),
        },
    );
    rows.push(first);
    if has_codex {
        let mut second: Vec<Button> = Vec::new();
        second.push(
            Button {
                label: to_owned("🤖 Codex Subscription Models"),
                data: to_owned("model:provider:codex"),
            },
        );
        rows.push(second);
    }
    rows
}

} // verus!
