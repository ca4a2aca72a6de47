//! A configuration change proposed by the assistant: the secrets it may not
//! change, and the line diff shown to the user for approval.

use vstd::prelude::*;
use crate::config::Config;
use crate::text::{has_prefix, has_suffix, push_str, to_owned, trim, trim_seq};

verus! {

/// How a line fares between the old and the new text.
#[derive(Clone, Copy, Debug, PartialEq, Eq, Structural)]
pub enum LineChange {
    Equal,
    Delete,
    Insert,
}

/// What `similar::TextDiff::from_lines(old, new).iter_all_changes()` yields:
/// each line (with its line ending) and how it fares.
pub uninterp spec fn line_diff(old: Seq<char>, new: Seq<char>) -> Seq<(LineChange, Seq<char>)>;

/// The line diff of two texts.
///
/// Calls `similar::TextDiff::from_lines` (with no deadline, so the result
/// depends on the texts alone) and copies each change's tag and value; the
/// contract only names the result.
#[verifier::external_body]
fn diff_lines(old: &str, new: &str) -> (r: Vec<(LineChange, String)>)
    ensures
        r@.map_values(|c: (LineChange, String)| (c.0, c.1@)) == line_diff(old@, new@),
{
    let diff = similar::TextDiff::from_lines(old, new);
    let mut out = Vec::new();
    for change in diff.iter_all_changes() {
        let tag = match change.tag() {
            similar::ChangeTag::Equal => LineChange::Equal,
            similar::ChangeTag::Delete => LineChange::Delete,
            similar::ChangeTag::Insert => LineChange::Insert,
        };
        out.push((tag, change.value().to_string()));
    }
    out
}

/// The mark of a line in a diff.
pub open spec fn change_sign(t: LineChange) -> Seq<char> {
    match t {
        LineChange::Delete => "-"@,
        LineChange::Insert => "+"@,
        LineChange::Equal => " "@,
    }
}

/// The diff as text: each line after its mark.
pub open spec fn diff_text(changes: Seq<(LineChange, Seq<char>)>) -> Seq<char>
    decreases changes.len(),
{
    if changes.len() == 0 {
        Seq::empty()
    } else {
        diff_text(changes.drop_last()) + change_sign(changes.last().0) + changes.last().1
    }
}

/// Whether a diff changes anything.
pub open spec fn has_changes(changes: Seq<(LineChange, Seq<char>)>) -> bool {
    exists|i: int| 0 <= i < changes.len() && changes[i].0 != LineChange::Equal
}

/// The proposal shown for a change from `old_yaml` to `new_yaml`: the diff
/// in a code block, or `None` when nothing changes.
pub open spec fn spec_change_proposal(old_yaml: Seq<char>, new_yaml: Seq<char>) -> Option<Seq<char>> {
    let changes = line_diff(old_yaml, new_yaml);
    if has_changes(changes) {
        Some("⚙️ *Config Change Proposal*\n\n```diff\n"@ + trim_seq(diff_text(changes)) + "\n```"@)
    } else {
        None
    }
}

/// The diff text is written line by line, in order: that of `a + b` is
/// that of `a` followed by that of `b`, and a single line is its mark (`-`
/// removed, `+` added, a space kept) followed by the line.
pub proof fn lemma_diff_text_lines(
    a: Seq<(LineChange, Seq<char>)>,
    b: Seq<(LineChange, Seq<char>)>,
    t: LineChange,
    line: Seq<char>,
)
    ensures
        diff_text(a + b) == diff_text(a) + diff_text(b),
        diff_text(seq![(t, line)]) == match t {
            LineChange::Delete => "-"@,
            LineChange::Insert => "+"@,
            LineChange::Equal => " "@,
        } + line,
    decreases b.len(),
{
    let one = seq![(t, line)];
    assert(one.drop_last() =~= Seq::<(LineChange, Seq<char>)>::empty());
    assert(one.last() == (t, line));
    assert(diff_text(Seq::<(LineChange, Seq<char>)>::empty()) == Seq::<char>::empty());
    assert(Seq::<char>::empty() + change_sign(t) + line =~= change_sign(t) + line);
    if b.len() == 0 {
        assert(a + b =~= a);
        assert(diff_text(a) + Seq::<char>::empty() =~= diff_text(a));
    } else {
        lemma_diff_text_lines(a, b.drop_last(), t, line);
        assert((a + b).drop_last() =~= a + b.drop_last());
        assert((a + b).last() == b.last());
        assert(diff_text(a + b) =~= diff_text(a) + diff_text(b));
    }
}

/// A proposal is shown exactly when the diff changes some line, and then it
/// is the trimmed diff in a `diff` code block under its heading.
pub proof fn lemma_change_proposal_shape(old_yaml: Seq<char>, new_yaml: Seq<char>)
    ensures
        (spec_change_proposal(old_yaml, new_yaml) is None) <==> !has_changes(line_diff(old_yaml, new_yaml)),
        spec_change_proposal(old_yaml, new_yaml) matches Some(t) ==> {
            &&& has_prefix(t, "⚙️ *Config Change Proposal*\n\n```diff\n"@)
            &&& has_suffix(t, "\n```"@)
            &&& t.len() == "⚙️ *Config Change Proposal*\n\n```diff\n"@.len() + trim_seq(
                diff_text(line_diff(old_yaml, new_yaml)),
            ).len() + "\n```"@.len()
        },
{
    if let Some(t) = spec_change_proposal(old_yaml, new_yaml) {
        let h = "⚙️ *Config Change Proposal*\n\n```diff\n"@;
        let e = "\n```"@;
        assert(t.subrange(0, h.len() as int) =~= h);
        assert(t.subrange(t.len() - e.len(), t.len() as int) =~= e);
    }
}

/// The proposal shown for a change from `old_yaml` to `new_yaml` (before
/// MarkdownV2 escaping), or `None` when nothing changes.
pub fn change_proposal(old_yaml: &str, new_yaml: &str) -> (r: Option<String>)
    ensures
        match r {
            Some(t) => spec_change_proposal(old_yaml@, new_yaml@) == Some(t@),
            None => spec_change_proposal(old_yaml@, new_yaml@) is None,
        },
{
    let changes = diff_lines(old_yaml, new_yaml);
    let ghost cv = changes@.map_values(|c: (LineChange, String)| (c.0, c.1@));
    let n = changes.len();
    let mut text = String::new();
    let mut changed = false;
    let mut i: usize = 0;
    proof {
        assert(cv.take(0) =~= Seq::<(LineChange, Seq<char>)>::empty());
    }
    while i < n
        invariant
            n == changes@.len(),
            cv == changes@.map_values(|c: (LineChange, String)| (c.0, c.1@)),
            i <= n,
            text@ == diff_text(cv.take(i as int)),
            changed == exists|j: int| 0 <= j < i && cv[j].0 != LineChange::Equal,
        decreases n - i,
    {
        let (tag, value) = (changes[i].0, &changes[i].1);
        assert(cv[i as int] == (tag, value@));
        match tag {
            LineChange::Delete => push_str(&mut text, "-"),
            LineChange::Insert => push_str(&mut text, "+"),
            LineChange::Equal => push_str(&mut text, " "),
        }
        push_str(&mut text, value.as_str());
        if tag != LineChange::Equal {
            changed = true;
        }
        proof {
            assert(cv.take(i + 1).drop_last() =~= cv.take(i as int));
            assert(cv.take(i + 1).last() == cv[i as int]);
        }
        i += 1;
    }
    assert(cv.take(n as int) =~= cv);
    if !changed {
        return None;
    }
    let mut header = to_owned("⚙️ *Config Change Proposal*\n\n```diff\n");
    push_str(&mut header, trim(text.as_str()));
    push_str(&mut header, "\n```");
    Some(header)
}

/// `proposed` with the Telegram token and the OpenRouter API key of
/// `current`, and everything else as it was.
pub open spec fn keeps_secrets(after: Config, before: Config, current: Config) -> bool {
    &&& after.telegram_token@ == current.telegram_token@
    &&& after.openrouter.api_key@ == current.openrouter.api_key@
    &&& after.openrouter.model == before.openrouter.model
    &&& after.openrouter.image_fallback_model == before.openrouter.image_fallback_model
    &&& after.openrouter.audio_fallback_model == before.openrouter.audio_fallback_model
    &&& after.openrouter.image_gen_model == before.openrouter.image_gen_model
    &&& after.openrouter.embedding_model == before.openrouter.embedding_model
    &&& after.openrouter.advice_model == before.openrouter.advice_model
    &&& after.provider == before.provider
    &&& after.codex == before.codex
    &&& after.conversation == before.conversation
    &&& after.chats == before.chats
    &&& after.dms == before.dms
    &&& after.dm_enabled == before.dm_enabled
    &&& after.mcp_servers == before.mcp_servers
    &&& after.heartbeat_interval_minutes == before.heartbeat_interval_minutes
    &&& after.bash_enabled == before.bash_enabled
    &&& after.embedding == before.embedding
    &&& after.db == before.db
    &&& after.media_dir == before.media_dir
}

/// Put the current Telegram token and OpenRouter API key back into a
/// proposed configuration, whatever the proposal says of them.
pub fn keep_secrets(proposed: &mut Config, current: &Config)
    ensures
        keeps_secrets(*final(proposed), *old(proposed), *current),
{
    proposed.telegram_token = to_owned(current.telegram_token.as_str());
    proposed.openrouter.api_key = to_owned(current.openrouter.api_key.as_str());
}

} // verus!
