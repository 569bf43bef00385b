//! Message content: the blocks a message is made of, their one-line text
//! renderings, and the test for content injected by the assistant's tooling.

use vstd::prelude::*;

use crate::json::{
    field_of, json_as_array, json_as_str, json_field, json_view, str_of, JsonModel,
};
use crate::text::{
    has_prefix, joined, lemma_joined_push, lower_of, push_joined, to_lower,
    truncate_chars, truncated,
};

verus! {

/// One unit of structured message content.
#[derive(Clone, Debug)]
pub enum ContentBlock {
    Text { text: String },
    ToolResult { content: serde_json::Value },
    ToolUse { name: String, input: Option<serde_json::Value> },
    Thinking { thinking: String },
    Other,
}

/// A message body: a plain string or a list of blocks.
#[derive(Clone, Debug)]
pub enum MessageContent {
    Text(String),
    Structured(Vec<ContentBlock>),
}

/// The marker in front of a reasoning trace.
pub open spec fn thought_marker() -> Seq<char> {
    seq!['\u{1F4AD}', ' ']
}

/// The marker in front of a tool invocation.
pub open spec fn tool_marker() -> Seq<char> {
    seq!['\u{1F527}', ' ']
}

/// The marker in front of a tool result.
pub open spec fn result_marker() -> Seq<char> {
    seq!['\u{1F4CB}', ' ']
}

/// The text shown for a tool result with nothing readable in it.
pub open spec fn result_placeholder() -> Seq<char> {
    seq!['(', 'r', 'e', 's', 'u', 'l', 't', ')']
}

/// The first of the keys `command`, `pattern`, `file_path` present in a tool input.
pub open spec fn input_preview_value(j: JsonModel) -> Option<JsonModel> {
    if field_of(j, "command"@) is Some {
        field_of(j, "command"@)
    } else if field_of(j, "pattern"@) is Some {
        field_of(j, "pattern"@)
    } else {
        field_of(j, "file_path"@)
    }
}

/// The quoted argument shown after a tool name: the preview value when it is
/// a string, cut to 60 characters; nothing otherwise.
pub open spec fn input_preview(input: Option<serde_json::Value>) -> Seq<char> {
    match input {
        Some(v) => match input_preview_value(json_view(v)) {
            Some(JsonModel::Str(s)) => seq![' ', '"'] + truncated(s, 60) + seq!['"'],
            _ => Seq::empty(),
        },
        None => Seq::empty(),
    }
}

/// The string `text` members of the objects among `items`, in order.
pub open spec fn item_texts(items: Seq<JsonModel>) -> Seq<Seq<char>>
    decreases items.len(),
{
    if items.len() == 0 {
        Seq::empty()
    } else {
        let rest = item_texts(items.drop_last());
        match field_of(items.last(), "text"@) {
            Some(t) => match str_of(t) {
                Some(s) => rest.push(s),
                None => rest,
            },
            None => rest,
        }
    }
}

/// The summary of a tool result payload: for an array, the string `text`
/// members of its elements one per line (empty when there are none); for a
/// bare string, the string; each cut to 200 characters. Anything else gives
/// a placeholder.
pub open spec fn result_summary(j: JsonModel) -> Seq<char> {
    match j {
        JsonModel::Array(items) => truncated(joined(item_texts(items), seq!['\n']), 200),
        JsonModel::Str(s) => truncated(s, 200),
        _ => result_placeholder(),
    }
}

/// The text line a block renders to, if any.
pub open spec fn block_text(b: ContentBlock) -> Option<Seq<char>> {
    match b {
        ContentBlock::Text { text } => Some(text@),
        ContentBlock::Thinking { thinking } => Some(thought_marker() + thinking@),
        ContentBlock::ToolUse { name, input } => Some(tool_marker() + name@ + input_preview(input)),
        ContentBlock::ToolResult { content } => Some(
            result_marker() + result_summary(json_view(content)),
        ),
        ContentBlock::Other => None,
    }
}

/// The renderings of the blocks that render to something, in order.
pub open spec fn block_texts(blocks: Seq<ContentBlock>) -> Seq<Seq<char>>
    decreases blocks.len(),
{
    if blocks.len() == 0 {
        Seq::empty()
    } else {
        let rest = block_texts(blocks.drop_last());
        match block_text(blocks.last()) {
            Some(t) => rest.push(t),
            None => rest,
        }
    }
}

/// The flattened text of a list of blocks: their renderings, one per line.
pub open spec fn blocks_text(blocks: Seq<ContentBlock>) -> Seq<char> {
    joined(block_texts(blocks), seq!['\n'])
}

/// The flattened text of a message body.
pub open spec fn content_text(c: MessageContent) -> Seq<char> {
    match c {
        MessageContent::Text(s) => s@,
        MessageContent::Structured(blocks) => blocks_text(blocks@),
    }
}

/// The text begins with one of the tags that the assistant's tooling injects.
pub open spec fn has_system_tag(t: Seq<char>) -> bool {
    ||| "<system-reminder>"@.is_prefix_of(t)
    ||| "<system>"@.is_prefix_of(t)
    ||| "<context>"@.is_prefix_of(t)
    ||| "<env>"@.is_prefix_of(t)
    ||| "<claude_background_info>"@.is_prefix_of(t)
    ||| "<user_privacy>"@.is_prefix_of(t)
    ||| "<critical_"@.is_prefix_of(t)
    ||| "<injection_"@.is_prefix_of(t)
    ||| "<meta_safety"@.is_prefix_of(t)
    ||| "<social_engineering"@.is_prefix_of(t)
    ||| "<mandatory_"@.is_prefix_of(t)
    ||| "<copyright_"@.is_prefix_of(t)
    ||| "<download_"@.is_prefix_of(t)
    ||| "<harmful_"@.is_prefix_of(t)
    ||| "<action_types>"@.is_prefix_of(t)
    ||| "<claudemd>"@.is_prefix_of(t)
}

/// Text that is not genuine user input: empty, or starting, once lowercased,
/// with a known injected tag.
pub open spec fn is_system_text(t: Seq<char>) -> bool {
    t.len() == 0 || has_system_tag(lower_of(t))
}

/// Tests the known injected-content tags against the start of `t`.
pub fn starts_with_system_tag(t: &str) -> (r: bool)
    ensures
        r == has_system_tag(t@),
{
    has_prefix(t, "<system-reminder>") || has_prefix(t, "<system>") || has_prefix(t, "<context>")
        || has_prefix(t, "<env>") || has_prefix(t, "<claude_background_info>") || has_prefix(
        t,
        "<user_privacy>",
    ) || has_prefix(t, "<critical_") || has_prefix(t, "<injection_") || has_prefix(
        t,
        "<meta_safety",
    ) || has_prefix(t, "<social_engineering") || has_prefix(t, "<mandatory_") || has_prefix(
        t,
        "<copyright_",
    ) || has_prefix(t, "<download_") || has_prefix(t, "<harmful_") || has_prefix(
        t,
        "<action_types>",
    ) || has_prefix(t, "<claudemd>")
}

/// Classifies a flattened text as system-injected or genuine.
pub fn is_system_str(text: &str) -> (r: bool)
    ensures
        r == is_system_text(text@),
{
    if text.unicode_len() == 0 {
        return true;
    }
    let lower = to_lower(text);
    starts_with_system_tag(lower.as_str())
}

/// Builds a string from a literal whose characters the contract names.
fn literal(s: &str) -> (r: String)
    ensures
        r@ == s@,
{
    String::from_str(s)
}

impl ContentBlock {
    /// The text line this block renders to; nothing for an unknown block.
    pub fn as_text(&self) -> (r: Option<String>)
        ensures
            match r {
                Some(s) => block_text(*self) == Some(s@),
                None => block_text(*self) is None,
            },
    {
        match self {
            ContentBlock::Text { text } => Some(text.clone()),
            ContentBlock::Thinking { thinking } => {
                let mut out = literal("\u{1F4AD} ");
                proof {
                    reveal_strlit("\u{1F4AD} ");
                }
                out.append(thinking.as_str());
                Some(out)
            },
            ContentBlock::ToolUse { name, input } => {
                let mut out = literal("\u{1F527} ");
                proof {
                    reveal_strlit("\u{1F527} ");
                }
                out.append(name.as_str());
                let preview = Self::input_preview(input);
                out.append(preview.as_str());
                Some(out)
            },
            ContentBlock::ToolResult { content } => {
                let mut out = literal("\u{1F4CB} ");
                proof {
                    reveal_strlit("\u{1F4CB} ");
                }
                let summary = Self::format_tool_result(content);
                out.append(summary.as_str());
                Some(out)
            },
            ContentBlock::Other => None,
        }
    }

    fn input_preview(input: &Option<serde_json::Value>) -> (r: String)
        ensures
            r@ == input_preview(*input),
    {
        let mut out = String::new();
        if let Some(v) = input {
            let mut chosen = json_field(v, "command");
            if chosen.is_none() {
                chosen = json_field(v, "pattern");
            }
            if chosen.is_none() {
                chosen = json_field(v, "file_path");
            }
            if let Some(c) = chosen {
                if let Some(s) = json_as_str(c) {
                    let q = literal(" \"");
                    let e = literal("\"");
                    proof {
                        reveal_strlit(" \"");
                        reveal_strlit("\"");
                    }
                    let cut = truncate_chars(s, 60);
                    out = q;
                    out.append(cut.as_str());
                    out.append(e.as_str());
                    assert(str_of(json_view(*c)) == Some(s@));
                }
            }
        }
        out
    }

    /// Summarises a tool result payload.
    fn format_tool_result(content: &serde_json::Value) -> (r: String)
        ensures
            r@ == result_summary(json_view(*content)),
    {
        if let Some(arr) = json_as_array(content) {
            let ghost items = arr@.map_values(|x: serde_json::Value| json_view(x));
            let mut combined = String::new();
            let mut found = false;
            let mut i: usize = 0;
            while i < arr.len()
                invariant
                    i <= arr.len(),
                    items == arr@.map_values(|x: serde_json::Value| json_view(x)),
                    found == (item_texts(items.take(i as int)).len() > 0),
                    combined@ == joined(item_texts(items.take(i as int)), seq!['\n']),
                decreases arr.len() - i,
            {
                let ghost before = item_texts(items.take(i as int));
                assert(items.take(i as int + 1).drop_last() =~= items.take(i as int));
                let item = &arr[i];
                if let Some(t) = json_field(item, "text") {
                    if let Some(s) = json_as_str(t) {
                        proof {
                            reveal_strlit("\n");
                            lemma_joined_push(before, seq!['\n'], s@);
                        }
                        assert("\n"@ =~= seq!['\n']);
                        push_joined(&mut combined, !found, "\n", s);
                        found = true;
                    }
                }
                i = i + 1;
            }
            assert(items.take(arr.len() as int) =~= items);
            return Self::truncate_result(combined.as_str(), 200);
        }
        if let Some(s) = json_as_str(content) {
            return Self::truncate_result(s, 200);
        }
        proof {
            reveal_strlit("(result)");
        }
        literal("(result)")
    }

    fn truncate_result(s: &str, max_chars: usize) -> (r: String)
        ensures
            r@ == truncated(s@, max_chars as nat),
    {
        truncate_chars(s, max_chars)
    }
}

/// Flattens a list of blocks to their renderings, one per line.
pub fn join_blocks(blocks: &Vec<ContentBlock>) -> (r: String)
    ensures
        r@ == blocks_text(blocks@),
{
    let mut out = String::new();
    let mut first = true;
    let mut i: usize = 0;
    while i < blocks.len()
        invariant
            i <= blocks.len(),
            first == (block_texts(blocks@.take(i as int)).len() == 0),
            out@ == joined(block_texts(blocks@.take(i as int)), seq!['\n']),
        decreases blocks.len() - i,
    {
        let ghost before = block_texts(blocks@.take(i as int));
        assert(blocks@.take(i as int + 1).drop_last() =~= blocks@.take(i as int));
        if let Some(t) = blocks[i].as_text() {
            proof {
                reveal_strlit("\n");
                lemma_joined_push(before, seq!['\n'], t@);
            }
            assert("\n"@ =~= seq!['\n']);
            push_joined(&mut out, first, "\n", t.as_str());
            first = false;
        }
        i = i + 1;
    }
    assert(blocks@.take(blocks.len() as int) =~= blocks@);
    out
}

impl MessageContent {
    /// The flattened text: the string itself, or the block renderings one per line.
    pub fn as_text(&self) -> (r: String)
        ensures
            r@ == content_text(*self),
    {
        match self {
            MessageContent::Text(s) => s.clone(),
            MessageContent::Structured(blocks) => join_blocks(blocks),
        }
    }

    /// Whether this content was injected by the assistant's tooling rather than
    /// typed by the user: empty text, or text opening with a known tag in any case.
    pub fn is_system_content(&self) -> (r: bool)
        ensures
            r == is_system_text(content_text(*self)),
    {
        let text = self.as_text();
        is_system_str(text.as_str())
    }
}

/// Extraction is a function of the block alone: equal blocks render alike.
pub proof fn lemma_extract_deterministic(a: ContentBlock, b: ContentBlock)
    requires
        a == b,
    ensures
        block_text(a) == block_text(b),
{
}

} // verus!
