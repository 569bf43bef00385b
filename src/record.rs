//! The record shapes of a transcript line, and their decoding from JSON.
//! Any line that does not decode is skipped, never an error.

use vstd::prelude::*;

use crate::content::{ContentBlock, MessageContent};
use crate::json::{
    field_of, json_as_array, json_as_bool, json_as_str, json_field, json_is_null, json_is_object,
    json_text,
    json_view, parse_json, str_of, JsonModel,
};
use crate::text::opt_chars;

verus! {

#[derive(Clone, Debug)]
pub struct SummaryRecord {
    pub summary: String,
    pub leaf_uuid: Option<String>,
}

#[derive(Clone, Debug)]
pub struct CustomTitleRecord {
    pub custom_title: String,
}

#[derive(Clone, Debug)]
pub struct FileHistorySnapshot {
    pub message_id: String,
}

#[derive(Clone, Debug)]
pub struct Message {
    pub role: String,
    pub content: MessageContent,
}

/// A message typed by the user; `timestamp` is in milliseconds since the Unix epoch.
#[derive(Clone, Debug)]
pub struct UserRecord {
    pub uuid: String,
    pub timestamp: i64,
    pub session_id: String,
    pub message: Message,
    pub cwd: Option<String>,
    pub git_branch: Option<String>,
    pub is_meta: Option<bool>,
}

#[derive(Clone, Debug)]
pub struct AssistantMessage {
    pub role: String,
    pub content: Vec<ContentBlock>,
    pub model: Option<String>,
}

/// A reply of the assistant; `timestamp` is in milliseconds since the Unix epoch.
#[derive(Clone, Debug)]
pub struct AssistantRecord {
    pub uuid: String,
    pub timestamp: i64,
    pub session_id: String,
    pub message: AssistantMessage,
}

#[derive(Clone, Debug)]
pub struct SystemRecord {
    pub uuid: Option<String>,
    pub timestamp: Option<i64>,
    pub session_id: Option<String>,
}

#[derive(Clone, Debug)]
pub struct QueueOperationRecord {
    pub queue_operations: Option<serde_json::Value>,
}

/// One decoded transcript line.
#[derive(Clone, Debug)]
pub enum SessionRecord {
    Summary(SummaryRecord),
    CustomTitle(CustomTitleRecord),
    FileHistorySnapshot(FileHistorySnapshot),
    User(UserRecord),
    Assistant(AssistantRecord),
    System(SystemRecord),
    QueueOperation(QueueOperationRecord),
    Unknown,
}

/// The instant an RFC 3339 text denotes, in milliseconds since the Unix epoch,
/// as chrono reads it.
pub uninterp spec fn timestamp_of(s: Seq<char>) -> Option<i64>;

/// Relies on chrono's `FromStr` for `DateTime<FixedOffset>` (RFC 3339) and
/// `DateTime::timestamp_millis`.
#[verifier::external_body]
pub(crate) fn parse_timestamp(s: &str) -> (r: Option<i64>)
    ensures
        r == timestamp_of(s@),
{
    s.parse::<chrono::DateTime<chrono::FixedOffset>>().ok().map(|d| d.timestamp_millis())
}

// ---- what a member of an object decodes to ----

/// A member that may be missing; `null` counts as missing.
pub open spec fn present(j: JsonModel, key: Seq<char>) -> Option<JsonModel> {
    match field_of(j, key) {
        Some(JsonModel::Null) => None,
        x => x,
    }
}

/// A required string member.
pub open spec fn req_str(j: JsonModel, key: Seq<char>) -> Option<Seq<char>> {
    match field_of(j, key) {
        Some(x) => str_of(x),
        None => None,
    }
}

/// An optional string member is missing, null, or a string.
pub open spec fn opt_str_ok(j: JsonModel, key: Seq<char>) -> bool {
    match present(j, key) {
        Some(x) => x is Str,
        None => true,
    }
}

/// The string of an optional string member.
pub open spec fn opt_str(j: JsonModel, key: Seq<char>) -> Option<Seq<char>> {
    match present(j, key) {
        Some(x) => str_of(x),
        None => None,
    }
}

/// An optional flag member is missing, null, or a boolean.
pub open spec fn opt_bool_ok(j: JsonModel, key: Seq<char>) -> bool {
    match present(j, key) {
        Some(x) => x is Bool,
        None => true,
    }
}

/// The flag of an optional flag member.
pub open spec fn opt_bool(j: JsonModel, key: Seq<char>) -> Option<bool> {
    match present(j, key) {
        Some(JsonModel::Bool(b)) => Some(b),
        _ => None,
    }
}

/// The instant of a required timestamp member.
pub open spec fn req_ts(j: JsonModel, key: Seq<char>) -> Option<i64> {
    match req_str(j, key) {
        Some(s) => timestamp_of(s),
        None => None,
    }
}

/// An optional timestamp member is missing, null, or a readable timestamp.
pub open spec fn opt_ts_ok(j: JsonModel, key: Seq<char>) -> bool {
    match present(j, key) {
        Some(JsonModel::Str(s)) => timestamp_of(s) is Some,
        Some(_) => false,
        None => true,
    }
}

/// The instant of an optional timestamp member.
pub open spec fn opt_ts(j: JsonModel, key: Seq<char>) -> Option<i64> {
    match present(j, key) {
        Some(JsonModel::Str(s)) => timestamp_of(s),
        _ => None,
    }
}

/// An optional member holding any value agrees with `v`.
pub open spec fn opt_value_is(j: JsonModel, key: Seq<char>, v: Option<serde_json::Value>) -> bool {
    match present(j, key) {
        Some(x) => v is Some && json_view(v->0) == x,
        None => v is None,
    }
}

/// The discriminator of an object.
pub open spec fn tag_of(j: JsonModel) -> Option<Seq<char>> {
    if j is Object {
        req_str(j, "type"@)
    } else {
        None
    }
}

// ---- content blocks ----

/// A JSON value decodes to some content block.
pub open spec fn block_ok(j: JsonModel) -> bool {
    match tag_of(j) {
        Some(t) => if t == "text"@ {
            req_str(j, "text"@) is Some
        } else if t == "tool_result"@ {
            field_of(j, "content"@) is Some
        } else if t == "tool_use"@ {
            req_str(j, "name"@) is Some
        } else if t == "thinking"@ {
            req_str(j, "thinking"@) is Some
        } else {
            true
        },
        None => false,
    }
}

/// A block is what `j` decodes to.
pub open spec fn block_is(j: JsonModel, b: ContentBlock) -> bool {
    let t = tag_of(j)->0;
    if t == "text"@ {
        b matches ContentBlock::Text { text } && req_str(j, "text"@) == Some(text@)
    } else if t == "tool_result"@ {
        b matches ContentBlock::ToolResult { content } && field_of(j, "content"@) == Some(
            json_view(content),
        )
    } else if t == "tool_use"@ {
        b matches ContentBlock::ToolUse { name, input } && req_str(j, "name"@) == Some(name@)
            && opt_value_is(j, "input"@, input)
    } else if t == "thinking"@ {
        b matches ContentBlock::Thinking { thinking } && req_str(j, "thinking"@) == Some(
            thinking@,
        )
    } else {
        b is Other
    }
}

/// Every element of an array decodes to a block.
pub open spec fn blocks_ok(items: Seq<JsonModel>) -> bool {
    forall|i: int| 0 <= i < items.len() ==> block_ok(#[trigger] items[i])
}

/// The blocks are what the elements decode to, one for one.
pub open spec fn blocks_are(items: Seq<JsonModel>, blocks: Seq<ContentBlock>) -> bool {
    &&& items.len() == blocks.len()
    &&& forall|i: int| 0 <= i < items.len() ==> block_is(#[trigger] items[i], blocks[i])
}

/// A `content` member that decodes: a string, or an array of blocks.
pub open spec fn message_content_ok(j: JsonModel) -> bool {
    match j {
        JsonModel::Str(_) => true,
        JsonModel::Array(items) => blocks_ok(items),
        _ => false,
    }
}

/// The content is what `j` decodes to.
pub open spec fn message_content_is(j: JsonModel, c: MessageContent) -> bool {
    match j {
        JsonModel::Str(s) => c matches MessageContent::Text(t) && t@ == s,
        JsonModel::Array(items) => c matches MessageContent::Structured(bs) && blocks_are(
            items,
            bs@,
        ),
        _ => false,
    }
}

/// A user message: a role and a content.
pub open spec fn message_ok(j: JsonModel) -> bool {
    &&& j is Object
    &&& req_str(j, "role"@) is Some
    &&& field_of(j, "content"@) is Some
    &&& message_content_ok(field_of(j, "content"@)->0)
}

/// The user message is what `j` decodes to.
pub open spec fn message_is(j: JsonModel, m: Message) -> bool {
    &&& req_str(j, "role"@) == Some(m.role@)
    &&& message_content_is(field_of(j, "content"@)->0, m.content)
}

/// An assistant message: a role, an array of blocks, and perhaps a model.
pub open spec fn assistant_message_ok(j: JsonModel) -> bool {
    &&& j is Object
    &&& req_str(j, "role"@) is Some
    &&& field_of(j, "content"@) matches Some(JsonModel::Array(items)) && blocks_ok(items)
    &&& opt_str_ok(j, "model"@)
}

/// The assistant message is what `j` decodes to.
pub open spec fn assistant_message_is(j: JsonModel, m: AssistantMessage) -> bool {
    &&& req_str(j, "role"@) == Some(m.role@)
    &&& field_of(j, "content"@) matches Some(JsonModel::Array(items)) && blocks_are(items, m.content@)
    &&& opt_str(j, "model"@) == opt_chars(m.model)
}

// ---- records ----

/// A JSON value decodes to some record.
pub open spec fn record_ok(j: JsonModel) -> bool {
    match tag_of(j) {
        Some(t) => if t == "summary"@ {
            req_str(j, "summary"@) is Some && opt_str_ok(j, "leafUuid"@)
        } else if t == "custom-title"@ {
            req_str(j, "customTitle"@) is Some
        } else if t == "file-history-snapshot"@ {
            req_str(j, "messageId"@) is Some
        } else if t == "user"@ {
            &&& req_str(j, "uuid"@) is Some
            &&& req_ts(j, "timestamp"@) is Some
            &&& req_str(j, "sessionId"@) is Some
            &&& field_of(j, "message"@) is Some
            &&& message_ok(field_of(j, "message"@)->0)
            &&& opt_str_ok(j, "cwd"@)
            &&& opt_str_ok(j, "gitBranch"@)
            &&& opt_bool_ok(j, "isMeta"@)
        } else if t == "assistant"@ {
            &&& req_str(j, "uuid"@) is Some
            &&& req_ts(j, "timestamp"@) is Some
            &&& req_str(j, "sessionId"@) is Some
            &&& field_of(j, "message"@) is Some
            &&& assistant_message_ok(field_of(j, "message"@)->0)
        } else if t == "system"@ {
            opt_str_ok(j, "uuid"@) && opt_ts_ok(j, "timestamp"@) && opt_str_ok(j, "sessionId"@)
        } else {
            true
        },
        None => false,
    }
}

/// A record is what `j` decodes to; an unrecognised discriminator gives `Unknown`.
pub open spec fn record_is(j: JsonModel, r: SessionRecord) -> bool {
    let t = tag_of(j)->0;
    if t == "summary"@ {
        r matches SessionRecord::Summary(s) && req_str(j, "summary"@) == Some(s.summary@) && opt_str(
            j,
            "leafUuid"@,
        ) == opt_chars(s.leaf_uuid)
    } else if t == "custom-title"@ {
        r matches SessionRecord::CustomTitle(c) && req_str(j, "customTitle"@) == Some(
            c.custom_title@,
        )
    } else if t == "file-history-snapshot"@ {
        r matches SessionRecord::FileHistorySnapshot(f) && req_str(j, "messageId"@) == Some(
            f.message_id@,
        )
    } else if t == "user"@ {
        r matches SessionRecord::User(u) && {
            &&& req_str(j, "uuid"@) == Some(u.uuid@)
            &&& req_ts(j, "timestamp"@) == Some(u.timestamp)
            &&& req_str(j, "sessionId"@) == Some(u.session_id@)
            &&& message_is(field_of(j, "message"@)->0, u.message)
            &&& opt_str(j, "cwd"@) == opt_chars(u.cwd)
            &&& opt_str(j, "gitBranch"@) == opt_chars(u.git_branch)
            &&& opt_bool(j, "isMeta"@) == u.is_meta
        }
    } else if t == "assistant"@ {
        r matches SessionRecord::Assistant(a) && {
            &&& req_str(j, "uuid"@) == Some(a.uuid@)
            &&& req_ts(j, "timestamp"@) == Some(a.timestamp)
            &&& req_str(j, "sessionId"@) == Some(a.session_id@)
            &&& assistant_message_is(field_of(j, "message"@)->0, a.message)
        }
    } else if t == "system"@ {
        r matches SessionRecord::System(s) && {
            &&& opt_str(j, "uuid"@) == opt_chars(s.uuid)
            &&& opt_ts(j, "timestamp"@) == s.timestamp
            &&& opt_str(j, "sessionId"@) == opt_chars(s.session_id)
        }
    } else if t == "queue-operation"@ {
        r matches SessionRecord::QueueOperation(q) && opt_value_is(
            j,
            "queueOperations"@,
            q.queue_operations,
        )
    } else {
        r is Unknown
    }
}

/// What a transcript line decodes to: nothing for an empty line, text that is
/// not JSON, or JSON of the wrong shape.
pub open spec fn line_decodes_to(line: Seq<char>, r: Option<SessionRecord>) -> bool {
    if line.len() == 0 {
        r is None
    } else {
        match json_text(line) {
            Some(j) => match r {
                Some(rec) => record_ok(j) && record_is(j, rec),
                None => !record_ok(j),
            },
            None => r is None,
        }
    }
}

} // verus!

verus! {

/// `t` holds exactly the characters of `lit`.
fn is_tag(t: &String, lit: &str) -> (r: bool)
    ensures
        r == (t@ == lit@),
{
    let l = String::from_str(lit);
    t.eq(&l)
}

fn get_req_str(v: &serde_json::Value, key: &str) -> (r: Option<String>)
    ensures
        opt_chars(r) == req_str(json_view(*v), key@),
{
    match json_field(v, key) {
        Some(x) => match json_as_str(x) {
            Some(s) => Some(String::from_str(s)),
            None => None,
        },
        None => None,
    }
}

fn get_present<'a>(v: &'a serde_json::Value, key: &str) -> (r: Option<&'a serde_json::Value>)
    ensures
        match r {
            Some(x) => present(json_view(*v), key@) == Some(json_view(*x)),
            None => present(json_view(*v), key@) is None,
        },
{
    match json_field(v, key) {
        Some(x) => if json_is_null(x) {
            None
        } else {
            Some(x)
        },
        None => None,
    }
}

fn get_opt_str(v: &serde_json::Value, key: &str) -> (r: Option<Option<String>>)
    ensures
        r is Some <==> opt_str_ok(json_view(*v), key@),
        r is Some ==> opt_chars(r->0) == opt_str(json_view(*v), key@),
{
    match get_present(v, key) {
        Some(x) => match json_as_str(x) {
            Some(s) => Some(Some(String::from_str(s))),
            None => None,
        },
        None => Some(None),
    }
}

fn get_opt_bool(v: &serde_json::Value, key: &str) -> (r: Option<Option<bool>>)
    ensures
        r is Some <==> opt_bool_ok(json_view(*v), key@),
        r is Some ==> r->0 == opt_bool(json_view(*v), key@),
{
    match get_present(v, key) {
        Some(x) => match json_as_bool(x) {
            Some(b) => Some(Some(b)),
            None => None,
        },
        None => Some(None),
    }
}

fn get_req_ts(v: &serde_json::Value, key: &str) -> (r: Option<i64>)
    ensures
        r == req_ts(json_view(*v), key@),
{
    match json_field(v, key) {
        Some(x) => match json_as_str(x) {
            Some(s) => parse_timestamp(s),
            None => None,
        },
        None => None,
    }
}

fn get_opt_ts(v: &serde_json::Value, key: &str) -> (r: Option<Option<i64>>)
    ensures
        r is Some <==> opt_ts_ok(json_view(*v), key@),
        r is Some ==> r->0 == opt_ts(json_view(*v), key@),
{
    match get_present(v, key) {
        Some(x) => match json_as_str(x) {
            Some(s) => match parse_timestamp(s) {
                Some(t) => Some(Some(t)),
                None => None,
            },
            None => None,
        },
        None => Some(None),
    }
}

fn get_opt_value(v: &serde_json::Value, key: &str) -> (r: Option<serde_json::Value>)
    ensures
        opt_value_is(json_view(*v), key@, r),
{
    match get_present(v, key) {
        Some(x) => Some(x.clone()),
        None => None,
    }
}

fn get_tag(v: &serde_json::Value) -> (r: Option<String>)
    ensures
        opt_chars(r) == tag_of(json_view(*v)),
{
    if json_is_object(v) {
        get_req_str(v, "type")
    } else {
        None
    }
}

/// Decodes one content block; unknown block types give `Other`.
pub fn decode_block(v: &serde_json::Value) -> (r: Option<ContentBlock>)
    ensures
        r is Some <==> block_ok(json_view(*v)),
        r is Some ==> block_is(json_view(*v), r->0),
{
    let tag = match get_tag(v) {
        Some(t) => t,
        None => return None,
    };
    if is_tag(&tag, "text") {
        match get_req_str(v, "text") {
            Some(text) => Some(ContentBlock::Text { text }),
            None => None,
        }
    } else if is_tag(&tag, "tool_result") {
        match json_field(v, "content") {
            Some(c) => Some(ContentBlock::ToolResult { content: c.clone() }),
            None => None,
        }
    } else if is_tag(&tag, "tool_use") {
        match get_req_str(v, "name") {
            Some(name) => Some(ContentBlock::ToolUse { name, input: get_opt_value(v, "input") }),
            None => None,
        }
    } else if is_tag(&tag, "thinking") {
        match get_req_str(v, "thinking") {
            Some(thinking) => Some(ContentBlock::Thinking { thinking }),
            None => None,
        }
    } else {
        Some(ContentBlock::Other)
    }
}

/// Decodes every element of an array as a block; fails if any element does.
pub fn decode_blocks(arr: &Vec<serde_json::Value>) -> (r: Option<Vec<ContentBlock>>)
    ensures
        r is Some <==> blocks_ok(arr@.map_values(|x: serde_json::Value| json_view(x))),
        r is Some ==> blocks_are(arr@.map_values(|x: serde_json::Value| json_view(x)), r->0@),
{
    let ghost items = arr@.map_values(|x: serde_json::Value| json_view(x));
    let mut out: Vec<ContentBlock> = Vec::new();
    let mut i: usize = 0;
    while i < arr.len()
        invariant
            i <= arr.len(),
            items == arr@.map_values(|x: serde_json::Value| json_view(x)),
            out@.len() == i,
            forall|k: int| 0 <= k < i ==> block_ok(#[trigger] items[k]),
            forall|k: int| 0 <= k < i ==> block_is(#[trigger] items[k], out@[k]),
        decreases arr.len() - i,
    {
        match decode_block(&arr[i]) {
            Some(b) => out.push(b),
            None => {
                assert(!block_ok(items[i as int]));
                return None;
            },
        }
        i = i + 1;
    }
    Some(out)
}

fn decode_content(v: &serde_json::Value) -> (r: Option<MessageContent>)
    ensures
        r is Some <==> message_content_ok(json_view(*v)),
        r is Some ==> message_content_is(json_view(*v), r->0),
{
    if let Some(s) = json_as_str(v) {
        return Some(MessageContent::Text(String::from_str(s)));
    }
    match json_as_array(v) {
        Some(arr) => match decode_blocks(arr) {
            Some(bs) => Some(MessageContent::Structured(bs)),
            None => None,
        },
        None => None,
    }
}

fn decode_message(v: &serde_json::Value) -> (r: Option<Message>)
    ensures
        r is Some <==> message_ok(json_view(*v)),
        r is Some ==> message_is(json_view(*v), r->0),
{
    if !json_is_object(v) {
        return None;
    }
    let role = match get_req_str(v, "role") {
        Some(s) => s,
        None => return None,
    };
    let c = match json_field(v, "content") {
        Some(c) => c,
        None => return None,
    };
    match decode_content(c) {
        Some(content) => Some(Message { role, content }),
        None => None,
    }
}

fn decode_assistant_message(v: &serde_json::Value) -> (r: Option<AssistantMessage>)
    ensures
        r is Some <==> assistant_message_ok(json_view(*v)),
        r is Some ==> assistant_message_is(json_view(*v), r->0),
{
    if !json_is_object(v) {
        return None;
    }
    let role = match get_req_str(v, "role") {
        Some(s) => s,
        None => return None,
    };
    let c = match json_field(v, "content") {
        Some(c) => c,
        None => return None,
    };
    let arr = match json_as_array(c) {
        Some(a) => a,
        None => return None,
    };
    let content = match decode_blocks(arr) {
        Some(bs) => bs,
        None => return None,
    };
    match get_opt_str(v, "model") {
        Some(model) => Some(AssistantMessage { role, content, model }),
        None => None,
    }
}

/// Decodes a parsed JSON line into a record. An unrecognised discriminator
/// gives `Unknown`; a missing or mistyped member gives nothing.
pub fn decode_value(v: &serde_json::Value) -> (r: Option<SessionRecord>)
    ensures
        r is Some <==> record_ok(json_view(*v)),
        r is Some ==> record_is(json_view(*v), r->0),
{
    let tag = match get_tag(v) {
        Some(t) => t,
        None => return None,
    };
    if is_tag(&tag, "summary") {
        let summary = match get_req_str(v, "summary") {
            Some(s) => s,
            None => return None,
        };
        match get_opt_str(v, "leafUuid") {
            Some(leaf_uuid) => Some(SessionRecord::Summary(SummaryRecord { summary, leaf_uuid })),
            None => None,
        }
    } else if is_tag(&tag, "custom-title") {
        match get_req_str(v, "customTitle") {
            Some(custom_title) => Some(
                SessionRecord::CustomTitle(CustomTitleRecord { custom_title }),
            ),
            None => None,
        }
    } else if is_tag(&tag, "file-history-snapshot") {
        match get_req_str(v, "messageId") {
            Some(message_id) => Some(
                SessionRecord::FileHistorySnapshot(FileHistorySnapshot { message_id }),
            ),
            None => None,
        }
    } else if is_tag(&tag, "user") {
        let uuid = match get_req_str(v, "uuid") {
            Some(s) => s,
            None => return None,
        };
        let timestamp = match get_req_ts(v, "timestamp") {
            Some(t) => t,
            None => return None,
        };
        let session_id = match get_req_str(v, "sessionId") {
            Some(s) => s,
            None => return None,
        };
        let message = match json_field(v, "message") {
            Some(m) => match decode_message(m) {
                Some(m) => m,
                None => return None,
            },
            None => return None,
        };
        let cwd = match get_opt_str(v, "cwd") {
            Some(c) => c,
            None => return None,
        };
        let git_branch = match get_opt_str(v, "gitBranch") {
            Some(b) => b,
            None => return None,
        };
        let is_meta = match get_opt_bool(v, "isMeta") {
            Some(b) => b,
            None => return None,
        };
        Some(
            SessionRecord::User(
                UserRecord { uuid, timestamp, session_id, message, cwd, git_branch, is_meta },
            ),
        )
    } else if is_tag(&tag, "assistant") {
        let uuid = match get_req_str(v, "uuid") {
            Some(s) => s,
            None => return None,
        };
        let timestamp = match get_req_ts(v, "timestamp") {
            Some(t) => t,
            None => return None,
        };
        let session_id = match get_req_str(v, "sessionId") {
            Some(s) => s,
            None => return None,
        };
        let message = match json_field(v, "message") {
            Some(m) => match decode_assistant_message(m) {
                Some(m) => m,
                None => return None,
            },
            None => return None,
        };
        Some(SessionRecord::Assistant(AssistantRecord { uuid, timestamp, session_id, message }))
    } else if is_tag(&tag, "system") {
        let uuid = match get_opt_str(v, "uuid") {
            Some(s) => s,
            None => return None,
        };
        let timestamp = match get_opt_ts(v, "timestamp") {
            Some(t) => t,
            None => return None,
        };
        let session_id = match get_opt_str(v, "sessionId") {
            Some(s) => s,
            None => return None,
        };
        Some(SessionRecord::System(SystemRecord { uuid, timestamp, session_id }))
    } else if is_tag(&tag, "queue-operation") {
        let queue_operations = get_opt_value(v, "queueOperations");
        Some(SessionRecord::QueueOperation(QueueOperationRecord { queue_operations }))
    } else {
        Some(SessionRecord::Unknown)
    }
}

/// Decodes one transcript line. Never fails: an empty line, text that is not
/// JSON, or JSON of the wrong shape all give nothing.
pub fn decode_line(line: &str) -> (r: Option<SessionRecord>)
    ensures
        line_decodes_to(line@, r),
{
    if line.unicode_len() == 0 {
        return None;
    }
    match parse_json(line) {
        Some(v) => decode_value(&v),
        None => None,
    }
}

} // verus!

verus! {

impl AssistantMessage {
    /// The flattened text of the reply: its block renderings, one per line.
    pub fn as_text(&self) -> (r: String)
        ensures
            r@ == crate::content::blocks_text(self.content@),
    {
        crate::content::join_blocks(&self.content)
    }
}

} // verus!
