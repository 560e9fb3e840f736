//! Chat sessions: the composer index of a workspace, the message records of
//! the global store, and the conversation model rebuilt from them.

use vstd::prelude::*;
use vstd::string::StringExecFns;
use crate::json::{Json, field, str_of, int_of, bool_of, array_of, parse_json, json_of_text, text_member, int_member};
use crate::text::{to_lowercase, lower_of, push_str, push_char, opt_view};

verus! {

/// Output format of an export.
#[derive(Clone, Copy, Debug, PartialEq, Eq, Structural)]
pub enum ExportFormat {
    Markdown,
    Json,
}

/// The format that a lowercased format name stands for.
pub open spec fn format_named(l: Seq<char>) -> Option<ExportFormat> {
    if l == "md"@ || l == "markdown"@ {
        Some(ExportFormat::Markdown)
    } else if l == "json"@ {
        Some(ExportFormat::Json)
    } else {
        None
    }
}

impl ExportFormat {
    /// The format named by `s`, in any letter case: `md` or `markdown`, or
    /// `json`.
    pub fn from_str(s: &str) -> (r: Option<ExportFormat>)
        ensures
            r == format_named(lower_of(s@)),
    {
        let l = to_lowercase(s);
        ExportFormat::from_lowercase(l.as_str())
    }

    /// The format named by `l`, a name already in lower case.
    pub fn from_lowercase(l: &str) -> (r: Option<ExportFormat>)
        ensures
            r == format_named(l@),
    {
        let md = String::from_str("md");
        let markdown = String::from_str("markdown");
        let json = String::from_str("json");
        let lo = String::from_str(l);
        proof {
            reveal_strlit("md");
            reveal_strlit("markdown");
            reveal_strlit("json");
        }
        if lo == md || lo == markdown {
            Some(ExportFormat::Markdown)
        } else if lo == json {
            Some(ExportFormat::Json)
        } else {
            None
        }
    }
}

/// What an export includes besides the plain conversation.
#[derive(Clone, Copy, Debug)]
pub struct ExportOptions {
    /// Include thinking blocks.
    pub with_thinking: bool,
    /// Include tool calls.
    pub with_tools: bool,
    /// Include model names and token counts.
    pub with_stats: bool,
    /// Include archived sessions.
    pub include_archived: bool,
    /// Leave out sessions without messages.
    pub exclude_blank: bool,
}

impl Default for ExportOptions {
    /// The plain conversation, archived sessions left out, blank ones kept.
    fn default() -> (r: ExportOptions)
        ensures
            !r.with_thinking && !r.with_tools && !r.with_stats && !r.include_archived
                && !r.exclude_blank,
    {
        ExportOptions {
            with_thinking: false,
            with_tools: false,
            with_stats: false,
            include_archived: false,
            exclude_blank: false,
        }
    }
}

/// A tool invocation recorded in a conversation.
#[derive(Clone, Debug)]
pub struct ToolCall {
    pub name: String,
    pub params: Option<String>,
    pub result: Option<String>,
    pub status: Option<String>,
}

/// Token usage of one message.
#[derive(Clone, Copy, Debug, PartialEq, Eq, Structural)]
pub struct TokenCount {
    pub input: i64,
    pub output: i64,
}

/// One message of a conversation. `role` is `user`, `assistant`, `unknown`,
/// `tool` or `thinking`.
#[derive(Clone, Debug)]
pub struct ChatMessage {
    pub role: String,
    pub content: String,
    pub timestamp: Option<i64>,
    pub thinking_duration_ms: Option<i64>,
    pub tool_call: Option<ToolCall>,
    pub model: Option<String>,
    pub tokens: Option<TokenCount>,
}

/// One conversation, its messages in the order of its header list.
#[derive(Clone, Debug)]
pub struct ChatSession {
    pub id: String,
    pub title: Option<String>,
    pub messages: Vec<ChatMessage>,
    pub created_at: Option<i64>,
    pub updated_at: Option<i64>,
}

/// The document that an export writes.
#[derive(Clone, Debug)]
pub struct ChatExport {
    pub project_path: String,
    pub exported_at: i64,
    pub sessions: Vec<ChatSession>,
}

/// One entry of a workspace's composer index.
#[derive(Clone, Debug)]
pub struct ComposerInfo {
    pub composer_id: String,
    pub name: String,
    pub created_at: i64,
    pub last_updated_at: i64,
}

pub struct ToolCallView {
    pub name: Seq<char>,
    pub params: Option<Seq<char>>,
    pub result: Option<Seq<char>>,
    pub status: Option<Seq<char>>,
}

impl View for ToolCall {
    type V = ToolCallView;

    open spec fn view(&self) -> ToolCallView {
        ToolCallView {
            name: self.name@,
            params: opt_view(self.params),
            result: opt_view(self.result),
            status: opt_view(self.status),
        }
    }
}

pub struct ChatMessageView {
    pub role: Seq<char>,
    pub content: Seq<char>,
    pub timestamp: Option<i64>,
    pub thinking_duration_ms: Option<i64>,
    pub tool_call: Option<ToolCallView>,
    pub model: Option<Seq<char>>,
    pub tokens: Option<TokenCount>,
}

impl View for ChatMessage {
    type V = ChatMessageView;

    open spec fn view(&self) -> ChatMessageView {
        ChatMessageView {
            role: self.role@,
            content: self.content@,
            timestamp: self.timestamp,
            thinking_duration_ms: self.thinking_duration_ms,
            tool_call: match self.tool_call {
                Some(t) => Some(t@),
                None => None,
            },
            model: opt_view(self.model),
            tokens: self.tokens,
        }
    }
}

pub struct ComposerView {
    pub composer_id: Seq<char>,
    pub name: Seq<char>,
    pub created_at: i64,
    pub last_updated_at: i64,
}

impl View for ComposerInfo {
    type V = ComposerView;

    open spec fn view(&self) -> ComposerView {
        ComposerView {
            composer_id: self.composer_id@,
            name: self.name@,
            created_at: self.created_at,
            last_updated_at: self.last_updated_at,
        }
    }
}

/// The marker appended to a shortened text.
pub open spec fn truncation_marker() -> Seq<char> {
    "...[truncated]"@
}

/// `s` cut to its first `max_chars` characters, marked as cut, where it is
/// longer than that.
pub open spec fn truncated(s: Seq<char>, max_chars: nat) -> Seq<char> {
    if s.len() <= max_chars {
        s
    } else {
        s.take(max_chars as int) + truncation_marker()
    }
}

/// Shortens `s` to at most `max_chars` characters followed by a marker.
/// Works on whole characters, never on bytes.
pub fn truncate_str(s: &str, max_chars: usize) -> (r: String)
    ensures
        r@ == truncated(s@, max_chars as nat),
{
    let chars = crate::text::chars_of(s);
    if chars.len() <= max_chars {
        return String::from_str(s);
    }
    let mut r = String::new();
    let mut i: usize = 0;
    while i < max_chars
        invariant
            i <= max_chars < chars.len(),
            chars@ == s@,
            r@ == s@.take(i as int),
        decreases max_chars - i,
    {
        crate::text::push_char(&mut r, chars[i]);
        i = i + 1;
        assert(s@.take(i as int) == s@.take(i - 1).push(s@[i - 1]));
    }
    let marker = "...[truncated]";
    proof {
        reveal_strlit("...[truncated]");
    }
    push_str(&mut r, marker);
    r
}

/// The composer that an index entry describes, where the entry is kept: an
/// archived entry is kept only when archived entries are asked for, and an
/// entry needs an identifier and a creation time. The name defaults to
/// `Untitled`, the update time to the creation time.
pub open spec fn composer_of(c: Json, include_archived: bool) -> Option<ComposerView> {
    let archived = bool_of(field(c, "isArchived"@)) == Some(true);
    if archived && !include_archived {
        None
    } else {
        match (str_of(field(c, "composerId"@)), int_of(field(c, "createdAt"@))) {
            (Some(id), Some(created)) => Some(
                ComposerView {
                    composer_id: id,
                    name: match str_of(field(c, "name"@)) {
                        Some(n) => n,
                        None => "Untitled"@,
                    },
                    created_at: created,
                    last_updated_at: match int_of(field(c, "lastUpdatedAt"@)) {
                        Some(u) => u,
                        None => created,
                    },
                },
            ),
            _ => None,
        }
    }
}

/// The composers of the index entries `cs` that are kept, in order.
pub open spec fn composers_of(cs: Seq<Json>, include_archived: bool) -> Seq<ComposerView>
    decreases cs.len(),
{
    if cs.len() == 0 {
        Seq::empty()
    } else {
        let r = composers_of(cs.drop_last(), include_archived);
        match composer_of(cs.last(), include_archived) {
            Some(v) => r.push(v),
            None => r,
        }
    }
}

/// The composers of an index document: `None` where it has no array
/// `allComposers`.
pub open spec fn index_composers(doc: Json, include_archived: bool) -> Option<Seq<ComposerView>> {
    match array_of(field(doc, "allComposers"@)) {
        Some(cs) => Some(composers_of(cs, include_archived)),
        None => None,
    }
}

/// The views of a sequence of composers.
pub open spec fn composer_views(v: Seq<ComposerInfo>) -> Seq<ComposerView> {
    v.map_values(|c: ComposerInfo| c@)
}

/// Reads one composer index entry.
pub fn composer_from_entry(c: &Json, include_archived: bool) -> (r: Option<ComposerInfo>)
    ensures
        match r {
            Some(info) => composer_of(*c, include_archived) == Some(info@),
            None => composer_of(*c, include_archived) is None,
        },
{
    proof {
        reveal_strlit("isArchived");
        reveal_strlit("composerId");
        reveal_strlit("createdAt");
        reveal_strlit("name");
        reveal_strlit("lastUpdatedAt");
        reveal_strlit("Untitled");
    }
    let archived = match c.get("isArchived") {
        Some(v) => match v.as_bool() {
            Some(b) => b,
            None => false,
        },
        None => false,
    };
    if archived && !include_archived {
        return None;
    }
    let id = match c.get("composerId") {
        Some(v) => match v.as_str() {
            Some(s) => s.clone(),
            None => return None,
        },
        None => return None,
    };
    let name = match c.get("name") {
        Some(v) => match v.as_str() {
            Some(s) => s.clone(),
            None => String::from_str("Untitled"),
        },
        None => String::from_str("Untitled"),
    };
    let created = match c.get("createdAt") {
        Some(v) => match v.as_i64() {
            Some(t) => t,
            None => return None,
        },
        None => return None,
    };
    let updated = match c.get("lastUpdatedAt") {
        Some(v) => match v.as_i64() {
            Some(t) => t,
            None => created,
        },
        None => created,
    };
    Some(ComposerInfo { composer_id: id, name, created_at: created, last_updated_at: updated })
}

/// Reads the composers of an index document, dropping the entries that are
/// not kept.
pub fn composers_from_json(doc: &Json, include_archived: bool) -> (r: Option<Vec<ComposerInfo>>)
    ensures
        match r {
            Some(v) => index_composers(*doc, include_archived) == Some(composer_views(v@)),
            None => index_composers(*doc, include_archived) is None,
        },
{
    proof {
        reveal_strlit("allComposers");
    }
    let entries = match doc.get("allComposers") {
        Some(v) => match v.as_array() {
            Some(a) => a,
            None => return None,
        },
        None => return None,
    };
    let mut out: Vec<ComposerInfo> = Vec::new();
    let mut i: usize = 0;
    while i < entries.len()
        invariant
            i <= entries.len(),
            composer_views(out@) == composers_of(entries@.take(i as int), include_archived),
        decreases entries.len() - i,
    {
        assert(entries@.take(i + 1).drop_last() == entries@.take(i as int));
        match composer_from_entry(&entries[i], include_archived) {
            Some(info) => {
                let ghost before = out@;
                out.push(info);
                assert(composer_views(out@) =~= composer_views(before).push(info@));
            },
            None => {},
        }
        i = i + 1;
    }
    assert(entries@.take(entries.len() as int) == entries@);
    Some(out)
}

/// Reads the composers of an index record: `None` where the text is not a
/// JSON document or has no array `allComposers`.
pub fn parse_composer_data(data: &str, include_archived: bool) -> (r: Option<Vec<ComposerInfo>>)
    ensures
        match json_of_text(data@) {
            Some(doc) => match r {
                Some(v) => index_composers(doc, include_archived) == Some(composer_views(v@)),
                None => index_composers(doc, include_archived) is None,
            },
            None => r is None,
        },
{
    match parse_json(data) {
        Some(doc) => composers_from_json(&doc, include_archived),
        None => None,
    }
}

/// What `chrono` reads as the seconds since the epoch of an RFC 3339 time.
pub uninterp spec fn rfc3339_seconds_of(s: Seq<char>) -> Option<i64>;

/// Relies on `chrono::DateTime::parse_from_rfc3339` and `DateTime::timestamp`:
/// the seconds since the epoch, `None` where the text is not such a time.
#[verifier::external_body]
fn parse_iso_timestamp(s: &str) -> (r: Option<i64>)
    ensures
        r == rfc3339_seconds_of(s@),
{
    chrono::DateTime::parse_from_rfc3339(s).ok().map(|dt| dt.timestamp())
}

/// The time at which a message record was made, where it holds a readable one.
pub open spec fn record_time(b: Json) -> Option<i64> {
    match str_of(field(b, "createdAt"@)) {
        Some(t) => rfc3339_seconds_of(t),
        None => None,
    }
}

/// The thinking block of a message record, where thinking blocks are asked
/// for and the record holds non-empty reasoning text.
pub open spec fn thinking_message(b: Json, o: ExportOptions) -> Option<ChatMessageView> {
    if !o.with_thinking {
        None
    } else {
        match field(b, "thinking"@) {
            Some(th) => match str_of(field(th, "text"@)) {
                Some(t) => if t.len() > 0 {
                    Some(
                        ChatMessageView {
                            role: "thinking"@,
                            content: t,
                            timestamp: record_time(b),
                            thinking_duration_ms: int_of(field(b, "thinkingDurationMs"@)),
                            tool_call: None,
                            model: None,
                            tokens: None,
                        },
                    )
                } else {
                    None
                },
                None => None,
            },
            None => None,
        }
    }
}

/// The tool invocation of a message record, where tool calls are asked for and
/// the record holds a tool-call object. Parameters and results are cut to 500
/// and 1000 characters.
pub open spec fn tool_message(b: Json, o: ExportOptions) -> Option<ChatMessageView> {
    if !o.with_tools {
        None
    } else {
        match field(b, "toolFormerData"@) {
            Some(td) => if td is Object {
                let name = match str_of(field(td, "name"@)) {
                    Some(n) => n,
                    None => "unknown"@,
                };
                Some(
                    ChatMessageView {
                        role: "tool"@,
                        content: "["@ + name + "]"@,
                        timestamp: record_time(b),
                        thinking_duration_ms: None,
                        tool_call: Some(
                            ToolCallView {
                                name: name,
                                params: match str_of(field(td, "params"@)) {
                                    Some(p) => Some(truncated(p, 500)),
                                    None => None,
                                },
                                result: match str_of(field(td, "result"@)) {
                                    Some(p) => Some(truncated(p, 1000)),
                                    None => None,
                                },
                                status: str_of(field(td, "status"@)),
                            },
                        ),
                        model: None,
                        tokens: None,
                    },
                )
            } else {
                None
            },
            None => None,
        }
    }
}

/// The role that a message type code stands for.
pub open spec fn role_named(t: i64) -> Seq<char> {
    if t == 1 {
        "user"@
    } else if t == 2 {
        "assistant"@
    } else {
        "unknown"@
    }
}

/// The token counts of a message record, where statistics are asked for and
/// both counts are there, not both zero or less.
pub open spec fn record_tokens(b: Json, o: ExportOptions) -> Option<TokenCount> {
    if !o.with_stats {
        None
    } else {
        match field(b, "tokenCount"@) {
            Some(tc) => match (int_of(field(tc, "inputTokens"@)), int_of(field(tc, "outputTokens"@))) {
                (Some(i), Some(out)) => if i > 0 || out > 0 {
                    Some(TokenCount { input: i, output: out })
                } else {
                    None
                },
                _ => None,
            },
            None => None,
        }
    }
}

/// The model of a message record, where statistics are asked for.
pub open spec fn record_model(b: Json, o: ExportOptions) -> Option<Seq<char>> {
    if !o.with_stats {
        None
    } else {
        match field(b, "modelInfo"@) {
            Some(mi) => str_of(field(mi, "modelName"@)),
            None => None,
        }
    }
}

/// The plain text message of a record, where its text is not empty.
pub open spec fn text_message(b: Json, t: i64, o: ExportOptions) -> Option<ChatMessageView> {
    match str_of(field(b, "text"@)) {
        Some(text) => if text.len() > 0 {
            Some(
                ChatMessageView {
                    role: role_named(t),
                    content: text,
                    timestamp: record_time(b),
                    thinking_duration_ms: None,
                    tool_call: None,
                    model: record_model(b, o),
                    tokens: record_tokens(b, o),
                },
            )
        } else {
            None
        },
        None => None,
    }
}

/// The sequence holding `m`, where there is one.
pub open spec fn seq_of_opt<A>(m: Option<A>) -> Seq<A> {
    match m {
        Some(x) => seq![x],
        None => Seq::empty(),
    }
}

/// The messages of one message record of type `t`: its thinking block, then
/// its tool invocation or, where it has none, its text.
pub open spec fn bubble_messages(b: Json, t: i64, o: ExportOptions) -> Seq<ChatMessageView> {
    seq_of_opt(thinking_message(b, o)) + match tool_message(b, o) {
        Some(m) => seq![m],
        None => seq_of_opt(text_message(b, t, o)),
    }
}

/// The views of a sequence of messages.
pub open spec fn message_views(v: Seq<ChatMessage>) -> Seq<ChatMessageView> {
    v.map_values(|m: ChatMessage| m@)
}

fn thinking_from_bubble(b: &Json, timestamp: Option<i64>, o: &ExportOptions) -> (r: Option<ChatMessage>)
    requires
        timestamp == record_time(*b),
    ensures
        match r {
            Some(m) => thinking_message(*b, *o) == Some(m@),
            None => thinking_message(*b, *o) is None,
        },
{
    proof {
        reveal_strlit("thinking");
        reveal_strlit("text");
        reveal_strlit("thinkingDurationMs");
    }
    if !o.with_thinking {
        return None;
    }
    let th = match b.get("thinking") {
        Some(th) => th,
        None => return None,
    };
    let text = match text_member(th, "text") {
        Some(t) => t,
        None => return None,
    };
    if text.as_str().is_empty() {
        return None;
    }
    Some(ChatMessage {
        role: String::from_str("thinking"),
        content: text,
        timestamp,
        thinking_duration_ms: int_member(b, "thinkingDurationMs"),
        tool_call: None,
        model: None,
        tokens: None,
    })
}

fn truncate_opt(s: Option<String>, max_chars: usize) -> (r: Option<String>)
    ensures
        opt_view(r) == match opt_view(s) {
            Some(p) => Some(truncated(p, max_chars as nat)),
            None => None,
        },
{
    match s {
        Some(p) => Some(truncate_str(p.as_str(), max_chars)),
        None => None,
    }
}

fn tool_from_bubble(b: &Json, timestamp: Option<i64>, o: &ExportOptions) -> (r: Option<ChatMessage>)
    requires
        timestamp == record_time(*b),
    ensures
        match r {
            Some(m) => tool_message(*b, *o) == Some(m@),
            None => tool_message(*b, *o) is None,
        },
{
    proof {
        reveal_strlit("toolFormerData");
        reveal_strlit("name");
        reveal_strlit("unknown");
        reveal_strlit("params");
        reveal_strlit("result");
        reveal_strlit("status");
        reveal_strlit("tool");
        reveal_strlit("[");
        reveal_strlit("]");
    }
    if !o.with_tools {
        return None;
    }
    let td = match b.get("toolFormerData") {
        Some(td) => td,
        None => return None,
    };
    match td {
        Json::Object(_) => {},
        _ => return None,
    }
    let name = match text_member(td, "name") {
        Some(n) => n,
        None => String::from_str("unknown"),
    };
    let mut content = String::from_str("[");
    push_str(&mut content, name.as_str());
    push_str(&mut content, "]");
    let params = truncate_opt(text_member(td, "params"), 500);
    let result = truncate_opt(text_member(td, "result"), 1000);
    let status = text_member(td, "status");
    Some(ChatMessage {
        role: String::from_str("tool"),
        content,
        timestamp,
        thinking_duration_ms: None,
        tool_call: Some(ToolCall { name, params, result, status }),
        model: None,
        tokens: None,
    })
}

fn tokens_from_bubble(b: &Json, o: &ExportOptions) -> (r: Option<TokenCount>)
    ensures
        r == record_tokens(*b, *o),
{
    proof {
        reveal_strlit("tokenCount");
        reveal_strlit("inputTokens");
        reveal_strlit("outputTokens");
    }
    if !o.with_stats {
        return None;
    }
    match b.get("tokenCount") {
        Some(tc) => match (int_member(tc, "inputTokens"), int_member(tc, "outputTokens")) {
            (Some(i), Some(out)) => if i > 0 || out > 0 {
                Some(TokenCount { input: i, output: out })
            } else {
                None
            },
            _ => None,
        },
        None => None,
    }
}

fn text_from_bubble(b: &Json, t: i64, timestamp: Option<i64>, o: &ExportOptions) -> (r: Option<ChatMessage>)
    requires
        timestamp == record_time(*b),
    ensures
        match r {
            Some(m) => text_message(*b, t, *o) == Some(m@),
            None => text_message(*b, t, *o) is None,
        },
{
    proof {
        reveal_strlit("text");
        reveal_strlit("user");
        reveal_strlit("assistant");
        reveal_strlit("unknown");
        reveal_strlit("modelInfo");
        reveal_strlit("modelName");
    }
    let text = match text_member(b, "text") {
        Some(t) => t,
        None => return None,
    };
    if text.as_str().is_empty() {
        return None;
    }
    let role = if t == 1 {
        String::from_str("user")
    } else if t == 2 {
        String::from_str("assistant")
    } else {
        String::from_str("unknown")
    };
    let model = if o.with_stats {
        match b.get("modelInfo") {
            Some(mi) => text_member(mi, "modelName"),
            None => None,
        }
    } else {
        None
    };
    Some(ChatMessage {
        role,
        content: text,
        timestamp,
        thinking_duration_ms: None,
        tool_call: None,
        model,
        tokens: tokens_from_bubble(b, o),
    })
}

/// Turns one message record of type `t` into messages: its thinking block
/// where asked for, then its tool invocation where asked for, or else its
/// text.
pub fn messages_from_bubble(b: &Json, t: i64, o: &ExportOptions) -> (r: Vec<ChatMessage>)
    ensures
        message_views(r@) == bubble_messages(*b, t, *o),
{
    proof {
        reveal_strlit("createdAt");
    }
    let timestamp = match text_member(b, "createdAt") {
        Some(s) => parse_iso_timestamp(s.as_str()),
        None => None,
    };
    let mut r: Vec<ChatMessage> = Vec::new();
    match thinking_from_bubble(b, timestamp, o) {
        Some(m) => r.push(m),
        None => {},
    }
    let ghost first = r@;
    assert(message_views(first) =~= seq_of_opt(thinking_message(*b, *o)));
    match tool_from_bubble(b, timestamp, o) {
        Some(m) => r.push(m),
        None => match text_from_bubble(b, t, timestamp, o) {
            Some(m) => r.push(m),
            None => {},
        },
    }
    assert(message_views(r@) =~= bubble_messages(*b, t, *o));
    r
}

/// The messages of a message record of type `t` given as text: none where the
/// text is not a JSON document.
pub open spec fn record_messages(text: Seq<char>, t: i64, o: ExportOptions) -> Seq<ChatMessageView> {
    match json_of_text(text) {
        Some(b) => bubble_messages(b, t, o),
        None => Seq::empty(),
    }
}

/// Reads the messages of one message record given as text.
pub fn messages_from_record(text: &str, t: i64, o: &ExportOptions) -> (r: Vec<ChatMessage>)
    ensures
        message_views(r@) == record_messages(text@, t, *o),
{
    match parse_json(text) {
        Some(b) => messages_from_bubble(&b, t, o),
        None => {
            assert(message_views(Seq::<ChatMessage>::empty()) =~= Seq::empty());
            Vec::new()
        },
    }
}

/// One entry of a session's header list: a message identifier and its type.
#[derive(Clone, Debug)]
pub struct MessageHeader {
    pub bubble_id: String,
    pub bubble_type: i64,
}

pub struct MessageHeaderView {
    pub bubble_id: Seq<char>,
    pub bubble_type: i64,
}

impl View for MessageHeader {
    type V = MessageHeaderView;

    open spec fn view(&self) -> MessageHeaderView {
        MessageHeaderView { bubble_id: self.bubble_id@, bubble_type: self.bubble_type }
    }
}

/// The header of a header-list entry, where it has a message identifier; the
/// type defaults to 0.
pub open spec fn header_of(h: Json) -> Option<MessageHeaderView> {
    match str_of(field(h, "bubbleId"@)) {
        Some(id) => Some(
            MessageHeaderView {
                bubble_id: id,
                bubble_type: match int_of(field(h, "type"@)) {
                    Some(t) => t,
                    None => 0,
                },
            },
        ),
        None => None,
    }
}

/// The headers of the entries `hs` that have an identifier, in order.
pub open spec fn headers_of(hs: Seq<Json>) -> Seq<MessageHeaderView>
    decreases hs.len(),
{
    if hs.len() == 0 {
        Seq::empty()
    } else {
        let r = headers_of(hs.drop_last());
        match header_of(hs.last()) {
            Some(h) => r.push(h),
            None => r,
        }
    }
}

/// The header list of a session record given as text: empty where the text is
/// not a JSON document or has no array `fullConversationHeadersOnly`.
pub open spec fn record_headers(text: Seq<char>) -> Seq<MessageHeaderView> {
    match json_of_text(text) {
        Some(doc) => match array_of(field(doc, "fullConversationHeadersOnly"@)) {
            Some(hs) => headers_of(hs),
            None => Seq::empty(),
        },
        None => Seq::empty(),
    }
}

/// Reads the ordered header list of a session record given as text.
pub fn message_headers(text: &str) -> (r: Vec<MessageHeader>)
    ensures
        r@.map_values(|h: MessageHeader| h@) == record_headers(text@),
{
    proof {
        reveal_strlit("fullConversationHeadersOnly");
        reveal_strlit("bubbleId");
        reveal_strlit("type");
    }
    let mut out: Vec<MessageHeader> = Vec::new();
    let doc = match parse_json(text) {
        Some(d) => d,
        None => {
            assert(out@.map_values(|h: MessageHeader| h@) =~= Seq::empty());
            return out;
        },
    };
    let entries = match doc.get("fullConversationHeadersOnly") {
        Some(v) => match v.as_array() {
            Some(a) => a,
            None => {
                assert(out@.map_values(|h: MessageHeader| h@) =~= Seq::empty());
                return out;
            },
        },
        None => {
            assert(out@.map_values(|h: MessageHeader| h@) =~= Seq::empty());
            return out;
        },
    };
    let mut i: usize = 0;
    assert(out@.map_values(|h: MessageHeader| h@) =~= headers_of(entries@.take(0)));
    while i < entries.len()
        invariant
            i <= entries.len(),
            out@.map_values(|h: MessageHeader| h@) == headers_of(entries@.take(i as int)),
        decreases entries.len() - i,
    {
        assert(entries@.take(i + 1).drop_last() == entries@.take(i as int));
        let e = &entries[i];
        match text_member(e, "bubbleId") {
            Some(id) => {
                let t = match int_member(e, "type") {
                    Some(t) => t,
                    None => 0,
                };
                let ghost before = out@;
                let h = MessageHeader { bubble_id: id, bubble_type: t };
                out.push(h);
                assert(out@.map_values(|h: MessageHeader| h@) =~= before.map_values(
                    |h: MessageHeader| h@,
                ).push(h@));
            },
            None => {},
        }
        i = i + 1;
    }
    assert(entries@.take(entries.len() as int) == entries@);
    out
}

/// The messages of a conversation whose header list gave, in order, the type
/// and the fetched record of each message (`None` where the record could not
/// be fetched).
pub open spec fn conversation(recs: Seq<(i64, Option<String>)>, o: ExportOptions) -> Seq<ChatMessageView>
    decreases recs.len(),
{
    if recs.len() == 0 {
        Seq::empty()
    } else {
        conversation(recs.drop_last(), o) + match recs.last().1 {
            Some(text) => record_messages(text@, recs.last().0, o),
            None => Seq::empty(),
        }
    }
}

/// Rebuilds the messages of a conversation from its message records, taken in
/// the order of its header list. A record that could not be fetched adds no
/// message and takes none away.
pub fn conversation_messages(recs: &Vec<(i64, Option<String>)>, o: &ExportOptions) -> (r: Vec<ChatMessage>)
    ensures
        message_views(r@) == conversation(recs@, *o),
{
    let mut out: Vec<ChatMessage> = Vec::new();
    let mut i: usize = 0;
    assert(message_views(out@) =~= conversation(recs@.take(0), *o));
    while i < recs.len()
        invariant
            i <= recs.len(),
            message_views(out@) == conversation(recs@.take(i as int), *o),
        decreases recs.len() - i,
    {
        assert(recs@.take(i + 1).drop_last() == recs@.take(i as int));
        assert(recs@.take(i + 1).last() == recs@[i as int]);
        match &recs[i].1 {
            Some(text) => {
                let mut ms = messages_from_record(text.as_str(), recs[i].0, o);
                let ghost before = out@;
                let ghost added = ms@;
                out.append(&mut ms);
                assert(message_views(out@) =~= message_views(before) + message_views(added));
            },
            None => {},
        }
        i = i + 1;
    }
    assert(recs@.take(recs.len() as int) == recs@);
    out
}

/// The messages of a conversation split anywhere are those of the two parts.
proof fn lemma_conversation_concat(a: Seq<(i64, Option<String>)>, b: Seq<(i64, Option<String>)>, o: ExportOptions)
    ensures
        conversation(a + b, o) == conversation(a, o) + conversation(b, o),
    decreases b.len(),
{
    if b.len() == 0 {
        assert(a + b == a);
        assert(conversation(b, o) =~= Seq::empty());
        assert(conversation(a, o) + conversation(b, o) =~= conversation(a, o));
    } else {
        lemma_conversation_concat(a, b.drop_last(), o);
        assert((a + b).drop_last() == a + b.drop_last());
        assert((a + b).last() == b.last());
        let tail = match b.last().1 {
            Some(text) => record_messages(text@, b.last().0, o),
            None => Seq::<ChatMessageView>::empty(),
        };
        assert(conversation(a + b, o) == conversation(a, o) + conversation(b.drop_last(), o) + tail);
        assert(conversation(a, o) + conversation(b.drop_last(), o) + tail =~= conversation(a, o) + (
        conversation(b.drop_last(), o) + tail));
    }
}

/// A message record that could not be fetched drops no other message: the
/// conversation is that of the records before it followed by that of the
/// records after it.
pub proof fn lemma_missing_record_keeps_others(recs: Seq<(i64, Option<String>)>, i: int, o: ExportOptions)
    requires
        0 <= i < recs.len(),
        recs[i].1 is None,
    ensures
        conversation(recs, o) == conversation(recs.take(i), o) + conversation(recs.skip(i + 1), o),
{
    let mid = seq![recs[i]];
    assert(recs == recs.take(i) + mid + recs.skip(i + 1));
    lemma_conversation_concat(recs.take(i) + mid, recs.skip(i + 1), o);
    lemma_conversation_concat(recs.take(i), mid, o);
    assert(mid.drop_last() =~= Seq::<(i64, Option<String>)>::empty());
    assert(mid.last() == recs[i]);
    assert(conversation(mid.drop_last(), o) =~= Seq::empty());
    assert(conversation(mid, o) =~= Seq::empty());
    assert(conversation(recs.take(i), o) + conversation(mid, o) =~= conversation(recs.take(i), o));
}

/// The key of a session's record in the global store.
pub open spec fn composer_key(id: Seq<char>) -> Seq<char> {
    "composerData:"@ + id
}

/// The key of a message's record in the global store.
pub open spec fn bubble_key(session_id: Seq<char>, message_id: Seq<char>) -> Seq<char> {
    "bubbleId:"@ + session_id + ":"@ + message_id
}

/// The key under which the global store keeps the record of session `id`.
pub fn composer_record_key(id: &str) -> (r: String)
    ensures
        r@ == composer_key(id@),
{
    let mut r = String::from_str("composerData:");
    push_str(&mut r, id);
    r
}

/// The key under which the global store keeps a message of a session.
pub fn bubble_record_key(session_id: &str, message_id: &str) -> (r: String)
    ensures
        r@ == bubble_key(session_id@, message_id@),
{
    let mut r = String::from_str("bubbleId:");
    push_str(&mut r, session_id);
    push_str(&mut r, ":");
    push_str(&mut r, message_id);
    r
}

/// `x` divided by `d`, rounded toward zero.
pub open spec fn div_toward_zero(x: int, d: int) -> int {
    if x >= 0 {
        x / d
    } else {
        -((-x) / d)
    }
}

/// Milliseconds to whole seconds, rounded toward zero.
pub fn millis_to_seconds(ms: i64) -> (r: i64)
    ensures
        r == div_toward_zero(ms as int, 1000),
{
    if ms >= 0 {
        ((ms as u64) / 1000) as i64
    } else {
        let m: u64 = ((-(ms + 1)) as u64) + 1;
        assert(m == -(ms as int));
        let q: u64 = m / 1000;
        -(q as i64)
    }
}

/// The session of a composer index entry, holding `messages`. A session is
/// made for every entry, with or without messages.
pub fn session_from_composer(info: ComposerInfo, messages: Vec<ChatMessage>) -> (r: ChatSession)
    ensures
        r.id@ == info.composer_id@,
        opt_view(r.title) == Some(info.name@),
        r.messages@ == messages@,
        r.created_at == Some(div_toward_zero(info.created_at as int, 1000) as i64),
        r.updated_at == Some(div_toward_zero(info.last_updated_at as int, 1000) as i64),
{
    let created = millis_to_seconds(info.created_at);
    let updated = millis_to_seconds(info.last_updated_at);
    ChatSession {
        id: info.composer_id,
        title: Some(info.name),
        messages,
        created_at: Some(created),
        updated_at: Some(updated),
    }
}

/// The creation time of a session as a number that orders sessions, a session
/// without one coming before every other.
pub open spec fn created_rank(s: ChatSession) -> int {
    match s.created_at {
        Some(t) => t as int,
        None => i64::MIN - 1,
    }
}

fn rank_of(s: &ChatSession) -> (r: i128)
    ensures
        r == created_rank(*s),
{
    match s.created_at {
        Some(t) => t as i128,
        None => (i64::MIN as i128) - 1,
    }
}

/// Whether `v` runs from the newest session to the oldest.
pub open spec fn newest_first(v: Seq<ChatSession>) -> bool {
    forall|i: int, j: int| 0 <= i < j < v.len() ==> created_rank(v[i]) >= created_rank(v[j])
}

/// Where `x` goes among `s`: before the first session created before `x`.
pub open spec fn newest_insert_pos(s: Seq<ChatSession>, x: ChatSession) -> int
    decreases s.len(),
{
    if s.len() == 0 {
        0
    } else if !(created_rank(s[0]) >= created_rank(x)) {
        0
    } else {
        1 + newest_insert_pos(s.drop_first(), x)
    }
}

/// `v` in order, each inserted after those before it that it may come after:
/// equal keys keep their order.
pub open spec fn newest_sorted(v: Seq<ChatSession>) -> Seq<ChatSession>
    decreases v.len(),
{
    if v.len() == 0 {
        Seq::empty()
    } else {
        let s = newest_sorted(v.drop_last());
        s.insert(newest_insert_pos(s, v.last()), v.last())
    }
}

proof fn lemma_newest_insert_pos(s: Seq<ChatSession>, x: ChatSession, j: int)
    requires
        0 <= j <= s.len(),
        forall|m: int| 0 <= m < j ==> created_rank(s[m]) >= created_rank(x),
        j == s.len() || !(created_rank(s[j]) >= created_rank(x)),
    ensures
        newest_insert_pos(s, x) == j,
    decreases j,
{
    if j > 0 {
        let t = s.drop_first();
        assert forall|m: int| 0 <= m < j - 1 implies created_rank(t[m]) >= created_rank(x) by {
            assert(t[m] == s[m + 1]);
        }
        if j < s.len() {
            assert(t[j - 1] == s[j]);
        }
        lemma_newest_insert_pos(t, x, j - 1);
    }
}

/// Orders sessions from the newest to the oldest, sessions created at the
/// same time keeping their order.
pub fn sort_newest_first(v: Vec<ChatSession>) -> (r: Vec<ChatSession>)
    ensures
        newest_first(r@),
        r@.to_multiset() == v@.to_multiset(),
        r@ == newest_sorted(v@),
{
    broadcast use vstd::seq_lib::group_to_multiset_ensures;
    let ghost orig = v@;
    let mut rest = v;
    let mut out: Vec<ChatSession> = Vec::new();
    let ghost mut k: int = 0;
    assert(orig.take(0) =~= Seq::<ChatSession>::empty());
    assert(orig.skip(0) == orig);
    while rest.len() > 0
        invariant
            0 <= k <= orig.len(),
            rest@ == orig.skip(k),
            out@ == newest_sorted(orig.take(k)),
            newest_first(out@),
            out@.to_multiset().add(rest@.to_multiset()) == orig.to_multiset(),
        decreases rest.len(),
    {
        let ghost rest_before = rest@;
        let x = rest.remove(0);
        proof {
            vstd::seq_lib::to_multiset_remove(rest_before, 0);
            assert(orig.take(k + 1).drop_last() == orig.take(k));
            assert(orig.take(k + 1).last() == x);
            k = k + 1;
            assert(rest@ =~= orig.skip(k));
        }
        let k = rank_of(&x);
        let mut j: usize = 0;
        while j < out.len() && rank_of(&out[j]) >= k
            invariant
                j <= out.len(),
                forall|m: int| 0 <= m < j ==> created_rank(out@[m]) >= k,
            decreases out.len() - j,
        {
            j = j + 1;
        }
        let ghost out_before = out@;
        proof {
            lemma_newest_insert_pos(out_before, x, j as int);
        }
        out.insert(j, x);
        proof {
            vstd::seq_lib::to_multiset_insert(out_before, j as int, x);
            assert forall|a: int, b: int| 0 <= a < b < out@.len() implies created_rank(out@[a])
                >= created_rank(out@[b]) by {
                if j < out_before.len() {
                    assert(created_rank(out_before[j as int]) < k);
                }
            }
            let ghost mo = out_before.to_multiset();
            let ghost mr = rest_before.to_multiset();
            assert(rest_before[0] == x);
            assert(rest_before.contains(x));
            rest_before.to_multiset_ensures();
            assert(mr.count(x) > 0);
            assert(out@.to_multiset() == mo.insert(x));
            assert(rest@.to_multiset() == mr.remove(x));
            assert(mo.insert(x).add(mr.remove(x)) =~= mo.add(mr));
        }
    }
    assert(orig.take(k) == orig);
    out
}

/// Whether a session holds at least one message.
pub open spec fn has_messages(s: ChatSession) -> bool {
    s.messages@.len() > 0
}

/// Leaves out the sessions without messages, keeping the order of the others.
pub fn exclude_blank(v: Vec<ChatSession>) -> (r: Vec<ChatSession>)
    ensures
        r@ == v@.filter(|s: ChatSession| has_messages(s)),
{
    let ghost orig = v@;
    let mut rest = v;
    let mut out: Vec<ChatSession> = Vec::new();
    let ghost mut k: int = 0;
    while rest.len() > 0
        invariant
            0 <= k <= orig.len(),
            rest@ == orig.skip(k),
            out@ == orig.take(k).filter(|s: ChatSession| has_messages(s)),
        decreases rest.len(),
    {
        let x = rest.remove(0);
        proof {
            assert(orig.take(k + 1).drop_last() == orig.take(k));
            assert(orig.take(k + 1).last() == x);
            reveal(Seq::filter);
            k = k + 1;
            assert(rest@ =~= orig.skip(k));
        }
        if x.messages.len() > 0 {
            out.push(x);
        }
    }
    assert(orig.take(k) == orig);
    out
}

/// The number of index entries among `cs` that are not archived.
pub open spec fn active_count(cs: Seq<Json>) -> nat
    decreases cs.len(),
{
    if cs.len() == 0 {
        0
    } else {
        active_count(cs.drop_last()) + if bool_of(field(cs.last(), "isArchived"@)) == Some(true) {
            0nat
        } else {
            1nat
        }
    }
}

/// The number of sessions that an index document lists and that are not
/// archived: 0 where it has no array `allComposers`.
pub open spec fn index_active_count(doc: Json) -> nat {
    match array_of(field(doc, "allComposers"@)) {
        Some(cs) => active_count(cs),
        None => 0,
    }
}

/// Counts the sessions of a composer index record that are not archived:
/// `None` where the text is not a JSON document.
pub fn count_active_composers(data: &str) -> (r: Option<usize>)
    ensures
        match json_of_text(data@) {
            Some(doc) => r == Some(index_active_count(doc) as usize),
            None => r is None,
        },
{
    proof {
        reveal_strlit("allComposers");
        reveal_strlit("isArchived");
    }
    let doc = match parse_json(data) {
        Some(d) => d,
        None => return None,
    };
    let entries = match doc.get("allComposers") {
        Some(v) => match v.as_array() {
            Some(a) => a,
            None => return Some(0),
        },
        None => return Some(0),
    };
    let mut n: usize = 0;
    let mut i: usize = 0;
    while i < entries.len()
        invariant
            i <= entries.len(),
            n == active_count(entries@.take(i as int)),
            n <= i,
        decreases entries.len() - i,
    {
        assert(entries@.take(i + 1).drop_last() == entries@.take(i as int));
        let archived = match entries[i].get("isArchived") {
            Some(v) => match v.as_bool() {
                Some(b) => b,
                None => false,
            },
            None => false,
        };
        if !archived {
            n = n + 1;
        }
        i = i + 1;
    }
    assert(entries@.take(entries.len() as int) == entries@);
    Some(n)
}

} // verus!
