//! The human-readable rendering of exported conversations, and the names of
//! the files that a split export writes.

use vstd::prelude::*;
use crate::sessions::{
    ChatExport, ChatMessage, ChatMessageView, ChatSession, ExportFormat, ToolCallView, message_views,
    };
use crate::text::{
    chars_of, decimal, push_char, push_decimal, push_signed_decimal, push_str, same_text,
    signed_decimal, trim_white_space, trim_ws, opt_view};

verus! {

/// The UTC date and time that `chrono` writes for a count of seconds since
/// the epoch, where it can represent it.
pub uninterp spec fn utc_text_of(ts: i64) -> Option<Seq<char>>;

/// Relies on `chrono::DateTime::from_timestamp` and `DateTime::format` with
/// `%Y-%m-%d %H:%M:%S UTC`: the text depends on the count alone, `None` where
/// it is out of range.
#[verifier::external_body]
fn utc_text(ts: i64) -> (r: Option<String>)
    ensures
        opt_view(r) == utc_text_of(ts),
{
    chrono::DateTime::from_timestamp(ts, 0).map(|dt| dt.format("%Y-%m-%d %H:%M:%S UTC").to_string())
}

/// How a count of seconds since the epoch is shown: as a UTC date and time,
/// or as the count where no date can be made of it.
pub open spec fn timestamp_text(ts: i64) -> Seq<char> {
    match utc_text_of(ts) {
        Some(t) => t,
        None => signed_decimal(ts),
    }
}

/// Shows a count of seconds since the epoch.
pub fn format_timestamp(ts: i64) -> (r: String)
    ensures
        r@ == timestamp_text(ts),
{
    match utc_text(ts) {
        Some(t) => t,
        None => {
            let mut s = String::new();
            push_signed_decimal(&mut s, ts);
            s
        },
    }
}

/// `n / d` rounded to the nearest whole number, a tie to the even one.
pub open spec fn div_round_even(n: nat, d: nat) -> nat
    recommends
        d > 0,
{
    let q = n / d;
    let r = n % d;
    if 2 * r > d || (2 * r == d && q % 2 == 1) {
        q + 1
    } else {
        q
    }
}

/// A number of tenths written with one decimal.
pub open spec fn tenths_text(t: nat) -> Seq<char> {
    decimal((t / 10) as u64) + seq!['.', ((48 + t % 10) as u8) as char]
}

/// A duration in milliseconds as seconds with one decimal, rounded to the
/// nearest tenth, a tie to the even tenth.
pub open spec fn seconds_text(ms: i64) -> Seq<char> {
    if ms < 0 {
        seq!['-'] + tenths_text(div_round_even((-(ms as int)) as nat, 100))
    } else {
        tenths_text(div_round_even(ms as nat, 100))
    }
}

fn round_even(n: u128, d: u128) -> (r: u128)
    requires
        0 < d <= u64::MAX,
        n <= u64::MAX as u128 * 10,
    ensures
        r == div_round_even(n as nat, d as nat),
        r <= n / d + 1,
{
    let q = n / d;
    let rem = n % d;
    if 2 * rem > d || (2 * rem == d && q % 2 == 1) {
        q + 1
    } else {
        q
    }
}

fn push_tenths(s: &mut String, t: u128)
    requires
        t / 10 <= u64::MAX,
    ensures
        final(s)@ == old(s)@ + tenths_text(t as nat),
{
    push_decimal(s, (t / 10) as u64);
    push_char(s, '.');
    push_char(s, ((48 + t % 10) as u8) as char);
    assert(final(s)@ =~= old(s)@ + tenths_text(t as nat));
}

/// Appends a duration in milliseconds as seconds with one decimal.
pub fn push_seconds(s: &mut String, ms: i64)
    ensures
        final(s)@ == old(s)@ + seconds_text(ms),
{
    if ms < 0 {
        push_char(s, '-');
        let m: u128 = ((-(ms + 1)) as u128) + 1;
        let t = round_even(m, 100);
        push_tenths(s, t);
        assert(final(s)@ =~= old(s)@ + seconds_text(ms));
    } else {
        let t = round_even(ms as u128, 100);
        push_tenths(s, t);
    }
}

/// How a message's role is shown in its heading.
pub open spec fn role_display(role: Seq<char>) -> Seq<char> {
    if role == "user"@ {
        "**User**"@
    } else if role == "assistant"@ {
        "**Assistant**"@
    } else if role == "system"@ {
        "**System**"@
    } else {
        role
    }
}

/// A piece of text shown only where `o` holds a value.
pub open spec fn opt_piece(o: Option<Seq<char>>, before: Seq<char>, after: Seq<char>) -> Seq<char> {
    match o {
        Some(x) => before + x + after,
        None => Seq::empty(),
    }
}

/// The rendering of a tool invocation under a heading of `heading`.
pub open spec fn tool_md(tc: ToolCallView, heading: Seq<char>) -> Seq<char> {
    heading + "\u{1F527} **Tool: "@ + tc.name + "**"@ + opt_piece(tc.status, " ["@, "]"@) + "\n\n"@
        + opt_piece(
        tc.params,
        "<details>\n<summary>Parameters</summary>\n\n```json\n"@,
        "\n```\n\n</details>\n\n"@,
    ) + opt_piece(tc.result, "<details>\n<summary>Result</summary>\n\n```\n"@, "\n```\n\n</details>\n\n"@)
}

/// The rendering of a thinking block, folded away.
pub open spec fn thinking_md(m: ChatMessageView, heading: Seq<char>) -> Seq<char> {
    heading + "\u{1F4AD} **Thinking**"@ + match m.thinking_duration_ms {
        Some(d) => " _"@ + seconds_text(d) + "s_"@,
        None => Seq::empty(),
    } + "\n\n"@ + "<details>\n<summary>Click to expand thinking...</summary>\n\n"@ + m.content
        + "\n\n</details>\n\n"@
}

/// The token counts of a message as shown, where one of them is positive.
pub open spec fn tokens_piece(m: ChatMessageView) -> Seq<char> {
    match m.tokens {
        Some(t) => if t.input > 0 || t.output > 0 {
            " ("@ + signed_decimal(t.input) + "\u{2193} "@ + signed_decimal(t.output) + "\u{2191})"@
        } else {
            Seq::empty()
        },
        None => Seq::empty(),
    }
}

/// The rendering of a text message: its role, model and token counts above
/// its text.
pub open spec fn text_md(m: ChatMessageView, heading: Seq<char>) -> Seq<char> {
    heading + role_display(m.role) + opt_piece(m.model, " _"@, "_"@) + tokens_piece(m) + "\n\n"@
        + m.content + "\n\n"@
}

/// The rendering of one message under a heading of `heading`: a thinking
/// block folded away, a tool invocation with its parameters and result, or
/// the role, model and token counts above the text.
pub open spec fn message_md(m: ChatMessageView, heading: Seq<char>) -> Seq<char> {
    if m.role == "thinking"@ {
        thinking_md(m, heading)
    } else if m.role == "tool"@ {
        match m.tool_call {
            Some(tc) => tool_md(tc, heading),
            None => Seq::empty(),
        }
    } else {
        text_md(m, heading)
    }
}

/// The rendering of messages, one after the other.
pub open spec fn messages_md(ms: Seq<ChatMessageView>, heading: Seq<char>) -> Seq<char>
    decreases ms.len(),
{
    if ms.len() == 0 {
        Seq::empty()
    } else {
        messages_md(ms.drop_last(), heading) + message_md(ms.last(), heading)
    }
}

fn push_opt(s: &mut String, o: &Option<String>, before: &str, after: &str)
    ensures
        final(s)@ == old(s)@ + opt_piece(opt_view(*o), before@, after@),
{
    match o {
        Some(x) => {
            push_str(s, before);
            push_str(s, x.as_str());
            push_str(s, after);
            assert(final(s)@ =~= old(s)@ + opt_piece(opt_view(*o), before@, after@));
        },
        None => {
            assert(final(s)@ =~= old(s)@ + opt_piece(opt_view(*o), before@, after@));
        },
    }
}

fn push_role_display(s: &mut String, role: &str)
    ensures
        final(s)@ == old(s)@ + role_display(role@),
{
    if same_text(role, "user") {
        push_str(s, "**User**");
    } else if same_text(role, "assistant") {
        push_str(s, "**Assistant**");
    } else if same_text(role, "system") {
        push_str(s, "**System**");
    } else {
        push_str(s, role);
    }
}

fn push_thinking_md(s: &mut String, m: &ChatMessage, heading: &str)
    ensures
        final(s)@ == old(s)@ + thinking_md(m@, heading@),
{
    push_str(s, heading);
    push_str(s, "\u{1F4AD} **Thinking**");
    match m.thinking_duration_ms {
        Some(d) => {
            push_str(s, " _");
            push_seconds(s, d);
            push_str(s, "s_");
        },
        None => {},
    }
    push_str(s, "\n\n");
    push_str(s, "<details>\n<summary>Click to expand thinking...</summary>\n\n");
    push_str(s, m.content.as_str());
    push_str(s, "\n\n</details>\n\n");
    assert(final(s)@ =~= old(s)@ + thinking_md(m@, heading@));
}

fn push_tool_md(s: &mut String, tc: &crate::sessions::ToolCall, heading: &str)
    ensures
        final(s)@ == old(s)@ + tool_md(tc@, heading@),
{
    push_str(s, heading);
    push_str(s, "\u{1F527} **Tool: ");
    push_str(s, tc.name.as_str());
    push_str(s, "**");
    push_opt(s, &tc.status, " [", "]");
    push_str(s, "\n\n");
    push_opt(s, &tc.params, "<details>\n<summary>Parameters</summary>\n\n```json\n", "\n```\n\n</details>\n\n");
    push_opt(s, &tc.result, "<details>\n<summary>Result</summary>\n\n```\n", "\n```\n\n</details>\n\n");
    assert(final(s)@ =~= old(s)@ + tool_md(tc@, heading@));
}

fn push_tokens(s: &mut String, m: &ChatMessage)
    ensures
        final(s)@ == old(s)@ + tokens_piece(m@),
{
    match m.tokens {
        Some(t) => if t.input > 0 || t.output > 0 {
            push_str(s, " (");
            push_signed_decimal(s, t.input);
            push_str(s, "\u{2193} ");
            push_signed_decimal(s, t.output);
            push_str(s, "\u{2191})");
            assert(final(s)@ =~= old(s)@ + tokens_piece(m@));
        } else {
            assert(final(s)@ =~= old(s)@ + tokens_piece(m@));
        },
        None => {
            assert(final(s)@ =~= old(s)@ + tokens_piece(m@));
        },
    }
}

fn push_text_md(s: &mut String, m: &ChatMessage, heading: &str)
    ensures
        final(s)@ == old(s)@ + text_md(m@, heading@),
{
    push_str(s, heading);
    push_role_display(s, m.role.as_str());
    push_opt(s, &m.model, " _", "_");
    push_tokens(s, m);
    push_str(s, "\n\n");
    push_str(s, m.content.as_str());
    push_str(s, "\n\n");
    assert(final(s)@ =~= old(s)@ + text_md(m@, heading@));
}

/// Appends the rendering of one message under a heading of `heading`.
pub fn push_message_md(s: &mut String, m: &ChatMessage, heading: &str)
    ensures
        final(s)@ == old(s)@ + message_md(m@, heading@),
{
    if same_text(m.role.as_str(), "thinking") {
        push_thinking_md(s, m, heading);
    } else if same_text(m.role.as_str(), "tool") {
        match &m.tool_call {
            Some(tc) => push_tool_md(s, tc, heading),
            None => {
                assert(old(s)@ + Seq::<char>::empty() =~= old(s)@);
            },
        }
    } else {
        push_text_md(s, m, heading);
    }
}

/// Appends the rendering of messages, one after the other.
pub fn push_messages_md(s: &mut String, ms: &Vec<ChatMessage>, heading: &str)
    ensures
        final(s)@ == old(s)@ + messages_md(message_views(ms@), heading@),
{
    let ghost start = s@;
    let mut i: usize = 0;
    while i < ms.len()
        invariant
            i <= ms.len(),
            s@ == start + messages_md(message_views(ms@.take(i as int)), heading@),
        decreases ms.len() - i,
    {
        assert(message_views(ms@.take(i + 1)).drop_last() =~= message_views(ms@.take(i as int)));
        assert(message_views(ms@.take(i + 1)).last() == ms@[i as int]@);
        push_message_md(s, &ms[i], heading);
        i = i + 1;
        assert(s@ =~= start + messages_md(message_views(ms@.take(i as int)), heading@));
    }
    assert(ms@.take(ms.len() as int) == ms@);
}

/// A session's title as shown.
pub open spec fn title_text(t: Option<String>) -> Seq<char> {
    match t {
        Some(x) => x@,
        None => "Untitled Session"@,
    }
}

/// The line that gives when a session was created, where it is known.
pub open spec fn created_line(c: Option<i64>) -> Seq<char> {
    match c {
        Some(t) => "_Created: "@ + timestamp_text(t) + "_\n\n"@,
        None => Seq::empty(),
    }
}

/// The rendering of the `n`-th session of an export.
pub open spec fn export_session_md(s: ChatSession, n: nat) -> Seq<char> {
    "## Session "@ + decimal(n as u64) + ": "@ + title_text(s.title) + "\n\n"@ + created_line(
        s.created_at,
    ) + messages_md(message_views(s.messages@), "### "@) + "---\n\n"@
}

/// The rendering of the sessions of an export, numbered from 1.
pub open spec fn sessions_md(ss: Seq<ChatSession>) -> Seq<char>
    decreases ss.len(),
{
    if ss.len() == 0 {
        Seq::empty()
    } else {
        sessions_md(ss.drop_last()) + export_session_md(ss.last(), ss.len())
    }
}

/// The rendering of a whole export.
pub open spec fn export_md(e: ChatExport) -> Seq<char> {
    "# Chat Export: "@ + e.project_path@ + "\n\n"@ + "_Exported: "@ + timestamp_text(e.exported_at)
        + "_\n\n"@ + "---\n\n"@ + sessions_md(e.sessions@)
}

/// The rendering of one session written to a file of its own as the `n`-th.
pub open spec fn single_session_md(s: ChatSession, n: nat) -> Seq<char> {
    "# Session "@ + decimal(n as u64) + ": "@ + title_text(s.title) + "\n\n"@ + created_line(
        s.created_at,
    ) + "---\n\n"@ + messages_md(message_views(s.messages@), "## "@)
}

fn push_session_head(s: &mut String, session: &ChatSession, n: usize, head: &str)
    ensures
        final(s)@ == old(s)@ + head@ + decimal(n as u64) + ": "@ + title_text(session.title)
            + "\n\n"@ + created_line(session.created_at),
{
    push_str(s, head);
    push_decimal(s, n as u64);
    push_str(s, ": ");
    match &session.title {
        Some(t) => push_str(s, t.as_str()),
        None => push_str(s, "Untitled Session"),
    }
    push_str(s, "\n\n");
    match session.created_at {
        Some(c) => {
            push_str(s, "_Created: ");
            let t = format_timestamp(c);
            push_str(s, t.as_str());
            push_str(s, "_\n\n");
        },
        None => {},
    }
    assert(final(s)@ =~= old(s)@ + head@ + decimal(n as u64) + ": "@ + title_text(session.title)
        + "\n\n"@ + created_line(session.created_at));
}

/// Renders a whole export: a title with the project path and the export time,
/// then each session, numbered from 1, with its messages.
pub fn format_as_markdown(export: &ChatExport) -> (r: String)
    ensures
        r@ == export_md(*export),
{
    let mut md = String::new();
    push_str(&mut md, "# Chat Export: ");
    push_str(&mut md, export.project_path.as_str());
    push_str(&mut md, "\n\n");
    push_str(&mut md, "_Exported: ");
    let t = format_timestamp(export.exported_at);
    push_str(&mut md, t.as_str());
    push_str(&mut md, "_\n\n");
    push_str(&mut md, "---\n\n");
    let ghost start = md@;
    let ss = &export.sessions;
    let mut i: usize = 0;
    while i < ss.len()
        invariant
            i <= ss.len(),
            ss@ == export.sessions@,
            md@ == start + sessions_md(ss@.take(i as int)),
        decreases ss.len() - i,
    {
        assert(ss@.take(i + 1).drop_last() == ss@.take(i as int));
        assert(ss@.take(i + 1).last() == ss@[i as int]);
        let session = &ss[i];
        let ghost before = md@;
        push_session_head(&mut md, session, i + 1, "## Session ");
        push_messages_md(&mut md, &session.messages, "### ");
        push_str(&mut md, "---\n\n");
        assert(md@ =~= before + export_session_md(*session, (i + 1) as nat));
        i = i + 1;
        assert(md@ =~= start + sessions_md(ss@.take(i as int)));
    }
    assert(ss@.take(ss.len() as int) == ss@);
    assert(md@ =~= export_md(*export));
    md
}

/// Renders one session for a file of its own, as the `index`-th of its
/// export.
pub fn format_single_session_as_markdown(session: &ChatSession, index: usize) -> (r: String)
    ensures
        r@ == single_session_md(*session, index as nat),
{
    let mut md = String::new();
    push_session_head(&mut md, session, index, "# Session ");
    push_str(&mut md, "---\n\n");
    push_messages_md(&mut md, &session.messages, "## ");
    assert(md@ =~= single_session_md(*session, index as nat));
    md
}

/// Whether `c` is a control character (general category Cc).
pub open spec fn is_control(c: char) -> bool {
    c <= '\u{1f}' || ('\u{7f}' <= c && c <= '\u{9f}')
}

/// The character that stands for `c` in a file name: `_` for a path
/// separator, a character that file systems reserve, or a control character.
pub open spec fn file_name_char(c: char) -> char {
    if c == '/' || c == '\\' || c == ':' || c == '*' || c == '?' || c == '"' || c == '<' || c == '>'
        || c == '|' || is_control(c) {
        '_'
    } else {
        c
    }
}

/// The file-name form of a title: its first 50 characters, each replaced as
/// `file_name_char` says, without white space at either end.
pub open spec fn sanitized(s: Seq<char>) -> Seq<char> {
    let n: int = if s.len() < 50 {
        s.len() as int
    } else {
        50
    };
    trim_ws(s.take(n).map_values(|c: char| file_name_char(c)))
}

/// Makes a title fit for a file name.
pub fn sanitize_filename(s: &str) -> (r: String)
    ensures
        r@ == sanitized(s@),
{
    let v = chars_of(s);
    let n: usize = if v.len() < 50 {
        v.len()
    } else {
        50
    };
    let mut mapped: Vec<char> = Vec::new();
    let mut i: usize = 0;
    while i < n
        invariant
            i <= n <= v.len(),
            v@ == s@,
            mapped@ == s@.take(i as int).map_values(|c: char| file_name_char(c)),
        decreases n - i,
    {
        let c = v[i];
        let bad = c == '/' || c == '\\' || c == ':' || c == '*' || c == '?' || c == '"' || c == '<'
            || c == '>' || c == '|' || c <= '\u{1f}' || ('\u{7f}' <= c && c <= '\u{9f}');
        mapped.push(
            if bad {
                '_'
            } else {
                c
            },
        );
        i = i + 1;
        assert(mapped@ =~= s@.take(i as int).map_values(|c: char| file_name_char(c)));
    }
    trim_white_space(&mapped)
}

/// `d` written with at least three digits, zeros in front.
pub open spec fn pad3(d: Seq<char>) -> Seq<char> {
    if d.len() >= 3 {
        d
    } else if d.len() == 2 {
        seq!['0'] + d
    } else {
        seq!['0', '0'] + d
    }
}

/// The extension of the files of a format.
pub open spec fn format_extension(f: ExportFormat) -> Seq<char> {
    match f {
        ExportFormat::Markdown => "md"@,
        ExportFormat::Json => "json"@,
    }
}

/// The name of the file that a split export writes for its `n`-th session.
pub open spec fn split_name(n: nat, title: Option<Seq<char>>, f: ExportFormat) -> Seq<char> {
    pad3(decimal(n as u64)) + "-"@ + sanitized(
        match title {
            Some(t) => t,
            None => "Untitled"@,
        },
    ) + "."@ + format_extension(f)
}

proof fn lemma_decimal_nonempty(n: u64)
    ensures
        decimal(n).len() >= 1,
    decreases n,
{
    if n >= 10 {
        lemma_decimal_nonempty(n / 10);
    }
}

/// The name of the file that a split export writes for its `index`-th
/// session: the number in three digits or more, the title fit for a file
/// name (`Untitled` where there is none), and the format's extension.
pub fn split_file_name(index: usize, title: &Option<String>, format: ExportFormat) -> (r: String)
    ensures
        r@ == split_name(index as nat, opt_view(*title), format),
{
    let mut digits = String::new();
    push_decimal(&mut digits, index as u64);
    let dv = chars_of(digits.as_str());
    proof {
        lemma_decimal_nonempty(index as u64);
    }
    let mut r = String::new();
    if dv.len() == 1 {
        push_str(&mut r, "00");
    } else if dv.len() == 2 {
        push_str(&mut r, "0");
    }
    push_str(&mut r, digits.as_str());
    proof {
        reveal_strlit("00");
        reveal_strlit("0");
    }
    assert(r@ =~= pad3(decimal(index as u64)));
    push_str(&mut r, "-");
    let safe = match title {
        Some(t) => sanitize_filename(t.as_str()),
        None => sanitize_filename("Untitled"),
    };
    push_str(&mut r, safe.as_str());
    push_str(&mut r, ".");
    match format {
        ExportFormat::Markdown => push_str(&mut r, "md"),
        ExportFormat::Json => push_str(&mut r, "json"),
    }
    assert(r@ =~= split_name(index as nat, opt_view(*title), format));
    r
}

} // verus!
