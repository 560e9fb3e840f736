use cursor_helper::markdown::{
    format_as_markdown, format_single_session_as_markdown, format_timestamp, sanitize_filename,
    split_file_name,
};
use cursor_helper::sessions::{ChatExport, ChatMessage, ChatSession, ExportFormat, TokenCount, ToolCall};
use cursor_helper::stats::{format_size, format_stats, Stats};

fn msg(role: &str, content: &str) -> ChatMessage {
    ChatMessage {
        role: role.to_string(),
        content: content.to_string(),
        timestamp: None,
        thinking_duration_ms: None,
        tool_call: None,
        model: None,
        tokens: None,
    }
}

fn sample_session() -> ChatSession {
    let mut answer = msg("assistant", "answer");
    answer.model = Some("m".to_string());
    answer.tokens = Some(TokenCount { input: 5, output: 7 });
    let mut thinking = msg("thinking", "hmm");
    thinking.thinking_duration_ms = Some(1250);
    let mut tool = msg("tool", "[edit]");
    tool.tool_call = Some(ToolCall {
        name: "edit".to_string(),
        params: Some("{}".to_string()),
        result: None,
        status: Some("ok".to_string()),
    });
    ChatSession {
        id: "s1".to_string(),
        title: Some("T".to_string()),
        messages: vec![msg("user", "hello"), answer, thinking, tool],
        created_at: Some(1700000000),
        updated_at: None,
    }
}

#[test]
fn markdown_export_exact() {
    let export = ChatExport {
        project_path: "/p".to_string(),
        exported_at: 1704067200,
        sessions: vec![sample_session()],
    };
    let expected = "# Chat Export: /p\n\n\
_Exported: 2024-01-01 00:00:00 UTC_\n\n\
---\n\n\
## Session 1: T\n\n\
_Created: 2023-11-14 22:13:20 UTC_\n\n\
### **User**\n\nhello\n\n\
### **Assistant** _m_ (5\u{2193} 7\u{2191})\n\nanswer\n\n\
### \u{1F4AD} **Thinking** _1.2s_\n\n<details>\n<summary>Click to expand thinking...</summary>\n\nhmm\n\n</details>\n\n\
### \u{1F527} **Tool: edit** [ok]\n\n<details>\n<summary>Parameters</summary>\n\n```json\n{}\n```\n\n</details>\n\n\
---\n\n";
    assert_eq!(format_as_markdown(&export), expected);
}

#[test]
fn markdown_single_session_exact() {
    let mut s = ChatSession {
        id: "s".to_string(),
        title: None,
        messages: vec![msg("system", "rules"), msg("other", "x")],
        created_at: None,
        updated_at: None,
    };
    let out = format_single_session_as_markdown(&s, 3);
    assert_eq!(
        out,
        "# Session 3: Untitled Session\n\n---\n\n## **System**\n\nrules\n\n## other\n\nx\n\n"
    );
    s.messages = vec![];
    assert_eq!(format_single_session_as_markdown(&s, 10), "# Session 10: Untitled Session\n\n---\n\n");
}

#[test]
fn thinking_durations_in_tenths() {
    let mut m = msg("thinking", "t");
    let cases = [(1250, "1.2"), (1350, "1.4"), (1260, "1.3"), (0, "0.0"), (-1500, "-1.5"), (98760, "98.8")];
    for (ms, text) in cases {
        m.thinking_duration_ms = Some(ms);
        let s = ChatSession { id: "i".to_string(), title: None, messages: vec![m.clone()], created_at: None, updated_at: None };
        let out = format_single_session_as_markdown(&s, 1);
        assert!(out.contains(&format!(" _{}s_", text)), "{} -> {}", ms, out);
    }
}

#[test]
fn timestamps_shown_in_utc() {
    assert_eq!(format_timestamp(1704067200), "2024-01-01 00:00:00 UTC");
    assert_eq!(format_timestamp(i64::MAX), i64::MAX.to_string());
}

#[test]
fn file_names_for_split_export() {
    assert_eq!(sanitize_filename("  a/b:c*?\"<>|\td  "), "a_b_c_______d");
    assert_eq!(sanitize_filename(&"x".repeat(60)), "x".repeat(50));
    assert_eq!(split_file_name(1, &Some("My: Chat".to_string()), ExportFormat::Markdown), "001-My_ Chat.md");
    assert_eq!(split_file_name(12, &None, ExportFormat::Json), "012-Untitled.json");
    assert_eq!(split_file_name(1234, &Some("é".to_string()), ExportFormat::Json), "1234-é.json");
}

#[test]
fn test_format_size() {
    assert_eq!(format_size(0), "0 B");
    assert_eq!(format_size(512), "512 B");
    assert_eq!(format_size(1024), "1.0 KB");
    assert_eq!(format_size(1536), "1.5 KB");
    assert_eq!(format_size(1024 * 1024), "1.0 MB");
    assert_eq!(format_size(1024 * 1024 * 1024), "1.0 GB");
}

#[test]
fn format_size_rounding() {
    assert_eq!(format_size(1023), "1023 B");
    assert_eq!(format_size(1280), "1.2 KB");
    assert_eq!(format_size(1048575), "1024.0 KB");
    assert_eq!(format_size(u64::MAX), "17179869184.0 GB");
}

#[test]
fn test_stats_default() {
    let stats = Stats::default();
    assert_eq!(stats.chat_sessions, 0);
    assert_eq!(stats.workspace_size, 0);
    assert_eq!(stats.projects_size, 0);
}

#[test]
fn stats_text_exact() {
    let stats = Stats {
        project_path: "/p".to_string(),
        chat_sessions: 3,
        workspace_size: 2048,
        projects_size: 1024,
        folder_id: "p".to_string(),
        workspace_hash: None,
    };
    assert_eq!(
        format_stats(&stats),
        "Project: /p\nFolder ID: p\nWorkspace Hash: (not found)\n\nChat Sessions: 3\nWorkspace Storage: 2.0 KB\nProjects Data: 1.0 KB\nTotal Cursor Data: 3.0 KB"
    );
    let with_hash = Stats { workspace_hash: Some("abc".to_string()), ..stats };
    assert!(format_stats(&with_hash).contains("\nWorkspace Hash: abc\n"));
}
