use cursor_helper::sessions::{
    bubble_record_key, composer_record_key, conversation_messages, count_active_composers,
    exclude_blank, message_headers, messages_from_record, millis_to_seconds, parse_composer_data,
    session_from_composer, sort_newest_first, truncate_str, ChatMessage, ChatSession, ComposerInfo,
    ExportFormat, ExportOptions,
};

#[test]
fn test_export_format() {
    assert_eq!(ExportFormat::from_str("md"), Some(ExportFormat::Markdown));
    assert_eq!(ExportFormat::from_str("markdown"), Some(ExportFormat::Markdown));
    assert_eq!(ExportFormat::from_str("json"), Some(ExportFormat::Json));
    assert_eq!(ExportFormat::from_str("xml"), None);
}

#[test]
fn export_format_ignores_case() {
    assert_eq!(ExportFormat::from_str("MarkDown"), Some(ExportFormat::Markdown));
    assert_eq!(ExportFormat::from_str("JSON"), Some(ExportFormat::Json));
    assert_eq!(ExportFormat::from_lowercase("JSON"), None);
    assert_eq!(ExportFormat::from_str(""), None);
}

#[test]
fn truncate_keeps_short_text() {
    assert_eq!(truncate_str("hello", 5), "hello");
    assert_eq!(truncate_str("", 0), "");
}

#[test]
fn truncate_cuts_on_characters() {
    assert_eq!(truncate_str("hello world", 5), "hello...[truncated]");
    let s = "héllo wörld ✓✓✓";
    assert_eq!(truncate_str(s, 4), "héll...[truncated]");
    assert_eq!(truncate_str("✓✓✓", 1), "✓...[truncated]");
    assert_eq!(truncate_str("日本語テキスト", 3), "日本語...[truncated]");
}

#[test]
fn composer_index_filters_and_defaults() {
    let data = r#"{"allComposers":[
        {"composerId":"a","name":"First","createdAt":5000,"lastUpdatedAt":9000},
        {"composerId":"b","createdAt":7000,"isArchived":true},
        {"name":"no id","createdAt":1},
        {"composerId":"c","createdAt":3000},
        {"composerId":"d","name":"no time"}
    ]}"#;
    let kept = parse_composer_data(data, false).unwrap();
    let ids: Vec<&str> = kept.iter().map(|c| c.composer_id.as_str()).collect();
    assert_eq!(ids, vec!["a", "c"]);
    assert_eq!(kept[1].name, "Untitled");
    assert_eq!(kept[1].last_updated_at, 3000);
    let all = parse_composer_data(data, true).unwrap();
    assert_eq!(all.len(), 3);
    assert_eq!(all[1].composer_id, "b");
    assert!(parse_composer_data("{}", false).is_none());
    assert!(parse_composer_data("not json", false).is_none());
}

#[test]
fn count_of_active_sessions() {
    let data = r#"{"allComposers":[{"isArchived":true},{"isArchived":false},{}]}"#;
    assert_eq!(count_active_composers(data), Some(2));
    assert_eq!(count_active_composers("{}"), Some(0));
    assert_eq!(count_active_composers("[1,"), None);
}

#[test]
fn record_keys() {
    assert_eq!(composer_record_key("abc"), "composerData:abc");
    assert_eq!(bubble_record_key("abc", "m1"), "bubbleId:abc:m1");
}

#[test]
fn headers_in_order() {
    let text = r#"{"fullConversationHeadersOnly":[
        {"bubbleId":"m1","type":1},{"type":2},{"bubbleId":"m3"},{"bubbleId":"m2","type":2}]}"#;
    let hs = message_headers(text);
    let got: Vec<(&str, i64)> = hs.iter().map(|h| (h.bubble_id.as_str(), h.bubble_type)).collect();
    assert_eq!(got, vec![("m1", 1), ("m3", 0), ("m2", 2)]);
    assert!(message_headers("{}").is_empty());
    assert!(message_headers("garbage").is_empty());
}

fn all_options() -> ExportOptions {
    ExportOptions { with_thinking: true, with_tools: true, with_stats: true, ..Default::default() }
}

#[test]
fn text_message_roles_and_stats() {
    let body = r#"{"text":"hi","createdAt":"2026-01-19T04:31:31.394Z",
        "modelInfo":{"modelName":"m-1"},"tokenCount":{"inputTokens":3,"outputTokens":0}}"#;
    let user = messages_from_record(body, 1, &all_options());
    assert_eq!(user.len(), 1);
    assert_eq!(user[0].role, "user");
    assert_eq!(user[0].content, "hi");
    assert_eq!(user[0].timestamp, Some(1768797091));
    assert_eq!(user[0].model.as_deref(), Some("m-1"));
    assert_eq!(user[0].tokens.map(|t| (t.input, t.output)), Some((3, 0)));
    let plain = messages_from_record(body, 2, &ExportOptions::default());
    assert_eq!(plain[0].role, "assistant");
    assert!(plain[0].model.is_none() && plain[0].tokens.is_none());
    assert_eq!(messages_from_record(body, 7, &ExportOptions::default())[0].role, "unknown");
    assert!(messages_from_record(r#"{"text":""}"#, 1, &all_options()).is_empty());
    let bad_time = messages_from_record(r#"{"text":"x","createdAt":"yesterday"}"#, 1, &all_options());
    assert_eq!(bad_time[0].timestamp, None);
}

#[test]
fn thinking_and_tool_messages() {
    let long: String = "é".repeat(600);
    let body = format!(
        r#"{{"thinking":{{"text":"pondering"}},"thinkingDurationMs":1500,
        "toolFormerData":{{"name":"read_file","params":"{}","status":"completed"}},"text":"ignored"}}"#,
        long
    );
    let ms = messages_from_record(&body, 2, &all_options());
    assert_eq!(ms.len(), 2);
    assert_eq!(ms[0].role, "thinking");
    assert_eq!(ms[0].content, "pondering");
    assert_eq!(ms[0].thinking_duration_ms, Some(1500));
    assert_eq!(ms[1].role, "tool");
    assert_eq!(ms[1].content, "[read_file]");
    let tc = ms[1].tool_call.as_ref().unwrap();
    assert_eq!(tc.params.as_deref().unwrap().chars().count(), 500 + "...[truncated]".len());
    assert!(tc.result.is_none());
    assert_eq!(tc.status.as_deref(), Some("completed"));
    let only_text = messages_from_record(&body, 2, &ExportOptions::default());
    assert_eq!(only_text.len(), 1);
    assert_eq!(only_text[0].content, "ignored");
    let unnamed = messages_from_record(r#"{"toolFormerData":{}}"#, 2, &all_options());
    assert_eq!(unnamed[0].content, "[unknown]");
}

#[test]
fn missing_message_record_keeps_the_others() {
    let recs = vec![
        (1, Some(r#"{"text":"q"}"#.to_string())),
        (2, None),
        (2, Some("not json".to_string())),
        (2, Some(r#"{"text":"a"}"#.to_string())),
    ];
    let ms = conversation_messages(&recs, &ExportOptions::default());
    let got: Vec<(&str, &str)> = ms.iter().map(|m| (m.role.as_str(), m.content.as_str())).collect();
    assert_eq!(got, vec![("user", "q"), ("assistant", "a")]);
}

fn session(id: &str, created: Option<i64>, n: usize) -> ChatSession {
    let msg = ChatMessage {
        role: "user".to_string(),
        content: "x".to_string(),
        timestamp: None,
        thinking_duration_ms: None,
        tool_call: None,
        model: None,
        tokens: None,
    };
    ChatSession { id: id.to_string(), title: None, messages: vec![msg; n], created_at: created, updated_at: None }
}

#[test]
fn sessions_without_global_store_are_kept_empty() {
    let info = ComposerInfo {
        composer_id: "c1".to_string(),
        name: "Chat".to_string(),
        created_at: 1_700_000_000_999,
        last_updated_at: -1_500,
    };
    let s = session_from_composer(info, vec![]);
    assert_eq!(s.id, "c1");
    assert_eq!(s.title.as_deref(), Some("Chat"));
    assert!(s.messages.is_empty());
    assert_eq!(s.created_at, Some(1_700_000_000));
    assert_eq!(s.updated_at, Some(-1));
}

#[test]
fn millis_to_seconds_truncates() {
    assert_eq!(millis_to_seconds(1999), 1);
    assert_eq!(millis_to_seconds(-1999), -1);
    assert_eq!(millis_to_seconds(i64::MIN), i64::MIN / 1000);
}

#[test]
fn newest_sessions_first() {
    let v = vec![session("a", Some(1), 0), session("b", Some(3), 1), session("c", None, 1), session("d", Some(3), 2), session("e", Some(2), 0)];
    let sorted = sort_newest_first(v);
    let ids: Vec<&str> = sorted.iter().map(|s| s.id.as_str()).collect();
    assert_eq!(ids, vec!["b", "d", "e", "a", "c"]);
    let kept = exclude_blank(sorted);
    let ids: Vec<&str> = kept.iter().map(|s| s.id.as_str()).collect();
    assert_eq!(ids, vec!["b", "d", "c"]);
}
