use clewdr_pool::claude::{default_max_tokens, ImageSource, Role, Thinking, ToolChoice};

#[test]
fn default_output_budget() {
    assert_eq!(default_max_tokens(), 8192);
}

#[test]
fn thinking_enabled_with_budget() {
    assert_eq!(Thinking::new(2048), Thinking::Enabled { budget_tokens: 2048 });
    assert_eq!(Role::default(), Role::Assistant);
}

#[test]
fn tool_choice_from_string() {
    assert!(matches!(
        ToolChoice::from_choice_str("auto"),
        Some(ToolChoice::Auto { disable_parallel_tool_use: None })
    ));
    assert!(matches!(ToolChoice::from_choice_str("any"), Some(ToolChoice::Any { .. })));
    assert!(matches!(ToolChoice::from_choice_str("required"), Some(ToolChoice::Any { .. })));
    assert!(matches!(ToolChoice::from_choice_str("none"), Some(ToolChoice::NoTools)));
    assert!(ToolChoice::from_choice_str("sometimes").is_none());
}

#[test]
fn image_source_by_kind() {
    match ImageSource::from_parts("url", "image/png".to_string(), "https://x/y.png".to_string()) {
        ImageSource::Url { url } => assert_eq!(url, "https://x/y.png"),
        other => panic!("unexpected {other:?}"),
    }
    match ImageSource::from_parts("file", String::new(), "file_1".to_string()) {
        ImageSource::File { file_id } => assert_eq!(file_id, "file_1"),
        other => panic!("unexpected {other:?}"),
    }
    match ImageSource::from_parts("base64", "image/png".to_string(), "AAAA".to_string()) {
        ImageSource::Base64 { media_type, data } => {
            assert_eq!(media_type, "image/png");
            assert_eq!(data, "AAAA");
        }
        other => panic!("unexpected {other:?}"),
    }
}
