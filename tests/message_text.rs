use clewdr_pool::claude::{ImageSource, Role, Usage};
use clewdr_pool::message::{
    conversation_text_of, count_prompt_tokens, message_text_of, ContentBlock, CreateMessageResponse,
    Message, MessageContent,
};

fn usage() -> Usage {
    Usage { input_tokens: 3, output_tokens: 4 }
}

#[test]
fn text_response_has_one_block() {
    let r = CreateMessageResponse::text("hello".to_string(), "m".to_string(), usage());
    assert_eq!(r.content.len(), 1);
    assert!(matches!(&r.content[0], ContentBlock::Text { text, .. } if text == "hello"));
    assert_eq!(r.type_, "message");
    assert_eq!(r.role, Role::Assistant);
    assert_eq!(r.id.len(), 36);
    let other = CreateMessageResponse::text("hello".to_string(), "m".to_string(), usage());
    assert_ne!(r.id, other.id);
}

#[test]
fn response_measured_text_joins_blocks() {
    let mut r = CreateMessageResponse::text("hello".to_string(), "m".to_string(), usage());
    r.content.push(ContentBlock::image("base64", "image/png".to_string(), "QUJD".to_string()));
    r.content.push(ContentBlock::image("url", String::new(), "https://x".to_string()));
    r.content.push(ContentBlock::RedactedThinking { data: "zzz".to_string() });
    r.content.push(ContentBlock::text("world".to_string()));
    assert_eq!(r.measured_text(), "hello\nQUJD\n\n\nworld");
    assert!(r.count_tokens().unwrap() > 0);
    let empty = CreateMessageResponse { content: Vec::new(), ..CreateMessageResponse::text(String::new(), String::new(), usage()) };
    assert_eq!(empty.measured_text(), "");
    assert_eq!(empty.count_tokens(), Some(0));
}

#[test]
fn conversation_text_one_line_per_message() {
    let messages = vec![
        Message::new_text(Role::User, "hi".to_string()),
        Message::new_blocks(
            Role::Assistant,
            vec![
                ContentBlock::text("a".to_string()),
                ContentBlock::image("file", String::new(), "f".to_string()),
                ContentBlock::text("b".to_string()),
            ],
        ),
    ];
    assert_eq!(message_text_of(&messages[1]), "ab");
    assert_eq!(conversation_text_of(&messages), "hi\nab");
    assert!(matches!(messages[0].content, MessageContent::Text { .. }));
    assert!(matches!(
        ContentBlock::image("file", String::new(), "f".to_string()),
        ContentBlock::Image { source: ImageSource::File { .. }, cache_control: None }
    ));
}

#[test]
fn prompt_tokens_count_system_and_conversation() {
    let none: Vec<Message> = Vec::new();
    assert_eq!(count_prompt_tokens("", &none), Some(0));
    let hello = vec![Message::new_text(Role::User, "hello world".to_string())];
    let conv = count_prompt_tokens("", &hello).unwrap();
    assert_eq!(conv, 2);
    let sys = count_prompt_tokens("hello world", &none).unwrap();
    assert_eq!(sys, conv);
    assert_eq!(count_prompt_tokens("hello world", &hello), Some(2 * conv));
}

#[test]
fn long_whitespace_run_does_not_panic() {
    let spaces = " ".repeat(1_000_001);
    let none: Vec<Message> = Vec::new();
    let r = count_prompt_tokens(&spaces, &none);
    if let Some(n) = r {
        assert!(n > 0);
    }
}
