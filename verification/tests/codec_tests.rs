use cgip::client::GptClient;
use cgip::codec::{decode_transcript, encode_messages, is_structured_transcript};
use cgip::config::AppConfig;
use cgip::errors::ChatError;
use cgip::message::Message;
use cgip::role::Role;

#[test]
fn role_parsing_accepts_exactly_the_three_names() {
    assert!(matches!(Role::from_str("system"), Ok(Role::System)));
    assert!(matches!(Role::from_str("user"), Ok(Role::User)));
    assert!(matches!(Role::from_str("assistant"), Ok(Role::Assistant)));
    assert!(matches!(Role::from_str(""), Err(ChatError::InvalidRole)));
    assert!(matches!(Role::from_str("System"), Err(ChatError::InvalidRole)));
    assert!(matches!(Role::from_str("ASSISTANT"), Err(ChatError::InvalidRole)));
    assert!(matches!(Role::from_str("admin"), Err(ChatError::InvalidRole)));
    assert!(matches!(Role::from_str("user "), Err(ChatError::InvalidRole)));
}

#[test]
fn role_names_round_trip() {
    for role in [Role::System, Role::User, Role::Assistant] {
        let parsed = Role::from_str(role.as_str()).unwrap();
        assert_eq!(parsed, role);
    }
}

#[test]
fn encode_produces_the_structured_form() {
    let msgs = vec![
        Message { role: Role::System, content: "sys".to_string() },
        Message { role: Role::User, content: "hi".to_string() },
    ];
    let text = encode_messages(&msgs, false);
    assert_eq!(
        text,
        "- role: system\n  content: \"sys\"\n- role: user\n  content: \"hi\"\n"
    );
}

#[test]
fn encode_can_exclude_system_turns() {
    let msgs = vec![
        Message { role: Role::System, content: "sys".to_string() },
        Message { role: Role::User, content: "hi".to_string() },
        Message { role: Role::Assistant, content: "hello".to_string() },
    ];
    let text = encode_messages(&msgs, true);
    assert_eq!(
        text,
        "- role: user\n  content: \"hi\"\n- role: assistant\n  content: \"hello\"\n"
    );
}

#[test]
fn codec_round_trips_ordered_turns() {
    let msgs = vec![
        Message { role: Role::System, content: "a \"quoted\" piece".to_string() },
        Message { role: Role::User, content: "line one\nline two\ttabbed\r".to_string() },
        Message { role: Role::Assistant, content: "back\\slash".to_string() },
        Message { role: Role::User, content: String::new() },
    ];
    let text = encode_messages(&msgs, false);
    let decoded = decode_transcript(&text).unwrap();
    assert_eq!(decoded.len(), msgs.len());
    for (d, m) in decoded.iter().zip(msgs.iter()) {
        assert_eq!(d.role, m.role);
        assert_eq!(d.content, m.content);
    }
    // a second encode of the decoded turns reproduces the text
    assert_eq!(encode_messages(&decoded, false), text);
}

#[test]
fn structured_transcript_is_detected() {
    let msgs = vec![Message { role: Role::User, content: "what is a tty?".to_string() }];
    let text = encode_messages(&msgs, false);
    assert!(is_structured_transcript(&text));
}

#[test]
fn plain_text_is_not_a_structured_transcript() {
    assert!(!is_structured_transcript(
        "bash: foo: command not found\nexit status 127"
    ));
    assert!(!is_structured_transcript(""));
    assert!(!is_structured_transcript("- role: admin\n  content: \"x\"\n"));
    assert!(!is_structured_transcript("- role: user\n  content: \"unterminated"));
}

#[test]
fn decode_failure_is_a_decode_error() {
    let r = decode_transcript("just a question about grep");
    assert!(matches!(r, Err(ChatError::TranscriptDecodeError)));
}

#[test]
fn to_yaml_exports_the_transcript() {
    let mut client = GptClient::new(AppConfig::default(), String::new(), " be helpful ");
    client.add_message(Role::User, "hi".to_string());
    assert_eq!(
        client.to_yaml(false),
        "- role: system\n  content: \"be helpful\"\n- role: user\n  content: \"hi\"\n"
    );
    assert_eq!(client.to_yaml(true), "- role: user\n  content: \"hi\"\n");
}

#[test]
fn add_message_trims_content() {
    let mut client = GptClient::new(AppConfig::default(), String::new(), "p");
    client.add_message(Role::User, "  spaced out \n\t".to_string());
    assert_eq!(client.messages.len(), 2);
    assert_eq!(client.messages[1].content, "spaced out");
    assert_eq!(client.messages[1].role, Role::User);
}

#[test]
fn new_client_seeds_one_system_turn() {
    let client = GptClient::new(AppConfig::default(), "dir".to_string(), "  the prompt  ");
    assert_eq!(client.messages.len(), 1);
    assert_eq!(client.messages[0].role, Role::System);
    assert_eq!(client.messages[0].content, "the prompt");
    assert_eq!(client.config_directory, "dir");
}
