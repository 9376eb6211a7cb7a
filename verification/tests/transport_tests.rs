use cgip::client::GptClient;
use cgip::config::AppConfig;
use cgip::errors::ChatError;
use cgip::role::Role;

fn client_with_question() -> GptClient {
    let mut client = GptClient::new(AppConfig::default(), String::new(), "be helpful");
    client.add_message(Role::User, "the service hangs".to_string());
    client
}

#[test]
fn success_reply_returns_first_choice_and_appends_one_turn() {
    let mut client = client_with_question();
    let before = client.messages.len();
    let reply = client.complete_with_body("{\"id\":\"chatcmpl-1\",\"object\":\"chat.completion\",\"created\":1700000000,\"model\":\"gpt-4\",\"usage\":{\"prompt_tokens\":9,\"completion_tokens\":6,\"total_tokens\":15},\"choices\":[{\"message\":{\"role\":\"assistant\",\"content\":\"Try restarting the service.\"},\"finish_reason\":\"stop\",\"index\":0}]}").unwrap();
    assert_eq!(reply, "Try restarting the service.");
    assert_eq!(client.messages.len(), before + 1);
    let last = client.messages.last().unwrap();
    assert_eq!(last.role, Role::Assistant);
    assert_eq!(last.content, "Try restarting the service.");
}

#[test]
fn later_choices_are_ignored() {
    let body = "{\"id\":\"c\",\"object\":\"o\",\"created\":2,\"model\":\"m\",\"usage\":{\"prompt_tokens\":1,\"completion_tokens\":1,\"total_tokens\":2},\"choices\":[{\"message\":{\"role\":\"assistant\",\"content\":\"first\"},\"finish_reason\":\"stop\",\"index\":0},{\"message\":{\"role\":\"assistant\",\"content\":\"second\"},\"finish_reason\":\"stop\",\"index\":1}]}";
    let mut client = client_with_question();
    let reply = client.complete_with_body(body).unwrap();
    assert_eq!(reply, "first");
}

#[test]
fn error_reply_surfaces_the_reported_message() {
    let mut client = client_with_question();
    let before = client.messages.len();
    let r = client.complete_with_body("{\"error\":{\"message\":\"rate limit exceeded\"}}");
    match r {
        Err(ChatError::MalformedResponse(m)) => assert_eq!(m, "rate limit exceeded"),
        other => panic!("expected the reported message, got {:?}", other),
    }
    assert_eq!(client.messages.len(), before, "no turn is appended on failure");
}

#[test]
fn unparseable_reply_is_an_error_and_appends_nothing() {
    let mut client = client_with_question();
    let before = client.messages.len();
    let r = client.complete_with_body("<html>502 Bad Gateway</html>");
    assert!(matches!(r, Err(ChatError::MalformedResponse(_))));
    assert_eq!(client.messages.len(), before);
}

#[test]
fn incomplete_success_schema_is_rejected() {
    // parses as JSON but misses the usage block and matches no schema
    let body = "{\"id\":\"c\",\"object\":\"o\",\"created\":2,\"model\":\"m\",\"choices\":[]}";
    let mut client = client_with_question();
    let r = client.complete_with_body(body);
    assert!(matches!(r, Err(ChatError::MalformedResponse(_))));
}

#[test]
fn success_with_no_choices_is_an_error() {
    let body = "{\"id\":\"c\",\"object\":\"o\",\"created\":2,\"model\":\"m\",\"usage\":{\"prompt_tokens\":1,\"completion_tokens\":1,\"total_tokens\":2},\"choices\":[]}";
    let mut client = client_with_question();
    let before = client.messages.len();
    let r = client.complete_with_body(body);
    assert!(matches!(r, Err(ChatError::MalformedResponse(_))));
    assert_eq!(client.messages.len(), before);
}

#[test]
fn request_body_is_the_exact_json() {
    let client = client_with_question();
    assert_eq!(
        client.build_request_body(),
        "{\"model\":\"gpt-4\",\"messages\":[{\"role\":\"system\",\"content\":\"be helpful\"},{\"role\":\"user\",\"content\":\"the service hangs\"}]}"
    );
}

#[test]
fn request_body_escapes_content() {
    let mut client = GptClient::new(AppConfig::default(), String::new(), "p");
    client.add_message(Role::User, "say \"hi\"\nplease\\now".to_string());
    let body = client.build_request_body();
    assert_eq!(
        body,
        "{\"model\":\"gpt-4\",\"messages\":[{\"role\":\"system\",\"content\":\"p\"},{\"role\":\"user\",\"content\":\"say \\\"hi\\\"\\nplease\\\\now\"}]}"
    );
    // the body the encoder wrote parses back as the same JSON values
    let v: serde_json::Value = serde_json::from_str(&body).unwrap();
    assert_eq!(
        v["messages"][1]["content"].as_str().unwrap(),
        "say \"hi\"\nplease\\now"
    );
}

#[test]
fn request_body_escapes_control_characters() {
    let mut client = GptClient::new(AppConfig::default(), String::new(), "p");
    client.add_message(Role::User, "a\u{1}b".to_string());
    let body = client.build_request_body();
    assert!(body.contains("a\\u0001b"));
    let v: serde_json::Value = serde_json::from_str(&body).unwrap();
    assert_eq!(v["messages"][1]["content"].as_str().unwrap(), "a\u{1}b");
}

#[test]
fn error_kinds_have_stable_names() {
    assert_eq!(ChatError::CredentialMissing.kind_name(), "credential missing");
    assert_eq!(ChatError::NetworkFailure.kind_name(), "network failure");
    assert_eq!(ChatError::ConfigIOError.kind_name(), "config io error");
    assert_eq!(ChatError::InvalidRole.kind_name(), "invalid role");
}
