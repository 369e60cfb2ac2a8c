//! Notes handed to the model that takes a turn over.

use switchyard::handoff_notes::{inject_note, HandoffNoteConfig};
use switchyard::protocol::{ContentBlock, Message, Request, Role, ToolResult};

const ESCALATION: &str = "recovering from an error";
const DEESCALATION: &str = "settled — carry on";

fn config(only_on_wrong_signal_escalation: bool) -> HandoffNoteConfig {
    HandoffNoteConfig::new(
        ESCALATION,
        Some(DEESCALATION.to_string()),
        only_on_wrong_signal_escalation,
    )
}

fn request_with(messages: Vec<Message>) -> Request {
    let mut request = Request::default();
    request.llm_request.messages = messages;
    request
}

/// The texts of a message, joined.
fn text_content(message: &Message, separator: &str) -> Option<String> {
    let texts: Vec<&str> = message
        .content
        .iter()
        .filter_map(|block| match block {
            ContentBlock::Text { text } => Some(text.as_str()),
            _ => None,
        })
        .collect();
    if texts.is_empty() {
        None
    } else {
        Some(texts.join(separator))
    }
}

#[test]
fn escalation_note_applies_to_signal_driven_strong() {
    for source in ["override", "dimensions"] {
        assert_eq!(
            config(true).note_for("strong", Some(source)),
            Some(ESCALATION.to_string())
        );
    }
}

#[test]
fn no_escalation_note_on_fall_open_default_when_gated() {
    assert_eq!(config(true).note_for("strong", Some("fall_open")), None);
}

#[test]
fn escalation_note_on_fall_open_when_not_gated() {
    assert_eq!(
        config(false).note_for("strong", Some("fall_open")),
        Some(ESCALATION.to_string())
    );
}

#[test]
fn deescalation_note_applies_to_weak_when_configured() {
    assert_eq!(
        config(true).note_for("weak", Some("tests_passed")),
        Some(DEESCALATION.to_string())
    );
}

#[test]
fn no_deescalation_note_when_unconfigured() {
    let config = HandoffNoteConfig::new(ESCALATION, None, true);
    assert_eq!(config.note_for("weak", Some("tests_passed")), None);
}

#[test]
fn no_note_for_another_tier_or_without_a_source() {
    assert_eq!(config(false).note_for("judge", Some("override")), None);
    assert_eq!(config(true).note_for("strong", None), None);
    assert_eq!(
        config(false).note_for("strong", None),
        Some(ESCALATION.to_string())
    );
    assert_eq!(
        config(true).note_for("strong", Some("tests_passed")),
        None
    );
}

#[test]
fn note_appends_to_a_trailing_user_turn_after_its_tool_result() {
    let tool_result = || {
        ContentBlock::ToolResult(ToolResult {
            tool_call_id: "call_1".to_string(),
            content: vec![ContentBlock::Text {
                text: "exit 1".to_string(),
            }],
            is_error: Some(true),
        })
    };
    let mut request = request_with(vec![Message {
        role: Role::User,
        content: vec![tool_result()],
    }]);

    inject_note(&mut request, ESCALATION);

    let messages = &request.llm_request.messages;
    assert_eq!(messages.len(), 1, "no second consecutive user turn");
    assert_eq!(
        messages[0].content,
        vec![
            tool_result(),
            ContentBlock::Text {
                text: ESCALATION.to_string()
            }
        ]
    );
}

#[test]
fn note_becomes_a_new_user_turn_after_an_assistant_turn() {
    let mut request = request_with(vec![Message::text(Role::Assistant, "done")]);

    inject_note(&mut request, ESCALATION);

    let messages = &request.llm_request.messages;
    assert_eq!(messages.len(), 2);
    assert_eq!(messages[1].role, Role::User);
    assert_eq!(
        text_content(&messages[1], ""),
        Some(ESCALATION.to_string())
    );
}

#[test]
fn note_leaves_the_rest_of_the_conversation_untouched() {
    let mut request = request_with(vec![Message::text(Role::User, "fix the build")]);
    request.llm_request.model = Some("auto".to_string());
    request.llm_request.rest = Some(serde_json::Value::from("sampling"));

    inject_note(&mut request, ESCALATION);

    let trail: Vec<String> = request
        .llm_request
        .messages
        .iter()
        .filter_map(|message| text_content(message, "|"))
        .collect();
    assert_eq!(trail, vec![format!("fix the build|{ESCALATION}")]);
    assert_eq!(request.llm_request.model, Some("auto".to_string()));
    assert_eq!(
        request.llm_request.rest,
        Some(serde_json::Value::from("sampling"))
    );
}

#[test]
fn note_opens_an_empty_conversation() {
    let mut request = Request::default();

    inject_note(&mut request, ESCALATION);

    assert_eq!(
        request.llm_request.messages,
        vec![Message::text(Role::User, ESCALATION)]
    );
}

#[test]
fn notes_keep_user_messages_apart() {
    for last in [Role::User, Role::Assistant, Role::Tool, Role::System] {
        let mut request = request_with(vec![
            Message::text(Role::Assistant, "before"),
            Message::text(last, "last"),
        ]);
        inject_note(&mut request, ESCALATION);
        let roles: Vec<Role> = request
            .llm_request
            .messages
            .iter()
            .map(|message| message.role)
            .collect();
        assert!(!roles
            .windows(2)
            .any(|pair| pair[0] == Role::User && pair[1] == Role::User));
        assert_eq!(roles.last(), Some(&Role::User));
    }
}
