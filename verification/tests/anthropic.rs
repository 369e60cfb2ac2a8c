//! The Anthropic Messages backend.

use serde_json::Value;
use switchyard::anthropic::{
    anthropic_api_key, chat_response, completion_read, is_context_overflow, messages_url,
    request_failed, AnthropicHttpRequest, AnthropicHttpResponse, AnthropicNativeBackend, NextRead,
    ProxyContext,
};
use switchyard::backend::{
    request_wire_format, BackendFormat, ChatRequest, ChatRequestType, ChatResponse,
    EndpointConfig, ExtraHeaders, Header, LlmTarget, SwitchyardError,
};
use switchyard::protocol::WireFormat;

fn parse(text: &str) -> Value {
    match serde_json::from_str(text) {
        Ok(value) => value,
        Err(error) => panic!("{error}"),
    }
}

fn anthropic_target() -> LlmTarget {
    LlmTarget {
        id: "primary".to_string(),
        model: "target-model".to_string(),
        format: BackendFormat::Anthropic,
        endpoint: EndpointConfig {
            base_url: Some("https://example.test/v1".to_string()),
            api_key: Some("secret".to_string()),
            timeout_secs: None,
        },
        extra_body: None,
        extra_headers: ExtraHeaders::new(),
    }
}

fn backend(target: LlmTarget) -> AnthropicNativeBackend {
    match AnthropicNativeBackend::new(target) {
        Ok(backend) => backend,
        Err(error) => panic!("{error:?}"),
    }
}

fn built(target: LlmTarget, body: &str, key: Option<&str>) -> AnthropicHttpRequest {
    match backend(target).http_request(ChatRequestType::Anthropic, Ok(parse(body)), key) {
        Ok(request) => request,
        Err(error) => panic!("{error:?}"),
    }
}

#[test]
fn transport_errors_are_backend_errors() {
    let request = ChatRequest::anthropic(parse(
        r#"{"model":"client-model","max_tokens":128,"messages":[]}"#,
    ));
    let mut ctx = ProxyContext {
        inbound_format: None,
    };
    let prepared = backend(anthropic_target()).prepare_call(
        &mut ctx,
        &request,
        Ok(request.body.clone()),
        None,
    );
    match prepared {
        Ok(call) => assert_eq!(
            call.http_request.body,
            parse(r#"{"model":"target-model","max_tokens":128,"messages":[]}"#)
        ),
        Err(error) => panic!("the request should stand, got {error:?}"),
    }
    let sent: Result<AnthropicHttpResponse<()>, SwitchyardError> =
        Err(SwitchyardError::Upstream("upstream exploded".to_string()));
    match chat_response(sent) {
        Err(SwitchyardError::Upstream(message)) => assert!(message.contains("upstream exploded")),
        other => panic!("backend call should fail, got {other:?}"),
    }
}

#[test]
fn rejects_openai_targets() {
    let mut target = anthropic_target();
    target.format = BackendFormat::OpenAi;
    match AnthropicNativeBackend::new(target) {
        Err(SwitchyardError::InvalidConfig(message)) => assert_eq!(
            message,
            "AnthropicNativeBackend requires a target with resolved Anthropic format, \
             got OpenAi for primary"
        ),
        other => panic!("OpenAI target should be rejected, got {other:?}"),
    }
    for format in [BackendFormat::Auto, BackendFormat::Responses] {
        let mut target = anthropic_target();
        target.format = format;
        assert!(matches!(
            AnthropicNativeBackend::new(target),
            Err(SwitchyardError::InvalidConfig(_))
        ));
    }
    assert_eq!(backend(anthropic_target()).target(), &anthropic_target());
    assert_eq!(
        backend(anthropic_target()).supported_request_types(),
        vec![ChatRequestType::Anthropic]
    );
}

#[test]
fn formats_messages_urls_for_root_v1_and_explicit_paths() {
    assert_eq!(
        messages_url(Some("https://example.test")),
        "https://example.test/v1/messages"
    );
    assert_eq!(
        messages_url(Some("https://example.test/v1")),
        "https://example.test/v1/messages"
    );
    assert_eq!(
        messages_url(Some("https://example.test/v1/messages")),
        "https://example.test/v1/messages"
    );
}

#[test]
fn messages_urls_have_a_default_and_ignore_trailing_slashes() {
    assert_eq!(
        messages_url(None),
        "https://api.anthropic.com/v1/messages"
    );
    assert_eq!(
        messages_url(Some("https://example.test/v1//")),
        "https://example.test/v1/messages"
    );
    assert_eq!(messages_url(Some("")), "/v1/messages");
    for base in ["https://a/b", "https://a/v1/", "x/v1/messages/", ""] {
        let url = messages_url(Some(base));
        assert!(url.ends_with("/v1/messages"));
        assert_eq!(messages_url(Some(&url)), url);
    }
}

#[test]
fn anthropic_context_overflow_canonical_shape_matches() {
    let body = r#"{"type":"error","error":{"type":"invalid_request_error","message":"prompt is too long: 200001 tokens > 200000 maximum"}}"#;
    assert!(is_context_overflow(body));
}

#[test]
fn anthropic_context_overflow_max_tokens_phrase_matches() {
    let body = r#"{"type":"error","error":{"message":"exceeds the maximum number of tokens for this model"}}"#;
    assert!(is_context_overflow(body));
}

#[test]
fn anthropic_context_overflow_unrelated_400_does_not_match() {
    let body = r#"{"type":"error","error":{"type":"invalid_request_error","message":"missing system prompt"}}"#;
    assert!(!is_context_overflow(body));
}

#[test]
fn the_other_overflow_phrases_match() {
    assert!(is_context_overflow("beyond the context window"));
    assert!(is_context_overflow("context length exceeded"));
    assert!(!is_context_overflow(""));
    assert!(!is_context_overflow("prompt is too lon"));
}

#[test]
fn the_configured_key_leads_and_a_blank_key_is_none() {
    assert_eq!(
        anthropic_api_key(Some("configured"), Some("environment")),
        Some("configured".to_string())
    );
    assert_eq!(
        anthropic_api_key(None, Some("environment")),
        Some("environment".to_string())
    );
    assert_eq!(anthropic_api_key(None, None), None);
    assert_eq!(anthropic_api_key(Some(" \t\n"), Some("environment")), None);
    assert_eq!(anthropic_api_key(None, Some("\u{2003}")), None);
    assert_eq!(
        anthropic_api_key(Some(" key "), None),
        Some(" key ".to_string())
    );
}

#[test]
fn the_outbound_body_asks_for_the_targets_model() {
    let backend = backend(anthropic_target());
    let body = backend.outbound_body(
        ChatRequestType::Anthropic,
        Ok(parse(
            r#"{"model":"client-model","max_tokens":128,"messages":[]}"#,
        )),
    );
    assert_eq!(
        body,
        Ok(parse(
            r#"{"model":"target-model","max_tokens":128,"messages":[]}"#
        ))
    );
}

#[test]
fn extra_members_fill_in_and_the_caller_wins() {
    let mut target = anthropic_target();
    target.extra_body = Some(parse(
        r#"{"model":"extra-model","max_tokens":1,"thinking":{"budget":5},"top_k":2}"#,
    ));
    let body = backend(target).outbound_body(
        ChatRequestType::OpenAiChat,
        Ok(parse(
            r#"{"max_tokens":128,"messages":[],"top_k":null}"#,
        )),
    );
    assert_eq!(
        body,
        Ok(parse(
            r#"{"model":"target-model","max_tokens":128,"messages":[],"thinking":{"budget":5},"top_k":null}"#
        ))
    );
}

#[test]
fn a_body_or_an_extra_body_that_is_no_object_changes_nothing() {
    let mut target = anthropic_target();
    target.extra_body = Some(parse(r#"{"top_k":2}"#));
    assert_eq!(
        backend(target).outbound_body(ChatRequestType::Anthropic, Ok(parse("[1, 2]"))),
        Ok(parse("[1, 2]"))
    );
    let mut target = anthropic_target();
    target.extra_body = Some(parse(r#"["top_k"]"#));
    assert_eq!(
        backend(target).outbound_body(ChatRequestType::Anthropic, Ok(parse("{}"))),
        Ok(parse(r#"{"model":"target-model"}"#))
    );
}

#[test]
fn a_request_that_cannot_be_put_in_the_format_is_a_backend_error() {
    let failed = backend(anthropic_target()).outbound_body(
        ChatRequestType::OpenAiResponses,
        Err("unknown block".to_string()),
    );
    match failed {
        Err(SwitchyardError::Backend(message)) => assert_eq!(
            message,
            "failed to translate OpenAiResponses request to Anthropic Messages: unknown block"
        ),
        other => panic!("expected an error, got {other:?}"),
    }
}

#[test]
fn the_request_is_addressed_and_keyed() {
    let request = built(anthropic_target(), r#"{"stream":true}"#, Some("env"));
    assert_eq!(request.target_id, "primary");
    assert_eq!(request.url, "https://example.test/v1/messages");
    assert_eq!(request.api_key, Some("secret".to_string()));
    assert!(request.stream);

    let mut keyless = anthropic_target();
    keyless.endpoint.api_key = None;
    keyless.endpoint.base_url = None;
    let request = built(keyless, r#"{"stream":false}"#, Some("env"));
    assert_eq!(request.url, "https://api.anthropic.com/v1/messages");
    assert_eq!(request.api_key, Some("env".to_string()));
    assert!(!request.stream);

    assert!(!built(anthropic_target(), r#"{"stream":"true"}"#, None).stream);
    assert!(!built(anthropic_target(), "{}", None).stream);
    assert!(!built(anthropic_target(), "null", None).stream);
}

#[test]
fn headers_come_in_order() {
    let mut target = anthropic_target();
    target.extra_headers = ExtraHeaders::new()
        .with("x-zone", "b")
        .with("x-app", "a")
        .with("x-zone", "c");
    let request = built(target, "{}", None);
    let telemetry = Header::new("x-version", "1.2.3");
    let headers: Vec<(String, String)> = request
        .headers(Some(&telemetry))
        .into_iter()
        .map(|header| (header.name, header.value))
        .collect();
    let expected: Vec<(String, String)> = [
        ("anthropic-version", "2023-06-01"),
        ("x-api-key", "secret"),
        ("x-version", "1.2.3"),
        ("x-app", "a"),
        ("x-zone", "c"),
    ]
    .iter()
    .map(|(name, value)| (name.to_string(), value.to_string()))
    .collect();
    assert_eq!(headers, expected);

    let mut bare = anthropic_target();
    bare.endpoint.api_key = Some(" ".to_string());
    assert_eq!(
        built(bare, "{}", Some("env")).headers(None),
        vec![Header::new("anthropic-version", "2023-06-01")]
    );
}

#[test]
fn the_status_says_what_to_read() {
    let whole = built(anthropic_target(), "{}", None);
    let streamed = built(anthropic_target(), r#"{"stream":true}"#, None);
    assert_eq!(whole.next_read(200), NextRead::Completion);
    assert_eq!(whole.next_read(299), NextRead::Completion);
    assert_eq!(streamed.next_read(200), NextRead::Stream);
    for status in [199, 300, 400, 500] {
        assert_eq!(whole.next_read(status), NextRead::ErrorBody);
        assert_eq!(streamed.next_read(status), NextRead::ErrorBody);
    }
}

#[test]
fn an_overflow_is_told_apart_from_other_errors() {
    let request = built(anthropic_target(), "{}", None);
    assert_eq!(
        request.rejected(400, Ok("prompt is too long".to_string())),
        SwitchyardError::ContextWindowExceeded {
            target_id: "primary".to_string(),
            model: "target-model".to_string(),
            message: "prompt is too long".to_string(),
        }
    );
    assert_eq!(
        request.rejected(413, Ok("prompt is too long".to_string())),
        SwitchyardError::UpstreamHttp {
            provider: "Anthropic messages".to_string(),
            status_code: 413,
            body: "prompt is too long".to_string(),
        }
    );
    assert_eq!(
        request.rejected(400, Err("reset".to_string())),
        SwitchyardError::UpstreamHttp {
            provider: "Anthropic messages".to_string(),
            status_code: 400,
            body: "<failed to read error body: reset>".to_string(),
        }
    );
    let nameless = built(anthropic_target(), "[]", None);
    assert_eq!(
        nameless.rejected(400, Ok("context length".to_string())),
        SwitchyardError::ContextWindowExceeded {
            target_id: "primary".to_string(),
            model: String::new(),
            message: "context length".to_string(),
        }
    );
}

#[test]
fn replies_become_responses() {
    let completion: Result<AnthropicHttpResponse<Vec<u8>>, SwitchyardError> =
        completion_read(Ok(parse(r#"{"id":"m"}"#)));
    assert_eq!(
        chat_response(completion),
        Ok(ChatResponse::AnthropicCompletion(parse(r#"{"id":"m"}"#)))
    );
    assert_eq!(
        chat_response(Ok(AnthropicHttpResponse::Stream(vec![1u8]))),
        Ok(ChatResponse::AnthropicStream(vec![1u8]))
    );
    let garbled: Result<AnthropicHttpResponse<Vec<u8>>, SwitchyardError> =
        completion_read(Err("eof".to_string()));
    assert_eq!(
        garbled,
        Err(SwitchyardError::Upstream(
            "Anthropic messages returned invalid JSON: eof".to_string()
        ))
    );
    assert_eq!(
        request_failed("refused"),
        SwitchyardError::Upstream("Anthropic messages request failed: refused".to_string())
    );
}

#[test]
fn a_call_notes_the_first_inbound_format_once_its_request_stands() {
    let backend = backend(anthropic_target());
    let request = ChatRequest {
        request_type: ChatRequestType::OpenAiChat,
        body: parse(r#"{"model":"client-model"}"#),
    };
    let mut ctx = ProxyContext {
        inbound_format: None,
    };
    assert!(backend
        .prepare_call(&mut ctx, &request, Err("no".to_string()), None)
        .is_err());
    assert_eq!(ctx.inbound_format, None);

    let call = match backend.prepare_call(&mut ctx, &request, Ok(parse("{}")), None) {
        Ok(call) => call,
        Err(error) => panic!("{error:?}"),
    };
    assert_eq!(ctx.inbound_format, Some(ChatRequestType::OpenAiChat));
    assert_eq!(call.observation.target_id, "primary");
    assert_eq!(call.observation.model, "target-model");
    assert_eq!(
        call.observation.requested_model,
        Some("client-model".to_string())
    );
    assert_eq!(call.http_request.body, parse(r#"{"model":"target-model"}"#));

    let later = ChatRequest::anthropic(parse("{}"));
    assert_eq!(later.model(), None);
    assert!(backend
        .prepare_call(&mut ctx, &later, Ok(parse("{}")), None)
        .is_ok());
    assert_eq!(ctx.inbound_format, Some(ChatRequestType::OpenAiChat));
}

#[test]
fn request_formats_have_their_wire_formats() {
    for (request_type, format) in [
        (ChatRequestType::OpenAiChat, WireFormat::OpenAiChat),
        (ChatRequestType::OpenAiResponses, WireFormat::OpenAiResponses),
        (ChatRequestType::Anthropic, WireFormat::AnthropicMessages),
    ] {
        assert_eq!(request_wire_format(request_type), format);
        assert_eq!(request_type.name(), format!("{request_type:?}"));
    }
    for format in [
        BackendFormat::Auto,
        BackendFormat::OpenAi,
        BackendFormat::Responses,
        BackendFormat::Anthropic,
    ] {
        assert_eq!(format.name(), format!("{format:?}"));
    }
}
