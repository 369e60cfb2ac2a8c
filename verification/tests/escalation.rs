//! Escalation by response quality, driven turn by turn.

use std::collections::VecDeque;

use switchyard::binary::Binary64;
use switchyard::classification::Classification;
use switchyard::escalation::{
    AfterJudge, Attempt, EscalationDecision, EscalationJudge, EscalationPolicy, EscalationRouter,
    EscalationVerdict, FirstCall, CANDIDATE_KEY,
};
use switchyard::llm_class::JudgeConfig;
use switchyard::protocol::{ContentBlock, Message, Metadata, Request, Response, Role};
use switchyard::state::{State, StateValue};
use switchyard::target::{LibsyError, LlmClient, LlmTarget};

fn judge_config() -> JudgeConfig {
    JudgeConfig {
        system_prompt: "judge the response".to_string(),
        response_schema: Some(serde_json::Value::from("schema")),
    }
}

fn target(name: &str, llm_client: Option<LlmClient>) -> LlmTarget {
    LlmTarget {
        semantic_name: name.to_string(),
        llm_client,
    }
}

fn router() -> EscalationRouter {
    match EscalationRouter::new(
        target("efficient", None),
        target("capable", None),
        target("judge", None),
        Ok(judge_config()),
    ) {
        Ok(router) => router,
        Err(error) => panic!("schema and prompt must load: {error:?}"),
    }
}

fn request(session_id: Option<&str>) -> Request {
    let mut request = Request::default();
    request.llm_request.model = Some("auto".to_string());
    request.llm_request.messages = vec![Message::text(Role::User, "What is 2+2?")];
    request.metadata = session_id.map(|id| Metadata {
        session_id: Some(id.to_string()),
        wire_format: None,
        rest: Some(serde_json::Value::from("trace-1")),
    });
    request
}

/// A verdict, or nothing where the reply is no verdict.
fn verdict(reply: &str) -> Option<EscalationVerdict> {
    let value: serde_json::Value = serde_json::from_str(reply).ok()?;
    Some(EscalationVerdict {
        should_escalate: value["should_escalate"].as_bool()?,
        confidence: Binary64 {
            bits: value["confidence"].as_f64()?.to_bits(),
        },
        reason: value["reason"].as_str()?.to_string(),
    })
}

fn verdict_json(should_escalate: bool) -> String {
    format!(r#"{{"should_escalate": {should_escalate}, "confidence": 0.9, "reason": "test"}}"#)
}

/// Replies in the order of the calls, or failures, and the targets that were called.
struct Upstream {
    replies: VecDeque<Result<String, String>>,
    calls: Vec<String>,
}

impl Upstream {
    fn new(replies: &[&str]) -> Self {
        Upstream::with(replies.iter().map(|reply| Ok(reply.to_string())).collect())
    }

    fn with(replies: Vec<Result<String, String>>) -> Self {
        Upstream {
            replies: replies.into_iter().collect(),
            calls: Vec::new(),
        }
    }

    fn call(&mut self, target: &LlmTarget) -> Result<String, String> {
        self.calls.push(target.semantic_name.clone());
        self.replies
            .pop_front()
            .unwrap_or_else(|| Ok("fallback".to_string()))
    }

    fn response(&mut self, target: &LlmTarget) -> Result<Response<String>, String> {
        self.call(target).map(|llm_response| Response {
            llm_response,
            metadata: None,
        })
    }
}

/// Runs one turn, and gives the decisions on its way and what it ends with.
fn try_run(
    router: &mut EscalationRouter,
    upstream: &mut Upstream,
    request: Request,
) -> (Vec<EscalationDecision>, Result<String, LibsyError>) {
    let mut state = State::default();
    let (target, decision) = match router.start(&request) {
        FirstCall::Capable { target, decision } => {
            let answer = router.capable_replied(upstream.response(&target));
            return (vec![decision], answer.map(|response| response.llm_response));
        }
        FirstCall::Efficient { target, decision } => (target, decision),
    };
    let mut trace = vec![decision];
    let called = upstream.call(&target);
    let efficient = called.clone().unwrap_or_default();
    let attempt = match called {
        Ok(text) => Attempt::Gathered(text),
        Err(detail) => Attempt::Failed(detail),
    };
    let asked = match router.efficient_replied(&mut state, &request, attempt) {
        Ok(asked) => asked,
        Err(error) => return (trace, Err(error)),
    };
    assert_eq!(
        asked.llm_request.messages.last(),
        Some(&Message::text(Role::Assistant, &efficient))
    );
    let reply = upstream.call(router.judge_target());
    let verdict = reply.ok().and_then(|reply| verdict(&reply));
    match router.judge_replied(&request, verdict.as_ref(), efficient) {
        AfterJudge::Answer(response) => {
            assert_eq!(response.metadata, None);
            (trace, Ok(response.llm_response))
        }
        AfterJudge::Escalate { target, decision } => {
            trace.push(decision);
            let answer = router.capable_replied(upstream.response(&target));
            (trace, answer.map(|response| response.llm_response))
        }
    }
}

/// Runs one turn that ends with an answer.
fn run(
    router: &mut EscalationRouter,
    upstream: &mut Upstream,
    request: Request,
) -> (Vec<EscalationDecision>, String) {
    match try_run(router, upstream, request) {
        (trace, Ok(answer)) => (trace, answer),
        (_, Err(error)) => panic!("the turn should end with an answer: {error:?}"),
    }
}

#[test]
fn pass_judge_returns_efficient_response() {
    let mut router = router();
    let mut upstream = Upstream::new(&["4", &verdict_json(false)]);

    let (_, answer) = run(&mut router, &mut upstream, request(Some("s1")));

    assert_eq!(answer, "4");
    assert_eq!(upstream.calls, vec!["efficient", "judge"]);
}

#[test]
fn fail_judge_escalates_to_capable() {
    let mut router = router();
    let mut upstream = Upstream::new(&["I don't know", &verdict_json(true), "The answer is 4"]);

    let (trace, answer) = run(&mut router, &mut upstream, request(Some("s2")));

    assert_eq!(answer, "The answer is 4");
    assert_eq!(upstream.calls, vec!["efficient", "judge", "capable"]);
    assert_eq!(trace.len(), 2);
    assert_eq!(trace[0].selected_model(), "efficient");
    assert_eq!(trace[1].selected_model(), "capable");
    assert_eq!(
        trace[1].reasoning(),
        Some("quality escalation to capable model")
    );
}

#[test]
fn pinned_session_skips_efficient_and_judge() {
    let mut router = router();
    let mut upstream = Upstream::new(&["wrong", &verdict_json(true), "right", "right again"]);

    run(&mut router, &mut upstream, request(Some("s3")));
    let (trace, answer) = run(&mut router, &mut upstream, request(Some("s3")));

    assert_eq!(answer, "right again");
    assert_eq!(trace.len(), 1);
    assert_eq!(trace[0].selected_model(), "capable");
    assert_eq!(trace[0].routing_tier(), Some("strong"));
    assert_eq!(
        trace[0].reasoning(),
        Some("session pinned to capable after prior escalation")
    );
    assert_eq!(
        upstream.calls,
        vec!["efficient", "judge", "capable", "capable"]
    );
}

#[test]
fn a_pin_binds_its_own_session_only() {
    let mut router = router();
    let mut upstream = Upstream::new(&["wrong", &verdict_json(true), "right", "4"]);

    run(&mut router, &mut upstream, request(Some("s3")));
    run(&mut router, &mut upstream, request(Some("other")));

    assert!(router.is_pinned(&request(Some("s3"))));
    assert!(!router.is_pinned(&request(Some("other"))));
    assert_eq!(
        upstream.calls,
        vec!["efficient", "judge", "capable", "efficient", "judge"]
    );
}

#[test]
fn judge_failure_skips_escalation() {
    let mut router = router();
    let mut upstream = Upstream::new(&["4", "sorry, I cannot help"]);

    let (_, answer) = run(&mut router, &mut upstream, request(Some("s4")));

    assert_eq!(answer, "4");
    assert_eq!(upstream.calls, vec!["efficient", "judge"]);
    assert!(!router.is_pinned(&request(Some("s4"))));
}

#[test]
fn no_session_id_routes_without_pinning() {
    let mut router = router();
    let mut upstream = Upstream::new(&[
        "4",
        &verdict_json(true),
        "4",
        "4",
        &verdict_json(false),
    ]);

    run(&mut router, &mut upstream, request(None));
    run(&mut router, &mut upstream, request(None));

    assert_eq!(
        upstream.calls,
        vec!["efficient", "judge", "capable", "efficient", "judge"]
    );
}

#[test]
fn schema_and_prompt_load_at_construction() {
    assert_eq!(router().name(), "escalation");
    let failed = EscalationRouter::new(
        target("a", None),
        target("b", None),
        target("c", None),
        Err(LibsyError::External {
            context: "loading".to_string(),
            detail: "no schema".to_string(),
        }),
    );
    assert!(matches!(failed, Err(LibsyError::External { detail, .. }) if detail == "no schema"));
}

#[test]
fn routing_tiers_are_labelled() {
    let mut router = router();
    let mut upstream = Upstream::new(&["4", &verdict_json(false)]);

    let (trace, _) = run(&mut router, &mut upstream, request(Some("s5")));

    assert_eq!(trace[0].routing_tier(), Some("weak"));
    assert_eq!(
        trace[0].reasoning(),
        Some("initial efficient-model attempt")
    );
}

#[test]
fn a_response_that_cannot_be_gathered_is_an_error() {
    let router = router();
    let mut state = State::default();
    let failed = router.efficient_replied(
        &mut state,
        &request(Some("s6")),
        Attempt::Ungathered("stream broke".to_string()),
    );
    match failed {
        Err(LibsyError::External { context, detail }) => {
            assert_eq!(context, "aggregating efficient response");
            assert_eq!(detail, "stream broke");
        }
        other => panic!("expected an error, got {other:?}"),
    }
    assert!(state.extra.get(CANDIDATE_KEY).is_none());
}

fn call_error(target: &str, detail: &str) -> LibsyError {
    LibsyError::Call {
        target: target.to_string(),
        detail: detail.to_string(),
    }
}

#[test]
fn a_failed_efficient_call_ends_the_turn_without_a_pin() {
    let mut router = router();
    let mut upstream = Upstream::with(vec![Err("refused".to_string())]);

    let (trace, outcome) = try_run(&mut router, &mut upstream, request(Some("s8")));

    assert_eq!(outcome, Err(call_error("efficient", "refused")));
    assert_eq!(trace.len(), 1);
    assert_eq!(upstream.calls, vec!["efficient"]);
    assert!(!router.is_pinned(&request(Some("s8"))));
}

#[test]
fn a_failed_capable_call_ends_the_turn_and_keeps_the_pin() {
    let mut router = router();
    let mut upstream = Upstream::with(vec![
        Ok("wrong".to_string()),
        Ok(verdict_json(true)),
        Err("refused".to_string()),
        Err("refused again".to_string()),
        Ok("right".to_string()),
    ]);

    let (_, outcome) = try_run(&mut router, &mut upstream, request(Some("s9")));
    assert_eq!(outcome, Err(call_error("capable", "refused")));
    assert!(router.is_pinned(&request(Some("s9"))));

    let (_, outcome) = try_run(&mut router, &mut upstream, request(Some("s9")));
    assert_eq!(outcome, Err(call_error("capable", "refused again")));
    let (_, outcome) = try_run(&mut router, &mut upstream, request(Some("s9")));
    assert_eq!(outcome, Ok("right".to_string()));
    assert_eq!(
        upstream.calls,
        vec!["efficient", "judge", "capable", "capable", "capable"]
    );
}

#[test]
fn a_failed_judge_call_returns_the_efficient_response() {
    let mut router = router();
    let mut upstream = Upstream::with(vec![Ok("4".to_string()), Err("refused".to_string())]);

    let (_, answer) = run(&mut router, &mut upstream, request(Some("s10")));

    assert_eq!(answer, "4");
    assert!(!router.is_pinned(&request(Some("s10"))));
}

#[test]
fn the_judge_reads_instructions_last_question_and_response() {
    let judge = EscalationJudge {
        config: judge_config(),
    };
    let mut asked = request(Some("s7"));
    asked.llm_request.messages = vec![
        Message::text(Role::System, "be brief"),
        Message::text(Role::User, "first"),
        Message::text(Role::Assistant, "answer"),
        Message::text(Role::Developer, "no tables"),
        Message::text(Role::User, "second"),
        Message::text(Role::Tool, "tool output"),
    ];
    asked.raw_request = Some(serde_json::Value::from("raw"));
    asked.llm_request.rest = Some(serde_json::Value::from("sampling"));
    let mut state = State::default();
    state.set_text(CANDIDATE_KEY, "candidate");

    let built = judge.build_request(&state, &asked);

    assert_eq!(
        built.llm_request.messages,
        vec![
            Message::text(Role::System, "judge the response"),
            Message::text(Role::System, "be brief"),
            Message::text(Role::Developer, "no tables"),
            Message::text(Role::User, "second"),
            Message::text(Role::Assistant, "candidate"),
        ]
    );
    assert_eq!(built.llm_request.model, Some("auto".to_string()));
    assert_eq!(
        built.llm_request.output.response_format,
        judge_config().response_schema
    );
    assert_eq!(built.raw_request, None);
    assert_eq!(built.llm_request.rest, None);
    assert_eq!(built.metadata, asked.metadata);
    assert!(built.llm_request.instructions.is_empty());
}

#[test]
fn the_judge_reads_an_empty_response_where_none_was_left() {
    let judge = EscalationJudge {
        config: judge_config(),
    };
    let mut state = State::default();
    state
        .extra
        .insert(CANDIDATE_KEY.to_string(), StateValue::Bool(true));

    let built = judge.build_request(&state, &Request::default());

    assert_eq!(
        built.llm_request.messages,
        vec![
            Message::text(Role::System, "judge the response"),
            Message {
                role: Role::Assistant,
                content: vec![ContentBlock::Text {
                    text: String::new()
                }],
            },
        ]
    );
}

#[test]
fn the_policy_names_the_capable_target_or_abstains() {
    let policy = EscalationPolicy {
        capable: "capable".to_string(),
    };
    let escalate = verdict(&verdict_json(true));
    match policy.to_classification(escalate.as_ref()) {
        Classification::Scores(scores) => {
            assert_eq!(scores.len(), 1);
            assert_eq!(scores[0].target, "capable");
            assert_eq!(scores[0].confidence.bits, 1.0f64.to_bits());
        }
        other => panic!("expected scores, got {other:?}"),
    }
    for silent in [verdict(&verdict_json(false)), None] {
        assert_eq!(
            policy.to_classification(silent.as_ref()),
            Classification::Scores(Vec::new())
        );
    }
}

#[test]
fn tokens_are_counted_with_the_capable_client_first() {
    let client = |handle: usize, supports_count_tokens: bool| {
        Some(LlmClient {
            handle,
            supports_count_tokens,
        })
    };
    for (efficient, capable, expected) in [
        (client(1, true), client(2, true), Some(2)),
        (client(1, true), client(2, false), Some(1)),
        (client(1, true), None, Some(1)),
        (client(1, false), client(2, false), None),
        (None, None, None),
    ] {
        let router = match EscalationRouter::new(
            target("efficient", efficient),
            target("capable", capable),
            target("judge", client(3, true)),
            Ok(judge_config()),
        ) {
            Ok(router) => router,
            Err(error) => panic!("{error:?}"),
        };
        assert_eq!(
            router.count_tokens_client().map(|client| client.handle),
            expected
        );
    }
}
