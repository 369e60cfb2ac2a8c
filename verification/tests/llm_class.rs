//! Capability routing by a judge model.

use switchyard::binary::Binary64;
use switchyard::classification::{Classification, Score};
use switchyard::llm_class::{
    trim_messages, CapabilityJudge, JudgeConfig, LlmTaskClassifier, TaskClassifierPolicy,
    TaskClassifierVerdict, RECENT_MESSAGE_WINDOW,
};
use switchyard::protocol::{ContentBlock, Message, Request, Role};
use switchyard::target::{AlgorithmProblem, LibsyError, LlmTarget, LlmTargetSet};

const TEST_THRESHOLD: f64 = 0.5;

fn b64(number: f64) -> Binary64 {
    Binary64 {
        bits: number.to_bits(),
    }
}

fn policy() -> TaskClassifierPolicy {
    TaskClassifierPolicy::new("efficient", "capable", b64(TEST_THRESHOLD))
}

fn verdict(p_solve: f64, confidence: f64, abstain: bool) -> TaskClassifierVerdict {
    TaskClassifierVerdict {
        recommended_route: "efficient".to_string(),
        p_solve: b64(p_solve),
        confidence: b64(confidence),
        abstain,
        capability_boundary: "supported".to_string(),
        primary_rule: "SUP-1".to_string(),
        crux: "test crux".to_string(),
    }
}

fn sole(classification: Classification) -> String {
    match classification {
        Classification::Scores(mut scores) => {
            assert_eq!(scores.len(), 1);
            assert_eq!(scores[0].confidence, b64(1.0));
            scores.remove(0).target
        }
        other => panic!("policy abstained: {other:?}"),
    }
}

fn selected(policy: &TaskClassifierPolicy, verdict: Option<&TaskClassifierVerdict>) -> String {
    sole(policy.to_classification(verdict))
}

fn target(name: &str) -> LlmTarget {
    LlmTarget {
        semantic_name: name.to_string(),
        llm_client: None,
    }
}

fn judge_config() -> JudgeConfig {
    JudgeConfig {
        system_prompt: "judge the task".to_string(),
        response_schema: Some(serde_json::Value::from("schema")),
    }
}

fn classifier(threshold: f64) -> Result<LlmTaskClassifier, LibsyError> {
    LlmTaskClassifier::new(
        target("judge"),
        target("efficient"),
        target("capable"),
        b64(threshold),
        Ok(judge_config()),
    )
}

fn texts(messages: &[Message]) -> Vec<String> {
    messages
        .iter()
        .flat_map(|message| message.content.iter())
        .filter_map(|block| match block {
            ContentBlock::Text { text } => Some(text.clone()),
            _ => None,
        })
        .collect()
}

#[test]
fn the_threshold_boundary_is_inclusive() {
    let policy = policy();
    let at_threshold = verdict(0.5, 0.0, false);
    let below_threshold = verdict(0.49, 1.0, false);
    assert_eq!(selected(&policy, Some(&at_threshold)), "efficient");
    assert_eq!(selected(&policy, Some(&below_threshold)), "capable");
}

#[test]
fn the_threshold_moves_the_routing_boundary() {
    let borderline = verdict(0.5, 1.0, false);
    let strict = TaskClassifierPolicy::new("efficient", "capable", b64(0.9));
    let lenient = TaskClassifierPolicy::new("efficient", "capable", b64(0.1));
    assert_eq!(selected(&strict, Some(&borderline)), "capable");
    assert_eq!(selected(&lenient, Some(&borderline)), "efficient");
}

#[test]
fn an_out_of_range_threshold_is_rejected() {
    for bad in [1.5, -0.1, f64::NAN, f64::INFINITY] {
        match classifier(bad) {
            Err(LibsyError::AlgorithmError { problem }) => {
                assert_eq!(problem, AlgorithmProblem::JudgeThreshold(b64(bad)));
                assert_eq!(
                    problem.message("1.5"),
                    "threshold must be between 0 and 1, got 1.5"
                );
            }
            other => panic!("threshold {bad} should be rejected, got {other:?}"),
        }
    }
    assert!(classifier(0.0).is_ok());
    assert!(classifier(1.0).is_ok());
}

#[test]
fn a_configuration_that_did_not_load_is_rejected_after_the_threshold() {
    let lost = || LibsyError::AlgorithmError {
        problem: AlgorithmProblem::JudgeConfig("no schema".to_string()),
    };
    let build = |threshold: f64| {
        LlmTaskClassifier::new(
            target("judge"),
            target("e"),
            target("c"),
            b64(threshold),
            Err(lost()),
        )
    };
    assert_eq!(build(0.5).err(), Some(lost()));
    assert!(matches!(
        build(2.0),
        Err(LibsyError::AlgorithmError {
            problem: AlgorithmProblem::JudgeThreshold(_)
        })
    ));
}

#[test]
fn invalid_or_abstained_verdict_routes_capable() {
    let policy = policy();
    let invalid_probability = verdict(1.1, 1.0, false);
    let abstained = verdict(1.0, 1.0, true);
    assert_eq!(selected(&policy, Some(&invalid_probability)), "capable");
    assert_eq!(selected(&policy, Some(&abstained)), "capable");
    assert_eq!(selected(&policy, None), "capable");
    let invalid_confidence = verdict(1.0, -0.1, false);
    assert_eq!(selected(&policy, Some(&invalid_confidence)), "capable");
    let unknown = verdict(f64::NAN, 1.0, false);
    assert!(!unknown.is_valid());
    assert_eq!(selected(&policy, Some(&unknown)), "capable");
}

#[test]
fn capability_judge_builds_a_structured_request() {
    let judge = CapabilityJudge {
        config: judge_config(),
    };
    let mut request = Request::default();
    request.llm_request.model = Some("inbound".to_string());
    request.llm_request.messages = vec![
        Message::text(Role::System, "client instructions"),
        Message::text(Role::Developer, "client developer instructions"),
        Message::text(Role::User, "initial task"),
        Message::text(Role::Assistant, "old response"),
        Message::text(Role::User, "old follow-up"),
        Message::text(Role::Assistant, "recent 1"),
        Message::text(Role::User, "recent 2"),
        Message::text(Role::Assistant, "recent 3"),
        Message::text(Role::User, "recent 4"),
        Message::text(Role::Assistant, "recent 5"),
    ];
    let judge_request = judge.build_request(&request);

    assert_eq!(judge_request.llm_request.model, request.llm_request.model);
    assert_eq!(
        judge_request.llm_request.messages.len(),
        RECENT_MESSAGE_WINDOW + 4
    );
    assert_eq!(
        judge_request.llm_request.messages[0],
        Message::text(Role::System, "judge the task")
    );
    let contents = texts(&judge_request.llm_request.messages);
    assert!(contents.contains(&"initial task".to_string()));
    assert!(contents.contains(&"recent 1".to_string()));
    assert!(contents.contains(&"recent 5".to_string()));
    assert!(contents.contains(&"client instructions".to_string()));
    assert!(contents.contains(&"client developer instructions".to_string()));
    assert!(!contents.contains(&"old response".to_string()));
    assert!(!contents.contains(&"old follow-up".to_string()));
    assert_eq!(
        judge_request.llm_request.output.response_format,
        judge.config.response_schema
    );
}

#[test]
fn a_closed_window_keeps_the_users_last_word() {
    let messages = vec![
        Message::text(Role::User, "task"),
        Message::text(Role::Assistant, "a"),
        Message::text(Role::User, "follow-up"),
        Message::text(Role::System, "late instructions"),
        Message::text(Role::Assistant, "b"),
    ];
    assert_eq!(
        texts(&trim_messages(&messages, 0)),
        vec!["late instructions", "task", "follow-up"]
    );
    assert_eq!(
        texts(&trim_messages(&messages[..2], 0)),
        vec!["task"]
    );
}

#[test]
fn a_conversation_without_a_task_keeps_its_instructions() {
    let messages = vec![
        Message::text(Role::Assistant, "hello"),
        Message::text(Role::Developer, "instructions"),
        Message::text(Role::Tool, "output"),
    ];
    assert_eq!(texts(&trim_messages(&messages, 5)), vec!["instructions"]);
    assert!(trim_messages(&[], 5).is_empty());
}

#[test]
fn trimming_twice_is_trimming_once() {
    let messages = vec![
        Message::text(Role::Assistant, "hello"),
        Message::text(Role::System, "s1"),
        Message::text(Role::User, "task"),
        Message::text(Role::Tool, "t1"),
        Message::text(Role::Developer, "d1"),
        Message::text(Role::Assistant, "a1"),
        Message::text(Role::User, "u2"),
        Message::text(Role::Assistant, "a2"),
    ];
    for window in 0..7 {
        let once = trim_messages(&messages, window);
        assert_eq!(trim_messages(&once, window), once);
    }
    assert_eq!(
        texts(&trim_messages(&messages, 2)),
        vec!["s1", "d1", "task", "u2", "a2"]
    );
}

/// Judges a request and calls the target that it is routed to. `judge` gives the
/// judge's verdict for a question, `None` where it cannot be reached.
fn run(
    classifier: &LlmTaskClassifier,
    request: &Request,
    judge: &dyn Fn(&Request) -> Option<TaskClassifierVerdict>,
    calls: &mut Vec<String>,
) -> String {
    let targets = LlmTargetSet::new(vec![target("efficient"), target("capable")]);
    let question = classifier.question(request);
    calls.push(classifier.judge_target().semantic_name.clone());
    let classification = classifier.score(judge(&question).as_ref());
    let name = match classification.target() {
        Some(name) => name,
        None => panic!("the classifier abstained"),
    };
    match targets.get_target(name) {
        Ok(routed) => {
            calls.push(routed.semantic_name.clone());
            format!("answer from {}", routed.semantic_name)
        }
        Err(error) => panic!("{error:?}"),
    }
}

fn classify_request() -> Request {
    let mut request = Request::default();
    request.llm_request.model = Some("auto".to_string());
    request.llm_request.messages = vec![Message::text(Role::User, "classify the task")];
    request
}

#[test]
fn an_unreachable_judge_routes_capable_instead_of_failing_the_request() {
    let classifier = match classifier(TEST_THRESHOLD) {
        Ok(classifier) => classifier,
        Err(error) => panic!("{error:?}"),
    };
    let mut calls: Vec<String> = Vec::new();

    let answer = run(&classifier, &classify_request(), &|_| None, &mut calls);

    assert_eq!(calls.last().map(String::as_str), Some("capable"));
    assert_eq!(answer, "answer from capable");
}

#[test]
fn classifier_judges_each_request_without_affinity() {
    let classifier = match classifier(TEST_THRESHOLD) {
        Ok(classifier) => classifier,
        Err(error) => panic!("{error:?}"),
    };
    let judge = |question: &Request| {
        assert_eq!(
            texts(&question.llm_request.messages),
            vec!["judge the task", "classify the task"]
        );
        Some(verdict(0.9, 0.9, false))
    };
    let mut calls: Vec<String> = Vec::new();
    for _ in 0..2 {
        let answer = run(&classifier, &classify_request(), &judge, &mut calls);
        assert_eq!(answer, "answer from efficient");
    }
    assert_eq!(calls, vec!["judge", "efficient", "judge", "efficient"]);
}

#[test]
fn only_a_decisive_score_names_a_target() {
    let score = |target: &str| Score {
        target: target.to_string(),
        confidence: b64(0.5),
    };
    assert_eq!(
        Classification::Scores(vec![score("weak")]).target(),
        Some("weak")
    );
    assert_eq!(Classification::Scores(Vec::new()).target(), None);
    assert_eq!(Classification::Ambiguous(vec![score("weak")]).target(), None);
}

#[test]
fn tiers_are_told_only_where_the_targets_differ() {
    let distinct = match classifier(TEST_THRESHOLD) {
        Ok(classifier) => classifier,
        Err(error) => panic!("{error:?}"),
    };
    assert_eq!(distinct.routing_tier("efficient"), Some("weak"));
    assert_eq!(distinct.routing_tier("capable"), Some("strong"));
    assert_eq!(distinct.routing_tier("judge"), None);
    let same = LlmTaskClassifier::new(
        target("judge"),
        target("one"),
        target("one"),
        b64(0.5),
        Ok(judge_config()),
    );
    match same {
        Ok(classifier) => assert_eq!(classifier.routing_tier("one"), None),
        Err(error) => panic!("{error:?}"),
    }
}
