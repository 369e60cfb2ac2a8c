//! The stage router, as it is built and as it routes whole turns.

use switchyard::binary::{Binary32, Binary64};
use switchyard::handoff_notes::HandoffNoteConfig;
use switchyard::llm_class::{JudgeConfig, TaskClassifierVerdict};
use switchyard::protocol::{ContentBlock, Message, Metadata, Request, Role, ToolCall, ToolResult, WireFormat};
use switchyard::stage::{FallOpen, LlmFallback, StageRouter, StageRouterConfig, StageStep};
use switchyard::stage_router::{PickerMode, LAST_TIER_KEY};
use switchyard::state::{State, StateValue, ToolSignals};
use switchyard::target::{AlgorithmProblem, LibsyError, LlmTarget, LlmTargetSet};
use switchyard::tier_prompts::TierPrompts;

const ESCALATION: &str = "the previous model was stalling; pick up the diagnosis";
const STRONG_PROMPT: &str = "diagnose before you edit";
const WEAK_PROMPT: &str = "follow the settled plan";
const JUDGE: &str = "judge";
const DEFAULT_WINDOW: usize = 10;

fn b64(number: f64) -> Binary64 {
    Binary64 {
        bits: number.to_bits(),
    }
}

fn target(name: &str) -> LlmTarget {
    LlmTarget {
        semantic_name: name.to_string(),
        llm_client: None,
    }
}

fn targets(names: &[&str]) -> LlmTargetSet {
    LlmTargetSet::new(names.iter().map(|name| target(name)).collect())
}

fn judge_config() -> Result<JudgeConfig, LibsyError> {
    Ok(JudgeConfig {
        system_prompt: "judge the task".to_string(),
        response_schema: None,
    })
}

fn config() -> StageRouterConfig {
    StageRouterConfig::new(PickerMode::EfficientFirst, b64(0.5))
}

fn build(names: &[&str], config: StageRouterConfig) -> Result<StageRouter, LibsyError> {
    StageRouter::new(targets(names), config, DEFAULT_WINDOW, judge_config())
}

fn fallback(threshold: f64) -> LlmFallback {
    LlmFallback {
        judge_target: target(JUDGE),
        threshold: b64(threshold),
    }
}

#[test]
fn rejects_an_out_of_range_confidence_threshold() {
    let mut config = config();
    config.confidence_threshold = b64(1.5);
    match build(&["strong", "weak"], config) {
        Err(LibsyError::AlgorithmError { problem }) => {
            assert_eq!(problem, AlgorithmProblem::ConfidenceThreshold(b64(1.5)));
            assert_eq!(
                problem.message("1.5"),
                "confidence_threshold must be between 0 and 1, got 1.5"
            );
        }
        other => panic!("expected a rejection, got {other:?}"),
    }
}

#[test]
fn rejects_an_out_of_range_judge_threshold() {
    let mut config = config();
    config.llm_fallback = Some(fallback(-0.1));
    assert!(matches!(
        build(&["strong", "weak"], config),
        Err(LibsyError::AlgorithmError { .. })
    ));
}

#[test]
fn rejects_a_target_set_missing_a_tier() {
    assert!(matches!(
        build(&["strong"], config()),
        Err(LibsyError::TargetNotFound { .. })
    ));
    match build(&["judge"], config()) {
        Err(LibsyError::TargetNotFound { name }) => assert_eq!(name, "strong"),
        other => panic!("expected a rejection, got {other:?}"),
    }
    match build(&["strong"], config()) {
        Err(LibsyError::TargetNotFound { name }) => assert_eq!(name, "weak"),
        other => panic!("expected a rejection, got {other:?}"),
    }
}

#[test]
fn builds_over_both_tiers() {
    match build(&["strong", "weak"], config()) {
        Ok(router) => {
            assert_eq!(router.name(), "stage_router");
            assert_eq!(router.recent_window(), DEFAULT_WINDOW);
            assert_eq!(router.routing_tier("strong"), None);
        }
        Err(error) => panic!("{error:?}"),
    }
    let mut narrow = config();
    narrow.recent_window = Some(3);
    match build(&["strong", "weak"], narrow) {
        Ok(router) => assert_eq!(router.recent_window(), 3),
        Err(error) => panic!("{error:?}"),
    }
}

#[test]
fn only_a_judge_gives_its_targets_a_tier() {
    match build(&["strong", "weak"], config_with_judge()) {
        Ok(router) => {
            assert_eq!(router.routing_tier("strong"), Some("strong"));
            assert_eq!(router.routing_tier("weak"), Some("weak"));
            assert_eq!(router.routing_tier(JUDGE), None);
        }
        Err(error) => panic!("{error:?}"),
    }
}

#[test]
fn a_judge_that_did_not_load_matters_only_where_it_is_wanted() {
    let lost = || {
        Err(LibsyError::AlgorithmError {
            problem: AlgorithmProblem::JudgeConfig("no schema".to_string()),
        })
    };
    assert!(StageRouter::new(targets(&["strong", "weak"]), config(), 10, lost()).is_ok());
    let mut judged = config();
    judged.llm_fallback = Some(fallback(0.5));
    match StageRouter::new(targets(&["strong", "weak"]), judged, 10, lost()) {
        Err(LibsyError::AlgorithmError { problem }) => {
            assert_eq!(problem.message(""), "no schema");
        }
        other => panic!("expected a rejection, got {other:?}"),
    }
}

#[test]
fn the_first_target_of_a_name_is_the_one() {
    let mut set = targets(&["strong", "weak"]);
    set.targets.push(LlmTarget {
        semantic_name: "strong".to_string(),
        llm_client: Some(switchyard::target::LlmClient {
            handle: 7,
            supports_count_tokens: false,
        }),
    });
    assert_eq!(set.get_target("strong"), Ok(target("strong")));
    assert_eq!(
        set.get_target("judge"),
        Err(LibsyError::TargetNotFound {
            name: "judge".to_string()
        })
    );
}

#[test]
fn falling_open_needs_a_recorded_default() {
    let mut state = State::default();
    match FallOpen.score(&state) {
        Err(LibsyError::AlgorithmError { problem }) => assert_eq!(
            problem.message(""),
            "stage classifier left no default target to fall open to"
        ),
        other => panic!("expected an error, got {other:?}"),
    }
    state
        .extra
        .insert("default_target".to_string(), StateValue::Integer(1));
    assert!(FallOpen.score(&state).is_err());
    state.set_text("default_target", "weak");
    match FallOpen.score(&state) {
        Ok(switchyard::classification::Classification::Scores(scores)) => {
            assert_eq!(scores.len(), 1);
            assert_eq!(scores[0].target, "weak");
            assert_eq!(scores[0].confidence, b64(0.0));
        }
        other => panic!("expected a score, got {other:?}"),
    }
}

// ─── whole turns ─────────────────────────────────────────────────────

/// One model call as the model saw it.
#[derive(Debug)]
struct Call {
    target: String,
    messages: Vec<String>,
    instructions: Vec<String>,
}

fn texts(content: &[ContentBlock]) -> Vec<String> {
    content
        .iter()
        .filter_map(|block| match block {
            ContentBlock::Text { text } => Some(text.clone()),
            _ => None,
        })
        .collect()
}

/// A driven router, with a judge that reports `p_solve`.
struct Driver {
    router: StageRouter,
    state: State,
    p_solve: f64,
    calls: Vec<Call>,
}

impl Driver {
    fn new(config: StageRouterConfig, p_solve: f64) -> Self {
        match build(&["strong", "weak"], config) {
            Ok(router) => Driver {
                router,
                state: State::default(),
                p_solve,
                calls: Vec::new(),
            },
            Err(error) => panic!("{error:?}"),
        }
    }

    fn call(&mut self, target: &LlmTarget, request: &Request) {
        self.calls.push(Call {
            target: target.semantic_name.clone(),
            messages: request
                .llm_request
                .messages
                .iter()
                .map(|message| texts(&message.content).join("|"))
                .filter(|text| !text.is_empty())
                .collect(),
            instructions: request
                .llm_request
                .instructions
                .iter()
                .flat_map(|block| texts(&block.content))
                .collect(),
        });
    }

    /// Runs a turn whose tool result failed critically or came back clean.
    fn run(&mut self, failed: bool) {
        let mut request = turn_request(failed);
        self.state.tool_signals = Some(ToolSignals {
            severity: Binary32 {
                bits: if failed { 1.0f32 } else { 0.0f32 }.to_bits(),
            },
            turn_depth: 1,
            ..Default::default()
        });
        let target = match self
            .router
            .begin_turn(&mut self.state, &mut request, b64(0.0))
        {
            StageStep::Route(target) => target,
            StageStep::AskJudge {
                judge_target,
                question,
            } => {
                self.call(&judge_target, &question);
                let verdict = TaskClassifierVerdict {
                    recommended_route: "efficient".to_string(),
                    p_solve: b64(self.p_solve),
                    confidence: b64(0.9),
                    abstain: false,
                    capability_boundary: "supported".to_string(),
                    primary_rule: "SUP-1".to_string(),
                    crux: "bounded task".to_string(),
                };
                self.router
                    .judge_replied(&mut self.state, &mut request, Some(&verdict))
            }
        };
        self.call(&target, &request);
    }

    fn routed(&self) -> Vec<&Call> {
        self.calls
            .iter()
            .filter(|call| call.target != JUDGE)
            .collect()
    }

    fn judged(&self) -> usize {
        self.calls
            .iter()
            .filter(|call| call.target == JUDGE)
            .count()
    }
}

fn config_with_notes() -> StageRouterConfig {
    let mut config = config();
    config.handoff_notes = Some(HandoffNoteConfig::new(ESCALATION, None, true));
    config
}

fn config_with_judge() -> StageRouterConfig {
    let mut config = config();
    config.llm_fallback = Some(fallback(0.5));
    config
}

fn turn_request(failed: bool) -> Request {
    let content = if failed {
        "fatal runtime error: out of memory"
    } else {
        "ok"
    };
    let mut request = Request::default();
    request.llm_request.model = Some("auto".to_string());
    request.llm_request.messages = vec![
        Message::text(Role::User, "fix the build"),
        Message {
            role: Role::Assistant,
            content: vec![ContentBlock::ToolCall(ToolCall {
                id: "call_1".to_string(),
                name: "Bash".to_string(),
                arguments: serde_json::Value::from("cargo test"),
            })],
        },
        Message {
            role: Role::Tool,
            content: vec![ContentBlock::ToolResult(ToolResult {
                tool_call_id: "call_1".to_string(),
                content: vec![ContentBlock::Text {
                    text: content.to_string(),
                }],
                is_error: Some(failed),
            })],
        },
    ];
    request.metadata = Some(Metadata {
        session_id: None,
        wire_format: Some(WireFormat::OpenAiChat),
        rest: None,
    });
    request
}

#[test]
fn a_tier_change_hands_the_note_to_the_model_taking_over() {
    let mut driver = Driver::new(config_with_notes(), 0.5);
    driver.run(false);
    driver.run(true);

    let calls = driver.routed();
    assert_eq!(calls[0].target, "weak");
    assert_eq!(calls[1].target, "strong");
    assert!(
        !calls[0]
            .messages
            .iter()
            .any(|text| text.contains(ESCALATION)),
        "the steady-state turn should carry no note: {:?}",
        calls[0].messages
    );
    assert!(
        calls[1]
            .messages
            .last()
            .is_some_and(|text| text.ends_with(ESCALATION)),
        "the escalating turn should carry the note last: {:?}",
        calls[1].messages
    );
}

#[test]
fn the_note_does_not_persist_into_the_next_turn() {
    let mut driver = Driver::new(config_with_notes(), 0.5);
    driver.run(false);
    driver.run(true);
    driver.run(true);

    let calls = driver.routed();
    assert_eq!(calls[2].target, "strong");
    assert!(
        !calls[2]
            .messages
            .iter()
            .any(|text| text.contains(ESCALATION)),
        "the note should not accumulate: {:?}",
        calls[2].messages
    );
}

#[test]
fn an_unconfigured_router_injects_nothing() {
    let mut driver = Driver::new(config(), 0.5);
    driver.run(false);
    driver.run(true);

    let calls = driver.routed();
    assert_eq!(calls[1].target, "strong", "the escalation still happens");
    assert!(calls
        .iter()
        .all(|call| !call.messages.iter().any(|text| text.contains(ESCALATION))));
}

#[test]
fn the_judge_decides_a_turn_the_signals_leave_undecided() {
    let mut driver = Driver::new(config_with_judge(), 0.1);
    driver.run(false);

    assert_eq!(
        driver.judged(),
        1,
        "the judge should be consulted on an undecided turn"
    );
    assert_eq!(driver.routed()[0].target, "strong");
}

#[test]
fn a_decisive_signal_never_reaches_the_judge() {
    let mut driver = Driver::new(config_with_judge(), 0.9);
    driver.run(true);

    assert_eq!(
        driver.judged(),
        0,
        "a resolved turn should not pay for a judge call"
    );
    assert_eq!(driver.routed()[0].target, "strong");
}

#[test]
fn the_judges_verdict_is_not_pinned_to_the_session() {
    let mut driver = Driver::new(config_with_judge(), 0.1);
    driver.run(false);
    driver.p_solve = 0.9;
    driver.run(false);

    let routed = driver.routed();
    assert_eq!(routed[0].target, "strong");
    assert_eq!(routed[1].target, "weak");
    assert_eq!(
        driver.judged(),
        2,
        "each undecided turn is its own question"
    );
}

#[test]
fn each_tier_is_handed_its_own_system_prompt() {
    let mut config = config();
    config.tier_prompts = Some(TierPrompts::new(
        Some(STRONG_PROMPT.to_string()),
        Some(WEAK_PROMPT.to_string()),
    ));
    let mut driver = Driver::new(config, 0.5);
    driver.run(false);
    driver.run(true);

    let routed = driver.routed();
    assert_eq!(routed[0].target, "weak");
    assert_eq!(routed[0].instructions, vec![WEAK_PROMPT.to_string()]);
    assert_eq!(routed[1].target, "strong");
    assert_eq!(routed[1].instructions, vec![STRONG_PROMPT.to_string()]);
}

#[test]
fn a_judge_decided_turn_still_gets_its_tier_prompt() {
    let mut config = config_with_judge();
    config.tier_prompts = Some(TierPrompts::new(Some(STRONG_PROMPT.to_string()), None));
    let mut driver = Driver::new(config, 0.1);
    driver.run(false);

    let routed = driver.routed();
    assert_eq!(routed[0].target, "strong");
    assert_eq!(routed[0].instructions, vec![STRONG_PROMPT.to_string()]);
}

#[test]
fn a_judge_that_is_not_understood_sends_the_turn_to_the_strong_tier() {
    let mut driver = Driver::new(config_with_judge(), 0.9);
    let mut request = turn_request(false);
    match driver
        .router
        .begin_turn(&mut driver.state, &mut request, b64(0.0))
    {
        StageStep::AskJudge { .. } => {}
        other => panic!("expected a question, got {other:?}"),
    }
    let target = driver
        .router
        .judge_replied(&mut driver.state, &mut request, None);
    assert_eq!(target.semantic_name, "strong");
    assert_eq!(driver.state.text_at(LAST_TIER_KEY), Some("strong"));
}
