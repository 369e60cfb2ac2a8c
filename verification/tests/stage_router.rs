//! Scoring turns and picking their tier.

use switchyard::binary::{Binary32, Binary64};
use switchyard::classification::Classification;
use switchyard::handoff_notes::HandoffNoteConfig;
use switchyard::protocol::{ContentBlock, Message, Request, Role};
use switchyard::stage_router::{
    can_pick, dimensions_from_signal, needs_score, pick_tier, score_result, should_deescalate,
    should_escalate, DecisionSource, PickOutcome, PickerMode, Ratio, StageClassifier, Tier,
};
use switchyard::state::{State, StateValue, ToolSignals};

const HARD_SEVERITY: f64 = 0.7;

fn b64(number: f64) -> Binary64 {
    Binary64 {
        bits: number.to_bits(),
    }
}

fn b32(number: f32) -> Binary32 {
    Binary32 {
        bits: number.to_bits(),
    }
}

fn f64_of(number: Binary64) -> f64 {
    f64::from_bits(number.bits)
}

/// The squashed, weighted sum of a turn's dimensions.
fn score_of(signal: &ToolSignals) -> Binary64 {
    let d = dimensions_from_signal(signal);
    let production =
        f64::from(d.production_intensity.numerator) / f64::from(d.production_intensity.denominator);
    let raw = 0.10
        * (f64_of(d.severity) / HARD_SEVERITY + f64_of(d.spinning) + f64_of(d.exploring)
            - production);
    b64((5.0 * raw).tanh())
}

fn critical() -> ToolSignals {
    ToolSignals {
        severity: b32(1.0),
        ..Default::default()
    }
}

fn pick(signal: &ToolSignals, mode: PickerMode, threshold: f64) -> PickOutcome {
    pick_tier(signal, mode, b64(threshold), score_of(signal))
}

#[test]
fn critical_severity_overrides_to_capable() {
    let mut signal = ToolSignals::default();
    signal.severity = b32(1.0);
    match pick(&signal, PickerMode::EfficientFirst, 0.5) {
        PickOutcome::Resolved { tier, source, .. } => {
            assert_eq!(tier, Tier::Capable);
            assert_eq!(source, DecisionSource::Override);
        }
        other => panic!("expected override, got {other:?}"),
    }
}

#[test]
fn compaction_overrides_to_capable() {
    let mut signal = ToolSignals::default();
    signal.compacted = true;
    assert!(matches!(
        pick(&signal, PickerMode::EfficientFirst, 0.5),
        PickOutcome::Resolved {
            tier: Tier::Capable,
            source: DecisionSource::Override,
            ..
        }
    ));
}

#[test]
fn one_signal_scores_below_half() {
    let mut signal = ToolSignals::default();
    signal.severity = b32(HARD_SEVERITY as f32);
    let scored = score_result(score_of(&signal));
    assert!(f64_of(scored.score) > 0.0);
    assert!(
        f64_of(scored.confidence) < 0.5,
        "one signal should not clear 0.5: {scored:?}"
    );
}

#[test]
fn quiet_signal_falls_open_to_default() {
    let signal = ToolSignals::default();
    match pick(&signal, PickerMode::EfficientFirst, 0.5) {
        PickOutcome::ConsultClassifier { default_tier, .. } => {
            assert_eq!(default_tier, Tier::Efficient);
        }
        other => panic!("expected consult-classifier, got {other:?}"),
    }
}

#[test]
fn an_override_has_no_score_and_no_confidence() {
    assert_eq!(
        pick(&critical(), PickerMode::CapableFirst, 0.5),
        PickOutcome::Resolved {
            tier: Tier::Capable,
            source: DecisionSource::Override,
            score: b64(0.0),
            confidence: None,
        }
    );
    let compacted = ToolSignals {
        compacted: true,
        ..Default::default()
    };
    assert_eq!(
        pick(&compacted, PickerMode::EfficientFirst, 0.5),
        PickOutcome::Resolved {
            tier: Tier::Capable,
            source: DecisionSource::Override,
            score: b64(0.0),
            confidence: None,
        }
    );
}

#[test]
fn the_scorer_runs_only_where_no_hard_reason_decides() {
    let settled = ToolSignals {
        tests_passed: true,
        recent_write_count: 1,
        ..Default::default()
    };
    assert!(needs_score(&ToolSignals::default()));
    assert!(!needs_score(&critical()));
    assert!(!needs_score(&settled));
    // Where a hard reason decides, the score changes nothing.
    for signal in [critical(), settled] {
        assert_eq!(
            pick_tier(&signal, PickerMode::CapableFirst, b64(0.1), b64(0.9)),
            pick_tier(&signal, PickerMode::CapableFirst, b64(0.1), b64(-0.9)),
        );
    }
}

#[test]
fn counts_that_cannot_be_added_up_cannot_be_picked_by() {
    let mut signal = ToolSignals {
        tests_passed: true,
        recent_write_count: u32::MAX,
        recent_edit_count: 1,
        ..Default::default()
    };
    assert!(!can_pick(&signal));
    signal.compacted = true;
    assert!(can_pick(&signal));
    signal.compacted = false;
    signal.tests_passed = false;
    assert!(can_pick(&signal));
    signal.tests_passed = true;
    signal.recent_edit_count = 0;
    assert!(can_pick(&signal));
}

#[test]
fn escalation_wins_over_a_settled_run() {
    let signal = ToolSignals {
        tests_passed: true,
        recent_write_count: 3,
        compacted: true,
        ..Default::default()
    };
    assert!(should_escalate(&signal));
    assert!(should_deescalate(&signal));
    assert!(matches!(
        pick(&signal, PickerMode::EfficientFirst, 0.5),
        PickOutcome::Resolved {
            tier: Tier::Capable,
            source: DecisionSource::Override,
            ..
        }
    ));
}

#[test]
fn a_settled_run_needs_tests_production_and_no_error() {
    let settled = ToolSignals {
        tests_passed: true,
        recent_edit_count: 1,
        ..Default::default()
    };
    assert!(should_deescalate(&settled));
    assert_eq!(
        pick(&settled, PickerMode::CapableFirst, 0.5),
        PickOutcome::Resolved {
            tier: Tier::Efficient,
            source: DecisionSource::TestsPassed,
            score: b64(0.0),
            confidence: None,
        }
    );
    let mut unproductive = settled;
    unproductive.recent_edit_count = 0;
    assert!(!should_deescalate(&unproductive));
    let mut failing = settled;
    failing.severity = b32(0.1);
    assert!(!should_deescalate(&failing));
    let mut untested = settled;
    untested.tests_passed = false;
    assert!(!should_deescalate(&untested));
    let mut negative = settled;
    negative.severity = b32(-0.0);
    assert!(should_deescalate(&negative));
    let mut unknown = settled;
    unknown.severity = b32(f32::NAN);
    assert!(!should_deescalate(&unknown));
    assert!(!should_escalate(&unknown));
}

#[test]
fn two_signals_clear_a_high_threshold_and_the_sign_picks_the_tier() {
    let stalled = ToolSignals {
        severity: b32(0.7),
        turn_depth: 8,
        ..Default::default()
    };
    assert!(matches!(
        pick(&stalled, PickerMode::EfficientFirst, 0.7),
        PickOutcome::Resolved {
            tier: Tier::Capable,
            source: DecisionSource::Dimensions,
            ..
        }
    ));
    let producing = ToolSignals {
        recent_write_count: 4,
        ..Default::default()
    };
    match pick(&producing, PickerMode::CapableFirst, 0.4) {
        PickOutcome::Resolved {
            tier,
            source,
            score,
            confidence,
        } => {
            assert_eq!(tier, Tier::Efficient);
            assert_eq!(source, DecisionSource::Dimensions);
            assert!(f64_of(score) < 0.0);
            assert_eq!(confidence, Some(b64(-f64_of(score))));
        }
        other => panic!("expected a score, got {other:?}"),
    }
    // The threshold is inclusive, and a lower one keeps the decision.
    let score = score_of(&producing);
    let exact = pick_tier(&producing, PickerMode::CapableFirst, b64(-f64_of(score)), score);
    assert!(matches!(exact, PickOutcome::Resolved { .. }));
    assert_eq!(
        exact,
        pick_tier(&producing, PickerMode::CapableFirst, b64(0.0), score)
    );
    // A score that is not a number decides nothing.
    assert!(matches!(
        pick_tier(&producing, PickerMode::CapableFirst, b64(0.0), b64(f64::NAN)),
        PickOutcome::ConsultClassifier { .. }
    ));
}

#[test]
fn dimensions_split_the_stalls_and_share_the_production() {
    let spinning = dimensions_from_signal(&ToolSignals {
        turn_depth: 8,
        severity: b32(0.7),
        ..Default::default()
    });
    assert_eq!(f64_of(spinning.severity), f64::from(0.7f32));
    assert_eq!(f64_of(spinning.spinning), 1.0);
    assert_eq!(f64_of(spinning.exploring), 0.0);
    assert_eq!(
        spinning.production_intensity,
        Ratio {
            numerator: 0,
            denominator: 1
        }
    );
    let exploring = dimensions_from_signal(&ToolSignals {
        turn_depth: 9,
        recent_read_count: 2,
        ..Default::default()
    });
    assert_eq!(f64_of(exploring.spinning), 0.0);
    assert_eq!(f64_of(exploring.exploring), 1.0);
    let early = dimensions_from_signal(&ToolSignals {
        turn_depth: 7,
        recent_todowrite_count: 1,
        ..Default::default()
    });
    assert_eq!(f64_of(early.spinning), 0.0);
    assert_eq!(f64_of(early.exploring), 0.0);
    let producing = dimensions_from_signal(&ToolSignals {
        turn_depth: 20,
        recent_write_count: 1,
        recent_edit_count: 2,
        recent_read_count: 4,
        recent_todowrite_count: 1,
        ..Default::default()
    });
    assert_eq!(f64_of(producing.exploring), 0.0);
    assert_eq!(
        producing.production_intensity,
        Ratio {
            numerator: 3,
            denominator: 8
        }
    );
}

#[test]
fn sources_and_tiers_have_their_labels() {
    assert_eq!(DecisionSource::Override.as_str(), "override");
    assert_eq!(DecisionSource::TestsPassed.as_str(), "tests_passed");
    assert_eq!(DecisionSource::Dimensions.as_str(), "dimensions");
    assert_eq!(DecisionSource::FallOpen.as_str(), "fall_open");
    assert_eq!(Tier::Capable.target_name(), "strong");
    assert_eq!(Tier::Efficient.target_name(), "weak");
    assert_eq!(PickerMode::CapableFirst.default_tier(), Tier::Capable);
    assert_eq!(PickerMode::EfficientFirst.default_tier(), Tier::Efficient);
}

// ─── StageClassifier ─────────────────────────────────────────────────

fn state_with(signal: ToolSignals) -> State {
    State {
        tool_signals: Some(signal),
        ..Default::default()
    }
}

/// Classifies the turn in `state`, with its score.
fn classify(classifier: &StageClassifier, state: &mut State, request: &mut Request) -> Classification {
    let score = match state.tool_signals {
        Some(signal) => score_of(&signal),
        None => b64(0.0),
    };
    classifier.score(state, request, score)
}

fn recorded(state: &State, key: &str) -> Option<String> {
    match state.extra.get(key) {
        Some(StateValue::String(text)) => Some(text.clone()),
        _ => None,
    }
}

fn only_target(classification: Classification, decisive: bool) -> String {
    let mut scores = match classification {
        Classification::Scores(scores) if decisive => scores,
        Classification::Ambiguous(scores) if !decisive => scores,
        other => panic!("unexpected classification {other:?}"),
    };
    assert_eq!(scores.len(), 1);
    scores.remove(0).target
}

#[test]
fn classifier_defaults_without_tool_signals() {
    let mut state = State::default();
    let classification = classify(
        &StageClassifier::new(PickerMode::EfficientFirst, b64(0.5)),
        &mut state,
        &mut Request::default(),
    );
    assert_eq!(only_target(classification, false), "weak");
    assert_eq!(recorded(&state, "default_target"), Some("weak".to_string()));
    assert_eq!(
        recorded(&state, "decision_source"),
        Some("fall_open".to_string())
    );
}

#[test]
fn classifier_escalates_critical_severity_to_strong() {
    let mut state = state_with(critical());
    let classification = classify(
        &StageClassifier::new(PickerMode::EfficientFirst, b64(0.5)),
        &mut state,
        &mut Request::default(),
    );
    assert_eq!(only_target(classification, true), "strong");
    assert_eq!(
        recorded(&state, "decision_source"),
        Some("override".to_string())
    );
    assert_eq!(recorded(&state, "default_target"), None);
}

#[test]
fn classifier_deescalates_settled_turn_to_weak() {
    let mut state = state_with(ToolSignals {
        tests_passed: true,
        recent_write_count: 1,
        severity: b32(0.0),
        ..Default::default()
    });
    let classification = classify(
        &StageClassifier::new(PickerMode::EfficientFirst, b64(0.5)),
        &mut state,
        &mut Request::default(),
    );
    assert_eq!(only_target(classification, true), "weak");
}

#[test]
fn classifier_falls_open_to_default_and_records_it() {
    let mut state = state_with(ToolSignals::default());
    let classification = classify(
        &StageClassifier::new(PickerMode::EfficientFirst, b64(0.5)),
        &mut state,
        &mut Request::default(),
    );
    assert_eq!(only_target(classification, false), "weak");
    assert_eq!(recorded(&state, "default_target"), Some("weak".to_string()));
    assert_eq!(
        recorded(&state, "decision_source"),
        Some("fall_open".to_string())
    );
}

#[test]
fn classifier_honors_configured_mode_on_fall_open() {
    let mut state = state_with(ToolSignals::default());
    let classification = classify(
        &StageClassifier::new(PickerMode::CapableFirst, b64(0.5)),
        &mut state,
        &mut Request::default(),
    );
    assert_eq!(only_target(classification, false), "strong");
    assert_eq!(
        recorded(&state, "default_target"),
        Some("strong".to_string())
    );
}

// ─── handoff notes ───────────────────────────────────────────────────

const ESCALATION: &str = "the previous model was stalling";
const DEESCALATION: &str = "the work is settled; carry on";

fn noting_classifier(mode: PickerMode) -> StageClassifier {
    StageClassifier::new(mode, b64(0.5)).with_handoff_notes(HandoffNoteConfig::new(
        ESCALATION,
        Some(DEESCALATION.to_string()),
        true,
    ))
}

fn request() -> Request {
    let mut request = Request::default();
    request.llm_request.model = Some("auto".to_string());
    request.llm_request.messages = vec![Message::text(Role::User, "hi")];
    request
}

fn trailing_text(request: &Request) -> Option<String> {
    let last = request.llm_request.messages.last()?;
    let texts: Vec<&str> = last
        .content
        .iter()
        .filter_map(|block| match block {
            ContentBlock::Text { text } => Some(text.as_str()),
            _ => None,
        })
        .collect();
    Some(texts.join("|"))
}

#[test]
fn a_signal_driven_escalation_carries_the_note() {
    let mut state = state_with(critical());
    let mut request = request();
    classify(
        &noting_classifier(PickerMode::EfficientFirst),
        &mut state,
        &mut request,
    );
    assert_eq!(trailing_text(&request), Some(format!("hi|{ESCALATION}")));
}

#[test]
fn every_turn_the_signals_drive_carries_the_note() {
    let classifier = noting_classifier(PickerMode::EfficientFirst);
    let mut state = state_with(critical());
    for _ in 0..3 {
        let mut request = request();
        classify(&classifier, &mut state, &mut request);
        assert_eq!(trailing_text(&request), Some(format!("hi|{ESCALATION}")));
    }
}

#[test]
fn a_settled_turn_carries_the_deescalation_note() {
    let mut state = state_with(ToolSignals {
        tests_passed: true,
        recent_write_count: 1,
        ..Default::default()
    });
    let mut request = request();
    classify(
        &noting_classifier(PickerMode::EfficientFirst),
        &mut state,
        &mut request,
    );
    assert_eq!(trailing_text(&request), Some(format!("hi|{DEESCALATION}")));
}

#[test]
fn no_note_on_an_ambiguous_turn() {
    let mut state = state_with(ToolSignals::default());
    let mut request = request();
    let classification = classify(
        &noting_classifier(PickerMode::CapableFirst),
        &mut state,
        &mut request,
    );
    assert!(matches!(classification, Classification::Ambiguous(_)));
    assert_eq!(trailing_text(&request), Some("hi".to_string()));
}

#[test]
fn no_note_when_notes_are_unconfigured() {
    let mut state = state_with(critical());
    let mut request = request();
    classify(
        &StageClassifier::new(PickerMode::EfficientFirst, b64(0.5)),
        &mut state,
        &mut request,
    );
    assert_eq!(trailing_text(&request), Some("hi".to_string()));
}
