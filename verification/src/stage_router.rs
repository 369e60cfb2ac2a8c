//! Scores a coding-agent turn by its tool results and picks its tier.
//!
//! Two axes count: *error*, whether the recent tool results failed, and
//! *production*, whether the agent is producing code. A signed score says which
//! way they lean: positive to the capable tier, negative to the efficient one.
//! Its magnitude is the confidence, and a threshold dials how much of it a
//! decision needs.
//!
//! The score itself is a floating-point sum that is squashed by `tanh`; whoever
//! computes it hands it in as a [`Binary64`]. Everything around it is decided here.

use crate::binary::{lemma_one_32, Binary32, Binary64, ONE_32, ONE_64, ZERO_64};
use crate::classification;
use crate::classification::{decide, leave_open, Classification, ClassificationView};
use crate::handoff_notes;
use crate::handoff_notes::{inject_note, HandoffNoteConfig, HandoffNotes};
use crate::protocol::{Request, RequestView};
use crate::state::{State, StateValueView, ToolSignals};
use vstd::arithmetic::power2::{lemma_pow2_pos, pow2};
use vstd::prelude::*;
use vstd::string::*;

verus! {

/// Turn depth below which stall signals stay quiet: early turns without a write
/// explore, they do not stall.
pub const STALL_MIN_TURN_DEPTH: u32 = 8;

/// Key under which an ambiguous turn records the target that it falls open to.
pub const DEFAULT_TARGET_KEY: &'static str = "default_target";

/// Key under which a turn records what produced its decision.
pub const DECISION_SOURCE_KEY: &'static str = "decision_source";

/// Key under which the tier of the turn being sent is stamped.
pub const LAST_TIER_KEY: &'static str = "last_tier";

/// The two tiers that a turn can be routed to.
#[derive(Clone, Copy, Debug, PartialEq, Eq, Structural)]
pub enum Tier {
    /// Weak and cheap.
    Efficient,
    /// Strong.
    Capable,
}

/// Which tier to default to when the scorer is not confident.
#[derive(Clone, Copy, Debug, PartialEq, Eq, Structural)]
pub enum PickerMode {
    /// Capable, unless the scorer is confident of efficient.
    CapableFirst,
    /// Efficient, unless the scorer is confident of capable.
    EfficientFirst,
}

/// What produced a decision.
#[derive(Clone, Copy, Debug, PartialEq, Eq, Structural)]
pub enum DecisionSource {
    /// A critical error or a compacted context.
    Override,
    /// Tests passed after recent production, and nothing failed.
    TestsPassed,
    /// The scorer reached the confidence threshold.
    Dimensions,
    /// The scorer did not; whatever stands behind it decides.
    FallOpen,
}

/// A signed score and its magnitude.
#[derive(Clone, Copy, Debug, PartialEq, Eq, Structural)]
pub struct ScoreResult {
    /// Positive leans to capable, negative to efficient.
    pub score: Binary64,
    /// How certain: the magnitude of the score.
    pub confidence: Binary64,
}

/// A quotient, left undivided.
#[derive(Clone, Copy, Debug, PartialEq, Eq, Structural)]
pub struct Ratio {
    /// What is divided.
    pub numerator: u32,
    /// What by; never zero.
    pub denominator: u32,
}

/// A turn's signals on the two axes.
#[derive(Clone, Copy, Debug, PartialEq, Eq, Structural)]
pub struct CodingAgentDimensions {
    /// Largest error severity in the window.
    pub severity: Binary64,
    /// One when a deep turn neither reads, plans, writes nor edits, else zero.
    pub spinning: Binary64,
    /// One when a deep turn reads or plans but neither writes nor edits, else zero.
    pub exploring: Binary64,
    /// Share of the recent tool operations that produced code.
    pub production_intensity: Ratio,
}

/// What picking a tier comes to.
#[derive(Clone, Copy, Debug, PartialEq, Eq, Structural)]
#[allow(inconsistent_fields)]
pub enum PickOutcome {
    /// The signals decide.
    Resolved {
        /// The tier.
        tier: Tier,
        /// What produced it.
        source: DecisionSource,
        /// The score, zero where the scorer did not run.
        score: Binary64,
        /// The scorer's confidence, `None` where the scorer did not run.
        confidence: Option<Binary64>,
    },
    /// The scorer is below the threshold: ask the classifier behind it.
    ConsultClassifier {
        /// The score.
        score: Binary64,
        /// Its magnitude.
        confidence: Binary64,
        /// The tier to fall open to.
        default_tier: Tier,
    },
}

/// The name of a tier's target.
pub open spec fn tier_target(tier: Tier) -> Seq<char> {
    match tier {
        Tier::Capable => "strong"@,
        Tier::Efficient => "weak"@,
    }
}

/// The label of a source.
pub open spec fn source_label(source: DecisionSource) -> Seq<char> {
    match source {
        DecisionSource::Override => "override"@,
        DecisionSource::TestsPassed => "tests_passed"@,
        DecisionSource::Dimensions => "dimensions"@,
        DecisionSource::FallOpen => "fall_open"@,
    }
}

/// The tier that a picker defaults to.
pub open spec fn default_of(mode: PickerMode) -> Tier {
    match mode {
        PickerMode::CapableFirst => Tier::Capable,
        PickerMode::EfficientFirst => Tier::Efficient,
    }
}

impl Tier {
    /// The name of the tier's target.
    pub fn target_name(self) -> (name: &'static str)
        ensures
            name@ == tier_target(self),
    {
        match self {
            Tier::Capable => "strong",
            Tier::Efficient => "weak",
        }
    }
}

impl PickerMode {
    /// The tier to default to.
    pub fn default_tier(self) -> (tier: Tier)
        ensures
            tier == default_of(self),
    {
        match self {
            PickerMode::CapableFirst => Tier::Capable,
            PickerMode::EfficientFirst => Tier::Efficient,
        }
    }
}

impl DecisionSource {
    /// The label that records and statistics use.
    pub fn as_str(self) -> (label: &'static str)
        ensures
            label@ == source_label(self),
    {
        match self {
            DecisionSource::Override => "override",
            DecisionSource::TestsPassed => "tests_passed",
            DecisionSource::Dimensions => "dimensions",
            DecisionSource::FallOpen => "fall_open",
        }
    }
}

/// A turn that neither writes nor edits.
pub open spec fn unproductive(signal: ToolSignals) -> bool {
    signal.recent_write_count == 0 && signal.recent_edit_count == 0
}

/// A turn that reads or plans.
pub open spec fn investigating(signal: ToolSignals) -> bool {
    signal.recent_read_count >= 1 || signal.recent_todowrite_count >= 1
}

/// The operations in a turn's window.
pub open spec fn recent_ops(signal: ToolSignals) -> int {
    signal.recent_write_count + signal.recent_edit_count + signal.recent_read_count
        + signal.recent_todowrite_count
}

/// A deep turn of pure churn: nothing read, planned, written or edited.
pub open spec fn spins(signal: ToolSignals) -> bool {
    &&& signal.turn_depth >= STALL_MIN_TURN_DEPTH
    &&& unproductive(signal)
    &&& !investigating(signal)
}

/// A deep turn that reads or plans but neither writes nor edits.
pub open spec fn explores(signal: ToolSignals) -> bool {
    &&& signal.turn_depth >= STALL_MIN_TURN_DEPTH
    &&& unproductive(signal)
    &&& investigating(signal)
}

/// The share of the operations that wrote or edited.
pub open spec fn production(signal: ToolSignals) -> Ratio {
    share(signal.recent_write_count + signal.recent_edit_count, recent_ops(signal))
}

/// One for a condition that holds, zero for one that does not.
pub open spec fn indicator(holds: bool) -> Binary64 {
    if holds {
        Binary64 { bits: ONE_64 }
    } else {
        Binary64 { bits: ZERO_64 }
    }
}

/// One for a condition that holds, zero for one that does not.
fn indicate(holds: bool) -> (number: Binary64)
    ensures
        number == indicator(holds),
{
    if holds {
        Binary64 { bits: ONE_64 }
    } else {
        Binary64 { bits: ZERO_64 }
    }
}

/// Projects a turn's signals onto the two axes.
pub fn dimensions_from_signal(signal: &ToolSignals) -> (dimensions: CodingAgentDimensions)
    requires
        recent_ops(*signal) <= u32::MAX,
    ensures
        signal.severity.widens_to(dimensions.severity),
        dimensions.spinning == indicator(spins(*signal)),
        dimensions.exploring == indicator(explores(*signal)),
        dimensions.production_intensity == production(*signal),
{
    let recent_ops: u32 = signal.recent_write_count + signal.recent_edit_count
        + signal.recent_read_count + signal.recent_todowrite_count;
    let deep_enough = signal.turn_depth >= STALL_MIN_TURN_DEPTH;
    let no_production = signal.recent_write_count == 0 && signal.recent_edit_count == 0;
    let investigating = signal.recent_read_count >= 1 || signal.recent_todowrite_count >= 1;
    // The two split the turns that do not produce, so at most one of them counts.
    let spinning = deep_enough && no_production && !investigating;
    let exploring = deep_enough && no_production && investigating;
    CodingAgentDimensions {
        severity: signal.severity.widen(),
        spinning: indicate(spinning),
        exploring: indicate(exploring),
        production_intensity: ratio(
            signal.recent_write_count + signal.recent_edit_count,
            recent_ops,
        ),
    }
}

/// A quotient; nothing out of nothing is none.
pub open spec fn share(numerator: int, denominator: int) -> Ratio {
    if denominator == 0 {
        Ratio { numerator: 0, denominator: 1 }
    } else {
        Ratio { numerator: numerator as u32, denominator: denominator as u32 }
    }
}

/// The quotient of two counts; nothing out of nothing is none.
fn ratio(numerator: u32, denominator: u32) -> (quotient: Ratio)
    ensures
        quotient == share(numerator as int, denominator as int),
{
    if denominator == 0 {
        Ratio { numerator: 0, denominator: 1 }
    } else {
        Ratio { numerator, denominator }
    }
}

/// A score with its magnitude.
pub fn score_result(score: Binary64) -> (result: ScoreResult)
    ensures
        result.score == score,
        result.confidence == score.magnitude(),
{
    ScoreResult { score, confidence: score.abs() }
}

/// A hard reason to go strong: a critical error, or a compacted context.
pub open spec fn escalates(signal: ToolSignals) -> bool {
    signal.compacted || signal.severity.ge(Binary32 { bits: ONE_32 })
}

/// A hard reason to go cheap: tests passed, code was written or edited, and
/// nothing failed.
pub open spec fn settles(signal: ToolSignals) -> bool {
    &&& signal.tests_passed
    &&& signal.recent_write_count + signal.recent_edit_count >= 1
    &&& (Binary32 { bits: 0 }).ge(signal.severity)
}

/// The operations that produced code can be counted.
pub open spec fn production_counts(signal: ToolSignals) -> bool {
    signal.tests_passed ==> signal.recent_write_count + signal.recent_edit_count <= u32::MAX
}

/// Whether a turn has a hard reason to go strong, whatever the scorer says.
pub fn should_escalate(signal: &ToolSignals) -> (yes: bool)
    ensures
        yes == escalates(*signal),
{
    // Compaction wipes what the signals had gathered, so a task that had
    // escalated would snap back; a context that overflowed belongs strong.
    if signal.compacted {
        return true;
    }
    signal.severity.at_least(Binary32 { bits: ONE_32 })
}

/// Whether a turn has a hard reason to go cheap.
pub fn should_deescalate(signal: &ToolSignals) -> (yes: bool)
    requires
        production_counts(*signal),
    ensures
        yes == settles(*signal),
{
    signal.tests_passed && (signal.recent_write_count + signal.recent_edit_count) >= 1 && (
    Binary32 { bits: 0 }).at_least(signal.severity)
}

/// Neither hard reason decides the turn, so the scorer has to.
pub open spec fn undecided_by_reasons(signal: ToolSignals) -> bool {
    !escalates(signal) && !settles(signal)
}

/// Whether the counts that picking a tier needs can be added up.
pub fn can_pick(signal: &ToolSignals) -> (yes: bool)
    ensures
        yes == (escalates(*signal) || production_counts(*signal)),
{
    should_escalate(signal) || !signal.tests_passed || signal.recent_write_count <= u32::MAX
        - signal.recent_edit_count
}

/// Whether the scorer has to run for a turn.
pub fn needs_score(signal: &ToolSignals) -> (yes: bool)
    requires
        escalates(*signal) || production_counts(*signal),
    ensures
        yes == undecided_by_reasons(*signal),
{
    !should_escalate(signal) && !should_deescalate(signal)
}

/// What picking comes to. The first rule that fires wins: escalate on a hard
/// reason, de-escalate on a hard reason, follow a score that is confident
/// enough, fall open.
pub open spec fn picked(
    signal: ToolSignals,
    mode: PickerMode,
    confidence_threshold: Binary64,
    score: Binary64,
) -> PickOutcome {
    if escalates(signal) {
        PickOutcome::Resolved {
            tier: Tier::Capable,
            source: DecisionSource::Override,
            score: Binary64 { bits: ZERO_64 },
            confidence: None,
        }
    } else if settles(signal) {
        PickOutcome::Resolved {
            tier: Tier::Efficient,
            source: DecisionSource::TestsPassed,
            score: Binary64 { bits: ZERO_64 },
            confidence: None,
        }
    } else if score.magnitude().ge(confidence_threshold) {
        PickOutcome::Resolved {
            tier: if !score.nan() && score.value() > 0 {
                Tier::Capable
            } else {
                Tier::Efficient
            },
            source: DecisionSource::Dimensions,
            score,
            confidence: Some(score.magnitude()),
        }
    } else {
        PickOutcome::ConsultClassifier {
            score,
            confidence: score.magnitude(),
            default_tier: default_of(mode),
        }
    }
}

/// Decides a turn's tier from its signals and its score.
///
/// The rules run in order, and the first that fires wins: a hard reason to
/// escalate, a hard reason to de-escalate, a score whose confidence reaches the
/// threshold, and last the picker's default, behind a classifier to consult.
/// The two hard reasons skip the scorer, and so have no confidence. Escalation
/// comes first, so a critical error wins on a turn whose tests
/// happened to pass.
pub fn pick_tier(
    signal: &ToolSignals,
    mode: PickerMode,
    confidence_threshold: Binary64,
    score: Binary64,
) -> (outcome: PickOutcome)
    requires
        escalates(*signal) || production_counts(*signal),
    ensures
        outcome == picked(*signal, mode, confidence_threshold, score),
{
    if should_escalate(signal) {
        return resolved(
            Tier::Capable,
            DecisionSource::Override,
            Binary64 { bits: ZERO_64 },
            None,
        );
    }
    if should_deescalate(signal) {
        return resolved(
            Tier::Efficient,
            DecisionSource::TestsPassed,
            Binary64 { bits: ZERO_64 },
            None,
        );
    }
    let scored = score_result(score);
    if scored.confidence.at_least(confidence_threshold) {
        let tier = if scored.score.is_positive() {
            Tier::Capable
        } else {
            Tier::Efficient
        };
        return resolved(tier, DecisionSource::Dimensions, scored.score, Some(scored.confidence));
    }
    PickOutcome::ConsultClassifier {
        score: scored.score,
        confidence: scored.confidence,
        default_tier: mode.default_tier(),
    }
}

/// A decision made without a classifier.
fn resolved(
    tier: Tier,
    source: DecisionSource,
    score: Binary64,
    confidence: Option<Binary64>,
) -> (outcome: PickOutcome)
    ensures
        outcome == (PickOutcome::Resolved { tier, source, score, confidence }),
{
    PickOutcome::Resolved { tier, source, score, confidence }
}

/// Routes turns by their tool-result signals alone, and hands the routed model a
/// note on why where notes are configured.
#[derive(Debug, PartialEq)]
pub struct StageClassifier {
    mode: PickerMode,
    confidence_threshold: Binary64,
    handoff_notes: Option<HandoffNoteConfig>,
}

/// How a stage classifier is configured.
pub struct StageSettings {
    /// The picker.
    pub mode: PickerMode,
    /// The confidence that a score has to reach.
    pub confidence_threshold: Binary64,
    /// The notes, where there are any.
    pub notes: Option<HandoffNotes>,
}

impl View for StageClassifier {
    type V = StageSettings;

    closed spec fn view(&self) -> StageSettings {
        StageSettings {
            mode: self.mode,
            confidence_threshold: self.confidence_threshold,
            notes: match self.handoff_notes {
                Some(notes) => Some(notes@),
                None => None,
            },
        }
    }
}

impl StageSettings {
    /// What picking comes to; a turn without tool activity falls open.
    pub open spec fn outcome(self, signals: Option<ToolSignals>, score: Binary64) -> PickOutcome {
        match signals {
            Some(signal) => picked(signal, self.mode, self.confidence_threshold, score),
            None => PickOutcome::ConsultClassifier {
                score: Binary64 { bits: ZERO_64 },
                confidence: Binary64 { bits: ZERO_64 },
                default_tier: default_of(self.mode),
            },
        }
    }

    /// The note that a resolved turn earns.
    pub open spec fn note(self, tier: Tier, source: DecisionSource) -> Option<Seq<char>> {
        match self.notes {
            Some(notes) => notes.earned(tier_target(tier), Some(source_label(source))),
            None => None,
        }
    }
}

/// A request with a note in it, or as it was where there is none.
pub open spec fn with_note(request: RequestView, note: Option<Seq<char>>) -> RequestView {
    match note {
        Some(text) => RequestView {
            messages: handoff_notes::noted(request.messages, text),
            ..request
        },
        None => request,
    }
}

impl StageClassifier {
    /// A classifier with this picker and this confidence threshold, without notes.
    pub fn new(mode: PickerMode, confidence_threshold: Binary64) -> (classifier: StageClassifier)
        ensures
            classifier@ == (StageSettings { mode, confidence_threshold, notes: None }),
    {
        StageClassifier { mode, confidence_threshold, handoff_notes: None }
    }

    /// The classifier, handing the routed model a note on the turns that earn one.
    pub fn with_handoff_notes(self, config: HandoffNoteConfig) -> (classifier: StageClassifier)
        ensures
            classifier@ == (StageSettings { notes: Some(config@), ..self@ }),
    {
        StageClassifier {
            mode: self.mode,
            confidence_threshold: self.confidence_threshold,
            handoff_notes: Some(config),
        }
    }

    /// Splices in the note for a turn that was resolved to `tier` by `source`.
    /// Nothing is tracked from turn to turn: the note speaks of this turn's
    /// signals alone.
    pub fn apply_handoff_note(&self, request: &mut Request, tier: Tier, source: DecisionSource)
        ensures
            final(request)@ == with_note(old(request)@, self@.note(tier, source)),
    {
        if let Some(config) = &self.handoff_notes {
            if let Some(note) = config.note_for(tier.target_name(), Some(source.as_str())) {
                inject_note(request, note.as_str());
            }
        }
    }

    /// What picking comes to for a turn with these signals, or without any.
    pub fn pick(&self, signals: Option<ToolSignals>, score: Binary64) -> (outcome: PickOutcome)
        requires
            signals matches Some(signal) ==> escalates(signal) || production_counts(signal),
        ensures
            outcome == self@.outcome(signals, score),
    {
        match signals {
            Some(signal) => pick_tier(&signal, self.mode, self.confidence_threshold, score),
            // Nothing to score yet: fall open, as below the threshold.
            None => PickOutcome::ConsultClassifier {
                score: Binary64 { bits: ZERO_64 },
                confidence: Binary64 { bits: ZERO_64 },
                default_tier: self.mode.default_tier(),
            },
        }
    }

    /// Classifies a turn by its signals; `score` is what the scorer makes of them.
    ///
    /// A turn that the signals resolve is decided, its source is recorded, and
    /// its note is spliced in. Any other turn, one without tool activity
    /// included, is ambiguous: the default target is recorded for whatever
    /// decides instead, and the request is left as it is.
    pub fn score(&self, state: &mut State, request: &mut Request, score: Binary64) -> (
        classification: Classification)
        requires
            old(state).tool_signals matches Some(signal) ==> escalates(signal)
                || production_counts(signal),
        ensures
            classification@ == classified(self@.outcome(old(state).tool_signals, score)),
            final(state).tool_signals == old(state).tool_signals,
            final(state).entries() == recorded(
                old(state).entries(),
                self@.outcome(old(state).tool_signals, score),
            ),
            final(request)@ == match self@.outcome(old(state).tool_signals, score) {
                PickOutcome::Resolved { tier, source, .. } => with_note(
                    old(request)@,
                    self@.note(tier, source),
                ),
                PickOutcome::ConsultClassifier { .. } => old(request)@,
            },
    {
        let outcome = self.pick(state.tool_signals, score);
        // Only a turn resolved here is this classifier's to explain.
        if let PickOutcome::Resolved { tier, source, .. } = outcome {
            self.apply_handoff_note(request, tier, source);
        }
        record(state, outcome)
    }
}

/// What an outcome says of a turn.
pub open spec fn classified(outcome: PickOutcome) -> ClassificationView {
    match outcome {
        PickOutcome::Resolved { tier, score, .. } => classification::decided(
            tier_target(tier),
            score.magnitude(),
        ),
        PickOutcome::ConsultClassifier { score, default_tier, .. } => classification::undecided(
            tier_target(default_tier),
            score.magnitude(),
        ),
    }
}

/// What is remembered once an outcome is recorded: what produced it and, for a
/// turn that falls open, the default target.
pub open spec fn recorded(
    entries: Map<Seq<char>, StateValueView>,
    outcome: PickOutcome,
) -> Map<Seq<char>, StateValueView> {
    match outcome {
        PickOutcome::Resolved { source, .. } => entries.insert(
            DECISION_SOURCE_KEY@,
            StateValueView::Text(source_label(source)),
        ),
        PickOutcome::ConsultClassifier { default_tier, .. } => entries.insert(
            DEFAULT_TARGET_KEY@,
            StateValueView::Text(tier_target(default_tier)),
        ).insert(
            DECISION_SOURCE_KEY@,
            StateValueView::Text(source_label(DecisionSource::FallOpen)),
        ),
    }
}

/// Records an outcome, and gives it as a classification.
pub fn record(state: &mut State, outcome: PickOutcome) -> (classification: Classification)
    ensures
        classification@ == classified(outcome),
        final(state).tool_signals == old(state).tool_signals,
        final(state).entries() == recorded(old(state).entries(), outcome),
{
    match outcome {
        PickOutcome::Resolved { tier, source, score: signed, .. } => {
            state.set_text(DECISION_SOURCE_KEY, source.as_str());
            decide(tier.target_name(), signed.abs())
        },
        PickOutcome::ConsultClassifier { score: signed, default_tier, .. } => {
            state.set_text(DEFAULT_TARGET_KEY, default_tier.target_name());
            state.set_text(DECISION_SOURCE_KEY, DecisionSource::FallOpen.as_str());
            leave_open(default_tier.target_name(), signed.abs())
        },
    }
}

/// Different sources have different labels, and different tiers different targets.
pub proof fn law_labels_are_distinct(a: DecisionSource, b: DecisionSource, s: Tier, t: Tier)
    ensures
        source_label(a) == source_label(b) <==> a == b,
        tier_target(s) == tier_target(t) <==> s == t,
{
    reveal_strlit("override");
    reveal_strlit("tests_passed");
    reveal_strlit("dimensions");
    reveal_strlit("fall_open");
    reveal_strlit("strong");
    reveal_strlit("weak");
    assert("override"@.len() == 8 && "tests_passed"@.len() == 12 && "dimensions"@.len() == 10
        && "fall_open"@.len() == 9);
    assert("strong"@.len() == 6 && "weak"@.len() == 4);
}

/// The two keys are different keys.
pub proof fn lemma_keys_differ()
    ensures
        DEFAULT_TARGET_KEY@ != DECISION_SOURCE_KEY@,
{
    reveal_strlit("default_target");
    reveal_strlit("decision_source");
    assert(DEFAULT_TARGET_KEY@.len() != DECISION_SOURCE_KEY@.len());
}

/// A hard reason to escalate wins over everything else: a settled run, the
/// picker's mode, the threshold and the score.
pub proof fn law_escalation_wins(
    signal: ToolSignals,
    mode: PickerMode,
    confidence_threshold: Binary64,
    score: Binary64,
)
    requires
        escalates(signal),
    ensures
        picked(signal, mode, confidence_threshold, score) matches PickOutcome::Resolved {
            tier: Tier::Capable,
            source: DecisionSource::Override,
            ..
        },
{
}

/// A decision has a confidence exactly where the scorer made it, and then the
/// magnitude of its score; a decision made without the scorer has a score of zero.
pub proof fn law_confidence_is_the_scorers(
    signal: ToolSignals,
    mode: PickerMode,
    confidence_threshold: Binary64,
    score: Binary64,
)
    ensures
        match picked(signal, mode, confidence_threshold, score) {
            PickOutcome::Resolved { source, score: reported, confidence, .. } => {
                &&& confidence is Some <==> source == DecisionSource::Dimensions
                &&& confidence is Some <==> undecided_by_reasons(signal)
                &&& confidence is Some ==> confidence == Some(reported.magnitude())
                &&& confidence is None ==> reported == (Binary64 { bits: ZERO_64 })
            },
            PickOutcome::ConsultClassifier { .. } => undecided_by_reasons(signal),
        },
{
}

/// Where a hard reason decides, the score is not looked at.
pub proof fn law_hard_reasons_skip_the_scorer(
    signal: ToolSignals,
    mode: PickerMode,
    confidence_threshold: Binary64,
    score: Binary64,
    other: Binary64,
)
    requires
        !undecided_by_reasons(signal),
    ensures
        picked(signal, mode, confidence_threshold, score) == picked(
            signal,
            mode,
            confidence_threshold,
            other,
        ),
{
}

/// The hard reasons in numbers: short of compaction a severity escalates from one
/// on, and a settled run is one without any severity above zero.
pub proof fn law_hard_reasons_in_numbers(signal: ToolSignals)
    requires
        !signal.severity.nan(),
    ensures
        escalates(signal) <==> signal.compacted || signal.severity.value() >= pow2(149),
        settles(signal) ==> signal.severity.value() <= 0,
        settles(signal) && escalates(signal) ==> signal.compacted,
{
    lemma_one_32();
    lemma_pow2_pos(149);
    assert((Binary32 { bits: 0 }).value() == 0);
}

/// The picker's mode decides only where the signals do not: a resolved turn is
/// resolved the same way in either mode, and one that falls open goes to the
/// mode's default.
pub proof fn law_mode_only_breaks_ties(
    signal: ToolSignals,
    mode: PickerMode,
    other: PickerMode,
    confidence_threshold: Binary64,
    score: Binary64,
)
    ensures
        match picked(signal, mode, confidence_threshold, score) {
            PickOutcome::Resolved { .. } => picked(signal, other, confidence_threshold, score)
                == picked(signal, mode, confidence_threshold, score),
            PickOutcome::ConsultClassifier { default_tier, .. } => default_tier == default_of(mode)
                && picked(signal, other, confidence_threshold, score) is ConsultClassifier,
        },
{
}

/// Lowering the threshold never undoes a decision: what is resolved under a
/// threshold is resolved the same way under every lower one.
pub proof fn law_lower_threshold_keeps_decisions(
    signal: ToolSignals,
    mode: PickerMode,
    low: Binary64,
    high: Binary64,
    score: Binary64,
)
    requires
        high.ge(low),
        picked(signal, mode, high, score) is Resolved,
    ensures
        picked(signal, mode, low, score) == picked(signal, mode, high, score),
{
}

/// Spinning and exploring split the deep turns that produce nothing: at most one
/// of them counts, and neither does beside any production.
pub proof fn law_stalls_are_split(signal: ToolSignals)
    requires
        recent_ops(signal) <= u32::MAX,
    ensures
        !(spins(signal) && explores(signal)),
        spins(signal) || explores(signal) <==> signal.turn_depth >= STALL_MIN_TURN_DEPTH
            && unproductive(signal),
        production(signal).numerator > 0 <==> !unproductive(signal),
        production(signal).numerator <= production(signal).denominator,
{
}

/// Compaction, or a severity of one or more, goes to the capable tier as an
/// override, whatever else the turn is.
pub proof fn law_critical_turns_go_strong(
    signal: ToolSignals,
    mode: PickerMode,
    confidence_threshold: Binary64,
    score: Binary64,
)
    requires
        signal.compacted || !signal.severity.nan() && signal.severity.value() >= pow2(149),
    ensures
        picked(signal, mode, confidence_threshold, score) == (PickOutcome::Resolved {
            tier: Tier::Capable,
            source: DecisionSource::Override,
            score: Binary64 { bits: 0 },
            confidence: None,
        }),
{
    lemma_one_32();
}

/// A turn that is neither compacted nor critical, whose tests passed after at least
/// one write or edit and without any severity above zero, goes to the efficient
/// tier as settled.
pub proof fn law_settled_turns_go_weak(
    signal: ToolSignals,
    mode: PickerMode,
    confidence_threshold: Binary64,
    score: Binary64,
)
    requires
        !signal.compacted,
        signal.tests_passed,
        signal.recent_write_count > 0 || signal.recent_edit_count > 0,
        !signal.severity.nan(),
        signal.severity.value() <= 0,
    ensures
        picked(signal, mode, confidence_threshold, score) == (PickOutcome::Resolved {
            tier: Tier::Efficient,
            source: DecisionSource::TestsPassed,
            score: Binary64 { bits: 0 },
            confidence: None,
        }),
{
    lemma_one_32();
    lemma_pow2_pos(149);
    assert((Binary32 { bits: 0 }).value() == 0);
}

/// Every other turn is the scorer's: where the score is at least the threshold in
/// magnitude, it goes to the capable tier if and only if the score is above zero;
/// where it is not, or either is not a number, the classifier behind is consulted,
/// and the default is capable if and only if the picker puts capable first. Nothing
/// else of the signals bears on it.
pub proof fn law_scorer_decides_the_rest(
    signal: ToolSignals,
    mode: PickerMode,
    confidence_threshold: Binary64,
    score: Binary64,
)
    requires
        !signal.compacted,
        signal.severity.nan() || signal.severity.value() < pow2(149),
        !signal.tests_passed || signal.recent_write_count == 0 && signal.recent_edit_count == 0
            || signal.severity.nan() || signal.severity.value() > 0,
    ensures
        match picked(signal, mode, confidence_threshold, score) {
            PickOutcome::Resolved { tier, source, score: reported, confidence } => {
                &&& !score.nan() && !confidence_threshold.nan()
                &&& score.value() >= confidence_threshold.value() || -score.value()
                    >= confidence_threshold.value()
                &&& source == DecisionSource::Dimensions
                &&& tier == Tier::Capable <==> score.value() > 0
                &&& reported == score
                &&& confidence matches Some(sure) && !sure.nan() && sure.value() >= 0 && (
                sure.value() == score.value() || sure.value() == -score.value())
            },
            PickOutcome::ConsultClassifier { score: reported, confidence, default_tier } => {
                &&& score.nan() || confidence_threshold.nan() || (score.value()
                    < confidence_threshold.value() && -score.value() < confidence_threshold.value())
                &&& reported == score
                &&& confidence.nan() == score.nan()
                &&& confidence.value() >= 0
                &&& confidence.value() == score.value() || confidence.value() == -score.value()
                &&& default_tier == Tier::Capable <==> mode == PickerMode::CapableFirst
            },
        },
{
    lemma_one_32();
    lemma_pow2_pos(149);
    assert((Binary32 { bits: 0 }).value() == 0);
    crate::binary::law_probability_and_magnitude(score);
}

/// Two turns that agree on compaction, severity, passing tests and whether anything
/// was written or edited are picked alike: reads, plans, depth and the counts
/// themselves reach a decision through the score alone.
pub proof fn law_other_signals_do_not_pick(
    signal: ToolSignals,
    other: ToolSignals,
    mode: PickerMode,
    confidence_threshold: Binary64,
    score: Binary64,
)
    requires
        signal.compacted == other.compacted,
        signal.severity == other.severity,
        signal.tests_passed == other.tests_passed,
        (signal.recent_write_count > 0 || signal.recent_edit_count > 0) == (other.recent_write_count
            > 0 || other.recent_edit_count > 0),
    ensures
        picked(signal, mode, confidence_threshold, score) == picked(
            other,
            mode,
            confidence_threshold,
            score,
        ),
{
}

/// The words that decide, in raw terms: what escalates, what settles, what can be
/// counted, and when the scorer has to run.
pub proof fn law_reasons_by_the_signals(signal: ToolSignals)
    ensures
        escalates(signal) <==> signal.compacted || !signal.severity.nan() && signal.severity.value()
            >= pow2(149),
        settles(signal) <==> signal.tests_passed && (signal.recent_write_count > 0
            || signal.recent_edit_count > 0) && !signal.severity.nan() && signal.severity.value()
            <= 0,
        undecided_by_reasons(signal) <==> !escalates(signal) && !settles(signal),
        production_counts(signal) <==> (signal.tests_passed ==> signal.recent_write_count
            + signal.recent_edit_count < 0x1_0000_0000),
{
    lemma_one_32();
    assert((Binary32 { bits: 0 }).value() == 0);
}

/// What stalls and what produces, by the counts alone: from the eighth turn on a
/// turn without a write or an edit spins where it neither reads nor plans, and
/// explores where it does; the share of production is what was written and edited
/// out of all that was done, and none out of nothing.
pub proof fn law_dimensions_by_the_counts(signal: ToolSignals)
    ensures
        recent_ops(signal) == signal.recent_write_count + signal.recent_edit_count
            + signal.recent_read_count + signal.recent_todowrite_count,
        spins(signal) <==> signal.turn_depth >= 8 && recent_ops(signal) == 0,
        explores(signal) <==> signal.turn_depth >= 8 && signal.recent_write_count
            + signal.recent_edit_count == 0 && signal.recent_read_count
            + signal.recent_todowrite_count > 0,
        recent_ops(signal) == 0 ==> production(signal).numerator == 0 && production(
            signal,
        ).denominator == 1,
        0 < recent_ops(signal) <= u32::MAX ==> production(signal).numerator
            == signal.recent_write_count + signal.recent_edit_count && production(
            signal,
        ).denominator == recent_ops(signal),
        indicator(true).value() == pow2(1074),
        indicator(false).value() == 0,
        !indicator(true).nan(),
        !indicator(false).nan(),
{
    crate::binary::lemma_zero_one();
}

/// The names that others read: targets, labels and keys.
pub proof fn law_names(entries: Map<Seq<char>, StateValueView>)
    ensures
        tier_target(Tier::Capable) == "strong"@,
        tier_target(Tier::Efficient) == "weak"@,
        source_label(DecisionSource::Override) == "override"@,
        source_label(DecisionSource::TestsPassed) == "tests_passed"@,
        source_label(DecisionSource::Dimensions) == "dimensions"@,
        source_label(DecisionSource::FallOpen) == "fall_open"@,
        default_of(PickerMode::CapableFirst) == Tier::Capable,
        default_of(PickerMode::EfficientFirst) == Tier::Efficient,
        DEFAULT_TARGET_KEY@ == "default_target"@,
        DECISION_SOURCE_KEY@ == "decision_source"@,
{
}

/// A turn with signals is picked by them under the classifier's own picker and
/// threshold, whatever its notes; one without falls open to the picker's default
/// with no confidence, whatever the score.
pub proof fn law_classifier_picks(
    settings: StageSettings,
    signal: ToolSignals,
    score: Binary64,
)
    ensures
        settings.outcome(Some(signal), score) == picked(
            signal,
            settings.mode,
            settings.confidence_threshold,
            score,
        ),
        settings.outcome(None, score) matches PickOutcome::ConsultClassifier {
            score: reported,
            confidence,
            default_tier,
        } && reported.bits == 0 && confidence.bits == 0 && (default_tier == Tier::Capable
            <==> settings.mode == PickerMode::CapableFirst),
{
}

/// What the classifier says of an outcome: a resolved turn is decisive for its
/// tier's target, an undecided one ambiguous between it and nothing else, each with
/// the magnitude of the score; and the target is strong exactly for capable.
pub proof fn law_outcomes_are_classified(outcome: PickOutcome)
    ensures
        match outcome {
            PickOutcome::Resolved { tier, score, .. } => classified(
                outcome,
            ) matches ClassificationView::Scores(scores) && scores.len() == 1 && scores[0].target
                == (if tier == Tier::Capable {
                "strong"@
            } else {
                "weak"@
            }) && scores[0].confidence == score.magnitude(),
            PickOutcome::ConsultClassifier { score, default_tier, .. } => classified(
                outcome,
            ) matches ClassificationView::Ambiguous(scores) && scores.len() == 1
                && scores[0].target == (if default_tier == Tier::Capable {
                "strong"@
            } else {
                "weak"@
            }) && scores[0].confidence == score.magnitude(),
        },
{
}

/// Recording leaves every other key as it was: the source is always recorded, the
/// default target exactly where the turn falls open.
pub proof fn law_recording(
    entries: Map<Seq<char>, StateValueView>,
    outcome: PickOutcome,
    key: Seq<char>,
)
    ensures
        ({
            let after = recorded(entries, outcome);
            &&& after.contains_key("decision_source"@)
            &&& after["decision_source"@] == StateValueView::Text(
                match outcome {
                    PickOutcome::Resolved { source, .. } => source_label(source),
                    PickOutcome::ConsultClassifier { .. } => "fall_open"@,
                },
            )
            &&& outcome matches PickOutcome::ConsultClassifier { default_tier, .. }
                ==> after.contains_key("default_target"@) && after["default_target"@]
                == StateValueView::Text(
                if default_tier == Tier::Capable {
                    "strong"@
                } else {
                    "weak"@
                },
            )
            &&& key != "decision_source"@ && (outcome is Resolved || key != "default_target"@) ==> (
            after.contains_key(key) <==> entries.contains_key(key)) && (entries.contains_key(key)
                ==> after[key] == entries[key])
        }),
{
    lemma_keys_differ();
}

/// A note goes into the conversation and nowhere else, and a turn without one goes
/// out as it came. A classifier without notes gives none; one with notes gives what
/// its configuration earns for the tier's name and the source's label.
pub proof fn law_notes_ride_in_the_conversation(
    settings: StageSettings,
    request: RequestView,
    note: Seq<char>,
    tier: Tier,
    source: DecisionSource,
)
    ensures
        with_note(request, None) == request,
        with_note(request, Some(note)).messages == handoff_notes::noted(request.messages, note),
        with_note(request, Some(note)).instructions == request.instructions,
        with_note(request, Some(note)).model == request.model,
        with_note(request, Some(note)).response_format == request.response_format,
        with_note(request, Some(note)).output_rest == request.output_rest,
        with_note(request, Some(note)).rest == request.rest,
        with_note(request, Some(note)).raw_request == request.raw_request,
        with_note(request, Some(note)).metadata == request.metadata,
        settings.notes is None ==> settings.note(tier, source) is None,
        settings.notes matches Some(notes) ==> settings.note(tier, source) == notes.earned(
            if tier == Tier::Capable {
                "strong"@
            } else {
                "weak"@
            },
            Some(source_label(source)),
        ),
{
}

} // verus!
