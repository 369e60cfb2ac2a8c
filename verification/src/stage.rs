//! Signal-driven stage routing for coding agents.
//!
//! [`StageRouter`] puts the parts together: the stage classifier scores a turn
//! by its tool results; a turn that it leaves ambiguous goes to the capability
//! judge, where one is configured, and else to the tier that it falls open to.
//! The judge is asked anew on every such turn, and nothing pins its verdict to
//! the session.
//!
//! Whoever drives the router makes the calls: [`StageRouter::begin_turn`] routes
//! the turn or says what to ask the judge, and [`StageRouter::judge_replied`]
//! routes it by the judge's verdict.

use crate::binary::{Binary64, ZERO_64};
use crate::classification;
use crate::classification::{decide, Classification};
use crate::handoff_notes::HandoffNoteConfig;
use crate::llm_class::{
    CapabilityJudge, JudgeConfig, LlmTaskClassifier, PolicySettings, TaskClassifierVerdict,
    TaskSettings,
};
use crate::protocol::{Request, RequestView};
use crate::stage_router;
use crate::stage_router::{
    record, DecisionSource, PickOutcome, PickerMode, StageClassifier, StageSettings, Tier,
    DEFAULT_TARGET_KEY, LAST_TIER_KEY,
};
use crate::state::{State, StateValueView};
use crate::target;
use crate::target::{AlgorithmProblem, LibsyError, LlmTarget, LlmTargetSet};
use crate::text::text_eq;
use crate::tier_prompts;
use crate::tier_prompts::{Event, TierPromptProcessor, TierPromptTexts, TierPrompts};
use vstd::prelude::*;
use vstd::string::*;

verus! {

/// The judge that is asked where the signals are not decisive.
#[derive(Debug, PartialEq)]
pub struct LlmFallback {
    /// The target that the judge is called through; turns are not routed to it.
    pub judge_target: LlmTarget,
    /// The lowest `p_solve` that goes to the weak tier.
    pub threshold: Binary64,
}

/// How a stage router scores turns, and what it hands the model that it picks.
#[derive(Debug, PartialEq)]
pub struct StageRouterConfig {
    /// The tier that a turn falls open to.
    pub mode: PickerMode,
    /// The confidence that a decisive score needs, in `[0, 1]`.
    pub confidence_threshold: Binary64,
    /// How many of the latest tool results the signals are taken from; `None`
    /// for the usual number.
    pub recent_window: Option<usize>,
    /// Notes handed to the model that takes over.
    pub handoff_notes: Option<HandoffNoteConfig>,
    /// System prompts handed to each tier, on every turn that it serves.
    pub tier_prompts: Option<TierPrompts>,
    /// The judge behind the signals.
    pub llm_fallback: Option<LlmFallback>,
}

impl StageRouterConfig {
    /// Signals alone: no notes, no prompts, no judge.
    pub fn new(mode: PickerMode, confidence_threshold: Binary64) -> (config: StageRouterConfig)
        ensures
            config == (StageRouterConfig {
                mode,
                confidence_threshold,
                recent_window: None,
                handoff_notes: None,
                tier_prompts: None,
                llm_fallback: None,
            }),
    {
        StageRouterConfig {
            mode,
            confidence_threshold,
            recent_window: None,
            handoff_notes: None,
            tier_prompts: None,
            llm_fallback: None,
        }
    }
}

/// Closes the cascade: routes an ambiguous turn to the default target that it
/// recorded, so that the router never abstains.
#[derive(Clone, Copy, Debug, PartialEq, Eq, Structural)]
pub struct FallOpen;

impl FallOpen {
    /// The default target that the turn recorded, with no confidence at all. A
    /// turn that recorded none is an error.
    pub fn score(&self, state: &State) -> (outcome: Result<Classification, LibsyError>)
        ensures
            match state.text(DEFAULT_TARGET_KEY@) {
                Some(target) => outcome matches Ok(classification) && classification@
                    == classification::decided(target, Binary64 { bits: ZERO_64 }),
                None => outcome == Err::<Classification, LibsyError>(
                    LibsyError::AlgorithmError { problem: AlgorithmProblem::NoDefaultTarget },
                ),
            },
    {
        match state.text_at(DEFAULT_TARGET_KEY) {
            Some(target) => Ok(decide(target, Binary64 { bits: ZERO_64 })),
            None => Err(LibsyError::AlgorithmError { problem: AlgorithmProblem::NoDefaultTarget }),
        }
    }
}

/// Routes coding-agent turns between a strong and a weak tier.
#[derive(Debug, PartialEq)]
pub struct StageRouter {
    targets: LlmTargetSet,
    recent_window: usize,
    classifier: StageClassifier,
    judge: Option<LlmTaskClassifier>,
    prompts: Option<TierPromptProcessor>,
}

/// How a stage router is put together.
pub struct StageRouterView {
    /// The targets.
    pub targets: Seq<LlmTarget>,
    /// How many tool results the signals are taken from.
    pub recent_window: usize,
    /// The classifier of signals.
    pub classifier: StageSettings,
    /// The judge behind it, where there is one.
    pub judge: Option<TaskSettings>,
    /// The prompts, where there are any.
    pub prompts: Option<TierPromptTexts>,
}

impl View for StageRouter {
    type V = StageRouterView;

    closed spec fn view(&self) -> StageRouterView {
        StageRouterView {
            targets: self.targets.targets@,
            recent_window: self.recent_window,
            classifier: self.classifier@,
            judge: match self.judge {
                Some(judge) => Some(judge@),
                None => None,
            },
            prompts: match self.prompts {
                Some(prompts) => Some(prompts@),
                None => None,
            },
        }
    }
}

/// A turn's next step.
#[derive(Debug, PartialEq)]
pub enum StageStep {
    /// Send the request to this target.
    Route(LlmTarget),
    /// Ask the judge this, and report its verdict.
    AskJudge {
        /// The target that the judge is called through.
        judge_target: LlmTarget,
        /// What to ask.
        question: Request,
    },
}

/// What a turn comes to.
pub enum StepView {
    /// It goes to this tier.
    Route {
        /// The tier.
        tier: Tier,
        /// What settled it.
        source: DecisionSource,
    },
    /// This judge is asked.
    AskJudge(TaskSettings),
}

impl StageRouterView {
    /// Both tiers have a target, and the judge routes between the two.
    pub open spec fn routable(self) -> bool {
        &&& target::first_named(self.targets, "strong"@) is Some
        &&& target::first_named(self.targets, "weak"@) is Some
        &&& self.judge matches Some(judge) ==> judge.policy.efficient == "weak"@
            && judge.policy.capable == "strong"@
    }

    /// The target of a tier.
    pub open spec fn target(self, tier: Tier) -> LlmTarget {
        target::first_named(self.targets, stage_router::tier_target(tier))->0
    }

    /// The note that goes to a turn's model: the one that the turn earns, where
    /// the signals move the turn to another tier than the one before it.
    pub open spec fn note_due(
        self,
        last_tier: Option<Seq<char>>,
        tier: Tier,
        source: DecisionSource,
    ) -> Option<Seq<char>> {
        if source == DecisionSource::FallOpen || last_tier == Some(
            stage_router::tier_target(tier),
        ) {
            None
        } else {
            self.classifier.note(tier, source)
        }
    }

    /// What a turn comes to: the signals route it where they are decisive, else
    /// the judge is asked where there is one, else it falls open.
    pub open spec fn next(self, outcome: PickOutcome) -> StepView {
        match outcome {
            PickOutcome::Resolved { tier, source, .. } => StepView::Route { tier, source },
            PickOutcome::ConsultClassifier { default_tier, .. } => match self.judge {
                Some(judge) => StepView::AskJudge(judge),
                None => StepView::Route { tier: default_tier, source: DecisionSource::FallOpen },
            },
        }
    }

    /// The request that goes out to a tier, with its note and its prompt.
    pub open spec fn outbound(
        self,
        request: RequestView,
        note: Option<Seq<char>>,
        tier: Tier,
    ) -> RequestView {
        let noted = stage_router::with_note(request, note);
        match self.prompts {
            Some(prompts) => tier_prompts::instructed(
                noted,
                prompts.of(stage_router::tier_target(tier)),
            ),
            None => noted,
        }
    }
}

/// What is remembered once a turn is stamped with its tier.
pub open spec fn stamped(entries: Map<Seq<char>, StateValueView>, tier: Tier) -> Map<
    Seq<char>,
    StateValueView,
> {
    entries.insert(LAST_TIER_KEY@, StateValueView::Text(stage_router::tier_target(tier)))
}

/// The tier that the judge's verdict picks.
pub open spec fn judged_tier(verdict: Option<TaskClassifierVerdict>, threshold: Binary64) -> Tier {
    if crate::llm_class::trusts(verdict, threshold) {
        Tier::Efficient
    } else {
        Tier::Capable
    }
}

/// The tier that a classification routes to.
fn tier_of(classification: &Classification) -> (tier: Tier)
    requires
        classification@.target() == Some("strong"@) || classification@.target() == Some("weak"@),
    ensures
        classification@.target() == Some(stage_router::tier_target(tier)),
{
    match classification.target() {
        Some(target) => if text_eq(target, "strong") {
            Tier::Capable
        } else {
            Tier::Efficient
        },
        None => Tier::Capable,
    }
}

impl StageRouter {
    /// Both tiers can be routed to.
    #[verifier::type_invariant]
    spec fn well_formed(self) -> bool {
        self@.routable()
    }

    /// Routes over `targets`, which have to hold the `strong` and the `weak` tier.
    ///
    /// `default_recent_window` is the usual number of tool results, and
    /// `judge_config` what loading the judge's prompt and schema came to; it is
    /// looked at only where a judge is configured. Refused are, in this order, a
    /// confidence threshold outside `[0, 1]`, a missing strong tier, a missing
    /// weak tier, a judge threshold outside `[0, 1]`, and a judge that did not
    /// load.
    pub fn new(
        targets: LlmTargetSet,
        config: StageRouterConfig,
        default_recent_window: usize,
        judge_config: Result<JudgeConfig, LibsyError>,
    ) -> (built: Result<StageRouter, LibsyError>)
        ensures
            if !config.confidence_threshold.probability() {
                built == Err::<StageRouter, LibsyError>(
                    LibsyError::AlgorithmError {
                        problem: AlgorithmProblem::ConfidenceThreshold(
                            config.confidence_threshold,
                        ),
                    },
                )
            } else if target::first_named(targets.targets@, "strong"@) is None {
                built matches Err(LibsyError::TargetNotFound { name }) && name@ == "strong"@
            } else if target::first_named(targets.targets@, "weak"@) is None {
                built matches Err(LibsyError::TargetNotFound { name }) && name@ == "weak"@
            } else if config.llm_fallback is Some
                && !config.llm_fallback->0.threshold.probability() {
                built == Err::<StageRouter, LibsyError>(
                    LibsyError::AlgorithmError {
                        problem: AlgorithmProblem::JudgeThreshold(
                            config.llm_fallback->0.threshold,
                        ),
                    },
                )
            } else if config.llm_fallback is Some && judge_config is Err {
                built == Err::<StageRouter, LibsyError>(judge_config->Err_0)
            } else {
                built matches Ok(router) && router@ == (StageRouterView {
                    targets: targets.targets@,
                    recent_window: match config.recent_window {
                        Some(window) => window,
                        None => default_recent_window,
                    },
                    classifier: StageSettings {
                        mode: config.mode,
                        confidence_threshold: config.confidence_threshold,
                        notes: match config.handoff_notes {
                            Some(notes) => Some(notes@),
                            None => None,
                        },
                    },
                    judge: match config.llm_fallback {
                        Some(fallback) => Some(
                            TaskSettings {
                                judge: CapabilityJudge { config: judge_config->Ok_0 },
                                judge_target: fallback.judge_target,
                                policy: PolicySettings {
                                    efficient: "weak"@,
                                    capable: "strong"@,
                                    threshold: fallback.threshold,
                                },
                            },
                        ),
                        None => None,
                    },
                    prompts: match config.tier_prompts {
                        Some(prompts) => Some(prompts@),
                        None => None,
                    },
                })
            },
    {
        if !config.confidence_threshold.is_probability() {
            return Err(
                LibsyError::AlgorithmError {
                    problem: AlgorithmProblem::ConfidenceThreshold(config.confidence_threshold),
                },
            );
        }
        // Turns are scored onto these two names, so a tier that is missing would
        // only surface as a failed lookup in the middle of a turn.
        let strong = match targets.get_target("strong") {
            Ok(strong) => strong,
            Err(error) => return Err(error),
        };
        let weak = match targets.get_target("weak") {
            Ok(weak) => weak,
            Err(error) => return Err(error),
        };
        proof {
            target::lemma_first_named(targets.targets@, "strong"@);
            target::lemma_first_named(targets.targets@, "weak"@);
        }
        let mut classifier = StageClassifier::new(config.mode, config.confidence_threshold);
        if let Some(notes) = config.handoff_notes {
            classifier = classifier.with_handoff_notes(notes);
        }
        let recent_window: usize = match config.recent_window {
            Some(window) => window,
            None => default_recent_window,
        };
        let judge = match config.llm_fallback {
            // The weak tier is the judge's efficient target, the strong tier its
            // capable one.
            Some(fallback) => match LlmTaskClassifier::new(
                fallback.judge_target,
                weak,
                strong,
                fallback.threshold,
                judge_config,
            ) {
                Ok(judge) => Some(judge),
                Err(error) => return Err(error),
            },
            None => None,
        };
        let prompts = match config.tier_prompts {
            Some(prompts) => Some(TierPromptProcessor::new(prompts)),
            None => None,
        };
        Ok(StageRouter { targets, recent_window, classifier, judge, prompts })
    }

    /// The name of the algorithm.
    pub fn name(&self) -> (name: &'static str)
        ensures
            name@ == "stage_router"@,
    {
        "stage_router"
    }

    /// How many of the latest tool results a turn's signals are taken from.
    pub fn recent_window(&self) -> (window: usize)
        ensures
            window == self@.recent_window,
    {
        self.recent_window
    }

    /// The tier that the judge gives a target that it selected. A router without a
    /// judge gives none.
    pub fn routing_tier(&self, selected_model: &str) -> (tier: Option<&'static str>)
        ensures
            match tier {
                Some(name) => self@.judge matches Some(judge) && judge.policy.tier_of(
                    selected_model@,
                ) == Some(name@),
                None => self@.judge matches Some(judge) ==> judge.policy.tier_of(
                    selected_model@,
                ) is None,
            },
    {
        match &self.judge {
            Some(judge) => judge.routing_tier(selected_model),
            None => None,
        }
    }

    /// Starts a turn whose signals are in `state`; `score` is what the scorer
    /// makes of them.
    ///
    /// A turn that the signals resolve is routed, with the note that it earns
    /// where it changes the tier; the judge is not asked. An ambiguous turn goes
    /// to the judge where there is one, and else to its default tier. A turn that
    /// is routed is stamped with its tier, and its request carries that tier's
    /// prompt.
    pub fn begin_turn(&self, state: &mut State, request: &mut Request, score: Binary64) -> (step:
        StageStep)
        requires
            old(state).tool_signals matches Some(signal) ==> stage_router::escalates(signal)
                || stage_router::production_counts(signal),
        ensures
            final(state).tool_signals == old(state).tool_signals,
            self@.routable(),
            ({
                let outcome = self@.classifier.outcome(old(state).tool_signals, score);
                let entries = stage_router::recorded(old(state).entries(), outcome);
                match self@.next(outcome) {
                    StepView::Route { tier, source } => {
                        &&& step == StageStep::Route(self@.target(tier))
                        &&& final(state).entries() == stamped(entries, tier)
                        &&& final(request)@ == self@.outbound(
                            old(request)@,
                            self@.note_due(old(state).text(LAST_TIER_KEY@), tier, source),
                            tier,
                        )
                    },
                    StepView::AskJudge(judge) => {
                        &&& step matches StageStep::AskJudge { judge_target, question }
                            && judge_target == judge.judge_target && question@
                            == judge.judge.question(old(request)@)
                        &&& final(state).entries() == entries
                        &&& final(request)@ == old(request)@
                    },
                }
            }),
    {
        proof {
            use_type_invariant(self);
        }
        let outcome = self.classifier.pick(state.tool_signals, score);
        if let PickOutcome::Resolved { tier, source, .. } = outcome {
            let handover = match state.text_at(LAST_TIER_KEY) {
                Some(last) => !text_eq(last, tier.target_name()),
                None => true,
            };
            if handover {
                self.classifier.apply_handoff_note(request, tier, source);
            }
        }
        let mut classification = record(state, outcome);
        if let Classification::Ambiguous(_) = classification {
            if let Some(judge) = &self.judge {
                return StageStep::AskJudge {
                    judge_target: judge.judge_target().copy(),
                    question: judge.question(request),
                };
            }
            proof {
                stage_router::lemma_keys_differ();
            }
            if let Ok(fallen) = FallOpen.score(state) {
                classification = fallen;
            }
        }
        let ghost settled = match outcome {
            PickOutcome::Resolved { tier, .. } => tier,
            PickOutcome::ConsultClassifier { default_tier, .. } => default_tier,
        };
        assert(classification@.target() == Some(stage_router::tier_target(settled)));
        let tier = tier_of(&classification);
        proof {
            stage_router::law_labels_are_distinct(
                DecisionSource::Override,
                DecisionSource::Override,
                tier,
                settled,
            );
        }
        StageStep::Route(self.route(state, request, tier))
    }

    /// Routes the turn that the judge was asked about by the verdict that came
    /// back, `None` where the judge could not be reached or understood.
    pub fn judge_replied(
        &self,
        state: &mut State,
        request: &mut Request,
        verdict: Option<&TaskClassifierVerdict>,
    ) -> (target: LlmTarget)
        requires
            self@.judge is Some,
        ensures
            final(state).tool_signals == old(state).tool_signals,
            self@.routable(),
            ({
                let tier = judged_tier(
                    match verdict {
                        Some(verdict) => Some(*verdict),
                        None => None,
                    },
                    self@.judge->0.policy.threshold,
                );
                &&& target == self@.target(tier)
                &&& final(state).entries() == stamped(old(state).entries(), tier)
                &&& final(request)@ == self@.outbound(old(request)@, None, tier)
            }),
    {
        proof {
            use_type_invariant(self);
        }
        let tier = match &self.judge {
            Some(judge) => {
                let classification = judge.score(verdict);
                tier_of(&classification)
            },
            None => Tier::Capable,
        };
        self.route(state, request, tier)
    }

    /// Stamps the tier that the cascade settled on, and hands the request that
    /// tier's prompt.
    fn route(&self, state: &mut State, request: &mut Request, tier: Tier) -> (target: LlmTarget)
        requires
            self@.routable(),
        ensures
            target == self@.target(tier),
            final(state).tool_signals == old(state).tool_signals,
            final(state).entries() == stamped(old(state).entries(), tier),
            final(request)@ == self@.outbound(old(request)@, None, tier),
    {
        state.set_text(LAST_TIER_KEY, tier.target_name());
        if let Some(prompts) = &self.prompts {
            prompts.process(state, Event::ModelRequest, request);
        }
        match self.targets.get_target(tier.target_name()) {
            Ok(target) => target,
            Err(_) => {
                // Either tier has a target.
                assert(false);
                LlmTarget { semantic_name: tier.target_name().to_owned(), llm_client: None }
            },
        }
    }
}

/// A decisive signal never reaches the judge: the turn goes where the signals
/// send it, judge or no judge.
pub proof fn law_decisive_signals_skip_the_judge(router: StageRouterView, outcome: PickOutcome)
    requires
        outcome is Resolved,
    ensures
        router.next(outcome) is Route,
        forall|judge: Option<TaskSettings>|
            (#[trigger] (StageRouterView { judge, ..router }).next(outcome)) == router.next(outcome),
{
}

/// An undecided turn asks the judge every time there is one, whatever earlier
/// turns came to.
pub proof fn law_undecided_turns_ask_the_judge(
    router: StageRouterView,
    judge: TaskSettings,
    outcome: PickOutcome,
)
    requires
        router.judge == Some(judge),
        outcome is ConsultClassifier,
    ensures
        router.next(outcome) == StepView::AskJudge(judge),
{
}

/// The router never abstains: either tier has a target of its own name among the
/// router's targets, so a routed turn always has somewhere to go.
pub proof fn law_every_tier_has_a_target(router: StageRouterView, tier: Tier)
    requires
        router.routable(),
    ensures
        router.targets.contains(router.target(tier)),
        router.target(tier).semantic_name@ == stage_router::tier_target(tier),
{
    target::lemma_first_named(router.targets, stage_router::tier_target(tier));
}

/// A note does not persist: once a turn went to a tier, the next turn that goes
/// to the same tier carries none.
pub proof fn law_no_note_without_a_change(
    router: StageRouterView,
    entries: Map<Seq<char>, StateValueView>,
    before: Tier,
    tier: Tier,
    source: DecisionSource,
)
    ensures
        stamped(entries, before).contains_key(LAST_TIER_KEY@),
        stamped(entries, before)[LAST_TIER_KEY@] == StateValueView::Text(
            stage_router::tier_target(before),
        ),
        router.note_due(Some(stage_router::tier_target(before)), tier, source) is Some ==> tier
            != before,
{
}

/// The prompt follows the tier, however the tier was chosen and whether or not
/// there is a note.
pub proof fn law_prompt_follows_the_tier(
    router: StageRouterView,
    request: RequestView,
    note: Option<Seq<char>>,
    tier: Tier,
)
    ensures
        router.outbound(request, note, tier).instructions == match router.prompts {
            Some(prompts) => tier_prompts::instructed(
                request,
                prompts.of(stage_router::tier_target(tier)),
            ).instructions,
            None => request.instructions,
        },
{
}

/// Where a turn goes: a resolved turn to the tier that it is resolved to; an
/// undecided turn to the judge where there is one, and else to the very tier that
/// it defaults to.
pub proof fn law_turns_go_where_they_are_picked(
    router: StageRouterView,
    tier: Tier,
    source: DecisionSource,
    score: Binary64,
    sure: Option<Binary64>,
    confidence: Binary64,
)
    ensures
        router.next(PickOutcome::Resolved { tier, source, score, confidence: sure })
            == (StepView::Route { tier, source }),
        router.judge is None ==> router.next(
            PickOutcome::ConsultClassifier { score, confidence, default_tier: tier },
        ) == (StepView::Route { tier, source: DecisionSource::FallOpen }),
        router.judge matches Some(judge) ==> router.next(
            PickOutcome::ConsultClassifier { score, confidence, default_tier: tier },
        ) == StepView::AskJudge(judge),
{
}

/// The configured default stands: on a router without a judge, a turn that the
/// signals leave undecided goes to a target named strong where the picker puts
/// capable first, and to one named weak where it puts efficient first.
pub proof fn law_undecided_turns_fall_open_to_the_mode(
    router: StageRouterView,
    signals: Option<crate::state::ToolSignals>,
    score: Binary64,
)
    requires
        router.routable(),
        router.judge is None,
        router.classifier.outcome(signals, score) is ConsultClassifier,
    ensures
        router.next(router.classifier.outcome(signals, score)) matches StepView::Route {
            tier,
            source,
        } && source == DecisionSource::FallOpen && router.target(tier).semantic_name@ == (
        match router.classifier.mode {
            PickerMode::CapableFirst => "strong"@,
            PickerMode::EfficientFirst => "weak"@,
        }) && router.targets.contains(router.target(tier)),
{
    target::lemma_first_named(router.targets, "strong"@);
    target::lemma_first_named(router.targets, "weak"@);
}

/// A router can route exactly when it has both tiers' targets and its judge, where
/// it has one, tells them apart by their names.
pub proof fn law_routable(router: StageRouterView)
    ensures
        router.routable() <==> {
            &&& exists|i: int|
                0 <= i < router.targets.len() && (#[trigger] router.targets[i]).semantic_name@
                    == "strong"@
            &&& exists|i: int|
                0 <= i < router.targets.len() && (#[trigger] router.targets[i]).semantic_name@
                    == "weak"@
            &&& router.judge is Some ==> router.judge->0.policy.efficient == "weak"@
                && router.judge->0.policy.capable == "strong"@
        },
{
    lemma_named(router.targets, "strong"@);
    lemma_named(router.targets, "weak"@);
}

/// A target of a name is found exactly where one has it.
proof fn lemma_named(targets: Seq<LlmTarget>, name: Seq<char>)
    ensures
        target::first_named(targets, name) is Some <==> exists|i: int|
            0 <= i < targets.len() && (#[trigger] targets[i]).semantic_name@ == name,
    decreases targets.len(),
{
    if targets.len() > 0 {
        let rest = targets.drop_first();
        lemma_named(rest, name);
        assert(forall|i: int| 0 <= i < rest.len() ==> rest[i] == targets[i + 1]);
        if targets[0].semantic_name@ != name {
            if exists|i: int|
                0 <= i < targets.len() && (#[trigger] targets[i]).semantic_name@ == name {
                let i = choose|i: int|
                    0 <= i < targets.len() && (#[trigger] targets[i]).semantic_name@ == name;
                assert(rest[i - 1].semantic_name@ == name);
            }
            if exists|i: int| 0 <= i < rest.len() && (#[trigger] rest[i]).semantic_name@ == name {
                let i = choose|i: int|
                    0 <= i < rest.len() && (#[trigger] rest[i]).semantic_name@ == name;
                assert(targets[i + 1].semantic_name@ == name);
            }
        }
    }
}

/// The note of a routed turn: none on a turn that fell open or stays on its tier,
/// and on any other what the classifier's notes earn, which for a turn without a
/// tier before it is every turn that the signals decided.
pub proof fn law_notes_on_a_change(
    router: StageRouterView,
    last: Seq<char>,
    tier: Tier,
    source: DecisionSource,
)
    ensures
        router.note_due(Some(last), tier, DecisionSource::FallOpen) is None,
        router.note_due(None, tier, DecisionSource::FallOpen) is None,
        source != DecisionSource::FallOpen ==> router.note_due(None, tier, source)
            == router.classifier.note(tier, source),
        source != DecisionSource::FallOpen && last == (if tier == Tier::Capable {
            "strong"@
        } else {
            "weak"@
        }) ==> router.note_due(Some(last), tier, source) is None,
        source != DecisionSource::FallOpen && last != (if tier == Tier::Capable {
            "strong"@
        } else {
            "weak"@
        }) ==> router.note_due(Some(last), tier, source) == router.classifier.note(tier, source),
{
}

/// What goes out: the conversation with its note, the instructions with the tier's
/// own prompt, and the rest of the request as it came.
pub proof fn law_outbound_requests(
    router: StageRouterView,
    request: RequestView,
    note: Option<Seq<char>>,
    tier: Tier,
)
    ensures
        ({
            let out = router.outbound(request, note, tier);
            let prompt = match router.prompts {
                Some(prompts) => if tier == Tier::Capable {
                    prompts.strong
                } else {
                    prompts.weak
                },
                None => None,
            };
            &&& out.messages == (match note {
                Some(text) => crate::handoff_notes::noted(request.messages, text),
                None => request.messages,
            })
            &&& prompt is None ==> out.instructions == request.instructions
            &&& prompt matches Some(text) ==> out.instructions.len() == request.instructions.len()
                + 1 && out.instructions.drop_last() == request.instructions
                && out.instructions.last().role == crate::protocol::Role::System
                && out.instructions.last().content == seq![
                crate::protocol::BlockView::Text { text },
            ]
            &&& out.model == request.model
            &&& out.response_format == request.response_format
            &&& out.output_rest == request.output_rest
            &&& out.rest == request.rest
            &&& out.raw_request == request.raw_request
            &&& out.metadata == request.metadata
        }),
{
    crate::handoff_notes::lemma_tier_names();
    let out = router.outbound(request, note, tier);
    if out.instructions.len() > request.instructions.len() {
        assert(out.instructions.drop_last() =~= request.instructions);
    }
}

/// Stamping a turn tells its tier's name under one key and leaves every other key.
pub proof fn law_stamping(
    entries: Map<Seq<char>, StateValueView>,
    tier: Tier,
    key: Seq<char>,
)
    ensures
        ({
            let after = stamped(entries, tier);
            &&& after.contains_key(LAST_TIER_KEY@)
            &&& after[LAST_TIER_KEY@] == StateValueView::Text(
                if tier == Tier::Capable {
                    "strong"@
                } else {
                    "weak"@
                },
            )
            &&& key != LAST_TIER_KEY@ ==> (after.contains_key(key) <==> entries.contains_key(key))
                && (entries.contains_key(key) ==> after[key] == entries[key])
        }),
{
}

/// The judge sends a turn to the weak tier exactly on a verdict whose two numbers
/// are probabilities, that does not abstain, and whose `p_solve` is at least the
/// threshold; on any other, and on none, to the strong tier.
pub proof fn law_judged_tiers(verdict: TaskClassifierVerdict, threshold: Binary64)
    ensures
        judged_tier(None, threshold) == Tier::Capable,
        judged_tier(Some(verdict), threshold) == Tier::Efficient <==> {
            &&& verdict.p_solve.probability()
            &&& verdict.confidence.probability()
            &&& !verdict.abstain
            &&& !threshold.nan()
            &&& verdict.p_solve.value() >= threshold.value()
        },
{
}

/// A tier's target is the first of its name, whatever other targets there are and
/// whatever comes after it.
pub proof fn law_first_target_of_a_tier(router: StageRouterView, tier: Tier, at: int)
    requires
        0 <= at < router.targets.len(),
        router.targets[at].semantic_name@ == (if tier == Tier::Capable {
            "strong"@
        } else {
            "weak"@
        }),
        forall|i: int|
            0 <= i < at ==> (#[trigger] router.targets[i]).semantic_name@
                != router.targets[at].semantic_name@,
    ensures
        router.target(tier) == router.targets[at],
{
    target::law_lookup(router.targets, router.targets[at].semantic_name@, at);
}

/// Each thing that a turn remembers has a key of its own.
pub proof fn law_keys_are_distinct()
    ensures
        LAST_TIER_KEY@ == "last_tier"@,
        LAST_TIER_KEY@ != DEFAULT_TARGET_KEY@,
        LAST_TIER_KEY@ != stage_router::DECISION_SOURCE_KEY@,
        LAST_TIER_KEY@ != crate::escalation::CANDIDATE_KEY@,
{
    reveal_strlit("last_tier");
    reveal_strlit("default_target");
    reveal_strlit("decision_source");
    reveal_strlit("escalation.candidate");
    assert(LAST_TIER_KEY@.len() == 9 && DEFAULT_TARGET_KEY@.len() == 14);
    assert(stage_router::DECISION_SOURCE_KEY@.len() == 15);
    assert(crate::escalation::CANDIDATE_KEY@.len() == 20);
}

} // verus!
