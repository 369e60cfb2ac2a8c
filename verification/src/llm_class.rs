//! Capability routing by a judge model.
//!
//! A judge reads the request and reports how likely the efficient model is to
//! solve it. Where that reaches the threshold the efficient target is chosen.
//! Judge output is not to be trusted: a verdict that is missing, invalid or
//! abstained always selects the capable target.

use crate::binary::{Binary64, ONE_64};
use crate::classification;
use crate::classification::{decide, Classification, ClassificationView};
use crate::protocol;
use crate::protocol::{
    copy_text, copy_value, LlmRequest, Message, MessageView, OutputParams, Request, RequestView, Role,
};
use crate::target::{AlgorithmProblem, LibsyError, LlmTarget};
use crate::text::text_eq;
use serde_json::Value;
use vstd::prelude::*;
use vstd::string::*;

verus! {

/// How many of the latest messages the judge is shown.
pub const RECENT_MESSAGE_WINDOW: usize = 5;

/// What a judge is asked with.
#[derive(Debug, PartialEq)]
pub struct JudgeConfig {
    /// The judge's own instructions.
    pub system_prompt: String,
    /// The schema that its verdict has to follow.
    pub response_schema: Option<Value>,
}

/// A judge's verdict on a task. Only the two probabilities and the abstention
/// bear on routing.
#[derive(Debug, PartialEq)]
pub struct TaskClassifierVerdict {
    /// The route that the judge would take.
    pub recommended_route: String,
    /// How likely the efficient model is to solve the task.
    pub p_solve: Binary64,
    /// How sure the judge is.
    pub confidence: Binary64,
    /// Whether the judge declines to say.
    pub abstain: bool,
    /// Where the task lies.
    pub capability_boundary: String,
    /// The rule that decided.
    pub primary_rule: String,
    /// What the task turns on.
    pub crux: String,
}

impl TaskClassifierVerdict {
    /// Both probabilities are probabilities.
    pub open spec fn valid(self) -> bool {
        self.p_solve.probability() && self.confidence.probability()
    }

    /// Whether both probabilities lie in `[0, 1]`; not-a-number and the
    /// infinities do not.
    pub fn is_valid(&self) -> (yes: bool)
        ensures
            yes == self.valid(),
    {
        self.p_solve.is_probability() && self.confidence.is_probability()
    }
}

/// A role that instructs.
pub open spec fn instructs(role: Role) -> bool {
    role == Role::System || role == Role::Developer
}

/// Whether a role instructs.
pub fn is_instruction(role: Role) -> (yes: bool)
    ensures
        yes == instructs(role),
{
    role == Role::System || role == Role::Developer
}

/// The messages that instruct, or those that do not, in order.
pub open spec fn of_kind(messages: Seq<MessageView>, instructing: bool) -> Seq<MessageView>
    decreases messages.len(),
{
    if messages.len() == 0 {
        seq![]
    } else if instructs(messages.last().role) == instructing {
        of_kind(messages.drop_last(), instructing).push(messages.last())
    } else {
        of_kind(messages.drop_last(), instructing)
    }
}

/// The instructions in a conversation.
pub open spec fn instructions_in(messages: Seq<MessageView>) -> Seq<MessageView> {
    of_kind(messages, true)
}

/// The dialogue in a conversation: what does not instruct.
pub open spec fn dialogue_in(messages: Seq<MessageView>) -> Seq<MessageView> {
    of_kind(messages, false)
}

/// How many messages come before the user's first, all where there is none.
pub open spec fn before_user(messages: Seq<MessageView>) -> int
    decreases messages.len(),
{
    if messages.len() == 0 || messages[0].role == Role::User {
        0
    } else {
        1 + before_user(messages.drop_first())
    }
}

/// The user's last message.
pub open spec fn last_user(messages: Seq<MessageView>) -> Option<MessageView>
    decreases messages.len(),
{
    if messages.len() == 0 {
        None
    } else if messages.last().role == Role::User {
        Some(messages.last())
    } else {
        last_user(messages.drop_last())
    }
}

/// The last `count` messages, all where there are fewer.
pub open spec fn latest(messages: Seq<MessageView>, count: nat) -> Seq<MessageView> {
    if messages.len() <= count {
        messages
    } else {
        messages.skip(messages.len() - count)
    }
}

/// What the judge is shown of the dialogue after the task: its last `window`
/// messages, or the user's last word where the window is closed.
pub open spec fn recent(dialogue: Seq<MessageView>, window: nat) -> Seq<MessageView> {
    if window == 0 {
        match last_user(dialogue) {
            Some(message) => seq![message],
            None => seq![],
        }
    } else {
        latest(dialogue, window)
    }
}

/// A conversation cut down for a judge: every instruction, then the task, which
/// is the user's first message, then what is recent of the dialogue after it.
pub open spec fn trimmed(messages: Seq<MessageView>, window: nat) -> Seq<MessageView> {
    let task = before_user(messages);
    if task >= messages.len() {
        instructions_in(messages)
    } else {
        instructions_in(messages).push(messages[task]) + recent(
            dialogue_in(messages.skip(task + 1)),
            window,
        )
    }
}

/// The first user message is where it is: before it no user speaks.
proof fn lemma_before_user(messages: Seq<MessageView>, at: int)
    requires
        0 <= at <= messages.len(),
        forall|i: int| 0 <= i < at ==> (#[trigger] messages[i]).role != Role::User,
        at < messages.len() ==> messages[at].role == Role::User,
    ensures
        before_user(messages) == at,
    decreases messages.len(),
{
    if at > 0 {
        lemma_before_user(messages.drop_first(), at - 1);
    }
}

/// One more message extends its kind, and leaves the other kind as it is.
pub proof fn lemma_kind_step(messages: Seq<MessageView>, instructing: bool, from: int, to: int)
    requires
        0 <= from <= to < messages.len(),
    ensures
        of_kind(messages.subrange(from, to + 1), instructing) == if instructs(messages[to].role)
            == instructing {
            of_kind(messages.subrange(from, to), instructing).push(messages[to])
        } else {
            of_kind(messages.subrange(from, to), instructing)
        },
{
    let longer = messages.subrange(from, to + 1);
    assert(longer.drop_last() =~= messages.subrange(from, to));
    assert(longer.last() == messages[to]);
}

/// Keeps the client's instructions, the task, and the latest of the dialogue.
pub fn trim_messages(messages: &[Message], recent_turn_window: usize) -> (out: Vec<Message>)
    ensures
        protocol::messages_view(out@) == trimmed(
            protocol::messages_view(messages@),
            recent_turn_window as nat,
        ),
{
    let ghost whole = protocol::messages_view(messages@);
    let mut out: Vec<Message> = Vec::new();
    let mut task: Option<usize> = None;
    let mut i: usize = 0;
    proof {
        assert(protocol::messages_view(out@) =~= of_kind(whole.subrange(0, 0), true));
    }
    while i < messages.len()
        invariant
            i <= messages@.len(),
            whole == protocol::messages_view(messages@),
            protocol::messages_view(out@) == of_kind(whole.subrange(0, i as int), true),
            match task {
                Some(at) => at < i && whole[at as int].role == Role::User && forall|j: int|
                    0 <= j < at ==> (#[trigger] whole[j]).role != Role::User,
                None => forall|j: int| 0 <= j < i ==> (#[trigger] whole[j]).role != Role::User,
            },
        decreases messages@.len() - i,
    {
        let message = &messages[i];
        proof {
            lemma_kind_step(whole, true, 0, i as int);
            assert(whole[i as int] == message@);
        }
        if is_instruction(message.role) {
            let ghost before = out@;
            out.push(message.copy());
            proof {
                assert(protocol::messages_view(out@) =~= protocol::messages_view(before).push(
                    message@,
                ));
            }
        } else if message.role == Role::User && task.is_none() {
            task = Some(i);
        }
        i += 1;
    }
    proof {
        assert(whole.subrange(0, whole.len() as int) =~= whole);
        lemma_before_user(
            whole,
            match task {
                Some(at) => at as int,
                None => whole.len() as int,
            },
        );
    }
    let at = match task {
        Some(at) => at,
        None => {
            return out;
        },
    };
    let ghost system = out@;
    out.push(messages[at].copy());
    proof {
        assert(protocol::messages_view(out@) =~= protocol::messages_view(system).push(
            whole[at as int],
        ));
    }
    let mut tail = dialogue_from(messages, at + 1);
    let ghost dialogue = protocol::messages_view(tail@);
    let ghost led = out@;
    if recent_turn_window == 0 {
        if let Some(last) = find_last_user(&tail) {
            out.push(tail[last].copy());
            proof {
                assert(protocol::messages_view(out@) =~= protocol::messages_view(led) + seq![
                    dialogue[last as int],
                ]);
            }
        } else {
            proof {
                assert(protocol::messages_view(out@) =~= protocol::messages_view(led) + seq![]);
            }
        }
        return out;
    }
    if tail.len() > recent_turn_window {
        let start: usize = tail.len() - recent_turn_window;
        tail = tail.split_off(start);
    }
    proof {
        assert(protocol::messages_view(tail@) =~= latest(dialogue, recent_turn_window as nat));
    }
    let ghost kept = tail@;
    out.append(&mut tail);
    proof {
        assert(protocol::messages_view(out@) =~= protocol::messages_view(led)
            + protocol::messages_view(kept));
    }
    out
}

/// Copies of the messages from `from` on that do not instruct.
fn dialogue_from(messages: &[Message], from: usize) -> (dialogue: Vec<Message>)
    requires
        from <= messages@.len(),
    ensures
        protocol::messages_view(dialogue@) == dialogue_in(
            protocol::messages_view(messages@).skip(from as int),
        ),
{
    let ghost whole = protocol::messages_view(messages@);
    let mut dialogue: Vec<Message> = Vec::new();
    let mut i: usize = from;
    proof {
        assert(protocol::messages_view(dialogue@) =~= of_kind(
            whole.subrange(from as int, from as int),
            false,
        ));
    }
    while i < messages.len()
        invariant
            from <= i <= messages@.len(),
            whole == protocol::messages_view(messages@),
            protocol::messages_view(dialogue@) == of_kind(
                whole.subrange(from as int, i as int),
                false,
            ),
        decreases messages@.len() - i,
    {
        let message = &messages[i];
        proof {
            lemma_kind_step(whole, false, from as int, i as int);
            assert(whole[i as int] == message@);
        }
        if !is_instruction(message.role) {
            let ghost before = dialogue@;
            dialogue.push(message.copy());
            proof {
                assert(protocol::messages_view(dialogue@) =~= protocol::messages_view(before).push(
                    message@,
                ));
            }
        }
        i += 1;
    }
    proof {
        assert(whole.subrange(from as int, whole.len() as int) =~= whole.skip(from as int));
    }
    dialogue
}

/// Where the user's last message stands.
pub fn find_last_user(messages: &Vec<Message>) -> (found: Option<usize>)
    ensures
        match found {
            Some(at) => at < messages@.len() && last_user(protocol::messages_view(messages@))
                == Some(messages@[at as int]@),
            None => last_user(protocol::messages_view(messages@)) is None,
        },
{
    let ghost whole = protocol::messages_view(messages@);
    let mut end: usize = messages.len();
    proof {
        assert(whole.take(end as int) =~= whole);
    }
    while end > 0
        invariant
            end <= messages@.len(),
            whole == protocol::messages_view(messages@),
            last_user(whole.take(end as int)) == last_user(whole),
        decreases end,
    {
        proof {
            assert(whole.take(end as int).last() == messages@[end - 1]@);
            assert(whole.take(end as int).drop_last() =~= whole.take(end - 1));
        }
        if messages[end - 1].role == Role::User {
            return Some(end - 1);
        }
        end -= 1;
    }
    None
}

/// What a judge is sent: the judge's own conversation and schema, under the
/// model and the metadata of the request that it judges, and nothing else of it.
pub open spec fn judge_request(
    request: RequestView,
    messages: Seq<MessageView>,
    schema: Option<Value>,
) -> RequestView {
    RequestView {
        model: request.model,
        instructions: seq![],
        messages,
        response_format: schema,
        output_rest: None,
        rest: None,
        raw_request: None,
        metadata: request.metadata,
    }
}

impl JudgeConfig {
    /// Frames a conversation as a request to the judge.
    pub fn frame(&self, request: &Request, messages: Vec<Message>) -> (framed: Request)
        ensures
            framed@ == judge_request(
                request@,
                protocol::messages_view(messages@),
                self.response_schema,
            ),
    {
        let framed = Request {
            llm_request: LlmRequest {
                model: copy_text(&request.llm_request.model),
                instructions: Vec::new(),
                messages,
                output: OutputParams {
                    response_format: copy_value(&self.response_schema),
                    rest: None,
                },
                rest: None,
            },
            raw_request: None,
            metadata: match &request.metadata {
                Some(metadata) => Some(metadata.copy()),
                None => None,
            },
        };
        proof {
            assert(framed@.instructions =~= seq![]);
        }
        framed
    }
}

/// Asks a judge whether the efficient model can solve a task.
#[derive(Debug, PartialEq)]
pub struct CapabilityJudge {
    /// What the judge is asked with.
    pub config: JudgeConfig,
}

impl CapabilityJudge {
    /// What the judge is sent for a request: its own prompt first, then the
    /// client's instructions, the task and the latest of the dialogue.
    pub open spec fn question(self, request: RequestView) -> RequestView {
        judge_request(
            request,
            seq![protocol::text_message(Role::System, self.config.system_prompt@)] + trimmed(
                request.messages,
                RECENT_MESSAGE_WINDOW as nat,
            ),
            self.config.response_schema,
        )
    }

    /// The request that asks the judge about `request`.
    pub fn build_request(&self, request: &Request) -> (asked: Request)
        ensures
            asked@ == self.question(request@),
    {
        let mut messages = trim_messages(
            request.llm_request.messages.as_slice(),
            RECENT_MESSAGE_WINDOW,
        );
        let ghost shown = messages@;
        messages.insert(0, Message::text(Role::System, self.config.system_prompt.as_str()));
        proof {
            assert(protocol::messages_view(messages@) =~= seq![
                protocol::text_message(Role::System, self.config.system_prompt@),
            ] + protocol::messages_view(shown));
        }
        self.config.frame(request, messages)
    }
}

/// Turns a verdict into a target.
#[derive(Debug, PartialEq)]
pub struct TaskClassifierPolicy {
    efficient_target: String,
    capable_target: String,
    threshold: Binary64,
}

/// What a policy routes between, and where it draws the line.
pub struct PolicySettings {
    /// The efficient target.
    pub efficient: Seq<char>,
    /// The capable target.
    pub capable: Seq<char>,
    /// The lowest `p_solve` that still goes to the efficient target.
    pub threshold: Binary64,
}

impl View for TaskClassifierPolicy {
    type V = PolicySettings;

    closed spec fn view(&self) -> PolicySettings {
        PolicySettings {
            efficient: self.efficient_target@,
            capable: self.capable_target@,
            threshold: self.threshold,
        }
    }
}

/// A verdict that trusts the efficient model with the task.
pub open spec fn trusts(verdict: Option<TaskClassifierVerdict>, threshold: Binary64) -> bool {
    match verdict {
        Some(verdict) => {
            &&& verdict.valid()
            &&& !verdict.abstain
            &&& verdict.p_solve.ge(threshold)
        },
        None => false,
    }
}

impl PolicySettings {
    /// The target that a verdict selects.
    pub open spec fn selects(self, verdict: Option<TaskClassifierVerdict>) -> Seq<char> {
        if trusts(verdict, self.threshold) {
            self.efficient
        } else {
            self.capable
        }
    }

    /// What the policy says of a turn.
    pub open spec fn classification(
        self,
        verdict: Option<TaskClassifierVerdict>,
    ) -> ClassificationView {
        classification::decided(self.selects(verdict), Binary64 { bits: ONE_64 })
    }

    /// The tier of a target, where the two targets can be told apart.
    pub open spec fn tier_of(self, selected_model: Seq<char>) -> Option<Seq<char>> {
        if self.efficient == self.capable {
            None
        } else if selected_model == self.efficient {
            Some("weak"@)
        } else if selected_model == self.capable {
            Some("strong"@)
        } else {
            None
        }
    }
}

impl TaskClassifierPolicy {
    /// Routes to `efficient_target` from `threshold` on, to `capable_target` below.
    pub fn new(efficient_target: &str, capable_target: &str, threshold: Binary64) -> (policy:
        TaskClassifierPolicy)
        ensures
            policy@ == (PolicySettings {
                efficient: efficient_target@,
                capable: capable_target@,
                threshold,
            }),
    {
        TaskClassifierPolicy {
            efficient_target: efficient_target.to_owned(),
            capable_target: capable_target.to_owned(),
            threshold,
        }
    }

    /// The decisive classification of a verdict, `None` where the judge gave none.
    /// Anything incomplete, invalid, abstained or below the threshold goes to the
    /// capable target rather than risk an underpowered route.
    pub fn to_classification(&self, verdict: Option<&TaskClassifierVerdict>) -> (classification:
        Classification)
        ensures
            classification@ == self@.classification(
                match verdict {
                    Some(verdict) => Some(*verdict),
                    None => None,
                },
            ),
    {
        let trusted = match verdict {
            Some(verdict) => verdict.is_valid() && !verdict.abstain && verdict.p_solve.at_least(
                self.threshold,
            ),
            None => false,
        };
        let target = if trusted {
            &self.efficient_target
        } else {
            &self.capable_target
        };
        decide(target.as_str(), Binary64 { bits: ONE_64 })
    }
}

/// Classifies whole requests by a judge's verdict on them.
#[derive(Debug, PartialEq)]
pub struct LlmTaskClassifier {
    judge: CapabilityJudge,
    judge_target: LlmTarget,
    policy: TaskClassifierPolicy,
}

/// How a task classifier is configured.
pub struct TaskSettings {
    /// The judge.
    pub judge: CapabilityJudge,
    /// The target that the judge is called through.
    pub judge_target: LlmTarget,
    /// How its verdict is read.
    pub policy: PolicySettings,
}

impl View for LlmTaskClassifier {
    type V = TaskSettings;

    closed spec fn view(&self) -> TaskSettings {
        TaskSettings {
            judge: self.judge,
            judge_target: self.judge_target,
            policy: self.policy@,
        }
    }
}

impl LlmTaskClassifier {
    /// Selects `efficient_target` when the judge's `p_solve` reaches `threshold`,
    /// and `capable_target` otherwise.
    ///
    /// `config` is what loading the judge's prompt and schema came to. A
    /// threshold outside `[0, 1]` is refused first, then a configuration that
    /// did not load.
    pub fn new(
        judge_target: LlmTarget,
        efficient_target: LlmTarget,
        capable_target: LlmTarget,
        threshold: Binary64,
        config: Result<JudgeConfig, LibsyError>,
    ) -> (built: Result<LlmTaskClassifier, LibsyError>)
        ensures
            if !threshold.probability() {
                built == Err::<LlmTaskClassifier, LibsyError>(
                    LibsyError::AlgorithmError {
                        problem: AlgorithmProblem::JudgeThreshold(threshold),
                    },
                )
            } else {
                match config {
                    Err(error) => built == Err::<LlmTaskClassifier, LibsyError>(error),
                    Ok(config) => built matches Ok(classifier) && classifier@ == (TaskSettings {
                        judge: CapabilityJudge { config },
                        judge_target,
                        policy: PolicySettings {
                            efficient: efficient_target.semantic_name@,
                            capable: capable_target.semantic_name@,
                            threshold,
                        },
                    }),
                }
            },
    {
        if !threshold.is_probability() {
            return Err(
                LibsyError::AlgorithmError { problem: AlgorithmProblem::JudgeThreshold(threshold) },
            );
        }
        match config {
            Err(error) => Err(error),
            Ok(config) => Ok(
                LlmTaskClassifier {
                    judge: CapabilityJudge { config },
                    judge_target,
                    policy: TaskClassifierPolicy::new(
                        efficient_target.semantic_name.as_str(),
                        capable_target.semantic_name.as_str(),
                        threshold,
                    ),
                },
            ),
        }
    }

    /// The tier that a selected target stands for. Where both tiers have one
    /// target nothing can be told.
    pub fn routing_tier(&self, selected_model: &str) -> (tier: Option<&'static str>)
        ensures
            match tier {
                Some(name) => self@.policy.tier_of(selected_model@) == Some(name@),
                None => self@.policy.tier_of(selected_model@) is None,
            },
    {
        if text_eq(
            self.policy.efficient_target.as_str(),
            self.policy.capable_target.as_str(),
        ) {
            None
        } else if text_eq(selected_model, self.policy.efficient_target.as_str()) {
            Some("weak")
        } else if text_eq(selected_model, self.policy.capable_target.as_str()) {
            Some("strong")
        } else {
            None
        }
    }

    /// The target that the judge is called through.
    pub fn judge_target(&self) -> (target: &LlmTarget)
        ensures
            *target == self@.judge_target,
    {
        &self.judge_target
    }

    /// The request that asks the judge about `request`.
    pub fn question(&self, request: &Request) -> (asked: Request)
        ensures
            asked@ == self@.judge.question(request@),
    {
        self.judge.build_request(request)
    }

    /// Classifies the request that the judge was asked about, by the verdict that
    /// came back; `None` where the judge could not be reached or understood.
    pub fn score(&self, verdict: Option<&TaskClassifierVerdict>) -> (classification: Classification)
        ensures
            classification@ == self@.policy.classification(
                match verdict {
                    Some(verdict) => Some(*verdict),
                    None => None,
                },
            ),
    {
        self.policy.to_classification(verdict)
    }
}

/// Raising the threshold never moves a verdict to the efficient target.
pub proof fn law_higher_threshold_trusts_less(
    verdict: Option<TaskClassifierVerdict>,
    low: Binary64,
    high: Binary64,
)
    requires
        high.ge(low),
        trusts(verdict, high),
    ensures
        trusts(verdict, low),
{
}

/// A request without a usable verdict goes to the capable target: none, one with
/// a number that is no probability, or one that abstains.
pub proof fn law_distrust_selects_capable(
    policy: PolicySettings,
    verdict: Option<TaskClassifierVerdict>,
)
    requires
        verdict matches Some(verdict) ==> !verdict.valid() || verdict.abstain,
    ensures
        policy.selects(verdict) == policy.capable,
{
}

/// The threshold itself is enough.
pub proof fn law_threshold_is_inclusive(policy: PolicySettings, verdict: TaskClassifierVerdict)
    requires
        verdict.valid(),
        !verdict.abstain,
        verdict.p_solve == policy.threshold,
    ensures
        policy.selects(Some(verdict)) == policy.efficient,
{
}

/// A target has a tier exactly where the two targets can be told apart: what the
/// efficient target serves is weak, what the capable target serves is strong.
pub proof fn law_tiers_follow_the_targets(
    policy: PolicySettings,
    verdict: Option<TaskClassifierVerdict>,
)
    ensures
        policy.tier_of(policy.selects(verdict)) == if policy.efficient == policy.capable {
            None
        } else if trusts(verdict, policy.threshold) {
            Some("weak"@)
        } else {
            Some("strong"@)
        },
{
}

/// The judge's own prompt leads what it is sent, and of the request only its
/// model, its metadata and its trimmed conversation are in it.
pub proof fn law_judge_prompt_leads(judge: CapabilityJudge, request: RequestView)
    ensures
        ({
            let asked = judge.question(request);
            &&& asked.messages[0] == protocol::text_message(
                Role::System,
                judge.config.system_prompt@,
            )
            &&& asked.messages.skip(1) == trimmed(request.messages, RECENT_MESSAGE_WINDOW as nat)
            &&& asked.model == request.model
            &&& asked.metadata == request.metadata
            &&& asked.raw_request is None
            &&& asked.rest is None
        }),
{
    let asked = judge.question(request);
    assert(asked.messages.skip(1) =~= trimmed(request.messages, RECENT_MESSAGE_WINDOW as nat));
}

/// All messages of one kind: that kind is all of them, and the other is none.
proof fn lemma_one_kind(messages: Seq<MessageView>, instructing: bool)
    requires
        forall|i: int|
            0 <= i < messages.len() ==> instructs((#[trigger] messages[i]).role) == instructing,
    ensures
        of_kind(messages, instructing) == messages,
        of_kind(messages, !instructing) == Seq::<MessageView>::empty(),
    decreases messages.len(),
{
    if messages.len() > 0 {
        lemma_one_kind(messages.drop_last(), instructing);
        assert(messages.drop_last().push(messages.last()) =~= messages);
    }
}

/// What is of a kind is of that kind.
proof fn lemma_kind_is_kept(messages: Seq<MessageView>, instructing: bool)
    ensures
        forall|i: int|
            0 <= i < of_kind(messages, instructing).len() ==> instructs(
                (#[trigger] of_kind(messages, instructing)[i]).role,
            ) == instructing,
    decreases messages.len(),
{
    if messages.len() > 0 {
        lemma_kind_is_kept(messages.drop_last(), instructing);
    }
}

/// Messages of the other kind behind a conversation add nothing to a kind.
proof fn lemma_other_kind_adds_nothing(
    messages: Seq<MessageView>,
    rest: Seq<MessageView>,
    instructing: bool,
)
    requires
        forall|i: int|
            0 <= i < rest.len() ==> instructs((#[trigger] rest[i]).role) != instructing,
    ensures
        of_kind(messages + rest, instructing) == of_kind(messages, instructing),
    decreases rest.len(),
{
    if rest.len() == 0 {
        assert(messages + rest =~= messages);
    } else {
        assert((messages + rest).drop_last() =~= messages + rest.drop_last());
        assert((messages + rest).last() == rest[rest.len() - 1]);
        lemma_other_kind_adds_nothing(messages, rest.drop_last(), instructing);
    }
}

/// The user's last message is the user's, and one of the messages.
proof fn lemma_last_user(messages: Seq<MessageView>)
    ensures
        last_user(messages) matches Some(message) ==> message.role == Role::User,
    decreases messages.len(),
{
    if messages.len() > 0 && messages.last().role != Role::User {
        lemma_last_user(messages.drop_last());
    }
}

/// What is recent of a dialogue is dialogue, and no more than the window, or one
/// message where the window is closed.
proof fn lemma_recent(messages: Seq<MessageView>, window: nat)
    ensures
        forall|i: int|
            0 <= i < recent(dialogue_in(messages), window).len() ==> !instructs(
                (#[trigger] recent(dialogue_in(messages), window)[i]).role,
            ),
        recent(dialogue_in(messages), window).len() <= if window == 0 {
            1
        } else {
            window
        },
        recent(recent(dialogue_in(messages), window), window) == recent(
            dialogue_in(messages),
            window,
        ),
{
    let dialogue = dialogue_in(messages);
    lemma_kind_is_kept(messages, false);
    lemma_last_user(dialogue);
    if window == 0 {
        if let Some(message) = last_user(dialogue) {
            assert(seq![message].last() == message);
            assert(last_user(seq![message]) == Some(message));
        }
    }
}

/// Behind instructions, the task is the first that the user says.
proof fn lemma_task_follows(system: Seq<MessageView>, task: MessageView, rest: Seq<MessageView>)
    requires
        forall|i: int| 0 <= i < system.len() ==> instructs((#[trigger] system[i]).role),
        task.role == Role::User,
    ensures
        before_user(system.push(task) + rest) == system.len(),
{
    let after = system.push(task) + rest;
    assert forall|i: int| 0 <= i < system.len() implies (#[trigger] after[i]).role
        != Role::User by {
        assert(after[i] == system[i]);
    }
    lemma_before_user(after, system.len() as int);
}

/// Neither the task nor the dialogue behind the instructions instructs.
proof fn lemma_instructions_lead(
    system: Seq<MessageView>,
    task: MessageView,
    rest: Seq<MessageView>,
)
    requires
        forall|i: int| 0 <= i < system.len() ==> instructs((#[trigger] system[i]).role),
        task.role == Role::User,
        forall|i: int| 0 <= i < rest.len() ==> !instructs((#[trigger] rest[i]).role),
    ensures
        instructions_in(system.push(task) + rest) == system,
{
    lemma_one_kind(system, true);
    assert(system.push(task).drop_last() =~= system);
    lemma_other_kind_adds_nothing(system.push(task), rest, true);
}

/// Dialogue is all dialogue.
proof fn lemma_dialogue_stays(rest: Seq<MessageView>)
    requires
        forall|i: int| 0 <= i < rest.len() ==> !instructs((#[trigger] rest[i]).role),
    ensures
        dialogue_in(rest) == rest,
{
    lemma_one_kind(rest, false);
}

/// The parts of a trimmed conversation that has a task.
proof fn lemma_trimmed_parts(messages: Seq<MessageView>, window: nat)
    requires
        before_user(messages) < messages.len(),
    ensures
        0 <= before_user(messages),
        before_user(trimmed(messages, window)) == instructions_in(messages).len(),
        trimmed(messages, window)[instructions_in(messages).len() as int]
            == messages[before_user(messages)],
        instructions_in(trimmed(messages, window)) == instructions_in(messages),
        dialogue_in(trimmed(messages, window).skip(instructions_in(messages).len() as int + 1))
            == recent(dialogue_in(messages.skip(before_user(messages) + 1)), window),
{
    let task = before_user(messages);
    let system = instructions_in(messages);
    let rest = recent(dialogue_in(messages.skip(task + 1)), window);
    let after = system.push(messages[task]) + rest;
    lemma_task_is_user(messages);
    assert(trimmed(messages, window) == after);
    assert(forall|i: int| 0 <= i < system.len() ==> instructs((#[trigger] system[i]).role)) by {
        lemma_kind_is_kept(messages, true);
    }
    assert(forall|i: int| 0 <= i < rest.len() ==> !instructs((#[trigger] rest[i]).role)) by {
        lemma_recent(messages.skip(task + 1), window);
    }
    assert(before_user(after) == system.len()) by {
        lemma_task_follows(system, messages[task], rest);
    }
    assert(instructions_in(after) == system) by {
        lemma_instructions_lead(system, messages[task], rest);
    }
    assert(dialogue_in(after.skip(system.len() as int + 1)) == rest) by {
        assert(after.skip(system.len() as int + 1) =~= rest);
        lemma_dialogue_stays(rest);
    }
}

/// The task is where the count says, and the user's.
proof fn lemma_task_is_user(messages: Seq<MessageView>)
    ensures
        0 <= before_user(messages) <= messages.len(),
        before_user(messages) < messages.len() ==> messages[before_user(messages)].role
            == Role::User,
    decreases messages.len(),
{
    if messages.len() > 0 && messages[0].role != Role::User {
        lemma_task_is_user(messages.drop_first());
    }
}

/// Trimming drops no instruction and no task: every instruction is kept, in
/// order, and the user's first message is still the user's first.
pub proof fn law_trim_keeps_instructions_and_task(messages: Seq<MessageView>, window: nat)
    ensures
        instructions_in(trimmed(messages, window)) == instructions_in(messages),
        before_user(messages) < messages.len() ==> before_user(trimmed(messages, window))
            < trimmed(messages, window).len() && trimmed(messages, window)[before_user(
            trimmed(messages, window),
        )] == messages[before_user(messages)],
{
    if before_user(messages) < messages.len() {
        lemma_trimmed_parts(messages, window);
    } else {
        lemma_kind_is_kept(messages, true);
        lemma_one_kind(instructions_in(messages), true);
    }
}

/// A trimmed conversation is bounded: beside its instructions it holds at most
/// the task and the window, or two messages where the window is closed.
pub proof fn law_trim_is_bounded(messages: Seq<MessageView>, window: nat)
    ensures
        trimmed(messages, window).len() <= instructions_in(messages).len() + 1 + if window == 0 {
            1
        } else {
            window
        },
{
    if before_user(messages) < messages.len() {
        lemma_recent(messages.skip(before_user(messages) + 1), window);
    }
}

/// Trimming twice is trimming once.
pub proof fn law_trim_is_idempotent(messages: Seq<MessageView>, window: nat)
    ensures
        trimmed(trimmed(messages, window), window) == trimmed(messages, window),
{
    let after = trimmed(messages, window);
    if before_user(messages) < messages.len() {
        lemma_trimmed_parts(messages, window);
        lemma_recent(messages.skip(before_user(messages) + 1), window);
    } else {
        lemma_kind_is_kept(messages, true);
        lemma_one_kind(after, true);
        lemma_before_user(after, after.len() as int);
    }
}

/// What instructs is settled message by message: a system or a developer message
/// instructs, no other does, and of two conversations one behind the other the
/// instructions of the second follow those of the first; so with the dialogue.
pub proof fn law_kinds_are_told_message_by_message(
    first: Seq<MessageView>,
    second: Seq<MessageView>,
    message: MessageView,
)
    ensures
        instructions_in(seq![]) == Seq::<MessageView>::empty(),
        dialogue_in(seq![]) == Seq::<MessageView>::empty(),
        message.role == Role::System || message.role == Role::Developer ==> instructions_in(
            seq![message],
        ) == seq![message] && dialogue_in(seq![message]) == Seq::<MessageView>::empty(),
        message.role == Role::User || message.role == Role::Assistant || message.role == Role::Tool
            ==> instructions_in(seq![message]) == Seq::<MessageView>::empty() && dialogue_in(
            seq![message],
        ) == seq![message],
        instructions_in(first + second) == instructions_in(first) + instructions_in(second),
        dialogue_in(first + second) == dialogue_in(first) + dialogue_in(second),
    decreases second.len(),
{
    assert(seq![message].drop_last() =~= Seq::<MessageView>::empty());
    assert(of_kind(seq![message].drop_last(), true) =~= Seq::<MessageView>::empty());
    assert(of_kind(seq![message].drop_last(), false) =~= Seq::<MessageView>::empty());
    assert(Seq::<MessageView>::empty().push(message) =~= seq![message]);
    if second.len() == 0 {
        assert(first + second =~= first);
        assert(instructions_in(first) + instructions_in(second) =~= instructions_in(first));
        assert(dialogue_in(first) + dialogue_in(second) =~= dialogue_in(first));
    } else {
        law_kinds_are_told_message_by_message(first, second.drop_last(), message);
        assert((first + second).drop_last() =~= first + second.drop_last());
        assert((first + second).last() == second.last());
        assert(instructions_in(first + second) =~= instructions_in(first) + instructions_in(
            second,
        ));
        assert(dialogue_in(first + second) =~= dialogue_in(first) + dialogue_in(second));
    }
}

/// The task is the first thing that the user says: nothing before it is the user's.
pub proof fn law_the_task_is_the_users_first(messages: Seq<MessageView>)
    ensures
        0 <= before_user(messages) <= messages.len(),
        forall|i: int|
            0 <= i < before_user(messages) ==> (#[trigger] messages[i]).role != Role::User,
        before_user(messages) < messages.len() ==> messages[before_user(messages)].role
            == Role::User,
    decreases messages.len(),
{
    if messages.len() > 0 && messages[0].role != Role::User {
        let rest = messages.drop_first();
        law_the_task_is_the_users_first(rest);
        assert forall|i: int| 0 <= i < before_user(messages) implies (
        #[trigger] messages[i]).role != Role::User by {
            if i > 0 {
                assert(messages[i] == rest[i - 1]);
            }
        }
    }
}

/// The user's last message is the user's, and nothing behind it is; there is none
/// exactly where the user says nothing.
pub proof fn law_the_last_word_is_the_users_last(messages: Seq<MessageView>)
    ensures
        last_user(messages) is None <==> forall|i: int|
            0 <= i < messages.len() ==> (#[trigger] messages[i]).role != Role::User,
        last_user(messages) matches Some(message) ==> exists|i: int|
            0 <= i < messages.len() && #[trigger] messages[i] == message && message.role
                == Role::User && forall|j: int|
                i < j < messages.len() ==> (#[trigger] messages[j]).role != Role::User,
    decreases messages.len(),
{
    if messages.len() > 0 {
        if messages.last().role == Role::User {
            assert(messages[messages.len() - 1] == messages.last());
        } else {
            let rest = messages.drop_last();
            law_the_last_word_is_the_users_last(rest);
            assert(forall|i: int| 0 <= i < rest.len() ==> rest[i] == messages[i]);
            if let Some(message) = last_user(messages) {
                let i = choose|i: int|
                    0 <= i < rest.len() && #[trigger] rest[i] == message && message.role
                        == Role::User && forall|j: int|
                        i < j < rest.len() ==> (#[trigger] rest[j]).role != Role::User;
                assert(messages[i] == message);
                assert forall|j: int| i < j < messages.len() implies (#[trigger] messages[j]).role
                    != Role::User by {
                    if j < rest.len() {
                        assert(rest[j].role != Role::User);
                    }
                }
            } else {
                assert forall|i: int| 0 <= i < messages.len() implies (
                #[trigger] messages[i]).role != Role::User by {
                    if i < rest.len() {
                        assert(rest[i].role != Role::User);
                    }
                }
            }
        }
    }
}

/// What is recent is the end of the dialogue: as long as the window, or all of it
/// where it is no longer; with a closed window the user's last word alone.
pub proof fn law_recent_is_the_end_of_the_dialogue(dialogue: Seq<MessageView>, window: nat)
    ensures
        window > 0 && dialogue.len() <= window ==> recent(dialogue, window) == dialogue,
        window > 0 && dialogue.len() > window ==> recent(dialogue, window).len() == window
            && recent(dialogue, window) == dialogue.subrange(
            dialogue.len() - window,
            dialogue.len() as int,
        ),
        window == 0 && last_user(dialogue) is None ==> recent(dialogue, 0).len() == 0,
        window == 0 ==> (last_user(dialogue) matches Some(message) ==> recent(dialogue, 0)
            == seq![message]),
        recent(dialogue, window).is_suffix_of(dialogue) || window == 0,
{
    if window > 0 && dialogue.len() > window {
        assert(recent(dialogue, window) =~= dialogue.subrange(
            dialogue.len() - window,
            dialogue.len() as int,
        ));
    } else if window > 0 {
        assert(dialogue.subrange(0, dialogue.len() as int) =~= dialogue);
    }
}

/// The trimmed conversation in full. Where the user's first message stands at `at`,
/// it is every instruction of the conversation, that message, and behind it the end
/// of the dialogue after it: with an open window as much as the window holds, and
/// so all of a dialogue that fits; with a closed one the user's last word. Where the
/// user says nothing, it is the instructions.
pub proof fn law_trimmed_in_full(messages: Seq<MessageView>, window: nat, at: int)
    requires
        0 <= at <= messages.len(),
        forall|i: int| 0 <= i < at ==> (#[trigger] messages[i]).role != Role::User,
        at < messages.len() ==> messages[at].role == Role::User,
    ensures
        ({
            let system = instructions_in(messages);
            let out = trimmed(messages, window);
            if at == messages.len() {
                out == system
            } else {
                let dialogue = dialogue_in(messages.subrange(at + 1, messages.len() as int));
                let shown = out.subrange(system.len() as int + 1, out.len() as int);
                &&& out.len() > system.len()
                &&& out.subrange(0, system.len() as int) == system
                &&& out[system.len() as int] == messages[at]
                &&& window > 0 ==> shown.len() == (if dialogue.len() <= window {
                    dialogue.len()
                } else {
                    window
                }) && shown == dialogue.subrange(
                    dialogue.len() - shown.len(),
                    dialogue.len() as int,
                )
                &&& window == 0 ==> (match last_user(dialogue) {
                    Some(message) => shown == seq![message],
                    None => shown.len() == 0,
                })
            }
        }),
{
    lemma_before_user(messages, at);
    if at < messages.len() {
        let system = instructions_in(messages);
        let out = trimmed(messages, window);
        let after = messages.subrange(at + 1, messages.len() as int);
        assert(after =~= messages.skip(at + 1));
        let dialogue = dialogue_in(after);
        let rest = recent(dialogue, window);
        assert(out == system.push(messages[at]) + rest);
        assert(out.subrange(0, system.len() as int) =~= system);
        assert(out.subrange(system.len() as int + 1, out.len() as int) =~= rest);
        law_recent_is_the_end_of_the_dialogue(dialogue, window);
        assert(dialogue.subrange(0, dialogue.len() as int) =~= dialogue);
    }
}

/// A conversation that starts with the task and holds no instructions is kept as it
/// is where what follows the task fits in the window.
pub proof fn law_short_conversations_are_kept_whole(messages: Seq<MessageView>, window: nat)
    requires
        messages.len() > 0,
        messages[0].role == Role::User,
        forall|i: int|
            0 <= i < messages.len() ==> (#[trigger] messages[i]).role != Role::System
                && messages[i].role != Role::Developer,
        0 < window,
        messages.len() <= window + 1,
    ensures
        trimmed(messages, window) == messages,
{
    let after = messages.skip(1);
    lemma_before_user(messages, 0);
    lemma_one_kind(messages, false);
    assert forall|i: int| 0 <= i < after.len() implies instructs((#[trigger] after[i]).role)
        == false by {
        assert(after[i] == messages[i + 1]);
    }
    lemma_one_kind(after, false);
    law_recent_is_the_end_of_the_dialogue(after, window);
    assert(trimmed(messages, window) =~= messages);
}

/// What a judge is sent, field by field: of the request its model and its metadata,
/// of the judge its conversation and its schema, and nothing else.
pub proof fn law_judge_requests(
    request: RequestView,
    messages: Seq<MessageView>,
    schema: Option<Value>,
)
    ensures
        ({
            let asked = judge_request(request, messages, schema);
            &&& asked.model == request.model
            &&& asked.metadata == request.metadata
            &&& asked.messages == messages
            &&& asked.response_format == schema
            &&& asked.instructions.len() == 0
            &&& asked.output_rest is None
            &&& asked.rest is None
            &&& asked.raw_request is None
        }),
{
}

/// What the capability judge is sent: its prompt as a system message, then the
/// conversation trimmed to its last five messages of dialogue, under its schema.
pub proof fn law_capability_questions(judge: CapabilityJudge, request: RequestView)
    ensures
        ({
            let asked = judge.question(request);
            let shown = trimmed(request.messages, 5);
            &&& asked.messages.len() == shown.len() + 1
            &&& asked.messages[0].role == Role::System
            &&& asked.messages[0].content == seq![
                protocol::BlockView::Text { text: judge.config.system_prompt@ },
            ]
            &&& asked.messages.subrange(1, asked.messages.len() as int) == shown
            &&& asked.response_format == judge.config.response_schema
            &&& asked.model == request.model
            &&& asked.metadata == request.metadata
            &&& asked.instructions.len() == 0
            &&& asked.raw_request is None
        }),
{
    let asked = judge.question(request);
    assert(asked.messages.subrange(1, asked.messages.len() as int) =~= trimmed(
        request.messages,
        5,
    ));
}

/// Which target a verdict selects: the efficient one exactly where both numbers lie
/// between zero and one, the judge does not abstain, and `p_solve` is at least the
/// threshold. Neither how sure the judge is nor any of its words bears on it, and
/// the selection is decisive with a confidence of one.
pub proof fn law_verdicts_select(
    policy: PolicySettings,
    verdict: TaskClassifierVerdict,
    other: TaskClassifierVerdict,
)
    ensures
        verdict.valid() <==> verdict.p_solve.probability() && verdict.confidence.probability(),
        policy.selects(None) == policy.capable,
        verdict.p_solve.probability() && verdict.confidence.probability() && !verdict.abstain
            && !policy.threshold.nan() && verdict.p_solve.value() >= policy.threshold.value()
            ==> policy.selects(Some(verdict)) == policy.efficient,
        !(verdict.p_solve.probability() && verdict.confidence.probability() && !verdict.abstain
            && !policy.threshold.nan() && verdict.p_solve.value() >= policy.threshold.value())
            ==> policy.selects(Some(verdict)) == policy.capable,
        verdict.p_solve == other.p_solve && verdict.abstain == other.abstain
            && verdict.confidence.probability() && other.confidence.probability()
            ==> policy.selects(Some(verdict)) == policy.selects(Some(other)),
        policy.classification(Some(verdict)) matches ClassificationView::Scores(scores)
            && scores.len() == 1 && scores[0].target == policy.selects(Some(verdict))
            && scores[0].confidence.bits == 0x3ff0_0000_0000_0000,
        policy.classification(None) matches ClassificationView::Scores(scores) && scores.len() == 1
            && scores[0].target == policy.capable && scores[0].confidence.bits
            == 0x3ff0_0000_0000_0000,
{
}

/// Trusting is selecting: a verdict is trusted exactly where two different targets
/// would be told apart by it.
pub proof fn law_trust(verdict: TaskClassifierVerdict, threshold: Binary64)
    ensures
        !trusts(None, threshold),
        trusts(Some(verdict), threshold) <==> {
            &&& verdict.p_solve.probability()
            &&& verdict.confidence.probability()
            &&& !verdict.abstain
            &&& !threshold.nan()
            &&& verdict.p_solve.value() >= threshold.value()
        },
{
}

/// The tier of a target: weak for the efficient one and strong for the capable one
/// where they have different names, none for any other name, and none at all where
/// they have the same.
pub proof fn law_tier_labels(policy: PolicySettings, selected_model: Seq<char>)
    ensures
        policy.efficient == policy.capable ==> policy.tier_of(selected_model) is None,
        policy.efficient != policy.capable ==> policy.tier_of(policy.efficient) == Some("weak"@)
            && policy.tier_of(policy.capable) == Some("strong"@),
        selected_model != policy.efficient && selected_model != policy.capable ==> policy.tier_of(
            selected_model,
        ) is None,
{
}

} // verus!
