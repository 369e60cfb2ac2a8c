//! Escalation by response quality.
//!
//! A turn goes to the efficient model first. A judge reads its response, and
//! only where the judge finds it insufficient does the turn go to the capable
//! model. A session that escalated once is pinned to the capable model from then
//! on, so that a task which the efficient model failed is not tried there again.
//!
//! The router decides; whoever drives it makes the calls and reports back:
//! [`EscalationRouter::start`] says which model to call,
//! [`EscalationRouter::efficient_replied`] what to ask the judge,
//! [`EscalationRouter::judge_replied`] whether that was it, and
//! [`EscalationRouter::capable_replied`] how a turn of the capable model ends.

use crate::binary::{Binary64, ONE_64};
use crate::classification;
use crate::classification::{decide, Classification, ClassificationView};
use crate::llm_class;
use crate::llm_class::{find_last_user, is_instruction, JudgeConfig};
use crate::protocol;
use crate::protocol::{Message, MessageView, Request, RequestView, Response, Role};
use crate::state::{State, StateValueView};
use crate::target::{LibsyError, LlmClient, LlmTarget};
use vstd::hash_set::StringHashSet;
use vstd::prelude::*;
use vstd::string::*;

verus! {

/// Key under which the efficient model's response is left for the judge.
pub const CANDIDATE_KEY: &'static str = "escalation.candidate";

/// A judge's verdict on a response. Only whether to escalate bears on routing.
#[derive(Debug, PartialEq)]
pub struct EscalationVerdict {
    /// Whether the response is insufficient.
    pub should_escalate: bool,
    /// How sure the judge is.
    pub confidence: Binary64,
    /// Why.
    pub reason: String,
}

/// Where a call goes, and why.
#[derive(Debug, PartialEq)]
pub struct EscalationDecision {
    model: String,
    tier: &'static str,
    reason: &'static str,
}

/// Where a call goes, and why.
pub struct DecisionView {
    /// The target.
    pub model: Seq<char>,
    /// Its tier.
    pub tier: Seq<char>,
    /// Why it was chosen.
    pub reason: Seq<char>,
}

impl View for EscalationDecision {
    type V = DecisionView;

    closed spec fn view(&self) -> DecisionView {
        DecisionView { model: self.model@, tier: self.tier@, reason: self.reason@ }
    }
}

impl EscalationDecision {
    /// The target that was chosen.
    pub fn selected_model(&self) -> (model: &str)
        ensures
            model@ == self@.model,
    {
        self.model.as_str()
    }

    /// The tier of that target.
    pub fn routing_tier(&self) -> (tier: Option<&'static str>)
        ensures
            tier matches Some(name) && name@ == self@.tier,
    {
        Some(self.tier)
    }

    /// Why it was chosen.
    pub fn reasoning(&self) -> (reason: Option<&str>)
        ensures
            reason matches Some(text) && text@ == self@.reason,
    {
        Some(self.reason)
    }
}

/// Asks a judge whether a response will do.
#[derive(Debug, PartialEq)]
pub struct EscalationJudge {
    /// What the judge is asked with.
    pub config: JudgeConfig,
}

/// A message, where there is one.
pub open spec fn at_most_one(message: Option<MessageView>) -> Seq<MessageView> {
    match message {
        Some(message) => seq![message],
        None => seq![],
    }
}

/// The response that was left for the judge, empty where none was.
pub open spec fn candidate_in(state: State) -> Seq<char> {
    match state.text(CANDIDATE_KEY@) {
        Some(text) => text,
        None => ""@,
    }
}

impl EscalationJudge {
    /// The exchange that the judge reads: its own prompt, the client's
    /// instructions, the user's last message, and the response to it.
    pub open spec fn exchange(
        self,
        messages: Seq<MessageView>,
        candidate: Seq<char>,
    ) -> Seq<MessageView> {
        (seq![protocol::text_message(Role::System, self.config.system_prompt@)]
            + llm_class::instructions_in(messages) + at_most_one(
            llm_class::last_user(messages),
        )).push(protocol::text_message(Role::Assistant, candidate))
    }

    /// What the judge is sent for a request and a response to it.
    pub open spec fn question(self, request: RequestView, candidate: Seq<char>) -> RequestView {
        llm_class::judge_request(
            request,
            self.exchange(request.messages, candidate),
            self.config.response_schema,
        )
    }

    /// The request that asks the judge about `request` and the response left in
    /// `state`.
    pub fn build_request(&self, state: &State, request: &Request) -> (asked: Request)
        ensures
            asked@ == self.question(request@, candidate_in(*state)),
    {
        let candidate = match state.text_at(CANDIDATE_KEY) {
            Some(text) => text,
            None => "",
        };
        let client = &request.llm_request.messages;
        let ghost whole = protocol::messages_view(client@);
        let mut messages: Vec<Message> = vec![
            Message::text(Role::System, self.config.system_prompt.as_str()),
        ];
        let ghost prompt = seq![
            protocol::text_message(Role::System, self.config.system_prompt@),
        ];
        let mut i: usize = 0;
        proof {
            assert(protocol::messages_view(messages@) =~= prompt + llm_class::of_kind(
                whole.subrange(0, 0),
                true,
            ));
        }
        while i < client.len()
            invariant
                i <= client@.len(),
                whole == protocol::messages_view(client@),
                protocol::messages_view(messages@) == prompt + llm_class::of_kind(
                    whole.subrange(0, i as int),
                    true,
                ),
            decreases client@.len() - i,
        {
            let message = &client[i];
            proof {
                llm_class::lemma_kind_step(whole, true, 0, i as int);
                assert(whole[i as int] == message@);
            }
            if is_instruction(message.role) {
                let ghost before = messages@;
                messages.push(message.copy());
                proof {
                    assert(protocol::messages_view(messages@) =~= protocol::messages_view(
                        before,
                    ).push(message@));
                    assert(protocol::messages_view(messages@) =~= prompt + llm_class::of_kind(
                        whole.subrange(0, i + 1),
                        true,
                    ));
                }
            }
            i += 1;
        }
        proof {
            assert(whole.subrange(0, whole.len() as int) =~= whole);
        }
        let ghost led = messages@;
        if let Some(last) = find_last_user(client) {
            messages.push(client[last].copy());
        }
        proof {
            assert(protocol::messages_view(messages@) =~= protocol::messages_view(led)
                + at_most_one(llm_class::last_user(whole)));
        }
        let ghost asked = messages@;
        messages.push(Message::text(Role::Assistant, candidate));
        proof {
            assert(protocol::messages_view(messages@) =~= protocol::messages_view(asked).push(
                protocol::text_message(Role::Assistant, candidate@),
            ));
        }
        self.config.frame(request, messages)
    }
}

/// Turns a verdict into a target: the capable one, or none.
#[derive(Debug, PartialEq)]
pub struct EscalationPolicy {
    /// The capable target.
    pub capable: String,
}

/// A verdict that calls for the capable model. No verdict does not.
pub open spec fn insufficient(verdict: Option<EscalationVerdict>) -> bool {
    verdict matches Some(verdict) && verdict.should_escalate
}

/// What was said, without the reference.
pub open spec fn given(verdict: Option<&EscalationVerdict>) -> Option<EscalationVerdict> {
    match verdict {
        Some(verdict) => Some(*verdict),
        None => None,
    }
}

impl EscalationPolicy {
    /// What the policy says of a turn: the capable target, or an abstention.
    pub open spec fn classification(self, verdict: Option<EscalationVerdict>) -> ClassificationView {
        if insufficient(verdict) {
            classification::decided(self.capable@, Binary64 { bits: ONE_64 })
        } else {
            ClassificationView::Scores(seq![])
        }
    }

    /// The classification of a verdict, `None` where the judge gave none.
    pub fn to_classification(&self, verdict: Option<&EscalationVerdict>) -> (classification:
        Classification)
        ensures
            classification@ == self.classification(given(verdict)),
    {
        let escalate = match verdict {
            Some(verdict) => verdict.should_escalate,
            None => false,
        };
        if escalate {
            decide(self.capable.as_str(), Binary64 { bits: ONE_64 })
        } else {
            let scores = Vec::new();
            proof {
                assert(scores@.map_values(|score: classification::Score| score@) =~= seq![]);
            }
            Classification::Scores(scores)
        }
    }
}

/// What the call to the efficient target came to.
#[derive(Debug, PartialEq)]
pub enum Attempt {
    /// The call failed.
    Failed(String),
    /// A response came, but could not be gathered.
    Ungathered(String),
    /// The response, as one text.
    Gathered(String),
}

/// What the call to the efficient target came to.
pub enum AttemptView {
    /// The call failed.
    Failed(Seq<char>),
    /// A response came, but could not be gathered.
    Ungathered(Seq<char>),
    /// The response.
    Gathered(Seq<char>),
}

impl View for Attempt {
    type V = AttemptView;

    open spec fn view(&self) -> AttemptView {
        match self {
            Attempt::Failed(detail) => AttemptView::Failed(detail@),
            Attempt::Ungathered(detail) => AttemptView::Ungathered(detail@),
            Attempt::Gathered(text) => AttemptView::Gathered(text@),
        }
    }
}

/// What ends a turn without a response.
pub enum Failure {
    /// A call failed.
    Call {
        /// The target that was called.
        target: Seq<char>,
        /// What went wrong.
        detail: Seq<char>,
    },
    /// The efficient response could not be gathered.
    Gathering(Seq<char>),
}

/// An error that tells of a failure.
pub open spec fn tells(error: LibsyError, failure: Failure) -> bool {
    match failure {
        Failure::Call { target, detail } => error matches LibsyError::Call {
            target: called,
            detail: cause,
        } && called@ == target && cause@ == detail,
        Failure::Gathering(detail) => error matches LibsyError::External {
            context,
            detail: cause,
        } && context@ == "aggregating efficient response"@ && cause@ == detail,
    }
}

/// The call that a turn starts with.
#[derive(Debug, PartialEq)]
pub enum FirstCall {
    /// Call the capable target; its response is the turn's.
    Capable {
        /// The target.
        target: LlmTarget,
        /// The decision to record.
        decision: EscalationDecision,
    },
    /// Call the efficient target, and report its response.
    Efficient {
        /// The target.
        target: LlmTarget,
        /// The decision to record.
        decision: EscalationDecision,
    },
}

/// What a turn comes to once the judge has spoken.
#[derive(Debug, PartialEq)]
pub enum AfterJudge<R> {
    /// The efficient response will do.
    Answer(Response<R>),
    /// Call the capable target; its response is the turn's.
    Escalate {
        /// The target.
        target: LlmTarget,
        /// The decision to record.
        decision: EscalationDecision,
    },
}

/// Routes to the efficient model first, escalates on the judge's word, and pins
/// a session to the capable model after its first escalation.
pub struct EscalationRouter {
    efficient_target: LlmTarget,
    capable_target: LlmTarget,
    judge: EscalationJudge,
    judge_target: LlmTarget,
    /// Sessions pinned to the capable model.
    pinned: StringHashSet,
}

/// How an escalation router is set up, and which sessions it has pinned.
pub struct RouterView {
    /// Called first.
    pub efficient: LlmTarget,
    /// Called where that will not do.
    pub capable: LlmTarget,
    /// Reads the response.
    pub judge: EscalationJudge,
    /// The target that the judge is called through.
    pub judge_target: LlmTarget,
    /// Sessions pinned to the capable model.
    pub pinned: Set<Seq<char>>,
}

impl View for EscalationRouter {
    type V = RouterView;

    closed spec fn view(&self) -> RouterView {
        RouterView {
            efficient: self.efficient_target,
            capable: self.capable_target,
            judge: self.judge,
            judge_target: self.judge_target,
            pinned: self.pinned@,
        }
    }
}

/// The session that a request belongs to.
pub open spec fn session_of(request: RequestView) -> Option<Seq<char>> {
    match request.metadata {
        Some(metadata) => metadata.session_id,
        None => None,
    }
}

impl RouterView {
    /// A request whose session is pinned to the capable model. One without a
    /// session never is.
    pub open spec fn pins(self, session: Option<Seq<char>>) -> bool {
        session matches Some(session) && self.pinned.contains(session)
    }

    /// The decision for a pinned session.
    pub open spec fn pinned_decision(self) -> DecisionView {
        DecisionView {
            model: self.capable.semantic_name@,
            tier: "strong"@,
            reason: "session pinned to capable after prior escalation"@,
        }
    }

    /// The decision to try the efficient model.
    pub open spec fn attempt_decision(self) -> DecisionView {
        DecisionView {
            model: self.efficient.semantic_name@,
            tier: "weak"@,
            reason: "initial efficient-model attempt"@,
        }
    }

    /// The decision to escalate.
    pub open spec fn escalation_decision(self) -> DecisionView {
        DecisionView {
            model: self.capable.semantic_name@,
            tier: "strong"@,
            reason: "quality escalation to capable model"@,
        }
    }

    /// The response that the judge is shown, or why the turn ends without one.
    pub open spec fn candidate(self, attempt: AttemptView) -> Result<Seq<char>, Failure> {
        match attempt {
            AttemptView::Failed(detail) => Err(
                Failure::Call { target: self.efficient.semantic_name@, detail },
            ),
            AttemptView::Ungathered(detail) => Err(Failure::Gathering(detail)),
            AttemptView::Gathered(text) => Ok(text),
        }
    }

    /// What a turn ends with once the capable target was called: its response, or
    /// the failure of that call.
    pub open spec fn capable_answer<R>(self, called: Result<Response<R>, Seq<char>>) -> Result<
        Response<R>,
        Failure,
    > {
        match called {
            Ok(response) => Ok(response),
            Err(detail) => Err(Failure::Call { target: self.capable.semantic_name@, detail }),
        }
    }

    /// The pinned sessions once a request escalated or did not.
    pub open spec fn after(self, session: Option<Seq<char>>, escalated: bool) -> RouterView {
        RouterView {
            pinned: match session {
                Some(session) if escalated => self.pinned.insert(session),
                _ => self.pinned,
            },
            ..self
        }
    }
}

/// A client that can count tokens.
pub open spec fn counting(client: Option<LlmClient>) -> Option<LlmClient> {
    match client {
        Some(client) if client.supports_count_tokens => Some(client),
        _ => None,
    }
}

/// The client, where there is one that can count tokens.
fn if_counting(client: Option<LlmClient>) -> (able: Option<LlmClient>)
    ensures
        able == counting(client),
{
    match client {
        Some(client) if client.supports_count_tokens => Some(client),
        _ => None,
    }
}

/// The session of a request, where it has one.
fn session_id(request: &Request) -> (session: Option<&String>)
    ensures
        match session {
            Some(id) => session_of(request@) == Some(id@),
            None => session_of(request@) is None,
        },
{
    match &request.metadata {
        Some(metadata) => match &metadata.session_id {
            Some(id) => Some(id),
            None => None,
        },
        None => None,
    }
}

impl EscalationRouter {
    /// Routes to `efficient_target` first, and escalates to `capable_target` when
    /// the judge behind `judge_target` finds the response insufficient.
    ///
    /// `config` is what loading the judge's prompt and schema came to; building
    /// fails as loading did.
    pub fn new(
        efficient_target: LlmTarget,
        capable_target: LlmTarget,
        judge_target: LlmTarget,
        config: Result<JudgeConfig, LibsyError>,
    ) -> (built: Result<EscalationRouter, LibsyError>)
        ensures
            match config {
                Err(error) => built == Err::<EscalationRouter, LibsyError>(error),
                Ok(config) => built matches Ok(router) && router@ == (RouterView {
                    efficient: efficient_target,
                    capable: capable_target,
                    judge: EscalationJudge { config },
                    judge_target,
                    pinned: Set::empty(),
                }),
            },
    {
        match config {
            Err(error) => Err(error),
            Ok(config) => Ok(
                EscalationRouter {
                    efficient_target,
                    capable_target,
                    judge: EscalationJudge { config },
                    judge_target,
                    pinned: StringHashSet::new(),
                },
            ),
        }
    }

    /// The name of the algorithm.
    pub fn name(&self) -> (name: &'static str)
        ensures
            name@ == "escalation"@,
    {
        "escalation"
    }

    /// The client to count tokens with: the capable target's where it can, else
    /// the efficient target's where that can.
    pub fn count_tokens_client(&self) -> (client: Option<LlmClient>)
        ensures
            client == match counting(self@.capable.llm_client) {
                Some(able) => Some(able),
                None => counting(self@.efficient.llm_client),
            },
    {
        match if_counting(self.capable_target.llm_client) {
            Some(able) => Some(able),
            None => if_counting(self.efficient_target.llm_client),
        }
    }

    /// The target that the judge is called through.
    pub fn judge_target(&self) -> (target: &LlmTarget)
        ensures
            *target == self@.judge_target,
    {
        &self.judge_target
    }

    /// Whether the request's session is pinned to the capable model.
    pub fn is_pinned(&self, request: &Request) -> (yes: bool)
        ensures
            yes == self@.pins(session_of(request@)),
    {
        match session_id(request) {
            Some(id) => self.pinned.contains(id.as_str()),
            None => false,
        }
    }

    /// Starts a turn: a pinned session goes straight to the capable model, any
    /// other turn tries the efficient one.
    pub fn start(&self, request: &Request) -> (first: FirstCall)
        ensures
            if self@.pins(session_of(request@)) {
                first matches FirstCall::Capable { target, decision } && target == self@.capable
                    && decision@ == self@.pinned_decision()
            } else {
                first matches FirstCall::Efficient { target, decision } && target == self@.efficient
                    && decision@ == self@.attempt_decision()
            },
    {
        if self.is_pinned(request) {
            FirstCall::Capable {
                target: self.capable_target.copy(),
                decision: EscalationDecision {
                    model: self.capable_target.semantic_name.clone(),
                    tier: "strong",
                    reason: "session pinned to capable after prior escalation",
                },
            }
        } else {
            FirstCall::Efficient {
                target: self.efficient_target.copy(),
                decision: EscalationDecision {
                    model: self.efficient_target.semantic_name.clone(),
                    tier: "weak",
                    reason: "initial efficient-model attempt",
                },
            }
        }
    }

    /// Takes what the call to the efficient target came to. A response is left in
    /// `state`, and the result says what to ask the judge. A call that failed, or a
    /// response that could not be gathered, ends the turn with an error: neither
    /// the judge nor the capable target is called, and no session is pinned.
    pub fn efficient_replied(&self, state: &mut State, request: &Request, attempt: Attempt) -> (
        asked: Result<Request, LibsyError>)
        ensures
            final(state).tool_signals == old(state).tool_signals,
            match self@.candidate(attempt@) {
                Ok(candidate) => {
                    &&& asked matches Ok(question) && question@ == self@.judge.question(
                        request@,
                        candidate,
                    )
                    &&& final(state).entries() == old(state).entries().insert(
                        CANDIDATE_KEY@,
                        StateValueView::Text(candidate),
                    )
                },
                Err(failure) => {
                    &&& asked matches Err(error) && tells(error, failure)
                    &&& final(state).entries() == old(state).entries()
                },
            },
    {
        match attempt {
            Attempt::Gathered(candidate) => {
                state.set_text(CANDIDATE_KEY, candidate.as_str());
                Ok(self.judge.build_request(state, request))
            },
            Attempt::Ungathered(detail) => Err(
                LibsyError::External {
                    context: "aggregating efficient response".to_owned(),
                    detail,
                },
            ),
            Attempt::Failed(detail) => Err(
                LibsyError::Call { target: self.efficient_target.semantic_name.clone(), detail },
            ),
        }
    }

    /// Takes the judge's verdict, `None` where the judge could not be reached or
    /// understood, and ends the turn or escalates it. Escalating pins the
    /// request's session; the efficient response is returned as it came.
    pub fn judge_replied<R>(
        &mut self,
        request: &Request,
        verdict: Option<&EscalationVerdict>,
        efficient: R,
    ) -> (outcome: AfterJudge<R>)
        ensures
            final(self)@ == old(self)@.after(session_of(request@), insufficient(given(verdict))),
            if insufficient(given(verdict)) {
                outcome matches AfterJudge::Escalate { target, decision } && target
                    == old(self)@.capable && decision@ == old(self)@.escalation_decision()
            } else {
                outcome == AfterJudge::Answer(
                    Response { llm_response: efficient, metadata: None },
                )
            },
    {
        let policy = EscalationPolicy { capable: self.capable_target.semantic_name.clone() };
        let classification = policy.to_classification(verdict);
        if classification.target().is_none() {
            return AfterJudge::Answer(Response { llm_response: efficient, metadata: None });
        }
        if let Some(id) = session_id(request) {
            let id = id.clone();
            self.pinned.insert(id);
        }
        AfterJudge::Escalate {
            target: self.capable_target.copy(),
            decision: EscalationDecision {
                model: self.capable_target.semantic_name.clone(),
                tier: "strong",
                reason: "quality escalation to capable model",
            },
        }
    }

    /// Takes what the call to the capable target came to, and ends the turn: with
    /// its response, or with an error where the call failed. No other response
    /// stands in for it, and the router stays as it is, so a pin holds either way.
    pub fn capable_replied<R>(&self, called: Result<Response<R>, String>) -> (answer: Result<
        Response<R>,
        LibsyError,
    >)
        ensures
            match self@.capable_answer(
                match called {
                    Ok(response) => Ok(response),
                    Err(detail) => Err(detail@),
                },
            ) {
                Ok(response) => answer == Ok::<Response<R>, LibsyError>(response),
                Err(failure) => answer matches Err(error) && tells(error, failure),
            },
    {
        match called {
            Ok(response) => Ok(response),
            Err(detail) => Err(
                LibsyError::Call { target: self.capable_target.semantic_name.clone(), detail },
            ),
        }
    }
}

/// What the judge reads starts with its own prompt and ends with the response,
/// right behind the user's last message where there is one.
pub proof fn law_judge_reads_the_last_exchange(
    judge: EscalationJudge,
    messages: Seq<MessageView>,
    candidate: Seq<char>,
)
    ensures
        ({
            let read = judge.exchange(messages, candidate);
            &&& read[0] == protocol::text_message(Role::System, judge.config.system_prompt@)
            &&& read.last() == protocol::text_message(Role::Assistant, candidate)
            &&& llm_class::last_user(messages) matches Some(asked) ==> read[read.len() - 2] == asked
        }),
{
}

/// What a turn brings: its session, and whether it escalated.
pub struct Turn {
    /// The session.
    pub session: Option<Seq<char>>,
    /// Whether the judge sent it to the capable model.
    pub escalated: bool,
}

/// The router after a run of turns.
pub open spec fn after_turns(router: RouterView, turns: Seq<Turn>) -> RouterView
    decreases turns.len(),
{
    if turns.len() == 0 {
        router
    } else {
        after_turns(router, turns.drop_last()).after(turns.last().session, turns.last().escalated)
    }
}

/// A session is pinned exactly when it was pinned before or one of its turns
/// escalated. So a pin is never lost, a session that never escalated is never
/// pinned, and what other sessions do bears on neither.
pub proof fn law_pinned_iff_escalated(router: RouterView, turns: Seq<Turn>, session: Seq<char>)
    ensures
        after_turns(router, turns).pins(Some(session)) <==> router.pins(Some(session)) || exists|
            i: int,
        |
            0 <= i < turns.len() && (#[trigger] turns[i]).session == Some(session)
                && turns[i].escalated,
    decreases turns.len(),
{
    if turns.len() > 0 {
        let before = turns.drop_last();
        law_pinned_iff_escalated(router, before, session);
        assert(forall|i: int| 0 <= i < before.len() ==> before[i] == turns[i]);
        if turns.last().session == Some(session) && turns.last().escalated {
            assert(turns[turns.len() - 1].escalated);
        }
    }
}

/// A request without a session is never pinned, and no turn of one pins anything.
pub proof fn law_no_session_no_pin(router: RouterView, escalated: bool)
    ensures
        !router.pins(None),
        router.after(None, escalated) == router,
{
}

/// Neither the targets nor the judge change from turn to turn.
pub proof fn law_targets_are_fixed(router: RouterView, turns: Seq<Turn>)
    ensures
        after_turns(router, turns).efficient == router.efficient,
        after_turns(router, turns).capable == router.capable,
        after_turns(router, turns).judge == router.judge,
        after_turns(router, turns).judge_target == router.judge_target,
    decreases turns.len(),
{
    if turns.len() > 0 {
        law_targets_are_fixed(router, turns.drop_last());
    }
}

/// A call of a turn.
pub enum TurnCall {
    /// To the efficient target.
    Efficient,
    /// To the judge.
    Judge,
    /// To the capable target.
    Capable,
}

/// What the calls of a turn come to, each where it is made.
pub struct Replies<R> {
    /// The call to the efficient target.
    pub attempt: AttemptView,
    /// The gathered response of that call.
    pub efficient: R,
    /// The judge's verdict.
    pub verdict: Option<EscalationVerdict>,
    /// The call to the capable target.
    pub capable: Result<Response<R>, Seq<char>>,
}

/// A whole turn.
pub struct WholeTurn<R> {
    /// The calls that are made, in order.
    pub calls: Seq<TurnCall>,
    /// What the turn ends with.
    pub answer: Result<Response<R>, Failure>,
    /// The router after it.
    pub router: RouterView,
}

/// A whole turn, step by step as [`EscalationRouter::start`],
/// [`EscalationRouter::efficient_replied`], [`EscalationRouter::judge_replied`] and
/// [`EscalationRouter::capable_replied`] take it.
pub open spec fn whole_turn<R>(
    router: RouterView,
    session: Option<Seq<char>>,
    replies: Replies<R>,
) -> WholeTurn<R> {
    if router.pins(session) {
        WholeTurn {
            calls: seq![TurnCall::Capable],
            answer: router.capable_answer(replies.capable),
            router,
        }
    } else {
        match router.candidate(replies.attempt) {
            Err(failure) => WholeTurn {
                calls: seq![TurnCall::Efficient],
                answer: Err(failure),
                router,
            },
            Ok(_) => {
                let escalated = insufficient(replies.verdict);
                let after = router.after(session, escalated);
                if escalated {
                    WholeTurn {
                        calls: seq![TurnCall::Efficient, TurnCall::Judge, TurnCall::Capable],
                        answer: after.capable_answer(replies.capable),
                        router: after,
                    }
                } else {
                    WholeTurn {
                        calls: seq![TurnCall::Efficient, TurnCall::Judge],
                        answer: Ok(
                            Response { llm_response: replies.efficient, metadata: None },
                        ),
                        router: after,
                    }
                }
            },
        }
    }
}

/// An attempt that fails ends the turn: where a session is not pinned and the call
/// to the efficient target fails, or its response cannot be gathered, the turn ends
/// with that failure, no other call is made, and nothing is pinned.
pub proof fn law_failed_attempt_ends_the_turn<R>(
    router: RouterView,
    session: Option<Seq<char>>,
    replies: Replies<R>,
)
    requires
        !router.pins(session),
        !(replies.attempt is Gathered),
    ensures
        ({
            let turn = whole_turn(router, session, replies);
            &&& turn.answer == Err::<Response<R>, Failure>(
                match replies.attempt {
                    AttemptView::Failed(detail) => Failure::Call {
                        target: router.efficient.semantic_name@,
                        detail,
                    },
                    AttemptView::Ungathered(detail) => Failure::Gathering(detail),
                    AttemptView::Gathered(_) => arbitrary(),
                },
            )
            &&& turn.calls == seq![TurnCall::Efficient]
            &&& turn.router == router
            &&& !turn.router.pins(session)
        }),
{
}

/// A failed call to the capable target ends an escalated turn with that failure:
/// the efficient response does not stand in for it. The session is pinned all the
/// same, so its next turn, whatever its calls come to, calls the capable target
/// alone.
pub proof fn law_failed_escalation_keeps_the_pin<R>(
    router: RouterView,
    session: Seq<char>,
    replies: Replies<R>,
    detail: Seq<char>,
    next: Replies<R>,
)
    requires
        !router.pins(Some(session)),
        replies.attempt is Gathered,
        insufficient(replies.verdict),
        replies.capable == Err::<Response<R>, Seq<char>>(detail),
    ensures
        ({
            let turn = whole_turn(router, Some(session), replies);
            let later = whole_turn(turn.router, Some(session), next);
            &&& turn.answer == Err::<Response<R>, Failure>(
                Failure::Call { target: router.capable.semantic_name@, detail },
            )
            &&& turn.router.pins(Some(session))
            &&& later.calls == seq![TurnCall::Capable]
            &&& later.answer == router.capable_answer(next.capable)
            &&& later.router == turn.router
        }),
{
}

/// A turn ends with a response exactly where the last model that it calls for one
/// gives one: the capable model where it is called, else the efficient one.
pub proof fn law_no_fallback<R>(
    router: RouterView,
    session: Option<Seq<char>>,
    replies: Replies<R>,
)
    ensures
        ({
            let turn = whole_turn(router, session, replies);
            if turn.calls.last() == TurnCall::Capable {
                turn.answer is Ok <==> replies.capable is Ok
            } else {
                turn.answer is Ok <==> replies.attempt is Gathered
            }
        }),
        whole_turn(router, session, replies).router == router.after(
            session,
            whole_turn(router, session, replies).calls.len() == 3,
        ),
{
}

/// Without a verdict nothing escalates.
pub proof fn law_silent_judge_does_not_escalate(policy: EscalationPolicy)
    ensures
        !insufficient(None),
        policy.classification(None) == ClassificationView::Scores(seq![]),
{
}

/// A verdict escalates a turn exactly by saying so: two verdicts that agree on it
/// come to the same in every step, whatever their confidence and their reason, and
/// no verdict escalates nothing.
pub proof fn law_only_the_verdict_escalates(
    router: RouterView,
    session: Option<Seq<char>>,
    policy: EscalationPolicy,
    verdict: EscalationVerdict,
    other: EscalationVerdict,
)
    ensures
        insufficient(Some(verdict)) <==> verdict.should_escalate,
        !insufficient(None),
        given(Some(&verdict)) == Some(verdict),
        given(None) is None,
        verdict.should_escalate ==> router.after(session, insufficient(Some(verdict))).pins(session)
            || session is None,
        !verdict.should_escalate ==> router.after(session, insufficient(Some(verdict))) == router,
        verdict.should_escalate == other.should_escalate ==> insufficient(Some(verdict))
            == insufficient(Some(other)) && policy.classification(Some(verdict))
            == policy.classification(Some(other)) && router.after(
            session,
            insufficient(Some(verdict)),
        ) == router.after(session, insufficient(Some(other))),
        verdict.should_escalate ==> (policy.classification(
            Some(verdict),
        ) matches ClassificationView::Scores(scores) && scores.len() == 1 && scores[0].target
            == policy.capable@ && scores[0].confidence.bits == 0x3ff0_0000_0000_0000),
        !verdict.should_escalate ==> (policy.classification(
            Some(verdict),
        ) matches ClassificationView::Scores(scores) && scores.len() == 0),
        policy.classification(None) matches ClassificationView::Scores(scores) && scores.len() == 0,
{
}

/// A whole turn goes as the judge says: where its session is not pinned and the
/// efficient response was gathered, it calls the capable model and pins the session
/// if and only if the judge escalates, and else ends with the efficient response as
/// it came.
pub proof fn law_turns_follow_the_verdict<R>(
    router: RouterView,
    session: Option<Seq<char>>,
    replies: Replies<R>,
    verdict: EscalationVerdict,
)
    requires
        !router.pins(session),
        replies.attempt is Gathered,
        replies.verdict == Some(verdict),
    ensures
        ({
            let turn = whole_turn(router, session, replies);
            &&& turn.calls.contains(TurnCall::Capable) <==> verdict.should_escalate
            &&& turn.calls[0] == TurnCall::Efficient && turn.calls[1] == TurnCall::Judge
            &&& session matches Some(id) ==> (turn.router.pins(Some(id)) <==> verdict.should_escalate)
            &&& !verdict.should_escalate ==> (turn.answer matches Ok(response)
                && response.llm_response == replies.efficient && response.metadata is None)
            &&& verdict.should_escalate ==> (match replies.capable {
                Ok(response) => turn.answer == Ok::<Response<R>, Failure>(response),
                Err(_) => turn.answer is Err,
            })
        }),
{
    let turn = whole_turn(router, session, replies);
    if verdict.should_escalate {
        assert(turn.calls[2] == TurnCall::Capable);
    }
}

/// A session is pinned exactly where the pinned set holds it, and one more turn adds
/// its own session where it escalated, and no other; the rest of the router stays.
pub proof fn law_pins_by_turn(
    router: RouterView,
    session: Option<Seq<char>>,
    escalated: bool,
    other: Seq<char>,
)
    ensures
        router.pins(Some(other)) <==> router.pinned.contains(other),
        !router.pins(None),
        router.after(session, escalated).pins(Some(other)) <==> router.pins(Some(other))
            || escalated && session == Some(other),
        router.after(session, escalated).efficient == router.efficient,
        router.after(session, escalated).capable == router.capable,
        router.after(session, escalated).judge == router.judge,
        router.after(session, escalated).judge_target == router.judge_target,
{
}

/// A request's session is the one that its metadata names, whatever it is called.
pub proof fn law_sessions(request: RequestView)
    ensures
        request.metadata is None ==> session_of(request) is None,
        request.metadata matches Some(metadata) ==> session_of(request) == metadata.session_id,
{
}

/// What a decision says: the target that is called, its tier, and why.
pub proof fn law_decisions(router: RouterView)
    ensures
        router.pinned_decision().model == router.capable.semantic_name@,
        router.pinned_decision().tier == "strong"@,
        router.pinned_decision().reason == "session pinned to capable after prior escalation"@,
        router.attempt_decision().model == router.efficient.semantic_name@,
        router.attempt_decision().tier == "weak"@,
        router.attempt_decision().reason == "initial efficient-model attempt"@,
        router.escalation_decision().model == router.capable.semantic_name@,
        router.escalation_decision().tier == "strong"@,
        router.escalation_decision().reason == "quality escalation to capable model"@,
{
}

/// A client counts tokens exactly where it can.
pub proof fn law_counting(client: LlmClient)
    ensures
        counting(None) is None,
        client.supports_count_tokens ==> counting(Some(client)) == Some(client),
        !client.supports_count_tokens ==> counting(Some(client)) is None,
{
}

/// What the judge reads, part by part: its prompt, every instruction of the
/// conversation, the user's last message where there is one, and the response.
pub proof fn law_exchanges(
    judge: EscalationJudge,
    request: RequestView,
    candidate: Seq<char>,
)
    ensures
        ({
            let asked = judge.question(request, candidate);
            let system = llm_class::instructions_in(request.messages);
            let said = if llm_class::last_user(request.messages) is Some {
                1int
            } else {
                0int
            };
            &&& asked.messages.len() == 1 + system.len() + said + 1
            &&& asked.messages[0].role == Role::System
            &&& asked.messages[0].content == seq![
                protocol::BlockView::Text { text: judge.config.system_prompt@ },
            ]
            &&& asked.messages.subrange(1, 1 + system.len() as int) == system
            &&& llm_class::last_user(request.messages) matches Some(message)
                ==> asked.messages[1 + system.len() as int] == message
            &&& asked.messages.last().role == Role::Assistant
            &&& asked.messages.last().content == seq![
                protocol::BlockView::Text { text: candidate },
            ]
            &&& asked.response_format == judge.config.response_schema
            &&& asked.model == request.model
            &&& asked.metadata == request.metadata
            &&& asked.instructions.len() == 0
            &&& asked.output_rest is None
            &&& asked.rest is None
            &&& asked.raw_request is None
        }),
{
    let asked = judge.question(request, candidate);
    let system = llm_class::instructions_in(request.messages);
    assert(asked.messages.subrange(1, 1 + system.len() as int) =~= system);
}

/// The judge reads the response that was left for it, and an empty one where none
/// was.
pub proof fn law_candidates(state: State, text: Seq<char>)
    ensures
        state.text("escalation.candidate"@) == Some(text) ==> candidate_in(state) == text,
        state.text("escalation.candidate"@) is None ==> candidate_in(state).len() == 0,
        at_most_one(None).len() == 0,
{
    reveal_strlit("");
}

/// What a failure is told as: a call that failed by its target and its cause, a
/// response that could not be gathered by what was being done and its cause. Nothing
/// else ends an attempt, and only a failed call an escalation.
pub proof fn law_failures_are_told<R>(
    router: RouterView,
    error: LibsyError,
    target: Seq<char>,
    detail: Seq<char>,
    response: Response<R>,
)
    ensures
        tells(error, Failure::Call { target, detail }) ==> (error matches LibsyError::Call {
            target: called,
            detail: cause,
        } && called@ == target && cause@ == detail),
        tells(error, Failure::Gathering(detail)) ==> (error matches LibsyError::External {
            context,
            detail: cause,
        } && context@ == "aggregating efficient response"@ && cause@ == detail),
        router.candidate(AttemptView::Gathered(detail)) == Ok::<Seq<char>, Failure>(detail),
        router.candidate(AttemptView::Failed(detail)) == Err::<Seq<char>, Failure>(
            Failure::Call { target: router.efficient.semantic_name@, detail },
        ),
        router.candidate(AttemptView::Ungathered(detail)) == Err::<Seq<char>, Failure>(
            Failure::Gathering(detail),
        ),
        router.capable_answer(Ok::<Response<R>, Seq<char>>(response)) == Ok::<
            Response<R>,
            Failure,
        >(response),
        router.capable_answer(Err::<Response<R>, Seq<char>>(detail)) == Err::<
            Response<R>,
            Failure,
        >(Failure::Call { target: router.capable.semantic_name@, detail }),
{
}

/// A pinned session's turn is the capable model's alone: no other call is made, the
/// turn ends as that call does, and the pin stays, whatever any judge would say.
pub proof fn law_pinned_turns_go_strong<R>(
    router: RouterView,
    session: Seq<char>,
    replies: Replies<R>,
)
    requires
        router.pinned.contains(session),
    ensures
        ({
            let turn = whole_turn(router, Some(session), replies);
            &&& turn.calls == seq![TurnCall::Capable]
            &&& turn.router == router
            &&& match replies.capable {
                Ok(response) => turn.answer == Ok::<Response<R>, Failure>(response),
                Err(detail) => turn.answer == Err::<Response<R>, Failure>(
                    Failure::Call { target: router.capable.semantic_name@, detail },
                ),
            }
        }),
{
}

/// A turn whose judge says nothing ends with the efficient response as it came, and
/// pins nothing.
pub proof fn law_silence_keeps_the_efficient_response<R>(
    router: RouterView,
    session: Option<Seq<char>>,
    replies: Replies<R>,
)
    requires
        !router.pins(session),
        replies.attempt is Gathered,
        replies.verdict is None,
    ensures
        ({
            let turn = whole_turn(router, session, replies);
            &&& turn.calls == seq![TurnCall::Efficient, TurnCall::Judge]
            &&& turn.router == router
            &&& turn.answer matches Ok(response) && response.llm_response == replies.efficient
                && response.metadata is None
        }),
{
}

/// An attempt is seen as what it came to.
pub proof fn law_attempts_are_seen(attempt: Attempt)
    ensures
        attempt matches Attempt::Failed(detail) ==> attempt@ == AttemptView::Failed(detail@),
        attempt matches Attempt::Ungathered(detail) ==> attempt@ == AttemptView::Ungathered(
            detail@,
        ),
        attempt matches Attempt::Gathered(text) ==> attempt@ == AttemptView::Gathered(text@),
{
}

} // verus!
