//! System prompts by tier.
//!
//! A strong and a weak model rarely want the same instructions: the one is worth
//! telling to slow down and diagnose, the other to stay on the settled plan.
//! [`TierPromptProcessor`] appends the prompt of the tier that a turn was routed
//! to, on every turn of that tier and however the tier was chosen.

use crate::protocol;
use crate::protocol::{ContentBlock, InstructionBlock, InstructionView, Request, RequestView, Role};
use crate::stage_router::LAST_TIER_KEY;
use crate::state::State;
use crate::text::text_eq;
use vstd::prelude::*;
use vstd::string::*;

verus! {

/// Where in a turn a processor is called.
#[derive(Clone, Copy, Debug, PartialEq, Eq, Structural)]
pub enum Event {
    /// The request came in; nothing is decided yet.
    Request,
    /// A decision was made.
    Decision,
    /// The request is about to go out to the routed model.
    ModelRequest,
}

/// The system prompt of each tier. A tier without one is left as it is.
#[derive(Clone, Debug, PartialEq)]
pub struct TierPrompts {
    strong: Option<String>,
    weak: Option<String>,
}

/// The configured prompts.
pub struct TierPromptTexts {
    /// The strong tier's.
    pub strong: Option<Seq<char>>,
    /// The weak tier's.
    pub weak: Option<Seq<char>>,
}

impl View for TierPrompts {
    type V = TierPromptTexts;

    closed spec fn view(&self) -> TierPromptTexts {
        TierPromptTexts {
            strong: protocol::optional_text(self.strong),
            weak: protocol::optional_text(self.weak),
        }
    }
}

impl TierPromptTexts {
    /// The prompt of a tier, by the name of its target.
    pub open spec fn of(self, tier: Seq<char>) -> Option<Seq<char>> {
        if tier == "strong"@ {
            self.strong
        } else if tier == "weak"@ {
            self.weak
        } else {
            None
        }
    }
}

impl Default for TierPrompts {
    fn default() -> (prompts: TierPrompts)
        ensures
            prompts@ == (TierPromptTexts { strong: None, weak: None }),
    {
        TierPrompts { strong: None, weak: None }
    }
}

impl TierPrompts {
    /// The prompt of either tier, or of both.
    pub fn new(strong: Option<String>, weak: Option<String>) -> (prompts: TierPrompts)
        ensures
            prompts@ == (TierPromptTexts {
                strong: protocol::optional_text(strong),
                weak: protocol::optional_text(weak),
            }),
    {
        TierPrompts { strong, weak }
    }

    /// The prompt of the tier with this name.
    pub fn prompt_for(&self, tier: &str) -> (prompt: Option<&str>)
        ensures
            match prompt {
                Some(text) => self@.of(tier@) == Some(text@),
                None => self@.of(tier@) is None,
            },
    {
        if text_eq(tier, "strong") {
            match &self.strong {
                Some(text) => Some(text.as_str()),
                None => None,
            }
        } else if text_eq(tier, "weak") {
            match &self.weak {
                Some(text) => Some(text.as_str()),
                None => None,
            }
        } else {
            None
        }
    }
}

/// Appends the routed tier's system prompt to the request that goes out.
#[derive(Debug, PartialEq)]
pub struct TierPromptProcessor {
    prompts: TierPrompts,
}

impl View for TierPromptProcessor {
    type V = TierPromptTexts;

    closed spec fn view(&self) -> TierPromptTexts {
        self.prompts@
    }
}

/// A system instruction that says one text.
pub open spec fn system_instruction(text: Seq<char>) -> InstructionView {
    InstructionView { role: Role::System, content: seq![protocol::text_block(text)] }
}

/// The request with one more instruction, or as it was where there is none.
pub open spec fn instructed(request: RequestView, prompt: Option<Seq<char>>) -> RequestView {
    match prompt {
        Some(text) => RequestView {
            instructions: request.instructions.push(system_instruction(text)),
            ..request
        },
        None => request,
    }
}

/// The prompt that a turn calls for: the stamped tier's, once a tier is stamped.
pub open spec fn prompt_due(
    prompts: TierPromptTexts,
    event: Event,
    tier: Option<Seq<char>>,
) -> Option<Seq<char>> {
    match tier {
        Some(tier) if event == Event::ModelRequest => prompts.of(tier),
        _ => None,
    }
}

impl TierPromptProcessor {
    /// Hands each tier its prompt.
    pub fn new(prompts: TierPrompts) -> (processor: TierPromptProcessor)
        ensures
            processor@ == prompts@,
    {
        TierPromptProcessor { prompts }
    }

    /// Appends the stamped tier's prompt to a request that is about to go out.
    /// It comes after the client's own instructions, so those still lead. Before
    /// a tier is stamped, at any other event, and for a tier without a prompt,
    /// the request stays as it is.
    pub fn process(&self, state: &State, event: Event, request: &mut Request)
        ensures
            final(request)@ == instructed(
                old(request)@,
                prompt_due(self@, event, state.text(LAST_TIER_KEY@)),
            ),
    {
        if event != Event::ModelRequest {
            return;
        }
        if let Some(tier) = state.text_at(LAST_TIER_KEY) {
            if let Some(prompt) = self.prompts.prompt_for(tier) {
                let instruction = InstructionBlock {
                    role: Role::System,
                    content: vec![ContentBlock::Text { text: prompt.to_owned() }],
                };
                proof {
                    assert(instruction@.content =~= system_instruction(prompt@).content);
                }
                request.llm_request.instructions.push(instruction);
                proof {
                    assert(request@.instructions =~= old(request)@.instructions.push(
                        system_instruction(prompt@),
                    ));
                }
            }
        }
    }
}

/// The caller's own instructions stay first and unchanged, and nothing else of
/// the request moves.
pub proof fn law_client_instructions_lead(request: RequestView, prompt: Option<Seq<char>>)
    ensures
        request.instructions.is_prefix_of(instructed(request, prompt).instructions),
        instructed(request, prompt).messages == request.messages,
        instructed(request, prompt).instructions.len() <= request.instructions.len() + 1,
{
    assert(request.instructions =~= instructed(request, prompt).instructions.take(
        request.instructions.len() as int,
    ));
}

/// Either tier has its own prompt and no other tier has any.
pub proof fn law_prompts_by_tier(prompts: TierPromptTexts, tier: Seq<char>)
    ensures
        prompts.of("strong"@) == prompts.strong,
        prompts.of("weak"@) == prompts.weak,
        tier != "strong"@ && tier != "weak"@ ==> prompts.of(tier) is None,
{
    reveal_strlit("strong");
    reveal_strlit("weak");
    assert("strong"@.len() != "weak"@.len());
}

/// A prompt is due exactly when a request goes out on a stamped tier, and is then
/// that tier's.
pub proof fn law_when_a_prompt_is_due(
    prompts: TierPromptTexts,
    event: Event,
    tier: Seq<char>,
)
    ensures
        prompt_due(prompts, Event::ModelRequest, Some(tier)) == prompts.of(tier),
        event != Event::ModelRequest ==> prompt_due(prompts, event, Some(tier)) is None,
        prompt_due(prompts, event, None) is None,
{
}

/// A prompt is one more system instruction of one text behind the others, and
/// nothing else of the request changes; without a prompt nothing does.
pub proof fn law_a_prompt_is_one_more_instruction(request: RequestView, prompt: Seq<char>)
    ensures
        instructed(request, None) == request,
        ({
            let after = instructed(request, Some(prompt));
            &&& after.instructions.len() == request.instructions.len() + 1
            &&& after.instructions.drop_last() == request.instructions
            &&& after.instructions.last().role == Role::System
            &&& after.instructions.last().content == seq![
                protocol::BlockView::Text { text: prompt },
            ]
            &&& after.messages == request.messages
            &&& after.model == request.model
            &&& after.response_format == request.response_format
            &&& after.output_rest == request.output_rest
            &&& after.rest == request.rest
            &&& after.raw_request == request.raw_request
            &&& after.metadata == request.metadata
        }),
{
    assert(instructed(request, Some(prompt)).instructions.drop_last() =~= request.instructions);
}

} // verus!
