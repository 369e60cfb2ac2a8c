//! System prompts by tier.

use switchyard::protocol::{ContentBlock, InstructionBlock, Request, Role};
use switchyard::stage_router::LAST_TIER_KEY;
use switchyard::state::State;
use switchyard::tier_prompts::{Event, TierPromptProcessor, TierPrompts};

const STRONG_PROMPT: &str = "diagnose before you edit";
const WEAK_PROMPT: &str = "follow the settled plan";

fn prompts() -> TierPrompts {
    TierPrompts::new(
        Some(STRONG_PROMPT.to_string()),
        Some(WEAK_PROMPT.to_string()),
    )
}

fn state_on(tier: &str) -> State {
    let mut state = State::default();
    state.set_text(LAST_TIER_KEY, tier);
    state
}

fn instructions(request: &Request) -> Vec<String> {
    request
        .llm_request
        .instructions
        .iter()
        .filter_map(|block| {
            block.content.iter().find_map(|content| match content {
                ContentBlock::Text { text } => Some(text.clone()),
                _ => None,
            })
        })
        .collect()
}

fn run(processor: &TierPromptProcessor, state: &State) -> Request {
    let mut request = Request::default();
    processor.process(state, Event::ModelRequest, &mut request);
    request
}

#[test]
fn each_tier_gets_its_own_prompt() {
    let processor = TierPromptProcessor::new(prompts());
    for (tier, expected) in [("strong", STRONG_PROMPT), ("weak", WEAK_PROMPT)] {
        let request = run(&processor, &state_on(tier));
        assert_eq!(instructions(&request), vec![expected.to_string()]);
        assert_eq!(request.llm_request.instructions[0].role, Role::System);
    }
}

#[test]
fn an_unconfigured_tier_is_left_untouched() {
    let processor =
        TierPromptProcessor::new(TierPrompts::new(Some(STRONG_PROMPT.to_string()), None));
    let request = run(&processor, &state_on("weak"));
    assert!(instructions(&request).is_empty());
}

#[test]
fn nothing_is_injected_before_a_tier_is_known() {
    let processor = TierPromptProcessor::new(prompts());
    let request = run(&processor, &State::default());
    assert!(instructions(&request).is_empty());
}

#[test]
fn the_prompt_follows_the_client_instructions() {
    let processor = TierPromptProcessor::new(prompts());
    let state = state_on("strong");
    let mut request = Request::default();
    request.llm_request.instructions.push(InstructionBlock {
        role: Role::System,
        content: vec![ContentBlock::Text {
            text: "you are a coding agent".to_string(),
        }],
    });

    processor.process(&state, Event::ModelRequest, &mut request);

    assert_eq!(
        instructions(&request),
        vec![
            "you are a coding agent".to_string(),
            STRONG_PROMPT.to_string()
        ]
    );
}

#[test]
fn other_events_inject_nothing() {
    let processor = TierPromptProcessor::new(prompts());
    let state = state_on("strong");
    for event in [Event::Request, Event::Decision] {
        let mut request = Request::default();
        processor.process(&state, event, &mut request);
        assert!(instructions(&request).is_empty());
    }
}

#[test]
fn only_the_two_tiers_have_prompts() {
    let prompts = prompts();
    assert_eq!(prompts.prompt_for("strong"), Some(STRONG_PROMPT));
    assert_eq!(prompts.prompt_for("weak"), Some(WEAK_PROMPT));
    assert_eq!(prompts.prompt_for("judge"), None);
    assert_eq!(TierPrompts::default().prompt_for("strong"), None);
}
