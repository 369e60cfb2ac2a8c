//! Notes handed to the model that takes a turn over.
//!
//! When a turn escalates to the strong tier, or hands back to the weak one, a
//! short note from the configuration can tell the model taking over *why*, so
//! that it neither diagnoses again nor re-opens settled work.
//!
//! [`HandoffNoteConfig`] owns the notes and decides which of them a turn earns;
//! [`inject_note`] splices one into the request about to be sent. Neither tracks
//! anything from turn to turn: a note speaks of the turn's own signals, rides in
//! the one forwarded request, and is written back nowhere.

use crate::protocol::{
    blocks_view, messages_view, text_block, text_message, BlockView, ContentBlock, Message, MessageView, Request,
    RequestView, Role,
};
use crate::text::text_eq;
use vstd::prelude::*;
use vstd::string::*;

verus! {

/// The notes a stage router hands over, and when the escalation note applies.
#[derive(Debug, PartialEq)]
pub struct HandoffNoteConfig {
    escalation_note: String,
    deescalation_note: Option<String>,
    only_on_wrong_signal_escalation: bool,
}

/// The configured notes.
pub struct HandoffNotes {
    /// Handed to the strong tier.
    pub escalation: Seq<char>,
    /// Handed to the weak tier, where there is one.
    pub deescalation: Option<Seq<char>>,
    /// Whether only an escalation that the signals drove earns the note.
    pub guarded: bool,
}

impl View for HandoffNoteConfig {
    type V = HandoffNotes;

    closed spec fn view(&self) -> HandoffNotes {
        HandoffNotes {
            escalation: self.escalation_note@,
            deescalation: match self.deescalation_note {
                Some(note) => Some(note@),
                None => None,
            },
            guarded: self.only_on_wrong_signal_escalation,
        }
    }
}

/// The sources of a decision that the signals drove.
pub open spec fn signal_driven(source: Option<Seq<char>>) -> bool {
    source == Some("override"@) || source == Some("dimensions"@)
}

impl HandoffNotes {
    /// The note that a turn earns, by the tier it was routed to and what
    /// produced the decision.
    pub open spec fn earned(self, tier: Seq<char>, source: Option<Seq<char>>) -> Option<Seq<char>> {
        if tier == "strong"@ {
            if !self.guarded || signal_driven(source) {
                Some(self.escalation)
            } else {
                None
            }
        } else if tier == "weak"@ {
            self.deescalation
        } else {
            None
        }
    }
}

impl HandoffNoteConfig {
    /// Configures the note handed to the strong tier, an optional note handed
    /// back to the weak tier, and whether the former needs a decision that the
    /// signals drove rather than a default that a turn fell open to.
    pub fn new(
        escalation_note: &str,
        deescalation_note: Option<String>,
        only_on_wrong_signal_escalation: bool,
    ) -> (config: HandoffNoteConfig)
        ensures
            config@ == (HandoffNotes {
                escalation: escalation_note@,
                deescalation: match deescalation_note {
                    Some(note) => Some(note@),
                    None => None,
                },
                guarded: only_on_wrong_signal_escalation,
            }),
    {
        HandoffNoteConfig {
            escalation_note: escalation_note.to_owned(),
            deescalation_note,
            only_on_wrong_signal_escalation,
        }
    }

    /// The note for a turn routed to `tier` by `source`, `None` where none applies.
    pub fn note_for(&self, tier: &str, source: Option<&str>) -> (note: Option<String>)
        ensures
            match note {
                Some(text) => self@.earned(
                    tier@,
                    match source {
                        Some(label) => Some(label@),
                        None => None,
                    },
                ) == Some(text@),
                None => self@.earned(
                    tier@,
                    match source {
                        Some(label) => Some(label@),
                        None => None,
                    },
                ) is None,
            },
    {
        proof {
            lemma_tier_names();
        }
        if text_eq(tier, "strong") {
            // A default that a turn fell open to would tell the strong model
            // that the weak one was stalling when it was not.
            let driven = match source {
                Some(label) => text_eq(label, "override") || text_eq(label, "dimensions"),
                None => false,
            };
            if !self.only_on_wrong_signal_escalation || driven {
                Some(self.escalation_note.clone())
            } else {
                None
            }
        } else if text_eq(tier, "weak") {
            match &self.deescalation_note {
                Some(note) => Some(note.clone()),
                None => None,
            }
        } else {
            None
        }
    }
}

/// The two tiers have different names.
pub proof fn lemma_tier_names()
    ensures
        "strong"@ != "weak"@,
        "strong"@.len() == 6,
        "weak"@.len() == 4,
{
    reveal_strlit("strong");
    reveal_strlit("weak");
    assert("strong"@.len() != "weak"@.len());
}

/// A conversation with a note at its end: in the last message where that is the
/// user's, else in a user message of its own.
pub open spec fn noted(messages: Seq<MessageView>, note: Seq<char>) -> Seq<MessageView> {
    if messages.len() > 0 && messages.last().role == Role::User {
        messages.drop_last().push(
            MessageView {
                role: Role::User,
                content: messages.last().content.push(text_block(note)),
            },
        )
    } else {
        messages.push(text_message(Role::User, note))
    }
}

/// Splices `note` into the request that the routed model is about to receive.
///
/// Two user messages in a row are rejected by some providers, and a tool result
/// has to stay first within its message. Appending a text block to a trailing
/// user message respects both; any other ending takes a fresh user message.
pub fn inject_note(request: &mut Request, note: &str)
    ensures
        final(request)@ == (RequestView {
            messages: noted(old(request)@.messages, note@),
            ..old(request)@
        }),
{
    let ghost before = request.llm_request.messages@;
    let count = request.llm_request.messages.len();
    if count > 0 && request.llm_request.messages[count - 1].role == Role::User {
        let last = request.llm_request.messages.pop();
        if let Some(mut message) = last {
            let ghost content = message.content@;
            message.content.push(ContentBlock::Text { text: note.to_owned() });
            proof {
                assert(blocks_view(message.content@) =~= blocks_view(content).push(
                    text_block(note@),
                ));
            }
            request.llm_request.messages.push(message);
        }
    } else {
        request.llm_request.messages.push(Message::text(Role::User, note));
    }
    proof {
        assert(messages_view(request.llm_request.messages@) =~= noted(
            messages_view(before),
            note@,
        ));
    }
}

/// No two user messages stand next to each other.
pub open spec fn users_apart(messages: Seq<MessageView>) -> bool {
    forall|i: int, j: int|
        0 <= i && j == i + 1 && j < messages.len() && (#[trigger] messages[i]).role == Role::User
            ==> (#[trigger] messages[j]).role != Role::User
}

/// Injecting a note into a conversation in which no two user messages stand next
/// to each other gives such a conversation again, and one that the user ends.
pub proof fn law_note_keeps_users_apart(messages: Seq<MessageView>, note: Seq<char>)
    requires
        users_apart(messages),
    ensures
        users_apart(noted(messages, note)),
        noted(messages, note).last().role == Role::User,
{
    let after = noted(messages, note);
    assert forall|i: int, j: int|
        0 <= i && j == i + 1 && j < after.len() && (#[trigger] after[i]).role
            == Role::User implies (#[trigger] after[j]).role != Role::User by {
        if j < messages.len() {
            assert(messages[i].role == after[i].role);
            assert(messages[j].role == after[j].role);
        } else {
            assert(messages[i] == messages.last());
        }
    }
}

/// A note is a suffix: every message before the last stays as it is, and so does
/// every block that the last message held, in its place.
pub proof fn law_note_is_a_suffix(messages: Seq<MessageView>, note: Seq<char>)
    ensures
        messages.len() <= noted(messages, note).len() <= messages.len() + 1,
        forall|i: int|
            0 <= i < messages.len() ==> (#[trigger] messages[i]).content.is_prefix_of(
                noted(messages, note)[i].content,
            ) && messages[i].role == noted(messages, note)[i].role,
        forall|i: int|
            0 <= i < messages.len() - 1 ==> #[trigger] noted(messages, note)[i] == messages[i],
        noted(messages, note).last().content.last() == text_block(note),
{
    let after = noted(messages, note);
    assert forall|i: int| 0 <= i < messages.len() implies (
    #[trigger] messages[i]).content.is_prefix_of(after[i].content) && messages[i].role
        == after[i].role by {
        assert(messages[i].content =~= after[i].content.take(messages[i].content.len() as int));
    }
}

/// A guarded configuration hands the strong tier its note exactly when the signals
/// drove the turn there.
pub proof fn law_guarded_note(notes: HandoffNotes, source: Option<Seq<char>>)
    requires
        notes.guarded,
    ensures
        notes.earned("strong"@, source) is Some <==> signal_driven(source),
{
}

/// Which note a turn earns: on the strong tier the escalation note, always where
/// it is not guarded, and else exactly on an override or a score that decided; on
/// the weak tier the de-escalation note, whatever the source and the guard; on any
/// other none.
pub proof fn law_notes_by_tier_and_source(
    notes: HandoffNotes,
    tier: Seq<char>,
    source: Option<Seq<char>>,
)
    ensures
        !notes.guarded ==> notes.earned("strong"@, source) == Some(notes.escalation),
        notes.guarded && (source == Some("override"@) || source == Some("dimensions"@))
            ==> notes.earned("strong"@, source) == Some(notes.escalation),
        notes.guarded && source != Some("override"@) && source != Some("dimensions"@)
            ==> notes.earned("strong"@, source) is None,
        notes.earned("weak"@, source) == notes.deescalation,
        tier != "strong"@ && tier != "weak"@ ==> notes.earned(tier, source) is None,
{
    lemma_tier_names();
}

/// Where a note goes: behind what the user said last, as one more block of that
/// message; where the user did not speak last, as a message of its own that says
/// the note and nothing else.
pub proof fn law_where_a_note_goes(messages: Seq<MessageView>, note: Seq<char>)
    ensures
        ({
            let after = noted(messages, note);
            let block = BlockView::Text { text: note };
            if messages.len() > 0 && messages.last().role == Role::User {
                &&& after.len() == messages.len()
                &&& after.last().role == Role::User
                &&& after.last().content.len() == messages.last().content.len() + 1
                &&& after.last().content.drop_last() == messages.last().content
                &&& after.last().content.last() == block
                &&& after.drop_last() == messages.drop_last()
            } else {
                &&& after.len() == messages.len() + 1
                &&& after.drop_last() == messages
                &&& after.last().role == Role::User
                &&& after.last().content == seq![block]
            }
        }),
{
    let after = noted(messages, note);
    if messages.len() > 0 && messages.last().role == Role::User {
        assert(after.last().content.drop_last() =~= messages.last().content);
        assert(after.drop_last() =~= messages.drop_last());
    } else {
        assert(after.drop_last() =~= messages);
    }
}

} // verus!
