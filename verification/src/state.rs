//! What routing remembers of a session from one turn to the next.

use crate::binary::Binary32;
use vstd::hash_map::StringHashMap;
use vstd::prelude::*;
use vstd::string::*;

verus! {

/// What the recent tool results say of a coding-agent turn.
#[derive(Clone, Copy, Debug, PartialEq, Eq, Structural)]
pub struct ToolSignals {
    /// Largest error severity in the window.
    pub severity: Binary32,
    /// Whether the context was compacted.
    pub compacted: bool,
    /// Whether tests passed in the window.
    pub tests_passed: bool,
    /// Files written in the window.
    pub recent_write_count: u32,
    /// Files edited in the window.
    pub recent_edit_count: u32,
    /// Files read in the window.
    pub recent_read_count: u32,
    /// Plans written in the window.
    pub recent_todowrite_count: u32,
    /// Turns taken so far.
    pub turn_depth: u32,
}

/// The signals of a turn without tool activity.
pub open spec fn quiet_signals() -> ToolSignals {
    ToolSignals {
        severity: Binary32 { bits: 0 },
        compacted: false,
        tests_passed: false,
        recent_write_count: 0,
        recent_edit_count: 0,
        recent_read_count: 0,
        recent_todowrite_count: 0,
        turn_depth: 0,
    }
}

impl Default for ToolSignals {
    fn default() -> (signals: ToolSignals)
        ensures
            signals == quiet_signals(),
    {
        ToolSignals {
            severity: Binary32 { bits: 0 },
            compacted: false,
            tests_passed: false,
            recent_write_count: 0,
            recent_edit_count: 0,
            recent_read_count: 0,
            recent_todowrite_count: 0,
            turn_depth: 0,
        }
    }
}

/// One remembered value.
#[derive(Debug, PartialEq)]
pub enum StateValue {
    /// A text.
    String(String),
    /// A flag.
    Bool(bool),
    /// A count.
    Integer(i64),
}

/// One remembered value.
pub enum StateValueView {
    /// A text.
    Text(Seq<char>),
    /// A flag.
    Bool(bool),
    /// A count.
    Integer(i64),
}

impl View for StateValue {
    type V = StateValueView;

    open spec fn view(&self) -> StateValueView {
        match self {
            StateValue::String(text) => StateValueView::Text(text@),
            StateValue::Bool(flag) => StateValueView::Bool(*flag),
            StateValue::Integer(count) => StateValueView::Integer(*count),
        }
    }
}

/// What routing remembers of a session.
pub struct State {
    /// The signals of the current turn, once there was tool activity.
    pub tool_signals: Option<ToolSignals>,
    /// Values that one component leaves for another.
    pub extra: StringHashMap<StateValue>,
}

impl State {
    /// The remembered values, by key; `tool_signals` stands beside them.
    pub open spec fn entries(self) -> Map<Seq<char>, StateValueView> {
        self.extra@.map_values(|value: StateValue| value@)
    }

    /// The text remembered under a key.
    pub open spec fn text(self, key: Seq<char>) -> Option<Seq<char>> {
        if self.entries().contains_key(key) {
            match self.entries()[key] {
                StateValueView::Text(text) => Some(text),
                _ => None,
            }
        } else {
            None
        }
    }

    /// Remembers a text under a key.
    pub fn set_text(&mut self, key: &str, text: &str)
        ensures
            final(self).entries() == old(self).entries().insert(
                key@,
                StateValueView::Text(text@),
            ),
            final(self).tool_signals == old(self).tool_signals,
    {
        let ghost before = self.entries();
        self.extra.insert(key.to_owned(), StateValue::String(text.to_owned()));
        proof {
            assert(self.entries() =~= before.insert(key@, StateValueView::Text(text@)));
        }
    }

    /// The text remembered under a key, `None` where nothing or no text is.
    pub fn text_at(&self, key: &str) -> (found: Option<&str>)
        ensures
            match found {
                Some(text) => self.text(key@) == Some(text@),
                None => self.text(key@) is None,
            },
    {
        match self.extra.get(key) {
            Some(StateValue::String(text)) => Some(text.as_str()),
            _ => None,
        }
    }
}

impl Default for State {
    fn default() -> (state: State)
        ensures
            state.tool_signals is None,
            state.entries() == Map::<Seq<char>, StateValueView>::empty(),
    {
        let state = State { tool_signals: None, extra: StringHashMap::new() };
        proof {
            assert(state.entries() =~= Map::<Seq<char>, StateValueView>::empty());
        }
        state
    }
}

/// What is remembered is seen key by key, and a text is read exactly where a text
/// is remembered.
pub proof fn law_entries(state: State, key: Seq<char>)
    ensures
        state.entries().contains_key(key) <==> state.extra@.contains_key(key),
        state.extra@.contains_key(key) ==> match state.extra@[key] {
            StateValue::String(text) => state.entries()[key] == StateValueView::Text(text@)
                && state.text(key) == Some(text@),
            StateValue::Bool(flag) => state.entries()[key] == StateValueView::Bool(flag)
                && state.text(key) is None,
            StateValue::Integer(count) => state.entries()[key] == StateValueView::Integer(count)
                && state.text(key) is None,
        },
        !state.extra@.contains_key(key) ==> state.text(key) is None,
{
}

/// A turn without tool activity has no severity, no flag and no count.
pub proof fn law_quiet_signals()
    ensures
        quiet_signals().severity.bits == 0,
        !quiet_signals().compacted,
        !quiet_signals().tests_passed,
        quiet_signals().recent_write_count == 0,
        quiet_signals().recent_edit_count == 0,
        quiet_signals().recent_read_count == 0,
        quiet_signals().recent_todowrite_count == 0,
        quiet_signals().turn_depth == 0,
{
}

} // verus!
