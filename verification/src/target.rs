//! Targets that a turn can be sent to, and what can go wrong when routing one.

use crate::binary::Binary64;
use crate::text::{concat, text_eq};
use vstd::prelude::*;
use vstd::string::*;

verus! {

/// A client that calls reach a target through. The client itself lives with
/// whoever makes the calls; routing knows it by its handle.
#[derive(Clone, Copy, Debug, PartialEq, Eq, Structural)]
pub struct LlmClient {
    /// Finds the client again.
    pub handle: usize,
    /// Whether it can count tokens.
    pub supports_count_tokens: bool,
}

/// Somewhere that a turn can be sent.
#[derive(Debug, PartialEq)]
pub struct LlmTarget {
    /// The name that decisions are made in.
    pub semantic_name: String,
    /// The client that calls go through, where there is one.
    pub llm_client: Option<LlmClient>,
}

/// The targets of a router.
#[derive(Debug, PartialEq)]
pub struct LlmTargetSet {
    /// In the order they were configured.
    pub targets: Vec<LlmTarget>,
}

/// Why an algorithm could not be built or could not decide.
#[derive(Debug, PartialEq)]
pub enum AlgorithmProblem {
    /// The confidence threshold lies outside `[0, 1]`.
    ConfidenceThreshold(Binary64),
    /// The threshold on the judge's verdict lies outside `[0, 1]`.
    JudgeThreshold(Binary64),
    /// No default target was recorded to fall open to.
    NoDefaultTarget,
    /// The packaged judge prompt or schema did not load.
    JudgeConfig(String),
}

/// What can go wrong when routing.
#[derive(Debug, PartialEq)]
pub enum LibsyError {
    /// The algorithm itself cannot go on.
    AlgorithmError {
        /// Why.
        problem: AlgorithmProblem,
    },
    /// No target has the name asked for.
    TargetNotFound {
        /// The name.
        name: String,
    },
    /// A call to a target failed.
    Call {
        /// The target's name.
        target: String,
        /// What went wrong.
        detail: String,
    },
    /// Something outside the algorithm failed.
    External {
        /// What was being done.
        context: String,
        /// What went wrong.
        detail: String,
    },
}

impl LlmTarget {
    /// A copy of the target.
    pub fn copy(&self) -> (copy: LlmTarget)
        ensures
            copy == *self,
    {
        LlmTarget { semantic_name: self.semantic_name.clone(), llm_client: self.llm_client }
    }
}

/// The first target that has a name.
pub open spec fn first_named(targets: Seq<LlmTarget>, name: Seq<char>) -> Option<LlmTarget>
    decreases targets.len(),
{
    if targets.len() == 0 {
        None
    } else if targets[0].semantic_name@ == name {
        Some(targets[0])
    } else {
        first_named(targets.drop_first(), name)
    }
}

impl LlmTargetSet {
    /// The set of these targets.
    pub fn new(targets: Vec<LlmTarget>) -> (set: LlmTargetSet)
        ensures
            set.targets@ == targets@,
    {
        LlmTargetSet { targets }
    }

    /// The target with this name, the first where several have it.
    pub fn get_target(&self, name: &str) -> (found: Result<LlmTarget, LibsyError>)
        ensures
            match first_named(self.targets@, name@) {
                Some(target) => found == Ok::<LlmTarget, LibsyError>(target),
                None => found matches Err(LibsyError::TargetNotFound { name: missing })
                    && missing@ == name@,
            },
    {
        let mut i: usize = 0;
        proof {
            assert(self.targets@.skip(0) =~= self.targets@);
        }
        while i < self.targets.len()
            invariant
                i <= self.targets@.len(),
                first_named(self.targets@.skip(i as int), name@) == first_named(
                    self.targets@,
                    name@,
                ),
            decreases self.targets@.len() - i,
        {
            proof {
                assert(self.targets@.skip(i as int).drop_first() =~= self.targets@.skip(i + 1));
            }
            if text_eq(self.targets[i].semantic_name.as_str(), name) {
                return Ok(self.targets[i].copy());
            }
            i += 1;
        }
        Err(LibsyError::TargetNotFound { name: name.to_owned() })
    }
}

/// A target found by its name has that name.
pub proof fn lemma_first_named(targets: Seq<LlmTarget>, name: Seq<char>)
    ensures
        first_named(targets, name) matches Some(target) ==> target.semantic_name@ == name
            && targets.contains(target),
    decreases targets.len(),
{
    if targets.len() > 0 && targets[0].semantic_name@ != name {
        lemma_first_named(targets.drop_first(), name);
        if let Some(target) = first_named(targets, name) {
            let i = choose|i: int|
                0 <= i < targets.drop_first().len() && targets.drop_first()[i] == target;
            assert(targets[i + 1] == target);
        }
    }
}

/// What a problem says to a reader; `number` is the offending number as it is
/// written out, where the problem has one.
pub open spec fn problem_message(problem: AlgorithmProblem, number: Seq<char>) -> Seq<char> {
    match problem {
        AlgorithmProblem::ConfidenceThreshold(_) =>
            "confidence_threshold must be between 0 and 1, got "@ + number,
        AlgorithmProblem::JudgeThreshold(_) => "threshold must be between 0 and 1, got "@ + number,
        AlgorithmProblem::NoDefaultTarget =>
            "stage classifier left no default target to fall open to"@,
        AlgorithmProblem::JudgeConfig(detail) => detail@,
    }
}

impl AlgorithmProblem {
    /// The problem in words. `number` is the offending number as it is written
    /// out; problems without one ignore it.
    pub fn message(&self, number: &str) -> (message: String)
        ensures
            message@ == problem_message(*self, number@),
    {
        match self {
            AlgorithmProblem::ConfidenceThreshold(_) => concat(
                "confidence_threshold must be between 0 and 1, got ",
                number,
            ),
            AlgorithmProblem::JudgeThreshold(_) => concat(
                "threshold must be between 0 and 1, got ",
                number,
            ),
            AlgorithmProblem::NoDefaultTarget =>
                "stage classifier left no default target to fall open to".to_owned(),
            AlgorithmProblem::JudgeConfig(detail) => detail.clone(),
        }
    }
}

/// A lookup finds the first target of the name: the target at a place where no
/// earlier one has the name, and nothing where none has it.
pub proof fn law_lookup(targets: Seq<LlmTarget>, name: Seq<char>, at: int)
    requires
        0 <= at <= targets.len(),
        forall|i: int| 0 <= i < at ==> (#[trigger] targets[i]).semantic_name@ != name,
        at < targets.len() ==> targets[at].semantic_name@ == name,
    ensures
        first_named(targets, name) == if at < targets.len() {
            Some(targets[at])
        } else {
            None
        },
    decreases targets.len(),
{
    if targets.len() > 0 && at > 0 {
        assert(targets[0].semantic_name@ != name);
        law_lookup(targets.drop_first(), name, at - 1);
    }
}

/// A problem with a threshold names the threshold and the number; the others say
/// the same whatever the number.
pub proof fn law_problem_messages(bits: Binary64, detail: String, number: Seq<char>)
    ensures
        problem_message(AlgorithmProblem::ConfidenceThreshold(bits), number)
            == "confidence_threshold must be between 0 and 1, got "@ + number,
        problem_message(AlgorithmProblem::JudgeThreshold(bits), number)
            == "threshold must be between 0 and 1, got "@ + number,
        problem_message(AlgorithmProblem::NoDefaultTarget, number)
            == "stage classifier left no default target to fall open to"@,
        problem_message(AlgorithmProblem::JudgeConfig(detail), number) == detail@,
{
}

} // verus!
