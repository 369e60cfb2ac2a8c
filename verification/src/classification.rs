//! What a classifier says of a turn.

use crate::binary::Binary64;
use vstd::prelude::*;
use vstd::string::*;

verus! {

/// How sure a classifier is of one target.
#[derive(Debug, PartialEq)]
pub struct Score {
    /// The target's name.
    pub target: String,
    /// How sure.
    pub confidence: Binary64,
}

/// What a classifier says of a turn.
#[derive(Debug, PartialEq)]
pub enum Classification {
    /// Decisive: route on these scores. No scores at all abstains.
    Scores(Vec<Score>),
    /// Not decisive: whatever is configured behind the classifier decides.
    Ambiguous(Vec<Score>),
}

/// How sure a classifier is of one target.
pub struct ScoreView {
    /// The target's name.
    pub target: Seq<char>,
    /// How sure.
    pub confidence: Binary64,
}

/// What a classifier says of a turn.
pub enum ClassificationView {
    /// Decisive.
    Scores(Seq<ScoreView>),
    /// Not decisive.
    Ambiguous(Seq<ScoreView>),
}

impl View for Score {
    type V = ScoreView;

    open spec fn view(&self) -> ScoreView {
        ScoreView { target: self.target@, confidence: self.confidence }
    }
}

impl View for Classification {
    type V = ClassificationView;

    open spec fn view(&self) -> ClassificationView {
        match self {
            Classification::Scores(scores) => ClassificationView::Scores(
                scores@.map_values(|score: Score| score@),
            ),
            Classification::Ambiguous(scores) => ClassificationView::Ambiguous(
                scores@.map_values(|score: Score| score@),
            ),
        }
    }
}

/// A decisive classification with one score.
pub open spec fn decided(target: Seq<char>, confidence: Binary64) -> ClassificationView {
    ClassificationView::Scores(seq![ScoreView { target, confidence }])
}

/// An ambiguous classification with one score.
pub open spec fn undecided(target: Seq<char>, confidence: Binary64) -> ClassificationView {
    ClassificationView::Ambiguous(seq![ScoreView { target, confidence }])
}

/// A decisive classification with one score.
pub fn decide(target: &str, confidence: Binary64) -> (classification: Classification)
    ensures
        classification@ == decided(target@, confidence),
{
    let scores = vec![Score { target: target.to_owned(), confidence }];
    proof {
        assert(scores@.map_values(|score: Score| score@) =~= seq![
            ScoreView { target: target@, confidence },
        ]);
    }
    Classification::Scores(scores)
}

impl ClassificationView {
    /// The target that a classification routes to: that of its first score, where
    /// it is decisive and has one.
    pub open spec fn target(self) -> Option<Seq<char>> {
        match self {
            ClassificationView::Scores(scores) if scores.len() > 0 => Some(scores[0].target),
            _ => None,
        }
    }
}

impl Classification {
    /// The target to route to, `None` where the classification is ambiguous or
    /// abstains. A classifier of this crate gives at most one score.
    pub fn target(&self) -> (target: Option<&str>)
        ensures
            match target {
                Some(name) => self@.target() == Some(name@),
                None => self@.target() is None,
            },
    {
        match self {
            Classification::Scores(scores) => if scores.len() > 0 {
                proof {
                    assert(scores@.map_values(|score: Score| score@)[0] == scores@[0]@);
                }
                Some(scores[0].target.as_str())
            } else {
                None
            },
            Classification::Ambiguous(_) => None,
        }
    }
}

/// An ambiguous classification with one score.
pub fn leave_open(target: &str, confidence: Binary64) -> (classification: Classification)
    ensures
        classification@ == undecided(target@, confidence),
{
    let scores = vec![Score { target: target.to_owned(), confidence }];
    proof {
        assert(scores@.map_values(|score: Score| score@) =~= seq![
            ScoreView { target: target@, confidence },
        ]);
    }
    Classification::Ambiguous(scores)
}

/// A classification with one score names that target with that confidence and no
/// other; only the decisive one routes.
pub proof fn law_one_score(target: Seq<char>, confidence: Binary64)
    ensures
        decided(target, confidence) matches ClassificationView::Scores(scores) && scores.len() == 1
            && scores[0].target == target && scores[0].confidence == confidence,
        undecided(target, confidence) matches ClassificationView::Ambiguous(scores) && scores.len()
            == 1 && scores[0].target == target && scores[0].confidence == confidence,
        decided(target, confidence).target() == Some(target),
        undecided(target, confidence).target() is None,
{
}

/// A classification routes exactly where it is decisive and not empty, and then to
/// a target that it scores; adding a score behind the first changes nothing.
pub proof fn law_routing_target(scores: Seq<ScoreView>, more: Seq<ScoreView>)
    ensures
        ClassificationView::Ambiguous(scores).target() is None,
        ClassificationView::Scores(scores).target() is None <==> scores.len() == 0,
        scores.len() > 0 ==> ClassificationView::Scores(scores).target() == Some(
            scores.first().target,
        ) && ClassificationView::Scores(scores + more).target() == ClassificationView::Scores(
            scores,
        ).target(),
{
    if scores.len() > 0 {
        assert((scores + more)[0] == scores[0]);
    }
}

/// A classification is seen score by score.
pub proof fn law_scores_are_seen(scores: Vec<Score>)
    ensures
        ({
            let decisive = Classification::Scores(scores)@;
            let open = Classification::Ambiguous(scores)@;
            &&& decisive matches ClassificationView::Scores(seen) && seen.len() == scores@.len()
                && forall|i: int|
                0 <= i < seen.len() ==> (#[trigger] seen[i]).target == scores@[i].target@
                    && seen[i].confidence == scores@[i].confidence
            &&& open matches ClassificationView::Ambiguous(seen) && seen.len() == scores@.len()
                && forall|i: int|
                0 <= i < seen.len() ==> (#[trigger] seen[i]).target == scores@[i].target@
                    && seen[i].confidence == scores@[i].confidence
        }),
{
}

} // verus!
