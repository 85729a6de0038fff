//! The boundary-handling protocol of particle propagation: how a proposed
//! move relates to the box, and which attempt follows which outcome.
//!
//! A move is proposed, each coordinate is clipped to the box, and the move
//! is committed only if clipping changed neither coordinate. Otherwise the
//! move is retried with the particle's prior speed and heading, and if that
//! also leaves the box, once more with the heading reflected according to
//! the axis that was crossed. A third failure is fatal.

use vstd::prelude::*;

verus! {

/// How a proposed move relates to the box.
#[derive(Clone, Copy, Debug, PartialEq, Eq, Structural)]
pub enum BounceProblem {
    /// Both coordinates stayed inside: the move can be committed.
    BounceOk,
    /// Only the x coordinate left the box.
    BounceX,
    /// Only the y coordinate left the box.
    BounceY,
    /// Both coordinates left the box.
    BounceXY,
}

/// Which attempt of a propagation step was just made.
#[derive(Clone, Copy, Debug, PartialEq, Eq, Structural)]
pub enum BounceStage {
    /// The move with the perturbed speed and heading.
    Noisy,
    /// The move with the prior speed and heading, without noise.
    Prior,
    /// The move with the reflected heading, without noise.
    Reflected,
}

/// What to do after an attempt.
#[derive(Clone, Copy, Debug, PartialEq, Eq, Structural)]
pub enum BounceAction {
    /// The attempt stayed in the box and was committed.
    Committed,
    /// Retry with the prior speed and heading.
    RetryPrior,
    /// Retry with the heading reflected for this crossing:
    /// across x, `pi - t`; across y, `2 pi - t`; across both, `pi + t`.
    RetryReflected(BounceProblem),
    /// No attempt stayed in the box.
    Fatal,
}

/// The relation of a move to the box, given whether clipping kept each coordinate.
pub open spec fn classify_spec(x_kept: bool, y_kept: bool) -> BounceProblem {
    if x_kept && y_kept {
        BounceProblem::BounceOk
    } else if y_kept {
        BounceProblem::BounceX
    } else if x_kept {
        BounceProblem::BounceY
    } else {
        BounceProblem::BounceXY
    }
}

/// The action that follows an attempt at `stage` with result `outcome`.
pub open spec fn next_action_spec(stage: BounceStage, outcome: BounceProblem) -> BounceAction {
    if outcome == BounceProblem::BounceOk {
        BounceAction::Committed
    } else {
        match stage {
            BounceStage::Noisy => BounceAction::RetryPrior,
            BounceStage::Prior => BounceAction::RetryReflected(outcome),
            BounceStage::Reflected => BounceAction::Fatal,
        }
    }
}

/// Classifies a proposed move: `x_kept` and `y_kept` say whether clipping to
/// the box left the x and the y coordinate unchanged.
pub fn classify_move(x_kept: bool, y_kept: bool) -> (r: BounceProblem)
    ensures
        r == classify_spec(x_kept, y_kept),
{
    if x_kept && y_kept {
        BounceProblem::BounceOk
    } else if y_kept {
        BounceProblem::BounceX
    } else if x_kept {
        BounceProblem::BounceY
    } else {
        BounceProblem::BounceXY
    }
}

/// The action that follows an attempt at `stage` with result `outcome`.
pub fn next_bounce_action(stage: BounceStage, outcome: BounceProblem) -> (r: BounceAction)
    ensures
        r == next_action_spec(stage, outcome),
{
    if outcome == BounceProblem::BounceOk {
        BounceAction::Committed
    } else {
        match stage {
            BounceStage::Noisy => BounceAction::RetryPrior,
            BounceStage::Prior => BounceAction::RetryReflected(outcome),
            BounceStage::Reflected => BounceAction::Fatal,
        }
    }
}

/// A move is committed exactly when clipping kept both coordinates, so a
/// committed position always lies in the box; and every failed attempt
/// leads to the next attempt of the protocol, the last to a fatal stop.
pub proof fn lemma_commit_only_inside_box(stage: BounceStage, x_kept: bool, y_kept: bool)
    ensures
        (next_action_spec(stage, classify_spec(x_kept, y_kept)) == BounceAction::Committed) <==> (
        x_kept && y_kept),
        !(x_kept && y_kept) && stage == BounceStage::Reflected ==> next_action_spec(
            stage,
            classify_spec(x_kept, y_kept),
        ) == BounceAction::Fatal,
        !(x_kept && y_kept) && stage == BounceStage::Prior ==> next_action_spec(
            stage,
            classify_spec(x_kept, y_kept),
        ) == BounceAction::RetryReflected(classify_spec(x_kept, y_kept)),
{
}

} // verus!
