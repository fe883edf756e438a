//! The course of one fit, from the count of the correspondences to the
//! normalized homography.
//!
//! A fit alternates arithmetic on doubles with decisions on its results. The
//! caller does the arithmetic; [`advance`] takes each result, decides, and
//! says what to compute next. A fit starts in [`FitStage::Counting`] and is
//! over when the action is [`FitAction::Stop`]: its stage is then
//! [`FitStage::Fitted`] with the homography or [`FitStage::Failed`] with the
//! reason.
use crate::binary64;
use crate::kernel::{
    check_pivot, check_rescaled, check_sample_count, check_spreads, select_eigenvector,
    spec_check_pivot, spec_check_rescaled, spec_check_sample_count, spec_check_spreads,
    spec_select_eigenvector, FitError, Spreads, all_finite, is_first_least,
    lemma_scan_least_is_first_least,
};
use crate::matrix::{HomographyMatrix, PIVOT};
use vstd::prelude::*;

verus! {

/// How far a fit has come.
#[derive(Clone, Copy, Debug)]
pub enum FitStage {
    /// Nothing is known yet; the number of correspondences is awaited.
    Counting,
    /// The centroids and spreads of the two point sets are awaited.
    Measuring,
    /// The eigenvalues of the normal matrix are awaited.
    Solving,
    /// The chosen eigenvector, mapped back to the coordinates of the
    /// correspondences, is awaited.
    Denormalizing,
    /// The matrix divided by its bottom-right entry is awaited.
    Rescaling,
    /// The fit has produced this homography.
    Fitted(HomographyMatrix),
    /// The fit has ended without one.
    Failed(FitError),
}

/// A result of the caller's arithmetic.
#[derive(Clone, Copy, Debug)]
pub enum FitEvent {
    /// The number of correspondences supplied.
    Samples(usize),
    /// The spreads of the point sets about their centroids.
    Spreads(Spreads),
    /// The eigenvalues of the normal matrix, in the order of its eigenvectors.
    Eigenvalues([u64; 9]),
    /// The chosen eigenvector as a matrix, in the coordinates of the
    /// correspondences.
    Denormalized(HomographyMatrix),
    /// That matrix with every entry divided by the bottom-right one.
    Rescaled(HomographyMatrix),
}

/// What the caller is to compute next.
#[derive(Clone, Copy, Debug, PartialEq, Eq, Structural)]
pub enum FitAction {
    /// Centroids and spreads; answer with [`FitEvent::Spreads`].
    MeasureSpreads,
    /// The normal matrix of the normalized correspondences and its symmetric
    /// eigendecomposition; answer with [`FitEvent::Eigenvalues`].
    SolveNormalSystem,
    /// The eigenvector in this column, reshaped row by row into a matrix and
    /// mapped back to the coordinates of the correspondences; answer with
    /// [`FitEvent::Denormalized`].
    Denormalize { column: usize },
    /// Every entry divided by the bottom-right one; answer with
    /// [`FitEvent::Rescaled`].
    Rescale,
    /// Nothing: the fit is over.
    Stop,
}

impl FitStage {
    /// The fit is over.
    pub open spec fn spec_is_over(&self) -> bool {
        *self is Fitted || *self is Failed
    }

    /// Whether the fit is over.
    #[verifier::when_used_as_spec(spec_is_over)]
    pub fn is_over(&self) -> (r: bool)
        ensures
            r == self.spec_is_over(),
    {
        match self {
            FitStage::Fitted(_) => true,
            FitStage::Failed(_) => true,
            _ => false,
        }
    }

    /// What the fit has come to: nothing while it is under way.
    pub open spec fn spec_outcome(&self) -> Option<Result<HomographyMatrix, FitError>> {
        match *self {
            FitStage::Fitted(matrix) => Some(Ok(matrix)),
            FitStage::Failed(error) => Some(Err(error)),
            _ => None,
        }
    }

    /// What the fit has come to: `None` while it is under way.
    #[verifier::when_used_as_spec(spec_outcome)]
    pub fn outcome(&self) -> (r: Option<Result<HomographyMatrix, FitError>>)
        ensures
            r == self.spec_outcome(),
            r is Some <==> self.spec_is_over(),
    {
        match self {
            FitStage::Fitted(matrix) => Some(Ok(*matrix)),
            FitStage::Failed(error) => Some(Err(*error)),
            _ => None,
        }
    }
}

/// The stage that follows a decision, and the action that goes with it.
pub open spec fn after(decision: Result<(), FitError>, next: FitStage, action: FitAction) -> (
    FitStage,
    FitAction,
) {
    match decision {
        Ok(()) => (next, action),
        Err(error) => (FitStage::Failed(error), FitAction::Stop),
    }
}

/// The stage and the action that follow `event` in `stage`.
///
/// Each stage awaits one kind of event and decides on it; any other event
/// ends the fit as out of order. A fit that is over stays as it is.
pub open spec fn spec_advance(stage: FitStage, event: FitEvent) -> (FitStage, FitAction) {
    match (stage, event) {
        (FitStage::Fitted(_), _) | (FitStage::Failed(_), _) => (stage, FitAction::Stop),
        (FitStage::Counting, FitEvent::Samples(count)) => after(
            spec_check_sample_count(count),
            FitStage::Measuring,
            FitAction::MeasureSpreads,
        ),
        (FitStage::Measuring, FitEvent::Spreads(spreads)) => after(
            spec_check_spreads(spreads),
            FitStage::Solving,
            FitAction::SolveNormalSystem,
        ),
        (FitStage::Solving, FitEvent::Eigenvalues(eigenvalues)) => match spec_select_eigenvector(
            eigenvalues@,
        ) {
            Ok(column) => (FitStage::Denormalizing, FitAction::Denormalize { column }),
            Err(error) => (FitStage::Failed(error), FitAction::Stop),
        },
        (FitStage::Denormalizing, FitEvent::Denormalized(matrix)) => after(
            spec_check_pivot(matrix@[PIVOT as int]),
            FitStage::Rescaling,
            FitAction::Rescale,
        ),
        (FitStage::Rescaling, FitEvent::Rescaled(matrix)) => after(
            spec_check_rescaled(matrix),
            FitStage::Fitted(matrix),
            FitAction::Stop,
        ),
        _ => (FitStage::Failed(FitError::OutOfOrder), FitAction::Stop),
    }
}

/// Takes the next result of the caller's arithmetic, decides on it, and says
/// what to compute next.
pub fn advance(stage: FitStage, event: FitEvent) -> (r: (FitStage, FitAction))
    ensures
        r == spec_advance(stage, event),
        r.1 == FitAction::Stop <==> r.0.spec_is_over(),
        stage.spec_is_over() ==> r.0 == stage,
        r.0 matches FitStage::Fitted(matrix) ==> stage == r.0 || (stage is Rescaling && event
            == FitEvent::Rescaled(matrix) && matrix.spec_is_normalized()),
        r.1 matches FitAction::Denormalize { column } ==> stage is Solving && (
        event matches FitEvent::Eigenvalues(eigenvalues) && is_first_least(
            eigenvalues@,
            column as int,
        )),
{
    match (stage, event) {
        (FitStage::Fitted(_), _) => (stage, FitAction::Stop),
        (FitStage::Failed(_), _) => (stage, FitAction::Stop),
        (FitStage::Counting, FitEvent::Samples(count)) => match check_sample_count(count) {
            Ok(()) => (FitStage::Measuring, FitAction::MeasureSpreads),
            Err(error) => (FitStage::Failed(error), FitAction::Stop),
        },
        (FitStage::Measuring, FitEvent::Spreads(spreads)) => match check_spreads(&spreads) {
            Ok(()) => (FitStage::Solving, FitAction::SolveNormalSystem),
            Err(error) => (FitStage::Failed(error), FitAction::Stop),
        },
        (FitStage::Solving, FitEvent::Eigenvalues(eigenvalues)) => match select_eigenvector(
            &eigenvalues,
        ) {
            Ok(column) => (FitStage::Denormalizing, FitAction::Denormalize { column }),
            Err(error) => (FitStage::Failed(error), FitAction::Stop),
        },
        (FitStage::Denormalizing, FitEvent::Denormalized(matrix)) => match check_pivot(
            matrix.pivot(),
        ) {
            Ok(()) => (FitStage::Rescaling, FitAction::Rescale),
            Err(error) => (FitStage::Failed(error), FitAction::Stop),
        },
        (FitStage::Rescaling, FitEvent::Rescaled(matrix)) => match check_rescaled(&matrix) {
            Ok(()) => (FitStage::Fitted(matrix), FitAction::Stop),
            Err(error) => (FitStage::Failed(error), FitAction::Stop),
        },
        _ => (FitStage::Failed(FitError::OutOfOrder), FitAction::Stop),
    }
}

/// The stage that a fit is in after it has been handed `events` in turn.
pub open spec fn stage_after(events: Seq<FitEvent>) -> FitStage
    decreases events.len(),
{
    if events.len() == 0 {
        FitStage::Counting
    } else {
        spec_advance(stage_after(events.drop_last()), events.last()).0
    }
}

/// The five results of a fit that succeeds with `matrix`: enough
/// correspondences, spreads that are finite and not numerically zero, finite
/// eigenvalues, a matrix whose bottom-right entry is finite and not
/// numerically zero, and `matrix` itself, normalized.
pub open spec fn leads_to(events: Seq<FitEvent>, matrix: HomographyMatrix) -> bool {
    &&& events.len() >= 5
    &&& events[0] matches FitEvent::Samples(count) && count >= 4
    &&& events[1] matches FitEvent::Spreads(spreads) && !spreads.spec_any_negligible()
        && spreads.spec_all_finite()
    &&& events[2] matches FitEvent::Eigenvalues(eigenvalues) && all_finite(eigenvalues@)
    &&& events[3] matches FitEvent::Denormalized(raw) && binary64::spec_is_finite(
        raw@[PIVOT as int],
    ) && !binary64::spec_is_negligible(raw@[PIVOT as int])
    &&& events[4] == FitEvent::Rescaled(matrix)
    &&& matrix.spec_is_normalized()
}

/// A fit that is over stays as it is, whatever it is handed, and asks for
/// nothing more.
pub proof fn lemma_over_is_final(stage: FitStage, event: FitEvent)
    requires
        stage.spec_is_over(),
    ensures
        spec_advance(stage, event) == (stage, FitAction::Stop),
{
}

/// A fit asks for nothing more exactly when it is over.
pub proof fn lemma_stop_means_over(stage: FitStage, event: FitEvent)
    ensures
        spec_advance(stage, event).1 == FitAction::Stop <==> spec_advance(
            stage,
            event,
        ).0.spec_is_over(),
{
}

/// With fewer than four correspondences a fit fails at once, before any
/// arithmetic is asked for.
pub proof fn lemma_too_few_samples(count: usize)
    requires
        count < 4,
    ensures
        spec_advance(FitStage::Counting, FitEvent::Samples(count)) == (
            FitStage::Failed(FitError::InsufficientSamples),
            FitAction::Stop,
        ),
{
}

/// Points that do not spread along an axis end the fit as degenerate: a
/// spread that is zero, of either sign, is numerically zero.
pub proof fn lemma_zero_spread_is_degenerate(spreads: Spreads)
    requires
        binary64::spec_is_zero(spreads.source_x) || binary64::spec_is_zero(spreads.source_y)
            || binary64::spec_is_zero(spreads.destination_x) || binary64::spec_is_zero(
            spreads.destination_y,
        ),
    ensures
        spec_advance(FitStage::Measuring, FitEvent::Spreads(spreads)) == (
            FitStage::Failed(FitError::DegenerateInput),
            FitAction::Stop,
        ),
{
    binary64::lemma_negligible_pattern(spreads.source_x);
    binary64::lemma_negligible_pattern(spreads.source_y);
    binary64::lemma_negligible_pattern(spreads.destination_x);
    binary64::lemma_negligible_pattern(spreads.destination_y);
}

/// The eigenvector that a fit asks for is the one of the smallest
/// eigenvalue, the first such where several are equal.
pub proof fn lemma_takes_smallest_eigenvalue(eigenvalues: [u64; 9], column: usize)
    requires
        spec_advance(FitStage::Solving, FitEvent::Eigenvalues(eigenvalues)).1
            == (FitAction::Denormalize { column }),
    ensures
        is_first_least(eigenvalues@, column as int),
{
    assert(all_finite(eigenvalues@));
    assert forall|i: int| 0 <= i < 9 implies !binary64::spec_is_nan(
        #[trigger] eigenvalues@[i],
    ) by {
        assert(binary64::spec_is_finite(eigenvalues@[i]));
    }
    lemma_scan_least_is_first_least(eigenvalues@, 9);
    assert(eigenvalues@.take(9) == eigenvalues@);
}

/// The stage after one more event is one step from the stage before it.
proof fn lemma_stage_after_push(events: Seq<FitEvent>, event: FitEvent)
    ensures
        stage_after(events.push(event)) == spec_advance(stage_after(events), event).0,
{
    assert(events.push(event).drop_last() == events);
}

/// The stage after the first `n` events is one step from the stage after the
/// first `n - 1`.
proof fn lemma_stage_after_take(events: Seq<FitEvent>, n: int)
    requires
        1 <= n <= events.len(),
    ensures
        stage_after(events.take(n)) == spec_advance(
            stage_after(events.take(n - 1)),
            events[n - 1],
        ).0,
{
    assert(events.take(n).drop_last() == events.take(n - 1));
}

/// Once a fit is over, nothing that it is handed changes its outcome.
pub proof fn lemma_outcome_is_final(events: Seq<FitEvent>, more: Seq<FitEvent>)
    requires
        stage_after(events).spec_is_over(),
    ensures
        stage_after(events + more) == stage_after(events),
    decreases more.len(),
{
    if more.len() == 0 {
        assert(events + more == events);
    } else {
        lemma_outcome_is_final(events, more.drop_last());
        assert(events + more == (events + more.drop_last()).push(more.last()));
        lemma_stage_after_push(events + more.drop_last(), more.last());
    }
}

/// Every fit is over after five events at most.
pub proof fn lemma_over_after_five(events: Seq<FitEvent>)
    requires
        events.len() >= 5,
    ensures
        stage_after(events).spec_is_over(),
        stage_after(events) == stage_after(events.take(5)),
{
    let head = events.take(5);
    assert(head.take(0) == Seq::<FitEvent>::empty());
    lemma_stage_after_take(head, 1);
    lemma_stage_after_take(head, 2);
    lemma_stage_after_take(head, 3);
    lemma_stage_after_take(head, 4);
    lemma_stage_after_take(head, 5);
    assert(head.take(5) == head);
    assert(events == head + events.skip(5));
    lemma_outcome_is_final(head, events.skip(5));
}

/// A fit ends with a homography exactly when its first five results are
/// those of a fit that succeeds; what follows them changes nothing.
pub proof fn lemma_fitted_exactly(events: Seq<FitEvent>, matrix: HomographyMatrix)
    ensures
        stage_after(events) == FitStage::Fitted(matrix) <==> leads_to(events, matrix),
{
    let n = events.len() as int;
    let head = if n >= 5 {
        events.take(5)
    } else {
        events
    };
    if n >= 5 {
        lemma_over_after_five(events);
    }
    let k = head.len() as int;
    assert(head.take(0) == Seq::<FitEvent>::empty());
    assert(head.take(k) == head);
    if k >= 1 {
        lemma_stage_after_take(head, 1);
    }
    if k >= 2 {
        lemma_stage_after_take(head, 2);
    }
    if k >= 3 {
        lemma_stage_after_take(head, 3);
    }
    if k >= 4 {
        lemma_stage_after_take(head, 4);
    }
    if k >= 5 {
        lemma_stage_after_take(head, 5);
    }
}

/// Whatever a fit is handed, a homography that it ends with is normalized:
/// every entry is finite and the bottom-right one is exactly one.
pub proof fn lemma_fitted_is_normalized(events: Seq<FitEvent>, matrix: HomographyMatrix)
    requires
        stage_after(events) == FitStage::Fitted(matrix),
    ensures
        matrix.spec_is_normalized(),
{
    lemma_fitted_exactly(events, matrix);
}

/// A fit ends for want of samples exactly when the first thing it is handed
/// is a count below four.
pub proof fn lemma_insufficient_exactly(events: Seq<FitEvent>)
    ensures
        stage_after(events) == FitStage::Failed(FitError::InsufficientSamples) <==> events.len()
            >= 1 && (events[0] matches FitEvent::Samples(count) && count < 4),
{
    lemma_failure_of_first_events(events, FitError::InsufficientSamples);
}

/// A fit ends as degenerate exactly when it is handed a count of at least
/// four and then spreads of which one is numerically zero.
pub proof fn lemma_degenerate_exactly(events: Seq<FitEvent>)
    ensures
        stage_after(events) == FitStage::Failed(FitError::DegenerateInput) <==> events.len() >= 2
            && (events[0] matches FitEvent::Samples(count) && count >= 4) && (
        events[1] matches FitEvent::Spreads(spreads) && spreads.spec_any_negligible()),
{
    lemma_failure_of_first_events(events, FitError::DegenerateInput);
}

/// The stages that the first five events lead through, laid out for a
/// failure `error` that only the first or the second decision gives.
proof fn lemma_failure_of_first_events(events: Seq<FitEvent>, error: FitError)
    requires
        error == FitError::InsufficientSamples || error == FitError::DegenerateInput,
    ensures
        error == FitError::InsufficientSamples ==> (stage_after(events) == FitStage::Failed(error)
            <==> events.len() >= 1 && (events[0] matches FitEvent::Samples(count) && count < 4)),
        error == FitError::DegenerateInput ==> (stage_after(events) == FitStage::Failed(error)
            <==> events.len() >= 2 && (events[0] matches FitEvent::Samples(count) && count >= 4)
            && (events[1] matches FitEvent::Spreads(spreads) && spreads.spec_any_negligible())),
{
    let n = events.len() as int;
    let head = if n >= 5 {
        events.take(5)
    } else {
        events
    };
    if n >= 5 {
        lemma_over_after_five(events);
    }
    let k = head.len() as int;
    assert(head.take(0) == Seq::<FitEvent>::empty());
    assert(head.take(k) == head);
    if k >= 1 {
        lemma_stage_after_take(head, 1);
    }
    if k >= 2 {
        lemma_stage_after_take(head, 2);
    }
    if k >= 3 {
        lemma_stage_after_take(head, 3);
    }
    if k >= 4 {
        lemma_stage_after_take(head, 4);
    }
    if k >= 5 {
        lemma_stage_after_take(head, 5);
    }
}

} // verus!
