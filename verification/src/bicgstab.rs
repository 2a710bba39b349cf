//! Control logic of the Jacobi-preconditioned BiCGSTAB iteration.
//!
//! The numerical work of an iteration (dot products, products with the
//! matrix, vector updates, norms) is done by the caller; this module decides,
//! from the outcome of each tolerance test, what the caller does next and
//! when the solver stops, with which result.

use vstd::prelude::*;

verus! {

/// Why the solver stopped without a solution.
#[derive(Debug, Clone, Copy, PartialEq, Eq, Structural)]
pub enum BicgstabError {
    /// No solution was found within the iteration limit.
    NoConvergence,
    /// `rho` became near zero.
    BiOrthogonalityLost,
    /// `omega` became near zero.
    OmegaClamped,
}

impl BicgstabError {
    /// The human-readable description of the error.
    pub fn message(&self) -> (r: &'static str)
        ensures
            match self {
                BicgstabError::NoConvergence => r@
                    == "Failed to find a solution within the iteration limit"@,
                BicgstabError::BiOrthogonalityLost => r@ == "`rho` turned near-zero"@,
                BicgstabError::OmegaClamped => r@ == "`omega` turned near-zero"@,
            },
    {
        match self {
            BicgstabError::NoConvergence => "Failed to find a solution within the iteration limit",
            BicgstabError::BiOrthogonalityLost => "`rho` turned near-zero",
            BicgstabError::OmegaClamped => "`omega` turned near-zero",
        }
    }
}

/// Which test result the controller waits for.
#[derive(Debug, Clone, Copy, PartialEq, Eq, Structural)]
pub enum BicgstabStage {
    /// Waiting for the test of the right-hand side's norm.
    CheckRhs,
    /// Waiting for the test of `rho`.
    Rho,
    /// Waiting for the convergence test of the intermediate residual `s`.
    HalfStep,
    /// Waiting for the convergence test of the residual and the test of `omega`.
    FullStep,
    /// The solver has stopped.
    Done,
}

/// The outcome of a test that the caller ran.
#[derive(Debug, Clone, Copy, PartialEq, Eq, Structural)]
pub enum BicgstabEvent {
    /// Whether `|norm(b)|` is at most machine epsilon.
    RhsNorm { near_zero: bool },
    /// Whether `|rho_new|` is below machine epsilon.
    Rho { near_zero: bool },
    /// Whether `norm(s) < tolerance * norm(b)`.
    HalfStep { converged: bool },
    /// Whether `norm(residual) < tolerance * norm(b)`, and whether
    /// `|omega|` is below machine epsilon.
    FullStep { converged: bool, omega_near_zero: bool },
}

/// What the caller does next.
#[derive(Debug, Clone, Copy, PartialEq, Eq, Structural)]
pub enum BicgstabAction {
    /// Return the current guess as the solution.
    ReturnGuess,
    /// Add `alpha * p_hat` to the guess and return it as the solution.
    ReturnAfterHalfStep,
    /// Start an iteration: compute `rho_new` and report its test.
    StartIteration,
    /// Update `p`, compute `p_hat`, `v`, `alpha` and `s`, and report the test of `s`.
    ContinueIteration,
    /// Compute `s_hat`, `t` and `omega`, update the guess and the residual,
    /// and report the residual and `omega` tests.
    FinishIteration,
    /// Stop with this error.
    Fail(BicgstabError),
}

/// The event that a stage waits for.
pub open spec fn accepts(stage: BicgstabStage, event: BicgstabEvent) -> bool {
    match stage {
        BicgstabStage::CheckRhs => event is RhsNorm,
        BicgstabStage::Rho => event is Rho,
        BicgstabStage::HalfStep => event is HalfStep,
        BicgstabStage::FullStep => event is FullStep,
        BicgstabStage::Done => false,
    }
}

/// The transition of the controller: from the stage, the number of
/// iterations started and the iteration limit, and the reported event, to
/// the next stage, the new number of iterations started, and the action.
pub open spec fn transition(
    stage: BicgstabStage,
    iterations: int,
    max_iterations: int,
    event: BicgstabEvent,
) -> (BicgstabStage, int, BicgstabAction) {
    match event {
        BicgstabEvent::RhsNorm { near_zero } => if near_zero {
            (BicgstabStage::Done, iterations, BicgstabAction::ReturnGuess)
        } else if iterations < max_iterations {
            (BicgstabStage::Rho, iterations + 1, BicgstabAction::StartIteration)
        } else {
            (
                BicgstabStage::Done,
                iterations,
                BicgstabAction::Fail(BicgstabError::NoConvergence),
            )
        },
        BicgstabEvent::Rho { near_zero } => if near_zero {
            (
                BicgstabStage::Done,
                iterations,
                BicgstabAction::Fail(BicgstabError::BiOrthogonalityLost),
            )
        } else {
            (BicgstabStage::HalfStep, iterations, BicgstabAction::ContinueIteration)
        },
        BicgstabEvent::HalfStep { converged } => if converged {
            (BicgstabStage::Done, iterations, BicgstabAction::ReturnAfterHalfStep)
        } else {
            (BicgstabStage::FullStep, iterations, BicgstabAction::FinishIteration)
        },
        BicgstabEvent::FullStep { converged, omega_near_zero } => if converged {
            (BicgstabStage::Done, iterations, BicgstabAction::ReturnGuess)
        } else if omega_near_zero {
            (BicgstabStage::Done, iterations, BicgstabAction::Fail(BicgstabError::OmegaClamped))
        } else if iterations < max_iterations {
            (BicgstabStage::Rho, iterations + 1, BicgstabAction::StartIteration)
        } else {
            (
                BicgstabStage::Done,
                iterations,
                BicgstabAction::Fail(BicgstabError::NoConvergence),
            )
        },
    }
}

/// The controller state is consistent: no more iterations started than the
/// limit allows, none before the right-hand side test, and at least one while
/// an iteration runs.
pub open spec fn control_inv(stage: BicgstabStage, iterations: int, max_iterations: int) -> bool {
    &&& 0 <= iterations <= max_iterations
    &&& stage is CheckRhs ==> iterations == 0
    &&& (stage is Rho || stage is HalfStep || stage is FullStep) ==> iterations >= 1
}

/// The controller of one BiCGSTAB solve.
pub struct BicgstabControl {
    stage: BicgstabStage,
    iterations: usize,
    max_iterations: usize,
}

impl BicgstabControl {
    pub closed spec fn stage(&self) -> BicgstabStage {
        self.stage
    }

    pub closed spec fn iterations(&self) -> int {
        self.iterations as int
    }

    pub closed spec fn max_iterations(&self) -> int {
        self.max_iterations as int
    }

    /// A controller that has not stopped and accepts `event` next.
    pub open spec fn expects(&self, event: BicgstabEvent) -> bool {
        accepts(self.stage(), event)
    }

    /// A controller for a solve with at most `max_iterations` iterations,
    /// waiting for the right-hand side test.
    pub fn new(max_iterations: usize) -> (r: Self)
        ensures
            r.stage() == BicgstabStage::CheckRhs,
            r.iterations() == 0,
            r.max_iterations() == max_iterations,
            control_inv(r.stage(), r.iterations(), r.max_iterations()),
    {
        BicgstabControl { stage: BicgstabStage::CheckRhs, iterations: 0, max_iterations }
    }

    /// Whether the solver has stopped.
    pub fn is_done(&self) -> (r: bool)
        ensures
            r == (self.stage() is Done),
    {
        match self.stage {
            BicgstabStage::Done => true,
            _ => false,
        }
    }

    /// The number of iterations started so far.
    pub fn iterations_started(&self) -> (r: usize)
        ensures
            r == self.iterations(),
    {
        self.iterations
    }

    /// Takes the outcome of the test the controller waits for and returns
    /// what the caller does next.
    pub fn step(&mut self, event: BicgstabEvent) -> (action: BicgstabAction)
        requires
            old(self).expects(event),
            control_inv(old(self).stage(), old(self).iterations(), old(self).max_iterations()),
        ensures
            (final(self).stage(), final(self).iterations(), action) == transition(
                old(self).stage(),
                old(self).iterations(),
                old(self).max_iterations(),
                event,
            ),
            final(self).max_iterations() == old(self).max_iterations(),
            control_inv(final(self).stage(), final(self).iterations(), final(self).max_iterations()),
    {
        let iterations = self.iterations;
        let max_iterations = self.max_iterations;
        let (stage, iterations, action) = match event {
            BicgstabEvent::RhsNorm { near_zero } => if near_zero {
                (BicgstabStage::Done, iterations, BicgstabAction::ReturnGuess)
            } else if iterations < max_iterations {
                (BicgstabStage::Rho, iterations + 1, BicgstabAction::StartIteration)
            } else {
                (
                    BicgstabStage::Done,
                    iterations,
                    BicgstabAction::Fail(BicgstabError::NoConvergence),
                )
            },
            BicgstabEvent::Rho { near_zero } => if near_zero {
                (
                    BicgstabStage::Done,
                    iterations,
                    BicgstabAction::Fail(BicgstabError::BiOrthogonalityLost),
                )
            } else {
                (BicgstabStage::HalfStep, iterations, BicgstabAction::ContinueIteration)
            },
            BicgstabEvent::HalfStep { converged } => if converged {
                (BicgstabStage::Done, iterations, BicgstabAction::ReturnAfterHalfStep)
            } else {
                (BicgstabStage::FullStep, iterations, BicgstabAction::FinishIteration)
            },
            BicgstabEvent::FullStep { converged, omega_near_zero } => if converged {
                (BicgstabStage::Done, iterations, BicgstabAction::ReturnGuess)
            } else if omega_near_zero {
                (
                    BicgstabStage::Done,
                    iterations,
                    BicgstabAction::Fail(BicgstabError::OmegaClamped),
                )
            } else if iterations < max_iterations {
                (BicgstabStage::Rho, iterations + 1, BicgstabAction::StartIteration)
            } else {
                (
                    BicgstabStage::Done,
                    iterations,
                    BicgstabAction::Fail(BicgstabError::NoConvergence),
                )
            },
        };
        self.stage = stage;
        self.iterations = iterations;
        action
    }
}

} // verus!

verus! {

/// Whether an action ends the solve.
pub open spec fn is_terminal(action: BicgstabAction) -> bool {
    action is ReturnGuess || action is ReturnAfterHalfStep || action is Fail
}

/// The controller stops exactly when it hands back a result: a transition
/// leads to the stopped stage if and only if its action returns the guess or
/// fails.
pub proof fn lemma_stops_exactly_on_result(
    stage: BicgstabStage,
    iterations: int,
    max_iterations: int,
    event: BicgstabEvent,
)
    requires
        accepts(stage, event),
    ensures
        (transition(stage, iterations, max_iterations, event).0 is Done) <==> is_terminal(
            transition(stage, iterations, max_iterations, event).2,
        ),
{
}

/// The solver reports `NoConvergence` only once the iteration limit has been
/// reached, and only after a non-zero right-hand side with no iteration
/// allowed, or after a full iteration whose residual did not converge and
/// whose `omega` was not near zero.
pub proof fn lemma_no_convergence_only_at_limit(
    stage: BicgstabStage,
    iterations: int,
    max_iterations: int,
    event: BicgstabEvent,
)
    requires
        accepts(stage, event),
        control_inv(stage, iterations, max_iterations),
        transition(stage, iterations, max_iterations, event).2 == BicgstabAction::Fail(
            BicgstabError::NoConvergence,
        ),
    ensures
        iterations == max_iterations,
        event == (BicgstabEvent::RhsNorm { near_zero: false }) || event == (
        BicgstabEvent::FullStep { converged: false, omega_near_zero: false }),
{
}

/// A right-hand side of (near) zero norm is answered with the initial guess
/// before any iteration starts.
pub proof fn lemma_zero_rhs_returns_initial_guess(max_iterations: int)
    requires
        max_iterations >= 0,
    ensures
        transition(
            BicgstabStage::CheckRhs,
            0,
            max_iterations,
            BicgstabEvent::RhsNorm { near_zero: true },
        ) == (BicgstabStage::Done, 0int, BicgstabAction::ReturnGuess),
{
}

/// The controller driven by a sequence of events: the final stage, the final
/// number of iterations started, and the actions answered, in order.
pub open spec fn run(
    stage: BicgstabStage,
    iterations: int,
    max_iterations: int,
    events: Seq<BicgstabEvent>,
) -> (BicgstabStage, int, Seq<BicgstabAction>)
    decreases events.len(),
{
    if events.len() == 0 {
        (stage, iterations, Seq::empty())
    } else {
        let (s, i, a) = transition(stage, iterations, max_iterations, events[0]);
        let (s2, i2, actions) = run(s, i, max_iterations, events.drop_first());
        (s2, i2, seq![a] + actions)
    }
}

/// Every event of the sequence is the one the controller waits for at that point.
pub open spec fn run_accepted(
    stage: BicgstabStage,
    iterations: int,
    max_iterations: int,
    events: Seq<BicgstabEvent>,
) -> bool
    decreases events.len(),
{
    if events.len() == 0 {
        true
    } else {
        let (s, i, a) = transition(stage, iterations, max_iterations, events[0]);
        accepts(stage, events[0]) && run_accepted(s, i, max_iterations, events.drop_first())
    }
}

/// The number of `StartIteration` actions in `actions`.
pub open spec fn count_starts(actions: Seq<BicgstabAction>) -> int
    decreases actions.len(),
{
    if actions.len() == 0 {
        0
    } else {
        (if actions[0] is StartIteration {
            1int
        } else {
            0int
        }) + count_starts(actions.drop_first())
    }
}

/// Over any accepted run, the controller starts one iteration per
/// `StartIteration` action, never more than `max_iterations` in total, and
/// keeps its invariant.
pub proof fn lemma_iteration_budget(
    stage: BicgstabStage,
    iterations: int,
    max_iterations: int,
    events: Seq<BicgstabEvent>,
)
    requires
        control_inv(stage, iterations, max_iterations),
        run_accepted(stage, iterations, max_iterations, events),
    ensures
        run(stage, iterations, max_iterations, events).1 == iterations + count_starts(
            run(stage, iterations, max_iterations, events).2,
        ),
        run(stage, iterations, max_iterations, events).1 <= max_iterations,
        control_inv(
            run(stage, iterations, max_iterations, events).0,
            run(stage, iterations, max_iterations, events).1,
            max_iterations,
        ),
    decreases events.len(),
{
    if events.len() > 0 {
        let (s, i, a) = transition(stage, iterations, max_iterations, events[0]);
        lemma_iteration_budget(s, i, max_iterations, events.drop_first());
        let rest = run(s, i, max_iterations, events.drop_first()).2;
        assert((seq![a] + rest).drop_first() =~= rest);
    }
}

/// Once the controller has stopped, a run accepts no further event.
pub proof fn lemma_done_accepts_nothing(event: BicgstabEvent)
    ensures
        !accepts(BicgstabStage::Done, event),
{
}

} // verus!

verus! {

/// The right-hand side test: a (near) zero right-hand side returns the guess;
/// otherwise the first iteration starts if the limit allows one, and the
/// solve fails with `NoConvergence` if it does not.
pub proof fn lemma_rhs_test_decides(iterations: int, max_iterations: int, near_zero: bool)
    requires
        control_inv(BicgstabStage::CheckRhs, iterations, max_iterations),
    ensures
        near_zero ==> transition(
            BicgstabStage::CheckRhs,
            iterations,
            max_iterations,
            BicgstabEvent::RhsNorm { near_zero },
        ).2 == BicgstabAction::ReturnGuess,
        !near_zero && max_iterations > 0 ==> transition(
            BicgstabStage::CheckRhs,
            iterations,
            max_iterations,
            BicgstabEvent::RhsNorm { near_zero },
        ) == (BicgstabStage::Rho, 1int, BicgstabAction::StartIteration),
        !near_zero && max_iterations == 0 ==> transition(
            BicgstabStage::CheckRhs,
            iterations,
            max_iterations,
            BicgstabEvent::RhsNorm { near_zero },
        ).2 == BicgstabAction::Fail(BicgstabError::NoConvergence),
{
}

/// The `rho` test: a near-zero `rho` fails with `BiOrthogonalityLost`;
/// otherwise the iteration goes on to the half step, with the same
/// iteration count.
pub proof fn lemma_rho_test_decides(
    stage: BicgstabStage,
    iterations: int,
    max_iterations: int,
    near_zero: bool,
)
    ensures
        near_zero ==> transition(
            stage,
            iterations,
            max_iterations,
            BicgstabEvent::Rho { near_zero },
        ) == (BicgstabStage::Done, iterations, BicgstabAction::Fail(
            BicgstabError::BiOrthogonalityLost,
        )),
        !near_zero ==> transition(
            stage,
            iterations,
            max_iterations,
            BicgstabEvent::Rho { near_zero },
        ) == (BicgstabStage::HalfStep, iterations, BicgstabAction::ContinueIteration),
{
}

/// The test of `s`: a converged `s` returns after the half-step update;
/// otherwise the iteration is finished.
pub proof fn lemma_half_step_test_decides(
    stage: BicgstabStage,
    iterations: int,
    max_iterations: int,
    converged: bool,
)
    ensures
        converged ==> transition(
            stage,
            iterations,
            max_iterations,
            BicgstabEvent::HalfStep { converged },
        ) == (BicgstabStage::Done, iterations, BicgstabAction::ReturnAfterHalfStep),
        !converged ==> transition(
            stage,
            iterations,
            max_iterations,
            BicgstabEvent::HalfStep { converged },
        ) == (BicgstabStage::FullStep, iterations, BicgstabAction::FinishIteration),
{
}

/// The end of an iteration: a converged residual returns the guess whatever
/// `omega` is; otherwise a near-zero `omega` fails with `OmegaClamped`;
/// otherwise the next iteration starts while the limit allows, and the solve
/// fails with `NoConvergence` once it is reached.
pub proof fn lemma_full_step_test_decides(
    stage: BicgstabStage,
    iterations: int,
    max_iterations: int,
    converged: bool,
    omega_near_zero: bool,
)
    ensures
        converged ==> transition(
            stage,
            iterations,
            max_iterations,
            BicgstabEvent::FullStep { converged, omega_near_zero },
        ) == (BicgstabStage::Done, iterations, BicgstabAction::ReturnGuess),
        !converged && omega_near_zero ==> transition(
            stage,
            iterations,
            max_iterations,
            BicgstabEvent::FullStep { converged, omega_near_zero },
        ) == (BicgstabStage::Done, iterations, BicgstabAction::Fail(BicgstabError::OmegaClamped)),
        !converged && !omega_near_zero && iterations < max_iterations ==> transition(
            stage,
            iterations,
            max_iterations,
            BicgstabEvent::FullStep { converged, omega_near_zero },
        ) == (BicgstabStage::Rho, iterations + 1, BicgstabAction::StartIteration),
        !converged && !omega_near_zero && iterations >= max_iterations ==> transition(
            stage,
            iterations,
            max_iterations,
            BicgstabEvent::FullStep { converged, omega_near_zero },
        ) == (BicgstabStage::Done, iterations, BicgstabAction::Fail(BicgstabError::NoConvergence)),
{
}

} // verus!
