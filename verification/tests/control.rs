use bmstu_os2_matrix_solver::bicgstab::{
    BicgstabAction, BicgstabControl, BicgstabError, BicgstabEvent,
};
use bmstu_os2_matrix_solver::cli::Options;
use std::path::PathBuf;

const NOT_ZERO: BicgstabEvent = BicgstabEvent::RhsNorm { near_zero: false };
const RHO_OK: BicgstabEvent = BicgstabEvent::Rho { near_zero: false };
const HALF_NO: BicgstabEvent = BicgstabEvent::HalfStep { converged: false };
const FULL_NO: BicgstabEvent = BicgstabEvent::FullStep { converged: false, omega_near_zero: false };

#[test]
fn zero_rhs_returns_the_initial_guess() {
    let mut c = BicgstabControl::new(10);
    assert_eq!(c.step(BicgstabEvent::RhsNorm { near_zero: true }), BicgstabAction::ReturnGuess);
    assert!(c.is_done());
    assert_eq!(c.iterations_started(), 0);
}

#[test]
fn zero_rhs_wins_over_a_zero_iteration_limit() {
    let mut c = BicgstabControl::new(0);
    assert_eq!(c.step(BicgstabEvent::RhsNorm { near_zero: true }), BicgstabAction::ReturnGuess);
}

#[test]
fn no_iterations_allowed_means_no_convergence() {
    let mut c = BicgstabControl::new(0);
    assert_eq!(c.step(NOT_ZERO), BicgstabAction::Fail(BicgstabError::NoConvergence));
    assert!(c.is_done());
}

#[test]
fn small_rho_loses_bi_orthogonality() {
    let mut c = BicgstabControl::new(5);
    assert_eq!(c.step(NOT_ZERO), BicgstabAction::StartIteration);
    assert_eq!(
        c.step(BicgstabEvent::Rho { near_zero: true }),
        BicgstabAction::Fail(BicgstabError::BiOrthogonalityLost)
    );
    assert!(c.is_done());
}

#[test]
fn converged_half_step_returns_after_the_update() {
    let mut c = BicgstabControl::new(5);
    c.step(NOT_ZERO);
    assert_eq!(c.step(RHO_OK), BicgstabAction::ContinueIteration);
    assert_eq!(
        c.step(BicgstabEvent::HalfStep { converged: true }),
        BicgstabAction::ReturnAfterHalfStep
    );
    assert!(c.is_done());
}

#[test]
fn converged_full_step_returns_even_with_small_omega() {
    let mut c = BicgstabControl::new(5);
    c.step(NOT_ZERO);
    c.step(RHO_OK);
    assert_eq!(c.step(HALF_NO), BicgstabAction::FinishIteration);
    assert_eq!(
        c.step(BicgstabEvent::FullStep { converged: true, omega_near_zero: true }),
        BicgstabAction::ReturnGuess
    );
}

#[test]
fn small_omega_clamps() {
    let mut c = BicgstabControl::new(5);
    c.step(NOT_ZERO);
    c.step(RHO_OK);
    c.step(HALF_NO);
    assert_eq!(
        c.step(BicgstabEvent::FullStep { converged: false, omega_near_zero: true }),
        BicgstabAction::Fail(BicgstabError::OmegaClamped)
    );
}

#[test]
fn iteration_budget_is_exactly_the_limit() {
    for limit in 1..6usize {
        let mut c = BicgstabControl::new(limit);
        let mut starts = 0;
        let mut action = c.step(NOT_ZERO);
        loop {
            match action {
                BicgstabAction::StartIteration => {
                    starts += 1;
                    assert_eq!(c.iterations_started(), starts);
                    c.step(RHO_OK);
                    c.step(HALF_NO);
                    action = c.step(FULL_NO);
                }
                BicgstabAction::Fail(BicgstabError::NoConvergence) => break,
                other => panic!("unexpected action {other:?}"),
            }
        }
        assert_eq!(starts, limit);
        assert!(c.is_done());
    }
}

#[test]
fn error_messages() {
    assert_eq!(
        BicgstabError::NoConvergence.message(),
        "Failed to find a solution within the iteration limit"
    );
    assert_eq!(BicgstabError::BiOrthogonalityLost.message(), "`rho` turned near-zero");
    assert_eq!(BicgstabError::OmegaClamped.message(), "`omega` turned near-zero");
}

#[test]
fn options_hold_paths_and_thread_range() {
    let o = Options {
        matrix_path: PathBuf::from("a.mtx"),
        rhs_path: PathBuf::from("b.mtx"),
        min_threads: 1,
        max_threads: 20,
    };
    assert_eq!(o.matrix_path, PathBuf::from("a.mtx"));
    assert_eq!(o.rhs_path, PathBuf::from("b.mtx"));
    assert!(o.min_threads <= o.max_threads);
}
