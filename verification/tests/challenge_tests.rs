use certbot_alfahosting::challenge::{ChallengeAction, ChallengeDriver, MAX_ATTEMPTS};

#[test]
fn confirmed_order_is_finalized_at_once() {
    let (mut driver, action) = ChallengeDriver::new();
    assert_eq!(action, ChallengeAction::ConfirmValidations);
    assert_eq!(driver.confirmation(true), ChallengeAction::Finalize);
    // A finished round ignores later reports.
    assert_eq!(driver.attempt_finished(false), ChallengeAction::Finalize);
    assert_eq!(driver.refreshed(), ChallengeAction::Finalize);
}

#[test]
fn only_authorizations_that_need_a_challenge_are_attempted() {
    let (mut driver, _) = ChallengeDriver::new();
    assert_eq!(driver.confirmation(false), ChallengeAction::FetchAuthorizations);
    assert_eq!(driver.authorizations(vec![false, true, false, true]), ChallengeAction::Attempt(1));
    assert_eq!(driver.retries_left(), MAX_ATTEMPTS);
    assert_eq!(driver.attempt_finished(true), ChallengeAction::Attempt(3));
    assert_eq!(driver.retries_left(), 5);
    assert_eq!(driver.attempt_finished(true), ChallengeAction::Refresh);
    assert_eq!(driver.refreshed(), ChallengeAction::ConfirmValidations);
    assert_eq!(driver.confirmation(true), ChallengeAction::Finalize);
}

#[test]
fn no_authorization_needing_a_challenge_refreshes() {
    let (mut driver, _) = ChallengeDriver::new();
    driver.confirmation(false);
    assert_eq!(driver.authorizations(vec![false, false]), ChallengeAction::Refresh);
    assert_eq!(driver.authorizations(vec![]), ChallengeAction::Refresh);
}

#[test]
fn five_failures_in_a_row_give_up() {
    let (mut driver, _) = ChallengeDriver::new();
    driver.confirmation(false);
    assert_eq!(driver.authorizations(vec![true]), ChallengeAction::Attempt(0));
    for left in (1..5).rev() {
        assert_eq!(driver.attempt_finished(false), ChallengeAction::Attempt(0));
        assert_eq!(driver.retries_left(), left);
    }
    assert_eq!(driver.attempt_finished(false), ChallengeAction::GiveUp);
    assert_eq!(driver.retries_left(), 0);
    assert_eq!(driver.confirmation(true), ChallengeAction::GiveUp);
}

#[test]
fn a_success_resets_the_attempts_for_the_next_authorization() {
    let (mut driver, _) = ChallengeDriver::new();
    driver.confirmation(false);
    driver.authorizations(vec![true, true]);
    for _ in 0..4 {
        assert_eq!(driver.attempt_finished(false), ChallengeAction::Attempt(0));
    }
    assert_eq!(driver.attempt_finished(true), ChallengeAction::Attempt(1));
    assert_eq!(driver.retries_left(), 5);
    for _ in 0..4 {
        assert_eq!(driver.attempt_finished(false), ChallengeAction::Attempt(1));
    }
    assert_eq!(driver.attempt_finished(true), ChallengeAction::Refresh);
}

#[test]
fn reports_out_of_turn_change_nothing() {
    let (mut driver, _) = ChallengeDriver::new();
    assert_eq!(driver.authorizations(vec![true]), ChallengeAction::ConfirmValidations);
    assert_eq!(driver.attempt_finished(true), ChallengeAction::ConfirmValidations);
    assert_eq!(driver.refreshed(), ChallengeAction::ConfirmValidations);
    assert_eq!(driver.action(), ChallengeAction::ConfirmValidations);
}
