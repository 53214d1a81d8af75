use tozlow::{Address, Outcome, Payout, Settlement, TozlowError, TozlowSession, U256};

fn who(n: u8) -> Address {
    Address::from([n; 20])
}

fn w(n: u64) -> U256 {
    U256::from(n)
}

const DEADLINE: u64 = 1000;
const PERIOD: u64 = 300;
const VOTE_END: u64 = 1300;

/// A store with one session of `n` participants 1..=n, stake `amount`.
fn session_of(n: u8, amount: u64) -> (TozlowSession, U256) {
    let mut c = TozlowSession::new();
    let list: Vec<Address> = (1..=n).map(who).collect();
    let id = c.create_session(who(0xC0), w(amount), w(DEADLINE), w(PERIOD), list).unwrap();
    (c, id)
}

fn deposit_all(c: &mut TozlowSession, id: U256, n: u8) {
    for k in 1..=n {
        assert_eq!(c.deposit(id, who(k), w(10), true), Ok(()));
    }
}

fn pay(to: u8, amount: u64) -> Payout {
    Payout { to: who(to), amount: w(amount) }
}

fn settle(c: &mut TozlowSession, id: U256, now: u64) -> Settlement {
    let planned = c.settlement(id, w(now)).unwrap();
    let made = c.finalize_session(id, w(now), true).unwrap();
    assert_eq!(planned.payouts, made.payouts);
    assert_eq!(planned.outcome, made.outcome);
    assert_eq!(planned.absentee_count, made.absentee_count);
    assert_eq!(planned.reward_per_attendee, made.reward_per_attendee);
    made
}

#[test]
fn nobody_votes_everyone_is_refunded() {
    let (mut c, id) = session_of(3, 100);
    deposit_all(&mut c, id, 3);
    let s = settle(&mut c, id, VOTE_END);
    assert_eq!(s.outcome, Outcome::RefundedNoSettlement);
    assert_eq!(s.absentee_count, w(3));
    assert_eq!(s.reward_per_attendee, w(0));
    assert_eq!(s.payouts, vec![pay(1, 100), pay(2, 100), pay(3, 100)]);
    assert!(c.get_session(id).4);
}

#[test]
fn single_voter_takes_the_pool() {
    let (mut c, id) = session_of(3, 100);
    deposit_all(&mut c, id, 3);
    assert_eq!(c.cast_vote(id, who(1), who(2), w(DEADLINE)), Ok(()));
    assert_eq!(c.absence_vote_count(id, who(2)), w(1));
    assert_eq!(c.absence_vote_count(id, who(1)), w(0));
    let s = settle(&mut c, id, VOTE_END);
    assert_eq!(s.outcome, Outcome::Settled);
    assert_eq!(s.absentee_count, w(2));
    assert_eq!(s.reward_per_attendee, w(300));
    assert_eq!(s.payouts, vec![pay(1, 300)]);
}

#[test]
fn four_of_five_accuse_the_fifth() {
    let (mut c, id) = session_of(5, 50);
    deposit_all(&mut c, id, 5);
    for k in 1..=4 {
        assert_eq!(c.cast_vote(id, who(k), who(5), w(DEADLINE + 1)), Ok(()));
    }
    assert_eq!(c.absence_vote_count(id, who(5)), w(4));
    let s = settle(&mut c, id, VOTE_END + 10);
    assert_eq!(s.outcome, Outcome::Settled);
    assert_eq!(s.absentee_count, w(1));
    assert_eq!(s.reward_per_attendee, w(62));
    assert_eq!(s.payouts, vec![pay(1, 62), pay(2, 62), pay(3, 62), pay(4, 62)]);
}

#[test]
fn incomplete_deposits_refund_depositors_only() {
    let (mut c, id) = session_of(3, 100);
    assert_eq!(c.deposit(id, who(1), w(10), true), Ok(()));
    let s = settle(&mut c, id, VOTE_END);
    assert_eq!(s.outcome, Outcome::RefundedIncomplete);
    assert_eq!(s.reward_per_attendee, w(0));
    assert_eq!(s.payouts, vec![pay(1, 100)]);
    let (_, _, _, _, finalized, active, _) = c.get_session(id);
    assert!(finalized);
    assert!(!active);
}

#[test]
fn incomplete_deposits_with_no_depositor_pay_nothing() {
    let (mut c, id) = session_of(4, 100);
    let s = settle(&mut c, id, VOTE_END);
    assert_eq!(s.outcome, Outcome::RefundedIncomplete);
    assert!(s.payouts.is_empty());
}

#[test]
fn second_deposit_is_refused() {
    let (mut c, id) = session_of(3, 100);
    assert_eq!(c.check_deposit(id, who(1), w(10)), Ok(w(100)));
    assert_eq!(c.deposit(id, who(1), w(10), true), Ok(()));
    assert_eq!(c.check_deposit(id, who(1), w(11)), Err(TozlowError::AlreadyDeposited));
    assert_eq!(c.deposit(id, who(1), w(11), true), Err(TozlowError::AlreadyDeposited));
    assert!(c.has_deposited(id, who(1)));
    assert!(!c.has_deposited(id, who(2)));
    assert!(!c.get_session(id).5);
}

#[test]
fn vote_for_self_is_refused() {
    let (mut c, id) = session_of(3, 100);
    deposit_all(&mut c, id, 3);
    assert_eq!(c.cast_vote(id, who(1), who(1), w(DEADLINE)), Err(TozlowError::CannotVoteSelf));
    assert!(!c.has_voted(id, who(1)));
    assert_eq!(c.absence_vote_count(id, who(1)), w(0));
}

#[test]
fn deposit_guards_come_in_order() {
    let (mut c, id) = session_of(3, 100);
    // A stranger after the deadline: the deadline is told first.
    assert_eq!(c.deposit(id, who(9), w(DEADLINE), true), Err(TozlowError::DeadlineReached));
    assert_eq!(c.deposit(id, who(1), w(DEADLINE), true), Err(TozlowError::DeadlineReached));
    assert_eq!(c.deposit(id, who(1), w(DEADLINE + 1), true), Err(TozlowError::DeadlineReached));
    assert_eq!(c.deposit(id, who(9), w(DEADLINE - 1), true), Err(TozlowError::NotParticipant));
    assert_eq!(c.deposit(id, who(1), w(DEADLINE - 1), false), Err(TozlowError::TransferFailed));
    assert!(!c.has_deposited(id, who(1)));
    assert_eq!(c.deposit(id, who(1), w(DEADLINE - 1), true), Ok(()));
    // A failed transfer is told only where no guard refuses.
    assert_eq!(c.deposit(id, who(1), w(DEADLINE - 1), false), Err(TozlowError::AlreadyDeposited));
}

#[test]
fn deposit_into_unknown_session_is_late() {
    let mut c = TozlowSession::new();
    assert_eq!(c.deposit(w(0), who(1), w(0), true), Err(TozlowError::DeadlineReached));
    assert_eq!(c.check_deposit(w(3), who(1), w(5)), Err(TozlowError::DeadlineReached));
    assert_eq!(c.cast_vote(w(0), who(1), who(2), w(0)), Err(TozlowError::VotingClosed));
}

#[test]
fn deposit_after_settlement_is_refused() {
    let mut c = TozlowSession::new();
    let list = vec![who(1), who(2), who(3)];
    // The voting window closes at 5, long before the deadline wraps round.
    let late = U256 { limbs: [u64::MAX; 4] };
    let id = c.create_session(who(0xC0), w(100), late, w(6), list).unwrap();
    assert_eq!(c.voting_deadline(id), w(5));
    assert!(c.finalize_session(id, w(5), true).is_ok());
    assert_eq!(c.deposit(id, who(1), w(6), true), Err(TozlowError::AlreadyFinalized));
}

#[test]
fn active_turns_on_with_the_last_deposit() {
    let (mut c, id) = session_of(3, 100);
    assert!(!c.get_session(id).5);
    assert_eq!(c.deposit(id, who(2), w(1), true), Ok(()));
    assert!(!c.get_session(id).5);
    assert_eq!(c.deposit(id, who(3), w(2), true), Ok(()));
    assert!(!c.get_session(id).5);
    assert_eq!(c.deposit(id, who(1), w(3), false), Err(TozlowError::TransferFailed));
    assert!(!c.get_session(id).5);
    assert_eq!(c.deposit(id, who(1), w(3), true), Ok(()));
    assert!(c.get_session(id).5);
    assert_eq!(c.cast_vote(id, who(1), who(2), w(DEADLINE)), Ok(()));
    assert!(c.get_session(id).5);
    settle(&mut c, id, VOTE_END);
    assert!(c.get_session(id).5);
}

#[test]
fn vote_guards_come_in_order() {
    let (mut c, id) = session_of(3, 100);
    assert_eq!(c.deposit(id, who(1), w(1), true), Ok(()));
    assert_eq!(c.cast_vote(id, who(1), who(2), w(DEADLINE - 1)), Err(TozlowError::VotingNotOpen));
    assert_eq!(c.cast_vote(id, who(1), who(2), w(VOTE_END)), Err(TozlowError::VotingClosed));
    assert_eq!(c.cast_vote(id, who(1), who(2), w(DEADLINE)), Err(TozlowError::SessionNotActive));
    assert_eq!(c.deposit(id, who(2), w(1), true), Ok(()));
    assert_eq!(c.deposit(id, who(3), w(1), true), Ok(()));
    assert_eq!(c.cast_vote(id, who(9), who(2), w(DEADLINE)), Err(TozlowError::NotParticipant));
    assert_eq!(c.cast_vote(id, who(9), who(9), w(DEADLINE)), Err(TozlowError::NotParticipant));
    assert_eq!(c.cast_vote(id, who(1), who(9), w(DEADLINE)), Err(TozlowError::InvalidAbsent));
    assert_eq!(c.cast_vote(id, who(1), who(1), w(DEADLINE)), Err(TozlowError::CannotVoteSelf));
    assert_eq!(c.cast_vote(id, who(1), who(2), w(VOTE_END - 1)), Ok(()));
    assert_eq!(c.cast_vote(id, who(1), who(3), w(VOTE_END - 1)), Err(TozlowError::AlreadyVoted));
    assert_eq!(c.cast_vote(id, who(1), who(1), w(VOTE_END - 1)), Err(TozlowError::CannotVoteSelf));
    assert!(c.has_voted(id, who(1)));
    assert!(!c.has_voted(id, who(2)));
    assert_eq!(c.absence_vote_count(id, who(2)), w(1));
    assert_eq!(c.absence_vote_count(id, who(3)), w(0));
}

#[test]
fn vote_after_settlement_is_refused() {
    let (mut c, id) = session_of(3, 100);
    deposit_all(&mut c, id, 3);
    assert!(c.finalize_session(id, w(VOTE_END), true).is_ok());
    // Asked with a time inside the window, the settled session says that it
    // is settled; with the time of the settlement, that the window closed.
    assert_eq!(c.cast_vote(id, who(1), who(2), w(DEADLINE)), Err(TozlowError::AlreadyFinalized));
    assert_eq!(c.cast_vote(id, who(1), who(2), w(VOTE_END)), Err(TozlowError::VotingClosed));
    assert!(!c.has_voted(id, who(1)));
    assert_eq!(c.absence_vote_count(id, who(2)), w(0));
}

#[test]
fn a_window_of_no_length_takes_no_vote() {
    let mut c = TozlowSession::new();
    let list = vec![who(1), who(2), who(3)];
    let id = c.create_session(who(0xC0), w(100), w(DEADLINE), w(0), list).unwrap();
    for k in 1..=3 {
        assert_eq!(c.deposit(id, who(k), w(1), true), Ok(()));
    }
    assert_eq!(c.cast_vote(id, who(1), who(2), w(DEADLINE - 1)), Err(TozlowError::VotingNotOpen));
    assert_eq!(c.cast_vote(id, who(1), who(2), w(DEADLINE)), Err(TozlowError::VotingClosed));
    assert!(c.finalize_session(id, w(DEADLINE), true).is_ok());
}

#[test]
fn finalize_is_refused_before_the_window_closes_and_after_it_was_made() {
    let (mut c, id) = session_of(3, 100);
    deposit_all(&mut c, id, 3);
    assert_eq!(c.settlement(id, w(VOTE_END - 1)).unwrap_err(), TozlowError::VotingNotOpen);
    assert_eq!(
        c.finalize_session(id, w(VOTE_END - 1), true).unwrap_err(),
        TozlowError::VotingNotOpen
    );
    assert_eq!(c.finalize_session(id, w(0), true).unwrap_err(), TozlowError::VotingNotOpen);
    assert!(!c.get_session(id).4);
    assert_eq!(c.finalize_session(id, w(VOTE_END), false).unwrap_err(), TozlowError::TransferFailed);
    assert!(!c.get_session(id).4);
    assert!(c.finalize_session(id, w(VOTE_END), true).is_ok());
    assert!(c.get_session(id).4);
    assert_eq!(
        c.finalize_session(id, w(VOTE_END), true).unwrap_err(),
        TozlowError::AlreadyFinalized
    );
    assert_eq!(
        c.finalize_session(id, w(VOTE_END + 50), false).unwrap_err(),
        TozlowError::AlreadyFinalized
    );
    assert_eq!(c.settlement(id, w(VOTE_END + 50)).unwrap_err(), TozlowError::AlreadyFinalized);
}

#[test]
fn anyone_may_settle_an_unknown_id_once() {
    let mut c = TozlowSession::new();
    let s = c.finalize_session(w(4), w(0), true).unwrap();
    assert_eq!(s.outcome, Outcome::RefundedNoSettlement);
    assert_eq!(s.absentee_count, w(0));
    assert_eq!(s.reward_per_attendee, w(0));
    assert!(s.payouts.is_empty());
    assert!(c.get_session(w(4)).4);
    assert!(!c.get_session(w(3)).4);
    assert_eq!(c.finalize_session(w(4), w(1), true).unwrap_err(), TozlowError::AlreadyFinalized);
    assert_eq!(c.finalize_session(w(3), w(1), false).unwrap_err(), TozlowError::TransferFailed);
    assert_eq!(c.session_count(), w(0));
}

#[test]
fn creation_opens_an_id_that_was_settled_early() {
    let mut c = TozlowSession::new();
    assert!(c.finalize_session(w(0), w(0), true).is_ok());
    assert!(c.get_session(w(0)).4);
    let list = vec![who(1), who(2), who(3)];
    let id = c.create_session(who(0xC0), w(100), w(DEADLINE), w(PERIOD), list).unwrap();
    assert_eq!(id, w(0));
    assert!(!c.get_session(id).4);
    assert_eq!(c.deposit(id, who(1), w(1), true), Ok(()));
}

#[test]
fn everyone_votes_nobody_is_outvoted() {
    // Three voters: the threshold is 2. Each is accused once.
    let (mut c, id) = session_of(3, 100);
    deposit_all(&mut c, id, 3);
    assert_eq!(c.cast_vote(id, who(1), who(2), w(DEADLINE)), Ok(()));
    assert_eq!(c.cast_vote(id, who(2), who(3), w(DEADLINE)), Ok(()));
    assert_eq!(c.cast_vote(id, who(3), who(1), w(DEADLINE)), Ok(()));
    let s = settle(&mut c, id, VOTE_END);
    assert_eq!(s.outcome, Outcome::RefundedNoSettlement);
    assert_eq!(s.absentee_count, w(0));
    assert_eq!(s.reward_per_attendee, w(0));
    assert_eq!(s.payouts, vec![pay(1, 100), pay(2, 100), pay(3, 100)]);
}

#[test]
fn a_voter_with_a_majority_against_them_is_absent() {
    // Three voters: the threshold is 2, and two accuse the third.
    let (mut c, id) = session_of(3, 100);
    deposit_all(&mut c, id, 3);
    assert_eq!(c.cast_vote(id, who(1), who(3), w(DEADLINE)), Ok(()));
    assert_eq!(c.cast_vote(id, who(2), who(3), w(DEADLINE)), Ok(()));
    assert_eq!(c.cast_vote(id, who(3), who(1), w(DEADLINE)), Ok(()));
    let s = settle(&mut c, id, VOTE_END);
    assert_eq!(s.outcome, Outcome::Settled);
    assert_eq!(s.absentee_count, w(1));
    assert_eq!(s.reward_per_attendee, w(150));
    assert_eq!(s.payouts, vec![pay(1, 150), pay(2, 150)]);
}

#[test]
fn two_voters_need_two_accusations() {
    // Four participants, two vote, each accusing the other: threshold 2,
    // tallies of 1, so both attended; the two who kept silent are absent.
    let (mut c, id) = session_of(4, 75);
    deposit_all(&mut c, id, 4);
    assert_eq!(c.cast_vote(id, who(2), who(4), w(DEADLINE)), Ok(()));
    assert_eq!(c.cast_vote(id, who(4), who(2), w(DEADLINE)), Ok(()));
    let s = settle(&mut c, id, VOTE_END);
    assert_eq!(s.outcome, Outcome::Settled);
    assert_eq!(s.absentee_count, w(2));
    assert_eq!(s.reward_per_attendee, w(150));
    assert_eq!(s.payouts, vec![pay(2, 150), pay(4, 150)]);
}

#[test]
fn the_remainder_of_the_division_is_kept() {
    let (mut c, id) = session_of(5, 20);
    deposit_all(&mut c, id, 5);
    for k in 1..=3 {
        assert_eq!(c.cast_vote(id, who(k), who(5), w(DEADLINE)), Ok(()));
    }
    let s = settle(&mut c, id, VOTE_END);
    // 100 shared among three: 33 each, 1 kept.
    assert_eq!(s.reward_per_attendee, w(33));
    assert_eq!(s.absentee_count, w(2));
    assert_eq!(s.payouts, vec![pay(1, 33), pay(2, 33), pay(3, 33)]);
}

#[test]
fn the_pool_is_taken_modulo_the_word() {
    let mut c = TozlowSession::new();
    let list = vec![who(1), who(2), who(3)];
    // A stake of 2^255: three of them are 2^255 modulo 2^256.
    let half = U256 { limbs: [0, 0, 0, 1 << 63] };
    let id = c.create_session(who(0xC0), half, w(DEADLINE), w(PERIOD), list).unwrap();
    deposit_all(&mut c, id, 3);
    assert_eq!(c.cast_vote(id, who(1), who(2), w(DEADLINE)), Ok(()));
    let s = settle(&mut c, id, VOTE_END);
    assert_eq!(s.reward_per_attendee, half);
    assert_eq!(s.payouts, vec![Payout { to: who(1), amount: half }]);
}

#[test]
fn large_stakes_are_multiplied_and_divided_across_limbs() {
    let mut c = TozlowSession::new();
    let list = vec![who(1), who(2), who(3), who(4)];
    // 2^64 + 2 each; four of them are 2^66 + 8, and a third of that is
    // 24595658764946068824, that is 2^64 + 6148914691236517208.
    let stake = U256 { limbs: [2, 1, 0, 0] };
    let id = c.create_session(who(0xC0), stake, w(DEADLINE), w(PERIOD), list).unwrap();
    deposit_all(&mut c, id, 4);
    for k in 1..=3 {
        assert_eq!(c.cast_vote(id, who(k), who(4), w(DEADLINE)), Ok(()));
    }
    let s = settle(&mut c, id, VOTE_END);
    let share = U256 { limbs: [6148914691236517208, 1, 0, 0] };
    assert_eq!(s.reward_per_attendee, share);
    assert_eq!(s.payouts.len(), 3);
    assert_eq!(s.payouts[2], Payout { to: who(3), amount: share });
}

#[test]
fn times_are_compared_as_whole_words() {
    let mut c = TozlowSession::new();
    let list = vec![who(1), who(2), who(3)];
    // The deadline is 2^64: a time of 5 in the lowest limb is before it.
    let deadline = U256 { limbs: [0, 1, 0, 0] };
    let id = c.create_session(who(0xC0), w(1), deadline, w(PERIOD), list).unwrap();
    assert_eq!(c.deposit(id, who(1), w(5), true), Ok(()));
    let after = U256 { limbs: [0, 2, 0, 0] };
    assert_eq!(c.deposit(id, who(2), after, true), Err(TozlowError::DeadlineReached));
    assert_eq!(c.deposit(id, who(2), deadline, true), Err(TozlowError::DeadlineReached));
}

#[test]
fn a_duplicate_attendee_is_paid_for_each_place() {
    let mut c = TozlowSession::new();
    let list = vec![who(1), who(1), who(2)];
    let id = c.create_session(who(0xC0), w(100), w(DEADLINE), w(PERIOD), list).unwrap();
    assert_eq!(c.deposit(id, who(1), w(1), true), Ok(()));
    assert_eq!(c.deposit(id, who(2), w(1), true), Ok(()));
    assert_eq!(c.cast_vote(id, who(1), who(2), w(DEADLINE)), Ok(()));
    let s = settle(&mut c, id, VOTE_END);
    // Two places voted: the threshold is 2. The pool of 300 is halved.
    assert_eq!(s.absentee_count, w(1));
    assert_eq!(s.reward_per_attendee, w(150));
    assert_eq!(s.payouts, vec![pay(1, 150), pay(1, 150)]);
}

#[test]
fn sessions_do_not_touch_each_other() {
    let mut c = TozlowSession::new();
    let a = c
        .create_session(who(7), w(100), w(DEADLINE), w(PERIOD), vec![who(1), who(2), who(3)])
        .unwrap();
    let b = c
        .create_session(who(8), w(40), w(DEADLINE), w(PERIOD), vec![who(1), who(2), who(3)])
        .unwrap();
    assert_eq!(c.deposit(a, who(1), w(1), true), Ok(()));
    assert!(c.has_deposited(a, who(1)));
    assert!(!c.has_deposited(b, who(1)));
    assert_eq!(c.get_session(a).0, who(7));
    assert_eq!(c.get_session(b).0, who(8));
    let s = settle(&mut c, b, VOTE_END);
    assert!(s.payouts.is_empty());
    assert!(c.get_session(b).4);
    assert!(!c.get_session(a).4);
}
