use tozlow::{Address, Outcome, Payout, Record, Session, SettlementRecord, TozlowError, U256};

fn member(n: u8) -> Address {
    Address::from([n; 20])
}

fn n(x: u64) -> U256 {
    U256::from(x)
}

fn record(who: u8, deposited: bool, voted: bool, absence_votes: usize) -> Record {
    Record { address: member(who), deposited, voted, absence_votes }
}

fn restored(finalized: bool, active: bool, records: &Vec<Record>) -> Session {
    Session::restore(member(0xC0), n(100), n(1000), n(300), finalized, active, records)
}

#[test]
fn create_checks_the_size() {
    let two = vec![member(1), member(2)];
    let six: Vec<Address> = (1..=6).map(member).collect();
    let five: Vec<Address> = (1..=5).map(member).collect();
    assert!(matches!(
        Session::create(member(9), n(1), n(2), n(3), two),
        Err(TozlowError::NotEnoughParticipants)
    ));
    assert!(matches!(
        Session::create(member(9), n(1), n(2), n(3), six),
        Err(TozlowError::TooManyParticipants)
    ));
    let s = Session::create(member(9), n(1), n(2), n(3), five).unwrap();
    let (host, amount, deadline, period, finalized, active, count) = s.terms();
    assert_eq!(host, member(9));
    assert_eq!(amount, n(1));
    assert_eq!(deadline, n(2));
    assert_eq!(period, n(3));
    assert!(!finalized);
    assert!(!active);
    assert_eq!(count, n(5));
    assert_eq!(s.amount(), n(1));
    assert_eq!(s.voting_end(), n(5));
    assert_eq!(s.collect_addrs(), (1..=5).map(member).collect::<Vec<Address>>());
    assert!(!s.all_deposited());
}

#[test]
fn restore_reads_the_records() {
    let records =
        vec![record(1, true, true, 0), record(2, true, false, 1), record(3, false, false, 0)];
    let s = restored(false, false, &records);
    assert_eq!(s.collect_addrs(), vec![member(1), member(2), member(3)]);
    assert_eq!(s.participant_at(n(1)), member(2));
    assert_eq!(s.participant_at(n(3)), Address::zero());
    assert!(s.is_participant(member(3)));
    assert!(!s.is_participant(member(4)));
    assert!(s.has_deposited(member(1)));
    assert!(s.has_deposited(member(2)));
    assert!(!s.has_deposited(member(3)));
    assert!(s.has_voted(member(1)));
    assert!(!s.has_voted(member(2)));
    assert_eq!(s.absence_votes(member(2)), 1);
    assert_eq!(s.absence_votes(member(1)), 0);
    assert_eq!(s.absence_votes(member(7)), 0);
    assert!(!s.all_deposited());
    let (_, _, _, _, finalized, active, count) = s.terms();
    assert!(!finalized);
    assert!(!active);
    assert_eq!(count, n(3));
}

#[test]
fn restore_takes_the_tally_of_the_first_record() {
    let records = vec![record(1, false, false, 2), record(1, true, false, 5), record(2, true, true, 3)];
    let s = restored(false, false, &records);
    assert_eq!(s.absence_votes(member(1)), 2);
    assert_eq!(s.absence_votes(member(2)), 3);
    assert!(s.has_deposited(member(1)));
    assert!(s.all_deposited());
}

#[test]
fn restore_of_no_record_refuses_as_a_blank_session() {
    let none: Vec<Record> = vec![];
    let mut s = Session::restore(Address::zero(), n(0), n(0), n(0), false, false, &none);
    assert_eq!(s.check_deposit(member(1), n(0)), Some(TozlowError::DeadlineReached));
    assert_eq!(s.deposit(member(1), n(0), true), Err(TozlowError::DeadlineReached));
    assert_eq!(s.check_vote(member(1), member(2), n(0)), Some(TozlowError::VotingClosed));
    assert_eq!(s.cast_vote(member(1), member(2), n(0)), Err(TozlowError::VotingClosed));
    assert_eq!(s.check_finalize(n(0)), None);
    let made = s.finalize(n(0), true).unwrap();
    assert_eq!(made.outcome, Outcome::RefundedNoSettlement);
    assert!(made.payouts.is_empty());
    assert_eq!(s.check_finalize(n(0)), Some(TozlowError::AlreadyFinalized));
}

#[test]
fn restored_session_goes_on_where_it_stood() {
    let records =
        vec![record(1, true, false, 0), record(2, true, false, 0), record(3, false, false, 0)];
    let mut s = restored(false, false, &records);
    assert_eq!(s.check_deposit(member(1), n(10)), Some(TozlowError::AlreadyDeposited));
    assert_eq!(s.check_deposit(member(3), n(10)), None);
    assert_eq!(s.deposit(member(3), n(10), true), Ok(()));
    assert!(s.terms().5);
    assert_eq!(s.check_vote(member(3), member(1), n(1000)), None);
    assert_eq!(s.cast_vote(member(3), member(1), n(1000)), Ok(()));
    assert_eq!(s.absence_votes(member(1)), 1);
    assert_eq!(s.check_finalize(n(1299)), Some(TozlowError::VotingNotOpen));
    let planned = s.preview(n(1300)).unwrap();
    assert_eq!(planned.payouts, vec![Payout { to: member(3), amount: n(300) }]);
    let settled = s.settle();
    assert_eq!(settled.outcome, Outcome::Settled);
    assert_eq!(settled.absentee_count, n(2));
    assert_eq!(settled.reward_per_attendee, n(300));
    assert_eq!(s.finalize(n(1300), false).unwrap_err(), TozlowError::TransferFailed);
    assert!(!s.terms().4);
    assert!(s.finalize(n(1300), true).is_ok());
    assert!(s.terms().4);
    assert_eq!(s.preview(n(1300)).unwrap_err(), TozlowError::AlreadyFinalized);
}

#[test]
fn restored_tallies_decide_who_was_absent() {
    // Five places, four voted: the threshold is 3.
    let records = vec![
        record(1, true, true, 3),
        record(2, true, true, 2),
        record(3, true, true, 0),
        record(4, true, true, 4),
        record(5, true, false, 0),
    ];
    let s = restored(false, true, &records);
    let settled = s.settle();
    assert_eq!(settled.outcome, Outcome::Settled);
    assert_eq!(settled.absentee_count, n(3));
    assert_eq!(settled.reward_per_attendee, n(250));
    assert_eq!(
        settled.payouts,
        vec![Payout { to: member(2), amount: n(250) }, Payout { to: member(3), amount: n(250) }]
    );
}

#[test]
fn the_record_of_a_settlement_follows_its_outcome() {
    let incomplete =
        vec![record(1, true, false, 0), record(2, false, false, 0), record(3, false, false, 0)];
    assert_eq!(restored(false, false, &incomplete).settle().record(), SettlementRecord::Refunded);
    let silent =
        vec![record(1, true, false, 0), record(2, true, false, 0), record(3, true, false, 0)];
    assert_eq!(
        restored(false, true, &silent).settle().record(),
        SettlementRecord::Finalized { absentee_count: n(3), reward_per_attendee: n(0) }
    );
    let one_voter =
        vec![record(1, true, true, 0), record(2, true, false, 1), record(3, true, false, 0)];
    assert_eq!(
        restored(false, true, &one_voter).settle().record(),
        SettlementRecord::Finalized { absentee_count: n(2), reward_per_attendee: n(300) }
    );
}
