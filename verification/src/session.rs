//! One session as it is stored, and the calls on it.

use vstd::prelude::*;
use crate::address::Address;
use crate::error::TozlowError;
use crate::model::{
    lemma_created_wf, lemma_deposit_keeps_wf, lemma_filter_step, lemma_finalized_keeps_wf,
    lemma_pay_each_push, lemma_record_addresses_push, lemma_recorded_tally_absent, lemma_to_set_push, lemma_vote_keeps_wf,
    pay_each, record_addresses, record_deposited_fn, record_voted_fn, recorded_tally, Outcome,
    Record, SessionView,
};
use crate::settlement::{lemma_payout_views_push, payout_views, settled_as, Payout, Settlement};
use crate::word::{lemma_value_bound, word_add, word_div, word_lt, word_mul, U256};

verus! {

/// A session: its terms, its two flags, the participants in the order given,
/// those whose stake is held, those who have voted, and the accused of each
/// vote.
pub struct Session {
    host: Address,
    amount: U256,
    deadline: U256,
    voting_period: U256,
    finalized: bool,
    active: bool,
    participants: Vec<Address>,
    depositors: Vec<Address>,
    voters: Vec<Address>,
    accused: Vec<Address>,
}

impl View for Session {
    type V = SessionView;

    closed spec fn view(&self) -> SessionView {
        SessionView {
            host: self.host,
            amount: self.amount@,
            deadline: self.deadline@,
            voting_period: self.voting_period@,
            finalized: self.finalized,
            active: self.active,
            participants: self.participants@,
            deposited: self.depositors@.to_set(),
            voted: self.voters@.to_set(),
            accusations: self.accused@.to_multiset(),
        }
    }
}

/// Whether `list` holds `a`.
fn holds(list: &Vec<Address>, a: Address) -> (r: bool)
    ensures
        r == list@.contains(a),
{
    let mut i: usize = 0;
    while i < list.len()
        invariant
            i <= list.len(),
            forall|j: int| 0 <= j < i ==> list@[j] != a,
        decreases list.len() - i,
    {
        if list[i] == a {
            return true;
        }
        i += 1;
    }
    false
}

/// How often `list` holds `a`.
fn occurrences(list: &Vec<Address>, a: Address) -> (r: usize)
    ensures
        r == list@.to_multiset().count(a),
{
    let mut n: usize = 0;
    let mut i: usize = 0;
    proof {
        list@.take(0).to_multiset_ensures();
    }
    while i < list.len()
        invariant
            i <= list.len(),
            n <= i,
            n == list@.take(i as int).to_multiset().count(a),
        decreases list.len() - i,
    {
        proof {
            list@.take(i as int).to_multiset_ensures();
            assert(list@.take(i + 1) =~= list@.take(i as int).push(list@[i as int]));
        }
        if list[i] == a {
            n += 1;
        }
        i += 1;
    }
    proof {
        assert(list@.take(list.len() as int) =~= list@);
    }
    n
}

/// Appends `n` times `a` to `list`.
fn push_copies(list: &mut Vec<Address>, a: Address, n: usize)
    ensures
        final(list)@.to_multiset().count(a) == old(list)@.to_multiset().count(a) + n,
        forall|b: Address|
            b != a ==> final(list)@.to_multiset().count(b) == old(list)@.to_multiset().count(b),
{
    let mut k: usize = 0;
    while k < n
        invariant
            k <= n,
            list@.to_multiset().count(a) == old(list)@.to_multiset().count(a) + k,
            forall|b: Address|
                b != a ==> list@.to_multiset().count(b) == old(list)@.to_multiset().count(b),
        decreases n - k,
    {
        proof {
            list@.to_multiset_ensures();
        }
        list.push(a);
        k += 1;
    }
}

/// One payment of `amount` to each address of `to`, in order.
fn pay_list(to: &Vec<Address>, amount: U256) -> (r: Vec<Payout>)
    ensures
        payout_views(r@) == pay_each(to@, amount@),
{
    let mut out: Vec<Payout> = Vec::new();
    let mut i: usize = 0;
    proof {
        assert(payout_views(out@) =~= pay_each(to@.take(0), amount@));
    }
    while i < to.len()
        invariant
            i <= to.len(),
            payout_views(out@) == pay_each(to@.take(i as int), amount@),
        decreases to.len() - i,
    {
        let p = Payout { to: to[i], amount };
        proof {
            lemma_payout_views_push(out@, p);
            lemma_pay_each_push(to@.take(i as int), to@[i as int], amount@);
            assert(to@.take(i + 1) =~= to@.take(i as int).push(to@[i as int]));
        }
        out.push(p);
        i += 1;
    }
    proof {
        assert(to@.take(to.len() as int) =~= to@);
    }
    out
}

impl Session {
    /// A session of three to five participants as it is created: no stake
    /// held, no vote cast.
    pub fn create(
        host: Address,
        amount: U256,
        deadline: U256,
        voting_period: U256,
        participants: Vec<Address>,
    ) -> (r: Result<Session, TozlowError>)
        ensures
            participants@.len() < 3 ==> r is Err && r->Err_0 == TozlowError::NotEnoughParticipants,
            participants@.len() > 5 ==> r is Err && r->Err_0 == TozlowError::TooManyParticipants,
            3 <= participants@.len() <= 5 ==> r is Ok && r->Ok_0@ == SessionView::created(
                host,
                amount@,
                deadline@,
                voting_period@,
                participants@,
            ) && r->Ok_0@.wf(),
    {
        let n = participants.len();
        if n < 3 {
            return Err(TozlowError::NotEnoughParticipants);
        }
        if n > 5 {
            return Err(TozlowError::TooManyParticipants);
        }
        let r = Session {
            host,
            amount,
            deadline,
            voting_period,
            finalized: false,
            active: false,
            participants,
            depositors: Vec::new(),
            voters: Vec::new(),
            accused: Vec::new(),
        };
        proof {
            assert(r.depositors@.to_set() =~= Set::<Address>::empty());
            assert(r.voters@.to_set() =~= Set::<Address>::empty());
            r.accused@.to_multiset_ensures();
            assert(r.accused@.to_multiset() =~= vstd::multiset::Multiset::<Address>::empty());
            lemma_value_bound(amount);
            lemma_value_bound(deadline);
            lemma_value_bound(voting_period);
            lemma_created_wf(host, amount@, deadline@, voting_period@, r.participants@);
        }
        Ok(r)
    }

    /// The session that a store holds: the terms and flags as given, and of
    /// each place in the list what its record says. Where an address stands
    /// in several places, it has deposited or voted if one of its records
    /// says so, and its tally is that of its first record. The work grows
    /// with the tallies, which in a session that was run through these calls
    /// are no more than its votes.
    pub fn restore(
        host: Address,
        amount: U256,
        deadline: U256,
        voting_period: U256,
        finalized: bool,
        active: bool,
        records: &Vec<Record>,
    ) -> (r: Session)
        ensures
            r@.host == host,
            r@.amount == amount@,
            r@.deadline == deadline@,
            r@.voting_period == voting_period@,
            r@.finalized == finalized,
            r@.active == active,
            r@.participants == record_addresses(records@),
            r@.deposited == record_addresses(records@.filter(record_deposited_fn())).to_set(),
            r@.voted == record_addresses(records@.filter(record_voted_fn())).to_set(),
            forall|a: Address| #[trigger] r@.tally(a) == recorded_tally(records@, a),
    {
        let mut participants: Vec<Address> = Vec::new();
        let mut depositors: Vec<Address> = Vec::new();
        let mut voters: Vec<Address> = Vec::new();
        let mut accused: Vec<Address> = Vec::new();
        let mut i: usize = 0;
        proof {
            reveal(Seq::filter);
            accused@.to_multiset_ensures();
            assert(participants@ =~= record_addresses(records@.take(0)));
            assert(depositors@ =~= record_addresses(
                records@.take(0).filter(record_deposited_fn()),
            ));
            assert(voters@ =~= record_addresses(records@.take(0).filter(record_voted_fn())));
            assert forall|a: Address|
                accused@.to_multiset().count(a) == recorded_tally(records@.take(0), a) by {
                assert(!accused@.contains(a));
            }
        }
        while i < records.len()
            invariant
                i <= records.len(),
                participants@ == record_addresses(records@.take(i as int)),
                depositors@ == record_addresses(
                    records@.take(i as int).filter(record_deposited_fn()),
                ),
                voters@ == record_addresses(records@.take(i as int).filter(record_voted_fn())),
                forall|a: Address|
                    accused@.to_multiset().count(a) == recorded_tally(records@.take(i as int), a),
            decreases records.len() - i,
        {
            let rec = records[i];
            let seen = holds(&participants, rec.address);
            proof {
                let before = records@.take(i as int);
                let after = records@.take(i + 1);
                assert(after.drop_last() =~= before);
                assert(after.last() == rec);
                assert(after =~= before.push(rec));
                lemma_record_addresses_push(before, rec);
                lemma_filter_step(records@, record_deposited_fn(), i as int);
                lemma_filter_step(records@, record_voted_fn(), i as int);
                lemma_record_addresses_push(before.filter(record_deposited_fn()), rec);
                lemma_record_addresses_push(before.filter(record_voted_fn()), rec);
            }
            participants.push(rec.address);
            if rec.deposited {
                depositors.push(rec.address);
            }
            if rec.voted {
                voters.push(rec.address);
            }
            if !seen {
                push_copies(&mut accused, rec.address, rec.absence_votes);
            }
            proof {
                let before = records@.take(i as int);
                let after = records@.take(i + 1);
                assert(after.drop_last() =~= before);
                assert forall|a: Address|
                    accused@.to_multiset().count(a) == recorded_tally(after, a) by {
                    if !record_addresses(before).contains(a) {
                        lemma_recorded_tally_absent(before, a);
                    }
                }
            }
            i += 1;
        }
        proof {
            assert(records@.take(records.len() as int) =~= records@);
        }
        Session {
            host,
            amount,
            deadline,
            voting_period,
            finalized,
            active,
            participants,
            depositors,
            voters,
            accused,
        }
    }

    /// The stored terms and flags, and the number of participants.
    pub fn terms(&self) -> (r: (Address, U256, U256, U256, bool, bool, U256))
        ensures
            r.0 == self@.host,
            r.1@ == self@.amount,
            r.2@ == self@.deadline,
            r.3@ == self@.voting_period,
            r.4 == self@.finalized,
            r.5 == self@.active,
            r.6@ == self@.participant_count(),
    {
        (
            self.host,
            self.amount,
            self.deadline,
            self.voting_period,
            self.finalized,
            self.active,
            U256::from_usize(self.participants.len()),
        )
    }

    /// The stake of each participant.
    pub fn amount(&self) -> (r: U256)
        ensures
            r@ == self@.amount,
    {
        self.amount
    }

    /// The participant at place `i`, and the zero address past the end.
    pub fn participant_at(&self, i: U256) -> (r: Address)
        ensures
            r == self@.participant_at(i@),
    {
        match i.index_below(self.participants.len()) {
            Some(k) => self.participants[k],
            None => Address::zero(),
        }
    }

    /// Whether `a` stands in the list of participants.
    pub fn is_participant(&self, a: Address) -> (r: bool)
        ensures
            r == self@.is_participant(a),
    {
        holds(&self.participants, a)
    }

    /// Whether the stake of `a` is held.
    pub fn has_deposited(&self, a: Address) -> (r: bool)
        ensures
            r == self@.deposited.contains(a),
    {
        holds(&self.depositors, a)
    }

    /// Whether `a` has cast their vote.
    pub fn has_voted(&self, a: Address) -> (r: bool)
        ensures
            r == self@.voted.contains(a),
    {
        holds(&self.voters, a)
    }

    /// The number of votes that accuse `a`.
    pub fn absence_votes(&self, a: Address) -> (r: usize)
        ensures
            r == self@.tally(a),
    {
        occurrences(&self.accused, a)
    }

    /// Whether the stake of every participant is held.
    pub fn all_deposited(&self) -> (r: bool)
        ensures
            r == self@.all_deposited(),
    {
        let mut i: usize = 0;
        while i < self.participants.len()
            invariant
                i <= self.participants.len(),
                forall|j: int|
                    0 <= j < i ==> self.depositors@.contains(#[trigger] self.participants@[j]),
            decreases self.participants.len() - i,
        {
            if !holds(&self.depositors, self.participants[i]) {
                assert(!self@.deposited.contains(self@.participants[i as int]));
                return false;
            }
            i += 1;
        }
        true
    }

    /// The participants, in the order given at creation.
    pub fn collect_addrs(&self) -> (r: Vec<Address>)
        ensures
            r@ == self@.participants,
    {
        let mut out: Vec<Address> = Vec::new();
        let mut i: usize = 0;
        while i < self.participants.len()
            invariant
                i <= self.participants.len(),
                out@ == self.participants@.take(i as int),
            decreases self.participants.len() - i,
        {
            out.push(self.participants[i]);
            proof {
                assert(self.participants@.take(i + 1) =~= self.participants@.take(i as int).push(
                    self.participants@[i as int],
                ));
            }
            i += 1;
        }
        proof {
            assert(self.participants@.take(self.participants.len() as int) =~= self.participants@);
        }
        out
    }

    /// The time at which the voting window closes.
    pub fn voting_end(&self) -> (r: U256)
        ensures
            r@ == self@.vote_end(),
    {
        word_add(self.deadline, self.voting_period)
    }
    /// The participants whose stake is held, in the order of the list.
    fn depositing(&self) -> (r: Vec<Address>)
        ensures
            r@ == self@.participants.filter(self@.has_deposited_fn()),
    {
        let mut out: Vec<Address> = Vec::new();
        let mut i: usize = 0;
        proof {
            reveal(Seq::filter);
            assert(self.participants@.take(0).filter(self@.has_deposited_fn()) =~= out@);
        }
        while i < self.participants.len()
            invariant
                i <= self.participants.len(),
                out@ == self.participants@.take(i as int).filter(self@.has_deposited_fn()),
            decreases self.participants.len() - i,
        {
            let a = self.participants[i];
            proof {
                lemma_filter_step(self.participants@, self@.has_deposited_fn(), i as int);
            }
            if self.has_deposited(a) {
                out.push(a);
            }
            i += 1;
        }
        proof {
            assert(self.participants@.take(self.participants.len() as int) =~= self.participants@);
        }
        out
    }

    /// The places of the list whose address has voted, counted.
    fn count_voters(&self) -> (r: usize)
        ensures
            r == self@.voter_count(),
    {
        let mut n: usize = 0;
        let mut i: usize = 0;
        proof {
            reveal(Seq::filter);
            assert(self.participants@.take(0).filter(self@.has_voted_fn()).len() == 0);
        }
        while i < self.participants.len()
            invariant
                i <= self.participants.len(),
                n <= i,
                n == self.participants@.take(i as int).filter(self@.has_voted_fn()).len(),
            decreases self.participants.len() - i,
        {
            proof {
                lemma_filter_step(self.participants@, self@.has_voted_fn(), i as int);
            }
            if self.has_voted(self.participants[i]) {
                n += 1;
            }
            i += 1;
        }
        proof {
            assert(self.participants@.take(self.participants.len() as int) =~= self.participants@);
        }
        n
    }

    /// The absent and those who attended, each in the order of the list.
    fn classify(&self, threshold: usize) -> (r: (Vec<Address>, Vec<Address>))
        requires
            threshold == self@.threshold(),
        ensures
            r.0@ == self@.absentees(),
            r.1@ == self@.attendees(),
    {
        let mut absentees: Vec<Address> = Vec::new();
        let mut attendees: Vec<Address> = Vec::new();
        let mut i: usize = 0;
        proof {
            reveal(Seq::filter);
            assert(self.participants@.take(0).filter(self@.is_absent_fn()) =~= absentees@);
            assert(self.participants@.take(0).filter(self@.is_attendee_fn()) =~= attendees@);
        }
        while i < self.participants.len()
            invariant
                i <= self.participants.len(),
                threshold == self@.threshold(),
                absentees@ == self.participants@.take(i as int).filter(self@.is_absent_fn()),
                attendees@ == self.participants@.take(i as int).filter(self@.is_attendee_fn()),
            decreases self.participants.len() - i,
        {
            let a = self.participants[i];
            proof {
                lemma_filter_step(self.participants@, self@.is_absent_fn(), i as int);
                lemma_filter_step(self.participants@, self@.is_attendee_fn(), i as int);
            }
            if !self.has_voted(a) {
                absentees.push(a);
            } else if self.absence_votes(a) >= threshold {
                absentees.push(a);
            } else {
                attendees.push(a);
            }
            i += 1;
        }
        proof {
            assert(self.participants@.take(self.participants.len() as int) =~= self.participants@);
        }
        (absentees, attendees)
    }

    /// How the session is settled: who is paid what, and the numbers of the
    /// record.
    pub fn settle(&self) -> (r: Settlement)
        ensures
            r@ == self@.settlement(),
    {
        if !self.all_deposited() {
            let depositing = self.depositing();
            return Settlement {
                outcome: Outcome::RefundedIncomplete,
                absentee_count: U256::zero(),
                reward_per_attendee: U256::zero(),
                payouts: pay_list(&depositing, self.amount),
            };
        }
        let voter_count = self.count_voters();
        let threshold: usize = if voter_count > 0 {
            voter_count / 2 + 1
        } else {
            1
        };
        let (absentees, attendees) = self.classify(threshold);
        if absentees.len() == 0 || attendees.len() == 0 {
            Settlement {
                outcome: Outcome::RefundedNoSettlement,
                absentee_count: U256::from_usize(absentees.len()),
                reward_per_attendee: U256::zero(),
                payouts: pay_list(&self.participants, self.amount),
            }
        } else {
            let pool = word_mul(self.amount, U256::from_usize(self.participants.len()));
            let reward = word_div(pool, U256::from_usize(attendees.len()));
            Settlement {
                outcome: Outcome::Settled,
                absentee_count: U256::from_usize(absentees.len()),
                reward_per_attendee: reward,
                payouts: pay_list(&attendees, reward),
            }
        }
    }
    /// Why a deposit of `caller` at time `now` is refused, if it is.
    pub fn check_deposit(&self, caller: Address, now: U256) -> (r: Option<TozlowError>)
        ensures
            r == self@.deposit_refusal(caller, now@),
    {
        if !word_lt(now, self.deadline) {
            Some(TozlowError::DeadlineReached)
        } else if self.finalized {
            Some(TozlowError::AlreadyFinalized)
        } else if !self.is_participant(caller) {
            Some(TozlowError::NotParticipant)
        } else if self.has_deposited(caller) {
            Some(TozlowError::AlreadyDeposited)
        } else {
            None
        }
    }

    /// Records the stake of `caller`, where the deposit is not refused and
    /// the ledger has moved the stake; the first full set of stakes makes the
    /// session active.
    pub fn deposit(&mut self, caller: Address, now: U256, pulled: bool) -> (r: Result<
        (),
        TozlowError,
    >)
        ensures
            r == old(self)@.deposit_result(caller, now@, pulled),
            final(self)@ == old(self)@.after_deposit(caller, now@, pulled),
            old(self)@.wf() ==> final(self)@.wf(),
    {
        if let Some(e) = self.check_deposit(caller, now) {
            return Err(e);
        }
        if !pulled {
            return Err(TozlowError::TransferFailed);
        }
        self.depositors.push(caller);
        proof {
            lemma_to_set_push(old(self).depositors@, caller);
        }
        if self.all_deposited() {
            self.active = true;
        }
        proof {
            if old(self)@.wf() {
                lemma_deposit_keeps_wf(old(self)@, caller);
            }
        }
        Ok(())
    }

    /// Why a vote of `caller` against `accused` at time `now` is refused, if
    /// it is.
    pub fn check_vote(&self, caller: Address, accused: Address, now: U256) -> (r: Option<
        TozlowError,
    >)
        ensures
            r == self@.vote_refusal(caller, accused, now@),
    {
        if word_lt(now, self.deadline) {
            Some(TozlowError::VotingNotOpen)
        } else if !word_lt(now, self.voting_end()) {
            Some(TozlowError::VotingClosed)
        } else if self.finalized {
            Some(TozlowError::AlreadyFinalized)
        } else if !self.active {
            Some(TozlowError::SessionNotActive)
        } else if !self.is_participant(caller) {
            Some(TozlowError::NotParticipant)
        } else if !self.is_participant(accused) {
            Some(TozlowError::InvalidAbsent)
        } else if caller == accused {
            Some(TozlowError::CannotVoteSelf)
        } else if self.has_voted(caller) {
            Some(TozlowError::AlreadyVoted)
        } else {
            None
        }
    }

    /// Records the vote of `caller` against `accused`, where it is not
    /// refused.
    pub fn cast_vote(&mut self, caller: Address, accused: Address, now: U256) -> (r: Result<
        (),
        TozlowError,
    >)
        ensures
            r == old(self)@.vote_result(caller, accused, now@),
            final(self)@ == old(self)@.after_vote(caller, accused, now@),
            old(self)@.wf() ==> final(self)@.wf(),
    {
        if let Some(e) = self.check_vote(caller, accused, now) {
            return Err(e);
        }
        proof {
            self.accused@.to_multiset_ensures();
        }
        self.voters.push(caller);
        self.accused.push(accused);
        proof {
            lemma_to_set_push(old(self).voters@, caller);
            if old(self)@.wf() {
                lemma_vote_keeps_wf(old(self)@, caller, accused);
            }
        }
        Ok(())
    }

    /// Why the settlement at time `now` is refused, if it is.
    pub fn check_finalize(&self, now: U256) -> (r: Option<TozlowError>)
        ensures
            r == self@.finalize_refusal(now@),
    {
        if word_lt(now, self.voting_end()) {
            Some(TozlowError::VotingNotOpen)
        } else if self.finalized {
            Some(TozlowError::AlreadyFinalized)
        } else {
            None
        }
    }

    /// The settlement as it would be made at time `now`, if it is not
    /// refused.
    pub fn preview(&self, now: U256) -> (r: Result<Settlement, TozlowError>)
        ensures
            settled_as(r, self@.finalize_result(now@, true)),
    {
        match self.check_finalize(now) {
            Some(e) => Err(e),
            None => Ok(self.settle()),
        }
    }

    /// Closes the session, where the settlement is not refused and the
    /// ledger has made every payment of it, and returns the settlement.
    pub fn finalize(&mut self, now: U256, paid: bool) -> (r: Result<Settlement, TozlowError>)
        ensures
            settled_as(r, old(self)@.finalize_result(now@, paid)),
            final(self)@ == old(self)@.after_finalize(now@, paid),
            old(self)@.wf() ==> final(self)@.wf(),
    {
        if let Some(e) = self.check_finalize(now) {
            return Err(e);
        }
        if !paid {
            return Err(TozlowError::TransferFailed);
        }
        let settlement = self.settle();
        self.finalized = true;
        proof {
            if old(self)@.wf() {
                lemma_finalized_keeps_wf(old(self)@);
            }
        }
        Ok(settlement)
    }
}

} // verus!
