//! The mathematical model of one session: what is stored of it, which calls it
//! accepts, what each accepted call changes, and how the stakes are settled.

use vstd::prelude::*;
use vstd::multiset::Multiset;
use crate::address::Address;
use crate::error::TozlowError;
use crate::word::modulus;

verus! {

/// How a settled session ended.
#[derive(Clone, Copy, Debug, PartialEq, Eq, Structural)]
pub enum Outcome {
    /// Not every stake had been collected: the stakes held were given back.
    RefundedIncomplete,
    /// Every stake was held, and nobody or everybody was absent: every stake
    /// was given back.
    RefundedNoSettlement,
    /// The pooled stakes were shared among those who attended.
    Settled,
}

/// One payment of a settlement.
pub struct PayoutView {
    pub to: Address,
    pub amount: nat,
}

/// A settlement: how the session ended, the two numbers of its record, and the
/// payments in the order in which they are made.
pub struct SettlementView {
    pub outcome: Outcome,
    pub absentee_count: nat,
    pub reward_per_attendee: nat,
    pub payouts: Seq<PayoutView>,
}

/// What a store holds of one place in a session's list: the participant, the
/// two flags kept for their address, and the number of votes that accuse
/// them.
#[derive(Clone, Copy, Debug)]
pub struct Record {
    pub address: Address,
    pub deposited: bool,
    pub voted: bool,
    pub absence_votes: usize,
}

/// The addresses of a list of records, in order.
pub open spec fn record_addresses(records: Seq<Record>) -> Seq<Address> {
    records.map_values(|r: Record| r.address)
}

/// Whether a record says that the stake is held.
pub open spec fn record_deposited_fn() -> spec_fn(Record) -> bool {
    |r: Record| r.deposited
}

/// Whether a record says that the vote was cast.
pub open spec fn record_voted_fn() -> spec_fn(Record) -> bool {
    |r: Record| r.voted
}

/// The number of accusations that the records hold for `a`: that of the first
/// record of `a`, and none where there is no record of `a`.
pub open spec fn recorded_tally(records: Seq<Record>, a: Address) -> nat
    decreases records.len(),
{
    if records.len() == 0 {
        0
    } else if record_addresses(records.drop_last()).contains(a) {
        recorded_tally(records.drop_last(), a)
    } else if records.last().address == a {
        records.last().absence_votes as nat
    } else {
        0
    }
}

/// One payment of `amount` to each address of `to`, in order.
pub open spec fn pay_each(to: Seq<Address>, amount: nat) -> Seq<PayoutView> {
    to.map_values(|a: Address| PayoutView { to: a, amount })
}

/// The number of accusations that makes a voter absent: more than half of the
/// votes cast, and one where none was cast.
pub open spec fn quorum(voter_count: nat) -> nat {
    if voter_count > 0 {
        voter_count / 2 + 1
    } else {
        1
    }
}

/// What is stored of one session.
pub struct SessionView {
    pub host: Address,
    pub amount: nat,
    pub deadline: nat,
    pub voting_period: nat,
    pub finalized: bool,
    pub active: bool,
    /// The participants in the order given at creation. An address may stand
    /// in several places.
    pub participants: Seq<Address>,
    /// The addresses whose stake is held.
    pub deposited: Set<Address>,
    /// The addresses that have cast their vote.
    pub voted: Set<Address>,
    /// The accused of every vote cast.
    pub accusations: Multiset<Address>,
}

impl SessionView {
    /// The record of an id under which no session was created.
    pub open spec fn blank(finalized: bool) -> SessionView {
        SessionView {
            host: Address::spec_zero(),
            amount: 0,
            deadline: 0,
            voting_period: 0,
            finalized,
            active: false,
            participants: Seq::empty(),
            deposited: Set::empty(),
            voted: Set::empty(),
            accusations: Multiset::empty(),
        }
    }

    /// The record of a session as it is created.
    pub open spec fn created(
        host: Address,
        amount: nat,
        deadline: nat,
        voting_period: nat,
        participants: Seq<Address>,
    ) -> SessionView {
        SessionView {
            host,
            amount,
            deadline,
            voting_period,
            finalized: false,
            active: false,
            participants,
            deposited: Set::empty(),
            voted: Set::empty(),
            accusations: Multiset::empty(),
        }
    }

    /// What holds of every session that was created, at every time.
    pub open spec fn wf(self) -> bool {
        &&& 3 <= self.participants.len() <= 5
        &&& self.amount < modulus()
        &&& self.deadline < modulus()
        &&& self.voting_period < modulus()
        &&& self.active == self.all_deposited()
        &&& forall|a: Address| #[trigger] self.deposited.contains(a) ==> self.is_participant(a)
        &&& forall|a: Address| #[trigger] self.voted.contains(a) ==> self.is_participant(a)
        &&& forall|a: Address| #[trigger] self.tally(a) > 0 ==> self.is_participant(a)
        &&& !self.voted.is_empty() ==> self.active
    }

    /// The number of places in the list.
    pub open spec fn participant_count(self) -> nat {
        self.participants.len()
    }

    /// Whether `a` stands in the list.
    pub open spec fn is_participant(self, a: Address) -> bool {
        self.participants.contains(a)
    }

    /// The participant at place `i`, and the zero address past the end.
    pub open spec fn participant_at(self, i: nat) -> Address {
        if i < self.participants.len() {
            self.participants[i as int]
        } else {
            Address::spec_zero()
        }
    }

    /// Whether the stake of every participant is held.
    pub open spec fn all_deposited(self) -> bool {
        forall|i: int|
            0 <= i < self.participants.len() ==> self.deposited.contains(
                #[trigger] self.participants[i],
            )
    }

    /// The time at which the voting window closes. The sum is taken modulo
    /// 2^256, as all arithmetic on words.
    pub open spec fn vote_end(self) -> nat {
        (self.deadline + self.voting_period) % modulus()
    }

    /// The number of votes that accuse `a`.
    pub open spec fn tally(self, a: Address) -> nat {
        self.accusations.count(a)
    }

    // ---- deposits ----
    /// Why a deposit of `caller` at time `now` is refused, if it is.
    pub open spec fn deposit_refusal(self, caller: Address, now: nat) -> Option<TozlowError> {
        if now >= self.deadline {
            Some(TozlowError::DeadlineReached)
        } else if self.finalized {
            Some(TozlowError::AlreadyFinalized)
        } else if !self.is_participant(caller) {
            Some(TozlowError::NotParticipant)
        } else if self.deposited.contains(caller) {
            Some(TozlowError::AlreadyDeposited)
        } else {
            None
        }
    }

    /// The session once the stake of `caller` is held.
    pub open spec fn with_deposit(self, caller: Address) -> SessionView {
        let deposited = self.deposited.insert(caller);
        SessionView {
            deposited,
            active: self.active || (SessionView { deposited, ..self }).all_deposited(),
            ..self
        }
    }

    /// What a deposit returns, given whether the ledger moved the stake: the
    /// refusal if there is one, a failed transfer if the stake was not moved.
    pub open spec fn deposit_result(self, caller: Address, now: nat, pulled: bool) -> Result<
        (),
        TozlowError,
    > {
        match self.deposit_refusal(caller, now) {
            Some(e) => Err(e),
            None => if pulled {
                Ok(())
            } else {
                Err(TozlowError::TransferFailed)
            },
        }
    }

    /// The session after a deposit was asked for: changed only where the call
    /// succeeded.
    pub open spec fn after_deposit(self, caller: Address, now: nat, pulled: bool) -> SessionView {
        if self.deposit_result(caller, now, pulled).is_ok() {
            self.with_deposit(caller)
        } else {
            self
        }
    }

    // ---- votes ----
    /// Why a vote of `caller` against `accused` at time `now` is refused, if it
    /// is.
    pub open spec fn vote_refusal(self, caller: Address, accused: Address, now: nat) -> Option<
        TozlowError,
    > {
        if now < self.deadline {
            Some(TozlowError::VotingNotOpen)
        } else if now >= self.vote_end() {
            Some(TozlowError::VotingClosed)
        } else if self.finalized {
            Some(TozlowError::AlreadyFinalized)
        } else if !self.active {
            Some(TozlowError::SessionNotActive)
        } else if !self.is_participant(caller) {
            Some(TozlowError::NotParticipant)
        } else if !self.is_participant(accused) {
            Some(TozlowError::InvalidAbsent)
        } else if caller == accused {
            Some(TozlowError::CannotVoteSelf)
        } else if self.voted.contains(caller) {
            Some(TozlowError::AlreadyVoted)
        } else {
            None
        }
    }

    /// The session once `caller` has accused `accused`.
    pub open spec fn with_vote(self, caller: Address, accused: Address) -> SessionView {
        SessionView {
            voted: self.voted.insert(caller),
            accusations: self.accusations.insert(accused),
            ..self
        }
    }

    /// What casting a vote returns.
    pub open spec fn vote_result(self, caller: Address, accused: Address, now: nat) -> Result<
        (),
        TozlowError,
    > {
        match self.vote_refusal(caller, accused, now) {
            Some(e) => Err(e),
            None => Ok(()),
        }
    }

    /// The session after a vote was asked for: changed only where the call
    /// succeeded.
    pub open spec fn after_vote(self, caller: Address, accused: Address, now: nat) -> SessionView {
        if self.vote_refusal(caller, accused, now).is_none() {
            self.with_vote(caller, accused)
        } else {
            self
        }
    }

    // ---- settlement ----
    /// Why the settlement at time `now` is refused, if it is.
    pub open spec fn finalize_refusal(self, now: nat) -> Option<TozlowError> {
        if now < self.vote_end() {
            Some(TozlowError::VotingNotOpen)
        } else if self.finalized {
            Some(TozlowError::AlreadyFinalized)
        } else {
            None
        }
    }

    /// The session once it is settled.
    pub open spec fn with_finalized(self) -> SessionView {
        SessionView { finalized: true, ..self }
    }

    /// What the settlement returns, given whether the ledger made every
    /// payment of it: the refusal if there is one, a failed transfer if a
    /// payment was not made.
    pub open spec fn finalize_result(self, now: nat, paid: bool) -> Result<
        SettlementView,
        TozlowError,
    > {
        match self.finalize_refusal(now) {
            Some(e) => Err(e),
            None => if paid {
                Ok(self.settlement())
            } else {
                Err(TozlowError::TransferFailed)
            },
        }
    }

    /// The session after the settlement was asked for: changed only where
    /// the call succeeded.
    pub open spec fn after_finalize(self, now: nat, paid: bool) -> SessionView {
        if self.finalize_result(now, paid).is_ok() {
            self.with_finalized()
        } else {
            self
        }
    }

    /// Whether the stake of an address is held.
    pub open spec fn has_deposited_fn(self) -> spec_fn(Address) -> bool {
        |a: Address| self.deposited.contains(a)
    }

    /// Whether an address has cast their vote.
    pub open spec fn has_voted_fn(self) -> spec_fn(Address) -> bool {
        |a: Address| self.voted.contains(a)
    }

    /// The places of the list whose address has voted, counted.
    pub open spec fn voter_count(self) -> nat {
        self.participants.filter(self.has_voted_fn()).len()
    }

    /// The number of accusations from which a voter is absent.
    pub open spec fn threshold(self) -> nat {
        quorum(self.voter_count())
    }

    /// Whether `a` is taken to have been absent: who did not vote is, whatever
    /// the votes say; who voted is where enough votes accuse them.
    pub open spec fn is_absent(self, a: Address) -> bool {
        !self.voted.contains(a) || self.tally(a) >= self.threshold()
    }

    /// Whether an address is taken to have been absent.
    pub open spec fn is_absent_fn(self) -> spec_fn(Address) -> bool {
        |a: Address| self.is_absent(a)
    }

    /// Whether an address is taken to have attended.
    pub open spec fn is_attendee_fn(self) -> spec_fn(Address) -> bool {
        |a: Address| !self.is_absent(a)
    }

    /// The absent, in the order of the list.
    pub open spec fn absentees(self) -> Seq<Address> {
        self.participants.filter(self.is_absent_fn())
    }

    /// Those who attended, in the order of the list.
    pub open spec fn attendees(self) -> Seq<Address> {
        self.participants.filter(self.is_attendee_fn())
    }

    /// The stakes of all participants together, modulo 2^256.
    pub open spec fn pool(self) -> nat {
        (self.amount * self.participants.len()) % modulus()
    }

    /// The share of the pool that each attendee gets, rounded down.
    pub open spec fn reward(self) -> nat
        recommends
            self.attendees().len() > 0,
    {
        self.pool() / self.attendees().len()
    }

    /// Whether the pool is shared: every stake is held, and some but not all
    /// were absent.
    pub open spec fn shares_pool(self) -> bool {
        self.all_deposited() && self.absentees().len() > 0 && self.attendees().len() > 0
    }

    /// How the session is settled.
    pub open spec fn settlement(self) -> SettlementView {
        if !self.all_deposited() {
            SettlementView {
                outcome: Outcome::RefundedIncomplete,
                absentee_count: 0,
                reward_per_attendee: 0,
                payouts: pay_each(self.participants.filter(self.has_deposited_fn()), self.amount),
            }
        } else if !self.shares_pool() {
            SettlementView {
                outcome: Outcome::RefundedNoSettlement,
                absentee_count: self.absentees().len(),
                reward_per_attendee: 0,
                payouts: pay_each(self.participants, self.amount),
            }
        } else {
            SettlementView {
                outcome: Outcome::Settled,
                absentee_count: self.absentees().len(),
                reward_per_attendee: self.reward(),
                payouts: pay_each(self.attendees(), self.reward()),
            }
        }
    }
}

/// A session of three to five participants is well formed as it is created.
pub proof fn lemma_created_wf(
    host: Address,
    amount: nat,
    deadline: nat,
    voting_period: nat,
    participants: Seq<Address>,
)
    requires
        3 <= participants.len() <= 5,
        amount < modulus(),
        deadline < modulus(),
        voting_period < modulus(),
    ensures
        SessionView::created(host, amount, deadline, voting_period, participants).wf(),
{
    let s = SessionView::created(host, amount, deadline, voting_period, participants);
    assert(!s.deposited.contains(s.participants[0]));
}

/// A blank record refuses every deposit and every vote, and is settled with
/// no payment.
pub proof fn lemma_blank(finalized: bool)
    ensures
        forall|caller: Address, now: nat| #[trigger]
            SessionView::blank(finalized).deposit_refusal(caller, now) == Some(
                TozlowError::DeadlineReached,
            ),
        forall|caller: Address, accused: Address, now: nat| #[trigger]
            SessionView::blank(finalized).vote_refusal(caller, accused, now) == Some(
                TozlowError::VotingClosed,
            ),
        SessionView::blank(finalized).vote_end() == 0,
        SessionView::blank(finalized).settlement() == (SettlementView {
            outcome: Outcome::RefundedNoSettlement,
            absentee_count: 0,
            reward_per_attendee: 0,
            payouts: Seq::empty(),
        }),
{
    let s = SessionView::blank(finalized);
    vstd::arithmetic::div_mod::lemma_small_mod(0, modulus());
    reveal(Seq::filter);
    assert(s.absentees().len() == 0);
    assert(s.all_deposited());
    assert(pay_each(s.participants, s.amount) =~= Seq::<PayoutView>::empty());
}

/// Whether every stake is held depends on the list and on the stakes held
/// alone.
pub proof fn lemma_all_deposited_same(s: SessionView, t: SessionView)
    requires
        s.participants == t.participants,
        s.deposited == t.deposited,
    ensures
        s.all_deposited() == t.all_deposited(),
{
    if s.all_deposited() {
        assert forall|i: int| 0 <= i < t.participants.len() implies t.deposited.contains(
            #[trigger] t.participants[i],
        ) by {
            assert(s.deposited.contains(s.participants[i]));
        }
    }
    if t.all_deposited() {
        assert forall|i: int| 0 <= i < s.participants.len() implies s.deposited.contains(
            #[trigger] s.participants[i],
        ) by {
            assert(t.deposited.contains(t.participants[i]));
        }
    }
}

/// A deposit of a participant keeps a session well formed.
pub proof fn lemma_deposit_keeps_wf(s: SessionView, caller: Address)
    requires
        s.wf(),
        s.is_participant(caller),
    ensures
        s.with_deposit(caller).wf(),
{
    let t = s.with_deposit(caller);
    let u = SessionView { deposited: s.deposited.insert(caller), ..s };
    lemma_all_deposited_same(t, u);
    if s.active {
        assert forall|i: int| 0 <= i < t.participants.len() implies t.deposited.contains(
            #[trigger] t.participants[i],
        ) by {
            assert(s.deposited.contains(s.participants[i]));
        }
    }
    assert forall|a: Address| #[trigger] t.deposited.contains(a) implies t.is_participant(a) by {
        if a != caller {
            assert(s.deposited.contains(a));
        }
    }
    assert forall|a: Address| #[trigger] t.voted.contains(a) implies t.is_participant(a) by {
        assert(s.voted.contains(a));
    }
    assert forall|a: Address| #[trigger] t.tally(a) > 0 implies t.is_participant(a) by {
        assert(s.tally(a) > 0);
    }
}

/// A vote of a participant against a participant keeps an active session
/// well formed.
pub proof fn lemma_vote_keeps_wf(s: SessionView, caller: Address, accused: Address)
    requires
        s.wf(),
        s.active,
        s.is_participant(caller),
        s.is_participant(accused),
    ensures
        s.with_vote(caller, accused).wf(),
{
    let t = s.with_vote(caller, accused);
    lemma_all_deposited_same(t, s);
    assert forall|a: Address| #[trigger] t.deposited.contains(a) implies t.is_participant(a) by {
        assert(s.deposited.contains(a));
    }
    assert forall|a: Address| #[trigger] t.voted.contains(a) implies t.is_participant(a) by {
        if a != caller {
            assert(s.voted.contains(a));
        }
    }
    assert forall|a: Address| #[trigger] t.tally(a) > 0 implies t.is_participant(a) by {
        if a != accused {
            assert(s.tally(a) > 0);
        }
    }
}

/// Closing a session keeps it well formed.
pub proof fn lemma_finalized_keeps_wf(s: SessionView)
    requires
        s.wf(),
    ensures
        s.with_finalized().wf(),
{
    let t = s.with_finalized();
    lemma_all_deposited_same(t, s);
    assert forall|a: Address| #[trigger] t.deposited.contains(a) implies t.is_participant(a) by {
        assert(s.deposited.contains(a));
    }
    assert forall|a: Address| #[trigger] t.voted.contains(a) implies t.is_participant(a) by {
        assert(s.voted.contains(a));
    }
    assert forall|a: Address| #[trigger] t.tally(a) > 0 implies t.is_participant(a) by {
        assert(s.tally(a) > 0);
    }
}

/// The records hold no accusation for an address of which they hold no
/// record.
pub proof fn lemma_recorded_tally_absent(records: Seq<Record>, a: Address)
    requires
        !record_addresses(records).contains(a),
    ensures
        recorded_tally(records, a) == 0,
    decreases records.len(),
{
    if records.len() > 0 {
        let rest = records.drop_last();
        if record_addresses(rest).contains(a) {
            let j = choose|j: int|
                0 <= j < record_addresses(rest).len() && record_addresses(rest)[j] == a;
            assert(record_addresses(records)[j] == a);
        }
        assert(record_addresses(records)[records.len() - 1] == records.last().address);
    }
}

/// The addresses of one record more are one address more.
pub proof fn lemma_record_addresses_push(records: Seq<Record>, r: Record)
    ensures
        record_addresses(records.push(r)) == record_addresses(records).push(r.address),
{
    assert(record_addresses(records.push(r)) =~= record_addresses(records).push(r.address));
}

/// The set of a sequence with one element more has that element more.
pub proof fn lemma_to_set_push<A>(s: Seq<A>, a: A)
    ensures
        s.push(a).to_set() == s.to_set().insert(a),
{
    let l = s.push(a);
    assert forall|x: A| l.to_set().contains(x) <==> s.to_set().insert(a).contains(x) by {
        if l.contains(x) {
            let i = choose|i: int| 0 <= i < l.len() && l[i] == x;
            if i < s.len() {
                assert(s[i] == x);
            }
        }
        if s.contains(x) {
            let i = choose|i: int| 0 <= i < s.len() && s[i] == x;
            assert(l[i] == x);
        }
        if x == a {
            assert(l[s.len() as int] == a);
        }
    }
    assert(l.to_set() =~= s.to_set().insert(a));
}

/// Filtering one element more: the element is appended where it passes.
pub proof fn lemma_filter_step<A>(s: Seq<A>, pred: spec_fn(A) -> bool, i: int)
    requires
        0 <= i < s.len(),
    ensures
        s.take(i + 1).filter(pred) == if pred(s[i]) {
            s.take(i).filter(pred).push(s[i])
        } else {
            s.take(i).filter(pred)
        },
{
    reveal(Seq::filter);
    assert(s.take(i + 1).drop_last() =~= s.take(i));
}

/// Paying one address more appends one payment.
pub proof fn lemma_pay_each_push(to: Seq<Address>, a: Address, amount: nat)
    ensures
        pay_each(to.push(a), amount) == pay_each(to, amount).push(PayoutView { to: a, amount }),
{
    assert(pay_each(to.push(a), amount) =~= pay_each(to, amount).push(
        PayoutView { to: a, amount },
    ));
}

} // verus!
