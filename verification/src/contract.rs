//! The whole store: the sessions under their ids, and the calls that create,
//! fund, vote on and settle them.
//!
//! The clock and the ledger are not part of it. Every call takes the caller
//! and the current time as arguments; a call that moves value also takes what
//! the ledger answered, and the function beside it says what the ledger is to
//! be asked for.

use vstd::prelude::*;
use crate::address::Address;
use crate::error::TozlowError;
use crate::model::{lemma_blank, Outcome, SessionView};
use crate::session::Session;
use crate::settlement::{payout_views, settled_as, Settlement};
use crate::word::{lemma_value_injective, U256};

verus! {

/// What the store holds.
pub struct ContractView {
    pub initialized: bool,
    pub usdc_token: Address,
    pub owner: Address,
    /// The sessions created, each at its id.
    pub sessions: Seq<SessionView>,
    /// The ids under which no session was created yet, and which were settled
    /// all the same.
    pub finalized_early: Set<nat>,
}

impl ContractView {
    /// The store before its first call.
    pub open spec fn empty() -> ContractView {
        ContractView {
            initialized: false,
            usdc_token: Address::spec_zero(),
            owner: Address::spec_zero(),
            sessions: Seq::empty(),
            finalized_early: Set::empty(),
        }
    }

    /// What holds of the store at every time.
    pub open spec fn wf(self) -> bool {
        &&& forall|i: int| 0 <= i < self.sessions.len() ==> (#[trigger] self.sessions[i]).wf()
        &&& forall|id: nat| #[trigger]
            self.finalized_early.contains(id) ==> id >= self.sessions.len()
    }

    /// The number of sessions created, which is the id of the next.
    pub open spec fn session_count(self) -> nat {
        self.sessions.len()
    }

    /// The record under `id`: the session created under it, or a blank one.
    pub open spec fn session(self, id: nat) -> SessionView {
        if id < self.sessions.len() {
            self.sessions[id as int]
        } else {
            SessionView::blank(self.finalized_early.contains(id))
        }
    }

    /// The store with `s` as the record under `id`. Of a record under which
    /// no session was created, only the closing is kept.
    pub open spec fn put(self, id: nat, s: SessionView) -> ContractView {
        if id < self.sessions.len() {
            ContractView { sessions: self.sessions.update(id as int, s), ..self }
        } else if s.finalized {
            ContractView { finalized_early: self.finalized_early.insert(id), ..self }
        } else {
            self
        }
    }

    /// The store with `s` created under the next id.
    pub open spec fn with_created(self, s: SessionView) -> ContractView {
        ContractView {
            sessions: self.sessions.push(s),
            finalized_early: self.finalized_early.remove(self.sessions.len()),
            ..self
        }
    }
}

/// The store.
pub struct TozlowSession {
    initialized: bool,
    usdc_token: Address,
    owner: Address,
    sessions: Vec<Session>,
    finalized_early: Vec<U256>,
}

/// The records of a list of sessions.
pub closed spec fn session_views(list: Seq<Session>) -> Seq<SessionView> {
    list.map_values(|s: Session| s@)
}

/// Whether `list` holds a word of value `id`.
pub closed spec fn holds_id(list: Seq<U256>, id: nat) -> bool {
    exists|j: int| 0 <= j < list.len() && (#[trigger] list[j])@ == id
}

impl View for TozlowSession {
    type V = ContractView;

    closed spec fn view(&self) -> ContractView {
        ContractView {
            initialized: self.initialized,
            usdc_token: self.usdc_token,
            owner: self.owner,
            sessions: session_views(self.sessions@),
            finalized_early: Set::new(
                |id: nat| id >= self.sessions@.len() && holds_id(self.finalized_early@, id),
            ),
        }
    }
}

impl TozlowSession {
    /// The store before its first call.
    pub fn new() -> (r: TozlowSession)
        ensures
            r@ == ContractView::empty(),
            r@.wf(),
    {
        let r = TozlowSession {
            initialized: false,
            usdc_token: Address::zero(),
            owner: Address::zero(),
            sessions: Vec::new(),
            finalized_early: Vec::new(),
        };
        proof {
            assert(r@.sessions =~= Seq::<SessionView>::empty());
            assert(r@.finalized_early =~= Set::<nat>::empty());
        }
        r
    }

    /// The place of the session created under `id`, if one was.
    fn slot(&self, id: U256) -> (r: Option<usize>)
        ensures
            r is Some <==> id@ < self@.sessions.len(),
            r is Some ==> r->Some_0 == id@ && self.sessions@[id@ as int]@ == self@.session(id@),
            r is None ==> self@.session(id@) == SessionView::blank(
                self@.finalized_early.contains(id@),
            ),
    {
        id.index_below(self.sessions.len())
    }

    /// Whether `id` was settled before a session was created under it.
    fn closed_early(&self, id: U256) -> (r: bool)
        requires
            id@ >= self@.sessions.len(),
        ensures
            r == self@.finalized_early.contains(id@),
    {
        let mut j: usize = 0;
        while j < self.finalized_early.len()
            invariant
                j <= self.finalized_early.len(),
                id@ >= self.sessions@.len(),
                forall|k: int| 0 <= k < j ==> (#[trigger] self.finalized_early@[k])@ != id@,
            decreases self.finalized_early.len() - j,
        {
            if self.finalized_early[j] == id {
                assert(self.finalized_early@[j as int]@ == id@);
                return true;
            }
            proof {
                if self.finalized_early@[j as int]@ == id@ {
                    lemma_value_injective(self.finalized_early@[j as int], id);
                }
            }
            j += 1;
        }
        false
    }

    /// Sets the asset and the owner, once.
    pub fn initialize(&mut self, caller: Address, usdc: Address) -> (r: Result<(), TozlowError>)
        ensures
            old(self)@.initialized ==> r == Err::<(), TozlowError>(TozlowError::AlreadyInitialized)
                && final(self)@ == old(self)@,
            !old(self)@.initialized ==> r == Ok::<(), TozlowError>(()) && final(self)@ == (ContractView {
                initialized: true,
                usdc_token: usdc,
                owner: caller,
                ..old(self)@
            }),
            old(self)@.wf() ==> final(self)@.wf(),
    {
        if self.initialized {
            return Err(TozlowError::AlreadyInitialized);
        }
        self.owner = caller;
        self.usdc_token = usdc;
        self.initialized = true;
        Ok(())
    }
    /// Creates a session of three to five participants under the next id,
    /// with `caller` as its host, and returns the id.
    pub fn create_session(
        &mut self,
        caller: Address,
        amount: U256,
        deadline: U256,
        voting_period: U256,
        participants: Vec<Address>,
    ) -> (r: Result<U256, TozlowError>)
        ensures
            participants@.len() < 3 ==> r is Err && r->Err_0 == TozlowError::NotEnoughParticipants,
            participants@.len() > 5 ==> r is Err && r->Err_0 == TozlowError::TooManyParticipants,
            3 <= participants@.len() <= 5 ==> r is Ok && r->Ok_0@ == old(self)@.session_count(),
            r is Err ==> final(self)@ == old(self)@,
            r is Ok ==> final(self)@ == old(self)@.with_created(
                SessionView::created(
                    caller,
                    amount@,
                    deadline@,
                    voting_period@,
                    participants@,
                ),
            ),
            old(self)@.wf() ==> final(self)@.wf(),
    {
        let ghost created = SessionView::created(
            caller,
            amount@,
            deadline@,
            voting_period@,
            participants@,
        );
        let session = match Session::create(caller, amount, deadline, voting_period, participants) {
            Ok(session) => session,
            Err(e) => {
                return Err(e);
            },
        };
        let id = U256::from_usize(self.sessions.len());
        self.sessions.push(session);
        proof {
            assert(final(self)@.sessions =~= old(self)@.sessions.push(created));
            assert(final(self)@.finalized_early =~= old(self)@.finalized_early.remove(
                old(self)@.sessions.len(),
            ));
        }
        Ok(id)
    }

    /// The stake that the ledger is to pull from `caller`, where a deposit at
    /// time `now` is not refused.
    pub fn check_deposit(&self, session_id: U256, caller: Address, now: U256) -> (r: Result<
        U256,
        TozlowError,
    >)
        ensures
            match self@.session(session_id@).deposit_refusal(caller, now@) {
                Some(e) => r is Err && r->Err_0 == e,
                None => r is Ok && r->Ok_0@ == self@.session(session_id@).amount,
            },
    {
        match self.slot(session_id) {
            None => {
                proof {
                    lemma_blank(self@.finalized_early.contains(session_id@));
                }
                Err(TozlowError::DeadlineReached)
            },
            Some(i) => {
                match self.sessions[i].check_deposit(caller, now) {
                    Some(e) => Err(e),
                    None => Ok(self.sessions[i].amount()),
                }
            },
        }
    }

    /// Records the stake of `caller` in the session, where the deposit is not
    /// refused and the ledger has pulled the stake (`pulled`). The first full
    /// set of stakes makes the session active.
    pub fn deposit(&mut self, session_id: U256, caller: Address, now: U256, pulled: bool) -> (r:
        Result<(), TozlowError>)
        ensures
            r == old(self)@.session(session_id@).deposit_result(caller, now@, pulled),
            final(self)@ == old(self)@.put(
                session_id@,
                old(self)@.session(session_id@).after_deposit(caller, now@, pulled),
            ),
            old(self)@.wf() ==> final(self)@.wf(),
    {
        match self.slot(session_id) {
            None => {
                proof {
                    lemma_blank(self@.finalized_early.contains(session_id@));
                    assert(self@.finalized_early.insert(session_id@) =~= self@.finalized_early
                        || !self@.finalized_early.contains(session_id@));
                }
                Err(TozlowError::DeadlineReached)
            },
            Some(i) => {
                let r = self.sessions[i].deposit(caller, now, pulled);
                proof {
                    self.lemma_replaced(*old(self), i as int);
                }
                r
            },
        }
    }

    /// Records the vote of `caller` against `accused`, where it is not
    /// refused.
    pub fn cast_vote(&mut self, session_id: U256, caller: Address, accused: Address, now: U256) -> (r:
        Result<(), TozlowError>)
        ensures
            r == old(self)@.session(session_id@).vote_result(caller, accused, now@),
            final(self)@ == old(self)@.put(
                session_id@,
                old(self)@.session(session_id@).after_vote(caller, accused, now@),
            ),
            old(self)@.wf() ==> final(self)@.wf(),
    {
        match self.slot(session_id) {
            None => {
                proof {
                    lemma_blank(self@.finalized_early.contains(session_id@));
                    assert(self@.finalized_early.insert(session_id@) =~= self@.finalized_early
                        || !self@.finalized_early.contains(session_id@));
                }
                Err(TozlowError::VotingClosed)
            },
            Some(i) => {
                let r = self.sessions[i].cast_vote(caller, accused, now);
                proof {
                    self.lemma_replaced(*old(self), i as int);
                }
                r
            },
        }
    }

    /// A settlement without payments, as a blank record has it.
    fn blank_settlement() -> (r: Settlement)
        ensures
            r@ == SessionView::blank(false).settlement(),
    {
        let r = Settlement {
            outcome: Outcome::RefundedNoSettlement,
            absentee_count: U256::zero(),
            reward_per_attendee: U256::zero(),
            payouts: Vec::new(),
        };
        proof {
            lemma_blank(false);
            assert(payout_views(r.payouts@) =~= Seq::empty());
        }
        r
    }

    /// The settlement of the session as it would be made at time `now`, with
    /// the payments that the ledger is to make, where it is not refused.
    pub fn settlement(&self, session_id: U256, now: U256) -> (r: Result<Settlement, TozlowError>)
        ensures
            settled_as(r, self@.session(session_id@).finalize_result(now@, true)),
    {
        match self.slot(session_id) {
            None => {
                proof {
                    lemma_blank(self@.finalized_early.contains(session_id@));
                    lemma_blank(false);
                }
                if self.closed_early(session_id) {
                    Err(TozlowError::AlreadyFinalized)
                } else {
                    Ok(Self::blank_settlement())
                }
            },
            Some(i) => self.sessions[i].preview(now),
        }
    }

    /// Closes the session, where the settlement is not refused and the
    /// ledger has made every payment of it (`paid`), and returns the
    /// settlement.
    pub fn finalize_session(&mut self, session_id: U256, now: U256, paid: bool) -> (r: Result<
        Settlement,
        TozlowError,
    >)
        ensures
            settled_as(r, old(self)@.session(session_id@).finalize_result(now@, paid)),
            final(self)@ == old(self)@.put(
                session_id@,
                old(self)@.session(session_id@).after_finalize(now@, paid),
            ),
            old(self)@.wf() ==> final(self)@.wf(),
    {
        match self.slot(session_id) {
            None => {
                proof {
                    lemma_blank(self@.finalized_early.contains(session_id@));
                    lemma_blank(false);
                }
                if self.closed_early(session_id) {
                    proof {
                        assert(self@.finalized_early.insert(session_id@)
                            =~= self@.finalized_early);
                    }
                    return Err(TozlowError::AlreadyFinalized);
                }
                if !paid {
                    return Err(TozlowError::TransferFailed);
                }
                self.finalized_early.push(session_id);
                proof {
                    let before = old(self).finalized_early@;
                    let after = self.finalized_early@;
                    assert(after[before.len() as int]@ == session_id@);
                    assert forall|id: nat| holds_id(after, id) <==> (holds_id(before, id) || id
                        == session_id@) by {
                        if holds_id(after, id) {
                            let j = choose|j: int| 0 <= j < after.len() && (#[trigger] after[j])@
                                == id;
                            if j < before.len() {
                                assert(before[j]@ == id);
                            }
                        }
                        if holds_id(before, id) {
                            let j = choose|j: int| 0 <= j < before.len() && (#[trigger] before[j])@
                                == id;
                            assert(after[j]@ == id);
                        }
                    }
                    assert(final(self)@.finalized_early =~= old(self)@.finalized_early.insert(
                        session_id@,
                    ));
                }
                Ok(Self::blank_settlement())
            },
            Some(i) => {
                let r = self.sessions[i].finalize(now, paid);
                proof {
                    self.lemma_replaced(*old(self), i as int);
                }
                r
            },
        }
    }

    /// The record under the id: host, stake, deadline, voting period, the
    /// two flags and the number of participants.
    pub fn get_session(&self, session_id: U256) -> (r: (Address, U256, U256, U256, bool, bool, U256))
        ensures
            r.0 == self@.session(session_id@).host,
            r.1@ == self@.session(session_id@).amount,
            r.2@ == self@.session(session_id@).deadline,
            r.3@ == self@.session(session_id@).voting_period,
            r.4 == self@.session(session_id@).finalized,
            r.5 == self@.session(session_id@).active,
            r.6@ == self@.session(session_id@).participant_count(),
    {
        match self.slot(session_id) {
            None => (
                Address::zero(),
                U256::zero(),
                U256::zero(),
                U256::zero(),
                self.closed_early(session_id),
                false,
                U256::zero(),
            ),
            Some(i) => self.sessions[i].terms(),
        }
    }

    /// The participant at place `index` of the session, and the zero address
    /// where there is none.
    pub fn get_participant_at(&self, session_id: U256, index: U256) -> (r: Address)
        ensures
            r == self@.session(session_id@).participant_at(index@),
    {
        match self.slot(session_id) {
            None => Address::zero(),
            Some(i) => self.sessions[i].participant_at(index),
        }
    }

    /// Whether the stake of `addr` is held in the session.
    pub fn has_deposited(&self, session_id: U256, addr: Address) -> (r: bool)
        ensures
            r == self@.session(session_id@).deposited.contains(addr),
    {
        match self.slot(session_id) {
            None => false,
            Some(i) => self.sessions[i].has_deposited(addr),
        }
    }

    /// Whether `addr` has cast their vote in the session.
    pub fn has_voted(&self, session_id: U256, addr: Address) -> (r: bool)
        ensures
            r == self@.session(session_id@).voted.contains(addr),
    {
        match self.slot(session_id) {
            None => false,
            Some(i) => self.sessions[i].has_voted(addr),
        }
    }

    /// The number of votes of the session that accuse `addr`.
    pub fn absence_vote_count(&self, session_id: U256, addr: Address) -> (r: U256)
        ensures
            r@ == self@.session(session_id@).tally(addr),
    {
        match self.slot(session_id) {
            None => U256::zero(),
            Some(i) => U256::from_usize(self.sessions[i].absence_votes(addr)),
        }
    }

    /// The time at which the voting window of the session closes.
    pub fn voting_deadline(&self, session_id: U256) -> (r: U256)
        ensures
            r@ == self@.session(session_id@).vote_end(),
    {
        match self.slot(session_id) {
            None => {
                proof {
                    lemma_blank(self@.finalized_early.contains(session_id@));
                }
                U256::zero()
            },
            Some(i) => self.sessions[i].voting_end(),
        }
    }

    /// The asset in which stakes are held.
    pub fn usdc_address(&self) -> (r: Address)
        ensures
            r == self@.usdc_token,
    {
        self.usdc_token
    }

    /// The number of sessions created, which is the id of the next.
    pub fn session_count(&self) -> (r: U256)
        ensures
            r@ == self@.session_count(),
    {
        U256::from_usize(self.sessions.len())
    }

    /// After a call on the session at place `i` alone, the store holds the
    /// new record there and is otherwise as before.
    proof fn lemma_replaced(&self, before: TozlowSession, i: int)
        requires
            0 <= i < before.sessions@.len(),
            self.sessions@ == before.sessions@.update(i, self.sessions@[i]),
            self.initialized == before.initialized,
            self.usdc_token == before.usdc_token,
            self.owner == before.owner,
            self.finalized_early == before.finalized_early,
        ensures
            self@ == before@.put(i as nat, self.sessions@[i]@),
            before@.wf() && self.sessions@[i]@.wf() ==> self@.wf(),
    {
        assert(self@.sessions =~= before@.sessions.update(i, self.sessions@[i]@));
        assert(self@.finalized_early =~= before@.finalized_early);
    }
}

} // verus!
