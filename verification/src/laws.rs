//! What follows from the model for every session and every call: the bounds
//! on a session's size, the order of the ids, at most one deposit and one
//! vote for each participant, when a session turns active, when it can be
//! settled, and who is paid what.

use vstd::prelude::*;
use crate::address::Address;
use crate::contract::ContractView;
use crate::error::TozlowError;
use crate::model::{pay_each, quorum, Outcome, PayoutView, SessionView, SettlementView};
use crate::word::modulus;

verus! {

/// Every session that was created has three to five participants, and its
/// count is the length of its list.
pub proof fn law_session_size(c: ContractView, id: nat)
    requires
        c.wf(),
        id < c.session_count(),
    ensures
        3 <= c.session(id).participant_count() <= 5,
        c.session(id).participant_count() == c.session(id).participants.len(),
{
}

/// Ids are given out densely: the first session is created under 0, each
/// creation takes the id that is the number of sessions before it, makes
/// that number one more, and leaves the sessions under all other ids as they
/// were.
pub proof fn law_ids_dense(c: ContractView, s: SessionView)
    ensures
        ContractView::empty().session_count() == 0,
        c.with_created(s).session_count() == c.session_count() + 1,
        c.with_created(s).session(c.session_count()) == s,
        forall|id: nat|
            id < c.session_count() ==> #[trigger] c.with_created(s).session(id) == c.session(id),
{
}

/// A call on one session leaves every other session, and the number of
/// sessions, as they were; the session that it is made on, where one was
/// created under its id, becomes what the call makes of it.
pub proof fn law_calls_touch_one_session(c: ContractView, id: nat, s: SessionView, other: nat)
    requires
        other != id,
    ensures
        c.put(id, s).session(other) == c.session(other),
        c.put(id, s).session_count() == c.session_count(),
        id < c.session_count() ==> c.put(id, s).session(id) == s,
        id >= c.session_count() ==> c.put(id, s).session(id) == SessionView::blank(
            s.finalized || c.session(id).finalized,
        ),
{
}

/// A deposit is taken at most once: after a deposit of `caller` has
/// succeeded, every further one of theirs is refused, as already made
/// whenever the deadline has not come and the session is open.
pub proof fn law_deposit_once(s: SessionView, caller: Address, now: nat, later: nat, pulled: bool)
    requires
        s.deposit_result(caller, now, true) is Ok,
    ensures
        s.after_deposit(caller, now, true).deposit_result(caller, later, pulled) is Err,
        later < s.deadline ==> s.after_deposit(caller, now, true).deposit_result(
            caller,
            later,
            pulled,
        ) == Err::<(), TozlowError>(TozlowError::AlreadyDeposited),
{
    let t = s.after_deposit(caller, now, true);
    assert(t.deposited.contains(caller));
}

/// A deposit that is refused or whose transfer failed changes nothing, and one
/// that succeeds adds the caller to those whose stake is held and changes
/// nothing else but the active flag.
pub proof fn law_deposit_effect(s: SessionView, caller: Address, now: nat, pulled: bool)
    ensures
        s.deposit_result(caller, now, pulled) is Err ==> s.after_deposit(caller, now, pulled) == s,
        s.deposit_result(caller, now, pulled) is Ok ==> {
            let t = s.after_deposit(caller, now, pulled);
            &&& now < s.deadline
            &&& !s.finalized
            &&& s.is_participant(caller)
            &&& !s.deposited.contains(caller)
            &&& pulled
            &&& t.deposited == s.deposited.insert(caller)
            &&& t == SessionView { deposited: t.deposited, active: t.active, ..s }
        },
        !s.is_participant(caller) && now < s.deadline && !s.finalized ==> s.deposit_result(
            caller,
            now,
            pulled,
        ) == Err::<(), TozlowError>(TozlowError::NotParticipant),
        now >= s.deadline ==> s.deposit_result(caller, now, pulled) == Err::<(), TozlowError>(
            TozlowError::DeadlineReached,
        ),
{
}

/// A session is active exactly when the stake of every participant is held.
/// So it turns active on the deposit that completes the stakes and on no
/// other call.
pub proof fn law_active_on_last_deposit(s: SessionView, caller: Address, now: nat)
    requires
        s.wf(),
        s.deposit_result(caller, now, true) is Ok,
    ensures
        s.active == s.all_deposited(),
        !s.active,
        s.after_deposit(caller, now, true).active == s.after_deposit(
            caller,
            now,
            true,
        ).all_deposited(),
        s.after_deposit(caller, now, true).active <==> (forall|i: int|
            0 <= i < s.participants.len() ==> #[trigger] s.participants[i] == caller
                || s.deposited.contains(s.participants[i])),
{
    let t = s.after_deposit(caller, now, true);
    crate::model::lemma_deposit_keeps_wf(s, caller);
    assert(t.wf());
    if s.active {
        let i = choose|i: int| 0 <= i < s.participants.len() && s.participants[i] == caller;
        assert(s.deposited.contains(s.participants[i]));
    }
    if t.active {
        assert forall|i: int| 0 <= i < s.participants.len() implies #[trigger] s.participants[i]
            == caller || s.deposited.contains(s.participants[i]) by {
            assert(t.deposited.contains(t.participants[i]));
        }
    }
    if forall|i: int|
        0 <= i < s.participants.len() ==> #[trigger] s.participants[i] == caller
            || s.deposited.contains(s.participants[i]) {
        assert forall|i: int| 0 <= i < t.participants.len() implies t.deposited.contains(
            #[trigger] t.participants[i],
        ) by {
            assert(s.participants[i] == caller || s.deposited.contains(s.participants[i]));
        }
    }
}

/// Once active, a session stays active: no deposit, vote or settlement
/// clears the flag.
pub proof fn law_active_stays(
    s: SessionView,
    caller: Address,
    accused: Address,
    now: nat,
    answer: bool,
)
    requires
        s.active,
    ensures
        s.after_deposit(caller, now, answer).active,
        s.after_vote(caller, accused, now).active,
        s.after_finalize(now, answer).active,
{
}

/// A vote is accepted only within the voting window, from the deadline to
/// the deadline plus the voting period, in an active session that is not
/// settled, from a participant who has not voted, against another
/// participant.
pub proof fn law_vote_accepted_only(s: SessionView, caller: Address, accused: Address, now: nat)
    requires
        s.wf(),
        s.vote_result(caller, accused, now) is Ok,
    ensures
        s.deadline <= now < s.deadline + s.voting_period,
        s.active,
        !s.finalized,
        s.is_participant(caller),
        s.is_participant(accused),
        caller != accused,
        !s.voted.contains(caller),
{
    let sum = s.deadline + s.voting_period;
    if sum < modulus() {
        vstd::arithmetic::div_mod::lemma_small_mod(sum, modulus());
    } else {
        vstd::arithmetic::div_mod::lemma_small_mod((sum - modulus()) as nat, modulus());
        vstd::arithmetic::div_mod::lemma_mod_add_multiples_vanish(
            (sum - modulus()) as int,
            modulus() as int,
        );
        assert(s.vote_end() == sum - modulus());
    }
}

/// A vote counts once: it marks the caller as having voted and adds one to
/// the tally of the accused and to no other, and every further vote of the
/// caller is refused.
pub proof fn law_vote_once(
    s: SessionView,
    caller: Address,
    accused: Address,
    now: nat,
    other: Address,
    later: nat,
)
    requires
        s.vote_result(caller, accused, now) is Ok,
    ensures
        s.after_vote(caller, accused, now).voted == s.voted.insert(caller),
        s.after_vote(caller, accused, now).tally(accused) == s.tally(accused) + 1,
        forall|a: Address|
            a != accused ==> #[trigger] s.after_vote(caller, accused, now).tally(a) == s.tally(a),
        s.after_vote(caller, accused, now).vote_result(caller, other, later) is Err,
{
    let t = s.after_vote(caller, accused, now);
    assert(t.voted.contains(caller));
}

/// A vote that is refused changes nothing: neither a tally nor who has
/// voted.
pub proof fn law_refused_vote_changes_nothing(
    s: SessionView,
    caller: Address,
    accused: Address,
    now: nat,
)
    requires
        s.vote_result(caller, accused, now) is Err,
    ensures
        s.after_vote(caller, accused, now) == s,
        caller == accused && s.deadline <= now < s.vote_end() && !s.finalized && s.active
            && s.is_participant(caller) ==> s.vote_result(caller, accused, now) == Err::<
            (),
            TozlowError,
        >(TozlowError::CannotVoteSelf),
{
}

/// The settlement is refused before the voting window has closed, and once
/// made it is refused ever after; a settled session takes no deposit and no
/// vote either.
pub proof fn law_finalize_once(
    s: SessionView,
    now: nat,
    later: nat,
    caller: Address,
    accused: Address,
    answer: bool,
)
    ensures
        now < s.vote_end() ==> s.finalize_result(now, answer) == Err::<SettlementView, TozlowError>(
            TozlowError::VotingNotOpen,
        ),
        s.finalize_result(now, true) is Ok ==> {
            let t = s.after_finalize(now, true);
            &&& t.finalized
            &&& t == SessionView { finalized: true, ..s }
            &&& later >= s.vote_end() ==> t.finalize_result(later, answer) == Err::<
                SettlementView,
                TozlowError,
            >(TozlowError::AlreadyFinalized)
            &&& t.finalize_result(later, answer) is Err
            &&& t.deposit_result(caller, later, answer) is Err
            &&& t.vote_result(caller, accused, later) is Err
        },
        s.finalize_result(now, answer) is Err ==> s.after_finalize(now, answer) == s,
{
}

/// Where not every stake is held, the settlement gives back the stake, no
/// more and no less, once for each place in the list whose address has
/// deposited, and nothing to any other address.
pub proof fn law_incomplete_refund(s: SessionView)
    requires
        !s.all_deposited(),
    ensures
        s.settlement().outcome == Outcome::RefundedIncomplete,
        s.settlement().payouts == pay_each(
            s.participants.filter(s.has_deposited_fn()),
            s.amount,
        ),
        forall|k: int|
            0 <= k < s.settlement().payouts.len() ==> {
                let p = #[trigger] s.settlement().payouts[k];
                p.amount == s.amount && s.deposited.contains(p.to) && s.is_participant(p.to)
            },
        forall|i: int|
            0 <= i < s.participants.len() && s.deposited.contains(s.participants[i])
                ==> s.settlement().payouts.contains(
                PayoutView { to: #[trigger] s.participants[i], amount: s.amount },
            ),
{
    let paid = s.participants.filter(s.has_deposited_fn());
    let payouts = s.settlement().payouts;
    assert(payouts.len() == paid.len());
    assert forall|k: int| 0 <= k < payouts.len() implies {
        let p = #[trigger] payouts[k];
        p.amount == s.amount && s.deposited.contains(p.to) && s.is_participant(p.to)
    } by {
        s.participants.lemma_filter_pred(s.has_deposited_fn(), k);
        assert(paid.contains(paid[k]));
        s.participants.lemma_filter_contains_rev(s.has_deposited_fn(), paid[k]);
    }
    assert forall|i: int|
        0 <= i < s.participants.len() && s.deposited.contains(
            s.participants[i],
        ) implies payouts.contains(
        PayoutView { to: #[trigger] s.participants[i], amount: s.amount },
    ) by {
        s.participants.lemma_filter_contains(s.has_deposited_fn(), i);
        let k = choose|k: int| 0 <= k < paid.len() && paid[k] == s.participants[i];
        assert(payouts[k] == PayoutView { to: s.participants[i], amount: s.amount });
    }
}

/// Who did not vote is absent, whatever the votes say. Who voted is absent
/// exactly when the votes that accuse them are more than half of the votes
/// cast.
pub proof fn law_absence(s: SessionView, a: Address)
    requires
        s.is_participant(a),
    ensures
        !s.voted.contains(a) ==> s.is_absent(a),
        s.voted.contains(a) ==> s.voter_count() >= 1 && (s.is_absent(a) <==> s.tally(a)
            >= s.voter_count() / 2 + 1),
        s.threshold() == quorum(s.voter_count()),
        s.absentees().contains(a) <==> s.is_absent(a),
        s.attendees().contains(a) <==> !s.is_absent(a),
{
    let i = choose|i: int| 0 <= i < s.participants.len() && s.participants[i] == a;
    if s.voted.contains(a) {
        s.participants.lemma_filter_contains(s.has_voted_fn(), i);
        let voters = s.participants.filter(s.has_voted_fn());
        assert(voters.len() >= 1);
    }
    if s.is_absent(a) {
        s.participants.lemma_filter_contains(s.is_absent_fn(), i);
    } else {
        s.participants.lemma_filter_contains(s.is_attendee_fn(), i);
    }
    if s.absentees().contains(a) {
        let k = choose|k: int| 0 <= k < s.absentees().len() && s.absentees()[k] == a;
        s.participants.lemma_filter_pred(s.is_absent_fn(), k);
    }
    if s.attendees().contains(a) {
        let k = choose|k: int| 0 <= k < s.attendees().len() && s.attendees()[k] == a;
        s.participants.lemma_filter_pred(s.is_attendee_fn(), k);
    }
}

/// Where every stake is held and nobody or everybody was absent, every
/// participant gets their stake back, no more and no less, place by place.
pub proof fn law_refund_all(s: SessionView)
    requires
        s.all_deposited(),
        s.absentees().len() == 0 || s.attendees().len() == 0,
    ensures
        s.settlement().outcome == Outcome::RefundedNoSettlement,
        s.settlement().reward_per_attendee == 0,
        s.settlement().payouts.len() == s.participants.len(),
        forall|i: int|
            0 <= i < s.participants.len() ==> #[trigger] s.settlement().payouts[i] == (PayoutView {
                to: s.participants[i],
                amount: s.amount,
            }),
{
}

/// Where every stake is held and some but not all were absent, each attendee
/// is paid the pool divided by the number of attendees, rounded down, place
/// by place, and what is paid together is no more than the stakes together.
/// Where the stakes together stay below 2^256, the pool is their sum.
pub proof fn law_shared_pool(s: SessionView)
    requires
        s.all_deposited(),
        s.absentees().len() > 0,
        s.attendees().len() > 0,
    ensures
        s.settlement().outcome == Outcome::Settled,
        s.settlement().absentee_count == s.absentees().len(),
        s.settlement().reward_per_attendee == s.pool() / s.attendees().len(),
        s.amount * s.participants.len() < modulus() ==> s.settlement().reward_per_attendee == (
        s.amount * s.participants.len()) / s.attendees().len(),
        s.settlement().reward_per_attendee * s.attendees().len() <= s.amount
            * s.participants.len(),
        s.settlement().payouts.len() == s.attendees().len(),
        forall|k: int|
            0 <= k < s.attendees().len() ==> #[trigger] s.settlement().payouts[k] == (PayoutView {
                to: s.attendees()[k],
                amount: s.settlement().reward_per_attendee,
            }),
{
    let total = s.amount * s.participants.len();
    let n = s.attendees().len();
    let reward = s.pool() / n;
    assert(s.settlement().reward_per_attendee == reward);
    assert(modulus() > 0);
    if total < modulus() {
        vstd::arithmetic::div_mod::lemma_small_mod(total, modulus());
    }
    vstd::arithmetic::div_mod::lemma_mod_decreases(total, modulus());
    assert(s.pool() <= total);
    assert(reward * n <= s.pool()) by (nonlinear_arith)
        requires
            n > 0,
            reward == s.pool() / n,
    ;
}

} // verus!
