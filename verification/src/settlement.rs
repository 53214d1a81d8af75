//! What a settlement hands to the caller: the payments to make and the numbers
//! of the record that is published.

use vstd::prelude::*;
use crate::address::Address;
use crate::error::TozlowError;
use crate::model::{Outcome, PayoutView, SettlementView};
use crate::word::U256;

verus! {

/// One payment: `amount` to `to`.
#[derive(Clone, Copy, Debug, PartialEq, Eq)]
pub struct Payout {
    pub to: Address,
    pub amount: U256,
}

impl View for Payout {
    type V = PayoutView;

    open spec fn view(&self) -> PayoutView {
        PayoutView { to: self.to, amount: self.amount@ }
    }
}

/// The payments of a list, each by its view.
pub open spec fn payout_views(list: Seq<Payout>) -> Seq<PayoutView> {
    list.map_values(|p: Payout| p@)
}

/// A settlement: how the session ended, the two numbers of its record, and the
/// payments in the order in which they are to be made.
#[derive(Debug)]
pub struct Settlement {
    pub outcome: Outcome,
    pub absentee_count: U256,
    pub reward_per_attendee: U256,
    pub payouts: Vec<Payout>,
}

impl View for Settlement {
    type V = SettlementView;

    open spec fn view(&self) -> SettlementView {
        SettlementView {
            outcome: self.outcome,
            absentee_count: self.absentee_count@,
            reward_per_attendee: self.reward_per_attendee@,
            payouts: payout_views(self.payouts@),
        }
    }
}

/// The record that is published of a settlement: a refund where not every
/// stake was held, and else the number of the absent and the share of each
/// attendee.
#[derive(Clone, Copy, Debug, PartialEq, Eq)]
pub enum SettlementRecord {
    Refunded,
    Finalized { absentee_count: U256, reward_per_attendee: U256 },
}

impl Settlement {
    /// The record to publish of this settlement.
    pub fn record(&self) -> (r: SettlementRecord)
        ensures
            self.outcome == Outcome::RefundedIncomplete ==> r == SettlementRecord::Refunded,
            self.outcome != Outcome::RefundedIncomplete ==> r == (SettlementRecord::Finalized {
                absentee_count: self.absentee_count,
                reward_per_attendee: self.reward_per_attendee,
            }),
    {
        match self.outcome {
            Outcome::RefundedIncomplete => SettlementRecord::Refunded,
            _ => SettlementRecord::Finalized {
                absentee_count: self.absentee_count,
                reward_per_attendee: self.reward_per_attendee,
            },
        }
    }
}

/// Whether a call returned what the model says: the same refusal, or a
/// settlement of the same view.
pub open spec fn settled_as(
    r: Result<Settlement, TozlowError>,
    m: Result<SettlementView, TozlowError>,
) -> bool {
    match (r, m) {
        (Ok(a), Ok(b)) => a@ == b,
        (Err(a), Err(b)) => a == b,
        _ => false,
    }
}

/// One payment more in a list is one view more.
pub proof fn lemma_payout_views_push(list: Seq<Payout>, p: Payout)
    ensures
        payout_views(list.push(p)) == payout_views(list).push(p@),
{
    assert(payout_views(list.push(p)) =~= payout_views(list).push(p@));
}

} // verus!
