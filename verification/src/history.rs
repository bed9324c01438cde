//! Calls of the ledger as values, and the states that sequences of calls lead
//! to.

use crate::hash::project_key;
use crate::model::LedgerView;
use crate::types::{AccountId, CreditView, IdView};
use vstd::prelude::*;

verus! {

/// A call that can change the ledger.
#[allow(inconsistent_fields)]
pub enum Operation {
    Mint { caller: AccountId, to: AccountId, credit: CreditView },
    Burn { caller: AccountId, number: u128 },
    Transfer { caller: AccountId, to: AccountId, id: IdView },
    TransferCredit { caller: AccountId, to: AccountId, number: u128 },
    Approve { caller: AccountId, operator: AccountId, id: Option<IdView>, approved: bool },
    TransferOwnership { caller: AccountId, new_owner: AccountId },
    TakeEvents,
}

impl LedgerView {
    /// Whether the call may be made: only the owner of the contract mints and
    /// hands the contract over, and counters and storage buffer suffice.
    pub open spec fn accepts(self, op: Operation) -> bool {
        match op {
            Operation::Mint { caller, to, credit } => {
                &&& caller == self.owner
                &&& self.has_token(self.next_id()) || self.mint_in_limits(
                    to,
                    credit,
                    project_key(credit.project_name),
                )
            },
            Operation::Burn { caller, number } => true,
            Operation::Transfer { caller, to, id } => self.transfer_in_limits(caller, to, id),
            Operation::TransferCredit { caller, to, number } => self.transfer_in_limits(
                caller,
                to,
                IdView::U128(number),
            ),
            Operation::Approve { caller, operator, id, approved } => self.approve_in_limits(
                caller,
                operator,
                id,
                approved,
            ),
            Operation::TransferOwnership { caller, new_owner } => caller == self.owner,
            Operation::TakeEvents => true,
        }
    }

    /// The state after the call; a refused call changes nothing.
    pub open spec fn after(self, op: Operation) -> LedgerView {
        match op {
            Operation::Mint { caller, to, credit } => if self.mint_result() is Ok {
                self.minted(to, credit, project_key(credit.project_name))
            } else {
                self
            },
            Operation::Burn { caller, number } => if self.burn_result(
                caller,
                IdView::U128(number),
            ) is Ok {
                self.burned(number)
            } else {
                self
            },
            Operation::Transfer { caller, to, id } => if self.transfer_result(
                caller,
                to,
                id,
            ) is Ok {
                self.transferred(to, id)
            } else {
                self
            },
            Operation::TransferCredit { caller, to, number } => if self.transfer_result(
                caller,
                to,
                IdView::U128(number),
            ) is Ok {
                self.credit_transferred(to, number)
            } else {
                self
            },
            Operation::Approve { caller, operator, id, approved } => if self.approve_result(
                caller,
                operator,
                id,
            ) is Ok {
                self.approving(caller, operator, id, approved)
            } else {
                self
            },
            Operation::TransferOwnership { caller, new_owner } => LedgerView {
                owner: new_owner,
                ..self
            },
            Operation::TakeEvents => LedgerView { events: Seq::empty(), ..self },
        }
    }

    /// The state after a sequence of calls.
    pub open spec fn run(self, ops: Seq<Operation>) -> LedgerView
        decreases ops.len(),
    {
        if ops.len() == 0 {
            self
        } else {
            self.run(ops.drop_last()).after(ops.last())
        }
    }

    /// Whether each call of a sequence may be made in the state that the calls
    /// before it lead to.
    pub open spec fn accepts_all(self, ops: Seq<Operation>) -> bool
        decreases ops.len(),
    {
        ops.len() == 0 || self.accepts_all(ops.drop_last()) && self.run(
            ops.drop_last(),
        ).accepts(ops.last())
    }
}

} // verus!
