//! The events that the ledger reports.

use crate::types::{id_option, AccountId, Id, IdView};
use vstd::prelude::*;

verus! {

/// PSP34 `Transfer` event, reported on mint, transfer and burn.
#[derive(Clone, Debug, PartialEq, Eq)]
pub struct Transfer {
    /// Previous holder (`None` for mints).
    pub from: Option<AccountId>,
    /// New holder (`None` for burns).
    pub to: Option<AccountId>,
    /// The token that moved.
    pub id: Id,
}

/// PSP34 `Approval` event.
#[derive(Clone, Debug, PartialEq, Eq)]
pub struct Approval {
    /// Owner of the token, or of all the tokens, concerned.
    pub owner: AccountId,
    /// The operator.
    pub operator: AccountId,
    /// The token concerned (`None` for all tokens).
    pub id: Option<Id>,
    /// Whether the approval is granted (`true`) or revoked (`false`).
    pub approved: bool,
}

/// A new carbon credit was minted.
#[derive(Clone, Debug, PartialEq, Eq)]
pub struct CreditMinted {
    /// The new token's number.
    pub token_id: u128,
    /// Account that received the token.
    pub to: AccountId,
    /// Project name for easy indexing.
    pub project_name: String,
}

/// A carbon credit was transferred between accounts.
#[derive(Clone, Debug, PartialEq, Eq)]
pub struct CreditTransferred {
    /// Previous holder.
    pub from: Option<AccountId>,
    /// New holder.
    pub to: Option<AccountId>,
    /// The token that moved.
    pub token_id: u128,
}

/// A carbon credit was burned (retired).
#[derive(Clone, Debug, PartialEq, Eq)]
pub struct CreditRetired {
    /// The token that was permanently removed.
    pub token_id: u128,
    /// Account that retired the credit: its last holder.
    pub owner: AccountId,
}

/// Any event of the ledger.
#[derive(Clone, Debug, PartialEq, Eq)]
pub enum Event {
    Transfer(Transfer),
    Approval(Approval),
    CreditMinted(CreditMinted),
    CreditTransferred(CreditTransferred),
    CreditRetired(CreditRetired),
}

/// The mathematical value of an [`Event`].
#[allow(inconsistent_fields)]
pub enum EventView {
    Transfer { from: Option<AccountId>, to: Option<AccountId>, id: IdView },
    Approval { owner: AccountId, operator: AccountId, id: Option<IdView>, approved: bool },
    CreditMinted { token_id: u128, to: AccountId, project_name: Seq<char> },
    CreditTransferred { from: Option<AccountId>, to: Option<AccountId>, token_id: u128 },
    CreditRetired { token_id: u128, owner: AccountId },
}

impl View for Event {
    type V = EventView;

    open spec fn view(&self) -> EventView {
        match *self {
            Event::Transfer(e) => EventView::Transfer { from: e.from, to: e.to, id: e.id@ },
            Event::Approval(e) => EventView::Approval {
                owner: e.owner,
                operator: e.operator,
                id: id_option(e.id),
                approved: e.approved,
            },
            Event::CreditMinted(e) => EventView::CreditMinted {
                token_id: e.token_id,
                to: e.to,
                project_name: e.project_name@,
            },
            Event::CreditTransferred(e) => EventView::CreditTransferred {
                from: e.from,
                to: e.to,
                token_id: e.token_id,
            },
            Event::CreditRetired(e) => EventView::CreditRetired {
                token_id: e.token_id,
                owner: e.owner,
            },
        }
    }
}

/// The views of a list of events.
pub open spec fn event_views(events: Seq<Event>) -> Seq<EventView> {
    events.map_values(|e: Event| e@)
}

} // verus!
