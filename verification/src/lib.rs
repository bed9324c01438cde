//! A ledger of carbon credits: PSP34 non-fungible tokens, each of which stands
//! for one tonne of verified CO2 offset.
//!
//! | Concept         | Details                                                  |
//! |-----------------|----------------------------------------------------------|
//! | Token numbers   | Incremental `u128`, from 1, in `Id::U128`                |
//! | Ownership model | The owner of the contract mints; any holder burns        |
//! | Burn semantics  | Retirement: the token and its metadata are gone for good |
//!
//! [`CarbonCredit`](ledger::CarbonCredit) keeps its tables in contract storage
//! through `ink::storage::Mapping` ([`tables`]). What each operation does to
//! the state is written down in [`model`], what holds of every state in
//! [`wellformed`], and what follows for callers in [`laws`].

pub mod cells;
pub mod events;
pub mod hash;
pub mod history;
pub mod laws;
pub mod ledger;
pub mod model;
pub mod tables;
pub mod types;
pub mod wellformed;

pub use events::{Approval, CreditMinted, CreditRetired, CreditTransferred, Event, Transfer};
pub use ledger::CarbonCredit;
pub use tables::Storage;
pub use types::{
    AccountId, CarbonCreditError, CreditData, CreditStandard, Id, PSP34Error, ProjectType,
};
