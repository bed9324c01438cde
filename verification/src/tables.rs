//! The storage tables of the ledger, each an `ink::storage::Mapping`.
//!
//! A mapping keeps nothing itself: it is a handle on the storage cells of the
//! running contract that lie under its table key, and two handles with the
//! same key are handles on the same cells. The ten tables have ten different
//! keys. That a table's entries change through that table alone therefore rests
//! on an assumption on every caller of this library: at most one [`Storage`] is
//! in use at a time, and nothing else writes to its cells meanwhile. A
//! [`Storage`] is opened with `Storage::default()`; the library itself opens
//! none.
//!
//! Per table the trusted part is: the struct around the mapping, a name for
//! the entries that its cells hold, and the calls of the mapping that the
//! ledger makes. What is trusted of these calls is the same for every table:
//!
//! - `Mapping::get` gives the entry under a key, or `None` where there is none;
//! - `Mapping::contains` tells whether there is an entry under a key;
//! - `Mapping::insert` sets the entry under one key;
//! - `Mapping::remove` clears the entry under one key.
//!
//! Storage keys are the encodings of table key and entry key together, and the
//! encodings of the plain types used here are one-to-one and decode to the
//! value that was encoded, so an entry that was written is the entry that is
//! read. On chain key and value pass through one buffer of
//! [`BUFFER_BYTES`](crate::cells::BUFFER_BYTES), on the way in and on the way
//! out, and a call traps if they exceed it. The `requires` clauses leave such
//! keys and values out; an entry that a read gives did pass through the buffer.
//! A read leaves out a key that fills the buffer, too, since no room would be
//! left for a value.
//!
//! A chain sets limits of its own on the lengths of keys and values, as
//! parameters of its contracts module. They are assumed to admit what the
//! buffer admits; where they are lower, a longer key or value traps.
//!
//! The calls are those of a running contract, or of a test inside
//! `ink::env::test::run_test`, which stands in for one.

use crate::cells::{
    cell_credit, cell_credit_option, cell_id, cell_id_option, credit_bytes, fits, id_bytes,
    list_bytes, CreditCell, IdCell,
};
use crate::types::{AccountId, CreditView, IdView};
use ink::storage::traits::ManualKey;
use ink::storage::Mapping;
use vstd::prelude::*;

verus! {

/// The view of an optional list.
pub open spec fn list_option(list: Option<Vec<u128>>) -> Option<Seq<u128>> {
    match list {
        Some(l) => Some(l@),
        None => None,
    }
}

/// Ownership ledger: token to owner.
///
/// Holds an `ink::storage::Mapping`.
#[derive(Default)]
#[verifier::external_body]
pub struct TokenOwners {
    cells: Mapping<IdCell, [u8; 32], ManualKey<1>>,
}

/// The entries of the table.
pub uninterp spec fn token_owners(table: TokenOwners) -> Map<IdView, AccountId>;

impl TokenOwners {
    /// `Mapping::get`: the owner of a token, if there is one.
    #[verifier::external_body]
    pub(crate) fn get(&self, id: &IdCell) -> (entry: Option<AccountId>)
        requires
            fits(id_bytes(cell_id(*id)), 1),
        ensures
            entry == token_owners(*self).get(cell_id(*id)),
    {
        self.cells.get(id).map(AccountId)
    }

    /// `Mapping::insert`: sets the owner of a token and leaves every other entry.
    #[verifier::external_body]
    pub(crate) fn insert(&mut self, id: &IdCell, owner: &AccountId)
        requires
            fits(id_bytes(cell_id(*id)), 32),
        ensures
            token_owners(*final(self)) == token_owners(*old(self)).insert(cell_id(*id), *owner),
    {
        self.cells.insert(id, &owner.0);
    }

    /// `Mapping::remove`: clears the owner of a token and leaves every other entry.
    #[verifier::external_body]
    pub(crate) fn remove(&mut self, id: &IdCell)
        requires
            fits(id_bytes(cell_id(*id)), 0),
        ensures
            token_owners(*final(self)) == token_owners(*old(self)).remove(cell_id(*id)),
    {
        self.cells.remove(id);
    }
}

/// Number of tokens held: owner to count.
///
/// Holds an `ink::storage::Mapping`.
#[derive(Default)]
#[verifier::external_body]
pub struct OwnedCounts {
    cells: Mapping<[u8; 32], u32, ManualKey<2>>,
}

/// The entries of the table.
pub uninterp spec fn owned_counts(table: OwnedCounts) -> Map<AccountId, u32>;

impl OwnedCounts {
    /// `Mapping::get`: the count of an owner, if there is one.
    #[verifier::external_body]
    pub(crate) fn get(&self, owner: &AccountId) -> (entry: Option<u32>)
        ensures
            entry == owned_counts(*self).get(*owner),
    {
        self.cells.get(owner.0)
    }

    /// `Mapping::insert`: sets the count of an owner and leaves every other entry.
    #[verifier::external_body]
    pub(crate) fn insert(&mut self, owner: &AccountId, count: u32)
        ensures
            owned_counts(*final(self)) == owned_counts(*old(self)).insert(*owner, count),
    {
        self.cells.insert(owner.0, &count);
    }
}

/// Per-token approval: token to approved operator.
///
/// Holds an `ink::storage::Mapping`.
#[derive(Default)]
#[verifier::external_body]
pub struct TokenApprovals {
    cells: Mapping<IdCell, [u8; 32], ManualKey<3>>,
}

/// The entries of the table.
pub uninterp spec fn token_approvals(table: TokenApprovals) -> Map<IdView, AccountId>;

impl TokenApprovals {
    /// `Mapping::get`: the operator approved for a token, if there is one.
    #[verifier::external_body]
    pub(crate) fn get(&self, id: &IdCell) -> (entry: Option<AccountId>)
        requires
            fits(id_bytes(cell_id(*id)), 1),
        ensures
            entry == token_approvals(*self).get(cell_id(*id)),
    {
        self.cells.get(id).map(AccountId)
    }

    /// `Mapping::insert`: sets the operator approved for a token and leaves every other entry.
    #[verifier::external_body]
    pub(crate) fn insert(&mut self, id: &IdCell, operator: &AccountId)
        requires
            fits(id_bytes(cell_id(*id)), 32),
        ensures
            token_approvals(*final(self)) == token_approvals(*old(self)).insert(
                cell_id(*id),
                *operator,
            ),
    {
        self.cells.insert(id, &operator.0);
    }

    /// `Mapping::remove`: clears the approval of a token and leaves every other entry.
    #[verifier::external_body]
    pub(crate) fn remove(&mut self, id: &IdCell)
        requires
            fits(id_bytes(cell_id(*id)), 0),
        ensures
            token_approvals(*final(self)) == token_approvals(*old(self)).remove(cell_id(*id)),
    {
        self.cells.remove(id);
    }
}

/// Approval for all tokens of an owner: the approved pairs of owner and
/// operator.
///
/// Holds an `ink::storage::Mapping`.
#[derive(Default)]
#[verifier::external_body]
pub struct OperatorApprovals {
    cells: Mapping<([u8; 32], [u8; 32]), (), ManualKey<4>>,
}

/// The keys that have an entry in the table.
pub uninterp spec fn operator_approvals(table: OperatorApprovals) -> Set<(AccountId, AccountId)>;

impl OperatorApprovals {
    /// `Mapping::contains`: whether the pair has an entry.
    #[verifier::external_body]
    pub(crate) fn contains(&self, owner: &AccountId, operator: &AccountId) -> (yes: bool)
        ensures
            yes == operator_approvals(*self).contains((*owner, *operator)),
    {
        self.cells.contains((owner.0, operator.0))
    }

    /// `Mapping::insert`: makes an entry for the pair and leaves every other
    /// entry.
    #[verifier::external_body]
    pub(crate) fn insert(&mut self, owner: &AccountId, operator: &AccountId)
        ensures
            operator_approvals(*final(self)) == operator_approvals(*old(self)).insert(
                (*owner, *operator),
            ),
    {
        self.cells.insert((owner.0, operator.0), &());
    }

    /// `Mapping::remove`: clears the entry of the pair and leaves every other
    /// entry.
    #[verifier::external_body]
    pub(crate) fn remove(&mut self, owner: &AccountId, operator: &AccountId)
        ensures
            operator_approvals(*final(self)) == operator_approvals(*old(self)).remove(
                (*owner, *operator),
            ),
    {
        self.cells.remove((owner.0, operator.0));
    }
}

/// Global enumeration: index to token.
///
/// Holds an `ink::storage::Mapping`.
#[derive(Default)]
#[verifier::external_body]
pub struct TokenIndex {
    cells: Mapping<u128, IdCell, ManualKey<5>>,
}

/// The entries of the table.
pub uninterp spec fn token_index(table: TokenIndex) -> Map<u128, IdView>;

impl TokenIndex {
    /// `Mapping::get`: the token at an index, if there is one.
    #[verifier::external_body]
    pub(crate) fn get(&self, index: u128) -> (entry: Option<IdCell>)
        ensures
            cell_id_option(entry) == token_index(*self).get(index),
            entry matches Some(id) ==> fits(16, id_bytes(cell_id(id))),
    {
        self.cells.get(index)
    }

    /// `Mapping::insert`: sets the token at an index and leaves every other entry.
    #[verifier::external_body]
    pub(crate) fn insert(&mut self, index: u128, id: &IdCell)
        requires
            fits(16, id_bytes(cell_id(*id))),
        ensures
            token_index(*final(self)) == token_index(*old(self)).insert(index, cell_id(*id)),
    {
        self.cells.insert(index, id);
    }

    /// `Mapping::remove`: clears the token at an index and leaves every other entry.
    #[verifier::external_body]
    pub(crate) fn remove(&mut self, index: u128)
        ensures
            token_index(*final(self)) == token_index(*old(self)).remove(index),
    {
        self.cells.remove(index);
    }
}

/// Reverse global enumeration: token to index.
///
/// Holds an `ink::storage::Mapping`.
#[derive(Default)]
#[verifier::external_body]
pub struct TokenIndexOf {
    cells: Mapping<IdCell, u128, ManualKey<6>>,
}

/// The entries of the table.
pub uninterp spec fn token_index_of(table: TokenIndexOf) -> Map<IdView, u128>;

impl TokenIndexOf {
    /// `Mapping::get`: the index of a token, if there is one.
    #[verifier::external_body]
    pub(crate) fn get(&self, id: &IdCell) -> (entry: Option<u128>)
        requires
            fits(id_bytes(cell_id(*id)), 1),
        ensures
            entry == token_index_of(*self).get(cell_id(*id)),
    {
        self.cells.get(id)
    }

    /// `Mapping::insert`: sets the index of a token and leaves every other entry.
    #[verifier::external_body]
    pub(crate) fn insert(&mut self, id: &IdCell, index: u128)
        requires
            fits(id_bytes(cell_id(*id)), 16),
        ensures
            token_index_of(*final(self)) == token_index_of(*old(self)).insert(cell_id(*id), index),
    {
        self.cells.insert(id, &index);
    }

    /// `Mapping::remove`: clears the index of a token and leaves every other entry.
    #[verifier::external_body]
    pub(crate) fn remove(&mut self, id: &IdCell)
        requires
            fits(id_bytes(cell_id(*id)), 0),
        ensures
            token_index_of(*final(self)) == token_index_of(*old(self)).remove(cell_id(*id)),
    {
        self.cells.remove(id);
    }
}

/// Per-owner enumeration: owner and index to token.
///
/// Holds an `ink::storage::Mapping`.
#[derive(Default)]
#[verifier::external_body]
pub struct OwnedTokens {
    cells: Mapping<([u8; 32], u32), IdCell, ManualKey<7>>,
}

/// The entries of the table.
pub uninterp spec fn owned_tokens(table: OwnedTokens) -> Map<(AccountId, u32), IdView>;

impl OwnedTokens {
    /// `Mapping::get`: the token at an index of an owner, if there is one.
    #[verifier::external_body]
    pub(crate) fn get(&self, owner: &AccountId, index: u32) -> (entry: Option<IdCell>)
        ensures
            cell_id_option(entry) == owned_tokens(*self).get((*owner, index)),
            entry matches Some(id) ==> fits(36, id_bytes(cell_id(id))),
    {
        self.cells.get((owner.0, index))
    }

    /// `Mapping::insert`: sets the token at an index of an owner and leaves every other entry.
    #[verifier::external_body]
    pub(crate) fn insert(&mut self, owner: &AccountId, index: u32, id: &IdCell)
        requires
            fits(36, id_bytes(cell_id(*id))),
        ensures
            owned_tokens(*final(self)) == owned_tokens(*old(self)).insert(
                (*owner, index),
                cell_id(*id),
            ),
    {
        self.cells.insert((owner.0, index), id);
    }

    /// `Mapping::remove`: clears the token at an index of an owner and leaves every other entry.
    #[verifier::external_body]
    pub(crate) fn remove(&mut self, owner: &AccountId, index: u32)
        ensures
            owned_tokens(*final(self)) == owned_tokens(*old(self)).remove((*owner, index)),
    {
        self.cells.remove((owner.0, index));
    }
}

/// Reverse per-owner enumeration: token to index in its owner's list.
///
/// Holds an `ink::storage::Mapping`.
#[derive(Default)]
#[verifier::external_body]
pub struct OwnedIndex {
    cells: Mapping<IdCell, u32, ManualKey<8>>,
}

/// The entries of the table.
pub uninterp spec fn owned_index(table: OwnedIndex) -> Map<IdView, u32>;

impl OwnedIndex {
    /// `Mapping::get`: the index of a token, if there is one.
    #[verifier::external_body]
    pub(crate) fn get(&self, id: &IdCell) -> (entry: Option<u32>)
        requires
            fits(id_bytes(cell_id(*id)), 1),
        ensures
            entry == owned_index(*self).get(cell_id(*id)),
    {
        self.cells.get(id)
    }

    /// `Mapping::insert`: sets the index of a token and leaves every other entry.
    #[verifier::external_body]
    pub(crate) fn insert(&mut self, id: &IdCell, index: u32)
        requires
            fits(id_bytes(cell_id(*id)), 4),
        ensures
            owned_index(*final(self)) == owned_index(*old(self)).insert(cell_id(*id), index),
    {
        self.cells.insert(id, &index);
    }

    /// `Mapping::remove`: clears the index of a token and leaves every other entry.
    #[verifier::external_body]
    pub(crate) fn remove(&mut self, id: &IdCell)
        requires
            fits(id_bytes(cell_id(*id)), 0),
        ensures
            owned_index(*final(self)) == owned_index(*old(self)).remove(cell_id(*id)),
    {
        self.cells.remove(id);
    }
}

/// Metadata of every live credit: token to metadata.
///
/// Holds an `ink::storage::Mapping`.
#[derive(Default)]
#[verifier::external_body]
pub struct CreditInfo {
    cells: Mapping<IdCell, CreditCell, ManualKey<9>>,
}

/// The entries of the table.
pub uninterp spec fn credit_info(table: CreditInfo) -> Map<IdView, CreditView>;

impl CreditInfo {
    /// `Mapping::get`: the metadata of a token, if there is one.
    #[verifier::external_body]
    pub(crate) fn get(&self, id: &IdCell) -> (entry: Option<CreditCell>)
        requires
            fits(id_bytes(cell_id(*id)), 1),
        ensures
            cell_credit_option(entry) == credit_info(*self).get(cell_id(*id)),
    {
        self.cells.get(id)
    }

    /// `Mapping::insert`: sets the metadata of a token and leaves every other entry.
    #[verifier::external_body]
    pub(crate) fn insert(&mut self, id: &IdCell, credit: &CreditCell)
        requires
            fits(id_bytes(cell_id(*id)), credit_bytes(cell_credit(*credit))),
        ensures
            credit_info(*final(self)) == credit_info(*old(self)).insert(
                cell_id(*id),
                cell_credit(*credit),
            ),
    {
        self.cells.insert(id, credit);
    }

    /// `Mapping::remove`: clears the metadata of a token and leaves every other entry.
    #[verifier::external_body]
    pub(crate) fn remove(&mut self, id: &IdCell)
        requires
            fits(id_bytes(cell_id(*id)), 0),
        ensures
            credit_info(*final(self)) == credit_info(*old(self)).remove(cell_id(*id)),
    {
        self.cells.remove(id);
    }
}

/// Numbers minted per project: hash of the project name to list.
///
/// Holds an `ink::storage::Mapping`.
#[derive(Default)]
#[verifier::external_body]
pub struct ProjectCredits {
    cells: Mapping<[u8; 32], Vec<u128>, ManualKey<10>>,
}

/// The entries of the table.
pub uninterp spec fn project_credits(table: ProjectCredits) -> Map<Seq<u8>, Seq<u128>>;

impl ProjectCredits {
    /// `Mapping::get`: the list of a project, if there is one.
    #[verifier::external_body]
    pub(crate) fn get(&self, project: &[u8; 32]) -> (entry: Option<Vec<u128>>)
        ensures
            list_option(entry) == project_credits(*self).get(project@),
    {
        self.cells.get(project)
    }

    /// `Mapping::insert`: sets the list of a project and leaves every other entry.
    #[verifier::external_body]
    pub(crate) fn insert(&mut self, project: &[u8; 32], list: &Vec<u128>)
        requires
            fits(32, list_bytes(list@.len())),
        ensures
            project_credits(*final(self)) == project_credits(*old(self)).insert(project@, list@),
    {
        self.cells.insert(project, list);
    }
}

/// The ten tables.
#[derive(Default)]
pub struct Storage {
    pub token_owner: TokenOwners,
    pub owned_tokens_count: OwnedCounts,
    pub token_approvals: TokenApprovals,
    pub operator_approvals: OperatorApprovals,
    pub tokens_index: TokenIndex,
    pub tokens_index_of: TokenIndexOf,
    pub owned_tokens: OwnedTokens,
    pub owned_tokens_index: OwnedIndex,
    pub credit_info: CreditInfo,
    pub credits_by_project: ProjectCredits,
}

/// The entries of the ten tables.
#[verifier::ext_equal]
pub struct StorageView {
    pub token_owner: Map<IdView, AccountId>,
    pub owned_tokens_count: Map<AccountId, u32>,
    pub token_approvals: Map<IdView, AccountId>,
    pub operator_approvals: Set<(AccountId, AccountId)>,
    pub tokens_index: Map<u128, IdView>,
    pub tokens_index_of: Map<IdView, u128>,
    pub owned_tokens: Map<(AccountId, u32), IdView>,
    pub owned_tokens_index: Map<IdView, u32>,
    pub credit_info: Map<IdView, CreditView>,
    pub credits_by_project: Map<Seq<u8>, Seq<u128>>,
}

impl StorageView {
    /// The tables of a new contract: no entry in any of them.
    pub open spec fn unwritten() -> StorageView {
        StorageView {
            token_owner: Map::empty(),
            owned_tokens_count: Map::empty(),
            token_approvals: Map::empty(),
            operator_approvals: Set::empty(),
            tokens_index: Map::empty(),
            tokens_index_of: Map::empty(),
            owned_tokens: Map::empty(),
            owned_tokens_index: Map::empty(),
            credit_info: Map::empty(),
            credits_by_project: Map::empty(),
        }
    }
}

impl View for Storage {
    type V = StorageView;

    open spec fn view(&self) -> StorageView {
        StorageView {
            token_owner: token_owners(self.token_owner),
            owned_tokens_count: owned_counts(self.owned_tokens_count),
            token_approvals: token_approvals(self.token_approvals),
            operator_approvals: operator_approvals(self.operator_approvals),
            tokens_index: token_index(self.tokens_index),
            tokens_index_of: token_index_of(self.tokens_index_of),
            owned_tokens: owned_tokens(self.owned_tokens),
            owned_tokens_index: owned_index(self.owned_tokens_index),
            credit_info: credit_info(self.credit_info),
            credits_by_project: project_credits(self.credits_by_project),
        }
    }
}

} // verus!
