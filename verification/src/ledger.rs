//! The carbon-credit ledger.

use crate::cells::{cell_id, fits, id_bytes, IdCell, MAX_PROJECT_CREDITS};
use crate::events::{
    event_views, Approval, CreditMinted, CreditRetired, CreditTransferred, Event, Transfer,
};
use crate::hash::{project_key, project_name_hash};
use crate::history::Operation;
use crate::laws::law_calls_keep_well_formed;
use crate::model::LedgerView;
use crate::tables::Storage;
use crate::types::{
    id_option, AccountId, CarbonCreditError, CreditData, Id, IdView, PSP34Error,
};
use vstd::prelude::*;

verus! {

/// The ledger of carbon credits: PSP34 ownership, balances, approvals and
/// enumeration, and the metadata of every credit.
pub struct CarbonCredit {
    storage: Storage,
    total_supply: u128,
    owner: AccountId,
    next_token_id: u128,
    events: Vec<Event>,
}

impl View for CarbonCredit {
    type V = LedgerView;

    closed spec fn view(&self) -> LedgerView {
        LedgerView {
            cells: self.storage@,
            total_supply: self.total_supply,
            owner: self.owner,
            next_token_id: self.next_token_id,
            events: event_views(self.events@),
        }
    }
}

impl CarbonCredit {
    /// Instantiates the ledger over the tables of a new contract.
    ///
    /// The caller becomes the **owner**, the only account that may mint. Token
    /// numbers start at 1, so 0 is never a valid number. Storage of a new
    /// contract holds no entry: then the ledger is empty.
    pub fn new(caller: AccountId, storage: Storage) -> (ledger: Self)
        ensures
            ledger@ == LedgerView::opened(storage@, caller),
    {
        let ledger = Self::resume(storage, caller, 0, 1);
        assert(ledger@ == LedgerView::opened(storage@, caller));
        ledger
    }

    /// Takes up a ledger where an earlier call left it: its tables and its
    /// three plain fields.
    pub fn resume(
        storage: Storage,
        owner: AccountId,
        total_supply: u128,
        next_token_id: u128,
    ) -> (ledger: Self)
        ensures
            ledger@ == (LedgerView {
                cells: storage@,
                total_supply,
                owner,
                next_token_id,
                events: Seq::empty(),
            }),
    {
        let ledger = Self { storage, total_supply, owner, next_token_id, events: Vec::new() };
        assert(event_views(ledger.events@) =~= Seq::empty());
        ledger
    }

    /// Hands over the events reported since the last call, oldest first.
    pub fn take_events(&mut self) -> (events: Vec<Event>)
        ensures
            event_views(events@) == old(self)@.events,
            final(self)@ == (LedgerView { events: Seq::empty(), ..old(self)@ }),
            final(self)@ == old(self)@.after(Operation::TakeEvents),
            old(self)@.well_formed() ==> final(self)@.well_formed(),
    {
        proof {
            if self@.well_formed() {
                law_calls_keep_well_formed(self@, Operation::TakeEvents);
            }
        }
        let mut events: Vec<Event> = Vec::new();
        std::mem::swap(&mut events, &mut self.events);
        assert(event_views(self.events@) =~= Seq::empty());
        events
    }
}

// PSP34.
impl CarbonCredit {
    /// The number of tokens held by `owner`.
    pub fn balance_of(&self, owner: AccountId) -> (count: u32)
        ensures
            count == self@.balance(owner),
    {
        match self.storage.owned_tokens_count.get(&owner) {
            Some(n) => n,
            None => 0,
        }
    }

    /// The owner of token `id`, or `None` if it does not exist.
    pub fn owner_of(&self, id: Id) -> (owner: Option<AccountId>)
        requires
            fits(id_bytes(id@), 1),
        ensures
            owner == self@.cells.token_owner.get(id@),
    {
        self.storage.token_owner.get(&id.to_cell())
    }

    /// Whether `operator` is approved to manage `id` (or all of `owner`'s
    /// tokens when `id` is `None`).
    ///
    /// `owner`'s approval for all tokens counts for the tokens that `owner`
    /// holds.
    pub fn allowance(&self, owner: AccountId, operator: AccountId, id: Option<Id>) -> (yes: bool)
        requires
            id matches Some(i) ==> fits(id_bytes(i@), 1),
        ensures
            yes == self@.approved(owner, operator, id_option(id)),
    {
        match id {
            Some(i) => self.is_approved(&owner, &operator, Some(&i.to_cell())),
            None => self.is_approved(&owner, &operator, None),
        }
    }

    /// Approves (or revokes) `operator` for a single token (`id = Some`) or
    /// for all of the caller's tokens (`id = None`).
    ///
    /// A single token's approval may be set by its owner and by an operator
    /// for all of the owner's tokens.
    pub fn approve(
        &mut self,
        caller: AccountId,
        operator: AccountId,
        id: Option<Id>,
        approved: bool,
    ) -> (result: Result<(), PSP34Error>)
        requires
            old(self)@.approve_in_limits(caller, operator, id_option(id), approved),
        ensures
            result == old(self)@.approve_result(caller, operator, id_option(id)),
            result is Ok ==> final(self)@ == old(self)@.approving(
                caller,
                operator,
                id_option(id),
                approved,
            ),
            result is Err ==> final(self)@ == old(self)@,
            final(self)@ == old(self)@.after(
                Operation::Approve { caller, operator, id: id_option(id), approved },
            ),
            old(self)@.well_formed() ==> final(self)@.well_formed(),
    {
        proof {
            if self@.well_formed() {
                law_calls_keep_well_formed(
                    self@,
                    Operation::Approve { caller, operator, id: id_option(id), approved },
                );
            }
        }
        if caller == operator {
            return Err(PSP34Error::SelfApprove);
        }
        let owner = match &id {
            Some(token_id) => {
                let cell = token_id.to_cell();
                let token_owner = match self.storage.token_owner.get(&cell) {
                    Some(a) => a,
                    None => {
                        return Err(PSP34Error::TokenNotExists);
                    },
                };
                if token_owner != caller && !self.storage.operator_approvals.contains(
                    &token_owner,
                    &caller,
                ) {
                    return Err(PSP34Error::NotApproved);
                }
                if approved {
                    self.storage.token_approvals.insert(&cell, &operator);
                } else {
                    self.storage.token_approvals.remove(&cell);
                }
                token_owner
            },
            None => {
                if approved {
                    self.storage.operator_approvals.insert(&caller, &operator);
                } else {
                    self.storage.operator_approvals.remove(&caller, &operator);
                }
                caller
            },
        };
        self.report(Event::Approval(Approval { owner, operator, id, approved }));
        Ok(())
    }

    /// Whether [`approve`](Self::approve) with these arguments stays within
    /// the storage buffer.
    pub fn approve_fits(
        &self,
        caller: AccountId,
        operator: AccountId,
        id: &Option<Id>,
        approved: bool,
    ) -> (yes: bool)
        ensures
            yes == self@.approve_in_limits(caller, operator, id_option(*id), approved),
    {
        match id {
            None => true,
            Some(i) => {
                if caller == operator {
                    return true;
                }
                if !i.fits_with(1) {
                    return false;
                }
                if !approved || i.fits_with(32) {
                    return true;
                }
                match self.storage.token_owner.get(&i.to_cell()) {
                    None => true,
                    Some(holder) => !(caller == holder
                        || self.storage.operator_approvals.contains(&holder, &caller)),
                }
            },
        }
    }

    /// PSP34 transfer of token `id` to `to`.
    ///
    /// The caller must be the owner or an approved operator, and `to` another
    /// account than the owner ([`PSP34Error::SelfApprove`] otherwise).
    pub fn transfer(
        &mut self,
        caller: AccountId,
        to: AccountId,
        id: Id,
        _data: Vec<u8>,
    ) -> (result: Result<(), PSP34Error>)
        requires
            old(self)@.transfer_in_limits(caller, to, id@),
        ensures
            result == old(self)@.transfer_result(caller, to, id@),
            result is Ok ==> final(self)@ == old(self)@.transferred(to, id@),
            result is Err ==> final(self)@ == old(self)@,
            final(self)@ == old(self)@.after(Operation::Transfer { caller, to, id: id@ }),
            old(self)@.well_formed() ==> final(self)@.well_formed(),
    {
        proof {
            if self@.well_formed() {
                law_calls_keep_well_formed(self@, Operation::Transfer { caller, to, id: id@ });
            }
        }
        match self.transfer_token(caller, to, id) {
            Ok(_) => Ok(()),
            Err(error) => Err(error),
        }
    }

    /// Whether a transfer with these arguments stays within the counters and
    /// the storage buffer.
    pub fn transfer_fits(&self, caller: AccountId, to: AccountId, id: &Id) -> (yes: bool)
        ensures
            yes == self@.transfer_in_limits(caller, to, id@),
    {
        if !id.fits_with(1) {
            return false;
        }
        let cell = id.to_cell();
        match self.storage.token_owner.get(&cell) {
            None => true,
            Some(holder) => {
                if to == holder || !self.approved_or_owner(&caller, &holder, &cell) {
                    return true;
                }
                id.fits_with(36) && self.balance_of(to) < u32::MAX
            },
        }
    }

    /// The total number of tokens in existence.
    pub fn total_supply(&self) -> (supply: u128)
        ensures
            supply == self@.total_supply,
    {
        self.total_supply
    }

    /// Enumerable: the token at the global `index`.
    pub fn token_by_index(&self, index: u128) -> (id: Option<Id>)
        ensures
            id_option(id) == self@.cells.tokens_index.get(index),
    {
        match self.storage.tokens_index.get(index) {
            Some(cell) => Some(Id::from_cell(cell)),
            None => None,
        }
    }

    /// Enumerable: the `index`-th token owned by `owner`.
    pub fn owners_token_by_index(&self, owner: AccountId, index: u32) -> (id: Option<Id>)
        ensures
            id_option(id) == self@.cells.owned_tokens.get((owner, index)),
    {
        match self.storage.owned_tokens.get(&owner, index) {
            Some(cell) => Some(Id::from_cell(cell)),
            None => None,
        }
    }
}

// Carbon credits.
impl CarbonCredit {
    /// The account that owns the contract.
    pub fn owner(&self) -> (owner: AccountId)
        ensures
            owner == self@.owner,
    {
        self.owner
    }

    /// The number that the next mint gives out.
    pub fn next_token_id(&self) -> (number: u128)
        ensures
            number == self@.next_token_id,
    {
        self.next_token_id
    }

    /// Checks that the caller owns the contract.
    pub fn ensure_owner(&self, caller: AccountId) -> (result: Result<(), CarbonCreditError>)
        ensures
            result == if caller == self@.owner {
                Ok::<(), CarbonCreditError>(())
            } else {
                Err(CarbonCreditError::CallerNotOwner)
            },
    {
        if caller == self.owner {
            Ok(())
        } else {
            Err(CarbonCreditError::CallerNotOwner)
        }
    }

    /// Transfers contract ownership to `new_owner`. Only the owner may call
    /// this.
    pub fn transfer_ownership(&mut self, caller: AccountId, new_owner: AccountId)
        requires
            caller == old(self)@.owner,
        ensures
            final(self)@ == (LedgerView { owner: new_owner, ..old(self)@ }),
            final(self)@ == old(self)@.after(Operation::TransferOwnership { caller, new_owner }),
            old(self)@.well_formed() ==> final(self)@.well_formed(),
    {
        proof {
            if self@.well_formed() {
                law_calls_keep_well_formed(
                    self@,
                    Operation::TransferOwnership { caller, new_owner },
                );
            }
        }
        self.owner = new_owner;
    }

    /// Mints a new carbon credit and assigns it to `to`. Only the owner of the
    /// contract may call this.
    ///
    /// Returns [`PSP34Error::TokenExists`] if a token with the next number
    /// exists.
    pub fn mint(&mut self, caller: AccountId, to: AccountId, metadata: CreditData) -> (result:
        Result<(), PSP34Error>)
        requires
            caller == old(self)@.owner,
            old(self)@.has_token(old(self)@.next_id()) || old(self)@.mint_in_limits(
                to,
                metadata@,
                project_key(metadata@.project_name),
            ),
        ensures
            result == old(self)@.mint_result(),
            result is Ok ==> final(self)@ == old(self)@.minted(
                to,
                metadata@,
                project_key(metadata@.project_name),
            ),
            result is Err ==> final(self)@ == old(self)@,
            final(self)@ == old(self)@.after(Operation::Mint { caller, to, credit: metadata@ }),
            old(self)@.well_formed() ==> final(self)@.well_formed(),
    {
        proof {
            if self@.well_formed() {
                law_calls_keep_well_formed(
                    self@,
                    Operation::Mint { caller, to, credit: metadata@ },
                );
            }
        }
        let key = project_name_hash(metadata.project_name.as_str());
        self.mint_under(caller, to, metadata, &key)
    }

    /// Mints the next credit to `to` and lists it under the project key
    /// `key`.
    pub fn mint_under(
        &mut self,
        caller: AccountId,
        to: AccountId,
        metadata: CreditData,
        key: &[u8; 32],
    ) -> (result: Result<(), PSP34Error>)
        requires
            caller == old(self)@.owner,
            old(self)@.has_token(old(self)@.next_id()) || old(self)@.mint_in_limits(
                to,
                metadata@,
                key@,
            ),
        ensures
            result == old(self)@.mint_result(),
            result is Ok ==> final(self)@ == old(self)@.minted(to, metadata@, key@),
            result is Err ==> final(self)@ == old(self)@,
    {
        let number: u128 = self.next_token_id;
        let id = Id::U128(number);
        let cell = id.to_cell();
        if self.storage.token_owner.get(&cell).is_some() {
            return Err(PSP34Error::TokenExists);
        }
        self.next_token_id = number + 1;

        self.storage.credit_info.insert(&cell, &metadata.to_cell());

        let mut tokens = self.credits_under(key);
        tokens.push(number);
        self.storage.credits_by_project.insert(key, &tokens);

        self.add_token_to(&to, &cell);

        self.report(Event::Transfer(Transfer { from: None, to: Some(to), id }));
        self.report(
            Event::CreditMinted(
                CreditMinted { token_id: number, to, project_name: metadata.project_name },
            ),
        );
        Ok(())
    }

    /// Whether a mint stays within the counters and the storage buffer.
    pub fn mint_fits(&self, to: AccountId, metadata: &CreditData) -> (yes: bool)
        ensures
            yes == self@.mint_in_limits(
                to,
                metadata@,
                project_key(metadata@.project_name),
            ),
    {
        let key = project_name_hash(metadata.project_name.as_str());
        self.mint_under_fits(to, metadata, &key)
    }

    /// Whether a mint listed under `key` stays within the counters and the
    /// storage buffer.
    pub fn mint_under_fits(&self, to: AccountId, metadata: &CreditData, key: &[u8; 32]) -> (yes:
        bool)
        ensures
            yes == self@.mint_in_limits(to, metadata@, key@),
    {
        let listed: usize = self.credits_under(key).len();
        self.next_token_id < u128::MAX && self.total_supply < u128::MAX && self.balance_of(to)
            < u32::MAX && metadata.fits() && listed < MAX_PROJECT_CREDITS
    }

    /// [`mint`](Self::mint) for any caller: `None`, with nothing changed, if
    /// the caller does not own the contract or the mint exceeds its limits.
    pub fn checked_mint(
        &mut self,
        caller: AccountId,
        to: AccountId,
        metadata: CreditData,
    ) -> (result: Option<Result<(), PSP34Error>>)
        ensures
            result is Some <==> caller == old(self)@.owner && (old(self)@.has_token(
                old(self)@.next_id(),
            ) || old(self)@.mint_in_limits(
                to,
                metadata@,
                project_key(metadata@.project_name),
            )),
            result matches Some(r) ==> {
                &&& r == old(self)@.mint_result()
                &&& r is Ok ==> final(self)@ == old(self)@.minted(
                    to,
                    metadata@,
                    project_key(metadata@.project_name),
                )
                &&& r is Err ==> final(self)@ == old(self)@
            },
            result is None ==> final(self)@ == old(self)@,
            old(self)@.well_formed() ==> final(self)@.well_formed(),
    {
        if self.ensure_owner(caller).is_err() {
            return None;
        }
        let cell = Id::U128(self.next_token_id).to_cell();
        if self.storage.token_owner.get(&cell).is_none() && !self.mint_fits(to, &metadata) {
            return None;
        }
        Some(self.mint(caller, to, metadata))
    }

    /// Burns (retires) a carbon credit permanently.
    ///
    /// The caller must be the token owner or an approved operator. The
    /// metadata is removed with the token.
    pub fn burn(&mut self, caller: AccountId, token_id: u128) -> (result: Result<(), PSP34Error>)
        ensures
            result == old(self)@.burn_result(caller, IdView::U128(token_id)),
            result is Ok ==> final(self)@ == old(self)@.burned(token_id),
            result is Err ==> final(self)@ == old(self)@,
            final(self)@ == old(self)@.after(Operation::Burn { caller, number: token_id }),
            old(self)@.well_formed() ==> final(self)@.well_formed(),
    {
        proof {
            if self@.well_formed() {
                law_calls_keep_well_formed(self@, Operation::Burn { caller, number: token_id });
            }
        }
        let id = Id::U128(token_id);
        let cell = id.to_cell();
        let token_owner = match self.storage.token_owner.get(&cell) {
            Some(a) => a,
            None => {
                return Err(PSP34Error::TokenNotExists);
            },
        };
        if !self.approved_or_owner(&caller, &token_owner, &cell) {
            return Err(PSP34Error::NotApproved);
        }
        self.remove_token_from(&token_owner, &cell);
        self.storage.token_approvals.remove(&cell);
        self.storage.credit_info.remove(&cell);

        self.report(Event::Transfer(Transfer { from: Some(token_owner), to: None, id }));
        self.report(Event::CreditRetired(CreditRetired { token_id, owner: token_owner }));
        Ok(())
    }

    /// Transfers a carbon credit to another account: a PSP34 transfer that
    /// additionally reports [`CreditTransferred`].
    pub fn transfer_credit(&mut self, caller: AccountId, to: AccountId, token_id: u128) -> (result:
        Result<(), PSP34Error>)
        requires
            old(self)@.transfer_in_limits(caller, to, IdView::U128(token_id)),
        ensures
            result == old(self)@.transfer_result(caller, to, IdView::U128(token_id)),
            result is Ok ==> final(self)@ == old(self)@.credit_transferred(to, token_id),
            result is Err ==> final(self)@ == old(self)@,
            final(self)@ == old(self)@.after(
                Operation::TransferCredit { caller, to, number: token_id },
            ),
            old(self)@.well_formed() ==> final(self)@.well_formed(),
    {
        proof {
            if self@.well_formed() {
                law_calls_keep_well_formed(
                    self@,
                    Operation::TransferCredit { caller, to, number: token_id },
                );
            }
        }
        match self.transfer_token(caller, to, Id::U128(token_id)) {
            Ok(from) => {
                self.report(
                    Event::CreditTransferred(
                        CreditTransferred { from: Some(from), to: Some(to), token_id },
                    ),
                );
                Ok(())
            },
            Err(error) => Err(error),
        }
    }

    /// The metadata attached to a token, or
    /// [`CarbonCreditError::TokenNotFound`] if there is none.
    pub fn get_credit_info(&self, token_id: u128) -> (result: Result<
        CreditData,
        CarbonCreditError,
    >)
        ensures
            match result {
                Ok(credit) => self@.cells.credit_info.get(IdView::U128(token_id)) == Some(credit@),
                Err(e) => e == CarbonCreditError::TokenNotFound
                    && !self@.cells.credit_info.contains_key(IdView::U128(token_id)),
            },
    {
        match self.storage.credit_info.get(&Id::U128(token_id).to_cell()) {
            Some(cell) => Ok(CreditData::from_cell(cell)),
            None => Err(CarbonCreditError::TokenNotFound),
        }
    }

    /// All token numbers minted under the given project, oldest first; empty
    /// if there are none.
    pub fn credits_by_project(&self, project_name: String) -> (numbers: Vec<u128>)
        ensures
            numbers@ == self@.listed(project_key(project_name@)),
    {
        let key = project_name_hash(project_name.as_str());
        self.credits_under(&key)
    }

    /// All token numbers listed under a project key, oldest first.
    pub fn credits_under(&self, key: &[u8; 32]) -> (numbers: Vec<u128>)
        ensures
            numbers@ == self@.listed(key@),
    {
        match self.storage.credits_by_project.get(key) {
            Some(list) => list,
            None => Vec::new(),
        }
    }
}

// Helpers.
impl CarbonCredit {
    /// Adds `id` to `to`'s holdings and the enumerable indices.
    fn add_token_to(&mut self, to: &AccountId, id: &IdCell)
        requires
            fits(36, id_bytes(cell_id(*id))),
            old(self)@.balance(*to) < u32::MAX,
            old(self)@.total_supply < u128::MAX,
        ensures
            final(self)@ == old(self)@.with_token(*to, cell_id(*id)),
    {
        self.storage.token_owner.insert(id, to);

        let balance: u32 = match self.storage.owned_tokens_count.get(to) {
            Some(n) => n,
            None => 0,
        };
        self.storage.owned_tokens.insert(to, balance, id);
        self.storage.owned_tokens_index.insert(id, balance);
        self.storage.owned_tokens_count.insert(to, balance + 1);

        let supply: u128 = self.total_supply;
        self.storage.tokens_index.insert(supply, id);
        self.storage.tokens_index_of.insert(id, supply);
        self.total_supply = supply + 1;
    }

    /// Removes `id` from `from`'s holdings and the enumerable indices, using
    /// swap-and-pop to keep indices contiguous.
    fn remove_token_from(&mut self, from: &AccountId, id: &IdCell)
        requires
            fits(id_bytes(cell_id(*id)), 1),
        ensures
            final(self)@ == old(self)@.without_token(*from, cell_id(*id)),
    {
        let last_index: u32 = match self.storage.owned_tokens_count.get(from) {
            Some(n) => n.saturating_sub(1),
            None => 0,
        };
        let token_index: u32 = match self.storage.owned_tokens_index.get(id) {
            Some(i) => i,
            None => 0,
        };
        if token_index != last_index {
            if let Some(last_token) = self.storage.owned_tokens.get(from, last_index) {
                self.storage.owned_tokens.insert(from, token_index, &last_token);
                self.storage.owned_tokens_index.insert(&last_token, token_index);
            }
        }
        self.storage.owned_tokens.remove(from, last_index);
        self.storage.owned_tokens_index.remove(id);
        self.storage.owned_tokens_count.insert(from, last_index);

        let last_global: u128 = self.total_supply.saturating_sub(1);
        let global_index: u128 = match self.storage.tokens_index_of.get(id) {
            Some(i) => i,
            None => 0,
        };
        if global_index != last_global {
            if let Some(last_token) = self.storage.tokens_index.get(last_global) {
                self.storage.tokens_index.insert(global_index, &last_token);
                self.storage.tokens_index_of.insert(&last_token, global_index);
            }
        }
        self.storage.tokens_index.remove(last_global);
        self.storage.tokens_index_of.remove(id);
        self.total_supply = last_global;

        self.storage.token_owner.remove(id);
    }

    /// Appends an event to those not yet taken.
    fn report(&mut self, event: Event)
        ensures
            final(self)@ == old(self)@.reporting(event@),
    {
        self.events.push(event);
        assert(event_views(self.events@) =~= event_views(old(self).events@).push(event@));
    }

    /// Whether `operator` is approved for `id`, or for all of `owner`'s tokens
    /// when `id` is `None`.
    fn is_approved(&self, owner: &AccountId, operator: &AccountId, id: Option<&IdCell>) -> (yes:
        bool)
        requires
            id matches Some(i) ==> fits(id_bytes(cell_id(*i)), 1),
        ensures
            yes == self@.approved(
                *owner,
                *operator,
                match id {
                    Some(i) => Some(cell_id(*i)),
                    None => None,
                },
            ),
    {
        let for_all = self.storage.operator_approvals.contains(owner, operator);
        match id {
            None => for_all,
            Some(i) => {
                if for_all {
                    if let Some(holder) = self.storage.token_owner.get(i) {
                        if holder == *owner {
                            return true;
                        }
                    }
                }
                match self.storage.token_approvals.get(i) {
                    Some(approved) => approved == *operator,
                    None => false,
                }
            },
        }
    }

    /// Whether `caller` may move or burn `id`, owned by `token_owner`.
    fn approved_or_owner(&self, caller: &AccountId, token_owner: &AccountId, id: &IdCell) -> (yes:
        bool)
        requires
            fits(id_bytes(cell_id(*id)), 1),
        ensures
            yes == (*caller == *token_owner || self@.approved(
                *token_owner,
                *caller,
                Some(cell_id(*id)),
            )),
    {
        *caller == *token_owner || self.is_approved(token_owner, caller, Some(id))
    }

    /// Core transfer routine shared by `transfer` and `transfer_credit`; gives
    /// the previous holder.
    fn transfer_token(&mut self, caller: AccountId, to: AccountId, id: Id) -> (result: Result<
        AccountId,
        PSP34Error,
    >)
        requires
            old(self)@.transfer_in_limits(caller, to, id@),
        ensures
            match (result, old(self)@.transfer_result(caller, to, id@)) {
                (Ok(from), Ok(_)) => from == old(self)@.holder(id@),
                (Err(given), Err(error)) => given == error,
                _ => false,
            },
            result is Ok ==> final(self)@ == old(self)@.transferred(to, id@),
            result is Err ==> final(self)@ == old(self)@,
    {
        let cell = id.to_cell();
        let token_owner = match self.storage.token_owner.get(&cell) {
            Some(a) => a,
            None => {
                return Err(PSP34Error::TokenNotExists);
            },
        };
        if !self.approved_or_owner(&caller, &token_owner, &cell) {
            return Err(PSP34Error::NotApproved);
        }
        if to == token_owner {
            return Err(PSP34Error::SelfApprove);
        }
        self.storage.token_approvals.remove(&cell);

        self.remove_token_from(&token_owner, &cell);
        self.add_token_to(&to, &cell);

        self.report(
            Event::Transfer(Transfer { from: Some(token_owner), to: Some(to), id }),
        );
        Ok(token_owner)
    }
}

} // verus!
