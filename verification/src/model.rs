//! The mathematical model of the ledger: what each operation does to its
//! state, on every state.

use crate::cells::{credit_bytes, fits, id_bytes, list_bytes};
use crate::events::EventView;
use crate::tables::StorageView;
use crate::types::{AccountId, CreditView, IdView, PSP34Error};
use vstd::prelude::*;

verus! {

/// The state of the ledger.
#[verifier::ext_equal]
pub struct LedgerView {
    /// The entries of the storage tables.
    pub cells: StorageView,
    /// Number of tokens in existence.
    pub total_supply: u128,
    /// The account that may mint.
    pub owner: AccountId,
    /// Number of the next token.
    pub next_token_id: u128,
    /// Events reported and not yet taken.
    pub events: Seq<EventView>,
}

/// The slots of an enumeration after the token in slot `hole` left: the token
/// of the last slot takes its place.
pub open spec fn slots_without<K>(slots: Map<K, IdView>, hole: K, last: K) -> Map<K, IdView> {
    if hole != last && slots.contains_key(last) {
        slots.insert(hole, slots[last]).remove(last)
    } else {
        slots.remove(last)
    }
}

/// The reverse of an enumeration after token `id` left slot `hole`, the slot
/// with number `place`.
pub open spec fn places_without<K, N>(
    places: Map<IdView, N>,
    slots: Map<K, IdView>,
    hole: K,
    last: K,
    place: N,
    id: IdView,
) -> Map<IdView, N> {
    if hole != last && slots.contains_key(last) {
        places.insert(slots[last], place).remove(id)
    } else {
        places.remove(id)
    }
}

impl LedgerView {
    /// A ledger over the given tables: no supply, first token number 1.
    pub open spec fn opened(cells: StorageView, owner: AccountId) -> LedgerView {
        LedgerView { cells, total_supply: 0, owner, next_token_id: 1, events: Seq::empty() }
    }

    /// Number of tokens that `owner` holds.
    pub open spec fn balance(self, owner: AccountId) -> u32 {
        if self.cells.owned_tokens_count.contains_key(owner) {
            self.cells.owned_tokens_count[owner]
        } else {
            0
        }
    }

    /// Whether the token exists.
    pub open spec fn has_token(self, id: IdView) -> bool {
        self.cells.token_owner.contains_key(id)
    }

    /// The holder of an existing token.
    pub open spec fn holder(self, id: IdView) -> AccountId
        recommends
            self.has_token(id),
    {
        self.cells.token_owner[id]
    }

    /// Whether `operator` is approved for all tokens of `owner`.
    pub open spec fn approved_for_all(self, owner: AccountId, operator: AccountId) -> bool {
        self.cells.operator_approvals.contains((owner, operator))
    }

    /// Whether `operator` is approved to manage the token given, as an operator
    /// for all tokens of `owner`, who holds it, or for the token itself; with
    /// no token given, whether for all tokens of `owner`.
    pub open spec fn approved(
        self,
        owner: AccountId,
        operator: AccountId,
        id: Option<IdView>,
    ) -> bool {
        match id {
            None => self.approved_for_all(owner, operator),
            Some(i) => {
                ||| self.approved_for_all(owner, operator) && self.cells.token_owner.get(i) == Some(
                    owner,
                )
                ||| self.cells.token_approvals.get(i) == Some(operator)
            },
        }
    }

    /// Whether `caller` may move or burn an existing token.
    pub open spec fn may_move(self, caller: AccountId, id: IdView) -> bool
        recommends
            self.has_token(id),
    {
        ||| caller == self.holder(id)
        ||| self.approved(self.holder(id), caller, Some(id))
    }

    /// Whether `caller` may set the approval of an existing token.
    pub open spec fn may_approve(self, caller: AccountId, id: IdView) -> bool
        recommends
            self.has_token(id),
    {
        ||| caller == self.holder(id)
        ||| self.approved_for_all(self.holder(id), caller)
    }

    /// Reports an event.
    pub open spec fn reporting(self, event: EventView) -> LedgerView {
        LedgerView { events: self.events.push(event), ..self }
    }

    /// Token `id` joins the holdings of `to`, last in both enumerations.
    pub open spec fn with_token(self, to: AccountId, id: IdView) -> LedgerView {
        let count = self.balance(to);
        LedgerView {
            cells: StorageView {
                token_owner: self.cells.token_owner.insert(id, to),
                owned_tokens_count: self.cells.owned_tokens_count.insert(to, (count + 1) as u32),
                tokens_index: self.cells.tokens_index.insert(self.total_supply, id),
                tokens_index_of: self.cells.tokens_index_of.insert(id, self.total_supply),
                owned_tokens: self.cells.owned_tokens.insert((to, count), id),
                owned_tokens_index: self.cells.owned_tokens_index.insert(id, count),
                ..self.cells
            },
            total_supply: (self.total_supply + 1) as u128,
            ..self
        }
    }

    /// Index of the last token of `owner`, 0 where there is none.
    pub open spec fn last_index(self, owner: AccountId) -> u32 {
        if self.balance(owner) == 0 {
            0
        } else {
            (self.balance(owner) - 1) as u32
        }
    }

    /// Index of a token in its owner's list, 0 where it has none.
    pub open spec fn index_in_list(self, id: IdView) -> u32 {
        match self.cells.owned_tokens_index.get(id) {
            Some(i) => i,
            None => 0,
        }
    }

    /// Index of the last token overall, 0 where there is none.
    pub open spec fn last_global(self) -> u128 {
        if self.total_supply == 0 {
            0
        } else {
            (self.total_supply - 1) as u128
        }
    }

    /// Index of a token overall, 0 where it has none.
    pub open spec fn global_index(self, id: IdView) -> u128 {
        match self.cells.tokens_index_of.get(id) {
            Some(i) => i,
            None => 0,
        }
    }

    /// Token `id` leaves the holdings of `from`; the last token of each
    /// enumeration takes its place there.
    pub open spec fn without_token(self, from: AccountId, id: IdView) -> LedgerView {
        let hole = self.index_in_list(id);
        let last = self.last_index(from);
        let global_hole = self.global_index(id);
        let global_last = self.last_global();
        let cells = self.cells;
        LedgerView {
            cells: StorageView {
                token_owner: cells.token_owner.remove(id),
                owned_tokens_count: cells.owned_tokens_count.insert(from, last),
                tokens_index: slots_without(cells.tokens_index, global_hole, global_last),
                tokens_index_of: places_without(
                    cells.tokens_index_of,
                    cells.tokens_index,
                    global_hole,
                    global_last,
                    global_hole,
                    id,
                ),
                owned_tokens: slots_without(cells.owned_tokens, (from, hole), (from, last)),
                owned_tokens_index: places_without(
                    cells.owned_tokens_index,
                    cells.owned_tokens,
                    (from, hole),
                    (from, last),
                    hole,
                    id,
                ),
                ..cells
            },
            total_supply: global_last,
            ..self
        }
    }

    /// Token `id` has no approval of its own.
    pub open spec fn without_approval(self, id: IdView) -> LedgerView {
        LedgerView {
            cells: StorageView {
                token_approvals: self.cells.token_approvals.remove(id),
                ..self.cells
            },
            ..self
        }
    }

    /// The next token's identifier.
    pub open spec fn next_id(self) -> IdView {
        IdView::U128(self.next_token_id)
    }

    /// The numbers listed under a project key.
    pub open spec fn listed(self, key: Seq<u8>) -> Seq<u128> {
        match self.cells.credits_by_project.get(key) {
            Some(list) => list,
            None => Seq::empty(),
        }
    }

    /// The next token is minted to `to`, listed under `key`.
    pub open spec fn minted(self, to: AccountId, credit: CreditView, key: Seq<u8>) -> LedgerView {
        let number = self.next_token_id;
        let id = self.next_id();
        LedgerView {
            cells: StorageView {
                credit_info: self.cells.credit_info.insert(id, credit),
                credits_by_project: self.cells.credits_by_project.insert(
                    key,
                    self.listed(key).push(number),
                ),
                ..self.cells
            },
            next_token_id: (number + 1) as u128,
            ..self
        }.with_token(to, id).reporting(
            EventView::Transfer { from: None, to: Some(to), id },
        ).reporting(
            EventView::CreditMinted { token_id: number, to, project_name: credit.project_name },
        )
    }

    /// Whether a mint to `to` stays within the counters and the storage
    /// buffer.
    pub open spec fn mint_in_limits(
        self,
        to: AccountId,
        credit: CreditView,
        key: Seq<u8>,
    ) -> bool {
        &&& self.next_token_id < u128::MAX
        &&& self.total_supply < u128::MAX
        &&& self.balance(to) < u32::MAX
        &&& fits(id_bytes(self.next_id()), credit_bytes(credit))
        &&& fits(32, list_bytes(self.listed(key).len() + 1))
    }

    /// Token `number` is retired.
    pub open spec fn burned(self, number: u128) -> LedgerView {
        let id = IdView::U128(number);
        let holder = self.holder(id);
        let rest = self.without_token(holder, id).without_approval(id);
        LedgerView {
            cells: StorageView { credit_info: rest.cells.credit_info.remove(id), ..rest.cells },
            ..rest
        }.reporting(
            EventView::Transfer { from: Some(holder), to: None, id },
        ).reporting(EventView::CreditRetired { token_id: number, owner: holder })
    }

    /// Token `id` moves to `to`.
    pub open spec fn transferred(self, to: AccountId, id: IdView) -> LedgerView {
        let holder = self.holder(id);
        self.without_approval(id).without_token(holder, id).with_token(to, id).reporting(
            EventView::Transfer { from: Some(holder), to: Some(to), id },
        )
    }

    /// Token `number` moves to `to`, and the move is reported as that of a
    /// credit too.
    pub open spec fn credit_transferred(self, to: AccountId, number: u128) -> LedgerView {
        let id = IdView::U128(number);
        self.transferred(to, id).reporting(
            EventView::CreditTransferred {
                from: Some(self.holder(id)),
                to: Some(to),
                token_id: number,
            },
        )
    }

    /// Whether a transfer of `id` to `to` by `caller` stays within the
    /// counters and the storage buffer.
    pub open spec fn transfer_in_limits(
        self,
        caller: AccountId,
        to: AccountId,
        id: IdView,
    ) -> bool {
        &&& fits(id_bytes(id), 1)
        &&& self.transfer_result(caller, to, id) is Ok ==> {
            &&& fits(36, id_bytes(id))
            &&& self.balance(to) < u32::MAX
        }
    }

    /// The answer to a mint.
    pub open spec fn mint_result(self) -> Result<(), PSP34Error> {
        if self.has_token(self.next_id()) {
            Err(PSP34Error::TokenExists)
        } else {
            Ok(())
        }
    }

    /// The answer to `caller` burning a token.
    pub open spec fn burn_result(self, caller: AccountId, id: IdView) -> Result<(), PSP34Error> {
        if !self.has_token(id) {
            Err(PSP34Error::TokenNotExists)
        } else if !self.may_move(caller, id) {
            Err(PSP34Error::NotApproved)
        } else {
            Ok(())
        }
    }

    /// The answer to `caller` transferring a token to `to`: a token cannot be
    /// transferred to its own holder.
    pub open spec fn transfer_result(
        self,
        caller: AccountId,
        to: AccountId,
        id: IdView,
    ) -> Result<(), PSP34Error> {
        if !self.has_token(id) {
            Err(PSP34Error::TokenNotExists)
        } else if !self.may_move(caller, id) {
            Err(PSP34Error::NotApproved)
        } else if to == self.holder(id) {
            Err(PSP34Error::SelfApprove)
        } else {
            Ok(())
        }
    }

    /// The answer to `caller` granting or revoking an approval.
    pub open spec fn approve_result(
        self,
        caller: AccountId,
        operator: AccountId,
        id: Option<IdView>,
    ) -> Result<(), PSP34Error> {
        if caller == operator {
            Err(PSP34Error::SelfApprove)
        } else {
            match id {
                None => Ok(()),
                Some(i) => if !self.has_token(i) {
                    Err(PSP34Error::TokenNotExists)
                } else if !self.may_approve(caller, i) {
                    Err(PSP34Error::NotApproved)
                } else {
                    Ok(())
                },
            }
        }
    }

    /// `caller` grants or revokes an approval.
    pub open spec fn approving(
        self,
        caller: AccountId,
        operator: AccountId,
        id: Option<IdView>,
        approved: bool,
    ) -> LedgerView {
        let cells = self.cells;
        let pair = (caller, operator);
        LedgerView {
            cells: match (id, approved) {
                (Some(i), true) => StorageView {
                    token_approvals: cells.token_approvals.insert(i, operator),
                    ..cells
                },
                (Some(i), false) => StorageView {
                    token_approvals: cells.token_approvals.remove(i),
                    ..cells
                },
                (None, true) => StorageView {
                    operator_approvals: cells.operator_approvals.insert(pair),
                    ..cells
                },
                (None, false) => StorageView {
                    operator_approvals: cells.operator_approvals.remove(pair),
                    ..cells
                },
            },
            ..self
        }.reporting(
            EventView::Approval {
                owner: match id {
                    Some(i) => self.holder(i),
                    None => caller,
                },
                operator,
                id,
                approved,
            },
        )
    }

    /// Whether an approval by `caller` stays within the storage buffer.
    pub open spec fn approve_in_limits(
        self,
        caller: AccountId,
        operator: AccountId,
        id: Option<IdView>,
        approved: bool,
    ) -> bool {
        id matches Some(i) ==> caller != operator ==> {
            &&& fits(id_bytes(i), 1)
            &&& self.has_token(i) && self.may_approve(caller, i) && approved ==> fits(
                id_bytes(i),
                32,
            )
        }
    }
}

} // verus!
