//! The laws of the ledger.

use crate::cells::{
    cell_credit, cell_credit_option, cell_id, cell_id_option, credit_bytes, fits, flag_project,
    flags_standard, id_bytes, list_bytes, CreditCell, IdCell, BUFFER_BYTES, MAX_PROJECT_CREDITS,
};
use crate::events::{event_views, Event, EventView};
use crate::hash::{blake2x256_digest, project_key};
use crate::history::Operation;
use crate::model::LedgerView;
use crate::tables::{
    credit_info, list_option, operator_approvals, owned_counts, owned_index, owned_tokens,
    project_credits, token_approvals, token_index, token_index_of, token_owners, Storage,
    StorageView,
};
use crate::types::{
    id_option, AccountId, CreditData, CreditStandard, CreditView, Id, IdView, PSP34Error,
    ProjectType,
};
use crate::wellformed::{
    lemma_approving_well_formed, lemma_burned_well_formed, lemma_minted_well_formed,
    lemma_same_tokens, lemma_transferred_well_formed, swap_removed,
};
use vstd::prelude::*;
use vstd::std_specs::cmp::PartialEqSpec;
use vstd::utf8::encode_utf8;

verus! {

/// The ledger of a new contract is well formed and empty.
pub proof fn law_new_ledger_is_well_formed(owner: AccountId)
    ensures
        LedgerView::opened(StorageView::unwritten(), owner).well_formed(),
        LedgerView::opened(StorageView::unwritten(), owner).token_list() == Seq::<IdView>::empty(),
        forall|o: AccountId|
            LedgerView::opened(StorageView::unwritten(), owner).balance(o) == 0,
{
    let s = LedgerView::opened(StorageView::unwritten(), owner);
    assert(s.token_list() =~= Seq::<IdView>::empty());
}

/// Every call keeps the ledger well formed.
pub proof fn law_calls_keep_well_formed(s: LedgerView, op: Operation)
    requires
        s.well_formed(),
        s.accepts(op),
    ensures
        s.after(op).well_formed(),
{
    let t = s.after(op);
    match op {
        Operation::Mint { caller, to, credit } => {
            assert(!s.has_token(s.next_id()));
            lemma_minted_well_formed(s, to, credit);
        },
        Operation::Burn { caller, number } => {
            if s.burn_result(caller, IdView::U128(number)) is Ok {
                lemma_burned_well_formed(s, number);
            }
        },
        Operation::Transfer { caller, to, id } => {
            if s.transfer_result(caller, to, id) is Ok {
                lemma_transferred_well_formed(s, to, id);
            }
        },
        Operation::TransferCredit { caller, to, number } => {
            let id = IdView::U128(number);
            if s.transfer_result(caller, to, id) is Ok {
                lemma_transferred_well_formed(s, to, id);
                let u = s.transferred(to, id);
                assert forall|x: IdView| #[trigger]
                    t.cells.token_approvals.contains_key(x) implies u.has_token(x) by {
                    assert(u.cells.token_approvals.contains_key(x));
                }
                lemma_same_tokens(u, t);
            }
        },
        Operation::Approve { caller, operator, id, approved } => {
            if s.approve_result(caller, operator, id) is Ok {
                lemma_approving_well_formed(s, caller, operator, id, approved);
            }
        },
        Operation::TransferOwnership { caller, new_owner } => {
            lemma_same_tokens(s, t);
        },
        Operation::TakeEvents => {
            lemma_same_tokens(s, t);
        },
    }
}

/// The ledger is well formed after any sequence of calls.
pub proof fn law_histories_keep_well_formed(s: LedgerView, ops: Seq<Operation>)
    requires
        s.well_formed(),
        s.accepts_all(ops),
    ensures
        s.run(ops).well_formed(),
    decreases ops.len(),
{
    if ops.len() > 0 {
        law_histories_keep_well_formed(s, ops.drop_last());
        law_calls_keep_well_formed(s.run(ops.drop_last()), ops.last());
    }
}

/// The tokens that `owner` holds.
pub open spec fn holdings(s: LedgerView, owner: AccountId) -> Set<IdView> {
    s.cells.token_owner.dom().filter(|id: IdView| s.holder(id) == owner)
}

/// Number of tokens that the accounts of a finite set hold together.
pub open spec fn sum_of_balances(s: LedgerView, accounts: Set<AccountId>) -> nat
    decreases accounts.len(),
    when accounts.finite()
{
    if accounts.len() == 0 {
        0
    } else {
        let a = accounts.choose();
        s.balance(a) as nat + sum_of_balances(s, accounts.remove(a))
    }
}

/// The view of an identifier keeps its variant and its number or bytes, so two
/// have the same view exactly if they agree in these.
pub proof fn law_id_view_tells_apart(a: Id, b: Id)
    ensures
        match a {
            Id::U8(n) => a@ == IdView::U8(n),
            Id::U16(n) => a@ == IdView::U16(n),
            Id::U32(n) => a@ == IdView::U32(n),
            Id::U64(n) => a@ == IdView::U64(n),
            Id::U128(n) => a@ == IdView::U128(n),
            Id::Bytes(n) => a@ == IdView::Bytes(n@),
        },
        a@ == b@ <==> match (a, b) {
            (Id::U8(m), Id::U8(n)) => m == n,
            (Id::U16(m), Id::U16(n)) => m == n,
            (Id::U32(m), Id::U32(n)) => m == n,
            (Id::U64(m), Id::U64(n)) => m == n,
            (Id::U128(m), Id::U128(n)) => m == n,
            (Id::Bytes(m), Id::Bytes(n)) => m@ == n@,
            _ => false,
        },
{
}

/// The enumerations have no gaps: there is a token at exactly the indices
/// below the total supply, and for each owner at exactly the indices below the
/// balance.
pub proof fn law_enumerations_are_contiguous(s: LedgerView, owner: AccountId, i: u32, j: u128)
    requires
        s.well_formed(),
    ensures
        s.cells.tokens_index.get(j) is Some <==> j < s.total_supply,
        s.cells.owned_tokens.get((owner, i)) is Some <==> i < s.balance(owner),
{
    assert(s.cells.tokens_index.contains_key(j) <==> j < s.total_supply);
    assert(s.cells.owned_tokens.contains_key((owner, i)) <==> i < s.balance(owner));
}

/// The global enumeration lists every token exactly once, so the total supply
/// is the number of tokens.
pub proof fn law_supply_counts_tokens(s: LedgerView)
    requires
        s.well_formed(),
    ensures
        s.token_list().no_duplicates(),
        s.token_list().to_set() == s.cells.token_owner.dom(),
        s.cells.token_owner.dom().finite(),
        s.total_supply == s.cells.token_owner.dom().len(),
{
    let list = s.token_list();
    assert forall|i: int, j: int| 0 <= i < list.len() && 0 <= j < list.len() && i
        != j implies list[i] != list[j] by {
        assert(s.cells.tokens_index.contains_key(i as u128));
        assert(s.cells.tokens_index.contains_key(j as u128));
    }
    assert forall|id: IdView| #[trigger]
        list.to_set().contains(id) <==> s.cells.token_owner.dom().contains(id) by {
        if s.has_token(id) {
            let i = s.cells.tokens_index_of[id];
            assert(s.cells.tokens_index.contains_key(i));
            assert(list[i as int] == id);
        }
        if list.to_set().contains(id) {
            let i = choose|i: int| 0 <= i < list.len() && list[i] == id;
            assert(s.cells.tokens_index.contains_key(i as u128));
        }
    }
    assert(list.to_set() =~= s.cells.token_owner.dom());
    list.unique_seq_to_set();
}

/// An owner's enumeration lists every token of the owner exactly once, so the
/// balance is the number of tokens held.
pub proof fn law_balance_counts_tokens(s: LedgerView, owner: AccountId)
    requires
        s.well_formed(),
    ensures
        s.owner_list(owner).no_duplicates(),
        s.owner_list(owner).to_set() == holdings(s, owner),
        holdings(s, owner).finite(),
        s.balance(owner) == holdings(s, owner).len(),
{
    let list = s.owner_list(owner);
    assert forall|i: int, j: int| 0 <= i < list.len() && 0 <= j < list.len() && i
        != j implies list[i] != list[j] by {
        assert(s.cells.owned_tokens.contains_key((owner, i as u32)));
        assert(s.cells.owned_tokens.contains_key((owner, j as u32)));
    }
    assert forall|id: IdView| list.to_set().contains(id) <==> holdings(s, owner).contains(id) by {
        if holdings(s, owner).contains(id) {
            assert(s.has_token(id));
            let i = s.cells.owned_tokens_index[id];
            assert(s.cells.owned_tokens.contains_key((owner, i)));
            assert(list[i as int] == id);
        }
        if list.to_set().contains(id) {
            let i = choose|i: int| 0 <= i < list.len() && list[i] == id;
            assert(s.cells.owned_tokens.contains_key((owner, i as u32)));
        }
    }
    assert(list.to_set() =~= holdings(s, owner));
    list.unique_seq_to_set();
}

/// The balances of any accounts add up to the number of tokens that these
/// accounts hold.
proof fn lemma_balances_count_tokens(s: LedgerView, accounts: Set<AccountId>)
    requires
        s.well_formed(),
        accounts.finite(),
    ensures
        ({
            let held = s.cells.token_owner.dom().filter(
                |id: IdView| accounts.contains(s.holder(id)),
            );
            &&& held.finite()
            &&& held.len() == sum_of_balances(s, accounts)
        }),
    decreases accounts.len(),
{
    let all = s.cells.token_owner.dom();
    let held = all.filter(|id: IdView| accounts.contains(s.holder(id)));
    law_supply_counts_tokens(s);
    if accounts.len() == 0 {
        assert(accounts =~= Set::empty());
        assert(held =~= Set::empty());
    } else {
        let a = accounts.choose();
        let rest = accounts.remove(a);
        let held_by_rest = all.filter(|id: IdView| rest.contains(s.holder(id)));
        lemma_balances_count_tokens(s, rest);
        law_balance_counts_tokens(s, a);
        assert(held =~= holdings(s, a).union(held_by_rest));
        assert(holdings(s, a).disjoint(held_by_rest));
        vstd::set_lib::lemma_set_disjoint_lens(holdings(s, a), held_by_rest);
    }
}

/// The balances of all holders add up to the total supply.
pub proof fn law_balances_add_up_to_supply(s: LedgerView, accounts: Set<AccountId>)
    requires
        s.well_formed(),
        accounts.finite(),
        forall|id: IdView| #[trigger] s.has_token(id) ==> accounts.contains(s.holder(id)),
    ensures
        sum_of_balances(s, accounts) == s.total_supply,
{
    law_supply_counts_tokens(s);
    lemma_balances_count_tokens(s, accounts);
    let all = s.cells.token_owner.dom();
    let held = all.filter(|id: IdView| accounts.contains(s.holder(id)));
    assert forall|id: IdView| all.contains(id) implies held.contains(id) by {
        assert(s.has_token(id));
    }
    assert(held =~= all);
}

/// Number 0 is never a token.
pub proof fn law_number_zero_is_never_a_token(s: LedgerView)
    requires
        s.well_formed(),
    ensures
        !s.has_token(IdView::U128(0)),
{
}

/// A mint by the owner within the limits succeeds: the token gets the next
/// number, belongs to the recipient and is last in both enumerations; its
/// metadata is what was given; its number joins the project's list; every
/// other token, balance, list and approval stays.
pub proof fn law_mint(s: LedgerView, caller: AccountId, to: AccountId, credit: CreditView)
    requires
        s.well_formed(),
        s.accepts(Operation::Mint { caller, to, credit }),
    ensures
        s.mint_result() is Ok,
        ({
            let t = s.after(Operation::Mint { caller, to, credit });
            let id = s.next_id();
            &&& t.next_token_id == s.next_token_id + 1
            &&& t.total_supply == s.total_supply + 1
            &&& t.balance(to) == s.balance(to) + 1
            &&& t.owner_list(to) == s.owner_list(to).push(id)
            &&& t.token_list() == s.token_list().push(id)
            &&& forall|o: AccountId|
                o != to ==> t.balance(o) == s.balance(o) && #[trigger] t.owner_list(o)
                    == s.owner_list(o)
            &&& t.cells.token_owner == s.cells.token_owner.insert(id, to)
            &&& t.cells.credit_info == s.cells.credit_info.insert(id, credit)
            &&& t.listed(project_key(credit.project_name)) == s.listed(
                project_key(credit.project_name),
            ).push(s.next_token_id)
            &&& forall|key: Seq<u8>|
                key != project_key(credit.project_name) ==> #[trigger] t.listed(key) == s.listed(
                    key,
                )
            &&& t.cells.token_approvals == s.cells.token_approvals
            &&& t.cells.operator_approvals == s.cells.operator_approvals
            &&& t.owner == s.owner
        }),
{
    let t = s.after(Operation::Mint { caller, to, credit });
    let id = s.next_id();
    assert(!s.has_token(id));
    assert(t.owner_list(to) =~= s.owner_list(to).push(id));
    assert(t.token_list() =~= s.token_list().push(id));
    assert forall|o: AccountId| o != to implies t.balance(o) == s.balance(o)
        && #[trigger] t.owner_list(o) == s.owner_list(o) by {
        assert(t.owner_list(o) =~= s.owner_list(o));
    }
}

/// A burn by an authorised caller removes the token, its approval and its
/// metadata; in both enumerations the last token takes its place; every other
/// token keeps holder, metadata and approval, and the project lists stay.
pub proof fn law_burn(s: LedgerView, caller: AccountId, number: u128)
    requires
        s.well_formed(),
        s.burn_result(caller, IdView::U128(number)) is Ok,
    ensures
        ({
            let t = s.after(Operation::Burn { caller, number });
            let id = IdView::U128(number);
            let from = s.holder(id);
            &&& t.total_supply == s.total_supply - 1
            &&& t.balance(from) == s.balance(from) - 1
            &&& t.owner_list(from) == swap_removed(
                s.owner_list(from),
                s.cells.owned_tokens_index[id] as int,
            )
            &&& s.owner_list(from)[s.cells.owned_tokens_index[id] as int] == id
            &&& t.token_list() == swap_removed(
                s.token_list(),
                s.cells.tokens_index_of[id] as int,
            )
            &&& s.token_list()[s.cells.tokens_index_of[id] as int] == id
            &&& forall|o: AccountId|
                o != from ==> t.balance(o) == s.balance(o) && #[trigger] t.owner_list(o)
                    == s.owner_list(o)
            &&& t.cells.token_owner == s.cells.token_owner.remove(id)
            &&& t.cells.credit_info == s.cells.credit_info.remove(id)
            &&& t.cells.token_approvals == s.cells.token_approvals.remove(id)
            &&& t.cells.operator_approvals == s.cells.operator_approvals
            &&& t.cells.credits_by_project == s.cells.credits_by_project
            &&& t.next_token_id == s.next_token_id
            &&& t.owner == s.owner
        }),
{
    let t = s.after(Operation::Burn { caller, number });
    let id = IdView::U128(number);
    let from = s.holder(id);
    lemma_token_slots(s, id);
    lemma_lists_without_token(s, id);
    let u = s.without_token(from, id);
    assert(t.owner_list(from) =~= u.owner_list(from));
    assert(t.token_list() =~= u.token_list());
    assert forall|o: AccountId| o != from implies t.balance(o) == s.balance(o)
        && #[trigger] t.owner_list(o) == s.owner_list(o) by {
        assert(u.owner_list(o) == s.owner_list(o));
        assert(t.owner_list(o) =~= u.owner_list(o));
    }
}

/// A token stands in its owner's slot and in its global slot.
proof fn lemma_token_slots(s: LedgerView, id: IdView)
    requires
        s.enumerated(),
        s.has_token(id),
    ensures
        s.cells.owned_tokens_index.contains_key(id),
        s.cells.tokens_index_of.contains_key(id),
        s.cells.owned_tokens_index[id] < s.balance(s.holder(id)),
        s.cells.tokens_index_of[id] < s.total_supply,
        s.cells.owned_tokens[(s.holder(id), s.cells.owned_tokens_index[id])] == id,
        s.cells.tokens_index[s.cells.tokens_index_of[id]] == id,
{
    assert(s.cells.owned_tokens.contains_key((s.holder(id), s.cells.owned_tokens_index[id])));
    assert(s.cells.tokens_index.contains_key(s.cells.tokens_index_of[id]));
    assert(s.cells.owned_tokens_index.contains_key(id));
    assert(s.cells.tokens_index_of.contains_key(id));
}

/// The lists after a token left.
proof fn lemma_lists_without_token(s: LedgerView, id: IdView)
    requires
        s.enumerated(),
        s.has_token(id),
    ensures
        ({
            let from = s.holder(id);
            let t = s.without_token(from, id);
            &&& t.total_supply == s.total_supply - 1
            &&& t.balance(from) == s.balance(from) - 1
            &&& t.owner_list(from) == swap_removed(
                s.owner_list(from),
                s.cells.owned_tokens_index[id] as int,
            )
            &&& t.token_list() == swap_removed(
                s.token_list(),
                s.cells.tokens_index_of[id] as int,
            )
            &&& forall|o: AccountId|
                o != from ==> t.balance(o) == s.balance(o) && #[trigger] t.owner_list(o)
                    == s.owner_list(o)
        }),
{
    let from = s.holder(id);
    let t = s.without_token(from, id);
    lemma_token_slots(s, id);
    assert(s.cells.owned_tokens.contains_key((from, s.last_index(from))));
    assert(s.cells.tokens_index.contains_key(s.last_global()));
    assert(t.owner_list(from) =~= swap_removed(
        s.owner_list(from),
        s.cells.owned_tokens_index[id] as int,
    ));
    assert(t.token_list() =~= swap_removed(s.token_list(), s.cells.tokens_index_of[id] as int));
    assert forall|o: AccountId| o != from implies t.balance(o) == s.balance(o)
        && #[trigger] t.owner_list(o) == s.owner_list(o) by {
        assert(t.owner_list(o) =~= s.owner_list(o));
    }
}

/// A transfer by an authorised caller moves the token to the recipient, where
/// it is last in the recipient's list and in the global one, and ends its
/// approval; supply, metadata, project lists and every other token stay.
pub proof fn law_transfer(s: LedgerView, caller: AccountId, to: AccountId, id: IdView)
    requires
        s.well_formed(),
        s.accepts(Operation::Transfer { caller, to, id }),
        s.transfer_result(caller, to, id) is Ok,
    ensures
        ({
            let t = s.after(Operation::Transfer { caller, to, id });
            let from = s.holder(id);
            &&& t.cells.token_owner == s.cells.token_owner.insert(id, to)
            &&& t.total_supply == s.total_supply
            &&& t.token_list() == swap_removed(
                s.token_list(),
                s.cells.tokens_index_of[id] as int,
            ).push(id)
            &&& from != to
            &&& t.balance(from) == s.balance(from) - 1
            &&& t.balance(to) == s.balance(to) + 1
            &&& t.owner_list(from) == swap_removed(
                s.owner_list(from),
                s.cells.owned_tokens_index[id] as int,
            )
            &&& t.owner_list(to) == s.owner_list(to).push(id)
            &&& forall|o: AccountId|
                o != from && o != to ==> t.balance(o) == s.balance(o) && #[trigger] t.owner_list(o)
                    == s.owner_list(o)
            &&& t.cells.token_approvals == s.cells.token_approvals.remove(id)
            &&& t.cells.operator_approvals == s.cells.operator_approvals
            &&& t.cells.credit_info == s.cells.credit_info
            &&& t.cells.credits_by_project == s.cells.credits_by_project
            &&& t.next_token_id == s.next_token_id
            &&& t.owner == s.owner
        }),
{
    let t = s.after(Operation::Transfer { caller, to, id });
    let from = s.holder(id);
    let r = s.without_approval(id);
    assert(r.enumerated()) by {
        assert forall|x: IdView| r.has_token(x) == s.has_token(x) by {}
    }
    lemma_token_slots(r, id);
    lemma_lists_without_token(r, id);
    let u = r.without_token(from, id);
    assert forall|o: AccountId| #[trigger] r.owner_list(o) == s.owner_list(o) by {
        assert(r.owner_list(o) =~= s.owner_list(o));
    }
    assert(r.token_list() =~= s.token_list());
    assert(t.owner_list(to) =~= u.owner_list(to).push(id));
    assert(t.token_list() =~= u.token_list().push(id));
    assert forall|o: AccountId| o != to implies t.balance(o) == u.balance(o)
        && #[trigger] t.owner_list(o) == u.owner_list(o) by {
        assert(t.owner_list(o) =~= u.owner_list(o));
    }
    assert(t.cells.token_owner =~= s.cells.token_owner.insert(id, to));
}

/// `transfer_credit` does what `transfer` does, and reports one event more.
pub proof fn law_credit_transfer_is_a_transfer(
    s: LedgerView,
    caller: AccountId,
    to: AccountId,
    number: u128,
)
    ensures
        ({
            let id = IdView::U128(number);
            let t = s.after(Operation::TransferCredit { caller, to, number });
            let u = s.after(Operation::Transfer { caller, to, id });
            &&& t == (LedgerView { events: t.events, ..u })
            &&& s.transfer_result(caller, to, id) is Ok ==> t.events == u.events.push(
                EventView::CreditTransferred {
                    from: Some(s.holder(id)),
                    to: Some(to),
                    token_id: number,
                },
            )
        }),
{
}

/// A token cannot be transferred to its own holder, whoever asks: the call is
/// refused and changes nothing.
pub proof fn law_self_transfer_is_refused(s: LedgerView, caller: AccountId, id: IdView)
    requires
        s.has_token(id),
        s.may_move(caller, id),
    ensures
        s.transfer_result(caller, s.holder(id), id) == Err::<(), PSP34Error>(
            PSP34Error::SelfApprove,
        ),
        s.after(Operation::Transfer { caller, to: s.holder(id), id }) == s,
{
}

/// An account other than the holder that is approved to manage a token,
/// whichever owner is asked about, may move it; and of those that may move it
/// all but the holder are approved when the holder is asked about.
pub proof fn law_allowance_tells_who_may_move(
    s: LedgerView,
    owner: AccountId,
    operator: AccountId,
    id: IdView,
)
    requires
        s.has_token(id),
    ensures
        s.approved(owner, operator, Some(id)) ==> s.may_move(operator, id),
        s.may_move(operator, id) <==> operator == s.holder(id) || s.approved(
            s.holder(id),
            operator,
            Some(id),
        ),
{
}

/// An operator for all tokens of an account manages every token that the
/// account holds.
pub proof fn law_operator_for_all_manages_every_token(
    s: LedgerView,
    owner: AccountId,
    operator: AccountId,
    id: IdView,
)
    requires
        s.approved(owner, operator, None),
        s.cells.token_owner.get(id) == Some(owner),
    ensures
        s.approved(owner, operator, Some(id)),
        s.burn_result(operator, id) is Ok,
        s.may_approve(operator, id),
{
}

/// After an approval that was granted the operator may manage the token, or
/// all of the caller's tokens; after one that was revoked the token, or the
/// pair, has no approval. Nothing else changes but the reported event.
pub proof fn law_approve(
    s: LedgerView,
    caller: AccountId,
    operator: AccountId,
    id: Option<IdView>,
    approved: bool,
)
    requires
        s.approve_result(caller, operator, id) is Ok,
    ensures
        ({
            let t = s.after(Operation::Approve { caller, operator, id, approved });
            &&& approved ==> match id {
                Some(i) => t.may_move(operator, i) && forall|o: AccountId|
                    t.approved(o, operator, id),
                None => t.approved(caller, operator, None) && forall|i: IdView|
                    t.has_token(i) && t.holder(i) == caller ==> t.approved(
                        caller,
                        operator,
                        Some(i),
                    ),
            }
            &&& !approved ==> match id {
                Some(i) => !t.cells.token_approvals.contains_key(i),
                None => !t.approved(caller, operator, None),
            }
            &&& t.cells.token_owner == s.cells.token_owner
            &&& t.cells.credit_info == s.cells.credit_info
            &&& t.cells.credits_by_project == s.cells.credits_by_project
            &&& forall|o: AccountId| t.balance(o) == s.balance(o)
            &&& forall|o: AccountId| #[trigger] t.owner_list(o) == s.owner_list(o)
            &&& t.token_list() == s.token_list()
            &&& forall|o: AccountId, p: AccountId, j: IdView|
                id != Some(j) && (id is Some || (o, p) != (caller, operator)) ==> t.approved(
                    o,
                    p,
                    Some(j),
                ) == s.approved(o, p, Some(j))
            &&& forall|o: AccountId, p: AccountId|
                id is Some || (o, p) != (caller, operator) ==> t.approved(o, p, None)
                    == s.approved(o, p, None)
        }),
{
    let t = s.after(Operation::Approve { caller, operator, id, approved });
    assert forall|o: AccountId| #[trigger] t.owner_list(o) == s.owner_list(o) by {
        assert(t.owner_list(o) =~= s.owner_list(o));
    }
    assert(t.token_list() =~= s.token_list());
}

/// An account cannot approve itself.
pub proof fn law_self_approval_is_refused(s: LedgerView, caller: AccountId, id: Option<IdView>)
    ensures
        s.approve_result(caller, caller, id) == Err::<(), PSP34Error>(PSP34Error::SelfApprove),
{
}

/// Revoking an approval right after granting it gives back the approvals from
/// before, where there was none.
pub proof fn law_revoking_undoes_granting(
    s: LedgerView,
    caller: AccountId,
    operator: AccountId,
    id: Option<IdView>,
)
    requires
        s.approve_result(caller, operator, id) is Ok,
        match id {
            Some(i) => !s.cells.token_approvals.contains_key(i),
            None => !s.approved_for_all(caller, operator),
        },
    ensures
        ({
            let t = s.after(Operation::Approve { caller, operator, id, approved: true });
            let u = t.after(Operation::Approve { caller, operator, id, approved: false });
            u.cells == s.cells
        }),
{
    let t = s.after(Operation::Approve { caller, operator, id, approved: true });
    let u = t.after(Operation::Approve { caller, operator, id, approved: false });
    assert(u.cells =~= s.cells);
}

/// The holder of a token is always authorised to burn it and to transfer it to
/// another account.
pub proof fn law_holder_may_move(s: LedgerView, to: AccountId, id: IdView)
    requires
        s.has_token(id),
    ensures
        s.burn_result(s.holder(id), id) is Ok,
        to != s.holder(id) ==> s.transfer_result(s.holder(id), to, id) is Ok,
{
}

/// A transfer there and back gives back holders, balances, supply and
/// metadata. In between the former holder may not move the token, unless the
/// new one made them an operator for all tokens.
pub proof fn law_transfer_back_restores_holdings(
    s: LedgerView,
    caller: AccountId,
    to: AccountId,
    id: IdView,
)
    requires
        s.well_formed(),
        s.transfer_result(caller, to, id) is Ok,
        s.accepts(Operation::Transfer { caller, to, id }),
    ensures
        ({
            let from = s.holder(id);
            let t = s.after(Operation::Transfer { caller, to, id });
            let back = Operation::Transfer { caller: to, to: from, id };
            let u = t.after(back);
            &&& !t.approved_for_all(to, from) ==> forall|o: AccountId| #[trigger]
                t.transfer_result(from, o, id) == Err::<(), PSP34Error>(PSP34Error::NotApproved)
            &&& t.transfer_result(to, from, id) is Ok
            &&& t.accepts(back)
            &&& u.cells.token_owner == s.cells.token_owner
            &&& u.cells.credit_info == s.cells.credit_info
            &&& u.total_supply == s.total_supply
            &&& forall|o: AccountId| u.balance(o) == s.balance(o)
        }),
{
    let from = s.holder(id);
    let there = Operation::Transfer { caller, to, id };
    let back = Operation::Transfer { caller: to, to: from, id };
    let t = s.after(there);
    let u = t.after(back);
    law_transfer(s, caller, to, id);
    law_calls_keep_well_formed(s, there);
    lemma_token_slots(s, id);
    assert(t.has_token(id));
    assert(t.holder(id) == to);
    law_transfer(t, to, from, id);
    assert(u.cells.token_owner =~= s.cells.token_owner);
    assert forall|o: AccountId| u.balance(o) == s.balance(o) by {
        assert(t.owner_list(o).len() == t.balance(o));
        assert(u.owner_list(o).len() == u.balance(o));
        if o != from && o != to {
            assert(t.owner_list(o) == s.owner_list(o));
            assert(u.owner_list(o) == t.owner_list(o));
        }
    }
}

/// A token that joins and leaves again leaves holders, balances, supply and
/// both enumerations as they were.
pub proof fn law_leaving_undoes_joining(s: LedgerView, to: AccountId, id: IdView)
    requires
        s.well_formed(),
        !s.has_token(id),
        s.balance(to) < u32::MAX,
        s.total_supply < u128::MAX,
    ensures
        ({
            let u = s.with_token(to, id).without_token(to, id);
            &&& u.cells.token_owner == s.cells.token_owner
            &&& forall|o: AccountId| u.balance(o) == s.balance(o)
            &&& u.total_supply == s.total_supply
            &&& u.cells.tokens_index == s.cells.tokens_index
            &&& u.cells.tokens_index_of == s.cells.tokens_index_of
            &&& u.cells.owned_tokens == s.cells.owned_tokens
            &&& u.cells.owned_tokens_index == s.cells.owned_tokens_index
        }),
{
    let u = s.with_token(to, id).without_token(to, id);
    assert(!s.cells.tokens_index.contains_key(s.total_supply));
    assert(!s.cells.owned_tokens.contains_key((to, s.balance(to))));
    assert(!s.cells.tokens_index_of.contains_key(id));
    assert(!s.cells.owned_tokens_index.contains_key(id));
    assert(u.cells.token_owner =~= s.cells.token_owner);
    assert(u.cells.tokens_index =~= s.cells.tokens_index);
    assert(u.cells.tokens_index_of =~= s.cells.tokens_index_of);
    assert(u.cells.owned_tokens =~= s.cells.owned_tokens);
    assert(u.cells.owned_tokens_index =~= s.cells.owned_tokens_index);
}

/// A token changes hands, or ceases to exist, only by a call of its holder or
/// of an approved operator that names it.
pub proof fn law_tokens_move_only_by_authority(s: LedgerView, op: Operation, id: IdView)
    requires
        s.well_formed(),
        s.accepts(op),
        s.has_token(id),
        !s.after(op).has_token(id) || s.after(op).holder(id) != s.holder(id),
    ensures
        match op {
            Operation::Burn { caller, number } => id == IdView::U128(number) && s.may_move(
                caller,
                id,
            ),
            Operation::Transfer { caller, to, id: moved } => id == moved && s.may_move(caller, id)
                && s.after(op).has_token(id) && s.after(op).holder(id) == to,
            Operation::TransferCredit { caller, to, number } => id == IdView::U128(number)
                && s.may_move(caller, id) && s.after(op).has_token(id) && s.after(op).holder(id)
                == to,
            _ => false,
        },
{
}

/// A token comes into existence only by a mint of the contract's owner, with
/// the next number.
pub proof fn law_only_the_owner_mints(s: LedgerView, op: Operation, id: IdView)
    requires
        s.well_formed(),
        s.accepts(op),
        !s.has_token(id),
        s.after(op).has_token(id),
    ensures
        op matches Operation::Mint { caller, to, credit } && caller == s.owner && id == s.next_id(),
{
}

/// The contract changes its owner only by a call of the owner.
pub proof fn law_only_the_owner_hands_over(s: LedgerView, op: Operation)
    requires
        s.accepts(op),
        s.after(op).owner != s.owner,
    ensures
        op matches Operation::TransferOwnership { caller, new_owner } && caller == s.owner
            && s.after(op).owner == new_owner,
{
}

/// Reported events stay, in order, until they are taken: every other call only
/// adds to them.
pub proof fn law_events_are_kept(s: LedgerView, op: Operation)
    requires
        !(op is TakeEvents),
    ensures
        s.events.is_prefix_of(s.after(op).events),
{
}

/// Once the contract is handed over, its former owner may neither mint nor
/// hand it over again.
pub proof fn law_former_owner_has_no_say(
    s: LedgerView,
    new_owner: AccountId,
    to: AccountId,
    credit: CreditView,
)
    requires
        new_owner != s.owner,
    ensures
        ({
            let former = s.owner;
            let t = s.after(Operation::TransferOwnership { caller: former, new_owner });
            &&& !t.accepts(Operation::Mint { caller: former, to, credit })
            &&& !t.accepts(Operation::TransferOwnership { caller: former, new_owner: former })
        }),
{
}

/// A token keeps its metadata as long as it exists.
pub proof fn law_metadata_never_changes(s: LedgerView, op: Operation, id: IdView)
    requires
        s.well_formed(),
        s.accepts(op),
        s.has_token(id),
        s.after(op).has_token(id),
    ensures
        s.after(op).cells.credit_info.get(id) == s.cells.credit_info.get(id),
        s.cells.credit_info.contains_key(id),
{
    assert(s.cells.credit_info.contains_key(id) <==> s.has_token(id));
}

/// Numbers are given out in order: the next number never goes back.
pub proof fn law_numbers_only_grow(s: LedgerView, ops: Seq<Operation>)
    requires
        s.well_formed(),
        s.accepts_all(ops),
    ensures
        s.next_token_id <= s.run(ops).next_token_id,
    decreases ops.len(),
{
    if ops.len() > 0 {
        law_numbers_only_grow(s, ops.drop_last());
        law_histories_keep_well_formed(s, ops.drop_last());
    }
}

/// Retirement is permanent: a number that was given out and is no token is
/// never a token again, whatever calls follow.
pub proof fn law_retirement_is_permanent(s: LedgerView, ops: Seq<Operation>, number: u128)
    requires
        s.well_formed(),
        s.accepts_all(ops),
        1 <= number < s.next_token_id,
        !s.has_token(IdView::U128(number)),
    ensures
        !s.run(ops).has_token(IdView::U128(number)),
        !s.run(ops).cells.credit_info.contains_key(IdView::U128(number)),
    decreases ops.len(),
{
    let id = IdView::U128(number);
    law_histories_keep_well_formed(s, ops);
    if ops.len() > 0 {
        law_retirement_is_permanent(s, ops.drop_last(), number);
        law_numbers_only_grow(s, ops.drop_last());
        law_histories_keep_well_formed(s, ops.drop_last());
        let u = s.run(ops.drop_last());
        if u.after(ops.last()).has_token(id) {
            law_only_the_owner_mints(u, ops.last(), id);
        }
    }
    assert(s.run(ops).cells.credit_info.contains_key(id) <==> s.run(ops).has_token(id));
}

/// A project's list only grows, at its end: burning or moving a credit leaves
/// it listed.
pub proof fn law_project_lists_only_grow(s: LedgerView, ops: Seq<Operation>, key: Seq<u8>)
    ensures
        s.listed(key).is_prefix_of(s.run(ops).listed(key)),
    decreases ops.len(),
{
    if ops.len() > 0 {
        law_project_lists_only_grow(s, ops.drop_last(), key);
        let u = s.run(ops.drop_last());
        let t = u.after(ops.last());
        assert(u.listed(key).is_prefix_of(t.listed(key)));
    }
}

/// The numbers that a sequence of calls mints under a project key, oldest
/// first.
pub open spec fn minted_under(s: LedgerView, ops: Seq<Operation>, key: Seq<u8>) -> Seq<u128>
    decreases ops.len(),
{
    if ops.len() == 0 {
        Seq::empty()
    } else {
        let u = s.run(ops.drop_last());
        let before = minted_under(s, ops.drop_last(), key);
        match ops.last() {
            Operation::Mint { caller, to, credit } => if u.mint_result() is Ok && project_key(
                credit.project_name,
            ) == key {
                before.push(u.next_token_id)
            } else {
                before
            },
            _ => before,
        }
    }
}

/// A project's list is the record of its mints: whatever calls were made, the
/// list holds what it held before and then exactly the numbers minted under
/// the project's key, in order.
pub proof fn law_project_list_records_every_mint(
    s: LedgerView,
    ops: Seq<Operation>,
    key: Seq<u8>,
)
    ensures
        s.run(ops).listed(key) == s.listed(key) + minted_under(s, ops, key),
    decreases ops.len(),
{
    if ops.len() == 0 {
        assert(s.listed(key) + minted_under(s, ops, key) =~= s.listed(key));
    } else {
        law_project_list_records_every_mint(s, ops.drop_last(), key);
        assert(s.run(ops).listed(key) =~= s.listed(key) + minted_under(s, ops, key));
    }
}

/// Number of credits that a sequence of calls mints.
pub open spec fn mint_count(s: LedgerView, ops: Seq<Operation>) -> nat
    decreases ops.len(),
{
    if ops.len() == 0 {
        0
    } else {
        mint_count(s, ops.drop_last()) + if ops.last() is Mint && s.run(
            ops.drop_last(),
        ).mint_result() is Ok {
            1nat
        } else {
            0nat
        }
    }
}

/// Number of credits that a sequence of calls retires.
pub open spec fn retirement_count(s: LedgerView, ops: Seq<Operation>) -> nat
    decreases ops.len(),
{
    if ops.len() == 0 {
        0
    } else {
        retirement_count(s, ops.drop_last()) + match ops.last() {
            Operation::Burn { caller, number } => if s.run(ops.drop_last()).burn_result(
                caller,
                IdView::U128(number),
            ) is Ok {
                1nat
            } else {
                0nat
            },
            _ => 0nat,
        }
    }
}

/// The supply is what was minted less what was retired, and every mint uses
/// one number.
pub proof fn law_supply_is_minted_less_retired(s: LedgerView, ops: Seq<Operation>)
    requires
        s.well_formed(),
        s.accepts_all(ops),
    ensures
        s.run(ops).total_supply == s.total_supply + mint_count(s, ops) - retirement_count(s, ops),
        s.run(ops).next_token_id == s.next_token_id + mint_count(s, ops),
    decreases ops.len(),
{
    if ops.len() > 0 {
        law_supply_is_minted_less_retired(s, ops.drop_last());
        law_histories_keep_well_formed(s, ops.drop_last());
        let u = s.run(ops.drop_last());
        match ops.last() {
            Operation::Mint { caller, to, credit } => {
                law_mint(u, caller, to, credit);
            },
            Operation::Burn { caller, number } => {
                if u.burn_result(caller, IdView::U128(number)) is Ok {
                    law_burn(u, caller, number);
                }
            },
            Operation::Transfer { caller, to, id } => {
                if u.transfer_result(caller, to, id) is Ok {
                    law_transfer(u, caller, to, id);
                }
            },
            Operation::TransferCredit { caller, to, number } => {
                if u.transfer_result(caller, to, IdView::U128(number)) is Ok {
                    law_transfer(u, caller, to, IdView::U128(number));
                }
            },
            _ => {},
        }
    }
}

/// Every number that was given out is listed under exactly one project, and
/// the credit of an existing token is listed under the project it names.
pub proof fn law_credits_are_listed_by_project(s: LedgerView, number: u128)
    requires
        s.well_formed(),
        1 <= number < s.next_token_id,
    ensures
        exists|key: Seq<u8>| #[trigger] s.listed(key).contains(number),
        forall|k: Seq<u8>, l: Seq<u8>|
            s.listed(k).contains(number) && s.listed(l).contains(number) ==> k == l,
        forall|k: Seq<u8>| #[trigger] s.listed(k).no_duplicates(),
        s.has_token(IdView::U128(number)) ==> s.listed(
            project_key(s.cells.credit_info[IdView::U128(number)].project_name),
        ).contains(number),
{
    assert(s.is_listed(number));
    assert forall|k: Seq<u8>, l: Seq<u8>|
        s.listed(k).contains(number) && s.listed(l).contains(number) implies k == l by {
        let i = choose|i: int| 0 <= i < s.listed(k).len() && s.listed(k)[i] == number;
        let j = choose|j: int| 0 <= j < s.listed(l).len() && s.listed(l)[j] == number;
        assert(s.listed(k)[i] == s.listed(l)[j]);
    }
}

/// Burning a credit right after minting it gives back the holdings, lists,
/// metadata and approvals from before; the number stays used and listed.
pub proof fn law_burn_undoes_mint(
    s: LedgerView,
    caller: AccountId,
    to: AccountId,
    credit: CreditView,
)
    requires
        s.well_formed(),
        s.accepts(Operation::Mint { caller, to, credit }),
    ensures
        ({
            let number = s.next_token_id;
            let t = s.after(Operation::Mint { caller, to, credit });
            let u = t.after(Operation::Burn { caller: to, number });
            &&& t.burn_result(to, IdView::U128(number)) is Ok
            &&& u.cells.token_owner == s.cells.token_owner
            &&& u.cells.credit_info == s.cells.credit_info
            &&& u.cells.token_approvals == s.cells.token_approvals
            &&& u.cells.operator_approvals == s.cells.operator_approvals
            &&& u.total_supply == s.total_supply
            &&& u.token_list() == s.token_list()
            &&& forall|o: AccountId| u.balance(o) == s.balance(o)
            &&& forall|o: AccountId| #[trigger] u.owner_list(o) == s.owner_list(o)
            &&& u.next_token_id == number + 1
            &&& u.listed(project_key(credit.project_name)) == s.listed(
                project_key(credit.project_name),
            ).push(number)
        }),
{
    let number = s.next_token_id;
    let id = s.next_id();
    let t = s.after(Operation::Mint { caller, to, credit });
    let u = t.after(Operation::Burn { caller: to, number });
    law_mint(s, caller, to, credit);
    law_calls_keep_well_formed(s, Operation::Mint { caller, to, credit });
    assert(t.has_token(id));
    law_burn(t, to, number);
    assert(!s.has_token(id));
    assert(!s.cells.credit_info.contains_key(id));
    assert(!s.cells.token_approvals.contains_key(id));
    assert(u.cells.token_owner =~= s.cells.token_owner);
    assert(u.cells.credit_info =~= s.cells.credit_info);
    assert(u.cells.token_approvals =~= s.cells.token_approvals);
    assert(t.cells.owned_tokens_index[id] == s.balance(to));
    assert(t.cells.tokens_index_of[id] == s.total_supply);
    assert(u.owner_list(to) =~= s.owner_list(to));
    assert(u.token_list() =~= s.token_list());
    assert forall|o: AccountId| #[trigger] u.owner_list(o) == s.owner_list(o) by {
        assert(t.owner_list(o).len() == t.balance(o));
    }
    assert forall|o: AccountId| u.balance(o) == s.balance(o) by {
        assert(u.owner_list(o) == s.owner_list(o));
        assert(u.owner_list(o).len() == u.balance(o));
        assert(s.owner_list(o).len() == s.balance(o));
    }
}

/// The latest accepted call by which `owner` granted (`true`) or revoked
/// (`false`) `operator`'s approval for all tokens.
pub open spec fn latest_approval_for_all(
    s: LedgerView,
    ops: Seq<Operation>,
    owner: AccountId,
    operator: AccountId,
) -> Option<bool>
    decreases ops.len(),
{
    if ops.len() == 0 {
        None
    } else {
        let before = latest_approval_for_all(s, ops.drop_last(), owner, operator);
        match ops.last() {
            Operation::Approve { caller, operator: other, id, approved } => if id is None && caller
                == owner && other == operator && s.run(ops.drop_last()).approve_result(
                caller,
                other,
                id,
            ) is Ok {
                Some(approved)
            } else {
                before
            },
            _ => before,
        }
    }
}

/// Whether an account is an operator for all tokens of another is decided by
/// the latest accepted call on it, whatever other calls are made; no account
/// becomes its own operator.
pub proof fn law_latest_approval_for_all_decides(
    s: LedgerView,
    ops: Seq<Operation>,
    owner: AccountId,
    operator: AccountId,
)
    ensures
        s.run(ops).approved_for_all(owner, operator) == match latest_approval_for_all(
            s,
            ops,
            owner,
            operator,
        ) {
            Some(approved) => approved,
            None => s.approved_for_all(owner, operator),
        },
        latest_approval_for_all(s, ops, owner, owner) is None,
    decreases ops.len(),
{
    if ops.len() > 0 {
        law_latest_approval_for_all_decides(s, ops.drop_last(), owner, operator);
    }
}

/// In a contract, after any calls, an account is an operator for all tokens of
/// another exactly if the latest accepted call on it granted that, and no
/// account is its own operator.
pub proof fn law_operators_for_all(
    deployer: AccountId,
    ops: Seq<Operation>,
    owner: AccountId,
    operator: AccountId,
)
    ensures
        ({
            let s = LedgerView::opened(StorageView::unwritten(), deployer);
            &&& s.run(ops).approved(owner, operator, None) <==> latest_approval_for_all(
                s,
                ops,
                owner,
                operator,
            ) == Some(true)
            &&& !s.run(ops).approved(owner, owner, None)
        }),
{
    let s = LedgerView::opened(StorageView::unwritten(), deployer);
    law_latest_approval_for_all_decides(s, ops, owner, operator);
    law_latest_approval_for_all_decides(s, ops, owner, owner);
}

/// The holder of a token by the record of the calls: the recipient of its last
/// transfer, else of its mint, else the holder from before; none after a burn.
pub open spec fn recorded_holder(s: LedgerView, ops: Seq<Operation>, id: IdView) -> Option<
    AccountId,
>
    decreases ops.len(),
{
    if ops.len() == 0 {
        s.cells.token_owner.get(id)
    } else {
        let u = s.run(ops.drop_last());
        let before = recorded_holder(s, ops.drop_last(), id);
        match ops.last() {
            Operation::Mint { caller, to, credit } => if u.mint_result() is Ok && id
                == u.next_id() {
                Some(to)
            } else {
                before
            },
            Operation::Burn { caller, number } => if u.burn_result(caller, id) is Ok && id
                == IdView::U128(number) {
                None
            } else {
                before
            },
            Operation::Transfer { caller, to, id: moved } => if u.transfer_result(caller, to, id)
                is Ok && id == moved {
                Some(to)
            } else {
                before
            },
            Operation::TransferCredit { caller, to, number } => if u.transfer_result(
                caller,
                to,
                id,
            ) is Ok && id == IdView::U128(number) {
                Some(to)
            } else {
                before
            },
            _ => before,
        }
    }
}

/// After any calls a token's holder is the recipient of its last transfer,
/// else of its mint, and a token that was burned has none.
pub proof fn law_holder_is_the_last_recipient(s: LedgerView, ops: Seq<Operation>, id: IdView)
    ensures
        s.run(ops).cells.token_owner.get(id) == recorded_holder(s, ops, id),
    decreases ops.len(),
{
    if ops.len() > 0 {
        law_holder_is_the_last_recipient(s, ops.drop_last(), id);
    }
}

/// The metadata of the credits that a sequence of calls mints, oldest first.
pub open spec fn minted_credits(s: LedgerView, ops: Seq<Operation>) -> Seq<CreditView>
    decreases ops.len(),
{
    if ops.len() == 0 {
        Seq::empty()
    } else {
        let before = minted_credits(s, ops.drop_last());
        match ops.last() {
            Operation::Mint { caller, to, credit } => if s.run(ops.drop_last()).mint_result()
                is Ok {
                before.push(credit)
            } else {
                before
            },
            _ => before,
        }
    }
}

/// After any calls an existing token has the metadata that was given when its
/// number was minted: from a new ledger, whose numbers start at 1, token `n`
/// has that of the `n`-th mint.
pub proof fn law_metadata_is_that_of_the_mint(s: LedgerView, ops: Seq<Operation>, number: u128)
    requires
        s.well_formed(),
        s.accepts_all(ops),
    ensures
        s.next_token_id + minted_credits(s, ops).len() == s.run(ops).next_token_id,
        s.run(ops).has_token(IdView::U128(number)) ==> s.run(ops).cells.credit_info.get(
            IdView::U128(number),
        ) == if number < s.next_token_id {
            s.cells.credit_info.get(IdView::U128(number))
        } else {
            Some(minted_credits(s, ops)[number - s.next_token_id])
        },
    decreases ops.len(),
{
    if ops.len() > 0 {
        let id = IdView::U128(number);
        let u = s.run(ops.drop_last());
        let t = s.run(ops);
        law_metadata_is_that_of_the_mint(s, ops.drop_last(), number);
        law_histories_keep_well_formed(s, ops.drop_last());
        law_numbers_only_grow(s, ops.drop_last());
        if t.has_token(id) {
            if u.has_token(id) {
                law_metadata_never_changes(u, ops.last(), id);
            } else {
                law_only_the_owner_mints(u, ops.last(), id);
            }
        }
    }
}

/// In a well-formed ledger the supply never stands in the way of a mint: the
/// numbers run out no later.
pub proof fn law_supply_stays_below_numbers(s: LedgerView)
    requires
        s.well_formed(),
    ensures
        s.total_supply < s.next_token_id,
{
}

/// A caller may transfer and burn a token exactly as its holder, as an
/// operator for all of the holder's tokens, or as the operator approved for
/// the token. Such a caller may transfer it to every account but the holder,
/// their own included.
pub proof fn law_who_may_transfer_and_burn(
    s: LedgerView,
    caller: AccountId,
    to: AccountId,
    id: IdView,
)
    ensures
        ({
            let owners = s.cells.token_owner;
            let authorised = {
                ||| caller == owners[id]
                ||| s.cells.operator_approvals.contains((owners[id], caller))
                ||| s.cells.token_approvals.get(id) == Some(caller)
            };
            let burned = s.burn_result(caller, id);
            let moved = s.transfer_result(caller, to, id);
            &&& burned is Ok <==> owners.contains_key(id) && authorised
            &&& burned == Err::<(), PSP34Error>(PSP34Error::TokenNotExists)
                <==> !owners.contains_key(id)
            &&& burned == Err::<(), PSP34Error>(PSP34Error::NotApproved)
                <==> owners.contains_key(id) && !authorised
            &&& moved is Ok <==> owners.contains_key(id) && authorised && to != owners[id]
            &&& moved == Err::<(), PSP34Error>(PSP34Error::TokenNotExists)
                <==> !owners.contains_key(id)
            &&& moved == Err::<(), PSP34Error>(PSP34Error::NotApproved)
                <==> owners.contains_key(id) && !authorised
            &&& moved == Err::<(), PSP34Error>(PSP34Error::SelfApprove)
                <==> owners.contains_key(id) && authorised && to == owners[id]
        }),
{
}

/// An approval for one token is granted and revoked exactly by the token's
/// holder and by operators for all of the holder's tokens, one for all tokens
/// by every account for its own; nobody approves themselves.
pub proof fn law_who_may_approve(
    s: LedgerView,
    caller: AccountId,
    operator: AccountId,
    id: Option<IdView>,
)
    ensures
        ({
            let owners = s.cells.token_owner;
            let answer = s.approve_result(caller, operator, id);
            &&& answer == Err::<(), PSP34Error>(PSP34Error::SelfApprove) <==> caller == operator
            &&& caller != operator && id is None ==> answer is Ok
            &&& id matches Some(i) ==> {
                let authorised = {
                    ||| caller == owners[i]
                    ||| s.cells.operator_approvals.contains((owners[i], caller))
                };
                &&& answer is Ok <==> caller != operator && owners.contains_key(i) && authorised
                &&& answer == Err::<(), PSP34Error>(PSP34Error::TokenNotExists) <==> caller
                    != operator && !owners.contains_key(i)
                &&& answer == Err::<(), PSP34Error>(PSP34Error::NotApproved) <==> caller
                    != operator && owners.contains_key(i) && !authorised
            }
        }),
{
}

/// The approval of a token passes to an operator only by a call that names
/// both, made by the token's holder or by an operator for all of the holder's
/// tokens.
pub proof fn law_approvals_change_only_by_authority(
    s: LedgerView,
    op: Operation,
    id: IdView,
    operator: AccountId,
)
    requires
        s.after(op).cells.token_approvals.get(id) == Some(operator),
        s.cells.token_approvals.get(id) != Some(operator),
    ensures
        op matches Operation::Approve { caller, operator: named, id: token, approved } && {
            &&& approved
            &&& named == operator
            &&& token == Some(id)
            &&& caller != operator
            &&& s.cells.token_owner.contains_key(id)
            &&& caller == s.cells.token_owner[id] || s.cells.operator_approvals.contains(
                (s.cells.token_owner[id], caller),
            )
        },
{
}

/// An account becomes or ceases to be an operator for all tokens of another
/// only by a call of that other account that names it.
pub proof fn law_operators_change_only_by_their_owner(
    s: LedgerView,
    op: Operation,
    owner: AccountId,
    operator: AccountId,
)
    requires
        s.after(op).cells.operator_approvals.contains((owner, operator))
            != s.cells.operator_approvals.contains((owner, operator)),
    ensures
        op matches Operation::Approve { caller, operator: named, id, approved } && {
            &&& caller == owner
            &&& named == operator
            &&& owner != operator
            &&& id is None
            &&& approved == !s.cells.operator_approvals.contains((owner, operator))
        },
{
}

/// Who is approved: for all tokens of an owner, by an entry for the pair; for
/// one token, by such an entry of the owner who holds it, or by the token's
/// own entry.
pub proof fn law_who_is_approved(
    s: LedgerView,
    owner: AccountId,
    operator: AccountId,
    id: IdView,
)
    ensures
        s.approved(owner, operator, None) <==> s.cells.operator_approvals.contains(
            (owner, operator),
        ),
        s.approved(owner, operator, Some(id)) <==> {
            ||| s.cells.token_owner.contains_key(id) && s.cells.token_owner[id] == owner
                && s.cells.operator_approvals.contains((owner, operator))
            ||| s.cells.token_approvals.contains_key(id) && s.cells.token_approvals[id] == operator
        },
{
}

/// A mint is refused exactly if the next number is a token already.
pub proof fn law_when_mint_is_refused(s: LedgerView)
    ensures
        s.mint_result() is Ok <==> !s.cells.token_owner.contains_key(
            IdView::U128(s.next_token_id),
        ),
        s.mint_result() is Err ==> s.mint_result() == Err::<(), PSP34Error>(
            PSP34Error::TokenExists,
        ),
{
}

/// A storage entry passes through the buffer exactly if table key, key and
/// value together take at most 16384 bytes.
pub proof fn law_buffer_holds_16384_bytes(key_bytes: nat, value_bytes: nat)
    ensures
        fits(key_bytes, value_bytes) <==> key_bytes + value_bytes <= 16380,
{
}

/// The sizes of identifiers: numbers take a fixed size, byte strings their
/// length, the size of that length and three bytes.
pub proof fn law_identifier_sizes(n: u128, m: u64, k: u32, j: u16, i: u8, bytes: Seq<u8>)
    ensures
        id_bytes(IdView::U128(n)) == 19,
        id_bytes(IdView::U64(m)) == 11,
        id_bytes(IdView::U32(k)) == 7,
        id_bytes(IdView::U16(j)) == 4,
        id_bytes(IdView::U8(i)) == 3,
        bytes.len() < 64 ==> id_bytes(IdView::Bytes(bytes)) == bytes.len() + 4,
        bytes.len() >= 64 ==> id_bytes(IdView::Bytes(bytes)) == bytes.len() + 5,
{
}

/// The sizes of metadata and of lists of numbers: fixed fields take their
/// size, texts their length in UTF-8 and the size of that length, and each
/// number of a list 16 bytes.
pub proof fn law_metadata_and_list_sizes(credit: CreditView, len: nat)
    ensures
        ({
            let name = encode_utf8(credit.project_name).len();
            let country = encode_utf8(credit.country).len();
            credit_bytes(credit) == 47 + (if credit.project_type is Reforestation {
                0int
            } else {
                1
            }) + (if name < 64 {
                1int
            } else {
                2
            }) + name + (if country < 64 {
                1int
            } else {
                2
            }) + country
        }),
        len < 64 ==> list_bytes(len) == 16 * len + 1,
        len >= 64 ==> list_bytes(len) == 16 * len + 2,
        BUFFER_BYTES == 16384,
        MAX_PROJECT_CREDITS == 1021,
{
}

/// The limits of transfers and approvals: the identifier leaves a byte of the
/// buffer free and, if the token moves, 36 bytes, where the recipient's
/// balance is below the largest `u32`, or, if an approval of the token is
/// granted, 32 bytes.
pub proof fn law_limits_of_transfers_and_approvals(
    s: LedgerView,
    caller: AccountId,
    other: AccountId,
    id: IdView,
    approved: bool,
)
    ensures
        s.transfer_in_limits(caller, other, id) <==> {
            &&& id_bytes(id) <= 16379
            &&& s.transfer_result(caller, other, id) is Ok ==> id_bytes(id) <= 16344 && (
            s.cells.owned_tokens_count.contains_key(other) ==> s.cells.owned_tokens_count[other]
                < 0xffff_ffff)
        },
        s.approve_in_limits(caller, other, None, approved),
        s.approve_in_limits(caller, other, Some(id), approved) <==> caller == other || (
        id_bytes(id) <= 16379 && (approved && s.approve_result(caller, other, Some(id)) is Ok
            ==> id_bytes(id) <= 16348)),
{
}

/// The limits of a mint: the number and the supply below the largest `u128`,
/// the recipient's balance below the largest `u32`, fewer than 1021 credits
/// listed for the project, and at most 16384 bytes for the metadata with its
/// key.
pub proof fn law_limits_of_a_mint(
    s: LedgerView,
    to: AccountId,
    credit: CreditView,
    key: Seq<u8>,
)
    ensures
        s.mint_in_limits(to, credit, key) <==> {
            let name = encode_utf8(credit.project_name).len();
            let country = encode_utf8(credit.country).len();
            &&& s.next_token_id < 0xffff_ffff_ffff_ffff_ffff_ffff_ffff_ffff
            &&& s.total_supply < 0xffff_ffff_ffff_ffff_ffff_ffff_ffff_ffff
            &&& s.cells.owned_tokens_count.contains_key(to) ==> s.cells.owned_tokens_count[to]
                < 0xffff_ffff
            &&& s.cells.credits_by_project.contains_key(key)
                ==> s.cells.credits_by_project[key].len() < 1021
            &&& 70 + (if credit.project_type is Reforestation {
                0int
            } else {
                1
            }) + (if name < 64 {
                1int
            } else {
                2
            }) + name + (if country < 64 {
                1int
            } else {
                2
            }) + country <= 16384
        },
{
}

/// Which calls may be made: a mint by the contract's owner, where the next
/// number is taken (it is then refused) or the limits hold; a change of owner
/// by the contract's owner; a burn always; a transfer and an approval where
/// their limits hold.
pub proof fn law_which_calls_may_be_made(
    s: LedgerView,
    caller: AccountId,
    other: AccountId,
    credit: CreditView,
    id: IdView,
    number: u128,
    approved: bool,
)
    ensures
        s.accepts(Operation::Mint { caller, to: other, credit }) <==> caller == s.owner && (
        s.cells.token_owner.contains_key(IdView::U128(s.next_token_id)) || s.mint_in_limits(
            other,
            credit,
            blake2x256_digest(encode_utf8(credit.project_name)),
        )),
        s.accepts(Operation::TransferOwnership { caller, new_owner: other }) <==> caller
            == s.owner,
        s.accepts(Operation::Burn { caller, number }),
        s.accepts(Operation::TakeEvents),
        s.accepts(Operation::Transfer { caller, to: other, id }) <==> s.transfer_in_limits(
            caller,
            other,
            id,
        ),
        s.accepts(Operation::TransferCredit { caller, to: other, number }) <==> s.accepts(
            Operation::Transfer { caller, to: other, id: IdView::U128(number) },
        ),
        s.accepts(Operation::Approve { caller, operator: other, id: None, approved }),
        s.accepts(Operation::Approve { caller, operator: other, id: Some(id), approved })
            <==> s.approve_in_limits(caller, other, Some(id), approved),
{
}

/// A mint by the contract's owner succeeds wherever the counters are not
/// exhausted, the two texts take at most 16000 bytes together and fewer than
/// 1021 credits are listed for the project, whatever the recipient holds.
pub proof fn law_ordinary_mints_succeed(s: LedgerView, to: AccountId, credit: CreditView)
    requires
        s.well_formed(),
        s.next_token_id < 0xffff_ffff_ffff_ffff_ffff_ffff_ffff_ffff,
        s.cells.owned_tokens_count.contains_key(to) ==> s.cells.owned_tokens_count[to]
            < 0xffff_ffff,
        encode_utf8(credit.project_name).len() + encode_utf8(credit.country).len() <= 16000,
        ({
            let key = blake2x256_digest(encode_utf8(credit.project_name));
            s.cells.credits_by_project.contains_key(key) ==> s.cells.credits_by_project[key].len()
                < 1021
        }),
    ensures
        s.accepts(Operation::Mint { caller: s.owner, to, credit }),
        s.mint_result() is Ok,
        s.after(Operation::Mint { caller: s.owner, to, credit }).cells.token_owner.get(
            IdView::U128(s.next_token_id),
        ) == Some(to),
{
    assert(!s.has_token(s.next_id()));
}

/// In a well-formed ledger every authorised transfer of a credit to another
/// account succeeds, unless the recipient's balance is the largest `u32`.
pub proof fn law_ordinary_transfers_succeed(
    s: LedgerView,
    caller: AccountId,
    to: AccountId,
    number: u128,
)
    requires
        s.well_formed(),
        s.cells.token_owner.contains_key(IdView::U128(number)),
        ({
            let holder = s.cells.token_owner[IdView::U128(number)];
            &&& to != holder
            &&& {
                ||| caller == holder
                ||| s.cells.operator_approvals.contains((holder, caller))
                ||| s.cells.token_approvals.get(IdView::U128(number)) == Some(caller)
            }
        }),
        s.cells.owned_tokens_count.contains_key(to) ==> s.cells.owned_tokens_count[to]
            < 0xffff_ffff,
    ensures
        s.accepts(Operation::Transfer { caller, to, id: IdView::U128(number) }),
        s.accepts(Operation::TransferCredit { caller, to, number }),
        s.after(Operation::Transfer { caller, to, id: IdView::U128(number) }).cells.token_owner.get(
            IdView::U128(number),
        ) == Some(to),
        s.after(Operation::TransferCredit { caller, to, number }).cells.token_owner.get(
            IdView::U128(number),
        ) == Some(to),
{
}

/// The key of a project is the digest of its whole name in UTF-8.
pub proof fn law_project_key_is_the_digest_of_the_name(name: Seq<char>)
    ensures
        project_key(name) == blake2x256_digest(encode_utf8(name)),
{
}

/// A mint adds its number to the list of the project that it names, and leaves
/// the list of every name whose digest is another.
pub proof fn law_projects_are_listed_apart(
    s: LedgerView,
    caller: AccountId,
    to: AccountId,
    credit: CreditView,
    other: Seq<char>,
)
    requires
        !s.cells.token_owner.contains_key(IdView::U128(s.next_token_id)),
    ensures
        ({
            let lists = s.cells.credits_by_project;
            let after = s.after(Operation::Mint { caller, to, credit }).cells.credits_by_project;
            let own = blake2x256_digest(encode_utf8(credit.project_name));
            let key = blake2x256_digest(encode_utf8(other));
            &&& key != own ==> after.get(key) == lists.get(key)
            &&& after.get(own) == Some(
                (if lists.contains_key(own) {
                    lists[own]
                } else {
                    Seq::empty()
                }).push(s.next_token_id),
            )
        }),
{
}

/// What every query answers after a mint, in terms of what it answered
/// before: owner, balance and both enumerations, their reverses, metadata,
/// project lists, approvals, counters and events.
pub proof fn law_queries_after_a_mint(
    s: LedgerView,
    to: AccountId,
    credit: CreditView,
    key: Seq<u8>,
)
    requires
        s.next_token_id < 0xffff_ffff_ffff_ffff_ffff_ffff_ffff_ffff,
        s.total_supply < 0xffff_ffff_ffff_ffff_ffff_ffff_ffff_ffff,
        s.cells.owned_tokens_count.contains_key(to) ==> s.cells.owned_tokens_count[to]
            < 0xffff_ffff,
    ensures
        ({
            let t = s.minted(to, credit, key);
            let n = s.next_token_id;
            let id = IdView::U128(n);
            let held: u32 = if s.cells.owned_tokens_count.contains_key(to) {
                s.cells.owned_tokens_count[to]
            } else {
                0
            };
            &&& forall|x: IdView| #[trigger]
                t.cells.token_owner.get(x) == if x == id {
                    Some(to)
                } else {
                    s.cells.token_owner.get(x)
                }
            &&& t.cells.owned_tokens_count.contains_key(to)
            &&& t.cells.owned_tokens_count[to] == held + 1
            &&& forall|o: AccountId|
                o != to ==> #[trigger] t.cells.owned_tokens_count.get(o)
                    == s.cells.owned_tokens_count.get(o)
            &&& forall|o: AccountId, i: u32| #[trigger]
                t.cells.owned_tokens.get((o, i)) == if o == to && i == held {
                    Some(id)
                } else {
                    s.cells.owned_tokens.get((o, i))
                }
            &&& forall|j: u128| #[trigger]
                t.cells.tokens_index.get(j) == if j == s.total_supply {
                    Some(id)
                } else {
                    s.cells.tokens_index.get(j)
                }
            &&& forall|x: IdView| #[trigger]
                t.cells.owned_tokens_index.get(x) == if x == id {
                    Some(held)
                } else {
                    s.cells.owned_tokens_index.get(x)
                }
            &&& forall|x: IdView| #[trigger]
                t.cells.tokens_index_of.get(x) == if x == id {
                    Some(s.total_supply)
                } else {
                    s.cells.tokens_index_of.get(x)
                }
            &&& forall|x: IdView| #[trigger]
                t.cells.credit_info.get(x) == if x == id {
                    Some(credit)
                } else {
                    s.cells.credit_info.get(x)
                }
            &&& forall|k: Seq<u8>|
                k != key ==> #[trigger] t.cells.credits_by_project.get(k)
                    == s.cells.credits_by_project.get(k)
            &&& t.cells.credits_by_project.contains_key(key)
            &&& s.cells.credits_by_project.contains_key(key) ==> t.cells.credits_by_project[key]
                == s.cells.credits_by_project[key].push(n)
            &&& !s.cells.credits_by_project.contains_key(key) ==> t.cells.credits_by_project[key]
                == seq![n]
            &&& t.cells.token_approvals == s.cells.token_approvals
            &&& t.cells.operator_approvals == s.cells.operator_approvals
            &&& t.total_supply == s.total_supply + 1
            &&& t.next_token_id == n + 1
            &&& t.owner == s.owner
            &&& t.events == s.events + seq![
                EventView::Transfer { from: None, to: Some(to), id },
                EventView::CreditMinted { token_id: n, to, project_name: credit.project_name },
            ]
        }),
{
    let t = s.minted(to, credit, key);
    if !s.cells.credits_by_project.contains_key(key) {
        assert(t.cells.credits_by_project[key] =~= seq![s.next_token_id]);
    }
}

/// A mint call does what its effect on the queries says, listed under the
/// digest of the project's name; a refused one does nothing.
pub proof fn law_mint_call(s: LedgerView, caller: AccountId, to: AccountId, credit: CreditView)
    ensures
        ({
            let t = s.after(Operation::Mint { caller, to, credit });
            let key = blake2x256_digest(encode_utf8(credit.project_name));
            let taken = s.cells.token_owner.contains_key(IdView::U128(s.next_token_id));
            &&& taken ==> t == s
            &&& !taken ==> t == s.minted(to, credit, key)
        }),
{
}

/// What every query answers after a burn that succeeded: the token has no
/// owner, metadata or approval, and in the holder's enumeration and the global
/// one its place goes to the last token.
pub proof fn law_queries_after_a_burn(s: LedgerView, caller: AccountId, number: u128)
    requires
        s.burn_result(caller, IdView::U128(number)) is Ok,
    ensures
        ({
            let t = s.after(Operation::Burn { caller, number });
            let id = IdView::U128(number);
            let from = s.cells.token_owner[id];
            let held: int = match s.cells.owned_tokens_count.get(from) {
                Some(n) => n as int,
                None => 0,
            };
            let last: u32 = if held == 0 {
                0
            } else {
                (held - 1) as u32
            };
            let hole: u32 = match s.cells.owned_tokens_index.get(id) {
                Some(i) => i,
                None => 0,
            };
            let global_last: u128 = if s.total_supply == 0 {
                0
            } else {
                (s.total_supply - 1) as u128
            };
            let global_hole: u128 = match s.cells.tokens_index_of.get(id) {
                Some(i) => i,
                None => 0,
            };
            let mover = if hole == last {
                None
            } else {
                s.cells.owned_tokens.get((from, last))
            };
            let global_mover = if global_hole == global_last {
                None
            } else {
                s.cells.tokens_index.get(global_last)
            };
            &&& forall|x: IdView| #[trigger]
                t.cells.token_owner.get(x) == if x == id {
                    None
                } else {
                    s.cells.token_owner.get(x)
                }
            &&& forall|o: AccountId| #[trigger]
                t.cells.owned_tokens_count.get(o) == if o == from {
                    Some(last)
                } else {
                    s.cells.owned_tokens_count.get(o)
                }
            &&& forall|o: AccountId, i: u32| #[trigger]
                t.cells.owned_tokens.get((o, i)) == if o == from && i == last {
                    None
                } else if o == from && i == hole && mover is Some {
                    mover
                } else {
                    s.cells.owned_tokens.get((o, i))
                }
            &&& forall|j: u128| #[trigger]
                t.cells.tokens_index.get(j) == if j == global_last {
                    None
                } else if j == global_hole && global_mover is Some {
                    global_mover
                } else {
                    s.cells.tokens_index.get(j)
                }
            &&& forall|x: IdView| #[trigger]
                t.cells.owned_tokens_index.get(x) == if x == id {
                    None
                } else if mover == Some(x) {
                    Some(hole)
                } else {
                    s.cells.owned_tokens_index.get(x)
                }
            &&& forall|x: IdView| #[trigger]
                t.cells.tokens_index_of.get(x) == if x == id {
                    None
                } else if global_mover == Some(x) {
                    Some(global_hole)
                } else {
                    s.cells.tokens_index_of.get(x)
                }
            &&& forall|x: IdView| #[trigger]
                t.cells.credit_info.get(x) == if x == id {
                    None
                } else {
                    s.cells.credit_info.get(x)
                }
            &&& forall|x: IdView| #[trigger]
                t.cells.token_approvals.get(x) == if x == id {
                    None
                } else {
                    s.cells.token_approvals.get(x)
                }
            &&& t.cells.operator_approvals == s.cells.operator_approvals
            &&& t.cells.credits_by_project == s.cells.credits_by_project
            &&& t.total_supply == global_last
            &&& t.next_token_id == s.next_token_id
            &&& t.owner == s.owner
            &&& t.events == s.events + seq![
                EventView::Transfer { from: Some(from), to: None, id },
                EventView::CreditRetired { token_id: number, owner: from },
            ]
        }),
{
}

/// What every query answers after a transfer that succeeded: the token has the
/// new owner and no approval of its own; its places in the former holder's
/// enumeration and in the global one go to the last token, and it is last in
/// the recipient's and in the global one.
pub proof fn law_queries_after_a_transfer(
    s: LedgerView,
    caller: AccountId,
    to: AccountId,
    id: IdView,
)
    requires
        s.transfer_result(caller, to, id) is Ok,
        s.cells.owned_tokens_count.contains_key(to) ==> s.cells.owned_tokens_count[to]
            < 0xffff_ffff,
    ensures
        ({
            let t = s.after(Operation::Transfer { caller, to, id });
            let from = s.cells.token_owner[id];
            let held: int = match s.cells.owned_tokens_count.get(from) {
                Some(n) => n as int,
                None => 0,
            };
            let held_by_to: u32 = match s.cells.owned_tokens_count.get(to) {
                Some(n) => n,
                None => 0,
            };
            let last: u32 = if held == 0 {
                0
            } else {
                (held - 1) as u32
            };
            let hole: u32 = match s.cells.owned_tokens_index.get(id) {
                Some(i) => i,
                None => 0,
            };
            let global_last: u128 = if s.total_supply == 0 {
                0
            } else {
                (s.total_supply - 1) as u128
            };
            let global_hole: u128 = match s.cells.tokens_index_of.get(id) {
                Some(i) => i,
                None => 0,
            };
            let mover = if hole == last {
                None
            } else {
                s.cells.owned_tokens.get((from, last))
            };
            let global_mover = if global_hole == global_last {
                None
            } else {
                s.cells.tokens_index.get(global_last)
            };
            &&& forall|x: IdView| #[trigger]
                t.cells.token_owner.get(x) == if x == id {
                    Some(to)
                } else {
                    s.cells.token_owner.get(x)
                }
            &&& forall|o: AccountId| #[trigger]
                t.cells.owned_tokens_count.get(o) == if o == to {
                    Some((held_by_to + 1) as u32)
                } else if o == from {
                    Some(last)
                } else {
                    s.cells.owned_tokens_count.get(o)
                }
            &&& forall|o: AccountId, i: u32| #[trigger]
                t.cells.owned_tokens.get((o, i)) == if o == to && i == held_by_to {
                    Some(id)
                } else if o == from && i == last {
                    None
                } else if o == from && i == hole && mover is Some {
                    mover
                } else {
                    s.cells.owned_tokens.get((o, i))
                }
            &&& forall|j: u128| #[trigger]
                t.cells.tokens_index.get(j) == if j == global_last {
                    Some(id)
                } else if j == global_hole && global_mover is Some {
                    global_mover
                } else {
                    s.cells.tokens_index.get(j)
                }
            &&& forall|x: IdView| #[trigger]
                t.cells.owned_tokens_index.get(x) == if x == id {
                    Some(held_by_to)
                } else if mover == Some(x) {
                    Some(hole)
                } else {
                    s.cells.owned_tokens_index.get(x)
                }
            &&& forall|x: IdView| #[trigger]
                t.cells.tokens_index_of.get(x) == if x == id {
                    Some(global_last)
                } else if global_mover == Some(x) {
                    Some(global_hole)
                } else {
                    s.cells.tokens_index_of.get(x)
                }
            &&& forall|x: IdView| #[trigger]
                t.cells.token_approvals.get(x) == if x == id {
                    None
                } else {
                    s.cells.token_approvals.get(x)
                }
            &&& t.cells.credit_info == s.cells.credit_info
            &&& t.cells.operator_approvals == s.cells.operator_approvals
            &&& t.cells.credits_by_project == s.cells.credits_by_project
            &&& t.total_supply == global_last + 1
            &&& t.next_token_id == s.next_token_id
            &&& t.owner == s.owner
            &&& t.events == s.events.push(
                EventView::Transfer { from: Some(from), to: Some(to), id },
            )
        }),
{
}

/// What every query answers after an approval that succeeded: one entry is
/// set or cleared, everything else stays, and the event names the owner of the
/// token, or of all the tokens, concerned.
pub proof fn law_queries_after_an_approval(
    s: LedgerView,
    caller: AccountId,
    operator: AccountId,
    id: Option<IdView>,
    approved: bool,
)
    requires
        s.approve_result(caller, operator, id) is Ok,
    ensures
        ({
            let t = s.after(Operation::Approve { caller, operator, id, approved });
            &&& forall|x: IdView| #[trigger]
                t.cells.token_approvals.get(x) == if id != Some(x) {
                    s.cells.token_approvals.get(x)
                } else if approved {
                    Some(operator)
                } else {
                    None
                }
            &&& forall|o: AccountId, p: AccountId| #[trigger]
                t.cells.operator_approvals.contains((o, p)) == if id is None && o == caller && p
                    == operator {
                    approved
                } else {
                    s.cells.operator_approvals.contains((o, p))
                }
            &&& t.cells == (StorageView {
                token_approvals: t.cells.token_approvals,
                operator_approvals: t.cells.operator_approvals,
                ..s.cells
            })
            &&& t.total_supply == s.total_supply
            &&& t.next_token_id == s.next_token_id
            &&& t.owner == s.owner
            &&& t.events == s.events.push(
                EventView::Approval {
                    owner: match id {
                        Some(i) => s.cells.token_owner[i],
                        None => caller,
                    },
                    operator,
                    id,
                    approved,
                },
            )
        }),
{
}

/// A credit transfer changes what a transfer changes and reports the move of
/// the credit from its former holder too; refused calls change nothing.
pub proof fn law_queries_after_other_calls(
    s: LedgerView,
    caller: AccountId,
    other: AccountId,
    operator: AccountId,
    id: Option<IdView>,
    number: u128,
    approved: bool,
)
    ensures
        ({
            let token = IdView::U128(number);
            let moved = s.after(Operation::Transfer { caller, to: other, id: token });
            let credit_moved = s.after(Operation::TransferCredit { caller, to: other, number });
            &&& s.transfer_result(caller, other, token) is Err ==> moved == s && credit_moved == s
            &&& s.transfer_result(caller, other, token) is Ok ==> {
                &&& credit_moved.cells == moved.cells
                &&& credit_moved.total_supply == moved.total_supply
                &&& credit_moved.owner == moved.owner
                &&& credit_moved.next_token_id == moved.next_token_id
                &&& credit_moved.events == moved.events.push(
                    EventView::CreditTransferred {
                        from: Some(s.cells.token_owner[token]),
                        to: Some(other),
                        token_id: number,
                    },
                )
            }
            &&& id matches Some(i) ==> s.transfer_result(caller, other, i) is Err ==> s.after(
                Operation::Transfer { caller, to: other, id: i },
            ) == s
            &&& s.burn_result(caller, token) is Err ==> s.after(Operation::Burn { caller, number })
                == s
            &&& s.approve_result(caller, operator, id) is Err ==> s.after(
                Operation::Approve { caller, operator, id, approved },
            ) == s
            &&& s.after(Operation::TransferOwnership { caller, new_owner: other }) == (LedgerView {
                owner: other,
                ..s
            })
            &&& s.after(Operation::TakeEvents) == (LedgerView { events: Seq::empty(), ..s })
        }),
{
}

/// A ledger is opened over its tables as they are, with no supply and no
/// events, and gives out number 1 first; new tables hold no entry.
pub proof fn law_opened_ledger(cells: StorageView, owner: AccountId)
    ensures
        LedgerView::opened(cells, owner) == (LedgerView {
            cells,
            total_supply: 0,
            owner,
            next_token_id: 1,
            events: Seq::empty(),
        }),
        ({
            let new = StorageView::unwritten();
            &&& forall|x: IdView| #[trigger] new.token_owner.get(x) is None
            &&& forall|o: AccountId| #[trigger] new.owned_tokens_count.get(o) is None
            &&& forall|x: IdView| #[trigger] new.token_approvals.get(x) is None
            &&& forall|p: (AccountId, AccountId)| !#[trigger] new.operator_approvals.contains(p)
            &&& forall|j: u128| #[trigger] new.tokens_index.get(j) is None
            &&& forall|x: IdView| #[trigger] new.tokens_index_of.get(x) is None
            &&& forall|p: (AccountId, u32)| #[trigger] new.owned_tokens.get(p) is None
            &&& forall|x: IdView| #[trigger] new.owned_tokens_index.get(x) is None
            &&& forall|x: IdView| #[trigger] new.credit_info.get(x) is None
            &&& forall|k: Seq<u8>| #[trigger] new.credits_by_project.get(k) is None
        }),
{
}

/// Histories go call by call: one more call leads from the state that the
/// calls before it led to, and may be made if it may be made there.
pub proof fn law_histories_go_call_by_call(s: LedgerView, ops: Seq<Operation>, op: Operation)
    ensures
        s.run(Seq::empty()) == s,
        s.accepts_all(Seq::empty()),
        s.run(ops.push(op)) == s.run(ops).after(op),
        s.accepts_all(ops.push(op)) <==> s.accepts_all(ops) && s.run(ops).accepts(op),
{
    assert(ops.push(op).drop_last() =~= ops);
}

/// The names for parts of the state are those of the tables: whether a token
/// exists, who holds it, an owner's balance, a project's list, approvals for
/// all tokens, and the next identifier.
pub proof fn law_names_of_the_state(
    s: LedgerView,
    id: IdView,
    owner: AccountId,
    operator: AccountId,
    key: Seq<u8>,
)
    ensures
        s.has_token(id) <==> s.cells.token_owner.contains_key(id),
        s.has_token(id) ==> s.cells.token_owner.get(id) == Some(s.holder(id)),
        s.cells.owned_tokens_count.contains_key(owner) ==> s.balance(owner)
            == s.cells.owned_tokens_count[owner],
        !s.cells.owned_tokens_count.contains_key(owner) ==> s.balance(owner) == 0,
        s.cells.credits_by_project.contains_key(key) ==> s.listed(key)
            == s.cells.credits_by_project[key],
        !s.cells.credits_by_project.contains_key(key) ==> s.listed(key).len() == 0,
        s.approved_for_all(owner, operator) <==> s.cells.operator_approvals.contains(
            (owner, operator),
        ),
        s.next_id() == IdView::U128(s.next_token_id),
        s.owner_list(owner).len() == s.balance(owner),
        s.token_list().len() == s.total_supply,
        forall|i: u32|
            i < s.balance(owner) ==> #[trigger] s.owner_list(owner)[i as int]
                == s.cells.owned_tokens[(owner, i)],
        forall|j: u128|
            j < s.total_supply ==> #[trigger] s.token_list()[j as int] == s.cells.tokens_index[j],
{
}

/// The view of metadata keeps every field.
pub proof fn law_metadata_view_is_complete(credit: CreditData)
    ensures
        credit@ == (CreditView {
            project_name: credit.project_name@,
            verification_date: credit.verification_date,
            verifier: credit.verifier,
            vintage_year: credit.vintage_year,
            credit_standard: credit.credit_standard,
            country: credit.country@,
            project_type: credit.project_type,
        }),
{
}

/// The view of an event keeps its kind and every field, and that of a list of
/// events every event, in order.
pub proof fn law_event_view_is_complete(events: Seq<Event>, i: int)
    requires
        0 <= i < events.len(),
    ensures
        event_views(events).len() == events.len(),
        event_views(events)[i] == events[i]@,
        match events[i] {
            Event::Transfer(e) => events[i]@ == (EventView::Transfer {
                from: e.from,
                to: e.to,
                id: e.id@,
            }),
            Event::Approval(e) => events[i]@ == (EventView::Approval {
                owner: e.owner,
                operator: e.operator,
                id: match e.id {
                    Some(id) => Some(id@),
                    None => None,
                },
                approved: e.approved,
            }),
            Event::CreditMinted(e) => events[i]@ == (EventView::CreditMinted {
                token_id: e.token_id,
                to: e.to,
                project_name: e.project_name@,
            }),
            Event::CreditTransferred(e) => events[i]@ == (EventView::CreditTransferred {
                from: e.from,
                to: e.to,
                token_id: e.token_id,
            }),
            Event::CreditRetired(e) => events[i]@ == (EventView::CreditRetired {
                token_id: e.token_id,
                owner: e.owner,
            }),
        },
{
}

/// The view of an optional value is the view of the value, where there is one.
pub proof fn law_optional_views(
    id: Option<Id>,
    cell: Option<IdCell>,
    credit: Option<CreditCell>,
    list: Option<Vec<u128>>,
)
    ensures
        match id {
            Some(i) => id_option(id) == Some(i@),
            None => id_option(id) is None,
        },
        match cell {
            Some(c) => cell_id_option(cell) == Some(cell_id(c)),
            None => cell_id_option(cell) is None,
        },
        match credit {
            Some(c) => cell_credit_option(credit) == Some(cell_credit(c)),
            None => cell_credit_option(credit) is None,
        },
        match list {
            Some(l) => list_option(list) == Some(l@),
            None => list_option(list) is None,
        },
{
}

/// What storage forms stand for, form by form.
pub proof fn law_what_storage_forms_stand_for(
    small: u8,
    n: u16,
    m: u32,
    k: u64,
    number: u128,
    bytes: Vec<u8>,
    credit: CreditCell,
)
    ensures
        cell_id(Ok(Ok(small))) == IdView::U8(small),
        cell_id(Ok(Err(n))) == IdView::U16(n),
        cell_id(Err(Ok(Ok(m)))) == IdView::U32(m),
        cell_id(Err(Ok(Err(k)))) == IdView::U64(k),
        cell_id(Err(Err(Ok(number)))) == IdView::U128(number),
        cell_id(Err(Err(Err(bytes)))) == IdView::Bytes(bytes@),
        cell_credit(credit).project_name == credit.0@,
        cell_credit(credit).verification_date == credit.1,
        cell_credit(credit).verifier == AccountId(credit.2),
        cell_credit(credit).vintage_year == credit.3,
        cell_credit(credit).country == credit.5@,
        match cell_credit(credit).credit_standard {
            CreditStandard::VCS => credit.4 == (false, false),
            CreditStandard::GS => credit.4 == (false, true),
            CreditStandard::CDM => credit.4 == (true, false),
            CreditStandard::GoldStandard => credit.4 == (true, true),
        },
        match cell_credit(credit).project_type {
            ProjectType::Reforestation => credit.6 is None,
            ProjectType::Renewable => credit.6 == Some(false),
            ProjectType::MethaneCapture => credit.6 == Some(true),
        },
        flags_standard(credit.4) == cell_credit(credit).credit_standard,
        flag_project(credit.6) == cell_credit(credit).project_type,
{
}

/// Storage forms tell apart what they stand for: two stand for one identifier
/// only if they hold the same variant and number or bytes, and for one
/// metadata only if they agree in every field.
pub proof fn law_storage_forms_tell_apart(a: IdCell, b: IdCell, c: CreditCell, d: CreditCell)
    ensures
        cell_id(a) == cell_id(b) <==> match (a, b) {
            (Ok(Ok(m)), Ok(Ok(n))) => m == n,
            (Ok(Err(m)), Ok(Err(n))) => m == n,
            (Err(Ok(Ok(m))), Err(Ok(Ok(n)))) => m == n,
            (Err(Ok(Err(m))), Err(Ok(Err(n)))) => m == n,
            (Err(Err(Ok(m))), Err(Err(Ok(n)))) => m == n,
            (Err(Err(Err(m))), Err(Err(Err(n)))) => m@ == n@,
            _ => false,
        },
        cell_credit(c) == cell_credit(d) <==> {
            &&& c.0@ == d.0@
            &&& c.1 == d.1
            &&& c.2 == d.2
            &&& c.3 == d.3
            &&& c.4 == d.4
            &&& c.5@ == d.5@
            &&& c.6 == d.6
        },
{
}

/// Accounts are equal exactly if all their bytes are.
pub proof fn law_accounts_are_compared_by_all_bytes(a: AccountId, b: AccountId)
    ensures
        a.eq_spec(&b) <==> a.0@ == b.0@,
        a == b <==> a.0@ == b.0@,
{
    if a.0@ == b.0@ {
        assert(a.0 =~= b.0);
    }
}

/// The entries of the storage are those of its ten tables.
pub proof fn law_storage_view_is_complete(storage: Storage)
    ensures
        storage@ == (StorageView {
            token_owner: token_owners(storage.token_owner),
            owned_tokens_count: owned_counts(storage.owned_tokens_count),
            token_approvals: token_approvals(storage.token_approvals),
            operator_approvals: operator_approvals(storage.operator_approvals),
            tokens_index: token_index(storage.tokens_index),
            tokens_index_of: token_index_of(storage.tokens_index_of),
            owned_tokens: owned_tokens(storage.owned_tokens),
            owned_tokens_index: owned_index(storage.owned_tokens_index),
            credit_info: credit_info(storage.credit_info),
            credits_by_project: project_credits(storage.credits_by_project),
        }),
{
}

} // verus!
