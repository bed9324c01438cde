//! What holds of every state of the ledger: the enumerations list each token
//! exactly once, without gaps, and the tables speak of the same tokens.

use crate::hash::project_key;
use crate::model::LedgerView;
use crate::tables::StorageView;
use crate::types::{AccountId, CreditView, IdView};
use vstd::prelude::*;

verus! {

/// A list after the item at `i` left and the last item took its place.
pub open spec fn swap_removed<A>(list: Seq<A>, i: int) -> Seq<A> {
    list.update(i, list.last()).drop_last()
}

impl LedgerView {
    /// The tokens of `owner`, in the order of the owner's enumeration.
    pub open spec fn owner_list(self, owner: AccountId) -> Seq<IdView> {
        Seq::new(
            self.balance(owner) as nat,
            |i: int| self.cells.owned_tokens[(owner, i as u32)],
        )
    }

    /// All tokens, in the order of the global enumeration.
    pub open spec fn token_list(self) -> Seq<IdView> {
        Seq::new(self.total_supply as nat, |i: int| self.cells.tokens_index[i as u128])
    }

    /// The slots of every owner are those below the owner's balance, and slot
    /// and index of a token point at each other.
    pub open spec fn owners_enumerated(self) -> bool {
        &&& forall|o: AccountId, i: u32| #[trigger]
            self.cells.owned_tokens.contains_key((o, i)) <==> i < self.balance(o)
        &&& forall|o: AccountId, i: u32| #[trigger]
            self.cells.owned_tokens.contains_key((o, i)) ==> {
                let id = self.cells.owned_tokens[(o, i)];
                &&& self.has_token(id)
                &&& self.holder(id) == o
                &&& self.cells.owned_tokens_index[id] == i
            }
        &&& forall|id: IdView| #[trigger]
            self.cells.owned_tokens_index.contains_key(id) <==> self.has_token(id)
        &&& forall|id: IdView| #[trigger]
            self.has_token(id) ==> {
                let slot = (self.holder(id), self.cells.owned_tokens_index[id]);
                &&& self.cells.owned_tokens.contains_key(slot)
                &&& self.cells.owned_tokens[slot] == id
            }
    }

    /// The global slots are those below the supply, and slot and index of a
    /// token point at each other.
    pub open spec fn tokens_enumerated(self) -> bool {
        &&& forall|i: u128| #[trigger]
            self.cells.tokens_index.contains_key(i) <==> i < self.total_supply
        &&& forall|i: u128| #[trigger]
            self.cells.tokens_index.contains_key(i) ==> {
                let id = self.cells.tokens_index[i];
                &&& self.has_token(id)
                &&& self.cells.tokens_index_of[id] == i
            }
        &&& forall|id: IdView| #[trigger]
            self.cells.tokens_index_of.contains_key(id) <==> self.has_token(id)
        &&& forall|id: IdView| #[trigger]
            self.has_token(id) ==> {
                let slot = self.cells.tokens_index_of[id];
                &&& self.cells.tokens_index.contains_key(slot)
                &&& self.cells.tokens_index[slot] == id
            }
    }

    /// Both enumerations are in order.
    pub open spec fn enumerated(self) -> bool {
        &&& self.owners_enumerated()
        &&& self.tokens_enumerated()
    }

    /// Every token has a number that was given out, 0 never is, and no more
    /// tokens exist than numbers were given out.
    pub open spec fn numbered(self) -> bool {
        &&& 1 <= self.next_token_id
        &&& self.total_supply < self.next_token_id
        &&& forall|id: IdView| #[trigger]
            self.has_token(id) ==> (id matches IdView::U128(n) && 1 <= n < self.next_token_id)
    }

    /// Approvals are of existing tokens only, and exactly the existing tokens
    /// have metadata.
    pub open spec fn attached(self) -> bool {
        &&& forall|id: IdView| #[trigger]
            self.cells.token_approvals.contains_key(id) ==> self.has_token(id)
        &&& forall|id: IdView| #[trigger]
            self.cells.credit_info.contains_key(id) <==> self.has_token(id)
    }

    /// The project lists hold the numbers given out, each once and in order,
    /// and every existing token is listed under its project.
    pub open spec fn projects_listed(self) -> bool {
        &&& forall|key: Seq<u8>, i: int| #![trigger self.listed(key)[i]]
            0 <= i < self.listed(key).len() ==> 1 <= self.listed(key)[i] < self.next_token_id
        &&& forall|key: Seq<u8>, i: int, j: int|
            #![trigger self.listed(key)[i], self.listed(key)[j]]
            0 <= i < j < self.listed(key).len() ==> self.listed(key)[i] < self.listed(key)[j]
        &&& forall|k: Seq<u8>, l: Seq<u8>, i: int, j: int|
            #![trigger self.listed(k)[i], self.listed(l)[j]]
            k != l && 0 <= i < self.listed(k).len() && 0 <= j < self.listed(l).len()
                ==> self.listed(k)[i] != self.listed(l)[j]
        &&& forall|n: u128| 1 <= n < self.next_token_id ==> #[trigger] self.is_listed(n)
        &&& forall|n: u128| #[trigger]
            self.has_token(IdView::U128(n)) ==> self.listed(
                project_key(self.cells.credit_info[IdView::U128(n)].project_name),
            ).contains(n)
    }

    /// Whether a number is listed under some project.
    pub open spec fn is_listed(self, n: u128) -> bool {
        exists|key: Seq<u8>| #[trigger] self.listed(key).contains(n)
    }

    /// The invariant of the ledger.
    pub open spec fn well_formed(self) -> bool {
        &&& self.enumerated()
        &&& self.numbered()
        &&& self.attached()
        &&& self.projects_listed()
    }
}

/// A token that joins keeps the enumerations in order.
pub(crate) proof fn lemma_with_token_enumerated(s: LedgerView, to: AccountId, id: IdView)
    requires
        s.enumerated(),
        !s.has_token(id),
        s.balance(to) < u32::MAX,
        s.total_supply < u128::MAX,
    ensures
        s.with_token(to, id).enumerated(),
{
    let t = s.with_token(to, id);
    assert forall|o: AccountId, i: u32| #[trigger]
        t.cells.owned_tokens.contains_key((o, i)) implies i < t.balance(o) && ({
        let x = t.cells.owned_tokens[(o, i)];
        &&& t.has_token(x)
        &&& t.holder(x) == o
        &&& t.cells.owned_tokens_index[x] == i
    }) by {
        if (o, i) != (to, s.balance(to)) {
            assert(s.cells.owned_tokens.contains_key((o, i)));
            assert(s.has_token(s.cells.owned_tokens[(o, i)]));
        }
    }
    assert forall|o: AccountId, i: u32| i < t.balance(o) implies #[trigger]
        t.cells.owned_tokens.contains_key((o, i)) by {
        if (o, i) != (to, s.balance(to)) {
            assert(s.cells.owned_tokens.contains_key((o, i)));
        }
    }
    assert forall|x: IdView| #[trigger]
        t.cells.owned_tokens_index.contains_key(x) <==> t.has_token(x) by {
        assert(s.cells.owned_tokens_index.contains_key(x) <==> s.has_token(x));
    }
    assert forall|x: IdView| #[trigger] t.has_token(x) implies ({
        let slot = (t.holder(x), t.cells.owned_tokens_index[x]);
        &&& t.cells.owned_tokens.contains_key(slot)
        &&& t.cells.owned_tokens[slot] == x
    }) by {
        if x != id {
            assert(s.has_token(x));
            let slot = (s.holder(x), s.cells.owned_tokens_index[x]);
            assert(s.cells.owned_tokens.contains_key(slot));
        }
    }
    assert forall|i: u128| #[trigger] t.cells.tokens_index.contains_key(i) implies i
        < t.total_supply && ({
        let x = t.cells.tokens_index[i];
        &&& t.has_token(x)
        &&& t.cells.tokens_index_of[x] == i
    }) by {
        if i != s.total_supply {
            assert(s.cells.tokens_index.contains_key(i));
            assert(s.has_token(s.cells.tokens_index[i]));
        }
    }
    assert forall|i: u128| i < t.total_supply implies #[trigger]
        t.cells.tokens_index.contains_key(i) by {
        if i != s.total_supply {
            assert(s.cells.tokens_index.contains_key(i));
        }
    }
    assert forall|x: IdView| #[trigger]
        t.cells.tokens_index_of.contains_key(x) <==> t.has_token(x) by {
        assert(s.cells.tokens_index_of.contains_key(x) <==> s.has_token(x));
    }
    assert forall|x: IdView| #[trigger] t.has_token(x) implies ({
        let slot = t.cells.tokens_index_of[x];
        &&& t.cells.tokens_index.contains_key(slot)
        &&& t.cells.tokens_index[slot] == x
    }) by {
        if x != id {
            assert(s.has_token(x));
            assert(s.cells.tokens_index.contains_key(s.cells.tokens_index_of[x]));
        }
    }
}

/// A token that leaves keeps the enumerations in order.
pub(crate) proof fn lemma_without_token_enumerated(s: LedgerView, id: IdView)
    requires
        s.enumerated(),
        s.has_token(id),
    ensures
        s.without_token(s.holder(id), id).enumerated(),
{
    let from = s.holder(id);
    let t = s.without_token(from, id);
    let hole = s.cells.owned_tokens_index[id];
    let last = s.last_index(from);
    let global_hole = s.cells.tokens_index_of[id];
    let global_last = s.last_global();
    assert(s.cells.owned_tokens.contains_key((from, hole)));
    assert(s.cells.owned_tokens_index.contains_key(id));
    assert(s.index_in_list(id) == hole);
    assert(hole < s.balance(from));
    assert(s.cells.owned_tokens.contains_key((from, last)));
    assert(s.cells.tokens_index.contains_key(global_hole));
    assert(s.cells.tokens_index_of.contains_key(id));
    assert(s.global_index(id) == global_hole);
    assert(s.cells.tokens_index.contains_key(global_last));
    let mover = s.cells.owned_tokens[(from, last)];
    let global_mover = s.cells.tokens_index[global_last];
    assert(s.has_token(mover));
    assert(s.has_token(global_mover));
    assert forall|o: AccountId, i: u32| #[trigger]
        t.cells.owned_tokens.contains_key((o, i)) implies i < t.balance(o) && ({
        let x = t.cells.owned_tokens[(o, i)];
        &&& t.has_token(x)
        &&& t.holder(x) == o
        &&& t.cells.owned_tokens_index[x] == i
    }) by {
        assert(s.cells.owned_tokens.contains_key((o, i)));
        assert(s.has_token(s.cells.owned_tokens[(o, i)]));
    }
    assert forall|o: AccountId, i: u32| i < t.balance(o) implies #[trigger]
        t.cells.owned_tokens.contains_key((o, i)) by {
        assert(s.cells.owned_tokens.contains_key((o, i)));
    }
    assert forall|x: IdView| #[trigger]
        t.cells.owned_tokens_index.contains_key(x) <==> t.has_token(x) by {
        assert(s.cells.owned_tokens_index.contains_key(x) <==> s.has_token(x));
    }
    assert forall|x: IdView| #[trigger] t.has_token(x) implies ({
        let slot = (t.holder(x), t.cells.owned_tokens_index[x]);
        &&& t.cells.owned_tokens.contains_key(slot)
        &&& t.cells.owned_tokens[slot] == x
    }) by {
        assert(s.has_token(x));
        let slot = (s.holder(x), s.cells.owned_tokens_index[x]);
        assert(s.cells.owned_tokens.contains_key(slot));
    }
    assert forall|i: u128| #[trigger] t.cells.tokens_index.contains_key(i) implies i
        < t.total_supply && ({
        let x = t.cells.tokens_index[i];
        &&& t.has_token(x)
        &&& t.cells.tokens_index_of[x] == i
    }) by {
        assert(s.cells.tokens_index.contains_key(i));
        assert(s.has_token(s.cells.tokens_index[i]));
    }
    assert forall|i: u128| i < t.total_supply implies #[trigger]
        t.cells.tokens_index.contains_key(i) by {
        assert(s.cells.tokens_index.contains_key(i));
    }
    assert forall|x: IdView| #[trigger]
        t.cells.tokens_index_of.contains_key(x) <==> t.has_token(x) by {
        assert(s.cells.tokens_index_of.contains_key(x) <==> s.has_token(x));
    }
    assert forall|x: IdView| #[trigger] t.has_token(x) implies ({
        let slot = t.cells.tokens_index_of[x];
        &&& t.cells.tokens_index.contains_key(slot)
        &&& t.cells.tokens_index[slot] == x
    }) by {
        assert(s.has_token(x));
        assert(s.cells.tokens_index.contains_key(s.cells.tokens_index_of[x]));
    }
}

/// A mint keeps the ledger well formed.
pub(crate) proof fn lemma_minted_well_formed(s: LedgerView, to: AccountId, credit: CreditView)
    requires
        s.well_formed(),
        s.mint_in_limits(to, credit, project_key(credit.project_name)),
    ensures
        !s.has_token(s.next_id()),
        s.minted(to, credit, project_key(credit.project_name)).well_formed(),
{
    let key = project_key(credit.project_name);
    let id = s.next_id();
    let t = s.minted(to, credit, key);
    assert(!s.has_token(id));
    lemma_with_token_enumerated(s, to, id);
    let u = s.with_token(to, id);
    assert(t.cells.token_owner == u.cells.token_owner);
    assert(t.enumerated()) by {
        assert forall|x: IdView| #[trigger] t.has_token(x) implies u.has_token(x) by {}
    }
    assert(t.numbered()) by {
        assert forall|x: IdView| #[trigger] t.has_token(x) implies (x matches IdView::U128(n) && 1
            <= n < t.next_token_id) by {
            if x != id {
                assert(s.has_token(x));
            }
        }
    }
    assert(t.attached()) by {
        assert forall|x: IdView| #[trigger]
            t.cells.token_approvals.contains_key(x) implies t.has_token(x) by {
            assert(s.cells.token_approvals.contains_key(x));
            assert(s.has_token(x));
        }
        assert forall|x: IdView| #[trigger]
            t.cells.credit_info.contains_key(x) <==> t.has_token(x) by {
            assert(s.cells.credit_info.contains_key(x) <==> s.has_token(x));
        }
    }
    assert forall|k: Seq<u8>| #[trigger] t.listed(k) == if k == key {
        s.listed(k).push(s.next_token_id)
    } else {
        s.listed(k)
    } by {}
    assert(t.projects_listed()) by {
        assert forall|n: u128| 1 <= n < t.next_token_id implies #[trigger] t.is_listed(n) by {
            if n == s.next_token_id {
                assert(t.listed(key)[s.listed(key).len() as int] == n);
                assert(t.listed(key).contains(n));
            } else {
                assert(s.is_listed(n));
                let k = choose|k: Seq<u8>| #[trigger] s.listed(k).contains(n);
                let i = choose|i: int| 0 <= i < s.listed(k).len() && s.listed(k)[i] == n;
                assert(t.listed(k)[i] == n);
                assert(t.listed(k).contains(n));
            }
        }
        assert forall|n: u128| #[trigger] t.has_token(IdView::U128(n)) implies t.listed(
            project_key(t.cells.credit_info[IdView::U128(n)].project_name),
        ).contains(n) by {
            if n == s.next_token_id {
                assert(t.listed(key)[s.listed(key).len() as int] == n);
            } else {
                assert(s.has_token(IdView::U128(n)));
                let k = project_key(s.cells.credit_info[IdView::U128(n)].project_name);
                let i = choose|i: int| 0 <= i < s.listed(k).len() && s.listed(k)[i] == n;
                assert(t.listed(k)[i] == n);
            }
        }
    }
}

/// A burn keeps the ledger well formed.
pub(crate) proof fn lemma_burned_well_formed(s: LedgerView, number: u128)
    requires
        s.well_formed(),
        s.has_token(IdView::U128(number)),
    ensures
        s.burned(number).well_formed(),
{
    let id = IdView::U128(number);
    let t = s.burned(number);
    let u = s.without_token(s.holder(id), id);
    lemma_without_token_enumerated(s, id);
    assert(s.cells.tokens_index.contains_key(s.cells.tokens_index_of[id]));
    assert(t.enumerated()) by {
        assert forall|x: IdView| t.has_token(x) == u.has_token(x) by {}
    }
    assert(t.attached()) by {
        assert forall|x: IdView| #[trigger]
            t.cells.token_approvals.contains_key(x) implies t.has_token(x) by {
            assert(s.cells.token_approvals.contains_key(x));
            assert(s.has_token(x));
        }
        assert forall|x: IdView| #[trigger]
            t.cells.credit_info.contains_key(x) <==> t.has_token(x) by {
            assert(s.cells.credit_info.contains_key(x) <==> s.has_token(x));
        }
    }
    lemma_same_lists(s, t);
}

/// The project part of the invariant holds of a state with the same lists and
/// numbers, no new tokens, and the same metadata of its tokens.
pub(crate) proof fn lemma_same_lists(s: LedgerView, t: LedgerView)
    requires
        s.projects_listed(),
        t.cells.credits_by_project == s.cells.credits_by_project,
        t.next_token_id == s.next_token_id,
        forall|x: IdView| #[trigger]
            t.has_token(x) ==> s.has_token(x) && t.cells.credit_info[x] == s.cells.credit_info[x],
    ensures
        t.projects_listed(),
{
    assert forall|k: Seq<u8>| #[trigger] t.listed(k) == s.listed(k) by {}
    assert forall|n: u128| 1 <= n < t.next_token_id implies #[trigger] t.is_listed(n) by {
        assert(s.is_listed(n));
        let k = choose|k: Seq<u8>| #[trigger] s.listed(k).contains(n);
        assert(t.listed(k).contains(n));
    }
}

/// A transfer keeps the ledger well formed.
pub(crate) proof fn lemma_transferred_well_formed(s: LedgerView, to: AccountId, id: IdView)
    requires
        s.well_formed(),
        s.has_token(id),
        s.balance(to) < u32::MAX,
    ensures
        s.transferred(to, id).well_formed(),
{
    let r = s.without_approval(id);
    assert(r.enumerated()) by {
        assert forall|x: IdView| r.has_token(x) == s.has_token(x) by {}
    }
    let u = r.without_token(r.holder(id), id);
    lemma_without_token_enumerated(r, id);
    assert(s.cells.tokens_index.contains_key(s.cells.tokens_index_of[id]));
    assert(!u.has_token(id));
    assert(u.balance(to) < u32::MAX);
    lemma_with_token_enumerated(u, to, id);
    let t = s.transferred(to, id);
    let v = u.with_token(to, id);
    assert(t.enumerated()) by {
        assert forall|x: IdView| t.has_token(x) == v.has_token(x) by {}
    }
    assert(t.attached()) by {
        assert forall|x: IdView| #[trigger]
            t.cells.token_approvals.contains_key(x) implies t.has_token(x) by {
            assert(s.cells.token_approvals.contains_key(x));
            assert(s.has_token(x));
        }
        assert forall|x: IdView| #[trigger]
            t.cells.credit_info.contains_key(x) <==> t.has_token(x) by {
            assert(s.cells.credit_info.contains_key(x) <==> s.has_token(x));
        }
    }
    lemma_same_lists(s, t);
}

/// An approval keeps the ledger well formed.
pub(crate) proof fn lemma_approving_well_formed(
    s: LedgerView,
    caller: AccountId,
    operator: AccountId,
    id: Option<IdView>,
    approved: bool,
)
    requires
        s.well_formed(),
        id matches Some(i) ==> s.has_token(i),
    ensures
        s.approving(caller, operator, id, approved).well_formed(),
{
    let t = s.approving(caller, operator, id, approved);
    assert(t.cells.token_owner == s.cells.token_owner);
    lemma_same_tokens(s, t);
}

/// The invariant holds of a state that differs only in who owns the contract,
/// in events, and in approvals of existing tokens.
pub(crate) proof fn lemma_same_tokens(s: LedgerView, t: LedgerView)
    requires
        s.well_formed(),
        t == (LedgerView {
            cells: StorageView {
                token_approvals: t.cells.token_approvals,
                operator_approvals: t.cells.operator_approvals,
                ..s.cells
            },
            owner: t.owner,
            events: t.events,
            ..s
        }),
        forall|x: IdView| #[trigger]
            t.cells.token_approvals.contains_key(x) ==> s.has_token(x),
    ensures
        t.well_formed(),
{
    assert forall|x: IdView| #[trigger] t.has_token(x) <==> s.has_token(x) by {}
    assert(t.enumerated());
    lemma_same_lists(s, t);
}

} // verus!
