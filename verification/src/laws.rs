//! Registry-wide laws.
//!
//! The per-operation contracts in `career` and `cert` already carry the
//! index-consistency invariants (`wf` is ensured by every mutating
//! operation).  The laws here state the cross-operation properties that
//! do not belong to any single operation: referential integrity of
//! category deletion, freshness and distinctness of minted token ids,
//! the settlement rules for growth and release, and that pagination
//! partitions an index set.

use vstd::prelude::*;
use crate::accounting::{spec_settlement, DUST_THRESHOLD};
use crate::cert::{minted_ids, Contract};
use crate::context::CallContext;
use crate::decimal::{dec_str, lemma_dec_str_injective};
use crate::errors::RegistryError;
use crate::index_map::page;

verus! {

/// Referential integrity of category deletion.  In a well-formed
/// registry, a category's index key exists exactly while some live token
/// is bound to the category; while it exists, a delete by the category's
/// owner with the exact payment fails with `NonEmptyCategory`, and once
/// it is gone (the last token deleted or the category never populated),
/// the same delete is owed success.
pub proof fn law_referential_integrity(s: Contract, ctx: CallContext, cat: Seq<char>)
    requires
        s.wf(),
        ctx.attached == 1,
        s.cat_store().has(cat),
        s.cat_store().owners()[cat]@ == ctx.caller@,
    ensures
        s.category_index().contains_key(cat)
            <==> exists|id: Seq<char>| #[trigger] s.token_cats().dom().contains(id)
                && s.token_cats()[id]@ == cat,
        s.category_index().contains_key(cat)
            ==> s.category_delete_error(ctx, cat) == Some(RegistryError::NonEmptyCategory),
        !s.category_index().contains_key(cat) ==> s.category_delete_error(ctx, cat) is None,
{
    if s.category_index().contains_key(cat) {
        let members = s.category_index()[cat];
        assert(members.len() > 0);
        assert(members.contains(members[0]));
        assert(s.cat_mem(cat, members[0]));
        assert(s.token_cats().dom().contains(members[0])
            && s.token_cats()[members[0]]@ == cat);
    }
    if exists|id: Seq<char>| #[trigger] s.token_cats().dom().contains(id)
        && s.token_cats()[id]@ == cat {
        let id = choose|id: Seq<char>| #[trigger] s.token_cats().dom().contains(id)
            && s.token_cats()[id]@ == cat;
        assert(s.cat_mem(cat, id));
    }
}

/// Token-id freshness: in a well-formed registry the counter's next id
/// names no live token, so a mint can never collide with an existing
/// token and a deleted id (the counter never decrements) is never handed
/// out again.
pub proof fn law_token_id_fresh(s: Contract)
    requires
        s.wf(),
    ensures
        !s.token_store().has(dec_str(s.counter() as nat)),
{
    let tid = dec_str(s.counter() as nat);
    if s.token_store().owners().contains_key(tid) {
        let n = choose|n: nat| n < s.counter() && tid == dec_str(n);
        lemma_dec_str_injective(n, s.counter() as nat);
    }
}

/// Id monotonicity: the ids a bulk mint of `n` tokens assigns are
/// pairwise distinct, and render strictly increasing counter values in
/// mint order.
pub proof fn law_minted_ids_distinct(count: nat, n: nat)
    requires
        count + n <= u128::MAX,
    ensures
        forall|i: int, j: int| 0 <= i < j < n
            ==> minted_ids(count, n)[i] != minted_ids(count, n)[j],
{
    assert forall|i: int, j: int| 0 <= i < j < n implies
        minted_ids(count, n)[i] != minted_ids(count, n)[j] by {
        lemma_dec_str_injective((count + i) as nat, (count + j) as nat);
    }
}

/// Payment settlement of a storage-growing mutation: the required cost
/// is the grown units at the byte price, the excess of the attached
/// payment is refunded exactly when it exceeds the dust threshold, and
/// nothing is released.
pub proof fn law_settlement_of_growth(growth: u128, attached: u128, price: u128)
    requires
        growth > 0,
        growth * price <= u128::MAX,
        attached >= growth * price,
    ensures
        ({
            let st = spec_settlement(growth, 0, attached, price);
            &&& st.required_cost == growth * price
            &&& attached - growth * price > DUST_THRESHOLD
                ==> st.refund == Some((attached - growth * price) as u128)
            &&& attached - growth * price <= DUST_THRESHOLD ==> st.refund is None
            &&& st.release is None
        }),
{
}

/// Deletion refund: a mutation that frees `shrink > 0` units requires no
/// payment and releases exactly the freed units at the byte price back
/// to the caller.
pub proof fn law_settlement_of_release(shrink: u128, attached: u128, price: u128)
    requires
        shrink > 0,
        shrink * price <= u128::MAX,
    ensures
        ({
            let st = spec_settlement(0, shrink, attached, price);
            &&& st.required_cost == 0
            &&& st.release == Some((shrink * price) as u128)
        }),
{
}

/// Idempotent pagination: for an index set of at most one hundred
/// members, the first page of fifty followed by the second page of fifty
/// partitions the whole set — no overlap, no gap.
pub proof fn law_pagination_partition<T>(s: Seq<T>)
    requires
        s.len() <= 100,
    ensures
        page(s, 0, 50) + page(s, 50, 50) == s,
{
    if s.len() <= 50 {
        assert(page(s, 0, 50) =~= s);
        assert(page(s, 50, 50) =~= Seq::<T>::empty());
        assert(page(s, 0, 50) + page(s, 50, 50) =~= s);
    } else {
        assert(page(s, 0, 50) =~= s.subrange(0, 50));
        assert(page(s, 50, 50) =~= s.subrange(50, s.len() as int));
        assert(page(s, 0, 50) + page(s, 50, 50) =~= s);
    }
}

} // verus!
