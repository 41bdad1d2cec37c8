//! The certificate registry: categories and the tokens minted into them.
//!
//! One `Contract` value owns the whole state: category records and
//! metadata with their owner index, token records and metadata with their
//! owner index, the binding of each token to its category, and the
//! category index.  Token ids come from a monotonically increasing
//! counter and are never reused.  A category with live tokens cannot be
//! deleted.  Every mutating operation checks the payment policy and
//! authorization before touching anything, settles storage payment
//! exactly, and hands back the audit events and transfers for the host to
//! perform.  A failed operation returns its error with the state
//! untouched.

use vstd::prelude::*;
use crate::accounting::{check_policy, settle, spec_settlement, PaymentPolicy, Settlement};
use crate::category::{category_entry_units, spec_category_entry_units,
    spec_category_meta_stamped, spec_category_meta_units, spec_category_meta_updated,
    Category, CategoryId, CategoryMetadata, JsonCategory};
use crate::cert_events::{CategoryCreateLog, CategoryDeleteLog, CategoryUpdateLog, EventLog,
    EventLogVariant, NftMintLog, NftTransferLog};
use crate::context::CallContext;
use crate::decimal::{dec_str, lemma_dec_str_injective, u128_to_dec};
use crate::entity_store::EntityStore;
use crate::errors::RegistryError;
use crate::index_map::{idx_of, page, IndexMap};
use crate::metadata::{spec_token_entry_units, spec_token_meta_stamped, spec_token_meta_units,
    spec_token_meta_updated, token_entry_units, JsonToken, NFTContractMetadata,
    NonFungibleTokenMetadata, Token, TokenId, TokenMetadata};
use crate::strmap::StrMap;

verus! {

/// What a completed certificate-registry mutation settled and reported.
#[derive(Debug)]
pub struct Receipt {
    /// How the attached payment was settled; the host pays the refund and
    /// release transfers, if any, to the caller.
    pub settlement: Settlement,
    /// The audit events describing the mutation, for the host to log.
    /// Token updates and deletions emit none; a bulk mint emits one per
    /// minted token.
    pub events: Vec<EventLog>,
}

/// Is `e` the audit event of creating category `id` for `caller`?
pub open spec fn is_category_create_event(
    e: EventLog,
    caller: Seq<char>,
    id: Seq<char>,
    m: CategoryMetadata,
) -> bool {
    &&& e.standard@ == "cecert"@
    &&& e.version@ == "0.1.0"@
    &&& e.event matches EventLogVariant::CategoryCreate(v) && v@.len() == 1
        && (v@[0].authorized_id matches Some(a) && a@ == caller)
        && v@[0].owner_id@ == caller
        && v@[0].category_ids.deep_view() == seq![id]
        && v@[0].category_metadatas@ == seq![m]
}

/// Is `e` the audit event of updating category `id` from `old_m` to
/// `new_m`?
pub open spec fn is_category_update_event(
    e: EventLog,
    caller: Seq<char>,
    id: Seq<char>,
    old_m: CategoryMetadata,
    new_m: CategoryMetadata,
) -> bool {
    &&& e.standard@ == "cecert"@
    &&& e.version@ == "0.1.0"@
    &&& e.event matches EventLogVariant::CategoryUpdate(v) && v@.len() == 1
        && (v@[0].authorized_id matches Some(a) && a@ == caller)
        && v@[0].category_ids.deep_view() == seq![id]
        && v@[0].old_category_metadatas@ == seq![old_m]
        && v@[0].new_category_metadatas@ == seq![new_m]
}

/// Is `e` the audit event of deleting category `id`?
pub open spec fn is_category_delete_event(e: EventLog, caller: Seq<char>, id: Seq<char>)
    -> bool {
    &&& e.standard@ == "cecert"@
    &&& e.version@ == "0.1.0"@
    &&& e.event matches EventLogVariant::CategoryDelete(v) && v@.len() == 1
        && (v@[0].authorized_id matches Some(a) && a@ == caller)
        && v@[0].category_ids.deep_view() == seq![id]
}

/// Is `e` the audit event of minting token `id` to `receiver`?
pub open spec fn is_nft_mint_event(e: EventLog, receiver: Seq<char>, id: Seq<char>) -> bool {
    &&& e.standard@ == "nep171"@
    &&& e.version@ == "1.0.0"@
    &&& e.event matches EventLogVariant::NftMint(v) && v@.len() == 1
        && v@[0].owner_id@ == receiver
        && v@[0].token_ids.deep_view() == seq![id]
        && v@[0].memo is None
}

/// Is `e` the audit event of transferring token `id` from `old_owner` to
/// `new_owner`?
pub open spec fn is_nft_transfer_event(
    e: EventLog,
    old_owner: Seq<char>,
    new_owner: Seq<char>,
    id: Seq<char>,
    memo: Option<String>,
) -> bool {
    &&& e.standard@ == "nep171"@
    &&& e.version@ == "1.0.0"@
    &&& e.event matches EventLogVariant::NftTransfer(v) && v@.len() == 1
        && v@[0].authorized_id is None
        && v@[0].old_owner_id@ == old_owner
        && v@[0].new_owner_id@ == new_owner
        && v@[0].token_ids.deep_view() == seq![id]
        && v@[0].memo == memo
}

/// When a mutation touches only the category store, the token-side
/// invariants carry over unchanged.
proof fn lemma_token_side_wf(pre: Contract, post: Contract)
    requires
        pre.wf(),
        post.parts_wf(),
        post.cat_store().wf(),
        post.token_store() == pre.token_store(),
        post.token_cats() == pre.token_cats(),
        post.category_index() == pre.category_index(),
        post.counter() == pre.counter(),
        forall|c: Seq<char>| #[trigger] post.category_index().contains_key(c)
            ==> post.cat_store().has(c),
    ensures
        post.wf(),
{
    assert(post.token_cats().dom() == post.token_store().owners().dom());
    assert forall|c: Seq<char>, id: Seq<char>| #[trigger] post.cat_mem(c, id)
        <==> post.token_cats().contains_key(id) && post.token_cats()[id]@ == c by {
        assert(post.cat_mem(c, id) == pre.cat_mem(c, id));
    }
    assert forall|c: Seq<char>| #[trigger] post.category_index().contains_key(c) implies
        post.category_index()[c].len() > 0 by {
        assert(pre.category_index().contains_key(c));
    }
    assert forall|id: Seq<char>| #[trigger] post.token_store().owners().contains_key(id) implies
        exists|n: nat| n < post.counter() && id == dec_str(n) by {
        assert(pre.token_store().owners().contains_key(id));
        let n = choose|n: nat| n < pre.counter() && id == dec_str(n);
        assert(n < post.counter() && id == dec_str(n));
    }
}

/// The certificate registry.
pub struct Contract {
    owner_id: String,
    count_token_id: u128,
    categories: EntityStore<CategoryMetadata>,
    tokens: EntityStore<TokenMetadata>,
    token_category: StrMap<String>,
    by_category: IndexMap,
    metadata: NFTContractMetadata,
}

impl Contract {
    /// The category store, as a specification-level value.
    pub closed spec fn cat_store(&self) -> EntityStore<CategoryMetadata> {
        self.categories
    }

    /// The token store, as a specification-level value.
    pub closed spec fn token_store(&self) -> EntityStore<TokenMetadata> {
        self.tokens
    }

    /// token id -> category id of every live token.
    pub closed spec fn token_cats(&self) -> Map<Seq<char>, String> {
        self.token_category@
    }

    /// category id -> token ids of the category index.
    pub closed spec fn category_index(&self) -> Map<Seq<char>, Seq<Seq<char>>> {
        self.by_category@
    }

    /// The mint counter: the id of the next token, rendered in decimal.
    pub closed spec fn counter(&self) -> u128 {
        self.count_token_id
    }

    /// The account that instantiated the registry.
    pub closed spec fn contract_owner(&self) -> Seq<char> {
        self.owner_id@
    }

    /// Is `id` a member of category `c`'s index set?
    pub open spec fn cat_mem(&self, c: Seq<char>, id: Seq<char>) -> bool {
        self.category_index().contains_key(c) && self.category_index()[c].contains(id)
    }

    /// The internal token-side stores are well formed.
    pub closed spec fn parts_wf(&self) -> bool {
        self.token_category.wf() && self.by_category.wf()
    }

    /// The registry-wide invariants: both entity stores are consistent;
    /// every token has exactly one category binding; a token is indexed
    /// under a category exactly when its binding names that category; no
    /// category set is stored empty; a category with indexed tokens
    /// exists; and every live token id is a past counter value, so the
    /// counter's next id is fresh.
    pub open spec fn consistent(&self) -> bool {
        &&& self.cat_store().wf()
        &&& self.token_store().wf()
        &&& self.token_cats().dom() == self.token_store().owners().dom()
        &&& forall|c: Seq<char>, id: Seq<char>|
            #[trigger] self.cat_mem(c, id)
                <==> self.token_cats().contains_key(id) && self.token_cats()[id]@ == c
        &&& forall|c: Seq<char>| #[trigger] self.category_index().contains_key(c)
            ==> self.category_index()[c].len() > 0
        &&& forall|c: Seq<char>| #[trigger] self.category_index().contains_key(c)
            ==> self.cat_store().has(c)
        &&& forall|id: Seq<char>| #[trigger] self.token_store().owners().contains_key(id)
            ==> exists|n: nat| n < self.counter() && id == dec_str(n)
    }

    /// Well-formedness: component invariants plus the registry-wide
    /// invariants.  Constructors establish it; every operation preserves
    /// it.
    pub open spec fn wf(&self) -> bool {
        self.parts_wf() && self.consistent()
    }

    /// An empty certificate registry administered by `owner_id`, carrying
    /// the given contract metadata.
    pub fn new(owner_id: String, metadata: NFTContractMetadata) -> (r: Contract)
        ensures
            r.wf(),
            r.contract_owner() == owner_id@,
            r.counter() == 0,
            r.cat_store().owners() == Map::<Seq<char>, String>::empty(),
            r.cat_store().metas() == Map::<Seq<char>, CategoryMetadata>::empty(),
            r.cat_store().owner_index() == Map::<Seq<char>, Seq<Seq<char>>>::empty(),
            r.token_store().owners() == Map::<Seq<char>, String>::empty(),
            r.token_store().metas() == Map::<Seq<char>, TokenMetadata>::empty(),
            r.token_store().owner_index() == Map::<Seq<char>, Seq<Seq<char>>>::empty(),
            r.token_cats() == Map::<Seq<char>, String>::empty(),
            r.category_index() == Map::<Seq<char>, Seq<Seq<char>>>::empty(),
            r.spec_nft_metadata() == metadata,
    {
        let r = Contract {
            owner_id,
            count_token_id: 0,
            categories: EntityStore::new(),
            tokens: EntityStore::new(),
            token_category: StrMap::new(),
            by_category: IndexMap::new(),
            metadata,
        };
        proof {
            assert(r.token_cats().dom() =~= r.token_store().owners().dom());
        }
        r
    }

    /// An empty certificate registry with the default contract metadata.
    pub fn new_default_meta(owner_id: String) -> (r: Contract)
        ensures
            r.wf(),
            r.contract_owner() == owner_id@,
            r.counter() == 0,
            r.cat_store().owners() == Map::<Seq<char>, String>::empty(),
            r.token_store().owners() == Map::<Seq<char>, String>::empty(),
            r.category_index() == Map::<Seq<char>, Seq<Seq<char>>>::empty(),
            r.spec_nft_metadata().spec@ == "certy-1.0.0"@,
            r.spec_nft_metadata().name@ == "Certy NFT"@,
            r.spec_nft_metadata().symbol@ == "Certy"@,
            r.spec_nft_metadata().icon is None,
            r.spec_nft_metadata().base_uri is None,
            r.spec_nft_metadata().reference is None,
            r.spec_nft_metadata().reference_hash is None,
    {
        Contract::new(owner_id, NFTContractMetadata {
            spec: "certy-1.0.0".to_owned(),
            name: "Certy NFT".to_owned(),
            symbol: "Certy".to_owned(),
            icon: None,
            base_uri: None,
            reference: None,
            reference_hash: None,
        })
    }

    /// The storage cost of creating `category_id` with `metadata` under
    /// the calling context.
    pub open spec fn category_create_cost(
        ctx: CallContext,
        category_id: Seq<char>,
        metadata: CategoryMetadata,
    ) -> int {
        spec_category_entry_units(
            category_id,
            ctx.caller@,
            spec_category_meta_stamped(metadata, ctx.now_ms),
        ) * ctx.price_per_byte
    }

    /// Why `category_create` would be refused, if anything.
    pub open spec fn category_create_error(
        &self,
        ctx: CallContext,
        category_id: Seq<char>,
        metadata: CategoryMetadata,
    ) -> Option<RegistryError> {
        if ctx.attached < 1 {
            Some(RegistryError::PaymentPolicyViolation)
        } else if self.cat_store().has(category_id) {
            Some(RegistryError::DuplicateId)
        } else if (ctx.attached as int) < Contract::category_create_cost(
            ctx,
            category_id,
            metadata,
        ) {
            Some(RegistryError::InsufficientPayment)
        } else {
            None
        }
    }

    /// Create the category `category_id` owned by the caller, with
    /// `metadata` stamped at the host clock.  The caller pays for the
    /// stored bytes and is refunded the excess above the dust threshold.
    pub fn category_create(
        &mut self,
        ctx: &CallContext,
        category_id: CategoryId,
        metadata: CategoryMetadata,
    ) -> (r: Result<Receipt, RegistryError>)
        requires
            old(self).wf(),
            Contract::category_create_cost(*ctx, category_id@, metadata) <= u128::MAX,
        ensures
            final(self).wf(),
            r is Err <==> old(self).category_create_error(*ctx, category_id@, metadata) is Some,
            r matches Err(e)
                ==> Some(e) == old(self).category_create_error(*ctx, category_id@, metadata)
                    && *final(self) == *old(self),
            r is Ok ==> final(self).cat_store().owners()
                == old(self).cat_store().owners().insert(category_id@, ctx.caller),
            r is Ok ==> final(self).cat_store().metas()
                == old(self).cat_store().metas().insert(
                    category_id@,
                    spec_category_meta_stamped(metadata, ctx.now_ms),
                ),
            r is Ok ==> final(self).cat_store().owner_index()
                == old(self).cat_store().owner_index().insert(
                    ctx.caller@,
                    if old(self).cat_store().owner_index().contains_key(ctx.caller@) {
                        old(self).cat_store().owner_index()[ctx.caller@].push(category_id@)
                    } else {
                        seq![category_id@]
                    },
                ),
            r is Ok ==> final(self).token_store() == old(self).token_store()
                && final(self).token_cats() == old(self).token_cats()
                && final(self).category_index() == old(self).category_index()
                && final(self).counter() == old(self).counter(),
            r matches Ok(rc) ==> rc.settlement == spec_settlement(
                spec_category_entry_units(
                    category_id@,
                    ctx.caller@,
                    spec_category_meta_stamped(metadata, ctx.now_ms),
                ) as u128,
                0,
                ctx.attached,
                ctx.price_per_byte,
            ),
            r matches Ok(rc) ==> rc.events@.len() == 1 && is_category_create_event(
                rc.events@[0],
                ctx.caller@,
                category_id@,
                spec_category_meta_stamped(metadata, ctx.now_ms),
            ),
    {
        if let Err(e) = check_policy(PaymentPolicy::AtLeastOneUnit, ctx.attached) {
            return Err(e);
        }
        if self.categories.contains(&category_id) {
            return Err(RegistryError::DuplicateId);
        }
        let stamped = metadata.stamped(ctx.now_ms);
        let units = category_entry_units(&category_id, &ctx.caller, &stamped);
        let settlement = match settle(units, 0, ctx.attached, ctx.price_per_byte) {
            Ok(s) => s,
            Err(e) => {
                return Err(e);
            },
        };
        let event_meta = stamped.duplicate();
        let created = self.categories.create(&category_id, &ctx.caller, stamped);
        proof {
            assert(created is Ok);
        }
        let mut category_ids: Vec<String> = Vec::new();
        let mut category_metadatas: Vec<CategoryMetadata> = Vec::new();
        let ghost idv = category_id@;
        category_ids.push(category_id);
        category_metadatas.push(event_meta);
        proof {
            assert(category_ids.deep_view() =~= seq![idv]);
            assert(category_metadatas@ =~= seq![spec_category_meta_stamped(metadata, ctx.now_ms)]);
        }
        let log = CategoryCreateLog {
            authorized_id: Some(ctx.caller.clone()),
            owner_id: ctx.caller.clone(),
            category_ids,
            category_metadatas,
        };
        let mut logs: Vec<CategoryCreateLog> = Vec::new();
        let ghost logv = log;
        logs.push(log);
        proof {
            assert(logs@ =~= seq![logv]);
        }
        let event = EventLog {
            standard: "cecert".to_owned(),
            version: "0.1.0".to_owned(),
            event: EventLogVariant::CategoryCreate(logs),
        };
        let mut events: Vec<EventLog> = Vec::new();
        let ghost ev = event;
        events.push(event);
        proof {
            assert(events@ =~= seq![ev]);
            assert forall|c: Seq<char>| #[trigger] final(self).category_index().contains_key(c)
                implies final(self).cat_store().has(c) by {
                assert(old(self).category_index().contains_key(c));
                assert(old(self).cat_store().has(c));
            }
            lemma_token_side_wf(*old(self), *final(self));
        }
        Ok(Receipt { settlement, events })
    }

    /// The storage units a `category_update` grows (zero when it
    /// shrinks).
    pub open spec fn category_update_growth(
        &self,
        ctx: CallContext,
        category_id: Seq<char>,
        metadata: CategoryMetadata,
    ) -> int {
        let old_units = spec_category_meta_units(self.cat_store().metas()[category_id]);
        let new_units = spec_category_meta_units(
            spec_category_meta_updated(
                self.cat_store().metas()[category_id],
                metadata,
                ctx.now_ms,
            ),
        );
        if new_units > old_units {
            new_units - old_units
        } else {
            0
        }
    }

    /// The storage units a `category_update` frees (zero when it grows).
    pub open spec fn category_update_shrink(
        &self,
        ctx: CallContext,
        category_id: Seq<char>,
        metadata: CategoryMetadata,
    ) -> int {
        let old_units = spec_category_meta_units(self.cat_store().metas()[category_id]);
        let new_units = spec_category_meta_units(
            spec_category_meta_updated(
                self.cat_store().metas()[category_id],
                metadata,
                ctx.now_ms,
            ),
        );
        if old_units > new_units {
            old_units - new_units
        } else {
            0
        }
    }

    /// Why `category_update` would be refused, if anything.
    pub open spec fn category_update_error(
        &self,
        ctx: CallContext,
        category_id: Seq<char>,
        metadata: CategoryMetadata,
    ) -> Option<RegistryError> {
        if ctx.attached < 1 {
            Some(RegistryError::PaymentPolicyViolation)
        } else if !self.cat_store().has(category_id) {
            Some(RegistryError::NotFound)
        } else if self.cat_store().owners()[category_id]@ != ctx.caller@ {
            Some(RegistryError::Unauthorized)
        } else if (ctx.attached as int) < self.category_update_growth(ctx, category_id, metadata)
            * ctx.price_per_byte {
            Some(RegistryError::InsufficientPayment)
        } else {
            None
        }
    }

    /// Update the metadata of `category_id`: the caller must own the
    /// category; the allow-listed fields are replaced and `updated_at` is
    /// stamped.  Storage growth is charged, shrinkage is released back to
    /// the caller.
    pub fn category_update(
        &mut self,
        ctx: &CallContext,
        category_id: CategoryId,
        metadata: CategoryMetadata,
    ) -> (r: Result<Receipt, RegistryError>)
        requires
            old(self).wf(),
            old(self).cat_store().has(category_id@)
                ==> old(self).category_update_growth(*ctx, category_id@, metadata)
                    * ctx.price_per_byte <= u128::MAX,
            old(self).cat_store().has(category_id@)
                ==> old(self).category_update_shrink(*ctx, category_id@, metadata)
                    * ctx.price_per_byte <= u128::MAX,
        ensures
            final(self).wf(),
            r is Err <==> old(self).category_update_error(*ctx, category_id@, metadata) is Some,
            r matches Err(e)
                ==> Some(e) == old(self).category_update_error(*ctx, category_id@, metadata)
                    && *final(self) == *old(self),
            r is Ok ==> final(self).cat_store().owners() == old(self).cat_store().owners(),
            r is Ok ==> final(self).cat_store().owner_index()
                == old(self).cat_store().owner_index(),
            r is Ok ==> final(self).cat_store().metas()
                == old(self).cat_store().metas().insert(
                    category_id@,
                    spec_category_meta_updated(
                        old(self).cat_store().metas()[category_id@],
                        metadata,
                        ctx.now_ms,
                    ),
                ),
            r is Ok ==> final(self).token_store() == old(self).token_store()
                && final(self).token_cats() == old(self).token_cats()
                && final(self).category_index() == old(self).category_index()
                && final(self).counter() == old(self).counter(),
            r matches Ok(rc) ==> rc.settlement == spec_settlement(
                old(self).category_update_growth(*ctx, category_id@, metadata) as u128,
                old(self).category_update_shrink(*ctx, category_id@, metadata) as u128,
                ctx.attached,
                ctx.price_per_byte,
            ),
            r matches Ok(rc) ==> rc.events@.len() == 1 && is_category_update_event(
                rc.events@[0],
                ctx.caller@,
                category_id@,
                old(self).cat_store().metas()[category_id@],
                spec_category_meta_updated(
                    old(self).cat_store().metas()[category_id@],
                    metadata,
                    ctx.now_ms,
                ),
            ),
    {
        if let Err(e) = check_policy(PaymentPolicy::AtLeastOneUnit, ctx.attached) {
            return Err(e);
        }
        match self.categories.owner_of(&category_id) {
            None => {
                return Err(RegistryError::NotFound);
            },
            Some(o) => {
                if !(*o == ctx.caller) {
                    return Err(RegistryError::Unauthorized);
                }
            },
        }
        let old_meta = match self.categories.meta_of(&category_id) {
            Some(m) => m.duplicate(),
            None => {
                proof {
                    assert(false);
                }
                return Err(RegistryError::NotFound);
            },
        };
        let new_meta = old_meta.with_update(&metadata, ctx.now_ms);
        let old_units = old_meta.units();
        let new_units = new_meta.units();
        let growth: u128 = if new_units > old_units { new_units - old_units } else { 0 };
        let shrink: u128 = if old_units > new_units { old_units - new_units } else { 0 };
        let settlement = match settle(growth, shrink, ctx.attached, ctx.price_per_byte) {
            Ok(s) => s,
            Err(e) => {
                return Err(e);
            },
        };
        let stored_meta = new_meta.duplicate();
        self.categories.update_meta(&category_id, stored_meta);
        let mut category_ids: Vec<String> = Vec::new();
        let mut old_category_metadatas: Vec<CategoryMetadata> = Vec::new();
        let mut new_category_metadatas: Vec<CategoryMetadata> = Vec::new();
        let ghost idv = category_id@;
        let ghost old_mv = old_meta;
        let ghost new_mv = new_meta;
        category_ids.push(category_id);
        old_category_metadatas.push(old_meta);
        new_category_metadatas.push(new_meta);
        proof {
            assert(category_ids.deep_view() =~= seq![idv]);
            assert(old_category_metadatas@ =~= seq![old_mv]);
            assert(new_category_metadatas@ =~= seq![new_mv]);
        }
        let log = CategoryUpdateLog {
            authorized_id: Some(ctx.caller.clone()),
            category_ids,
            old_category_metadatas,
            new_category_metadatas,
        };
        let mut logs: Vec<CategoryUpdateLog> = Vec::new();
        let ghost logv = log;
        logs.push(log);
        proof {
            assert(logs@ =~= seq![logv]);
        }
        let event = EventLog {
            standard: "cecert".to_owned(),
            version: "0.1.0".to_owned(),
            event: EventLogVariant::CategoryUpdate(logs),
        };
        let mut events: Vec<EventLog> = Vec::new();
        let ghost ev = event;
        events.push(event);
        proof {
            assert(events@ =~= seq![ev]);
            assert forall|c: Seq<char>| #[trigger] final(self).category_index().contains_key(c)
                implies final(self).cat_store().has(c) by {
                assert(old(self).category_index().contains_key(c));
                assert(old(self).cat_store().has(c));
            }
            lemma_token_side_wf(*old(self), *final(self));
        }
        Ok(Receipt { settlement, events })
    }

    /// Why `category_delete` would be refused, if anything: the
    /// exact-payment policy, existence and ownership first, then
    /// referential integrity — a category whose index set is non-empty
    /// cannot be deleted.
    pub open spec fn category_delete_error(&self, ctx: CallContext, category_id: Seq<char>)
        -> Option<RegistryError> {
        if ctx.attached != 1 {
            Some(RegistryError::PaymentPolicyViolation)
        } else if !self.cat_store().has(category_id) {
            Some(RegistryError::NotFound)
        } else if self.cat_store().owners()[category_id]@ != ctx.caller@ {
            Some(RegistryError::Unauthorized)
        } else if self.category_index().contains_key(category_id) {
            Some(RegistryError::NonEmptyCategory)
        } else {
            None
        }
    }

    /// The storage units deleting `category_id` frees: its whole entry at
    /// its current metadata.
    pub open spec fn category_delete_freed(&self, category_id: Seq<char>) -> int {
        spec_category_entry_units(
            category_id,
            self.cat_store().owners()[category_id]@,
            self.cat_store().metas()[category_id],
        ) as int
    }

    /// Delete the category `category_id`: the caller must own it, attach
    /// exactly one minimal unit, and the category must have no tokens
    /// left.  Record, metadata and index membership are removed together
    /// and the freed storage value is released to the caller.
    pub fn category_delete(&mut self, ctx: &CallContext, category_id: CategoryId)
        -> (r: Result<Receipt, RegistryError>)
        requires
            old(self).wf(),
            old(self).cat_store().has(category_id@)
                ==> old(self).category_delete_freed(category_id@) * ctx.price_per_byte
                    <= u128::MAX,
        ensures
            final(self).wf(),
            r is Err <==> old(self).category_delete_error(*ctx, category_id@) is Some,
            r matches Err(e) ==> Some(e) == old(self).category_delete_error(*ctx, category_id@)
                && *final(self) == *old(self),
            r is Ok ==> final(self).cat_store().owners()
                == old(self).cat_store().owners().remove(category_id@),
            r is Ok ==> final(self).cat_store().metas()
                == old(self).cat_store().metas().remove(category_id@),
            r is Ok ==> forall|o: Seq<char>, x: Seq<char>|
                #[trigger] final(self).cat_store().index_mem(o, x)
                    <==> old(self).cat_store().index_mem(o, x) && x != category_id@,
            r is Ok ==> final(self).token_store() == old(self).token_store()
                && final(self).token_cats() == old(self).token_cats()
                && final(self).category_index() == old(self).category_index()
                && final(self).counter() == old(self).counter(),
            r matches Ok(rc) ==> rc.settlement == spec_settlement(
                0,
                old(self).category_delete_freed(category_id@) as u128,
                ctx.attached,
                ctx.price_per_byte,
            ),
            r matches Ok(rc) ==> rc.events@.len() == 1 && is_category_delete_event(
                rc.events@[0],
                ctx.caller@,
                category_id@,
            ),
    {
        if let Err(e) = check_policy(PaymentPolicy::ExactlyOneUnit, ctx.attached) {
            return Err(e);
        }
        let owner = match self.categories.owner_of(&category_id) {
            None => {
                return Err(RegistryError::NotFound);
            },
            Some(o) => {
                if !(*o == ctx.caller) {
                    return Err(RegistryError::Unauthorized);
                }
                o.clone()
            },
        };
        if self.by_category.contains_key(&category_id) {
            return Err(RegistryError::NonEmptyCategory);
        }
        let stored_meta = match self.categories.meta_of(&category_id) {
            Some(m) => m.duplicate(),
            None => {
                proof {
                    assert(false);
                }
                return Err(RegistryError::NotFound);
            },
        };
        let freed = category_entry_units(&category_id, &owner, &stored_meta);
        let settlement = match settle(0, freed, ctx.attached, ctx.price_per_byte) {
            Ok(s) => s,
            Err(e) => {
                proof {
                    assert(false);
                }
                return Err(e);
            },
        };
        let _ = self.categories.remove_entity(&category_id);
        let mut category_ids: Vec<String> = Vec::new();
        let ghost idv = category_id@;
        category_ids.push(category_id);
        proof {
            assert(category_ids.deep_view() =~= seq![idv]);
        }
        let log = CategoryDeleteLog {
            authorized_id: Some(ctx.caller.clone()),
            category_ids,
        };
        let mut logs: Vec<CategoryDeleteLog> = Vec::new();
        let ghost logv = log;
        logs.push(log);
        proof {
            assert(logs@ =~= seq![logv]);
        }
        let event = EventLog {
            standard: "cecert".to_owned(),
            version: "0.1.0".to_owned(),
            event: EventLogVariant::CategoryDelete(logs),
        };
        let mut events: Vec<EventLog> = Vec::new();
        let ghost ev = event;
        events.push(event);
        proof {
            assert(events@ =~= seq![ev]);
            assert forall|c: Seq<char>| #[trigger] final(self).category_index().contains_key(c)
                implies final(self).cat_store().has(c) by {
                assert(old(self).category_index().contains_key(c));
                assert(c != category_id@);
                assert(old(self).cat_store().has(c));
            }
            lemma_token_side_wf(*old(self), *final(self));
        }
        Ok(Receipt { settlement, events })
    }

    /// The primary record of `category_id` (its owner), if it exists.
    pub fn category_record(&self, category_id: &CategoryId) -> (r: Option<Category>)
        requires
            self.wf(),
        ensures
            r is Some <==> self.cat_store().has(category_id@),
            r matches Some(c) ==> c.owner_id == self.cat_store().owners()[category_id@],
    {
        match self.categories.owner_of(category_id) {
            None => None,
            Some(o) => Some(Category { owner_id: o.clone() }),
        }
    }

    /// The joined record and metadata of `category_id`, if it exists.
    pub fn category_info(&self, category_id: CategoryId) -> (r: Option<JsonCategory>)
        requires
            self.wf(),
        ensures
            r is Some <==> self.cat_store().has(category_id@),
            r matches Some(j) ==> j.category_id == category_id
                && j.owner_id == self.cat_store().owners()[category_id@]
                && j.metadata == self.cat_store().metas()[category_id@],
    {
        let owner = match self.categories.owner_of(&category_id) {
            None => {
                return None;
            },
            Some(o) => o.clone(),
        };
        let metadata = match self.categories.meta_of(&category_id) {
            Some(m) => m.duplicate(),
            None => {
                proof {
                    assert(false);
                }
                return None;
            },
        };
        Some(JsonCategory { category_id, owner_id: owner, metadata })
    }

    /// The categories of `account_id`, joined with their metadata,
    /// paginated by `from_index` (default 0) and `limit` (default 50)
    /// over the index's stable enumeration order.  An owner with no
    /// categories yields an empty listing.
    pub fn categories_for_owner(
        &self,
        account_id: String,
        from_index: Option<u64>,
        limit: Option<u64>,
    ) -> (r: Vec<JsonCategory>)
        requires
            self.wf(),
        ensures
            ({
                let ids = page(
                    if self.cat_store().owner_index().contains_key(account_id@) {
                        self.cat_store().owner_index()[account_id@]
                    } else {
                        Seq::empty()
                    },
                    from_index.unwrap_or(0) as nat,
                    limit.unwrap_or(50) as nat,
                );
                &&& r@.len() == ids.len()
                &&& forall|k: int| #![trigger r@[k]] 0 <= k < ids.len() ==> r@[k].category_id@
                    == ids[k]
                    && r@[k].owner_id == self.cat_store().owners()[ids[k]]
                    && r@[k].metadata == self.cat_store().metas()[ids[k]]
            }),
    {
        let start: u64 = match from_index {
            Some(s) => s,
            None => 0,
        };
        let lim: u64 = match limit {
            Some(l) => l,
            None => 50,
        };
        let ids = self.categories.list_ids(&account_id, start, lim);
        let ghost idseq = ids.deep_view();
        let ghost full = if self.cat_store().owner_index().contains_key(account_id@) {
            self.cat_store().owner_index()[account_id@]
        } else {
            Seq::empty()
        };
        proof {
            assert forall|k: int| 0 <= k < idseq.len() implies
                #[trigger] self.cat_store().has(idseq[k])
                    && self.cat_store().owners()[idseq[k]]@ == account_id@ by {
                let start_i = start as int;
                assert(idseq[k] == full[start_i + k]);
                assert(full.contains(idseq[k]));
                assert(self.cat_store().index_mem(account_id@, idseq[k]));
            }
        }
        let mut r: Vec<JsonCategory> = Vec::new();
        let n = ids.len();
        let mut i: usize = 0;
        while i < n
            invariant
                self.wf(),
                n == ids@.len(),
                idseq == ids.deep_view(),
                idseq.len() == n as nat,
                forall|k: int| 0 <= k < idseq.len()
                    ==> #[trigger] self.cat_store().has(idseq[k])
                        && self.cat_store().owners()[idseq[k]]@ == account_id@,
                i <= n,
                r@.len() == i as nat,
                forall|k: int| #![trigger r@[k]] 0 <= k < i ==> r@[k].category_id@ == idseq[k]
                    && r@[k].owner_id == self.cat_store().owners()[idseq[k]]
                    && r@[k].metadata == self.cat_store().metas()[idseq[k]],
            decreases n - i,
        {
            let id = ids[i].clone();
            proof {
                assert(id@ == idseq[i as int]);
                assert(self.cat_store().has(idseq[i as int]));
            }
            let owner = match self.categories.owner_of(&id) {
                Some(o) => o.clone(),
                None => {
                    proof {
                        assert(false);
                    }
                    return r;
                },
            };
            let metadata = match self.categories.meta_of(&id) {
                Some(m) => m.duplicate(),
                None => {
                    proof {
                        assert(false);
                    }
                    return r;
                },
            };
            r.push(JsonCategory { category_id: id, owner_id: owner, metadata });
            i = i + 1;
        }
        proof {
            assert(start == from_index.unwrap_or(0));
            assert(lim == limit.unwrap_or(50));
            assert(idseq == page(full, from_index.unwrap_or(0) as nat,
                limit.unwrap_or(50) as nat));
        }
        r
    }
}

/// The ids a bulk mint of `n` tokens assigns, starting at counter value
/// `count`: consecutive counter values rendered in decimal.
pub open spec fn minted_ids(count: nat, n: nat) -> Seq<Seq<char>> {
    Seq::new(n, |i: int| dec_str((count + i) as nat))
}

/// The total storage units of a bulk mint: each token's whole entry, at
/// its assigned id and stamped metadata, summed in mint order.
pub open spec fn spec_bulk_units(
    count: nat,
    receivers: Seq<String>,
    metas: Seq<TokenMetadata>,
    cat: Seq<char>,
    now: u64,
) -> nat
    decreases receivers.len(),
{
    if receivers.len() == 0 {
        0
    } else {
        spec_token_entry_units(dec_str(count), receivers[0]@, cat,
            spec_token_meta_stamped(metas[0], now))
            + spec_bulk_units(count + 1, receivers.skip(1), metas.skip(1), cat, now)
    }
}

impl Contract {
    /// The account that governs token `tid`: the owner of the category
    /// the token was minted into (the certificate provider).
    pub open spec fn token_provider(&self, tid: Seq<char>) -> Seq<char> {
        self.cat_store().owners()[self.token_cats()[tid]@]@
    }

    /// The storage cost of minting the next token to `receiver` in
    /// `category_id` with `metadata`, under the calling context.
    pub open spec fn mint_cost(
        &self,
        ctx: CallContext,
        receiver: Seq<char>,
        category_id: Seq<char>,
        metadata: TokenMetadata,
    ) -> int {
        spec_token_entry_units(
            dec_str(self.counter() as nat),
            receiver,
            category_id,
            spec_token_meta_stamped(metadata, ctx.now_ms),
        ) * ctx.price_per_byte
    }

    /// Why `nft_mint` would be refused, if anything: the payment policy
    /// first, then existence and ownership of the target category (only a
    /// category's owner may mint into it), then coverage of the storage
    /// cost.
    pub open spec fn nft_mint_error(
        &self,
        ctx: CallContext,
        receiver: Seq<char>,
        category_id: Seq<char>,
        metadata: TokenMetadata,
    ) -> Option<RegistryError> {
        if ctx.attached < 1 {
            Some(RegistryError::PaymentPolicyViolation)
        } else if !self.cat_store().has(category_id) {
            Some(RegistryError::NotFound)
        } else if self.cat_store().owners()[category_id]@ != ctx.caller@ {
            Some(RegistryError::Unauthorized)
        } else if (ctx.attached as int) < self.mint_cost(ctx, receiver, category_id, metadata) {
            Some(RegistryError::InsufficientPayment)
        } else {
            None
        }
    }

    /// Mint one token: assign the next counter value as its id, store the
    /// record, the stamped metadata and the category binding, index it
    /// under its owner and its category, and increment the counter.
    fn internal_mint_token(
        &mut self,
        ctx: &CallContext,
        receiver_id: &String,
        category_id: &String,
        metadata: &TokenMetadata,
    ) -> (ev: EventLog)
        requires
            old(self).wf(),
            old(self).counter() < u128::MAX,
            old(self).cat_store().has(category_id@),
        ensures
            final(self).wf(),
            final(self).counter() == old(self).counter() + 1,
            final(self).cat_store() == old(self).cat_store(),
            final(self).contract_owner() == old(self).contract_owner(),
            final(self).spec_nft_metadata() == old(self).spec_nft_metadata(),
            !old(self).token_store().has(dec_str(old(self).counter() as nat)),
            final(self).token_store().owners() == old(self).token_store().owners().insert(
                dec_str(old(self).counter() as nat),
                *receiver_id,
            ),
            final(self).token_store().metas() == old(self).token_store().metas().insert(
                dec_str(old(self).counter() as nat),
                spec_token_meta_stamped(*metadata, ctx.now_ms),
            ),
            final(self).token_cats() == old(self).token_cats().insert(
                dec_str(old(self).counter() as nat),
                *category_id,
            ),
            final(self).token_store().owner_index()
                == old(self).token_store().owner_index().insert(
                receiver_id@,
                if old(self).token_store().owner_index().contains_key(receiver_id@) {
                    old(self).token_store().owner_index()[receiver_id@].push(
                        dec_str(old(self).counter() as nat),
                    )
                } else {
                    seq![dec_str(old(self).counter() as nat)]
                },
            ),
            final(self).category_index() == old(self).category_index().insert(
                category_id@,
                if old(self).category_index().contains_key(category_id@) {
                    old(self).category_index()[category_id@].push(
                        dec_str(old(self).counter() as nat),
                    )
                } else {
                    seq![dec_str(old(self).counter() as nat)]
                },
            ),
            forall|c: Seq<char>, x: Seq<char>| #[trigger] final(self).cat_mem(c, x)
                <==> old(self).cat_mem(c, x)
                    || (c == category_id@ && x == dec_str(old(self).counter() as nat)),
            forall|o: Seq<char>, x: Seq<char>|
                #[trigger] final(self).token_store().index_mem(o, x)
                    <==> old(self).token_store().index_mem(o, x)
                        || (o == receiver_id@ && x == dec_str(old(self).counter() as nat)),
            is_nft_mint_event(ev, receiver_id@, dec_str(old(self).counter() as nat)),
    {
        let tid = u128_to_dec(self.count_token_id);
        let ghost tidv = dec_str(old(self).counter() as nat);
        proof {
            assert(!old(self).token_store().has(tidv)) by {
                if old(self).token_store().owners().contains_key(tidv) {
                    let n = choose|n: nat|
                        n < old(self).counter() && tidv == dec_str(n);
                    lemma_dec_str_injective(n, old(self).counter() as nat);
                }
            }
        }
        let stamped = metadata.stamped(ctx.now_ms);
        let created = self.tokens.create(&tid, receiver_id, stamped);
        proof {
            assert(created is Ok);
        }
        self.count_token_id = self.count_token_id + 1;
        proof {
            assert(!old(self).token_cats().contains_key(tidv));
        }
        let _ = self.token_category.insert(tid.clone(), category_id.clone());
        proof {
            assert(!old(self).cat_mem(category_id@, tidv));
            assert(!self.by_category.mem(category_id@, tidv));
        }
        self.by_category.add(category_id, &tid);
        proof {
            assert(final(self).token_cats().dom() =~= final(self).token_store().owners().dom());
            assert forall|o: Seq<char>, x: Seq<char>|
                #[trigger] final(self).token_store().index_mem(o, x)
                    <==> old(self).token_store().index_mem(o, x)
                        || (o == receiver_id@ && x == tidv) by {
                assert(final(self).token_store().index_mem(o, x)
                    == self.tokens.index_mem(o, x));
                assert(old(self).token_store().index_mem(o, x)
                    == old(self).tokens.index_mem(o, x));
            }
            assert forall|c: Seq<char>, x: Seq<char>| #[trigger] final(self).cat_mem(c, x)
                implies final(self).token_cats().contains_key(x)
                    && final(self).token_cats()[x]@ == c by {
                assert(self.by_category.mem(c, x)
                    == (old(self).by_category.mem(c, x) || (c == category_id@ && x == tidv)));
                assert(old(self).cat_mem(c, x) == old(self).by_category.mem(c, x));
                if !(c == category_id@ && x == tidv) {
                    assert(old(self).cat_mem(c, x));
                    assert(x != tidv);
                }
            }
            assert forall|c: Seq<char>, x: Seq<char>|
                final(self).token_cats().contains_key(x) && final(self).token_cats()[x]@ == c
                implies #[trigger] final(self).cat_mem(c, x) by {
                assert(self.by_category.mem(c, x)
                    == (old(self).by_category.mem(c, x) || (c == category_id@ && x == tidv)));
                assert(old(self).cat_mem(c, x) == old(self).by_category.mem(c, x));
                if x != tidv {
                    assert(old(self).cat_mem(c, x));
                }
            }
            assert forall|c: Seq<char>| #[trigger] final(self).category_index().contains_key(c)
                implies final(self).category_index()[c].len() > 0
                    && final(self).cat_store().has(c) by {
                if c != category_id@ {
                    assert(old(self).category_index().contains_key(c));
                }
            }
            assert forall|id: Seq<char>|
                #[trigger] final(self).token_store().owners().contains_key(id) implies
                exists|n: nat| n < final(self).counter() && id == dec_str(n) by {
                if id == tidv {
                    assert((old(self).counter() as nat) < final(self).counter()
                        && id == dec_str(old(self).counter() as nat));
                } else {
                    assert(old(self).token_store().owners().contains_key(id));
                    let n = choose|n: nat| n < old(self).counter() && id == dec_str(n);
                    assert(n < final(self).counter() && id == dec_str(n));
                }
            }
        }
        let mut token_ids: Vec<String> = Vec::new();
        token_ids.push(tid);
        proof {
            assert(token_ids.deep_view() =~= seq![tidv]);
        }
        let log = NftMintLog {
            owner_id: receiver_id.clone(),
            token_ids,
            memo: None,
        };
        let mut logs: Vec<NftMintLog> = Vec::new();
        let ghost logv = log;
        logs.push(log);
        proof {
            assert(logs@ =~= seq![logv]);
        }
        EventLog {
            standard: "nep171".to_owned(),
            version: "1.0.0".to_owned(),
            event: EventLogVariant::NftMint(logs),
        }
    }

    /// Mint one token to `receiver_id` in `category_id`: the caller must
    /// own the category.  The token id is the counter's value rendered in
    /// decimal; the counter increments.  The caller pays for the stored
    /// bytes and is refunded the excess above the dust threshold.
    pub fn nft_mint(
        &mut self,
        ctx: &CallContext,
        metadata: TokenMetadata,
        receiver_id: String,
        category_id: CategoryId,
    ) -> (r: Result<Receipt, RegistryError>)
        requires
            old(self).wf(),
            old(self).counter() < u128::MAX,
            old(self).mint_cost(*ctx, receiver_id@, category_id@, metadata) <= u128::MAX,
        ensures
            final(self).wf(),
            r is Err <==> old(self).nft_mint_error(
                *ctx,
                receiver_id@,
                category_id@,
                metadata,
            ) is Some,
            r matches Err(e) ==> Some(e) == old(self).nft_mint_error(
                *ctx,
                receiver_id@,
                category_id@,
                metadata,
            ) && *final(self) == *old(self),
            r is Ok ==> final(self).counter() == old(self).counter() + 1
                && !old(self).token_store().has(dec_str(old(self).counter() as nat))
                && final(self).token_store().owners()
                    == old(self).token_store().owners().insert(
                    dec_str(old(self).counter() as nat),
                    receiver_id,
                )
                && final(self).token_store().metas()
                    == old(self).token_store().metas().insert(
                    dec_str(old(self).counter() as nat),
                    spec_token_meta_stamped(metadata, ctx.now_ms),
                )
                && final(self).token_cats() == old(self).token_cats().insert(
                    dec_str(old(self).counter() as nat),
                    category_id,
                )
                && final(self).token_store().owner_index()
                    == old(self).token_store().owner_index().insert(
                    receiver_id@,
                    if old(self).token_store().owner_index().contains_key(receiver_id@) {
                        old(self).token_store().owner_index()[receiver_id@].push(
                            dec_str(old(self).counter() as nat),
                        )
                    } else {
                        seq![dec_str(old(self).counter() as nat)]
                    },
                )
                && final(self).category_index() == old(self).category_index().insert(
                    category_id@,
                    if old(self).category_index().contains_key(category_id@) {
                        old(self).category_index()[category_id@].push(
                            dec_str(old(self).counter() as nat),
                        )
                    } else {
                        seq![dec_str(old(self).counter() as nat)]
                    },
                )
                && final(self).cat_store() == old(self).cat_store(),
            r matches Ok(rc) ==> rc.settlement == spec_settlement(
                spec_token_entry_units(
                    dec_str(old(self).counter() as nat),
                    receiver_id@,
                    category_id@,
                    spec_token_meta_stamped(metadata, ctx.now_ms),
                ) as u128,
                0,
                ctx.attached,
                ctx.price_per_byte,
            ),
            r matches Ok(rc) ==> rc.events@.len() == 1 && is_nft_mint_event(
                rc.events@[0],
                receiver_id@,
                dec_str(old(self).counter() as nat),
            ),
    {
        if let Err(e) = check_policy(PaymentPolicy::AtLeastOneUnit, ctx.attached) {
            return Err(e);
        }
        match self.categories.owner_of(&category_id) {
            None => {
                return Err(RegistryError::NotFound);
            },
            Some(o) => {
                if !(*o == ctx.caller) {
                    return Err(RegistryError::Unauthorized);
                }
            },
        }
        let tid = u128_to_dec(self.count_token_id);
        let stamped = metadata.stamped(ctx.now_ms);
        let units = token_entry_units(&tid, &receiver_id, &category_id, &stamped);
        let settlement = match settle(units, 0, ctx.attached, ctx.price_per_byte) {
            Ok(s) => s,
            Err(e) => {
                return Err(e);
            },
        };
        let ev = self.internal_mint_token(ctx, &receiver_id, &category_id, &metadata);
        let mut events: Vec<EventLog> = Vec::new();
        let ghost evv = ev;
        events.push(ev);
        proof {
            assert(events@ =~= seq![evv]);
        }
        Ok(Receipt { settlement, events })
    }
}

impl Contract {
    /// Why `nft_bulk_mint` would be refused, if anything: the payment
    /// policy first, then existence and ownership of the target category,
    /// then coverage of the total storage cost of all minted tokens.
    pub open spec fn nft_bulk_mint_error(
        &self,
        ctx: CallContext,
        receivers: Seq<String>,
        metas: Seq<TokenMetadata>,
        category_id: Seq<char>,
    ) -> Option<RegistryError> {
        if ctx.attached < 1 {
            Some(RegistryError::PaymentPolicyViolation)
        } else if !self.cat_store().has(category_id) {
            Some(RegistryError::NotFound)
        } else if self.cat_store().owners()[category_id]@ != ctx.caller@ {
            Some(RegistryError::Unauthorized)
        } else if (ctx.attached as int) < spec_bulk_units(
            self.counter() as nat,
            receivers,
            metas,
            category_id,
            ctx.now_ms,
        ) * ctx.price_per_byte {
            Some(RegistryError::InsufficientPayment)
        } else {
            None
        }
    }

    /// Mint one token per receiver into `category_id`, pairing the i-th
    /// receiver with the i-th metadata: the caller must own the category.
    /// Ids are consecutive counter values; the counter increments once
    /// per token, and one mint event is emitted per token.  The caller
    /// pays the total storage cost of all tokens and is refunded the
    /// excess above the dust threshold.
    #[verifier::rlimit(100)]
    pub fn nft_bulk_mint(
        &mut self,
        ctx: &CallContext,
        metadatas: Vec<TokenMetadata>,
        receiver_ids: Vec<String>,
        category_id: CategoryId,
    ) -> (r: Result<Receipt, RegistryError>)
        requires
            old(self).wf(),
            metadatas@.len() == receiver_ids@.len(),
            old(self).counter() + receiver_ids@.len() <= u128::MAX,
            spec_bulk_units(
                old(self).counter() as nat,
                receiver_ids@,
                metadatas@,
                category_id@,
                ctx.now_ms,
            ) <= u128::MAX,
            spec_bulk_units(
                old(self).counter() as nat,
                receiver_ids@,
                metadatas@,
                category_id@,
                ctx.now_ms,
            ) * ctx.price_per_byte <= u128::MAX,
        ensures
            final(self).wf(),
            r is Err <==> old(self).nft_bulk_mint_error(
                *ctx,
                receiver_ids@,
                metadatas@,
                category_id@,
            ) is Some,
            r matches Err(e) ==> Some(e) == old(self).nft_bulk_mint_error(
                *ctx,
                receiver_ids@,
                metadatas@,
                category_id@,
            ) && *final(self) == *old(self),
            r is Ok ==> final(self).counter() == old(self).counter() + receiver_ids@.len(),
            r is Ok ==> final(self).cat_store() == old(self).cat_store(),
            r is Ok ==> ({
                let n = receiver_ids@.len() as int;
                let ids = minted_ids(old(self).counter() as nat, receiver_ids@.len());
                &&& forall|i: int| #![trigger ids[i]] 0 <= i < n
                    ==> final(self).token_store().owners().contains_key(ids[i])
                        && final(self).token_store().owners()[ids[i]] == receiver_ids@[i]
                        && final(self).token_store().metas()[ids[i]]
                            == spec_token_meta_stamped(metadatas@[i], ctx.now_ms)
                        && final(self).token_cats()[ids[i]] == category_id
                &&& forall|x: Seq<char>|
                    #[trigger] old(self).token_store().owners().contains_key(x)
                        ==> final(self).token_store().owners().contains_key(x)
                            && final(self).token_store().owners()[x]
                                == old(self).token_store().owners()[x]
                            && final(self).token_store().metas()[x]
                                == old(self).token_store().metas()[x]
                            && final(self).token_cats()[x] == old(self).token_cats()[x]
                &&& forall|x: Seq<char>|
                    #[trigger] final(self).token_store().owners().contains_key(x)
                        ==> old(self).token_store().owners().contains_key(x)
                            || (exists|k: int| 0 <= k < n && x == ids[k])
                &&& forall|o: Seq<char>, x: Seq<char>|
                    #[trigger] final(self).token_store().index_mem(o, x)
                        <==> old(self).token_store().index_mem(o, x)
                            || (exists|k: int| 0 <= k < n && o == receiver_ids@[k]@
                                && x == ids[k])
                &&& forall|c: Seq<char>, x: Seq<char>| #[trigger] final(self).cat_mem(c, x)
                    <==> old(self).cat_mem(c, x)
                        || (c == category_id@ && exists|k: int| 0 <= k < n && x == ids[k])
            }),
            r matches Ok(rc) ==> ({
                let n = receiver_ids@.len() as int;
                let ids = minted_ids(old(self).counter() as nat, receiver_ids@.len());
                &&& rc.events@.len() == n
                &&& forall|i: int| #![trigger rc.events@[i]] 0 <= i < n
                    ==> is_nft_mint_event(rc.events@[i], receiver_ids@[i]@, ids[i])
                &&& rc.settlement == spec_settlement(
                    spec_bulk_units(
                        old(self).counter() as nat,
                        receiver_ids@,
                        metadatas@,
                        category_id@,
                        ctx.now_ms,
                    ) as u128,
                    0,
                    ctx.attached,
                    ctx.price_per_byte,
                )
            }),
    {
        if let Err(e) = check_policy(PaymentPolicy::AtLeastOneUnit, ctx.attached) {
            return Err(e);
        }
        match self.categories.owner_of(&category_id) {
            None => {
                return Err(RegistryError::NotFound);
            },
            Some(o) => {
                if !(*o == ctx.caller) {
                    return Err(RegistryError::Unauthorized);
                }
            },
        }
        let n = receiver_ids.len();
        let base = self.count_token_id;
        let ghost count0 = self.counter() as nat;
        let ghost total_units = spec_bulk_units(count0, receiver_ids@, metadatas@, category_id@,
            ctx.now_ms);
        let mut total: u128 = 0;
        let mut i: usize = 0;
        proof {
            assert(receiver_ids@.skip(0) =~= receiver_ids@);
            assert(metadatas@.skip(0) =~= metadatas@);
        }
        while i < n
            invariant
                n == receiver_ids@.len(),
                metadatas@.len() == n as nat,
                base as nat == count0,
                count0 + n <= u128::MAX,
                total_units == spec_bulk_units(count0, receiver_ids@, metadatas@, category_id@,
                    ctx.now_ms),
                total_units <= u128::MAX,
                i <= n,
                total as nat + spec_bulk_units(
                    (count0 + i) as nat,
                    receiver_ids@.skip(i as int),
                    metadatas@.skip(i as int),
                    category_id@,
                    ctx.now_ms,
                ) == total_units,
            decreases n - i,
        {
            let tid = u128_to_dec(base + i as u128);
            let stamped = metadatas[i].stamped(ctx.now_ms);
            let u = token_entry_units(&tid, &receiver_ids[i], &category_id, &stamped);
            proof {
                assert(receiver_ids@.skip(i as int)[0] == receiver_ids@[i as int]);
                assert(metadatas@.skip(i as int)[0] == metadatas@[i as int]);
                assert(receiver_ids@.skip(i as int).skip(1) =~= receiver_ids@.skip(i + 1));
                assert(metadatas@.skip(i as int).skip(1) =~= metadatas@.skip(i + 1));
                assert(spec_bulk_units((count0 + i) as nat, receiver_ids@.skip(i as int),
                    metadatas@.skip(i as int), category_id@, ctx.now_ms)
                    == u as nat + spec_bulk_units((count0 + i + 1) as nat, receiver_ids@.skip(i + 1),
                        metadatas@.skip(i + 1), category_id@, ctx.now_ms));
            }
            total = total + u;
            i = i + 1;
        }
        proof {
            assert(receiver_ids@.skip(n as int) =~= Seq::<String>::empty());
            assert(metadatas@.skip(n as int) =~= Seq::<TokenMetadata>::empty());
            assert(total as nat == total_units);
        }
        let settlement = match settle(total, 0, ctx.attached, ctx.price_per_byte) {
            Ok(s) => s,
            Err(e) => {
                return Err(e);
            },
        };
        let ghost ids = minted_ids(count0, n as nat);
        let mut events: Vec<EventLog> = Vec::new();
        let mut j: usize = 0;
        while j < n
            invariant
                n == receiver_ids@.len(),
                metadatas@.len() == n as nat,
                count0 == old(self).counter() as nat,
                count0 + n <= u128::MAX,
                ids == minted_ids(count0, n as nat),
                self.wf(),
                j <= n,
                self.counter() as nat == count0 + j,
                self.cat_store() == old(self).cat_store(),
                self.contract_owner() == old(self).contract_owner(),
                self.spec_nft_metadata() == old(self).spec_nft_metadata(),
                self.cat_store().has(category_id@),
                forall|k: int| #![trigger ids[k]] 0 <= k < j
                    ==> self.token_store().owners().contains_key(ids[k])
                        && self.token_store().owners()[ids[k]] == receiver_ids@[k]
                        && self.token_store().metas()[ids[k]]
                            == spec_token_meta_stamped(metadatas@[k], ctx.now_ms)
                        && self.token_cats()[ids[k]] == category_id,
                forall|x: Seq<char>|
                    #[trigger] old(self).token_store().owners().contains_key(x)
                        ==> self.token_store().owners().contains_key(x)
                            && self.token_store().owners()[x]
                                == old(self).token_store().owners()[x]
                            && self.token_store().metas()[x]
                                == old(self).token_store().metas()[x]
                            && self.token_cats()[x] == old(self).token_cats()[x],
                forall|x: Seq<char>|
                    #[trigger] self.token_store().owners().contains_key(x)
                        ==> old(self).token_store().owners().contains_key(x)
                            || (exists|k: int| 0 <= k < j && x == ids[k]),
                forall|o: Seq<char>, x: Seq<char>|
                    #[trigger] self.token_store().index_mem(o, x)
                        <==> old(self).token_store().index_mem(o, x)
                            || (exists|k: int| 0 <= k < j && o == receiver_ids@[k]@
                                && x == ids[k]),
                forall|c: Seq<char>, x: Seq<char>| #[trigger] self.cat_mem(c, x)
                    <==> old(self).cat_mem(c, x)
                        || (c == category_id@ && exists|k: int| 0 <= k < j && x == ids[k]),
                events@.len() == j as nat,
                forall|k: int| #![trigger events@[k]] 0 <= k < j
                    ==> is_nft_mint_event(events@[k], receiver_ids@[k]@, ids[k]),
            decreases n - j,
        {
            let ghost prev = *self;
            let ghost prev_events = events@;
            let ev = self.internal_mint_token(ctx, &receiver_ids[j], &category_id,
                &metadatas[j]);
            events.push(ev);
            proof {
                let tid = dec_str((count0 + j) as nat);
                assert(ids[j as int] == tid);
                assert forall|k: int| #![trigger ids[k]] 0 <= k < j + 1 implies
                    self.token_store().owners().contains_key(ids[k])
                        && self.token_store().owners()[ids[k]] == receiver_ids@[k]
                        && self.token_store().metas()[ids[k]]
                            == spec_token_meta_stamped(metadatas@[k], ctx.now_ms)
                        && self.token_cats()[ids[k]] == category_id by {
                    if k < j {
                        assert(ids[k] == dec_str((count0 + k) as nat));
                        lemma_dec_str_injective((count0 + k) as nat, (count0 + j) as nat);
                        assert(ids[k] != tid);
                    }
                }
                assert forall|x: Seq<char>|
                    #[trigger] old(self).token_store().owners().contains_key(x) implies
                    self.token_store().owners().contains_key(x)
                        && self.token_store().owners()[x] == old(self).token_store().owners()[x]
                        && self.token_store().metas()[x] == old(self).token_store().metas()[x]
                        && self.token_cats()[x] == old(self).token_cats()[x] by {
                    assert(prev.token_store().owners().contains_key(x));
                    assert(x != tid);
                }
                assert forall|x: Seq<char>|
                    #[trigger] self.token_store().owners().contains_key(x) implies
                    old(self).token_store().owners().contains_key(x)
                        || (exists|k: int| 0 <= k < j + 1 && x == ids[k]) by {
                    if x == tid {
                        assert(0 <= j < j + 1 && x == ids[j as int]);
                    } else {
                        assert(prev.token_store().owners().contains_key(x));
                        if !old(self).token_store().owners().contains_key(x) {
                            let k = choose|k: int| 0 <= k < j && x == ids[k];
                            assert(0 <= k < j + 1 && x == ids[k]);
                        }
                    }
                }
                assert forall|o: Seq<char>, x: Seq<char>|
                    #[trigger] self.token_store().index_mem(o, x)
                        <==> old(self).token_store().index_mem(o, x)
                            || (exists|k: int| 0 <= k < j + 1 && o == receiver_ids@[k]@
                                && x == ids[k]) by {
                    assert(self.token_store().index_mem(o, x)
                        <==> prev.token_store().index_mem(o, x)
                            || (o == receiver_ids@[j as int]@ && x == tid));
                    if self.token_store().index_mem(o, x) {
                        if prev.token_store().index_mem(o, x) {
                            if !old(self).token_store().index_mem(o, x) {
                                let k = choose|k: int|
                                    0 <= k < j && o == receiver_ids@[k]@ && x == ids[k];
                                assert(0 <= k < j + 1 && o == receiver_ids@[k]@ && x == ids[k]);
                            }
                        } else {
                            assert(0 <= j < j + 1 && o == receiver_ids@[j as int]@
                                && x == ids[j as int]);
                        }
                    }
                    if exists|k: int| 0 <= k < j + 1 && o == receiver_ids@[k]@ && x == ids[k] {
                        let k = choose|k: int|
                            0 <= k < j + 1 && o == receiver_ids@[k]@ && x == ids[k];
                        if k < j {
                            assert(prev.token_store().index_mem(o, x));
                        }
                    }
                }
                assert forall|c: Seq<char>, x: Seq<char>| #[trigger] self.cat_mem(c, x)
                    <==> old(self).cat_mem(c, x)
                        || (c == category_id@ && exists|k: int| 0 <= k < j + 1 && x == ids[k])
                    by {
                    assert(self.cat_mem(c, x)
                        <==> prev.cat_mem(c, x) || (c == category_id@ && x == tid));
                    if self.cat_mem(c, x) {
                        if prev.cat_mem(c, x) {
                            if !old(self).cat_mem(c, x) {
                                let k = choose|k: int| 0 <= k < j && x == ids[k];
                                assert(0 <= k < j + 1 && x == ids[k]);
                            }
                        } else {
                            assert(0 <= j < j + 1 && x == ids[j as int]);
                        }
                    }
                    if c == category_id@ && exists|k: int| 0 <= k < j + 1 && x == ids[k] {
                        let k = choose|k: int| 0 <= k < j + 1 && x == ids[k];
                        if k < j {
                            assert(prev.cat_mem(c, x));
                        }
                    }
                }
                assert(events@ =~= prev_events.push(ev));
            }
            j = j + 1;
        }
        Ok(Receipt { settlement, events })
    }
}

/// When a mutation changes neither the live id sets, the category
/// bindings, the category index nor the counter, the registry-wide
/// invariants carry over unchanged.
proof fn lemma_same_shape_wf(pre: Contract, post: Contract)
    requires
        pre.wf(),
        post.parts_wf(),
        post.cat_store().wf(),
        post.token_store().wf(),
        post.token_cats() == pre.token_cats(),
        post.category_index() == pre.category_index(),
        post.counter() == pre.counter(),
        post.token_store().owners().dom() == pre.token_store().owners().dom(),
        post.cat_store().owners().dom() == pre.cat_store().owners().dom(),
    ensures
        post.wf(),
{
    assert(post.token_cats().dom() == post.token_store().owners().dom());
    assert forall|c: Seq<char>, id: Seq<char>| #[trigger] post.cat_mem(c, id)
        <==> post.token_cats().contains_key(id) && post.token_cats()[id]@ == c by {
        assert(post.cat_mem(c, id) == pre.cat_mem(c, id));
    }
    assert forall|c: Seq<char>| #[trigger] post.category_index().contains_key(c) implies
        post.category_index()[c].len() > 0 && post.cat_store().has(c) by {
        assert(pre.category_index().contains_key(c));
        assert(pre.cat_store().has(c));
    }
    assert forall|id: Seq<char>| #[trigger] post.token_store().owners().contains_key(id) implies
        exists|n: nat| n < post.counter() && id == dec_str(n) by {
        assert(pre.token_store().owners().contains_key(id));
        let n = choose|n: nat| n < pre.counter() && id == dec_str(n);
        assert(n < post.counter() && id == dec_str(n));
    }
}

impl Contract {
    /// Why `nft_transfer` would be refused, if anything: the
    /// exact-payment policy first, then existence, then ownership (only
    /// the current owner may transfer), then the self-transfer check.
    pub open spec fn nft_transfer_error(
        &self,
        ctx: CallContext,
        receiver: Seq<char>,
        token_id: Seq<char>,
    ) -> Option<RegistryError> {
        if ctx.attached != 1 {
            Some(RegistryError::PaymentPolicyViolation)
        } else if !self.token_store().has(token_id) {
            Some(RegistryError::NotFound)
        } else if self.token_store().owners()[token_id]@ != ctx.caller@ {
            Some(RegistryError::Unauthorized)
        } else if receiver == self.token_store().owners()[token_id]@ {
            Some(RegistryError::SelfTransfer)
        } else {
            None
        }
    }

    /// Transfer the token `token_id` from the caller (its current owner)
    /// to `receiver_id`: the record's owner is rewritten and the id moves
    /// between the two owners' index sets.  The metadata and the category
    /// membership are untouched, and no storage is charged or released.
    pub fn nft_transfer(
        &mut self,
        ctx: &CallContext,
        receiver_id: String,
        token_id: TokenId,
        memo: Option<String>,
    ) -> (r: Result<Receipt, RegistryError>)
        requires
            old(self).wf(),
        ensures
            final(self).wf(),
            r is Err <==> old(self).nft_transfer_error(*ctx, receiver_id@, token_id@) is Some,
            r matches Err(e) ==> Some(e) == old(self).nft_transfer_error(
                *ctx,
                receiver_id@,
                token_id@,
            ) && *final(self) == *old(self),
            r is Ok ==> final(self).token_store().owners()
                == old(self).token_store().owners().insert(token_id@, receiver_id),
            r is Ok ==> final(self).token_store().metas() == old(self).token_store().metas()
                && final(self).token_cats() == old(self).token_cats()
                && final(self).category_index() == old(self).category_index()
                && final(self).counter() == old(self).counter()
                && final(self).cat_store() == old(self).cat_store(),
            r is Ok ==> forall|o: Seq<char>, x: Seq<char>|
                #[trigger] final(self).token_store().index_mem(o, x)
                    <==> (old(self).token_store().index_mem(o, x) && x != token_id@)
                        || (o == receiver_id@ && x == token_id@),
            r matches Ok(rc) ==> rc.settlement
                == spec_settlement(0, 0, ctx.attached, ctx.price_per_byte),
            r matches Ok(rc) ==> rc.events@.len() == 1 && is_nft_transfer_event(
                rc.events@[0],
                old(self).token_store().owners()[token_id@]@,
                receiver_id@,
                token_id@,
                memo,
            ),
    {
        if let Err(e) = check_policy(PaymentPolicy::ExactlyOneUnit, ctx.attached) {
            return Err(e);
        }
        let owner = match self.tokens.owner_of(&token_id) {
            None => {
                return Err(RegistryError::NotFound);
            },
            Some(o) => {
                if !(*o == ctx.caller) {
                    return Err(RegistryError::Unauthorized);
                }
                o.clone()
            },
        };
        if receiver_id == owner {
            return Err(RegistryError::SelfTransfer);
        }
        let settlement = match settle(0, 0, ctx.attached, ctx.price_per_byte) {
            Ok(s) => s,
            Err(e) => {
                proof {
                    assert(false);
                }
                return Err(e);
            },
        };
        self.tokens.set_owner(&token_id, &receiver_id);
        proof {
            assert(final(self).token_store().owners().dom()
                =~= old(self).token_store().owners().dom());
            assert forall|o: Seq<char>, x: Seq<char>|
                #[trigger] final(self).token_store().index_mem(o, x)
                    <==> (old(self).token_store().index_mem(o, x) && x != token_id@)
                        || (o == receiver_id@ && x == token_id@) by {
                assert(final(self).token_store().index_mem(o, x)
                    == self.tokens.index_mem(o, x));
                assert(old(self).token_store().index_mem(o, x)
                    == old(self).tokens.index_mem(o, x));
            }
            lemma_same_shape_wf(*old(self), *final(self));
        }
        let mut token_ids: Vec<String> = Vec::new();
        let ghost tidv = token_id@;
        token_ids.push(token_id);
        proof {
            assert(token_ids.deep_view() =~= seq![tidv]);
        }
        let log = NftTransferLog {
            authorized_id: None,
            old_owner_id: owner,
            new_owner_id: receiver_id.clone(),
            token_ids,
            memo,
        };
        let mut logs: Vec<NftTransferLog> = Vec::new();
        let ghost logv = log;
        logs.push(log);
        proof {
            assert(logs@ =~= seq![logv]);
        }
        let event = EventLog {
            standard: "nep171".to_owned(),
            version: "1.0.0".to_owned(),
            event: EventLogVariant::NftTransfer(logs),
        };
        let mut events: Vec<EventLog> = Vec::new();
        let ghost ev = event;
        events.push(event);
        proof {
            assert(events@ =~= seq![ev]);
        }
        Ok(Receipt { settlement, events })
    }

    /// The storage units a `cert_update` grows (zero when it shrinks).
    pub open spec fn cert_update_growth(
        &self,
        ctx: CallContext,
        token_id: Seq<char>,
        metadata: TokenMetadata,
    ) -> int {
        let old_units = spec_token_meta_units(self.token_store().metas()[token_id]);
        let new_units = spec_token_meta_units(
            spec_token_meta_updated(self.token_store().metas()[token_id], metadata, ctx.now_ms),
        );
        if new_units > old_units {
            new_units - old_units
        } else {
            0
        }
    }

    /// The storage units a `cert_update` frees (zero when it grows).
    pub open spec fn cert_update_shrink(
        &self,
        ctx: CallContext,
        token_id: Seq<char>,
        metadata: TokenMetadata,
    ) -> int {
        let old_units = spec_token_meta_units(self.token_store().metas()[token_id]);
        let new_units = spec_token_meta_units(
            spec_token_meta_updated(self.token_store().metas()[token_id], metadata, ctx.now_ms),
        );
        if old_units > new_units {
            old_units - new_units
        } else {
            0
        }
    }

    /// Why `cert_update` would be refused, if anything: the payment
    /// policy first, then existence, then the provider check — token
    /// metadata is governed by the owner of the token's category, not by
    /// the token's holder — then coverage of the storage growth.
    pub open spec fn cert_update_error(
        &self,
        ctx: CallContext,
        token_id: Seq<char>,
        metadata: TokenMetadata,
    ) -> Option<RegistryError> {
        if ctx.attached < 1 {
            Some(RegistryError::PaymentPolicyViolation)
        } else if !self.token_store().has(token_id) {
            Some(RegistryError::NotFound)
        } else if self.token_provider(token_id) != ctx.caller@ {
            Some(RegistryError::Unauthorized)
        } else if (ctx.attached as int) < self.cert_update_growth(ctx, token_id, metadata)
            * ctx.price_per_byte {
            Some(RegistryError::InsufficientPayment)
        } else {
            None
        }
    }

    /// Update the metadata of token `token_id`: the caller must own the
    /// token's category.  The allow-listed fields are replaced and
    /// `updated_at` is stamped.  Storage growth is charged, shrinkage is
    /// released back to the caller.  No audit event is emitted.
    pub fn cert_update(&mut self, ctx: &CallContext, metadata: TokenMetadata, token_id: TokenId)
        -> (r: Result<Receipt, RegistryError>)
        requires
            old(self).wf(),
            old(self).token_store().has(token_id@)
                ==> old(self).cert_update_growth(*ctx, token_id@, metadata)
                    * ctx.price_per_byte <= u128::MAX,
            old(self).token_store().has(token_id@)
                ==> old(self).cert_update_shrink(*ctx, token_id@, metadata)
                    * ctx.price_per_byte <= u128::MAX,
        ensures
            final(self).wf(),
            r is Err <==> old(self).cert_update_error(*ctx, token_id@, metadata) is Some,
            r matches Err(e) ==> Some(e) == old(self).cert_update_error(*ctx, token_id@, metadata)
                && *final(self) == *old(self),
            r is Ok ==> final(self).token_store().owners() == old(self).token_store().owners()
                && final(self).token_store().owner_index()
                    == old(self).token_store().owner_index()
                && final(self).token_cats() == old(self).token_cats()
                && final(self).category_index() == old(self).category_index()
                && final(self).counter() == old(self).counter()
                && final(self).cat_store() == old(self).cat_store(),
            r is Ok ==> final(self).token_store().metas()
                == old(self).token_store().metas().insert(
                token_id@,
                spec_token_meta_updated(
                    old(self).token_store().metas()[token_id@],
                    metadata,
                    ctx.now_ms,
                ),
            ),
            r matches Ok(rc) ==> rc.settlement == spec_settlement(
                old(self).cert_update_growth(*ctx, token_id@, metadata) as u128,
                old(self).cert_update_shrink(*ctx, token_id@, metadata) as u128,
                ctx.attached,
                ctx.price_per_byte,
            ),
            r matches Ok(rc) ==> rc.events@.len() == 0,
    {
        if let Err(e) = check_policy(PaymentPolicy::AtLeastOneUnit, ctx.attached) {
            return Err(e);
        }
        if !self.tokens.contains(&token_id) {
            return Err(RegistryError::NotFound);
        }
        proof {
            assert(self.parts_wf());
        }
        let cat = match self.token_category.get(&token_id) {
            Some(c) => c.clone(),
            None => {
                proof {
                    assert(false);
                }
                return Err(RegistryError::NotFound);
            },
        };
        proof {
            assert(self.cat_mem(cat@, token_id@));
        }
        match self.categories.owner_of(&cat) {
            None => {
                proof {
                    assert(false);
                }
                return Err(RegistryError::NotFound);
            },
            Some(o) => {
                if !(*o == ctx.caller) {
                    return Err(RegistryError::Unauthorized);
                }
            },
        }
        let old_meta = match self.tokens.meta_of(&token_id) {
            Some(m) => m.duplicate(),
            None => {
                proof {
                    assert(false);
                }
                return Err(RegistryError::NotFound);
            },
        };
        let new_meta = old_meta.with_update(&metadata, ctx.now_ms);
        let old_units = old_meta.units();
        let new_units = new_meta.units();
        let growth: u128 = if new_units > old_units { new_units - old_units } else { 0 };
        let shrink: u128 = if old_units > new_units { old_units - new_units } else { 0 };
        let settlement = match settle(growth, shrink, ctx.attached, ctx.price_per_byte) {
            Ok(s) => s,
            Err(e) => {
                return Err(e);
            },
        };
        self.tokens.update_meta(&token_id, new_meta);
        proof {
            assert(final(self).token_store().owners().dom()
                =~= old(self).token_store().owners().dom());
            lemma_same_shape_wf(*old(self), *final(self));
        }
        let events: Vec<EventLog> = Vec::new();
        Ok(Receipt { settlement, events })
    }

    /// Why `cert_delete` would be refused, if anything: the exact-payment
    /// policy first, then existence, then the provider check.
    pub open spec fn cert_delete_error(&self, ctx: CallContext, token_id: Seq<char>)
        -> Option<RegistryError> {
        if ctx.attached != 1 {
            Some(RegistryError::PaymentPolicyViolation)
        } else if !self.token_store().has(token_id) {
            Some(RegistryError::NotFound)
        } else if self.token_provider(token_id) != ctx.caller@ {
            Some(RegistryError::Unauthorized)
        } else {
            None
        }
    }

    /// The storage units deleting `token_id` frees: its whole entry at
    /// its current metadata.
    pub open spec fn cert_delete_freed(&self, token_id: Seq<char>) -> int {
        spec_token_entry_units(
            token_id,
            self.token_store().owners()[token_id]@,
            self.token_cats()[token_id]@,
            self.token_store().metas()[token_id],
        ) as int
    }

    /// Delete the token `token_id`: the caller must own the token's
    /// category and attach exactly one minimal unit.  Record, metadata,
    /// category binding and both index memberships are removed together;
    /// the freed storage value is released to the caller.  The counter is
    /// not decremented, so the id is never reused.  No audit event is
    /// emitted.
    pub fn cert_delete(&mut self, ctx: &CallContext, token_id: TokenId)
        -> (r: Result<Receipt, RegistryError>)
        requires
            old(self).wf(),
            old(self).token_store().has(token_id@)
                ==> old(self).cert_delete_freed(token_id@) * ctx.price_per_byte <= u128::MAX,
        ensures
            final(self).wf(),
            r is Err <==> old(self).cert_delete_error(*ctx, token_id@) is Some,
            r matches Err(e) ==> Some(e) == old(self).cert_delete_error(*ctx, token_id@)
                && *final(self) == *old(self),
            r is Ok ==> final(self).token_store().owners()
                == old(self).token_store().owners().remove(token_id@),
            r is Ok ==> final(self).token_store().metas()
                == old(self).token_store().metas().remove(token_id@),
            r is Ok ==> final(self).token_cats() == old(self).token_cats().remove(token_id@),
            r is Ok ==> final(self).counter() == old(self).counter()
                && final(self).cat_store() == old(self).cat_store(),
            r is Ok ==> forall|o: Seq<char>, x: Seq<char>|
                #[trigger] final(self).token_store().index_mem(o, x)
                    <==> old(self).token_store().index_mem(o, x) && x != token_id@,
            r is Ok ==> forall|c: Seq<char>, x: Seq<char>|
                #[trigger] final(self).cat_mem(c, x)
                    <==> old(self).cat_mem(c, x) && x != token_id@,
            r is Ok ==> final(self).category_index() == ({
                let cat = old(self).token_cats()[token_id@]@;
                if old(self).category_index()[cat].len() == 1 {
                    old(self).category_index().remove(cat)
                } else {
                    old(self).category_index().insert(
                        cat,
                        old(self).category_index()[cat].remove(
                            idx_of(old(self).category_index()[cat], token_id@),
                        ),
                    )
                }
            }),
            r matches Ok(rc) ==> rc.settlement == spec_settlement(
                0,
                old(self).cert_delete_freed(token_id@) as u128,
                ctx.attached,
                ctx.price_per_byte,
            ),
            r matches Ok(rc) ==> rc.events@.len() == 0,
    {
        if let Err(e) = check_policy(PaymentPolicy::ExactlyOneUnit, ctx.attached) {
            return Err(e);
        }
        if !self.tokens.contains(&token_id) {
            return Err(RegistryError::NotFound);
        }
        proof {
            assert(self.parts_wf());
        }
        let cat = match self.token_category.get(&token_id) {
            Some(c) => c.clone(),
            None => {
                proof {
                    assert(false);
                }
                return Err(RegistryError::NotFound);
            },
        };
        proof {
            assert(self.cat_mem(cat@, token_id@));
        }
        match self.categories.owner_of(&cat) {
            None => {
                proof {
                    assert(false);
                }
                return Err(RegistryError::NotFound);
            },
            Some(o) => {
                if !(*o == ctx.caller) {
                    return Err(RegistryError::Unauthorized);
                }
            },
        }
        let stored_meta = match self.tokens.meta_of(&token_id) {
            Some(m) => m.duplicate(),
            None => {
                proof {
                    assert(false);
                }
                return Err(RegistryError::NotFound);
            },
        };
        let owner = match self.tokens.owner_of(&token_id) {
            Some(o) => o.clone(),
            None => {
                proof {
                    assert(false);
                }
                return Err(RegistryError::NotFound);
            },
        };
        let freed = token_entry_units(&token_id, &owner, &cat, &stored_meta);
        let settlement = match settle(0, freed, ctx.attached, ctx.price_per_byte) {
            Ok(s) => s,
            Err(e) => {
                proof {
                    assert(false);
                }
                return Err(e);
            },
        };
        let _ = self.tokens.remove_entity(&token_id);
        let _ = self.token_category.remove(&token_id);
        self.by_category.remove(&cat, &token_id);
        proof {
            assert(final(self).token_cats().dom() =~= final(self).token_store().owners().dom());
            assert forall|c: Seq<char>, x: Seq<char>| #[trigger] final(self).cat_mem(c, x)
                <==> old(self).cat_mem(c, x) && !(c == cat@ && x == token_id@) by {
                assert(self.by_category.mem(c, x)
                    == (old(self).by_category.mem(c, x) && !(c == cat@ && x == token_id@)));
                assert(old(self).cat_mem(c, x) == old(self).by_category.mem(c, x));
            }
            assert forall|c: Seq<char>, x: Seq<char>| #[trigger] final(self).cat_mem(c, x)
                <==> old(self).cat_mem(c, x) && x != token_id@ by {
                if x == token_id@ && old(self).cat_mem(c, x) {
                    assert(c == cat@);
                }
            }
            assert forall|c: Seq<char>, x: Seq<char>| #[trigger] final(self).cat_mem(c, x)
                implies final(self).token_cats().contains_key(x)
                    && final(self).token_cats()[x]@ == c by {
                assert(old(self).cat_mem(c, x));
            }
            assert forall|c: Seq<char>, x: Seq<char>|
                final(self).token_cats().contains_key(x) && final(self).token_cats()[x]@ == c
                implies #[trigger] final(self).cat_mem(c, x) by {
                assert(old(self).cat_mem(c, x));
            }
            assert forall|c: Seq<char>| #[trigger] final(self).category_index().contains_key(c)
                implies final(self).category_index()[c].len() > 0
                    && final(self).cat_store().has(c) by {
                assert(old(self).category_index().contains_key(c));
            }
            assert forall|id: Seq<char>|
                #[trigger] final(self).token_store().owners().contains_key(id) implies
                exists|n: nat| n < final(self).counter() && id == dec_str(n) by {
                assert(old(self).token_store().owners().contains_key(id));
                let n = choose|n: nat| n < old(self).counter() && id == dec_str(n);
                assert(n < final(self).counter() && id == dec_str(n));
            }
        }
        let events: Vec<EventLog> = Vec::new();
        Ok(Receipt { settlement, events })
    }

    /// The mint counter: how many tokens have ever been minted, and the
    /// id the next mint will render.
    pub fn token_count(&self) -> (r: u128)
        ensures
            r == self.counter(),
    {
        self.count_token_id
    }

    /// The joined record and metadata of token `token_id`, if it exists.
    pub fn nft_token(&self, token_id: TokenId) -> (r: Option<JsonToken>)
        requires
            self.wf(),
        ensures
            r is Some <==> self.token_store().has(token_id@),
            r matches Some(j) ==> j.token_id == token_id
                && j.owner_id == self.token_store().owners()[token_id@]
                && j.category_id == self.token_cats()[token_id@]
                && j.metadata == self.token_store().metas()[token_id@],
    {
        let owner = match self.tokens.owner_of(&token_id) {
            None => {
                return None;
            },
            Some(o) => o.clone(),
        };
        proof {
            assert(self.parts_wf());
        }
        let category_id = match self.token_category.get(&token_id) {
            Some(c) => c.clone(),
            None => {
                proof {
                    assert(false);
                }
                return None;
            },
        };
        let metadata = match self.tokens.meta_of(&token_id) {
            Some(m) => m.duplicate(),
            None => {
                proof {
                    assert(false);
                }
                return None;
            },
        };
        Some(JsonToken { token_id, owner_id: owner, category_id, metadata })
    }

    /// The token record of `token_id` (its owner and category), if it
    /// exists.
    pub fn token_record(&self, token_id: &TokenId) -> (r: Option<Token>)
        requires
            self.wf(),
        ensures
            r is Some <==> self.token_store().has(token_id@),
            r matches Some(t) ==> t.owner_id == self.token_store().owners()[token_id@]
                && t.category_id == self.token_cats()[token_id@],
    {
        let owner = match self.tokens.owner_of(token_id) {
            None => {
                return None;
            },
            Some(o) => o.clone(),
        };
        proof {
            assert(self.parts_wf());
        }
        let category_id = match self.token_category.get(token_id) {
            Some(c) => c.clone(),
            None => {
                proof {
                    assert(false);
                }
                return None;
            },
        };
        Some(Token { owner_id: owner, category_id })
    }

    /// The tokens of category `category_id`, joined with their records
    /// and metadata, paginated by `from_index` (default 0) and `limit`
    /// (default 50) over the index's stable enumeration order.  An
    /// unknown category yields an empty listing.
    pub fn cert_get_by_category(
        &self,
        category_id: CategoryId,
        from_index: Option<u64>,
        limit: Option<u64>,
    ) -> (r: Vec<JsonToken>)
        requires
            self.wf(),
        ensures
            ({
                let ids = page(
                    if self.category_index().contains_key(category_id@) {
                        self.category_index()[category_id@]
                    } else {
                        Seq::empty()
                    },
                    from_index.unwrap_or(0) as nat,
                    limit.unwrap_or(50) as nat,
                );
                &&& r@.len() == ids.len()
                &&& forall|k: int| #![trigger r@[k]] 0 <= k < ids.len() ==> r@[k].token_id@
                    == ids[k]
                    && r@[k].owner_id == self.token_store().owners()[ids[k]]
                    && r@[k].category_id@ == category_id@
                    && r@[k].metadata == self.token_store().metas()[ids[k]]
            }),
    {
        let start: u64 = match from_index {
            Some(s) => s,
            None => 0,
        };
        let lim: u64 = match limit {
            Some(l) => l,
            None => 50,
        };
        proof {
            assert(self.parts_wf());
        }
        let ids = self.by_category.list(&category_id, start, lim);
        let ghost idseq = ids.deep_view();
        let ghost full = if self.category_index().contains_key(category_id@) {
            self.category_index()[category_id@]
        } else {
            Seq::empty()
        };
        proof {
            assert forall|k: int| 0 <= k < idseq.len() implies
                #[trigger] self.token_store().has(idseq[k])
                    && self.token_cats()[idseq[k]]@ == category_id@ by {
                let start_i = start as int;
                assert(idseq[k] == full[start_i + k]);
                assert(full.contains(idseq[k]));
                assert(self.cat_mem(category_id@, idseq[k]));
            }
        }
        let mut r: Vec<JsonToken> = Vec::new();
        let n = ids.len();
        let mut i: usize = 0;
        while i < n
            invariant
                self.wf(),
                n == ids@.len(),
                idseq == ids.deep_view(),
                idseq.len() == n as nat,
                forall|k: int| 0 <= k < idseq.len()
                    ==> #[trigger] self.token_store().has(idseq[k])
                        && self.token_cats()[idseq[k]]@ == category_id@,
                i <= n,
                r@.len() == i as nat,
                forall|k: int| #![trigger r@[k]] 0 <= k < i ==> r@[k].token_id@ == idseq[k]
                    && r@[k].owner_id == self.token_store().owners()[idseq[k]]
                    && r@[k].category_id@ == category_id@
                    && r@[k].metadata == self.token_store().metas()[idseq[k]],
            decreases n - i,
        {
            let id = ids[i].clone();
            proof {
                assert(id@ == idseq[i as int]);
                assert(self.token_store().has(idseq[i as int]));
            }
            let one = match self.nft_token(id) {
                Some(j) => j,
                None => {
                    proof {
                        assert(false);
                    }
                    return r;
                },
            };
            r.push(one);
            i = i + 1;
        }
        proof {
            assert(start == from_index.unwrap_or(0));
            assert(lim == limit.unwrap_or(50));
            assert(idseq == page(full, from_index.unwrap_or(0) as nat,
                limit.unwrap_or(50) as nat));
        }
        r
    }

    /// The tokens of owner `account_id`, joined with their records and
    /// metadata, paginated by `from_index` (default 0) and `limit`
    /// (default 50) over the index's stable enumeration order.  An owner
    /// with no tokens yields an empty listing.
    pub fn nft_tokens_for_owner(
        &self,
        account_id: String,
        from_index: Option<u64>,
        limit: Option<u64>,
    ) -> (r: Vec<JsonToken>)
        requires
            self.wf(),
        ensures
            ({
                let ids = page(
                    if self.token_store().owner_index().contains_key(account_id@) {
                        self.token_store().owner_index()[account_id@]
                    } else {
                        Seq::empty()
                    },
                    from_index.unwrap_or(0) as nat,
                    limit.unwrap_or(50) as nat,
                );
                &&& r@.len() == ids.len()
                &&& forall|k: int| #![trigger r@[k]] 0 <= k < ids.len() ==> r@[k].token_id@
                    == ids[k]
                    && r@[k].owner_id == self.token_store().owners()[ids[k]]
                    && r@[k].category_id == self.token_cats()[ids[k]]
                    && r@[k].metadata == self.token_store().metas()[ids[k]]
            }),
    {
        let start: u64 = match from_index {
            Some(s) => s,
            None => 0,
        };
        let lim: u64 = match limit {
            Some(l) => l,
            None => 50,
        };
        let ids = self.tokens.list_ids(&account_id, start, lim);
        let ghost idseq = ids.deep_view();
        let ghost full = if self.token_store().owner_index().contains_key(account_id@) {
            self.token_store().owner_index()[account_id@]
        } else {
            Seq::empty()
        };
        proof {
            assert forall|k: int| 0 <= k < idseq.len() implies
                #[trigger] self.token_store().has(idseq[k]) by {
                let start_i = start as int;
                assert(idseq[k] == full[start_i + k]);
                assert(full.contains(idseq[k]));
                assert(self.token_store().index_mem(account_id@, idseq[k]));
            }
        }
        let mut r: Vec<JsonToken> = Vec::new();
        let n = ids.len();
        let mut i: usize = 0;
        while i < n
            invariant
                self.wf(),
                n == ids@.len(),
                idseq == ids.deep_view(),
                idseq.len() == n as nat,
                forall|k: int| 0 <= k < idseq.len()
                    ==> #[trigger] self.token_store().has(idseq[k]),
                i <= n,
                r@.len() == i as nat,
                forall|k: int| #![trigger r@[k]] 0 <= k < i ==> r@[k].token_id@ == idseq[k]
                    && r@[k].owner_id == self.token_store().owners()[idseq[k]]
                    && r@[k].category_id == self.token_cats()[idseq[k]]
                    && r@[k].metadata == self.token_store().metas()[idseq[k]],
            decreases n - i,
        {
            let id = ids[i].clone();
            proof {
                assert(id@ == idseq[i as int]);
                assert(self.token_store().has(idseq[i as int]));
            }
            let one = match self.nft_token(id) {
                Some(j) => j,
                None => {
                    proof {
                        assert(false);
                    }
                    return r;
                },
            };
            r.push(one);
            i = i + 1;
        }
        proof {
            assert(start == from_index.unwrap_or(0));
            assert(lim == limit.unwrap_or(50));
            assert(idseq == page(full, from_index.unwrap_or(0) as nat,
                limit.unwrap_or(50) as nat));
        }
        r
    }
}

impl NonFungibleTokenMetadata for Contract {
    closed spec fn spec_nft_metadata(&self) -> NFTContractMetadata {
        self.metadata
    }

    fn nft_metadata(&self) -> (r: NFTContractMetadata) {
        self.metadata.duplicate()
    }
}

} // verus!
