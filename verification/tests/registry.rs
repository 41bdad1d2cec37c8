//! End-to-end tests of the job and certificate registries: scenarios,
//! payment settlement, pagination, and every error variant.

use certy::accounting::Settlement;
use certy::career;
use certy::cert;
use certy::category::CategoryMetadata;
use certy::context::CallContext;
use certy::errors::RegistryError;
use certy::job::JobMetadata;
use certy::metadata::{NonFungibleTokenMetadata, TokenMetadata};

fn ctx(caller: &str, attached: u128, price: u128, now: u64) -> CallContext {
    CallContext {
        caller: caller.to_string(),
        attached,
        price_per_byte: price,
        now_ms: now,
    }
}

fn empty_job_meta() -> JobMetadata {
    JobMetadata {
        issued_at: None,
        updated_at: None,
        extra: None,
        reference: None,
        reference_hash: None,
    }
}

fn empty_category_meta() -> CategoryMetadata {
    CategoryMetadata {
        title: None,
        description: None,
        media: None,
        media_hash: None,
        issued_at: None,
        updated_at: None,
        fields: None,
        extra: None,
        reference: None,
        reference_hash: None,
    }
}

fn empty_token_meta() -> TokenMetadata {
    TokenMetadata {
        title: None,
        description: None,
        media: None,
        media_hash: None,
        copies: None,
        issued_at: None,
        expires_at: None,
        starts_at: None,
        updated_at: None,
        extra: None,
        reference: None,
        reference_hash: None,
    }
}

// A job entry of id "j1" owned by "alice" with an all-absent payload
// measures 3*2 + 5 + (9 + 9) + 3*40 = 149 storage units.
const J1_UNITS: u128 = 149;

#[test]
fn job_create_charges_exact_cost_and_refunds_excess() {
    let mut c = career::Contract::new("admin".to_string());
    // price 2: cost = 298; attached 301 leaves an excess of 3 > dust.
    let r = c
        .job_create(&ctx("alice", 301, 2, 5), "j1".to_string(), empty_job_meta())
        .unwrap();
    assert_eq!(
        r.settlement,
        Settlement { required_cost: 2 * J1_UNITS, refund: Some(3), release: None }
    );
    let info = c.job_info("j1".to_string()).unwrap();
    assert_eq!(info.owner_id, "alice");
    assert_eq!(info.metadata.issued_at, Some(5));
    assert_eq!(info.metadata.updated_at, Some(5));
}

#[test]
fn job_create_excess_at_dust_threshold_is_kept() {
    let mut c = career::Contract::new("admin".to_string());
    // attached == cost + 1: the excess of 1 does not exceed the threshold.
    let r = c
        .job_create(&ctx("alice", 2 * J1_UNITS + 1, 2, 5), "j1".to_string(), empty_job_meta())
        .unwrap();
    assert_eq!(r.settlement.required_cost, 2 * J1_UNITS);
    assert_eq!(r.settlement.refund, None);
    assert_eq!(r.settlement.release, None);
}

#[test]
fn job_create_insufficient_payment_mutates_nothing() {
    let mut c = career::Contract::new("admin".to_string());
    let e = c
        .job_create(&ctx("alice", 2 * J1_UNITS - 1, 2, 5), "j1".to_string(), empty_job_meta())
        .unwrap_err();
    assert_eq!(e, RegistryError::InsufficientPayment);
    assert!(c.job_info("j1".to_string()).is_none());
    // The failed create left the id free: the same create now succeeds.
    assert!(c.job_create(&ctx("alice", 2 * J1_UNITS, 2, 5), "j1".to_string(),
        empty_job_meta()).is_ok());
}

#[test]
fn job_create_requires_at_least_one_unit() {
    let mut c = career::Contract::new("admin".to_string());
    let e = c
        .job_create(&ctx("alice", 0, 2, 5), "j1".to_string(), empty_job_meta())
        .unwrap_err();
    assert_eq!(e, RegistryError::PaymentPolicyViolation);
}

#[test]
fn job_create_duplicate_id_is_rejected() {
    let mut c = career::Contract::new("admin".to_string());
    c.job_create(&ctx("alice", 1000, 1, 5), "j1".to_string(), empty_job_meta()).unwrap();
    let e = c
        .job_create(&ctx("bob", 1000, 1, 6), "j1".to_string(), empty_job_meta())
        .unwrap_err();
    assert_eq!(e, RegistryError::DuplicateId);
    // Job ids are reusable after deletion.
    c.job_delete(&ctx("alice", 1, 1, 7), "j1".to_string()).unwrap();
    assert!(c.job_create(&ctx("bob", 1000, 1, 8), "j1".to_string(),
        empty_job_meta()).is_ok());
}

#[test]
fn job_update_allow_list_and_timestamps() {
    let mut c = career::Contract::new("admin".to_string());
    c.job_create(&ctx("alice", 1000, 1, 5), "j1".to_string(), empty_job_meta()).unwrap();
    let mut input = empty_job_meta();
    input.extra = Some("data".to_string());
    // The caller cannot set timestamps: they are overwritten.
    input.issued_at = Some(999);
    input.updated_at = Some(999);
    c.job_update(&ctx("alice", 1000, 1, 9), "j1".to_string(), input).unwrap();
    let info = c.job_info("j1".to_string()).unwrap();
    assert_eq!(info.metadata.extra, Some("data".to_string()));
    assert_eq!(info.metadata.issued_at, Some(5));
    assert_eq!(info.metadata.updated_at, Some(9));
}

#[test]
fn job_update_shrink_releases_freed_value() {
    let mut c = career::Contract::new("admin".to_string());
    let mut big = empty_job_meta();
    big.extra = Some("0123456789".to_string());
    c.job_create(&ctx("alice", 10000, 3, 5), "j1".to_string(), big).unwrap();
    // Clearing `extra` frees 10 + 1 = 11 units at price 3.
    let r = c.job_update(&ctx("alice", 7, 3, 6), "j1".to_string(), empty_job_meta()).unwrap();
    assert_eq!(r.settlement.required_cost, 0);
    assert_eq!(r.settlement.release, Some(33));
    // The whole attached payment of 7 exceeds the dust threshold.
    assert_eq!(r.settlement.refund, Some(7));
}

#[test]
fn job_update_errors() {
    let mut c = career::Contract::new("admin".to_string());
    c.job_create(&ctx("alice", 1000, 1, 5), "j1".to_string(), empty_job_meta()).unwrap();
    assert_eq!(
        c.job_update(&ctx("alice", 0, 1, 6), "j1".to_string(), empty_job_meta()).unwrap_err(),
        RegistryError::PaymentPolicyViolation
    );
    assert_eq!(
        c.job_update(&ctx("alice", 1, 1, 6), "nope".to_string(), empty_job_meta()).unwrap_err(),
        RegistryError::NotFound
    );
    assert_eq!(
        c.job_update(&ctx("mallory", 1, 1, 6), "j1".to_string(), empty_job_meta()).unwrap_err(),
        RegistryError::Unauthorized
    );
}

#[test]
fn job_delete_releases_freed_storage_to_caller() {
    let mut c = career::Contract::new("admin".to_string());
    c.job_create(&ctx("alice", 1000, 2, 5), "j1".to_string(), empty_job_meta()).unwrap();
    let r = c.job_delete(&ctx("alice", 1, 2, 6), "j1".to_string()).unwrap();
    assert_eq!(r.settlement.required_cost, 0);
    assert_eq!(r.settlement.release, Some(2 * J1_UNITS));
    // The attached unit itself is at the dust threshold: no refund.
    assert_eq!(r.settlement.refund, None);
    assert!(c.job_info("j1".to_string()).is_none());
}

#[test]
fn job_delete_requires_exactly_one_unit() {
    let mut c = career::Contract::new("admin".to_string());
    c.job_create(&ctx("alice", 1000, 1, 5), "j1".to_string(), empty_job_meta()).unwrap();
    assert_eq!(
        c.job_delete(&ctx("alice", 2, 1, 6), "j1".to_string()).unwrap_err(),
        RegistryError::PaymentPolicyViolation
    );
    assert_eq!(
        c.job_delete(&ctx("bob", 1, 1, 6), "j1".to_string()).unwrap_err(),
        RegistryError::Unauthorized
    );
    assert_eq!(
        c.job_delete(&ctx("alice", 1, 1, 6), "nope".to_string()).unwrap_err(),
        RegistryError::NotFound
    );
}

#[test]
fn jobs_for_owner_pagination_partitions_the_set() {
    let mut c = career::Contract::new("admin".to_string());
    for i in 0..4u32 {
        let id = format!("job{}", i);
        c.job_create(&ctx("alice", 1000, 1, 5), id, empty_job_meta()).unwrap();
    }
    // Unknown owners yield an empty listing, not an error.
    assert_eq!(c.jobs_for_owner("bob".to_string(), None, None).len(), 0);
    let first = c.jobs_for_owner("alice".to_string(), Some(0), Some(2));
    let second = c.jobs_for_owner("alice".to_string(), Some(2), Some(2));
    let all = c.jobs_for_owner("alice".to_string(), None, None);
    assert_eq!(all.len(), 4);
    let mut joined: Vec<String> = Vec::new();
    for j in first.iter().chain(second.iter()) {
        joined.push(j.job_id.clone());
    }
    let full: Vec<String> = all.iter().map(|j| j.job_id.clone()).collect();
    assert_eq!(joined, full);
    // The two pages of fifty partition any set of at most one hundred.
    let a = c.jobs_for_owner("alice".to_string(), Some(0), Some(50));
    let b = c.jobs_for_owner("alice".to_string(), Some(50), Some(50));
    assert_eq!(a.len(), 4);
    assert_eq!(b.len(), 0);
}

#[test]
fn listing_is_stable_absent_mutation() {
    let mut c = career::Contract::new("admin".to_string());
    for i in 0..3u32 {
        c.job_create(&ctx("alice", 1000, 1, 5), format!("j{}", i), empty_job_meta()).unwrap();
    }
    let once = c.jobs_for_owner("alice".to_string(), None, None);
    let twice = c.jobs_for_owner("alice".to_string(), None, None);
    assert_eq!(once, twice);
}

#[test]
fn token_ids_are_distinct_and_increasing_across_bulk_mints() {
    let mut c = cert::Contract::new_default_meta("admin".to_string());
    c.category_create(&ctx("alice", 10000, 1, 5), "c1".to_string(), empty_category_meta())
        .unwrap();
    c.nft_mint(&ctx("alice", 10000, 1, 6), empty_token_meta(), "bob".to_string(),
        "c1".to_string()).unwrap();
    let metas = vec![empty_token_meta(), empty_token_meta(), empty_token_meta()];
    let receivers = vec!["bob".to_string(), "carol".to_string(), "bob".to_string()];
    let r = c.nft_bulk_mint(&ctx("alice", 100000, 1, 7), metas, receivers,
        "c1".to_string()).unwrap();
    assert_eq!(r.events.len(), 3);
    let listed = c.cert_get_by_category("c1".to_string(), None, None);
    let ids: Vec<String> = listed.iter().map(|t| t.token_id.clone()).collect();
    assert_eq!(ids, vec!["0", "1", "2", "3"]);
    // Deleting a token never frees its id: the counter is not decremented.
    c.cert_delete(&ctx("alice", 1, 1, 8), "1".to_string()).unwrap();
    c.nft_mint(&ctx("alice", 10000, 1, 9), empty_token_meta(), "dave".to_string(),
        "c1".to_string()).unwrap();
    let after = c.cert_get_by_category("c1".to_string(), None, None);
    let after_ids: Vec<String> = after.iter().map(|t| t.token_id.clone()).collect();
    assert_eq!(after_ids, vec!["0", "2", "3", "4"]);
}

#[test]
fn bulk_mint_pairs_receivers_with_metadata() {
    let mut c = cert::Contract::new_default_meta("admin".to_string());
    c.category_create(&ctx("alice", 10000, 1, 5), "c1".to_string(), empty_category_meta())
        .unwrap();
    let mut m0 = empty_token_meta();
    m0.title = Some("first".to_string());
    let mut m1 = empty_token_meta();
    m1.title = Some("second".to_string());
    c.nft_bulk_mint(&ctx("alice", 100000, 1, 6), vec![m0, m1],
        vec!["bob".to_string(), "carol".to_string()], "c1".to_string()).unwrap();
    let t0 = c.nft_token("0".to_string()).unwrap();
    let t1 = c.nft_token("1".to_string()).unwrap();
    assert_eq!(t0.owner_id, "bob");
    assert_eq!(t0.metadata.title, Some("first".to_string()));
    assert_eq!(t0.metadata.issued_at, Some(6));
    assert_eq!(t1.owner_id, "carol");
    assert_eq!(t1.metadata.title, Some("second".to_string()));
}

#[test]
fn scenario_transfer_keeps_category_membership() {
    let mut c = cert::Contract::new_default_meta("admin".to_string());
    c.category_create(&ctx("alice", 10000, 1, 5), "c1".to_string(), empty_category_meta())
        .unwrap();
    c.nft_mint(&ctx("alice", 10000, 1, 6), empty_token_meta(), "bob".to_string(),
        "c1".to_string()).unwrap();
    c.nft_transfer(&ctx("bob", 1, 1, 7), "carol".to_string(), "0".to_string(), None).unwrap();
    assert_eq!(c.nft_tokens_for_owner("bob".to_string(), Some(0), Some(50)).len(), 0);
    let carol = c.nft_tokens_for_owner("carol".to_string(), Some(0), Some(50));
    assert_eq!(carol.len(), 1);
    assert_eq!(carol[0].token_id, "0");
    assert_eq!(carol[0].category_id, "c1");
    let by_cat = c.cert_get_by_category("c1".to_string(), Some(0), Some(50));
    assert_eq!(by_cat.len(), 1);
    assert_eq!(by_cat[0].token_id, "0");
    assert_eq!(by_cat[0].owner_id, "carol");
}

#[test]
fn scenario_category_delete_blocked_until_empty() {
    let mut c = cert::Contract::new_default_meta("admin".to_string());
    c.category_create(&ctx("alice", 10000, 1, 5), "c1".to_string(), empty_category_meta())
        .unwrap();
    c.nft_mint(&ctx("alice", 10000, 1, 6), empty_token_meta(), "bob".to_string(),
        "c1".to_string()).unwrap();
    assert_eq!(
        c.category_delete(&ctx("alice", 1, 1, 7), "c1".to_string()).unwrap_err(),
        RegistryError::NonEmptyCategory
    );
    c.cert_delete(&ctx("alice", 1, 1, 8), "0".to_string()).unwrap();
    assert!(c.category_delete(&ctx("alice", 1, 1, 9), "c1".to_string()).is_ok());
    assert!(c.category_info("c1".to_string()).is_none());
}

#[test]
fn transfer_errors() {
    let mut c = cert::Contract::new_default_meta("admin".to_string());
    c.category_create(&ctx("alice", 10000, 1, 5), "c1".to_string(), empty_category_meta())
        .unwrap();
    c.nft_mint(&ctx("alice", 10000, 1, 6), empty_token_meta(), "bob".to_string(),
        "c1".to_string()).unwrap();
    assert_eq!(
        c.nft_transfer(&ctx("bob", 2, 1, 7), "carol".to_string(), "0".to_string(), None)
            .unwrap_err(),
        RegistryError::PaymentPolicyViolation
    );
    assert_eq!(
        c.nft_transfer(&ctx("bob", 1, 1, 7), "carol".to_string(), "9".to_string(), None)
            .unwrap_err(),
        RegistryError::NotFound
    );
    assert_eq!(
        c.nft_transfer(&ctx("carol", 1, 1, 7), "dave".to_string(), "0".to_string(), None)
            .unwrap_err(),
        RegistryError::Unauthorized
    );
    assert_eq!(
        c.nft_transfer(&ctx("bob", 1, 1, 7), "bob".to_string(), "0".to_string(), None)
            .unwrap_err(),
        RegistryError::SelfTransfer
    );
}

#[test]
fn cert_update_is_governed_by_the_category_owner() {
    let mut c = cert::Contract::new_default_meta("admin".to_string());
    c.category_create(&ctx("alice", 10000, 1, 5), "c1".to_string(), empty_category_meta())
        .unwrap();
    c.nft_mint(&ctx("alice", 10000, 1, 6), empty_token_meta(), "bob".to_string(),
        "c1".to_string()).unwrap();
    // The token's holder cannot update its metadata.
    let mut input = empty_token_meta();
    input.title = Some("updated".to_string());
    assert_eq!(
        c.cert_update(&ctx("bob", 1000, 1, 7), input.clone(), "0".to_string()).unwrap_err(),
        RegistryError::Unauthorized
    );
    // The category's owner can; `issued_at` and `copies` are preserved.
    let r = c.cert_update(&ctx("alice", 1000, 1, 8), input, "0".to_string()).unwrap();
    assert_eq!(r.events.len(), 0);
    let t = c.nft_token("0".to_string()).unwrap();
    assert_eq!(t.metadata.title, Some("updated".to_string()));
    assert_eq!(t.metadata.issued_at, Some(6));
    assert_eq!(t.metadata.updated_at, Some(8));
}

#[test]
fn cert_delete_requires_provider_and_exact_payment() {
    let mut c = cert::Contract::new_default_meta("admin".to_string());
    c.category_create(&ctx("alice", 10000, 1, 5), "c1".to_string(), empty_category_meta())
        .unwrap();
    c.nft_mint(&ctx("alice", 10000, 1, 6), empty_token_meta(), "bob".to_string(),
        "c1".to_string()).unwrap();
    assert_eq!(
        c.cert_delete(&ctx("alice", 5, 1, 7), "0".to_string()).unwrap_err(),
        RegistryError::PaymentPolicyViolation
    );
    assert_eq!(
        c.cert_delete(&ctx("bob", 1, 1, 7), "0".to_string()).unwrap_err(),
        RegistryError::Unauthorized
    );
    // A token entry of id "0" owned by "bob" in "c1" with an all-absent
    // payload measures 5*1 + 3 + 2*2 + 18 + 5*40 = 230 units.
    let r = c.cert_delete(&ctx("alice", 1, 1, 7), "0".to_string()).unwrap();
    assert_eq!(r.settlement.release, Some(230));
    assert!(c.nft_token("0".to_string()).is_none());
}

#[test]
fn category_update_preserves_fields_and_issued_at() {
    let mut c = cert::Contract::new_default_meta("admin".to_string());
    let mut meta = empty_category_meta();
    meta.fields = Some("schema".to_string());
    meta.title = Some("old".to_string());
    c.category_create(&ctx("alice", 10000, 1, 5), "c1".to_string(), meta).unwrap();
    let mut input = empty_category_meta();
    input.title = Some("new".to_string());
    input.fields = Some("ignored".to_string());
    c.category_update(&ctx("alice", 10000, 1, 9), "c1".to_string(), input).unwrap();
    let info = c.category_info("c1".to_string()).unwrap();
    assert_eq!(info.metadata.title, Some("new".to_string()));
    assert_eq!(info.metadata.fields, Some("schema".to_string()));
    assert_eq!(info.metadata.issued_at, Some(5));
    assert_eq!(info.metadata.updated_at, Some(9));
}

#[test]
fn mint_requires_category_ownership() {
    let mut c = cert::Contract::new_default_meta("admin".to_string());
    c.category_create(&ctx("alice", 10000, 1, 5), "c1".to_string(), empty_category_meta())
        .unwrap();
    assert_eq!(
        c.nft_mint(&ctx("bob", 10000, 1, 6), empty_token_meta(), "bob".to_string(),
            "c1".to_string()).unwrap_err(),
        RegistryError::Unauthorized
    );
    assert_eq!(
        c.nft_mint(&ctx("alice", 10000, 1, 6), empty_token_meta(), "bob".to_string(),
            "nope".to_string()).unwrap_err(),
        RegistryError::NotFound
    );
    assert_eq!(
        c.nft_mint(&ctx("alice", 5, 1, 6), empty_token_meta(), "bob".to_string(),
            "c1".to_string()).unwrap_err(),
        RegistryError::InsufficientPayment
    );
}

#[test]
fn contract_metadata_is_returned() {
    let c = cert::Contract::new_default_meta("admin".to_string());
    let m = c.nft_metadata();
    assert_eq!(m.spec, "certy-1.0.0");
    assert_eq!(m.name, "Certy NFT");
    assert_eq!(m.symbol, "Certy");
    assert!(m.icon.is_none());
}

#[test]
fn error_messages_name_the_failed_precondition() {
    assert_eq!(RegistryError::NonEmptyCategory.message(), "category still has tokens");
    assert_eq!(RegistryError::DuplicateId.message(), "id already exists");
    assert_eq!(
        RegistryError::InsufficientPayment.message(),
        "attached payment does not cover storage"
    );
}

#[test]
fn empty_string_ids_are_accepted() {
    let mut c = career::Contract::new("admin".to_string());
    c.job_create(&ctx("alice", 1000, 1, 5), String::new(), empty_job_meta()).unwrap();
    let info = c.job_info(String::new()).unwrap();
    assert_eq!(info.owner_id, "alice");
    let rec = c.job_record(&String::new()).unwrap();
    assert_eq!(rec.owner_id, "alice");
}

#[test]
fn record_accessors_return_owner_and_category() {
    let mut c = cert::Contract::new_default_meta("admin".to_string());
    c.category_create(&ctx("alice", 10000, 1, 5), "c1".to_string(), empty_category_meta())
        .unwrap();
    c.nft_mint(&ctx("alice", 10000, 1, 6), empty_token_meta(), "bob".to_string(),
        "c1".to_string()).unwrap();
    let cat = c.category_record(&"c1".to_string()).unwrap();
    assert_eq!(cat.owner_id, "alice");
    let tok = c.token_record(&"0".to_string()).unwrap();
    assert_eq!(tok.owner_id, "bob");
    assert_eq!(tok.category_id, "c1");
    assert!(c.token_record(&"1".to_string()).is_none());
    assert_eq!(c.token_count(), 1);
}

#[test]
fn empty_bulk_mint_mints_nothing_and_refunds() {
    let mut c = cert::Contract::new_default_meta("admin".to_string());
    c.category_create(&ctx("alice", 10000, 1, 5), "c1".to_string(), empty_category_meta())
        .unwrap();
    let r = c
        .nft_bulk_mint(&ctx("alice", 9, 1, 6), Vec::new(), Vec::new(), "c1".to_string())
        .unwrap();
    assert_eq!(r.events.len(), 0);
    assert_eq!(r.settlement.required_cost, 0);
    assert_eq!(r.settlement.refund, Some(9));
    assert_eq!(c.token_count(), 0);
}
