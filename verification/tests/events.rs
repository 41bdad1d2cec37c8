//! Tests of the audit-event wire format and of decimal id rendering.

use certy::career;
use certy::career_events;
use certy::cert;
use certy::category::CategoryMetadata;
use certy::context::CallContext;
use certy::decimal::u128_to_dec;
use certy::job::JobMetadata;
use certy::metadata::TokenMetadata;

fn ctx(caller: &str, attached: u128, price: u128, now: u64) -> CallContext {
    CallContext {
        caller: caller.to_string(),
        attached,
        price_per_byte: price,
        now_ms: now,
    }
}

fn empty_job_meta() -> JobMetadata {
    JobMetadata {
        issued_at: None,
        updated_at: None,
        extra: None,
        reference: None,
        reference_hash: None,
    }
}

fn empty_category_meta() -> CategoryMetadata {
    CategoryMetadata {
        title: None,
        description: None,
        media: None,
        media_hash: None,
        issued_at: None,
        updated_at: None,
        fields: None,
        extra: None,
        reference: None,
        reference_hash: None,
    }
}

fn empty_token_meta() -> TokenMetadata {
    TokenMetadata {
        title: None,
        description: None,
        media: None,
        media_hash: None,
        copies: None,
        issued_at: None,
        expires_at: None,
        starts_at: None,
        updated_at: None,
        extra: None,
        reference: None,
        reference_hash: None,
    }
}

#[test]
fn job_create_event_wire_line() {
    let mut c = career::Contract::new("admin".to_string());
    let r = c
        .job_create(&ctx("alice", 1000, 1, 5), "j1".to_string(), empty_job_meta())
        .unwrap();
    assert_eq!(
        r.event.to_json_event_string(),
        "EVENT_JSON:{\"standard\":\"cecareer\",\"version\":\"0.1.0\",\
         \"event\":\"job_create\",\"data\":[{\"authorized_id\":\"alice\",\
         \"owner_id\":\"alice\",\"job_ids\":[\"j1\"],\
         \"job_metadatas\":[{\"issued_at\":5,\"updated_at\":5}]}]}"
    );
}

#[test]
fn job_update_event_carries_old_and_new_metadata() {
    let mut c = career::Contract::new("admin".to_string());
    c.job_create(&ctx("alice", 1000, 1, 5), "j1".to_string(), empty_job_meta()).unwrap();
    let mut input = empty_job_meta();
    input.extra = Some("x".to_string());
    let r = c.job_update(&ctx("alice", 1000, 1, 9), "j1".to_string(), input).unwrap();
    assert_eq!(
        r.event.to_json_event_string(),
        "EVENT_JSON:{\"standard\":\"cecareer\",\"version\":\"0.1.0\",\
         \"event\":\"job_update\",\"data\":[{\"authorized_id\":\"alice\",\
         \"job_ids\":[\"j1\"],\
         \"old_job_metadatas\":[{\"issued_at\":5,\"updated_at\":5}],\
         \"new_job_metadatas\":[{\"issued_at\":5,\"updated_at\":9,\"extra\":\"x\"}]}]}"
    );
}

#[test]
fn nft_mint_event_wire_line_skips_absent_memo() {
    let mut c = cert::Contract::new_default_meta("admin".to_string());
    c.category_create(&ctx("alice", 10000, 1, 5), "c1".to_string(), empty_category_meta())
        .unwrap();
    let r = c
        .nft_mint(&ctx("alice", 10000, 1, 6), empty_token_meta(), "bob".to_string(),
            "c1".to_string())
        .unwrap();
    assert_eq!(
        r.events[0].to_json_event_string(),
        "EVENT_JSON:{\"standard\":\"nep171\",\"version\":\"1.0.0\",\
         \"event\":\"nft_mint\",\"data\":[{\"owner_id\":\"bob\",\
         \"token_ids\":[\"0\"]}]}"
    );
}

#[test]
fn nft_transfer_event_wire_line_with_memo() {
    let mut c = cert::Contract::new_default_meta("admin".to_string());
    c.category_create(&ctx("alice", 10000, 1, 5), "c1".to_string(), empty_category_meta())
        .unwrap();
    c.nft_mint(&ctx("alice", 10000, 1, 6), empty_token_meta(), "bob".to_string(),
        "c1".to_string()).unwrap();
    let r = c
        .nft_transfer(&ctx("bob", 1, 1, 7), "carol".to_string(), "0".to_string(),
            Some("say \"hi\"".to_string()))
        .unwrap();
    assert_eq!(
        r.events[0].to_json_event_string(),
        "EVENT_JSON:{\"standard\":\"nep171\",\"version\":\"1.0.0\",\
         \"event\":\"nft_transfer\",\"data\":[{\"old_owner_id\":\"bob\",\
         \"new_owner_id\":\"carol\",\"token_ids\":[\"0\"],\
         \"memo\":\"say \\\"hi\\\"\"}]}"
    );
}

#[test]
fn category_delete_event_wire_line() {
    let mut c = cert::Contract::new_default_meta("admin".to_string());
    c.category_create(&ctx("alice", 10000, 1, 5), "c1".to_string(), empty_category_meta())
        .unwrap();
    let r = c.category_delete(&ctx("alice", 1, 1, 6), "c1".to_string()).unwrap();
    assert_eq!(
        r.events[0].to_json_event_string(),
        "EVENT_JSON:{\"standard\":\"cecert\",\"version\":\"0.1.0\",\
         \"event\":\"category_delete\",\"data\":[{\"authorized_id\":\"alice\",\
         \"category_ids\":[\"c1\"]}]}"
    );
}

#[test]
fn category_create_event_renders_metadata_snapshot() {
    let mut c = cert::Contract::new_default_meta("admin".to_string());
    let mut meta = empty_category_meta();
    meta.title = Some("Cloud Cert".to_string());
    let r = c
        .category_create(&ctx("alice", 10000, 1, 5), "c1".to_string(), meta)
        .unwrap();
    assert_eq!(
        r.events[0].to_json_event_string(),
        "EVENT_JSON:{\"standard\":\"cecert\",\"version\":\"0.1.0\",\
         \"event\":\"category_create\",\"data\":[{\"authorized_id\":\"alice\",\
         \"owner_id\":\"alice\",\"category_ids\":[\"c1\"],\
         \"category_metadatas\":[{\"title\":\"Cloud Cert\",\
         \"issued_at\":5,\"updated_at\":5}]}]}"
    );
}

#[test]
fn absent_authorized_id_renders_as_null() {
    let e = career_events::EventLog {
        standard: "cecareer".to_string(),
        version: "0.1.0".to_string(),
        event: career_events::EventLogVariant::JobDelete(vec![career_events::JobDeleteLog {
            authorized_id: None,
            job_ids: vec!["j1".to_string()],
        }]),
    };
    assert_eq!(
        e.to_json_event_string(),
        "EVENT_JSON:{\"standard\":\"cecareer\",\"version\":\"0.1.0\",\
         \"event\":\"job_delete\",\"data\":[{\"authorized_id\":null,\
         \"job_ids\":[\"j1\"]}]}"
    );
}

#[test]
fn json_strings_escape_quotes_backslashes_and_controls() {
    let e = career_events::EventLog {
        standard: "cecareer".to_string(),
        version: "0.1.0".to_string(),
        event: career_events::EventLogVariant::JobDelete(vec![career_events::JobDeleteLog {
            authorized_id: Some("a\\b".to_string()),
            job_ids: vec!["x\"y\n\t\u{1}z".to_string()],
        }]),
    };
    assert_eq!(
        e.to_json_event_string(),
        "EVENT_JSON:{\"standard\":\"cecareer\",\"version\":\"0.1.0\",\
         \"event\":\"job_delete\",\"data\":[{\"authorized_id\":\"a\\\\b\",\
         \"job_ids\":[\"x\\\"y\\n\\t\\u0001z\"]}]}"
    );
}

#[test]
fn decimal_rendering_is_exact() {
    assert_eq!(u128_to_dec(0), "0");
    assert_eq!(u128_to_dec(7), "7");
    assert_eq!(u128_to_dec(10), "10");
    assert_eq!(u128_to_dec(12345), "12345");
    assert_eq!(
        u128_to_dec(340282366920938463463374607431768211455),
        "340282366920938463463374607431768211455"
    );
}
