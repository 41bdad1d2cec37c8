//! Audit events of the certificate registry.
//!
//! Every completed category mutation, mint and transfer is described by
//! one `EventLog`, rendered for the host as a single line of JSON text
//! prefixed with `EVENT_JSON:`.  The exact wire text is pinned down by
//! the `json_of_*` specification functions.

use vstd::prelude::*;
use crate::category::CategoryMetadata;
use crate::jsontext::{join_comma, json_opt_str, json_str, json_str_arr, opt_num_frag,
    opt_str_frag, push_json_array, push_json_object, push_json_opt_str, push_json_str,
    push_json_str_arr, add_opt_num_frag, add_opt_str_frag, push_joined};
use crate::strbuild::push_char;

verus! {

/// The payload of a token-mint event.
#[derive(Debug, PartialEq, Eq)]
pub struct NftMintLog {
    /// Owner of the minted tokens.
    pub owner_id: String,
    /// The minted token ids.
    pub token_ids: Vec<String>,
    /// An optional message.
    pub memo: Option<String>,
}

/// The payload of a token-transfer event.
#[derive(Debug, PartialEq, Eq)]
pub struct NftTransferLog {
    /// An account approved to transfer on behalf of the old owner.
    pub authorized_id: Option<String>,
    /// The owner before the transfer.
    pub old_owner_id: String,
    /// The owner after the transfer.
    pub new_owner_id: String,
    /// The transferred token ids.
    pub token_ids: Vec<String>,
    /// An optional message.
    pub memo: Option<String>,
}

/// The payload of a category-creation event.
#[derive(Debug, PartialEq, Eq)]
pub struct CategoryCreateLog {
    /// The account that made the call.
    pub authorized_id: Option<String>,
    /// Owner of the created categories.
    pub owner_id: String,
    /// The created category ids.
    pub category_ids: Vec<String>,
    /// The stored metadata of the created categories.
    pub category_metadatas: Vec<CategoryMetadata>,
}

/// The payload of a category-update event, carrying the metadata before
/// and after the update.
#[derive(Debug, PartialEq, Eq)]
pub struct CategoryUpdateLog {
    /// The account that made the call.
    pub authorized_id: Option<String>,
    /// The updated category ids.
    pub category_ids: Vec<String>,
    /// The stored metadata before the update.
    pub old_category_metadatas: Vec<CategoryMetadata>,
    /// The stored metadata after the update.
    pub new_category_metadatas: Vec<CategoryMetadata>,
}

/// The payload of a category-deletion event.
#[derive(Debug, PartialEq, Eq)]
pub struct CategoryDeleteLog {
    /// The account that made the call.
    pub authorized_id: Option<String>,
    /// The deleted category ids.
    pub category_ids: Vec<String>,
}

/// Which kind of certificate-registry mutation an event describes.
#[derive(Debug, PartialEq, Eq)]
pub enum EventLogVariant {
    /// Tokens were minted.
    NftMint(Vec<NftMintLog>),
    /// Tokens were transferred.
    NftTransfer(Vec<NftTransferLog>),
    /// Categories were created.
    CategoryCreate(Vec<CategoryCreateLog>),
    /// Category metadata was updated.
    CategoryUpdate(Vec<CategoryUpdateLog>),
    /// Categories were deleted.
    CategoryDelete(Vec<CategoryDeleteLog>),
}

/// One audit event: the standard and version it follows, and the change
/// it describes.
#[derive(Debug, PartialEq, Eq)]
pub struct EventLog {
    /// Name of the event standard.
    pub standard: String,
    /// Version of the event standard.
    pub version: String,
    /// The described change.
    pub event: EventLogVariant,
}

/// The JSON object of a category metadata payload: the present fields in
/// declaration order, absent fields skipped.
pub open spec fn json_of_category_meta(m: CategoryMetadata) -> Seq<char> {
    seq!['{'] + join_comma(
        opt_str_frag("\"title\":"@, m.title)
            + opt_str_frag("\"description\":"@, m.description)
            + opt_str_frag("\"media\":"@, m.media)
            + opt_str_frag("\"media_hash\":"@, m.media_hash)
            + opt_num_frag("\"issued_at\":"@, m.issued_at)
            + opt_num_frag("\"updated_at\":"@, m.updated_at)
            + opt_str_frag("\"fields\":"@, m.fields)
            + opt_str_frag("\"extra\":"@, m.extra)
            + opt_str_frag("\"reference\":"@, m.reference)
            + opt_str_frag("\"reference_hash\":"@, m.reference_hash),
    ) + seq!['}']
}

/// The JSON array of a list of category metadata payloads.
pub open spec fn json_of_category_meta_arr(v: Seq<CategoryMetadata>) -> Seq<char> {
    seq!['['] + join_comma(Seq::new(v.len(), |i: int| json_of_category_meta(v[i]))) + seq![']']
}

/// The JSON object of a token-mint payload.
pub open spec fn json_of_nft_mint_log(l: NftMintLog) -> Seq<char> {
    seq!['{'] + join_comma(
        seq!["\"owner_id\":"@ + json_str(l.owner_id@)]
            + seq!["\"token_ids\":"@ + json_str_arr(l.token_ids.deep_view())]
            + opt_str_frag("\"memo\":"@, l.memo),
    ) + seq!['}']
}

/// The JSON object of a token-transfer payload.
pub open spec fn json_of_nft_transfer_log(l: NftTransferLog) -> Seq<char> {
    seq!['{'] + join_comma(
        opt_str_frag("\"authorized_id\":"@, l.authorized_id)
            + seq!["\"old_owner_id\":"@ + json_str(l.old_owner_id@)]
            + seq!["\"new_owner_id\":"@ + json_str(l.new_owner_id@)]
            + seq!["\"token_ids\":"@ + json_str_arr(l.token_ids.deep_view())]
            + opt_str_frag("\"memo\":"@, l.memo),
    ) + seq!['}']
}

/// The JSON object of a category-creation payload.
pub open spec fn json_of_category_create_log(l: CategoryCreateLog) -> Seq<char> {
    "{\"authorized_id\":"@ + json_opt_str(l.authorized_id)
        + ",\"owner_id\":"@ + json_str(l.owner_id@)
        + ",\"category_ids\":"@ + json_str_arr(l.category_ids.deep_view())
        + ",\"category_metadatas\":"@ + json_of_category_meta_arr(l.category_metadatas@)
        + seq!['}']
}

/// The JSON object of a category-update payload.
pub open spec fn json_of_category_update_log(l: CategoryUpdateLog) -> Seq<char> {
    "{\"authorized_id\":"@ + json_opt_str(l.authorized_id)
        + ",\"category_ids\":"@ + json_str_arr(l.category_ids.deep_view())
        + ",\"old_category_metadatas\":"@ + json_of_category_meta_arr(l.old_category_metadatas@)
        + ",\"new_category_metadatas\":"@ + json_of_category_meta_arr(l.new_category_metadatas@)
        + seq!['}']
}

/// The JSON object of a category-deletion payload.
pub open spec fn json_of_category_delete_log(l: CategoryDeleteLog) -> Seq<char> {
    "{\"authorized_id\":"@ + json_opt_str(l.authorized_id)
        + ",\"category_ids\":"@ + json_str_arr(l.category_ids.deep_view())
        + seq!['}']
}

/// The tag, and the comma-joined payload objects, of an event variant.
pub open spec fn json_of_variant(ev: EventLogVariant) -> Seq<char> {
    match ev {
        EventLogVariant::NftMint(v) => "nft_mint\",\"data\":["@ + join_comma(
            Seq::new(v@.len(), |i: int| json_of_nft_mint_log(v@[i])),
        ) + "]}"@,
        EventLogVariant::NftTransfer(v) => "nft_transfer\",\"data\":["@ + join_comma(
            Seq::new(v@.len(), |i: int| json_of_nft_transfer_log(v@[i])),
        ) + "]}"@,
        EventLogVariant::CategoryCreate(v) => "category_create\",\"data\":["@ + join_comma(
            Seq::new(v@.len(), |i: int| json_of_category_create_log(v@[i])),
        ) + "]}"@,
        EventLogVariant::CategoryUpdate(v) => "category_update\",\"data\":["@ + join_comma(
            Seq::new(v@.len(), |i: int| json_of_category_update_log(v@[i])),
        ) + "]}"@,
        EventLogVariant::CategoryDelete(v) => "category_delete\",\"data\":["@ + join_comma(
            Seq::new(v@.len(), |i: int| json_of_category_delete_log(v@[i])),
        ) + "]}"@,
    }
}

/// The whole wire line of an audit event.
pub open spec fn json_of_event(e: EventLog) -> Seq<char> {
    "EVENT_JSON:{\"standard\":"@ + json_str(e.standard@)
        + ",\"version\":"@ + json_str(e.version@)
        + ",\"event\":\""@ + json_of_variant(e.event)
}

/// Render a category metadata payload as a JSON object.
pub fn json_category_meta(m: &CategoryMetadata) -> (r: String)
    ensures
        r@ == json_of_category_meta(*m),
{
    let mut parts: Vec<String> = Vec::new();
    add_opt_str_frag(&mut parts, "\"title\":", &m.title);
    add_opt_str_frag(&mut parts, "\"description\":", &m.description);
    add_opt_str_frag(&mut parts, "\"media\":", &m.media);
    add_opt_str_frag(&mut parts, "\"media_hash\":", &m.media_hash);
    add_opt_num_frag(&mut parts, "\"issued_at\":", &m.issued_at);
    add_opt_num_frag(&mut parts, "\"updated_at\":", &m.updated_at);
    add_opt_str_frag(&mut parts, "\"fields\":", &m.fields);
    add_opt_str_frag(&mut parts, "\"extra\":", &m.extra);
    add_opt_str_frag(&mut parts, "\"reference\":", &m.reference);
    add_opt_str_frag(&mut parts, "\"reference_hash\":", &m.reference_hash);
    let mut buf = String::new();
    push_json_object(&mut buf, &parts);
    proof {
        assert(parts.deep_view() =~= opt_str_frag("\"title\":"@, m.title)
            + opt_str_frag("\"description\":"@, m.description)
            + opt_str_frag("\"media\":"@, m.media)
            + opt_str_frag("\"media_hash\":"@, m.media_hash)
            + opt_num_frag("\"issued_at\":"@, m.issued_at)
            + opt_num_frag("\"updated_at\":"@, m.updated_at)
            + opt_str_frag("\"fields\":"@, m.fields)
            + opt_str_frag("\"extra\":"@, m.extra)
            + opt_str_frag("\"reference\":"@, m.reference)
            + opt_str_frag("\"reference_hash\":"@, m.reference_hash));
        assert(buf@ =~= json_of_category_meta(*m));
    }
    buf
}

/// Append the JSON array of a list of category metadata payloads.
fn push_category_meta_arr(buf: &mut String, v: &Vec<CategoryMetadata>)
    ensures
        final(buf)@ == old(buf)@ + json_of_category_meta_arr(v@),
{
    let ghost toks = Seq::new(v@.len(), |i: int| json_of_category_meta(v@[i]));
    let mut parts: Vec<String> = Vec::new();
    let n = v.len();
    let mut i: usize = 0;
    while i < n
        invariant
            n == v@.len(),
            toks == Seq::new(v@.len(), |k: int| json_of_category_meta(v@[k])),
            i <= n,
            parts.deep_view() =~= toks.subrange(0, i as int),
        decreases n - i,
    {
        let ghost prev = parts.deep_view();
        parts.push(json_category_meta(&v[i]));
        proof {
            assert(parts.deep_view() =~= prev.push(toks[i as int]));
            assert(parts.deep_view() =~= toks.subrange(0, i + 1));
        }
        i = i + 1;
    }
    proof {
        assert(parts.deep_view() =~= toks);
    }
    push_json_array(buf, &parts);
}

/// Add the fragment of one mandatory string field to a fragment list.
fn add_str_frag(parts: &mut Vec<String>, prefix: &str, s: &String)
    ensures
        final(parts).deep_view() == old(parts).deep_view() + seq![prefix@ + json_str(s@)],
{
    let mut f = prefix.to_owned();
    push_json_str(&mut f, s.as_str());
    parts.push(f);
    proof {
        assert(final(parts).deep_view()
            =~= old(parts).deep_view() + seq![prefix@ + json_str(s@)]);
    }
}

/// Add the fragment of one mandatory string-array field to a fragment
/// list.
fn add_str_arr_frag(parts: &mut Vec<String>, prefix: &str, v: &Vec<String>)
    ensures
        final(parts).deep_view() == old(parts).deep_view()
            + seq![prefix@ + json_str_arr(v.deep_view())],
{
    let mut f = prefix.to_owned();
    push_json_str_arr(&mut f, v);
    parts.push(f);
    proof {
        assert(final(parts).deep_view()
            =~= old(parts).deep_view() + seq![prefix@ + json_str_arr(v.deep_view())]);
    }
}

impl EventLog {
    /// Render the event as its wire line: `EVENT_JSON:` followed by one
    /// JSON object carrying the standard, the version, the event tag and
    /// the payload list.
    #[verifier::rlimit(60)]
    pub fn to_json_event_string(&self) -> (r: String)
        ensures
            r@ == json_of_event(*self),
    {
        let mut buf = "EVENT_JSON:{\"standard\":".to_owned();
        push_json_str(&mut buf, self.standard.as_str());
        buf.append(",\"version\":");
        push_json_str(&mut buf, self.version.as_str());
        buf.append(",\"event\":\"");
        match &self.event {
            EventLogVariant::NftMint(v) => {
                buf.append("nft_mint\",\"data\":[");
                let ghost toks = Seq::new(v@.len(), |i: int| json_of_nft_mint_log(v@[i]));
                let mut parts: Vec<String> = Vec::new();
                let n = v.len();
                let mut i: usize = 0;
                while i < n
                    invariant
                        n == v@.len(),
                        toks == Seq::new(v@.len(), |k: int| json_of_nft_mint_log(v@[k])),
                        i <= n,
                        parts.deep_view() =~= toks.subrange(0, i as int),
                    decreases n - i,
                {
                    let ghost prev = parts.deep_view();
                    let l = &v[i];
                    let mut frags: Vec<String> = Vec::new();
                    add_str_frag(&mut frags, "\"owner_id\":", &l.owner_id);
                    add_str_arr_frag(&mut frags, "\"token_ids\":", &l.token_ids);
                    add_opt_str_frag(&mut frags, "\"memo\":", &l.memo);
                    let mut one = String::new();
                    push_json_object(&mut one, &frags);
                    proof {
                        assert(frags.deep_view()
                            =~= seq!["\"owner_id\":"@ + json_str(l.owner_id@)]
                                + seq!["\"token_ids\":"@ + json_str_arr(l.token_ids.deep_view())]
                                + opt_str_frag("\"memo\":"@, l.memo));
                        assert(one@ =~= json_of_nft_mint_log(v@[i as int]));
                    }
                    parts.push(one);
                    proof {
                        assert(parts.deep_view() =~= prev.push(toks[i as int]));
                        assert(parts.deep_view() =~= toks.subrange(0, i + 1));
                    }
                    i = i + 1;
                }
                proof {
                    assert(parts.deep_view() =~= toks);
                }
                push_joined(&mut buf, &parts);
                buf.append("]}");
            },
            EventLogVariant::NftTransfer(v) => {
                buf.append("nft_transfer\",\"data\":[");
                let ghost toks = Seq::new(v@.len(), |i: int| json_of_nft_transfer_log(v@[i]));
                let mut parts: Vec<String> = Vec::new();
                let n = v.len();
                let mut i: usize = 0;
                while i < n
                    invariant
                        n == v@.len(),
                        toks == Seq::new(v@.len(), |k: int| json_of_nft_transfer_log(v@[k])),
                        i <= n,
                        parts.deep_view() =~= toks.subrange(0, i as int),
                    decreases n - i,
                {
                    let ghost prev = parts.deep_view();
                    let l = &v[i];
                    let mut frags: Vec<String> = Vec::new();
                    add_opt_str_frag(&mut frags, "\"authorized_id\":", &l.authorized_id);
                    add_str_frag(&mut frags, "\"old_owner_id\":", &l.old_owner_id);
                    add_str_frag(&mut frags, "\"new_owner_id\":", &l.new_owner_id);
                    add_str_arr_frag(&mut frags, "\"token_ids\":", &l.token_ids);
                    add_opt_str_frag(&mut frags, "\"memo\":", &l.memo);
                    let mut one = String::new();
                    push_json_object(&mut one, &frags);
                    proof {
                        assert(frags.deep_view()
                            =~= opt_str_frag("\"authorized_id\":"@, l.authorized_id)
                                + seq!["\"old_owner_id\":"@ + json_str(l.old_owner_id@)]
                                + seq!["\"new_owner_id\":"@ + json_str(l.new_owner_id@)]
                                + seq!["\"token_ids\":"@ + json_str_arr(l.token_ids.deep_view())]
                                + opt_str_frag("\"memo\":"@, l.memo));
                        assert(one@ =~= json_of_nft_transfer_log(v@[i as int]));
                    }
                    parts.push(one);
                    proof {
                        assert(parts.deep_view() =~= prev.push(toks[i as int]));
                        assert(parts.deep_view() =~= toks.subrange(0, i + 1));
                    }
                    i = i + 1;
                }
                proof {
                    assert(parts.deep_view() =~= toks);
                }
                push_joined(&mut buf, &parts);
                buf.append("]}");
            },
            EventLogVariant::CategoryCreate(v) => {
                buf.append("category_create\",\"data\":[");
                let ghost toks = Seq::new(v@.len(), |i: int| json_of_category_create_log(v@[i]));
                let mut parts: Vec<String> = Vec::new();
                let n = v.len();
                let mut i: usize = 0;
                while i < n
                    invariant
                        n == v@.len(),
                        toks == Seq::new(v@.len(), |k: int| json_of_category_create_log(v@[k])),
                        i <= n,
                        parts.deep_view() =~= toks.subrange(0, i as int),
                    decreases n - i,
                {
                    let ghost prev = parts.deep_view();
                    let l = &v[i];
                    let mut one = "{\"authorized_id\":".to_owned();
                    push_json_opt_str(&mut one, &l.authorized_id);
                    one.append(",\"owner_id\":");
                    push_json_str(&mut one, l.owner_id.as_str());
                    one.append(",\"category_ids\":");
                    push_json_str_arr(&mut one, &l.category_ids);
                    one.append(",\"category_metadatas\":");
                    push_category_meta_arr(&mut one, &l.category_metadatas);
                    push_char(&mut one, '}');
                    proof {
                        assert(one@ =~= json_of_category_create_log(v@[i as int]));
                    }
                    parts.push(one);
                    proof {
                        assert(parts.deep_view() =~= prev.push(toks[i as int]));
                        assert(parts.deep_view() =~= toks.subrange(0, i + 1));
                    }
                    i = i + 1;
                }
                proof {
                    assert(parts.deep_view() =~= toks);
                }
                push_joined(&mut buf, &parts);
                buf.append("]}");
            },
            EventLogVariant::CategoryUpdate(v) => {
                buf.append("category_update\",\"data\":[");
                let ghost toks = Seq::new(v@.len(), |i: int| json_of_category_update_log(v@[i]));
                let mut parts: Vec<String> = Vec::new();
                let n = v.len();
                let mut i: usize = 0;
                while i < n
                    invariant
                        n == v@.len(),
                        toks == Seq::new(v@.len(), |k: int| json_of_category_update_log(v@[k])),
                        i <= n,
                        parts.deep_view() =~= toks.subrange(0, i as int),
                    decreases n - i,
                {
                    let ghost prev = parts.deep_view();
                    let l = &v[i];
                    let mut one = "{\"authorized_id\":".to_owned();
                    push_json_opt_str(&mut one, &l.authorized_id);
                    one.append(",\"category_ids\":");
                    push_json_str_arr(&mut one, &l.category_ids);
                    one.append(",\"old_category_metadatas\":");
                    push_category_meta_arr(&mut one, &l.old_category_metadatas);
                    one.append(",\"new_category_metadatas\":");
                    push_category_meta_arr(&mut one, &l.new_category_metadatas);
                    push_char(&mut one, '}');
                    proof {
                        assert(one@ =~= json_of_category_update_log(v@[i as int]));
                    }
                    parts.push(one);
                    proof {
                        assert(parts.deep_view() =~= prev.push(toks[i as int]));
                        assert(parts.deep_view() =~= toks.subrange(0, i + 1));
                    }
                    i = i + 1;
                }
                proof {
                    assert(parts.deep_view() =~= toks);
                }
                push_joined(&mut buf, &parts);
                buf.append("]}");
            },
            EventLogVariant::CategoryDelete(v) => {
                buf.append("category_delete\",\"data\":[");
                let ghost toks = Seq::new(v@.len(), |i: int| json_of_category_delete_log(v@[i]));
                let mut parts: Vec<String> = Vec::new();
                let n = v.len();
                let mut i: usize = 0;
                while i < n
                    invariant
                        n == v@.len(),
                        toks == Seq::new(v@.len(), |k: int| json_of_category_delete_log(v@[k])),
                        i <= n,
                        parts.deep_view() =~= toks.subrange(0, i as int),
                    decreases n - i,
                {
                    let ghost prev = parts.deep_view();
                    let l = &v[i];
                    let mut one = "{\"authorized_id\":".to_owned();
                    push_json_opt_str(&mut one, &l.authorized_id);
                    one.append(",\"category_ids\":");
                    push_json_str_arr(&mut one, &l.category_ids);
                    push_char(&mut one, '}');
                    proof {
                        assert(one@ =~= json_of_category_delete_log(v@[i as int]));
                    }
                    parts.push(one);
                    proof {
                        assert(parts.deep_view() =~= prev.push(toks[i as int]));
                        assert(parts.deep_view() =~= toks.subrange(0, i + 1));
                    }
                    i = i + 1;
                }
                proof {
                    assert(parts.deep_view() =~= toks);
                }
                push_joined(&mut buf, &parts);
                buf.append("]}");
            },
        }
        proof {
            assert(buf@ =~= json_of_event(*self));
        }
        buf
    }
}

} // verus!
