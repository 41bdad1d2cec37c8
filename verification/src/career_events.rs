//! Audit events of the job registry.
//!
//! Every completed job mutation is described by one `EventLog`, rendered
//! for the host as a single line of JSON text prefixed with `EVENT_JSON:`.
//! The exact wire text is pinned down by the `json_of_*` specification
//! functions.

use vstd::prelude::*;
use crate::job::{JobId, JobMetadata};
use crate::jsontext::{join_comma, json_opt_str, json_str, json_str_arr, opt_num_frag,
    opt_str_frag, push_json_array, push_json_object, push_json_opt_str, push_json_str,
    push_json_str_arr, add_opt_num_frag, add_opt_str_frag, push_joined};
use crate::strbuild::push_char;

verus! {

/// The payload of a job-creation event.
#[derive(Debug, PartialEq, Eq)]
pub struct JobCreateLog {
    /// The account that made the call.
    pub authorized_id: Option<String>,
    /// Owner of the created jobs.
    pub owner_id: String,
    /// The created job ids.
    pub job_ids: Vec<JobId>,
    /// The stored metadata of the created jobs.
    pub job_metadatas: Vec<JobMetadata>,
}

/// The payload of a job-update event, carrying the metadata before and
/// after the update.
#[derive(Debug, PartialEq, Eq)]
pub struct JobUpdateLog {
    /// The account that made the call.
    pub authorized_id: Option<String>,
    /// The updated job ids.
    pub job_ids: Vec<JobId>,
    /// The stored metadata before the update.
    pub old_job_metadatas: Vec<JobMetadata>,
    /// The stored metadata after the update.
    pub new_job_metadatas: Vec<JobMetadata>,
}

/// The payload of a job-deletion event.
#[derive(Debug, PartialEq, Eq)]
pub struct JobDeleteLog {
    /// The account that made the call.
    pub authorized_id: Option<String>,
    /// The deleted job ids.
    pub job_ids: Vec<JobId>,
}

/// Which kind of job mutation an event describes.
#[derive(Debug, PartialEq, Eq)]
pub enum EventLogVariant {
    /// Jobs were created.
    JobCreate(Vec<JobCreateLog>),
    /// Job metadata was updated.
    JobUpdate(Vec<JobUpdateLog>),
    /// Jobs were deleted.
    JobDelete(Vec<JobDeleteLog>),
}

/// One audit event: the standard and version it follows, and the change
/// it describes.
#[derive(Debug, PartialEq, Eq)]
pub struct EventLog {
    /// Name of the event standard.
    pub standard: String,
    /// Version of the event standard.
    pub version: String,
    /// The described change.
    pub event: EventLogVariant,
}

/// The JSON object of a job metadata payload: the present fields in
/// declaration order, absent fields skipped.
pub open spec fn json_of_job_meta(m: JobMetadata) -> Seq<char> {
    seq!['{'] + join_comma(
        opt_num_frag("\"issued_at\":"@, m.issued_at)
            + opt_num_frag("\"updated_at\":"@, m.updated_at)
            + opt_str_frag("\"extra\":"@, m.extra)
            + opt_str_frag("\"reference\":"@, m.reference)
            + opt_str_frag("\"reference_hash\":"@, m.reference_hash),
    ) + seq!['}']
}

/// The JSON array of a list of job metadata payloads.
pub open spec fn json_of_job_meta_arr(v: Seq<JobMetadata>) -> Seq<char> {
    seq!['['] + join_comma(Seq::new(v.len(), |i: int| json_of_job_meta(v[i]))) + seq![']']
}

/// The JSON object of a job-creation payload.
pub open spec fn json_of_job_create_log(l: JobCreateLog) -> Seq<char> {
    "{\"authorized_id\":"@ + json_opt_str(l.authorized_id)
        + ",\"owner_id\":"@ + json_str(l.owner_id@)
        + ",\"job_ids\":"@ + json_str_arr(l.job_ids.deep_view())
        + ",\"job_metadatas\":"@ + json_of_job_meta_arr(l.job_metadatas@)
        + seq!['}']
}

/// The JSON object of a job-update payload.
pub open spec fn json_of_job_update_log(l: JobUpdateLog) -> Seq<char> {
    "{\"authorized_id\":"@ + json_opt_str(l.authorized_id)
        + ",\"job_ids\":"@ + json_str_arr(l.job_ids.deep_view())
        + ",\"old_job_metadatas\":"@ + json_of_job_meta_arr(l.old_job_metadatas@)
        + ",\"new_job_metadatas\":"@ + json_of_job_meta_arr(l.new_job_metadatas@)
        + seq!['}']
}

/// The JSON object of a job-deletion payload.
pub open spec fn json_of_job_delete_log(l: JobDeleteLog) -> Seq<char> {
    "{\"authorized_id\":"@ + json_opt_str(l.authorized_id)
        + ",\"job_ids\":"@ + json_str_arr(l.job_ids.deep_view())
        + seq!['}']
}

/// The tag, and the comma-joined payload objects, of an event variant.
pub open spec fn json_of_variant(ev: EventLogVariant) -> Seq<char> {
    match ev {
        EventLogVariant::JobCreate(v) => "job_create\",\"data\":["@ + join_comma(
            Seq::new(v@.len(), |i: int| json_of_job_create_log(v@[i])),
        ) + "]}"@,
        EventLogVariant::JobUpdate(v) => "job_update\",\"data\":["@ + join_comma(
            Seq::new(v@.len(), |i: int| json_of_job_update_log(v@[i])),
        ) + "]}"@,
        EventLogVariant::JobDelete(v) => "job_delete\",\"data\":["@ + join_comma(
            Seq::new(v@.len(), |i: int| json_of_job_delete_log(v@[i])),
        ) + "]}"@,
    }
}

/// The whole wire line of an audit event.
pub open spec fn json_of_event(e: EventLog) -> Seq<char> {
    "EVENT_JSON:{\"standard\":"@ + json_str(e.standard@)
        + ",\"version\":"@ + json_str(e.version@)
        + ",\"event\":\""@ + json_of_variant(e.event)
}

/// Render a job metadata payload as a JSON object.
pub fn json_job_meta(m: &JobMetadata) -> (r: String)
    ensures
        r@ == json_of_job_meta(*m),
{
    let mut parts: Vec<String> = Vec::new();
    add_opt_num_frag(&mut parts, "\"issued_at\":", &m.issued_at);
    add_opt_num_frag(&mut parts, "\"updated_at\":", &m.updated_at);
    add_opt_str_frag(&mut parts, "\"extra\":", &m.extra);
    add_opt_str_frag(&mut parts, "\"reference\":", &m.reference);
    add_opt_str_frag(&mut parts, "\"reference_hash\":", &m.reference_hash);
    let mut buf = String::new();
    push_json_object(&mut buf, &parts);
    proof {
        assert(parts.deep_view() =~= opt_num_frag("\"issued_at\":"@, m.issued_at)
            + opt_num_frag("\"updated_at\":"@, m.updated_at)
            + opt_str_frag("\"extra\":"@, m.extra)
            + opt_str_frag("\"reference\":"@, m.reference)
            + opt_str_frag("\"reference_hash\":"@, m.reference_hash));
        assert(buf@ =~= json_of_job_meta(*m));
    }
    buf
}

/// Append the JSON array of a list of job metadata payloads.
fn push_job_meta_arr(buf: &mut String, v: &Vec<JobMetadata>)
    ensures
        final(buf)@ == old(buf)@ + json_of_job_meta_arr(v@),
{
    let ghost toks = Seq::new(v@.len(), |i: int| json_of_job_meta(v@[i]));
    let mut parts: Vec<String> = Vec::new();
    let n = v.len();
    let mut i: usize = 0;
    while i < n
        invariant
            n == v@.len(),
            toks == Seq::new(v@.len(), |k: int| json_of_job_meta(v@[k])),
            i <= n,
            parts.deep_view() =~= toks.subrange(0, i as int),
        decreases n - i,
    {
        let ghost prev = parts.deep_view();
        parts.push(json_job_meta(&v[i]));
        proof {
            assert(parts.deep_view() =~= prev.push(toks[i as int]));
            assert(parts.deep_view() =~= toks.subrange(0, i + 1));
        }
        i = i + 1;
    }
    proof {
        assert(parts.deep_view() =~= toks);
    }
    push_json_array(buf, &parts);
}

impl EventLog {
    /// Render the event as its wire line: `EVENT_JSON:` followed by one
    /// JSON object carrying the standard, the version, the event tag and
    /// the payload list.
    pub fn to_json_event_string(&self) -> (r: String)
        ensures
            r@ == json_of_event(*self),
    {
        let mut buf = "EVENT_JSON:{\"standard\":".to_owned();
        push_json_str(&mut buf, self.standard.as_str());
        buf.append(",\"version\":");
        push_json_str(&mut buf, self.version.as_str());
        buf.append(",\"event\":\"");
        match &self.event {
            EventLogVariant::JobCreate(v) => {
                buf.append("job_create\",\"data\":[");
                let ghost toks = Seq::new(v@.len(), |i: int| json_of_job_create_log(v@[i]));
                let mut parts: Vec<String> = Vec::new();
                let n = v.len();
                let mut i: usize = 0;
                while i < n
                    invariant
                        n == v@.len(),
                        toks == Seq::new(v@.len(), |k: int| json_of_job_create_log(v@[k])),
                        i <= n,
                        parts.deep_view() =~= toks.subrange(0, i as int),
                    decreases n - i,
                {
                    let ghost prev = parts.deep_view();
                    let l = &v[i];
                    let mut one = "{\"authorized_id\":".to_owned();
                    push_json_opt_str(&mut one, &l.authorized_id);
                    one.append(",\"owner_id\":");
                    push_json_str(&mut one, l.owner_id.as_str());
                    one.append(",\"job_ids\":");
                    push_json_str_arr(&mut one, &l.job_ids);
                    one.append(",\"job_metadatas\":");
                    push_job_meta_arr(&mut one, &l.job_metadatas);
                    push_char(&mut one, '}');
                    proof {
                        assert(one@ =~= json_of_job_create_log(v@[i as int]));
                    }
                    parts.push(one);
                    proof {
                        assert(parts.deep_view() =~= prev.push(toks[i as int]));
                        assert(parts.deep_view() =~= toks.subrange(0, i + 1));
                    }
                    i = i + 1;
                }
                proof {
                    assert(parts.deep_view() =~= toks);
                }
                push_joined(&mut buf, &parts);
                buf.append("]}");
            },
            EventLogVariant::JobUpdate(v) => {
                buf.append("job_update\",\"data\":[");
                let ghost toks = Seq::new(v@.len(), |i: int| json_of_job_update_log(v@[i]));
                let mut parts: Vec<String> = Vec::new();
                let n = v.len();
                let mut i: usize = 0;
                while i < n
                    invariant
                        n == v@.len(),
                        toks == Seq::new(v@.len(), |k: int| json_of_job_update_log(v@[k])),
                        i <= n,
                        parts.deep_view() =~= toks.subrange(0, i as int),
                    decreases n - i,
                {
                    let ghost prev = parts.deep_view();
                    let l = &v[i];
                    let mut one = "{\"authorized_id\":".to_owned();
                    push_json_opt_str(&mut one, &l.authorized_id);
                    one.append(",\"job_ids\":");
                    push_json_str_arr(&mut one, &l.job_ids);
                    one.append(",\"old_job_metadatas\":");
                    push_job_meta_arr(&mut one, &l.old_job_metadatas);
                    one.append(",\"new_job_metadatas\":");
                    push_job_meta_arr(&mut one, &l.new_job_metadatas);
                    push_char(&mut one, '}');
                    proof {
                        assert(one@ =~= json_of_job_update_log(v@[i as int]));
                    }
                    parts.push(one);
                    proof {
                        assert(parts.deep_view() =~= prev.push(toks[i as int]));
                        assert(parts.deep_view() =~= toks.subrange(0, i + 1));
                    }
                    i = i + 1;
                }
                proof {
                    assert(parts.deep_view() =~= toks);
                }
                push_joined(&mut buf, &parts);
                buf.append("]}");
            },
            EventLogVariant::JobDelete(v) => {
                buf.append("job_delete\",\"data\":[");
                let ghost toks = Seq::new(v@.len(), |i: int| json_of_job_delete_log(v@[i]));
                let mut parts: Vec<String> = Vec::new();
                let n = v.len();
                let mut i: usize = 0;
                while i < n
                    invariant
                        n == v@.len(),
                        toks == Seq::new(v@.len(), |k: int| json_of_job_delete_log(v@[k])),
                        i <= n,
                        parts.deep_view() =~= toks.subrange(0, i as int),
                    decreases n - i,
                {
                    let ghost prev = parts.deep_view();
                    let l = &v[i];
                    let mut one = "{\"authorized_id\":".to_owned();
                    push_json_opt_str(&mut one, &l.authorized_id);
                    one.append(",\"job_ids\":");
                    push_json_str_arr(&mut one, &l.job_ids);
                    push_char(&mut one, '}');
                    proof {
                        assert(one@ =~= json_of_job_delete_log(v@[i as int]));
                    }
                    parts.push(one);
                    proof {
                        assert(parts.deep_view() =~= prev.push(toks[i as int]));
                        assert(parts.deep_view() =~= toks.subrange(0, i + 1));
                    }
                    i = i + 1;
                }
                proof {
                    assert(parts.deep_view() =~= toks);
                }
                push_joined(&mut buf, &parts);
                buf.append("]}");
            },
        }
        proof {
            assert(buf@ =~= json_of_event(*self));
        }
        buf
    }
}

} // verus!
