//! Settings of the ingestion queue and of its workers.

use vstd::prelude::*;
use crate::text::{is_alnum, trim, opt_str, lower_seq, upper_seq};
use crate::number::{decimal, int_text};

verus! {

/// Outcome of an enqueue: whether a new row was written.
#[derive(Debug, Clone)]
pub struct EnqueueResult {
    pub inserted: bool,
}

/// A table name is one or two `.`-separated parts, each made of ASCII
/// letters, digits and `_`.
pub open spec fn table_part_ok(p: Seq<char>) -> bool {
    p.len() > 0 && forall|i: int| 0 <= i < p.len() ==> is_alnum(#[trigger] p[i]) || p[i] == '_'
}

pub open spec fn table_name_ok(s: Seq<char>) -> bool {
    let parts = crate::text::split_parts(s, '.');
    parts.len() <= 2 && forall|i: int| 0 <= i < parts.len() ==> table_part_ok(#[trigger] parts[i])
}

/// Failure to configure the queue.
#[derive(Debug, Clone)]
pub enum IngestionQueueConfigError {
    MissingDbUrl,
    InvalidTableName(String),
}

fn part_ok(v: &[char], a: usize, b: usize) -> (r: bool)
    requires
        a <= b <= v@.len(),
    ensures
        r == table_part_ok(v@.subrange(a as int, b as int)),
{
    if a == b {
        return false;
    }
    let mut k: usize = a;
    while k < b
        invariant
            a <= k <= b,
            b <= v@.len(),
            forall|i: int| a <= i < k ==> is_alnum(#[trigger] v@[i]) || v@[i] == '_',
        decreases b - k,
    {
        if !(crate::text::is_alnum_char(v[k]) || v[k] == '_') {
            proof {
                assert(v@.subrange(a as int, b as int)[k - a] == v@[k as int]);
            }
            return false;
        }
        k = k + 1;
    }
    proof {
        let p = v@.subrange(a as int, b as int);
        assert forall|i: int| 0 <= i < p.len() implies is_alnum(#[trigger] p[i]) || p[i] == '_' by {
            assert(p[i] == v@[a + i]);
        }
    }
    true
}

/// The table name, checked.
pub fn sanitize_table_name(raw: &str) -> (r: Result<String, IngestionQueueConfigError>)
    ensures
        table_name_ok(raw@) ==> (r matches Ok(s) && s@ == raw@),
        !table_name_ok(raw@) ==> (r matches Err(IngestionQueueConfigError::InvalidTableName(s)) && s@ == raw@),
{
    let v = crate::text::to_chars(raw);
    let parts = crate::text::split_on(raw, '.');
    let ghost ps = crate::text::strs(parts@);
    if parts.len() > 2 {
        return Err(IngestionQueueConfigError::InvalidTableName(crate::text::owned(raw)));
    }
    let mut i: usize = 0;
    while i < parts.len()
        invariant
            i <= parts@.len(),
            ps == crate::text::strs(parts@),
            ps == crate::text::split_parts(raw@, '.'),
            forall|j: int| 0 <= j < i ==> table_part_ok(#[trigger] ps[j]),
        decreases parts@.len() - i,
    {
        let pv = crate::text::to_chars(parts[i].as_str());
        let ok = part_ok(pv.as_slice(), 0, pv.len());
        proof {
            assert(pv@.subrange(0, pv@.len() as int) =~= pv@);
        }
        if !ok {
            proof {
                assert(ps[i as int] == pv@);
                assert(!table_part_ok(ps[i as int]));
            }
            return Err(IngestionQueueConfigError::InvalidTableName(crate::text::owned(raw)));
        }
        i = i + 1;
    }
    Ok(crate::text::owned(raw))
}

/// The queue table: the configured name when set (trimmed), else
/// `ingestion_queue`, checked.
pub fn resolve_table_name(configured: Option<String>) -> (r: Result<String, IngestionQueueConfigError>)
    ensures
        ({
            let raw = match configured {
                Some(c) => if trim(c@).len() > 0 {
                    trim(c@)
                } else {
                    "ingestion_queue"@
                },
                None => "ingestion_queue"@,
            };
            &&& table_name_ok(raw) ==> (r matches Ok(s) && s@ == raw)
            &&& !table_name_ok(raw) ==> (r matches Err(IngestionQueueConfigError::InvalidTableName(s)) && s@ == raw)
        }),
{
    let raw = match &configured {
        Some(c) => if crate::text::is_blank(c.as_str()) {
            crate::text::owned("ingestion_queue")
        } else {
            crate::text::trim_string(c)
        },
        None => crate::text::owned("ingestion_queue"),
    };
    sanitize_table_name(raw.as_str())
}

/// A setting that is present and not blank.
pub open spec fn usable(c: Option<String>) -> bool {
    c matches Some(v) && trim(v@).len() > 0
}

/// The database URL: the first of the candidates (in order of preference)
/// that is not blank.
pub fn resolve_db_url(candidates: Vec<Option<String>>) -> (r: Result<String, IngestionQueueConfigError>)
    ensures
        (exists|i: int| 0 <= i < candidates@.len() && usable(#[trigger] candidates@[i])) ==> (r matches Ok(u)
            && exists|i: int|
            0 <= i < candidates@.len() && candidates@[i] == Some(u) && usable(candidates@[i]) && forall|j: int|
                0 <= j < i ==> !usable(#[trigger] candidates@[j])),
        !(exists|i: int| 0 <= i < candidates@.len() && usable(#[trigger] candidates@[i])) ==> (r matches Err(
            IngestionQueueConfigError::MissingDbUrl,
        )),
{
    let mut i: usize = 0;
    while i < candidates.len()
        invariant
            i <= candidates@.len(),
            forall|j: int| 0 <= j < i ==> !usable(#[trigger] candidates@[j]),
        decreases candidates@.len() - i,
    {
        if let Some(c) = &candidates[i] {
            if !crate::text::is_blank(c.as_str()) {
                proof {
                    assert(usable(candidates@[i as int]));
                }
                return Ok(c.clone());
            }
        }
        i = i + 1;
    }
    Err(IngestionQueueConfigError::MissingDbUrl)
}

/// A flag setting is on when, trimmed and lower-cased, it reads `1`, `true`,
/// `yes` or `on`.
pub open spec fn truthy(v: Seq<char>) -> bool {
    let l = lower_seq(trim(v));
    l == "1"@ || l == "true"@ || l == "yes"@ || l == "on"@
}

/// Whether a flag setting is on (absent means off).
pub fn resolve_bool_setting(v: Option<String>) -> (r: bool)
    ensures
        r == (match v {
            Some(s) => truthy(s@),
            None => false,
        }),
{
    match &v {
        Some(s) => {
            let t = crate::text::trim_string(s);
            let l = crate::text::lower_str(t.as_str());
            let l = l.as_str();
            crate::text::str_eq(l, "1") || crate::text::str_eq(l, "true") || crate::text::str_eq(l, "yes")
                || crate::text::str_eq(l, "on")
        },
        None => false,
    }
}

/// A numeric setting that parses as a positive `i64`, else the default.
pub open spec fn positive_i64_of(v: Option<String>, default_value: i64) -> i64 {
    match v {
        Some(s) => match int_text(s@) {
            Some(n) => if 0 < n <= i64::MAX { n as i64 } else { default_value },
            None => default_value,
        },
        None => default_value,
    }
}

/// A numeric setting that parses as a positive `i32`, else the default.
pub open spec fn positive_i32_of(v: Option<String>, default_value: i32) -> i32 {
    match v {
        Some(s) => match int_text(s@) {
            Some(n) => if 0 < n <= i32::MAX { n as i32 } else { default_value },
            None => default_value,
        },
        None => default_value,
    }
}

/// `v.parse::<i64>()`, kept when positive, else `default_value`.
pub fn resolve_positive_i64(v: Option<String>, default_value: i64) -> (r: i64)
    ensures
        r == positive_i64_of(v, default_value),
{
    match &v {
        Some(s) => match crate::number::parse_i64(s.as_str()) {
            Some(n) => if n > 0 { n } else { default_value },
            None => default_value,
        },
        None => default_value,
    }
}

/// `v.parse::<i32>()`, kept when positive, else `default_value`.
pub fn resolve_positive_i32(v: Option<String>, default_value: i32) -> (r: i32)
    ensures
        r == positive_i32_of(v, default_value),
{
    match &v {
        Some(s) => match crate::number::parse_i64(s.as_str()) {
            Some(n) => if 0 < n && n <= 2147483647 { n as i32 } else { default_value },
            None => default_value,
        },
        None => default_value,
    }
}

/// The setting that names one employee's worker instance:
/// `WORKER_INSTANCE_ID_` and the employee id, trimmed and upper-cased.
pub fn worker_instance_key(employee_id: &str) -> (r: String)
    ensures
        r@ == "WORKER_INSTANCE_ID_"@ + upper_seq(trim(employee_id@)),
{
    let t = crate::text::trim_str(employee_id);
    let u = crate::text::upper_str(t.as_str());
    crate::text::concat2("WORKER_INSTANCE_ID_", u.as_str())
}

/// Which worker instance this process is: the global setting, else the
/// employee's own, each trimmed and taken only when not blank; else the host
/// name as it stands when not blank; else `pid-` and the process id.
pub open spec fn worker_instance_of(
    global: Option<String>,
    for_employee: Option<String>,
    hostname: Option<String>,
    pid: u32,
) -> Seq<char> {
    if usable(global) {
        trim(global->0@)
    } else if usable(for_employee) {
        trim(for_employee->0@)
    } else if usable(hostname) {
        hostname->0@
    } else {
        "pid-"@ + decimal(pid as nat)
    }
}

pub fn resolve_worker_instance_id(
    global: Option<String>,
    for_employee: Option<String>,
    hostname: Option<String>,
    pid: u32,
) -> (r: String)
    ensures
        r@ == worker_instance_of(global, for_employee, hostname, pid),
{
    if let Some(g) = &global {
        if !crate::text::is_blank(g.as_str()) {
            return crate::text::trim_string(g);
        }
    }
    if let Some(e) = &for_employee {
        if !crate::text::is_blank(e.as_str()) {
            return crate::text::trim_string(e);
        }
    }
    if let Some(h) = &hostname {
        if !crate::text::is_blank(h.as_str()) {
            return h.clone();
        }
    }
    let digits = crate::number::usize_to_string(pid as usize);
    crate::text::concat2("pid-", digits.as_str())
}

/// What becomes of an envelope whose processing failed.
#[derive(Debug, Clone, Copy, PartialEq, Eq, Structural)]
pub enum FailureOutcome {
    /// Out of attempts: the envelope is marked failed for good.
    Failed,
    /// Back to pending, available again after this many seconds.
    RetryAfter(i64),
}

/// A failed envelope is retried while it has attempts left, after five
/// seconds per attempt made (at least one); at the attempt limit it fails.
pub fn failure_outcome(attempts: i32, max_attempts: i32) -> (r: FailureOutcome)
    ensures
        attempts >= max_attempts ==> r == FailureOutcome::Failed,
        attempts < max_attempts ==> r == FailureOutcome::RetryAfter((5 * (if attempts < 1 { 1 } else { attempts as int })) as i64),
{
    if attempts >= max_attempts {
        FailureOutcome::Failed
    } else {
        let made: i64 = if attempts < 1 { 1 } else { attempts as i64 };
        FailureOutcome::RetryAfter(made * 5)
    }
}

} // verus!
