//! Settings that exist under a base name and under a `SCALE_OLIVER_` alias,
//! and the overrides a staging deployment applies to its settings.
//!
//! The environment itself is read and written by the caller; the functions
//! here decide which value wins and which settings to write.

use vstd::prelude::*;
use crate::text::{trim, lower_seq, starts_with};

verus! {

/// The view of an optional string slice.
pub open spec fn opt_chars(o: Option<&str>) -> Option<Seq<char>> {
    match o {
        Some(s) => Some(s@),
        None => None,
    }
}

/// A setting as it is used: trimmed, and absent when blank.
pub open spec fn trimmed_value(v: Option<Seq<char>>) -> Option<Seq<char>> {
    match v {
        Some(s) => if trim(s).len() == 0 { None } else { Some(trim(s)) },
        None => None,
    }
}

/// The deployment target: trimmed and lower-cased, `production` when unset or blank.
pub open spec fn deploy_target(raw: Option<Seq<char>>) -> Seq<char> {
    match raw {
        Some(v) => {
            let l = lower_seq(trim(v));
            if l.len() == 0 { "production"@ } else { l }
        },
        None => "production"@,
    }
}

/// Production reads the base setting first and the alias second; any other
/// target reads the alias first.
pub open spec fn scale_oliver_value(target: Option<Seq<char>>, base: Option<Seq<char>>, prefixed: Option<Seq<char>>) -> Option<Seq<char>> {
    let b = trimmed_value(base);
    let p = trimmed_value(prefixed);
    if deploy_target(target) == "production"@ {
        if b is Some { b } else { p }
    } else {
        if p is Some { p } else { b }
    }
}

/// A flag reads as on when, lower-cased, it is `1`, `true`, `yes` or `on`.
pub open spec fn flag_text_on(v: Seq<char>) -> bool {
    let l = lower_seq(v);
    l == "1"@ || l == "true"@ || l == "yes"@ || l == "on"@
}

fn trimmed(v: Option<&str>) -> (r: Option<String>)
    ensures
        crate::text::opt_str(r) == trimmed_value(opt_chars(v)),
{
    match v {
        Some(s) => {
            let t = crate::text::trim_str(s);
            if t.as_str().is_empty() {
                None
            } else {
                Some(t)
            }
        },
        None => None,
    }
}

/// The value of a setting that may also be given as `SCALE_OLIVER_<key>`:
/// `deploy_target` is `DEPLOY_TARGET`, `base` the setting under its own name
/// and `prefixed` the one under the alias.
pub fn var_with_scale_oliver(deploy_target: Option<&str>, base: Option<&str>, prefixed: Option<&str>) -> (r: Option<String>)
    ensures
        crate::text::opt_str(r) == scale_oliver_value(opt_chars(deploy_target), opt_chars(base), opt_chars(prefixed)),
{
    let production = match deploy_target {
        Some(t) => {
            let l = crate::text::lower_str(crate::text::trim_str(t).as_str());
            l.as_str().is_empty() || crate::text::str_eq(l.as_str(), "production")
        },
        None => true,
    };
    proof {
        reveal_strlit("production");
    }
    let b = trimmed(base);
    let p = trimmed(prefixed);
    if production {
        if b.is_some() { b } else { p }
    } else {
        if p.is_some() { p } else { b }
    }
}

/// A flag that may also be given as `SCALE_OLIVER_<key>`; `default_value`
/// when neither is set.
pub fn bool_with_scale_oliver(deploy_target: Option<&str>, base: Option<&str>, prefixed: Option<&str>, default_value: bool) -> (r: bool)
    ensures
        r == (match scale_oliver_value(opt_chars(deploy_target), opt_chars(base), opt_chars(prefixed)) {
            Some(v) => flag_text_on(v),
            None => default_value,
        }),
{
    match var_with_scale_oliver(deploy_target, base, prefixed) {
        Some(v) => {
            let l = crate::text::lower_str(v.as_str());
            let l = l.as_str();
            crate::text::str_eq(l, "1") || crate::text::str_eq(l, "true") || crate::text::str_eq(l, "yes")
                || crate::text::str_eq(l, "on")
        },
        None => default_value,
    }
}

/// The settings a staging deployment copies to their alias.
pub open spec fn alias_sync_keys() -> Seq<Seq<char>> {
    seq![
        "INGESTION_QUEUE_BACKEND"@,
        "SERVICE_BUS_CONNECTION_STRING"@,
        "SERVICE_BUS_QUEUE_NAME"@,
        "SERVICE_BUS_TEST_QUEUE_NAME"@,
        "SERVICE_BUS_NAMESPACE"@,
        "SERVICE_BUS_POLICY_NAME"@,
        "SERVICE_BUS_POLICY_KEY"@,
        "RAW_PAYLOAD_STORAGE_BACKEND"@,
        "RAW_PAYLOAD_PATH_PREFIX"@,
        "AZURE_STORAGE_ACCOUNT"@,
        "AZURE_STORAGE_CONTAINER_INGEST"@,
        "AZURE_STORAGE_SAS_TOKEN"@,
        "AZURE_STORAGE_CONTAINER_SAS_URL"@,
        "AZURE_STORAGE_CONNECTION_STRING_INGEST"@,
    ]
}

fn alias_sync_key_list() -> (v: Vec<&'static str>)
    ensures
        v@.map_values(|s: &str| s@) == alias_sync_keys(),
{
    let v = vec![
        "INGESTION_QUEUE_BACKEND",
        "SERVICE_BUS_CONNECTION_STRING",
        "SERVICE_BUS_QUEUE_NAME",
        "SERVICE_BUS_TEST_QUEUE_NAME",
        "SERVICE_BUS_NAMESPACE",
        "SERVICE_BUS_POLICY_NAME",
        "SERVICE_BUS_POLICY_KEY",
        "RAW_PAYLOAD_STORAGE_BACKEND",
        "RAW_PAYLOAD_PATH_PREFIX",
        "AZURE_STORAGE_ACCOUNT",
        "AZURE_STORAGE_CONTAINER_INGEST",
        "AZURE_STORAGE_SAS_TOKEN",
        "AZURE_STORAGE_CONTAINER_SAS_URL",
        "AZURE_STORAGE_CONNECTION_STRING_INGEST",
    ];
    assert(v@.map_values(|s: &str| s@) =~= alias_sync_keys());
    v
}

/// Pairs of strings by their views.
pub open spec fn pairs_view(v: Seq<(String, String)>) -> Seq<(Seq<char>, Seq<char>)> {
    v.map_values(|p: (String, String)| (p.0@, p.1@))
}

/// `s` with every leading copy of `p` removed (`str::trim_start_matches`).
pub open spec fn strip_prefix_all(s: Seq<char>, p: Seq<char>) -> Seq<char>
    decreases s.len(),
{
    if p.len() > 0 && starts_with(s, p) {
        strip_prefix_all(s.subrange(p.len() as int, s.len() as int), p)
    } else {
        s
    }
}

/// The settings written for the `STAGING_` ones: each under its name without
/// the prefix, skipped where nothing is left.
pub open spec fn staging_sets(vars: Seq<(Seq<char>, Seq<char>)>) -> Seq<(Seq<char>, Seq<char>)>
    decreases vars.len(),
{
    if vars.len() == 0 {
        seq![]
    } else {
        let rest = staging_sets(vars.drop_last());
        let k = vars.last().0;
        let base = strip_prefix_all(k, "STAGING_"@);
        if starts_with(k, "STAGING_"@) && base.len() > 0 {
            rest.push((base, vars.last().1))
        } else {
            rest
        }
    }
}

/// The last value given to `key` in a list of assignments.
pub open spec fn last_value(pairs: Seq<(Seq<char>, Seq<char>)>, key: Seq<char>) -> Option<Seq<char>>
    decreases pairs.len(),
{
    if pairs.len() == 0 {
        None
    } else if pairs.last().0 == key {
        Some(pairs.last().1)
    } else {
        last_value(pairs.drop_last(), key)
    }
}

/// The value of `key` once `sets` have been written over `vars`.
pub open spec fn value_after(vars: Seq<(Seq<char>, Seq<char>)>, sets: Seq<(Seq<char>, Seq<char>)>, key: Seq<char>) -> Option<Seq<char>> {
    match last_value(sets, key) {
        Some(v) => Some(v),
        None => last_value(vars, key),
    }
}

/// The alias settings written for the first `n` keys to sync, reading each
/// key after `sets` were written.
pub open spec fn alias_sets(vars: Seq<(Seq<char>, Seq<char>)>, sets: Seq<(Seq<char>, Seq<char>)>, keys: Seq<Seq<char>>) -> Seq<(Seq<char>, Seq<char>)>
    decreases keys.len(),
{
    if keys.len() == 0 {
        seq![]
    } else {
        let rest = alias_sets(vars, sets, keys.drop_last());
        let k = keys.last();
        match trimmed_value(value_after(vars, sets, k)) {
            Some(v) => rest.push(("SCALE_OLIVER_"@ + k, v)),
            None => rest,
        }
    }
}

/// The deployment target as given, `production` when unset.
pub open spec fn raw_target(raw: Option<Seq<char>>) -> Seq<char> {
    match raw {
        Some(v) => v,
        None => "production"@,
    }
}

/// What applying the deployment target writes, in order: the normalised
/// target; then, for staging, each `STAGING_` setting under its base name,
/// and the alias of each synced setting that is set.
pub open spec fn override_plan(raw: Option<Seq<char>>, vars: Seq<(Seq<char>, Seq<char>)>) -> Seq<(Seq<char>, Seq<char>)> {
    let t = lower_seq(trim(raw_target(raw)));
    let first = seq![("DEPLOY_TARGET"@, t)];
    if t == "staging"@ {
        let pre = first + staging_sets(vars);
        pre + alias_sets(vars, pre, alias_sync_keys())
    } else {
        first
    }
}

/// The targets a deployment may name.
pub open spec fn valid_target(raw: Option<Seq<char>>) -> bool {
    let t = lower_seq(trim(raw_target(raw)));
    t == "production"@ || t == "staging"@
}

fn strip_prefix_all_exec(s: &str, p: &str) -> (r: String)
    requires
        p@.len() > 0,
    ensures
        r@ == strip_prefix_all(s@, p@),
{
    let sv = crate::text::to_chars(s);
    let pv = crate::text::to_chars(p);
    let mut start: usize = 0;
    let n = sv.len();
    assert(sv@.subrange(0, sv@.len() as int) =~= sv@);
    loop
        invariant
            n == sv@.len(),
            start <= sv@.len(),
            pv@ == p@,
            pv@.len() > 0,
            sv@ == s@,
            strip_prefix_all(sv@.subrange(start as int, sv@.len() as int), p@) == strip_prefix_all(s@, p@),
        ensures
            start <= sv@.len(),
            !starts_with(sv@.subrange(start as int, sv@.len() as int), p@),
            strip_prefix_all(sv@.subrange(start as int, sv@.len() as int), p@) == strip_prefix_all(s@, p@),
        decreases sv@.len() - start,
    {
        let ghost cur = sv@.subrange(start as int, sv@.len() as int);
        let found = crate::text::occurs_at_exec(sv.as_slice(), pv.as_slice(), start);
        if !found {
            assert(!starts_with(cur, p@)) by {
                if starts_with(cur, p@) {
                    assert(cur.subrange(0, p@.len() as int) =~= sv@.subrange(start as int, start + p@.len()));
                }
            }
            break;
        }
        assert(start + pv@.len() <= sv@.len());
        assert(starts_with(cur, p@)) by {
            assert(cur.subrange(0, p@.len() as int) =~= sv@.subrange(start as int, start + p@.len()));
        }
        assert(cur.subrange(pv@.len() as int, cur.len() as int) =~= sv@.subrange(start + pv@.len(), sv@.len() as int));
        start = start + pv.len();
    }
    let rest = crate::text::slice_range(sv.as_slice(), start, sv.len());
    crate::text::from_chars(rest.as_slice())
}

/// What applying the deployment target `raw_target` (`DEPLOY_TARGET`) writes
/// over the settings `vars`, in order; an error for a target other than
/// production or staging.
pub fn deploy_target_overrides(raw_target: Option<&str>, vars: &Vec<(String, String)>) -> (r: Result<Vec<(String, String)>, String>)
    ensures
        valid_target(opt_chars(raw_target)) ==> (r matches Ok(sets) && pairs_view(sets@) == override_plan(opt_chars(raw_target), pairs_view(vars@))),
        !valid_target(opt_chars(raw_target)) ==> (r matches Err(msg)
            && msg@ == "Invalid DEPLOY_TARGET='"@ + self::raw_target(opt_chars(raw_target)) + "'. Expected 'production' or 'staging'."@),
{
    let raw = match raw_target {
        Some(t) => crate::text::owned(t),
        None => crate::text::owned("production"),
    };
    let t = crate::text::lower_str(crate::text::trim_str(raw.as_str()).as_str());
    let staging = crate::text::str_eq(t.as_str(), "staging");
    if !staging && !crate::text::str_eq(t.as_str(), "production") {
        let msg = crate::text::concat3("Invalid DEPLOY_TARGET='", raw.as_str(), "'. Expected 'production' or 'staging'.");
        return Err(msg);
    }
    let ghost raw_v = opt_chars(raw_target);
    assert(raw@ == self::raw_target(raw_v));
    let ghost vv = pairs_view(vars@);
    let mut sets: Vec<(String, String)> = Vec::new();
    sets.push((crate::text::owned("DEPLOY_TARGET"), t));
    if !staging {
        assert(pairs_view(sets@) =~= override_plan(raw_v, vv));
        return Ok(sets);
    }
    let ghost first = pairs_view(sets@);
    let mut i: usize = 0;
    while i < vars.len()
        invariant
            i <= vars@.len(),
            vv == pairs_view(vars@),
            pairs_view(sets@) == first + staging_sets(vv.take(i as int)),
        decreases vars@.len() - i,
    {
        assert(vv.take(i + 1).drop_last() =~= vv.take(i as int));
        let k = vars[i].0.as_str();
        let ghost before = sets@;
        let kv = crate::text::to_chars(k);
        let sp = crate::text::to_chars("STAGING_");
        proof {
            reveal_strlit("STAGING_");
            assert(vv.take(i + 1).last() == vv[i as int]);
            assert(vv[i as int] == (vars@[i as int].0@, vars@[i as int].1@));
        }
        if crate::text::starts_with_chars(kv.as_slice(), sp.as_slice()) {
            let base = strip_prefix_all_exec(k, "STAGING_");
            if !base.as_str().is_empty() {
                let value = vars[i].1.clone();
                sets.push((base, value));
                proof {
                    assert(sets@ == before.push((base, value)));
                    assert(pairs_view(sets@) =~= pairs_view(before).push((base@, value@)));
                }
            }
        }
        assert(pairs_view(sets@) =~= first + staging_sets(vv.take(i + 1)));
        i = i + 1;
    }
    assert(vv.take(vars@.len() as int) =~= vv);
    let pre_len = sets.len();
    let ghost pre = pairs_view(sets@);
    let keys = alias_sync_key_list();
    let ghost ks = keys@.map_values(|s: &str| s@);
    let mut j: usize = 0;
    while j < keys.len()
        invariant
            j <= keys@.len(),
            ks == keys@.map_values(|s: &str| s@),
            pre_len <= sets@.len(),
            pre == pairs_view(sets@.take(pre_len as int)),
            pairs_view(sets@) == pre + alias_sets(vv, pre, ks.take(j as int)),
            vv == pairs_view(vars@),
        decreases keys@.len() - j,
    {
        assert(ks.take(j + 1).drop_last() =~= ks.take(j as int));
        let k = keys[j];
        let ghost before = sets@;
        proof {
            assert(ks.take(j + 1).last() == k@);
            assert(sets@.take(pre_len as int) =~= sets@.take(pre_len as int));
        }
        let in_sets = last_value_exec_prefix(&sets, pre_len, k);
        let current = match in_sets {
            Some(v) => Some(v),
            None => last_value_exec_prefix(vars, vars.len(), k),
        };
        proof {
            assert(vars@.take(vars@.len() as int) =~= vars@);
            assert(crate::text::opt_str(current) == value_after(vv, pre, k@));
        }
        let trimmed_current = match &current {
            Some(v) => trimmed(Some(v.as_str())),
            None => None,
        };
        if let Some(v) = trimmed_current {
            let name = crate::text::concat2("SCALE_OLIVER_", k);
            sets.push((name, v));
            proof {
                assert(sets@ == before.push((name, v)));
                assert(pairs_view(sets@) =~= pairs_view(before).push((name@, v@)));
                assert(sets@.take(pre_len as int) =~= before.take(pre_len as int));
            }
        }
        assert(pairs_view(sets@) =~= pre + alias_sets(vv, pre, ks.take(j + 1)));
        assert(pairs_view(sets@.take(pre_len as int)) =~= pre);
        j = j + 1;
    }
    assert(ks.take(keys@.len() as int) =~= ks);
    assert(first == seq![("DEPLOY_TARGET"@, lower_seq(trim(self::raw_target(raw_v))))]);
    Ok(sets)
}

fn last_value_exec_prefix(pairs: &Vec<(String, String)>, n: usize, key: &str) -> (r: Option<String>)
    requires
        n <= pairs@.len(),
    ensures
        crate::text::opt_str(r) == last_value(pairs_view(pairs@.take(n as int)), key@),
{
    let mut i: usize = n;
    while i > 0
        invariant
            i <= n <= pairs@.len(),
            last_value(pairs_view(pairs@.take(n as int)), key@) == last_value(pairs_view(pairs@.take(i as int)), key@),
        decreases i,
    {
        let ghost pv = pairs_view(pairs@.take(i as int));
        assert(pairs_view(pairs@.take(i - 1)) =~= pv.drop_last());
        if crate::text::str_eq(pairs[i - 1].0.as_str(), key) {
            return Some(pairs[i - 1].1.clone());
        }
        i = i - 1;
    }
    assert(pairs_view(pairs@.take(0)) =~= Seq::<(Seq<char>, Seq<char>)>::empty());
    None
}

} // verus!
