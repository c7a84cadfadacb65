//! Naming of the document store: the database name derived from the
//! deployment settings, and the indexes each collection carries.

use vstd::prelude::*;
use crate::text::{is_alnum, lower, strip, trim, lower_seq, opt_str};

verus! {

/// Alphanumerics lower-cased; every run of other characters becomes one `_`.
pub open spec fn fragment_runs(s: Seq<char>) -> Seq<char>
    decreases s.len(),
{
    if s.len() == 0 {
        Seq::empty()
    } else {
        let r = fragment_runs(s.drop_last());
        let c = s.last();
        if is_alnum(c) {
            r.push(lower(c))
        } else if r.len() > 0 && r.last() == '_' {
            r
        } else {
            r.push('_')
        }
    }
}

/// A name fragment: separator runs collapsed to `_`, no `_` at either end.
pub open spec fn sanitized(s: Seq<char>) -> Seq<char> {
    strip(fragment_runs(s), '_')
}

/// Lower-cases ASCII letters and digits and turns each run of other
/// characters into a single `_`, without `_` at either end.
pub fn sanitize_fragment(raw: &str) -> (r: String)
    ensures
        r@ == sanitized(raw@),
{
    let v = crate::text::to_chars(raw);
    let mut out: Vec<char> = Vec::new();
    let mut last_was_underscore = false;
    let mut i: usize = 0;
    proof {
        assert(v@.take(0) =~= Seq::<char>::empty());
    }
    while i < v.len()
        invariant
            i <= v@.len(),
            out@ == fragment_runs(v@.take(i as int)),
            last_was_underscore == (out@.len() > 0 && out@.last() == '_'),
        decreases v@.len() - i,
    {
        let ch = v[i];
        proof {
            let t = v@.take(i + 1);
            assert(t.drop_last() =~= v@.take(i as int));
            assert(t.last() == ch);
        }
        if crate::text::is_alnum_char(ch) {
            let l = crate::text::lower_char(ch);
            out.push(l);
            last_was_underscore = false;
        } else if !last_was_underscore {
            out.push('_');
            last_was_underscore = true;
        }
        i = i + 1;
    }
    proof {
        assert(v@.take(v@.len() as int) =~= v@);
    }
    let stripped = crate::text::strip_chars(out.as_slice(), '_');
    crate::text::from_chars(stripped.as_slice())
}

/// The database name: the explicit name when set, else
/// `dowhiz_{target}_{employee}` from the deploy target (default
/// `production`) and the employee id (default `default`).
pub open spec fn database_name(explicit: Option<Seq<char>>, target: Option<Seq<char>>, employee: Option<Seq<char>>) -> Seq<char> {
    if explicit is Some && trim(explicit.unwrap()).len() > 0 {
        trim(explicit.unwrap())
    } else {
        let t = if target is Some && trim(target.unwrap()).len() > 0 {
            lower_seq(trim(target.unwrap()))
        } else {
            "production"@
        };
        let e = if employee is Some && sanitized(employee.unwrap()).len() > 0 {
            sanitized(employee.unwrap())
        } else {
            "default"@
        };
        "dowhiz_"@ + sanitized(t) + "_"@ + e
    }
}

/// Name of the database from the raw settings (each absent when unset).
pub fn mongo_database_name(
    explicit: Option<String>,
    deploy_target: Option<String>,
    employee_id: Option<String>,
) -> (r: String)
    ensures
        r@ == database_name(opt_str(explicit), opt_str(deploy_target), opt_str(employee_id)),
{
    if let Some(name) = &explicit {
        if !crate::text::is_blank(name.as_str()) {
            return crate::text::trim_string(name);
        }
    }
    let target = match &deploy_target {
        Some(t) => if crate::text::is_blank(t.as_str()) {
            crate::text::owned("production")
        } else {
            let tt = crate::text::trim_string(t);
            crate::text::lower_str(tt.as_str())
        },
        None => crate::text::owned("production"),
    };
    let employee = match &employee_id {
        Some(e) => {
            let s = sanitize_fragment(e.as_str());
            if s.as_str().is_empty() {
                crate::text::owned("default")
            } else {
                s
            }
        },
        None => crate::text::owned("default"),
    };
    let t = sanitize_fragment(target.as_str());
    let mut r = crate::text::owned("dowhiz_");
    r.append(t.as_str());
    r.append("_");
    r.append(employee.as_str());
    r
}

proof fn lemma_fragment_runs_chars(s: Seq<char>)
    ensures
        forall|i: int| 0 <= i < fragment_runs(s).len() ==> {
            let c = #[trigger] fragment_runs(s)[i];
            c == '_' || ('0' <= c && c <= '9') || ('a' <= c && c <= 'z')
        },
    decreases s.len(),
{
    if s.len() > 0 {
        lemma_fragment_runs_chars(s.drop_last());
        let c = s.last();
        let r = fragment_runs(s.drop_last());
        if 'A' <= c && c <= 'Z' {
            assert('a' <= lower(c) && lower(c) <= 'z');
        }
        assert forall|i: int| 0 <= i < fragment_runs(s).len() implies {
            let d = #[trigger] fragment_runs(s)[i];
            d == '_' || ('0' <= d && d <= '9') || ('a' <= d && d <= 'z')
        } by {
            if i < r.len() {
                assert(fragment_runs(s)[i] == r[i]);
            }
        }
    }
}

proof fn lemma_strip_start_sub(s: Seq<char>, c: char)
    ensures
        exists|k: int| 0 <= k <= s.len() && strip_start_eq(s, c, k),
    decreases s.len(),
{
    if s.len() > 0 && s[0] == c {
        lemma_strip_start_sub(s.drop_first(), c);
        let k = choose|k: int| 0 <= k <= s.drop_first().len() && strip_start_eq(s.drop_first(), c, k);
        assert(s.drop_first().skip(k) =~= s.skip(k + 1));
        assert(strip_start_eq(s, c, k + 1));
    } else {
        assert(s.skip(0) =~= s);
        assert(strip_start_eq(s, c, 0));
    }
}

spec fn strip_start_eq(s: Seq<char>, c: char, k: int) -> bool {
    crate::text::strip_start(s, c) == s.skip(k)
}

proof fn lemma_strip_end_sub(s: Seq<char>, c: char)
    ensures
        exists|k: int| 0 <= k <= s.len() && crate::text::strip_end(s, c) == s.take(k),
    decreases s.len(),
{
    if s.len() > 0 && s.last() == c {
        lemma_strip_end_sub(s.drop_last(), c);
        let k = choose|k: int| 0 <= k <= s.drop_last().len() && crate::text::strip_end(s.drop_last(), c) == s.drop_last().take(k);
        assert(s.drop_last().take(k) =~= s.take(k));
    } else {
        assert(s.take(s.len() as int) =~= s);
    }
}

/// Every character of a sanitized fragment is a lowercase letter, a digit or `_`.
pub proof fn lemma_sanitized_charset(s: Seq<char>)
    ensures
        forall|i: int| 0 <= i < sanitized(s).len() ==> {
            let c = #[trigger] sanitized(s)[i];
            c == '_' || ('0' <= c && c <= '9') || ('a' <= c && c <= 'z')
        },
{
    let f = fragment_runs(s);
    lemma_fragment_runs_chars(s);
    lemma_strip_start_sub(f, '_');
    let k = choose|k: int| 0 <= k <= f.len() && strip_start_eq(f, '_', k);
    let a = f.skip(k);
    lemma_strip_end_sub(a, '_');
    let m = choose|m: int| 0 <= m <= a.len() && crate::text::strip_end(a, '_') == a.take(m);
    assert forall|i: int| 0 <= i < sanitized(s).len() implies {
        let c = #[trigger] sanitized(s)[i];
        c == '_' || ('0' <= c && c <= '9') || ('a' <= c && c <= 'z')
    } by {
        assert(sanitized(s)[i] == f[i + k]);
    }
}

/// No two neighbouring characters are both `_`.
pub open spec fn no_double_underscore(s: Seq<char>) -> bool {
    forall|i: int, j: int| 0 <= i && j == i + 1 && j < s.len() ==> !(#[trigger] s[i] == '_' && #[trigger] s[j] == '_')
}

/// Lowercase letters, digits and `_` only.
pub open spec fn fragment_chars(s: Seq<char>) -> bool {
    forall|i: int| 0 <= i < s.len() ==> {
        let c = #[trigger] s[i];
        c == '_' || ('0' <= c && c <= '9') || ('a' <= c && c <= 'z')
    }
}

proof fn lemma_fragment_runs_no_double(s: Seq<char>)
    ensures
        no_double_underscore(fragment_runs(s)),
    decreases s.len(),
{
    if s.len() > 0 {
        lemma_fragment_runs_no_double(s.drop_last());
        let r = fragment_runs(s.drop_last());
        let f = fragment_runs(s);
        let c = s.last();
        if 'A' <= c && c <= 'Z' {
            assert('a' <= lower(c) && lower(c) <= 'z');
        }
        assert forall|i: int, j: int| 0 <= i && j == i + 1 && j < f.len() implies !(#[trigger] f[i] == '_' && #[trigger] f[j] == '_') by {
            if j < r.len() {
                assert(f[i] == r[i] && f[j] == r[j]);
            } else {
                assert(f[i] == r[i]);
            }
        }
    }
}

proof fn lemma_strip_start_first(s: Seq<char>, c: char)
    ensures
        crate::text::strip_start(s, c).len() > 0 ==> crate::text::strip_start(s, c)[0] != c,
    decreases s.len(),
{
    if s.len() > 0 && s[0] == c {
        lemma_strip_start_first(s.drop_first(), c);
    }
}

proof fn lemma_strip_end_last(s: Seq<char>, c: char)
    ensures
        crate::text::strip_end(s, c).len() > 0 ==> crate::text::strip_end(s, c).last() != c,
    decreases s.len(),
{
    if s.len() > 0 && s.last() == c {
        lemma_strip_end_last(s.drop_last(), c);
    }
}

proof fn lemma_fragment_runs_fixed(x: Seq<char>)
    requires
        fragment_chars(x),
        no_double_underscore(x),
        x.len() > 0 ==> x[0] != '_',
    ensures
        fragment_runs(x) == x,
    decreases x.len(),
{
    if x.len() > 0 {
        let p = x.drop_last();
        assert(fragment_chars(p)) by {
            assert forall|i: int| 0 <= i < p.len() implies {
                let c = #[trigger] p[i];
                c == '_' || ('0' <= c && c <= '9') || ('a' <= c && c <= 'z')
            } by {
                assert(p[i] == x[i]);
            }
        }
        assert(no_double_underscore(p)) by {
            assert forall|i: int, j: int| 0 <= i && j == i + 1 && j < p.len() implies !(#[trigger] p[i] == '_' && #[trigger] p[j] == '_') by {
                assert(p[i] == x[i] && p[j] == x[j]);
            }
        }
        if p.len() > 0 {
            assert(p[0] == x[0]);
        }
        lemma_fragment_runs_fixed(p);
        let c = x.last();
        assert(c == x[x.len() - 1]);
        if c == '_' {
            assert(x.len() > 1);
            assert(x[x.len() - 2] != '_');
            assert(p.last() == x[x.len() - 2]);
        }
        assert(p.push(c) =~= x);
    }
}

/// Sanitizing a fragment that was already sanitized changes nothing.
pub proof fn lemma_sanitized_fixed(s: Seq<char>)
    ensures
        sanitized(sanitized(s)) == sanitized(s),
{
    let f = fragment_runs(s);
    lemma_fragment_runs_chars(s);
    lemma_fragment_runs_no_double(s);
    lemma_strip_start_sub(f, '_');
    let k = choose|k: int| 0 <= k <= f.len() && strip_start_eq(f, '_', k);
    let a = f.skip(k);
    lemma_strip_end_sub(a, '_');
    let m = choose|m: int| 0 <= m <= a.len() && crate::text::strip_end(a, '_') == a.take(m);
    let x = sanitized(s);
    assert(x == a.take(m));
    lemma_strip_start_first(f, '_');
    lemma_strip_end_last(a, '_');
    assert(fragment_chars(x)) by {
        lemma_sanitized_charset(s);
    }
    assert(no_double_underscore(x)) by {
        assert forall|i: int, j: int| 0 <= i && j == i + 1 && j < x.len() implies !(#[trigger] x[i] == '_' && #[trigger] x[j] == '_') by {
            assert(x[i] == f[i + k] && x[j] == f[j + k]);
        }
    }
    if x.len() > 0 {
        assert(x[0] == a[0]);
    }
    lemma_fragment_runs_fixed(x);
    assert(crate::text::strip_start(x, '_') == x);
    if x.len() > 0 {
        assert(x.last() != '_');
    }
    assert(crate::text::strip_end(x, '_') == x);
}

/// One index of a collection: its key fields with their directions, and
/// whether it is unique.
#[derive(Debug, Clone)]
pub struct IndexSpec {
    pub collection: String,
    pub keys: Vec<(String, i32)>,
    pub unique: bool,
}

pub open spec fn index_view(i: IndexSpec) -> (Seq<char>, Seq<(Seq<char>, i32)>, bool) {
    (i.collection@, i.keys@.map_values(|k: (String, i32)| (k.0@, k.1)), i.unique)
}

/// The indexes the store keeps, collection by collection.
pub open spec fn index_plan() -> Seq<(Seq<char>, Seq<(Seq<char>, i32)>, bool)> {
    seq![
        ("users"@, seq![("user_id"@, 1i32)], true),
        ("users"@, seq![("identifier_type"@, 1i32), ("identifier"@, 1i32)], false),
        ("users"@, seq![("created_at"@, 1i32)], false),
        ("tasks"@, seq![("owner_scope.kind"@, 1i32), ("owner_scope.id"@, 1i32), ("task_id"@, 1i32)], false),
        ("tasks"@, seq![("owner_scope.kind"@, 1i32), ("owner_scope.id"@, 1i32), ("enabled"@, 1i32)], false),
        ("tasks"@, seq![("enabled"@, 1i32), ("schedule.next_run"@, 1i32)], false),
        ("tasks"@, seq![("owner_scope.kind"@, 1i32), ("owner_scope.id"@, 1i32), ("created_at"@, 1i32)], false),
        ("task_executions"@, seq![("owner_scope.kind"@, 1i32), ("owner_scope.id"@, 1i32), ("task_id"@, 1i32), ("started_at"@, -1i32)], false),
        ("task_executions"@, seq![("started_at"@, -1i32)], false),
        ("task_index"@, seq![("task_id"@, 1i32), ("user_id"@, 1i32)], true),
        ("task_index"@, seq![("enabled"@, 1i32), ("next_run"@, 1i32)], false),
        ("account_task_views"@, seq![("account_id"@, 1i32), ("task_id"@, 1i32)], true),
        ("account_task_views"@, seq![("account_id"@, 1i32), ("created_at"@, -1i32)], false),
        ("slack_installations"@, seq![("team_id"@, 1i32)], true),
        ("slack_installations"@, seq![("installed_at"@, -1i32)], false),
        ("processed_comments"@, seq![("file_id"@, 1i32), ("tracking_id"@, 1i32)], true),
        ("processed_comments"@, seq![("file_type"@, 1i32), ("processed_at"@, -1i32)], false),
    ]
}

fn index(collection: &str, keys: Vec<(String, i32)>, unique: bool) -> (r: IndexSpec)
    ensures
        r.collection@ == collection@,
        r.keys@ == keys@,
        r.unique == unique,
{
    IndexSpec { collection: crate::text::owned(collection), keys, unique }
}

fn key(name: &str, direction: i32) -> (r: (String, i32))
    ensures
        r.0@ == name@,
        r.1 == direction,
{
    (crate::text::owned(name), direction)
}

/// The indexes to create, in order; none when the store is not in use.
pub fn bootstrap_indexes_from_env(uses_mongo: bool) -> (r: Vec<IndexSpec>)
    ensures
        !uses_mongo ==> r@.len() == 0,
        uses_mongo ==> r@.map_values(|i: IndexSpec| index_view(i)) == index_plan(),
{
    if !uses_mongo {
        return Vec::new();
    }
    let r = vec![
        index("users", vec![key("user_id", 1)], true),
        index("users", vec![key("identifier_type", 1), key("identifier", 1)], false),
        index("users", vec![key("created_at", 1)], false),
        index("tasks", vec![key("owner_scope.kind", 1), key("owner_scope.id", 1), key("task_id", 1)], false),
        index("tasks", vec![key("owner_scope.kind", 1), key("owner_scope.id", 1), key("enabled", 1)], false),
        index("tasks", vec![key("enabled", 1), key("schedule.next_run", 1)], false),
        index("tasks", vec![key("owner_scope.kind", 1), key("owner_scope.id", 1), key("created_at", 1)], false),
        index(
            "task_executions",
            vec![key("owner_scope.kind", 1), key("owner_scope.id", 1), key("task_id", 1), key("started_at", -1)],
            false,
        ),
        index("task_executions", vec![key("started_at", -1)], false),
        index("task_index", vec![key("task_id", 1), key("user_id", 1)], true),
        index("task_index", vec![key("enabled", 1), key("next_run", 1)], false),
        index("account_task_views", vec![key("account_id", 1), key("task_id", 1)], true),
        index("account_task_views", vec![key("account_id", 1), key("created_at", -1)], false),
        index("slack_installations", vec![key("team_id", 1)], true),
        index("slack_installations", vec![key("installed_at", -1)], false),
        index("processed_comments", vec![key("file_id", 1), key("tracking_id", 1)], true),
        index("processed_comments", vec![key("file_type", 1), key("processed_at", -1)], false),
    ];
    proof {
        assert(r@[0].keys@.map_values(|x: (String, i32)| (x.0@, x.1)) =~= index_plan()[0].1);
        assert(r@[1].keys@.map_values(|x: (String, i32)| (x.0@, x.1)) =~= index_plan()[1].1);
        assert(r@[2].keys@.map_values(|x: (String, i32)| (x.0@, x.1)) =~= index_plan()[2].1);
        assert(r@[3].keys@.map_values(|x: (String, i32)| (x.0@, x.1)) =~= index_plan()[3].1);
        assert(r@[4].keys@.map_values(|x: (String, i32)| (x.0@, x.1)) =~= index_plan()[4].1);
        assert(r@[5].keys@.map_values(|x: (String, i32)| (x.0@, x.1)) =~= index_plan()[5].1);
        assert(r@[6].keys@.map_values(|x: (String, i32)| (x.0@, x.1)) =~= index_plan()[6].1);
        assert(r@[7].keys@.map_values(|x: (String, i32)| (x.0@, x.1)) =~= index_plan()[7].1);
        assert(r@[8].keys@.map_values(|x: (String, i32)| (x.0@, x.1)) =~= index_plan()[8].1);
        assert(r@[9].keys@.map_values(|x: (String, i32)| (x.0@, x.1)) =~= index_plan()[9].1);
        assert(r@[10].keys@.map_values(|x: (String, i32)| (x.0@, x.1)) =~= index_plan()[10].1);
        assert(r@[11].keys@.map_values(|x: (String, i32)| (x.0@, x.1)) =~= index_plan()[11].1);
        assert(r@[12].keys@.map_values(|x: (String, i32)| (x.0@, x.1)) =~= index_plan()[12].1);
        assert(r@[13].keys@.map_values(|x: (String, i32)| (x.0@, x.1)) =~= index_plan()[13].1);
        assert(r@[14].keys@.map_values(|x: (String, i32)| (x.0@, x.1)) =~= index_plan()[14].1);
        assert(r@[15].keys@.map_values(|x: (String, i32)| (x.0@, x.1)) =~= index_plan()[15].1);
        assert(r@[16].keys@.map_values(|x: (String, i32)| (x.0@, x.1)) =~= index_plan()[16].1);
        assert(r@.map_values(|i: IndexSpec| index_view(i)) =~= index_plan());
    }
    r
}

/// Failure of the document store.
#[derive(Debug, Clone, PartialEq, Eq)]
pub enum MongoStoreError {
    /// The store is in use but no connection string is set.
    MissingMongoUri,
    /// A failure reported by the store, with its message.
    Mongo(String),
}

impl MongoStoreError {
    /// The text of the error.
    pub fn message(&self) -> (r: String)
        ensures
            r@ == match self {
                MongoStoreError::MissingMongoUri => "MONGODB_URI must be set when STORAGE_BACKEND includes mongo"@,
                MongoStoreError::Mongo(m) => "mongodb error: "@ + m@,
            },
    {
        match self {
            MongoStoreError::MissingMongoUri => crate::text::owned("MONGODB_URI must be set when STORAGE_BACKEND includes mongo"),
            MongoStoreError::Mongo(m) => crate::text::concat2("mongodb error: ", m.as_str()),
        }
    }
}

/// The connection string: the setting trimmed, when it is not blank;
/// otherwise the store cannot be reached.
pub fn mongo_uri(raw: Option<String>) -> (r: Result<String, MongoStoreError>)
    ensures
        match raw {
            Some(u) => if trim(u@).len() > 0 {
                r matches Ok(v) && v@ == trim(u@)
            } else {
                r == Err::<String, MongoStoreError>(MongoStoreError::MissingMongoUri)
            },
            None => r == Err::<String, MongoStoreError>(MongoStoreError::MissingMongoUri),
        },
{
    match &raw {
        Some(u) => {
            let t = crate::text::trim_string(u);
            if crate::text::is_blank(t.as_str()) {
                proof {
                    crate::text::lemma_trim_idempotent(u@);
                }
                Err(MongoStoreError::MissingMongoUri)
            } else {
                proof {
                    crate::text::lemma_trim_idempotent(u@);
                }
                Ok(t)
            }
        },
        None => Err(MongoStoreError::MissingMongoUri),
    }
}

/// What bootstrapping the store does: nothing when the store is not in use;
/// otherwise it needs a connection string, and then creates the index plan
/// (returned with the connection string).
pub fn bootstrap_plan(uses_mongo: bool, raw_uri: Option<String>) -> (r: Result<Option<(String, Vec<IndexSpec>)>, MongoStoreError>)
    ensures
        !uses_mongo ==> r == Ok::<Option<(String, Vec<IndexSpec>)>, MongoStoreError>(None),
        uses_mongo && !usable_uri(raw_uri) ==> r == Err::<Option<(String, Vec<IndexSpec>)>, MongoStoreError>(
            MongoStoreError::MissingMongoUri,
        ),
        uses_mongo && usable_uri(raw_uri) ==> (r matches Ok(Some((u, plan))) && u@ == trim(raw_uri->0@)
            && plan@.map_values(|i: IndexSpec| index_view(i)) == index_plan()),
{
    if !uses_mongo {
        return Ok(None);
    }
    match mongo_uri(raw_uri) {
        Ok(u) => Ok(Some((u, bootstrap_indexes_from_env(true)))),
        Err(e) => Err(e),
    }
}

/// A connection string setting that is present and not blank.
pub open spec fn usable_uri(raw: Option<String>) -> bool {
    raw matches Some(u) && trim(u@).len() > 0
}

} // verus!
