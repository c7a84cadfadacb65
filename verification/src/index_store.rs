//! The task index: which task of which user runs next, and when.

use vstd::prelude::*;
use crate::order::{lex_le, lemma_lex_antisym, lemma_lex_total, lemma_lex_trans};

verus! {

/// A task and the user it belongs to.
#[derive(Debug, Clone)]
pub struct TaskRef {
    pub task_id: String,
    pub user_id: String,
}

/// What the index reads of a scheduled task: its id, whether it is enabled,
/// and its next run (the cron schedule's next run or the one-shot time), in
/// milliseconds since the epoch.
#[derive(Debug, Clone)]
pub struct TaskSchedule {
    pub id: String,
    pub enabled: bool,
    pub next_run_ms: i64,
}

/// `a` comes strictly before `b`.
pub open spec fn lex_lt(a: Seq<char>, b: Seq<char>) -> bool {
    lex_le(a, b) && a != b
}

/// The next run recorded for `id`: that of the last enabled task with this id.
pub open spec fn last_enabled_run(tasks: Seq<TaskSchedule>, id: Seq<char>) -> Option<i64>
    decreases tasks.len(),
{
    if tasks.len() == 0 {
        None
    } else if tasks.last().enabled && tasks.last().id@ == id {
        Some(tasks.last().next_run_ms)
    } else {
        last_enabled_run(tasks.drop_last(), id)
    }
}

/// An index of next runs: ids in strictly increasing order, each with the
/// run of its last enabled task, and every enabled task's id present.
pub open spec fn next_runs_of(tasks: Seq<TaskSchedule>, r: Seq<(String, i64)>) -> bool {
    &&& forall|i: int, j: int| 0 <= i < j < r.len() ==> lex_lt((#[trigger] r[i]).0@, (#[trigger] r[j]).0@)
    &&& forall|i: int| 0 <= i < r.len() ==> last_enabled_run(tasks, (#[trigger] r[i]).0@) == Some(r[i].1)
    &&& forall|id: Seq<char>| #[trigger] last_enabled_run(tasks, id) is Some ==> exists|i: int| 0 <= i < r.len() && (#[trigger] r[i]).0@ == id
}

/// The next run of each enabled task, one entry per task id, ordered by id;
/// a later task with the same id overrides an earlier one.
pub fn enabled_task_next_runs(tasks: &Vec<TaskSchedule>) -> (r: Vec<(String, i64)>)
    ensures
        next_runs_of(tasks@, r@),
{
    let mut out: Vec<(String, i64)> = Vec::new();
    let mut k: usize = 0;
    proof {
        assert(tasks@.take(0) =~= Seq::<TaskSchedule>::empty());
    }
    while k < tasks.len()
        invariant
            k <= tasks@.len(),
            next_runs_of(tasks@.take(k as int), out@),
        decreases tasks@.len() - k,
    {
        let ghost before = out@;
        let ghost prev = tasks@.take(k as int);
        let ghost next = tasks@.take(k + 1);
        proof {
            assert(next.drop_last() =~= prev);
            assert(next.last() == tasks@[k as int]);
        }
        let t = &tasks[k];
        if t.enabled {
            let key = crate::text::to_chars(t.id.as_str());
            let mut p: usize = 0;
            while p < out.len()
                invariant
                    p <= out@.len(),
                    out@ == before,
                    key@ == t.id@,
                    forall|q: int| 0 <= q < p ==> !lex_le(key@, (#[trigger] out@[q]).0@),
                ensures
                    p <= out@.len(),
                    out@ == before,
                    forall|q: int| 0 <= q < p ==> !lex_le(key@, (#[trigger] out@[q]).0@),
                    p < out@.len() ==> lex_le(key@, out@[p as int].0@),
                decreases out@.len() - p,
            {
                let cur = crate::text::to_chars(out[p].0.as_str());
                if crate::order::lex_le_exec(key.as_slice(), cur.as_slice()) {
                    break;
                }
                p = p + 1;
            }
            let same = p < out.len() && crate::text::str_eq(out[p].0.as_str(), t.id.as_str());
            if same {
                out.set(p, (t.id.clone(), t.next_run_ms));
            } else {
                out.insert(p, (t.id.clone(), t.next_run_ms));
            }
            proof {
                let id = t.id@;
                assert forall|q: int| 0 <= q < p implies lex_lt((#[trigger] before[q]).0@, id) by {
                    lemma_lex_total(id, before[q].0@);
                }
                if p < before.len() {
                    assert(lex_le(id, before[p as int].0@));
                }
                assert forall|x: Seq<char>| x != id implies #[trigger] last_enabled_run(next, x) == last_enabled_run(prev, x) by {}
                assert(last_enabled_run(next, id) == Some(t.next_run_ms));
                if same {
                    assert(before[p as int].0@ == id);
                    assert(out@ == before.update(p as int, (t.id, t.next_run_ms)));
                    assert forall|i: int, j: int| 0 <= i < j < out@.len() implies lex_lt((#[trigger] out@[i]).0@, (#[trigger] out@[j]).0@) by {
                        assert(out@[i].0@ == before[i].0@);
                        assert(out@[j].0@ == before[j].0@);
                    }
                    assert forall|i: int| 0 <= i < out@.len() implies last_enabled_run(next, (#[trigger] out@[i]).0@) == Some(out@[i].1) by {
                        if i != p {
                            assert(before[i].0@ != id);
                        }
                    }
                    assert forall|x: Seq<char>| #[trigger] last_enabled_run(next, x) is Some implies exists|i: int| 0 <= i < out@.len() && (#[trigger] out@[i]).0@ == x by {
                        if x == id {
                            assert(out@[p as int].0@ == x);
                        } else {
                            let i = choose|i: int| 0 <= i < before.len() && (#[trigger] before[i]).0@ == x;
                            assert(out@[i].0@ == x);
                        }
                    }
                } else {
                    if p < before.len() {
                        assert(before[p as int].0@ != id);
                    }
                    assert(out@ == before.insert(p as int, (t.id, t.next_run_ms)));
                    assert forall|i: int, j: int| 0 <= i < j < out@.len() implies lex_lt((#[trigger] out@[i]).0@, (#[trigger] out@[j]).0@) by {
                        if j < p {
                            assert(out@[i] == before[i] && out@[j] == before[j]);
                        } else if j == p {
                            assert(out@[i] == before[i]);
                        } else if i < p {
                            assert(out@[i] == before[i] && out@[j] == before[j - 1]);
                            assert(lex_lt(before[i].0@, id));
                            assert(lex_lt(id, before[p as int].0@));
                            if p < j - 1 {
                                assert(lex_lt(before[p as int].0@, before[j - 1].0@));
                                lemma_lex_trans(id, before[p as int].0@, before[j - 1].0@);
                            }
                            lemma_lex_trans(before[i].0@, id, before[j - 1].0@);
                            if before[i].0@ == before[j - 1].0@ {
                                lemma_lex_antisym(before[i].0@, id);
                            }
                        } else if i == p {
                            assert(out@[j] == before[j - 1]);
                            assert(lex_lt(id, before[p as int].0@));
                            if p < j - 1 {
                                assert(lex_lt(before[p as int].0@, before[j - 1].0@));
                                lemma_lex_trans(id, before[p as int].0@, before[j - 1].0@);
                                if id == before[j - 1].0@ {
                                    lemma_lex_antisym(id, before[p as int].0@);
                                }
                            }
                        } else {
                            assert(out@[i] == before[i - 1] && out@[j] == before[j - 1]);
                        }
                    }
                    assert forall|i: int| 0 <= i < out@.len() implies last_enabled_run(next, (#[trigger] out@[i]).0@) == Some(out@[i].1) by {
                        if i < p {
                            assert(out@[i] == before[i]);
                            assert(before[i].0@ != id);
                        } else if i > p {
                            assert(out@[i] == before[i - 1]);
                            assert(lex_lt(id, before[p as int].0@));
                            if i - 1 > p {
                                assert(lex_lt(before[p as int].0@, before[i - 1].0@));
                                lemma_lex_trans(id, before[p as int].0@, before[i - 1].0@);
                                if id == before[i - 1].0@ {
                                    lemma_lex_antisym(id, before[p as int].0@);
                                }
                            }
                        }
                    }
                    assert forall|x: Seq<char>| #[trigger] last_enabled_run(next, x) is Some implies exists|i: int| 0 <= i < out@.len() && (#[trigger] out@[i]).0@ == x by {
                        if x == id {
                            assert(out@[p as int].0@ == x);
                        } else {
                            let i = choose|i: int| 0 <= i < before.len() && (#[trigger] before[i]).0@ == x;
                            if i < p {
                                assert(out@[i].0@ == x);
                            } else {
                                assert(out@[i + 1].0@ == x);
                            }
                        }
                    }
                }
            }
        } else {
            proof {
                assert forall|x: Seq<char>| #[trigger] last_enabled_run(next, x) == last_enabled_run(prev, x) by {}
            }
        }
        k = k + 1;
    }
    proof {
        assert(tasks@.take(tasks@.len() as int) =~= tasks@);
    }
    out
}

} // verus!
