//! The first artifacts queued for a new startup workspace.

use vstd::prelude::*;
use crate::domain::starter_tasks::{StarterTask, StarterTaskPlan, StarterTaskStatus, StarterTaskView, task_views};
use crate::domain::workspace_blueprint::StartupWorkspaceBlueprint;
use crate::domain::starter_tasks::default_owner_role;
use crate::text::{eq_ic, owned};

verus! {

#[derive(Debug, Clone, Copy, PartialEq, Eq, Structural)]
pub enum ArtifactQueueStatus {
    Planned,
    PendingReview,
}

#[derive(Debug, Clone, PartialEq, Eq)]
pub struct ArtifactPlaceholder {
    pub id: String,
    pub title: String,
    pub surface: String,
    pub owner_role: String,
    pub status: ArtifactQueueStatus,
    pub rationale: String,
}

#[derive(Debug, Clone, PartialEq, Eq)]
pub struct ArtifactQueuePlan {
    pub artifacts: Vec<ArtifactPlaceholder>,
}

impl Default for ArtifactQueuePlan {
    fn default() -> (r: Self)
        ensures
            r.artifacts@.len() == 0,
    {
        ArtifactQueuePlan { artifacts: Vec::new() }
    }
}

/// An artifact placeholder as plain values.
pub struct ArtifactView {
    pub id: Seq<char>,
    pub title: Seq<char>,
    pub surface: Seq<char>,
    pub owner_role: Seq<char>,
    pub status: ArtifactQueueStatus,
    pub rationale: Seq<char>,
}

impl View for ArtifactPlaceholder {
    type V = ArtifactView;

    open spec fn view(&self) -> ArtifactView {
        ArtifactView {
            id: self.id@,
            title: self.title@,
            surface: self.surface@,
            owner_role: self.owner_role@,
            status: self.status,
            rationale: self.rationale@,
        }
    }
}

pub open spec fn artifact_views(a: Seq<ArtifactPlaceholder>) -> Seq<ArtifactView> {
    a.map_values(|x: ArtifactPlaceholder| x@)
}

/// Some artifact of `list` has an id equal to `id` ignoring ASCII case.
pub open spec fn id_taken(list: Seq<ArtifactView>, id: Seq<char>) -> bool {
    exists|k: int| 0 <= k < list.len() && eq_ic((#[trigger] list[k]).id, id)
}

/// Candidates in order, keeping only the first of those whose ids match ignoring case.
pub open spec fn dedupe_by_id(c: Seq<ArtifactView>) -> Seq<ArtifactView>
    decreases c.len(),
{
    if c.len() == 0 {
        Seq::empty()
    } else {
        let prev = dedupe_by_id(c.drop_last());
        if id_taken(prev, c.last().id) {
            prev
        } else {
            prev.push(c.last())
        }
    }
}

/// The tasks that need a manual step, in order.
pub open spec fn manual_tasks(ts: Seq<StarterTaskView>) -> Seq<StarterTaskView>
    decreases ts.len(),
{
    if ts.len() == 0 {
        Seq::empty()
    } else {
        let p = manual_tasks(ts.drop_last());
        if ts.last().status == StarterTaskStatus::ManualStepRequired {
            p.push(ts.last())
        } else {
            p
        }
    }
}

pub open spec fn min3(n: int) -> int {
    if n < 3 {
        n
    } else {
        3
    }
}

pub open spec fn digit(i: int) -> char {
    (('0' as int) + i) as char
}

pub open spec fn art(
    id: Seq<char>,
    title: Seq<char>,
    surface: &str,
    owner_role: Seq<char>,
    status: ArtifactQueueStatus,
    rationale: &str,
) -> ArtifactView {
    ArtifactView { id, title, surface: surface@, owner_role, status, rationale: rationale@ }
}

pub open spec fn goal_brief(i: int, goal: Seq<char>, owner: Seq<char>) -> ArtifactView {
    art(
        "artifact_goal_brief_"@ + seq![digit(i)],
        "Goal brief: "@ + goal,
        "task_board",
        owner,
        ArtifactQueueStatus::Planned,
        "Create a goal-level brief with measurable outcomes and dependencies.",
    )
}

pub open spec fn manual_checklist(t: StarterTaskView) -> ArtifactView {
    art(
        "artifact_manual_checklist_"@ + t.id,
        "Manual setup checklist: "@ + t.title,
        "approval_queue",
        t.owner_role,
        ArtifactQueueStatus::PendingReview,
        "Manual setup is required before this workflow can execute automatically.",
    )
}

/// Every artifact proposed for a blueprint and its starter tasks, before de-duplication.
pub open spec fn artifact_candidates(b: StartupWorkspaceBlueprint, ts: Seq<StarterTaskView>) -> Seq<ArtifactView> {
    let owner = default_owner_role(b);
    let goals = b.goals_30_90_days@;
    let manual = manual_tasks(ts);
    seq![
        art(
            "artifact_founder_summary"@,
            "Founder intake summary"@,
            "workspace_home",
            owner,
            ArtifactQueueStatus::Planned,
            "Capture normalized intake input as the baseline for workspace execution.",
        ),
        art(
            "artifact_startup_brief"@,
            "Startup workspace brief"@,
            "formal_docs",
            owner,
            ArtifactQueueStatus::Planned,
            "Translate thesis + goals into a shared brief for all startup agents.",
        ),
        art(
            "artifact_30_day_execution_plan"@,
            "30-day execution plan"@,
            "task_board",
            "Chief of Staff"@,
            ArtifactQueueStatus::Planned,
            "Define milestone cadence with owner accountability.",
        ),
    ] + Seq::new(min3(goals.len() as int) as nat, |i: int| goal_brief(i, goals[i]@, owner))
        + Seq::new(min3(manual.len() as int) as nat, |i: int| manual_checklist(manual[i]))
}

/// Appends `candidate` unless an artifact with the same id (ignoring case) is queued.
fn push_unique(artifacts: &mut Vec<ArtifactPlaceholder>, candidate: ArtifactPlaceholder)
    ensures
        id_taken(artifact_views(old(artifacts)@), candidate.id@) ==> final(artifacts)@ == old(
            artifacts,
        )@,
        !id_taken(artifact_views(old(artifacts)@), candidate.id@) ==> final(artifacts)@ == old(
            artifacts,
        )@.push(candidate),
{
    let mut i: usize = 0;
    while i < artifacts.len()
        invariant
            i <= artifacts@.len(),
            forall|k: int| 0 <= k < i ==> !eq_ic(#[trigger] artifact_views(artifacts@)[k].id, candidate.id@),
        decreases artifacts@.len() - i,
    {
        proof {
            assert(artifact_views(artifacts@)[i as int].id == artifacts@[i as int].id@);
        }
        if crate::text::str_eq_ic(artifacts[i].id.as_str(), candidate.id.as_str()) {
            return;
        }
        i = i + 1;
    }
    artifacts.push(candidate);
}

fn make_artifact(
    id: String,
    title: String,
    surface: &str,
    owner_role: String,
    status: ArtifactQueueStatus,
    rationale: &str,
) -> (a: ArtifactPlaceholder)
    ensures
        a@ == art(id@, title@, surface, owner_role@, status, rationale),
{
    ArtifactPlaceholder {
        id,
        title,
        surface: owned(surface),
        owner_role,
        status,
        rationale: owned(rationale),
    }
}

fn copy_artifact(a: &ArtifactPlaceholder) -> (r: ArtifactPlaceholder)
    ensures
        r == *a,
{
    ArtifactPlaceholder {
        id: a.id.clone(),
        title: a.title.clone(),
        surface: a.surface.clone(),
        owner_role: a.owner_role.clone(),
        status: a.status,
        rationale: a.rationale.clone(),
    }
}

fn digit_str(i: usize) -> (r: String)
    requires
        i < 3,
    ensures
        r@ == seq![digit(i as int)],
{
    let c: char = if i == 0 {
        '0'
    } else if i == 1 {
        '1'
    } else {
        '2'
    };
    let mut r = String::new();
    r.push(c);
    r
}

fn manual_tasks_exec(ts: &Vec<StarterTask>) -> (r: Vec<&StarterTask>)
    ensures
        r@.map_values(|t: &StarterTask| t@) == manual_tasks(task_views(ts@)),
{
    let ghost tv = task_views(ts@);
    let mut r: Vec<&StarterTask> = Vec::new();
    let mut i: usize = 0;
    while i < ts.len()
        invariant
            i <= ts@.len(),
            tv == task_views(ts@),
            r@.map_values(|t: &StarterTask| t@) == manual_tasks(tv.take(i as int)),
        decreases ts@.len() - i,
    {
        proof {
            assert(tv.take(i + 1).drop_last() =~= tv.take(i as int));
            assert(tv.take(i + 1).last() == ts@[i as int]@);
        }
        let ghost before = r@;
        if ts[i].status == StarterTaskStatus::ManualStepRequired {
            r.push(&ts[i]);
            proof {
                assert(r@.map_values(|t: &StarterTask| t@) =~= before.map_values(|t: &StarterTask| t@).push(ts@[i as int]@));
            }
        }
        i = i + 1;
    }
    proof {
        assert(tv.take(ts@.len() as int) =~= tv);
    }
    r
}

/// Queues the founder summary, startup brief and 30-day plan, a brief for each of
/// the first three goals and a checklist for each of the first three tasks that
/// need a manual step, skipping any whose id is already queued (ignoring case).
pub fn build_initial_artifact_queue(
    blueprint: &StartupWorkspaceBlueprint,
    starter_tasks: &StarterTaskPlan,
) -> (plan: ArtifactQueuePlan)
    ensures
        artifact_views(plan.artifacts@) == dedupe_by_id(
            artifact_candidates(*blueprint, task_views(starter_tasks.tasks@)),
        ),
{
    let ghost cands = artifact_candidates(*blueprint, task_views(starter_tasks.tasks@));
    let default_owner = crate::domain::starter_tasks::default_owner(blueprint);
    let mut c: Vec<ArtifactPlaceholder> = Vec::new();
    c.push(
        make_artifact(
            owned("artifact_founder_summary"),
            owned("Founder intake summary"),
            "workspace_home",
            default_owner.clone(),
            ArtifactQueueStatus::Planned,
            "Capture normalized intake input as the baseline for workspace execution.",
        ),
    );
    c.push(
        make_artifact(
            owned("artifact_startup_brief"),
            owned("Startup workspace brief"),
            "formal_docs",
            default_owner.clone(),
            ArtifactQueueStatus::Planned,
            "Translate thesis + goals into a shared brief for all startup agents.",
        ),
    );
    c.push(
        make_artifact(
            owned("artifact_30_day_execution_plan"),
            owned("30-day execution plan"),
            "task_board",
            owned("Chief of Staff"),
            ArtifactQueueStatus::Planned,
            "Define milestone cadence with owner accountability.",
        ),
    );
    let goals = &blueprint.goals_30_90_days;
    let ng: usize = if goals.len() < 3 {
        goals.len()
    } else {
        3
    };
    let mut g: usize = 0;
    while g < ng
        invariant
            ng == min3(goals@.len() as int),
            g <= ng,
            goals == &blueprint.goals_30_90_days,
            default_owner@ == default_owner_role(*blueprint),
            artifact_views(c@) == cands.take(3 + g),
            cands == artifact_candidates(*blueprint, task_views(starter_tasks.tasks@)),
        decreases ng - g,
    {
        let id = crate::text::concat2("artifact_goal_brief_", digit_str(g).as_str());
        let title = crate::text::concat2("Goal brief: ", goals[g].as_str());
        let ghost before = c@;
        c.push(
            make_artifact(
                id,
                title,
                "task_board",
                default_owner.clone(),
                ArtifactQueueStatus::Planned,
                "Create a goal-level brief with measurable outcomes and dependencies.",
            ),
        );
        proof {
            assert(cands[3 + g] == goal_brief(g as int, goals@[g as int]@, default_owner@));
            assert(c@.last()@ == cands[3 + g]);
            assert(artifact_views(c@) =~= artifact_views(before).push(c@.last()@));
            assert(artifact_views(c@) =~= cands.take(3 + g + 1));
        }
        g = g + 1;
    }
    let manual = manual_tasks_exec(&starter_tasks.tasks);
    let nm: usize = if manual.len() < 3 {
        manual.len()
    } else {
        3
    };
    let mut m: usize = 0;
    proof {
        assert(cands.len() == 3 + ng + nm);
    }
    while m < nm
        invariant
            cands.len() == 3 + ng + nm,
            nm == min3(manual_tasks(task_views(starter_tasks.tasks@)).len() as int),
            nm <= manual@.len(),
            m <= nm,
            ng == min3(goals@.len() as int),
            manual@.map_values(|t: &StarterTask| t@) == manual_tasks(task_views(starter_tasks.tasks@)),
            artifact_views(c@) == cands.take(3 + ng + m),
            cands == artifact_candidates(*blueprint, task_views(starter_tasks.tasks@)),
        decreases nm - m,
    {
        let t = manual[m];
        let ghost before = c@;
        let id = crate::text::concat2("artifact_manual_checklist_", t.id.as_str());
        let title = crate::text::concat2("Manual setup checklist: ", t.title.as_str());
        c.push(
            make_artifact(
                id,
                title,
                "approval_queue",
                t.owner_role.clone(),
                ArtifactQueueStatus::PendingReview,
                "Manual setup is required before this workflow can execute automatically.",
            ),
        );
        proof {
            assert(manual@.map_values(|t: &StarterTask| t@)[m as int] == t@);
            assert(cands[3 + ng + m] == manual_checklist(manual_tasks(task_views(starter_tasks.tasks@))[m as int]));
            assert(c@.last()@ == cands[3 + ng + m]);
            assert(artifact_views(c@) =~= artifact_views(before).push(c@.last()@));
            assert(artifact_views(c@) =~= cands.take(3 + ng + m + 1));
        }
        m = m + 1;
    }
    proof {
        assert(cands.len() == 3 + ng + nm);
        assert(cands.take(3 + ng + nm) =~= cands);
    }
    let mut plan = ArtifactQueuePlan::default();
    let mut k: usize = 0;
    while k < c.len()
        invariant
            k <= c@.len(),
            artifact_views(c@) == cands,
            artifact_views(plan.artifacts@) == dedupe_by_id(cands.take(k as int)),
        decreases c@.len() - k,
    {
        let cand = copy_artifact(&c[k]);
        proof {
            assert(cands.take(k + 1).drop_last() =~= cands.take(k as int));
            assert(cands.take(k + 1).last() == cand@);
        }
        let ghost before = plan.artifacts@;
        push_unique(&mut plan.artifacts, cand);
        proof {
            if !id_taken(artifact_views(before), cand.id@) {
                assert(artifact_views(plan.artifacts@) =~= artifact_views(before).push(cand@));
            }
        }
        k = k + 1;
    }
    proof {
        assert(cands.take(c@.len() as int) =~= cands);
    }
    plan
}

} // verus!
