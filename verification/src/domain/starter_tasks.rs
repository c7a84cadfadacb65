//! The first tasks planned for a new startup workspace.

use vstd::prelude::*;
use crate::domain::workspace_blueprint::StartupWorkspaceBlueprint;
use crate::text::{eq_ic, owned, strs};

verus! {

#[derive(Debug, Clone, Copy, PartialEq, Eq, Structural)]
pub enum StarterTaskStatus {
    Planned,
    ManualStepRequired,
}

#[derive(Debug, Clone, PartialEq, Eq)]
pub struct StarterTask {
    pub id: String,
    pub title: String,
    pub owner_role: String,
    pub status: StarterTaskStatus,
    pub rationale: String,
    pub depends_on: Vec<String>,
}

#[derive(Debug, Clone, PartialEq, Eq)]
pub struct StarterTaskPlan {
    pub tasks: Vec<StarterTask>,
}

impl Default for StarterTaskPlan {
    fn default() -> (r: Self)
        ensures
            r.tasks@.len() == 0,
    {
        StarterTaskPlan { tasks: Vec::new() }
    }
}

/// A starter task as plain values.
pub struct StarterTaskView {
    pub id: Seq<char>,
    pub title: Seq<char>,
    pub owner_role: Seq<char>,
    pub status: StarterTaskStatus,
    pub rationale: Seq<char>,
    pub depends_on: Seq<Seq<char>>,
}

impl View for StarterTask {
    type V = StarterTaskView;

    open spec fn view(&self) -> StarterTaskView {
        StarterTaskView {
            id: self.id@,
            title: self.title@,
            owner_role: self.owner_role@,
            status: self.status,
            rationale: self.rationale@,
            depends_on: strs(self.depends_on@),
        }
    }
}

pub open spec fn task_views(ts: Seq<StarterTask>) -> Seq<StarterTaskView> {
    ts.map_values(|t: StarterTask| t@)
}

pub open spec fn task_spec(
    id: &str,
    title: &str,
    owner_role: Seq<char>,
    status: StarterTaskStatus,
    rationale: &str,
    depends_on: Seq<Seq<char>>,
) -> StarterTaskView {
    StarterTaskView {
        id: id@,
        title: title@,
        owner_role,
        status,
        rationale: rationale@,
        depends_on,
    }
}

/// The role of the first requested agent, or `Generalist`.
pub open spec fn default_owner_role(b: StartupWorkspaceBlueprint) -> Seq<char> {
    if b.requested_agents@.len() > 0 {
        b.requested_agents@[0].role@
    } else {
        "Generalist"@
    }
}

/// The blueprint prefers Slack or Discord among its channels.
pub open spec fn prefers_team_chat(b: StartupWorkspaceBlueprint) -> bool {
    exists|i: int|
        0 <= i < b.preferred_channels@.len() && (eq_ic(#[trigger] b.preferred_channels@[i]@, "slack"@)
            || eq_ic(b.preferred_channels@[i]@, "discord"@))
}

/// The five starter tasks planned for a blueprint, in order.
pub open spec fn starter_plan(b: StartupWorkspaceBlueprint) -> Seq<StarterTaskView> {
    seq![
        task_spec(
            "task_workspace_brief",
            "Finalize startup workspace brief",
            default_owner_role(b),
            StarterTaskStatus::Planned,
            "Turn founder thesis and goals into a shared execution brief.",
            Seq::empty(),
        ),
        task_spec(
            "task_30_day_plan",
            "Generate 30-day execution plan",
            "Chief of Staff"@,
            StarterTaskStatus::Planned,
            "Translate the blueprint into milestones, owners, and review checkpoints.",
            seq!["task_workspace_brief"@],
        ),
        task_spec(
            "task_channel_routing",
            "Set default channel routing + approvals",
            "Operations"@,
            StarterTaskStatus::Planned,
            "Map where work starts and where approvals are required for external delivery.",
            seq!["task_workspace_brief"@],
        ),
        if b.stack.has_existing_repo {
            task_spec(
                "task_repo_bootstrap",
                "Bootstrap delivery workflow in repository",
                "Builder"@,
                StarterTaskStatus::Planned,
                "Use existing repo to create implementation, testing, and release workflow handoffs.",
                seq!["task_30_day_plan"@],
            )
        } else {
            task_spec(
                "task_repo_connect",
                "Connect repository for build system workflows",
                "Founder"@,
                StarterTaskStatus::ManualStepRequired,
                "Repo connection is required before code execution workflows can run.",
                seq!["task_30_day_plan"@],
            )
        },
        if prefers_team_chat(b) {
            task_spec(
                "task_coordination_channel",
                "Activate coordination channel status loop",
                "Chief of Staff"@,
                StarterTaskStatus::Planned,
                "Keep task status and approvals visible in team coordination channels.",
                seq!["task_channel_routing"@],
            )
        } else {
            task_spec(
                "task_coordination_channel",
                "Connect Slack or Discord for team coordination",
                "Founder"@,
                StarterTaskStatus::ManualStepRequired,
                "Coordination channel setup is optional but recommended for team loops.",
                seq!["task_channel_routing"@],
            )
        },
    ]
}

/// A blueprint that lists Slack or Discord (in any letter case) among its
/// preferred channels gets a planned coordination loop run by the Chief of
/// Staff as its fifth starter task.
pub proof fn lemma_team_chat_plans_coordination(b: StartupWorkspaceBlueprint, i: int)
    requires
        0 <= i < b.preferred_channels@.len(),
        eq_ic(b.preferred_channels@[i]@, "slack"@) || eq_ic(b.preferred_channels@[i]@, "discord"@),
    ensures
        starter_plan(b).len() == 5,
        starter_plan(b)[4].id == "task_coordination_channel"@,
        starter_plan(b)[4].title == "Activate coordination channel status loop"@,
        starter_plan(b)[4].owner_role == "Chief of Staff"@,
        starter_plan(b)[4].status == StarterTaskStatus::Planned,
{
    assert(eq_ic(b.preferred_channels@[i]@, "slack"@) || eq_ic(b.preferred_channels@[i]@, "discord"@));
}

/// A blueprint that lists neither Slack nor Discord leaves the coordination
/// channel to the founder as a manual step.
pub proof fn lemma_no_team_chat_needs_manual_step(b: StartupWorkspaceBlueprint)
    requires
        forall|i: int| 0 <= i < b.preferred_channels@.len()
            ==> !eq_ic(#[trigger] b.preferred_channels@[i]@, "slack"@) && !eq_ic(b.preferred_channels@[i]@, "discord"@),
    ensures
        starter_plan(b).len() == 5,
        starter_plan(b)[4].id == "task_coordination_channel"@,
        starter_plan(b)[4].title == "Connect Slack or Discord for team coordination"@,
        starter_plan(b)[4].owner_role == "Founder"@,
        starter_plan(b)[4].status == StarterTaskStatus::ManualStepRequired,
{
}

/// A blueprint with an existing repository gets a planned delivery
/// bootstrap owned by the Builder as its fourth task; without one, the
/// founder must connect a repository by hand.
pub proof fn lemma_repo_task_follows_stack(b: StartupWorkspaceBlueprint)
    ensures
        b.stack.has_existing_repo ==> starter_plan(b)[3].status == StarterTaskStatus::Planned
            && starter_plan(b)[3].owner_role == "Builder"@
            && starter_plan(b)[3].id == "task_repo_bootstrap"@,
        !b.stack.has_existing_repo ==> starter_plan(b)[3].status == StarterTaskStatus::ManualStepRequired
            && starter_plan(b)[3].owner_role == "Founder"@
            && starter_plan(b)[3].id == "task_repo_connect"@,
{
}

/// Every task depends only on tasks planned before it.
pub proof fn lemma_dependencies_come_first(b: StartupWorkspaceBlueprint)
    ensures
        forall|i: int, d: int| 0 <= i < starter_plan(b).len() && 0 <= d < starter_plan(b)[i].depends_on.len()
            ==> exists|j: int| 0 <= j < i && (#[trigger] starter_plan(b)[j]).id == (#[trigger] starter_plan(b)[i].depends_on[d]),
{
    let p = starter_plan(b);
    assert forall|i: int, d: int| 0 <= i < p.len() && 0 <= d < p[i].depends_on.len()
        implies exists|j: int| 0 <= j < i && (#[trigger] p[j]).id == (#[trigger] p[i].depends_on[d]) by {
        if i == 1 || i == 2 {
            assert(p[0].id == p[i].depends_on[d]);
        } else if i == 3 || i == 4 {
            let j = if i == 3 { 1int } else { 2int };
            assert(p[j].id == p[i].depends_on[d]);
        }
    }
}

pub(crate) fn one_string(a: &str) -> (r: Vec<String>)
    ensures
        strs(r@) == seq![a@],
{
    let mut r: Vec<String> = Vec::new();
    r.push(owned(a));
    proof {
        assert(strs(r@) =~= seq![a@]);
    }
    r
}

fn make_task(
    id: &str,
    title: &str,
    owner_role: String,
    status: StarterTaskStatus,
    rationale: &str,
    depends_on: Vec<String>,
) -> (t: StarterTask)
    ensures
        t@ == task_spec(id, title, owner_role@, status, rationale, strs(depends_on@)),
{
    StarterTask {
        id: owned(id),
        title: owned(title),
        owner_role,
        status,
        rationale: owned(rationale),
        depends_on,
    }
}

/// The role of the first requested agent, or `Generalist`.
pub(crate) fn default_owner(blueprint: &StartupWorkspaceBlueprint) -> (r: String)
    ensures
        r@ == default_owner_role(*blueprint),
{
    if blueprint.requested_agents.len() > 0 {
        blueprint.requested_agents[0].role.clone()
    } else {
        owned("Generalist")
    }
}

fn prefers_team_chat_exec(blueprint: &StartupWorkspaceBlueprint) -> (r: bool)
    ensures
        r == prefers_team_chat(*blueprint),
{
    let mut i: usize = 0;
    while i < blueprint.preferred_channels.len()
        invariant
            i <= blueprint.preferred_channels@.len(),
            forall|k: int|
                0 <= k < i ==> !(eq_ic(#[trigger] blueprint.preferred_channels@[k]@, "slack"@)
                    || eq_ic(blueprint.preferred_channels@[k]@, "discord"@)),
        decreases blueprint.preferred_channels@.len() - i,
    {
        let c = blueprint.preferred_channels[i].as_str();
        if crate::text::str_eq_ic(c, "slack") || crate::text::str_eq_ic(c, "discord") {
            return true;
        }
        i = i + 1;
    }
    false
}

/// Plans the five starter tasks for a blueprint.
pub fn build_starter_task_plan(blueprint: &StartupWorkspaceBlueprint) -> (plan: StarterTaskPlan)
    ensures
        task_views(plan.tasks@) == starter_plan(*blueprint),
{
    let default_owner = default_owner(blueprint);
    let mut tasks: Vec<StarterTask> = Vec::new();
    tasks.push(
        make_task(
            "task_workspace_brief",
            "Finalize startup workspace brief",
            default_owner,
            StarterTaskStatus::Planned,
            "Turn founder thesis and goals into a shared execution brief.",
            Vec::new(),
        ),
    );
    tasks.push(
        make_task(
            "task_30_day_plan",
            "Generate 30-day execution plan",
            owned("Chief of Staff"),
            StarterTaskStatus::Planned,
            "Translate the blueprint into milestones, owners, and review checkpoints.",
            one_string("task_workspace_brief"),
        ),
    );
    tasks.push(
        make_task(
            "task_channel_routing",
            "Set default channel routing + approvals",
            owned("Operations"),
            StarterTaskStatus::Planned,
            "Map where work starts and where approvals are required for external delivery.",
            one_string("task_workspace_brief"),
        ),
    );
    if blueprint.stack.has_existing_repo {
        tasks.push(
            make_task(
                "task_repo_bootstrap",
                "Bootstrap delivery workflow in repository",
                owned("Builder"),
                StarterTaskStatus::Planned,
                "Use existing repo to create implementation, testing, and release workflow handoffs.",
                one_string("task_30_day_plan"),
            ),
        );
    } else {
        tasks.push(
            make_task(
                "task_repo_connect",
                "Connect repository for build system workflows",
                owned("Founder"),
                StarterTaskStatus::ManualStepRequired,
                "Repo connection is required before code execution workflows can run.",
                one_string("task_30_day_plan"),
            ),
        );
    }
    if prefers_team_chat_exec(blueprint) {
        tasks.push(
            make_task(
                "task_coordination_channel",
                "Activate coordination channel status loop",
                owned("Chief of Staff"),
                StarterTaskStatus::Planned,
                "Keep task status and approvals visible in team coordination channels.",
                one_string("task_channel_routing"),
            ),
        );
    } else {
        tasks.push(
            make_task(
                "task_coordination_channel",
                "Connect Slack or Discord for team coordination",
                owned("Founder"),
                StarterTaskStatus::ManualStepRequired,
                "Coordination channel setup is optional but recommended for team loops.",
                one_string("task_channel_routing"),
            ),
        );
    }
    proof {
        assert(strs(Seq::<String>::empty()) =~= Seq::<Seq<char>>::empty());
        assert(task_views(tasks@) =~= starter_plan(*blueprint));
    }
    StarterTaskPlan { tasks }
}

} // verus!
