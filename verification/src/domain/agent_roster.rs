//! The starter roster of agents for a startup workspace.

use vstd::prelude::*;
use crate::domain::resource_model::{ProvisioningState, ResourceCategory, WorkspaceResource, WorkspaceResourcePlan};
use crate::domain::starter_tasks::{StarterTask, StarterTaskPlan, StarterTaskView, task_views};
use crate::domain::workspace_blueprint::{has_ic, AgentRoleRequest, StartupWorkspaceBlueprint};
use crate::text::{contains, eq_ic, lower_seq, opt_str, owned, strs, trim};

verus! {

#[derive(Debug, Clone, Copy, PartialEq, Eq, Structural)]
pub enum AgentAssignmentStatus {
    Active,
    Planned,
    ManualSetupRequired,
}

#[derive(Debug, Clone, PartialEq, Eq)]
pub struct AgentAssignment {
    pub role: String,
    pub owner: String,
    pub status: AgentAssignmentStatus,
    pub focus: String,
    pub owned_resources: Vec<ResourceCategory>,
    pub starter_task_ids: Vec<String>,
    pub manual_next_steps: Vec<String>,
}

#[derive(Debug, Clone, PartialEq, Eq)]
pub struct AgentRosterPlan {
    pub assignments: Vec<AgentAssignment>,
}

impl Default for AgentRosterPlan {
    fn default() -> (r: Self)
        ensures
            r.assignments@.len() == 0,
    {
        AgentRosterPlan { assignments: Vec::new() }
    }
}

/// An assignment as plain values.
pub struct AssignmentView {
    pub role: Seq<char>,
    pub owner: Seq<char>,
    pub status: AgentAssignmentStatus,
    pub focus: Seq<char>,
    pub owned_resources: Seq<ResourceCategory>,
    pub starter_task_ids: Seq<Seq<char>>,
    pub manual_next_steps: Seq<Seq<char>>,
}

impl View for AgentAssignment {
    type V = AssignmentView;

    open spec fn view(&self) -> AssignmentView {
        AssignmentView {
            role: self.role@,
            owner: self.owner@,
            status: self.status,
            focus: self.focus@,
            owned_resources: self.owned_resources@,
            starter_task_ids: strs(self.starter_task_ids@),
            manual_next_steps: strs(self.manual_next_steps@),
        }
    }
}

pub open spec fn assignment_views(a: Seq<AgentAssignment>) -> Seq<AssignmentView> {
    a.map_values(|x: AgentAssignment| x@)
}

/// Requested roles with a non-blank role, trimmed, with their owners.
pub open spec fn requested_seeds(rs: Seq<AgentRoleRequest>) -> Seq<(Seq<char>, Option<Seq<char>>)>
    decreases rs.len(),
{
    if rs.len() == 0 {
        Seq::empty()
    } else {
        let prev = requested_seeds(rs.drop_last());
        let r = rs.last();
        if trim(r.role@).len() == 0 {
            prev
        } else {
            prev.push((trim(r.role@), opt_str(r.owner)))
        }
    }
}

/// The roles the roster is built from.
pub open spec fn role_seeds(b: StartupWorkspaceBlueprint) -> Seq<(Seq<char>, Option<Seq<char>>)> {
    if b.requested_agents@.len() > 0 {
        requested_seeds(b.requested_agents@)
    } else {
        seq![
            ("Generalist"@, None),
            ("Builder"@, None),
            ("Chief of Staff"@, None),
            ("GTM Strategist"@, None),
        ]
    }
}

/// `{role} Agent` for a trimmed role, `Agent Owner` when the role is blank.
pub open spec fn default_owner_name_spec(role: Seq<char>) -> Seq<char> {
    if trim(role).len() == 0 {
        "Agent Owner"@
    } else {
        trim(role) + " Agent"@
    }
}

pub open spec fn is_builder_role(l: Seq<char>) -> bool {
    contains(l, "builder"@) || contains(l, "engineer"@) || contains(l, "coder"@)
}

pub open spec fn is_gtm_role(l: Seq<char>) -> bool {
    contains(l, "gtm"@) || contains(l, "growth"@) || contains(l, "marketing"@)
}

pub open spec fn is_staff_role(l: Seq<char>) -> bool {
    contains(l, "chief"@) || contains(l, "ops"@) || contains(l, "staff"@)
}

/// Resource categories a role prefers to own.
pub open spec fn preferred_categories(role: Seq<char>) -> Seq<ResourceCategory> {
    let l = lower_seq(role);
    if is_builder_role(l) {
        seq![ResourceCategory::BuildSystem, ResourceCategory::TaskBoard, ResourceCategory::ArtifactQueue]
    } else if is_gtm_role(l) {
        seq![ResourceCategory::PublishPresence, ResourceCategory::ExternalExecution, ResourceCategory::FormalDocs]
    } else if is_staff_role(l) {
        seq![ResourceCategory::CoordinationLayer, ResourceCategory::ApprovalPolicy, ResourceCategory::TaskBoard]
    } else {
        seq![ResourceCategory::WorkspaceHome, ResourceCategory::AgentRoster, ResourceCategory::KnowledgeHubStructured]
    }
}

/// The focus statement of a role.
pub open spec fn focus_spec(role: Seq<char>) -> Seq<char> {
    let l = lower_seq(role);
    if is_builder_role(l) {
        "Ship implementation milestones with test-ready outputs."@
    } else if is_gtm_role(l) {
        "Drive distribution loops from early positioning to launch traction."@
    } else if is_staff_role(l) {
        "Coordinate approvals, execution cadence, and cross-agent handoffs."@
    } else {
        "Coordinate end-to-end startup execution across channels with shared memory."@
    }
}

/// Categories of `rs` that `pref` lists, in order of first appearance, without repeats.
pub open spec fn owned_categories(pref: Seq<ResourceCategory>, rs: Seq<WorkspaceResource>) -> Seq<ResourceCategory>
    decreases rs.len(),
{
    if rs.len() == 0 {
        Seq::empty()
    } else {
        let prev = owned_categories(pref, rs.drop_last());
        let c = rs.last().category;
        if pref.contains(c) && !prev.contains(c) {
            prev.push(c)
        } else {
            prev
        }
    }
}

/// A role matches a task owner when they are equal ignoring case or one contains the other (lower-cased).
pub open spec fn role_matches(role: Seq<char>, owner: Seq<char>) -> bool {
    eq_ic(role, owner) || contains(lower_seq(role), lower_seq(owner)) || contains(lower_seq(owner), lower_seq(role))
}

/// Ids of the tasks whose owner role matches `role`, in order.
pub open spec fn matching_task_ids(role: Seq<char>, ts: Seq<StarterTaskView>) -> Seq<Seq<char>>
    decreases ts.len(),
{
    if ts.len() == 0 {
        Seq::empty()
    } else {
        let prev = matching_task_ids(role, ts.drop_last());
        if role_matches(role, ts.last().owner_role) {
            prev.push(ts.last().id)
        } else {
            prev
        }
    }
}

/// The step a resource that is not connected asks for.
pub open spec fn step_for(r: WorkspaceResource) -> Seq<char> {
    match r.manual_next_step {
        Some(s) => if trim(s@).len() > 0 {
            trim(s@)
        } else {
            "Configure "@ + r.object_name@
        },
        None => "Configure "@ + r.object_name@,
    }
}

/// Manual steps for owned resources that are not connected, without case-insensitive repeats.
pub open spec fn manual_steps(owned: Seq<ResourceCategory>, rs: Seq<WorkspaceResource>) -> Seq<Seq<char>>
    decreases rs.len(),
{
    if rs.len() == 0 {
        Seq::empty()
    } else {
        let prev = manual_steps(owned, rs.drop_last());
        let r = rs.last();
        if !owned.contains(r.category) || r.state == ProvisioningState::Connected || has_ic(prev, step_for(r)) {
            prev
        } else {
            prev.push(step_for(r))
        }
    }
}

/// `s` is the step of some resource of `rs` that is owned and not connected.
pub open spec fn step_of_unconnected(owned: Seq<ResourceCategory>, rs: Seq<WorkspaceResource>, s: Seq<char>) -> bool {
    exists|j: int| 0 <= j < rs.len() && owned.contains((#[trigger] rs[j]).category)
        && rs[j].state != ProvisioningState::Connected && step_for(rs[j]) == s
}

/// Every manual step comes from an owned resource that is not connected yet:
/// a connected resource never asks for one.
pub proof fn lemma_manual_steps_from_unconnected(owned: Seq<ResourceCategory>, rs: Seq<WorkspaceResource>)
    ensures
        forall|k: int| 0 <= k < manual_steps(owned, rs).len()
            ==> step_of_unconnected(owned, rs, #[trigger] manual_steps(owned, rs)[k]),
    decreases rs.len(),
{
    if rs.len() > 0 {
        let prev_rs = rs.drop_last();
        lemma_manual_steps_from_unconnected(owned, prev_rs);
        let prev = manual_steps(owned, prev_rs);
        let m = manual_steps(owned, rs);
        assert forall|k: int| 0 <= k < m.len() implies step_of_unconnected(owned, rs, #[trigger] m[k]) by {
            if k < prev.len() {
                assert(m[k] == prev[k]);
                assert(step_of_unconnected(owned, prev_rs, prev[k]));
                let j = choose|j: int| 0 <= j < prev_rs.len() && owned.contains((#[trigger] prev_rs[j]).category)
                    && prev_rs[j].state != ProvisioningState::Connected && step_for(prev_rs[j]) == prev[k];
                assert(rs[j] == prev_rs[j]);
            } else {
                let j = rs.len() - 1;
                assert(rs[j] == rs.last());
            }
        }
    }
}

/// Every owned resource that is not connected has its step among the manual
/// steps, up to letter case.
pub proof fn lemma_unconnected_owned_has_step(owned: Seq<ResourceCategory>, rs: Seq<WorkspaceResource>, j: int)
    requires
        0 <= j < rs.len(),
        owned.contains(rs[j].category),
        rs[j].state != ProvisioningState::Connected,
    ensures
        has_ic(manual_steps(owned, rs), step_for(rs[j])),
    decreases rs.len(),
{
    let prev = manual_steps(owned, rs.drop_last());
    let m = manual_steps(owned, rs);
    if j < rs.len() - 1 {
        assert(rs.drop_last()[j] == rs[j]);
        lemma_unconnected_owned_has_step(owned, rs.drop_last(), j);
        let k = choose|k: int| 0 <= k < prev.len() && eq_ic(#[trigger] prev[k], step_for(rs[j]));
        assert(m[k] == prev[k]);
    } else if !has_ic(prev, step_for(rs[j])) {
        assert(m[prev.len() as int] == step_for(rs[j]));
    } else {
        let k = choose|k: int| 0 <= k < prev.len() && eq_ic(#[trigger] prev[k], step_for(rs[j]));
        assert(m[k] == prev[k]);
    }
}

/// When every owned resource is connected there is no manual step.
pub proof fn lemma_all_connected_no_steps(owned: Seq<ResourceCategory>, rs: Seq<WorkspaceResource>)
    requires
        forall|j: int| 0 <= j < rs.len() && owned.contains((#[trigger] rs[j]).category)
            ==> rs[j].state == ProvisioningState::Connected,
    ensures
        manual_steps(owned, rs).len() == 0,
{
    lemma_manual_steps_from_unconnected(owned, rs);
    if manual_steps(owned, rs).len() > 0 {
        assert(step_of_unconnected(owned, rs, manual_steps(owned, rs)[0]));
    }
}

/// The assignment made for the seed at position `index`.
pub open spec fn assignment_spec(
    index: int,
    seed: (Seq<char>, Option<Seq<char>>),
    rs: Seq<WorkspaceResource>,
    ts: Seq<StarterTaskView>,
) -> AssignmentView {
    let role = trim(seed.0);
    let owned = owned_categories(preferred_categories(role), rs);
    let steps = manual_steps(owned, rs);
    AssignmentView {
        role,
        owner: match seed.1 {
            Some(o) => o,
            None => default_owner_name_spec(role),
        },
        status: if steps.len() > 0 {
            AgentAssignmentStatus::ManualSetupRequired
        } else if index == 0 {
            AgentAssignmentStatus::Active
        } else {
            AgentAssignmentStatus::Planned
        },
        focus: focus_spec(role),
        owned_resources: owned,
        starter_task_ids: matching_task_ids(role, ts),
        manual_next_steps: steps,
    }
}

/// An agent all of whose owned resources are connected has no manual step
/// and is not waiting on manual setup.
pub proof fn lemma_connected_agent_not_blocked(
    index: int,
    seed: (Seq<char>, Option<Seq<char>>),
    rs: Seq<WorkspaceResource>,
    ts: Seq<StarterTaskView>,
)
    requires
        forall|j: int| 0 <= j < rs.len()
            && owned_categories(preferred_categories(trim(seed.0)), rs).contains((#[trigger] rs[j]).category)
            ==> rs[j].state == ProvisioningState::Connected,
    ensures
        assignment_spec(index, seed, rs, ts).manual_next_steps.len() == 0,
        assignment_spec(index, seed, rs, ts).status != AgentAssignmentStatus::ManualSetupRequired,
{
    lemma_all_connected_no_steps(owned_categories(preferred_categories(trim(seed.0)), rs), rs);
}

/// An agent owning a resource that is not connected waits on manual setup,
/// and its steps include that resource's step.
pub proof fn lemma_unconnected_agent_blocked(
    index: int,
    seed: (Seq<char>, Option<Seq<char>>),
    rs: Seq<WorkspaceResource>,
    ts: Seq<StarterTaskView>,
    j: int,
)
    requires
        0 <= j < rs.len(),
        owned_categories(preferred_categories(trim(seed.0)), rs).contains(rs[j].category),
        rs[j].state != ProvisioningState::Connected,
    ensures
        assignment_spec(index, seed, rs, ts).status == AgentAssignmentStatus::ManualSetupRequired,
        has_ic(assignment_spec(index, seed, rs, ts).manual_next_steps, step_for(rs[j])),
{
    lemma_unconnected_owned_has_step(owned_categories(preferred_categories(trim(seed.0)), rs), rs, j);
}

/// Assignments for the seeds, skipping seeds whose role is blank.
pub open spec fn roster_spec(
    seeds: Seq<(Seq<char>, Option<Seq<char>>)>,
    rs: Seq<WorkspaceResource>,
    ts: Seq<StarterTaskView>,
) -> Seq<AssignmentView>
    decreases seeds.len(),
{
    if seeds.len() == 0 {
        Seq::empty()
    } else {
        let prev = roster_spec(seeds.drop_last(), rs, ts);
        if trim(seeds.last().0).len() == 0 {
            prev
        } else {
            prev.push(assignment_spec(seeds.len() - 1, seeds.last(), rs, ts))
        }
    }
}

/// With every resource connected, no agent of the roster waits on manual
/// setup and none has a manual step.
pub proof fn lemma_connected_roster_not_blocked(
    seeds: Seq<(Seq<char>, Option<Seq<char>>)>,
    rs: Seq<WorkspaceResource>,
    ts: Seq<StarterTaskView>,
)
    requires
        forall|j: int| 0 <= j < rs.len() ==> (#[trigger] rs[j]).state == ProvisioningState::Connected,
    ensures
        forall|k: int| 0 <= k < roster_spec(seeds, rs, ts).len()
            ==> (#[trigger] roster_spec(seeds, rs, ts)[k]).status != AgentAssignmentStatus::ManualSetupRequired
                && roster_spec(seeds, rs, ts)[k].manual_next_steps.len() == 0,
    decreases seeds.len(),
{
    if seeds.len() > 0 {
        lemma_connected_roster_not_blocked(seeds.drop_last(), rs, ts);
        lemma_connected_agent_not_blocked(seeds.len() - 1, seeds.last(), rs, ts);
        let prev = roster_spec(seeds.drop_last(), rs, ts);
        let r = roster_spec(seeds, rs, ts);
        assert forall|k: int| 0 <= k < r.len() implies (#[trigger] r[k]).status != AgentAssignmentStatus::ManualSetupRequired
            && r[k].manual_next_steps.len() == 0 by {
            if k < prev.len() {
                assert(r[k] == prev[k]);
            }
        }
    }
}

pub open spec fn seed_views(v: Seq<(String, Option<String>)>) -> Seq<(Seq<char>, Option<Seq<char>>)> {
    v.map_values(|p: (String, Option<String>)| (p.0@, opt_str(p.1)))
}

fn seed_role_requests(blueprint: &StartupWorkspaceBlueprint) -> (r: Vec<(String, Option<String>)>)
    ensures
        seed_views(r@) == role_seeds(*blueprint),
{
    let mut r: Vec<(String, Option<String>)> = Vec::new();
    if blueprint.requested_agents.len() > 0 {
        let ghost rs = blueprint.requested_agents@;
        let mut i: usize = 0;
        while i < blueprint.requested_agents.len()
            invariant
                i <= rs.len(),
                rs == blueprint.requested_agents@,
                seed_views(r@) == requested_seeds(rs.take(i as int)),
            decreases rs.len() - i,
        {
            proof {
                assert(rs.take(i + 1).drop_last() =~= rs.take(i as int));
            }
            let agent = &blueprint.requested_agents[i];
            let role = crate::text::trim_string(&agent.role);
            if !role.as_str().is_empty() {
                let ghost before = r@;
                r.push((role, crate::text::clone_opt(&agent.owner)));
                proof {
                    assert(seed_views(r@) =~= seed_views(before).push((trim(agent.role@), opt_str(agent.owner))));
                }
            }
            i = i + 1;
        }
        proof {
            assert(rs.take(rs.len() as int) =~= rs);
        }
    } else {
        r.push((owned("Generalist"), None));
        r.push((owned("Builder"), None));
        r.push((owned("Chief of Staff"), None));
        r.push((owned("GTM Strategist"), None));
        proof {
            assert(seed_views(r@) =~= role_seeds(*blueprint));
        }
    }
    r
}

fn default_owner_name(role: &str) -> (r: String)
    ensures
        r@ == default_owner_name_spec(role@),
{
    let trimmed = crate::text::trim_str(role);
    if trimmed.as_str().is_empty() {
        return owned("Agent Owner");
    }
    crate::text::concat2(trimmed.as_str(), " Agent")
}

fn role_kind(role: &str) -> (k: u8)
    ensures
        k == 0 <==> is_builder_role(lower_seq(role@)),
        k == 1 <==> !is_builder_role(lower_seq(role@)) && is_gtm_role(lower_seq(role@)),
        k == 2 <==> !is_builder_role(lower_seq(role@)) && !is_gtm_role(lower_seq(role@))
            && is_staff_role(lower_seq(role@)),
        k == 3 <==> !is_builder_role(lower_seq(role@)) && !is_gtm_role(lower_seq(role@))
            && !is_staff_role(lower_seq(role@)),
{
    let l = crate::text::lower_str(role);
    let l = l.as_str();
    if crate::text::str_contains(l, "builder") || crate::text::str_contains(l, "engineer")
        || crate::text::str_contains(l, "coder") {
        0
    } else if crate::text::str_contains(l, "gtm") || crate::text::str_contains(l, "growth")
        || crate::text::str_contains(l, "marketing") {
        1
    } else if crate::text::str_contains(l, "chief") || crate::text::str_contains(l, "ops")
        || crate::text::str_contains(l, "staff") {
        2
    } else {
        3
    }
}

fn preferred_categories_for_role(role: &str) -> (r: Vec<ResourceCategory>)
    ensures
        r@ == preferred_categories(role@),
{
    let k = role_kind(role);
    let mut r: Vec<ResourceCategory> = Vec::new();
    if k == 0 {
        r.push(ResourceCategory::BuildSystem);
        r.push(ResourceCategory::TaskBoard);
        r.push(ResourceCategory::ArtifactQueue);
    } else if k == 1 {
        r.push(ResourceCategory::PublishPresence);
        r.push(ResourceCategory::ExternalExecution);
        r.push(ResourceCategory::FormalDocs);
    } else if k == 2 {
        r.push(ResourceCategory::CoordinationLayer);
        r.push(ResourceCategory::ApprovalPolicy);
        r.push(ResourceCategory::TaskBoard);
    } else {
        r.push(ResourceCategory::WorkspaceHome);
        r.push(ResourceCategory::AgentRoster);
        r.push(ResourceCategory::KnowledgeHubStructured);
    }
    proof {
        assert(r@ =~= preferred_categories(role@));
    }
    r
}

fn focus_for_role(role: &str) -> (r: String)
    ensures
        r@ == focus_spec(role@),
{
    let k = role_kind(role);
    if k == 0 {
        owned("Ship implementation milestones with test-ready outputs.")
    } else if k == 1 {
        owned("Drive distribution loops from early positioning to launch traction.")
    } else if k == 2 {
        owned("Coordinate approvals, execution cadence, and cross-agent handoffs.")
    } else {
        owned("Coordinate end-to-end startup execution across channels with shared memory.")
    }
}

fn contains_category(v: &Vec<ResourceCategory>, c: ResourceCategory) -> (r: bool)
    ensures
        r == v@.contains(c),
{
    let mut i: usize = 0;
    while i < v.len()
        invariant
            i <= v@.len(),
            forall|k: int| 0 <= k < i ==> v@[k] != c,
        decreases v@.len() - i,
    {
        if v[i] == c {
            return true;
        }
        i = i + 1;
    }
    false
}

fn resolve_owned_resources(role: &str, resources: &WorkspaceResourcePlan) -> (r: Vec<ResourceCategory>)
    ensures
        r@ == owned_categories(preferred_categories(role@), resources.resources@),
{
    let preferred = preferred_categories_for_role(role);
    let ghost rs = resources.resources@;
    let mut owned_resources: Vec<ResourceCategory> = Vec::new();
    let mut i: usize = 0;
    while i < resources.resources.len()
        invariant
            i <= rs.len(),
            rs == resources.resources@,
            preferred@ == preferred_categories(role@),
            owned_resources@ == owned_categories(preferred@, rs.take(i as int)),
        decreases rs.len() - i,
    {
        proof {
            assert(rs.take(i + 1).drop_last() =~= rs.take(i as int));
        }
        let c = resources.resources[i].category;
        if contains_category(&preferred, c) && !contains_category(&owned_resources, c) {
            owned_resources.push(c);
        }
        i = i + 1;
    }
    proof {
        assert(rs.take(rs.len() as int) =~= rs);
    }
    owned_resources
}

fn role_matches_owner(role: &str, owner_role: &str) -> (r: bool)
    ensures
        r == role_matches(role@, owner_role@),
{
    if crate::text::str_eq_ic(role, owner_role) {
        return true;
    }
    let role_lower = crate::text::lower_str(role);
    let owner_lower = crate::text::lower_str(owner_role);
    crate::text::str_contains(role_lower.as_str(), owner_lower.as_str())
        || crate::text::str_contains(owner_lower.as_str(), role_lower.as_str())
}

fn resolve_starter_task_ids(role: &str, starter_tasks: &StarterTaskPlan) -> (r: Vec<String>)
    ensures
        strs(r@) == matching_task_ids(role@, task_views(starter_tasks.tasks@)),
{
    let ghost tv = task_views(starter_tasks.tasks@);
    let mut ids: Vec<String> = Vec::new();
    let mut i: usize = 0;
    while i < starter_tasks.tasks.len()
        invariant
            i <= tv.len(),
            tv == task_views(starter_tasks.tasks@),
            strs(ids@) == matching_task_ids(role@, tv.take(i as int)),
        decreases tv.len() - i,
    {
        proof {
            assert(tv.take(i + 1).drop_last() =~= tv.take(i as int));
            assert(tv.take(i + 1).last() == starter_tasks.tasks@[i as int]@);
        }
        let task = &starter_tasks.tasks[i];
        if role_matches_owner(role, task.owner_role.as_str()) {
            let ghost before = ids@;
            ids.push(task.id.clone());
            proof {
                assert(strs(ids@) =~= strs(before).push(task.id@));
            }
        }
        i = i + 1;
    }
    proof {
        assert(tv.take(tv.len() as int) =~= tv);
    }
    ids
}

fn has_ic_exec(list: &Vec<String>, t: &str) -> (r: bool)
    ensures
        r == has_ic(strs(list@), t@),
{
    let mut i: usize = 0;
    while i < list.len()
        invariant
            i <= list@.len(),
            forall|k: int| 0 <= k < i ==> !eq_ic(#[trigger] strs(list@)[k], t@),
        decreases list@.len() - i,
    {
        proof {
            assert(strs(list@)[i as int] == list@[i as int]@);
        }
        if crate::text::str_eq_ic(list[i].as_str(), t) {
            return true;
        }
        i = i + 1;
    }
    false
}

fn step_for_resource(resource: &WorkspaceResource) -> (r: String)
    ensures
        r@ == step_for(*resource),
{
    match &resource.manual_next_step {
        Some(s) => {
            let t = crate::text::trim_string(s);
            if !t.as_str().is_empty() {
                return t;
            }
        },
        None => {},
    }
    crate::text::concat2("Configure ", resource.object_name.as_str())
}

fn resolve_manual_next_steps(
    owned_resources: &Vec<ResourceCategory>,
    resources: &WorkspaceResourcePlan,
) -> (r: Vec<String>)
    ensures
        strs(r@) == manual_steps(owned_resources@, resources.resources@),
{
    let ghost rs = resources.resources@;
    let mut steps: Vec<String> = Vec::new();
    let mut i: usize = 0;
    while i < resources.resources.len()
        invariant
            i <= rs.len(),
            rs == resources.resources@,
            strs(steps@) == manual_steps(owned_resources@, rs.take(i as int)),
        decreases rs.len() - i,
    {
        proof {
            assert(rs.take(i + 1).drop_last() =~= rs.take(i as int));
        }
        let resource = &resources.resources[i];
        if contains_category(owned_resources, resource.category) && resource.state
            != ProvisioningState::Connected {
            let step = step_for_resource(resource);
            if !has_ic_exec(&steps, step.as_str()) {
                let ghost before = steps@;
                steps.push(step);
                proof {
                    assert(strs(steps@) =~= strs(before).push(step_for(rs[i as int])));
                }
            }
        }
        i = i + 1;
    }
    proof {
        assert(rs.take(rs.len() as int) =~= rs);
    }
    steps
}

/// One assignment per non-blank seeded role: the first requested roles (or the
/// founding team of Generalist, Builder, Chief of Staff and GTM Strategist), with
/// owned resources, matching starter tasks and manual steps for unconnected resources.
pub fn build_starter_agent_roster(
    blueprint: &StartupWorkspaceBlueprint,
    resources: &WorkspaceResourcePlan,
    starter_tasks: &StarterTaskPlan,
) -> (plan: AgentRosterPlan)
    ensures
        assignment_views(plan.assignments@) == roster_spec(
            role_seeds(*blueprint),
            resources.resources@,
            task_views(starter_tasks.tasks@),
        ),
{
    let role_requests = seed_role_requests(blueprint);
    let ghost seeds = seed_views(role_requests@);
    let ghost rs = resources.resources@;
    let ghost ts = task_views(starter_tasks.tasks@);
    let mut assignments: Vec<AgentAssignment> = Vec::new();
    let mut index: usize = 0;
    while index < role_requests.len()
        invariant
            index <= seeds.len(),
            seeds == seed_views(role_requests@),
            rs == resources.resources@,
            ts == task_views(starter_tasks.tasks@),
            assignment_views(assignments@) == roster_spec(seeds.take(index as int), rs, ts),
        decreases seeds.len() - index,
    {
        proof {
            assert(seeds.take(index + 1).drop_last() =~= seeds.take(index as int));
            assert(seeds.take(index + 1).last() == seeds[index as int]);
        }
        let (role_raw, owner_override) = &role_requests[index];
        let role = crate::text::trim_string(role_raw);
        if !role.as_str().is_empty() {
            let owner = match owner_override {
                Some(o) => o.clone(),
                None => default_owner_name(role.as_str()),
            };
            let owned_resources = resolve_owned_resources(role.as_str(), resources);
            let starter_task_ids = resolve_starter_task_ids(role.as_str(), starter_tasks);
            let manual_next_steps = resolve_manual_next_steps(&owned_resources, resources);
            let status = if manual_next_steps.len() > 0 {
                AgentAssignmentStatus::ManualSetupRequired
            } else if index == 0 {
                AgentAssignmentStatus::Active
            } else {
                AgentAssignmentStatus::Planned
            };
            let focus = focus_for_role(role.as_str());
            let a = AgentAssignment {
                role,
                owner,
                status,
                focus,
                owned_resources,
                starter_task_ids,
                manual_next_steps,
            };
            let ghost before = assignments@;
            assignments.push(a);
            proof {
                assert(assignment_views(assignments@) =~= assignment_views(before).push(
                    assignment_spec(index as int, seeds[index as int], rs, ts),
                ));
            }
        }
        index = index + 1;
    }
    proof {
        assert(seeds.take(seeds.len() as int) =~= seeds);
    }
    AgentRosterPlan { assignments }
}

} // verus!
