//! Workspace resources that a startup workspace can be provisioned with.

use vstd::prelude::*;

verus! {

/// Kind of workspace resource.
#[derive(Debug, Clone, Copy, PartialEq, Eq, Hash, Structural)]
pub enum ResourceCategory {
    WorkspaceHome,
    KnowledgeHubStructured,
    FormalDocs,
    BuildSystem,
    ExternalExecution,
    CoordinationLayer,
    PublishPresence,
    AgentRoster,
    TaskBoard,
    ArtifactQueue,
    ApprovalPolicy,
}

/// How far a resource has been provisioned.
#[derive(Debug, Clone, Copy, PartialEq, Eq, Structural)]
pub enum ProvisioningState {
    Connected,
    AvailableButNotConfigured,
    PlannedManual,
    Blocked,
}

/// One resource of the workspace.
#[derive(Debug, Clone, PartialEq, Eq)]
pub struct WorkspaceResource {
    pub category: ResourceCategory,
    pub provider: String,
    pub object_name: String,
    pub state: ProvisioningState,
    pub note: Option<String>,
    pub manual_next_step: Option<String>,
}

/// The resources of a workspace.
#[derive(Debug, Clone, PartialEq, Eq)]
pub struct WorkspaceResourcePlan {
    pub resources: Vec<WorkspaceResource>,
}

/// Two resources are duplicates when they share category and provider.
pub open spec fn same_slot(a: WorkspaceResource, b: WorkspaceResource) -> bool {
    a.category == b.category && a.provider@ == b.provider@
}

/// Some resource of `rs` has this category and provider.
pub open spec fn slot_taken(rs: Seq<WorkspaceResource>, category: ResourceCategory, provider: Seq<char>) -> bool {
    exists|i: int| 0 <= i < rs.len() && (#[trigger] rs[i]).category == category && rs[i].provider@ == provider
}

/// Some resource of `rs` occupies the slot of `r`.
pub open spec fn has_slot(rs: Seq<WorkspaceResource>, r: WorkspaceResource) -> bool {
    slot_taken(rs, r.category, r.provider@)
}

/// Once a resource has been added its slot is taken, so adding it again
/// leaves the plan as it is.
pub proof fn lemma_added_slot_taken(rs: Seq<WorkspaceResource>, r: WorkspaceResource)
    ensures
        has_slot(rs.push(r), r),
{
    assert(rs.push(r)[rs.len() as int] == r);
}

impl Default for WorkspaceResourcePlan {
    fn default() -> (r: Self)
        ensures
            r.resources@.len() == 0,
    {
        WorkspaceResourcePlan { resources: Vec::new() }
    }
}

impl WorkspaceResourcePlan {
    /// No two resources share category and provider.
    pub open spec fn wf(&self) -> bool {
        forall|i: int, j: int|
            0 <= i < j < self.resources@.len() ==> !same_slot(
                #[trigger] self.resources@[i],
                #[trigger] self.resources@[j],
            )
    }

    /// An empty plan.
    pub fn new() -> (p: Self)
        ensures
            p.resources@.len() == 0,
            p.wf(),
    {
        WorkspaceResourcePlan { resources: Vec::new() }
    }

    /// Adds `resource` unless a resource with the same category and provider exists.
    pub fn push_unique(&mut self, resource: WorkspaceResource)
        ensures
            has_slot(old(self).resources@, resource) ==> final(self).resources@ == old(
                self,
            ).resources@,
            !has_slot(old(self).resources@, resource) ==> final(self).resources@ == old(
                self,
            ).resources@.push(resource),
            old(self).wf() ==> final(self).wf(),
    {
        let mut i: usize = 0;
        let mut duplicate = false;
        while i < self.resources.len()
            invariant
                i <= self.resources@.len(),
                duplicate == exists|k: int| 0 <= k < i && same_slot(#[trigger] self.resources@[k], resource),
            decreases self.resources@.len() - i,
        {
            let existing = &self.resources[i];
            if existing.category == resource.category && crate::text::str_eq(
                existing.provider.as_str(),
                resource.provider.as_str(),
            ) {
                duplicate = true;
            }
            i = i + 1;
        }
        if !duplicate {
            self.resources.push(resource);
        }
    }

    /// Records a resource from its parts, unless its slot is already taken.
    pub fn add(
        &mut self,
        category: ResourceCategory,
        provider: &str,
        object_name: &str,
        state: ProvisioningState,
        note: Option<String>,
        manual_next_step: Option<String>,
    )
        ensures
            slot_taken(old(self).resources@, category, provider@) ==> final(self).resources@
                == old(self).resources@,
            !slot_taken(old(self).resources@, category, provider@) ==> {
                let r = final(self).resources@.last();
                &&& final(self).resources@ == old(self).resources@.push(r)
                &&& r.category == category
                &&& r.provider@ == provider@
                &&& r.object_name@ == object_name@
                &&& r.state == state
                &&& r.note == note
                &&& r.manual_next_step == manual_next_step
            },
            old(self).wf() ==> final(self).wf(),
    {
        let resource = WorkspaceResource {
            category,
            provider: crate::text::owned(provider),
            object_name: crate::text::owned(object_name),
            state,
            note,
            manual_next_step,
        };
        self.push_unique(resource);
    }
}

} // verus!
