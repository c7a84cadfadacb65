//! The founder's intake blueprint for a startup workspace.

use vstd::prelude::*;
use crate::text::{eq_ic, opt_str, strs, trim};

verus! {

/// Schema version stamped on every normalized blueprint.
pub const WORKSPACE_BLUEPRINT_SCHEMA_VERSION: &'static str = "2026-03-13";

/// Founder intake for a new startup workspace.
#[derive(Debug, Clone, PartialEq, Eq)]
pub struct StartupWorkspaceBlueprint {
    pub schema_version: String,
    pub founder: FounderProfile,
    pub venture: VentureProfile,
    pub plan_horizon_days: u16,
    pub goals_30_90_days: Vec<String>,
    pub current_assets: Vec<String>,
    pub preferred_channels: Vec<String>,
    pub stack: StackSnapshot,
    pub requested_agents: Vec<AgentRoleRequest>,
}

#[derive(Debug, Clone, PartialEq, Eq)]
pub struct FounderProfile {
    pub name: String,
    pub email: String,
}

#[derive(Debug, Clone, PartialEq, Eq)]
pub struct VentureProfile {
    pub name: String,
    pub thesis: String,
    pub stage: Option<String>,
}

#[derive(Debug, Clone, PartialEq, Eq)]
pub struct StackSnapshot {
    pub has_existing_repo: bool,
    pub primary_repo_provider: Option<String>,
    pub has_docs_workspace: bool,
}

#[derive(Debug, Clone, PartialEq, Eq)]
pub struct AgentRoleRequest {
    pub role: String,
    pub owner: Option<String>,
}

/// Why a blueprint is not ready to plan from.
#[derive(Debug, Clone, Copy, PartialEq, Eq, Structural)]
pub enum BlueprintValidationError {
    MissingFounderName,
    MissingVentureThesis,
    MissingGoals,
    InvalidPlanHorizon { days: u16 },
}

impl Default for FounderProfile {
    fn default() -> (r: Self)
        ensures
            r.name@.len() == 0,
            r.email@.len() == 0,
    {
        FounderProfile { name: String::new(), email: String::new() }
    }
}

impl Default for VentureProfile {
    fn default() -> (r: Self)
        ensures
            r.name@.len() == 0,
            r.thesis@.len() == 0,
            r.stage is None,
    {
        VentureProfile { name: String::new(), thesis: String::new(), stage: None }
    }
}

impl Default for StackSnapshot {
    fn default() -> (r: Self)
        ensures
            !r.has_existing_repo,
            r.primary_repo_provider is None,
            !r.has_docs_workspace,
    {
        StackSnapshot {
            has_existing_repo: false,
            primary_repo_provider: None,
            has_docs_workspace: false,
        }
    }
}

impl Default for AgentRoleRequest {
    fn default() -> (r: Self)
        ensures
            r.role@.len() == 0,
            r.owner is None,
    {
        AgentRoleRequest { role: String::new(), owner: None }
    }
}

impl Default for StartupWorkspaceBlueprint {
    fn default() -> (r: Self)
        ensures
            r.schema_version@ == WORKSPACE_BLUEPRINT_SCHEMA_VERSION@,
            r.founder.name@.len() == 0,
            r.founder.email@.len() == 0,
            r.venture.name@.len() == 0,
            r.venture.thesis@.len() == 0,
            r.venture.stage is None,
            r.plan_horizon_days == 30,
            r.goals_30_90_days@.len() == 0,
            r.current_assets@.len() == 0,
            r.preferred_channels@.len() == 0,
            !r.stack.has_existing_repo,
            r.stack.primary_repo_provider is None,
            !r.stack.has_docs_workspace,
            r.requested_agents@.len() == 0,
    {
        StartupWorkspaceBlueprint {
            schema_version: crate::text::owned(WORKSPACE_BLUEPRINT_SCHEMA_VERSION),
            founder: FounderProfile::default(),
            venture: VentureProfile::default(),
            plan_horizon_days: 30,
            goals_30_90_days: Vec::new(),
            current_assets: Vec::new(),
            preferred_channels: Vec::new(),
            stack: StackSnapshot::default(),
            requested_agents: Vec::new(),
        }
    }
}

/// Some entry of `list` equals `t` ignoring ASCII case.
pub open spec fn has_ic(list: Seq<Seq<char>>, t: Seq<char>) -> bool {
    exists|k: int| 0 <= k < list.len() && eq_ic(#[trigger] list[k], t)
}

/// Trimmed, non-empty entries, keeping the first of entries equal ignoring ASCII case.
pub open spec fn normalize_list(values: Seq<Seq<char>>) -> Seq<Seq<char>>
    decreases values.len(),
{
    if values.len() == 0 {
        Seq::empty()
    } else {
        let prev = normalize_list(values.drop_last());
        let t = trim(values.last());
        if t.len() == 0 || has_ic(prev, t) {
            prev
        } else {
            prev.push(t)
        }
    }
}

/// A list as `normalize_list` leaves it: entries trimmed and non-empty, no
/// two equal ignoring ASCII case.
pub open spec fn list_normalized(u: Seq<Seq<char>>) -> bool {
    &&& forall|i: int| 0 <= i < u.len() ==> trim(#[trigger] u[i]) == u[i] && u[i].len() > 0
    &&& forall|i: int, j: int| 0 <= i < j < u.len() ==> !eq_ic(#[trigger] u[i], #[trigger] u[j])
}

proof fn lemma_normalize_list_normalized(values: Seq<Seq<char>>)
    ensures
        list_normalized(normalize_list(values)),
    decreases values.len(),
{
    if values.len() > 0 {
        lemma_normalize_list_normalized(values.drop_last());
        crate::text::lemma_trim_idempotent(values.last());
        let prev = normalize_list(values.drop_last());
        let t = trim(values.last());
        if !(t.len() == 0 || has_ic(prev, t)) {
            let u = prev.push(t);
            assert forall|i: int, j: int| 0 <= i < j < u.len() implies !eq_ic(#[trigger] u[i], #[trigger] u[j]) by {
                if j == prev.len() {
                    assert(!eq_ic(prev[i], t));
                }
            }
        }
    }
}

proof fn lemma_normalized_list_fixed(u: Seq<Seq<char>>)
    requires
        list_normalized(u),
    ensures
        normalize_list(u) == u,
    decreases u.len(),
{
    if u.len() > 0 {
        let p = u.drop_last();
        assert(list_normalized(p)) by {
            assert forall|i: int, j: int| 0 <= i < j < p.len() implies !eq_ic(#[trigger] p[i], #[trigger] p[j]) by {
                assert(p[i] == u[i] && p[j] == u[j]);
            }
        }
        lemma_normalized_list_fixed(p);
        let t = u.last();
        assert(!has_ic(p, t)) by {
            if has_ic(p, t) {
                let k = choose|k: int| 0 <= k < p.len() && eq_ic(#[trigger] p[k], t);
                assert(!eq_ic(u[k], u[u.len() - 1]));
            }
        }
        assert(p.push(t) =~= u);
    }
}

/// Normalizing a list a second time changes nothing.
pub proof fn lemma_normalize_list_idempotent(values: Seq<Seq<char>>)
    ensures
        normalize_list(normalize_list(values)) == normalize_list(values),
{
    lemma_normalize_list_normalized(values);
    lemma_normalized_list_fixed(normalize_list(values));
}

/// `plan_horizon_days` clamped to 30..=90.
pub open spec fn clamp_horizon(d: u16) -> u16 {
    if d < 30 {
        30
    } else if d > 90 {
        90
    } else {
        d
    }
}

/// A role request with role and owner trimmed.
pub open spec fn role_request_normalized(r: AgentRoleRequest, n: AgentRoleRequest) -> bool {
    &&& n.role@ == trim(r.role@)
    &&& opt_str(n.owner) == match r.owner {
        Some(o) => Some(trim(o@)),
        None => None::<Seq<char>>,
    }
}

/// What `validate` answers for a blueprint.
pub open spec fn validation_result(b: StartupWorkspaceBlueprint) -> Result<(), BlueprintValidationError> {
    if trim(b.founder.name@).len() == 0 {
        Err(BlueprintValidationError::MissingFounderName)
    } else if trim(b.venture.thesis@).len() == 0 {
        Err(BlueprintValidationError::MissingVentureThesis)
    } else if !(30 <= b.plan_horizon_days <= 90) {
        Err(BlueprintValidationError::InvalidPlanHorizon { days: b.plan_horizon_days })
    } else if b.goals_30_90_days@.len() == 0 {
        Err(BlueprintValidationError::MissingGoals)
    } else {
        Ok(())
    }
}

impl AgentRoleRequest {
    fn normalize(&self) -> (r: Self)
        ensures
            role_request_normalized(*self, r),
    {
        let role = crate::text::trim_string(&self.role);
        let owner = match &self.owner {
            Some(o) => Some(crate::text::trim_string(o)),
            None => None,
        };
        AgentRoleRequest { role, owner }
    }
}

/// Trims every entry, drops empty ones and keeps the first of case-insensitive duplicates.
fn normalize_string_list(values: Vec<String>) -> (out: Vec<String>)
    ensures
        strs(out@) == normalize_list(strs(values@)),
{
    let ghost vs = strs(values@);
    let mut output: Vec<String> = Vec::new();
    let mut i: usize = 0;
    while i < values.len()
        invariant
            i <= values@.len(),
            vs == strs(values@),
            strs(output@) == normalize_list(vs.take(i as int)),
        decreases values@.len() - i,
    {
        let trimmed = crate::text::trim_string(&values[i]);
        proof {
            assert(vs.take(i + 1).drop_last() =~= vs.take(i as int));
            assert(vs.take(i + 1).last() == values@[i as int]@);
        }
        if !trimmed.as_str().is_empty() {
            let mut found = false;
            let mut k: usize = 0;
            while k < output.len()
                invariant
                    k <= output@.len(),
                    found == exists|m: int| 0 <= m < k && eq_ic(#[trigger] strs(output@)[m], trimmed@),
                decreases output@.len() - k,
            {
                proof {
                    assert(strs(output@)[k as int] == output@[k as int]@);
                }
                if crate::text::str_eq_ic(output[k].as_str(), trimmed.as_str()) {
                    found = true;
                }
                k = k + 1;
            }
            proof {
                assert(trimmed@.len() != 0);
            }
            if !found {
                let ghost before = output@;
                output.push(trimmed);
                proof {
                    assert(strs(output@) =~= strs(before).push(trim(vs[i as int])));
                }
            }
        } else {
            proof {
                assert(trimmed@.len() == 0);
            }
        }
        i = i + 1;
    }
    proof {
        assert(vs.take(values@.len() as int) =~= vs);
    }
    output
}

impl StartupWorkspaceBlueprint {
    /// Trims names and thesis, normalizes lists and role requests, stamps the
    /// schema version and clamps the plan horizon to 30..=90 days.
    pub fn normalize(self) -> (r: Self)
        ensures
            r.schema_version@ == WORKSPACE_BLUEPRINT_SCHEMA_VERSION@,
            r.founder.name@ == trim(self.founder.name@),
            r.founder.email@ == trim(self.founder.email@),
            r.venture.name@ == trim(self.venture.name@),
            r.venture.thesis@ == trim(self.venture.thesis@),
            r.venture.stage == self.venture.stage,
            r.plan_horizon_days == clamp_horizon(self.plan_horizon_days),
            strs(r.goals_30_90_days@) == normalize_list(strs(self.goals_30_90_days@)),
            strs(r.current_assets@) == normalize_list(strs(self.current_assets@)),
            strs(r.preferred_channels@) == normalize_list(strs(self.preferred_channels@)),
            r.stack == self.stack,
            r.requested_agents@.len() == self.requested_agents@.len(),
            forall|i: int|
                0 <= i < r.requested_agents@.len() ==> role_request_normalized(
                    self.requested_agents@[i],
                    #[trigger] r.requested_agents@[i],
                ),
    {
        let StartupWorkspaceBlueprint {
            schema_version: _,
            founder,
            venture,
            plan_horizon_days,
            goals_30_90_days,
            current_assets,
            preferred_channels,
            stack,
            requested_agents,
        } = self;
        let founder = FounderProfile {
            name: crate::text::trim_string(&founder.name),
            email: crate::text::trim_string(&founder.email),
        };
        let venture = VentureProfile {
            name: crate::text::trim_string(&venture.name),
            thesis: crate::text::trim_string(&venture.thesis),
            stage: venture.stage,
        };
        let mut agents: Vec<AgentRoleRequest> = Vec::new();
        let mut i: usize = 0;
        while i < requested_agents.len()
            invariant
                i <= requested_agents@.len(),
                agents@.len() == i,
                forall|k: int|
                    0 <= k < i ==> role_request_normalized(
                        requested_agents@[k],
                        #[trigger] agents@[k],
                    ),
            decreases requested_agents@.len() - i,
        {
            let n = requested_agents[i].normalize();
            agents.push(n);
            i = i + 1;
        }
        let mut days = plan_horizon_days;
        if days < 30 {
            days = 30;
        }
        if days > 90 {
            days = 90;
        }
        StartupWorkspaceBlueprint {
            schema_version: crate::text::owned(WORKSPACE_BLUEPRINT_SCHEMA_VERSION),
            founder,
            venture,
            plan_horizon_days: days,
            goals_30_90_days: normalize_string_list(goals_30_90_days),
            current_assets: normalize_string_list(current_assets),
            preferred_channels: normalize_string_list(preferred_channels),
            stack,
            requested_agents: agents,
        }
    }

    /// Checks founder name, venture thesis, plan horizon and goals, in that order.
    pub fn validate(&self) -> (r: Result<(), BlueprintValidationError>)
        ensures
            r == validation_result(*self),
    {
        if crate::text::is_blank(self.founder.name.as_str()) {
            return Err(BlueprintValidationError::MissingFounderName);
        }
        if crate::text::is_blank(self.venture.thesis.as_str()) {
            return Err(BlueprintValidationError::MissingVentureThesis);
        }
        if !(30 <= self.plan_horizon_days && self.plan_horizon_days <= 90) {
            return Err(BlueprintValidationError::InvalidPlanHorizon { days: self.plan_horizon_days });
        }
        if self.goals_30_90_days.len() == 0 {
            return Err(BlueprintValidationError::MissingGoals);
        }
        Ok(())
    }
}

} // verus!
