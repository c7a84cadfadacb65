use scheduler_module::domain::agent_roster::{build_starter_agent_roster, AgentAssignmentStatus};
use scheduler_module::domain::artifact_queue::{build_initial_artifact_queue, ArtifactQueueStatus};
use scheduler_module::domain::resource_model::{ProvisioningState, ResourceCategory, WorkspaceResource, WorkspaceResourcePlan};
use scheduler_module::domain::starter_tasks::{build_starter_task_plan, StarterTask, StarterTaskPlan, StarterTaskStatus};
use scheduler_module::domain::workspace_blueprint::{
    AgentRoleRequest, BlueprintValidationError, StackSnapshot, StartupWorkspaceBlueprint,
};

#[test]
fn defaults_to_founding_team_roster_when_no_roles_requested() {
    let blueprint = StartupWorkspaceBlueprint::default();
    let resources = WorkspaceResourcePlan::default();
    let starter_tasks = StarterTaskPlan::default();
    let roster = build_starter_agent_roster(&blueprint, &resources, &starter_tasks);
    assert_eq!(roster.assignments.len(), 4);
    assert_eq!(roster.assignments[0].role, "Generalist");
}

#[test]
fn uses_requested_agent_owner_and_manual_steps() {
    let blueprint = StartupWorkspaceBlueprint {
        requested_agents: vec![AgentRoleRequest { role: "Builder".to_string(), owner: Some("Founder".to_string()) }],
        ..StartupWorkspaceBlueprint::default()
    };
    let mut resources = WorkspaceResourcePlan::default();
    resources.add(
        ResourceCategory::BuildSystem,
        "github",
        "GitHub",
        ProvisioningState::AvailableButNotConfigured,
        Some("Repository execution workflows need connection.".to_string()),
        Some("Connect GitHub and approve repository scope.".to_string()),
    );
    let starter_tasks = StarterTaskPlan {
        tasks: vec![StarterTask {
            id: "task_repo_connect".to_string(),
            title: "Connect repository".to_string(),
            owner_role: "Builder".to_string(),
            status: StarterTaskStatus::ManualStepRequired,
            rationale: "Required before run-task execution.".to_string(),
            depends_on: vec![],
        }],
    };
    let roster = build_starter_agent_roster(&blueprint, &resources, &starter_tasks);
    let builder = roster
        .assignments
        .iter()
        .find(|assignment| assignment.role == "Builder")
        .expect("builder assignment should exist");
    assert_eq!(builder.owner, "Founder");
    assert_eq!(builder.status, AgentAssignmentStatus::ManualSetupRequired);
    assert!(builder.manual_next_steps.iter().any(|step| step.contains("Connect GitHub")));
    assert!(builder.starter_task_ids.iter().any(|task_id| task_id == "task_repo_connect"));
}

#[test]
fn includes_goal_briefs_from_blueprint() {
    let blueprint = StartupWorkspaceBlueprint {
        goals_30_90_days: vec!["Launch alpha".to_string(), "Ship onboarding".to_string()],
        ..StartupWorkspaceBlueprint::default()
    };
    let plan = build_initial_artifact_queue(&blueprint, &StarterTaskPlan::default());
    assert!(plan.artifacts.iter().any(|artifact| artifact.title == "Goal brief: Launch alpha"));
    assert!(plan.artifacts.iter().any(|artifact| artifact.title == "Goal brief: Ship onboarding"));
}

#[test]
fn includes_manual_checklist_when_manual_tasks_exist() {
    let starter_tasks = StarterTaskPlan {
        tasks: vec![StarterTask {
            id: "task_repo_connect".to_string(),
            title: "Connect repository".to_string(),
            owner_role: "Founder".to_string(),
            status: StarterTaskStatus::ManualStepRequired,
            rationale: "Required for build workflows".to_string(),
            depends_on: vec![],
        }],
    };
    let plan = build_initial_artifact_queue(&StartupWorkspaceBlueprint::default(), &starter_tasks);
    assert!(plan.artifacts.iter().any(|artifact| {
        artifact.id == "artifact_manual_checklist_task_repo_connect" && artifact.status == ArtifactQueueStatus::PendingReview
    }));
}

#[test]
fn artifact_ids_are_unique_ignoring_case() {
    let blueprint = StartupWorkspaceBlueprint {
        goals_30_90_days: vec!["Launch alpha".to_string(), "launch ALPHA".to_string()],
        ..StartupWorkspaceBlueprint::default()
    };
    let plan = build_initial_artifact_queue(&blueprint, &StarterTaskPlan::default());
    for (i, a) in plan.artifacts.iter().enumerate() {
        for b in plan.artifacts.iter().skip(i + 1) {
            assert!(!a.id.eq_ignore_ascii_case(&b.id));
        }
    }
}

#[test]
fn includes_manual_repo_task_when_repo_not_connected() {
    let blueprint = StartupWorkspaceBlueprint::default();
    let plan = build_starter_task_plan(&blueprint);
    assert!(plan
        .tasks
        .iter()
        .any(|task| task.id == "task_repo_connect" && task.status == StarterTaskStatus::ManualStepRequired));
}

#[test]
fn uses_requested_agent_as_default_owner() {
    let blueprint = StartupWorkspaceBlueprint {
        requested_agents: vec![AgentRoleRequest { role: "Builder".to_string(), owner: Some("Founder".to_string()) }],
        stack: StackSnapshot {
            has_existing_repo: true,
            primary_repo_provider: Some("github".to_string()),
            has_docs_workspace: false,
        },
        preferred_channels: vec!["Slack".to_string()],
        ..StartupWorkspaceBlueprint::default()
    };
    let plan = build_starter_task_plan(&blueprint);
    let workspace_brief_task =
        plan.tasks.iter().find(|task| task.id == "task_workspace_brief").expect("workspace brief task should exist");
    assert_eq!(workspace_brief_task.owner_role, "Builder");
    assert!(plan.tasks.iter().any(|task| task.id == "task_repo_bootstrap"));
}

#[test]
fn normalize_trims_and_deduplicates_lists() {
    let normalized = StartupWorkspaceBlueprint {
        goals_30_90_days: vec![" Launch beta ".into(), "launch beta".into(), "".into()],
        current_assets: vec!["Deck".into(), " deck ".into()],
        preferred_channels: vec![" Slack ".into(), "slack".into()],
        requested_agents: vec![AgentRoleRequest { role: " CTO ".into(), owner: Some(" founder ".into()) }],
        ..StartupWorkspaceBlueprint::default()
    }
    .normalize();
    assert_eq!(normalized.goals_30_90_days, vec!["Launch beta"]);
    assert_eq!(normalized.current_assets, vec!["Deck"]);
    assert_eq!(normalized.preferred_channels, vec!["Slack"]);
    assert_eq!(normalized.requested_agents[0].role, "CTO");
    assert_eq!(normalized.requested_agents[0].owner.as_deref(), Some("founder"));
}

#[test]
fn normalize_twice_is_normalize_once() {
    let once = StartupWorkspaceBlueprint {
        goals_30_90_days: vec![" A ".into(), "a".into(), " B".into()],
        plan_horizon_days: 400,
        ..StartupWorkspaceBlueprint::default()
    }
    .normalize();
    let twice = once.clone().normalize();
    assert_eq!(once, twice);
    assert_eq!(once.plan_horizon_days, 90);
    assert_eq!(once.goals_30_90_days, vec!["A", "B"]);
}

#[test]
fn validate_requires_core_fields() {
    let mut blueprint = StartupWorkspaceBlueprint::default();
    blueprint.founder.name = "Founder".into();
    blueprint.venture.thesis = "Build an AI operations partner".into();
    blueprint.goals_30_90_days = vec!["Get 3 design partners".into()];
    assert!(blueprint.validate().is_ok());
    blueprint.goals_30_90_days.clear();
    assert_eq!(blueprint.validate(), Err(BlueprintValidationError::MissingGoals));
}

#[test]
fn validate_reports_each_missing_field() {
    let mut blueprint = StartupWorkspaceBlueprint::default();
    assert_eq!(blueprint.validate(), Err(BlueprintValidationError::MissingFounderName));
    blueprint.founder.name = "F".into();
    assert_eq!(blueprint.validate(), Err(BlueprintValidationError::MissingVentureThesis));
    blueprint.venture.thesis = "T".into();
    blueprint.plan_horizon_days = 10;
    assert_eq!(blueprint.validate(), Err(BlueprintValidationError::InvalidPlanHorizon { days: 10 }));
}

#[test]
fn resource_plan_keeps_one_resource_per_slot() {
    let mut plan = WorkspaceResourcePlan::new();
    let r = WorkspaceResource {
        category: ResourceCategory::TaskBoard,
        provider: "linear".to_string(),
        object_name: "Board".to_string(),
        state: ProvisioningState::Connected,
        note: None,
        manual_next_step: None,
    };
    plan.push_unique(r.clone());
    plan.push_unique(r.clone());
    assert_eq!(plan.resources.len(), 1);
    plan.add(ResourceCategory::TaskBoard, "linear", "Other", ProvisioningState::Blocked, None, None);
    assert_eq!(plan.resources.len(), 1);
    plan.add(ResourceCategory::TaskBoard, "jira", "Other", ProvisioningState::Blocked, None, None);
    assert_eq!(plan.resources.len(), 2);
}
