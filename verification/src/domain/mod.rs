//! Startup workspace planning: blueprint intake, resources, starter tasks,
//! artifact queue and agent roster.

pub mod resource_model;
pub mod workspace_blueprint;
pub mod starter_tasks;
pub mod artifact_queue;
pub mod agent_roster;
