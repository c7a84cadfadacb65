//! Verified core of the scheduler service: text handling, memo diffs,
//! workspace planning, inbound routing and webhook verification.

pub mod text;
pub mod domain;
pub mod memory_diff;
pub mod channel;
pub mod ingestion;
pub mod gateway;
pub mod digest;
pub mod order;
pub mod webhook;
pub mod number;
pub mod message_router;
pub mod mongo_store;
pub mod github_inbound;
pub mod google_auth;
pub mod google_drive_changes;
pub mod google_workspace_poller;
pub mod notion_webhook;
pub mod cli_args;
pub mod env_alias;
pub mod fanout;
pub mod collaboration_store;
pub mod discord_gateway;
pub mod index_store;
pub mod memory_queue;
pub mod ingestion_queue;
pub mod blob_store;
pub mod gtm;
