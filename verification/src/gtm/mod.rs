//! Go-to-market agents: the decisions each agent takes on its inputs.

pub mod ids;
pub mod contracts;
pub mod common;
pub mod phase1;
pub mod mode_a;
pub mod phase2;
pub mod phase3;
pub mod hubspot;
