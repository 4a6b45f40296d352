//! Pull-request triage: deterministic policy checks, decision rules, billing
//! taxonomy, job queue and webhook handling, with their behaviour stated as
//! contracts.

pub mod agent;
pub mod anthropic;
pub mod autumn;
pub mod config;
pub mod error;
pub mod github;
pub mod json;
pub mod policy;
pub mod pr;
pub mod prompts;
pub mod routes;
pub mod score;
pub mod server_config;
pub mod smoke;
pub mod store;
pub mod text;
pub mod time;
pub mod triage;
pub mod webhook;
pub mod wire;
pub mod worker;
