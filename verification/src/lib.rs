//! Verified core of the Hivemind companion backend: configuration defaults,
//! transcript chunking, knowledge-search result assembly, request
//! authentication and the decision logic of the sign-up / sign-in flows.

pub mod text;
pub mod config;
pub mod ids;
pub mod models;
pub mod auth;
pub mod auth_laws;
pub mod middleware;
pub mod vexa;
pub mod knowledge;
