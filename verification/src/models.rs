//! Stored records, with identifiers held as 128-bit UUID values and times
//! in milliseconds since the Unix epoch.

use vstd::prelude::*;
use crate::knowledge::ChunkMetadata;

verus! {

/// A company (tenant).
#[derive(Debug, Clone, PartialEq, Eq)]
pub struct Company {
    pub id: u128,
    pub name: String,
    pub slug: String,
    pub created_at: i64,
    pub updated_at: i64,
}

/// A user account.
#[derive(Debug, Clone, PartialEq, Eq)]
pub struct User {
    pub id: u128,
    pub email: String,
    pub name: String,
    pub password_hash: String,
    pub created_at: i64,
}

/// A user's membership in a company, with the user's role there.
#[derive(Debug, Clone, PartialEq, Eq)]
pub struct CompanyMember {
    pub id: u128,
    pub company_id: u128,
    pub user_id: u128,
    pub role: String,
    pub joined_at: i64,
}

/// An invitation of an email address to join a company with a role.
#[derive(Debug, Clone, PartialEq, Eq)]
pub struct CompanyInvite {
    pub id: u128,
    pub company_id: u128,
    pub email: String,
    pub role: String,
    pub created_at: i64,
    pub used_at: Option<i64>,
}

/// An issued session token.
#[derive(Debug, Clone, PartialEq, Eq)]
pub struct AuthToken {
    pub token: String,
    pub user_id: u128,
    pub company_id: u128,
    pub created_at: i64,
    pub expires_at: i64,
}

/// A stored knowledge chunk: a piece of meeting text with where it comes
/// from, the metadata of its vector document, and its embedding as JSON
/// text when one is stored with it.
#[derive(Debug, Clone, PartialEq, Eq)]
pub struct KnowledgeChunk {
    pub id: u128,
    pub meeting_id: u128,
    pub segment_id: Option<u128>,
    pub text: String,
    pub speaker: Option<String>,
    pub timestamp: Option<i64>,
    pub chunk_type: String,
    pub embedding: Option<String>,
    pub metadata: ChunkMetadata,
    pub created_at: i64,
}

/// A member's key for a model provider, stored encrypted.
#[derive(Debug, Clone, PartialEq, Eq)]
pub struct MemberApiKey {
    pub id: u128,
    pub company_id: u128,
    pub user_id: u128,
    pub provider: String,
    pub key_encrypted: String,
    pub ollama_url: Option<String>,
    pub created_at: i64,
    pub updated_at: i64,
}

/// A company's model configuration; `allowed_models` is JSON text.
#[derive(Debug, Clone, PartialEq, Eq)]
pub struct CompanyConfig {
    pub company_id: u128,
    pub allowed_models: String,
    pub default_provider: String,
    pub default_model: String,
    pub hivemind_enabled: bool,
    pub updated_at: i64,
}

/// A recorded meeting; `participants` is JSON text.
#[derive(Debug, Clone, PartialEq, Eq)]
pub struct Meeting {
    pub id: u128,
    pub company_id: u128,
    pub title: String,
    pub date: i64,
    pub duration_seconds: i32,
    pub participants: String,
    pub summary: Option<String>,
    pub created_at: i64,
    pub vexa_meeting_id: Option<i32>,
    pub vexa_platform: Option<String>,
    pub vexa_native_meeting_id: Option<String>,
}

/// Tokens used by one model call of a session.
#[derive(Debug, Clone, PartialEq, Eq)]
pub struct TokenUsage {
    pub id: u128,
    pub company_id: u128,
    pub user_id: u128,
    pub session_id: String,
    pub model: String,
    pub provider: String,
    pub input_tokens: i64,
    pub output_tokens: i64,
    pub cost_cents: i32,
    pub recorded_at: i64,
}

} // verus!
