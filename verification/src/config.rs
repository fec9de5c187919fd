//! Service configuration: its fields, its defaults, and the normalised
//! database schema name.

use vstd::prelude::*;
use crate::text::{is_ws, law_trim_blank, trim, trim_str};

verus! {

/// Configuration of the service.
#[derive(Debug, Clone)]
pub struct Settings {
    pub db_host: String,
    pub db_port: u16,
    pub db_name: String,
    pub db_user: String,
    pub db_password: String,
    pub db_max_connections: u32,
    pub db_schema: String,
    pub jwt_secret: String,
    pub jwt_ttl_seconds: i64,
    pub encryption_secret: String,
    pub vexa_api_url: String,
    pub vexa_admin_api_url: String,
    pub vexa_admin_token: String,
    pub host: String,
    pub port: u16,
    pub embedding_api_url: String,
    pub embedding_api_key: String,
    pub embedding_model: String,
    pub qdrant_url: String,
    pub qdrant_api_key: String,
}

/// The schema used when none is configured.
pub open spec fn default_schema() -> Seq<char> {
    seq!['h', 'i', 'v', 'e', 'm', 'i', 'n', 'd']
}

/// The configured schema name with surrounding whitespace removed, or the
/// default schema when nothing but whitespace is configured.
pub open spec fn normalized_schema(configured: Seq<char>) -> Seq<char> {
    if trim(configured).len() == 0 {
        default_schema()
    } else {
        trim(configured)
    }
}

/// The normalised schema is never empty, carries no surrounding
/// whitespace, and normalising it again leaves it unchanged.
pub proof fn law_normalized_schema(configured: Seq<char>)
    ensures
        normalized_schema(configured).len() > 0,
        trim(normalized_schema(configured)) == normalized_schema(configured),
        normalized_schema(normalized_schema(configured)) == normalized_schema(configured),
{
    crate::text::law_trim_idempotent(configured);
    let d = default_schema();
    assert(d.len() == 8);
    assert(!crate::text::is_ws(d[0]) && !crate::text::is_ws(d.last()));
    crate::text::lemma_trim_fixed(d);
}

/// The configured schema is kept, trimmed, whenever it has a
/// non-whitespace character; the default `hivemind` is used only for a
/// blank (empty or all-whitespace) configuration.
pub proof fn law_schema_kept_unless_blank(configured: Seq<char>)
    ensures
        (exists|k: int| 0 <= k < configured.len() && !is_ws(#[trigger] configured[k]))
            ==> normalized_schema(configured) == trim(configured),
        (forall|k: int| 0 <= k < configured.len() ==> is_ws(#[trigger] configured[k]))
            ==> normalized_schema(configured) =~= seq!['h', 'i', 'v', 'e', 'm', 'i', 'n', 'd'],
{
    law_trim_blank(configured);
}

impl Settings {
    /// The database schema to use: the configured one, trimmed, or
    /// `hivemind` when it is blank.
    pub fn normalized_db_schema(&self) -> (r: String)
        ensures
            r@ == normalized_schema(self.db_schema@),
    {
        let schema = trim_str(self.db_schema.as_str());
        if schema.is_empty() {
            let d = String::from_str("hivemind");
            proof {
                reveal_strlit("hivemind");
            }
            d
        } else {
            String::from_str(schema)
        }
    }
}

impl Default for Settings {
    /// The settings used when the environment gives none.
    fn default() -> (s: Self)
        ensures
            s.db_host@ == "supabase-db"@,
            s.db_port == 5432,
            s.db_name@ == "postgres"@,
            s.db_user@ == "postgres"@,
            s.db_password@ == "postgres"@,
            s.db_max_connections == 10,
            s.db_schema@ == "hivemind"@,
            s.jwt_secret@ == "hivemind-secret-change-me"@,
            s.jwt_ttl_seconds == 30 * 24 * 60 * 60,
            s.encryption_secret@ == "hivemind-encryption-secret-change-me"@,
            s.vexa_api_url@ == "http://vexa-api-gateway:8000"@,
            s.vexa_admin_api_url@ == "http://vexa-admin-api:8001"@,
            s.vexa_admin_token@ == Seq::<char>::empty(),
            s.host@ == "0.0.0.0"@,
            s.port == 9100,
            s.embedding_api_url@ == "https://openrouter.ai/api/v1/embeddings"@,
            s.embedding_api_key@ == Seq::<char>::empty(),
            s.embedding_model@ == "openai/text-embedding-3-small"@,
            s.qdrant_url@ == "http://localhost:6334"@,
            s.qdrant_api_key@ == Seq::<char>::empty(),
    {
        Settings {
            db_host: String::from_str("supabase-db"),
            db_port: 5432,
            db_name: String::from_str("postgres"),
            db_user: String::from_str("postgres"),
            db_password: String::from_str("postgres"),
            db_max_connections: 10,
            db_schema: String::from_str("hivemind"),
            jwt_secret: String::from_str("hivemind-secret-change-me"),
            jwt_ttl_seconds: 30 * 24 * 60 * 60,
            encryption_secret: String::from_str("hivemind-encryption-secret-change-me"),
            vexa_api_url: String::from_str("http://vexa-api-gateway:8000"),
            vexa_admin_api_url: String::from_str("http://vexa-admin-api:8001"),
            vexa_admin_token: String::new(),
            host: String::from_str("0.0.0.0"),
            port: 9100,
            embedding_api_url: String::from_str("https://openrouter.ai/api/v1/embeddings"),
            embedding_api_key: String::new(),
            embedding_model: String::from_str("openai/text-embedding-3-small"),
            qdrant_url: String::from_str("http://localhost:6334"),
            qdrant_api_key: String::new(),
        }
    }
}

} // verus!
