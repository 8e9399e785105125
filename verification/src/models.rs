//! Rows of the local database, as the library reads them.
//!
//! Timestamps are Unix seconds (UTC).

use vstd::prelude::*;

verus! {

/// A provider known to the database.
#[derive(Debug, Clone)]
pub struct DbProvider {
    pub id: String,
    pub kind: String,
    pub last_sync_at: Option<i64>,
    pub config_json: Option<String>,
}

/// A known secret (it may or may not be downloaded locally).
#[derive(Debug, Clone)]
pub struct DbSecret {
    pub id: i64,
    pub provider_id: String,
    pub api_ref: String,
    pub display_name: String,
    pub hash: String,
    pub description: Option<String>,
    pub remote_updated_at: Option<i64>,
    pub created_at: i64,
}

/// One downloaded version of a secret.
#[derive(Debug, Clone)]
pub struct DbDownload {
    pub id: i64,
    pub secret_id: i64,
    pub version: i32,
    /// Path of this version's archive, relative to the secrets directory.
    pub filename: String,
    pub downloaded_at: i64,
    pub file_hash: Option<String>,
    /// Set once the version was synced to its remote provider.
    pub pushed_at: Option<i64>,
}

/// What is needed to create or update a secret row.
#[derive(Debug, Clone)]
pub struct SecretInput {
    pub provider_id: String,
    pub api_ref: String,
    pub display_name: String,
    pub hash: String,
    pub description: Option<String>,
    pub remote_updated_at: Option<i64>,
}

/// An entry of the operation log.
#[derive(Debug, Clone)]
pub struct DbOperation {
    pub id: i64,
    pub operation_type: String,
    pub provider_id: String,
    pub secret_name: String,
    pub details: Option<String>,
    pub created_at: i64,
}

/// An encrypted credential stored for a provider (an access token, a key id, ...).
#[derive(Debug, Clone)]
pub struct StoredCredential {
    pub id: i64,
    pub provider_id: String,
    /// Which credential this is, e.g. `token` or `access_key_id`.
    pub credential_key: String,
    /// The age-encrypted value.
    pub encrypted_value: Vec<u8>,
    /// `passphrase` or `ssh`.
    pub encryption_method: String,
    /// For SSH encryption, the public key the value was encrypted to.
    pub ssh_pubkey_fingerprint: Option<String>,
    pub created_at: i64,
    pub updated_at: i64,
}

} // verus!
