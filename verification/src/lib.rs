//! jaws: secrets-manager logic with verified contracts.

pub mod archive;
pub mod clean;
pub mod cli;
pub mod client;
pub mod config;
pub mod credentials;
pub mod deletion;
pub mod discovery;
pub mod enroll;
pub mod error;
pub mod fingerprint;
pub mod hcl_doc;
pub mod keychain;
pub mod listings;
pub mod models;
pub mod outcomes;
pub mod paths;
pub mod refs;
pub mod remote;
pub mod template;
pub mod text;
pub mod textops;
pub mod versions;
pub mod report;
pub mod setup;
