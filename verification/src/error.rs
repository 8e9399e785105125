//! The error type of the library.
//!
//! Errors that come from I/O, the database or JSON carry the text that the
//! underlying error displays.

use vstd::prelude::*;
use crate::config::owned;
use crate::text::{chars_of, contains, has_substring, push_str, string_from};

verus! {

/// Every error the library reports.
pub enum JawsError {
    /// Filesystem or I/O failure (its message).
    Io(String),
    /// Database failure (its message).
    Db(String),
    /// JSON serialization failure (its message).
    Json(String),
    /// Configuration file error.
    Config(String),
    /// An error from a secrets provider.
    Provider { provider: String, message: String },
    /// Encryption or decryption failed.
    Encryption(String),
    /// A secret, version or resource was not found.
    NotFound(String),
    /// The provider does not support the operation.
    Unsupported(String),
    /// The user cancelled.
    Cancelled,
    /// Invalid user input.
    Validation(String),
    /// Any other error.
    Other(String),
}

/// The text an error displays.
pub open spec fn error_text(e: JawsError) -> Seq<char> {
    match e {
        JawsError::Io(m) => m@,
        JawsError::Db(m) => "database error: "@ + m@,
        JawsError::Json(m) => "JSON error: "@ + m@,
        JawsError::Config(m) => "config error: "@ + m@,
        JawsError::Provider { provider, message } => "provider '"@ + provider@ + "': "@ + message@,
        JawsError::Encryption(m) => "encryption error: "@ + m@,
        JawsError::NotFound(m) => m@,
        JawsError::Unsupported(m) => "unsupported: "@ + m@,
        JawsError::Cancelled => "cancelled"@,
        JawsError::Validation(m) => m@,
        JawsError::Other(m) => m@,
    }
}

/// The friendly message for an AWS Secrets Manager error text.
pub open spec fn aws_message(msg: Seq<char>) -> Seq<char> {
    if contains(msg, "ResourceNotFoundException"@) {
        "Secret not found (may have been deleted)"@
    } else if contains(msg, "AccessDeniedException"@) {
        "Access denied (check IAM permissions)"@
    } else if contains(msg, "InvalidParameterException"@) {
        "Invalid parameter"@
    } else if contains(msg, "InvalidRequestException"@) {
        "Invalid request"@
    } else if contains(msg, "DecryptionFailure"@) {
        "Decryption failed (KMS key issue)"@
    } else if contains(msg, "InternalServiceError"@) {
        "AWS internal error (try again later)"@
    } else {
        msg
    }
}

/// The friendly message for a GCP Secret Manager error text.
pub open spec fn gcp_message(msg: Seq<char>) -> Seq<char> {
    if contains(msg, "NOT_FOUND"@) || contains(msg, "notFound"@) {
        "Secret not found"@
    } else if contains(msg, "PERMISSION_DENIED"@) || contains(msg, "permissionDenied"@) {
        "Permission denied (check IAM roles for Secret Manager)"@
    } else if contains(msg, "ALREADY_EXISTS"@) || contains(msg, "alreadyExists"@) {
        "Secret already exists"@
    } else if contains(msg, "UNAUTHENTICATED"@) || contains(msg, "unauthenticated"@) {
        "Not authenticated (run 'gcloud auth application-default login')"@
    } else if contains(msg, "INVALID_ARGUMENT"@) || contains(msg, "invalidArgument"@) {
        "Invalid argument"@
    } else if contains(msg, "RESOURCE_EXHAUSTED"@) || contains(msg, "resourceExhausted"@) {
        "Resource exhausted (quota limit reached)"@
    } else if contains(msg, "FAILED_PRECONDITION"@) || contains(msg, "failedPrecondition"@) {
        "Failed precondition (secret may be in an invalid state)"@
    } else if contains(msg, "UNAVAILABLE"@) {
        "GCP service unavailable (try again later)"@
    } else {
        msg
    }
}

/// Whether `s` contains the text of `p`.
fn text_contains(s: &Vec<char>, p: &str) -> (b: bool)
    ensures
        b == contains(s@, p@),
{
    let pv = chars_of(p);
    has_substring(s.as_slice(), pv.as_slice())
}

impl JawsError {
    /// An error from provider `provider`.
    pub fn provider(provider: String, message: String) -> (r: Self)
        ensures
            r == (JawsError::Provider { provider, message }),
    {
        JawsError::Provider { provider, message }
    }

    /// An encryption or decryption error.
    pub fn encryption(message: String) -> (r: Self)
        ensures
            r == JawsError::Encryption(message),
    {
        JawsError::Encryption(message)
    }

    /// A not-found error.
    pub fn not_found(message: String) -> (r: Self)
        ensures
            r == JawsError::NotFound(message),
    {
        JawsError::NotFound(message)
    }

    /// An unsupported-operation error.
    pub fn unsupported(message: String) -> (r: Self)
        ensures
            r == JawsError::Unsupported(message),
    {
        JawsError::Unsupported(message)
    }

    /// A validation error.
    pub fn validation(message: String) -> (r: Self)
        ensures
            r == JawsError::Validation(message),
    {
        JawsError::Validation(message)
    }

    /// A configuration error.
    pub fn config(message: String) -> (r: Self)
        ensures
            r == JawsError::Config(message),
    {
        JawsError::Config(message)
    }

    /// An AWS provider error, with common Secrets Manager failures given friendly wording.
    pub fn aws(msg: &str) -> (r: Self)
        ensures
            r matches JawsError::Provider { provider, message } && provider@ == "aws"@
                && message@ == aws_message(msg@),
    {
        let m = chars_of(msg);
        let friendly = if text_contains(&m, "ResourceNotFoundException") {
            owned("Secret not found (may have been deleted)")
        } else if text_contains(&m, "AccessDeniedException") {
            owned("Access denied (check IAM permissions)")
        } else if text_contains(&m, "InvalidParameterException") {
            owned("Invalid parameter")
        } else if text_contains(&m, "InvalidRequestException") {
            owned("Invalid request")
        } else if text_contains(&m, "DecryptionFailure") {
            owned("Decryption failed (KMS key issue)")
        } else if text_contains(&m, "InternalServiceError") {
            owned("AWS internal error (try again later)")
        } else {
            string_from(m.as_slice())
        };
        JawsError::Provider { provider: owned("aws"), message: friendly }
    }

    /// A GCP provider error, with common Secret Manager failures given friendly wording.
    pub fn gcp(msg: &str) -> (r: Self)
        ensures
            r matches JawsError::Provider { provider, message } && provider@ == "gcp"@
                && message@ == gcp_message(msg@),
    {
        let m = chars_of(msg);
        let friendly = if text_contains(&m, "NOT_FOUND") || text_contains(&m, "notFound") {
            owned("Secret not found")
        } else if text_contains(&m, "PERMISSION_DENIED") || text_contains(&m, "permissionDenied") {
            owned("Permission denied (check IAM roles for Secret Manager)")
        } else if text_contains(&m, "ALREADY_EXISTS") || text_contains(&m, "alreadyExists") {
            owned("Secret already exists")
        } else if text_contains(&m, "UNAUTHENTICATED") || text_contains(&m, "unauthenticated") {
            owned("Not authenticated (run 'gcloud auth application-default login')")
        } else if text_contains(&m, "INVALID_ARGUMENT") || text_contains(&m, "invalidArgument") {
            owned("Invalid argument")
        } else if text_contains(&m, "RESOURCE_EXHAUSTED") || text_contains(
            &m,
            "resourceExhausted",
        ) {
            owned("Resource exhausted (quota limit reached)")
        } else if text_contains(&m, "FAILED_PRECONDITION") || text_contains(
            &m,
            "failedPrecondition",
        ) {
            owned("Failed precondition (secret may be in an invalid state)")
        } else if text_contains(&m, "UNAVAILABLE") {
            owned("GCP service unavailable (try again later)")
        } else {
            string_from(m.as_slice())
        };
        JawsError::Provider { provider: owned("gcp"), message: friendly }
    }

    /// The text this error displays.
    pub fn message(&self) -> (r: String)
        ensures
            r@ == error_text(*self),
    {
        let mut out: Vec<char> = Vec::new();
        match self {
            JawsError::Io(m) => {
                push_str(&mut out, m.as_str());
            },
            JawsError::Db(m) => {
                push_str(&mut out, "database error: ");
                push_str(&mut out, m.as_str());
            },
            JawsError::Json(m) => {
                push_str(&mut out, "JSON error: ");
                push_str(&mut out, m.as_str());
            },
            JawsError::Config(m) => {
                push_str(&mut out, "config error: ");
                push_str(&mut out, m.as_str());
            },
            JawsError::Provider { provider, message } => {
                push_str(&mut out, "provider '");
                push_str(&mut out, provider.as_str());
                push_str(&mut out, "': ");
                push_str(&mut out, message.as_str());
            },
            JawsError::Encryption(m) => {
                push_str(&mut out, "encryption error: ");
                push_str(&mut out, m.as_str());
            },
            JawsError::NotFound(m) => {
                push_str(&mut out, m.as_str());
            },
            JawsError::Unsupported(m) => {
                push_str(&mut out, "unsupported: ");
                push_str(&mut out, m.as_str());
            },
            JawsError::Cancelled => {
                push_str(&mut out, "cancelled");
            },
            JawsError::Validation(m) => {
                push_str(&mut out, m.as_str());
            },
            JawsError::Other(m) => {
                push_str(&mut out, m.as_str());
            },
        }
        assert(out@ =~= error_text(*self));
        string_from(out.as_slice())
    }
}

} // verus!
