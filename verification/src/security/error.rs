//! Security error types.
use vstd::prelude::*;
use vstd::string::StringExecFns;

verus! {

/// Security errors
#[derive(Debug)]
pub enum SecurityError {
    /// Authentication failed
    AuthenticationFailed(String),
    /// Authorization failed
    AuthorizationFailed(String),
    /// Invalid credentials
    InvalidCredentials,
    /// User not found
    UserNotFound(String),
    /// Permission denied
    PermissionDenied(String),
    /// Invalid token
    InvalidToken(String),
    /// Encryption error
    EncryptionError(String),
    /// Namespace error
    NamespaceError(String),
}

/// The human-readable text of an error.
pub open spec fn spec_message(e: SecurityError) -> Seq<char> {
    match e {
        SecurityError::AuthenticationFailed(m) => "Authentication failed: "@ + m@,
        SecurityError::AuthorizationFailed(m) => "Authorization failed: "@ + m@,
        SecurityError::InvalidCredentials => "Invalid credentials"@,
        SecurityError::UserNotFound(m) => "User not found: "@ + m@,
        SecurityError::PermissionDenied(m) => "Permission denied: "@ + m@,
        SecurityError::InvalidToken(m) => "Invalid token: "@ + m@,
        SecurityError::EncryptionError(m) => "Encryption error: "@ + m@,
        SecurityError::NamespaceError(m) => "Namespace error: "@ + m@,
    }
}

fn prefixed(prefix: &str, detail: &String) -> (s: String)
    ensures
        s@ == prefix@ + detail@,
{
    let mut s = prefix.to_owned();
    s.append(detail.as_str());
    s
}

impl SecurityError {
    /// The error's text, as it is displayed.
    pub fn message(&self) -> (s: String)
        ensures
            s@ == spec_message(*self),
    {
        match self {
            SecurityError::AuthenticationFailed(m) => prefixed("Authentication failed: ", m),
            SecurityError::AuthorizationFailed(m) => prefixed("Authorization failed: ", m),
            SecurityError::InvalidCredentials => "Invalid credentials".to_owned(),
            SecurityError::UserNotFound(m) => prefixed("User not found: ", m),
            SecurityError::PermissionDenied(m) => prefixed("Permission denied: ", m),
            SecurityError::InvalidToken(m) => prefixed("Invalid token: ", m),
            SecurityError::EncryptionError(m) => prefixed("Encryption error: ", m),
            SecurityError::NamespaceError(m) => prefixed("Namespace error: ", m),
        }
    }
}

} // verus!
