//! Error types for tiered storage.
use vstd::prelude::*;
use vstd::string::StringExecFns;

verus! {

/// An I/O error, carried through the library unchanged.
#[verifier::external_type_specification]
#[verifier::external_body]
pub struct ExIoError(std::io::Error);

/// Tiered storage errors
#[derive(Debug)]
pub enum TieredError {
    /// IO error
    IoError(std::io::Error),
    /// Tier full
    TierFull(String),
    /// Key not found
    KeyNotFound(String),
    /// Invalid configuration
    InvalidConfig(String),
    /// Migration error
    MigrationError(String),
}

/// The `Display` text of an I/O error (`format!("{}", e)`). It comes from
/// the operating system's error descriptions, so nothing is stated of it.
#[verifier::external_body]
fn io_error_text(e: &std::io::Error) -> String {
    format!("{}", e)
}

fn prefixed(prefix: &str, detail: &str) -> (s: String)
    ensures
        s@ == prefix@ + detail@,
{
    let mut s = prefix.to_owned();
    s.append(detail);
    s
}

impl TieredError {
    /// The error's text, as it is displayed.
    pub fn message(&self) -> (s: String)
        ensures
            match self {
                TieredError::IoError(_) => s@.len() >= 10 && s@.take(10) == "IO error: "@,
                TieredError::TierFull(m) => s@ == "Tier full: "@ + m@,
                TieredError::KeyNotFound(m) => s@ == "Key not found: "@ + m@,
                TieredError::InvalidConfig(m) => s@ == "Invalid configuration: "@ + m@,
                TieredError::MigrationError(m) => s@ == "Migration error: "@ + m@,
            },
    {
        match self {
            TieredError::IoError(e) => {
                let text = io_error_text(e);
                let s = prefixed("IO error: ", text.as_str());
                proof {
                    reveal_strlit("IO error: ");
                    assert(s@.take(10) =~= "IO error: "@);
                }
                s
            },
            TieredError::TierFull(m) => prefixed("Tier full: ", m.as_str()),
            TieredError::KeyNotFound(m) => prefixed("Key not found: ", m.as_str()),
            TieredError::InvalidConfig(m) => prefixed("Invalid configuration: ", m.as_str()),
            TieredError::MigrationError(m) => prefixed("Migration error: ", m.as_str()),
        }
    }
}

impl From<std::io::Error> for TieredError {
    fn from(e: std::io::Error) -> (r: Self)
        ensures
            r == TieredError::IoError(e),
    {
        TieredError::IoError(e)
    }
}

impl vstd::std_specs::convert::FromSpecImpl<std::io::Error> for TieredError {
    open spec fn obeys_from_spec() -> bool {
        true
    }

    open spec fn from_spec(v: std::io::Error) -> TieredError {
        TieredError::IoError(v)
    }
}

} // verus!
