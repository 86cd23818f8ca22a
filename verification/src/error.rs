//! The library's error type.

use vstd::prelude::*;

verus! {

#[verifier::external_type_specification]
#[verifier::external_body]
pub struct ExIoError(std::io::Error);

#[derive(Debug)]
pub enum KiteError {
    Io(std::io::Error),
    Config(String),
    Plugin(String),
    Cancelled,
    Other(String),
}

/// Calls `<std::io::Error as Display>::fmt` through `to_string`. The text comes
/// from the operating system, so nothing is stated of it.
#[verifier::external_body]
pub(crate) fn io_error_text(e: &std::io::Error) -> String {
    e.to_string()
}

/// `prefix` followed by `rest`.
pub(crate) fn joined(prefix: &str, rest: &str) -> (r: String)
    ensures
        r@ == prefix@ + rest@,
{
    let mut s = prefix.to_owned();
    s.append(rest);
    s
}

/// The text an error is shown with; that of an I/O error comes from the
/// operating system.
pub open spec fn kite_error_text(e: KiteError) -> Option<Seq<char>> {
    match e {
        KiteError::Io(_) => None,
        KiteError::Config(m) => Some("Configuration error: "@ + m@),
        KiteError::Plugin(m) => Some("Plugin error: "@ + m@),
        KiteError::Cancelled => Some("Operation cancelled"@),
        KiteError::Other(m) => Some(m@),
    }
}

impl KiteError {
    /// The text the error is shown with.
    pub fn message(&self) -> (r: String)
        ensures
            match kite_error_text(*self) {
                Some(t) => r@ == t,
                None => r@.len() >= "IO error: "@.len() && r@.take("IO error: "@.len() as int)
                    == "IO error: "@,
            },
    {
        match self {
            KiteError::Io(e) => {
                let r = joined("IO error: ", io_error_text(e).as_str());
                assert(r@.take("IO error: "@.len() as int) =~= "IO error: "@);
                r
            },
            KiteError::Config(m) => joined("Configuration error: ", m.as_str()),
            KiteError::Plugin(m) => joined("Plugin error: ", m.as_str()),
            KiteError::Cancelled => "Operation cancelled".to_owned(),
            KiteError::Other(m) => m.clone(),
        }
    }
}

} // verus!
