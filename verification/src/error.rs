use vstd::prelude::*;

verus! {

/// Failures surfaced by the terminal operations of a query, a cursor or a
/// loader.  Nothing is swallowed internally: every variant reaches the
/// caller of the terminal operation that produced it.
#[derive(Debug, Clone)]
pub enum Error {
    /// Zero resources matched an identifier or name.
    NotFound,
    /// A name matched more than one resource; carries the markers of every
    /// conflicting match, so the caller can tell them apart.
    Ambiguous(Vec<String>),
    /// The transport layer failed below the listing protocol.
    Transport,
    /// A response did not match the expected schema; fatal, never retried.
    Deserialization,
    /// The credential became invalid mid-operation.
    AuthExpired,
    /// A caller-supplied deadline passed before pagination finished.
    Timeout,
}

impl Error {
    /// A short stable label for the failure class, for host-side reporting.
    pub fn label(&self) -> (r: &'static str)
        ensures
            r@ == self.label_spec(),
    {
        match self {
            Error::NotFound => "not found",
            Error::Ambiguous(_) => "ambiguous",
            Error::Transport => "transport",
            Error::Deserialization => "deserialization",
            Error::AuthExpired => "auth expired",
            Error::Timeout => "timeout",
        }
    }

    /// The label each variant carries.
    pub closed spec fn label_spec(&self) -> Seq<char> {
        match self {
            Error::NotFound => "not found"@,
            Error::Ambiguous(_) => "ambiguous"@,
            Error::Transport => "transport"@,
            Error::Deserialization => "deserialization"@,
            Error::AuthExpired => "auth expired"@,
            Error::Timeout => "timeout"@,
        }
    }
}

} // verus!
