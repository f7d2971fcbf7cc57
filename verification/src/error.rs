//! Errors reported to the user interface.
use vstd::prelude::*;

use crate::text::owned;

verus! {

/// Errors reported to the user interface.
pub enum AppError {
    /// A request to the Kubernetes API failed; holds the client's message.
    Kube(String),
    /// An HTTP request failed; holds the client's message.
    Http(String),
    /// Opening a URL in the browser failed; holds the opener's message.
    Open(String),
}

impl AppError {
    /// The message shown to the user: a prefix naming the kind of failure, then the
    /// underlying message.
    pub open spec fn display(&self) -> Seq<char> {
        match self {
            AppError::Kube(m) => "kubernetes error: "@ + m@,
            AppError::Http(m) => "http error: "@ + m@,
            AppError::Open(m) => "failed to open URL: "@ + m@,
        }
    }

    /// The message shown to the user (the error serializes as this string too).
    pub fn to_string(&self) -> (r: String)
        ensures
            r@ == self.display(),
    {
        let (prefix, message) = match self {
            AppError::Kube(m) => ("kubernetes error: ", m),
            AppError::Http(m) => ("http error: ", m),
            AppError::Open(m) => ("failed to open URL: ", m),
        };
        let mut r = owned(prefix);
        r.append(message.as_str());
        r
    }
}

} // verus!
