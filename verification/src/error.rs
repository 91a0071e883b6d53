//! The two error kinds of snapshot construction.

use vstd::prelude::*;

verus! {

/// A failure met while assembling a full snapshot.
///
/// `MissingEnv` carries the human-readable label of the logical concept
/// (not a single variable name) whose environment candidates were all
/// unset.  `Io` carries the message of a failed filesystem-level query,
/// such as reading the current working directory.
#[derive(Debug)]
pub enum SystemError {
    MissingEnv(&'static str),
    Io(String),
}

impl SystemError {
    /// The spec-level text of [`SystemError::message`].
    pub open spec fn spec_message(self) -> Seq<char> {
        match self {
            SystemError::MissingEnv(label) => "Missing environment variable: "@ + label@,
            SystemError::Io(msg) => "IO error: "@ + msg@,
        }
    }

    /// A human-readable description of the error.
    pub fn message(&self) -> (r: String)
        ensures
            r@ == self.spec_message(),
    {
        match self {
            SystemError::MissingEnv(label) => {
                let mut s = String::from_str("Missing environment variable: ");
                s.append(label);
                s
            },
            SystemError::Io(msg) => {
                let mut s = String::from_str("IO error: ");
                s.append(msg.as_str());
                s
            },
        }
    }
}

} // verus!
