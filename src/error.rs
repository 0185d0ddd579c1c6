//! Why an invocation stopped.
use vstd::prelude::*;

verus! {

/// The reasons an invocation fails.
#[derive(Debug)]
pub enum MvxError {
    /// No file name was given.
    NoFilenames,
    /// Neither a suffix to add nor one to remove was given.
    NoOperation,
    /// The named file does not exist.
    NotFound(String),
    /// The named file does not contain the suffix to remove.
    SuffixMismatch(String, String),
    /// A move or copy failed; the text is the system's description.
    Io(String),
}

/// The one-line description of an error.
pub open spec fn message_of(e: MvxError) -> Seq<char> {
    match e {
        MvxError::NoFilenames => "At least one filename  must be provided"@,
        MvxError::NoOperation => "One must provide either --remove or --add command"@,
        MvxError::NotFound(f) => f@ + " does not exist."@,
        MvxError::SuffixMismatch(f, x) => f@ + " does not end with "@ + x@,
        MvxError::Io(m) => m@,
    }
}

impl MvxError {
    /// The one-line description shown to the user.
    pub fn message(&self) -> (r: String)
        ensures
            r@ == message_of(*self),
    {
        match self {
            MvxError::NoFilenames => String::from_str("At least one filename  must be provided"),
            MvxError::NoOperation => String::from_str(
                "One must provide either --remove or --add command",
            ),
            MvxError::NotFound(f) => {
                let mut r = f.clone();
                r.append(" does not exist.");
                r
            },
            MvxError::SuffixMismatch(f, x) => {
                let mut r = f.clone();
                r.append(" does not end with ");
                r.append(x.as_str());
                r
            },
            MvxError::Io(m) => m.clone(),
        }
    }
}

} // verus!
