//! The error a probe raises when a fact it considers required cannot be
//! obtained.

use vstd::prelude::*;

verus! {

/// Why a probe failed.
#[derive(Clone, Copy, Debug, PartialEq, Eq, Structural)]
pub enum ErrorKind {
    /// The source (a pseudo-file or system query) could not be read at all.
    SourceUnavailable,
    /// The source was read but its content was not in the expected shape.
    ParseFailure,
    /// A system call reported a failure.
    SyscallFailure,
}

/// A probe failure, carrying the name of the probe that raised it.
#[derive(Debug, PartialEq, Eq)]
pub struct ProbeError {
    pub probe: String,
    pub kind: ErrorKind,
}

impl ProbeError {
    pub fn new(probe: &str, kind: ErrorKind) -> (e: ProbeError)
        ensures
            e.probe@ == probe@,
            e.kind == kind,
    {
        ProbeError { probe: probe.to_owned(), kind }
    }

    /// A plain description of the failure, naming the probe.
    pub fn message(&self) -> (r: String)
        ensures
            r@ == self.probe@ + " probe: "@ + kind_text(self.kind),
    {
        let mut r = self.probe.clone();
        r.append(" probe: ");
        match self.kind {
            ErrorKind::SourceUnavailable => r.append("source unavailable"),
            ErrorKind::ParseFailure => r.append("parse failure"),
            ErrorKind::SyscallFailure => r.append("system call failure"),
        }
        r
    }
}

/// The description that goes with each failure kind.
pub open spec fn kind_text(kind: ErrorKind) -> Seq<char> {
    match kind {
        ErrorKind::SourceUnavailable => "source unavailable"@,
        ErrorKind::ParseFailure => "parse failure"@,
        ErrorKind::SyscallFailure => "system call failure"@,
    }
}

} // verus!
