//! The ways in which the two sides of the bridge can disagree.

use vstd::prelude::*;

verus! {

/// What went wrong with an instruction or a style declaration.
#[derive(Clone, Copy, Debug, PartialEq, Eq, Structural)]
pub enum ErrorKind {
    /// A path names no node record.
    UnknownPath,
    /// A virtual id is already taken, or the record already carries another one.
    DuplicateId,
    /// A virtual id names no node record.
    UnboundId,
    /// A length has no usable numeric prefix.
    MalformedLength,
    /// The operand stack holds fewer references than an instruction consumes.
    StackUnderflow,
}

/// The instruction at which a batch was given up, and why.
#[derive(Clone, Copy, Debug, PartialEq, Eq, Structural)]
pub struct BatchError {
    /// Position of the offending instruction in its batch.
    pub index: usize,
    /// The violation it ran into.
    pub kind: ErrorKind,
}

impl ErrorKind {
    /// The name of the violation, for diagnostics.
    pub fn name(&self) -> (s: &'static str)
        ensures
            s@ == self.spec_name(),
    {
        match self {
            ErrorKind::UnknownPath => "UnknownPath",
            ErrorKind::DuplicateId => "DuplicateId",
            ErrorKind::UnboundId => "UnboundId",
            ErrorKind::MalformedLength => "MalformedLength",
            ErrorKind::StackUnderflow => "StackUnderflow",
        }
    }

    pub open spec fn spec_name(&self) -> Seq<char> {
        match self {
            ErrorKind::UnknownPath => "UnknownPath"@,
            ErrorKind::DuplicateId => "DuplicateId"@,
            ErrorKind::UnboundId => "UnboundId"@,
            ErrorKind::MalformedLength => "MalformedLength"@,
            ErrorKind::StackUnderflow => "StackUnderflow"@,
        }
    }
}

} // verus!
