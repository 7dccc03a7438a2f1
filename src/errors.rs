use vstd::prelude::*;

verus! {

/// Every way an invocation of the program can fail.
#[derive(Clone, Copy, Debug, PartialEq, Eq, Structural)]
pub enum SampleError {
    /// The instruction bytes do not have the tagged-block shape, or the tag is unknown.
    DeserializationFailure,
    /// `InitializeAccount` was requested on a slot that already holds a live record.
    AlreadyInitializedState,
    /// The stored payload cannot be decoded as a record despite a nonzero length.
    CorruptState,
    /// The record's encoded form does not fit in the slot's payload region.
    RecordTooLarge,
    /// The account list holds no target account.
    MissingAccount,
    /// The target slot is smaller than the fixed layout.
    SlotTooSmall,
    /// An account that the program must own is owned by another program.
    IncorrectProgramId,
}

impl SampleError {
    /// The numeric code under which the host reports this error, as a custom error.
    pub open spec fn spec_code(self) -> u32 {
        match self {
            SampleError::DeserializationFailure => 0,
            SampleError::AlreadyInitializedState => 1,
            SampleError::CorruptState => 2,
            SampleError::RecordTooLarge => 3,
            SampleError::MissingAccount => 4,
            SampleError::SlotTooSmall => 5,
            SampleError::IncorrectProgramId => 6,
        }
    }

    /// The numeric code of this error (its position in the declaration).
    pub fn code(&self) -> (r: u32)
        ensures
            r == self.spec_code(),
    {
        match self {
            SampleError::DeserializationFailure => 0,
            SampleError::AlreadyInitializedState => 1,
            SampleError::CorruptState => 2,
            SampleError::RecordTooLarge => 3,
            SampleError::MissingAccount => 4,
            SampleError::SlotTooSmall => 5,
            SampleError::IncorrectProgramId => 6,
        }
    }
}

} // verus!
