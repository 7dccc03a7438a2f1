//! The instructions the program accepts, and their decoder.
use crate::errors::SampleError;
use crate::wire::{blocks_of, decode_blocks, decode_text, text_of};
use vstd::prelude::*;

verus! {

/// All instructions of the program.
#[derive(Debug, PartialEq, Eq)]
pub enum ProgramInstruction {
    /// Marks the target slot's record as live.
    InitializeAccount,
    /// Replaces the name of the target slot's record.
    SetName { name: String },
    /// Replaces the surname of the target slot's record.
    SetSurname { surname: String },
}

/// The mathematical value of a [`ProgramInstruction`].
pub ghost enum Command {
    InitializeAccount,
    SetName(Seq<char>),
    SetSurname(Seq<char>),
}

impl View for ProgramInstruction {
    type V = Command;

    open spec fn view(&self) -> Command {
        match self {
            ProgramInstruction::InitializeAccount => Command::InitializeAccount,
            ProgramInstruction::SetName { name } => Command::SetName(name@),
            ProgramInstruction::SetSurname { surname } => Command::SetSurname(surname@),
        }
    }
}

/// The command that a sequence of blocks selects: the first byte of the
/// first block is the tag (0 initialize, 1 set name, 2 set surname); the two
/// setters take their text from the second block, which must hold exactly one
/// length-prefixed text value. Blocks after those are not read.
pub open spec fn command_of_blocks(bs: Seq<Seq<u8>>) -> Option<Command> {
    if bs.len() == 0 || bs[0].len() == 0 {
        None
    } else if bs[0][0] == 0 {
        Some(Command::InitializeAccount)
    } else if bs[0][0] != 1 && bs[0][0] != 2 {
        None
    } else if bs.len() < 2 {
        None
    } else {
        match text_of(bs[1]) {
            Some(t) => if bs[0][0] == 1 {
                Some(Command::SetName(t))
            } else {
                Some(Command::SetSurname(t))
            },
            None => None,
        }
    }
}

/// The command that the instruction bytes `input` encode, if any.
pub open spec fn decode_instruction(input: Seq<u8>) -> Option<Command> {
    match blocks_of(input) {
        Some(bs) => command_of_blocks(bs),
        None => None,
    }
}

impl ProgramInstruction {
    /// Decodes an instruction from its bytes: a sequence of length-prefixed
    /// blocks whose first byte is the tag. Anything else is refused as
    /// [`SampleError::DeserializationFailure`].
    pub fn unpack(input: &[u8]) -> (r: Result<Self, SampleError>)
        ensures
            match r {
                Ok(i) => decode_instruction(input@) == Some(i@),
                Err(e) => decode_instruction(input@) is None && e
                    == SampleError::DeserializationFailure,
            },
    {
        let blocks = match decode_blocks(input) {
            Some(b) => b,
            None => return Err(SampleError::DeserializationFailure),
        };
        let ghost bs = blocks.deep_view();
        if blocks.len() == 0 || blocks[0].len() == 0 {
            return Err(SampleError::DeserializationFailure);
        }
        assert(bs[0] == blocks@[0]@);
        let tag = blocks[0][0];
        if tag == 0 {
            return Ok(ProgramInstruction::InitializeAccount);
        }
        if tag != 1 && tag != 2 {
            return Err(SampleError::DeserializationFailure);
        }
        if blocks.len() < 2 {
            return Err(SampleError::DeserializationFailure);
        }
        assert(bs[1] == blocks@[1]@);
        match decode_text(blocks[1].as_slice()) {
            Some(text) => if tag == 1 {
                Ok(ProgramInstruction::SetName { name: text })
            } else {
                Ok(ProgramInstruction::SetSurname { surname: text })
            },
            None => Err(SampleError::DeserializationFailure),
        }
    }
}

/// The decoder refuses every tag outside 0, 1 and 2, whatever follows it.
pub proof fn lemma_unknown_tag_rejected(input: Seq<u8>, bs: Seq<Seq<u8>>)
    requires
        blocks_of(input) == Some(bs),
        bs.len() > 0,
        bs[0].len() > 0,
        bs[0][0] > 2,
    ensures
        decode_instruction(input) is None,
{
}

} // verus!
