//! The PIO instructions that prepare the decoder's state machine.
use vstd::prelude::*;

verus! {

/// Where a PIO `MOV` writes to.
#[derive(Copy, Clone, PartialEq, Eq, Structural, Debug)]
pub enum MovDestination {
    /// Scratch register X.
    X,
    /// The output shift register.
    Osr,
}

/// What a PIO `MOV` does to the value.
#[derive(Copy, Clone, PartialEq, Eq, Structural, Debug)]
pub enum MovOperation {
    /// Nothing.
    Plain,
    /// Bitwise complement.
    Invert,
}

/// Where a PIO `MOV` reads from.
#[derive(Copy, Clone, PartialEq, Eq, Structural, Debug)]
pub enum MovSource {
    /// All zeros.
    Null,
}

/// The destination's place in the instruction set.
pub open spec fn destination_code(destination: MovDestination) -> int {
    match destination {
        MovDestination::X => 1,
        MovDestination::Osr => 7,
    }
}

/// The operation's place in the instruction set.
pub open spec fn operation_code(op: MovOperation) -> int {
    match op {
        MovOperation::Plain => 0,
        MovOperation::Invert => 1,
    }
}

/// The source's place in the instruction set.
pub open spec fn source_code(source: MovSource) -> int {
    match source {
        MovSource::Null => 3,
    }
}

/// A `MOV` as an instruction word: `101` in the three highest bits, no delay and no side
/// set, then three bits of destination, two of operation and three of source.
pub open spec fn mov_word(destination: MovDestination, op: MovOperation, source: MovSource) -> int {
    0xa000 + 32 * destination_code(destination) + 8 * operation_code(op) + source_code(source)
}

/// `pio::Instruction::encode` for a `MOV` without delay and side set, under
/// `pio::SideSet::default()`, which reserves no side-set bits: the word of `mov_word`.
#[verifier::external_body]
fn encode_mov(destination: MovDestination, op: MovOperation, source: MovSource) -> (word: u16)
    ensures
        word == mov_word(destination, op, source),
{
    let destination = match destination {
        MovDestination::X => pio::MovDestination::X,
        MovDestination::Osr => pio::MovDestination::OSR,
    };
    let op = match op {
        MovOperation::Plain => pio::MovOperation::None,
        MovOperation::Invert => pio::MovOperation::Invert,
    };
    let MovSource::Null = source;
    let operands = pio::InstructionOperands::MOV { destination, op, source: pio::MovSource::NULL };
    let instruction = pio::Instruction { operands, delay: 0, side_set: None };
    instruction.encode(pio::SideSet::default())
}

/// The instruction that fills the output shift register with ones: `mov osr, ~null`.
pub fn fill_osr() -> (word: u16)
    ensures
        word == 0xa0eb,
{
    encode_mov(MovDestination::Osr, MovOperation::Invert, MovSource::Null)
}

/// The instruction that clears scratch register X: `mov x, null`.
pub fn clear_x() -> (word: u16)
    ensures
        word == 0xa023,
{
    encode_mov(MovDestination::X, MovOperation::Plain, MovSource::Null)
}

} // verus!
