//! Commands understood by version 3 and earlier bridges.
use vstd::prelude::*;

use crate::colors::Color;

verus! {

/// The byte that closes every frame.
pub const FRAME_TERMINATOR: u8 = 0x55;

/// A command that the WiFi bridge can perform.
#[derive(Debug, Clone, Copy, PartialEq, Eq, Structural)]
pub enum Command {
    /// Turns lights off
    Off,
    /// Turns lights on
    On,
    /// Sets lights to a solid RGB color
    SetColor(Color),
    /// Makes lights 1 step dimmer
    BrightnessUp,
    /// Makes lights 1 step brighter
    BrightnessDown,
    /// Makes pattern move faster
    SpeedUp,
    /// Makes pattern move slower
    SpeedDown,
    /// Changes to next pattern mode
    ModeUp,
    /// Changes to previous pattern mode
    ModeDown,
}

/// The first byte of a command's frame.
pub open spec fn opcode(c: Command) -> u8 {
    match c {
        Command::SetColor(_) => 0x20,
        Command::Off => 0x21,
        Command::On => 0x22,
        Command::BrightnessUp => 0x23,
        Command::BrightnessDown => 0x24,
        Command::SpeedUp => 0x25,
        Command::SpeedDown => 0x26,
        Command::ModeUp => 0x27,
        Command::ModeDown => 0x28,
    }
}

/// The second byte of a command's frame: the color for `SetColor`, zero
/// otherwise.
pub open spec fn argument(c: Command) -> u8 {
    match c {
        Command::SetColor(color) => color.0,
        _ => 0x00,
    }
}

/// The three bytes that the bridge receives for a command.
pub open spec fn frame(c: Command) -> Seq<u8> {
    seq![opcode(c), argument(c), FRAME_TERMINATOR]
}

/// Whether two commands are the same variant, whatever color a `SetColor`
/// carries.
pub open spec fn same_variant(a: Command, b: Command) -> bool {
    match (a, b) {
        (Command::SetColor(_), Command::SetColor(_)) => true,
        _ => a == b,
    }
}

impl Command {
    /// The wire frame of this command: `[opcode, argument, 0x55]`.
    pub fn encode(&self) -> (r: [u8; 3])
        ensures
            r@ == frame(*self),
            r@.len() == 3,
            r@[2] == 0x55,
            self is SetColor ==> r@[1] == self->SetColor_0.0,
    {
        let r: [u8; 3] = match *self {
            Command::SetColor(color) => [0x20, color.into(), FRAME_TERMINATOR],
            Command::Off => [0x21, 0x00, FRAME_TERMINATOR],
            Command::On => [0x22, 0x00, FRAME_TERMINATOR],
            Command::BrightnessUp => [0x23, 0x00, FRAME_TERMINATOR],
            Command::BrightnessDown => [0x24, 0x00, FRAME_TERMINATOR],
            Command::SpeedUp => [0x25, 0x00, FRAME_TERMINATOR],
            Command::SpeedDown => [0x26, 0x00, FRAME_TERMINATOR],
            Command::ModeUp => [0x27, 0x00, FRAME_TERMINATOR],
            Command::ModeDown => [0x28, 0x00, FRAME_TERMINATOR],
        };
        assert(r@ =~= frame(*self));
        r
    }
}

impl From<Command> for Vec<u8> {
    fn from(cmd: Command) -> (r: Vec<u8>)
        ensures
            r@ == frame(cmd),
    {
        let bytes = cmd.encode();
        let mut r: Vec<u8> = Vec::new();
        let mut i: usize = 0;
        while i < 3
            invariant
                0 <= i <= 3,
                bytes@ == frame(cmd),
                r@ == bytes@.subrange(0, i as int),
            decreases 3 - i,
        {
            r.push(bytes[i]);
            i = i + 1;
        }
        assert(r@ =~= bytes@);
        r
    }
}

impl vstd::std_specs::convert::FromSpecImpl<Command> for Vec<u8> {
    // A `Vec` has no spec-level constructor: what `from` returns is stated in
    // its own `ensures` instead.
    open spec fn obeys_from_spec() -> bool {
        false
    }

    open spec fn from_spec(v: Command) -> Vec<u8> {
        arbitrary()
    }
}

/// Every frame ends in `0x55`, and its first byte tells the variant: two
/// commands share an opcode exactly when they are the same variant.
pub proof fn lemma_opcode_identifies_variant(a: Command, b: Command)
    ensures
        frame(a)[2] == 0x55,
        (frame(a)[0] == frame(b)[0]) == same_variant(a, b),
{
}

/// The opcodes are exactly `0x20..=0x28`: each of them is the first byte of a
/// frame, and no other byte is.
pub proof fn lemma_opcodes_cover_range(op: u8)
    ensures
        (0x20 <= op <= 0x28) == (exists|c: Command| #[trigger] opcode(c) == op),
{
    if 0x20 <= op <= 0x28 {
        let c = if op == 0x20 {
            Command::SetColor(Color(0))
        } else if op == 0x21 {
            Command::Off
        } else if op == 0x22 {
            Command::On
        } else if op == 0x23 {
            Command::BrightnessUp
        } else if op == 0x24 {
            Command::BrightnessDown
        } else if op == 0x25 {
            Command::SpeedUp
        } else if op == 0x26 {
            Command::SpeedDown
        } else if op == 0x27 {
            Command::ModeUp
        } else {
            Command::ModeDown
        };
        assert(opcode(c) == op);
    }
}

} // verus!
