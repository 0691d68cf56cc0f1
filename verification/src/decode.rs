//! The instruction decoder: a 16-bit opcode becomes a tagged operation
//! with its operand fields, or nothing when no pattern matches.

use vstd::prelude::*;

verus! {

/// A decoded instruction: one variant per operation of the instruction
/// set, carrying its operand fields (register indices `x`/`y`, immediate
/// byte `nn`, address `nnn`, sprite height `n`).
#[derive(Clone, Copy, Debug, PartialEq, Eq, Structural)]
pub enum Instr {
    /// `00E0`: clear the display.
    Cls,
    /// `00EE`: return from a subroutine.
    Ret,
    /// `1NNN`: jump to address `nnn`.
    Jp { nnn: u16 },
    /// `2NNN`: call the subroutine at `nnn`.
    Call { nnn: u16 },
    /// `3XNN`: skip the next instruction if `Vx == nn`.
    SeVxByte { x: u8, nn: u8 },
    /// `4XNN`: skip the next instruction if `Vx != nn`.
    SneVxByte { x: u8, nn: u8 },
    /// `5XY0`: skip the next instruction if `Vx == Vy`.
    SeVxVy { x: u8, y: u8 },
    /// `6XNN`: set `Vx = nn`.
    LdVxByte { x: u8, nn: u8 },
    /// `7XNN`: set `Vx = Vx + nn`, wrapping, no flag.
    AddVxByte { x: u8, nn: u8 },
    /// `8XY0`: set `Vx = Vy`.
    LdVxVy { x: u8, y: u8 },
    /// `8XY1`: set `Vx = Vx | Vy`.
    OrVxVy { x: u8, y: u8 },
    /// `8XY2`: set `Vx = Vx & Vy`.
    AndVxVy { x: u8, y: u8 },
    /// `8XY3`: set `Vx = Vx ^ Vy`.
    XorVxVy { x: u8, y: u8 },
    /// `8XY4`: set `Vx = Vx + Vy`, `VF` = carry.
    AddVxVy { x: u8, y: u8 },
    /// `8XY5`: set `Vx = Vx - Vy`, `VF` = no borrow.
    SubVxVy { x: u8, y: u8 },
    /// `8XY6`: shift `Vx` right by one, `VF` = shifted-out bit.
    ShrVx { x: u8 },
    /// `8XY7`: set `Vx = Vy - Vx`, `VF` = no borrow.
    SubnVxVy { x: u8, y: u8 },
    /// `8XYE`: shift `Vx` left by one, `VF` = shifted-out bit.
    ShlVx { x: u8 },
    /// `9XY0`: skip the next instruction if `Vx != Vy`.
    SneVxVy { x: u8, y: u8 },
    /// `ANNN`: set `I = nnn`.
    LdIAddr { nnn: u16 },
    /// `BNNN`: jump to `V0 + nnn`.
    JpV0Addr { nnn: u16 },
    /// `CXNN`: set `Vx` to a random byte masked with `nn`.
    RndVxByte { x: u8, nn: u8 },
    /// `DXYN`: draw the `n`-row sprite at `I` at `(Vx, Vy)`, `VF` = collision.
    DrwVxVyNibble { x: u8, y: u8, n: u8 },
    /// `EX9E`: skip the next instruction if key `Vx` is pressed.
    SkpVx { x: u8 },
    /// `EXA1`: skip the next instruction if key `Vx` is not pressed.
    SknpVx { x: u8 },
    /// `FX07`: set `Vx` to the delay timer.
    LdVxDt { x: u8 },
    /// `FX0A`: wait for a key press and store its index in `Vx`.
    LdVxK { x: u8 },
    /// `FX15`: set the delay timer to `Vx`.
    LdDtVx { x: u8 },
    /// `FX18`: set the sound timer to `Vx`.
    LdStVx { x: u8 },
    /// `FX1E`: set `I = I + Vx`, wrapping at 16 bits.
    AddIVx { x: u8 },
    /// `FX29`: point `I` at the font glyph for the digit in `Vx`.
    LdFVx { x: u8 },
    /// `FX33`: write the decimal digits of `Vx` at `I`, `I+1`, `I+2`.
    LdBVx { x: u8 },
    /// `FX55`: store `V0..=Vx` to memory starting at `I`.
    LdIVx { x: u8 },
    /// `FX65`: load `V0..=Vx` from memory starting at `I`.
    LdVxI { x: u8 },
}

/// The `x` field of an opcode: its second nibble.
pub open spec fn x_of(op: u16) -> u8 {
    ((op >> 8) & 0xF) as u8
}

/// The `y` field of an opcode: its third nibble.
pub open spec fn y_of(op: u16) -> u8 {
    ((op >> 4) & 0xF) as u8
}

/// The `n` field of an opcode: its low nibble.
pub open spec fn n_of(op: u16) -> u8 {
    (op & 0xF) as u8
}

/// The `nn` field of an opcode: its low byte.
pub open spec fn nn_of(op: u16) -> u8 {
    (op & 0xFF) as u8
}

/// The `nnn` field of an opcode: its low twelve bits.
pub open spec fn nnn_of(op: u16) -> u16 {
    op & 0xFFF
}

/// What decoding an opcode yields. The top nibble selects a primary
/// group; groups `0x0`, `0x8`, `0xE` and `0xF` dispatch again on the low
/// byte or low nibble. An opcode outside every pattern decodes to `None`.
pub open spec fn spec_decode(op: u16) -> Option<Instr> {
    let x = x_of(op);
    let y = y_of(op);
    let n = n_of(op);
    let nn = nn_of(op);
    let nnn = nnn_of(op);
    match op >> 12 {
        0x0 => if nn == 0xE0 {
            Some(Instr::Cls)
        } else if nn == 0xEE {
            Some(Instr::Ret)
        } else {
            None
        },
        0x1 => Some(Instr::Jp { nnn }),
        0x2 => Some(Instr::Call { nnn }),
        0x3 => Some(Instr::SeVxByte { x, nn }),
        0x4 => Some(Instr::SneVxByte { x, nn }),
        0x5 => Some(Instr::SeVxVy { x, y }),
        0x6 => Some(Instr::LdVxByte { x, nn }),
        0x7 => Some(Instr::AddVxByte { x, nn }),
        0x8 => match n {
            0x0 => Some(Instr::LdVxVy { x, y }),
            0x1 => Some(Instr::OrVxVy { x, y }),
            0x2 => Some(Instr::AndVxVy { x, y }),
            0x3 => Some(Instr::XorVxVy { x, y }),
            0x4 => Some(Instr::AddVxVy { x, y }),
            0x5 => Some(Instr::SubVxVy { x, y }),
            0x6 => Some(Instr::ShrVx { x }),
            0x7 => Some(Instr::SubnVxVy { x, y }),
            0xE => Some(Instr::ShlVx { x }),
            _ => None,
        },
        0x9 => Some(Instr::SneVxVy { x, y }),
        0xA => Some(Instr::LdIAddr { nnn }),
        0xB => Some(Instr::JpV0Addr { nnn }),
        0xC => Some(Instr::RndVxByte { x, nn }),
        0xD => Some(Instr::DrwVxVyNibble { x, y, n }),
        0xE => if nn == 0x9E {
            Some(Instr::SkpVx { x })
        } else if nn == 0xA1 {
            Some(Instr::SknpVx { x })
        } else {
            None
        },
        _ => match nn {
            0x07 => Some(Instr::LdVxDt { x }),
            0x0A => Some(Instr::LdVxK { x }),
            0x15 => Some(Instr::LdDtVx { x }),
            0x18 => Some(Instr::LdStVx { x }),
            0x1E => Some(Instr::AddIVx { x }),
            0x29 => Some(Instr::LdFVx { x }),
            0x33 => Some(Instr::LdBVx { x }),
            0x55 => Some(Instr::LdIVx { x }),
            0x65 => Some(Instr::LdVxI { x }),
            _ => None,
        },
    }
}

/// The operand fields any decoded instruction can carry: register
/// indices are below 16 and addresses below 0x1000.
pub open spec fn instr_wf(i: Instr) -> bool {
    match i {
        Instr::Cls => true,
        Instr::Ret => true,
        Instr::Jp { nnn } => nnn < 0x1000,
        Instr::Call { nnn } => nnn < 0x1000,
        Instr::SeVxByte { x, nn } => x < 16,
        Instr::SneVxByte { x, nn } => x < 16,
        Instr::SeVxVy { x, y } => x < 16 && y < 16,
        Instr::LdVxByte { x, nn } => x < 16,
        Instr::AddVxByte { x, nn } => x < 16,
        Instr::LdVxVy { x, y } => x < 16 && y < 16,
        Instr::OrVxVy { x, y } => x < 16 && y < 16,
        Instr::AndVxVy { x, y } => x < 16 && y < 16,
        Instr::XorVxVy { x, y } => x < 16 && y < 16,
        Instr::AddVxVy { x, y } => x < 16 && y < 16,
        Instr::SubVxVy { x, y } => x < 16 && y < 16,
        Instr::ShrVx { x } => x < 16,
        Instr::SubnVxVy { x, y } => x < 16 && y < 16,
        Instr::ShlVx { x } => x < 16,
        Instr::SneVxVy { x, y } => x < 16 && y < 16,
        Instr::LdIAddr { nnn } => nnn < 0x1000,
        Instr::JpV0Addr { nnn } => nnn < 0x1000,
        Instr::RndVxByte { x, nn } => x < 16,
        Instr::DrwVxVyNibble { x, y, n } => x < 16 && y < 16 && n < 16,
        Instr::SkpVx { x } => x < 16,
        Instr::SknpVx { x } => x < 16,
        Instr::LdVxDt { x } => x < 16,
        Instr::LdVxK { x } => x < 16,
        Instr::LdDtVx { x } => x < 16,
        Instr::LdStVx { x } => x < 16,
        Instr::AddIVx { x } => x < 16,
        Instr::LdFVx { x } => x < 16,
        Instr::LdBVx { x } => x < 16,
        Instr::LdIVx { x } => x < 16,
        Instr::LdVxI { x } => x < 16,
    }
}

/// Whatever instruction an opcode decodes to carries well-formed
/// operand fields: they are cut out of the opcode by nibble.
pub proof fn lemma_decode_wf(op: u16)
    ensures
        spec_decode(op) matches Some(i) ==> instr_wf(i),
{
    assert((op >> 8) & 0xF < 16) by (bit_vector);
    assert((op >> 4) & 0xF < 16) by (bit_vector);
    assert(op & 0xF < 16) by (bit_vector);
    assert(op & 0xFFF < 0x1000) by (bit_vector);
}

/// Turns an opcode into its instruction, or `None` on a decode failure.
pub fn decode(op: u16) -> (r: Option<Instr>)
    ensures
        r == spec_decode(op),
{
    let x: u8 = ((op >> 8) & 0xF) as u8;
    let y: u8 = ((op >> 4) & 0xF) as u8;
    let n: u8 = (op & 0xF) as u8;
    let nn: u8 = (op & 0xFF) as u8;
    let nnn: u16 = op & 0xFFF;
    match op >> 12 {
        0x0 => if nn == 0xE0 {
            Some(Instr::Cls)
        } else if nn == 0xEE {
            Some(Instr::Ret)
        } else {
            None
        },
        0x1 => Some(Instr::Jp { nnn }),
        0x2 => Some(Instr::Call { nnn }),
        0x3 => Some(Instr::SeVxByte { x, nn }),
        0x4 => Some(Instr::SneVxByte { x, nn }),
        0x5 => Some(Instr::SeVxVy { x, y }),
        0x6 => Some(Instr::LdVxByte { x, nn }),
        0x7 => Some(Instr::AddVxByte { x, nn }),
        0x8 => match n {
            0x0 => Some(Instr::LdVxVy { x, y }),
            0x1 => Some(Instr::OrVxVy { x, y }),
            0x2 => Some(Instr::AndVxVy { x, y }),
            0x3 => Some(Instr::XorVxVy { x, y }),
            0x4 => Some(Instr::AddVxVy { x, y }),
            0x5 => Some(Instr::SubVxVy { x, y }),
            0x6 => Some(Instr::ShrVx { x }),
            0x7 => Some(Instr::SubnVxVy { x, y }),
            0xE => Some(Instr::ShlVx { x }),
            _ => None,
        },
        0x9 => Some(Instr::SneVxVy { x, y }),
        0xA => Some(Instr::LdIAddr { nnn }),
        0xB => Some(Instr::JpV0Addr { nnn }),
        0xC => Some(Instr::RndVxByte { x, nn }),
        0xD => Some(Instr::DrwVxVyNibble { x, y, n }),
        0xE => if nn == 0x9E {
            Some(Instr::SkpVx { x })
        } else if nn == 0xA1 {
            Some(Instr::SknpVx { x })
        } else {
            None
        },
        _ => match nn {
            0x07 => Some(Instr::LdVxDt { x }),
            0x0A => Some(Instr::LdVxK { x }),
            0x15 => Some(Instr::LdDtVx { x }),
            0x18 => Some(Instr::LdStVx { x }),
            0x1E => Some(Instr::AddIVx { x }),
            0x29 => Some(Instr::LdFVx { x }),
            0x33 => Some(Instr::LdBVx { x }),
            0x55 => Some(Instr::LdIVx { x }),
            0x65 => Some(Instr::LdVxI { x }),
            _ => None,
        },
    }
}

} // verus!
