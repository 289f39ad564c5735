use vstd::prelude::*;
use crate::error::Chip8Error;

verus! {

/// A decoded CHIP-8 instruction. `x` and `y` name general registers (0 to
/// 15), `nn` is an 8-bit immediate, `n` a 4-bit one, `nnn` a 12-bit address.
#[derive(Debug, Clone, Copy, PartialEq, Eq, Structural)]
pub enum Instruction {
    /// `00E0`: clear the display.
    Cls,
    /// `00EE`: return from a subroutine.
    Ret,
    /// `1nnn`: jump to `nnn`.
    Jp { nnn: u16 },
    /// `2nnn`: call the subroutine at `nnn`.
    Call { nnn: u16 },
    /// `3xnn`: skip the next instruction if `Vx == nn`.
    SeImm { x: u8, nn: u8 },
    /// `4xnn`: skip the next instruction if `Vx != nn`.
    SneImm { x: u8, nn: u8 },
    /// `5xy0`: skip the next instruction if `Vx == Vy`.
    SeReg { x: u8, y: u8 },
    /// `6xnn`: `Vx = nn`.
    LdImm { x: u8, nn: u8 },
    /// `7xnn`: `Vx = Vx + nn` without carry.
    AddImm { x: u8, nn: u8 },
    /// `8xy0`: `Vx = Vy`.
    LdReg { x: u8, y: u8 },
    /// `8xy1`: `Vx = Vx | Vy`.
    Or { x: u8, y: u8 },
    /// `8xy2`: `Vx = Vx & Vy`.
    And { x: u8, y: u8 },
    /// `8xy3`: `Vx = Vx ^ Vy`.
    Xor { x: u8, y: u8 },
    /// `8xy4`: `Vx = Vx + Vy`, carry into VF.
    AddReg { x: u8, y: u8 },
    /// `8xy5`: `Vx = Vx - Vy`, no-borrow into VF.
    Sub { x: u8, y: u8 },
    /// `8xy6`: `Vx = Vx >> 1`, the bit shifted out into VF.
    Shr { x: u8, y: u8 },
    /// `8xy7`: `Vx = Vy - Vx`, no-borrow into VF.
    Subn { x: u8, y: u8 },
    /// `8xyE`: `Vx = Vx << 1`, the bit shifted out into VF.
    Shl { x: u8, y: u8 },
    /// `9xy0`: skip the next instruction if `Vx != Vy`.
    SneReg { x: u8, y: u8 },
    /// `Annn`: `I = nnn`.
    LdI { nnn: u16 },
    /// `Bnnn`: jump to `nnn + V0`.
    JpV0 { nnn: u16 },
    /// `Cxnn`: `Vx = random byte & nn`.
    Rnd { x: u8, nn: u8 },
    /// `Dxyn`: draw the `n`-byte sprite at `I` at `(Vx, Vy)`, collision into VF.
    Drw { x: u8, y: u8, n: u8 },
    /// `Ex9E`: skip the next instruction if key `Vx` is down.
    Skp { x: u8 },
    /// `ExA1`: skip the next instruction if key `Vx` is up.
    Sknp { x: u8 },
    /// `Fx07`: `Vx = delay timer`.
    LdVxDt { x: u8 },
    /// `Fx0A`: wait for a key press and store the key in `Vx`.
    LdKey { x: u8 },
    /// `Fx15`: `delay timer = Vx`.
    LdDtVx { x: u8 },
    /// `Fx18`: `sound timer = Vx`.
    LdStVx { x: u8 },
    /// `Fx1E`: `I = I + Vx`, kept within the address space.
    AddI { x: u8 },
    /// `Fx29`: `I` = address of the font glyph for the low nibble of `Vx`.
    LdF { x: u8 },
    /// `Fx33`: store the decimal digits of `Vx` at `I`, `I+1`, `I+2`.
    LdB { x: u8 },
    /// `Fx55`: store `V0` to `Vx` at `I` onward.
    StoreRegs { x: u8 },
    /// `Fx65`: load `V0` to `Vx` from `I` onward.
    LoadRegs { x: u8 },
}

/// The leading nibble: the opcode family.
pub open spec fn op_of(w: u16) -> u8 {
    (w / 4096) as u8
}

/// The second nibble: the register `x`.
pub open spec fn x_of(w: u16) -> u8 {
    ((w / 256) % 16) as u8
}

/// The third nibble: the register `y`.
pub open spec fn y_of(w: u16) -> u8 {
    ((w / 16) % 16) as u8
}

/// The last nibble.
pub open spec fn n_of(w: u16) -> u8 {
    (w % 16) as u8
}

/// The low byte.
pub open spec fn nn_of(w: u16) -> u8 {
    (w % 256) as u8
}

/// The low twelve bits: an address.
pub open spec fn nnn_of(w: u16) -> u16 {
    (w % 4096) as u16
}

/// The instruction that the word `w` encodes, if any.
pub open spec fn decode_spec(w: u16) -> Option<Instruction> {
    let x = x_of(w);
    let y = y_of(w);
    let n = n_of(w);
    let nn = nn_of(w);
    let nnn = nnn_of(w);
    let op = op_of(w);
    if w == 0x00E0 {
        Some(Instruction::Cls)
    } else if w == 0x00EE {
        Some(Instruction::Ret)
    } else if op == 0x1 {
        Some(Instruction::Jp { nnn })
    } else if op == 0x2 {
        Some(Instruction::Call { nnn })
    } else if op == 0x3 {
        Some(Instruction::SeImm { x, nn })
    } else if op == 0x4 {
        Some(Instruction::SneImm { x, nn })
    } else if op == 0x5 && n == 0 {
        Some(Instruction::SeReg { x, y })
    } else if op == 0x6 {
        Some(Instruction::LdImm { x, nn })
    } else if op == 0x7 {
        Some(Instruction::AddImm { x, nn })
    } else if op == 0x8 {
        if n == 0x0 {
            Some(Instruction::LdReg { x, y })
        } else if n == 0x1 {
            Some(Instruction::Or { x, y })
        } else if n == 0x2 {
            Some(Instruction::And { x, y })
        } else if n == 0x3 {
            Some(Instruction::Xor { x, y })
        } else if n == 0x4 {
            Some(Instruction::AddReg { x, y })
        } else if n == 0x5 {
            Some(Instruction::Sub { x, y })
        } else if n == 0x6 {
            Some(Instruction::Shr { x, y })
        } else if n == 0x7 {
            Some(Instruction::Subn { x, y })
        } else if n == 0xE {
            Some(Instruction::Shl { x, y })
        } else {
            None
        }
    } else if op == 0x9 && n == 0 {
        Some(Instruction::SneReg { x, y })
    } else if op == 0xA {
        Some(Instruction::LdI { nnn })
    } else if op == 0xB {
        Some(Instruction::JpV0 { nnn })
    } else if op == 0xC {
        Some(Instruction::Rnd { x, nn })
    } else if op == 0xD {
        Some(Instruction::Drw { x, y, n })
    } else if op == 0xE && nn == 0x9E {
        Some(Instruction::Skp { x })
    } else if op == 0xE && nn == 0xA1 {
        Some(Instruction::Sknp { x })
    } else if op == 0xF {
        if nn == 0x07 {
            Some(Instruction::LdVxDt { x })
        } else if nn == 0x0A {
            Some(Instruction::LdKey { x })
        } else if nn == 0x15 {
            Some(Instruction::LdDtVx { x })
        } else if nn == 0x18 {
            Some(Instruction::LdStVx { x })
        } else if nn == 0x1E {
            Some(Instruction::AddI { x })
        } else if nn == 0x29 {
            Some(Instruction::LdF { x })
        } else if nn == 0x33 {
            Some(Instruction::LdB { x })
        } else if nn == 0x55 {
            Some(Instruction::StoreRegs { x })
        } else if nn == 0x65 {
            Some(Instruction::LoadRegs { x })
        } else {
            None
        }
    } else {
        None
    }
}

impl Instruction {
    /// Every register operand names one of the sixteen registers and every
    /// address fits in twelve bits, as holds of each decoded instruction.
    pub open spec fn wf(&self) -> bool {
        match *self {
            Instruction::Cls | Instruction::Ret => true,
            Instruction::Jp { nnn } | Instruction::Call { nnn } | Instruction::LdI { nnn }
            | Instruction::JpV0 { nnn } => nnn < 4096,
            Instruction::SeImm { x, .. } | Instruction::SneImm { x, .. }
            | Instruction::LdImm { x, .. } | Instruction::AddImm { x, .. }
            | Instruction::Rnd { x, .. } | Instruction::Skp { x } | Instruction::Sknp { x }
            | Instruction::LdVxDt { x } | Instruction::LdKey { x } | Instruction::LdDtVx { x }
            | Instruction::LdStVx { x } | Instruction::AddI { x } | Instruction::LdF { x }
            | Instruction::LdB { x } | Instruction::StoreRegs { x }
            | Instruction::LoadRegs { x } => x < 16,
            Instruction::SeReg { x, y } | Instruction::LdReg { x, y } | Instruction::Or { x, y }
            | Instruction::And { x, y } | Instruction::Xor { x, y }
            | Instruction::AddReg { x, y } | Instruction::Sub { x, y }
            | Instruction::Shr { x, y } | Instruction::Subn { x, y }
            | Instruction::Shl { x, y } | Instruction::SneReg { x, y } => x < 16 && y < 16,
            Instruction::Drw { x, y, n } => x < 16 && y < 16 && n < 16,
        }
    }
}

/// Decodes the word `word` fetched from `pc`, or fails with
/// `UnknownOpcode(word, pc)` where no instruction matches.
pub fn decode(word: u16, pc: u16) -> (r: Result<Instruction, Chip8Error>)
    ensures
        decode_spec(word) matches Some(i) ==> r == Ok::<Instruction, Chip8Error>(i) && i.wf(),
        decode_spec(word) is None ==> r == Err::<Instruction, Chip8Error>(Chip8Error::UnknownOpcode(word, pc)),
{
    let op: u8 = (word / 4096) as u8;
    let x: u8 = ((word / 256) % 16) as u8;
    let y: u8 = ((word / 16) % 16) as u8;
    let n: u8 = (word % 16) as u8;
    let nn: u8 = (word % 256) as u8;
    let nnn: u16 = word % 4096;
    let decoded = if word == 0x00E0 {
        Some(Instruction::Cls)
    } else if word == 0x00EE {
        Some(Instruction::Ret)
    } else if op == 0x1 {
        Some(Instruction::Jp { nnn })
    } else if op == 0x2 {
        Some(Instruction::Call { nnn })
    } else if op == 0x3 {
        Some(Instruction::SeImm { x, nn })
    } else if op == 0x4 {
        Some(Instruction::SneImm { x, nn })
    } else if op == 0x5 && n == 0 {
        Some(Instruction::SeReg { x, y })
    } else if op == 0x6 {
        Some(Instruction::LdImm { x, nn })
    } else if op == 0x7 {
        Some(Instruction::AddImm { x, nn })
    } else if op == 0x8 {
        match n {
            0x0 => Some(Instruction::LdReg { x, y }),
            0x1 => Some(Instruction::Or { x, y }),
            0x2 => Some(Instruction::And { x, y }),
            0x3 => Some(Instruction::Xor { x, y }),
            0x4 => Some(Instruction::AddReg { x, y }),
            0x5 => Some(Instruction::Sub { x, y }),
            0x6 => Some(Instruction::Shr { x, y }),
            0x7 => Some(Instruction::Subn { x, y }),
            0xE => Some(Instruction::Shl { x, y }),
            _ => None,
        }
    } else if op == 0x9 && n == 0 {
        Some(Instruction::SneReg { x, y })
    } else if op == 0xA {
        Some(Instruction::LdI { nnn })
    } else if op == 0xB {
        Some(Instruction::JpV0 { nnn })
    } else if op == 0xC {
        Some(Instruction::Rnd { x, nn })
    } else if op == 0xD {
        Some(Instruction::Drw { x, y, n })
    } else if op == 0xE && nn == 0x9E {
        Some(Instruction::Skp { x })
    } else if op == 0xE && nn == 0xA1 {
        Some(Instruction::Sknp { x })
    } else if op == 0xF {
        match nn {
            0x07 => Some(Instruction::LdVxDt { x }),
            0x0A => Some(Instruction::LdKey { x }),
            0x15 => Some(Instruction::LdDtVx { x }),
            0x18 => Some(Instruction::LdStVx { x }),
            0x1E => Some(Instruction::AddI { x }),
            0x29 => Some(Instruction::LdF { x }),
            0x33 => Some(Instruction::LdB { x }),
            0x55 => Some(Instruction::StoreRegs { x }),
            0x65 => Some(Instruction::LoadRegs { x }),
            _ => None,
        }
    } else {
        None
    };
    match decoded {
        Some(i) => Ok(i),
        None => Err(Chip8Error::UnknownOpcode(word, pc)),
    }
}

} // verus!
