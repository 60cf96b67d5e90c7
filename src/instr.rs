use vstd::prelude::*;

verus! {

/// One decoded instruction. `x` and `y` name registers (0 to 15), `nn` is an
/// immediate byte, `addr` a 12-bit address and `n` a sprite height (0 to 15).
#[derive(Clone, Copy, Debug, PartialEq, Eq, Structural)]
pub enum Instr {
    Clear,
    Return,
    Jump { addr: u16 },
    Call { addr: u16 },
    SkipEqImm { x: u8, nn: u8 },
    SkipNeImm { x: u8, nn: u8 },
    SkipEqReg { x: u8, y: u8 },
    LoadImm { x: u8, nn: u8 },
    AddImm { x: u8, nn: u8 },
    Move { x: u8, y: u8 },
    Or { x: u8, y: u8 },
    And { x: u8, y: u8 },
    Xor { x: u8, y: u8 },
    AddReg { x: u8, y: u8 },
    SubReg { x: u8, y: u8 },
    ShiftRight { x: u8 },
    SubRev { x: u8, y: u8 },
    ShiftLeft { x: u8 },
    SkipNeReg { x: u8, y: u8 },
    SetIndex { addr: u16 },
    JumpOffset { addr: u16 },
    Random { x: u8, nn: u8 },
    Draw { x: u8, y: u8, n: u8 },
    SkipKey { x: u8 },
    SkipNoKey { x: u8 },
    GetDelay { x: u8 },
    WaitKey { x: u8 },
    SetDelay { x: u8 },
    SetSound { x: u8 },
    AddIndex { x: u8 },
    FontChar { x: u8 },
    Bcd { x: u8 },
    StoreRegs { x: u8 },
    LoadRegs { x: u8 },
}

impl Instr {
    /// Operands are in range: registers below 16, addresses below 0x1000,
    /// sprite heights below 16.
    pub open spec fn wf(self) -> bool {
        match self {
            Instr::Clear | Instr::Return => true,
            Instr::Jump { addr } | Instr::Call { addr } | Instr::SetIndex { addr }
            | Instr::JumpOffset { addr } => addr < 0x1000,
            Instr::SkipEqImm { x, nn: _ } | Instr::SkipNeImm { x, nn: _ } | Instr::LoadImm { x, nn: _ }
            | Instr::AddImm { x, nn: _ } | Instr::Random { x, nn: _ } => x < 16,
            Instr::SkipEqReg { x, y } | Instr::Move { x, y } | Instr::Or { x, y }
            | Instr::And { x, y } | Instr::Xor { x, y } | Instr::AddReg { x, y }
            | Instr::SubReg { x, y } | Instr::SubRev { x, y } | Instr::SkipNeReg { x, y } => x < 16
                && y < 16,
            Instr::Draw { x, y, n } => x < 16 && y < 16 && n < 16,
            Instr::ShiftRight { x } | Instr::ShiftLeft { x } | Instr::SkipKey { x }
            | Instr::SkipNoKey { x } | Instr::GetDelay { x } | Instr::WaitKey { x }
            | Instr::SetDelay { x } | Instr::SetSound { x } | Instr::AddIndex { x }
            | Instr::FontChar { x } | Instr::Bcd { x } | Instr::StoreRegs { x }
            | Instr::LoadRegs { x } => x < 16,
        }
    }
}

/// The high nibble of the first byte: the instruction family.
pub open spec fn family(hi: u8) -> u8 {
    hi / 16
}

/// The low nibble of the first byte: register `x`.
pub open spec fn x_of(hi: u8) -> u8 {
    hi % 16
}

/// The high nibble of the second byte: register `y`.
pub open spec fn y_of(lo: u8) -> u8 {
    lo / 16
}

/// The low nibble of the second byte.
pub open spec fn n_of(lo: u8) -> u8 {
    lo % 16
}

/// The low 12 bits of the instruction word.
pub open spec fn addr_of(hi: u8, lo: u8) -> u16 {
    ((hi % 16) as int * 256 + lo as int) as u16
}

/// The instruction that the word `hi lo` encodes, or `None` for a word that
/// encodes none.
pub open spec fn decoded(hi: u8, lo: u8) -> Option<Instr> {
    let x = x_of(hi);
    let y = y_of(lo);
    let addr = addr_of(hi, lo);
    let f = family(hi);
    if f == 0 {
        if hi == 0 && lo == 0xe0 {
            Some(Instr::Clear)
        } else if hi == 0 && lo == 0xee {
            Some(Instr::Return)
        } else {
            None
        }
    } else if f == 1 {
        Some(Instr::Jump { addr })
    } else if f == 2 {
        Some(Instr::Call { addr })
    } else if f == 3 {
        Some(Instr::SkipEqImm { x, nn: lo })
    } else if f == 4 {
        Some(Instr::SkipNeImm { x, nn: lo })
    } else if f == 5 {
        if n_of(lo) == 0 { Some(Instr::SkipEqReg { x, y }) } else { None }
    } else if f == 6 {
        Some(Instr::LoadImm { x, nn: lo })
    } else if f == 7 {
        Some(Instr::AddImm { x, nn: lo })
    } else if f == 8 {
        let n = n_of(lo);
        if n == 0 {
            Some(Instr::Move { x, y })
        } else if n == 1 {
            Some(Instr::Or { x, y })
        } else if n == 2 {
            Some(Instr::And { x, y })
        } else if n == 3 {
            Some(Instr::Xor { x, y })
        } else if n == 4 {
            Some(Instr::AddReg { x, y })
        } else if n == 5 {
            Some(Instr::SubReg { x, y })
        } else if n == 6 {
            Some(Instr::ShiftRight { x })
        } else if n == 7 {
            Some(Instr::SubRev { x, y })
        } else if n == 0xe {
            Some(Instr::ShiftLeft { x })
        } else {
            None
        }
    } else if f == 9 {
        if n_of(lo) == 0 { Some(Instr::SkipNeReg { x, y }) } else { None }
    } else if f == 0xa {
        Some(Instr::SetIndex { addr })
    } else if f == 0xb {
        Some(Instr::JumpOffset { addr })
    } else if f == 0xc {
        Some(Instr::Random { x, nn: lo })
    } else if f == 0xd {
        Some(Instr::Draw { x, y, n: n_of(lo) })
    } else if f == 0xe {
        if lo == 0x9e {
            Some(Instr::SkipKey { x })
        } else if lo == 0xa1 {
            Some(Instr::SkipNoKey { x })
        } else {
            None
        }
    } else {
        if lo == 0x07 {
            Some(Instr::GetDelay { x })
        } else if lo == 0x0a {
            Some(Instr::WaitKey { x })
        } else if lo == 0x15 {
            Some(Instr::SetDelay { x })
        } else if lo == 0x18 {
            Some(Instr::SetSound { x })
        } else if lo == 0x1e {
            Some(Instr::AddIndex { x })
        } else if lo == 0x29 {
            Some(Instr::FontChar { x })
        } else if lo == 0x33 {
            Some(Instr::Bcd { x })
        } else if lo == 0x55 {
            Some(Instr::StoreRegs { x })
        } else if lo == 0x65 {
            Some(Instr::LoadRegs { x })
        } else {
            None
        }
    }
}

/// Decodes the two bytes of one instruction word, high byte first.
pub fn decode(hi: u8, lo: u8) -> (r: Option<Instr>)
    ensures
        r == decoded(hi, lo),
        r matches Some(ins) ==> ins.wf(),
{
    let f = hi / 16;
    let x = hi % 16;
    let y = lo / 16;
    let n = lo % 16;
    let addr: u16 = (x as u16) * 256 + lo as u16;
    match f {
        0 => {
            if hi == 0 && lo == 0xe0 {
                Some(Instr::Clear)
            } else if hi == 0 && lo == 0xee {
                Some(Instr::Return)
            } else {
                None
            }
        },
        1 => Some(Instr::Jump { addr }),
        2 => Some(Instr::Call { addr }),
        3 => Some(Instr::SkipEqImm { x, nn: lo }),
        4 => Some(Instr::SkipNeImm { x, nn: lo }),
        5 => if n == 0 { Some(Instr::SkipEqReg { x, y }) } else { None },
        6 => Some(Instr::LoadImm { x, nn: lo }),
        7 => Some(Instr::AddImm { x, nn: lo }),
        8 => match n {
            0 => Some(Instr::Move { x, y }),
            1 => Some(Instr::Or { x, y }),
            2 => Some(Instr::And { x, y }),
            3 => Some(Instr::Xor { x, y }),
            4 => Some(Instr::AddReg { x, y }),
            5 => Some(Instr::SubReg { x, y }),
            6 => Some(Instr::ShiftRight { x }),
            7 => Some(Instr::SubRev { x, y }),
            0xe => Some(Instr::ShiftLeft { x }),
            _ => None,
        },
        9 => if n == 0 { Some(Instr::SkipNeReg { x, y }) } else { None },
        0xa => Some(Instr::SetIndex { addr }),
        0xb => Some(Instr::JumpOffset { addr }),
        0xc => Some(Instr::Random { x, nn: lo }),
        0xd => Some(Instr::Draw { x, y, n }),
        0xe => match lo {
            0x9e => Some(Instr::SkipKey { x }),
            0xa1 => Some(Instr::SkipNoKey { x }),
            _ => None,
        },
        _ => match lo {
            0x07 => Some(Instr::GetDelay { x }),
            0x0a => Some(Instr::WaitKey { x }),
            0x15 => Some(Instr::SetDelay { x }),
            0x18 => Some(Instr::SetSound { x }),
            0x1e => Some(Instr::AddIndex { x }),
            0x29 => Some(Instr::FontChar { x }),
            0x33 => Some(Instr::Bcd { x }),
            0x55 => Some(Instr::StoreRegs { x }),
            0x65 => Some(Instr::LoadRegs { x }),
            _ => None,
        },
    }
}

} // verus!
