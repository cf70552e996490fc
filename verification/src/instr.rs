use vstd::prelude::*;

verus! {

/// One decoded instruction. `x` and `y` are register indices (one nibble
/// each), `imm` an 8-bit immediate, `addr` a 12-bit address, `n` the
/// nibble giving a sprite's height.
#[derive(Clone, Copy, Debug, PartialEq, Eq, Structural)]
pub enum Instr {
    /// 0000: no operation.
    Nop,
    /// 00E0: clear the display.
    Clear,
    /// 00EE: return from a subroutine.
    Ret,
    /// 1nnn: jump.
    Jmp { addr: u16 },
    /// 2nnn: call a subroutine.
    Call { addr: u16 },
    /// 3xkk: skip the next instruction if Vx equals the immediate.
    SkipEqImm { x: u8, imm: u8 },
    /// 4xkk: skip the next instruction if Vx differs from the immediate.
    SkipNeImm { x: u8, imm: u8 },
    /// 5xy0: skip the next instruction if Vx equals Vy.
    SkipEqReg { x: u8, y: u8 },
    /// 6xkk: set Vx to the immediate.
    SetImm { x: u8, imm: u8 },
    /// 7xkk: add the immediate into Vx, wrapping, without touching VF.
    AddImm { x: u8, imm: u8 },
    /// 8xy0: copy Vy into Vx.
    Mov { x: u8, y: u8 },
    /// 8xy1: Vx |= Vy.
    Or { x: u8, y: u8 },
    /// 8xy2: Vx &= Vy.
    And { x: u8, y: u8 },
    /// 8xy3: Vx ^= Vy.
    Xor { x: u8, y: u8 },
    /// 8xy4: Vx += Vy; VF records the carry.
    Add { x: u8, y: u8 },
    /// 8xy5: Vx -= Vy; VF is 1 exactly when no borrow occurred.
    Sub { x: u8, y: u8 },
    /// 8xy6: shift Vx right by one; VF receives the bit shifted out.
    Shr { x: u8 },
    /// 8xy7: Vx = Vy - Vx; VF is 1 exactly when no borrow occurred.
    SubFrom { x: u8, y: u8 },
    /// 8xyE: shift Vx left by one; VF receives the bit shifted out.
    Shl { x: u8 },
    /// 9xy0: skip the next instruction if Vx differs from Vy.
    SkipNeReg { x: u8, y: u8 },
    /// Annn: set the address register I.
    SetIndex { addr: u16 },
    /// Bnnn: jump to the address plus V0.
    JmpPlusV0 { addr: u16 },
    /// Cxkk: set Vx to a random byte masked by the immediate.
    Rand { x: u8, imm: u8 },
    /// Dxyn: draw the n-row sprite at memory[I..] at (Vx, Vy).
    Draw { x: u8, y: u8, n: u8 },
    /// Ex9E: skip the next instruction if key Vx is pressed.
    SkipKeyPressed { x: u8 },
    /// ExA1: skip the next instruction if key Vx is not pressed.
    SkipKeyNotPressed { x: u8 },
    /// Fx07: set Vx to the delay timer.
    GetDelay { x: u8 },
    /// Fx0A: wait for a key press and store the key index in Vx.
    WaitKey { x: u8 },
    /// Fx15: set the delay timer to Vx.
    SetDelay { x: u8 },
    /// Fx18: set the sound timer to Vx.
    SetSound { x: u8 },
    /// Fx1E: add Vx into the address register I, wrapping.
    AddIndex { x: u8 },
    /// Fx29: point I at the font glyph for the digit in Vx.
    FontAddr { x: u8 },
    /// Fx33: store the decimal digits of Vx at memory[I..I+3].
    StoreBcd { x: u8 },
    /// Fx55: store V0..Vx inclusive at memory[I..].
    StoreRegs { x: u8 },
    /// Fx65: load memory[I..] into V0..Vx inclusive.
    LoadRegs { x: u8 },
}

/// Highest nibble of an instruction word.
pub open spec fn nib1(op: u16) -> u16 {
    op / 0x1000
}

/// Second nibble: the X register field.
pub open spec fn nib2(op: u16) -> u16 {
    (op / 0x100) % 0x10
}

/// Third nibble: the Y register field or an opcode sub-class.
pub open spec fn nib3(op: u16) -> u16 {
    (op / 0x10) % 0x10
}

/// Lowest nibble: an opcode sub-class or the sprite height.
pub open spec fn nib4(op: u16) -> u16 {
    op % 0x10
}

/// Low byte of an instruction word: the 8-bit immediate.
pub open spec fn imm8(op: u16) -> u8 {
    (op % 0x100) as u8
}

/// Low 12 bits of an instruction word: the address field.
pub open spec fn addr12(op: u16) -> u16 {
    (op % 0x1000) as u16
}

/// Decoding: the instruction denoted by a 16-bit word, or `None` when the
/// word matches no opcode pattern.
pub open spec fn spec_decode(op: u16) -> Option<Instr> {
    let d1 = nib1(op);
    let d3 = nib3(op);
    let d4 = nib4(op);
    let x = nib2(op) as u8;
    let y = nib3(op) as u8;
    let n = nib4(op) as u8;
    let imm = imm8(op);
    let addr = addr12(op);
    if op == 0x0000 {
        Some(Instr::Nop)
    } else if op == 0x00E0 {
        Some(Instr::Clear)
    } else if op == 0x00EE {
        Some(Instr::Ret)
    } else if d1 == 0x1 {
        Some(Instr::Jmp { addr })
    } else if d1 == 0x2 {
        Some(Instr::Call { addr })
    } else if d1 == 0x3 {
        Some(Instr::SkipEqImm { x, imm })
    } else if d1 == 0x4 {
        Some(Instr::SkipNeImm { x, imm })
    } else if d1 == 0x5 && d4 == 0x0 {
        Some(Instr::SkipEqReg { x, y })
    } else if d1 == 0x6 {
        Some(Instr::SetImm { x, imm })
    } else if d1 == 0x7 {
        Some(Instr::AddImm { x, imm })
    } else if d1 == 0x8 && d4 == 0x0 {
        Some(Instr::Mov { x, y })
    } else if d1 == 0x8 && d4 == 0x1 {
        Some(Instr::Or { x, y })
    } else if d1 == 0x8 && d4 == 0x2 {
        Some(Instr::And { x, y })
    } else if d1 == 0x8 && d4 == 0x3 {
        Some(Instr::Xor { x, y })
    } else if d1 == 0x8 && d4 == 0x4 {
        Some(Instr::Add { x, y })
    } else if d1 == 0x8 && d4 == 0x5 {
        Some(Instr::Sub { x, y })
    } else if d1 == 0x8 && d4 == 0x6 {
        Some(Instr::Shr { x })
    } else if d1 == 0x8 && d4 == 0x7 {
        Some(Instr::SubFrom { x, y })
    } else if d1 == 0x8 && d4 == 0xE {
        Some(Instr::Shl { x })
    } else if d1 == 0x9 && d4 == 0x0 {
        Some(Instr::SkipNeReg { x, y })
    } else if d1 == 0xA {
        Some(Instr::SetIndex { addr })
    } else if d1 == 0xB {
        Some(Instr::JmpPlusV0 { addr })
    } else if d1 == 0xC {
        Some(Instr::Rand { x, imm })
    } else if d1 == 0xD {
        Some(Instr::Draw { x, y, n })
    } else if d1 == 0xE && d3 == 0x9 && d4 == 0xE {
        Some(Instr::SkipKeyPressed { x })
    } else if d1 == 0xE && d3 == 0xA && d4 == 0x1 {
        Some(Instr::SkipKeyNotPressed { x })
    } else if d1 == 0xF && d3 == 0x0 && d4 == 0x7 {
        Some(Instr::GetDelay { x })
    } else if d1 == 0xF && d3 == 0x0 && d4 == 0xA {
        Some(Instr::WaitKey { x })
    } else if d1 == 0xF && d3 == 0x1 && d4 == 0x5 {
        Some(Instr::SetDelay { x })
    } else if d1 == 0xF && d3 == 0x1 && d4 == 0x8 {
        Some(Instr::SetSound { x })
    } else if d1 == 0xF && d3 == 0x1 && d4 == 0xE {
        Some(Instr::AddIndex { x })
    } else if d1 == 0xF && d3 == 0x2 && d4 == 0x9 {
        Some(Instr::FontAddr { x })
    } else if d1 == 0xF && d3 == 0x3 && d4 == 0x3 {
        Some(Instr::StoreBcd { x })
    } else if d1 == 0xF && d3 == 0x5 && d4 == 0x5 {
        Some(Instr::StoreRegs { x })
    } else if d1 == 0xF && d3 == 0x6 && d4 == 0x5 {
        Some(Instr::LoadRegs { x })
    } else {
        None
    }
}

/// Field bounds that hold of every decoded instruction: register indices
/// and sprite heights are one nibble, addresses are 12 bits.
pub open spec fn instr_wf(instr: Instr) -> bool {
    match instr {
        Instr::Nop => true,
        Instr::Clear => true,
        Instr::Ret => true,
        Instr::Jmp { addr } => addr < 4096,
        Instr::Call { addr } => addr < 4096,
        Instr::SkipEqImm { x, imm } => x < 16,
        Instr::SkipNeImm { x, imm } => x < 16,
        Instr::SkipEqReg { x, y } => x < 16 && y < 16,
        Instr::SetImm { x, imm } => x < 16,
        Instr::AddImm { x, imm } => x < 16,
        Instr::Mov { x, y } => x < 16 && y < 16,
        Instr::Or { x, y } => x < 16 && y < 16,
        Instr::And { x, y } => x < 16 && y < 16,
        Instr::Xor { x, y } => x < 16 && y < 16,
        Instr::Add { x, y } => x < 16 && y < 16,
        Instr::Sub { x, y } => x < 16 && y < 16,
        Instr::Shr { x } => x < 16,
        Instr::SubFrom { x, y } => x < 16 && y < 16,
        Instr::Shl { x } => x < 16,
        Instr::SkipNeReg { x, y } => x < 16 && y < 16,
        Instr::SetIndex { addr } => addr < 4096,
        Instr::JmpPlusV0 { addr } => addr < 4096,
        Instr::Rand { x, imm } => x < 16,
        Instr::Draw { x, y, n } => x < 16 && y < 16 && n < 16,
        Instr::SkipKeyPressed { x } => x < 16,
        Instr::SkipKeyNotPressed { x } => x < 16,
        Instr::GetDelay { x } => x < 16,
        Instr::WaitKey { x } => x < 16,
        Instr::SetDelay { x } => x < 16,
        Instr::SetSound { x } => x < 16,
        Instr::AddIndex { x } => x < 16,
        Instr::FontAddr { x } => x < 16,
        Instr::StoreBcd { x } => x < 16,
        Instr::StoreRegs { x } => x < 16,
        Instr::LoadRegs { x } => x < 16,
    }
}

/// Splits an instruction word into its four nibbles and dispatches on
/// them, mirroring `spec_decode` branch for branch.
pub fn decode(op: u16) -> (r: Option<Instr>)
    ensures
        r == spec_decode(op),
        r is Some ==> instr_wf(r->Some_0),
{
    let d1: u16 = op / 0x1000;
    let d2: u16 = (op / 0x100) % 0x10;
    let d3: u16 = (op / 0x10) % 0x10;
    let d4: u16 = op % 0x10;
    let x: u8 = d2 as u8;
    let y: u8 = d3 as u8;
    let n: u8 = d4 as u8;
    let imm: u8 = (op % 0x100) as u8;
    let addr: u16 = op % 0x1000;
    if op == 0x0000 {
        Some(Instr::Nop)
    } else if op == 0x00E0 {
        Some(Instr::Clear)
    } else if op == 0x00EE {
        Some(Instr::Ret)
    } else if d1 == 0x1 {
        Some(Instr::Jmp { addr })
    } else if d1 == 0x2 {
        Some(Instr::Call { addr })
    } else if d1 == 0x3 {
        Some(Instr::SkipEqImm { x, imm })
    } else if d1 == 0x4 {
        Some(Instr::SkipNeImm { x, imm })
    } else if d1 == 0x5 && d4 == 0x0 {
        Some(Instr::SkipEqReg { x, y })
    } else if d1 == 0x6 {
        Some(Instr::SetImm { x, imm })
    } else if d1 == 0x7 {
        Some(Instr::AddImm { x, imm })
    } else if d1 == 0x8 && d4 == 0x0 {
        Some(Instr::Mov { x, y })
    } else if d1 == 0x8 && d4 == 0x1 {
        Some(Instr::Or { x, y })
    } else if d1 == 0x8 && d4 == 0x2 {
        Some(Instr::And { x, y })
    } else if d1 == 0x8 && d4 == 0x3 {
        Some(Instr::Xor { x, y })
    } else if d1 == 0x8 && d4 == 0x4 {
        Some(Instr::Add { x, y })
    } else if d1 == 0x8 && d4 == 0x5 {
        Some(Instr::Sub { x, y })
    } else if d1 == 0x8 && d4 == 0x6 {
        Some(Instr::Shr { x })
    } else if d1 == 0x8 && d4 == 0x7 {
        Some(Instr::SubFrom { x, y })
    } else if d1 == 0x8 && d4 == 0xE {
        Some(Instr::Shl { x })
    } else if d1 == 0x9 && d4 == 0x0 {
        Some(Instr::SkipNeReg { x, y })
    } else if d1 == 0xA {
        Some(Instr::SetIndex { addr })
    } else if d1 == 0xB {
        Some(Instr::JmpPlusV0 { addr })
    } else if d1 == 0xC {
        Some(Instr::Rand { x, imm })
    } else if d1 == 0xD {
        Some(Instr::Draw { x, y, n })
    } else if d1 == 0xE && d3 == 0x9 && d4 == 0xE {
        Some(Instr::SkipKeyPressed { x })
    } else if d1 == 0xE && d3 == 0xA && d4 == 0x1 {
        Some(Instr::SkipKeyNotPressed { x })
    } else if d1 == 0xF && d3 == 0x0 && d4 == 0x7 {
        Some(Instr::GetDelay { x })
    } else if d1 == 0xF && d3 == 0x0 && d4 == 0xA {
        Some(Instr::WaitKey { x })
    } else if d1 == 0xF && d3 == 0x1 && d4 == 0x5 {
        Some(Instr::SetDelay { x })
    } else if d1 == 0xF && d3 == 0x1 && d4 == 0x8 {
        Some(Instr::SetSound { x })
    } else if d1 == 0xF && d3 == 0x1 && d4 == 0xE {
        Some(Instr::AddIndex { x })
    } else if d1 == 0xF && d3 == 0x2 && d4 == 0x9 {
        Some(Instr::FontAddr { x })
    } else if d1 == 0xF && d3 == 0x3 && d4 == 0x3 {
        Some(Instr::StoreBcd { x })
    } else if d1 == 0xF && d3 == 0x5 && d4 == 0x5 {
        Some(Instr::StoreRegs { x })
    } else if d1 == 0xF && d3 == 0x6 && d4 == 0x5 {
        Some(Instr::LoadRegs { x })
    } else {
        None
    }
}

} // verus!
