use vstd::prelude::*;

verus! {

/// One decoded instruction: the operation class together with its operand
/// fields (register indices, immediate byte, 12-bit address, 4-bit nibble).
/// Decoding is total: every 16-bit word maps to a variant, with `Unknown`
/// holding the words no executor handler recognizes.
#[derive(Clone, Copy, PartialEq, Eq, Debug, Structural)]
pub enum Instr {
    /// All-zero sentinel word: stop execution.
    Halt,
    /// Pop the call stack into the program counter.
    Ret,
    /// Clear the display.
    Cls,
    /// Jump to the 12-bit address.
    Jmp(u16),
    /// Jump to the 12-bit address plus register 0.
    JmpV0(u16),
    /// Push the program counter, jump to the 12-bit address.
    Call(u16),
    /// Skip the next instruction if register x equals the byte.
    SeByte(u8, u8),
    /// Skip the next instruction if register x differs from the byte.
    SneByte(u8, u8),
    /// Skip the next instruction if registers x and y are equal.
    SeReg(u8, u8),
    /// Skip the next instruction if registers x and y differ.
    SneReg(u8, u8),
    /// Load the byte into register x.
    LdByte(u8, u8),
    /// Add the byte to register x, wrapping, no flag.
    AddByte(u8, u8),
    /// Copy register y into register x.
    LdReg(u8, u8),
    /// Bitwise or of registers x and y into x.
    Or(u8, u8),
    /// Bitwise and of registers x and y into x.
    And(u8, u8),
    /// Bitwise xor of registers x and y into x.
    Xor(u8, u8),
    /// Wrapping add of registers x and y into x, carry into the flag.
    Add(u8, u8),
    /// Wrapping subtract x - y into x, no-borrow into the flag.
    Sub(u8, u8),
    /// Shift register x right by one, pre-shift low bit into the flag.
    Shr(u8),
    /// Wrapping subtract x - y into x, borrow into the flag.
    Subn(u8, u8),
    /// Shift register x left by one, pre-shift high bit into the flag.
    Shl(u8),
    /// Load the 12-bit address into the index register.
    LdIndex(u16),
    /// Random byte masked by the immediate byte into register x.
    Rnd(u8, u8),
    /// Draw an n-row sprite at the coordinates in registers x and y.
    Drw(u8, u8, u8),
    /// Skip the next instruction if the key named by register x is down.
    Skp(u8),
    /// Skip the next instruction if the key named by register x is up.
    Sknp(u8),
    /// Copy the delay timer into register x.
    LdRegDelay(u8),
    /// Suspend until a key is down, store its index in register x.
    WaitKey(u8),
    /// Copy register x into the delay timer.
    LdDelay(u8),
    /// Copy register x into the sound timer.
    LdSound(u8),
    /// Add register x to the index register, wrapping, no flag.
    AddIndex(u8),
    /// Point the index register at the font glyph for register x.
    LdFont(u8),
    /// Store the decimal digits of register x at the index register.
    StoreBcd(u8),
    /// Copy registers 0..=x into memory at the index register.
    StoreRegs(u8),
    /// Copy memory at the index register into registers 0..=x.
    LoadRegs(u8),
    /// No handler recognizes this word: executing it is a fatal error.
    Unknown(u16),
}

/// What a 16-bit instruction word decodes to: the class nibble picks the
/// operation family, and the remaining fields supply the operands.
pub open spec fn decode_s(w: u16) -> Instr {
    let c = w / 0x1000;
    let x = (w / 0x100) % 16;
    let y = (w / 16) % 16;
    let d = w % 16;
    let nnn = w % 0x1000;
    let kk = w % 0x100;
    if w == 0 {
        Instr::Halt
    } else if c == 0 && x == 0 && y == 0xE && d == 0xE {
        Instr::Ret
    } else if c == 0 && x == 0 && y == 0xE && d == 0 {
        Instr::Cls
    } else if c == 1 {
        Instr::Jmp(nnn as u16)
    } else if c == 2 {
        Instr::Call(nnn as u16)
    } else if c == 3 {
        Instr::SeByte(x as u8, kk as u8)
    } else if c == 4 {
        Instr::SneByte(x as u8, kk as u8)
    } else if c == 5 && d == 0 {
        Instr::SeReg(x as u8, y as u8)
    } else if c == 6 {
        Instr::LdByte(x as u8, kk as u8)
    } else if c == 7 {
        Instr::AddByte(x as u8, kk as u8)
    } else if c == 8 && d == 0 {
        Instr::LdReg(x as u8, y as u8)
    } else if c == 8 && d == 1 {
        Instr::Or(x as u8, y as u8)
    } else if c == 8 && d == 2 {
        Instr::And(x as u8, y as u8)
    } else if c == 8 && d == 3 {
        Instr::Xor(x as u8, y as u8)
    } else if c == 8 && d == 4 {
        Instr::Add(x as u8, y as u8)
    } else if c == 8 && d == 5 {
        Instr::Sub(x as u8, y as u8)
    } else if c == 8 && d == 6 {
        Instr::Shr(x as u8)
    } else if c == 8 && d == 7 {
        Instr::Subn(x as u8, y as u8)
    } else if c == 8 && d == 0xE {
        Instr::Shl(x as u8)
    } else if c == 9 && d == 0 {
        Instr::SneReg(x as u8, y as u8)
    } else if c == 0xA {
        Instr::LdIndex(nnn as u16)
    } else if c == 0xB {
        Instr::JmpV0(nnn as u16)
    } else if c == 0xC {
        Instr::Rnd(x as u8, kk as u8)
    } else if c == 0xD {
        Instr::Drw(x as u8, y as u8, d as u8)
    } else if c == 0xE && y == 9 && d == 0xE {
        Instr::Skp(x as u8)
    } else if c == 0xE && y == 0xA && d == 1 {
        Instr::Sknp(x as u8)
    } else if c == 0xF && y == 0 && d == 7 {
        Instr::LdRegDelay(x as u8)
    } else if c == 0xF && y == 0 && d == 0xA {
        Instr::WaitKey(x as u8)
    } else if c == 0xF && y == 1 && d == 5 {
        Instr::LdDelay(x as u8)
    } else if c == 0xF && y == 1 && d == 8 {
        Instr::LdSound(x as u8)
    } else if c == 0xF && y == 1 && d == 0xE {
        Instr::AddIndex(x as u8)
    } else if c == 0xF && y == 2 && d == 9 {
        Instr::LdFont(x as u8)
    } else if c == 0xF && y == 3 && d == 3 {
        Instr::StoreBcd(x as u8)
    } else if c == 0xF && y == 5 && d == 5 {
        Instr::StoreRegs(x as u8)
    } else if c == 0xF && y == 6 && d == 5 {
        Instr::LoadRegs(x as u8)
    } else {
        Instr::Unknown(w)
    }
}

/// Every operand field a decoded instruction carries is in range: register
/// indices and nibbles are below 16, addresses below 4096.
pub proof fn lemma_decode_fields(w: u16)
    ensures
        decode_s(w) matches Instr::Jmp(a) ==> a < 4096,
        decode_s(w) matches Instr::JmpV0(a) ==> a < 4096,
        decode_s(w) matches Instr::Call(a) ==> a < 4096,
        decode_s(w) matches Instr::SeByte(x, _) ==> x < 16,
        decode_s(w) matches Instr::SneByte(x, _) ==> x < 16,
        decode_s(w) matches Instr::SeReg(x, y) ==> x < 16 && y < 16,
        decode_s(w) matches Instr::SneReg(x, y) ==> x < 16 && y < 16,
        decode_s(w) matches Instr::LdByte(x, _) ==> x < 16,
        decode_s(w) matches Instr::AddByte(x, _) ==> x < 16,
        decode_s(w) matches Instr::LdReg(x, y) ==> x < 16 && y < 16,
        decode_s(w) matches Instr::Or(x, y) ==> x < 16 && y < 16,
        decode_s(w) matches Instr::And(x, y) ==> x < 16 && y < 16,
        decode_s(w) matches Instr::Xor(x, y) ==> x < 16 && y < 16,
        decode_s(w) matches Instr::Add(x, y) ==> x < 16 && y < 16,
        decode_s(w) matches Instr::Sub(x, y) ==> x < 16 && y < 16,
        decode_s(w) matches Instr::Shr(x) ==> x < 16,
        decode_s(w) matches Instr::Subn(x, y) ==> x < 16 && y < 16,
        decode_s(w) matches Instr::Shl(x) ==> x < 16,
        decode_s(w) matches Instr::LdIndex(a) ==> a < 4096,
        decode_s(w) matches Instr::Rnd(x, _) ==> x < 16,
        decode_s(w) matches Instr::Drw(x, y, n) ==> x < 16 && y < 16 && n < 16,
        decode_s(w) matches Instr::Skp(x) ==> x < 16,
        decode_s(w) matches Instr::Sknp(x) ==> x < 16,
        decode_s(w) matches Instr::LdRegDelay(x) ==> x < 16,
        decode_s(w) matches Instr::WaitKey(x) ==> x < 16,
        decode_s(w) matches Instr::LdDelay(x) ==> x < 16,
        decode_s(w) matches Instr::LdSound(x) ==> x < 16,
        decode_s(w) matches Instr::AddIndex(x) ==> x < 16,
        decode_s(w) matches Instr::LdFont(x) ==> x < 16,
        decode_s(w) matches Instr::StoreBcd(x) ==> x < 16,
        decode_s(w) matches Instr::StoreRegs(x) ==> x < 16,
        decode_s(w) matches Instr::LoadRegs(x) ==> x < 16,
{
}

/// Decode a 16-bit instruction word. Total and side-effect-free: every
/// input yields the tuple of fields that `decode_s` assigns to it.
pub fn decode(w: u16) -> (i: Instr)
    ensures
        i == decode_s(w),
{
    let c: u16 = w / 0x1000;
    let x: u16 = (w / 0x100) % 16;
    let y: u16 = (w / 16) % 16;
    let d: u16 = w % 16;
    let nnn: u16 = w % 0x1000;
    let kk: u16 = w % 0x100;
    if w == 0 {
        Instr::Halt
    } else if c == 0 && x == 0 && y == 0xE && d == 0xE {
        Instr::Ret
    } else if c == 0 && x == 0 && y == 0xE && d == 0 {
        Instr::Cls
    } else if c == 1 {
        Instr::Jmp(nnn)
    } else if c == 2 {
        Instr::Call(nnn)
    } else if c == 3 {
        Instr::SeByte(x as u8, kk as u8)
    } else if c == 4 {
        Instr::SneByte(x as u8, kk as u8)
    } else if c == 5 && d == 0 {
        Instr::SeReg(x as u8, y as u8)
    } else if c == 6 {
        Instr::LdByte(x as u8, kk as u8)
    } else if c == 7 {
        Instr::AddByte(x as u8, kk as u8)
    } else if c == 8 && d == 0 {
        Instr::LdReg(x as u8, y as u8)
    } else if c == 8 && d == 1 {
        Instr::Or(x as u8, y as u8)
    } else if c == 8 && d == 2 {
        Instr::And(x as u8, y as u8)
    } else if c == 8 && d == 3 {
        Instr::Xor(x as u8, y as u8)
    } else if c == 8 && d == 4 {
        Instr::Add(x as u8, y as u8)
    } else if c == 8 && d == 5 {
        Instr::Sub(x as u8, y as u8)
    } else if c == 8 && d == 6 {
        Instr::Shr(x as u8)
    } else if c == 8 && d == 7 {
        Instr::Subn(x as u8, y as u8)
    } else if c == 8 && d == 0xE {
        Instr::Shl(x as u8)
    } else if c == 9 && d == 0 {
        Instr::SneReg(x as u8, y as u8)
    } else if c == 0xA {
        Instr::LdIndex(nnn)
    } else if c == 0xB {
        Instr::JmpV0(nnn)
    } else if c == 0xC {
        Instr::Rnd(x as u8, kk as u8)
    } else if c == 0xD {
        Instr::Drw(x as u8, y as u8, d as u8)
    } else if c == 0xE && y == 9 && d == 0xE {
        Instr::Skp(x as u8)
    } else if c == 0xE && y == 0xA && d == 1 {
        Instr::Sknp(x as u8)
    } else if c == 0xF && y == 0 && d == 7 {
        Instr::LdRegDelay(x as u8)
    } else if c == 0xF && y == 0 && d == 0xA {
        Instr::WaitKey(x as u8)
    } else if c == 0xF && y == 1 && d == 5 {
        Instr::LdDelay(x as u8)
    } else if c == 0xF && y == 1 && d == 8 {
        Instr::LdSound(x as u8)
    } else if c == 0xF && y == 1 && d == 0xE {
        Instr::AddIndex(x as u8)
    } else if c == 0xF && y == 2 && d == 9 {
        Instr::LdFont(x as u8)
    } else if c == 0xF && y == 3 && d == 3 {
        Instr::StoreBcd(x as u8)
    } else if c == 0xF && y == 5 && d == 5 {
        Instr::StoreRegs(x as u8)
    } else if c == 0xF && y == 6 && d == 5 {
        Instr::LoadRegs(x as u8)
    } else {
        Instr::Unknown(w)
    }
}

} // verus!
