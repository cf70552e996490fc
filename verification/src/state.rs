use vstd::prelude::*;

verus! {

/// Mathematical model of the whole machine state. Every contract of the
/// library speaks of values of this type, obtained through the view of
/// the executable machine.
pub ghost struct MState {
    /// Program counter.
    pub pc: u16,
    /// Stack pointer: number of return addresses currently on the stack.
    pub sp: u16,
    /// Delay timer.
    pub dt: u8,
    /// Sound timer.
    pub st: u8,
    /// The 4096-byte address space.
    pub ram: Seq<u8>,
    /// The 64x32 display bitmap, row-major.
    pub screen: Seq<bool>,
    /// The 16 key states.
    pub keys: Seq<bool>,
    /// The 16 general registers; register 15 doubles as the flag register.
    pub v: Seq<u8>,
    /// The 16-bit address register.
    pub i: u16,
    /// The 16 call-stack slots.
    pub stack: Seq<u16>,
}

impl MState {
    /// The fixed sizes of the address space, display, key pad, register
    /// file and call stack.
    pub open spec fn wf(self) -> bool {
        &&& self.ram.len() == 4096
        &&& self.screen.len() == 2048
        &&& self.keys.len() == 16
        &&& self.v.len() == 16
        &&& self.stack.len() == 16
    }

    /// The state of a freshly constructed machine: the font in the first
    /// 80 bytes of memory, the program counter at 512, everything else
    /// zeroed.
    pub open spec fn initial() -> MState {
        MState {
            pc: 512,
            sp: 0,
            dt: 0,
            st: 0,
            ram: Seq::new(4096, |p: int| if p < 80 { font_byte(p) } else { 0u8 }),
            screen: Seq::new(2048, |p: int| false),
            keys: Seq::new(16, |p: int| false),
            v: Seq::new(16, |p: int| 0u8),
            i: 0,
            stack: Seq::new(16, |p: int| 0u16),
        }
    }
}

/// The address space after a program's bytes were copied in at offset
/// 512; everything else keeps its old value.
pub open spec fn load_ram(ram: Seq<u8>, data: Seq<u8>) -> Seq<u8>
    recommends
        ram.len() == 4096,
        data.len() <= 3584,
{
    Seq::new(
        4096,
        |p: int|
            if 512 <= p < 512 + data.len() {
                data[p - 512]
            } else {
                ram[p]
            },
    )
}

/// Byte `p` of the built-in font: sixteen glyphs (hexadecimal digits 0
/// through F) of five bytes each, one line of the chain per glyph.
pub open spec fn font_byte(p: int) -> u8 {
    if p == 0 { 0xF0 } else if p == 1 { 0x90 } else if p == 2 { 0x90 } else if p == 3 { 0x90 } else if p == 4 { 0xF0 } else
    if p == 5 { 0x20 } else if p == 6 { 0x60 } else if p == 7 { 0x20 } else if p == 8 { 0x20 } else if p == 9 { 0x70 } else
    if p == 10 { 0xF0 } else if p == 11 { 0x10 } else if p == 12 { 0xF0 } else if p == 13 { 0x80 } else if p == 14 { 0xF0 } else
    if p == 15 { 0xF0 } else if p == 16 { 0x10 } else if p == 17 { 0xF0 } else if p == 18 { 0x10 } else if p == 19 { 0xF0 } else
    if p == 20 { 0x90 } else if p == 21 { 0x90 } else if p == 22 { 0xF0 } else if p == 23 { 0x10 } else if p == 24 { 0x10 } else
    if p == 25 { 0xF0 } else if p == 26 { 0x80 } else if p == 27 { 0xF0 } else if p == 28 { 0x10 } else if p == 29 { 0xF0 } else
    if p == 30 { 0xF0 } else if p == 31 { 0x80 } else if p == 32 { 0xF0 } else if p == 33 { 0x90 } else if p == 34 { 0xF0 } else
    if p == 35 { 0xF0 } else if p == 36 { 0x10 } else if p == 37 { 0x20 } else if p == 38 { 0x40 } else if p == 39 { 0x40 } else
    if p == 40 { 0xF0 } else if p == 41 { 0x90 } else if p == 42 { 0xF0 } else if p == 43 { 0x90 } else if p == 44 { 0xF0 } else
    if p == 45 { 0xF0 } else if p == 46 { 0x90 } else if p == 47 { 0xF0 } else if p == 48 { 0x10 } else if p == 49 { 0xF0 } else
    if p == 50 { 0xF0 } else if p == 51 { 0x90 } else if p == 52 { 0xF0 } else if p == 53 { 0x90 } else if p == 54 { 0x90 } else
    if p == 55 { 0xE0 } else if p == 56 { 0x90 } else if p == 57 { 0xE0 } else if p == 58 { 0x90 } else if p == 59 { 0xE0 } else
    if p == 60 { 0xF0 } else if p == 61 { 0x80 } else if p == 62 { 0x80 } else if p == 63 { 0x80 } else if p == 64 { 0xF0 } else
    if p == 65 { 0xE0 } else if p == 66 { 0x90 } else if p == 67 { 0x90 } else if p == 68 { 0x90 } else if p == 69 { 0xE0 } else
    if p == 70 { 0xF0 } else if p == 71 { 0x80 } else if p == 72 { 0xF0 } else if p == 73 { 0x80 } else if p == 74 { 0xF0 } else
    if p == 75 { 0xF0 } else if p == 76 { 0x80 } else if p == 77 { 0xF0 } else if p == 78 { 0x80 } else { 0x80 }
}

} // verus!
