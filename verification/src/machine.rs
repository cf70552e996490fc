use vstd::prelude::*;
use crate::state::MState;
use crate::state::font_byte;
use crate::state::load_ram;
use crate::instr::{decode, instr_wf, Instr};
use crate::semantics::{
    draw_collision, fetched, first_key_from, hit_before, instr_effect, lemma_hit_empty,
    lemma_hit_row_end, lemma_hit_step, lemma_no_earlier_hit, lemma_pixel_index_range, pixel_index,
    sem_add, sem_addiw, sem_and, sem_call, sem_clear, sem_draw, sem_iadd, sem_jmp, sem_jmp2,
    sem_ld, sem_ldf, sem_ldi, sem_ldr, sem_ldt, sem_mv, sem_or, sem_ret, sem_rnd, sem_sbcd,
    sem_sdt, sem_shl, sem_shr, sem_sst, sem_strr, sem_sub, sem_sub2, sem_tick_timers, sem_wkp,
    sem_xor, skip_pc, sprite_hits, sprite_row_bit, step_spec, word_at, VmError,
};

verus! {

broadcast use vstd::array::group_array_axioms;

/// Width of the display in pixels.
pub const SCREEN_WIDTH: usize = 64;

/// Height of the display in pixels.
pub const SCREEN_HEIGHT: usize = 32;

/// Relies on rand::random: one byte drawn from the thread-local
/// generator; nothing is assumed of its value.
#[verifier::external_body]
fn random_byte() -> u8 {
    rand::random()
}

/// The CHIP-8 machine: all of its state, advanced one instruction or one
/// timer tick at a time. Its mathematical value is the `MState` view.
pub struct Emulator {
    pc: u16,
    sp: u16,
    dt: u8,
    st: u8,
    ram: [u8; 4096],
    screen: [bool; 2048],
    keys: [bool; 16],
    v_reg: [u8; 16],
    i_reg: u16,
    stack: [u16; 16],
}

impl View for Emulator {
    type V = MState;

    closed spec fn view(&self) -> MState {
        MState {
            pc: self.pc,
            sp: self.sp,
            dt: self.dt,
            st: self.st,
            ram: self.ram@,
            screen: self.screen@,
            keys: self.keys@,
            v: self.v_reg@,
            i: self.i_reg,
            stack: self.stack@,
        }
    }
}

/// Byte `p` of the built-in font table, mirroring `font_byte` branch for
/// branch.
fn font_byte_at(p: usize) -> (r: u8)
    requires
        p < 80,
    ensures
        r == font_byte(p as int),
{
    if p == 0 { 0xF0 } else if p == 1 { 0x90 } else if p == 2 { 0x90 } else if p == 3 { 0x90 } else if p == 4 { 0xF0 } else
    if p == 5 { 0x20 } else if p == 6 { 0x60 } else if p == 7 { 0x20 } else if p == 8 { 0x20 } else if p == 9 { 0x70 } else
    if p == 10 { 0xF0 } else if p == 11 { 0x10 } else if p == 12 { 0xF0 } else if p == 13 { 0x80 } else if p == 14 { 0xF0 } else
    if p == 15 { 0xF0 } else if p == 16 { 0x10 } else if p == 17 { 0xF0 } else if p == 18 { 0x10 } else if p == 19 { 0xF0 } else
    if p == 20 { 0x90 } else if p == 21 { 0x90 } else if p == 22 { 0xF0 } else if p == 23 { 0x10 } else if p == 24 { 0x10 } else
    if p == 25 { 0xF0 } else if p == 26 { 0x80 } else if p == 27 { 0xF0 } else if p == 28 { 0x10 } else if p == 29 { 0xF0 } else
    if p == 30 { 0xF0 } else if p == 31 { 0x80 } else if p == 32 { 0xF0 } else if p == 33 { 0x90 } else if p == 34 { 0xF0 } else
    if p == 35 { 0xF0 } else if p == 36 { 0x10 } else if p == 37 { 0x20 } else if p == 38 { 0x40 } else if p == 39 { 0x40 } else
    if p == 40 { 0xF0 } else if p == 41 { 0x90 } else if p == 42 { 0xF0 } else if p == 43 { 0x90 } else if p == 44 { 0xF0 } else
    if p == 45 { 0xF0 } else if p == 46 { 0x90 } else if p == 47 { 0xF0 } else if p == 48 { 0x10 } else if p == 49 { 0xF0 } else
    if p == 50 { 0xF0 } else if p == 51 { 0x90 } else if p == 52 { 0xF0 } else if p == 53 { 0x90 } else if p == 54 { 0x90 } else
    if p == 55 { 0xE0 } else if p == 56 { 0x90 } else if p == 57 { 0xE0 } else if p == 58 { 0x90 } else if p == 59 { 0xE0 } else
    if p == 60 { 0xF0 } else if p == 61 { 0x80 } else if p == 62 { 0x80 } else if p == 63 { 0x80 } else if p == 64 { 0xF0 } else
    if p == 65 { 0xE0 } else if p == 66 { 0x90 } else if p == 67 { 0x90 } else if p == 68 { 0x90 } else if p == 69 { 0xE0 } else
    if p == 70 { 0xF0 } else if p == 71 { 0x80 } else if p == 72 { 0xF0 } else if p == 73 { 0x80 } else if p == 74 { 0xF0 } else
    if p == 75 { 0xF0 } else if p == 76 { 0x80 } else if p == 77 { 0xF0 } else if p == 78 { 0x80 } else { 0x80 }
}

impl Emulator {
    /// A fresh machine: memory zeroed and then the font copied into its
    /// first 80 bytes, the program counter at 512, everything else zero.
    pub fn new() -> (r: Emulator)
        ensures
            r@ == MState::initial(),
    {
        let mut emu = Emulator {
            pc: 512,
            sp: 0,
            dt: 0,
            st: 0,
            ram: [0u8; 4096],
            screen: [false; 2048],
            keys: [false; 16],
            v_reg: [0u8; 16],
            i_reg: 0,
            stack: [0u16; 16],
        };
        let mut p: usize = 0;
        while p < 80
            invariant
                p <= 80,
                emu.pc == 512,
                emu.sp == 0,
                emu.dt == 0,
                emu.st == 0,
                emu.i_reg == 0,
                forall|j: int| 0 <= j < p ==> emu.ram@[j] == font_byte(j),
                forall|j: int| p <= j < 4096 ==> emu.ram@[j] == 0u8,
                forall|j: int| 0 <= j < 2048 ==> emu.screen@[j] == false,
                forall|j: int| 0 <= j < 16 ==> emu.keys@[j] == false,
                forall|j: int| 0 <= j < 16 ==> emu.v_reg@[j] == 0u8,
                forall|j: int| 0 <= j < 16 ==> emu.stack@[j] == 0u16,
            decreases 80 - p,
        {
            let b = font_byte_at(p);
            emu.ram[p] = b;
            p += 1;
        }
        proof {
            assert(emu@.ram =~= MState::initial().ram);
            assert(emu@.screen =~= MState::initial().screen);
            assert(emu@.keys =~= MState::initial().keys);
            assert(emu@.v =~= MState::initial().v);
            assert(emu@.stack =~= MState::initial().stack);
        }
        emu
    }

    /// Restores the just-constructed state: memory re-zeroed, the font
    /// copied back in, every register, timer, stack slot and pixel
    /// cleared, the program counter back at 512.
    pub fn reset(&mut self)
        ensures
            final(self)@ == MState::initial(),
    {
        *self = Emulator::new();
    }

    /// Copies a program into memory starting at offset 512. The caller
    /// keeps the program inside the address space.
    pub fn load(&mut self, data: &[u8])
        requires
            data@.len() <= 3584,
        ensures
            final(self)@ == (MState { ram: load_ram(old(self)@.ram, data@), ..old(self)@ }),
    {
        let mut k: usize = 0;
        while k < data.len()
            invariant
                data@.len() <= 3584,
                k <= data@.len(),
                self.pc == old(self).pc,
                self.sp == old(self).sp,
                self.dt == old(self).dt,
                self.st == old(self).st,
                self.i_reg == old(self).i_reg,
                self.screen@ == old(self).screen@,
                self.keys@ == old(self).keys@,
                self.v_reg@ == old(self).v_reg@,
                self.stack@ == old(self).stack@,
                forall|j: int| 512 <= j < 512 + k ==> self.ram@[j] == data@[j - 512],
                forall|j: int|
                    0 <= j < 4096 && !(512 <= j < 512 + k) ==> self.ram@[j] == old(self).ram@[j],
            decreases data@.len() - k,
        {
            self.ram[512 + k] = data[k];
            k += 1;
        }
        proof {
            assert(self@.ram =~= load_ram(old(self)@.ram, data@));
        }
    }

    /// Records that key `i` is pressed or released.
    pub fn keypress(&mut self, i: usize, pressed: bool)
        requires
            i < 16,
        ensures
            final(self)@ == (MState { keys: old(self)@.keys.update(i as int, pressed), ..old(self)@ }),
    {
        self.keys[i] = pressed;
    }

    /// Read-only view of the 2048-pixel display bitmap, row-major.
    pub fn get_display(&self) -> (r: &[bool])
        ensures
            r@ == self@.screen,
    {
        self.screen.as_slice()
    }

    /// One timer tick: each timer drops by one exactly when it is
    /// nonzero. The instant the sound timer reaches zero is the signal
    /// for the external audio collaborator; the machine itself only
    /// exposes the value.
    pub fn tick_timers(&mut self)
        ensures
            final(self)@ == sem_tick_timers(old(self)@),
    {
        if self.dt > 0 {
            self.dt = self.dt - 1;
        }
        if self.st > 0 {
            self.st = self.st - 1;
        }
    }

    /// The program counter.
    pub fn pc(&self) -> (r: u16)
        ensures
            r == self@.pc,
    {
        self.pc
    }

    /// General register `x`.
    pub fn reg(&self, x: usize) -> (r: u8)
        requires
            x < 16,
        ensures
            r == self@.v[x as int],
    {
        self.v_reg[x]
    }

    /// The address register I.
    pub fn index_reg(&self) -> (r: u16)
        ensures
            r == self@.i,
    {
        self.i_reg
    }

    /// The delay timer.
    pub fn delay_timer(&self) -> (r: u8)
        ensures
            r == self@.dt,
    {
        self.dt
    }

    /// The sound timer.
    pub fn sound_timer(&self) -> (r: u8)
        ensures
            r == self@.st,
    {
        self.st
    }

    /// The memory byte at `addr`.
    pub fn mem_byte(&self, addr: usize) -> (r: u8)
        requires
            addr < 4096,
        ensures
            r == self@.ram[addr as int],
    {
        self.ram[addr]
    }

    /// Pushes a return address; the caller keeps room on the stack.
    fn push(&mut self, val: u16)
        requires
            old(self)@.sp < 16,
        ensures
            final(self)@ == (MState {
                stack: old(self)@.stack.update(old(self)@.sp as int, val),
                sp: (old(self)@.sp + 1) as u16,
                ..old(self)@
            }),
    {
        self.stack[self.sp as usize] = val;
        self.sp = self.sp + 1;
    }

    /// Pops the top return address; the caller keeps the stack nonempty.
    fn pop(&mut self) -> (r: u16)
        requires
            0 < old(self)@.sp <= 16,
        ensures
            r == old(self)@.stack[old(self)@.sp - 1],
            final(self)@ == (MState { sp: (old(self)@.sp - 1) as u16, ..old(self)@ }),
    {
        self.sp = self.sp - 1;
        self.stack[self.sp as usize]
    }

    /// CLEAR: every pixel off.
    fn clear(&mut self)
        ensures
            final(self)@ == sem_clear(old(self)@),
    {
        self.screen = [false; 2048];
        proof {
            assert(self@.screen =~= sem_clear(old(self)@).screen);
        }
    }

    /// RET: pop the return address, or fault when the stack pointer is
    /// outside its bound.
    fn ret(&mut self) -> (r: Result<(), VmError>)
        ensures
            0 < old(self)@.sp <= 16 ==> r is Ok && final(self)@ == sem_ret(old(self)@),
            old(self)@.sp == 0 || old(self)@.sp > 16 ==> r == Err::<(), VmError>(
                VmError::OutOfRange,
            ) && final(self)@ == old(self)@,
    {
        if self.sp == 0 || self.sp > 16 {
            return Err(VmError::OutOfRange);
        }
        let a = self.pop();
        self.pc = a;
        Ok(())
    }

    /// CALL: push the program counter and jump, or fault when the stack
    /// is full.
    fn call(&mut self, addr: u16) -> (r: Result<(), VmError>)
        ensures
            old(self)@.sp < 16 ==> r is Ok && final(self)@ == sem_call(old(self)@, addr),
            old(self)@.sp >= 16 ==> r == Err::<(), VmError>(VmError::OutOfRange) && final(self)@
                == old(self)@,
    {
        if self.sp >= 16 {
            return Err(VmError::OutOfRange);
        }
        let pc = self.pc;
        self.push(pc);
        self.pc = addr;
        Ok(())
    }

    /// JMP: jump to the address.
    fn jmp(&mut self, addr: u16)
        ensures
            final(self)@ == sem_jmp(old(self)@, addr),
    {
        self.pc = addr;
    }

    /// JMP2: jump to the address plus V0.
    fn jmp2(&mut self, addr: u16)
        requires
            addr < 4096,
        ensures
            final(self)@ == sem_jmp2(old(self)@, addr),
    {
        self.pc = self.v_reg[0] as u16 + addr;
    }

    /// LD: load the immediate into Vx.
    fn ld(&mut self, x: u8, imm: u8)
        requires
            x < 16,
        ensures
            final(self)@ == sem_ld(old(self)@, x as int, imm),
    {
        self.v_reg[x as usize] = imm;
    }

    /// ADDIW: wrapping add of the immediate into Vx; no flag change.
    fn addiw(&mut self, x: u8, imm: u8)
        requires
            x < 16,
        ensures
            final(self)@ == sem_addiw(old(self)@, x as int, imm),
    {
        let sum: u16 = self.v_reg[x as usize] as u16 + imm as u16;
        self.v_reg[x as usize] = (sum % 256) as u8;
    }

    /// MV: copy Vy into Vx.
    fn mv(&mut self, x: u8, y: u8)
        requires
            x < 16,
            y < 16,
        ensures
            final(self)@ == sem_mv(old(self)@, x as int, y as int),
    {
        self.v_reg[x as usize] = self.v_reg[y as usize];
    }

    /// OR: bitwise or of Vy into Vx.
    fn or(&mut self, x: u8, y: u8)
        requires
            x < 16,
            y < 16,
        ensures
            final(self)@ == sem_or(old(self)@, x as int, y as int),
    {
        let r = self.v_reg[x as usize] | self.v_reg[y as usize];
        self.v_reg[x as usize] = r;
    }

    /// AND: bitwise and of Vy into Vx.
    fn and(&mut self, x: u8, y: u8)
        requires
            x < 16,
            y < 16,
        ensures
            final(self)@ == sem_and(old(self)@, x as int, y as int),
    {
        let r = self.v_reg[x as usize] & self.v_reg[y as usize];
        self.v_reg[x as usize] = r;
    }

    /// XOR: bitwise exclusive or of Vy into Vx.
    fn xor(&mut self, x: u8, y: u8)
        requires
            x < 16,
            y < 16,
        ensures
            final(self)@ == sem_xor(old(self)@, x as int, y as int),
    {
        let r = self.v_reg[x as usize] ^ self.v_reg[y as usize];
        self.v_reg[x as usize] = r;
    }

    /// ADD: add Vy into Vx; VF records the carry.
    fn add(&mut self, x: u8, y: u8)
        requires
            x < 16,
            y < 16,
        ensures
            final(self)@ == sem_add(old(self)@, x as int, y as int),
    {
        let sum: u16 = self.v_reg[x as usize] as u16 + self.v_reg[y as usize] as u16;
        let flag: u8 = if sum > 255 {
            1
        } else {
            0
        };
        self.v_reg[x as usize] = (sum % 256) as u8;
        self.v_reg[15] = flag;
    }

    /// SUB: subtract Vy from Vx; VF is 1 exactly when no borrow occurred.
    fn sub(&mut self, x: u8, y: u8)
        requires
            x < 16,
            y < 16,
        ensures
            final(self)@ == sem_sub(old(self)@, x as int, y as int),
    {
        let a = self.v_reg[x as usize];
        let b = self.v_reg[y as usize];
        if a >= b {
            self.v_reg[x as usize] = a - b;
            self.v_reg[15] = 1;
        } else {
            self.v_reg[x as usize] = (a as u16 + 256 - b as u16) as u8;
            self.v_reg[15] = 0;
        }
    }

    /// SUB2: Vx becomes Vy minus Vx; VF is 1 exactly when no borrow
    /// occurred.
    fn sub2(&mut self, x: u8, y: u8)
        requires
            x < 16,
            y < 16,
        ensures
            final(self)@ == sem_sub2(old(self)@, x as int, y as int),
    {
        let a = self.v_reg[x as usize];
        let b = self.v_reg[y as usize];
        if b >= a {
            self.v_reg[x as usize] = b - a;
            self.v_reg[15] = 1;
        } else {
            self.v_reg[x as usize] = (b as u16 + 256 - a as u16) as u8;
            self.v_reg[15] = 0;
        }
    }

    /// SHR: halve Vx; VF receives the bit shifted out, after the shift
    /// computed from the old value.
    fn shr(&mut self, x: u8)
        requires
            x < 16,
        ensures
            final(self)@ == sem_shr(old(self)@, x as int),
    {
        let val = self.v_reg[x as usize];
        self.v_reg[x as usize] = val / 2;
        self.v_reg[15] = val % 2;
    }

    /// SHL: double Vx modulo 256; VF receives the bit shifted out, after
    /// the shift computed from the old value.
    fn shl(&mut self, x: u8)
        requires
            x < 16,
        ensures
            final(self)@ == sem_shl(old(self)@, x as int),
    {
        let val = self.v_reg[x as usize];
        self.v_reg[x as usize] = ((val as u16 * 2) % 256) as u8;
        self.v_reg[15] = val / 128;
    }

    /// LDI: load the address into I.
    fn ldi(&mut self, addr: u16)
        ensures
            final(self)@ == sem_ldi(old(self)@, addr),
    {
        self.i_reg = addr;
    }

    /// LDF: point I at the 5-byte font glyph for the digit in Vx.
    fn ldf(&mut self, x: u8)
        requires
            x < 16,
        ensures
            final(self)@ == sem_ldf(old(self)@, x as int),
    {
        self.i_reg = 5 * (self.v_reg[x as usize] as u16);
    }

    /// LDT: read the delay timer into Vx.
    fn ldt(&mut self, x: u8)
        requires
            x < 16,
        ensures
            final(self)@ == sem_ldt(old(self)@, x as int),
    {
        self.v_reg[x as usize] = self.dt;
    }

    /// SDT: set the delay timer from Vx.
    fn sdt(&mut self, x: u8)
        requires
            x < 16,
        ensures
            final(self)@ == sem_sdt(old(self)@, x as int),
    {
        self.dt = self.v_reg[x as usize];
    }

    /// SST: set the sound timer from Vx.
    fn sst(&mut self, x: u8)
        requires
            x < 16,
        ensures
            final(self)@ == sem_sst(old(self)@, x as int),
    {
        self.st = self.v_reg[x as usize];
    }

    /// IADD: wrapping add of Vx into I.
    fn iadd(&mut self, x: u8)
        requires
            x < 16,
        ensures
            final(self)@ == sem_iadd(old(self)@, x as int),
    {
        let sum: u32 = self.i_reg as u32 + self.v_reg[x as usize] as u32;
        self.i_reg = (sum % 0x10000) as u16;
    }

    /// RND: a fresh random byte, masked by the immediate, into Vx. The
    /// returned byte names the value drawn.
    fn rnd(&mut self, x: u8, imm: u8) -> (b: u8)
        requires
            x < 16,
        ensures
            final(self)@ == sem_rnd(old(self)@, x as int, imm, b),
    {
        let b = random_byte();
        self.v_reg[x as usize] = b & imm;
        b
    }

    /// SEQ: skip the next instruction word when Vx equals the immediate.
    fn seq(&mut self, x: u8, imm: u8)
        requires
            x < 16,
            old(self)@.pc <= 65533,
        ensures
            final(self)@ == skip_pc(old(self)@, old(self)@.v[x as int] == imm),
    {
        if self.v_reg[x as usize] == imm {
            self.pc = self.pc + 2;
        }
    }

    /// SNQ: skip the next instruction word when Vx differs from the
    /// immediate.
    fn snq(&mut self, x: u8, imm: u8)
        requires
            x < 16,
            old(self)@.pc <= 65533,
        ensures
            final(self)@ == skip_pc(old(self)@, old(self)@.v[x as int] != imm),
    {
        if self.v_reg[x as usize] != imm {
            self.pc = self.pc + 2;
        }
    }

    /// SEQR: skip the next instruction word when Vx equals Vy.
    fn seqr(&mut self, x: u8, y: u8)
        requires
            x < 16,
            y < 16,
            old(self)@.pc <= 65533,
        ensures
            final(self)@ == skip_pc(
                old(self)@,
                old(self)@.v[x as int] == old(self)@.v[y as int],
            ),
    {
        if self.v_reg[x as usize] == self.v_reg[y as usize] {
            self.pc = self.pc + 2;
        }
    }

    /// SNQR: skip the next instruction word when Vx differs from Vy.
    fn snqr(&mut self, x: u8, y: u8)
        requires
            x < 16,
            y < 16,
            old(self)@.pc <= 65533,
        ensures
            final(self)@ == skip_pc(
                old(self)@,
                old(self)@.v[x as int] != old(self)@.v[y as int],
            ),
    {
        if self.v_reg[x as usize] != self.v_reg[y as usize] {
            self.pc = self.pc + 2;
        }
    }

    /// SKP: skip when the key numbered by Vx is pressed, or fault when
    /// Vx is no key index.
    fn skp(&mut self, x: u8) -> (r: Result<(), VmError>)
        requires
            x < 16,
            old(self)@.pc <= 65533,
        ensures
            old(self)@.v[x as int] < 16 ==> r is Ok && final(self)@ == skip_pc(
                old(self)@,
                old(self)@.keys[old(self)@.v[x as int] as int],
            ),
            old(self)@.v[x as int] >= 16 ==> r == Err::<(), VmError>(VmError::OutOfRange) && final(self)@ == old(self)@,
    {
        let k = self.v_reg[x as usize];
        if k >= 16 {
            return Err(VmError::OutOfRange);
        }
        if self.keys[k as usize] {
            self.pc = self.pc + 2;
        }
        Ok(())
    }

    /// SNP: skip when the key numbered by Vx is not pressed, or fault
    /// when Vx is no key index.
    fn snp(&mut self, x: u8) -> (r: Result<(), VmError>)
        requires
            x < 16,
            old(self)@.pc <= 65533,
        ensures
            old(self)@.v[x as int] < 16 ==> r is Ok && final(self)@ == skip_pc(
                old(self)@,
                !old(self)@.keys[old(self)@.v[x as int] as int],
            ),
            old(self)@.v[x as int] >= 16 ==> r == Err::<(), VmError>(VmError::OutOfRange) && final(self)@ == old(self)@,
    {
        let k = self.v_reg[x as usize];
        if k >= 16 {
            return Err(VmError::OutOfRange);
        }
        if !self.keys[k as usize] {
            self.pc = self.pc + 2;
        }
        Ok(())
    }

    /// WKP: the lowest pressed key index into Vx, or rewind the program
    /// counter so the instruction runs again on the next tick.
    fn wkp(&mut self, x: u8)
        requires
            x < 16,
            old(self)@.pc >= 2,
        ensures
            final(self)@ == sem_wkp(old(self)@, x as int),
    {
        let mut k: usize = 0;
        while k < 16
            invariant
                k <= 16,
                x < 16,
                *self == *old(self),
                first_key_from(self@.keys, 0) == first_key_from(self@.keys, k as int),
                forall|j: int| 0 <= j < k ==> !self@.keys[j],
            decreases 16 - k,
        {
            if self.keys[k] {
                self.v_reg[x as usize] = k as u8;
                return ;
            }
            k += 1;
        }
        self.pc = self.pc - 2;
    }

    /// SBCD: the decimal digits of Vx into memory at I, I+1, I+2, or
    /// fault when they would not fit.
    fn sbcd(&mut self, x: u8) -> (r: Result<(), VmError>)
        requires
            x < 16,
        ensures
            old(self)@.i + 2 < 4096 ==> r is Ok && final(self)@ == sem_sbcd(old(self)@, x as int),
            old(self)@.i + 2 >= 4096 ==> r == Err::<(), VmError>(VmError::OutOfRange) && final(self)@ == old(self)@,
    {
        if self.i_reg >= 4094 {
            return Err(VmError::OutOfRange);
        }
        let val = self.v_reg[x as usize];
        let base = self.i_reg as usize;
        self.ram[base] = val / 100;
        self.ram[base + 1] = (val / 10) % 10;
        self.ram[base + 2] = val % 10;
        Ok(())
    }

    /// STRR: registers V0 through Vx into memory at I, or fault when the
    /// range would leave memory.
    fn strr(&mut self, x: u8) -> (r: Result<(), VmError>)
        requires
            x < 16,
        ensures
            old(self)@.i + x < 4096 ==> r is Ok && final(self)@ == sem_strr(old(self)@, x as int),
            old(self)@.i + x >= 4096 ==> r == Err::<(), VmError>(VmError::OutOfRange) && final(self)@ == old(self)@,
    {
        if self.i_reg as usize + x as usize >= 4096 {
            return Err(VmError::OutOfRange);
        }
        let base = self.i_reg as usize;
        let mut k: usize = 0;
        while k <= x as usize
            invariant
                x < 16,
                k <= x + 1,
                base == old(self)@.i,
                base + x < 4096,
                self.pc == old(self).pc,
                self.sp == old(self).sp,
                self.dt == old(self).dt,
                self.st == old(self).st,
                self.i_reg == old(self).i_reg,
                self.screen@ == old(self).screen@,
                self.keys@ == old(self).keys@,
                self.v_reg@ == old(self).v_reg@,
                self.stack@ == old(self).stack@,
                forall|p: int| base <= p < base + k ==> self.ram@[p] == old(self).v_reg@[p - base],
                forall|p: int|
                    0 <= p < 4096 && !(base <= p < base + k) ==> self.ram@[p] == old(
                        self,
                    ).ram@[p],
            decreases x + 1 - k,
        {
            self.ram[base + k] = self.v_reg[k];
            k += 1;
        }
        proof {
            assert(self@.ram =~= sem_strr(old(self)@, x as int).ram);
        }
        Ok(())
    }

    /// LDR: memory at I through I+x into registers V0 through Vx, or
    /// fault when the range would leave memory.
    fn ldr(&mut self, x: u8) -> (r: Result<(), VmError>)
        requires
            x < 16,
        ensures
            old(self)@.i + x < 4096 ==> r is Ok && final(self)@ == sem_ldr(old(self)@, x as int),
            old(self)@.i + x >= 4096 ==> r == Err::<(), VmError>(VmError::OutOfRange) && final(self)@ == old(self)@,
    {
        if self.i_reg as usize + x as usize >= 4096 {
            return Err(VmError::OutOfRange);
        }
        let base = self.i_reg as usize;
        let mut k: usize = 0;
        while k <= x as usize
            invariant
                x < 16,
                k <= x + 1,
                base == old(self)@.i,
                base + x < 4096,
                self.pc == old(self).pc,
                self.sp == old(self).sp,
                self.dt == old(self).dt,
                self.st == old(self).st,
                self.i_reg == old(self).i_reg,
                self.screen@ == old(self).screen@,
                self.keys@ == old(self).keys@,
                self.ram@ == old(self).ram@,
                self.stack@ == old(self).stack@,
                forall|j: int| 0 <= j < k ==> self.v_reg@[j] == old(self).ram@[base + j],
                forall|j: int| k <= j < 16 ==> self.v_reg@[j] == old(self).v_reg@[j],
            decreases x + 1 - k,
        {
            self.v_reg[k] = self.ram[base + k];
            k += 1;
        }
        proof {
            assert(self@.v =~= sem_ldr(old(self)@, x as int).v);
        }
        Ok(())
    }

    /// DRAW: XOR the n-row sprite at memory[I..] onto the display at
    /// (Vx, Vy), both coordinates wrapping; VF records whether a pixel
    /// was toggled off. Faults when a sprite row would be read past the
    /// end of memory.
    fn draw(&mut self, x: u8, y: u8, n: u8) -> (r: Result<(), VmError>)
        requires
            x < 16,
            y < 16,
            n < 16,
        ensures
            n == 0 || old(self)@.i + n <= 4096 ==> r is Ok && final(self)@ == sem_draw(
                old(self)@,
                x as int,
                y as int,
                n,
            ),
            n > 0 && old(self)@.i + n > 4096 ==> r == Err::<(), VmError>(VmError::OutOfRange)
                && final(self)@ == old(self)@,
    {
        if n > 0 && self.i_reg as usize + n as usize > 4096 {
            return Err(VmError::OutOfRange);
        }
        let ghost ramg = self.ram@;
        let ghost ig = self.i_reg;
        let sx = self.v_reg[x as usize];
        let sy = self.v_reg[y as usize];
        let base = self.i_reg;
        let mut flipped = false;
        let mut row: usize = 0;
        proof {
            assert forall|p: int| !hit_before(ramg, ig, sx, sy, 0, 0, p) by {
                lemma_hit_empty(ramg, ig, sx, sy, p);
            }
        }
        while row < n as usize
            invariant
                x < 16,
                y < 16,
                n < 16,
                row <= n,
                n > 0 ==> old(self)@.i + n <= 4096,
                ramg == old(self)@.ram,
                ig == old(self)@.i,
                sx == old(self)@.v[x as int],
                sy == old(self)@.v[y as int],
                base == old(self)@.i,
                self.pc == old(self).pc,
                self.sp == old(self).sp,
                self.dt == old(self).dt,
                self.st == old(self).st,
                self.i_reg == old(self).i_reg,
                self.keys@ == old(self).keys@,
                self.v_reg@ == old(self).v_reg@,
                self.ram@ == old(self).ram@,
                self.stack@ == old(self).stack@,
                forall|p: int|
                    0 <= p < 2048 ==> self.screen@[p] == (old(self).screen@[p] != hit_before(
                        ramg,
                        ig,
                        sx,
                        sy,
                        row as int,
                        0,
                        p,
                    )),
                flipped == exists|p: int|
                    0 <= p < 2048 && #[trigger] hit_before(ramg, ig, sx, sy, row as int, 0, p)
                        && old(self).screen@[p],
            decreases n - row,
        {
            let pixels = self.ram[base as usize + row];
            let mut col: usize = 0;
            while col < 8
                invariant
                    x < 16,
                    y < 16,
                    n < 16,
                    row < n,
                    col <= 8,
                    old(self)@.i + n <= 4096,
                    ramg == old(self)@.ram,
                    ig == old(self)@.i,
                    sx == old(self)@.v[x as int],
                    sy == old(self)@.v[y as int],
                    base == old(self)@.i,
                    pixels == ramg[ig as int + row as int],
                    self.pc == old(self).pc,
                    self.sp == old(self).sp,
                    self.dt == old(self).dt,
                    self.st == old(self).st,
                    self.i_reg == old(self).i_reg,
                    self.keys@ == old(self).keys@,
                    self.v_reg@ == old(self).v_reg@,
                    self.ram@ == old(self).ram@,
                    self.stack@ == old(self).stack@,
                    forall|p: int|
                        0 <= p < 2048 ==> self.screen@[p] == (old(self).screen@[p] != hit_before(
                            ramg,
                            ig,
                            sx,
                            sy,
                            row as int,
                            col as int,
                            p,
                        )),
                    flipped == exists|p: int|
                        0 <= p < 2048 && #[trigger] hit_before(
                            ramg,
                            ig,
                            sx,
                            sy,
                            row as int,
                            col as int,
                            p,
                        ) && old(self).screen@[p],
                decreases 8 - col,
            {
                if pixels & (0x80u8 >> (col as u8)) != 0 {
                    let cx = (sx as usize + col) % 64;
                    let cy = (sy as usize + row) % 32;
                    let idx = 64 * cy + cx;
                    proof {
                        lemma_pixel_index_range(sx, sy, row as int, col as int);
                        assert(idx as int == pixel_index(sx, sy, row as int, col as int));
                        lemma_no_earlier_hit(ramg, ig, sx, sy, row as int, col as int);
                        assert(sprite_row_bit(ramg[ig as int + row as int], col as u8));
                    }
                    let cur = self.screen[idx];
                    let ghost flipped0 = flipped;
                    proof {
                        assert(cur == old(self).screen@[idx as int]);
                    }
                    flipped = flipped || cur;
                    self.screen[idx] = !cur;
                    proof {
                        assert forall|p: int|
                            0 <= p < 2048 implies self.screen@[p] == (old(self).screen@[p]
                            != hit_before(
                            ramg,
                            ig,
                            sx,
                            sy,
                            row as int,
                            col as int + 1,
                            p,
                        )) by {
                            lemma_hit_step(ramg, ig, sx, sy, row as int, col as int, p);
                        }
                        if flipped {
                            if flipped0 {
                                let p0 = choose|p: int|
                                    0 <= p < 2048 && #[trigger] hit_before(
                                        ramg,
                                        ig,
                                        sx,
                                        sy,
                                        row as int,
                                        col as int,
                                        p,
                                    ) && old(self).screen@[p];
                                lemma_hit_step(ramg, ig, sx, sy, row as int, col as int, p0);
                                assert(hit_before(
                                    ramg,
                                    ig,
                                    sx,
                                    sy,
                                    row as int,
                                    col as int + 1,
                                    p0,
                                ));
                            } else {
                                lemma_hit_step(ramg, ig, sx, sy, row as int, col as int, idx as int);
                                assert(hit_before(
                                    ramg,
                                    ig,
                                    sx,
                                    sy,
                                    row as int,
                                    col as int + 1,
                                    idx as int,
                                ));
                            }
                        }
                        if exists|p: int|
                            0 <= p < 2048 && #[trigger] hit_before(
                                ramg,
                                ig,
                                sx,
                                sy,
                                row as int,
                                col as int + 1,
                                p,
                            ) && old(self).screen@[p] {
                            let p1 = choose|p: int|
                                0 <= p < 2048 && #[trigger] hit_before(
                                    ramg,
                                    ig,
                                    sx,
                                    sy,
                                    row as int,
                                    col as int + 1,
                                    p,
                                ) && old(self).screen@[p];
                            lemma_hit_step(ramg, ig, sx, sy, row as int, col as int, p1);
                            if hit_before(ramg, ig, sx, sy, row as int, col as int, p1) {
                                assert(flipped0);
                            } else {
                                assert(p1 == idx as int);
                                assert(cur);
                            }
                            assert(flipped);
                        }
                    }
                } else {
                    proof {
                        assert(!sprite_row_bit(ramg[ig as int + row as int], col as u8));
                        assert forall|p: int|
                            hit_before(ramg, ig, sx, sy, row as int, col as int + 1, p)
                                == hit_before(ramg, ig, sx, sy, row as int, col as int, p) by {
                            lemma_hit_step(ramg, ig, sx, sy, row as int, col as int, p);
                        }
                    }
                }
                col += 1;
            }
            proof {
                assert forall|p: int|
                    hit_before(ramg, ig, sx, sy, row as int, 8, p) == hit_before(
                        ramg,
                        ig,
                        sx,
                        sy,
                        row as int + 1,
                        0,
                        p,
                    ) by {
                    lemma_hit_row_end(ramg, ig, sx, sy, row as int, p);
                }
                if flipped {
                    let p0 = choose|p: int|
                        0 <= p < 2048 && #[trigger] hit_before(
                            ramg,
                            ig,
                            sx,
                            sy,
                            row as int,
                            8,
                            p,
                        ) && old(self).screen@[p];
                    assert(hit_before(ramg, ig, sx, sy, row as int + 1, 0, p0));
                }
                if exists|p: int|
                    0 <= p < 2048 && #[trigger] hit_before(
                        ramg,
                        ig,
                        sx,
                        sy,
                        row as int + 1,
                        0,
                        p,
                    ) && old(self).screen@[p] {
                    let p1 = choose|p: int|
                        0 <= p < 2048 && #[trigger] hit_before(
                            ramg,
                            ig,
                            sx,
                            sy,
                            row as int + 1,
                            0,
                            p,
                        ) && old(self).screen@[p];
                    assert(hit_before(ramg, ig, sx, sy, row as int, 8, p1));
                    assert(flipped);
                }
            }
            row += 1;
        }
        if flipped {
            self.v_reg[15] = 1;
        } else {
            self.v_reg[15] = 0;
        }
        proof {
            if flipped {
                let p0 = choose|p: int|
                    0 <= p < 2048 && #[trigger] hit_before(ramg, ig, sx, sy, n as int, 0, p)
                        && old(self).screen@[p];
                assert(sprite_hits(ramg, ig, sx, sy, n, p0));
                assert(draw_collision(old(self)@, x as int, y as int, n));
            }
            if draw_collision(old(self)@, x as int, y as int, n) {
                let p1 = choose|p: int|
                    0 <= p < 2048 && #[trigger] sprite_hits(
                        old(self)@.ram,
                        old(self)@.i,
                        old(self)@.v[x as int],
                        old(self)@.v[y as int],
                        n,
                        p,
                    ) && old(self)@.screen[p];
                assert(hit_before(ramg, ig, sx, sy, n as int, 0, p1));
                assert(flipped);
            }
            assert(self@.screen =~= sem_draw(old(self)@, x as int, y as int, n).screen);
            assert(self@.v =~= sem_draw(old(self)@, x as int, y as int, n).v);
        }
        Ok(())
    }

    /// Reads the big-endian instruction word at the program counter and
    /// advances past it, or faults when the word would straddle the end
    /// of memory.
    fn fetch(&mut self) -> (r: Result<u16, VmError>)
        ensures
            old(self)@.pc + 1 < 4096 ==> r is Ok && r->Ok_0 == word_at(
                old(self)@.ram,
                old(self)@.pc as int,
            ) && final(self)@ == fetched(old(self)@),
            old(self)@.pc + 1 >= 4096 ==> r == Err::<u16, VmError>(VmError::OutOfRange) && final(self)@ == old(self)@,
    {
        if self.pc >= 4095 {
            return Err(VmError::OutOfRange);
        }
        let hi = self.ram[self.pc as usize] as u16;
        let lo = self.ram[self.pc as usize + 1] as u16;
        let op = hi * 256 + lo;
        self.pc = self.pc + 2;
        Ok(op)
    }

    /// Runs one decoded instruction on a machine whose program counter
    /// already points past the instruction word. On success the machine
    /// moves to the instruction's effect for some random byte; on a
    /// fault it is unchanged and reports the error the effect gives,
    /// whatever the random byte.
    fn execute(&mut self, instr: Instr) -> (r: Result<(), VmError>)
        requires
            instr_wf(instr),
            2 <= old(self)@.pc <= 4096,
        ensures
            r is Ok ==> exists|b: u8|
                #[trigger] instr_effect(old(self)@, instr, b) == Ok::<MState, VmError>(
                    final(self)@,
                ),
            r is Err ==> final(self)@ == old(self)@ && forall|b: u8|
                #[trigger] instr_effect(old(self)@, instr, b) == Err::<MState, VmError>(
                    r->Err_0,
                ),
    {
        match instr {
            Instr::Nop => {
                proof {
                    assert(instr_effect(old(self)@, instr, 0u8) == Ok::<MState, VmError>(self@));
                }
                Ok(())
            },
            Instr::Clear => {
                self.clear();
                proof {
                    assert(instr_effect(old(self)@, instr, 0u8) == Ok::<MState, VmError>(self@));
                }
                Ok(())
            },
            Instr::Ret => {
                let r = self.ret();
                proof {
                    if r is Ok {
                        assert(instr_effect(old(self)@, instr, 0u8) == Ok::<MState, VmError>(
                            self@,
                        ));
                    }
                }
                r
            },
            Instr::Jmp { addr } => {
                self.jmp(addr);
                proof {
                    assert(instr_effect(old(self)@, instr, 0u8) == Ok::<MState, VmError>(self@));
                }
                Ok(())
            },
            Instr::Call { addr } => {
                let r = self.call(addr);
                proof {
                    if r is Ok {
                        assert(instr_effect(old(self)@, instr, 0u8) == Ok::<MState, VmError>(
                            self@,
                        ));
                    }
                }
                r
            },
            Instr::SkipEqImm { x, imm } => {
                self.seq(x, imm);
                proof {
                    assert(instr_effect(old(self)@, instr, 0u8) == Ok::<MState, VmError>(self@));
                }
                Ok(())
            },
            Instr::SkipNeImm { x, imm } => {
                self.snq(x, imm);
                proof {
                    assert(instr_effect(old(self)@, instr, 0u8) == Ok::<MState, VmError>(self@));
                }
                Ok(())
            },
            Instr::SkipEqReg { x, y } => {
                self.seqr(x, y);
                proof {
                    assert(instr_effect(old(self)@, instr, 0u8) == Ok::<MState, VmError>(self@));
                }
                Ok(())
            },
            Instr::SetImm { x, imm } => {
                self.ld(x, imm);
                proof {
                    assert(instr_effect(old(self)@, instr, 0u8) == Ok::<MState, VmError>(self@));
                }
                Ok(())
            },
            Instr::AddImm { x, imm } => {
                self.addiw(x, imm);
                proof {
                    assert(instr_effect(old(self)@, instr, 0u8) == Ok::<MState, VmError>(self@));
                }
                Ok(())
            },
            Instr::Mov { x, y } => {
                self.mv(x, y);
                proof {
                    assert(instr_effect(old(self)@, instr, 0u8) == Ok::<MState, VmError>(self@));
                }
                Ok(())
            },
            Instr::Or { x, y } => {
                self.or(x, y);
                proof {
                    assert(instr_effect(old(self)@, instr, 0u8) == Ok::<MState, VmError>(self@));
                }
                Ok(())
            },
            Instr::And { x, y } => {
                self.and(x, y);
                proof {
                    assert(instr_effect(old(self)@, instr, 0u8) == Ok::<MState, VmError>(self@));
                }
                Ok(())
            },
            Instr::Xor { x, y } => {
                self.xor(x, y);
                proof {
                    assert(instr_effect(old(self)@, instr, 0u8) == Ok::<MState, VmError>(self@));
                }
                Ok(())
            },
            Instr::Add { x, y } => {
                self.add(x, y);
                proof {
                    assert(instr_effect(old(self)@, instr, 0u8) == Ok::<MState, VmError>(self@));
                }
                Ok(())
            },
            Instr::Sub { x, y } => {
                self.sub(x, y);
                proof {
                    assert(instr_effect(old(self)@, instr, 0u8) == Ok::<MState, VmError>(self@));
                }
                Ok(())
            },
            Instr::Shr { x } => {
                self.shr(x);
                proof {
                    assert(instr_effect(old(self)@, instr, 0u8) == Ok::<MState, VmError>(self@));
                }
                Ok(())
            },
            Instr::SubFrom { x, y } => {
                self.sub2(x, y);
                proof {
                    assert(instr_effect(old(self)@, instr, 0u8) == Ok::<MState, VmError>(self@));
                }
                Ok(())
            },
            Instr::Shl { x } => {
                self.shl(x);
                proof {
                    assert(instr_effect(old(self)@, instr, 0u8) == Ok::<MState, VmError>(self@));
                }
                Ok(())
            },
            Instr::SkipNeReg { x, y } => {
                self.snqr(x, y);
                proof {
                    assert(instr_effect(old(self)@, instr, 0u8) == Ok::<MState, VmError>(self@));
                }
                Ok(())
            },
            Instr::SetIndex { addr } => {
                self.ldi(addr);
                proof {
                    assert(instr_effect(old(self)@, instr, 0u8) == Ok::<MState, VmError>(self@));
                }
                Ok(())
            },
            Instr::JmpPlusV0 { addr } => {
                self.jmp2(addr);
                proof {
                    assert(instr_effect(old(self)@, instr, 0u8) == Ok::<MState, VmError>(self@));
                }
                Ok(())
            },
            Instr::Rand { x, imm } => {
                let b = self.rnd(x, imm);
                proof {
                    assert(instr_effect(old(self)@, instr, b) == Ok::<MState, VmError>(self@));
                }
                Ok(())
            },
            Instr::Draw { x, y, n } => {
                let r = self.draw(x, y, n);
                proof {
                    if r is Ok {
                        assert(instr_effect(old(self)@, instr, 0u8) == Ok::<MState, VmError>(
                            self@,
                        ));
                    }
                }
                r
            },
            Instr::SkipKeyPressed { x } => {
                let r = self.skp(x);
                proof {
                    if r is Ok {
                        assert(instr_effect(old(self)@, instr, 0u8) == Ok::<MState, VmError>(
                            self@,
                        ));
                    }
                }
                r
            },
            Instr::SkipKeyNotPressed { x } => {
                let r = self.snp(x);
                proof {
                    if r is Ok {
                        assert(instr_effect(old(self)@, instr, 0u8) == Ok::<MState, VmError>(
                            self@,
                        ));
                    }
                }
                r
            },
            Instr::GetDelay { x } => {
                self.ldt(x);
                proof {
                    assert(instr_effect(old(self)@, instr, 0u8) == Ok::<MState, VmError>(self@));
                }
                Ok(())
            },
            Instr::WaitKey { x } => {
                self.wkp(x);
                proof {
                    assert(instr_effect(old(self)@, instr, 0u8) == Ok::<MState, VmError>(self@));
                }
                Ok(())
            },
            Instr::SetDelay { x } => {
                self.sdt(x);
                proof {
                    assert(instr_effect(old(self)@, instr, 0u8) == Ok::<MState, VmError>(self@));
                }
                Ok(())
            },
            Instr::SetSound { x } => {
                self.sst(x);
                proof {
                    assert(instr_effect(old(self)@, instr, 0u8) == Ok::<MState, VmError>(self@));
                }
                Ok(())
            },
            Instr::AddIndex { x } => {
                self.iadd(x);
                proof {
                    assert(instr_effect(old(self)@, instr, 0u8) == Ok::<MState, VmError>(self@));
                }
                Ok(())
            },
            Instr::FontAddr { x } => {
                self.ldf(x);
                proof {
                    assert(instr_effect(old(self)@, instr, 0u8) == Ok::<MState, VmError>(self@));
                }
                Ok(())
            },
            Instr::StoreBcd { x } => {
                let r = self.sbcd(x);
                proof {
                    if r is Ok {
                        assert(instr_effect(old(self)@, instr, 0u8) == Ok::<MState, VmError>(
                            self@,
                        ));
                    }
                }
                r
            },
            Instr::StoreRegs { x } => {
                let r = self.strr(x);
                proof {
                    if r is Ok {
                        assert(instr_effect(old(self)@, instr, 0u8) == Ok::<MState, VmError>(
                            self@,
                        ));
                    }
                }
                r
            },
            Instr::LoadRegs { x } => {
                let r = self.ldr(x);
                proof {
                    if r is Ok {
                        assert(instr_effect(old(self)@, instr, 0u8) == Ok::<MState, VmError>(
                            self@,
                        ));
                    }
                }
                r
            },
        }
    }

    /// One instruction step: fetch, decode, execute. On success the new
    /// state is one step of the machine semantics for some random byte;
    /// on an error the machine is unchanged and the error is the one the
    /// semantics gives, whatever the random byte.
    pub fn tick(&mut self) -> (r: Result<(), VmError>)
        ensures
            r is Ok ==> exists|b: u8|
                #[trigger] step_spec(old(self)@, b) == Ok::<MState, VmError>(final(self)@),
            r is Err ==> final(self)@ == old(self)@ && forall|b: u8|
                #[trigger] step_spec(old(self)@, b) == Err::<MState, VmError>(r->Err_0),
    {
        let pc0 = self.pc;
        let op = match self.fetch() {
            Ok(op) => op,
            Err(e) => {
                return Err(e);
            },
        };
        let instr = match decode(op) {
            Some(instr) => instr,
            None => {
                self.pc = pc0;
                proof {
                    assert(self@ == old(self)@);
                }
                return Err(VmError::BadOpcode);
            },
        };
        match self.execute(instr) {
            Ok(()) => {
                proof {
                    let b = choose|b: u8|
                        #[trigger] instr_effect(fetched(old(self)@), instr, b) == Ok::<
                            MState,
                            VmError,
                        >(self@);
                    assert(step_spec(old(self)@, b) == Ok::<MState, VmError>(self@));
                }
                Ok(())
            },
            Err(e) => {
                self.pc = pc0;
                proof {
                    assert(self@ == old(self)@);
                    assert forall|b: u8|
                        step_spec(old(self)@, b) == Err::<MState, VmError>(e) by {
                        assert(instr_effect(fetched(old(self)@), instr, b) == Err::<
                            MState,
                            VmError,
                        >(e));
                    }
                }
                Err(e)
            },
        }
    }
}

} // verus!
