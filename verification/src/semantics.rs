use vstd::prelude::*;
use crate::instr::Instr;
use crate::instr::spec_decode;
use crate::state::MState;

verus! {

/// The two failure kinds of a step: an instruction word that matches no
/// opcode pattern, and an access that would leave a fixed bound (memory,
/// call stack or key index).
#[derive(Clone, Copy, Debug, PartialEq, Eq, Structural)]
pub enum VmError {
    BadOpcode,
    OutOfRange,
}

/// The big-endian 16-bit instruction word whose high byte sits at
/// address `p`.
pub open spec fn word_at(ram: Seq<u8>, p: int) -> u16
    recommends
        0 <= p,
        p + 1 < ram.len(),
{
    (ram[p] * 256 + ram[p + 1]) as u16
}

/// The state after the fetch advanced the program counter past the
/// current instruction word.
pub open spec fn fetched(s: MState) -> MState {
    MState { pc: (s.pc + 2) as u16, ..s }
}

/// Skipping: the program counter moves over one more instruction word
/// exactly when the condition holds.
pub open spec fn skip_pc(s: MState, cond: bool) -> MState {
    if cond {
        MState { pc: (s.pc + 2) as u16, ..s }
    } else {
        s
    }
}

/// Clear: every display pixel off.
pub open spec fn sem_clear(s: MState) -> MState {
    MState { screen: Seq::new(2048, |p: int| false), ..s }
}

/// Return: pop the top return address into the program counter.
pub open spec fn sem_ret(s: MState) -> MState
    recommends
        s.wf(),
        0 < s.sp <= 16,
{
    MState { sp: (s.sp - 1) as u16, pc: s.stack[s.sp - 1], ..s }
}

/// Call: push the program counter (already past the call instruction)
/// and jump to the target.
pub open spec fn sem_call(s: MState, addr: u16) -> MState
    recommends
        s.wf(),
        s.sp < 16,
{
    MState { stack: s.stack.update(s.sp as int, s.pc), sp: (s.sp + 1) as u16, pc: addr, ..s }
}

/// Jump to the address.
pub open spec fn sem_jmp(s: MState, addr: u16) -> MState {
    MState { pc: addr, ..s }
}

/// Jump to the address plus V0.
pub open spec fn sem_jmp2(s: MState, addr: u16) -> MState
    recommends
        s.wf(),
        addr < 4096,
{
    MState { pc: (s.v[0] + addr) as u16, ..s }
}

/// Load the immediate into Vx.
pub open spec fn sem_ld(s: MState, x: int, imm: u8) -> MState {
    MState { v: s.v.update(x, imm), ..s }
}

/// Add the immediate into Vx, wrapping modulo 256; the flag register is
/// not touched.
pub open spec fn sem_addiw(s: MState, x: int, imm: u8) -> MState {
    MState { v: s.v.update(x, ((s.v[x] + imm) % 256) as u8), ..s }
}

/// Copy Vy into Vx.
pub open spec fn sem_mv(s: MState, x: int, y: int) -> MState {
    MState { v: s.v.update(x, s.v[y]), ..s }
}

/// Bitwise or of Vy into Vx.
pub open spec fn sem_or(s: MState, x: int, y: int) -> MState {
    MState { v: s.v.update(x, s.v[x] | s.v[y]), ..s }
}

/// Bitwise and of Vy into Vx.
pub open spec fn sem_and(s: MState, x: int, y: int) -> MState {
    MState { v: s.v.update(x, s.v[x] & s.v[y]), ..s }
}

/// Bitwise exclusive or of Vy into Vx.
pub open spec fn sem_xor(s: MState, x: int, y: int) -> MState {
    MState { v: s.v.update(x, s.v[x] ^ s.v[y]), ..s }
}

/// Add with carry: Vx holds the sum modulo 256, and VF is 1 exactly when
/// the unsigned sum exceeds 255. When x is 15 the flag write wins.
pub open spec fn sem_add(s: MState, x: int, y: int) -> MState {
    let sum = s.v[x] + s.v[y];
    let flag: u8 = if sum > 255 {
        1
    } else {
        0
    };
    MState { v: s.v.update(x, (sum % 256) as u8).update(15, flag), ..s }
}

/// Subtract with borrow: Vx holds Vx - Vy modulo 256, and VF is 1
/// exactly when no borrow occurred (Vx was at least Vy).
pub open spec fn sem_sub(s: MState, x: int, y: int) -> MState {
    let flag: u8 = if s.v[x] >= s.v[y] {
        1
    } else {
        0
    };
    MState { v: s.v.update(x, ((s.v[x] - s.v[y]) % 256) as u8).update(15, flag), ..s }
}

/// Reverse subtract with borrow: Vx holds Vy - Vx modulo 256, and VF is
/// 1 exactly when no borrow occurred (Vy was at least Vx).
pub open spec fn sem_sub2(s: MState, x: int, y: int) -> MState {
    let flag: u8 = if s.v[y] >= s.v[x] {
        1
    } else {
        0
    };
    MState { v: s.v.update(x, ((s.v[y] - s.v[x]) % 256) as u8).update(15, flag), ..s }
}

/// Shift right: VF receives the least-significant bit of Vx before Vx is
/// halved. When x is 15 the flag write wins.
pub open spec fn sem_shr(s: MState, x: int) -> MState {
    MState { v: s.v.update(x, (s.v[x] / 2) as u8).update(15, (s.v[x] % 2) as u8), ..s }
}

/// Shift left: VF receives the most-significant bit of Vx before Vx is
/// doubled modulo 256. When x is 15 the flag write wins.
pub open spec fn sem_shl(s: MState, x: int) -> MState {
    MState { v: s.v.update(x, ((s.v[x] * 2) % 256) as u8).update(15, (s.v[x] / 128) as u8), ..s }
}

/// Load the address into the address register I.
pub open spec fn sem_ldi(s: MState, addr: u16) -> MState {
    MState { i: addr, ..s }
}

/// Masked random byte into Vx.
pub open spec fn sem_rnd(s: MState, x: int, imm: u8, rnd: u8) -> MState {
    MState { v: s.v.update(x, rnd & imm), ..s }
}

/// Read the delay timer into Vx.
pub open spec fn sem_ldt(s: MState, x: int) -> MState {
    MState { v: s.v.update(x, s.dt), ..s }
}

/// Set the delay timer from Vx.
pub open spec fn sem_sdt(s: MState, x: int) -> MState {
    MState { dt: s.v[x], ..s }
}

/// Set the sound timer from Vx.
pub open spec fn sem_sst(s: MState, x: int) -> MState {
    MState { st: s.v[x], ..s }
}

/// Add Vx into the address register I, wrapping modulo 65536.
pub open spec fn sem_iadd(s: MState, x: int) -> MState {
    MState { i: ((s.i + s.v[x]) % 0x10000) as u16, ..s }
}

/// Point I at the font glyph for the digit in Vx: each glyph is 5 bytes,
/// starting at address 0.
pub open spec fn sem_ldf(s: MState, x: int) -> MState {
    MState { i: (5 * s.v[x]) as u16, ..s }
}

/// Store the decimal digits of Vx: hundreds at memory[I], tens at
/// memory[I+1], ones at memory[I+2].
pub open spec fn sem_sbcd(s: MState, x: int) -> MState
    recommends
        s.wf(),
        s.i + 2 < 4096,
{
    let val = s.v[x];
    MState {
        ram: s.ram.update(s.i as int, (val / 100) as u8).update(
            s.i + 1,
            ((val / 10) % 10) as u8,
        ).update(s.i + 2, (val % 10) as u8),
        ..s
    }
}

/// Store V0 through Vx inclusive at memory[I..I+x+1]; the rest of memory
/// is unchanged.
pub open spec fn sem_strr(s: MState, x: int) -> MState
    recommends
        s.wf(),
        0 <= x < 16,
        s.i + x < 4096,
{
    MState {
        ram: Seq::new(
            4096,
            |p: int|
                if s.i <= p <= s.i + x {
                    s.v[p - s.i]
                } else {
                    s.ram[p]
                },
        ),
        ..s
    }
}

/// Load memory[I..I+x+1] into V0 through Vx inclusive; the higher
/// registers are unchanged.
pub open spec fn sem_ldr(s: MState, x: int) -> MState
    recommends
        s.wf(),
        0 <= x < 16,
        s.i + x < 4096,
{
    MState {
        v: Seq::new(
            16,
            |k: int|
                if k <= x {
                    s.ram[s.i + k]
                } else {
                    s.v[k]
                },
        ),
        ..s
    }
}

/// The lowest pressed key index at or above `k`, if any.
pub open spec fn first_key_from(keys: Seq<bool>, k: int) -> Option<int>
    recommends
        keys.len() == 16,
    decreases 16 - k,
{
    if k >= 16 {
        None
    } else if keys[k] {
        Some(k)
    } else {
        first_key_from(keys, k + 1)
    }
}

/// Wait for a key: the lowest pressed key index goes into Vx; with no
/// key pressed the program counter rewinds by 2, so that the same
/// instruction is fetched again on the next step.
pub open spec fn sem_wkp(s: MState, x: int) -> MState {
    match first_key_from(s.keys, 0) {
        Some(k) => MState { v: s.v.update(x, k as u8), ..s },
        None => MState { pc: (s.pc - 2) as u16, ..s },
    }
}

/// Bit `c` of a sprite row byte, counted from the most-significant bit.
pub open spec fn sprite_row_bit(b: u8, c: u8) -> bool
    recommends
        c < 8,
{
    b & (0x80u8 >> c) != 0
}

/// The display index, row-major, that sprite cell (row `r`, column `c`)
/// of a sprite drawn at (`x`, `y`) lands on: both coordinates wrap.
pub open spec fn pixel_index(x: u8, y: u8, r: int, c: int) -> int {
    64 * ((y + r) % 32) + ((x + c) % 64)
}

/// Whether some sprite cell strictly before (row, col) in row-major
/// order is a 1-bit that lands on display index `p`.
pub open spec fn hit_before(
    ram: Seq<u8>,
    i: u16,
    x: u8,
    y: u8,
    row: int,
    col: int,
    p: int,
) -> bool {
    exists|r: int, c: int|
        0 <= r && 0 <= c < 8 && (r < row || (r == row && c < col)) && sprite_row_bit(
            ram[i + r],
            c as u8,
        ) && #[trigger] pixel_index(x, y, r, c) == p
}

/// Whether any 1-bit of the n-row sprite at memory[I..] drawn at
/// (`x`, `y`) lands on display index `p`.
pub open spec fn sprite_hits(ram: Seq<u8>, i: u16, x: u8, y: u8, n: u8, p: int) -> bool {
    hit_before(ram, i, x, y, n as int, 0, p)
}

/// Whether the draw toggles some pixel that was on: the collision flag.
pub open spec fn draw_collision(s: MState, x: int, y: int, n: u8) -> bool {
    exists|p: int|
        0 <= p < 2048 && #[trigger] sprite_hits(s.ram, s.i, s.v[x], s.v[y], n, p) && s.screen[p]
}

/// Draw: every display pixel that some 1-bit of the sprite lands on is
/// toggled, and VF is 1 exactly when a toggled pixel was on before.
pub open spec fn sem_draw(s: MState, x: int, y: int, n: u8) -> MState
    recommends
        s.wf(),
        0 <= x < 16,
        0 <= y < 16,
        n > 0 ==> s.i + n <= 4096,
{
    let sx = s.v[x];
    let sy = s.v[y];
    MState {
        screen: Seq::new(2048, |p: int| s.screen[p] != sprite_hits(s.ram, s.i, sx, sy, n, p)),
        v: s.v.update(
            15,
            if draw_collision(s, x, y, n) {
                1u8
            } else {
                0u8
            },
        ),
        ..s
    }
}

/// What one decoded instruction does to a state whose program counter
/// already points past the instruction word, or the error it faults
/// with. `rnd` is the byte the random source supplies; only `Rand` reads
/// it.
pub open spec fn instr_effect(s: MState, instr: Instr, rnd: u8) -> Result<MState, VmError>
    recommends
        s.wf(),
{
    match instr {
        Instr::Nop => Ok(s),
        Instr::Clear => Ok(sem_clear(s)),
        Instr::Ret => if s.sp == 0 || s.sp > 16 {
            Err(VmError::OutOfRange)
        } else {
            Ok(sem_ret(s))
        },
        Instr::Jmp { addr } => Ok(sem_jmp(s, addr)),
        Instr::Call { addr } => if s.sp >= 16 {
            Err(VmError::OutOfRange)
        } else {
            Ok(sem_call(s, addr))
        },
        Instr::SkipEqImm { x, imm } => Ok(skip_pc(s, s.v[x as int] == imm)),
        Instr::SkipNeImm { x, imm } => Ok(skip_pc(s, s.v[x as int] != imm)),
        Instr::SkipEqReg { x, y } => Ok(skip_pc(s, s.v[x as int] == s.v[y as int])),
        Instr::SetImm { x, imm } => Ok(sem_ld(s, x as int, imm)),
        Instr::AddImm { x, imm } => Ok(sem_addiw(s, x as int, imm)),
        Instr::Mov { x, y } => Ok(sem_mv(s, x as int, y as int)),
        Instr::Or { x, y } => Ok(sem_or(s, x as int, y as int)),
        Instr::And { x, y } => Ok(sem_and(s, x as int, y as int)),
        Instr::Xor { x, y } => Ok(sem_xor(s, x as int, y as int)),
        Instr::Add { x, y } => Ok(sem_add(s, x as int, y as int)),
        Instr::Sub { x, y } => Ok(sem_sub(s, x as int, y as int)),
        Instr::Shr { x } => Ok(sem_shr(s, x as int)),
        Instr::SubFrom { x, y } => Ok(sem_sub2(s, x as int, y as int)),
        Instr::Shl { x } => Ok(sem_shl(s, x as int)),
        Instr::SkipNeReg { x, y } => Ok(skip_pc(s, s.v[x as int] != s.v[y as int])),
        Instr::SetIndex { addr } => Ok(sem_ldi(s, addr)),
        Instr::JmpPlusV0 { addr } => Ok(sem_jmp2(s, addr)),
        Instr::Rand { x, imm } => Ok(sem_rnd(s, x as int, imm, rnd)),
        Instr::Draw { x, y, n } => if n > 0 && s.i + n > 4096 {
            Err(VmError::OutOfRange)
        } else {
            Ok(sem_draw(s, x as int, y as int, n))
        },
        Instr::SkipKeyPressed { x } => if s.v[x as int] >= 16 {
            Err(VmError::OutOfRange)
        } else {
            Ok(skip_pc(s, s.keys[s.v[x as int] as int]))
        },
        Instr::SkipKeyNotPressed { x } => if s.v[x as int] >= 16 {
            Err(VmError::OutOfRange)
        } else {
            Ok(skip_pc(s, !s.keys[s.v[x as int] as int]))
        },
        Instr::GetDelay { x } => Ok(sem_ldt(s, x as int)),
        Instr::WaitKey { x } => Ok(sem_wkp(s, x as int)),
        Instr::SetDelay { x } => Ok(sem_sdt(s, x as int)),
        Instr::SetSound { x } => Ok(sem_sst(s, x as int)),
        Instr::AddIndex { x } => Ok(sem_iadd(s, x as int)),
        Instr::FontAddr { x } => Ok(sem_ldf(s, x as int)),
        Instr::StoreBcd { x } => if s.i + 2 >= 4096 {
            Err(VmError::OutOfRange)
        } else {
            Ok(sem_sbcd(s, x as int))
        },
        Instr::StoreRegs { x } => if s.i + x >= 4096 {
            Err(VmError::OutOfRange)
        } else {
            Ok(sem_strr(s, x as int))
        },
        Instr::LoadRegs { x } => if s.i + x >= 4096 {
            Err(VmError::OutOfRange)
        } else {
            Ok(sem_ldr(s, x as int))
        },
    }
}

/// One whole step: fetch the word at the program counter, decode it, and
/// run the instruction on the advanced state. A fetch that would read
/// past memory, a word that decodes to nothing, and a faulting
/// instruction each give the error instead.
pub open spec fn step_spec(s: MState, rnd: u8) -> Result<MState, VmError>
    recommends
        s.wf(),
{
    if s.pc + 1 >= 4096 {
        Err(VmError::OutOfRange)
    } else {
        let op = word_at(s.ram, s.pc as int);
        match spec_decode(op) {
            Option::None => Err(VmError::BadOpcode),
            Option::Some(instr) => instr_effect(fetched(s), instr, rnd),
        }
    }
}

/// One timer tick: each timer drops by one exactly when it is nonzero.
pub open spec fn sem_tick_timers(s: MState) -> MState {
    MState {
        dt: if s.dt > 0 {
            (s.dt - 1) as u8
        } else {
            0u8
        },
        st: if s.st > 0 {
            (s.st - 1) as u8
        } else {
            0u8
        },
        ..s
    }
}


/// Two numbers with the same remainder and less than the modulus apart
/// are equal.
pub(crate) proof fn lemma_mod_inj(a: int, b: int, m: int)
    requires
        m > 0,
        a % m == b % m,
        a - b < m,
        b - a < m,
    ensures
        a == b,
{
    vstd::arithmetic::div_mod::lemma_fundamental_div_mod(a, m);
    vstd::arithmetic::div_mod::lemma_fundamental_div_mod(b, m);
    let d = a / m - b / m;
    assert(a - b == m * d) by (nonlinear_arith)
        requires
            a == m * (a / m) + a % m,
            b == m * (b / m) + b % m,
            d == a / m - b / m,
            a % m == b % m,
    ;
    assert(d == 0) by (nonlinear_arith)
        requires
            a - b == m * d,
            a - b < m,
            b - a < m,
            m > 0,
    ;
}

/// No sprite cell is hit before the very first one.
pub(crate) proof fn lemma_hit_empty(ram: Seq<u8>, i: u16, x: u8, y: u8, p: int)
    ensures
        !hit_before(ram, i, x, y, 0, 0, p),
{
    if hit_before(ram, i, x, y, 0, 0, p) {
        let (r, c) = choose|r: int, c: int|
            0 <= r && 0 <= c < 8 && (r < 0 || (r == 0 && c < 0)) && sprite_row_bit(
                ram[i + r],
                c as u8,
            ) && #[trigger] pixel_index(x, y, r, c) == p;
        assert(false);
    }
}

/// Processing one more sprite cell adds exactly that cell's hit, if it
/// is a 1-bit, to the cells hit so far.
pub(crate) proof fn lemma_hit_step(ram: Seq<u8>, i: u16, x: u8, y: u8, row: int, col: int, p: int)
    requires
        0 <= row,
        0 <= col < 8,
    ensures
        hit_before(ram, i, x, y, row, col + 1, p) <==> (hit_before(ram, i, x, y, row, col, p) || (
        sprite_row_bit(ram[i + row], col as u8) && pixel_index(x, y, row, col) == p)),
{
    if hit_before(ram, i, x, y, row, col + 1, p) {
        let (r, c) = choose|r: int, c: int|
            0 <= r && 0 <= c < 8 && (r < row || (r == row && c < col + 1)) && sprite_row_bit(
                ram[i + r],
                c as u8,
            ) && #[trigger] pixel_index(x, y, r, c) == p;
        if !(r == row && c == col) {
            assert(r < row || (r == row && c < col));
            assert(hit_before(ram, i, x, y, row, col, p));
        }
    }
    if hit_before(ram, i, x, y, row, col, p) {
        let (r, c) = choose|r: int, c: int|
            0 <= r && 0 <= c < 8 && (r < row || (r == row && c < col)) && sprite_row_bit(
                ram[i + r],
                c as u8,
            ) && #[trigger] pixel_index(x, y, r, c) == p;
        assert(hit_before(ram, i, x, y, row, col + 1, p));
    }
    if sprite_row_bit(ram[i + row], col as u8) && pixel_index(x, y, row, col) == p {
        assert(hit_before(ram, i, x, y, row, col + 1, p));
    }
}

/// Having processed all eight cells of a row is having processed every
/// cell before the start of the next row.
pub(crate) proof fn lemma_hit_row_end(ram: Seq<u8>, i: u16, x: u8, y: u8, row: int, p: int)
    requires
        0 <= row,
    ensures
        hit_before(ram, i, x, y, row, 8, p) <==> hit_before(ram, i, x, y, row + 1, 0, p),
{
    if hit_before(ram, i, x, y, row, 8, p) {
        let (r, c) = choose|r: int, c: int|
            0 <= r && 0 <= c < 8 && (r < row || (r == row && c < 8)) && sprite_row_bit(
                ram[i + r],
                c as u8,
            ) && #[trigger] pixel_index(x, y, r, c) == p;
        assert(r < row + 1);
        assert(hit_before(ram, i, x, y, row + 1, 0, p));
    }
    if hit_before(ram, i, x, y, row + 1, 0, p) {
        let (r, c) = choose|r: int, c: int|
            0 <= r && 0 <= c < 8 && (r < row + 1 || (r == row + 1 && c < 0)) && sprite_row_bit(
                ram[i + r],
                c as u8,
            ) && #[trigger] pixel_index(x, y, r, c) == p;
        assert(r < row || (r == row && c < 8));
        assert(hit_before(ram, i, x, y, row, 8, p));
    }
}

/// Within one draw of at most 32 rows, no two sprite cells land on the
/// same display pixel; in particular no cell processed earlier hit the
/// pixel that the current cell lands on.
pub(crate) proof fn lemma_no_earlier_hit(ram: Seq<u8>, i: u16, x: u8, y: u8, row: int, col: int)
    requires
        0 <= row < 32,
        0 <= col < 8,
    ensures
        !hit_before(ram, i, x, y, row, col, pixel_index(x, y, row, col)),
{
    let p = pixel_index(x, y, row, col);
    if hit_before(ram, i, x, y, row, col, p) {
        let (r, c) = choose|r: int, c: int|
            0 <= r && 0 <= c < 8 && (r < row || (r == row && c < col)) && sprite_row_bit(
                ram[i + r],
                c as u8,
            ) && #[trigger] pixel_index(x, y, r, c) == p;
        assert(0 <= (x + c) % 64 < 64);
        assert(0 <= (x + col) % 64 < 64);
        assert((y + r) % 32 == (y + row) % 32 && (x + c) % 64 == (x + col) % 64);
        lemma_mod_inj(y + r, y + row, 32);
        lemma_mod_inj(x + c, x + col, 64);
        assert(false);
    }
}

/// Every pixel a sprite cell lands on is a display index.
pub(crate) proof fn lemma_pixel_index_range(x: u8, y: u8, r: int, c: int)
    requires
        0 <= r,
        0 <= c,
    ensures
        0 <= pixel_index(x, y, r, c) < 2048,
{
    assert(0 <= (y + r) % 32 < 32);
    assert(0 <= (x + c) % 64 < 64);
}
} // verus!
