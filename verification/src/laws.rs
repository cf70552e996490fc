use vstd::prelude::*;
use crate::instr::{spec_decode, Instr};
use crate::semantics::{
    draw_collision, fetched, first_key_from, instr_effect, sem_call, sem_draw, sem_ret, sem_wkp,
    sprite_hits, step_spec, word_at, VmError,
};
use crate::state::MState;

verus! {

/// Add with carry: for every pair of registers and every state, VF
/// becomes 1 exactly when the unsigned sum exceeds 255, and Vx holds the
/// sum modulo 256 (unless x is the flag register itself, whose flag
/// write wins).
pub proof fn lemma_add_carry(s: MState, x: u8, y: u8, b: u8)
    requires
        s.wf(),
        x < 16,
        y < 16,
    ensures
        instr_effect(s, (Instr::Add { x, y }), b) is Ok,
        ({
            let t = instr_effect(s, (Instr::Add { x, y }), b)->Ok_0;
            &&& (t.v[15] == 1 <==> s.v[x as int] + s.v[y as int] > 255)
            &&& (t.v[15] == 1 || t.v[15] == 0)
            &&& x != 15 ==> t.v[x as int] == (s.v[x as int] + s.v[y as int]) % 256
        }),
{
}

/// Subtract with borrow: for every pair of registers and every state, VF
/// becomes 1 exactly when no borrow occurred (Vx at least Vy), and Vx
/// holds the wrapped difference (unless x is the flag register itself).
pub proof fn lemma_sub_borrow(s: MState, x: u8, y: u8, b: u8)
    requires
        s.wf(),
        x < 16,
        y < 16,
    ensures
        instr_effect(s, (Instr::Sub { x, y }), b) is Ok,
        ({
            let t = instr_effect(s, (Instr::Sub { x, y }), b)->Ok_0;
            &&& (t.v[15] == 1 <==> s.v[x as int] >= s.v[y as int])
            &&& (t.v[15] == 1 || t.v[15] == 0)
            &&& x != 15 ==> t.v[x as int] == (s.v[x as int] - s.v[y as int]) % 256
        }),
{
}

/// Reverse subtract with borrow: VF becomes 1 exactly when no borrow
/// occurred (Vy at least Vx), and Vx holds the wrapped difference.
pub proof fn lemma_sub_from_borrow(s: MState, x: u8, y: u8, b: u8)
    requires
        s.wf(),
        x < 16,
        y < 16,
    ensures
        instr_effect(s, (Instr::SubFrom { x, y }), b) is Ok,
        ({
            let t = instr_effect(s, (Instr::SubFrom { x, y }), b)->Ok_0;
            &&& (t.v[15] == 1 <==> s.v[y as int] >= s.v[x as int])
            &&& (t.v[15] == 1 || t.v[15] == 0)
            &&& x != 15 ==> t.v[x as int] == (s.v[y as int] - s.v[x as int]) % 256
        }),
{
}

/// Both shifts capture the bit shifted out into VF, computed from Vx
/// before Vx is overwritten, for every register and every byte value.
pub proof fn lemma_shift_flag(s: MState, x: u8, b: u8)
    requires
        s.wf(),
        x < 16,
    ensures
        instr_effect(s, (Instr::Shr { x }), b) is Ok,
        ({
            let t = instr_effect(s, (Instr::Shr { x }), b)->Ok_0;
            &&& t.v[15] == s.v[x as int] % 2
            &&& x != 15 ==> t.v[x as int] == s.v[x as int] / 2
        }),
        instr_effect(s, (Instr::Shl { x }), b) is Ok,
        ({
            let t = instr_effect(s, (Instr::Shl { x }), b)->Ok_0;
            &&& t.v[15] == s.v[x as int] / 128
            &&& x != 15 ==> t.v[x as int] == (s.v[x as int] * 2) % 256
        }),
{
}

/// Drawing the same sprite twice at the same coordinates restores the
/// display to its pre-draw state, and the second draw reports a
/// collision exactly when the first draw turned some pixel on. The
/// coordinate registers must not be the flag register, which the first
/// draw overwrites.
pub proof fn lemma_draw_twice(s: MState, x: u8, y: u8, n: u8)
    requires
        s.wf(),
        x < 16,
        y < 16,
        x != 15,
        y != 15,
    ensures
        ({
            let s1 = sem_draw(s, x as int, y as int, n);
            let s2 = sem_draw(s1, x as int, y as int, n);
            &&& s2.screen == s.screen
            &&& (s2.v[15] == 1 <==> exists|p: int|
                0 <= p < 2048 && #[trigger] sprite_hits(
                    s.ram,
                    s.i,
                    s.v[x as int],
                    s.v[y as int],
                    n,
                    p,
                ) && !s.screen[p])
        }),
{
    let sx = s.v[x as int];
    let sy = s.v[y as int];
    let s1 = sem_draw(s, x as int, y as int, n);
    let s2 = sem_draw(s1, x as int, y as int, n);
    assert(s1.v[x as int] == sx);
    assert(s1.v[y as int] == sy);
    assert(s2.screen =~= s.screen);
    if draw_collision(s1, x as int, y as int, n) {
        let p = choose|p: int|
            0 <= p < 2048 && #[trigger] sprite_hits(
                s1.ram,
                s1.i,
                s1.v[x as int],
                s1.v[y as int],
                n,
                p,
            ) && s1.screen[p];
        assert(sprite_hits(s.ram, s.i, sx, sy, n, p));
        assert(!s.screen[p]);
    }
    if exists|p: int|
        0 <= p < 2048 && #[trigger] sprite_hits(s.ram, s.i, sx, sy, n, p) && !s.screen[p] {
        let p = choose|p: int|
            0 <= p < 2048 && #[trigger] sprite_hits(s.ram, s.i, sx, sy, n, p) && !s.screen[p];
        assert(s1.screen[p]);
        assert(sprite_hits(s1.ram, s1.i, s1.v[x as int], s1.v[y as int], n, p));
        assert(draw_collision(s1, x as int, y as int, n));
    }
}

/// A call followed immediately by a return leaves the program counter at
/// the instruction after the call: the value it held right after the
/// call's own fetch.
pub proof fn lemma_call_ret_round_trip(s: MState, addr: u16, b1: u8, b2: u8)
    requires
        s.wf(),
        s.pc + 1 < 4096,
        spec_decode(word_at(s.ram, s.pc as int)) == Some((Instr::Call { addr })),
        s.sp < 16,
        addr + 1 < 4096,
        spec_decode(word_at(s.ram, addr as int)) == Some(Instr::Ret),
    ensures
        step_spec(s, b1) is Ok,
        step_spec(step_spec(s, b1)->Ok_0, b2) is Ok,
        step_spec(step_spec(s, b1)->Ok_0, b2)->Ok_0.pc == s.pc + 2,
{
    let s1 = step_spec(s, b1)->Ok_0;
    assert(s1 == sem_call(fetched(s), addr));
    assert(s1.stack[s.sp as int] == (s.pc + 2) as u16);
    let s2 = step_spec(s1, b2)->Ok_0;
    assert(s2 == sem_ret(fetched(s1)));
}

/// With every key up at or above index `k`, the scan from `k` finds no
/// key.
proof fn lemma_first_key_none(keys: Seq<bool>, k: int)
    requires
        keys.len() == 16,
        forall|j: int| 0 <= j < 16 ==> !keys[j],
        0 <= k,
    ensures
        first_key_from(keys, k) is None,
    decreases 16 - k,
{
    if k < 16 {
        lemma_first_key_none(keys, k + 1);
    }
}

/// With some key down in `k..16`, the scan from `k` finds the lowest
/// such index.
proof fn lemma_first_key_some(keys: Seq<bool>, k: int)
    requires
        keys.len() == 16,
        0 <= k,
        exists|j: int| k <= j < 16 && keys[j],
    ensures
        first_key_from(keys, k) is Some,
        ({
            let m = first_key_from(keys, k)->Some_0;
            &&& k <= m < 16
            &&& keys[m]
            &&& forall|j: int| k <= j < m ==> !keys[j]
        }),
    decreases 16 - k,
{
    let j0 = choose|j: int| k <= j < 16 && keys[j];
    if !keys[k] {
        assert(k + 1 <= j0 < 16 && keys[j0]);
        lemma_first_key_some(keys, k + 1);
    }
}

/// With no key pressed, a step of the key-wait instruction returns the
/// very state it started from: the machine stalls, and stays stalled
/// over any number of further steps.
pub proof fn lemma_wait_key_stall(s: MState, x: u8, b: u8)
    requires
        s.wf(),
        s.pc + 1 < 4096,
        spec_decode(word_at(s.ram, s.pc as int)) == Some((Instr::WaitKey { x })),
        forall|k: int| 0 <= k < 16 ==> !s.keys[k],
    ensures
        step_spec(s, b) == Ok::<MState, VmError>(s),
{
    lemma_first_key_none(s.keys, 0);
    assert(step_spec(s, b)->Ok_0 == sem_wkp(fetched(s), x as int));
}

/// The first step of the key-wait instruction in which some key is
/// pressed advances the program counter past the instruction and stores
/// the lowest pressed key index in Vx.
pub proof fn lemma_wait_key_press(s: MState, x: u8, b: u8)
    requires
        s.wf(),
        x < 16,
        s.pc + 1 < 4096,
        spec_decode(word_at(s.ram, s.pc as int)) == Some((Instr::WaitKey { x })),
        exists|k: int| 0 <= k < 16 && s.keys[k],
    ensures
        step_spec(s, b) is Ok,
        ({
            let t = step_spec(s, b)->Ok_0;
            &&& t.pc == s.pc + 2
            &&& t.v[x as int] < 16
            &&& s.keys[t.v[x as int] as int]
            &&& forall|j: int| 0 <= j < t.v[x as int] as int ==> !s.keys[j]
        }),
{
    let j0 = choose|k: int| 0 <= k < 16 && s.keys[k];
    assert(0 <= j0 < 16 && s.keys[j0]);
    lemma_first_key_some(s.keys, 0);
    assert(step_spec(s, b)->Ok_0 == sem_wkp(fetched(s), x as int));
}

} // verus!
