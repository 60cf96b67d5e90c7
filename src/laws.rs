use vstd::prelude::*;

use crate::instr::{addr_of, decoded, Instr};
use crate::machine::{
    cell, collides, drawn, flips, lemma_cell, next_pc, sprite_bit, step, tick, Flow, State,
};

verus! {

/// Adding register `y` to register `x` leaves the sum modulo 256 in `x` and
/// sets the flag register to 1 exactly when the sum needs a ninth bit.
pub proof fn lemma_add_carry(s: State, x: u8, y: u8, random: u8, now: u64)
    requires
        s.wf(),
        x < 15,
        y < 16,
    ensures
        ({
            let (a, b) = (s.v[x as int], s.v[y as int]);
            let (t, flow) = step(s, Instr::AddReg { x, y }, random, now);
            &&& t.v[x as int] == (a + b) % 256
            &&& t.v[15] == (if a + b >= 256 { 1u8 } else { 0u8 })
            &&& flow == Flow::Continue
        }),
{
}

/// Subtracting register `y` from register `x` leaves the difference modulo
/// 256 in `x` and sets the flag register to 1 exactly when `x` was greater.
pub proof fn lemma_sub_borrow(s: State, x: u8, y: u8, random: u8, now: u64)
    requires
        s.wf(),
        x < 15,
        y < 16,
    ensures
        ({
            let (a, b) = (s.v[x as int], s.v[y as int]);
            let (t, flow) = step(s, Instr::SubReg { x, y }, random, now);
            &&& t.v[x as int] == (a - b) % 256
            &&& t.v[15] == (if a > b { 1u8 } else { 0u8 })
            &&& flow == Flow::Continue
        }),
{
}

/// A right shift works on register `x` alone, whatever the `y` field of the
/// word holds: from `0b11` it leaves `0b1` and shifts a 1 into the flag.
pub proof fn lemma_shift_right_ignores_y(s: State, hi: u8, lo: u8, random: u8, now: u64)
    requires
        s.wf(),
        0x80 <= hi <= 0x8f,
        lo % 16 == 6,
        s.v[hi as int % 16] == 3,
    ensures
        decoded(hi, lo) == Some(Instr::ShiftRight { x: hi % 16 }),
        ({
            let (t, flow) = step(s, Instr::ShiftRight { x: hi % 16 }, random, now);
            &&& t.v[hi as int % 16] == 1
            &&& t.v[15] == 1
            &&& flow == Flow::Continue
        }),
{
}

/// A jump with offset always adds register 0 to the target, whatever
/// register the `x` field of the word names.
pub proof fn lemma_jump_offset_uses_v0(s: State, hi: u8, lo: u8, random: u8, now: u64)
    requires
        s.wf(),
        0xb0 <= hi <= 0xbf,
    ensures
        decoded(hi, lo) == Some(Instr::JumpOffset { addr: addr_of(hi, lo) }),
        ({
            let (t, flow) = step(s, Instr::JumpOffset { addr: addr_of(hi, lo) }, random, now);
            &&& t.pc == (addr_of(hi, lo) + s.v[0]) % 4096
            &&& flow == Flow::Continue
        }),
{
}

/// Drawing the same sprite at the same place twice gives back the display
/// as it was, and the second draw reports a collision exactly when the first
/// one turned some pixel on. The sprite position must not be read from the
/// flag register, which the first draw overwrites.
pub proof fn lemma_draw_twice(s: State, x: u8, y: u8, n: u8, random: u8, now: u64)
    requires
        s.wf(),
        x < 15,
        y < 15,
        n < 16,
    ensures
        ({
            let ins = Instr::Draw { x, y, n };
            let (s1, _) = step(s, ins, random, now);
            let (s2, _) = step(s1, ins, random, now);
            &&& s2.screen == s.screen
            &&& s2.v[15] == (if exists|r: int, c: int|
                0 <= r < n && 0 <= c < 8 && #[trigger] sprite_bit(s.memory, s.i, r, c)
                    && !s.screen[cell(r, c, s.v[x as int], s.v[y as int])] {
                1u8
            } else {
                0u8
            })
        }),
{
    let ins = Instr::Draw { x, y, n };
    let (vx, vy) = (s.v[x as int], s.v[y as int]);
    let (s1, _) = step(s, ins, random, now);
    assert(s1.v[x as int] == vx && s1.v[y as int] == vy);
    assert forall|k: int| 0 <= k < 2048 implies flips(s1, vx, vy, n, k) == flips(
        s,
        vx,
        vy,
        n,
        k,
    ) by {}
    assert(drawn(s1, vx, vy, n) =~= s.screen);
    assert forall|r: int, c: int| 0 <= r < n && 0 <= c < 8 implies s1.screen[cell(r, c, vx, vy)]
        == (s.screen[cell(r, c, vx, vy)] != sprite_bit(s.memory, s.i, r, c)) by {
        lemma_cell(r, c, vx, vy);
    }
    let fresh = exists|r: int, c: int|
        0 <= r < n && 0 <= c < 8 && #[trigger] sprite_bit(s.memory, s.i, r, c) && !s.screen[cell(
            r,
            c,
            vx,
            vy,
        )];
    if collides(s1, vx, vy, n) {
        let (r, c) = choose|r: int, c: int|
            0 <= r < n && 0 <= c < 8 && #[trigger] sprite_bit(s1.memory, s1.i, r, c)
                && s1.screen[cell(r, c, vx, vy)];
        assert(sprite_bit(s.memory, s.i, r, c) && !s.screen[cell(r, c, vx, vy)]);
    }
    if fresh {
        let (r, c) = choose|r: int, c: int|
            0 <= r < n && 0 <= c < 8 && #[trigger] sprite_bit(s.memory, s.i, r, c)
                && !s.screen[cell(r, c, vx, vy)];
        assert(sprite_bit(s1.memory, s1.i, r, c) && s1.screen[cell(r, c, vx, vy)]);
    }
}

/// A call followed, whenever the stack is back at the frame it pushed, by a
/// return resumes at the word after the call with the stack as it was
/// before the call.
pub proof fn lemma_call_return(s: State, addr: u16, later: State, random: u8, now: u64)
    requires
        s.wf(),
        addr < 4096,
        later.stack == step(s, Instr::Call { addr }, random, now).0.stack,
    ensures
        ({
            let (t, flow) = step(later, Instr::Return, random, now);
            &&& later.stack.last() == s.pc
            &&& flow == Flow::Continue
            &&& t.pc == next_pc(s.pc)
            &&& t.stack == s.stack
        }),
{
    assert(s.stack.push(s.pc).drop_last() =~= s.stack);
}

/// A timer at zero stays at zero on a tick; any other value goes down by one.
pub proof fn lemma_tick_saturates(t: u8)
    ensures
        tick(0) == 0,
        t > 0 ==> tick(t) == t - 1,
        tick(t) <= t,
{
}

} // verus!
