use vstd::prelude::*;
use crate::instruction::Instruction;
use crate::machine::{
    advance, countdown, flips, font_table, run, timer_steps_spec, timers_spec, MachineView,
    FONT_SIZE, MEMORY_SIZE, SCREEN_SIZE, STACK_DEPTH,
};

verus! {

/// `8xy4` sets `VF` to 1 exactly when `Vx + Vy` overflows a byte and to 0
/// otherwise, and leaves the wrapped sum in `Vx` (unless `Vx` is the flag).
pub proof fn lemma_add_carry_flag(s: MachineView, x: usize, y: usize, rnd: u8)
    requires
        s.wf(),
        x < 16,
        y < 16,
    ensures
        run(s, Instruction::AddCarry(x, y), rnd) matches Ok(t) && {
            let sum = s.registers[x as int] + s.registers[y as int];
            &&& t.registers[15] == if sum > 255 { 1u8 } else { 0u8 }
            &&& x != 15 ==> t.registers[x as int] == sum % 256
        },
{
}

/// `7xnn` adds with wraparound and leaves `VF` alone (unless `Vx` is the flag).
pub proof fn lemma_add_immediate_keeps_flag(s: MachineView, x: usize, nn: usize, rnd: u8)
    requires
        s.wf(),
        x < 16,
        nn < 256,
    ensures
        run(s, Instruction::AddImm(x, nn), rnd) matches Ok(t) && {
            &&& t.registers[x as int] == (s.registers[x as int] + nn) % 256
            &&& x != 15 ==> t.registers[15] == s.registers[15]
        },
{
}

/// `8xy5` sets `VF` to 1 exactly when `Vx >= Vy` (no borrow) and to 0
/// otherwise, and leaves the wrapped difference in `Vx` (unless `Vx` is the flag).
pub proof fn lemma_sub_borrow_flag(s: MachineView, x: usize, y: usize, rnd: u8)
    requires
        s.wf(),
        x < 16,
        y < 16,
    ensures
        run(s, Instruction::Sub(x, y), rnd) matches Ok(t) && {
            let a = s.registers[x as int];
            let b = s.registers[y as int];
            &&& t.registers[15] == if a >= b { 1u8 } else { 0u8 }
            &&& x != 15 ==> t.registers[x as int] == (a - b + 256) % 256
        },
{
}

/// `8xy7` sets `VF` to 1 exactly when `Vy >= Vx` (no borrow) and to 0
/// otherwise, and leaves the wrapped difference `Vy - Vx` in `Vx` (unless `Vx` is the flag).
pub proof fn lemma_sub_reverse_borrow_flag(s: MachineView, x: usize, y: usize, rnd: u8)
    requires
        s.wf(),
        x < 16,
        y < 16,
    ensures
        run(s, Instruction::SubReverse(x, y), rnd) matches Ok(t) && {
            let a = s.registers[x as int];
            let b = s.registers[y as int];
            &&& t.registers[15] == if b >= a { 1u8 } else { 0u8 }
            &&& x != 15 ==> t.registers[x as int] == (b - a + 256) % 256
        },
{
}

/// Drawing the same sprite twice at the same place restores the display.
/// When no lit pixel lay under the sprite, the first draw reports no
/// collision and the second reports one exactly when the sprite lit a pixel.
/// The coordinate registers must not be the flag, which the first draw overwrites.
pub proof fn lemma_draw_twice_cancels(s: MachineView, x: usize, y: usize, n: usize, rnd: u8)
    requires
        s.wf(),
        x < 15,
        y < 15,
        n < 16,
    ensures
        run(s, Instruction::Draw(x, y, n), rnd) matches Ok(t1) && run(t1, Instruction::Draw(x, y, n), rnd) matches Ok(
            t2,
        ) && {
            let lit_any = exists|p: int|
                0 <= p < SCREEN_SIZE && #[trigger] flips(
                    s.memory,
                    s.address_register,
                    s.registers[x as int],
                    s.registers[y as int],
                    n as int,
                    p,
                );
            let clear_under = forall|p: int|
                0 <= p < SCREEN_SIZE && #[trigger] flips(
                    s.memory,
                    s.address_register,
                    s.registers[x as int],
                    s.registers[y as int],
                    n as int,
                    p,
                ) ==> !s.pixels[p];
            &&& t2.pixels == s.pixels
            &&& clear_under ==> t1.registers[15] == 0
            &&& clear_under ==> (t2.registers[15] == 1 <==> lit_any)
        },
{
    let t1 = run(s, Instruction::Draw(x, y, n), rnd).unwrap();
    let t2 = run(t1, Instruction::Draw(x, y, n), rnd).unwrap();
    let vx = s.registers[x as int];
    let vy = s.registers[y as int];
    let i = s.address_register;
    assert(t1.registers[x as int] == vx && t1.registers[y as int] == vy);
    assert(t2.pixels =~= s.pixels);
    let clear_under = forall|p: int|
        0 <= p < SCREEN_SIZE && #[trigger] flips(s.memory, i, vx, vy, n as int, p) ==> !s.pixels[p];
    if clear_under {
        if t2.registers[15] == 1 {
            let w = choose|p: int|
                0 <= p < SCREEN_SIZE && t1.pixels[p] && #[trigger] flips(t1.memory, i, vx, vy, n as int, p);
            assert(flips(s.memory, i, vx, vy, n as int, w));
        }
        if exists|p: int| 0 <= p < SCREEN_SIZE && #[trigger] flips(s.memory, i, vx, vy, n as int, p) {
            let w = choose|p: int| 0 <= p < SCREEN_SIZE && #[trigger] flips(s.memory, i, vx, vy, n as int, p);
            assert(t1.pixels[w]);
        }
    }
}

/// A call followed by a return resumes at the instruction after the call,
/// with the stack and everything else as before the call.
pub proof fn lemma_call_return(s: MachineView, nnn: usize, rnd: u8)
    requires
        s.wf(),
        nnn < MEMORY_SIZE,
        s.stack.len() < STACK_DEPTH,
    ensures
        run(s, Instruction::Call(nnn), rnd) matches Ok(t) && run(t, Instruction::Return, rnd) == Ok::<
            MachineView,
            crate::machine::StepError,
        >(MachineView { pc: advance(s.pc), ..s }),
{
    let t = run(s, Instruction::Call(nnn), rnd).unwrap();
    assert(t.stack.drop_last() =~= s.stack);
}

/// The timers after a series of timer ticks.
pub open spec fn timers_after(s: MachineView, elapsed: Seq<u64>) -> MachineView
    decreases elapsed.len(),
{
    if elapsed.len() == 0 {
        s
    } else {
        timers_after(timers_spec(s, elapsed[0]), elapsed.drop_first())
    }
}

/// Total whole sixtieths of a second over a series of ticks.
pub open spec fn total_steps(elapsed: Seq<u64>) -> int
    decreases elapsed.len(),
{
    if elapsed.len() == 0 {
        0
    } else {
        timer_steps_spec(elapsed[0]) + total_steps(elapsed.drop_first())
    }
}

/// However many timer ticks come, each timer counts down by the total
/// number of elapsed sixtieths and stops at zero: it never wraps.
pub proof fn lemma_timers_stop_at_zero(s: MachineView, elapsed: Seq<u64>)
    ensures
        timers_after(s, elapsed).delay_timer == countdown(s.delay_timer, total_steps(elapsed)),
        timers_after(s, elapsed).sound_timer == countdown(s.sound_timer, total_steps(elapsed)),
        timers_after(s, elapsed).delay_timer <= s.delay_timer,
        timers_after(s, elapsed).sound_timer <= s.sound_timer,
        total_steps(elapsed) >= 0,
    decreases elapsed.len(),
{
    if elapsed.len() > 0 {
        lemma_timers_stop_at_zero(timers_spec(s, elapsed[0]), elapsed.drop_first());
        assert(timer_steps_spec(elapsed[0]) >= 0) by (nonlinear_arith);
    }
}

/// With the font in place, `Fx29` on a register holding `v` (below 16)
/// points `I` at `5 * v`, where the five rows of glyph `v` lie.
pub proof fn lemma_font_glyph(s: MachineView, x: usize, rnd: u8)
    requires
        s.wf(),
        x < 16,
        s.registers[x as int] < 16,
        s.memory.subrange(0, FONT_SIZE as int) == font_table(),
    ensures
        run(s, Instruction::FontGlyph(x), rnd) matches Ok(t) && {
            let v = s.registers[x as int] as int;
            &&& t.address_register == 5 * v
            &&& t.memory.subrange(5 * v, 5 * v + 5) == font_table().subrange(5 * v, 5 * v + 5)
        },
{
    let t = run(s, Instruction::FontGlyph(x), rnd).unwrap();
    let v = s.registers[x as int] as int;
    assert(t.memory.subrange(5 * v, 5 * v + 5) =~= s.memory.subrange(0, FONT_SIZE as int).subrange(5 * v, 5 * v + 5));
}

} // verus!
