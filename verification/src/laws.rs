//! Properties of the machine that span several instructions or hold of every state.
use vstd::prelude::*;

use crate::machine::{
    blank_screen, can_cycle, cycle, execute, fetch, tick_timers, executable, first_key, font, group, lemma_decode_bounds,
    lemma_group_cases, low_byte, nibble, reg_x, reg_y, screen_wf, sprite_collides, sprite_hit,
    supported, write_bytes, xor_sprite, Machine, Registers, FONT_SIZE, FONT_START, MEMORY_SIZE,
    SCREEN_HEIGHT, SCREEN_WIDTH,
};

verus! {

/// Whether the built-in font stands in `memory` where the font instruction expects it.
pub open spec fn font_loaded(memory: Seq<u8>) -> bool {
    memory.subrange(FONT_START as int, (FONT_START + FONT_SIZE) as int) == font()
}

/// Writing the font into any memory leaves it loaded.
pub proof fn law_font_write_loads_font(memory: Seq<u8>)
    requires
        memory.len() == MEMORY_SIZE,
    ensures
        font_loaded(write_bytes(memory, FONT_START as int, font())),
{
    assert(write_bytes(memory, FONT_START as int, font()).subrange(
        FONT_START as int,
        (FONT_START + FONT_SIZE) as int,
    ) =~= font());
}

/// FX29 points I at the five-byte glyph of the digit in VX: once the font is loaded,
/// the five bytes from the new I on are that digit's glyph.
pub proof fn law_font_glyph(m: Machine, op: u16)
    requires
        m.wf(),
        font_loaded(m.memory),
        group(op) == 0xF000,
        low_byte(op) == 0x29,
        executable(m, op),
        m.cpu.v[reg_x(op)] < 16,
    ensures
        forall|k: int|
            0 <= k < 5 ==> #[trigger] execute(m, op).memory[execute(m, op).cpu.i + k] == font()[5
                * m.cpu.v[reg_x(op)] + k],
{
    lemma_decode_bounds(op);
    let d = m.cpu.v[reg_x(op)];
    let m1 = execute(m, op);
    assert(m1.cpu.i == FONT_START + 5 * d);
    assert forall|k: int| 0 <= k < 5 implies #[trigger] m1.memory[m1.cpu.i + k] == font()[5 * d
        + k] by {
        assert(m.memory.subrange(FONT_START as int, (FONT_START + FONT_SIZE) as int)[5 * d + k]
            == m.memory[FONT_START + 5 * d + k]);
    }
}

/// A subroutine call (2NNN) followed by a return (00EE) comes back to the instruction
/// after the call, with the stack pointer where it was and every register, the
/// memory, the screen, the keys and the timers untouched. The return address stays
/// behind in the stack slot the call used.
pub proof fn law_call_then_return(m: Machine, call: u16)
    requires
        m.wf(),
        group(call) == 0x2000,
        m.cpu.sp < 16,
        m.cpu.pc + 2 <= 0xFFFF,
    ensures
        executable(m, call),
        executable(execute(m, call), 0x00EE),
        execute(execute(m, call), 0x00EE) == (Machine {
            cpu: Registers {
                pc: (m.cpu.pc + 2) as u16,
                stack: m.cpu.stack.update(m.cpu.sp as int, m.cpu.pc),
                ..m.cpu
            },
            ..m
        }),
{
    lemma_decode_bounds(call);
    assert(group(0x00EE) == 0x0000 && low_byte(0x00EE) == 0x00EE) by (bit_vector);
    let m1 = execute(m, call);
    assert(m1.cpu.stack[m1.cpu.sp - 1] == m.cpu.pc);
}

/// Drawing the same sprite twice at the same place (DXYN with neither X nor Y being
/// VF) leaves the screen as it was: drawing is an XOR.
pub proof fn law_draw_twice_restores_screen(m: Machine, op: u16)
    requires
        m.wf(),
        group(op) == 0xD000,
        reg_x(op) != 15,
        reg_y(op) != 15,
        executable(m, op),
        m.cpu.pc + 4 <= 0xFFFF,
    ensures
        executable(execute(m, op), op),
        execute(execute(m, op), op).pixels == m.pixels,
{
    lemma_decode_bounds(op);
    let m1 = execute(m, op);
    let m2 = execute(m1, op);
    let vx = m.cpu.v[reg_x(op)];
    let vy = m.cpu.v[reg_y(op)];
    let n = nibble(op) as u8;
    let limit = n * 8;
    assert(m1.cpu.v[reg_x(op)] == vx);
    assert(m1.cpu.v[reg_y(op)] == vy);
    assert forall|sy: int| 0 <= sy < 32 implies #[trigger] m2.pixels[sy] =~= m.pixels[sy] by {}
    assert(m2.pixels =~= m.pixels);
}

/// DXYN reports in VF whether it switched off a pixel that was on: VF is 1 exactly
/// when some pixel was on before and is off after, 0 otherwise.
pub proof fn law_draw_reports_erasure(m: Machine, op: u16)
    requires
        m.wf(),
        group(op) == 0xD000,
    ensures
        execute(m, op).cpu.v[15] == 0 || execute(m, op).cpu.v[15] == 1,
        execute(m, op).cpu.v[15] == 1 <==> exists|sy: int, sx: int|
            0 <= sy < 32 && 0 <= sx < 64 && m.pixels[sy][sx] && !#[trigger] execute(m, op).pixels[sy][sx],
{
    lemma_decode_bounds(op);
    let vx = m.cpu.v[reg_x(op)];
    let vy = m.cpu.v[reg_y(op)];
    let n = nibble(op) as u8;
    let m1 = execute(m, op);
    let erased = exists|sy: int, sx: int|
        0 <= sy < 32 && 0 <= sx < 64 && m.pixels[sy][sx] && !#[trigger] m1.pixels[sy][sx];
    if sprite_collides(m.pixels, m.memory, m.cpu.i, vx, vy, n, n * 8) {
        let (sy, sx) = choose|sy: int, sx: int|
            0 <= sy < SCREEN_HEIGHT && 0 <= sx < SCREEN_WIDTH && m.pixels[sy][sx]
                && #[trigger] sprite_hit(m.memory, m.cpu.i, vx, vy, n, n * 8, sy, sx);
        assert(!m1.pixels[sy][sx]);
    }
    if erased {
        let (sy, sx) = choose|sy: int, sx: int|
            0 <= sy < 32 && 0 <= sx < 64 && m.pixels[sy][sx] && !#[trigger] m1.pixels[sy][sx];
        assert(sprite_hit(m.memory, m.cpu.i, vx, vy, n, n * 8, sy, sx));
    }
}

/// One cycle is one fetch at the program counter (the byte there as the high half,
/// the next byte as the low half), one execution of that instruction, then one tick
/// of the timers.
pub proof fn law_cycle_is_fetch_execute_tick(m: Machine)
    requires
        m.wf(),
        can_cycle(m),
    ensures
        fetch(m) == ((m.memory[m.cpu.pc as int] as u16) << 8u16) | (m.memory[m.cpu.pc + 1] as u16),
        executable(m, fetch(m)),
        cycle(m) == tick_timers(execute(m, fetch(m))),
{
    let hi = m.memory[m.cpu.pc as int];
    let lo = m.memory[m.cpu.pc + 1];
    assert(((hi as u16) << 8u16) | (lo as u16) == (hi as u16) * 256 + (lo as u16)) by (bit_vector);
}

/// The machine after `k` ticks of the timers.
pub open spec fn ticks(m: Machine, k: nat) -> Machine
    decreases k,
{
    if k == 0 {
        m
    } else {
        tick_timers(ticks(m, (k - 1) as nat))
    }
}

/// How many of the first `k` ticks found the sound timer running, each of which
/// sounds a beep.
pub open spec fn beeps(m: Machine, k: nat) -> nat
    decreases k,
{
    if k == 0 {
        0
    } else {
        beeps(m, (k - 1) as nat) + if ticks(m, (k - 1) as nat).sound_timer > 0 {
            1nat
        } else {
            0nat
        }
    }
}

/// After `k` ticks each timer has counted down by `k`, stopping at zero, and the
/// machine has beeped once for each tick on which the sound timer was still
/// running: `min(k, sound)` times. Nothing else changes.
pub proof fn law_timers_count_down(m: Machine, k: nat)
    ensures
        ticks(m, k).delay_timer == if m.delay_timer >= k { m.delay_timer - k } else { 0 },
        ticks(m, k).sound_timer == if m.sound_timer >= k { m.sound_timer - k } else { 0 },
        beeps(m, k) == if m.sound_timer >= k { k } else { m.sound_timer as nat },
        ticks(m, k) == (Machine {
            delay_timer: ticks(m, k).delay_timer,
            sound_timer: ticks(m, k).sound_timer,
            ..m
        }),
    decreases k,
{
    if k > 0 {
        law_timers_count_down(m, (k - 1) as nat);
    }
}

/// Once `k` is at least both timers, `k` ticks leave both at zero, and no tick ever
/// makes a timer larger.
pub proof fn law_timers_reach_zero(m: Machine, k: nat)
    requires
        k >= m.delay_timer,
        k >= m.sound_timer,
    ensures
        ticks(m, k).delay_timer == 0,
        ticks(m, k).sound_timer == 0,
        forall|j: nat|
            #![trigger ticks(m, j)]
            ticks(m, j + 1).delay_timer <= ticks(m, j).delay_timer && ticks(m, j + 1).sound_timer
                <= ticks(m, j).sound_timer,
{
    law_timers_count_down(m, k);
    assert forall|j: nat|
        #![trigger ticks(m, j)]
        ticks(m, j + 1).delay_timer <= ticks(m, j).delay_timer && ticks(m, j + 1).sound_timer
            <= ticks(m, j).sound_timer by {
        law_timers_count_down(m, j);
        assert(ticks(m, j + 1) == tick_timers(ticks(m, j)));
    }
}

/// Storing V0..=VX (FX55) and loading them back from the same place (FX65) gives the
/// registers back unchanged.
pub proof fn law_store_then_load(m: Machine, store: u16, load: u16)
    requires
        m.wf(),
        group(store) == 0xF000,
        low_byte(store) == 0x55,
        group(load) == 0xF000,
        low_byte(load) == 0x65,
        reg_x(store) == reg_x(load),
        executable(m, store),
        m.cpu.pc + 4 <= 0xFFFF,
    ensures
        executable(execute(m, store), load),
        execute(execute(m, store), load).cpu.v == m.cpu.v,
        execute(execute(m, store), load).memory == execute(m, store).memory,
{
    lemma_decode_bounds(store);
    lemma_decode_bounds(load);
    let m2 = execute(execute(m, store), load);
    assert(m2.cpu.v =~= m.cpu.v);
}

/// FX33 writes the decimal digits of VX at I, I+1 and I+2, most significant first.
pub proof fn law_bcd_digits(m: Machine, op: u16)
    requires
        m.wf(),
        group(op) == 0xF000,
        low_byte(op) == 0x33,
        executable(m, op),
    ensures
        ({
            let mem = execute(m, op).memory;
            let i = m.cpu.i as int;
            &&& mem[i] < 10 && mem[i + 1] < 10 && mem[i + 2] < 10
            &&& mem[i] * 100 + mem[i + 1] * 10 + mem[i + 2] == m.cpu.v[reg_x(op)]
        }),
{
    lemma_decode_bounds(op);
}

/// 00E0 switches every pixel off.
pub proof fn law_clear_screen(m: Machine, op: u16)
    requires
        group(op) == 0x0000,
        low_byte(op) == 0x00E0,
    ensures
        execute(m, op).pixels == blank_screen(),
        forall|y: int, x: int|
            0 <= y < 32 && 0 <= x < 64 ==> !#[trigger] execute(m, op).pixels[y][x],
{
    lemma_decode_bounds(op);
}

/// 8XY4 with X other than F: VF is the carry out of the eight-bit addition, so that
/// VF * 256 + VX is the full sum.
pub proof fn law_add_carry(m: Machine, op: u16)
    requires
        m.wf(),
        group(op) == 0x8000,
        nibble(op) == 0x4,
        reg_x(op) != 15,
    ensures
        execute(m, op).cpu.v[15] * 256 + execute(m, op).cpu.v[reg_x(op)] == m.cpu.v[reg_x(op)]
            + m.cpu.v[reg_y(op)],
{
    lemma_decode_bounds(op);
}

/// 8XY5 with X other than F: VF is 1 when there is no borrow, and VX - VY is the new
/// VX less 256 when there is one.
pub proof fn law_sub_borrow(m: Machine, op: u16)
    requires
        m.wf(),
        group(op) == 0x8000,
        nibble(op) == 0x5,
        reg_x(op) != 15,
    ensures
        execute(m, op).cpu.v[15] == 1 <==> m.cpu.v[reg_x(op)] >= m.cpu.v[reg_y(op)],
        m.cpu.v[reg_x(op)] - m.cpu.v[reg_y(op)] == execute(m, op).cpu.v[reg_x(op)] - 256 * (1
            - execute(m, op).cpu.v[15]),
{
    lemma_decode_bounds(op);
}

/// An instruction the emulator does not know changes nothing, except that one of
/// group 8 still moves the program counter on.
pub proof fn law_unsupported_changes_nothing(m: Machine, op: u16)
    requires
        !supported(op),
    ensures
        group(op) != 0x8000 ==> execute(m, op) == m,
        group(op) == 0x8000 ==> execute(m, op) == m.advance(),
{
    lemma_decode_bounds(op);
    lemma_group_cases(op);
}

/// FX0A waits for a key: while none is held down it changes nothing, so the same
/// instruction runs again on the next cycle.
pub proof fn law_wait_for_key(m: Machine, op: u16)
    requires
        group(op) == 0xF000,
        low_byte(op) == 0x0A,
        forall|k: int| 0 <= k < 16 ==> !#[trigger] m.keys[k],
    ensures
        execute(m, op) == m,
{
    lemma_decode_bounds(op);
    assert(first_key(m.keys) is None);
}

/// Every instruction keeps the machine well formed: sixteen registers and stack
/// slots, 4096 bytes of memory, a 64 by 32 screen and sixteen keys.
pub proof fn law_execute_keeps_wf(m: Machine, op: u16)
    requires
        m.wf(),
        executable(m, op),
    ensures
        execute(m, op).wf(),
{
    lemma_decode_bounds(op);
    lemma_group_cases(op);
    let x = reg_x(op);
    assert(0 <= x < 16) by {
        assert(((op >> 8u16) & 0xFu16) < 16u16) by (bit_vector);
    }
    if group(op) == 0xD000 {
        let vx = m.cpu.v[x];
        let vy = m.cpu.v[reg_y(op)];
        let n = nibble(op) as u8;
        let after = xor_sprite(m.pixels, m.memory, m.cpu.i, vx, vy, n, n * 8);
        assert(screen_wf(after));
    }
    if group(op) == 0x0000 {
        assert(screen_wf(blank_screen()));
    }
}

} // verus!
