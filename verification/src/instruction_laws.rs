//! What each instruction does, stated in plain arithmetic on the instruction's
//! number and on the machine's values: the digits of an instruction are read by
//! division, and the bits of a byte by their weights.
use vstd::prelude::*;

use crate::machine::{
    address, alu, can_cycle, draw, executable, execute, fetch, first_key, group, imm, initial,
    lemma_group_cases, low_byte,
    nibble, reg_x, reg_y, sprite_bit, sprite_hit, supported, write_bytes, xor_sprite, Machine,
    Registers,
};

verus! {

/// The top hexadecimal digit of an instruction.
pub open spec fn op_kind(op: u16) -> int {
    op as int / 0x1000
}

/// The second hexadecimal digit: the register X.
pub open spec fn op_x(op: u16) -> int {
    (op as int / 0x100) % 0x10
}

/// The third hexadecimal digit: the register Y.
pub open spec fn op_y(op: u16) -> int {
    (op as int / 0x10) % 0x10
}

/// The last hexadecimal digit.
pub open spec fn op_n(op: u16) -> int {
    op as int % 0x10
}

/// The last two hexadecimal digits.
pub open spec fn op_nn(op: u16) -> int {
    op as int % 0x100
}

/// The last three hexadecimal digits: an address.
pub open spec fn op_nnn(op: u16) -> int {
    op as int % 0x1000
}

/// The weight of bit `b` of a byte: 2 to the power `b`.
pub open spec fn bit_weight(b: int) -> int {
    if b == 0 {
        1
    } else if b == 1 {
        2
    } else if b == 2 {
        4
    } else if b == 3 {
        8
    } else if b == 4 {
        16
    } else if b == 5 {
        32
    } else if b == 6 {
        64
    } else {
        128
    }
}

/// Whether bit `b` (0 the least significant) of `x` is set.
pub open spec fn bit(x: int, b: int) -> bool {
    (x / bit_weight(b)) % 2 == 1
}

/// The decoding of instructions agrees with reading their hexadecimal digits.
pub proof fn lemma_decode_digits(op: u16)
    ensures
        group(op) == op_kind(op) * 0x1000,
        0 <= op_kind(op) < 16,
        reg_x(op) == op_x(op),
        reg_y(op) == op_y(op),
        nibble(op) == op_n(op),
        low_byte(op) == op_nn(op),
        imm(op) == op_nn(op),
        address(op) == op_nnn(op),
{
    assert((op & 0xF000u16) == (op / 0x1000u16) * 0x1000u16) by (bit_vector);
    assert(((op >> 8u16) & 0xFu16) == (op / 0x100u16) % 0x10u16 && ((op >> 4u16) & 0xFu16) == (
    op / 0x10u16) % 0x10u16 && (op & 0xFu16) == op % 0x10u16 && (op & 0xFFu16) == op % 0x100u16
        && (op & 0xFFFu16) == op % 0x1000u16) by (bit_vector);
}

/// OR, AND and XOR act on each bit of a byte separately.
proof fn lemma_u8_bitwise(a: u8, c: u8)
    by (bit_vector)
    ensures
        (((a | c) / 1u8) % 2 == 1) == (((a / 1u8) % 2 == 1) || ((c / 1u8) % 2 == 1)),
        (((a & c) / 1u8) % 2 == 1) == (((a / 1u8) % 2 == 1) && ((c / 1u8) % 2 == 1)),
        (((a ^ c) / 1u8) % 2 == 1) == (((a / 1u8) % 2 == 1) != ((c / 1u8) % 2 == 1)),
        (((a | c) / 2u8) % 2 == 1) == (((a / 2u8) % 2 == 1) || ((c / 2u8) % 2 == 1)),
        (((a & c) / 2u8) % 2 == 1) == (((a / 2u8) % 2 == 1) && ((c / 2u8) % 2 == 1)),
        (((a ^ c) / 2u8) % 2 == 1) == (((a / 2u8) % 2 == 1) != ((c / 2u8) % 2 == 1)),
        (((a | c) / 4u8) % 2 == 1) == (((a / 4u8) % 2 == 1) || ((c / 4u8) % 2 == 1)),
        (((a & c) / 4u8) % 2 == 1) == (((a / 4u8) % 2 == 1) && ((c / 4u8) % 2 == 1)),
        (((a ^ c) / 4u8) % 2 == 1) == (((a / 4u8) % 2 == 1) != ((c / 4u8) % 2 == 1)),
        (((a | c) / 8u8) % 2 == 1) == (((a / 8u8) % 2 == 1) || ((c / 8u8) % 2 == 1)),
        (((a & c) / 8u8) % 2 == 1) == (((a / 8u8) % 2 == 1) && ((c / 8u8) % 2 == 1)),
        (((a ^ c) / 8u8) % 2 == 1) == (((a / 8u8) % 2 == 1) != ((c / 8u8) % 2 == 1)),
        (((a | c) / 16u8) % 2 == 1) == (((a / 16u8) % 2 == 1) || ((c / 16u8) % 2 == 1)),
        (((a & c) / 16u8) % 2 == 1) == (((a / 16u8) % 2 == 1) && ((c / 16u8) % 2 == 1)),
        (((a ^ c) / 16u8) % 2 == 1) == (((a / 16u8) % 2 == 1) != ((c / 16u8) % 2 == 1)),
        (((a | c) / 32u8) % 2 == 1) == (((a / 32u8) % 2 == 1) || ((c / 32u8) % 2 == 1)),
        (((a & c) / 32u8) % 2 == 1) == (((a / 32u8) % 2 == 1) && ((c / 32u8) % 2 == 1)),
        (((a ^ c) / 32u8) % 2 == 1) == (((a / 32u8) % 2 == 1) != ((c / 32u8) % 2 == 1)),
        (((a | c) / 64u8) % 2 == 1) == (((a / 64u8) % 2 == 1) || ((c / 64u8) % 2 == 1)),
        (((a & c) / 64u8) % 2 == 1) == (((a / 64u8) % 2 == 1) && ((c / 64u8) % 2 == 1)),
        (((a ^ c) / 64u8) % 2 == 1) == (((a / 64u8) % 2 == 1) != ((c / 64u8) % 2 == 1)),
        (((a | c) / 128u8) % 2 == 1) == (((a / 128u8) % 2 == 1) || ((c / 128u8) % 2 == 1)),
        (((a & c) / 128u8) % 2 == 1) == (((a / 128u8) % 2 == 1) && ((c / 128u8) % 2 == 1)),
        (((a ^ c) / 128u8) % 2 == 1) == (((a / 128u8) % 2 == 1) != ((c / 128u8) % 2 == 1)),
{
}

/// Shifting a byte and masking its low bit reads its bits; shifting by one halves
/// or doubles it.
proof fn lemma_u8_shift_bits(a: u8)
    by (bit_vector)
    ensures
        (((a >> 7u8) & 1u8) != 0u8) == ((a / 128u8) % 2 == 1),
        (((a >> 6u8) & 1u8) != 0u8) == ((a / 64u8) % 2 == 1),
        (((a >> 5u8) & 1u8) != 0u8) == ((a / 32u8) % 2 == 1),
        (((a >> 4u8) & 1u8) != 0u8) == ((a / 16u8) % 2 == 1),
        (((a >> 3u8) & 1u8) != 0u8) == ((a / 8u8) % 2 == 1),
        (((a >> 2u8) & 1u8) != 0u8) == ((a / 4u8) % 2 == 1),
        (((a >> 1u8) & 1u8) != 0u8) == ((a / 2u8) % 2 == 1),
        (((a >> 0u8) & 1u8) != 0u8) == ((a / 1u8) % 2 == 1),
        a >> 1u8 == a / 2u8,
        a & 1u8 == a % 2u8,
        a < 128u8 ==> (a << 1u8) == a * 2,
        a >= 128u8 ==> (a << 1u8) == (a - 128u8) * 2,
        (a & 0x80u8) >> 7u8 == a / 128u8,
{
}

/// A sprite row is read from its most significant bit: column `col` shows bit
/// `7 - col` of the byte.
proof fn lemma_sprite_bit_weight(byte: u8, col: int)
    requires
        0 <= col < 8,
    ensures
        sprite_bit(byte, col) == bit(byte as int, 7 - col),
{
    lemma_u8_shift_bits(byte);
}

/// The program counter moved on by `d` bytes, everything else as in `m`.
pub open spec fn moved_on(m: Machine, d: int) -> Machine {
    Machine { cpu: Registers { pc: (m.cpu.pc + d) as u16, ..m.cpu }, ..m }
}

/// The registers V0..VF replaced by `v` and the program counter moved on by `d`
/// bytes, everything else as in `m`.
pub open spec fn with_registers(m: Machine, v: Seq<u8>, d: int) -> Machine {
    Machine { cpu: Registers { v: v, pc: (m.cpu.pc + d) as u16, ..m.cpu }, ..m }
}

/// 1NNN jumps to address NNN and changes nothing else.
pub proof fn law_jump(m: Machine, op: u16)
    requires
        op_kind(op) == 0x1,
    ensures
        execute(m, op) == (Machine { cpu: Registers { pc: op_nnn(op) as u16, ..m.cpu }, ..m }),
        execute(m, op).cpu.pc == op_nnn(op),
{
    lemma_decode_digits(op);
}

/// BNNN jumps to V0 + NNN, the arithmetic sum, and changes nothing else.
pub proof fn law_jump_with_offset(m: Machine, op: u16)
    requires
        m.wf(),
        op_kind(op) == 0xB,
    ensures
        execute(m, op).cpu.pc == m.cpu.v[0] + op_nnn(op),
        execute(m, op) == (Machine {
            cpu: Registers { pc: (m.cpu.v[0] + op_nnn(op)) as u16, ..m.cpu },
            ..m
        }),
{
    lemma_decode_digits(op);
}

/// 2NNN pushes the address of the call onto the stack and jumps to NNN.
pub proof fn law_call(m: Machine, op: u16)
    requires
        m.wf(),
        op_kind(op) == 0x2,
        m.cpu.sp < 16,
    ensures
        execute(m, op).cpu.pc == op_nnn(op),
        execute(m, op).cpu.sp == m.cpu.sp + 1,
        execute(m, op).cpu.stack == m.cpu.stack.update(m.cpu.sp as int, m.cpu.pc),
        execute(m, op) == (Machine {
            cpu: Registers {
                pc: op_nnn(op) as u16,
                sp: (m.cpu.sp + 1) as u8,
                stack: m.cpu.stack.update(m.cpu.sp as int, m.cpu.pc),
                ..m.cpu
            },
            ..m
        }),
{
    lemma_decode_digits(op);
}

/// 00EE pops the top of the stack and resumes two bytes after the address found
/// there.
pub proof fn law_return(m: Machine, op: u16)
    requires
        m.wf(),
        op_kind(op) == 0x0,
        op_nn(op) == 0xEE,
        1 <= m.cpu.sp <= 16,
        m.cpu.stack[m.cpu.sp - 1] + 2 <= 0xFFFF,
    ensures
        execute(m, op).cpu.sp == m.cpu.sp - 1,
        execute(m, op).cpu.pc == m.cpu.stack[m.cpu.sp - 1] + 2,
        execute(m, op) == (Machine {
            cpu: Registers {
                pc: (m.cpu.stack[m.cpu.sp - 1] + 2) as u16,
                sp: (m.cpu.sp - 1) as u8,
                ..m.cpu
            },
            ..m
        }),
{
    lemma_decode_digits(op);
}

/// The conditional skips move the program counter on by four bytes when their
/// condition holds and by two otherwise, and change nothing else: 3XNN when VX
/// equals NN, 4XNN when it differs, 5XYN when VX equals VY, 9XYN when it differs.
pub proof fn law_skips(m: Machine, op: u16)
    requires
        m.wf(),
        op_kind(op) == 0x3 || op_kind(op) == 0x4 || op_kind(op) == 0x5 || op_kind(op) == 0x9,
        m.cpu.pc + 4 <= 0xFFFF,
    ensures
        ({
            let vx = m.cpu.v[op_x(op)];
            let vy = m.cpu.v[op_y(op)];
            let skip = if op_kind(op) == 0x3 {
                vx == op_nn(op)
            } else if op_kind(op) == 0x4 {
                vx != op_nn(op)
            } else if op_kind(op) == 0x5 {
                vx == vy
            } else {
                vx != vy
            };
            &&& execute(m, op) == moved_on(m, if skip { 4 } else { 2 })
            &&& execute(m, op).cpu.pc == m.cpu.pc + if skip { 4int } else { 2int }
        }),
{
    lemma_decode_digits(op);
}

/// 6XNN sets VX to NN; 7XNN adds NN to VX modulo 256 and leaves VF alone.
pub proof fn law_immediates(m: Machine, op: u16)
    requires
        m.wf(),
        op_kind(op) == 0x6 || op_kind(op) == 0x7,
        m.cpu.pc + 2 <= 0xFFFF,
    ensures
        op_kind(op) == 0x6 ==> execute(m, op) == with_registers(
            m,
            m.cpu.v.update(op_x(op), op_nn(op) as u8),
            2,
        ),
        op_kind(op) == 0x7 ==> execute(m, op) == with_registers(
            m,
            m.cpu.v.update(op_x(op), ((m.cpu.v[op_x(op)] + op_nn(op)) % 256) as u8),
            2,
        ),
        execute(m, op).cpu.v[op_x(op)] == if op_kind(op) == 0x6 {
            op_nn(op)
        } else {
            (m.cpu.v[op_x(op)] + op_nn(op)) % 256
        },
{
    lemma_decode_digits(op);
}

/// In group 8 only the registers can change, and the program counter moves on by two.
proof fn lemma_arithmetic_frame(m: Machine, op: u16)
    requires
        m.wf(),
        op_kind(op) == 0x8,
    ensures
        execute(m, op) == alu(m, op_x(op), op_y(op), op_n(op) as u16).advance(),
        execute(m, op) == with_registers(m, execute(m, op).cpu.v, 2),
{
    lemma_decode_digits(op);
}

/// 8XY0 copies VY into VX; 8XY1, 8XY2 and 8XY3 combine VX and VY bit by bit with
/// OR, AND and XOR. No other register changes.
#[verifier::rlimit(30)]
pub proof fn law_arithmetic_logic(m: Machine, op: u16)
    requires
        m.wf(),
        op_kind(op) == 0x8,
        op_n(op) <= 0x3,
    ensures
        ({
            let x = op_x(op);
            let n = op_n(op);
            let vx = m.cpu.v[x] as int;
            let vy = m.cpu.v[op_y(op)] as int;
            let after = execute(m, op);
            let r = after.cpu.v[x] as int;
            &&& after == with_registers(m, m.cpu.v.update(x, r as u8), 2)
            &&& n == 0x0 ==> r == vy
            &&& n != 0x0 ==> forall|b: int|
                0 <= b < 8 ==> #[trigger] bit(r, b) == if n == 0x1 {
                    bit(vx, b) || bit(vy, b)
                } else if n == 0x2 {
                    bit(vx, b) && bit(vy, b)
                } else {
                    bit(vx, b) != bit(vy, b)
                }
        }),
{
    lemma_decode_digits(op);
    lemma_arithmetic_frame(m, op);
    let x = op_x(op);
    let a = m.cpu.v[x];
    let c = m.cpu.v[op_y(op)];
    lemma_u8_bitwise(a, c);
    let after = execute(m, op);
    assert(after.cpu.v =~= m.cpu.v.update(x, after.cpu.v[x]));
}

/// 8XY4 adds VY to VX with VF the carry; 8XY5 subtracts VY from VX and 8XY7 VX from
/// VY, with VF 1 exactly when there is no borrow. With X other than F, only VX and
/// VF change.
#[verifier::rlimit(30)]
pub proof fn law_arithmetic_add_sub(m: Machine, op: u16)
    requires
        m.wf(),
        op_kind(op) == 0x8,
        op_n(op) == 0x4 || op_n(op) == 0x5 || op_n(op) == 0x7,
        op_x(op) != 15,
    ensures
        ({
            let x = op_x(op);
            let n = op_n(op);
            let vx = m.cpu.v[x] as int;
            let vy = m.cpu.v[op_y(op)] as int;
            let after = execute(m, op);
            let r = after.cpu.v[x] as int;
            let f = after.cpu.v[15] as int;
            &&& after == with_registers(m, m.cpu.v.update(15, f as u8).update(x, r as u8), 2)
            &&& n == 0x4 ==> f * 256 + r == vx + vy && (f == 0 || f == 1)
            &&& n == 0x5 ==> f == (if vx >= vy { 1int } else { 0int }) && r == vx - vy + 256 * (1
                - f)
            &&& n == 0x7 ==> f == (if vy >= vx { 1int } else { 0int }) && r == vy - vx + 256 * (1
                - f)
        }),
{
    lemma_decode_digits(op);
    lemma_arithmetic_frame(m, op);
    let x = op_x(op);
    let after = execute(m, op);
    assert(after.cpu.v =~= m.cpu.v.update(15, after.cpu.v[15]).update(x, after.cpu.v[x]));
}

/// 8XY6 halves VX, with VF the bit shifted out (VX modulo 2); 8XYE doubles VX
/// modulo 256, with VF the bit shifted out (VX / 128). With X other than F, only
/// VX and VF change.
#[verifier::rlimit(30)]
pub proof fn law_arithmetic_shift(m: Machine, op: u16)
    requires
        m.wf(),
        op_kind(op) == 0x8,
        op_n(op) == 0x6 || op_n(op) == 0xE,
        op_x(op) != 15,
    ensures
        ({
            let x = op_x(op);
            let vx = m.cpu.v[x] as int;
            let after = execute(m, op);
            let r = after.cpu.v[x] as int;
            let f = after.cpu.v[15] as int;
            &&& after == with_registers(m, m.cpu.v.update(15, f as u8).update(x, r as u8), 2)
            &&& op_n(op) == 0x6 ==> r == vx / 2 && f == vx % 2
            &&& op_n(op) == 0xE ==> r == (vx * 2) % 256 && f == vx / 128
        }),
{
    lemma_decode_digits(op);
    lemma_arithmetic_frame(m, op);
    let x = op_x(op);
    lemma_u8_shift_bits(m.cpu.v[x]);
    let after = execute(m, op);
    assert(after.cpu.v =~= m.cpu.v.update(15, after.cpu.v[15]).update(x, after.cpu.v[x]));
}

/// The other instructions of group 8 (N from 8 to D, and F) change no register;
/// the program counter still moves on by two.
pub proof fn law_arithmetic_unknown(m: Machine, op: u16)
    requires
        m.wf(),
        op_kind(op) == 0x8,
        8 <= op_n(op) <= 0xD || op_n(op) == 0xF,
    ensures
        execute(m, op) == with_registers(m, m.cpu.v, 2),
{
    lemma_decode_digits(op);
    lemma_arithmetic_frame(m, op);
}

/// ANNN sets I to NNN; FX1E adds VX to I modulo 65536, with VF 1 exactly when the
/// new I lies beyond 0xFFF; FX29 points I at the font glyph of VX, 0x50 + 5 * VX.
pub proof fn law_index_register(m: Machine, op: u16)
    requires
        m.wf(),
        op_kind(op) == 0xA || (op_kind(op) == 0xF && (op_nn(op) == 0x1E || op_nn(op) == 0x29)),
        m.cpu.pc + 2 <= 0xFFFF,
        op_kind(op) == 0xF && op_nn(op) == 0x29 ==> m.cpu.v[op_x(op)] * 5 <= 0xFF,
    ensures
        ({
            let after = execute(m, op);
            let vx = m.cpu.v[op_x(op)] as int;
            &&& op_kind(op) == 0xA ==> after.cpu.i == op_nnn(op)
            &&& op_kind(op) == 0xF && op_nn(op) == 0x1E ==> after.cpu.i == (m.cpu.i + vx)
                % 0x10000 && after.cpu.v == m.cpu.v.update(
                15,
                if after.cpu.i > 0xFFF { 1u8 } else { 0u8 },
            )
            &&& op_kind(op) == 0xF && op_nn(op) == 0x29 ==> after.cpu.i == 0x50 + 5 * vx
            &&& op_kind(op) != 0xF || op_nn(op) != 0x1E ==> after.cpu.v == m.cpu.v
            &&& after == (Machine {
                cpu: Registers {
                    i: after.cpu.i,
                    v: after.cpu.v,
                    pc: (m.cpu.pc + 2) as u16,
                    ..m.cpu
                },
                ..m
            })
        }),
{
    lemma_decode_digits(op);
}

/// FX07 copies the delay timer into VX; FX15 sets the delay timer and FX18 the
/// sound timer to VX, whatever its value. Nothing else changes but the program
/// counter, which moves on by two.
pub proof fn law_timer_registers(m: Machine, op: u16)
    requires
        m.wf(),
        op_kind(op) == 0xF,
        op_nn(op) == 0x07 || op_nn(op) == 0x15 || op_nn(op) == 0x18,
        m.cpu.pc + 2 <= 0xFFFF,
    ensures
        op_nn(op) == 0x07 ==> execute(m, op) == with_registers(
            m,
            m.cpu.v.update(op_x(op), m.delay_timer),
            2,
        ),
        op_nn(op) == 0x15 ==> execute(m, op) == (Machine {
            delay_timer: m.cpu.v[op_x(op)],
            ..moved_on(m, 2)
        }),
        op_nn(op) == 0x18 ==> execute(m, op) == (Machine {
            sound_timer: m.cpu.v[op_x(op)],
            ..moved_on(m, 2)
        }),
{
    lemma_decode_digits(op);
}

/// FX0A: when at least one key is held, VX receives the smallest index of a held
/// key and the program counter moves on by two; when none is held nothing changes.
pub proof fn law_wait_for_key_stores_first_key(m: Machine, op: u16)
    requires
        m.wf(),
        op_kind(op) == 0xF,
        op_nn(op) == 0x0A,
        m.cpu.pc + 2 <= 0xFFFF,
    ensures
        (forall|k: int| 0 <= k < 16 ==> !#[trigger] m.keys[k]) ==> execute(m, op) == m,
        (exists|k: int| 0 <= k < 16 && #[trigger] m.keys[k]) ==> {
            let key = execute(m, op).cpu.v[op_x(op)] as int;
            &&& 0 <= key < 16
            &&& m.keys[key]
            &&& forall|j: int| 0 <= j < key ==> !#[trigger] m.keys[j]
            &&& execute(m, op) == with_registers(m, m.cpu.v.update(op_x(op), key as u8), 2)
        },
{
    lemma_decode_digits(op);
    if exists|k: int| 0 <= k < 16 && #[trigger] m.keys[k] {
        let c = choose|c: int| 0 <= c < 16 && m.keys[c] && forall|j: int| 0 <= j < c ==> !m.keys[j];
        let k0 = choose|k: int| 0 <= k < 16 && #[trigger] m.keys[k];
        lemma_first_held(m.keys, k0);
        assert(first_key(m.keys) == Some(c));
    } else {
        assert(first_key(m.keys) is None);
    }
}

/// Some key is held, so some held key has no held key before it.
proof fn lemma_first_held(keys: Seq<bool>, k: int)
    requires
        0 <= k < 16,
        keys[k],
    ensures
        exists|c: int| 0 <= c < 16 && keys[c] && forall|j: int| 0 <= j < c ==> !keys[j],
    decreases k,
{
    if exists|j: int| 0 <= j < k && keys[j] {
        let j = choose|j: int| 0 <= j < k && keys[j];
        lemma_first_held(keys, j);
    } else {
        assert(0 <= k < 16 && keys[k] && forall|j: int| 0 <= j < k ==> !keys[j]);
    }
}

/// EX9E moves the program counter on by four when the key VX is held and by two
/// otherwise; EXA1 the other way round. Nothing else changes.
pub proof fn law_key_skips(m: Machine, op: u16)
    requires
        m.wf(),
        op_kind(op) == 0xE,
        op_nn(op) == 0x9E || op_nn(op) == 0xA1,
        m.cpu.v[op_x(op)] < 16,
        m.cpu.pc + 4 <= 0xFFFF,
    ensures
        ({
            let held = m.keys[m.cpu.v[op_x(op)] as int];
            let skip = if op_nn(op) == 0x9E { held } else { !held };
            execute(m, op) == moved_on(m, if skip { 4 } else { 2 })
        }),
{
    lemma_decode_digits(op);
}

/// FX55 stores V0..=VX at I..=I+X and leaves every other byte of memory alone;
/// FX65 loads V0..=VX from I..=I+X and leaves the other registers alone.
#[verifier::rlimit(30)]
pub proof fn law_register_block(m: Machine, op: u16)
    requires
        m.wf(),
        op_kind(op) == 0xF,
        op_nn(op) == 0x55 || op_nn(op) == 0x65,
        m.cpu.i + op_x(op) + 1 <= 0x1000,
        m.cpu.pc + 2 <= 0xFFFF,
    ensures
        ({
            let x = op_x(op);
            let i = m.cpu.i as int;
            let after = execute(m, op);
            &&& op_nn(op) == 0x55 ==> {
                &&& after == (Machine { memory: after.memory, ..moved_on(m, 2) })
                &&& after.memory.len() == m.memory.len()
                &&& forall|a: int|
                    0 <= a < m.memory.len() ==> #[trigger] after.memory[a] == if i <= a <= i + x {
                        m.cpu.v[a - i]
                    } else {
                        m.memory[a]
                    }
            }
            &&& op_nn(op) == 0x65 ==> {
                &&& after == with_registers(m, after.cpu.v, 2)
                &&& after.cpu.v.len() == 16
                &&& forall|r: int|
                    0 <= r < 16 ==> #[trigger] after.cpu.v[r] == if r <= x {
                        m.memory[i + r]
                    } else {
                        m.cpu.v[r]
                    }
            }
        }),
{
    lemma_decode_digits(op);
}

/// The pixel at column `x`, row `y`, both wrapped around the screen.
pub open spec fn pixel_at(pixels: Seq<Seq<bool>>, x: int, y: int) -> bool {
    pixels[y % 32][x % 64]
}

/// Bit `7 - c` of row `r` of the sprite at `i`: the sprite's pixel in column `c`.
pub open spec fn sprite_pixel(memory: Seq<u8>, i: int, r: int, c: int) -> bool {
    bit(memory[i + r] as int, 7 - c)
}

/// Sprite pixel (`c`, `r`) placed at (`vx`, `vy`) lands on screen pixel (`sx`, `sy`).
pub open spec fn lands_on(vx: int, vy: int, r: int, c: int, sx: int, sy: int) -> bool {
    sy == (vy + r) % 32 && sx == (vx + c) % 64
}

/// Whether some set sprite bit lands on a pixel that is on.
pub open spec fn sprite_meets_lit_pixel(
    pixels: Seq<Seq<bool>>,
    memory: Seq<u8>,
    i: int,
    vx: int,
    vy: int,
    n: int,
) -> bool {
    exists|r: int, c: int|
        #![trigger sprite_pixel(memory, i, r, c)]
        0 <= r < n && 0 <= c < 8 && pixel_at(pixels, vx + c, vy + r) && sprite_pixel(
            memory,
            i,
            r,
            c,
        )
}

/// The pixel each sprite bit lands on ends up flipped exactly when the bit is set.
#[verifier::rlimit(30)]
proof fn lemma_draw_flips(pixels: Seq<Seq<bool>>, memory: Seq<u8>, i: u16, vx: u8, vy: u8, n: u8)
    requires
        n < 16,
    ensures
        forall|r: int, c: int|
            #![trigger sprite_pixel(memory, i as int, r, c)]
            0 <= r < n && 0 <= c < 8 ==> pixel_at(
                xor_sprite(pixels, memory, i, vx, vy, n, n * 8),
                vx + c,
                vy + r,
            ) == (pixel_at(pixels, vx + c, vy + r) != sprite_pixel(memory, i as int, r, c)),
{
    assert forall|r: int, c: int|
        #![trigger sprite_pixel(memory, i as int, r, c)]
        0 <= r < n && 0 <= c < 8 implies pixel_at(
        xor_sprite(pixels, memory, i, vx, vy, n, n * 8),
        vx + c,
        vy + r,
    ) == (pixel_at(pixels, vx + c, vy + r) != sprite_pixel(memory, i as int, r, c)) by {
        let ty = (vy + r) % 32;
        let tx = (vx + c) % 64;
        assert((ty - vy) % 32 == r);
        assert((tx - vx) % 64 == c);
        lemma_sprite_bit_weight(memory[i + r], c);
        assert(sprite_hit(memory, i, vx, vy, n, n * 8, ty, tx) == sprite_bit(memory[i + r], c));
    }
}

/// A pixel that changes is one that a set sprite bit lands on.
#[verifier::rlimit(30)]
proof fn lemma_draw_changes_only_sprite(
    pixels: Seq<Seq<bool>>,
    memory: Seq<u8>,
    i: u16,
    vx: u8,
    vy: u8,
    n: u8,
)
    requires
        n < 16,
    ensures
        forall|sy: int, sx: int|
            0 <= sy < 32 && 0 <= sx < 64 && #[trigger] xor_sprite(
                pixels,
                memory,
                i,
                vx,
                vy,
                n,
                n * 8,
            )[sy][sx] != pixels[sy][sx] ==> exists|r: int, c: int|
                0 <= r < n && 0 <= c < 8 && #[trigger] lands_on(vx as int, vy as int, r, c, sx, sy)
                    && sprite_pixel(memory, i as int, r, c),
{
    let after = xor_sprite(pixels, memory, i, vx, vy, n, n * 8);
    assert forall|sy: int, sx: int|
        0 <= sy < 32 && 0 <= sx < 64 && #[trigger] after[sy][sx] != pixels[sy][sx] implies exists|
        r: int,
        c: int,
    |
        0 <= r < n && 0 <= c < 8 && #[trigger] lands_on(vx as int, vy as int, r, c, sx, sy)
            && sprite_pixel(memory, i as int, r, c) by {
        let r = (sy - vy) % 32;
        let c = (sx - vx) % 64;
        assert(sprite_hit(memory, i, vx, vy, n, n * 8, sy, sx));
        lemma_sprite_bit_weight(memory[i + r], c);
        assert(lands_on(vx as int, vy as int, r, c, sx, sy));
    }
}

/// A collision found on the screen is one found in the sprite.
#[verifier::rlimit(30)]
proof fn lemma_collision_in_sprite(
    pixels: Seq<Seq<bool>>,
    memory: Seq<u8>,
    i: u16,
    vx: u8,
    vy: u8,
    n: u8,
)
    requires
        n < 16,
        crate::machine::sprite_collides(pixels, memory, i, vx, vy, n, n * 8),
    ensures
        sprite_meets_lit_pixel(pixels, memory, i as int, vx as int, vy as int, n as int),
{
    let limit = n * 8;
    let (sy, sx) = choose|sy: int, sx: int|
        0 <= sy < 32 && 0 <= sx < 64 && pixels[sy][sx] && #[trigger] sprite_hit(
            memory,
            i,
            vx,
            vy,
            n,
            limit,
            sy,
            sx,
        );
    let r = (sy - vy) % 32;
    let c = (sx - vx) % 64;
    lemma_sprite_bit_weight(memory[i + r], c);
    assert(sy == (vy + r) % 32 && sx == (vx + c) % 64);
    assert(pixel_at(pixels, vx + c, vy + r) && sprite_pixel(memory, i as int, r, c));
}

/// A collision found in the sprite is one found on the screen.
#[verifier::rlimit(30)]
proof fn lemma_collision_on_screen(
    pixels: Seq<Seq<bool>>,
    memory: Seq<u8>,
    i: u16,
    vx: u8,
    vy: u8,
    n: u8,
)
    requires
        n < 16,
        sprite_meets_lit_pixel(pixels, memory, i as int, vx as int, vy as int, n as int),
    ensures
        crate::machine::sprite_collides(pixels, memory, i, vx, vy, n, n * 8),
{
    let limit = n * 8;
    let (r, c) = choose|r: int, c: int|
        #![trigger sprite_pixel(memory, i as int, r, c)]
        0 <= r < n && 0 <= c < 8 && pixel_at(pixels, vx + c, vy + r) && sprite_pixel(
            memory,
            i as int,
            r,
            c,
        );
    let ty = (vy + r) % 32;
    let tx = (vx + c) % 64;
    assert((ty - vy) % 32 == r);
    assert((tx - vx) % 64 == c);
    lemma_sprite_bit_weight(memory[i + r], c);
    assert(sprite_hit(memory, i, vx, vy, n, limit, ty, tx));
}

/// The collision flag of the model is the collision of a set sprite bit with a lit pixel.
proof fn lemma_draw_collision(pixels: Seq<Seq<bool>>, memory: Seq<u8>, i: u16, vx: u8, vy: u8, n: u8)
    requires
        n < 16,
    ensures
        crate::machine::sprite_collides(pixels, memory, i, vx, vy, n, n * 8)
            == sprite_meets_lit_pixel(pixels, memory, i as int, vx as int, vy as int, n as int),
{
    if crate::machine::sprite_collides(pixels, memory, i, vx, vy, n, n * 8) {
        lemma_collision_in_sprite(pixels, memory, i, vx, vy, n);
    }
    if sprite_meets_lit_pixel(pixels, memory, i as int, vx as int, vy as int, n as int) {
        lemma_collision_on_screen(pixels, memory, i, vx, vy, n);
    }
}

/// DXYN XORs the N-row sprite at I onto the screen at (VX, VY), wrapping around the
/// edges: the pixel that column `c` of row `r` lands on is flipped exactly when bit
/// `7 - c` of the row's byte is set, for every row below N and all eight columns;
/// a pixel that no set sprite bit lands on keeps its value; VF is 1 exactly when a
/// set sprite bit landed on a pixel that was on, 0 otherwise. The program counter
/// moves on by two, the screen is marked for redrawing, and nothing else changes.
#[verifier::rlimit(30)]
pub proof fn law_draw(m: Machine, op: u16)
    requires
        m.wf(),
        op_kind(op) == 0xD,
        m.cpu.pc + 2 <= 0xFFFF,
    ensures
        ({
            let n = op_n(op);
            let vx = m.cpu.v[op_x(op)] as int;
            let vy = m.cpu.v[op_y(op)] as int;
            let i = m.cpu.i as int;
            let after = execute(m, op);
            &&& forall|r: int, c: int|
                #![trigger sprite_pixel(m.memory, i, r, c)]
                0 <= r < n && 0 <= c < 8 ==> pixel_at(after.pixels, vx + c, vy + r) == (pixel_at(
                    m.pixels,
                    vx + c,
                    vy + r,
                ) != sprite_pixel(m.memory, i, r, c))
            &&& forall|sy: int, sx: int|
                0 <= sy < 32 && 0 <= sx < 64 && #[trigger] after.pixels[sy][sx] != m.pixels[sy][sx]
                    ==> exists|r: int, c: int|
                    0 <= r < n && 0 <= c < 8 && #[trigger] lands_on(vx, vy, r, c, sx, sy)
                        && sprite_pixel(m.memory, i, r, c)
            &&& after.cpu.v[15] == if sprite_meets_lit_pixel(m.pixels, m.memory, i, vx, vy, n) {
                1u8
            } else {
                0u8
            }
            &&& after == (Machine {
                pixels: after.pixels,
                draw_flag: true,
                ..with_registers(m, m.cpu.v.update(15, after.cpu.v[15]), 2)
            })
        }),
{
    lemma_decode_digits(op);
    let vxu = m.cpu.v[op_x(op)];
    let vyu = m.cpu.v[op_y(op)];
    let nu = op_n(op) as u8;
    assert(execute(m, op) == draw(m, vxu, vyu, nu).advance());
    lemma_draw_flips(m.pixels, m.memory, m.cpu.i, vxu, vyu, nu);
    lemma_draw_changes_only_sprite(m.pixels, m.memory, m.cpu.i, vxu, vyu, nu);
    lemma_draw_collision(m.pixels, m.memory, m.cpu.i, vxu, vyu, nu);
    let after = execute(m, op);
    assert(after.cpu.v =~= m.cpu.v.update(15, after.cpu.v[15]));
}

/// 00E0 switches every pixel off and moves on; nothing else changes.
pub proof fn law_clear_screen_frame(m: Machine, op: u16)
    requires
        m.wf(),
        op_kind(op) == 0x0,
        op_nn(op) == 0xE0,
        m.cpu.pc + 2 <= 0xFFFF,
    ensures
        execute(m, op) == (Machine { pixels: execute(m, op).pixels, ..moved_on(m, 2) }),
        execute(m, op).pixels.len() == 32,
        forall|y: int|
            0 <= y < 32 ==> (#[trigger] execute(m, op).pixels[y]).len() == 64 && forall|x: int|
                0 <= x < 64 ==> !#[trigger] execute(m, op).pixels[y][x],
{
    lemma_decode_digits(op);
}

/// FX33 writes the hundreds, tens and units of VX at I, I+1 and I+2, changes no
/// other byte, and moves on.
pub proof fn law_decimal_digits(m: Machine, op: u16)
    requires
        m.wf(),
        op_kind(op) == 0xF,
        op_nn(op) == 0x33,
        m.cpu.i + 3 <= 0x1000,
        m.cpu.pc + 2 <= 0xFFFF,
    ensures
        ({
            let after = execute(m, op);
            let i = m.cpu.i as int;
            let vx = m.cpu.v[op_x(op)] as int;
            &&& after == (Machine { memory: after.memory, ..moved_on(m, 2) })
            &&& after.memory.len() == m.memory.len()
            &&& after.memory[i] == vx / 100
            &&& after.memory[i + 1] == (vx / 10) % 10
            &&& after.memory[i + 2] == vx % 10
            &&& forall|a: int|
                0 <= a < m.memory.len() && !(i <= a < i + 3) ==> #[trigger] after.memory[a]
                    == m.memory[a]
        }),
{
    lemma_decode_digits(op);
}

/// Writing a block of bytes and reading any address back gives the written byte
/// inside the block and the old byte outside it; the memory keeps its size.
pub proof fn law_write_then_read(memory: Seq<u8>, start: int, bytes: Seq<u8>, a: int)
    requires
        0 <= a < memory.len(),
    ensures
        write_bytes(memory, start, bytes).len() == memory.len(),
        write_bytes(memory, start, bytes)[a] == if start <= a < start + bytes.len() {
            bytes[a - start]
        } else {
            memory[a]
        },
{
}

/// The instructions the emulator knows, by their hexadecimal digits: 00E0 and 00EE;
/// every instruction of the groups 1 to 7, 9, A, B and D; 8XY0 to 8XY7 and 8XYE;
/// EX9E and EXA1; FX07, FX0A, FX15, FX18, FX1E, FX29, FX33, FX55 and FX65. Group C
/// and everything else are unknown.
#[verifier::rlimit(30)]
pub proof fn law_known_instructions(op: u16)
    ensures
        supported(op) <==> {
            let k = op_kind(op);
            let nn = op_nn(op);
            let n = op_n(op);
            ||| k == 0x0 && (nn == 0xE0 || nn == 0xEE)
            ||| (0x1 <= k <= 0x7 || k == 0x9 || k == 0xA || k == 0xB || k == 0xD)
            ||| k == 0x8 && (n <= 0x7 || n == 0xE)
            ||| k == 0xE && (nn == 0x9E || nn == 0xA1)
            ||| k == 0xF && (nn == 0x07 || nn == 0x0A || nn == 0x15 || nn == 0x18 || nn == 0x1E
                || nn == 0x29 || nn == 0x33 || nn == 0x55 || nn == 0x65)
        },
{
    lemma_decode_digits(op);
}

/// An instruction the emulator does not know leaves the machine exactly as it was,
/// except in group 8, where the program counter still moves on by two.
#[verifier::rlimit(30)]
pub proof fn law_unknown_instructions(m: Machine, op: u16)
    requires
        m.wf(),
        !supported(op),
        m.cpu.pc + 2 <= 0xFFFF,
    ensures
        op_kind(op) != 0x8 ==> execute(m, op) == m,
        op_kind(op) == 0x8 ==> execute(m, op) == moved_on(m, 2),
{
    lemma_decode_digits(op);
    lemma_group_cases(op);
}

/// When an instruction can run: exactly when none of its memory, stack or key
/// accesses falls outside the machine and none of its sums overflows.
#[verifier::rlimit(30)]
pub proof fn law_executable_conditions(m: Machine, op: u16)
    requires
        m.wf(),
    ensures
        executable(m, op) <==> {
            let k = op_kind(op);
            let nn = op_nn(op);
            let x = op_x(op);
            let vx = m.cpu.v[x] as int;
            let vy = m.cpu.v[op_y(op)] as int;
            let pc = m.cpu.pc as int;
            let i = m.cpu.i as int;
            let sp = m.cpu.sp as int;
            if k == 0x0 {
                &&& (nn == 0xE0 ==> pc + 2 <= 0xFFFF)
                &&& (nn == 0xEE ==> 1 <= sp <= 16 && m.cpu.stack[sp - 1] + 2 <= 0xFFFF)
            } else if k == 0x2 {
                sp < 16
            } else if k == 0x3 {
                pc + (if vx == nn { 4int } else { 2int }) <= 0xFFFF
            } else if k == 0x4 {
                pc + (if vx != nn { 4int } else { 2int }) <= 0xFFFF
            } else if k == 0x5 {
                pc + (if vx == vy { 4int } else { 2int }) <= 0xFFFF
            } else if k == 0x9 {
                pc + (if vx != vy { 4int } else { 2int }) <= 0xFFFF
            } else if k == 0x6 || k == 0x7 || k == 0x8 || k == 0xA {
                pc + 2 <= 0xFFFF
            } else if k == 0xD {
                (op_n(op) == 0 || i + op_n(op) <= 0x1000) && pc + 2 <= 0xFFFF
            } else if k == 0xE && (nn == 0x9E || nn == 0xA1) {
                vx < 16 && pc + (if m.keys[vx] == (nn == 0x9E) { 4int } else { 2int }) <= 0xFFFF
            } else if k == 0xF {
                if nn == 0x29 {
                    vx * 5 <= 0xFF && pc + 2 <= 0xFFFF
                } else if nn == 0x33 {
                    i + 3 <= 0x1000 && pc + 2 <= 0xFFFF
                } else if nn == 0x55 || nn == 0x65 {
                    i + x + 1 <= 0x1000 && pc + 2 <= 0xFFFF
                } else if nn == 0x0A {
                    (forall|j: int| 0 <= j < 16 ==> !#[trigger] m.keys[j]) || pc + 2 <= 0xFFFF
                } else if nn == 0x1E || nn == 0x07 || nn == 0x15 || nn == 0x18 {
                    pc + 2 <= 0xFFFF
                } else {
                    true
                }
            } else {
                true
            }
        },
{
    lemma_decode_digits(op);
    if op_kind(op) == 0xF && op_nn(op) == 0x0A {
        if exists|j: int| 0 <= j < 16 && #[trigger] m.keys[j] {
            let j = choose|j: int| 0 <= j < 16 && #[trigger] m.keys[j];
            lemma_first_held(m.keys, j);
            assert(first_key(m.keys) is Some);
        } else {
            assert(first_key(m.keys) is None);
        }
    }
}

/// A new machine: every register, stack slot, byte of memory, timer and key zero
/// or up, every pixel off, the program counter at 0x200 and nothing to redraw.
pub proof fn law_initial_state()
    ensures
        ({
            let m = initial();
            &&& m.wf()
            &&& m.cpu.pc == 0x200 && m.cpu.i == 0 && m.cpu.sp == 0
            &&& forall|r: int| 0 <= r < 16 ==> #[trigger] m.cpu.v[r] == 0 && m.cpu.stack[r] == 0
            &&& forall|a: int| 0 <= a < 0x1000 ==> #[trigger] m.memory[a] == 0
            &&& forall|y: int, x: int| 0 <= y < 32 && 0 <= x < 64 ==> !#[trigger] m.pixels[y][x]
            &&& forall|k: int| 0 <= k < 16 ==> !#[trigger] m.keys[k]
            &&& m.delay_timer == 0 && m.sound_timer == 0 && !m.draw_flag
        }),
{
}

/// A cycle can run exactly when both bytes of the next instruction lie in memory
/// and that instruction can run.
pub proof fn law_can_cycle_conditions(m: Machine)
    ensures
        can_cycle(m) <==> m.cpu.pc + 1 < 0x1000 && executable(m, fetch(m)),
{
}

} // verus!
