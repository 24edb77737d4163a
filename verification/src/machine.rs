//! The mathematical model of a CHIP-8 machine and of what each instruction
//! does to it. The executable emulator is specified against this model.
use vstd::prelude::*;

verus! {

/// Number of bytes of RAM.
pub const MEMORY_SIZE: usize = 4096;

/// Width of the screen in pixels.
pub const SCREEN_WIDTH: usize = 64;

/// Height of the screen in pixels.
pub const SCREEN_HEIGHT: usize = 32;

/// Address at which the built-in hexadecimal font is stored.
pub const FONT_START: usize = 0x50;

/// Number of bytes of the built-in font (sixteen glyphs of five rows).
pub const FONT_SIZE: usize = 80;

/// Address at which programs are loaded and where execution starts.
pub const PROGRAM_START: usize = 0x200;

/// The registers of the processor.
pub struct Registers {
    /// The sixteen general purpose registers V0..VF.
    pub v: Seq<u8>,
    /// The index register I.
    pub i: u16,
    /// The program counter.
    pub pc: u16,
    /// The sixteen slots of the return stack.
    pub stack: Seq<u16>,
    /// The stack pointer: the number of slots in use.
    pub sp: u8,
}

impl Registers {
    pub open spec fn wf(self) -> bool {
        &&& self.v.len() == 16
        &&& self.stack.len() == 16
    }
}

/// The whole observable state of the machine.
pub struct Machine {
    pub cpu: Registers,
    /// The 4096 bytes of RAM.
    pub memory: Seq<u8>,
    /// The screen, row by row: 32 rows of 64 pixels.
    pub pixels: Seq<Seq<bool>>,
    /// Which of the sixteen keys are held down.
    pub keys: Seq<bool>,
    pub delay_timer: u8,
    pub sound_timer: u8,
    /// Set when the screen has changed and should be redrawn.
    pub draw_flag: bool,
}

/// A screen is 32 rows of 64 pixels.
pub open spec fn screen_wf(pixels: Seq<Seq<bool>>) -> bool {
    &&& pixels.len() == SCREEN_HEIGHT
    &&& forall|y: int| 0 <= y < SCREEN_HEIGHT ==> (#[trigger] pixels[y]).len() == SCREEN_WIDTH
}

/// A screen with every pixel off.
pub open spec fn blank_screen() -> Seq<Seq<bool>> {
    Seq::new(SCREEN_HEIGHT as nat, |_y: int| Seq::new(SCREEN_WIDTH as nat, |_x: int| false))
}

impl Machine {
    pub open spec fn wf(self) -> bool {
        &&& self.cpu.wf()
        &&& self.memory.len() == MEMORY_SIZE
        &&& screen_wf(self.pixels)
        &&& self.keys.len() == 16
    }

    pub open spec fn with_pc(self, pc: u16) -> Machine {
        Machine { cpu: Registers { pc: pc, ..self.cpu }, ..self }
    }

    pub open spec fn with_i(self, i: u16) -> Machine {
        Machine { cpu: Registers { i: i, ..self.cpu }, ..self }
    }

    /// Register `x` set to `value`.
    pub open spec fn with_reg(self, x: int, value: u8) -> Machine {
        Machine { cpu: Registers { v: self.cpu.v.update(x, value), ..self.cpu }, ..self }
    }

    /// The program counter moved on to the next instruction.
    pub open spec fn advance(self) -> Machine {
        self.with_pc((self.cpu.pc + 2) as u16)
    }

    /// The program counter moved past the next instruction when `cond` holds,
    /// to it otherwise.
    pub open spec fn skip_if(self, cond: bool) -> Machine {
        self.with_pc((self.cpu.pc + if cond { 4int } else { 2int }) as u16)
    }
}

/// The built-in font: the glyphs of the hexadecimal digits 0 to F, five bytes each.
pub open spec fn font() -> Seq<u8> {
    seq![
        0xF0u8, 0x90, 0x90, 0x90, 0xF0, 0x20, 0x60, 0x20, 0x20, 0x70, 0xF0, 0x10, 0xF0, 0x80,
        0xF0, 0xF0, 0x10, 0xF0, 0x10, 0xF0, 0x90, 0x90, 0xF0, 0x10, 0x10, 0xF0, 0x80, 0xF0,
        0x10, 0xF0, 0xF0, 0x80, 0xF0, 0x90, 0xF0, 0xF0, 0x10, 0x20, 0x40, 0x40, 0xF0, 0x90,
        0xF0, 0x90, 0xF0, 0xF0, 0x90, 0xF0, 0x10, 0xF0, 0xF0, 0x90, 0xF0, 0x90, 0x90, 0xE0,
        0x90, 0xE0, 0x90, 0xE0, 0xF0, 0x80, 0x80, 0x80, 0xF0, 0xE0, 0x90, 0x90, 0x90, 0xE0,
        0xF0, 0x80, 0xF0, 0x80, 0xF0, 0xF0, 0x80, 0xF0, 0x80, 0x80,
    ]
}

/// `memory` with `bytes` written from address `start` on.
pub open spec fn write_bytes(memory: Seq<u8>, start: int, bytes: Seq<u8>) -> Seq<u8> {
    Seq::new(
        memory.len(),
        |a: int|
            if start <= a < start + bytes.len() {
                bytes[a - start]
            } else {
                memory[a]
            },
    )
}

// ----------------------------------------------------------------------------
// Decoding an instruction
// ----------------------------------------------------------------------------
/// The instruction group: the top nibble, kept in place.
pub open spec fn group(op: u16) -> u16 {
    op & 0xF000u16
}

/// The group of an instruction is one of the sixteen multiples of 0x1000.
pub proof fn lemma_group_cases(op: u16)
    ensures
        group(op) == 0x0000 || group(op) == 0x1000 || group(op) == 0x2000 || group(op) == 0x3000
            || group(op) == 0x4000 || group(op) == 0x5000 || group(op) == 0x6000 || group(op)
            == 0x7000 || group(op) == 0x8000 || group(op) == 0x9000 || group(op) == 0xA000
            || group(op) == 0xB000 || group(op) == 0xC000 || group(op) == 0xD000 || group(op)
            == 0xE000 || group(op) == 0xF000,
{
    assert((op & 0xF000u16) == 0x0000u16 || (op & 0xF000u16) == 0x1000u16 || (op & 0xF000u16) == 0x2000u16
        || (op & 0xF000u16) == 0x3000u16 || (op & 0xF000u16) == 0x4000u16 || (op & 0xF000u16) == 0x5000u16
        || (op & 0xF000u16) == 0x6000u16 || (op & 0xF000u16) == 0x7000u16 || (op & 0xF000u16) == 0x8000u16
        || (op & 0xF000u16) == 0x9000u16 || (op & 0xF000u16) == 0xA000u16 || (op & 0xF000u16) == 0xB000u16
        || (op & 0xF000u16) == 0xC000u16 || (op & 0xF000u16) == 0xD000u16 || (op & 0xF000u16) == 0xE000u16
        || (op & 0xF000u16) == 0xF000u16) by (bit_vector);
}

/// The registers an instruction names are among the sixteen.
pub proof fn lemma_decode_bounds(op: u16)
    ensures
        0 <= reg_x(op) < 16,
        0 <= reg_y(op) < 16,
        nibble(op) < 16,
        address(op) <= 0xFFF,
{
    assert(((op >> 8u16) & 0xFu16) < 16u16) by (bit_vector);
    assert(((op >> 4u16) & 0xFu16) < 16u16) by (bit_vector);
    assert((op & 0xFu16) < 16u16) by (bit_vector);
    assert((op & 0xFFFu16) <= 0xFFFu16) by (bit_vector);
}

/// The register named by the second nibble.
pub open spec fn reg_x(op: u16) -> int {
    ((op >> 8u16) & 0xFu16) as int
}

/// The register named by the third nibble.
pub open spec fn reg_y(op: u16) -> int {
    ((op >> 4u16) & 0xFu16) as int
}

/// The low nibble.
pub open spec fn nibble(op: u16) -> u16 {
    op & 0xFu16
}

/// The low byte, as it stands in the instruction.
pub open spec fn low_byte(op: u16) -> u16 {
    op & 0xFFu16
}

/// The low byte as a value.
pub open spec fn imm(op: u16) -> u8 {
    (op & 0xFFu16) as u8
}

/// The low twelve bits: an address.
pub open spec fn address(op: u16) -> u16 {
    op & 0xFFFu16
}

// ----------------------------------------------------------------------------
// Drawing
// ----------------------------------------------------------------------------
/// Whether bit `col` of a sprite row is set, counting from the most significant bit.
pub open spec fn sprite_bit(byte: u8, col: int) -> bool {
    ((byte >> ((7 - col) as u8)) & 1u8) != 0u8
}

/// Whether the sprite of `n` rows at address `i`, drawn with its top left corner
/// at (`vx`, `vy`) and wrapping around the screen's edges, has a set bit on the
/// screen pixel (`sx`, `sy`) among its first `limit` bits (in row-major order).
pub open spec fn sprite_hit(
    memory: Seq<u8>,
    i: u16,
    vx: u8,
    vy: u8,
    n: u8,
    limit: int,
    sy: int,
    sx: int,
) -> bool {
    let row = (sy - vy) % (SCREEN_HEIGHT as int);
    let col = (sx - vx) % (SCREEN_WIDTH as int);
    &&& row < n
    &&& col < 8
    &&& row * 8 + col < limit
    &&& sprite_bit(memory[i + row], col)
}

/// The screen after the first `limit` sprite bits were XORed onto it.
pub open spec fn xor_sprite(
    pixels: Seq<Seq<bool>>,
    memory: Seq<u8>,
    i: u16,
    vx: u8,
    vy: u8,
    n: u8,
    limit: int,
) -> Seq<Seq<bool>> {
    Seq::new(
        SCREEN_HEIGHT as nat,
        |sy: int|
            Seq::new(
                SCREEN_WIDTH as nat,
                |sx: int| pixels[sy][sx] != sprite_hit(memory, i, vx, vy, n, limit, sy, sx),
            ),
    )
}

/// Whether one of the first `limit` sprite bits lands on a pixel that is on.
pub open spec fn sprite_collides(
    pixels: Seq<Seq<bool>>,
    memory: Seq<u8>,
    i: u16,
    vx: u8,
    vy: u8,
    n: u8,
    limit: int,
) -> bool {
    exists|sy: int, sx: int|
        0 <= sy < SCREEN_HEIGHT && 0 <= sx < SCREEN_WIDTH && pixels[sy][sx]
            && #[trigger] sprite_hit(memory, i, vx, vy, n, limit, sy, sx)
}

/// DXYN without the program counter: the sprite of `n` rows at I is XORed onto the
/// screen at (`vx`, `vy`), VF tells whether a pixel was switched off, and the
/// screen is marked for redrawing.
pub open spec fn draw(m: Machine, vx: u8, vy: u8, n: u8) -> Machine {
    let limit = n * 8;
    let hit = sprite_collides(m.pixels, m.memory, m.cpu.i, vx, vy, n, limit);
    Machine {
        pixels: xor_sprite(m.pixels, m.memory, m.cpu.i, vx, vy, n, limit),
        draw_flag: true,
        ..m.with_reg(15, if hit { 1u8 } else { 0u8 })
    }
}

// ----------------------------------------------------------------------------
// Executing an instruction
// ----------------------------------------------------------------------------
/// The arithmetic and logic group 8XYN, without the program counter.
pub open spec fn alu(m: Machine, x: int, y: int, k: u16) -> Machine {
    let vx = m.cpu.v[x];
    let vy = m.cpu.v[y];
    if k == 0x0 {
        m.with_reg(x, vy)
    } else if k == 0x1 {
        m.with_reg(x, vx | vy)
    } else if k == 0x2 {
        m.with_reg(x, vx & vy)
    } else if k == 0x3 {
        m.with_reg(x, vx ^ vy)
    } else if k == 0x4 {
        m.with_reg(15, if vx + vy > 0xFF { 1u8 } else { 0u8 }).with_reg(x, ((vx + vy) % 256) as u8)
    } else if k == 0x5 {
        m.with_reg(15, if vx >= vy { 1u8 } else { 0u8 }).with_reg(x, ((vx - vy) % 256) as u8)
    } else if k == 0x6 {
        m.with_reg(15, vx & 1u8).with_reg(x, vx >> 1u8)
    } else if k == 0x7 {
        m.with_reg(15, if vy >= vx { 1u8 } else { 0u8 }).with_reg(x, ((vy - vx) % 256) as u8)
    } else if k == 0xE {
        m.with_reg(15, (vx & 0x80u8) >> 7u8).with_reg(x, vx << 1u8)
    } else {
        m
    }
}

/// The index of the first key held down, if any.
pub open spec fn first_key(keys: Seq<bool>) -> Option<int> {
    if exists|k: int| 0 <= k < 16 && keys[k] {
        Some(choose|k: int| 0 <= k < 16 && keys[k] && forall|j: int| 0 <= j < k ==> !keys[j])
    } else {
        None
    }
}

/// The group FXNN.
pub open spec fn misc(m: Machine, x: int, lo: u16) -> Machine {
    let vx = m.cpu.v[x];
    let i = m.cpu.i;
    if lo == 0x1E {
        let i2 = ((i + vx) % 0x10000) as u16;
        m.with_i(i2).with_reg(15, if i2 > 0xFFF { 1u8 } else { 0u8 }).advance()
    } else if lo == 0x29 {
        m.with_i((FONT_START + vx * 5) as u16).advance()
    } else if lo == 0x33 {
        Machine {
            memory: write_bytes(m.memory, i as int, seq![vx / 100, (vx / 10) % 10, vx % 10]),
            ..m
        }.advance()
    } else if lo == 0x55 {
        Machine { memory: write_bytes(m.memory, i as int, m.cpu.v.take(x + 1)), ..m }.advance()
    } else if lo == 0x65 {
        Machine {
            cpu: Registers {
                v: Seq::new(16, |r: int| if r <= x { m.memory[i + r] } else { m.cpu.v[r] }),
                ..m.cpu
            },
            ..m
        }.advance()
    } else if lo == 0x07 {
        m.with_reg(x, m.delay_timer).advance()
    } else if lo == 0x15 {
        Machine { delay_timer: vx, ..m }.advance()
    } else if lo == 0x18 {
        Machine { sound_timer: vx, ..m }.advance()
    } else if lo == 0x0A {
        match first_key(m.keys) {
            Some(k) => m.with_reg(x, k as u8).advance(),
            None => m,
        }
    } else {
        m
    }
}

/// What executing instruction `op` does to the machine.
pub open spec fn execute(m: Machine, op: u16) -> Machine {
    let x = reg_x(op);
    let y = reg_y(op);
    let vx = m.cpu.v[x];
    let vy = m.cpu.v[y];
    let g = group(op);
    if g == 0x0000 {
        if low_byte(op) == 0x00E0 {
            Machine { pixels: blank_screen(), ..m }.advance()
        } else if low_byte(op) == 0x00EE {
            let sp = (m.cpu.sp - 1) as u8;
            Machine {
                cpu: Registers { sp: sp, pc: (m.cpu.stack[sp as int] + 2) as u16, ..m.cpu },
                ..m
            }
        } else {
            m
        }
    } else if g == 0x1000 {
        m.with_pc(address(op))
    } else if g == 0x2000 {
        Machine {
            cpu: Registers {
                stack: m.cpu.stack.update(m.cpu.sp as int, m.cpu.pc),
                sp: (m.cpu.sp + 1) as u8,
                pc: address(op),
                ..m.cpu
            },
            ..m
        }
    } else if g == 0x3000 {
        m.skip_if(vx == imm(op))
    } else if g == 0x4000 {
        m.skip_if(vx != imm(op))
    } else if g == 0x5000 {
        m.skip_if(vx == vy)
    } else if g == 0x6000 {
        m.with_reg(x, imm(op)).advance()
    } else if g == 0x7000 {
        m.with_reg(x, ((vx + imm(op)) % 256) as u8).advance()
    } else if g == 0x8000 {
        alu(m, x, y, nibble(op)).advance()
    } else if g == 0x9000 {
        m.skip_if(vx != vy)
    } else if g == 0xA000 {
        m.with_i(address(op)).advance()
    } else if g == 0xB000 {
        m.with_pc((m.cpu.v[0] + address(op)) as u16)
    } else if g == 0xD000 {
        draw(m, vx, vy, nibble(op) as u8).advance()
    } else if g == 0xE000 {
        if low_byte(op) == 0x9E {
            m.skip_if(m.keys[vx as int])
        } else if low_byte(op) == 0xA1 {
            m.skip_if(!m.keys[vx as int])
        } else {
            m
        }
    } else if g == 0xF000 {
        misc(m, x, low_byte(op))
    } else {
        m
    }
}

/// Whether `op` is an instruction the emulator knows. Others leave the machine as it
/// is, except those of group 8, which still move the program counter on.
pub open spec fn supported(op: u16) -> bool {
    let g = group(op);
    let lo = low_byte(op);
    let k = nibble(op);
    if g == 0x0000 {
        lo == 0x00E0 || lo == 0x00EE
    } else if g == 0x8000 {
        k <= 0x7 || k == 0xE
    } else if g == 0xC000 {
        false
    } else if g == 0xE000 {
        lo == 0x9E || lo == 0xA1
    } else if g == 0xF000 {
        lo == 0x1E || lo == 0x29 || lo == 0x33 || lo == 0x55 || lo == 0x65 || lo == 0x07
            || lo == 0x15 || lo == 0x18 || lo == 0x0A
    } else {
        true
    }
}

/// The program counter plus `d` still fits in sixteen bits.
pub open spec fn pc_fits(m: Machine, d: int) -> bool {
    m.cpu.pc + d <= 0xFFFF
}

/// Whether executing `op` stays inside the machine: every memory, stack and key
/// access in range and no arithmetic overflow. Outside of this the instruction has
/// no defined outcome.
pub open spec fn executable(m: Machine, op: u16) -> bool {
    let x = reg_x(op);
    let y = reg_y(op);
    let vx = m.cpu.v[x];
    let vy = m.cpu.v[y];
    let g = group(op);
    let lo = low_byte(op);
    let i = m.cpu.i;
    if g == 0x0000 {
        if lo == 0x00E0 {
            pc_fits(m, 2)
        } else if lo == 0x00EE {
            1 <= m.cpu.sp <= 16 && m.cpu.stack[m.cpu.sp - 1] + 2 <= 0xFFFF
        } else {
            true
        }
    } else if g == 0x2000 {
        m.cpu.sp < 16
    } else if g == 0x3000 {
        pc_fits(m, if vx == imm(op) { 4 } else { 2 })
    } else if g == 0x4000 {
        pc_fits(m, if vx != imm(op) { 4 } else { 2 })
    } else if g == 0x5000 {
        pc_fits(m, if vx == vy { 4 } else { 2 })
    } else if g == 0x9000 {
        pc_fits(m, if vx != vy { 4 } else { 2 })
    } else if g == 0x6000 || g == 0x7000 || g == 0x8000 || g == 0xA000 {
        pc_fits(m, 2)
    } else if g == 0xD000 {
        (nibble(op) == 0 || i + nibble(op) <= MEMORY_SIZE) && pc_fits(m, 2)
    } else if g == 0xE000 {
        if lo == 0x9E {
            vx < 16 && pc_fits(m, if m.keys[vx as int] { 4 } else { 2 })
        } else if lo == 0xA1 {
            vx < 16 && pc_fits(m, if m.keys[vx as int] { 2 } else { 4 })
        } else {
            true
        }
    } else if g == 0xF000 {
        if lo == 0x29 {
            vx * 5 <= 0xFF && pc_fits(m, 2)
        } else if lo == 0x33 {
            i + 3 <= MEMORY_SIZE && pc_fits(m, 2)
        } else if lo == 0x55 || lo == 0x65 {
            i + x + 1 <= MEMORY_SIZE && pc_fits(m, 2)
        } else if lo == 0x0A {
            first_key(m.keys) is None || pc_fits(m, 2)
        } else if lo == 0x1E || lo == 0x07 || lo == 0x15 || lo == 0x18 {
            pc_fits(m, 2)
        } else {
            true
        }
    } else {
        true
    }
}

/// The instruction at the program counter: two bytes, most significant first.
pub open spec fn fetch(m: Machine) -> u16 {
    (m.memory[m.cpu.pc as int] * 256 + m.memory[m.cpu.pc + 1]) as u16
}

/// Whether the machine can fetch and execute its next instruction.
pub open spec fn can_cycle(m: Machine) -> bool {
    m.cpu.pc + 1 < MEMORY_SIZE && executable(m, fetch(m))
}

/// One tick of the timers: each counts down to zero and stops there.
pub open spec fn tick_timers(m: Machine) -> Machine {
    Machine {
        delay_timer: if m.delay_timer > 0 { (m.delay_timer - 1) as u8 } else { 0 },
        sound_timer: if m.sound_timer > 0 { (m.sound_timer - 1) as u8 } else { 0 },
        ..m
    }
}

/// One cycle: fetch, execute, tick the timers.
pub open spec fn cycle(m: Machine) -> Machine {
    tick_timers(execute(m, fetch(m)))
}

/// The machine as it is when the emulator is made.
pub open spec fn initial() -> Machine {
    Machine {
        cpu: Registers {
            v: Seq::new(16, |_r: int| 0u8),
            i: 0,
            pc: PROGRAM_START as u16,
            stack: Seq::new(16, |_s: int| 0u16),
            sp: 0,
        },
        memory: Seq::new(MEMORY_SIZE as nat, |_a: int| 0u8),
        pixels: blank_screen(),
        keys: Seq::new(16, |_k: int| false),
        delay_timer: 0,
        sound_timer: 0,
        draw_flag: false,
    }
}

} // verus!
