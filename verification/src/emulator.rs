use vstd::prelude::*;

use crate::cpu::Cpu;
use crate::display::Display;
use crate::machine::{
    alu, can_cycle, cycle, draw, execute, executable, fetch, first_key, font, group, initial,
    lemma_group_cases, screen_wf, sprite_bit, sprite_collides, sprite_hit, supported,
    tick_timers, write_bytes, xor_sprite, Machine, Registers, FONT_START, MEMORY_SIZE,
    PROGRAM_START, SCREEN_HEIGHT, SCREEN_WIDTH,
};
use crate::memory::Memory;

verus! {

broadcast use crate::cpu::lemma_cpu_wf, crate::memory::lemma_memory_len, crate::display::lemma_display_wf;

/// What one cycle reports to whoever runs the emulator.
pub struct CycleReport {
    /// The instruction that was fetched and executed.
    pub opcode: u16,
    /// Whether the instruction executed was one the emulator knows.
    pub supported: bool,
    /// Whether the sound timer was running, so that a beep is due.
    pub beep: bool,
}

/// A CHIP-8 machine: processor, memory, screen, keypad and timers.
pub struct Emulator {
    pub cpu: Cpu,
    pub memory: Memory,
    pub delay_timer: u8,
    pub sound_timer: u8,
    pub display: Display,
    pub keys: [bool; 16],
    pub draw_flag: bool,
}

impl View for Emulator {
    type V = Machine;

    open spec fn view(&self) -> Machine {
        Machine {
            cpu: self.cpu@,
            memory: self.memory@,
            pixels: self.display@,
            keys: self.keys@,
            delay_timer: self.delay_timer,
            sound_timer: self.sound_timer,
            draw_flag: self.draw_flag,
        }
    }
}

/// Every emulator's model is well formed.
pub proof fn lemma_emulator_wf(emu: &Emulator)
    ensures
        emu@.wf(),
{
}

impl Emulator {
    /// A machine with cleared memory, registers and screen, the program counter at
    /// the start of the program area.
    pub fn new() -> (emu: Self)
        ensures
            emu@ == initial(),
    {
        let emu = Emulator {
            cpu: Cpu::new(),
            memory: Memory::new(),
            delay_timer: 0,
            sound_timer: 0,
            display: Display::new(),
            keys: [false; 16],
            draw_flag: false,
        };
        assert(emu@.keys =~= Seq::new(16, |_k: int| false));
        emu
    }

    /// Writes the built-in font into memory from address 0x50 on.
    pub fn init_fontset(&mut self)
        ensures
            final(self)@ == (Machine {
                memory: write_bytes(old(self)@.memory, FONT_START as int, font()),
                ..old(self)@
            }),
    {
        let fontset: [u8; 80] = [
            0xF0, 0x90, 0x90, 0x90, 0xF0, 0x20, 0x60, 0x20, 0x20, 0x70, 0xF0, 0x10, 0xF0, 0x80,
            0xF0, 0xF0, 0x10, 0xF0, 0x10, 0xF0, 0x90, 0x90, 0xF0, 0x10, 0x10, 0xF0, 0x80, 0xF0,
            0x10, 0xF0, 0xF0, 0x80, 0xF0, 0x90, 0xF0, 0xF0, 0x10, 0x20, 0x40, 0x40, 0xF0, 0x90,
            0xF0, 0x90, 0xF0, 0xF0, 0x90, 0xF0, 0x10, 0xF0, 0xF0, 0x90, 0xF0, 0x90, 0x90, 0xE0,
            0x90, 0xE0, 0x90, 0xE0, 0xF0, 0x80, 0x80, 0x80, 0xF0, 0xE0, 0x90, 0x90, 0x90, 0xE0,
            0xF0, 0x80, 0xF0, 0x80, 0xF0, 0xF0, 0x80, 0xF0, 0x80, 0x80,
        ];
        assert(fontset@ =~= font());
        self.write_block(FONT_START, &fontset);
    }

    /// Copies `bytes` into memory from address `start` on.
    fn write_block(&mut self, start: usize, bytes: &[u8])
        requires
            start + bytes@.len() <= MEMORY_SIZE,
        ensures
            final(self)@ == (Machine {
                memory: write_bytes(old(self)@.memory, start as int, bytes@),
                ..old(self)@
            }),
    {
        let ghost before = self@;
        let mut k: usize = 0;
        assert(write_bytes(before.memory, start as int, bytes@.take(0)) =~= before.memory);
        while k < bytes.len()
            invariant
                k <= bytes@.len(),
                start + bytes@.len() <= MEMORY_SIZE,
                before.wf(),
                self@ == (Machine {
                    memory: write_bytes(before.memory, start as int, bytes@.take(k as int)),
                    ..before
                }),
            decreases bytes@.len() - k,
        {
            self.memory.push_data(start + k, bytes[k]);
            k += 1;
            assert(self@.memory =~= write_bytes(
                before.memory,
                start as int,
                bytes@.take(k as int),
            ));
        }
        assert(bytes@.take(k as int) =~= bytes@);
    }

    /// Fetches the instruction at the program counter, executes it and ticks the
    /// timers.
    pub fn cycle(&mut self) -> (report: CycleReport)
        requires
            can_cycle(old(self)@),
        ensures
            final(self)@ == cycle(old(self)@),
            report.opcode == fetch(old(self)@),
            report.supported == supported(fetch(old(self)@)),
            report.beep == (execute(old(self)@, fetch(old(self)@)).sound_timer > 0),
    {
        let pc: usize = self.cpu.pc() as usize;
        let memory: &[u8; 4096] = self.memory.data();
        let opcode: u16 = (memory[pc] as u16) * 256 + (memory[pc + 1] as u16);
        let supported = self.execute_opcode(opcode);
        let beep = self.update_timers();
        CycleReport { opcode, supported, beep }
    }

    /// Counts both timers down by one, stopping at zero. Returns whether the sound
    /// timer was running, which is when the machine beeps.
    pub fn update_timers(&mut self) -> (beep: bool)
        ensures
            final(self)@ == tick_timers(old(self)@),
            beep == (old(self)@.sound_timer > 0),
    {
        if self.delay_timer > 0 {
            self.delay_timer -= 1;
        }
        let beep = self.sound_timer > 0;
        if self.sound_timer > 0 {
            self.sound_timer -= 1;
        }
        beep
    }

    /// Copies a program into memory from address 0x200 on.
    pub fn load_rom(&mut self, data: &[u8])
        requires
            PROGRAM_START + data@.len() <= MEMORY_SIZE,
        ensures
            final(self)@ == (Machine {
                memory: write_bytes(old(self)@.memory, PROGRAM_START as int, data@),
                ..old(self)@
            }),
    {
        self.write_block(PROGRAM_START, data);
    }

    /// Whether `opcode` can be executed in the present state: see `executable`.
    pub fn can_execute(&self, opcode: u16) -> (ok: bool)
        ensures
            ok == executable(self@, opcode),
    {
        let x = ((opcode >> 8u16) & 0xFu16) as usize;
        let y = ((opcode >> 4u16) & 0xFu16) as usize;
        proof {
            assert(((opcode >> 8u16) & 0xFu16) < 16u16) by (bit_vector);
            assert(((opcode >> 4u16) & 0xFu16) < 16u16) by (bit_vector);
        }
        let v = self.cpu.v();
        let vx = v[x];
        let vy = v[y];
        let pc = self.cpu.pc() as usize;
        let i = self.cpu.i() as usize;
        let sp = self.cpu.sp() as usize;
        let nn = (opcode & 0xFFu16) as u8;
        let lo = opcode & 0xFFu16;
        let n = (opcode & 0xFu16) as usize;
        match opcode & 0xF000u16 {
            0x0000 => {
                if lo == 0x00E0 {
                    pc + 2 <= 0xFFFF
                } else if lo == 0x00EE {
                    1 <= sp && sp <= 16 && (self.cpu.stack()[sp - 1] as usize) + 2 <= 0xFFFF
                } else {
                    true
                }
            },
            0x2000 => sp < 16,
            0x3000 => pc + (if vx == nn { 4 } else { 2 }) <= 0xFFFF,
            0x4000 => pc + (if vx != nn { 4 } else { 2 }) <= 0xFFFF,
            0x5000 => pc + (if vx == vy { 4 } else { 2 }) <= 0xFFFF,
            0x9000 => pc + (if vx != vy { 4 } else { 2 }) <= 0xFFFF,
            0x6000 | 0x7000 | 0x8000 | 0xA000 => pc + 2 <= 0xFFFF,
            0xD000 => (n == 0 || i + n <= MEMORY_SIZE) && pc + 2 <= 0xFFFF,
            0xE000 => {
                if lo == 0x9E {
                    vx < 16 && pc + (if self.keys[vx as usize] { 4 } else { 2 }) <= 0xFFFF
                } else if lo == 0xA1 {
                    vx < 16 && pc + (if self.keys[vx as usize] { 2 } else { 4 }) <= 0xFFFF
                } else {
                    true
                }
            },
            0xF000 => {
                if lo == 0x29 {
                    (vx as usize) * 5 <= 0xFF && pc + 2 <= 0xFFFF
                } else if lo == 0x33 {
                    i + 3 <= MEMORY_SIZE && pc + 2 <= 0xFFFF
                } else if lo == 0x55 || lo == 0x65 {
                    i + x + 1 <= MEMORY_SIZE && pc + 2 <= 0xFFFF
                } else if lo == 0x0A {
                    let k = self.first_pressed_key();
                    k == 16 || pc + 2 <= 0xFFFF
                } else if lo == 0x1E || lo == 0x07 || lo == 0x15 || lo == 0x18 {
                    pc + 2 <= 0xFFFF
                } else {
                    true
                }
            },
            _ => true,
        }
    }

    /// Whether the next cycle can run in the present state: see `can_cycle`.
    pub fn can_cycle(&self) -> (ok: bool)
        ensures
            ok == can_cycle(self@),
    {
        let pc: usize = self.cpu.pc() as usize;
        if pc + 1 >= MEMORY_SIZE {
            return false;
        }
        let memory: &[u8; 4096] = self.memory.data();
        let opcode: u16 = (memory[pc] as u16) * 256 + (memory[pc + 1] as u16);
        self.can_execute(opcode)
    }

    /// The index of the first key held down, or 16 when none is.
    fn first_pressed_key(&self) -> (k: usize)
        ensures
            k <= 16,
            k < 16 ==> first_key(self@.keys) == Some(k as int),
            k == 16 ==> first_key(self@.keys) is None,
    {
        let mut k: usize = 0;
        while k < 16 && !self.keys[k]
            invariant
                k <= 16,
                forall|j: int| 0 <= j < k ==> !self.keys@[j],
            decreases 16 - k,
        {
            k += 1;
        }
        proof {
            let keys = self@.keys;
            if k < 16 {
                let c = choose|c: int| 0 <= c < 16 && keys[c] && forall|j: int| 0 <= j < c ==> !keys[j];
                assert(0 <= k < 16 && keys[k as int] && forall|j: int| 0 <= j < k ==> !keys[j]);
                assert(c == k);
            } else {
                assert(!exists|c: int| 0 <= c < 16 && keys[c]);
            }
        }
        k
    }

    /// Executes one instruction. Returns whether the instruction is one the
    /// emulator knows; an unknown one leaves the machine as it is (those of group
    /// 8 still move the program counter on).
    pub fn execute_opcode(&mut self, opcode: u16) -> (known: bool)
        requires
            executable(old(self)@, opcode),
        ensures
            final(self)@ == execute(old(self)@, opcode),
            known == supported(opcode),
    {
        let x = ((opcode >> 8u16) & 0xFu16) as usize;
        let y = ((opcode >> 4u16) & 0xFu16) as usize;
        let nn = (opcode & 0xFFu16) as u8;
        let nnn = opcode & 0xFFFu16;
        proof {
            assert(((opcode >> 8u16) & 0xFu16) < 16u16) by (bit_vector);
            assert(((opcode >> 4u16) & 0xFu16) < 16u16) by (bit_vector);
            assert(opcode & 0xFFFu16 <= 0xFFFu16) by (bit_vector);
            lemma_group_cases(opcode);
        }
        match opcode & 0xF000u16 {
            0x0000 => self.execute_system(opcode),
            0x1000 => {
                self.cpu.set_pc(nnn);
                true
            },
            0x2000 => {
                let pc = self.cpu.pc();
                let sp = self.cpu.sp();
                self.cpu.push_stack(pc);
                self.cpu.set_sp(sp + 1);
                self.cpu.set_pc(nnn);
                true
            },
            0x3000 => {
                let v = self.cpu.v();
                let pc = self.cpu.pc();
                if v[x] == nn {
                    self.cpu.set_pc(pc + 4);
                } else {
                    self.cpu.set_pc(pc + 2);
                }
                true
            },
            0x4000 => {
                let v = self.cpu.v();
                let pc = self.cpu.pc();
                if v[x] != nn {
                    self.cpu.set_pc(pc + 4);
                } else {
                    self.cpu.set_pc(pc + 2);
                }
                true
            },
            0x5000 => {
                let v = self.cpu.v();
                let pc = self.cpu.pc();
                if v[x] == v[y] {
                    self.cpu.set_pc(pc + 4);
                } else {
                    self.cpu.set_pc(pc + 2);
                }
                true
            },
            0x6000 => {
                let pc = self.cpu.pc();
                self.cpu.push_v(x, nn);
                self.cpu.set_pc(pc + 2);
                true
            },
            0x7000 => {
                let v = self.cpu.v();
                let pc = self.cpu.pc();
                let sum = v[x].wrapping_add(nn);
                self.cpu.push_v(x, sum);
                self.cpu.set_pc(pc + 2);
                true
            },
            0x8000 => {
                let pc = self.cpu.pc();
                let known = self.execute_alu(x, y, opcode & 0xFu16);
                self.cpu.set_pc(pc + 2);
                known
            },
            0x9000 => {
                let v = self.cpu.v();
                let pc = self.cpu.pc();
                if v[x] != v[y] {
                    self.cpu.set_pc(pc + 4);
                } else {
                    self.cpu.set_pc(pc + 2);
                }
                true
            },
            0xA000 => {
                let pc = self.cpu.pc();
                self.cpu.set_i(nnn);
                self.cpu.set_pc(pc + 2);
                true
            },
            0xB000 => {
                let v = self.cpu.v();
                self.cpu.set_pc(v[0] as u16 + nnn);
                true
            },
            0xD000 => {
                let pc = self.cpu.pc();
                let v = self.cpu.v();
                let vx = v[x];
                let vy = v[y];
                proof {
                    assert(opcode & 0xFu16 < 16u16) by (bit_vector);
                }
                self.draw_sprite(vx, vy, (opcode & 0xFu16) as u8);
                self.cpu.set_pc(pc + 2);
                true
            },
            0xE000 => self.execute_keys(opcode),
            0xF000 => self.execute_misc(opcode),
            _ => false,
        }
    }

    /// The instructions of group 0: clear the screen and return from a subroutine.
    fn execute_system(&mut self, opcode: u16) -> (known: bool)
        requires
            group(opcode) == 0x0000,
            executable(old(self)@, opcode),
        ensures
            final(self)@ == execute(old(self)@, opcode),
            known == supported(opcode),
    {
        match opcode & 0xFFu16 {
            0x00E0 => {
                let pc = self.cpu.pc();
                self.display.clear_display();
                self.cpu.set_pc(pc + 2);
                true
            },
            0x00EE => {
                let sp = self.cpu.sp();
                self.cpu.set_sp(sp - 1);
                let sp = self.cpu.sp();
                let stack = self.cpu.stack();
                self.cpu.set_pc(stack[sp as usize] + 2);
                true
            },
            _ => false,
        }
    }

    /// The arithmetic and logic instructions 8XYK, without the program counter.
    fn execute_alu(&mut self, x: usize, y: usize, k: u16) -> (known: bool)
        requires
            x < 16,
            y < 16,
        ensures
            final(self)@ == alu(old(self)@, x as int, y as int, k),
            known == (k <= 0x7 || k == 0xE),
    {
        let vx = self.cpu.v()[x];
        let vy = self.cpu.v()[y];
        match k {
            0x0 => {
                self.cpu.push_v(x, vy);
                true
            },
            0x1 => {
                self.cpu.push_v(x, vx | vy);
                true
            },
            0x2 => {
                self.cpu.push_v(x, vx & vy);
                true
            },
            0x3 => {
                self.cpu.push_v(x, vx ^ vy);
                true
            },
            0x4 => {
                let sum = vx as u16 + vy as u16;
                if sum > 0xFF {
                    self.cpu.push_v(0xF, 1);
                } else {
                    self.cpu.push_v(0xF, 0);
                }
                assert((sum & 0xFFu16) == sum % 256) by (bit_vector);
                self.cpu.push_v(x, (sum & 0xFFu16) as u8);
                true
            },
            0x5 => {
                if vx >= vy {
                    self.cpu.push_v(0xF, 1);
                } else {
                    self.cpu.push_v(0xF, 0);
                }
                self.cpu.push_v(x, vx.wrapping_sub(vy));
                true
            },
            0x6 => {
                self.cpu.push_v(0xF, vx & 0x1);
                self.cpu.push_v(x, vx >> 1u8);
                true
            },
            0x7 => {
                if vy >= vx {
                    self.cpu.push_v(0xF, 1);
                } else {
                    self.cpu.push_v(0xF, 0);
                }
                self.cpu.push_v(x, vy.wrapping_sub(vx));
                true
            },
            0xE => {
                self.cpu.push_v(0xF, (vx & 0x80u8) >> 7u8);
                self.cpu.push_v(x, vx << 1u8);
                true
            },
            _ => false,
        }
    }

    /// The key instructions EX9E and EXA1.
    fn execute_keys(&mut self, opcode: u16) -> (known: bool)
        requires
            group(opcode) == 0xE000,
            executable(old(self)@, opcode),
        ensures
            final(self)@ == execute(old(self)@, opcode),
            known == supported(opcode),
    {
        let x = ((opcode >> 8u16) & 0xFu16) as usize;
        proof {
            assert(((opcode >> 8u16) & 0xFu16) < 16u16) by (bit_vector);
        }
        match opcode & 0xFFu16 {
            0x009E => {
                let v = self.cpu.v();
                let pc = self.cpu.pc();
                if self.keys[v[x] as usize] {
                    self.cpu.set_pc(pc + 4);
                } else {
                    self.cpu.set_pc(pc + 2);
                }
                true
            },
            0x00A1 => {
                let v = self.cpu.v();
                let pc = self.cpu.pc();
                if self.keys[v[x] as usize] {
                    self.cpu.set_pc(pc + 2);
                } else {
                    self.cpu.set_pc(pc + 4);
                }
                true
            },
            _ => false,
        }
    }

    /// The instructions of group F: timers, index register, memory and keys.
    fn execute_misc(&mut self, opcode: u16) -> (known: bool)
        requires
            group(opcode) == 0xF000,
            executable(old(self)@, opcode),
        ensures
            final(self)@ == execute(old(self)@, opcode),
            known == supported(opcode),
    {
        let x = ((opcode >> 8u16) & 0xFu16) as usize;
        proof {
            assert(((opcode >> 8u16) & 0xFu16) < 16u16) by (bit_vector);
        }
        let ghost m = self@;
        match opcode & 0xFFu16 {
            0x001E => {
                let v = self.cpu.v();
                let i = self.cpu.i();
                let pc = self.cpu.pc();
                self.cpu.set_i(i.wrapping_add(v[x] as u16));
                let i = self.cpu.i();
                if i > 0xFFF {
                    self.cpu.push_v(0xF, 1);
                } else {
                    self.cpu.push_v(0xF, 0);
                }
                self.cpu.set_pc(pc + 2);
                true
            },
            0x0029 => {
                let v = self.cpu.v();
                let pc = self.cpu.pc();
                self.cpu.set_i(0x50 + (v[x] * 5) as u16);
                self.cpu.set_pc(pc + 2);
                true
            },
            0x0033 => {
                let v = self.cpu.v();
                let value = v[x];
                let i = self.cpu.i();
                let pc = self.cpu.pc();
                self.memory.push_data(i as usize, value / 100);
                self.memory.push_data((i + 1) as usize, (value / 10) % 10);
                self.memory.push_data((i + 2) as usize, value % 10);
                self.cpu.set_pc(pc + 2);
                assert(self@.memory =~= write_bytes(
                    m.memory,
                    m.cpu.i as int,
                    seq![value / 100, (value / 10) % 10, value % 10],
                ));
                true
            },
            0x0055 => {
                let pc = self.cpu.pc();
                self.store_registers(x);
                self.cpu.set_pc(pc + 2);
                true
            },
            0x0065 => {
                let pc = self.cpu.pc();
                self.load_registers(x);
                self.cpu.set_pc(pc + 2);
                true
            },
            0x0007 => {
                let pc = self.cpu.pc();
                self.cpu.push_v(x, self.delay_timer);
                self.cpu.set_pc(pc + 2);
                true
            },
            0x0015 => {
                let v = self.cpu.v();
                let pc = self.cpu.pc();
                self.delay_timer = v[x];
                self.cpu.set_pc(pc + 2);
                true
            },
            0x0018 => {
                let v = self.cpu.v();
                let pc = self.cpu.pc();
                self.sound_timer = v[x];
                self.cpu.set_pc(pc + 2);
                true
            },
            0x000A => {
                let pc = self.cpu.pc();
                let k = self.first_pressed_key();
                if k < 16 {
                    self.cpu.push_v(x, k as u8);
                    self.cpu.set_pc(pc + 2);
                }
                true
            },
            _ => false,
        }
    }

    /// FX55 without the program counter: V0..=VX stored from address I on.
    fn store_registers(&mut self, x: usize)
        requires
            x < 16,
            old(self)@.cpu.i + x + 1 <= MEMORY_SIZE,
        ensures
            final(self)@ == (Machine {
                memory: write_bytes(
                    old(self)@.memory,
                    old(self)@.cpu.i as int,
                    old(self)@.cpu.v.take(x + 1),
                ),
                ..old(self)@
            }),
    {
        let ghost m = self@;
        let v = self.cpu.v();
        let i = self.cpu.i();
        let mut index: usize = 0;
        assert(write_bytes(m.memory, i as int, m.cpu.v.take(0)) =~= m.memory);
        while index <= x
            invariant
                x < 16,
                index <= x + 1,
                i == m.cpu.i,
                i + x + 1 <= MEMORY_SIZE,
                v@ == m.cpu.v,
                m.wf(),
                self@ == (Machine {
                    memory: write_bytes(m.memory, i as int, m.cpu.v.take(index as int)),
                    ..m
                }),
            decreases x + 1 - index,
        {
            self.memory.push_data((i + index as u16) as usize, v[index]);
            index += 1;
            assert(self@.memory =~= write_bytes(m.memory, i as int, m.cpu.v.take(index as int)));
        }
    }

    /// FX65 without the program counter: V0..=VX loaded from address I on.
    fn load_registers(&mut self, x: usize)
        requires
            x < 16,
            old(self)@.cpu.i + x + 1 <= MEMORY_SIZE,
        ensures
            final(self)@ == (Machine {
                cpu: Registers {
                    v: Seq::new(
                        16,
                        |r: int|
                            if r <= x {
                                old(self)@.memory[old(self)@.cpu.i + r]
                            } else {
                                old(self)@.cpu.v[r]
                            },
                    ),
                    ..old(self)@.cpu
                },
                ..old(self)@
            }),
    {
        let ghost m = self@;
        let memory = self.memory.data();
        let i = self.cpu.i();
        let mut index: usize = 0;
        assert(Seq::new(16, |r: int| if r < 0 { m.memory[i + r] } else { m.cpu.v[r] }) =~= m.cpu.v);
        while index <= x
            invariant
                x < 16,
                index <= x + 1,
                i == m.cpu.i,
                i + x + 1 <= MEMORY_SIZE,
                memory@ == m.memory,
                m.wf(),
                self@ == (Machine {
                    cpu: Registers {
                        v: Seq::new(
                            16,
                            |r: int| if r < index { m.memory[i + r] } else { m.cpu.v[r] },
                        ),
                        ..m.cpu
                    },
                    ..m
                }),
            decreases x + 1 - index,
        {
            self.cpu.push_v(index, memory[(i + index as u16) as usize]);
            index += 1;
            assert(self@.cpu.v =~= Seq::new(
                16,
                |r: int| if r < index { m.memory[i + r] } else { m.cpu.v[r] },
            ));
        }
        assert(self@.cpu.v =~= Seq::new(
            16,
            |r: int| if r <= x { m.memory[i + r] } else { m.cpu.v[r] },
        ));
    }

    /// DXYN without the program counter.
    fn draw_sprite(&mut self, vx: u8, vy: u8, n: u8)
        requires
            n < 16,
            n == 0 || old(self)@.cpu.i + n <= MEMORY_SIZE,
        ensures
            final(self)@ == draw(old(self)@, vx, vy, n),
    {
        let ghost m = self@;
        let i = self.cpu.i();
        self.cpu.push_v(0xF, 0);
        proof {
            lemma_xor_sprite_none(m.pixels, m.memory, i, vx, vy, n);
        }
        let mut row: u8 = 0;
        while row < n
            invariant
                row <= n,
                n < 16,
                n == 0 || i + n <= MEMORY_SIZE,
                i == m.cpu.i,
                m.wf(),
                self@.cpu == (Registers {
                    v: m.cpu.v.update(
                        15,
                        if sprite_collides(m.pixels, m.memory, i, vx, vy, n, row * 8) {
                            1u8
                        } else {
                            0u8
                        },
                    ),
                    ..m.cpu
                }),
                self@.pixels == xor_sprite(m.pixels, m.memory, i, vx, vy, n, row * 8),
                self@.memory == m.memory,
                self@.keys == m.keys,
                self@.delay_timer == m.delay_timer,
                self@.sound_timer == m.sound_timer,
                self@.draw_flag == m.draw_flag,
            decreases n - row,
        {
            let sprite_byte: u8 = self.memory.data()[(i + row as u16) as usize];
            let mut col: u8 = 0;
            while col < 8
                invariant
                    row < n,
                    n < 16,
                    col <= 8,
                    i + n <= MEMORY_SIZE,
                    i == m.cpu.i,
                    m.wf(),
                    sprite_byte == m.memory[i + row],
                    self@.cpu == (Registers {
                        v: m.cpu.v.update(
                            15,
                            if sprite_collides(m.pixels, m.memory, i, vx, vy, n, row * 8 + col) {
                                1u8
                            } else {
                                0u8
                            },
                        ),
                        ..m.cpu
                    }),
                    self@.pixels == xor_sprite(m.pixels, m.memory, i, vx, vy, n, row * 8 + col),
                    self@.memory == m.memory,
                    self@.keys == m.keys,
                    self@.delay_timer == m.delay_timer,
                    self@.sound_timer == m.sound_timer,
                    self@.draw_flag == m.draw_flag,
                decreases 8 - col,
            {
                let sprite_pixel = ((sprite_byte >> (7 - col)) & 1) != 0;
                let screen_x = (vx.wrapping_add(col) % 64) as usize;
                let screen_y = (vy.wrapping_add(row) % 32) as usize;
                let ghost limit = row * 8 + col;
                let ghost before = self@.pixels;
                proof {
                    assert(screen_x == (vx + col) % 64);
                    assert(screen_y == (vy + row) % 32);
                    assert(sprite_pixel == sprite_bit(m.memory[i + row], col as int));
                    lemma_sprite_step(m.memory, i, vx, vy, n, row as int, col as int);
                }
                let screen = self.display.pixels();
                let screen_row: [bool; 64] = screen[screen_y];
                let pixel = screen_row[screen_x];
                assert(screen_row@ == self@.pixels[screen_y as int]);
                assert(pixel == m.pixels[screen_y as int][screen_x as int]);
                if sprite_pixel && pixel {
                    self.cpu.push_v(0xF, 1);
                }
                self.display.push_pixels(screen_y, screen_x, pixel != sprite_pixel);
                proof {
                    lemma_collides_step(m.pixels, m.memory, i, vx, vy, n, row as int, col as int);
                    let after = xor_sprite(m.pixels, m.memory, i, vx, vy, n, limit + 1);
                    assert forall|sy: int| 0 <= sy < 32 implies #[trigger] self@.pixels[sy]
                        =~= after[sy] by {}
                    assert(self@.pixels =~= after);
                    assert(self@.cpu.v =~= m.cpu.v.update(
                        15,
                        if sprite_collides(m.pixels, m.memory, i, vx, vy, n, limit + 1) {
                            1u8
                        } else {
                            0u8
                        },
                    ));
                }
                col += 1;
            }
            row += 1;
        }
        self.draw_flag = true;
        assert(self@.cpu.v =~= draw(m, vx, vy, n).cpu.v);
    }
}

/// With no sprite bit drawn yet, the screen is as it was and nothing collided.
proof fn lemma_xor_sprite_none(pixels: Seq<Seq<bool>>, memory: Seq<u8>, i: u16, vx: u8, vy: u8, n: u8)
    requires
        screen_wf(pixels),
    ensures
        xor_sprite(pixels, memory, i, vx, vy, n, 0) == pixels,
        !sprite_collides(pixels, memory, i, vx, vy, n, 0),
{
    let after = xor_sprite(pixels, memory, i, vx, vy, n, 0);
    assert forall|sy: int| 0 <= sy < 32 implies #[trigger] after[sy] =~= pixels[sy] by {}
    assert(after =~= pixels);
}

/// Drawing sprite bit number `row * 8 + col` touches exactly one pixel: the one at
/// (`vx + col`, `vy + row`), both wrapped around the screen.
proof fn lemma_sprite_step(memory: Seq<u8>, i: u16, vx: u8, vy: u8, n: u8, row: int, col: int)
    requires
        0 <= row < n,
        n < 16,
        0 <= col < 8,
    ensures
        ({
            let ty = (vy + row) % 32;
            let tx = (vx + col) % 64;
            let limit = row * 8 + col;
            &&& !sprite_hit(memory, i, vx, vy, n, limit, ty, tx)
            &&& sprite_hit(memory, i, vx, vy, n, limit + 1, ty, tx) == sprite_bit(
                memory[i + row],
                col,
            )
            &&& forall|sy: int, sx: int|
                0 <= sy < 32 && 0 <= sx < 64 && !(sy == ty && sx == tx) ==> (sprite_hit(
                    memory,
                    i,
                    vx,
                    vy,
                    n,
                    limit + 1,
                    sy,
                    sx,
                ) == #[trigger] sprite_hit(memory, i, vx, vy, n, limit, sy, sx))
        }),
{
    let ty = (vy + row) % 32;
    let tx = (vx + col) % 64;
    assert((ty - vy) % 32 == row);
    assert((tx - vx) % 64 == col);
    assert forall|sy: int, sx: int|
        0 <= sy < 32 && 0 <= sx < 64 && !(sy == ty && sx == tx) implies (sprite_hit(
        memory,
        i,
        vx,
        vy,
        n,
        row * 8 + col + 1,
        sy,
        sx,
    ) == #[trigger] sprite_hit(memory, i, vx, vy, n, row * 8 + col, sy, sx)) by {
        let r = (sy - vy) % 32;
        let c = (sx - vx) % 64;
        if r * 8 + c == row * 8 + col && c < 8 {
            assert(r == row && c == col);
            assert(sy == ty);
            assert(sx == tx);
        }
    }
}

/// Drawing one more sprite bit collides exactly when it did before or the new bit
/// lands on a pixel that is on.
proof fn lemma_collides_step(
    pixels: Seq<Seq<bool>>,
    memory: Seq<u8>,
    i: u16,
    vx: u8,
    vy: u8,
    n: u8,
    row: int,
    col: int,
)
    requires
        0 <= row < n,
        n < 16,
        0 <= col < 8,
    ensures
        sprite_collides(pixels, memory, i, vx, vy, n, row * 8 + col + 1) == (sprite_collides(
            pixels,
            memory,
            i,
            vx,
            vy,
            n,
            row * 8 + col,
        ) || (pixels[(vy + row) % 32][(vx + col) % 64] && sprite_bit(memory[i + row], col))),
{
    lemma_sprite_step(memory, i, vx, vy, n, row, col);
    let ty = (vy + row) % 32;
    let tx = (vx + col) % 64;
    let limit = row * 8 + col;
    if sprite_collides(pixels, memory, i, vx, vy, n, limit + 1) {
        let (sy, sx) = choose|sy: int, sx: int|
            0 <= sy < SCREEN_HEIGHT && 0 <= sx < SCREEN_WIDTH && pixels[sy][sx]
                && #[trigger] sprite_hit(memory, i, vx, vy, n, limit + 1, sy, sx);
        if !(sy == ty && sx == tx) {
            assert(sprite_hit(memory, i, vx, vy, n, limit, sy, sx));
        }
    }
    if sprite_collides(pixels, memory, i, vx, vy, n, limit) {
        let (sy, sx) = choose|sy: int, sx: int|
            0 <= sy < SCREEN_HEIGHT && 0 <= sx < SCREEN_WIDTH && pixels[sy][sx]
                && #[trigger] sprite_hit(memory, i, vx, vy, n, limit, sy, sx);
        assert(sprite_hit(memory, i, vx, vy, n, limit + 1, sy, sx));
    }
    if pixels[ty][tx] && sprite_bit(memory[i + row], col) {
        assert(sprite_hit(memory, i, vx, vy, n, limit + 1, ty, tx));
    }
}

} // verus!
