use vstd::prelude::*;

use crate::machine::Registers;

verus! {

/// The processor's registers: V0..VF, I, the program counter and the return stack.
pub struct Cpu {
    v: [u8; 16],
    i: u16,
    pc: u16,
    stack: [u16; 16],
    sp: u8,
}

impl View for Cpu {
    type V = Registers;

    closed spec fn view(&self) -> Registers {
        Registers { v: self.v@, i: self.i, pc: self.pc, stack: self.stack@, sp: self.sp }
    }
}

/// A processor always has sixteen registers and sixteen stack slots.
pub broadcast proof fn lemma_cpu_wf(cpu: &Cpu)
    ensures
        #![trigger cpu.view()]
        cpu.view().wf(),
{
}

impl Cpu {
    /// All registers zero, the stack empty and the program counter at the start
    /// of the program area.
    pub fn new() -> (cpu: Self)
        ensures
            cpu@ == (Registers {
                v: Seq::new(16, |_r: int| 0u8),
                i: 0,
                pc: 0x200,
                stack: Seq::new(16, |_s: int| 0u16),
                sp: 0,
            }),
    {
        let cpu = Cpu { v: [0u8; 16], i: 0, pc: 0x200, sp: 0, stack: [0u16; 16] };
        assert(cpu@.v =~= Seq::new(16, |_r: int| 0u8));
        assert(cpu@.stack =~= Seq::new(16, |_s: int| 0u16));
        cpu
    }

    /// The general purpose registers.
    pub fn v(&self) -> (v: &[u8; 16])
        ensures
            v@ == self@.v,
    {
        &self.v
    }

    /// Sets register `index` to `value`.
    pub fn push_v(&mut self, index: usize, value: u8)
        requires
            index < 16,
        ensures
            final(self)@ == (Registers { v: old(self)@.v.update(index as int, value), ..old(self)@ }),
    {
        self.v[index] = value;
    }

    /// The index register.
    pub fn i(&self) -> (i: u16)
        ensures
            i == self@.i,
    {
        self.i
    }

    /// Sets the index register.
    pub fn set_i(&mut self, value: u16)
        ensures
            final(self)@ == (Registers { i: value, ..old(self)@ }),
    {
        self.i = value;
    }

    /// The program counter.
    pub fn pc(&self) -> (pc: u16)
        ensures
            pc == self@.pc,
    {
        self.pc
    }

    /// Sets the program counter.
    pub fn set_pc(&mut self, value: u16)
        ensures
            final(self)@ == (Registers { pc: value, ..old(self)@ }),
    {
        self.pc = value;
    }

    /// The return stack.
    pub fn stack(&self) -> (stack: &[u16; 16])
        ensures
            stack@ == self@.stack,
    {
        &self.stack
    }

    /// Writes `value` into the stack slot the stack pointer names; the stack
    /// pointer itself is left as it is.
    pub fn push_stack(&mut self, value: u16)
        requires
            old(self)@.sp < 16,
        ensures
            final(self)@ == (Registers {
                stack: old(self)@.stack.update(old(self)@.sp as int, value),
                ..old(self)@
            }),
    {
        self.stack[self.sp as usize] = value;
    }

    /// The stack pointer.
    pub fn sp(&self) -> (sp: u8)
        ensures
            sp == self@.sp,
    {
        self.sp
    }

    /// Sets the stack pointer.
    pub fn set_sp(&mut self, value: u8)
        ensures
            final(self)@ == (Registers { sp: value, ..old(self)@ }),
    {
        self.sp = value;
    }
}

} // verus!
