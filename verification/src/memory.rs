use vstd::prelude::*;

verus! {

/// The machine's 4096 bytes of RAM.
pub struct Memory {
    data: [u8; 4096],
}

impl View for Memory {
    type V = Seq<u8>;

    closed spec fn view(&self) -> Seq<u8> {
        self.data@
    }
}

/// The view of a memory always has 4096 bytes.
pub broadcast proof fn lemma_memory_len(mem: &Memory)
    ensures
        #![trigger mem.view()]
        mem.view().len() == 4096,
{
}

impl Memory {
    /// Fresh memory, every byte zero.
    pub fn new() -> (mem: Self)
        ensures
            mem@ == Seq::new(4096, |_a: int| 0u8),
    {
        let mem = Memory { data: [0u8; 4096] };
        assert(mem@ =~= Seq::new(4096, |_a: int| 0u8));
        mem
    }

    /// The bytes of memory.
    pub fn data(&self) -> (data: &[u8; 4096])
        ensures
            data@ == self@,
    {
        &self.data
    }

    /// The bytes of memory, for writing.
    pub fn data_mut(&mut self) -> (data: &mut [u8; 4096])
        ensures
            data@ == old(self)@,
            final(self)@ == final(data)@,
    {
        &mut self.data
    }

    /// Writes `value` at address `index`.
    pub fn push_data(&mut self, index: usize, value: u8)
        requires
            index < 4096,
        ensures
            final(self)@ == old(self)@.update(index as int, value),
    {
        self.data[index] = value;
    }
}

} // verus!
