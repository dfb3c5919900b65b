//! The machine's storage: registers, program counter, segments and free list.
use vstd::prelude::*;
use crate::state::{Action, Fault, MachineState, initial, word_add};
use crate::rumdis::{disassemble, run_steps};

verus! {

/// A sequence of words, owned by the segment store.
#[derive(Clone)]
pub struct Segment {
    pub data: Vec<u32>,
}

impl View for Segment {
    type V = Seq<u32>;

    open spec fn view(&self) -> Seq<u32> {
        self.data@
    }
}

/// A Universal Machine: registers, a program counter, the segment store and
/// the free list of unmapped segment identifiers.
pub struct UniversalMachine {
    registers: Vec<u32>,
    program_counter: u32,
    memory_space: Vec<Option<Segment>>,
    free_memory: Vec<u32>,
}

pub open spec fn slot_view(slot: Option<Segment>) -> Option<Seq<u32>> {
    match slot {
        Some(s) => Some(s.data@),
        None => None,
    }
}

impl View for UniversalMachine {
    type V = MachineState;

    closed spec fn view(&self) -> MachineState {
        MachineState {
            regs: self.registers@,
            pc: self.program_counter,
            segs: self.memory_space@.map_values(|slot: Option<Segment>| slot_view(slot)),
            free: self.free_memory@,
        }
    }
}

impl UniversalMachine {
    /// A machine whose segment 0 holds `instructions`, with all registers,
    /// the program counter and the free list empty or zero.
    pub fn new(instructions: Vec<u32>) -> (r: Self)
        ensures
            r@ == initial(instructions@),
            r@.wf(),
    {
        let registers = vec![0u32; 8];
        let mut memory_space: Vec<Option<Segment>> = Vec::new();
        memory_space.push(Some(Segment { data: instructions }));
        let r = UniversalMachine {
            registers,
            program_counter: 0,
            memory_space,
            free_memory: Vec::new(),
        };
        assert(r@.regs =~= initial(instructions@).regs);
        assert(r@.segs =~= initial(instructions@).segs);
        assert(r@.free =~= initial(instructions@).free);
        r
    }

    /// Advances the program counter by one, modulo 2^32.
    pub fn increment_counter(&mut self)
        ensures
            final(self)@ == old(self)@.with_pc(word_add(old(self)@.pc, 1)),
    {
        self.program_counter = self.program_counter.wrapping_add(1);
    }

    pub fn set_program_counter(&mut self, value: u32)
        ensures
            final(self)@ == old(self)@.with_pc(value),
    {
        self.program_counter = value;
    }

    pub fn get_register(&self, index: usize) -> (r: u32)
        requires
            index < self@.regs.len(),
        ensures
            r == self@.reg(index as int),
    {
        self.registers[index]
    }

    pub fn set_register(&mut self, index: usize, value: u32)
        requires
            index < old(self)@.regs.len(),
        ensures
            final(self)@ == old(self)@.with_reg(index as int, value),
    {
        self.registers.set(index, value);
    }

    /// A copy of the mapped segment `address`.
    pub fn get_segment_from_memory_space(&self, address: u32) -> (r: Result<Segment, Fault>)
        ensures
            self@.is_mapped(address) ==> (r matches Ok(s) && s@ == self@.segment(address)),
            !self@.is_mapped(address) ==> r == Err::<Segment, Fault>(Fault::UnmappedSegment),
    {
        if (address as usize) < self.memory_space.len() {
            match &self.memory_space[address as usize] {
                Some(s) => Ok(Segment { data: s.data.clone() }),
                None => Err(Fault::UnmappedSegment),
            }
        } else {
            Err(Fault::UnmappedSegment)
        }
    }

    /// Puts `value` in slot `address` as a mapped segment, if the slot
    /// exists; does nothing otherwise. The free list is left as it is.
    pub fn set_segment_from_memory_space(&mut self, address: u32, value: Segment)
        ensures
            final(self)@ == if (address as int) < old(self)@.segs.len() {
                MachineState {
                    segs: old(self)@.segs.update(address as int, Some(value@)),
                    ..old(self)@
                }
            } else {
                old(self)@
            },
    {
        if (address as usize) < self.memory_space.len() {
            self.memory_space.set(address as usize, Some(value));
            proof {
                assert(self@.segs =~= old(self)@.segs.update(address as int, Some(value@)));
            }
        }
    }

    /// Marks slot `address` unmapped and pushes it on the free list.
    pub(crate) fn release_segment(&mut self, address: u32)
        requires
            (address as int) < old(self)@.segs.len(),
        ensures
            final(self)@ == (MachineState {
                segs: old(self)@.segs.update(address as int, None),
                free: old(self)@.free.push(address),
                ..old(self)@
            }),
    {
        self.memory_space.set(address as usize, None);
        self.push_free_memory(address);
        proof {
            assert(self@.segs =~= old(self)@.segs.update(address as int, None));
        }
    }

    /// Whether `address` names a mapped segment.
    pub fn is_mapped(&self, address: u32) -> (r: bool)
        ensures
            r == self@.is_mapped(address),
    {
        (address as usize) < self.memory_space.len() && self.memory_space[address as usize].is_some()
    }

    /// The word at `offset` in segment `address`.
    pub fn get_val_from_memory_space(&self, address: u32, offset: u32) -> (r: Result<u32, Fault>)
        ensures
            r == self@.read(address, offset),
    {
        if (address as usize) >= self.memory_space.len() {
            return Err(Fault::UnmappedSegment);
        }
        match &self.memory_space[address as usize] {
            Some(s) => {
                if (offset as usize) < s.data.len() {
                    Ok(s.data[offset as usize])
                } else {
                    Err(Fault::OffsetOutOfBounds)
                }
            },
            None => Err(Fault::UnmappedSegment),
        }
    }

    /// Sets the word at `offset` in segment `address`; on a fault nothing
    /// changes.
    pub fn set_val_from_memory_space(&mut self, address: u32, offset: u32, value: u32) -> (r:
        Result<(), Fault>)
        ensures
            match old(self)@.write(address, offset, value) {
                Ok(t) => r is Ok && final(self)@ == t,
                Err(f) => r == Err::<(), Fault>(f) && final(self)@ == old(self)@,
            },
    {
        if (address as usize) >= self.memory_space.len() {
            return Err(Fault::UnmappedSegment);
        }
        let a = address as usize;
        let mut slot: Option<Segment> = None;
        self.memory_space.set_and_swap(a, &mut slot);
        match slot {
            Some(mut s) => {
                if (offset as usize) < s.data.len() {
                    s.data.set(offset as usize, value);
                    self.memory_space.set(a, Some(s));
                    proof {
                        let t = old(self)@.write(address, offset, value);
                        assert(self@.segs =~= t.unwrap().segs);
                    }
                    Ok(())
                } else {
                    self.memory_space.set(a, Some(s));
                    proof {
                        assert(self@.segs =~= old(self)@.segs);
                    }
                    Err(Fault::OffsetOutOfBounds)
                }
            },
            None => {
                self.memory_space.set(a, None);
                proof {
                    assert(self@.segs =~= old(self)@.segs);
                }
                Err(Fault::UnmappedSegment)
            },
        }
    }

    /// The number of identifiers on the free list.
    pub fn get_free_memory_len(&self) -> (r: usize)
        ensures
            r == self@.free.len(),
    {
        self.free_memory.len()
    }

    /// The number of segment identifiers ever minted.
    pub fn get_memory_space_len(&self) -> (r: usize)
        ensures
            r == self@.segs.len(),
    {
        self.memory_space.len()
    }

    /// The identifier on top of the free list.
    pub fn get_from_free_memory(&self) -> (r: u32)
        requires
            self@.free.len() > 0,
        ensures
            r == self@.free.last(),
    {
        self.free_memory[self.free_memory.len() - 1]
    }

    /// Appends `value` as a mapped segment under the next identifier.
    pub fn push_memory_space(&mut self, value: Segment)
        ensures
            final(self)@ == (MachineState { segs: old(self)@.segs.push(Some(value@)), ..old(self)@ }),
    {
        self.memory_space.push(Some(value));
        proof {
            assert(self@.segs =~= old(self)@.segs.push(Some(value@)));
        }
    }

    /// Pushes `address` on the free list.
    pub fn push_free_memory(&mut self, address: u32)
        ensures
            final(self)@ == (MachineState { free: old(self)@.free.push(address), ..old(self)@ }),
    {
        self.free_memory.push(address);
    }

    /// Takes the identifier on top of the free list off it.
    pub fn pop_free_memory(&mut self) -> (r: u32)
        requires
            old(self)@.free.len() > 0,
        ensures
            r == old(self)@.free.last(),
            final(self)@ == (MachineState { free: old(self)@.free.drop_last(), ..old(self)@ }),
    {
        match self.free_memory.pop() {
            Some(id) => id,
            None => 0,
        }
    }

    /// The identifier on top of the free list, if any.
    pub fn peek_free_memory(&self) -> (r: Option<u32>)
        ensures
            r == if self@.free.len() == 0 {
                None
            } else {
                Some(self@.free.last())
            },
    {
        if self.free_memory.is_empty() {
            None
        } else {
            Some(self.free_memory[self.free_memory.len() - 1])
        }
    }

    /// Fetches and performs instructions from segment 0, at most `fuel` of
    /// them, until one faults or asks for output, input or halting. `Ok(
    /// Action::Continue)` means that the fuel ran out first.
    pub fn run(&mut self, fuel: u64) -> (r: Result<Action, Fault>)
        requires
            old(self)@.wf(),
        ensures
            (final(self)@, r) == run_steps(old(self)@, fuel as nat),
            final(self)@.wf(),
    {
        let mut remaining: u64 = fuel;
        while remaining > 0
            invariant
                self@.wf(),
                run_steps(old(self)@, fuel as nat) == run_steps(self@, remaining as nat),
            decreases remaining,
        {
            let instruction = match self.get_val_from_memory_space(0, self.program_counter) {
                Ok(w) => w,
                Err(_) => return Err(Fault::FetchOutOfBounds),
            };
            let r = disassemble(instruction, self);
            match r {
                Ok(Action::Continue) => {},
                _ => return r,
            }
            remaining = remaining - 1;
        }
        Ok(Action::Continue)
    }
}

} // verus!
