//! The operation handlers. Register arguments are register indices; each
//! handler that can fault leaves the machine unchanged when it does.
use vstd::prelude::*;
use crate::state::Fault;
use crate::universal_machine::{Segment, UniversalMachine};
use crate::laws::{lemma_map_wf, lemma_unmap_wf};

verus! {

impl UniversalMachine {
    /// Conditional move: if `R[reg1] != 0` then `R[reg2] <- R[reg3]`.
    pub fn cmov(&mut self, reg1: u32, reg2: u32, reg3: u32)
        requires
            old(self)@.wf(),
            reg1 < 8,
            reg2 < 8,
            reg3 < 8,
        ensures
            final(self)@ == old(self)@.cmov_op(reg2, reg3, reg1),
            final(self)@.wf(),
    {
        if self.get_register(reg1 as usize) != 0 {
            let v = self.get_register(reg3 as usize);
            self.set_register(reg2 as usize, v);
        }
    }

    /// Load: `R[reg1] <- segment[R[reg2]][R[reg3]]`.
    pub fn load(&mut self, reg1: u32, reg2: u32, reg3: u32) -> (r: Result<(), Fault>)
        requires
            old(self)@.wf(),
            reg1 < 8,
            reg2 < 8,
            reg3 < 8,
        ensures
            match old(self)@.load_op(reg1, reg2, reg3) {
                Ok(t) => r is Ok && final(self)@ == t,
                Err(f) => r == Err::<(), Fault>(f) && final(self)@ == old(self)@,
            },
            final(self)@.wf(),
    {
        let id = self.get_register(reg2 as usize);
        let offset = self.get_register(reg3 as usize);
        let w = self.get_val_from_memory_space(id, offset)?;
        self.set_register(reg1 as usize, w);
        Ok(())
    }

    /// Store: `segment[R[reg1]][R[reg2]] <- R[reg3]`.
    pub fn store(&mut self, reg1: u32, reg2: u32, reg3: u32) -> (r: Result<(), Fault>)
        requires
            old(self)@.wf(),
            reg1 < 8,
            reg2 < 8,
            reg3 < 8,
        ensures
            match old(self)@.store_op(reg1, reg2, reg3) {
                Ok(t) => r is Ok && final(self)@ == t,
                Err(f) => r == Err::<(), Fault>(f) && final(self)@ == old(self)@,
            },
            final(self)@.wf(),
    {
        let id = self.get_register(reg1 as usize);
        let offset = self.get_register(reg2 as usize);
        let v = self.get_register(reg3 as usize);
        self.set_val_from_memory_space(id, offset, v)
    }

    /// Add: `R[reg1] <- R[reg2] + R[reg3]`, modulo 2^32.
    pub fn add(&mut self, reg1: u32, reg2: u32, reg3: u32)
        requires
            old(self)@.wf(),
            reg1 < 8,
            reg2 < 8,
            reg3 < 8,
        ensures
            final(self)@ == old(self)@.add_op(reg1, reg2, reg3),
            final(self)@.wf(),
    {
        let x = self.get_register(reg2 as usize);
        let y = self.get_register(reg3 as usize);
        self.set_register(reg1 as usize, x.wrapping_add(y));
    }

    /// Multiply: `R[reg1] <- R[reg2] * R[reg3]`, modulo 2^32.
    pub fn mul(&mut self, reg1: u32, reg2: u32, reg3: u32)
        requires
            old(self)@.wf(),
            reg1 < 8,
            reg2 < 8,
            reg3 < 8,
        ensures
            final(self)@ == old(self)@.mul_op(reg1, reg2, reg3),
            final(self)@.wf(),
    {
        let x = self.get_register(reg2 as usize);
        let y = self.get_register(reg3 as usize);
        self.set_register(reg1 as usize, x.wrapping_mul(y));
    }

    /// Divide: `R[reg1] <- R[reg2] / R[reg3]`, unsigned; a zero divisor
    /// faults.
    pub fn div(&mut self, reg1: u32, reg2: u32, reg3: u32) -> (r: Result<(), Fault>)
        requires
            old(self)@.wf(),
            reg1 < 8,
            reg2 < 8,
            reg3 < 8,
        ensures
            match old(self)@.div_op(reg1, reg2, reg3) {
                Ok(t) => r is Ok && final(self)@ == t,
                Err(f) => r == Err::<(), Fault>(f) && final(self)@ == old(self)@,
            },
            final(self)@.wf(),
    {
        let x = self.get_register(reg2 as usize);
        let y = self.get_register(reg3 as usize);
        if y == 0 {
            return Err(Fault::DivideByZero);
        }
        self.set_register(reg1 as usize, x / y);
        Ok(())
    }

    /// NAND: `R[reg1] <- !(R[reg2] & R[reg3])`.
    pub fn nand(&mut self, reg1: u32, reg2: u32, reg3: u32)
        requires
            old(self)@.wf(),
            reg1 < 8,
            reg2 < 8,
            reg3 < 8,
        ensures
            final(self)@ == old(self)@.nand_op(reg1, reg2, reg3),
            final(self)@.wf(),
    {
        let x = self.get_register(reg2 as usize);
        let y = self.get_register(reg3 as usize);
        self.set_register(reg1 as usize, !(x & y));
    }

    /// Map segment: a new segment of `R[reg2]` zero words; its identifier
    /// goes to `R[reg1]`. A freed identifier is reused before a new one is
    /// minted.
    pub fn mapseg(&mut self, reg1: u32, reg2: u32) -> (r: Result<(), Fault>)
        requires
            old(self)@.wf(),
            reg1 < 8,
            reg2 < 8,
        ensures
            match old(self)@.map_op(reg1, reg2) {
                Ok(t) => r is Ok && final(self)@ == t,
                Err(f) => r == Err::<(), Fault>(f) && final(self)@ == old(self)@,
            },
            final(self)@.wf(),
    {
        let num_words = self.get_register(reg2 as usize);
        let segment = Segment { data: vec![0u32; num_words as usize] };
        proof {
            assert(segment@ =~= crate::state::zeros(num_words as nat));
        }
        if self.get_free_memory_len() > 0 {
            let id = self.get_from_free_memory();
            self.set_segment_from_memory_space(id, segment);
            self.set_register(reg1 as usize, id);
            self.pop_free_memory();
            proof {
                let t = old(self)@.map_op(reg1, reg2).unwrap();
                assert(self@.segs =~= t.segs);
                assert(self@.regs =~= t.regs);
                assert(self@.free =~= t.free);
                lemma_map_wf(old(self)@, num_words);
            }
            return Ok(());
        }
        if self.get_memory_space_len() as u64 >= 0x1_0000_0000u64 {
            return Err(Fault::SegmentIdsExhausted);
        }
        self.push_memory_space(segment);
        let id = (self.get_memory_space_len() - 1) as u32;
        self.set_register(reg1 as usize, id);
        proof {
            lemma_map_wf(old(self)@, num_words);
        }
        Ok(())
    }

    /// Unmap segment: frees segment `R[reg1]` and pushes its identifier on
    /// the free list. Segment 0 and unmapped identifiers fault.
    pub fn unmapseg(&mut self, reg1: u32) -> (r: Result<(), Fault>)
        requires
            old(self)@.wf(),
            reg1 < 8,
        ensures
            match old(self)@.unmap_op(reg1) {
                Ok(t) => r is Ok && final(self)@ == t,
                Err(f) => r == Err::<(), Fault>(f) && final(self)@ == old(self)@,
            },
            final(self)@.wf(),
    {
        let id = self.get_register(reg1 as usize);
        if id == 0 {
            return Err(Fault::UnmapCodeSegment);
        }
        if !self.is_mapped(id) {
            return Err(Fault::UnmappedSegment);
        }
        self.release_segment(id);
        proof {
            lemma_unmap_wf(old(self)@, id);
        }
        Ok(())
    }

    /// Output: the low byte of `R[reg1]`, to be written out.
    pub fn output(&self, reg1: u32) -> (r: u8)
        requires
            self@.wf(),
            reg1 < 8,
        ensures
            r == self@.output_byte(reg1),
    {
        (self.get_register(reg1 as usize) % 256) as u8
    }

    /// Input: `R[reg1]` takes the byte read, or all ones when the input has
    /// ended (`None`).
    pub fn input(&mut self, reg1: u32, byte: Option<u8>)
        requires
            old(self)@.wf(),
            reg1 < 8,
        ensures
            final(self)@ == old(self)@.input_op(reg1, byte),
            final(self)@.wf(),
    {
        let v = match byte {
            Some(x) => x as u32,
            None => 0xFFFF_FFFFu32,
        };
        self.set_register(reg1 as usize, v);
    }

    /// Load program: if `R[reg1] != 0`, segment 0 becomes a copy of segment
    /// `R[reg1]`, which stays as it is; then `PC <- R[reg2]`.
    pub fn loadprog(&mut self, reg1: u32, reg2: u32) -> (r: Result<(), Fault>)
        requires
            old(self)@.wf(),
            reg1 < 8,
            reg2 < 8,
        ensures
            match old(self)@.loadprog_op(reg1, reg2) {
                Ok(t) => r is Ok && final(self)@ == t,
                Err(f) => r == Err::<(), Fault>(f) && final(self)@ == old(self)@,
            },
            final(self)@.wf(),
    {
        let id = self.get_register(reg1 as usize);
        let target = self.get_register(reg2 as usize);
        if id != 0 {
            let segment = self.get_segment_from_memory_space(id)?;
            self.set_segment_from_memory_space(0, segment);
        }
        self.set_program_counter(target);
        proof {
            if id != 0 {
                let t = old(self)@.loadprog_op(reg1, reg2).unwrap();
                assert(self@.segs =~= t.segs);
                assert forall|i: int|
                    0 <= i < self@.segs.len() && #[trigger] self@.segs[i] is None implies self@.free.contains(
                    i as u32,
                ) by {
                    assert(old(self)@.segs[i] is None);
                }
            }
        }
        Ok(())
    }

    /// Load value: `R[reg1] <- value`.
    pub fn loadval(&mut self, reg1: u32, value: u32)
        requires
            old(self)@.wf(),
            reg1 < 8,
        ensures
            final(self)@ == old(self)@.loadval_op(reg1, value),
            final(self)@.wf(),
    {
        self.set_register(reg1 as usize, value);
    }
}

} // verus!
