//! The mathematical model of the machine and the meaning of each operation.
use vstd::prelude::*;
use vstd::arithmetic::power2::pow2;

verus! {

/// Why the machine stopped with a failure. Every fault ends execution.
#[derive(Clone, Copy, Debug, PartialEq, Eq, Structural)]
pub enum Fault {
    /// The opcode bits of an instruction were 14 or 15.
    InvalidOpcode,
    /// A division had a zero divisor.
    DivideByZero,
    /// A segment identifier named no mapped segment.
    UnmappedSegment,
    /// An offset lay beyond the end of a mapped segment.
    OffsetOutOfBounds,
    /// An attempt was made to unmap the code segment.
    UnmapCodeSegment,
    /// Every 32-bit segment identifier is in use.
    SegmentIdsExhausted,
    /// The program counter lay beyond the end of the code segment.
    FetchOutOfBounds,
    /// A program image's length was not a multiple of four bytes.
    MalformedProgram,
}

/// What the machine needs from its surroundings after an instruction.
#[derive(Clone, Copy, Debug, PartialEq, Eq, Structural)]
pub enum Action {
    /// Nothing: the next instruction may run.
    Continue,
    /// The program halted successfully.
    Halt,
    /// This byte is to be written to the output stream.
    Output(u8),
    /// A byte is to be read from the input stream into this register
    /// (see `UniversalMachine::input`).
    Input(u32),
}

/// The abstract state of a machine.
pub struct MachineState {
    /// The register file.
    pub regs: Seq<u32>,
    /// The program counter, an offset into segment 0.
    pub pc: u32,
    /// The segment store, indexed by segment identifier; `None` marks an
    /// unmapped identifier.
    pub segs: Seq<Option<Seq<u32>>>,
    /// Unmapped identifiers awaiting reuse; the last element is the top.
    pub free: Seq<u32>,
}

/// Addition of words, modulo 2^32.
pub open spec fn word_add(x: u32, y: u32) -> u32 {
    ((x + y) % 0x1_0000_0000) as u32
}

/// Multiplication of words, modulo 2^32.
pub open spec fn word_mul(x: u32, y: u32) -> u32 {
    ((x * y) % 0x1_0000_0000) as u32
}

/// Bitwise NOT of the bitwise AND of two words.
pub open spec fn word_nand(x: u32, y: u32) -> u32 {
    !(x & y)
}

/// A segment of `n` zero words.
pub open spec fn zeros(n: nat) -> Seq<u32> {
    Seq::new(n, |i: int| 0u32)
}

/// The value of the bits `lsb .. lsb + width` of `word`, as a number.
pub open spec fn bits(word: u32, lsb: u32, width: u32) -> u32 {
    ((word as nat / pow2(lsb as nat)) % pow2(width as nat)) as u32
}

/// The state of a machine just built on `program`.
pub open spec fn initial(program: Seq<u32>) -> MachineState {
    MachineState {
        regs: Seq::new(8, |i: int| 0u32),
        pc: 0,
        segs: seq![Some(program)],
        free: Seq::empty(),
    }
}

/// Lifts the result of an operation that yields no action.
pub open spec fn continuing(r: Result<MachineState, Fault>) -> Result<(MachineState, Action), Fault> {
    match r {
        Ok(t) => Ok((t, Action::Continue)),
        Err(f) => Err(f),
    }
}

impl MachineState {
    /// The well-formed states: eight registers, a mapped code segment, and a
    /// free list that holds exactly the unmapped identifiers, each once.
    pub open spec fn wf(self) -> bool {
        &&& self.regs.len() == 8
        &&& 1 <= self.segs.len() <= 0x1_0000_0000
        &&& self.segs[0] is Some
        &&& self.free.no_duplicates()
        &&& forall|k: int|
            0 <= k < self.free.len() ==> {
                &&& 0 < #[trigger] self.free[k] < self.segs.len()
                &&& self.segs[self.free[k] as int] is None
            }
        &&& forall|i: int|
            0 <= i < self.segs.len() && #[trigger] self.segs[i] is None ==> self.free.contains(
                i as u32,
            )
    }

    pub open spec fn reg(self, i: int) -> u32 {
        self.regs[i]
    }

    pub open spec fn with_reg(self, i: int, v: u32) -> MachineState {
        MachineState { regs: self.regs.update(i, v), ..self }
    }

    pub open spec fn with_pc(self, pc: u32) -> MachineState {
        MachineState { pc: pc, ..self }
    }

    pub open spec fn is_mapped(self, id: u32) -> bool {
        &&& (id as int) < self.segs.len()
        &&& self.segs[id as int] is Some
    }

    /// The contents of a mapped segment.
    pub open spec fn segment(self, id: u32) -> Seq<u32> {
        self.segs[id as int].unwrap()
    }

    pub open spec fn read(self, id: u32, offset: u32) -> Result<u32, Fault> {
        if !self.is_mapped(id) {
            Err(Fault::UnmappedSegment)
        } else if offset >= self.segment(id).len() {
            Err(Fault::OffsetOutOfBounds)
        } else {
            Ok(self.segment(id)[offset as int])
        }
    }

    pub open spec fn write(self, id: u32, offset: u32, value: u32) -> Result<MachineState, Fault> {
        if !self.is_mapped(id) {
            Err(Fault::UnmappedSegment)
        } else if offset >= self.segment(id).len() {
            Err(Fault::OffsetOutOfBounds)
        } else {
            Ok(
                MachineState {
                    segs: self.segs.update(
                        id as int,
                        Some(self.segment(id).update(offset as int, value)),
                    ),
                    ..self
                },
            )
        }
    }

    /// Maps a fresh segment of `n` zero words: the identifier on top of the
    /// free list if there is one, else the next identifier never used.
    pub open spec fn map(self, n: u32) -> Result<(MachineState, u32), Fault> {
        if self.free.len() > 0 {
            let id = self.free.last();
            Ok(
                (
                    MachineState {
                        segs: self.segs.update(id as int, Some(zeros(n as nat))),
                        free: self.free.drop_last(),
                        ..self
                    },
                    id,
                ),
            )
        } else if self.segs.len() < 0x1_0000_0000 {
            Ok(
                (
                    MachineState { segs: self.segs.push(Some(zeros(n as nat))), ..self },
                    self.segs.len() as u32,
                ),
            )
        } else {
            Err(Fault::SegmentIdsExhausted)
        }
    }

    pub open spec fn unmap(self, id: u32) -> Result<MachineState, Fault> {
        if id == 0 {
            Err(Fault::UnmapCodeSegment)
        } else if !self.is_mapped(id) {
            Err(Fault::UnmappedSegment)
        } else {
            Ok(MachineState { segs: self.segs.update(id as int, None), free: self.free.push(id), ..self })
        }
    }

    /// Replaces the code segment by a copy of segment `id`.
    pub open spec fn replace_zero(self, id: u32) -> Result<MachineState, Fault> {
        if !self.is_mapped(id) {
            Err(Fault::UnmappedSegment)
        } else {
            Ok(MachineState { segs: self.segs.update(0, Some(self.segment(id))), ..self })
        }
    }

    /// The instruction word at the program counter.
    pub open spec fn fetch(self) -> Result<u32, Fault> {
        match self.read(0, self.pc) {
            Ok(w) => Ok(w),
            Err(_) => Err(Fault::FetchOutOfBounds),
        }
    }

    /// If `R[c] != 0` then `R[a] <- R[b]`.
    pub open spec fn cmov_op(self, a: u32, b: u32, c: u32) -> MachineState {
        if self.reg(c as int) != 0 {
            self.with_reg(a as int, self.reg(b as int))
        } else {
            self
        }
    }

    /// `R[a] <- segment[R[b]][R[c]]`.
    pub open spec fn load_op(self, a: u32, b: u32, c: u32) -> Result<MachineState, Fault> {
        match self.read(self.reg(b as int), self.reg(c as int)) {
            Ok(w) => Ok(self.with_reg(a as int, w)),
            Err(f) => Err(f),
        }
    }

    /// `segment[R[a]][R[b]] <- R[c]`.
    pub open spec fn store_op(self, a: u32, b: u32, c: u32) -> Result<MachineState, Fault> {
        self.write(self.reg(a as int), self.reg(b as int), self.reg(c as int))
    }

    pub open spec fn add_op(self, a: u32, b: u32, c: u32) -> MachineState {
        self.with_reg(a as int, word_add(self.reg(b as int), self.reg(c as int)))
    }

    pub open spec fn mul_op(self, a: u32, b: u32, c: u32) -> MachineState {
        self.with_reg(a as int, word_mul(self.reg(b as int), self.reg(c as int)))
    }

    pub open spec fn div_op(self, a: u32, b: u32, c: u32) -> Result<MachineState, Fault> {
        if self.reg(c as int) == 0 {
            Err(Fault::DivideByZero)
        } else {
            Ok(self.with_reg(a as int, (self.reg(b as int) / self.reg(c as int)) as u32))
        }
    }

    pub open spec fn nand_op(self, a: u32, b: u32, c: u32) -> MachineState {
        self.with_reg(a as int, word_nand(self.reg(b as int), self.reg(c as int)))
    }

    /// `R[b] <- map(R[c])`.
    pub open spec fn map_op(self, b: u32, c: u32) -> Result<MachineState, Fault> {
        match self.map(self.reg(c as int)) {
            Ok((t, id)) => Ok(t.with_reg(b as int, id)),
            Err(f) => Err(f),
        }
    }

    /// `unmap(R[c])`.
    pub open spec fn unmap_op(self, c: u32) -> Result<MachineState, Fault> {
        self.unmap(self.reg(c as int))
    }

    /// The byte that OUT emits: the low byte of `R[c]`.
    pub open spec fn output_byte(self, c: u32) -> u8 {
        (self.reg(c as int) % 256) as u8
    }

    /// `R[c]` takes the byte read, or all ones at the end of the input.
    pub open spec fn input_op(self, c: u32, byte: Option<u8>) -> MachineState {
        self.with_reg(
            c as int,
            match byte {
                Some(x) => x as u32,
                None => 0xFFFF_FFFFu32,
            },
        )
    }

    /// If `R[b] != 0`, segment 0 becomes a copy of segment `R[b]`; then
    /// `PC <- R[c]`.
    pub open spec fn loadprog_op(self, b: u32, c: u32) -> Result<MachineState, Fault> {
        if self.reg(b as int) == 0 {
            Ok(self.with_pc(self.reg(c as int)))
        } else {
            match self.replace_zero(self.reg(b as int)) {
                Ok(t) => Ok(t.with_pc(self.reg(c as int))),
                Err(f) => Err(f),
            }
        }
    }

    pub open spec fn loadval_op(self, a: u32, value: u32) -> MachineState {
        self.with_reg(a as int, value)
    }
}

} // verus!
