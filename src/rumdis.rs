//! Instruction decoding and dispatch.
use vstd::prelude::*;
use vstd::arithmetic::power2::pow2;
use vstd::bits::{
    low_bits_mask, lemma_u32_low_bits_mask_is_mod, lemma_u32_pow2_no_overflow,
    lemma_u32_shl_is_mul, lemma_u32_shr_is_div,
};
use crate::state::{Action, Fault, MachineState, bits, continuing, word_add};
use crate::universal_machine::UniversalMachine;
use crate::laws::lemma_register_field_in_range;

verus! {

/// The fourteen operations, in the order of their codes 0 to 13.
#[derive(Debug, PartialEq, Eq, Copy, Clone, Structural)]
pub enum Opcode {
    CMov,
    Load,
    Store,
    Add,
    Mul,
    Div,
    Nand,
    Halt,
    MapSeg,
    UnmapSeg,
    Out,
    In,
    LoadProg,
    LoadVal,
}

/// A bit field of an instruction word: `width` bits starting at bit `lsb`.
pub struct Field {
    width: u32,
    lsb: u32,
}

pub const REG_WIDTH: u32 = 3;

pub const RA_LSB: u32 = 6;

pub const RB_LSB: u32 = 3;

pub const RC_LSB: u32 = 0;

pub const RL_LSB: u32 = 25;

pub const VL_WIDTH: u32 = 25;

pub const OP_WIDTH: u32 = 4;

pub const OP_LSB: u32 = 28;

impl Field {
    pub closed spec fn width_spec(&self) -> u32 {
        self.width
    }

    pub closed spec fn lsb_spec(&self) -> u32 {
        self.lsb
    }

    pub fn new(width: u32, lsb: u32) -> (r: Field)
        requires
            width < 32,
            lsb < 32,
        ensures
            r.width_spec() == width,
            r.lsb_spec() == lsb,
    {
        Field { width, lsb }
    }
}

/// The operation with code `n`, if there is one.
pub open spec fn opcode_of(n: u32) -> Option<Opcode> {
    if n == 0 {
        Some(Opcode::CMov)
    } else if n == 1 {
        Some(Opcode::Load)
    } else if n == 2 {
        Some(Opcode::Store)
    } else if n == 3 {
        Some(Opcode::Add)
    } else if n == 4 {
        Some(Opcode::Mul)
    } else if n == 5 {
        Some(Opcode::Div)
    } else if n == 6 {
        Some(Opcode::Nand)
    } else if n == 7 {
        Some(Opcode::Halt)
    } else if n == 8 {
        Some(Opcode::MapSeg)
    } else if n == 9 {
        Some(Opcode::UnmapSeg)
    } else if n == 10 {
        Some(Opcode::Out)
    } else if n == 11 {
        Some(Opcode::In)
    } else if n == 12 {
        Some(Opcode::LoadProg)
    } else if n == 13 {
        Some(Opcode::LoadVal)
    } else {
        None
    }
}

/// The effect of instruction `word` on a machine whose program counter has
/// already been advanced past it.
pub open spec fn dispatch(s: MachineState, word: u32) -> Result<(MachineState, Action), Fault> {
    let a = bits(word, RA_LSB, REG_WIDTH);
    let b = bits(word, RB_LSB, REG_WIDTH);
    let c = bits(word, RC_LSB, REG_WIDTH);
    match opcode_of(bits(word, OP_LSB, OP_WIDTH)) {
        None => Err(Fault::InvalidOpcode),
        Some(op) => match op {
            Opcode::CMov => Ok((s.cmov_op(a, b, c), Action::Continue)),
            Opcode::Load => continuing(s.load_op(a, b, c)),
            Opcode::Store => continuing(s.store_op(a, b, c)),
            Opcode::Add => Ok((s.add_op(a, b, c), Action::Continue)),
            Opcode::Mul => Ok((s.mul_op(a, b, c), Action::Continue)),
            Opcode::Div => continuing(s.div_op(a, b, c)),
            Opcode::Nand => Ok((s.nand_op(a, b, c), Action::Continue)),
            Opcode::Halt => Ok((s, Action::Halt)),
            Opcode::MapSeg => continuing(s.map_op(b, c)),
            Opcode::UnmapSeg => continuing(s.unmap_op(c)),
            Opcode::Out => Ok((s, Action::Output(s.output_byte(c)))),
            Opcode::In => Ok((s, Action::Input(c))),
            Opcode::LoadProg => continuing(s.loadprog_op(b, c)),
            Opcode::LoadVal => Ok(
                (s.loadval_op(bits(word, RL_LSB, REG_WIDTH), bits(word, 0, VL_WIDTH)), Action::Continue),
            ),
        },
    }
}

/// One instruction: the program counter advances by one, then `word` takes
/// effect. A faulting instruction leaves only the advanced counter behind.
pub open spec fn execute(s: MachineState, word: u32) -> (MachineState, Result<Action, Fault>) {
    let t = s.with_pc(word_add(s.pc, 1));
    match dispatch(t, word) {
        Ok((u, a)) => (u, Ok(a)),
        Err(f) => (t, Err(f)),
    }
}

/// At most `fuel` fetch-execute cycles, stopping at the first instruction
/// that faults or asks for something other than `Continue`.
pub open spec fn run_steps(s: MachineState, fuel: nat) -> (MachineState, Result<Action, Fault>)
    decreases fuel,
{
    if fuel == 0 {
        (s, Ok(Action::Continue))
    } else {
        match s.fetch() {
            Err(f) => (s, Err(f)),
            Ok(word) => {
                let (t, r) = execute(s, word);
                if r == Ok::<Action, Fault>(Action::Continue) {
                    run_steps(t, (fuel - 1) as nat)
                } else {
                    (t, r)
                }
            },
        }
    }
}

/// The low `bits` bits set.
fn mask(bits: u32) -> (r: u32)
    requires
        bits < 32,
    ensures
        r == low_bits_mask(bits as nat),
{
    proof {
        lemma_u32_pow2_no_overflow(bits as nat);
        lemma_u32_shl_is_mul(1, bits);
    }
    (1u32 << bits) - 1
}

/// The value of `field` in `instruction`.
pub fn get(field: &Field, instruction: u32) -> (r: u32)
    requires
        field.width_spec() < 32,
        field.lsb_spec() < 32,
    ensures
        r == bits(instruction, field.lsb_spec(), field.width_spec()),
        r < pow2(field.width_spec() as nat),
{
    let shifted = instruction >> field.lsb;
    let m = mask(field.width);
    proof {
        lemma_u32_shr_is_div(instruction, field.lsb);
        lemma_u32_low_bits_mask_is_mod(shifted, field.width as nat);
        lemma_u32_pow2_no_overflow(field.width as nat);
    }
    shifted & m
}

/// The operation that `instruction` names, if any.
fn op(instruction: u32) -> (r: Option<Opcode>)
    ensures
        r == opcode_of(bits(instruction, OP_LSB, OP_WIDTH)),
{
    let n = get(&Field::new(OP_WIDTH, OP_LSB), instruction);
    match n {
        0 => Some(Opcode::CMov),
        1 => Some(Opcode::Load),
        2 => Some(Opcode::Store),
        3 => Some(Opcode::Add),
        4 => Some(Opcode::Mul),
        5 => Some(Opcode::Div),
        6 => Some(Opcode::Nand),
        7 => Some(Opcode::Halt),
        8 => Some(Opcode::MapSeg),
        9 => Some(Opcode::UnmapSeg),
        10 => Some(Opcode::Out),
        11 => Some(Opcode::In),
        12 => Some(Opcode::LoadProg),
        13 => Some(Opcode::LoadVal),
        _ => None,
    }
}

/// Advances the program counter, then decodes and performs `inst`. OUT,
/// IN and HALT are handed back as an [`Action`] for the caller to carry
/// out; a fault is handed back as an error.
pub fn disassemble(inst: u32, um: &mut UniversalMachine) -> (r: Result<Action, Fault>)
    requires
        old(um)@.wf(),
    ensures
        (final(um)@, r) == execute(old(um)@, inst),
        final(um)@.wf(),
{
    um.increment_counter();
    let ra = get(&Field::new(REG_WIDTH, RA_LSB), inst);
    let rb = get(&Field::new(REG_WIDTH, RB_LSB), inst);
    let rc = get(&Field::new(REG_WIDTH, RC_LSB), inst);
    proof {
        lemma_register_field_in_range(inst, RA_LSB);
        lemma_register_field_in_range(inst, RB_LSB);
        lemma_register_field_in_range(inst, RC_LSB);
        lemma_register_field_in_range(inst, RL_LSB);
    }
    match op(inst) {
        Some(Opcode::CMov) => {
            um.cmov(rc, ra, rb);
            Ok(Action::Continue)
        },
        Some(Opcode::Load) => {
            um.load(ra, rb, rc)?;
            Ok(Action::Continue)
        },
        Some(Opcode::Store) => {
            um.store(ra, rb, rc)?;
            Ok(Action::Continue)
        },
        Some(Opcode::Add) => {
            um.add(ra, rb, rc);
            Ok(Action::Continue)
        },
        Some(Opcode::Mul) => {
            um.mul(ra, rb, rc);
            Ok(Action::Continue)
        },
        Some(Opcode::Div) => {
            um.div(ra, rb, rc)?;
            Ok(Action::Continue)
        },
        Some(Opcode::Nand) => {
            um.nand(ra, rb, rc);
            Ok(Action::Continue)
        },
        Some(Opcode::Halt) => Ok(Action::Halt),
        Some(Opcode::MapSeg) => {
            um.mapseg(rb, rc)?;
            Ok(Action::Continue)
        },
        Some(Opcode::UnmapSeg) => {
            um.unmapseg(rc)?;
            Ok(Action::Continue)
        },
        Some(Opcode::Out) => Ok(Action::Output(um.output(rc))),
        Some(Opcode::In) => Ok(Action::Input(rc)),
        Some(Opcode::LoadProg) => {
            um.loadprog(rb, rc)?;
            Ok(Action::Continue)
        },
        Some(Opcode::LoadVal) => {
            let rl = get(&Field::new(REG_WIDTH, RL_LSB), inst);
            let value = get(&Field::new(VL_WIDTH, RC_LSB), inst);
            um.loadval(rl, value);
            Ok(Action::Continue)
        },
        None => Err(Fault::InvalidOpcode),
    }
}

} // verus!
