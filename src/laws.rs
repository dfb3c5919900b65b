//! Properties of the machine model, proved for every state and input.
use vstd::prelude::*;
use vstd::arithmetic::div_mod::{lemma_add_mod_noop, lemma_mul_mod_noop_left, lemma_mul_mod_noop_right};
use vstd::arithmetic::mul::lemma_mul_is_associative;
use crate::state::{Fault, MachineState, bits, word_add, word_mul, word_nand};
use crate::rumdis::{execute, run_steps};

verus! {

/// Mapping a segment keeps the store well formed, and the identifier it
/// hands out names a mapped segment that is not on the free list.
pub proof fn lemma_map_wf(s: MachineState, n: u32)
    requires
        s.wf(),
    ensures
        s.map(n) matches Ok((t, id)) ==> {
            &&& t.wf()
            &&& t.is_mapped(id)
            &&& !t.free.contains(id)
        },
{
    if s.free.len() > 0 {
        let id = s.free.last();
        let last = s.free.len() - 1;
        let t = s.map(n).unwrap().0;
        assert(t.free =~= s.free.subrange(0, last));
        assert forall|k: int| 0 <= k < t.free.len() implies {
            &&& 0 < #[trigger] t.free[k] < t.segs.len()
            &&& t.segs[t.free[k] as int] is None
        } by {
            assert(s.free[k] != s.free[last]);
        }
        assert forall|i: int|
            0 <= i < t.segs.len() && #[trigger] t.segs[i] is None implies t.free.contains(
            i as u32,
        ) by {
            assert(s.segs[i] is None);
            assert(s.free.contains(i as u32));
            let k = choose|k: int| 0 <= k < s.free.len() && s.free[k] == i as u32;
            assert(k != last);
            assert(t.free[k] == i as u32);
        }
        assert(!t.free.contains(id)) by {
            if t.free.contains(id) {
                let k = choose|k: int| 0 <= k < t.free.len() && t.free[k] == id;
                assert(s.free[k] == s.free[last]);
            }
        }
    } else if s.segs.len() < 0x1_0000_0000 {
        let t = s.map(n).unwrap().0;
        assert forall|i: int|
            0 <= i < t.segs.len() && #[trigger] t.segs[i] is None implies t.free.contains(
            i as u32,
        ) by {
            if i < s.segs.len() {
                assert(s.segs[i] is None);
                assert(s.free.contains(i as u32));
            }
        }
    }
}

/// Unmapping a segment keeps the store well formed, and puts its identifier
/// on top of the free list.
pub proof fn lemma_unmap_wf(s: MachineState, id: u32)
    requires
        s.wf(),
    ensures
        s.unmap(id) matches Ok(t) ==> {
            &&& t.wf()
            &&& !t.is_mapped(id)
            &&& t.free.last() == id
        },
{
    if s.unmap(id) is Ok {
        let t = s.unmap(id).unwrap();
        assert(!s.free.contains(id)) by {
            if s.free.contains(id) {
                let k = choose|k: int| 0 <= k < s.free.len() && s.free[k] == id;
                assert(s.segs[s.free[k] as int] is None);
            }
        }
        assert forall|k: int| 0 <= k < t.free.len() implies {
            &&& 0 < #[trigger] t.free[k] < t.segs.len()
            &&& t.segs[t.free[k] as int] is None
        } by {
            if k < s.free.len() {
                assert(t.free[k] == s.free[k]);
                assert(s.free[k] != id);
            }
        }
        assert forall|i: int|
            0 <= i < t.segs.len() && #[trigger] t.segs[i] is None implies t.free.contains(
            i as u32,
        ) by {
            if i == id as int {
                assert(t.free[s.free.len() as int] == id);
            } else {
                assert(s.segs[i] is None);
                let k = choose|k: int| 0 <= k < s.free.len() && s.free[k] == i as u32;
                assert(t.free[k] == i as u32);
            }
        }
    }
}

/// Every register field of an instruction word, three bits wide, names one
/// of the eight registers.
pub proof fn lemma_register_field_in_range(word: u32, lsb: u32)
    ensures
        bits(word, lsb, 3) < 8,
{
    vstd::arithmetic::power2::lemma2_to64();
    vstd::arithmetic::power2::lemma_pow2_pos(lsb as nat);
}

/// The free list holds distinct identifiers, none of them mapped.
pub proof fn lemma_free_ids_unmapped(s: MachineState)
    requires
        s.wf(),
    ensures
        s.free.no_duplicates(),
        forall|id: u32| s.free.contains(id) ==> !s.is_mapped(id),
{
    assert forall|id: u32| s.free.contains(id) implies !s.is_mapped(id) by {
        let k = choose|k: int| 0 <= k < s.free.len() && s.free[k] == id;
        assert(s.segs[s.free[k] as int] is None);
    }
}

/// One operation on the segment store.
pub enum StoreOp {
    MapSegment(u32),
    UnmapSegment(u32),
}

/// The store after `ops`, performed in order, or the first fault.
pub open spec fn apply_store_ops(s: MachineState, ops: Seq<StoreOp>) -> Result<MachineState, Fault>
    decreases ops.len(),
{
    if ops.len() == 0 {
        Ok(s)
    } else {
        let r = match ops[0] {
            StoreOp::MapSegment(n) => match s.map(n) {
                Ok((t, _)) => Ok(t),
                Err(f) => Err(f),
            },
            StoreOp::UnmapSegment(id) => s.unmap(id),
        };
        match r {
            Ok(t) => apply_store_ops(t, ops.drop_first()),
            Err(f) => Err(f),
        }
    }
}

/// After any sequence of maps and unmaps the store is well formed: the free
/// list holds distinct identifiers and none of them names a mapped segment.
pub proof fn lemma_store_ops_keep_ids_apart(s: MachineState, ops: Seq<StoreOp>)
    requires
        s.wf(),
    ensures
        apply_store_ops(s, ops) matches Ok(t) ==> {
            &&& t.wf()
            &&& t.free.no_duplicates()
            &&& forall|id: u32| t.free.contains(id) ==> !t.is_mapped(id)
        },
    decreases ops.len(),
{
    if ops.len() == 0 {
        lemma_free_ids_unmapped(s);
    } else {
        match ops[0] {
            StoreOp::MapSegment(n) => {
                lemma_map_wf(s, n);
                if let Ok((t, _)) = s.map(n) {
                    lemma_store_ops_keep_ids_apart(t, ops.drop_first());
                }
            },
            StoreOp::UnmapSegment(id) => {
                lemma_unmap_wf(s, id);
                if let Ok(t) = s.unmap(id) {
                    lemma_store_ops_keep_ids_apart(t, ops.drop_first());
                }
            },
        }
    }
}

/// A segment fresh from `map(n)` reads as zero at every offset below `n`.
pub proof fn lemma_map_reads_zero(s: MachineState, n: u32)
    requires
        s.wf(),
    ensures
        s.map(n) matches Ok((t, id)) ==> forall|off: u32| off < n ==> t.read(id, off) == Ok::<u32, Fault>(0),
{
    lemma_map_wf(s, n);
}

/// `map` followed by `unmap` of the identifier it gave puts that identifier
/// back on top of the free list (restoring the list itself when it was not
/// empty), and the next `map`, of any size, hands it out again.
pub proof fn lemma_map_unmap_reuses_id(s: MachineState, n: u32, m: u32)
    requires
        s.wf(),
    ensures
        s.map(n) matches Ok((t, id)) ==> {
            &&& t.unmap(id) matches Ok(u) && {
                &&& u.free.last() == id
                &&& s.free.len() > 0 ==> u.free == s.free
                &&& u.map(m) matches Ok((_, again)) && again == id
            }
        },
{
    lemma_map_wf(s, n);
    if let Ok((t, id)) = s.map(n) {
        if s.free.len() > 0 {
            assert(s.free.drop_last().push(id) =~= s.free);
        }
    }
}

/// Addition of words is associative.
pub proof fn lemma_word_add_assoc(x: u32, y: u32, z: u32)
    ensures
        word_add(word_add(x, y), z) == word_add(x, word_add(y, z)),
{
    let m: int = 0x1_0000_0000;
    lemma_add_mod_noop(x + y, z as int, m);
    lemma_add_mod_noop(x as int, y + z, m);
    assert(((x + y) % m + (z as int) % m) % m == (x + y + z) % m);
    assert(((x as int) % m + (y + z) % m) % m == (x + y + z) % m);
}

/// Multiplication of words is associative.
pub proof fn lemma_word_mul_assoc(x: u32, y: u32, z: u32)
    ensures
        word_mul(word_mul(x, y), z) == word_mul(x, word_mul(y, z)),
{
    let m: int = 0x1_0000_0000;
    lemma_mul_mod_noop_left(x * y, z as int, m);
    lemma_mul_mod_noop_right(x as int, y * z, m);
    lemma_mul_is_associative(x as int, y as int, z as int);
}

/// NAND of a word with itself is its bitwise NOT.
pub proof fn lemma_nand_self(x: u32)
    ensures
        word_nand(x, x) == !x,
{
    assert(!(x & x) == !x) by (bit_vector);
}

/// LOADP with a zero source register leaves every segment as it was and
/// sets only the program counter.
pub proof fn lemma_loadprog_from_zero(s: MachineState, b: u32, c: u32)
    requires
        s.wf(),
        b < 8,
        c < 8,
        s.reg(b as int) == 0,
    ensures
        s.loadprog_op(b, c) == Ok::<MachineState, Fault>(s.with_pc(s.reg(c as int))),
{
}

/// LOADP from a mapped segment makes segment 0 equal to it, and a later
/// write to the source leaves segment 0 as it was.
pub proof fn lemma_loadprog_copies(s: MachineState, b: u32, c: u32, offset: u32, value: u32)
    requires
        s.wf(),
        b < 8,
        c < 8,
        s.reg(b as int) != 0,
    ensures
        s.loadprog_op(b, c) matches Ok(t) ==> {
            &&& t.segment(0) == t.segment(s.reg(b as int))
            &&& t.pc == s.reg(c as int)
            &&& t.write(s.reg(b as int), offset, value) matches Ok(u) ==> u.segment(0) == t.segment(0)
        },
{
}

/// One instruction, whatever it is, keeps a well-formed machine well
/// formed: in particular the register file keeps its eight registers.
pub proof fn lemma_execute_wf(s: MachineState, word: u32)
    requires
        s.wf(),
    ensures
        execute(s, word).0.wf(),
        execute(s, word).0.regs.len() == 8,
{
    let t = s.with_pc(word_add(s.pc, 1));
    let a = bits(word, 6, 3);
    let b = bits(word, 3, 3);
    let c = bits(word, 0, 3);
    lemma_register_field_in_range(word, 6);
    lemma_register_field_in_range(word, 3);
    lemma_register_field_in_range(word, 0);
    lemma_register_field_in_range(word, 25);
    lemma_map_wf(t, t.reg(c as int));
    lemma_unmap_wf(t, t.reg(c as int));
    let id = t.reg(a as int);
    if let Ok(u) = t.write(id, t.reg(b as int), t.reg(c as int)) {
        assert forall|i: int| 0 <= i < u.segs.len() && #[trigger] u.segs[i] is None implies u.free.contains(
            i as u32,
        ) by {
            assert(t.segs[i] is None);
        }
    }
    if let Ok(u) = t.replace_zero(t.reg(b as int)) {
        assert forall|i: int| 0 <= i < u.segs.len() && #[trigger] u.segs[i] is None implies u.free.contains(
            i as u32,
        ) by {
            assert(t.segs[i] is None);
        }
    }
}

/// Every state that running a well-formed machine reaches is well formed.
pub proof fn lemma_run_wf(s: MachineState, fuel: nat)
    requires
        s.wf(),
    ensures
        run_steps(s, fuel).0.wf(),
    decreases fuel,
{
    if fuel > 0 {
        if let Ok(word) = s.fetch() {
            lemma_execute_wf(s, word);
            lemma_run_wf(execute(s, word).0, (fuel - 1) as nat);
        }
    }
}

} // verus!
