use rum::rumdis::{disassemble, get, Field};
use rum::state::{Action, Fault};
use rum::universal_machine::{Segment, UniversalMachine};

fn machine() -> UniversalMachine {
    UniversalMachine::new(vec![0x7000_0000])
}

#[test]
fn fresh_machine() {
    let um = machine();
    for i in 0..8 {
        assert_eq!(um.get_register(i), 0);
    }
    assert_eq!(um.get_free_memory_len(), 0);
    assert_eq!(um.peek_free_memory(), None);
    assert_eq!(um.get_val_from_memory_space(0, 0), Ok(0x7000_0000));
}

#[test]
fn field_extraction() {
    assert_eq!(get(&Field::new(4, 28), 0x300000CA), 3);
    assert_eq!(get(&Field::new(3, 6), 0x300000CA), 3);
    assert_eq!(get(&Field::new(3, 3), 0x300000CA), 1);
    assert_eq!(get(&Field::new(3, 0), 0x300000CA), 2);
    assert_eq!(get(&Field::new(3, 25), 0xD6000041), 3);
    assert_eq!(get(&Field::new(25, 0), 0xD6000041), 65);
    assert_eq!(get(&Field::new(25, 0), 0xDFFF_FFFF), 0x1FF_FFFF);
    assert!(get(&Field::new(3, 6), 0xFFFF_FFFF) < 8);
}

#[test]
fn conditional_move() {
    let mut um = machine();
    um.loadval(1, 42);
    um.cmov(2, 0, 1); // R2 == 0: nothing
    assert_eq!(um.get_register(0), 0);
    um.loadval(2, 1);
    um.cmov(2, 0, 1); // R2 != 0: R0 <- R1
    assert_eq!(um.get_register(0), 42);
}

#[test]
fn arithmetic_wraps() {
    let mut um = machine();
    um.loadval(1, 0x1FF_FFFF);
    um.loadval(2, 0x80);
    um.mul(3, 1, 2);
    assert_eq!(um.get_register(3), 0xFFFF_FF80);
    um.add(4, 3, 2);
    assert_eq!(um.get_register(4), 0);
    um.loadval(5, 0x1_0000);
    um.mul(6, 5, 5);
    assert_eq!(um.get_register(6), 0);
}

#[test]
fn add_and_mul_are_associative() {
    let xs: [u32; 4] = [0xFFFF_FFFF, 0x8000_0001, 12345, 0x1FF_FFFF];
    for &x in &xs {
        for &y in &xs {
            for &z in &xs {
                let mut um = machine();
                um.set_register(1, x);
                um.set_register(2, y);
                um.set_register(3, z);
                um.add(4, 1, 2);
                um.add(4, 4, 3);
                um.add(5, 2, 3);
                um.add(5, 1, 5);
                assert_eq!(um.get_register(4), um.get_register(5));
                um.mul(4, 1, 2);
                um.mul(4, 4, 3);
                um.mul(5, 2, 3);
                um.mul(5, 1, 5);
                assert_eq!(um.get_register(4), um.get_register(5));
            }
        }
    }
}

#[test]
fn nand_of_a_word_with_itself_is_not() {
    let mut um = machine();
    for &x in &[0u32, 1, 0xDEAD_BEEF, 0xFFFF_FFFF] {
        um.set_register(1, x);
        um.nand(2, 1, 1);
        assert_eq!(um.get_register(2), !x);
    }
    um.set_register(1, 0xF0F0_F0F0);
    um.set_register(2, 0xFF00_FF00);
    um.nand(3, 1, 2);
    assert_eq!(um.get_register(3), 0x0FFF_0FFF);
}

#[test]
fn division() {
    let mut um = machine();
    um.loadval(1, 7);
    um.loadval(2, 2);
    assert_eq!(um.div(3, 1, 2), Ok(()));
    assert_eq!(um.get_register(3), 3);
    assert_eq!(um.div(3, 1, 0), Err(Fault::DivideByZero));
    assert_eq!(um.get_register(3), 3);
}

#[test]
fn mapped_segment_reads_zero() {
    let mut um = machine();
    um.loadval(2, 5);
    assert_eq!(um.mapseg(1, 2), Ok(()));
    let id = um.get_register(1);
    for off in 0..5 {
        assert_eq!(um.get_val_from_memory_space(id, off), Ok(0));
    }
    assert_eq!(um.get_val_from_memory_space(id, 5), Err(Fault::OffsetOutOfBounds));
    // a reused identifier is zeroed again
    assert_eq!(um.set_val_from_memory_space(id, 3, 9), Ok(()));
    assert_eq!(um.unmapseg(1), Ok(()));
    assert_eq!(um.mapseg(1, 2), Ok(()));
    assert_eq!(um.get_register(1), id);
    assert_eq!(um.get_val_from_memory_space(id, 3), Ok(0));
}

#[test]
fn empty_segment() {
    let mut um = machine();
    assert_eq!(um.mapseg(1, 0), Ok(()));
    let id = um.get_register(1);
    assert_eq!(um.get_val_from_memory_space(id, 0), Err(Fault::OffsetOutOfBounds));
}

#[test]
fn map_then_unmap_restores_free_top() {
    let mut um = machine();
    um.loadval(2, 1);
    for r in 1..5 {
        assert_eq!(um.mapseg(r, 2), Ok(()));
    }
    assert_eq!(um.unmapseg(3), Ok(()));
    assert_eq!(um.unmapseg(1), Ok(()));
    let top = um.peek_free_memory();
    assert_eq!(top, Some(1));
    assert_eq!(um.get_free_memory_len(), 2);
    assert_eq!(um.mapseg(5, 2), Ok(()));
    assert_eq!(um.unmapseg(5), Ok(()));
    assert_eq!(um.peek_free_memory(), top);
    assert_eq!(um.get_free_memory_len(), 2);
    um.loadval(6, 17);
    assert_eq!(um.mapseg(7, 6), Ok(()));
    assert_eq!(um.get_register(7), 1);
}

#[test]
fn segment_faults() {
    let mut um = machine();
    um.loadval(1, 3);
    assert_eq!(um.load(2, 1, 0), Err(Fault::UnmappedSegment));
    assert_eq!(um.store(1, 0, 0), Err(Fault::UnmappedSegment));
    assert_eq!(um.unmapseg(1), Err(Fault::UnmappedSegment));
    assert_eq!(um.unmapseg(0), Err(Fault::UnmapCodeSegment));
    assert_eq!(um.loadprog(1, 0), Err(Fault::UnmappedSegment));
    um.loadval(2, 1);
    assert_eq!(um.mapseg(1, 2), Ok(()));
    assert_eq!(um.unmapseg(1), Ok(()));
    assert_eq!(um.unmapseg(1), Err(Fault::UnmappedSegment));
    assert_eq!(um.load(3, 1, 0), Err(Fault::UnmappedSegment));
    um.loadval(4, 1);
    assert_eq!(um.load(3, 0, 4), Err(Fault::OffsetOutOfBounds));
    assert_eq!(um.store(0, 4, 4), Err(Fault::OffsetOutOfBounds));
}

#[test]
fn loadprog_from_zero_sets_only_pc() {
    let mut um = UniversalMachine::new(vec![1, 2, 0xE000_0000]);
    um.loadval(2, 2);
    assert_eq!(um.loadprog(0, 2), Ok(()));
    assert_eq!(um.get_segment_from_memory_space(0).map(|s| s.data), Ok(vec![1, 2, 0xE000_0000]));
    assert_eq!(um.get_register(2), 2);
    // the next fetch is the word at offset 2
    assert_eq!(um.run(1), Err(Fault::InvalidOpcode));
    let mut probe = UniversalMachine::new(vec![1, 2, 0x7000_0000]);
    probe.loadval(2, 2);
    assert_eq!(probe.loadprog(0, 2), Ok(()));
    assert_eq!(probe.run(1), Ok(Action::Halt));
}

#[test]
fn loadprog_copies_source() {
    let mut um = machine();
    um.loadval(2, 2);
    assert_eq!(um.mapseg(1, 2), Ok(()));
    um.loadval(3, 0xAB);
    assert_eq!(um.store(1, 0, 3), Ok(()));
    assert_eq!(um.loadprog(1, 0), Ok(()));
    let copy = um.get_segment_from_memory_space(0).map(|s| s.data);
    assert_eq!(copy, Ok(vec![0xAB, 0]));
    assert_eq!(copy, um.get_segment_from_memory_space(1).map(|s| s.data));
    um.loadval(4, 1);
    assert_eq!(um.store(1, 4, 4), Ok(()));
    assert_eq!(um.get_segment_from_memory_space(0).map(|s| s.data), Ok(vec![0xAB, 0]));
    assert_eq!(um.get_segment_from_memory_space(1).map(|s| s.data), Ok(vec![0xAB, 1]));
}

#[test]
fn output_is_low_byte() {
    let mut um = machine();
    um.loadval(1, 0x141);
    assert_eq!(um.output(1), 0x41);
    um.loadval(1, 255);
    assert_eq!(um.output(1), 255);
}

#[test]
fn input_sets_register() {
    let mut um = machine();
    um.input(2, Some(b'x'));
    assert_eq!(um.get_register(2), 120);
    um.input(2, None);
    assert_eq!(um.get_register(2), 0xFFFF_FFFF);
}

#[test]
fn program_counter() {
    let mut um = machine();
    um.set_program_counter(0xFFFF_FFFF);
    um.increment_counter();
    assert_eq!(um.run(1), Ok(Action::Halt));
}

#[test]
fn disassemble_advances_pc_first() {
    let mut um = UniversalMachine::new(vec![0, 0, 0x7000_0000]);
    // load program R0: PC <- R1 == 2, whatever the advance did
    um.loadval(1, 2);
    assert_eq!(disassemble(0xC000_0001, &mut um), Ok(Action::Continue));
    assert_eq!(um.run(1), Ok(Action::Halt));
    // a faulting instruction still advances the counter
    let mut um = UniversalMachine::new(vec![0, 0x7000_0000]);
    assert_eq!(disassemble(0xE000_0000, &mut um), Err(Fault::InvalidOpcode));
    assert_eq!(um.run(1), Ok(Action::Halt));
    assert_eq!(disassemble(0xA000_0000, &mut um), Ok(Action::Output(0)));
    assert_eq!(disassemble(0xB000_0005, &mut um), Ok(Action::Input(5)));
}

#[test]
fn free_list_primitives() {
    let mut um = machine();
    um.push_memory_space(Segment { data: vec![4, 5] });
    assert_eq!(um.get_memory_space_len(), 2);
    assert_eq!(um.get_val_from_memory_space(1, 1), Ok(5));
    um.set_segment_from_memory_space(1, Segment { data: vec![6] });
    assert_eq!(um.get_val_from_memory_space(1, 0), Ok(6));
    um.set_segment_from_memory_space(9, Segment { data: vec![7] });
    assert_eq!(um.get_memory_space_len(), 2);
    um.push_free_memory(7);
    um.push_free_memory(8);
    assert_eq!(um.get_from_free_memory(), 8);
    assert_eq!(um.peek_free_memory(), Some(8));
    assert_eq!(um.pop_free_memory(), 8);
    assert_eq!(um.pop_free_memory(), 7);
    assert_eq!(um.get_free_memory_len(), 0);
}
