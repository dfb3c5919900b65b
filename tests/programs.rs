use rum::rumload::words_from_bytes;
use rum::state::{Action, Fault};
use rum::universal_machine::UniversalMachine;

/// Runs `program` to its end, feeding `input` to IN; returns the bytes
/// written and how the run ended.
fn run_program(program: Vec<u32>, input: &[u8]) -> (Vec<u8>, Result<Action, Fault>, UniversalMachine) {
    let mut um = UniversalMachine::new(program);
    let mut out = Vec::new();
    let mut pos = 0;
    loop {
        match um.run(10_000) {
            Ok(Action::Output(b)) => out.push(b),
            Ok(Action::Input(c)) => {
                let byte = input.get(pos).copied();
                pos += 1;
                um.input(c, byte);
            }
            Ok(Action::Continue) => panic!("program did not stop"),
            other => return (out, other, um),
        }
    }
}

#[test]
fn halt_only() {
    let (out, end, um) = run_program(vec![0x7000_0000], &[]);
    assert_eq!(end, Ok(Action::Halt));
    assert!(out.is_empty());
    assert_eq!(um.get_memory_space_len(), 1);
}

#[test]
fn print_a_then_halt() {
    let (out, end, um) = run_program(vec![0xD600_0041, 0xA000_0003, 0x7000_0000], &[]);
    assert_eq!(end, Ok(Action::Halt));
    assert_eq!(out, vec![0x41]);
    assert_eq!(um.get_register(3), 65);
}

#[test]
fn add_two_and_three() {
    let program = vec![
        0xD200_0002, // R1 <- 2
        0xD400_0003, // R2 <- 3
        0x3000_00CA, // R3 <- R1 + R2
        0xD800_0030, // R4 <- 48
        0x3000_00DC, // R3 <- R3 + R4
        0xA000_0003, // out R3
        0x7000_0000,
    ];
    let (out, end, _) = run_program(program, &[]);
    assert_eq!(end, Ok(Action::Halt));
    assert_eq!(out, vec![0x35]);
}

#[test]
fn map_store_load_print() {
    let program = vec![
        0xD400_0001, // R2 <- 1
        0x8000_000A, // R1 <- map(R2)
        0xD600_005A, // R3 <- 90
        0x2000_0043, // seg[R1][R0] <- R3
        0x1000_0108, // R4 <- seg[R1][R0]
        0xA000_0004, // out R4
        0x7000_0000,
    ];
    let (out, end, um) = run_program(program, &[]);
    assert_eq!(end, Ok(Action::Halt));
    assert_eq!(out, vec![b'Z']);
    assert_eq!(um.get_register(1), 1);
    assert_eq!(um.get_val_from_memory_space(1, 0), Ok(90));
}

#[test]
fn self_modifying_load_program() {
    let program = vec![
        0xD400_0001, // R2 <- 1
        0x8000_000A, // R1 <- map(R2)
        0xD600_0007, // R3 <- 7
        0xD900_0000, // R4 <- 2^24
        0xDA00_0010, // R5 <- 16
        0x4000_0125, // R4 <- R4 * R5
        0x4000_00DC, // R3 <- R3 * R4: a HALT word
        0x2000_0043, // seg[R1][R0] <- R3
        0xC000_0008, // load program R1, jump to R0
        0xA000_0003, // never reached
    ];
    let (out, end, um) = run_program(program, &[]);
    assert_eq!(end, Ok(Action::Halt));
    assert!(out.is_empty());
    assert_eq!(um.get_segment_from_memory_space(0).map(|s| s.data), Ok(vec![0x7000_0000]));
    assert_eq!(um.get_segment_from_memory_space(1).map(|s| s.data), Ok(vec![0x7000_0000]));
}

#[test]
fn free_list_reuse() {
    let mut um = UniversalMachine::new(vec![0x7000_0000]);
    um.loadval(2, 1);
    assert_eq!(um.mapseg(1, 2), Ok(()));
    assert_eq!(um.mapseg(3, 2), Ok(()));
    let id1 = um.get_register(1);
    let id2 = um.get_register(3);
    assert_ne!(id1, id2);
    assert_eq!(um.unmapseg(1), Ok(()));
    assert_eq!(um.mapseg(4, 2), Ok(()));
    assert_eq!(um.get_register(4), id1);
    assert_eq!(um.get_register(3), id2);
    assert_eq!(um.get_memory_space_len(), 3);
}

#[test]
fn input_echo_and_end_of_input() {
    let program = vec![
        0xB000_0001, // in R1
        0xA000_0001, // out R1
        0xB000_0002, // in R2
        0x7000_0000,
    ];
    let (out, end, um) = run_program(program, b"q");
    assert_eq!(end, Ok(Action::Halt));
    assert_eq!(out, vec![b'q']);
    assert_eq!(um.get_register(2), 0xFFFF_FFFF);
}

#[test]
fn invalid_opcode_faults() {
    let (_, end, _) = run_program(vec![0xE000_0000], &[]);
    assert_eq!(end, Err(Fault::InvalidOpcode));
    let (_, end, _) = run_program(vec![0xF000_0000], &[]);
    assert_eq!(end, Err(Fault::InvalidOpcode));
}

#[test]
fn divide_by_zero_faults() {
    // R1 <- 7; R3 <- R1 / R2 with R2 == 0
    let (_, end, _) = run_program(vec![0xD200_0007, 0x5000_00CA], &[]);
    assert_eq!(end, Err(Fault::DivideByZero));
}

#[test]
fn running_off_the_end_faults() {
    let (_, end, um) = run_program(vec![0xD200_0007], &[]);
    assert_eq!(end, Err(Fault::FetchOutOfBounds));
    assert_eq!(um.get_register(1), 7);
    let (_, end, _) = run_program(vec![], &[]);
    assert_eq!(end, Err(Fault::FetchOutOfBounds));
}

#[test]
fn load_from_unmapped_segment_faults() {
    // R2 <- 5; R1 <- seg[R2][R0]
    let (_, end, _) = run_program(vec![0xD400_0005, 0x1000_0050], &[]);
    assert_eq!(end, Err(Fault::UnmappedSegment));
}

#[test]
fn unmap_code_segment_faults() {
    // unmap R0, which holds 0
    let (_, end, _) = run_program(vec![0x9000_0000], &[]);
    assert_eq!(end, Err(Fault::UnmapCodeSegment));
}

#[test]
fn fuel_runs_out() {
    // load program R0 (no copy), jump to R0: an endless loop
    let mut um = UniversalMachine::new(vec![0xC000_0000]);
    assert_eq!(um.run(3), Ok(Action::Continue));
    assert_eq!(um.run(0), Ok(Action::Continue));
}

#[test]
fn program_image_big_endian() {
    let bytes = [0x70, 0x00, 0x00, 0x00, 0xD6, 0x00, 0x00, 0x41];
    assert_eq!(words_from_bytes(&bytes), Ok(vec![0x7000_0000, 0xD600_0041]));
    assert_eq!(words_from_bytes(&[]), Ok(vec![]));
    assert_eq!(words_from_bytes(&[1, 2, 3, 4, 5]), Err(Fault::MalformedProgram));
    assert_eq!(words_from_bytes(&[0x12, 0x34, 0x56]), Err(Fault::MalformedProgram));
}
