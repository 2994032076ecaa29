use elfcode::instructions::{Cpu, Instruction, Opcode, Registers};

#[test]
fn instructions_example() {
    let input = "#ip 0
seti 5 0 1
seti 6 0 2
addi 0 1 0
addr 1 2 3
setr 1 0 0
seti 8 0 4
seti 9 0 5";
    let mut cpu = input.parse::<Cpu>().unwrap();
    cpu.run();
    assert_eq!(cpu.get(0), 7);
}

#[test]
fn apply_is_deterministic_and_keeps_its_input() {
    let before = Registers::from_slice(&[7, 2, 5, 9]);
    let first = Opcode::Addr.apply(0, 1, 2, &before);
    let second = Opcode::Addr.apply(0, 1, 2, &before);
    assert_eq!(first, second);
    assert_eq!(before, Registers::from_slice(&[7, 2, 5, 9]));
    assert_eq!(first, Registers::from_slice(&[7, 2, 9, 9]));
    assert_eq!(first.get(2), 9);
}

#[test]
fn every_opcode_family_writes_its_formula() {
    let regs = Registers::from_slice(&[5, 3, 0, 7]);
    let cases = vec![
        (Opcode::Addr, 8),
        (Opcode::Addi, 6),
        (Opcode::Mulr, 15),
        (Opcode::Muli, 5),
        (Opcode::Banr, 1),
        (Opcode::Bani, 1),
        (Opcode::Borr, 7),
        (Opcode::Bori, 5),
        (Opcode::Setr, 5),
        (Opcode::Seti, 0),
        (Opcode::Gtir, 0),
        (Opcode::Gtri, 1),
        (Opcode::Gtrr, 1),
        (Opcode::Eqir, 0),
        (Opcode::Eqri, 0),
        (Opcode::Eqrr, 0),
    ];
    for (opcode, expected) in cases {
        let after = opcode.apply(0, 1, 2, &regs);
        assert_eq!(after, Registers::from_slice(&[5, 3, expected, 7]), "{:?}", opcode);
        // Every other register keeps its value.
        assert_eq!(after.get(0), 5);
        assert_eq!(after.get(1), 3);
        assert_eq!(after.get(3), 7);
    }
}

#[test]
fn machine_halts_on_out_of_range_pointer_without_touching_registers() {
    // Pointer already past the end: an empty program halts at once.
    let mut empty = Cpu::new(4, 0, Vec::new()).unwrap();
    assert!(!empty.step());
    assert_eq!(empty.get_registers(), Registers::new(4));

    // A negative pointer value halts too: the single instruction writes
    // -5 into the pointer register, the machine increments it to -4, and
    // the next step changes nothing.
    let program = vec![Instruction { opcode: Opcode::Seti, a: -5, b: 0, c: 0 }];
    let mut cpu = Cpu::new(4, 0, program).unwrap();
    assert!(cpu.step());
    assert_eq!(cpu.ip(), -4);
    let snapshot = cpu.get_registers();
    assert!(!cpu.step());
    assert_eq!(cpu.get_registers(), snapshot);
}

#[test]
fn jump_semantics_increment_after_the_write() {
    // With the pointer in register 0, `seti 3 0 0` writes 3 and the
    // machine then advances to instruction 4.
    let input = "#ip 0
seti 3 0 0
seti 99 0 1
seti 98 0 1
seti 97 0 1
seti 42 0 2";
    let mut cpu = input.parse::<Cpu>().unwrap();
    cpu.run();
    assert_eq!(cpu.get(1), 0);
    assert_eq!(cpu.get(2), 42);
}

#[test]
fn mnemonics_parse_to_their_opcodes() {
    assert_eq!("addr".parse::<Opcode>(), Ok(Opcode::Addr));
    assert_eq!("seti".parse::<Opcode>(), Ok(Opcode::Seti));
    assert_eq!("eqrr".parse::<Opcode>(), Ok(Opcode::Eqrr));
    assert!("frob".parse::<Opcode>().is_err());
    assert!("".parse::<Opcode>().is_err());
    assert!("addrr".parse::<Opcode>().is_err());
}

#[test]
fn program_parsing_rejects_bad_text() {
    assert!("".parse::<Cpu>().is_err());
    assert!("#ip 9\nseti 1 0 0".parse::<Cpu>().is_err());
    assert!("#ip 0\nfrob 1 2 3".parse::<Cpu>().is_err());
    assert!("#ip 0\nseti 1 0".parse::<Cpu>().is_err());
    assert!("#ip 0\naddr 0 1 9".parse::<Cpu>().is_err());
    assert!("#ip 0\naddr 0 9 2".parse::<Cpu>().is_err());
}

#[test]
fn seeding_registers_changes_the_run() {
    let input = "#ip 3
addr 0 1 2
seti 9 0 3";
    let mut cpu = input.parse::<Cpu>().unwrap();
    cpu.set(0, 20);
    cpu.set(1, 22);
    assert_eq!(cpu.get(0), 20);
    cpu.run();
    assert_eq!(cpu.get(2), 42);
}

#[test]
fn opcode_catalogue_is_closed_and_ordered() {
    let all = Opcode::iter();
    assert_eq!(all.len(), 16);
    assert_eq!(all[0], Opcode::Addr);
    assert_eq!(all[15], Opcode::Eqrr);
    for i in 0..16 {
        for j in 0..16 {
            if i != j {
                assert_ne!(all[i], all[j]);
            }
        }
    }
}
