use elfcode::inference::{
    execute_unknown_program, parse_program, parse_samples, part1, part2, resolve_mapping, Sample,
    UnknownOpcode,
};
use elfcode::instructions::{Opcode, Registers};

fn sample(code: i32, a: i64, b: i64, c: i64, before: [i64; 4], after: [i64; 4]) -> Sample {
    Sample::new(
        Registers::from_slice(&before),
        UnknownOpcode::new(code, a, b, c),
        Registers::from_slice(&after),
    )
}

/// Samples that pin every numeric code `i` to the `i`-th opcode of the
/// canonical order, each code unambiguously on its own.
fn identity_samples() -> Vec<Sample> {
    vec![
        sample(0, 0, 1, 2, [5, 3, 0, 7], [5, 3, 8, 7]),
        sample(1, 0, 1, 2, [5, 3, 0, 7], [5, 3, 6, 7]),
        sample(2, 0, 1, 2, [5, 3, 0, 7], [5, 3, 15, 7]),
        sample(3, 2, 3, 0, [5, 3, 4, 7], [12, 3, 4, 7]),
        sample(4, 2, 3, 0, [5, 3, 12, 10], [8, 3, 12, 10]),
        sample(5, 2, 5, 0, [5, 3, 12, 7], [4, 3, 12, 7]),
        sample(6, 0, 1, 2, [5, 3, 0, 7], [5, 3, 7, 7]),
        sample(7, 2, 6, 0, [5, 3, 4, 7], [6, 3, 4, 7]),
        sample(8, 2, 9, 0, [5, 3, 4, 7], [4, 3, 4, 7]),
        sample(9, 9, 1, 0, [5, 3, 4, 7], [9, 3, 4, 7]),
        sample(10, 9, 1, 0, [5, 3, 4, 7], [1, 3, 4, 7]),
        sample(11, 2, 5, 0, [5, 3, 12, 7], [1, 3, 12, 7]),
        sample(12, 2, 1, 0, [5, 3, 12, 7], [1, 3, 12, 7]),
        sample(12, 2, 1, 0, [5, 30, 12, 7], [0, 30, 12, 7]),
        sample(13, 9, 1, 0, [5, 9, 4, 7], [1, 9, 4, 7]),
        sample(14, 2, 12, 0, [5, 3, 12, 7], [1, 3, 12, 7]),
        sample(15, 2, 1, 0, [5, 12, 12, 7], [1, 12, 12, 7]),
        sample(15, 2, 1, 0, [5, 12, 3, 7], [0, 12, 3, 7]),
    ]
}

fn canonical() -> Vec<Opcode> {
    Opcode::iter()
}

#[test]
fn test_samples() {
    let input = r#"Before: [3, 2, 1, 1]
9 2 1 2
After:  [3, 2, 2, 1]"#;
    let samples = parse_samples(input);
    assert_eq!(samples.len(), 1);
    let sample = &samples[0];
    assert_eq!(
        sample,
        &Sample::new(
            Registers::from_slice(&[3, 2, 1, 1]),
            UnknownOpcode::new(9, 2, 1, 2),
            Registers::from_slice(&[3, 2, 2, 1])
        )
    );

    assert_eq!(sample.instruction.behaves_like(&sample.before, &sample.after).len(), 3);
}

#[test]
fn ambiguous_sample_behaves_like_exactly_three_opcodes() {
    let s = sample(9, 2, 1, 2, [3, 2, 1, 1], [3, 2, 2, 1]);
    let opcodes = s.instruction.behaves_like(&s.before, &s.after);
    assert_eq!(opcodes, vec![Opcode::Addi, Opcode::Mulr, Opcode::Seti]);
}

#[test]
fn counting_ambiguous_samples_skips_the_pinned_ones() {
    let samples = vec![
        sample(9, 2, 1, 2, [3, 2, 1, 1], [3, 2, 2, 1]),
        sample(0, 0, 1, 2, [5, 3, 0, 7], [5, 3, 8, 7]),
    ];
    assert_eq!(part1(&samples), 1);
}

#[test]
fn pinning_samples_resolve_without_elimination() {
    let mapping = resolve_mapping(&identity_samples()).unwrap();
    assert_eq!(mapping, canonical());
}

#[test]
fn one_elimination_round_breaks_a_shared_candidate() {
    // Code 1's only sample is explained by both addition opcodes; code 0
    // pins the register-register one, and elimination leaves the other.
    let mut samples = identity_samples();
    samples[1] = sample(1, 0, 1, 2, [3, 1, 0, 0], [3, 1, 4, 0]);
    let mapping = resolve_mapping(&samples).unwrap();
    assert_eq!(mapping, canonical());
}

#[test]
fn resolved_mapping_is_a_bijection() {
    let mapping = resolve_mapping(&identity_samples()).unwrap();
    assert_eq!(mapping.len(), 16);
    for o in canonical() {
        assert_eq!(mapping.iter().filter(|m| **m == o).count(), 1);
    }
}

#[test]
fn permanently_tied_codes_are_reported_unresolvable() {
    // Both codes stay tied to the same two-opcode candidate set and no
    // other code ever resolves, so elimination cannot make progress.
    let samples = vec![
        sample(0, 0, 1, 2, [3, 1, 0, 0], [3, 1, 4, 0]),
        sample(1, 0, 1, 2, [3, 1, 0, 0], [3, 1, 4, 0]),
    ];
    assert!(resolve_mapping(&samples).is_err());
}

#[test]
fn contradictory_samples_are_reported_unresolvable() {
    // A sample that no opcode explains empties its code's candidate set.
    let mut samples = identity_samples();
    samples.push(sample(3, 2, 3, 0, [5, 3, 4, 7], [13, 3, 4, 7]));
    assert!(resolve_mapping(&samples).is_err());
}

#[test]
fn out_of_range_codes_are_rejected() {
    let samples = vec![sample(16, 0, 1, 2, [5, 3, 0, 7], [5, 3, 8, 7])];
    assert!(resolve_mapping(&samples).is_err());
    let negative = vec![sample(-1, 0, 1, 2, [5, 3, 0, 7], [5, 3, 8, 7])];
    assert!(resolve_mapping(&negative).is_err());
}

#[test]
fn translated_program_runs_on_fresh_registers() {
    let mapping = canonical();
    let program = vec![
        UnknownOpcode::new(9, 5, 0, 1),
        UnknownOpcode::new(9, 6, 0, 2),
        UnknownOpcode::new(0, 1, 2, 3),
        UnknownOpcode::new(2, 1, 2, 0),
    ];
    let regs = execute_unknown_program(&mapping, &program, 4).unwrap();
    assert_eq!(regs, Registers::from_slice(&[30, 5, 6, 11]));
}

#[test]
fn invalid_programs_are_rejected() {
    let mapping = canonical();
    let bad_code = vec![UnknownOpcode::new(99, 0, 0, 0)];
    assert!(execute_unknown_program(&mapping, &bad_code, 4).is_err());
    let bad_operand = vec![UnknownOpcode::new(0, 0, 9, 0)];
    assert!(execute_unknown_program(&mapping, &bad_operand, 4).is_err());
}

#[test]
fn whole_puzzle_flows_from_samples_to_register_zero() {
    let samples = identity_samples();
    let program = vec![
        UnknownOpcode::new(9, 5, 0, 1),
        UnknownOpcode::new(9, 6, 0, 2),
        UnknownOpcode::new(0, 1, 2, 3),
        UnknownOpcode::new(2, 1, 2, 0),
    ];
    assert_eq!(part2(&samples, &program), Ok(30));
}

#[test]
fn program_section_parses_after_the_blank_block() {
    let input = "Before: [3, 2, 1, 1]\n9 2 1 2\nAfter:  [3, 2, 2, 1]\n\n\n\n9 5 0 1\n0 1 2 3";
    let program = parse_program(input);
    assert_eq!(
        program,
        Ok(vec![UnknownOpcode::new(9, 5, 0, 1), UnknownOpcode::new(0, 1, 2, 3)])
    );
    assert_eq!(parse_samples(input).len(), 1);

    // A missing separator or a short program line is a construction
    // failure, never a silent default.
    assert!(parse_program("9 5 0 1").is_err());
    assert!(parse_program("Before: [3, 2, 1, 1]\n\n\n\n9 5 0").is_err());
}

#[test]
fn sample_order_does_not_change_the_mapping() {
    let forward = resolve_mapping(&identity_samples()).unwrap();
    let mut shuffled = identity_samples();
    shuffled.reverse();
    let backward = resolve_mapping(&shuffled).unwrap();
    assert_eq!(forward, backward);
}
