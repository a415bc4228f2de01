use libbf::program::Instruction::{DAdd, Input, Output, PAdd, UntilZero};
use libbf::program::{FatInstruction, FatInstructionKind, FatProgram, Instruction, Program, ProgramIndex};

#[test]
fn fat_program_as_program() {
    let fat_program = FatProgram::new(vec![
        FatInstruction {
            kind: FatInstructionKind::PAdd(1),
            tokens: vec![],
        },
        FatInstruction {
            kind: FatInstructionKind::DAdd(2),
            tokens: vec![],
        },
        FatInstruction {
            kind: FatInstructionKind::Input,
            tokens: vec![],
        },
        FatInstruction {
            kind: FatInstructionKind::Output,
            tokens: vec![],
        },
        FatInstruction {
            kind: FatInstructionKind::UntilZero(vec![
                FatInstruction {
                    kind: FatInstructionKind::PAdd(-1),
                    tokens: vec![],
                },
                FatInstruction {
                    kind: FatInstructionKind::DAdd(-2),
                    tokens: vec![],
                },
            ]),
            tokens: vec![],
        },
    ]);

    let expected = [
        Instruction::PAdd(1),
        Instruction::DAdd(2),
        Instruction::Input,
        Instruction::Output,
        Instruction::UntilZero(vec![Instruction::PAdd(-1), Instruction::DAdd(-2)]),
    ];

    assert_eq!(fat_program.as_program().instructions(), &expected);
    assert_eq!(Program::from(fat_program).instructions(), &expected);
}

#[test]
fn fat_program_nop_is_dropped() {
    let fat_program = FatProgram::new(vec![
        FatInstruction {
            kind: FatInstructionKind::Nop,
            tokens: vec![],
        },
        FatInstruction {
            kind: FatInstructionKind::UntilZero(vec![FatInstruction {
                kind: FatInstructionKind::Nop,
                tokens: vec![],
            }]),
            tokens: vec![],
        },
    ]);
    assert_eq!(
        fat_program.as_program().instructions(),
        [Instruction::UntilZero(vec![])]
    );
}

#[test]
fn empty_first_index() {
    let program = Program::new(vec![]);
    assert_eq!(program.first_index(), None);
}

#[test]
fn first_index() {
    let program = Program::new(vec![Instruction::PAdd(3)]);
    assert_eq!(
        program.first_index(),
        Some(ProgramIndex::new_for_test(vec![0]))
    );
}

#[test]
fn index() {
    let program = Program::new(vec![PAdd(1), UntilZero(vec![PAdd(2), Input, PAdd(-2)])]);

    assert_eq!(*program.index(&ProgramIndex::new_for_test(vec![0])), PAdd(1));
    assert_eq!(
        *program.index(&ProgramIndex::new_for_test(vec![1])),
        UntilZero(vec![PAdd(2), Input, PAdd(-2),])
    );
    assert_eq!(*program.index(&ProgramIndex::new_for_test(vec![1, 2])), PAdd(-2));
}

#[test]
fn step_index_moves_within_a_level() {
    let program = Program::new(vec![PAdd(1), UntilZero(vec![PAdd(2), Input])]);
    let mut index = ProgramIndex::new_for_test(vec![1, 0]);
    assert!(program.step_index(&mut index));
    assert_eq!(index, ProgramIndex::new_for_test(vec![1, 1]));
    assert!(!program.step_index(&mut index));
    assert_eq!(index, ProgramIndex::new_for_test(vec![1, 1]));
    assert!(index.step_out());
    assert_eq!(index, ProgramIndex::new_for_test(vec![1]));
    assert!(!program.step_index(&mut index));
    assert!(!index.step_out());
    index.step_in();
    assert_eq!(index, ProgramIndex::new_for_test(vec![0]));
}
