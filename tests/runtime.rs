use libbf::program::Instruction::{DAdd, Input, Output, PAdd, UntilZero};
use libbf::error::RuntimeError;
use libbf::program::{Instruction, Program};
use libbf::runtime::{run, run_with_memsize, ByteRead, ByteWrite, MemorySize};
use libbf::runtime::step_runner::StepRunner;

#[test]
fn test_run_empty_program() {
    let program = Program::new(vec![]);
    let input: &[u8] = &[];
    let mut output = vec![];
    let result = run(&program, input, &mut output);
    if let Err(e) = result {
        panic!("unexpected error: {e:?}");
    }
}

#[test]
fn test_run_input_output() {
    let program = Program::new(vec![Input, Output, Input, Output]);
    let input: &[u8] = &[42, 53];
    let mut output = vec![];
    let result = run(&program, input, &mut output);
    if let Err(e) = result {
        panic!("unexpected error: {e:?}");
    } else {
        assert_eq!(output, &[42, 53]);
    }
}

#[test]
fn test_run_dadd_overflow() {
    let program = Program::new(vec![Input, DAdd(3), Output]);
    let input: &[u8] = &[254];
    let mut output = vec![];
    let result = run(&program, input, &mut output);
    if let Err(e) = result {
        panic!("unexpected error: {e:?}");
    } else {
        assert_eq!(output, &[1]);
    }
}

#[test]
fn test_run_out_of_memory_bounds_left() {
    let program = Program::new(vec![PAdd(-1), DAdd(1)]);
    let input: &[u8] = &[];
    let mut output = vec![];
    let result = run(&program, input, &mut output);
    if let Err(e) = result {
        if let RuntimeError::OutOfMemoryBounds { address } = e {
            assert_eq!(address, -1);
        } else {
            panic!("unexpected error: {e:?}");
        }
    } else {
        panic!("unexpectedly succeeded");
    }
}

#[test]
fn test_run_out_of_memory_bounds_left_for_right_infinity() {
    let program = Program::new(vec![PAdd(-1), DAdd(1)]);
    let input: &[u8] = &[];
    let mut output = vec![];
    let result = run_with_memsize(&program, input, &mut output, MemorySize::RightInfinite);
    if let Err(e) = result {
        if let RuntimeError::OutOfMemoryBounds { address } = e {
            assert_eq!(address, -1);
        } else {
            panic!("unexpected error: {e:?}");
        }
    } else {
        panic!("unexpectedly succeeded");
    }
}

#[test]
fn test_run_negative_memory_address_access() {
    let program = Program::new(vec![PAdd(-1), DAdd(1)]);
    let input: &[u8] = &[];
    let mut output = vec![];
    let result = run_with_memsize(&program, input, &mut output, MemorySize::BothInfinite);
    if let Err(e) = result {
        panic!("unexpected error: {e:?}");
    }
}

#[test]
fn test_run_out_of_memory_bounds_right() {
    let program = Program::new(vec![PAdd(30000), DAdd(1)]);
    let input: &[u8] = &[];
    let mut output = vec![];
    let result = run(&program, input, &mut output);
    if let Err(e) = result {
        if let RuntimeError::OutOfMemoryBounds { address } = e {
            assert_eq!(address, 30000);
        } else {
            panic!("unexpected error: {e:?}");
        }
    } else {
        panic!("unexpectedly succeeded");
    }
}

#[test]
fn test_run_positive_memory_address_access_for_right_inifinite() {
    let program = Program::new(vec![PAdd(65536), DAdd(1)]);
    let input: &[u8] = &[];
    let mut output = vec![];
    let result = run_with_memsize(&program, input, &mut output, MemorySize::RightInfinite);
    if let Err(e) = result {
        panic!("unexpected error: {e:?}");
    }
}

#[test]
fn test_run_positive_memory_address_access_for_both_inifinite() {
    let program = Program::new(vec![PAdd(65536), DAdd(1)]);
    let input: &[u8] = &[];
    let mut output = vec![];
    let result = run_with_memsize(&program, input, &mut output, MemorySize::BothInfinite);
    if let Err(e) = result {
        panic!("unexpected error: {e:?}");
    }
}

struct TestErrorReader;

impl ByteRead for TestErrorReader {
    fn read_byte(&mut self) -> Result<Option<u8>, std::io::Error> {
        Err(std::io::Error::new(std::io::ErrorKind::Other, "test error"))
    }
}

/// A writer with no room for any byte.
struct FullWriter;

impl ByteWrite for FullWriter {
    fn write_byte(&mut self, _b: u8) -> Result<(), std::io::Error> {
        Err(std::io::Error::new(
            std::io::ErrorKind::WriteZero,
            "failed to write whole buffer",
        ))
    }
}

#[test]
fn test_run_input_error() {
    let program = Program::new(vec![Input]);
    let input = TestErrorReader;
    let mut output = vec![];
    let result = run(&program, input, &mut output);
    if let Err(e) = result {
        if let RuntimeError::IoError(_) = e {
            // OK
        } else {
            panic!("unexpected error: {e:?}");
        }
    } else {
        panic!("unexpectedly succeeded");
    }
}

#[test]
fn test_run_input_eof() {
    let program = Program::new(vec![Input]);
    let input: &[u8] = &[];
    let mut output = vec![];
    let result = run(&program, input, &mut output);
    if let Err(e) = result {
        if let RuntimeError::Eof = e {
            // OK
        } else {
            panic!("unexpected error: {e:?}");
        }
    } else {
        panic!("unexpectedly succeeded");
    }
}

#[test]
fn test_run_output_error() {
    let program = Program::new(vec![Output]);
    let input: &[u8] = &[];
    let mut output = FullWriter;
    let result = run(&program, input, &mut output);
    if let Err(e) = result {
        if let RuntimeError::IoError(_) = e {
            // OK
        } else {
            panic!("unexpected error: {e:?}");
        }
    } else {
        panic!("unexpectedly succeeded");
    }
}

fn hello_world_program() -> Program {
    Program::new(vec![
        DAdd(8),
        UntilZero(vec![
            PAdd(1),
            DAdd(4),
            UntilZero(vec![
                PAdd(1),
                DAdd(2),
                PAdd(1),
                DAdd(3),
                PAdd(1),
                DAdd(3),
                PAdd(1),
                DAdd(1),
                PAdd(-4),
                DAdd(-1),
            ]),
            PAdd(1),
            DAdd(1),
            PAdd(1),
            DAdd(1),
            PAdd(1),
            DAdd(-1),
            PAdd(2),
            DAdd(1),
            UntilZero(vec![PAdd(-1)]),
            PAdd(-1),
            DAdd(-1),
        ]),
        PAdd(2),
        Output,
        PAdd(1),
        DAdd(-3),
        Output,
        DAdd(7),
        Output,
        Output,
        DAdd(3),
        Output,
        PAdd(2),
        Output,
        PAdd(-1),
        DAdd(-1),
        Output,
        PAdd(-1),
        Output,
        DAdd(3),
        Output,
        DAdd(-6),
        Output,
        DAdd(-8),
        Output,
        PAdd(2),
        DAdd(1),
        Output,
        PAdd(1),
        DAdd(2),
        Output,
    ])
}

#[test]
fn test_run_hello_world() {
    let program = hello_world_program();
    let input: &[u8] = &[];
    let mut output = vec![];
    let result = run(&program, input, &mut output);
    if let Err(e) = result {
        panic!("unexpected error: {e:?}");
    } else {
        assert_eq!(output, b"Hello World!\n");
    }
}

#[test]
fn stepping_to_the_end_matches_a_run() {
    let program = hello_world_program();
    let mut input: &[u8] = &[];
    let mut stepped = vec![];
    let mut runner = StepRunner::new(&program);
    while runner.is_running() {
        runner.step(&mut input, &mut stepped).expect("step must succeed");
    }
    let mut ran = vec![];
    run(&program, &[][..], &mut ran).expect("run must succeed");
    assert_eq!(stepped, ran);
    assert_eq!(stepped, b"Hello World!\n");
}

#[test]
fn stepping_exposes_pointer_and_memory() {
    let program = Program::new(vec![DAdd(5), PAdd(2), DAdd(-1), UntilZero(vec![DAdd(1)])]);
    let mut input: &[u8] = &[];
    let mut output = vec![];
    let mut runner = StepRunner::with_memsize(&program, MemorySize::Fixed(10));
    assert_eq!(runner.get_current_instruction(), Some(&DAdd(5)));
    runner.step(&mut input, &mut output).unwrap();
    assert_eq!(runner.get_data_at_mut(0).map(|c| *c), Some(5));
    runner.step(&mut input, &mut output).unwrap();
    assert_eq!(runner.get_pointer(), 2);
    runner.step(&mut input, &mut output).unwrap();
    assert_eq!(runner.get_data_at_mut(2).map(|c| *c), Some(255));
    assert!(runner.get_data_at_mut(10).is_none());
    // the loop: test, body, test
    runner.step(&mut input, &mut output).unwrap();
    assert_eq!(runner.get_current_instruction(), Some(&DAdd(1)));
    runner.step(&mut input, &mut output).unwrap();
    assert_eq!(runner.get_current_instruction(), Some(&UntilZero(vec![DAdd(1)])));
    runner.step(&mut input, &mut output).unwrap();
    assert!(!runner.is_running());
    assert_eq!(runner.get_index(), None);
}

#[test]
fn fixed_zero_memory_rejects_access_at_zero() {
    for inst in [DAdd(1), Output, Input, UntilZero(vec![])] {
        let program = Program::new(vec![inst]);
        let input: &[u8] = &[7];
        let mut output = vec![];
        let result = run_with_memsize(&program, input, &mut output, MemorySize::Fixed(0));
        assert!(matches!(
            result,
            Err(RuntimeError::OutOfMemoryBounds { address: 0 })
        ));
    }
    let program = Program::new(vec![PAdd(4)]);
    let mut output = vec![];
    assert!(run_with_memsize(&program, &[][..], &mut output, MemorySize::Fixed(0)).is_ok());
}

#[test]
fn pointer_move_past_bounds_is_not_an_access() {
    let program = Program::new(vec![PAdd(-5), PAdd(5), DAdd(1), Output]);
    let mut output = vec![];
    run(&program, &[][..], &mut output).expect("no access out of bounds");
    assert_eq!(output, [1]);
}

#[test]
fn data_add_wraps_below_zero() {
    let program = Program::new(vec![DAdd(-513), Output]);
    let mut output = vec![];
    run(&program, &[][..], &mut output).unwrap();
    assert_eq!(output, [255]);
}

#[test]
fn step_io_error_leaves_state_unchanged() {
    let program = Program::new(vec![DAdd(2), Input, Output]);
    let mut input = TestErrorReader;
    let mut output = vec![];
    let mut runner = StepRunner::new(&program);
    runner.step(&mut input, &mut output).unwrap();
    let index_before = runner.get_index().cloned();
    assert!(matches!(
        runner.step(&mut input, &mut output),
        Err(RuntimeError::IoError(_))
    ));
    assert!(runner.is_running());
    assert_eq!(runner.get_index().cloned(), index_before);
    assert_eq!(runner.get_pointer(), 0);
    assert_eq!(runner.get_data_at_mut(0).map(|c| *c), Some(2));
}

#[test]
fn empty_loop_body_with_nonzero_cell_steps_on() {
    let program = Program::new(vec![DAdd(1), UntilZero(vec![]), Output]);
    let mut input: &[u8] = &[];
    let mut output = vec![];
    let mut runner = StepRunner::new(&program);
    while runner.is_running() {
        runner.step(&mut input, &mut output).unwrap();
    }
    assert_eq!(output, [1]);
}
