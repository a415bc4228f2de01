//! Running a whole program at once.
use vstd::prelude::*;
use crate::error::RuntimeError;
use crate::program::{Instruction, Op, Program, ops_of_vec};
use crate::runtime::internal::{NextAction, Runtime};
use crate::runtime::{
    ByteRead, ByteWrite, DEFAULT_MEMORY_CELLS, Fault, Machine, MemorySize, RunOutcome,
    initial_machine, run_one, run_seq, zero_cells,
};

verus! {

/// The runtime error that stands for a fault.
pub open spec fn fault_error(f: Fault, e: RuntimeError) -> bool {
    match f {
        Fault::OutOfBounds(a) => e matches RuntimeError::OutOfMemoryBounds { address } && address
            == a,
        Fault::Eof => e is Eof,
    }
}

/// A result of a run agrees with its outcome `o`; `m` is the machine at the end.
pub open spec fn run_agrees(o: RunOutcome, r: Result<(), RuntimeError>, m: Machine) -> bool {
    match o {
        RunOutcome::Finished(m2, _) => r is Ok && m == m2,
        RunOutcome::Faulted(f, m2) => r is Err && fault_error(f, r->Err_0) && m == m2,
        RunOutcome::OutOfFuel => r matches Err(RuntimeError::StepLimitReached),
    }
}

/// The fault of a failing step.
pub open spec fn step_fault(size: MemorySize, m: Machine, op: Op) -> Fault {
    crate::runtime::step_op(size, m, op)->Err_0
}

/// A runner that runs a whole program at once.
pub struct Runner<'a> {
    program: &'a Program,
    runtime: Runtime,
}

/// Runs `instructions` with at most `*fuel` instructions executed, lowering `*fuel` by
/// one for each.
fn run_internal<R: ByteRead, W: ByteWrite>(
    runtime: &mut Runtime,
    instructions: &Vec<Instruction>,
    input: &mut R,
    output: &mut W,
    fuel: &mut u64,
) -> (r: Result<(), RuntimeError>)
    requires
        old(runtime).wf(),
    ensures
        final(runtime).wf(),
        final(runtime).size() == old(runtime).size(),
        *final(fuel) <= *old(fuel),
        final(input).describes_input() == old(input).describes_input(),
        final(output).describes_output() == old(output).describes_output(),
        final(input).reads_never_fail() == old(input).reads_never_fail(),
        final(output).writes_never_fail() == old(output).writes_never_fail(),
        old(input).reads_never_fail() && old(output).writes_never_fail() ==> !(r matches Err(
            RuntimeError::IoError(_),
        )),
        r matches Err(RuntimeError::IoError(_)) ==> crate::runtime::has_io(ops_of_vec(instructions)),
        old(input).describes_input() && old(output).describes_output() ==> r matches Err(
            RuntimeError::IoError(_),
        ) || (run_agrees(
            run_seq(
                old(runtime).size(),
                ops_of_vec(instructions),
                old(runtime).machine(&*old(input), &*old(output)),
                *old(fuel) as nat,
            ),
            r,
            final(runtime).machine(&*final(input), &*final(output)),
        ) && (r is Ok ==> run_seq(
            old(runtime).size(),
            ops_of_vec(instructions),
            old(runtime).machine(&*old(input), &*old(output)),
            *old(fuel) as nat,
        )->Finished_1 == *final(fuel) as nat)),
    decreases *old(fuel),
{
    let ghost size = runtime.size();
    let ghost ops = ops_of_vec(instructions);
    let ghost m0 = runtime.machine(&*input, &*output);
    let ghost f0 = *fuel as nat;
    let ghost modeled = input.describes_input() && output.describes_output();
    let mut i: usize = 0;
    assert(ops.skip(0) =~= ops);
    while i < instructions.len()
        invariant
            runtime.wf(),
            runtime.size() == size,
            size == old(runtime).size(),
            ops == ops_of_vec(instructions),
            m0 == old(runtime).machine(&*old(input), &*old(output)),
            f0 == *old(fuel) as nat,
            i <= instructions.len(),
            *fuel <= f0,
            input.describes_input() == old(input).describes_input(),
            output.describes_output() == old(output).describes_output(),
            input.reads_never_fail() == old(input).reads_never_fail(),
            output.writes_never_fail() == old(output).writes_never_fail(),
            modeled == (old(input).describes_input() && old(output).describes_output()),
            modeled ==> run_seq(size, ops, m0, f0) == run_seq(
                size,
                ops.skip(i as int),
                runtime.machine(&*input, &*output),
                *fuel as nat,
            ),
        decreases instructions.len() - i,
    {
        let inst = &instructions[i];
        let ghost op = inst.op();
        let ghost mi = runtime.machine(&*input, &*output);
        let ghost fi = *fuel as nat;
        assert(ops.skip(i as int)[0] == op);
        loop
            invariant_except_break
                modeled ==> run_one(size, op, mi, fi) == run_one(
                    size,
                    op,
                    runtime.machine(&*input, &*output),
                    *fuel as nat,
                ),
            invariant
                runtime.wf(),
                runtime.size() == size,
                size == old(runtime).size(),
                m0 == old(runtime).machine(&*old(input), &*old(output)),
                f0 == *old(fuel) as nat,
                *fuel <= fi,
                fi <= f0,
                ops == ops_of_vec(instructions),
                op == inst.op(),
                i < instructions.len(),
                *inst == instructions@[i as int],
                input.describes_input() == old(input).describes_input(),
                output.describes_output() == old(output).describes_output(),
                input.reads_never_fail() == old(input).reads_never_fail(),
                output.writes_never_fail() == old(output).writes_never_fail(),
                modeled == (old(input).describes_input() && old(output).describes_output()),
                modeled ==> run_seq(size, ops, m0, f0) == run_seq(size, ops.skip(i as int), mi, fi),
                ops.skip(i as int).len() > 0,
                ops.skip(i as int)[0] == op,
            ensures
                modeled ==> run_one(size, op, mi, fi) == RunOutcome::Finished(
                    runtime.machine(&*input, &*output),
                    *fuel as nat,
                ),
            decreases *fuel,
        {
            if *fuel == 0 {
                proof {
                    if modeled {
                        assert(run_seq(size, ops.skip(i as int), mi, fi) == RunOutcome::OutOfFuel);
                    }
                }
                return Err(RuntimeError::StepLimitReached);
            }
            let ghost mb = runtime.machine(&*input, &*output);
            let ghost fb = *fuel as nat;
            *fuel -= 1;
            match runtime.exec_one(inst, input, output) {
                Err(e) => {
                    proof {
                        if e is IoError {
                            assert(ops[i as int] == op);
                            assert(crate::runtime::has_io(ops));
                        }
                        if modeled && !(e is IoError) {
                            assert(run_one(size, op, mb, fb) == RunOutcome::Faulted(
                                step_fault(size, mb, op),
                                mb,
                            ));
                            assert(run_seq(size, ops.skip(i as int), mi, fi) == run_one(
                                size,
                                op,
                                mi,
                                fi,
                            ));
                        }
                    }
                    return Err(e);
                },
                Ok(NextAction::Next) => {
                    break ;
                },
                Ok(NextAction::StepIn(sub)) => {
                    let ghost m2 = runtime.machine(&*input, &*output);
                    let rec = run_internal(runtime, sub, input, output, fuel);
                    proof {
                        if modeled {
                        let body = ops_of_vec(sub);
                        assert(run_one(size, op, mb, fb) == match run_seq(
                            size,
                            body,
                            m2,
                            (fb - 1) as nat,
                        ) {
                            RunOutcome::Finished(m3, f3) => if f3 < fb {
                                run_one(size, op, m3, f3)
                            } else {
                                RunOutcome::OutOfFuel
                            },
                            other => other,
                        });
                        if rec is Err && !(rec matches Err(RuntimeError::IoError(_))) {
                            assert(run_seq(size, ops.skip(i as int), mi, fi) == run_one(
                                size,
                                op,
                                mi,
                                fi,
                            ));
                        }
                        }
                    }
                    if let Err(e) = rec {
                        proof {
                            if e is IoError {
                                assert(ops[i as int] == op);
                                assert(crate::runtime::has_io(ops));
                            }
                        }
                        return Err(e);
                    }
                },
            }
        }
        proof {
            assert(ops.skip(i as int).drop_first() =~= ops.skip(i as int + 1));
        }
        i += 1;
    }
    Ok(())
}

impl<'a> Runner<'a> {
    #[verifier::type_invariant]
    spec fn fresh(&self) -> bool {
        &&& self.runtime.wf()
        &&& self.runtime.pointer() == 0
        &&& self.runtime.cells() == zero_cells()
    }

    pub closed spec fn program(&self) -> Seq<Op> {
        self.program@
    }

    pub closed spec fn memsize(&self) -> MemorySize {
        self.runtime.size()
    }

    /// A runner of `program` with the default memory.
    pub fn new(program: &'a Program) -> (r: Self)
        ensures
            r.program() == program@,
            r.memsize() == MemorySize::Fixed(DEFAULT_MEMORY_CELLS),
    {
        Self::with_memsize(program, MemorySize::Fixed(DEFAULT_MEMORY_CELLS))
    }

    /// A runner of `program` with a memory of the given size.
    pub fn with_memsize(program: &'a Program, memsize: MemorySize) -> (r: Self)
        ensures
            r.program() == program@,
            r.memsize() == memsize,
    {
        let runtime = Runtime::new(memsize);
        Runner { program, runtime }
    }

    /// Runs the program to its end, reading `input` and writing `output`. At most
    /// `u64::MAX` instructions are executed.
    pub fn run<R: ByteRead, W: ByteWrite>(self, input: R, output: &mut W) -> (r: Result<
        (),
        RuntimeError,
    >)
        ensures
            crate::runtime::io_exact(&input, &*old(output)) ==> run_agrees_output(
                run_seq(
                    self.memsize(),
                    self.program(),
                    initial_machine(input.remaining(), old(output).written()),
                    u64::MAX as nat,
                ),
                r,
                final(output).written(),
            ),
            input.reads_never_fail() && old(output).writes_never_fail() ==> !(r matches Err(
                RuntimeError::IoError(_),
            )),
            r matches Err(RuntimeError::IoError(_)) ==> crate::runtime::has_io(self.program()),
            input.describes_input() && old(output).describes_output() ==> r matches Err(
                RuntimeError::IoError(_),
            ) || run_agrees_output(
                run_seq(
                    self.memsize(),
                    self.program(),
                    initial_machine(input.remaining(), old(output).written()),
                    u64::MAX as nat,
                ),
                r,
                final(output).written(),
            ),
    {
        proof {
            use_type_invariant(&self);
        }
        let Runner { program, runtime } = self;
        let mut runtime = runtime;
        let mut input = input;
        let mut fuel: u64 = u64::MAX;
        let ghost m0 = runtime.machine(&input, &*output);
        assert(m0 == initial_machine(input.remaining(), output.written()));
        run_internal(&mut runtime, program.instruction_vec(), &mut input, output, &mut fuel)
    }
}

/// A result of a run agrees with its outcome `o` as far as the result and the output
/// `out` go.
pub open spec fn run_agrees_output(o: RunOutcome, r: Result<(), RuntimeError>, out: Seq<u8>) -> bool {
    match o {
        RunOutcome::Finished(m, _) => r is Ok && out == m.output,
        RunOutcome::Faulted(f, m) => r is Err && fault_error(f, r->Err_0) && out == m.output,
        RunOutcome::OutOfFuel => r matches Err(RuntimeError::StepLimitReached),
    }
}

} // verus!
