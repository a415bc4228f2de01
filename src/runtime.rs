//! Running programs: memory, the interpreter, and its two drivers.
use vstd::prelude::*;
use crate::error::RuntimeError;
use crate::program::{Op, Program};
use crate::runtime::runner::{Runner, run_agrees_output};

pub mod internal;
pub mod runner;
pub mod step_runner;

verus! {

/// How far the memory reaches.
#[derive(Debug, Clone, Copy, PartialEq, Eq, Structural)]
pub enum MemorySize {
    /// Cells `0..n`; any other access fails.
    Fixed(usize),
    /// Cells from `0` upwards, grown on access; a negative address fails.
    RightInfinite,
    /// Cells in both directions, grown on access.
    BothInfinite,
}

/// The number of cells of the fixed memory used unless another size is given.
pub const DEFAULT_MEMORY_CELLS: usize = 30000;

/// `address` is a cell of a memory of size `size`.
pub open spec fn in_bounds(size: MemorySize, address: int) -> bool {
    match size {
        MemorySize::Fixed(n) => 0 <= address < n,
        MemorySize::RightInfinite => 0 <= address,
        MemorySize::BothInfinite => true,
    }
}

/// A source of input bytes.
pub trait ByteRead {
    /// Whether [`ByteRead::remaining`] describes this reader; readers that do not know
    /// their input ahead promise nothing about the bytes they hand out.
    open spec fn describes_input(&self) -> bool {
        false
    }

    /// The bytes that the coming reads hand out before the input ends.
    open spec fn remaining(&self) -> Seq<u8> {
        Seq::empty()
    }

    /// Whether reads of this reader never fail.
    open spec fn reads_never_fail(&self) -> bool {
        false
    }

    /// Reads one byte; `Ok(None)` when the input has ended.
    fn read_byte(&mut self) -> (r: Result<Option<u8>, std::io::Error>)
        ensures
            final(self).describes_input() == old(self).describes_input(),
            final(self).reads_never_fail() == old(self).reads_never_fail(),
            old(self).reads_never_fail() ==> r is Ok,
            old(self).describes_input() ==> (r matches Ok(Some(b)) ==> old(self).remaining().len() > 0
                && b == old(self).remaining()[0] && final(self).remaining() == old(
                self,
            ).remaining().drop_first()),
            old(self).describes_input() ==> (r matches Ok(None) ==> old(self).remaining().len() == 0
                && final(self).remaining() == old(self).remaining()),
    ;
}

/// A sink of output bytes.
pub trait ByteWrite {
    /// Whether [`ByteWrite::written`] describes this writer.
    open spec fn describes_output(&self) -> bool {
        false
    }

    /// The bytes written so far.
    open spec fn written(&self) -> Seq<u8> {
        Seq::empty()
    }

    /// Whether writes to this writer never fail.
    open spec fn writes_never_fail(&self) -> bool {
        false
    }

    /// Writes one byte.
    fn write_byte(&mut self, b: u8) -> (r: Result<(), std::io::Error>)
        ensures
            final(self).describes_output() == old(self).describes_output(),
            final(self).writes_never_fail() == old(self).writes_never_fail(),
            old(self).writes_never_fail() ==> r is Ok,
            old(self).describes_output() ==> (r is Ok ==> final(self).written() == old(
                self,
            ).written().push(b)),
    ;
}

impl<'a> ByteRead for &'a [u8] {
    open spec fn describes_input(&self) -> bool {
        true
    }

    open spec fn reads_never_fail(&self) -> bool {
        true
    }

    open spec fn remaining(&self) -> Seq<u8> {
        self@
    }

    fn read_byte(&mut self) -> (r: Result<Option<u8>, std::io::Error>) {
        let s: &'a [u8] = *self;
        if s.len() == 0 {
            Ok(None)
        } else {
            let b = s[0];
            let (_, rest) = s.split_at(1);
            *self = rest;
            assert(rest@ =~= s@.drop_first());
            Ok(Some(b))
        }
    }
}

impl ByteWrite for Vec<u8> {
    open spec fn describes_output(&self) -> bool {
        true
    }

    open spec fn writes_never_fail(&self) -> bool {
        true
    }

    open spec fn written(&self) -> Seq<u8> {
        self@
    }

    fn write_byte(&mut self, b: u8) -> (r: Result<(), std::io::Error>) {
        self.push(b);
        Ok(())
    }
}

/// Some instruction of `ops`, at any depth, reads or writes.
pub open spec fn has_io(ops: Seq<Op>) -> bool
    decreases ops,
{
    exists|i: int|
        0 <= i < ops.len() && (#[trigger] ops[i] is Input || ops[i] is Output || (ops[i] is Loop
            && has_io(ops[i]->Loop_0)))
}

/// The reader and the writer are described, and never fail: runs on them follow the
/// model exactly.
pub open spec fn io_exact<R: ByteRead, W: ByteWrite>(input: &R, output: &W) -> bool {
    &&& input.describes_input()
    &&& input.reads_never_fail()
    &&& output.describes_output()
    &&& output.writes_never_fail()
}

/// The state of a running program, as far as its result goes.
pub ghost struct Machine {
    pub pointer: isize,
    pub cells: Map<int, u8>,
    /// The input still to be read.
    pub input: Seq<u8>,
    /// The output written so far.
    pub output: Seq<u8>,
}

/// Why a run stopped before its end.
pub ghost enum Fault {
    OutOfBounds(int),
    Eof,
}

/// All cells zero.
pub open spec fn zero_cells() -> Map<int, u8> {
    Map::new(|a: int| true, |a: int| 0u8)
}

/// The machine at the start of a run.
pub open spec fn initial_machine(input: Seq<u8>, output: Seq<u8>) -> Machine {
    Machine { pointer: 0, cells: zero_cells(), input, output }
}

/// `v + d` modulo 256.
pub open spec fn wrap_byte(v: u8, d: int) -> u8 {
    ((v as int + d) % 256) as u8
}

/// One instruction: the next machine, and whether a loop's body is to be run; or the
/// fault. A loop only tests its cell here.
pub open spec fn step_op(size: MemorySize, m: Machine, op: Op) -> Result<(Machine, bool), Fault> {
    let p = m.pointer as int;
    match op {
        Op::PointerAdd(d) => Ok((Machine { pointer: m.pointer.wrapping_add(d as isize), ..m }, false)),
        _ => if !in_bounds(size, p) {
            Err(Fault::OutOfBounds(p))
        } else {
            match op {
                Op::DataAdd(d) => Ok(
                    (Machine { cells: m.cells.insert(p, wrap_byte(m.cells[p], d)), ..m }, false),
                ),
                Op::Output => Ok((Machine { output: m.output.push(m.cells[p]), ..m }, false)),
                Op::Input => if m.input.len() == 0 {
                    Err(Fault::Eof)
                } else {
                    Ok(
                        (
                            Machine {
                                cells: m.cells.insert(p, m.input[0]),
                                input: m.input.drop_first(),
                                ..m
                            },
                            false,
                        ),
                    )
                },
                _ => Ok((m, m.cells[p] != 0)),
            }
        },
    }
}

/// How a run with a budget of instructions ended.
pub ghost enum RunOutcome {
    /// The instructions ran to their end; the budget left.
    Finished(Machine, nat),
    /// An instruction failed; the machine as it stood then.
    Faulted(Fault, Machine),
    /// The budget was used up.
    OutOfFuel,
}

/// Running `ops` in order with at most `fuel` instructions executed, each test of a loop
/// counting as one.
pub open spec fn run_seq(size: MemorySize, ops: Seq<Op>, m: Machine, fuel: nat) -> RunOutcome
    decreases fuel, ops.len() + 1,
{
    if ops.len() == 0 {
        RunOutcome::Finished(m, fuel)
    } else {
        match run_one(size, ops[0], m, fuel) {
            RunOutcome::Finished(m2, f2) => if f2 <= fuel {
                run_seq(size, ops.drop_first(), m2, f2)
            } else {
                RunOutcome::OutOfFuel
            },
            other => other,
        }
    }
}

/// Running one instruction to its end: a loop runs its body while its cell is not zero.
pub open spec fn run_one(size: MemorySize, op: Op, m: Machine, fuel: nat) -> RunOutcome
    decreases fuel, 0nat,
{
    if fuel == 0 {
        RunOutcome::OutOfFuel
    } else {
        match step_op(size, m, op) {
            Err(f) => RunOutcome::Faulted(f, m),
            Ok((m2, enter)) => if !enter {
                RunOutcome::Finished(m2, (fuel - 1) as nat)
            } else {
                match op {
                    Op::Loop(body) => match run_seq(size, body, m2, (fuel - 1) as nat) {
                        RunOutcome::Finished(m3, f3) => if f3 < fuel {
                            run_one(size, op, m3, f3)
                        } else {
                            RunOutcome::OutOfFuel
                        },
                        other => other,
                    },
                    _ => RunOutcome::OutOfFuel,
                }
            },
        }
    }
}

} // verus!

verus! {

/// Runs `program` on `input`, writing to `output`, with the default memory.
pub fn run<R: ByteRead, W: ByteWrite>(program: &Program, input: R, output: &mut W) -> (r: Result<
    (),
    RuntimeError,
>)
    ensures
        io_exact(&input, &*old(output)) ==> run_agrees_output(
            run_seq(
                MemorySize::Fixed(DEFAULT_MEMORY_CELLS),
                program@,
                initial_machine(input.remaining(), old(output).written()),
                u64::MAX as nat,
            ),
            r,
            final(output).written(),
        ),
        input.reads_never_fail() && old(output).writes_never_fail() ==> !(r matches Err(
            RuntimeError::IoError(_),
        )),
        r matches Err(RuntimeError::IoError(_)) ==> has_io(program@),
        input.describes_input() && old(output).describes_output() ==> r matches Err(
            RuntimeError::IoError(_),
        ) || run_agrees_output(
            run_seq(
                MemorySize::Fixed(DEFAULT_MEMORY_CELLS),
                program@,
                initial_machine(input.remaining(), old(output).written()),
                u64::MAX as nat,
            ),
            r,
            final(output).written(),
        ),
{
    Runner::new(program).run(input, output)
}

/// Runs `program` on `input`, writing to `output`, with a memory of the given size.
pub fn run_with_memsize<R: ByteRead, W: ByteWrite>(
    program: &Program,
    input: R,
    output: &mut W,
    memsize: MemorySize,
) -> (r: Result<(), RuntimeError>)
    ensures
        io_exact(&input, &*old(output)) ==> run_agrees_output(
            run_seq(
                memsize,
                program@,
                initial_machine(input.remaining(), old(output).written()),
                u64::MAX as nat,
            ),
            r,
            final(output).written(),
        ),
        input.reads_never_fail() && old(output).writes_never_fail() ==> !(r matches Err(
            RuntimeError::IoError(_),
        )),
        r matches Err(RuntimeError::IoError(_)) ==> has_io(program@),
        input.describes_input() && old(output).describes_output() ==> r matches Err(
            RuntimeError::IoError(_),
        ) || run_agrees_output(
            run_seq(
                memsize,
                program@,
                initial_machine(input.remaining(), old(output).written()),
                u64::MAX as nat,
            ),
            r,
            final(output).written(),
        ),
{
    Runner::with_memsize(program, memsize).run(input, output)
}

} // verus!

verus! {

/// A memory of no cells rejects every instruction that touches a cell, at the pointer;
/// a run from the start fails on the first such instruction with address `0`.
pub proof fn lemma_fixed_zero_rejects(m: Machine, op: Op, rest: Seq<Op>, input: Seq<u8>, fuel: nat)
    requires
        !(op is PointerAdd),
    ensures
        step_op(MemorySize::Fixed(0), m, op) == Err::<(Machine, bool), Fault>(
            Fault::OutOfBounds(m.pointer as int),
        ),
        fuel > 0 ==> run_seq(
            MemorySize::Fixed(0),
            seq![op] + rest,
            initial_machine(input, Seq::empty()),
            fuel,
        ) == RunOutcome::Faulted(Fault::OutOfBounds(0), initial_machine(input, Seq::empty())),
{
    let m0 = initial_machine(input, Seq::empty());
    assert((seq![op] + rest)[0] == op);
    assert(step_op(MemorySize::Fixed(0), m0, op) == Err::<(Machine, bool), Fault>(
        Fault::OutOfBounds(0),
    ));
    if fuel > 0 {
        assert(run_one(MemorySize::Fixed(0), op, m0, fuel) == RunOutcome::Faulted(
            Fault::OutOfBounds(0),
            m0,
        ));
    }
}

} // verus!
