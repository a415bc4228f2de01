//! Running a program one instruction at a time.
use vstd::prelude::*;
use crate::error::RuntimeError;
use crate::program::{
    Instruction, Op, Program, ProgramIndex, advance_path, fits, lemma_fits_path, lemma_path_prefix,
    lemma_path_push, lemma_path_update, op_at, siblings_at, valid_path,
};
use crate::runtime::internal::{NextAction, Runtime};
use crate::runtime::runner::fault_error;
use crate::runtime::{
    ByteRead, ByteWrite, DEFAULT_MEMORY_CELLS, Fault, Machine, MemorySize, RunOutcome, in_bounds,
    run_one, run_seq, step_op, zero_cells,
};

verus! {

/// Where the next step goes after executing the instruction at `path`: into the body of
/// a loop whose cell was not zero, when the body is not empty; else on, as
/// [`advance_path`] says.
pub open spec fn after_step(ops: Seq<Op>, path: Seq<usize>, enter: bool) -> Option<Seq<usize>> {
    if enter && op_at(ops, path)->Loop_0.len() > 0 {
        Some(path.push(0))
    } else {
        advance_path(ops, path)
    }
}

/// A runner that executes one instruction per call of [`StepRunner::step`], and shows
/// its state between calls.
pub struct StepRunner<'a> {
    program: &'a Program,
    runtime: Runtime,
    index: Option<ProgramIndex>,
}

impl<'a> StepRunner<'a> {
    /// The runtime is well formed, and the index addresses an instruction.
    pub closed spec fn wf(&self) -> bool {
        &&& self.runtime.wf()
        &&& self.index matches Some(i) ==> valid_path(self.program@, i@)
    }

    pub closed spec fn program(&self) -> Seq<Op> {
        self.program@
    }

    pub closed spec fn memsize(&self) -> MemorySize {
        self.runtime.size()
    }

    /// The path of the next instruction; `None` once the program has finished.
    pub closed spec fn path(&self) -> Option<Seq<usize>> {
        match self.index {
            Some(i) => Some(i@),
            None => None,
        }
    }

    pub closed spec fn pointer(&self) -> isize {
        self.runtime.pointer()
    }

    pub closed spec fn cells(&self) -> Map<int, u8> {
        self.runtime.cells()
    }

    pub open spec fn machine<R: ByteRead, W: ByteWrite>(&self, input: &R, output: &W) -> Machine {
        Machine {
            pointer: self.pointer(),
            cells: self.cells(),
            input: input.remaining(),
            output: output.written(),
        }
    }

    /// A step runner of `program` with the default memory.
    pub fn new(program: &'a Program) -> (r: Self)
        ensures
            r.wf(),
            r.program() == program@,
            r.memsize() == MemorySize::Fixed(DEFAULT_MEMORY_CELLS),
            r.pointer() == 0,
            r.cells() == zero_cells(),
            program@.len() == 0 ==> r.path() is None,
            program@.len() > 0 ==> r.path() == Some(seq![0usize]),
    {
        Self::with_memsize(program, MemorySize::Fixed(DEFAULT_MEMORY_CELLS))
    }

    /// A step runner of `program` with a memory of the given size.
    pub fn with_memsize(program: &'a Program, memsize: MemorySize) -> (r: Self)
        ensures
            r.wf(),
            r.program() == program@,
            r.memsize() == memsize,
            r.pointer() == 0,
            r.cells() == zero_cells(),
            program@.len() == 0 ==> r.path() is None,
            program@.len() > 0 ==> r.path() == Some(seq![0usize]),
    {
        let runtime = Runtime::new(memsize);
        let index = program.first_index();
        StepRunner { program, runtime, index }
    }

    /// The index of the next instruction; `None` once the program has finished.
    pub fn get_index(&self) -> (r: Option<&ProgramIndex>)
        ensures
            match r {
                Some(i) => self.path() == Some(i@),
                None => self.path() is None,
            },
    {
        match &self.index {
            Some(i) => Some(i),
            None => None,
        }
    }

    /// The next instruction; `None` once the program has finished.
    pub fn get_current_instruction(&self) -> (r: Option<&Instruction>)
        requires
            self.wf(),
        ensures
            match r {
                Some(inst) => self.path() is Some && inst.op() == op_at(
                    self.program(),
                    self.path()->0,
                ),
                None => self.path() is None,
            },
    {
        match &self.index {
            Some(i) => Some(self.program.index(i)),
            None => None,
        }
    }

    /// The pointer.
    pub fn get_pointer(&self) -> (r: isize)
        ensures
            r == self.pointer(),
    {
        self.runtime.get_pointer()
    }

    /// The cell at `address`, allocated if need be; `None` outside the memory.
    pub fn get_data_at_mut(&mut self, address: isize) -> (r: Option<&mut u8>)
        requires
            old(self).wf(),
        ensures
            final(self).wf(),
            final(self).program() == old(self).program(),
            final(self).memsize() == old(self).memsize(),
            final(self).pointer() == old(self).pointer(),
            final(self).path() == old(self).path(),
            match r {
                Some(cell) => {
                    &&& in_bounds(old(self).memsize(), address as int)
                    &&& *cell == old(self).cells()[address as int]
                    &&& final(self).cells() == old(self).cells().insert(address as int, *final(cell))
                },
                None => !in_bounds(old(self).memsize(), address as int) && final(self).cells()
                    == old(self).cells(),
            },
    {
        self.runtime.get_data_at_mut(address)
    }

    /// Whether an instruction is left to execute.
    pub fn is_running(&self) -> (r: bool)
        ensures
            r == self.path() is Some,
    {
        self.index.is_some()
    }

    /// Executes the next instruction, if any. A loop only tests its cell; its body, or
    /// the loop again, comes in later steps.
    pub fn step<R: ByteRead, W: ByteWrite>(&mut self, input: &mut R, output: &mut W) -> (r: Result<
        (),
        RuntimeError,
    >)
        requires
            old(self).wf(),
        ensures
            final(self).wf(),
            final(self).program() == old(self).program(),
            final(self).memsize() == old(self).memsize(),
            final(input).describes_input() == old(input).describes_input(),
            final(output).describes_output() == old(output).describes_output(),
            final(input).reads_never_fail() == old(input).reads_never_fail(),
            final(output).writes_never_fail() == old(output).writes_never_fail(),
            old(input).reads_never_fail() && old(output).writes_never_fail() ==> !(r matches Err(
                RuntimeError::IoError(_),
            )),
            r matches Err(RuntimeError::IoError(_)) ==> old(self).path() is Some && (op_at(
                old(self).program(),
                old(self).path()->0,
            ) is Input || op_at(old(self).program(), old(self).path()->0) is Output) && final(self).pointer() == old(self).pointer() && final(self).cells() == old(self).cells()
                && final(self).path() == old(self).path(),
            old(input).describes_input() && old(output).describes_output() && r is Ok ==> drive_step(
                old(self).memsize(),
                old(self).program(),
                old(self).machine(&*old(input), &*old(output)),
                old(self).path(),
            ) == Ok::<DriveState, Fault>(
                (final(self).machine(&*final(input), &*final(output)), final(self).path()),
            ),
            old(input).describes_input() && old(output).describes_output() ==> match old(self).path() {
                None => r is Ok && final(self).path() is None && final(self).machine(
                    &*final(input),
                    &*final(output),
                ) == old(self).machine(&*old(input), &*old(output)),
                Some(path) => {
                    let s = step_op(
                        old(self).memsize(),
                        old(self).machine(&*old(input), &*old(output)),
                        op_at(old(self).program(), path),
                    );
                    match r {
                        Ok(_) => s is Ok && final(self).machine(&*final(input), &*final(output))
                            == s->Ok_0.0 && final(self).path() == after_step(
                            old(self).program(),
                            path,
                            s->Ok_0.1,
                        ),
                        Err(RuntimeError::IoError(_)) => final(self).path() == old(self).path(),
                        Err(e) => s is Err && fault_error(s->Err_0, e) && final(self).machine(
                            &*final(input),
                            &*final(output),
                        ) == old(self).machine(&*old(input), &*old(output)) && final(self).path()
                            == old(self).path(),
                    }
                },
            },
    {
        if self.index.is_none() {
            return Ok(());
        }
        let mut index = self.index.take().unwrap();
        let ghost path = index@;
        let program = self.program;
        let inst = program.index(&index);
        match self.runtime.exec_one(inst, input, output) {
            Err(e) => {
                self.index = Some(index);
                Err(e)
            },
            Ok(NextAction::StepIn(sub)) if sub.len() > 0 => {
                proof {
                    lemma_path_push(program@, path);
                }
                index.step_in();
                self.index = Some(index);
                Ok(())
            },
            Ok(_) => {
                let ghost sib = siblings_at(program@, path);
                proof {
                    if path.last() + 1 < sib.len() {
                        lemma_path_update(program@, path, (path.last() + 1) as usize);
                    } else if path.len() > 1 {
                        lemma_path_prefix(program@, path);
                    }
                }
                if program.step_index(&mut index) || index.step_out() {
                    self.index = Some(index);
                } else {
                    self.index = None;
                }
                Ok(())
            },
        }
    }
}

} // verus!

verus! {

/// A machine with the path of its next instruction; `None` once the program has finished.
pub type DriveState = (Machine, Option<Seq<usize>>);

/// One call of [`StepRunner::step`]: the instruction at the path runs, and the path
/// moves on.
pub open spec fn drive_step(size: MemorySize, ops: Seq<Op>, m: Machine, path: Option<Seq<usize>>) -> Result<
    DriveState,
    Fault,
> {
    match path {
        None => Ok((m, None)),
        Some(p) => match step_op(size, m, op_at(ops, p)) {
            Ok((m2, enter)) => Ok((m2, after_step(ops, p, enter))),
            Err(f) => Err(f),
        },
    }
}

/// `n` calls of [`StepRunner::step`], stopping at the first fault.
pub open spec fn drive(
    size: MemorySize,
    ops: Seq<Op>,
    m: Machine,
    path: Option<Seq<usize>>,
    n: nat,
) -> Result<DriveState, Fault>
    decreases n,
{
    if n == 0 {
        Ok((m, path))
    } else {
        match drive_step(size, ops, m, path) {
            Ok((m2, next_path)) => drive(size, ops, m2, next_path, (n - 1) as nat),
            Err(f) => Err(f),
        }
    }
}

proof fn lemma_drive_add(
    size: MemorySize,
    ops: Seq<Op>,
    m: Machine,
    path: Option<Seq<usize>>,
    a: nat,
    b: nat,
)
    requires
        drive(size, ops, m, path, a) is Ok,
    ensures
        drive(size, ops, m, path, a + b) == drive(
            size,
            ops,
            drive(size, ops, m, path, a)->Ok_0.0,
            drive(size, ops, m, path, a)->Ok_0.1,
            b,
        ),
    decreases a,
{
    if a > 0 {
        let (m2, next_path) = drive_step(size, ops, m, path)->Ok_0;
        lemma_drive_add(size, ops, m2, next_path, (a - 1) as nat, b);
        assert((a + b - 1) as nat == (a - 1) as nat + b);
    }
}

proof fn lemma_op_at_sibling(ops: Seq<Op>, path: Seq<usize>)
    requires
        valid_path(ops, path),
    ensures
        op_at(ops, path) == siblings_at(ops, path)[path.last() as int],
        path.last() < siblings_at(ops, path).len(),
    decreases path.len(),
{
    if path.len() > 1 {
        lemma_op_at_sibling(ops[path[0] as int]->Loop_0, path.drop_first());
        assert(path.drop_first().last() == path.last());
    }
}

/// A loop whose body is empty and whose cell is not zero never finishes.
proof fn lemma_empty_loop_never_finishes(size: MemorySize, op: Op, m: Machine, fuel: nat)
    requires
        op is Loop,
        op->Loop_0.len() == 0,
        step_op(size, m, op) == Ok::<(Machine, bool), Fault>((m, true)),
    ensures
        !(run_one(size, op, m, fuel) is Finished),
    decreases fuel,
{
    if fuel > 0 {
        assert(run_seq(size, op->Loop_0, m, (fuel - 1) as nat) == RunOutcome::Finished(
            m,
            (fuel - 1) as nat,
        ));
        lemma_empty_loop_never_finishes(size, op, m, (fuel - 1) as nat);
    }
}

/// Running the instruction at `path` to its end takes the step driver from `path` to
/// the path after it, with the same machine.
proof fn lemma_drive_one(size: MemorySize, ops: Seq<Op>, path: Seq<usize>, m: Machine, fuel: nat) -> (n: nat)
    requires
        fits(ops),
        valid_path(ops, path),
        run_one(size, op_at(ops, path), m, fuel) is Finished,
    ensures
        drive(size, ops, m, Some(path), n) == Ok::<DriveState, Fault>(
            (run_one(size, op_at(ops, path), m, fuel)->Finished_0, advance_path(ops, path)),
        ),
    decreases fuel, 0nat,
{
    let op = op_at(ops, path);
    lemma_fits_path(ops, path);
    let (m2, enter) = step_op(size, m, op)->Ok_0;
    if !enter {
        assert(drive(size, ops, m2, advance_path(ops, path), 0) == Ok::<DriveState, Fault>(
            (m2, advance_path(ops, path)),
        ));
        1
    } else {
        let body = op->Loop_0;
        if body.len() == 0 {
            assert(m2 == m);
            lemma_empty_loop_never_finishes(size, op, m, fuel);
            0
        } else {
            let m3 = run_seq(size, body, m2, (fuel - 1) as nat)->Finished_0;
            let f3 = run_seq(size, body, m2, (fuel - 1) as nat)->Finished_1;
            lemma_path_push(ops, path);
            let inner = path.push(0);
            assert(body.skip(0) =~= body);
            assert(inner.last() == 0);
            let n2 = lemma_drive_seq(size, ops, inner, m2, (fuel - 1) as nat);
            assert(inner.drop_last() =~= path);
            let n3 = lemma_drive_one(size, ops, path, m3, f3);
            assert(drive(size, ops, m, Some(path), 1) == Ok::<DriveState, Fault>((m2, Some(inner))))
                by {
                assert(drive(size, ops, m2, Some(inner), 0) == Ok::<DriveState, Fault>(
                    (m2, Some(inner)),
                ));
            }
            lemma_drive_add(size, ops, m, Some(path), 1, n2);
            lemma_drive_add(size, ops, m, Some(path), 1 + n2, n3);
            1 + n2 + n3
        }
    }
}

/// Running the instructions from `q` to the end of their sequence takes the step
/// driver from `q` to the enclosing loop, or to the end of the program at the top.
proof fn lemma_drive_seq(size: MemorySize, ops: Seq<Op>, q: Seq<usize>, m: Machine, fuel: nat) -> (n: nat)
    requires
        fits(ops),
        valid_path(ops, q),
        run_seq(size, siblings_at(ops, q).skip(q.last() as int), m, fuel) is Finished,
    ensures
        drive(size, ops, m, Some(q), n) == Ok::<DriveState, Fault>(
            (
                run_seq(size, siblings_at(ops, q).skip(q.last() as int), m, fuel)->Finished_0,
                if q.len() > 1 {
                    Some(q.drop_last())
                } else {
                    None
                },
            ),
        ),
    decreases fuel, siblings_at(ops, q).len() - q.last() + 1,
{
    let s = siblings_at(ops, q);
    let j = q.last() as int;
    lemma_op_at_sibling(ops, q);
    lemma_fits_path(ops, q);
    let rest = s.skip(j);
    assert(rest[0] == op_at(ops, q));
    let m1 = run_one(size, op_at(ops, q), m, fuel)->Finished_0;
    let f1 = run_one(size, op_at(ops, q), m, fuel)->Finished_1;
    let n1 = lemma_drive_one(size, ops, q, m, fuel);
    assert(rest.drop_first() =~= s.skip(j + 1));
    if j + 1 < s.len() {
        let q2 = q.update(q.len() - 1, (j + 1) as usize);
        lemma_path_update(ops, q, (j + 1) as usize);
        assert(q2.last() == j + 1);
        assert(q2.drop_last() =~= q.drop_last());
        let n2 = lemma_drive_seq(size, ops, q2, m1, f1);
        lemma_drive_add(size, ops, m, Some(q), n1, n2);
        n1 + n2
    } else {
        assert(s.skip(j + 1).len() == 0);
        n1
    }
}

/// The path a step runner starts at: the first instruction, if any.
pub open spec fn start_path(ops: Seq<Op>) -> Option<Seq<usize>> {
    if ops.len() > 0 {
        Some(seq![0usize])
    } else {
        None
    }
}

/// Stepping a program to its end gives what a run to completion gives: the same
/// memory, pointer, output and unread input.
pub proof fn lemma_stepping_matches_run(size: MemorySize, ops: Seq<Op>, m: Machine, fuel: nat)
    requires
        fits(ops),
        run_seq(size, ops, m, fuel) is Finished,
    ensures
        exists|n: nat|
            #[trigger] drive(size, ops, m, start_path(ops), n) == Ok::<DriveState, Fault>((run_seq(size, ops, m, fuel)->Finished_0, None)),
{
    if ops.len() == 0 {
        assert(drive(size, ops, m, None, 0) == Ok::<DriveState, Fault>(
            (run_seq(size, ops, m, fuel)->Finished_0, None),
        ));
    } else {
        let q = seq![0usize];
        assert(q.drop_first().len() == 0);
        assert(valid_path(ops, q));
        assert(siblings_at(ops, q) == ops);
        assert(ops.skip(0) =~= ops);
        let n = lemma_drive_seq(size, ops, q, m, fuel);
        assert(drive(size, ops, m, Some(q), n) == Ok::<DriveState, Fault>(
            (run_seq(size, ops, m, fuel)->Finished_0, None),
        ));
    }
}

} // verus!
