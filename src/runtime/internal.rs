//! The memory and the interpreter of single instructions.
use vstd::prelude::*;
use crate::error::RuntimeError;
use crate::program::{Instruction, Op, ops_of_vec};
use crate::runtime::{ByteRead, ByteWrite, Fault, Machine, MemorySize, in_bounds, step_op, wrap_byte};

verus! {

/// The memory of a running program. Cells are zero until written, and are allocated
/// on their first access.
pub struct Memory {
    size: MemorySize,
    /// The cells `0..`.
    right_data: Vec<u8>,
    /// The cells `..-1`, the cell `-1` first.
    left_data: Vec<u8>,
}

impl Memory {
    /// Fixed memories hold no cells beyond their size; only memories infinite in both
    /// directions hold negative cells.
    pub closed spec fn wf(&self) -> bool {
        &&& match self.size {
            MemorySize::Fixed(n) => self.right_data.len() <= n,
            _ => true,
        }
        &&& !(self.size is BothInfinite) ==> self.left_data.len() == 0
    }

    pub closed spec fn size(&self) -> MemorySize {
        self.size
    }

    /// The value of the cell at `address`.
    pub closed spec fn cell(&self, address: int) -> u8 {
        if 0 <= address < self.right_data.len() {
            self.right_data@[address]
        } else if address < 0 && -address - 1 < self.left_data.len() {
            self.left_data@[-address - 1]
        } else {
            0
        }
    }

    /// The values of all cells.
    pub open spec fn cells(&self) -> Map<int, u8> {
        Map::new(|a: int| true, |a: int| self.cell(a))
    }

    /// A memory of the given size with all cells zero.
    fn new(size: MemorySize) -> (r: Self)
        ensures
            r.wf(),
            r.size() == size,
            r.cells() == crate::runtime::zero_cells(),
    {
        let r = Memory { size, right_data: Vec::new(), left_data: Vec::new() };
        assert(r.cells() =~= crate::runtime::zero_cells());
        r
    }

    /// The cell at `address`, allocated if need be; an error outside the memory.
    fn get_mut(&mut self, address: isize) -> (r: Result<&mut u8, RuntimeError>)
        requires
            old(self).wf(),
        ensures
            final(self).wf(),
            final(self).size() == old(self).size(),
            match r {
                Ok(cell) => {
                    &&& in_bounds(old(self).size(), address as int)
                    &&& *cell == old(self).cell(address as int)
                    &&& final(self).cells() == old(self).cells().insert(address as int, *final(cell))
                },
                Err(e) => {
                    &&& !in_bounds(old(self).size(), address as int)
                    &&& e == RuntimeError::OutOfMemoryBounds { address }
                    &&& final(self).cells() == old(self).cells()
                },
            },
    {
        if address >= 0 {
            let a = address as usize;
            if a >= self.right_data.len() {
                if let MemorySize::Fixed(n) = self.size {
                    if a >= n {
                        return Err(RuntimeError::OutOfMemoryBounds { address });
                    }
                }
                while self.right_data.len() <= a
                    invariant
                        old(self).wf(),
                        self.size is Fixed ==> a < self.size->Fixed_0,
                        self.size == old(self).size,
                        self.left_data == old(self).left_data,
                        forall|i: int| 0 <= i < old(self).right_data.len() ==> self.right_data@[i] == old(self).right_data@[i],
                        forall|i: int| old(self).right_data.len() <= i < self.right_data.len() ==> self.right_data@[i] == 0,
                        old(self).right_data.len() <= self.right_data.len() <= a + 1,
                        a >= old(self).right_data.len(),
                    decreases a + 1 - self.right_data.len(),
                {
                    self.right_data.push(0);
                }
                assert(self.cells() =~= old(self).cells());
            }
            Ok(&mut self.right_data[a])
        } else if let MemorySize::BothInfinite = self.size {
            let a = (-(address + 1)) as usize;
            while self.left_data.len() <= a
                invariant
                    self.size is BothInfinite,
                    self.size == old(self).size,
                    self.right_data == old(self).right_data,
                    forall|i: int| 0 <= i < old(self).left_data.len() ==> self.left_data@[i] == old(self).left_data@[i],
                    forall|i: int| old(self).left_data.len() <= i < self.left_data.len() ==> self.left_data@[i] == 0,
                    old(self).left_data.len() <= self.left_data.len(),
                    self.left_data.len() > a + 1 ==> self.left_data.len() == old(self).left_data.len(),
                decreases a + 1 - self.left_data.len(),
            {
                self.left_data.push(0);
            }
            assert(self.cells() =~= old(self).cells());
            Ok(&mut self.left_data[a])
        } else {
            Err(RuntimeError::OutOfMemoryBounds { address })
        }
    }
}

} // verus!

verus! {

/// What the interpreter does after an instruction.
pub enum NextAction<'a> {
    /// Go on with the next instruction.
    Next,
    /// Run this loop body, then test the loop again.
    StepIn(&'a Vec<Instruction>),
}

/// The interpreter: a memory and a pointer into it.
pub struct Runtime {
    memory: Memory,
    pointer: isize,
}

/// `v + d` modulo 256, computed without overflow.
fn add_wrapping(v: u8, d: isize) -> (r: u8)
    ensures
        r == wrap_byte(v, d as int),
{
    let m: isize = match d.checked_rem_euclid(256) {
        Some(m) => m,
        None => 0,
    };
    assert(m == d as int % 256);
    let s: isize = v as isize + m;
    let w: isize = if s >= 256 {
        s - 256
    } else {
        s
    };
    proof {
        vstd::arithmetic::div_mod::lemma_add_mod_noop_right(v as int, d as int, 256);
        if s >= 256 {
            vstd::arithmetic::div_mod::lemma_mod_add_multiples_vanish(s - 256, 256);
            vstd::arithmetic::div_mod::lemma_small_mod((s - 256) as nat, 256);
        } else {
            vstd::arithmetic::div_mod::lemma_small_mod(s as nat, 256);
        }
    }
    w as u8
}

impl Runtime {
    pub closed spec fn wf(&self) -> bool {
        self.memory.wf()
    }

    pub closed spec fn size(&self) -> MemorySize {
        self.memory.size()
    }

    pub closed spec fn pointer(&self) -> isize {
        self.pointer
    }

    pub closed spec fn cells(&self) -> Map<int, u8> {
        self.memory.cells()
    }

    /// The machine that this runtime, with its input and output, stands for.
    pub open spec fn machine<R: ByteRead, W: ByteWrite>(&self, input: &R, output: &W) -> Machine {
        Machine {
            pointer: self.pointer(),
            cells: self.cells(),
            input: input.remaining(),
            output: output.written(),
        }
    }

    /// A runtime with all cells zero and the pointer at `0`.
    pub fn new(memsize: MemorySize) -> (r: Self)
        ensures
            r.wf(),
            r.size() == memsize,
            r.pointer() == 0,
            r.cells() == crate::runtime::zero_cells(),
    {
        Runtime { memory: Memory::new(memsize), pointer: 0 }
    }

    fn add_pointer(&mut self, operand: isize) -> (r: Result<(), RuntimeError>)
        requires
            old(self).wf(),
        ensures
            final(self).wf(),
            r is Ok,
            final(self).pointer() == old(self).pointer().wrapping_add(operand),
            final(self).cells() == old(self).cells(),
            final(self).size() == old(self).size(),
    {
        self.pointer = self.pointer.wrapping_add(operand);
        Ok(())
    }

    fn add_data(&mut self, operand: isize) -> (r: Result<(), RuntimeError>)
        requires
            old(self).wf(),
        ensures
            final(self).wf(),
            final(self).pointer() == old(self).pointer(),
            final(self).size() == old(self).size(),
            match r {
                Ok(_) => in_bounds(old(self).size(), old(self).pointer() as int) && final(self).cells()
                    == old(self).cells().insert(
                    old(self).pointer() as int,
                    wrap_byte(old(self).cells()[old(self).pointer() as int], operand as int),
                ),
                Err(e) => !in_bounds(old(self).size(), old(self).pointer() as int) && e
                    == RuntimeError::OutOfMemoryBounds { address: old(self).pointer() }
                    && final(self).cells() == old(self).cells(),
            },
    {
        let data = match self.memory.get_mut(self.pointer) {
            Ok(data) => data,
            Err(e) => {
                return Err(e);
            },
        };
        *data = add_wrapping(*data, operand);
        Ok(())
    }
}

} // verus!

verus! {

/// How the result of one executed instruction relates to its meaning `step_op`.
pub open spec fn exec_matches(
    s: Result<(Machine, bool), Fault>,
    r: Result<NextAction, RuntimeError>,
    op: Op,
    before: Machine,
    after: Machine,
) -> bool {
    match r {
        Ok(NextAction::Next) => s == Ok::<(Machine, bool), Fault>((after, false)),
        Ok(NextAction::StepIn(body)) => s == Ok::<(Machine, bool), Fault>((after, true)) && op
            == Op::Loop(ops_of_vec(body)),
        Err(RuntimeError::OutOfMemoryBounds { address }) => s == Err::<(Machine, bool), Fault>(
            Fault::OutOfBounds(address as int),
        ) && after == before,
        Err(RuntimeError::Eof) => s == Err::<(Machine, bool), Fault>(Fault::Eof) && after == before,
        Err(RuntimeError::IoError(_)) => (op is Input || op is Output) && !(s matches Err(
            Fault::OutOfBounds(_),
        )),
        Err(RuntimeError::StepLimitReached) => false,
    }
}

impl Runtime {
    fn input<R: ByteRead>(&mut self, input: &mut R) -> (r: Result<(), RuntimeError>)
        requires
            old(self).wf(),
        ensures
            final(self).wf(),
            final(self).size() == old(self).size(),
            final(self).pointer() == old(self).pointer(),
            final(input).describes_input() == old(input).describes_input(),
            final(input).reads_never_fail() == old(input).reads_never_fail(),
            old(input).reads_never_fail() ==> !(r matches Err(RuntimeError::IoError(_))),
            ({
                let p = old(self).pointer() as int;
                let modeled = old(input).describes_input();
                match r {
                    Ok(_) => in_bounds(old(self).size(), p) && (modeled ==> old(
                        input,
                    ).remaining().len() > 0 && final(input).remaining() == old(
                        input,
                    ).remaining().drop_first() && final(self).cells() == old(self).cells().insert(
                        p,
                        old(input).remaining()[0],
                    )),
                    Err(RuntimeError::OutOfMemoryBounds { address }) => !in_bounds(
                        old(self).size(),
                        p,
                    ) && address == old(self).pointer() && final(self).cells() == old(self).cells()
                        && *final(input) == *old(input),
                    Err(RuntimeError::Eof) => in_bounds(old(self).size(), p) && final(self).cells()
                        == old(self).cells() && (modeled ==> old(input).remaining().len() == 0
                        && final(input).remaining() == old(input).remaining()),
                    Err(RuntimeError::IoError(_)) => in_bounds(old(self).size(), p) && final(self).cells() == old(self).cells(),
                    Err(RuntimeError::StepLimitReached) => false,
                }
            }),
    {
        let data = match self.memory.get_mut(self.pointer) {
            Ok(data) => data,
            Err(e) => {
                return Err(e);
            },
        };
        match input.read_byte() {
            Ok(Some(b)) => {
                *data = b;
                Ok(())
            },
            Ok(None) => Err(RuntimeError::Eof),
            Err(e) => Err(RuntimeError::IoError(e)),
        }
    }

    fn output<W: ByteWrite>(&mut self, output: &mut W) -> (r: Result<(), RuntimeError>)
        requires
            old(self).wf(),
        ensures
            final(self).wf(),
            final(self).size() == old(self).size(),
            final(self).pointer() == old(self).pointer(),
            final(self).cells() == old(self).cells(),
            final(output).describes_output() == old(output).describes_output(),
            final(output).writes_never_fail() == old(output).writes_never_fail(),
            old(output).writes_never_fail() ==> !(r matches Err(RuntimeError::IoError(_))),
            ({
                let p = old(self).pointer() as int;
                match r {
                    Ok(_) => in_bounds(old(self).size(), p) && (old(output).describes_output()
                        ==> final(output).written() == old(output).written().push(
                        old(self).cells()[p],
                    )),
                    Err(RuntimeError::OutOfMemoryBounds { address }) => !in_bounds(
                        old(self).size(),
                        p,
                    ) && address == old(self).pointer() && *final(output) == *old(output),
                    Err(RuntimeError::IoError(_)) => in_bounds(old(self).size(), p),
                    _ => false,
                }
            }),
    {
        let data = match self.memory.get_mut(self.pointer) {
            Ok(data) => data,
            Err(e) => {
                return Err(e);
            },
        };
        match output.write_byte(*data) {
            Ok(()) => Ok(()),
            Err(e) => Err(RuntimeError::IoError(e)),
        }
    }

    /// Executes one instruction. A loop only tests its cell: when it is not zero the
    /// result hands out the body, which the caller runs before testing the loop again.
    pub fn exec_one<'a, R: ByteRead, W: ByteWrite>(
        &mut self,
        inst: &'a Instruction,
        input: &mut R,
        output: &mut W,
    ) -> (r: Result<NextAction<'a>, RuntimeError>)
        requires
            old(self).wf(),
        ensures
            final(self).wf(),
            final(self).size() == old(self).size(),
            final(input).describes_input() == old(input).describes_input(),
            final(output).describes_output() == old(output).describes_output(),
            final(input).reads_never_fail() == old(input).reads_never_fail(),
            final(output).writes_never_fail() == old(output).writes_never_fail(),
            r matches Ok(NextAction::StepIn(body)) ==> inst.op() == Op::Loop(ops_of_vec(body)),
            r matches Err(RuntimeError::IoError(_)) ==> (inst.op() is Input || inst.op() is Output)
                && final(self).pointer() == old(self).pointer() && final(self).cells() == old(self).cells(),
            old(input).reads_never_fail() && old(output).writes_never_fail() ==> !(r matches Err(
                RuntimeError::IoError(_),
            )),
            old(input).describes_input() && old(output).describes_output() ==> exec_matches(
                step_op(old(self).size(), old(self).machine(&*old(input), &*old(output)), inst.op()),
                r,
                inst.op(),
                old(self).machine(&*old(input), &*old(output)),
                final(self).machine(&*final(input), &*final(output)),
            ),
    {
        let ghost before = self.machine(&*input, &*output);
        match inst {
            Instruction::PAdd(operand) => {
                let _ = self.add_pointer(*operand);
                assert(self.machine(&*input, &*output) == Machine {
                    pointer: before.pointer.wrapping_add(*operand as int as isize),
                    ..before
                });
            },
            Instruction::DAdd(operand) => {
                if let Err(e) = self.add_data(*operand) {
                    return Err(e);
                }
            },
            Instruction::Output => {
                if let Err(e) = self.output(output) {
                    return Err(e);
                }
            },
            Instruction::Input => {
                if let Err(e) = self.input(input) {
                    return Err(e);
                }
            },
            Instruction::UntilZero(sub) => {
                let data = match self.memory.get_mut(self.pointer) {
                    Ok(data) => data,
                    Err(e) => {
                        return Err(e);
                    },
                };
                let v = *data;
                proof {
                    assert(self.cells() =~= before.cells);
                }
                if v != 0 {
                    return Ok(NextAction::StepIn(sub));
                }
            },
        }
        Ok(NextAction::Next)
    }

    /// The pointer.
    pub fn get_pointer(&self) -> (r: isize)
        ensures
            r == self.pointer(),
    {
        self.pointer
    }

    /// The cell at `address`, allocated if need be; `None` outside the memory.
    pub fn get_data_at_mut(&mut self, address: isize) -> (r: Option<&mut u8>)
        requires
            old(self).wf(),
        ensures
            final(self).wf(),
            final(self).size() == old(self).size(),
            final(self).pointer() == old(self).pointer(),
            match r {
                Some(cell) => {
                    &&& in_bounds(old(self).size(), address as int)
                    &&& *cell == old(self).cells()[address as int]
                    &&& final(self).cells() == old(self).cells().insert(address as int, *final(cell))
                },
                None => !in_bounds(old(self).size(), address as int) && final(self).cells() == old(self).cells(),
            },
    {
        match self.memory.get_mut(address) {
            Ok(cell) => Some(cell),
            Err(_) => None,
        }
    }
}

} // verus!
