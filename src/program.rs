//! Parsed programs, their mathematical values, and addressing of nested instructions.
use vstd::prelude::*;
use crate::token::{TokenInfo, TokenInfoView};

verus! {

broadcast use vstd::std_specs::vec::axiom_vec_index_decreases;

/// An instruction of a parsed program.
#[derive(Debug, PartialEq, Eq)]
pub enum Instruction {
    /// Folded pointer increments and decrements.
    PAdd(isize),
    /// Folded data increments and decrements.
    DAdd(isize),
    /// Write the byte at the pointer.
    Output,
    /// Read one byte into the cell at the pointer.
    Input,
    /// Run the body while the byte at the pointer is not zero.
    UntilZero(Vec<Instruction>),
}

/// The mathematical value of an [`Instruction`].
pub ghost enum Op {
    PointerAdd(int),
    DataAdd(int),
    Output,
    Input,
    Loop(Seq<Op>),
}

impl Instruction {
    pub open spec fn op(&self) -> Op
        decreases self,
    {
        match self {
            Instruction::PAdd(n) => Op::PointerAdd(*n as int),
            Instruction::DAdd(n) => Op::DataAdd(*n as int),
            Instruction::Output => Op::Output,
            Instruction::Input => Op::Input,
            Instruction::UntilZero(body) => Op::Loop(ops_of_vec(body)),
        }
    }
}

pub open spec fn ops_of_vec(v: &Vec<Instruction>) -> Seq<Op>
    decreases v,
{
    Seq::new(v.len() as nat, |i: int| if 0 <= i < v.len() { v[i].op() } else { Op::Output })
}

} // verus!

verus! {

/// An instruction annotated with the tokens it was parsed from.
#[derive(Debug, PartialEq, Eq)]
pub struct FatInstruction {
    pub kind: FatInstructionKind,
    pub tokens: Vec<TokenInfo>,
}

/// The kind of a [`FatInstruction`].
#[derive(Debug, PartialEq, Eq)]
pub enum FatInstructionKind {
    /// Folded pointer increments and decrements.
    PAdd(isize),
    /// Folded data increments and decrements.
    DAdd(isize),
    /// Write the byte at the pointer.
    Output,
    /// Read one byte into the cell at the pointer.
    Input,
    /// Run the body while the byte at the pointer is not zero.
    UntilZero(Vec<FatInstruction>),
    /// A run of increments and decrements that cancel out.
    Nop,
}

/// The mathematical value of a [`FatInstructionKind`].
pub ghost enum FatKind {
    PointerAdd(int),
    DataAdd(int),
    Output,
    Input,
    Loop(Seq<FatOp>),
    Nop,
}

/// The mathematical value of a [`FatInstruction`].
pub ghost struct FatOp {
    pub kind: FatKind,
    pub tokens: Seq<TokenInfoView>,
}

pub open spec fn token_views(v: &Vec<TokenInfo>) -> Seq<TokenInfoView> {
    Seq::new(v.len() as nat, |i: int| v[i]@)
}

impl FatInstruction {
    pub open spec fn fat_op(&self) -> FatOp
        decreases self,
    {
        FatOp { kind: self.kind.fat_kind(), tokens: token_views(&self.tokens) }
    }
}

impl FatInstructionKind {
    pub open spec fn fat_kind(&self) -> FatKind
        decreases self,
    {
        match self {
            FatInstructionKind::PAdd(n) => FatKind::PointerAdd(*n as int),
            FatInstructionKind::DAdd(n) => FatKind::DataAdd(*n as int),
            FatInstructionKind::Output => FatKind::Output,
            FatInstructionKind::Input => FatKind::Input,
            FatInstructionKind::UntilZero(body) => FatKind::Loop(fat_ops_of_vec(body)),
            FatInstructionKind::Nop => FatKind::Nop,
        }
    }
}

pub open spec fn fat_ops_of_vec(v: &Vec<FatInstruction>) -> Seq<FatOp>
    decreases v,
{
    Seq::new(
        v.len() as nat,
        |i: int|
            if 0 <= i < v.len() {
                v[i].fat_op()
            } else {
                FatOp { kind: FatKind::Nop, tokens: Seq::empty() }
            },
    )
}

/// The plain instruction that an annotated one stands for; `None` for a no-op.
pub open spec fn plain_of_kind(k: FatKind) -> Option<Op>
    decreases k,
{
    match k {
        FatKind::PointerAdd(n) => Some(Op::PointerAdd(n)),
        FatKind::DataAdd(n) => Some(Op::DataAdd(n)),
        FatKind::Output => Some(Op::Output),
        FatKind::Input => Some(Op::Input),
        FatKind::Loop(body) => Some(Op::Loop(plain_of_fat(body))),
        FatKind::Nop => None,
    }
}

/// The plain instructions that annotated ones stand for, no-ops left out.
pub open spec fn plain_of_fat(s: Seq<FatOp>) -> Seq<Op>
    decreases s,
{
    if s.len() == 0 {
        Seq::empty()
    } else {
        let init = s.subrange(0, s.len() - 1);
        match plain_of_kind(s[s.len() - 1].kind) {
            Some(o) => plain_of_fat(init).push(o),
            None => plain_of_fat(init),
        }
    }
}

impl FatInstruction {
    /// The plain instruction this one stands for; `None` for a no-op.
    pub fn as_instruction(&self) -> (r: Option<Instruction>)
        ensures
            match plain_of_kind(self.fat_op().kind) {
                Some(o) => r is Some && r->0.op() == o,
                None => r is None,
            },
    {
        self.kind.as_instruction()
    }
}

impl FatInstructionKind {
    /// The plain instruction this kind stands for; `None` for a no-op.
    pub fn as_instruction(&self) -> (r: Option<Instruction>)
        ensures
            match plain_of_kind(self.fat_kind()) {
                Some(o) => r is Some && r->0.op() == o,
                None => r is None,
            },
        decreases self,
    {
        match self {
            FatInstructionKind::PAdd(n) => Some(Instruction::PAdd(*n)),
            FatInstructionKind::DAdd(n) => Some(Instruction::DAdd(*n)),
            FatInstructionKind::Output => Some(Instruction::Output),
            FatInstructionKind::Input => Some(Instruction::Input),
            FatInstructionKind::UntilZero(insts) => {
                let body = fat_instructions_to_instructions(insts);
                let r = Instruction::UntilZero(body);
                assert(ops_of_vec(&body) =~= plain_of_fat(fat_ops_of_vec(insts)));
                Some(r)
            },
            FatInstructionKind::Nop => None,
        }
    }
}

/// The plain instructions that annotated ones stand for, no-ops left out.
fn fat_instructions_to_instructions(fat_instructions: &Vec<FatInstruction>) -> (r: Vec<Instruction>)
    ensures
        ops_of_vec(&r) == plain_of_fat(fat_ops_of_vec(fat_instructions)),
    decreases fat_instructions,
{
    let mut r: Vec<Instruction> = Vec::new();
    let mut i: usize = 0;
    while i < fat_instructions.len()
        invariant
            i <= fat_instructions.len(),
            ops_of_vec(&r) == plain_of_fat(fat_ops_of_vec(fat_instructions).take(i as int)),
        decreases fat_instructions.len() - i,
    {
        let ghost s = fat_ops_of_vec(fat_instructions);
        assert(s.take(i as int + 1).subrange(0, i as int) =~= s.take(i as int));
        match fat_instructions[i].kind.as_instruction() {
            Some(inst) => {
                let ghost before = r;
                r.push(inst);
                assert(ops_of_vec(&r) =~= ops_of_vec(&before).push(inst.op()));
            },
            None => {},
        }
        i += 1;
    }
    assert(fat_ops_of_vec(fat_instructions).take(i as int) =~= fat_ops_of_vec(fat_instructions));
    r
}

/// A parsed program whose instructions carry the tokens they came from.
#[derive(Debug)]
pub struct FatProgram(Vec<FatInstruction>);

impl FatProgram {
    pub closed spec fn fat_ops(&self) -> Seq<FatOp> {
        fat_ops_of_vec(&self.0)
    }

    pub fn new(instructions: Vec<FatInstruction>) -> (r: FatProgram)
        ensures
            r.fat_ops() == fat_ops_of_vec(&instructions),
    {
        FatProgram(instructions)
    }

    pub fn instructions(&self) -> (r: &[FatInstruction])
        ensures
            Seq::new(r@.len(), |i: int| r@[i].fat_op()) == self.fat_ops(),
    {
        assert(Seq::new(self.0@.len(), |i: int| self.0@[i].fat_op()) =~= self.fat_ops());
        self.0.as_slice()
    }

    /// The plain program, with no-ops left out.
    pub fn as_program(&self) -> (r: Program)
        ensures
            r@ == plain_of_fat(self.fat_ops()),
    {
        Program::new(fat_instructions_to_instructions(&self.0))
    }
}

impl From<FatProgram> for Program {
    fn from(x: FatProgram) -> (r: Program)
        ensures
            r@ == plain_of_fat(x.fat_ops()),
    {
        x.as_program()
    }
}

impl vstd::std_specs::convert::FromSpecImpl<FatProgram> for Program {
    open spec fn obeys_from_spec() -> bool {
        false
    }

    open spec fn from_spec(x: FatProgram) -> Program {
        vstd::pervasive::arbitrary()
    }
}

/// A parsed program.
#[derive(Debug)]
pub struct Program(Vec<Instruction>);

impl View for Program {
    type V = Seq<Op>;

    closed spec fn view(&self) -> Seq<Op> {
        ops_of_vec(&self.0)
    }
}

/// An address of an instruction: an index into the top-level instructions, then into
/// the body of each loop on the way down.
#[derive(Debug, Clone, PartialEq, Eq, PartialOrd, Ord)]
pub struct ProgramIndex(Vec<usize>);

impl View for ProgramIndex {
    type V = Seq<usize>;

    closed spec fn view(&self) -> Seq<usize> {
        self.0@
    }
}

/// `path` addresses an instruction of `ops`: each index is in range, and each but the
/// last selects a loop.
pub open spec fn valid_path(ops: Seq<Op>, path: Seq<usize>) -> bool
    decreases path.len(),
{
    &&& path.len() > 0
    &&& path[0] < ops.len()
    &&& (path.len() == 1 || (ops[path[0] as int] is Loop && valid_path(
        ops[path[0] as int]->Loop_0,
        path.drop_first(),
    )))
}

/// The instruction that a valid path addresses.
pub open spec fn op_at(ops: Seq<Op>, path: Seq<usize>) -> Op
    decreases path.len(),
{
    if path.len() <= 1 {
        ops[path[0] as int]
    } else {
        op_at(ops[path[0] as int]->Loop_0, path.drop_first())
    }
}

/// The sequence that holds the instruction a valid path addresses.
pub open spec fn siblings_at(ops: Seq<Op>, path: Seq<usize>) -> Seq<Op>
    decreases path.len(),
{
    if path.len() <= 1 {
        ops
    } else {
        siblings_at(ops[path[0] as int]->Loop_0, path.drop_first())
    }
}

impl ProgramIndex {
    pub fn new_for_test(index: Vec<usize>) -> (r: ProgramIndex)
        ensures
            r@ == index@,
    {
        ProgramIndex(index)
    }

    /// Points the index at the first instruction one level deeper.
    pub fn step_in(&mut self)
        ensures
            final(self)@ == old(self)@.push(0),
    {
        self.0.push(0);
    }

    /// Points the index at the enclosing level; `false` when no level is left.
    pub fn step_out(&mut self) -> (r: bool)
        ensures
            old(self)@.len() > 0 ==> final(self)@ == old(self)@.drop_last(),
            old(self)@.len() == 0 ==> final(self)@ == old(self)@,
            r == (final(self)@.len() > 0),
    {
        if self.0.len() > 0 {
            self.0.pop();
        }
        self.0.len() > 0
    }
}

impl Program {
    pub fn new(instructions: Vec<Instruction>) -> (r: Program)
        ensures
            r@ == ops_of_vec(&instructions),
    {
        Program(instructions)
    }

    pub fn instructions(&self) -> (r: &[Instruction])
        ensures
            Seq::new(r@.len(), |i: int| r@[i].op()) == self@,
    {
        assert(Seq::new(self.0@.len(), |i: int| self.0@[i].op()) =~= self@);
        self.0.as_slice()
    }

    pub(crate) fn instruction_vec(&self) -> (r: &Vec<Instruction>)
        ensures
            ops_of_vec(r) == self@,
    {
        &self.0
    }

    /// An index of the first instruction; `None` for an empty program.
    pub fn first_index(&self) -> (r: Option<ProgramIndex>)
        ensures
            self@.len() == 0 ==> r is None,
            self@.len() > 0 ==> r is Some && r->0@ == seq![0usize],
    {
        if self.0.len() == 0 {
            None
        } else {
            let v: Vec<usize> = vec![0];
            assert(v@ =~= seq![0usize]);
            Some(ProgramIndex(v))
        }
    }
}

} // verus!

verus! {

proof fn lemma_path_suffix(path: Seq<usize>, d: int)
    requires
        0 <= d < path.len() - 1,
    ensures
        path.subrange(d, path.len() as int).drop_first() =~= path.subrange(d + 1, path.len() as int),
        path.subrange(d, path.len() as int)[0] == path[d],
{
}

impl Program {
    /// Moves `index` to the next instruction of the same sequence. When it already
    /// addresses the last one, `index` is left as it is and the result is `false`.
    /// Never steps into the body of a loop.
    pub fn step_index(&self, index: &mut ProgramIndex) -> (r: bool)
        requires
            valid_path(self@, old(index)@),
        ensures
            r == (old(index)@.last() + 1 < siblings_at(self@, old(index)@).len()),
            r ==> final(index)@ == old(index)@.update(
                old(index)@.len() - 1,
                (old(index)@.last() + 1) as usize,
            ),
            !r ==> final(index)@ == old(index)@,
    {
        next_index_internal(&self.0, &mut index.0)
    }

    /// The instruction that `index` addresses.
    pub fn index(&self, index: &ProgramIndex) -> (r: &Instruction)
        requires
            valid_path(self@, index@),
        ensures
            r.op() == op_at(self@, index@),
    {
        instruction_at(&self.0, &index.0)
    }
}

fn next_index_internal(instructions: &Vec<Instruction>, index: &mut Vec<usize>) -> (r: bool)
    requires
        valid_path(ops_of_vec(instructions), old(index)@),
    ensures
        r == (old(index)@.last() + 1 < siblings_at(ops_of_vec(instructions), old(index)@).len()),
        r ==> final(index)@ == old(index)@.update(
            old(index)@.len() - 1,
            (old(index)@.last() + 1) as usize,
        ),
        !r ==> final(index)@ == old(index)@,
{
    let ghost path = index@;
    let ghost ops = ops_of_vec(instructions);
    let mut level: &Vec<Instruction> = instructions;
    let mut d: usize = 0;
    assert(path.subrange(0, path.len() as int) =~= path);
    while d < index.len() - 1
        invariant
            index@ == path,
            d < path.len(),
            valid_path(ops_of_vec(level), path.subrange(d as int, path.len() as int)),
            siblings_at(ops, path) == siblings_at(
                ops_of_vec(level),
                path.subrange(d as int, path.len() as int),
            ),
        decreases path.len() - d,
    {
        proof {
            lemma_path_suffix(path, d as int);
        }
        match &level[index[d]] {
            Instruction::UntilZero(sub) => {
                level = sub;
            },
            _ => {
                assert(false);
            },
        }
        d += 1;
    }
    assert(path.subrange(d as int, path.len() as int) =~= seq![path[d as int]]);
    if index[d] + 1 < level.len() {
        index.set(d, index[d] + 1);
        true
    } else {
        false
    }
}

fn instruction_at<'a>(instructions: &'a Vec<Instruction>, index: &Vec<usize>) -> (r: &'a Instruction)
    requires
        valid_path(ops_of_vec(instructions), index@),
    ensures
        r.op() == op_at(ops_of_vec(instructions), index@),
{
    let ghost path = index@;
    let mut level: &Vec<Instruction> = instructions;
    let mut d: usize = 0;
    assert(path.subrange(0, path.len() as int) =~= path);
    while d < index.len() - 1
        invariant
            d < path.len(),
            index@ == path,
            valid_path(ops_of_vec(level), path.subrange(d as int, path.len() as int)),
            op_at(ops_of_vec(instructions), path) == op_at(
                ops_of_vec(level),
                path.subrange(d as int, path.len() as int),
            ),
        decreases path.len() - d,
    {
        proof {
            lemma_path_suffix(path, d as int);
        }
        match &level[index[d]] {
            Instruction::UntilZero(sub) => {
                level = sub;
            },
            _ => {
                assert(false);
            },
        }
        d += 1;
    }
    assert(path.subrange(d as int, path.len() as int) =~= seq![path[d as int]]);
    &level[index[d]]
}

} // verus!

verus! {

/// The path to the next instruction of the same sequence, or, after the last one, to
/// the enclosing loop; `None` after the last top-level instruction.
pub open spec fn advance_path(ops: Seq<Op>, path: Seq<usize>) -> Option<Seq<usize>> {
    if path.last() + 1 < siblings_at(ops, path).len() {
        Some(path.update(path.len() - 1, (path.last() + 1) as usize))
    } else if path.len() > 1 {
        Some(path.drop_last())
    } else {
        None
    }
}

pub proof fn lemma_path_update(ops: Seq<Op>, path: Seq<usize>, x: usize)
    requires
        valid_path(ops, path),
        x < siblings_at(ops, path).len(),
    ensures
        valid_path(ops, path.update(path.len() - 1, x)),
        siblings_at(ops, path.update(path.len() - 1, x)) == siblings_at(ops, path),
    decreases path.len(),
{
    let q = path.update(path.len() - 1, x);
    if path.len() > 1 {
        assert(q.drop_first() =~= path.drop_first().update(path.len() - 2, x));
        lemma_path_update(ops[path[0] as int]->Loop_0, path.drop_first(), x);
    }
}

pub proof fn lemma_path_prefix(ops: Seq<Op>, path: Seq<usize>)
    requires
        valid_path(ops, path),
        path.len() > 1,
    ensures
        valid_path(ops, path.drop_last()),
        op_at(ops, path.drop_last()) is Loop,
        siblings_at(ops, path) == op_at(ops, path.drop_last())->Loop_0,
    decreases path.len(),
{
    let q = path.drop_last();
    assert(q[0] == path[0]);
    let body = ops[path[0] as int]->Loop_0;
    if path.len() == 2 {
        assert(path.drop_first().len() == 1);
        assert(siblings_at(body, path.drop_first()) == body);
        assert(siblings_at(ops, path) == siblings_at(body, path.drop_first()));
    }
    if path.len() > 2 {
        assert(q.drop_first() =~= path.drop_first().drop_last());
        lemma_path_prefix(body, path.drop_first());
        assert(op_at(ops, q) == op_at(body, q.drop_first()));
        assert(siblings_at(ops, path) == siblings_at(body, path.drop_first()));
    }
}

pub proof fn lemma_path_push(ops: Seq<Op>, path: Seq<usize>)
    requires
        valid_path(ops, path),
        op_at(ops, path) is Loop,
        op_at(ops, path)->Loop_0.len() > 0,
    ensures
        valid_path(ops, path.push(0)),
        op_at(ops, path.push(0)) == op_at(ops, path)->Loop_0[0],
        siblings_at(ops, path.push(0)) == op_at(ops, path)->Loop_0,
    decreases path.len(),
{
    let q = path.push(0);
    assert(q[0] == path[0]);
    assert(q.drop_first() =~= path.drop_first().push(0));
    let body = ops[path[0] as int]->Loop_0;
    if path.len() > 1 {
        lemma_path_push(body, path.drop_first());
        assert(op_at(ops, path) == op_at(body, path.drop_first()));
        assert(op_at(ops, q) == op_at(body, q.drop_first()));
        assert(siblings_at(ops, q) == siblings_at(body, q.drop_first()));
    } else {
        assert(q.drop_first() =~= seq![0usize]);
        assert(op_at(ops, path) == ops[path[0] as int]);
        assert(valid_path(body, q.drop_first()));
        assert(op_at(ops, q) == op_at(body, q.drop_first()));
        assert(siblings_at(ops, q) == siblings_at(body, q.drop_first()));
    }
}

} // verus!

verus! {

/// Every sequence of the instruction tree holds at most `usize::MAX` instructions, as
/// every sequence of a [`Program`] does.
pub open spec fn fits(ops: Seq<Op>) -> bool
    decreases ops,
{
    &&& ops.len() <= usize::MAX
    &&& forall|i: int|
        0 <= i < ops.len() ==> (#[trigger] ops[i] is Loop ==> fits(ops[i]->Loop_0))
}

proof fn lemma_fits_vec(v: &Vec<Instruction>)
    ensures
        fits(ops_of_vec(v)),
    decreases v,
{
    let ops = ops_of_vec(v);
    assert forall|i: int| 0 <= i < ops.len() implies (#[trigger] ops[i] is Loop ==> fits(
        ops[i]->Loop_0,
    )) by {
        if let Instruction::UntilZero(sub) = &v[i] {
            lemma_fits_vec(sub);
        }
    }
}

/// The instruction tree of a program fits.
pub proof fn lemma_program_fits(p: &Program)
    ensures
        fits(p@),
{
    lemma_fits_vec(&p.0);
}

/// Along a valid path, every sequence fits.
pub proof fn lemma_fits_path(ops: Seq<Op>, path: Seq<usize>)
    requires
        fits(ops),
        valid_path(ops, path),
    ensures
        fits(siblings_at(ops, path)),
        op_at(ops, path) is Loop ==> fits(op_at(ops, path)->Loop_0),
    decreases path.len(),
{
    let i = path[0] as int;
    assert(ops[i] is Loop ==> fits(ops[i]->Loop_0));
    if path.len() > 1 {
        lemma_fits_path(ops[i]->Loop_0, path.drop_first());
    }
}

} // verus!
