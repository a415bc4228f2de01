//! A recursive-descent parser from a token stream to a program, folding runs of
//! increments and decrements into single instructions.
use vstd::prelude::*;
use crate::error::{ParseError, ParseErrorView};
use crate::program::{
    FatInstruction, FatInstructionKind, FatKind, FatOp, FatProgram, Instruction, Op, Program,
    fat_ops_of_vec, ops_of_vec, plain_of_fat, plain_of_kind, token_views,
};
use crate::token::{
    TokenInfo, TokenInfoView, TokenResult, TokenStream, TokenType, Tokenizer, is_terminal, kind_of,
    result_view, stream_well_formed,
};

verus! {

/// How parsing a sequence of instructions ended: with the instructions and the index of
/// the first read not consumed, or with an error.
pub ghost enum ParseOutcome {
    Done(Seq<Op>, int),
    Fail(ParseErrorView),
}

/// As [`ParseOutcome`], for annotated instructions; a loop body also reports the loop
/// tail that closed it.
pub ghost enum FatOutcome {
    Done(Seq<FatOp>, int, Option<TokenInfoView>),
    Fail(ParseErrorView),
}

/// The two token types folded into one instruction with the token type `k`.
pub open spec fn axis_of(k: TokenType) -> (TokenType, TokenType) {
    if k == TokenType::PInc || k == TokenType::PDec {
        (TokenType::PInc, TokenType::PDec)
    } else {
        (TokenType::DInc, TokenType::DDec)
    }
}

pub open spec fn is_adjust(k: TokenType) -> bool {
    k == TokenType::PInc || k == TokenType::PDec || k == TokenType::DInc || k == TokenType::DDec
}

/// The first index at or after `i` whose read is no token of the axis `(inc, dec)`.
pub open spec fn run_end(p: Seq<TokenResult>, i: int, inc: TokenType, dec: TokenType) -> int
    decreases p.len() - i,
{
    if 0 <= i < p.len() && (kind_of(p[i]) == Some(inc) || kind_of(p[i]) == Some(dec)) {
        run_end(p, i + 1, inc, dec)
    } else {
        i
    }
}

/// The number of `inc` tokens minus the number of other tokens among reads `i..j`.
pub open spec fn run_sum(p: Seq<TokenResult>, i: int, j: int, inc: TokenType) -> int
    decreases j - i,
{
    if j <= i {
        0
    } else {
        run_sum(p, i, j - 1, inc) + if kind_of(p[j - 1]) == Some(inc) {
            1int
        } else {
            -1int
        }
    }
}

/// The signed count that a maximal run starting at read `i` folds to.
pub open spec fn fold_delta(p: Seq<TokenResult>, i: int) -> int {
    let k = kind_of(p[i])->0;
    let (inc, dec) = axis_of(k);
    (if k == inc {
        1int
    } else {
        -1int
    }) + run_sum(p, i + 1, run_end(p, i + 1, inc, dec), inc)
}

pub open spec fn fold_end(p: Seq<TokenResult>, i: int) -> int {
    let (inc, dec) = axis_of(kind_of(p[i])->0);
    run_end(p, i + 1, inc, dec)
}

pub open spec fn adjust_op(k: TokenType, d: int) -> Op {
    if k == TokenType::PInc || k == TokenType::PDec {
        Op::PointerAdd(d)
    } else {
        Op::DataAdd(d)
    }
}

pub open spec fn adjust_fat_kind(k: TokenType, d: int) -> FatKind {
    if d == 0 {
        FatKind::Nop
    } else if k == TokenType::PInc || k == TokenType::PDec {
        FatKind::PointerAdd(d)
    } else {
        FatKind::DataAdd(d)
    }
}

pub open spec fn prepend(o: Op, r: ParseOutcome) -> ParseOutcome {
    match r {
        ParseOutcome::Done(s, j) => ParseOutcome::Done(seq![o] + s, j),
        ParseOutcome::Fail(e) => ParseOutcome::Fail(e),
    }
}

pub open spec fn prepend_fat(o: FatOp, r: FatOutcome) -> FatOutcome {
    match r {
        FatOutcome::Done(s, j, last) => FatOutcome::Done(seq![o] + s, j, last),
        FatOutcome::Fail(e) => FatOutcome::Fail(e),
    }
}

/// The token views of reads `i..j`.
pub open spec fn token_slice(p: Seq<TokenResult>, i: int, j: int) -> Seq<TokenInfoView> {
    Seq::new((j - i) as nat, |k: int| p[i + k]->Ok_0)
}

/// All tokens of a sequence of annotated instructions, in order.
pub open spec fn all_tokens(s: Seq<FatOp>) -> Seq<TokenInfoView>
    decreases s.len(),
{
    if s.len() == 0 {
        Seq::empty()
    } else {
        all_tokens(s.drop_last()) + s.last().tokens
    }
}

/// Parsing the reads `p` from index `i` on; `top` tells the top level from a loop body.
pub open spec fn parse_from(p: Seq<TokenResult>, i: int, top: bool) -> ParseOutcome
    decreases p.len() - i,
{
    if i < 0 || i >= p.len() {
        ParseOutcome::Fail(ParseErrorView::EndOfFile(0))
    } else {
        match p[i] {
            Err(e) => ParseOutcome::Fail(e),
            Ok(t) => match t.token {
                None => if top {
                    ParseOutcome::Done(Seq::empty(), i + 1)
                } else {
                    ParseOutcome::Fail(ParseErrorView::EndOfFile(t.pos))
                },
                Some(tok) => {
                    let k = tok.0;
                    if k == TokenType::LoopTail {
                        if top {
                            ParseOutcome::Fail(ParseErrorView::EndOfLoop(t.pos))
                        } else {
                            ParseOutcome::Done(Seq::empty(), i + 1)
                        }
                    } else if k == TokenType::LoopHead {
                        match parse_from(p, i + 1, false) {
                            ParseOutcome::Fail(e) => ParseOutcome::Fail(e),
                            ParseOutcome::Done(body, j) => if i < j <= p.len() {
                                prepend(Op::Loop(body), parse_from(p, j, top))
                            } else {
                                ParseOutcome::Fail(ParseErrorView::EndOfFile(0))
                            },
                        }
                    } else if k == TokenType::Output {
                        prepend(Op::Output, parse_from(p, i + 1, top))
                    } else if k == TokenType::Input {
                        prepend(Op::Input, parse_from(p, i + 1, top))
                    } else {
                        let j = fold_end(p, i);
                        let d = fold_delta(p, i);
                        if i < j <= p.len() {
                            if d != 0 {
                                prepend(adjust_op(k, d), parse_from(p, j, top))
                            } else {
                                parse_from(p, j, top)
                            }
                        } else {
                            ParseOutcome::Fail(ParseErrorView::EndOfFile(0))
                        }
                    }
                },
            },
        }
    }
}

/// As [`parse_from`], keeping every token with the instruction it went into.
pub open spec fn parse_fat_from(p: Seq<TokenResult>, i: int, top: bool) -> FatOutcome
    decreases p.len() - i,
{
    if i < 0 || i >= p.len() {
        FatOutcome::Fail(ParseErrorView::EndOfFile(0))
    } else {
        match p[i] {
            Err(e) => FatOutcome::Fail(e),
            Ok(t) => match t.token {
                None => if top {
                    FatOutcome::Done(Seq::empty(), i + 1, None)
                } else {
                    FatOutcome::Fail(ParseErrorView::EndOfFile(t.pos))
                },
                Some(tok) => {
                    let k = tok.0;
                    if k == TokenType::LoopTail {
                        if top {
                            FatOutcome::Fail(ParseErrorView::EndOfLoop(t.pos))
                        } else {
                            FatOutcome::Done(Seq::empty(), i + 1, Some(t))
                        }
                    } else if k == TokenType::LoopHead {
                        match parse_fat_from(p, i + 1, false) {
                            FatOutcome::Fail(e) => FatOutcome::Fail(e),
                            FatOutcome::Done(body, j, last) => if i < j <= p.len() && last is Some {
                                prepend_fat(
                                    FatOp {
                                        kind: FatKind::Loop(body),
                                        tokens: seq![t] + all_tokens(body) + seq![last->0],
                                    },
                                    parse_fat_from(p, j, top),
                                )
                            } else {
                                FatOutcome::Fail(ParseErrorView::EndOfFile(0))
                            },
                        }
                    } else if k == TokenType::Output {
                        prepend_fat(
                            FatOp { kind: FatKind::Output, tokens: seq![t] },
                            parse_fat_from(p, i + 1, top),
                        )
                    } else if k == TokenType::Input {
                        prepend_fat(
                            FatOp { kind: FatKind::Input, tokens: seq![t] },
                            parse_fat_from(p, i + 1, top),
                        )
                    } else {
                        let j = fold_end(p, i);
                        if i < j <= p.len() {
                            prepend_fat(
                                FatOp {
                                    kind: adjust_fat_kind(k, fold_delta(p, i)),
                                    tokens: token_slice(p, i, j),
                                },
                                parse_fat_from(p, j, top),
                            )
                        } else {
                            FatOutcome::Fail(ParseErrorView::EndOfFile(0))
                        }
                    }
                },
            },
        }
    }
}

/// The program that the reads `p` parse to, or the error.
pub open spec fn parse_spec(p: Seq<TokenResult>) -> Result<Seq<Op>, ParseErrorView> {
    match parse_from(p, 0, true) {
        ParseOutcome::Done(s, _) => Ok(s),
        ParseOutcome::Fail(e) => Err(e),
    }
}

/// The annotated program that the reads `p` parse to, or the error.
pub open spec fn parse_fat_spec(p: Seq<TokenResult>) -> Result<Seq<FatOp>, ParseErrorView> {
    match parse_fat_from(p, 0, true) {
        FatOutcome::Done(s, _, _) => Ok(s),
        FatOutcome::Fail(e) => Err(e),
    }
}

} // verus!

verus! {

pub open spec fn combine(acc: Seq<Op>, r: ParseOutcome) -> ParseOutcome {
    match r {
        ParseOutcome::Done(s, j) => ParseOutcome::Done(acc + s, j),
        ParseOutcome::Fail(e) => ParseOutcome::Fail(e),
    }
}

proof fn lemma_combine_prepend(acc: Seq<Op>, o: Op, r: ParseOutcome)
    ensures
        combine(acc, prepend(o, r)) == combine(acc.push(o), r),
{
    match r {
        ParseOutcome::Done(s, j) => {
            assert(acc + (seq![o] + s) =~= acc.push(o) + s);
        },
        ParseOutcome::Fail(_) => {},
    }
}

proof fn lemma_combine_empty(acc: Seq<Op>, j: int)
    ensures
        combine(acc, ParseOutcome::Done(Seq::empty(), j)) == ParseOutcome::Done(acc, j),
{
    assert(acc + Seq::<Op>::empty() =~= acc);
}

proof fn lemma_push_op(before: Vec<Instruction>, after: Vec<Instruction>, inst: Instruction)
    requires
        after@ == before@.push(inst),
    ensures
        ops_of_vec(&after) == ops_of_vec(&before).push(inst.op()),
{
    assert(ops_of_vec(&after) =~= ops_of_vec(&before).push(inst.op()));
}

proof fn lemma_fold_continue(
    p: Seq<TokenResult>,
    k: int,
    top: bool,
    before: Vec<Instruction>,
    after: Vec<Instruction>,
)
    requires
        0 <= k < p.len(),
        p[k] is Ok,
        kind_of(p[k]) is Some,
        is_adjust(kind_of(p[k])->0),
        k < fold_end(p, k) < p.len(),
        fold_delta(p, k) != 0 ==> after@.len() == before@.len() + 1 && after@.drop_last()
            == before@ && after@.last().op() == adjust_op(kind_of(p[k])->0, fold_delta(p, k)),
        fold_delta(p, k) == 0 ==> after@ == before@,
    ensures
        combine(ops_of_vec(&before), parse_from(p, k, top)) == combine(
            ops_of_vec(&after),
            parse_from(p, fold_end(p, k), top),
        ),
{
    let d = fold_delta(p, k);
    let j = fold_end(p, k);
    if d != 0 {
        assert(after@ =~= before@.push(after@.last()));
        lemma_push_op(before, after, after@.last());
        lemma_combine_prepend(
            ops_of_vec(&before),
            adjust_op(kind_of(p[k])->0, d),
            parse_from(p, j, top),
        );
    } else {
        assert(ops_of_vec(&after) =~= ops_of_vec(&before));
    }
}

proof fn lemma_fold_fail(p: Seq<TokenResult>, k: int, top: bool)
    requires
        0 <= k < p.len(),
        p[k] is Ok,
        kind_of(p[k]) is Some,
        is_adjust(kind_of(p[k])->0),
        k < fold_end(p, k) < p.len(),
        p[fold_end(p, k)] is Err,
    ensures
        parse_from(p, k, top) == ParseOutcome::Fail(p[fold_end(p, k)]->Err_0),
{
    assert(parse_from(p, fold_end(p, k), top) == ParseOutcome::Fail(p[fold_end(p, k)]->Err_0));
}

/// The token stream together with a buffer of one token handed back.
struct ParseContext<S> {
    token_stream: S,
    unget_buf: Option<TokenInfo>,
    /// Every read of the stream, from the first on.
    toks: Ghost<Seq<TokenResult>>,
    /// The index in `toks` of the next read.
    pos: Ghost<int>,
}

impl<S: TokenStream> ParseContext<S> {
    spec fn inv(&self) -> bool {
        &&& stream_well_formed(self.toks@)
        &&& 0 <= self.pos@ <= self.toks@.len()
        &&& match self.unget_buf {
            Some(t) => {
                &&& self.pos@ < self.toks@.len()
                &&& self.toks@[self.pos@] == Ok::<TokenInfoView, ParseErrorView>(t@)
                &&& self.pos@ + 1 < self.toks@.len() ==> self.token_stream.pending()
                    == self.toks@.subrange(self.pos@ + 1, self.toks@.len() as int)
            },
            None => self.pos@ < self.toks@.len() ==> self.token_stream.pending()
                == self.toks@.subrange(self.pos@, self.toks@.len() as int),
        }
    }

    fn new(token_stream: S) -> (r: Self)
        requires
            stream_well_formed(token_stream.pending()),
        ensures
            r.inv(),
            r.toks@ == token_stream.pending(),
            r.pos@ == 0,
    {
        let ghost toks = token_stream.pending();
        assert(toks.subrange(0, toks.len() as int) =~= toks);
        ParseContext { token_stream, unget_buf: None, toks: Ghost(toks), pos: Ghost(0) }
    }

    fn next_token_info(&mut self) -> (r: Result<TokenInfo, ParseError>)
        requires
            old(self).inv(),
            old(self).pos@ < old(self).toks@.len(),
        ensures
            final(self).inv(),
            final(self).toks@ == old(self).toks@,
            final(self).pos@ == old(self).pos@ + 1,
            final(self).unget_buf is None,
            result_view(r) == old(self).toks@[old(self).pos@],
    {
        let ghost toks = self.toks@;
        let ghost pos = self.pos@;
        if let Some(def) = self.unget_buf.take() {
            self.pos = Ghost(pos + 1);
            return Ok(def);
        }
        let r = self.token_stream.next();
        proof {
            let rest = toks.subrange(pos, toks.len() as int);
            assert(rest[0] == toks[pos]);
            if pos + 1 < toks.len() {
                assert(rest.drop_first() =~= toks.subrange(pos + 1, toks.len() as int));
            }
        }
        self.pos = Ghost(pos + 1);
        r
    }

    fn unget_token_info(&mut self, info: TokenInfo)
        requires
            old(self).inv(),
            old(self).unget_buf is None,
            0 < old(self).pos@,
            old(self).toks@[old(self).pos@ - 1] == Ok::<TokenInfoView, ParseErrorView>(info@),
        ensures
            final(self).inv(),
            final(self).toks@ == old(self).toks@,
            final(self).pos@ == old(self).pos@ - 1,
            final(self).unget_buf is Some,
    {
        self.unget_buf = Some(info);
        self.pos = Ghost(self.pos@ - 1);
    }
}

/// Which instruction a run of increments and decrements folds into.
#[derive(Clone, Copy)]
enum Axis {
    Pointer,
    Data,
}

spec fn axis_tokens(a: Axis) -> (TokenType, TokenType) {
    match a {
        Axis::Pointer => (TokenType::PInc, TokenType::PDec),
        Axis::Data => (TokenType::DInc, TokenType::DDec),
    }
}

proof fn lemma_run_end_from(p: Seq<TokenResult>, a: int, b: int, inc: TokenType, dec: TokenType)
    requires
        0 <= a <= b <= p.len(),
        forall|m: int|
            a <= m < b ==> kind_of(#[trigger] p[m]) == Some(inc) || kind_of(p[m]) == Some(dec),
    ensures
        run_end(p, a, inc, dec) == run_end(p, b, inc, dec),
    decreases b - a,
{
    if a < b {
        lemma_run_end_from(p, a + 1, b, inc, dec);
    }
}

/// A parser that turns the tokens of its tokenizer into programs.
pub struct Parser<T> {
    tokenizer: T,
}

impl<T: Tokenizer> Parser<T> {
    pub closed spec fn tokenizer(&self) -> T {
        self.tokenizer
    }

    pub fn new(tokenizer: T) -> (r: Self)
        ensures
            r.tokenizer() == tokenizer,
    {
        Parser { tokenizer }
    }

    /// Parses `source` into a program. The tokenizer must describe its streams: only
    /// then is it known that they end.
    pub fn parse_str(&self, source: &str) -> (r: Result<Program, ParseError>)
        requires
            self.tokenizer().describes_tokens(),
            source@.len() < isize::MAX,
        ensures
            match parse_spec(self.tokenizer().tokens_of(source@)) {
                Ok(ops) => r is Ok && r->Ok_0@ == ops,
                Err(e) => r is Err && r->Err_0@ == e,
            },
    {
        let mut context = ParseContext::new(self.tokenizer.token_stream(source));
        match Self::parse_internal(&mut context, true) {
            Ok(instructions) => Ok(Program::new(instructions)),
            Err(e) => Err(e),
        }
    }

    fn parse_internal<S: TokenStream>(context: &mut ParseContext<S>, top_level: bool) -> (r: Result<
        Vec<Instruction>,
        ParseError,
    >)
        requires
            old(context).inv(),
            old(context).pos@ < old(context).toks@.len(),
        ensures
            final(context).inv(),
            final(context).toks@ == old(context).toks@,
            match parse_from(old(context).toks@, old(context).pos@, top_level) {
                ParseOutcome::Done(s, j) => {
                    &&& r is Ok
                    &&& ops_of_vec(&r->Ok_0) == s
                    &&& final(context).pos@ == j
                    &&& j > old(context).pos@
                    &&& !top_level ==> j < old(context).toks@.len()
                },
                ParseOutcome::Fail(e) => r is Err && r->Err_0@ == e,
            },
        decreases old(context).toks@.len() - old(context).pos@,
    {
        let ghost toks = context.toks@;
        let ghost i0 = context.pos@;
        let mut instructions: Vec<Instruction> = Vec::new();
        assert(ops_of_vec(&instructions) =~= Seq::<Op>::empty());
        assert(Seq::<Op>::empty() + parse_from(toks, i0, top_level)->Done_0 =~= parse_from(
            toks,
            i0,
            top_level,
        )->Done_0);
        loop
            invariant
                context.inv(),
                context.toks@ == toks,
                toks == old(context).toks@,
                i0 == old(context).pos@,
                i0 <= context.pos@ < toks.len(),
                parse_from(toks, i0, top_level) == combine(
                    ops_of_vec(&instructions),
                    parse_from(toks, context.pos@, top_level),
                ),
            decreases toks.len() - context.pos@,
        {
            let ghost k = context.pos@;
            let info = match context.next_token_info() {
                Ok(info) => info,
                Err(e) => {
                    return Err(e);
                },
            };
            let token_type = info.token_type();
            match token_type {
                Some(TokenType::PInc) => {
                    let ghost before = instructions;
                    let pushed = Self::push_padd(context, &mut instructions, 1, Ghost(k));
                    if let Err(e) = pushed {
                        proof {
                            lemma_fold_fail(toks, k, top_level);
                        }
                        return Err(e);
                    }
                    proof {
                        lemma_fold_continue(toks, k, top_level, before, instructions);
                    }
                },
                Some(TokenType::PDec) => {
                    let ghost before = instructions;
                    let pushed = Self::push_padd(context, &mut instructions, -1, Ghost(k));
                    if let Err(e) = pushed {
                        proof {
                            lemma_fold_fail(toks, k, top_level);
                        }
                        return Err(e);
                    }
                    proof {
                        lemma_fold_continue(toks, k, top_level, before, instructions);
                    }
                },
                Some(TokenType::DInc) => {
                    let ghost before = instructions;
                    let pushed = Self::push_dadd(context, &mut instructions, 1, Ghost(k));
                    if let Err(e) = pushed {
                        proof {
                            lemma_fold_fail(toks, k, top_level);
                        }
                        return Err(e);
                    }
                    proof {
                        lemma_fold_continue(toks, k, top_level, before, instructions);
                    }
                },
                Some(TokenType::DDec) => {
                    let ghost before = instructions;
                    let pushed = Self::push_dadd(context, &mut instructions, -1, Ghost(k));
                    if let Err(e) = pushed {
                        proof {
                            lemma_fold_fail(toks, k, top_level);
                        }
                        return Err(e);
                    }
                    proof {
                        lemma_fold_continue(toks, k, top_level, before, instructions);
                    }
                },
                Some(TokenType::Output) => {
                    let ghost before = instructions;
                    instructions.push(Instruction::Output);
                    proof {
                        lemma_push_op(before, instructions, Instruction::Output);
                        lemma_combine_prepend(
                            ops_of_vec(&before),
                            Op::Output,
                            parse_from(toks, k + 1, top_level),
                        );
                    }
                },
                Some(TokenType::Input) => {
                    let ghost before = instructions;
                    instructions.push(Instruction::Input);
                    proof {
                        lemma_push_op(before, instructions, Instruction::Input);
                        lemma_combine_prepend(
                            ops_of_vec(&before),
                            Op::Input,
                            parse_from(toks, k + 1, top_level),
                        );
                    }
                },
                Some(TokenType::LoopHead) => {
                    let body = match Self::parse_internal(context, false) {
                        Ok(body) => body,
                        Err(e) => {
                            return Err(e);
                        },
                    };
                    let ghost before = instructions;
                    let inst = Instruction::UntilZero(body);
                    instructions.push(inst);
                    proof {
                        lemma_push_op(before, instructions, inst);
                        lemma_combine_prepend(
                            ops_of_vec(&before),
                            inst.op(),
                            parse_from(toks, context.pos@, top_level),
                        );
                    }
                },
                Some(TokenType::LoopTail) => {
                    if top_level {
                        return Err(ParseError::UnexpectedEndOfLoop { pos_in_chars: info.pos_in_chars });
                    } else {
                        proof {
                            lemma_combine_empty(ops_of_vec(&instructions), k + 1);
                        }
                        return Ok(instructions);
                    }
                },
                None => {
                    if top_level {
                        proof {
                            lemma_combine_empty(ops_of_vec(&instructions), k + 1);
                        }
                        return Ok(instructions);
                    } else {
                        return Err(ParseError::UnexpectedEndOfFile { pos_in_chars: info.pos_in_chars });
                    }
                },
            }
        }
    }

    fn push_padd<S: TokenStream>(
        context: &mut ParseContext<S>,
        instructions: &mut Vec<Instruction>,
        initial_operand: isize,
        first: Ghost<int>,
    ) -> (r: Result<(), ParseError>)
        requires
            Self::push_requires(*old(context), first@, initial_operand),
            axis_of(kind_of(old(context).toks@[first@])->0) == axis_tokens(Axis::Pointer),
        ensures
            Self::push_ensures(*old(context), *final(context), old(instructions)@, final(instructions)@, first@, r),
    {
        Self::push_xadd(context, instructions, initial_operand, Axis::Pointer, first)
    }

    fn push_dadd<S: TokenStream>(
        context: &mut ParseContext<S>,
        instructions: &mut Vec<Instruction>,
        initial_operand: isize,
        first: Ghost<int>,
    ) -> (r: Result<(), ParseError>)
        requires
            Self::push_requires(*old(context), first@, initial_operand),
            axis_of(kind_of(old(context).toks@[first@])->0) == axis_tokens(Axis::Data),
        ensures
            Self::push_ensures(*old(context), *final(context), old(instructions)@, final(instructions)@, first@, r),
    {
        Self::push_xadd(context, instructions, initial_operand, Axis::Data, first)
    }

    /// The read at `first` starts a run of increments and decrements, and the context
    /// stands just after it.
    spec fn push_requires<S: TokenStream>(c: ParseContext<S>, first: int, initial_operand: isize) -> bool {
        &&& c.inv()
        &&& c.unget_buf is None
        &&& 0 <= first
        &&& c.pos@ == first + 1
        &&& c.pos@ < c.toks@.len()
        &&& kind_of(c.toks@[first]) is Some
        &&& is_adjust(kind_of(c.toks@[first])->0)
        &&& initial_operand == if kind_of(c.toks@[first])->0 == axis_of(
            kind_of(c.toks@[first])->0,
        ).0 {
            1int
        } else {
            -1int
        }
    }

    /// The whole run was read and its folded instruction, if any, appended; or the read
    /// that ended the run was an error, handed on.
    spec fn push_ensures<S: TokenStream>(
        c: ParseContext<S>,
        c2: ParseContext<S>,
        before: Seq<Instruction>,
        after: Seq<Instruction>,
        first: int,
        r: Result<(), ParseError>,
    ) -> bool {
        let p = c.toks@;
        let j = fold_end(p, first);
        let d = fold_delta(p, first);
        let k = kind_of(p[first])->0;
        &&& first < j < p.len()
        &&& c2.inv()
        &&& c2.toks@ == p
        &&& match p[j] {
            Err(e) => r is Err && r->Err_0@ == e,
            Ok(_) => {
                &&& r is Ok
                &&& c2.pos@ == j
                &&& d != 0 ==> after.len() == before.len() + 1 && after.drop_last() == before
                    && after.last().op() == adjust_op(k, d)
                &&& d == 0 ==> after == before
            },
        }
    }

    fn push_xadd<S: TokenStream>(
        context: &mut ParseContext<S>,
        instructions: &mut Vec<Instruction>,
        initial_operand: isize,
        axis: Axis,
        first: Ghost<int>,
    ) -> (r: Result<(), ParseError>)
        requires
            Self::push_requires(*old(context), first@, initial_operand),
            axis_of(kind_of(old(context).toks@[first@])->0) == axis_tokens(axis),
        ensures
            Self::push_ensures(*old(context), *final(context), old(instructions)@, final(instructions)@, first@, r),
    {
        let ghost p = context.toks@;
        let (inc, dec) = match axis {
            Axis::Pointer => (TokenType::PInc, TokenType::PDec),
            Axis::Data => (TokenType::DInc, TokenType::DDec),
        };
        let mut operand = initial_operand;
        loop
            invariant_except_break
                context.unget_buf is None,
            invariant
                context.inv(),
                context.toks@ == p,
                p == old(context).toks@,
                Self::push_requires(*old(context), first@, initial_operand),
                axis_of(kind_of(p[first@])->0) == axis_tokens(axis),
                first@ < context.pos@ < p.len(),
                (inc, dec) == axis_tokens(axis),
                forall|m: int|
                    first@ < m < context.pos@ ==> kind_of(#[trigger] p[m]) == Some(inc) || kind_of(
                        p[m],
                    ) == Some(dec),
                operand == initial_operand + run_sum(p, first@ + 1, context.pos@, inc),
                -(context.pos@ - first@) <= operand <= context.pos@ - first@,
            ensures
                p[context.pos@] is Ok,
                context.pos@ == run_end(p, first@ + 1, inc, dec),
            decreases p.len() - context.pos@,
        {
            let ghost m = context.pos@;
            let info = match context.next_token_info() {
                Ok(info) => info,
                Err(e) => {
                    proof {
                        lemma_run_end_from(p, first@ + 1, m, inc, dec);
                    }
                    return Err(e);
                },
            };
            let token_type = info.token_type();
            if token_type == Some(inc) {
                proof {
                    assert(!is_terminal(p[m]));
                }
                operand += 1;
            } else if token_type == Some(dec) {
                proof {
                    assert(!is_terminal(p[m]));
                }
                operand -= 1;
            } else {
                context.unget_token_info(info);
                proof {
                    lemma_run_end_from(p, first@ + 1, m, inc, dec);
                }
                break;
            }
        }
        if operand != 0 {
            let inst = match axis {
                Axis::Pointer => Instruction::PAdd(operand),
                Axis::Data => Instruction::DAdd(operand),
            };
            instructions.push(inst);
            proof {
                assert(instructions@.drop_last() =~= old(instructions)@);
            }
        }
        Ok(())
    }
}

} // verus!

verus! {

pub open spec fn combine_fat(acc: Seq<FatOp>, r: FatOutcome) -> FatOutcome {
    match r {
        FatOutcome::Done(s, j, last) => FatOutcome::Done(acc + s, j, last),
        FatOutcome::Fail(e) => FatOutcome::Fail(e),
    }
}

proof fn lemma_combine_prepend_fat(acc: Seq<FatOp>, o: FatOp, r: FatOutcome)
    ensures
        combine_fat(acc, prepend_fat(o, r)) == combine_fat(acc.push(o), r),
{
    match r {
        FatOutcome::Done(s, j, last) => {
            assert(acc + (seq![o] + s) =~= acc.push(o) + s);
        },
        FatOutcome::Fail(_) => {},
    }
}

proof fn lemma_combine_empty_fat(acc: Seq<FatOp>, j: int, last: Option<TokenInfoView>)
    ensures
        combine_fat(acc, FatOutcome::Done(Seq::empty(), j, last)) == FatOutcome::Done(acc, j, last),
{
    assert(acc + Seq::<FatOp>::empty() =~= acc);
}

proof fn lemma_push_fat(before: Vec<FatInstruction>, after: Vec<FatInstruction>, inst: FatInstruction)
    requires
        after@ == before@.push(inst),
    ensures
        fat_ops_of_vec(&after) == fat_ops_of_vec(&before).push(inst.fat_op()),
{
    assert(fat_ops_of_vec(&after) =~= fat_ops_of_vec(&before).push(inst.fat_op()));
}

proof fn lemma_push_token(before: Vec<TokenInfo>, after: Vec<TokenInfo>, t: TokenInfo)
    requires
        after@ == before@.push(t),
    ensures
        token_views(&after) == token_views(&before).push(t@),
{
    assert(token_views(&after) =~= token_views(&before).push(t@));
}

proof fn lemma_fold_fail_fat(p: Seq<TokenResult>, k: int, top: bool)
    requires
        0 <= k < p.len(),
        p[k] is Ok,
        kind_of(p[k]) is Some,
        is_adjust(kind_of(p[k])->0),
        k < fold_end(p, k) < p.len(),
        p[fold_end(p, k)] is Err,
    ensures
        parse_fat_from(p, k, top) == FatOutcome::Fail(p[fold_end(p, k)]->Err_0),
{
    assert(parse_fat_from(p, fold_end(p, k), top) == FatOutcome::Fail(p[fold_end(p, k)]->Err_0));
}

/// A copy of a token with the same value.
fn copy_token_info(t: &TokenInfo) -> (r: TokenInfo)
    ensures
        r@ == t@,
{
    TokenInfo {
        token: match &t.token {
            Some(tok) => Some(
                crate::token::Token { token_type: tok.token_type, token_str: tok.token_str.clone() },
            ),
            None => None,
        },
        pos_in_chars: t.pos_in_chars,
    }
}

/// The tokens of all instructions of `insts`, in order, after `head`.
fn collect_tokens(head: TokenInfo, insts: &Vec<FatInstruction>) -> (r: Vec<TokenInfo>)
    ensures
        token_views(&r) == seq![head@] + all_tokens(fat_ops_of_vec(insts)),
{
    let ghost s = fat_ops_of_vec(insts);
    let mut tokens: Vec<TokenInfo> = Vec::new();
    tokens.push(head);
    assert(token_views(&tokens) =~= seq![head@] + all_tokens(s.take(0)));
    let mut a: usize = 0;
    while a < insts.len()
        invariant
            a <= insts.len(),
            s == fat_ops_of_vec(insts),
            token_views(&tokens) == seq![head@] + all_tokens(s.take(a as int)),
        decreases insts.len() - a,
    {
        let inner = &insts[a].tokens;
        let mut b: usize = 0;
        assert(token_views(inner).take(0) =~= Seq::<TokenInfoView>::empty());
        assert(token_views(&tokens) =~= seq![head@] + all_tokens(s.take(a as int)) + token_views(
            inner,
        ).take(0));
        while b < inner.len()
            invariant
                b <= inner.len(),
                a < insts.len(),
                inner == &insts[a as int].tokens,
                token_views(&tokens) == seq![head@] + all_tokens(s.take(a as int)) + token_views(
                    inner,
                ).take(b as int),
            decreases inner.len() - b,
        {
            let ghost before = tokens;
            let t = copy_token_info(&inner[b]);
            tokens.push(t);
            proof {
                lemma_push_token(before, tokens, t);
                assert(token_views(inner).take(b as int + 1) =~= token_views(inner).take(
                    b as int,
                ).push(t@));
                assert(token_views(&tokens) =~= seq![head@] + all_tokens(s.take(a as int))
                    + token_views(inner).take(b as int + 1));
            }
            b += 1;
        }
        proof {
            assert(s.take(a as int + 1).drop_last() =~= s.take(a as int));
            assert(s[a as int].tokens == token_views(inner));
            assert(token_views(inner).take(b as int) =~= token_views(inner));
            assert(all_tokens(s.take(a as int + 1)) == all_tokens(s.take(a as int)) + token_views(
                inner,
            ));
            assert(token_views(&tokens) =~= seq![head@] + all_tokens(s.take(a as int + 1)));
        }
        a += 1;
    }
    assert(s.take(a as int) =~= s);
    tokens
}

/// The instructions of one level, and the loop tail that closed it (none at the top).
struct ParsedFatValue {
    instructions: Vec<FatInstruction>,
    last_token: Option<TokenInfo>,
}

impl<T: Tokenizer> Parser<T> {
    /// Parses `source` into a program whose instructions carry their tokens.
    pub fn parse_str_fat(&self, source: &str) -> (r: Result<FatProgram, ParseError>)
        requires
            self.tokenizer().describes_tokens(),
            source@.len() < isize::MAX,
        ensures
            match parse_fat_spec(self.tokenizer().tokens_of(source@)) {
                Ok(ops) => r is Ok && r->Ok_0.fat_ops() == ops,
                Err(e) => r is Err && r->Err_0@ == e,
            },
    {
        let mut context = ParseContext::new(self.tokenizer.token_stream(source));
        match Self::parse_internal_fat(&mut context, true) {
            Ok(value) => Ok(FatProgram::new(value.instructions)),
            Err(e) => Err(e),
        }
    }

    fn parse_internal_fat<S: TokenStream>(context: &mut ParseContext<S>, top_level: bool) -> (r:
        Result<ParsedFatValue, ParseError>)
        requires
            old(context).inv(),
            old(context).pos@ < old(context).toks@.len(),
        ensures
            final(context).inv(),
            final(context).toks@ == old(context).toks@,
            match parse_fat_from(old(context).toks@, old(context).pos@, top_level) {
                FatOutcome::Done(s, j, last) => {
                    &&& r is Ok
                    &&& fat_ops_of_vec(&r->Ok_0.instructions) == s
                    &&& final(context).pos@ == j
                    &&& j > old(context).pos@
                    &&& !top_level ==> j < old(context).toks@.len() && r->Ok_0.last_token is Some
                        && last == Some(r->Ok_0.last_token->0@)
                    &&& top_level ==> r->Ok_0.last_token is None && last is None
                },
                FatOutcome::Fail(e) => r is Err && r->Err_0@ == e,
            },
        decreases old(context).toks@.len() - old(context).pos@,
    {
        let ghost toks = context.toks@;
        let ghost i0 = context.pos@;
        let mut instructions: Vec<FatInstruction> = Vec::new();
        assert(fat_ops_of_vec(&instructions) =~= Seq::<FatOp>::empty());
        assert(Seq::<FatOp>::empty() + parse_fat_from(toks, i0, top_level)->Done_0
            =~= parse_fat_from(toks, i0, top_level)->Done_0);
        loop
            invariant
                context.inv(),
                context.toks@ == toks,
                toks == old(context).toks@,
                i0 == old(context).pos@,
                i0 <= context.pos@ < toks.len(),
                parse_fat_from(toks, i0, top_level) == combine_fat(
                    fat_ops_of_vec(&instructions),
                    parse_fat_from(toks, context.pos@, top_level),
                ),
            decreases toks.len() - context.pos@,
        {
            let ghost k = context.pos@;
            let info = match context.next_token_info() {
                Ok(info) => info,
                Err(e) => {
                    return Err(e);
                },
            };
            let token_type = info.token_type();
            let ghost before = instructions;
            match token_type {
                Some(TokenType::PInc) | Some(TokenType::PDec) | Some(TokenType::DInc) | Some(
                    TokenType::DDec,
                ) => {
                    let tt = token_type.unwrap();
                    let initial: isize = if tt == TokenType::PInc || tt == TokenType::DInc {
                        1
                    } else {
                        -1
                    };
                    let pushed = if tt == TokenType::PInc || tt == TokenType::PDec {
                        Self::push_padd_fat(context, &mut instructions, info, initial, Ghost(k))
                    } else {
                        Self::push_dadd_fat(context, &mut instructions, info, initial, Ghost(k))
                    };
                    if let Err(e) = pushed {
                        proof {
                            lemma_fold_fail_fat(toks, k, top_level);
                        }
                        return Err(e);
                    }
                    proof {
                        let j = fold_end(toks, k);
                        let o = FatOp {
                            kind: adjust_fat_kind(tt, fold_delta(toks, k)),
                            tokens: token_slice(toks, k, j),
                        };
                        assert(parse_fat_from(toks, k, top_level) == prepend_fat(
                            o,
                            parse_fat_from(toks, j, top_level),
                        ));
                        assert(instructions@ =~= before@.push(instructions@.last()));
                        lemma_push_fat(before, instructions, instructions@.last());
                        lemma_combine_prepend_fat(
                            fat_ops_of_vec(&before),
                            o,
                            parse_fat_from(toks, j, top_level),
                        );
                    }
                },
                Some(TokenType::Output) => {
                    let ghost t = info@;
                    let inst = FatInstruction { kind: FatInstructionKind::Output, tokens: vec![info] };
                    instructions.push(inst);
                    proof {
                        assert(inst.fat_op().tokens =~= seq![t]);
                        lemma_push_fat(before, instructions, inst);
                        lemma_combine_prepend_fat(
                            fat_ops_of_vec(&before),
                            inst.fat_op(),
                            parse_fat_from(toks, k + 1, top_level),
                        );
                    }
                },
                Some(TokenType::Input) => {
                    let ghost t = info@;
                    let inst = FatInstruction { kind: FatInstructionKind::Input, tokens: vec![info] };
                    instructions.push(inst);
                    proof {
                        assert(inst.fat_op().tokens =~= seq![t]);
                        lemma_push_fat(before, instructions, inst);
                        lemma_combine_prepend_fat(
                            fat_ops_of_vec(&before),
                            inst.fat_op(),
                            parse_fat_from(toks, k + 1, top_level),
                        );
                    }
                },
                Some(TokenType::LoopHead) => {
                    let value = match Self::parse_internal_fat(context, false) {
                        Ok(value) => value,
                        Err(e) => {
                            return Err(e);
                        },
                    };
                    let ParsedFatValue { instructions: sub, last_token } = value;
                    let ghost t = info@;
                    let mut tokens = collect_tokens(info, &sub);
                    match last_token {
                        Some(last) => {
                            let ghost lv = last@;
                            let ghost mid = tokens;
                            tokens.push(last);
                            proof {
                                lemma_push_token(mid, tokens, last);
                                assert(token_views(&tokens) =~= seq![t] + all_tokens(
                                    fat_ops_of_vec(&sub),
                                ) + seq![lv]);
                            }
                            let inst = FatInstruction {
                                kind: FatInstructionKind::UntilZero(sub),
                                tokens,
                            };
                            instructions.push(inst);
                            proof {
                                lemma_push_fat(before, instructions, inst);
                                lemma_combine_prepend_fat(
                                    fat_ops_of_vec(&before),
                                    inst.fat_op(),
                                    parse_fat_from(toks, context.pos@, top_level),
                                );
                            }
                        },
                        None => {
                            assert(false);
                        },
                    }
                },
                Some(TokenType::LoopTail) => {
                    if top_level {
                        return Err(ParseError::UnexpectedEndOfLoop { pos_in_chars: info.pos_in_chars });
                    } else {
                        proof {
                            lemma_combine_empty_fat(fat_ops_of_vec(&instructions), k + 1, Some(info@));
                        }
                        return Ok(ParsedFatValue { instructions, last_token: Some(info) });
                    }
                },
                None => {
                    if top_level {
                        proof {
                            lemma_combine_empty_fat(fat_ops_of_vec(&instructions), k + 1, None);
                        }
                        return Ok(ParsedFatValue { instructions, last_token: None });
                    } else {
                        return Err(ParseError::UnexpectedEndOfFile { pos_in_chars: info.pos_in_chars });
                    }
                },
            }
        }
    }

    fn push_padd_fat<S: TokenStream>(
        context: &mut ParseContext<S>,
        instructions: &mut Vec<FatInstruction>,
        initial_token: TokenInfo,
        initial_operand: isize,
        first: Ghost<int>,
    ) -> (r: Result<(), ParseError>)
        requires
            Self::push_requires(*old(context), first@, initial_operand),
            axis_of(kind_of(old(context).toks@[first@])->0) == axis_tokens(Axis::Pointer),
            Ok::<TokenInfoView, ParseErrorView>(initial_token@) == old(context).toks@[first@],
        ensures
            Self::push_fat_ensures(*old(context), *final(context), old(instructions)@, final(instructions)@, first@, r),
    {
        Self::push_xadd_fat(context, instructions, initial_token, initial_operand, Axis::Pointer, first)
    }

    fn push_dadd_fat<S: TokenStream>(
        context: &mut ParseContext<S>,
        instructions: &mut Vec<FatInstruction>,
        initial_token: TokenInfo,
        initial_operand: isize,
        first: Ghost<int>,
    ) -> (r: Result<(), ParseError>)
        requires
            Self::push_requires(*old(context), first@, initial_operand),
            axis_of(kind_of(old(context).toks@[first@])->0) == axis_tokens(Axis::Data),
            Ok::<TokenInfoView, ParseErrorView>(initial_token@) == old(context).toks@[first@],
        ensures
            Self::push_fat_ensures(*old(context), *final(context), old(instructions)@, final(instructions)@, first@, r),
    {
        Self::push_xadd_fat(context, instructions, initial_token, initial_operand, Axis::Data, first)
    }

    /// As `push_ensures`, for an annotated instruction, which is appended even when the
    /// run cancels out.
    spec fn push_fat_ensures<S: TokenStream>(
        c: ParseContext<S>,
        c2: ParseContext<S>,
        before: Seq<FatInstruction>,
        after: Seq<FatInstruction>,
        first: int,
        r: Result<(), ParseError>,
    ) -> bool {
        let p = c.toks@;
        let j = fold_end(p, first);
        let k = kind_of(p[first])->0;
        &&& first < j < p.len()
        &&& c2.inv()
        &&& c2.toks@ == p
        &&& match p[j] {
            Err(e) => r is Err && r->Err_0@ == e,
            Ok(_) => {
                &&& r is Ok
                &&& c2.pos@ == j
                &&& after.len() == before.len() + 1
                &&& after.drop_last() == before
                &&& after.last().fat_op() == (FatOp {
                    kind: adjust_fat_kind(k, fold_delta(p, first)),
                    tokens: token_slice(p, first, j),
                })
            },
        }
    }

    fn push_xadd_fat<S: TokenStream>(
        context: &mut ParseContext<S>,
        instructions: &mut Vec<FatInstruction>,
        initial_token: TokenInfo,
        initial_operand: isize,
        axis: Axis,
        first: Ghost<int>,
    ) -> (r: Result<(), ParseError>)
        requires
            Self::push_requires(*old(context), first@, initial_operand),
            axis_of(kind_of(old(context).toks@[first@])->0) == axis_tokens(axis),
            Ok::<TokenInfoView, ParseErrorView>(initial_token@) == old(context).toks@[first@],
        ensures
            Self::push_fat_ensures(*old(context), *final(context), old(instructions)@, final(instructions)@, first@, r),
    {
        let ghost p = context.toks@;
        let (inc, dec) = match axis {
            Axis::Pointer => (TokenType::PInc, TokenType::PDec),
            Axis::Data => (TokenType::DInc, TokenType::DDec),
        };
        let mut tokens: Vec<TokenInfo> = Vec::new();
        tokens.push(initial_token);
        assert(token_views(&tokens) =~= token_slice(p, first@, first@ + 1));
        let mut operand = initial_operand;
        loop
            invariant_except_break
                context.unget_buf is None,
            invariant
                context.inv(),
                context.toks@ == p,
                p == old(context).toks@,
                Self::push_requires(*old(context), first@, initial_operand),
                axis_of(kind_of(p[first@])->0) == axis_tokens(axis),
                first@ < context.pos@ < p.len(),
                (inc, dec) == axis_tokens(axis),
                forall|m: int|
                    first@ < m < context.pos@ ==> kind_of(#[trigger] p[m]) == Some(inc) || kind_of(
                        p[m],
                    ) == Some(dec),
                operand == initial_operand + run_sum(p, first@ + 1, context.pos@, inc),
                -(context.pos@ - first@) <= operand <= context.pos@ - first@,
                token_views(&tokens) == token_slice(p, first@, context.pos@),
            ensures
                p[context.pos@] is Ok,
                context.pos@ == run_end(p, first@ + 1, inc, dec),
            decreases p.len() - context.pos@,
        {
            let ghost m = context.pos@;
            let info = match context.next_token_info() {
                Ok(info) => info,
                Err(e) => {
                    proof {
                        lemma_run_end_from(p, first@ + 1, m, inc, dec);
                    }
                    return Err(e);
                },
            };
            let token_type = info.token_type();
            if token_type == Some(inc) || token_type == Some(dec) {
                proof {
                    assert(!is_terminal(p[m]));
                }
                if token_type == Some(inc) {
                    operand += 1;
                } else {
                    operand -= 1;
                }
                let ghost before = tokens;
                tokens.push(info);
                proof {
                    lemma_push_token(before, tokens, info);
                    assert(token_views(&tokens) =~= token_slice(p, first@, m + 1));
                }
            } else {
                context.unget_token_info(info);
                proof {
                    lemma_run_end_from(p, first@ + 1, m, inc, dec);
                }
                break;
            }
        }
        let kind = if operand == 0 {
            FatInstructionKind::Nop
        } else {
            match axis {
                Axis::Pointer => FatInstructionKind::PAdd(operand),
                Axis::Data => FatInstructionKind::DAdd(operand),
            }
        };
        let inst = FatInstruction { kind, tokens };
        instructions.push(inst);
        proof {
            assert(instructions@.drop_last() =~= old(instructions)@);
        }
        Ok(())
    }
}

} // verus!

verus! {

proof fn lemma_plain_of_fat_concat(a: Seq<FatOp>, b: Seq<FatOp>)
    ensures
        plain_of_fat(a + b) == plain_of_fat(a)
            + plain_of_fat(b),
    decreases b.len(),
{
    if b.len() == 0 {
        assert(a + b =~= a);
        assert(plain_of_fat(a) + plain_of_fat(b) =~= plain_of_fat(a));
    } else {
        let b0 = b.subrange(0, b.len() - 1);
        lemma_plain_of_fat_concat(a, b0);
        assert((a + b).subrange(0, (a + b).len() - 1) =~= a + b0);
        assert((a + b)[(a + b).len() - 1] == b[b.len() - 1]);
        match plain_of_kind(b[b.len() - 1].kind) {
            Some(o) => {
                assert(plain_of_fat(a) + plain_of_fat(b0).push(o) =~= (plain_of_fat(a)
                    + plain_of_fat(b0)).push(o));
            },
            None => {},
        }
    }
}

proof fn lemma_plain_of_fat_prepend(o: FatOp, s: Seq<FatOp>)
    ensures
        plain_of_fat(seq![o] + s) == match plain_of_kind(o.kind) {
            Some(x) => seq![x] + plain_of_fat(s),
            None => plain_of_fat(s),
        },
{
    lemma_plain_of_fat_concat(seq![o], s);
    let one = seq![o];
    assert(one.subrange(0, 0) =~= Seq::<FatOp>::empty());
    assert(plain_of_fat(Seq::<FatOp>::empty()) == Seq::<Op>::empty());
    assert(one[0] == o);
    match plain_of_kind(o.kind) {
        Some(x) => {
            assert(plain_of_fat(one) =~= seq![x]);
        },
        None => {
            assert(plain_of_fat(one) =~= Seq::<Op>::empty());
            assert(Seq::<Op>::empty() + plain_of_fat(s) =~= plain_of_fat(s));
        },
    }
}

/// The annotated parse from read `i` on, with its no-ops dropped, is the plain parse.
proof fn lemma_fat_plain_from(p: Seq<TokenResult>, i: int, top: bool)
    ensures
        match (parse_fat_from(p, i, top), parse_from(p, i, top)) {
            (FatOutcome::Done(f, j, last), ParseOutcome::Done(s, j2)) => plain_of_fat(
                f,
            ) == s && j == j2 && (!top ==> last is Some),
            (FatOutcome::Fail(e1), ParseOutcome::Fail(e2)) => e1 == e2,
            _ => false,
        },
    decreases p.len() - i,
{
    if 0 <= i < p.len() {
        match p[i] {
            Err(_) => {},
            Ok(t) => match t.token {
                None => {},
                Some(tok) => {
                    let k = tok.0;
                    if k == TokenType::LoopTail {
                    } else if k == TokenType::LoopHead {
                        lemma_fat_plain_from(p, i + 1, false);
                        match parse_from(p, i + 1, false) {
                            ParseOutcome::Done(body, j) => {
                                if i < j <= p.len() {
                                    lemma_fat_plain_from(p, j, top);
                                    let fb = parse_fat_from(p, i + 1, false)->Done_0;
                                    let last = parse_fat_from(p, i + 1, false)->Done_2;
                                    let o = FatOp {
                                        kind: FatKind::Loop(fb),
                                        tokens: seq![t] + all_tokens(fb) + seq![last->0],
                                    };
                                    match parse_fat_from(p, j, top) {
                                        FatOutcome::Done(rest, _, _) => {
                                            lemma_plain_of_fat_prepend(o, rest);
                                        },
                                        _ => {},
                                    }
                                }
                            },
                            _ => {},
                        }
                    } else if k == TokenType::Output || k == TokenType::Input {
                        lemma_fat_plain_from(p, i + 1, top);
                        let o = FatOp {
                            kind: if k == TokenType::Output {
                                FatKind::Output
                            } else {
                                FatKind::Input
                            },
                            tokens: seq![t],
                        };
                        match parse_fat_from(p, i + 1, top) {
                            FatOutcome::Done(rest, _, _) => {
                                lemma_plain_of_fat_prepend(o, rest);
                            },
                            _ => {},
                        }
                    } else {
                        let j = fold_end(p, i);
                        if i < j <= p.len() {
                            lemma_fat_plain_from(p, j, top);
                            let o = FatOp {
                                kind: adjust_fat_kind(k, fold_delta(p, i)),
                                tokens: token_slice(p, i, j),
                            };
                            match parse_fat_from(p, j, top) {
                                FatOutcome::Done(rest, _, _) => {
                                    lemma_plain_of_fat_prepend(o, rest);
                                },
                                _ => {},
                            }
                        }
                    }
                },
            },
        }
    }
}

/// Parsing with annotations and then dropping them gives the program that plain parsing
/// gives, or the same error; so both programs run alike on every input.
pub proof fn lemma_fat_as_program_agrees(p: Seq<TokenResult>)
    ensures
        match (parse_fat_spec(p), parse_spec(p)) {
            (Ok(f), Ok(s)) => {
                &&& plain_of_fat(f) == s
                &&& forall|size: crate::runtime::MemorySize, m: crate::runtime::Machine, fuel: nat|
                    crate::runtime::run_seq(size, plain_of_fat(f), m, fuel)
                        == #[trigger] crate::runtime::run_seq(size, s, m, fuel)
            },
            (Err(a), Err(b)) => a == b,
            _ => false,
        },
{
    lemma_fat_plain_from(p, 0, true);
}

proof fn lemma_run_sum_front(p: Seq<TokenResult>, i: int, j: int, inc: TokenType)
    requires
        i < j,
    ensures
        run_sum(p, i, j, inc) == (if kind_of(p[i]) == Some(inc) {
            1int
        } else {
            -1int
        }) + run_sum(p, i + 1, j, inc),
    decreases j - i,
{
    if i + 1 < j {
        lemma_run_sum_front(p, i, j - 1, inc);
        assert(run_sum(p, i + 1, j, inc) == run_sum(p, i + 1, j - 1, inc) + (if kind_of(p[j - 1])
            == Some(inc) {
            1int
        } else {
            -1int
        }));
    } else {
        assert(run_sum(p, i, i, inc) == 0);
        assert(run_sum(p, i + 1, j, inc) == 0);
    }
}

/// A maximal run of increments and decrements of one axis, reads `i..j`, folds into one
/// instruction that carries the number of increments minus the number of decrements;
/// into none when that is zero. The annotated parse keeps a no-op with the run's tokens.
pub proof fn lemma_fold_run(p: Seq<TokenResult>, i: int, j: int, top: bool)
    requires
        0 <= i < j < p.len(),
        kind_of(p[i]) is Some,
        is_adjust(kind_of(p[i])->0),
        forall|m: int|
            i <= m < j ==> axis_of(kind_of(p[i])->0) == axis_of(kind_of(#[trigger] p[m])->0)
                && kind_of(p[m]) is Some && is_adjust(kind_of(p[m])->0),
        !(kind_of(p[j]) is Some && is_adjust(kind_of(p[j])->0) && axis_of(kind_of(p[j])->0)
            == axis_of(kind_of(p[i])->0)),
    ensures
        ({
            let k = kind_of(p[i])->0;
            let sum = run_sum(p, i, j, axis_of(k).0);
            &&& parse_from(p, i, top) == if sum != 0 {
                prepend(adjust_op(k, sum), parse_from(p, j, top))
            } else {
                parse_from(p, j, top)
            }
            &&& parse_fat_from(p, i, top) == prepend_fat(
                FatOp { kind: adjust_fat_kind(k, sum), tokens: token_slice(p, i, j) },
                parse_fat_from(p, j, top),
            )
        }),
{
    let k = kind_of(p[i])->0;
    let (inc, dec) = axis_of(k);
    assert(k == inc || k == dec);
    assert forall|m: int| i + 1 <= m < j implies kind_of(#[trigger] p[m]) == Some(inc) || kind_of(
        p[m],
    ) == Some(dec) by {
        assert(axis_of(kind_of(p[m])->0) == axis_of(k));
    }
    lemma_run_end_from(p, i + 1, j, inc, dec);
    assert(run_end(p, j, inc, dec) == j);
    lemma_run_sum_front(p, i, j, inc);
    assert(fold_end(p, i) == j);
    assert(fold_delta(p, i) == run_sum(p, i, j, inc));
}

} // verus!
