//! Brainf*ck.
use vstd::prelude::*;
use crate::parser::Parser;
use crate::token::TokenType;
use crate::token::simple::{SimpleTokenSpec, SimpleTokenizer, lemma_sort_same_length};

verus! {

/// The symbols of Brainf*ck, in the order of the token types.
pub open spec fn brainfxck_symbols() -> Seq<(Seq<char>, TokenType)> {
    seq![
        (">"@, TokenType::PInc),
        ("<"@, TokenType::PDec),
        ("+"@, TokenType::DInc),
        ("-"@, TokenType::DDec),
        ("."@, TokenType::Output),
        (","@, TokenType::Input),
        ("["@, TokenType::LoopHead),
        ("]"@, TokenType::LoopTail),
    ]
}

/// A tokenizer for Brainf*ck.
pub fn tokenizer() -> (r: SimpleTokenizer)
    ensures
        r.symbols() == brainfxck_symbols(),
{
    proof {
        reveal_strlit(">");
        reveal_strlit("<");
        reveal_strlit("+");
        reveal_strlit("-");
        reveal_strlit(".");
        reveal_strlit(",");
        reveal_strlit("[");
        reveal_strlit("]");
    }
    let token_spec = SimpleTokenSpec {
        ptr_inc: String::from_str(">"),
        ptr_dec: String::from_str("<"),
        data_inc: String::from_str("+"),
        data_dec: String::from_str("-"),
        output: String::from_str("."),
        input: String::from_str(","),
        loop_head: String::from_str("["),
        loop_tail: String::from_str("]"),
    };
    let r = token_spec.to_tokenizer();
    proof {
        assert(seq![
            (token_spec.ptr_inc@, TokenType::PInc),
            (token_spec.ptr_dec@, TokenType::PDec),
            (token_spec.data_inc@, TokenType::DInc),
            (token_spec.data_dec@, TokenType::DDec),
            (token_spec.output@, TokenType::Output),
            (token_spec.input@, TokenType::Input),
            (token_spec.loop_head@, TokenType::LoopHead),
            (token_spec.loop_tail@, TokenType::LoopTail),
        ] =~= brainfxck_symbols());
        lemma_sort_same_length(brainfxck_symbols(), 1);
    }
    r
}

/// A parser for Brainf*ck.
pub fn parser() -> (r: Parser<SimpleTokenizer>)
    ensures
        r.tokenizer().symbols() == brainfxck_symbols(),
{
    Parser::new(tokenizer())
}

} // verus!
