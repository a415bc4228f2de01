//! Tokens and the contract between tokenizers and the parser.
use vstd::prelude::*;
use crate::error::{ParseError, ParseErrorView};

pub mod regex;
pub mod simple;

verus! {

/// The eight operations of the language.
#[derive(Debug, Clone, Copy, PartialEq, Eq, Structural)]
pub enum TokenType {
    /// pointer increment (Brainfuck: `>`)
    PInc,
    /// pointer decrement (Brainfuck: `<`)
    PDec,
    /// data increment (Brainfuck: `+`)
    DInc,
    /// data decrement (Brainfuck: `-`)
    DDec,
    /// output (Brainfuck: `.`)
    Output,
    /// input (Brainfuck: `,`)
    Input,
    /// loop head (Brainfuck: `[`)
    LoopHead,
    /// loop tail (Brainfuck: `]`)
    LoopTail,
}

/// A token: its type and the text it was read from.
#[derive(Debug, Clone, PartialEq, Eq)]
pub struct Token {
    pub token_type: TokenType,
    pub token_str: String,
}

/// A token, or the end of the source (`token` is `None`), with its position in the
/// source counted in Unicode scalar values.
#[derive(Debug, Clone, PartialEq, Eq)]
pub struct TokenInfo {
    pub token: Option<Token>,
    pub pos_in_chars: usize,
}

/// The mathematical value of a [`TokenInfo`].
pub ghost struct TokenInfoView {
    pub token: Option<(TokenType, Seq<char>)>,
    pub pos: int,
}

impl View for TokenInfo {
    type V = TokenInfoView;

    open spec fn view(&self) -> TokenInfoView {
        TokenInfoView {
            token: match self.token {
                Some(t) => Some((t.token_type, t.token_str@)),
                None => None,
            },
            pos: self.pos_in_chars as int,
        }
    }
}

/// What one read of a token stream hands out.
pub type TokenResult = Result<TokenInfoView, ParseErrorView>;

pub open spec fn result_view(r: Result<TokenInfo, ParseError>) -> TokenResult {
    match r {
        Ok(t) => Ok(t@),
        Err(e) => Err(e@),
    }
}

/// A read that ends the stream: the end of the source, or an error.
pub open spec fn is_terminal(r: TokenResult) -> bool {
    match r {
        Ok(t) => t.token is None,
        Err(_) => true,
    }
}

/// The type of the token that a read handed out, if it handed out a token.
pub open spec fn kind_of(r: TokenResult) -> Option<TokenType> {
    match r {
        Ok(t) => match t.token {
            Some(tok) => Some(tok.0),
            None => None,
        },
        Err(_) => None,
    }
}

/// The reads of a stream from now on: tokens, then exactly one terminal read at the end.
pub open spec fn stream_well_formed(p: Seq<TokenResult>) -> bool {
    &&& 0 < p.len() <= isize::MAX
    &&& forall|i: int| 0 <= i < p.len() - 1 ==> !is_terminal(#[trigger] p[i])
    &&& is_terminal(p.last())
}

impl TokenInfo {
    /// The type of the token; `None` at the end of the source.
    pub fn token_type(&self) -> (r: Option<TokenType>)
        ensures
            r == kind_of(Ok(self@)),
    {
        match &self.token {
            Some(t) => Some(t.token_type),
            None => None,
        }
    }

    /// The text of the token; `None` at the end of the source.
    pub fn token_str(&self) -> (r: Option<&str>)
        ensures
            r is Some <==> self.token is Some,
            r is Some ==> r->0@ == self.token->0.token_str@,
    {
        match &self.token {
            Some(t) => Some(t.token_str.as_str()),
            None => None,
        }
    }
}

/// A source of tokens, read one at a time.
///
/// An implementation describes what it hands out by `pending`. The default describes
/// nothing, so that implementations written outside verified code promise nothing.
pub trait TokenStream: Sized {
    /// The results that the coming reads hand out, up to and including the first that
    /// ends the stream.
    open spec fn pending(&self) -> Seq<TokenResult> {
        Seq::empty()
    }

    /// Reads the next token, the end of the source, or an error.
    fn next(&mut self) -> (r: Result<TokenInfo, ParseError>)
        ensures
            old(self).pending().len() > 0 ==> result_view(r) == old(self).pending()[0],
            old(self).pending().len() > 1 ==> final(self).pending()
                == old(self).pending().drop_first(),
    ;
}

/// Turns a source text into a stream of tokens.
///
/// An implementation that describes its streams says so by `describes_tokens`, and
/// describes them by `tokens_of`. The defaults describe nothing, so that
/// implementations written outside verified code promise nothing.
pub trait Tokenizer {
    type Stream: TokenStream;

    /// Whether `tokens_of` describes the streams of this tokenizer.
    open spec fn describes_tokens(&self) -> bool {
        false
    }

    /// What a stream over `source` hands out.
    open spec fn tokens_of(&self, source: Seq<char>) -> Seq<TokenResult> {
        Seq::empty()
    }

    /// A stream over `source`. A source holds fewer than `isize::MAX` characters, as
    /// each takes at least one of at most `isize::MAX` bytes.
    fn token_stream(&self, source: &str) -> (s: Self::Stream)
        requires
            source@.len() < isize::MAX,
        ensures
            self.describes_tokens() ==> s.pending() == self.tokens_of(source@),
            self.describes_tokens() ==> stream_well_formed(s.pending()),
    ;
}

} // verus!

verus! {

/// The characters of `s`, in order.
pub(crate) fn chars_of(s: &str) -> (r: Vec<char>)
    ensures
        r@ == s@,
{
    let mut v: Vec<char> = Vec::new();
    for c in it: s.chars()
        invariant
            v@ == it.seq().take(it.index() as int),
    {
        v.push(c);
    }
    v
}

} // verus!
