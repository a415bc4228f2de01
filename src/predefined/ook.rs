//! Ook!: each operation is a pair of the words `Ook.`, `Ook?` and `Ook!`.
use vstd::prelude::*;
use crate::error::{ParseError, ParseErrorView};
use crate::parser::Parser;
use crate::token::{
    Token, TokenInfo, TokenInfoView, TokenResult, TokenStream, TokenType, Tokenizer, chars_of,
    is_terminal,
};

verus! {

/// The three words of the language.
#[derive(Clone, Copy, PartialEq, Eq, Structural)]
pub enum OokTokenType {
    /// `Ook.`
    Dot,
    /// `Ook?`
    Question,
    /// `Ook!`
    Exclamation,
}

/// The word of the language that starts in `src` at `i`, if any.
pub open spec fn ook_at(src: Seq<char>, i: int) -> Option<OokTokenType> {
    if 0 <= i && i + 3 < src.len() && src[i] == 'O' && src[i + 1] == 'o' && src[i + 2] == 'k' {
        if src[i + 3] == '.' {
            Some(OokTokenType::Dot)
        } else if src[i + 3] == '?' {
            Some(OokTokenType::Question)
        } else if src[i + 3] == '!' {
            Some(OokTokenType::Exclamation)
        } else {
            None
        }
    } else {
        None
    }
}

/// The first index from `i` on where a word starts, or the length of `src`.
pub open spec fn ook_scan(src: Seq<char>, i: int) -> int
    decreases src.len() - i,
{
    if i >= src.len() {
        src.len() as int
    } else if ook_at(src, i) is Some {
        i
    } else {
        ook_scan(src, i + 1)
    }
}

/// The operation that a pair of words stands for; `None` for `Ook? Ook?`.
pub open spec fn pair_type(a: OokTokenType, b: OokTokenType) -> Option<TokenType> {
    match (a, b) {
        (OokTokenType::Dot, OokTokenType::Question) => Some(TokenType::PInc),
        (OokTokenType::Question, OokTokenType::Dot) => Some(TokenType::PDec),
        (OokTokenType::Dot, OokTokenType::Dot) => Some(TokenType::DInc),
        (OokTokenType::Exclamation, OokTokenType::Exclamation) => Some(TokenType::DDec),
        (OokTokenType::Exclamation, OokTokenType::Dot) => Some(TokenType::Output),
        (OokTokenType::Dot, OokTokenType::Exclamation) => Some(TokenType::Input),
        (OokTokenType::Exclamation, OokTokenType::Question) => Some(TokenType::LoopHead),
        (OokTokenType::Question, OokTokenType::Exclamation) => Some(TokenType::LoopTail),
        (OokTokenType::Question, OokTokenType::Question) => None,
    }
}

/// What a stream over `src` hands out from index `i` on: a token for each pair of
/// words, running from the first word through the second; an error for an unpaired
/// last word or for `Ook? Ook?`; the end of the source after the last pair.
pub open spec fn ook_tokens(src: Seq<char>, i: int) -> Seq<TokenResult>
    decreases src.len() - i,
{
    let a = ook_scan(src, i);
    if a >= src.len() || i < 0 || a < i {
        seq![Ok(TokenInfoView { token: None, pos: src.len() as int })]
    } else {
        let b = ook_scan(src, a + 4);
        if b >= src.len() {
            seq![
                Err(ParseErrorView::Misc(src.len() as int, "Odd number of Ook tokens"@)),
            ]
        } else {
            match pair_type(ook_at(src, a)->0, ook_at(src, b)->0) {
                None => seq![Err(ParseErrorView::Misc(a, "Ook? Ook?: bad Ook sequence"@))],
                Some(t) => {
                    let tok = Ok(
                        TokenInfoView { token: Some((t, src.subrange(a, b + 4))), pos: a },
                    );
                    if a + 4 <= b && b + 4 <= src.len() {
                        seq![tok] + ook_tokens(src, b + 4)
                    } else {
                        seq![tok]
                    }
                },
            }
        }
    }
}

proof fn lemma_ook_scan_range(src: Seq<char>, i: int)
    requires
        0 <= i <= src.len(),
    ensures
        i <= ook_scan(src, i) <= src.len(),
        ook_scan(src, i) < src.len() ==> ook_at(src, ook_scan(src, i)) is Some,
    decreases src.len() - i,
{
    if i < src.len() && ook_at(src, i) is None {
        lemma_ook_scan_range(src, i + 1);
    }
}

proof fn lemma_ook_tokens_shape(src: Seq<char>, i: int)
    requires
        0 <= i <= src.len(),
    ensures
        forall|k: int|
            0 <= k < ook_tokens(src, i).len() - 1 ==> !is_terminal(#[trigger] ook_tokens(src, i)[k]),
        is_terminal(ook_tokens(src, i).last()),
        0 < ook_tokens(src, i).len() <= src.len() - i + 1,
    decreases src.len() - i,
{
    lemma_ook_scan_range(src, i);
    let a = ook_scan(src, i);
    if a < src.len() {
        lemma_ook_scan_range(src, a + 4);
        let b = ook_scan(src, a + 4);
        if b < src.len() {
            if pair_type(ook_at(src, a)->0, ook_at(src, b)->0) is Some {
                lemma_ook_tokens_shape(src, b + 4);
                let rest = ook_tokens(src, b + 4);
                let all = ook_tokens(src, i);
                assert(all == seq![all[0]] + rest);
                assert forall|k: int| 0 <= k < all.len() - 1 implies !is_terminal(
                    #[trigger] all[k],
                ) by {
                    if k > 0 {
                        assert(all[k] == rest[k - 1]);
                        assert(!is_terminal(rest[k - 1]));
                    }
                }
                assert(all.last() == rest.last());
            }
        }
    }
}

/// A position in the source: a word that was found, or the end of the source.
struct OokTokenInfo {
    token_type: Option<OokTokenType>,
    pos_in_chars: usize,
}

/// A parser for Ook!.
pub fn parser() -> (r: Parser<OokTokenizer>)
    ensures
        r.tokenizer() == OokTokenizer,
{
    Parser::new(OokTokenizer)
}

/// A tokenizer for Ook!.
pub struct OokTokenizer;

/// A stream of the tokens of an Ook! source.
pub struct OokTokenStream {
    source: String,
    chars: Vec<char>,
    pos: usize,
}

const COMMON_TOKEN_PART_LEN: usize = 3;

impl OokTokenStream {
    #[verifier::type_invariant]
    spec fn stream_ok(&self) -> bool {
        &&& self.chars@ == self.source@
        &&& self.pos <= self.chars.len()
        &&& self.chars.len() < isize::MAX
    }

    fn new(source: &str) -> (r: Self)
        requires
            source@.len() < isize::MAX,
        ensures
            r.chars@ == source@,
            r.pos == 0,
    {
        OokTokenStream { source: source.to_owned(), chars: chars_of(source), pos: 0 }
    }

    /// The word that starts at `i`, if any.
    fn ook_word_at(&self, i: usize) -> (r: Option<OokTokenType>)
        ensures
            r == ook_at(self.chars@, i as int),
    {
        if i < self.chars.len() && self.chars.len() - i > COMMON_TOKEN_PART_LEN && self.chars[i]
            == 'O' && self.chars[i + 1] == 'o' && self.chars[i + 2] == 'k' {
            let c = self.chars[i + COMMON_TOKEN_PART_LEN];
            if c == '.' {
                Some(OokTokenType::Dot)
            } else if c == '?' {
                Some(OokTokenType::Question)
            } else if c == '!' {
                Some(OokTokenType::Exclamation)
            } else {
                None
            }
        } else {
            None
        }
    }

    /// Finds the next word, moving past it; at the end of the source, moves there.
    fn next_ook_token(&mut self) -> (r: OokTokenInfo)
        ensures
            final(self).chars == old(self).chars,
            final(self).source == old(self).source,
            r.pos_in_chars == ook_scan(old(self).chars@, old(self).pos as int),
            r.token_type == ook_at(old(self).chars@, r.pos_in_chars as int),
            r.token_type is Some ==> final(self).pos == r.pos_in_chars + 4,
            r.token_type is None ==> final(self).pos == old(self).chars.len() && r.pos_in_chars
                == old(self).chars.len(),
    {
        proof {
            use_type_invariant(&*self);
            lemma_ook_scan_range(self.chars@, self.pos as int);
        }
        let ghost src = self.chars@;
        let ghost start = self.pos as int;
        let mut i = self.pos;
        while i < self.chars.len()
            invariant
                start <= i <= src.len(),
                src == self.chars@,
                start == self.pos,
                start == old(self).pos,
                self.chars == old(self).chars,
                self.source == old(self).source,
                self.chars@ == self.source@,
                self.chars.len() < isize::MAX,
                ook_scan(src, start) == ook_scan(src, i as int),
            decreases src.len() - i,
        {
            if let Some(token_type) = self.ook_word_at(i) {
                self.pos = i + COMMON_TOKEN_PART_LEN + 1;
                return OokTokenInfo { token_type: Some(token_type), pos_in_chars: i };
            }
            i += 1;
        }
        self.pos = self.chars.len();
        OokTokenInfo { token_type: None, pos_in_chars: self.chars.len() }
    }
}

impl TokenStream for OokTokenStream {
    closed spec fn pending(&self) -> Seq<TokenResult> {
        ook_tokens(self.chars@, self.pos as int)
    }

    fn next(&mut self) -> (r: Result<TokenInfo, ParseError>) {
        proof {
            use_type_invariant(&*self);
            lemma_ook_scan_range(self.chars@, self.pos as int);
        }
        let ghost src = self.chars@;
        let ghost start = self.pos as int;
        let first = self.next_ook_token();
        let first_token_type = match first.token_type {
            Some(t) => t,
            None => {
                return Ok(TokenInfo { token: None, pos_in_chars: first.pos_in_chars });
            },
        };
        let first_pos = first.pos_in_chars;
        proof {
            lemma_ook_scan_range(src, first_pos + 4);
        }
        let second = self.next_ook_token();
        let second_token_type = match second.token_type {
            Some(t) => t,
            None => {
                proof {
                    reveal_strlit("Odd number of Ook tokens");
                }
                return Err(
                    ParseError::MiscError {
                        pos_in_chars: second.pos_in_chars,
                        message: String::from_str("Odd number of Ook tokens"),
                    },
                );
            },
        };
        let second_pos = second.pos_in_chars;
        let token_type = match (first_token_type, second_token_type) {
            (OokTokenType::Dot, OokTokenType::Question) => TokenType::PInc,
            (OokTokenType::Question, OokTokenType::Dot) => TokenType::PDec,
            (OokTokenType::Dot, OokTokenType::Dot) => TokenType::DInc,
            (OokTokenType::Exclamation, OokTokenType::Exclamation) => TokenType::DDec,
            (OokTokenType::Exclamation, OokTokenType::Dot) => TokenType::Output,
            (OokTokenType::Dot, OokTokenType::Exclamation) => TokenType::Input,
            (OokTokenType::Exclamation, OokTokenType::Question) => TokenType::LoopHead,
            (OokTokenType::Question, OokTokenType::Exclamation) => TokenType::LoopTail,
            (OokTokenType::Question, OokTokenType::Question) => {
                return Err(
                    ParseError::MiscError {
                        pos_in_chars: first_pos,
                        message: String::from_str("Ook? Ook?: bad Ook sequence"),
                    },
                );
            },
        };
        let token_str = self.source.as_str().substring_char(
            first_pos,
            second_pos + COMMON_TOKEN_PART_LEN + 1,
        ).to_owned();
        Ok(
            TokenInfo {
                token: Some(Token { token_type, token_str }),
                pos_in_chars: first_pos,
            },
        )
    }
}

impl Tokenizer for OokTokenizer {
    type Stream = OokTokenStream;

    open spec fn describes_tokens(&self) -> bool {
        true
    }

    open spec fn tokens_of(&self, source: Seq<char>) -> Seq<TokenResult> {
        ook_tokens(source, 0)
    }

    fn token_stream(&self, source: &str) -> (s: OokTokenStream) {
        proof {
            lemma_ook_tokens_shape(source@, 0);
        }
        OokTokenStream::new(source)
    }
}

} // verus!
