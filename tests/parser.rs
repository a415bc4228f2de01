use libbf::error::ParseError;
use libbf::parser::Parser;
use libbf::program::{FatInstruction, FatInstructionKind, Instruction};
use libbf::token::{Token, TokenInfo, TokenStream, TokenType, Tokenizer};

#[derive(Clone)]
struct TestTokenizer {
    tokens: Vec<TokenInfo>,
    last_pos_in_chars: usize,
}

impl Tokenizer for TestTokenizer {
    type Stream = TestStream;

    fn token_stream(&self, _source: &str) -> TestStream {
        TestStream {
            tokens: self.tokens.clone(),
            next: 0,
            last_pos_in_chars: self.last_pos_in_chars,
        }
    }
}

struct TestStream {
    tokens: Vec<TokenInfo>,
    next: usize,
    last_pos_in_chars: usize,
}

impl TokenStream for TestStream {
    fn next(&mut self) -> Result<TokenInfo, ParseError> {
        if self.next < self.tokens.len() {
            self.next += 1;
            Ok(self.tokens[self.next - 1].clone())
        } else {
            Ok(TokenInfo {
                token: None,
                pos_in_chars: self.last_pos_in_chars,
            })
        }
    }
}

fn some_token(token_type: TokenType, token_str: &str) -> Option<Token> {
    Some(Token {
        token_type,
        token_str: token_str.to_string(),
    })
}

fn info(token_type: TokenType, token_str: &str, pos_in_chars: usize) -> TokenInfo {
    TokenInfo {
        token: some_token(token_type, token_str),
        pos_in_chars,
    }
}

fn test_tokenizer() -> TestTokenizer {
    TestTokenizer {
        tokens: vec![
            // PAdd(-1)
            info(TokenType::PInc, ">", 0),
            info(TokenType::PDec, "<", 1),
            info(TokenType::PDec, "<", 2),
            // DAdd(1)
            info(TokenType::DInc, "+", 3),
            info(TokenType::DDec, "-", 5),
            info(TokenType::DInc, "+", 7),
            // head of UntilZero(...)
            info(TokenType::LoopHead, "[", 11),
            // ... Input
            info(TokenType::Input, ",", 13),
            // ... Output
            info(TokenType::Output, ".", 17),
            // ... Nop (PInc/PDec)
            info(TokenType::PDec, ">", 19),
            info(TokenType::PInc, "<", 23),
            // ... Nop (DInc/DDec)
            info(TokenType::DDec, "+", 29),
            info(TokenType::DInc, "-", 31),
            // tail of UntilZero
            info(TokenType::LoopTail, "]", 37),
        ],
        last_pos_in_chars: 41,
    }
}

fn test_tokenizer_unexpected_end_of_loop() -> TestTokenizer {
    TestTokenizer {
        tokens: vec![info(TokenType::LoopTail, "]", 1)],
        last_pos_in_chars: 2,
    }
}

fn test_tokenizer_unexpected_end_of_file() -> TestTokenizer {
    TestTokenizer {
        tokens: vec![info(TokenType::LoopHead, "[", 1)],
        last_pos_in_chars: 2,
    }
}

#[test]
fn test_parse_str() {
    let parser = Parser::new(test_tokenizer());

    // source is dummy.
    let parsed = parser.parse_str("").expect("must be ok");

    assert_eq!(
        parsed.instructions(),
        [
            Instruction::PAdd(-1),
            Instruction::DAdd(1),
            Instruction::UntilZero(vec![Instruction::Input, Instruction::Output,],),
        ],
    );
}

#[test]
fn test_parse_str_unexpected_end_of_loop() {
    let parser = Parser::new(test_tokenizer_unexpected_end_of_loop());

    // source is dummy
    let error = parser.parse_str("").expect_err("must be err");
    assert!(matches!(
        error,
        ParseError::UnexpectedEndOfLoop { pos_in_chars: 1 }
    ));
}

#[test]
fn test_parse_str_unexpected_end_of_file() {
    let parser = Parser::new(test_tokenizer_unexpected_end_of_file());

    // source is dummy
    let error = parser.parse_str("").expect_err("must be err");
    assert!(matches!(
        error,
        ParseError::UnexpectedEndOfFile { pos_in_chars: 2 }
    ));
}

#[test]
fn test_parse_str_fat() {
    let parser = Parser::new(test_tokenizer());

    // source is dummy.
    let parsed = parser.parse_str_fat("").expect("must be ok");

    assert_eq!(
        parsed.instructions(),
        [
            FatInstruction {
                kind: FatInstructionKind::PAdd(-1),
                tokens: vec![
                    info(TokenType::PInc, ">", 0),
                    info(TokenType::PDec, "<", 1),
                    info(TokenType::PDec, "<", 2),
                ],
            },
            FatInstruction {
                kind: FatInstructionKind::DAdd(1),
                tokens: vec![
                    info(TokenType::DInc, "+", 3),
                    info(TokenType::DDec, "-", 5),
                    info(TokenType::DInc, "+", 7),
                ],
            },
            FatInstruction {
                kind: FatInstructionKind::UntilZero(vec![
                    FatInstruction {
                        kind: FatInstructionKind::Input,
                        tokens: vec![info(TokenType::Input, ",", 13)],
                    },
                    FatInstruction {
                        kind: FatInstructionKind::Output,
                        tokens: vec![info(TokenType::Output, ".", 17)],
                    },
                    FatInstruction {
                        kind: FatInstructionKind::Nop,
                        tokens: vec![
                            info(TokenType::PDec, ">", 19),
                            info(TokenType::PInc, "<", 23),
                        ],
                    },
                    FatInstruction {
                        kind: FatInstructionKind::Nop,
                        tokens: vec![
                            info(TokenType::DDec, "+", 29),
                            info(TokenType::DInc, "-", 31),
                        ],
                    }
                ],),
                tokens: vec![
                    info(TokenType::LoopHead, "[", 11),
                    info(TokenType::Input, ",", 13),
                    info(TokenType::Output, ".", 17),
                    info(TokenType::PDec, ">", 19),
                    info(TokenType::PInc, "<", 23),
                    info(TokenType::DDec, "+", 29),
                    info(TokenType::DInc, "-", 31),
                    info(TokenType::LoopTail, "]", 37),
                ],
            },
        ],
    );
}

#[test]
fn test_parse_str_fat_unexpected_end_of_loop() {
    let parser = Parser::new(test_tokenizer_unexpected_end_of_loop());

    // source is dummy
    let error = parser.parse_str_fat("").expect_err("must be err");
    assert!(matches!(
        error,
        ParseError::UnexpectedEndOfLoop { pos_in_chars: 1 }
    ));
}

#[test]
fn test_parse_str_fat_unexpected_end_of_file() {
    let parser = Parser::new(test_tokenizer_unexpected_end_of_file());

    // source is dummy
    let error = parser.parse_str_fat("").expect_err("must be err");
    assert!(matches!(
        error,
        ParseError::UnexpectedEndOfFile { pos_in_chars: 2 }
    ));
}

#[test]
fn fat_then_plain_equals_plain_parse() {
    let parser = Parser::new(test_tokenizer());
    let fat = parser.parse_str_fat("").expect("must be ok");
    let plain = parser.parse_str("").expect("must be ok");
    assert_eq!(fat.as_program().instructions(), plain.instructions());
}

#[test]
fn run_of_opposite_tokens_folds_away() {
    let parser = Parser::new(TestTokenizer {
        tokens: vec![
            info(TokenType::DInc, "+", 0),
            info(TokenType::DDec, "-", 1),
            info(TokenType::DInc, "+", 2),
            info(TokenType::DDec, "-", 3),
            info(TokenType::Output, ".", 4),
            info(TokenType::PDec, "<", 5),
            info(TokenType::PDec, "<", 6),
            info(TokenType::PDec, "<", 7),
        ],
        last_pos_in_chars: 8,
    });
    let parsed = parser.parse_str("").expect("must be ok");
    assert_eq!(
        parsed.instructions(),
        [Instruction::Output, Instruction::PAdd(-3)]
    );
    let fat = parser.parse_str_fat("").expect("must be ok");
    assert_eq!(fat.instructions().len(), 3);
    assert_eq!(fat.instructions()[0].kind, FatInstructionKind::Nop);
    assert_eq!(fat.instructions()[0].tokens.len(), 4);
}
