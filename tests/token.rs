use libbf::error::ParseError;
use libbf::parser::Parser;
use libbf::program::Instruction;
use libbf::token::regex::{RegexErrors, RegexTokenizer};
use libbf::token::simple::{SimpleMultiTokenSpec, SimpleTokenDef, SimpleTokenSpec};
use libbf::token::{Token, TokenInfo, TokenStream, TokenType, Tokenizer};

fn assert_simple_def_eq(actual: &[SimpleTokenDef], expected: &[SimpleTokenDef]) {
    assert_eq!(actual.len(), expected.len(), "length");
    for (index, (a, e)) in actual.iter().zip(expected.iter()).enumerate() {
        assert_eq!(a.token, e.token, "[{index}].token");
        assert_eq!(a.token_type, e.token_type, "[{index}].token_type");
        assert_eq!(a.char_count, e.char_count, "[{index}].char_count");
    }
}

fn def(token: &str, token_type: TokenType, char_count: usize) -> SimpleTokenDef {
    SimpleTokenDef {
        token: token.to_string(),
        token_type,
        char_count,
    }
}

#[test]
fn test_simple_def_to_tokenizer() {
    let spec = SimpleTokenSpec {
        ptr_inc: "♡♡".to_string(),
        ptr_dec: "aaaaa".to_string(),
        data_inc: '♠'.to_string(),
        data_dec: "♢♢♢".to_string(),
        output: "♣♣♣♣".to_string(),
        input: "dddddddd".to_string(),
        loop_head: "ccccccc".to_string(),
        loop_tail: "bbbbbb".to_string(),
    };
    let tokenizer = spec.to_tokenizer();
    let expected = [
        def("dddddddd", TokenType::Input, 8),
        def("ccccccc", TokenType::LoopHead, 7),
        def("bbbbbb", TokenType::LoopTail, 6),
        def("aaaaa", TokenType::PDec, 5),
        def("♣♣♣♣", TokenType::Output, 4),
        def("♢♢♢", TokenType::DDec, 3),
        def("♡♡", TokenType::PInc, 2),
        def("♠", TokenType::DInc, 1),
    ];
    assert_simple_def_eq(tokenizer.token_table(), &expected);
}

#[test]
fn test_multiple_simple_def_to_tokenizer() {
    let strings = |v: &[&str]| v.iter().map(|s| s.to_string()).collect::<Vec<_>>();
    let spec = SimpleMultiTokenSpec {
        ptr_inc: strings(&["♡♡"]),
        ptr_dec: strings(&["aaaaa"]),
        data_inc: vec!['♠'.to_string()],
        data_dec: strings(&["♢♢♢", "??????????"]),
        output: strings(&["♣♣♣♣"]),
        input: vec!["dddddddd".to_string()],
        loop_head: strings(&["ccccccc"]),
        loop_tail: strings(&["bbbbbb"]),
    };
    let tokenizer = spec.to_tokenizer();
    let expected = [
        def("??????????", TokenType::DDec, 10),
        def("dddddddd", TokenType::Input, 8),
        def("ccccccc", TokenType::LoopHead, 7),
        def("bbbbbb", TokenType::LoopTail, 6),
        def("aaaaa", TokenType::PDec, 5),
        def("♣♣♣♣", TokenType::Output, 4),
        def("♢♢♢", TokenType::DDec, 3),
        def("♡♡", TokenType::PInc, 2),
        def("♠", TokenType::DInc, 1),
    ];
    assert_simple_def_eq(tokenizer.token_table(), &expected);
}

fn classic_spec() -> SimpleTokenSpec {
    SimpleTokenSpec {
        ptr_inc: ">".to_string(),
        ptr_dec: "<".to_string(),
        data_inc: "+".to_string(),
        data_dec: "-".to_string(),
        output: ".".to_string(),
        input: ",".to_string(),
        loop_head: "[".to_string(),
        loop_tail: "]".to_string(),
    }
}

#[test]
fn simple_stream_skips_other_characters() {
    let tokenizer = classic_spec().to_tokenizer();
    let mut stream = tokenizer.token_stream("a+é-");
    assert_eq!(
        stream.next().unwrap(),
        TokenInfo {
            token: Some(Token {
                token_type: TokenType::DInc,
                token_str: "+".to_string(),
            }),
            pos_in_chars: 1,
        }
    );
    assert_eq!(
        stream.next().unwrap(),
        TokenInfo {
            token: Some(Token {
                token_type: TokenType::DDec,
                token_str: "-".to_string(),
            }),
            pos_in_chars: 3,
        }
    );
    assert_eq!(
        stream.next().unwrap(),
        TokenInfo {
            token: None,
            pos_in_chars: 4,
        }
    );
}

#[test]
fn longest_symbol_wins() {
    let mut spec = classic_spec();
    spec.output = "++".to_string();
    let tokenizer = spec.to_tokenizer();
    let mut stream = tokenizer.token_stream("++++,");
    for pos in [0, 2] {
        assert_eq!(
            stream.next().unwrap(),
            TokenInfo {
                token: Some(Token {
                    token_type: TokenType::Output,
                    token_str: "++".to_string(),
                }),
                pos_in_chars: pos,
            }
        );
    }
    assert_eq!(stream.next().unwrap().token_type(), Some(TokenType::Input));
    assert_eq!(stream.next().unwrap().token_type(), None);
}

#[test]
fn classic_source_parses_to_loop() {
    let parser = Parser::new(classic_spec().to_tokenizer());
    let program = parser.parse_str(",[.,]").unwrap();
    assert_eq!(
        program.instructions(),
        [
            Instruction::Input,
            Instruction::UntilZero(vec![Instruction::Output, Instruction::Input])
        ]
    );
}

#[test]
fn stray_loop_tail_and_open_loop() {
    let parser = Parser::new(classic_spec().to_tokenizer());
    assert!(matches!(
        parser.parse_str("+ ]"),
        Err(ParseError::UnexpectedEndOfLoop { pos_in_chars: 2 })
    ));
    assert!(matches!(
        parser.parse_str("[[]"),
        Err(ParseError::UnexpectedEndOfFile { pos_in_chars: 3 })
    ));
}

#[test]
fn test_tokenizer_from_str_spec() {
    let bad_tokenizer_result = RegexTokenizer::from_str_spec(&[
        (TokenType::PInc, r#">"#),
        (TokenType::PDec, r#"<"#),
        (TokenType::DInc, r#"+"#), // bad
        (TokenType::DDec, r#"-"#),
        (TokenType::Output, r#","#),
        (TokenType::Input, r#"\."#),
        (TokenType::LoopHead, r#"["#), // bad
        (TokenType::LoopTail, r#"]"#),
    ]);

    if let Err(RegexErrors(es)) = bad_tokenizer_result {
        assert_eq!(es.len(), 2);
        assert_eq!(es[0].index, 2);
        assert_eq!(es[1].index, 6);
    } else {
        panic!("unexpected result");
    }

    let ok_tokenizer_result = RegexTokenizer::from_str_spec(&[
        (TokenType::PInc, r#">"#),
        (TokenType::PDec, r#"<"#),
        (TokenType::DInc, r#"\+"#),
        (TokenType::DDec, r#"-"#),
        (TokenType::Output, r#","#),
        (TokenType::Input, r#"\."#),
        (TokenType::LoopHead, r#"\["#),
        (TokenType::LoopTail, r#"]"#),
    ]);
    assert!(ok_tokenizer_result.is_ok());
}

#[test]
fn test_stream() {
    let tokenizer = RegexTokenizer::from_str_spec(&[
        (TokenType::PInc, r"[>＞]]"),
        (TokenType::PDec, r"[<＜]"),
        (TokenType::DInc, r"[+＋]"),
        (TokenType::DDec, r"[-−]"),
        (TokenType::Input, r"[,，]"),
        (TokenType::Output, r"[.．]"),
        (TokenType::LoopHead, r"[\[［]"),
        (TokenType::LoopTail, r"[]］]"),
    ])
    .expect("all regexes should be compiled successfully");
    // byte 0 (char 0): DInc
    // byte 10 (char 4): DDec
    // byte 22 (char 8): EOF
    let mut stream = tokenizer.token_stream("+ａｂｃ−ｄｅｆ");
    assert_eq!(
        stream.next().unwrap(),
        TokenInfo {
            token: Some(Token {
                token_type: TokenType::DInc,
                token_str: "+".to_string(),
            }),
            pos_in_chars: 0,
        },
    );
    assert_eq!(
        stream.next().unwrap(),
        TokenInfo {
            token: Some(Token {
                token_type: TokenType::DDec,
                token_str: "−".to_string(),
            }),
            pos_in_chars: 4,
        },
    );
    assert_eq!(
        stream.next().unwrap(),
        TokenInfo {
            token: None,
            pos_in_chars: 8,
        },
    );
}

#[test]
fn regex_ties_go_to_the_first_pattern() {
    let tokenizer = RegexTokenizer::from_str_spec(&[
        (TokenType::Output, r"ab"),
        (TokenType::Input, r"a"),
        (TokenType::DInc, r"x"),
    ])
    .unwrap();
    let mut stream = tokenizer.token_stream("zzabx");
    let first = stream.next().unwrap();
    assert_eq!(first.token_type(), Some(TokenType::Output));
    assert_eq!(first.token_str(), Some("ab"));
    assert_eq!(first.pos_in_chars, 2);
    assert_eq!(stream.next().unwrap().token_type(), Some(TokenType::DInc));
    assert_eq!(
        stream.next().unwrap(),
        TokenInfo {
            token: None,
            pos_in_chars: 5,
        }
    );
}

#[test]
fn regex_empty_match_is_an_error() {
    let tokenizer = RegexTokenizer::from_str_spec(&[(TokenType::Output, r"x*")]).unwrap();
    let mut stream = tokenizer.token_stream("ab");
    assert!(matches!(
        stream.next(),
        Err(ParseError::MiscError { pos_in_chars: 0, .. })
    ));
}

#[test]
fn regex_tokenizer_parses() {
    let tokenizer = RegexTokenizer::from_str_spec(&[
        (TokenType::PInc, r">"),
        (TokenType::PDec, r"<"),
        (TokenType::DInc, r"\+"),
        (TokenType::DDec, r"-"),
        (TokenType::Output, r"\."),
        (TokenType::Input, r","),
        (TokenType::LoopHead, r"\["),
        (TokenType::LoopTail, r"\]"),
    ])
    .unwrap();
    let parser = Parser::new(tokenizer);
    let program = parser.parse_str("++ x >[-]").unwrap();
    assert_eq!(
        program.instructions(),
        [
            Instruction::DAdd(2),
            Instruction::PAdd(1),
            Instruction::UntilZero(vec![Instruction::DAdd(-1)])
        ]
    );
}

#[test]
fn regex_tokenizer_from_compiled() {
    let re = regex::Regex::new(r"o+").unwrap();
    let tokenizer = RegexTokenizer::new(&[(TokenType::Output, re)]);
    let mut stream = tokenizer.token_stream("xoox");
    let t = stream.next().unwrap();
    assert_eq!(t.token_str(), Some("oo"));
    assert_eq!(t.pos_in_chars, 1);
}

#[test]
fn regex_tokenizer_keeps_builder_options() {
    let re = regex::RegexBuilder::new(r"ook")
        .case_insensitive(true)
        .build()
        .unwrap();
    let tokenizer = RegexTokenizer::new(&[(TokenType::Input, re)]);
    let mut stream = tokenizer.token_stream("xOoK");
    let t = stream.next().unwrap();
    assert_eq!(t.token_type(), Some(TokenType::Input));
    assert_eq!(t.token_str(), Some("OoK"));
    assert_eq!(t.pos_in_chars, 1);
}
