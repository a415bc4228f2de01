use libbf::error::ParseError;
use libbf::predefined::{brainfxck, ook};
use libbf::runtime;
use libbf::token::{Token, TokenInfo, TokenStream, TokenType, Tokenizer};

#[test]
fn brainfxck_test_hello_world() {
    let source = "++++++++[>++++[>++>+++>+++>+<<<<-]>+>+>->>+[<]<-]>>.>---.+++++++..+++.>>.<-.<.+++.------.--------.>>+.>++.";
    let program = match brainfxck::parser().parse_str(source) {
        Ok(program) => program,
        Err(err) => panic!("unexpected error: {err:?}"),
    };
    assert_eq!(source.len(), 106);

    let input: &[u8] = &[];
    let mut output = vec![];
    if let Err(err) = runtime::run(&program, input, &mut output) {
        panic!("unexpected error: {err:?}");
    }
    assert_eq!(output, b"Hello World!\n");
}

#[test]
fn test_token_stream() {
    // byte 10 (char 4): PInc
    // byte 43 (char 25): EOF
    let mut stream = ook::OokTokenizer.token_stream("ＡＢＣ Ook. ＤＥＦ Ook? Oo..ＸＹＺ");
    assert_eq!(
        stream.next().unwrap(),
        TokenInfo {
            token: Some(Token {
                token_type: TokenType::PInc,
                token_str: "Ook. ＤＥＦ Ook?".to_string(),
            }),
            pos_in_chars: 4,
        },
    );
    assert_eq!(
        stream.next().unwrap(),
        TokenInfo {
            token: None,
            pos_in_chars: 25,
        },
    );
}

#[test]
fn ook_test_hello_world() {
    // source code from https://esolangs.org/wiki/Ook!
    let source = r##"
            Ook. Ook? Ook. Ook. Ook. Ook. Ook. Ook. Ook. Ook. Ook. Ook. Ook. Ook. Ook. Ook.
            Ook. Ook. Ook. Ook. Ook! Ook? Ook? Ook. Ook. Ook. Ook. Ook. Ook. Ook. Ook. Ook.
            Ook. Ook. Ook. Ook. Ook. Ook. Ook. Ook. Ook. Ook? Ook! Ook! Ook? Ook! Ook? Ook.
            Ook! Ook. Ook. Ook? Ook. Ook. Ook. Ook. Ook. Ook. Ook. Ook. Ook. Ook. Ook. Ook.
            Ook. Ook. Ook! Ook? Ook? Ook. Ook. Ook. Ook. Ook. Ook. Ook. Ook. Ook. Ook. Ook?
            Ook! Ook! Ook? Ook! Ook? Ook. Ook. Ook. Ook! Ook. Ook. Ook. Ook. Ook. Ook. Ook.
            Ook. Ook. Ook. Ook. Ook. Ook. Ook. Ook. Ook! Ook. Ook! Ook. Ook. Ook. Ook. Ook.
            Ook. Ook. Ook! Ook. Ook. Ook? Ook. Ook? Ook. Ook? Ook. Ook. Ook. Ook. Ook. Ook.
            Ook. Ook. Ook. Ook. Ook. Ook. Ook. Ook. Ook. Ook. Ook! Ook? Ook? Ook. Ook. Ook.
            Ook. Ook. Ook. Ook. Ook. Ook. Ook. Ook? Ook! Ook! Ook? Ook! Ook? Ook. Ook! Ook.
            Ook. Ook? Ook. Ook? Ook. Ook? Ook. Ook. Ook. Ook. Ook. Ook. Ook. Ook. Ook. Ook.
            Ook. Ook. Ook. Ook. Ook. Ook. Ook. Ook. Ook. Ook. Ook! Ook? Ook? Ook. Ook. Ook.
            Ook. Ook. Ook. Ook. Ook. Ook. Ook. Ook. Ook. Ook. Ook. Ook. Ook. Ook. Ook. Ook.
            Ook. Ook? Ook! Ook! Ook? Ook! Ook? Ook. Ook! Ook! Ook! Ook! Ook! Ook! Ook! Ook.
            Ook? Ook. Ook? Ook. Ook? Ook. Ook? Ook. Ook! Ook. Ook. Ook. Ook. Ook. Ook. Ook.
            Ook! Ook. Ook! Ook! Ook! Ook! Ook! Ook! Ook! Ook! Ook! Ook! Ook! Ook! Ook! Ook.
            Ook! Ook! Ook! Ook! Ook! Ook! Ook! Ook! Ook! Ook! Ook! Ook! Ook! Ook! Ook! Ook!
            Ook! Ook. Ook. Ook? Ook. Ook? Ook. Ook. Ook! Ook.
        "##;
    let program = match ook::parser().parse_str(source) {
        Ok(program) => program,
        Err(err) => panic!("unexpected error: {err:?}"),
    };

    let input: &[u8] = &[];
    let mut output = vec![];
    if let Err(err) = runtime::run(&program, input, &mut output) {
        panic!("unexpected error: {err:?}");
    }
    assert_eq!(output, b"Hello World!");
}

#[test]
fn test_odd_ooks() {
    let source = "Ook. Ook? Ook!";
    if let Err(err) = ook::parser().parse_str(source) {
        if let ParseError::MiscError {
            pos_in_chars: pos,
            message: msg,
        } = err
        {
            assert_eq!(pos, source.len());
            assert_eq!(msg, "Odd number of Ook tokens");
        } else {
            panic!("unexpected error: {err:?}");
        }
    } else {
        panic!("unexpectedly succeeded");
    }
}

#[test]
fn test_bad_ook_sequence() {
    let source = "Ook. Ook? Ook? Ook?";
    if let Err(err) = ook::parser().parse_str(source) {
        if let ParseError::MiscError {
            pos_in_chars: pos,
            message: msg,
        } = err
        {
            assert_eq!(pos, 10);
            assert_eq!(msg, "Ook? Ook?: bad Ook sequence");
        } else {
            panic!("unexpected error: {err:?}");
        }
    } else {
        panic!("unexpectedly succeeded");
    }
}
