//! Error definitions.
use vstd::prelude::*;

verus! {

/// Relies on std::io::Error only as an opaque value handed through.
#[verifier::external_type_specification]
#[verifier::external_body]
pub struct ExIoError(std::io::Error);

/// A parse error. Each variant carries the position, counted in Unicode scalar values,
/// where the error was detected.
#[derive(Debug)]
pub enum ParseError {
    /// The source ended inside a loop.
    UnexpectedEndOfFile { pos_in_chars: usize },
    /// A loop tail appeared outside any loop.
    UnexpectedEndOfLoop { pos_in_chars: usize },
    /// A tokenizer-specific syntax error.
    MiscError { pos_in_chars: usize, message: String },
}

/// The mathematical value of a [`ParseError`].
pub ghost enum ParseErrorView {
    EndOfFile(int),
    EndOfLoop(int),
    Misc(int, Seq<char>),
}

impl View for ParseError {
    type V = ParseErrorView;

    open spec fn view(&self) -> ParseErrorView {
        match self {
            ParseError::UnexpectedEndOfFile { pos_in_chars } => ParseErrorView::EndOfFile(
                *pos_in_chars as int,
            ),
            ParseError::UnexpectedEndOfLoop { pos_in_chars } => ParseErrorView::EndOfLoop(
                *pos_in_chars as int,
            ),
            ParseError::MiscError { pos_in_chars, message } => ParseErrorView::Misc(
                *pos_in_chars as int,
                message@,
            ),
        }
    }
}

/// A parse error or an I/O error met while reading the source.
#[derive(Debug)]
pub enum ParseOrIoError {
    ParseError(ParseError),
    IoError(std::io::Error),
}

impl From<ParseError> for ParseOrIoError {
    fn from(e: ParseError) -> (r: ParseOrIoError)
        ensures
            r == ParseOrIoError::ParseError(e),
    {
        ParseOrIoError::ParseError(e)
    }
}

impl vstd::std_specs::convert::FromSpecImpl<ParseError> for ParseOrIoError {
    open spec fn obeys_from_spec() -> bool {
        true
    }

    open spec fn from_spec(e: ParseError) -> ParseOrIoError {
        ParseOrIoError::ParseError(e)
    }
}

/// A runtime error of a program.
#[derive(Debug)]
pub enum RuntimeError {
    /// A data, input, output or loop instruction accessed a cell outside the memory.
    ///
    /// Moving the pointer out of range is no access; only the next access fails.
    OutOfMemoryBounds { address: isize },
    /// Reading or writing a byte failed for a reason other than the end of the input.
    IoError(std::io::Error),
    /// An input instruction found no more bytes.
    Eof,
    /// A run to completion used up the number of instructions it was allowed to execute.
    StepLimitReached,
}

/// Decimal digits of a non-negative number, most significant first.
pub open spec fn decimal_digits(n: nat) -> Seq<char>
    decreases n,
{
    if n < 10 {
        seq![digit_char(n)]
    } else {
        decimal_digits(n / 10).push(digit_char(n % 10))
    }
}

pub open spec fn digit_char(d: nat) -> char {
    if d < 10 {
        ((d + '0' as nat) as u8) as char
    } else {
        '?'
    }
}

/// Decimal text of an integer, with a leading `-` when it is negative.
pub open spec fn decimal_text(n: int) -> Seq<char> {
    if n < 0 {
        seq!['-'] + decimal_digits((-n) as nat)
    } else {
        decimal_digits(n as nat)
    }
}

/// Relies on `isize`'s `Display`: the decimal digits, with a leading `-` when negative.
#[verifier::external_body]
fn isize_to_decimal(n: isize) -> (r: String)
    ensures
        r@ == decimal_text(n as int),
{
    n.to_string()
}

/// Relies on `std::io::Error`'s `Display`: a description of the error.
#[verifier::external_body]
fn io_error_text(e: &std::io::Error) -> (r: String) {
    e.to_string()
}

impl RuntimeError {
    /// The message of this error.
    pub fn to_string(&self) -> (r: String)
        ensures
            self is OutOfMemoryBounds ==> r@ == "out of memory bounds ["@ + decimal_text(
                self->address as int,
            ) + "]"@,
            self is IoError ==> r@.len() >= 10 && r@.subrange(0, 10) == "IO error: "@,
            self is Eof ==> r@ == "detected EOF"@,
            self is StepLimitReached ==> r@ == "step limit reached"@,
    {
        match self {
            RuntimeError::OutOfMemoryBounds { address } => {
                let mut s = String::from_str("out of memory bounds [");
                let digits = isize_to_decimal(*address);
                s.append(digits.as_str());
                s.append("]");
                s
            },
            RuntimeError::IoError(e) => {
                let mut s = String::from_str("IO error: ");
                let text = io_error_text(e);
                proof {
                    reveal_strlit("IO error: ");
                }
                s.append(text.as_str());
                assert(s@.subrange(0, 10) =~= "IO error: "@);
                s
            },
            RuntimeError::Eof => String::from_str("detected EOF"),
            RuntimeError::StepLimitReached => String::from_str("step limit reached"),
        }
    }
}

} // verus!
