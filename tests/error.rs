use libbf::error::RuntimeError;

#[test]
fn runtime_error_string() {
    assert_eq!(
        "out of memory bounds [123]",
        RuntimeError::OutOfMemoryBounds { address: 123 }.to_string()
    );
}

#[test]
fn runtime_error_string_negative_address() {
    assert_eq!(
        "out of memory bounds [-45]",
        RuntimeError::OutOfMemoryBounds { address: -45 }.to_string()
    );
    assert_eq!("detected EOF", RuntimeError::Eof.to_string());
}

#[test]
fn runtime_error_string_io() {
    let e = RuntimeError::IoError(std::io::Error::new(std::io::ErrorKind::Other, "boom"));
    assert_eq!("IO error: boom", e.to_string());
}

#[test]
fn parse_error_converts_to_parse_or_io_error() {
    let e = libbf::error::ParseOrIoError::from(libbf::error::ParseError::UnexpectedEndOfLoop {
        pos_in_chars: 3,
    });
    assert!(matches!(
        e,
        libbf::error::ParseOrIoError::ParseError(libbf::error::ParseError::UnexpectedEndOfLoop {
            pos_in_chars: 3
        })
    ));
}
