use tensor_compress::error::NuclearError;
use tensor_compress::text::{chars_of, is_real_number, split_whitespace, white_space};

#[test]
fn real_number_literals() {
    for s in ["1", "1.", ".5", "-2.5e-3", "+7E+2", " 4.0 ", "inf", "-Infinity", "NaN", "0.0253"] {
        assert!(is_real_number(s), "{s}");
        assert!(s.trim().parse::<f64>().is_ok(), "{s}");
    }
    for s in ["", " ", "abc", "1e", "e5", ".", "1.2.3", "--1", "0x10", "infinit", "1 2"] {
        assert!(!is_real_number(s), "{s}");
        assert!(s.trim().parse::<f64>().is_err(), "{s}");
    }
}

#[test]
fn whitespace_tokens() {
    assert_eq!(split_whitespace("  Cs137\tSr90\n I135 "), vec!["Cs137", "Sr90", "I135"]);
    assert!(split_whitespace(" \u{3000} ").is_empty());
    assert!(white_space('\u{a0}'));
    assert!(!white_space('x'));
    assert_eq!(chars_of("aé"), vec!['a', 'é']);
}

#[test]
fn nuclear_error_messages() {
    let e = NuclearError::Hdf5 { path: "U235.h5".into(), detail: "no temperatures".into() };
    assert_eq!(e.message(), "HDF5 error reading U235.h5: no temperatures");
    let e = NuclearError::DimensionMismatch { expected: "3x3".into(), got: "2x3".into() };
    assert_eq!(e.message(), "dimension mismatch: expected 3x3, got 2x3");
    let io = std::io::Error::new(std::io::ErrorKind::NotFound, "gone");
    let e = NuclearError::from(io);
    assert!(e.message().starts_with("I/O error: "));
    assert!(e.message().ends_with("gone"));
    assert!(e.source_io().is_some());
    assert!(NuclearError::Hdf5 { path: String::new(), detail: String::new() }.source_io().is_none());
}
