use objmesh::text::{is_float_literal_exec, parse_decimal, split_on, split_words};

#[test]
fn words_split_on_whitespace() {
    assert_eq!(
        split_words(b"  v\t1  2\r\n"),
        vec![b"v".to_vec(), b"1".to_vec(), b"2".to_vec()]
    );
    assert!(split_words(b" \t ").is_empty());
    assert!(split_words(b"").is_empty());
}

#[test]
fn pieces_keep_empty_fields() {
    assert_eq!(split_on(b"1//3", b'/'), vec![b"1".to_vec(), Vec::new(), b"3".to_vec()]);
    assert_eq!(split_on(b"", b'/'), vec![Vec::<u8>::new()]);
    assert_eq!(split_on(b"a\nb\n", b'\n'), vec![b"a".to_vec(), b"b".to_vec(), Vec::new()]);
}

#[test]
fn decimal_values() {
    assert_eq!(parse_decimal(b"0"), Some(0));
    assert_eq!(parse_decimal(b"42"), Some(42));
    assert_eq!(parse_decimal(b"007"), Some(7));
    assert_eq!(parse_decimal(b""), None);
    assert_eq!(parse_decimal(b"4a"), None);
    assert_eq!(parse_decimal(b"+4"), None);
    let max = usize::MAX.to_string();
    assert_eq!(parse_decimal(max.as_bytes()), Some(usize::MAX));
    let over = format!("{}0", usize::MAX);
    assert_eq!(parse_decimal(over.as_bytes()), None);
}

#[test]
fn float_literals() {
    for ok in [
        "0", "-1", "+2", "1.5", ".5", "5.", "1e3", "1E-3", "-2.5e+10", "inf", "-Infinity", "NaN",
    ] {
        assert!(is_float_literal_exec(ok.as_bytes()), "{}", ok);
        assert!(ok.parse::<f32>().is_ok(), "{}", ok);
    }
    for bad in ["", ".", "-", "e5", "1e", "1e+", "--1", "1.2.3", "1,5", "infin", "0x10", "1f"] {
        assert!(!is_float_literal_exec(bad.as_bytes()), "{}", bad);
        assert!(bad.parse::<f32>().is_err(), "{}", bad);
    }
}
