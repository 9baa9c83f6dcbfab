use database_receiver::postgresql::numeric::numeric;

fn wire(words: Vec<u16>) -> Vec<u8> {
    words.into_iter().flat_map(u16::to_be_bytes).collect()
}

#[test]
fn exact_numeric_text() {
    for (words, expected) in [
        (vec![3, 1, 0, 4, 12, 3456, 7800], "123456.7800"),
        (vec![1, 65535, 0x4000, 6, 12], "-0.001200"),
        (vec![0, 0, 0, 3], "0.000"),
        (vec![1, 2, 0, 0, 1], "100000000"),
    ] {
        assert_eq!(numeric(&wire(words), 1024).expect("decimal"), expected);
    }
}

#[test]
fn rejects_invalid_or_oversized_numeric() {
    assert!(numeric(&[0; 3], 1024).is_err());
    for words in [
        vec![0, 0, 0xC000, 0],
        vec![1, 0, 0, 0, 10000],
        vec![0, 32767, 0, 0],
    ] {
        assert!(numeric(&wire(words), 128).is_err());
    }
}
