use oxpen::decimal::to_num;

fn digits(n: u8) -> Vec<u8> {
    let mut v = Vec::new();
    to_num(n, &mut v);
    v
}

#[test]
fn every_byte_value_reads_back() {
    for n in 0..=255u8 {
        let d = digits(n);
        let text = std::str::from_utf8(&d).unwrap();
        assert_eq!(text.parse::<u8>().unwrap(), n);
        let expected_len = if n < 10 { 1 } else if n < 100 { 2 } else { 3 };
        assert_eq!(d.len(), expected_len);
        assert!(d.len() == 1 || d[0] != b'0');
    }
}

#[test]
fn digit_edges() {
    assert_eq!(digits(0), b"0".to_vec());
    assert_eq!(digits(9), b"9".to_vec());
    assert_eq!(digits(10), b"10".to_vec());
    assert_eq!(digits(99), b"99".to_vec());
    assert_eq!(digits(100), b"100".to_vec());
    assert_eq!(digits(255), b"255".to_vec());
}

#[test]
fn appends_after_existing_bytes() {
    let mut v = b"x;".to_vec();
    to_num(42, &mut v);
    assert_eq!(v, b"x;42".to_vec());
}
