use data_sink::dns::decode_dns_name;
use std::iter::repeat;

fn dns_decode(buffer: impl AsRef<[u8]>) -> Option<String> {
    decode_dns_name(buffer.as_ref())
        .map(String::from_utf8)
        .transpose()
        .unwrap()
}

#[test]
fn simple() {
    let inp = b"\x06google\x03com\0";
    assert_eq!(dns_decode(inp).unwrap(), "google.com");
}

#[test]
fn maximum_length() {
    let prt = b"\x0faaaaaaaaaaaaaaa";
    let mut inp = Vec::new();
    for _ in 0..16 {
        inp.extend(prt);
    }
    inp.push(b'\0');
    let ans = repeat("a".repeat(15))
        .take(16)
        .collect::<Vec<_>>()
        .join(".");
    assert_eq!(ans.len(), 255);
    assert_eq!(dns_decode(inp), Some(ans));
}

#[test]
fn too_long_inner_part() {
    let inp = b"\x40aaaaaaaaaaaaaaaaaaaaaaaaaaaaaaaaaaaaaaaaaaaaaaaaaaaaaaaaaaaaaaaa\0";
    assert_eq!(dns_decode(inp), None);
}

#[test]
fn too_long_domain() {
    let inp = "\x01a".repeat(150) + "\0";
    assert_eq!(dns_decode(inp), None);
}

#[test]
fn too_long_run() {
    let inp = b"\x05abc\0";
    assert_eq!(dns_decode(inp), None);
}

#[test]
fn root_name_is_empty() {
    assert_eq!(dns_decode(b"\0"), Some(String::new()));
}

#[test]
fn empty_input_is_rejected() {
    assert_eq!(dns_decode(b""), None);
}

#[test]
fn missing_terminator_is_rejected() {
    assert_eq!(dns_decode(b"\x03com"), None);
}

#[test]
fn bytes_after_terminator_are_ignored() {
    assert_eq!(dns_decode(b"\x02ab\0\x05"), Some("ab".to_string()));
}

#[test]
fn longest_label_is_accepted() {
    let mut inp = vec![0x3f];
    inp.extend(std::iter::repeat(b'x').take(63));
    inp.push(0);
    assert_eq!(dns_decode(inp), Some("x".repeat(63)));
}
