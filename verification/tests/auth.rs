use f429zi_logic::auth::basic_token;

#[test]
fn known_vector() {
    // base64("admin:secret") == "YWRtaW46c2VjcmV0"
    assert_eq!(basic_token("admin", "secret").as_str(), "YWRtaW46c2VjcmV0");
}

#[test]
fn padding_cases() {
    // "a:" -> 2 bytes, "ab:" -> 3 bytes, ":" -> 1 byte
    assert_eq!(basic_token("a", "").as_str(), "YTo=");
    assert_eq!(basic_token("ab", "").as_str(), "YWI6");
    assert_eq!(basic_token("", "").as_str(), "Og==");
    assert_eq!(basic_token("Aladdin", "open sesame").as_str(), "QWxhZGRpbjpvcGVuIHNlc2FtZQ==");
}

#[test]
fn alphabet_ends() {
    assert_eq!(basic_token("???", "").as_str(), "Pz8/Og==");
    assert_eq!(basic_token("\u{7f}\u{7f}", "").as_str(), "f386");
    assert_eq!(basic_token("~~~", "?").as_str(), "fn5+Oj8=");
}

#[test]
fn non_ascii_text_is_encoded_as_utf8() {
    assert_eq!(basic_token("é", "").as_str(), "w6k6");
}

#[test]
fn full_length_config_login() {
    // A configuration holds up to 32 bytes of user and 32 of password.
    let user = "u".repeat(32);
    let pass = "p".repeat(32);
    let t = basic_token(&user, &pass);
    assert_eq!(t.as_str(), b64(format!("{}:{}", user, pass).as_bytes()));
    assert_eq!(t.len(), 88);
}

#[test]
fn full_length_passwords_differ() {
    let user = "u".repeat(32);
    let right = "p".repeat(32);
    let wrong = format!("{}q", "p".repeat(31));
    assert_ne!(basic_token(&user, &right), basic_token(&user, &wrong));
}

#[test]
fn longest_input_fits() {
    let user = "u".repeat(40);
    let pass = "p".repeat(31); // 40 + 1 + 31 = 72 bytes
    let t = basic_token(&user, &pass);
    assert_eq!(t.len(), 96);
    let expected = format!("{}:{}", user, pass);
    assert_eq!(t.as_str(), b64(expected.as_bytes()));
}

#[test]
fn beyond_72_bytes_keeps_what_a_64_byte_buffer_keeps() {
    // Longer than any configuration holds: the user, then the colon, then the
    // password, each kept only if it fits a 64-byte buffer.
    let user = "u".repeat(40);
    let pass = "p".repeat(32);
    assert_eq!(basic_token(&user, &pass).as_str(), b64(format!("{}:", user).as_bytes()));
    let user66 = "u".repeat(66);
    assert_eq!(basic_token(&user66, "0123456789").as_str(), b64(b":0123456789"));
    let long_user = "u".repeat(73);
    assert_eq!(basic_token(&long_user, "pw").as_str(), b64(b":pw"));
    let user72 = "u".repeat(72);
    assert_eq!(basic_token(&user72, "pw").as_str(), b64(b":pw"));
    let user64 = "u".repeat(64);
    assert_eq!(basic_token(&user64, &"p".repeat(10)).as_str(), b64(user64.as_bytes()));
}

fn b64(input: &[u8]) -> String {
    const A: &[u8; 64] = b"ABCDEFGHIJKLMNOPQRSTUVWXYZabcdefghijklmnopqrstuvwxyz0123456789+/";
    let mut out = String::new();
    for c in input.chunks(3) {
        let n = (c[0] as u32) << 16
            | (*c.get(1).unwrap_or(&0) as u32) << 8
            | *c.get(2).unwrap_or(&0) as u32;
        out.push(A[(n >> 18) as usize & 63] as char);
        out.push(A[(n >> 12) as usize & 63] as char);
        out.push(if c.len() > 1 { A[(n >> 6) as usize & 63] as char } else { '=' });
        out.push(if c.len() > 2 { A[n as usize & 63] as char } else { '=' });
    }
    out
}
