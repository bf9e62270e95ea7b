use f429zi_logic::config::{load, Config, CONFIG_LEN, CONFIG_MAGIC};

#[test]
fn round_trip() {
    let c = Config::default();
    let bytes = c.to_bytes();
    assert_eq!(Config::from_bytes(&bytes), Some(c));
}

#[test]
fn bad_magic_is_none() {
    let bytes = [0u8; Config::LEN];
    assert_eq!(Config::from_bytes(&bytes), None);
}

fn sample() -> Config {
    Config {
        ip: [10, 1, 2, 3],
        prefix_len: 16,
        gateway: [10, 1, 0, 1],
        web_user: heapless::String::try_from("admin").unwrap(),
        web_pass: heapless::String::try_from("pässwörd").unwrap(),
    }
}

#[test]
fn default_values() {
    let c = Config::default();
    assert_eq!(c.ip, [192, 168, 1, 20]);
    assert_eq!(c.prefix_len, 24);
    assert_eq!(c.gateway, [192, 168, 1, 1]);
    assert_eq!(c.web_user.as_str(), "");
    assert_eq!(c.web_pass.as_str(), "");
    assert_eq!(Config::LEN, CONFIG_LEN);
}

#[test]
fn layout_of_record() {
    let bytes = sample().to_bytes();
    assert_eq!(bytes.len(), 77);
    assert_eq!(&bytes[0..4], &CONFIG_MAGIC);
    assert_eq!(&bytes[4..8], &[10, 1, 2, 3]);
    assert_eq!(bytes[8], 16);
    assert_eq!(&bytes[9..13], &[10, 1, 0, 1]);
    assert_eq!(&bytes[13..18], b"admin");
    assert!(bytes[18..45].iter().all(|b| *b == 0));
    let pass = "pässwörd".as_bytes();
    assert_eq!(&bytes[45..45 + pass.len()], pass);
    assert!(bytes[45 + pass.len()..77].iter().all(|b| *b == 0));
}

#[test]
fn round_trip_with_login() {
    let c = sample();
    let back = Config::from_bytes(&c.to_bytes()).unwrap();
    assert_eq!(back, c);
    assert_eq!(back.web_user.as_str(), "admin");
    assert_eq!(back.web_pass.as_str(), "pässwörd");
}

#[test]
fn full_length_login_round_trips() {
    let mut c = sample();
    c.web_user = heapless::String::try_from("0123456789abcdef0123456789abcdef").unwrap();
    let bytes = c.to_bytes();
    assert_eq!(&bytes[13..45], b"0123456789abcdef0123456789abcdef");
    assert_eq!(Config::from_bytes(&bytes), Some(c));
}

#[test]
fn short_record_is_none() {
    let bytes = sample().to_bytes();
    assert_eq!(Config::from_bytes(&bytes[..76]), None);
    assert_eq!(Config::from_bytes(&[]), None);
}

#[test]
fn longer_buffer_reads_the_record_prefix() {
    let c = sample();
    let mut buf = [0xFFu8; 100];
    buf[..77].copy_from_slice(&c.to_bytes());
    assert_eq!(Config::from_bytes(&buf), Some(c));
}

#[test]
fn invalid_utf8_field_is_none() {
    let mut bytes = sample().to_bytes();
    bytes[13] = 0xFF;
    assert_eq!(Config::from_bytes(&bytes), None);
    let mut bytes = sample().to_bytes();
    bytes[45] = 0xC3; // lead byte followed by 0x00: truncated character
    bytes[46] = 0x00;
    assert_eq!(Config::from_bytes(&bytes), None);
}

#[test]
fn text_ends_at_first_nul() {
    let mut bytes = sample().to_bytes();
    bytes[15] = 0; // "ad\0in"
    let c = Config::from_bytes(&bytes).unwrap();
    assert_eq!(c.web_user.as_str(), "ad");
}

#[test]
fn blank_flash_loads_defaults() {
    assert_eq!(load(&[0xFFu8; 77]), Config::default());
    assert_eq!(load(&[]), Config::default());
    let c = sample();
    assert_eq!(load(&c.to_bytes()), c);
}

#[test]
fn clone_keeps_everything() {
    let c = sample();
    assert_eq!(c.clone(), c);
}
