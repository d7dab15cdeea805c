use faultforge::crypto::sha256::hash;
use faultforge::crypto::{CryptoPrimitive, Sha256Context};

fn hex(d: &[u8]) -> String {
    d.iter().map(|b| format!("{b:02x}")).collect()
}

fn msg(bytes: &[u8]) -> heapless::Vec<u8, 256> {
    heapless::Vec::from_slice(bytes).unwrap()
}

#[test]
fn sha256_empty_and_abc() {
    assert_eq!(
        hex(&hash(&msg(b""))),
        "e3b0c44298fc1c149afbf4c8996fb92427ae41e4649b934ca495991b7852b855"
    );
    assert_eq!(
        hex(&hash(&msg(b"abc"))),
        "ba7816bf8f01cfea414140de5dae2223b00361a396177a9cb410ff61f20015ad"
    );
}

#[test]
fn sha256_full_capacity_message() {
    let all: Vec<u8> = (0..=255u8).collect();
    assert_eq!(
        hex(&hash(&msg(&all))),
        "40aff2e9d2d8922e47afd4648e6967497158785fbd1da870e7110266bf944880"
    );
}

#[test]
fn sha256_context_ignores_key() {
    let ctx = Sha256Context;
    let m = msg(b"abc");
    assert_eq!(ctx.process(&m, &()), ctx.process_fixed_key(&m));
    assert_eq!(ctx.process_fixed_key(&m), hash(&m));
}

#[test]
fn sha256_padding_boundaries() {
    assert_eq!(
        hex(&hash(&msg(&[b'a'; 55]))),
        "9f4390f8d30c2dd92ec9f095b65e2b9ae9b0a925a5258e241c9f1e910f734318"
    );
    assert_eq!(
        hex(&hash(&msg(&[b'a'; 56]))),
        "b35439a4ac6f0948b6d6f9e3c6af0f5f590ce20f1bde7090ef7970686ec6738a"
    );
}
