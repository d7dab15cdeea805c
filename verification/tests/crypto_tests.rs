use faultforge::crypto::aes::{decrypt_block, encrypt_block};
use faultforge::crypto::chacha::chacha20_block;
use faultforge::crypto::{ct_eq, zeroize, Aes128Context, ChaCha20Context, CryptoPrimitive};

#[test]
fn aes_encrypt_decrypt() {
    let key = [0x2b, 0x7e, 0x15, 0x16, 0x28, 0xae, 0xd2, 0xa6, 0xab, 0xf7, 0x15, 0x88, 0x09, 0xcf, 0x4f, 0x3c];
    let plaintext = [0x6b, 0xc1, 0xbe, 0xe2, 0x2e, 0x40, 0x9f, 0x96, 0xe9, 0x3d, 0x7e, 0x11, 0x73, 0x93, 0x17, 0x2a];
    let expected = [0x3a, 0xd7, 0x7b, 0xb4, 0x0d, 0x7a, 0x36, 0x60, 0xa8, 0x9e, 0xca, 0xf3, 0x24, 0x66, 0xef, 0x97];

    let ctx = Aes128Context::new_encrypt(key);
    let ciphertext = ctx.process_fixed_key(&plaintext);
    assert_eq!(ciphertext, expected);

    let ctx_dec = Aes128Context::new_decrypt(key);
    let decrypted = ctx_dec.process_fixed_key(&ciphertext);
    assert_eq!(decrypted, plaintext);
}

#[test]
fn aes_fips197_appendix_vector() {
    let key: [u8; 16] = core::array::from_fn(|i| i as u8);
    let mut block = [
        0x00, 0x11, 0x22, 0x33, 0x44, 0x55, 0x66, 0x77, 0x88, 0x99, 0xaa, 0xbb, 0xcc, 0xdd, 0xee, 0xff,
    ];
    let plain = block;
    encrypt_block(&mut block, &key);
    assert_eq!(
        block,
        [0x69, 0xc4, 0xe0, 0xd8, 0x6a, 0x7b, 0x04, 0x30, 0xd8, 0xcd, 0xb7, 0x80, 0x70, 0xb4, 0xc5, 0x5a]
    );
    decrypt_block(&mut block, &key);
    assert_eq!(block, plain);
}

#[test]
fn aes_process_uses_given_key() {
    let ctx = Aes128Context::new_encrypt([0u8; 16]);
    let key: [u8; 16] = core::array::from_fn(|i| i as u8);
    let plain = [
        0x00, 0x11, 0x22, 0x33, 0x44, 0x55, 0x66, 0x77, 0x88, 0x99, 0xaa, 0xbb, 0xcc, 0xdd, 0xee, 0xff,
    ];
    let out = ctx.process(&plain, &key);
    assert_eq!(out[0], 0x69);
    assert_ne!(ctx.process_fixed_key(&plain), out);
}

#[test]
fn ct_eq_works() {
    assert!(ct_eq(b"hello", b"hello"));
    assert!(!ct_eq(b"hello", b"world"));
    assert!(!ct_eq(b"hello", b"hell"));
}

#[test]
fn ct_eq_on_empty_and_single_byte_difference() {
    assert!(ct_eq(b"", b""));
    assert!(!ct_eq(b"", b"a"));
    assert!(!ct_eq(&[1, 2, 3], &[1, 2, 4]));
}

#[test]
fn zeroize_clears_every_byte() {
    let mut d = [0xAAu8; 37];
    zeroize(&mut d);
    assert!(d.iter().all(|&b| b == 0));
    let mut e: [u8; 0] = [];
    zeroize(&mut e);
    assert_eq!(e.len(), 0);
}

const RFC8439_KEYSTREAM: [u8; 64] = [
    0x10, 0xf1, 0xe7, 0xe4, 0xd1, 0x3b, 0x59, 0x15, 0x50, 0x0f, 0xdd, 0x1f, 0xa3, 0x20, 0x71, 0xc4,
    0xc7, 0xd1, 0xf4, 0xc7, 0x33, 0xc0, 0x68, 0x03, 0x04, 0x22, 0xaa, 0x9a, 0xc3, 0xd4, 0x6c, 0x4e,
    0xd2, 0x82, 0x64, 0x46, 0x07, 0x9f, 0xaa, 0x09, 0x14, 0xc2, 0xd7, 0x05, 0xd9, 0x8b, 0x02, 0xa2,
    0xb5, 0x12, 0x9c, 0xd1, 0xde, 0x16, 0x4e, 0xb9, 0xcb, 0xd0, 0x83, 0xe8, 0xa2, 0x50, 0x3c, 0x4e,
];

fn rfc_key() -> [u8; 32] {
    core::array::from_fn(|i| i as u8)
}

const RFC_NONCE: [u8; 12] = [0, 0, 0, 0x09, 0, 0, 0, 0x4a, 0, 0, 0, 0];

#[test]
fn chacha20_block_function_vector() {
    let mut data = [0u8; 64];
    chacha20_block(&rfc_key(), &RFC_NONCE, 1, &mut data);
    assert_eq!(data, RFC8439_KEYSTREAM);
}

#[test]
fn chacha_context_encrypts_and_decrypts() {
    let ctx = ChaCha20Context::new(rfc_key(), RFC_NONCE, 1);
    let plain: [u8; 64] = core::array::from_fn(|i| (i * 7) as u8);
    let cipher = ctx.process_fixed_key(&plain);
    for i in 0..64 {
        assert_eq!(cipher[i], plain[i] ^ RFC8439_KEYSTREAM[i]);
    }
    assert_eq!(ctx.process_fixed_key(&cipher), plain);
    // another key gives another keystream
    assert_ne!(ctx.process(&plain, &[0u8; 32]), cipher);
}

#[test]
fn aes_decrypt_undoes_encrypt_on_many_blocks() {
    let mut x: u32 = 12345;
    for _ in 0..20 {
        let mut key = [0u8; 16];
        let mut block = [0u8; 16];
        for i in 0..16 {
            x = x.wrapping_mul(1103515245).wrapping_add(12345);
            key[i] = (x >> 24) as u8;
            x = x.wrapping_mul(1103515245).wrapping_add(12345);
            block[i] = (x >> 24) as u8;
        }
        let plain = block;
        encrypt_block(&mut block, &key);
        assert_ne!(block, plain);
        decrypt_block(&mut block, &key);
        assert_eq!(block, plain);
    }
}
