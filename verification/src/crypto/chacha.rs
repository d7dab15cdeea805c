//! ChaCha20 (RFC 8439): the block function, and one 64-byte block of the
//! stream cipher (the keystream block XORed into the data).

use vstd::prelude::*;

verus! {

/// Left rotation of a 32-bit word by `n` bits, 0 < n < 32.
pub open spec fn rotl32(x: u32, n: u32) -> u32 {
    (x << n) | (x >> (32 - n) as u32)
}

/// The quarter round on words `a`, `b`, `c`, `d` of the state.
pub open spec fn quarter_round(s: Seq<u32>, a: int, b: int, c: int, d: int) -> Seq<u32> {
    let a1 = s[a].wrapping_add(s[b]);
    let d1 = rotl32(s[d] ^ a1, 16);
    let c1 = s[c].wrapping_add(d1);
    let b1 = rotl32(s[b] ^ c1, 12);
    let a2 = a1.wrapping_add(b1);
    let d2 = rotl32(d1 ^ a2, 8);
    let c2 = c1.wrapping_add(d2);
    let b2 = rotl32(b1 ^ c2, 7);
    s.update(a, a2).update(b, b2).update(c, c2).update(d, d2)
}

/// A column round followed by a diagonal round.
pub open spec fn double_round(s: Seq<u32>) -> Seq<u32> {
    let s = quarter_round(s, 0, 4, 8, 12);
    let s = quarter_round(s, 1, 5, 9, 13);
    let s = quarter_round(s, 2, 6, 10, 14);
    let s = quarter_round(s, 3, 7, 11, 15);
    let s = quarter_round(s, 0, 5, 10, 15);
    let s = quarter_round(s, 1, 6, 11, 12);
    let s = quarter_round(s, 2, 7, 8, 13);
    quarter_round(s, 3, 4, 9, 14)
}

/// `n` double rounds.
pub open spec fn double_rounds(s: Seq<u32>, n: nat) -> Seq<u32>
    decreases n,
{
    if n == 0 {
        s
    } else {
        double_round(double_rounds(s, (n - 1) as nat))
    }
}

/// The little-endian word at byte `i` of `b`.
pub open spec fn word_le(b: Seq<u8>, i: int) -> u32 {
    (b[i] + 256 * b[i + 1] + 65536 * b[i + 2] + 16777216 * b[i + 3]) as u32
}

/// The initial state: the constants, the key, the block counter and the nonce.
pub open spec fn initial_state(key: Seq<u8>, nonce: Seq<u8>, counter: u32) -> Seq<u32> {
    seq![
        0x61707865u32,
        0x3320646e,
        0x79622d32,
        0x6b206574,
        word_le(key, 0),
        word_le(key, 4),
        word_le(key, 8),
        word_le(key, 12),
        word_le(key, 16),
        word_le(key, 20),
        word_le(key, 24),
        word_le(key, 28),
        counter,
        word_le(nonce, 0),
        word_le(nonce, 4),
        word_le(nonce, 8),
    ]
}

/// The ChaCha20 block function: twenty rounds, the input state added word by
/// word, serialised little-endian into 64 bytes.
pub open spec fn chacha20_keystream(key: Seq<u8>, nonce: Seq<u8>, counter: u32) -> Seq<u8> {
    let init = initial_state(key, nonce, counter);
    let mixed = double_rounds(init, 10);
    Seq::new(64, |i: int| (mixed[i / 4].wrapping_add(init[i / 4]) >> (8 * (i % 4)) as u32) as u8)
}

/// One block of the stream cipher: `data` XORed with the keystream block.
pub open spec fn chacha20_xor(key: Seq<u8>, nonce: Seq<u8>, counter: u32, data: Seq<u8>) -> Seq<u8> {
    let ks = chacha20_keystream(key, nonce, counter);
    Seq::new(64, |i: int| data[i] ^ ks[i])
}

/// Applying the same keystream block twice gives the data back: encryption
/// and decryption are the same operation.
pub proof fn lemma_chacha20_xor_involution(key: Seq<u8>, nonce: Seq<u8>, counter: u32, data: Seq<u8>)
    requires
        data.len() == 64,
    ensures
        chacha20_xor(key, nonce, counter, chacha20_xor(key, nonce, counter, data)) == data,
{
    let ks = chacha20_keystream(key, nonce, counter);
    assert forall|i: int| 0 <= i < 64 implies #[trigger] chacha20_xor(
        key,
        nonce,
        counter,
        chacha20_xor(key, nonce, counter, data),
    )[i] == data[i] by {
        let d = data[i];
        let k = ks[i];
        assert((d ^ k) ^ k == d) by (bit_vector);
    }
    assert(chacha20_xor(key, nonce, counter, chacha20_xor(key, nonce, counter, data)) =~= data);
}

fn rotl(x: u32, n: u32) -> (r: u32)
    requires
        0 < n < 32,
    ensures
        r == rotl32(x, n),
{
    (x << n) | (x >> (32 - n))
}

fn qr(s: &mut [u32; 16], a: usize, b: usize, c: usize, d: usize)
    requires
        a < 16,
        b < 16,
        c < 16,
        d < 16,
        a != b && a != c && a != d && b != c && b != d && c != d,
    ensures
        final(s)@ == quarter_round(old(s)@, a as int, b as int, c as int, d as int),
{
    let a1 = s[a].wrapping_add(s[b]);
    let d1 = rotl(s[d] ^ a1, 16);
    let c1 = s[c].wrapping_add(d1);
    let b1 = rotl(s[b] ^ c1, 12);
    let a2 = a1.wrapping_add(b1);
    let d2 = rotl(d1 ^ a2, 8);
    let c2 = c1.wrapping_add(d2);
    let b2 = rotl(b1 ^ c2, 7);
    s[a] = a2;
    s[b] = b2;
    s[c] = c2;
    s[d] = d2;
    assert(s@ =~= quarter_round(old(s)@, a as int, b as int, c as int, d as int));
}

fn read_word(b: &[u8], i: usize) -> (w: u32)
    requires
        i + 4 <= b@.len(),
    ensures
        w == word_le(b@, i as int),
{
    b[i] as u32 + 256 * b[i + 1] as u32 + 65536 * b[i + 2] as u32 + 16777216 * b[i + 3] as u32
}

/// The keystream block for `key`, `nonce` and `counter`, XORed into `data`.
pub fn chacha20_block(key: &[u8; 32], nonce: &[u8; 12], counter: u32, data: &mut [u8; 64])
    ensures
        final(data)@ == chacha20_xor(key@, nonce@, counter, old(data)@),
{
    let init: [u32; 16] = [
        0x61707865,
        0x3320646e,
        0x79622d32,
        0x6b206574,
        read_word(key, 0),
        read_word(key, 4),
        read_word(key, 8),
        read_word(key, 12),
        read_word(key, 16),
        read_word(key, 20),
        read_word(key, 24),
        read_word(key, 28),
        counter,
        read_word(nonce, 0),
        read_word(nonce, 4),
        read_word(nonce, 8),
    ];
    assert(init@ =~= initial_state(key@, nonce@, counter));
    let mut w = init;
    let mut n: usize = 0;
    while n < 10
        invariant
            n <= 10,
            w@ == double_rounds(init@, n as nat),
        decreases 10 - n,
    {
        let ghost before = w@;
        qr(&mut w, 0, 4, 8, 12);
        qr(&mut w, 1, 5, 9, 13);
        qr(&mut w, 2, 6, 10, 14);
        qr(&mut w, 3, 7, 11, 15);
        qr(&mut w, 0, 5, 10, 15);
        qr(&mut w, 1, 6, 11, 12);
        qr(&mut w, 2, 7, 8, 13);
        qr(&mut w, 3, 4, 9, 14);
        assert(w@ == double_round(before));
        n = n + 1;
    }
    let ghost ks = chacha20_keystream(key@, nonce@, counter);
    let ghost input = data@;
    let mut i: usize = 0;
    while i < 64
        invariant
            i <= 64,
            w@ == double_rounds(init@, 10),
            init@ == initial_state(key@, nonce@, counter),
            ks == chacha20_keystream(key@, nonce@, counter),
            data@.len() == 64,
            input.len() == 64,
            forall|k: int| 0 <= k < i ==> data@[k] == input[k] ^ ks[k],
            forall|k: int| i <= k < 64 ==> data@[k] == input[k],
        decreases 64 - i,
    {
        let word = w[i / 4].wrapping_add(init[i / 4]);
        let byte = (word >> (8 * (i % 4)) as u32) as u8;
        assert(byte == ks[i as int]);
        data[i] = data[i] ^ byte;
        i = i + 1;
    }
    assert(data@ =~= chacha20_xor(key@, nonce@, counter, input));
}

} // verus!
