//! AES-128 (FIPS-197): the key expansion, the cipher and the inverse cipher
//! on a single 16-byte block. The state is kept column by column, as the
//! input bytes come: byte `r + 4c` is row `r` of column `c`.

use vstd::prelude::*;

verus! {

// ─── GF(2^8) arithmetic ───────────────────────────────────────────────────

/// Multiplication by x modulo the AES polynomial x^8 + x^4 + x^3 + x + 1.
pub open spec fn xtime_spec(b: u8) -> u8 {
    (b << 1u8) ^ (if b & 0x80 != 0 {
        0x1bu8
    } else {
        0u8
    })
}

/// Product of `a` and the low `n` bits of `b` in GF(2^8): the sum (XOR) of
/// `a * x^i` over the set bits `i` of `b`.
pub open spec fn gf_mul_bits(a: u8, b: u8, n: nat) -> u8
    decreases n,
{
    if n == 0 {
        0
    } else {
        gf_mul_bits(xtime_spec(a), b >> 1u8, (n - 1) as nat) ^ (if b & 1 == 1 {
            a
        } else {
            0u8
        })
    }
}

/// Product in GF(2^8).
#[verifier::opaque]
pub open spec fn gf_mul_spec(a: u8, b: u8) -> u8 {
    gf_mul_bits(a, b, 8)
}

/// The S-box (FIPS-197, figure 7): the multiplicative inverse in GF(2^8)
/// (0 for 0) followed by the affine transformation, as tabulated.
pub open spec fn sbox_spec(b: u8) -> u8 {
    match b {
        0x00 => 0x63, 0x01 => 0x7c, 0x02 => 0x77, 0x03 => 0x7b,
        0x04 => 0xf2, 0x05 => 0x6b, 0x06 => 0x6f, 0x07 => 0xc5,
        0x08 => 0x30, 0x09 => 0x01, 0x0a => 0x67, 0x0b => 0x2b,
        0x0c => 0xfe, 0x0d => 0xd7, 0x0e => 0xab, 0x0f => 0x76,
        0x10 => 0xca, 0x11 => 0x82, 0x12 => 0xc9, 0x13 => 0x7d,
        0x14 => 0xfa, 0x15 => 0x59, 0x16 => 0x47, 0x17 => 0xf0,
        0x18 => 0xad, 0x19 => 0xd4, 0x1a => 0xa2, 0x1b => 0xaf,
        0x1c => 0x9c, 0x1d => 0xa4, 0x1e => 0x72, 0x1f => 0xc0,
        0x20 => 0xb7, 0x21 => 0xfd, 0x22 => 0x93, 0x23 => 0x26,
        0x24 => 0x36, 0x25 => 0x3f, 0x26 => 0xf7, 0x27 => 0xcc,
        0x28 => 0x34, 0x29 => 0xa5, 0x2a => 0xe5, 0x2b => 0xf1,
        0x2c => 0x71, 0x2d => 0xd8, 0x2e => 0x31, 0x2f => 0x15,
        0x30 => 0x04, 0x31 => 0xc7, 0x32 => 0x23, 0x33 => 0xc3,
        0x34 => 0x18, 0x35 => 0x96, 0x36 => 0x05, 0x37 => 0x9a,
        0x38 => 0x07, 0x39 => 0x12, 0x3a => 0x80, 0x3b => 0xe2,
        0x3c => 0xeb, 0x3d => 0x27, 0x3e => 0xb2, 0x3f => 0x75,
        0x40 => 0x09, 0x41 => 0x83, 0x42 => 0x2c, 0x43 => 0x1a,
        0x44 => 0x1b, 0x45 => 0x6e, 0x46 => 0x5a, 0x47 => 0xa0,
        0x48 => 0x52, 0x49 => 0x3b, 0x4a => 0xd6, 0x4b => 0xb3,
        0x4c => 0x29, 0x4d => 0xe3, 0x4e => 0x2f, 0x4f => 0x84,
        0x50 => 0x53, 0x51 => 0xd1, 0x52 => 0x00, 0x53 => 0xed,
        0x54 => 0x20, 0x55 => 0xfc, 0x56 => 0xb1, 0x57 => 0x5b,
        0x58 => 0x6a, 0x59 => 0xcb, 0x5a => 0xbe, 0x5b => 0x39,
        0x5c => 0x4a, 0x5d => 0x4c, 0x5e => 0x58, 0x5f => 0xcf,
        0x60 => 0xd0, 0x61 => 0xef, 0x62 => 0xaa, 0x63 => 0xfb,
        0x64 => 0x43, 0x65 => 0x4d, 0x66 => 0x33, 0x67 => 0x85,
        0x68 => 0x45, 0x69 => 0xf9, 0x6a => 0x02, 0x6b => 0x7f,
        0x6c => 0x50, 0x6d => 0x3c, 0x6e => 0x9f, 0x6f => 0xa8,
        0x70 => 0x51, 0x71 => 0xa3, 0x72 => 0x40, 0x73 => 0x8f,
        0x74 => 0x92, 0x75 => 0x9d, 0x76 => 0x38, 0x77 => 0xf5,
        0x78 => 0xbc, 0x79 => 0xb6, 0x7a => 0xda, 0x7b => 0x21,
        0x7c => 0x10, 0x7d => 0xff, 0x7e => 0xf3, 0x7f => 0xd2,
        0x80 => 0xcd, 0x81 => 0x0c, 0x82 => 0x13, 0x83 => 0xec,
        0x84 => 0x5f, 0x85 => 0x97, 0x86 => 0x44, 0x87 => 0x17,
        0x88 => 0xc4, 0x89 => 0xa7, 0x8a => 0x7e, 0x8b => 0x3d,
        0x8c => 0x64, 0x8d => 0x5d, 0x8e => 0x19, 0x8f => 0x73,
        0x90 => 0x60, 0x91 => 0x81, 0x92 => 0x4f, 0x93 => 0xdc,
        0x94 => 0x22, 0x95 => 0x2a, 0x96 => 0x90, 0x97 => 0x88,
        0x98 => 0x46, 0x99 => 0xee, 0x9a => 0xb8, 0x9b => 0x14,
        0x9c => 0xde, 0x9d => 0x5e, 0x9e => 0x0b, 0x9f => 0xdb,
        0xa0 => 0xe0, 0xa1 => 0x32, 0xa2 => 0x3a, 0xa3 => 0x0a,
        0xa4 => 0x49, 0xa5 => 0x06, 0xa6 => 0x24, 0xa7 => 0x5c,
        0xa8 => 0xc2, 0xa9 => 0xd3, 0xaa => 0xac, 0xab => 0x62,
        0xac => 0x91, 0xad => 0x95, 0xae => 0xe4, 0xaf => 0x79,
        0xb0 => 0xe7, 0xb1 => 0xc8, 0xb2 => 0x37, 0xb3 => 0x6d,
        0xb4 => 0x8d, 0xb5 => 0xd5, 0xb6 => 0x4e, 0xb7 => 0xa9,
        0xb8 => 0x6c, 0xb9 => 0x56, 0xba => 0xf4, 0xbb => 0xea,
        0xbc => 0x65, 0xbd => 0x7a, 0xbe => 0xae, 0xbf => 0x08,
        0xc0 => 0xba, 0xc1 => 0x78, 0xc2 => 0x25, 0xc3 => 0x2e,
        0xc4 => 0x1c, 0xc5 => 0xa6, 0xc6 => 0xb4, 0xc7 => 0xc6,
        0xc8 => 0xe8, 0xc9 => 0xdd, 0xca => 0x74, 0xcb => 0x1f,
        0xcc => 0x4b, 0xcd => 0xbd, 0xce => 0x8b, 0xcf => 0x8a,
        0xd0 => 0x70, 0xd1 => 0x3e, 0xd2 => 0xb5, 0xd3 => 0x66,
        0xd4 => 0x48, 0xd5 => 0x03, 0xd6 => 0xf6, 0xd7 => 0x0e,
        0xd8 => 0x61, 0xd9 => 0x35, 0xda => 0x57, 0xdb => 0xb9,
        0xdc => 0x86, 0xdd => 0xc1, 0xde => 0x1d, 0xdf => 0x9e,
        0xe0 => 0xe1, 0xe1 => 0xf8, 0xe2 => 0x98, 0xe3 => 0x11,
        0xe4 => 0x69, 0xe5 => 0xd9, 0xe6 => 0x8e, 0xe7 => 0x94,
        0xe8 => 0x9b, 0xe9 => 0x1e, 0xea => 0x87, 0xeb => 0xe9,
        0xec => 0xce, 0xed => 0x55, 0xee => 0x28, 0xef => 0xdf,
        0xf0 => 0x8c, 0xf1 => 0xa1, 0xf2 => 0x89, 0xf3 => 0x0d,
        0xf4 => 0xbf, 0xf5 => 0xe6, 0xf6 => 0x42, 0xf7 => 0x68,
        0xf8 => 0x41, 0xf9 => 0x99, 0xfa => 0x2d, 0xfb => 0x0f,
        0xfc => 0xb0, 0xfd => 0x54, 0xfe => 0xbb, _ => 0x16,
    }
}

/// The inverse S-box (FIPS-197, figure 14).
pub open spec fn inv_sbox_spec(b: u8) -> u8 {
    match b {
        0x00 => 0x52, 0x01 => 0x09, 0x02 => 0x6a, 0x03 => 0xd5,
        0x04 => 0x30, 0x05 => 0x36, 0x06 => 0xa5, 0x07 => 0x38,
        0x08 => 0xbf, 0x09 => 0x40, 0x0a => 0xa3, 0x0b => 0x9e,
        0x0c => 0x81, 0x0d => 0xf3, 0x0e => 0xd7, 0x0f => 0xfb,
        0x10 => 0x7c, 0x11 => 0xe3, 0x12 => 0x39, 0x13 => 0x82,
        0x14 => 0x9b, 0x15 => 0x2f, 0x16 => 0xff, 0x17 => 0x87,
        0x18 => 0x34, 0x19 => 0x8e, 0x1a => 0x43, 0x1b => 0x44,
        0x1c => 0xc4, 0x1d => 0xde, 0x1e => 0xe9, 0x1f => 0xcb,
        0x20 => 0x54, 0x21 => 0x7b, 0x22 => 0x94, 0x23 => 0x32,
        0x24 => 0xa6, 0x25 => 0xc2, 0x26 => 0x23, 0x27 => 0x3d,
        0x28 => 0xee, 0x29 => 0x4c, 0x2a => 0x95, 0x2b => 0x0b,
        0x2c => 0x42, 0x2d => 0xfa, 0x2e => 0xc3, 0x2f => 0x4e,
        0x30 => 0x08, 0x31 => 0x2e, 0x32 => 0xa1, 0x33 => 0x66,
        0x34 => 0x28, 0x35 => 0xd9, 0x36 => 0x24, 0x37 => 0xb2,
        0x38 => 0x76, 0x39 => 0x5b, 0x3a => 0xa2, 0x3b => 0x49,
        0x3c => 0x6d, 0x3d => 0x8b, 0x3e => 0xd1, 0x3f => 0x25,
        0x40 => 0x72, 0x41 => 0xf8, 0x42 => 0xf6, 0x43 => 0x64,
        0x44 => 0x86, 0x45 => 0x68, 0x46 => 0x98, 0x47 => 0x16,
        0x48 => 0xd4, 0x49 => 0xa4, 0x4a => 0x5c, 0x4b => 0xcc,
        0x4c => 0x5d, 0x4d => 0x65, 0x4e => 0xb6, 0x4f => 0x92,
        0x50 => 0x6c, 0x51 => 0x70, 0x52 => 0x48, 0x53 => 0x50,
        0x54 => 0xfd, 0x55 => 0xed, 0x56 => 0xb9, 0x57 => 0xda,
        0x58 => 0x5e, 0x59 => 0x15, 0x5a => 0x46, 0x5b => 0x57,
        0x5c => 0xa7, 0x5d => 0x8d, 0x5e => 0x9d, 0x5f => 0x84,
        0x60 => 0x90, 0x61 => 0xd8, 0x62 => 0xab, 0x63 => 0x00,
        0x64 => 0x8c, 0x65 => 0xbc, 0x66 => 0xd3, 0x67 => 0x0a,
        0x68 => 0xf7, 0x69 => 0xe4, 0x6a => 0x58, 0x6b => 0x05,
        0x6c => 0xb8, 0x6d => 0xb3, 0x6e => 0x45, 0x6f => 0x06,
        0x70 => 0xd0, 0x71 => 0x2c, 0x72 => 0x1e, 0x73 => 0x8f,
        0x74 => 0xca, 0x75 => 0x3f, 0x76 => 0x0f, 0x77 => 0x02,
        0x78 => 0xc1, 0x79 => 0xaf, 0x7a => 0xbd, 0x7b => 0x03,
        0x7c => 0x01, 0x7d => 0x13, 0x7e => 0x8a, 0x7f => 0x6b,
        0x80 => 0x3a, 0x81 => 0x91, 0x82 => 0x11, 0x83 => 0x41,
        0x84 => 0x4f, 0x85 => 0x67, 0x86 => 0xdc, 0x87 => 0xea,
        0x88 => 0x97, 0x89 => 0xf2, 0x8a => 0xcf, 0x8b => 0xce,
        0x8c => 0xf0, 0x8d => 0xb4, 0x8e => 0xe6, 0x8f => 0x73,
        0x90 => 0x96, 0x91 => 0xac, 0x92 => 0x74, 0x93 => 0x22,
        0x94 => 0xe7, 0x95 => 0xad, 0x96 => 0x35, 0x97 => 0x85,
        0x98 => 0xe2, 0x99 => 0xf9, 0x9a => 0x37, 0x9b => 0xe8,
        0x9c => 0x1c, 0x9d => 0x75, 0x9e => 0xdf, 0x9f => 0x6e,
        0xa0 => 0x47, 0xa1 => 0xf1, 0xa2 => 0x1a, 0xa3 => 0x71,
        0xa4 => 0x1d, 0xa5 => 0x29, 0xa6 => 0xc5, 0xa7 => 0x89,
        0xa8 => 0x6f, 0xa9 => 0xb7, 0xaa => 0x62, 0xab => 0x0e,
        0xac => 0xaa, 0xad => 0x18, 0xae => 0xbe, 0xaf => 0x1b,
        0xb0 => 0xfc, 0xb1 => 0x56, 0xb2 => 0x3e, 0xb3 => 0x4b,
        0xb4 => 0xc6, 0xb5 => 0xd2, 0xb6 => 0x79, 0xb7 => 0x20,
        0xb8 => 0x9a, 0xb9 => 0xdb, 0xba => 0xc0, 0xbb => 0xfe,
        0xbc => 0x78, 0xbd => 0xcd, 0xbe => 0x5a, 0xbf => 0xf4,
        0xc0 => 0x1f, 0xc1 => 0xdd, 0xc2 => 0xa8, 0xc3 => 0x33,
        0xc4 => 0x88, 0xc5 => 0x07, 0xc6 => 0xc7, 0xc7 => 0x31,
        0xc8 => 0xb1, 0xc9 => 0x12, 0xca => 0x10, 0xcb => 0x59,
        0xcc => 0x27, 0xcd => 0x80, 0xce => 0xec, 0xcf => 0x5f,
        0xd0 => 0x60, 0xd1 => 0x51, 0xd2 => 0x7f, 0xd3 => 0xa9,
        0xd4 => 0x19, 0xd5 => 0xb5, 0xd6 => 0x4a, 0xd7 => 0x0d,
        0xd8 => 0x2d, 0xd9 => 0xe5, 0xda => 0x7a, 0xdb => 0x9f,
        0xdc => 0x93, 0xdd => 0xc9, 0xde => 0x9c, 0xdf => 0xef,
        0xe0 => 0xa0, 0xe1 => 0xe0, 0xe2 => 0x3b, 0xe3 => 0x4d,
        0xe4 => 0xae, 0xe5 => 0x2a, 0xe6 => 0xf5, 0xe7 => 0xb0,
        0xe8 => 0xc8, 0xe9 => 0xeb, 0xea => 0xbb, 0xeb => 0x3c,
        0xec => 0x83, 0xed => 0x53, 0xee => 0x99, 0xef => 0x61,
        0xf0 => 0x17, 0xf1 => 0x2b, 0xf2 => 0x04, 0xf3 => 0x7e,
        0xf4 => 0xba, 0xf5 => 0x77, 0xf6 => 0xd6, 0xf7 => 0x26,
        0xf8 => 0xe1, 0xf9 => 0x69, 0xfa => 0x14, 0xfb => 0x63,
        0xfc => 0x55, 0xfd => 0x21, 0xfe => 0x0c, _ => 0x7d,
    }
}

// ─── Key expansion ─────────────────────────────────────────────────────────

/// The round constant of round `j`: x^(j-1) in GF(2^8).
pub open spec fn rcon_spec(j: nat) -> u8
    decreases j,
{
    if j <= 1 {
        1
    } else {
        xtime_spec(rcon_spec((j - 1) as nat))
    }
}

/// Word `i` (four bytes) of the expanded key of a 16-byte `key`.
pub open spec fn key_word(key: Seq<u8>, i: nat) -> Seq<u8>
    decreases i,
{
    if i < 4 {
        key.subrange(4 * i as int, 4 * i as int + 4)
    } else {
        let prev = key_word(key, (i - 1) as nat);
        let t = if i % 4 == 0 {
            seq![
                sbox_spec(prev[1]) ^ rcon_spec(i / 4),
                sbox_spec(prev[2]),
                sbox_spec(prev[3]),
                sbox_spec(prev[0]),
            ]
        } else {
            prev
        };
        let back = key_word(key, (i - 4) as nat);
        seq![back[0] ^ t[0], back[1] ^ t[1], back[2] ^ t[2], back[3] ^ t[3]]
    }
}

/// Byte `k` of the expanded key.
pub open spec fn key_byte(key: Seq<u8>, k: int) -> u8 {
    key_word(key, (k / 4) as nat)[k % 4]
}

/// The round key of round `r`: words 4r .. 4r + 3 of the expanded key.
pub open spec fn round_key(key: Seq<u8>, r: nat) -> Seq<u8> {
    Seq::new(16, |i: int| key_byte(key, 16 * r + i))
}

// ─── Round transformations ─────────────────────────────────────────────────

pub open spec fn add_round_key_spec(s: Seq<u8>, k: Seq<u8>) -> Seq<u8> {
    Seq::new(16, |i: int| s[i] ^ k[i])
}

pub open spec fn sub_bytes_spec(s: Seq<u8>) -> Seq<u8> {
    Seq::new(16, |i: int| sbox_spec(s[i]))
}

pub open spec fn inv_sub_bytes_spec(s: Seq<u8>) -> Seq<u8> {
    Seq::new(16, |i: int| inv_sbox_spec(s[i]))
}

/// Row `r` is rotated left by `r` columns.
pub open spec fn shift_rows_spec(s: Seq<u8>) -> Seq<u8> {
    Seq::new(16, |i: int| s[i % 4 + 4 * ((i / 4 + i % 4) % 4)])
}

/// Row `r` is rotated right by `r` columns.
pub open spec fn inv_shift_rows_spec(s: Seq<u8>) -> Seq<u8> {
    Seq::new(16, |i: int| s[i % 4 + 4 * ((i / 4 + 4 - i % 4) % 4)])
}

/// Row `r` of a column after MixColumns, from the column's rows `r`, `r + 1`,
/// `r + 2` and `r + 3` (modulo 4).
pub open spec fn mix_byte(a0: u8, a1: u8, a2: u8, a3: u8) -> u8 {
    gf_mul_spec(a0, 2) ^ gf_mul_spec(a1, 3) ^ a2 ^ a3
}

/// Row `r` of a column after InvMixColumns, from the column's rows `r`,
/// `r + 1`, `r + 2` and `r + 3` (modulo 4).
pub open spec fn inv_mix_byte(a0: u8, a1: u8, a2: u8, a3: u8) -> u8 {
    gf_mul_spec(a0, 0x0e) ^ gf_mul_spec(a1, 0x0b) ^ gf_mul_spec(a2, 0x0d) ^ gf_mul_spec(a3, 0x09)
}

/// Each column is multiplied by {03}x^3 + {01}x^2 + {01}x + {02}.
pub open spec fn mix_columns_spec(s: Seq<u8>) -> Seq<u8> {
    Seq::new(
        16,
        |i: int|
            {
                let c = i / 4 * 4;
                let r = i % 4;
                mix_byte(s[c + r], s[c + (r + 1) % 4], s[c + (r + 2) % 4], s[c + (r + 3) % 4])
            },
    )
}

/// Each column is multiplied by {0b}x^3 + {0d}x^2 + {09}x + {0e}.
pub open spec fn inv_mix_columns_spec(s: Seq<u8>) -> Seq<u8> {
    Seq::new(
        16,
        |i: int|
            {
                let c = i / 4 * 4;
                let r = i % 4;
                inv_mix_byte(s[c + r], s[c + (r + 1) % 4], s[c + (r + 2) % 4], s[c + (r + 3) % 4])
            },
    )
}

/// Rounds 1 ..= n of the cipher applied to `s`.
pub open spec fn cipher_rounds(s: Seq<u8>, key: Seq<u8>, n: nat) -> Seq<u8>
    decreases n,
{
    if n == 0 {
        s
    } else {
        add_round_key_spec(
            mix_columns_spec(shift_rows_spec(sub_bytes_spec(cipher_rounds(s, key, (n - 1) as nat)))),
            round_key(key, n),
        )
    }
}

/// AES-128 encryption of one block.
pub open spec fn aes_encrypt(key: Seq<u8>, input: Seq<u8>) -> Seq<u8> {
    add_round_key_spec(
        shift_rows_spec(
            sub_bytes_spec(cipher_rounds(add_round_key_spec(input, round_key(key, 0)), key, 9)),
        ),
        round_key(key, 10),
    )
}

/// Rounds 9, 8, ..., 10 - n of the inverse cipher applied to `s`.
pub open spec fn inv_cipher_rounds(s: Seq<u8>, key: Seq<u8>, n: nat) -> Seq<u8>
    decreases n,
{
    if n == 0 {
        s
    } else {
        inv_mix_columns_spec(
            add_round_key_spec(
                inv_sub_bytes_spec(inv_shift_rows_spec(inv_cipher_rounds(s, key, (n - 1) as nat))),
                round_key(key, (10 - n) as nat),
            ),
        )
    }
}

/// AES-128 decryption of one block (the inverse cipher).
pub open spec fn aes_decrypt(key: Seq<u8>, input: Seq<u8>) -> Seq<u8> {
    add_round_key_spec(
        inv_sub_bytes_spec(
            inv_shift_rows_spec(
                inv_cipher_rounds(add_round_key_spec(input, round_key(key, 10)), key, 9),
            ),
        ),
        round_key(key, 0),
    )
}

// ─── Decryption undoes encryption ──────────────────────────────────────────

#[verifier::rlimit(40)]
proof fn lemma_inv_sbox_byte(b: u8)
    by (bit_vector)
    ensures
        inv_sbox_spec(sbox_spec(b)) == b,
{
}

proof fn lemma_xor_cancel(a: u8, k: u8)
    by (bit_vector)
    ensures
        (a ^ k) ^ k == a,
{
}

proof fn lemma_inv_mix_column_bits(a0: u8, a1: u8, a2: u8, a3: u8)
    by (bit_vector)
    ensures
        ({
            let m0 = gf_mul_bits(a0, 2, 8) ^ gf_mul_bits(a1, 3, 8) ^ a2 ^ a3;
            let m1 = gf_mul_bits(a1, 2, 8) ^ gf_mul_bits(a2, 3, 8) ^ a3 ^ a0;
            let m2 = gf_mul_bits(a2, 2, 8) ^ gf_mul_bits(a3, 3, 8) ^ a0 ^ a1;
            let m3 = gf_mul_bits(a3, 2, 8) ^ gf_mul_bits(a0, 3, 8) ^ a1 ^ a2;
            gf_mul_bits(m0, 0x0e, 8) ^ gf_mul_bits(m1, 0x0b, 8) ^ gf_mul_bits(m2, 0x0d, 8)
                ^ gf_mul_bits(m3, 0x09, 8) == a0
        }),
{
}

proof fn lemma_inv_mix_column(a0: u8, a1: u8, a2: u8, a3: u8)
    ensures
        inv_mix_byte(
            mix_byte(a0, a1, a2, a3),
            mix_byte(a1, a2, a3, a0),
            mix_byte(a2, a3, a0, a1),
            mix_byte(a3, a0, a1, a2),
        ) == a0,
{
    reveal(gf_mul_spec);
    lemma_inv_mix_column_bits(a0, a1, a2, a3);
}

proof fn lemma_add_round_key_twice(s: Seq<u8>, k: Seq<u8>)
    requires
        s.len() == 16,
    ensures
        add_round_key_spec(add_round_key_spec(s, k), k) == s,
{
    assert forall|i: int| 0 <= i < 16 implies add_round_key_spec(add_round_key_spec(s, k), k)[i]
        == s[i] by {
        lemma_xor_cancel(s[i], k[i]);
    }
    assert(add_round_key_spec(add_round_key_spec(s, k), k) =~= s);
}

proof fn lemma_sub_bytes_inverse(s: Seq<u8>)
    requires
        s.len() == 16,
    ensures
        inv_sub_bytes_spec(sub_bytes_spec(s)) == s,
{
    assert forall|i: int| 0 <= i < 16 implies inv_sub_bytes_spec(sub_bytes_spec(s))[i] == s[i] by {
        lemma_inv_sbox_byte(s[i]);
    }
    assert(inv_sub_bytes_spec(sub_bytes_spec(s)) =~= s);
}

proof fn lemma_shift_rows_inverse(s: Seq<u8>)
    requires
        s.len() == 16,
    ensures
        inv_shift_rows_spec(shift_rows_spec(s)) == s,
{
    assert forall|i: int| 0 <= i < 16 implies inv_shift_rows_spec(shift_rows_spec(s))[i] == s[i] by {
        let j = i % 4 + 4 * ((i / 4 + 4 - i % 4) % 4);
        assert(0 <= j < 16);
        assert(j % 4 + 4 * ((j / 4 + j % 4) % 4) == i);
    }
    assert(inv_shift_rows_spec(shift_rows_spec(s)) =~= s);
}

proof fn lemma_mix_columns_inverse(s: Seq<u8>)
    requires
        s.len() == 16,
    ensures
        inv_mix_columns_spec(mix_columns_spec(s)) == s,
{
    let m = mix_columns_spec(s);
    assert forall|i: int| 0 <= i < 16 implies inv_mix_columns_spec(m)[i] == s[i] by {
        let c = i / 4 * 4;
        let r = i % 4;
        let a0 = s[c + r];
        let a1 = s[c + (r + 1) % 4];
        let a2 = s[c + (r + 2) % 4];
        let a3 = s[c + (r + 3) % 4];
        assert(m[c + r] == mix_byte(a0, a1, a2, a3));
        assert(m[c + (r + 1) % 4] == mix_byte(a1, a2, a3, a0));
        assert(m[c + (r + 2) % 4] == mix_byte(a2, a3, a0, a1));
        assert(m[c + (r + 3) % 4] == mix_byte(a3, a0, a1, a2));
        lemma_inv_mix_column(a0, a1, a2, a3);
    }
    assert(inv_mix_columns_spec(m) =~= s);
}

proof fn lemma_inv_cipher_rounds(key: Seq<u8>, s0: Seq<u8>, n: nat)
    requires
        s0.len() == 16,
        n <= 9,
    ensures
        inv_cipher_rounds(shift_rows_spec(sub_bytes_spec(cipher_rounds(s0, key, 9))), key, n)
            == shift_rows_spec(sub_bytes_spec(cipher_rounds(s0, key, (9 - n) as nat))),
    decreases n,
{
    if n > 0 {
        lemma_inv_cipher_rounds(key, s0, (n - 1) as nat);
        let c = cipher_rounds(s0, key, (10 - n) as nat);
        let prev = cipher_rounds(s0, key, (9 - n) as nat);
        let inner = mix_columns_spec(shift_rows_spec(sub_bytes_spec(prev)));
        let k = round_key(key, (10 - n) as nat);
        assert(c == add_round_key_spec(inner, k));
        assert(prev.len() == 16);
        lemma_shift_rows_inverse(sub_bytes_spec(c));
        lemma_sub_bytes_inverse(c);
        lemma_add_round_key_twice(inner, k);
        lemma_mix_columns_inverse(shift_rows_spec(sub_bytes_spec(prev)));
    }
}

/// Decryption undoes encryption: for every key and every 16-byte block, the
/// inverse cipher gives back the block the cipher was applied to.
pub proof fn lemma_decrypt_inverts_encrypt(key: Seq<u8>, block: Seq<u8>)
    requires
        block.len() == 16,
    ensures
        aes_decrypt(key, aes_encrypt(key, block)) == block,
{
    let s0 = add_round_key_spec(block, round_key(key, 0));
    let c9 = cipher_rounds(s0, key, 9);
    let t = shift_rows_spec(sub_bytes_spec(c9));
    lemma_add_round_key_twice(t, round_key(key, 10));
    lemma_inv_cipher_rounds(key, s0, 9);
    lemma_shift_rows_inverse(sub_bytes_spec(s0));
    lemma_sub_bytes_inverse(s0);
    lemma_add_round_key_twice(block, round_key(key, 0));
}

// ─── Executable ────────────────────────────────────────────────────────────

fn xtime(b: u8) -> (r: u8)
    ensures
        r == xtime_spec(b),
{
    (b << 1u8) ^ (if b & 0x80 != 0 {
        0x1bu8
    } else {
        0u8
    })
}

fn gf_mul_rec(a: u8, b: u8, n: u8) -> (r: u8)
    ensures
        r == gf_mul_bits(a, b, n as nat),
    decreases n,
{
    if n == 0 {
        0
    } else {
        gf_mul_rec(xtime(a), b >> 1u8, n - 1) ^ (if b & 1 == 1 {
            a
        } else {
            0u8
        })
    }
}

fn gf_mul(a: u8, b: u8) -> (r: u8)
    ensures
        r == gf_mul_spec(a, b),
{
    proof {
        reveal(gf_mul_spec);
    }
    gf_mul_rec(a, b, 8)
}

fn sbox(b: u8) -> (r: u8)
    ensures
        r == sbox_spec(b),
{
    match b {
        0x00 => 0x63, 0x01 => 0x7c, 0x02 => 0x77, 0x03 => 0x7b,
        0x04 => 0xf2, 0x05 => 0x6b, 0x06 => 0x6f, 0x07 => 0xc5,
        0x08 => 0x30, 0x09 => 0x01, 0x0a => 0x67, 0x0b => 0x2b,
        0x0c => 0xfe, 0x0d => 0xd7, 0x0e => 0xab, 0x0f => 0x76,
        0x10 => 0xca, 0x11 => 0x82, 0x12 => 0xc9, 0x13 => 0x7d,
        0x14 => 0xfa, 0x15 => 0x59, 0x16 => 0x47, 0x17 => 0xf0,
        0x18 => 0xad, 0x19 => 0xd4, 0x1a => 0xa2, 0x1b => 0xaf,
        0x1c => 0x9c, 0x1d => 0xa4, 0x1e => 0x72, 0x1f => 0xc0,
        0x20 => 0xb7, 0x21 => 0xfd, 0x22 => 0x93, 0x23 => 0x26,
        0x24 => 0x36, 0x25 => 0x3f, 0x26 => 0xf7, 0x27 => 0xcc,
        0x28 => 0x34, 0x29 => 0xa5, 0x2a => 0xe5, 0x2b => 0xf1,
        0x2c => 0x71, 0x2d => 0xd8, 0x2e => 0x31, 0x2f => 0x15,
        0x30 => 0x04, 0x31 => 0xc7, 0x32 => 0x23, 0x33 => 0xc3,
        0x34 => 0x18, 0x35 => 0x96, 0x36 => 0x05, 0x37 => 0x9a,
        0x38 => 0x07, 0x39 => 0x12, 0x3a => 0x80, 0x3b => 0xe2,
        0x3c => 0xeb, 0x3d => 0x27, 0x3e => 0xb2, 0x3f => 0x75,
        0x40 => 0x09, 0x41 => 0x83, 0x42 => 0x2c, 0x43 => 0x1a,
        0x44 => 0x1b, 0x45 => 0x6e, 0x46 => 0x5a, 0x47 => 0xa0,
        0x48 => 0x52, 0x49 => 0x3b, 0x4a => 0xd6, 0x4b => 0xb3,
        0x4c => 0x29, 0x4d => 0xe3, 0x4e => 0x2f, 0x4f => 0x84,
        0x50 => 0x53, 0x51 => 0xd1, 0x52 => 0x00, 0x53 => 0xed,
        0x54 => 0x20, 0x55 => 0xfc, 0x56 => 0xb1, 0x57 => 0x5b,
        0x58 => 0x6a, 0x59 => 0xcb, 0x5a => 0xbe, 0x5b => 0x39,
        0x5c => 0x4a, 0x5d => 0x4c, 0x5e => 0x58, 0x5f => 0xcf,
        0x60 => 0xd0, 0x61 => 0xef, 0x62 => 0xaa, 0x63 => 0xfb,
        0x64 => 0x43, 0x65 => 0x4d, 0x66 => 0x33, 0x67 => 0x85,
        0x68 => 0x45, 0x69 => 0xf9, 0x6a => 0x02, 0x6b => 0x7f,
        0x6c => 0x50, 0x6d => 0x3c, 0x6e => 0x9f, 0x6f => 0xa8,
        0x70 => 0x51, 0x71 => 0xa3, 0x72 => 0x40, 0x73 => 0x8f,
        0x74 => 0x92, 0x75 => 0x9d, 0x76 => 0x38, 0x77 => 0xf5,
        0x78 => 0xbc, 0x79 => 0xb6, 0x7a => 0xda, 0x7b => 0x21,
        0x7c => 0x10, 0x7d => 0xff, 0x7e => 0xf3, 0x7f => 0xd2,
        0x80 => 0xcd, 0x81 => 0x0c, 0x82 => 0x13, 0x83 => 0xec,
        0x84 => 0x5f, 0x85 => 0x97, 0x86 => 0x44, 0x87 => 0x17,
        0x88 => 0xc4, 0x89 => 0xa7, 0x8a => 0x7e, 0x8b => 0x3d,
        0x8c => 0x64, 0x8d => 0x5d, 0x8e => 0x19, 0x8f => 0x73,
        0x90 => 0x60, 0x91 => 0x81, 0x92 => 0x4f, 0x93 => 0xdc,
        0x94 => 0x22, 0x95 => 0x2a, 0x96 => 0x90, 0x97 => 0x88,
        0x98 => 0x46, 0x99 => 0xee, 0x9a => 0xb8, 0x9b => 0x14,
        0x9c => 0xde, 0x9d => 0x5e, 0x9e => 0x0b, 0x9f => 0xdb,
        0xa0 => 0xe0, 0xa1 => 0x32, 0xa2 => 0x3a, 0xa3 => 0x0a,
        0xa4 => 0x49, 0xa5 => 0x06, 0xa6 => 0x24, 0xa7 => 0x5c,
        0xa8 => 0xc2, 0xa9 => 0xd3, 0xaa => 0xac, 0xab => 0x62,
        0xac => 0x91, 0xad => 0x95, 0xae => 0xe4, 0xaf => 0x79,
        0xb0 => 0xe7, 0xb1 => 0xc8, 0xb2 => 0x37, 0xb3 => 0x6d,
        0xb4 => 0x8d, 0xb5 => 0xd5, 0xb6 => 0x4e, 0xb7 => 0xa9,
        0xb8 => 0x6c, 0xb9 => 0x56, 0xba => 0xf4, 0xbb => 0xea,
        0xbc => 0x65, 0xbd => 0x7a, 0xbe => 0xae, 0xbf => 0x08,
        0xc0 => 0xba, 0xc1 => 0x78, 0xc2 => 0x25, 0xc3 => 0x2e,
        0xc4 => 0x1c, 0xc5 => 0xa6, 0xc6 => 0xb4, 0xc7 => 0xc6,
        0xc8 => 0xe8, 0xc9 => 0xdd, 0xca => 0x74, 0xcb => 0x1f,
        0xcc => 0x4b, 0xcd => 0xbd, 0xce => 0x8b, 0xcf => 0x8a,
        0xd0 => 0x70, 0xd1 => 0x3e, 0xd2 => 0xb5, 0xd3 => 0x66,
        0xd4 => 0x48, 0xd5 => 0x03, 0xd6 => 0xf6, 0xd7 => 0x0e,
        0xd8 => 0x61, 0xd9 => 0x35, 0xda => 0x57, 0xdb => 0xb9,
        0xdc => 0x86, 0xdd => 0xc1, 0xde => 0x1d, 0xdf => 0x9e,
        0xe0 => 0xe1, 0xe1 => 0xf8, 0xe2 => 0x98, 0xe3 => 0x11,
        0xe4 => 0x69, 0xe5 => 0xd9, 0xe6 => 0x8e, 0xe7 => 0x94,
        0xe8 => 0x9b, 0xe9 => 0x1e, 0xea => 0x87, 0xeb => 0xe9,
        0xec => 0xce, 0xed => 0x55, 0xee => 0x28, 0xef => 0xdf,
        0xf0 => 0x8c, 0xf1 => 0xa1, 0xf2 => 0x89, 0xf3 => 0x0d,
        0xf4 => 0xbf, 0xf5 => 0xe6, 0xf6 => 0x42, 0xf7 => 0x68,
        0xf8 => 0x41, 0xf9 => 0x99, 0xfa => 0x2d, 0xfb => 0x0f,
        0xfc => 0xb0, 0xfd => 0x54, 0xfe => 0xbb, _ => 0x16,
    }
}

fn inv_sbox(b: u8) -> (r: u8)
    ensures
        r == inv_sbox_spec(b),
{
    match b {
        0x00 => 0x52, 0x01 => 0x09, 0x02 => 0x6a, 0x03 => 0xd5,
        0x04 => 0x30, 0x05 => 0x36, 0x06 => 0xa5, 0x07 => 0x38,
        0x08 => 0xbf, 0x09 => 0x40, 0x0a => 0xa3, 0x0b => 0x9e,
        0x0c => 0x81, 0x0d => 0xf3, 0x0e => 0xd7, 0x0f => 0xfb,
        0x10 => 0x7c, 0x11 => 0xe3, 0x12 => 0x39, 0x13 => 0x82,
        0x14 => 0x9b, 0x15 => 0x2f, 0x16 => 0xff, 0x17 => 0x87,
        0x18 => 0x34, 0x19 => 0x8e, 0x1a => 0x43, 0x1b => 0x44,
        0x1c => 0xc4, 0x1d => 0xde, 0x1e => 0xe9, 0x1f => 0xcb,
        0x20 => 0x54, 0x21 => 0x7b, 0x22 => 0x94, 0x23 => 0x32,
        0x24 => 0xa6, 0x25 => 0xc2, 0x26 => 0x23, 0x27 => 0x3d,
        0x28 => 0xee, 0x29 => 0x4c, 0x2a => 0x95, 0x2b => 0x0b,
        0x2c => 0x42, 0x2d => 0xfa, 0x2e => 0xc3, 0x2f => 0x4e,
        0x30 => 0x08, 0x31 => 0x2e, 0x32 => 0xa1, 0x33 => 0x66,
        0x34 => 0x28, 0x35 => 0xd9, 0x36 => 0x24, 0x37 => 0xb2,
        0x38 => 0x76, 0x39 => 0x5b, 0x3a => 0xa2, 0x3b => 0x49,
        0x3c => 0x6d, 0x3d => 0x8b, 0x3e => 0xd1, 0x3f => 0x25,
        0x40 => 0x72, 0x41 => 0xf8, 0x42 => 0xf6, 0x43 => 0x64,
        0x44 => 0x86, 0x45 => 0x68, 0x46 => 0x98, 0x47 => 0x16,
        0x48 => 0xd4, 0x49 => 0xa4, 0x4a => 0x5c, 0x4b => 0xcc,
        0x4c => 0x5d, 0x4d => 0x65, 0x4e => 0xb6, 0x4f => 0x92,
        0x50 => 0x6c, 0x51 => 0x70, 0x52 => 0x48, 0x53 => 0x50,
        0x54 => 0xfd, 0x55 => 0xed, 0x56 => 0xb9, 0x57 => 0xda,
        0x58 => 0x5e, 0x59 => 0x15, 0x5a => 0x46, 0x5b => 0x57,
        0x5c => 0xa7, 0x5d => 0x8d, 0x5e => 0x9d, 0x5f => 0x84,
        0x60 => 0x90, 0x61 => 0xd8, 0x62 => 0xab, 0x63 => 0x00,
        0x64 => 0x8c, 0x65 => 0xbc, 0x66 => 0xd3, 0x67 => 0x0a,
        0x68 => 0xf7, 0x69 => 0xe4, 0x6a => 0x58, 0x6b => 0x05,
        0x6c => 0xb8, 0x6d => 0xb3, 0x6e => 0x45, 0x6f => 0x06,
        0x70 => 0xd0, 0x71 => 0x2c, 0x72 => 0x1e, 0x73 => 0x8f,
        0x74 => 0xca, 0x75 => 0x3f, 0x76 => 0x0f, 0x77 => 0x02,
        0x78 => 0xc1, 0x79 => 0xaf, 0x7a => 0xbd, 0x7b => 0x03,
        0x7c => 0x01, 0x7d => 0x13, 0x7e => 0x8a, 0x7f => 0x6b,
        0x80 => 0x3a, 0x81 => 0x91, 0x82 => 0x11, 0x83 => 0x41,
        0x84 => 0x4f, 0x85 => 0x67, 0x86 => 0xdc, 0x87 => 0xea,
        0x88 => 0x97, 0x89 => 0xf2, 0x8a => 0xcf, 0x8b => 0xce,
        0x8c => 0xf0, 0x8d => 0xb4, 0x8e => 0xe6, 0x8f => 0x73,
        0x90 => 0x96, 0x91 => 0xac, 0x92 => 0x74, 0x93 => 0x22,
        0x94 => 0xe7, 0x95 => 0xad, 0x96 => 0x35, 0x97 => 0x85,
        0x98 => 0xe2, 0x99 => 0xf9, 0x9a => 0x37, 0x9b => 0xe8,
        0x9c => 0x1c, 0x9d => 0x75, 0x9e => 0xdf, 0x9f => 0x6e,
        0xa0 => 0x47, 0xa1 => 0xf1, 0xa2 => 0x1a, 0xa3 => 0x71,
        0xa4 => 0x1d, 0xa5 => 0x29, 0xa6 => 0xc5, 0xa7 => 0x89,
        0xa8 => 0x6f, 0xa9 => 0xb7, 0xaa => 0x62, 0xab => 0x0e,
        0xac => 0xaa, 0xad => 0x18, 0xae => 0xbe, 0xaf => 0x1b,
        0xb0 => 0xfc, 0xb1 => 0x56, 0xb2 => 0x3e, 0xb3 => 0x4b,
        0xb4 => 0xc6, 0xb5 => 0xd2, 0xb6 => 0x79, 0xb7 => 0x20,
        0xb8 => 0x9a, 0xb9 => 0xdb, 0xba => 0xc0, 0xbb => 0xfe,
        0xbc => 0x78, 0xbd => 0xcd, 0xbe => 0x5a, 0xbf => 0xf4,
        0xc0 => 0x1f, 0xc1 => 0xdd, 0xc2 => 0xa8, 0xc3 => 0x33,
        0xc4 => 0x88, 0xc5 => 0x07, 0xc6 => 0xc7, 0xc7 => 0x31,
        0xc8 => 0xb1, 0xc9 => 0x12, 0xca => 0x10, 0xcb => 0x59,
        0xcc => 0x27, 0xcd => 0x80, 0xce => 0xec, 0xcf => 0x5f,
        0xd0 => 0x60, 0xd1 => 0x51, 0xd2 => 0x7f, 0xd3 => 0xa9,
        0xd4 => 0x19, 0xd5 => 0xb5, 0xd6 => 0x4a, 0xd7 => 0x0d,
        0xd8 => 0x2d, 0xd9 => 0xe5, 0xda => 0x7a, 0xdb => 0x9f,
        0xdc => 0x93, 0xdd => 0xc9, 0xde => 0x9c, 0xdf => 0xef,
        0xe0 => 0xa0, 0xe1 => 0xe0, 0xe2 => 0x3b, 0xe3 => 0x4d,
        0xe4 => 0xae, 0xe5 => 0x2a, 0xe6 => 0xf5, 0xe7 => 0xb0,
        0xe8 => 0xc8, 0xe9 => 0xeb, 0xea => 0xbb, 0xeb => 0x3c,
        0xec => 0x83, 0xed => 0x53, 0xee => 0x99, 0xef => 0x61,
        0xf0 => 0x17, 0xf1 => 0x2b, 0xf2 => 0x04, 0xf3 => 0x7e,
        0xf4 => 0xba, 0xf5 => 0x77, 0xf6 => 0xd6, 0xf7 => 0x26,
        0xf8 => 0xe1, 0xf9 => 0x69, 0xfa => 0x14, 0xfb => 0x63,
        0xfc => 0x55, 0xfd => 0x21, 0xfe => 0x0c, _ => 0x7d,
    }
}

fn rcon(j: usize) -> (r: u8)
    requires
        j <= 10,
    ensures
        r == rcon_spec(j as nat),
{
    if j <= 1 {
        return 1;
    }
    let mut r: u8 = 1;
    let mut k: usize = 1;
    while k < j
        invariant
            1 <= k <= j <= 10,
            r == rcon_spec(k as nat),
        decreases j - k,
    {
        r = xtime(r);
        k = k + 1;
    }
    r
}

proof fn lemma_key_byte(key: Seq<u8>, j: int, b: int)
    requires
        0 <= j,
        0 <= b < 4,
    ensures
        key_byte(key, 4 * j + b) == key_word(key, j as nat)[b],
{
    assert((4 * j + b) / 4 == j && (4 * j + b) % 4 == b) by (nonlinear_arith)
        requires
            0 <= j,
            0 <= b < 4,
    ;
}

/// Word `j` of the expanded key, from the `4 * j` bytes expanded so far.
fn next_word(w: &Vec<u8>, j: usize, key: &[u8; 16]) -> (word: [u8; 4])
    requires
        j < 44,
        w@.len() == 4 * j,
        forall|k: int| 0 <= k < 4 * j ==> #[trigger] w@[k] == key_byte(key@, k),
    ensures
        word@ == key_word(key@, j as nat),
{
    if j < 4 {
        let word = [key[4 * j], key[4 * j + 1], key[4 * j + 2], key[4 * j + 3]];
        assert(word@ =~= key_word(key@, j as nat));
        word
    } else {
        let p = 4 * (j - 1);
        let q = 4 * (j - 4);
        let prev = [w[p], w[p + 1], w[p + 2], w[p + 3]];
        let back = [w[q], w[q + 1], w[q + 2], w[q + 3]];
        proof {
            assert forall|b: int| 0 <= b < 4 implies prev@[b] == key_word(key@, (j - 1) as nat)[b]
                && back@[b] == key_word(key@, (j - 4) as nat)[b] by {
                lemma_key_byte(key@, j - 1, b);
                lemma_key_byte(key@, j - 4, b);
                assert(w@[p + b] == key_byte(key@, p + b));
                assert(w@[q + b] == key_byte(key@, q + b));
            }
        }
        let t = if j % 4 == 0 {
            [sbox(prev[1]) ^ rcon(j / 4), sbox(prev[2]), sbox(prev[3]), sbox(prev[0])]
        } else {
            prev
        };
        let word = [back[0] ^ t[0], back[1] ^ t[1], back[2] ^ t[2], back[3] ^ t[3]];
        assert(word@ =~= key_word(key@, j as nat));
        word
    }
}

/// The 176 bytes of the expanded key.
fn expand_key(key: &[u8; 16]) -> (w: Vec<u8>)
    ensures
        w@.len() == 176,
        forall|k: int| 0 <= k < 176 ==> #[trigger] w@[k] == key_byte(key@, k),
{
    let mut w: Vec<u8> = Vec::new();
    let mut j: usize = 0;
    while j < 44
        invariant
            j <= 44,
            w@.len() == 4 * j,
            forall|k: int| 0 <= k < 4 * j ==> #[trigger] w@[k] == key_byte(key@, k),
        decreases 44 - j,
    {
        let word = next_word(&w, j, key);
        w.push(word[0]);
        w.push(word[1]);
        w.push(word[2]);
        w.push(word[3]);
        proof {
            assert forall|k: int| 0 <= k < 4 * (j + 1) implies #[trigger] w@[k] == key_byte(key@, k) by {
                if k >= 4 * j {
                    lemma_key_byte(key@, j as int, k - 4 * j);
                }
            }
        }
        j = j + 1;
    }
    w
}

fn add_round_key(s: &[u8; 16], w: &Vec<u8>, round: usize) -> (r: [u8; 16])
    requires
        w@.len() == 176,
        round <= 10,
    ensures
        r@ == Seq::new(16, |i: int| s@[i] ^ w@[16 * round + i]),
{
    let mut r = [0u8; 16];
    let mut i: usize = 0;
    while i < 16
        invariant
            w@.len() == 176,
            round <= 10,
            i <= 16,
            forall|k: int| 0 <= k < i ==> r@[k] == s@[k] ^ w@[16 * round + k],
        decreases 16 - i,
    {
        r[i] = s[i] ^ w[16 * round + i];
        i = i + 1;
    }
    assert(r@ =~= Seq::new(16, |i: int| s@[i] ^ w@[16 * round + i]));
    r
}

fn sub_bytes(s: &[u8; 16]) -> (r: [u8; 16])
    ensures
        r@ == sub_bytes_spec(s@),
{
    let mut r = [0u8; 16];
    let mut i: usize = 0;
    while i < 16
        invariant
            i <= 16,
            forall|k: int| 0 <= k < i ==> r@[k] == sbox_spec(s@[k]),
        decreases 16 - i,
    {
        r[i] = sbox(s[i]);
        i = i + 1;
    }
    assert(r@ =~= sub_bytes_spec(s@));
    r
}

fn inv_sub_bytes(s: &[u8; 16]) -> (r: [u8; 16])
    ensures
        r@ == inv_sub_bytes_spec(s@),
{
    let mut r = [0u8; 16];
    let mut i: usize = 0;
    while i < 16
        invariant
            i <= 16,
            forall|k: int| 0 <= k < i ==> r@[k] == inv_sbox_spec(s@[k]),
        decreases 16 - i,
    {
        r[i] = inv_sbox(s[i]);
        i = i + 1;
    }
    assert(r@ =~= inv_sub_bytes_spec(s@));
    r
}

fn shift_rows(s: &[u8; 16]) -> (r: [u8; 16])
    ensures
        r@ == shift_rows_spec(s@),
{
    let mut r = [0u8; 16];
    let mut i: usize = 0;
    while i < 16
        invariant
            i <= 16,
            forall|k: int| 0 <= k < i ==> r@[k] == s@[k % 4 + 4 * ((k / 4 + k % 4) % 4)],
        decreases 16 - i,
    {
        r[i] = s[i % 4 + 4 * ((i / 4 + i % 4) % 4)];
        i = i + 1;
    }
    assert(r@ =~= shift_rows_spec(s@));
    r
}

fn inv_shift_rows(s: &[u8; 16]) -> (r: [u8; 16])
    ensures
        r@ == inv_shift_rows_spec(s@),
{
    let mut r = [0u8; 16];
    let mut i: usize = 0;
    while i < 16
        invariant
            i <= 16,
            forall|k: int| 0 <= k < i ==> r@[k] == s@[k % 4 + 4 * ((k / 4 + 4 - k % 4) % 4)],
        decreases 16 - i,
    {
        r[i] = s[i % 4 + 4 * ((i / 4 + 4 - i % 4) % 4)];
        i = i + 1;
    }
    assert(r@ =~= inv_shift_rows_spec(s@));
    r
}

fn mix_columns(s: &[u8; 16]) -> (r: [u8; 16])
    ensures
        r@ == mix_columns_spec(s@),
{
    let mut r = [0u8; 16];
    let mut i: usize = 0;
    while i < 16
        invariant
            i <= 16,
            forall|k: int|
                0 <= k < i ==> r@[k] == #[trigger] mix_columns_spec(s@)[k],
        decreases 16 - i,
    {
        let c = i / 4 * 4;
        let row = i % 4;
        r[i] = gf_mul(s[c + row], 2) ^ gf_mul(s[c + (row + 1) % 4], 3) ^ s[c + (row + 2) % 4] ^ s[c
            + (row + 3) % 4];
        i = i + 1;
    }
    assert(r@ =~= mix_columns_spec(s@));
    r
}

fn inv_mix_columns(s: &[u8; 16]) -> (r: [u8; 16])
    ensures
        r@ == inv_mix_columns_spec(s@),
{
    let mut r = [0u8; 16];
    let mut i: usize = 0;
    while i < 16
        invariant
            i <= 16,
            forall|k: int|
                0 <= k < i ==> r@[k] == #[trigger] inv_mix_columns_spec(s@)[k],
        decreases 16 - i,
    {
        let c = i / 4 * 4;
        let row = i % 4;
        r[i] = gf_mul(s[c + row], 0x0e) ^ gf_mul(s[c + (row + 1) % 4], 0x0b) ^ gf_mul(
            s[c + (row + 2) % 4],
            0x0d,
        ) ^ gf_mul(s[c + (row + 3) % 4], 0x09);
        i = i + 1;
    }
    assert(r@ =~= inv_mix_columns_spec(s@));
    r
}

/// Round key `round` of the expanded key `w`, added to `s`.
fn add_key(s: &[u8; 16], w: &Vec<u8>, round: usize, key: &[u8; 16]) -> (r: [u8; 16])
    requires
        w@.len() == 176,
        forall|k: int| 0 <= k < 176 ==> #[trigger] w@[k] == key_byte(key@, k),
        round <= 10,
    ensures
        r@ == add_round_key_spec(s@, round_key(key@, round as nat)),
{
    let r = add_round_key(s, w, round);
    assert(r@ =~= add_round_key_spec(s@, round_key(key@, round as nat)));
    r
}

/// Encrypt `block` in place with the 128-bit `key`.
pub fn encrypt_block(block: &mut [u8; 16], key: &[u8; 16])
    ensures
        final(block)@ == aes_encrypt(key@, old(block)@),
{
    let w = expand_key(key);
    let ghost s0 = add_round_key_spec(old(block)@, round_key(key@, 0));
    let mut s = add_key(block, &w, 0, key);
    let mut round: usize = 1;
    while round < 10
        invariant
            1 <= round <= 10,
            w@.len() == 176,
            forall|k: int| 0 <= k < 176 ==> #[trigger] w@[k] == key_byte(key@, k),
            s@ == cipher_rounds(s0, key@, (round - 1) as nat),
        decreases 10 - round,
    {
        let t = mix_columns(&shift_rows(&sub_bytes(&s)));
        s = add_key(&t, &w, round, key);
        round = round + 1;
    }
    let t = shift_rows(&sub_bytes(&s));
    *block = add_key(&t, &w, 10, key);
}

/// Decrypt `block` in place with the 128-bit `key` (the inverse cipher).
pub fn decrypt_block(block: &mut [u8; 16], key: &[u8; 16])
    ensures
        final(block)@ == aes_decrypt(key@, old(block)@),
{
    let w = expand_key(key);
    let ghost s0 = add_round_key_spec(old(block)@, round_key(key@, 10));
    let mut s = add_key(block, &w, 10, key);
    let mut n: usize = 1;
    while n < 10
        invariant
            1 <= n <= 10,
            w@.len() == 176,
            forall|k: int| 0 <= k < 176 ==> #[trigger] w@[k] == key_byte(key@, k),
            s@ == inv_cipher_rounds(s0, key@, (n - 1) as nat),
        decreases 10 - n,
    {
        let t = inv_sub_bytes(&inv_shift_rows(&s));
        let u = add_key(&t, &w, 10 - n, key);
        s = inv_mix_columns(&u);
        n = n + 1;
    }
    let t = inv_sub_bytes(&inv_shift_rows(&s));
    *block = add_key(&t, &w, 0, key);
}

} // verus!
