//! Cryptographic primitives and utilities for side-channel testing.

use vstd::prelude::*;
use crate::crypto::aes::{aes_decrypt, aes_encrypt};
use crate::crypto::chacha::chacha20_xor;
use crate::crypto::sha256::{heapless_bytes, sha256};

pub mod aes;
pub mod chacha;
pub mod sha256;

verus! {

/// A cryptographic operation that can be run with a given key or with the
/// context's own.
pub trait CryptoPrimitive {
    type Input;
    type Output;
    type Key;

    /// Perform the operation on `input` with `key`.
    fn process(&self, input: &Self::Input, key: &Self::Key) -> Self::Output;

    /// Perform the operation with the context's own key.
    fn process_fixed_key(&self, input: &Self::Input) -> Self::Output;
}

/// AES-128 context for side-channel testing: a key and a direction.
pub struct Aes128Context {
    key: [u8; 16],
    encrypt: bool,
}

impl Aes128Context {
    /// The key of this context.
    pub closed spec fn spec_key(&self) -> Seq<u8> {
        self.key@
    }

    /// Whether this context encrypts (else it decrypts).
    pub closed spec fn spec_encrypts(&self) -> bool {
        self.encrypt
    }

    pub fn new_encrypt(key: [u8; 16]) -> (c: Self)
        ensures
            c.spec_key() == key@,
            c.spec_encrypts(),
    {
        Self { key, encrypt: true }
    }

    pub fn new_decrypt(key: [u8; 16]) -> (c: Self)
        ensures
            c.spec_key() == key@,
            !c.spec_encrypts(),
    {
        Self { key, encrypt: false }
    }
}

impl CryptoPrimitive for Aes128Context {
    type Input = [u8; 16];
    type Output = [u8; 16];
    type Key = [u8; 16];

    fn process(&self, input: &[u8; 16], key: &[u8; 16]) -> (output: [u8; 16])
        ensures
            output@ == if self.spec_encrypts() {
                aes_encrypt(key@, input@)
            } else {
                aes_decrypt(key@, input@)
            },
    {
        let mut output = *input;
        if self.encrypt {
            aes::encrypt_block(&mut output, key);
        } else {
            aes::decrypt_block(&mut output, key);
        }
        output
    }

    fn process_fixed_key(&self, input: &[u8; 16]) -> (output: [u8; 16])
        ensures
            output@ == if self.spec_encrypts() {
                aes_encrypt(self.spec_key(), input@)
            } else {
                aes_decrypt(self.spec_key(), input@)
            },
    {
        self.process(input, &self.key)
    }
}

/// SHA-256 context for side-channel testing. It holds no key.
pub struct Sha256Context;

impl CryptoPrimitive for Sha256Context {
    type Input = heapless::Vec<u8, 256>;
    type Output = [u8; 32];
    type Key = ();

    fn process(&self, input: &heapless::Vec<u8, 256>, _key: &()) -> (output: [u8; 32])
        ensures
            output@ == sha256(heapless_bytes(*input)),
    {
        sha256::hash(input)
    }

    fn process_fixed_key(&self, input: &heapless::Vec<u8, 256>) -> (output: [u8; 32])
        ensures
            output@ == sha256(heapless_bytes(*input)),
    {
        self.process(input, &())
    }
}

/// ChaCha20 context for side-channel testing.
pub struct ChaCha20Context {
    key: [u8; 32],
    nonce: [u8; 12],
    counter: u32,
}

impl ChaCha20Context {
    /// The key of this context.
    pub closed spec fn spec_key(&self) -> Seq<u8> {
        self.key@
    }

    /// The nonce of this context.
    pub closed spec fn spec_nonce(&self) -> Seq<u8> {
        self.nonce@
    }

    /// The block counter of this context.
    pub closed spec fn spec_counter(&self) -> u32 {
        self.counter
    }

    pub fn new(key: [u8; 32], nonce: [u8; 12], counter: u32) -> (c: Self)
        ensures
            c.spec_key() == key@,
            c.spec_nonce() == nonce@,
            c.spec_counter() == counter,
    {
        Self { key, nonce, counter }
    }
}

impl CryptoPrimitive for ChaCha20Context {
    type Input = [u8; 64];
    type Output = [u8; 64];
    type Key = [u8; 32];

    /// One block of the stream cipher under `key`, with this context's nonce
    /// and block counter.
    fn process(&self, input: &[u8; 64], key: &[u8; 32]) -> (output: [u8; 64])
        ensures
            output@ == chacha20_xor(key@, self.spec_nonce(), self.spec_counter(), input@),
    {
        let mut output = *input;
        chacha::chacha20_block(key, &self.nonce, self.counter, &mut output);
        output
    }

    fn process_fixed_key(&self, input: &[u8; 64]) -> (output: [u8; 64])
        ensures
            output@ == chacha20_xor(self.spec_key(), self.spec_nonce(), self.spec_counter(), input@),
    {
        self.process(input, &self.key)
    }
}

/// `subtle::ConstantTimeEq::ct_eq` on byte slices, turned into a `bool` with
/// `From<Choice> for bool`. In the crate's source the slice comparison yields
/// 1 exactly when the lengths agree and every byte pair is equal (a length
/// check, then an AND of per-byte comparisons), so the result is true exactly
/// when the slices hold the same bytes.
#[verifier::external_body]
fn subtle_ct_eq(a: &[u8], b: &[u8]) -> (r: bool)
    ensures
        r == (a@ == b@),
{
    subtle::ConstantTimeEq::ct_eq(a, b).into()
}

/// Constant-time comparison for side-channel resistant verification.
pub fn ct_eq(a: &[u8], b: &[u8]) -> (r: bool)
    ensures
        r == (a@ == b@),
{
    subtle_ct_eq(a, b)
}

/// A compiler fence (`std::sync::atomic::compiler_fence` with sequential
/// consistency), so the zeroing stores are not optimised away. It changes no
/// value, and nothing is claimed of it.
#[verifier::external_body]
fn compile_fence() {
    std::sync::atomic::compiler_fence(std::sync::atomic::Ordering::SeqCst);
}

/// Secure memory zeroization.
pub fn zeroize(data: &mut [u8])
    ensures
        final(data)@.len() == old(data)@.len(),
        forall|i: int| 0 <= i < final(data)@.len() ==> final(data)@[i] == 0,
{
    let n = data.len();
    let mut i: usize = 0;
    while i < n
        invariant
            n == data@.len(),
            n == old(data)@.len(),
            i <= n,
            forall|j: int| 0 <= j < i ==> data@[j] == 0,
        decreases n - i,
    {
        data[i] = 0;
        i = i + 1;
    }
    compile_fence();
}

} // verus!
