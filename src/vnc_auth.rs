//! VNC authentication (security type 2). The server sends a 16-byte
//! challenge; the viewer encrypts it with DES, as two 8-byte ECB blocks,
//! under the password whose bytes each have their bit order reversed.

use vstd::prelude::*;
use des::cipher::{BlockDecrypt, BlockEncrypt, KeyInit};

verus! {

/// DES encryption of an 8-byte block under an 8-byte key.
pub uninterp spec fn des_encrypt(key: Seq<u8>, block: Seq<u8>) -> Seq<u8>;

/// DES decryption of an 8-byte block under an 8-byte key.
pub uninterp spec fn des_decrypt(key: Seq<u8>, block: Seq<u8>) -> Seq<u8>;

/// Relies on `des::Des` (`KeyInit::new`, `BlockEncrypt::encrypt_block`): DES
/// encryption of one block; decrypting the result under the same key gives
/// the block back.
#[verifier::external_body]
fn des_encrypt_block(key: [u8; 8], block: [u8; 8]) -> (r: [u8; 8])
    ensures
        r@ == des_encrypt(key@, block@),
        des_decrypt(key@, r@) == block@,
{
    let cipher = des::Des::new(&key.into());
    let mut data = block.into();
    cipher.encrypt_block(&mut data);
    data.into()
}

/// Relies on `des::Des` (`KeyInit::new`, `BlockDecrypt::decrypt_block`): DES
/// decryption of one block; encrypting the result under the same key gives
/// the block back.
#[verifier::external_body]
fn des_decrypt_block(key: [u8; 8], block: [u8; 8]) -> (r: [u8; 8])
    ensures
        r@ == des_decrypt(key@, block@),
        des_encrypt(key@, r@) == block@,
{
    let cipher = des::Des::new(&key.into());
    let mut data = block.into();
    cipher.decrypt_block(&mut data);
    data.into()
}

/// `b` with its bit order reversed: bit 0 swaps with bit 7, 1 with 6, and so on.
pub open spec fn reverse_bits_spec(b: u8) -> u8 {
    ((b & 1) << 7) | ((b & 2) << 5) | ((b & 4) << 3) | ((b & 8) << 1) | ((b & 16) >> 1) | ((b & 32) >> 3) | ((b
        & 64) >> 5) | ((b & 128) >> 7)
}

pub fn reverse_bits(b: u8) -> (r: u8)
    ensures
        r == reverse_bits_spec(b),
{
    ((b & 1) << 7) | ((b & 2) << 5) | ((b & 4) << 3) | ((b & 8) << 1) | ((b & 16) >> 1) | ((b & 32) >> 3) | ((b
        & 64) >> 5) | ((b & 128) >> 7)
}

/// The DES key made from a VNC password.
pub open spec fn des_key(password: Seq<u8>) -> Seq<u8> {
    password.map_values(|b: u8| reverse_bits_spec(b))
}

/// The response a viewer sends for `challenge`.
pub open spec fn expected_response(password: Seq<u8>, challenge: Seq<u8>) -> Seq<u8> {
    des_encrypt(des_key(password), challenge.subrange(0, 8)) + des_encrypt(des_key(password), challenge.subrange(8, 16))
}

/// Whether the server accepts `response`: it decrypts, block by block, to
/// the challenge.
pub open spec fn response_accepted(password: Seq<u8>, challenge: Seq<u8>, response: Seq<u8>) -> bool {
    des_decrypt(des_key(password), response.subrange(0, 8)) + des_decrypt(des_key(password), response.subrange(8, 16))
        == challenge
}

fn des_key_of(password: &[u8; 8]) -> (r: [u8; 8])
    ensures
        r@ == des_key(password@),
{
    let mut key: [u8; 8] = [0u8; 8];
    let mut i: usize = 0;
    while i < 8
        invariant
            i <= 8,
            forall|j: int| 0 <= j < i ==> key@[j] == reverse_bits_spec(password@[j]),
        decreases 8 - i,
    {
        key[i] = reverse_bits(password[i]);
        i = i + 1;
    }
    assert(key@ =~= des_key(password@));
    key
}

fn block_at(bytes: &[u8], start: usize) -> (r: [u8; 8])
    requires
        start + 8 <= bytes@.len(),
    ensures
        r@ == bytes@.subrange(start as int, start + 8),
{
    let mut block: [u8; 8] = [0u8; 8];
    let len: usize = bytes.len();
    let mut i: usize = 0;
    while i < 8
        invariant
            i <= 8,
            len == bytes@.len(),
            start + 8 <= bytes@.len(),
            forall|j: int| 0 <= j < i ==> block@[j] == bytes@[start + j],
        decreases 8 - i,
    {
        block[i] = bytes[start + i];
        i = i + 1;
    }
    assert(block@ =~= bytes@.subrange(start as int, start + 8));
    block
}

/// Whether `response` answers `challenge` for the configured password.
pub fn vnc_auth_accepts(password: &[u8; 8], challenge: &[u8; 16], response: &[u8]) -> (r: bool)
    requires
        response@.len() == 16,
    ensures
        r == response_accepted(password@, challenge@, response@),
{
    let key = des_key_of(password);
    let first = des_decrypt_block(key, block_at(response, 0));
    let second = des_decrypt_block(key, block_at(response, 8));
    assert(first@ + second@ == des_decrypt(des_key(password@), response@.subrange(0, 8)) + des_decrypt(
        des_key(password@),
        response@.subrange(8, 16),
    ));
    let mut i: usize = 0;
    while i < 16
        invariant
            i <= 16,
            first@.len() == 8,
            second@.len() == 8,
            first@ + second@ == des_decrypt(des_key(password@), response@.subrange(0, 8)) + des_decrypt(
                des_key(password@),
                response@.subrange(8, 16),
            ),
            forall|j: int| 0 <= j < i ==> (first@ + second@)[j] == challenge@[j],
        decreases 16 - i,
    {
        let byte = if i < 8 { first[i] } else { second[i - 8] };
        if byte != challenge[i] {
            assert((first@ + second@)[i as int] != challenge@[i as int]);
            assert(first@ + second@ != challenge@);
            return false;
        }
        i = i + 1;
    }
    assert(first@ + second@ =~= challenge@);
    true
}

/// The response a viewer holding `password` sends for `challenge`; the
/// server accepts it.
pub fn vnc_auth_response(password: &[u8; 8], challenge: &[u8; 16]) -> (r: [u8; 16])
    ensures
        r@ == expected_response(password@, challenge@),
        response_accepted(password@, challenge@, r@),
{
    let key = des_key_of(password);
    let first = des_encrypt_block(key, block_at(challenge, 0));
    let second = des_encrypt_block(key, block_at(challenge, 8));
    let mut response: [u8; 16] = [0u8; 16];
    let mut i: usize = 0;
    while i < 16
        invariant
            i <= 16,
            first@.len() == 8,
            second@.len() == 8,
            forall|j: int| 0 <= j < i ==> response@[j] == (first@ + second@)[j],
        decreases 16 - i,
    {
        response[i] = if i < 8 { first[i] } else { second[i - 8] };
        i = i + 1;
    }
    assert(response@ =~= first@ + second@);
    assert(response@.subrange(0, 8) =~= first@);
    assert(response@.subrange(8, 16) =~= second@);
    assert(challenge@.subrange(0, 8) + challenge@.subrange(8, 16) =~= challenge@);
    response
}

} // verus!
