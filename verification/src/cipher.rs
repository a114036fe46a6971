use aes::cipher::{KeyIvInit, StreamCipher};
use vstd::prelude::*;

verus! {

/// Number of bytes in an initialization vector.
pub const IV_LEN: usize = 16;

/// The first `len` keystream bytes of AES-256 in counter mode with a 64-bit
/// big-endian counter, started from `iv` under `key`.
pub uninterp spec fn aes256_ctr64be_keystream(key: Seq<u8>, iv: Seq<u8>, len: nat) -> Seq<u8>;

/// Byte-wise exclusive-or of `data` with the pad that lies under it.
pub open spec fn xor_bytes(data: Seq<u8>, pad: Seq<u8>) -> Seq<u8>
    recommends
        data.len() <= pad.len(),
{
    Seq::new(data.len(), |i: int| data[i] ^ pad[i])
}

/// What the cipher engine makes of `data` under `key` and `iv`: the data
/// combined with a keystream of its own length.
pub open spec fn keystream_transform(data: Seq<u8>, key: Seq<u8>, iv: Seq<u8>) -> Seq<u8> {
    xor_bytes(data, aes256_ctr64be_keystream(key, iv, data.len()))
}

/// The initialization vector of every vault: sixteen zero bytes.
pub open spec fn zero_iv() -> Seq<u8> {
    Seq::new(IV_LEN as nat, |i: int| 0u8)
}

/// `data` with one bit of the byte at `at` inverted; `bit` counts from the
/// least significant bit.
pub open spec fn flip_bit(data: Seq<u8>, at: int, bit: u8) -> Seq<u8>
    recommends
        0 <= at < data.len(),
        bit < 8,
{
    data.update(at, data[at] ^ (1u8 << bit))
}

/// Runs `ctr::Ctr64BE<aes::Aes256>` from its start over a copy of `data`
/// (`KeyIvInit::new`, then `StreamCipher::apply_keystream`). Trusted: the
/// result is `data` exclusive-or'd byte by byte with the keystream that the
/// key and the IV determine, and that keystream is as long as the data. A
/// fresh cipher has 2^64 - 1 blocks left, so the call cannot run out.
#[verifier::external_body]
fn apply_keystream(key: &[u8; 32], iv: &[u8; 16], data: &[u8]) -> (out: Vec<u8>)
    ensures
        out@ == xor_bytes(data@, aes256_ctr64be_keystream(key@, iv@, data@.len())),
        out@.len() == aes256_ctr64be_keystream(key@, iv@, data@.len()).len(),
{
    let mut stream = ctr::Ctr64BE::<aes::Aes256>::new(&(*key).into(), &(*iv).into());
    let mut out = data.to_vec();
    stream.apply_keystream(&mut out);
    out
}

/// The all-zero initialization vector that every vault is written with.
pub fn fixed_iv() -> (iv: [u8; 16])
    ensures
        iv@ == zero_iv(),
{
    let iv: [u8; 16] = [0u8; 16];
    assert(iv@ =~= zero_iv());
    iv
}

/// The cipher engine: combines `data` with the keystream of `key` and `iv`,
/// which is exactly as long as the data. The same call encrypts and decrypts.
/// No integrity tag is made or checked.
pub fn transform(data: &[u8], key: &[u8; 32], iv: &[u8; 16]) -> (out: Vec<u8>)
    ensures
        out@ == keystream_transform(data@, key@, iv@),
        out@.len() == data@.len(),
        aes256_ctr64be_keystream(key@, iv@, data@.len()).len() == data@.len(),
{
    apply_keystream(key, iv, data)
}

/// The transform keeps the length of its input.
pub proof fn lemma_transform_keeps_length(data: Seq<u8>, key: Seq<u8>, iv: Seq<u8>)
    ensures
        keystream_transform(data, key, iv).len() == data.len(),
{
}

/// Under one key and one IV the transform undoes itself.
pub proof fn lemma_transform_is_involution(data: Seq<u8>, key: Seq<u8>, iv: Seq<u8>)
    ensures
        keystream_transform(keystream_transform(data, key, iv), key, iv) == data,
{
    let pad = aes256_ctr64be_keystream(key, iv, data.len());
    let once = keystream_transform(data, key, iv);
    let twice = keystream_transform(once, key, iv);
    assert forall|i: int| 0 <= i < data.len() implies twice[i] == data[i] by {
        let d = data[i];
        let p = pad[i];
        assert((d ^ p) ^ p == d) by (bit_vector);
    }
    assert(twice =~= data);
}

/// Inverting one bit of the input inverts the same bit of the output and
/// leaves every other bit as it was.
pub proof fn lemma_bit_flip_stays_in_place(
    data: Seq<u8>,
    key: Seq<u8>,
    iv: Seq<u8>,
    at: int,
    bit: u8,
)
    requires
        0 <= at < data.len(),
        bit < 8,
    ensures
        keystream_transform(flip_bit(data, at, bit), key, iv) == flip_bit(
            keystream_transform(data, key, iv),
            at,
            bit,
        ),
{
    let pad = aes256_ctr64be_keystream(key, iv, data.len());
    let d = data[at];
    let p = pad[at];
    assert((d ^ (1u8 << bit)) ^ p == (d ^ p) ^ (1u8 << bit)) by (bit_vector);
    assert(keystream_transform(flip_bit(data, at, bit), key, iv) =~= flip_bit(
        keystream_transform(data, key, iv),
        at,
        bit,
    ));
}

} // verus!
