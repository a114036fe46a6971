use crate::cipher::{
    aes256_ctr64be_keystream, fixed_iv, flip_bit, keystream_transform, lemma_bit_flip_stays_in_place,
    lemma_transform_is_involution, transform, zero_iv,
};
use crate::error::VaultError;
use crate::kdf::{cyclic_key, derive_key};
use crate::keypair::{
    decode_keypair, encode_keypair, keypair_decoding, keypair_encoding, lemma_codec_round_trip,
    lemma_decoding_is_canonical, Keypair, KeypairView, ENCODED_LEN,
};
use crate::text::{
    base64_encode, base64_encoding, decode_text, is_base64_symbol, text_decoding,
};
use vstd::prelude::*;
use vstd::string::StringSliceAdditionalSpecFns;

verus! {

/// The ciphertext of a keypair under a password: its serialized form
/// combined with the keystream of the password's key and the zero IV.
pub open spec fn sealed_bytes(k: KeypairView, password: Seq<u8>) -> Seq<u8> {
    keystream_transform(keypair_encoding(k), cyclic_key(password), zero_iv())
}

/// The keypair that a ciphertext gives under a password, if the decrypted
/// bytes are the serialized form of one.
pub open spec fn opened_keypair(ciphertext: Seq<u8>, password: Seq<u8>) -> Option<KeypairView> {
    keypair_decoding(keystream_transform(ciphertext, cyclic_key(password), zero_iv()))
}

/// What is stored for a keypair under a password: the base64 text of its
/// ciphertext, and nothing else.
pub open spec fn stored_text(k: KeypairView, password: Seq<u8>) -> Seq<u8> {
    base64_encoding(sealed_bytes(k, password))
}

/// What loading makes of stored text under a password, step by step: the
/// text is decoded, the password is taken, the bytes are decrypted and
/// parsed. The first step that fails names the error.
pub open spec fn loaded_keypair(text: Seq<u8>, password: Seq<u8>) -> Result<
    KeypairView,
    VaultError,
> {
    match text_decoding(text) {
        None => Err(VaultError::TextDecode),
        Some(ciphertext) => if password.len() == 0 {
            Err(VaultError::EmptyPassword)
        } else {
            match opened_keypair(ciphertext, password) {
                None => Err(VaultError::Decode),
                Some(k) => Ok(k),
            }
        },
    }
}

/// Round trip: a keypair that is serialized, encrypted under a non-empty
/// password, decrypted under the same password and parsed comes back with
/// both halves byte for byte.
pub proof fn lemma_vault_round_trip(k: KeypairView, password: Seq<u8>)
    requires
        k.wf(),
        password.len() > 0,
    ensures
        opened_keypair(sealed_bytes(k, password), password) == Some(k),
{
    lemma_transform_is_involution(keypair_encoding(k), cyclic_key(password), zero_iv());
    lemma_codec_round_trip(k);
}

/// The ciphertext is exactly as long as the serialized keypair: the cipher
/// adds no padding, no nonce and no tag.
pub proof fn lemma_ciphertext_length(k: KeypairView, password: Seq<u8>)
    requires
        k.wf(),
    ensures
        sealed_bytes(k, password).len() == keypair_encoding(k).len(),
        sealed_bytes(k, password).len() == ENCODED_LEN,
{
    lemma_codec_round_trip(k);
}

/// Determinism: keys, ciphertexts and stored text are functions of the
/// keypair and the password alone, so equal inputs give equal bytes.
pub proof fn lemma_same_input_same_bytes(
    k1: KeypairView,
    k2: KeypairView,
    password1: Seq<u8>,
    password2: Seq<u8>,
)
    requires
        k1 == k2,
        password1 == password2,
    ensures
        cyclic_key(password1) == cyclic_key(password2),
        sealed_bytes(k1, password1) == sealed_bytes(k2, password2),
        stored_text(k1, password1) == stored_text(k2, password2),
{
}

/// Corruption: one inverted bit in a ciphertext inverts the same bit of the
/// decrypted bytes and no other. In the length tag it makes the bytes
/// unparseable; in the key bytes it gives the keypair with that one bit of
/// that half inverted. In neither case is anything detected by the cipher.
pub proof fn lemma_corruption_stays_in_place(
    k: KeypairView,
    password: Seq<u8>,
    at: int,
    bit: u8,
)
    requires
        k.wf(),
        0 <= at < ENCODED_LEN,
        bit < 8,
    ensures
        keystream_transform(
            flip_bit(sealed_bytes(k, password), at, bit),
            cyclic_key(password),
            zero_iv(),
        ) == flip_bit(keypair_encoding(k), at, bit),
        at < 8 ==> opened_keypair(flip_bit(sealed_bytes(k, password), at, bit), password)
            is None,
        8 <= at < 40 ==> opened_keypair(flip_bit(sealed_bytes(k, password), at, bit), password)
            == Some(KeypairView { secret: flip_bit(k.secret, at - 8, bit), public: k.public }),
        40 <= at ==> opened_keypair(flip_bit(sealed_bytes(k, password), at, bit), password)
            == Some(KeypairView { secret: k.secret, public: flip_bit(k.public, at - 40, bit) }),
{
    let key = cyclic_key(password);
    let plain = keypair_encoding(k);
    let sealed = sealed_bytes(k, password);
    lemma_codec_round_trip(k);
    lemma_transform_is_involution(plain, key, zero_iv());
    lemma_bit_flip_stays_in_place(sealed, key, zero_iv(), at, bit);
    let damaged = flip_bit(plain, at, bit);
    assert(keystream_transform(flip_bit(sealed, at, bit), key, zero_iv()) == damaged);
    let old_byte = plain[at];
    assert(old_byte ^ (1u8 << bit) != old_byte) by (bit_vector)
        requires
            bit < 8,
    ;
    if at < 8 {
        assert(damaged.subrange(0, 8)[at] != plain.subrange(0, 8)[at]);
    } else if at < 40 {
        assert(damaged.subrange(0, 8) =~= plain.subrange(0, 8));
        assert(damaged.subrange(8, 40) =~= flip_bit(k.secret, at - 8, bit));
        assert(damaged.subrange(40, 72) =~= k.public);
    } else {
        assert(damaged.subrange(0, 8) =~= plain.subrange(0, 8));
        assert(damaged.subrange(8, 40) =~= k.secret);
        assert(damaged.subrange(40, 72) =~= flip_bit(k.public, at - 40, bit));
    }
}

/// Damage to stored text: whatever has been changed in it, loading under the
/// password it was stored with ends in one of three ways. Text with no
/// decoding is `TextDecode`. Text whose decoding decrypts to no serialized
/// keypair is `Decode`. Otherwise a keypair is returned, and its serialized
/// form agrees with that of the stored keypair at every byte at which the
/// decoded text agrees with the stored ciphertext. Which bytes of the
/// decoding a changed symbol reaches is a matter of base64 and is not
/// stated here.
pub proof fn lemma_damage_reaches_no_other_byte(
    k: KeypairView,
    password: Seq<u8>,
    text: Seq<u8>,
)
    requires
        k.wf(),
        password.len() > 0,
    ensures
        match loaded_keypair(text, password) {
            Err(e) => if text_decoding(text) is None {
                e == VaultError::TextDecode
            } else {
                e == VaultError::Decode
            },
            Ok(r) => {
                &&& text_decoding(text) matches Some(ciphertext)
                &&& ciphertext.len() == ENCODED_LEN
                &&& r.wf()
                &&& forall|i: int|
                    0 <= i < ENCODED_LEN && ciphertext[i] == sealed_bytes(k, password)[i]
                        ==> #[trigger] keypair_encoding(r)[i] == keypair_encoding(k)[i]
            },
        },
{
    if let Ok(r) = loaded_keypair(text, password) {
        let ciphertext = text_decoding(text).unwrap();
        let key = cyclic_key(password);
        let plain = keystream_transform(ciphertext, key, zero_iv());
        lemma_decoding_is_canonical(plain);
        lemma_codec_round_trip(k);
        assert(keypair_encoding(r) == plain);
        assert forall|i: int|
            0 <= i < ENCODED_LEN && ciphertext[i] == sealed_bytes(
                k,
                password,
            )[i] implies #[trigger] keypair_encoding(r)[i] == keypair_encoding(k)[i] by {
            let b = keypair_encoding(k)[i];
            let p = aes256_ctr64be_keystream(key, zero_iv(), ENCODED_LEN as nat)[i];
            assert((b ^ p) ^ p == b) by (bit_vector);
        }
    }
}

/// Encrypts a keypair under a password. An empty password is refused; every
/// other password gives a ciphertext. The ciphertext is as long as the
/// serialized keypair, and `decrypt_keypair` gives the keypair back under the
/// same password.
pub fn encrypt_keypair(keypair: &Keypair, password: &str) -> (r: Result<Vec<u8>, VaultError>)
    ensures
        match r {
            Ok(ciphertext) => {
                &&& password.spec_bytes().len() > 0
                &&& ciphertext@ == sealed_bytes(keypair@, password.spec_bytes())
                &&& ciphertext@.len() == ENCODED_LEN
                &&& opened_keypair(ciphertext@, password.spec_bytes()) == Some(keypair@)
            },
            Err(e) => password.spec_bytes().len() == 0 && e == VaultError::EmptyPassword,
        },
{
    let key = match derive_key(password) {
        Ok(key) => key,
        Err(e) => {
            return Err(e);
        },
    };
    let iv = fixed_iv();
    let plain = match encode_keypair(keypair) {
        Ok(plain) => plain,
        Err(e) => {
            return Err(e);
        },
    };
    proof {
        lemma_vault_round_trip(keypair@, password.spec_bytes());
    }
    Ok(transform(plain.as_slice(), &key, &iv))
}

/// Decrypts a ciphertext under a password and parses the result. Nothing
/// tells a wrong password from damaged bytes: either gives `Decode` where
/// the decrypted bytes are no serialized keypair, and a wrong keypair where
/// they happen to be one.
pub fn decrypt_keypair(encrypted: &[u8], password: &str) -> (r: Result<Keypair, VaultError>)
    ensures
        match r {
            Ok(k) => password.spec_bytes().len() > 0 && opened_keypair(
                encrypted@,
                password.spec_bytes(),
            ) == Some(k@),
            Err(e) => if password.spec_bytes().len() == 0 {
                e == VaultError::EmptyPassword
            } else {
                e == VaultError::Decode && opened_keypair(encrypted@, password.spec_bytes())
                    is None
            },
        },
{
    let key = match derive_key(password) {
        Ok(key) => key,
        Err(e) => {
            return Err(e);
        },
    };
    let iv = fixed_iv();
    let plain = transform(encrypted, &key, &iv);
    decode_keypair(plain.as_slice())
}

/// Everything of storing a keypair but the write: the text to be stored,
/// for every password but the empty one, which is refused.
/// It is printable base64 of the ciphertext, 96 symbols, with no header,
/// salt or IV, and `decode_vault` reads the keypair back from it under the
/// same password.
pub fn encode_vault(keypair: &Keypair, password: &str) -> (r: Result<Vec<u8>, VaultError>)
    ensures
        match r {
            Ok(text) => {
                &&& password.spec_bytes().len() > 0
                &&& text@ == stored_text(keypair@, password.spec_bytes())
                &&& text@.len() == 96
                &&& forall|i: int| 0 <= i < text@.len() ==> is_base64_symbol(#[trigger] text@[i])
                &&& text_decoding(text@) == Some(sealed_bytes(keypair@, password.spec_bytes()))
                &&& loaded_keypair(text@, password.spec_bytes()) == Ok::<KeypairView, VaultError>(
                    keypair@,
                )
            },
            Err(e) => password.spec_bytes().len() == 0 && e == VaultError::EmptyPassword,
        },
{
    match encrypt_keypair(keypair, password) {
        Ok(ciphertext) => Ok(base64_encode(ciphertext.as_slice())),
        Err(e) => Err(e),
    }
}

/// Everything of loading a keypair but the read: decodes the stored text,
/// decrypts it under the password and parses the keypair. The error names
/// the first step that failed.
pub fn decode_vault(text: &[u8], password: &str) -> (r: Result<Keypair, VaultError>)
    ensures
        match r {
            Ok(k) => loaded_keypair(text@, password.spec_bytes()) == Ok::<KeypairView, VaultError>(
                k@,
            ),
            Err(e) => loaded_keypair(text@, password.spec_bytes()) == Err::<
                KeypairView,
                VaultError,
            >(e),
        },
{
    match decode_text(text) {
        Ok(ciphertext) => decrypt_keypair(ciphertext.as_slice(), password),
        Err(e) => Err(e),
    }
}

} // verus!
