use crate::error::VaultError;
use vstd::bytes::{
    lemma_auto_spec_u64_to_from_le_bytes, spec_u64_from_le_bytes, spec_u64_to_le_bytes,
    spec_u64_to_le_bytes_to_open,
};
use vstd::prelude::*;

verus! {

/// Number of bytes in either half of a keypair.
pub const HALF_LEN: usize = 32;

/// Number of key bytes in a keypair: the secret half, then the public half.
pub const KEY_BYTES_LEN: usize = 64;

/// Number of bytes in a serialized keypair: the length tag and the key bytes.
pub const ENCODED_LEN: usize = 72;

/// A signing keypair as the vault holds it: the secret half and the public
/// half, 32 bytes each. The vault stores and returns the bytes as they are;
/// whether the public half belongs to the secret half is for the signing
/// library to say.
#[derive(Clone, Copy, Debug, PartialEq, Eq)]
pub struct Keypair {
    pub secret: [u8; 32],
    pub public: [u8; 32],
}

/// The two halves of a keypair as byte sequences.
pub struct KeypairView {
    pub secret: Seq<u8>,
    pub public: Seq<u8>,
}

impl KeypairView {
    /// Both halves have their full length.
    pub open spec fn wf(self) -> bool {
        self.secret.len() == HALF_LEN && self.public.len() == HALF_LEN
    }

    /// The key bytes in storage order: secret half first.
    pub open spec fn key_bytes(self) -> Seq<u8> {
        self.secret + self.public
    }
}

impl View for Keypair {
    type V = KeypairView;

    open spec fn view(&self) -> KeypairView {
        KeypairView { secret: self.secret@, public: self.public@ }
    }
}

/// The tag that opens every serialized keypair: the number of key bytes, 64,
/// as an unsigned 64-bit integer in little-endian order.
pub open spec fn length_tag() -> Seq<u8> {
    seq![64u8, 0u8, 0u8, 0u8, 0u8, 0u8, 0u8, 0u8]
}

/// The serialized form of a keypair: the length tag, the secret half, the
/// public half. There is no padding and no version.
pub open spec fn keypair_encoding(k: KeypairView) -> Seq<u8> {
    length_tag() + k.key_bytes()
}

/// The keypair that `bytes` is the serialized form of, if there is one.
pub open spec fn keypair_decoding(bytes: Seq<u8>) -> Option<KeypairView> {
    if bytes.len() == ENCODED_LEN && bytes.subrange(0, 8) == length_tag() {
        Some(KeypairView { secret: bytes.subrange(8, 40), public: bytes.subrange(40, 72) })
    } else {
        None
    }
}

/// A byte string behind its length as a little-endian 64-bit integer.
pub open spec fn length_prefixed(payload: Seq<u8>) -> Seq<u8>
    recommends
        payload.len() <= u64::MAX,
{
    spec_u64_to_le_bytes(payload.len() as u64) + payload
}

/// The byte string that stands at the head of `bytes` behind its length, if
/// `bytes` is long enough to hold the length and that many bytes after it.
/// Bytes that follow are not looked at.
pub open spec fn framed_payload(bytes: Seq<u8>) -> Option<Seq<u8>> {
    if bytes.len() >= 8 && 8 + spec_u64_from_le_bytes(bytes.subrange(0, 8)) <= bytes.len() {
        Some(bytes.subrange(8, 8 + spec_u64_from_le_bytes(bytes.subrange(0, 8))))
    } else {
        None
    }
}

#[verifier::external_type_specification]
#[verifier::external_body]
pub struct ExBincodeErrorKind(bincode::ErrorKind);

/// `bincode::serialize` on a byte slice. Trusted: it succeeds on every slice,
/// since it sets no size limit, writes to a `Vec` and is told the length of
/// the slice; and the bytes are that length as a little-endian 64-bit
/// integer, then the slice itself.
#[verifier::external_body]
fn bincode_serialize(payload: &[u8]) -> (r: Result<Vec<u8>, Box<bincode::ErrorKind>>)
    ensures
        r is Ok,
        r matches Ok(out) ==> out@ == length_prefixed(payload@),
{
    bincode::serialize(payload)
}

/// `bincode::deserialize` of a byte vector from a slice. Trusted: it succeeds
/// exactly when the slice holds a little-endian 64-bit length and at least
/// that many bytes behind it, and then returns those bytes.
#[verifier::external_body]
fn bincode_deserialize(bytes: &[u8]) -> (r: Result<Vec<u8>, Box<bincode::ErrorKind>>)
    ensures
        match r {
            Ok(payload) => framed_payload(bytes@) == Some(payload@),
            Err(_) => framed_payload(bytes@).is_none(),
        },
{
    bincode::deserialize::<Vec<u8>>(bytes)
}

/// The length tag is the number 64 as eight little-endian bytes.
pub proof fn lemma_length_tag_is_64()
    ensures
        length_tag() == spec_u64_to_le_bytes(64),
        spec_u64_from_le_bytes(length_tag()) == 64,
{
    spec_u64_to_le_bytes_to_open(64);
    assert(64u64 & 0xff == 64 && (64u64 >> 8) & 0xff == 0 && (64u64 >> 16) & 0xff == 0 && (64u64
        >> 24) & 0xff == 0 && (64u64 >> 32) & 0xff == 0 && (64u64 >> 40) & 0xff == 0 && (64u64
        >> 48) & 0xff == 0 && (64u64 >> 56) & 0xff == 0) by (bit_vector);
    assert(length_tag() =~= spec_u64_to_le_bytes(64));
    lemma_auto_spec_u64_to_from_le_bytes();
}

/// Eight bytes are the length tag exactly when they spell the number 64.
proof fn lemma_tag_by_value(tag: Seq<u8>)
    requires
        tag.len() == 8,
    ensures
        tag == length_tag() <==> spec_u64_from_le_bytes(tag) == 64,
{
    lemma_length_tag_is_64();
    lemma_auto_spec_u64_to_from_le_bytes();
    if spec_u64_from_le_bytes(tag) == 64 {
        assert(spec_u64_to_le_bytes(spec_u64_from_le_bytes(tag)) == tag);
    }
}

/// Decoding undoes encoding: every keypair comes back from its serialized
/// form, both halves byte for byte.
pub proof fn lemma_codec_round_trip(k: KeypairView)
    requires
        k.wf(),
    ensures
        keypair_encoding(k).len() == ENCODED_LEN,
        keypair_decoding(keypair_encoding(k)) == Some(k),
{
    let bytes = keypair_encoding(k);
    assert(bytes.subrange(0, 8) =~= length_tag());
    assert(bytes.subrange(8, 40) =~= k.secret);
    assert(bytes.subrange(40, 72) =~= k.public);
}

/// The serialized form is canonical: bytes decode to a keypair only if they
/// are that keypair's encoding, so no two byte strings stand for one keypair.
pub proof fn lemma_decoding_is_canonical(bytes: Seq<u8>)
    ensures
        keypair_decoding(bytes) matches Some(k) ==> k.wf() && keypair_encoding(k) == bytes,
{
    if let Some(k) = keypair_decoding(bytes) {
        assert(keypair_encoding(k) =~= bytes);
    }
}

impl Keypair {
    /// The 64 key bytes: the secret half, then the public half.
    pub fn key_bytes(&self) -> (out: Vec<u8>)
        ensures
            out@ == self@.key_bytes(),
            out@.len() == KEY_BYTES_LEN,
    {
        let mut out: Vec<u8> = Vec::with_capacity(64);
        let mut i: usize = 0;
        while i < 32
            invariant
                i <= 32,
                out@ == self.secret@.subrange(0, i as int),
            decreases 32 - i,
        {
            out.push(self.secret[i]);
            i += 1;
            assert(out@ =~= self.secret@.subrange(0, i as int));
        }
        assert(out@ =~= self.secret@);
        let mut j: usize = 0;
        while j < 32
            invariant
                j <= 32,
                out@ == self.secret@ + self.public@.subrange(0, j as int),
            decreases 32 - j,
        {
            out.push(self.public[j]);
            j += 1;
            assert(out@ =~= self.secret@ + self.public@.subrange(0, j as int));
        }
        assert(out@ =~= self.secret@ + self.public@);
        out
    }

    /// The keypair whose key bytes are `bytes`: `None` unless there are
    /// exactly 64 of them.
    pub fn from_key_bytes(bytes: &[u8]) -> (r: Option<Keypair>)
        ensures
            match r {
                Some(k) => bytes@.len() == KEY_BYTES_LEN && k@.key_bytes() == bytes@,
                None => bytes@.len() != KEY_BYTES_LEN,
            },
    {
        if bytes.len() != 64 {
            return None;
        }
        let mut secret: [u8; 32] = [0u8; 32];
        let mut public: [u8; 32] = [0u8; 32];
        let mut i: usize = 0;
        while i < 32
            invariant
                i <= 32,
                bytes@.len() == 64,
                forall|j: int| 0 <= j < i ==> secret@[j] == bytes@[j],
                forall|j: int| 0 <= j < i ==> public@[j] == bytes@[32 + j],
            decreases 32 - i,
        {
            secret[i] = bytes[i];
            public[i] = bytes[32 + i];
            i += 1;
        }
        let k = Keypair { secret, public };
        assert(k@.key_bytes() =~= bytes@);
        Some(k)
    }
}

/// What the codec returns for each outcome of the serializer: the bytes, or
/// `VaultError::Encode` in place of the serializer's own error.
pub fn encoding_outcome(outcome: Result<Vec<u8>, Box<bincode::ErrorKind>>) -> (r: Result<
    Vec<u8>,
    VaultError,
>)
    ensures
        match outcome {
            Ok(bytes) => r == Ok::<Vec<u8>, VaultError>(bytes),
            Err(_) => r == Err::<Vec<u8>, VaultError>(VaultError::Encode),
        },
{
    match outcome {
        Ok(bytes) => Ok(bytes),
        Err(_) => Err(VaultError::Encode),
    }
}

/// Serializes a keypair. Every keypair has an encoding, so this always
/// succeeds; the bytes are the keypair's encoding, 72 bytes long.
pub fn encode_keypair(keypair: &Keypair) -> (r: Result<Vec<u8>, VaultError>)
    ensures
        r is Ok,
        r matches Ok(bytes) ==> bytes@ == keypair_encoding(keypair@) && bytes@.len()
            == ENCODED_LEN,
{
    let payload = keypair.key_bytes();
    proof {
        lemma_length_tag_is_64();
    }
    encoding_outcome(bincode_serialize(payload.as_slice()))
}

/// Parses a serialized keypair. Succeeds exactly on the 72-byte strings that
/// are the encoding of a keypair; anything shorter, longer or with another
/// length tag is `VaultError::Decode`.
pub fn decode_keypair(bytes: &[u8]) -> (r: Result<Keypair, VaultError>)
    ensures
        match r {
            Ok(k) => keypair_decoding(bytes@) == Some(k@),
            Err(e) => e == VaultError::Decode && keypair_decoding(bytes@).is_none(),
        },
{
    proof {
        if bytes@.len() >= 8 {
            lemma_tag_by_value(bytes@.subrange(0, 8));
        }
    }
    if bytes.len() != 72 {
        return Err(VaultError::Decode);
    }
    match bincode_deserialize(bytes) {
        Err(_) => Err(VaultError::Decode),
        Ok(payload) => match Keypair::from_key_bytes(payload.as_slice()) {
            None => Err(VaultError::Decode),
            Some(k) => {
                proof {
                    let halves = k@.key_bytes();
                    assert forall|j: int| 0 <= j < 32 implies k@.secret[j] == bytes@[8 + j] by {
                        assert(halves[j] == k@.secret[j]);
                    }
                    assert forall|j: int| 0 <= j < 32 implies k@.public[j] == bytes@[40 + j] by {
                        assert(halves[32 + j] == k@.public[j]);
                    }
                    assert(k@.secret =~= bytes@.subrange(8, 40));
                    assert(k@.public =~= bytes@.subrange(40, 72));
                }
                Ok(k)
            },
        },
    }
}

} // verus!
