use vstd::prelude::*;

verus! {

/// Why a vault operation gave no result. Each variant names the step that
/// failed.
#[derive(Clone, Copy, Debug, PartialEq, Eq, Structural)]
pub enum VaultError {
    /// The password holds no bytes, so no key can be derived from it.
    EmptyPassword,
    /// The serializer refused the keypair. It refuses none that this library
    /// can hold, so no function here returns this for a keypair.
    Encode,
    /// The stored blob is not valid base64 text.
    TextDecode,
    /// The decrypted bytes are not the serialized form of any keypair. This is
    /// the only sign of a wrong password, and it is not guaranteed to show.
    Decode,
}

} // verus!
