use crate::error::VaultError;
use vstd::prelude::*;
use vstd::string::StringSliceAdditionalSpecFns;

verus! {

/// Number of bytes in a derived key.
pub const KEY_LEN: usize = 32;

/// The key that belongs to a password: its bytes, repeated in order until
/// `KEY_LEN` bytes are filled. Meaningful for a password of at least one byte.
pub open spec fn cyclic_key(password: Seq<u8>) -> Seq<u8>
    recommends
        password.len() > 0,
{
    Seq::new(KEY_LEN as nat, |i: int| password[i % (password.len() as int)])
}

/// Derives the symmetric key from a password by cyclic repetition of its
/// UTF-8 bytes. There is no salt and no hashing: the key is a function of the
/// password alone. An empty password is rejected.
pub fn derive_key(password: &str) -> (r: Result<[u8; 32], VaultError>)
    ensures
        match r {
            Ok(key) => password.spec_bytes().len() > 0 && key@ == cyclic_key(
                password.spec_bytes(),
            ),
            Err(e) => password.spec_bytes().len() == 0 && e == VaultError::EmptyPassword,
        },
{
    let bytes = password.as_bytes();
    let n: usize = bytes.len();
    if n == 0 {
        return Err(VaultError::EmptyPassword);
    }
    let mut key: [u8; 32] = [0u8; 32];
    let mut i: usize = 0;
    while i < 32
        invariant
            i <= 32,
            n > 0,
            n == bytes@.len(),
            forall|j: int| 0 <= j < i ==> key@[j] == bytes@[j % (n as int)],
        decreases 32 - i,
    {
        key[i] = bytes[i % n];
        i += 1;
    }
    assert(key@ =~= cyclic_key(bytes@));
    Ok(key)
}

} // verus!
