//! Password-protected storage of a signing keypair.
//!
//! A keypair is framed as bytes, combined with an AES-256 counter-mode
//! keystream keyed from the password, and stored as base64 text. Loading is
//! the mirror image. The scheme carries no salt, no nonce and no integrity
//! tag: every contract below says exactly what it does and nothing more.

pub mod cipher;
pub mod error;
pub mod kdf;
pub mod keypair;
pub mod text;
pub mod vault;

pub use cipher::{fixed_iv, transform};
pub use error::VaultError;
pub use kdf::derive_key;
pub use keypair::{decode_keypair, encode_keypair, Keypair};
pub use vault::{decode_vault, decrypt_keypair, encode_vault, encrypt_keypair};
