use solana_keypair_manager::{
    decode_vault, decrypt_keypair, derive_key, encode_keypair, encode_vault, encrypt_keypair,
    fixed_iv, transform, Keypair, VaultError,
};

fn hex(text: &str) -> Vec<u8> {
    let digits: Vec<u8> = text.bytes().map(|c| (c as char).to_digit(16).unwrap() as u8).collect();
    digits.chunks(2).map(|pair| pair[0] * 16 + pair[1]).collect()
}

/// The first test keypair of RFC 8032.
fn sample() -> Keypair {
    let mut secret = [0u8; 32];
    let mut public = [0u8; 32];
    secret.copy_from_slice(&hex("9d61b19deffd5a60ba844af492ec2cc44449c5697b326919703bac031cae7f60"));
    public.copy_from_slice(&hex("d75a980182b10ab7d54bfed3c964073a0ee172f3daa62325af021a68f707511a"));
    Keypair { secret, public }
}

const SEALED_CORRECT_HORSE: &str = "9927171d0fd916704b64e886d433eab471849b4eadf25a824bafdb28acc00342\
b4ffa66bca5292f45d1181b0061e891febba36033d7b7eb632d2c2d32e3a4d711d6f10c5aebf82b0";
const TEXT_CORRECT_HORSE: &str =
    "mScXHQ/ZFnBLZOiG1DPqtHGEm06t8lqCS6/bKKzAA0K0/6ZrylKS9F0RgbAGHokf67o2Az17frYy0sLTLjpNcR1vEMWuv4Kw";
const TEXT_A: &str =
    "faEuGtqjPD+VLKS7p9BqPJAFYLZqyLYZcTUQy5d7J0nlLxyy9BNDmKZxZSwZCjMxH7PSKyoeagJq1OHMlfEcnSO2sECPPk8S";

#[test]
fn ciphertext_has_the_expected_bytes() {
    let sealed = encrypt_keypair(&sample(), "correct-horse").unwrap();
    assert_eq!(sealed, hex(SEALED_CORRECT_HORSE));
}

#[test]
fn ciphertext_is_as_long_as_the_serialized_keypair() {
    let plain = encode_keypair(&sample()).unwrap();
    for password in ["a", "correct-horse", "a much longer password than thirty-two bytes"] {
        let sealed = encrypt_keypair(&sample(), password).unwrap();
        assert_eq!(sealed.len(), plain.len());
        assert_eq!(sealed.len(), 72);
    }
}

#[test]
fn ciphertext_is_the_transform_of_the_encoding() {
    let key = derive_key("hunter2").unwrap();
    let plain = encode_keypair(&sample()).unwrap();
    let sealed = encrypt_keypair(&sample(), "hunter2").unwrap();
    assert_eq!(sealed, transform(&plain, &key, &fixed_iv()));
}

#[test]
fn encrypt_then_decrypt_recovers_both_halves() {
    for password in ["a", "correct-horse", "\u{e9}\u{e8}", "0123456789abcdef0123456789ABCDEF+"] {
        let sealed = encrypt_keypair(&sample(), password).unwrap();
        let back = decrypt_keypair(&sealed, password).unwrap();
        assert_eq!(back.secret, sample().secret);
        assert_eq!(back.public, sample().public);
    }
}

#[test]
fn decrypt_reads_known_ciphertext() {
    assert_eq!(decrypt_keypair(&hex(SEALED_CORRECT_HORSE), "correct-horse"), Ok(sample()));
}

#[test]
fn encrypt_rejects_empty_password() {
    assert_eq!(encrypt_keypair(&sample(), ""), Err(VaultError::EmptyPassword));
}

#[test]
fn decrypt_rejects_empty_password() {
    let sealed = encrypt_keypair(&sample(), "x").unwrap();
    assert_eq!(decrypt_keypair(&sealed, ""), Err(VaultError::EmptyPassword));
    assert_eq!(decrypt_keypair(&[], ""), Err(VaultError::EmptyPassword));
}

#[test]
fn decrypt_rejects_wrong_lengths() {
    let sealed = encrypt_keypair(&sample(), "x").unwrap();
    assert_eq!(decrypt_keypair(&sealed[..71], "x"), Err(VaultError::Decode));
    assert_eq!(decrypt_keypair(&[], "x"), Err(VaultError::Decode));
    let mut longer = sealed.clone();
    longer.push(0);
    assert_eq!(decrypt_keypair(&longer, "x"), Err(VaultError::Decode));
}

#[test]
fn wrong_password_is_detected_on_a_sample() {
    // Baseline: none of these mismatched passwords is accepted.
    let sealed = encrypt_keypair(&sample(), "correct-horse").unwrap();
    let wrong = [
        "correct-horsf", "Correct-horse", "correct-hors", "correct-horse!", "x", "password",
        "hunter2", "correct horse", "esroh-tcerroc", "0", "correct-horse ", " correct-horse",
    ];
    let mut accepted = 0;
    for password in wrong {
        match decrypt_keypair(&sealed, password) {
            Err(VaultError::Decode) => {}
            Ok(_) => accepted += 1,
            Err(other) => panic!("unexpected error {:?}", other),
        }
    }
    assert_eq!(accepted, 0);
}

#[test]
fn wrong_password_rate_over_many_passwords() {
    let sealed = encrypt_keypair(&sample(), "correct-horse").unwrap();
    let mut accepted = 0;
    let mut tried = 0;
    for i in 0..500u32 {
        let password = format!("guess-{}", i);
        tried += 1;
        if decrypt_keypair(&sealed, &password).is_ok() {
            accepted += 1;
        }
    }
    assert_eq!(tried, 500);
    assert_eq!(accepted, 0);
}

#[test]
fn colliding_password_is_not_told_apart() {
    // "abab" derives the key of "ab", so it opens what "ab" sealed.
    let sealed = encrypt_keypair(&sample(), "ab").unwrap();
    assert_eq!(decrypt_keypair(&sealed, "abab"), Ok(sample()));
}

#[test]
fn stored_text_has_the_expected_symbols() {
    let text = encode_vault(&sample(), "correct-horse").unwrap();
    assert_eq!(text, TEXT_CORRECT_HORSE.as_bytes());
    let text = encode_vault(&sample(), "a").unwrap();
    assert_eq!(text, TEXT_A.as_bytes());
}

#[test]
fn stored_text_is_printable_and_96_symbols() {
    let text = encode_vault(&sample(), "hunter2").unwrap();
    assert_eq!(text.len(), 96);
    for b in &text {
        assert!(b.is_ascii_alphanumeric() || *b == b'+' || *b == b'/' || *b == b'=');
    }
    assert_eq!(
        String::from_utf8(text).unwrap(),
        "CcPs0eiIa6S+5kdjJ7U+8Dm6hRoQR39UVvfYh1VWI9Msdins9z43J2K8nWBZJS03kkzHKPtggMn5/wYRZHTD57ue2daI70Ar"
    );
}

#[test]
fn stored_text_decodes_to_the_ciphertext_without_padding() {
    let text = encode_vault(&sample(), "correct-horse").unwrap();
    let decoded = base64::decode(&text).unwrap();
    assert_eq!(decoded.len(), 72);
    assert_eq!(decoded, encrypt_keypair(&sample(), "correct-horse").unwrap());
}

#[test]
fn storing_twice_gives_identical_text() {
    let first = encode_vault(&sample(), "correct-horse").unwrap();
    let second = encode_vault(&sample(), "correct-horse").unwrap();
    assert_eq!(first, second);
}

#[test]
fn store_then_load_scenario() {
    let k = sample();
    let stored = encode_vault(&k, "correct-horse").unwrap();
    let loaded = decode_vault(&stored, "correct-horse").unwrap();
    assert_eq!(loaded.public, k.public);
    assert_eq!(loaded, k);
}

#[test]
fn load_reads_known_text() {
    assert_eq!(decode_vault(TEXT_CORRECT_HORSE.as_bytes(), "correct-horse"), Ok(sample()));
    assert_eq!(decode_vault(TEXT_A.as_bytes(), "a"), Ok(sample()));
}

#[test]
fn load_with_wrong_password_is_decode_error() {
    assert_eq!(decode_vault(TEXT_CORRECT_HORSE.as_bytes(), "a"), Err(VaultError::Decode));
    assert_eq!(decode_vault(TEXT_A.as_bytes(), "correct-horse"), Err(VaultError::Decode));
}

#[test]
fn load_rejects_text_that_is_not_base64() {
    assert_eq!(decode_vault(b"not base64!", "x"), Err(VaultError::TextDecode));
    assert_eq!(decode_vault(b"abc", "x"), Err(VaultError::Decode));
    assert_eq!(decode_vault(b"a", "x"), Err(VaultError::TextDecode));
    let mut text = TEXT_A.as_bytes().to_vec();
    text.push(b'\n');
    assert_eq!(decode_vault(&text, "a"), Err(VaultError::TextDecode));
    text[10] = b'*';
    assert_eq!(decode_vault(&text, "a"), Err(VaultError::TextDecode));
}

#[test]
fn load_of_empty_text_is_decode_error() {
    // The empty text is base64 for no bytes, which are no keypair.
    assert_eq!(decode_vault(b"", "x"), Err(VaultError::Decode));
}

#[test]
fn load_checks_the_text_before_the_password() {
    assert_eq!(decode_vault(b"!!!!", ""), Err(VaultError::TextDecode));
    assert_eq!(decode_vault(TEXT_A.as_bytes(), ""), Err(VaultError::EmptyPassword));
}

#[test]
fn store_rejects_empty_password() {
    assert_eq!(encode_vault(&sample(), ""), Err(VaultError::EmptyPassword));
}

#[test]
fn flipped_bit_in_the_tag_is_decode_error() {
    let sealed = encrypt_keypair(&sample(), "correct-horse").unwrap();
    for at in 0..8usize {
        for bit in 0..8u8 {
            let mut damaged = sealed.clone();
            damaged[at] ^= 1 << bit;
            assert_eq!(decrypt_keypair(&damaged, "correct-horse"), Err(VaultError::Decode));
        }
    }
}

#[test]
fn flipped_bit_in_the_keys_flips_that_bit_only() {
    let sealed = encrypt_keypair(&sample(), "correct-horse").unwrap();
    for at in 8..72usize {
        for bit in 0..8u8 {
            let mut damaged = sealed.clone();
            damaged[at] ^= 1 << bit;
            let mut expected = sample();
            if at < 40 {
                expected.secret[at - 8] ^= 1 << bit;
            } else {
                expected.public[at - 40] ^= 1 << bit;
            }
            assert_eq!(decrypt_keypair(&damaged, "correct-horse"), Ok(expected));
        }
    }
}

#[test]
fn flipped_bit_in_the_text_reaches_two_bytes_at_most() {
    let stored = encode_vault(&sample(), "correct-horse").unwrap();
    let clean = encode_keypair(&sample()).unwrap();
    let mut text_errors = 0;
    let mut decode_errors = 0;
    let mut keypairs = 0;
    for at in 0..stored.len() {
        for bit in 0..8u8 {
            let mut damaged = stored.clone();
            damaged[at] ^= 1 << bit;
            match decode_vault(&damaged, "correct-horse") {
                Err(VaultError::TextDecode) => {
                    assert!(base64::decode(&damaged).is_err());
                    text_errors += 1;
                }
                Err(VaultError::Decode) => {
                    assert!(base64::decode(&damaged).is_ok());
                    decode_errors += 1;
                }
                Err(other) => panic!("unexpected error {:?}", other),
                Ok(k) => {
                    assert_ne!(k, sample());
                    let got = encode_keypair(&k).unwrap();
                    let first = at * 6 / 8;
                    let last = (at * 6 + 5) / 8;
                    assert!(last <= first + 1);
                    for i in 0..72 {
                        if i < first || i > last {
                            assert_eq!(got[i], clean[i]);
                        }
                    }
                    keypairs += 1;
                }
            }
        }
    }
    assert_eq!(text_errors + decode_errors + keypairs, 96 * 8);
    assert!(text_errors > 0 && decode_errors > 0 && keypairs > 0);
}

#[test]
fn every_keypair_and_password_can_be_stored() {
    for fill in [0x00u8, 0x01, 0x7f, 0x80, 0xff] {
        let k = Keypair { secret: [fill; 32], public: [!fill; 32] };
        assert_eq!(encode_keypair(&k).unwrap().len(), 72);
        for password in ["a", " ", "\u{0}", "p\u{e4}ssw\u{f6}rd", "0123456789abcdef0123456789abcdef0"] {
            assert_eq!(encrypt_keypair(&k, password).unwrap().len(), 72);
            let text = encode_vault(&k, password).unwrap();
            assert_eq!(decode_vault(&text, password), Ok(k));
        }
    }
}
