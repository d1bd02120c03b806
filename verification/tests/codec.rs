use vault_identity::codec::{
    decode_text, generate_remember_token, new_row_id, remember_token, same_secret, sha256_hex,
    TextError,
};

#[test]
fn digests_are_those_of_the_standard() {
    assert_eq!(
        sha256_hex("abc"),
        "ba7816bf8f01cfea414140de5dae2223b00361a396177a9cb410ff61f20015ad"
    );
    assert_eq!(
        sha256_hex(""),
        "e3b0c44298fc1c149afbf4c8996fb92427ae41e4649b934ca495991b7852b855"
    );
    assert_eq!(
        sha256_hex("abcdbcdecdefdefgefghfghighijhijkijkljklmklmnlmnomnopnopq"),
        "248d6a61d20638b8e5c026930c3e6039a33ce45964ff2167f6ecedd419db06c1"
    );
}

#[test]
fn digests_are_of_the_bytes_of_utf8() {
    assert_eq!(sha256_hex("é").len(), 64);
    assert_ne!(sha256_hex("é"), sha256_hex("e\u{301}"));
}

#[test]
fn secrets_are_the_same_by_their_bytes() {
    assert!(same_secret("", ""));
    assert!(same_secret("s3cret", "s3cret"));
    assert!(!same_secret("s3cret", "s3creT"));
    assert!(!same_secret("s3cret", "s3cre"));
    assert!(!same_secret("", "s"));
}

#[test]
fn remember_tokens_are_base64_without_padding() {
    assert_eq!(remember_token(&[0u8; 32]), "A".repeat(43));
    let mut bytes = [0u8; 32];
    let mut i = 0;
    while i < 32 {
        bytes[i] = i as u8;
        i += 1;
    }
    assert_eq!(remember_token(&bytes), "AAECAwQFBgcICQoLDA0ODxAREhMUFRYXGBkaGxwdHh8");
    assert_eq!(remember_token(&[255u8; 32]), format!("{}8", "_".repeat(42)));
}

#[test]
fn drawn_remember_tokens_are_plain_and_differ() {
    let a = generate_remember_token();
    let b = generate_remember_token();
    assert_ne!(a, b);
    for t in [a, b] {
        assert_eq!(t.len(), 43);
        assert!(t.chars().all(|c| c.is_ascii_alphanumeric() || c == '-' || c == '_'));
        assert_eq!(t.trim(), t);
    }
}

#[test]
fn row_identifiers_are_random_uuids() {
    let a = new_row_id();
    let b = new_row_id();
    assert_ne!(a, b);
    for id in [a, b] {
        assert_eq!(id.len(), 36);
        for (i, c) in id.chars().enumerate() {
            if i == 8 || i == 13 || i == 18 || i == 23 {
                assert_eq!(c, '-');
            } else {
                assert!(c.is_ascii_digit() || ('a'..='f').contains(&c));
            }
        }
        assert_eq!(id.as_bytes()[14], b'4');
        assert!(matches!(id.as_bytes()[19], b'8' | b'9' | b'a' | b'b'));
    }
}

#[test]
fn encoded_texts_are_read() {
    assert_eq!(decode_text(""), Ok("".to_string()));
    assert_eq!(decode_text("YQ"), Ok("a".to_string()));
    assert_eq!(decode_text("YWI"), Ok("ab".to_string()));
    assert_eq!(decode_text("QWxpY2VARXhhbXBsZS5jb20"), Ok("Alice@Example.com".to_string()));
    assert_eq!(decode_text("w6k_w78-"), Ok("é?ÿ>".to_string()));
}

#[test]
fn what_is_no_base64_of_the_alphabet_is_refused() {
    for s in ["A", "YQ==", "YR", "Y Q", "w6k/", "YQ\n", "Y+Q", "é", "AAAAA"] {
        assert_eq!(decode_text(s), Err(TextError::Base64), "{}", s);
    }
}

#[test]
fn bytes_that_are_no_utf8_are_refused() {
    assert_eq!(decode_text("_w"), Err(TextError::Utf8));
    assert_eq!(decode_text("wyg"), Err(TextError::Utf8));
}
