use serde_json::Value;
use vault_identity::clock::Timestamp;
use vault_identity::error::AppError;
use vault_identity::json::Json;
use vault_identity::tokens::{
    generate_tokens_and_response, issue_claims, issue_tokens, refresh_payload, IssuedTokens,
    Secrets, User,
};

fn value(json: &Json) -> Value {
    match json {
        Json::Null => Value::Null,
        Json::Bool(b) => Value::from(*b),
        Json::Integer(n) => Value::from(*n),
        Json::Text(s) => Value::from(s.as_str()),
        Json::Array(items) => Value::Array(items.iter().map(value).collect()),
        Json::Object(members) => {
            Value::Object(members.iter().map(|(k, v)| (k.clone(), value(v))).collect())
        },
    }
}

fn user(name: Option<&str>) -> User {
    User {
        id: "user-1".to_string(),
        name: name.map(|s| s.to_string()),
        email: "alice@example.com".to_string(),
        master_password_hash: "hash".to_string(),
        key: "2.key".to_string(),
        private_key: "2.private".to_string(),
        public_key: "public".to_string(),
        kdf_type: 0,
        kdf_iterations: 600000,
    }
}

fn secrets() -> Secrets {
    Secrets {
        jwt_secret: Ok("access".to_string()),
        jwt_refresh_secret: Ok("refresh".to_string()),
        two_factor_enc_key: None,
    }
}

fn issued(r: Result<IssuedTokens, AppError>) -> IssuedTokens {
    match r {
        Ok(i) => i,
        Err(e) => panic!("{:?}", e),
    }
}

fn claims_in(token: &str, secret: &str) -> Option<Value> {
    let key = jsonwebtoken::DecodingKey::from_secret(secret.as_bytes());
    let mut validation = jsonwebtoken::Validation::default();
    validation.validate_exp = false;
    jsonwebtoken::decode::<Value>(token, &key, &validation).ok().map(|d| d.claims)
}

#[test]
fn claims_say_who_and_for_how_long() {
    let now = Timestamp { secs: 1700000000, nanos: 5 };
    let claims = issue_claims(&user(Some("Alice")), &now, 7200);
    assert_eq!(claims.sub, "user-1");
    assert_eq!(claims.nbf, 1700000000);
    assert_eq!(claims.exp, 1700007200);
    assert!(claims.premium);
    assert_eq!(claims.name, "Alice");
    assert_eq!(claims.email, "alice@example.com");
    assert!(claims.email_verified);
    assert_eq!(claims.amr, vec!["Application".to_string()]);
    assert_eq!(issue_claims(&user(None), &now, 0).name, "User");
}

#[test]
fn tokens_carry_their_claims() {
    let now = Timestamp { secs: 1700000000, nanos: 0 };
    let tokens = issued(issue_tokens(&user(None), &secrets(), &now));
    let access = "{\"sub\":\"user-1\",\"exp\":1700007200,\"nbf\":1700000000,\"premium\":true,\"name\":\"User\",\"email\":\"alice@example.com\",\"email_verified\":true,\"amr\":[\"Application\"]}";
    let expected: Value = serde_json::from_str(access).unwrap();
    assert_eq!(claims_in(&tokens.access_token, "access"), Some(expected));
    let refresh = claims_in(&tokens.refresh_token, "refresh").unwrap();
    assert_eq!(refresh.get("exp"), Some(&Value::from(1702592000i64)));
    assert_eq!(refresh.get("nbf"), Some(&Value::from(1700000000i64)));
    assert_eq!(refresh.get("sub"), Some(&Value::from("user-1")));
    assert_eq!(claims_in(&tokens.access_token, "refresh"), None);
    assert_eq!(claims_in(&tokens.refresh_token, "access"), None);
}

#[test]
fn tokens_are_determined_by_claims_and_key() {
    let now = Timestamp { secs: 1700000000, nanos: 0 };
    let a = issued(issue_tokens(&user(None), &secrets(), &now));
    let b = issued(issue_tokens(&user(None), &secrets(), &now));
    assert_eq!(a.access_token, b.access_token);
    assert_eq!(a.refresh_token, b.refresh_token);
    let later = Timestamp { secs: 1700000001, nanos: 0 };
    let c = issued(issue_tokens(&user(None), &secrets(), &later));
    assert_ne!(a.access_token, c.access_token);
    for t in [a.access_token, a.refresh_token] {
        assert_eq!(t.split('.').count(), 3);
        assert!(t.chars().all(|c| c.is_ascii_alphanumeric() || c == '-' || c == '_' || c == '.'));
    }
}

#[test]
fn the_client_is_told_all_it_needs() {
    let now = Timestamp { secs: 1700000000, nanos: 0 };
    let tokens = issued(issue_tokens(&user(Some("Alice")), &secrets(), &now));
    let text = "{\"ForcePasswordReset\":false,\"Kdf\":0,\"KdfIterations\":600000,\"KdfMemory\":null,\
        \"KdfParallelism\":null,\"Key\":\"2.key\",\
        \"MasterPasswordPolicy\":{\"Object\":\"masterPasswordPolicy\"},\
        \"PrivateKey\":\"2.private\",\"ResetMasterPassword\":false,\
        \"UserDecryptionOptions\":{\"HasMasterPassword\":true,\"MasterPasswordUnlock\":{\
        \"Kdf\":{\"KdfType\":0,\"Iterations\":600000,\"Memory\":null,\"Parallelism\":null},\
        \"MasterKeyEncryptedUserKey\":\"2.key\",\"MasterKeyWrappedUserKey\":\"2.key\",\
        \"Salt\":\"alice@example.com\"},\"Object\":\"userDecryptionOptions\"},\
        \"AccountKeys\":{\"publicKeyEncryptionKeyPair\":{\"wrappedPrivateKey\":\"2.private\",\
        \"publicKey\":\"public\",\"Object\":\"publicKeyEncryptionKeyPair\"},\"Object\":\"privateKeys\"},\
        \"expires_in\":7200,\"scope\":\"api offline_access\",\"token_type\":\"Bearer\"}";
    let mut expected: Value = serde_json::from_str(text).unwrap();
    let members = expected.as_object_mut().unwrap();
    members.insert("access_token".to_string(), Value::from(tokens.access_token.as_str()));
    members.insert("refresh_token".to_string(), Value::from(tokens.refresh_token.as_str()));
    assert_eq!(value(&tokens.response.object()), expected);
}

#[test]
fn a_key_that_is_not_there_is_missed() {
    let now = Timestamp { secs: 0, nanos: 0 };
    let mut keys = secrets();
    keys.jwt_refresh_secret = Err("no refresh".to_string());
    let r = issue_tokens(&user(None), &keys, &now);
    assert!(matches!(r, Err(AppError::Worker(m)) if m == "no refresh"));
    keys.jwt_secret = Err("no access".to_string());
    let r = issue_tokens(&user(None), &keys, &now);
    assert!(matches!(r, Err(AppError::Worker(m)) if m == "no access"));
}

#[test]
fn tokens_are_issued_now() {
    let before = chrono::Utc::now().timestamp();
    let tokens = issued(generate_tokens_and_response(&user(None), &secrets()));
    let after = chrono::Utc::now().timestamp();
    let claims = claims_in(&tokens.access_token, "access").unwrap();
    let nbf = claims.get("nbf").unwrap().as_i64().unwrap();
    assert!(before <= nbf && nbf <= after);
    assert_eq!(claims.get("exp").unwrap().as_i64(), Some(nbf + 7200));
}

#[test]
fn a_good_refresh_token_gives_its_payload() {
    let tokens = issued(generate_tokens_and_response(&user(None), &secrets()));
    let payload = refresh_payload(&tokens.refresh_token, "refresh").unwrap();
    let claims: Value = serde_json::from_str(&payload).unwrap();
    assert_eq!(Some(claims), claims_in(&tokens.refresh_token, "refresh"));
    assert_eq!(refresh_payload(&tokens.refresh_token, "access"), None);
    assert_eq!(refresh_payload(&tokens.access_token, "refresh"), None);
}

#[test]
fn a_bad_refresh_token_gives_none() {
    for t in ["", "a.b.c", "e30.e30.", "..", "x"] {
        assert_eq!(refresh_payload(t, "refresh"), None);
    }
    let past = Timestamp { secs: 1600000000, nanos: 0 };
    let old = issued(issue_tokens(&user(None), &secrets(), &past));
    assert_eq!(refresh_payload(&old.refresh_token, "refresh"), None);
}
