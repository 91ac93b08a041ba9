use querydesk::DbConnection;
use querydesk::decrypt_blob;
use querydesk::encode_connections;
use querydesk::encrypt_blob;
use querydesk::ensure_key;
use querydesk::parse_connections;

fn sample_conns() -> Vec<DbConnection> {
    vec![
        DbConnection {
            host: "localhost:5432".to_string(),
            db_name: "main".to_string(),
            user: "admin".to_string(),
            password: "s3cr\"et\\pa'ss".to_string(),
            nickname: "local".to_string(),
        },
        DbConnection {
            host: "db.example.com".to_string(),
            db_name: "prod".to_string(),
            user: "ops".to_string(),
            password: "tab\there\nand néwline".to_string(),
            nickname: "prod_db".to_string(),
        },
    ]
}

fn assert_conns_eq(a: &[DbConnection], b: &[DbConnection]) {
    assert_eq!(a.len(), b.len());
    for i in 0..a.len() {
        assert_eq!(a[i].host, b[i].host);
        assert_eq!(a[i].db_name, b[i].db_name);
        assert_eq!(a[i].user, b[i].user);
        assert_eq!(a[i].password, b[i].password);
        assert_eq!(a[i].nickname, b[i].nickname);
    }
}

#[test]
fn round_trip_through_vault() {
    let key = ensure_key(None);
    let conns = sample_conns();
    let blob = encrypt_blob(&key, &conns).expect("encryption should succeed");
    let back = decrypt_blob(&key, &blob);
    assert_conns_eq(&conns, &back);
}

#[test]
fn round_trip_single_connection() {
    let key = ensure_key(None);
    let conns = vec![DbConnection {
        host: "h".to_string(),
        db_name: "d".to_string(),
        user: "u".to_string(),
        password: "p".to_string(),
        nickname: "n".to_string(),
    }];
    let blob = encrypt_blob(&key, &conns).unwrap();
    let back = decrypt_blob(&key, &blob);
    assert_conns_eq(&conns, &back);
}

#[test]
fn tamper_any_byte_yields_empty_list() {
    let key = ensure_key(None);
    let conns = sample_conns();
    let blob = encrypt_blob(&key, &conns).unwrap();
    for i in 0..blob.len() {
        let mut tampered = blob.clone();
        tampered[i] ^= 0x01;
        let back = decrypt_blob(&key, &tampered);
        assert!(back.is_empty(), "tampered byte {} was not detected", i);
    }
}

#[test]
fn truncated_blob_yields_empty_list() {
    let key = ensure_key(None);
    let blob = encrypt_blob(&key, &sample_conns()).unwrap();
    let short: Vec<u8> = blob[..12].to_vec();
    assert!(decrypt_blob(&key, &short).is_empty());
    assert!(decrypt_blob(&key, &Vec::new()).is_empty());
}

#[test]
fn wrong_key_yields_empty_list() {
    let key1 = ensure_key(None);
    let key2 = ensure_key(Some(vec![7u8; 32]));
    let blob = encrypt_blob(&key1, &sample_conns()).unwrap();
    assert!(decrypt_blob(&key2, &blob).is_empty());
}

#[test]
fn two_saves_produce_different_blobs() {
    let key = ensure_key(None);
    let conns = sample_conns();
    let blob1 = encrypt_blob(&key, &conns).unwrap();
    let blob2 = encrypt_blob(&key, &conns).unwrap();
    assert_ne!(blob1, blob2);
}

#[test]
fn key_of_right_length_is_kept() {
    let existing = vec![42u8; 32];
    let key = ensure_key(Some(existing.clone()));
    assert_eq!(key, existing);
}

#[test]
fn key_of_wrong_length_is_replaced() {
    let key = ensure_key(Some(vec![1u8; 16]));
    assert_eq!(key.len(), 32);
    let fresh = ensure_key(None);
    assert_eq!(fresh.len(), 32);
}

#[test]
fn json_encoding_is_canonical() {
    let conns = vec![DbConnection {
        host: "h".to_string(),
        db_name: "d".to_string(),
        user: "u".to_string(),
        password: "a\"b\\c".to_string(),
        nickname: "n".to_string(),
    }];
    let json = encode_connections(&conns);
    assert_eq!(
        json,
        "[{\"host\":\"h\",\"db_name\":\"d\",\"user\":\"u\",\"password\":\"a\\\"b\\\\c\",\"nickname\":\"n\"}]"
    );
}

#[test]
fn json_parse_inverts_encode() {
    let conns = sample_conns();
    let json = encode_connections(&conns);
    let back = parse_connections(json.as_str()).expect("canonical text should parse");
    assert_conns_eq(&conns, &back);
}

#[test]
fn json_parse_of_empty_list() {
    let parsed = parse_connections("[]").unwrap();
    assert!(parsed.is_empty());
    let json = encode_connections(&Vec::new());
    assert_eq!(json, "[]");
}

#[test]
fn json_parse_rejects_other_text() {
    assert!(parse_connections("").is_none());
    assert!(parse_connections("{}").is_none());
    assert!(parse_connections("[{\"host\":\"h\"}]").is_none());
    assert!(parse_connections("[],").is_none());
}

#[test]
fn json_control_characters_round_trip() {
    let conns = vec![DbConnection {
        host: "\u{1}\u{2}\u{1f}".to_string(),
        db_name: "\u{8}\u{9}\u{a}\u{c}\u{d}".to_string(),
        user: String::new(),
        password: "日本語 ✓".to_string(),
        nickname: "ctl".to_string(),
    }];
    let json = encode_connections(&conns);
    let back = parse_connections(json.as_str()).unwrap();
    assert_conns_eq(&conns, &back);
}

#[test]
fn blob_is_nonce_plaintext_and_tag() {
    let key = ensure_key(None);
    let conns = sample_conns();
    let json = encode_connections(&conns);
    let blob = encrypt_blob(&key, &conns).unwrap();
    assert_eq!(blob.len(), 12 + json.as_bytes().len() + 16);
}
