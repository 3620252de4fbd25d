use gandalf::api_key::{bytes_equal, ApiKey, ApiKeyBase64};
use gandalf::config::Config;
use gandalf::error::ErrorKind;
use gandalf::key_store::KeyStore;

#[test]
fn encode_is_url_safe_base64() {
    assert_eq!(ApiKey(b"abc".to_vec()).to_base64(), ApiKeyBase64(b"YWJj".to_vec()));
    assert_eq!(ApiKey(b"ab".to_vec()).to_base64(), ApiKeyBase64(b"YWI=".to_vec()));
    assert_eq!(ApiKey(vec![0xfb, 0xff]).to_base64(), ApiKeyBase64(b"-_8=".to_vec()));
    assert_eq!(ApiKey(vec![]).to_base64(), ApiKeyBase64(vec![]));
}

#[test]
fn decode_inverts_encode() {
    for key in [b"".to_vec(), b"a".to_vec(), b"abc".to_vec(), vec![0, 255, 254, 10, 13], b"hello world~".to_vec()] {
        let k = ApiKey(key);
        assert_eq!(ApiKey::try_from_base64(&k.to_base64()), Ok(k.clone()));
    }
}

#[test]
fn decode_rejects_bad_text() {
    assert_eq!(ApiKey::try_from_base64(&ApiKeyBase64(b"YWJj".to_vec())), Ok(ApiKey(b"abc".to_vec())));
    assert_eq!(ApiKey::try_from_base64(&ApiKeyBase64(b"YW+j".to_vec())), Err(ErrorKind::InvalidCredential));
    assert_eq!(ApiKey::try_from_base64(&ApiKeyBase64(b"YWI".to_vec())), Err(ErrorKind::InvalidCredential));
    assert_eq!(ApiKey::try_from_base64(&ApiKeyBase64(b"Y".to_vec())), Err(ErrorKind::InvalidCredential));
}

#[test]
fn from_env_value() {
    assert_eq!(ApiKey::from_env(Some("s3cret")), Ok(ApiKey(b"s3cret".to_vec())));
    assert_eq!(ApiKey::from_env(Some("")), Ok(ApiKey(vec![])));
    assert_eq!(ApiKey::from_env(None), Err(ErrorKind::MissingCredentialConfig));
}

#[test]
fn from_file_one_key_per_line() {
    let store = ApiKey::from_file("abc\n\ndef\r\nabc\nlast");
    assert_eq!(store.len(), 3);
    assert!(store.contains(&ApiKey(b"abc".to_vec())));
    assert!(store.contains(&ApiKey(b"def".to_vec())));
    assert!(store.contains(&ApiKey(b"last".to_vec())));
    assert!(!store.contains(&ApiKey(b"def\r".to_vec())));
    assert!(!store.contains(&ApiKey(vec![])));
}

#[test]
fn from_file_keeps_a_final_bare_carriage_return() {
    let store = ApiKey::from_file("abc\r");
    assert_eq!(store.len(), 1);
    assert!(store.contains(&ApiKey(b"abc\r".to_vec())));
    assert!(!store.contains(&ApiKey(b"abc".to_vec())));
    let store = ApiKey::from_file("x\r\nabc\r");
    assert!(store.contains(&ApiKey(b"x".to_vec())));
    assert!(store.contains(&ApiKey(b"abc\r".to_vec())));
    assert_eq!(ApiKey::from_file("\r").len(), 1);
}

#[test]
fn encoding_length_and_alphabet() {
    for n in 0..10usize {
        let key: Vec<u8> = (0..n).map(|i| (i * 97 + 251) as u8).collect();
        let text = ApiKey(key).to_base64().0;
        assert_eq!(text.len(), 4 * ((n + 2) / 3));
        for (i, b) in text.iter().enumerate() {
            assert!(b.is_ascii_alphanumeric() || *b == b'-' || *b == b'_' || *b == b'=');
            if *b == b'=' {
                assert!(i + 2 >= text.len());
            }
        }
    }
}

#[test]
fn only_the_canonical_text_decodes() {
    assert_eq!(ApiKey::try_from_base64(&ApiKeyBase64(b"YWI=".to_vec())), Ok(ApiKey(b"ab".to_vec())));
    assert_eq!(ApiKey::try_from_base64(&ApiKeyBase64(b"YWJ=".to_vec())), Err(ErrorKind::InvalidCredential));
    assert_eq!(ApiKey::try_from_base64(&ApiKeyBase64(b"YWI".to_vec())), Err(ErrorKind::InvalidCredential));
}

#[test]
fn from_file_empty() {
    assert_eq!(ApiKey::from_file("").len(), 0);
    assert_eq!(ApiKey::from_file("\n\r\n\n").len(), 0);
}

#[test]
fn duplicate_keys_collapse() {
    let store = KeyStore::from_keys(vec![ApiKey(b"k".to_vec()), ApiKey(b"k".to_vec()), ApiKey(b"j".to_vec())]);
    assert_eq!(store.len(), 2);
    assert!(store.contains(&ApiKey(b"j".to_vec())));
    assert!(!store.contains(&ApiKey(b"K".to_vec())));
}

#[test]
fn config_keys_from_file_text() {
    let config = Config {
        peers: vec![],
        port: 8080,
        key_path: "keys.txt".to_string(),
        log_level: "info".to_string(),
    };
    let store = config.keys("one\ntwo\n");
    assert_eq!(store.len(), 2);
    assert!(store.contains(&ApiKey(b"two".to_vec())));
}

#[test]
fn bytes_equal_cases() {
    assert!(bytes_equal(b"ab", b"ab"));
    assert!(!bytes_equal(b"ab", b"abc"));
    assert!(!bytes_equal(b"ab", b"ac"));
    assert!(bytes_equal(b"", b""));
}
