use dyer_cli::hashing::{content_hash, detect_change, hash_text, prior_hash};

fn parts(v: &[&str]) -> Vec<Vec<u8>> {
    v.iter().map(|s| s.as_bytes().to_vec()).collect()
}

#[test]
fn content_hash_known_values() {
    assert_eq!(content_hash(&parts(&[])), 0xcbf29ce484222325);
    assert_eq!(content_hash(&parts(&["a"])), 0xaf63dc4c8601ec8c);
    assert_eq!(content_hash(&parts(&["hello"])), 0xa430d84680aabd0b);
    assert_eq!(content_hash(&parts(&["he", "llo"])), 0xa430d84680aabd0b);
}

#[test]
fn single_byte_change_changes_hash() {
    let base = parts(&["manifest", "middleware", "pipeline", "parser", "entity", "spider"]);
    let h0 = content_hash(&base);
    for i in 0..base.len() {
        for j in 0..base[i].len() {
            let mut edited = base.clone();
            edited[i][j] ^= 1;
            assert_ne!(content_hash(&edited), h0);
        }
    }
}

#[test]
fn unchanged_run_reports_stable_hash() {
    let sources = parts(&["[dependencies]\ndyer = \"*\"", "mw", "pl", "ps", "en", "sp"]);
    let (first_unchanged, h1) = detect_change(&sources, &Vec::new());
    assert!(!first_unchanged);
    let sidecar = hash_text(h1);
    let (second_unchanged, h2) = detect_change(&sources, &sidecar);
    assert!(second_unchanged);
    assert_eq!(h1, h2);
    assert_eq!(hash_text(h2), sidecar);
}

#[test]
fn prior_hash_parses_decimal_text() {
    assert_eq!(prior_hash(&b"123".to_vec()), 123);
    assert_eq!(prior_hash(&b"  42\n".to_vec()), 42);
    assert_eq!(prior_hash(&b"+7".to_vec()), 7);
    assert_eq!(prior_hash(&b"18446744073709551615".to_vec()), u64::MAX);
}

#[test]
fn prior_hash_defaults_to_zero_when_unparsable() {
    assert_eq!(prior_hash(&Vec::new()), 0);
    assert_eq!(prior_hash(&b"nonsense".to_vec()), 0);
    assert_eq!(prior_hash(&b"12x".to_vec()), 0);
    assert_eq!(prior_hash(&b"+".to_vec()), 0);
    assert_eq!(prior_hash(&b"-5".to_vec()), 0);
    assert_eq!(prior_hash(&b"18446744073709551616".to_vec()), 0);
}

#[test]
fn hash_text_is_decimal() {
    assert_eq!(hash_text(0), b"0".to_vec());
    assert_eq!(hash_text(12345), b"12345".to_vec());
    assert_eq!(hash_text(u64::MAX), b"18446744073709551615".to_vec());
}
