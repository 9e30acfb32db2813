use std::collections::HashSet;

use okr_tracker::ids::{
    gen_human_ref, gen_registration_code, gen_session_id, gen_short_name, gen_webauthn_user_handle,
    hex_encode, new_uuid, normalise_code, random_bytes, symbols_from_bytes, validate_display_name, RefKind,
    UNAMBIGUOUS_ALPHABET,
};
use okr_tracker::DomainError;

#[test]
fn refs_have_expected_shape() {
    let r = gen_human_ref(RefKind::Okr);
    assert!(r.starts_with("OKR-"));
    assert_eq!(r.len(), 4 + 4);
    let g = gen_human_ref(RefKind::Group);
    assert!(g.starts_with("GRP-"));
}

#[test]
fn refs_only_use_unambiguous_alphabet() {
    for _ in 0..1000 {
        let r = gen_human_ref(RefKind::Okr);
        for c in r["OKR-".len()..].bytes() {
            assert!(UNAMBIGUOUS_ALPHABET.contains(&c), "bad char {c}");
        }
    }
}

#[test]
fn refs_are_practically_unique() {
    let mut seen = HashSet::new();
    for _ in 0..2000 {
        seen.insert(gen_human_ref(RefKind::Okr));
    }
    assert!(seen.len() > 1900, "too many collisions: {}", seen.len());
}

#[test]
fn registration_code_is_grouped_and_high_entropy() {
    let code = gen_registration_code();
    let blocks: Vec<&str> = code.split('-').collect();
    assert_eq!(blocks.len(), 7);
    for b in &blocks {
        assert_eq!(b.len(), 4);
    }
    assert_eq!(normalise_code(&code).len(), 28);
}

#[test]
fn normalise_code_is_tolerant() {
    assert_eq!(normalise_code("ab cd-ef "), "ABCDEF");
    assert_eq!(normalise_code("23-45 67"), "234567");
}

#[test]
fn session_id_is_256_bits_hex() {
    let s = gen_session_id();
    assert_eq!(s.len(), 64);
    assert!(s.bytes().all(|b| b.is_ascii_hexdigit()));
}

#[test]
fn display_name_validation() {
    assert_eq!(validate_display_name("  Marc  ").unwrap(), "Marc");
    assert!(validate_display_name("   ").is_err());
    assert!(validate_display_name(&"x".repeat(81)).is_err());
    assert!(validate_display_name("bad\u{0}name").is_err());
}

#[test]
fn hex_encode_matches_expected() {
    assert_eq!(hex_encode(&[0x00, 0xff, 0x10]), "00ff10");
}

#[test]
fn display_name_errors_name_the_rule() {
    assert_eq!(validate_display_name(" \t "), Err(DomainError::Invalid("name must not be empty".into())));
    assert_eq!(
        validate_display_name(&"é".repeat(81)),
        Err(DomainError::Invalid("name must be ≤ 80 characters".into()))
    );
    assert_eq!(
        validate_display_name("a\u{7f}b"),
        Err(DomainError::Invalid("name must not contain control characters".into()))
    );
    // 80 characters, counted as characters rather than bytes, are accepted.
    assert_eq!(validate_display_name(&"é".repeat(80)), Ok("é".repeat(80)));
    // Unicode white space is trimmed too.
    assert_eq!(validate_display_name("\u{3000}Ann\u{a0}"), Ok("Ann".to_string()));
}

#[test]
fn normalise_code_uppercases_and_drops_punctuation() {
    assert_eq!(normalise_code("xY_z.9!"), "XYZ9");
    assert_eq!(normalise_code(""), "");
    // Non-ASCII letters are not code characters.
    assert_eq!(normalise_code("éa"), "A");
}

#[test]
fn short_names_and_handles() {
    let s = gen_short_name();
    assert_eq!(s.len(), 5);
    assert!(s.bytes().all(|c| UNAMBIGUOUS_ALPHABET.contains(&c)));
    let h1 = gen_webauthn_user_handle();
    let h2 = gen_webauthn_user_handle();
    assert_eq!(h1.len(), 32);
    assert_ne!(h1, h2);
}

#[test]
fn uuids_and_random_bytes() {
    let u = new_uuid();
    assert_eq!(u.len(), 36);
    assert_eq!(u.as_bytes()[14], b'4');
    assert!(matches!(u.as_bytes()[19], b'8' | b'9' | b'a' | b'b'));
    for (i, c) in u.bytes().enumerate() {
        if [8, 13, 18, 23].contains(&i) {
            assert_eq!(c, b'-');
        } else {
            assert!(c.is_ascii_digit() || (b'a'..=b'f').contains(&c));
        }
    }
    let mut a = [0u8; 16];
    let mut b = [0u8; 16];
    random_bytes(&mut a);
    random_bytes(&mut b);
    assert_ne!(a, b);
}

#[test]
fn hex_encode_of_nothing_is_empty() {
    assert_eq!(hex_encode(&[]), "");
    assert_eq!(hex_encode(&[0xab, 0x01]), "ab01");
}

#[test]
fn normalising_twice_changes_nothing() {
    for input in ["ab cd-ef ", "Zz-9 9", "", "--", "éA1"] {
        let once = normalise_code(input);
        assert_eq!(normalise_code(&once), once);
    }
    let shown = gen_registration_code();
    assert_eq!(normalise_code(&normalise_code(&shown)), normalise_code(&shown));
}

#[test]
fn symbols_from_drawn_bytes() {
    // Bytes at or above 234 are skipped; a kept byte b gives the symbol at b % 26.
    assert_eq!(symbols_from_bytes(&[0, 234, 25, 26, 255, 233, 51], 4), Some("2Z2Z".to_string()));
    assert_eq!(symbols_from_bytes(&[8, 9, 10], 2), Some("CD".to_string()));
    assert_eq!(symbols_from_bytes(&[234, 240, 255, 1], 2), None);
    assert_eq!(symbols_from_bytes(&[], 0), Some(String::new()));
    // Every symbol comes from exactly nine of the kept bytes.
    let mut counts = [0u32; 26];
    for b in 0u8..=255 {
        if let Some(s) = symbols_from_bytes(&[b], 1) {
            let c = s.as_bytes()[0];
            let k = UNAMBIGUOUS_ALPHABET.iter().position(|&a| a == c).unwrap();
            counts[k] += 1;
        }
    }
    assert_eq!(counts, [9u32; 26]);
}
