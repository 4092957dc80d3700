use neon_auth::crypto::code_challenge;
use neon_auth::error_handler::AuthError;
use neon_auth::session::{ct_eq, split_token};
use neon_auth::strings::{char_of_draw, generate_random_string, image_path, is_valid_image_name, string_from_draws};

#[test]
fn draws_map_onto_the_alphabet() {
    assert_eq!(char_of_draw(0), Some('0'));
    assert_eq!(char_of_draw(9), Some('9'));
    assert_eq!(char_of_draw(10), Some('A'));
    assert_eq!(char_of_draw(35), Some('Z'));
    assert_eq!(char_of_draw(36), Some('a'));
    assert_eq!(char_of_draw(61), Some('z'));
    assert_eq!(char_of_draw(62), Some('0'));
    assert_eq!(char_of_draw(247), Some('z'));
    assert_eq!(char_of_draw(248), None);
    assert_eq!(char_of_draw(255), None);
}

#[test]
fn every_character_is_hit_by_four_bytes() {
    let mut counts = std::collections::HashMap::new();
    for b in 0..=255u8 {
        if let Some(c) = char_of_draw(b) {
            *counts.entry(c).or_insert(0) += 1;
        }
    }
    assert_eq!(counts.len(), 62);
    assert!(counts.values().all(|&n| n == 4));
}

#[test]
fn draws_spell_a_string() {
    assert_eq!(string_from_draws(&vec![1, 11, 250, 37, 63]), "1Bb1");
    assert_eq!(string_from_draws(&vec![]), "");
    assert_eq!(string_from_draws(&vec![248, 255]), "");
}

#[test]
fn random_strings_have_length_and_alphabet() {
    for len in [0usize, 12, 48, 128] {
        let s = generate_random_string(len).unwrap();
        assert_eq!(s.chars().count(), len);
        assert!(s.chars().all(|c| c.is_ascii_alphanumeric()));
    }
    assert_ne!(generate_random_string(48), generate_random_string(48));
}

#[test]
fn challenge_is_base64url_of_digest() {
    assert_eq!(code_challenge("abc"), "ungWv48Bz-pBQUDeXa4iI7ADYaOWF3qctBD_YfIAFa0");
}

#[test]
fn tokens_split_at_the_only_separator() {
    let (s, v) = split_token("sel:val").unwrap();
    assert_eq!(s, "sel");
    assert_eq!(v, "val");
    let (s, v) = split_token(":").unwrap();
    assert_eq!(s, "");
    assert_eq!(v, "");
    assert_eq!(split_token("noseparator"), Err(AuthError::TokenMalformed));
    assert_eq!(split_token("a:b:c"), Err(AuthError::TokenMalformed));
    assert_eq!(split_token(""), Err(AuthError::TokenMalformed));
}

#[test]
fn comparison_is_exact() {
    assert!(ct_eq("abc", "abc"));
    assert!(!ct_eq("abc", "abd"));
    assert!(!ct_eq("abc", "abcd"));
    assert!(!ct_eq("abcd", "abc"));
    assert!(ct_eq("", ""));
}

#[test]
fn image_names_are_checked() {
    assert!(is_valid_image_name("Ab3dEf7hIj0lMn9p"));
    assert!(!is_valid_image_name("Ab3dEf7hIj0lMn9"));
    assert!(!is_valid_image_name("../etc/passwd0000"));
    assert!(!is_valid_image_name("Ab3dEf7hIj0lMn9."));
    assert!(is_valid_image_name(&generate_random_string(16).unwrap()));
    assert_eq!(image_path("Ab3dEf7hIj0lMn9p"), "images/Ab/Ab3dEf7hIj0lMn9p.webp");
}
