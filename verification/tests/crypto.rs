use gvls::crypto::{check_password, generate_bgp_pass, hash_password};

#[test]
fn a_hash_accepts_its_password_only() {
    let h = hash_password("correct horse").unwrap();
    assert!(h.starts_with("$argon2id$"));
    assert!(check_password("correct horse", &h));
    assert!(!check_password("wrong horse", &h));
}

#[test]
fn two_hashes_of_one_password_differ_by_salt() {
    let a = hash_password("pw").unwrap();
    let b = hash_password("pw").unwrap();
    assert_ne!(a, b);
    assert!(check_password("pw", &a) && check_password("pw", &b));
}

#[test]
fn an_unparsable_hash_accepts_nothing() {
    assert!(!check_password("pw", "not a hash"));
    assert!(!check_password("", ""));
}

#[test]
fn stored_hash_from_the_deployment_notes_parses() {
    let h = "$argon2id$v=19$m=19456,t=2,p=1$VDBIWVJ0b2xkNU41bkZaVFg3bDdIYXJOUFNjU01GTDU$FVTR3jqclDhfNgSkgmg3jHfEqxKmOw5uTrjWFKM4LRA";
    assert!(!check_password("surely-not-the-password", h));
}

#[test]
fn bgp_passwords_are_nine_alphanumerics() {
    for _ in 0..20 {
        let p = generate_bgp_pass();
        assert_eq!(p.chars().count(), 9);
        assert!(p.chars().all(|c| c.is_ascii_alphanumeric()));
    }
}
