//! Password hashing and random secrets, through `argon2` and `rand`.
use vstd::prelude::*;
use vstd::string::StringSliceAdditionalSpecFns;
use crate::text::owned;
use argon2::password_hash::rand_core::{OsRng, RngCore};
use argon2::password_hash::SaltString;
use argon2::{Argon2, PasswordHash, PasswordHasher, PasswordVerifier};


verus! {

/// Whether `argon2::PasswordHash::new` accepts a text as a PHC hash string.
pub uninterp spec fn phc_parses(hash: Seq<char>) -> bool;

/// Whether Argon2 (default instance) accepts `password` against the PHC hash string `hash`.
pub uninterp spec fn argon2_accepts(password: Seq<char>, hash: Seq<char>) -> bool;

/// Calls `argon2::PasswordHash::new` and reports whether it parsed.
/// Claimed: the answer is `phc_parses` of the text, a function of the text alone.
#[verifier::external_body]
pub(crate) fn password_hash_parses(hash: &str) -> (r: bool)
    ensures
        r == phc_parses(hash@),
{
    PasswordHash::new(hash).is_ok()
}

/// Calls `PasswordVerifier::verify_password` of `Argon2::default()` on the hash
/// that `PasswordHash::new` parses from `hash`.
/// Claimed: for a parsable hash the answer is `argon2_accepts(password, hash)`,
/// a function of the two texts alone.
#[verifier::external_body]
pub(crate) fn password_verifies(password: &str, hash: &str) -> (r: bool)
    requires
        phc_parses(hash@),
    ensures
        r == argon2_accepts(password@, hash@),
{
    match PasswordHash::new(hash) {
        Ok(parsed) => Argon2::default().verify_password(password.as_bytes(), &parsed).is_ok(),
        Err(_) => false,
    }
}

/// Whether a password is short enough for Argon2: at most `0xFFFF_FFFF`
/// bytes once encoded as UTF-8.
pub open spec fn password_fits(password: &str) -> bool {
    password.spec_bytes().len() <= 0xFFFF_FFFF
}

/// Calls `PasswordHasher::hash_password` of `Argon2::default()` with a salt from
/// `SaltString::generate(&mut OsRng)` and renders the PHC string, or the
/// error's text.
/// Claimed: an `Ok` hash parses and accepts the password it was made from (the
/// verifier recomputes the hash with the salt and parameters the string holds).
/// With the default parameters and a generated 16-byte salt, the one input
/// check that can fail is the password's length: more than `0xFFFF_FFFF`
/// bytes of UTF-8 gives `PwdTooLong`, which `password_hash` shows as
/// "invalid password"; any shorter password is hashed.
/// Which hash comes out depends on the random salt and is not stated.
#[verifier::external_body]
pub(crate) fn argon2_hash(password: &str) -> (r: Result<String, String>)
    ensures
        match r {
            Ok(h) => password_fits(password) && phc_parses(h@) && argon2_accepts(password@, h@),
            Err(e) => !password_fits(password) && e@ == "invalid password"@,
        },
{
    let salt = SaltString::generate(&mut OsRng);
    match Argon2::default().hash_password(password.as_bytes(), &salt) {
        Ok(hash) => Ok(hash.to_string()),
        Err(e) => Err(e.to_string()),
    }
}

/// Calls `RngCore::next_u32` of the operating system's generator (`OsRng`).
/// Nothing is stated of the value.
#[verifier::external_body]
pub(crate) fn os_random_u32() -> u32 {
    OsRng.next_u32()
}

/// Calls `rand::random_range(0..n)`.
/// Claimed: the value lies in the range, which is not empty.
#[verifier::external_body]
pub(crate) fn random_below(n: u32) -> (r: u32)
    requires
        n > 0,
    ensures
        r < n,
{
    rand::random_range(0..n)
}

/// The `i`-th character of `A-Z`, `a-z`, `0-9` (62 characters).
pub open spec fn alnum_char(i: int) -> char {
    if i < 26 {
        (65 + i) as char
    } else if i < 52 {
        (97 + i - 26) as char
    } else {
        (48 + i - 52) as char
    }
}

/// The characters a BGP password is made of.
pub open spec fn is_alnum_char(c: char) -> bool {
    exists|i: int| 0 <= i < 62 && alnum_char(i) == c
}

/// The password that random words select: each word picks `alnum_char(word % 62)`.
pub open spec fn bgp_pass_of(words: Seq<u32>) -> Seq<char> {
    Seq::new(words.len(), |i: int| alnum_char((words[i] % 62) as int))
}

fn alnum_at(i: u32) -> (c: char)
    requires
        i < 62,
    ensures
        c == alnum_char(i as int),
{
    if i < 26 {
        (65u8 + i as u8) as char
    } else if i < 52 {
        (97u8 + (i - 26) as u8) as char
    } else {
        (48u8 + (i - 52) as u8) as char
    }
}

/// The password selected by the given random words.
pub fn bgp_pass_from_words(words: &Vec<u32>) -> (r: String)
    ensures
        r@ == bgp_pass_of(words@),
{
    let mut s = String::new();
    let mut i: usize = 0;
    while i < words.len()
        invariant
            i <= words.len(),
            s@ == bgp_pass_of(words@.take(i as int)),
        decreases words.len() - i,
    {
        s.push(alnum_at(words[i] % 62));
        i = i + 1;
        assert(s@ =~= bgp_pass_of(words@.take(i as int)));
    }
    assert(words@.take(i as int) =~= words@);
    s
}

/// Nine random characters out of `A-Z`, `a-z`, `0-9`.
pub fn generate_bgp_pass() -> (r: String)
    ensures
        r@.len() == 9,
        forall|i: int| 0 <= i < 9 ==> is_alnum_char(#[trigger] r@[i]),
{
    let mut words: Vec<u32> = Vec::new();
    let mut k: usize = 0;
    while k < 9
        invariant
            k <= 9,
            words@.len() == k,
        decreases 9 - k,
    {
        words.push(os_random_u32());
        k = k + 1;
    }
    let r = bgp_pass_from_words(&words);
    assert forall|i: int| 0 <= i < 9 implies is_alnum_char(#[trigger] r@[i]) by {
        assert(r@[i] == alnum_char((words@[i] % 62) as int));
    }
    r
}

/// Hashes a password with a fresh random salt. Every password of at most
/// `0xFFFF_FFFF` bytes of UTF-8 is hashed; a longer one is refused.
pub fn hash_password(password: &str) -> (r: Result<String, String>)
    ensures
        match r {
            Ok(h) => password_fits(password) && phc_parses(h@) && argon2_accepts(password@, h@),
            Err(e) => !password_fits(password) && e@ == "Password hash error: invalid password"@,
        },
{
    match argon2_hash(password) {
        Ok(h) => Ok(h),
        Err(e) => {
            let mut m = owned("Password hash error: ");
            m.push_str(e.as_str());
            proof {
                reveal_strlit("Password hash error: ");
                reveal_strlit("invalid password");
                reveal_strlit("Password hash error: invalid password");
                assert(m@ =~= "Password hash error: invalid password"@);
            }
            Err(m)
        },
    }
}

/// Whether `password` matches the stored PHC hash (false when the hash does not parse).
pub fn check_password(password: &str, hash: &str) -> (r: bool)
    ensures
        r == (phc_parses(hash@) && argon2_accepts(password@, hash@)),
{
    if password_hash_parses(hash) {
        password_verifies(password, hash)
    } else {
        false
    }
}

} // verus!
