//! Account fields and bearer sessions.
use vstd::prelude::*;
use vstd::utf8::{encode_utf8, is_ascii_chars, is_ascii_chars_encode_utf8};
use crate::digest::{
    base64_url_encode, base64_url_no_pad, is_base64_url_char, random_bytes_32, sha256, sha256_digest,
};
use crate::server::ApiError;
use crate::text::{
    chars_of, concat, contains_char, ends_with, has_char, has_prefix_at, owned, starts_with,
    string_of, take_chars, utf8_len, to_lowercase, trim, trimmed, trimmed_prefix, unicode_lowercase,
};

verus! {

/// A registration request.
pub struct RegisterRequest {
    pub email: String,
    pub password: String,
    pub display_name: String,
    pub client_name: Option<String>,
}

/// A login request.
pub struct LoginRequest {
    pub email: String,
    pub password: String,
    pub client_name: Option<String>,
}

/// `k` is the position of the first `@` of `e`.
pub open spec fn first_at(e: Seq<char>, k: int) -> bool {
    0 <= k < e.len() && e[k] == '@' && forall|j: int| 0 <= j < k ==> e[j] != '@'
}

/// The checks an e-mail address passes: at most 254 bytes, and around its
/// first `@` a non-empty local part and a domain that holds a `.` and does
/// not end with one.
pub open spec fn valid_email(e: Seq<char>) -> bool {
    &&& encode_utf8(e).len() <= 254
    &&& exists|k: int|
        #![trigger first_at(e, k)]
        first_at(e, k) && k > 0 && has_char(e.skip(k + 1), '.') && !ends_with(
            e.skip(k + 1),
            "."@,
        )
}

/// The address an account is known by: trimmed, then lowercased.
pub open spec fn normalized_email(value: Seq<char>) -> Seq<char> {
    unicode_lowercase(trim(value))
}

/// A display name is 1 to 80 characters once trimmed.
pub open spec fn valid_display_name(value: Seq<char>) -> bool {
    0 < trim(value).len() <= 80
}

/// A password is 10 to 200 characters.
pub open spec fn valid_password(value: Seq<char>) -> bool {
    10 <= value.len() <= 200
}

/// The prefix of every session token.
pub open spec fn token_prefix() -> Seq<char> {
    "fab_live_"@
}

/// The token `Authorization: Bearer <token>` carries, when the header is
/// there, has that form, and the token starts with `fab_live_` and is longer
/// than 40 bytes.
pub open spec fn bearer_of(header: Option<Seq<char>>) -> Option<Seq<char>> {
    match header {
        Some(h) => if starts_with(h, "Bearer "@) {
            let t = h.skip(7);
            if starts_with(t, token_prefix()) && encode_utf8(t).len() > 40 {
                Some(t)
            } else {
                None
            }
        } else {
            None
        },
        None => None,
    }
}

/// The session token made from 32 random bytes.
pub open spec fn session_token_of(random: Seq<u8>) -> Seq<char> {
    token_prefix() + base64_url_no_pad(random)
}

/// The client name a session is recorded with: the given name, or
/// `FABA+ Custom Editor`, trimmed and cut to 100 characters.
pub open spec fn session_client_name(name: Option<Seq<char>>) -> Seq<char> {
    let raw = match name {
        Some(n) => n,
        None => "FABA+ Custom Editor"@,
    };
    take_chars(trim(raw), 100)
}

/// Checks an address already trimmed and lowercased, and keeps it.
pub fn check_email(email: String) -> (result: Result<String, ApiError>)
    ensures
        match result {
            Ok(kept) => valid_email(email@) && kept@ == email@,
            Err(error) => !valid_email(email@) && (error matches ApiError::Validation(m) && m@ == "Saisissez une adresse e-mail valide."@),
        },
{
    let v = chars_of(email.as_str());
    let byte_len = utf8_len(&v);
    let ghost e = v@;
    let mut k: usize = 0;
    while k < v.len() && v[k] != '@'
        invariant
            0 <= k <= v.len(),
            forall|j: int| 0 <= j < k ==> v@[j] != '@',
        decreases v.len() - k,
    {
        k += 1;
    }
    proof {
        reveal_strlit(".");
    }
    let mut valid = false;
    if byte_len <= 254 && k < v.len() && k > 0 {
        let has_dot = contains_char(&v, k + 1, v.len(), '.');
        let ends_dot = k + 1 < v.len() && v[v.len() - 1] == '.';
        assert(v@.subrange(k + 1, v@.len() as int) =~= e.skip(k + 1));
        assert(ends_with(e.skip(k + 1), "."@) == ends_dot) by {
            let d = e.skip(k + 1);
            if k + 1 < v.len() {
                let last = d.skip(d.len() - 1);
                assert(last =~= seq![e[v.len() - 1]]);
                if e[v.len() - 1] == '.' {
                    assert(last =~= "."@);
                } else {
                    assert(last[0] != "."@[0]);
                }
            }
        }
        valid = has_dot && !ends_dot;
        assert(first_at(e, k as int));
        assert(valid ==> valid_email(e));
        assert forall|k2: int| first_at(e, k2) implies k2 == k by {
            if k2 < k {
                assert(e[k2] != '@');
            } else if k2 > k {
                assert(e[k as int] != '@');
            }
        }
    }
    if !(k < v.len()) {
        assert forall|k2: int| !first_at(e, k2) by {
            if 0 <= k2 < e.len() {
                assert(e[k2] != '@');
            }
        }
    }
    assert(e == email@);
    if valid {
        assert(valid_email(e));
        Ok(email)
    } else {
        Err(ApiError::Validation(owned("Saisissez une adresse e-mail valide.")))
    }
}

/// Normalizes an e-mail address and checks its form.
pub fn normalize_email(value: &str) -> (result: Result<String, ApiError>)
    ensures
        match result {
            Ok(email) => valid_email(normalized_email(value@)) && email@ == normalized_email(
                value@,
            ),
            Err(error) => !valid_email(normalized_email(value@)) && (error matches ApiError::Validation(m) && m@ == "Saisissez une adresse e-mail valide."@),
        },
{
    let t = trimmed(value);
    let email = to_lowercase(t.as_str());
    check_email(email)
}

/// Trims a display name and checks that it has 1 to 80 characters.
pub fn validate_display_name(value: &str) -> (result: Result<String, ApiError>)
    ensures
        match result {
            Ok(name) => valid_display_name(value@) && name@ == trim(value@),
            Err(error) => !valid_display_name(value@) && (error matches ApiError::Validation(m) && m@ == "Le nom doit contenir entre 1 et 80 caractères."@),
        },
{
    let name = trimmed(value);
    let n = chars_of(name.as_str()).len();
    if n == 0 || n > 80 {
        return Err(ApiError::Validation(owned("Le nom doit contenir entre 1 et 80 caractères.")));
    }
    Ok(name)
}

/// Checks that a password has 10 to 200 characters.
pub fn validate_password(value: &str) -> (result: Result<(), ApiError>)
    ensures
        match result {
            Ok(()) => valid_password(value@),
            Err(error) => !valid_password(value@) && (error matches ApiError::Validation(m) && m@ == "Le mot de passe doit contenir au moins 10 caractères."@),
        },
{
    let n = chars_of(value).len();
    if n < 10 || n > 200 {
        return Err(ApiError::Validation(owned("Le mot de passe doit contenir au moins 10 caractères.")));
    }
    Ok(())
}

/// Checks a registration in the service's order: the address, then the
/// display name, then the password. Gives the normalized address and the
/// trimmed name.
pub fn validate_registration(email: &str, display_name: &str, password: &str) -> (result: Result<
    (String, String),
    ApiError,
>)
    ensures
        !valid_email(normalized_email(email@)) ==> (result matches Err(ApiError::Validation(m)) && m@
            == "Saisissez une adresse e-mail valide."@),
        valid_email(normalized_email(email@)) && !valid_display_name(display_name@) ==> (result matches Err(
            ApiError::Validation(m),
        ) && m@ == "Le nom doit contenir entre 1 et 80 caractères."@),
        valid_email(normalized_email(email@)) && valid_display_name(display_name@) && !valid_password(
            password@,
        ) ==> (result matches Err(ApiError::Validation(m)) && m@
            == "Le mot de passe doit contenir au moins 10 caractères."@),
        valid_email(normalized_email(email@)) && valid_display_name(display_name@) && valid_password(password@)
            ==> (result matches Ok((e, n)) && e@ == normalized_email(email@) && n@ == trim(display_name@)),
{
    let email = normalize_email(email)?;
    let name = validate_display_name(display_name)?;
    validate_password(password)?;
    Ok((email, name))
}

/// The session token an `Authorization` header carries.
pub fn bearer_token(header: Option<&str>) -> (result: Result<String, ApiError>)
    ensures
        match bearer_of(
            match header {
                Some(h) => Some(h@),
                None => None,
            },
        ) {
            Some(t) => result is Ok && result->Ok_0@ == t,
            None => result matches Err(ApiError::Unauthorized),
        },
{
    proof {
        reveal_strlit("Bearer ");
        reveal_strlit("fab_live_");
    }
    match header {
        Some(h) => {
            let v = chars_of(h);
            if has_prefix_at(&v, 0, "Bearer ") {
                assert(v@.skip(0) =~= v@);
                let t = string_of(&v, 7, v.len());
                assert(v@.subrange(7, v@.len() as int) =~= v@.skip(7));
                let tv = chars_of(t.as_str());
                let prefixed = has_prefix_at(&tv, 0, "fab_live_");
                assert(tv@.skip(0) =~= tv@);
                assert(tv@ == h@.skip(7));
                if prefixed && utf8_len(&tv) > 40 {
                    assert(bearer_of(Some(h@)) == Some(t@));
                    Ok(t)
                } else {
                    Err(ApiError::Unauthorized)
                }
            } else {
                assert(v@.skip(0) =~= v@);
                Err(ApiError::Unauthorized)
            }
        },
        None => Err(ApiError::Unauthorized),
    }
}

/// The session token for 32 random bytes: `fab_live_` followed by their
/// URL-safe base64 encoding.
pub fn session_token(random: &[u8; 32]) -> (token: String)
    ensures
        token@ == session_token_of(random@),
        token@.len() == 52,
        bearer_of(Some("Bearer "@ + token@)) == Some(token@),
{
    let encoded = base64_url_encode(random.as_slice());
    proof {
        reveal_strlit("fab_live_");
        reveal_strlit("Bearer ");
    }
    let token = concat("fab_live_", encoded.as_str());
    proof {
        let t = token@;
        assert(is_ascii_chars(t)) by {
            assert forall|i: int| 0 <= i < t.len() implies '\0' <= #[trigger] t[i] <= '\u{7f}' by {
                if i >= 9 {
                    assert(t[i] == encoded@[i - 9]);
                    assert(is_base64_url_char(encoded@[i - 9]));
                }
            }
        }
        is_ascii_chars_encode_utf8(t);
        let h = "Bearer "@ + t;
        assert(h.take(7) =~= "Bearer "@);
        assert(h.skip(7) =~= t);
        assert(t.take(9) =~= "fab_live_"@);
    }
    token
}

/// A fresh session token from the thread-local random generator.
pub fn new_session_token() -> (token: String)
    ensures
        exists|random: Seq<u8>| random.len() == 32 && token@ == session_token_of(random),
{
    let random = random_bytes_32();
    let token = session_token(&random);
    assert(random@.len() == 32);
    token
}

/// The SHA-256 of a token's UTF-8 bytes, the only form the service stores.
pub fn token_hash(token: &str) -> (hash: Vec<u8>)
    ensures
        hash@ == sha256(encode_utf8(token@)),
        hash@.len() == 32,
{
    sha256_digest(token.as_bytes())
}

/// The client name a new session is recorded with.
pub fn client_name_for_session(name: Option<&str>) -> (result: String)
    ensures
        result@ == session_client_name(
            match name {
                Some(n) => Some(n@),
                None => None,
            },
        ),
{
    match name {
        Some(n) => trimmed_prefix(n, 100),
        None => trimmed_prefix("FABA+ Custom Editor", 100),
    }
}

// ---------------------------------------------------------------------------
// Passwords
// ---------------------------------------------------------------------------

/// The PHC string `argon2` (0.5, default parameters: Argon2id, version 19)
/// makes of the UTF-8 bytes of `password` with the salt `salt`.
pub uninterp spec fn argon2_hash(password: Seq<char>, salt: Seq<u8>) -> Seq<char>;

/// Whether `argon2` reads `phc` as a PHC string whose hash is the one of
/// the UTF-8 bytes of `password`.
pub uninterp spec fn argon2_accepts(phc: Seq<char>, password: Seq<char>) -> bool;

/// `Argon2::default().hash_password` of the UTF-8 bytes of `password` with
/// the salt string `SaltString::encode_b64(salt)`, written as a PHC string.
/// The salt takes 8 to 48 bytes: Argon2 wants 8 at least, the salt string
/// holds 64 base64 characters at most, and a salt under 3 bytes makes the
/// hashing panic. The crate then refuses (`None`) only a password over
/// `0xFFFF_FFFF` bytes. Its
/// verifier recomputes the hash with the salt and the parameters the string
/// holds and compares, so the hash it returns is accepted for the same
/// password.
#[verifier::external_body]
fn argon2_hash_password(password: &str, salt: &[u8]) -> (phc: Option<String>)
    requires
        8 <= salt@.len() <= 48,
    ensures
        match phc {
            Some(h) => h@ == argon2_hash(password@, salt@) && argon2_accepts(h@, password@),
            None => true,
        },
        encode_utf8(password@).len() <= 0xFFFF_FFFF ==> phc is Some,
{
    let salt = match argon2::password_hash::SaltString::encode_b64(salt) {
        Ok(salt) => salt,
        Err(_) => return None,
    };
    let hasher = argon2::Argon2::default();
    match <argon2::Argon2 as argon2::PasswordHasher>::hash_password(&hasher, password.as_bytes(), &salt) {
        Ok(hash) => Some(hash.to_string()),
        Err(_) => None,
    }
}

/// `PasswordHash::new(phc)`, then `Argon2::default().verify_password` of the
/// UTF-8 bytes of `password`: whether `phc` parses and hashes `password`.
#[verifier::external_body]
fn argon2_verify_password(phc: &str, password: &str) -> (accepted: bool)
    ensures
        accepted == argon2_accepts(phc@, password@),
{
    let verifier = argon2::Argon2::default();
    match argon2::password_hash::PasswordHash::new(phc) {
        Ok(hash) => <argon2::Argon2 as argon2::PasswordVerifier>::verify_password(
            &verifier,
            password.as_bytes(),
            &hash,
        ).is_ok(),
        Err(_) => false,
    }
}

/// A text takes at most four UTF-8 bytes per character.
proof fn lemma_utf8_at_most_four_bytes(s: Seq<char>)
    ensures
        encode_utf8(s).len() <= 4 * s.len(),
    decreases s.len(),
{
    if s.len() > 0 {
        lemma_utf8_at_most_four_bytes(s.drop_first());
        assert(vstd::utf8::encode_scalar(s[0] as u32).len() <= 4);
    }
}

/// The Argon2 hash a new account's password is stored as, with a fresh
/// random salt.
pub fn hash_password(password: &str) -> (result: Result<String, ApiError>)
    ensures
        encode_utf8(password@).len() <= 0xFFFF_FFFF ==> result is Ok,
        valid_password(password@) ==> result is Ok,
        match result {
            Ok(h) => argon2_accepts(h@, password@) && exists|salt: Seq<u8>| h@ == argon2_hash(password@, salt),
            Err(e) => e matches ApiError::Internal(m) && m@ == "password hashing failed"@,
        },
{
    proof {
        lemma_utf8_at_most_four_bytes(password@);
    }
    let salt = random_bytes_32();
    match argon2_hash_password(password, salt.as_slice()) {
        Some(h) => Ok(h),
        None => Err(ApiError::Internal(owned("password hashing failed"))),
    }
}

/// Checks a login: the account exists and `password` matches its stored
/// hash. Anything else is refused alike.
pub fn check_login(stored_hash: Option<&str>, password: &str) -> (result: Result<(), ApiError>)
    ensures
        match stored_hash {
            Some(h) => if argon2_accepts(h@, password@) {
                result is Ok
            } else {
                result == Err::<(), ApiError>(ApiError::Unauthorized)
            },
            None => result == Err::<(), ApiError>(ApiError::Unauthorized),
        },
{
    match stored_hash {
        Some(h) => if argon2_verify_password(h, password) {
            Ok(())
        } else {
            Err(ApiError::Unauthorized)
        },
        None => Err(ApiError::Unauthorized),
    }
}

/// Whether a failed account insertion is a taken address: PostgreSQL's
/// unique violation, code `23505`.
pub fn is_duplicate_account(code: Option<&str>) -> (taken: bool)
    ensures
        taken == (match code {
            Some(c) => c@ == "23505"@,
            None => false,
        }),
{
    match code {
        Some(c) => crate::text::same_text(c, "23505"),
        None => false,
    }
}

} // verus!
