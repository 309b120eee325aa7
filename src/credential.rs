//! Password credentials: the slow salted scheme used for new accounts, the
//! unsalted legacy digest kept for accounts that have not logged in since,
//! and the rule that tells the two apart in stored data.

use vstd::prelude::*;
use crate::text::same_text;

verus! {

#[verifier::external_type_specification]
#[verifier::external_body]
pub struct ExBcryptError(bcrypt::BcryptError);

/// What `bcrypt::verify` answers for a password and a stored hash:
/// `None` where the hash cannot be parsed or its cost is refused.
pub uninterp spec fn bcrypt_verdict(password: Seq<char>, hash: Seq<char>) -> Option<bool>;

/// The lowercase hex SHA-256 digest of a password's UTF-8 bytes.
pub uninterp spec fn sha256_hex(password: Seq<char>) -> Seq<char>;

/// The two credential encodings found in stored accounts.
#[derive(Clone, Copy, Debug, PartialEq, Eq, Structural)]
pub enum CredentialScheme {
    /// A bcrypt-family hash, recognised by its `$2` prefix.
    Modern,
    /// Exactly 64 hexadecimal characters: an unsalted SHA-256 digest.
    Legacy,
    /// Neither encoding: no password can match it.
    Unrecognized,
}

pub open spec fn is_hex_digit(c: char) -> bool {
    ('0' <= c && c <= '9') || ('a' <= c && c <= 'f') || ('A' <= c && c <= 'F')
}

/// The shape of a legacy credential: 64 hexadecimal characters.
pub open spec fn is_legacy_encoding(h: Seq<char>) -> bool {
    h.len() == 64 && forall|i: int| 0 <= i < h.len() ==> is_hex_digit(#[trigger] h[i])
}

/// The shape of a modern credential: it starts with `$2`.
pub open spec fn has_modern_prefix(h: Seq<char>) -> bool {
    h.len() >= 2 && h[0] == '$' && h[1] == '2'
}

pub open spec fn scheme_of(h: Seq<char>) -> CredentialScheme {
    if has_modern_prefix(h) {
        CredentialScheme::Modern
    } else if is_legacy_encoding(h) {
        CredentialScheme::Legacy
    } else {
        CredentialScheme::Unrecognized
    }
}

/// Relies on `bcrypt::hash` at `bcrypt::DEFAULT_COST`: the salt is drawn at
/// random, the text is `$2b$12$` followed by 22 characters of salt and 31 of
/// hash, and `bcrypt::verify` recomputes the same hash from that salt and cost.
#[verifier::external_body]
pub(crate) fn hash_password(password: &str) -> (r: Result<String, bcrypt::BcryptError>)
    ensures
        r is Ok ==> r->Ok_0@.len() == 60,
        r is Ok ==> r->Ok_0@[0] == '$' && r->Ok_0@[1] == '2' && r->Ok_0@[2] == 'b',
        r is Ok ==> bcrypt_verdict(password@, r->Ok_0@) == Some(true),
{
    bcrypt::hash(password, bcrypt::DEFAULT_COST)
}

/// Relies on `bcrypt::verify`: the answer depends on the password and the
/// stored hash alone.
#[verifier::external_body]
pub(crate) fn verify_password(password: &str, hash: &str) -> (r: Result<bool, bcrypt::BcryptError>)
    ensures
        match r {
            Ok(b) => bcrypt_verdict(password@, hash@) == Some(b),
            Err(_) => bcrypt_verdict(password@, hash@) is None,
        },
{
    bcrypt::verify(password, hash)
}

/// Relies on `sha2::Sha256` over the password's UTF-8 bytes, printed with
/// `{:x}`: 32 bytes give 64 lowercase hexadecimal digits.
#[verifier::external_body]
fn sha256_hex_of(password: &str) -> (r: String)
    ensures
        r@ == sha256_hex(password@),
        r@.len() == 64,
        forall|i: int| 0 <= i < 64 ==> is_hex_digit(#[trigger] r@[i]),
{
    format!("{:x}", <sha2::Sha256 as sha2::Digest>::digest(password.as_bytes()))
}

pub fn is_hex_char(c: char) -> (r: bool)
    ensures
        r == is_hex_digit(c),
{
    ('0' <= c && c <= '9') || ('a' <= c && c <= 'f') || ('A' <= c && c <= 'F')
}

/// Whether a stored credential has the legacy shape.
pub fn is_legacy_sha256_hash(password_hash: &str) -> (r: bool)
    ensures
        r == is_legacy_encoding(password_hash@),
{
    let n = password_hash.unicode_len();
    if n != 64 {
        return false;
    }
    let mut i: usize = 0;
    while i < n
        invariant
            n == password_hash@.len(),
            i <= n,
            forall|k: int| 0 <= k < i ==> is_hex_digit(#[trigger] password_hash@[k]),
        decreases n - i,
    {
        if !is_hex_char(password_hash.get_char(i)) {
            return false;
        }
        i = i + 1;
    }
    true
}

/// Whether the password's legacy digest equals the stored one exactly.
pub fn verify_legacy_sha256(password: &str, password_hash: &str) -> (r: bool)
    ensures
        r == (sha256_hex(password@) == password_hash@),
{
    let digest = sha256_hex_of(password);
    same_text(digest.as_str(), password_hash)
}

/// Which encoding a stored credential is in.
pub fn classify_credential(password_hash: &str) -> (r: CredentialScheme)
    ensures
        r == scheme_of(password_hash@),
{
    let n = password_hash.unicode_len();
    if n >= 2 && password_hash.get_char(0) == '$' && password_hash.get_char(1) == '2' {
        CredentialScheme::Modern
    } else if is_legacy_sha256_hash(password_hash) {
        CredentialScheme::Legacy
    } else {
        CredentialScheme::Unrecognized
    }
}

} // verus!
