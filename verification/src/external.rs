use vstd::prelude::*;

use crate::auth::Claims;

verus! {

/// What bcrypt's verifier decides for a password against a stored hash:
/// `None` when the stored hash cannot be used (it does not parse, or its
/// embedded cost lies outside bcrypt's accepted range), otherwise whether
/// the password matches. The verdict re-derives the digest from the
/// password and the salt embedded in the hash, so it is a function of the
/// two arguments alone.
pub uninterp spec fn spec_bcrypt_check(password: Seq<char>, hash: Seq<char>) -> Option<bool>;

/// What the HS256 signer produces for a subject id, an expiry and a
/// secret: an HMAC over the serialized claims, a function of the three
/// arguments alone.
pub uninterp spec fn spec_signed_token(subject: int, expiry: int, secret: Seq<char>) -> Seq<char>;

/// Relies on bcrypt::hash with DEFAULT_COST: the salt comes from the
/// operating system's randomness, so nothing is promised of the digest.
#[verifier::external_body]
pub(crate) fn bcrypt_hash(password: &str) -> (r: Result<String, ()>) {
    bcrypt::hash(password, bcrypt::DEFAULT_COST).map_err(|_| ())
}

/// Relies on bcrypt::verify: it parses the stored hash, recomputes the
/// digest with the embedded salt and compares, failing only on a hash it
/// cannot parse.
#[verifier::external_body]
pub(crate) fn bcrypt_verify(password: &str, hash: &str) -> (r: Result<bool, ()>)
    ensures
        r is Ok <==> spec_bcrypt_check(password@, hash@) is Some,
        r matches Ok(b) ==> Some(b) == spec_bcrypt_check(password@, hash@),
{
    bcrypt::verify(password, hash).map_err(|_| ())
}

/// Relies on jsonwebtoken::encode with the default header (HS256) and a
/// secret key: signing is an HMAC over the serialized claims, deterministic
/// in the arguments, and cannot fail for this algorithm and key pairing.
#[verifier::external_body]
pub(crate) fn jwt_encode(subject: i32, expiry: i64, secret: &str) -> (r: String)
    ensures
        r@ == spec_signed_token(subject as int, expiry as int, secret@),
{
    let mut claims = serde_json::Map::new();
    claims.insert("id".to_string(), serde_json::Value::from(subject));
    claims.insert("exp".to_string(), serde_json::Value::from(expiry));
    jsonwebtoken::encode(
        &jsonwebtoken::Header::default(),
        &serde_json::Value::Object(claims),
        &jsonwebtoken::EncodingKey::from_secret(secret.as_bytes()),
    ).expect("HS256 signing over a secret key accepts any input")
}

/// Relies on jsonwebtoken::decode with HS256: it checks the signature and
/// the expiry against the system clock, so nothing is promised of the
/// outcome; the account checks run in verified code on whatever comes back.
#[verifier::external_body]
pub fn verify_token(token: &str, secret: &str) -> (r: Option<Claims>) {
    let validation = jsonwebtoken::Validation::new(jsonwebtoken::Algorithm::HS256);
    let key = jsonwebtoken::DecodingKey::from_secret(secret.as_bytes());
    let data = jsonwebtoken::decode::<serde_json::Value>(token, &key, &validation).ok()?;
    let id = i32::try_from(data.claims.get("id")?.as_i64()?).ok()?;
    let exp = data.claims.get("exp")?.as_i64()?;
    Some(Claims { id, exp })
}

/// Relies on uuid::Uuid::new_v4 rendered in its hyphenated form: the value
/// is random and unguessable, so only its 36-character shape is promised.
#[verifier::external_body]
pub(crate) fn fresh_token() -> (r: String)
    ensures
        r@.len() == 36,
{
    uuid::Uuid::new_v4().to_string()
}

/// Relies on chrono::Utc::now: the clock's reading is environmental, so
/// nothing is promised of the value.
#[verifier::external_body]
pub fn now_seconds() -> (r: i64) {
    chrono::Utc::now().timestamp()
}

} // verus!
