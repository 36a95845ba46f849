//! Token issuance and verification: a single-entry claim map
//! {username: password} signed with a fixed shared secret by HMAC-SHA-256,
//! through a JWT library.

use std::collections::BTreeMap;

use hmac::Hmac;
use hmac::Mac;
use jwt::SignWithKey;
use jwt::VerifyWithKey;
use sha2::Sha256;

use vstd::prelude::*;
use vstd::string::StrSliceExecFns;
use vstd::string::StringExecFns;

use crate::user_controller::PasswordLoginForm;

verus! {

/// The token that HMAC-SHA-256 JWT signing produces for the single claim
/// map {username: password} under the key bytes `secret`.
pub uninterp spec fn token_of(secret: Seq<u8>, username: Seq<char>, password: Seq<char>) -> Seq<
    char,
>;

/// Relies on jwt's `SignWithKey` for a `BTreeMap<String, String>` claim map
/// with an `Hmac<Sha256>` key: the token is a function of the key bytes and
/// the claim pair alone, and is built as three dot-separated parts, so it is
/// never empty. `Hmac::new_from_slice` accepts a key of any length, and
/// signing a map of strings cannot fail, so the unwraps cannot panic.
#[verifier::external_body]
fn sign_single_claim(secret: &[u8], username: &str, password: &str) -> (r: String)
    ensures
        r@ == token_of(secret@, username@, password@),
        r@.len() > 0,
{
    let key: Hmac<Sha256> = Hmac::new_from_slice(secret).unwrap();
    let mut claims: BTreeMap<String, String> = BTreeMap::new();
    claims.insert(username.to_string(), password.to_string());
    claims.sign_with_key(&key).unwrap()
}

/// Relies on jwt's `VerifyWithKey` for `BTreeMap<String, String>` claims with
/// an `Hmac<Sha256>` key: verifying a token that signing produced under the
/// same key recovers exactly the claim map that was signed; a string that
/// does not parse as a token, or whose signature does not match, is refused.
#[verifier::external_body]
fn verify_single_claim(secret: &[u8], token: &str) -> (r: Option<Vec<(String, String)>>)
    ensures
        r is None ==> forall|u: Seq<char>, p: Seq<char>| token@ != #[trigger] token_of(
            secret@,
            u,
            p,
        ),
        r matches Some(v) ==> forall|u: Seq<char>, p: Seq<char>| token@ == #[trigger] token_of(
            secret@,
            u,
            p,
        ) ==> v.deep_view() =~= seq![(u, p)],
{
    let key: Hmac<Sha256> = Hmac::new_from_slice(secret).unwrap();
    let claims: Result<BTreeMap<String, String>, jwt::Error> = token.verify_with_key(&key);
    match claims {
        Ok(map) => Some(map.into_iter().collect()),
        Err(_) => None,
    }
}

/// The key bytes both issuance and verification sign with.
pub open spec fn signing_secret() -> Seq<u8> {
    vstd::utf8::encode_utf8("some-secret"@)
}

/// The claim pair the verification path hands out: the first entry whose
/// username is at least five characters long, or the empty pair when there
/// is none.
pub open spec fn extracted_user(claims: Seq<(Seq<char>, Seq<char>)>) -> (Seq<char>, Seq<char>)
    decreases claims.len(),
{
    if claims.len() == 0 {
        (Seq::empty(), Seq::empty())
    } else if claims[0].0.len() >= 5 {
        claims[0]
    } else {
        extracted_user(claims.drop_first())
    }
}

/// Walks a recovered claim map and picks the entry `extracted_user`
/// describes.
pub fn extract_claim(claims: &Vec<(String, String)>) -> (r: (String, String))
    ensures
        r.0@ == extracted_user(claims.deep_view()).0,
        r.1@ == extracted_user(claims.deep_view()).1,
{
    let ghost dv = claims.deep_view();
    let mut j: usize = 0;
    proof {
        assert(dv.skip(0) =~= dv);
    }
    while j < claims.len()
        invariant
            0 <= j <= claims.len(),
            dv == claims.deep_view(),
            dv.len() == claims.len(),
            extracted_user(dv) == extracted_user(dv.skip(j as int)),
        decreases claims.len() - j,
    {
        proof {
            assert(dv.skip(j as int)[0] == dv[j as int]);
            assert(dv.skip(j as int).drop_first() =~= dv.skip(j as int + 1));
            assert(dv[j as int] == (claims@[j as int].0@, claims@[j as int].1@));
        }
        if claims[j].0.as_str().unicode_len() >= 5 {
            return (claims[j].0.clone(), claims[j].1.clone());
        }
        j += 1;
    }
    (String::new(), String::new())
}

/// Signs the single-entry claim map {username: password} with the fixed
/// shared secret, producing the opaque session token.
pub fn get_token_for_user(u: &PasswordLoginForm) -> (r: String)
    ensures
        r@ == token_of(signing_secret(), u.username@, u.password@),
        r@.len() > 0,
{
    sign_single_claim("some-secret".as_bytes(), u.username.as_str(), u.password.as_str())
}

/// Unsigns a token with the fixed shared secret and extracts its claim
/// entry: for a token issued for (username, password), the pair comes back
/// when the username is at least five characters long, and the empty pair
/// otherwise; a string that is not a valid token yields nothing. This is a
/// standalone primitive: no request path checks tokens.
pub fn get_user_by_token(token: String) -> (r: Option<(String, String)>)
    ensures
        forall|u: Seq<char>, p: Seq<char>| token@ == #[trigger] token_of(signing_secret(), u, p)
            ==> (r matches Some(pair) && pair.0@ == extracted_user(seq![(u, p)]).0 && pair.1@
            == extracted_user(seq![(u, p)]).1),
{
    match verify_single_claim("some-secret".as_bytes(), token.as_str()) {
        None => None,
        Some(v) => Some(extract_claim(&v)),
    }
}

/// Sign-then-verify round trip: the claim map {username: password} comes
/// back as the original pair when the username is at least five characters
/// long, and as the empty pair otherwise.
pub proof fn lemma_token_round_trip(u: Seq<char>, p: Seq<char>)
    ensures
        u.len() >= 5 ==> extracted_user(seq![(u, p)]) == (u, p),
        u.len() < 5 ==> extracted_user(seq![(u, p)]) == (
            Seq::<char>::empty(),
            Seq::<char>::empty(),
        ),
{
    let c = seq![(u, p)];
    assert(c[0] == (u, p));
    if u.len() < 5 {
        assert(c.drop_first() =~= Seq::<(Seq<char>, Seq<char>)>::empty());
        assert(extracted_user(c) == extracted_user(c.drop_first()));
        assert(extracted_user(c.drop_first()) == (Seq::<char>::empty(), Seq::<char>::empty()));
    }
}

} // verus!
