//! Signing a claim into a token and reading a claim back out of one.
//!
//! The tokens are JSON Web Tokens signed with HMAC-SHA-512. Building and
//! checking them is the work of the `jsonwebtoken` crate; what is decided
//! here is which claims go in and which have to come out.

use vstd::prelude::*;
use vstd::utf8::encode_utf8;
use crate::cli::jwt::SignClaimOpts;
use crate::cli::jwt::VerifyOpts;
use crate::text::occurrences::occurrences;

verus! {

/// What a token says: whom it is about, which company it is for, and when
/// it expires, in seconds since the epoch.
#[derive(Debug)]
pub struct Claims {
    /// Whom the token is about.
    pub sub: String,
    /// The company the token is for.
    pub company: String,
    /// When the token expires.
    pub exp: u64,
}

/// A claim as a mathematical value.
pub struct ClaimsView {
    /// Whom the token is about.
    pub sub: Seq<char>,
    /// The company the token is for.
    pub company: Seq<char>,
    /// When the token expires.
    pub exp: u64,
}

impl View for Claims {
    type V = ClaimsView;

    open spec fn view(&self) -> ClaimsView {
        ClaimsView { sub: self.sub@, company: self.company@, exp: self.exp }
    }
}

/// Why no token was signed or no claim was read.
#[derive(Debug)]
pub enum JwtError {
    /// The token was not built, or was not accepted; with the reason that
    /// `jsonwebtoken` gave.
    Rejected(String),
    /// The token was accepted, but does not hold all of a claim: a subject
    /// and a company as texts, and an expiry as an unsigned number.
    IncompleteClaims,
}

/// The error type of `jsonwebtoken`.
#[verifier::external_type_specification]
#[verifier::external_body]
pub struct ExJwtError(jsonwebtoken::errors::Error);

/// The member of a token's claims that says whom the token is about.
pub const SUBJECT_MEMBER: &'static str = "sub";

/// The member of a token's claims that says which company the token is for.
pub const COMPANY_MEMBER: &'static str = "company";

/// The member of a token's claims that says when the token expires.
pub const EXPIRY_MEMBER: &'static str = "exp";

/// What `jsonwebtoken::encode` gives with HMAC-SHA-512 for a key id, a
/// secret and three claims, each with the name of its member, two texts and
/// a number, in this order: the token, or nothing where it builds none.
pub uninterp spec fn hs512_token(
    key_id: Seq<char>,
    secret: Seq<u8>,
    first_name: Seq<char>,
    first: Seq<char>,
    second_name: Seq<char>,
    second: Seq<char>,
    third_name: Seq<char>,
    third: u64,
) -> Option<Seq<char>>;

/// Signs three claims with `jsonwebtoken::encode`. The header names
/// HMAC-SHA-512 and the key id; the claims are handed over as a JSON object
/// with the three members in the order given. Whether a token is built, and
/// which, depends on nothing but the arguments; that one is built is not
/// claimed.
#[verifier::external_body]
fn hs512_encode(
    key_id: &str,
    secret: &[u8],
    first: (&str, &str),
    second: (&str, &str),
    third: (&str, u64),
) -> (token: Result<String, jsonwebtoken::errors::Error>)
    ensures
        token matches Ok(text) ==> hs512_token(
            key_id@,
            secret@,
            first.0@,
            first.1@,
            second.0@,
            second.1@,
            third.0@,
            third.1,
        ) == Some(text@),
        token is Err ==> hs512_token(
            key_id@,
            secret@,
            first.0@,
            first.1@,
            second.0@,
            second.1@,
            third.0@,
            third.1,
        ) is None,
{
    let mut header = jsonwebtoken::Header::new(jsonwebtoken::Algorithm::HS512);
    header.kid = Some(key_id.to_string());
    let mut object = serde_json::Map::new();
    object.insert(first.0.to_string(), first.1.into());
    object.insert(second.0.to_string(), second.1.into());
    object.insert(third.0.to_string(), third.1.into());
    jsonwebtoken::encode(&header, &object, &jsonwebtoken::EncodingKey::from_secret(secret))
}

/// The text has the outer form of a token: at least three parts, with a `.`
/// between one and the next.
pub open spec fn has_three_parts(token: Seq<char>) -> bool {
    occurrences(token, seq!['.']) >= 2
}

/// Checks a token with `jsonwebtoken::decode`, for HMAC-SHA-512 and with the
/// crate's default checks, and hands out three members of its claims by
/// their names: two texts and an unsigned number, each where the member is
/// there and of that kind. Before it reads any part of the text, `decode`
/// splits it at its last `.` and what stands before that at its last `.`
/// again, and refuses a text that has not both, so a text that it accepts
/// has three parts. The checks compare the expiry with the clock, so nothing
/// more is claimed of the result.
#[verifier::external_body]
fn hs512_decode(token: &str, secret: &[u8], first: &str, second: &str, third: &str) -> (read:
    Result<(Option<String>, Option<String>, Option<u64>), jsonwebtoken::errors::Error>)
    ensures
        read is Ok ==> has_three_parts(token@),
{
    let key = jsonwebtoken::DecodingKey::from_secret(secret);
    let checks = jsonwebtoken::Validation::new(jsonwebtoken::Algorithm::HS512);
    let object = jsonwebtoken::decode::<serde_json::Map<String, serde_json::Value>>(
        token,
        &key,
        &checks,
    )?.claims;
    Ok(
        (
            object.get(first).and_then(serde_json::Value::as_str).map(str::to_string),
            object.get(second).and_then(serde_json::Value::as_str).map(str::to_string),
            object.get(third).and_then(serde_json::Value::as_u64),
        ),
    )
}

/// The reason that `jsonwebtoken` gives for an error, in words.
#[verifier::external_body]
fn error_text(error: &jsonwebtoken::errors::Error) -> String {
    error.to_string()
}

/// The claim that is signed for the given options: about the subject, for
/// the audience as the company, until the expiry.
pub open spec fn claims_of(opts: SignClaimOpts) -> ClaimsView {
    ClaimsView { sub: opts.sub@, company: opts.aud@, exp: opts.exp as u64 }
}

/// The token that is signed for the given options, or nothing where none is
/// built. The secret is the key, and also the key id in the token's header.
pub open spec fn token_of(opts: SignClaimOpts) -> Option<Seq<char>> {
    hs512_token(
        opts.secret@,
        encode_utf8(opts.secret@),
        SUBJECT_MEMBER@,
        claims_of(opts).sub,
        COMPANY_MEMBER@,
        claims_of(opts).company,
        EXPIRY_MEMBER@,
        claims_of(opts).exp,
    )
}

/// Builds the claim that is signed for the given options.
pub fn claims_for(opts: &SignClaimOpts) -> (claims: Claims)
    ensures
        claims@ == claims_of(*opts),
{
    Claims { sub: opts.sub.clone(), company: opts.aud.clone(), exp: opts.exp as u64 }
}

/// Puts a claim together from the members that a token held. All three are
/// needed.
pub fn claims_from(sub: Option<String>, company: Option<String>, exp: Option<u64>) -> (claims:
    Result<Claims, JwtError>)
    ensures
        claims is Ok <==> sub is Some && company is Some && exp is Some,
        claims matches Ok(held) ==> held@ == (ClaimsView {
            sub: sub->0@,
            company: company->0@,
            exp: exp->0,
        }),
        claims matches Err(reason) ==> reason is IncompleteClaims,
{
    match (sub, company, exp) {
        (Some(sub), Some(company), Some(exp)) => Ok(Claims { sub, company, exp }),
        _ => Err(JwtError::IncompleteClaims),
    }
}

/// Signs the claim that the options describe. The outcome is the one that
/// `token_of` names: where it names a token, that token comes back; where it
/// names none, the signing fails with the reason that `jsonwebtoken` gave.
pub fn process_encode_jwt(opts: &SignClaimOpts) -> (token: Result<String, JwtError>)
    ensures
        token_of(*opts) matches Some(text) ==> (token matches Ok(signed) && signed@ == text),
        token_of(*opts) is None ==> (token matches Err(reason) && reason is Rejected),
{
    let claims = claims_for(opts);
    let signed = hs512_encode(
        opts.secret.as_str(),
        opts.secret.as_str().as_bytes(),
        (SUBJECT_MEMBER, claims.sub.as_str()),
        (COMPANY_MEMBER, claims.company.as_str()),
        (EXPIRY_MEMBER, claims.exp),
    );
    match signed {
        Ok(text) => Ok(text),
        Err(error) => Err(JwtError::Rejected(error_text(&error))),
    }
}

/// Checks a token against the secret and reads the claim out of it. A text
/// that has not three parts is rejected, with the reason that `jsonwebtoken`
/// gave. Whether any other is accepted is for `jsonwebtoken` and the clock to
/// say; one that is accepted gives a claim where it holds all of one.
pub fn process_decode_jwt(opts: &VerifyOpts) -> (claims: Result<Claims, JwtError>)
    ensures
        !has_three_parts(opts.token@) ==> (claims matches Err(reason) && reason is Rejected),
{
    let read = hs512_decode(
        opts.token.as_str(),
        opts.secret.as_str().as_bytes(),
        SUBJECT_MEMBER,
        COMPANY_MEMBER,
        EXPIRY_MEMBER,
    );
    match read {
        Ok((sub, company, exp)) => claims_from(sub, company, exp),
        Err(error) => Err(JwtError::Rejected(error_text(&error))),
    }
}

} // verus!
