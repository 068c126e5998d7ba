use vstd::prelude::*;
use jsonwebtoken::errors::ErrorKind;
use jsonwebtoken::{Algorithm, DecodingKey, Validation};

verus! {

#[verifier::external_type_specification]
#[verifier::external_body]
pub struct ExDecodingKey(DecodingKey);

#[verifier::external_type_specification]
#[verifier::external_body]
pub struct ExValidation(Validation);

#[verifier::external_type_specification]
pub struct ExAlgorithm(Algorithm);

#[verifier::external_type_specification]
#[verifier::external_body]
pub struct ExJwtError(jsonwebtoken::errors::Error);

/// Whether jsonwebtoken accepts `n` and `e` as the base64url modulus and
/// exponent of an RSA public key.
pub uninterp spec fn rsa_components_valid(n: Seq<char>, e: Seq<char>) -> bool;

/// An RSA public key; only `rsa_key` builds one.
pub struct RsaKey {
    key: DecodingKey,
}

/// The checks handed to the token library, with a model of what they hold.
/// Only `validation_for` builds them and only the `require_*` functions
/// change them.
pub struct TokenChecks {
    validation: Validation,
    alg: Ghost<Algorithm>,
    issuers: Ghost<Option<Set<Seq<char>>>>,
    audiences: Ghost<Option<Set<Seq<char>>>>,
    required: Ghost<Set<Seq<char>>>,
    validates_exp: Ghost<bool>,
}

impl TokenChecks {
    /// The one algorithm that signatures must use.
    pub closed spec fn alg(&self) -> Algorithm {
        self.alg@
    }

    /// The accepted `iss` values; `None` where `iss` is not checked.
    pub closed spec fn issuers(&self) -> Option<Set<Seq<char>>> {
        self.issuers@
    }

    /// The accepted `aud` values; `None` where `aud` is not checked.
    pub closed spec fn audiences(&self) -> Option<Set<Seq<char>>> {
        self.audiences@
    }

    /// The claims that a token must carry.
    pub closed spec fn required(&self) -> Set<Seq<char>> {
        self.required@
    }

    /// Whether an elapsed `exp` is refused.
    pub closed spec fn validates_exp(&self) -> bool {
        self.validates_exp@
    }
}

/// The token holds at least two dots, as a JWT's three parts need.
pub open spec fn has_two_dots(t: Seq<char>) -> bool {
    exists|i: int, j: int| 0 <= i < j < t.len() && t[i] == '.' && t[j] == '.'
}

/// Relies on `DecodingKey::from_rsa_components`: it base64url-decodes both
/// components, fails exactly when one of them does not decode (which depends
/// on the two strings alone), and otherwise gives a key of the RSA family.
#[verifier::external_body]
fn rsa_key(n: &str, e: &str) -> (r: Result<RsaKey, jsonwebtoken::errors::Error>)
    ensures
        r is Ok <==> rsa_components_valid(n@, e@),
{
    DecodingKey::from_rsa_components(n, e).map(|key| RsaKey { key })
}

/// Relies on `Validation::new`: signatures must use `alg` alone and are
/// checked; only `exp` is required, an elapsed one is refused; neither `iss`
/// nor `aud` is checked.
#[verifier::external_body]
fn validation_for(alg: Algorithm) -> (r: TokenChecks)
    ensures
        r.alg() == alg,
        r.issuers() == None::<Set<Seq<char>>>,
        r.audiences() == None::<Set<Seq<char>>>,
        r.required() == set!["exp"@],
        r.validates_exp(),
{
    TokenChecks {
        validation: Validation::new(alg),
        alg: Ghost(alg),
        issuers: Ghost(None),
        audiences: Ghost(None),
        required: Ghost(set!["exp"@]),
        validates_exp: Ghost(true),
    }
}

/// Relies on `Validation::set_issuer`: `iss` becomes the one accepted issuer.
#[verifier::external_body]
fn require_issuer(c: &mut TokenChecks, iss: &str)
    ensures
        final(c).issuers() == Some(set![iss@]),
        final(c).alg() == old(c).alg(),
        final(c).audiences() == old(c).audiences(),
        final(c).required() == old(c).required(),
        final(c).validates_exp() == old(c).validates_exp(),
{
    c.validation.set_issuer(&[iss]);
}

/// Relies on `Validation::set_audience`: `aud` becomes the one accepted audience.
#[verifier::external_body]
fn require_audience(c: &mut TokenChecks, aud: &str)
    ensures
        final(c).audiences() == Some(set![aud@]),
        final(c).alg() == old(c).alg(),
        final(c).issuers() == old(c).issuers(),
        final(c).required() == old(c).required(),
        final(c).validates_exp() == old(c).validates_exp(),
{
    c.validation.set_audience(&[aud]);
}

/// Relies on `Validation::set_required_spec_claims`: the required claims
/// become exactly those named in `claims`.
#[verifier::external_body]
fn require_claims(c: &mut TokenChecks, claims: &Vec<String>)
    ensures
        final(c).required() == Set::new(
            |s: Seq<char>| exists|i: int| 0 <= i < claims@.len() && claims@[i]@ == s,
        ),
        final(c).alg() == old(c).alg(),
        final(c).issuers() == old(c).issuers(),
        final(c).audiences() == old(c).audiences(),
        final(c).validates_exp() == old(c).validates_exp(),
{
    c.validation.set_required_spec_claims(claims.as_slice());
}

/// Relies on `jsonwebtoken::decode` and `Error::kind`. With an RSA key and
/// RS256 the algorithm checks pass, and the token is then split at its last
/// two dots before anything else is read: a token with fewer than two dots
/// is refused as `InvalidToken`. Whether any other token passes depends on
/// the clock (`exp`), so nothing more is stated. The claims are read as a
/// map of ignored values, because serde's derive cannot stand here: the token
/// library still checks that the required claims are present and what `iss`
/// and `aud` hold, but not that `iss`, `aud` and `sub` are plain strings (an
/// `aud` list that holds the configured audience passes).
#[verifier::external_body]
fn decode_token(token: &str, key: &RsaKey, checks: &TokenChecks) -> (r: Result<(), TokenFault>)
    requires
        checks.alg() == Algorithm::RS256,
    ensures
        !has_two_dots(token@) ==> r matches Err(TokenFault::InvalidToken),
{
    match jsonwebtoken::decode::<std::collections::HashMap<String, serde::de::IgnoredAny>>(token, &key.key, &checks.validation) {
        Ok(_) => Ok(()),
        Err(e) => Err(match e.kind() {
            ErrorKind::InvalidToken => TokenFault::InvalidToken,
            ErrorKind::InvalidSignature => TokenFault::InvalidSignature,
            ErrorKind::ExpiredSignature => TokenFault::ExpiredSignature,
            ErrorKind::InvalidIssuer => TokenFault::InvalidIssuer,
            ErrorKind::InvalidAudience => TokenFault::InvalidAudience,
            ErrorKind::MissingRequiredClaim(_) => TokenFault::MissingRequiredClaim,
            ErrorKind::InvalidAlgorithm => TokenFault::InvalidAlgorithm,
            _ => TokenFault::Other,
        }),
    }
}

/// Why the token library refused a token.
#[derive(PartialEq, Eq, Structural, Clone, Copy, Debug)]
pub enum TokenFault {
    /// The token does not have the shape of a JWT.
    InvalidToken,
    /// The signature does not match the public key.
    InvalidSignature,
    /// The `exp` claim has passed.
    ExpiredSignature,
    /// The `iss` claim is not the expected issuer.
    InvalidIssuer,
    /// The `aud` claim is not the expected audience.
    InvalidAudience,
    /// A required claim is absent.
    MissingRequiredClaim,
    /// The header names another algorithm.
    InvalidAlgorithm,
    /// Any other refusal.
    Other,
}

/// Why a call was refused as unauthenticated.
#[derive(PartialEq, Eq, Structural, Clone, Copy, Debug)]
pub enum AuthError {
    /// The token does not have the shape of a JWT (an absent token included).
    MalformedToken,
    /// The token's issuer is not the configured one.
    InvalidIssuer,
    /// The token's audience is not the configured one.
    InvalidAudience,
    /// Any other failure: signature, expiry, a missing claim.
    Rejected,
}

/// The authentication error that a refusal of kind `f` is reported as.
pub open spec fn auth_error_of(f: TokenFault) -> AuthError {
    match f {
        TokenFault::InvalidToken => AuthError::MalformedToken,
        TokenFault::InvalidIssuer => AuthError::InvalidIssuer,
        TokenFault::InvalidAudience => AuthError::InvalidAudience,
        _ => AuthError::Rejected,
    }
}

impl AuthError {
    /// The message sent with the error.
    pub open spec fn message_spec(&self) -> Seq<char> {
        match *self {
            AuthError::MalformedToken => "Token shape is invalid"@,
            AuthError::InvalidIssuer => "Issuer is invalid"@,
            AuthError::InvalidAudience => "Audience is invalid"@,
            AuthError::Rejected => "Some token error"@,
        }
    }

    /// The message sent with the error.
    pub fn message(&self) -> (r: &'static str)
        ensures
            r@ == self.message_spec(),
    {
        match *self {
            AuthError::MalformedToken => "Token shape is invalid",
            AuthError::InvalidIssuer => "Issuer is invalid",
            AuthError::InvalidAudience => "Audience is invalid",
            AuthError::Rejected => "Some token error",
        }
    }

    /// Classifies a refusal of the token library.
    pub fn from_fault(f: TokenFault) -> (r: AuthError)
        ensures
            r == auth_error_of(f),
    {
        match f {
            TokenFault::InvalidToken => AuthError::MalformedToken,
            TokenFault::InvalidIssuer => AuthError::InvalidIssuer,
            TokenFault::InvalidAudience => AuthError::InvalidAudience,
            _ => AuthError::Rejected,
        }
    }
}

/// The configuration that tokens are checked against.
pub struct AuthConfig {
    /// The RSA modulus, base64url.
    pub n: String,
    /// The RSA exponent, base64url.
    pub e: String,
    /// The issuer that tokens must name.
    pub iss: String,
    /// The audience that tokens must name.
    pub aud: String,
}

/// Why a verifier could not be built.
#[derive(PartialEq, Eq, Structural, Clone, Copy, Debug)]
pub enum ConfigError {
    /// The modulus or the exponent is not valid base64url.
    MalformedKey,
}

/// The token that a call carries: its `authorization` entry, or the empty
/// string where it has none.
pub fn token_of(authorization: Option<&str>) -> (r: &str)
    ensures
        r@ == match authorization {
            Some(t) => t@,
            None => Seq::<char>::empty(),
        },
{
    proof {
        reveal_strlit("");
    }
    match authorization {
        Some(t) => t,
        None => "",
    }
}

/// The outcome of checking a token, given what the token library reported.
pub fn verdict(decoded: Result<(), TokenFault>) -> (r: Result<(), AuthError>)
    ensures
        decoded is Ok ==> r is Ok,
        decoded matches Err(f) ==> r == Err::<(), AuthError>(auth_error_of(f)),
{
    match decoded {
        Ok(()) => Ok(()),
        Err(f) => Err(AuthError::from_fault(f)),
    }
}

/// Checks bearer tokens: RS256 signatures under one public key, with `exp`,
/// `iss`, `aud` and `sub` required and `iss` and `aud` fixed.
pub struct Verifier {
    key: RsaKey,
    checks: TokenChecks,
}

impl Verifier {
    /// The checks that every token goes through.
    pub closed spec fn checks(&self) -> TokenChecks {
        self.checks
    }

    /// The checks are those that `new` sets up.
    pub open spec fn wf(&self) -> bool {
        self.checks().alg() == Algorithm::RS256
    }

    /// Builds the verifier for `config`; fails where the key material does not
    /// decode. Tokens must be signed with RS256, carry `exp`, `aud`, `iss` and
    /// `sub`, name the configured issuer and audience, and not have expired.
    pub fn new(config: &AuthConfig) -> (r: Result<Verifier, ConfigError>)
        ensures
            r is Ok <==> rsa_components_valid(config.n@, config.e@),
            r is Err ==> r == Err::<Verifier, ConfigError>(ConfigError::MalformedKey),
            r matches Ok(v) ==> {
                &&& v.wf()
                &&& v.checks().alg() == Algorithm::RS256
                &&& v.checks().issuers() == Some(set![config.iss@])
                &&& v.checks().audiences() == Some(set![config.aud@])
                &&& v.checks().required() == set!["exp"@, "aud"@, "iss"@, "sub"@]
                &&& v.checks().validates_exp()
            },
    {
        let key = match rsa_key(config.n.as_str(), config.e.as_str()) {
            Ok(k) => k,
            Err(_) => return Err(ConfigError::MalformedKey),
        };
        let mut checks = validation_for(Algorithm::RS256);
        require_issuer(&mut checks, config.iss.as_str());
        require_audience(&mut checks, config.aud.as_str());
        let mut claims: Vec<String> = Vec::new();
        claims.push(String::from_str("exp"));
        claims.push(String::from_str("aud"));
        claims.push(String::from_str("iss"));
        claims.push(String::from_str("sub"));
        require_claims(&mut checks, &claims);
        proof {
            let named = Set::new(
                |s: Seq<char>| exists|i: int| 0 <= i < claims@.len() && claims@[i]@ == s,
            );
            assert(named.contains(claims@[0]@));
            assert(named.contains(claims@[1]@));
            assert(named.contains(claims@[2]@));
            assert(named.contains(claims@[3]@));
            assert(named =~= set!["exp"@, "aud"@, "iss"@, "sub"@]);
        }
        Ok(Verifier { key, checks })
    }

    /// Checks the token of a call whose `authorization` entry is given. A call
    /// without one reads as the empty token; it, and any token with fewer than
    /// two dots, is refused as malformed.
    pub fn verify(&self, authorization: Option<&str>) -> (r: Result<(), AuthError>)
        requires
            self.wf(),
        ensures
            authorization is None ==> r == Err::<(), AuthError>(AuthError::MalformedToken),
            authorization matches Some(t) && !has_two_dots(t@) ==> r == Err::<(), AuthError>(
                AuthError::MalformedToken,
            ),
    {
        let token = token_of(authorization);
        verdict(decode_token(token, &self.key, &self.checks))
    }
}

} // verus!
