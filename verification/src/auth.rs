//! Bearer-token verification over plain values.
//!
//! The surrounding application fetches the provider's key set, decodes the
//! token's pieces and checks the signature with the located key; this module
//! holds every decision: key lookup by key id, claim validation against the
//! fixed settings, and the collapse of all failures into one unauthorized
//! outcome. Whatever the signature checker answers, a token whose key id is
//! absent from the key set is refused.
use vstd::prelude::*;
use crate::text::str_eq;

verus! {

/// Verified claims decoded from a signed token.
#[derive(Debug)]
pub struct Claims {
    pub subject: String,
    pub email: Option<String>,
    pub audience: String,
    pub issuer: String,
    pub expires_at: u64,
    pub issued_at: u64,
}

/// Why verification failed. Every variant is reported as the one
/// Unauthorized outcome, distinguished only by its message.
#[derive(Clone, Copy, Debug, PartialEq, Eq, Structural)]
pub enum AuthError {
    MissingHeader,
    MalformedToken,
    KeyFetchFailed,
    UnknownKey,
    BadSignature,
    InvalidClaims,
}

/// The provider's published key set: key id to PEM-encoded key material.
pub struct KeySet {
    pub keys: Vec<(String, String)>,
}

/// Fixed verification settings: the project identifier the audience must
/// equal, and the issuer URL prefix the project identifier is appended to.
pub struct AuthConfig {
    pub project_id: String,
    pub issuer_prefix: String,
}

/// A token as decoded, before any trust is placed in it: the key id from its
/// header and the claims it asserts.
pub struct UnverifiedToken {
    pub kid: String,
    pub claims: Claims,
}

/// The key set holds a key under this key id.
pub open spec fn keyset_has(keys: Seq<(String, String)>, kid: Seq<char>) -> bool {
    exists|k: int| 0 <= k < keys.len() && keys[k].0@ == kid
}

/// Index of the key with the key id, if present.
pub fn find_key(keys: &KeySet, kid: &str) -> (r: Option<usize>)
    ensures
        r matches Some(i) ==> i < keys.keys@.len() && keys.keys@[i as int].0@ == kid@,
        r is None ==> !keyset_has(keys.keys@, kid@),
{
    let mut i: usize = 0;
    while i < keys.keys.len()
        invariant
            0 <= i <= keys.keys@.len(),
            forall|k: int| 0 <= k < i ==> keys.keys@[k].0@ != kid@,
        decreases keys.keys@.len() - i,
    {
        if str_eq(keys.keys[i].0.as_str(), kid) {
            return Some(i);
        }
        i += 1;
    }
    None
}

/// The issuer a valid token must name: the configured prefix followed by the
/// project identifier.
pub open spec fn expected_issuer(cfg: AuthConfig) -> Seq<char> {
    cfg.issuer_prefix@ + cfg.project_id@
}

/// The claims hold at `now`: right audience, right issuer, not yet expired,
/// not issued in the future.
pub open spec fn claims_valid(c: Claims, cfg: AuthConfig, now: u64) -> bool {
    &&& c.audience@ == cfg.project_id@
    &&& c.issuer@ == expected_issuer(cfg)
    &&& c.expires_at > now
    &&& c.issued_at <= now
}

/// Checks the claims against the settings and the clock.
pub fn check_claims(c: &Claims, cfg: &AuthConfig, now: u64) -> (r: bool)
    ensures
        r == claims_valid(*c, *cfg, now),
{
    let mut iss = String::new();
    iss.append(cfg.issuer_prefix.as_str());
    iss.append(cfg.project_id.as_str());
    let aud_ok = str_eq(c.audience.as_str(), cfg.project_id.as_str());
    let iss_ok = str_eq(c.issuer.as_str(), iss.as_str());
    aud_ok && iss_ok && c.expires_at > now && c.issued_at <= now
}

/// A field-for-field copy of decoded claims.
pub fn copy_claims(c: &Claims) -> (r: Claims)
    ensures
        r == *c,
{
    Claims {
        subject: c.subject.clone(),
        email: match &c.email {
            Some(e) => Some(e.clone()),
            None => None,
        },
        audience: c.audience.clone(),
        issuer: c.issuer.clone(),
        expires_at: c.expires_at,
        issued_at: c.issued_at,
    }
}

/// The verification decision.
///
/// `bearer` is the token text from the Authorization header, if one was
/// sent; `keys` is the fetched key set, or nothing when the fetch failed;
/// `token` is the decoded token, or nothing when it would not decode;
/// `sig_valid` is the signature checker's answer for the key the token's key
/// id names. A missing header, a failed fetch, an undecodable token, an
/// unknown key id, a refused signature and bad claims each yield their
/// failure, in that order of precedence: in particular an unknown key id is
/// refused whatever `sig_valid` says.
pub fn authenticate(
    bearer: &Option<String>,
    keys: &Option<KeySet>,
    token: &Option<UnverifiedToken>,
    sig_valid: bool,
    cfg: &AuthConfig,
    now: u64,
) -> (r: Result<Claims, AuthError>)
    ensures
        bearer is None ==> r == Err::<Claims, AuthError>(AuthError::MissingHeader),
        bearer is Some && keys is None ==> r == Err::<Claims, AuthError>(
            AuthError::KeyFetchFailed,
        ),
        bearer is Some && keys is Some && token is None ==> r == Err::<Claims, AuthError>(
            AuthError::MalformedToken,
        ),
        (bearer is Some && keys is Some && token is Some && !keyset_has(
            keys->Some_0.keys@,
            token->Some_0.kid@,
        )) ==> r == Err::<Claims, AuthError>(AuthError::UnknownKey),
        (bearer is Some && keys is Some && token is Some && keyset_has(
            keys->Some_0.keys@,
            token->Some_0.kid@,
        ) && !sig_valid) ==> r == Err::<Claims, AuthError>(AuthError::BadSignature),
        (bearer is Some && keys is Some && token is Some && keyset_has(
            keys->Some_0.keys@,
            token->Some_0.kid@,
        ) && sig_valid && !claims_valid(token->Some_0.claims, *cfg, now)) ==> r == Err::<
            Claims,
            AuthError,
        >(AuthError::InvalidClaims),
        (bearer is Some && keys is Some && token is Some && keyset_has(
            keys->Some_0.keys@,
            token->Some_0.kid@,
        ) && sig_valid && claims_valid(token->Some_0.claims, *cfg, now)) ==> r == Ok::<
            Claims,
            AuthError,
        >(token->Some_0.claims),
{
    if bearer.is_none() {
        return Err(AuthError::MissingHeader);
    }
    let ks = match keys {
        None => {
            return Err(AuthError::KeyFetchFailed);
        },
        Some(ks) => ks,
    };
    let t = match token {
        None => {
            return Err(AuthError::MalformedToken);
        },
        Some(t) => t,
    };
    if find_key(ks, t.kid.as_str()).is_none() {
        return Err(AuthError::UnknownKey);
    }
    if !sig_valid {
        return Err(AuthError::BadSignature);
    }
    if !check_claims(&t.claims, cfg, now) {
        return Err(AuthError::InvalidClaims);
    }
    Ok(copy_claims(&t.claims))
}

/// The human-readable reason reported for each failure.
pub open spec fn auth_error_msg(e: AuthError) -> Seq<char> {
    match e {
        AuthError::MissingHeader => "Token mancante"@,
        AuthError::MalformedToken => "Token non valido"@,
        AuthError::KeyFetchFailed => "Errore nel recupero delle chiavi"@,
        AuthError::UnknownKey => "Chiave sconosciuta"@,
        AuthError::BadSignature => "Firma non valida"@,
        AuthError::InvalidClaims => "Claim non validi"@,
    }
}

/// The reason text for a failure.
pub fn auth_error_message(e: AuthError) -> (r: &'static str)
    ensures
        r@ == auth_error_msg(e),
{
    match e {
        AuthError::MissingHeader => "Token mancante",
        AuthError::MalformedToken => "Token non valido",
        AuthError::KeyFetchFailed => "Errore nel recupero delle chiavi",
        AuthError::UnknownKey => "Chiave sconosciuta",
        AuthError::BadSignature => "Firma non valida",
        AuthError::InvalidClaims => "Claim non validi",
    }
}

} // verus!
