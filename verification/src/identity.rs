//! Identity: SCIM bearer tokens (random, stored only as Argon2 hashes), OIDC login state
//! and payment-link tokens.
use vstd::prelude::*;

use crate::error::{Conflict, DbError};

verus! {

/// The URL-safe base64 digit of a six-bit value: `A`–`Z`, `a`–`z`, `0`–`9`, `-`, `_`.
pub open spec fn b64_digit(v: int) -> char {
    if v < 26 {
        (65 + v) as char
    } else if v < 52 {
        (97 + v - 26) as char
    } else if v < 62 {
        (48 + v - 52) as char
    } else if v == 62 {
        '-'
    } else {
        '_'
    }
}

/// What `base64::engine::general_purpose::URL_SAFE_NO_PAD.encode` gives for `bytes`:
/// each three bytes as four digits of six bits, most significant first; a last group of
/// one or two bytes as two or three digits, with no padding.
pub open spec fn base64_url_nopad_text(bytes: Seq<u8>) -> Seq<char>
    decreases bytes.len(),
{
    if bytes.len() == 0 {
        Seq::empty()
    } else if bytes.len() == 1 {
        let b0 = bytes[0] as int;
        seq![b64_digit(b0 / 4), b64_digit((b0 % 4) * 16)]
    } else if bytes.len() == 2 {
        let b0 = bytes[0] as int;
        let b1 = bytes[1] as int;
        seq![b64_digit(b0 / 4), b64_digit((b0 % 4) * 16 + b1 / 16), b64_digit((b1 % 16) * 4)]
    } else {
        let b0 = bytes[0] as int;
        let b1 = bytes[1] as int;
        let b2 = bytes[2] as int;
        seq![
            b64_digit(b0 / 4),
            b64_digit((b0 % 4) * 16 + b1 / 16),
            b64_digit((b1 % 16) * 4 + b2 / 64),
            b64_digit(b2 % 64),
        ] + base64_url_nopad_text(bytes.subrange(3, bytes.len() as int))
    }
}

/// What `Argon2::default().hash_password(raw, salt)` gives, as PHC text, for a raw
/// secret and a B64 salt; `None` where it fails.
pub uninterp spec fn argon2_phc(raw: Seq<char>, salt: Seq<char>) -> Option<Seq<char>>;

/// Whether `Argon2::default().verify_password(raw, PasswordHash::new(hash))` succeeds.
pub uninterp spec fn argon2_verifies(raw: Seq<char>, hash: Seq<char>) -> bool;

/// Length of the unpadded base64 text of `n` bytes.
pub open spec fn base64_len(n: int) -> int {
    4 * (n / 3) + if n % 3 == 0 {
        0
    } else {
        n % 3 + 1
    }
}

/// The unpadded base64 text of `n` bytes has `base64_len(n)` digits.
pub proof fn lemma_base64_len(bytes: Seq<u8>)
    ensures
        base64_url_nopad_text(bytes).len() == base64_len(bytes.len() as int),
    decreases bytes.len(),
{
    if bytes.len() >= 3 {
        lemma_base64_len(bytes.subrange(3, bytes.len() as int));
    }
}

/// `rand::RngCore::fill_bytes` on `rand::thread_rng()`, into `n` fresh bytes.
///
/// Trusted: the result has `n` bytes; their values are random and nothing else is stated.
#[verifier::external_body]
fn random_bytes(n: usize) -> (r: Vec<u8>)
    ensures
        r.len() == n,
{
    let mut v = vec![0u8; n];
    rand::RngCore::fill_bytes(&mut rand::thread_rng(), &mut v);
    v
}

/// `URL_SAFE_NO_PAD.encode(bytes)` of the `base64` crate.
///
/// Trusted: the result is the URL-safe, unpadded base64 encoding of `bytes` (RFC 4648,
/// section 5), as [`base64_url_nopad_text`] states it.
#[verifier::external_body]
fn base64_url_nopad(bytes: &[u8]) -> (r: String)
    ensures
        r@ == base64_url_nopad_text(bytes@),
{
    base64::Engine::encode(&base64::engine::general_purpose::URL_SAFE_NO_PAD, bytes)
}

/// `SaltString::generate(&mut OsRng)` of `argon2::password_hash`, as its B64 text.
///
/// Trusted: nothing is stated of the salt, which is random.
#[verifier::external_body]
fn new_salt() -> String {
    argon2::password_hash::SaltString::generate(&mut argon2::password_hash::rand_core::OsRng)
        .as_str()
        .to_string()
}

/// `Argon2::default().hash_password(raw, salt)`, as PHC text.
///
/// Trusted: the hash is the named result for `raw` and `salt`, and `verify_password`
/// accepts `raw` against it (the PHC string carries the salt and parameters it was made
/// with); the text of an error is not stated.
#[verifier::external_body]
fn argon2_hash(raw: &str, salt: &str) -> (r: Result<String, String>)
    ensures
        r matches Ok(h) ==> argon2_phc(raw@, salt@) == Some(h@),
        r matches Ok(h) ==> argon2_verifies(raw@, h@),
        r is Err ==> argon2_phc(raw@, salt@) is None,
{
    let salt = argon2::password_hash::SaltString::from_b64(salt).map_err(|e| e.to_string())?;
    let argon = argon2::Argon2::default();
    argon2::password_hash::PasswordHasher::hash_password(&argon, raw.as_bytes(), &salt)
        .map(|h| h.to_string())
        .map_err(|e| e.to_string())
}

/// `Argon2::default().verify_password(raw, &PasswordHash::new(hash)?)`: false when the
/// hash does not parse or does not match.
///
/// Trusted: the result is the named verification.
#[verifier::external_body]
fn argon2_verify(raw: &str, hash: &str) -> (r: bool)
    ensures
        r == argon2_verifies(raw@, hash@),
{
    let argon = argon2::Argon2::default();
    match argon2::password_hash::PasswordHash::new(hash) {
        Ok(parsed) => argon2::password_hash::PasswordVerifier::verify_password(
            &argon,
            raw.as_bytes(),
            &parsed,
        ).is_ok(),
        Err(_) => false,
    }
}

/// A stored SCIM token: its id, the organization it grants access to, its hash and
/// whether it is still active (revoking deactivates it).
pub struct StoredToken {
    pub id: u128,
    pub org_id: u128,
    pub token_hash: String,
    pub is_active: bool,
}

/// The token is active and its hash accepts `raw`.
pub open spec fn accepts(raw: Seq<char>, t: StoredToken) -> bool {
    t.is_active && argon2_verifies(raw, t.token_hash@)
}

/// Index of the first stored token that accepts `raw`, if any.
pub open spec fn first_match(raw: Seq<char>, tokens: Seq<StoredToken>, i: int) -> bool {
    0 <= i < tokens.len() && accepts(raw, tokens[i]) && forall|j: int|
        0 <= j < i ==> !accepts(raw, #[trigger] tokens[j])
}

/// The stored tokens after revoking token `id` of organization `org_id`: that token, if
/// stored, is deactivated; every other token is left as it was.
pub open spec fn revoked(tokens: Seq<StoredToken>, org_id: u128, id: u128) -> Seq<StoredToken> {
    tokens.map_values(
        |t: StoredToken|
            if t.id == id && t.org_id == org_id {
                StoredToken { id: t.id, org_id: t.org_id, token_hash: t.token_hash, is_active: false }
            } else {
                t
            },
    )
}

/// Revoking answers "not found" when no token of the organization has the id.
pub open spec fn revoke_finds(tokens: Seq<StoredToken>, org_id: u128, id: u128) -> bool {
    exists|i: int| 0 <= i < tokens.len() && (#[trigger] tokens[i]).id == id && tokens[i].org_id == org_id
}

/// SCIM provisioning tokens.
pub struct ScimTokenRepo;

impl ScimTokenRepo {
    /// A new raw token: `scim_` and 32 random bytes in URL-safe base64 without padding.
    pub fn generate_raw_token() -> (r: String)
        ensures
            exists|b: Seq<u8>| b.len() == 32 && r@ == "scim_"@ + base64_url_nopad_text(b),
            r@.len() == 48,
    {
        let bytes = random_bytes(32);
        let enc = base64_url_nopad(bytes.as_slice());
        let mut s = String::from_str("scim_");
        s.append(enc.as_str());
        proof {
            assert(bytes@.len() == 32 && s@ == "scim_"@ + base64_url_nopad_text(bytes@));
            lemma_base64_len(bytes@);
            reveal_strlit("scim_");
        }
        s
    }

    /// Hashes a token for storage with a fresh salt: the hasher's PHC text for the drawn
    /// salt, or, where the hasher gives none for it, an internal error.
    pub fn hash_token(raw: &str) -> (r: Result<String, DbError>)
        ensures
            exists|salt: Seq<char>|
                #![trigger argon2_phc(raw@, salt)]
                match r {
                    Ok(h) => argon2_phc(raw@, salt) == Some(h@),
                    Err(e) => e is Internal && argon2_phc(raw@, salt) is None,
                },
            r matches Ok(h) ==> argon2_verifies(raw@, h@),
    {
        let salt = new_salt();
        match argon2_hash(raw, salt.as_str()) {
            Ok(h) => {
                proof {
                    assert(argon2_phc(raw@, salt@) == Some(h@));
                }
                Ok(h)
            },
            Err(msg) => {
                proof {
                    assert(argon2_phc(raw@, salt@) is None);
                }
                Err(DbError::Internal(msg))
            },
        }
    }

    /// The organization of the first active token whose hash accepts `raw`; revoked and
    /// unknown tokens are not found.
    pub fn find_owner(raw: &str, tokens: &Vec<StoredToken>) -> (r: Result<u128, DbError>)
        ensures
            r matches Ok(org) ==> exists|i: int| first_match(raw@, tokens@, i) && tokens@[i].org_id == org,
            r is Err ==> r == Err::<u128, DbError>(DbError::NotFound) && forall|i: int|
                0 <= i < tokens.len() ==> !accepts(raw@, #[trigger] tokens@[i]),
    {
        let mut i: usize = 0;
        while i < tokens.len()
            invariant
                i <= tokens.len(),
                forall|j: int| 0 <= j < i ==> !accepts(raw@, #[trigger] tokens@[j]),
            decreases tokens.len() - i,
        {
            if tokens[i].is_active && argon2_verify(raw, tokens[i].token_hash.as_str()) {
                proof {
                    assert(first_match(raw@, tokens@, i as int));
                }
                return Ok(tokens[i].org_id);
            }
            i = i + 1;
        }
        Err(DbError::NotFound)
    }

    /// Revoking a token: the stored tokens with that token of the organization
    /// deactivated; not found when the organization has no token with the id.
    pub fn revoke(tokens: &Vec<StoredToken>, org_id: u128, id: u128) -> (r: Result<
        Vec<StoredToken>,
        DbError,
    >)
        ensures
            r is Ok <==> revoke_finds(tokens@, org_id, id),
            r matches Ok(v) ==> v@ == revoked(tokens@, org_id, id),
            r is Err ==> r == Err::<Vec<StoredToken>, DbError>(DbError::NotFound),
    {
        let mut out: Vec<StoredToken> = Vec::new();
        let mut found = false;
        let mut i: usize = 0;
        while i < tokens.len()
            invariant
                i <= tokens.len(),
                out@ == revoked(tokens@.take(i as int), org_id, id),
                found <==> exists|k: int|
                    0 <= k < i && (#[trigger] tokens@[k]).id == id && tokens@[k].org_id == org_id,
            decreases tokens.len() - i,
        {
            let t = &tokens[i];
            let hit = t.id == id && t.org_id == org_id;
            let nt = StoredToken {
                id: t.id,
                org_id: t.org_id,
                token_hash: t.token_hash.clone(),
                is_active: if hit {
                    false
                } else {
                    t.is_active
                },
            };
            proof {
                assert(nt.token_hash@ == t.token_hash@);
            }
            out.push(nt);
            if hit {
                found = true;
            }
            proof {
                assert(revoked(tokens@.take(i + 1), org_id, id) =~= revoked(tokens@.take(i as int), org_id, id).push(
                    revoked(tokens@, org_id, id)[i as int],
                ));
            }
            i = i + 1;
        }
        proof {
            assert(tokens@.take(tokens.len() as int) =~= tokens@);
        }
        if found {
            Ok(out)
        } else {
            Err(DbError::NotFound)
        }
    }
}

/// A stored token that accepts `raw` is found: the lookup stops at it or at an earlier
/// token that also accepts `raw`.
pub proof fn lemma_stored_token_is_found(raw: Seq<char>, tokens: Seq<StoredToken>, i: int)
    requires
        0 <= i < tokens.len(),
        accepts(raw, tokens[i]),
    ensures
        exists|j: int| 0 <= j <= i && first_match(raw, tokens, j),
    decreases i,
{
    if exists|j: int| 0 <= j < i && accepts(raw, #[trigger] tokens[j]) {
        let j = choose|j: int| 0 <= j < i && accepts(raw, #[trigger] tokens[j]);
        lemma_stored_token_is_found(raw, tokens, j);
    } else {
        assert(first_match(raw, tokens, i));
    }
}

/// A token verifies until it is revoked: revoking another token leaves it found, and
/// once it is revoked (and no other active token accepts the same raw text) the lookup
/// finds nothing.
pub proof fn lemma_token_verifies_until_revoked(
    raw: Seq<char>,
    tokens: Seq<StoredToken>,
    i: int,
    org_id: u128,
    id: u128,
)
    requires
        0 <= i < tokens.len(),
        accepts(raw, tokens[i]),
    ensures
        !(tokens[i].id == id && tokens[i].org_id == org_id) ==> exists|j: int|
            0 <= j <= i && first_match(raw, revoked(tokens, org_id, id), j),
        (tokens[i].id == id && tokens[i].org_id == org_id && forall|k: int|
            0 <= k < tokens.len() && k != i ==> !accepts(raw, #[trigger] tokens[k])) ==> forall|k: int|
            0 <= k < tokens.len() ==> !accepts(raw, #[trigger] revoked(tokens, org_id, id)[k]),
{
    let after = revoked(tokens, org_id, id);
    if !(tokens[i].id == id && tokens[i].org_id == org_id) {
        assert(after[i] == tokens[i]);
        lemma_stored_token_is_found(raw, after, i);
    }
}

/// Nanoseconds in a minute.
pub const NANOS_PER_MINUTE: i128 = 60_000_000_000;

/// Identity providers (SAML and OIDC) and OIDC login state.
pub struct IdentityProviderRepo;

impl IdentityProviderRepo {
    /// An OIDC login state is consumed within 15 whole minutes of its creation; an older
    /// one is refused as expired. Instants are nanoseconds since the Unix epoch.
    pub fn check_oidc_state_age(now_nanos: i128, created_nanos: i128) -> (r: Result<(), DbError>)
        requires
            i128::MIN <= now_nanos - created_nanos <= i128::MAX,
        ensures
            crate::recurring::div_trunc(now_nanos - created_nanos, NANOS_PER_MINUTE as int) > 15
                ==> r == Err::<(), DbError>(DbError::Conflict(Conflict::OidcStateExpired)),
            crate::recurring::div_trunc(now_nanos - created_nanos, NANOS_PER_MINUTE as int) <= 15
                ==> r is Ok,
    {
        let age = now_nanos - created_nanos;
        let minutes = age / NANOS_PER_MINUTE;
        if minutes > 15 {
            Err(DbError::Conflict(Conflict::OidcStateExpired))
        } else {
            Ok(())
        }
    }
}

/// Kinds of identity providers.
#[derive(Debug, Clone, Copy, PartialEq, Eq, Structural)]
pub enum ProviderType {
    Oidc,
    Saml,
}

/// The text under which a provider type is stored.
pub open spec fn provider_type_text(t: ProviderType) -> Seq<char> {
    match t {
        ProviderType::Oidc => "oidc"@,
        ProviderType::Saml => "saml"@,
    }
}

impl ProviderType {
    /// Reads a stored provider type: `oidc` or `saml`; anything else is an internal error
    /// that names it.
    pub fn parse(s: &str) -> (r: Result<ProviderType, DbError>)
        ensures
            s@ == "oidc"@ ==> r == Ok::<ProviderType, DbError>(ProviderType::Oidc),
            s@ == "saml"@ ==> r == Ok::<ProviderType, DbError>(ProviderType::Saml),
            s@ != "oidc"@ && s@ != "saml"@ ==> (r matches Err(DbError::Internal(m)) && m@
                == "unknown provider type: "@ + s@),
    {
        proof {
            reveal_strlit("oidc");
            reveal_strlit("saml");
            assert("oidc"@[0] != "saml"@[0]);
            assert("oidc"@ != "saml"@);
        }
        if crate::text::str_eq(s, "oidc") {
            Ok(ProviderType::Oidc)
        } else if crate::text::str_eq(s, "saml") {
            Ok(ProviderType::Saml)
        } else {
            let mut m = String::from_str("unknown provider type: ");
            m.append(s);
            Err(DbError::Internal(m))
        }
    }

    /// The text under which the type is stored.
    pub fn as_str(&self) -> (r: &'static str)
        ensures
            r@ == provider_type_text(*self),
    {
        match self {
            ProviderType::Oidc => "oidc",
            ProviderType::Saml => "saml",
        }
    }
}

/// An OIDC login state as stored: its key and when it was created (nanoseconds since the
/// Unix epoch).
pub struct StoredOidcState {
    pub state: String,
    pub created_nanos: i128,
}

/// The stored states other than those under `key`, in order.
pub open spec fn states_without(states: Seq<StoredOidcState>, key: Seq<char>) -> Seq<StoredOidcState>
    decreases states.len(),
{
    if states.len() == 0 {
        Seq::empty()
    } else {
        let rest = states_without(states.drop_last(), key);
        if states.last().state@ == key {
            rest
        } else {
            rest.push(states.last())
        }
    }
}

/// Index of the first stored state under `key`.
pub open spec fn first_state(states: Seq<StoredOidcState>, key: Seq<char>, i: int) -> bool {
    0 <= i < states.len() && states[i].state@ == key && forall|j: int|
        0 <= j < i ==> (#[trigger] states[j]).state@ != key
}

/// An OIDC state can be used only once: consuming a key leaves no state under it, so
/// consuming it again finds nothing, whatever the instant (no state under the key leaves
/// nothing to bound).
pub proof fn lemma_oidc_state_used_once(states: Seq<StoredOidcState>, key: Seq<char>)
    ensures
        forall|i: int|
            0 <= i < states_without(states, key).len() ==> (#[trigger] states_without(
                states,
                key,
            )[i]).state@ != key,
    decreases states.len(),
{
    if states.len() > 0 {
        lemma_oidc_state_used_once(states.drop_last(), key);
        let rest = states_without(states.drop_last(), key);
        let last = states.last();
        if last.state@ != key {
            assert forall|i: int| 0 <= i < rest.push(last).len() implies (#[trigger] rest.push(
                last,
            )[i]).state@ != key by {
                if i < rest.len() {
                    assert(rest.push(last)[i] == rest[i]);
                }
            }
        }
    }
}

impl IdentityProviderRepo {
    /// Consumes the login state under `key` from the stored states: the states left are
    /// all the others, whether or not the state had expired; the result is the index of
    /// the state consumed, not found when none is stored under `key`, and expired when it
    /// is older than 15 whole minutes.
    pub fn consume_state(states: &Vec<StoredOidcState>, key: &str, now_nanos: i128) -> (r: (
        Result<usize, DbError>,
        Vec<StoredOidcState>,
    ))
        requires
            forall|i: int|
                0 <= i < states.len() && (#[trigger] states@[i]).state@ == key@ ==> i128::MIN
                    <= now_nanos - states@[i].created_nanos <= i128::MAX,
        ensures
            r.1@ == states_without(states@, key@),
            (forall|i: int| 0 <= i < states.len() ==> (#[trigger] states@[i]).state@ != key@) ==> r.0
                == Err::<usize, DbError>(DbError::NotFound),
            forall|i: int|
                first_state(states@, key@, i) ==> (if crate::recurring::div_trunc(
                    now_nanos - states@[i].created_nanos,
                    NANOS_PER_MINUTE as int,
                ) > 15 {
                    r.0 == Err::<usize, DbError>(DbError::Conflict(Conflict::OidcStateExpired))
                } else {
                    r.0 == Ok::<usize, DbError>(i as usize)
                }),
    {
        let mut kept: Vec<StoredOidcState> = Vec::new();
        let mut found: Option<usize> = None;
        let mut i: usize = 0;
        while i < states.len()
            invariant
                i <= states.len(),
                forall|t: int|
                    0 <= t < states.len() && (#[trigger] states@[t]).state@ == key@ ==> i128::MIN
                        <= now_nanos - states@[t].created_nanos <= i128::MAX,
                kept@ == states_without(states@.take(i as int), key@),
                found is None ==> forall|j: int| 0 <= j < i ==> (#[trigger] states@[j]).state@ != key@,
                found matches Some(f) ==> first_state(states@, key@, f as int) && f < i,
            decreases states.len() - i,
        {
            proof {
                assert(states@.take(i + 1).drop_last() =~= states@.take(i as int));
            }
            if crate::text::str_eq(states[i].state.as_str(), key) {
                if found.is_none() {
                    found = Some(i);
                }
            } else {
                let s = StoredOidcState {
                    state: states[i].state.clone(),
                    created_nanos: states[i].created_nanos,
                };
                proof {
                    assert(s.state@ == states@[i as int].state@);
                }
                kept.push(s);
                proof {
                    assert(kept@.last() == states@[i as int]);
                }
            }
            i = i + 1;
        }
        proof {
            assert(states@.take(states.len() as int) =~= states@);
        }
        let result = match found {
            None => Err(DbError::NotFound),
            Some(f) => match Self::check_oidc_state_age(now_nanos, states[f].created_nanos) {
                Ok(()) => Ok(f),
                Err(e) => Err(e),
            },
        };
        proof {
            assert forall|j: int| first_state(states@, key@, j) implies found == Some(j as usize) by {
                if let Some(f) = found {
                    if (f as int) < j {
                        assert(states@[f as int].state@ != key@);
                    } else if j < (f as int) {
                        assert(states@[j].state@ != key@);
                    }
                } else {
                    assert(states@[j].state@ != key@);
                }
            }
        }
        (result, kept)
    }
}

/// Shareable payment links.
pub struct PaymentLinkRepo;

impl PaymentLinkRepo {
    /// A new link token: 24 random bytes in URL-safe base64 without padding.
    pub fn generate_token() -> (r: String)
        ensures
            exists|b: Seq<u8>| b.len() == 24 && r@ == base64_url_nopad_text(b),
            r@.len() == 32,
    {
        let bytes = random_bytes(24);
        let s = base64_url_nopad(bytes.as_slice());
        proof {
            assert(bytes@.len() == 24 && s@ == base64_url_nopad_text(bytes@));
            lemma_base64_len(bytes@);
        }
        s
    }
}

} // verus!
