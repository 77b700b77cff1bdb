//! The authentication service: login, refresh and logout over the token
//! codec, the refresh-token factory and the session store.

use vstd::prelude::*;
use vstd::string::StringSliceAdditionalSpecFns;
use vstd::utf8::encode_utf8;
use crate::jwt::{AuthBody, AuthBodyWithRefreshToken, AuthError, RefreshToken,
    well_formed_refresh_token, generate_refresh_token_at, spec_expiry,
    ACCESS_TOKEN_LIFETIME_SECS, REFRESH_TOKEN_LIFETIME_SECS};
use crate::keys::{Keys, sig_valid, es256_sign_b64};
use crate::token::{generate_token, spec_message, spec_verify, ClaimsView,
    lemma_issued_token_verifies};
use crate::b64::is_b64_byte;
use crate::store::Store;
use crate::password::{password_check, verify_password};

verus! {

/// True when a presented username resolved to a stored hash and the
/// presented password matches it.
pub open spec fn credentials_ok(password: Seq<char>, stored_hash: Option<Seq<char>>) -> bool {
    stored_hash matches Some(h) && password_check(password, h) == Some(true)
}

/// True of a token string of the shape issuance produces for `sub` with
/// expiry `exp`: the signed message followed by some base64url signature.
pub open spec fn issued_token_shape(t: Seq<char>, sub: Seq<u8>, exp: u64) -> bool {
    exists|sig: Seq<u8>|
        {
            &&& #[trigger] encode_utf8(t) == spec_message(sub, exp) + seq![46u8] + sig
            &&& forall|i: int| 0 <= i < sig.len() ==> #[trigger] is_b64_byte(sig[i])
        }
}

/// Log a user in: check the presented password against the stored hash
/// (`None` when the username is unknown), and on success issue an access
/// token for the username, create a refresh token and file it in the
/// store under its identity, replacing any prior entry there.
///
/// Wrong credentials — an unknown username, an unreadable stored hash or
/// a mismatched password — yield `WrongCredentials` and leave the store
/// untouched; which factor was wrong is not revealed. With good
/// credentials login succeeds exactly when signing the access-token
/// message does; the refresh token is filed even if signing then fails,
/// which is reported as `TokenCreation`.
pub fn login(
    store: &mut Store,
    keys: &Keys,
    username: &str,
    password: &str,
    stored_hash: Option<&String>,
    now: u64,
) -> (r: Result<AuthBodyWithRefreshToken, AuthError>)
    ensures
        (r == Err::<AuthBodyWithRefreshToken, AuthError>(AuthError::WrongCredentials))
            <==> !credentials_ok(password@, match stored_hash {
            Some(h) => Some(h@),
            None => None,
        }),
        r is Err && r != Err::<AuthBodyWithRefreshToken, AuthError>(AuthError::TokenCreation)
            ==> r == Err::<AuthBodyWithRefreshToken, AuthError>(AuthError::WrongCredentials),
        r == Err::<AuthBodyWithRefreshToken, AuthError>(AuthError::WrongCredentials)
            ==> final(store)@ == old(store)@,
        r == Err::<AuthBodyWithRefreshToken, AuthError>(AuthError::TokenCreation) <==> {
            &&& credentials_ok(password@, match stored_hash {
                Some(h) => Some(h@),
                None => None,
            })
            &&& es256_sign_b64(
                keys.priv_pem(),
                spec_message(
                    username.spec_bytes(),
                    spec_expiry(now, ACCESS_TOKEN_LIFETIME_SECS),
                ),
            ) is None
        },
        r matches Ok(out) ==> {
            &&& well_formed_refresh_token(out.refresh_token@)
            &&& out.refresh_token@.exp == spec_expiry(now, REFRESH_TOKEN_LIFETIME_SECS)
            &&& final(store)@ == old(store)@.insert(out.refresh_token@.id, out.refresh_token@)
            &&& out.auth_body.token_type@ == "Bearer"@
            &&& issued_token_shape(
                out.auth_body.access_token@,
                username.spec_bytes(),
                spec_expiry(now, ACCESS_TOKEN_LIFETIME_SECS),
            )
        },
        r == Err::<AuthBodyWithRefreshToken, AuthError>(AuthError::TokenCreation)
            ==> exists|t: crate::jwt::TokenView|
            {
                &&& #[trigger] well_formed_refresh_token(t)
                &&& t.exp == spec_expiry(now, REFRESH_TOKEN_LIFETIME_SECS)
                &&& final(store)@ == old(store)@.insert(t.id, t)
            },
{
    let ok = match stored_hash {
        Some(h) => match verify_password(password, h.as_str()) {
            Ok(b) => b,
            Err(_) => false,
        },
        None => false,
    };
    if !ok {
        return Err(AuthError::WrongCredentials);
    }
    let refresh_token = generate_refresh_token_at(now);
    let _previous = store.insert(refresh_token.id.clone(), refresh_token.duplicate());
    let access_token = match generate_token(keys, username, now) {
        Ok(t) => t,
        Err(e) => {
            return Err(e);
        },
    };
    let auth_body = AuthBody::new_bearer(access_token);
    Ok(AuthBodyWithRefreshToken::new(auth_body, refresh_token))
}

/// Trade a presented refresh token for a new access token.
///
/// An identity that is not in the store yields `WrongCredentials`; a
/// stored record that differs from the presented one in any field, or
/// that has expired, yields `InvalidToken`; a present, matching,
/// unexpired record yields a fresh access token whose subject is the
/// refresh-token identity, exactly when signing the access-token message
/// succeeds, with a signing failure reported as `TokenCreation`. The
/// store is never changed.
pub fn refresh(store: &Store, keys: &Keys, presented: &RefreshToken, now: u64) -> (r: Result<
    AuthBody,
    AuthError,
>)
    ensures
        !store@.contains_key(presented@.id) ==> r == Err::<AuthBody, AuthError>(
            AuthError::WrongCredentials,
        ),
        store@.contains_key(presented@.id) && store@[presented@.id] != presented@ ==> r
            == Err::<AuthBody, AuthError>(AuthError::InvalidToken),
        store@.contains_key(presented@.id) && store@[presented@.id] == presented@
            && presented@.exp <= now ==> r == Err::<AuthBody, AuthError>(
            AuthError::InvalidToken,
        ),
        store@.contains_key(presented@.id) && store@[presented@.id] == presented@
            && presented@.exp > now ==> {
            &&& (r is Ok <==> es256_sign_b64(
                keys.priv_pem(),
                spec_message(
                    encode_utf8(presented@.id),
                    spec_expiry(now, ACCESS_TOKEN_LIFETIME_SECS),
                ),
            ) is Some)
            &&& match r {
                Ok(body) => body.token_type@ == "Bearer"@ && issued_token_shape(
                    body.access_token@,
                    encode_utf8(presented@.id),
                    spec_expiry(now, ACCESS_TOKEN_LIFETIME_SECS),
                ),
                Err(e) => e == AuthError::TokenCreation,
            }
        },
{
    let stored = match store.get(presented.id.as_str()) {
        Some(t) => t,
        None => {
            return Err(AuthError::WrongCredentials);
        },
    };
    if !crate::jwt::tokens_are_equal(presented, &stored) {
        return Err(AuthError::InvalidToken);
    }
    if stored.exp <= now {
        return Err(AuthError::InvalidToken);
    }
    let access_token = match generate_token(keys, presented.id.as_str(), now) {
        Ok(t) => t,
        Err(e) => {
            return Err(e);
        },
    };
    Ok(AuthBody::new_bearer(access_token))
}

/// Log a session out: remove the refresh token filed under the presented
/// identity, returning it if it was present, so that the identity can no
/// longer be traded for access tokens.
pub fn logout(store: &mut Store, refresh_id: &str) -> (r: Option<RefreshToken>)
    ensures
        final(store)@ == old(store)@.remove(refresh_id@),
        match r {
            Some(v) => old(store)@.contains_key(refresh_id@) && v@ == old(store)@[refresh_id@],
            None => !old(store)@.contains_key(refresh_id@),
        },
{
    store.remove(refresh_id)
}

/// A token of the shape login issues for a username — in particular the
/// access token login returns, whose shape login's contract pins —
/// verifies, under a signature its key accepts and before its expiry, to
/// claims whose subject is exactly that username.
pub proof fn lemma_login_token_verifies(
    pem: Seq<u8>,
    username: Seq<char>,
    exp: u64,
    sig: Seq<u8>,
    now: u64,
)
    requires
        forall|i: int| 0 <= i < sig.len() ==> #[trigger] is_b64_byte(sig[i]),
        sig_valid(pem, spec_message(encode_utf8(username), exp), sig),
        now < exp,
    ensures
        spec_verify(pem, spec_message(encode_utf8(username), exp) + seq![46u8] + sig, now)
            == Ok::<ClaimsView, AuthError>(ClaimsView { sub: username, exp }),
{
    lemma_issued_token_verifies(pem, username, exp, sig, now);
}

} // verus!
