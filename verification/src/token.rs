//! The token codec: issuing an ES256-signed access token for a subject and
//! verifying a presented token's structure, signature and expiry.

use vstd::prelude::*;
use vstd::string::StringSliceAdditionalSpecFns;
use vstd::utf8::{valid_utf8, decode_utf8, encode_utf8};
use crate::b64::{spec_b64, spec_b64_decode, is_b64_byte, b64_encode, b64_decode};
use crate::payload::{spec_payload, spec_parse_payload, PayloadShape, ParsedPayload,
    payload_bytes, parse_payload};
use crate::jwt::{AuthError, Claims, spec_expiry, ACCESS_TOKEN_LIFETIME_SECS};
use crate::keys::{Keys, sig_valid, es256_sign_b64, ecdsa_sign_b64, ecdsa_verify_b64};

verus! {

/// The bytes of the protected header `{"alg":"ES256","typ":"JWT"}`: the
/// one header this codec signs with and the one it accepts.
pub open spec fn spec_header_json() -> Seq<u8> {
    seq![
        123u8, 34u8, 97u8, 108u8, 103u8, 34u8, 58u8, 34u8, 69u8, 83u8, 50u8, 53u8, 54u8,
        34u8, 44u8, 34u8, 116u8, 121u8, 112u8, 34u8, 58u8, 34u8, 74u8, 87u8, 84u8, 34u8,
        125u8,
    ]
}

/// The base64url text of the protected header.
pub open spec fn spec_header_b64() -> Seq<u8> {
    spec_b64(spec_header_json())
}

/// The signed part of a token for a subject (as its UTF-8 bytes) and an
/// expiry: header, dot, base64url claims payload.
pub open spec fn spec_message(sub: Seq<u8>, exp: u64) -> Seq<u8> {
    spec_header_b64() + seq![46u8] + spec_b64(spec_payload(sub, exp))
}

/// The claims a token verification yields: subject and expiry.
pub struct ClaimsView {
    pub sub: Seq<char>,
    pub exp: u64,
}

/// The index of the first occurrence of `c` in `s`.
pub open spec fn find_byte(s: Seq<u8>, c: u8) -> Option<int>
    decreases s.len(),
{
    if s.len() == 0 {
        None
    } else if s[0] == c {
        Some(0)
    } else {
        match find_byte(s.drop_first(), c) {
            Some(i) => Some(i + 1),
            None => None,
        }
    }
}

/// What a find yields: the first position holding `c`, or the fact that
/// no position holds it.
pub proof fn lemma_find_byte(s: Seq<u8>, c: u8)
    ensures
        match find_byte(s, c) {
            Some(i) => 0 <= i < s.len() && s[i] == c && forall|j: int|
                0 <= j < i ==> s[j] != c,
            None => forall|j: int| 0 <= j < s.len() ==> s[j] != c,
        },
    decreases s.len(),
{
    if s.len() == 0 {
    } else if s[0] == c {
    } else {
        lemma_find_byte(s.drop_first(), c);
        assert(forall|j: int| 0 <= j < s.len() - 1 ==> #[trigger] s.drop_first()[j] == s[j + 1]);
        match find_byte(s, c) {
            Some(i) => {
                assert(s.drop_first()[i - 1] == s[i]);
                assert(forall|j: int| 1 <= j < i ==> s.drop_first()[j - 1] == #[trigger] s[j]);
            },
            None => {
                assert(forall|j: int| 1 <= j < s.len() ==> s.drop_first()[j - 1] == #[trigger] s[j]);
            },
        }
    }
}

/// Splits a token into header, payload and signature at its two dots;
/// a token without exactly two dots has no such splitting.
pub open spec fn spec_split3(t: Seq<u8>) -> Option<(Seq<u8>, Seq<u8>, Seq<u8>)> {
    match find_byte(t, 46) {
        Some(i) => match find_byte(t.skip(i + 1), 46) {
            Some(j) => {
                let sig = t.skip(i + 1).skip(j + 1);
                if find_byte(sig, 46) is None {
                    Some((t.take(i), t.skip(i + 1).take(j), sig))
                } else {
                    None
                }
            },
            None => None,
        },
        None => None,
    }
}

/// What verifying a token yields, as a function of the verification-key
/// PEM bytes, the token's bytes and the time of the check: the claims,
/// exactly when the token has the canonical shape, carries the ES256
/// header, its signature verifies, both claims are present and the expiry
/// lies in the future; otherwise the error the failure maps to.
pub open spec fn spec_verify(pem: Seq<u8>, tok: Seq<u8>, now: u64) -> Result<
    ClaimsView,
    AuthError,
> {
    match spec_split3(tok) {
        None => Err(AuthError::InvalidToken),
        Some((h, p, sg)) => if h != spec_header_b64() {
            Err(AuthError::InvalidToken)
        } else if !sig_valid(pem, h + seq![46u8] + p, sg) {
            Err(AuthError::InvalidToken)
        } else {
            match spec_b64_decode(p) {
                None => Err(AuthError::InvalidToken),
                Some(pl) => match spec_parse_payload(pl) {
                    PayloadShape::Bad => Err(AuthError::InvalidToken),
                    PayloadShape::MissingClaim => Err(AuthError::MissingCredentials),
                    PayloadShape::Full { sub, exp } => if !valid_utf8(sub) {
                        Err(AuthError::InvalidToken)
                    } else if exp <= now {
                        Err(AuthError::InvalidToken)
                    } else {
                        Ok(ClaimsView { sub: decode_utf8(sub), exp })
                    },
                },
            }
        },
    }
}

/// A sequence of bytes below 128 is valid UTF-8.
pub proof fn lemma_ascii_bytes_valid_utf8(b: Seq<u8>)
    requires
        forall|i: int| 0 <= i < b.len() ==> b[i] < 128,
    ensures
        valid_utf8(b),
    decreases b.len(),
{
    if b.len() != 0 {
        assert(b[0] < 128);
        assert(vstd::utf8::is_leading_byte_width_1(b[0]));
        assert(vstd::utf8::pop_first_scalar(b) =~= b.skip(1));
        lemma_ascii_bytes_valid_utf8(b.skip(1));
    }
}

/// Relies on `String::from_utf8`: succeeds exactly on valid UTF-8 bytes
/// and yields the string those bytes encode.
#[verifier::external_body]
fn bytes_to_string(v: Vec<u8>) -> (r: Option<String>)
    ensures
        r matches Some(s) ==> valid_utf8(v@) && s@ == decode_utf8(v@),
        r is None ==> !valid_utf8(v@),
{
    match String::from_utf8(v) {
        Ok(s) => Some(s),
        Err(_) => None,
    }
}

/// The bytes of the protected header as a vector.
fn header_json_vec() -> (r: Vec<u8>)
    ensures
        r@ == spec_header_json(),
{
    let mut v: Vec<u8> = Vec::new();
    v.push(123);
    v.push(34);
    v.push(97);
    v.push(108);
    v.push(103);
    v.push(34);
    v.push(58);
    v.push(34);
    v.push(69);
    v.push(83);
    v.push(50);
    v.push(53);
    v.push(54);
    v.push(34);
    v.push(44);
    v.push(34);
    v.push(116);
    v.push(121);
    v.push(112);
    v.push(34);
    v.push(58);
    v.push(34);
    v.push(74);
    v.push(87);
    v.push(84);
    v.push(34);
    v.push(125);
    proof {
        assert(v@ =~= spec_header_json());
    }
    v
}

/// The base64url text of the protected header as a vector.
fn header_b64_vec() -> (r: Vec<u8>)
    ensures
        r@ == spec_header_b64(),
{
    let hj = header_json_vec();
    b64_encode(hj.as_slice())
}

/// Generate an ES256-signed access token for `sub`, issued at `now` and
/// expiring fifteen minutes later. The token is the signed message plus
/// the base64url signature that the signer produced; issuance succeeds
/// exactly when signing the message does, and a signing failure is
/// reported as a token-creation fault.
pub fn generate_token(keys: &Keys, sub: &str, now: u64) -> (r: Result<String, AuthError>)
    ensures
        r matches Err(e) ==> e == AuthError::TokenCreation,
        r is Ok <==> es256_sign_b64(
            keys.priv_pem(),
            spec_message(sub.spec_bytes(), spec_expiry(now, ACCESS_TOKEN_LIFETIME_SECS)),
        ) is Some,
        r matches Ok(t) ==> exists|sig: Seq<u8>|
            {
                &&& #[trigger] encode_utf8(t@) == spec_message(
                    sub.spec_bytes(),
                    spec_expiry(now, ACCESS_TOKEN_LIFETIME_SECS),
                ) + seq![46u8] + sig
                &&& forall|i: int| 0 <= i < sig.len() ==> #[trigger] is_b64_byte(sig[i])
            },
{
    let exp = crate::jwt::expiry_timestamp(now, ACCESS_TOKEN_LIFETIME_SECS);
    let pl = payload_bytes(sub, exp);
    let mut msg = header_b64_vec();
    msg.push(46);
    let mut p64 = b64_encode(pl.as_slice());
    msg.append(&mut p64);
    proof {
        assert(msg@ =~= spec_message(sub.spec_bytes(), exp));
    }
    let sig = match ecdsa_sign_b64(keys, msg.as_slice()) {
        Some(s) => s,
        None => {
            return Err(AuthError::TokenCreation);
        },
    };
    let ghost sig_bytes = sig@;
    let mut tok = msg;
    tok.push(46);
    let mut sig_v = sig;
    tok.append(&mut sig_v);
    proof {
        assert(tok@ =~= spec_message(sub.spec_bytes(), exp) + seq![46u8] + sig_bytes);
        crate::b64::lemma_b64_alphabet(spec_header_json());
        crate::b64::lemma_b64_alphabet(spec_payload(sub.spec_bytes(), exp));
        let h = spec_header_b64();
        let p = spec_b64(spec_payload(sub.spec_bytes(), exp));
        assert forall|i: int| 0 <= i < tok@.len() implies tok@[i] < 128 by {
            let hl = h.len() as int;
            let pl2 = p.len() as int;
            if i < hl {
                assert(tok@[i] == h[i]);
                assert(is_b64_byte(h[i]));
            } else if i == hl {
                assert(tok@[i] == 46);
            } else if i < hl + 1 + pl2 {
                assert(tok@[i] == p[i - hl - 1]);
                assert(is_b64_byte(p[i - hl - 1]));
            } else if i == hl + 1 + pl2 {
                assert(tok@[i] == 46);
            } else {
                assert(tok@[i] == sig_bytes[i - hl - 1 - pl2 - 1]);
                assert(is_b64_byte(sig_bytes[i - hl - 1 - pl2 - 1]));
            }
        }
        lemma_ascii_bytes_valid_utf8(tok@);
    }
    match bytes_to_string(tok) {
        Some(t) => {
            proof {
                vstd::utf8::decode_utf8_encode_utf8(spec_message(sub.spec_bytes(), exp)
                    + seq![46u8] + sig_bytes);
            }
            Ok(t)
        },
        None => {
            // unreachable: the token bytes were shown to be valid UTF-8
            proof {
                assert(false);
            }
            Err(AuthError::TokenCreation)
        },
    }
}

/// Find the first dot in `b` at or after `from`.
fn find_dot(b: &[u8], from: usize) -> (r: Option<usize>)
    requires
        from <= b@.len(),
    ensures
        match find_byte(b@.skip(from as int), 46) {
            Some(i) => r matches Some(k) && k == from + i,
            None => r is None,
        },
{
    let n = b.len();
    let mut i: usize = from;
    proof {
        assert(b@.skip(from as int).skip(0) =~= b@.skip(from as int));
    }
    while i < n
        invariant
            from <= i <= n,
            n == b@.len(),
            find_byte(b@.skip(from as int), 46) == match find_byte(b@.skip(i as int), 46) {
                Some(x) => Some((i - from) + x),
                None => None::<int>,
            },
        decreases n - i,
    {
        let c = b[i];
        proof {
            let t = b@.skip(i as int);
            assert(t[0] == c);
            assert(t.drop_first() =~= b@.skip(i + 1));
        }
        if c == 46 {
            return Some(i);
        }
        i = i + 1;
    }
    proof {
        assert(b@.skip(n as int).len() == 0);
    }
    None
}

/// Decode and verify an access token as of time `now`.
///
/// The outcome is exactly [`spec_verify`] of the verification-key PEM,
/// the token's bytes and `now`: the claims for a well-formed, correctly
/// signed, unexpired token; `MissingCredentials` for a signed token with
/// a required claim missing; `InvalidToken` for everything else.
#[verifier::rlimit(100)]
pub fn verify_and_decode_token(keys: &Keys, token: &str, now: u64) -> (r: Result<
    Claims,
    AuthError,
>)
    ensures
        match r {
            Ok(c) => spec_verify(keys.pem(), token.spec_bytes(), now) == Ok::<
                ClaimsView,
                AuthError,
            >(ClaimsView { sub: c.sub@, exp: c.exp }),
            Err(e) => spec_verify(keys.pem(), token.spec_bytes(), now) == Err::<
                ClaimsView,
                AuthError,
            >(e),
        },
{
    let b = token.as_bytes();
    let n = b.len();
    let ghost tok = token.spec_bytes();
    let d1 = match find_dot(b, 0) {
        Some(i) => i,
        None => {
            proof {
                assert(b@.skip(0) =~= b@);
            }
            return Err(AuthError::InvalidToken);
        },
    };
    proof {
        assert(b@.skip(0) =~= b@);
        lemma_find_byte(b@, 46);
        assert(d1 < n);
    }
    let d2 = match find_dot(b, d1 + 1) {
        Some(i) => i,
        None => {
            return Err(AuthError::InvalidToken);
        },
    };
    proof {
        lemma_find_byte(b@.skip(d1 + 1), 46);
        assert(d1 < d2 < n);
    }
    if let Some(_) = find_dot(b, d2 + 1) {
        proof {
            assert(b@.skip(d1 + 1).skip((d2 - d1 - 1) + 1) =~= b@.skip(d2 + 1));
        }
        return Err(AuthError::InvalidToken);
    }
    proof {
        assert(b@.skip(d1 + 1).skip((d2 - d1 - 1) + 1) =~= b@.skip(d2 + 1));
        assert(spec_split3(tok) == Some(
            (tok.take(d1 as int), tok.skip(d1 + 1).take(d2 - d1 - 1), tok.skip(d2 + 1)),
        ));
    }
    let ghost h = tok.take(d1 as int);
    let ghost p = tok.skip(d1 + 1).take(d2 - d1 - 1);
    let hv = header_b64_vec();
    if d1 != hv.len() {
        proof {
            assert(h.len() == d1);
        }
        return Err(AuthError::InvalidToken);
    }
    let mut k: usize = 0;
    #[verifier::loop_isolation(false)]
    while k < d1
        invariant
            0 <= k <= d1 < b@.len(),
            hv@ == spec_header_b64(),
            d1 == hv@.len(),
            h == b@.take(d1 as int),
            forall|j: int| 0 <= j < k ==> b@[j] == hv@[j],
        decreases d1 - k,
    {
        if b[k] != hv[k] {
            proof {
                assert(h[k as int] == b@[k as int]);
                assert(h != spec_header_b64());
            }
            return Err(AuthError::InvalidToken);
        }
        k = k + 1;
    }
    proof {
        assert(h =~= spec_header_b64());
    }
    let msg = vstd::slice::slice_subrange(b, 0, d2);
    let sg = vstd::slice::slice_subrange(b, d2 + 1, b.len());
    proof {
        assert(msg@ =~= h + seq![46u8] + p);
        assert(sg@ =~= tok.skip(d2 + 1));
    }
    if !ecdsa_verify_b64(keys, msg, sg) {
        return Err(AuthError::InvalidToken);
    }
    let pseg = vstd::slice::slice_subrange(b, d1 + 1, d2);
    proof {
        assert(pseg@ =~= p);
    }
    let pl = match b64_decode(pseg) {
        Some(v) => v,
        None => {
            return Err(AuthError::InvalidToken);
        },
    };
    match parse_payload(pl.as_slice()) {
        ParsedPayload::Bad => Err(AuthError::InvalidToken),
        ParsedPayload::MissingClaim => Err(AuthError::MissingCredentials),
        ParsedPayload::Full { sub, exp } => {
            let ghost sub_bytes = sub@;
            match bytes_to_string(sub) {
                None => Err(AuthError::InvalidToken),
                Some(s) => {
                    if exp <= now {
                        Err(AuthError::InvalidToken)
                    } else {
                        Ok(Claims { sub: s, exp })
                    }
                },
            }
        },
    }
}

/// Two facts that hold of verifying any token whatsoever: success never
/// comes at or after the expiry the token carries, and a failure is
/// always reported as an invalid token or as missing credentials — never
/// as wrong credentials or a creation fault.
pub proof fn lemma_verify_outcomes(pem: Seq<u8>, tok: Seq<u8>, now: u64)
    ensures
        spec_verify(pem, tok, now) matches Ok(c) ==> now < c.exp,
        spec_verify(pem, tok, now) matches Err(e) ==> e == AuthError::InvalidToken
            || e == AuthError::MissingCredentials,
{
}

/// The law the codec obeys: a token made of the signed message for a
/// subject and expiry plus any base64url signature — in particular any
/// token that issuance can return — verifies to exactly those claims
/// while the signature is accepted and the expiry lies in the future, and
/// is rejected as invalid from the expiry on or under a failing
/// signature.
pub proof fn lemma_issued_token_verifies(pem: Seq<u8>, sub: Seq<char>, exp: u64, sig: Seq<u8>, now: u64)
    requires
        forall|i: int| 0 <= i < sig.len() ==> #[trigger] is_b64_byte(sig[i]),
    ensures
        spec_verify(pem, spec_message(encode_utf8(sub), exp) + seq![46u8] + sig, now)
            == if sig_valid(pem, spec_message(encode_utf8(sub), exp), sig) {
                if now < exp {
                    Ok::<ClaimsView, AuthError>(ClaimsView { sub, exp })
                } else {
                    Err::<ClaimsView, AuthError>(AuthError::InvalidToken)
                }
            } else {
                Err::<ClaimsView, AuthError>(AuthError::InvalidToken)
            },
{
    let sb = encode_utf8(sub);
    let h = spec_header_b64();
    let p = spec_b64(spec_payload(sb, exp));
    let msg = spec_message(sb, exp);
    let tok = msg + seq![46u8] + sig;
    crate::b64::lemma_b64_alphabet(spec_header_json());
    crate::b64::lemma_b64_alphabet(spec_payload(sb, exp));
    lemma_find_byte(tok, 46);
    // the first dot stands right after the header
    assert(forall|i: int| 0 <= i < h.len() ==> tok[i] == #[trigger] h[i]);
    assert(tok[h.len() as int] == 46);
    assert(find_byte(tok, 46) == Some(h.len() as int)) by {
        if find_byte(tok, 46) is None {
            assert(tok[h.len() as int] != 46);
        }
        let i = find_byte(tok, 46).unwrap();
        if i < h.len() {
            assert(is_b64_byte(h[i]));
        }
        if i > h.len() {
            assert(tok[h.len() as int] != 46);
        }
    }
    let rest1 = tok.skip(h.len() as int + 1);
    assert(rest1 =~= p + seq![46u8] + sig);
    lemma_find_byte(rest1, 46);
    assert(forall|i: int| 0 <= i < p.len() ==> rest1[i] == #[trigger] p[i]);
    assert(rest1[p.len() as int] == 46);
    assert(find_byte(rest1, 46) == Some(p.len() as int)) by {
        if find_byte(rest1, 46) is None {
            assert(rest1[p.len() as int] != 46);
        }
        let i = find_byte(rest1, 46).unwrap();
        if i < p.len() {
            assert(is_b64_byte(p[i]));
        }
        if i > p.len() {
            assert(rest1[p.len() as int] != 46);
        }
    }
    let rest2 = rest1.skip(p.len() as int + 1);
    assert(rest2 =~= sig);
    lemma_find_byte(rest2, 46);
    assert(find_byte(rest2, 46) is None) by {
        if find_byte(rest2, 46) is Some {
            let i = find_byte(rest2, 46).unwrap();
            assert(is_b64_byte(sig[i]));
        }
    }
    assert(spec_split3(tok) == Some((tok.take(h.len() as int), rest1.take(p.len() as int), rest2)));
    assert(tok.take(h.len() as int) =~= h);
    assert(rest1.take(p.len() as int) =~= p);
    assert(h + seq![46u8] + p =~= msg);
    crate::b64::lemma_b64_roundtrip(spec_payload(sb, exp));
    crate::payload::lemma_parse_of_payload(sb, exp);
    vstd::utf8::encode_utf8_valid_utf8(sub);
    vstd::utf8::encode_utf8_decode_utf8(sub);
}

} // verus!
