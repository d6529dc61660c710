//! The authentication service: salted password digests and signed bearer
//! tokens, built over one process-wide secret pair handed in at startup.
//!
//! A token is the compact dot-delimited form `header.payload.signature`:
//! the fixed HMAC-SHA512 header, then the claims payload, each
//! spelt in unpadded URL-safe base64, signed over `header.payload`. The
//! verifier pins the exact header, so a token signed under any other
//! algorithm is rejected, and checks the expiry itself.
use vstd::prelude::*;
use vstd::string::StrSliceExecFns;
use vstd::string::StringSliceAdditionalSpecFns;
use vstd::utf8::*;
use sha2::Digest;

use crate::b64::{b64_decode_of, b64_of, b64url_decode, b64url_encode};
use crate::bytes::{split3, split3_exec, vec_eq};
use crate::errors::{build_generic_err, build_unauth_err, AuthError};
use crate::hex::{hex_encode, hex_of, lemma_hex_of_ascii};
use crate::models::User;
use crate::payload::{build_payload, parse_payload, parse_payload_exec};
use crate::strings::{all_ascii, ascii_chars_of, ascii_to_string, bytes_to_string, is_ascii_bytes};

verus! {

/// How long past its issue time a token stays valid.
pub const TOKEN_TTL_SECONDS: u64 = 365 * 24 * 60 * 60;

/// What a verified token asserts: the subject it was issued to and the
/// second past which it no longer holds.
#[derive(Debug, Clone)]
pub struct Claims {
    pub user_id: String,
    pub exp: u64,
}

/// The digest sha2 computes for a byte string; a pure function of its input.
pub uninterp spec fn sha256_of(data: Seq<u8>) -> Seq<u8>;

/// Relies on `sha2::Sha256::digest`: a 32-byte digest that depends on the
/// input bytes alone.
#[verifier::external_body]
fn sha256(data: &[u8]) -> (r: Vec<u8>)
    ensures
        r@ == sha256_of(data@),
        r@.len() == 32,
{
    sha2::Sha256::digest(data).to_vec()
}

/// The signature `jsonwebtoken::crypto::sign` spells for a message under an
/// HMAC-SHA512 secret; a pure function of the two.
pub uninterp spec fn hs512_of(secret: Seq<u8>, message: Seq<u8>) -> Seq<u8>;

/// Whether `jsonwebtoken::crypto::verify` accepts a spelt signature for a
/// message under an HMAC-SHA512 secret; a pure function of the three.
pub uninterp spec fn hs512_verifies(secret: Seq<u8>, message: Seq<u8>, signature: Seq<u8>) -> bool;

/// Relies on `jsonwebtoken::crypto::sign` with `Algorithm::HS512` and a key
/// from `EncodingKey::from_secret`: the HMAC signer accepts a secret of any
/// length, so signing never fails; the returned signature is the unpadded
/// URL-safe base64 of the HMAC (so ASCII and never a dot), and `verify`
/// accepts it for the same secret and message.
#[verifier::external_body]
fn hs512_sign(secret: &[u8], message: &[u8]) -> (r: Option<Vec<u8>>)
    ensures
        r is Some,
        r matches Some(s) ==> s@ == hs512_of(secret@, message@) && (forall|i: int|
            0 <= i < s@.len() ==> s@[i] < 128 && s@[i] != 46) && hs512_verifies(
            secret@,
            message@,
            s@,
        ),
{
    let key = jsonwebtoken::EncodingKey::from_secret(secret);
    match jsonwebtoken::crypto::sign(message, &key, jsonwebtoken::Algorithm::HS512) {
        Ok(s) => Some(s.into_bytes()),
        Err(_) => None,
    }
}

/// Relies on `jsonwebtoken::crypto::verify` with `Algorithm::HS512` and a
/// key from `DecodingKey::from_secret`: it recomputes the HMAC and compares,
/// so acceptance depends on the secret, message and signature alone.
#[verifier::external_body]
fn hs512_check(secret: &[u8], message: &[u8], signature: &str) -> (r: bool)
    ensures
        r == hs512_verifies(secret@, message@, signature.spec_bytes()),
{
    let key = jsonwebtoken::DecodingKey::from_secret(secret);
    matches!(
        jsonwebtoken::crypto::verify(signature, message, &key, jsonwebtoken::Algorithm::HS512),
        Ok(true)
    )
}

/// Relies on `jsonwebtoken::get_current_timestamp`: seconds of the system
/// clock since the Unix epoch. Nothing is promised of the clock.
#[verifier::external_body]
pub(crate) fn now_seconds() -> u64 {
    jsonwebtoken::get_current_timestamp()
}

/// The fixed token header `{"typ":"JWT","alg":"HS512"}` as bytes.
pub open spec fn header_json() -> Seq<u8> {
    seq![
        123u8, 34u8, 116u8, 121u8, 112u8, 34u8, 58u8, 34u8, 74u8, 87u8, 84u8, 34u8, 44u8, 34u8,
        97u8, 108u8, 103u8, 34u8, 58u8, 34u8, 72u8, 83u8, 53u8, 49u8, 50u8, 34u8, 125u8,
    ]
}

fn header_json_vec() -> (r: Vec<u8>)
    ensures
        r@ == header_json(),
{
    let mut p: Vec<u8> = Vec::new();
    p.push(123);
    p.push(34);
    p.push(116);
    p.push(121);
    p.push(112);
    p.push(34);
    p.push(58);
    p.push(34);
    p.push(74);
    p.push(87);
    p.push(84);
    p.push(34);
    p.push(44);
    p.push(34);
    p.push(97);
    p.push(108);
    p.push(103);
    p.push(34);
    p.push(58);
    p.push(34);
    p.push(72);
    p.push(83);
    p.push(53);
    p.push(49);
    p.push(50);
    p.push(34);
    p.push(125);
    assert(p@ =~= header_json());
    p
}

/// The claims a token byte string proves under a secret, if any: it must
/// split into three dot-free parts, open with the pinned header, carry a
/// well-formed payload, and close with the signature the secret yields for
/// its first two parts.
pub open spec fn spec_decode(secret: Seq<u8>, t: Seq<u8>) -> Option<(Seq<u8>, u64)> {
    match split3(t, 46) {
        Some((h, p, s)) => {
            if h == b64_of(header_json()) && is_ascii_bytes(s) {
                match b64_decode_of(p) {
                    Some(pl) => match parse_payload(pl) {
                        Some((uid, exp)) => {
                            if hs512_verifies(secret, h + seq![46u8] + p, s) {
                                Some((uid, exp))
                            } else {
                                None
                            }
                        },
                        None => None,
                    },
                    None => None,
                }
            } else {
                None
            }
        },
        None => None,
    }
}

/// What verification at time `now` accepts: the token's claims, provided
/// the expiry has not passed.
pub open spec fn spec_verify_outcome(secret: Seq<u8>, t: Seq<u8>, now: u64) -> Option<(Seq<u8>, u64)> {
    match spec_decode(secret, t) {
        Some((uid, exp)) => if now <= exp {
            Some((uid, exp))
        } else {
            None
        },
        None => None,
    }
}

/// Round trip: a token carrying `(subject, exp)` under a secret — as every
/// token issued for `subject` with expiry `exp` under that secret does —
/// verifies at any time up to `exp` with exactly that subject.
pub proof fn lemma_issue_verify_round_trip(
    secret: Seq<u8>,
    token: Seq<u8>,
    subject: Seq<u8>,
    exp: u64,
    now: u64,
)
    requires
        spec_decode(secret, token) == Some((subject, exp)),
        now <= exp,
    ensures
        spec_verify_outcome(secret, token, now) == Some((subject, exp)),
{
}

/// A token past its encoded expiry is rejected, even though its signature
/// still verifies.
pub proof fn lemma_expired_token_rejected(
    secret: Seq<u8>,
    token: Seq<u8>,
    subject: Seq<u8>,
    exp: u64,
    now: u64,
)
    requires
        spec_decode(secret, token) == Some((subject, exp)),
        now > exp,
    ensures
        spec_verify_outcome(secret, token, now) is None,
{
}

/// The stored spelling of a password: lower-case hex of the digest of the
/// password bytes with the process-wide salt appended.
pub open spec fn hash_hex_of(password: Seq<u8>, salt: Seq<u8>) -> Seq<char> {
    ascii_chars_of(hex_of(sha256_of(password + salt)))
}

/// Issues and verifies tokens and derives credential digests. Holds the two
/// process-wide secrets; both are fixed for the service's lifetime.
#[derive(Debug)]
pub struct AuthService {
    pub jwt_secret: Vec<u8>,
    pub hash_salt: Vec<u8>,
}

impl AuthService {
    /// Build the service around the configured signing secret and hash salt.
    pub fn new(jwt_secret: &str, hash_salt: &str) -> (s: Self)
        ensures
            s.jwt_secret@ == jwt_secret.spec_bytes(),
            s.hash_salt@ == hash_salt.spec_bytes(),
    {
        AuthService { jwt_secret: jwt_secret.as_bytes_vec(), hash_salt: hash_salt.as_bytes_vec() }
    }

    /// Derive the stored digest for a plaintext credential. Deterministic:
    /// the result is a function of the plaintext and the salt, nothing else,
    /// which is what makes lookup-by-hash possible.
    pub fn generate_hash(&self, string: &str) -> (r: String)
        ensures
            r@ == hash_hex_of(string.spec_bytes(), self.hash_salt@),
            r@.len() == 64,
    {
        let mut data = string.as_bytes_vec();
        data.extend_from_slice(self.hash_salt.as_slice());
        assert(data@ =~= string.spec_bytes() + self.hash_salt@);
        let digest = sha256(data.as_slice());
        let hexed = hex_encode(&digest);
        proof {
            lemma_hex_of_ascii(digest@);
        }
        let s = ascii_to_string(hexed);
        s
    }

    /// Issue a token binding `user_id` to the expiry `exp`. Issuance always
    /// succeeds — HMAC signing cannot fail — and the token's bytes decode,
    /// under this service's secret, to exactly those claims.
    pub fn create_token_at(&self, user_id: &str, exp: u64) -> (r: Result<String, AuthError>)
        ensures
            r is Ok,
            r matches Ok(t) ==> spec_decode(self.jwt_secret@, encode_utf8(t@)) == Some(
                (user_id.spec_bytes(), exp),
            ),
    {
        let hj = header_json_vec();
        let hb = b64url_encode(hj.as_slice());
        let pl = build_payload(user_id.as_bytes(), exp);
        let pb = b64url_encode(pl.as_slice());
        let ghost gh = hb@;
        let ghost gp = pb@;
        let mut msg = hb;
        msg.push(46);
        msg.extend_from_slice(pb.as_slice());
        assert(msg@ =~= gh + seq![46u8] + gp);
        let sig = hs512_sign(self.jwt_secret.as_slice(), msg.as_slice()).unwrap();
        let ghost gs = sig@;
        let mut token = msg;
        token.push(46);
        token.extend_from_slice(sig.as_slice());
        assert(token@ =~= gh + seq![46u8] + gp + seq![46u8] + gs);
        let ghost gt = token@;
        let t = ascii_to_string(token);
        proof {
            crate::bytes::lemma_split3_of_parts(gh, gp, gs, 46);
            assert(spec_decode(self.jwt_secret@, gt) == Some((user_id.spec_bytes(), exp)));
        }
        Ok(t)
    }

    /// Issue a token for `user`, valid for `TOKEN_TTL_SECONDS` from now.
    /// Whatever second the clock reports, a returned token decodes under
    /// this service's secret to the user's id; the one failure left is a
    /// clock second so large that the expiry would not fit.
    pub fn create_token(&self, user: &User) -> (r: Result<String, AuthError>)
        ensures
            r matches Ok(t) ==> spec_decode(self.jwt_secret@, encode_utf8(t@)) matches Some(pr)
                && pr.0 == encode_utf8(user._id@),
            r matches Err(e) ==> e == AuthError::Internal,
    {
        let now = now_seconds();
        if now > u64::MAX - TOKEN_TTL_SECONDS {
            return Err(build_generic_err());
        }
        let r = self.create_token_at(user._id.as_str(), now + TOKEN_TTL_SECONDS);
        r
    }

    /// Verify a token at time `now`: accept exactly a token whose bytes
    /// decode under this service's secret to claims not yet expired, and
    /// whose subject is a well-formed string; everything else collapses to
    /// `Unauthorized`. An accepted token is ASCII throughout, so any token
    /// text with a byte outside that range is rejected.
    pub fn decode_token_at(&self, token_str: &str, now: u64) -> (r: Result<Claims, AuthError>)
        ensures
            r matches Ok(c) ==> spec_verify_outcome(self.jwt_secret@, token_str.spec_bytes(), now)
                == Some((encode_utf8(c.user_id@), c.exp)),
            r matches Err(e) ==> e == AuthError::Unauthorized && (match spec_verify_outcome(
                self.jwt_secret@,
                token_str.spec_bytes(),
                now,
            ) {
                Some(pr) => !valid_utf8(pr.0),
                None => true,
            }),
            !is_ascii_bytes(token_str.spec_bytes()) ==> r is Err,
    {
        let tb = token_str.as_bytes_vec();
        let parts = match split3_exec(&tb, 46) {
            Some(p) => p,
            None => {
                return Err(build_unauth_err());
            },
        };
        let (h, p, s) = parts;
        let hj = header_json_vec();
        let hb = b64url_encode(hj.as_slice());
        if !vec_eq(&h, &hb) {
            return Err(build_unauth_err());
        }
        if !all_ascii(&s) {
            return Err(build_unauth_err());
        }
        let pl = match b64url_decode(p.as_slice()) {
            Some(pl) => pl,
            None => {
                return Err(build_unauth_err());
            },
        };
        let parsed = match parse_payload_exec(&pl) {
            Some(x) => x,
            None => {
                return Err(build_unauth_err());
            },
        };
        let (uid_bytes, exp) = parsed;
        let ghost gh = h@;
        let ghost gs = s@;
        let mut msg = h;
        msg.push(46);
        msg.extend_from_slice(p.as_slice());
        assert(msg@ =~= gh + seq![46u8] + p@);
        let sig_str = ascii_to_string(s);
        if !hs512_check(self.jwt_secret.as_slice(), msg.as_slice(), sig_str.as_str()) {
            return Err(build_unauth_err());
        }
        if now > exp {
            return Err(build_unauth_err());
        }
        let user_id = match bytes_to_string(uid_bytes) {
            Some(u) => u,
            None => {
                return Err(build_unauth_err());
            },
        };
        proof {
            decode_utf8_encode_utf8(parsed.0@);
            crate::bytes::lemma_split3_join(tb@, 46);
            assert(tb@ == gh + seq![46u8] + p@ + seq![46u8] + gs);
            let a = gh.len() as int;
            let c = p@.len() as int;
            assert forall|k: int| 0 <= k < tb@.len() implies tb@[k] < 128 by {
                if k < a {
                    assert(tb@[k] == gh[k]);
                } else if k == a {
                    assert(tb@[k] == 46);
                } else if k < a + 1 + c {
                    assert(tb@[k] == p@[k - a - 1]);
                } else if k == a + 1 + c {
                    assert(tb@[k] == 46);
                } else {
                    assert(tb@[k] == gs[k - a - 2 - c]);
                }
            }
            assert(is_ascii_bytes(token_str.spec_bytes()));
        }
        Ok(Claims { user_id, exp })
    }

    /// Verify a token against the clock. A returned claim set is one the
    /// token's bytes decode to under this service's secret; any failure is
    /// `Unauthorized`.
    pub fn decode_token(&self, token_str: &str) -> (r: Result<Claims, AuthError>)
        ensures
            r matches Ok(c) ==> spec_decode(self.jwt_secret@, token_str.spec_bytes()) == Some(
                (encode_utf8(c.user_id@), c.exp),
            ),
            r matches Err(e) ==> e == AuthError::Unauthorized,
    {
        let now = now_seconds();
        let r = self.decode_token_at(token_str, now);
        r
    }
}

} // verus!
