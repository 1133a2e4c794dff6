use vstd::prelude::*;

use crate::text::text_at;
use crate::decimal::{
    canonical_digits, decimal, decimal_string, lemma_canonical_is_decimal, lemma_decimal_value,
    parse_digits,
};

verus! {

/// Seconds in an hour, the unit of a token's lifetime.
pub const SECONDS_PER_HOUR: u64 = 3600;

/// The decoded payload of a token: the subject and the absolute expiry in
/// epoch seconds.
#[derive(Debug, Clone)]
pub struct Claims {
    pub sub: String,
    pub exp: u64,
}

/// Why a token could not be issued or accepted.
#[derive(Debug, Clone, Copy, PartialEq, Eq, Structural)]
pub enum TokenError {
    /// No signing secret is configured.
    Config,
    /// The claims could not be encoded or signed.
    Signing,
    /// Bad signature, malformed structure, or expiry in the past.
    Invalid,
}

#[verifier::external_type_specification]
#[verifier::external_body]
pub struct ExJwtError(jsonwebtoken::errors::Error);

/// The token that signing `claims` under `secret` gives.
pub uninterp spec fn signed_token(claims: Seq<char>, secret: Seq<char>) -> Seq<char>;

/// The claims text that a token carries, where its structure, algorithm and
/// signature under `secret` check out.
pub uninterp spec fn verified_payload(token: Seq<char>, secret: Seq<char>) -> Option<Seq<char>>;

/// A character that a subject may hold as it is, in a JSON string.
pub open spec fn subject_char_ok(c: char) -> bool {
    c != '"' && c != '\\' && c >= ' '
}

pub open spec fn subject_ok(s: Seq<char>) -> bool {
    forall|i: int| 0 <= i < s.len() ==> subject_char_ok(#[trigger] s[i])
}

pub open spec fn claims_prefix() -> Seq<char> {
    seq!['{', '"', 's', 'u', 'b', '"', ':', '"']
}

pub open spec fn claims_middle() -> Seq<char> {
    seq!['"', ',', '"', 'e', 'x', 'p', '"', ':']
}

/// The JSON text of the claims `{"sub":"<sub>","exp":<exp>}`.
pub open spec fn claims_text(sub: Seq<char>, exp: nat) -> Seq<char> {
    claims_prefix() + sub + claims_middle() + decimal(exp) + seq!['}']
}

/// `t` is the text of some claims with a plain subject and a `u64` expiry.
pub open spec fn is_claims_text(t: Seq<char>) -> bool {
    exists|s: Seq<char>, e: nat| subject_ok(s) && e <= u64::MAX && t == claims_text(s, e)
}

/// `t` is the text of claims that have not expired at `now`.
pub open spec fn claims_accepted(t: Seq<char>, now: nat) -> bool {
    exists|s: Seq<char>, e: nat|
        subject_ok(s) && e <= u64::MAX && t == claims_text(s, e) && now <= e
}

/// A token whose verified payload is claims that have not expired at `now`.
pub open spec fn token_accepted(payload: Option<Seq<char>>, now: nat) -> bool {
    payload matches Some(t) && claims_accepted(t, now)
}

/// The expiry of a token issued at `now` that lives `ttl_hours`.
pub open spec fn expiry(now: nat, ttl_hours: nat) -> nat {
    now + ttl_hours * 3600
}

proof fn lemma_claims_layout(s: Seq<char>, e: nat)
    ensures
        ({
            let t = claims_text(s, e);
            let d = decimal(e);
            &&& t.len() == s.len() + d.len() + 17
            &&& t.subrange(0, 8) == claims_prefix()
            &&& t.subrange(8, 8 + s.len() as int) == s
            &&& t.subrange(8 + s.len() as int, 16 + s.len() as int) == claims_middle()
            &&& t.subrange(16 + s.len() as int, t.len() - 1) == d
            &&& t[t.len() - 1] == '}'
            &&& t[8 + s.len() as int] == '"'
            &&& forall|k: int| 8 <= k < 8 + s.len() as int ==> t[k] == s[k - 8]
        }),
{
    let t = claims_text(s, e);
    let d = decimal(e);
    lemma_decimal_value(e);
    assert(t.subrange(0, 8) =~= claims_prefix());
    assert(t.subrange(8, 8 + s.len() as int) =~= s);
    assert(t.subrange(8 + s.len() as int, 16 + s.len() as int) =~= claims_middle());
    assert(t.subrange(16 + s.len() as int, t.len() - 1) =~= d);
}

/// The subject of claims text ends at the first character that a subject
/// cannot hold.
proof fn lemma_subject_end(t: Seq<char>, s: Seq<char>, e: nat, j: int)
    requires
        t == claims_text(s, e),
        subject_ok(s),
        8 <= j <= t.len(),
        forall|k: int| 8 <= k < j ==> subject_char_ok(#[trigger] t[k]),
        j == t.len() || !subject_char_ok(t[j]),
    ensures
        j == 8 + s.len() as int,
{
    lemma_claims_layout(s, e);
    if j < 8 + s.len() as int {
        assert(t[j] == s[j - 8]);
        assert(subject_char_ok(s[j - 8]));
    } else if j > 8 + s.len() as int {
        assert(subject_char_ok(t[8 + s.len() as int]));
    }
}

/// Claims text with a plain subject names one subject and one expiry.
pub proof fn lemma_claims_text_injective(s1: Seq<char>, e1: nat, s2: Seq<char>, e2: nat)
    requires
        subject_ok(s1),
        subject_ok(s2),
        claims_text(s1, e1) == claims_text(s2, e2),
    ensures
        s1 == s2,
        e1 == e2,
{
    let t = claims_text(s1, e1);
    lemma_claims_layout(s1, e1);
    lemma_claims_layout(s2, e2);
    assert forall|k: int| 8 <= k < 8 + s1.len() as int implies subject_char_ok(#[trigger] t[k]) by {
        assert(t[k] == s1[k - 8]);
    }
    lemma_subject_end(t, s2, e2, 8 + s1.len() as int);
    lemma_decimal_value(e1);
    lemma_decimal_value(e2);
}

/// The subject and expiry that claims text names.
spec fn claims_parts(t: Seq<char>) -> (Seq<char>, nat) {
    choose|p: (Seq<char>, nat)| subject_ok(p.0) && p.1 <= u64::MAX && t == claims_text(p.0, p.1)
}

proof fn lemma_claims_parts(t: Seq<char>)
    requires
        is_claims_text(t),
    ensures
        subject_ok(claims_parts(t).0),
        claims_parts(t).1 <= u64::MAX,
        t == claims_text(claims_parts(t).0, claims_parts(t).1),
{
    let (s, e) = choose|s: Seq<char>, e: nat|
        subject_ok(s) && e <= u64::MAX && t == claims_text(s, e);
    assert(subject_ok((s, e).0) && (s, e).1 <= u64::MAX && t == claims_text((s, e).0, (s, e).1));
}

fn is_subject_char(c: char) -> (r: bool)
    ensures
        r == subject_char_ok(c),
{
    c != '"' && c != '\\' && c >= ' '
}

/// Whether a subject can be carried as it is in claims text.
pub fn is_subject(s: &str) -> (r: bool)
    ensures
        r == subject_ok(s@),
{
    let n = s.unicode_len();
    let mut i: usize = 0;
    while i < n
        invariant
            n == s@.len(),
            i <= n,
            forall|k: int| 0 <= k < i ==> subject_char_ok(#[trigger] s@[k]),
        decreases n - i,
    {
        if !is_subject_char(s.get_char(i)) {
            return false;
        }
        i = i + 1;
    }
    true
}

/// Writes the claims text for a subject and an expiry.
pub fn frame_claims(sub: &str, exp: u64) -> (r: String)
    ensures
        r@ == claims_text(sub@, exp as nat),
{
    proof {
        reveal_strlit("{\"sub\":\"");
        reveal_strlit("\",\"exp\":");
        reveal_strlit("}");
    }
    let mut r = String::from_str("{\"sub\":\"");
    r.append(sub);
    r.append("\",\"exp\":");
    let digits = decimal_string(exp);
    r.append(digits.as_str());
    r.append("}");
    assert(r@ =~= claims_text(sub@, exp as nat));
    r
}

/// Reads claims text back into claims.
///
/// Only the exact text that `frame_claims` writes, with a plain subject and a
/// `u64` expiry, is read; anything else gives `None`.
pub fn parse_claims(text: &str) -> (r: Option<Claims>)
    ensures
        r is Some <==> is_claims_text(text@),
        r matches Some(c) ==> subject_ok(c.sub@) && text@ == claims_text(c.sub@, c.exp as nat),
{
    proof {
        reveal_strlit("{\"sub\":\"");
        reveal_strlit("\",\"exp\":");
        assert("{\"sub\":\""@ =~= claims_prefix());
        assert("\",\"exp\":"@ =~= claims_middle());
    }
    let ghost t = text@;
    let ghost s = claims_parts(t).0;
    let ghost e = claims_parts(t).1;
    proof {
        if is_claims_text(t) {
            lemma_claims_parts(t);
            lemma_claims_layout(s, e);
            lemma_decimal_value(e);
        }
    }
    let n = text.unicode_len();
    if !text_at(text, 0, "{\"sub\":\"") {
        return None;
    }
    let mut j: usize = 8;
    while j < n && is_subject_char(text.get_char(j))
        invariant
            8 <= j <= n,
            n == t.len(),
            t == text@,
            forall|k: int| 8 <= k < j ==> subject_char_ok(#[trigger] t[k]),
        decreases n - j,
    {
        j = j + 1;
    }
    proof {
        if is_claims_text(t) {
            lemma_subject_end(t, s, e, j as int);
        }
    }
    if j == n || !text_at(text, j, "\",\"exp\":") {
        return None;
    }
    let start = j + 8;
    if n - start < 2 || text.get_char(n - 1) != '}' {
        return None;
    }
    if n - 1 - start > 1 && text.get_char(start) == '0' {
        proof {
            if is_claims_text(t) {
                assert(decimal(e)[0] == t[start as int]);
            }
        }
        return None;
    }
    let exp = match parse_digits(text, start, n - 1) {
        Some(v) => v,
        None => {
            return None;
        },
    };
    let sub = String::from_str(text.substring_char(8, j));
    proof {
        let ds = t.subrange(start as int, n - 1);
        assert(canonical_digits(ds)) by {
            if ds.len() > 1 {
                assert(ds[0] == t[start as int]);
            }
        }
        lemma_canonical_is_decimal(ds);
        assert(sub@ == t.subrange(8, j as int));
        assert(t =~= claims_text(sub@, exp as nat));
    }
    Some(Claims { sub, exp })
}

/// Accepts claims text that has not expired at `now`.
///
/// A token stays valid up to and including its expiry second.
pub fn check_claims(text: &str, now: u64) -> (r: Result<Claims, TokenError>)
    ensures
        r is Ok <==> claims_accepted(text@, now as nat),
        r matches Ok(c) ==> subject_ok(c.sub@) && text@ == claims_text(c.sub@, c.exp as nat)
            && now <= c.exp,
        r matches Err(e) ==> e == TokenError::Invalid,
{
    match parse_claims(text) {
        Some(c) => {
            if now <= c.exp {
                Ok(c)
            } else {
                proof {
                    if claims_accepted(text@, now as nat) {
                        let (s, e) = choose|s: Seq<char>, e: nat|
                            subject_ok(s) && e <= u64::MAX && text@ == claims_text(s, e) && now
                                <= e;
                        lemma_claims_text_injective(s, e, c.sub@, c.exp as nat);
                    }
                }
                Err(TokenError::Invalid)
            }
        },
        None => Err(TokenError::Invalid),
    }
}

/// Relies on `jsonwebtoken::encode` with the default header (HS256) and an
/// HMAC key made from the secret's bytes, the claims handed over as raw JSON
/// through `serde_json::value::RawValue::from_string`. The token depends on
/// claims and secret alone, and `jsonwebtoken::decode` under the same secret
/// hands the claims text back unchanged. Claims text with a plain subject is
/// valid JSON, and an HMAC key fits the HS256 header, so it always succeeds.
#[verifier::external_body]
fn encode_claims(claims: String, secret: &str) -> (r: Result<String, jsonwebtoken::errors::Error>)
    requires
        is_claims_text(claims@),
    ensures
        r is Ok,
        r matches Ok(t) ==> t@ == signed_token(claims@, secret@) && verified_payload(t@, secret@)
            == Some(claims@),
{
    let raw = serde_json::value::RawValue::from_string(claims)?;
    let key = jsonwebtoken::EncodingKey::from_secret(secret.as_bytes());
    jsonwebtoken::encode(&jsonwebtoken::Header::default(), &raw, &key)
}

/// Relies on `jsonwebtoken::decode` pinned to HS256, with an HMAC key made from
/// the secret's bytes, claims read as raw JSON, and the expiry left to the
/// caller: it checks structure, algorithm and signature, and its result
/// depends on token and secret alone.
#[verifier::external_body]
fn decode_claims(token: &str, secret: &str) -> (r: Result<String, jsonwebtoken::errors::Error>)
    ensures
        r is Ok <==> verified_payload(token@, secret@) is Some,
        r matches Ok(c) ==> verified_payload(token@, secret@) == Some(c@),
{
    let mut validation = jsonwebtoken::Validation::new(jsonwebtoken::Algorithm::HS256);
    validation.validate_exp = false;
    let key = jsonwebtoken::DecodingKey::from_secret(secret.as_bytes());
    jsonwebtoken::decode::<Box<serde_json::value::RawValue>>(token, &key, &validation).map(
        |data| data.claims.get().to_string(),
    )
}

/// Issues a token for `id_usuario` at `now` that lives `ttl_hours`.
///
/// The subject is carried in the claims as it is, so only plain subjects are
/// taken: one holding `"`, `\` or a control character is refused as a
/// signing error. Identifiers written in decimal are always plain.
pub fn generar_token(id_usuario: &str, secret: Option<&str>, ttl_hours: u64, now: u64) -> (r:
    Result<String, TokenError>)
    requires
        expiry(now as nat, ttl_hours as nat) <= u64::MAX,
    ensures
        secret is None ==> r == Err::<String, TokenError>(TokenError::Config),
        secret is Some && !subject_ok(id_usuario@) ==> r == Err::<String, TokenError>(
            TokenError::Signing,
        ),
        secret is Some && subject_ok(id_usuario@) ==> r is Ok,
        r matches Err(e) ==> e == TokenError::Config || e == TokenError::Signing,
        r matches Ok(t) ==> secret matches Some(k) && subject_ok(id_usuario@) && ({
            let claims = claims_text(id_usuario@, expiry(now as nat, ttl_hours as nat));
            t@ == signed_token(claims, k@) && verified_payload(t@, k@) == Some(claims)
        }),
{
    let secret = match secret {
        Some(k) => k,
        None => return Err(TokenError::Config),
    };
    if !is_subject(id_usuario) {
        return Err(TokenError::Signing);
    }
    let exp = now + ttl_hours * SECONDS_PER_HOUR;
    let claims = frame_claims(id_usuario, exp);
    assert(is_claims_text(claims@)) by {
        assert(subject_ok(id_usuario@) && exp <= u64::MAX && claims@ == claims_text(
            id_usuario@,
            exp as nat,
        ));
    }
    match encode_claims(claims, secret) {
        Ok(t) => Ok(t),
        Err(_) => Err(TokenError::Signing),
    }
}

/// Validates a bearer token at `now`: signature, structure and expiry.
pub fn validar_token(token: &str, secret: Option<&str>, now: u64) -> (r: Result<Claims, TokenError>)
    ensures
        secret is None ==> r == Err::<Claims, TokenError>(TokenError::Config),
        secret matches Some(k) ==> (r is Ok <==> token_accepted(
            verified_payload(token@, k@),
            now as nat,
        )),
        secret is Some && r is Err ==> r == Err::<Claims, TokenError>(TokenError::Invalid),
        r matches Ok(c) ==> secret matches Some(k) && subject_ok(c.sub@) && now <= c.exp
            && verified_payload(token@, k@) == Some(claims_text(c.sub@, c.exp as nat)),
{
    let secret = match secret {
        Some(k) => k,
        None => return Err(TokenError::Config),
    };
    match decode_claims(token, secret) {
        Ok(text) => check_claims(text.as_str(), now),
        Err(_) => Err(TokenError::Invalid),
    }
}

/// A token whose verified payload is the claims for `sub` and `exp` is
/// accepted up to and including `exp`, and rejected after it; whenever it is
/// accepted, the claims read back are `sub` and `exp`.
pub proof fn lemma_token_valid_until_expiry(
    token: Seq<char>,
    secret: Seq<char>,
    sub: Seq<char>,
    exp: nat,
    now: nat,
)
    requires
        subject_ok(sub),
        exp <= u64::MAX,
        verified_payload(token, secret) == Some(claims_text(sub, exp)),
    ensures
        token_accepted(verified_payload(token, secret), now) <==> now <= exp,
        forall|s: Seq<char>, e: nat|
            subject_ok(s) && verified_payload(token, secret) == Some(#[trigger] claims_text(s, e))
                ==> s == sub && e == exp,
{
    if claims_accepted(claims_text(sub, exp), now) {
        let (s, e) = choose|s: Seq<char>, e: nat|
            subject_ok(s) && e <= u64::MAX && claims_text(sub, exp) == claims_text(s, e) && now
                <= e;
        lemma_claims_text_injective(s, e, sub, exp);
    }
    assert forall|s: Seq<char>, e: nat|
        subject_ok(s) && verified_payload(token, secret) == Some(
            #[trigger] claims_text(s, e),
        ) implies s == sub && e == exp by {
        lemma_claims_text_injective(s, e, sub, exp);
    }
}

} // verus!
