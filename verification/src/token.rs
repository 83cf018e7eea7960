//! Token service: issue and verification of signed, self-contained identity
//! tokens. A token is three dot-separated segments,
//! `base64url(header) . base64url(claims) . base64url(HMAC-SHA256 tag)`,
//! where the tag is keyed by the configured secret and taken over the first
//! two segments joined by a dot. Verification classifies failures in order:
//! malformed structure, then signature mismatch, then expiry.

use vstd::prelude::*;
use vstd::utf8::{encode_utf8, decode_utf8, valid_utf8};
use crate::claims::{Claims, ClaimsView, claims_text, parse_claims_text};
use crate::codec::{b64u, is_b64_char};
use crate::crypto::hs256_sig;
use crate::config::Config;
use crate::errors::TokenError;

verus! {

broadcast use vstd::utf8::encode_utf8_valid_utf8, vstd::utf8::encode_utf8_decode_utf8;

/// JSON text of the fixed token header `{"alg":"HS256","typ":"JWT"}`.
pub open spec fn header_text() -> Seq<char> {
    seq![
        '{',
        '"',
        'a',
        'l',
        'g',
        '"',
        ':',
        '"',
        'H',
        'S',
        '2',
        '5',
        '6',
        '"',
        ',',
        '"',
        't',
        'y',
        'p',
        '"',
        ':',
        '"',
        'J',
        'W',
        'T',
        '"',
        '}',
    ]
}

/// The fixed first segment of every token.
pub open spec fn header_seg() -> Seq<char> {
    b64u(encode_utf8(header_text()))
}

/// First index at or after `from` holding `'.'`, or the length if none.
pub open spec fn find_dot(t: Seq<char>, from: int) -> int
    decreases t.len() - from,
{
    if !(0 <= from < t.len()) {
        t.len() as int
    } else if t[from] == '.' {
        from
    } else {
        find_dot(t, from + 1)
    }
}

pub open spec fn dot1(t: Seq<char>) -> int {
    find_dot(t, 0)
}

pub open spec fn dot2(t: Seq<char>) -> int {
    find_dot(t, dot1(t) + 1)
}

/// Exactly three dot-separated segments.
pub open spec fn structured(t: Seq<char>) -> bool {
    dot2(t) < t.len() && find_dot(t, dot2(t) + 1) == t.len()
}

pub open spec fn seg_h(t: Seq<char>) -> Seq<char> {
    t.subrange(0, dot1(t))
}

pub open spec fn seg_c(t: Seq<char>) -> Seq<char> {
    t.subrange(dot1(t) + 1, dot2(t))
}

pub open spec fn seg_s(t: Seq<char>) -> Seq<char> {
    t.subrange(dot2(t) + 1, t.len() as int)
}

/// The signed part: the first two segments and the dot between them.
pub open spec fn msg_part(t: Seq<char>) -> Seq<char> {
    t.subrange(0, dot2(t))
}

/// The claims segment decodes (canonically) to bytes spelling the claims
/// text of `cv`.
pub open spec fn claims_parses_to(seg: Seq<char>, cv: ClaimsView) -> bool {
    exists|b: Seq<u8>|
        #[trigger] b64u(b) == seg && valid_utf8(b) && parse_claims_text(decode_utf8(b)) == Some(cv)
}

pub open spec fn claims_seg_wf(seg: Seq<char>) -> bool {
    exists|cv: ClaimsView| #[trigger] claims_parses_to(seg, cv)
}

/// Structurally well formed: three segments, the fixed header, a decodable
/// claims payload.
pub open spec fn token_wf(t: Seq<char>) -> bool {
    structured(t) && seg_h(t) == header_seg() && claims_seg_wf(seg_c(t))
}

/// The signature segment is exactly the keyed MAC of the signed part.
pub open spec fn sig_ok(secret: Seq<char>, t: Seq<char>) -> bool {
    seg_s(t) == hs256_sig(encode_utf8(secret), encode_utf8(msg_part(t)))
}

/// Every reading of the claims segment is past its expiry at `now`.
pub open spec fn claims_all_expired(seg: Seq<char>, now: int) -> bool {
    forall|cv: ClaimsView| #[trigger] claims_parses_to(seg, cv) ==> now > cv.exp
}

/// The token issued for the given identity and validity window.
pub open spec fn token_chars(
    secret: Seq<char>,
    sub: Seq<char>,
    email: Seq<char>,
    iat: int,
    exp: int,
) -> Seq<char> {
    let m = header_seg() + seq!['.'] + b64u(encode_utf8(claims_text(sub, email, exp, iat)));
    m + seq!['.'] + hs256_sig(encode_utf8(secret), encode_utf8(m))
}

pub proof fn lemma_find_dot_props(t: Seq<char>, from: int)
    requires
        0 <= from,
    ensures
        find_dot(t, from) <= t.len(),
        from <= t.len() ==> from <= find_dot(t, from),
        find_dot(t, from) < t.len() ==> t[find_dot(t, from)] == '.',
        forall|m: int| from <= m < find_dot(t, from) ==> t[m] != '.',
    decreases t.len() - from,
{
    if 0 <= from < t.len() && t[from] != '.' {
        lemma_find_dot_props(t, from + 1);
    }
}

/// `find_dot` lands on a known dot preceded by none.
pub proof fn lemma_find_dot_at(t: Seq<char>, from: int, k: int)
    requires
        0 <= from <= k <= t.len(),
        forall|m: int| from <= m < k ==> t[m] != '.',
        k == t.len() || t[k] == '.',
    ensures
        k < t.len() ==> find_dot(t, from) == k,
        k == t.len() ==> find_dot(t, from) == t.len(),
    decreases k - from,
{
    if from < k {
        lemma_find_dot_at(t, from + 1, k);
    }
}

/// Searches for the next dot, exactly as `find_dot` does.
fn find_dot_exec(t: &Vec<char>, from: usize) -> (r: usize)
    ensures
        r as int == find_dot(t@, from as int),
        r <= t@.len(),
{
    let n = t.len();
    let mut i = from;
    loop
        invariant
            from <= i,
            n == t@.len(),
            find_dot(t@, from as int) == find_dot(t@, i as int),
        decreases n - i,
    {
        if i >= n {
            return n;
        }
        if t[i] == '.' {
            return i;
        }
        i = i + 1;
    }
}

use crate::chars::subvec;

/// The base64url of the fixed header.
fn build_header_seg() -> (r: Vec<char>)
    ensures
        r@ == header_seg(),
        forall|k: int| 0 <= k < r@.len() ==> is_b64_char(#[trigger] r@[k]),
{
    let hdr: Vec<char> = vec![
        '{',
        '"',
        'a',
        'l',
        'g',
        '"',
        ':',
        '"',
        'H',
        'S',
        '2',
        '5',
        '6',
        '"',
        ',',
        '"',
        't',
        'y',
        'p',
        '"',
        ':',
        '"',
        'J',
        'W',
        'T',
        '"',
        '}',
    ];
    proof {
        assert(hdr@ =~= header_text());
    }
    let hb = crate::codec::chars_to_utf8(&hdr);
    crate::codec::b64url_encode(&hb)
}

/// Issues the token for `sub`/`email`, valid from `now` for `ttl` seconds,
/// signed with the configured secret.
#[verifier::rlimit(100)]
pub fn create_token_at(sub: &str, email: &str, now: i64, ttl: i64, config: &Config) -> (r: String)
    requires
        0 <= now,
        0 < ttl,
        now + ttl <= i64::MAX,
    ensures
        r@ == token_chars(config.jwt_secret@, sub@, email@, now as int, now + ttl),
        token_wf(r@),
        sig_ok(config.jwt_secret@, r@),
        claims_parses_to(
            seg_c(r@),
            ClaimsView { sub: sub@, email: email@, exp: now + ttl, iat: now as int },
        ),
{
    let c = Claims { sub: sub.to_owned(), email: email.to_owned(), exp: now + ttl, iat: now };
    let text = crate::claims::claims_to_text(&c);
    let text_b = crate::codec::chars_to_utf8(&text);
    let mut m = build_header_seg();
    let ghost h_v = m@;
    m.push('.');
    let mut cseg = crate::codec::b64url_encode(&text_b);
    let ghost cseg_v = cseg@;
    m.append(&mut cseg);
    let ghost m_v = m@;
    proof {
        assert(m_v =~= h_v + seq!['.'] + cseg_v);
    }
    let mb = crate::codec::chars_to_utf8(&m);
    let skey = crate::chars::chars_of(config.jwt_secret.as_str());
    let sb = crate::codec::chars_to_utf8(&skey);
    let mut sig = crate::crypto::hs256_sign(&sb, &mb);
    let ghost sig_v = sig@;
    m.push('.');
    m.append(&mut sig);
    let ghost t_v = m@;
    proof {
        assert(t_v =~= m_v + seq!['.'] + sig_v);
        assert(t_v =~= token_chars(config.jwt_secret@, sub@, email@, now as int, now + ttl));
        let hl = h_v.len() as int;
        let cl = cseg_v.len() as int;
        // no segment holds a dot
        assert forall|k: int| 0 <= k < hl implies t_v[k] != '.' by {
            assert(t_v[k] == h_v[k]);
            assert(is_b64_char(h_v[k]));
        }
        assert(t_v[hl] == '.');
        assert forall|k: int| hl + 1 <= k < hl + 1 + cl implies t_v[k] != '.' by {
            assert(t_v[k] == cseg_v[k - hl - 1]);
            assert(is_b64_char(cseg_v[k - hl - 1]));
        }
        assert(t_v[hl + 1 + cl] == '.');
        assert forall|k: int| hl + 2 + cl <= k < t_v.len() implies t_v[k] != '.' by {
            assert(t_v[k] == sig_v[k - (hl + 2 + cl)]);
            assert(is_b64_char(sig_v[k - (hl + 2 + cl)]));
        }
        lemma_find_dot_at(t_v, 0, hl);
        assert(dot1(t_v) == hl);
        lemma_find_dot_at(t_v, hl + 1, hl + 1 + cl);
        assert(dot2(t_v) == hl + 1 + cl);
        lemma_find_dot_at(t_v, hl + 2 + cl, t_v.len() as int);
        assert(structured(t_v));
        assert(seg_h(t_v) =~= h_v);
        assert(seg_c(t_v) =~= cseg_v);
        assert(seg_s(t_v) =~= sig_v);
        assert(msg_part(t_v) =~= m_v);
        assert(sig_ok(config.jwt_secret@, t_v));
        // the claims segment decodes to the claims just written
        let b = text_b@;
        vstd::utf8::encode_utf8_valid_utf8(text@);
        vstd::utf8::encode_utf8_decode_utf8(text@);
        crate::claims::lemma_parse_claims_complete(sub@, email@, now + ttl, now as int);
        assert(b64u(b) == seg_c(t_v) && valid_utf8(b) && parse_claims_text(decode_utf8(b)) == Some(
            ClaimsView { sub: sub@, email: email@, exp: now + ttl, iat: now as int },
        ));
        assert(claims_parses_to(
            seg_c(t_v),
            ClaimsView { sub: sub@, email: email@, exp: now + ttl, iat: now as int },
        ));
        assert(token_wf(t_v));
    }
    crate::chars::string_from_chars(&m)
}

/// Verifies a token against the configured secret at time `now`; failures
/// are classified, first match winning: malformed structure, signature
/// mismatch, expiry.
#[verifier::rlimit(100)]
pub fn verify_token_at(token: &str, now: i64, config: &Config) -> (r: Result<Claims, TokenError>)
    ensures
        (r == Result::<Claims, TokenError>::Err(TokenError::Malformed)) <==> !token_wf(token@),
        (r == Result::<Claims, TokenError>::Err(TokenError::InvalidSignature)) <==> (token_wf(
            token@,
        ) && !sig_ok(config.jwt_secret@, token@)),
        (r == Result::<Claims, TokenError>::Err(TokenError::Expired)) <==> (token_wf(token@)
            && sig_ok(config.jwt_secret@, token@) && claims_all_expired(
            seg_c(token@),
            now as int,
        )),
        r is Ok <==> (token_wf(token@) && sig_ok(config.jwt_secret@, token@)
            && !claims_all_expired(seg_c(token@), now as int)),
        r matches Ok(c) ==> {
            &&& claims_parses_to(seg_c(token@), c@)
            &&& now <= c.exp
            &&& forall|cv: ClaimsView| #[trigger] claims_parses_to(seg_c(token@), cv) ==> cv == c@
        },
{
    let t = crate::chars::chars_of(token);
    let n = t.len();
    let d1 = find_dot_exec(&t, 0);
    if d1 >= n {
        proof {
            assert(dot1(t@) == n);
            assert(dot2(t@) == t@.len());
            assert(!structured(t@));
        }
        return Err(TokenError::Malformed);
    }
    let d2 = find_dot_exec(&t, d1 + 1);
    if d2 >= n {
        proof {
            assert(dot2(t@) == t@.len());
            assert(!structured(t@));
        }
        return Err(TokenError::Malformed);
    }
    let d3 = find_dot_exec(&t, d2 + 1);
    if d3 < n {
        proof {
            lemma_find_dot_props(t@, d2 as int + 1);
            assert(find_dot(t@, dot2(t@) + 1) < t@.len());
            assert(!structured(t@));
        }
        return Err(TokenError::Malformed);
    }
    proof {
        assert(structured(t@));
    }
    let hexp = build_header_seg();
    let hseg = subvec(&t, 0, d1);
    if !crate::chars::chars_eq(&hseg, &hexp) {
        proof {
            assert(seg_h(t@) != header_seg());
        }
        return Err(TokenError::Malformed);
    }
    proof {
        lemma_find_dot_props(t@, 0);
        lemma_find_dot_props(t@, d1 as int + 1);
    }
    let cseg = subvec(&t, d1 + 1, d2);
    let bytes = match crate::codec::b64url_decode(&cseg) {
        Some(b) => b,
        None => {
            proof {
                assert(!claims_seg_wf(seg_c(t@))) by {
                    if claims_seg_wf(seg_c(t@)) {
                        let cv = choose|cv: ClaimsView| claims_parses_to(seg_c(t@), cv);
                        let b = choose|b: Seq<u8>|
                            #[trigger] b64u(b) == seg_c(t@) && valid_utf8(b) && parse_claims_text(
                                decode_utf8(b),
                            ) == Some(cv);
                        assert(cseg@ == b64u(b));
                    }
                }
            }
            return Err(TokenError::Malformed);
        },
    };
    let chars = match crate::codec::utf8_to_chars(&bytes) {
        Some(v) => v,
        None => {
            proof {
                assert(!claims_seg_wf(seg_c(t@))) by {
                    if claims_seg_wf(seg_c(t@)) {
                        let cv = choose|cv: ClaimsView| claims_parses_to(seg_c(t@), cv);
                        let b = choose|b: Seq<u8>|
                            #[trigger] b64u(b) == seg_c(t@) && valid_utf8(b) && parse_claims_text(
                                decode_utf8(b),
                            ) == Some(cv);
                        assert(b == bytes@);
                    }
                }
            }
            return Err(TokenError::Malformed);
        },
    };
    let parsed = match crate::claims::parse_claims_exec(&chars) {
        Some(c) => c,
        None => {
            proof {
                assert(decode_utf8(bytes@) == chars@);
                assert(!claims_seg_wf(seg_c(t@))) by {
                    if claims_seg_wf(seg_c(t@)) {
                        let cv = choose|cv: ClaimsView| claims_parses_to(seg_c(t@), cv);
                        let b = choose|b: Seq<u8>|
                            #[trigger] b64u(b) == seg_c(t@) && valid_utf8(b) && parse_claims_text(
                                decode_utf8(b),
                            ) == Some(cv);
                        assert(b == bytes@);
                    }
                }
            }
            return Err(TokenError::Malformed);
        },
    };
    proof {
        assert(decode_utf8(bytes@) == chars@);
        assert(claims_parses_to(seg_c(t@), parsed@));
        assert(token_wf(t@));
        assert forall|cv: ClaimsView| #[trigger]
            claims_parses_to(seg_c(t@), cv) implies cv == parsed@ by {
            let b = choose|b: Seq<u8>|
                #[trigger] b64u(b) == seg_c(t@) && valid_utf8(b) && parse_claims_text(
                    decode_utf8(b),
                ) == Some(cv);
            assert(b == bytes@);
        }
    }
    let msg = subvec(&t, 0, d2);
    let mb = crate::codec::chars_to_utf8(&msg);
    let skey = crate::chars::chars_of(config.jwt_secret.as_str());
    let sb = crate::codec::chars_to_utf8(&skey);
    let sig = crate::crypto::hs256_sign(&sb, &mb);
    let sseg = subvec(&t, d2 + 1, n);
    if !crate::chars::chars_eq(&sseg, &sig) {
        proof {
            assert(!sig_ok(config.jwt_secret@, t@));
        }
        return Err(TokenError::InvalidSignature);
    }
    proof {
        assert(sig_ok(config.jwt_secret@, t@));
    }
    if now > parsed.exp {
        proof {
            assert(claims_all_expired(seg_c(t@), now as int));
        }
        return Err(TokenError::Expired);
    }
    proof {
        assert(!claims_all_expired(seg_c(t@), now as int));
    }
    Ok(parsed)
}

impl Claims {
    /// Claims for `sub`/`email` issued at `now` and expiring `ttl` seconds
    /// later.
    pub fn new_at(sub: String, email: String, now: i64, ttl: i64) -> (r: Claims)
        requires
            0 <= now,
            0 < ttl,
            now + ttl <= i64::MAX,
        ensures
            r@ == (ClaimsView { sub: sub@, email: email@, exp: now + ttl, iat: now as int }),
    {
        Claims { sub, email, exp: now + ttl, iat: now }
    }

    /// Claims issued now, expiring after the configured ttl; refused when
    /// the ttl is non-positive or the clock reading leaves the representable
    /// window.
    pub fn new(sub: String, email: String, config: &Config) -> (r: Option<Claims>)
        ensures
            config.jwt_expiration <= 0 ==> r is None,
            r matches Some(c) ==> {
                &&& c@.sub == sub@
                &&& c@.email == email@
                &&& 0 <= c@.iat
                &&& c@.exp == c@.iat + config.jwt_expiration
            },
    {
        let ttl = config.jwt_expiration;
        if ttl <= 0 {
            return None;
        }
        let now = crate::crypto::now_seconds();
        if now < 0 || now > i64::MAX - ttl {
            return None;
        }
        Some(Claims::new_at(sub, email, now, ttl))
    }
}

/// Issues a token for the given identity, expiring after the configured
/// ttl. A non-positive ttl is refused; so is a clock reading outside the
/// representable window.
pub fn create_token(user_id: &str, email: &str, config: &Config) -> (r: Result<String, TokenError>)
    ensures
        config.jwt_expiration <= 0 ==> r == Result::<String, TokenError>::Err(TokenError::Config),
        r matches Err(e) ==> e == TokenError::Config,
        r matches Ok(t) ==> {
            &&& token_wf(t@)
            &&& sig_ok(config.jwt_secret@, t@)
            &&& exists|iat: int, exp: int|
                {
                    &&& #[trigger] token_chars(config.jwt_secret@, user_id@, email@, iat, exp)
                        == t@
                    &&& 0 <= iat
                    &&& exp == iat + config.jwt_expiration
                    &&& exp <= i64::MAX as int
                    &&& claims_parses_to(
                        seg_c(t@),
                        ClaimsView { sub: user_id@, email: email@, exp, iat },
                    )
                }
        },
{
    let ttl = config.jwt_expiration;
    if ttl <= 0 {
        return Err(TokenError::Config);
    }
    let now = crate::crypto::now_seconds();
    if now < 0 || now > i64::MAX - ttl {
        return Err(TokenError::Config);
    }
    let t = create_token_at(user_id, email, now, ttl, config);
    proof {
        assert(token_chars(config.jwt_secret@, user_id@, email@, now as int, now + ttl) == t@);
    }
    Ok(t)
}

/// Verifies a token at the current time.
pub fn verify_token(token: &str, config: &Config) -> (r: Result<Claims, TokenError>)
    ensures
        (r == Result::<Claims, TokenError>::Err(TokenError::Malformed)) <==> !token_wf(token@),
        (r == Result::<Claims, TokenError>::Err(TokenError::InvalidSignature)) <==> (token_wf(
            token@,
        ) && !sig_ok(config.jwt_secret@, token@)),
        r == Result::<Claims, TokenError>::Err(TokenError::Expired) ==> token_wf(token@) && sig_ok(
            config.jwt_secret@,
            token@,
        ),
        r matches Err(e) ==> (e == TokenError::Malformed || e == TokenError::InvalidSignature || e
            == TokenError::Expired),
        r matches Ok(c) ==> {
            &&& token_wf(token@)
            &&& sig_ok(config.jwt_secret@, token@)
            &&& claims_parses_to(seg_c(token@), c@)
            &&& forall|cv: ClaimsView| #[trigger] claims_parses_to(seg_c(token@), cv) ==> cv == c@
        },
{
    let now = crate::crypto::now_seconds();
    verify_token_at(token, now, config)
}

/// A claims segment with one reading that is not yet expired is not "all
/// expired": verification at such a time cannot classify the token as
/// `Expired`, and a well-formed, well-signed token is then accepted.
pub proof fn lemma_unexpired_reading(seg: Seq<char>, cv: ClaimsView, now: int)
    requires
        claims_parses_to(seg, cv),
        now <= cv.exp,
    ensures
        !claims_all_expired(seg, now),
{
}

/// Replacing the signature segment of a well-signed token with anything
/// else (that still holds no dot) leaves a token that is structurally as
/// well formed as before, yet never carries a valid signature: verification
/// classifies it as a signature failure, never as valid.
pub proof fn lemma_tampered_signature(secret: Seq<char>, t: Seq<char>, t2: Seq<char>, s2: Seq<char>)
    requires
        structured(t),
        sig_ok(secret, t),
        t2 == msg_part(t) + seq!['.'] + s2,
        s2 != seg_s(t),
        forall|k: int| 0 <= k < s2.len() ==> s2[k] != '.',
    ensures
        structured(t2),
        token_wf(t2) == token_wf(t),
        !sig_ok(secret, t2),
{
    lemma_find_dot_props(t, 0);
    lemma_find_dot_props(t, dot1(t) + 1);
    let a = dot1(t);
    let b = dot2(t);
    assert(t[a] == '.');
    assert(t[b] == '.');
    assert forall|k: int| 0 <= k < a implies t2[k] != '.' by {
        assert(t2[k] == t[k]);
    }
    assert(t2[a] == t[a]);
    assert forall|k: int| a + 1 <= k < b implies t2[k] != '.' by {
        assert(t2[k] == t[k]);
    }
    assert(t2[b] == '.');
    assert forall|k: int| b + 1 <= k < t2.len() implies t2[k] != '.' by {
        assert(t2[k] == s2[k - b - 1]);
    }
    lemma_find_dot_at(t2, 0, a);
    assert(dot1(t2) == a);
    lemma_find_dot_at(t2, a + 1, b);
    assert(dot2(t2) == b);
    lemma_find_dot_at(t2, b + 1, t2.len() as int);
    assert(structured(t2));
    assert(seg_h(t2) =~= seg_h(t));
    assert(seg_c(t2) =~= seg_c(t));
    assert(msg_part(t2) =~= msg_part(t));
    assert(seg_s(t2) =~= s2);
    assert(!sig_ok(secret, t2));
    assert(token_wf(t2) == token_wf(t));
}

} // verus!
