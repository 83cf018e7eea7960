//! The interceptor in front of protected routes: it extracts a bearer
//! token from the authorization header, delegates to token verification,
//! and either yields the verified principal or rejects. Every rejection kind keeps its
//! internal classification; the client-facing message collapses the three
//! token failures into one.

use vstd::prelude::*;
use crate::chars::{chars_of, subvec, string_from_chars};
use crate::claims::ClaimsView;
use crate::config::Config;
use crate::errors::GateError;
use crate::token::{token_wf, sig_ok, seg_c, claims_all_expired, claims_parses_to};

verus! {

/// The verified identity attached to a request, owned by that request's
/// lifetime only.
#[derive(Debug)]
pub struct Principal {
    pub subject: String,
    pub email: String,
}

/// The literal scheme prefix a bearer header must carry.
pub open spec fn bearer_prefix() -> Seq<char> {
    seq!['B', 'e', 'a', 'r', 'e', 'r', ' ']
}

/// Whether the header value names the bearer scheme.
pub open spec fn has_bearer(h: Seq<char>) -> bool {
    h.len() >= 7 && h.subrange(0, 7) == bearer_prefix()
}

/// The token a bearer header carries: everything after the scheme prefix.
pub open spec fn header_token(h: Seq<char>) -> Seq<char> {
    h.skip(7)
}

/// The interceptor's decision at time `now`: no header is rejected outright; a
/// header without the bearer scheme is rejected as such; otherwise the rest
/// of the header is verified as a token and the rejection mirrors the
/// verification failure, while success yields the principal the claims
/// name.
pub fn authorize_at(header: Option<&String>, now: i64, config: &Config) -> (r: Result<
    Principal,
    GateError,
>)
    ensures
        (r == Result::<Principal, GateError>::Err(GateError::MissingHeader)) <==> header is None,
        (r == Result::<Principal, GateError>::Err(GateError::BadScheme)) <==> (match header {
            Some(h) => !has_bearer(h@),
            None => false,
        }),
        match header {
            Some(h) => has_bearer(h@) ==> {
                let tok = header_token(h@);
                &&& ((r == Result::<Principal, GateError>::Err(GateError::Malformed)) <==> !token_wf(
                    tok,
                ))
                &&& ((r == Result::<Principal, GateError>::Err(GateError::InvalidSignature)) <==> (
                token_wf(tok) && !sig_ok(config.jwt_secret@, tok)))
                &&& ((r == Result::<Principal, GateError>::Err(GateError::Expired)) <==> (token_wf(
                    tok,
                ) && sig_ok(config.jwt_secret@, tok) && claims_all_expired(
                    seg_c(tok),
                    now as int,
                )))
                &&& (r is Ok <==> (token_wf(tok) && sig_ok(config.jwt_secret@, tok)
                    && !claims_all_expired(seg_c(tok), now as int)))
            },
            None => true,
        },
        r matches Ok(p) ==> (match header {
            Some(h) => {
                &&& has_bearer(h@)
                &&& exists|cv: ClaimsView|
                    {
                        &&& #[trigger] claims_parses_to(seg_c(header_token(h@)), cv)
                        &&& p.subject@ == cv.sub
                        &&& p.email@ == cv.email
                        &&& now <= cv.exp
                    }
            },
            None => false,
        }),
{
    let h = match header {
        None => {
            return Err(GateError::MissingHeader);
        },
        Some(h) => h,
    };
    let hv = chars_of(h.as_str());
    let n = hv.len();
    let scheme_ok = n >= 7 && hv[0] == 'B' && hv[1] == 'e' && hv[2] == 'a' && hv[3] == 'r' && hv[4]
        == 'e' && hv[5] == 'r' && hv[6] == ' ';
    proof {
        if scheme_ok {
            assert(h@.subrange(0, 7) =~= bearer_prefix());
        } else if h@.len() >= 7 {
            assert(h@.subrange(0, 7) != bearer_prefix()) by {
                if h@.subrange(0, 7) == bearer_prefix() {
                    assert(h@[0] == 'B' && h@[1] == 'e' && h@[2] == 'a' && h@[3] == 'r' && h@[4]
                        == 'e' && h@[5] == 'r' && h@[6] == ' ') by {
                        assert forall|k: int| 0 <= k < 7 implies h@[k] == bearer_prefix()[k] by {
                            assert(h@.subrange(0, 7)[k] == bearer_prefix()[k]);
                        }
                    }
                }
            }
        }
    }
    if !scheme_ok {
        return Err(GateError::BadScheme);
    }
    let tokv = subvec(&hv, 7, n);
    proof {
        assert(tokv@ =~= header_token(h@));
    }
    let token = string_from_chars(&tokv);
    match crate::token::verify_token_at(token.as_str(), now, config) {
        Ok(c) => Ok(Principal { subject: c.sub, email: c.email }),
        Err(crate::errors::TokenError::InvalidSignature) => Err(GateError::InvalidSignature),
        Err(crate::errors::TokenError::Expired) => Err(GateError::Expired),
        Err(_) => Err(GateError::Malformed),
    }
}

/// The interceptor's decision at the current time.
pub fn authorize(header: Option<&String>, config: &Config) -> (r: Result<Principal, GateError>)
    ensures
        (r == Result::<Principal, GateError>::Err(GateError::MissingHeader)) <==> header is None,
        (r == Result::<Principal, GateError>::Err(GateError::BadScheme)) <==> (match header {
            Some(h) => !has_bearer(h@),
            None => false,
        }),
        match header {
            Some(h) => has_bearer(h@) ==> {
                let tok = header_token(h@);
                &&& ((r == Result::<Principal, GateError>::Err(GateError::Malformed)) <==> !token_wf(
                    tok,
                ))
                &&& ((r == Result::<Principal, GateError>::Err(GateError::InvalidSignature)) <==> (
                token_wf(tok) && !sig_ok(config.jwt_secret@, tok)))
                &&& ((r == Result::<Principal, GateError>::Err(GateError::Expired)) ==> (token_wf(
                    tok,
                ) && sig_ok(config.jwt_secret@, tok)))
            },
            None => true,
        },
        r matches Ok(p) ==> (match header {
            Some(h) => {
                &&& has_bearer(h@)
                &&& exists|cv: ClaimsView|
                    {
                        &&& #[trigger] claims_parses_to(seg_c(header_token(h@)), cv)
                        &&& p.subject@ == cv.sub
                        &&& p.email@ == cv.email
                    }
            },
            None => false,
        }),
{
    let now = crate::crypto::now_seconds();
    authorize_at(header, now, config)
}

} // verus!
