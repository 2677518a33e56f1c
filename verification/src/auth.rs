use vstd::prelude::*;

verus! {

use vstd::string::StrSliceExecFns;
use vstd::string::StringExecFns;
use crate::config::{AuthConfig, AuthType};
use crate::errors::GatewayError;
use crate::strutil::{is_prefix_of, str_is_prefix};

/// The standard claim set carried by a gateway JWT. Decoded claims are
/// currently only inspected for validity, not forwarded upstream.
#[derive(Debug, Clone)]
pub struct Claims {
    pub user_id: Option<String>,
    pub role: Option<String>,
    pub exp: u64,
}

/// Relies on jsonwebtoken::decode: verifies the token's HS256 signature
/// against the secret and its `exp` claim against the process clock, then
/// hands back the `user_id`, `role` and `exp` claims. The verdict depends on
/// the clock, so nothing is promised of which way it goes.
#[verifier::external_body]
fn jwt_decode_raw(token: &str, secret: &str) -> (r: Result<
    (Option<String>, Option<String>, Option<u64>),
    (),
>) {
    match jsonwebtoken::decode::<serde_yaml::Value>(
        token,
        &jsonwebtoken::DecodingKey::from_secret(secret.as_bytes()),
        &jsonwebtoken::Validation::default(),
    ) {
        Ok(data) => {
            let user_id = data.claims.get("user_id").and_then(|v| v.as_str()).map(String::from);
            let role = data.claims.get("role").and_then(|v| v.as_str()).map(String::from);
            let exp = data.claims.get("exp").and_then(|v| v.as_u64());
            Ok((user_id, role, exp))
        },
        Err(_) => Err(()),
    }
}

/// Assemble a claim set from the raw claim fields a decoded token carried;
/// a token without a numeric `exp` claim counts as expired at time zero.
pub fn claims_from_parts(
    user_id: Option<String>,
    role: Option<String>,
    exp: Option<u64>,
) -> (c: Claims)
    ensures
        c.user_id == user_id,
        c.role == role,
        c.exp == match exp {
            Some(x) => x,
            None => 0u64,
        },
{
    Claims {
        user_id,
        role,
        exp: match exp {
            Some(x) => x,
            None => 0,
        },
    }
}

/// Validate a bearer token: a verified signature and an unexpired `exp`
/// yield the decoded claims; anything else is `Unauthorized`.
pub fn decode(token: &str, secret: &String) -> (r: Result<Claims, GatewayError>)
    ensures
        r matches Err(e) ==> e is Unauthorized,
{
    match jwt_decode_raw(token, secret.as_str()) {
        Ok((user_id, role, exp)) => Ok(claims_from_parts(user_id, role, exp)),
        Err(_) => Err(GatewayError::Unauthorized),
    }
}

/// Extract the bearer token from an `Authorization` header value: everything
/// after the `Bearer ` prefix, or nothing when the prefix is absent.
pub fn bearer_token(header: &str) -> (r: Option<String>)
    ensures
        match r {
            Some(t) => is_prefix_of("Bearer "@, header@) && t@ == header@.subrange(
                "Bearer "@.len() as int,
                header@.len() as int,
            ),
            None => !is_prefix_of("Bearer "@, header@),
        },
{
    proof {
        reveal_strlit("Bearer ");
    }
    if str_is_prefix("Bearer ", header) {
        let l = header.unicode_len();
        Some(String::from_str(header.substring_char(7, l)))
    } else {
        None
    }
}

/// Auth is enforced only when a global auth policy is configured and the
/// chosen upstream requires auth.
pub open spec fn gate_applies(auth: Option<AuthConfig>, upstream_requires_auth: bool) -> bool {
    auth is Some && upstream_requires_auth
}

/// The auth decision. Applied only when an auth policy is configured and the
/// upstream requires it; then a missing or non-bearer `Authorization` header
/// is `Unauthorized`, a bearer under a configured non-JWT method passes
/// (degrades open), and a bearer under JWT passes exactly when the token's
/// signature verifies and it is unexpired.
pub fn check_auth(
    auth: &Option<AuthConfig>,
    upstream_requires_auth: bool,
    authorization: &Option<String>,
) -> (r: Result<(), GatewayError>)
    ensures
        r matches Err(e) ==> e is Unauthorized,
        !gate_applies(*auth, upstream_requires_auth) ==> r is Ok,
        gate_applies(*auth, upstream_requires_auth) && authorization is None ==> r is Err,
        (gate_applies(*auth, upstream_requires_auth) && (authorization matches Some(h)
            && !is_prefix_of("Bearer "@, h@))) ==> r is Err,
        (gate_applies(*auth, upstream_requires_auth) && (authorization matches Some(h)
            && (auth matches Some(a) && (is_prefix_of("Bearer "@, h@) && !a.method.is_jwt())))) ==> r
            is Ok,
{
    match auth {
        Some(a) => {
            if upstream_requires_auth {
                match authorization {
                    Some(h) => match bearer_token(h.as_str()) {
                        Some(t) => match &a.method {
                            AuthType::JWT { secret, expiration: _ } => match decode(
                                t.as_str(),
                                secret,
                            ) {
                                Ok(_) => Ok(()),
                                Err(e) => Err(e),
                            },
                            AuthType::NoAuth => Ok(()),
                        },
                        None => Err(GatewayError::Unauthorized),
                    },
                    None => Err(GatewayError::Unauthorized),
                }
            } else {
                Ok(())
            }
        },
        None => Ok(()),
    }
}

} // verus!
