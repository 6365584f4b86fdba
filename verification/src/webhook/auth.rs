//! Authentication checks for webhook requests: a static key in a header,
//! a bearer token against a symmetric secret, or nothing.  Signature
//! verification needs the request body buffered and is left permissive.

use vstd::prelude::*;

use crate::bus::attrs_lookup;
use crate::text::{lower_of, str_eq, to_lowercase};
use crate::webhook::config::{AuthConfig, AuthType};

verus! {

/// Why a request failed authentication.
#[derive(Debug)]
pub enum AuthError {
    /// No credential was presented.
    Missing(String),
    /// The presented credential is wrong.
    Invalid(String),
    /// The platform's own settings are incomplete.
    Configuration(String),
}

impl AuthError {
    /// The HTTP status this failure answers with: unauthorized for a
    /// missing or wrong credential, an internal error for bad settings.
    pub fn status_code(&self) -> (r: u16)
        ensures
            r == match self {
                AuthError::Missing(_) => 401u16,
                AuthError::Invalid(_) => 401u16,
                AuthError::Configuration(_) => 500u16,
            },
    {
        match self {
            AuthError::Missing(_) => 401,
            AuthError::Invalid(_) => 401,
            AuthError::Configuration(_) => 500,
        }
    }
}

/// Relies on jsonwebtoken's decode with its default validation: the
/// token's signature is checked against the secret and its expiry against
/// the clock, so nothing is promised of the outcome.
#[verifier::external_body]
fn jwt_decode_ok(token: &str, secret: &[u8]) -> bool {
    let key = jsonwebtoken::DecodingKey::from_secret(secret);
    let validation = jsonwebtoken::Validation::default();
    jsonwebtoken::decode::<serde_json::Value>(token, &key, &validation).is_ok()
}

/// The header the static key is read from: the configured one, lowered,
/// or the conventional key header.
pub open spec fn api_key_header(config: &AuthConfig) -> Seq<char> {
    match config.header {
        Option::Some(h) => lower_of(h@),
        Option::None => "x-api-key"@,
    }
}

/// Check a static key: the configured header must carry exactly the
/// expected secret.  Headers are given with lowercase names.
pub fn verify_api_key(
    config: &AuthConfig,
    headers: &Vec<(String, String)>,
    secret: Option<&String>,
) -> (r: Result<(), AuthError>)
    ensures
        ({
            let provided = attrs_lookup(crate::bus::attrs_model(headers@), api_key_header(config));
            match secret {
                Option::None => r matches Result::Err(AuthError::Configuration(_)),
                Option::Some(expected) => match provided {
                    Option::None => r matches Result::Err(AuthError::Missing(_)),
                    Option::Some(p) => if p == expected@ {
                        r is Ok
                    } else {
                        r matches Result::Err(AuthError::Invalid(_))
                    },
                },
            }
        }),
{
    let expected = match secret {
        Option::Some(k) => k,
        Option::None => {
            return Result::Err(
                AuthError::Configuration(String::from_str("no secret configured")),
            );
        },
    };
    let header_name: String = match &config.header {
        Option::Some(h) => to_lowercase(h.as_str()),
        Option::None => String::from_str("x-api-key"),
    };
    let provided = match lookup_header(headers, header_name.as_str()) {
        Option::Some(v) => v,
        Option::None => {
            return Result::Err(AuthError::Missing(String::from_str("missing key header")));
        },
    };
    if str_eq(provided.as_str(), expected.as_str()) {
        Result::Ok(())
    } else {
        Result::Err(AuthError::Invalid(String::from_str("wrong key")))
    }
}

/// The first header with the given name, if any.
pub fn lookup_header<'a>(headers: &'a Vec<(String, String)>, name: &str) -> (r: Option<&'a String>)
    ensures
        match r {
            Option::Some(v) => attrs_lookup(crate::bus::attrs_model(headers@), name@)
                == Option::Some(v@),
            Option::None => attrs_lookup(crate::bus::attrs_model(headers@), name@) is None,
        },
{
    let n = headers.len();
    let ghost m = crate::bus::attrs_model(headers@);
    proof {
        assert(m.skip(0) =~= m);
    }
    for i in 0..n
        invariant
            n == headers.len(),
            m == crate::bus::attrs_model(headers@),
            m.len() == n,
            attrs_lookup(m, name@) == attrs_lookup(m.skip(i as int), name@),
    {
        proof {
            assert(m.skip(i as int).drop_first() =~= m.skip(i + 1));
            assert(m.skip(i as int)[0] == m[i as int]);
        }
        if str_eq(headers[i].0.as_str(), name) {
            return Option::Some(&headers[i].1);
        }
    }
    Option::None
}

/// How a bearer-token check can end before the token itself is examined.
pub open spec fn bearer_shape(headers: Seq<(Seq<char>, Seq<char>)>) -> Option<Seq<char>> {
    match attrs_lookup(headers, "authorization"@) {
        Option::None => Option::None,
        Option::Some(h) => if h.len() >= 7 && h.take(7) == "Bearer "@ {
            Option::Some(h.skip(7))
        } else {
            Option::None
        },
    }
}

/// Check a bearer token: the authorization header must carry a bearer
/// credential, the platform must hold a secret, and the token must verify
/// against it.  Every failure before the verification itself is pinned;
/// the verification's outcome belongs to the token library.
pub fn verify_jwt(headers: &Vec<(String, String)>, secret: Option<&String>) -> (r: Result<
    (),
    AuthError,
>)
    ensures
        ({
            let hs = crate::bus::attrs_model(headers@);
            match attrs_lookup(hs, "authorization"@) {
                Option::None => r matches Result::Err(AuthError::Missing(_)),
                Option::Some(h) => {
                    if !(h.len() >= 7 && h.take(7) == "Bearer "@) {
                        r matches Result::Err(AuthError::Invalid(_))
                    } else {
                        match secret {
                            Option::None => r matches Result::Err(AuthError::Configuration(_)),
                            Option::Some(_) => r is Ok || r matches Result::Err(
                                AuthError::Invalid(_),
                            ),
                        }
                    }
                },
            }
        }),
{
    let auth_header = match lookup_header(headers, "authorization") {
        Option::Some(v) => v,
        Option::None => {
            return Result::Err(
                AuthError::Missing(String::from_str("missing authorization header")),
            );
        },
    };
    let len = auth_header.as_str().unicode_len();
    if len < 7 {
        return Result::Err(AuthError::Invalid(String::from_str("not a bearer credential")));
    }
    let prefix = auth_header.as_str().substring_char(0, 7);
    if !str_eq(prefix, "Bearer ") {
        return Result::Err(AuthError::Invalid(String::from_str("not a bearer credential")));
    }
    let token = auth_header.as_str().substring_char(7, len);
    let key = match secret {
        Option::Some(k) => k,
        Option::None => {
            return Result::Err(
                AuthError::Configuration(String::from_str("no secret configured")),
            );
        },
    };
    if jwt_decode_ok(token, key.as_str().as_bytes()) {
        Result::Ok(())
    } else {
        Result::Err(AuthError::Invalid(String::from_str("token rejected")))
    }
}

/// Dispatch the configured authentication mode.  No authentication always
/// passes; signature verification is not enforced, as it needs the body
/// buffered, and passes; the other modes check as their functions say.
pub fn verify_auth(
    config: &AuthConfig,
    headers: &Vec<(String, String)>,
    secret: Option<&String>,
) -> (r: Result<(), AuthError>)
    ensures
        config.auth_type == AuthType::NoAuth ==> r is Ok,
        config.auth_type == AuthType::Hmac ==> r is Ok,
        config.auth_type == AuthType::ApiKey ==> ({
            let provided = attrs_lookup(crate::bus::attrs_model(headers@), api_key_header(config));
            match secret {
                Option::None => r matches Result::Err(AuthError::Configuration(_)),
                Option::Some(expected) => match provided {
                    Option::None => r matches Result::Err(AuthError::Missing(_)),
                    Option::Some(p) => if p == expected@ {
                        r is Ok
                    } else {
                        r matches Result::Err(AuthError::Invalid(_))
                    },
                },
            }
        }),
        config.auth_type == AuthType::Jwt ==> ({
            let hs = crate::bus::attrs_model(headers@);
            match attrs_lookup(hs, "authorization"@) {
                Option::None => r matches Result::Err(AuthError::Missing(_)),
                Option::Some(h) => {
                    if !(h.len() >= 7 && h.take(7) == "Bearer "@) {
                        r matches Result::Err(AuthError::Invalid(_))
                    } else {
                        match secret {
                            Option::None => r matches Result::Err(AuthError::Configuration(_)),
                            Option::Some(_) => r is Ok || r matches Result::Err(
                                AuthError::Invalid(_),
                            ),
                        }
                    }
                },
            }
        }),
{
    match config.auth_type {
        AuthType::NoAuth => Result::Ok(()),
        AuthType::ApiKey => verify_api_key(config, headers, secret),
        AuthType::Hmac => Result::Ok(()),
        AuthType::Jwt => verify_jwt(headers, secret),
    }
}

} // verus!
