//! The webhook intake's decision core: which request is refused with
//! which status, and which is accepted for publishing.  The HTTP server
//! around it performs the I/O and consults the clock-driven rate limiter.

use vstd::prelude::*;

use crate::bus::{attrs_lookup, attrs_model};
use crate::webhook::auth::{verify_auth, AuthError};
use crate::webhook::config::{EndpointConfig, WebhookSourceConfig};

verus! {

/// A refused request, by cause; each cause has its HTTP status.
#[derive(Debug)]
pub enum AppError {
    NotFound(String),
    BadRequest(String),
    Unauthorized(String),
    PayloadTooLarge(String),
    TooManyRequests(String),
    Internal(String),
    ServiceUnavailable(String),
}

impl AppError {
    /// The HTTP status this refusal answers with.
    pub fn status_code(&self) -> (r: u16)
        ensures
            r == match self {
                AppError::NotFound(_) => 404u16,
                AppError::BadRequest(_) => 400u16,
                AppError::Unauthorized(_) => 401u16,
                AppError::PayloadTooLarge(_) => 413u16,
                AppError::TooManyRequests(_) => 429u16,
                AppError::Internal(_) => 500u16,
                AppError::ServiceUnavailable(_) => 503u16,
            },
    {
        match self {
            AppError::NotFound(_) => 404,
            AppError::BadRequest(_) => 400,
            AppError::Unauthorized(_) => 401,
            AppError::PayloadTooLarge(_) => 413,
            AppError::TooManyRequests(_) => 429,
            AppError::Internal(_) => 500,
            AppError::ServiceUnavailable(_) => 503,
        }
    }
}

/// The characters before the first comma.
pub open spec fn before_comma(s: Seq<char>) -> Seq<char>
    decreases s.len(),
{
    if s.len() == 0 {
        s
    } else if s[0] == ',' {
        Seq::empty()
    } else {
        seq![s[0]] + before_comma(s.drop_first())
    }
}

/// The string with leading and trailing blanks removed.
pub open spec fn trimmed(s: Seq<char>) -> Seq<char> {
    let led = s.skip(count_leading_blanks(s));
    led.take(led.len() - count_trailing_blanks(led))
}

/// A space or tab.
pub open spec fn is_blank(c: char) -> bool {
    c == ' ' || c == '\t'
}

/// How many blanks lead the string.
pub open spec fn count_leading_blanks(s: Seq<char>) -> int
    decreases s.len(),
{
    if s.len() == 0 {
        0
    } else if is_blank(s[0]) {
        1 + count_leading_blanks(s.drop_first())
    } else {
        0
    }
}

/// How many blanks trail the string.
pub open spec fn count_trailing_blanks(s: Seq<char>) -> int
    decreases s.len(),
{
    if s.len() == 0 {
        0
    } else if is_blank(s.last()) {
        1 + count_trailing_blanks(s.drop_last())
    } else {
        0
    }
}

/// Leading blanks never exceed the length.
proof fn lemma_leading_bound(s: Seq<char>)
    ensures
        0 <= count_leading_blanks(s) <= s.len(),
    decreases s.len(),
{
    if s.len() > 0 && is_blank(s[0]) {
        lemma_leading_bound(s.drop_first());
    }
}

/// Trailing blanks never exceed the length.
proof fn lemma_trailing_bound(s: Seq<char>)
    ensures
        0 <= count_trailing_blanks(s) <= s.len(),
    decreases s.len(),
{
    if s.len() > 0 && is_blank(s.last()) {
        lemma_trailing_bound(s.drop_last());
    }
}

/// Take the characters of a string before its first comma.
#[verifier::loop_isolation(false)]
fn take_before_comma(s: &str) -> (r: String)
    ensures
        r@ == before_comma(s@),
{
    let len = s.unicode_len();
    let mut out = String::new();
    proof {
        assert(s@.skip(0) =~= s@);
        assert(out@ + before_comma(s@.skip(0)) =~= before_comma(s@));
    }
    for i in 0..len
        invariant
            before_comma(s@) == out@ + before_comma(s@.skip(i as int)),
    {
        proof {
            assert(s@.skip(i as int)[0] == s@[i as int]);
            assert(s@.skip(i as int).drop_first() =~= s@.skip(i + 1));
        }
        let c = s.get_char(i);
        if c == ',' {
            proof {
                assert(out@ + Seq::<char>::empty() =~= out@);
            }
            return out;
        }
        let one = String::from_str(s.substring_char(i, i + 1));
        proof {
            assert(one@ =~= seq![s@[i as int]]);
            assert((out@ + seq![s@[i as int]]) + before_comma(s@.skip(i + 1)) =~= out@ + (seq![
                s@[i as int],
            ] + before_comma(s@.skip(i + 1))));
        }
        out.append(one.as_str());
    }
    proof {
        assert(s@.skip(len as int) =~= Seq::<char>::empty());
        assert(out@ + Seq::<char>::empty() =~= out@);
    }
    out
}

/// Strip leading and trailing blanks from a string.
#[verifier::loop_isolation(false)]
fn trim_blanks(s: &str) -> (r: String)
    ensures
        r@ == trimmed(s@),
{
    let len = s.unicode_len();
    let mut start: usize = 0;
    proof {
        lemma_leading_bound(s@);
        assert(s@.skip(0) =~= s@);
    }
    while start < len
        invariant
            0 <= start <= len,
            count_leading_blanks(s@) == start + count_leading_blanks(s@.skip(start as int)),
        decreases len - start,
    {
        proof {
            assert(s@.skip(start as int)[0] == s@[start as int]);
            assert(s@.skip(start as int).drop_first() =~= s@.skip(start + 1));
        }
        let c = s.get_char(start);
        if c != ' ' && c != '\t' {
            break ;
        }
        start = start + 1;
    }
    proof {
        if start == len {
            assert(s@.skip(len as int) =~= Seq::<char>::empty());
        }
        assert(count_leading_blanks(s@) == start);
    }
    let ghost led = s@.skip(start as int);
    let mut stop: usize = len;
    proof {
        lemma_trailing_bound(led);
        assert(led.take(led.len() as int) =~= led);
    }
    while stop > start
        invariant
            start <= stop <= len,
            count_trailing_blanks(led) == (len - stop) + count_trailing_blanks(
                led.take(stop - start),
            ),
        decreases stop,
    {
        proof {
            assert(led.take(stop - start).last() == s@[stop - 1]);
            assert(led.take(stop - start).drop_last() =~= led.take(stop - 1 - start));
        }
        let c = s.get_char(stop - 1);
        if c != ' ' && c != '\t' {
            break ;
        }
        stop = stop - 1;
    }
    proof {
        if stop == start {
            assert(led.take(0) =~= Seq::<char>::empty());
        }
        assert(count_trailing_blanks(led) == len - stop);
        assert(led.take(led.len() - count_trailing_blanks(led)) =~= s@.subrange(
            start as int,
            stop as int,
        ));
    }
    String::from_str(s.substring_char(start, stop))
}

/// The client address a request claims: the first entry of the forwarding
/// header, trimmed, else the real-IP header as given.
pub open spec fn client_ip_model(headers: Seq<(Seq<char>, Seq<char>)>) -> Option<Seq<char>> {
    match attrs_lookup(headers, "x-forwarded-for"@) {
        Option::Some(v) => Option::Some(trimmed(before_comma(v))),
        Option::None => attrs_lookup(headers, "x-real-ip"@),
    }
}

/// Extract the client address from the request headers, when one of the
/// forwarding headers carries it.  Headers are given with lowercase
/// names.
pub fn extract_client_ip(headers: &Vec<(String, String)>) -> (r: Option<String>)
    ensures
        match r {
            Option::Some(ip) => client_ip_model(attrs_model(headers@)) == Option::Some(ip@),
            Option::None => client_ip_model(attrs_model(headers@)) is None,
        },
{
    match crate::webhook::auth::lookup_header(headers, "x-forwarded-for") {
        Option::Some(v) => {
            let first = take_before_comma(v.as_str());
            Option::Some(trim_blanks(first.as_str()))
        },
        Option::None => match crate::webhook::auth::lookup_header(headers, "x-real-ip") {
            Option::Some(v) => Option::Some(v.clone()),
            Option::None => Option::None,
        },
    }
}

/// The first endpoint with this path, if any.
pub open spec fn endpoint_index_spec(es: Seq<EndpointConfig>, path: Seq<char>) -> Option<int>
    decreases es.len(),
{
    if es.len() == 0 {
        Option::None
    } else if es[0].path@ == path {
        Option::Some(0int)
    } else {
        match endpoint_index_spec(es.drop_first(), path) {
            Option::Some(i) => Option::Some(i + 1),
            Option::None => Option::None,
        }
    }
}

/// A found index is in range and matches; everything before it does not.
pub proof fn lemma_endpoint_index_spec(es: Seq<EndpointConfig>, path: Seq<char>)
    ensures
        match endpoint_index_spec(es, path) {
            Option::Some(i) => 0 <= i < es.len() && es[i].path@ == path && (forall|j: int|
                0 <= j < i ==> es[j].path@ != path),
            Option::None => forall|j: int| 0 <= j < es.len() ==> es[j].path@ != path,
        },
    decreases es.len(),
{
    if es.len() > 0 {
        lemma_endpoint_index_spec(es.drop_first(), path);
        let tail = es.drop_first();
        assert(forall|j: int| 0 <= j < tail.len() ==> #[trigger] tail[j] == es[j + 1]);
        if es[0].path@ != path {
            match endpoint_index_spec(tail, path) {
                Option::Some(i) => {
                    assert(tail[i] == es[i + 1]);
                    assert forall|j: int| 0 <= j < i + 1 implies es[j].path@ != path by {
                        if j > 0 {
                            assert(tail[j - 1] == es[j]);
                        }
                    }
                },
                Option::None => {
                    assert forall|j: int| 0 <= j < es.len() implies es[j].path@ != path by {
                        if j > 0 {
                            assert(tail[j - 1] == es[j]);
                        }
                    }
                },
            }
        }
    }
}

/// Decide a webhook request: authentication first, then the rate
/// limiter's verdict, then the endpoint lookup, then the body-size cap.
/// An accepted request names its endpoint; an oversize body is refused
/// outright, never truncated.  The rate limiter's verdict is computed by
/// the server from its clock-driven buckets and handed in.
#[verifier::loop_isolation(false)]
pub fn webhook_request_outcome(
    config: &WebhookSourceConfig,
    path: &str,
    headers: &Vec<(String, String)>,
    secret: Option<&String>,
    rate_allowed: bool,
    body_len: usize,
) -> (r: Result<usize, AppError>)
    ensures
        ({
            let auth_passes = match verify_auth_outcome_shape(config, headers@, secret) {
                Option::Some(b) => b,
                Option::None => arbitrary(),
            };
            match r {
                Result::Ok(i) => rate_allowed && endpoint_index_spec(config.endpoints@, path@)
                    == Option::Some(i as int) && body_len <= config.server.max_body_size,
                Result::Err(e) => match e {
                    AppError::Unauthorized(_) | AppError::Internal(_) => true,
                    AppError::TooManyRequests(_) => !rate_allowed,
                    AppError::NotFound(_) => endpoint_index_spec(
                        config.endpoints@,
                        path@,
                    ) is None,
                    AppError::PayloadTooLarge(_) => body_len > config.server.max_body_size
                        && endpoint_index_spec(config.endpoints@, path@) is Some,
                    _ => false,
                },
            }
        }),
        ({
            let pinned = verify_auth_outcome_shape(config, headers@, secret);
            pinned == Option::Some(false) ==> (r matches Result::Err(
                AppError::Unauthorized(_),
            ) || r matches Result::Err(AppError::Internal(_)))
        }),
        verify_auth_outcome_shape(config, headers@, secret) == Option::Some(true) ==> !(
        r matches Result::Err(AppError::Unauthorized(_)) || r matches Result::Err(
            AppError::Internal(_),
        )),
{
    match verify_auth(&config.auth, headers, secret) {
        Result::Ok(()) => {},
        Result::Err(e) => {
            return Result::Err(
                match e {
                    AuthError::Configuration(m) => AppError::Internal(m),
                    AuthError::Missing(m) => AppError::Unauthorized(m),
                    AuthError::Invalid(m) => AppError::Unauthorized(m),
                },
            );
        },
    }
    if !rate_allowed {
        return Result::Err(AppError::TooManyRequests(String::from_str("rate limit exceeded")));
    }
    let ghost es = config.endpoints@;
    let n = config.endpoints.len();
    let mut found: Option<usize> = Option::None;
    for i in 0..n
        invariant
            match found {
                Option::Some(k) => k < i && endpoint_index_spec(es, path@) == Option::Some(
                    k as int,
                ),
                Option::None => forall|j: int| 0 <= j < i ==> es[j].path@ != path@,
            },
    {
        if found.is_none() && crate::text::str_eq(config.endpoints[i].path.as_str(), path) {
            proof {
                lemma_endpoint_index_spec(es, path@);
                match endpoint_index_spec(es, path@) {
                    Option::Some(k) => {
                        assert(!(k < i as int));
                        assert(!(k > i as int));
                    },
                    Option::None => {
                        assert(false);
                    },
                }
            }
            found = Option::Some(i);
        }
    }
    let index = match found {
        Option::Some(i) => i,
        Option::None => {
            proof {
                lemma_endpoint_index_spec(es, path@);
            }
            return Result::Err(AppError::NotFound(String::from_str("endpoint not found")));
        },
    };
    if body_len > config.server.max_body_size {
        return Result::Err(AppError::PayloadTooLarge(String::from_str("body exceeds the cap")));
    }
    Result::Ok(index)
}

/// What the authentication check is bound to answer, where its contract
/// pins it: `Some(true)` when it must pass, `Some(false)` when it must
/// fail, `None` where the token library decides.
pub open spec fn verify_auth_outcome_shape(
    config: &WebhookSourceConfig,
    headers: Seq<(String, String)>,
    secret: Option<&String>,
) -> Option<bool> {
    let hs = attrs_model(headers);
    match config.auth.auth_type {
        crate::webhook::config::AuthType::NoAuth => Option::Some(true),
        crate::webhook::config::AuthType::Hmac => Option::Some(true),
        crate::webhook::config::AuthType::ApiKey => Option::Some(
            match secret {
                Option::None => false,
                Option::Some(expected) => match attrs_lookup(
                    hs,
                    crate::webhook::auth::api_key_header(&config.auth),
                ) {
                    Option::None => false,
                    Option::Some(p) => p == expected@,
                },
            },
        ),
        crate::webhook::config::AuthType::Jwt => match attrs_lookup(hs, "authorization"@) {
            Option::None => Option::Some(false),
            Option::Some(h) => {
                if !(h.len() >= 7 && h.take(7) == "Bearer "@) {
                    Option::Some(false)
                } else {
                    match secret {
                        Option::None => Option::Some(false),
                        Option::Some(_) => Option::None,
                    }
                }
            },
        },
    }
}

} // verus!
