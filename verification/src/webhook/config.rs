//! Configuration of the webhook source: server settings, platform
//! authentication, rate limits, and endpoint definitions, with validation.

use vstd::prelude::*;

use crate::bus::{ConnectorError, ErrorKind};

verus! {

/// The whole source configuration.
#[derive(Debug)]
pub struct WebhookSourceConfig {
    pub core: CoreConfig,
    pub server: ServerConfig,
    /// Platform-wide authentication, applied to every endpoint.
    pub auth: AuthConfig,
    /// Optional platform-wide rate limiting.
    pub rate_limit: Option<RateLimitConfig>,
    pub endpoints: Vec<EndpointConfig>,
}

/// Core bus-connection settings.
#[derive(Debug)]
pub struct CoreConfig {
    pub danube_service_url: String,
    pub connector_name: String,
    pub metrics_port: u16,
}

/// HTTP server settings.
#[derive(Debug)]
pub struct ServerConfig {
    pub host: String,
    pub port: u16,
    pub tls_cert_path: Option<String>,
    pub tls_key_path: Option<String>,
    pub timeout_seconds: u64,
    /// Bodies larger than this are refused.
    pub max_body_size: usize,
}

/// Platform-wide authentication settings.
#[derive(Debug)]
pub struct AuthConfig {
    pub auth_type: AuthType,
    /// Environment variable holding the secret.
    pub secret_env: Option<String>,
    /// Header carrying the credential.
    pub header: Option<String>,
    /// Digest algorithm for signature verification.
    pub algorithm: Option<String>,
    /// Public key path for token verification.
    pub public_key_path: Option<String>,
}

/// The authentication mode.
#[derive(Clone, Copy, Debug, PartialEq, Eq, Structural)]
pub enum AuthType {
    /// No authentication.
    NoAuth,
    /// A static key in a configured header.
    ApiKey,
    /// A body signature in a configured header.
    Hmac,
    /// A bearer token verified against a symmetric secret.
    Jwt,
}

/// Token-bucket rate limiting settings.
#[derive(Debug)]
pub struct RateLimitConfig {
    pub requests_per_second: u32,
    pub burst_size: u32,
    pub per_ip_enabled: bool,
    pub per_ip_requests_per_second: Option<u32>,
}

/// One webhook endpoint.
#[derive(Debug)]
pub struct EndpointConfig {
    /// HTTP path of the endpoint; must begin with a slash.
    pub path: String,
    pub danube_topic: String,
    /// Partition count; zero means non-partitioned.
    pub partitions: u32,
    pub reliable_dispatch: bool,
    /// Per-endpoint rate limiting, overriding the platform-wide setting.
    pub rate_limit: Option<RateLimitConfig>,
}

pub fn default_metrics_port() -> (r: u16)
    ensures
        r == 9090,
{
    9090
}

pub fn default_host() -> (r: String)
    ensures
        r@ == "0.0.0.0"@,
{
    String::from_str("0.0.0.0")
}

pub fn default_port() -> (r: u16)
    ensures
        r == 8080,
{
    8080
}

pub fn default_timeout() -> (r: u64)
    ensures
        r == 30,
{
    30
}

pub fn default_max_body_size() -> (r: usize)
    ensures
        r == 1024 * 1024,
{
    1024 * 1024
}

/// A well-formed endpoint: a slash-led path and a topic.
pub open spec fn endpoint_valid(e: &EndpointConfig) -> bool {
    e.path@.len() > 0 && e.path@[0] == '/' && e.danube_topic@.len() > 0
}

/// Well-formed authentication settings: each mode's required fields are
/// present.
pub open spec fn auth_valid(a: &AuthConfig) -> bool {
    match a.auth_type {
        AuthType::NoAuth => true,
        AuthType::ApiKey => a.secret_env is Some && a.header is Some,
        AuthType::Hmac => a.secret_env is Some && a.header is Some && a.algorithm is Some,
        AuthType::Jwt => a.secret_env is Some || a.public_key_path is Some,
    }
}

/// A well-formed configuration: connection names present, at least one
/// endpoint, every endpoint well-formed, paths distinct, authentication
/// complete.
pub open spec fn config_valid(c: &WebhookSourceConfig) -> bool {
    &&& c.core.danube_service_url@.len() > 0
    &&& c.core.connector_name@.len() > 0
    &&& c.endpoints@.len() > 0
    &&& forall|i: int|
        0 <= i < c.endpoints@.len() ==> endpoint_valid(#[trigger] &c.endpoints@[i])
    &&& forall|i: int, j: int|
        0 <= i < j < c.endpoints@.len() ==> (#[trigger] c.endpoints@[i].path@) != (
        #[trigger] c.endpoints@[j].path@)
    &&& auth_valid(&c.auth)
}

impl WebhookSourceConfig {
    /// Validate the authentication settings alone.
    pub fn validate_auth(&self) -> (r: Result<(), ConnectorError>)
        ensures
            r is Ok <==> auth_valid(&self.auth),
            r matches Result::Err(e) ==> e.kind == ErrorKind::Config,
    {
        match self.auth.auth_type {
            AuthType::NoAuth => Result::Ok(()),
            AuthType::ApiKey => {
                if self.auth.secret_env.is_none() {
                    return Result::Err(
                        ConnectorError::config(String::from_str("key auth needs a secret")),
                    );
                }
                if self.auth.header.is_none() {
                    return Result::Err(
                        ConnectorError::config(String::from_str("key auth needs a header")),
                    );
                }
                Result::Ok(())
            },
            AuthType::Hmac => {
                if self.auth.secret_env.is_none() {
                    return Result::Err(
                        ConnectorError::config(String::from_str("signature auth needs a secret")),
                    );
                }
                if self.auth.header.is_none() {
                    return Result::Err(
                        ConnectorError::config(String::from_str("signature auth needs a header")),
                    );
                }
                if self.auth.algorithm.is_none() {
                    return Result::Err(
                        ConnectorError::config(
                            String::from_str("signature auth needs an algorithm"),
                        ),
                    );
                }
                Result::Ok(())
            },
            AuthType::Jwt => {
                if self.auth.secret_env.is_none() && self.auth.public_key_path.is_none() {
                    return Result::Err(
                        ConnectorError::config(
                            String::from_str("token auth needs a secret or a public key"),
                        ),
                    );
                }
                Result::Ok(())
            },
        }
    }

    /// Validate the configuration: accepted exactly when it is well
    /// formed.
    #[verifier::loop_isolation(false)]
    pub fn validate(&self) -> (r: Result<(), ConnectorError>)
        ensures
            r is Ok <==> config_valid(self),
            r matches Result::Err(e) ==> e.kind == ErrorKind::Config,
    {
        if self.core.danube_service_url.as_str().unicode_len() == 0 {
            return Result::Err(ConnectorError::config(String::from_str("empty service url")));
        }
        if self.core.connector_name.as_str().unicode_len() == 0 {
            return Result::Err(ConnectorError::config(String::from_str("empty connector name")));
        }
        let n = self.endpoints.len();
        if n == 0 {
            return Result::Err(ConnectorError::config(String::from_str("no endpoints")));
        }
        for i in 0..n
            invariant
                forall|k: int| 0 <= k < i ==> endpoint_valid(#[trigger] &self.endpoints@[k]),
                forall|k: int, j: int|
                    0 <= k < j <= i - 1 ==> (#[trigger] self.endpoints@[k].path@) != (
                    #[trigger] self.endpoints@[j].path@),
        {
            let e = &self.endpoints[i];
            if e.path.as_str().unicode_len() == 0 {
                return Result::Err(ConnectorError::config(String::from_str("empty path")));
            }
            if e.path.as_str().get_char(0) != '/' {
                return Result::Err(
                    ConnectorError::config(String::from_str("path must start with a slash")),
                );
            }
            if e.danube_topic.as_str().unicode_len() == 0 {
                return Result::Err(ConnectorError::config(String::from_str("empty topic")));
            }
            for j in 0..i
                invariant
                    forall|k: int|
                        0 <= k < j ==> (#[trigger] self.endpoints@[k].path@)
                            != self.endpoints@[i as int].path@,
            {
                if crate::text::str_eq(self.endpoints[j].path.as_str(), e.path.as_str()) {
                    return Result::Err(
                        ConnectorError::config(String::from_str("duplicate endpoint path")),
                    );
                }
            }
        }
        self.validate_auth()
    }

    /// The server's bind address: host, a colon, and the port in decimal.
    pub fn bind_address(&self) -> (r: String)
        ensures
            r@ == self.server.host@ + ":"@ + crate::text::dec_digits(self.server.port as nat),
    {
        self.server.host.clone().concat(":").concat(
            crate::text::u64_to_dec(self.server.port as u64).as_str(),
        )
    }
}

} // verus!
