//! The gRPC sink's configuration and its pure decisions: defaulting the
//! address's scheme, classifying retriable errors, and judging a health
//! check response.

use vstd::prelude::*;

use crate::uri::{parse_uri_parts, uri_parts_of, UriParts, UriPartsView};
use crate::websocket::TlsConfig;

verus! {

/// What kind of events a sink consumes.
#[derive(Clone, Copy, Debug, PartialEq, Eq)]
pub enum DataType {
    Log,
    Metric,
    Any,
}

/// Batch limits, each left to a default when absent.
#[derive(Debug, PartialEq, Eq)]
pub struct BatchConfig {
    pub max_bytes: Option<usize>,
    pub max_events: Option<usize>,
    pub timeout_secs: Option<u64>,
}

impl Default for BatchConfig {
    fn default() -> (r: BatchConfig)
        ensures
            r.max_bytes is None,
            r.max_events is None,
            r.timeout_secs is None,
    {
        BatchConfig { max_bytes: None, max_events: None, timeout_secs: None }
    }
}

/// Request limits, each left to a default when absent.
#[derive(Debug, PartialEq, Eq)]
pub struct TowerRequestConfig {
    pub concurrency: Option<usize>,
    pub timeout_secs: Option<u64>,
    pub retry_attempts: Option<usize>,
}

impl Default for TowerRequestConfig {
    fn default() -> (r: TowerRequestConfig)
        ensures
            r.concurrency is None,
            r.timeout_secs is None,
            r.retry_attempts is None,
    {
        TowerRequestConfig { concurrency: None, timeout_secs: None, retry_attempts: None }
    }
}

/// A resource a sink claims, named so that two sinks cannot share one.
#[derive(Debug, PartialEq, Eq)]
pub enum Resource {
    Port(u16),
}

pub struct VectorConfig {
    pub address: String,
    pub batch: BatchConfig,
    pub request: TowerRequestConfig,
    pub tls: Option<TlsConfig>,
}

/// The configuration for an address, with everything else defaulted.
pub fn default_config(address: &str) -> (r: VectorConfig)
    ensures
        r.address@ == address@,
        r.batch == (BatchConfig { max_bytes: None, max_events: None, timeout_secs: None }),
        r.request == (TowerRequestConfig {
            concurrency: None,
            timeout_secs: None,
            retry_attempts: None,
        }),
        r.tls is None,
{
    VectorConfig {
        address: address.to_owned(),
        batch: Default::default(),
        request: Default::default(),
        tls: None,
    }
}

impl VectorConfig {
    /// The example configuration: a local address with defaults.
    pub fn generate_config() -> (r: VectorConfig)
        ensures
            r.address@ == "127.0.0.1:6000"@,
            r.tls is None,
    {
        default_config("127.0.0.1:6000")
    }

    pub fn input_type(&self) -> (r: DataType)
        ensures
            r == DataType::Any,
    {
        DataType::Any
    }

    pub fn sink_type(&self) -> (r: &'static str)
        ensures
            r@ == "vector"@,
    {
        "vector"
    }

    pub fn resources(&self) -> (r: Vec<Resource>)
        ensures
            r@.len() == 0,
    {
        Vec::new()
    }
}

/// An address parse failure.
#[derive(Debug, PartialEq, Eq)]
pub enum UriError {
    Invalid,
}

/// The address with its scheme defaulted: gRPC refuses an address
/// without one, so a missing scheme becomes `http`, with `/` as the path
/// when none was given; rebuilding with a scheme needs a host, so an
/// authority-less address fails there.
pub open spec fn default_http_spec(s: Seq<char>) -> Result<UriPartsView, UriError> {
    match uri_parts_of(s) {
        None => Err(UriError::Invalid),
        Some(p) => if p.scheme is None {
            if p.host is None {
                Err(UriError::Invalid)
            } else {
                Ok(
                    UriPartsView {
                        scheme: Some("http"@),
                        host: p.host,
                        port: p.port,
                        path_and_query: match p.path_and_query {
                            Some(q) => Some(q),
                            None => Some("/"@),
                        },
                    },
                )
            }
        } else {
            Ok(p)
        },
    }
}

/// Default the scheme of an address, exactly as `default_http_spec`
/// describes.
pub fn default_http(address: &str) -> (r: Result<UriParts, UriError>)
    ensures
        match r {
            Ok(p) => default_http_spec(address@) == Ok::<UriPartsView, UriError>(p@),
            Err(e) => default_http_spec(address@) == Err::<UriPartsView, UriError>(e),
        },
{
    let parts = match parse_uri_parts(address) {
        Some(p) => p,
        None => {
            return Err(UriError::Invalid);
        },
    };
    match &parts.scheme {
        Some(_s) => Ok(parts),
        None => {
            if matches!(&parts.host, None) {
                return Err(UriError::Invalid);
            }
            Ok(
                UriParts {
                    scheme: Some("http".to_owned()),
                    host: parts.host,
                    port: parts.port,
                    path_and_query: match parts.path_and_query {
                        Some(q) => Some(q),
                        None => Some("/".to_owned()),
                    },
                },
            )
        },
    }
}

/// A gRPC status code, held as a plain value.
#[derive(Clone, Copy, Debug, PartialEq, Eq)]
pub enum GrpcCode {
    Okay,
    Cancelled,
    Unknown,
    InvalidArgument,
    DeadlineExceeded,
    Unavailable,
    Internal,
}

/// What the sink reports when pushing events fails.
#[derive(Debug, PartialEq, Eq)]
pub enum Error {
    Request { code: GrpcCode },
    Health,
    NoHost,
}

/// Whether a failed request should be retried: every failure but a
/// request that came back with the unknown status code.
pub open spec fn is_retriable_spec(err: Error) -> bool {
    match err {
        Error::Request { code } => code != GrpcCode::Unknown,
        _ => true,
    }
}

pub struct VectorGrpcRetryLogic;

impl VectorGrpcRetryLogic {
    pub fn is_retriable_error(&self, err: &Error) -> (r: bool)
        ensures
            r == is_retriable_spec(*err),
    {
        match err {
            Error::Request { code } => match code {
                GrpcCode::Unknown => false,
                _ => true,
            },
            _ => true,
        }
    }
}

/// What the remote health check can answer.
#[derive(Clone, Copy, Debug, PartialEq, Eq)]
pub enum ServingStatus {
    Unknown,
    Serving,
    NotServing,
}

/// The outcome of a health check: checks that are switched off pass, a
/// reachable service must answer `Serving`, and anything else is
/// unhealthy.
pub open spec fn healthcheck_spec(enabled: bool, response: Option<ServingStatus>) -> Result<
    (),
    Error,
> {
    if !enabled {
        Ok(())
    } else if response == Some(ServingStatus::Serving) {
        Ok(())
    } else {
        Err(Error::Health)
    }
}

/// Judge a health check response, exactly as `healthcheck_spec`
/// describes; the transport that fetched the response stays outside.
pub fn healthcheck_decision(enabled: bool, response: Option<ServingStatus>) -> (r: Result<
    (),
    Error,
>)
    ensures
        match r {
            Ok(u) => healthcheck_spec(enabled, response) is Ok,
            Err(e) => healthcheck_spec(enabled, response) == Err::<(), Error>(e),
        },
{
    if !enabled {
        return Ok(());
    }
    match response {
        Some(st) => match st {
            ServingStatus::Serving => Ok(()),
            _ => Err(Error::Health),
        },
        None => Err(Error::Health),
    }
}

} // verus!
