//! The reporter sink's configuration and the pure part of its periodic
//! check: building the check payload and the intake paths.

use vstd::prelude::*;

verus! {

/// The intake region a configuration can pick.
#[derive(Clone, Copy, Debug, PartialEq, Eq)]
pub enum Region {
    Us,
    Eu,
}

/// A check's health, reported to the intake as a small number.
#[derive(Clone, Copy, Debug, PartialEq, Eq)]
pub enum CheckStatus {
    Passing,
    Warning,
    Critical,
    Unknown,
}

impl CheckStatus {
    /// The code the intake's wire format gives each status: passing is 0,
    /// warning 1, critical 2, unknown 3.
    pub fn code(&self) -> (r: u8)
        ensures
            self is Passing ==> r == 0,
            self is Warning ==> r == 1,
            self is Critical ==> r == 2,
            self is Unknown ==> r == 3,
    {
        match self {
            CheckStatus::Passing => 0,
            CheckStatus::Warning => 1,
            CheckStatus::Critical => 2,
            CheckStatus::Unknown => 3,
        }
    }
}

/// One check-run payload.
#[derive(Debug, PartialEq, Eq)]
pub struct DatadogCheck {
    pub check: String,
    pub hostname: String,
    pub message: String,
    pub status: CheckStatus,
    pub timestamp: Option<i64>,
    pub tags: Option<Vec<String>>,
}

/// The intake's connection settings, held as plain values.
#[derive(Debug, PartialEq, Eq)]
pub struct DatadogConfig {
    pub api_key: String,
    pub endpoint: Option<String>,
    pub region: Option<Region>,
}

/// The endpoint a configuration reports to: an explicit endpoint wins,
/// else the region's intake, with the US intake as the default.
pub open spec fn api_endpoint_spec(
    endpoint: Option<Seq<char>>,
    region: Option<Region>,
) -> Seq<char> {
    match endpoint {
        Some(e) => e,
        None => if region == Some(Region::Eu) {
            "https://api.datadoghq.eu"@
        } else {
            "https://api.datadoghq.com"@
        },
    }
}

impl DatadogConfig {
    pub fn get_api_endpoint(&self) -> (r: String)
        ensures
            r@ == api_endpoint_spec(
                match self.endpoint {
                    Some(e) => Some(e@),
                    None => None,
                },
                self.region,
            ),
    {
        match &self.endpoint {
            Some(e) => e.clone(),
            None => match self.region {
                Some(Region::Eu) => "https://api.datadoghq.eu".to_owned(),
                _ => "https://api.datadoghq.com".to_owned(),
            },
        }
    }
}

/// The reporter: the intake configuration plus a periodic liveness
/// check.
#[derive(Debug, PartialEq, Eq)]
pub struct DatadogReporterConfig {
    pub datadog_config: DatadogConfig,
}

impl DatadogReporterConfig {
    pub fn sink_type(&self) -> (r: &'static str)
        ensures
            r@ == "datadog_reporter"@,
    {
        "datadog_reporter"
    }

    pub fn input_type(&self) -> (r: crate::vector_sink::DataType)
        ensures
            r == crate::vector_sink::DataType::Metric,
    {
        crate::vector_sink::DataType::Metric
    }
}

/// What the intake can answer wrongly.
#[derive(Debug, PartialEq, Eq)]
pub enum DatadogApiError {
    UnexpectedStatus(u16),
}

/// Judge the intake's answer to a request: a 200 passes, any other
/// status is unexpected and carried in the error.
pub fn judge_response(status: u16) -> (r: Result<(), DatadogApiError>)
    ensures
        r is Ok <==> status == 200,
        r matches Err(e) ==> e == DatadogApiError::UnexpectedStatus(status),
{
    if status == 200 {
        Ok(())
    } else {
        Err(DatadogApiError::UnexpectedStatus(status))
    }
}

/// The path of the key-validation endpoint under a base endpoint.
pub fn validate_uri(endpoint: &str) -> (r: String)
    ensures
        r@ == endpoint@ + "/api/v1/validate"@,
{
    let mut s = endpoint.to_owned();
    s.append("/api/v1/validate");
    s
}

/// The path of the check-run endpoint under a base endpoint.
pub fn check_run_uri(endpoint: &str) -> (r: String)
    ensures
        r@ == endpoint@ + "/api/v1/check_run"@,
{
    let mut s = endpoint.to_owned();
    s.append("/api/v1/check_run");
    s
}

/// How many seconds pass between two periodic checks.
pub fn check_interval_secs() -> (r: u64)
    ensures
        r == 60,
{
    60
}

/// The payload each periodic check sends: the liveness check, with no
/// timestamp and no tags.
pub fn make_periodic_check() -> (r: DatadogCheck)
    ensures
        r.check@ == "vector.up"@,
        r.hostname@ == "prognant-dev-laptop"@,
        r.message@ == "vector running"@,
        r.status == CheckStatus::Passing,
        r.timestamp is None,
        r.tags is None,
{
    DatadogCheck {
        check: "vector.up".to_owned(),
        hostname: "prognant-dev-laptop".to_owned(),
        message: "vector running".to_owned(),
        status: CheckStatus::Passing,
        timestamp: None,
        tags: None,
    }
}

} // verus!
