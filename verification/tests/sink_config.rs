//! Tests of the sink and source configuration types and the pure parts
//! of their work.

use vector::datadog::{
    check_interval_secs, check_run_uri, judge_response, make_periodic_check, validate_uri,
    CheckStatus, DatadogApiError, DatadogConfig, Region,
};
use vector::log_event::LogEvent;
use vector::stream_state::TerminationHook;
use vector::tcp::{default_max_length, SocketListenAddr, TcpConfig};
use vector::value::TypedValue;
use vector::vector_sink::{
    default_config, healthcheck_decision, GrpcCode, ServingStatus, Error, VectorConfig,
    VectorGrpcRetryLogic,
};
use vector::websocket::{
    encode_event, Encoding, EncodingConfig, WebSocketSinkConfig, WsCreateError,
};

#[test]
fn v2_generate_config() {
    let config = VectorConfig::generate_config();
    assert_eq!(config.address, "127.0.0.1:6000");
    assert!(config.tls.is_none());
    assert!(config.batch.max_events.is_none());
    assert!(config.request.concurrency.is_none());
    let by_hand = default_config("127.0.0.1:6000");
    assert_eq!(by_hand.address, config.address);
}

#[test]
fn websocket_generate_config() {
    let config = WebSocketSinkConfig::generate_config();
    assert_eq!(config.uri, "ws://127.0.0.1:9000/endpoint");
    assert!(config.tls.is_none());
    assert_eq!(config.encoding.codec, Encoding::Json);
    assert!(config.build_connector().is_ok());
}

#[test]
fn encodes_raw_logs() {
    let event = LogEvent::from_text("foo");
    assert_eq!(
        "foo".to_owned(),
        encode_event(&event, &EncodingConfig { codec: Encoding::Text }).unwrap()
    );
}

#[test]
fn encodes_log_events() {
    let mut event = LogEvent::new_empty_log();
    event.insert("str", TypedValue::Bytes("bar".chars().collect()));
    event.insert("num", TypedValue::Integer(10));

    let encoded = encode_event(&event, &EncodingConfig { codec: Encoding::Json });
    let expected = r#"{"num":10,"str":"bar"}"#.to_owned();
    assert_eq!(expected, encoded.unwrap());
}

#[test]
fn text_codec_needs_the_message_field() {
    let mut event = LogEvent::new_empty_log();
    event.insert("other", TypedValue::Integer(1));
    assert!(encode_event(&event, &EncodingConfig { codec: Encoding::Text }).is_none());
}

#[test]
fn extract_host_and_port_defaults_by_scheme() {
    let plain = WebSocketSinkConfig::extract_host_and_port("ws://example.com").unwrap();
    assert_eq!(plain, ("example.com".to_owned(), 80));
    let tls = WebSocketSinkConfig::extract_host_and_port("wss://example.com").unwrap();
    assert_eq!(tls, ("example.com".to_owned(), 443));
    let explicit = WebSocketSinkConfig::extract_host_and_port("ws://example.com:9001").unwrap();
    assert_eq!(explicit.1, 9001);
    assert_eq!(
        WebSocketSinkConfig::extract_host_and_port("ftp://example.com"),
        Err(WsCreateError::UnsupportedScheme)
    );
    assert_eq!(
        WebSocketSinkConfig::extract_host_and_port("::not a uri::"),
        Err(WsCreateError::InvalidUri)
    );
}

#[test]
fn default_http_fills_scheme_and_path() {
    let parts = vector::vector_sink::default_http("127.0.0.1:6000").unwrap();
    assert_eq!(parts.scheme.unwrap(), "http");
    assert_eq!(parts.path_and_query.unwrap(), "/");
    let kept = vector::vector_sink::default_http("https://example.com/x").unwrap();
    assert_eq!(kept.scheme.unwrap(), "https");
    assert_eq!(kept.path_and_query.unwrap(), "/x");
    assert!(vector::vector_sink::default_http("/foo").is_err());
}

#[test]
fn grpc_retry_logic_spares_unknown() {
    let logic = VectorGrpcRetryLogic;
    assert!(!logic.is_retriable_error(&Error::Request { code: GrpcCode::Unknown }));
    assert!(logic.is_retriable_error(&Error::Request { code: GrpcCode::Unavailable }));
    assert!(logic.is_retriable_error(&Error::Health));
    assert!(logic.is_retriable_error(&Error::NoHost));
}

#[test]
fn healthcheck_decision_cases() {
    assert!(healthcheck_decision(false, None).is_ok());
    assert!(healthcheck_decision(true, Some(ServingStatus::Serving)).is_ok());
    assert_eq!(
        healthcheck_decision(true, Some(ServingStatus::NotServing)),
        Err(Error::Health)
    );
    assert_eq!(healthcheck_decision(true, None), Err(Error::Health));
}

#[test]
fn tcp_config_defaults() {
    let c = TcpConfig::from_address(SocketListenAddr::SocketAddr("127.0.0.1:1234".to_owned()));
    assert_eq!(c.max_length(), default_max_length());
    assert_eq!(c.max_length(), 102400);
    assert_eq!(c.shutdown_timeout_secs(), 30);
    assert!(c.keepalive().is_none());
    assert!(c.tls().is_none());
}

#[test]
fn tcp_config_setters() {
    let mut c = TcpConfig::from_address(SocketListenAddr::SocketAddr("0.0.0.0:9".to_owned()));
    c.set_max_length(19);
    assert_eq!(c.max_length(), 19);
    c.set_shutdown_timeout_secs(5);
    assert_eq!(c.shutdown_timeout_secs(), 5);
}

#[test]
fn tcp_source_copies_frames() {
    let source = vector::tcp::RawTcpSource {
        config: TcpConfig::from_address(SocketListenAddr::SystemdFd(0)),
    };
    let ev = source.build_event(&vec![1u8, 2, 3], "10.0.0.1:5").unwrap();
    assert_eq!(ev.frame, vec![1u8, 2, 3]);
    assert_eq!(ev.host.unwrap(), "10.0.0.1:5");
}

#[test]
fn datadog_endpoints() {
    let us = DatadogConfig { api_key: "k".to_owned(), endpoint: None, region: None };
    assert_eq!(us.get_api_endpoint(), "https://api.datadoghq.com");
    let eu = DatadogConfig { api_key: "k".to_owned(), endpoint: None, region: Some(Region::Eu) };
    assert_eq!(eu.get_api_endpoint(), "https://api.datadoghq.eu");
    let own = DatadogConfig {
        api_key: "k".to_owned(),
        endpoint: Some("http://localhost:8080".to_owned()),
        region: Some(Region::Eu),
    };
    assert_eq!(own.get_api_endpoint(), "http://localhost:8080");
    assert_eq!(validate_uri(&us.get_api_endpoint()), "https://api.datadoghq.com/api/v1/validate");
    assert_eq!(
        check_run_uri(&us.get_api_endpoint()),
        "https://api.datadoghq.com/api/v1/check_run"
    );
}

#[test]
fn datadog_response_judgment() {
    assert!(judge_response(200).is_ok());
    assert_eq!(judge_response(403), Err(DatadogApiError::UnexpectedStatus(403)));
    assert_eq!(judge_response(500), Err(DatadogApiError::UnexpectedStatus(500)));
}

#[test]
fn datadog_periodic_check_payload() {
    let check = make_periodic_check();
    assert_eq!(check.check, "vector.up");
    assert_eq!(check.message, "vector running");
    assert_eq!(check.status, CheckStatus::Passing);
    assert!(check.timestamp.is_none());
    assert!(check.tags.is_none());
    assert_eq!(check_interval_secs(), 60);
    assert_eq!(CheckStatus::Passing.code(), 0);
    assert_eq!(CheckStatus::Warning.code(), 1);
    assert_eq!(CheckStatus::Critical.code(), 2);
    assert_eq!(CheckStatus::Unknown.code(), 3);
}

#[test]
fn termination_hook_fires_exactly_once() {
    let mut hook = TerminationHook::new();
    assert!(hook.is_armed());
    assert!(!hook.on_poll(false));
    assert!(!hook.on_poll(false));
    assert!(hook.on_poll(true));
    assert!(!hook.on_poll(true));
    assert!(!hook.on_poll(true));
    assert!(!hook.is_armed());
}

#[test]
fn sink_types_are_named() {
    let ws = WebSocketSinkConfig::generate_config();
    assert_eq!(ws.sink_type(), "websocket");
    let v2 = VectorConfig::generate_config();
    assert_eq!(v2.sink_type(), "vector");
    assert_eq!(v2.input_type(), vector::vector_sink::DataType::Any);
    assert!(v2.resources().is_empty());
}
