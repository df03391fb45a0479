//! The websocket sink's configuration and the pure part of its work:
//! extracting host and port from the sink URI, and encoding one event as
//! the text of an outgoing message.

use vstd::prelude::*;

use crate::json_out::json_str;
use crate::log_event::LogEvent;
use crate::uri::{parse_uri_parts, uri_parts_of};
use crate::value::{val_str, Val};

verus! {

/// The codec of the sink's messages.
#[derive(Clone, Copy, Debug, PartialEq, Eq)]
pub enum Encoding {
    Text,
    Json,
}

#[derive(Clone, Copy, Debug, PartialEq, Eq)]
pub struct EncodingConfig {
    pub codec: Encoding,
}

/// TLS settings, held as plain values.
#[derive(Debug, PartialEq, Eq)]
pub struct TlsConfig {
    pub enabled: Option<bool>,
    pub verify_certificate: Option<bool>,
    pub verify_hostname: Option<bool>,
    pub ca_file: Option<String>,
}

/// Why building the client request can fail: the address is no URI, it
/// names no host, its scheme is not a websocket scheme, or the handshake
/// itself fails (the last arises only in the transport).
#[derive(Clone, Copy, Debug, PartialEq, Eq)]
pub enum WsCreateError {
    InvalidUri,
    NoHostName,
    UnsupportedScheme,
    Handshake,
}

/// What can go wrong while building the sink's connection.
#[derive(Debug, PartialEq, Eq)]
pub enum WebSocketError {
    CreateFailed(WsCreateError),
    ConnectError,
    DnsError,
    NoAddresses,
}

pub struct WebSocketSinkConfig {
    pub uri: String,
    pub tls: Option<TlsConfig>,
    pub encoding: EncodingConfig,
}

/// The resolved endpoint the sink connects to.
pub struct WebSocketConnector {
    pub host: String,
    pub port: u16,
    pub tls: Option<TlsConfig>,
}

/// Host and port of a websocket URI: the host is required (a nameless
/// one is its own error), the scheme must be `ws` or `wss`, and a
/// missing port defaults to 80 or 443 by scheme.
pub open spec fn extract_host_port_spec(s: Seq<char>) -> Result<(Seq<char>, u16), WsCreateError> {
    match uri_parts_of(s) {
        None => Err(WsCreateError::InvalidUri),
        Some(p) => match p.host {
            None => Err(WsCreateError::NoHostName),
            Some(h) => {
                let tls_mode = if p.scheme == Some("wss"@) {
                    Some(true)
                } else if p.scheme == Some("ws"@) {
                    Some(false)
                } else {
                    None::<bool>
                };
                match tls_mode {
                    None => Err(WsCreateError::UnsupportedScheme),
                    Some(t) => Ok(
                        (
                            h,
                            match p.port {
                                Some(pt) => pt,
                                None => if t {
                                    443
                                } else {
                                    80
                                },
                            },
                        ),
                    ),
                }
            },
        },
    }
}

fn clone_tls(t: &TlsConfig) -> (r: TlsConfig)
    ensures
        r == *t,
{
    TlsConfig {
        enabled: match &t.enabled {
            Some(b) => Some(*b),
            None => None,
        },
        verify_certificate: match &t.verify_certificate {
            Some(b) => Some(*b),
            None => None,
        },
        verify_hostname: match &t.verify_hostname {
            Some(b) => Some(*b),
            None => None,
        },
        ca_file: match &t.ca_file {
            Some(s) => {
                let c = s.clone();
                proof {
                    assert(c == *s);
                }
                Some(c)
            },
            None => None,
        },
    }
}

impl WebSocketSinkConfig {
    /// The example configuration: the JSON codec against a local
    /// endpoint.
    pub fn generate_config() -> (r: WebSocketSinkConfig)
        ensures
            r.uri@ == "ws://127.0.0.1:9000/endpoint"@,
            r.tls is None,
            r.encoding.codec == Encoding::Json,
    {
        WebSocketSinkConfig {
            uri: "ws://127.0.0.1:9000/endpoint".to_owned(),
            tls: None,
            encoding: EncodingConfig { codec: Encoding::Json },
        }
    }

    /// Read host and port out of a websocket URI, exactly as
    /// `extract_host_port_spec` describes.
    pub fn extract_host_and_port(uri: &str) -> (r: Result<(String, u16), WsCreateError>)
        ensures
            match r {
                Ok(hp) => extract_host_port_spec(uri@) == Ok::<(Seq<char>, u16), WsCreateError>(
                    (hp.0@, hp.1),
                ),
                Err(e) => extract_host_port_spec(uri@) == Err::<
                    (Seq<char>, u16),
                    WsCreateError,
                >(e),
            },
    {
        let parts = match parse_uri_parts(uri) {
            Some(p) => p,
            None => {
                return Err(WsCreateError::InvalidUri);
            },
        };
        let host = match &parts.host {
            Some(h) => h.clone(),
            None => {
                return Err(WsCreateError::NoHostName);
            },
        };
        let tls_mode: bool = match &parts.scheme {
            Some(sch) => {
                let sc = crate::text::str_to_chars(sch.as_str());
                let wss = crate::text::str_to_chars("wss");
                let ws = crate::text::str_to_chars("ws");
                if crate::text::chars_eq(&sc, &wss) {
                    true
                } else if crate::text::chars_eq(&sc, &ws) {
                    false
                } else {
                    return Err(WsCreateError::UnsupportedScheme);
                }
            },
            None => {
                proof {
                    reveal_strlit("ws");
                    reveal_strlit("wss");
                }
                return Err(WsCreateError::UnsupportedScheme);
            },
        };
        let port: u16 = match parts.port {
            Some(p) => p,
            None => if tls_mode {
                443
            } else {
                80
            },
        };
        Ok((host, port))
    }

    /// Resolve the connector for this configuration: the URI's host and
    /// port, with the TLS settings carried over.
    pub fn build_connector(&self) -> (r: Result<WebSocketConnector, WebSocketError>)
        ensures
            match r {
                Ok(c) => extract_host_port_spec(self.uri@) == Ok::<
                    (Seq<char>, u16),
                    WsCreateError,
                >((c.host@, c.port)) && (c.tls is Some <==> self.tls is Some),
                Err(e) => e matches WebSocketError::CreateFailed(ce) && extract_host_port_spec(
                    self.uri@,
                ) == Err::<(Seq<char>, u16), WsCreateError>(ce),
            },
    {
        match Self::extract_host_and_port(self.uri.as_str()) {
            Err(e) => Err(WebSocketError::CreateFailed(e)),
            Ok(hp) => Ok(
                WebSocketConnector {
                    host: hp.0,
                    port: hp.1,
                    tls: match &self.tls {
                        Some(t) => Some(clone_tls(t)),
                        None => None,
                    },
                },
            ),
        }
    }

    pub fn sink_type(&self) -> (r: &'static str)
        ensures
            r@ == "websocket"@,
    {
        "websocket"
    }
}

impl WebSocketConnector {
    pub fn new(host: String, port: u16, tls: Option<TlsConfig>) -> (r: WebSocketConnector)
        ensures
            r.host == host,
            r.port == port,
            r.tls == tls,
    {
        WebSocketConnector { host, port, tls }
    }
}

/// The sink's per-event state: the codec it encodes with.
pub struct WebSocketSink {
    pub encoding: EncodingConfig,
}

impl WebSocketSink {
    pub fn new(config: &WebSocketSinkConfig) -> (r: WebSocketSink)
        ensures
            r.encoding == config.encoding,
    {
        WebSocketSink { encoding: config.encoding }
    }
}

/// What one event encodes to: its JSON text under the JSON codec, and
/// the display text of its message field under the text codec (nothing
/// when that field is absent).
pub open spec fn encode_event_spec(fields: Seq<(Seq<char>, Val)>, codec: Encoding) -> Option<
    Seq<char>,
> {
    match codec {
        Encoding::Json => Some(json_str(Val::Object(fields))),
        Encoding::Text => match crate::log_event::lookup_spec(fields, "message"@) {
            Some(v) => Some(val_str(v)),
            None => None,
        },
    }
}

/// Encode one event as the text of an outgoing message, exactly as
/// `encode_event_spec` describes.
pub fn encode_event(event: &LogEvent, encoding: &EncodingConfig) -> (r: Option<String>)
    requires
        event.wf(),
    ensures
        match r {
            Some(msg) => encode_event_spec(event.view_fields(), encoding.codec) == Some(msg@),
            None => encode_event_spec(event.view_fields(), encoding.codec) is None,
        },
{
    match encoding.codec {
        Encoding::Json => {
            let copied = crate::value::clone_fields(&event.fields);
            let obj = crate::value::TypedValue::Object(copied);
            proof {
                let lhs = obj@->Object_0;
                let rhs = event.view_fields();
                assert(lhs.len() == rhs.len());
                assert forall|k: int| 0 <= k < lhs.len() implies lhs[k] == rhs[k] by {
                    assert(copied@[k].1.deep_val() == event.fields@[k].1.deep_val());
                    assert(copied@[k].0@ == event.fields@[k].0@);
                    assert(lhs[k] == (copied@[k].0@, copied@[k].1.deep_val()));
                    assert(rhs[k] == (event.fields@[k].0@, event.fields@[k].1.deep_val()));
                }
                assert(obj@->Object_0 =~= event.view_fields());
                assert(obj@ == Val::Object(event.view_fields()));
                assert(crate::value::val_wf(obj@)) by {
                    assert(forall|k: int|
                        0 <= k < event.view_fields().len() ==> crate::value::val_wf(
                            #[trigger] event.view_fields()[k].1,
                        ));
                }
            }
            let text = obj.to_json_chars();
            Some(crate::text::chars_to_string(&text))
        },
        Encoding::Text => {
            match event.get("message") {
                Some(v) => {
                    proof {
                        assert(crate::value::val_wf(v.deep_val())) by {
                            crate::log_event::lemma_lookup_wf(
                                event.view_fields(),
                                "message"@,
                            );
                        }
                    }
                    Some(v.to_string_lossy())
                },
                None => None,
            }
        },
    }
}

} // verus!
