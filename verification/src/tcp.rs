//! The TCP socket source's configuration and the pure part of building
//! an event from one received frame.

use vstd::prelude::*;

use crate::websocket::TlsConfig;

verus! {

/// Where the source listens: a socket address, or a socket handed over
/// by the service manager.
#[derive(Debug, PartialEq, Eq)]
pub enum SocketListenAddr {
    SocketAddr(String),
    SystemdFd(usize),
}

#[derive(Clone, Copy, Debug, PartialEq, Eq)]
pub struct TcpKeepaliveConfig {
    pub time_secs: Option<u64>,
}

pub struct TcpConfig {
    pub address: SocketListenAddr,
    pub keepalive: Option<TcpKeepaliveConfig>,
    pub max_length: usize,
    pub shutdown_timeout_secs: u64,
    pub host_key: Option<String>,
    pub tls: Option<TlsConfig>,
    pub receive_buffer_bytes: Option<usize>,
}

/// 100 KiB: the frame length limit a configuration gets by default.
pub fn default_max_length() -> (r: usize)
    ensures
        r == 102400,
{
    102400
}

pub fn default_shutdown_timeout_secs() -> (r: u64)
    ensures
        r == 30,
{
    30
}

impl TcpConfig {
    pub fn new(
        address: SocketListenAddr,
        keepalive: Option<TcpKeepaliveConfig>,
        max_length: usize,
        shutdown_timeout_secs: u64,
        host_key: Option<String>,
        tls: Option<TlsConfig>,
        receive_buffer_bytes: Option<usize>,
    ) -> (r: TcpConfig)
        ensures
            r.address == address,
            r.keepalive == keepalive,
            r.max_length == max_length,
            r.shutdown_timeout_secs == shutdown_timeout_secs,
            r.host_key == host_key,
            r.tls == tls,
            r.receive_buffer_bytes == receive_buffer_bytes,
    {
        TcpConfig {
            address,
            keepalive,
            max_length,
            shutdown_timeout_secs,
            host_key,
            tls,
            receive_buffer_bytes,
        }
    }

    /// A configuration with everything but the address left at its
    /// defaults.
    pub fn from_address(address: SocketListenAddr) -> (r: TcpConfig)
        ensures
            r.address == address,
            r.keepalive is None,
            r.max_length == 102400,
            r.shutdown_timeout_secs == 30,
            r.host_key is None,
            r.tls is None,
            r.receive_buffer_bytes is None,
    {
        TcpConfig {
            address,
            keepalive: None,
            max_length: default_max_length(),
            shutdown_timeout_secs: default_shutdown_timeout_secs(),
            host_key: None,
            tls: None,
            receive_buffer_bytes: None,
        }
    }

    pub fn address(&self) -> (r: &SocketListenAddr)
        ensures
            r == &self.address,
    {
        &self.address
    }

    pub fn keepalive(&self) -> (r: Option<TcpKeepaliveConfig>)
        ensures
            r == self.keepalive,
    {
        self.keepalive
    }

    pub fn max_length(&self) -> (r: usize)
        ensures
            r == self.max_length,
    {
        self.max_length
    }

    pub fn set_max_length(&mut self, max_length: usize)
        ensures
            *final(self) == (TcpConfig { max_length, ..*old(self) }),
    {
        self.max_length = max_length;
    }

    pub fn shutdown_timeout_secs(&self) -> (r: u64)
        ensures
            r == self.shutdown_timeout_secs,
    {
        self.shutdown_timeout_secs
    }

    pub fn set_shutdown_timeout_secs(&mut self, secs: u64)
        ensures
            *final(self) == (TcpConfig { shutdown_timeout_secs: secs, ..*old(self) }),
    {
        self.shutdown_timeout_secs = secs;
    }

    pub fn host_key(&self) -> (r: &Option<String>)
        ensures
            r == &self.host_key,
    {
        &self.host_key
    }

    pub fn tls(&self) -> (r: &Option<TlsConfig>)
        ensures
            r == &self.tls,
    {
        &self.tls
    }

    pub fn set_tls(&mut self, tls: Option<TlsConfig>)
        ensures
            *final(self) == (TcpConfig { tls, ..*old(self) }),
    {
        self.tls = tls;
    }

    pub fn receive_buffer_bytes(&self) -> (r: Option<usize>)
        ensures
            r == self.receive_buffer_bytes,
    {
        self.receive_buffer_bytes
    }
}

/// One event built from a received frame: the frame's bytes and the
/// peer's address.
pub struct FrameEvent {
    pub frame: Vec<u8>,
    pub host: Option<String>,
}

/// The raw TCP source: frames become events unchanged.
pub struct RawTcpSource {
    pub config: TcpConfig,
}

impl RawTcpSource {
    /// Build the event for one frame: the bytes are carried over and the
    /// peer's address becomes the host; a frame is never dropped.
    pub fn build_event(&self, frame: &Vec<u8>, host: &str) -> (r: Option<FrameEvent>)
        ensures
            match r {
                Some(ev) => ev.frame@ == frame@ && (ev.host matches Some(h) && h@ == host@),
                None => false,
            },
    {
        let mut copied: Vec<u8> = Vec::new();
        let mut i: usize = 0;
        while i < frame.len()
            invariant
                0 <= i <= frame@.len(),
                copied@.len() == i,
                forall|j: int| 0 <= j < i ==> copied@[j] == frame@[j],
            decreases frame@.len() - i,
        {
            copied.push(frame[i]);
            i += 1;
        }
        proof {
            assert(copied@ =~= frame@);
        }
        Some(FrameEvent { frame: copied, host: Some(host.to_owned()) })
    }
}

} // verus!
