//! HTTP/3 endpoint configuration.
use vstd::prelude::*;

verus! {

/// Default max header size: the largest variable-length integer, `2^62 - 1`.
pub const DEFAULT_MAX_FIELD_SECTION_SIZE: u64 = 0x3fff_ffff_ffff_ffff;

/// Configuration of a connection.
#[derive(Clone, Copy, Debug, PartialEq, Eq, Structural)]
pub struct ConnectionConfig {
    /// Whether to send grease settings, frames and streams
    pub enable_grease: bool,
    /// Whether WebTransport is announced
    pub enable_webtransport: bool,
    /// The largest field section this endpoint accepts
    pub max_field_section_size: u64,
}

impl Default for ConnectionConfig {
    fn default() -> (c: Self)
        ensures
            c.enable_grease,
            !c.enable_webtransport,
            c.max_field_section_size == DEFAULT_MAX_FIELD_SECTION_SIZE,
    {
        Self { enable_grease: true, enable_webtransport: false, max_field_section_size: DEFAULT_MAX_FIELD_SECTION_SIZE }
    }
}

/// Client config builder
#[derive(Debug)]
pub struct ClientConfig {
    /// The connection configuration
    pub conn: ConnectionConfig,
}

/// Server config builder
#[derive(Debug)]
pub struct ServerConfig {
    /// The connection configuration
    pub conn: ConnectionConfig,
}

impl Default for ClientConfig {
    fn default() -> (c: Self)
        ensures
            c.conn.enable_grease,
            !c.conn.enable_webtransport,
            c.conn.max_field_section_size == DEFAULT_MAX_FIELD_SECTION_SIZE,
    {
        ClientConfig { conn: ConnectionConfig::default() }
    }
}

impl Default for ServerConfig {
    fn default() -> (c: Self)
        ensures
            c.conn.enable_grease,
            !c.conn.enable_webtransport,
            c.conn.max_field_section_size == DEFAULT_MAX_FIELD_SECTION_SIZE,
    {
        ServerConfig { conn: ConnectionConfig::default() }
    }
}

impl ClientConfig {
    /// Start to build config
    pub fn new() -> (c: Self)
        ensures
            c.conn.enable_grease,
            !c.conn.enable_webtransport,
            c.conn.max_field_section_size == DEFAULT_MAX_FIELD_SECTION_SIZE,
    {
        Self::default()
    }

    /// Disable grease in SETTINGS
    pub fn disable_grease(self) -> (c: Self)
        ensures
            c.conn == (ConnectionConfig { enable_grease: false, ..self.conn }),
    {
        let mut c = self;
        c.conn.enable_grease = false;
        c
    }

    /// Enable WebTransport
    pub fn enable_webtransport(self) -> (c: Self)
        ensures
            c.conn == (ConnectionConfig { enable_webtransport: true, ..self.conn }),
    {
        let mut c = self;
        c.conn.enable_webtransport = true;
        c
    }

    /// Set maximum header size the endpoint is willing to accept
    pub fn max_field_section_size(self, val: u64) -> (c: Self)
        ensures
            c.conn == (ConnectionConfig { max_field_section_size: val, ..self.conn }),
    {
        let mut c = self;
        c.conn.max_field_section_size = val;
        c
    }
}

impl ServerConfig {
    /// Start to build config
    pub fn new() -> (c: Self)
        ensures
            c.conn.enable_grease,
            !c.conn.enable_webtransport,
            c.conn.max_field_section_size == DEFAULT_MAX_FIELD_SECTION_SIZE,
    {
        Self::default()
    }

    /// Disable grease in SETTINGS
    pub fn disable_grease(self) -> (c: Self)
        ensures
            c.conn == (ConnectionConfig { enable_grease: false, ..self.conn }),
    {
        let mut c = self;
        c.conn.enable_grease = false;
        c
    }

    /// Enable WebTransport
    pub fn enable_webtransport(self) -> (c: Self)
        ensures
            c.conn == (ConnectionConfig { enable_webtransport: true, ..self.conn }),
    {
        let mut c = self;
        c.conn.enable_webtransport = true;
        c
    }

    /// Set maximum header size the endpoint is willing to accept
    pub fn max_field_section_size(self, val: u64) -> (c: Self)
        ensures
            c.conn == (ConnectionConfig { max_field_section_size: val, ..self.conn }),
    {
        let mut c = self;
        c.conn.max_field_section_size = val;
        c
    }
}

/// The settings a client announces.
#[derive(Clone, Copy, Debug, PartialEq, Eq, Structural)]
pub struct Settings {
    /// SETTINGS_MAX_FIELD_SECTION_SIZE
    pub max_field_section_size: u64,
    /// SETTINGS_ENABLE_WEBTRANSPORT
    pub enable_webtransport: bool,
    /// SETTINGS_ENABLE_CONNECT_PROTOCOL
    pub enable_extended_connect: bool,
    /// SETTINGS_H3_DATAGRAM
    pub enable_datagram: bool,
}

/// The configuration a client builder collects.
#[derive(Clone, Copy, Debug, PartialEq, Eq, Structural)]
pub struct Config {
    /// Whether to send grease
    pub send_grease: bool,
    /// Whether to send the SETTINGS frame
    pub send_settings: bool,
    /// The settings to announce
    pub settings: Settings,
}

impl Default for Config {
    fn default() -> (c: Self)
        ensures
            c.send_grease,
            c.send_settings,
            c.settings.max_field_section_size == DEFAULT_MAX_FIELD_SECTION_SIZE,
            !c.settings.enable_webtransport,
            !c.settings.enable_extended_connect,
            !c.settings.enable_datagram,
    {
        Config {
            send_grease: true,
            send_settings: true,
            settings: Settings {
                max_field_section_size: DEFAULT_MAX_FIELD_SECTION_SIZE,
                enable_webtransport: false,
                enable_extended_connect: false,
                enable_datagram: false,
            },
        }
    }
}

} // verus!
