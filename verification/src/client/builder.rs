//! HTTP/3 client builder over a full client configuration.
use vstd::prelude::*;
use crate::config::{Config, Settings, DEFAULT_MAX_FIELD_SECTION_SIZE};

verus! {

/// Start building a new HTTP/3 client
pub fn builder() -> (b: Builder)
    ensures
        b.config.send_grease,
        b.config.send_settings,
        b.config.settings.max_field_section_size == DEFAULT_MAX_FIELD_SECTION_SIZE,
        !b.config.settings.enable_webtransport,
        !b.config.settings.enable_extended_connect,
        !b.config.settings.enable_datagram,
{
    Builder::new()
}

/// HTTP/3 client builder: the configuration of a new client.
#[derive(Debug)]
pub struct Builder {
    /// The configuration collected so far
    pub config: Config,
}

impl Builder {
    fn new() -> (b: Self)
        ensures
            b.config.send_grease,
            b.config.send_settings,
            b.config.settings.max_field_section_size == DEFAULT_MAX_FIELD_SECTION_SIZE,
            !b.config.settings.enable_webtransport,
            !b.config.settings.enable_extended_connect,
            !b.config.settings.enable_datagram,
    {
        Builder { config: Config::default() }
    }

    /// Whether to send the SETTINGS frame
    pub fn send_settings(&mut self, value: bool) -> (r: &mut Self)
        ensures
            r.config == (Config { send_settings: value, ..old(self).config }),
            *final(self) == *final(r),
    {
        self.config.send_settings = value;
        self
    }

    /// Set the maximum header size this client is willing to accept
    pub fn max_field_section_size(&mut self, value: u64) -> (r: &mut Self)
        ensures
            r.config == (Config {
                settings: Settings { max_field_section_size: value, ..old(self).config.settings },
                ..old(self).config
            }),
            *final(self) == *final(r),
    {
        self.config.settings.max_field_section_size = value;
        self
    }

    /// Whether to send grease (RFC 9114 section 9), so that peers keep
    /// ignoring what they do not know
    pub fn send_grease(&mut self, enabled: bool) -> (r: &mut Self)
        ensures
            r.config == (Config { send_grease: enabled, ..old(self).config }),
            *final(self) == *final(r),
    {
        self.config.send_grease = enabled;
        self
    }

    /// Indicates that the client supports HTTP/3 datagrams (RFC 9297
    /// section 2.1.1)
    pub fn enable_datagram(&mut self, enabled: bool) -> (r: &mut Self)
        ensures
            r.config == (Config {
                settings: Settings { enable_datagram: enabled, ..old(self).config.settings },
                ..old(self).config
            }),
            *final(self) == *final(r),
    {
        self.config.settings.enable_datagram = enabled;
        self
    }

    /// Enables the extended CONNECT protocol required for various HTTP/3
    /// extensions
    pub fn enable_extended_connect(&mut self, value: bool) -> (r: &mut Self)
        ensures
            r.config == (Config {
                settings: Settings { enable_extended_connect: value, ..old(self).config.settings },
                ..old(self).config
            }),
            *final(self) == *final(r),
    {
        self.config.settings.enable_extended_connect = value;
        self
    }
}

} // verus!
