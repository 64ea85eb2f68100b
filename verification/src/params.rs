//! HTTP/3 connection parameters.
use vstd::prelude::*;

verus! {

/// HTTP/3 connection parameters builder
#[derive(Debug, PartialEq, Eq, Structural)]
pub struct Params {
    /// Whether WebTransport is enabled
    pub enable_webtransport: bool,
    /// Whether grease is sent in SETTINGS
    pub grease: bool,
    /// The largest field section this endpoint accepts
    pub max_field_section_size: u64,
}

/// Default max header size: `2^62 - 1`.
pub const DEFAULT_MAX_FIELD_SECTION_SIZE: u64 = 0x3fff_ffff_ffff_ffff;

impl Default for Params {
    fn default() -> (p: Self)
        ensures
            p == (Params { enable_webtransport: false, grease: true, max_field_section_size: DEFAULT_MAX_FIELD_SECTION_SIZE }),
    {
        Self { enable_webtransport: false, grease: true, max_field_section_size: DEFAULT_MAX_FIELD_SECTION_SIZE }
    }
}

impl Params {
    /// Enable WebTransport
    pub fn enable_webtransport(self) -> (p: Self)
        ensures
            p == (Params { enable_webtransport: true, ..self }),
    {
        let mut p = self;
        p.enable_webtransport = true;
        p
    }

    /// Disable grease in SETTINGS
    pub fn disable_grease(self) -> (p: Self)
        ensures
            p == (Params { grease: false, ..self }),
    {
        let mut p = self;
        p.grease = false;
        p
    }

    /// Set the maximum header size the endpoint is willing to accept
    pub fn max_field_section_size(self, val: u64) -> (p: Self)
        ensures
            p == (Params { max_field_section_size: val, ..self }),
    {
        let mut p = self;
        p.max_field_section_size = val;
        p
    }
}

} // verus!
