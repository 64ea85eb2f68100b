//! Server builder: the configuration a server connection starts with.
use vstd::prelude::*;
use crate::shared_state::VARINT_MAX;

verus! {

/// Start building a new HTTP/3 server
pub fn builder() -> (b: Builder)
    ensures
        b.max_field_section_size == VARINT_MAX,
{
    Builder::new()
}

/// HTTP/3 server builder
#[derive(Debug, PartialEq, Eq, Structural)]
pub struct Builder {
    /// The largest field section the server accepts
    pub max_field_section_size: u64,
}

impl Builder {
    fn new() -> (b: Self)
        ensures
            b.max_field_section_size == VARINT_MAX,
    {
        Builder { max_field_section_size: VARINT_MAX }
    }

    /// Set the maximum header size this server is willing to accept
    pub fn max_field_section_size(&mut self, value: u64) -> (r: &mut Self)
        ensures
            r.max_field_section_size == value,
            *final(self) == *final(r),
    {
        self.max_field_section_size = value;
        self
    }
}

} // verus!
