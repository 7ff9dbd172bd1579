//! The payload shapes of the tool-call interface and the session state it
//! keeps: a working-directory location set once before any other call. The
//! transport and its serialisation live outside the engine; copies of these
//! shapes there carry the wire derives.

use vstd::prelude::*;

verus! {

/// Session state of the tool-call interface: the repository location, unset
/// until the caller supplies one.
pub struct McpState {
    location: Option<String>,
}

impl McpState {
    /// Whether a location has been supplied.
    pub closed spec fn sp_located(&self) -> bool {
        self.location is Some
    }

    /// The working directory, as contracts see it.
    pub closed spec fn sp_location(&self) -> Option<String> {
        self.location
    }

    pub fn new() -> (r: Self)
        ensures
            !r.sp_located(),
    {
        McpState { location: None }
    }

    /// Records the working directory for the rest of the session.
    pub fn set_location(&mut self, location: String)
        ensures
            final(self).sp_located(),
            final(self).sp_location() == Some(location),
    {
        self.location = Some(location);
    }

    /// The working directory, once set.
    pub fn location(&self) -> (r: &Option<String>)
        ensures
            *r == self.sp_location(),
    {
        &self.location
    }
}

/// A tool call that takes nothing.
pub struct Empty {}

/// A tool call that takes one optional string.
pub struct OptionalString {
    pub optional_string: Option<String>,
}

/// A tool call that takes one string.
pub struct SingleString {
    pub single_string: String,
}

/// A tool call that takes a list of strings.
pub struct MultiString {
    pub multi_string: Vec<String>,
}

} // verus!
