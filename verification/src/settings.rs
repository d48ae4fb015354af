//! Process-wide settings that requests carry along.

use vstd::prelude::*;

use crate::text::clone_bytes;

verus! {

/// Settings fixed at startup and read by every request: for now, the
/// user-agent header value.
pub struct Settings {
    useragent: Option<Vec<u8>>,
}

impl Settings {
    /// The configured user agent, once set.
    pub closed spec fn useragent_spec(&self) -> Option<Seq<u8>> {
        match self.useragent {
            Option::Some(ref u) => Option::Some(u@),
            Option::None => Option::None,
        }
    }

    /// Fresh settings with no user agent yet.
    pub fn new() -> (r: Settings)
        ensures
            r.useragent_spec() is None,
    {
        Settings { useragent: None }
    }

    /// Sets the user agent every request will carry.
    pub fn set_useragent(&mut self, useragent: Vec<u8>)
        ensures
            final(self).useragent_spec() == Option::Some(useragent@),
    {
        self.useragent = Some(useragent);
    }

    /// A copy of the configured user agent; `None` until one was set.
    pub fn get_useragent(&self) -> (r: Option<Vec<u8>>)
        ensures
            r matches Option::Some(u) ==> self.useragent_spec() == Option::Some(u@),
            r is None <==> self.useragent_spec() is None,
    {
        match &self.useragent {
            Option::Some(u) => Some(clone_bytes(u)),
            Option::None => None,
        }
    }
}

} // verus!
