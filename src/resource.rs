use vstd::prelude::*;
use vstd::string::*;

verus! {

/// Holds the URL of a download resource until it is released, and hands it out for
/// revocation exactly once.
pub struct UrlGuard {
    url: String,
    released: bool,
}

impl UrlGuard {
    pub closed spec fn url(&self) -> Seq<char> {
        self.url@
    }

    pub closed spec fn is_released(&self) -> bool {
        self.released
    }

    /// A guard over `url`, not yet released.
    pub fn new(url: &str) -> (r: UrlGuard)
        ensures
            r.url() == url@,
            !r.is_released(),
    {
        UrlGuard { url: String::from_str(url), released: false }
    }

    /// The URL, to be revoked, the first time; nothing after that.
    pub fn release(&mut self) -> (r: Option<String>)
        ensures
            final(self).is_released(),
            final(self).url() == old(self).url(),
            old(self).is_released() ==> r is None,
            !old(self).is_released() ==> (r matches Some(u) && u@ == old(self).url()),
    {
        if self.released {
            None
        } else {
            self.released = true;
            Some(self.url.clone())
        }
    }

    pub fn released(&self) -> (r: bool)
        ensures
            r == self.is_released(),
    {
        self.released
    }
}

} // verus!
