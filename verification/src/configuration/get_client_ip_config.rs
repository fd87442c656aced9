use vstd::prelude::*;

verus! {

/// Which request header carries the client's address.
pub struct GetClientIpConfiguration {
    pub header_name: String,
}

impl Default for GetClientIpConfiguration {
    /// The `X-Forwarded-For` header.
    fn default() -> (r: Self)
        ensures
            r.header_name@ == "X-Forwarded-For"@,
    {
        GetClientIpConfiguration { header_name: String::from_str("X-Forwarded-For") }
    }
}

} // verus!
