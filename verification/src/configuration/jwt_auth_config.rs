use vstd::prelude::*;

verus! {

/// Settings of JSON web token authentication.
pub struct JwtAuthConfiguration {
    pub secret_key: String,
    pub token_expiration_seconds: u64,
    pub token_issuer: String,
    pub token_audience: String,
}

impl Default for JwtAuthConfiguration {
    /// Placeholder key, issuer and audience, and tokens that expire after an hour.
    fn default() -> (r: Self)
        ensures
            r.secret_key@ == "your_secret_key"@,
            r.token_expiration_seconds == 3600,
            r.token_issuer@ == "your_app"@,
            r.token_audience@ == "your_audience"@,
    {
        JwtAuthConfiguration {
            secret_key: String::from_str("your_secret_key"),
            token_expiration_seconds: 3600,
            token_issuer: String::from_str("your_app"),
            token_audience: String::from_str("your_audience"),
        }
    }
}

} // verus!
