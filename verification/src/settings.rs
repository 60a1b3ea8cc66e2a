use vstd::prelude::*;

verus! {

/// Connection settings for the remote secret store, as loaded from the
/// configuration file by the integration layer.
#[derive(Debug, Clone)]
pub struct Settings {
    pub aws_access_key: String,
    pub aws_secret_key: String,
    pub aws_region: String,
}

} // verus!
