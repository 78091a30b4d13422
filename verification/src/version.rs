//! The minimal version-only service: enough of the runtime surface for an
//! orchestrator to probe what protocol is spoken.
use vstd::prelude::*;

use crate::cri::{VersionRequest, VersionResponse};

verus! {

/// A service that answers version probes and nothing else.
pub struct CRIRuntimeService {
}

impl CRIRuntimeService {
    /// The protocol version as the primary version field, with the
    /// runtime's name and an early build tag.
    pub fn version(&self, _req: VersionRequest) -> (r: VersionResponse)
        ensures
            r.version@ == "v1alpha2"@,
            r.runtime_name@ == "wok"@,
            r.runtime_version@ == "0.1.0"@,
            r.runtime_api_version@ == "0.1.0-alpha.2"@,
    {
        VersionResponse {
            version: String::from_str("v1alpha2"),
            runtime_name: String::from_str("wok"),
            runtime_version: String::from_str("0.1.0"),
            runtime_api_version: String::from_str("0.1.0-alpha.2"),
        }
    }
}

} // verus!
