//! The boundary a hosting contract drives: submit a proof's verification
//! outcome together with the attested header metadata, and query the latest
//! accepted pair. Recording the latest accepted `(app_hash, height)` is the
//! only durable effect of the whole core; everything else is request-scoped.

use vstd::prelude::*;

verus! {

/// Instantiation carries no parameters.
pub struct InstantiateMsg {}

/// The execute-style call: an opaque proof and its public input bytes.
pub enum ExecuteMsg {
    VerifyProof { proof: Vec<u8>, public_inputs: Vec<u8> },
}

/// The query-style call.
pub enum QueryMsg {
    GetLatestAppHash {},
}

/// The latest accepted attestation, absent until the first accepted
/// submission.
pub struct GetLatestAppHashResponse {
    pub app_hash: Option<String>,
    pub height: Option<u64>,
}

/// An accepted attestation: the application hash, hex-encoded, and the
/// height of the header that carried it.
pub struct LatestRecord {
    pub app_hash: String,
    pub height: u64,
}

/// The endpoint's durable state.
pub struct EndpointState {
    latest: Option<LatestRecord>,
}

impl EndpointState {
    /// The latest accepted attestation, if any.
    pub closed spec fn spec_latest(&self) -> Option<LatestRecord> {
        self.latest
    }

    /// A fresh endpoint has accepted nothing.
    pub fn new() -> (r: EndpointState)
        ensures
            r.spec_latest() is None,
    {
        EndpointState { latest: None }
    }

    /// Records the outcome of one submission. The host verifies the proof
    /// against the public inputs and hands in the boolean outcome with the
    /// attested pair; an accepted submission becomes the latest record, a
    /// rejected one changes nothing.
    pub fn submit(&mut self, accepted: bool, app_hash: String, height: u64) -> (r: bool)
        ensures
            r == accepted,
            accepted ==> final(self).spec_latest() == Some(LatestRecord { app_hash, height }),
            !accepted ==> final(self).spec_latest() == old(self).spec_latest(),
    {
        if accepted {
            self.latest = Some(LatestRecord { app_hash, height });
        }
        accepted
    }

    /// Answers the query from the recorded state: both fields absent until
    /// the first accepted submission, then exactly the latest accepted pair.
    pub fn handle_query(&self, msg: &QueryMsg) -> (r: GetLatestAppHashResponse)
        ensures
            match self.spec_latest() {
                Some(rec) => r.app_hash == Some(rec.app_hash) && r.height == Some(rec.height),
                None => r.app_hash is None && r.height is None,
            },
    {
        match msg {
            QueryMsg::GetLatestAppHash {  } => {
                match &self.latest {
                    Some(rec) => GetLatestAppHashResponse {
                        app_hash: Some(rec.app_hash.clone()),
                        height: Some(rec.height),
                    },
                    None => GetLatestAppHashResponse { app_hash: None, height: None },
                }
            },
        }
    }
}

} // verus!
