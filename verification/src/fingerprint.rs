//! The fingerprint database: probes to send to an open port and the
//! patterns that recognise what comes back.

use crate::utils::text::same_text;
use vstd::prelude::*;

verus! {

/// The probes for one transport protocol.
#[derive(Debug, Clone)]
pub struct Fingerprint {
    pub protocol: String,
    pub probes: Vec<Probe>,
}

/// A payload to send, and the rules for reading the answer.
#[derive(Debug, Clone)]
pub struct Probe {
    pub probe_name: Option<String>,
    pub probe_string: String,
    pub matches: Vec<Match>,
}

/// One rule: a pattern and the service it stands for.
#[derive(Debug, Clone)]
pub struct Match {
    pub pattern: String,
    pub name: String,
    pub discontinue: bool,
    pub version_info: Option<VersionInfo>,
}

/// What a rule knows about the product behind a service.
#[derive(Debug, Clone)]
pub struct VersionInfo {
    pub cpe_name: String,
    pub device_type: String,
    pub host_name: String,
    pub info: String,
    pub operating_system: String,
    pub vendor_product_name: String,
    pub version: String,
}

/// The tag of the definition that the scanner uses.
pub open spec fn tcp_tag() -> Seq<char> {
    "TCP"@
}

impl Fingerprint {
    /// Whether this definition is tagged `TCP`.
    pub open spec fn is_tcp(&self) -> bool {
        self.protocol@ == tcp_tag()
    }

    /// Picks the definition tagged `TCP` out of a loaded database. Where
    /// several carry the tag, the last one wins.
    pub fn get_tcp_fingerprint(fingerprints: Vec<Fingerprint>) -> (chosen: Option<Fingerprint>)
        ensures
            match chosen {
                Some(fingerprint) => exists|i: int|
                    0 <= i < fingerprints@.len() && #[trigger] fingerprints@[i] == fingerprint
                        && fingerprint.is_tcp() && forall|j: int|
                        i < j < fingerprints@.len() ==> !(#[trigger] fingerprints@[j]).is_tcp(),
                None => forall|j: int|
                    0 <= j < fingerprints@.len() ==> !(#[trigger] fingerprints@[j]).is_tcp(),
            },
    {
        let ghost all = fingerprints@;
        let mut rest = fingerprints;
        while rest.len() > 0
            invariant
                all == fingerprints@,
                rest@.len() <= all.len(),
                rest@ == all.take(rest@.len() as int),
                forall|j: int| rest@.len() <= j < all.len() ==> !(#[trigger] all[j]).is_tcp(),
            decreases rest.len(),
        {
            let ghost i = rest@.len() - 1;
            let candidate = rest.pop().unwrap();
            assert(candidate == all[i]);
            if same_text(candidate.protocol.as_str(), "TCP") {
                assert(fingerprints@[i] == candidate);
                return Some(candidate);
            }
        }
        None
    }
}

} // verus!
