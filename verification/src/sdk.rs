//! The cross-substrate dispatcher: a platform-and-network pair resolved
//! from slugs, the uniform response type, and the caller's credential.
//!
//! The substrate set is closed, so dispatch is a match over a tag.  The
//! rpc round trips themselves belong to the transport boundary; what is
//! here is the resolution logic that picks the adapter.

use vstd::prelude::*;

use crate::bytes_util::str_eq;
use crate::near::{spec_near_from_slug, NearNetwork};
use crate::solana::{spec_solana_from_slug, SolanaNetwork};
use crate::state::Timestamp;

verus! {

/// A feed read through the uniform client surface: the value, if any,
/// and its last-update time.
#[derive(Debug, Clone, Copy, PartialEq, Eq)]
pub struct OracleResponse(pub Option<u128>, pub Timestamp);

/// The caller's credential: an optional account name and the signing
/// key's textual form.  Resolving a missing credential to a locally
/// configured default happens once, at the boundary, never inside the
/// registry logic.
#[derive(Debug, Clone)]
pub struct Payer {
    pub account_id: Option<String>,
    pub secret_key: String,
}

/// A concrete substrate choice behind the uniform client surface.
#[derive(Debug, Clone, Copy, PartialEq, Eq)]
pub enum OracleInfo {
    Solana(SolanaNetwork),
    Near(NearNetwork),
}

/// The adapter a platform slug and network slug denote, if any.
pub open spec fn spec_oracle_info_from_slug(platform: Seq<char>, network: Seq<char>) -> Option<
    OracleInfo,
> {
    if platform == "solana"@ {
        match spec_solana_from_slug(network) {
            Some(n) => Some(OracleInfo::Solana(n)),
            None => None,
        }
    } else if platform == "near"@ {
        match spec_near_from_slug(network) {
            Some(n) => Some(OracleInfo::Near(n)),
            None => None,
        }
    } else {
        None
    }
}

impl OracleInfo {
    /// Resolves a platform slug and network slug to a concrete adapter
    /// choice; an unknown pair resolves to none rather than to a
    /// constructed-but-broken instance.
    pub fn from_slug(platform_slug: &str, network_slug: &str) -> (r: Option<OracleInfo>)
        ensures
            r == spec_oracle_info_from_slug(platform_slug@, network_slug@),
    {
        if str_eq(platform_slug, "solana") {
            match SolanaNetwork::from_slug(network_slug) {
                Some(n) => Some(OracleInfo::Solana(n)),
                None => None,
            }
        } else if str_eq(platform_slug, "near") {
            match NearNetwork::from_slug(network_slug) {
                Some(n) => Some(OracleInfo::Near(n)),
                None => None,
            }
        } else {
            None
        }
    }
}

} // verus!
