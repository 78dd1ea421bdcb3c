//! The account-ledger substrate's network table and name encoding.

use vstd::prelude::*;

use crate::bytes_util::str_eq;
use crate::name::{name_bytes, pad_name};

verus! {

/// The Solana clusters a feed registry can live on.
#[derive(Clone, Copy, Debug, PartialEq, Eq)]
pub enum SolanaNetwork {
    Testnet,
    Devnet,
    Mainnet,
}

/// The cluster a slug denotes, if any.
pub open spec fn spec_solana_from_slug(s: Seq<char>) -> Option<SolanaNetwork> {
    if s == "testnet"@ {
        Some(SolanaNetwork::Testnet)
    } else if s == "devnet"@ {
        Some(SolanaNetwork::Devnet)
    } else if s == "mainnet"@ {
        Some(SolanaNetwork::Mainnet)
    } else {
        None
    }
}

/// Each cluster's slug.
pub open spec fn spec_solana_slug(n: SolanaNetwork) -> Seq<char> {
    match n {
        SolanaNetwork::Testnet => "testnet"@,
        SolanaNetwork::Devnet => "devnet"@,
        SolanaNetwork::Mainnet => "mainnet"@,
    }
}

impl SolanaNetwork {
    /// Resolves a cluster slug; unknown slugs resolve to none.
    pub fn from_slug(slug: &str) -> (r: Option<SolanaNetwork>)
        ensures
            r == spec_solana_from_slug(slug@),
    {
        if str_eq(slug, "testnet") {
            Some(SolanaNetwork::Testnet)
        } else if str_eq(slug, "devnet") {
            Some(SolanaNetwork::Devnet)
        } else if str_eq(slug, "mainnet") {
            Some(SolanaNetwork::Mainnet)
        } else {
            None
        }
    }

    /// This cluster's slug.
    pub fn slug(&self) -> (r: &'static str)
        ensures
            r@ == spec_solana_slug(*self),
    {
        match self {
            SolanaNetwork::Testnet => "testnet",
            SolanaNetwork::Devnet => "devnet",
            SolanaNetwork::Mainnet => "mainnet",
        }
    }

    /// The fixed-width 32-byte field a name occupies on this substrate.
    pub fn get_name_bytes(&self, name: &[u8]) -> (padded: Vec<u8>)
        requires
            name@.len() <= 32,
        ensures
            padded@ == pad_name(name@),
    {
        name_bytes(name)
    }
}

} // verus!
