//! The client's compute side: endpoint tables, the value snapshot, and
//! the validated plan of a create.
//!
//! Opening a connection, signing and sending belong to the transport
//! boundary; what is verified here is everything the client decides
//! before a request leaves the process.

use vstd::prelude::*;

use crate::address::{derived_feed_address, OracleId};
use crate::bytes_util::zero_key;
use crate::calendar::{datetime_text, spec_datetime_text, spec_epoch_seconds, valid_civil_date};
use crate::decimal::{spec_u128_to_decimal, u128_to_decimal};
use crate::errors::Error;
use crate::name::{is_valid_name, name_bytes, pad_name, valid_name};
use crate::state::{Feed, Timestamp};

verus! {

/// The networks a client can target; a custom network carries its own
/// rpc and websocket endpoints.
#[derive(Debug)]
pub enum Network {
    Devnet,
    Testnet,
    Mainnet,
    Custom(String, String),
}

/// Each network's rpc endpoint.
pub open spec fn spec_rpc_url(n: Network) -> Seq<char> {
    match n {
        Network::Devnet => "https://api.devnet.solana.com"@,
        Network::Testnet => "https://api.testnet.solana.com"@,
        Network::Mainnet => "https://api.mainnet-beta.solana.com"@,
        Network::Custom(rpc_url, _) => rpc_url@,
    }
}

/// Each network's websocket endpoint.
pub open spec fn spec_ws_url(n: Network) -> Seq<char> {
    match n {
        Network::Devnet => "wss://api.devnet.solana.com"@,
        Network::Testnet => "wss://api.testnet.solana.com"@,
        Network::Mainnet => "wss://api.mainnet-beta.solana.com"@,
        Network::Custom(_, ws_url) => ws_url@,
    }
}

impl Network {
    /// The rpc endpoint requests go to.
    pub fn rpc_url(&self) -> (r: String)
        ensures
            r@ == spec_rpc_url(*self),
    {
        match self {
            Network::Devnet => String::from_str("https://api.devnet.solana.com"),
            Network::Testnet => String::from_str("https://api.testnet.solana.com"),
            Network::Mainnet => String::from_str("https://api.mainnet-beta.solana.com"),
            Network::Custom(rpc_url, _) => rpc_url.clone(),
        }
    }

    /// The websocket endpoint subscriptions go to.
    pub fn ws_url(&self) -> (r: String)
        ensures
            r@ == spec_ws_url(*self),
    {
        match self {
            Network::Devnet => String::from_str("wss://api.devnet.solana.com"),
            Network::Testnet => String::from_str("wss://api.testnet.solana.com"),
            Network::Mainnet => String::from_str("wss://api.mainnet-beta.solana.com"),
            Network::Custom(_, ws_url) => ws_url.clone(),
        }
    }
}

/// A feed's current value, if any, and its last-update time.
#[derive(Debug, Clone, PartialEq, Eq)]
pub struct Snapshot(pub Option<u128>, pub Timestamp);

/// The textual value part of a snapshot: the value, or the null marker.
pub open spec fn spec_value_text(v: Option<u128>) -> Seq<char> {
    match v {
        None => "<null>"@,
        Some(x) => spec_u128_to_decimal(x),
    }
}

impl Snapshot {
    /// Renders the snapshot as a one-line human-readable summary: the
    /// value, then the civil datetime that the timestamp denotes.
    pub fn render(&self) -> (r: String)
        ensures
            exists|y: int, m: int, d: int, hh: int, mi: int, ss: int|
                {
                    &&& valid_civil_date(y, m, d)
                    &&& 0 <= hh < 24 && 0 <= mi < 60 && 0 <= ss < 60
                    &&& spec_epoch_seconds(y, m, d, hh, mi, ss) == self.1
                    &&& r@ == spec_value_text(self.0) + " @ "@ + #[trigger] spec_datetime_text(
                        y,
                        m,
                        d,
                        hh,
                        mi,
                        ss,
                    )
                },
    {
        let mut out = match self.0 {
            None => String::from_str("<null>"),
            Some(v) => u128_to_decimal(v),
        };
        out.append(" @ ");
        let stamp = datetime_text(self.1);
        out.append(stamp.as_str());
        proof {
            let (y, m, d, hh, mi, ss) = choose|y: int, m: int, d: int, hh: int, mi: int, ss: int|
                {
                    &&& valid_civil_date(y, m, d)
                    &&& 0 <= hh < 24 && 0 <= mi < 60 && 0 <= ss < 60
                    &&& spec_epoch_seconds(y, m, d, hh, mi, ss) == self.1
                    &&& stamp@ == #[trigger] spec_datetime_text(y, m, d, hh, mi, ss)
                };
            assert(out@ == spec_value_text(self.0) + " @ "@ + spec_datetime_text(
                y,
                m,
                d,
                hh,
                mi,
                ss,
            ));
        }
        out
    }
}

/// The error a rejected create plan reports, in check order.
pub open spec fn prepare_create_error(
    name: Seq<u8>,
    owner: Seq<u8>,
    payer: Seq<u8>,
) -> Error {
    if !valid_name(name) {
        Error::InvalidName
    } else if owner == zero_key() {
        Error::MissingAuthorization
    } else if payer == zero_key() {
        Error::MissingAuthorization
    } else {
        Error::NotFound
    }
}

/// Validates a create request and plans it: checks the name, the owner
/// and the funding identity, derives the feed's address under the
/// deployment identity, and assembles the record payload the substrate
/// is to store.
pub fn prepare_create(
    name: &[u8],
    owner: &[u8],
    payer: &[u8],
    value: Option<u128>,
    program: &[u8],
) -> (r: Result<(OracleId, Feed), Error>)
    requires
        owner@.len() == 32,
        payer@.len() == 32,
        program@.len() == 32,
    ensures
        r is Ok <==> (valid_name(name@) && owner@ != zero_key() && payer@ != zero_key()
            && derived_feed_address(pad_name(name@), program@) is Some),
        r matches Ok(p) ==> {
            &&& Some(p.0@) == derived_feed_address(pad_name(name@), program@)
            &&& p.0.wf()
            &&& p.1.owner@ == owner@
            &&& p.1.name@ == pad_name(name@)
            &&& p.1.value == value
            &&& p.1.wf()
        },
        r matches Err(e) ==> e == prepare_create_error(name@, owner@, payer@),
{
    if !is_valid_name(name) {
        return Err(Error::InvalidName);
    }
    if crate::bytes_util::is_zero_key(owner) {
        return Err(Error::MissingAuthorization);
    }
    if crate::bytes_util::is_zero_key(payer) {
        return Err(Error::MissingAuthorization);
    }
    match OracleId::from_name(name, program) {
        None => Err(Error::NotFound),
        Some(id) => {
            let feed = Feed {
                owner: vstd::slice::slice_to_vec(owner),
                name: name_bytes(name),
                value,
            };
            Ok((id, feed))
        },
    }
}

} // verus!
