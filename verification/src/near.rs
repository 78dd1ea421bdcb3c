//! The contract-store substrate's side: its network table, the json
//! arguments of a registry call, and the interpretation of a read
//! answer.
//!
//! Transport — signing, nonces, the actual rpc round trip — stays
//! outside; everything here is a pure function of its arguments, with
//! the exact bytes pinned down.

use vstd::prelude::*;

use crate::bytes_util::str_eq;
use crate::decimal::{
    parse_u128_decimal, spec_decimal_value, spec_u128_decimal_bytes, strip_plus, u128_decimal_bytes,
    valid_u128_decimal,
};
use crate::errors::Error;
use crate::name::valid_name;
use crate::sdk::OracleResponse;

verus! {

/// The NEAR networks a feed registry can live on.
#[derive(Clone, Copy, Debug, PartialEq, Eq)]
pub enum NearNetwork {
    Mainnet,
    Testnet,
    Betanet,
}

/// The network a slug denotes, if any.
pub open spec fn spec_near_from_slug(s: Seq<char>) -> Option<NearNetwork> {
    if s == "testnet"@ {
        Some(NearNetwork::Testnet)
    } else if s == "betanet"@ {
        Some(NearNetwork::Betanet)
    } else if s == "mainnet"@ {
        Some(NearNetwork::Mainnet)
    } else {
        None
    }
}

/// Each network's slug.
pub open spec fn spec_near_slug(n: NearNetwork) -> Seq<char> {
    match n {
        NearNetwork::Testnet => "testnet"@,
        NearNetwork::Betanet => "betanet"@,
        NearNetwork::Mainnet => "mainnet"@,
    }
}

impl NearNetwork {
    /// Resolves a network slug; unknown slugs resolve to none.
    pub fn from_slug(slug: &str) -> (r: Option<NearNetwork>)
        ensures
            r == spec_near_from_slug(slug@),
    {
        if str_eq(slug, "testnet") {
            Some(NearNetwork::Testnet)
        } else if str_eq(slug, "betanet") {
            Some(NearNetwork::Betanet)
        } else if str_eq(slug, "mainnet") {
            Some(NearNetwork::Mainnet)
        } else {
            None
        }
    }

    /// This network's slug.
    pub fn slug(&self) -> (r: &'static str)
        ensures
            r@ == spec_near_slug(*self),
    {
        match self {
            NearNetwork::Testnet => "testnet",
            NearNetwork::Betanet => "betanet",
            NearNetwork::Mainnet => "mainnet",
        }
    }

    /// The account hosting the registry contract.
    pub fn contract_id(&self) -> (r: &'static str)
        ensures
            r@ == "rocalex-oracle.testnet"@,
    {
        "rocalex-oracle.testnet"
    }

    /// The json-rpc endpoint of this network.
    pub fn rpc_endpoint(&self) -> (r: String)
        ensures
            r@ == "https://rpc."@ + spec_near_slug(*self) + ".near.org"@,
    {
        let mut url = String::from_str("https://rpc.");
        url.append(self.slug());
        url.append(".near.org");
        url
    }
}

/// The read answer as the contract serializes it: the unknown-feed
/// marker, or the feed's value as an optional decimal string.
#[derive(Debug, Clone, PartialEq, Eq)]
pub enum ReadResult {
    UnknownFeed,
    KnownFeed(Option<String>),
}

/// Turns the contract's read answer into the client's response.  An
/// unknown feed is a normal result — the absent marker in the success
/// channel, never an error — so batch callers can branch on it without
/// special-casing failures.  A known feed's decimal string must parse
/// into the 128-bit range, and the contract's millisecond timestamp is
/// carried over.
pub fn interpret_read_response(result: &ReadResult, updated_at: u64) -> (r: Result<
    Option<OracleResponse>,
    Error,
>)
    requires
        updated_at <= i64::MAX,
    ensures
        result is UnknownFeed ==> r == Ok::<Option<OracleResponse>, Error>(None),
        result matches ReadResult::KnownFeed(None) ==> r matches Ok(Some(resp)) && resp.0 is None
            && resp.1 == updated_at as i64,
        result matches ReadResult::KnownFeed(Some(text)) ==> match r {
            Ok(found) => {
                &&& valid_u128_decimal(vstd::utf8::encode_utf8(text@))
                &&& found matches Some(resp) && resp.0 matches Some(v) && v == spec_decimal_value(
                    strip_plus(vstd::utf8::encode_utf8(text@)),
                ) && resp.1 == updated_at as i64
            },
            Err(e) => e == Error::EncodingError && !valid_u128_decimal(
                vstd::utf8::encode_utf8(text@),
            ),
        },
{
    match result {
        ReadResult::UnknownFeed => Ok(None),
        ReadResult::KnownFeed(None) => Ok(Some(OracleResponse(None, updated_at as i64))),
        ReadResult::KnownFeed(Some(text)) => match parse_u128_decimal(text.as_str().as_bytes()) {
            Some(v) => Ok(Some(OracleResponse(Some(v), updated_at as i64))),
            None => Err(Error::EncodingError),
        },
    }
}

/// The json arguments of a registry call on `name`: exactly the bytes
/// `{"name":"<name>","value":"<digits>"}` when a value is supplied, and
/// `{"name":"<name>"}` otherwise.  A valid name never needs escaping.
pub open spec fn spec_near_call_args(name: Seq<u8>, value: Option<u128>) -> Seq<u8> {
    match value {
        Some(v) => vstd::utf8::encode_utf8("{\"name\":\""@) + name + vstd::utf8::encode_utf8(
            "\",\"value\":\""@,
        ) + spec_u128_decimal_bytes(v) + vstd::utf8::encode_utf8("\"}"@),
        None => vstd::utf8::encode_utf8("{\"name\":\""@) + name + vstd::utf8::encode_utf8("\"}"@),
    }
}

/// Builds the json argument bytes of a create, update, delete or read
/// call on `name`.
pub fn near_call_args(name: &[u8], value: Option<u128>) -> (out: Vec<u8>)
    requires
        valid_name(name@),
    ensures
        out@ == spec_near_call_args(name@, value),
{
    let mut out = vstd::slice::slice_to_vec("{\"name\":\"".as_bytes());
    let mut name_part = vstd::slice::slice_to_vec(name);
    out.append(&mut name_part);
    match value {
        Some(v) => {
            let mut infix = vstd::slice::slice_to_vec("\",\"value\":\"".as_bytes());
            out.append(&mut infix);
            let mut digits = u128_decimal_bytes(v);
            out.append(&mut digits);
            let mut tail = vstd::slice::slice_to_vec("\"}".as_bytes());
            out.append(&mut tail);
        },
        None => {
            let mut tail = vstd::slice::slice_to_vec("\"}".as_bytes());
            out.append(&mut tail);
        },
    }
    proof {
        assert(out@ =~= spec_near_call_args(name@, value));
    }
    out
}

} // verus!
