//! The stored feed record and the on-chain instruction set.

use vstd::prelude::*;

verus! {

/// Substrate epoch time, 64-bit signed, in substrate-defined units.
pub type Timestamp = i64;

/// The feed record as stored in an account: the owner's fixed-width
/// identity, the zero-padded name, the time of the most recent write, and
/// the optional value.
#[derive(Debug)]
pub struct Oracle {
    pub owner: Vec<u8>,
    pub name: Vec<u8>,
    pub updated_at: Timestamp,
    pub value: Option<u128>,
}

impl Oracle {
    /// Both fixed-width fields hold exactly 32 bytes.
    pub open spec fn wf(&self) -> bool {
        &&& self.owner@.len() == 32
        &&& self.name@.len() == 32
    }
}

/// The payload a `create` instruction carries: the record without a
/// timestamp, which only the substrate clock may assign.
#[derive(Debug)]
pub struct Feed {
    pub owner: Vec<u8>,
    pub name: Vec<u8>,
    pub value: Option<u128>,
}

impl Feed {
    /// Both fixed-width fields hold exactly 32 bytes.
    pub open spec fn wf(&self) -> bool {
        &&& self.owner@.len() == 32
        &&& self.name@.len() == 32
    }
}

/// The instructions the native program processes.
#[derive(Debug)]
pub enum OracleInstruction {
    Create { feed: Feed, balance: u64 },
    Update(Option<u128>),
    Delete,
}

} // verus!
