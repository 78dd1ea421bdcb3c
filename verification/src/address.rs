//! Identity derivation: from a feed name to its storage address.
//!
//! The padded name is the single seed of a program-derived-address
//! search, parameterized by the deployment's 32-byte program identity.
//! The search is a pure function of those bytes, so the derived identity
//! of a name never depends on the owner, the value, or call order.

use vstd::prelude::*;

use crate::errors::Error;
use crate::name::{name_bytes, pad_name, valid_name, lemma_pad_name_injective};

verus! {

/// What the program-derived-address search returns for one 32-byte seed
/// and a program identity: a 32-byte address, or nothing in the
/// statistically improbable event that no bump byte works.  The search
/// walks sha-256 digests of the seed, a bump byte and the program id, so
/// its result is a function of these bytes alone.
pub uninterp spec fn derived_feed_address(seed: Seq<u8>, program: Seq<u8>) -> Option<Seq<u8>>;

/// Relies on solana_program's `Pubkey::try_find_program_address` with the
/// padded name as the single seed: a deterministic search over sha-256
/// digests, returning `None` instead of panicking when no bump byte
/// yields an address.
#[verifier::external_body]
pub(crate) fn try_find_feed_address(seed: &[u8], program: &[u8]) -> (r: Option<Vec<u8>>)
    requires
        seed@.len() == 32,
        program@.len() == 32,
    ensures
        r is Some <==> derived_feed_address(seed@, program@) is Some,
        r matches Some(a) ==> Some(a@) == derived_feed_address(seed@, program@) && a@.len() == 32,
{
    let mut program_bytes = [0u8; 32];
    program_bytes.copy_from_slice(program);
    let program_id = solana_program::pubkey::Pubkey::new_from_array(program_bytes);
    solana_program::pubkey::Pubkey::try_find_program_address(&[seed], &program_id)
        .map(|(address, _bump)| address.to_bytes().to_vec())
}

/// What base58 address parsing returns for a string: the decoded 32
/// bytes, or nothing when the text is not a well-formed address.  The
/// decoding is a pure function of the characters alone.
pub uninterp spec fn base58_decoded_address(text: Seq<char>) -> Option<Seq<u8>>;

/// Relies on solana_program's `FromStr` impl for `Pubkey`: base58
/// decoding into exactly 32 bytes, rejecting malformed text with an
/// error rather than a panic.
#[verifier::external_body]
fn parse_address_text(text: &str) -> (r: Option<Vec<u8>>)
    ensures
        r is Some <==> base58_decoded_address(text@) is Some,
        r matches Some(a) ==> Some(a@) == base58_decoded_address(text@) && a@.len() == 32,
{
    <solana_program::pubkey::Pubkey as core::str::FromStr>::from_str(text)
        .ok()
        .map(|address| address.to_bytes().to_vec())
}

/// What base58 address rendering returns for 32 address bytes: their
/// textual form.  The rendering is a pure function of the bytes alone.
pub uninterp spec fn base58_encoded_address(address: Seq<u8>) -> Seq<char>;

/// Relies on solana_program's `Display` impl for `Pubkey`: base58
/// encoding of the 32 address bytes, a pure function of the bytes alone.
#[verifier::external_body]
fn render_address_text(address: &[u8]) -> (r: String)
    requires
        address@.len() == 32,
    ensures
        r@ == base58_encoded_address(address@),
{
    let mut bytes = [0u8; 32];
    bytes.copy_from_slice(address);
    solana_program::pubkey::Pubkey::new_from_array(bytes).to_string()
}

/// A feed's storage address within a deployment.
#[derive(Clone, Debug, PartialEq, Eq)]
pub struct OracleId {
    bytes: Vec<u8>,
}

impl View for OracleId {
    type V = Seq<u8>;

    closed spec fn view(&self) -> Seq<u8> {
        self.bytes@
    }
}

impl OracleId {
    /// A well-formed address holds exactly 32 bytes.
    pub open spec fn wf(&self) -> bool {
        self@.len() == 32
    }

    /// Wraps an already-known 32-byte storage address.
    pub fn from_address(address: Vec<u8>) -> (r: OracleId)
        requires
            address@.len() == 32,
        ensures
            r@ == address@,
            r.wf(),
    {
        OracleId { bytes: address }
    }

    /// Derives the address of `name` under the deployment identity
    /// `program`: the padded name is the seed of the derivation, so the
    /// result depends on the name and deployment alone.
    pub fn from_name(name: &[u8], program: &[u8]) -> (r: Option<OracleId>)
        requires
            name@.len() <= 32,
            program@.len() == 32,
        ensures
            r is Some <==> derived_feed_address(pad_name(name@), program@) is Some,
            r matches Some(id) ==> Some(id@) == derived_feed_address(pad_name(name@), program@)
                && id.wf(),
    {
        let padded = name_bytes(name);
        match try_find_feed_address(padded.as_slice(), program) {
            Some(address) => Some(OracleId { bytes: address }),
            None => None,
        }
    }

    /// Resolves caller-supplied text: a base58 address is taken as is;
    /// anything else is treated as a feed name and derived, provided it
    /// fits the 32-byte width.
    pub fn from_text(text: &str, program: &[u8]) -> (r: Result<OracleId, Error>)
        requires
            program@.len() == 32,
        ensures
            base58_decoded_address(text@) matches Some(a) ==> (r matches Ok(id) && id@ == a),
            base58_decoded_address(text@) is None && seq_chars_as_bytes(text@).len() > 32 ==> r
                == Err::<OracleId, Error>(Error::InvalidName),
            base58_decoded_address(text@) is None && seq_chars_as_bytes(text@).len() <= 32
                ==> match r {
                Ok(id) => Some(id@) == derived_feed_address(
                    pad_name(seq_chars_as_bytes(text@)),
                    program@,
                ),
                Err(e) => e == Error::NotFound && derived_feed_address(
                    pad_name(seq_chars_as_bytes(text@)),
                    program@,
                ) is None,
            },
            r matches Ok(id) ==> id.wf(),
    {
        match parse_address_text(text) {
            Some(address) => Ok(OracleId { bytes: address }),
            None => {
                let name = text.as_bytes();
                if name.len() > 32 {
                    return Err(Error::InvalidName);
                }
                match OracleId::from_name(name, program) {
                    Some(id) => Ok(id),
                    None => Err(Error::NotFound),
                }
            },
        }
    }

    /// The raw 32 address bytes.
    pub fn address_bytes(&self) -> (r: &[u8])
        ensures
            r@ == self@,
    {
        self.bytes.as_slice()
    }

    /// The address in its base58 textual form.
    pub fn to_text(&self) -> (r: String)
        ensures
            self.wf() ==> r@ == base58_encoded_address(self@),
    {
        if self.bytes.len() == 32 {
            render_address_text(self.bytes.as_slice())
        } else {
            String::new()
        }
    }
}

/// The bytes a character sequence denotes in the fixed-width name field.
pub open spec fn seq_chars_as_bytes(text: Seq<char>) -> Seq<u8> {
    vstd::utf8::encode_utf8(text)
}

/// Determinism of derivation: the derived identity is a function of the
/// name and the deployment identity alone — any two derivations of the
/// same name under the same deployment agree.
pub proof fn lemma_derivation_deterministic(
    name: Seq<u8>,
    program: Seq<u8>,
    a: Option<Seq<u8>>,
    b: Option<Seq<u8>>,
)
    requires
        a == derived_feed_address(pad_name(name), program),
        b == derived_feed_address(pad_name(name), program),
    ensures
        a == b,
{
}

/// Uniqueness groundwork: distinct valid names always present distinct
/// 32-byte seeds to the derivation, so two names can only collide if the
/// outside sha-256 search itself collides on distinct seeds.
pub proof fn lemma_distinct_names_distinct_seeds(a: Seq<u8>, b: Seq<u8>)
    requires
        valid_name(a),
        valid_name(b),
        a != b,
    ensures
        pad_name(a) != pad_name(b),
{
    lemma_pad_name_injective(a, b);
}

} // verus!
