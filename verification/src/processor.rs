//! The account-ledger substrate's processor: each instruction is checked
//! against the registry rules and turned into an effect on the feed's
//! account — new account bytes to store, or an order to close the
//! account.
//!
//! Accounts reach the processor as plain values: the account's key, its
//! signer flag, the program that owns it, and its data bytes.  The
//! substrate's own duties — allocating the account, funding it, applying
//! the returned bytes atomically — stay outside; the contracts here pin
//! every check and every byte of the result.

use vstd::prelude::*;

use crate::address::{derived_feed_address, try_find_feed_address};
use crate::bytes_util::{bytes_eq, is_zero_key, zero_key};
use crate::codec::{
    decode_instruction, decode_record, encode_record, spec_create_name, spec_create_owner,
    spec_create_value, spec_encode_record, spec_record_name, spec_record_owner, spec_update_value,
    valid_instruction_encoding, valid_record_encoding,
};
use crate::errors::Error;
use crate::name::{
    canonical_name_field, is_canonical_name_field, is_valid_name, strip_padding, unpad_name,
    valid_name,
};
use crate::state::{Oracle, OracleInstruction, Timestamp};

verus! {

/// One account as the processor sees it.
#[derive(Debug)]
pub struct AccountView {
    pub key: Vec<u8>,
    pub is_signer: bool,
    pub owner_program: Vec<u8>,
    pub data: Vec<u8>,
}

/// Ghost mirror of an account.
pub ghost struct AccountModel {
    pub key: Seq<u8>,
    pub is_signer: bool,
    pub owner_program: Seq<u8>,
    pub data: Seq<u8>,
}

impl AccountView {
    /// The account's ghost mirror.
    pub open spec fn model(&self) -> AccountModel {
        AccountModel {
            key: self.key@,
            is_signer: self.is_signer,
            owner_program: self.owner_program@,
            data: self.data@,
        }
    }

    /// Keys and owning programs are 32 bytes wide.
    pub open spec fn wf(&self) -> bool {
        &&& self.key@.len() == 32
        &&& self.owner_program@.len() == 32
    }
}

/// What applying an instruction asks the substrate to do to the feed's
/// account.
#[derive(Debug)]
pub enum Effect {
    Write(Vec<u8>),
    Close,
}

/// The create transition over one account's plain values: the payer must
/// sign, the owner account must not be the zero identity, the 32-byte
/// name field must be the canonical zero-padding of a valid name, the
/// target account must be the name's derived address, and the slot must
/// still be empty; the new account bytes are then the encoded record,
/// stamped `now`.  Rejecting non-canonical fields keeps one address per
/// display name: a field with bytes after its first zero would derive a
/// second slot showing the same name.
pub open spec fn create_transition(
    program_id: Seq<u8>,
    payer_signer: bool,
    owner_key: Seq<u8>,
    oracle_key: Seq<u8>,
    existing: Seq<u8>,
    owner: Seq<u8>,
    name: Seq<u8>,
    value: Option<u128>,
    now: Timestamp,
) -> Result<Seq<u8>, Error> {
    if !payer_signer {
        Err(Error::MissingAuthorization)
    } else if owner_key == zero_key() {
        Err(Error::MissingAuthorization)
    } else if !valid_name(strip_padding(name)) || !canonical_name_field(name) {
        Err(Error::InvalidName)
    } else if derived_feed_address(name, program_id) != Some(oracle_key) {
        Err(Error::NotFound)
    } else if existing.len() != 0 {
        Err(Error::AlreadyExists)
    } else {
        Ok(spec_encode_record(owner, name, now, value))
    }
}

/// The shared account check before any mutation: the account must hold
/// data, belong to this program, decode as a record, and be initialized
/// (a stored owner that is not the zero identity).
pub open spec fn account_data_check(
    data: Seq<u8>,
    account_owner: Seq<u8>,
    program_id: Seq<u8>,
) -> Result<(), Error> {
    if data.len() == 0 {
        Err(Error::NotFound)
    } else if account_owner != program_id {
        Err(Error::OwnerMismatch)
    } else if !valid_record_encoding(data) {
        Err(Error::EncodingError)
    } else if spec_record_owner(data) == zero_key() {
        Err(Error::NotFound)
    } else {
        Ok(())
    }
}

/// The update transition: the caller must sign and be the stored owner;
/// the new account bytes keep the owner and name, and carry the new
/// value and timestamp.
pub open spec fn update_transition(
    program_id: Seq<u8>,
    caller_key: Seq<u8>,
    caller_signer: bool,
    account_owner: Seq<u8>,
    data: Seq<u8>,
    value: Option<u128>,
    now: Timestamp,
) -> Result<Seq<u8>, Error> {
    if caller_key == zero_key() {
        Err(Error::MissingAuthorization)
    } else if !caller_signer {
        Err(Error::MissingAuthorization)
    } else {
        match account_data_check(data, account_owner, program_id) {
            Err(e) => Err(e),
            Ok(()) => if spec_record_owner(data) != caller_key {
                Err(Error::OwnerMismatch)
            } else {
                Ok(spec_encode_record(spec_record_owner(data), spec_record_name(data), now, value))
            },
        }
    }
}

/// The delete transition: the caller must sign and be the stored owner;
/// success orders the account closed, which erases the record and frees
/// the name.
pub open spec fn delete_transition(
    program_id: Seq<u8>,
    caller_key: Seq<u8>,
    caller_signer: bool,
    account_owner: Seq<u8>,
    data: Seq<u8>,
) -> Result<(), Error> {
    if caller_key == zero_key() {
        Err(Error::MissingAuthorization)
    } else if !caller_signer {
        Err(Error::MissingAuthorization)
    } else {
        match account_data_check(data, account_owner, program_id) {
            Err(e) => Err(e),
            Ok(()) => if spec_record_owner(data) != caller_key {
                Err(Error::OwnerMismatch)
            } else {
                Ok(())
            },
        }
    }
}

/// Create-then-read at the account level: the bytes a successful create
/// writes are a valid record carrying exactly the requested owner, name
/// and value, stamped with the substrate clock.
pub proof fn lemma_create_writes_the_record(
    program_id: Seq<u8>,
    payer_signer: bool,
    owner_key: Seq<u8>,
    oracle_key: Seq<u8>,
    existing: Seq<u8>,
    owner: Seq<u8>,
    name: Seq<u8>,
    value: Option<u128>,
    now: Timestamp,
)
    requires
        owner.len() == 32,
        name.len() == 32,
        create_transition(
            program_id,
            payer_signer,
            owner_key,
            oracle_key,
            existing,
            owner,
            name,
            value,
            now,
        ) is Ok,
    ensures
        ({
            let out = create_transition(
                program_id,
                payer_signer,
                owner_key,
                oracle_key,
                existing,
                owner,
                name,
                value,
                now,
            )->Ok_0;
            &&& crate::codec::valid_record_encoding(out)
            &&& spec_record_owner(out) == owner
            &&& spec_record_name(out) == name
            &&& crate::codec::spec_record_updated_at(out) == now
            &&& crate::codec::spec_record_value(out) == value
        }),
{
    crate::codec::lemma_record_accessors(owner, name, now, value);
}

/// An update transfers nothing: the bytes a successful update writes
/// keep the stored owner — the caller — and the name byte for byte, and
/// replace exactly the value and the timestamp.
pub proof fn lemma_update_preserves_identity(
    program_id: Seq<u8>,
    caller_key: Seq<u8>,
    caller_signer: bool,
    account_owner: Seq<u8>,
    data: Seq<u8>,
    value: Option<u128>,
    now: Timestamp,
)
    requires
        update_transition(
            program_id,
            caller_key,
            caller_signer,
            account_owner,
            data,
            value,
            now,
        ) is Ok,
    ensures
        ({
            let out = update_transition(
                program_id,
                caller_key,
                caller_signer,
                account_owner,
                data,
                value,
                now,
            )->Ok_0;
            &&& crate::codec::valid_record_encoding(out)
            &&& spec_record_owner(out) == spec_record_owner(data)
            &&& spec_record_owner(out) == caller_key
            &&& spec_record_name(out) == spec_record_name(data)
            &&& crate::codec::spec_record_updated_at(out) == now
            &&& crate::codec::spec_record_value(out) == value
        }),
{
    crate::codec::lemma_record_accessors(
        spec_record_owner(data),
        spec_record_name(data),
        now,
        value,
    );
}

/// Reads and checks a feed account's data before a mutation.
pub fn get_account_data(data: &[u8], account_owner: &[u8], program_id: &[u8]) -> (r: Result<
    Oracle,
    Error,
>)
    requires
        account_owner@.len() == 32,
        program_id@.len() == 32,
    ensures
        r is Ok <==> account_data_check(data@, account_owner@, program_id@) is Ok,
        r matches Err(e) ==> Err::<(), Error>(e) == account_data_check(
            data@,
            account_owner@,
            program_id@,
        ),
        r matches Ok(o) ==> o.wf() && data@ == spec_encode_record(
            o.owner@,
            o.name@,
            o.updated_at,
            o.value,
        ) && o.owner@ == spec_record_owner(data@) && o.name@ == spec_record_name(data@)
            && o.owner@ != zero_key(),
{
    if data.len() == 0 {
        return Err(Error::NotFound);
    }
    if !bytes_eq(account_owner, program_id) {
        return Err(Error::OwnerMismatch);
    }
    let record = match decode_record(data) {
        Ok(record) => record,
        Err(_) => {
            return Err(Error::EncodingError);
        },
    };
    if is_zero_key(record.owner.as_slice()) {
        return Err(Error::NotFound);
    }
    Ok(record)
}

/// Handles a create instruction: validates the request and produces the
/// new account bytes for the feed's slot.
pub fn process_create(
    program_id: &[u8],
    payer: &AccountView,
    owner: &AccountView,
    oracle: &AccountView,
    feed: &crate::state::Feed,
    now: Timestamp,
) -> (r: Result<Vec<u8>, Error>)
    requires
        program_id@.len() == 32,
        payer.wf(),
        owner.wf(),
        oracle.wf(),
        feed.wf(),
    ensures
        ({
            let outcome = create_transition(
                program_id@,
                payer.is_signer,
                owner.key@,
                oracle.key@,
                oracle.data@,
                feed.owner@,
                feed.name@,
                feed.value,
                now,
            );
            &&& r is Ok <==> outcome is Ok
            &&& (r matches Ok(d) ==> Ok::<Seq<u8>, Error>(d@) == outcome)
            &&& (r matches Err(e) ==> Err::<Seq<u8>, Error>(e) == outcome)
        }),
{
    if !payer.is_signer {
        return Err(Error::MissingAuthorization);
    }
    if is_zero_key(owner.key.as_slice()) {
        return Err(Error::MissingAuthorization);
    }
    let display_name = unpad_name(feed.name.as_slice());
    if !is_valid_name(display_name.as_slice()) {
        return Err(Error::InvalidName);
    }
    if !is_canonical_name_field(feed.name.as_slice()) {
        return Err(Error::InvalidName);
    }
    match try_find_feed_address(feed.name.as_slice(), program_id) {
        None => Err(Error::NotFound),
        Some(expected) => {
            if !bytes_eq(expected.as_slice(), oracle.key.as_slice()) {
                return Err(Error::NotFound);
            }
            if oracle.data.len() != 0 {
                return Err(Error::AlreadyExists);
            }
            let record = Oracle {
                owner: vstd::slice::slice_to_vec(feed.owner.as_slice()),
                name: vstd::slice::slice_to_vec(feed.name.as_slice()),
                updated_at: now,
                value: feed.value,
            };
            Ok(encode_record(&record))
        },
    }
}

/// Handles an update instruction: checks the caller against the stored
/// owner and produces the account's new bytes.
pub fn process_update(
    program_id: &[u8],
    caller: &AccountView,
    oracle: &AccountView,
    value: Option<u128>,
    now: Timestamp,
) -> (r: Result<Vec<u8>, Error>)
    requires
        program_id@.len() == 32,
        caller.wf(),
        oracle.wf(),
    ensures
        ({
            let outcome = update_transition(
                program_id@,
                caller.key@,
                caller.is_signer,
                oracle.owner_program@,
                oracle.data@,
                value,
                now,
            );
            &&& r is Ok <==> outcome is Ok
            &&& (r matches Ok(d) ==> Ok::<Seq<u8>, Error>(d@) == outcome)
            &&& (r matches Err(e) ==> Err::<Seq<u8>, Error>(e) == outcome)
        }),
{
    if is_zero_key(caller.key.as_slice()) {
        return Err(Error::MissingAuthorization);
    }
    if !caller.is_signer {
        return Err(Error::MissingAuthorization);
    }
    let mut record = match get_account_data(
        oracle.data.as_slice(),
        oracle.owner_program.as_slice(),
        program_id,
    ) {
        Ok(record) => record,
        Err(e) => {
            return Err(e);
        },
    };
    if !bytes_eq(record.owner.as_slice(), caller.key.as_slice()) {
        return Err(Error::OwnerMismatch);
    }
    record.value = value;
    record.updated_at = now;
    Ok(encode_record(&record))
}

/// Handles a delete instruction: checks the caller against the stored
/// owner; success means the account is to be closed.
pub fn process_delete(program_id: &[u8], caller: &AccountView, oracle: &AccountView) -> (r: Result<
    (),
    Error,
>)
    requires
        program_id@.len() == 32,
        caller.wf(),
        oracle.wf(),
    ensures
        r == delete_transition(
            program_id@,
            caller.key@,
            caller.is_signer,
            oracle.owner_program@,
            oracle.data@,
        ),
{
    if is_zero_key(caller.key.as_slice()) {
        return Err(Error::MissingAuthorization);
    }
    if !caller.is_signer {
        return Err(Error::MissingAuthorization);
    }
    let record = match get_account_data(
        oracle.data.as_slice(),
        oracle.owner_program.as_slice(),
        program_id,
    ) {
        Ok(record) => record,
        Err(e) => {
            return Err(e);
        },
    };
    if !bytes_eq(record.owner.as_slice(), caller.key.as_slice()) {
        return Err(Error::OwnerMismatch);
    }
    Ok(())
}

/// The whole program step over instruction bytes: decode, pick the
/// accounts each instruction expects, run its transition.  A request
/// whose bytes or account list are malformed is an `EncodingError`.
pub open spec fn instruction_outcome(
    program_id: Seq<u8>,
    accounts: Seq<AccountModel>,
    b: Seq<u8>,
    now: Timestamp,
) -> Result<Option<Seq<u8>>, Error> {
    if !valid_instruction_encoding(b) {
        Err(Error::EncodingError)
    } else if b[0] == 0 {
        if accounts.len() < 3 {
            Err(Error::EncodingError)
        } else {
            match create_transition(
                program_id,
                accounts[0].is_signer,
                accounts[1].key,
                accounts[2].key,
                accounts[2].data,
                spec_create_owner(b),
                spec_create_name(b),
                spec_create_value(b),
                now,
            ) {
                Ok(d) => Ok(Some(d)),
                Err(e) => Err(e),
            }
        }
    } else if b[0] == 1 {
        if accounts.len() < 2 {
            Err(Error::EncodingError)
        } else {
            match update_transition(
                program_id,
                accounts[0].key,
                accounts[0].is_signer,
                accounts[1].owner_program,
                accounts[1].data,
                spec_update_value(b),
                now,
            ) {
                Ok(d) => Ok(Some(d)),
                Err(e) => Err(e),
            }
        }
    } else {
        if accounts.len() < 2 {
            Err(Error::EncodingError)
        } else {
            match delete_transition(
                program_id,
                accounts[0].key,
                accounts[0].is_signer,
                accounts[1].owner_program,
                accounts[1].data,
            ) {
                Ok(()) => Ok(None),
                Err(e) => Err(e),
            }
        }
    }
}

/// The accounts' ghost mirrors, in order.
pub open spec fn account_models(accounts: Seq<AccountView>) -> Seq<AccountModel> {
    accounts.map(|i: int, a: AccountView| a.model())
}

/// Entry point of the account-ledger substrate: decodes the instruction
/// bytes and applies the matching transition to the accounts handed in.
pub fn process_instruction(
    program_id: &[u8],
    accounts: &Vec<AccountView>,
    instruction_data: &[u8],
    now: Timestamp,
) -> (r: Result<Effect, Error>)
    requires
        program_id@.len() == 32,
        forall|i: int| 0 <= i < accounts@.len() ==> #[trigger] accounts@[i].wf(),
    ensures
        ({
            let outcome = instruction_outcome(
                program_id@,
                account_models(accounts@),
                instruction_data@,
                now,
            );
            &&& r is Ok <==> outcome is Ok
            &&& (r matches Ok(Effect::Write(d)) ==> Ok::<Option<Seq<u8>>, Error>(Some(d@))
                == outcome)
            &&& (r matches Ok(e) && e is Close ==> Ok::<Option<Seq<u8>>, Error>(None) == outcome)
            &&& (r matches Err(e) ==> Err::<Option<Seq<u8>>, Error>(e) == outcome)
        }),
{
    let instruction = match decode_instruction(instruction_data) {
        Ok(instruction) => instruction,
        Err(_) => {
            return Err(Error::EncodingError);
        },
    };
    match instruction {
        OracleInstruction::Create { feed, balance: _balance } => {
            if accounts.len() < 3 {
                return Err(Error::EncodingError);
            }
            match process_create(program_id, &accounts[0], &accounts[1], &accounts[2], &feed, now) {
                Ok(d) => Ok(Effect::Write(d)),
                Err(e) => Err(e),
            }
        },
        OracleInstruction::Update(value) => {
            if accounts.len() < 2 {
                return Err(Error::EncodingError);
            }
            match process_update(program_id, &accounts[0], &accounts[1], value, now) {
                Ok(d) => Ok(Effect::Write(d)),
                Err(e) => Err(e),
            }
        },
        OracleInstruction::Delete => {
            if accounts.len() < 2 {
                return Err(Error::EncodingError);
            }
            match process_delete(program_id, &accounts[0], &accounts[1]) {
                Ok(()) => Ok(Effect::Close),
                Err(e) => Err(e),
            }
        },
    }
}

} // verus!
