use vvtec::client::{prepare_create, Network, Snapshot};
use vvtec::errors::Error;

#[test]
fn it_works() {
    assert_eq!(2 + 2, 4);
}

#[test]
fn network_urls_are_fixed_per_network() {
    assert_eq!(Network::Devnet.rpc_url(), "https://api.devnet.solana.com");
    assert_eq!(Network::Testnet.rpc_url(), "https://api.testnet.solana.com");
    assert_eq!(Network::Mainnet.rpc_url(), "https://api.mainnet-beta.solana.com");
    assert_eq!(Network::Devnet.ws_url(), "wss://api.devnet.solana.com");
    assert_eq!(Network::Testnet.ws_url(), "wss://api.testnet.solana.com");
    assert_eq!(Network::Mainnet.ws_url(), "wss://api.mainnet-beta.solana.com");
}

#[test]
fn network_custom_carries_its_endpoints() {
    let n = Network::Custom("http://localhost:8899".to_string(), "ws://localhost:8900".to_string());
    assert_eq!(n.rpc_url(), "http://localhost:8899");
    assert_eq!(n.ws_url(), "ws://localhost:8900");
}

#[test]
fn snapshot_render_shows_value_and_time() {
    assert_eq!(Snapshot(Some(5), 9).render(), "5 @ 1970-01-01 00:00:09");
    assert_eq!(Snapshot(None, 1234567890).render(), "<null> @ 2009-02-13 23:31:30");
    assert_eq!(Snapshot(Some(0), -3).render(), "0 @ 1969-12-31 23:59:57");
    assert_eq!(
        Snapshot(Some(u128::MAX), 0).render(),
        "340282366920938463463374607431768211455 @ 1970-01-01 00:00:00"
    );
}

#[test]
fn prepare_create_validates_and_derives() {
    let program = [7u8; 32];
    let owner = [1u8; 32];
    let payer = [2u8; 32];
    let ok = prepare_create(b"feed1", &owner, &payer, Some(1), &program).unwrap();
    let (id, feed) = ok;
    assert_eq!(feed.owner, owner.to_vec());
    let mut padded = b"feed1".to_vec();
    padded.resize(32, 0);
    assert_eq!(feed.name, padded);
    assert_eq!(feed.value, Some(1));
    assert_eq!(id.address_bytes().len(), 32);

    let again = prepare_create(b"feed1", &owner, &payer, Some(1), &program).unwrap();
    assert_eq!(again.0.address_bytes(), id.address_bytes());
}

#[test]
fn prepare_create_rejects_bad_requests() {
    let program = [7u8; 32];
    let owner = [1u8; 32];
    let payer = [2u8; 32];
    let zero = [0u8; 32];
    assert_eq!(
        prepare_create(b"Feed1", &owner, &payer, None, &program).unwrap_err(),
        Error::InvalidName
    );
    assert_eq!(
        prepare_create(b"feed1", &zero, &payer, None, &program).unwrap_err(),
        Error::MissingAuthorization
    );
    assert_eq!(
        prepare_create(b"feed1", &owner, &zero, None, &program).unwrap_err(),
        Error::MissingAuthorization
    );
}

#[test]
fn error_messages_name_the_condition() {
    assert_eq!(Error::NotFound.message(), "unknown feed");
    assert_eq!(Error::AlreadyExists.message(), "feed already exists");
    assert_eq!(Error::OwnerMismatch.message(), "missing feed owner signature");
}
