use vvtec::errors::Error;
use vvtec::near::{interpret_read_response, near_call_args, NearNetwork, ReadResult};
use vvtec::sdk::{OracleInfo, OracleResponse};
use vvtec::solana::SolanaNetwork;

#[test]
fn near_call_args_are_exact_json() {
    assert_eq!(
        near_call_args(b"feed1", Some(1)),
        br#"{"name":"feed1","value":"1"}"#.to_vec()
    );
    assert_eq!(
        near_call_args(b"crypto.sol.usdt", Some(u128::MAX)),
        br#"{"name":"crypto.sol.usdt","value":"340282366920938463463374607431768211455"}"#
            .to_vec()
    );
    assert_eq!(near_call_args(b"feed1", None), br#"{"name":"feed1"}"#.to_vec());
}

#[test]
fn read_responses_are_interpreted() {
    // an unknown feed is a normal result value, not an error
    assert_eq!(interpret_read_response(&ReadResult::UnknownFeed, 5).unwrap(), None);
    assert_eq!(
        interpret_read_response(&ReadResult::KnownFeed(None), 5).unwrap(),
        Some(OracleResponse(None, 5))
    );
    assert_eq!(
        interpret_read_response(&ReadResult::KnownFeed(Some("123".to_string())), 9).unwrap(),
        Some(OracleResponse(Some(123), 9))
    );
    assert_eq!(
        interpret_read_response(&ReadResult::KnownFeed(Some("12x3".to_string())), 9).unwrap_err(),
        Error::EncodingError
    );
    assert_eq!(
        interpret_read_response(
            &ReadResult::KnownFeed(Some("340282366920938463463374607431768211456".to_string())),
            9
        )
        .unwrap_err(),
        Error::EncodingError
    );
}

#[test]
fn near_network_slugs_round_trip() {
    for n in [NearNetwork::Mainnet, NearNetwork::Testnet, NearNetwork::Betanet] {
        assert_eq!(NearNetwork::from_slug(n.slug()), Some(n));
    }
    assert_eq!(NearNetwork::from_slug("devnet"), None);
    assert_eq!(NearNetwork::from_slug(""), None);
}

#[test]
fn near_network_endpoints() {
    assert_eq!(NearNetwork::Testnet.rpc_endpoint(), "https://rpc.testnet.near.org");
    assert_eq!(NearNetwork::Mainnet.rpc_endpoint(), "https://rpc.mainnet.near.org");
    assert_eq!(NearNetwork::Testnet.contract_id(), "rocalex-oracle.testnet");
}

#[test]
fn solana_network_slugs_round_trip() {
    for n in [SolanaNetwork::Testnet, SolanaNetwork::Devnet, SolanaNetwork::Mainnet] {
        assert_eq!(SolanaNetwork::from_slug(n.slug()), Some(n));
    }
    assert_eq!(SolanaNetwork::from_slug("betanet"), None);
}

#[test]
fn solana_name_bytes_are_padded() {
    let padded = SolanaNetwork::Devnet.get_name_bytes(b"feed1");
    assert_eq!(padded.len(), 32);
    assert_eq!(&padded[..5], b"feed1");
    assert!(padded[5..].iter().all(|b| *b == 0));
}

#[test]
fn dispatcher_resolves_known_pairs_only() {
    assert_eq!(
        OracleInfo::from_slug("solana", "devnet"),
        Some(OracleInfo::Solana(SolanaNetwork::Devnet))
    );
    assert_eq!(
        OracleInfo::from_slug("near", "testnet"),
        Some(OracleInfo::Near(NearNetwork::Testnet))
    );
    // near has no devnet, and unknown platforms resolve to nothing
    assert_eq!(OracleInfo::from_slug("near", "devnet"), None);
    assert_eq!(OracleInfo::from_slug("solana", "betanet"), None);
    assert_eq!(OracleInfo::from_slug("cosmos", "testnet"), None);
    assert_eq!(OracleInfo::from_slug("", ""), None);
}
