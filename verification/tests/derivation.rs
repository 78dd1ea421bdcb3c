use vvtec::address::OracleId;
use vvtec::errors::Error;
use vvtec::name::name_bytes;

const PROGRAM: [u8; 32] = [7u8; 32];

#[test]
fn derivation_is_repeatable() {
    let a = OracleId::from_name(b"feed1", &PROGRAM).unwrap();
    let b = OracleId::from_name(b"feed1", &PROGRAM).unwrap();
    assert_eq!(a.address_bytes(), b.address_bytes());
}

#[test]
fn distinct_names_get_distinct_addresses() {
    let a = OracleId::from_name(b"feed1", &PROGRAM).unwrap();
    let b = OracleId::from_name(b"feed2", &PROGRAM).unwrap();
    let c = OracleId::from_name(b"feed1.x", &PROGRAM).unwrap();
    assert_ne!(a.address_bytes(), b.address_bytes());
    assert_ne!(a.address_bytes(), c.address_bytes());
    assert_ne!(b.address_bytes(), c.address_bytes());
}

#[test]
fn derivation_depends_on_the_deployment() {
    let a = OracleId::from_name(b"feed1", &PROGRAM).unwrap();
    let other_program = [8u8; 32];
    let b = OracleId::from_name(b"feed1", &other_program).unwrap();
    assert_ne!(a.address_bytes(), b.address_bytes());
}

#[test]
fn derived_address_is_not_the_seed() {
    let id = OracleId::from_name(b"feed1", &PROGRAM).unwrap();
    assert_ne!(id.address_bytes(), &name_bytes(b"feed1")[..]);
}

#[test]
fn from_address_keeps_the_bytes() {
    let address = [3u8; 32];
    let id = OracleId::from_address(address.to_vec());
    assert_eq!(id.address_bytes(), &address[..]);
}

#[test]
fn text_resolution_prefers_addresses() {
    // 32 ones is the base58 text of the all-zero address
    let id = OracleId::from_text("11111111111111111111111111111111", &PROGRAM).unwrap();
    assert_eq!(id.address_bytes(), &[0u8; 32][..]);
}

#[test]
fn text_resolution_falls_back_to_names() {
    // an underscore is not a base58 character, so this resolves as a name
    let by_text = OracleId::from_text("feed_1", &PROGRAM).unwrap();
    let by_name = OracleId::from_name(b"feed_1", &PROGRAM).unwrap();
    assert_eq!(by_text.address_bytes(), by_name.address_bytes());

    // a short all-base58 string cannot decode into 32 bytes either
    let by_text = OracleId::from_text("feed1", &PROGRAM).unwrap();
    let by_name = OracleId::from_name(b"feed1", &PROGRAM).unwrap();
    assert_eq!(by_text.address_bytes(), by_name.address_bytes());
}

#[test]
fn addresses_render_in_base58() {
    let zero = OracleId::from_address(vec![0u8; 32]);
    assert_eq!(zero.to_text(), "11111111111111111111111111111111");
    // rendering then resolving returns to the same address
    let id = OracleId::from_name(b"feed1", &PROGRAM).unwrap();
    let round = OracleId::from_text(&id.to_text(), &PROGRAM).unwrap();
    assert_eq!(round.address_bytes(), id.address_bytes());
}

#[test]
fn text_resolution_rejects_oversized_names() {
    let text = "_".repeat(33);
    assert_eq!(OracleId::from_text(&text, &PROGRAM).unwrap_err(), Error::InvalidName);
}
