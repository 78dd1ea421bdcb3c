use vvtec::errors::Error;
use vvtec::registry::{ReadResult, Vvtec};

const ALICE: &[u8] = b"alice.test";
const BOB: &[u8] = b"bob.test";
const CAROL: &[u8] = b"carol.test";

#[test]
fn lib_it_works() {
    let result = 2 + 2;
    assert_eq!(result, 4);
}

#[test]
fn test_contract() {
    let mut registry = Vvtec::new();

    // The initial number of feeds is zero.
    assert_eq!(registry.num_feeds(), 0);

    // Value of unknown feed.
    assert_eq!(registry.read(b"dummy").0, ReadResult::UnknownFeed);

    // Create a feed.
    registry.create(ALICE, 1_000, b"feed1", Some(1)).unwrap();

    // check initial feed value
    assert_eq!(registry.read(b"feed1").0, ReadResult::KnownFeed(Some(1)));

    // Create another feed.
    registry.create(BOB, 1_001, b"feed2", Some(u128::MAX)).unwrap();

    // check initial feed value
    assert_eq!(registry.read(b"feed2").0, ReadResult::KnownFeed(Some(u128::MAX)));

    // Create third feed.
    registry.create(ALICE, 1_002, b"feed3", None).unwrap();

    // check initial feed value
    assert_eq!(registry.read(b"feed3").0, ReadResult::KnownFeed(None));

    // Now there are three feeds,
    assert_eq!(registry.num_feeds(), 3);

    // Client shouldn't be able to create existing feed.
    let result = registry.create(ALICE, 1_003, b"feed1", Some(0));
    assert_eq!(result.unwrap_err(), Error::AlreadyExists);

    // check that feed1 value is not affected
    assert_eq!(registry.read(b"feed1").0, ReadResult::KnownFeed(Some(1)));

    // There are still three feeds
    assert_eq!(registry.num_feeds(), 3);

    // Update feed value
    registry.update(ALICE, 1_004, b"feed1", Some(0)).unwrap();
    assert_eq!(registry.read(b"feed1").0, ReadResult::KnownFeed(Some(0)));

    // Only owner should be able to update a feed.
    let result = registry.update(ALICE, 1_005, b"feed2", None);
    assert_eq!(result.unwrap_err(), Error::OwnerMismatch);

    // Update feed that does not exist
    let result = registry.update(ALICE, 1_006, b"feed4", Some(0));
    assert_eq!(result.unwrap_err(), Error::NotFound);

    // Delete feed
    registry.delete(ALICE, b"feed3").unwrap();
    assert_eq!(registry.read(b"feed3").0, ReadResult::UnknownFeed);

    // Only owner should be able to delete a feed.
    let result = registry.delete(ALICE, b"feed2");
    assert_eq!(result.unwrap_err(), Error::OwnerMismatch);

    // Delete another feed
    registry.delete(BOB, b"feed2").unwrap();
    assert_eq!(registry.read(b"feed3").0, ReadResult::UnknownFeed);

    // Now there is one feed left
    assert_eq!(registry.num_feeds(), 1);

    // Delete feed that does not exist
    let result = registry.delete(ALICE, b"feed3");
    assert_eq!(result.unwrap_err(), Error::NotFound);
}

#[test]
fn create_then_read_returns_the_record() {
    let mut registry = Vvtec::new();
    registry.create(ALICE, 42, b"feed1", Some(1)).unwrap();
    assert_eq!(registry.read(b"feed1"), (ReadResult::KnownFeed(Some(1)), 42));
}

#[test]
fn duplicate_create_keeps_the_original() {
    let mut registry = Vvtec::new();
    registry.create(ALICE, 1, b"feed1", Some(1)).unwrap();
    assert_eq!(registry.create(BOB, 2, b"feed1", Some(9)).unwrap_err(), Error::AlreadyExists);
    assert_eq!(registry.read(b"feed1"), (ReadResult::KnownFeed(Some(1)), 1));
}

#[test]
fn update_by_stranger_is_rejected() {
    let mut registry = Vvtec::new();
    registry.create(ALICE, 1, b"feed1", Some(1)).unwrap();
    assert_eq!(registry.update(BOB, 2, b"feed1", Some(2)).unwrap_err(), Error::OwnerMismatch);
    assert_eq!(registry.read(b"feed1"), (ReadResult::KnownFeed(Some(1)), 1));
}

#[test]
fn delete_then_recreate_with_new_owner() {
    let mut registry = Vvtec::new();
    registry.create(ALICE, 10, b"feed1", Some(1)).unwrap();
    registry.delete(ALICE, b"feed1").unwrap();
    assert_eq!(registry.read(b"feed1"), (ReadResult::UnknownFeed, 0));
    registry.create(CAROL, 11, b"feed1", None).unwrap();
    assert_eq!(registry.read(b"feed1"), (ReadResult::KnownFeed(None), 11));
    // the recreated feed belongs to the new owner
    assert_eq!(registry.update(ALICE, 12, b"feed1", Some(5)).unwrap_err(), Error::OwnerMismatch);
    registry.update(CAROL, 12, b"feed1", Some(5)).unwrap();
}

#[test]
fn name_validation_boundaries() {
    let mut registry = Vvtec::new();
    assert_eq!(registry.create(ALICE, 1, b"", Some(1)).unwrap_err(), Error::InvalidName);
    let long = [b'a'; 33];
    assert_eq!(registry.create(ALICE, 1, &long, Some(1)).unwrap_err(), Error::InvalidName);
    assert_eq!(registry.create(ALICE, 1, b"Feed1", Some(1)).unwrap_err(), Error::InvalidName);
    assert_eq!(registry.create(ALICE, 1, b"feed@1", Some(1)).unwrap_err(), Error::InvalidName);
    registry.create(ALICE, 1, b"a", Some(1)).unwrap();
    let widest = [b'z'; 32];
    registry.create(ALICE, 1, &widest, Some(1)).unwrap();
    registry.create(ALICE, 1, b"a-b_c.d0", None).unwrap();
    assert_eq!(registry.num_feeds(), 3);
}

#[test]
fn absent_value_round_trip() {
    let mut registry = Vvtec::new();
    registry.create(ALICE, 1, b"feed1", None).unwrap();
    assert_eq!(registry.read(b"feed1"), (ReadResult::KnownFeed(None), 1));
    registry.update(ALICE, 2, b"feed1", Some(7)).unwrap();
    assert_eq!(registry.read(b"feed1"), (ReadResult::KnownFeed(Some(7)), 2));
    registry.update(ALICE, 3, b"feed1", None).unwrap();
    assert_eq!(registry.read(b"feed1"), (ReadResult::KnownFeed(None), 3));
}

#[test]
fn create_without_identity_is_rejected() {
    let mut registry = Vvtec::new();
    assert_eq!(registry.create(b"", 1, b"feed1", None).unwrap_err(), Error::MissingAuthorization);
    assert_eq!(registry.read(b"feed1").0, ReadResult::UnknownFeed);
}

#[test]
fn default_registry_is_empty() {
    let registry = Vvtec::default();
    assert_eq!(registry.num_feeds(), 0);
    assert_eq!(registry.read(b"feed1").0, ReadResult::UnknownFeed);
}
