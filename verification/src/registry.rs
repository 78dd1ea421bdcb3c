//! The feed-registry state machine over a contract-internal associative
//! store.
//!
//! Per name the state is either absent or a single feed record.  `create`
//! registers a name for an authenticated caller, `update` and `delete` are
//! gated on the stored owner, and `read` never mutates.  The store is
//! modelled as a map from name bytes to a [`FeedModel`]; every operation's
//! contract pins the whole outcome — the new map and the result — through
//! the spec-level transition functions, so the ordering of feeds inside
//! the backing vector is invisible to callers.

use vstd::prelude::*;

use crate::bytes_util::bytes_eq;
use crate::errors::Error;
use crate::name::{is_valid_name, valid_name};

verus! {

/// Mathematical snapshot of one feed: its owner's identity bytes, the
/// time of the most recent write (substrate clock units), and the stored
/// value, if any.
pub ghost struct FeedModel {
    pub owner: Seq<u8>,
    pub updated_at: u64,
    pub value: Option<u128>,
}

/// One stored feed record.
struct Feed {
    owner: Vec<u8>,
    name: Vec<u8>,
    updated_at: u64,
    value: Option<u128>,
}

impl Feed {
    spec fn model(&self) -> FeedModel {
        FeedModel { owner: self.owner@, updated_at: self.updated_at, value: self.value }
    }
}

/// What `read` reports: either the name is unknown, or the feed exists
/// and holds this (possibly absent) value.
#[derive(Debug, Clone, Copy, PartialEq, Eq)]
pub enum ReadResult {
    UnknownFeed,
    KnownFeed(Option<u128>),
}

/// The registry state: a set of feeds addressed by name.
pub struct Vvtec {
    feeds: Vec<Feed>,
}

/// The map a sequence of feed records denotes; later records win, though
/// under the registry's invariant names never repeat.
spec fn feeds_map(s: Seq<Feed>) -> Map<Seq<u8>, FeedModel>
    decreases s.len(),
{
    if s.len() == 0 {
        Map::empty()
    } else {
        feeds_map(s.drop_last()).insert(s.last().name@, s.last().model())
    }
}

/// Names of the records in `s` are pairwise distinct.
spec fn unique_names(s: Seq<Feed>) -> bool {
    forall|i: int, j: int| 0 <= i < j < s.len() ==> s[i].name@ != s[j].name@
}

/// A key is in the denoted map exactly when some record carries it.
proof fn lemma_feeds_map_dom(s: Seq<Feed>, n: Seq<u8>)
    ensures
        feeds_map(s).dom().contains(n) <==> exists|i: int| 0 <= i < s.len() && s[i].name@ == n,
    decreases s.len(),
{
    if s.len() > 0 {
        lemma_feeds_map_dom(s.drop_last(), n);
        if feeds_map(s).dom().contains(n) && s.last().name@ != n {
            let i = choose|i: int| 0 <= i < s.drop_last().len() && s.drop_last()[i].name@ == n;
            assert(s[i].name@ == n);
        }
        if exists|i: int| 0 <= i < s.len() && s[i].name@ == n {
            let i = choose|i: int| 0 <= i < s.len() && s[i].name@ == n;
            if i < s.len() - 1 {
                assert(s.drop_last()[i].name@ == n);
            }
        }
    }
}

/// Under unique names, each record is the map's value at its own name.
proof fn lemma_feeds_map_at(s: Seq<Feed>, i: int)
    requires
        unique_names(s),
        0 <= i < s.len(),
    ensures
        feeds_map(s)[s[i].name@] == s[i].model(),
    decreases s.len(),
{
    if i == s.len() - 1 {
    } else {
        assert(s.drop_last()[i] == s[i]);
        lemma_feeds_map_at(s.drop_last(), i);
        assert(s.last().name@ != s[i].name@);
    }
}

/// Under unique names the map has exactly one entry per record.
proof fn lemma_feeds_map_card(s: Seq<Feed>)
    requires
        unique_names(s),
    ensures
        feeds_map(s).dom().finite(),
        feeds_map(s).dom().len() == s.len(),
    decreases s.len(),
{
    if s.len() > 0 {
        lemma_feeds_map_card(s.drop_last());
        lemma_feeds_map_dom(s.drop_last(), s.last().name@);
        assert(!feeds_map(s.drop_last()).dom().contains(s.last().name@));
        assert(feeds_map(s).dom() =~= feeds_map(s.drop_last()).dom().insert(s.last().name@));
    }
}

impl View for Vvtec {
    type V = Map<Seq<u8>, FeedModel>;

    closed spec fn view(&self) -> Map<Seq<u8>, FeedModel> {
        feeds_map(self.feeds@)
    }
}

/// The outcome of `create`: the map afterwards, and the result.
///
/// A create succeeds exactly when the caller presented an identity, the
/// name is well formed, and the name is still absent; it then installs a
/// feed owned by the caller, stamped with the substrate clock.  On any
/// failure the map is untouched.
pub open spec fn create_outcome(
    m: Map<Seq<u8>, FeedModel>,
    caller: Seq<u8>,
    now: u64,
    name: Seq<u8>,
    value: Option<u128>,
) -> (Map<Seq<u8>, FeedModel>, Result<(), Error>) {
    if caller.len() == 0 {
        (m, Err(Error::MissingAuthorization))
    } else if !valid_name(name) {
        (m, Err(Error::InvalidName))
    } else if m.dom().contains(name) {
        (m, Err(Error::AlreadyExists))
    } else {
        (m.insert(name, FeedModel { owner: caller, updated_at: now, value }), Ok(()))
    }
}

/// The outcome of `update`: replaces the value and the timestamp of an
/// existing feed, but only for its owner; the owner and every other feed
/// stay as they were.  On any failure the map is untouched.
pub open spec fn update_outcome(
    m: Map<Seq<u8>, FeedModel>,
    caller: Seq<u8>,
    now: u64,
    name: Seq<u8>,
    value: Option<u128>,
) -> (Map<Seq<u8>, FeedModel>, Result<(), Error>) {
    if !m.dom().contains(name) {
        (m, Err(Error::NotFound))
    } else if m[name].owner != caller {
        (m, Err(Error::OwnerMismatch))
    } else {
        (m.insert(name, FeedModel { owner: m[name].owner, updated_at: now, value }), Ok(()))
    }
}

/// The outcome of `delete`: erases an existing feed, but only for its
/// owner; the name becomes absent and reusable.  On any failure the map
/// is untouched.
pub open spec fn delete_outcome(
    m: Map<Seq<u8>, FeedModel>,
    caller: Seq<u8>,
    name: Seq<u8>,
) -> (Map<Seq<u8>, FeedModel>, Result<(), Error>) {
    if !m.dom().contains(name) {
        (m, Err(Error::NotFound))
    } else if m[name].owner != caller {
        (m, Err(Error::OwnerMismatch))
    } else {
        (m.remove(name), Ok(()))
    }
}

/// What `read` reports for a name: the stored value and timestamp of a
/// known feed, or the explicit unknown-feed marker (with timestamp 0).
pub open spec fn read_outcome(m: Map<Seq<u8>, FeedModel>, name: Seq<u8>) -> (ReadResult, u64) {
    if m.dom().contains(name) {
        (ReadResult::KnownFeed(m[name].value), m[name].updated_at)
    } else {
        (ReadResult::UnknownFeed, 0)
    }
}

impl Vvtec {
    /// Structural invariant: names are pairwise distinct and well formed.
    pub closed spec fn wf(&self) -> bool {
        &&& unique_names(self.feeds@)
        &&& forall|i: int| 0 <= i < self.feeds@.len() ==> valid_name(#[trigger] self.feeds@[i].name@)
    }

    /// An empty registry.
    pub fn new() -> (r: Vvtec)
        ensures
            r.wf(),
            r@ == Map::<Seq<u8>, FeedModel>::empty(),
            r@.dom().finite(),
    {
        let r = Vvtec { feeds: Vec::new() };
        proof {
            lemma_feeds_map_card(r.feeds@);
        }
        r
    }

    /// Index of the record carrying `name`, if any.
    fn find_index(&self, name: &[u8]) -> (r: Option<usize>)
        ensures
            match r {
                Some(i) => i < self.feeds@.len() && self.feeds@[i as int].name@ == name@,
                None => forall|i: int| 0 <= i < self.feeds@.len() ==> self.feeds@[i].name@ != name@,
            },
    {
        let mut i: usize = 0;
        while i < self.feeds.len()
            invariant
                0 <= i <= self.feeds@.len(),
                forall|j: int| 0 <= j < i ==> self.feeds@[j].name@ != name@,
            decreases self.feeds@.len() - i,
        {
            if bytes_eq(self.feeds[i].name.as_slice(), name) {
                return Some(i);
            }
            i = i + 1;
        }
        None
    }

    /// Registers `name` for `caller` with an initial (possibly absent)
    /// value, stamped `now` by the substrate clock.
    pub fn create(&mut self, caller: &[u8], now: u64, name: &[u8], value: Option<u128>) -> (r:
        Result<(), Error>)
        requires
            old(self).wf(),
        ensures
            final(self).wf(),
            final(self)@.dom().finite(),
            (final(self)@, r) == create_outcome(old(self)@, caller@, now, name@, value),
    {
        proof {
            lemma_feeds_map_dom(self.feeds@, name@);
            lemma_feeds_map_card(self.feeds@);
        }
        if caller.len() == 0 {
            return Err(Error::MissingAuthorization);
        }
        if !is_valid_name(name) {
            return Err(Error::InvalidName);
        }
        match self.find_index(name) {
            Some(_) => Err(Error::AlreadyExists),
            None => {
                let feed = Feed {
                    owner: vstd::slice::slice_to_vec(caller),
                    name: vstd::slice::slice_to_vec(name),
                    updated_at: now,
                    value,
                };
                let ghost pre = self.feeds@;
                self.feeds.push(feed);
                proof {
                    assert(self.feeds@.drop_last() =~= pre);
                }
                Ok(())
            },
        }
    }

    /// Replaces the value of the feed at `name` and stamps it `now`, if
    /// `caller` is its owner.
    pub fn update(&mut self, caller: &[u8], now: u64, name: &[u8], value: Option<u128>) -> (r:
        Result<(), Error>)
        requires
            old(self).wf(),
        ensures
            final(self).wf(),
            final(self)@.dom().finite(),
            (final(self)@, r) == update_outcome(old(self)@, caller@, now, name@, value),
    {
        proof {
            lemma_feeds_map_dom(self.feeds@, name@);
            lemma_feeds_map_card(self.feeds@);
        }
        match self.find_index(name) {
            None => Err(Error::NotFound),
            Some(i) => {
                proof {
                    lemma_feeds_map_at(self.feeds@, i as int);
                }
                if !bytes_eq(self.feeds[i].owner.as_slice(), caller) {
                    return Err(Error::OwnerMismatch);
                }
                let ghost pre = self.feeds@;
                let old_feed = self.feeds.remove(i);
                let new_feed = Feed {
                    owner: old_feed.owner,
                    name: old_feed.name,
                    updated_at: now,
                    value,
                };
                self.feeds.insert(i, new_feed);
                proof {
                    assert(self.feeds@ =~= pre.update(
                        i as int,
                        Feed {
                            owner: pre[i as int].owner,
                            name: pre[i as int].name,
                            updated_at: now,
                            value,
                        },
                    ));
                    lemma_feeds_map_update(pre, i as int, self.feeds@[i as int]);
                }
                Ok(())
            },
        }
    }

    /// Erases the feed at `name`, if `caller` is its owner; the name is
    /// then free for a future `create`.
    pub fn delete(&mut self, caller: &[u8], name: &[u8]) -> (r: Result<(), Error>)
        requires
            old(self).wf(),
        ensures
            final(self).wf(),
            final(self)@.dom().finite(),
            (final(self)@, r) == delete_outcome(old(self)@, caller@, name@),
    {
        proof {
            lemma_feeds_map_dom(self.feeds@, name@);
            lemma_feeds_map_card(self.feeds@);
        }
        match self.find_index(name) {
            None => Err(Error::NotFound),
            Some(i) => {
                proof {
                    lemma_feeds_map_at(self.feeds@, i as int);
                }
                if !bytes_eq(self.feeds[i].owner.as_slice(), caller) {
                    return Err(Error::OwnerMismatch);
                }
                let ghost pre = self.feeds@;
                let _removed = self.feeds.remove(i);
                proof {
                    lemma_feeds_map_remove(pre, i as int);
                }
                Ok(())
            },
        }
    }

    /// A well-formed registry denotes a finite map, so its feed count is
    /// meaningful and callers can reason arithmetically about it across
    /// operations.
    pub proof fn lemma_domain_finite(&self)
        requires
            self.wf(),
        ensures
            self@.dom().finite(),
    {
        lemma_feeds_map_card(self.feeds@);
    }

    /// Reports the current value and timestamp of the feed at `name`, or
    /// the unknown-feed marker.  Never mutates.
    pub fn read(&self, name: &[u8]) -> (r: (ReadResult, u64))
        requires
            self.wf(),
        ensures
            r == read_outcome(self@, name@),
    {
        proof {
            lemma_feeds_map_dom(self.feeds@, name@);
        }
        match self.find_index(name) {
            None => (ReadResult::UnknownFeed, 0),
            Some(i) => {
                proof {
                    lemma_feeds_map_at(self.feeds@, i as int);
                }
                (ReadResult::KnownFeed(self.feeds[i].value), self.feeds[i].updated_at)
            },
        }
    }

    /// How many feeds are registered.
    pub fn num_feeds(&self) -> (n: u64)
        requires
            self.wf(),
        ensures
            self@.dom().finite(),
            n == self@.dom().len(),
    {
        proof {
            lemma_feeds_map_card(self.feeds@);
        }
        self.feeds.len() as u64
    }
}

impl Default for Vvtec {
    /// An empty registry.
    fn default() -> (r: Vvtec)
        ensures
            r.wf(),
            r@ == Map::<Seq<u8>, FeedModel>::empty(),
            r@.dom().finite(),
    {
        Vvtec::new()
    }
}

/// Replacing a record with one of the same name rewrites exactly that
/// name's entry in the denoted map.
proof fn lemma_feeds_map_update(s: Seq<Feed>, i: int, f: Feed)
    requires
        unique_names(s),
        0 <= i < s.len(),
        f.name@ == s[i].name@,
    ensures
        feeds_map(s.update(i, f)) =~= feeds_map(s).insert(f.name@, f.model()),
    decreases s.len(),
{
    let t = s.update(i, f);
    if i == s.len() - 1 {
        assert(t.drop_last() =~= s.drop_last());
        assert(t.last() == f);
    } else {
        assert(t.drop_last() =~= s.drop_last().update(i, f));
        assert(t.last() == s.last());
        assert(s.drop_last()[i] == s[i]);
        lemma_feeds_map_update(s.drop_last(), i, f);
        assert(s.last().name@ != f.name@);
    }
}

/// Removing the record carrying a name erases exactly that name's entry
/// from the denoted map.
proof fn lemma_feeds_map_remove(s: Seq<Feed>, i: int)
    requires
        unique_names(s),
        0 <= i < s.len(),
    ensures
        feeds_map(s.remove(i)) =~= feeds_map(s).remove(s[i].name@),
    decreases s.len(),
{
    if i == s.len() - 1 {
        assert(s.remove(i) =~= s.drop_last());
        lemma_feeds_map_dom(s.drop_last(), s[i].name@);
        assert(!feeds_map(s.drop_last()).dom().contains(s[i].name@));
        assert(feeds_map(s.drop_last()).remove(s[i].name@) =~= feeds_map(s.drop_last()));
    } else {
        let t = s.remove(i);
        assert(t.drop_last() =~= s.drop_last().remove(i));
        assert(t.last() == s.last());
        assert(s.drop_last()[i] == s[i]);
        lemma_feeds_map_remove(s.drop_last(), i);
        assert(s.last().name@ != s[i].name@);
    }
}


/// Create-then-read: a feed just created reads back exactly as written —
/// present, owned by its creator, holding the initial value, stamped with
/// the creation time.
pub proof fn lemma_create_then_read(
    m: Map<Seq<u8>, FeedModel>,
    caller: Seq<u8>,
    now: u64,
    name: Seq<u8>,
    value: Option<u128>,
)
    requires
        create_outcome(m, caller, now, name, value).1 is Ok,
    ensures
        ({
            let m1 = create_outcome(m, caller, now, name, value).0;
            &&& read_outcome(m1, name) == (ReadResult::KnownFeed(value), now)
            &&& m1[name].owner == caller
        }),
{
}

/// Duplicate rejection: after a successful create, a second create of the
/// same name fails with `AlreadyExists`, whoever attempts it and whatever
/// it carries, and the original record reads back unchanged.
pub proof fn lemma_duplicate_create_rejected(
    m: Map<Seq<u8>, FeedModel>,
    c1: Seq<u8>,
    t1: u64,
    v1: Option<u128>,
    c2: Seq<u8>,
    t2: u64,
    v2: Option<u128>,
    name: Seq<u8>,
)
    requires
        create_outcome(m, c1, t1, name, v1).1 is Ok,
        c2.len() != 0,
    ensures
        ({
            let m1 = create_outcome(m, c1, t1, name, v1).0;
            &&& create_outcome(m1, c2, t2, name, v2) == (m1, Err::<(), Error>(Error::AlreadyExists))
            &&& read_outcome(m1, name) == (ReadResult::KnownFeed(v1), t1)
        }),
{
}

/// Ownership enforcement: on a present feed, `update` and `delete` by
/// anyone but the stored owner fail with `OwnerMismatch` and leave the
/// whole registry untouched, so a later read still shows the old record.
pub proof fn lemma_ownership_gate(
    m: Map<Seq<u8>, FeedModel>,
    name: Seq<u8>,
    caller: Seq<u8>,
    now: u64,
    value: Option<u128>,
)
    requires
        m.dom().contains(name),
        m[name].owner != caller,
    ensures
        update_outcome(m, caller, now, name, value) == (m, Err::<(), Error>(Error::OwnerMismatch)),
        delete_outcome(m, caller, name) == (m, Err::<(), Error>(Error::OwnerMismatch)),
        read_outcome(update_outcome(m, caller, now, name, value).0, name) == read_outcome(m, name),
{
}

/// Delete-then-recreate: once the owner deletes a feed, its name reads
/// back as unknown and is free again — any authenticated caller may
/// recreate it, and the new record carries the new owner, value and time.
pub proof fn lemma_delete_then_recreate(
    m: Map<Seq<u8>, FeedModel>,
    name: Seq<u8>,
    owner: Seq<u8>,
    c2: Seq<u8>,
    t2: u64,
    v2: Option<u128>,
)
    requires
        delete_outcome(m, owner, name).1 is Ok,
        c2.len() != 0,
        valid_name(name),
        t2 > m[name].updated_at,
    ensures
        ({
            let m1 = delete_outcome(m, owner, name).0;
            let created = create_outcome(m1, c2, t2, name, v2);
            &&& read_outcome(m1, name) == (ReadResult::UnknownFeed, 0u64)
            &&& created.1 is Ok
            &&& read_outcome(created.0, name) == (ReadResult::KnownFeed(v2), t2)
            &&& created.0[name].owner == c2
            &&& read_outcome(created.0, name).1 > m[name].updated_at
        }),
{
}

/// Absent-value semantics: a feed created with no value, updated to some
/// value, then updated back to no value, ends with no value and with the
/// timestamp of the last write only.
pub proof fn lemma_absent_value_round_trip(
    m: Map<Seq<u8>, FeedModel>,
    owner: Seq<u8>,
    name: Seq<u8>,
    t1: u64,
    t2: u64,
    t3: u64,
    v: u128,
)
    requires
        create_outcome(m, owner, t1, name, None::<u128>).1 is Ok,
    ensures
        ({
            let m1 = create_outcome(m, owner, t1, name, None::<u128>).0;
            let m2 = update_outcome(m1, owner, t2, name, Some(v)).0;
            let m3 = update_outcome(m2, owner, t3, name, None::<u128>).0;
            &&& read_outcome(m1, name) == (ReadResult::KnownFeed(None::<u128>), t1)
            &&& update_outcome(m1, owner, t2, name, Some(v)).1 is Ok
            &&& read_outcome(m2, name) == (ReadResult::KnownFeed(Some(v)), t2)
            &&& update_outcome(m2, owner, t3, name, None::<u128>).1 is Ok
            &&& read_outcome(m3, name) == (ReadResult::KnownFeed(None::<u128>), t3)
        }),
{
}

} // verus!
