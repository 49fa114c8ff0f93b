//! The durable cache: a persistent fingerprint -> result-bytes store backed
//! by an embedded sled database, held behind trusted wrappers. Compression
//! and flush cadence are configuration of the store, not of the broker.

use vstd::prelude::*;

verus! {

/// Declares sled's error type so wrappers can return it; verified code maps
/// it to the broker's own error without reading it.
#[verifier::external_type_specification]
#[verifier::external_body]
pub struct ExSledError(sled::Error);

/// The persistent store of completed results, keyed by request fingerprint.
/// Entries are created on first successful computation and never expire.
#[verifier::external_body]
pub struct HashValueStore {
    db: sled::Db,
}

/// What the store holds: the value bytes bound to each fingerprint (stored
/// under the fingerprint's 8-byte big-endian key).
pub uninterp spec fn store_contents(s: &HashValueStore) -> Map<u64, Seq<u8>>;

/// Relies on sled::Config::open: it opens the database rooted at `path`,
/// creating it if absent; cache size and flush cadence are store-internal
/// configuration.
#[verifier::external_body]
pub fn load_store(path: &str) -> (r: Result<HashValueStore, sled::Error>)
{
    let opened = sled::Config::default()
        .path(path)
        .cache_capacity(1024 * 1024 * 1024 / 2)
        .flush_every_ms(Some(1000))
        .open();
    opened.map(|db| HashValueStore { db })
}

impl HashValueStore {
    /// Relies on sled::Tree::contains_key (reached through Db): on Ok it
    /// reports exactly whether the key is present.
    #[verifier::external_body]
    pub fn contains_hash(&self, hash: u64) -> (r: Result<bool, sled::Error>)
        ensures
            r matches Ok(b) ==> b == store_contents(self).contains_key(hash),
    {
        self.db.contains_key(hash.to_be_bytes())
    }

    /// Relies on sled::Tree::get (reached through Db): on Ok it returns the
    /// value last bound to the key, or nothing when the key is absent.
    #[verifier::external_body]
    pub fn get_item_by_hash(&self, hash: u64) -> (r: Result<Option<Vec<u8>>, sled::Error>)
        ensures
            match r {
                Ok(found) => match found {
                    Some(v) => store_contents(self).contains_key(hash) && v@ == store_contents(
                        self,
                    )[hash],
                    None => !store_contents(self).contains_key(hash),
                },
                Err(_) => true,
            },
    {
        match self.db.get(hash.to_be_bytes()) {
            Ok(found) => Ok(found.map(|ivec| ivec.to_vec())),
            Err(e) => Err(e),
        }
    }

    /// Relies on sled::Tree::insert (reached through Db): on Ok the key is
    /// bound to the value. On Err the binding may or may not have taken hold
    /// (the in-memory page is installed before the log reservation completes,
    /// which can still fail), so only the disjunction is claimed.
    #[verifier::external_body]
    pub fn insert_item(&mut self, hash: u64, value: &[u8]) -> (r: Result<(), sled::Error>)
        ensures
            r is Ok ==> store_contents(final(self)) == store_contents(old(self)).insert(
                hash,
                value@,
            ),
            r is Err ==> (store_contents(final(self)) == store_contents(old(self))
                || store_contents(final(self)) == store_contents(old(self)).insert(
                hash,
                value@,
            )),
    {
        match self.db.insert(hash.to_be_bytes(), value) {
            Ok(_) => Ok(()),
            Err(e) => Err(e),
        }
    }
}

} // verus!
