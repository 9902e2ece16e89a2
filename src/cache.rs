use vstd::prelude::*;
use crate::codec::{decode, frame_error, frame_key, frame_value, Command, FrameError};
use crate::record::{expire_at_of, is_expired, ttl_of, Value};
use crate::store::{swept, Expiry, Store};

verus! {

/// Relies on chrono::Utc::now, read as whole seconds since the Unix epoch by
/// DateTime::timestamp. chrono builds that instant from the time elapsed
/// since the epoch, so the value is never negative; it panics when the
/// system clock is set before the epoch.
#[verifier::external_body]
fn now_seconds() -> (r: i64)
    ensures
        r >= 0,
{
    chrono::Utc::now().timestamp()
}

/// The cache: the key-value store behind the frame and sweep operations.
pub struct Cache {
    vals: Store,
}

impl View for Cache {
    type V = Map<Seq<u8>, Seq<u8>>;

    closed spec fn view(&self) -> Map<Seq<u8>, Seq<u8>> {
        self.vals@
    }
}

impl Cache {
    pub closed spec fn wf(&self) -> bool {
        self.vals.wf()
    }

    /// A cache with an empty store.
    pub fn new() -> (r: Cache)
        ensures
            r.wf(),
            r@ == Map::<Seq<u8>, Seq<u8>>::empty(),
    {
        Cache { vals: Store::new() }
    }

    /// A cache over records loaded beforehand.
    pub fn from_store(vals: Store) -> (r: Cache)
        requires
            vals.wf(),
        ensures
            r.wf(),
            r@ == vals@,
    {
        Cache { vals }
    }

    /// The store, read-only.
    pub fn store(&self) -> (r: &Store)
        requires
            self.wf(),
        ensures
            r.wf(),
            r@ == self@,
    {
        &self.vals
    }

    /// Number of records held.
    pub fn len(&self) -> (r: usize)
        requires
            self.wf(),
        ensures
            self@.dom().finite(),
            r == self@.len(),
    {
        self.vals.len()
    }

    /// The record stored under `key`, if any.
    pub fn get(&self, key: &[u8]) -> (r: Option<&Value>)
        requires
            self.wf(),
        ensures
            self@.contains_key(key@) ==> (r matches Some(v) && v@ == self@[key@]),
            !self@.contains_key(key@) ==> r is None,
    {
        self.vals.get(key)
    }

    /// Applies one frame: an insert frame stores its value under its key,
    /// replacing any earlier value; any other frame is refused and leaves the
    /// store as it was.
    pub fn handle_in(&mut self, frame: &[u8]) -> (r: Result<(), FrameError>)
        requires
            old(self).wf(),
        ensures
            final(self).wf(),
            frame_error(frame@) matches Some(e) ==> r == Err::<(), FrameError>(e)
                && final(self)@ == old(self)@,
            frame_error(frame@) is None ==> r is Ok && final(self)@ == old(self)@.insert(
                frame_key(frame@),
                frame_value(frame@),
            ),
    {
        match decode(frame) {
            Ok(Command::Insert { key, value }) => {
                self.vals.insert(key, value);
                Ok(())
            },
            Err(e) => Err(e),
        }
    }

    /// Removes every record expired at `now` (epoch seconds), reporting each
    /// removal.
    pub fn sweep_at(&mut self, now: i64) -> (r: Vec<Expiry>)
        requires
            old(self).wf(),
        ensures
            final(self).wf(),
            final(self)@ == swept(old(self)@, now as int),
            r@.len() == old(self)@.len() - final(self)@.len(),
            forall|j: int| 0 <= j < r@.len() ==> {
                let k = (#[trigger] r@[j]).key@;
                &&& old(self)@.contains_key(k)
                &&& is_expired(old(self)@[k], now as int)
                &&& r@[j].expire_at as int == expire_at_of(old(self)@[k])
                &&& r@[j].ttl_delta as int == ttl_of(old(self)@[k])
            },
            forall|k: Seq<u8>| old(self)@.contains_key(k) && is_expired(old(self)@[k], now as int)
                ==> exists|j: int| 0 <= j < r@.len() && (#[trigger] r@[j]).key@ == k,
    {
        self.vals.sweep(now)
    }

    /// Removes every record expired at the current time, reporting each
    /// removal. Returns the instant read from the clock (epoch seconds, never
    /// negative) together with the reports; the store is what a sweep at that
    /// instant leaves.
    pub fn invalidate_cache(&mut self) -> (r: (i64, Vec<Expiry>))
        requires
            old(self).wf(),
        ensures
            final(self).wf(),
            r.0 >= 0,
            final(self)@ == swept(old(self)@, r.0 as int),
            r.1@.len() == old(self)@.len() - final(self)@.len(),
            forall|j: int| 0 <= j < r.1@.len() ==> {
                let k = (#[trigger] r.1@[j]).key@;
                &&& old(self)@.contains_key(k)
                &&& is_expired(old(self)@[k], r.0 as int)
                &&& r.1@[j].expire_at as int == expire_at_of(old(self)@[k])
                &&& r.1@[j].ttl_delta as int == ttl_of(old(self)@[k])
            },
            forall|k: Seq<u8>| old(self)@.contains_key(k) && is_expired(old(self)@[k], r.0 as int)
                ==> exists|j: int| 0 <= j < r.1@.len() && (#[trigger] r.1@[j]).key@ == k,
    {
        let now = now_seconds();
        let gone = self.sweep_at(now);
        (now, gone)
    }

    /// The cache holds finitely many records.
    pub proof fn lemma_finite(&self)
        requires
            self.wf(),
        ensures
            self@.dom().finite(),
    {
        self.vals.lemma_finite();
    }
}

} // verus!
