use vstd::prelude::*;
use crate::record::{start_time_of, ttl_of, KEY_LEN, VALUE_LEN};
use crate::store::swept;

verus! {

/// Inserting `v1` and then `v2` under the same key leaves exactly `v2`
/// there, byte for byte: the store is as if only `v2` had been inserted.
pub proof fn law_insert_overwrites(m: Map<Seq<u8>, Seq<u8>>, k: Seq<u8>, v1: Seq<u8>, v2: Seq<u8>)
    requires
        k.len() == KEY_LEN,
        v1.len() == VALUE_LEN,
        v2.len() == VALUE_LEN,
    ensures
        m.insert(k, v1).insert(k, v2).contains_key(k),
        m.insert(k, v1).insert(k, v2)[k] == v2,
        m.insert(k, v1).insert(k, v2) == m.insert(k, v2),
{
    assert(m.insert(k, v1).insert(k, v2) =~= m.insert(k, v2));
}

/// Inserting under a key that is already held keeps the number of records;
/// inserting under a new key adds one.
pub proof fn law_insert_count(m: Map<Seq<u8>, Seq<u8>>, k: Seq<u8>, v: Seq<u8>)
    requires
        m.dom().finite(),
    ensures
        m.insert(k, v).dom().finite(),
        m.insert(k, v).len() == m.len() + (if m.contains_key(k) { 0int } else { 1int }),
{
    assert(m.insert(k, v).dom() =~= m.dom().insert(k));
    if m.contains_key(k) {
        assert(m.dom().insert(k) =~= m.dom());
    }
}

/// A record whose time-to-live is 0 survives a sweep at any instant.
pub proof fn law_sentinel_never_expires(m: Map<Seq<u8>, Seq<u8>>, k: Seq<u8>, now: int)
    requires
        m.contains_key(k),
        m[k].len() == VALUE_LEN,
        ttl_of(m[k]) == 0,
    ensures
        swept(m, now).contains_key(k),
        swept(m, now)[k] == m[k],
{
}

/// A record with start time `t` and positive time-to-live `d` survives a
/// sweep at `t + d` and is removed by a sweep at `t + d + 1`.
pub proof fn law_expiry_boundary(m: Map<Seq<u8>, Seq<u8>>, k: Seq<u8>, t: int, d: int)
    requires
        m.contains_key(k),
        m[k].len() == VALUE_LEN,
        start_time_of(m[k]) == t,
        ttl_of(m[k]) == d,
        d > 0,
    ensures
        swept(m, t + d).contains_key(k),
        !swept(m, t + d + 1).contains_key(k),
{
}

/// A record with start time `t` and negative time-to-live is removed by any
/// sweep at `t + 1` or later.
pub proof fn law_negative_ttl_expires(m: Map<Seq<u8>, Seq<u8>>, k: Seq<u8>, t: int, now: int)
    requires
        m.contains_key(k),
        m[k].len() == VALUE_LEN,
        start_time_of(m[k]) == t,
        ttl_of(m[k]) < 0,
        now >= t + 1,
    ensures
        !swept(m, now).contains_key(k),
{
}

/// A second sweep at the same instant, with no insert between, removes
/// nothing more.
pub proof fn law_sweep_idempotent(m: Map<Seq<u8>, Seq<u8>>, now: int)
    ensures
        swept(swept(m, now), now) == swept(m, now),
{
    assert(swept(swept(m, now), now) =~= swept(m, now));
}

} // verus!
