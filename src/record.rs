use vstd::prelude::*;

verus! {

/// Length in bytes of a key.
pub const KEY_LEN: usize = 63;

/// Length in bytes of a value record.
pub const VALUE_LEN: usize = 64;

/// Offset of the big-endian 48-bit start time inside a value record.
pub const START_OFFSET: usize = 56;

/// Offset of the big-endian signed 16-bit time-to-live inside a value record.
pub const TTL_OFFSET: usize = 62;

/// A slice of the wrong length was offered as a key or a value.
#[derive(Debug, Clone, Copy, PartialEq, Eq, Structural)]
pub struct LengthMismatch {
    pub expected: usize,
    pub found: usize,
}

/// Start time stored in a value record: bytes 56..62 read as a big-endian
/// unsigned integer (epoch seconds).
pub open spec fn start_time_of(v: Seq<u8>) -> int {
    v[56] as int * 0x100_0000_0000 + v[57] as int * 0x1_0000_0000 + v[58] as int * 0x100_0000
        + v[59] as int * 0x1_0000 + v[60] as int * 0x100 + v[61] as int
}

/// Time-to-live stored in a value record: bytes 62..64 read as a big-endian
/// two's-complement 16-bit integer (seconds).
pub open spec fn ttl_of(v: Seq<u8>) -> int {
    let raw = v[62] as int * 0x100 + v[63] as int;
    if raw >= 0x8000 {
        raw - 0x1_0000
    } else {
        raw
    }
}

/// The instant (epoch seconds) after which a record expires.
pub open spec fn expire_at_of(v: Seq<u8>) -> int {
    start_time_of(v) + ttl_of(v)
}

/// A record is expired at `now` when its time-to-live is not the
/// never-expire sentinel 0 and `now` lies strictly after its expiry instant.
pub open spec fn is_expired(v: Seq<u8>, now: int) -> bool {
    ttl_of(v) != 0 && now > expire_at_of(v)
}

/// Copies a slice into a fresh vector.
pub fn copy_bytes(b: &[u8]) -> (r: Vec<u8>)
    ensures
        r@ == b@,
{
    let mut r: Vec<u8> = Vec::with_capacity(b.len());
    let mut i: usize = 0;
    while i < b.len()
        invariant
            i <= b@.len(),
            r@ == b@.subrange(0, i as int),
        decreases b@.len() - i,
    {
        r.push(b[i]);
        i = i + 1;
        assert(r@ =~= b@.subrange(0, i as int));
    }
    assert(r@ =~= b@);
    r
}

/// Whether two byte sequences are equal.
pub fn bytes_eq(a: &[u8], b: &[u8]) -> (r: bool)
    ensures
        r == (a@ == b@),
{
    if a.len() != b.len() {
        return false;
    }
    let mut i: usize = 0;
    while i < a.len()
        invariant
            a@.len() == b@.len(),
            i <= a@.len(),
            forall|j: int| 0 <= j < i ==> a@[j] == b@[j],
        decreases a@.len() - i,
    {
        if a[i] != b[i] {
            return false;
        }
        i = i + 1;
    }
    assert(a@ =~= b@);
    true
}

/// A key: exactly 63 opaque bytes.
#[derive(Debug)]
pub struct Key {
    bytes: Vec<u8>,
}

impl View for Key {
    type V = Seq<u8>;

    closed spec fn view(&self) -> Seq<u8> {
        self.bytes@
    }
}

impl Key {
    pub open spec fn wf(&self) -> bool {
        self@.len() == KEY_LEN
    }

    /// Builds a key from exactly 63 bytes; any other length is refused.
    pub fn from_slice(b: &[u8]) -> (r: Result<Key, LengthMismatch>)
        ensures
            b@.len() == KEY_LEN ==> (r matches Ok(k) && k@ == b@ && k.wf()),
            b@.len() != KEY_LEN ==> r == Err::<Key, LengthMismatch>(
                LengthMismatch { expected: KEY_LEN, found: b@.len() as usize },
            ),
    {
        if b.len() != KEY_LEN {
            return Err(LengthMismatch { expected: KEY_LEN, found: b.len() });
        }
        Ok(Key { bytes: copy_bytes(b) })
    }

    /// The key's bytes.
    pub fn as_bytes(&self) -> (r: &[u8])
        ensures
            r@ == self@,
    {
        self.bytes.as_slice()
    }

    /// An independent copy of the key.
    pub fn duplicate(&self) -> (r: Key)
        ensures
            r@ == self@,
    {
        Key { bytes: copy_bytes(self.bytes.as_slice()) }
    }
}

/// A value record: exactly 64 bytes, of which bytes 56..62 hold the start
/// time and bytes 62..64 the time-to-live.
#[derive(Debug)]
pub struct Value {
    bytes: Vec<u8>,
}

impl View for Value {
    type V = Seq<u8>;

    closed spec fn view(&self) -> Seq<u8> {
        self.bytes@
    }
}

impl Value {
    pub open spec fn wf(&self) -> bool {
        self@.len() == VALUE_LEN
    }

    /// Builds a value from exactly 64 bytes; any other length is refused.
    pub fn from_slice(b: &[u8]) -> (r: Result<Value, LengthMismatch>)
        ensures
            b@.len() == VALUE_LEN ==> (r matches Ok(v) && v@ == b@ && v.wf()),
            b@.len() != VALUE_LEN ==> r == Err::<Value, LengthMismatch>(
                LengthMismatch { expected: VALUE_LEN, found: b@.len() as usize },
            ),
    {
        if b.len() != VALUE_LEN {
            return Err(LengthMismatch { expected: VALUE_LEN, found: b.len() });
        }
        Ok(Value { bytes: copy_bytes(b) })
    }

    /// The record's bytes.
    pub fn as_bytes(&self) -> (r: &[u8])
        ensures
            r@ == self@,
    {
        self.bytes.as_slice()
    }

    /// An independent copy of the record.
    pub fn duplicate(&self) -> (r: Value)
        ensures
            r@ == self@,
    {
        Value { bytes: copy_bytes(self.bytes.as_slice()) }
    }

    /// The start time, in epoch seconds.
    pub fn start_time(&self) -> (r: u64)
        requires
            self.wf(),
        ensures
            r as int == start_time_of(self@),
            r < 0x1_0000_0000_0000,
    {
        let b = &self.bytes;
        (b[56] as u64) * 0x100_0000_0000 + (b[57] as u64) * 0x1_0000_0000 + (b[58] as u64)
            * 0x100_0000 + (b[59] as u64) * 0x1_0000 + (b[60] as u64) * 0x100 + (b[61] as u64)
    }

    /// The time-to-live, in seconds; 0 means the record never expires.
    pub fn ttl_delta(&self) -> (r: i16)
        requires
            self.wf(),
        ensures
            r as int == ttl_of(self@),
    {
        let raw: u32 = (self.bytes[62] as u32) * 0x100 + (self.bytes[63] as u32);
        if raw >= 0x8000 {
            let s: i32 = raw as i32 - 0x1_0000;
            s as i16
        } else {
            raw as i16
        }
    }

    /// The instant, in epoch seconds, after which the record expires.
    pub fn expire_at(&self) -> (r: i64)
        requires
            self.wf(),
        ensures
            r as int == expire_at_of(self@),
    {
        self.start_time() as i64 + self.ttl_delta() as i64
    }

    /// Whether the record is expired at `now` (epoch seconds).
    pub fn is_expired_at(&self, now: i64) -> (r: bool)
        requires
            self.wf(),
        ensures
            r == is_expired(self@, now as int),
    {
        let ttl = self.ttl_delta();
        ttl != 0 && now > self.expire_at()
    }
}

} // verus!
