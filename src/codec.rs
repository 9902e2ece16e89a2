use vstd::prelude::*;
use crate::record::{Key, Value, KEY_LEN, VALUE_LEN};

verus! {

/// Length in bytes of a wire frame: opcode, key, value.
pub const FRAME_LEN: usize = 128;

/// Opcode byte of an insert frame (ASCII `I`).
pub const OP_INSERT: u8 = 0x49;

/// A decoded command.
#[derive(Debug)]
pub enum Command {
    Insert { key: Key, value: Value },
}

/// Why a frame was refused.
#[derive(Debug, Clone, Copy, PartialEq, Eq, Structural)]
pub enum FrameError {
    /// The frame did not hold exactly 128 bytes (a short read).
    Length(usize),
    /// The opcode byte is not one this cache knows.
    UnknownOpcode(u8),
}

/// The key carried by a frame: bytes 1..64.
pub open spec fn frame_key(f: Seq<u8>) -> Seq<u8> {
    f.subrange(1, 1 + KEY_LEN as int)
}

/// The value carried by a frame: bytes 64..128.
pub open spec fn frame_value(f: Seq<u8>) -> Seq<u8> {
    f.subrange(1 + KEY_LEN as int, FRAME_LEN as int)
}

/// The error a frame is refused with, if any.
pub open spec fn frame_error(f: Seq<u8>) -> Option<FrameError> {
    if f.len() != FRAME_LEN {
        Some(FrameError::Length(f.len() as usize))
    } else if f[0] != OP_INSERT {
        Some(FrameError::UnknownOpcode(f[0]))
    } else {
        None
    }
}

fn copy_range(b: &[u8], lo: usize, hi: usize) -> (r: Vec<u8>)
    requires
        lo <= hi <= b@.len(),
    ensures
        r@ == b@.subrange(lo as int, hi as int),
{
    let mut r: Vec<u8> = Vec::with_capacity(hi - lo);
    let mut i: usize = lo;
    while i < hi
        invariant
            lo <= i <= hi <= b@.len(),
            r@ == b@.subrange(lo as int, i as int),
        decreases hi - i,
    {
        r.push(b[i]);
        i = i + 1;
        assert(r@ =~= b@.subrange(lo as int, i as int));
    }
    r
}

/// Splits a 128-byte insert frame into its key and value. A frame of any
/// other length, or with another opcode, is refused.
pub fn decode(frame: &[u8]) -> (r: Result<Command, FrameError>)
    ensures
        frame_error(frame@) matches Some(e) ==> r == Err::<Command, FrameError>(e),
        frame_error(frame@) is None ==> (r matches Ok(Command::Insert { key, value })
            && key@ == frame_key(frame@) && value@ == frame_value(frame@) && key.wf() && value.wf()),
{
    if frame.len() != FRAME_LEN {
        return Err(FrameError::Length(frame.len()));
    }
    if frame[0] != OP_INSERT {
        return Err(FrameError::UnknownOpcode(frame[0]));
    }
    let kb = copy_range(frame, 1, 1 + KEY_LEN);
    let vb = copy_range(frame, 1 + KEY_LEN, FRAME_LEN);
    match (Key::from_slice(kb.as_slice()), Value::from_slice(vb.as_slice())) {
        (Ok(key), Ok(value)) => Ok(Command::Insert { key, value }),
        (Err(_), _) => {
            proof { assert(false); }
            Err(FrameError::Length(frame.len()))
        },
        (_, Err(_)) => {
            proof { assert(false); }
            Err(FrameError::Length(frame.len()))
        },
    }
}

/// Lays out an insert frame: opcode, then the key, then the value.
pub fn encode_insert(key: &Key, value: &Value) -> (r: Vec<u8>)
    requires
        key.wf(),
        value.wf(),
    ensures
        r@ == seq![OP_INSERT] + key@ + value@,
        r@.len() == FRAME_LEN,
{
    let mut r: Vec<u8> = Vec::with_capacity(FRAME_LEN);
    r.push(OP_INSERT);
    let kb = key.as_bytes();
    let vb = value.as_bytes();
    let mut i: usize = 0;
    while i < kb.len()
        invariant
            i <= kb@.len(),
            r@ == seq![OP_INSERT] + kb@.subrange(0, i as int),
        decreases kb@.len() - i,
    {
        r.push(kb[i]);
        i = i + 1;
        assert(r@ =~= seq![OP_INSERT] + kb@.subrange(0, i as int));
    }
    assert(kb@.subrange(0, kb@.len() as int) =~= kb@);
    let mut j: usize = 0;
    while j < vb.len()
        invariant
            j <= vb@.len(),
            r@ == seq![OP_INSERT] + kb@ + vb@.subrange(0, j as int),
        decreases vb@.len() - j,
    {
        r.push(vb[j]);
        j = j + 1;
        assert(r@ =~= seq![OP_INSERT] + kb@ + vb@.subrange(0, j as int));
    }
    assert(vb@.subrange(0, vb@.len() as int) =~= vb@);
    r
}

/// A frame laid out by `encode_insert` decodes to the same key and value.
pub proof fn lemma_frame_round_trip(k: Seq<u8>, v: Seq<u8>)
    requires
        k.len() == KEY_LEN,
        v.len() == VALUE_LEN,
    ensures
        frame_error(seq![OP_INSERT] + k + v) is None,
        frame_key(seq![OP_INSERT] + k + v) == k,
        frame_value(seq![OP_INSERT] + k + v) == v,
{
    let f = seq![OP_INSERT] + k + v;
    assert(f[0] == OP_INSERT);
    assert(frame_key(f) =~= k);
    assert(frame_value(f) =~= v);
}

} // verus!
