use ttl_cache::cache::Cache;
use ttl_cache::codec::{decode, encode_insert, Command, FrameError, FRAME_LEN, OP_INSERT};
use ttl_cache::record::{Key, LengthMismatch, Value, KEY_LEN};
use ttl_cache::signal::{replay, SaveSignal};
use ttl_cache::store::Store;

fn key_bytes(tag: u8) -> Vec<u8> {
    (0..KEY_LEN).map(|i| tag.wrapping_add(i as u8) | 1).collect()
}

fn value_bytes(fill: u8, start: u64, ttl: i16) -> Vec<u8> {
    let mut v = vec![fill; 56];
    v.extend_from_slice(&start.to_be_bytes()[2..]);
    v.extend_from_slice(&ttl.to_be_bytes());
    v
}

fn frame(op: u8, key: &[u8], value: &[u8]) -> Vec<u8> {
    let mut f = vec![op];
    f.extend_from_slice(key);
    f.extend_from_slice(value);
    f
}

fn store_with(key: &[u8], value: &[u8]) -> Cache {
    let mut c = Cache::new();
    assert_eq!(c.handle_in(&frame(OP_INSERT, key, value)), Ok(()));
    c
}

#[test]
fn insert_then_overwrite_keeps_second_value() {
    let k = key_bytes(7);
    let v1 = value_bytes(b'a', 100, 10);
    let v2 = value_bytes(b'b', 200, 20);
    let mut c = Cache::new();
    c.handle_in(&frame(OP_INSERT, &k, &v1)).unwrap();
    c.handle_in(&frame(OP_INSERT, &k, &v2)).unwrap();
    assert_eq!(c.len(), 1);
    assert_eq!(c.get(&k).unwrap().as_bytes(), &v2[..]);
}

#[test]
fn sentinel_ttl_never_expires() {
    let k = key_bytes(1);
    let v = value_bytes(0, 0, 0);
    let mut c = store_with(&k, &v);
    assert!(c.sweep_at(i64::MAX).is_empty());
    assert!(c.sweep_at(1_000_000_000_000).is_empty());
    assert_eq!(c.get(&k).unwrap().as_bytes(), &v[..]);
}

#[test]
fn expiry_boundary_is_strict() {
    let k = key_bytes(2);
    let t: u64 = 1_700_000_000;
    let d: i16 = 30;
    let mut c = store_with(&k, &value_bytes(9, t, d));
    assert!(c.sweep_at(t as i64 + d as i64).is_empty());
    assert_eq!(c.len(), 1);
    let gone = c.sweep_at(t as i64 + d as i64 + 1);
    assert_eq!(gone.len(), 1);
    assert_eq!(gone[0].key.as_bytes(), &k[..]);
    assert_eq!(gone[0].expire_at, t as i64 + 30);
    assert_eq!(gone[0].ttl_delta, 30);
    assert_eq!(c.len(), 0);
}

#[test]
fn negative_ttl_expires_on_next_sweep() {
    let k = key_bytes(3);
    let t: u64 = 1_700_000_000;
    let mut c = store_with(&k, &value_bytes(0, t, -5));
    let gone = c.sweep_at(t as i64 + 1);
    assert_eq!(gone.len(), 1);
    assert_eq!(gone[0].expire_at, t as i64 - 5);
    assert_eq!(gone[0].ttl_delta, -5);
    assert!(c.get(&k).is_none());
}

#[test]
fn second_sweep_removes_nothing() {
    let mut c = Cache::new();
    c.handle_in(&frame(OP_INSERT, &key_bytes(1), &value_bytes(0, 10, 5))).unwrap();
    c.handle_in(&frame(OP_INSERT, &key_bytes(2), &value_bytes(0, 100, 5))).unwrap();
    c.handle_in(&frame(OP_INSERT, &key_bytes(3), &value_bytes(0, 10, 0))).unwrap();
    assert_eq!(c.sweep_at(50).len(), 1);
    assert_eq!(c.sweep_at(50).len(), 0);
    assert_eq!(c.len(), 2);
}

#[test]
fn coalesced_saves_between_one_and_n() {
    let mut s = SaveSignal::new();
    assert!(!s.take());
    for _ in 0..5 {
        s.notify();
    }
    assert!(s.pending());
    let mut saves = 0;
    while s.take() {
        saves += 1;
    }
    assert_eq!(saves, 1);
    s.notify();
    assert!(s.take());
    assert!(!s.pending());
}

#[test]
fn end_to_end_frame_scenario() {
    let now: u64 = 1_760_000_000;
    let k: Vec<u8> = (0..KEY_LEN).map(|i| (i as u8) + 1).collect();
    let mut v = vec![0x42u8; 56];
    v.extend_from_slice(&now.to_be_bytes()[2..]);
    v.extend_from_slice(&[0x00, 0x05]);
    let mut f = vec![b'I'];
    f.extend_from_slice(&k);
    f.extend_from_slice(&v);
    assert_eq!(f.len(), FRAME_LEN);

    let mut c = Cache::new();
    assert_eq!(c.handle_in(&f), Ok(()));
    assert_eq!(c.len(), 1);
    assert_eq!(c.get(&k).unwrap().as_bytes(), &v[..]);
    assert!(c.sweep_at(now as i64 + 4).is_empty());
    assert_eq!(c.len(), 1);
    assert_eq!(c.sweep_at(now as i64 + 6).len(), 1);
    assert_eq!(c.len(), 0);
}

#[test]
fn key_and_value_lengths_are_enforced() {
    assert_eq!(Key::from_slice(&[1u8; 62]).unwrap_err(), LengthMismatch { expected: 63, found: 62 });
    assert_eq!(Key::from_slice(&[1u8; 64]).unwrap_err(), LengthMismatch { expected: 63, found: 64 });
    assert_eq!(Value::from_slice(&[1u8; 63]).unwrap_err(), LengthMismatch { expected: 64, found: 63 });
    assert_eq!(Value::from_slice(&[]).unwrap_err(), LengthMismatch { expected: 64, found: 0 });
    assert_eq!(Key::from_slice(&[1u8; 63]).unwrap().as_bytes(), &[1u8; 63][..]);
    assert_eq!(Value::from_slice(&[2u8; 64]).unwrap().as_bytes(), &[2u8; 64][..]);
}

#[test]
fn short_frame_is_refused() {
    let mut c = Cache::new();
    assert_eq!(c.handle_in(&[OP_INSERT; 100]), Err(FrameError::Length(100)));
    assert_eq!(c.handle_in(&[]), Err(FrameError::Length(0)));
    assert_eq!(c.len(), 0);
}

#[test]
fn unknown_opcode_is_refused() {
    let mut c = Cache::new();
    let f = frame(b'D', &key_bytes(1), &value_bytes(0, 1, 1));
    assert_eq!(c.handle_in(&f), Err(FrameError::UnknownOpcode(b'D')));
    assert_eq!(c.len(), 0);
}

#[test]
fn decode_splits_at_fixed_offsets() {
    let k = key_bytes(40);
    let v = value_bytes(3, 77, -2);
    match decode(&frame(OP_INSERT, &k, &v)).unwrap() {
        Command::Insert { key, value } => {
            assert_eq!(key.as_bytes(), &k[..]);
            assert_eq!(value.as_bytes(), &v[..]);
        }
    }
}

#[test]
fn encode_then_decode_round_trip() {
    let k = Key::from_slice(&key_bytes(9)).unwrap();
    let v = Value::from_slice(&value_bytes(5, 123, 4)).unwrap();
    let f = encode_insert(&k, &v);
    assert_eq!(f.len(), FRAME_LEN);
    assert_eq!(f[0], OP_INSERT);
    match decode(&f).unwrap() {
        Command::Insert { key, value } => {
            assert_eq!(key.as_bytes(), k.as_bytes());
            assert_eq!(value.as_bytes(), v.as_bytes());
        }
    }
}

#[test]
fn value_fields_read_big_endian() {
    let v = Value::from_slice(&value_bytes(0, 0x0102_0304_0506, 0x0708)).unwrap();
    assert_eq!(v.start_time(), 0x0102_0304_0506);
    assert_eq!(v.ttl_delta(), 0x0708);
    assert_eq!(v.expire_at(), 0x0102_0304_0506 + 0x0708);
    let w = Value::from_slice(&value_bytes(0, 0xFFFF_FFFF_FFFF, -1)).unwrap();
    assert_eq!(w.start_time(), 0xFFFF_FFFF_FFFF);
    assert_eq!(w.ttl_delta(), -1);
    assert_eq!(w.expire_at(), 0xFFFF_FFFF_FFFE);
    assert!(w.is_expired_at(0xFFFF_FFFF_FFFF));
    assert!(!w.is_expired_at(0xFFFF_FFFF_FFFE));
    let m = Value::from_slice(&value_bytes(0, 10, i16::MIN)).unwrap();
    assert_eq!(m.ttl_delta(), -32768);
}

#[test]
fn store_insert_get_remove() {
    let mut s = Store::new();
    let k1 = key_bytes(1);
    let k2 = key_bytes(2);
    s.insert(Key::from_slice(&k1).unwrap(), Value::from_slice(&value_bytes(1, 1, 1)).unwrap());
    s.insert(Key::from_slice(&k2).unwrap(), Value::from_slice(&value_bytes(2, 2, 2)).unwrap());
    assert_eq!(s.len(), 2);
    let removed = s.remove(&k1).unwrap();
    assert_eq!(removed.as_bytes(), &value_bytes(1, 1, 1)[..]);
    assert!(s.remove(&k1).is_none());
    assert!(s.get(&k1).is_none());
    assert_eq!(s.get(&k2).unwrap().as_bytes(), &value_bytes(2, 2, 2)[..]);
    assert_eq!(s.len(), 1);
}

#[test]
fn invalidate_cache_uses_current_time() {
    let mut c = Cache::new();
    let old_key = key_bytes(1);
    let far_key = key_bytes(2);
    c.handle_in(&frame(OP_INSERT, &old_key, &value_bytes(0, 0, 1))).unwrap();
    c.handle_in(&frame(OP_INSERT, &far_key, &value_bytes(0, 0xFFFF_FFFF_FFFF, 1))).unwrap();
    let (now, gone) = c.invalidate_cache();
    assert!(now > 1_600_000_000);
    assert_eq!(gone.len(), 1);
    assert_eq!(gone[0].expire_at, 1);
    assert_eq!(gone[0].key.as_bytes(), &old_key[..]);
    assert!(c.get(&far_key).is_some());
}

#[test]
fn sweep_keeps_only_unexpired_records() {
    let mut c = Cache::new();
    for i in 0..10u8 {
        let ttl: i16 = if i % 3 == 0 { 0 } else { i as i16 };
        c.handle_in(&frame(OP_INSERT, &key_bytes(i * 2), &value_bytes(i, 100, ttl))).unwrap();
    }
    let gone = c.sweep_at(105);
    assert_eq!(gone.len(), 3);
    assert_eq!(c.len(), 7);
}

#[test]
fn replay_counts_coalesced_saves() {
    assert_eq!(replay(&vec![true, true, true, true, false]), (1, false));
    assert_eq!(replay(&vec![true, false, true, false]), (2, false));
    assert_eq!(replay(&vec![true, true, false, true, true, true, false, false]), (2, false));
    assert_eq!(replay(&vec![false, false]), (0, false));
    assert_eq!(replay(&vec![true, true]), (0, true));
    assert_eq!(replay(&vec![true, false, true]), (1, true));
    assert_eq!(replay(&vec![]), (0, false));
}

#[test]
fn entries_lists_each_record_once() {
    let mut c = Cache::new();
    for i in 0..4u8 {
        c.handle_in(&frame(OP_INSERT, &key_bytes(i * 8), &value_bytes(i, 1, 0))).unwrap();
    }
    c.handle_in(&frame(OP_INSERT, &key_bytes(8), &value_bytes(9, 1, 0))).unwrap();
    let all = c.store().entries();
    assert_eq!(all.len(), 4);
    for (k, v) in &all {
        assert_eq!(c.get(k.as_bytes()).unwrap().as_bytes(), v.as_bytes());
    }
    let over = all.iter().find(|(k, _)| k.as_bytes() == &key_bytes(8)[..]).unwrap();
    assert_eq!(over.1.as_bytes(), &value_bytes(9, 1, 0)[..]);
}

#[test]
fn bulk_insert_counts_distinct_keys() {
    let mut c = Cache::new();
    let n: usize = 2000;
    for i in 0..n {
        let mut k = vec![b'0'; KEY_LEN];
        k[..8].copy_from_slice(&(i as u64).to_be_bytes());
        k[8] = b'k';
        let v = value_bytes((i % 251) as u8, 1_700_000_000, 10);
        assert_eq!(c.handle_in(&frame(OP_INSERT, &k, &v)), Ok(()));
    }
    assert_eq!(c.len(), n);
    let mut k = vec![b'0'; KEY_LEN];
    k[..8].copy_from_slice(&7u64.to_be_bytes());
    k[8] = b'k';
    c.handle_in(&frame(OP_INSERT, &k, &value_bytes(1, 2, 3))).unwrap();
    assert_eq!(c.len(), n);
    assert_eq!(c.get(&k).unwrap().as_bytes(), &value_bytes(1, 2, 3)[..]);
}
