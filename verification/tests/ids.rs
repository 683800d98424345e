use nvenc_vaapi_driver::ids::{
    id_to_key, key_from_raw, key_to_id, BufferKey, ConfigKey, ContainsKey, Pool, PoolKey,
    SurfaceKey,
};

#[test]
fn key_to_id_roundtrip_find_by_low_bits() {
    let mut map: Pool<ConfigKey, u32> = Pool::new();
    let k = map.insert(42u32);
    let id = key_to_id(k);
    let found = map.find_by_low_bits(id).expect("key must be found");
    assert_eq!(found, k);
    assert_eq!(map.get(found), Some(&42));
}

#[test]
fn generational_reuse_invalidates_old_low_bits_id() {
    let mut map: Pool<ConfigKey, &'static str> = Pool::new();
    let old = map.insert("A");
    let old_id = key_to_id(old);
    assert!(map.remove(old).is_some());

    assert!(map.find_by_low_bits(old_id).is_none());

    let mut collision_free = true;
    for _ in 0..8 {
        let new = map.insert("B");
        let new_id = key_to_id(new);
        if new_id == old_id {
            collision_free = false;
        }
        assert_eq!(map.find_by_low_bits(new_id), Some(new));
        if new_id != old_id {
            assert!(
                map.find_by_low_bits(old_id).is_none(),
                "stale id {:#x} must not resolve to reused slot",
                old_id
            );
        }
        map.remove(new);
    }
    assert!(
        collision_free || map.len() == 0,
        "all reuses produced identical low-bits id; generational check cannot distinguish stale IDs"
    );
}

#[test]
fn different_key_types_do_not_cross_resolve() {
    let mut configs: Pool<ConfigKey, u8> = Pool::new();
    let mut surfaces: Pool<SurfaceKey, u8> = Pool::new();
    let c = configs.insert(1);
    let s = surfaces.insert(2);
    let c_id = key_to_id(c);
    let s_id = key_to_id(s);

    assert_eq!(configs.find_by_low_bits(c_id), Some(c));
    assert_eq!(surfaces.find_by_low_bits(s_id), Some(s));

    if c_id != s_id {
        assert!(configs.find_by_low_bits(s_id).is_none());
        assert!(surfaces.find_by_low_bits(c_id).is_none());
    }
}

#[test]
fn key_from_raw_roundtrips_via_full_64bit_ffi() {
    let mut map: Pool<BufferKey, ()> = Pool::new();
    let k = map.insert(());
    let raw = k.data();
    let rebuilt: BufferKey = key_from_raw(raw);
    assert_eq!(rebuilt, k);
    assert!(map.contains_key(rebuilt));
}

#[test]
fn key_from_raw_makes_the_version_odd() {
    let k: BufferKey = key_from_raw(0x0000_0004_0000_0007);
    assert_eq!(k.data(), 0x0000_0005_0000_0007);
    let k: BufferKey = key_from_raw(0x0000_0005_0000_0007);
    assert_eq!(k.data(), 0x0000_0005_0000_0007);
}

#[test]
fn a_removed_key_stays_dead_when_its_slot_is_used_again() {
    let mut map: Pool<ConfigKey, u32> = Pool::new();
    let old = map.insert(1);
    assert_eq!(map.remove(old), Some(1));
    let new = map.insert(2);
    assert_eq!(new.data() as u32, old.data() as u32, "the slot is used again");
    assert_ne!(new, old);
    assert_ne!(key_to_id(new), key_to_id(old));
    assert_eq!(map.get_id(key_to_id(old)), None);
    assert_eq!(map.get_id(key_to_id(new)), Some(&2));
    assert!(!map.contains_key(old));
    assert_eq!(map.get(old), None);
    assert_eq!(map.remove(old), None);
    assert_eq!(map.get(new), Some(&2));
}

#[test]
fn an_id_is_sixteen_bits_of_index_and_sixteen_of_generation() {
    let id = |raw: u64| key_to_id::<BufferKey>(key_from_raw(raw));
    assert_eq!(id(0x0000_0001_0000_0007), 0x0000_0007);
    assert_eq!(id(0x0000_0003_0000_0007), 0x0001_0007);
    assert_eq!(id(0x0001_FFFF_0000_FFFE), 0xFFFF_FFFE);
    assert_eq!(id(0x0002_0001_0000_0007), 0x0000_0007);
}

#[test]
fn a_stale_id_stays_dead_through_every_generation_that_an_id_tells_apart() {
    let mut map: Pool<ConfigKey, u32> = Pool::new();
    let first = map.insert_id(0);
    assert_eq!(map.remove_id(first), Some(0));
    for n in 1..0x1_0000u32 {
        let id = map.insert_id(n);
        assert_ne!(id, first);
        assert_eq!(map.get_id(first), None);
        assert_eq!(map.remove_id(id), Some(n));
    }
    assert_eq!(map.insert_id(0x1_0000), first);
}

#[test]
fn ids_are_nonzero_and_distinct_and_stable() {
    let mut map: Pool<SurfaceKey, u32> = Pool::new();
    let ids: Vec<u32> = (0..20).map(|n| map.insert_id(n)).collect();
    for (i, id) in ids.iter().enumerate() {
        assert_ne!(*id, 0);
        assert_eq!(map.get_id(*id), Some(&(i as u32)));
        for other in &ids[..i] {
            assert_ne!(id, other);
        }
    }
    assert_eq!(map.remove_id(ids[3]), Some(3));
    assert_eq!(map.remove_id(ids[3]), None);
    assert_eq!(map.len(), 19);
    for (i, id) in ids.iter().enumerate() {
        if i != 3 {
            assert_eq!(map.get_id(*id), Some(&(i as u32)));
        }
    }
}

#[test]
fn removal_moves_the_last_key_into_the_gap() {
    let mut map: Pool<SurfaceKey, &'static str> = Pool::new();
    let a = map.insert("a");
    let b = map.insert("b");
    let c = map.insert("c");
    assert_eq!((map.key_at(0), map.key_at(1), map.key_at(2)), (a, b, c));
    assert_eq!(map.remove(a), Some("a"));
    assert_eq!((map.key_at(0), map.key_at(1)), (c, b));
    assert_eq!(map.get(c), Some(&"c"));
    assert_eq!(map.get(b), Some(&"b"));
}

#[test]
fn a_record_can_be_changed_in_place() {
    let mut map: Pool<BufferKey, u32> = Pool::new();
    let a = map.insert(1);
    let b = map.insert(2);
    *map.get_mut(a).unwrap() = 10;
    assert_eq!(map.get(a), Some(&10));
    assert_eq!(map.get(b), Some(&2));
    map.remove(a);
    assert!(map.get_mut(a).is_none());
}

#[test]
fn id_to_key_searches_its_pool() {
    let mut map: Pool<BufferKey, u32> = Pool::new();
    assert_eq!(id_to_key::<BufferKey, _>(1, &map), None);
    let k = map.insert(5);
    assert_eq!(id_to_key(key_to_id(k), &map), Some(k));
    assert_eq!(id_to_key::<BufferKey, _>(key_to_id(k) + 1, &map), None);
    assert!(map.room());
}
