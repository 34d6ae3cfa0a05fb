use simple_hv::collections::{bytes_eq, ByteKey, HashMap};

fn key(s: &str) -> String {
    String::from(s)
}

fn collect(m: &HashMap<String, u32>) -> Vec<(String, u32)> {
    let mut out = Vec::new();
    let mut it = m.iter();
    while let Some((k, v)) = it.next() {
        out.push((k.clone(), *v));
    }
    out
}

#[test]
fn bytes_eq_compares_length_and_content() {
    assert!(bytes_eq(b"", b""));
    assert!(bytes_eq(b"abc", b"abc"));
    assert!(!bytes_eq(b"abc", b"abd"));
    assert!(!bytes_eq(b"abc", b"ab"));
    assert!(!bytes_eq(b"", b"a"));
}

#[test]
fn keys_stand_for_their_bytes() {
    assert_eq!(key("hé").as_bytes(), &[0x68, 0xc3, 0xa9]);
    assert_eq!(ByteKey::as_bytes(&vec![1u8, 2, 3]), &[1, 2, 3]);
}

#[test]
fn new_map_is_empty() {
    let m: HashMap<String, u32> = HashMap::new(42);
    assert_eq!(m.capacity(), 8);
    assert!(!m.load_reached());
    assert_eq!(m.get(&key("a")), None);
    assert!(collect(&m).is_empty());
}

#[test]
fn hash_is_the_rolling_hash_modulo_the_capacity() {
    let m: HashMap<String, u32> = HashMap::new(0);
    assert_eq!(m.hash(&key("")), 0);
    assert_eq!(m.hash(&key("a")), 1);
    // (97 * 31 + 98) % 8 = 3105 % 8
    assert_eq!(m.hash(&key("ab")), 1);
    // ((97 * 31 + 98) * 31 + 99) % 8 = 96354 % 8
    assert_eq!(m.hash(&key("abc")), 2);
    let seeded: HashMap<String, u32> = HashMap::new(5);
    assert_eq!(seeded.hash(&key("")), 5);
    // (5 * 31 + 97) % 8 = 252 % 8
    assert_eq!(seeded.hash(&key("a")), 4);
}

#[test]
fn hash_uses_the_low_bits_of_the_seed_and_wraps() {
    let m: HashMap<Vec<u8>, u32> = HashMap::new((7u128 << 64) | 3);
    assert_eq!(m.hash(&vec![]), 3);
    let top: HashMap<Vec<u8>, u32> = HashMap::new(u64::MAX as u128);
    // (2^64 - 1) * 31 + 0 wraps to 2^64 - 31
    assert_eq!(top.hash(&vec![0u8]), ((usize::MAX - 30) % 8));
}

#[test]
fn insert_then_get() {
    let mut m: HashMap<String, u32> = HashMap::new(1);
    assert_eq!(m.insert(key("one"), 1, 0), None);
    assert_eq!(m.insert(key("two"), 2, 0), None);
    assert_eq!(m.get(&key("one")), Some(&1));
    assert_eq!(m.get(&key("two")), Some(&2));
    assert_eq!(m.get(&key("three")), None);
    assert_eq!(m.get(&key("")), None);
}

#[test]
fn insert_replaces_and_returns_the_old_value() {
    let mut m: HashMap<String, u32> = HashMap::new(1);
    assert_eq!(m.insert(key("k"), 1, 0), None);
    assert_eq!(m.insert(key("k"), 2, 0), Some(1));
    assert_eq!(m.insert(key("k"), 3, 0), Some(2));
    assert_eq!(m.get(&key("k")), Some(&3));
    assert_eq!(collect(&m), vec![(key("k"), 3)]);
}

#[test]
fn remove_returns_the_value_once() {
    let mut m: HashMap<String, u32> = HashMap::new(1);
    m.insert(key("a"), 1, 0);
    m.insert(key("b"), 2, 0);
    assert_eq!(m.remove(&key("a")), Some(1));
    assert_eq!(m.remove(&key("a")), None);
    assert_eq!(m.get(&key("a")), None);
    assert_eq!(m.get(&key("b")), Some(&2));
    assert_eq!(m.remove(&key("zzz")), None);
    assert_eq!(collect(&m), vec![(key("b"), 2)]);
}

#[test]
fn colliding_keys_are_probed_in_order() {
    // with seed 0 and 8 buckets: "a" -> 1, "b" -> 2, "i" -> 1, "q" -> 1
    let mut m: HashMap<String, u32> = HashMap::new(0);
    m.insert(key("a"), 1, 0);
    m.insert(key("b"), 2, 0);
    m.insert(key("i"), 3, 0);
    assert_eq!(collect(&m), vec![(key("a"), 1), (key("b"), 2), (key("i"), 3)]);
    assert_eq!(m.get(&key("i")), Some(&3));
    assert_eq!(m.get(&key("q")), None);
}

#[test]
fn removed_bucket_is_passed_over_and_reused() {
    let mut m: HashMap<String, u32> = HashMap::new(0);
    m.insert(key("a"), 1, 0);
    m.insert(key("b"), 2, 0);
    m.insert(key("i"), 3, 0);
    assert_eq!(m.remove(&key("a")), Some(1));
    // "i" lies behind the tombstone that "a" left
    assert_eq!(m.get(&key("i")), Some(&3));
    // a key that is already there is replaced where it is, not moved
    assert_eq!(m.insert(key("i"), 30, 0), Some(3));
    assert_eq!(collect(&m), vec![(key("b"), 2), (key("i"), 30)]);
    // a new key takes the first tombstone on its path
    assert_eq!(m.insert(key("q"), 4, 0), None);
    assert_eq!(collect(&m), vec![(key("q"), 4), (key("b"), 2), (key("i"), 30)]);
}

#[test]
fn probing_wraps_around_the_end() {
    // with seed 0 and 8 buckets: "g" -> 7, "o" -> 7, "w" -> 7
    let mut m: HashMap<String, u32> = HashMap::new(0);
    m.insert(key("g"), 1, 0);
    m.insert(key("o"), 2, 0);
    m.insert(key("w"), 3, 0);
    assert_eq!(collect(&m), vec![(key("o"), 2), (key("w"), 3), (key("g"), 1)]);
    assert_eq!(m.get(&key("w")), Some(&3));
    assert_eq!(m.remove(&key("o")), Some(2));
    assert_eq!(m.get(&key("w")), Some(&3));
}

#[test]
fn table_doubles_at_seven_tenths() {
    let mut m: HashMap<String, u32> = HashMap::new(0);
    for (i, k) in ["a", "b", "c", "d", "e"].iter().enumerate() {
        assert!(!m.load_reached());
        m.insert(key(k), i as u32, 99);
        assert_eq!(m.capacity(), 8);
    }
    assert!(!m.load_reached());
    m.insert(key("f"), 5, 99);
    assert_eq!(m.capacity(), 8);
    // six of eight buckets: 60 >= 56
    assert!(m.load_reached());
    m.insert(key("g"), 6, 1);
    assert_eq!(m.capacity(), 16);
    assert!(!m.load_reached());
    // the new seed is in force: (1 * 31 + 97) % 16 = 0
    assert_eq!(m.hash(&key("a")), 0);
    for (i, k) in ["a", "b", "c", "d", "e", "f", "g"].iter().enumerate() {
        assert_eq!(m.get(&key(k)), Some(&(i as u32)));
    }
    assert_eq!(
        collect(&m),
        vec![
            (key("a"), 0),
            (key("b"), 1),
            (key("c"), 2),
            (key("d"), 3),
            (key("e"), 4),
            (key("f"), 5),
            (key("g"), 6)
        ]
    );
}

#[test]
fn replacing_at_full_load_also_doubles() {
    let mut m: HashMap<String, u32> = HashMap::new(0);
    for k in ["a", "b", "c", "d", "e", "f"] {
        m.insert(key(k), 0, 0);
    }
    assert!(m.load_reached());
    assert_eq!(m.insert(key("a"), 7, 3), Some(0));
    assert_eq!(m.capacity(), 16);
    assert_eq!(m.get(&key("a")), Some(&7));
}

#[test]
fn tombstones_do_not_stop_the_search() {
    // fill and empty the table until no bucket was never used
    let mut m: HashMap<String, u32> = HashMap::new(0);
    for round in 0..8u32 {
        let k = format!("{}", (b'a' + round as u8) as char);
        assert_eq!(m.insert(k.clone(), round, 0), None);
        assert_eq!(m.get(&k), Some(&round));
        assert_eq!(m.remove(&k), Some(round));
    }
    assert_eq!(m.capacity(), 8);
    assert_eq!(m.get(&key("never")), None);
    assert_eq!(m.remove(&key("never")), None);
    assert_eq!(m.insert(key("z"), 1, 0), None);
    assert_eq!(m.get(&key("z")), Some(&1));
    assert_eq!(collect(&m), vec![(key("z"), 1)]);
}

#[test]
fn many_keys_survive_growth_and_removal() {
    let mut m: HashMap<Vec<u8>, usize> = HashMap::new(0x1234_5678_9abc_def0);
    for i in 0..500usize {
        let k = format!("key_{}", i).into_bytes();
        assert_eq!(m.insert(k, i, (i as u128) * 7919), None);
    }
    for i in 0..500usize {
        let k = format!("key_{}", i).into_bytes();
        assert_eq!(m.get(&k), Some(&i));
    }
    for i in (0..500usize).step_by(2) {
        let k = format!("key_{}", i).into_bytes();
        assert_eq!(m.remove(&k), Some(i));
    }
    for i in 0..500usize {
        let k = format!("key_{}", i).into_bytes();
        let expected = if i % 2 == 0 { None } else { Some(&i) };
        assert_eq!(m.get(&k), expected);
    }
    let mut seen = Vec::new();
    let mut it = m.iter();
    while let Some((_, v)) = it.next() {
        seen.push(*v);
    }
    seen.sort();
    let odd: Vec<usize> = (0..500).filter(|i| i % 2 == 1).collect();
    assert_eq!(seen, odd);
}

#[test]
fn iterator_ends_and_stays_ended() {
    let mut m: HashMap<String, u32> = HashMap::new(0);
    m.insert(key("a"), 1, 0);
    let mut it = m.iter();
    assert_eq!(it.next(), Some((&key("a"), &1)));
    assert_eq!(it.next(), None);
    assert_eq!(it.next(), None);
}

#[test]
fn empty_key_is_a_key() {
    let mut m: HashMap<String, u32> = HashMap::new(3);
    assert_eq!(m.insert(key(""), 9, 0), None);
    assert_eq!(m.get(&key("")), Some(&9));
    assert_eq!(m.remove(&key("")), Some(9));
    assert_eq!(m.get(&key("")), None);
}
