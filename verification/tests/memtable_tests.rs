use testchamber::memtable::{MemLookup, MetaMemoryTable, SequentialMemoryTable};

#[test]
fn sequential_first_seen_values_get_dense_identifiers() {
    let mut t = SequentialMemoryTable::new();
    assert_eq!(t.counter(), 0);
    assert_eq!(t.obtain(0xdead_beef), 0);
    assert_eq!(t.obtain(0x7fff_0000_1234), 1);
    assert_eq!(t.obtain(42), 2);
    assert_eq!(t.counter(), 3);
}

#[test]
fn sequential_repeated_value_keeps_its_identifier() {
    let mut t = SequentialMemoryTable::new();
    assert_eq!(t.obtain(7), 0);
    assert_eq!(t.obtain(8), 1);
    assert_eq!(t.obtain(7), 0);
    assert_eq!(t.counter(), 2);
}

#[test]
fn determinism_replaying_a_sequence_reproduces_identifiers() {
    let inputs: Vec<(u64, u64)> = vec![
        (1, 0xff),
        (1, 0x1000),
        (2, 0xff),
        (1, 0xff),
        (2, 0x2000),
        (2, 0xff),
    ];
    let mut a = MetaMemoryTable::new();
    let mut b = MetaMemoryTable::new();
    let ids_a: Vec<i64> = inputs.iter().map(|k| a.obtain(*k)).collect();
    let ids_b: Vec<i64> = inputs.iter().map(|k| b.obtain(*k)).collect();
    assert_eq!(ids_a, ids_b);
    assert_eq!(ids_a, vec![0, 1, 0, 0, 1, 0]);
}

#[test]
fn namespace_isolation_same_raw_value_under_two_syscall_numbers() {
    let mut t = MetaMemoryTable::new();
    assert_eq!(t.obtain((5, 100)), 0);
    // Assigning under syscall 5 must not pre-seed syscall 6's space.
    assert_eq!(t.obtain((6, 100)), 0);
    // Growing 5's space leaves 6's untouched.
    assert_eq!(t.obtain((5, 101)), 1);
    assert_eq!(t.obtain((5, 102)), 2);
    assert_eq!(t.obtain((6, 100)), 0);
    assert_eq!(t.counter_of(5), 3);
    assert_eq!(t.counter_of(6), 1);
}

#[test]
fn identifier_density_first_seen_order_no_gaps() {
    let mut t = MetaMemoryTable::new();
    let raw = [0xAAAAu64, 0x5555, 0xFFFF_FFFF, 3, 0x8000_0000_0000_0000];
    for (i, v) in raw.iter().enumerate() {
        assert_eq!(t.obtain((9, *v)), i as i64);
    }
    assert_eq!(t.counter_of(9), raw.len() as i64);
}

#[test]
fn idempotent_repeat_counts_once() {
    let mut t = MetaMemoryTable::new();
    let first = t.obtain((4, 0xabc));
    let counter_after_first = t.counter_of(4);
    let second = t.obtain((4, 0xabc));
    assert_eq!(first, second);
    assert_eq!(first, 0);
    assert_eq!(counter_after_first, 1);
    assert_eq!(t.counter_of(4), 1);
}

#[test]
fn mem_lookup_trait_obtains_through_the_interface() {
    fn intern<M: MemLookup<Entry = i64>>(m: &mut M, k: (u64, u64)) -> i64 {
        m.obtain(k)
    }
    let mut t = MetaMemoryTable::new();
    assert_eq!(intern(&mut t, (1, 10)), 0);
    assert_eq!(intern(&mut t, (1, 11)), 1);
    assert_eq!(intern(&mut t, (1, 10)), 0);
}
