use storage_value::fault::StorageFault;
use storage_value::slots::{Counter, NumberList, SparseNumberList};
use storage_value::store::{MemStore, RawStore};
use storage_value::value::StorageValue;

fn expected_key(id: &[u8]) -> [u8; 16] {
    let h0 = twox_hash::XxHash64::oneshot(0, id).to_le_bytes();
    let h1 = twox_hash::XxHash64::oneshot(1, id).to_le_bytes();
    let mut out = [0u8; 16];
    out[..8].copy_from_slice(&h0);
    out[8..].copy_from_slice(&h1);
    out
}

#[test]
fn key_derivation_is_deterministic() {
    let k1 = NumberList::storage_value_final_key();
    let k2 = NumberList::storage_value_final_key();
    assert_eq!(k1, k2);
    assert_eq!(k1, NumberList::hashed_key());
}

#[test]
fn key_derivation_matches_twox_128_of_identifier() {
    let id = NumberList::unhashed_key();
    assert_eq!(id, b"numbers".to_vec());
    assert_eq!(NumberList::storage_value_final_key(), expected_key(b"numbers"));
    let id2 = SparseNumberList::unhashed_key();
    assert_eq!(id2, b"sparse".to_vec());
    assert_eq!(SparseNumberList::storage_value_final_key(), expected_key(b"sparse"));
}

#[test]
fn distinct_identifiers_give_distinct_keys() {
    assert_ne!(
        NumberList::storage_value_final_key(),
        SparseNumberList::storage_value_final_key()
    );
}

#[test]
fn put_then_get_yields_the_value() {
    let mut store = MemStore::new();
    NumberList::put(&mut store, &vec![1, 2, 3]);
    assert!(NumberList::exists_in(&store));
    assert_eq!(NumberList::get(&store), Ok(vec![1, 2, 3]));
}

#[test]
fn put_ref_acts_like_put() {
    let mut a = MemStore::new();
    let mut b = MemStore::new();
    let v: Vec<u32> = vec![9, 8];
    NumberList::put(&mut a, &v);
    NumberList::put_ref(&mut b, &v);
    assert_eq!(NumberList::get(&a), NumberList::get(&b));
    let key = NumberList::storage_value_final_key();
    assert_eq!(a.get_raw(&key), b.get_raw(&key));
}

#[test]
fn stored_bytes_are_the_scale_encoding() {
    let mut store = MemStore::new();
    NumberList::put(&mut store, &vec![5]);
    let key = NumberList::storage_value_final_key();
    let raw = store.get_raw(&key).expect("entry must be present");
    assert_eq!(raw, vec![0x04, 5, 0, 0, 0]);
    assert_eq!(raw, parity_scale_codec::Encode::encode(&vec![5u32]));
}

#[test]
fn kill_then_get_yields_the_default_and_is_idempotent() {
    let mut store = MemStore::new();
    NumberList::put(&mut store, &vec![1, 2]);
    NumberList::kill(&mut store);
    assert!(!NumberList::exists_in(&store));
    assert_eq!(NumberList::get(&store), Ok(vec![]));
    // A second kill on the now absent slot is a no-op.
    NumberList::kill(&mut store);
    assert!(!NumberList::exists_in(&store));
    assert_eq!(NumberList::get(&store), Ok(vec![]));
}

#[test]
fn get_on_corrupt_bytes_reports_a_decode_fault() {
    let mut store = MemStore::new();
    let key = NumberList::storage_value_final_key();
    store.put_raw(&key, &[0x05]);
    assert_eq!(NumberList::get(&store), Err(StorageFault::DecodeFault));
}

#[test]
fn take_matches_get_then_kill() {
    // On a present, readable slot.
    let mut taken = MemStore::new();
    let mut stepped = MemStore::new();
    NumberList::put(&mut taken, &vec![4, 4]);
    NumberList::put(&mut stepped, &vec![4, 4]);
    let took = NumberList::take(&mut taken);
    let got = NumberList::get(&stepped);
    NumberList::kill(&mut stepped);
    assert_eq!(took, got);
    assert_eq!(took, Ok(vec![4, 4]));
    assert!(!NumberList::exists_in(&taken));
    assert!(!NumberList::exists_in(&stepped));

    // On an absent slot.
    let mut taken = MemStore::new();
    let mut stepped = MemStore::new();
    let took = NumberList::take(&mut taken);
    let got = NumberList::get(&stepped);
    NumberList::kill(&mut stepped);
    assert_eq!(took, got);
    assert_eq!(took, Ok(vec![]));
}

#[test]
fn take_on_corrupt_bytes_faults_and_keeps_the_entry() {
    let mut store = MemStore::new();
    let key = NumberList::storage_value_final_key();
    store.put_raw(&key, &[0x05]);
    assert_eq!(NumberList::take(&mut store), Err(StorageFault::DecodeFault));
    assert_eq!(store.get_raw(&key), Some(vec![0x05]));
}

#[test]
fn mutate_returns_the_closure_result_and_writes_back() {
    let mut store = MemStore::new();
    NumberList::put(&mut store, &vec![1]);
    let r = NumberList::mutate(&mut store, |mut q: Vec<u32>| {
        q.push(2);
        let n = q.len();
        (q, n)
    });
    assert_eq!(r, Ok(2));
    assert_eq!(NumberList::get(&store), Ok(vec![1, 2]));
}

#[test]
fn mutate_to_the_deleting_query_kills_the_slot() {
    let mut store = MemStore::new();
    SparseNumberList::put(&mut store, &vec![7]);
    assert!(SparseNumberList::exists_in(&store));
    let r = SparseNumberList::mutate(&mut store, |mut q: Vec<u32>| {
        q.clear();
        (q, ())
    });
    assert_eq!(r, Ok(()));
    assert!(!SparseNumberList::exists_in(&store));
    assert_eq!(SparseNumberList::get(&store), Ok(vec![]));
}

#[test]
fn append_on_absent_slot_matches_default_then_put() {
    // One store appends to the absent slot directly ...
    let mut appended = MemStore::new();
    assert_eq!(NumberList::append(&mut appended, &[5]), Ok(()));

    // ... the other materializes the default, extends it, and puts it.
    let mut stepped = MemStore::new();
    let mut value = NumberList::from_query_to_optional_value(
        NumberList::from_optional_value_to_query(None),
    )
    .expect("this slot's default is a stored value");
    value.push(5);
    NumberList::put(&mut stepped, &value);

    assert_eq!(NumberList::get(&appended), NumberList::get(&stepped));
    assert_eq!(NumberList::get(&appended), Ok(vec![5]));
}

#[test]
fn append_extends_the_stored_collection() {
    let mut store = MemStore::new();
    assert_eq!(NumberList::append(&mut store, &[5]), Ok(()));
    assert_eq!(NumberList::get(&store), Ok(vec![5]));
    assert_eq!(NumberList::append(&mut store, &[7]), Ok(()));
    assert_eq!(NumberList::get(&store), Ok(vec![5, 7]));
    assert_eq!(NumberList::append(&mut store, &[8, 9]), Ok(()));
    assert_eq!(NumberList::get(&store), Ok(vec![5, 7, 8, 9]));
}

#[test]
fn append_works_when_the_default_maps_to_absent() {
    // The sparse slot's default writes back as `None`, so an append to the
    // absent slot starts from the empty buffer.
    let mut store = MemStore::new();
    assert_eq!(SparseNumberList::append(&mut store, &[1]), Ok(()));
    assert_eq!(SparseNumberList::get(&store), Ok(vec![1]));
}

#[test]
fn append_on_corrupt_bytes_faults_and_writes_nothing() {
    let mut store = MemStore::new();
    let key = NumberList::storage_value_final_key();
    store.put_raw(&key, &[0x05]);
    assert_eq!(
        NumberList::append(&mut store, &[9]),
        Err(StorageFault::AppendSpliceFault)
    );
    assert_eq!(store.get_raw(&key), Some(vec![0x05]));
}

#[test]
fn append_or_put_recovers_from_corrupt_bytes() {
    let mut store = MemStore::new();
    assert_eq!(NumberList::append(&mut store, &[5]), Ok(()));
    assert_eq!(NumberList::append(&mut store, &[7]), Ok(()));
    assert_eq!(NumberList::get(&store), Ok(vec![5, 7]));

    let key = NumberList::storage_value_final_key();
    store.put_raw(&key, &[0x05]);
    NumberList::append_or_put(&mut store, &[9]);
    assert_eq!(NumberList::get(&store), Ok(vec![9]));
}

#[test]
fn append_or_put_appends_when_the_slot_is_healthy() {
    let mut store = MemStore::new();
    NumberList::put(&mut store, &vec![1]);
    NumberList::append_or_put(&mut store, &[2]);
    assert_eq!(NumberList::get(&store), Ok(vec![1, 2]));
}

#[test]
fn decode_len_reads_the_count_without_full_decode() {
    let mut store = MemStore::new();
    // Absent: the default's length.
    assert_eq!(NumberList::decode_len(&store), Ok(0));
    // Present: the stored item count.
    NumberList::put(&mut store, &vec![4, 5, 6]);
    assert_eq!(NumberList::decode_len(&store), Ok(3));
}

#[test]
fn decode_len_on_corrupt_bytes_reports_a_decode_fault() {
    let mut store = MemStore::new();
    let key = NumberList::storage_value_final_key();
    store.put_raw(&key, &[0x05]);
    assert_eq!(NumberList::decode_len(&store), Err(StorageFault::DecodeFault));
}

#[test]
fn slots_with_different_identifiers_do_not_collide() {
    let mut store = MemStore::new();
    NumberList::put(&mut store, &vec![1]);
    SparseNumberList::put(&mut store, &vec![2]);
    assert_eq!(NumberList::get(&store), Ok(vec![1]));
    assert_eq!(SparseNumberList::get(&store), Ok(vec![2]));
    NumberList::kill(&mut store);
    assert_eq!(SparseNumberList::get(&store), Ok(vec![2]));
}

#[test]
fn counter_put_then_get_and_take() {
    let mut store = MemStore::new();
    assert_eq!(Counter::get(&store), Ok(0));
    Counter::put(&mut store, &42);
    assert_eq!(Counter::get(&store), Ok(42));
    assert_eq!(Counter::take(&mut store), Ok(42));
    assert!(!Counter::exists_in(&store));
    assert_eq!(Counter::get(&store), Ok(0));
}

#[test]
fn counter_bytes_match_the_scale_encoding() {
    let mut store = MemStore::new();
    Counter::put(&mut store, &0x01020304);
    let key = Counter::storage_value_final_key();
    let raw = store.get_raw(&key).expect("entry must be present");
    assert_eq!(raw, vec![0x04, 0x03, 0x02, 0x01]);
    assert_eq!(raw, parity_scale_codec::Encode::encode(&0x01020304u32));
}

#[test]
fn counter_mutate_increments() {
    let mut store = MemStore::new();
    let r = Counter::mutate(&mut store, |q: u32| (q + 1, q));
    assert_eq!(r, Ok(0));
    let r = Counter::mutate(&mut store, |q: u32| (q + 1, q));
    assert_eq!(r, Ok(1));
    assert_eq!(Counter::get(&store), Ok(2));
}

#[test]
fn decode_len_absent_default_when_default_is_itself_absent() {
    // The sparse slot's default writes back as `None`, whose length counts
    // as zero.
    let store = MemStore::new();
    assert_eq!(SparseNumberList::decode_len(&store), Ok(0));
}

#[test]
fn decode_len_zero_is_no_proof_of_absence() {
    let mut store = MemStore::new();
    NumberList::put(&mut store, &vec![]);
    assert_eq!(NumberList::decode_len(&store), Ok(0));
    assert!(NumberList::exists_in(&store));
}

#[test]
fn decode_len_reads_only_the_prefix() {
    // The prefix announces two items but the item bytes are missing: the
    // length probe reports the prefix count, while a full read faults.
    let mut store = MemStore::new();
    let key = NumberList::storage_value_final_key();
    store.put_raw(&key, &[0x08, 0xff]);
    assert_eq!(NumberList::decode_len(&store), Ok(2));
    assert_eq!(NumberList::get(&store), Err(StorageFault::DecodeFault));
}
