use netpulse::records::{Check, FLAG_IPV4, FLAG_SUCCESS, FLAG_TYPE_HTTP, FLAG_TYPE_ICMP4};
use netpulse::store::{Loaded, ReadOutcome, Store, StoreError};

fn sample_check(ts: u64, flags: u16) -> Check {
    Check::new(ts, flags, Some(12), String::from("1.2.3.4"))
}

#[test]
fn round_trip_preserves_the_whole_history() {
    let mut store = Store::new();
    store.add_check(sample_check(100, FLAG_TYPE_HTTP | FLAG_IPV4 | FLAG_SUCCESS));
    store.add_check(sample_check(200, FLAG_TYPE_HTTP | FLAG_IPV4));
    store.add_check(Check::new(300, FLAG_TYPE_ICMP4 | FLAG_IPV4, None, String::from("::1")));
    let bytes = store.to_bytes();
    let loaded = Store::from_bytes(&bytes).expect("decoding must work");
    let orig = store.checks();
    let back = loaded.checks();
    assert_eq!(orig.len(), back.len());
    for i in 0..orig.len() {
        assert_eq!(orig[i].timestamp(), back[i].timestamp());
        assert_eq!(orig[i].flags(), back[i].flags());
        assert_eq!(orig[i].latency(), back[i].latency());
        assert_eq!(orig[i].target(), back[i].target());
    }
}

#[test]
fn load_missing_is_the_does_not_exist_condition() {
    let r = Store::load(ReadOutcome::Missing);
    assert!(matches!(r, Err(StoreError::DoesNotExist)));
}

#[test]
fn load_unreadable_is_a_plain_io_error() {
    let r = Store::load(ReadOutcome::Unreadable);
    assert!(matches!(r, Err(StoreError::Io)));
}

#[test]
fn load_garbage_is_a_compression_error() {
    let r = Store::load(ReadOutcome::Data(vec![1, 2, 3, 4, 5]));
    assert!(matches!(r, Err(StoreError::Compression)));
}

#[test]
fn load_truncated_rows_is_a_serde_error() {
    // A valid zstd frame whose contents are not a bincode row vector.
    let framed = zstd::stream::encode_all(&[1u8, 2, 3][..], 4).unwrap();
    let r = Store::from_bytes(&framed);
    assert!(matches!(r, Err(StoreError::Serde)));
}

#[test]
fn snapshots_are_zstd_frames() {
    let store = Store::new();
    let bytes = store.to_bytes();
    assert!(bytes.len() >= 4);
    assert_eq!(&bytes[0..4], &[0x28, 0xb5, 0x2f, 0xfd]);
}

#[test]
fn snapshot_rows_are_bincode() {
    // An empty row vector is eight zero length bytes under bincode; a
    // store decoded from that must be empty.
    let plain = vec![0u8; 8];
    let framed = zstd::stream::encode_all(plain.as_slice(), 4).unwrap();
    let store = Store::from_bytes(&framed).expect("an empty row vector must decode");
    assert_eq!(store.checks().len(), 0);
}

#[test]
fn load_or_create_fresh_environment_yields_empty_store_and_loadable_file() {
    let r = Store::load_or_create(ReadOutcome::Missing).expect("creation must work");
    match r {
        Loaded::Created(store, bytes) => {
            assert_eq!(store.checks().len(), 0);
            let again = Store::load(ReadOutcome::Data(bytes)).expect("the new file must load");
            assert_eq!(again.checks().len(), 0);
        }
        Loaded::Opened(_) => panic!("a missing file must create, not open"),
    }
}

#[test]
fn load_or_create_opens_an_existing_snapshot() {
    let mut store = Store::new();
    store.add_check(sample_check(7, FLAG_TYPE_HTTP | FLAG_IPV4 | FLAG_SUCCESS));
    let bytes = store.to_bytes();
    let r = Store::load_or_create(ReadOutcome::Data(bytes)).expect("loading must work");
    match r {
        Loaded::Opened(st) => assert_eq!(st.checks().len(), 1),
        Loaded::Created(_, _) => panic!("existing data must open, not create"),
    }
}

#[test]
fn load_or_create_propagates_corruption() {
    let r = Store::load_or_create(ReadOutcome::Data(vec![9, 9, 9]));
    assert!(matches!(r, Err(StoreError::Compression)));
}

#[test]
fn save_requires_an_existing_file() {
    let store = Store::new();
    assert!(matches!(store.save(false), Err(StoreError::DoesNotExist)));
    let bytes = store.save(true).expect("saving over an existing file must work");
    let back = Store::from_bytes(&bytes).unwrap();
    assert_eq!(back.checks().len(), 0);
}

#[test]
fn saving_an_unchanged_store_is_idempotent_in_bytes() {
    let mut store = Store::new();
    store.add_check(sample_check(42, FLAG_TYPE_HTTP | FLAG_IPV4 | FLAG_SUCCESS));
    store.add_check(sample_check(43, FLAG_TYPE_HTTP | FLAG_IPV4));
    let first = store.save(true).unwrap();
    let second = store.save(true).unwrap();
    assert_eq!(first, second);
    assert_eq!(store.to_bytes(), first);
}

#[test]
fn add_check_appends_in_arrival_order() {
    let mut store = Store::new();
    store.add_check(sample_check(2, FLAG_TYPE_HTTP));
    store.add_check(sample_check(1, FLAG_TYPE_HTTP));
    assert_eq!(store.checks().len(), 2);
    assert_eq!(store.checks()[0].timestamp(), 2);
    assert_eq!(store.checks()[1].timestamp(), 1);
}

#[test]
fn path_prefers_the_directory_override() {
    let dir = String::from("/tmp/somewhere");
    assert_eq!(Store::path(Some(&dir)), "/tmp/somewhere/netpulse.store");
    assert_eq!(Store::path(None), "/var/lib/netpulse/netpulse.store");
}

#[test]
fn display_hash_is_stable_and_content_dependent() {
    let mut a = Store::new();
    let mut b = Store::new();
    assert_eq!(a.display_hash(), b.display_hash());
    a.add_check(sample_check(1, FLAG_TYPE_HTTP));
    assert_ne!(a.display_hash(), b.display_hash());
    b.add_check(sample_check(1, FLAG_TYPE_HTTP));
    assert_eq!(a.display_hash(), b.display_hash());
    assert_eq!(a.display_hash().len(), 16);
}

#[test]
fn file_hash_matches_the_byte_hash() {
    let bytes = vec![0u8];
    let seed = netpulse::records::HASH_SEED;
    let prime = netpulse::records::HASH_PRIME;
    let expected = (seed ^ 0).wrapping_mul(prime);
    assert_eq!(netpulse::records::hash_bytes(&bytes), expected);
    assert_eq!(
        Store::display_hash_of_bytes(&bytes),
        format!("{:016x}", expected)
    );
    assert_eq!(netpulse::records::hash_bytes(&Vec::new()), seed);
}
