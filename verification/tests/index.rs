use medical_device_tracking::index::{IndexEntry, Key, SecondaryIndex};
use medical_device_tracking::{Address, Error, IdentityProof};

fn address(name: &str) -> Address {
    Address(name.to_string())
}

#[test]
fn index_starts_empty() {
    let index: SecondaryIndex<u64> = SecondaryIndex::new();
    assert!(index.entries.is_empty());
    assert_eq!(index.ids(&1), Vec::<u64>::new());
    assert_eq!(index.get(&1), None);
    assert_eq!(index.position(&1), None);
}

#[test]
fn index_keeps_the_order_of_filing() {
    let mut index: SecondaryIndex<u64> = SecondaryIndex::new();
    index.append(7, 3);
    index.append(9, 1);
    index.append(7, 2);
    index.append(7, 3);
    assert_eq!(index.ids(&7), vec![3, 2, 3]);
    assert_eq!(index.ids(&9), vec![1]);
    assert_eq!(index.ids(&8), Vec::<u64>::new());
    assert_eq!(index.get(&9), Some(&vec![1]));
    assert_eq!(index.position(&7), Some(0));
    assert_eq!(index.position(&9), Some(1));
    assert_eq!(index.entries.len(), 2);
}

#[test]
fn index_by_address_tells_addresses_apart() {
    let mut index: SecondaryIndex<Address> = SecondaryIndex::new();
    index.append(address("patient-1"), 1);
    index.append(address("patient-2"), 2);
    index.append(address("patient-1"), 3);
    assert_eq!(index.ids(&address("patient-1")), vec![1, 3]);
    assert_eq!(index.ids(&address("patient-2")), vec![2]);
    assert_eq!(index.ids(&address("patient-")), Vec::<u64>::new());
    assert_eq!(index.ids(&address("")), Vec::<u64>::new());
}

#[test]
fn index_reads_the_entry_nearest_the_end() {
    let mut index = SecondaryIndex {
        entries: vec![
            IndexEntry { key: 5u64, ids: vec![1] },
            IndexEntry { key: 6u64, ids: vec![2] },
            IndexEntry { key: 5u64, ids: vec![3] },
        ],
    };
    assert_eq!(index.position(&5), Some(2));
    assert_eq!(index.ids(&5), vec![3]);
    index.append(5, 4);
    assert_eq!(index.ids(&5), vec![3, 4]);
    assert_eq!(index.entries[0].ids, vec![1]);
    assert_eq!(index.ids(&6), vec![2]);
}

#[test]
fn keys_compare_by_value() {
    assert!(5u64.same_key(&5));
    assert!(!5u64.same_key(&6));
    assert!(address("a").same_key(&address("a")));
    assert!(!address("a").same_key(&address("b")));
    assert!(address("a").same(&address("a")));
    assert!(!address("a").same(&address("A")));
}

#[test]
fn identity_proof_carries_its_address() {
    let confirmed = IdentityProof::confirmed(address("provider"));
    let copy = confirmed.clone();
    assert_eq!(copy, confirmed);
    assert_eq!(confirmed.into_address(), address("provider"));
    assert_eq!(copy.into_address(), address("provider"));
}

#[test]
fn errors_are_distinct() {
    assert_ne!(Error::NotAuthorized, Error::RecordNotFound);
    assert_ne!(Error::RecordNotFound, Error::DeviceNotActive);
    assert_ne!(Error::NotAuthorized, Error::DeviceNotActive);
    let copy = Error::DeviceNotActive;
    assert_eq!(copy, Error::DeviceNotActive);
}
