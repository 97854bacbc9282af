use receipt_manager::{
    AccountId, CryptoHash, DataReceiver, External, GasWeight, HostError, ReceiptManager,
    ReceiptMetadata, VMLogicError,
};

/// Hands out the ids 1, 2, 3 and so on.
struct Counter {
    next: u8,
}

impl External for Counter {
    fn generate_data_id(&mut self) -> CryptoHash {
        self.next += 1;
        CryptoHash([self.next; 32])
    }
}

fn account(name: &str) -> AccountId {
    AccountId(name.to_string())
}

fn id(n: u8) -> CryptoHash {
    CryptoHash([n; 32])
}

fn receiver(n: u8, name: &str) -> DataReceiver {
    DataReceiver { data_id: id(n), receiver_id: account(name) }
}

fn unknown(receipt_index: u64) -> VMLogicError {
    VMLogicError::HostError(HostError::InvalidReceiptIndex { receipt_index })
}

#[test]
fn a_new_manager_has_no_receipts() {
    let manager = ReceiptManager::default();
    assert!(manager.action_receipts().is_empty());
}

#[test]
fn a_receipt_without_dependencies_takes_no_data_id() {
    let mut manager = ReceiptManager::default();
    let mut ext = Counter { next: 0 };
    assert_eq!(manager.create_receipt(&mut ext, vec![], account("alice")), Ok(0));
    assert_eq!(manager.create_receipt(&mut ext, vec![], account("bob")), Ok(1));
    assert_eq!(ext.next, 0);
    let empty = ReceiptMetadata {
        output_data_receivers: vec![],
        input_data_ids: vec![],
        actions: vec![],
    };
    assert_eq!(manager.action_receipts()[0], (account("alice"), empty.clone()));
    assert_eq!(manager.action_receipts()[1], (account("bob"), empty));
    assert_eq!(manager.get_receipt_receiver(0), &account("alice"));
    assert_eq!(manager.get_receipt_receiver(1), &account("bob"));
}

#[test]
fn a_receipt_is_linked_to_those_it_waits_for() {
    let mut manager = ReceiptManager::default();
    let mut ext = Counter { next: 0 };
    manager.create_receipt(&mut ext, vec![], account("alice")).unwrap();
    manager.create_receipt(&mut ext, vec![], account("bob")).unwrap();
    assert_eq!(manager.create_receipt(&mut ext, vec![1, 0, 1], account("carol")), Ok(2));
    assert_eq!(ext.next, 3);
    let receipts = manager.into_action_receipts();
    assert_eq!(receipts.len(), 3);
    assert_eq!(receipts[0].1.output_data_receivers, vec![receiver(2, "carol")]);
    assert_eq!(
        receipts[1].1.output_data_receivers,
        vec![receiver(1, "carol"), receiver(3, "carol")]
    );
    assert_eq!(receipts[2].1.input_data_ids, vec![id(1), id(2), id(3)]);
    assert!(receipts[2].1.output_data_receivers.is_empty());
    assert!(receipts[2].1.actions.is_empty());
}

#[test]
fn the_first_unknown_index_is_reported() {
    let mut manager = ReceiptManager::default();
    let mut ext = Counter { next: 0 };
    manager.create_receipt(&mut ext, vec![], account("alice")).unwrap();
    assert_eq!(manager.create_receipt(&mut ext, vec![0, 5, 0, 6], account("bob")), Err(unknown(5)));
    // The id for the unknown index was taken, those behind it were not.
    assert_eq!(ext.next, 2);
    assert_eq!(manager.action_receipts().len(), 1);
    // The receipt listed before the unknown one keeps its link.
    assert_eq!(
        manager.action_receipts()[0].1.output_data_receivers,
        vec![receiver(1, "bob")]
    );
}

#[test]
fn a_receipt_cannot_wait_for_itself() {
    let mut manager = ReceiptManager::default();
    let mut ext = Counter { next: 0 };
    assert_eq!(manager.create_receipt(&mut ext, vec![0], account("alice")), Err(unknown(0)));
    assert!(manager.action_receipts().is_empty());
    assert_eq!(
        manager.create_receipt(&mut ext, vec![u64::MAX], account("alice")),
        Err(unknown(u64::MAX))
    );
}

#[test]
fn given_data_ids_are_used_in_order() {
    let mut manager = ReceiptManager::default();
    assert_eq!(manager.create_receipt_with_data_ids(vec![], vec![], account("alice")), Ok(0));
    assert_eq!(
        manager.create_receipt_with_data_ids(vec![id(7), id(9)], vec![0, 0], account("bob")),
        Ok(1)
    );
    assert_eq!(
        manager.action_receipts()[0].1.output_data_receivers,
        vec![receiver(7, "bob"), receiver(9, "bob")]
    );
    assert_eq!(manager.action_receipts()[1].1.input_data_ids, vec![id(7), id(9)]);
    assert_eq!(
        manager.create_receipt_with_data_ids(vec![id(1), id(2)], vec![2, 0], account("carol")),
        Err(unknown(2))
    );
    assert_eq!(manager.action_receipts().len(), 2);
    assert_eq!(manager.action_receipts()[0].1.output_data_receivers.len(), 2);
}

#[test]
fn data_ids_may_come_through_a_trait_object() {
    let mut counter = Counter { next: 0 };
    let ext: &mut dyn External = &mut counter;
    let mut manager = ReceiptManager::default();
    manager.create_receipt(ext, vec![], account("alice")).unwrap();
    assert_eq!(manager.create_receipt(ext, vec![0], account("bob")), Ok(1));
    assert_eq!(manager.action_receipts()[1].1.input_data_ids, vec![id(1)]);
}

#[test]
fn every_input_is_sent_by_an_earlier_receipt() {
    let mut manager = ReceiptManager::default();
    let mut ext = Counter { next: 0 };
    manager.create_receipt(&mut ext, vec![], account("alice")).unwrap();
    manager.create_receipt(&mut ext, vec![0], account("bob")).unwrap();
    manager.create_receipt(&mut ext, vec![1, 9], account("carol")).unwrap_err();
    manager.create_receipt(&mut ext, vec![0, 1], account("dave")).unwrap();
    let receipts = manager.action_receipts();
    for r in 0..receipts.len() {
        for data_id in &receipts[r].1.input_data_ids {
            let wanted =
                DataReceiver { data_id: *data_id, receiver_id: receipts[r].0.clone() };
            assert!(receipts[..r].iter().any(|s| s.1.output_data_receivers.contains(&wanted)));
        }
    }
}

#[test]
fn a_clone_is_equal_and_independent() {
    let mut manager = ReceiptManager::default();
    let mut ext = Counter { next: 0 };
    manager.create_receipt(&mut ext, vec![], account("alice")).unwrap();
    let snapshot = manager.clone();
    assert!(snapshot == manager);
    manager.append_action_transfer(0, 1).unwrap();
    assert!(snapshot != manager);
    assert!(snapshot.action_receipts()[0].1.actions.is_empty());
}

#[test]
fn indices_and_receivers_are_stable() {
    let mut manager = ReceiptManager::default();
    let mut ext = Counter { next: 0 };
    let index = manager.create_receipt(&mut ext, vec![], account("alice")).unwrap();
    let call = b"f".to_vec();
    manager
        .append_action_function_call_weight(index, call, vec![], 0, 0, GasWeight(1))
        .unwrap();
    manager.create_receipt(&mut ext, vec![index], account("bob")).unwrap();
    manager.create_receipt(&mut ext, vec![index, 9], account("carol")).unwrap_err();
    manager.append_action_transfer(index, 1).unwrap();
    manager.distribute_unused_gas(5);
    assert_eq!(manager.get_receipt_receiver(index), &account("alice"));
    assert_eq!(manager.action_receipts().len(), 2);
}
