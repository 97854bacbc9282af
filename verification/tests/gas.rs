use receipt_manager::{AccountId, Action, GasDistribution, GasWeight, ReceiptManager};

/// A manager with `n` receipts.
fn manager_with(n: usize) -> ReceiptManager {
    let mut manager = ReceiptManager::default();
    for _ in 0..n {
        let alice = AccountId("alice".to_string());
        manager.create_receipt_with_data_ids(vec![], vec![], alice).unwrap();
    }
    manager
}

fn call(manager: &mut ReceiptManager, receipt: u64, gas: u64, weight: u64) {
    manager
        .append_action_function_call_weight(
            receipt,
            b"f".to_vec(),
            vec![],
            0,
            gas,
            GasWeight(weight),
        )
        .unwrap();
}

/// The gas of each function call, receipt by receipt.
fn gas(manager: &ReceiptManager) -> Vec<u64> {
    let mut all = vec![];
    for (_, receipt) in manager.action_receipts() {
        for action in &receipt.actions {
            if let Action::FunctionCall(call) = action {
                all.push(call.gas);
            }
        }
    }
    all
}

#[test]
fn gas_is_shared_by_weight() {
    let mut manager = manager_with(2);
    call(&mut manager, 0, 10, 1);
    call(&mut manager, 1, 20, 3);
    assert_eq!(manager.distribute_unused_gas(400), GasDistribution::All);
    assert_eq!(gas(&manager), vec![110, 320]);
}

#[test]
fn what_rounding_leaves_goes_to_the_last_call() {
    let mut manager = manager_with(1);
    call(&mut manager, 0, 0, 1);
    call(&mut manager, 0, 0, 1);
    call(&mut manager, 0, 0, 1);
    assert_eq!(manager.distribute_unused_gas(11), GasDistribution::All);
    assert_eq!(gas(&manager), vec![3, 3, 5]);
}

#[test]
fn the_last_call_is_the_one_attached_last() {
    let mut manager = manager_with(2);
    call(&mut manager, 1, 0, 2);
    call(&mut manager, 0, 0, 1);
    assert_eq!(manager.distribute_unused_gas(10), GasDistribution::All);
    assert_eq!(gas(&manager), vec![4, 6]);
}

#[test]
fn without_weights_nothing_is_distributed() {
    let mut manager = manager_with(1);
    assert_eq!(manager.distribute_unused_gas(5), GasDistribution::NoRatios);
    call(&mut manager, 0, 7, 0);
    manager.append_action_function_call(0, b"g".to_vec(), vec![], 0, 8).unwrap();
    let before = manager.clone();
    assert_eq!(manager.distribute_unused_gas(u64::MAX), GasDistribution::NoRatios);
    assert!(manager == before);
}

#[test]
fn calls_without_a_weight_get_nothing() {
    let mut manager = manager_with(1);
    call(&mut manager, 0, 1, 0);
    call(&mut manager, 0, 2, 5);
    manager.append_action_transfer(0, 100).unwrap();
    manager.append_action_function_call(0, b"g".to_vec(), vec![], 0, 3).unwrap();
    let before = manager.clone();
    assert_eq!(manager.distribute_unused_gas(10), GasDistribution::All);
    assert_eq!(gas(&manager), vec![1, 12, 3]);
    assert_eq!(
        manager.action_receipts()[0].1.actions[2],
        before.action_receipts()[0].1.actions[2]
    );
}

#[test]
fn weights_are_used_up() {
    let mut manager = manager_with(1);
    call(&mut manager, 0, 0, 1);
    assert_eq!(manager.distribute_unused_gas(10), GasDistribution::All);
    assert_eq!(manager.distribute_unused_gas(10), GasDistribution::NoRatios);
    assert_eq!(gas(&manager), vec![10]);
    call(&mut manager, 0, 0, 4);
    assert_eq!(manager.distribute_unused_gas(3), GasDistribution::All);
    assert_eq!(gas(&manager), vec![10, 3]);
}

#[test]
fn large_amounts_do_not_overflow() {
    let mut manager = manager_with(1);
    call(&mut manager, 0, 0, u64::MAX);
    call(&mut manager, 0, 0, u64::MAX);
    call(&mut manager, 0, 0, 1);
    assert_eq!(manager.distribute_unused_gas(u64::MAX), GasDistribution::All);
    let half = u64::MAX / 2;
    assert_eq!(gas(&manager), vec![half, half, 1]);
}

#[test]
fn no_gas_is_lost() {
    for unused in [0, 1, 2, 97, 1_000_003] {
        let mut manager = manager_with(3);
        for k in 0..7u64 {
            call(&mut manager, k % 3, k, k * k);
        }
        let before: u64 = gas(&manager).iter().sum();
        assert_eq!(manager.distribute_unused_gas(unused), GasDistribution::All);
        let after: u64 = gas(&manager).iter().sum();
        assert_eq!(after, before + unused);
    }
}

#[test]
fn a_larger_weight_has_the_larger_share() {
    let mut manager = manager_with(1);
    for weight in 1..=5 {
        call(&mut manager, 0, 0, weight);
    }
    assert_eq!(manager.distribute_unused_gas(100), GasDistribution::All);
    assert_eq!(gas(&manager), vec![6, 13, 20, 26, 35]);
}

#[test]
fn a_call_may_be_filled_up_to_the_brim() {
    let mut manager = manager_with(1);
    call(&mut manager, 0, u64::MAX - 10, 3);
    assert_eq!(manager.distribute_unused_gas(10), GasDistribution::All);
    assert_eq!(gas(&manager), vec![u64::MAX]);
}

#[test]
fn gas_that_would_not_fit_is_told_beforehand() {
    let mut manager = manager_with(1);
    // Without a claim nothing is added, so anything fits.
    call(&mut manager, 0, u64::MAX, 0);
    assert!(manager.unused_gas_fits(u64::MAX));
    call(&mut manager, 0, u64::MAX - 3, 1);
    call(&mut manager, 0, u64::MAX - 4, 1);
    assert!(manager.unused_gas_fits(0));
    // Three units each, and the odd one to the last call: both are full then.
    assert!(manager.unused_gas_fits(7));
    assert!(!manager.unused_gas_fits(8));
    assert!(!manager.unused_gas_fits(9));
    assert_eq!(manager.distribute_unused_gas(7), GasDistribution::All);
    assert_eq!(gas(&manager), vec![u64::MAX, u64::MAX, u64::MAX]);
    assert!(manager.unused_gas_fits(u64::MAX));
}

#[test]
fn a_call_keeps_its_index_when_gas_is_distributed() {
    let mut manager = manager_with(1);
    call(&mut manager, 0, 1, 1);
    assert_eq!(manager.distribute_unused_gas(10), GasDistribution::All);
    call(&mut manager, 0, 2, 0);
    assert_eq!(gas(&manager), vec![11, 2]);
}
