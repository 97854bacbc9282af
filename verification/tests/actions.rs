use receipt_manager::{
    AccessKey, AccessKeyPermission, AccountId, Action, AddKeyAction, CreateAccountAction,
    CryptoHash, DeleteAccountAction, DeleteKeyAction, DeployContractAction, FunctionCallAction,
    FunctionCallPermission, GasWeight, HostError, PublicKey, ReceiptManager, StakeAction,
    TransferAction, VMLogicError,
};

fn account(name: &str) -> AccountId {
    AccountId(name.to_string())
}

/// A manager with `n` receipts.
fn manager_with(n: usize) -> ReceiptManager {
    let mut manager = ReceiptManager::default();
    for _ in 0..n {
        manager.create_receipt_with_data_ids(vec![], vec![], account("alice")).unwrap();
    }
    manager
}

fn actions(manager: &ReceiptManager, receipt: usize) -> &Vec<Action> {
    &manager.action_receipts()[receipt].1.actions
}

fn invalid_method_name() -> VMLogicError {
    VMLogicError::HostError(HostError::InvalidMethodName)
}

fn invalid_public_key() -> VMLogicError {
    VMLogicError::HostError(HostError::InvalidPublicKey)
}

/// The encoding of an ed25519 key of bytes 1, 2, 3 and so on.
fn ed25519_bytes() -> Vec<u8> {
    let mut bytes = vec![0u8];
    bytes.extend(1..=32u8);
    bytes
}

fn ed25519_key() -> PublicKey {
    let mut data = [0u8; 32];
    for i in 0..32 {
        data[i] = i as u8 + 1;
    }
    PublicKey::ED25519(data)
}

/// The encoding of a secp256k1 key of bytes 1, 2, 3 and so on.
fn secp256k1_bytes() -> Vec<u8> {
    let mut bytes = vec![1u8];
    bytes.extend(1..=64u8);
    bytes
}

fn secp256k1_key() -> PublicKey {
    let mut data = [0u8; 64];
    for i in 0..64 {
        data[i] = i as u8 + 1;
    }
    PublicKey::SECP256K1(data)
}

#[test]
fn plain_actions_are_attached_in_order() {
    let mut manager = manager_with(1);
    assert_eq!(manager.append_action_create_account(0), Ok(()));
    assert_eq!(manager.append_action_deploy_contract(0, vec![1, 2, 3]), Ok(()));
    assert_eq!(manager.append_action_transfer(0, u128::MAX), Ok(()));
    assert_eq!(manager.append_action_delete_account(0, account("bob")), Ok(()));
    assert_eq!(
        actions(&manager, 0),
        &vec![
            Action::CreateAccount(CreateAccountAction {}),
            Action::DeployContract(DeployContractAction { code: vec![1, 2, 3] }),
            Action::Transfer(TransferAction { deposit: u128::MAX }),
            Action::DeleteAccount(DeleteAccountAction { beneficiary_id: account("bob") }),
        ]
    );
}

#[test]
fn an_action_goes_to_its_receipt_only() {
    let mut manager = manager_with(3);
    manager.append_action_transfer(1, 10).unwrap();
    manager.append_action_transfer(2, 20).unwrap();
    manager.append_action_transfer(1, 11).unwrap();
    assert!(actions(&manager, 0).is_empty());
    assert_eq!(
        actions(&manager, 1),
        &vec![
            Action::Transfer(TransferAction { deposit: 10 }),
            Action::Transfer(TransferAction { deposit: 11 }),
        ]
    );
    assert_eq!(
        actions(&manager, 2),
        &vec![Action::Transfer(TransferAction { deposit: 20 })]
    );
}

#[test]
fn appends_to_different_receipts_commute() {
    let mut one = manager_with(2);
    one.append_action_transfer(0, 1).unwrap();
    one.append_action_create_account(1).unwrap();
    let mut other = manager_with(2);
    other.append_action_create_account(1).unwrap();
    other.append_action_transfer(0, 1).unwrap();
    assert!(one == other);
}

#[test]
fn a_function_call_is_attached() {
    let mut manager = manager_with(1);
    let name = "größe".as_bytes().to_vec();
    assert_eq!(manager.append_action_function_call(0, name, vec![4, 5], 6, 7), Ok(()));
    assert_eq!(
        actions(&manager, 0),
        &vec![Action::FunctionCall(FunctionCallAction {
            method_name: "größe".to_string(),
            args: vec![4, 5],
            gas: 7,
            deposit: 6,
        })]
    );
}

#[test]
fn a_method_name_that_is_not_utf8_is_refused() {
    let mut manager = manager_with(1);
    let before = manager.clone();
    for name in [vec![0xff], vec![b'a', 0xc3], vec![0xed, 0xa0, 0x80], vec![0xc0, 0x80]] {
        assert_eq!(
            manager.append_action_function_call(0, name.clone(), vec![], 0, 0),
            Err(invalid_method_name())
        );
        assert_eq!(
            manager.append_action_function_call_weight(0, name, vec![], 0, 0, GasWeight(1)),
            Err(invalid_method_name())
        );
    }
    assert!(manager == before);
}

#[test]
fn a_weight_of_zero_is_no_weight() {
    let mut weighted = manager_with(1);
    let mut plain = manager_with(1);
    weighted
        .append_action_function_call_weight(0, b"f".to_vec(), vec![1], 2, 3, GasWeight(0))
        .unwrap();
    plain.append_action_function_call(0, b"f".to_vec(), vec![1], 2, 3).unwrap();
    assert!(weighted == plain);
    weighted
        .append_action_function_call_weight(0, b"f".to_vec(), vec![1], 2, 3, GasWeight(1))
        .unwrap();
    plain.append_action_function_call(0, b"f".to_vec(), vec![1], 2, 3).unwrap();
    assert!(weighted != plain);
    assert_eq!(actions(&weighted, 0), actions(&plain, 0));
}

#[test]
fn keys_of_both_curves_are_decoded() {
    let mut manager = manager_with(1);
    assert_eq!(manager.append_action_stake(0, 5, ed25519_bytes()), Ok(()));
    assert_eq!(manager.append_action_stake(0, 6, secp256k1_bytes()), Ok(()));
    assert_eq!(manager.append_action_delete_key(0, secp256k1_bytes()), Ok(()));
    assert_eq!(manager.append_action_delete_key(0, ed25519_bytes()), Ok(()));
    assert_eq!(
        actions(&manager, 0),
        &vec![
            Action::Stake(StakeAction { stake: 5, public_key: ed25519_key() }),
            Action::Stake(StakeAction { stake: 6, public_key: secp256k1_key() }),
            Action::DeleteKey(DeleteKeyAction { public_key: secp256k1_key() }),
            Action::DeleteKey(DeleteKeyAction { public_key: ed25519_key() }),
        ]
    );
}

#[test]
fn bytes_that_are_no_key_are_refused() {
    let mut short = ed25519_bytes();
    short.pop();
    let mut long = ed25519_bytes();
    long.push(0);
    let mut other_curve = ed25519_bytes();
    other_curve[0] = 2;
    let mut wrong_curve = ed25519_bytes();
    wrong_curve[0] = 1;
    let mut wrong_size = secp256k1_bytes();
    wrong_size[0] = 0;
    let mut short_secp = secp256k1_bytes();
    short_secp.pop();
    let mut long_secp = secp256k1_bytes();
    long_secp.push(1);
    let mut manager = manager_with(1);
    let before = manager.clone();
    for bytes in [
        vec![],
        vec![0],
        vec![1],
        short,
        long,
        other_curve,
        wrong_curve,
        wrong_size,
        short_secp,
        long_secp,
    ] {
        assert_eq!(manager.append_action_stake(0, 1, bytes.clone()), Err(invalid_public_key()));
        assert_eq!(manager.append_action_delete_key(0, bytes.clone()), Err(invalid_public_key()));
        assert_eq!(
            manager.append_action_add_key_with_full_access(0, bytes.clone(), 1),
            Err(invalid_public_key())
        );
        assert_eq!(
            manager.append_action_add_key_with_function_call(
                0,
                bytes,
                1,
                None,
                account("bob"),
                vec![]
            ),
            Err(invalid_public_key())
        );
    }
    assert!(manager == before);
}

#[test]
fn a_full_access_key_is_added() {
    let mut manager = manager_with(1);
    assert_eq!(manager.append_action_add_key_with_full_access(0, ed25519_bytes(), 9), Ok(()));
    assert_eq!(
        actions(&manager, 0),
        &vec![Action::AddKey(AddKeyAction {
            public_key: ed25519_key(),
            access_key: AccessKey { nonce: 9, permission: AccessKeyPermission::FullAccess },
        })]
    );
}

#[test]
fn a_function_call_key_is_added() {
    let mut manager = manager_with(1);
    assert_eq!(
        manager.append_action_add_key_with_function_call(
            0,
            secp256k1_bytes(),
            3,
            Some(100),
            account("bob"),
            vec![b"get".to_vec(), b"".to_vec(), b"set".to_vec()],
        ),
        Ok(())
    );
    assert_eq!(
        actions(&manager, 0),
        &vec![Action::AddKey(AddKeyAction {
            public_key: secp256k1_key(),
            access_key: AccessKey {
                nonce: 3,
                permission: AccessKeyPermission::FunctionCall(FunctionCallPermission {
                    allowance: Some(100),
                    receiver_id: "bob".to_string(),
                    method_names: vec!["get".to_string(), "".to_string(), "set".to_string()],
                }),
            },
        })]
    );
}

#[test]
fn one_bad_method_name_refuses_a_function_call_key() {
    let mut manager = manager_with(1);
    let before = manager.clone();
    assert_eq!(
        manager.append_action_add_key_with_function_call(
            0,
            ed25519_bytes(),
            0,
            None,
            account("bob"),
            vec![b"get".to_vec(), vec![0x80]],
        ),
        Err(invalid_method_name())
    );
    // A bad key is reported before a bad method name.
    assert_eq!(
        manager.append_action_add_key_with_function_call(
            0,
            vec![],
            0,
            None,
            account("bob"),
            vec![vec![0x80]],
        ),
        Err(invalid_public_key())
    );
    assert!(manager == before);
}

#[test]
fn actions_stay_in_the_order_of_the_calls() {
    let mut manager = manager_with(2);
    manager.append_action_transfer(0, 10).unwrap();
    manager.append_action_transfer(1, 20).unwrap();
    manager.append_action_create_account(1).unwrap();
    let id = CryptoHash([1; 32]);
    manager.create_receipt_with_data_ids(vec![id], vec![0], account("bob")).unwrap();
    manager.create_receipt_with_data_ids(vec![id], vec![7], account("bob")).unwrap_err();
    manager.append_action_transfer(0, 11).unwrap();
    assert_eq!(
        actions(&manager, 0),
        &vec![
            Action::Transfer(TransferAction { deposit: 10 }),
            Action::Transfer(TransferAction { deposit: 11 }),
        ]
    );
}

#[test]
fn actions_of_a_receipt_are_numbered_one_by_one() {
    let mut manager = manager_with(2);
    let transfer = |deposit| Action::Transfer(TransferAction { deposit });
    assert_eq!(manager.append_action(0, transfer(1)), 0);
    assert_eq!(manager.append_action(1, transfer(2)), 0);
    assert_eq!(manager.append_action(1, transfer(3)), 1);
    manager.create_receipt_with_data_ids(vec![], vec![], account("bob")).unwrap();
    assert_eq!(manager.append_action(0, transfer(4)), 1);
    assert_eq!(actions(&manager, 0), &vec![transfer(1), transfer(4)]);
    assert_eq!(actions(&manager, 1), &vec![transfer(2), transfer(3)]);
}
