//! Copies of the data types.
use vstd::prelude::*;

use crate::types::{
    AccessKey, AccessKeyPermission, AccountId, Action, AddKeyAction, DataReceiver,
    DeleteAccountAction, DeployContractAction, FunctionCallAction, FunctionCallPermission,
    ReceiptMetadata,
};
use crate::view::views;

verus! {

impl Clone for AccountId {
    fn clone(&self) -> (res: Self)
        ensures
            res == *self,
    {
        AccountId(self.0.clone())
    }
}

impl Clone for DataReceiver {
    fn clone(&self) -> (res: Self)
        ensures
            res == *self,
    {
        DataReceiver { data_id: self.data_id, receiver_id: self.receiver_id.clone() }
    }
}

impl Clone for DeployContractAction {
    fn clone(&self) -> (res: Self)
        ensures
            res.code@ == self.code@,
    {
        DeployContractAction { code: self.code.clone() }
    }
}

impl Clone for FunctionCallAction {
    fn clone(&self) -> (res: Self)
        ensures
            res@ == self@,
    {
        FunctionCallAction {
            method_name: self.method_name.clone(),
            args: self.args.clone(),
            gas: self.gas,
            deposit: self.deposit,
        }
    }
}

impl Clone for FunctionCallPermission {
    fn clone(&self) -> (res: Self)
        ensures
            res@ == self@,
    {
        let res: FunctionCallPermission = FunctionCallPermission {
            allowance: self.allowance,
            receiver_id: self.receiver_id.clone(),
            method_names: self.method_names.clone(),
        };
        assert(views(res.method_names@) =~= views(self.method_names@));
        res
    }
}

impl Clone for AccessKeyPermission {
    fn clone(&self) -> (res: Self)
        ensures
            res@ == self@,
    {
        match self {
            AccessKeyPermission::FunctionCall(permission) => {
                AccessKeyPermission::FunctionCall(permission.clone())
            },
            AccessKeyPermission::FullAccess => AccessKeyPermission::FullAccess,
        }
    }
}

impl Clone for AccessKey {
    fn clone(&self) -> (res: Self)
        ensures
            res@ == self@,
    {
        AccessKey { nonce: self.nonce, permission: self.permission.clone() }
    }
}

impl Clone for AddKeyAction {
    fn clone(&self) -> (res: Self)
        ensures
            res.public_key == self.public_key,
            res.access_key@ == self.access_key@,
    {
        AddKeyAction { public_key: self.public_key, access_key: self.access_key.clone() }
    }
}

impl Clone for DeleteAccountAction {
    fn clone(&self) -> (res: Self)
        ensures
            res == *self,
    {
        DeleteAccountAction { beneficiary_id: self.beneficiary_id.clone() }
    }
}

impl Clone for Action {
    fn clone(&self) -> (res: Self)
        ensures
            res@ == self@,
    {
        match self {
            Action::CreateAccount(a) => Action::CreateAccount(*a),
            Action::DeployContract(a) => Action::DeployContract(a.clone()),
            Action::FunctionCall(a) => Action::FunctionCall(a.clone()),
            Action::Transfer(a) => Action::Transfer(*a),
            Action::Stake(a) => Action::Stake(*a),
            Action::AddKey(a) => Action::AddKey(a.clone()),
            Action::DeleteKey(a) => Action::DeleteKey(*a),
            Action::DeleteAccount(a) => Action::DeleteAccount(a.clone()),
        }
    }
}

impl Clone for ReceiptMetadata {
    fn clone(&self) -> (res: Self)
        ensures
            res@ == self@,
    {
        let res: ReceiptMetadata = ReceiptMetadata {
            output_data_receivers: self.output_data_receivers.clone(),
            input_data_ids: self.input_data_ids.clone(),
            actions: self.actions.clone(),
        };
        assert(views(res.output_data_receivers@) =~= views(self.output_data_receivers@));
        assert(res.input_data_ids@ =~= self.input_data_ids@);
        assert(views(res.actions@) =~= views(self.actions@));
        res
    }
}

} // verus!
