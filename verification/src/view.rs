//! Mathematical views of the data types.
use vstd::prelude::*;

use crate::types::{
    AccessKey, AccessKeyPermission, AccountId, Action, Balance, CryptoHash, DataReceiver,
    FunctionCallAction, FunctionCallPermission, Nonce, PublicKey, ReceiptMetadata,
};

verus! {

/// The views of the elements of a sequence, in order.
pub open spec fn views<T: View>(s: Seq<T>) -> Seq<T::V> {
    Seq::new(s.len(), |i: int| s[i]@)
}

impl View for AccountId {
    type V = Seq<char>;

    open spec fn view(&self) -> Seq<char> {
        self.0@
    }
}

/// A public key: its curve and its bytes.
#[verifier::ext_equal]
pub enum PublicKeyView {
    ED25519(Seq<u8>),
    SECP256K1(Seq<u8>),
}

impl View for PublicKey {
    type V = PublicKeyView;

    open spec fn view(&self) -> PublicKeyView {
        match *self {
            PublicKey::ED25519(data) => PublicKeyView::ED25519(data@),
            PublicKey::SECP256K1(data) => PublicKeyView::SECP256K1(data@),
        }
    }
}

#[verifier::ext_equal]
pub struct DataReceiverView {
    pub data_id: CryptoHash,
    pub receiver_id: Seq<char>,
}

impl View for DataReceiver {
    type V = DataReceiverView;

    open spec fn view(&self) -> DataReceiverView {
        DataReceiverView { data_id: self.data_id, receiver_id: self.receiver_id@ }
    }
}

#[verifier::ext_equal]
pub struct FunctionCallPermissionView {
    pub allowance: Option<Balance>,
    pub receiver_id: Seq<char>,
    pub method_names: Seq<Seq<char>>,
}

impl View for FunctionCallPermission {
    type V = FunctionCallPermissionView;

    open spec fn view(&self) -> FunctionCallPermissionView {
        FunctionCallPermissionView {
            allowance: self.allowance,
            receiver_id: self.receiver_id@,
            method_names: views(self.method_names@),
        }
    }
}

#[verifier::ext_equal]
pub enum AccessKeyPermissionView {
    FunctionCall(FunctionCallPermissionView),
    FullAccess,
}

impl View for AccessKeyPermission {
    type V = AccessKeyPermissionView;

    open spec fn view(&self) -> AccessKeyPermissionView {
        match *self {
            AccessKeyPermission::FunctionCall(permission) => {
                AccessKeyPermissionView::FunctionCall(permission@)
            },
            AccessKeyPermission::FullAccess => AccessKeyPermissionView::FullAccess,
        }
    }
}

#[verifier::ext_equal]
pub struct AccessKeyView {
    pub nonce: Nonce,
    pub permission: AccessKeyPermissionView,
}

impl View for AccessKey {
    type V = AccessKeyView;

    open spec fn view(&self) -> AccessKeyView {
        AccessKeyView { nonce: self.nonce, permission: self.permission@ }
    }
}

#[verifier::ext_equal]
pub struct FunctionCallView {
    pub method_name: Seq<char>,
    pub args: Seq<u8>,
    pub gas: nat,
    pub deposit: Balance,
}

impl View for FunctionCallAction {
    type V = FunctionCallView;

    open spec fn view(&self) -> FunctionCallView {
        FunctionCallView {
            method_name: self.method_name@,
            args: self.args@,
            gas: self.gas as nat,
            deposit: self.deposit,
        }
    }
}

#[verifier::ext_equal]
pub enum ActionView {
    CreateAccount,
    DeployContract { code: Seq<u8> },
    FunctionCall(FunctionCallView),
    Transfer { deposit: Balance },
    Stake { stake: Balance, public_key: PublicKeyView },
    AddKey { public_key: PublicKeyView, access_key: AccessKeyView },
    DeleteKey { public_key: PublicKeyView },
    DeleteAccount { beneficiary_id: Seq<char> },
}

impl View for Action {
    type V = ActionView;

    open spec fn view(&self) -> ActionView {
        match *self {
            Action::CreateAccount(_) => ActionView::CreateAccount,
            Action::DeployContract(a) => ActionView::DeployContract { code: a.code@ },
            Action::FunctionCall(a) => ActionView::FunctionCall(a@),
            Action::Transfer(a) => ActionView::Transfer { deposit: a.deposit },
            Action::Stake(a) => ActionView::Stake { stake: a.stake, public_key: a.public_key@ },
            Action::AddKey(a) => ActionView::AddKey {
                public_key: a.public_key@,
                access_key: a.access_key@,
            },
            Action::DeleteKey(a) => ActionView::DeleteKey { public_key: a.public_key@ },
            Action::DeleteAccount(a) => ActionView::DeleteAccount {
                beneficiary_id: a.beneficiary_id@,
            },
        }
    }
}

#[verifier::ext_equal]
pub struct ReceiptMetadataView {
    pub output_data_receivers: Seq<DataReceiverView>,
    pub input_data_ids: Seq<CryptoHash>,
    pub actions: Seq<ActionView>,
}

impl View for ReceiptMetadata {
    type V = ReceiptMetadataView;

    open spec fn view(&self) -> ReceiptMetadataView {
        ReceiptMetadataView {
            output_data_receivers: views(self.output_data_receivers@),
            input_data_ids: self.input_data_ids@,
            actions: views(self.actions@),
        }
    }
}

} // verus!
