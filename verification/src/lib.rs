//! A receipt manager: it collects the action receipts that one contract
//! execution creates, links each receipt to the receipts whose output it waits
//! for, and shares the gas that is left over among the function calls that asked
//! for a part of it.

mod clone;
pub mod decode;
pub mod external;
mod gas;
pub mod guarantees;
pub mod laws;
mod links;
pub mod manager;
pub mod model;
pub mod types;
pub mod view;

pub use external::External;
pub use manager::ReceiptManager;
pub use types::{
    AccessKey, AccessKeyPermission, AccountId, Action, AddKeyAction, Balance, CreateAccountAction,
    CryptoHash, DataReceiver, DeleteAccountAction, DeleteKeyAction, DeployContractAction, ExtResult,
    FunctionCallAction, FunctionCallPermission, Gas, GasDistribution, GasWeight, HostError, Nonce,
    PublicKey, ReceiptIndex, ReceiptMetadata, StakeAction, TransferAction, VMLogicError,
};
