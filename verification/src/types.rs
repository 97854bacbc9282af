//! The plain data that receipts are made of, and the errors.
use vstd::prelude::*;

verus! {

/// Position of a receipt in the list of receipts of a manager.
pub type ReceiptIndex = u64;

/// Amount of tokens.
pub type Balance = u128;

/// Amount of gas.
pub type Gas = u64;

/// Nonce of an access key.
pub type Nonce = u64;

/// Weight of unused gas to distribute to a scheduled function call.
#[derive(Debug, Clone, Copy, PartialEq, Eq, Structural)]
pub struct GasWeight(pub u64);

/// How unused gas was distributed.
#[derive(Debug, Clone, Copy, PartialEq, Eq, Structural)]
pub enum GasDistribution {
    /// All of the unused gas was distributed to function calls.
    All,
    /// No function call asked for a part of the unused gas, so none was distributed.
    NoRatios,
}

/// Identifier of an account. Its text is carried, never inspected.
#[derive(Debug, PartialEq, Eq, Hash)]
pub struct AccountId(pub String);

/// A 32 byte hash; here it identifies a piece of data.
#[derive(Debug, Clone, Copy, PartialEq, Eq, Hash)]
pub struct CryptoHash(pub [u8; 32]);

/// Public key of one of the supported curves.
#[derive(Debug, Clone, Copy, PartialEq, Eq, Hash)]
pub enum PublicKey {
    /// Key on the ed25519 curve.
    ED25519([u8; 32]),
    /// Key on the secp256k1 curve.
    SECP256K1([u8; 64]),
}

/// Where to route a piece of output data.
#[derive(Debug, PartialEq, Eq)]
pub struct DataReceiver {
    pub data_id: CryptoHash,
    pub receiver_id: AccountId,
}

/// Create the account of the receiver.
#[derive(Debug, Clone, Copy, PartialEq, Eq)]
pub struct CreateAccountAction {}

/// Deploy a contract.
#[derive(Debug, PartialEq, Eq)]
pub struct DeployContractAction {
    /// Wasm binary.
    pub code: Vec<u8>,
}

/// Call a method of a contract.
#[derive(Debug, PartialEq, Eq)]
pub struct FunctionCallAction {
    pub method_name: String,
    pub args: Vec<u8>,
    pub gas: Gas,
    pub deposit: Balance,
}

/// Transfer tokens.
#[derive(Debug, Clone, Copy, PartialEq, Eq)]
pub struct TransferAction {
    pub deposit: Balance,
}

/// Stake tokens.
#[derive(Debug, Clone, Copy, PartialEq, Eq)]
pub struct StakeAction {
    /// Amount of tokens to stake.
    pub stake: Balance,
    /// Validator key.
    pub public_key: PublicKey,
}

/// Grants permission to call some functions of one contract.
#[derive(Debug, PartialEq, Eq)]
pub struct FunctionCallPermission {
    /// Limit on the tokens that the key may spend; `None` is no limit.
    pub allowance: Option<Balance>,
    /// The contract that may be called.
    pub receiver_id: String,
    /// The methods that may be called; an empty list allows any method.
    pub method_names: Vec<String>,
}

/// What an access key may do.
#[derive(Debug, PartialEq, Eq)]
pub enum AccessKeyPermission {
    FunctionCall(FunctionCallPermission),
    /// Full access to the account.
    FullAccess,
}

/// An access key of an account.
#[derive(Debug, PartialEq, Eq)]
pub struct AccessKey {
    pub nonce: Nonce,
    pub permission: AccessKeyPermission,
}

/// Add an access key to the account.
#[derive(Debug, PartialEq, Eq)]
pub struct AddKeyAction {
    pub public_key: PublicKey,
    pub access_key: AccessKey,
}

/// Delete an access key of the account.
#[derive(Debug, Clone, Copy, PartialEq, Eq)]
pub struct DeleteKeyAction {
    pub public_key: PublicKey,
}

/// Delete the account.
#[derive(Debug, PartialEq, Eq)]
pub struct DeleteAccountAction {
    /// Account that gets the funds that are left.
    pub beneficiary_id: AccountId,
}

/// One step that a receipt asks its receiver to take.
#[derive(Debug, PartialEq, Eq)]
pub enum Action {
    CreateAccount(CreateAccountAction),
    DeployContract(DeployContractAction),
    FunctionCall(FunctionCallAction),
    Transfer(TransferAction),
    Stake(StakeAction),
    AddKey(AddKeyAction),
    DeleteKey(DeleteKeyAction),
    DeleteAccount(DeleteAccountAction),
}

/// A receipt without its receiver.
#[derive(Debug, PartialEq, Eq)]
pub struct ReceiptMetadata {
    /// If present, where to route the output data
    pub output_data_receivers: Vec<DataReceiver>,
    /// A list of the input data dependencies for this receipt to process.
    /// Once data for every one of these ids has been delivered to the account,
    /// all the input is there and the actions can be processed.
    pub input_data_ids: Vec<CryptoHash>,
    /// A list of actions to process when all input_data_ids are filled
    pub actions: Vec<Action>,
}

/// Errors of the calls that a contract makes to its host.
#[derive(Debug, Clone, Copy, PartialEq, Eq, Structural)]
pub enum HostError {
    /// `receipt_index` does not refer to a known receipt.
    InvalidReceiptIndex { receipt_index: u64 },
    /// A method name is not valid UTF-8.
    InvalidMethodName,
    /// Bytes are not the encoding of a public key.
    InvalidPublicKey,
}

/// Errors of the virtual machine's logic.
#[derive(Debug, Clone, Copy, PartialEq, Eq, Structural)]
pub enum VMLogicError {
    HostError(HostError),
}

/// Result of an operation of the manager.
pub type ExtResult<T> = Result<T, VMLogicError>;

} // verus!
