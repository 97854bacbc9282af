//! The receipt manager.
use vstd::prelude::*;
use vstd::utf8::{decode_utf8, valid_utf8};

use crate::decode::{
    decode_method_names, decode_public_key, method_name_from_utf8, method_names_from_utf8,
    public_key_from_bytes, valid_method_names,
};
use crate::external::External;
use crate::gas::{
    lemma_assigned_to_claim, lemma_assigned_to_unclaimed, lemma_remainder_bound,
    lemma_remainder_step, lemma_share_within_assigned, lemma_shared_out_none,
    lemma_shared_out_step, lemma_total_share_bound, lemma_total_weight_positive,
    lemma_total_weight_step, shared_out,
};
use crate::links::{
    keeps_sending, lemma_create_receipt_sends, lemma_create_receipt_up_to_unknown,
    lemma_inputs_still_sent, lemma_known_prefix_is, lemma_linked_none, lemma_linked_step,
};
use crate::model::{
    assigned_gas, inputs_are_sent, is_function_call, linked, set_action, share, total_share,
    total_weight, GasClaim, ReceiptManagerView, ReceiptsView,
};
use crate::types::{
    AccessKey, AccessKeyPermission, AccountId, Action, AddKeyAction, Balance, CreateAccountAction,
    CryptoHash, DataReceiver, DeleteAccountAction, DeleteKeyAction, DeployContractAction,
    ExtResult, FunctionCallAction, FunctionCallPermission, Gas, GasDistribution, GasWeight,
    HostError, Nonce, PublicKey, ReceiptIndex, ReceiptMetadata, StakeAction, TransferAction,
    VMLogicError,
};
use crate::view::{
    AccessKeyPermissionView, AccessKeyView, ActionView, FunctionCallPermissionView,
    FunctionCallView,
};

verus! {

type ActionReceipts = Vec<(AccountId, ReceiptMetadata)>;

/// Locates a function call among the receipts of a manager.
#[derive(Debug, Clone, Copy, PartialEq, Eq)]
struct FunctionCallActionIndex {
    /// Index of the receipt.
    receipt_index: usize,
    /// Index of the action within the receipt.
    action_index: usize,
}

/// The receipts that a contract execution has created so far, and the function
/// calls among them that ask for a part of the unused gas.
#[derive(PartialEq, Eq)]
pub struct ReceiptManager {
    action_receipts: ActionReceipts,
    gas_weights: Vec<(FunctionCallActionIndex, GasWeight)>,
}

/// The view of a list of receipts.
pub open spec fn receipts_view(receipts: Seq<(AccountId, ReceiptMetadata)>) -> ReceiptsView {
    Seq::new(receipts.len(), |i: int| (receipts[i].0@, receipts[i].1@))
}

spec fn claims_view(gas_weights: Seq<(FunctionCallActionIndex, GasWeight)>) -> Seq<GasClaim> {
    Seq::new(
        gas_weights.len(),
        |k: int|
            GasClaim {
                receipt_index: gas_weights[k].0.receipt_index as nat,
                action_index: gas_weights[k].0.action_index as nat,
                weight: gas_weights[k].1.0 as nat,
            },
    )
}

impl View for ReceiptManager {
    type V = ReceiptManagerView;

    closed spec fn view(&self) -> ReceiptManagerView {
        ReceiptManagerView {
            receipts: receipts_view(self.action_receipts@),
            gas_weights: claims_view(self.gas_weights@),
        }
    }
}

/// The function call that `index` locates, to be changed in place.
fn get_fuction_call_action_mut(
    action_receipts: &mut ActionReceipts,
    index: FunctionCallActionIndex,
) -> (call: &mut FunctionCallAction)
    requires
        is_function_call(
            receipts_view(old(action_receipts)@),
            index.receipt_index as int,
            index.action_index as int,
        ),
    ensures
        ActionView::FunctionCall(call@) == receipts_view(
            old(action_receipts)@,
        )[index.receipt_index as int].1.actions[index.action_index as int],
        receipts_view(final(action_receipts)@) =~~= set_action(
            receipts_view(old(action_receipts)@),
            index.receipt_index as int,
            index.action_index as int,
            ActionView::FunctionCall(final(call)@),
        ),
{
    match &mut action_receipts[index.receipt_index].1.actions[index.action_index] {
        Action::FunctionCall(call) => call,
        _ => vstd::pervasive::unreached(),
    }
}

/// The part of `unused_gas` that is owed to `weight` out of `gas_weight_sum`, rounded down.
fn gas_share(unused_gas: Gas, weight: u64, gas_weight_sum: u128) -> (gas: Gas)
    requires
        gas_weight_sum > 0,
        share(unused_gas as nat, weight as nat, gas_weight_sum as nat) <= u64::MAX,
    ensures
        gas == share(unused_gas as nat, weight as nat, gas_weight_sum as nat),
{
    // The product of two 64 bit numbers fits in 128 bits.
    assert(unused_gas as u128 * weight as u128 <= u64::MAX * u64::MAX) by (nonlinear_arith)
        requires
            unused_gas <= u64::MAX,
            weight <= u64::MAX,
    ;
    (unused_gas as u128 * weight as u128 / gas_weight_sum) as u64
}

impl Default for ReceiptManager {
    fn default() -> (res: Self)
        ensures
            res.wf(),
            res@ == ReceiptManagerView::empty(),
    {
        let res: ReceiptManager = ReceiptManager {
            action_receipts: Vec::new(),
            gas_weights: Vec::new(),
        };
        assert(res@ =~= ReceiptManagerView::empty());
        res
    }
}

impl Clone for ReceiptManager {
    fn clone(&self) -> (res: Self)
        ensures
            res@ == self@,
    {
        let mut action_receipts: ActionReceipts = Vec::new();
        for i in 0..self.action_receipts.len()
            invariant
                action_receipts@.len() == i,
                forall|j: int|
                    #![trigger action_receipts@[j]]
                    0 <= j < i ==> action_receipts@[j].0@ == self.action_receipts@[j].0@
                        && action_receipts@[j].1@ == self.action_receipts@[j].1@,
        {
            let receiver_id: AccountId = self.action_receipts[i].0.clone();
            let receipt: ReceiptMetadata = self.action_receipts[i].1.clone();
            action_receipts.push((receiver_id, receipt));
        }
        let mut gas_weights: Vec<(FunctionCallActionIndex, GasWeight)> = Vec::new();
        for k in 0..self.gas_weights.len()
            invariant
                gas_weights@ == self.gas_weights@.take(k as int),
        {
            gas_weights.push(self.gas_weights[k]);
        }
        let res: ReceiptManager = ReceiptManager { action_receipts, gas_weights };
        assert(res@ =~~= self@);
        res
    }
}

impl ReceiptManager {
    /// Every claim to the unused gas is that of a function call and has a positive
    /// weight, no function call has two, and whatever data a receipt waits for is sent by
    /// an earlier receipt.
    pub open spec fn wf(&self) -> bool {
        self@.wf()
    }

    /// The receipts, each with its receiver, in the order in which they were created.
    pub fn action_receipts(&self) -> (res: &Vec<(AccountId, ReceiptMetadata)>)
        ensures
            receipts_view(res@) == self@.receipts,
    {
        &self.action_receipts
    }

    /// Gives up the manager for its receipts.
    pub fn into_action_receipts(self) -> (res: Vec<(AccountId, ReceiptMetadata)>)
        ensures
            receipts_view(res@) == self@.receipts,
    {
        self.action_receipts
    }

    /// The account that a receipt is for. The index has to refer to a known receipt.
    pub fn get_receipt_receiver(&self, receipt_index: ReceiptIndex) -> (receiver_id: &AccountId)
        requires
            self@.knows(receipt_index),
        ensures
            receiver_id@ == self@.receipts[receipt_index as int].0,
    {
        assert(receipt_index < self.action_receipts.len());
        &self.action_receipts[receipt_index as usize].0
    }

    /// Appends an action to a receipt and returns the index that it was inserted at there.
    /// The receipt index has to refer to a known receipt.
    pub fn append_action(&mut self, receipt_index: ReceiptIndex, action: Action) -> (index: usize)
        requires
            old(self).wf(),
            old(self)@.knows(receipt_index),
        ensures
            final(self).wf(),
            final(self)@ == old(self)@.append(receipt_index, action@),
            index == old(self)@.next_action_index(receipt_index),
    {
        assert(receipt_index < self.action_receipts.len());
        let actions: &mut Vec<Action> = &mut self.action_receipts[receipt_index as usize].1.actions;
        let index: usize = actions.len();
        actions.push(action);
        proof {
            assert(self@ =~~= old(self)@.append(receipt_index, action@));
            assert(keeps_sending(old(self)@.receipts, self@.receipts));
            lemma_inputs_still_sent(old(self)@.receipts, self@.receipts);
        }
        index
    }

    /// Create a receipt which will be executed after all the receipts identified by
    /// `receipt_indices` are complete.
    ///
    /// If any of the indices does not refer to a known receipt, this function fails with an
    /// error that tells the first such index. The receipts listed before it then keep the
    /// data receivers that they were given.
    ///
    /// # Arguments
    ///
    /// * `ext` - generates the data ids that connect the outputs of receipts to the new one
    /// * `receipt_indices` - a list of the receipts that the new receipt depends on
    /// * `receiver_id` - account id of the receiver of the receipt created
    pub fn create_receipt<E: External + ?Sized>(
        &mut self,
        ext: &mut E,
        receipt_indices: Vec<ReceiptIndex>,
        receiver_id: AccountId,
    ) -> (res: ExtResult<ReceiptIndex>)
        requires
            old(self).wf(),
        ensures
            final(self).wf(),
            res == old(self)@.created(receipt_indices@),
            res matches Ok(index) ==> index == old(self)@.receipts.len(),
            final(self)@.gas_weights == old(self)@.gas_weights,
            forall|r: int|
                #![trigger final(self)@.receipts[r]]
                0 <= r < old(self)@.receipts.len() ==> {
                    let before = old(self)@.receipts[r];
                    let after = final(self)@.receipts[r];
                    &&& after.0 == before.0
                    &&& after.1.input_data_ids == before.1.input_data_ids
                    &&& after.1.actions == before.1.actions
                    &&& before.1.output_data_receivers.is_prefix_of(
                        after.1.output_data_receivers,
                    )
                },
            exists|data_ids: Seq<CryptoHash>|
                {
                    &&& data_ids.len() == old(self)@.data_ids_taken(receipt_indices@)
                    &&& final(self)@ == #[trigger] old(self)@.create_receipt(
                        data_ids,
                        receipt_indices@,
                        receiver_id@,
                    )
                    &&& old(ext).keeps_record() ==> final(ext).keeps_record()
                        && final(ext).generated() == old(ext).generated() + data_ids
                },
    {
        let count: u64 = self.action_receipts.len() as u64;
        let mut listed: Vec<ReceiptIndex> = receipt_indices;
        let mut data_ids: Vec<CryptoHash> = Vec::new();
        let mut known: bool = true;
        while known && data_ids.len() < listed.len()
            invariant
                listed@ == receipt_indices@,
                data_ids@.len() <= listed@.len(),
                old(ext).keeps_record() ==> ext.keeps_record() && ext.generated() == old(
                    ext,
                ).generated() + data_ids@,
                known ==> forall|i: int| 0 <= i < data_ids@.len() ==> #[trigger] listed@[i] < count,
                !known ==> data_ids@.len() > 0 && listed@[data_ids@.len() - 1] >= count && forall|
                    i: int,
                |
                    0 <= i < data_ids@.len() - 1 ==> #[trigger] listed@[i] < count,
            decreases listed@.len() - data_ids@.len(),
        {
            known = listed[data_ids.len()] < count;
            data_ids.push(ext.generate_data_id());
        }
        proof {
            assert(count == self@.receipts.len());
            if known {
                assert(self@.knows_all(listed@));
                assert(listed@.take(data_ids@.len() as int) =~= listed@);
            } else {
                let unknown = (data_ids@.len() - 1) as nat;
                assert(!self@.knows(listed@[unknown as int]));
                lemma_create_receipt_up_to_unknown(
                    self@,
                    data_ids@,
                    listed@,
                    receiver_id@,
                    unknown,
                );
            }
        }
        listed.truncate(data_ids.len());
        self.create_receipt_with_data_ids(data_ids, listed, receiver_id)
    }

    /// Create a receipt as [`create_receipt`](Self::create_receipt) does, with the data ids
    /// already at hand: the output of the receipt `receipt_indices[i]` is sent to the new
    /// receipt under the id `data_ids[i]`.
    pub fn create_receipt_with_data_ids(
        &mut self,
        data_ids: Vec<CryptoHash>,
        receipt_indices: Vec<ReceiptIndex>,
        receiver_id: AccountId,
    ) -> (res: ExtResult<ReceiptIndex>)
        requires
            old(self).wf(),
            data_ids@.len() == receipt_indices@.len(),
        ensures
            final(self).wf(),
            res == old(self)@.created(receipt_indices@),
            res matches Ok(index) ==> index == old(self)@.receipts.len(),
            final(self)@.gas_weights == old(self)@.gas_weights,
            forall|r: int|
                #![trigger final(self)@.receipts[r]]
                0 <= r < old(self)@.receipts.len() ==> {
                    let before = old(self)@.receipts[r];
                    let after = final(self)@.receipts[r];
                    &&& after.0 == before.0
                    &&& after.1.input_data_ids == before.1.input_data_ids
                    &&& after.1.actions == before.1.actions
                    &&& before.1.output_data_receivers.is_prefix_of(
                        after.1.output_data_receivers,
                    )
                },
            final(self)@ == old(self)@.create_receipt(data_ids@, receipt_indices@, receiver_id@),
    {
        let ghost receipts = self@.receipts;
        let count: u64 = self.action_receipts.len() as u64;
        let n: usize = receipt_indices.len();
        proof {
            lemma_create_receipt_sends(self@, data_ids@, receipt_indices@, receiver_id@);
            lemma_linked_none(receipts, receipt_indices@, data_ids@, receiver_id@);
        }
        for i in 0..n
            invariant
                old(self).wf(),
                inputs_are_sent(
                    old(self)@.create_receipt(data_ids@, receipt_indices@, receiver_id@).receipts,
                ),
                receipts == old(self)@.receipts,
                count == receipts.len(),
                n == receipt_indices@.len(),
                n == data_ids@.len(),
                self.gas_weights == old(self).gas_weights,
                forall|j: int| 0 <= j < i ==> #[trigger] receipt_indices@[j] < count,
                receipts_view(self.action_receipts@) == linked(
                    receipts,
                    receipt_indices@,
                    data_ids@,
                    receiver_id@,
                    i as nat,
                ),
        {
            let receipt_index: ReceiptIndex = receipt_indices[i];
            if receipt_index >= count {
                proof {
                    lemma_known_prefix_is(receipt_indices@, count as nat, i as nat);
                    assert(!old(self)@.knows(receipt_indices@[i as int]));
                    assert(self@ =~= old(self)@.create_receipt(
                        data_ids@,
                        receipt_indices@,
                        receiver_id@,
                    ));
                }
                return Err(
                    VMLogicError::HostError(HostError::InvalidReceiptIndex { receipt_index }),
                );
            }
            proof {
                lemma_linked_step(receipts, receipt_indices@, data_ids@, receiver_id@, i as nat);
                assert(self.action_receipts.len() == receipts_view(self.action_receipts@).len());
            }
            let receiver: DataReceiver = DataReceiver {
                data_id: data_ids[i],
                receiver_id: receiver_id.clone(),
            };
            self.action_receipts[receipt_index as usize].1.output_data_receivers.push(receiver);
            assert(receipts_view(self.action_receipts@) =~~= linked(
                receipts,
                receipt_indices@,
                data_ids@,
                receiver_id@,
                (i + 1) as nat,
            ));
        }
        proof {
            lemma_known_prefix_is(receipt_indices@, count as nat, n as nat);
            assert(old(self)@.knows_all(receipt_indices@));
        }
        let new_receipt: ReceiptMetadata = ReceiptMetadata {
            output_data_receivers: Vec::new(),
            input_data_ids: data_ids,
            actions: Vec::new(),
        };
        self.action_receipts.push((receiver_id, new_receipt));
        assert(self@ =~~= old(self)@.create_receipt(data_ids@, receipt_indices@, receiver_id@));
        Ok(count)
    }

    /// Attach the [`CreateAccountAction`] action to an existing receipt.
    ///
    /// # Arguments
    ///
    /// * `receipt_index` - an index of the receipt to append an action to; it has to refer to a
    ///   known receipt
    pub fn append_action_create_account(
        &mut self,
        receipt_index: ReceiptIndex,
    ) -> (res: ExtResult<()>)
        requires
            old(self).wf(),
            old(self)@.knows(receipt_index),
        ensures
            final(self).wf(),
            res == Ok::<(), VMLogicError>(()),
            final(self)@ == old(self)@.append(receipt_index, ActionView::CreateAccount),
    {
        self.append_action(receipt_index, Action::CreateAccount(CreateAccountAction {}));
        Ok(())
    }

    /// Attach the [`DeployContractAction`] action to an existing receipt.
    ///
    /// # Arguments
    ///
    /// * `receipt_index` - an index of the receipt to append an action to; it has to refer to a
    ///   known receipt
    /// * `code` - a Wasm code to attach
    pub fn append_action_deploy_contract(
        &mut self,
        receipt_index: ReceiptIndex,
        code: Vec<u8>,
    ) -> (res: ExtResult<()>)
        requires
            old(self).wf(),
            old(self)@.knows(receipt_index),
        ensures
            final(self).wf(),
            res == Ok::<(), VMLogicError>(()),
            final(self)@ == old(self)@.append(
                receipt_index,
                ActionView::DeployContract { code: code@ },
            ),
    {
        self.append_action(receipt_index, Action::DeployContract(DeployContractAction { code }));
        Ok(())
    }

    /// Attach the [`FunctionCallAction`] action to an existing receipt. This method has similar
    /// functionality to [`append_action_function_call`](Self::append_action_function_call) except
    /// that it allows specifying a weight to use leftover gas from the current execution.
    ///
    /// Either of `prepaid_gas` and `gas_weight` can be specified, or both. If a `gas_weight` is
    /// specified, the action is allocated gas in
    /// [`distribute_unused_gas`](Self::distribute_unused_gas).
    ///
    /// Fails with [`HostError::InvalidMethodName`] if the method name is not valid UTF-8; nothing
    /// is attached then.
    ///
    /// # Arguments
    ///
    /// * `receipt_index` - an index of the receipt to append an action to; it has to refer to a
    ///   known receipt
    /// * `method_name` - a name of the contract method to call
    /// * `args` - the arguments of the call
    /// * `attached_deposit` - amount of tokens to transfer with the call
    /// * `prepaid_gas` - amount of prepaid gas to attach to the call
    /// * `gas_weight` - relative weight of unused gas to distribute to the function call action
    pub fn append_action_function_call_weight(
        &mut self,
        receipt_index: ReceiptIndex,
        method_name: Vec<u8>,
        args: Vec<u8>,
        attached_deposit: Balance,
        prepaid_gas: Gas,
        gas_weight: GasWeight,
    ) -> (res: ExtResult<()>)
        requires
            old(self).wf(),
            old(self)@.knows(receipt_index),
        ensures
            final(self).wf(),
            valid_utf8(method_name@) ==> res == Ok::<(), VMLogicError>(()),
            valid_utf8(method_name@) ==> final(self)@ == old(self)@.append_weighted(
                receipt_index,
                FunctionCallView {
                    method_name: decode_utf8(method_name@),
                    args: args@,
                    gas: prepaid_gas as nat,
                    deposit: attached_deposit,
                },
                gas_weight.0 as nat,
            ),
            old(self)@.gas_weights.is_prefix_of(final(self)@.gas_weights),
            !valid_utf8(method_name@) ==> res == Err::<(), _>(
                VMLogicError::HostError(HostError::InvalidMethodName),
            ),
            !valid_utf8(method_name@) ==> *final(self) == *old(self),
    {
        let method_name: String = match method_name_from_utf8(method_name) {
            Ok(name) => name,
            Err(e) => return Err(VMLogicError::HostError(e)),
        };
        let action_index: usize = self.append_action(
            receipt_index,
            Action::FunctionCall(
                FunctionCallAction {
                    method_name,
                    args,
                    gas: prepaid_gas,
                    deposit: attached_deposit,
                },
            ),
        );
        if gas_weight.0 > 0 {
            assert(self.action_receipts.len() == self@.receipts.len());
            self.gas_weights.push(
                (
                    FunctionCallActionIndex { receipt_index: receipt_index as usize, action_index },
                    gas_weight,
                ),
            );
        }
        assert(self@ =~= old(self)@.append_weighted(
            receipt_index,
            FunctionCallView {
                method_name: method_name@,
                args: args@,
                gas: prepaid_gas as nat,
                deposit: attached_deposit,
            },
            gas_weight.0 as nat,
        ));
        Ok(())
    }

    /// Attach the [`FunctionCallAction`] action to an existing receipt.
    ///
    /// Fails with [`HostError::InvalidMethodName`] if the method name is not valid UTF-8; nothing
    /// is attached then.
    ///
    /// # Arguments
    ///
    /// * `receipt_index` - an index of the receipt to append an action to; it has to refer to a
    ///   known receipt
    /// * `method_name` - a name of the contract method to call
    /// * `args` - the arguments of the call
    /// * `attached_deposit` - amount of tokens to transfer with the call
    /// * `prepaid_gas` - amount of prepaid gas to attach to the call
    pub fn append_action_function_call(
        &mut self,
        receipt_index: ReceiptIndex,
        method_name: Vec<u8>,
        args: Vec<u8>,
        attached_deposit: Balance,
        prepaid_gas: Gas,
    ) -> (res: ExtResult<()>)
        requires
            old(self).wf(),
            old(self)@.knows(receipt_index),
        ensures
            final(self).wf(),
            valid_utf8(method_name@) ==> res == Ok::<(), VMLogicError>(()),
            valid_utf8(method_name@) ==> final(self)@ == old(self)@.append(
                receipt_index,
                ActionView::FunctionCall(
                    FunctionCallView {
                        method_name: decode_utf8(method_name@),
                        args: args@,
                        gas: prepaid_gas as nat,
                        deposit: attached_deposit,
                    },
                ),
            ),
            !valid_utf8(method_name@) ==> res == Err::<(), _>(
                VMLogicError::HostError(HostError::InvalidMethodName),
            ),
            !valid_utf8(method_name@) ==> *final(self) == *old(self),
    {
        let method_name: String = match method_name_from_utf8(method_name) {
            Ok(name) => name,
            Err(e) => return Err(VMLogicError::HostError(e)),
        };
        self.append_action(
            receipt_index,
            Action::FunctionCall(
                FunctionCallAction {
                    method_name,
                    args,
                    gas: prepaid_gas,
                    deposit: attached_deposit,
                },
            ),
        );
        Ok(())
    }

    /// Attach the [`TransferAction`] action to an existing receipt.
    ///
    /// # Arguments
    ///
    /// * `receipt_index` - an index of the receipt to append an action to; it has to refer to a
    ///   known receipt
    /// * `deposit` - amount of tokens to transfer
    pub fn append_action_transfer(
        &mut self,
        receipt_index: ReceiptIndex,
        deposit: Balance,
    ) -> (res: ExtResult<()>)
        requires
            old(self).wf(),
            old(self)@.knows(receipt_index),
        ensures
            final(self).wf(),
            res == Ok::<(), VMLogicError>(()),
            final(self)@ == old(self)@.append(receipt_index, ActionView::Transfer { deposit }),
    {
        self.append_action(receipt_index, Action::Transfer(TransferAction { deposit }));
        Ok(())
    }

    /// Attach the [`StakeAction`] action to an existing receipt.
    ///
    /// Fails with [`HostError::InvalidPublicKey`] if the bytes do not encode a public key; nothing
    /// is attached then.
    ///
    /// # Arguments
    ///
    /// * `receipt_index` - an index of the receipt to append an action to; it has to refer to a
    ///   known receipt
    /// * `stake` - amount of tokens to stake
    /// * `public_key` - a validator public key
    pub fn append_action_stake(
        &mut self,
        receipt_index: ReceiptIndex,
        stake: Balance,
        public_key: Vec<u8>,
    ) -> (res: ExtResult<()>)
        requires
            old(self).wf(),
            old(self)@.knows(receipt_index),
        ensures
            final(self).wf(),
            match decode_public_key(public_key@) {
                Some(key) => {
                    &&& res == Ok::<(), VMLogicError>(())
                    &&& final(self)@ == old(self)@.append(
                        receipt_index,
                        ActionView::Stake { stake, public_key: key },
                    )
                },
                None => {
                    &&& res == Err::<(), _>(VMLogicError::HostError(HostError::InvalidPublicKey))
                    &&& *final(self) == *old(self)
                },
            },
    {
        let public_key: PublicKey = match public_key_from_bytes(public_key.as_slice()) {
            Ok(key) => key,
            Err(e) => return Err(VMLogicError::HostError(e)),
        };
        self.append_action(
            receipt_index,
            Action::Stake(StakeAction { stake, public_key }),
        );
        Ok(())
    }

    /// Attach the [`AddKeyAction`] action to an existing receipt.
    ///
    /// Fails with [`HostError::InvalidPublicKey`] if the bytes do not encode a public key; nothing
    /// is attached then.
    ///
    /// # Arguments
    ///
    /// * `receipt_index` - an index of the receipt to append an action to; it has to refer to a
    ///   known receipt
    /// * `public_key` - a public key for an access key
    /// * `nonce` - a nonce
    pub fn append_action_add_key_with_full_access(
        &mut self,
        receipt_index: ReceiptIndex,
        public_key: Vec<u8>,
        nonce: Nonce,
    ) -> (res: ExtResult<()>)
        requires
            old(self).wf(),
            old(self)@.knows(receipt_index),
        ensures
            final(self).wf(),
            match decode_public_key(public_key@) {
                Some(key) => {
                    &&& res == Ok::<(), VMLogicError>(())
                    &&& final(self)@ == old(self)@.append(
                        receipt_index,
                        ActionView::AddKey {
                            public_key: key,
                            access_key: AccessKeyView {
                                nonce,
                                permission: AccessKeyPermissionView::FullAccess,
                            },
                        },
                    )
                },
                None => {
                    &&& res == Err::<(), _>(VMLogicError::HostError(HostError::InvalidPublicKey))
                    &&& *final(self) == *old(self)
                },
            },
    {
        let public_key: PublicKey = match public_key_from_bytes(public_key.as_slice()) {
            Ok(key) => key,
            Err(e) => return Err(VMLogicError::HostError(e)),
        };
        self.append_action(
            receipt_index,
            Action::AddKey(
                AddKeyAction {
                    public_key,
                    access_key: AccessKey { nonce, permission: AccessKeyPermission::FullAccess },
                },
            ),
        );
        Ok(())
    }

    /// Attach the [`AddKeyAction`] action to an existing receipt.
    ///
    /// The access key associated with the action will have the
    /// [`AccessKeyPermission::FunctionCall`] permission scope.
    ///
    /// Fails with [`HostError::InvalidPublicKey`] if the bytes do not encode a public key, else
    /// with [`HostError::InvalidMethodName`] if a method name is not valid UTF-8; nothing is
    /// attached then.
    ///
    /// # Arguments
    ///
    /// * `receipt_index` - an index of the receipt to append an action to; it has to refer to a
    ///   known receipt
    /// * `public_key` - a public key for an access key
    /// * `nonce` - a nonce
    /// * `allowance` - amount of tokens allowed to spend by this access key
    /// * `receiver_id` - a contract which will be allowed to call with this access key
    /// * `method_names` - a list of method names is allowed to call with this access key (empty =
    ///   any method)
    pub fn append_action_add_key_with_function_call(
        &mut self,
        receipt_index: ReceiptIndex,
        public_key: Vec<u8>,
        nonce: Nonce,
        allowance: Option<Balance>,
        receiver_id: AccountId,
        method_names: Vec<Vec<u8>>,
    ) -> (res: ExtResult<()>)
        requires
            old(self).wf(),
            old(self)@.knows(receipt_index),
        ensures
            final(self).wf(),
            match decode_public_key(public_key@) {
                Some(key) => if valid_method_names(method_names@) {
                    &&& res == Ok::<(), VMLogicError>(())
                    &&& final(self)@ == old(self)@.append(
                        receipt_index,
                        ActionView::AddKey {
                            public_key: key,
                            access_key: AccessKeyView {
                                nonce,
                                permission: AccessKeyPermissionView::FunctionCall(
                                    FunctionCallPermissionView {
                                        allowance,
                                        receiver_id: receiver_id@,
                                        method_names: decode_method_names(method_names@),
                                    },
                                ),
                            },
                        },
                    )
                } else {
                    &&& res == Err::<(), _>(VMLogicError::HostError(HostError::InvalidMethodName))
                    &&& *final(self) == *old(self)
                },
                None => {
                    &&& res == Err::<(), _>(VMLogicError::HostError(HostError::InvalidPublicKey))
                    &&& *final(self) == *old(self)
                },
            },
    {
        let public_key: PublicKey = match public_key_from_bytes(public_key.as_slice()) {
            Ok(key) => key,
            Err(e) => return Err(VMLogicError::HostError(e)),
        };
        let method_names: Vec<String> = match method_names_from_utf8(method_names) {
            Ok(names) => names,
            Err(e) => return Err(VMLogicError::HostError(e)),
        };
        self.append_action(
            receipt_index,
            Action::AddKey(
                AddKeyAction {
                    public_key,
                    access_key: AccessKey {
                        nonce,
                        permission: AccessKeyPermission::FunctionCall(
                            FunctionCallPermission {
                                allowance,
                                receiver_id: receiver_id.0,
                                method_names,
                            },
                        ),
                    },
                },
            ),
        );
        Ok(())
    }

    /// Attach the [`DeleteKeyAction`] action to an existing receipt.
    ///
    /// Fails with [`HostError::InvalidPublicKey`] if the bytes do not encode a public key; nothing
    /// is attached then.
    ///
    /// # Arguments
    ///
    /// * `receipt_index` - an index of the receipt to append an action to; it has to refer to a
    ///   known receipt
    /// * `public_key` - a public key for an access key to delete
    pub fn append_action_delete_key(
        &mut self,
        receipt_index: ReceiptIndex,
        public_key: Vec<u8>,
    ) -> (res: ExtResult<()>)
        requires
            old(self).wf(),
            old(self)@.knows(receipt_index),
        ensures
            final(self).wf(),
            match decode_public_key(public_key@) {
                Some(key) => {
                    &&& res == Ok::<(), VMLogicError>(())
                    &&& final(self)@ == old(self)@.append(
                        receipt_index,
                        ActionView::DeleteKey { public_key: key },
                    )
                },
                None => {
                    &&& res == Err::<(), _>(VMLogicError::HostError(HostError::InvalidPublicKey))
                    &&& *final(self) == *old(self)
                },
            },
    {
        let public_key: PublicKey = match public_key_from_bytes(public_key.as_slice()) {
            Ok(key) => key,
            Err(e) => return Err(VMLogicError::HostError(e)),
        };
        self.append_action(
            receipt_index,
            Action::DeleteKey(DeleteKeyAction { public_key }),
        );
        Ok(())
    }

    /// Attach the [`DeleteAccountAction`] action to an existing receipt
    ///
    /// # Arguments
    ///
    /// * `receipt_index` - an index of the receipt to append an action to; it has to refer to a
    ///   known receipt
    /// * `beneficiary_id` - an account id to which the rest of the funds of the removed account
    ///   will be transferred
    pub fn append_action_delete_account(
        &mut self,
        receipt_index: ReceiptIndex,
        beneficiary_id: AccountId,
    ) -> (res: ExtResult<()>)
        requires
            old(self).wf(),
            old(self)@.knows(receipt_index),
        ensures
            final(self).wf(),
            res == Ok::<(), VMLogicError>(()),
            final(self)@ == old(self)@.append(
                receipt_index,
                ActionView::DeleteAccount { beneficiary_id: beneficiary_id@ },
            ),
    {
        self.append_action(
            receipt_index,
            Action::DeleteAccount(DeleteAccountAction { beneficiary_id }),
        );
        Ok(())
    }

    /// The sum of all gas weights.
    fn gas_weight_sum(&self) -> (sum: u128)
        ensures
            sum == total_weight(self@.gas_weights),
    {
        let mut sum: u128 = 0;
        let ghost claims = self@.gas_weights;
        for i in 0..self.gas_weights.len()
            invariant
                claims == claims_view(self.gas_weights@),
                sum == total_weight(claims.take(i as int)),
                sum <= i * u64::MAX,
        {
            proof {
                lemma_total_weight_step(claims, i as nat);
            }
            sum = sum + self.gas_weights[i].1.0 as u128;
        }
        assert(claims.take(claims.len() as int) =~= claims);
        sum
    }

    /// Tells whether [`distribute_unused_gas`](Self::distribute_unused_gas) can distribute
    /// `unused_gas`: whether each function call that is assigned a part of it can hold that
    /// part in addition to its prepaid gas.
    pub fn unused_gas_fits(&self, unused_gas: Gas) -> (fits: bool)
        requires
            self.wf(),
        ensures
            fits == self@.gas_fits(unused_gas as nat),
    {
        let ghost claims = self@.gas_weights;
        let ghost receipts = self@.receipts;
        let ghost unused = unused_gas as nat;
        let gas_weight_sum: u128 = self.gas_weight_sum();
        let count: usize = self.gas_weights.len();
        let mut distributed: u64 = 0;
        for i in 0..count
            invariant
                self.wf(),
                unused == unused_gas,
                claims == self@.gas_weights,
                receipts == self@.receipts,
                count == claims.len(),
                gas_weight_sum == total_weight(claims),
                distributed == total_share(claims, unused, i as nat),
                forall|k: int|
                    #![trigger claims[k]]
                    0 <= k < i ==> {
                        let r = claims[k].receipt_index as int;
                        let a = claims[k].action_index as int;
                        receipts[r].1.actions[a]->FunctionCall_0.gas + assigned_gas(
                            claims,
                            unused,
                            r,
                            a,
                        ) <= u64::MAX
                    },
        {
            let (index, GasWeight(weight)) = self.gas_weights[i];
            let ghost r = index.receipt_index as int;
            let ghost a = index.action_index as int;
            proof {
                assert(claims[i as int].names(r, a) && claims[i as int].weight == weight);
                assert(claims[claims.len() - 1].weight > 0);
                lemma_total_weight_positive(claims);
                lemma_total_share_bound(claims, unused, (i + 1) as nat);
                lemma_assigned_to_claim(self@, unused, i as nat);
                lemma_remainder_bound(claims, unused);
                lemma_share_within_assigned(claims, unused, claims.len(), r, a);
            }
            let part: Gas = gas_share(unused_gas, weight, gas_weight_sum);
            distributed = distributed + part;
            let added: Gas = if i == count - 1 {
                part + (unused_gas - distributed)
            } else {
                part
            };
            assert(added == assigned_gas(claims, unused, r, a));
            let actions: &Vec<Action> = &self.action_receipts[index.receipt_index].1.actions;
            let gas: Gas = match &actions[index.action_index] {
                Action::FunctionCall(call) => call.gas,
                _ => vstd::pervasive::unreached(),
            };
            assert(receipts[r].1.actions[a]->FunctionCall_0.gas == gas);
            if gas > u64::MAX - added {
                return false;
            }
        }
        assert forall|r: int, a: int|
            #![trigger receipts[r].1.actions[a]]
            is_function_call(receipts, r, a) && assigned_gas(claims, unused, r, a)
                > 0 implies receipts[r].1.actions[a]->FunctionCall_0.gas + assigned_gas(
            claims,
            unused,
            r,
            a,
        ) <= u64::MAX by {
            if forall|k: int| 0 <= k < claims.len() ==> !(#[trigger] claims[k]).names(r, a) {
                lemma_assigned_to_unclaimed(claims, unused, r, a);
            }
        }
        true
    }

    /// Distribute the gas among the scheduled function calls that specify a gas weight.
    ///
    /// Each of them gets its share, the unused gas times its weight over the sum of all
    /// weights, rounded down. What is left because of the rounding goes to the last
    /// function call with a weight. The gas that a function call then holds has to fit in its
    /// 64 bits.
    ///
    /// # Arguments
    ///
    /// * `unused_gas` - amount of unused gas to distribute
    ///
    /// # Returns
    ///
    /// A [GasDistribution] that indicates how the gas was distributed.
    pub fn distribute_unused_gas(&mut self, unused_gas: Gas) -> (distribution: GasDistribution)
        requires
            old(self).wf(),
            old(self)@.gas_fits(unused_gas as nat),
        ensures
            final(self).wf(),
            final(self)@ == old(self)@.distribute(unused_gas as nat),
            distribution == if old(self)@.gas_weights.len() == 0 {
                GasDistribution::NoRatios
            } else {
                GasDistribution::All
            },
    {
        let ghost claims = self@.gas_weights;
        let ghost receipts = self@.receipts;
        let ghost unused = unused_gas as nat;
        let gas_weight_sum: u128 = self.gas_weight_sum();
        if gas_weight_sum == 0 {
            proof {
                if claims.len() > 0 {
                    assert(claims[claims.len() - 1].weight > 0);
                    lemma_total_weight_positive(claims);
                }
                assert(self@ =~~= self@.distribute(unused));
            }
            return GasDistribution::NoRatios;
        }
        let count: usize = self.gas_weights.len();
        let mut distributed: u64 = 0;
        proof {
            lemma_shared_out_none(receipts, claims, unused);
        }
        for i in 0..count
            invariant
                old(self).wf(),
                old(self)@.gas_fits(unused),
                unused == unused_gas,
                count == claims.len(),
                claims == old(self)@.gas_weights,
                receipts == old(self)@.receipts,
                self.gas_weights == old(self).gas_weights,
                gas_weight_sum == total_weight(claims),
                gas_weight_sum > 0,
                distributed == total_share(claims, unused, i as nat),
                receipts_view(self.action_receipts@) == shared_out(
                    receipts,
                    claims,
                    unused,
                    i as nat,
                ),
        {
            let (index, GasWeight(weight)) = self.gas_weights[i];
            let ghost r = index.receipt_index as int;
            let ghost a = index.action_index as int;
            proof {
                assert(claims[i as int].names(r, a) && claims[i as int].weight == weight);
                lemma_total_share_bound(claims, unused, (i + 1) as nat);
                lemma_shared_out_step(receipts, claims, unused, i as nat);
                lemma_share_within_assigned(claims, unused, (i + 1) as nat, r, a);
                assert(receipts[r].1.actions[a] is FunctionCall);
            }
            let assigned_gas: Gas = gas_share(unused_gas, weight, gas_weight_sum);
            let call: &mut FunctionCallAction = get_fuction_call_action_mut(
                &mut self.action_receipts,
                index,
            );
            call.gas = call.gas + assigned_gas;
            distributed = distributed + assigned_gas;
        }
        let (last_index, _) = self.gas_weights[count - 1];
        proof {
            let r = last_index.receipt_index as int;
            let a = last_index.action_index as int;
            assert(claims[count - 1].names(r, a));
            lemma_total_share_bound(claims, unused, claims.len());
            lemma_remainder_step(receipts, claims, unused);
            assert(receipts[r].1.actions[a] is FunctionCall);
        }
        let call: &mut FunctionCallAction = get_fuction_call_action_mut(
            &mut self.action_receipts,
            last_index,
        );
        call.gas = call.gas + (unused_gas - distributed);
        self.gas_weights.clear();
        proof {
            assert(self@ =~= old(self)@.distribute(unused));
            assert(keeps_sending(receipts, self@.receipts));
            lemma_inputs_still_sent(receipts, self@.receipts);
        }
        GasDistribution::All
    }
}

} // verus!
