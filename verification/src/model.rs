//! What a receipt manager is and what its operations do, on mathematical values.
use vstd::prelude::*;

use crate::types::{CryptoHash, ExtResult, HostError, ReceiptIndex, VMLogicError};
use crate::view::{ActionView, DataReceiverView, FunctionCallView, ReceiptMetadataView};

verus! {

/// The receipts of a manager: of each its receiver and its contents.
pub type ReceiptsView = Seq<(Seq<char>, ReceiptMetadataView)>;

/// A claim of one function call, the action `action_index` of the receipt
/// `receipt_index`, to a part of the unused gas.
#[verifier::ext_equal]
pub struct GasClaim {
    pub receipt_index: nat,
    pub action_index: nat,
    pub weight: nat,
}

impl GasClaim {
    /// The claim is that of the action `action` of the receipt `receipt`.
    pub open spec fn names(self, receipt: int, action: int) -> bool {
        self.receipt_index == receipt && self.action_index == action
    }
}

/// A receipt manager: its receipts, and the claims to the unused gas in the order
/// in which they were made.
#[verifier::ext_equal]
pub struct ReceiptManagerView {
    pub receipts: ReceiptsView,
    pub gas_weights: Seq<GasClaim>,
}

/// `action` is one of the actions of the receipt `receipt`.
pub open spec fn has_action(receipts: ReceiptsView, receipt: int, action: int) -> bool {
    0 <= receipt < receipts.len() && 0 <= action < receipts[receipt].1.actions.len()
}

/// The action `action` of the receipt `receipt` is a function call.
pub open spec fn is_function_call(receipts: ReceiptsView, receipt: int, action: int) -> bool {
    has_action(receipts, receipt, action) && receipts[receipt].1.actions[action] is FunctionCall
}

/// The receipts with the action `action` of the receipt `receipt` replaced by `value`.
pub open spec fn set_action(
    receipts: ReceiptsView,
    receipt: int,
    action: int,
    value: ActionView,
) -> ReceiptsView {
    let (receiver_id, old) = receipts[receipt];
    receipts.update(
        receipt,
        (receiver_id, ReceiptMetadataView { actions: old.actions.update(action, value), ..old }),
    )
}

/// How many of `receipt_indices`, counted from the first on, refer to one of
/// `count` receipts before one does not.
pub open spec fn known_prefix(receipt_indices: Seq<ReceiptIndex>, count: nat) -> nat
    decreases receipt_indices.len(),
{
    if receipt_indices.len() == 0 || receipt_indices[0] >= count {
        0
    } else {
        1 + known_prefix(receipt_indices.skip(1), count)
    }
}

/// The data receivers that linking the first `n` of `receipt_indices` to a new
/// receipt adds to the receipt `receipt`: one for each time that it is listed.
pub open spec fn links(
    receipt_indices: Seq<ReceiptIndex>,
    data_ids: Seq<CryptoHash>,
    receiver_id: Seq<char>,
    n: nat,
    receipt: int,
) -> Seq<DataReceiverView>
    decreases n,
{
    if n == 0 {
        seq![]
    } else {
        let before = links(receipt_indices, data_ids, receiver_id, (n - 1) as nat, receipt);
        if receipt_indices[n - 1] == receipt {
            before.push(DataReceiverView { data_id: data_ids[n - 1], receiver_id })
        } else {
            before
        }
    }
}

/// The receipts once the first `n` of `receipt_indices` are linked to a new
/// receipt for `receiver_id`, each by the data id in the same place.
pub open spec fn linked(
    receipts: ReceiptsView,
    receipt_indices: Seq<ReceiptIndex>,
    data_ids: Seq<CryptoHash>,
    receiver_id: Seq<char>,
    n: nat,
) -> ReceiptsView {
    Seq::new(
        receipts.len(),
        |r: int|
            {
                let (owner, old) = receipts[r];
                (
                    owner,
                    ReceiptMetadataView {
                        output_data_receivers: old.output_data_receivers + links(
                            receipt_indices,
                            data_ids,
                            receiver_id,
                            n,
                            r,
                        ),
                        ..old
                    },
                )
            },
    )
}

/// The sum of the weights of `claims`.
pub open spec fn total_weight(claims: Seq<GasClaim>) -> nat
    decreases claims.len(),
{
    if claims.len() == 0 {
        0
    } else {
        total_weight(claims.drop_last()) + claims.last().weight
    }
}

/// The part of `unused_gas` that is owed to `weight` out of `total`, rounded down.
pub open spec fn share(unused_gas: nat, weight: nat, total: nat) -> nat {
    unused_gas * weight / total
}

/// The sum of the shares of the first `n` of `claims`.
pub open spec fn total_share(claims: Seq<GasClaim>, unused_gas: nat, n: nat) -> nat
    decreases n,
{
    if n == 0 {
        0
    } else {
        total_share(claims, unused_gas, (n - 1) as nat) + share(
            unused_gas,
            claims[n - 1].weight,
            total_weight(claims),
        )
    }
}

/// What the shares of `claims` leave of `unused_gas`, because they are rounded down.
pub open spec fn remainder(claims: Seq<GasClaim>, unused_gas: nat) -> int {
    unused_gas - total_share(claims, unused_gas, claims.len())
}

/// The sum of those shares of the first `n` of `claims` that the action `action`
/// of the receipt `receipt` claims.
pub open spec fn share_of_action(
    claims: Seq<GasClaim>,
    unused_gas: nat,
    n: nat,
    receipt: int,
    action: int,
) -> nat
    decreases n,
{
    if n == 0 {
        0
    } else {
        let before = share_of_action(claims, unused_gas, (n - 1) as nat, receipt, action);
        if claims[n - 1].names(receipt, action) {
            before + share(unused_gas, claims[n - 1].weight, total_weight(claims))
        } else {
            before
        }
    }
}

/// The gas that the action `action` of the receipt `receipt` is assigned: its
/// shares, and for the action of the last claim also what is left over.
pub open spec fn assigned_gas(
    claims: Seq<GasClaim>,
    unused_gas: nat,
    receipt: int,
    action: int,
) -> nat {
    let shares = share_of_action(claims, unused_gas, claims.len(), receipt, action);
    if claims.len() > 0 && claims.last().names(receipt, action) {
        (shares + remainder(claims, unused_gas)) as nat
    } else {
        shares
    }
}

/// The action with `gas` more gas, if it is a function call.
pub open spec fn add_gas(action: ActionView, gas: nat) -> ActionView {
    match action {
        ActionView::FunctionCall(call) => ActionView::FunctionCall(
            FunctionCallView { gas: call.gas + gas, ..call },
        ),
        _ => action,
    }
}

/// The receipts with `gas(r, a)` more gas for the action `a` of the receipt `r`.
pub open spec fn with_gas(receipts: ReceiptsView, gas: spec_fn(int, int) -> nat) -> ReceiptsView {
    Seq::new(
        receipts.len(),
        |r: int|
            {
                let (owner, old) = receipts[r];
                (
                    owner,
                    ReceiptMetadataView {
                        actions: Seq::new(
                            old.actions.len(),
                            |a: int| add_gas(old.actions[a], gas(r, a)),
                        ),
                        ..old
                    },
                )
            },
    )
}

/// A receipt sends output data under `data_id` to `receiver_id`.
pub open spec fn sends(
    receipt: ReceiptMetadataView,
    data_id: CryptoHash,
    receiver_id: Seq<char>,
) -> bool {
    receipt.output_data_receivers.contains(DataReceiverView { data_id, receiver_id })
}

/// Some receipt before the receipt `receipt` sends output data under `data_id` to
/// the receiver of that receipt.
pub open spec fn sent_by_earlier(
    receipts: ReceiptsView,
    receipt: int,
    data_id: CryptoHash,
) -> bool {
    exists|s: int|
        0 <= s < receipt && #[trigger] sends(receipts[s].1, data_id, receipts[receipt].0)
}

/// Whatever data a receipt waits for, an earlier receipt sends it to the receiver of
/// that receipt. So no receipt waits for itself or for a later one.
pub open spec fn inputs_are_sent(receipts: ReceiptsView) -> bool {
    forall|r: int, i: int|
        #![trigger receipts[r].1.input_data_ids[i]]
        0 <= r < receipts.len() && 0 <= i < receipts[r].1.input_data_ids.len() ==> sent_by_earlier(
            receipts,
            r,
            receipts[r].1.input_data_ids[i],
        )
}

impl ReceiptManagerView {
    /// Every claim is that of a function call and has a positive weight, no function
    /// call has two claims, and the data that receipts wait for is sent by earlier ones.
    pub open spec fn wf(self) -> bool {
        &&& inputs_are_sent(self.receipts)
        &&& forall|k: int|
            #![trigger self.gas_weights[k]]
            0 <= k < self.gas_weights.len() ==> {
                &&& self.gas_weights[k].weight > 0
                &&& is_function_call(
                    self.receipts,
                    self.gas_weights[k].receipt_index as int,
                    self.gas_weights[k].action_index as int,
                )
            }
        &&& forall|j: int, k: int|
            #![trigger self.gas_weights[j], self.gas_weights[k]]
            0 <= j < k < self.gas_weights.len() ==> !self.gas_weights[j].names(
                self.gas_weights[k].receipt_index as int,
                self.gas_weights[k].action_index as int,
            )
    }

    /// `receipt_index` refers to a known receipt.
    pub open spec fn knows(self, receipt_index: ReceiptIndex) -> bool {
        receipt_index < self.receipts.len()
    }

    /// A manager without receipts.
    pub open spec fn empty() -> ReceiptManagerView {
        ReceiptManagerView { receipts: seq![], gas_weights: seq![] }
    }

    /// The index that the next action attached to a known receipt gets in that receipt.
    pub open spec fn next_action_index(self, receipt_index: ReceiptIndex) -> nat {
        self.receipts[receipt_index as int].1.actions.len()
    }

    /// The manager with `action` added behind the actions of a receipt.
    pub open spec fn append(
        self,
        receipt_index: ReceiptIndex,
        action: ActionView,
    ) -> ReceiptManagerView {
        let (receiver_id, old) = self.receipts[receipt_index as int];
        ReceiptManagerView {
            receipts: self.receipts.update(
                receipt_index as int,
                (receiver_id, ReceiptMetadataView { actions: old.actions.push(action), ..old }),
            ),
            ..self
        }
    }

    /// The manager with a function call added behind the actions of a receipt, and
    /// with a claim of that call if `weight` is positive.
    pub open spec fn append_weighted(
        self,
        receipt_index: ReceiptIndex,
        call: FunctionCallView,
        weight: nat,
    ) -> ReceiptManagerView {
        let appended = self.append(receipt_index, ActionView::FunctionCall(call));
        if weight == 0 {
            appended
        } else {
            ReceiptManagerView {
                gas_weights: self.gas_weights.push(
                    GasClaim {
                        receipt_index: receipt_index as nat,
                        action_index: self.next_action_index(receipt_index),
                        weight,
                    },
                ),
                ..appended
            }
        }
    }

    /// All of `receipt_indices` refer to known receipts.
    pub open spec fn knows_all(self, receipt_indices: Seq<ReceiptIndex>) -> bool {
        forall|i: int| 0 <= i < receipt_indices.len() ==> self.knows(#[trigger] receipt_indices[i])
    }

    /// The manager after the attempt to create a receipt for `receiver_id` that waits
    /// for `receipt_indices`. Each receipt listed before the first unknown one is
    /// linked; the new receipt is added if there is no unknown one.
    pub open spec fn create_receipt(
        self,
        data_ids: Seq<CryptoHash>,
        receipt_indices: Seq<ReceiptIndex>,
        receiver_id: Seq<char>,
    ) -> ReceiptManagerView {
        let n = known_prefix(receipt_indices, self.receipts.len());
        let receipts = linked(self.receipts, receipt_indices, data_ids, receiver_id, n);
        if self.knows_all(receipt_indices) {
            ReceiptManagerView {
                receipts: receipts.push(
                    (
                        receiver_id,
                        ReceiptMetadataView {
                            output_data_receivers: seq![],
                            input_data_ids: data_ids,
                            actions: seq![],
                        },
                    ),
                ),
                ..self
            }
        } else {
            ReceiptManagerView { receipts, ..self }
        }
    }

    /// What the attempt to create a receipt that waits for `receipt_indices` returns:
    /// the index of the new receipt, or an error that tells the first unknown index.
    pub open spec fn created(self, receipt_indices: Seq<ReceiptIndex>) -> ExtResult<ReceiptIndex> {
        if self.knows_all(receipt_indices) {
            Ok(self.receipts.len() as ReceiptIndex)
        } else {
            let unknown = known_prefix(receipt_indices, self.receipts.len()) as int;
            Err(
                VMLogicError::HostError(
                    HostError::InvalidReceiptIndex { receipt_index: receipt_indices[unknown] },
                ),
            )
        }
    }

    /// How many data ids the attempt to create a receipt that waits for
    /// `receipt_indices` takes: one for each index, up to the first unknown one.
    pub open spec fn data_ids_taken(self, receipt_indices: Seq<ReceiptIndex>) -> nat {
        if self.knows_all(receipt_indices) {
            receipt_indices.len()
        } else {
            known_prefix(receipt_indices, self.receipts.len()) + 1
        }
    }

    /// The manager after `unused_gas` was distributed: every function call has the gas
    /// that it is assigned in addition, and no claim is left.
    pub open spec fn distribute(self, unused_gas: nat) -> ReceiptManagerView {
        ReceiptManagerView {
            receipts: with_gas(
                self.receipts,
                |r: int, a: int| assigned_gas(self.gas_weights, unused_gas, r, a),
            ),
            gas_weights: seq![],
        }
    }

    /// No function call that is assigned a part of `unused_gas` would then hold more gas than
    /// fits.
    pub open spec fn gas_fits(self, unused_gas: nat) -> bool {
        forall|r: int, a: int|
            #![trigger self.receipts[r].1.actions[a]]
            is_function_call(self.receipts, r, a) && assigned_gas(
                self.gas_weights,
                unused_gas,
                r,
                a,
            ) > 0 ==> self.receipts[r].1.actions[a]->FunctionCall_0.gas + assigned_gas(
                self.gas_weights,
                unused_gas,
                r,
                a,
            ) <= u64::MAX
    }
}

} // verus!
