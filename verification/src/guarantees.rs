//! What the operations do, told of their inputs and results alone: of sequences, of their
//! elements and of numbers, and of how the results of two calls relate.
use vstd::prelude::*;
use vstd::utf8::{decode_utf8, valid_utf8};

use crate::decode::{decode_method_names, decode_public_key, valid_method_names};
use crate::gas::{
    lemma_assigned_to_claim, lemma_assigned_to_unclaimed, lemma_remainder_bound,
    lemma_share_rounds_down, lemma_total_weight_positive,
};
use crate::links::lemma_known_prefix_is;
use crate::manager::receipts_view;
use crate::model::{
    add_gas, assigned_gas, is_function_call, links, remainder, sends, sent_by_earlier, share,
    total_share, total_weight, GasClaim, ReceiptManagerView,
};
use crate::types::{
    AccessKey, AccessKeyPermission, AccountId, Action, CryptoHash, DataReceiver, HostError,
    PublicKey, ReceiptIndex, ReceiptMetadata, VMLogicError,
};
use crate::view::{
    AccessKeyPermissionView, ActionView, DataReceiverView, FunctionCallView, PublicKeyView,
};

verus! {

/// The sum of `numbers`.
pub open spec fn sum_of(numbers: Seq<int>) -> int
    decreases numbers.len(),
{
    if numbers.len() == 0 {
        0
    } else {
        sum_of(numbers.drop_last()) + numbers.last()
    }
}

/// A sum is built up number by number: of none it is zero, and each one more is added to it.
pub proof fn law_sum_adds_up(numbers: Seq<int>, one_more: int)
    ensures
        sum_of(Seq::empty()) == 0,
        sum_of(numbers.push(one_more)) == sum_of(numbers) + one_more,
{
    assert(numbers.push(one_more).drop_last() =~= numbers);
}

// Receipts and indices.

/// An index is known exactly if it is below the number of receipts.
pub proof fn law_known_is_below_the_count(
    manager: ReceiptManagerView,
    receipt_index: ReceiptIndex,
    receipt_indices: Seq<ReceiptIndex>,
)
    ensures
        manager.knows(receipt_index) <==> receipt_index < manager.receipts.len(),
        manager.knows_all(receipt_indices) <==> (forall|i: int|
            0 <= i < receipt_indices.len() ==> #[trigger] receipt_indices[i]
                < manager.receipts.len()),
{
    assert(manager.knows_all(receipt_indices) ==> forall|i: int|
        0 <= i < receipt_indices.len() ==> manager.knows(#[trigger] receipt_indices[i]));
    if forall|i: int|
        0 <= i < receipt_indices.len() ==> #[trigger] receipt_indices[i]
            < manager.receipts.len() {
        assert(manager.knows_all(receipt_indices));
    }
}

/// A manager without receipts has no claims either, and is a valid one.
pub proof fn law_empty_manager_is_empty()
    ensures
        ReceiptManagerView::empty().receipts.len() == 0,
        ReceiptManagerView::empty().gas_weights.len() == 0,
        ReceiptManagerView::empty().wf(),
{
}

/// In a valid manager each claim has a positive weight and is that of a function call that is
/// there, and no two claims are of the same call.
pub proof fn law_claims_are_of_function_calls(manager: ReceiptManagerView)
    requires
        manager.wf(),
    ensures
        forall|k: int|
            #![trigger manager.gas_weights[k]]
            0 <= k < manager.gas_weights.len() ==> {
                let claim = manager.gas_weights[k];
                let r = claim.receipt_index as int;
                let a = claim.action_index as int;
                &&& claim.weight > 0
                &&& r < manager.receipts.len()
                &&& a < manager.receipts[r].1.actions.len()
                &&& manager.receipts[r].1.actions[a] is FunctionCall
            },
        forall|j: int, k: int|
            #![trigger manager.gas_weights[j], manager.gas_weights[k]]
            0 <= j < k < manager.gas_weights.len() ==> manager.gas_weights[j].receipt_index
                != manager.gas_weights[k].receipt_index || manager.gas_weights[j].action_index
                != manager.gas_weights[k].action_index,
{
}

/// In a valid manager each piece of data that a receipt waits for is sent to the receiver of
/// that receipt by an earlier one.
pub proof fn law_inputs_are_sent_earlier(manager: ReceiptManagerView, r: int, i: int)
    requires
        manager.wf(),
        0 <= r < manager.receipts.len(),
        0 <= i < manager.receipts[r].1.input_data_ids.len(),
    ensures
        exists|s: int, j: int|
            {
                &&& 0 <= s < r
                &&& 0 <= j < manager.receipts[s].1.output_data_receivers.len()
                &&& (#[trigger] manager.receipts[s].1.output_data_receivers[j]).data_id
                    == manager.receipts[r].1.input_data_ids[i]
                &&& manager.receipts[s].1.output_data_receivers[j].receiver_id
                    == manager.receipts[r].0
            },
{
    let data_id = manager.receipts[r].1.input_data_ids[i];
    let receiver_id = manager.receipts[r].0;
    assert(sent_by_earlier(manager.receipts, r, data_id));
    let s = choose|s: int|
        0 <= s < r && #[trigger] sends(manager.receipts[s].1, data_id, receiver_id);
    let sent = manager.receipts[s].1.output_data_receivers;
    let receiver = DataReceiverView { data_id, receiver_id };
    let j = choose|j: int| 0 <= j < sent.len() && sent[j] == receiver;
    assert(manager.receipts[s].1.output_data_receivers[j] == receiver);
}

// Attaching actions.

/// Attaching an action puts it behind the actions of its receipt, at the index that is told,
/// and changes nothing else: no other receipt, no link, no earlier action, no claim.
pub proof fn law_append_adds_one_action(
    manager: ReceiptManagerView,
    receipt_index: ReceiptIndex,
    action: ActionView,
)
    requires
        receipt_index < manager.receipts.len(),
    ensures
        ({
            let i = receipt_index as int;
            let before = manager.receipts;
            let after = manager.append(receipt_index, action).receipts;
            &&& manager.next_action_index(receipt_index) == before[i].1.actions.len()
            &&& manager.append(receipt_index, action).gas_weights == manager.gas_weights
            &&& after.len() == before.len()
            &&& forall|r: int|
                0 <= r < before.len() && r != i ==> #[trigger] after[r] == before[r]
            &&& after[i].0 == before[i].0
            &&& after[i].1.input_data_ids == before[i].1.input_data_ids
            &&& after[i].1.output_data_receivers == before[i].1.output_data_receivers
            &&& after[i].1.actions == before[i].1.actions.push(action)
        }),
{
}

/// Attaching a function call with a weight does to the receipts what attaching it without one
/// does. With a positive weight one claim is added behind the others, which all stay: that of
/// the call just attached, with its own weight. With a weight of zero none is added.
pub proof fn law_append_weighted_adds_one_claim(
    manager: ReceiptManagerView,
    receipt_index: ReceiptIndex,
    call: FunctionCallView,
    weight: nat,
)
    requires
        receipt_index < manager.receipts.len(),
    ensures
        ({
            let i = receipt_index as int;
            let before = manager.gas_weights;
            let attached = manager.append_weighted(receipt_index, call, weight);
            let after = attached.gas_weights;
            &&& attached.receipts == manager.append(
                receipt_index,
                ActionView::FunctionCall(call),
            ).receipts
            &&& weight == 0 ==> after == before
            &&& weight > 0 ==> {
                &&& after.len() == before.len() + 1
                &&& after.drop_last() == before
                &&& after.last().receipt_index == receipt_index
                &&& after.last().action_index == manager.receipts[i].1.actions.len()
                &&& after.last().weight == weight
                &&& attached.receipts[i].1.actions[after.last().action_index as int]
                    == ActionView::FunctionCall(call)
            }
        }),
{
    let attached = manager.append_weighted(receipt_index, call, weight);
    if weight > 0 {
        assert(attached.gas_weights.drop_last() =~= manager.gas_weights);
    }
}

// Creating receipts.

/// Creating a receipt, or trying to, does nothing to the receipts that were there but give
/// them more data receivers behind those that they have: whom they are for, what they wait
/// for and what they do stay, listed or not. The claims to the unused gas stay too.
pub proof fn law_create_receipt_keeps_what_was_there(
    manager: ReceiptManagerView,
    data_ids: Seq<CryptoHash>,
    receipt_indices: Seq<ReceiptIndex>,
    receiver_id: Seq<char>,
)
    ensures
        ({
            let before = manager.receipts;
            let created = manager.create_receipt(data_ids, receipt_indices, receiver_id);
            let after = created.receipts;
            &&& created.gas_weights == manager.gas_weights
            &&& after.len() >= before.len()
            &&& forall|r: int|
                #![trigger after[r]]
                #![trigger before[r]]
                0 <= r < before.len() ==> {
                    let old_receivers = before[r].1.output_data_receivers;
                    let new_receivers = after[r].1.output_data_receivers;
                    &&& after[r].0 == before[r].0
                    &&& after[r].1.input_data_ids == before[r].1.input_data_ids
                    &&& after[r].1.actions == before[r].1.actions
                    &&& new_receivers.len() >= old_receivers.len()
                    &&& new_receivers.take(old_receivers.len() as int) == old_receivers
                }
        }),
{
    let before = manager.receipts;
    let after = manager.create_receipt(data_ids, receipt_indices, receiver_id).receipts;
    assert forall|r: int|
        #![trigger after[r]]
        #![trigger before[r]]
        0 <= r < before.len() implies {
        let old_receivers = before[r].1.output_data_receivers;
        let new_receivers = after[r].1.output_data_receivers;
        &&& after[r].0 == before[r].0
        &&& after[r].1.input_data_ids == before[r].1.input_data_ids
        &&& after[r].1.actions == before[r].1.actions
        &&& new_receivers.len() >= old_receivers.len()
        &&& new_receivers.take(old_receivers.len() as int) == old_receivers
    } by {
        let old_receivers = before[r].1.output_data_receivers;
        let new_receivers = after[r].1.output_data_receivers;
        assert(new_receivers.take(old_receivers.len() as int) =~= old_receivers);
    }
}

/// Where all indices are known, one receipt comes behind the others. It is for the given
/// receiver, waits for exactly the given data ids in their order, and has no action and no data
/// receiver yet.
pub proof fn law_create_receipt_adds_one_receipt(
    manager: ReceiptManagerView,
    data_ids: Seq<CryptoHash>,
    receipt_indices: Seq<ReceiptIndex>,
    receiver_id: Seq<char>,
)
    requires
        forall|i: int|
            0 <= i < receipt_indices.len() ==> #[trigger] receipt_indices[i]
                < manager.receipts.len(),
    ensures
        ({
            let after = manager.create_receipt(data_ids, receipt_indices, receiver_id).receipts;
            &&& after.len() == manager.receipts.len() + 1
            &&& after.last().0 == receiver_id
            &&& after.last().1.input_data_ids == data_ids
            &&& after.last().1.output_data_receivers.len() == 0
            &&& after.last().1.actions.len() == 0
        }),
{
    assert(manager.knows_all(receipt_indices));
}

/// A receipt that waits for none leaves the receipts that were there as they are.
pub proof fn law_create_receipt_without_dependencies(
    manager: ReceiptManagerView,
    receiver_id: Seq<char>,
)
    ensures
        ({
            let after = manager.create_receipt(seq![], seq![], receiver_id);
            &&& after.receipts.len() == manager.receipts.len() + 1
            &&& after.receipts.drop_last() == manager.receipts
        }),
{
    let after = manager.create_receipt(seq![], seq![], receiver_id);
    assert(manager.knows_all(seq![]));
    assert(after.receipts.drop_last() =~~= manager.receipts);
}

/// To wait for one more receipt, listed last, gives that receipt one more data receiver behind
/// its others, of the data id in the same place and the receiver of the new receipt. It makes
/// no difference to any other receipt that was there.
pub proof fn law_create_receipt_one_more_dependency(
    manager: ReceiptManagerView,
    data_ids: Seq<CryptoHash>,
    receipt_indices: Seq<ReceiptIndex>,
    receiver_id: Seq<char>,
    data_id: CryptoHash,
    receipt_index: ReceiptIndex,
)
    requires
        data_ids.len() == receipt_indices.len(),
        forall|i: int|
            0 <= i < receipt_indices.len() ==> #[trigger] receipt_indices[i]
                < manager.receipts.len(),
        receipt_index < manager.receipts.len(),
    ensures
        ({
            let fewer = manager.create_receipt(data_ids, receipt_indices, receiver_id).receipts;
            let more = manager.create_receipt(
                data_ids.push(data_id),
                receipt_indices.push(receipt_index),
                receiver_id,
            ).receipts;
            let i = receipt_index as int;
            &&& more.len() == fewer.len()
            &&& forall|r: int|
                0 <= r < manager.receipts.len() && r != i ==> #[trigger] more[r] == fewer[r]
            &&& more[i].1.output_data_receivers == fewer[i].1.output_data_receivers.push(
                DataReceiverView { data_id, receiver_id },
            )
        }),
{
    let count = manager.receipts.len();
    let n = receipt_indices.len();
    let more_ids = data_ids.push(data_id);
    let more_indices = receipt_indices.push(receipt_index);
    assert(manager.knows_all(receipt_indices));
    assert(manager.knows_all(more_indices));
    lemma_known_prefix_is(receipt_indices, count, n);
    lemma_known_prefix_is(more_indices, count, n + 1);
    assert forall|r: int| links(more_indices, more_ids, receiver_id, n, r) == #[trigger] links(
        receipt_indices,
        data_ids,
        receiver_id,
        n,
        r,
    ) by {
        lemma_links_agree(receipt_indices, data_ids, more_indices, more_ids, receiver_id, n, r);
    }
    let fewer = manager.create_receipt(data_ids, receipt_indices, receiver_id).receipts;
    let more = manager.create_receipt(more_ids, more_indices, receiver_id).receipts;
    assert forall|r: int| 0 <= r < count && r != receipt_index implies #[trigger] more[r]
        == fewer[r] by {
        assert(links(more_indices, more_ids, receiver_id, n, r) == links(
            receipt_indices,
            data_ids,
            receiver_id,
            n,
            r,
        ));
        assert(more[r] =~~= fewer[r]);
    }
    let i = receipt_index as int;
    let receiver = DataReceiverView { data_id, receiver_id };
    let added = links(receipt_indices, data_ids, receiver_id, n, i);
    assert(links(more_indices, more_ids, receiver_id, n + 1, i) == added.push(receiver));
    let old_receivers = manager.receipts[i].1.output_data_receivers;
    assert(old_receivers + added.push(receiver) =~= (old_receivers + added).push(receiver));
}

proof fn lemma_links_agree(
    indices: Seq<ReceiptIndex>,
    ids: Seq<CryptoHash>,
    other_indices: Seq<ReceiptIndex>,
    other_ids: Seq<CryptoHash>,
    receiver_id: Seq<char>,
    n: nat,
    receipt: int,
)
    requires
        n <= indices.len() && n <= other_indices.len(),
        n <= ids.len() && n <= other_ids.len(),
        forall|i: int| 0 <= i < n ==> #[trigger] indices[i] == other_indices[i],
        forall|i: int| 0 <= i < n ==> #[trigger] ids[i] == other_ids[i],
    ensures
        links(indices, ids, receiver_id, n, receipt) == links(
            other_indices,
            other_ids,
            receiver_id,
            n,
            receipt,
        ),
    decreases n,
{
    if n > 0 {
        assert(indices[n - 1] == other_indices[n - 1]);
        lemma_links_agree(
            indices,
            ids,
            other_indices,
            other_ids,
            receiver_id,
            (n - 1) as nat,
            receipt,
        );
    }
}

/// An attempt that comes upon an unknown index gives an error that tells it, takes a data id for
/// it and for each index before it, adds no receipt, and leaves the receipts as they would be
/// had only the indices before it been listed.
pub proof fn law_create_receipt_stops_at_unknown(
    manager: ReceiptManagerView,
    data_ids: Seq<CryptoHash>,
    receipt_indices: Seq<ReceiptIndex>,
    receiver_id: Seq<char>,
    unknown: int,
)
    requires
        data_ids.len() == receipt_indices.len(),
        0 <= unknown < receipt_indices.len(),
        forall|i: int|
            0 <= i < unknown ==> #[trigger] receipt_indices[i] < manager.receipts.len(),
        receipt_indices[unknown] >= manager.receipts.len(),
    ensures
        ({
            let known_only = manager.create_receipt(
                data_ids.take(unknown),
                receipt_indices.take(unknown),
                receiver_id,
            );
            let after = manager.create_receipt(data_ids, receipt_indices, receiver_id);
            &&& after.receipts == known_only.receipts.drop_last()
            &&& manager.created(receipt_indices) == Err::<ReceiptIndex, _>(
                VMLogicError::HostError(
                    HostError::InvalidReceiptIndex { receipt_index: receipt_indices[unknown] },
                ),
            )
            &&& manager.data_ids_taken(receipt_indices) == unknown + 1
        }),
{
    let count = manager.receipts.len();
    let n = unknown as nat;
    let indices = receipt_indices.take(unknown);
    let ids = data_ids.take(unknown);
    assert(!manager.knows(receipt_indices[unknown]));
    assert forall|i: int| 0 <= i < indices.len() implies #[trigger] indices[i] < count by {
        assert(receipt_indices[i] < count);
    }
    assert(manager.knows_all(indices));
    lemma_known_prefix_is(receipt_indices, count, n);
    lemma_known_prefix_is(indices, count, n);
    assert forall|r: int| links(indices, ids, receiver_id, n, r) == #[trigger] links(
        receipt_indices,
        data_ids,
        receiver_id,
        n,
        r,
    ) by {
        lemma_links_agree(indices, ids, receipt_indices, data_ids, receiver_id, n, r);
    }
    let known_only = manager.create_receipt(ids, indices, receiver_id);
    let after = manager.create_receipt(data_ids, receipt_indices, receiver_id);
    assert forall|r: int| 0 <= r < count implies #[trigger] after.receipts[r]
        == known_only.receipts[r] by {
        assert(links(indices, ids, receiver_id, n, r) == links(
            receipt_indices,
            data_ids,
            receiver_id,
            n,
            r,
        ));
        assert(after.receipts[r] =~~= known_only.receipts[r]);
    }
    assert(after.receipts =~= known_only.receipts.drop_last());
}

/// Where all indices are known, the result is the position of the new receipt, and one data id
/// is taken for each index.
pub proof fn law_create_receipt_tells_the_new_index(
    manager: ReceiptManagerView,
    receipt_indices: Seq<ReceiptIndex>,
)
    requires
        manager.receipts.len() <= u64::MAX,
        forall|i: int|
            0 <= i < receipt_indices.len() ==> #[trigger] receipt_indices[i]
                < manager.receipts.len(),
    ensures
        manager.created(receipt_indices) is Ok,
        manager.created(receipt_indices)->Ok_0 == manager.receipts.len(),
        manager.data_ids_taken(receipt_indices) == receipt_indices.len(),
{
    assert(manager.knows_all(receipt_indices));
}

// Distributing gas.

/// The weights of the claims of a manager, in their order.
pub open spec fn weights(manager: ReceiptManagerView) -> Seq<int> {
    Seq::new(manager.gas_weights.len(), |k: int| manager.gas_weights[k].weight as int)
}

/// The gas that each function call with a claim gains when `unused_gas` is distributed, in the
/// order of the claims.
pub open spec fn gains(manager: ReceiptManagerView, unused_gas: nat) -> Seq<int> {
    Seq::new(
        manager.gas_weights.len(),
        |k: int|
            {
                let r = manager.gas_weights[k].receipt_index as int;
                let a = manager.gas_weights[k].action_index as int;
                manager.distribute(unused_gas).receipts[r].1.actions[a]->FunctionCall_0.gas
                    - manager.receipts[r].1.actions[a]->FunctionCall_0.gas
            },
    )
}

/// A gain is the difference between the gas that a call holds after and before, and weights and
/// gains are listed claim by claim.
pub proof fn law_gains_and_weights_are_per_claim(
    manager: ReceiptManagerView,
    unused_gas: nat,
    k: int,
)
    requires
        0 <= k < manager.gas_weights.len(),
    ensures
        ({
            let r = manager.gas_weights[k].receipt_index as int;
            let a = manager.gas_weights[k].action_index as int;
            let before = manager.receipts[r].1.actions[a]->FunctionCall_0;
            let after = manager.distribute(unused_gas).receipts[r].1.actions[a]->FunctionCall_0;
            &&& weights(manager).len() == manager.gas_weights.len()
            &&& weights(manager)[k] == manager.gas_weights[k].weight
            &&& gains(manager, unused_gas).len() == manager.gas_weights.len()
            &&& gains(manager, unused_gas)[k] == after.gas - before.gas
        }),
{
}

/// Distributing gas uses up all claims and changes nothing in the receipts but the gas of
/// function calls that have a claim; whatever has none stays as it is.
pub proof fn law_distribution_keeps_everything_else(
    manager: ReceiptManagerView,
    unused_gas: nat,
)
    requires
        manager.wf(),
    ensures
        ({
            let before = manager.receipts;
            let after = manager.distribute(unused_gas).receipts;
            &&& manager.distribute(unused_gas).gas_weights.len() == 0
            &&& after.len() == before.len()
            &&& forall|r: int|
                #![trigger after[r]]
                #![trigger before[r]]
                0 <= r < before.len() ==> {
                    &&& after[r].0 == before[r].0
                    &&& after[r].1.input_data_ids == before[r].1.input_data_ids
                    &&& after[r].1.output_data_receivers == before[r].1.output_data_receivers
                    &&& after[r].1.actions.len() == before[r].1.actions.len()
                }
            &&& forall|r: int, a: int|
                #![trigger after[r].1.actions[a]]
                0 <= r < before.len() && 0 <= a < before[r].1.actions.len() ==> {
                    ||| after[r].1.actions[a] == before[r].1.actions[a]
                    ||| exists|k: int|
                        {
                            &&& 0 <= k < manager.gas_weights.len()
                            &&& (#[trigger] manager.gas_weights[k]).receipt_index == r
                            &&& manager.gas_weights[k].action_index == a
                        }
                }
            &&& forall|r: int, a: int|
                #![trigger after[r].1.actions[a]]
                0 <= r < before.len() && 0 <= a < before[r].1.actions.len() ==> match (
                    before[r].1.actions[a],
                    after[r].1.actions[a],
                ) {
                    (ActionView::FunctionCall(old_call), ActionView::FunctionCall(new_call)) => {
                        &&& new_call.method_name == old_call.method_name
                        &&& new_call.args == old_call.args
                        &&& new_call.deposit == old_call.deposit
                        &&& new_call.gas >= old_call.gas
                    },
                    (old_action, new_action) => new_action == old_action,
                }
        }),
{
    let before = manager.receipts;
    let after = manager.distribute(unused_gas).receipts;
    let claims = manager.gas_weights;
    assert forall|r: int, a: int|
        #![trigger after[r].1.actions[a]]
        0 <= r < before.len() && 0 <= a < before[r].1.actions.len() implies {
        ||| after[r].1.actions[a] == before[r].1.actions[a]
        ||| exists|k: int|
            {
                &&& 0 <= k < claims.len()
                &&& (#[trigger] claims[k]).receipt_index == r
                &&& claims[k].action_index == a
            }
    } by {
        if forall|k: int| 0 <= k < claims.len() ==> !(#[trigger] claims[k]).names(r, a) {
            lemma_assigned_to_unclaimed(claims, unused_gas, r, a);
            assert(add_gas(before[r].1.actions[a], 0) == before[r].1.actions[a]);
        }
    }
}

/// A manager without claims stays as it is when gas is distributed.
pub proof fn law_nothing_is_distributed_without_claims(
    manager: ReceiptManagerView,
    unused_gas: nat,
)
    requires
        manager.gas_weights.len() == 0,
    ensures
        manager.distribute(unused_gas) == manager,
{
    assert(manager.distribute(unused_gas) =~~= manager);
}

proof fn lemma_total_weight_is_sum(claims: Seq<GasClaim>)
    ensures
        total_weight(claims) == sum_of(
            Seq::new(claims.len(), |k: int| claims[k].weight as int),
        ),
    decreases claims.len(),
{
    let all = Seq::new(claims.len(), |k: int| claims[k].weight as int);
    if claims.len() > 0 {
        let rest = claims.drop_last();
        lemma_total_weight_is_sum(rest);
        assert(all.drop_last() =~= Seq::new(rest.len(), |k: int| rest[k].weight as int));
    }
}

proof fn lemma_gain(manager: ReceiptManagerView, unused_gas: nat, k: int)
    requires
        manager.wf(),
        0 <= k < manager.gas_weights.len(),
    ensures
        total_weight(manager.gas_weights) == sum_of(weights(manager)),
        total_weight(manager.gas_weights) > 0,
        gains(manager, unused_gas)[k] == share(
            unused_gas,
            manager.gas_weights[k].weight,
            total_weight(manager.gas_weights),
        ) + if k == manager.gas_weights.len() - 1 {
            remainder(manager.gas_weights, unused_gas)
        } else {
            0
        },
{
    let claims = manager.gas_weights;
    assert(claims[claims.len() - 1].weight > 0);
    lemma_total_weight_positive(claims);
    lemma_total_weight_is_sum(claims);
    assert(weights(manager) =~= Seq::new(claims.len(), |j: int| claims[j].weight as int));
    lemma_assigned_to_claim(manager, unused_gas, k as nat);
    lemma_remainder_bound(claims, unused_gas);
}

/// A call with a weight gains in proportion to it: the largest amount that, times the sum of
/// all weights, is at most the unused gas times its weight. The call of the last claim gains at
/// least that.
pub proof fn law_gains_are_in_proportion(manager: ReceiptManagerView, unused_gas: nat, k: int)
    requires
        manager.wf(),
        0 <= k < manager.gas_weights.len(),
    ensures
        ({
            let weight = manager.gas_weights[k].weight;
            let total = sum_of(weights(manager));
            let gained = gains(manager, unused_gas)[k];
            &&& gained >= 0
            &&& unused_gas * weight < (gained + 1) * total
            &&& k < manager.gas_weights.len() - 1 ==> gained * total <= unused_gas * weight
        }),
{
    let claims = manager.gas_weights;
    let total = total_weight(claims);
    let weight = claims[k].weight;
    let part = share(unused_gas, weight, total);
    let gained = gains(manager, unused_gas)[k];
    lemma_gain(manager, unused_gas, k);
    lemma_remainder_bound(claims, unused_gas);
    lemma_share_rounds_down(unused_gas, weight, total);
    assert((part + 1) * total <= (gained + 1) * total) by (nonlinear_arith)
        requires
            part <= gained,
            total > 0,
    ;
}

/// All gains together are the unused gas: none of it is lost and none is made up. So what the
/// rounding leaves over goes to the call of the last claim.
pub proof fn law_gains_add_up_to_the_unused_gas(manager: ReceiptManagerView, unused_gas: nat)
    requires
        manager.wf(),
        manager.gas_weights.len() > 0,
    ensures
        sum_of(gains(manager, unused_gas)) == unused_gas,
{
    let claims = manager.gas_weights;
    let n = claims.len();
    let all = gains(manager, unused_gas);
    assert forall|k: int| 0 <= k < n - 1 implies #[trigger] all[k] == share(
        unused_gas,
        claims[k].weight,
        total_weight(claims),
    ) by {
        lemma_gain(manager, unused_gas, k);
    }
    lemma_sum_of_shares(claims, unused_gas, all.drop_last(), (n - 1) as nat);
    assert(all.drop_last().take(n - 1) =~= all.drop_last());
    lemma_gain(manager, unused_gas, n - 1);
}

proof fn lemma_sum_of_shares(claims: Seq<GasClaim>, unused_gas: nat, parts: Seq<int>, n: nat)
    requires
        n <= parts.len(),
        forall|k: int|
            0 <= k < n ==> #[trigger] parts[k] == share(
                unused_gas,
                claims[k].weight,
                total_weight(claims),
            ),
    ensures
        sum_of(parts.take(n as int)) == total_share(claims, unused_gas, n),
    decreases n,
{
    if n > 0 {
        let m = (n - 1) as nat;
        lemma_sum_of_shares(claims, unused_gas, parts, m);
        assert(parts.take(n as int).drop_last() =~= parts.take(m as int));
        assert(parts[m as int] == parts.take(n as int).last());
    }
}

/// Gas fits exactly if no function call that gains some holds more than a 64 bit number can
/// tell afterwards.
pub proof fn law_gas_fits_means_no_overflow(manager: ReceiptManagerView, unused_gas: nat)
    requires
        manager.wf(),
    ensures
        manager.gas_fits(unused_gas) <==> (forall|k: int|
            #![trigger manager.gas_weights[k]]
            0 <= k < manager.gas_weights.len() && gains(manager, unused_gas)[k] > 0 ==> {
                let r = manager.gas_weights[k].receipt_index as int;
                let a = manager.gas_weights[k].action_index as int;
                manager.distribute(unused_gas).receipts[r].1.actions[a]->FunctionCall_0.gas
                    <= 0xffff_ffff_ffff_ffff
            }),
{
    let claims = manager.gas_weights;
    let receipts = manager.receipts;
    let after = manager.distribute(unused_gas).receipts;
    if manager.gas_fits(unused_gas) {
        assert forall|k: int|
            #![trigger claims[k]]
            0 <= k < claims.len() && gains(manager, unused_gas)[k] > 0 implies {
            let r = claims[k].receipt_index as int;
            let a = claims[k].action_index as int;
            after[r].1.actions[a]->FunctionCall_0.gas <= 0xffff_ffff_ffff_ffff
        } by {
            let r = claims[k].receipt_index as int;
            let a = claims[k].action_index as int;
            assert(receipts[r].1.actions[a] is FunctionCall);
        }
    }
    if forall|k: int|
        #![trigger claims[k]]
        0 <= k < claims.len() && gains(manager, unused_gas)[k] > 0 ==> {
            let r = claims[k].receipt_index as int;
            let a = claims[k].action_index as int;
            after[r].1.actions[a]->FunctionCall_0.gas <= 0xffff_ffff_ffff_ffff
        } {
        assert forall|r: int, a: int|
            #![trigger receipts[r].1.actions[a]]
            is_function_call(receipts, r, a) && assigned_gas(
                claims,
                unused_gas,
                r,
                a,
            ) > 0 implies receipts[r].1.actions[a]->FunctionCall_0.gas + assigned_gas(
            claims,
            unused_gas,
            r,
            a,
        ) <= u64::MAX by {
            if forall|k: int| 0 <= k < claims.len() ==> !(#[trigger] claims[k]).names(r, a) {
                lemma_assigned_to_unclaimed(claims, unused_gas, r, a);
            } else {
                let k = choose|k: int|
                    0 <= k < claims.len() && (#[trigger] claims[k]).names(r, a);
                assert(gains(manager, unused_gas)[k] > 0);
                assert(after[r].1.actions[a]->FunctionCall_0.gas <= 0xffff_ffff_ffff_ffff);
            }
        }
    }
}

// Decoding.

/// Decoding a public key undoes its encoding, a byte for the curve followed by the bytes of the
/// key: each key is decoded from its own encoding, and whatever is decoded was the encoding of
/// the key that came out.
pub proof fn law_public_key_decoding_undoes_encoding(data: Seq<u8>, bytes: Seq<u8>)
    ensures
        data.len() == 32 ==> decode_public_key(seq![0u8] + data) == Some(
            PublicKeyView::ED25519(data),
        ),
        data.len() == 64 ==> decode_public_key(seq![1u8] + data) == Some(
            PublicKeyView::SECP256K1(data),
        ),
        match decode_public_key(bytes) {
            Some(PublicKeyView::ED25519(key)) => key.len() == 32 && bytes == seq![0u8] + key,
            Some(PublicKeyView::SECP256K1(key)) => key.len() == 64 && bytes == seq![1u8] + key,
            None => true,
        },
{
    assert((seq![0u8] + data).skip(1) =~= data);
    assert((seq![1u8] + data).skip(1) =~= data);
    if decode_public_key(bytes) is Some {
        assert(bytes =~= seq![bytes[0]] + bytes.skip(1));
    }
}

/// Method names are valid exactly if each of them is valid UTF-8, and of each one name is
/// decoded, in the same place: the one that it encodes.
pub proof fn law_method_names_are_decoded_one_by_one(method_names: Seq<Vec<u8>>)
    ensures
        valid_method_names(method_names) <==> (forall|i: int|
            0 <= i < method_names.len() ==> valid_utf8(#[trigger] method_names[i]@)),
        decode_method_names(method_names).len() == method_names.len(),
        forall|i: int|
            0 <= i < method_names.len() ==> #[trigger] decode_method_names(method_names)[i]
                == decode_utf8(method_names[i]@),
{
}

// Views.

/// The view of an account id is its text, and that of a key its curve and its bytes.
pub proof fn law_identifiers_are_seen_as_they_are(
    account_id: AccountId,
    public_key: PublicKey,
    receiver: DataReceiver,
)
    ensures
        account_id@ == account_id.0@,
        match public_key {
            PublicKey::ED25519(data) => public_key@ == PublicKeyView::ED25519(data@),
            PublicKey::SECP256K1(data) => public_key@ == PublicKeyView::SECP256K1(data@),
        },
        receiver@.data_id == receiver.data_id,
        receiver@.receiver_id == receiver.receiver_id.0@,
{
}

/// The view of an access key shows its nonce and all of its permission.
pub proof fn law_access_keys_are_seen_as_they_are(key: AccessKey)
    ensures
        key@.nonce == key.nonce,
        match key.permission {
            AccessKeyPermission::FullAccess => key@.permission
                == AccessKeyPermissionView::FullAccess,
            AccessKeyPermission::FunctionCall(permission) => {
                &&& key@.permission is FunctionCall
                &&& key@.permission->FunctionCall_0.allowance == permission.allowance
                &&& key@.permission->FunctionCall_0.receiver_id == permission.receiver_id@
                &&& key@.permission->FunctionCall_0.method_names.len()
                    == permission.method_names@.len()
                &&& forall|i: int|
                    0 <= i < permission.method_names@.len()
                        ==> #[trigger] key@.permission->FunctionCall_0.method_names[i]
                        == permission.method_names@[i]@
            },
        },
{
}

/// The view of an action shows which action it is and all that it holds.
pub proof fn law_actions_are_seen_as_they_are(action: Action)
    ensures
        match action {
            Action::CreateAccount(_) => action@ == ActionView::CreateAccount,
            Action::DeployContract(a) => action@ == ActionView::DeployContract { code: a.code@ },
            Action::FunctionCall(a) => {
                &&& action@ is FunctionCall
                &&& action@->FunctionCall_0.method_name == a.method_name@
                &&& action@->FunctionCall_0.args == a.args@
                &&& action@->FunctionCall_0.gas == a.gas
                &&& action@->FunctionCall_0.deposit == a.deposit
            },
            Action::Transfer(a) => action@ == ActionView::Transfer { deposit: a.deposit },
            Action::Stake(a) => action@ == ActionView::Stake {
                stake: a.stake,
                public_key: a.public_key@,
            },
            Action::AddKey(a) => action@ == ActionView::AddKey {
                public_key: a.public_key@,
                access_key: a.access_key@,
            },
            Action::DeleteKey(a) => action@ == ActionView::DeleteKey { public_key: a.public_key@ },
            Action::DeleteAccount(a) => action@ == ActionView::DeleteAccount {
                beneficiary_id: a.beneficiary_id.0@,
            },
        },
{
}

/// The view of a list of receipts shows each receipt in its place, with its receiver and all of
/// its data receivers, data ids and actions in their order.
pub proof fn law_receipts_are_seen_as_they_are(receipts: Seq<(AccountId, ReceiptMetadata)>, r: int)
    requires
        0 <= r < receipts.len(),
    ensures
        ({
            let seen = receipts_view(receipts)[r];
            let (receiver_id, receipt) = receipts[r];
            &&& receipts_view(receipts).len() == receipts.len()
            &&& seen.0 == receiver_id.0@
            &&& seen.1 == receipt@
            &&& seen.1.input_data_ids == receipt.input_data_ids@
            &&& seen.1.output_data_receivers.len() == receipt.output_data_receivers@.len()
            &&& forall|i: int|
                0 <= i < receipt.output_data_receivers@.len()
                    ==> #[trigger] seen.1.output_data_receivers[i]
                    == receipt.output_data_receivers@[i]@
            &&& seen.1.actions.len() == receipt.actions@.len()
            &&& forall|i: int|
                0 <= i < receipt.actions@.len() ==> #[trigger] seen.1.actions[i]
                    == receipt.actions@[i]@
        }),
{
}

} // verus!
