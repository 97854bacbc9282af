//! What holds of the manager as a whole.
use vstd::prelude::*;

use crate::gas::{
    lemma_assigned_to_claim, lemma_assigned_to_unclaimed, lemma_remainder_bound,
    lemma_remainder_step, lemma_share_rounds_down, lemma_shared_out_none, lemma_shared_out_step,
    lemma_total_weight_positive, lemma_unclaimed_gets_no_share, shared_out,
};
use crate::links::{
    lemma_known_prefix, lemma_known_prefix_is, lemma_linked_none, lemma_linked_sends,
    lemma_linked_step,
};
use crate::model::{
    add_gas, assigned_gas, has_action, is_function_call, known_prefix, linked, links, remainder,
    sends, set_action, share, total_share, total_weight, ReceiptManagerView, ReceiptsView,
};
use crate::types::{CryptoHash, ReceiptIndex};
use crate::view::{ActionView, FunctionCallView, ReceiptMetadataView};

verus! {

/// The gas attached to an action.
pub open spec fn gas_of(action: ActionView) -> nat {
    match action {
        ActionView::FunctionCall(call) => call.gas,
        _ => 0,
    }
}

/// The gas attached to all of `actions`.
pub open spec fn gas_of_actions(actions: Seq<ActionView>) -> nat
    decreases actions.len(),
{
    if actions.len() == 0 {
        0
    } else {
        gas_of_actions(actions.drop_last()) + gas_of(actions.last())
    }
}

/// The gas attached to all actions of `receipts`.
pub open spec fn gas_of_receipts(receipts: ReceiptsView) -> nat
    decreases receipts.len(),
{
    if receipts.len() == 0 {
        0
    } else {
        gas_of_receipts(receipts.drop_last()) + gas_of_actions(receipts.last().1.actions)
    }
}

/// The number of data receivers of all of `receipts`.
pub open spec fn count_data_receivers(receipts: ReceiptsView) -> nat
    decreases receipts.len(),
{
    if receipts.len() == 0 {
        0
    } else {
        count_data_receivers(receipts.drop_last())
            + receipts.last().1.output_data_receivers.len()
    }
}

/// `after` is `before`, or it is the same function call with more gas.
pub open spec fn differs_at_most_by_added_gas(before: ActionView, after: ActionView) -> bool {
    match (before, after) {
        (ActionView::FunctionCall(old_call), ActionView::FunctionCall(new_call)) => {
            &&& new_call.gas >= old_call.gas
            &&& new_call == FunctionCallView { gas: new_call.gas, ..old_call }
        },
        _ => after == before,
    }
}

proof fn lemma_gas_of_actions_update(actions: Seq<ActionView>, a: int, value: ActionView)
    requires
        0 <= a < actions.len(),
    ensures
        gas_of_actions(actions.update(a, value)) == gas_of_actions(actions) - gas_of(actions[a])
            + gas_of(value),
    decreases actions.len(),
{
    let updated = actions.update(a, value);
    if a == actions.len() - 1 {
        assert(updated.drop_last() =~= actions.drop_last());
    } else {
        assert(updated.drop_last() =~= actions.drop_last().update(a, value));
        lemma_gas_of_actions_update(actions.drop_last(), a, value);
    }
}

proof fn lemma_gas_of_receipts_update(
    receipts: ReceiptsView,
    r: int,
    value: (Seq<char>, ReceiptMetadataView),
)
    requires
        0 <= r < receipts.len(),
    ensures
        gas_of_receipts(receipts.update(r, value)) == gas_of_receipts(receipts) - gas_of_actions(
            receipts[r].1.actions,
        ) + gas_of_actions(value.1.actions),
    decreases receipts.len(),
{
    let updated = receipts.update(r, value);
    if r == receipts.len() - 1 {
        assert(updated.drop_last() =~= receipts.drop_last());
    } else {
        assert(updated.drop_last() =~= receipts.drop_last().update(r, value));
        lemma_gas_of_receipts_update(receipts.drop_last(), r, value);
    }
}

proof fn lemma_gas_added(receipts: ReceiptsView, r: int, a: int, gas: nat)
    requires
        is_function_call(receipts, r, a),
    ensures
        gas_of_receipts(
            set_action(receipts, r, a, add_gas(receipts[r].1.actions[a], gas)),
        ) == gas_of_receipts(receipts) + gas,
{
    let value = add_gas(receipts[r].1.actions[a], gas);
    let (owner, old) = receipts[r];
    lemma_gas_of_actions_update(old.actions, a, value);
    lemma_gas_of_receipts_update(
        receipts,
        r,
        (owner, ReceiptMetadataView { actions: old.actions.update(a, value), ..old }),
    );
}

proof fn lemma_gas_shared_out(manager: ReceiptManagerView, unused_gas: nat, n: nat)
    requires
        manager.wf(),
        n <= manager.gas_weights.len(),
    ensures
        gas_of_receipts(shared_out(manager.receipts, manager.gas_weights, unused_gas, n))
            == gas_of_receipts(manager.receipts) + total_share(manager.gas_weights, unused_gas, n),
    decreases n,
{
    let receipts = manager.receipts;
    let claims = manager.gas_weights;
    if n == 0 {
        lemma_shared_out_none(receipts, claims, unused_gas);
    } else {
        let m = (n - 1) as nat;
        let claim = claims[m as int];
        lemma_gas_shared_out(manager, unused_gas, m);
        lemma_shared_out_step(receipts, claims, unused_gas, m);
        lemma_gas_added(
            shared_out(receipts, claims, unused_gas, m),
            claim.receipt_index as int,
            claim.action_index as int,
            share(unused_gas, claim.weight, total_weight(claims)),
        );
    }
}

/// Distributing gas neither creates nor loses any: where there is a claim the function calls
/// together hold the unused gas in addition, and where there is none nothing changes.
pub proof fn law_distribution_conserves_gas(manager: ReceiptManagerView, unused_gas: nat)
    requires
        manager.wf(),
    ensures
        manager.gas_weights.len() > 0 ==> gas_of_receipts(manager.distribute(unused_gas).receipts)
            == gas_of_receipts(manager.receipts) + unused_gas,
        manager.gas_weights.len() == 0 ==> manager.distribute(unused_gas) == manager,
{
    let receipts = manager.receipts;
    let claims = manager.gas_weights;
    if claims.len() > 0 {
        let last = claims[claims.len() - 1];
        assert(last.weight > 0);
        lemma_total_weight_positive(claims);
        lemma_gas_shared_out(manager, unused_gas, claims.len());
        lemma_remainder_bound(claims, unused_gas);
        lemma_remainder_step(receipts, claims, unused_gas);
        lemma_gas_added(
            shared_out(receipts, claims, unused_gas, claims.len()),
            last.receipt_index as int,
            last.action_index as int,
            remainder(claims, unused_gas) as nat,
        );
    } else {
        assert(manager.distribute(unused_gas) =~~= manager);
    }
}

proof fn lemma_gas_of_actions_bounds(actions: Seq<ActionView>, a: int)
    requires
        0 <= a < actions.len(),
    ensures
        gas_of(actions[a]) <= gas_of_actions(actions),
    decreases actions.len(),
{
    if a < actions.len() - 1 {
        lemma_gas_of_actions_bounds(actions.drop_last(), a);
    }
}

proof fn lemma_gas_of_receipts_bounds(receipts: ReceiptsView, r: int, a: int)
    requires
        has_action(receipts, r, a),
    ensures
        gas_of(receipts[r].1.actions[a]) <= gas_of_receipts(receipts),
    decreases receipts.len(),
{
    if r < receipts.len() - 1 {
        lemma_gas_of_receipts_bounds(receipts.drop_last(), r, a);
    } else {
        lemma_gas_of_actions_bounds(receipts[r].1.actions, a);
    }
}

/// Distributing gas cannot overflow where the prepaid gas of all function calls and the
/// unused gas together fit.
pub proof fn law_gas_fits_where_the_total_fits(manager: ReceiptManagerView, unused_gas: nat)
    requires
        manager.wf(),
        gas_of_receipts(manager.receipts) + unused_gas <= u64::MAX,
    ensures
        manager.gas_fits(unused_gas),
{
    let after = manager.distribute(unused_gas).receipts;
    law_distribution_conserves_gas(manager, unused_gas);
    assert forall|r: int, a: int|
        #![trigger manager.receipts[r].1.actions[a]]
        is_function_call(
            manager.receipts,
            r,
            a,
        ) implies manager.receipts[r].1.actions[a]->FunctionCall_0.gas + assigned_gas(
        manager.gas_weights,
        unused_gas,
        r,
        a,
    ) <= u64::MAX by {
        lemma_gas_of_receipts_bounds(after, r, a);
    }
}

/// Distributing gas changes nothing but the gas of function calls that claim some: receivers,
/// links and the number of actions of every receipt stay, and an action without a claim stays
/// as it is.
pub proof fn law_distribution_changes_only_claimed_gas(
    manager: ReceiptManagerView,
    unused_gas: nat,
    r: int,
    a: int,
)
    requires
        manager.wf(),
        0 <= r < manager.receipts.len(),
    ensures
        ({
            let before = manager.receipts;
            let after = manager.distribute(unused_gas).receipts;
            let claimed = exists|k: int|
                0 <= k < manager.gas_weights.len() && (#[trigger] manager.gas_weights[k]).names(
                    r,
                    a,
                );
            &&& after.len() == before.len()
            &&& after[r].0 == before[r].0
            &&& after[r].1.input_data_ids == before[r].1.input_data_ids
            &&& after[r].1.output_data_receivers == before[r].1.output_data_receivers
            &&& after[r].1.actions.len() == before[r].1.actions.len()
            &&& has_action(before, r, a) && !claimed ==> after[r].1.actions[a]
                == before[r].1.actions[a]
            &&& claimed ==> before[r].1.actions[a] is FunctionCall && differs_at_most_by_added_gas(
                before[r].1.actions[a],
                after[r].1.actions[a],
            )
        }),
{
    let claims = manager.gas_weights;
    let claimed = exists|k: int| 0 <= k < claims.len() && (#[trigger] claims[k]).names(r, a);
    if !claimed && has_action(manager.receipts, r, a) {
        lemma_assigned_to_unclaimed(claims, unused_gas, r, a);
        let action = manager.receipts[r].1.actions[a];
        assert(add_gas(action, 0) == action);
    }
}

/// A function call with a weight gets the unused gas times its weight over the sum of all
/// weights, rounded down; the last one also gets what the rounding leaves over.
pub proof fn law_claim_gets_its_share(manager: ReceiptManagerView, unused_gas: nat, k: int)
    requires
        manager.wf(),
        0 <= k < manager.gas_weights.len(),
    ensures
        ({
            let claims = manager.gas_weights;
            let r = claims[k].receipt_index as int;
            let a = claims[k].action_index as int;
            let before = manager.receipts[r].1.actions[a]->FunctionCall_0;
            let after = manager.distribute(unused_gas).receipts[r].1.actions[a];
            let part = share(unused_gas, claims[k].weight, total_weight(claims));
            let rest = if k == claims.len() - 1 {
                remainder(claims, unused_gas)
            } else {
                0
            };
            after == ActionView::FunctionCall(
                FunctionCallView { gas: (before.gas + part + rest) as nat, ..before },
            )
        }),
{
    lemma_assigned_to_claim(manager, unused_gas, k as nat);
    law_rounding_leaves_little(manager, unused_gas);
}

/// The rounding leaves over less gas than there are function calls with a weight.
pub proof fn law_rounding_leaves_little(manager: ReceiptManagerView, unused_gas: nat)
    requires
        manager.wf(),
        manager.gas_weights.len() > 0,
    ensures
        0 <= remainder(manager.gas_weights, unused_gas) < manager.gas_weights.len(),
{
    assert(manager.gas_weights[manager.gas_weights.len() - 1].weight > 0);
    lemma_total_weight_positive(manager.gas_weights);
    lemma_remainder_bound(manager.gas_weights, unused_gas);
}

/// A larger weight never has the smaller share.
pub proof fn law_shares_follow_weights(unused_gas: nat, smaller: nat, larger: nat, total: nat)
    requires
        smaller <= larger,
        total > 0,
    ensures
        share(unused_gas, smaller, total) <= share(unused_gas, larger, total),
{
    let s = share(unused_gas, smaller, total);
    let l = share(unused_gas, larger, total);
    lemma_share_rounds_down(unused_gas, smaller, total);
    lemma_share_rounds_down(unused_gas, larger, total);
    assert(s < l + 1) by (nonlinear_arith)
        requires
            s * total <= unused_gas * smaller,
            unused_gas * larger < (l + 1) * total,
            smaller <= larger,
            total > 0,
    ;
}

/// Once gas was distributed, no claim is left: to distribute more changes nothing.
pub proof fn law_distribution_uses_up_claims(manager: ReceiptManagerView, first: nat, second: nat)
    ensures
        manager.distribute(first).gas_weights.len() == 0,
        manager.distribute(first).distribute(second) == manager.distribute(first),
{
    let once = manager.distribute(first);
    assert(once.distribute(second) =~~= once);
}

/// A weight of zero is no weight: the call is attached just as it is without one.
pub proof fn law_zero_weight_is_no_weight(
    manager: ReceiptManagerView,
    receipt_index: ReceiptIndex,
    call: FunctionCallView,
)
    ensures
        manager.append_weighted(receipt_index, call, 0) == manager.append(
            receipt_index,
            ActionView::FunctionCall(call),
        ),
{
}

/// A call that is attached with a weight is allocated gas when gas is distributed: as the last
/// one with a weight it gets its share and what the rounding leaves over.
pub proof fn law_weighted_call_is_allocated_gas(
    manager: ReceiptManagerView,
    receipt_index: ReceiptIndex,
    call: FunctionCallView,
    weight: nat,
    unused_gas: nat,
)
    requires
        manager.wf(),
        manager.knows(receipt_index),
        weight > 0,
    ensures
        ({
            let attached = manager.append_weighted(receipt_index, call, weight);
            let r = receipt_index as int;
            let a = manager.receipts[r].1.actions.len() as int;
            let part = share(unused_gas, weight, total_weight(manager.gas_weights) + weight);
            &&& attached.receipts[r].1.actions[a] == ActionView::FunctionCall(call)
            &&& attached.distribute(unused_gas).receipts[r].1.actions[a]
                == ActionView::FunctionCall(
                FunctionCallView {
                    gas: (call.gas + part + remainder(attached.gas_weights, unused_gas)) as nat,
                    ..call
                },
            )
        }),
{
    let attached = manager.append_weighted(receipt_index, call, weight);
    let claims = attached.gas_weights;
    let r = receipt_index as int;
    let a = manager.receipts[r].1.actions.len() as int;
    assert(claims.drop_last() =~= manager.gas_weights);
    assert forall|k: int| 0 <= k < claims.len() - 1 implies !(#[trigger] claims[k]).names(r, a) by {
        assert(manager.gas_weights[k] == claims[k]);
    }
    lemma_unclaimed_gets_no_share(claims, unused_gas, (claims.len() - 1) as nat, r, a);
    lemma_total_weight_positive(claims);
    lemma_remainder_bound(claims, unused_gas);
}

/// One call that changes a manager.
pub enum Operation {
    /// An action is attached to a receipt.
    Append { receipt_index: ReceiptIndex, action: ActionView },
    /// A function call is attached to a receipt with a weight.
    AppendWeighted { receipt_index: ReceiptIndex, call: FunctionCallView, weight: nat },
    /// A receipt is created, or the attempt fails at an unknown index.
    CreateReceipt {
        data_ids: Seq<CryptoHash>,
        receipt_indices: Seq<ReceiptIndex>,
        receiver_id: Seq<char>,
    },
    /// Unused gas is distributed.
    Distribute { unused_gas: nat },
}

impl Operation {
    /// The operation may be called: actions are attached to known receipts only.
    pub open spec fn allowed(self, manager: ReceiptManagerView) -> bool {
        match self {
            Operation::Append { receipt_index, .. } => manager.knows(receipt_index),
            Operation::AppendWeighted { receipt_index, .. } => manager.knows(receipt_index),
            _ => true,
        }
    }

    /// The manager after the operation.
    pub open spec fn apply(self, manager: ReceiptManagerView) -> ReceiptManagerView {
        match self {
            Operation::Append { receipt_index, action } => manager.append(receipt_index, action),
            Operation::AppendWeighted { receipt_index, call, weight } => manager.append_weighted(
                receipt_index,
                call,
                weight,
            ),
            Operation::CreateReceipt { data_ids, receipt_indices, receiver_id } => {
                manager.create_receipt(data_ids, receipt_indices, receiver_id)
            },
            Operation::Distribute { unused_gas } => manager.distribute(unused_gas),
        }
    }

    /// The action that the operation attaches to a receipt, if it attaches one to it.
    pub open spec fn attached_to(self, receipt_index: ReceiptIndex) -> Option<ActionView> {
        match self {
            Operation::Append { receipt_index: at, action } if at == receipt_index => Some(action),
            Operation::AppendWeighted { receipt_index: at, call, .. } if at == receipt_index => {
                Some(ActionView::FunctionCall(call))
            },
            _ => None,
        }
    }
}

/// The manager after `operations`, the first of them first.
pub open spec fn run(
    manager: ReceiptManagerView,
    operations: Seq<Operation>,
) -> ReceiptManagerView
    decreases operations.len(),
{
    if operations.len() == 0 {
        manager
    } else {
        operations.last().apply(run(manager, operations.drop_last()))
    }
}

/// Each of `operations` may be called when its turn comes.
pub open spec fn all_allowed(manager: ReceiptManagerView, operations: Seq<Operation>) -> bool
    decreases operations.len(),
{
    operations.len() > 0 ==> all_allowed(manager, operations.drop_last())
        && operations.last().allowed(run(manager, operations.drop_last()))
}

/// The index of a receipt stays valid, and the receiver of the receipt the same, whatever is
/// done to the manager afterwards.
pub proof fn law_receipt_indices_are_stable(
    manager: ReceiptManagerView,
    operations: Seq<Operation>,
    receipt_index: ReceiptIndex,
)
    requires
        all_allowed(manager, operations),
        manager.knows(receipt_index),
    ensures
        run(manager, operations).knows(receipt_index),
        run(manager, operations).receipts[receipt_index as int].0
            == manager.receipts[receipt_index as int].0,
    decreases operations.len(),
{
    if operations.len() > 0 {
        law_receipt_indices_are_stable(manager, operations.drop_last(), receipt_index);
    }
}

/// Claims to the unused gas stay, each with its call and its weight and in its place, whatever
/// is done to the manager, until gas is distributed: they are only ever added to.
pub proof fn law_claims_stay(manager: ReceiptManagerView, operations: Seq<Operation>)
    requires
        all_allowed(manager, operations),
        forall|k: int| 0 <= k < operations.len() ==> !((#[trigger] operations[k]) is Distribute),
    ensures
        run(manager, operations).gas_weights.len() >= manager.gas_weights.len(),
        run(manager, operations).gas_weights.take(manager.gas_weights.len() as int)
            == manager.gas_weights,
    decreases operations.len(),
{
    let n = manager.gas_weights.len() as int;
    if operations.len() > 0 {
        let rest = operations.drop_last();
        assert forall|k: int| 0 <= k < rest.len() implies !((#[trigger] rest[k]) is Distribute) by {
            assert(rest[k] == operations[k]);
        }
        law_claims_stay(manager, rest);
        assert(!(operations[operations.len() - 1] is Distribute));
        let before = run(manager, rest).gas_weights;
        let after = run(manager, operations).gas_weights;
        assert(after.take(n) =~= before.take(n));
    } else {
        assert(manager.gas_weights.take(n) =~= manager.gas_weights);
    }
}

/// What a receipt waits for stays, and the data receivers that it has stay in their places,
/// whatever is done to the manager: data receivers are only ever added.
pub proof fn law_links_stay(
    manager: ReceiptManagerView,
    operations: Seq<Operation>,
    receipt_index: ReceiptIndex,
)
    requires
        all_allowed(manager, operations),
        manager.knows(receipt_index),
    ensures
        ({
            let before = manager.receipts[receipt_index as int].1;
            let after = run(manager, operations).receipts[receipt_index as int].1;
            let n = before.output_data_receivers.len();
            &&& after.input_data_ids == before.input_data_ids
            &&& after.output_data_receivers.len() >= n
            &&& after.output_data_receivers.take(n as int) == before.output_data_receivers
        }),
    decreases operations.len(),
{
    let i = receipt_index as int;
    let start = manager.receipts[i].1.output_data_receivers;
    let n = start.len() as int;
    if operations.len() > 0 {
        let rest = operations.drop_last();
        law_links_stay(manager, rest, receipt_index);
        law_receipt_indices_are_stable(manager, rest, receipt_index);
        let before = run(manager, rest).receipts[i].1.output_data_receivers;
        let after = run(manager, operations).receipts[i].1.output_data_receivers;
        assert(after.take(n) =~= before.take(n));
    } else {
        assert(start.take(n) =~= start);
    }
}

/// Operations that attach nothing to a receipt leave its actions as they are; only the gas of
/// its function calls may grow, and only where gas is distributed.
pub proof fn law_actions_stay(
    manager: ReceiptManagerView,
    operations: Seq<Operation>,
    receipt_index: ReceiptIndex,
)
    requires
        all_allowed(manager, operations),
        manager.knows(receipt_index),
        forall|k: int|
            0 <= k < operations.len() ==> (#[trigger] operations[k]).attached_to(
                receipt_index,
            ) is None,
    ensures
        ({
            let before = manager.receipts[receipt_index as int].1.actions;
            let after = run(manager, operations).receipts[receipt_index as int].1.actions;
            &&& after.len() == before.len()
            &&& forall|a: int|
                0 <= a < before.len() ==> differs_at_most_by_added_gas(
                    before[a],
                    #[trigger] after[a],
                )
            &&& (forall|k: int|
                0 <= k < operations.len() ==> !((#[trigger] operations[k]) is Distribute))
                ==> after == before
        }),
    decreases operations.len(),
{
    if operations.len() > 0 {
        let rest = operations.drop_last();
        assert forall|k: int| 0 <= k < rest.len() implies (#[trigger] rest[k]).attached_to(
            receipt_index,
        ) is None by {
            assert(rest[k] == operations[k]);
        }
        law_actions_stay(manager, rest, receipt_index);
        law_receipt_indices_are_stable(manager, rest, receipt_index);
        let last = operations[operations.len() - 1];
        assert(last.attached_to(receipt_index) is None);
        if forall|k: int|
            0 <= k < operations.len() ==> !((#[trigger] operations[k]) is Distribute) {
            assert forall|k: int| 0 <= k < rest.len() implies !((
            #[trigger] rest[k]) is Distribute) by {
                assert(rest[k] == operations[k]);
            }
            assert(!(last is Distribute));
        }
    }
}

/// The actions of a receipt are counted one by one and stay in the order in which they were
/// attached, whatever else is done in between: of two actions attached to one receipt, with
/// nothing else attached to it between them, the second has the next index after the first,
/// and both stand at their indices. The first is unchanged unless gas was distributed in
/// between; if it is a function call, it may then hold more gas.
pub proof fn law_actions_are_numbered_in_order(
    manager: ReceiptManagerView,
    receipt_index: ReceiptIndex,
    first: Operation,
    between: Seq<Operation>,
    second: Operation,
)
    requires
        manager.knows(receipt_index),
        first.attached_to(receipt_index) is Some,
        all_allowed(first.apply(manager), between),
        forall|k: int|
            0 <= k < between.len() ==> (#[trigger] between[k]).attached_to(receipt_index) is None,
        second.attached_to(receipt_index) is Some,
    ensures
        ({
            let r = receipt_index as int;
            let middle = run(first.apply(manager), between);
            let after = second.apply(middle).receipts[r].1.actions;
            let p = manager.next_action_index(receipt_index);
            let q = middle.next_action_index(receipt_index);
            &&& middle.knows(receipt_index)
            &&& q == p + 1
            &&& after.len() == q + 1
            &&& Some(after[q as int]) == second.attached_to(receipt_index)
            &&& differs_at_most_by_added_gas(
                first.attached_to(receipt_index)->0,
                after[p as int],
            )
            &&& (forall|k: int|
                0 <= k < between.len() ==> !((#[trigger] between[k]) is Distribute))
                ==> Some(after[p as int]) == first.attached_to(receipt_index)
        }),
{
    let started = first.apply(manager);
    law_receipt_indices_are_stable(started, between, receipt_index);
    law_actions_stay(started, between, receipt_index);
}

/// Attaching an action to one receipt leaves every other receipt as it is, and in that receipt
/// the links and the actions that were there; the new action is the last one.
pub proof fn law_append_changes_one_receipt(
    manager: ReceiptManagerView,
    receipt_index: ReceiptIndex,
    action: ActionView,
    r: int,
)
    requires
        manager.knows(receipt_index),
        0 <= r < manager.receipts.len(),
    ensures
        ({
            let before = manager.receipts[r];
            let appended = manager.append(receipt_index, action);
            let after = appended.receipts[r];
            &&& appended.receipts.len() == manager.receipts.len()
            &&& appended.gas_weights == manager.gas_weights
            &&& r != receipt_index ==> after == before
            &&& r == receipt_index ==> {
                &&& after.0 == before.0
                &&& after.1.input_data_ids == before.1.input_data_ids
                &&& after.1.output_data_receivers == before.1.output_data_receivers
                &&& after.1.actions.len() == before.1.actions.len() + 1
                &&& after.1.actions.drop_last() == before.1.actions
                &&& after.1.actions.last() == action
            }
        }),
{
    let before = manager.receipts[r].1.actions;
    assert(before.push(action).drop_last() =~= before);
}

/// It does not matter in which order actions are attached to two different receipts.
pub proof fn law_appends_commute(
    manager: ReceiptManagerView,
    first: ReceiptIndex,
    first_action: ActionView,
    second: ReceiptIndex,
    second_action: ActionView,
)
    requires
        manager.knows(first),
        manager.knows(second),
        first != second,
    ensures
        manager.append(first, first_action).append(second, second_action) == manager.append(
            second,
            second_action,
        ).append(first, first_action),
{
    assert(manager.append(first, first_action).append(second, second_action) =~~= manager.append(
        second,
        second_action,
    ).append(first, first_action));
}

proof fn lemma_count_update(
    receipts: ReceiptsView,
    r: int,
    value: (Seq<char>, ReceiptMetadataView),
)
    requires
        0 <= r < receipts.len(),
    ensures
        count_data_receivers(receipts.update(r, value)) == count_data_receivers(receipts)
            - receipts[r].1.output_data_receivers.len() + value.1.output_data_receivers.len(),
    decreases receipts.len(),
{
    let updated = receipts.update(r, value);
    if r == receipts.len() - 1 {
        assert(updated.drop_last() =~= receipts.drop_last());
    } else {
        assert(updated.drop_last() =~= receipts.drop_last().update(r, value));
        lemma_count_update(receipts.drop_last(), r, value);
    }
}

proof fn lemma_count_linked(
    receipts: ReceiptsView,
    receipt_indices: Seq<ReceiptIndex>,
    data_ids: Seq<CryptoHash>,
    receiver_id: Seq<char>,
    n: nat,
)
    requires
        n <= receipt_indices.len(),
        forall|i: int| 0 <= i < n ==> #[trigger] receipt_indices[i] < receipts.len(),
    ensures
        count_data_receivers(linked(receipts, receipt_indices, data_ids, receiver_id, n))
            == count_data_receivers(receipts) + n,
    decreases n,
{
    if n == 0 {
        lemma_linked_none(receipts, receipt_indices, data_ids, receiver_id);
    } else {
        let m = (n - 1) as nat;
        let before = linked(receipts, receipt_indices, data_ids, receiver_id, m);
        let after = linked(receipts, receipt_indices, data_ids, receiver_id, n);
        let r = receipt_indices[m as int] as int;
        lemma_count_linked(receipts, receipt_indices, data_ids, receiver_id, m);
        lemma_linked_step(receipts, receipt_indices, data_ids, receiver_id, m);
        assert(after == before.update(r, after[r]));
        lemma_count_update(before, r, after[r]);
    }
}

/// A receipt that is created for known receipts waits for exactly the given data ids, comes
/// behind all of the receipts listed, and each of these sends it the data id in its place. The
/// receipts get one data receiver for each index listed and no other; those that are not
/// listed stay as they are.
pub proof fn law_created_receipt_is_linked(
    manager: ReceiptManagerView,
    data_ids: Seq<CryptoHash>,
    receipt_indices: Seq<ReceiptIndex>,
    receiver_id: Seq<char>,
)
    requires
        manager.knows_all(receipt_indices),
        data_ids.len() == receipt_indices.len(),
    ensures
        ({
            let after = manager.create_receipt(data_ids, receipt_indices, receiver_id).receipts;
            let new = manager.receipts.len() as int;
            &&& after.len() == new + 1
            &&& after[new].0 == receiver_id
            &&& after[new].1.input_data_ids == data_ids
            &&& after[new].1.output_data_receivers.len() == 0
            &&& after[new].1.actions.len() == 0
            &&& forall|i: int|
                #![trigger receipt_indices[i]]
                0 <= i < receipt_indices.len() ==> receipt_indices[i] < new && sends(
                    after[receipt_indices[i] as int].1,
                    data_ids[i],
                    receiver_id,
                )
            &&& forall|r: ReceiptIndex|
                manager.knows(r) && !receipt_indices.contains(r) ==> #[trigger] after[r as int]
                    == manager.receipts[r as int]
            &&& count_data_receivers(after) == count_data_receivers(manager.receipts)
                + receipt_indices.len()
        }),
{
    let before = manager.receipts;
    let count = before.len();
    let after = manager.create_receipt(data_ids, receipt_indices, receiver_id).receipts;
    let n = receipt_indices.len();
    assert forall|i: int| 0 <= i < n implies #[trigger] receipt_indices[i] < count by {
        assert(manager.knows(receipt_indices[i]));
    }
    lemma_known_prefix_is(receipt_indices, count, n);
    let middle = linked(before, receipt_indices, data_ids, receiver_id, n);
    assert(after.drop_last() =~= middle);
    lemma_count_linked(before, receipt_indices, data_ids, receiver_id, n);
    assert forall|i: int|
        #![trigger receipt_indices[i]]
        0 <= i < n implies receipt_indices[i] < count && sends(
        after[receipt_indices[i] as int].1,
        data_ids[i],
        receiver_id,
    ) by {
        lemma_linked_sends(before, receipt_indices, data_ids, receiver_id, n, i as nat);
        assert(after[receipt_indices[i] as int] == middle[receipt_indices[i] as int]);
    }
    assert forall|r: ReceiptIndex|
        manager.knows(r) && !receipt_indices.contains(r) implies #[trigger] after[r as int]
        == before[r as int] by {
        assert(receipt_indices.take(n as int) =~= receipt_indices);
        lemma_unlisted_gets_no_link(receipt_indices, data_ids, receiver_id, n, r);
        assert(after[r as int] =~~= before[r as int]);
    }
}

/// Where an index is unknown no receipt is created, and only the receipts that are listed
/// before it get data receivers, one for each time that they are listed.
pub proof fn law_unknown_index_creates_nothing(
    manager: ReceiptManagerView,
    data_ids: Seq<CryptoHash>,
    receipt_indices: Seq<ReceiptIndex>,
    receiver_id: Seq<char>,
)
    requires
        !manager.knows_all(receipt_indices),
    ensures
        ({
            let after = manager.create_receipt(data_ids, receipt_indices, receiver_id);
            let unknown = known_prefix(receipt_indices, manager.receipts.len());
            &&& manager.created(receipt_indices) is Err
            &&& unknown < receipt_indices.len()
            &&& !manager.knows(receipt_indices[unknown as int])
            &&& after.receipts.len() == manager.receipts.len()
            &&& after.gas_weights == manager.gas_weights
            &&& count_data_receivers(after.receipts) == count_data_receivers(manager.receipts)
                + unknown
            &&& forall|r: ReceiptIndex|
                manager.knows(r) && !receipt_indices.take(unknown as int).contains(r)
                    ==> #[trigger] after.receipts[r as int] == manager.receipts[r as int]
        }),
{
    let count = manager.receipts.len();
    let unknown = known_prefix(receipt_indices, count);
    let after = manager.create_receipt(data_ids, receipt_indices, receiver_id);
    lemma_known_prefix(receipt_indices, count);
    if unknown == receipt_indices.len() {
        assert(manager.knows_all(receipt_indices));
    }
    lemma_count_linked(manager.receipts, receipt_indices, data_ids, receiver_id, unknown);
    assert forall|r: ReceiptIndex|
        manager.knows(r) && !receipt_indices.take(unknown as int).contains(
            r,
        ) implies #[trigger] after.receipts[r as int] == manager.receipts[r as int] by {
        lemma_unlisted_gets_no_link(receipt_indices, data_ids, receiver_id, unknown, r);
        assert(after.receipts[r as int] =~~= manager.receipts[r as int]);
    }
}

proof fn lemma_unlisted_gets_no_link(
    receipt_indices: Seq<ReceiptIndex>,
    data_ids: Seq<CryptoHash>,
    receiver_id: Seq<char>,
    n: nat,
    r: ReceiptIndex,
)
    requires
        n <= receipt_indices.len(),
        !receipt_indices.take(n as int).contains(r),
    ensures
        links(receipt_indices, data_ids, receiver_id, n, r as int).len() == 0,
    decreases n,
{
    if n > 0 {
        let m = (n - 1) as nat;
        let listed = receipt_indices.take(n as int);
        assert(listed[m as int] == receipt_indices[m as int]);
        assert forall|i: int| 0 <= i < m implies receipt_indices.take(m as int)[i]
            != r by {
            assert(listed[i] == receipt_indices.take(m as int)[i]);
        }
        lemma_unlisted_gets_no_link(receipt_indices, data_ids, receiver_id, m, r);
    }
}

} // verus!
