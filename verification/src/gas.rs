//! Facts about the shares into which unused gas is split.
use vstd::prelude::*;

use crate::model::{
    add_gas, assigned_gas, is_function_call, remainder, set_action, share, share_of_action,
    total_share, total_weight, with_gas, GasClaim, ReceiptManagerView, ReceiptsView,
};

verus! {

/// The receipts once the shares of the first `n` of `claims` are added.
pub open spec fn shared_out(
    receipts: ReceiptsView,
    claims: Seq<GasClaim>,
    unused_gas: nat,
    n: nat,
) -> ReceiptsView {
    with_gas(receipts, |r: int, a: int| share_of_action(claims, unused_gas, n, r, a))
}

/// The weight of the first claims is at most the weight of all of them.
pub proof fn lemma_total_weight_take(claims: Seq<GasClaim>, n: nat)
    requires
        n <= claims.len(),
    ensures
        total_weight(claims.take(n as int)) <= total_weight(claims),
    decreases claims.len(),
{
    if n == claims.len() {
        assert(claims.take(n as int) =~= claims);
    } else {
        lemma_total_weight_take(claims.drop_last(), n);
        assert(claims.drop_last().take(n as int) =~= claims.take(n as int));
    }
}

/// One more claim adds its weight.
pub proof fn lemma_total_weight_step(claims: Seq<GasClaim>, n: nat)
    requires
        n < claims.len(),
    ensures
        total_weight(claims.take(n as int + 1)) == total_weight(claims.take(n as int))
            + claims[n as int].weight,
{
    assert(claims.take(n as int + 1).drop_last() =~= claims.take(n as int));
}

/// Where the last claim has a positive weight, the total weight is positive.
pub proof fn lemma_total_weight_positive(claims: Seq<GasClaim>)
    requires
        claims.len() > 0,
        claims.last().weight > 0,
    ensures
        total_weight(claims) > 0,
{
}

/// A share is the exact quotient rounded down.
pub proof fn lemma_share_rounds_down(unused_gas: nat, weight: nat, total: nat)
    requires
        total > 0,
    ensures
        share(unused_gas, weight, total) * total <= unused_gas * weight,
        unused_gas * weight < (share(unused_gas, weight, total) + 1) * total,
{
    let p = unused_gas * weight;
    vstd::arithmetic::div_mod::lemma_fundamental_div_mod(p as int, total as int);
    assert(p == total * (p / total) + p % total);
    assert((p / total + 1) * total == total * (p / total) + total) by (nonlinear_arith);
    assert((p / total) * total == total * (p / total)) by (nonlinear_arith);
}

/// The first shares together are at most the exact part that their weights are owed.
proof fn lemma_total_share_scaled(claims: Seq<GasClaim>, unused_gas: nat, n: nat)
    requires
        n <= claims.len(),
        total_weight(claims) > 0,
    ensures
        total_share(claims, unused_gas, n) * total_weight(claims) <= unused_gas * total_weight(
            claims.take(n as int),
        ),
        unused_gas * total_weight(claims.take(n as int)) <= (total_share(claims, unused_gas, n) + n)
            * total_weight(claims),
        n > 0 ==> unused_gas * total_weight(claims.take(n as int)) < (total_share(
            claims,
            unused_gas,
            n,
        ) + n) * total_weight(claims),
    decreases n,
{
    let total = total_weight(claims);
    if n == 0 {
        assert(claims.take(0).len() == 0);
        assert(unused_gas * 0 == 0) by (nonlinear_arith);
        assert(0 * total == 0) by (nonlinear_arith);
    } else {
        let m = (n - 1) as nat;
        lemma_total_share_scaled(claims, unused_gas, m);
        lemma_total_weight_step(claims, m);
        let before = total_share(claims, unused_gas, m);
        let weight = claims[m as int].weight;
        let part = share(unused_gas, weight, total);
        let weights = total_weight(claims.take(m as int));
        lemma_share_rounds_down(unused_gas, weight, total);
        assert((before + part) * total == before * total + part * total) by (nonlinear_arith);
        assert(unused_gas * (weights + weight) == unused_gas * weights + unused_gas * weight)
            by (nonlinear_arith);
        assert((before + part + m + 1) * total == (before + m) * total + (part + 1) * total)
            by (nonlinear_arith);
    }
}

/// No more is shared out than there is.
pub proof fn lemma_total_share_bound(claims: Seq<GasClaim>, unused_gas: nat, n: nat)
    requires
        n <= claims.len(),
        total_weight(claims) > 0,
    ensures
        total_share(claims, unused_gas, n) <= unused_gas,
{
    let total = total_weight(claims);
    let weights = total_weight(claims.take(n as int));
    let shares = total_share(claims, unused_gas, n);
    lemma_total_share_scaled(claims, unused_gas, n);
    lemma_total_weight_take(claims, n);
    assert(shares <= unused_gas) by (nonlinear_arith)
        requires
            shares * total <= unused_gas * weights,
            weights <= total,
            total > 0,
    ;
}

/// Rounding down leaves less gas than there are claims.
pub proof fn lemma_remainder_bound(claims: Seq<GasClaim>, unused_gas: nat)
    requires
        total_weight(claims) > 0,
    ensures
        0 <= remainder(claims, unused_gas) < claims.len(),
{
    let total = total_weight(claims);
    let n = claims.len();
    let shares = total_share(claims, unused_gas, n);
    lemma_total_share_bound(claims, unused_gas, n);
    lemma_total_share_scaled(claims, unused_gas, n);
    assert(claims.take(n as int) =~= claims);
    assert(unused_gas < shares + n) by (nonlinear_arith)
        requires
            unused_gas * total < (shares + n) * total,
            total > 0,
    ;
}

/// More claims never take away from the shares of an action.
pub proof fn lemma_share_of_action_monotone(
    claims: Seq<GasClaim>,
    unused_gas: nat,
    m: nat,
    n: nat,
    receipt: int,
    action: int,
)
    requires
        m <= n,
    ensures
        share_of_action(claims, unused_gas, m, receipt, action) <= share_of_action(
            claims,
            unused_gas,
            n,
            receipt,
            action,
        ),
    decreases n - m,
{
    if m < n {
        lemma_share_of_action_monotone(claims, unused_gas, m, (n - 1) as nat, receipt, action);
    }
}

/// The shares of the first claims are part of what an action is assigned.
pub proof fn lemma_share_within_assigned(
    claims: Seq<GasClaim>,
    unused_gas: nat,
    n: nat,
    receipt: int,
    action: int,
)
    requires
        n <= claims.len(),
        total_weight(claims) > 0,
    ensures
        share_of_action(claims, unused_gas, n, receipt, action) <= assigned_gas(
            claims,
            unused_gas,
            receipt,
            action,
        ),
{
    lemma_share_of_action_monotone(claims, unused_gas, n, claims.len(), receipt, action);
    lemma_remainder_bound(claims, unused_gas);
}

/// Before any share is added the receipts are as they were.
pub proof fn lemma_shared_out_none(receipts: ReceiptsView, claims: Seq<GasClaim>, unused_gas: nat)
    ensures
        shared_out(receipts, claims, unused_gas, 0) == receipts,
{
    assert(shared_out(receipts, claims, unused_gas, 0) =~~= receipts);
}

/// Adding the share of the next claim to the call that it names.
pub proof fn lemma_shared_out_step(
    receipts: ReceiptsView,
    claims: Seq<GasClaim>,
    unused_gas: nat,
    n: nat,
)
    requires
        n < claims.len(),
        is_function_call(
            receipts,
            claims[n as int].receipt_index as int,
            claims[n as int].action_index as int,
        ),
    ensures
        ({
            let before = shared_out(receipts, claims, unused_gas, n);
            let r = claims[n as int].receipt_index as int;
            let a = claims[n as int].action_index as int;
            let part = share(unused_gas, claims[n as int].weight, total_weight(claims));
            &&& is_function_call(before, r, a)
            &&& before[r].1.actions[a] == add_gas(
                receipts[r].1.actions[a],
                share_of_action(claims, unused_gas, n, r, a),
            )
            &&& set_action(before, r, a, add_gas(before[r].1.actions[a], part)) == shared_out(
                receipts,
                claims,
                unused_gas,
                n + 1,
            )
        }),
{
    let before = shared_out(receipts, claims, unused_gas, n);
    let r = claims[n as int].receipt_index as int;
    let a = claims[n as int].action_index as int;
    let part = share(unused_gas, claims[n as int].weight, total_weight(claims));
    assert(set_action(before, r, a, add_gas(before[r].1.actions[a], part)) =~~= shared_out(
        receipts,
        claims,
        unused_gas,
        n + 1,
    ));
}

/// Adding what is left over to the call that the last claim names.
pub proof fn lemma_remainder_step(receipts: ReceiptsView, claims: Seq<GasClaim>, unused_gas: nat)
    requires
        claims.len() > 0,
        total_weight(claims) > 0,
        is_function_call(
            receipts,
            claims.last().receipt_index as int,
            claims.last().action_index as int,
        ),
    ensures
        ({
            let before = shared_out(receipts, claims, unused_gas, claims.len());
            let r = claims.last().receipt_index as int;
            let a = claims.last().action_index as int;
            let rest = remainder(claims, unused_gas) as nat;
            &&& is_function_call(before, r, a)
            &&& before[r].1.actions[a] == add_gas(
                receipts[r].1.actions[a],
                share_of_action(claims, unused_gas, claims.len(), r, a),
            )
            &&& set_action(before, r, a, add_gas(before[r].1.actions[a], rest)) == with_gas(
                receipts,
                |r: int, a: int| assigned_gas(claims, unused_gas, r, a),
            )
        }),
{
    let before = shared_out(receipts, claims, unused_gas, claims.len());
    let r = claims.last().receipt_index as int;
    let a = claims.last().action_index as int;
    let rest = remainder(claims, unused_gas) as nat;
    lemma_remainder_bound(claims, unused_gas);
    assert(set_action(before, r, a, add_gas(before[r].1.actions[a], rest)) =~~= with_gas(
        receipts,
        |r: int, a: int| assigned_gas(claims, unused_gas, r, a),
    ));
}

/// An action that none of the first claims names gets no share of them.
pub proof fn lemma_unclaimed_gets_no_share(
    claims: Seq<GasClaim>,
    unused_gas: nat,
    n: nat,
    receipt: int,
    action: int,
)
    requires
        n <= claims.len(),
        forall|k: int| 0 <= k < n ==> !(#[trigger] claims[k]).names(receipt, action),
    ensures
        share_of_action(claims, unused_gas, n, receipt, action) == 0,
    decreases n,
{
    if n > 0 {
        lemma_unclaimed_gets_no_share(claims, unused_gas, (n - 1) as nat, receipt, action);
    }
}

/// An action that no claim names is assigned nothing.
pub proof fn lemma_assigned_to_unclaimed(
    claims: Seq<GasClaim>,
    unused_gas: nat,
    receipt: int,
    action: int,
)
    requires
        forall|k: int| 0 <= k < claims.len() ==> !(#[trigger] claims[k]).names(receipt, action),
    ensures
        assigned_gas(claims, unused_gas, receipt, action) == 0,
{
    lemma_unclaimed_gets_no_share(claims, unused_gas, claims.len(), receipt, action);
    if claims.len() > 0 {
        assert(!claims[claims.len() - 1].names(receipt, action));
    }
}

/// A function call gets the share of its claim once, from that claim on.
proof fn lemma_claim_gets_its_share(
    manager: ReceiptManagerView,
    unused_gas: nat,
    n: nat,
    k: nat,
)
    requires
        manager.wf(),
        n <= manager.gas_weights.len(),
        k < manager.gas_weights.len(),
    ensures
        ({
            let claim = manager.gas_weights[k as int];
            share_of_action(
                manager.gas_weights,
                unused_gas,
                n,
                claim.receipt_index as int,
                claim.action_index as int,
            ) == if k < n {
                share(unused_gas, claim.weight, total_weight(manager.gas_weights))
            } else {
                0
            }
        }),
    decreases n,
{
    if n > 0 {
        let m = (n - 1) as nat;
        lemma_claim_gets_its_share(manager, unused_gas, m, k);
        let claim = manager.gas_weights[k as int];
        let other = manager.gas_weights[m as int];
        if m < k {
            assert(!other.names(claim.receipt_index as int, claim.action_index as int));
        } else if k < m {
            assert(!claim.names(other.receipt_index as int, other.action_index as int));
        }
    }
}

/// The function call of a claim is assigned the share of that claim, and for the last claim
/// also what is left over.
pub proof fn lemma_assigned_to_claim(manager: ReceiptManagerView, unused_gas: nat, k: nat)
    requires
        manager.wf(),
        k < manager.gas_weights.len(),
    ensures
        ({
            let claims = manager.gas_weights;
            let claim = claims[k as int];
            assigned_gas(
                claims,
                unused_gas,
                claim.receipt_index as int,
                claim.action_index as int,
            ) == share(unused_gas, claim.weight, total_weight(claims)) + if k == claims.len() - 1 {
                remainder(claims, unused_gas)
            } else {
                0
            }
        }),
{
    let claims = manager.gas_weights;
    let last = claims[claims.len() - 1];
    assert(last.weight > 0);
    lemma_total_weight_positive(claims);
    lemma_remainder_bound(claims, unused_gas);
    lemma_claim_gets_its_share(manager, unused_gas, claims.len(), k);
    if k < claims.len() - 1 {
        assert(!claims[k as int].names(last.receipt_index as int, last.action_index as int));
    }
}

} // verus!
