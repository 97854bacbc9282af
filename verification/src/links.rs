//! Facts about how a new receipt is linked to the receipts that it waits for.
use vstd::prelude::*;

use crate::model::{
    inputs_are_sent, known_prefix, linked, links, sends, sent_by_earlier, ReceiptManagerView,
    ReceiptsView,
};
use crate::types::{CryptoHash, ReceiptIndex};
use crate::view::{DataReceiverView, ReceiptMetadataView};

verus! {

/// The known prefix ends at the first unknown index.
pub proof fn lemma_known_prefix(receipt_indices: Seq<ReceiptIndex>, count: nat)
    ensures
        known_prefix(receipt_indices, count) <= receipt_indices.len(),
        forall|i: int|
            0 <= i < known_prefix(receipt_indices, count) ==> #[trigger] receipt_indices[i] < count,
        known_prefix(receipt_indices, count) < receipt_indices.len()
            ==> receipt_indices[known_prefix(receipt_indices, count) as int] >= count,
    decreases receipt_indices.len(),
{
    if receipt_indices.len() == 0 || receipt_indices[0] >= count {
    } else {
        let rest = receipt_indices.skip(1);
        lemma_known_prefix(rest, count);
        assert forall|i: int|
            0 <= i < known_prefix(receipt_indices, count) implies #[trigger] receipt_indices[i]
            < count by {
            if i > 0 {
                assert(rest[i - 1] == receipt_indices[i]);
            }
        }
    }
}

/// The known prefix has length `n` if all indices before `n` are known and the one
/// at `n`, if there is one, is not.
pub proof fn lemma_known_prefix_is(receipt_indices: Seq<ReceiptIndex>, count: nat, n: nat)
    requires
        n <= receipt_indices.len(),
        forall|i: int| 0 <= i < n ==> #[trigger] receipt_indices[i] < count,
        n < receipt_indices.len() ==> receipt_indices[n as int] >= count,
    ensures
        known_prefix(receipt_indices, count) == n,
{
    lemma_known_prefix(receipt_indices, count);
    let p = known_prefix(receipt_indices, count);
    if p < n {
        assert(receipt_indices[p as int] < count);
    } else if n < p {
        assert(receipt_indices[n as int] < count);
    }
}

/// The links of the first indices depend on nothing behind them.
pub proof fn lemma_links_prefix(
    receipt_indices: Seq<ReceiptIndex>,
    data_ids: Seq<CryptoHash>,
    receiver_id: Seq<char>,
    n: nat,
    receipt: int,
    k: nat,
)
    requires
        n <= k <= receipt_indices.len(),
    ensures
        links(receipt_indices.take(k as int), data_ids, receiver_id, n, receipt) == links(
            receipt_indices,
            data_ids,
            receiver_id,
            n,
            receipt,
        ),
    decreases n,
{
    if n > 0 {
        lemma_links_prefix(receipt_indices, data_ids, receiver_id, (n - 1) as nat, receipt, k);
    }
}

/// Nothing changes before the first link.
pub proof fn lemma_linked_none(
    receipts: ReceiptsView,
    receipt_indices: Seq<ReceiptIndex>,
    data_ids: Seq<CryptoHash>,
    receiver_id: Seq<char>,
)
    ensures
        linked(receipts, receipt_indices, data_ids, receiver_id, 0) == receipts,
{
    assert(linked(receipts, receipt_indices, data_ids, receiver_id, 0) =~~= receipts);
}

/// One more link adds one data receiver to the receipt that is listed next.
pub proof fn lemma_linked_step(
    receipts: ReceiptsView,
    receipt_indices: Seq<ReceiptIndex>,
    data_ids: Seq<CryptoHash>,
    receiver_id: Seq<char>,
    n: nat,
)
    requires
        n < receipt_indices.len(),
        receipt_indices[n as int] < receipts.len(),
    ensures
        ({
            let before = linked(receipts, receipt_indices, data_ids, receiver_id, n);
            let r = receipt_indices[n as int] as int;
            let (owner, old) = before[r];
            let receiver = DataReceiverView { data_id: data_ids[n as int], receiver_id };
            linked(receipts, receipt_indices, data_ids, receiver_id, n + 1) == before.update(
                r,
                (
                    owner,
                    ReceiptMetadataView {
                        output_data_receivers: old.output_data_receivers.push(receiver),
                        ..old
                    },
                ),
            )
        }),
{
    let before = linked(receipts, receipt_indices, data_ids, receiver_id, n);
    let r = receipt_indices[n as int] as int;
    let (owner, old) = before[r];
    let receiver = DataReceiverView { data_id: data_ids[n as int], receiver_id };
    assert(linked(receipts, receipt_indices, data_ids, receiver_id, n + 1) =~~= before.update(
        r,
        (
            owner,
            ReceiptMetadataView {
                output_data_receivers: old.output_data_receivers.push(receiver),
                ..old
            },
        ),
    ));
}

/// Nothing behind the first unknown index matters.
pub proof fn lemma_create_receipt_up_to_unknown(
    manager: ReceiptManagerView,
    data_ids: Seq<CryptoHash>,
    receipt_indices: Seq<ReceiptIndex>,
    receiver_id: Seq<char>,
    unknown: nat,
)
    requires
        unknown < receipt_indices.len(),
        forall|i: int| 0 <= i < unknown ==> manager.knows(#[trigger] receipt_indices[i]),
        !manager.knows(receipt_indices[unknown as int]),
    ensures
        ({
            let listed = receipt_indices.take(unknown as int + 1);
            &&& manager.create_receipt(data_ids, listed, receiver_id) == manager.create_receipt(
                data_ids,
                receipt_indices,
                receiver_id,
            )
            &&& manager.created(listed) == manager.created(receipt_indices)
            &&& manager.data_ids_taken(receipt_indices) == unknown + 1
        }),
{
    let listed = receipt_indices.take(unknown as int + 1);
    let count = manager.receipts.len();
    assert(!manager.knows(listed[unknown as int]));
    assert forall|i: int| 0 <= i < unknown implies #[trigger] receipt_indices[i] < count by {
        assert(manager.knows(receipt_indices[i]));
    }
    lemma_known_prefix_is(receipt_indices, count, unknown);
    lemma_known_prefix_is(listed, count, unknown);
    assert(linked(manager.receipts, listed, data_ids, receiver_id, unknown) =~~= linked(
        manager.receipts,
        receipt_indices,
        data_ids,
        receiver_id,
        unknown,
    )) by {
        assert forall|r: int|
            #[trigger] links(listed, data_ids, receiver_id, unknown, r) == links(
                receipt_indices,
                data_ids,
                receiver_id,
                unknown,
                r,
            ) by {
            lemma_links_prefix(
                receipt_indices,
                data_ids,
                receiver_id,
                unknown,
                r,
                (unknown + 1) as nat,
            );
        }
    }
}


/// `after` are the same receipts as `before`, each possibly with other actions and
/// with more data receivers.
pub open spec fn keeps_sending(before: ReceiptsView, after: ReceiptsView) -> bool {
    &&& before.len() <= after.len()
    &&& forall|r: int|
        #![trigger before[r]]
        #![trigger after[r]]
        0 <= r < before.len() ==> {
            &&& after[r].0 == before[r].0
            &&& after[r].1.input_data_ids == before[r].1.input_data_ids
            &&& before[r].1.output_data_receivers.is_prefix_of(after[r].1.output_data_receivers)
        }
}

/// What was sent before is still sent.
pub proof fn lemma_still_sent(
    before: ReceiptsView,
    after: ReceiptsView,
    receipt: int,
    data_id: CryptoHash,
)
    requires
        keeps_sending(before, after),
        0 <= receipt < before.len(),
        sent_by_earlier(before, receipt, data_id),
    ensures
        sent_by_earlier(after, receipt, data_id),
{
    let receiver_id = before[receipt].0;
    let s = choose|s: int| 0 <= s < receipt && #[trigger] sends(before[s].1, data_id, receiver_id);
    let receiver = DataReceiverView { data_id, receiver_id };
    let sent = before[s].1.output_data_receivers;
    let k = choose|k: int| 0 <= k < sent.len() && sent[k] == receiver;
    assert(after[s].1.output_data_receivers[k] == receiver);
    assert(sends(after[s].1, data_id, after[receipt].0));
}

/// The same receipts with more data receivers still send all the data that is waited for.
pub proof fn lemma_inputs_still_sent(before: ReceiptsView, after: ReceiptsView)
    requires
        inputs_are_sent(before),
        keeps_sending(before, after),
        before.len() == after.len(),
    ensures
        inputs_are_sent(after),
{
    assert forall|r: int, i: int|
        #![trigger after[r].1.input_data_ids[i]]
        0 <= r < after.len() && 0 <= i
            < after[r].1.input_data_ids.len() implies sent_by_earlier(
        after,
        r,
        after[r].1.input_data_ids[i],
    ) by {
        assert(before[r].1.input_data_ids[i] == after[r].1.input_data_ids[i]);
        lemma_still_sent(before, after, r, after[r].1.input_data_ids[i]);
    }
}

/// Each link is among the data receivers of the receipt that is listed.
pub proof fn lemma_links_contain(
    receipt_indices: Seq<ReceiptIndex>,
    data_ids: Seq<CryptoHash>,
    receiver_id: Seq<char>,
    n: nat,
    i: nat,
)
    requires
        i < n <= receipt_indices.len(),
    ensures
        links(
            receipt_indices,
            data_ids,
            receiver_id,
            n,
            receipt_indices[i as int] as int,
        ).contains(DataReceiverView { data_id: data_ids[i as int], receiver_id }),
    decreases n,
{
    let r = receipt_indices[i as int] as int;
    let receiver = DataReceiverView { data_id: data_ids[i as int], receiver_id };
    let all = links(receipt_indices, data_ids, receiver_id, n, r);
    if i == n - 1 {
        assert(all.last() == receiver);
    } else {
        let m = (n - 1) as nat;
        lemma_links_contain(receipt_indices, data_ids, receiver_id, m, i);
        let before = links(receipt_indices, data_ids, receiver_id, m, r);
        let k = choose|k: int| 0 <= k < before.len() && before[k] == receiver;
        assert(all[k] == receiver);
    }
}

/// Each receipt that is listed sends its output to the receiver of the new receipt.
pub proof fn lemma_linked_sends(
    receipts: ReceiptsView,
    receipt_indices: Seq<ReceiptIndex>,
    data_ids: Seq<CryptoHash>,
    receiver_id: Seq<char>,
    n: nat,
    i: nat,
)
    requires
        i < n <= receipt_indices.len(),
        receipt_indices[i as int] < receipts.len(),
    ensures
        sends(
            linked(
                receipts,
                receipt_indices,
                data_ids,
                receiver_id,
                n,
            )[receipt_indices[i as int] as int].1,
            data_ids[i as int],
            receiver_id,
        ),
{
    lemma_links_contain(receipt_indices, data_ids, receiver_id, n, i);
    let r = receipt_indices[i as int] as int;
    let receiver = DataReceiverView { data_id: data_ids[i as int], receiver_id };
    let added = links(receipt_indices, data_ids, receiver_id, n, r);
    let k = choose|k: int| 0 <= k < added.len() && added[k] == receiver;
    let before = receipts[r].1.output_data_receivers;
    assert((before + added)[before.len() + k] == receiver);
}

/// The attempt to create a receipt leaves all data that is waited for sent.
pub proof fn lemma_create_receipt_sends(
    manager: ReceiptManagerView,
    data_ids: Seq<CryptoHash>,
    receipt_indices: Seq<ReceiptIndex>,
    receiver_id: Seq<char>,
)
    requires
        inputs_are_sent(manager.receipts),
        data_ids.len() == receipt_indices.len(),
    ensures
        inputs_are_sent(manager.create_receipt(data_ids, receipt_indices, receiver_id).receipts),
{
    let before = manager.receipts;
    let count = before.len();
    let n = known_prefix(receipt_indices, count);
    let middle = linked(before, receipt_indices, data_ids, receiver_id, n);
    assert(keeps_sending(before, middle));
    lemma_inputs_still_sent(before, middle);
    if manager.knows_all(receipt_indices) {
        let after = manager.create_receipt(data_ids, receipt_indices, receiver_id).receipts;
        assert(keeps_sending(middle, after));
        assert forall|i: int| 0 <= i < receipt_indices.len() implies #[trigger] receipt_indices[i]
            < count by {
            assert(manager.knows(receipt_indices[i]));
        }
        lemma_known_prefix_is(receipt_indices, count, receipt_indices.len());
        assert forall|r: int, i: int|
            #![trigger after[r].1.input_data_ids[i]]
            0 <= r < after.len() && 0 <= i
                < after[r].1.input_data_ids.len() implies sent_by_earlier(
            after,
            r,
            after[r].1.input_data_ids[i],
        ) by {
            if r < count {
                assert(middle[r].1.input_data_ids[i] == after[r].1.input_data_ids[i]);
                lemma_still_sent(middle, after, r, after[r].1.input_data_ids[i]);
            } else {
                lemma_linked_sends(before, receipt_indices, data_ids, receiver_id, n, i as nat);
                let s = receipt_indices[i] as int;
                assert(after[s] == middle[s]);
                assert(sends(after[s].1, data_ids[i], after[r].0));
            }
        }
    }
}

} // verus!
