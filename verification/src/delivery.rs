//! What a receiver can rely on, whatever the order in which senders and
//! receiver reach the port.
//!
//! A port performs the operations that reach it one at a time. A history is
//! the sequence of those operations in the order in which the port performed
//! them; the laws below hold of every history. They are stated over
//! `PortModel::send`, `PortModel::receive` and `PortModel::oldest`, by which
//! `Port::send` and `Port::receive` say what they do.

use crate::port::PortModel;
use vstd::prelude::*;

verus! {

/// One operation on a port.
pub enum PortOp<T> {
    /// The sender numbered `sender` sends `value`.
    Send { sender: nat, value: T },
    /// The receiver asks for the oldest pending value.
    Receive,
}

impl<T> PortModel<T> {
    /// The port after one operation.
    pub open spec fn apply(self, op: PortOp<T>) -> Self {
        match op {
            PortOp::Send { sender, value } => self.send(value),
            PortOp::Receive => self.receive(),
        }
    }

    /// The port after the operations of `history`, first to last.
    pub open spec fn after(self, history: Seq<PortOp<T>>) -> Self
        decreases history.len(),
    {
        if history.len() == 0 {
            self
        } else {
            self.after(history.drop_last()).apply(history.last())
        }
    }

    /// The values that the receives of `history` handed out, in the order in
    /// which the receiver got them. A receive that found nothing pending hands
    /// out nothing.
    pub open spec fn received(self, history: Seq<PortOp<T>>) -> Seq<T>
        decreases history.len(),
    {
        if history.len() == 0 {
            Seq::empty()
        } else {
            let earlier = self.received(history.drop_last());
            match (history.last(), self.after(history.drop_last()).oldest()) {
                (PortOp::Receive, Some(value)) => earlier.push(value),
                _ => earlier,
            }
        }
    }
}

/// The values sent in `history`, in the order in which they reached the port.
pub open spec fn sent<T>(history: Seq<PortOp<T>>) -> Seq<T>
    decreases history.len(),
{
    if history.len() == 0 {
        Seq::empty()
    } else {
        match history.last() {
            PortOp::Send { sender, value } => sent(history.drop_last()).push(value),
            PortOp::Receive => sent(history.drop_last()),
        }
    }
}

/// The values that one sender sent in `history`, in the order in which that
/// sender issued them.
pub open spec fn sent_by<T>(history: Seq<PortOp<T>>, who: nat) -> Seq<T>
    decreases history.len(),
{
    if history.len() == 0 {
        Seq::empty()
    } else {
        match history.last() {
            PortOp::Send { sender, value } if sender == who => sent_by(
                history.drop_last(),
                who,
            ).push(value),
            _ => sent_by(history.drop_last(), who),
        }
    }
}

/// Every send of `history` comes from a sender numbered below `count`.
pub open spec fn senders_below<T>(history: Seq<PortOp<T>>, count: nat) -> bool {
    forall|i: int|
        0 <= i < history.len() ==> (#[trigger] history[i] matches PortOp::Send { sender, .. }
            ==> sender < count)
}

/// Every send of `history` comes from one of the two senders `first` and
/// `second`.
pub open spec fn senders_among<T>(history: Seq<PortOp<T>>, first: nat, second: nat) -> bool {
    forall|i: int|
        0 <= i < history.len() ==> (#[trigger] history[i] matches PortOp::Send { sender, .. }
            ==> sender == first || sender == second)
}

/// Every send of `history` comes from the one sender `who`.
pub open spec fn sent_only_by<T>(history: Seq<PortOp<T>>, who: nat) -> bool {
    senders_among(history, who, who)
}

/// `merged` holds the values of `left` and of `right` and no others, the
/// values of `left` in their order and the values of `right` in theirs.
pub open spec fn is_interleaving<T>(merged: Seq<T>, left: Seq<T>, right: Seq<T>) -> bool
    decreases merged.len(),
{
    if merged.len() == 0 {
        left.len() == 0 && right.len() == 0
    } else {
        ||| (left.len() > 0 && left.last() == merged.last() && is_interleaving(
            merged.drop_last(),
            left.drop_last(),
            right,
        ))
        ||| (right.len() > 0 && right.last() == merged.last() && is_interleaving(
            merged.drop_last(),
            left,
            right.drop_last(),
        ))
    }
}

/// Nothing is lost, duplicated or reordered: at every moment, what was
/// pending at the start followed by what was sent since is what the receiver
/// got followed by what is still pending. The port stays open throughout.
pub proof fn lemma_received_then_pending_is_sent<T>(start: PortModel<T>, history: Seq<PortOp<T>>)
    requires
        start.is_open(),
    ensures
        start.after(history).is_open(),
        start.pending() + sent(history) == start.received(history) + start.after(
            history,
        ).pending(),
    decreases history.len(),
{
    if history.len() > 0 {
        let earlier = history.drop_last();
        lemma_received_then_pending_is_sent(start, earlier);
        if let PortOp::Send { sender, value } = history.last() {
            let got = start.received(earlier);
            let waiting = start.after(earlier).pending();
            assert((got + waiting).push(value) =~= got + waiting.push(value));
        }
    }
}

/// Values come out in the order in which they went in: from a port that had
/// nothing pending, the receiver has at every moment got the first values
/// that were sent, as many as its receives found, in the order of sending.
pub proof fn lemma_received_in_send_order<T>(start: PortModel<T>, history: Seq<PortOp<T>>)
    requires
        start.is_open(),
        start.pending().len() == 0,
    ensures
        start.received(history).len() <= sent(history).len(),
        start.received(history) == sent(history).take(start.received(history).len() as int),
        start.received(history).len() == sent(history).len() ==> start.received(history) == sent(
            history,
        ),
{
    lemma_received_then_pending_is_sent(start, history);
}

/// One sender, three sends, three receives: when a single sender has sent
/// `v1`, `v2` and `v3` in that order and the receiver has got three values,
/// it got `v1`, then `v2`, then `v3`, however the sends and the receives
/// alternated.
pub proof fn lemma_three_sends_arrive_in_order<T>(
    start: PortModel<T>,
    history: Seq<PortOp<T>>,
    who: nat,
    v1: T,
    v2: T,
    v3: T,
)
    requires
        start.is_open(),
        start.pending().len() == 0,
        sent_only_by(history, who),
        sent_by(history, who) == seq![v1, v2, v3],
        start.received(history).len() == 3,
    ensures
        start.received(history) == seq![v1, v2, v3],
{
    lemma_single_sender_sent_everything(history, who);
    lemma_received_in_send_order(start, history);
}

/// Two senders: the values that the receiver has got, followed by those that
/// still wait for it, hold every value of either sender once, and those of
/// each sender in the order in which that sender sent them. Once the receiver
/// has got as many values as were sent, this holds of what it got.
pub proof fn lemma_two_senders_keep_their_order<T>(
    start: PortModel<T>,
    history: Seq<PortOp<T>>,
    first: nat,
    second: nat,
)
    requires
        start.is_open(),
        start.pending().len() == 0,
        first != second,
        senders_among(history, first, second),
    ensures
        is_interleaving(
            start.received(history) + start.after(history).pending(),
            sent_by(history, first),
            sent_by(history, second),
        ),
        (start.received(history) + start.after(history).pending()).to_multiset() == sent_by(
            history,
            first,
        ).to_multiset().add(sent_by(history, second).to_multiset()),
        start.received(history).len() == sent(history).len() ==> {
            &&& is_interleaving(
                start.received(history),
                sent_by(history, first),
                sent_by(history, second),
            )
            &&& start.received(history).to_multiset() == sent_by(
                history,
                first,
            ).to_multiset().add(sent_by(history, second).to_multiset())
        },
{
    lemma_received_then_pending_is_sent(start, history);
    lemma_sent_interleaves_two_senders(history, first, second);
    lemma_interleaving_holds_both(
        sent(history),
        sent_by(history, first),
        sent_by(history, second),
    );
}

/// Many senders, one value each: when the senders numbered below
/// `ids.len()` have each sent their own value `ids[i]` once and nobody else
/// has sent, the values that the receiver has got, followed by those that
/// still wait for it, are the values of `ids`, each as often as it occurs
/// there. Once the receiver has got as many values as there are senders, it
/// has got every sender's value, and none more often than `ids` holds it.
pub proof fn lemma_every_sender_heard_once<T>(
    start: PortModel<T>,
    history: Seq<PortOp<T>>,
    ids: Seq<T>,
)
    requires
        start.is_open(),
        start.pending().len() == 0,
        senders_below(history, ids.len()),
        forall|i: nat| i < ids.len() ==> #[trigger] sent_by(history, i) == seq![ids[i as int]],
    ensures
        (start.received(history) + start.after(history).pending()).to_multiset()
            == ids.to_multiset(),
        start.received(history).len() == ids.len() ==> {
            &&& start.received(history).to_multiset() == ids.to_multiset()
            &&& forall|i: int| 0 <= i < ids.len() ==> start.received(history).contains(ids[i])
            &&& ids.no_duplicates() ==> start.received(history).no_duplicates()
        },
{
    lemma_received_then_pending_is_sent(start, history);
    lemma_one_send_each(history, ids);
    let got = start.received(history);
    if got.len() == ids.len() {
        ids.to_multiset_ensures();
        sent(history).to_multiset_ensures();
        assert forall|i: int| 0 <= i < ids.len() implies got.contains(ids[i]) by {
            assert(got.to_multiset().count(ids[i]) > 0);
        }
        if ids.no_duplicates() {
            ids.lemma_multiset_has_no_duplicates();
            got.lemma_multiset_has_no_duplicates_conv();
        }
    }
}

/// A history of sends and receives on a destroyed port changes nothing and
/// hands out nothing.
pub proof fn lemma_destroyed_port_stays_silent<T>(start: PortModel<T>, history: Seq<PortOp<T>>)
    ensures
        start.destroy().after(history) == PortModel::<T>::Destroyed,
        start.destroy().received(history) == Seq::<T>::empty(),
    decreases history.len(),
{
    if history.len() > 0 {
        lemma_destroyed_port_stays_silent(start, history.drop_last());
    }
}

proof fn lemma_single_sender_sent_everything<T>(history: Seq<PortOp<T>>, who: nat)
    requires
        senders_among(history, who, who),
    ensures
        sent(history) == sent_by(history, who),
    decreases history.len(),
{
    if history.len() > 0 {
        lemma_single_sender_sent_everything(history.drop_last(), who);
    }
}

proof fn lemma_sent_interleaves_two_senders<T>(history: Seq<PortOp<T>>, first: nat, second: nat)
    requires
        first != second,
        senders_among(history, first, second),
    ensures
        is_interleaving(sent(history), sent_by(history, first), sent_by(history, second)),
    decreases history.len(),
{
    if history.len() > 0 {
        let earlier = history.drop_last();
        lemma_sent_interleaves_two_senders(earlier, first, second);
        match history.last() {
            PortOp::Send { sender, value } => {
                assert(sent(earlier).push(value).drop_last() =~= sent(earlier));
                if sender == first {
                    assert(sent_by(earlier, first).push(value).drop_last() =~= sent_by(
                        earlier,
                        first,
                    ));
                } else {
                    assert(sent_by(earlier, second).push(value).drop_last() =~= sent_by(
                        earlier,
                        second,
                    ));
                }
            },
            PortOp::Receive => {},
        }
    }
}

proof fn lemma_interleaving_holds_both<T>(merged: Seq<T>, left: Seq<T>, right: Seq<T>)
    requires
        is_interleaving(merged, left, right),
    ensures
        merged.to_multiset() == left.to_multiset().add(right.to_multiset()),
        merged.len() == left.len() + right.len(),
    decreases merged.len(),
{
    broadcast use vstd::seq_lib::group_to_multiset_ensures;

    if merged.len() > 0 {
        let value = merged.last();
        assert(merged =~= merged.drop_last().push(value));
        if left.len() > 0 && left.last() == value && is_interleaving(
            merged.drop_last(),
            left.drop_last(),
            right,
        ) {
            lemma_interleaving_holds_both(merged.drop_last(), left.drop_last(), right);
            assert(left =~= left.drop_last().push(value));
        } else {
            lemma_interleaving_holds_both(merged.drop_last(), left, right.drop_last());
            assert(right =~= right.drop_last().push(value));
        }
    }
}

/// The history without the sends of one sender.
spec fn without<T>(history: Seq<PortOp<T>>, who: nat) -> Seq<PortOp<T>>
    decreases history.len(),
{
    if history.len() == 0 {
        history
    } else {
        match history.last() {
            PortOp::Send { sender, value } if sender == who => without(history.drop_last(), who),
            op => without(history.drop_last(), who).push(op),
        }
    }
}

proof fn lemma_without<T>(history: Seq<PortOp<T>>, who: nat, count: nat)
    requires
        senders_below(history, count + 1),
    ensures
        sent(history).to_multiset() == sent_by(history, who).to_multiset().add(
            sent(without(history, who)).to_multiset(),
        ),
        forall|other: nat| other != who ==> #[trigger] sent_by(without(history, who), other)
            == sent_by(history, other),
        who == count ==> senders_below(without(history, who), count),
    decreases history.len(),
{
    broadcast use vstd::seq_lib::group_to_multiset_ensures;

    if history.len() > 0 {
        let earlier = history.drop_last();
        assert(senders_below(earlier, count + 1));
        lemma_without(earlier, who, count);
        let kept = without(history, who);
        let kept_earlier = without(earlier, who);
        if kept != kept_earlier {
            assert(kept.drop_last() =~= kept_earlier);
        }
        assert forall|other: nat| other != who implies #[trigger] sent_by(kept, other) == sent_by(
            history,
            other,
        ) by {
            assert(sent_by(kept_earlier, other) == sent_by(earlier, other));
        }
    }
}

proof fn lemma_one_send_each<T>(history: Seq<PortOp<T>>, ids: Seq<T>)
    requires
        senders_below(history, ids.len()),
        forall|i: nat| i < ids.len() ==> #[trigger] sent_by(history, i) == seq![ids[i as int]],
    ensures
        sent(history).to_multiset() == ids.to_multiset(),
    decreases ids.len(),
{
    broadcast use vstd::seq_lib::group_to_multiset_ensures;

    if ids.len() == 0 {
        lemma_no_sender_nothing_sent(history);
    } else {
        let last = (ids.len() - 1) as nat;
        let others = ids.drop_last();
        lemma_without(history, last, last);
        lemma_one_send_each(without(history, last), others);
        assert(ids =~= others.push(ids.last()));
    }
}

proof fn lemma_no_sender_nothing_sent<T>(history: Seq<PortOp<T>>)
    requires
        senders_below(history, 0),
    ensures
        sent(history) == Seq::<T>::empty(),
    decreases history.len(),
{
    if history.len() > 0 {
        assert(senders_below(history.drop_last(), 0));
        lemma_no_sender_nothing_sent(history.drop_last());
    }
}

} // verus!
