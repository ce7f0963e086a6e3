//! The countdown workload: one task for each number from a starting number
//! down to 1, each of which reports its own number to a shared port.

use crate::delivery::{sent_by, senders_below, PortOp, lemma_every_sender_heard_once};
use crate::port::{Port, PortClosed, PortModel};
use vstd::prelude::*;

verus! {

/// The numbers `from`, `from - 1`, ..., 1; none where `from` is below 1.
pub open spec fn spec_countdown(from: int) -> Seq<isize> {
    Seq::new(
        if from > 0 {
            from as nat
        } else {
            0
        },
        |i: int| (from - i) as isize,
    )
}

/// The arguments of the tasks of a countdown, in the order in which the
/// tasks are spawned: `from` first and 1 last.
pub fn countdown(from: isize) -> (arguments: Vec<isize>)
    ensures
        arguments@ == spec_countdown(from as int),
{
    let mut arguments: Vec<isize> = Vec::new();
    let mut i: isize = from;
    while i > 0
        invariant
            i <= from,
            0 <= i || from <= 0,
            arguments@.len() == (if from > 0 {
                from - i
            } else {
                0
            }),
            forall|k: int| 0 <= k < arguments@.len() ==> arguments@[k] == from - k,
        decreases i,
    {
        arguments.push(i);
        i = i - 1;
    }
    arguments
}

/// The body of one task of the countdown: it reports its own number `x` to
/// the port, and fails only if the port has been destroyed.
pub fn child(x: isize, port: &mut Port<isize>) -> (result: Result<(), PortClosed<isize>>)
    ensures
        final(port)@ == old(port)@.send(x),
        result is Ok <==> old(port)@.is_open(),
        result matches Err(closed) ==> closed.value == x,
{
    port.send(x)
}

/// The numbers of a countdown are the numbers from 1 to `from`, each once.
pub proof fn lemma_countdown_numbers(from: isize)
    ensures
        spec_countdown(from as int).no_duplicates(),
        forall|x: isize| spec_countdown(from as int).contains(x) <==> 1 <= x <= from,
{
    let numbers = spec_countdown(from as int);
    assert forall|x: isize| numbers.contains(x) <==> 1 <= x <= from by {
        if 1 <= x <= from {
            assert(numbers[from - x] == x);
        }
    }
}

/// However the tasks of a countdown are scheduled: when each of them has
/// reported its number once and the receiver has got as many values as there
/// are tasks, it has got every number from 1 to `from`, and none twice.
pub proof fn lemma_countdown_heard_in_full(
    start: PortModel<isize>,
    history: Seq<PortOp<isize>>,
    from: isize,
)
    requires
        start.is_open(),
        start.pending().len() == 0,
        senders_below(history, spec_countdown(from as int).len()),
        forall|i: nat|
            i < spec_countdown(from as int).len() ==> #[trigger] sent_by(history, i) == seq![
                spec_countdown(from as int)[i as int],
            ],
        start.received(history).len() == spec_countdown(from as int).len(),
    ensures
        start.received(history).no_duplicates(),
        forall|x: isize| start.received(history).contains(x) <==> 1 <= x <= from,
{
    let numbers = spec_countdown(from as int);
    let got = start.received(history);
    lemma_countdown_numbers(from);
    lemma_every_sender_heard_once(start, history, numbers);
    numbers.to_multiset_ensures();
    got.to_multiset_ensures();
    assert forall|x: isize| got.contains(x) <==> 1 <= x <= from by {
        assert(got.to_multiset().count(x) == numbers.to_multiset().count(x));
    }
}

} // verus!
