use tokio::sync::mpsc::UnboundedSender;
use vstd::prelude::*;

verus! {

/// The sending half of an unbounded tokio channel. Nothing of its inside is
/// visible here: a value of it is only kept, handed on and sent through.
#[verifier::external_type_specification]
#[verifier::external_body]
#[verifier::reject_recursive_types(T)]
pub struct ExUnboundedSender<T>(UnboundedSender<T>);

/// Broadcasts events to any number of subscribers, and forgets a subscriber
/// as soon as a delivery to it fails.
#[verifier::reject_recursive_types(T)]
pub struct EventEmitters<T> {
    emitters: Vec<UnboundedSender<T>>,
}

/// What is left of a collection when only the members stay whose delivery
/// succeeded: `delivered[i]` tells of member `i`. The members that stay keep
/// their order.
pub open spec fn retained<S>(members: Seq<S>, delivered: Seq<bool>) -> Seq<S>
    decreases members.len(),
{
    if members.len() == 0 || delivered.len() == 0 {
        Seq::empty()
    } else {
        let before = retained(members.drop_last(), delivered.drop_last());
        if delivered.last() {
            before.push(members.last())
        } else {
            before
        }
    }
}

/// Nobody is forgotten while every delivery succeeds.
pub proof fn lemma_retained_all<S>(members: Seq<S>, delivered: Seq<bool>)
    requires
        members.len() == delivered.len(),
        forall|i: int| 0 <= i < delivered.len() ==> delivered[i],
    ensures
        retained(members, delivered) == members,
    decreases members.len(),
{
    if members.len() > 0 {
        lemma_retained_all(members.drop_last(), delivered.drop_last());
        assert(members.drop_last().push(members.last()) =~= members);
    }
}

/// Whoever stays was a member before, and was delivered to; and those who
/// stay are in the order they were in.
pub proof fn lemma_retained_is_selection<S>(members: Seq<S>, delivered: Seq<bool>)
    requires
        members.len() == delivered.len(),
    ensures
        retained(members, delivered).len() <= members.len(),
        exists|from: Seq<int>|
            {
                &&& from.len() == retained(members, delivered).len()
                &&& forall|k: int|
                    0 <= k < from.len() ==> 0 <= #[trigger] from[k] < members.len()
                        && delivered[from[k]] && retained(members, delivered)[k] == members[from[k]]
                &&& forall|a: int, b: int|
                    0 <= a < b < from.len() ==> #[trigger] from[a] < #[trigger] from[b]
            },
        forall|i: int|
            0 <= i < members.len() && delivered[i] ==> retained(members, delivered).contains(
                #[trigger] members[i],
            ),
    decreases members.len(),
{
    let kept = retained(members, delivered);
    if members.len() == 0 {
        let from = Seq::<int>::empty();
        assert(from.len() == kept.len());
    } else {
        let shorter = members.drop_last();
        let before = retained(shorter, delivered.drop_last());
        lemma_retained_is_selection(shorter, delivered.drop_last());
        let from_before = choose|from: Seq<int>|
            {
                &&& from.len() == before.len()
                &&& forall|k: int|
                    0 <= k < from.len() ==> 0 <= #[trigger] from[k] < shorter.len()
                        && delivered.drop_last()[from[k]] && before[k] == shorter[from[k]]
                &&& forall|a: int, b: int|
                    0 <= a < b < from.len() ==> #[trigger] from[a] < #[trigger] from[b]
            };
        let from = if delivered.last() {
            from_before.push(members.len() - 1)
        } else {
            from_before
        };
        assert(from.len() == kept.len());
        assert forall|k: int| 0 <= k < from.len() implies 0 <= #[trigger] from[k] < members.len()
            && delivered[from[k]] && kept[k] == members[from[k]] by {
            if k < from_before.len() {
                assert(from[k] == from_before[k]);
                assert(delivered.drop_last()[from_before[k]] == delivered[from_before[k]]);
                assert(shorter[from_before[k]] == members[from_before[k]]);
                assert(kept[k] == before[k]);
            }
        }
        assert forall|a: int, b: int| 0 <= a < b < from.len() implies #[trigger] from[a]
            < #[trigger] from[b] by {
            if b < from_before.len() {
                assert(from[a] == from_before[a] && from[b] == from_before[b]);
            } else {
                assert(from[a] == from_before[a]);
            }
        }
        assert forall|i: int| 0 <= i < members.len() && delivered[i] implies kept.contains(
            #[trigger] members[i],
        ) by {
            if i == members.len() - 1 {
                assert(kept[kept.len() - 1] == members[i]);
            } else {
                assert(delivered.drop_last()[i]);
                assert(shorter[i] == members[i]);
                assert(before.contains(shorter[i]));
                let k = choose|k: int| 0 <= k < before.len() && before[k] == shorter[i];
                assert(kept[k] == members[i]);
            }
        }
    }
}

/// Whether `kept` is what is left of `members` after some deliveries, of
/// which any may have failed.
pub open spec fn is_left_of<S>(kept: Seq<S>, members: Seq<S>) -> bool {
    exists|delivered: Seq<bool>|
        delivered.len() == members.len() && kept == #[trigger] retained(members, delivered)
}

/// What is left after two rounds of deliveries is what one round leaves in
/// which a member is delivered to when it was both times.
pub proof fn lemma_retained_twice<S>(members: Seq<S>, first: Seq<bool>, second: Seq<bool>)
    requires
        first.len() == members.len(),
        second.len() == retained(members, first).len(),
    ensures
        is_left_of(retained(retained(members, first), second), members),
    decreases members.len(),
{
    let once = retained(members, first);
    if members.len() == 0 {
        assert(retained(once, second) == retained(members, Seq::<bool>::empty()));
    } else {
        let shorter = members.drop_last();
        let once_shorter = retained(shorter, first.drop_last());
        if first.last() {
            assert(once.drop_last() =~= once_shorter);
            lemma_retained_twice(shorter, first.drop_last(), second.drop_last());
            let both = choose|delivered: Seq<bool>|
                delivered.len() == shorter.len() && retained(once_shorter, second.drop_last())
                    == #[trigger] retained(shorter, delivered);
            let all = both.push(second.last());
            assert(all.drop_last() =~= both);
            assert(retained(once, second) == retained(members, all));
        } else {
            lemma_retained_twice(shorter, first.drop_last(), second);
            let both = choose|delivered: Seq<bool>|
                delivered.len() == shorter.len() && retained(once_shorter, second)
                    == #[trigger] retained(shorter, delivered);
            let all = both.push(false);
            assert(all.drop_last() =~= both);
            assert(retained(once, second) == retained(members, all));
        }
    }
}

/// What is left of what is left of a collection is left of the collection.
pub proof fn lemma_left_of_left<S>(last: Seq<S>, middle: Seq<S>, members: Seq<S>)
    requires
        is_left_of(last, middle),
        is_left_of(middle, members),
    ensures
        is_left_of(last, members),
{
    let first = choose|delivered: Seq<bool>|
        delivered.len() == members.len() && middle == #[trigger] retained(members, delivered);
    let second = choose|delivered: Seq<bool>|
        delivered.len() == middle.len() && last == #[trigger] retained(middle, delivered);
    lemma_retained_twice(members, first, second);
}

/// A collection from which nobody went is left of itself.
pub proof fn lemma_left_of_itself<S>(members: Seq<S>)
    ensures
        is_left_of(members, members),
{
    let delivered = Seq::new(members.len(), |i: int| true);
    lemma_retained_all(members, delivered);
}

/// Keeps of `members` those whose delivery succeeded, in their order.
pub fn retainDelivered<S>(members: &mut Vec<S>, delivered: &Vec<bool>)
    requires
        delivered.len() == old(members).len(),
    ensures
        final(members)@ == retained(old(members)@, delivered@),
{
    let count = delivered.len();
    let mut i: usize = 0;
    let mut kept: usize = 0;
    while i < count
        invariant
            count == delivered.len(),
            count == old(members)@.len(),
            kept <= i <= count,
            members@.len() == kept + (count - i),
            members@.subrange(0, kept as int) == retained(
                old(members)@.subrange(0, i as int),
                delivered@.subrange(0, i as int),
            ),
            forall|k: int|
                kept <= k < members@.len() ==> #[trigger] members@[k] == old(members)@[k - kept + i],
        decreases count - i,
    {
        let ghost before = members@;
        let ghost all = old(members)@;
        proof {
            assert(all.subrange(0, i + 1).drop_last() =~= all.subrange(0, i as int));
            assert(delivered@.subrange(0, i + 1).drop_last() =~= delivered@.subrange(0, i as int));
            assert(before[kept as int] == all[i as int]);
        }
        if delivered[i] {
            kept += 1;
            proof {
                assert(members@.subrange(0, kept as int) =~= before.subrange(0, kept - 1).push(
                    all[i as int],
                ));
            }
        } else {
            members.remove(kept);
            proof {
                assert(members@.subrange(0, kept as int) =~= before.subrange(0, kept as int));
                assert forall|k: int| kept <= k < members@.len() implies #[trigger] members@[k]
                    == all[k - kept + i + 1] by {
                    assert(members@[k] == before[k + 1]);
                }
            }
        }
        i += 1;
    }
    proof {
        assert(members@.subrange(0, kept as int) =~= members@);
        assert(old(members)@.subrange(0, count as int) =~= old(members)@);
        assert(delivered@.subrange(0, count as int) =~= delivered@);
    }
}

/// `UnboundedSender::send` of tokio, which queues the message and never
/// waits. It fails exactly when the receiving half was closed or dropped;
/// whether it was is the subscriber's doing, so nothing is promised of the
/// answer.
#[verifier::external_body]
fn deliver<T>(emitter: &UnboundedSender<T>, event: T) -> (delivered: bool) {
    emitter.send(event).is_ok()
}

impl<T> View for EventEmitters<T> {
    type V = Seq<UnboundedSender<T>>;

    closed spec fn view(&self) -> Seq<UnboundedSender<T>> {
        self.emitters@
    }
}

impl<T: Clone> EventEmitters<T> {
    /// A broadcaster without subscribers.
    pub fn new() -> (emitters: Self)
        ensures
            emitters@ == Seq::<UnboundedSender<T>>::empty(),
    {
        EventEmitters { emitters: Vec::new() }
    }

    /// Adds a subscriber behind those that are there.
    pub fn subscribe(&mut self, emitter: UnboundedSender<T>)
        ensures
            final(self)@ == old(self)@.push(emitter),
    {
        self.emitters.push(emitter);
    }

    /// How many subscribers there are.
    pub fn subscriberCount(&self) -> (count: usize)
        ensures
            count == self@.len(),
    {
        self.emitters.len()
    }

    /// Sends a copy of the event to each subscriber, in their order, and
    /// tells of each whether the delivery succeeded.
    pub fn deliverToAll(&self, event: &T) -> (delivered: Vec<bool>)
        ensures
            delivered.len() == self@.len(),
    {
        let mut delivered: Vec<bool> = Vec::new();
        let mut i: usize = 0;
        while i < self.emitters.len()
            invariant
                i <= self.emitters.len(),
                delivered.len() == i,
            decreases self.emitters.len() - i,
        {
            let arrived = deliver(&self.emitters[i], event.clone());
            delivered.push(arrived);
            i += 1;
        }
        delivered
    }

    /// Makes all the emitters emit the given event. A subscriber whose
    /// delivery fails is forgotten; the others stay, in their order.
    pub fn emit(&mut self, event: T)
        ensures
            is_left_of(final(self)@, old(self)@),
    {
        let delivered = self.deliverToAll(&event);
        retainDelivered(&mut self.emitters, &delivered);
        assert(self@ == retained(old(self)@, delivered@));
    }

    /// Makes all the emitters emit each of the given events, in their order.
    /// A subscriber goes with the first delivery to it that fails.
    pub fn emitAll(&mut self, events: &Vec<T>)
        ensures
            is_left_of(final(self)@, old(self)@),
    {
        proof {
            lemma_left_of_itself(self@);
        }
        let mut i: usize = 0;
        while i < events.len()
            invariant
                i <= events.len(),
                is_left_of(self@, old(self)@),
            decreases events.len() - i,
        {
            let ghost before = self@;
            self.emit(events[i].clone());
            proof {
                lemma_left_of_left(self@, before, old(self)@);
            }
            i += 1;
        }
    }
}

} // verus!
