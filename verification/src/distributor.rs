//! Fan-out of frames to the live subscriptions.
//!
//! Every subscription owns one mailbox that holds at most one frame. A
//! publish overwrites whatever a mailbox still holds, so a slow reader finds
//! the freshest frame and never a backlog, and the publisher never waits for
//! anyone.

use vstd::prelude::*;
use crate::frame::{Frame, FrameView};

pub mod theorems;

verus! {

/// Mathematical value of a [`Distributor`].
pub struct DistributorView {
    /// Sequence number that the next published frame gets.
    pub next_sequence: nat,
    /// Identifier that the next subscription gets.
    pub next_id: nat,
    /// The live subscriptions, each with the frame it has not read yet.
    pub mailboxes: Map<nat, Option<FrameView>>,
}

impl DistributorView {
    /// Identifiers are below `next_id`, pending frames are numbered below
    /// `next_sequence`, and the subscriptions are finitely many.
    pub open spec fn wf(self) -> bool {
        &&& self.mailboxes.dom().finite()
        &&& forall|id: nat| #[trigger] self.mailboxes.contains_key(id) ==> id < self.next_id
        &&& forall|id: nat| #[trigger]
            self.mailboxes.contains_key(id) ==> self.pending_below(id, self.next_sequence)
    }

    /// The mailbox of `id` is empty or holds a frame numbered below `bound`.
    pub open spec fn pending_below(self, id: nat, bound: nat) -> bool {
        self.mailboxes[id] matches Some(frame) ==> frame.sequence < bound
    }

    /// A distributor that nobody has subscribed to or published on.
    pub open spec fn empty() -> DistributorView {
        DistributorView { next_sequence: 0, next_id: 0, mailboxes: Map::empty() }
    }

    /// Number of live subscriptions.
    pub open spec fn subscriber_count(self) -> nat {
        self.mailboxes.dom().len()
    }

    /// Number of frames that sit unread in mailboxes.
    pub open spec fn pending_count(self) -> nat {
        self.mailboxes.dom().filter(|id: nat| self.mailboxes[id] is Some).len()
    }

    /// The frame that a publish of `payload` at `captured_at_ms` creates.
    pub open spec fn next_frame(self, payload: Seq<u8>, captured_at_ms: nat) -> FrameView {
        FrameView { sequence: self.next_sequence, captured_at_ms, payload }
    }

    /// Every mailbox now holds the new frame; the subscriptions stay.
    pub open spec fn publish(self, payload: Seq<u8>, captured_at_ms: nat) -> DistributorView {
        DistributorView {
            next_sequence: self.next_sequence + 1,
            next_id: self.next_id,
            mailboxes: Map::new(
                |id: nat| self.mailboxes.contains_key(id),
                |id: nat| Some(self.next_frame(payload, captured_at_ms)),
            ),
        }
    }

    /// A new subscription, numbered `next_id`, with an empty mailbox.
    pub open spec fn subscribe(self) -> DistributorView {
        DistributorView {
            next_sequence: self.next_sequence,
            next_id: self.next_id + 1,
            mailboxes: self.mailboxes.insert(self.next_id, None),
        }
    }

    /// What a read by `id` hands out: the pending frame of a live
    /// subscription, else nothing.
    pub open spec fn delivered(self, id: nat) -> Option<FrameView> {
        if self.mailboxes.contains_key(id) {
            self.mailboxes[id]
        } else {
            None
        }
    }

    /// After a read by `id` its mailbox is empty; nothing else changes.
    pub open spec fn receive(self, id: nat) -> DistributorView {
        if self.mailboxes.contains_key(id) {
            DistributorView {
                next_sequence: self.next_sequence,
                next_id: self.next_id,
                mailboxes: self.mailboxes.insert(id, None),
            }
        } else {
            self
        }
    }

    /// The subscription `id` is gone, together with what its mailbox held.
    pub open spec fn unsubscribe(self, id: nat) -> DistributorView {
        DistributorView {
            next_sequence: self.next_sequence,
            next_id: self.next_id,
            mailboxes: self.mailboxes.remove(id),
        }
    }
}

/// Handle of one live subscription.
///
/// It cannot be copied, and [`Distributor::unsubscribe`] consumes it.
pub struct Subscription {
    id: u64,
}

impl View for Subscription {
    type V = nat;

    closed spec fn view(&self) -> nat {
        self.id as nat
    }
}

impl Subscription {
    /// The identifier of this subscription.
    pub fn id(&self) -> (id: u64)
        ensures
            id == self@,
    {
        self.id
    }
}

struct Mailbox {
    id: u64,
    slot: Option<Frame>,
}

impl Mailbox {
    spec fn pending(self) -> Option<FrameView> {
        match self.slot {
            Some(frame) => Some(frame@),
            None => None,
        }
    }
}

spec fn holds(boxes: Seq<Mailbox>, id: nat) -> bool {
    exists|i: int| 0 <= i < boxes.len() && (#[trigger] boxes[i]).id == id
}

spec fn position(boxes: Seq<Mailbox>, id: nat) -> int {
    choose|i: int| 0 <= i < boxes.len() && (#[trigger] boxes[i]).id == id
}

spec fn distinct(boxes: Seq<Mailbox>) -> bool {
    forall|i: int, j: int|
        0 <= i < j < boxes.len() ==> (#[trigger] boxes[i]).id != (#[trigger] boxes[j]).id
}

spec fn registry(boxes: Seq<Mailbox>) -> Map<nat, Option<FrameView>> {
    Map::new(|id: nat| holds(boxes, id), |id: nat| boxes[position(boxes, id)].pending())
}

proof fn lemma_registry_at(boxes: Seq<Mailbox>, i: int)
    requires
        distinct(boxes),
        0 <= i < boxes.len(),
    ensures
        holds(boxes, boxes[i].id as nat),
        position(boxes, boxes[i].id as nat) == i,
        registry(boxes).contains_key(boxes[i].id as nat),
        registry(boxes)[boxes[i].id as nat] == boxes[i].pending(),
{
    let id = boxes[i].id as nat;
    assert(holds(boxes, id));
    let p = position(boxes, id);
    assert(0 <= p < boxes.len() && boxes[p].id == id);
    if p < i {
        assert(boxes[p].id != boxes[i].id);
    } else if i < p {
        assert(boxes[i].id != boxes[p].id);
    }
}

proof fn lemma_registry_pushed(boxes: Seq<Mailbox>, mailbox: Mailbox)
    requires
        distinct(boxes),
        !holds(boxes, mailbox.id as nat),
    ensures
        distinct(boxes.push(mailbox)),
        registry(boxes.push(mailbox)) == registry(boxes).insert(
            mailbox.id as nat,
            mailbox.pending(),
        ),
{
    let after = boxes.push(mailbox);
    assert(distinct(after)) by {
        assert forall|i: int, j: int| 0 <= i < j < after.len() implies (#[trigger] after[i]).id
            != (#[trigger] after[j]).id by {
            if j == boxes.len() {
                assert(boxes[i].id != mailbox.id);
            } else {
                assert(boxes[i].id != boxes[j].id);
            }
        }
    }
    let want = registry(boxes).insert(mailbox.id as nat, mailbox.pending());
    assert forall|id: nat| registry(after).contains_key(id) <==> want.contains_key(id) by {
        if holds(after, id) {
            let i = position(after, id);
            if i < boxes.len() {
                assert(boxes[i].id == id);
            }
        }
        if holds(boxes, id) {
            let i = position(boxes, id);
            assert(after[i].id == id);
        }
        if id == mailbox.id as nat {
            assert(after[boxes.len() as int].id == id);
        }
    }
    assert forall|id: nat| registry(after).contains_key(id) implies registry(after)[id]
        == want[id] by {
        let i = position(after, id);
        lemma_registry_at(after, i);
        if i < boxes.len() {
            assert(boxes[i].id == id);
            lemma_registry_at(boxes, i);
        }
    }
    assert(registry(after) =~= want);
}

proof fn lemma_registry_removed(boxes: Seq<Mailbox>, i: int)
    requires
        distinct(boxes),
        0 <= i < boxes.len(),
    ensures
        distinct(boxes.remove(i)),
        registry(boxes.remove(i)) == registry(boxes).remove(boxes[i].id as nat),
{
    let after = boxes.remove(i);
    let gone = boxes[i].id as nat;
    assert forall|a: int, b: int| 0 <= a < b < after.len() implies (#[trigger] after[a]).id != (
    #[trigger] after[b]).id by {
        let a0 = if a < i { a } else { a + 1 };
        let b0 = if b < i { b } else { b + 1 };
        assert(after[a] == boxes[a0] && after[b] == boxes[b0]);
        assert(boxes[a0].id != boxes[b0].id);
    }
    let want = registry(boxes).remove(gone);
    assert forall|id: nat| registry(after).contains_key(id) <==> want.contains_key(id) by {
        if holds(after, id) {
            let a = position(after, id);
            let a0 = if a < i { a } else { a + 1 };
            assert(boxes[a0].id == id);
            if a0 < i {
                assert(boxes[a0].id != boxes[i].id);
            } else {
                assert(boxes[i].id != boxes[a0].id);
            }
        }
        if holds(boxes, id) && id != gone {
            let k = position(boxes, id);
            let k1 = if k < i { k } else { k - 1 };
            assert(after[k1].id == id);
        }
    }
    assert forall|id: nat| registry(after).contains_key(id) implies registry(after)[id]
        == want[id] by {
        let a = position(after, id);
        lemma_registry_at(after, a);
        let a0 = if a < i { a } else { a + 1 };
        assert(after[a] == boxes[a0]);
        lemma_registry_at(boxes, a0);
    }
    assert(registry(after) =~= want);
}

proof fn lemma_registry_updated(boxes: Seq<Mailbox>, i: int, mailbox: Mailbox)
    requires
        distinct(boxes),
        0 <= i < boxes.len(),
        mailbox.id == boxes[i].id,
    ensures
        distinct(boxes.update(i, mailbox)),
        registry(boxes.update(i, mailbox)) == registry(boxes).insert(
            mailbox.id as nat,
            mailbox.pending(),
        ),
{
    let after = boxes.update(i, mailbox);
    assert forall|a: int, b: int| 0 <= a < b < after.len() implies (#[trigger] after[a]).id != (
    #[trigger] after[b]).id by {
        assert(after[a].id == boxes[a].id && after[b].id == boxes[b].id);
        assert(boxes[a].id != boxes[b].id);
    }
    let want = registry(boxes).insert(mailbox.id as nat, mailbox.pending());
    assert forall|id: nat| registry(after).contains_key(id) <==> want.contains_key(id) by {
        if holds(after, id) {
            let a = position(after, id);
            assert(boxes[a].id == id);
        }
        if holds(boxes, id) {
            let a = position(boxes, id);
            assert(after[a].id == id);
        }
        if id == mailbox.id as nat {
            assert(after[i].id == id);
        }
    }
    assert forall|id: nat| registry(after).contains_key(id) implies registry(after)[id]
        == want[id] by {
        let a = position(after, id);
        lemma_registry_at(after, a);
        if a != i {
            assert(after[a] == boxes[a]);
            lemma_registry_at(boxes, a);
            lemma_registry_at(boxes, i);
        }
    }
    assert(registry(after) =~= want);
}

/// The registry of mailboxes and the two counters that number frames and
/// subscriptions.
pub struct Distributor {
    next_sequence: u64,
    next_id: u64,
    mailboxes: Vec<Mailbox>,
}

impl View for Distributor {
    type V = DistributorView;

    closed spec fn view(&self) -> DistributorView {
        DistributorView {
            next_sequence: self.next_sequence as nat,
            next_id: self.next_id as nat,
            mailboxes: registry(self.mailboxes@),
        }
    }
}

impl Distributor {
    /// No identifier is registered twice, and the registry has as many keys
    /// as there are mailboxes.
    pub closed spec fn inv(&self) -> bool {
        &&& distinct(self.mailboxes@)
        &&& registry(self.mailboxes@).dom().finite()
        &&& registry(self.mailboxes@).dom().len() == self.mailboxes@.len()
    }

    /// The representation is consistent and the value is well formed.
    pub open spec fn wf(&self) -> bool {
        self.inv() && self@.wf()
    }

    /// A distributor without subscriptions; the first frame will be
    /// number 0 and the first subscription number 0.
    pub fn new() -> (distributor: Distributor)
        ensures
            distributor.wf(),
            distributor@ == DistributorView::empty(),
    {
        let distributor = Distributor { next_sequence: 0, next_id: 0, mailboxes: Vec::new() };
        assert(registry(distributor.mailboxes@) =~= Map::empty());
        distributor
    }

    /// Number of live subscriptions.
    pub fn subscriber_count(&self) -> (count: usize)
        requires
            self.wf(),
        ensures
            count == self@.subscriber_count(),
    {
        self.mailboxes.len()
    }

    /// Sequence number that the next published frame gets.
    pub fn next_sequence(&self) -> (sequence: u64)
        ensures
            sequence == self@.next_sequence,
    {
        self.next_sequence
    }

    /// Whether one more frame can be numbered.
    pub fn can_publish(&self) -> (ok: bool)
        ensures
            ok == (self@.next_sequence < u64::MAX),
    {
        self.next_sequence < u64::MAX
    }

    /// Whether one more subscription can be numbered.
    pub fn can_subscribe(&self) -> (ok: bool)
        ensures
            ok == (self@.next_id < u64::MAX),
    {
        self.next_id < u64::MAX
    }

    /// Whether `subscription` is registered here.
    pub fn is_subscribed(&self, subscription: &Subscription) -> (live: bool)
        requires
            self.wf(),
        ensures
            live == self@.mailboxes.contains_key(subscription@),
    {
        self.find(subscription.id).is_some()
    }

    fn find(&self, id: u64) -> (found: Option<usize>)
        requires
            self.inv(),
        ensures
            match found {
                Some(i) => i < self.mailboxes@.len() && self.mailboxes@[i as int].id == id,
                None => !holds(self.mailboxes@, id as nat),
            },
    {
        let mut i: usize = 0;
        while i < self.mailboxes.len()
            invariant
                i <= self.mailboxes@.len(),
                forall|k: int| 0 <= k < i ==> (#[trigger] self.mailboxes@[k]).id != id,
            decreases self.mailboxes@.len() - i,
        {
            if self.mailboxes[i].id == id {
                return Some(i);
            }
            i += 1;
        }
        None
    }

    /// Hands the frame to every live subscription and returns its sequence
    /// number.
    ///
    /// A mailbox that still held an unread frame now holds this one instead.
    /// With no subscription the frame is discarded; the number is used up
    /// all the same.
    pub fn publish(&mut self, payload: Vec<u8>, captured_at_ms: u64) -> (sequence: u64)
        requires
            old(self).wf(),
            old(self)@.next_sequence < u64::MAX,
        ensures
            final(self).wf(),
            sequence == old(self)@.next_sequence,
            final(self)@ == old(self)@.publish(payload@, captured_at_ms as nat),
            final(self)@.mailboxes.dom() == old(self)@.mailboxes.dom(),
    {
        let sequence = self.next_sequence;
        let frame = Frame::new(sequence, captured_at_ms, payload);
        let ghost before = self.mailboxes@;
        let mut i: usize = 0;
        while i < self.mailboxes.len()
            invariant
                i <= before.len(),
                self.mailboxes@.len() == before.len(),
                self.next_sequence == old(self).next_sequence,
                self.next_id == old(self).next_id,
                forall|k: int|
                    0 <= k < before.len() ==> (#[trigger] self.mailboxes@[k]).id == before[k].id,
                forall|k: int|
                    0 <= k < i ==> (#[trigger] self.mailboxes@[k]).pending() == Some(frame@),
            decreases before.len() - i,
        {
            self.mailboxes[i].slot = Some(frame.duplicate());
            i += 1;
        }
        self.next_sequence = sequence + 1;
        proof {
            let after = self.mailboxes@;
            assert(distinct(after)) by {
                assert forall|a: int, b: int| 0 <= a < b < after.len() implies (
                #[trigger] after[a]).id != (#[trigger] after[b]).id by {
                    assert(before[a].id != before[b].id);
                }
            }
            let want = old(self)@.publish(payload@, captured_at_ms as nat).mailboxes;
            assert forall|id: nat| registry(after).contains_key(id) <==> want.contains_key(id) by {
                if holds(after, id) {
                    let a = position(after, id);
                    assert(before[a].id == id);
                }
                if holds(before, id) {
                    let a = position(before, id);
                    assert(after[a].id == id);
                }
            }
            assert forall|id: nat| registry(after).contains_key(id) implies registry(after)[id]
                == want[id] by {
                let a = position(after, id);
                assert(after[a].pending() == Some(frame@));
            }
            assert(registry(after) =~= want);
            assert(registry(after).dom() =~= registry(before).dom());
        }
        sequence
    }

    /// Registers a new subscription with an empty mailbox. It will see the
    /// frames published from now on.
    pub fn subscribe(&mut self) -> (subscription: Subscription)
        requires
            old(self).wf(),
            old(self)@.next_id < u64::MAX,
        ensures
            final(self).wf(),
            subscription@ == old(self)@.next_id,
            !old(self)@.mailboxes.contains_key(subscription@),
            final(self)@ == old(self)@.subscribe(),
            final(self)@.subscriber_count() == old(self)@.subscriber_count() + 1,
    {
        let id = self.next_id;
        proof {
            if holds(self.mailboxes@, id as nat) {
                assert(self@.mailboxes.contains_key(id as nat));
            }
            lemma_registry_pushed(self.mailboxes@, Mailbox { id, slot: None });
        }
        self.mailboxes.push(Mailbox { id, slot: None });
        self.next_id = id + 1;
        assert(self@.mailboxes.dom() =~= old(self)@.mailboxes.dom().insert(id as nat));
        Subscription { id }
    }

    /// Takes the unread frame of `subscription`, if it is registered here
    /// and its mailbox holds one. `None` means that there is nothing new:
    /// the reader waits and asks again after the next publish.
    pub fn receive(&mut self, subscription: &Subscription) -> (frame: Option<Frame>)
        requires
            old(self).wf(),
        ensures
            final(self).wf(),
            match frame {
                Some(f) => old(self)@.delivered(subscription@) == Some(f@),
                None => old(self)@.delivered(subscription@) is None,
            },
            final(self)@ == old(self)@.receive(subscription@),
            final(self)@.mailboxes.dom() == old(self)@.mailboxes.dom(),
    {
        let id = subscription.id;
        match self.find(id) {
            None => None,
            Some(i) => {
                proof {
                    lemma_registry_at(self.mailboxes@, i as int);
                }
                let frame = self.mailboxes[i].slot.take();
                proof {
                    let before = old(self).mailboxes@;
                    assert(self.mailboxes@ =~= before.update(i as int, Mailbox { id, slot: None }));
                    lemma_registry_updated(before, i as int, Mailbox { id, slot: None });
                    assert(self@.mailboxes.dom() =~= old(self)@.mailboxes.dom());
                    assert(self@.mailboxes =~= old(self)@.receive(id as nat).mailboxes);
                }
                frame
            },
        }
    }

    /// Gives the subscription back: its mailbox goes away with whatever it
    /// held, and no later frame is kept for it.
    pub fn unsubscribe(&mut self, subscription: Subscription)
        requires
            old(self).wf(),
        ensures
            final(self).wf(),
            final(self)@ == old(self)@.unsubscribe(subscription@),
            final(self)@.subscriber_count() + (if old(self)@.mailboxes.contains_key(
                subscription@,
            ) {
                1nat
            } else {
                0nat
            }) == old(self)@.subscriber_count(),
    {
        let id = subscription.id;
        match self.find(id) {
            None => {
                assert(self@.mailboxes.remove(id as nat) =~= self@.mailboxes);
            },
            Some(i) => {
                proof {
                    lemma_registry_at(self.mailboxes@, i as int);
                    lemma_registry_removed(self.mailboxes@, i as int);
                }
                self.mailboxes.remove(i);
                assert(self@.mailboxes.dom() =~= old(self)@.mailboxes.dom().remove(id as nat));
            },
        }
    }
}

} // verus!
