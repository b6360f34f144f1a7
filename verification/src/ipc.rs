use vstd::prelude::*;
use crate::errors::KernelError;

verus! {

/// One point-to-point message: sender id, recipient id, opaque payload.
/// Immutable once constructed.
#[derive(Debug)]
pub struct IpcMessage {
    pub from: u64,
    pub to: u64,
    pub payload: Vec<u8>,
}

/// The mathematical image of an `IpcMessage`.
pub ghost struct IpcMessageView {
    pub from: u64,
    pub to: u64,
    pub payload: Seq<u8>,
}

impl View for IpcMessage {
    type V = IpcMessageView;

    open spec fn view(&self) -> IpcMessageView {
        IpcMessageView { from: self.from, to: self.to, payload: self.payload@ }
    }
}

impl Clone for IpcMessage {
    fn clone(&self) -> (r: Self)
        ensures
            r@ == self@,
    {
        IpcMessage { from: self.from, to: self.to, payload: self.payload.clone() }
    }
}

struct Mailbox {
    owner: u64,
    queue: Vec<IpcMessage>,
}

/// One bounded inbound queue per module id. A mailbox exists only after
/// its owner registers it; messages to an unregistered id are refused.
/// Sending is non-blocking: a send to a full mailbox is refused with
/// `Unavailable` and no message is dropped or reordered.
pub struct MailboxRegistry {
    boxes: Vec<Mailbox>,
    capacity: usize,
}

impl MailboxRegistry {
    /// Each module id owns at most one mailbox, and no queue exceeds the
    /// registry's capacity.
    pub closed spec fn wf(self) -> bool {
        &&& forall|i: int, j: int|
            0 <= i < self.boxes@.len() && 0 <= j < self.boxes@.len() && i != j
                ==> #[trigger] self.boxes@[i].owner != #[trigger] self.boxes@[j].owner
        &&& forall|i: int|
            0 <= i < self.boxes@.len() ==> (#[trigger] self.boxes@[i]).queue@.len()
                <= self.capacity
        &&& self.capacity >= 1
    }

    /// The capacity every mailbox is bounded by.
    pub closed spec fn cap(self) -> nat {
        self.capacity as nat
    }

    /// Whether module `m` has registered a mailbox.
    pub closed spec fn has_mailbox(self, m: u64) -> bool {
        exists|i: int| 0 <= i < self.boxes@.len() && (#[trigger] self.boxes@[i]).owner == m
    }

    spec fn idx_of(self, m: u64) -> int {
        choose|i: int| 0 <= i < self.boxes@.len() && (#[trigger] self.boxes@[i]).owner == m
    }

    /// The pending messages of module `m`'s mailbox, oldest first; empty
    /// when no mailbox is registered.
    pub closed spec fn queue_of(self, m: u64) -> Seq<IpcMessageView> {
        if self.has_mailbox(m) {
            self.boxes@[self.idx_of(m)].queue@.map_values(|x: IpcMessage| x@)
        } else {
            Seq::empty()
        }
    }

    proof fn lemma_at(self, i: int)
        requires
            self.wf(),
            0 <= i < self.boxes@.len(),
        ensures
            self.has_mailbox(self.boxes@[i].owner),
            self.idx_of(self.boxes@[i].owner) == i,
            self.queue_of(self.boxes@[i].owner) == self.boxes@[i].queue@.map_values(
                |x: IpcMessage| x@,
            ),
    {
        let m = self.boxes@[i].owner;
        assert(self.has_mailbox(m));
        let j = self.idx_of(m);
        assert(0 <= j < self.boxes@.len() && self.boxes@[j].owner == m);
        assert(j == i);
    }

    /// A registry with no mailboxes, whose queues will be bounded by
    /// `capacity`.
    pub fn new(capacity: usize) -> (r: MailboxRegistry)
        requires
            capacity >= 1,
        ensures
            r.wf(),
            r.cap() == capacity,
            forall|m: u64| !r.has_mailbox(m),
    {
        MailboxRegistry { boxes: Vec::new(), capacity }
    }

    fn find(&self, m: u64) -> (r: Option<usize>)
        ensures
            match r {
                Some(i) => i < self.boxes@.len() && self.boxes@[i as int].owner == m,
                None => forall|i: int|
                    0 <= i < self.boxes@.len() ==> (#[trigger] self.boxes@[i]).owner != m,
            },
    {
        let mut i: usize = 0;
        while i < self.boxes.len()
            invariant
                i <= self.boxes@.len(),
                forall|j: int| 0 <= j < i ==> (#[trigger] self.boxes@[j]).owner != m,
            decreases self.boxes@.len() - i,
        {
            if self.boxes[i].owner == m {
                return Some(i);
            }
            i = i + 1;
        }
        None
    }

    /// Register a mailbox for module `m`. A first registration installs
    /// an empty queue; registering again is a no-op that keeps pending
    /// messages. No other module's mailbox is affected.
    pub fn register(&mut self, m: u64)
        requires
            old(self).wf(),
        ensures
            final(self).wf(),
            final(self).cap() == old(self).cap(),
            final(self).has_mailbox(m),
            final(self).queue_of(m) == if old(self).has_mailbox(m) {
                old(self).queue_of(m)
            } else {
                Seq::<IpcMessageView>::empty()
            },
            forall|m2: u64|
                #[trigger] final(self).has_mailbox(m2) == (old(self).has_mailbox(m2) || m2 == m),
            forall|m2: u64|
                m2 != m ==> #[trigger] final(self).queue_of(m2) == old(self).queue_of(m2),
    {
        let found = self.find(m);
        match found {
            Some(_) => {},
            None => {
                self.boxes.push(Mailbox { owner: m, queue: Vec::new() });
                proof {
                    let n = old(self).boxes@.len() as int;
                    assert(self.boxes@ =~= old(self).boxes@.push(self.boxes@[n]));
                    self.lemma_at(n);
                    assert(self.queue_of(m) =~= Seq::<IpcMessageView>::empty());
                    assert forall|m2: u64| #[trigger]
                        self.has_mailbox(m2) == (old(self).has_mailbox(m2) || m2 == m) by {
                        if old(self).has_mailbox(m2) {
                            let j = old(self).idx_of(m2);
                            assert(self.boxes@[j].owner == m2);
                        }
                        if self.has_mailbox(m2) && m2 != m {
                            let j = self.idx_of(m2);
                            assert(j != n);
                            assert(old(self).boxes@[j].owner == m2);
                        }
                    }
                    assert forall|m2: u64| m2 != m implies #[trigger] self.queue_of(m2) == old(
                        self,
                    ).queue_of(m2) by {
                        if old(self).has_mailbox(m2) {
                            let j = old(self).idx_of(m2);
                            assert(self.boxes@[j].owner == m2);
                            self.lemma_at(j);
                            old(self).lemma_at(j);
                            assert(self.queue_of(m2) == old(self).queue_of(m2));
                        }
                    }
                }
            },
        }
    }

    /// Deliver `msg` to its recipient's mailbox. Refused with `NotFound`
    /// when no mailbox is registered for the recipient and `Unavailable`
    /// when the queue is full; in both cases nothing changes. On success
    /// the message is appended at the end of exactly that queue.
    pub fn send(&mut self, msg: IpcMessage) -> (r: Result<(), KernelError>)
        requires
            old(self).wf(),
        ensures
            final(self).wf(),
            final(self).cap() == old(self).cap(),
            match r {
                Ok(()) => {
                    &&& old(self).has_mailbox(msg.to)
                    &&& old(self).queue_of(msg.to).len() < old(self).cap()
                    &&& final(self).queue_of(msg.to) == old(self).queue_of(msg.to).push(msg@)
                },
                Err(KernelError::NotFound) => !old(self).has_mailbox(msg.to) && *final(self)
                    == *old(self),
                Err(KernelError::Unavailable) => old(self).has_mailbox(msg.to) && old(
                    self,
                ).queue_of(msg.to).len() >= old(self).cap() && *final(self) == *old(self),
                _ => false,
            },
            forall|m2: u64|
                #[trigger] final(self).has_mailbox(m2) == old(self).has_mailbox(m2),
            forall|m2: u64|
                m2 != msg.to ==> #[trigger] final(self).queue_of(m2) == old(self).queue_of(m2),
    {
        let to = msg.to;
        let found = self.find(to);
        match found {
            None => Err(KernelError::NotFound),
            Some(i) => {
                proof {
                    self.lemma_at(i as int);
                }
                if self.boxes[i].queue.len() >= self.capacity {
                    Err(KernelError::Unavailable)
                } else {
                    let mbox = &mut self.boxes[i];
                    mbox.queue.push(msg);
                    proof {
                        assert(self.boxes@ =~= old(self).boxes@.update(
                            i as int,
                            self.boxes@[i as int],
                        ));
                        assert(self.boxes@[i as int].owner == to);
                        old(self).lemma_at(i as int);
                        self.lemma_at(i as int);
                        assert(self.queue_of(to) =~= old(self).queue_of(to).push(msg@));
                        assert forall|m2: u64| #[trigger]
                            self.has_mailbox(m2) == old(self).has_mailbox(m2) by {
                            if old(self).has_mailbox(m2) {
                                let j = old(self).idx_of(m2);
                                assert(self.boxes@[j].owner == m2);
                            }
                            if self.has_mailbox(m2) {
                                let j = self.idx_of(m2);
                                assert(old(self).boxes@[j].owner == m2);
                            }
                        }
                        assert forall|m2: u64| m2 != to implies #[trigger] self.queue_of(m2) == old(
                            self,
                        ).queue_of(m2) by {
                            if old(self).has_mailbox(m2) {
                                let j = old(self).idx_of(m2);
                                assert(j != i);
                                old(self).lemma_at(j);
                                self.lemma_at(j);
                            }
                        }
                    }
                    Ok(())
                }
            },
        }
    }

    /// Take the oldest pending message of module `m`'s mailbox, if any.
    /// Messages come out in exactly the order sends were accepted.
    pub fn recv(&mut self, m: u64) -> (r: Option<IpcMessage>)
        requires
            old(self).wf(),
        ensures
            final(self).wf(),
            final(self).cap() == old(self).cap(),
            match r {
                Some(msg) => {
                    &&& old(self).queue_of(m).len() > 0
                    &&& msg@ == old(self).queue_of(m)[0]
                    &&& final(self).queue_of(m) == old(self).queue_of(m).drop_first()
                },
                None => old(self).queue_of(m).len() == 0 && *final(self) == *old(self),
            },
            forall|m2: u64|
                #[trigger] final(self).has_mailbox(m2) == old(self).has_mailbox(m2),
            forall|m2: u64|
                m2 != m ==> #[trigger] final(self).queue_of(m2) == old(self).queue_of(m2),
    {
        let found = self.find(m);
        match found {
            None => {
                proof {
                    if self.has_mailbox(m) {
                        let j = self.idx_of(m);
                        assert(false);
                    }
                }
                None
            },
            Some(i) => {
                proof {
                    self.lemma_at(i as int);
                }
                if self.boxes[i].queue.len() == 0 {
                    None
                } else {
                    let mbox = &mut self.boxes[i];
                    let msg = mbox.queue.remove(0);
                    proof {
                        assert(self.boxes@ =~= old(self).boxes@.update(
                            i as int,
                            self.boxes@[i as int],
                        ));
                        assert(self.boxes@[i as int].owner == m);
                        old(self).lemma_at(i as int);
                        self.lemma_at(i as int);
                        assert(self.queue_of(m) =~= old(self).queue_of(m).drop_first());
                        assert(msg@ == old(self).queue_of(m)[0]);
                        assert forall|m2: u64| #[trigger]
                            self.has_mailbox(m2) == old(self).has_mailbox(m2) by {
                            if old(self).has_mailbox(m2) {
                                let j = old(self).idx_of(m2);
                                assert(self.boxes@[j].owner == m2);
                            }
                            if self.has_mailbox(m2) {
                                let j = self.idx_of(m2);
                                assert(old(self).boxes@[j].owner == m2);
                            }
                        }
                        assert forall|m2: u64| m2 != m implies #[trigger] self.queue_of(m2) == old(
                            self,
                        ).queue_of(m2) by {
                            if old(self).has_mailbox(m2) {
                                let j = old(self).idx_of(m2);
                                assert(j != i);
                                old(self).lemma_at(j);
                                self.lemma_at(j);
                            }
                        }
                    }
                    Some(msg)
                }
            },
        }
    }
}

} // verus!
