use vstd::prelude::*;
use rtrb::{Producer, PushError};
use std::collections::VecDeque;

verus! {

#[verifier::external_type_specification]
#[verifier::external_body]
#[verifier::reject_recursive_types(T)]
pub struct ExProducer<T>(Producer<T>);

/// Calls `rtrb::Producer::push`. Trusted: where the ring buffer is full the value comes back
/// unchanged, and otherwise it was written to the buffer. Whether it is full depends on the
/// consumer on the other thread, so which of the two happens is left open.
#[verifier::external_body]
fn try_push<T>(producer: &mut Producer<T>, value: T) -> (r: Result<(), T>)
    ensures
        r matches Err(v) ==> v == value,
{
    match producer.push(value) {
        Ok(()) => Ok(()),
        Err(PushError::Full(v)) => Err(v),
    }
}

/// Messages for the audio thread: each goes straight into the ring buffer where it has room
/// and nothing is waiting, and otherwise waits in a queue, in order, for the next drain.
#[verifier::reject_recursive_types(T)]
pub struct Outbox<T> {
    producer: Producer<T>,
    queue: VecDeque<T>,
    delivered: Ghost<Seq<T>>,
}

impl<T> View for Outbox<T> {
    /// The messages written to the ring buffer so far, and the messages waiting, in order.
    type V = (Seq<T>, Seq<T>);

    closed spec fn view(&self) -> (Seq<T>, Seq<T>) {
        (self.delivered@, self.queue@)
    }
}

impl<T> Outbox<T> {
    /// An outbox that writes to `producer`, with nothing sent yet.
    pub fn new(producer: Producer<T>) -> (r: Self)
        ensures
            r@ == (Seq::<T>::empty(), Seq::<T>::empty()),
    {
        Outbox { producer, queue: VecDeque::new(), delivered: Ghost(Seq::empty()) }
    }

    /// Whether no message is waiting.
    pub fn queue_empty(&self) -> (r: bool)
        ensures
            r == (self@.1.len() == 0),
    {
        self.queue.len() == 0
    }

    /// Sends `message`: written to the ring buffer where nothing is waiting and it has room,
    /// and otherwise put at the back of the queue. Either way, what was written followed by
    /// what waits is what was sent, in order.
    pub fn send(&mut self, message: T)
        ensures
            final(self)@.0 + final(self)@.1 == old(self)@.0 + old(self)@.1.push(message),
            old(self)@.1.len() > 0 ==> final(self)@ == (old(self)@.0, old(self)@.1.push(message)),
            old(self)@.1.len() == 0 ==> (final(self)@ == (old(self)@.0.push(message), old(self)@.1)
                || final(self)@ == (old(self)@.0, seq![message])),
    {
        let ghost m = message;
        if self.queue.len() == 0 {
            match try_push(&mut self.producer, message) {
                Ok(()) => {
                    proof {
                        self.delivered@ = self.delivered@.push(m);
                        assert(self.delivered@ + self.queue@ =~= old(self)@.0 + old(
                            self,
                        )@.1.push(m));
                    }
                },
                Err(message) => {
                    self.queue.push_back(message);
                    proof {
                        assert(self.queue@ =~= seq![m]);
                        assert(self.delivered@ + self.queue@ =~= old(self)@.0 + old(
                            self,
                        )@.1.push(m));
                    }
                },
            }
        } else {
            self.queue.push_back(message);
            proof {
                assert(self.delivered@ + self.queue@ =~= old(self)@.0 + old(self)@.1.push(m));
            }
        }
    }

    /// Writes the waiting messages to the ring buffer, front first, until it is full; `true`
    /// where none is left waiting. What was written followed by what waits stays what was sent.
    pub fn drain_queue(&mut self) -> (r: bool)
        ensures
            final(self)@.0 + final(self)@.1 == old(self)@.0 + old(self)@.1,
            final(self)@.0.len() >= old(self)@.0.len(),
            final(self)@.0.subrange(0, old(self)@.0.len() as int) == old(self)@.0,
            r <==> final(self)@.1.len() == 0,
    {
        loop
            invariant
                self.delivered@ + self.queue@ == old(self)@.0 + old(self)@.1,
                self.delivered@.len() >= old(self)@.0.len(),
                self.delivered@.subrange(0, old(self)@.0.len() as int) == old(self)@.0,
            decreases self.queue@.len(),
        {
            let ghost before = self.queue@;
            match self.queue.pop_front() {
                None => {
                    return true;
                },
                Some(message) => {
                    let ghost m = message;
                    match try_push(&mut self.producer, message) {
                        Ok(()) => {
                            proof {
                                let d = self.delivered@;
                                self.delivered@ = d.push(m);
                                assert(before =~= seq![m] + self.queue@);
                                assert(self.delivered@ + self.queue@ =~= d + before);
                                assert(self.delivered@.subrange(0, old(self)@.0.len() as int)
                                    =~= d.subrange(0, old(self)@.0.len() as int));
                            }
                        },
                        Err(message) => {
                            self.queue.push_front(message);
                            proof {
                                assert(self.queue@ =~= before);
                            }
                            return false;
                        },
                    }
                },
            }
        }
    }
}

} // verus!
