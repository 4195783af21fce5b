use std::collections::VecDeque;
use vstd::prelude::*;

verus! {

/// What travels from the pool to its workers.
pub enum Message<J> {
    /// A job to run once, with the ticket that marks it.
    NewJob { ticket: u64, job: J },
    /// Tells the worker that takes it to leave its loop.
    Terminate,
}

impl<J> Message<J> {
    /// The ticket of a job message; `None` for a terminate message.
    pub open spec fn job_ticket(self) -> Option<u64> {
        match self {
            Message::NewJob { ticket, .. } => Some(ticket),
            Message::Terminate => None,
        }
    }
}

/// A first-in, first-out queue of messages: one sender, and receivers that take
/// turns on it, so that each message goes to exactly one receiver.
pub struct DispatchChannel<T> {
    queue: VecDeque<T>,
}

impl<T> View for DispatchChannel<T> {
    type V = Seq<T>;

    closed spec fn view(&self) -> Seq<T> {
        self.queue@
    }
}

impl<T> DispatchChannel<T> {
    pub fn new() -> (c: Self)
        ensures
            c@ == Seq::<T>::empty(),
    {
        DispatchChannel { queue: VecDeque::new() }
    }

    /// Puts a message at the back.
    pub fn send(&mut self, m: T)
        ensures
            final(self)@ == old(self)@.push(m),
    {
        self.queue.push_back(m);
    }

    /// Takes the message at the front, if there is one.
    pub fn receive(&mut self) -> (r: Option<T>)
        ensures
            old(self)@.len() == 0 ==> r is None && final(self)@ == old(self)@,
            old(self)@.len() > 0 ==> r == Some(old(self)@[0]) && final(self)@ == old(
                self,
            )@.subrange(1, old(self)@.len() as int),
    {
        self.queue.pop_front()
    }

    pub fn len(&self) -> (n: usize)
        ensures
            n == self@.len(),
    {
        self.queue.len()
    }
}

} // verus!
