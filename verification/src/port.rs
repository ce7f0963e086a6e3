//! Ports: typed first-in, first-out endpoints through which tasks hand values
//! to the context that created the port.

use std::collections::VecDeque;
use vstd::prelude::*;

verus! {

/// Where a port is in its life.
#[derive(Clone, Copy, Debug, PartialEq, Eq, Structural)]
pub enum PortState {
    /// Made, and not yet sent into or received from.
    Created,
    /// In use: values may be pending.
    Active,
    /// Gone: whatever was pending has been discarded.
    Destroyed,
}

/// What a port is, mathematically: its place in its life and, while it is in
/// use, the values sent and not yet received, oldest first.
pub enum PortModel<T> {
    Created,
    Active { queue: Seq<T> },
    Destroyed,
}

impl<T> PortModel<T> {
    /// Where the port is in its life.
    pub open spec fn state(self) -> PortState {
        match self {
            PortModel::Created => PortState::Created,
            PortModel::Active { .. } => PortState::Active,
            PortModel::Destroyed => PortState::Destroyed,
        }
    }

    /// A port takes values until it is destroyed.
    pub open spec fn is_open(self) -> bool {
        !(self is Destroyed)
    }

    /// The values sent and not yet received, oldest first.
    pub open spec fn pending(self) -> Seq<T> {
        match self {
            PortModel::Active { queue } => queue,
            _ => Seq::empty(),
        }
    }

    /// The port after `value` is sent into it.
    pub open spec fn send(self, value: T) -> Self {
        if self.is_open() {
            PortModel::Active { queue: self.pending().push(value) }
        } else {
            self
        }
    }

    /// What a receive hands out: the oldest pending value, if there is one.
    pub open spec fn oldest(self) -> Option<T> {
        if self.pending().len() > 0 {
            Some(self.pending().first())
        } else {
            None
        }
    }

    /// The port after a receive.
    pub open spec fn receive(self) -> Self {
        if !self.is_open() {
            self
        } else if self.pending().len() > 0 {
            PortModel::Active { queue: self.pending().drop_first() }
        } else {
            PortModel::Active { queue: Seq::empty() }
        }
    }

    /// The port after it is destroyed.
    pub open spec fn destroy(self) -> Self {
        PortModel::Destroyed
    }
}

/// A send found its port destroyed. The value comes back to the sender, who
/// may drop it or send it into another port.
#[derive(Debug, PartialEq, Eq)]
pub struct PortClosed<T> {
    pub value: T,
}

/// A port for values of type `T`.
///
/// Any number of senders may send into it in turn; the context that made it
/// receives. Values come out in the order in which they went in. The port
/// sets no bound on what is pending: a sender is never held back, and values
/// pile up for as long as nobody receives them.
pub struct Port<T> {
    state: PortState,
    queue: VecDeque<T>,
}

impl<T> View for Port<T> {
    type V = PortModel<T>;

    closed spec fn view(&self) -> PortModel<T> {
        match self.state {
            PortState::Created => PortModel::Created,
            PortState::Active => PortModel::Active { queue: self.queue@ },
            PortState::Destroyed => PortModel::Destroyed,
        }
    }
}

impl<T> Port<T> {
    #[verifier::type_invariant]
    spec fn well_formed(self) -> bool {
        !(self.state is Active) ==> self.queue@.len() == 0
    }

    /// Makes a fresh port with nothing pending.
    pub fn new() -> (port: Port<T>)
        ensures
            port@ == PortModel::<T>::Created,
    {
        Port { state: PortState::Created, queue: VecDeque::new() }
    }

    /// Where the port is in its life.
    pub fn state(&self) -> (state: PortState)
        ensures
            state == self@.state(),
    {
        self.state
    }

    /// The number of values sent and not yet received.
    pub fn pending_count(&self) -> (count: usize)
        ensures
            count == self@.pending().len(),
    {
        proof {
            use_type_invariant(self);
        }
        self.queue.len()
    }

    /// Appends `value` to the pending values. This never waits. It fails only
    /// on a destroyed port, and then hands the value back.
    pub fn send(&mut self, value: T) -> (result: Result<(), PortClosed<T>>)
        ensures
            final(self)@ == old(self)@.send(value),
            result is Ok <==> old(self)@.is_open(),
            result matches Err(closed) ==> closed.value == value,
    {
        proof {
            use_type_invariant(&*self);
            assert(self.queue@ =~= self@.pending());
        }
        match self.state {
            PortState::Destroyed => Err(PortClosed { value }),
            _ => {
                let mut queue = VecDeque::new();
                std::mem::swap(&mut queue, &mut self.queue);
                queue.push_back(value);
                self.state = PortState::Active;
                self.queue = queue;
                Ok(())
            },
        }
    }

    /// Takes the oldest pending value out of the port.
    ///
    /// `None` says that nothing is pending: a receiver that needs a value
    /// suspends until a send arrives and then asks again. This function
    /// itself never waits.
    pub fn receive(&mut self) -> (result: Option<T>)
        ensures
            result == old(self)@.oldest(),
            final(self)@ == old(self)@.receive(),
    {
        proof {
            use_type_invariant(&*self);
        }
        match self.state {
            PortState::Destroyed => None,
            _ => {
                let mut queue = VecDeque::new();
                std::mem::swap(&mut queue, &mut self.queue);
                let oldest = queue.pop_front();
                assert(queue@ =~= old(self)@.receive().pending());
                self.state = PortState::Active;
                self.queue = queue;
                oldest
            },
        }
    }

    /// Destroys the port. Pending values are discarded, and every later send
    /// fails.
    pub fn destroy(&mut self)
        ensures
            final(self)@ == old(self)@.destroy(),
    {
        self.queue = VecDeque::new();
        self.state = PortState::Destroyed;
    }
}

} // verus!
