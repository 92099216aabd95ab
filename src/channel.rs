//! The channels between the actor and its producers and consumers.
use vstd::prelude::*;
use crate::interface::{Delivery, InterfaceUpdate, NetworkMessage, SystemUpdate};
use std::sync::mpsc::{Receiver, Sender};

verus! {

#[verifier::external_type_specification]
#[verifier::external_body]
#[verifier::reject_recursive_types(T)]
pub struct ExSender<T>(std::sync::mpsc::Sender<T>);

#[verifier::external_type_specification]
#[verifier::external_body]
#[verifier::reject_recursive_types(T)]
pub struct ExReceiver<T>(std::sync::mpsc::Receiver<T>);

/// What a short wait on the inbound channel gave: a message, nothing, or a
/// channel whose senders are all gone.
pub enum Received<T> {
    Message(T),
    Idle,
    Closed,
}

/// Relies on std::sync::mpsc::Receiver::recv_timeout: a message, nothing
/// within `millis` milliseconds, or a channel whose senders are all gone.
#[verifier::external_body]
pub(crate) fn receive<T>(receiver: &Receiver<T>, millis: u64) -> (r: Received<T>) {
    match receiver.recv_timeout(std::time::Duration::from_millis(millis)) {
        Ok(message) => Received::Message(message),
        Err(std::sync::mpsc::RecvTimeoutError::Timeout) => Received::Idle,
        Err(std::sync::mpsc::RecvTimeoutError::Disconnected) => Received::Closed,
    }
}

/// Relies on std::sync::mpsc::channel: a connected pair.
#[verifier::external_body]
pub(crate) fn channel<T>() -> (r: (Sender<T>, Receiver<T>)) {
    std::sync::mpsc::channel()
}

/// Relies on Clone for std::sync::mpsc::Sender: another sender on the same
/// channel; nothing about it is stated.
pub assume_specification<T>[ <std::sync::mpsc::Sender<T> as Clone>::clone ](_0: &std::sync::mpsc::Sender<T>) -> std::sync::mpsc::Sender<T>;

/// A sender with the record of what it handed to its channel.
#[derive(Clone)]
#[verifier::reject_recursive_types(T)]
pub struct Outbox<T> {
    sender: Sender<T>,
    sent: Ghost<Seq<T>>,
}

impl<T> Outbox<T> {
    /// What this sender handed to its channel, in order.
    pub closed spec fn sent(&self) -> Seq<T> {
        self.sent@
    }

    pub fn new(sender: Sender<T>) -> (r: Outbox<T>)
        ensures
            r.sent() == Seq::<T>::empty(),
    {
        Outbox { sender, sent: Ghost(Seq::empty()) }
    }

    /// A sender on the same channel, with an empty record.
    pub fn another(&self) -> (r: Outbox<T>)
        ensures
            r.sent() == Seq::<T>::empty(),
    {
        Outbox::new(self.sender.clone())
    }

    /// Relies on std::sync::mpsc::Sender::send: the message is handed to the
    /// channel, and dropped there where the receiver is gone.
    #[verifier::external_body]
    pub fn deliver(&mut self, message: T)
        ensures
            final(self).sent() == old(self).sent().push(message),
    {
        self.sender.send(message).unwrap_or(());
    }
}

/// The network datagrams of a record, in order.
pub open spec fn network_part(d: Seq<Delivery>) -> Seq<NetworkMessage>
    decreases d.len(),
{
    if d.len() == 0 {
        Seq::empty()
    } else {
        let r = network_part(d.drop_last());
        match d.last() {
            Delivery::Network { message } => r.push(message),
            _ => r,
        }
    }
}

/// The inbound updates of a record, in order.
pub open spec fn inbound_part(d: Seq<Delivery>) -> Seq<SystemUpdate>
    decreases d.len(),
{
    if d.len() == 0 {
        Seq::empty()
    } else {
        let r = inbound_part(d.drop_last());
        match d.last() {
            Delivery::Inbound { update } => r.push(update),
            _ => r,
        }
    }
}

/// The user-interface updates of a record, in order.
pub open spec fn interface_part(d: Seq<Delivery>) -> Seq<InterfaceUpdate>
    decreases d.len(),
{
    if d.len() == 0 {
        Seq::empty()
    } else {
        let r = interface_part(d.drop_last());
        match d.last() {
            Delivery::Interface { update } => r.push(update),
            _ => r,
        }
    }
}

/// The actor's three outgoing channels and the record of everything sent on
/// them, in order.
pub struct Links {
    network: Outbox<NetworkMessage>,
    inbound: Outbox<SystemUpdate>,
    interface: Outbox<InterfaceUpdate>,
    sent: Ghost<Seq<Delivery>>,
}

impl Links {
    /// Everything sent, in order.
    pub closed spec fn sent(&self) -> Seq<Delivery> {
        self.sent@
    }

    /// What the network channel was handed.
    pub closed spec fn network_sent(&self) -> Seq<NetworkMessage> {
        self.network.sent()
    }

    /// What the actor's own inbound channel was handed.
    pub closed spec fn inbound_sent(&self) -> Seq<SystemUpdate> {
        self.inbound.sent()
    }

    /// What the user-interface channel was handed.
    pub closed spec fn interface_sent(&self) -> Seq<InterfaceUpdate> {
        self.interface.sent()
    }

    /// Each channel was handed exactly its part of the record, in order.
    pub open spec fn wf(&self) -> bool {
        &&& self.network_sent() == network_part(self.sent())
        &&& self.inbound_sent() == inbound_part(self.sent())
        &&& self.interface_sent() == interface_part(self.sent())
    }

    pub fn new(network_send: Sender<NetworkMessage>, inbound: Outbox<SystemUpdate>, interface_send: Sender<InterfaceUpdate>) -> (r: Links)
        requires
            inbound.sent() == Seq::<SystemUpdate>::empty(),
        ensures
            r.wf(),
            r.sent() == Seq::<Delivery>::empty(),
    {
        Links {
            network: Outbox::new(network_send),
            inbound,
            interface: Outbox::new(interface_send),
            sent: Ghost(Seq::empty()),
        }
    }

    /// Sends a datagram to the network.
    pub fn to_network(&mut self, message: NetworkMessage)
        requires
            old(self).wf(),
        ensures
            final(self).wf(),
            final(self).sent() == old(self).sent().push(Delivery::Network { message }),
    {
        let ghost d = Delivery::Network { message };
        self.network.deliver(message);
        self.sent = Ghost(self.sent@.push(d));
        assert(self.sent@.drop_last() =~= old(self).sent@);
    }

    /// Puts an update on the actor's own inbound channel.
    pub fn to_inbound(&mut self, update: SystemUpdate)
        requires
            old(self).wf(),
        ensures
            final(self).wf(),
            final(self).sent() == old(self).sent().push(Delivery::Inbound { update }),
    {
        let ghost d = Delivery::Inbound { update };
        self.inbound.deliver(update);
        self.sent = Ghost(self.sent@.push(d));
        assert(self.sent@.drop_last() =~= old(self).sent@);
    }

    /// Sends an update to the user interface.
    pub fn to_interface(&mut self, update: InterfaceUpdate)
        requires
            old(self).wf(),
        ensures
            final(self).wf(),
            final(self).sent() == old(self).sent().push(Delivery::Interface { update }),
    {
        let ghost d = Delivery::Interface { update };
        self.interface.deliver(update);
        self.sent = Ghost(self.sent@.push(d));
        assert(self.sent@.drop_last() =~= old(self).sent@);
    }
}

#[verifier::external_type_specification]
#[verifier::external_body]
pub struct ExInstant(std::time::Instant);

/// Relies on std::time::Instant::now: a reading of the monotonic clock.
#[verifier::external_body]
pub(crate) fn clock_start() -> (r: std::time::Instant) {
    std::time::Instant::now()
}

/// Relies on std::time::Instant::elapsed: the milliseconds since `start`,
/// or the largest `u64` where they do not fit.
#[verifier::external_body]
pub(crate) fn elapsed_millis(start: &std::time::Instant) -> (r: u64) {
    u64::try_from(start.elapsed().as_millis()).unwrap_or(u64::MAX)
}

} // verus!
