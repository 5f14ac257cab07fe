//! An in-process carrier over `std::sync::mpsc` queues.
//!
//! A [`Channel`] owns one direction-pair of first-in first-out queues:
//! everything one endpoint sends — payload values and choice markers alike,
//! tagged as a [`Msg`] — arrives at the peer in sending order, exactly
//! once.  [`session_channel`] cross-wires two such carriers and yields two
//! channel handles at mutually dual protocols.

use std::sync::mpsc::Receiver;
use std::sync::mpsc::Sender;

use vstd::prelude::*;

use crate::chan::Carrier;
use crate::chan::Chan;
use crate::chan::ChannelRecv;
use crate::chan::ChannelSend;
use crate::proto::Protocol;
use crate::proto::dual;
use crate::proto::lemma_dual_wf;
use crate::proto::wf;
use crate::state::dual_env;
use crate::state::dual_state;
use crate::state::state_wf;

verus! {

#[verifier::external_type_specification]
#[verifier::external_body]
#[verifier::reject_recursive_types(T)]
pub struct ExSender<T>(Sender<T>);

#[verifier::external_type_specification]
#[verifier::external_body]
#[verifier::reject_recursive_types(T)]
pub struct ExReceiver<T>(Receiver<T>);

/// Relies on `std::sync::mpsc::channel`: returns a connected sender and
/// receiver; the receiver yields the sender's messages in sending order,
/// exactly once.  What arrives depends on the shared queue, so nothing is
/// promised of later calls on the pair.
#[verifier::external_body]
fn queue_pair<M>() -> (r: (Sender<M>, Receiver<M>)) {
    std::sync::mpsc::channel()
}

/// Relies on `std::sync::mpsc::Sender::send`: queues the message, failing
/// exactly when the receiving end has been dropped.
#[verifier::external_body]
fn queue_send<M>(tx: &Sender<M>, m: M) -> (ok: bool) {
    tx.send(m).is_ok()
}

/// Relies on `std::sync::mpsc::Receiver::recv`: blocks until the next
/// message, in sending order, and yields nothing exactly when the sending
/// end has been dropped and the queue drained.
#[verifier::external_body]
fn queue_recv<M>(rx: &Receiver<M>) -> (r: Option<M>) {
    rx.recv().ok()
}

/// What travels over an in-process queue: a payload value or a choice
/// marker.  Both ends agree on which one is due at every protocol step, so
/// a mismatch means the protocols diverged.
pub enum Msg<T> {
    Val(T),
    Choice(bool),
}

/// How an in-process carrier fails.
#[derive(Debug, PartialEq, Eq)]
pub enum ChannelError {
    /// The peer's endpoint was dropped.
    Disconnected,
    /// A payload arrived where a choice marker was due, or the reverse:
    /// the two sides' protocols diverged.
    UnexpectedMessage,
}

/// An in-process carrier: one sending queue towards the peer and one
/// receiving queue from it, each first-in first-out.  Alongside the queues
/// it keeps the transcripts the trait contracts speak of: what this
/// endpoint handed to the wire and what it took from it, values and choice
/// markers each in their own sequence, oldest first.
#[verifier::reject_recursive_types(T)]
pub struct Channel<T> {
    tx: Sender<Msg<T>>,
    rx: Receiver<Msg<T>>,
    vals_sent: Ghost<Seq<T>>,
    vals_taken: Ghost<Seq<T>>,
    markers_sent: Ghost<Seq<bool>>,
    markers_taken: Ghost<Seq<bool>>,
}

impl<T> Channel<T> {
    /// The payload values this endpoint has handed to the wire.
    pub closed spec fn sent_values(&self) -> Seq<T> {
        self.vals_sent@
    }

    /// The payload values this endpoint has taken from the wire.
    pub closed spec fn taken_values(&self) -> Seq<T> {
        self.vals_taken@
    }
}

/// A carrier fresh from [`channel_pair`]: every transcript is empty.
pub open spec fn fresh_channel<T>(c: Channel<T>) -> bool {
    &&& c.sent_values() == Seq::<T>::empty()
    &&& c.taken_values() == Seq::<T>::empty()
    &&& c.choices_sent() == Seq::<bool>::empty()
    &&& c.choices_taken() == Seq::<bool>::empty()
}

impl<T> ChannelSend<Channel<T>> for T {
    type Err = ChannelError;

    closed spec fn values_sent(carrier: &Channel<T>) -> Seq<T> {
        carrier.sent_values()
    }

    fn send(self, carrier: &mut Channel<T>) -> (r: Result<(), ChannelError>)
        ensures
            r matches Err(e) ==> e == ChannelError::Disconnected,
    {
        let ghost v = self;
        if queue_send(&carrier.tx, Msg::Val(self)) {
            carrier.vals_sent = Ghost(carrier.vals_sent@.push(v));
            Ok(())
        } else {
            Err(ChannelError::Disconnected)
        }
    }
}

impl<T> ChannelRecv<Channel<T>> for T {
    type Err = ChannelError;

    closed spec fn values_taken(carrier: &Channel<T>) -> Seq<T> {
        carrier.taken_values()
    }

    fn recv(carrier: &mut Channel<T>) -> (r: Result<T, ChannelError>)
        ensures
            r matches Err(e) ==> e == ChannelError::Disconnected
                || e == ChannelError::UnexpectedMessage,
    {
        match queue_recv(&carrier.rx) {
            Some(Msg::Val(v)) => {
                carrier.vals_taken = Ghost(carrier.vals_taken@.push(v));
                Ok(v)
            }
            Some(Msg::Choice(_)) => Err(ChannelError::UnexpectedMessage),
            None => Err(ChannelError::Disconnected),
        }
    }
}

impl<T> Carrier for Channel<T> {
    type SendChoiceErr = ChannelError;

    type RecvChoiceErr = ChannelError;

    closed spec fn choices_sent(&self) -> Seq<bool> {
        self.markers_sent@
    }

    closed spec fn choices_taken(&self) -> Seq<bool> {
        self.markers_taken@
    }

    fn send_choice(&mut self, choice: bool) -> (r: Result<(), ChannelError>)
        ensures
            r matches Err(e) ==> e == ChannelError::Disconnected,
    {
        if queue_send(&self.tx, Msg::Choice(choice)) {
            self.markers_sent = Ghost(self.markers_sent@.push(choice));
            Ok(())
        } else {
            Err(ChannelError::Disconnected)
        }
    }

    fn recv_choice(&mut self) -> (r: Result<bool, ChannelError>)
        ensures
            r matches Err(e) ==> e == ChannelError::Disconnected
                || e == ChannelError::UnexpectedMessage,
    {
        match queue_recv(&self.rx) {
            Some(Msg::Choice(b)) => {
                self.markers_taken = Ghost(self.markers_taken@.push(b));
                Ok(b)
            }
            Some(Msg::Val(_)) => Err(ChannelError::UnexpectedMessage),
            None => Err(ChannelError::Disconnected),
        }
    }
}

/// Builds a connected pair of raw carriers: what the first sends the
/// second receives, in order, and the other way round.  Hand them to
/// [`Chan::new`] to bind each to a protocol.
pub fn channel_pair<T>() -> (r: (Channel<T>, Channel<T>))
    ensures
        fresh_channel(r.0),
        fresh_channel(r.1),
{
    let (master_tx, slave_rx) = queue_pair::<Msg<T>>();
    let (slave_tx, master_rx) = queue_pair::<Msg<T>>();
    (
        Channel {
            tx: master_tx,
            rx: master_rx,
            vals_sent: Ghost(Seq::empty()),
            vals_taken: Ghost(Seq::empty()),
            markers_sent: Ghost(Seq::empty()),
            markers_taken: Ghost(Seq::empty()),
        },
        Channel {
            tx: slave_tx,
            rx: slave_rx,
            vals_sent: Ghost(Seq::empty()),
            vals_taken: Ghost(Seq::empty()),
            markers_sent: Ghost(Seq::empty()),
            markers_taken: Ghost(Seq::empty()),
        },
    )
}

/// Builds a conversation: two channel handles over one fresh pair of
/// in-process queues, the first at `proto`, the second at its dual, both
/// with empty recursion environments.
pub fn session_channel<T>(proto: Protocol) -> (r: (Chan<Channel<T>>, Chan<Channel<T>>))
    requires
        wf(proto, 0),
    ensures
        r.0@.proto == proto,
        r.1@.proto == dual(proto),
        r.0@.env == Seq::<Protocol>::empty(),
        r.1@.env == Seq::<Protocol>::empty(),
        state_wf(r.0@),
        state_wf(r.1@),
        r.1@ == dual_state(r.0@),
        fresh_channel(r.0.carrier()),
        fresh_channel(r.1.carrier()),
{
    let (master_carrier, slave_carrier) = channel_pair::<T>();
    let peer = proto.dual();
    proof {
        lemma_dual_wf(proto, 0);
    }
    let master = Chan::new(master_carrier, proto);
    let slave = Chan::new(slave_carrier, peer);
    proof {
        assert(dual_env(master@.env) =~= slave@.env);
    }
    (master, slave)
}

} // verus!
