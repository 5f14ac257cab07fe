//! The channel state machine.
//!
//! A [`Chan`] owns one endpoint's transport and a [`Session`]: the protocol
//! that remains and the recursion environment.  Every operation consumes
//! the handle and, when it succeeds, returns a handle whose declared state
//! is exactly the corresponding `step_*` successor of the old one, so a
//! verified caller always knows the precise remaining protocol.  The
//! contracts also tie each operation to the carrier's transcript: a send
//! appends exactly its payload, a choice step appends exactly one marker,
//! and an offer's outcome is fixed by the marker it took.
//!
//! A pick among branches travels as one boolean marker per step: passing
//! over a branch transmits `false`, taking a branch transmits `true`, so
//! picking branch `i` costs `i` `false` markers and one `true`.  Both duals
//! derive this walk from the same ordered list, so the encoding is agreed;
//! it is kept over a single integer tag so that each operation —
//! [`Chan::tail`], [`Chan::head`], [`Offers::option`] — moves exactly one
//! marker.

use vstd::prelude::*;

use crate::proto::Protocol;
use crate::proto::ProtoList;
use crate::proto::wf;
use crate::state::SessionState;
use crate::state::branch_seq;
use crate::state::lemma_branches_more;
use crate::state::lemma_step_enter_wf;
use crate::state::lemma_step_head_wf;
use crate::state::lemma_step_next_wf;
use crate::state::lemma_step_succ_wf;
use crate::state::lemma_step_tail_wf;
use crate::state::lemma_step_zero_wf;
use crate::state::state_wf;
use crate::state::step_enter;
use crate::state::step_head;
use crate::state::step_next;
use crate::state::step_succ;
use crate::state::step_tail;
use crate::state::step_zero;

verus! {

/// The transport a channel is bound to: it moves boolean choice markers
/// between the two endpoints; payload values move through [`ChannelSend`]
/// and [`ChannelRecv`].
///
/// A carrier keeps a transcript of its own endpoint's traffic: the markers
/// this endpoint handed over and the markers it took, oldest first.  The
/// method contracts tie every call to that transcript, so a channel
/// operation cannot claim a transition without the matching wire action.
pub trait Carrier: Sized {
    type SendChoiceErr;

    type RecvChoiceErr;

    /// The choice markers this endpoint has handed to the carrier, oldest
    /// first.
    spec fn choices_sent(&self) -> Seq<bool>;

    /// The choice markers this endpoint has taken from the carrier, oldest
    /// first.
    spec fn choices_taken(&self) -> Seq<bool>;

    /// Hands one choice marker to the carrier.
    fn send_choice(&mut self, choice: bool) -> (r: Result<(), Self::SendChoiceErr>)
        ensures
            r is Ok ==> final(self).choices_sent() == old(self).choices_sent().push(choice),
            r is Ok ==> final(self).choices_taken() == old(self).choices_taken(),
    ;

    /// Takes the next choice marker from the carrier, blocking for it.
    fn recv_choice(&mut self) -> (r: Result<bool, Self::RecvChoiceErr>)
        ensures
            r matches Ok(b) ==> final(self).choices_taken() == old(self).choices_taken().push(b),
            r is Ok ==> final(self).choices_sent() == old(self).choices_sent(),
    ;
}

/// A value that a carrier can transmit.  A successful send appends exactly
/// this value to the carrier's transcript of sent values and leaves the
/// marker transcripts alone.
pub trait ChannelSend<Crr: Carrier>: Sized {
    type Err;

    /// The values of this type that an endpoint has handed to the carrier,
    /// oldest first.
    spec fn values_sent(carrier: &Crr) -> Seq<Self>;

    fn send(self, carrier: &mut Crr) -> (r: Result<(), Self::Err>)
        ensures
            r is Ok ==> Self::values_sent(final(carrier)) == Self::values_sent(
                old(carrier),
            ).push(self),
            r is Ok ==> final(carrier).choices_sent() == old(carrier).choices_sent(),
            r is Ok ==> final(carrier).choices_taken() == old(carrier).choices_taken(),
    ;
}

/// A value that a carrier can deliver.  A successful receive appends the
/// delivered value to the carrier's transcript of taken values and leaves
/// the marker transcripts alone.
pub trait ChannelRecv<Crr: Carrier>: Sized {
    type Err;

    /// The values of this type that an endpoint has taken from the carrier,
    /// oldest first.
    spec fn values_taken(carrier: &Crr) -> Seq<Self>;

    fn recv(carrier: &mut Crr) -> (r: Result<Self, Self::Err>)
        ensures
            r matches Ok(v) ==> Self::values_taken(final(carrier)) == Self::values_taken(
                old(carrier),
            ).push(v),
            r is Ok ==> final(carrier).choices_sent() == old(carrier).choices_sent(),
            r is Ok ==> final(carrier).choices_taken() == old(carrier).choices_taken(),
    ;
}

/// One endpoint's position in a conversation: the remaining protocol and
/// the stack of recursion bodies in scope, innermost last.
pub struct Session {
    proto: Protocol,
    env: Vec<Protocol>,
}

impl View for Session {
    type V = SessionState;

    closed spec fn view(&self) -> SessionState {
        SessionState { proto: self.proto, env: self.env@ }
    }
}

/// A session-typed channel endpoint: a carrier plus the session that says
/// which operations are legal next.  Operations consume the handle; the
/// only sanctioned end of its life is [`Chan::close`], at `End`.
#[must_use]
pub struct Chan<SR> {
    carrier: SR,
    session: Session,
}

impl<SR> View for Chan<SR> {
    type V = SessionState;

    closed spec fn view(&self) -> SessionState {
        self.session@
    }
}

impl<SR> Chan<SR> {
    /// The carrier this endpoint owns, with its transcripts.
    pub closed spec fn carrier(&self) -> SR {
        self.carrier
    }

    /// Binds a carrier to a fresh conversation at `proto`, with an empty
    /// recursion environment.
    pub fn new(carrier: SR, proto: Protocol) -> (c: Chan<SR>)
        requires
            wf(proto, 0),
        ensures
            c@.proto == proto,
            c@.env == Seq::<Protocol>::empty(),
            state_wf(c@),
            c.carrier() == carrier,
    {
        let c = Chan { carrier, session: Session { proto, env: Vec::new() } };
        proof {
            assert(c@.env =~= Seq::<Protocol>::empty());
        }
        c
    }

    /// The protocol that remains for this endpoint.
    pub fn protocol(&self) -> (r: &Protocol)
        ensures
            *r == self@.proto,
    {
        &self.session.proto
    }

    /// How many recursion bodies are in scope.
    pub fn env_depth(&self) -> (n: usize)
        ensures
            n == self@.env.len(),
    {
        self.session.env.len()
    }

    /// Ends the conversation.  Legal only once no communication remains;
    /// this is the one sanctioned way to finish a handle's life.
    pub fn close(self)
        requires
            self@.proto is End,
    {
        let Chan { carrier: _, session: _ } = self;
    }

    /// Enters a recursive region: the body becomes the current protocol
    /// and is pushed onto the recursion environment.
    pub fn enter(self) -> (c: Chan<SR>)
        requires
            state_wf(self@),
            self@.proto is Rec,
        ensures
            c@ == step_enter(self@),
            state_wf(c@),
            c.carrier() == self.carrier(),
    {
        let ghost s = self@;
        let Chan { carrier, session } = self;
        let Session { proto, mut env } = session;
        match proto {
            Protocol::Rec(b) => {
                let body = *b;
                let restart = body.duplicate();
                env.push(body);
                proof {
                    lemma_step_enter_wf(s);
                }
                Chan { carrier, session: Session { proto: restart, env } }
            }
            _ => vstd::pervasive::unreached(),
        }
    }

    /// Restarts the innermost recursion body, leaving the environment as
    /// it is.  Legal only at `Var(0)`.
    pub fn zero(self) -> (c: Chan<SR>)
        requires
            state_wf(self@),
            self@.proto == Protocol::Var(0u64),
        ensures
            c@ == step_zero(self@),
            state_wf(c@),
            c.carrier() == self.carrier(),
    {
        let ghost s = self@;
        proof {
            lemma_step_zero_wf(s);
        }
        let Chan { carrier, session } = self;
        let Session { proto: _, env } = session;
        let restart = env[env.len() - 1].duplicate();
        Chan { carrier, session: Session { proto: restart, env } }
    }

    /// Pops the innermost recursion level on the way to an outer entry:
    /// `Var(n)` becomes `Var(n - 1)`.  Legal only at `Var(n)` with `n >= 1`.
    pub fn succ(self) -> (c: Chan<SR>)
        requires
            state_wf(self@),
            self@.proto matches Protocol::Var(n) && n >= 1,
        ensures
            c@ == step_succ(self@),
            state_wf(c@),
            c.carrier() == self.carrier(),
    {
        let ghost s = self@;
        proof {
            lemma_step_succ_wf(s);
        }
        let Chan { carrier, session } = self;
        let Session { proto, mut env } = session;
        match proto {
            Protocol::Var(n) => {
                let _ = env.pop();
                Chan { carrier, session: Session { proto: Protocol::Var(n - 1), env } }
            }
            _ => vstd::pervasive::unreached(),
        }
    }
}

impl<SR: Carrier> Chan<SR> {
    /// Transmits one value and advances past the `Send` node.  On a
    /// transport failure the handle is gone and the carrier's error is
    /// returned; the conversation cannot be resumed.
    pub fn send<T: ChannelSend<SR>>(self, v: T) -> (r: Result<Chan<SR>, T::Err>)
        requires
            state_wf(self@),
            self@.proto is Send,
        ensures
            r matches Ok(c) ==> c@ == step_next(self@) && state_wf(c@),
            r matches Ok(c) ==> T::values_sent(&c.carrier()) == T::values_sent(
                &self.carrier(),
            ).push(v),
            r matches Ok(c) ==> c.carrier().choices_sent() == self.carrier().choices_sent()
                && c.carrier().choices_taken() == self.carrier().choices_taken(),
    {
        let ghost s = self@;
        let Chan { mut carrier, session } = self;
        match v.send(&mut carrier) {
            Ok(()) => {
                let Session { proto, env } = session;
                match proto {
                    Protocol::Send(n) => {
                        proof {
                            lemma_step_next_wf(s);
                        }
                        Ok(Chan { carrier, session: Session { proto: *n, env } })
                    }
                    _ => vstd::pervasive::unreached(),
                }
            }
            Err(e) => Err(e),
        }
    }

    /// Waits for one value and advances past the `Recv` node, returning
    /// the successor handle together with the value.  Blocks until a value
    /// or a transport failure arrives.
    pub fn recv<T: ChannelRecv<SR>>(self) -> (r: Result<(Chan<SR>, T), T::Err>)
        requires
            state_wf(self@),
            self@.proto is Recv,
        ensures
            r matches Ok(p) ==> p.0@ == step_next(self@) && state_wf(p.0@),
            r matches Ok(p) ==> T::values_taken(&p.0.carrier()) == T::values_taken(
                &self.carrier(),
            ).push(p.1),
            r matches Ok(p) ==> p.0.carrier().choices_sent() == self.carrier().choices_sent()
                && p.0.carrier().choices_taken() == self.carrier().choices_taken(),
    {
        let ghost s = self@;
        let Chan { mut carrier, session } = self;
        match <T as ChannelRecv<SR>>::recv(&mut carrier) {
            Ok(v) => {
                let Session { proto, env } = session;
                match proto {
                    Protocol::Recv(n) => {
                        proof {
                            lemma_step_next_wf(s);
                        }
                        Ok((Chan { carrier, session: Session { proto: *n, env } }, v))
                    }
                    _ => vstd::pervasive::unreached(),
                }
            }
            Err(e) => Err(e),
        }
    }

    /// Actively picks the first branch of the choice list and signals the
    /// pick to the peer.
    pub fn head(self) -> (r: Result<Chan<SR>, SR::SendChoiceErr>)
        requires
            state_wf(self@),
            self@.proto is Choose,
        ensures
            r matches Ok(c) ==> c@ == step_head(self@) && state_wf(c@),
            r matches Ok(c) ==> c.carrier().choices_sent() == self.carrier().choices_sent().push(
                true,
            ) && c.carrier().choices_taken() == self.carrier().choices_taken(),
    {
        let ghost s = self@;
        let Chan { mut carrier, session } = self;
        match carrier.send_choice(true) {
            Ok(()) => {
                let Session { proto, env } = session;
                match proto {
                    Protocol::Choose(ProtoList::More(h, _)) => {
                        proof {
                            lemma_step_head_wf(s);
                        }
                        Ok(Chan { carrier, session: Session { proto: *h, env } })
                    }
                    _ => vstd::pervasive::unreached(),
                }
            }
            Err(e) => Err(e),
        }
    }

    /// Actively passes over the first branch of the choice list, signalling
    /// that to the peer, and stays at a choice over the remaining branches.
    /// Legal only while at least one branch would remain.
    pub fn tail(self) -> (r: Result<Chan<SR>, SR::SendChoiceErr>)
        requires
            state_wf(self@),
            self@.proto matches Protocol::Choose(l) && l@.len() >= 2,
        ensures
            r matches Ok(c) ==> c@ == step_tail(self@) && state_wf(c@),
            r matches Ok(c) ==> c.carrier().choices_sent() == self.carrier().choices_sent().push(
                false,
            ) && c.carrier().choices_taken() == self.carrier().choices_taken(),
    {
        let ghost s = self@;
        let Chan { mut carrier, session } = self;
        match carrier.send_choice(false) {
            Ok(()) => {
                let Session { proto, env } = session;
                match proto {
                    Protocol::Choose(ProtoList::More(_, t)) => {
                        proof {
                            lemma_step_tail_wf(s);
                        }
                        Ok(Chan { carrier, session: Session { proto: Protocol::Choose(*t), env } })
                    }
                    _ => vstd::pervasive::unreached(),
                }
            }
            Err(e) => Err(e),
        }
    }

    /// Passes over the first branch: the same operation as [`Chan::tail`].
    pub fn skip(self) -> (r: Result<Chan<SR>, SR::SendChoiceErr>)
        requires
            state_wf(self@),
            self@.proto matches Protocol::Choose(l) && l@.len() >= 2,
        ensures
            r matches Ok(c) ==> c@ == step_tail(self@) && state_wf(c@),
            r matches Ok(c) ==> c.carrier().choices_sent() == self.carrier().choices_sent().push(
                false,
            ) && c.carrier().choices_taken() == self.carrier().choices_taken(),
    {
        self.tail()
    }

    /// Passes over the first two branches of the choice list.
    pub fn skip2(self) -> (r: Result<Chan<SR>, SR::SendChoiceErr>)
        requires
            state_wf(self@),
            self@.proto matches Protocol::Choose(l) && l@.len() >= 3,
        ensures
            r matches Ok(c) ==> c@ == step_tail(step_tail(self@)) && state_wf(c@),
            r matches Ok(c) ==> c.carrier().choices_sent() == self.carrier().choices_sent().push(
                false,
            ).push(false) && c.carrier().choices_taken() == self.carrier().choices_taken(),
    {
        proof {
            lemma_skip_keeps_len(self@);
        }
        match self.tail() {
            Ok(c) => c.tail(),
            Err(e) => Err(e),
        }
    }

    /// Passes over the first three branches of the choice list.
    pub fn skip3(self) -> (r: Result<Chan<SR>, SR::SendChoiceErr>)
        requires
            state_wf(self@),
            self@.proto matches Protocol::Choose(l) && l@.len() >= 4,
        ensures
            r matches Ok(c) ==> c@ == step_tail(step_tail(step_tail(self@))) && state_wf(c@),
            r matches Ok(c) ==> c.carrier().choices_sent() == self.carrier().choices_sent().push(
                false,
            ).push(false).push(false) && c.carrier().choices_taken()
                == self.carrier().choices_taken(),
    {
        proof {
            lemma_skip_keeps_len(self@);
            lemma_skip_keeps_len(step_tail(self@));
        }
        match self.skip2() {
            Ok(c) => c.tail(),
            Err(e) => Err(e),
        }
    }

    /// Passes over the first four branches of the choice list.
    pub fn skip4(self) -> (r: Result<Chan<SR>, SR::SendChoiceErr>)
        requires
            state_wf(self@),
            self@.proto matches Protocol::Choose(l) && l@.len() >= 5,
        ensures
            r matches Ok(c) ==> c@ == step_tail(step_tail(step_tail(step_tail(self@))))
                && state_wf(c@),
            r matches Ok(c) ==> c.carrier().choices_sent() == self.carrier().choices_sent().push(
                false,
            ).push(false).push(false).push(false) && c.carrier().choices_taken()
                == self.carrier().choices_taken(),
    {
        proof {
            lemma_skip_keeps_len(self@);
            lemma_skip_keeps_len(step_tail(self@));
            lemma_skip_keeps_len(step_tail(step_tail(self@)));
        }
        match self.skip3() {
            Ok(c) => c.tail(),
            Err(e) => Err(e),
        }
    }
}

/// How an offer can fail.
#[derive(Debug, PartialEq, Eq)]
pub enum OfferError<E> {
    /// The transport failed while waiting for the peer's choice marker.
    Transport(E),
    /// The peer signalled a branch past the end of the offer list.  The two
    /// sides' protocols have diverged: a defect, not a recoverable state.
    OutOfRange,
}

/// The progress of walking an offer list.
enum BranchM<SR: Carrier, T> {
    /// A branch was selected and its handler has produced a value.
    Car(T),
    /// No branch selected yet; the channel waits at the remaining offers.
    Cdr(Chan<SR>),
    /// The offer failed.
    Fault(OfferError<SR::RecvChoiceErr>),
}

/// A passive choice in progress: feed it one handler per branch, in list
/// order, with [`Offers::option`], then collect the result with
/// [`Offers::finish`].
#[must_use]
pub struct Offers<SR: Carrier, T> {
    state: BranchM<SR, T>,
}

impl<SR: Carrier, T> Offers<SR, T> {
    /// No branch has been selected yet: handlers are still awaited.
    pub closed spec fn is_waiting(&self) -> bool {
        self.state is Cdr
    }

    /// The state of the channel still waiting at the remaining offers.
    pub closed spec fn waiting(&self) -> SessionState {
        match self.state {
            BranchM::Cdr(c) => c@,
            _ => vstd::pervasive::arbitrary(),
        }
    }

    /// The carrier of the channel still waiting at the remaining offers.
    pub closed spec fn waiting_carrier(&self) -> SR {
        match self.state {
            BranchM::Cdr(c) => c.carrier(),
            _ => vstd::pervasive::arbitrary(),
        }
    }

    /// An offer walk is in exactly one of its three states.
    pub proof fn lemma_state_exclusive(&self)
        ensures
            self.is_taken() || self.is_waiting() || self.is_fault(),
            !(self.is_taken() && self.is_waiting()),
            !(self.is_taken() && self.is_fault()),
            !(self.is_waiting() && self.is_fault()),
    {
    }

    /// A branch was selected and its handler has run.
    pub closed spec fn is_taken(&self) -> bool {
        self.state is Car
    }

    /// The value the selected branch's handler produced.
    pub closed spec fn taken(&self) -> T {
        match self.state {
            BranchM::Car(v) => v,
            _ => vstd::pervasive::arbitrary(),
        }
    }

    /// The offer failed.
    pub closed spec fn is_fault(&self) -> bool {
        self.state is Fault
    }

    /// How the offer failed.
    pub closed spec fn fault(&self) -> OfferError<SR::RecvChoiceErr> {
        match self.state {
            BranchM::Fault(e) => e,
            _ => vstd::pervasive::arbitrary(),
        }
    }

    /// Handles the first remaining branch of the offer.  If no branch was
    /// selected so far, one choice marker is taken from the peer: on `true`
    /// the handler runs on a channel at this branch, on `false` the walk
    /// moves past it.  A `false` marker past the last branch is a protocol
    /// violation and faults the offer.
    pub fn option<F: FnOnce(Chan<SR>) -> T>(self, handler: F) -> (r: Offers<SR, T>)
        requires
            self.is_waiting() ==> state_wf(self.waiting()) && self.waiting().proto is Offer,
            self.is_waiting() ==> forall|c: Chan<SR>|
                c@ == step_head(self.waiting()) && state_wf(c@) && c.carrier().choices_taken()
                    == self.waiting_carrier().choices_taken().push(true)
                    && c.carrier().choices_sent() == self.waiting_carrier().choices_sent()
                    ==> #[trigger] call_requires(handler, (c,)),
        ensures
            self.is_taken() ==> r.is_taken() && r.taken() == self.taken(),
            self.is_fault() ==> r.is_fault() && r.fault() == self.fault(),
            self.is_waiting() && r.is_taken() ==> exists|c: Chan<SR>|
                #[trigger] call_ensures(handler, (c,), r.taken()) && c@ == step_head(
                    self.waiting(),
                ) && state_wf(c@) && c.carrier().choices_taken()
                    == self.waiting_carrier().choices_taken().push(true)
                    && c.carrier().choices_sent() == self.waiting_carrier().choices_sent(),
            self.is_waiting() && r.is_waiting() ==> r.waiting() == step_tail(self.waiting())
                && state_wf(r.waiting()) && r.waiting().proto is Offer
                && r.waiting_carrier().choices_taken() == self.waiting_carrier().choices_taken().push(
                    false,
                ) && r.waiting_carrier().choices_sent() == self.waiting_carrier().choices_sent(),
            self.is_waiting() && r.is_fault() && r.fault() is OutOfRange ==> branch_seq(
                self.waiting().proto,
            ).len() == 1,
    {
        match self.state {
            BranchM::Car(v) => Offers { state: BranchM::Car(v) },
            BranchM::Fault(e) => Offers { state: BranchM::Fault(e) },
            BranchM::Cdr(chan) => {
                let ghost s = chan@;
                let ghost pre = chan.carrier();
                let Chan { mut carrier, session } = chan;
                match carrier.recv_choice() {
                    Err(e) => Offers { state: BranchM::Fault(OfferError::Transport(e)) },
                    Ok(true) => {
                        let Session { proto, env } = session;
                        match proto {
                            Protocol::Offer(ProtoList::More(h, _)) => {
                                proof {
                                    lemma_step_head_wf(s);
                                }
                                let c2 = Chan {
                                    carrier,
                                    session: Session { proto: *h, env },
                                };
                                let ghost c2g = c2;
                                let v = handler(c2);
                                let out = Offers::<SR, T> { state: BranchM::Car(v) };
                                proof {
                                    assert(out.taken() == v);
                                    assert(call_ensures(handler, (c2g,), out.taken()) && c2g@
                                        == step_head(s) && state_wf(c2g@) && c2g.carrier().choices_taken()
                                        == pre.choices_taken().push(true)
                                        && c2g.carrier().choices_sent() == pre.choices_sent());
                                }
                                out
                            }
                            _ => vstd::pervasive::unreached(),
                        }
                    }
                    Ok(false) => {
                        let Session { proto, env } = session;
                        match proto {
                            Protocol::Offer(ProtoList::More(_, t)) => {
                                match *t {
                                    ProtoList::Nil => {
                                        proof {
                                            match s.proto {
                                                Protocol::Offer(l) => lemma_branches_more(l),
                                                _ => {}
                                            }
                                        }
                                        Offers { state: BranchM::Fault(OfferError::OutOfRange) }
                                    }
                                    ProtoList::More(a, b) => {
                                        let rest = ProtoList::More(a, b);
                                        proof {
                                            match s.proto {
                                                Protocol::Offer(l) => {
                                                    lemma_branches_more(l);
                                                    lemma_branches_more(rest);
                                                }
                                                _ => {}
                                            }
                                            lemma_step_tail_wf(s);
                                        }
                                        Offers {
                                            state: BranchM::Cdr(
                                                Chan {
                                                    carrier,
                                                    session: Session {
                                                        proto: Protocol::Offer(rest),
                                                        env,
                                                    },
                                                },
                                            ),
                                        }
                                    }
                                }
                            }
                            _ => vstd::pervasive::unreached(),
                        }
                    }
                }
            }
        }
    }

    /// Collects the outcome once every branch has been offered: the
    /// selected handler's value, or the fault that ended the walk.
    pub fn finish(self) -> (r: Result<T, OfferError<SR::RecvChoiceErr>>)
        requires
            !self.is_waiting(),
        ensures
            r is Ok <==> self.is_taken(),
            r is Err <==> self.is_fault(),
            self.is_taken() ==> (r matches Ok(v) && v == self.taken()),
            self.is_fault() ==> (r matches Err(e) && e == self.fault()),
    {
        match self.state {
            BranchM::Car(v) => Ok(v),
            BranchM::Fault(e) => Err(e),
            BranchM::Cdr(_) => vstd::pervasive::unreached(),
        }
    }
}

impl<SR: Carrier> Chan<SR> {
    /// Starts a passive choice: the peer will navigate this offer list.
    /// Feed one handler per branch with [`Offers::option`], in list order.
    pub fn offer<T>(self) -> (r: Offers<SR, T>)
        requires
            state_wf(self@),
            self@.proto is Offer,
        ensures
            r.is_waiting(),
            r.waiting() == self@,
            r.waiting_carrier() == self.carrier(),
    {
        Offers { state: BranchM::Cdr(self) }
    }
}

/// Passing over a branch shortens the choice list by exactly one.
proof fn lemma_skip_keeps_len(s: SessionState)
    requires
        s.proto matches Protocol::Choose(l) && l@.len() >= 2,
    ensures
        step_tail(s).proto matches Protocol::Choose(t) && t@ == skip_one(s),
        step_tail(s).env == s.env,
{
    match s.proto {
        Protocol::Choose(l) => lemma_branches_more(l),
        _ => {}
    }
}

/// The branch list with its first element passed over.
spec fn skip_one(s: SessionState) -> Seq<Protocol> {
    match s.proto {
        Protocol::Choose(l) => l@.drop_first(),
        _ => Seq::empty(),
    }
}

} // verus!
