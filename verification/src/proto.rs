//! The protocol grammar and the duality engine.
//!
//! A [`Protocol`] value describes the conversation that remains for one
//! endpoint.  [`dual`] maps it to the conversation the peer must follow;
//! [`wf`] says when a protocol is closed, that is, when every recursion
//! variable resolves to an enclosing recursion entry.

use vstd::prelude::*;

verus! {

/// One step of a conversation.
///
/// `Choose` and `Offer` carry an ordered, non-empty list of continuations;
/// the order is significant, since the position of the picked branch is what
/// travels over the wire.  `Rec` opens a recursive region and `Var(d)`
/// restarts the body of the recursion entry `d` levels up the enclosing
/// stack, `0` being the innermost.
///
/// The grammar carries no payload kind on `Send` and `Recv`: which Rust
/// type a step moves is fixed by the carrier binding — the `ChannelSend`
/// and `ChannelRecv` impls for the carrier — so kind agreement between the
/// two sides is the host type system's check, and a conversation that
/// mixes kinds carries them in one sum type.
#[derive(Debug, PartialEq, Eq)]
pub enum Protocol {
    /// No further communication; the conversation may close.
    End,
    /// Transmit one value, then continue with the payload.
    Send(Box<Protocol>),
    /// Wait for one value, then continue with the payload.
    Recv(Box<Protocol>),
    /// Actively pick one continuation out of the list and signal the pick.
    Choose(ProtoList),
    /// Wait to be told which continuation of the list the peer picked.
    Offer(ProtoList),
    /// Enter a recursive region whose body is the payload.
    Rec(Box<Protocol>),
    /// Restart the recursion entry this many levels up the stack.
    Var(u64),
}

/// An ordered list of protocol branches, as carried by `Choose` and `Offer`.
#[derive(Debug, PartialEq, Eq)]
pub enum ProtoList {
    Nil,
    More(Box<Protocol>, Box<ProtoList>),
}

/// The branches of a list, as a sequence.
pub open spec fn branches(l: ProtoList) -> Seq<Protocol>
    decreases l,
{
    match l {
        ProtoList::Nil => Seq::empty(),
        ProtoList::More(h, t) => seq![*h] + branches(*t),
    }
}

impl View for ProtoList {
    type V = Seq<Protocol>;

    open spec fn view(&self) -> Seq<Protocol> {
        branches(*self)
    }
}

/// The protocol the peer must follow: send and receive swap, choose and
/// offer swap element-wise, termination and recursion map to themselves.
pub open spec fn dual(p: Protocol) -> Protocol
    decreases p,
{
    match p {
        Protocol::End => Protocol::End,
        Protocol::Send(n) => Protocol::Recv(Box::new(dual(*n))),
        Protocol::Recv(n) => Protocol::Send(Box::new(dual(*n))),
        Protocol::Choose(l) => Protocol::Offer(dual_list(l)),
        Protocol::Offer(l) => Protocol::Choose(dual_list(l)),
        Protocol::Rec(b) => Protocol::Rec(Box::new(dual(*b))),
        Protocol::Var(n) => Protocol::Var(n),
    }
}

/// `dual`, applied to every branch of a list.
pub open spec fn dual_list(l: ProtoList) -> ProtoList
    decreases l,
{
    match l {
        ProtoList::Nil => ProtoList::Nil,
        ProtoList::More(h, t) => ProtoList::More(
            Box::new(dual(*h)),
            Box::new(dual_list(*t)),
        ),
    }
}

/// Duality is an involution: applying it twice gives the protocol back.
pub proof fn lemma_dual_involution(p: Protocol)
    ensures
        dual(dual(p)) == p,
    decreases p,
{
    match p {
        Protocol::End => {}
        Protocol::Send(n) => lemma_dual_involution(*n),
        Protocol::Recv(n) => lemma_dual_involution(*n),
        Protocol::Choose(l) => lemma_dual_list_involution(l),
        Protocol::Offer(l) => lemma_dual_list_involution(l),
        Protocol::Rec(b) => lemma_dual_involution(*b),
        Protocol::Var(_) => {}
    }
}

/// Involution, for every branch of a list.
pub proof fn lemma_dual_list_involution(l: ProtoList)
    ensures
        dual_list(dual_list(l)) == l,
    decreases l,
{
    match l {
        ProtoList::Nil => {}
        ProtoList::More(h, t) => {
            lemma_dual_involution(*h);
            lemma_dual_list_involution(*t);
        }
    }
}

/// Closedness of a protocol under `depth` enclosing recursion entries:
/// every `Var(d)` resolves to an entry at exactly depth `d`, and every
/// branch list is non-empty.
pub open spec fn wf(p: Protocol, depth: nat) -> bool
    decreases p,
{
    match p {
        Protocol::End => true,
        Protocol::Send(n) => wf(*n, depth),
        Protocol::Recv(n) => wf(*n, depth),
        Protocol::Choose(l) => l is More && wf_list(l, depth),
        Protocol::Offer(l) => l is More && wf_list(l, depth),
        Protocol::Rec(b) => wf(*b, depth + 1),
        Protocol::Var(n) => (n as nat) < depth,
    }
}

/// `wf`, for every branch of a list.
pub open spec fn wf_list(l: ProtoList, depth: nat) -> bool
    decreases l,
{
    match l {
        ProtoList::Nil => true,
        ProtoList::More(h, t) => wf(*h, depth) && wf_list(*t, depth),
    }
}

/// Duality preserves closedness at every depth.
pub proof fn lemma_dual_wf(p: Protocol, depth: nat)
    ensures
        wf(p, depth) ==> wf(dual(p), depth),
    decreases p,
{
    match p {
        Protocol::End => {}
        Protocol::Send(n) => lemma_dual_wf(*n, depth),
        Protocol::Recv(n) => lemma_dual_wf(*n, depth),
        Protocol::Choose(l) => lemma_dual_list_wf(l, depth),
        Protocol::Offer(l) => lemma_dual_list_wf(l, depth),
        Protocol::Rec(b) => lemma_dual_wf(*b, depth + 1),
        Protocol::Var(_) => {}
    }
}

/// `lemma_dual_wf`, for every branch of a list.
pub proof fn lemma_dual_list_wf(l: ProtoList, depth: nat)
    ensures
        wf_list(l, depth) ==> wf_list(dual_list(l), depth),
        dual_list(l) is More <==> l is More,
    decreases l,
{
    match l {
        ProtoList::Nil => {}
        ProtoList::More(h, t) => {
            lemma_dual_wf(*h, depth);
            lemma_dual_list_wf(*t, depth);
        }
    }
}

/// How many enclosing recursion entries a protocol needs to be closed:
/// `wf(p, d)` holds exactly when the shape is sound and `needed_depth(p) <= d`.
pub open spec fn needed_depth(p: Protocol) -> nat
    decreases p,
{
    match p {
        Protocol::End => 0,
        Protocol::Send(n) => needed_depth(*n),
        Protocol::Recv(n) => needed_depth(*n),
        Protocol::Choose(l) => needed_depth_list(l),
        Protocol::Offer(l) => needed_depth_list(l),
        Protocol::Rec(b) => if needed_depth(*b) == 0 {
            0
        } else {
            (needed_depth(*b) - 1) as nat
        },
        Protocol::Var(n) => n as nat + 1,
    }
}

/// The largest `needed_depth` over the branches of a list.
pub open spec fn needed_depth_list(l: ProtoList) -> nat
    decreases l,
{
    match l {
        ProtoList::Nil => 0,
        ProtoList::More(h, t) => if needed_depth(*h) >= needed_depth_list(*t) {
            needed_depth(*h)
        } else {
            needed_depth_list(*t)
        },
    }
}

/// Soundness of the shape alone: every branch list is non-empty.
pub open spec fn shape_ok(p: Protocol) -> bool
    decreases p,
{
    match p {
        Protocol::End => true,
        Protocol::Send(n) => shape_ok(*n),
        Protocol::Recv(n) => shape_ok(*n),
        Protocol::Choose(l) => l is More && shape_ok_list(l),
        Protocol::Offer(l) => l is More && shape_ok_list(l),
        Protocol::Rec(b) => shape_ok(*b),
        Protocol::Var(_) => true,
    }
}

/// `shape_ok`, for every branch of a list.
pub open spec fn shape_ok_list(l: ProtoList) -> bool
    decreases l,
{
    match l {
        ProtoList::Nil => true,
        ProtoList::More(h, t) => shape_ok(*h) && shape_ok_list(*t),
    }
}

/// `wf` decomposes into a sound shape and a bound on the needed depth.
pub proof fn lemma_wf_as_needed_depth(p: Protocol, depth: nat)
    ensures
        wf(p, depth) <==> shape_ok(p) && needed_depth(p) <= depth,
    decreases p,
{
    match p {
        Protocol::End => {}
        Protocol::Send(n) => lemma_wf_as_needed_depth(*n, depth),
        Protocol::Recv(n) => lemma_wf_as_needed_depth(*n, depth),
        Protocol::Choose(l) => lemma_wf_list_as_needed_depth(l, depth),
        Protocol::Offer(l) => lemma_wf_list_as_needed_depth(l, depth),
        Protocol::Rec(b) => lemma_wf_as_needed_depth(*b, depth + 1),
        Protocol::Var(_) => {}
    }
}

/// `lemma_wf_as_needed_depth`, for every branch of a list.
pub proof fn lemma_wf_list_as_needed_depth(l: ProtoList, depth: nat)
    ensures
        wf_list(l, depth) <==> shape_ok_list(l) && needed_depth_list(l) <= depth,
    decreases l,
{
    match l {
        ProtoList::Nil => {}
        ProtoList::More(h, t) => {
            lemma_wf_as_needed_depth(*h, depth);
            lemma_wf_list_as_needed_depth(*t, depth);
        }
    }
}

impl Protocol {
    /// The dual protocol, computed at run time.
    pub fn dual(&self) -> (r: Protocol)
        ensures
            r == dual(*self),
        decreases self,
    {
        match self {
            Protocol::End => Protocol::End,
            Protocol::Send(n) => Protocol::Recv(Box::new(n.dual())),
            Protocol::Recv(n) => Protocol::Send(Box::new(n.dual())),
            Protocol::Choose(l) => Protocol::Offer(l.dual_list()),
            Protocol::Offer(l) => Protocol::Choose(l.dual_list()),
            Protocol::Rec(b) => Protocol::Rec(Box::new(b.dual())),
            Protocol::Var(n) => Protocol::Var(*n),
        }
    }

    /// A structurally equal copy.
    pub fn duplicate(&self) -> (r: Protocol)
        ensures
            r == *self,
        decreases self,
    {
        match self {
            Protocol::End => Protocol::End,
            Protocol::Send(n) => Protocol::Send(Box::new(n.duplicate())),
            Protocol::Recv(n) => Protocol::Recv(Box::new(n.duplicate())),
            Protocol::Choose(l) => Protocol::Choose(l.duplicate()),
            Protocol::Offer(l) => Protocol::Offer(l.duplicate()),
            Protocol::Rec(b) => Protocol::Rec(Box::new(b.duplicate())),
            Protocol::Var(n) => Protocol::Var(*n),
        }
    }

    /// Whether this protocol may start a conversation: every recursion
    /// variable is resolved and every branch list is non-empty.
    pub fn check_well_formed(&self) -> (r: bool)
        ensures
            r == wf(*self, 0),
    {
        let (ok, need) = self.measure();
        proof {
            lemma_wf_as_needed_depth(*self, 0);
        }
        ok && need == 0
    }

    /// Shape soundness and needed recursion depth, in one pass.
    fn measure(&self) -> (r: (bool, u128))
        ensures
            r.0 == shape_ok(*self),
            r.1 == needed_depth(*self),
        decreases self,
    {
        match self {
            Protocol::End => (true, 0),
            Protocol::Send(n) => n.measure(),
            Protocol::Recv(n) => n.measure(),
            Protocol::Choose(l) => {
                let (ok, need) = l.measure_list();
                (matches!(l, ProtoList::More(_, _)) && ok, need)
            }
            Protocol::Offer(l) => {
                let (ok, need) = l.measure_list();
                (matches!(l, ProtoList::More(_, _)) && ok, need)
            }
            Protocol::Rec(b) => {
                let (ok, need) = b.measure();
                (ok, if need == 0 { 0 } else { need - 1 })
            }
            Protocol::Var(n) => (true, *n as u128 + 1),
        }
    }
}

impl ProtoList {
    /// The dual of every branch, computed at run time.
    pub fn dual_list(&self) -> (r: ProtoList)
        ensures
            r == dual_list(*self),
        decreases self,
    {
        match self {
            ProtoList::Nil => ProtoList::Nil,
            ProtoList::More(h, t) => ProtoList::More(
                Box::new(h.dual()),
                Box::new(t.dual_list()),
            ),
        }
    }

    /// A structurally equal copy.
    pub fn duplicate(&self) -> (r: ProtoList)
        ensures
            r == *self,
        decreases self,
    {
        match self {
            ProtoList::Nil => ProtoList::Nil,
            ProtoList::More(h, t) => ProtoList::More(
                Box::new(h.duplicate()),
                Box::new(t.duplicate()),
            ),
        }
    }

    /// Shape soundness and needed recursion depth over all branches.
    fn measure_list(&self) -> (r: (bool, u128))
        ensures
            r.0 == shape_ok_list(*self),
            r.1 == needed_depth_list(*self),
        decreases self,
    {
        match self {
            ProtoList::Nil => (true, 0),
            ProtoList::More(h, t) => {
                let (h_ok, h_need) = h.measure();
                let (t_ok, t_need) = t.measure_list();
                (h_ok && t_ok, if h_need >= t_need { h_need } else { t_need })
            }
        }
    }
}

} // verus!
