//! One-shot slots that hand values between the participants of a protocol.
//!
//! Two primitives share the idea of a slot that every participant touches
//! exactly once, either by depositing a value (`send`) or by bowing out
//! (`decline`), with the last participant to act inheriting the duty to
//! finalize the slot:
//!
//! - the rendezvous slot in this module: two sides race to deposit a value,
//!   exactly one side wins, and the other receives the winner's value back
//!   (a completed exchange) or a disconnection signal;
//! - the aggregation slot in [`array`]: any number of producers each own one
//!   cell of a shared result, and whoever finishes last collects everything
//!   that was deposited.
//!
//! The slot value itself is passed to every operation; each handle is a
//! move-only token whose consumption marks that its side has acted.

use vstd::prelude::*;

pub mod array;

verus! {

use core::marker::PhantomData;
use vstd::pervasive::unreached;

/// The observable states of a rendezvous slot.
///
/// A slot starts in `Init`. The first side to send moves it to `HasA` or
/// `HasB`, where its value waits for the peer. `Done` is terminal: the
/// exchange was resolved, or a side disconnected. Every operation runs to
/// completion before the slot is looked at again, so a half-written slot is
/// never observed.
pub enum State<A, B> {
    /// Neither side has committed anything yet.
    Init,
    /// The first side deposited a value and awaits the second.
    HasA(A),
    /// The second side deposited a value and awaits the first.
    HasB(B),
    /// The exchange is over: resolved, or abandoned by a disconnection.
    Done,
}

/// The outcome handed back to a sender whose send could not simply succeed.
#[derive(Debug, Clone, Copy, PartialEq, Eq, PartialOrd, Ord, Hash)]
pub enum SendError<P, Q> {
    /// The peer had already deposited its value: the exchange completed on
    /// this call, and both values return to the caller (own value first).
    Received(P, Q),
    /// The peer disconnected before sending; the own value comes back.
    Disconnected(P),
}

/// Relates a slot's state to which handles are still outstanding. This is
/// the protocol invariant: a side that already committed its value no longer
/// holds a handle, a fresh slot has both handles outstanding, and a `Done`
/// slot has at most one.
pub open spec fn protocol_inv<A, B>(s: State<A, B>, a_live: bool, b_live: bool) -> bool {
    &&& (s is Init ==> a_live && b_live)
    &&& (s is HasA ==> !a_live && b_live)
    &&& (s is HasB ==> a_live && !b_live)
    &&& (s is Done ==> !(a_live && b_live))
}

/// A one-shot exchange cell shared by two sending sides.
///
/// The slot records which of the two handles made for it are still
/// outstanding; once both have been consumed the slot is spent, and the
/// operation that consumed the second handle is the one that tore the
/// exchange down.
pub struct RendezvousSlot<A, B> {
    state: State<A, B>,
    a_live: Ghost<bool>,
    b_live: Ghost<bool>,
}

impl<A, B> RendezvousSlot<A, B> {
    /// The state the slot currently shows.
    pub closed spec fn state(self) -> State<A, B> {
        self.state
    }

    /// Whether the first side's handle is still outstanding.
    pub closed spec fn a_live(self) -> bool {
        self.a_live@
    }

    /// Whether the second side's handle is still outstanding.
    pub closed spec fn b_live(self) -> bool {
        self.b_live@
    }

    /// Well-formedness: the protocol invariant holds of the slot.
    pub open spec fn wf(self) -> bool {
        protocol_inv(self.state(), self.a_live(), self.b_live())
    }

    /// A spent slot: both handles are consumed, nothing will touch the slot
    /// again, and whichever operation consumed the second handle performed
    /// the teardown.
    pub open spec fn freed(self) -> bool {
        !self.a_live() && !self.b_live()
    }
}

/// The state after the first side sends `a`.
pub open spec fn a_send_next<A, B>(s: State<A, B>, a: A) -> State<A, B> {
    match s {
        State::Init => State::HasA(a),
        State::HasB(_) => State::Done,
        State::Done => State::Done,
        State::HasA(x) => State::HasA(x),
    }
}

/// What the first side's send returns, by the state it found.
pub open spec fn a_send_result<A, B>(s: State<A, B>, a: A) -> Result<(), SendError<A, B>> {
    match s {
        State::Init => Ok(()),
        State::HasB(b) => Err(SendError::Received(a, b)),
        State::Done => Err(SendError::Disconnected(a)),
        State::HasA(_) => Ok(()),
    }
}

/// The state after the second side sends `b`.
pub open spec fn b_send_next<A, B>(s: State<A, B>, b: B) -> State<A, B> {
    match s {
        State::Init => State::HasB(b),
        State::HasA(_) => State::Done,
        State::Done => State::Done,
        State::HasB(x) => State::HasB(x),
    }
}

/// What the second side's send returns, by the state it found.
pub open spec fn b_send_result<A, B>(s: State<A, B>, b: B) -> Result<(), SendError<B, A>> {
    match s {
        State::Init => Ok(()),
        State::HasA(a) => Err(SendError::Received(b, a)),
        State::Done => Err(SendError::Disconnected(b)),
        State::HasB(_) => Ok(()),
    }
}

/// The first side's handle on a rendezvous slot: the right to attempt one
/// send, or to decline by bowing out. Move-only; consumed by either use.
#[derive(Debug)]
pub struct ASender<A, B> {
    marker: PhantomData<(A, B)>,
}

/// The second side's handle on a rendezvous slot.
#[derive(Debug)]
pub struct BSender<A, B> {
    marker: PhantomData<(A, B)>,
}

impl<A, B> ASender<A, B> {
    /// Attempt to deposit `a` for the second side. Succeeds on a fresh slot;
    /// on a slot already holding the peer's value the exchange resolves here
    /// and both values come back; on a closed slot the value comes back with
    /// a disconnection signal.
    pub fn send(self, slot: &mut RendezvousSlot<A, B>, a: A) -> (r: Result<(), SendError<A, B>>)
        requires
            old(slot).wf(),
            old(slot).a_live(),
        ensures
            final(slot).wf(),
            !final(slot).a_live(),
            final(slot).b_live() == old(slot).b_live(),
            final(slot).state() == a_send_next(old(slot).state(), a),
            r == a_send_result(old(slot).state(), a),
            final(slot).freed() <==> !old(slot).b_live(),
    {
        slot.a_live = Ghost(false);
        let mut s = State::Done;
        core::mem::swap(&mut slot.state, &mut s);
        match s {
            State::Init => {
                slot.state = State::HasA(a);
                Ok(())
            }
            State::HasB(b) => Err(SendError::Received(a, b)),
            State::Done => Err(SendError::Disconnected(a)),
            State::HasA(_) => unreached(),
        }
    }

    /// Bow out without sending. The slot becomes `Done`; if the peer already
    /// deposited a value, that stranded value is discarded here.
    pub fn decline(self, slot: &mut RendezvousSlot<A, B>)
        requires
            old(slot).wf(),
            old(slot).a_live(),
        ensures
            final(slot).wf(),
            !final(slot).a_live(),
            final(slot).b_live() == old(slot).b_live(),
            final(slot).state() is Done,
            final(slot).freed() <==> !old(slot).b_live(),
    {
        slot.a_live = Ghost(false);
        slot.state = State::Done;
    }
}

impl<A, B> BSender<A, B> {
    /// Attempt to deposit `b` for the first side; the mirror image of
    /// [`ASender::send`].
    pub fn send(self, slot: &mut RendezvousSlot<A, B>, b: B) -> (r: Result<(), SendError<B, A>>)
        requires
            old(slot).wf(),
            old(slot).b_live(),
        ensures
            final(slot).wf(),
            !final(slot).b_live(),
            final(slot).a_live() == old(slot).a_live(),
            final(slot).state() == b_send_next(old(slot).state(), b),
            r == b_send_result(old(slot).state(), b),
            final(slot).freed() <==> !old(slot).a_live(),
    {
        slot.b_live = Ghost(false);
        let mut s = State::Done;
        core::mem::swap(&mut slot.state, &mut s);
        match s {
            State::Init => {
                slot.state = State::HasB(b);
                Ok(())
            }
            State::HasA(a) => Err(SendError::Received(b, a)),
            State::Done => Err(SendError::Disconnected(b)),
            State::HasB(_) => unreached(),
        }
    }

    /// Bow out without sending; the mirror image of [`ASender::decline`].
    pub fn decline(self, slot: &mut RendezvousSlot<A, B>)
        requires
            old(slot).wf(),
            old(slot).b_live(),
        ensures
            final(slot).wf(),
            !final(slot).b_live(),
            final(slot).a_live() == old(slot).a_live(),
            final(slot).state() is Done,
            final(slot).freed() <==> !old(slot).a_live(),
    {
        slot.b_live = Ghost(false);
        slot.state = State::Done;
    }
}

/// The state after the first side acts once: a deposit when `act` carries a
/// value, a decline otherwise.
pub open spec fn a_step<A, B>(s: State<A, B>, act: Option<A>) -> State<A, B> {
    match act {
        Some(a) => a_send_next(s, a),
        None => State::Done,
    }
}

/// The state after the second side acts once.
pub open spec fn b_step<A, B>(s: State<A, B>, act: Option<B>) -> State<A, B> {
    match act {
        Some(b) => b_send_next(s, b),
        None => State::Done,
    }
}

/// Rendezvous symmetry: from a fresh slot, whichever side commits first
/// succeeds outright, and the other side's send resolves the exchange,
/// receiving its own value paired with the winner's. In each order exactly
/// one side observes `Received`, and the slot ends `Done`.
pub proof fn rendezvous_symmetry<A, B>(a: A, b: B)
    ensures
        ({
            let s1 = a_send_next(State::<A, B>::Init, a);
            &&& a_send_result(State::<A, B>::Init, a) == Ok::<(), SendError<A, B>>(())
            &&& b_send_result(s1, b) == Err::<(), SendError<B, A>>(SendError::Received(b, a))
            &&& b_send_next(s1, b) is Done
        }),
        ({
            let s1 = b_send_next(State::<A, B>::Init, b);
            &&& b_send_result(State::<A, B>::Init, b) == Ok::<(), SendError<B, A>>(())
            &&& a_send_result(s1, a) == Err::<(), SendError<A, B>>(SendError::Received(a, b))
            &&& a_send_next(s1, a) is Done
        }),
{
}

/// Disconnection, first side's view: once the second side's handle is gone
/// without it ever having deposited a value, a send by the first side can
/// only come back `Disconnected` — never `Received`, and never plain
/// success.
pub proof fn disconnection_a<A, B>(s: State<A, B>, a_live: bool, b_live: bool, a: A)
    requires
        protocol_inv(s, a_live, b_live),
        a_live,
        !b_live,
        !(s is HasB),
    ensures
        a_send_result(s, a) == Err::<(), SendError<A, B>>(SendError::Disconnected(a)),
{
}

/// Disconnection, second side's view: the mirror image of
/// [`disconnection_a`].
pub proof fn disconnection_b<A, B>(s: State<A, B>, a_live: bool, b_live: bool, b: B)
    requires
        protocol_inv(s, a_live, b_live),
        b_live,
        !a_live,
        !(s is HasA),
    ensures
        b_send_result(s, b) == Err::<(), SendError<B, A>>(SendError::Disconnected(b)),
{
}

/// Exactly-once teardown: from a fresh slot, run the two handles in either
/// order, each sending or declining. After the first action one handle is
/// still outstanding, so the slot is not yet torn down; the second action —
/// and only it — leaves both handles consumed, so exactly one operation
/// inherits the teardown, and the slot ends `Done`. An action consumes its
/// own side's handle and never the peer's, whatever state it finds.
pub proof fn exactly_once_teardown<A, B>(a_act: Option<A>, b_act: Option<B>, a_first: bool)
    ensures
        ({
            let s0 = State::<A, B>::Init;
            let s1 = if a_first {
                a_step(s0, a_act)
            } else {
                b_step(s0, b_act)
            };
            let s2 = if a_first {
                b_step(s1, b_act)
            } else {
                a_step(s1, a_act)
            };
            let live1 = if a_first {
                (false, true)
            } else {
                (true, false)
            };
            &&& protocol_inv(s1, live1.0, live1.1)
            &&& protocol_inv(s2, false, false)
            &&& live1.0 || live1.1
            &&& s2 is Done
        }),
{
}

/// Create a rendezvous slot together with its two one-shot handles.
pub fn either<A, B>() -> (r: (RendezvousSlot<A, B>, ASender<A, B>, BSender<A, B>))
    ensures
        r.0.wf(),
        r.0.state() is Init,
        r.0.a_live(),
        r.0.b_live(),
{
    (
        RendezvousSlot { state: State::Init, a_live: Ghost(true), b_live: Ghost(true) },
        ASender { marker: PhantomData },
        BSender { marker: PhantomData },
    )
}

} // verus!
