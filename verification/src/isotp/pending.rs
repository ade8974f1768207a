//! Request/response exchanges, and the frames that only say "wait".

use vstd::prelude::*;

use crate::error::{seen, Error};
use crate::time::Duration;

verus! {

/// A KWP2000/UDS negative response of the form `7F <sid> 78`.
pub open spec fn pending(resp: Seq<u8>) -> bool {
    resp.len() >= 3 && resp[0] == 0x7f && resp[2] == 0x78
}

/// A KWP2000/UDS negative response of the form `7F <sid> 78`
/// (requestCorrectlyReceived-**ResponsePending**): the ECU acknowledges the
/// request immediately and then sends the real response a beat later. A
/// [`UdsTransport::request`] must never hand this frame back as the answer; it
/// keeps reading until the true response arrives.
pub fn is_response_pending(resp: &[u8]) -> (r: bool)
    ensures
        r == pending(resp@),
{
    resp.len() >= 3 && resp[0] == 0x7f && resp[2] == 0x78
}

/// Upper bound on consecutive `7F .. 78` pending frames tolerated before a
/// `request` gives up and returns the pending frame (so the caller still sees
/// the NRC rather than blocking forever on a stuck ECU).
pub const MAX_RESPONSE_PENDING: u32 = 30;

/// A source of responses that is reached through a `C`: the device that a
/// channel runs on, or nothing where the source has all it needs.
pub trait Receive<C> {
    /// What the source's state comes to.
    type State;

    /// The state; an implementor that states nothing of itself leaves it open.
    open spec fn state(&self, via: &C) -> Self::State {
        arbitrary()
    }

    /// Whether responses can be asked for.
    open spec fn ready(&self, via: &C) -> bool {
        true
    }

    /// The next response, and the state after it.
    open spec fn receipt(state: Self::State, timeout: Duration) -> (
        Result<Seq<u8>, Error>,
        Self::State,
    ) {
        arbitrary()
    }

    /// The next response: the bare service bytes.
    fn recv(&mut self, via: &mut C, timeout: Duration) -> (r: Result<Vec<u8>, Error>)
        requires
            old(self).ready(old(via)),
        ensures
            final(self).ready(final(via)),
            (seen(r), final(self).state(final(via))) == Self::receipt(
                old(self).state(old(via)),
                timeout,
            ),
    ;
}

/// A response that only asks to wait.
pub open spec fn says_wait(r: Result<Seq<u8>, Error>) -> bool {
    r is Ok && pending(r->Ok_0)
}

/// The first response that is not a pending frame; after `budget` pending
/// frames, whatever comes next.
pub open spec fn drained<C, R: Receive<C>>(state: R::State, timeout: Duration, budget: nat) -> (
    Result<Seq<u8>, Error>,
    R::State,
)
    decreases budget,
{
    let (r, after) = R::receipt(state, timeout);
    if says_wait(r) && budget > 0 {
        drained::<C, R>(after, timeout, (budget - 1) as nat)
    } else {
        (r, after)
    }
}

/// Drive one request/response to completion: responses are read one after the
/// other, transparently swallowing up to [`MAX_RESPONSE_PENDING`] consecutive
/// `7F .. 78` responsePending frames, and the first non-pending response (or
/// the last pending one, if the ECU never finishes) is returned. The caller
/// performs the send before invoking this.
pub fn drain_pending<C, R: Receive<C>>(source: &mut R, via: &mut C, timeout: Duration) -> (r: Result<
    Vec<u8>,
    Error,
>)
    requires
        old(source).ready(old(via)),
    ensures
        final(source).ready(final(via)),
        (seen(r), final(source).state(final(via))) == drained::<C, R>(
            old(source).state(old(via)),
            timeout,
            MAX_RESPONSE_PENDING as nat,
        ),
{
    let mut left: u32 = MAX_RESPONSE_PENDING;
    loop
        invariant
            source.ready(via),
            drained::<C, R>(source.state(via), timeout, left as nat) == drained::<C, R>(
                old(source).state(old(via)),
                timeout,
                MAX_RESPONSE_PENDING as nat,
            ),
        decreases left,
    {
        let resp = source.recv(via, timeout)?;
        if is_response_pending(resp.as_slice()) && left > 0 {
            left = left - 1;
        } else {
            return Ok(resp);
        }
    }
}

/// The states a source passes through while it hands out `n` responses.
pub open spec fn after_receipts<C, R: Receive<C>>(state: R::State, timeout: Duration, n: nat) -> R::State
    decreases n,
{
    if n == 0 {
        state
    } else {
        after_receipts::<C, R>(R::receipt(state, timeout).1, timeout, (n - 1) as nat)
    }
}

/// Response `n` (counted from 0) that a source hands out.
pub open spec fn nth_receipt<C, R: Receive<C>>(state: R::State, timeout: Duration, n: nat) -> Result<
    Seq<u8>,
    Error,
> {
    R::receipt(after_receipts::<C, R>(state, timeout, n), timeout).0
}

/// Pending frames are swallowed, up to the bound: if `n` responses in a row are
/// pending frames and the next is not, that one is the answer, and no more than
/// the bound is ever swallowed.
pub proof fn lemma_pending_swallowed<C, R: Receive<C>>(
    state: R::State,
    timeout: Duration,
    n: nat,
    budget: nat,
)
    requires
        n <= budget,
        forall|i: nat|
            i < n ==> says_wait(#[trigger] nth_receipt::<C, R>(state, timeout, i)),
        n == budget || !says_wait(nth_receipt::<C, R>(state, timeout, n)),
    ensures
        drained::<C, R>(state, timeout, budget) == (
            nth_receipt::<C, R>(state, timeout, n),
            after_receipts::<C, R>(state, timeout, n + 1),
        ),
    decreases n,
{
    let (r, after) = R::receipt(state, timeout);
    assert(after_receipts::<C, R>(state, timeout, 1) == after) by {
        reveal_with_fuel(after_receipts, 2);
    }
    if n == 0 {
        assert(nth_receipt::<C, R>(state, timeout, 0) == r);
    } else {
        assert(nth_receipt::<C, R>(state, timeout, 0) == r);
        assert forall|i: nat| i < n - 1 implies says_wait(
            #[trigger] nth_receipt::<C, R>(after, timeout, i),
        ) by {
            assert(nth_receipt::<C, R>(after, timeout, i) == nth_receipt::<C, R>(
                state,
                timeout,
                i + 1,
            ));
        }
        assert(nth_receipt::<C, R>(after, timeout, (n - 1) as nat) == nth_receipt::<C, R>(
            state,
            timeout,
            n,
        ));
        lemma_pending_swallowed::<C, R>(after, timeout, (n - 1) as nat, (budget - 1) as nat);
    }
}

/// One request/response exchange: the shape UDS/KWP diagnostics need.
///
/// Implementations transparently consume `7F .. 78` responsePending frames
/// (`7F <sid> 78`, requestCorrectlyReceived-ResponsePending) and return the final
/// application response.
pub trait UdsTransport {
    /// What the transport's state comes to.
    type State;

    /// The state; an implementor that states nothing of itself leaves it open.
    open spec fn state(&self) -> Self::State {
        arbitrary()
    }

    /// Whether requests can be made.
    open spec fn ready(&self) -> bool {
        true
    }

    /// The response to a request, and the state after it.
    open spec fn exchange(state: Self::State, req: Seq<u8>, timeout: Duration) -> (
        Result<Seq<u8>, Error>,
        Self::State,
    ) {
        arbitrary()
    }

    fn request(&mut self, req: &[u8], timeout: Duration) -> (r: Result<Vec<u8>, Error>)
        requires
            old(self).ready(),
        ensures
            final(self).ready(),
            (seen(r), final(self).state()) == Self::exchange(old(self).state(), req@, timeout),
    ;
}

} // verus!
