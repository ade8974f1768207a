//! Toyota's CAN live-data services `A8` / `A1` / `A2`: the CAN counterpart of
//! the K-line per-LID poll. Engine (`7E0`), Hybrid (`7E2`) and HV-Battery
//! (`7E3`) serve live data through this three-step sequence over ISO-TP, not
//! through individual `21`/`22` reads:
//!
//! ```text
//! A8 01                  -> E8 01 <pid> <width> <width bytes> ...   enumerate every
//!                                                                 available PID + width
//! A1 <sub> <selection>   -> E1 <sub> <selection>   define a composite poll list (echoed)
//! A2 <listId>            -> E2 <listId> <packed>   poll that list; values concatenated
//! A3                     -> (no response)          tear the list down
//! ```
//!
//! Positive responses follow the `| 0x40` KWP convention (`A8->E8`, `A1->E1`,
//! `A2->E2`). The enumerated `A8 01` widths are what slice the packed `E2`
//! payload back into per-PID values.
//!
//! This client needs `send` + repeated `recv` (the `A8 01` enumeration streams
//! across several `E8 01` messages), which the one-shot
//! [`crate::isotp::UdsTransport`] seam doesn't expose; hence the small
//! [`IsoTpChannel`] trait.

use vstd::prelude::*;

use super::common::{after_echo, led_by, parse_positive, positive, strip_echo};
use super::error::{answered, done, DiagFault, Error};
use crate::bytes::{copy_range, push_all};
use crate::error::Error as CoreError;
use crate::isotp::client::{IsoTpLink, TpState};
use crate::isotp::pending::{drain_pending, drained, pending, Receive, MAX_RESPONSE_PENDING};
use crate::session::actor::Session;
use crate::session::device::Setup;
use crate::time::{millis, Duration};
use crate::transport::Transport;

verus! {

/// The `send` + `recv` pair the A8/A1/A2 sequence needs. [`IsoTpLink`] exposes
/// these; the trait is the seam that lets [`ToyotaCanLive`] be driven by a
/// scripted channel in tests.
pub trait IsoTpChannel: Receive<()> {
    /// How sending a payload ends, and the state after it.
    open spec fn dispatch(state: Self::State, payload: Seq<u8>) -> (
        Result<(), CoreError>,
        Self::State,
    ) {
        arbitrary()
    }

    /// Send one ISO-TP message (segmentation handled by the implementation).
    fn send(&mut self, payload: &[u8]) -> (r: Result<(), CoreError>)
        requires
            old(self).ready(&()),
        ensures
            final(self).ready(&()),
            (r, final(self).state(&())) == Self::dispatch(old(self).state(&()), payload@),
    ;
}

impl<T: Transport> IsoTpChannel for IsoTpLink<T> {
    open spec fn dispatch(state: (Session, Setup, TpState), payload: Seq<u8>) -> (
        Result<(), CoreError>,
        (Session, Setup, TpState),
    ) {
        let (r, s) = state.2.send(state.0, payload);
        (r, (s, state.1, state.2))
    }

    fn send(&mut self, payload: &[u8]) -> (r: Result<(), CoreError>) {
        self.tp.send(&mut self.dev, payload)
    }
}

/// One entry of the `A8 01` enumeration: a PID, its on-wire byte width, and the
/// support/validity mask the ECU reported for it (all-`0xFF` = fully supported).
#[derive(Debug, PartialEq, Eq)]
pub struct EnumeratedPid {
    /// The PID id (OBD mode-`01`-style, matching the datalist `request.id`).
    pub id: u8,
    /// Byte width of this PID's value in the packed `E2` poll response.
    pub width: u8,
    /// The `<width>` support/validity bytes the ECU returned after the width.
    pub support: Vec<u8>,
}

/// What an [`EnumeratedPid`] holds.
pub struct Pid {
    pub id: u8,
    pub width: u8,
    pub support: Seq<u8>,
}

impl View for EnumeratedPid {
    type V = Pid;

    open spec fn view(&self) -> Pid {
        Pid { id: self.id, width: self.width, support: self.support@ }
    }
}

/// The entries of a list.
pub open spec fn pids_of(list: Seq<EnumeratedPid>) -> Seq<Pid> {
    list.map_values(|p: EnumeratedPid| p@)
}

/// An enumeration with its entries and its error taken by their views.
pub open spec fn listed(r: Result<Vec<EnumeratedPid>, Error>) -> Result<Seq<Pid>, DiagFault> {
    match r {
        Ok(v) => Ok(pids_of(v@)),
        Err(e) => Err(e@),
    }
}

/// The complete entries of a `<pid> <width> <width bytes>` stream.
pub open spec fn pids_in(tlv: Seq<u8>) -> Seq<Pid>
    decreases tlv.len(),
{
    if tlv.len() < 2 || 2 + tlv[1] > tlv.len() {
        Seq::empty()
    } else {
        let end = 2 + tlv[1] as int;
        seq![Pid { id: tlv[0], width: tlv[1], support: tlv.subrange(2, end) }] + pids_in(
            tlv.skip(end),
        )
    }
}

/// The stream that spells a list of entries.
pub open spec fn tlv_of(pids: Seq<Pid>) -> Seq<u8>
    decreases pids.len(),
{
    if pids.len() == 0 {
        Seq::empty()
    } else {
        seq![pids[0].id, pids[0].width] + pids[0].support + tlv_of(pids.skip(1))
    }
}

/// A stream of entries is read back entry by entry, and a truncated entry at
/// its end is dropped rather than guessed.
pub proof fn lemma_enumeration_recovered(pids: Seq<Pid>, rest: Seq<u8>)
    requires
        forall|i: int| 0 <= i < pids.len() ==> (#[trigger] pids[i]).support.len() == pids[i].width,
        rest.len() < 2 || 2 + rest[1] > rest.len(),
    ensures
        pids_in(tlv_of(pids) + rest) == pids,
    decreases pids.len(),
{
    if pids.len() == 0 {
        assert(tlv_of(pids) + rest =~= rest);
        assert(pids_in(rest) =~= pids);
    } else {
        let s = tlv_of(pids) + rest;
        let later = pids.skip(1);
        assert forall|i: int| 0 <= i < later.len() implies (#[trigger] later[i]).support.len()
            == later[i].width by {
            assert(later[i] == pids[i + 1]);
        }
        lemma_enumeration_recovered(later, rest);
        let end = 2 + pids[0].width as int;
        assert(s[0] == pids[0].id && s[1] == pids[0].width);
        assert(s.subrange(2, end) =~= pids[0].support);
        assert(s.skip(end) =~= tlv_of(later) + rest);
        assert(pids_in(s) =~= pids);
    }
}

/// Parse a `<pid> <width> <width bytes>` TLV stream (the `A8` enumeration body,
/// after the `E8 <sub>` header) into [`EnumeratedPid`]s, appending to `out`. A
/// truncated trailing entry is dropped rather than guessed.
pub fn parse_pid_tlv(tlv: &[u8], out: &mut Vec<EnumeratedPid>)
    ensures
        pids_of(final(out)@) == pids_of(old(out)@) + pids_in(tlv@),
{
    let mut at: usize = 0;
    assert(tlv@.skip(0) =~= tlv@);
    while tlv.len() - at >= 2 && tlv[at + 1] as usize <= tlv.len() - at - 2
        invariant
            at <= tlv.len(),
            pids_of(out@) + pids_in(tlv@.skip(at as int)) == pids_of(old(out)@) + pids_in(tlv@),
        decreases tlv.len() - at,
    {
        let id: u8 = tlv[at];
        let width: u8 = tlv[at + 1];
        let end: usize = at + 2 + width as usize;
        let support = copy_range(tlv, at + 2, end);
        let pid = EnumeratedPid { id, width, support };
        proof {
            let rest = tlv@.skip(at as int);
            assert(rest.subrange(2, 2 + width as int) =~= support@);
            assert(rest.skip(2 + width as int) =~= tlv@.skip(end as int));
            assert(pids_of(out@.push(pid)) =~= pids_of(out@).push(pid@));
            assert(pids_of(out@).push(pid@) + pids_in(tlv@.skip(end as int)) =~= pids_of(out@)
                + pids_in(rest));
        }
        out.push(pid);
        at = end;
    }
    assert(pids_of(out@) + Seq::<Pid>::empty() =~= pids_of(out@));
}

/// The entries of a stream.
fn parsed_pids(tlv: &[u8]) -> (out: Vec<EnumeratedPid>)
    ensures
        pids_of(out@) == pids_in(tlv@),
{
    let mut out: Vec<EnumeratedPid> = Vec::new();
    assert(pids_of(out@) =~= Seq::empty());
    parse_pid_tlv(tlv, &mut out);
    assert(Seq::<Pid>::empty() + pids_in(tlv@) =~= pids_in(tlv@));
    out
}

/// A payload sent, and the answer to it, past any responsePending frames.
pub open spec fn exchanged<T: IsoTpChannel>(io: T::State, req: Seq<u8>, timeout: Duration) -> (
    Result<Seq<u8>, DiagFault>,
    T::State,
) {
    match T::dispatch(io, req) {
        (Err(e), after) => (Err(DiagFault::Transport(e)), after),
        (Ok(()), after) => match drained::<(), T>(after, timeout, MAX_RESPONSE_PENDING as nat) {
            (Err(e), after) => (Err(DiagFault::Transport(e)), after),
            (Ok(resp), after) => (Ok(resp), after),
        },
    }
}

/// The rounds after which an enumeration is taken to be complete.
pub const MAX_CHUNKS: u64 = u64::MAX;

/// The id an enumeration chunk begins with.
pub const ENUMERATION_ECHO: u8 = 0xe8;

/// The rest of an enumeration, after the stream `got`: chunks are joined to it
/// until a silence, in at most `rounds` rounds. Up to `patience` responsePending
/// frames are passed over before the next chunk, and up to
/// [`MAX_RESPONSE_PENDING`] in a row after that. The entries are those of the
/// whole stream, so an entry may begin in one chunk and end in the next.
pub open spec fn enumerated<T: IsoTpChannel>(
    io: T::State,
    gap: Duration,
    sub: u8,
    got: Seq<u8>,
    patience: nat,
    rounds: nat,
) -> (Result<Seq<Pid>, DiagFault>, T::State)
    decreases rounds,
{
    if rounds == 0 {
        (Ok(pids_in(got)), io)
    } else {
        let left = (rounds - 1) as nat;
        match T::receipt(io, gap) {
            (Err(CoreError::Timeout(_)), after) => (Ok(pids_in(got)), after),
            (Err(e), after) => (Err(DiagFault::Transport(e)), after),
            (Ok(resp), after) => if pending(resp) && patience > 0 {
                enumerated::<T>(after, gap, sub, got, (patience - 1) as nat, left)
            } else if resp.len() >= 3 && resp[0] == 0x7f {
                (Err(DiagFault::Negative { service: resp[1], nrc: resp[2] }), after)
            } else if resp.len() >= 2 && resp[0] == ENUMERATION_ECHO && resp[1] == sub {
                enumerated::<T>(
                    after,
                    gap,
                    sub,
                    got + resp.skip(2),
                    MAX_RESPONSE_PENDING as nat,
                    left,
                )
            } else {
                enumerated::<T>(after, gap, sub, got, MAX_RESPONSE_PENDING as nat, left)
            },
        }
    }
}

/// A Toyota CAN live-data session over one ECU's ISO-TP channel.
///
/// Construct the channel with the ECU's request id as `tx` and `tx + 8` as `rx`
/// (the Toyota response-id convention), then drive `enumerate_pids` ->
/// `define_poll_list` -> `poll_list` -> `teardown`.
pub struct ToyotaCanLive<T: IsoTpChannel> {
    io: T,
    timeout: Duration,
    /// Quiescence timeout for the streamed `A8` enumeration: how long to wait for
    /// the *next* `E8` chunk before deciding the enumeration is complete.
    enum_gap: Duration,
}

impl<T: IsoTpChannel> ToyotaCanLive<T> {
    /// The channel's state.
    pub closed spec fn io(&self) -> T::State {
        self.io.state(&())
    }

    /// The per-exchange timeout and the enumeration gap.
    pub closed spec fn waits(&self) -> (Duration, Duration) {
        (self.timeout, self.enum_gap)
    }

    /// Whether requests can be made.
    pub closed spec fn ready(&self) -> bool {
        self.io.ready(&())
    }

    /// Wrap a ready ISO-TP channel (defaults: 2 s per exchange, 300 ms enumeration
    /// gap).
    pub fn new(io: T) -> (r: ToyotaCanLive<T>)
        ensures
            r.io() == io.state(&()),
            r.waits() == (millis(2000), millis(300)),
            r.ready() == io.ready(&()),
    {
        ToyotaCanLive {
            io,
            timeout: Duration::from_secs(2),
            enum_gap: Duration::from_millis(300),
        }
    }

    /// Override the per-exchange timeout.
    pub fn with_timeout(self, timeout: Duration) -> (r: ToyotaCanLive<T>)
        ensures
            r.io() == self.io(),
            r.waits() == (timeout, self.waits().1),
            r.ready() == self.ready(),
    {
        ToyotaCanLive { io: self.io, timeout, enum_gap: self.enum_gap }
    }

    /// Override the enumeration quiescence gap (see
    /// [`enumerate_pids`](Self::enumerate_pids)).
    pub fn with_enum_gap(self, gap: Duration) -> (r: ToyotaCanLive<T>)
        ensures
            r.io() == self.io(),
            r.waits() == (self.waits().0, gap),
            r.ready() == self.ready(),
    {
        ToyotaCanLive { io: self.io, timeout: self.timeout, enum_gap: gap }
    }

    /// Recover the underlying channel.
    pub fn into_inner(self) -> (io: T)
        ensures
            io.state(&()) == self.io(),
            io.ready(&()) == self.ready(),
    {
        self.io
    }

    /// One send + response, transparently swallowing `7F .. 78` responsePending
    /// frames. The returned bytes still carry the service echo.
    fn exchange(&mut self, req: &[u8]) -> (r: Result<Vec<u8>, Error>)
        requires
            old(self).ready(),
        ensures
            final(self).ready(),
            final(self).waits() == old(self).waits(),
            (answered(r), final(self).io()) == exchanged::<T>(
                old(self).io(),
                req@,
                old(self).waits().0,
            ),
    {
        if let Err(e) = self.io.send(req) {
            return Err(Error::Transport(e));
        }
        match drain_pending(&mut self.io, &mut (), self.timeout) {
            Ok(resp) => Ok(resp),
            Err(e) => Err(Error::Transport(e)),
        }
    }

    /// `A8 <sub>`: enumerate every available PID with its width. `sub` is `0x01`
    /// for the primary data-list descriptor (`0x02` for the secondary page seen
    /// on the Engine ECU).
    ///
    /// The ECU streams the enumeration as one or more `E8 <sub>` messages; this
    /// reads until a [`enum_gap`](Self::with_enum_gap)-length silence, then parses
    /// the concatenated `<pid> <width> <width bytes>` TLV stream. A negative
    /// response other than responsePending is surfaced as [`Error::Negative`].
    pub fn enumerate_pids(&mut self, sub: u8) -> (r: Result<Vec<EnumeratedPid>, Error>)
        requires
            old(self).ready(),
        ensures
            final(self).ready(),
            final(self).waits() == old(self).waits(),
            (listed(r), final(self).io()) == match T::dispatch(
                old(self).io(),
                seq![0xa8u8, sub],
            ) {
                (Err(e), after) => (
                    Err::<Seq<Pid>, DiagFault>(DiagFault::Transport(e)),
                    after,
                ),
                (Ok(()), after) => enumerated::<T>(
                    after,
                    old(self).waits().1,
                    sub,
                    Seq::empty(),
                    MAX_RESPONSE_PENDING as nat,
                    MAX_CHUNKS as nat,
                ),
            },
    {
        let req: [u8; 2] = [0xa8, sub];
        assert(req@ =~= seq![0xa8u8, sub]);
        if let Err(e) = self.io.send(req.as_slice()) {
            return Err(Error::Transport(e));
        }
        let ghost sent = self.io();
        let mut stream: Vec<u8> = Vec::new();
        assert(stream@ =~= Seq::empty());
        let mut patience: u32 = MAX_RESPONSE_PENDING;
        let mut rounds: u64 = MAX_CHUNKS;
        while rounds > 0
            invariant
                self.ready(),
                self.waits() == old(self).waits(),
                T::dispatch(old(self).io(), seq![0xa8u8, sub]).0 is Ok,
                T::dispatch(old(self).io(), seq![0xa8u8, sub]).1 == sent,
                enumerated::<T>(
                    self.io(),
                    self.waits().1,
                    sub,
                    stream@,
                    patience as nat,
                    rounds as nat,
                ) == enumerated::<T>(
                    sent,
                    self.waits().1,
                    sub,
                    Seq::empty(),
                    MAX_RESPONSE_PENDING as nat,
                    MAX_CHUNKS as nat,
                ),
            decreases rounds,
        {
            rounds = rounds - 1;
            match self.io.recv(&mut (), self.enum_gap) {
                Ok(resp) => {
                    let waiting: bool = resp.len() >= 3 && resp[0] == 0x7f && resp[2] == 0x78;
                    if waiting && patience > 0 {
                        patience = patience - 1;
                    } else if resp.len() >= 3 && resp[0] == 0x7f {
                        return Err(Error::Negative { service: resp[1], nrc: resp[2] });
                    } else {
                        // Of anything else, only a chunk adds to the stream.
                        if resp.len() >= 2 && resp[0] == ENUMERATION_ECHO && resp[1] == sub {
                            let tail = &resp.as_slice()[2..resp.len()];
                            assert(tail@ =~= resp@.skip(2));
                            push_all(&mut stream, tail);
                        }
                        patience = MAX_RESPONSE_PENDING;
                    }
                },
                // A silence: the enumeration is complete.
                Err(CoreError::Timeout(_)) => {
                    return Ok(parsed_pids(stream.as_slice()));
                },
                Err(e) => {
                    return Err(Error::Transport(e));
                },
            }
        }
        Ok(parsed_pids(stream.as_slice()))
    }

    /// `A1 <sub> <members...>`: define a composite poll list. Two forms are seen
    /// on the wire: flat `A1 01 <pid ...>` and TLV `A1 06 <pid> <count> <sub ...>`;
    /// pass `sub` and the raw `members` bytes accordingly. Returns the echoed
    /// selection (the bytes after `E1`).
    pub fn define_poll_list(&mut self, sub: u8, members: &[u8]) -> (r: Result<Vec<u8>, Error>)
        requires
            old(self).ready(),
        ensures
            final(self).ready(),
            final(self).waits() == old(self).waits(),
            (answered(r), final(self).io()) == match exchanged::<T>(
                old(self).io(),
                seq![0xa1u8] + (seq![sub] + members@),
                old(self).waits().0,
            ) {
                (Err(e), after) => (Err::<Seq<u8>, DiagFault>(e), after),
                (Ok(resp), after) => (positive(0xa1, resp), after),
            },
    {
        let req = led_by(0xa1, led_by(sub, members).as_slice());
        let resp = self.exchange(req.as_slice())?;
        parse_positive(0xa1, resp)
    }

    /// `A2 <listId>`: poll the list defined under `listId`. Returns the packed
    /// value bytes (after the echoed `E2 <listId>`), to be sliced per member
    /// using the widths from [`enumerate_pids`](Self::enumerate_pids).
    pub fn poll_list(&mut self, list_id: u8) -> (r: Result<Vec<u8>, Error>)
        requires
            old(self).ready(),
        ensures
            final(self).ready(),
            final(self).waits() == old(self).waits(),
            (answered(r), final(self).io()) == match exchanged::<T>(
                old(self).io(),
                seq![0xa2u8, list_id],
                old(self).waits().0,
            ) {
                (Err(e), after) => (Err::<Seq<u8>, DiagFault>(e), after),
                (Ok(resp), after) => (
                    match positive(0xa2, resp) {
                        Err(e) => Err(e),
                        Ok(body) => after_echo(body, seq![list_id]),
                    },
                    after,
                ),
            },
    {
        let req: [u8; 2] = [0xa2, list_id];
        assert(req@ =~= seq![0xa2u8, list_id]);
        let resp = self.exchange(req.as_slice())?;
        let body = parse_positive(0xa2, resp)?;
        let echo: [u8; 1] = [list_id];
        assert(echo@ =~= seq![list_id]);
        strip_echo(body.as_slice(), echo.as_slice())
    }

    /// `A3`: tear the defined list(s) down. The ECU sends no response, so this
    /// only writes and never blocks on a read.
    pub fn teardown(&mut self) -> (r: Result<(), Error>)
        requires
            old(self).ready(),
        ensures
            final(self).ready(),
            final(self).waits() == old(self).waits(),
            (done(r), final(self).io()) == match T::dispatch(old(self).io(), seq![0xa3u8]) {
                (Err(e), after) => (Err::<(), DiagFault>(DiagFault::Transport(e)), after),
                (Ok(()), after) => (Ok(()), after),
            },
    {
        let req: [u8; 1] = [0xa3];
        assert(req@ =~= seq![0xa3u8]);
        match self.io.send(req.as_slice()) {
            Ok(()) => Ok(()),
            Err(e) => Err(Error::Transport(e)),
        }
    }
}

} // verus!
