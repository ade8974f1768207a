//! The PassThru services beside reading and writing, number by number.

use vstd::prelude::*;

use super::channels::{
    asked, keys_asked, lemma_filter_asks, lemma_keys, lemma_status_exchange, word_asked,
};
use super::codec::{
    lemma_ioctl_commands, lemma_message_commands, lemma_plain_commands, lemma_protocol_numbers,
    lemma_word_bytes,
};
use super::exchange::ms;
use super::passthru::{landed, lemma_ids, on_host, opened, ordinary};
use super::wire::{channel_word, low_first, number, ordered};
use crate::error::Error;
use crate::isotp::client::{IsoTpConfig, IsoTpPath, TpState};
use crate::j2534::msg::{code_for, PassMsg, PassthruMsg, SConfig};
use crate::j2534::shim::{
    IoctlIn, IoctlInput, IoctlOut, IoctlOutput, IoctlPlace, IoctlSpot, Shim, ShimState, Versions,
};
use crate::j2534::slot::SlotState;
use crate::session::actor::Session;
use crate::session::device::Device;
use crate::session::protocol::CanId;
use crate::text::cut_to_fit;
use crate::time::Instant;
use crate::transport::Transport;
use crate::types::{protocol_of, Cmd, ProtocolId};

verus! {

/// The bytes of a message that count: as many as it says, and at most a buffer.
pub open spec fn in_use(m: PassMsg) -> Seq<u8> {
    m.data.take(
        if m.data_size <= 4128 {
            m.data_size as int
        } else {
            4128
        },
    )
}

/// A slot whose session has moved on to `session`.
pub open spec fn moved(slot: SlotState, session: Session) -> SlotState {
    SlotState { session, ..slot }
}

/// The shim with one slot changed.
pub open spec fn slot_changed(s: ShimState, s1: ShimState, at: int, slot: SlotState) -> bool {
    s1.slots == s.slots.update(at, Some(slot)) && s1.epoch == s.epoch
}

/// FIVE_BAUD_INIT, which is 4, asks for sub-function 0x04, and FAST_INIT, which
/// is 5, for 0x05, each on the channel's protocol and with the bytes in use of
/// the input message. The key bytes that come back go into the caller's message.
pub proof fn lemma_ioctl_inits(
    s: ShimState,
    ch: u64,
    ioctl_id: u64,
    m: PassMsg,
    place: IoctlSpot,
)
    requires
        s.valid(),
        ordinary(s, ch),
        m.data.len() == 4128,
        m.data_size > 0,
        ioctl_id % 0x1_0000_0000 == 4 || ioctl_id % 0x1_0000_0000 == 5,
    ensures
        ({
            let (r, out, s1) = s.ioctl(ch, ioctl_id, IoctlIn::Msg(m), place);
            let slot = s.slots[ch - 0x100]->0;
            let after = s1.slots[ch - 0x100]->0;
            let p = slot.chan->0.proto;
            let sub = if ioctl_id % 0x1_0000_0000 == 4 {
                0x04u8
            } else {
                0x05u8
            };
            let order = ordered(0x0e, seq![sub] + channel_word(p) + in_use(m));
            let (keys, moved_on) = slot.session.kline_init(order);
            &&& keys_asked(slot.session, moved_on, keys, order)
            &&& slot_changed(s, s1, ch - 0x100, moved(slot, moved_on))
            &&& r is Ok <==> keys is Ok
            &&& r is Err ==> r->Err_0 == 0x07 && out == IoctlOut::Nothing
            &&& r is Ok && !(place is Msg) ==> out == IoctlOut::Nothing
            &&& r is Ok && place is Msg ==> {
                let n = keys->Ok_0.len();
                let reply = PassMsg {
                    protocol_id: number(p) as u32,
                    rx_status: 0,
                    tx_flags: 0,
                    timestamp: 0,
                    data_size: n as u32,
                    extra_data_index: n as u32,
                    data: keys->Ok_0,
                };
                &&& out is Msg
                &&& n <= 4128 ==> landed(place->Msg_0, out->Msg_0, 0, seq![reply])
            }
        }),
{
    lemma_ids(s, ch);
    let slot = s.slots[ch - 0x100]->0;
    let p = slot.chan->0.proto;
    lemma_ioctl_commands(p, 0, 0, in_use(m));
    lemma_protocol_numbers(0, p);
    let sub = if ioctl_id % 0x1_0000_0000 == 4 {
        0x04u8
    } else {
        0x05u8
    };
    let order = ordered(0x0e, seq![sub] + channel_word(p) + in_use(m));
    lemma_keys(slot.session, order);
}

/// An init without a message is refused, and nothing is asked.
pub proof fn lemma_ioctl_init_refused(
    s: ShimState,
    ch: u64,
    ioctl_id: u64,
    input: IoctlIn,
    place: IoctlSpot,
)
    requires
        s.valid(),
        ordinary(s, ch),
        ioctl_id % 0x1_0000_0000 == 4 || ioctl_id % 0x1_0000_0000 == 5,
        input is Msg ==> input->Msg_0.data_size == 0,
    ensures
        ({
            let (r, out, s1) = s.ioctl(ch, ioctl_id, input, place);
            &&& r == Err::<(), i32>(0x04)
            &&& out == IoctlOut::Nothing
            &&& s1.slots == s.slots
        }),
{
    lemma_ids(s, ch);
    let slot = s.slots[ch - 0x100]->0;
    assert(s.with_slot(ch - 0x100, slot).slots =~= s.slots);
}

/// READ_VBATT, which is 3, asks for sub-function 0x03 and hands out the word;
/// CLEAR_PERIODIC_MSGS, which is 9, for 0x09; 7, 8 and 10 ask for nothing and
/// succeed; what is not between 1 and 5 or 7 and 10 is not supported.
pub proof fn lemma_ioctl_plain(s: ShimState, ch: u64, ioctl_id: u64, input: IoctlIn, place: IoctlSpot)
    requires
        s.valid(),
    ensures
        ({
            let (r, out, s1) = s.ioctl(ch, ioctl_id, input, place);
            let id = ioctl_id % 0x1_0000_0000;
            let known = 1 <= id <= 5 || 7 <= id <= 10;
            let slot = s.slots[ch - 0x100]->0;
            let after = s1.slots[ch - 0x100]->0;
            let p = slot.chan->0.proto;
            &&& !known ==> r == Err::<(), i32>(0x01) && s1.slots == s.slots
            &&& known && !ordinary(s, ch) ==> r == Err::<(), i32>(0x02) && s1.slots == s.slots
            &&& id == 3 && ordinary(s, ch) && place is Null ==> {
                r == Err::<(), i32>(0x04) && s1.slots == s.slots
            }
            &&& id == 3 && ordinary(s, ch) && !(place is Null) ==> {
                let order = ordered(0x0e, seq![0x03u8] + channel_word(p));
                let (word, moved_on) = slot.session.ask_word(
                    order,
                    ms(1000),
                    "not a read-vbatt reply",
                );
                &&& word_asked(slot.session, moved_on, word, order, 1000)
                &&& slot_changed(s, s1, ch - 0x100, moved(slot, moved_on))
                &&& word matches Ok(v) ==> r is Ok && out == IoctlOut::Voltage(v)
                &&& word matches Err(e) ==> r == Err::<(), i32>(code_for(e)) && out
                    == IoctlOut::Nothing
            }
            &&& id == 9 && ordinary(s, ch) ==> {
                let order = ordered(0x0e, seq![0x09u8] + channel_word(p));
                let (did, moved_on) = slot.session.on_status(order, Cmd::Ioctl, ms(1000));
                &&& asked(slot.session, moved_on, did, order, 1000, 0x0e)
                &&& slot_changed(s, s1, ch - 0x100, moved(slot, moved_on))
                &&& did is Ok <==> r is Ok
                &&& did matches Err(e) ==> r == Err::<(), i32>(code_for(e))
            }
            &&& (id == 7 || id == 8 || id == 10) && ordinary(s, ch) ==> {
                r is Ok && out == IoctlOut::Nothing && s1 == s
            }
        }),
{
    lemma_ids(s, ch);
    let slot = s.slots[ch - 0x100]->0;
    if ordinary(s, ch) {
        let p = slot.chan->0.proto;
        lemma_ioctl_commands(p, 0, 0, Seq::empty());
        let order = ordered(0x0e, seq![0x03u8] + channel_word(p));
        if let Ok(reply) = slot.session.on_transact(order, ms(1000)).0 {
            lemma_word_bytes(reply, "not a read-vbatt reply");
        }
        lemma_status_exchange(
            slot.session,
            ordered(0x0e, seq![0x09u8] + channel_word(p)),
            Cmd::Ioctl,
            1000,
        );
    }
}

/// SET_CONFIG, which is 2, sets each parameter of the list in turn, with
/// sub-function 0x02, up to the first that fails.
pub proof fn lemma_set_configs(slot: SlotState, params: Seq<SConfig>, k: nat)
    requires
        slot.chan is Some,
    ensures
        ({
            let (r, after) = slot.set_configs(params, k);
            let p = slot.chan->0.proto;
            let one = params[k as int];
            let order = ordered(
                0x0e,
                seq![0x02u8] + channel_word(p) + low_first(one.parameter as nat, 4) + low_first(
                    one.value as nat,
                    4,
                ),
            );
            let (did, moved_on) = slot.session.on_status(order, Cmd::Ioctl, ms(2000));
            if k >= params.len() {
                r is Ok && after == slot
            } else {
                &&& asked(slot.session, moved_on, did, order, 2000, 0x0e)
                &&& did is Ok ==> (r, after) == moved(slot, moved_on).set_configs(params, k + 1)
                &&& did matches Err(e) ==> {
                    r is Err && r->Err_0.code == code_for(e) && after == moved(slot, moved_on)
                }
            }
        }),
{
    let p = slot.chan->0.proto;
    if k < params.len() {
        let one = params[k as int];
        lemma_ioctl_commands(p, one.parameter, one.value, Seq::empty());
        lemma_status_exchange(
            slot.session,
            crate::codec::inner::set_config_cmd(p, one.parameter, one.value),
            Cmd::Ioctl,
            2000,
        );
    }
}

/// GET_CONFIG, which is 1, reads each parameter of the list in turn, with
/// sub-function 0x01, and fills in its value, up to the first that fails.
pub proof fn lemma_get_configs(slot: SlotState, params: Seq<SConfig>, k: nat)
    requires
        slot.chan is Some,
    ensures
        ({
            let (r, filled, after) = slot.get_configs(params, k);
            let p = slot.chan->0.proto;
            let one = params[k as int];
            let order = ordered(
                0x0e,
                seq![0x01u8] + channel_word(p) + low_first(one.parameter as nat, 4),
            );
            let (word, moved_on) = slot.session.ask_word(order, ms(2000), "not a get-config reply");
            if k >= params.len() {
                r is Ok && filled == params && after == slot
            } else {
                &&& word_asked(slot.session, moved_on, word, order, 2000)
                &&& word matches Ok(v) ==> {
                    let more = params.update(
                        k as int,
                        SConfig { parameter: one.parameter, value: v },
                    );
                    (r, filled, after) == moved(slot, moved_on).get_configs(more, k + 1)
                }
                &&& word matches Err(e) ==> {
                    &&& r is Err && r->Err_0.code == code_for(e)
                    &&& filled == params && after == moved(slot, moved_on)
                }
            }
        }),
{
    let p = slot.chan->0.proto;
    if k < params.len() {
        let one = params[k as int];
        lemma_ioctl_commands(p, one.parameter, 0, Seq::empty());
        let order = crate::codec::inner::get_config_cmd(p, one.parameter);
        if let Ok(reply) = slot.session.on_transact(order, ms(2000)).0 {
            lemma_word_bytes(reply, "not a get-config reply");
        }
    }
}

/// The two config calls work on the list they are given, and are refused without
/// one.
pub proof fn lemma_ioctl_configs(s: ShimState, ch: u64, ioctl_id: u64, input: IoctlIn, place: IoctlSpot)
    requires
        s.valid(),
        ordinary(s, ch),
        ioctl_id % 0x1_0000_0000 == 1 || ioctl_id % 0x1_0000_0000 == 2,
    ensures
        ({
            let (r, out, s1) = s.ioctl(ch, ioctl_id, input, place);
            let slot = s.slots[ch - 0x100]->0;
            match input {
                IoctlIn::Configs(params) => if ioctl_id % 0x1_0000_0000 == 2 {
                    let (did, after) = slot.set_configs(params, 0);
                    &&& slot_changed(s, s1, ch - 0x100, after)
                    &&& did is Ok <==> r is Ok
                    &&& did matches Err(f) ==> r == Err::<(), i32>(f.code)
                } else {
                    let (did, filled, after) = slot.get_configs(params, 0);
                    &&& slot_changed(s, s1, ch - 0x100, after)
                    &&& out == IoctlOut::Configs(filled)
                    &&& did is Ok <==> r is Ok
                    &&& did matches Err(f) ==> r == Err::<(), i32>(f.code)
                },
                _ => r == Err::<(), i32>(0x04) && s1.slots == s.slots,
            }
        }),
{
    lemma_ids(s, ch);
}

/// A filter on an ordinary channel: one byte wide on K-line, four on CAN, five
/// where the flow-control message asks for an address. It gets the next handle
/// from 0x000e7a00 on, which is its id on the wire; a message shorter than the
/// width is refused.
pub proof fn lemma_chan_filter(
    slot: SlotState,
    ftype: u32,
    mask: PassMsg,
    pattern: PassMsg,
    flow: Option<PassMsg>,
)
    requires
        slot.chan is Some,
        mask.data.len() == 4128,
        pattern.data.len() == 4128,
        flow is Some ==> flow->0.data.len() == 4128,
    ensures
        ({
            let (r, after) = slot.chan_filter(ftype, mask, pattern, flow);
            let p = slot.chan->0.proto;
            let can = p == ProtocolId::Can || p == ProtocolId::Iso15765;
            let width = if !can {
                1int
            } else if flow is Some && flow->0.tx_flags & 0x80 != 0 {
                5
            } else {
                4
            };
            let id = (0x000e_7a00 + slot.next_id % 256) as u32;
            let last = match flow {
                Some(f) => f.data.take(width),
                None => Seq::new(width as nat, |i: int| 0u8),
            };
            let order = ordered(
                0x0b,
                channel_word(p) + low_first(id as nat, 4) + low_first(ftype as nat, 4)
                    + mask.data.take(width) + pattern.data.take(width) + last,
            );
            if mask.data_size < width || pattern.data_size < width || (flow is Some
                && flow->0.data_size < width) {
                r is Err && r->Err_0.code == 0x0a && after == slot
            } else {
                let (did, moved_on) = slot.session.start_filter(
                    p,
                    id,
                    ftype,
                    mask.data.take(width),
                    pattern.data.take(width),
                    match flow {
                        Some(f) => Some(f.data.take(width)),
                        None => None,
                    },
                    width as usize,
                );
                &&& asked(slot.session, moved_on, did, order, 2000, 0x0b)
                &&& after.session == moved_on
                &&& slot.next_id < u32::MAX ==> after.next_id == slot.next_id + 1
                &&& did is Ok ==> r == Ok::<u32, crate::j2534::msg::Fault>(id)
                &&& did matches Err(e) ==> r is Err && r->Err_0.code == code_for(e)
                &&& did is Ok && slot.chan->0.nfilters < usize::MAX ==> after.chan is Some
                    && after.chan->0.nfilters == slot.chan->0.nfilters + 1
                &&& did is Err ==> after.chan == slot.chan
                &&& after == (SlotState {
                    session: after.session,
                    chan: after.chan,
                    next_id: after.next_id,
                    ..slot
                })
            }
        }),
{
    let p = slot.chan->0.proto;
    lemma_protocol_numbers(0, p);
    let can = p == ProtocolId::Can || p == ProtocolId::Iso15765;
    let width = if !can {
        1int
    } else if flow is Some && flow->0.tx_flags & 0x80 != 0 {
        5
    } else {
        4
    };
    let id = (0x000e_7a00 + slot.next_id % 256) as u32;
    let m = mask.data.take(width);
    let q = pattern.data.take(width);
    let fl = match flow {
        Some(f) => Some(f.data.take(width)),
        None => None,
    };
    lemma_filter_asks(slot.session, p, id, ftype, m, q, fl, width as usize);
    assert(m.take(width) =~= m);
    assert(q.take(width) =~= q);
    if let Some(f) = fl {
        assert(f.take(width) =~= f);
    }
}

/// A filter on a host channel carries the endpoints: it listens to the pattern's
/// identifier and sends to the flow-control message's, both long where that
/// message says so, with an address byte where it asks for one.
pub proof fn lemma_host_filter(slot: SlotState, ftype: u32, pattern: PassMsg, flow: Option<PassMsg>)
    requires
        slot.host is Some,
        pattern.data.len() == 4128,
        flow is Some ==> flow->0.data.len() == 4128,
    ensures
        ({
            let (r, after) = slot.host_filter(ftype, pattern, flow);
            let f = flow->0;
            let long = f.tx_flags & 0x100 != 0;
            if ftype != 3 || flow is None || pattern.data_size < 4 || f.data_size < 4 {
                r is Err && r->Err_0.code == 0x0a && after == slot
            } else {
                let tp = after.host->0;
                &&& after.host is Some
                &&& tp.path == slot.host->0.path
                &&& tp.cfg.tx_id == named(f.data, long)
                &&& tp.cfg.rx_id == named(pattern.data, long)
                &&& tp.cfg.ext_addr == if f.tx_flags & 0x80 != 0 && f.data_size >= 5 {
                    Some(f.data[4])
                } else {
                    None
                }
                &&& r matches Ok(id) ==> id == 0x000e_7c00
                &&& (TpState { chan: slot.host->0.chan, ..tp }).install(slot.session).0 is Ok
                    <==> r is Ok
                &&& (TpState { chan: slot.host->0.chan, ..tp }).install(slot.session).2
                    == after.session
                &&& tp.cfg == (IsoTpConfig {
                    tx_id: tp.cfg.tx_id,
                    rx_id: tp.cfg.rx_id,
                    ext_addr: tp.cfg.ext_addr,
                    ..slot.host->0.cfg
                })
                &&& after == (SlotState { session: after.session, host: after.host, ..slot })
            }
        }),
{
}

/// The identifier that the first four bytes of a buffer name, the highest first.
pub open spec fn named(b: Seq<u8>, long: bool) -> CanId {
    let v = b[3] + 256 * b[2] + 65536 * b[1] + 16777216 * b[0];
    if long {
        CanId::Ext((v % 0x2000_0000) as u32)
    } else {
        CanId::Std((v % 0x800) as u16)
    }
}

/// The checks before a filter is set, and where it is set.
pub proof fn lemma_start_filter(
    s: ShimState,
    ch: u64,
    kind: u64,
    mask: Option<PassMsg>,
    pattern: Option<PassMsg>,
    flow: Option<PassMsg>,
    wanted: bool,
)
    requires
        s.valid(),
    ensures
        ({
            let (r, s1) = s.start_msg_filter(ch, kind, mask, pattern, flow, wanted);
            let ftype = (kind % 0x1_0000_0000) as u32;
            let slot = s.slots[ch - 0x100]->0;
            if mask is None || pattern is None || !wanted {
                r == Err::<u64, i32>(0x04) && s1.slots == s.slots
            } else if ftype < 1 || ftype > 3 {
                r == Err::<u64, i32>(0x0a) && s1.slots == s.slots
            } else if ftype == 3 && flow is None {
                r == Err::<u64, i32>(0x04) && s1.slots == s.slots
            } else if ftype != 3 && flow is Some {
                r == Err::<u64, i32>(0x0a) && s1.slots == s.slots
            } else if on_host(s, ch) {
                let (did, after) = slot.host_filter(ftype, pattern->0, flow);
                slot_changed(s, s1, ch - 0x100, after) && told(r, did)
            } else if ordinary(s, ch) {
                let (did, after) = slot.chan_filter(ftype, mask->0, pattern->0, flow);
                slot_changed(s, s1, ch - 0x100, after) && told(r, did)
            } else {
                r == Err::<u64, i32>(0x02) && s1.slots == s.slots
            }
        }),
{
    lemma_ids(s, ch);
}

/// Whether a caller is told the handle, or the code of the failure.
pub open spec fn told(r: Result<u64, i32>, did: Result<u32, crate::j2534::msg::Fault>) -> bool {
    match did {
        Ok(id) => r == Ok::<u64, i32>(id as u64),
        Err(f) => r == Err::<u64, i32>(f.code),
    }
}

/// Stopping a filter on an ordinary channel asks for the handle's number; on a
/// host channel nothing is asked.
pub proof fn lemma_stop_filter(s: ShimState, id: u64, arg: u64)
    requires
        s.valid(),
    ensures
        on_host(s, id) ==> s.stop_msg_filter(id, arg) == (Ok::<(), i32>(()), s),
        ordinary(s, id) && !on_host(s, id) ==> {
            let slot = s.slots[id - 0x100]->0;
            let p = slot.chan->0.proto;
            let h = (arg % 0x1_0000_0000) as nat;
            let (r, s1) = s.stop_msg_filter(id, arg);
            let order = ordered(0x0c, channel_word(p) + low_first(h, 4) + seq![0u8, 0, 0, 0]);
            let (did, moved_on) = slot.session.on_status(order, Cmd::StopMsgFilter, ms(2000));
            let after = s1.slots[id - 0x100]->0;
            &&& asked(slot.session, moved_on, did, order, 2000, 0x0c)
            &&& slot_changed(s, s1, id - 0x100, after)
            &&& after == (SlotState { session: moved_on, chan: after.chan, ..slot })
            &&& did is Ok <==> r is Ok
            &&& r is Err ==> r->Err_0 == 0x16 && after.chan == slot.chan
            &&& r is Ok ==> after.chan is Some && after.chan->0.proto == p
            &&& r is Ok && slot.chan->0.nfilters > 0 ==> after.chan->0.nfilters
                == slot.chan->0.nfilters - 1
        },
        !ordinary(s, id) && !on_host(s, id) ==> {
            let (r, s1) = s.stop_msg_filter(id, arg);
            r == Err::<(), i32>(0x02) && s1.slots == s.slots
        },
{
    lemma_ids(s, id);
    let low = (arg % 0x1_0000_0000) as u32;
    if ordinary(s, id) {
        let slot = s.slots[id - 0x100]->0;
        let p = slot.chan->0.proto;
        lemma_message_commands(p, 0, Seq::empty(), low, 0);
        let zeros = seq![0u8, 0, 0, 0];
        lemma_status_exchange(
            slot.session,
            ordered(0x0c, channel_word(p) + low_first(low as nat, 4) + zeros),
            Cmd::StopMsgFilter,
            2000,
        );
    }
}

/// Stopping a periodic message asks for the handle's number.
pub proof fn lemma_stop_periodic(s: ShimState, id: u64, arg: u64)
    requires
        s.valid(),
        ordinary(s, id),
    ensures
        ({
            let slot = s.slots[id - 0x100]->0;
            let p = slot.chan->0.proto;
            let h = (arg % 0x1_0000_0000) as nat;
            let (r, s1) = s.stop_periodic_msg(id, arg);
            let order = ordered(0x10, channel_word(p) + low_first(h, 4) + seq![0u8, 0, 0, 0]);
            let (did, moved_on) = slot.session.on_status(order, Cmd::StopPeriodicMsg, ms(2000));
            &&& asked(slot.session, moved_on, did, order, 2000, 0x10)
            &&& slot_changed(s, s1, id - 0x100, moved(slot, moved_on))
            &&& did is Ok <==> r is Ok
            &&& did matches Err(e) ==> r == Err::<(), i32>(code_for(e))
        }),
{
    lemma_ids(s, id);
    let low = (arg % 0x1_0000_0000) as u32;
    let slot = s.slots[id - 0x100]->0;
    let p = slot.chan->0.proto;
    lemma_message_commands(p, 0, Seq::empty(), low, 0);
    let zeros = seq![0u8, 0, 0, 0];
    lemma_status_exchange(
        slot.session,
        ordered(0x10, channel_word(p) + low_first(low as nat, 4) + zeros),
        Cmd::StopPeriodicMsg,
        2000,
    );
}

/// Starting a periodic message asks for it under the next handle from
/// 0x000e7b00 on, with its own flags, the interval and its bytes in use; that
/// handle is what the caller gets.
pub proof fn lemma_start_periodic(s: ShimState, id: u64, arg: u64, m: PassMsg)
    requires
        s.valid(),
        m.data.len() == 4128,
        ordinary(s, id),
        in_use(m).len() < 13,
    ensures
        ({
            let slot = s.slots[id - 0x100]->0;
            let p = slot.chan->0.proto;
            let h = 0x000e_7b00 + slot.next_id % 256;
            let (r, s1) = s.start_periodic_msg(id, Some(m), true, arg);
            let order = ordered(
                0x0f,
                channel_word(p) + low_first(h as nat, 4) + low_first(m.tx_flags as nat, 4)
                    + low_first((arg % 0x1_0000_0000) as nat, 4) + in_use(m),
            );
            let (did, moved_on) = slot.session.on_status(order, Cmd::StartPeriodicMsg, ms(2000));
            let after = s1.slots[id - 0x100]->0;
            &&& asked(slot.session, moved_on, did, order, 2000, 0x0f)
            &&& slot_changed(s, s1, id - 0x100, after)
            &&& after == (SlotState { session: moved_on, next_id: after.next_id, ..slot })
            &&& did is Ok ==> r == Ok::<u64, i32>(h as u64)
            &&& did matches Err(e) ==> r == Err::<u64, i32>(code_for(e))
            &&& slot.next_id < u32::MAX ==> after.next_id == slot.next_id + 1
        }),
{
    lemma_ids(s, id);
    let low = (arg % 0x1_0000_0000) as u32;
    let slot = s.slots[id - 0x100]->0;
    let p = slot.chan->0.proto;
    let h = (0x000e_7b00 + slot.next_id % 256) as u32;
    lemma_message_commands(p, m.tx_flags, in_use(m), h, low);
    lemma_status_exchange(
        slot.session,
        ordered(
            0x0f,
            channel_word(p) + low_first(h as nat, 4) + low_first(m.tx_flags as nat, 4) + low_first(
                low as nat,
                4,
            ) + in_use(m),
        ),
        Cmd::StartPeriodicMsg,
        2000,
    );
}

/// The programming voltage asks for the pin and the millivolts.
pub proof fn lemma_voltage(s: ShimState, id: u64, arg: u64, more: u64)
    requires
        s.valid(),
        opened(s, id),
    ensures
        ({
            let slot = s.slots[id - 1]->0;
            let (r, s1) = s.set_programming_voltage(id, arg, more);
            let order = seq![9u8, 0, 0x0d] + low_first((arg % 0x1_0000_0000) as nat, 4)
                + low_first((more % 0x1_0000_0000) as nat, 4);
            let (did, moved_on) = slot.session.on_status(
                order,
                Cmd::SetProgrammingVoltage,
                ms(2000),
            );
            &&& asked(slot.session, moved_on, did, order, 2000, 0x0d)
            &&& slot_changed(s, s1, id - 1, moved(slot, moved_on))
            &&& did is Ok <==> r is Ok
            &&& did matches Err(e) ==> r == Err::<(), i32>(code_for(e))
        }),
{
    lemma_ids(s, id);
    let low = (arg % 0x1_0000_0000) as u32;
    let slot = s.slots[id - 1]->0;
    let mv = (more % 0x1_0000_0000) as u32;
    lemma_plain_commands(ProtocolId::Can, 0, 0, low, mv);
    lemma_status_exchange(
        slot.session,
        seq![9u8, 0, 0x0d] + low_first(low as nat, 4) + low_first(mv as nat, 4),
        Cmd::SetProgrammingVoltage,
        2000,
    );
}

/// A connect on an open device: the channel that is there goes first, and then
/// the protocol is connected with the caller's speed and flags, without the bit
/// that asks for ISO-TP on the host. With that bit ISO15765 is connected as CAN.
/// The id of the channel is 0x100 and the slot.
pub proof fn lemma_connect(s: ShimState, id: u64, protocol_id: u64, flags: u64, baud: u64)
    requires
        s.valid(),
        opened(s, id),
    ensures
        ({
            let (r, s1) = s.connect(id, protocol_id, flags, baud, true);
            let v = protocol_id % 0x1_0000_0000;
            let known = 1 <= v <= 6 || v == 0x1000_0001;
            let iso = v == 6 || v == 0x1000_0001;
            let f = flags % 0x1_0000_0000;
            let host = f >= 0x8000_0000 && iso;
            let slot = s.slots[id - 1]->0;
            let gone1 = match slot.chan {
                Some(c) => slot.session.on_disconnect(c.proto).1,
                None => slot.session,
            };
            let gone = match slot.host {
                Some(tp) => gone1.on_disconnect(tp.chan.raw.proto).1,
                None => gone1,
            };
            let after = s1.slots[id - 1]->0;
            if !known {
                r == Err::<u64, i32>(0x03) && s1.slots == s.slots
            } else {
                let p = if host {
                    ProtocolId::Can
                } else {
                    protocol_of(v as u32)->Ok_0
                };
                let (did, moved_on) = gone.on_connect(
                    p,
                    (f % 0x8000_0000) as u32,
                    (baud % 0x1_0000_0000) as u32,
                );
                &&& number(p) == if host {
                    5
                } else if iso {
                    6
                } else {
                    v as nat
                }
                &&& after.session == moved_on
                &&& did is Ok ==> r == Ok::<u64, i32>((0x100 + id - 1) as u64)
                &&& did matches Err(e) ==> r == Err::<u64, i32>(code_for(e))
                &&& did is Err ==> after.chan is None && after.host is None
                &&& did is Ok && !host ==> after.host is None && after.chan is Some
                    && after.chan->0.proto == p && after.chan->0.nfilters == 0
                &&& did is Ok && host ==> {
                    &&& after.chan is None && after.host is Some
                    &&& after.host->0.path == IsoTpPath::Host
                    &&& after.host->0.chan.raw.proto == ProtocolId::Can
                    &&& after.host->0.chan.raw.nfilters == 0 && after.host->0.chan.current is None
                    &&& after.host->0.cfg.can.bitrate == baud % 0x1_0000_0000
                    &&& after.host->0.cfg.can.flags == f % 0x8000_0000
                    &&& after.host->0.cfg.n_bs.nanos == 1_000_000_000
                    &&& after.host->0.cfg.n_cr.nanos == 1_000_000_000
                    &&& after.host->0.cfg.wft_max == 8 && after.host->0.cfg.padding == Some(0u8)
                    &&& after.host->0.cfg.rx_bs == 0 && after.host->0.cfg.rx_stmin == 0
                    &&& after.host->0.cfg.ext_addr is None
                }
                &&& after.setup == slot.setup && after.next_id == slot.next_id
                &&& s1.slots == s.slots.update(id - 1, Some(after))
            }
        }),
{
    lemma_ids(s, id);
    let v = (protocol_id % 0x1_0000_0000) as u32;
    lemma_protocol_numbers(v, ProtocolId::Can);
    let f = (flags % 0x1_0000_0000) as u32;
}

/// Periodic messages and voltages are refused, and nothing is asked, where there
/// is no message or no place for its id, with 4; where there is no such channel,
/// with 2; where there is no such device, with 0x1a.
pub proof fn lemma_refusals(
    s: ShimState,
    id: u64,
    msg: Option<PassMsg>,
    wanted: bool,
    arg: u64,
    more: u64,
)
    requires
        s.valid(),
    ensures
        ({
            let (r, s1) = s.start_periodic_msg(id, msg, wanted, arg);
            &&& msg is None || !wanted ==> r == Err::<u64, i32>(0x04) && s1.slots == s.slots
            &&& msg is Some && wanted && !ordinary(s, id) ==> r == Err::<u64, i32>(0x02)
                && s1.slots == s.slots
        }),
        !ordinary(s, id) ==> {
            let (r, s1) = s.stop_periodic_msg(id, arg);
            r == Err::<(), i32>(0x02) && s1.slots == s.slots
        },
        !opened(s, id) ==> {
            let (r, s1) = s.set_programming_voltage(id, arg, more);
            r == Err::<(), i32>(0x1a) && s1.slots == s.slots
        },
        ({
            let v = arg % 0x1_0000_0000;
            let known = 1 <= v <= 6 || v == 0x1000_0001;
            let (r, s1) = s.connect(id, arg, more, more, wanted);
            &&& !wanted ==> r == Err::<u64, i32>(0x04) && s1.slots == s.slots
            &&& wanted && !known ==> r == Err::<u64, i32>(0x03) && s1.slots == s.slots
            &&& wanted && known && !opened(s, id) ==> r == Err::<u64, i32>(0x1a) && s1.slots
                == s.slots
        }),
{
    lemma_ids(s, id);
    lemma_protocol_numbers((arg % 0x1_0000_0000) as u32, ProtocolId::Can);
}

/// Every PassThru call does to the table what is said of it.
pub proof fn lemma_shim_calls<T: Transport>(
    a: u64,
    b: u64,
    c: u64,
    d: u64,
    wanted: bool,
    mask: Option<&PassthruMsg>,
    pattern: Option<&PassthruMsg>,
    flow: Option<&PassthruMsg>,
    input: IoctlInput,
    place: IoctlPlace,
    id: Result<u64, i32>,
    done: Result<(), i32>,
    out: (Result<(), i32>, IoctlOutput),
    now: Instant,
    begun: Result<usize, i32>,
)
    ensures
        forall|shim: &mut Shim<T>| #[trigger]
            call_ensures(Shim::<T>::PassThruConnect, (shim, a, b, c, d, wanted), id) ==> (
                id,
                (*final(shim))@,
            ) == (*shim)@.connect(a, b, c, d, wanted),
        forall|shim: &mut Shim<T>| #[trigger]
            call_ensures(Shim::<T>::PassThruDisconnect, (shim, a), done) ==> (
                done,
                (*final(shim))@,
            ) == (*shim)@.disconnect(a),
        forall|shim: &mut Shim<T>| #[trigger]
            call_ensures(
                Shim::<T>::PassThruStartMsgFilter,
                (shim, a, b, mask, pattern, flow, wanted),
                id,
            ) ==> (id, (*final(shim))@) == (*shim)@.start_msg_filter(
                a,
                b,
                viewed(mask),
                viewed(pattern),
                viewed(flow),
                wanted,
            ),
        forall|shim: &mut Shim<T>| #[trigger]
            call_ensures(Shim::<T>::PassThruStopMsgFilter, (shim, a, b), done) ==> (
                done,
                (*final(shim))@,
            ) == (*shim)@.stop_msg_filter(a, b),
        forall|shim: &mut Shim<T>| #[trigger]
            call_ensures(Shim::<T>::PassThruIoctl, (shim, a, b, input, place), out) ==> (
                out.0,
                out.1@,
                (*final(shim))@,
            ) == (*shim)@.ioctl(a, b, input@, place@),
        forall|shim: &mut Shim<T>| #[trigger]
            call_ensures(
                Shim::<T>::PassThruStartPeriodicMsg,
                (shim, a, mask, wanted, b),
                id,
            ) ==> (id, (*final(shim))@) == (*shim)@.start_periodic_msg(
                a,
                viewed(mask),
                wanted,
                b,
            ),
        forall|shim: &mut Shim<T>| #[trigger]
            call_ensures(Shim::<T>::PassThruStopPeriodicMsg, (shim, a, b), done) ==> (
                done,
                (*final(shim))@,
            ) == (*shim)@.stop_periodic_msg(a, b),
        forall|shim: &mut Shim<T>| #[trigger]
            call_ensures(
                Shim::<T>::PassThruSetProgrammingVoltage,
                (shim, a, b, c),
                done,
            ) ==> (done, (*final(shim))@) == (*shim)@.set_programming_voltage(a, b, c),
        forall|shim: &mut Shim<T>| #[trigger]
            call_ensures(Shim::<T>::begin_open, (shim, wanted, now), begun) ==> (
                begun,
                (*final(shim))@,
            ) == (*shim)@.begin_open(wanted, now),
{
}

/// An optional message, by its view.
pub open spec fn viewed(m: Option<&PassthruMsg>) -> Option<PassMsg> {
    match m {
        Some(m) => Some(m@),
        None => None,
    }
}

/// What the calls that only tell something tell.
pub proof fn lemma_shim_tells<T: Transport>(
    shim: &Shim<T>,
    id: u64,
    fw: Option<String>,
    dll: Option<String>,
    api: Option<String>,
    v: Result<Versions, i32>,
    wanted: bool,
    text: Result<String, i32>,
)
    ensures
        call_ensures(Shim::<T>::PassThruReadVersion, (shim, id, fw, dll, api), v) ==> {
            &&& v is Ok <==> opened(shim@, id)
            &&& v is Err ==> v->Err_0 == 0x1a
            &&& v is Ok && fw is None ==> v->Ok_0.firmware@ == "J2534 MINIV1.03"@
            &&& v is Ok && dll is None ==> v->Ok_0.dll@ == "MVCI J2534 DLL v1.4.6"@
            &&& v is Ok && api is None ==> v->Ok_0.api@ == "04.04"@
            &&& v is Ok && fw is Some ==> cut_to_fit(v->Ok_0.firmware@, fw->0@, 79)
            &&& v is Ok && dll is Some ==> cut_to_fit(v->Ok_0.dll@, dll->0@, 79)
            &&& v is Ok && api is Some ==> cut_to_fit(v->Ok_0.api@, api->0@, 79)
        },
        call_ensures(Shim::<T>::PassThruGetLastError, (shim, wanted), text) ==> {
            &&& text is Ok <==> wanted
            &&& text is Err ==> text->Err_0 == 0x04
            &&& text is Ok ==> cut_to_fit(text->Ok_0@, shim@.last_error, 79)
        },
{
    lemma_ids(shim@, id);
}

/// Opening puts the device into the slot that was found, under the slot's number
/// and one; closing it disconnects its channel, closes the session and frees the
/// slot.
pub proof fn lemma_open_close<T: Transport>(
    slot: usize,
    made: Result<Device<T>, Error>,
    id: Result<u64, i32>,
    device_id: u64,
    closed: Result<T, i32>,
)
    ensures
        forall|shim: &mut Shim<T>| #[trigger]
            call_ensures(Shim::<T>::PassThruOpen, (shim, slot, made), id) && slot < 4 ==> {
                let s = (*shim)@;
                let s1 = (*final(shim))@;
                match made {
                    Ok(dev) => {
                        &&& id == Ok::<u64, i32>((slot + 1) as u64)
                        &&& s1.slots == s.slots.update(
                            slot as int,
                            Some(
                                SlotState {
                                    session: dev@,
                                    setup: dev.setup(),
                                    chan: None,
                                    host: None,
                                    next_id: 1,
                                },
                            ),
                        )
                    },
                    Err(_) => id == Err::<u64, i32>(0x08) && s1.slots == s.slots,
                }
            },
        forall|shim: &mut Shim<T>| #[trigger]
            call_ensures(Shim::<T>::PassThruClose, (shim, device_id), closed) ==> {
                let s = (*shim)@;
                let s1 = (*final(shim))@;
                if opened(s, device_id) {
                    let had = s.slots[device_id - 1]->0;
                    let gone1 = match had.chan {
                        Some(c) => had.session.on_disconnect(c.proto).1,
                        None => had.session,
                    };
                    let gone = match had.host {
                        Some(tp) => gone1.on_disconnect(tp.chan.raw.proto).1,
                        None => gone1,
                    };
                    &&& closed is Ok
                    &&& closed->Ok_0.world() == gone.teardown().world
                    &&& s1.slots == s.slots.update(device_id - 1, None)
                } else {
                    closed is Err && closed->Err_0 == 0x1a && s1.slots == s.slots
                }
            },
{
    assert forall|shim: &mut Shim<T>| #[trigger]
        call_ensures(Shim::<T>::PassThruClose, (shim, device_id), closed) implies (opened(
        (*shim)@,
        device_id,
    ) <==> (*shim)@.device(device_id) is Some) by {
        lemma_ids((*shim)@, device_id);
    }
}

} // verus!
