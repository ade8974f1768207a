//! What holds of the PassThru calls together.

use vstd::prelude::*;

use super::consts::{
    ERR_FAILED, ERR_INVALID_CHANNEL_ID, ERR_INVALID_DEVICE_ID, ERR_INVALID_PROTOCOL_ID,
    FLOW_CONTROL_FILTER, PASS_FILTER,
};
use super::msg::{low_word, PassMsg};
use super::shim::{channel_slot, device_slot, IoctlIn, IoctlOut, IoctlSpot, ShimState, MAX_SLOTS};
use super::slot::SlotState;
use crate::time::Instant;
use crate::types::{protocol_of, ProtocolId};

verus! {

/// Whether nothing but the error text has changed: no device was touched, so
/// nothing went over any wire.
pub open spec fn only_told(before: ShimState, after: ShimState) -> bool {
    after.slots == before.slots && after.epoch == before.epoch
}

/// Whether an id leads to no channel, of either kind.
pub open spec fn no_channel(s: ShimState, id: u64) -> bool {
    s.raw_channel(id) is None && s.host_channel(id) is None
}

/// A slot has at most one channel, on one path or the other.
pub proof fn lemma_one_channel_per_slot(s: ShimState, id: u64)
    requires
        s.valid(),
    ensures
        s.raw_channel(id) is None || s.host_channel(id) is None,
{
    if let Some(i) = channel_slot(id) {
        assert(s.slots[i] is Some ==> s.slots[i]->0.valid());
    }
}

/// A call on an id that leads to no channel is refused as such, whichever call
/// it is, and nothing is put on any wire.
pub proof fn lemma_unknown_channel_refused(
    s: ShimState,
    id: u64,
    filter_id: u64,
    msgs: Seq<PassMsg>,
    want: u64,
    timeout: u64,
    ioctl_id: u64,
    input: IoctlIn,
    place: IoctlSpot,
    msg: PassMsg,
    interval: u64,
)
    requires
        no_channel(s, id),
        msgs.len() > 0,
        want > 0,
        ShimState::is_ioctl(low_word(ioctl_id)),
    ensures
        ({
            let (r, after) = s.disconnect(id);
            r == Err::<(), i32>(ERR_INVALID_CHANNEL_ID) && only_told(s, after)
        }),
        ({
            let (r, after) = s.stop_msg_filter(id, filter_id);
            r == Err::<(), i32>(ERR_INVALID_CHANNEL_ID) && only_told(s, after)
        }),
        ({
            let (r, sent, after) = s.write_msgs(id, Some(msgs));
            r == Err::<(), i32>(ERR_INVALID_CHANNEL_ID) && sent is None && only_told(s, after)
        }),
        ({
            let (r, got, after) = s.read_msgs(id, want, timeout);
            r == Err::<(), i32>(ERR_INVALID_CHANNEL_ID) && got is None && only_told(s, after)
        }),
        ({
            let (r, out, after) = s.ioctl(id, ioctl_id, input, place);
            r == Err::<(), i32>(ERR_INVALID_CHANNEL_ID) && out == IoctlOut::Nothing && only_told(
                s,
                after,
            )
        }),
        ({
            let (r, after) = s.start_periodic_msg(id, Some(msg), true, interval);
            r == Err::<u64, i32>(ERR_INVALID_CHANNEL_ID) && only_told(s, after)
        }),
        ({
            let (r, after) = s.stop_periodic_msg(id, filter_id);
            r == Err::<(), i32>(ERR_INVALID_CHANNEL_ID) && only_told(s, after)
        }),
{
}

/// A well-formed filter on an id that leads to no channel is refused likewise.
pub proof fn lemma_filter_needs_channel(
    s: ShimState,
    id: u64,
    filter_type: u64,
    mask: PassMsg,
    pattern: PassMsg,
    flow: Option<PassMsg>,
)
    requires
        no_channel(s, id),
        PASS_FILTER <= low_word(filter_type) <= FLOW_CONTROL_FILTER,
        flow is Some <==> low_word(filter_type) == FLOW_CONTROL_FILTER,
    ensures
        ({
            let (r, after) = s.start_msg_filter(
                id,
                filter_type,
                Some(mask),
                Some(pattern),
                flow,
                true,
            );
            r == Err::<u64, i32>(ERR_INVALID_CHANNEL_ID) && only_told(s, after)
        }),
{
}

/// A ProtocolID that the adapter does not implement never reaches it.
pub proof fn lemma_bad_protocol_refused(
    s: ShimState,
    device_id: u64,
    protocol_id: u64,
    flags: u64,
    baud_rate: u64,
)
    requires
        protocol_of(low_word(protocol_id)) is Err,
    ensures
        ({
            let (r, after) = s.connect(device_id, protocol_id, flags, baud_rate, true);
            r == Err::<u64, i32>(ERR_INVALID_PROTOCOL_ID) && only_told(s, after)
        }),
{
}

/// A call on an id that leads to no device is refused as such, and nothing is
/// put on any wire.
pub proof fn lemma_unknown_device_refused(
    s: ShimState,
    device_id: u64,
    protocol_id: u64,
    flags: u64,
    baud_rate: u64,
    pin: u64,
    voltage: u64,
)
    requires
        s.device(device_id) is None,
        protocol_of(low_word(protocol_id)) is Ok,
    ensures
        ({
            let (r, after) = s.connect(device_id, protocol_id, flags, baud_rate, true);
            r == Err::<u64, i32>(ERR_INVALID_DEVICE_ID) && only_told(s, after)
        }),
        ({
            let (r, after) = s.set_programming_voltage(device_id, pin, voltage);
            r == Err::<(), i32>(ERR_INVALID_DEVICE_ID) && only_told(s, after)
        }),
{
}

proof fn lemma_slot_connected(slot: SlotState, proto: ProtocolId, flags: u32, baud: u32)
    requires
        slot.connect(proto, flags, baud).0 is Ok,
    ensures
        ({
            let after = slot.connect(proto, flags, baud).1;
            after.chan is Some || after.host is Some
        }),
{
}

proof fn lemma_disconnected(s: ShimState, id: u64)
    requires
        s.slots.len() == MAX_SLOTS,
        !no_channel(s, id),
    ensures
        s.disconnect(id).0 is Ok,
        no_channel(s.disconnect(id).1, id),
        s.disconnect(id).1.disconnect(id).0 == Err::<(), i32>(ERR_INVALID_CHANNEL_ID),
{
    let i = channel_slot(id)->0;
    let end = s.disconnect(id).1;
    assert(end.slots[i] == Some(s.slots[i]->0.release()));
}

/// A connect that succeeds gives the id of a channel in the device's slot; once
/// that is disconnected, the id leads nowhere.
pub proof fn lemma_connect_disconnect(
    s: ShimState,
    device_id: u64,
    protocol_id: u64,
    flags: u64,
    baud_rate: u64,
)
    requires
        s.valid(),
        s.connect(device_id, protocol_id, flags, baud_rate, true).0 is Ok,
    ensures
        ({
            let (r, after) = s.connect(device_id, protocol_id, flags, baud_rate, true);
            let (gone, end) = after.disconnect(r->Ok_0);
            &&& channel_slot(r->Ok_0) == device_slot(device_id)
            &&& !no_channel(after, r->Ok_0)
            &&& gone is Ok
            &&& no_channel(end, r->Ok_0)
            &&& end.disconnect(r->Ok_0).0 == Err::<(), i32>(ERR_INVALID_CHANNEL_ID)
        }),
{
    let (r, after) = s.connect(device_id, protocol_id, flags, baud_rate, true);
    let proto = protocol_of(low_word(protocol_id))->Ok_0;
    let i = device_slot(device_id)->0;
    lemma_slot_connected(s.slots[i]->0, proto, low_word(flags), low_word(baud_rate));
    assert(after.slots[i] == Some(
        s.slots[i]->0.connect(proto, low_word(flags), low_word(baud_rate)).1,
    ));
    assert(!no_channel(after, r->Ok_0));
    lemma_disconnected(after, r->Ok_0);
}

/// What is done on one device's slot leaves every other slot alone.
pub proof fn lemma_other_slots_untouched(
    s: ShimState,
    device_id: u64,
    protocol_id: u64,
    flags: u64,
    baud_rate: u64,
    channel_id: u64,
    msgs: Option<Seq<PassMsg>>,
    want: u64,
    timeout: u64,
    j: int,
)
    requires
        s.valid(),
        0 <= j < MAX_SLOTS,
    ensures
        device_slot(device_id) != Some(j) ==> s.connect(
            device_id,
            protocol_id,
            flags,
            baud_rate,
            true,
        ).1.slots[j] == s.slots[j],
        channel_slot(channel_id) != Some(j) ==> {
            &&& s.disconnect(channel_id).1.slots[j] == s.slots[j]
            &&& s.write_msgs(channel_id, msgs).2.slots[j] == s.slots[j]
            &&& s.read_msgs(channel_id, want, timeout).2.slots[j] == s.slots[j]
        },
{
}

proof fn lemma_free_slot(s: ShimState, from: int)
    requires
        0 <= from <= MAX_SLOTS,
    ensures
        s.free_slot(from) matches Some(i) ==> {
            &&& from <= i < MAX_SLOTS
            &&& s.slots[i] is None
            &&& forall|j: int| from <= j < i ==> (#[trigger] s.slots[j]) is Some
        },
        s.free_slot(from) is None ==> forall|j: int|
            from <= j < MAX_SLOTS ==> (#[trigger] s.slots[j]) is Some,
    decreases MAX_SLOTS - from,
{
    if from < MAX_SLOTS {
        lemma_free_slot(s, from + 1);
    }
}

/// An open takes the lowest free slot, and is refused exactly when every slot
/// is taken.
pub proof fn lemma_lowest_free_slot(s: ShimState, now: Instant)
    requires
        s.valid(),
    ensures
        match s.begin_open(true, now).0 {
            Ok(i) => {
                &&& i < MAX_SLOTS
                &&& s.slots[i as int] is None
                &&& forall|j: int| 0 <= j < i ==> (#[trigger] s.slots[j]) is Some
            },
            Err(code) => {
                &&& code == ERR_FAILED
                &&& forall|j: int| 0 <= j < MAX_SLOTS ==> (#[trigger] s.slots[j]) is Some
            },
        },
{
    lemma_free_slot(s, 0);
}

} // verus!
