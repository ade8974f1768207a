//! The PassThru calls over a table of device slots.

use vstd::prelude::*;

use super::consts::{
    CLEAR_MSG_FILTERS, CLEAR_PERIODIC_MSGS, CLEAR_TX_BUFFER, ERR_DEVICE_NOT_CONNECTED,
    ERR_FAILED, ERR_INVALID_CHANNEL_ID, ERR_INVALID_DEVICE_ID, ERR_INVALID_MSG,
    ERR_INVALID_PROTOCOL_ID, ERR_NOT_SUPPORTED, ERR_NULL_PARAMETER, FAST_INIT, FIVE_BAUD_INIT,
    FLOW_CONTROL_FILTER, GET_CONFIG, PASS_FILTER, READ_VBATT, SET_CONFIG,
};
use super::msg::{
    fail_with, failure, fault, faulted, filled_in, introduced, low32, low_word, Failure, Fault, PassMsg,
    PassthruMsg, SConfig, SConfigList,
};
use super::slot::{pass_msgs, Slot, SlotState};
use crate::error::Error;
use crate::isotp::client::MAX_ROUNDS;
use crate::session::device::Device;
use crate::text::{cut_to_fit, fitting};
use crate::time::Instant;
use crate::transport::Transport;
use crate::types::{protocol_of, ProtocolId};

verus! {

/// How many devices can be open at once.
pub const MAX_SLOTS: usize = 4;

/// The first ChannelID.
pub const CHANNEL_BASE: u64 = 0x100;

/// The bytes of text that a caller's buffer of 80 bytes has room for, beside
/// the NUL at the end.
pub const TEXT_ROOM: usize = 79;

/// The slot a DeviceID stands for.
pub open spec fn device_slot(id: u64) -> Option<int> {
    if 1 <= id <= MAX_SLOTS {
        Some(id - 1)
    } else {
        None
    }
}

/// The slot a ChannelID stands for.
pub open spec fn channel_slot(id: u64) -> Option<int> {
    if CHANNEL_BASE <= id < CHANNEL_BASE + MAX_SLOTS {
        Some(id - CHANNEL_BASE)
    } else {
        None
    }
}

/// The DeviceID of a slot.
pub open spec fn device_id_of(slot: int) -> u64 {
    (slot + 1) as u64
}

/// The ChannelID of a slot.
pub open spec fn channel_id_of(slot: int) -> u64 {
    (slot + CHANNEL_BASE) as u64
}

/// Every slot has one DeviceID and one ChannelID, which lead back to it and to
/// no other slot, and no number is both.
pub proof fn lemma_slot_ids(slot: int, id: u64)
    requires
        0 <= slot < MAX_SLOTS,
    ensures
        device_slot(device_id_of(slot)) == Some(slot),
        channel_slot(channel_id_of(slot)) == Some(slot),
        device_slot(id) == Some(slot) <==> id == device_id_of(slot),
        channel_slot(id) == Some(slot) <==> id == channel_id_of(slot),
        device_slot(id) is None || channel_slot(id) is None,
{
}

/// The input an IOCTL is given, by what its pointer leads to.
pub enum IoctlInput {
    Null,
    Configs(SConfigList),
    Msg(PassthruMsg),
}

/// The place an IOCTL is given for its output, by what its pointer leads to.
pub enum IoctlPlace {
    Null,
    /// Room for a number.
    Word,
    /// A message to be filled in.
    Msg(PassthruMsg),
}

/// What an [`IoctlPlace`] holds.
pub enum IoctlSpot {
    Null,
    Word,
    Msg(PassMsg),
}

impl View for IoctlPlace {
    type V = IoctlSpot;

    open spec fn view(&self) -> IoctlSpot {
        match *self {
            IoctlPlace::Null => IoctlSpot::Null,
            IoctlPlace::Word => IoctlSpot::Word,
            IoctlPlace::Msg(m) => IoctlSpot::Msg(m@),
        }
    }
}

/// What an IOCTL hands back.
pub enum IoctlOutput {
    Nothing,
    /// The parameters with their values filled in.
    Configs(Vec<SConfig>),
    /// Millivolts.
    Voltage(u32),
    /// The caller's message, with the ECU key bytes filled in.
    Msg(PassthruMsg),
}

/// What an [`IoctlInput`] holds.
pub enum IoctlIn {
    Null,
    NullConfig,
    Configs(Seq<SConfig>),
    Msg(PassMsg),
}

/// What an [`IoctlOutput`] holds.
pub enum IoctlOut {
    Nothing,
    Configs(Seq<SConfig>),
    Voltage(u32),
    Msg(PassMsg),
}

impl View for IoctlInput {
    type V = IoctlIn;

    open spec fn view(&self) -> IoctlIn {
        match *self {
            IoctlInput::Null => IoctlIn::Null,
            IoctlInput::Configs(list) => match list.config {
                Some(c) => IoctlIn::Configs(c@),
                None => IoctlIn::NullConfig,
            },
            IoctlInput::Msg(m) => IoctlIn::Msg(m@),
        }
    }
}

impl View for IoctlOutput {
    type V = IoctlOut;

    open spec fn view(&self) -> IoctlOut {
        match *self {
            IoctlOutput::Nothing => IoctlOut::Nothing,
            IoctlOutput::Configs(c) => IoctlOut::Configs(c@),
            IoctlOutput::Voltage(v) => IoctlOut::Voltage(v),
            IoctlOutput::Msg(m) => IoctlOut::Msg(m@),
        }
    }
}

/// What the shim keeps.
pub struct ShimState {
    pub slots: Seq<Option<SlotState>>,
    /// What PassThruGetLastError will say.
    pub last_error: Seq<char>,
    /// When the first device was opened: timestamps count from there.
    pub epoch: Option<Instant>,
}

/// An optional message, taken by its view.
pub open spec fn seen_opt(m: Option<&PassthruMsg>) -> Option<PassMsg> {
    match m {
        Some(m) => Some(m@),
        None => None,
    }
}

impl ShimState {
    pub open spec fn fresh() -> ShimState {
        ShimState {
            slots: Seq::new(MAX_SLOTS as nat, |i: int| None),
            last_error: Seq::empty(),
            epoch: None,
        }
    }

    pub open spec fn valid(self) -> bool {
        &&& self.slots.len() == MAX_SLOTS
        &&& forall|i: int|
            0 <= i < MAX_SLOTS && (#[trigger] self.slots[i]) is Some ==> {
                &&& self.slots[i]->0.valid()
                &&& self.epoch is Some
            }
    }

    pub open spec fn with_slot(self, i: int, slot: SlotState) -> ShimState {
        ShimState { slots: self.slots.update(i, Some(slot)), ..self }
    }

    /// A failure noted.
    pub open spec fn noting(self, f: Fault) -> ShimState {
        ShimState { last_error: f.text, ..self }
    }

    /// A result settled: the text of a failure is kept for later.
    pub open spec fn settle<A>(self, r: Result<A, Fault>) -> (Result<A, i32>, ShimState) {
        match r {
            Ok(a) => (Ok(a), self),
            Err(f) => (Err(f.code), self.noting(f)),
        }
    }

    /// A call refused.
    pub open spec fn refuse<A>(self, code: i32, text: &'static str) -> (Result<A, i32>, ShimState) {
        self.settle(Err(fault(code, text)))
    }

    /// The slot of an open device.
    pub open spec fn device(self, id: u64) -> Option<int> {
        match device_slot(id) {
            Some(i) => if self.slots[i] is Some {
                Some(i)
            } else {
                None
            },
            None => None,
        }
    }

    /// The slot of a channel that runs ISO-TP on the host.
    pub open spec fn host_channel(self, id: u64) -> Option<int> {
        match channel_slot(id) {
            Some(i) => if self.slots[i] is Some && self.slots[i]->0.host is Some {
                Some(i)
            } else {
                None
            },
            None => None,
        }
    }

    /// The slot of an ordinary channel.
    pub open spec fn raw_channel(self, id: u64) -> Option<int> {
        match channel_slot(id) {
            Some(i) => if self.slots[i] is Some && self.slots[i]->0.chan is Some {
                Some(i)
            } else {
                None
            },
            None => None,
        }
    }

    /// The first free slot.
    pub open spec fn free_slot(self, from: int) -> Option<int>
        decreases MAX_SLOTS - from,
    {
        if from >= MAX_SLOTS {
            None
        } else if self.slots[from] is None {
            Some(from)
        } else {
            self.free_slot(from + 1)
        }
    }

    /// The first half of an open: the clock for timestamps is started, and a
    /// slot found.
    pub open spec fn begin_open(self, id_wanted: bool, now: Instant) -> (
        Result<usize, i32>,
        ShimState,
    ) {
        let started = ShimState {
            epoch: Some(
                match self.epoch {
                    Some(t) => t,
                    None => now,
                },
            ),
            ..self
        };
        if !id_wanted {
            self.refuse(ERR_NULL_PARAMETER, "NULL pDeviceID")
        } else {
            match self.free_slot(0) {
                None => started.refuse(ERR_FAILED, "no free device slot"),
                Some(i) => (Ok(i as usize), started),
            }
        }
    }

    pub open spec fn connect(
        self,
        device_id: u64,
        protocol_id: u64,
        flags: u64,
        baud_rate: u64,
        id_wanted: bool,
    ) -> (Result<u64, i32>, ShimState) {
        if !id_wanted {
            self.refuse(ERR_NULL_PARAMETER, "NULL pChannelID")
        } else {
            match protocol_of(low_word(protocol_id)) {
                Err(_) => self.refuse(
                    ERR_INVALID_PROTOCOL_ID,
                    "unsupported protocol id (the adapter stops responding until reopened if one is sent)",
                ),
                Ok(proto) => match self.device(device_id) {
                    None => self.refuse(ERR_INVALID_DEVICE_ID, "invalid device id"),
                    Some(i) => {
                        let (r, slot) = self.slots[i]->0.connect(
                            proto,
                            low_word(flags),
                            low_word(baud_rate),
                        );
                        self.with_slot(i, slot).settle(
                            match r {
                                Ok(()) => Ok(channel_id_of(i)),
                                Err(f) => Err(f),
                            },
                        )
                    },
                },
            }
        }
    }

    pub open spec fn disconnect(self, channel_id: u64) -> (Result<(), i32>, ShimState) {
        match (self.raw_channel(channel_id), self.host_channel(channel_id)) {
            (None, None) => self.refuse(ERR_INVALID_CHANNEL_ID, "invalid channel id"),
            _ => {
                let i = channel_slot(channel_id)->0;
                (Ok(()), self.with_slot(i, self.slots[i]->0.release()))
            },
        }
    }

    pub open spec fn start_msg_filter(
        self,
        channel_id: u64,
        filter_type: u64,
        mask: Option<PassMsg>,
        pattern: Option<PassMsg>,
        flow: Option<PassMsg>,
        id_wanted: bool,
    ) -> (Result<u64, i32>, ShimState) {
        let ftype = low_word(filter_type);
        if mask is None || pattern is None || !id_wanted {
            self.refuse(ERR_NULL_PARAMETER, "NULL filter msg")
        } else if !(PASS_FILTER <= ftype <= FLOW_CONTROL_FILTER) {
            self.refuse(ERR_INVALID_MSG, "bad filter type")
        } else if ftype == FLOW_CONTROL_FILTER && flow is None {
            self.refuse(ERR_NULL_PARAMETER, "FLOW_CONTROL_FILTER needs pFlowControlMsg")
        } else if ftype != FLOW_CONTROL_FILTER && flow is Some {
            self.refuse(ERR_INVALID_MSG, "pFlowControlMsg only valid for FLOW_CONTROL_FILTER")
        } else if let Some(i) = self.host_channel(channel_id) {
            let (r, slot) = self.slots[i]->0.host_filter(ftype, pattern->0, flow);
            self.with_slot(i, slot).settle(as_long(r))
        } else if let Some(i) = self.raw_channel(channel_id) {
            let (r, slot) = self.slots[i]->0.chan_filter(ftype, mask->0, pattern->0, flow);
            self.with_slot(i, slot).settle(as_long(r))
        } else {
            self.refuse(ERR_INVALID_CHANNEL_ID, "invalid channel id")
        }
    }

    pub open spec fn stop_msg_filter(self, channel_id: u64, filter_id: u64) -> (
        Result<(), i32>,
        ShimState,
    ) {
        if self.host_channel(channel_id) is Some {
            (Ok(()), self)
        } else if let Some(i) = self.raw_channel(channel_id) {
            let (r, slot) = self.slots[i]->0.chan_stop_filter(low_word(filter_id));
            self.with_slot(i, slot).settle(r)
        } else {
            self.refuse(ERR_INVALID_CHANNEL_ID, "invalid channel id")
        }
    }

    /// A write: how it ended, and how many messages the caller is told went
    /// out (nothing is told where the call is refused).
    pub open spec fn write_msgs(self, channel_id: u64, msgs: Option<Seq<PassMsg>>) -> (
        Result<(), i32>,
        Option<nat>,
        ShimState,
    ) {
        if msgs is None || msgs->0.len() == 0 {
            let (r, after) = self.refuse(ERR_NULL_PARAMETER, "NULL/empty msg");
            (r, None, after)
        } else if let Some(i) = self.host_channel(channel_id) {
            let (w, sent, slot) = self.slots[i]->0.host_write(msgs->0, 0);
            let (r, after) = self.with_slot(i, slot).settle(w);
            (r, Some(sent), after)
        } else if let Some(i) = self.raw_channel(channel_id) {
            let (w, sent, slot) = self.slots[i]->0.chan_write(msgs->0, 0);
            let (r, after) = self.with_slot(i, slot).settle(w);
            (r, Some(sent), after)
        } else {
            let (r, after) = self.refuse(ERR_INVALID_CHANNEL_ID, "invalid channel id");
            (r, None, after)
        }
    }

    /// A read of up to `want` messages: how it ended, and the messages that came
    /// (none are told of where the call is refused).
    pub open spec fn read_msgs(self, channel_id: u64, want: u64, timeout: u64) -> (
        Result<(), i32>,
        Option<Seq<PassMsg>>,
        ShimState,
    ) {
        if want == 0 {
            let (r, after) = self.refuse(ERR_NULL_PARAMETER, "NULL/empty msg");
            (r, None, after)
        } else if let Some(i) = self.host_channel(channel_id) {
            let (deadline, slot) = self.slots[i]->0.deadline_in(timeout);
            let (h, got, slot1) = slot.host_read(
                self.epoch->0,
                deadline,
                want as nat,
                Seq::empty(),
            );
            let (r, after) = self.with_slot(i, slot1).settle(h);
            (r, Some(got), after)
        } else if let Some(i) = self.raw_channel(channel_id) {
            let (deadline, slot) = self.slots[i]->0.deadline_in(timeout);
            let (h, got, slot1) = slot.chan_read(
                self.epoch->0,
                deadline,
                want as nat,
                Seq::empty(),
                MAX_ROUNDS as nat,
            );
            let (r, after) = self.with_slot(i, slot1).settle(h);
            (r, Some(got), after)
        } else {
            let (r, after) = self.refuse(ERR_INVALID_CHANNEL_ID, "invalid channel id");
            (r, None, after)
        }
    }

    /// SET_CONFIG.
    pub open spec fn ioctl_set(self, i: int, input: IoctlIn) -> (Result<(), i32>, ShimState) {
        match input {
            IoctlIn::Configs(params) => {
                let (r, slot) = self.slots[i]->0.set_configs(params, 0);
                self.with_slot(i, slot).settle(r)
            },
            IoctlIn::NullConfig => self.refuse(ERR_NULL_PARAMETER, "NULL ConfigPtr"),
            _ => self.refuse(ERR_NULL_PARAMETER, "NULL SCONFIG_LIST"),
        }
    }

    /// GET_CONFIG: the values are handed back as far as they could be read.
    pub open spec fn ioctl_get(self, i: int, input: IoctlIn) -> (
        Result<(), i32>,
        IoctlOut,
        ShimState,
    ) {
        match input {
            IoctlIn::Configs(params) => {
                let (g, filled, slot) = self.slots[i]->0.get_configs(params, 0);
                let (r, after) = self.with_slot(i, slot).settle(g);
                (r, IoctlOut::Configs(filled), after)
            },
            IoctlIn::NullConfig => {
                let (r, after) = self.refuse(ERR_NULL_PARAMETER, "NULL ConfigPtr");
                (r, IoctlOut::Nothing, after)
            },
            _ => {
                let (r, after) = self.refuse(ERR_NULL_PARAMETER, "NULL SCONFIG_LIST");
                (r, IoctlOut::Nothing, after)
            },
        }
    }

    /// READ_VBATT.
    pub open spec fn ioctl_vbatt(self, i: int, place: IoctlSpot) -> (
        Result<(), i32>,
        IoctlOut,
        ShimState,
    ) {
        if place is Null {
            let (r, after) = self.refuse(ERR_NULL_PARAMETER, "NULL READ_VBATT output");
            (r, IoctlOut::Nothing, after)
        } else {
            let (v, slot) = self.slots[i]->0.read_vbatt();
            let (r, after) = self.with_slot(i, slot).settle(v);
            match r {
                Ok(mv) => (Ok(()), IoctlOut::Voltage(mv), after),
                Err(code) => (Err(code), IoctlOut::Nothing, after),
            }
        }
    }

    /// FAST_INIT or FIVE_BAUD_INIT.
    pub open spec fn ioctl_init(self, i: int, input: IoctlIn, place: IoctlSpot, slow: bool) -> (
        Result<(), i32>,
        IoctlOut,
        ShimState,
    ) {
        let msg = match input {
            IoctlIn::Msg(m) => Some(m),
            _ => None,
        };
        let (m, slot) = self.slots[i]->0.kline_init(msg, slow);
        let (r, after) = self.with_slot(i, slot).settle(m);
        match r {
            Ok(reply) => (
                Ok(()),
                match place {
                    IoctlSpot::Msg(m) => IoctlOut::Msg(m.filled(reply)),
                    _ => IoctlOut::Nothing,
                },
                after,
            ),
            Err(code) => (Err(code), IoctlOut::Nothing, after),
        }
    }

    /// The IOCTLs that need a channel.
    pub open spec fn is_ioctl(id: u32) -> bool {
        ||| GET_CONFIG <= id <= FAST_INIT
        ||| CLEAR_TX_BUFFER <= id <= CLEAR_MSG_FILTERS
    }

    pub open spec fn ioctl(
        self,
        channel_id: u64,
        ioctl_id: u64,
        input: IoctlIn,
        place: IoctlSpot,
    ) -> (Result<(), i32>, IoctlOut, ShimState) {
        let id = low_word(ioctl_id);
        if !ShimState::is_ioctl(id) {
            let (r, after) = self.refuse(ERR_NOT_SUPPORTED, "ioctl not supported");
            (r, IoctlOut::Nothing, after)
        } else if let Some(i) = self.raw_channel(channel_id) {
            if id == SET_CONFIG {
                let (r, after) = self.ioctl_set(i, input);
                (r, IoctlOut::Nothing, after)
            } else if id == GET_CONFIG {
                self.ioctl_get(i, input)
            } else if id == READ_VBATT {
                self.ioctl_vbatt(i, place)
            } else if id == CLEAR_PERIODIC_MSGS {
                let (c, slot) = self.slots[i]->0.clear_periodic();
                let (r, after) = self.with_slot(i, slot).settle(c);
                (r, IoctlOut::Nothing, after)
            } else if id == FAST_INIT {
                self.ioctl_init(i, input, place, false)
            } else if id == FIVE_BAUD_INIT {
                self.ioctl_init(i, input, place, true)
            } else {
                (Ok(()), IoctlOut::Nothing, self)
            }
        } else {
            let (r, after) = self.refuse(ERR_INVALID_CHANNEL_ID, "invalid channel id");
            (r, IoctlOut::Nothing, after)
        }
    }

    pub open spec fn start_periodic_msg(
        self,
        channel_id: u64,
        msg: Option<PassMsg>,
        id_wanted: bool,
        time_interval: u64,
    ) -> (Result<u64, i32>, ShimState) {
        if msg is None || !id_wanted {
            self.refuse(ERR_NULL_PARAMETER, "NULL periodic message/id")
        } else if let Some(i) = self.raw_channel(channel_id) {
            let (r, slot) = self.slots[i]->0.start_periodic(msg->0, low_word(time_interval));
            self.with_slot(i, slot).settle(as_long(r))
        } else {
            self.refuse(ERR_INVALID_CHANNEL_ID, "invalid channel id")
        }
    }

    pub open spec fn stop_periodic_msg(self, channel_id: u64, msg_id: u64) -> (
        Result<(), i32>,
        ShimState,
    ) {
        if let Some(i) = self.raw_channel(channel_id) {
            let (r, slot) = self.slots[i]->0.stop_periodic(low_word(msg_id));
            self.with_slot(i, slot).settle(r)
        } else {
            self.refuse(ERR_INVALID_CHANNEL_ID, "invalid channel id")
        }
    }

    pub open spec fn set_programming_voltage(self, device_id: u64, pin: u64, voltage: u64) -> (
        Result<(), i32>,
        ShimState,
    ) {
        match self.device(device_id) {
            None => self.refuse(ERR_INVALID_DEVICE_ID, "invalid device id"),
            Some(i) => {
                let (r, slot) = self.slots[i]->0.set_voltage(low_word(pin), low_word(voltage));
                self.with_slot(i, slot).settle(r)
            },
        }
    }
}

/// A handle as an `unsigned long`.
pub open spec fn as_long(r: Result<u32, Fault>) -> Result<u64, Fault> {
    match r {
        Ok(id) => Ok(id as u64),
        Err(f) => Err(f),
    }
}

/// The identity PassThruReadVersion reports.
pub struct Versions {
    pub firmware: String,
    pub dll: String,
    pub api: String,
}

/// The table of open devices and what goes with it.
pub struct Shim<T: Transport> {
    slots: Vec<Option<Slot<T>>>,
    last_error: String,
    epoch: Option<Instant>,
}

/// The states of the slots.
pub open spec fn slot_states<T: Transport>(slots: Seq<Option<Slot<T>>>) -> Seq<Option<SlotState>> {
    Seq::new(
        slots.len(),
        |i: int|
            match slots[i] {
                Some(s) => Some(s@),
                None => None,
            },
    )
}

impl<T: Transport> View for Shim<T> {
    type V = ShimState;

    closed spec fn view(&self) -> ShimState {
        ShimState {
            slots: slot_states(self.slots@),
            last_error: self.last_error@,
            epoch: self.epoch,
        }
    }
}

impl<T: Transport> Shim<T> {
    pub fn new() -> (r: Shim<T>)
        ensures
            r@ == ShimState::fresh(),
            r@.valid(),
    {
        let mut slots: Vec<Option<Slot<T>>> = Vec::new();
        slots.push(None);
        slots.push(None);
        slots.push(None);
        slots.push(None);
        let r = Shim { slots, last_error: String::new(), epoch: None };
        assert(r@.slots =~= ShimState::fresh().slots);
        r
    }

    fn settle<A>(&mut self, r: Result<A, Failure>) -> (out: Result<A, i32>)
        ensures
            (out, final(self)@) == old(self)@.settle(faulted(r)),
    {
        match r {
            Ok(a) => Ok(a),
            Err(f) => {
                self.last_error = f.text;
                Err(f.code)
            },
        }
    }

    fn refuse<A>(&mut self, code: i32, text: &'static str) -> (out: Result<A, i32>)
        ensures
            (out, final(self)@) == old(self)@.refuse::<A>(code, text),
    {
        self.settle(Err(failure(code, text)))
    }

    fn find_device(&self, id: u64) -> (r: Option<usize>)
        requires
            self@.valid(),
        ensures
            match r {
                Some(i) => self@.device(id) == Some(i as int) && i < MAX_SLOTS,
                None => self@.device(id) is None,
            },
    {
        if id < 1 || id > MAX_SLOTS as u64 {
            return None;
        }
        let i: usize = (id - 1) as usize;
        if self.slots[i].is_some() {
            Some(i)
        } else {
            None
        }
    }

    fn find_host(&self, id: u64) -> (r: Option<usize>)
        requires
            self@.valid(),
        ensures
            match r {
                Some(i) => self@.host_channel(id) == Some(i as int) && i < MAX_SLOTS,
                None => self@.host_channel(id) is None,
            },
    {
        if id < CHANNEL_BASE || id >= CHANNEL_BASE + MAX_SLOTS as u64 {
            return None;
        }
        let i: usize = (id - CHANNEL_BASE) as usize;
        match &self.slots[i] {
            Some(s) => if s.has_host() {
                Some(i)
            } else {
                None
            },
            None => None,
        }
    }

    fn find_chan(&self, id: u64) -> (r: Option<usize>)
        requires
            self@.valid(),
        ensures
            match r {
                Some(i) => self@.raw_channel(id) == Some(i as int) && i < MAX_SLOTS,
                None => self@.raw_channel(id) is None,
            },
    {
        if id < CHANNEL_BASE || id >= CHANNEL_BASE + MAX_SLOTS as u64 {
            return None;
        }
        let i: usize = (id - CHANNEL_BASE) as usize;
        match &self.slots[i] {
            Some(s) => if s.has_chan() {
                Some(i)
            } else {
                None
            },
            None => None,
        }
    }

    /// The slot at `i`, which must be in use.
    fn slot_mut(&mut self, i: usize) -> (r: &mut Slot<T>)
        requires
            old(self)@.valid(),
            i < MAX_SLOTS,
            old(self)@.slots[i as int] is Some,
        ensures
            r@ == old(self)@.slots[i as int]->0,
            r@.valid(),
            final(self)@ == old(self)@.with_slot(i as int, final(r)@),
            final(r)@.valid() ==> final(self)@.valid(),
    {
        proof {
            assert forall|o: Option<Slot<T>>| o is Some implies #[trigger] slot_states(
                self.slots@.update(i as int, o),
            ) == slot_states(self.slots@).update(i as int, Some(o->0@)) by {
                assert(slot_states(self.slots@.update(i as int, o)) =~= slot_states(
                    self.slots@,
                ).update(i as int, Some(o->0@)));
            }
        }
        self.slots[i].as_mut().unwrap()
    }

    /// The first half of PassThruOpen: find a slot for the device, before the
    /// port is touched. `id_wanted` says whether the caller gave a place for
    /// the DeviceID.
    pub fn begin_open(&mut self, id_wanted: bool, now: Instant) -> (r: Result<usize, i32>)
        requires
            old(self)@.valid(),
        ensures
            (r, final(self)@) == old(self)@.begin_open(id_wanted, now),
            final(self)@.valid(),
            r matches Ok(i) ==> i < MAX_SLOTS && final(self)@.slots[i as int] is None
                && final(self)@.epoch is Some,
    {
        if !id_wanted {
            return self.refuse(ERR_NULL_PARAMETER, "NULL pDeviceID");
        }
        // Start the message-timestamp clock at the first open.
        if self.epoch.is_none() {
            self.epoch = Some(now);
        }
        let ghost started = self@;
        let mut i: usize = 0;
        while i < MAX_SLOTS
            invariant
                i <= MAX_SLOTS,
                self@ == started,
                self@.valid(),
                self@.epoch is Some,
                old(self)@.free_slot(0) == started.free_slot(i as int),
                started.slots == old(self)@.slots,
                old(self)@.begin_open(id_wanted, now) == match old(self)@.free_slot(0) {
                    None => started.refuse::<usize>(ERR_FAILED, "no free device slot"),
                    Some(k) => (Ok::<usize, i32>(k as usize), started),
                },
            decreases MAX_SLOTS - i,
        {
            if self.slots[i].is_none() {
                return Ok(i);
            }
            i = i + 1;
        }
        self.refuse(ERR_FAILED, "no free device slot")
    }

    /// The second half of PassThruOpen: install what came of opening the
    /// device, and hand out its DeviceID.
    #[allow(non_snake_case)]
    pub fn PassThruOpen(&mut self, slot: usize, made: Result<Device<T>, Error>) -> (r: Result<
        u64,
        i32,
    >)
        requires
            old(self)@.valid(),
            slot < MAX_SLOTS,
            old(self)@.slots[slot as int] is None,
            old(self)@.epoch is Some,
            made matches Ok(d) ==> d@.valid(),
        ensures
            match made {
                Ok(d) => {
                    &&& r == Ok::<u64, i32>(device_id_of(slot as int))
                    &&& final(self)@ == old(self)@.with_slot(
                        slot as int,
                        SlotState::fresh(d@, d.setup()),
                    )
                },
                Err(e) => (r, final(self)@) == old(self)@.settle::<u64>(
                    Err(introduced(ERR_DEVICE_NOT_CONNECTED, "device open failed: ", e)),
                ),
            },
            final(self)@.valid(),
    {
        match made {
            Ok(device) => {
                self.slots[slot] = Some(Slot::new(device));
                assert(self@.slots =~= old(self)@.with_slot(
                    slot as int,
                    self@.slots[slot as int]->0,
                ).slots);
                Ok(slot as u64 + 1)
            },
            Err(e) => self.settle(
                Err(fail_with(ERR_DEVICE_NOT_CONNECTED, "device open failed: ", &e)),
            ),
        }
    }

    /// Close a device: its channel is disconnected, then the encrypted session
    /// closed, then the port given up.
    #[allow(non_snake_case)]
    pub fn PassThruClose(&mut self, device_id: u64) -> (r: Result<T, i32>)
        requires
            old(self)@.valid(),
        ensures
            match old(self)@.device(device_id) {
                None => {
                    &&& r matches Err(code)
                    &&& code == ERR_INVALID_DEVICE_ID
                    &&& final(self)@ == old(self)@.noting(
                        fault(ERR_INVALID_DEVICE_ID, "invalid device id"),
                    )
                },
                Some(i) => {
                    &&& r matches Ok(io)
                    &&& io.world() == old(self)@.slots[i]->0.release().session.teardown().world
                    &&& final(self)@ == (ShimState {
                        slots: old(self)@.slots.update(i, None),
                        ..old(self)@
                    })
                },
            },
            final(self)@.valid(),
    {
        match self.find_device(device_id) {
            None => self.refuse(ERR_INVALID_DEVICE_ID, "invalid device id"),
            Some(i) => {
                let mut taken: Option<Slot<T>> = None;
                std::mem::swap(&mut self.slots[i], &mut taken);
                proof {
                    assert(taken is Some);
                    assert(taken->0@ == old(self)@.slots[i as int]->0);
                    assert(self@.slots =~= old(self)@.slots.update(i as int, None));
                }
                Ok(taken.unwrap().close())
            },
        }
    }

    /// Open a channel, in place of any the device has. `id_wanted` says whether
    /// the caller gave a place for the ChannelID.
    #[allow(non_snake_case)]
    pub fn PassThruConnect(
        &mut self,
        device_id: u64,
        protocol_id: u64,
        flags: u64,
        baud_rate: u64,
        id_wanted: bool,
    ) -> (r: Result<u64, i32>)
        requires
            old(self)@.valid(),
        ensures
            (r, final(self)@) == old(self)@.connect(
                device_id,
                protocol_id,
                flags,
                baud_rate,
                id_wanted,
            ),
            final(self)@.valid(),
    {
        if !id_wanted {
            return self.refuse(ERR_NULL_PARAMETER, "NULL pChannelID");
        }
        let proto = match ProtocolId::from_id(low32(protocol_id)) {
            Ok(p) => p,
            Err(_) => {
                return self.refuse(
                    ERR_INVALID_PROTOCOL_ID,
                    "unsupported protocol id (the adapter stops responding until reopened if one is sent)",
                );
            },
        };
        match self.find_device(device_id) {
            None => self.refuse(ERR_INVALID_DEVICE_ID, "invalid device id"),
            Some(i) => {
                let r = self.slot_mut(i).connect(proto, low32(flags), low32(baud_rate));
                match r {
                    Ok(()) => Ok(i as u64 + CHANNEL_BASE),
                    Err(f) => self.settle(Err(f)),
                }
            },
        }
    }

    /// Close a channel; the session stays up.
    #[allow(non_snake_case)]
    pub fn PassThruDisconnect(&mut self, channel_id: u64) -> (r: Result<(), i32>)
        requires
            old(self)@.valid(),
        ensures
            (r, final(self)@) == old(self)@.disconnect(channel_id),
            final(self)@.valid(),
    {
        let at = match self.find_chan(channel_id) {
            Some(i) => Some(i),
            None => self.find_host(channel_id),
        };
        match at {
            Some(i) => {
                self.slot_mut(i).release();
                Ok(())
            },
            None => self.refuse(ERR_INVALID_CHANNEL_ID, "invalid channel id"),
        }
    }

    /// Install a filter. `id_wanted` says whether the caller gave a place for
    /// the handle.
    #[allow(non_snake_case)]
    pub fn PassThruStartMsgFilter(
        &mut self,
        channel_id: u64,
        filter_type: u64,
        mask: Option<&PassthruMsg>,
        pattern: Option<&PassthruMsg>,
        flow: Option<&PassthruMsg>,
        id_wanted: bool,
    ) -> (r: Result<u64, i32>)
        requires
            old(self)@.valid(),
            mask is Some ==> mask->0@.whole(),
            pattern is Some ==> pattern->0@.whole(),
            flow is Some ==> flow->0@.whole(),
        ensures
            (r, final(self)@) == old(self)@.start_msg_filter(
                channel_id,
                filter_type,
                seen_opt(mask),
                seen_opt(pattern),
                seen_opt(flow),
                id_wanted,
            ),
            final(self)@.valid(),
    {
        let (m, p) = match (mask, pattern) {
            (Some(m), Some(p)) => (m, p),
            _ => {
                return self.refuse(ERR_NULL_PARAMETER, "NULL filter msg");
            },
        };
        if !id_wanted {
            return self.refuse(ERR_NULL_PARAMETER, "NULL filter msg");
        }
        let ftype: u32 = low32(filter_type);
        if !(PASS_FILTER <= ftype && ftype <= FLOW_CONTROL_FILTER) {
            return self.refuse(ERR_INVALID_MSG, "bad filter type");
        }
        // J2534: a flow-control message accompanies FLOW_CONTROL_FILTER and
        // only it.
        if ftype == FLOW_CONTROL_FILTER && flow.is_none() {
            return self.refuse(
                ERR_NULL_PARAMETER,
                "FLOW_CONTROL_FILTER needs pFlowControlMsg",
            );
        }
        if ftype != FLOW_CONTROL_FILTER && flow.is_some() {
            return self.refuse(
                ERR_INVALID_MSG,
                "pFlowControlMsg only valid for FLOW_CONTROL_FILTER",
            );
        }
        if let Some(i) = self.find_host(channel_id) {
            let r = self.slot_mut(i).host_filter(ftype, p, flow);
            return match r {
                Ok(id) => Ok(id as u64),
                Err(f) => self.settle(Err(f)),
            };
        }
        if let Some(i) = self.find_chan(channel_id) {
            let r = self.slot_mut(i).chan_filter(ftype, m, p, flow);
            return match r {
                Ok(id) => Ok(id as u64),
                Err(f) => self.settle(Err(f)),
            };
        }
        self.refuse(ERR_INVALID_CHANNEL_ID, "invalid channel id")
    }

    /// Take a filter off. A host-path channel has one implicit filter; stopping
    /// it is a no-op (the endpoints persist until the channel is reconfigured
    /// or dropped).
    #[allow(non_snake_case)]
    pub fn PassThruStopMsgFilter(&mut self, channel_id: u64, filter_id: u64) -> (r: Result<
        (),
        i32,
    >)
        requires
            old(self)@.valid(),
        ensures
            (r, final(self)@) == old(self)@.stop_msg_filter(channel_id, filter_id),
            final(self)@.valid(),
    {
        if self.find_host(channel_id).is_some() {
            return Ok(());
        }
        if let Some(i) = self.find_chan(channel_id) {
            let r = self.slot_mut(i).chan_stop_filter(low32(filter_id));
            return self.settle(r);
        }
        self.refuse(ERR_INVALID_CHANNEL_ID, "invalid channel id")
    }

    /// Write messages: how it ended, and the number the caller's count becomes
    /// (`None`: it stays as it is).
    #[allow(non_snake_case)]
    pub fn PassThruWriteMsgs(&mut self, channel_id: u64, msgs: Option<&[PassthruMsg]>) -> (r: (
        Result<(), i32>,
        Option<usize>,
    ))
        requires
            old(self)@.valid(),
            msgs is Some ==> forall|i: int|
                0 <= i < msgs->0@.len() ==> (#[trigger] msgs->0@[i])@.whole(),
        ensures
            ({
                let (owed, count, after) = old(self)@.write_msgs(
                    channel_id,
                    match msgs {
                        Some(m) => Some(pass_msgs(m@)),
                        None => None,
                    },
                );
                &&& r.0 == owed
                &&& match r.1 {
                    Some(n) => count == Some(n as nat),
                    None => count is None,
                }
                &&& final(self)@ == after
            }),
            final(self)@.valid(),
    {
        let list = match msgs {
            Some(m) => m,
            None => {
                return (self.refuse(ERR_NULL_PARAMETER, "NULL/empty msg"), None);
            },
        };
        if list.len() == 0 {
            return (self.refuse(ERR_NULL_PARAMETER, "NULL/empty msg"), None);
        }
        if let Some(i) = self.find_host(channel_id) {
            let (w, sent) = self.slot_mut(i).host_write(list);
            return (self.settle(w), Some(sent));
        }
        if let Some(i) = self.find_chan(channel_id) {
            let (w, sent) = self.slot_mut(i).chan_write(list);
            return (self.settle(w), Some(sent));
        }
        (self.refuse(ERR_INVALID_CHANNEL_ID, "invalid channel id"), None)
    }

    /// Read up to as many messages as the caller has places for, within
    /// `timeout` milliseconds, into the first of them: how it ended, and how
    /// many came (`None`: the caller's count stays as it is).
    #[allow(non_snake_case)]
    pub fn PassThruReadMsgs(
        &mut self,
        channel_id: u64,
        places: &mut Vec<PassthruMsg>,
        timeout: u64,
    ) -> (r: (Result<(), i32>, Option<usize>))
        requires
            old(self)@.valid(),
        ensures
            ({
                let (owed, got, after) = old(self)@.read_msgs(
                    channel_id,
                    old(places)@.len() as u64,
                    timeout,
                );
                &&& r.0 == owed
                &&& final(self)@ == after
                &&& match got {
                    Some(msgs) => {
                        &&& r.1 matches Some(n) && n == msgs.len()
                        &&& msgs.len() <= old(places)@.len()
                        &&& pass_msgs(final(places)@) == filled_in(pass_msgs(old(places)@), msgs)
                    },
                    None => r.1 is None && *final(places) == *old(places),
                }
            }),
            final(self)@.valid(),
    {
        let (r, heard) = self.read_up_to(channel_id, places.len() as u64, timeout);
        match heard {
            Some(got) => {
                fill_places(places, &got);
                (r, Some(got.len()))
            },
            None => (r, None),
        }
    }

    fn read_up_to(&mut self, channel_id: u64, want: u64, timeout: u64) -> (r: (
        Result<(), i32>,
        Option<Vec<PassthruMsg>>,
    ))
        requires
            old(self)@.valid(),
        ensures
            ({
                let (owed, msgs, after) = old(self)@.read_msgs(channel_id, want, timeout);
                &&& r.0 == owed
                &&& match r.1 {
                    Some(m) => msgs == Some(pass_msgs(m@)) && m@.len() <= want,
                    None => msgs is None,
                }
                &&& final(self)@ == after
            }),
            final(self)@.valid(),
    {
        if want == 0 {
            return (self.refuse(ERR_NULL_PARAMETER, "NULL/empty msg"), None);
        }
        let host = self.find_host(channel_id);
        let chan = self.find_chan(channel_id);
        let epoch = match self.epoch {
            Some(t) => t,
            None => Instant { nanos: 0 },
        };
        if let Some(i) = host {
            let slot = self.slot_mut(i);
            let deadline = slot.deadline_in(timeout);
            let (h, got) = slot.host_read(epoch, deadline, want);
            return (self.settle(h), Some(got));
        }
        if let Some(i) = chan {
            let slot = self.slot_mut(i);
            let deadline = slot.deadline_in(timeout);
            let (h, got) = slot.chan_read(epoch, deadline, want);
            return (self.settle(h), Some(got));
        }
        (self.refuse(ERR_INVALID_CHANNEL_ID, "invalid channel id"), None)
    }

    /// An IOCTL on an ordinary channel: how it ended, and what the caller is
    /// handed. `place` is where the caller wants the output.
    #[allow(non_snake_case)]
    pub fn PassThruIoctl(
        &mut self,
        channel_id: u64,
        ioctl_id: u64,
        input: IoctlInput,
        place: IoctlPlace,
    ) -> (r: (Result<(), i32>, IoctlOutput))
        requires
            old(self)@.valid(),
            input@ matches IoctlIn::Msg(m) ==> m.whole(),
        ensures
            (r.0, r.1@, final(self)@) == old(self)@.ioctl(
                channel_id,
                ioctl_id,
                input@,
                place@,
            ),
            final(self)@.valid(),
    {
        let id: u32 = low32(ioctl_id);
        let known: bool = (GET_CONFIG <= id && id <= FAST_INIT) || (CLEAR_TX_BUFFER <= id && id
            <= CLEAR_MSG_FILTERS);
        if !known {
            return (
                self.refuse(ERR_NOT_SUPPORTED, "ioctl not supported"),
                IoctlOutput::Nothing,
            );
        }
        let i: usize = match self.find_chan(channel_id) {
            Some(i) => i,
            None => {
                return (
                    self.refuse(ERR_INVALID_CHANNEL_ID, "invalid channel id"),
                    IoctlOutput::Nothing,
                );
            },
        };
        match id {
            SET_CONFIG => (self.ioctl_set(i, input), IoctlOutput::Nothing),
            GET_CONFIG => self.ioctl_get(i, input),
            READ_VBATT => self.ioctl_vbatt(i, place),
            CLEAR_PERIODIC_MSGS => {
                let c = self.slot_mut(i).clear_periodic();
                (self.settle(c), IoctlOutput::Nothing)
            },
            FAST_INIT => self.ioctl_init(i, input, place, false),
            FIVE_BAUD_INIT => self.ioctl_init(i, input, place, true),
            // The firmware's CLEAR_TX_BUFFER is itself a no-op that reports
            // success.
            _ => (Ok(()), IoctlOutput::Nothing),
        }
    }

    fn ioctl_set(&mut self, i: usize, input: IoctlInput) -> (r: Result<(), i32>)
        requires
            old(self)@.valid(),
            i < MAX_SLOTS,
            old(self)@.slots[i as int] matches Some(s) && s.chan is Some,
        ensures
            (r, final(self)@) == old(self)@.ioctl_set(i as int, input@),
            final(self)@.valid(),
    {
        match input {
            IoctlInput::Configs(list) => match list.config {
                Some(params) => {
                    let r = self.slot_mut(i).set_configs(&params);
                    self.settle(r)
                },
                None => self.refuse(ERR_NULL_PARAMETER, "NULL ConfigPtr"),
            },
            _ => self.refuse(ERR_NULL_PARAMETER, "NULL SCONFIG_LIST"),
        }
    }

    fn ioctl_get(&mut self, i: usize, input: IoctlInput) -> (r: (Result<(), i32>, IoctlOutput))
        requires
            old(self)@.valid(),
            i < MAX_SLOTS,
            old(self)@.slots[i as int] matches Some(s) && s.chan is Some,
        ensures
            (r.0, r.1@, final(self)@) == old(self)@.ioctl_get(i as int, input@),
            final(self)@.valid(),
    {
        match input {
            IoctlInput::Configs(list) => match list.config {
                Some(config) => {
                    let mut params = config;
                    let g = self.slot_mut(i).get_configs(&mut params);
                    (self.settle(g), IoctlOutput::Configs(params))
                },
                None => (
                    self.refuse(ERR_NULL_PARAMETER, "NULL ConfigPtr"),
                    IoctlOutput::Nothing,
                ),
            },
            _ => (
                self.refuse(ERR_NULL_PARAMETER, "NULL SCONFIG_LIST"),
                IoctlOutput::Nothing,
            ),
        }
    }

    fn ioctl_vbatt(&mut self, i: usize, place: IoctlPlace) -> (r: (Result<(), i32>, IoctlOutput))
        requires
            old(self)@.valid(),
            i < MAX_SLOTS,
            old(self)@.slots[i as int] matches Some(s) && s.chan is Some,
        ensures
            (r.0, r.1@, final(self)@) == old(self)@.ioctl_vbatt(i as int, place@),
            final(self)@.valid(),
    {
        if let IoctlPlace::Null = place {
            return (
                self.refuse(ERR_NULL_PARAMETER, "NULL READ_VBATT output"),
                IoctlOutput::Nothing,
            );
        }
        let v = self.slot_mut(i).read_vbatt();
        match self.settle(v) {
            Ok(mv) => (Ok(()), IoctlOutput::Voltage(mv)),
            Err(code) => (Err(code), IoctlOutput::Nothing),
        }
    }

    fn ioctl_init(&mut self, i: usize, input: IoctlInput, place: IoctlPlace, slow: bool) -> (r: (
        Result<(), i32>,
        IoctlOutput,
    ))
        requires
            old(self)@.valid(),
            i < MAX_SLOTS,
            old(self)@.slots[i as int] matches Some(s) && s.chan is Some,
            input@ matches IoctlIn::Msg(m) ==> m.whole(),
        ensures
            (r.0, r.1@, final(self)@) == old(self)@.ioctl_init(
                i as int,
                input@,
                place@,
                slow,
            ),
            final(self)@.valid(),
    {
        let msg = match &input {
            IoctlInput::Msg(m) => Some(m),
            _ => None,
        };
        let m = self.slot_mut(i).kline_init(msg, slow);
        match m {
            Ok(reply) => (
                Ok(()),
                match place {
                    IoctlPlace::Msg(mut out) => {
                        out.fill(&reply);
                        IoctlOutput::Msg(out)
                    },
                    _ => IoctlOutput::Nothing,
                },
            ),
            Err(f) => (self.settle(Err(f)), IoctlOutput::Nothing),
        }
    }

    /// Start a periodic message. `id_wanted` says whether the caller gave a
    /// place for the handle.
    #[allow(non_snake_case)]
    pub fn PassThruStartPeriodicMsg(
        &mut self,
        channel_id: u64,
        msg: Option<&PassthruMsg>,
        id_wanted: bool,
        time_interval: u64,
    ) -> (r: Result<u64, i32>)
        requires
            old(self)@.valid(),
            msg is Some ==> msg->0@.whole(),
        ensures
            (r, final(self)@) == old(self)@.start_periodic_msg(
                channel_id,
                seen_opt(msg),
                id_wanted,
                time_interval,
            ),
            final(self)@.valid(),
    {
        let m = match msg {
            Some(m) => m,
            None => {
                return self.refuse(ERR_NULL_PARAMETER, "NULL periodic message/id");
            },
        };
        if !id_wanted {
            return self.refuse(ERR_NULL_PARAMETER, "NULL periodic message/id");
        }
        match self.find_chan(channel_id) {
            Some(i) => {
                let r = self.slot_mut(i).start_periodic(m, low32(time_interval));
                match r {
                    Ok(id) => Ok(id as u64),
                    Err(f) => self.settle(Err(f)),
                }
            },
            None => self.refuse(ERR_INVALID_CHANNEL_ID, "invalid channel id"),
        }
    }

    /// Stop a periodic message.
    #[allow(non_snake_case)]
    pub fn PassThruStopPeriodicMsg(&mut self, channel_id: u64, msg_id: u64) -> (r: Result<(), i32>)
        requires
            old(self)@.valid(),
        ensures
            (r, final(self)@) == old(self)@.stop_periodic_msg(channel_id, msg_id),
            final(self)@.valid(),
    {
        match self.find_chan(channel_id) {
            Some(i) => {
                let r = self.slot_mut(i).stop_periodic(low32(msg_id));
                self.settle(r)
            },
            None => self.refuse(ERR_INVALID_CHANNEL_ID, "invalid channel id"),
        }
    }

    /// Passthrough to the firmware's SET_PROGRAMMING_VOLTAGE (0x0D). On the
    /// Mini-VCI the firmware stores the value and drives no pin (a no-op that
    /// reports success); cables whose firmware implements the opcode act on it.
    #[allow(non_snake_case)]
    pub fn PassThruSetProgrammingVoltage(
        &mut self,
        device_id: u64,
        pin_number: u64,
        voltage: u64,
    ) -> (r: Result<(), i32>)
        requires
            old(self)@.valid(),
        ensures
            (r, final(self)@) == old(self)@.set_programming_voltage(
                device_id,
                pin_number,
                voltage,
            ),
            final(self)@.valid(),
    {
        match self.find_device(device_id) {
            Some(i) => {
                let r = self.slot_mut(i).set_programming_voltage(
                    low32(pin_number),
                    low32(voltage),
                );
                self.settle(r)
            },
            None => self.refuse(ERR_INVALID_DEVICE_ID, "invalid device id"),
        }
    }

    /// The identity of an open device. Without an override it is that of the
    /// vendor's Mini-VCI DLL, so the host app (e.g. Toyota Techstream)
    /// recognises the adapter. An override is cut to what the caller's buffer
    /// of 80 bytes can hold.
    #[allow(non_snake_case)]
    pub fn PassThruReadVersion(
        &self,
        device_id: u64,
        firmware: Option<String>,
        dll: Option<String>,
        api: Option<String>,
    ) -> (r: Result<Versions, i32>)
        requires
            self@.valid(),
        ensures
            match self@.device(device_id) {
                None => r matches Err(code) && code == ERR_INVALID_DEVICE_ID,
                Some(_) => {
                    &&& r matches Ok(v)
                    &&& is_text_or(v.firmware@, firmware, "J2534 MINIV1.03")
                    &&& is_text_or(v.dll@, dll, "MVCI J2534 DLL v1.4.6")
                    &&& is_text_or(v.api@, api, "04.04")
                },
            },
    {
        if self.find_device(device_id).is_none() {
            return Err(ERR_INVALID_DEVICE_ID);
        }
        Ok(
            Versions {
                firmware: given_or(firmware, "J2534 MINIV1.03"),
                dll: given_or(dll, "MVCI J2534 DLL v1.4.6"),
                api: given_or(api, "04.04"),
            },
        )
    }

    /// What the last failed call had to say, cut to what the caller's buffer of
    /// 80 bytes can hold. `out_wanted` says whether there is such a buffer.
    #[allow(non_snake_case)]
    pub fn PassThruGetLastError(&self, out_wanted: bool) -> (r: Result<String, i32>)
        ensures
            if !out_wanted {
                r matches Err(code) && code == ERR_NULL_PARAMETER
            } else {
                &&& r matches Ok(text)
                &&& cut_to_fit(text@, self@.last_error, TEXT_ROOM as nat)
            },
    {
        if !out_wanted {
            return Err(ERR_NULL_PARAMETER);
        }
        Ok(fitting(self.last_error.as_str(), TEXT_ROOM))
    }
}

/// Put received messages into the first of a caller's.
fn fill_places(places: &mut Vec<PassthruMsg>, got: &Vec<PassthruMsg>)
    requires
        got@.len() <= old(places)@.len(),
    ensures
        pass_msgs(final(places)@) == filled_in(pass_msgs(old(places)@), pass_msgs(got@)),
{
    let mut i: usize = 0;
    while i < got.len()
        invariant
            i <= got.len() <= places.len(),
            places@.len() == old(places)@.len(),
            forall|j: int|
                0 <= j < places@.len() ==> (#[trigger] places@[j])@ == if j < i {
                    old(places)@[j]@.filled(got@[j]@)
                } else {
                    old(places)@[j]@
                },
        decreases got.len() - i,
    {
        places[i].fill(&got[i]);
        i = i + 1;
    }
    assert(pass_msgs(places@) =~= filled_in(pass_msgs(old(places)@), pass_msgs(got@)));
}

/// Whether a text is what an override says, cut to the caller's buffer, or else
/// what is usual.
pub open spec fn is_text_or(text: Seq<char>, given: Option<String>, usual: &'static str) -> bool {
    match given {
        Some(s) => cut_to_fit(text, s@, TEXT_ROOM as nat),
        None => text == usual@,
    }
}

fn given_or(given: Option<String>, usual: &'static str) -> (s: String)
    ensures
        is_text_or(s@, given, usual),
{
    match given {
        Some(s) => fitting(s.as_str(), TEXT_ROOM),
        None => usual.to_owned(),
    }
}

} // verus!
