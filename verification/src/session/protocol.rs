//! Protocol markers and per-protocol filter types.
//!
//! The filter identifier width (`idlen`) is protocol-dependent: 1 byte on
//! K-line, a 4-byte CAN id on CAN/ISO15765, 5 with extended addressing. The
//! adapter infers it from the command length, rejecting anything else.
//! Encoding it in the `Protocol::Filter` associated type makes a mismatched
//! filter unrepresentable instead of a runtime rejection.

use vstd::prelude::*;

use crate::bytes::{be32, copy_all, from_be32, lemma_be32_round_trip, push_be32};
use crate::session::sealed::Sealed;
use crate::types::{FilterType, ProtocolId};

verus! {

/// A protocol the adapter implements, as a type. See [`crate::Channel`].
pub trait Protocol: Sealed {
    type Filter: FilterSpec;

    type Config: ChannelConfig;

    spec fn spec_id() -> ProtocolId;

    fn id() -> (r: ProtocolId)
        ensures
            r == Self::spec_id(),
    ;
}

/// Connect parameters, lowered to the wire `(ConnectFlags, BaudRate)` pair.
pub trait ChannelConfig {
    spec fn spec_wire(&self) -> (u32, u32);

    fn wire(&self) -> (r: (u32, u32))
        ensures
            r == self.spec_wire(),
    ;
}

/// An 11- or 29-bit CAN identifier. Encoded big-endian on the wire, matching
/// J2534's `PASSTHRU_MSG.Data[0..4]` convention.
#[derive(Debug, Clone, Copy, PartialEq, Eq, Structural)]
pub enum CanId {
    Std(u16),
    Ext(u32),
}

impl CanId {
    /// The identifier as a number, cut to its width.
    pub open spec fn number(self) -> u32 {
        match self {
            CanId::Std(v) => (v % 0x800) as u32,
            CanId::Ext(v) => v % 0x2000_0000,
        }
    }

    /// The four bytes the wire carries.
    pub open spec fn bytes(self) -> Seq<u8> {
        be32(self.number())
    }

    pub fn to_wire(self) -> (r: [u8; 4])
        ensures
            r@ == self.bytes(),
    {
        let v: u32 = match self {
            CanId::Std(v) => (v % 0x800) as u32,
            CanId::Ext(v) => v % 0x2000_0000,
        };
        let r = [
            (v / 16777216) as u8,
            ((v / 65536) % 256) as u8,
            ((v / 256) % 256) as u8,
            (v % 256) as u8,
        ];
        assert(r@ =~= be32(v));
        r
    }

    /// The identifier that four wire bytes stand for.
    pub open spec fn of_bytes(bytes: Seq<u8>, ext29: bool) -> CanId {
        if ext29 {
            CanId::Ext(from_be32(bytes) % 0x2000_0000)
        } else {
            CanId::Std((from_be32(bytes) % 0x800) as u16)
        }
    }

    /// The identifier that four wire bytes stand for: 29-bit if `ext29`, else
    /// 11-bit.
    pub fn from_wire(bytes: [u8; 4], ext29: bool) -> (r: CanId)
        ensures
            r == CanId::of_bytes(bytes@, ext29),
    {
        let v: u32 = bytes[3] as u32 + 256 * (bytes[2] as u32) + 65536 * (bytes[1] as u32)
            + 16777216 * (bytes[0] as u32);
        if ext29 {
            CanId::Ext(v % 0x2000_0000)
        } else {
            CanId::Std((v % 0x800) as u16)
        }
    }

    pub fn is_ext(self) -> (r: bool)
        ensures
            r == (self is Ext),
    {
        matches!(self, CanId::Ext(_))
    }
}

/// Reading an identifier back from the wire gives the same width and number.
pub proof fn lemma_can_id_round_trip(id: CanId)
    ensures
        CanId::of_bytes(id.bytes(), id is Ext).number() == id.number(),
        CanId::of_bytes(id.bytes(), id is Ext) is Ext <==> id is Ext,
        id.bytes().len() == 4,
{
    lemma_be32_round_trip(id.number());
}

/// A filter lowered to its wire fields.
pub struct EncodedFilter {
    pub ftype: FilterType,
    pub mask: Vec<u8>,
    pub pattern: Vec<u8>,
    pub flow: Option<Vec<u8>>,
    pub idlen: usize,
}

/// What an [`EncodedFilter`] holds.
pub struct FilterFields {
    pub ftype: FilterType,
    pub mask: Seq<u8>,
    pub pattern: Seq<u8>,
    pub flow: Option<Seq<u8>>,
    pub idlen: usize,
}

impl View for EncodedFilter {
    type V = FilterFields;

    open spec fn view(&self) -> FilterFields {
        FilterFields {
            ftype: self.ftype,
            mask: self.mask@,
            pattern: self.pattern@,
            flow: match self.flow {
                Some(f) => Some(f@),
                None => None,
            },
            idlen: self.idlen,
        }
    }
}

pub trait FilterSpec {
    spec fn fields(&self) -> FilterFields;

    fn encode(&self) -> (r: EncodedFilter)
        ensures
            r@ == self.fields(),
    ;
}

/// K-line PASS filter: one mask/pattern byte over the message header.
#[derive(Debug, Clone, Copy)]
pub struct KLineFilter {
    pub mask: u8,
    pub pattern: u8,
}

impl FilterSpec for KLineFilter {
    open spec fn fields(&self) -> FilterFields {
        FilterFields {
            ftype: FilterType::Pass,
            mask: seq![self.mask],
            pattern: seq![self.pattern],
            flow: None,
            idlen: 1,
        }
    }

    fn encode(&self) -> (r: EncodedFilter) {
        let r = EncodedFilter {
            ftype: FilterType::Pass,
            mask: vec![self.mask],
            pattern: vec![self.pattern],
            flow: None,
            idlen: 1,
        };
        assert(r@.mask =~= seq![self.mask]);
        assert(r@.pattern =~= seq![self.pattern]);
        r
    }
}

/// Raw-CAN PASS filter.
///
/// The adapter turns `(mask, pattern)` into the *range*
/// `[pattern & mask, pattern | !mask]`, so the J2534-habitual `0x7FF` mask
/// opens the range to `0xFFFFFFCC` and matches nothing useful. Use
/// [`CanFilter::exact`] unless you know you want a range.
#[derive(Debug, Clone, Copy)]
pub struct CanFilter {
    pub mask: u32,
    pub pattern: CanId,
}

impl CanFilter {
    /// Exact-match filter for one identifier (mask `FF FF FF FF`).
    pub fn exact(id: CanId) -> (r: CanFilter)
        ensures
            r.mask == 0xffff_ffff,
            r.pattern == id,
    {
        CanFilter { mask: 0xffff_ffff, pattern: id }
    }
}

impl FilterSpec for CanFilter {
    open spec fn fields(&self) -> FilterFields {
        FilterFields {
            ftype: FilterType::Pass,
            mask: be32(self.mask),
            pattern: self.pattern.bytes(),
            flow: None,
            idlen: 4,
        }
    }

    fn encode(&self) -> (r: EncodedFilter) {
        let mut mask: Vec<u8> = Vec::new();
        push_be32(&mut mask, self.mask);
        assert(mask@ =~= be32(self.mask));
        EncodedFilter {
            ftype: FilterType::Pass,
            mask,
            pattern: copy_all(self.pattern.to_wire().as_slice()),
            flow: None,
            idlen: 4,
        }
    }
}

/// ISO15765 flow-control filter: `rx` is the identifier the ECU answers on
/// (what we receive), `tx` the identifier the adapter sends flow control to.
///
/// Built through [`FlowControlFilter::exact`] the mask is `FF FF FF FF`; the
/// range trap (see [`CanFilter`]) is opt-in via [`FlowControlFilter::with_mask`].
#[derive(Debug, Clone, Copy)]
pub struct FlowControlFilter {
    pub rx: CanId,
    pub tx: CanId,
    pub mask: u32,
    /// Extended-addressing byte (5-byte fields on the wire). **Untested on
    /// hardware.**
    pub ext_addr: Option<u8>,
}

impl FlowControlFilter {
    pub fn exact(rx: CanId, tx: CanId) -> (r: FlowControlFilter)
        ensures
            r == (FlowControlFilter { rx, tx, mask: 0xffff_ffff, ext_addr: None }),
    {
        FlowControlFilter { rx, tx, mask: 0xffff_ffff, ext_addr: None }
    }

    pub fn with_mask(self, mask: u32) -> (r: FlowControlFilter)
        ensures
            r == (FlowControlFilter { mask, ..self }),
    {
        FlowControlFilter { rx: self.rx, tx: self.tx, mask, ext_addr: self.ext_addr }
    }

    pub fn with_ext_addr(self, addr: u8) -> (r: FlowControlFilter)
        ensures
            r == (FlowControlFilter { ext_addr: Some(addr), ..self }),
    {
        FlowControlFilter { rx: self.rx, tx: self.tx, mask: self.mask, ext_addr: Some(addr) }
    }

    pub fn rx(&self) -> (r: CanId)
        ensures
            r == self.rx,
    {
        self.rx
    }

    pub fn tx(&self) -> (r: CanId)
        ensures
            r == self.tx,
    {
        self.tx
    }
}

impl FilterSpec for FlowControlFilter {
    open spec fn fields(&self) -> FilterFields {
        match self.ext_addr {
            None => FilterFields {
                ftype: FilterType::FlowControl,
                mask: be32(self.mask),
                pattern: self.rx.bytes(),
                flow: Some(self.tx.bytes()),
                idlen: 4,
            },
            Some(addr) => FilterFields {
                ftype: FilterType::FlowControl,
                mask: be32(self.mask).push(0xff),
                pattern: self.rx.bytes().push(addr),
                flow: Some(self.tx.bytes().push(addr)),
                idlen: 5,
            },
        }
    }

    fn encode(&self) -> (r: EncodedFilter) {
        let mut mask: Vec<u8> = Vec::new();
        push_be32(&mut mask, self.mask);
        assert(mask@ =~= be32(self.mask));
        let mut pattern: Vec<u8> = copy_all(self.rx.to_wire().as_slice());
        let mut flow: Vec<u8> = copy_all(self.tx.to_wire().as_slice());
        let mut idlen: usize = 4;
        if let Some(addr) = self.ext_addr {
            mask.push(0xff);
            pattern.push(addr);
            flow.push(addr);
            idlen = 5;
        }
        EncodedFilter { ftype: FilterType::FlowControl, mask, pattern, flow: Some(flow), idlen }
    }
}

pub struct Iso9141;

pub struct Iso14230;

pub struct Can;

pub struct Iso15765;

/// K-line connect parameters. The defaults match the vendor tool's ISO14230
/// session (`connect(4, 4096, 10400)`; flag 0x1000 is ISO9141_K_LINE_ONLY).
#[derive(Debug, Clone, Copy)]
pub struct KLineConfig {
    pub baud: u32,
    pub flags: u32,
}

impl Default for KLineConfig {
    fn default() -> (r: KLineConfig)
        ensures
            r.baud == 10400,
            r.flags == 0x1000,
    {
        KLineConfig { baud: 10400, flags: 0x1000 }
    }
}

impl ChannelConfig for KLineConfig {
    open spec fn spec_wire(&self) -> (u32, u32) {
        (self.flags, self.baud)
    }

    fn wire(&self) -> (r: (u32, u32)) {
        (self.flags, self.baud)
    }
}

/// CAN / ISO15765 connect parameters.
///
/// The firmware does not validate the bitrate: `PCLK/bitrate` truncates
/// silently, so a rate that doesn't divide 40 MHz cleanly is quietly rounded
/// (500001 -> 571 kbit/s). Stick to the standard rates.
#[derive(Debug, Clone, Copy)]
pub struct CanConfig {
    pub bitrate: u32,
    pub flags: u32,
}

impl Default for CanConfig {
    fn default() -> (r: CanConfig)
        ensures
            r == (CanConfig { bitrate: 500_000, flags: 0 }),
    {
        CanConfig { bitrate: 500_000, flags: 0 }
    }
}

impl ChannelConfig for CanConfig {
    open spec fn spec_wire(&self) -> (u32, u32) {
        (self.flags, self.bitrate)
    }

    fn wire(&self) -> (r: (u32, u32)) {
        (self.flags, self.bitrate)
    }
}

impl Sealed for Iso9141 {

}

impl Sealed for Iso14230 {

}

impl Sealed for Can {

}

impl Sealed for Iso15765 {

}

impl Protocol for Iso9141 {
    type Filter = KLineFilter;

    type Config = KLineConfig;

    open spec fn spec_id() -> ProtocolId {
        ProtocolId::Iso9141
    }

    fn id() -> (r: ProtocolId) {
        ProtocolId::Iso9141
    }
}

impl Protocol for Iso14230 {
    type Filter = KLineFilter;

    type Config = KLineConfig;

    open spec fn spec_id() -> ProtocolId {
        ProtocolId::Iso14230
    }

    fn id() -> (r: ProtocolId) {
        ProtocolId::Iso14230
    }
}

impl Protocol for Can {
    type Filter = CanFilter;

    type Config = CanConfig;

    open spec fn spec_id() -> ProtocolId {
        ProtocolId::Can
    }

    fn id() -> (r: ProtocolId) {
        ProtocolId::Can
    }
}

impl Protocol for Iso15765 {
    type Filter = FlowControlFilter;

    type Config = CanConfig;

    open spec fn spec_id() -> ProtocolId {
        ProtocolId::Iso15765
    }

    fn id() -> (r: ProtocolId) {
        ProtocolId::Iso15765
    }
}

/// CAN-framed protocols (4-byte identifier prefix on every message).
pub trait CanFramed: Protocol {

}

impl CanFramed for Can {

}

impl CanFramed for Iso15765 {

}

/// K-line protocols (ISO9141 / ISO14230). They share one firmware class
/// object, so message send and both init flavours are identical across the
/// two. Only ISO14230 is hardware-verified: ISO9141's firmware path exists
/// but is unexercised on a real ECU.
pub trait KLine: Protocol {

}

impl KLine for Iso9141 {

}

impl KLine for Iso14230 {

}

} // verus!
