//! The value model of the protocol: addresses, option sets and status codes,
//! the outbound commands and inbound events built from them, and the byte
//! layout of each.

use vstd::prelude::*;

verus! {

/// The 16-bit network address of a node, most significant byte first.
#[derive(Debug, PartialEq, Eq, Structural, Clone, Copy)]
pub struct Address {
    pub high: u8,
    pub low: u8,
}

impl Address {
    /// The address of the network's coordinator.
    pub fn coordinator() -> (a: Address)
        ensures
            a.high == 0,
            a.low == 0,
    {
        Address { high: 0, low: 0 }
    }

    /// The address to use when the 16-bit address of the destination is not known.
    pub fn unknown() -> (a: Address)
        ensures
            a.high == 0xFF,
            a.low == 0xFE,
    {
        Address { high: 0xFF, low: 0xFE }
    }

    /// The address whose wire form is the two bytes `bytes`.
    pub open spec fn of_bytes(bytes: Seq<u8>) -> Address
        recommends
            bytes.len() >= 2,
    {
        Address { high: bytes[0], low: bytes[1] }
    }

    /// The two bytes of the address as they stand on the wire.
    pub open spec fn bytes(self) -> Seq<u8> {
        seq![self.high, self.low]
    }

    /// Reads the address that stands at `offset` in `bytes`.
    pub fn from(bytes: &[u8], offset: usize) -> (a: Address)
        requires
            offset + 2 <= bytes@.len(),
        ensures
            a == Address::of_bytes(bytes@.subrange(offset as int, offset + 2)),
    {
        Address { high: bytes[offset], low: bytes[offset + 1] }
    }
}

/// The 64-bit hardware address of a node, as two 32-bit halves.
#[derive(Debug, PartialEq, Eq, Structural, Clone, Copy)]
pub struct MAC {
    pub high: u32,
    pub low: u32,
}

/// The 32-bit word whose bytes are, from the most significant down, `b0` to `b3`.
pub open spec fn word_of(b0: u8, b1: u8, b2: u8, b3: u8) -> u32 {
    (b0 as int * 0x100_0000 + b1 as int * 0x1_0000 + b2 as int * 0x100 + b3 as int) as u32
}

/// Byte `i` of `word`, counted from the most significant byte.
pub open spec fn word_byte(word: u32, i: int) -> u8
    recommends
        0 <= i < 4,
{
    if i == 0 {
        (word as int / 0x100_0000) as u8
    } else if i == 1 {
        (word as int / 0x1_0000 % 0x100) as u8
    } else if i == 2 {
        (word as int / 0x100 % 0x100) as u8
    } else {
        (word as int % 0x100) as u8
    }
}

impl MAC {
    /// The hardware address that stands for the coordinator.
    pub fn coordinator() -> (m: MAC)
        ensures
            m.high == 0,
            m.low == 0,
    {
        MAC { high: 0, low: 0 }
    }

    /// The hardware address that reaches every node.
    pub fn broadcast() -> (m: MAC)
        ensures
            m.high == 0,
            m.low == 0xFFFF,
    {
        MAC { high: 0x0000, low: 0xFFFF }
    }

    /// The address whose wire form is the eight bytes `bytes`, big-endian.
    pub open spec fn of_bytes(bytes: Seq<u8>) -> MAC
        recommends
            bytes.len() >= 8,
    {
        MAC {
            high: word_of(bytes[0], bytes[1], bytes[2], bytes[3]),
            low: word_of(bytes[4], bytes[5], bytes[6], bytes[7]),
        }
    }

    /// Byte `i` of the wire form: the high half first, each half most
    /// significant byte first.
    pub open spec fn byte(self, i: int) -> u8
        recommends
            0 <= i < 8,
    {
        if i < 4 {
            word_byte(self.high, i)
        } else {
            word_byte(self.low, i - 4)
        }
    }

    /// The eight bytes of the address as they stand on the wire.
    pub open spec fn bytes(self) -> Seq<u8> {
        Seq::new(8, |i: int| self.byte(i))
    }

    /// Reads the hardware address that stands at `offset` in `bytes`.
    pub fn from(bytes: &[u8], offset: usize) -> (m: MAC)
        requires
            offset + 8 <= bytes@.len(),
        ensures
            m == MAC::of_bytes(bytes@.subrange(offset as int, offset + 8)),
    {
        let high = join_word(bytes[offset], bytes[offset + 1], bytes[offset + 2], bytes[offset + 3]);
        let low = join_word(
            bytes[offset + 4],
            bytes[offset + 5],
            bytes[offset + 6],
            bytes[offset + 7],
        );
        MAC { high, low }
    }

    /// Byte `i` of the wire form, for `i` below 8.
    pub fn at(&self, i: usize) -> (r: Result<u8, ()>)
        ensures
            match r {
                Ok(b) => i < 8 && b == self.byte(i as int),
                Err(_) => i >= 8,
            },
    {
        let h = self.high;
        let l = self.low;
        proof {
            lemma_split_word(h);
            lemma_split_word(l);
        }
        match i {
            0 => Ok((h >> 24) as u8),
            1 => Ok(((h >> 16) & 0xFF) as u8),
            2 => Ok(((h >> 8) & 0xFF) as u8),
            3 => Ok((h & 0xFF) as u8),
            4 => Ok((l >> 24) as u8),
            5 => Ok(((l >> 16) & 0xFF) as u8),
            6 => Ok(((l >> 8) & 0xFF) as u8),
            7 => Ok((l & 0xFF) as u8),
            _ => Err(()),
        }
    }

    /// Writing an address out and reading it back gives the same address,
    /// and reading eight bytes and writing them out gives the same bytes.
    pub proof fn lemma_bytes_round_trip(m: MAC, bytes: Seq<u8>)
        requires
            bytes.len() == 8,
        ensures
            MAC::of_bytes(m.bytes()) == m,
            MAC::of_bytes(bytes).bytes() == bytes,
    {
        lemma_word_round_trip(m.high);
        lemma_word_round_trip(m.low);
        lemma_bytes_of_word(bytes[0], bytes[1], bytes[2], bytes[3]);
        lemma_bytes_of_word(bytes[4], bytes[5], bytes[6], bytes[7]);
        assert(MAC::of_bytes(bytes).bytes() =~= bytes);
    }
}

/// Assembles a 32-bit word from its four bytes, most significant first.
fn join_word(b0: u8, b1: u8, b2: u8, b3: u8) -> (w: u32)
    ensures
        w == word_of(b0, b1, b2, b3),
{
    assert(((b0 as u32) << 24) | ((b1 as u32) << 16) | ((b2 as u32) << 8) | (b3 as u32)
        == (b0 as u32) * 0x100_0000 + (b1 as u32) * 0x1_0000 + (b2 as u32) * 0x100 + (b3 as u32))
        by (bit_vector);
    ((b0 as u32) << 24) | ((b1 as u32) << 16) | ((b2 as u32) << 8) | (b3 as u32)
}

/// Shifting and masking pick the same bytes of a word as dividing does.
proof fn lemma_split_word(w: u32)
    ensures
        (w >> 24) as u8 == word_byte(w, 0),
        ((w >> 16) & 0xFF) as u8 == word_byte(w, 1),
        ((w >> 8) & 0xFF) as u8 == word_byte(w, 2),
        (w & 0xFF) as u8 == word_byte(w, 3),
{
    assert((w >> 24) == w / 0x100_0000) by (bit_vector);
    assert(((w >> 16) & 0xFF) == w / 0x1_0000 % 0x100) by (bit_vector);
    assert(((w >> 8) & 0xFF) == w / 0x100 % 0x100) by (bit_vector);
    assert((w & 0xFF) == w % 0x100) by (bit_vector);
}

/// A word is the word of its own four bytes.
proof fn lemma_word_round_trip(w: u32)
    ensures
        word_of(word_byte(w, 0), word_byte(w, 1), word_byte(w, 2), word_byte(w, 3)) == w,
{
}

/// The bytes of the word of four bytes are those four bytes.
proof fn lemma_bytes_of_word(b0: u8, b1: u8, b2: u8, b3: u8)
    ensures
        word_byte(word_of(b0, b1, b2, b3), 0) == b0,
        word_byte(word_of(b0, b1, b2, b3), 1) == b1,
        word_byte(word_of(b0, b1, b2, b3), 2) == b2,
        word_byte(word_of(b0, b1, b2, b3), 3) == b3,
{
    let w = word_of(b0, b1, b2, b3);
    assert(w == (b0 as u32) * 0x100_0000 + (b1 as u32) * 0x1_0000 + (b2 as u32) * 0x100 + (
    b3 as u32));
    assert(w / 0x100_0000 == b0 && w / 0x1_0000 % 0x100 == b1 && w / 0x100 % 0x100 == b2 && w
        % 0x100 == b3) by (bit_vector)
        requires
            w == (b0 as u32) * 0x100_0000 + (b1 as u32) * 0x1_0000 + (b2 as u32) * 0x100 + (
            b3 as u32),
    ;
}

/// The options of a transmit request.
///
/// A value holds named flags only: every other bit is clear.
#[derive(Debug, PartialEq, Eq, Structural, Clone, Copy)]
pub struct TxOptions {
    bits: u8,
}

impl View for TxOptions {
    type V = u8;

    closed spec fn view(&self) -> u8 {
        self.bits
    }
}

impl TxOptions {
    /// Send once, without retries or route repair.
    pub const DISABLE_RETRIES: u8 = 0x01;

    /// Encrypt the payload at the application layer.
    pub const ENABLE_ENCRYPTION: u8 = 0x20;

    /// Allow the longer timeout that sleeping destinations need.
    pub const EXTENDED_TIMEOUT: u8 = 0x40;

    /// Every named flag together.
    pub const ALL: u8 = 0x61;

    #[verifier::type_invariant]
    spec fn named_flags_only(self) -> bool {
        self.bits & !Self::ALL == 0
    }

    /// The set with no flag.
    pub fn empty() -> (o: TxOptions)
        ensures
            o@ == 0,
    {
        assert(0u8 & !0x61u8 == 0) by (bit_vector);
        TxOptions { bits: 0 }
    }

    /// The set with every named flag.
    pub fn all() -> (o: TxOptions)
        ensures
            o@ == Self::ALL,
    {
        assert(0x61u8 & !0x61u8 == 0) by (bit_vector);
        TxOptions { bits: Self::ALL }
    }

    /// The flags as they stand on the wire: named flags only.
    pub fn bits(&self) -> (b: u8)
        ensures
            b == self@,
            b & !Self::ALL == 0,
    {
        proof {
            use_type_invariant(self);
        }
        self.bits
    }

    /// The set that `bits` spells, if every bit of it has a name.
    pub fn from_bits(bits: u8) -> (r: Option<TxOptions>)
        ensures
            match r {
                Some(o) => o@ == bits && bits & !Self::ALL == 0,
                None => bits & !Self::ALL != 0,
            },
    {
        if bits & !Self::ALL == 0 {
            Some(TxOptions { bits })
        } else {
            None
        }
    }

    /// The named flags among `bits`; the bits without a name are dropped.
    pub fn from_bits_truncate(bits: u8) -> (o: TxOptions)
        ensures
            o@ == bits & Self::ALL,
    {
        assert((bits & 0x61u8) & !0x61u8 == 0) by (bit_vector);
        TxOptions { bits: bits & Self::ALL }
    }

    /// Whether every flag of `other` is in this set.
    pub fn contains(&self, other: TxOptions) -> (r: bool)
        ensures
            r == (self@ & other@ == other@),
    {
        self.bits & other.bits == other.bits
    }
}

impl core::ops::BitOr for TxOptions {
    type Output = TxOptions;

    /// The flags that are in either set.
    fn bitor(self, other: TxOptions) -> (r: TxOptions)
        ensures
            r@ == self@ | other@,
    {
        proof {
            use_type_invariant(self);
            use_type_invariant(other);
            let a = self.bits;
            let b = other.bits;
            assert((a | b) & !0x61u8 == 0) by (bit_vector)
                requires
                    a & !0x61u8 == 0,
                    b & !0x61u8 == 0,
            ;
        }
        TxOptions { bits: self.bits | other.bits }
    }
}

impl vstd::std_specs::ops::BitOrSpecImpl for TxOptions {
    open spec fn obeys_bitor_spec() -> bool {
        true
    }

    open spec fn bitor_req(self, other: TxOptions) -> bool {
        true
    }

    closed spec fn bitor_spec(self, other: TxOptions) -> TxOptions {
        TxOptions { bits: self.bits | other.bits }
    }
}

/// What the radio reports of a received packet.
///
/// A value holds named flags only: every other bit is clear.
#[derive(Debug, PartialEq, Eq, Structural, Clone, Copy)]
pub struct RxOptions {
    bits: u8,
}

impl View for RxOptions {
    type V = u8;

    closed spec fn view(&self) -> u8 {
        self.bits
    }
}

impl RxOptions {
    /// The packet was acknowledged.
    pub const PACKET_ACKNOWLEDGED: u8 = 0x01;

    /// The packet was a broadcast.
    pub const BROADCAST_PACKET: u8 = 0x02;

    /// The packet was encrypted at the application layer.
    pub const PACKET_ENCRYPTED: u8 = 0x20;

    /// Every named flag together.
    pub const ALL: u8 = 0x23;

    #[verifier::type_invariant]
    spec fn named_flags_only(self) -> bool {
        self.bits & !Self::ALL == 0
    }

    /// The set with no flag.
    pub fn empty() -> (o: RxOptions)
        ensures
            o@ == 0,
    {
        assert(0u8 & !0x23u8 == 0) by (bit_vector);
        RxOptions { bits: 0 }
    }

    /// The set with every named flag.
    pub fn all() -> (o: RxOptions)
        ensures
            o@ == Self::ALL,
    {
        assert(0x23u8 & !0x23u8 == 0) by (bit_vector);
        RxOptions { bits: Self::ALL }
    }

    /// The flags as they stand on the wire: named flags only.
    pub fn bits(&self) -> (b: u8)
        ensures
            b == self@,
            b & !Self::ALL == 0,
    {
        proof {
            use_type_invariant(self);
        }
        self.bits
    }

    /// The set that `bits` spells, if every bit of it has a name.
    pub fn from_bits(bits: u8) -> (r: Option<RxOptions>)
        ensures
            match r {
                Some(o) => o@ == bits && bits & !Self::ALL == 0,
                None => bits & !Self::ALL != 0,
            },
    {
        if bits & !Self::ALL == 0 {
            Some(RxOptions { bits })
        } else {
            None
        }
    }

    /// The named flags among `bits`; the bits without a name are dropped.
    pub fn from_bits_truncate(bits: u8) -> (o: RxOptions)
        ensures
            o@ == bits & Self::ALL,
    {
        assert((bits & 0x23u8) & !0x23u8 == 0) by (bit_vector);
        RxOptions { bits: bits & Self::ALL }
    }

    /// Whether every flag of `other` is in this set.
    pub fn contains(&self, other: RxOptions) -> (r: bool)
        ensures
            r == (self@ & other@ == other@),
    {
        self.bits & other.bits == other.bits
    }
}

impl core::ops::BitOr for RxOptions {
    type Output = RxOptions;

    /// The flags that are in either set.
    fn bitor(self, other: RxOptions) -> (r: RxOptions)
        ensures
            r@ == self@ | other@,
    {
        proof {
            use_type_invariant(self);
            use_type_invariant(other);
            let a = self.bits;
            let b = other.bits;
            assert((a | b) & !0x23u8 == 0) by (bit_vector)
                requires
                    a & !0x23u8 == 0,
                    b & !0x23u8 == 0,
            ;
        }
        RxOptions { bits: self.bits | other.bits }
    }
}

impl vstd::std_specs::ops::BitOrSpecImpl for RxOptions {
    open spec fn obeys_bitor_spec() -> bool {
        true
    }

    open spec fn bitor_req(self, other: RxOptions) -> bool {
        true
    }

    closed spec fn bitor_spec(self, other: RxOptions) -> RxOptions {
        RxOptions { bits: self.bits | other.bits }
    }
}

/// The channels that an I/O sample holds: four analog, nine digital.
///
/// A value holds named flags only: every other bit is clear.
#[derive(Debug, PartialEq, Eq, Structural, Clone, Copy)]
pub struct ChannelIndicator {
    bits: u16,
}

impl View for ChannelIndicator {
    type V = u16;

    closed spec fn view(&self) -> u16 {
        self.bits
    }
}

impl ChannelIndicator {
    /// Analog channel 3.
    pub const A3: u16 = 0x1000;

    /// Analog channel 2.
    pub const A2: u16 = 0x0800;

    /// Analog channel 1.
    pub const A1: u16 = 0x0400;

    /// Analog channel 0.
    pub const A0: u16 = 0x0200;

    /// Digital channel 8.
    pub const D8: u16 = 0x0100;

    /// Digital channel 7.
    pub const D7: u16 = 0x0080;

    /// Digital channel 6.
    pub const D6: u16 = 0x0040;

    /// Digital channel 5.
    pub const D5: u16 = 0x0020;

    /// Digital channel 4.
    pub const D4: u16 = 0x0010;

    /// Digital channel 3.
    pub const D3: u16 = 0x0008;

    /// Digital channel 2.
    pub const D2: u16 = 0x0004;

    /// Digital channel 1.
    pub const D1: u16 = 0x0002;

    /// Digital channel 0.
    pub const D0: u16 = 0x0001;

    /// Every named flag together.
    pub const ALL: u16 = 0x1FFF;

    /// The nine digital channels together.
    pub const DIGITAL: u16 = 0x01FF;

    #[verifier::type_invariant]
    spec fn named_flags_only(self) -> bool {
        self.bits & !Self::ALL == 0
    }

    /// The set with no flag.
    pub fn empty() -> (o: ChannelIndicator)
        ensures
            o@ == 0,
    {
        assert(0u16 & !0x1FFFu16 == 0) by (bit_vector);
        ChannelIndicator { bits: 0 }
    }

    /// The set with every named flag.
    pub fn all() -> (o: ChannelIndicator)
        ensures
            o@ == Self::ALL,
    {
        assert(0x1FFFu16 & !0x1FFFu16 == 0) by (bit_vector);
        ChannelIndicator { bits: Self::ALL }
    }

    /// The flags as they stand on the wire: named flags only.
    pub fn bits(&self) -> (b: u16)
        ensures
            b == self@,
            b & !Self::ALL == 0,
    {
        proof {
            use_type_invariant(self);
        }
        self.bits
    }

    /// The set that `bits` spells, if every bit of it has a name.
    pub fn from_bits(bits: u16) -> (r: Option<ChannelIndicator>)
        ensures
            match r {
                Some(o) => o@ == bits && bits & !Self::ALL == 0,
                None => bits & !Self::ALL != 0,
            },
    {
        if bits & !Self::ALL == 0 {
            Some(ChannelIndicator { bits })
        } else {
            None
        }
    }

    /// The named flags among `bits`; the bits without a name are dropped.
    pub fn from_bits_truncate(bits: u16) -> (o: ChannelIndicator)
        ensures
            o@ == bits & Self::ALL,
    {
        assert((bits & 0x1FFFu16) & !0x1FFFu16 == 0) by (bit_vector);
        ChannelIndicator { bits: bits & Self::ALL }
    }

    /// Whether every flag of `other` is in this set.
    pub fn contains(&self, other: ChannelIndicator) -> (r: bool)
        ensures
            r == (self@ & other@ == other@),
    {
        self.bits & other.bits == other.bits
    }

    /// Whether all nine digital channels, `D0` to `D8`, are in this set.
    pub fn contains_digital(&self) -> (r: bool)
        ensures
            r == (self@ & Self::DIGITAL == Self::DIGITAL),
    {
        self.bits & Self::DIGITAL == Self::DIGITAL
    }
}

impl core::ops::BitOr for ChannelIndicator {
    type Output = ChannelIndicator;

    /// The flags that are in either set.
    fn bitor(self, other: ChannelIndicator) -> (r: ChannelIndicator)
        ensures
            r@ == self@ | other@,
    {
        proof {
            use_type_invariant(self);
            use_type_invariant(other);
            let a = self.bits;
            let b = other.bits;
            assert((a | b) & !0x1FFFu16 == 0) by (bit_vector)
                requires
                    a & !0x1FFFu16 == 0,
                    b & !0x1FFFu16 == 0,
            ;
        }
        ChannelIndicator { bits: self.bits | other.bits }
    }
}

impl vstd::std_specs::ops::BitOrSpecImpl for ChannelIndicator {
    open spec fn obeys_bitor_spec() -> bool {
        true
    }

    open spec fn bitor_req(self, other: ChannelIndicator) -> bool {
        true
    }

    closed spec fn bitor_spec(self, other: ChannelIndicator) -> ChannelIndicator {
        ChannelIndicator { bits: self.bits | other.bits }
    }
}

/// How the radio answered an AT command.
#[derive(Debug, PartialEq, Eq, Structural, Clone, Copy)]
pub enum AtCommandStatus {
    Success,
    Error,
    InvalidCommand,
    InvalidParam,
    TxFailure,
}

impl AtCommandStatus {
    /// The byte that stands for this status on the wire.
    pub open spec fn code(self) -> u8 {
        match self {
            AtCommandStatus::Success => 0x00,
            AtCommandStatus::Error => 0x01,
            AtCommandStatus::InvalidCommand => 0x02,
            AtCommandStatus::InvalidParam => 0x03,
            AtCommandStatus::TxFailure => 0x04,
        }
    }

    /// Whether `val` stands for a status.
    pub open spec fn named(val: u8) -> bool {
        exists|status: AtCommandStatus| status.code() == val
    }

    /// The status that `val` stands for.
    pub open spec fn of_code(val: u8) -> AtCommandStatus
        recommends
            AtCommandStatus::named(val),
    {
        choose|status: AtCommandStatus| status.code() == val
    }

    /// No two statuses share a byte.
    pub proof fn lemma_code_injective(a: AtCommandStatus, b: AtCommandStatus)
        requires
            a.code() == b.code(),
        ensures
            a == b,
    {
    }

    /// The status that `val` stands for; a byte that stands for none comes
    /// back as it is.
    pub fn from(val: u8) -> (r: Result<AtCommandStatus, u8>)
        ensures
            match r {
                Ok(status) => AtCommandStatus::named(val) && status == AtCommandStatus::of_code(val),
                Err(raw) => raw == val && !AtCommandStatus::named(val),
            },
    {
        let r = match val {
            0x00 => Ok(AtCommandStatus::Success),
            0x01 => Ok(AtCommandStatus::Error),
            0x02 => Ok(AtCommandStatus::InvalidCommand),
            0x03 => Ok(AtCommandStatus::InvalidParam),
            0x04 => Ok(AtCommandStatus::TxFailure),
            x => Err(x),
        };
        proof {
            if let Ok(status) = r {
                assert(status.code() == val);
                AtCommandStatus::lemma_code_injective(status, AtCommandStatus::of_code(val));
            }
        }
        r
    }
}

/// What became of a transmit request.
#[derive(Debug, PartialEq, Eq, Structural, Clone, Copy)]
pub enum TxStatus {
    Success,
    NoAck,
    CcaFailure,
    InvalidDestination,
    NetworkAckFailure,
    NotConnected,
    SelfAddressed,
    AddressNotFound,
    RouteNotFound,
    /// No neighbor was heard relaying the broadcast.
    BroadcastSourceFailed,
    InvalidBindingTableIndex,
    /// The radio ran out of buffers, timers or the like.
    ResourceError,
    /// A broadcast was attempted with APS transmission.
    AttemptedBroadcast,
    /// A unicast was attempted with APS transmission while encryption was off.
    AttemptedUnicast,
    InternalError,
    ResourceDepletion,
    PayloadTooLarge,
    IndirectMessageUnrequested,
}

impl TxStatus {
    /// The byte that stands for this status on the wire.
    pub open spec fn code(self) -> u8 {
        match self {
            TxStatus::Success => 0x00,
            TxStatus::NoAck => 0x01,
            TxStatus::CcaFailure => 0x02,
            TxStatus::InvalidDestination => 0x15,
            TxStatus::NetworkAckFailure => 0x21,
            TxStatus::NotConnected => 0x22,
            TxStatus::SelfAddressed => 0x23,
            TxStatus::AddressNotFound => 0x24,
            TxStatus::RouteNotFound => 0x25,
            TxStatus::BroadcastSourceFailed => 0x26,
            TxStatus::InvalidBindingTableIndex => 0x2B,
            TxStatus::ResourceError => 0x2C,
            TxStatus::AttemptedBroadcast => 0x2D,
            TxStatus::AttemptedUnicast => 0x2E,
            TxStatus::InternalError => 0x31,
            TxStatus::ResourceDepletion => 0x32,
            TxStatus::PayloadTooLarge => 0x74,
            TxStatus::IndirectMessageUnrequested => 0x75,
        }
    }

    /// Whether `val` stands for a status.
    pub open spec fn named(val: u8) -> bool {
        exists|status: TxStatus| status.code() == val
    }

    /// The status that `val` stands for.
    pub open spec fn of_code(val: u8) -> TxStatus
        recommends
            TxStatus::named(val),
    {
        choose|status: TxStatus| status.code() == val
    }

    /// No two statuses share a byte.
    pub proof fn lemma_code_injective(a: TxStatus, b: TxStatus)
        requires
            a.code() == b.code(),
        ensures
            a == b,
    {
    }

    /// The status that `val` stands for; a byte that stands for none comes
    /// back as it is.
    pub fn from(val: u8) -> (r: Result<TxStatus, u8>)
        ensures
            match r {
                Ok(status) => TxStatus::named(val) && status == TxStatus::of_code(val),
                Err(raw) => raw == val && !TxStatus::named(val),
            },
    {
        let r = match val {
            0x00 => Ok(TxStatus::Success),
            0x01 => Ok(TxStatus::NoAck),
            0x02 => Ok(TxStatus::CcaFailure),
            0x15 => Ok(TxStatus::InvalidDestination),
            0x21 => Ok(TxStatus::NetworkAckFailure),
            0x22 => Ok(TxStatus::NotConnected),
            0x23 => Ok(TxStatus::SelfAddressed),
            0x24 => Ok(TxStatus::AddressNotFound),
            0x25 => Ok(TxStatus::RouteNotFound),
            0x26 => Ok(TxStatus::BroadcastSourceFailed),
            0x2B => Ok(TxStatus::InvalidBindingTableIndex),
            0x2C => Ok(TxStatus::ResourceError),
            0x2D => Ok(TxStatus::AttemptedBroadcast),
            0x2E => Ok(TxStatus::AttemptedUnicast),
            0x31 => Ok(TxStatus::InternalError),
            0x32 => Ok(TxStatus::ResourceDepletion),
            0x74 => Ok(TxStatus::PayloadTooLarge),
            0x75 => Ok(TxStatus::IndirectMessageUnrequested),
            x => Err(x),
        };
        proof {
            if let Ok(status) = r {
                assert(status.code() == val);
                TxStatus::lemma_code_injective(status, TxStatus::of_code(val));
            }
        }
        r
    }
}

/// An event in the life of the radio.
#[derive(Debug, PartialEq, Eq, Structural, Clone, Copy)]
pub enum ModemStatus {
    HardwareReset,
    WatchdogReset,
    JoinedNetwork,
    Dissociated,
    CoordinatorStarted,
    NetworkSecurityUpdated,
    /// The configuration changed while a join was in progress.
    ModemConfigurationChanged,
    EmberZigbeeStackError,
    InputVoltageTooHigh,
}

impl ModemStatus {
    /// The byte that stands for this status on the wire.
    pub open spec fn code(self) -> u8 {
        match self {
            ModemStatus::HardwareReset => 0x00,
            ModemStatus::WatchdogReset => 0x01,
            ModemStatus::JoinedNetwork => 0x02,
            ModemStatus::Dissociated => 0x03,
            ModemStatus::CoordinatorStarted => 0x06,
            ModemStatus::NetworkSecurityUpdated => 0x07,
            ModemStatus::ModemConfigurationChanged => 0x11,
            ModemStatus::EmberZigbeeStackError => 0x80,
            ModemStatus::InputVoltageTooHigh => 0x0D,
        }
    }

    /// Whether `val` stands for a status.
    pub open spec fn named(val: u8) -> bool {
        exists|status: ModemStatus| status.code() == val
    }

    /// The status that `val` stands for.
    pub open spec fn of_code(val: u8) -> ModemStatus
        recommends
            ModemStatus::named(val),
    {
        choose|status: ModemStatus| status.code() == val
    }

    /// No two statuses share a byte.
    pub proof fn lemma_code_injective(a: ModemStatus, b: ModemStatus)
        requires
            a.code() == b.code(),
        ensures
            a == b,
    {
    }

    /// The status that `val` stands for; a byte that stands for none comes
    /// back as it is.
    pub fn from(val: u8) -> (r: Result<ModemStatus, u8>)
        ensures
            match r {
                Ok(status) => ModemStatus::named(val) && status == ModemStatus::of_code(val),
                Err(raw) => raw == val && !ModemStatus::named(val),
            },
    {
        let r = match val {
            0x00 => Ok(ModemStatus::HardwareReset),
            0x01 => Ok(ModemStatus::WatchdogReset),
            0x02 => Ok(ModemStatus::JoinedNetwork),
            0x03 => Ok(ModemStatus::Dissociated),
            0x06 => Ok(ModemStatus::CoordinatorStarted),
            0x07 => Ok(ModemStatus::NetworkSecurityUpdated),
            0x11 => Ok(ModemStatus::ModemConfigurationChanged),
            0x80 => Ok(ModemStatus::EmberZigbeeStackError),
            0x0D => Ok(ModemStatus::InputVoltageTooHigh),
            x => Err(x),
        };
        proof {
            if let Ok(status) = r {
                assert(status.code() == val);
                ModemStatus::lemma_code_injective(status, ModemStatus::of_code(val));
            }
        }
        r
    }
}

/// The discovery that a transmission needed.
#[derive(Debug, PartialEq, Eq, Structural, Clone, Copy)]
pub enum DiscoStatus {
    NoDiscoveryOverhead,
    AddressDiscovery,
    RouteDiscovery,
    AddressAndRoute,
    ExtendedTimeoutDiscovery,
}

impl DiscoStatus {
    /// The byte that stands for this status on the wire.
    pub open spec fn code(self) -> u8 {
        match self {
            DiscoStatus::NoDiscoveryOverhead => 0x00,
            DiscoStatus::AddressDiscovery => 0x01,
            DiscoStatus::RouteDiscovery => 0x02,
            DiscoStatus::AddressAndRoute => 0x03,
            DiscoStatus::ExtendedTimeoutDiscovery => 0x40,
        }
    }

    /// Whether `val` stands for a status.
    pub open spec fn named(val: u8) -> bool {
        exists|status: DiscoStatus| status.code() == val
    }

    /// The status that `val` stands for.
    pub open spec fn of_code(val: u8) -> DiscoStatus
        recommends
            DiscoStatus::named(val),
    {
        choose|status: DiscoStatus| status.code() == val
    }

    /// No two statuses share a byte.
    pub proof fn lemma_code_injective(a: DiscoStatus, b: DiscoStatus)
        requires
            a.code() == b.code(),
        ensures
            a == b,
    {
    }

    /// The status that `val` stands for; a byte that stands for none comes
    /// back as it is.
    pub fn from(val: u8) -> (r: Result<DiscoStatus, u8>)
        ensures
            match r {
                Ok(status) => DiscoStatus::named(val) && status == DiscoStatus::of_code(val),
                Err(raw) => raw == val && !DiscoStatus::named(val),
            },
    {
        let r = match val {
            0x00 => Ok(DiscoStatus::NoDiscoveryOverhead),
            0x01 => Ok(DiscoStatus::AddressDiscovery),
            0x02 => Ok(DiscoStatus::RouteDiscovery),
            0x03 => Ok(DiscoStatus::AddressAndRoute),
            0x40 => Ok(DiscoStatus::ExtendedTimeoutDiscovery),
            x => Err(x),
        };
        proof {
            if let Ok(status) = r {
                assert(status.code() == val);
                DiscoStatus::lemma_code_injective(status, DiscoStatus::of_code(val));
            }
        }
        r
    }
}

/// The tag of a transmit request.
pub const TX_REQUEST: u8 = 0x10;

/// The tag of a received packet.
pub const RX_PACKET: u8 = 0x90;

/// The tag of a transmit status.
pub const TRANSMIT_STATUS: u8 = 0x8B;

/// A command for the radio.
#[derive(Debug, PartialEq)]
pub enum Outbound<'a> {
    /// Sends `data` to the node with the given addresses.
    TxRequest {
        frame_id: u8,
        dest_mac: MAC,
        dest_addr: Address,
        bc_radius: u8,
        options: TxOptions,
        data: &'a [u8],
    },
}

impl<'a> Outbound<'a> {
    /// The bytes of the command between the length field and the checksum:
    /// the tag, the fixed fields in their order, then the data.
    pub open spec fn payload(self) -> Seq<u8> {
        match self {
            Outbound::TxRequest { frame_id, dest_mac, dest_addr, bc_radius, options, data } => {
                seq![TX_REQUEST, frame_id] + dest_mac.bytes() + dest_addr.bytes()
                    + seq![bc_radius, options@] + data@
            },
        }
    }

    /// The number of data bytes that the command carries.
    pub open spec fn data_len(self) -> nat {
        match self {
            Outbound::TxRequest { data, .. } => data@.len(),
        }
    }

    /// The payload is fourteen bytes of tag and fields, then the data.
    pub proof fn lemma_payload_len(self)
        ensures
            self.payload().len() == 14 + self.data_len(),
    {
    }

    /// The bytes of the payload, one at a time and from the first.
    pub fn to_iter<'b>(&'b mut self) -> (iter: OutboundIterator<'b>)
        requires
            14 + old(self).data_len() <= usize::MAX,
        ensures
            *final(self) == *old(self),
            iter.remaining() == old(self).payload(),
            iter.total() == 14 + old(self).data_len(),
    {
        proof {
            self.lemma_payload_len();
        }
        OutboundIterator { offset: 0, frame: self }
    }
}

/// A walk through the payload of a command.
pub struct OutboundIterator<'a> {
    offset: usize,
    frame: &'a Outbound<'a>,
}

impl<'a> OutboundIterator<'a> {
    #[verifier::type_invariant]
    spec fn within_payload(self) -> bool {
        self.offset <= self.frame.payload().len() <= usize::MAX
    }

    /// The bytes that are still to come.
    pub closed spec fn remaining(self) -> Seq<u8> {
        self.frame.payload().skip(self.offset as int)
    }

    /// The length of the whole payload, whatever has been taken of it.
    pub closed spec fn total(self) -> nat {
        self.frame.payload().len()
    }

    /// The next byte of the payload, if one is left.
    pub fn next(&mut self) -> (r: Option<u8>)
        ensures
            final(self).total() == old(self).total(),
            match r {
                Some(b) => old(self).remaining().len() > 0 && b == old(self).remaining()[0]
                    && final(self).remaining() == old(self).remaining().drop_first(),
                None => old(self).remaining().len() == 0 && final(self).remaining() == old(
                    self,
                ).remaining(),
            },
    {
        proof {
            use_type_invariant(&*self);
            self.frame.lemma_payload_len();
        }
        let n = self.offset;
        let res = match self.frame {
            Outbound::TxRequest { frame_id, dest_mac, dest_addr, bc_radius, options, data } => {
                if n == 0 {
                    Some(TX_REQUEST)
                } else if n == 1 {
                    Some(*frame_id)
                } else if n <= 9 {
                    dest_mac.at(n - 2).ok()
                } else if n == 10 {
                    Some(dest_addr.high)
                } else if n == 11 {
                    Some(dest_addr.low)
                } else if n == 12 {
                    Some(*bc_radius)
                } else if n == 13 {
                    Some(options.bits())
                } else if n - 14 < data.len() {
                    Some(data[n - 14])
                } else {
                    None
                }
            },
        };
        if res.is_some() {
            self.offset = n + 1;
            assert(final(self).remaining() =~= old(self).remaining().drop_first());
        }
        res
    }

    /// The length of the whole payload: fourteen bytes and the data.
    pub fn len(&self) -> (n: usize)
        ensures
            n == self.total(),
    {
        proof {
            use_type_invariant(self);
            self.frame.lemma_payload_len();
        }
        match self.frame {
            Outbound::TxRequest { data, .. } => 14 + data.len(),
        }
    }
}

/// An event that the radio reports.
#[allow(inconsistent_fields)]
#[derive(Debug, PartialEq)]
pub enum Inbound<'a> {
    /// A packet arrived from the node with the given addresses.
    RxPacket { source_mac: MAC, source_addr: Address, options: RxOptions, data: &'a [u8] },
    /// The answer to an AT command.
    AtCommandResponse { frame_id: u8, at_cmd: [u8; 2], status: AtCommandStatus, data: &'a [u8] },
    /// What became of the transmit request with the given frame id.
    TransmitStatus {
        frame_id: u8,
        dest_addr: Address,
        txr_count: u8,
        status: TxStatus,
        disco_status: DiscoStatus,
    },
    /// The radio changed its state.
    ModemStatus { status: ModemStatus },
    /// The answer of another node to an AT command.
    RemoteAtCommandResponse {
        frame_id: u8,
        source_mac: MAC,
        source_addr: Address,
        at_cmd: [u8; 2],
        status: AtCommandStatus,
        data: &'a [u8],
    },
}

/// An event as a value of its own: what an `Inbound` holds, with the borrowed
/// data as a sequence and the options as their byte.
#[allow(inconsistent_fields)]
pub enum InboundView {
    RxPacket { source_mac: MAC, source_addr: Address, options: u8, data: Seq<u8> },
    AtCommandResponse { frame_id: u8, at_cmd: [u8; 2], status: AtCommandStatus, data: Seq<u8> },
    TransmitStatus {
        frame_id: u8,
        dest_addr: Address,
        txr_count: u8,
        status: TxStatus,
        disco_status: DiscoStatus,
    },
    ModemStatus { status: ModemStatus },
    RemoteAtCommandResponse {
        frame_id: u8,
        source_mac: MAC,
        source_addr: Address,
        at_cmd: [u8; 2],
        status: AtCommandStatus,
        data: Seq<u8>,
    },
}

impl<'a> View for Inbound<'a> {
    type V = InboundView;

    open spec fn view(&self) -> InboundView {
        match *self {
            Inbound::RxPacket { source_mac, source_addr, options, data } => InboundView::RxPacket {
                source_mac,
                source_addr,
                options: options@,
                data: data@,
            },
            Inbound::AtCommandResponse { frame_id, at_cmd, status, data } => {
                InboundView::AtCommandResponse { frame_id, at_cmd, status, data: data@ }
            },
            Inbound::TransmitStatus { frame_id, dest_addr, txr_count, status, disco_status } => {
                InboundView::TransmitStatus { frame_id, dest_addr, txr_count, status, disco_status }
            },
            Inbound::ModemStatus { status } => InboundView::ModemStatus { status },
            Inbound::RemoteAtCommandResponse {
                frame_id,
                source_mac,
                source_addr,
                at_cmd,
                status,
                data,
            } => InboundView::RemoteAtCommandResponse {
                frame_id,
                source_mac,
                source_addr,
                at_cmd,
                status,
                data: data@,
            },
        }
    }
}

/// The least length of the payload of a received packet: the tag, eight
/// bytes of hardware address, two of network address and the options.
pub const RX_PACKET_MIN: usize = 12;

/// The length of the payload of a transmit status.
pub const TRANSMIT_STATUS_LEN: usize = 7;

/// The event that a payload spells, or the byte on which reading it fails.
///
/// The tag, the first byte, picks the kind of event. A payload with a tag
/// that is not known, or one too short for its kind, fails on the tag. A
/// transmit status whose delivery status stands for nothing fails on that
/// byte; failing that, one whose discovery status stands for nothing fails on
/// that byte. Bytes of a transmit status after the seventh are not read.
pub open spec fn parse_payload(payload: Seq<u8>) -> Result<InboundView, u8>
    recommends
        payload.len() > 0,
{
    let tag = payload[0];
    if tag == RX_PACKET && payload.len() >= RX_PACKET_MIN {
        Ok(
            InboundView::RxPacket {
                source_mac: MAC::of_bytes(payload.subrange(1, 9)),
                source_addr: Address::of_bytes(payload.subrange(9, 11)),
                options: payload[11] & RxOptions::ALL,
                data: payload.skip(12),
            },
        )
    } else if tag == TRANSMIT_STATUS && payload.len() >= TRANSMIT_STATUS_LEN {
        if !TxStatus::named(payload[5]) {
            Err(payload[5])
        } else if !DiscoStatus::named(payload[6]) {
            Err(payload[6])
        } else {
            Ok(
                InboundView::TransmitStatus {
                    frame_id: payload[1],
                    dest_addr: Address::of_bytes(payload.subrange(2, 4)),
                    txr_count: payload[4],
                    status: TxStatus::of_code(payload[5]),
                    disco_status: DiscoStatus::of_code(payload[6]),
                },
            )
        }
    } else {
        Err(tag)
    }
}

impl<'a> Inbound<'a> {
    /// Reads the event that `data` spells; `data` is the payload of a frame,
    /// from the tag to the byte before the checksum.
    pub fn parse(data: &'a [u8]) -> (r: Result<Inbound<'a>, u8>)
        requires
            data@.len() > 0,
        ensures
            match r {
                Ok(frame) => parse_payload(data@) == Ok::<InboundView, u8>(frame@),
                Err(raw) => parse_payload(data@) == Err::<InboundView, u8>(raw),
            },
            data@[0] != RX_PACKET && data@[0] != TRANSMIT_STATUS ==> r is Err && r->Err_0
                == data@[0],
            data@[0] == RX_PACKET && data@.len() < RX_PACKET_MIN ==> r is Err,
            data@[0] == RX_PACKET && data@.len() >= RX_PACKET_MIN ==> r is Ok && r->Ok_0@
                is RxPacket && r->Ok_0@->RxPacket_data == data@.skip(12),
    {
        let len = data.len();
        let tag = data[0];
        if tag == RX_PACKET && len >= RX_PACKET_MIN {
            let rest = &data[12..len];
            assert(rest@ =~= data@.skip(12));
            Ok(
                Inbound::RxPacket {
                    source_mac: MAC::from(data, 1),
                    source_addr: Address::from(data, 9),
                    options: RxOptions::from_bits_truncate(data[11]),
                    data: rest,
                },
            )
        } else if tag == TRANSMIT_STATUS && len >= TRANSMIT_STATUS_LEN {
            let status = match TxStatus::from(data[5]) {
                Ok(status) => status,
                Err(raw) => {
                    return Err(raw);
                },
            };
            let disco_status = match DiscoStatus::from(data[6]) {
                Ok(status) => status,
                Err(raw) => {
                    return Err(raw);
                },
            };
            Ok(
                Inbound::TransmitStatus {
                    frame_id: data[1],
                    dest_addr: Address::from(data, 2),
                    txr_count: data[4],
                    status,
                    disco_status,
                },
            )
        } else {
            Err(tag)
        }
    }
}

} // verus!
