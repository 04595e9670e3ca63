//! The attribute database: records, value codec, table and builders.

use crate::att::{le16, u16_of, AttErrorCode};
use crate::handler::AttrHandler;
use crate::uuid::Uuid;
use crate::Error;
use vstd::prelude::*;

verus! {

/// 16-bit identifier of the generic access service.
pub const GENERIC_ACCESS_SERVICE_UUID16: u16 = 0x1800;

/// 16-bit identifier of the device name characteristic.
pub const CHARACTERISTIC_DEVICE_NAME_UUID16: u16 = 0x2A00;

/// 16-bit identifier of the appearance characteristic.
pub const CHARACTERISTIC_APPEARANCE_UUID16: u16 = 0x2A03;

/// 16-bit identifier of the generic attribute service.
pub const GENERIC_ATTRIBUTE_SERVICE_UUID16: u16 = 0x1801;

/// 16-bit identifier of a primary service declaration.
pub const PRIMARY_SERVICE_UUID16: u16 = 0x2800;

/// 16-bit identifier of a secondary service declaration.
pub const SECONDARY_SERVICE_UUID16: u16 = 0x2801;

/// 16-bit identifier of an include declaration.
pub const INCLUDE_SERVICE_UUID16: u16 = 0x2802;

/// 16-bit identifier of a characteristic declaration.
pub const CHARACTERISTIC_UUID16: u16 = 0x2803;

/// 16-bit identifier of the client characteristic configuration descriptor.
pub const CHARACTERISTIC_CCCD_UUID16: u16 = 0x2902;

/// One characteristic property bit.
#[derive(Debug, Clone, Copy, PartialEq, Eq, Structural)]
pub enum CharacteristicProp {
    /// Broadcast permitted.
    Broadcast,
    /// Value may be read.
    Read,
    /// Value may be written without response.
    WriteWithoutResponse,
    /// Value may be written.
    Write,
    /// Value may be notified.
    Notify,
    /// Value may be indicated.
    Indicate,
    /// Authenticated writes only.
    AuthenticatedWrite,
    /// Extended properties present.
    Extended,
}

impl CharacteristicProp {
    /// The bit each property occupies in the 8-bit property set.
    pub open spec fn spec_bit(self) -> u8 {
        match self {
            CharacteristicProp::Broadcast => 0x01,
            CharacteristicProp::Read => 0x02,
            CharacteristicProp::WriteWithoutResponse => 0x04,
            CharacteristicProp::Write => 0x08,
            CharacteristicProp::Notify => 0x10,
            CharacteristicProp::Indicate => 0x20,
            CharacteristicProp::AuthenticatedWrite => 0x40,
            CharacteristicProp::Extended => 0x80,
        }
    }

    /// The bit this property occupies in the 8-bit property set.
    pub fn bit(self) -> (r: u8)
        ensures
            r == self.spec_bit(),
    {
        match self {
            CharacteristicProp::Broadcast => 0x01,
            CharacteristicProp::Read => 0x02,
            CharacteristicProp::WriteWithoutResponse => 0x04,
            CharacteristicProp::Write => 0x08,
            CharacteristicProp::Notify => 0x10,
            CharacteristicProp::Indicate => 0x20,
            CharacteristicProp::AuthenticatedWrite => 0x40,
            CharacteristicProp::Extended => 0x80,
        }
    }
}

/// The OR of a sequence of property bits.
pub open spec fn spec_props_bits(s: Seq<CharacteristicProp>) -> u8
    decreases s.len(),
{
    if s.len() == 0 {
        0
    } else {
        spec_props_bits(s.drop_last()) | s.last().spec_bit()
    }
}

/// An 8-bit set of characteristic properties.
#[derive(Debug, Clone, Copy, PartialEq, Eq, Structural)]
pub struct CharacteristicProps(pub u8);

impl CharacteristicProps {
    /// Collect a list of properties into a bit set.
    pub fn new(props: &[CharacteristicProp]) -> (r: CharacteristicProps)
        ensures
            r.0 == spec_props_bits(props@),
    {
        let mut val: u8 = 0;
        let mut i: usize = 0;
        while i < props.len()
            invariant
                i <= props@.len(),
                val == spec_props_bits(props@.take(i as int)),
            decreases props@.len() - i,
        {
            val = val | props[i].bit();
            proof {
                assert(props@.take(i + 1).drop_last() =~= props@.take(i as int));
                assert(props@.take(i + 1).last() == props@[i as int]);
            }
            i += 1;
        }
        proof {
            assert(props@.take(props@.len() as int) =~= props@);
        }
        CharacteristicProps(val)
    }

    /// Whether any of the given properties is set.
    pub fn any(&self, props: &[CharacteristicProp]) -> (r: bool)
        ensures
            r == exists|j: int|
                0 <= j < props@.len() && (#[trigger] props@[j].spec_bit()) & self.0 != 0,
    {
        let mut i: usize = 0;
        while i < props.len()
            invariant
                i <= props@.len(),
                forall|j: int| 0 <= j < i ==> (#[trigger] props@[j].spec_bit()) & self.0 == 0,
            decreases props@.len() - i,
        {
            if props[i].bit() & self.0 != 0 {
                return true;
            }
            i += 1;
        }
        false
    }
}

/// One CCCD flag.
#[derive(Debug, Clone, Copy, PartialEq, Eq, Structural)]
pub enum CCCDFlag {
    /// Notifications enabled.
    Notify,
    /// Indications enabled.
    Indicate,
}

impl CCCDFlag {
    /// The bit each flag occupies in the 16-bit CCCD value.
    pub open spec fn spec_bit(self) -> u16 {
        match self {
            CCCDFlag::Notify => 0x1,
            CCCDFlag::Indicate => 0x2,
        }
    }

    /// The bit this flag occupies in the 16-bit CCCD value.
    pub fn bit(self) -> (r: u16)
        ensures
            r == self.spec_bit(),
    {
        match self {
            CCCDFlag::Notify => 0x1,
            CCCDFlag::Indicate => 0x2,
        }
    }
}

/// The OR of a sequence of CCCD flag bits.
pub open spec fn spec_cccd_bits(s: Seq<CCCDFlag>) -> u16
    decreases s.len(),
{
    if s.len() == 0 {
        0
    } else {
        spec_cccd_bits(s.drop_last()) | s.last().spec_bit()
    }
}

/// A 16-bit CCCD value.
#[derive(Debug, Clone, Copy, PartialEq, Eq, Structural)]
pub struct CCCD(pub u16);

impl CCCD {
    /// Collect a list of flags into a CCCD value.
    pub fn new(flags: &[CCCDFlag]) -> (r: CCCD)
        ensures
            r.0 == spec_cccd_bits(flags@),
    {
        let mut val: u16 = 0;
        let mut i: usize = 0;
        while i < flags.len()
            invariant
                i <= flags@.len(),
                val == spec_cccd_bits(flags@.take(i as int)),
            decreases flags@.len() - i,
        {
            val = val | flags[i].bit();
            proof {
                assert(flags@.take(i + 1).drop_last() =~= flags@.take(i as int));
                assert(flags@.take(i + 1).last() == flags@[i as int]);
            }
            i += 1;
        }
        proof {
            assert(flags@.take(flags@.len() as int) =~= flags@);
        }
        CCCD(val)
    }

    /// Whether any of the given flags is set.
    pub fn any(&self, flags: &[CCCDFlag]) -> (r: bool)
        ensures
            r == exists|j: int|
                0 <= j < flags@.len() && (#[trigger] flags@[j].spec_bit()) & self.0 != 0,
    {
        let mut i: usize = 0;
        while i < flags.len()
            invariant
                i <= flags@.len(),
                forall|j: int| 0 <= j < i ==> (#[trigger] flags@[j].spec_bit()) & self.0 == 0,
            decreases flags@.len() - i,
        {
            if flags[i].bit() & self.0 != 0 {
                return true;
            }
            i += 1;
        }
        false
    }
}

/// The value discipline of one attribute.
pub enum AttributeData {
    /// A primary service declaration; the value is the service identifier.
    Service {
        /// The service identifier.
        uuid: Uuid,
    },
    /// A read-only handler-backed value.
    ReadOnlyData {
        /// Access properties of the value.
        props: CharacteristicProps,
    },
    /// A handler-backed value whose access is gated by its properties.
    Data {
        /// Access properties of the value.
        props: CharacteristicProps,
    },
    /// A characteristic declaration preceding its value attribute.
    Declaration {
        /// Access properties of the declared value.
        props: CharacteristicProps,
        /// Handle of the value attribute.
        handle: u16,
        /// Identifier of the declared value.
        uuid: Uuid,
    },
    /// A client characteristic configuration descriptor.
    Cccd {
        /// Whether notifications are enabled.
        notifications: bool,
        /// Whether indications are enabled.
        indications: bool,
    },
}

/// The two-flag byte a CCCD read produces.
pub open spec fn spec_cccd_byte(notifications: bool, indications: bool) -> u8 {
    ((if notifications {
        1int
    } else {
        0int
    }) + (if indications {
        2int
    } else {
        0int
    })) as u8
}

/// What reading an attribute value yields, for the value disciplines whose
/// content the database itself owns (service, declaration, CCCD). The result
/// honours the read `offset` and is clamped to `cap` bytes of room.
pub open spec fn spec_value_read(d: AttributeData, offset: int, cap: int) -> Result<
    Seq<u8>,
    AttErrorCode,
> {
    if !d.spec_readable() {
        Err(AttErrorCode::ReadNotPermitted)
    } else {
        match d {
            AttributeData::Service { uuid } => {
                if offset > uuid@.len() {
                    Ok(seq![])
                } else {
                    let n = vstd::math::min(cap, uuid@.len() - offset);
                    Ok(uuid@.subrange(offset, offset + n))
                }
            },
            AttributeData::Cccd { notifications, indications } => {
                if offset > 0 {
                    Err(AttErrorCode::InvalidOffset)
                } else if cap < 2 {
                    Err(AttErrorCode::UnlikelyError)
                } else {
                    Ok(seq![spec_cccd_byte(notifications, indications), 0u8])
                }
            },
            AttributeData::Declaration { props, handle, uuid } => spec_decl_read(
                props.0,
                handle,
                uuid@,
                offset,
                cap,
            ),
            _ => Ok(seq![]),
        }
    }
}

/// What reading a characteristic declaration yields: `props ‖ value_handle ‖
/// value identifier`, entered at one of the straddle offsets 0, 1 or 2 and
/// clamped to `cap` bytes.
pub open spec fn spec_decl_read(props: u8, handle: u16, uuid: Seq<u8>, offset: int, cap: int) -> Result<
    Seq<u8>,
    AttErrorCode,
> {
    if offset > uuid.len() + 3 {
        Ok(seq![])
    } else {
        let header: Seq<u8> = if offset == 0 {
            seq![props] + le16(handle)
        } else if offset == 1 {
            le16(handle)
        } else if offset == 2 {
            seq![le16(handle)[1]]
        } else {
            seq![]
        };
        if cap < header.len() {
            Err(AttErrorCode::UnlikelyError)
        } else {
            let n = vstd::math::min(cap - header.len(), uuid.len() as int);
            Ok(header + uuid.take(n))
        }
    }
}

/// Outcome of writing a CCCD: the new flag pair, or the rejection.
pub open spec fn spec_cccd_write(offset: int, data: Seq<u8>) -> Result<(bool, bool), AttErrorCode> {
    if offset > 0 {
        Err(AttErrorCode::InvalidOffset)
    } else if data.len() == 0 {
        Err(AttErrorCode::UnlikelyError)
    } else {
        Ok((data[0] & 0x01 != 0, data[0] & 0x02 != 0))
    }
}

/// The attribute value after a write: only a CCCD stores written data in the
/// database itself, and only when the write is acceptable.
pub open spec fn spec_data_after_write(d: AttributeData, offset: int, data: Seq<u8>) -> AttributeData {
    match d {
        AttributeData::Cccd { notifications, indications } => match spec_cccd_write(offset, data) {
            Ok(flags) => AttributeData::Cccd { notifications: flags.0, indications: flags.1 },
            Err(_) => d,
        },
        _ => d,
    }
}

/// What a write returns, for the value disciplines the database itself owns
/// (everything except a writable handler-backed `Data` value).
pub open spec fn spec_write_result(d: AttributeData, offset: int, data: Seq<u8>) -> Result<
    (),
    AttErrorCode,
> {
    match d {
        AttributeData::Cccd { notifications, indications } => match spec_cccd_write(
            offset,
            data,
        ) {
            Ok(_) => Ok(()),
            Err(e) => Err(e),
        },
        _ => Err(AttErrorCode::WriteNotPermitted),
    }
}

/// Whether an executable read result agrees with a specified one.
pub open spec fn res_bytes_match(r: Result<Vec<u8>, AttErrorCode>, s: Result<Seq<u8>, AttErrorCode>) -> bool {
    match (r, s) {
        (Ok(v), Ok(sq)) => v@ == sq,
        (Err(a), Err(b)) => a == b,
        _ => false,
    }
}

impl AttributeData {
    /// Whether the value is handler-backed (its bytes live with the user).
    pub open spec fn spec_handler_backed(self) -> bool {
        self is Data || self is ReadOnlyData
    }

    /// Whether the value may be read.
    pub open spec fn spec_readable(self) -> bool {
        match self {
            AttributeData::Data { props } => props.0 & 0x02 != 0,
            _ => true,
        }
    }

    /// Whether the value may be read.
    pub fn readable(&self) -> (r: bool)
        ensures
            r == self.spec_readable(),
    {
        match self {
            AttributeData::Data { props } => props.0 & 0x02 != 0,
            _ => true,
        }
    }

    /// Whether the value may be written: a `Data` value with any of the
    /// write, write-without-response or authenticated-write bits (0x4C), or
    /// a CCCD.
    pub open spec fn spec_writable(self) -> bool {
        match self {
            AttributeData::Data { props } => props.0 & 0x4C != 0,
            AttributeData::Cccd { .. } => true,
            _ => false,
        }
    }

    /// Whether the value may be written.
    pub fn writable(&self) -> (r: bool)
        ensures
            r == self.spec_writable(),
    {
        match self {
            AttributeData::Data { props } => props.0 & 0x4C != 0,
            AttributeData::Cccd { .. } => true,
            _ => false,
        }
    }

    /// Read the attribute value at `offset` into a fresh buffer of at most
    /// `cap` bytes; handler-backed values are delegated to `handler`.
    pub fn att_read<T: AttrHandler>(
        &self,
        uuid: &Uuid,
        handle: u16,
        offset: usize,
        cap: usize,
        handler: &mut T,
    ) -> (r: Result<Vec<u8>, AttErrorCode>)
        ensures
            !self.spec_handler_backed() ==> res_bytes_match(
                r,
                spec_value_read(*self, offset as int, cap as int),
            ),
            self.spec_handler_backed() && !self.spec_readable() ==> r == Err::<
                Vec<u8>,
                AttErrorCode,
            >(AttErrorCode::ReadNotPermitted),
            r matches Ok(v) ==> v@.len() <= cap,
    {
        if !self.readable() {
            return Err(AttErrorCode::ReadNotPermitted);
        }
        match self {
            AttributeData::ReadOnlyData { .. } | AttributeData::Data { .. } => handler.read(
                uuid,
                handle,
                offset,
                cap,
            ),
            AttributeData::Service { uuid: suuid } => {
                let val = suuid.as_raw();
                if offset > val.len() {
                    return Ok(Vec::new());
                }
                let room = val.len() - offset;
                let n = if cap < room {
                    cap
                } else {
                    room
                };
                let mut out: Vec<u8> = Vec::new();
                crate::att::append_range(&mut out, val, offset, n);
                Ok(out)
            },
            AttributeData::Cccd { notifications, indications } => {
                if offset > 0 {
                    return Err(AttErrorCode::InvalidOffset);
                }
                if cap < 2 {
                    return Err(AttErrorCode::UnlikelyError);
                }
                let b: u8 = (if *notifications {
                    1u8
                } else {
                    0u8
                }) + (if *indications {
                    2u8
                } else {
                    0u8
                });
                let mut out: Vec<u8> = Vec::new();
                out.push(b);
                out.push(0u8);
                proof {
                    assert(out@ =~= seq![spec_cccd_byte(*notifications, *indications), 0u8]);
                }
                Ok(out)
            },
            AttributeData::Declaration { props, handle: vh, uuid: duuid } => {
                let val = duuid.as_raw();
                if offset >= 4 && offset - 4 >= val.len() {
                    return Ok(Vec::new());
                }
                let mut out: Vec<u8> = Vec::new();
                if offset == 0 {
                    if cap < 3 {
                        return Err(AttErrorCode::UnlikelyError);
                    }
                    out.push(props.0);
                    crate::att::push_u16_le(&mut out, *vh);
                } else if offset == 1 {
                    if cap < 2 {
                        return Err(AttErrorCode::UnlikelyError);
                    }
                    crate::att::push_u16_le(&mut out, *vh);
                } else if offset == 2 {
                    if cap < 1 {
                        return Err(AttErrorCode::UnlikelyError);
                    }
                    out.push((*vh / 256) as u8);
                }
                let avail = cap - out.len();
                let n = if avail < val.len() {
                    avail
                } else {
                    val.len()
                };
                let ghost header = out@;
                crate::att::append_range(&mut out, val, 0, n);
                proof {
                    assert(val@.subrange(0, n as int) =~= duuid@.take(n as int));
                    assert(out@ =~= header + duuid@.take(n as int));
                }
                Ok(out)
            },
        }
    }

    /// Write `data` to the attribute value at `offset`; handler-backed
    /// writable values are delegated to `handler`, a CCCD stores its two
    /// flag bits, everything else refuses the write.
    pub fn att_write<T: AttrHandler>(
        &mut self,
        uuid: &Uuid,
        handle: u16,
        offset: usize,
        data: &Vec<u8>,
        handler: &mut T,
    ) -> (r: Result<(), AttErrorCode>)
        ensures
            *final(self) == spec_data_after_write(*old(self), offset as int, data@),
            !(old(self).spec_handler_backed() && old(self).spec_writable()) ==> r
                == spec_write_result(*old(self), offset as int, data@),
    {
        let writable = self.writable();
        match self {
            AttributeData::Data { .. } => {
                if !writable {
                    Err(AttErrorCode::WriteNotPermitted)
                } else {
                    handler.write(uuid, handle, offset, data)
                }
            },
            AttributeData::Cccd { notifications, indications } => {
                if offset > 0 {
                    return Err(AttErrorCode::InvalidOffset);
                }
                if data.len() == 0 {
                    return Err(AttErrorCode::UnlikelyError);
                }
                *notifications = data[0] & 0x01 != 0;
                *indications = data[0] & 0x02 != 0;
                Ok(())
            },
            _ => Err(AttErrorCode::WriteNotPermitted),
        }
    }

    /// Split declaration value bytes back into their parts: `props(1) ‖
    /// value_handle(2, LE) ‖ identifier (2 or 16 bytes)`.
    pub fn decode_declaration(data: &Vec<u8>) -> (r: Result<AttributeData, Error>)
        ensures
            r matches Ok(d) ==> (d matches AttributeData::Declaration { props, handle, uuid }
                && props.0 == data@[0] && handle == u16_of(data@[1], data@[2]) && uuid@
                == data@.subrange(3, data@.len() as int)),
            r is Ok <==> (data@.len() == 5 || data@.len() == 19),
    {
        if data.len() != 5 && data.len() != 19 {
            return Err(Error::InvalidValue);
        }
        let mut rest: Vec<u8> = Vec::new();
        crate::att::append_range(&mut rest, data, 3, data.len() - 3);
        let uuid = match Uuid::from_slice(&rest) {
            Ok(u) => u,
            Err(e) => {
                return Err(e);
            },
        };
        Ok(
            AttributeData::Declaration {
                props: CharacteristicProps(data[0]),
                handle: crate::att::read_u16_le(data[1], data[2]),
                uuid,
            },
        )
    }
}

/// The declaration value bytes: `props(1) ‖ value_handle(2, LE) ‖ identifier`.
pub open spec fn spec_declaration_value(props: u8, handle: u16, uuid: Seq<u8>) -> Seq<u8> {
    seq![props] + le16(handle) + uuid
}

/// Reading a whole declaration (offset 0, enough room) yields exactly its
/// encoded value bytes.
pub proof fn lemma_declaration_read_full(props: u8, handle: u16, uuid: Seq<u8>, cap: int)
    requires
        cap >= uuid.len() + 3,
    ensures
        spec_decl_read(props, handle, uuid, 0, cap) == Ok::<Seq<u8>, AttErrorCode>(
            spec_declaration_value(props, handle, uuid),
        ),
{
    assert((seq![props] + le16(handle)).len() == 3);
    assert(uuid.take(uuid.len() as int) =~= uuid);
    assert((seq![props] + le16(handle)) + uuid =~= seq![props] + le16(handle) + uuid);
}

/// Round trip: writing a byte to a CCCD and reading it back yields the byte
/// masked to its two flag bits (`b & 0x03`), padded to exactly 2 bytes; the
/// upper bits are discarded by the write.
pub proof fn lemma_cccd_round_trip(d: AttributeData, data: Seq<u8>, cap: int)
    requires
        d is Cccd,
        data.len() >= 1,
        cap >= 2,
    ensures
        ({
            let after = spec_data_after_write(d, 0, data);
            spec_value_read(after, 0, cap) == Ok::<Seq<u8>, AttErrorCode>(
                seq![(data[0] & 0x03), 0u8],
            )
        }),
{
    let b = data[0];
    let n = b & 0x01 != 0;
    let i = b & 0x02 != 0;
    assert(spec_cccd_byte(n, i) == b & 0x03) by {
        assert((if (b & 0x01 != 0) {
            1u8
        } else {
            0u8
        }) + (if (b & 0x02 != 0) {
            2u8
        } else {
            0u8
        }) == b & 0x03) by (bit_vector);
    }
    let after = spec_data_after_write(d, 0, data);
    assert(spec_value_read(after, 0, cap) == Ok::<Seq<u8>, AttErrorCode>(
        seq![spec_cccd_byte(n, i), 0u8],
    ));
}

/// One record of the attribute database.
pub struct Attribute {
    /// The attribute type identifier.
    pub uuid: Uuid,
    /// The 16-bit handle; assigned at insertion, `0` before.
    pub handle: u16,
    /// Handle of the final attribute of the owning service group.
    pub last_handle_in_group: u16,
    /// The value discipline.
    pub data: AttributeData,
}

impl Attribute {
    /// A record not yet inserted: no handle, open-ended group.
    pub fn new(uuid: Uuid, data: AttributeData) -> (r: Attribute)
        ensures
            r.uuid == uuid,
            r.handle == 0,
            r.last_handle_in_group == 0xffff,
            r.data == data,
    {
        Attribute { uuid, handle: 0, last_handle_in_group: 0xffff, data }
    }
}

/// Handle of an attribute that was added to the table.
#[derive(Clone, Copy, Debug, PartialEq, Eq, Structural)]
pub struct AttributeHandle {
    /// The 16-bit attribute handle.
    pub handle: u16,
}

/// A characteristic value position: its value handle and, when the
/// characteristic can notify or indicate, the handle of its CCCD.
#[derive(Clone, Copy, Debug, PartialEq, Eq, Structural)]
pub struct Characteristic {
    /// Handle of the CCCD following the value, if there is one.
    pub cccd_handle: Option<u16>,
    /// Handle of the value attribute.
    pub handle: u16,
}

/// Handle of a characteristic descriptor.
#[derive(Clone, Copy, Debug, PartialEq, Eq, Structural)]
pub struct DescriptorHandle {
    /// The 16-bit attribute handle.
    pub handle: u16,
}

/// A GATT service to be added to the table.
pub struct Service {
    /// Identifier of the service.
    pub uuid: Uuid,
}

impl Service {
    /// Create a new service with an identifier.
    pub fn new(uuid: Uuid) -> (r: Service)
        ensures
            r.uuid == uuid,
    {
        Service { uuid }
    }
}

/// Basic shape of the stored sequence: bounded by the capacity, handles
/// assigned, strictly increasing and all below the next free handle.
pub open spec fn spec_table_shape(attrs: Seq<Attribute>, next: u16, max: int) -> bool {
    &&& attrs.len() <= max
    &&& next >= 1
    &&& forall|i: int|
        0 <= i < attrs.len() ==> 1 <= (#[trigger] attrs[i]).handle && attrs[i].handle < next
    &&& forall|i: int, j: int|
        0 <= i < j < attrs.len() ==> (#[trigger] attrs[i]).handle < (#[trigger] attrs[j]).handle
}

/// The declaration layout at one index: a characteristic declaration is
/// immediately followed by its value attribute, whose handle and identifier
/// it quotes, and — when the declared properties allow notifying or
/// indicating (bits 0x30) — by a CCCD right after the value.
pub open spec fn spec_decl_at(attrs: Seq<Attribute>, i: int) -> bool {
    attrs[i].data matches AttributeData::Declaration { props, handle: vh, uuid } ==> {
        &&& i + 1 < attrs.len()
        &&& attrs[i + 1].handle == vh
        &&& attrs[i + 1].uuid@ == uuid@
        &&& (props.0 & 0x30 != 0 ==> i + 2 < attrs.len() && attrs[i + 2].data is Cccd)
    }
}

/// The declaration layout holds at every index.
pub open spec fn spec_decl_wf(attrs: Seq<Attribute>) -> bool {
    forall|i: int| 0 <= i < attrs.len() ==> #[trigger] spec_decl_at(attrs, i)
}

/// Where a scan for a characteristic by its value handle lands, scanning
/// from index `i`: the first attribute with that handle, paired with the
/// handle of the immediately following attribute when that one is a CCCD.
pub open spec fn spec_find_char_from(attrs: Seq<Attribute>, i: int, handle: u16) -> Result<
    Characteristic,
    Error,
>
    decreases attrs.len() - i,
{
    if i < 0 || i >= attrs.len() {
        Err(Error::NotFound)
    } else if attrs[i].handle == handle {
        if i + 1 < attrs.len() && attrs[i + 1].data is Cccd {
            Ok(Characteristic { handle, cccd_handle: Some(attrs[i + 1].handle) })
        } else {
            Ok(Characteristic { handle, cccd_handle: None })
        }
    } else {
        spec_find_char_from(attrs, i + 1, handle)
    }
}

/// A table of attributes with capacity `MAX`, plus the monotonic counter of
/// the next free handle (handle `0` is reserved).
pub struct AttributeTable<const MAX: usize> {
    pub(crate) attributes: Vec<Attribute>,
    pub(crate) handle: u16,
}

impl<const MAX: usize> AttributeTable<MAX> {
    /// The stored records, in insertion order.
    pub open(crate) spec fn attrs(&self) -> Seq<Attribute> {
        self.attributes@
    }

    /// The next handle to be assigned.
    pub open(crate) spec fn next_handle(&self) -> u16 {
        self.handle
    }

    /// Shape invariant of the table.
    pub open spec fn wf(&self) -> bool {
        spec_table_shape(self.attrs(), self.next_handle(), MAX as int)
    }

    /// Create an empty table; handles start at 1.
    pub fn new() -> (r: Self)
        ensures
            r.attrs().len() == 0,
            r.next_handle() == 1,
            r.wf(),
            spec_decl_wf(r.attrs()),
    {
        AttributeTable { attributes: Vec::new(), handle: 1 }
    }

    /// Number of stored records.
    pub fn len(&self) -> (r: usize)
        ensures
            r == self.attrs().len(),
    {
        self.attributes.len()
    }

    /// Append a record, assigning it the next free handle.
    fn push(&mut self, attribute: Attribute) -> (r: u16)
        requires
            old(self).attrs().len() < MAX,
            old(self).next_handle() < 0xFFFF,
        ensures
            r == old(self).next_handle(),
            final(self).next_handle() == old(self).next_handle() + 1,
            final(self).attrs().len() == old(self).attrs().len() + 1,
            forall|j: int|
                0 <= j < old(self).attrs().len() ==> final(self).attrs()[j] == old(self).attrs()[j],
            final(self).attrs().last() == (Attribute { handle: r, ..attribute }),
    {
        let handle = self.handle;
        let mut a = attribute;
        a.handle = handle;
        self.attributes.push(a);
        self.handle = self.handle + 1;
        handle
    }

    /// Begin a service group: append its declaration record and return the
    /// builder session for the group.
    pub fn add_service(&mut self, service: Service) -> (r: ServiceBuilder)
        requires
            old(self).wf(),
            spec_decl_wf(old(self).attrs()),
            old(self).attrs().len() < MAX,
            old(self).next_handle() < 0xFFFF,
        ensures
            final(self).wf(),
            spec_decl_wf(final(self).attrs()),
            r.start == old(self).attrs().len(),
            r.handle == (AttributeHandle { handle: old(self).next_handle() }),
            final(self).next_handle() == old(self).next_handle() + 1,
            final(self).attrs().len() == old(self).attrs().len() + 1,
            forall|j: int|
                0 <= j < old(self).attrs().len() ==> final(self).attrs()[j] == old(self).attrs()[j],
            ({
                let a = final(self).attrs().last();
                &&& a.uuid@ == le16(PRIMARY_SERVICE_UUID16)
                &&& a.handle == old(self).next_handle()
                &&& a.last_handle_in_group == 0
                &&& a.data == (AttributeData::Service { uuid: service.uuid })
            }),
            final(self).attrs().last().handle + 1 == final(self).next_handle(),
    {
        let len = self.attributes.len();
        let handle = self.handle;
        self.push(
            Attribute {
                uuid: Uuid::new_short(PRIMARY_SERVICE_UUID16),
                handle: 0,
                last_handle_in_group: 0,
                data: AttributeData::Service { uuid: service.uuid },
            },
        );
        proof {
            let attrs = self.attrs();
            assert forall|i: int| 0 <= i < attrs.len() implies #[trigger] spec_decl_at(attrs, i) by {
                if i < attrs.len() - 1 {
                    assert(spec_decl_at(old(self).attrs(), i));
                }
            }
        }
        ServiceBuilder { handle: AttributeHandle { handle }, start: len }
    }

    /// Find a characteristic by the handle of its value attribute; reports
    /// the CCCD handle when the record right after the value is a CCCD.
    pub fn find_characteristic_by_value_handle(&self, handle: u16) -> (r: Result<
        Characteristic,
        Error,
    >)
        ensures
            r == spec_find_char_from(self.attrs(), 0, handle),
    {
        let mut i: usize = 0;
        while i < self.attributes.len()
            invariant
                i <= self.attrs().len(),
                spec_find_char_from(self.attrs(), 0, handle) == spec_find_char_from(
                    self.attrs(),
                    i as int,
                    handle,
                ),
            decreases self.attrs().len() - i,
        {
            if self.attributes[i].handle == handle {
                if i + 1 < self.attributes.len() {
                    let next = &self.attributes[i + 1];
                    if next.data.is_cccd() {
                        return Ok(
                            Characteristic { handle, cccd_handle: Some(next.handle) },
                        );
                    }
                }
                return Ok(Characteristic { handle, cccd_handle: None });
            }
            i += 1;
        }
        Err(Error::NotFound)
    }

    /// A forward iterator over the stored records.
    pub fn attr_iter(&self) -> (r: AttributeIterator<'_>)
        ensures
            r.spec_items() == self.attrs(),
            r.spec_pos() == 0,
    {
        AttributeIterator { attributes: &self.attributes, pos: 0 }
    }
}

/// A service group under construction: remembers where the group started so
/// that completing the group can stamp every member.
pub struct ServiceBuilder {
    /// Handle of the service declaration record.
    pub handle: AttributeHandle,
    /// Index of the service declaration record in the table.
    pub start: usize,
}

impl ServiceBuilder {
    /// Append a characteristic: its declaration, its value record, and — when
    /// the properties allow notifying or indicating — its CCCD.
    fn add_characteristic_internal<const MAX: usize>(
        &self,
        table: &mut AttributeTable<MAX>,
        uuid: Uuid,
        props: CharacteristicProps,
        data: AttributeData,
    ) -> (r: CharacteristicBuilder)
        requires
            old(table).wf(),
            spec_decl_wf(old(table).attrs()),
            data is Data || data is ReadOnlyData,
            old(table).attrs().len() + (if props.0 & 0x30 != 0 {
                3int
            } else {
                2int
            }) <= MAX as int,
            old(table).next_handle() + (if props.0 & 0x30 != 0 {
                3int
            } else {
                2int
            }) <= 0xFFFF,
        ensures
            final(table).wf(),
            spec_decl_wf(final(table).attrs()),
            ({
                let k: int = if props.0 & 0x30 != 0 {
                    3int
                } else {
                    2int
                };
                let h = old(table).next_handle();
                let n = old(table).attrs().len() as int;
                let attrs = final(table).attrs();
                &&& attrs.len() == n + k
                &&& final(table).next_handle() == h + k
                &&& (forall|j: int| 0 <= j < n ==> attrs[j] == old(table).attrs()[j])
                &&& attrs[n].uuid@ == le16(CHARACTERISTIC_UUID16)
                &&& attrs[n].handle == h
                &&& attrs[n].last_handle_in_group == 0
                &&& (attrs[n].data matches AttributeData::Declaration {
                    props: dp,
                    handle: dh,
                    uuid: du,
                } && dp == props && dh == h + 1 && du@ == uuid@)
                &&& attrs[n + 1].uuid@ == uuid@
                &&& attrs[n + 1].handle == h + 1
                &&& attrs[n + 1].last_handle_in_group == 0
                &&& attrs[n + 1].data == data
                &&& (props.0 & 0x30 != 0 ==> attrs[n + 2].uuid@ == le16(CHARACTERISTIC_CCCD_UUID16)
                    && attrs[n + 2].handle == h + 2 && attrs[n + 2].last_handle_in_group == 0 && attrs[
                    n + 2].data == (AttributeData::Cccd {
                    notifications: false,
                    indications: false,
                }))
                &&& attrs.last().handle + 1 == final(table).next_handle()
                &&& r.handle == (Characteristic {
                    handle: (h + 1) as u16,
                    cccd_handle: if props.0 & 0x30 != 0 {
                        Some((h + 2) as u16)
                    } else {
                        None
                    },
                })
            }),
    {
        let next = table.handle + 1;
        let cccd = table.handle + 2;
        table.push(
            Attribute {
                uuid: Uuid::new_short(CHARACTERISTIC_UUID16),
                handle: 0,
                last_handle_in_group: 0,
                data: AttributeData::Declaration { props, handle: next, uuid: uuid.dup() },
            },
        );
        table.push(Attribute { uuid, handle: 0, last_handle_in_group: 0, data });
        let with_cccd = props.0 & 0x30 != 0;
        let cccd_handle: Option<u16> = if with_cccd {
            table.push(
                Attribute {
                    uuid: Uuid::new_short(CHARACTERISTIC_CCCD_UUID16),
                    handle: 0,
                    last_handle_in_group: 0,
                    data: AttributeData::Cccd { notifications: false, indications: false },
                },
            );
            Some(cccd)
        } else {
            None
        };
        proof {
            let attrs = table.attrs();
            let n = old(table).attrs().len() as int;
            assert forall|i: int| 0 <= i < attrs.len() implies #[trigger] spec_decl_at(attrs, i) by {
                if i < n {
                    assert(spec_decl_at(old(table).attrs(), i));
                }
            }
        }
        CharacteristicBuilder { handle: Characteristic { handle: next, cccd_handle } }
    }

    /// Add a handler-backed characteristic with the given access properties.
    pub fn add_characteristic<const MAX: usize>(
        &self,
        table: &mut AttributeTable<MAX>,
        uuid: Uuid,
        props: &[CharacteristicProp],
    ) -> (r: CharacteristicBuilder)
        requires
            old(table).wf(),
            spec_decl_wf(old(table).attrs()),
            old(table).attrs().len() + 3 <= MAX as int,
            old(table).next_handle() + 3 <= 0xFFFF,
        ensures
            final(table).wf(),
            spec_decl_wf(final(table).attrs()),
            ({
                let p = spec_props_bits(props@);
                let k: int = if p & 0x30 != 0 {
                    3int
                } else {
                    2int
                };
                let h = old(table).next_handle();
                let n = old(table).attrs().len() as int;
                let attrs = final(table).attrs();
                &&& attrs.len() == n + k
                &&& final(table).next_handle() == h + k
                &&& (forall|j: int| 0 <= j < n ==> attrs[j] == old(table).attrs()[j])
                &&& attrs[n].uuid@ == le16(CHARACTERISTIC_UUID16)
                &&& attrs[n].handle == h
                &&& (attrs[n].data matches AttributeData::Declaration {
                    props: dp,
                    handle: dh,
                    uuid: du,
                } && dp == (CharacteristicProps(p)) && dh == h + 1 && du@ == uuid@)
                &&& attrs[n + 1].uuid@ == uuid@
                &&& attrs[n + 1].handle == h + 1
                &&& attrs[n + 1].data == (AttributeData::Data { props: CharacteristicProps(p) })
                &&& (p & 0x30 != 0 ==> attrs[n + 2].uuid@ == le16(CHARACTERISTIC_CCCD_UUID16)
                    && attrs[n + 2].handle == h + 2 && attrs[n + 2].data
                    == (AttributeData::Cccd { notifications: false, indications: false }))
                &&& attrs.last().handle + 1 == final(table).next_handle()
                &&& r.handle == (Characteristic {
                    handle: (h + 1) as u16,
                    cccd_handle: if p & 0x30 != 0 {
                        Some((h + 2) as u16)
                    } else {
                        None
                    },
                })
            }),
    {
        let props = CharacteristicProps::new(props);
        self.add_characteristic_internal(table, uuid, props, AttributeData::Data { props })
    }

    /// Add a read-only handler-backed characteristic.
    pub fn add_characteristic_ro<const MAX: usize>(
        &self,
        table: &mut AttributeTable<MAX>,
        uuid: Uuid,
    ) -> (r: CharacteristicBuilder)
        requires
            old(table).wf(),
            spec_decl_wf(old(table).attrs()),
            old(table).attrs().len() + 2 <= MAX as int,
            old(table).next_handle() + 2 <= 0xFFFF,
        ensures
            final(table).wf(),
            spec_decl_wf(final(table).attrs()),
            ({
                let h = old(table).next_handle();
                let n = old(table).attrs().len() as int;
                let attrs = final(table).attrs();
                &&& attrs.len() == n + 2
                &&& final(table).next_handle() == h + 2
                &&& (forall|j: int| 0 <= j < n ==> attrs[j] == old(table).attrs()[j])
                &&& attrs[n].uuid@ == le16(CHARACTERISTIC_UUID16)
                &&& attrs[n].handle == h
                &&& (attrs[n].data matches AttributeData::Declaration {
                    props: dp,
                    handle: dh,
                    uuid: du,
                } && dp == (CharacteristicProps(0x02)) && dh == h + 1 && du@ == uuid@)
                &&& attrs[n + 1].uuid@ == uuid@
                &&& attrs[n + 1].handle == h + 1
                &&& attrs[n + 1].data == (AttributeData::ReadOnlyData {
                    props: CharacteristicProps(0x02),
                })
                &&& attrs.last().handle + 1 == final(table).next_handle()
                &&& r.handle == (Characteristic { handle: (h + 1) as u16, cccd_handle: None })
            }),
    {
        let props = CharacteristicProps(0x02);
        proof {
            assert(0x02u8 & 0x30 == 0) by (bit_vector);
        }
        self.add_characteristic_internal(
            table,
            uuid,
            props,
            AttributeData::ReadOnlyData { props },
        )
    }

    /// Complete the service group: stamp every member with the handle of the
    /// group's last member, then jump the next free handle to the next
    /// multiple of 16, so that service groups occupy disjoint aligned ranges.
    pub fn build<const MAX: usize>(self, table: &mut AttributeTable<MAX>) -> (r: AttributeHandle)
        requires
            old(table).wf(),
            spec_decl_wf(old(table).attrs()),
            self.start < old(table).attrs().len(),
            old(table).attrs().last().handle + 1 == old(table).next_handle(),
            old(table).next_handle() < 0xFFF0,
        ensures
            final(table).wf(),
            spec_decl_wf(final(table).attrs()),
            r == self.handle,
            final(table).next_handle() % 16 == 0,
            final(table).next_handle() > old(table).next_handle(),
            final(table).attrs().len() == old(table).attrs().len(),
            forall|j: int|
                0 <= j < self.start ==> final(table).attrs()[j] == old(table).attrs()[j],
            forall|j: int|
                self.start <= j < final(table).attrs().len() ==> {
                    let a = #[trigger] final(table).attrs()[j];
                    let b = old(table).attrs()[j];
                    &&& a.uuid == b.uuid
                    &&& a.handle == b.handle
                    &&& a.data == b.data
                    &&& a.last_handle_in_group == old(table).attrs().last().handle
                },
    {
        let stamp = table.handle - 1;
        let len = table.attributes.len();
        let mut j = self.start;
        while j < len
            invariant
                self.start <= j <= len,
                len == table.attrs().len(),
                table.next_handle() == old(table).next_handle(),
                stamp == old(table).next_handle() - 1,
                forall|k: int| 0 <= k < self.start ==> table.attrs()[k] == old(table).attrs()[k],
                forall|k: int|
                    self.start <= k < j ==> {
                        let a = #[trigger] table.attrs()[k];
                        let b = old(table).attrs()[k];
                        &&& a.uuid == b.uuid
                        &&& a.handle == b.handle
                        &&& a.data == b.data
                        &&& a.last_handle_in_group == stamp
                    },
                forall|k: int| j <= k < len ==> table.attrs()[k] == old(table).attrs()[k],
            decreases len - j,
        {
            let a = &mut table.attributes[j];
            a.last_handle_in_group = stamp;
            j += 1;
        }
        // Jump to the next 16-aligned handle (strictly past the current one).
        table.handle = table.handle + (16 - table.handle % 16);
        proof {
            let attrs = table.attrs();
            assert forall|i: int| 0 <= i < attrs.len() implies #[trigger] spec_decl_at(attrs, i) by {
                assert(spec_decl_at(old(table).attrs(), i));
            }
        }
        self.handle
    }
}

/// A characteristic under construction; descriptors can still be appended to
/// its group.
pub struct CharacteristicBuilder {
    /// The characteristic being built.
    pub handle: Characteristic,
}

impl CharacteristicBuilder {
    /// Append a handler-backed descriptor record.
    fn add_descriptor_internal<const MAX: usize>(
        &self,
        table: &mut AttributeTable<MAX>,
        uuid: Uuid,
        data: AttributeData,
    ) -> (r: DescriptorHandle)
        requires
            old(table).wf(),
            spec_decl_wf(old(table).attrs()),
            data is Data || data is ReadOnlyData,
            old(table).attrs().len() < MAX,
            old(table).next_handle() < 0xFFFF,
        ensures
            final(table).wf(),
            spec_decl_wf(final(table).attrs()),
            final(table).attrs().len() == old(table).attrs().len() + 1,
            final(table).next_handle() == old(table).next_handle() + 1,
            forall|j: int|
                0 <= j < old(table).attrs().len() ==> final(table).attrs()[j] == old(
                    table,
                ).attrs()[j],
            ({
                let a = final(table).attrs().last();
                &&& a.uuid@ == uuid@
                &&& a.handle == old(table).next_handle()
                &&& a.last_handle_in_group == 0
                &&& a.data == data
            }),
            final(table).attrs().last().handle + 1 == final(table).next_handle(),
            r == (DescriptorHandle { handle: old(table).next_handle() }),
    {
        let handle = table.handle;
        table.push(Attribute { uuid, handle: 0, last_handle_in_group: 0, data });
        proof {
            let attrs = table.attrs();
            let n = old(table).attrs().len() as int;
            assert forall|i: int| 0 <= i < attrs.len() implies #[trigger] spec_decl_at(attrs, i) by {
                if i < n {
                    assert(spec_decl_at(old(table).attrs(), i));
                }
            }
        }
        DescriptorHandle { handle }
    }

    /// Add a descriptor with the given access properties.
    pub fn add_descriptor<const MAX: usize>(
        &self,
        table: &mut AttributeTable<MAX>,
        uuid: Uuid,
        props: &[CharacteristicProp],
    ) -> (r: DescriptorHandle)
        requires
            old(table).wf(),
            spec_decl_wf(old(table).attrs()),
            old(table).attrs().len() < MAX,
            old(table).next_handle() < 0xFFFF,
        ensures
            final(table).wf(),
            spec_decl_wf(final(table).attrs()),
            final(table).attrs().len() == old(table).attrs().len() + 1,
            final(table).next_handle() == old(table).next_handle() + 1,
            forall|j: int|
                0 <= j < old(table).attrs().len() ==> final(table).attrs()[j] == old(
                    table,
                ).attrs()[j],
            ({
                let a = final(table).attrs().last();
                &&& a.uuid@ == uuid@
                &&& a.handle == old(table).next_handle()
                &&& a.data == (AttributeData::Data { props: CharacteristicProps(spec_props_bits(props@)) })
            }),
            final(table).attrs().last().handle + 1 == final(table).next_handle(),
            r == (DescriptorHandle { handle: old(table).next_handle() }),
    {
        let props = CharacteristicProps::new(props);
        self.add_descriptor_internal(table, uuid, AttributeData::Data { props })
    }

    /// Add a read-only descriptor.
    pub fn add_descriptor_ro<const MAX: usize>(
        &self,
        table: &mut AttributeTable<MAX>,
        uuid: Uuid,
    ) -> (r: DescriptorHandle)
        requires
            old(table).wf(),
            spec_decl_wf(old(table).attrs()),
            old(table).attrs().len() < MAX,
            old(table).next_handle() < 0xFFFF,
        ensures
            final(table).wf(),
            spec_decl_wf(final(table).attrs()),
            final(table).attrs().len() == old(table).attrs().len() + 1,
            final(table).next_handle() == old(table).next_handle() + 1,
            forall|j: int|
                0 <= j < old(table).attrs().len() ==> final(table).attrs()[j] == old(
                    table,
                ).attrs()[j],
            ({
                let a = final(table).attrs().last();
                &&& a.uuid@ == uuid@
                &&& a.handle == old(table).next_handle()
                &&& a.data == (AttributeData::ReadOnlyData { props: CharacteristicProps(0x02) })
            }),
            final(table).attrs().last().handle + 1 == final(table).next_handle(),
            r == (DescriptorHandle { handle: old(table).next_handle() }),
    {
        let props = CharacteristicProps(0x02);
        self.add_descriptor_internal(table, uuid, AttributeData::ReadOnlyData { props })
    }

    /// Return the built characteristic.
    pub fn build(self) -> (r: Characteristic)
        ensures
            r == self.handle,
    {
        self.handle
    }
}

/// A forward iterator over the records of a table.
pub struct AttributeIterator<'a> {
    attributes: &'a Vec<Attribute>,
    pos: usize,
}

impl<'a> AttributeIterator<'a> {
    /// The records iterated over.
    pub closed spec fn spec_items(&self) -> Seq<Attribute> {
        self.attributes@
    }

    /// The position of the next record.
    pub closed spec fn spec_pos(&self) -> int {
        self.pos as int
    }

    /// Return the next record, or `None` past the end.
    pub fn next(&mut self) -> (r: Option<&'a Attribute>)
        ensures
            final(self).spec_items() == old(self).spec_items(),
            old(self).spec_pos() < old(self).spec_items().len() ==> (r matches Some(a) && *a == old(
                self,
            ).spec_items()[old(self).spec_pos()] && final(self).spec_pos() == old(self).spec_pos()
                + 1),
            old(self).spec_pos() >= old(self).spec_items().len() ==> r is None && *final(self)
                == *old(self),
    {
        if self.pos < self.attributes.len() {
            let a = &self.attributes[self.pos];
            self.pos = self.pos + 1;
            Some(a)
        } else {
            None
        }
    }
}

impl AttributeData {
    /// Whether this record is a CCCD.
    pub fn is_cccd(&self) -> (r: bool)
        ensures
            r == (self is Cccd),
    {
        match self {
            AttributeData::Cccd { .. } => true,
            _ => false,
        }
    }
}

/// The declaration layout (`spec_decl_wf`) spelled out: wherever a table
/// satisfies it, every characteristic declaration at an index `i` is followed
/// at `i + 1` by its value attribute carrying the quoted handle and
/// identifier, and by a CCCD at `i + 2` when the declared properties have the
/// notify or indicate bit.
pub proof fn lemma_declaration_layout(attrs: Seq<Attribute>, i: int)
    requires
        spec_decl_wf(attrs),
        0 <= i < attrs.len(),
        attrs[i].data is Declaration,
    ensures
        i + 1 < attrs.len(),
        attrs[i].data matches AttributeData::Declaration { props, handle, uuid } ==> {
            &&& attrs[i + 1].handle == handle
            &&& attrs[i + 1].uuid@ == uuid@
            &&& (props.0 & 0x30 != 0 ==> i + 2 < attrs.len() && attrs[i + 2].data is Cccd)
        },
{
    assert(spec_decl_at(attrs, i));
}

/// Round trip: decoding an encoded declaration `{props, value_handle,
/// identifier}` recovers exactly those parts, for every property byte, every
/// handle and both identifier widths.
pub proof fn lemma_declaration_round_trip(props: u8, handle: u16, uuid: Seq<u8>)
    requires
        uuid.len() == 2 || uuid.len() == 16,
    ensures
        ({
            let enc = spec_declaration_value(props, handle, uuid);
            &&& enc.len() == 3 + uuid.len()
            &&& enc[0] == props
            &&& u16_of(enc[1], enc[2]) == handle
            &&& enc.subrange(3, enc.len() as int) == uuid
        }),
{
    let enc = spec_declaration_value(props, handle, uuid);
    assert(enc[1] == (handle % 256) as u8);
    assert(enc[2] == (handle / 256) as u8);
    assert(handle % 256 + (handle / 256) * 256 == handle) by (nonlinear_arith);
    assert(enc.subrange(3, enc.len() as int) =~= uuid);
}

} // verus!
