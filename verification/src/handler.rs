//! User-supplied value handlers.
//!
//! Handler-backed attribute values (`Data`, `ReadOnlyData`) live outside the
//! attribute database; the dispatcher delegates their reads and writes to a
//! handler implementing one of these traits.

use crate::att::AttErrorCode;
use crate::uuid::Uuid;
use crate::ConnHandle;
use vstd::prelude::*;

verus! {

/// A callback for performing operations on handler-backed attribute values.
///
/// Implementations own the value storage; the engine only promises to hand
/// them the attribute's identifier, handle, the offset and, for reads, the
/// room left in the response buffer.
pub trait AttrHandler {
    /// Read the value of the attribute at `handle`, starting at `offset`.
    ///
    /// At most `cap` bytes may be returned.
    fn read(&mut self, uuid: &Uuid, handle: u16, offset: usize, cap: usize) -> (r: Result<
        Vec<u8>,
        AttErrorCode,
    >)
        ensures
            r matches Ok(v) ==> v@.len() <= cap,
    ;

    /// Write `data` to the value of the attribute at `handle` at `offset`.
    fn write(&mut self, uuid: &Uuid, handle: u16, offset: usize, data: &Vec<u8>) -> (r: Result<
        (),
        AttErrorCode,
    >);
}

/// Descriptor of the attribute a `GattHandler` call is about.
pub struct GattAttrDesc<'a> {
    /// The connection on behalf of which the attribute is accessed.
    pub conn: ConnHandle,
    /// The attribute identifier.
    pub uuid: &'a Uuid,
    /// The attribute handle.
    pub handle: u16,
}

/// A callback invoked by the GATT server on value reads and writes.
pub trait GattHandler {
    /// Read attribute data at `offset`; at most `cap` bytes may be returned.
    fn read(&mut self, attr: &GattAttrDesc<'_>, offset: usize, cap: usize) -> (r: Result<
        Vec<u8>,
        AttErrorCode,
    >)
        ensures
            r matches Ok(v) ==> v@.len() <= cap,
    ;

    /// Write attribute data at `offset`.
    fn write(&mut self, attr: &GattAttrDesc<'_>, offset: usize, data: &Vec<u8>) -> (r: Result<
        (),
        AttErrorCode,
    >);
}

/// Adapts a `GattHandler` to the `AttrHandler` contract by attaching the
/// connection on whose behalf the request is processed.
pub struct HandlerAdaptor<T> {
    /// The adapted handler.
    pub handler: T,
    /// The connection attached to each forwarded call.
    pub conn: ConnHandle,
}

impl<T: GattHandler> AttrHandler for HandlerAdaptor<T> {
    fn read(&mut self, uuid: &Uuid, handle: u16, offset: usize, cap: usize) -> (r: Result<
        Vec<u8>,
        AttErrorCode,
    >) {
        let desc = GattAttrDesc { conn: self.conn, uuid, handle };
        self.handler.read(&desc, offset, cap)
    }

    fn write(&mut self, uuid: &Uuid, handle: u16, offset: usize, data: &Vec<u8>) -> (r: Result<
        (),
        AttErrorCode,
    >) {
        let desc = GattAttrDesc { conn: self.conn, uuid, handle };
        self.handler.write(&desc, offset, data)
    }
}

} // verus!
