//! The handler bridge: a `GattHandler` adapted to the dispatcher's
//! `AttrHandler` contract, with the connection and attribute context
//! forwarded on every call.

use gatt_core::att::{AttErrorCode, AttReq};
use gatt_core::attribute::{AttributeTable, CharacteristicProp, Service};
use gatt_core::handler::{GattAttrDesc, GattHandler, HandlerAdaptor};
use gatt_core::server::AttributeServer;
use gatt_core::uuid::Uuid;
use gatt_core::ConnHandle;

/// Records the context of the last call and serves one stored value.
struct RecordingHandler {
    value: Vec<u8>,
    last_conn: Option<u16>,
    last_handle: Option<u16>,
    last_uuid: Option<Vec<u8>>,
}

impl GattHandler for RecordingHandler {
    fn read(
        &mut self,
        attr: &GattAttrDesc<'_>,
        offset: usize,
        cap: usize,
    ) -> Result<Vec<u8>, AttErrorCode> {
        self.last_conn = Some(attr.conn.raw());
        self.last_handle = Some(attr.handle);
        self.last_uuid = Some(attr.uuid.as_raw().clone());
        if offset > self.value.len() {
            return Err(AttErrorCode::InvalidOffset);
        }
        let end = (offset + cap).min(self.value.len());
        Ok(self.value[offset..end].to_vec())
    }

    fn write(
        &mut self,
        attr: &GattAttrDesc<'_>,
        _offset: usize,
        data: &Vec<u8>,
    ) -> Result<(), AttErrorCode> {
        self.last_conn = Some(attr.conn.raw());
        self.last_handle = Some(attr.handle);
        self.last_uuid = Some(attr.uuid.as_raw().clone());
        self.value = data.clone();
        Ok(())
    }
}

fn build_server() -> AttributeServer<16> {
    let mut table: AttributeTable<16> = AttributeTable::new();
    let svc = table.add_service(Service::new(Uuid::new_short(0x180F)));
    let _c = svc.add_characteristic(
        &mut table,
        Uuid::new_short(0x2A19),
        &[CharacteristicProp::Read, CharacteristicProp::Write],
    );
    svc.build(&mut table);
    AttributeServer::new(table)
}

#[test]
fn adaptor_forwards_connection_and_context() {
    let mut server = build_server();
    let conn = ConnHandle::new(9);
    let mut adaptor = HandlerAdaptor {
        handler: RecordingHandler {
            value: vec![0x55, 0x66],
            last_conn: None,
            last_handle: None,
            last_uuid: None,
        },
        conn,
    };
    // Value attribute of the characteristic: handle 3, identifier 0x2A19.
    let req = AttReq::decode(&vec![0x0A, 0x03, 0x00]).unwrap();
    let rsp = server.process(conn, &req, 64, &mut adaptor).unwrap().unwrap();
    assert_eq!(rsp, vec![0x0B, 0x55, 0x66]);
    assert_eq!(adaptor.handler.last_conn, Some(9));
    assert_eq!(adaptor.handler.last_handle, Some(3));
    assert_eq!(adaptor.handler.last_uuid, Some(vec![0x19, 0x2A]));
}

#[test]
fn adaptor_forwards_writes() {
    let mut server = build_server();
    let conn = ConnHandle::new(2);
    let mut adaptor = HandlerAdaptor {
        handler: RecordingHandler {
            value: Vec::new(),
            last_conn: None,
            last_handle: None,
            last_uuid: None,
        },
        conn,
    };
    let req = AttReq::decode(&vec![0x12, 0x03, 0x00, 0x77]).unwrap();
    let rsp = server.process(conn, &req, 64, &mut adaptor).unwrap().unwrap();
    assert_eq!(rsp, vec![0x13]);
    assert_eq!(adaptor.handler.value, vec![0x77]);
    assert_eq!(adaptor.handler.last_conn, Some(2));
    assert_eq!(adaptor.handler.last_handle, Some(3));
}
