//! End-to-end request/response scenarios against the ATT server.

use gatt_core::att::{AttErrorCode, AttReq};
use gatt_core::attribute::{AttributeTable, CharacteristicProp, Service};
use gatt_core::handler::AttrHandler;
use gatt_core::server::AttributeServer;
use gatt_core::uuid::Uuid;
use gatt_core::ConnHandle;

struct NoHandler;

impl AttrHandler for NoHandler {
    fn read(
        &mut self,
        _uuid: &Uuid,
        _handle: u16,
        _offset: usize,
        _cap: usize,
    ) -> Result<Vec<u8>, AttErrorCode> {
        Err(AttErrorCode::ReadNotPermitted)
    }

    fn write(
        &mut self,
        _uuid: &Uuid,
        _handle: u16,
        _offset: usize,
        _data: &Vec<u8>,
    ) -> Result<(), AttErrorCode> {
        Err(AttErrorCode::WriteNotPermitted)
    }
}

/// Two services:
/// - generic access at handles 1..=6 (one notifying characteristic with
///   value handle 3 and CCCD handle 4, one read-only value at handle 6),
/// - battery service (0x180F) at handles 0x10..=0x1F, holding five
///   notifying characteristics; the first has declaration 0x11, value 0x12,
///   CCCD 0x13.
fn build_server() -> AttributeServer<64> {
    let mut table: AttributeTable<64> = AttributeTable::new();
    let svc1 = table.add_service(Service::new(Uuid::new_short(0x1800)));
    let _c1 = svc1.add_characteristic(
        &mut table,
        Uuid::new_short(0x2A19),
        &[
            CharacteristicProp::Read,
            CharacteristicProp::Write,
            CharacteristicProp::Notify,
        ],
    );
    let _c2 = svc1.add_characteristic_ro(&mut table, Uuid::new_short(0x2A00));
    svc1.build(&mut table);
    let svc2 = table.add_service(Service::new(Uuid::new_short(0x180F)));
    for _ in 0..5 {
        svc2.add_characteristic(
            &mut table,
            Uuid::new_short(0x2A19),
            &[CharacteristicProp::Read, CharacteristicProp::Notify],
        );
    }
    svc2.build(&mut table);
    AttributeServer::new(table)
}

fn run<const MAX: usize>(
    server: &mut AttributeServer<MAX>,
    conn: ConnHandle,
    req_bytes: &[u8],
) -> Vec<u8> {
    let req = AttReq::decode(&req_bytes.to_vec()).expect("request must decode");
    server
        .process(conn, &req, 64, &mut NoHandler)
        .expect("no capacity error")
        .expect("a response is expected")
}

#[test]
fn read_cccd_unset() {
    let mut server = build_server();
    let conn = ConnHandle::new(1);
    let rsp = run(&mut server, conn, &[0x0A, 0x04, 0x00]);
    assert_eq!(rsp, vec![0x0B, 0x00, 0x00]);
}

#[test]
fn enable_notifications() {
    let mut server = build_server();
    let conn = ConnHandle::new(1);
    let rsp = run(&mut server, conn, &[0x12, 0x04, 0x00, 0x01, 0x00]);
    assert_eq!(rsp, vec![0x13]);
    let rsp = run(&mut server, conn, &[0x0A, 0x04, 0x00]);
    assert_eq!(rsp, vec![0x0B, 0x01, 0x00]);
    assert!(server.should_notify(conn, 0x0004));
}

#[test]
fn discover_service_by_uuid() {
    let mut server = build_server();
    let conn = ConnHandle::new(1);
    let rsp = run(
        &mut server,
        conn,
        &[0x06, 0x01, 0x00, 0xFF, 0xFF, 0x00, 0x28, 0x0F, 0x18],
    );
    assert_eq!(rsp, vec![0x07, 0x10, 0x00, 0x1F, 0x00]);
}

#[test]
fn read_by_type_characteristic() {
    let mut server = build_server();
    let conn = ConnHandle::new(1);
    let rsp = run(&mut server, conn, &[0x08, 0x10, 0x00, 0x1F, 0x00, 0x03, 0x28]);
    assert_eq!(
        rsp,
        vec![0x09, 0x07, 0x11, 0x00, 0x12, 0x12, 0x00, 0x19, 0x2A]
    );
}

#[test]
fn write_not_permitted() {
    let mut server = build_server();
    let conn = ConnHandle::new(1);
    let rsp = run(&mut server, conn, &[0x12, 0x06, 0x00, 0xAA]);
    assert_eq!(rsp, vec![0x01, 0x12, 0x06, 0x00, 0x03]);
}

#[test]
fn notification_gated() {
    let mut server = build_server();
    let conn = ConnHandle::new(1);
    let characteristic = server
        .find_characteristic_by_value_handle(0x0012)
        .expect("characteristic exists");
    assert_eq!(characteristic.handle, 0x0012);
    assert_eq!(characteristic.cccd_handle, Some(0x0013));

    // Not subscribed: Ok, but nothing to send.
    let r = server
        .notify(characteristic, conn, &vec![42u8], 27)
        .expect("gating is not an error");
    assert!(r.is_none());

    // Subscribe by writing the CCCD, then the PDU is built.
    let rsp = run(&mut server, conn, &[0x12, 0x13, 0x00, 0x01, 0x00]);
    assert_eq!(rsp, vec![0x13]);
    let frame = server
        .notify(characteristic, conn, &vec![42u8], 27)
        .expect("capacity suffices")
        .expect("a PDU is built");
    // L2CAP header (length 4, channel 4), then the ATT notification.
    assert_eq!(frame, vec![0x04, 0x00, 0x04, 0x00, 0x1B, 0x12, 0x00, 0x2A]);
}

#[test]
fn read_by_type_idempotent() {
    let mut server = build_server();
    let conn = ConnHandle::new(1);
    let req = [0x08, 0x10, 0x00, 0x1F, 0x00, 0x03, 0x28];
    let first = run(&mut server, conn, &req);
    let second = run(&mut server, conn, &req);
    assert_eq!(first, second);
}

#[test]
fn error_rsp_shape() {
    let mut server = build_server();
    let conn = ConnHandle::new(1);
    // Read of an absent handle gives an error response: exactly 5 bytes,
    // starting with 0x01.
    let rsp = run(&mut server, conn, &[0x0A, 0x63, 0x00]);
    assert_eq!(rsp.len(), 5);
    assert_eq!(rsp[0], 0x01);
    assert_eq!(rsp, vec![0x01, 0x0A, 0x63, 0x00, 0x0A]);
    // The write-not-permitted error has the same shape.
    let rsp = run(&mut server, conn, &[0x12, 0x06, 0x00, 0xAA]);
    assert_eq!(rsp.len(), 5);
    assert_eq!(rsp[0], 0x01);
}

#[test]
fn write_cmd_has_no_response() {
    let mut server = build_server();
    let conn = ConnHandle::new(1);
    let req = AttReq::decode(&vec![0x52, 0x04, 0x00, 0x01, 0x00]).unwrap();
    let r = server.process(conn, &req, 64, &mut NoHandler).unwrap();
    assert!(r.is_none());
    // The CCCD was still written...
    let rsp = run(&mut server, conn, &[0x0A, 0x04, 0x00]);
    assert_eq!(rsp, vec![0x0B, 0x01, 0x00]);
    // ...but a write command does not touch the subscription registry.
    assert!(!server.should_notify(conn, 0x0004));
}

#[test]
fn find_information_lists_range() {
    let mut server = build_server();
    let conn = ConnHandle::new(1);
    // Handles 1..=2: the service declaration (0x2800) and the first
    // characteristic declaration (0x2803), both 16-bit, format 1.
    let rsp = run(&mut server, conn, &[0x04, 0x01, 0x00, 0x02, 0x00]);
    assert_eq!(
        rsp,
        vec![0x05, 0x01, 0x01, 0x00, 0x00, 0x28, 0x02, 0x00, 0x03, 0x28]
    );
}

#[test]
fn prepare_and_execute_write() {
    let mut server = build_server();
    let conn = ConnHandle::new(1);
    // Prepare-write to the CCCD at offset 0 echoes the request.
    let rsp = run(&mut server, conn, &[0x16, 0x04, 0x00, 0x00, 0x00, 0x01, 0x00]);
    assert_eq!(rsp, vec![0x17, 0x04, 0x00, 0x00, 0x00, 0x01, 0x00]);
    // Execute-write answers with the bare opcode.
    let rsp = run(&mut server, conn, &[0x18, 0x00]);
    assert_eq!(rsp, vec![0x19]);
    // Prepare-write at a nonzero offset is rejected by the CCCD.
    let rsp = run(&mut server, conn, &[0x16, 0x04, 0x00, 0x01, 0x00, 0x01]);
    assert_eq!(rsp, vec![0x01, 0x16, 0x04, 0x00, 0x07]);
}

#[test]
fn read_multiple_unsupported() {
    let mut server = build_server();
    let conn = ConnHandle::new(1);
    let rsp = run(&mut server, conn, &[0x0E, 0x03, 0x00, 0x04, 0x00]);
    assert_eq!(rsp, vec![0x01, 0x0E, 0x03, 0x00, 0x0A]);
}

#[test]
fn read_by_group_type_reports_group_range() {
    let mut server = build_server();
    let conn = ConnHandle::new(1);
    // Group-read of primary services from handle 1: the generic access
    // service spans handles 1..=6 and carries its identifier as the value.
    let rsp = run(&mut server, conn, &[0x10, 0x01, 0x00, 0xFF, 0xFF, 0x00, 0x28]);
    assert_eq!(rsp, vec![0x11, 0x06, 0x01, 0x00, 0x06, 0x00, 0x00, 0x18]);
}

#[test]
fn exchange_mtu_is_handled_upstream() {
    let mut server = build_server();
    let conn = ConnHandle::new(1);
    let req = AttReq::decode(&vec![0x02, 0x17, 0x00]).unwrap();
    let r = server.process(conn, &req, 64, &mut NoHandler).unwrap();
    assert!(r.is_none());
}

#[test]
fn tiny_buffer_refuses_processing() {
    let mut server = build_server();
    let conn = ConnHandle::new(1);
    let req = AttReq::decode(&vec![0x0A, 0x04, 0x00]).unwrap();
    // One byte of room: neither the value nor an error response fits.
    let r = server.process(conn, &req, 1, &mut NoHandler);
    assert_eq!(r.unwrap_err(), gatt_core::Error::InsufficientSpace);
}

#[test]
fn find_information_stops_at_width_change() {
    let mut table: AttributeTable<16> = AttributeTable::new();
    let svc = table.add_service(Service::new(Uuid::new_short(0x1800)));
    let _c = svc.add_characteristic(
        &mut table,
        Uuid::new_long([9; 16]),
        &[CharacteristicProp::Read],
    );
    svc.build(&mut table);
    let mut server = AttributeServer::new(table);
    let conn = ConnHandle::new(1);
    // Handles 2..=3 hold the 16-bit declaration then the 128-bit value; the
    // listing stops when the identifier width class changes.
    let rsp = run(&mut server, conn, &[0x04, 0x02, 0x00, 0x03, 0x00]);
    assert_eq!(rsp, vec![0x05, 0x01, 0x02, 0x00, 0x03, 0x28]);
}

#[test]
fn notify_without_cccd_is_an_error() {
    let server = build_server();
    let conn = ConnHandle::new(1);
    let characteristic = server.find_characteristic_by_value_handle(6).unwrap();
    assert_eq!(characteristic.cccd_handle, None);
    let r = server.notify(characteristic, conn, &vec![1u8], 27);
    assert_eq!(r.unwrap_err(), gatt_core::Error::Other);
}

#[test]
fn read_blob_of_service_value() {
    let mut server = build_server();
    let conn = ConnHandle::new(1);
    // Blob-read of the service declaration value at offset 1: the second
    // byte of the 16-bit service identifier 0x1800.
    let rsp = run(&mut server, conn, &[0x0C, 0x01, 0x00, 0x01, 0x00]);
    assert_eq!(rsp, vec![0x0D, 0x18]);
}

#[test]
fn full_server_turn_frames_the_response() {
    let mut server = build_server();
    let conn = ConnHandle::new(1);
    // Decode, dispatch, frame: one turn of the transport loop.
    let frame = server
        .process_pdu(conn, &vec![0x0A, 0x04, 0x00], 23, &mut NoHandler)
        .expect("a framed response");
    assert_eq!(frame, vec![0x03, 0x00, 0x04, 0x00, 0x0B, 0x00, 0x00]);
    // A PDU that does not decode is dropped without a response.
    assert!(server.process_pdu(conn, &vec![0x7E], 23, &mut NoHandler).is_none());
    // A write command takes no response either, but still lands.
    assert!(server
        .process_pdu(conn, &vec![0x52, 0x04, 0x00, 0x03, 0x00], 23, &mut NoHandler)
        .is_none());
    let frame = server
        .process_pdu(conn, &vec![0x0A, 0x04, 0x00], 23, &mut NoHandler)
        .expect("a framed response");
    assert_eq!(frame, vec![0x03, 0x00, 0x04, 0x00, 0x0B, 0x03, 0x00]);
}

#[test]
fn find_information_empty_range_is_an_error() {
    let mut server = build_server();
    let conn = ConnHandle::new(1);
    let rsp = run(&mut server, conn, &[0x04, 0x50, 0x00, 0x60, 0x00]);
    assert_eq!(rsp, vec![0x01, 0x04, 0x50, 0x00, 0x0A]);
}
