//! Client-side logic: response decoding, discovery driven against the
//! verified server, and the read/write/subscribe steps.

use gatt_core::att::{AttErrorCode, AttReq};
use gatt_core::attribute::{AttributeTable, CharacteristicProp, Service};
use gatt_core::client::{
    is_notification, notification_matches, parse_notification, read_characteristic_by_uuid_req,
    read_characteristic_by_uuid_rsp, read_characteristic_req, read_characteristic_rsp,
    subscribe_req, unsubscribe_req, write_characteristic_req, write_characteristic_rsp, AttRsp,
    CharacteristicDiscovery, ServiceDiscovery, ServiceHandle,
};
use gatt_core::handler::AttrHandler;
use gatt_core::server::AttributeServer;
use gatt_core::uuid::Uuid;
use gatt_core::{ConnHandle, Error};

/// A handler whose every value reads as a fixed byte string.
struct FixedHandler(Vec<u8>);

impl AttrHandler for FixedHandler {
    fn read(
        &mut self,
        _uuid: &Uuid,
        _handle: u16,
        offset: usize,
        cap: usize,
    ) -> Result<Vec<u8>, AttErrorCode> {
        if offset > self.0.len() {
            return Err(AttErrorCode::InvalidOffset);
        }
        let end = (offset + cap).min(self.0.len());
        Ok(self.0[offset..end].to_vec())
    }

    fn write(
        &mut self,
        _uuid: &Uuid,
        _handle: u16,
        _offset: usize,
        data: &Vec<u8>,
    ) -> Result<(), AttErrorCode> {
        self.0 = data.clone();
        Ok(())
    }
}

fn build_server() -> AttributeServer<64> {
    let mut table: AttributeTable<64> = AttributeTable::new();
    let svc1 = table.add_service(Service::new(Uuid::new_short(0x1800)));
    let _c = svc1.add_characteristic_ro(&mut table, Uuid::new_short(0x2A00));
    svc1.build(&mut table);
    let svc2 = table.add_service(Service::new(Uuid::new_short(0x180F)));
    let _c = svc2.add_characteristic(
        &mut table,
        Uuid::new_short(0x2A19),
        &[
            CharacteristicProp::Read,
            CharacteristicProp::Write,
            CharacteristicProp::Notify,
        ],
    );
    svc2.build(&mut table);
    AttributeServer::new(table)
}

fn exchange(
    server: &mut AttributeServer<64>,
    conn: ConnHandle,
    req: &AttReq,
    handler: &mut FixedHandler,
) -> AttRsp {
    // Round-trip the request through its wire form, as the transport would.
    let wire = req.encode();
    let decoded = AttReq::decode(&wire).expect("an encoded request decodes");
    let rsp = server
        .process(conn, &decoded, 64, handler)
        .expect("no capacity error")
        .expect("a response is expected");
    AttRsp::decode(&rsp).expect("the response decodes")
}

#[test]
fn discover_services_end_to_end() {
    let mut server = build_server();
    let conn = ConnHandle::new(1);
    let mut handler = FixedHandler(vec![0x64]);
    let mut sd = ServiceDiscovery::new(Uuid::new_short(0x180F));
    let mut found: Vec<ServiceHandle> = Vec::new();
    let mut rounds = 0;
    while let Some(req) = sd.request() {
        rounds += 1;
        assert!(rounds < 10, "discovery must terminate");
        let rsp = exchange(&mut server, conn, &req, &mut handler);
        sd.on_response(&rsp, &mut found, 8).expect("discovery step");
    }
    assert_eq!(found.len(), 1);
    assert_eq!(found[0].start, 0x10);
    assert_eq!(found[0].end, 0x13);
    assert!(found[0].uuid == Uuid::new_short(0x180F));
}

#[test]
fn discover_characteristic_end_to_end() {
    let mut server = build_server();
    let conn = ConnHandle::new(1);
    let mut handler = FixedHandler(vec![0x64]);
    let service = ServiceHandle {
        start: 0x10,
        end: 0x13,
        uuid: Uuid::new_short(0x180F),
    };
    let mut cd = CharacteristicDiscovery::new(&service, Uuid::new_short(0x2A19));
    let mut result = None;
    for _ in 0..10 {
        let req = cd.request();
        let rsp = exchange(&mut server, conn, &req, &mut handler);
        if let Some(c) = cd.on_response(&rsp).expect("discovery step") {
            result = Some(c);
            break;
        }
    }
    let c = result.expect("the characteristic is found");
    assert_eq!(c.handle, 0x12);
    assert_eq!(c.cccd_handle, Some(0x13));
}

#[test]
fn read_write_subscribe_flow() {
    let mut server = build_server();
    let conn = ConnHandle::new(1);
    let mut handler = FixedHandler(vec![0x64]);
    let c = server.find_characteristic_by_value_handle(0x12).unwrap();

    // Read the battery level through the handler.
    let rsp = exchange(&mut server, conn, &read_characteristic_req(&c), &mut handler);
    assert_eq!(read_characteristic_rsp(&rsp, 16).unwrap(), vec![0x64]);

    // Write a new value; the handler stores it.
    let req = write_characteristic_req(&c, &vec![0x32]);
    let rsp = exchange(&mut server, conn, &req, &mut handler);
    write_characteristic_rsp(&rsp).unwrap();
    assert_eq!(handler.0, vec![0x32]);

    // Subscribe: the CCCD write enables gating for this connection.
    let req = subscribe_req(&c, false).unwrap();
    let rsp = exchange(&mut server, conn, &req, &mut handler);
    write_characteristic_rsp(&rsp).unwrap();
    assert!(server.should_notify(conn, 0x13));

    // Unsubscribe again.
    let req = unsubscribe_req(&c).unwrap();
    let rsp = exchange(&mut server, conn, &req, &mut handler);
    write_characteristic_rsp(&rsp).unwrap();
    assert!(!server.should_notify(conn, 0x13));
}

#[test]
fn read_by_uuid_flow() {
    let mut server = build_server();
    let conn = ConnHandle::new(1);
    let mut handler = FixedHandler(vec![0xAA, 0xBB, 0xCC]);
    let service = ServiceHandle {
        start: 0x10,
        end: 0x13,
        uuid: Uuid::new_short(0x180F),
    };
    let req = read_characteristic_by_uuid_req(&service, &Uuid::new_short(0x2A19));
    let rsp = exchange(&mut server, conn, &req, &mut handler);
    assert_eq!(
        read_characteristic_by_uuid_rsp(&rsp, 16).unwrap(),
        vec![0xAA, 0xBB, 0xCC]
    );
    // Truncated to the destination's room.
    assert_eq!(read_characteristic_by_uuid_rsp(&rsp, 2).unwrap(), vec![0xAA, 0xBB]);
}

#[test]
fn subscribe_needs_a_cccd() {
    let mut server = build_server();
    // The read-only device name at handle 3 has no CCCD.
    let c = server.find_characteristic_by_value_handle(0x03).unwrap();
    assert_eq!(c.cccd_handle, None);
    match subscribe_req(&c, false) {
        Err(e) => assert_eq!(e, Error::NotSupported),
        Ok(_) => panic!("a CCCD-less characteristic cannot be subscribed"),
    }
    match unsubscribe_req(&c) {
        Err(e) => assert_eq!(e, Error::NotSupported),
        Ok(_) => panic!("a CCCD-less characteristic cannot be unsubscribed"),
    }
}

#[test]
fn malformed_cccd_lookup_is_rejected() {
    let service = ServiceHandle {
        start: 0x10,
        end: 0x1F,
        uuid: Uuid::new_short(0x180F),
    };
    let mut cd = CharacteristicDiscovery::new(&service, Uuid::new_short(0x2A19));
    // The declaration scan finds a notifying characteristic...
    let decl = AttRsp::ReadByType {
        pairs: vec![(0x11, vec![0x12, 0x12, 0x00, 0x19, 0x2A])],
    };
    assert!(cd.on_response(&decl).unwrap().is_none());
    // ...but the CCCD read comes back with a value that is not two bytes.
    let bad = AttRsp::ReadByType {
        pairs: vec![(0x13, vec![0x01])],
    };
    match cd.on_response(&bad) {
        Err(e) => assert_eq!(e, Error::OutOfMemory),
        Ok(_) => panic!("a malformed CCCD value must be rejected"),
    }
    // An empty CCCD lookup means the descriptor is missing.
    let mut cd = CharacteristicDiscovery::new(&service, Uuid::new_short(0x2A19));
    assert!(cd.on_response(&decl).unwrap().is_none());
    let empty = AttRsp::ReadByType { pairs: Vec::new() };
    match cd.on_response(&empty) {
        Err(e) => assert_eq!(e, Error::NotFound),
        Ok(_) => panic!("a missing CCCD must be reported"),
    }
}

#[test]
fn peer_errors_surface_as_att_errors() {
    let service = ServiceHandle {
        start: 0x10,
        end: 0x1F,
        uuid: Uuid::new_short(0x180F),
    };
    let mut cd = CharacteristicDiscovery::new(&service, Uuid::new_short(0x2A19));
    let rsp = AttRsp::Error {
        request: 0x08,
        handle: 0x10,
        code: AttErrorCode::ReadNotPermitted,
    };
    match cd.on_response(&rsp) {
        Err(e) => assert_eq!(e, Error::Att(AttErrorCode::ReadNotPermitted)),
        Ok(_) => panic!("a peer error must surface"),
    }
    match read_characteristic_rsp(&rsp, 8) {
        Err(e) => assert_eq!(e, Error::Att(AttErrorCode::ReadNotPermitted)),
        Ok(_) => panic!("a peer error must surface"),
    }
    // A mismatched response class is an invalid value.
    match write_characteristic_rsp(&AttRsp::Read { data: vec![1] }) {
        Err(e) => assert_eq!(e, Error::InvalidValue),
        Ok(_) => panic!("a mismatched response must be refused"),
    }
}

#[test]
fn subscribe_request_bytes() {
    let c = gatt_core::attribute::Characteristic {
        handle: 0x12,
        cccd_handle: Some(0x13),
    };
    let req = subscribe_req(&c, false).unwrap();
    assert_eq!(req.encode(), vec![0x12, 0x13, 0x00, 0x01, 0x00]);
    let req = subscribe_req(&c, true).unwrap();
    assert_eq!(req.encode(), vec![0x12, 0x13, 0x00, 0x02, 0x00]);
    let req = unsubscribe_req(&c).unwrap();
    assert_eq!(req.encode(), vec![0x12, 0x13, 0x00, 0x00, 0x00]);
}

#[test]
fn response_decoding() {
    // Error response.
    match AttRsp::decode(&vec![0x01, 0x12, 0x06, 0x00, 0x03]).unwrap() {
        AttRsp::Error {
            request,
            handle,
            code,
        } => {
            assert_eq!(request, 0x12);
            assert_eq!(handle, 6);
            assert_eq!(code, AttErrorCode::WriteNotPermitted);
        }
        _ => panic!("an error response is expected"),
    }
    // Read response.
    match AttRsp::decode(&vec![0x0B, 0x64, 0x65]).unwrap() {
        AttRsp::Read { data } => assert_eq!(data, vec![0x64, 0x65]),
        _ => panic!("a read response is expected"),
    }
    // Read-by-type pairs.
    match AttRsp::decode(&vec![0x09, 0x03, 0x11, 0x00, 0xAA, 0x12, 0x00, 0xBB]).unwrap() {
        AttRsp::ReadByType { pairs } => {
            assert_eq!(pairs.len(), 2);
            assert_eq!(pairs[0], (0x11, vec![0xAA]));
            assert_eq!(pairs[1], (0x12, vec![0xBB]));
        }
        _ => panic!("a read-by-type response is expected"),
    }
    // Find-by-type-value groups.
    match AttRsp::decode(&vec![0x07, 0x10, 0x00, 0x1F, 0x00]).unwrap() {
        AttRsp::FindByTypeValue { groups } => assert_eq!(groups, vec![(0x10, 0x1F)]),
        _ => panic!("a find-by-type-value response is expected"),
    }
    // Write response.
    assert!(matches!(
        AttRsp::decode(&vec![0x13]).unwrap(),
        AttRsp::Write
    ));
    // Malformed input.
    assert!(AttRsp::decode(&Vec::new()).is_err());
    assert!(AttRsp::decode(&vec![0x01, 0x12, 0x06, 0x00]).is_err());
    assert!(AttRsp::decode(&vec![0x42]).is_err());
}

#[test]
fn notification_routing() {
    let pdu = vec![0x1B, 0x12, 0x00, 0x2A, 0x2B];
    assert!(is_notification(&pdu));
    assert!(!is_notification(&vec![0x0B, 0x00]));
    let n = parse_notification(&pdu, 16).unwrap();
    assert_eq!(n.handle, 0x12);
    assert_eq!(n.as_bytes(), &vec![0x2A, 0x2B]);
    assert!(notification_matches(&n, 0x12));
    assert!(!notification_matches(&n, 0x13));
    // Payload clamped to the listener's buffer size.
    let n = parse_notification(&pdu, 1).unwrap();
    assert_eq!(n.as_bytes(), &vec![0x2A]);
    assert!(parse_notification(&vec![0x1B, 0x12], 16).is_err());
}

#[test]
fn service_discovery_respects_capacity() {
    let mut sd = ServiceDiscovery::new(Uuid::new_short(0x180F));
    let mut out: Vec<ServiceHandle> = Vec::new();
    let rsp = AttRsp::FindByTypeValue {
        groups: vec![(0x10, 0x1F), (0x20, 0x2F)],
    };
    assert_eq!(
        sd.on_response(&rsp, &mut out, 1).unwrap_err(),
        Error::InsufficientSpace
    );
    assert_eq!(out.len(), 1);
}
