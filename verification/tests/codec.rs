//! Attribute value codec and PDU codec round trips.

use gatt_core::att::{AttErrorCode, AttReq};
use gatt_core::attribute::{AttributeData, CharacteristicProps, CCCDFlag, CharacteristicProp, CCCD};
use gatt_core::handler::AttrHandler;
use gatt_core::uuid::Uuid;

struct NoHandler;

impl AttrHandler for NoHandler {
    fn read(
        &mut self,
        _uuid: &Uuid,
        _handle: u16,
        _offset: usize,
        _cap: usize,
    ) -> Result<Vec<u8>, AttErrorCode> {
        Err(AttErrorCode::ReadNotPermitted)
    }

    fn write(
        &mut self,
        _uuid: &Uuid,
        _handle: u16,
        _offset: usize,
        _data: &Vec<u8>,
    ) -> Result<(), AttErrorCode> {
        Err(AttErrorCode::WriteNotPermitted)
    }
}

fn read_value(d: &AttributeData, offset: usize, cap: usize) -> Result<Vec<u8>, AttErrorCode> {
    d.att_read(&Uuid::new_short(0), 1, offset, cap, &mut NoHandler)
}

#[test]
fn declaration_roundtrip_16bit() {
    let d = AttributeData::Declaration {
        props: CharacteristicProps(0xAB),
        handle: 0x1234,
        uuid: Uuid::new_short(0x2A19),
    };
    let enc = read_value(&d, 0, 64).unwrap();
    assert_eq!(enc, vec![0xAB, 0x34, 0x12, 0x19, 0x2A]);
    match AttributeData::decode_declaration(&enc).unwrap() {
        AttributeData::Declaration {
            props,
            handle,
            uuid,
        } => {
            assert_eq!(props.0, 0xAB);
            assert_eq!(handle, 0x1234);
            assert!(uuid == Uuid::new_short(0x2A19));
        }
        _ => panic!("a declaration is expected"),
    }
}

#[test]
fn declaration_roundtrip_128bit() {
    let long = [
        0x01, 0x02, 0x03, 0x04, 0x05, 0x06, 0x07, 0x08, 0x09, 0x0A, 0x0B, 0x0C, 0x0D, 0x0E, 0x0F,
        0x10,
    ];
    let d = AttributeData::Declaration {
        props: CharacteristicProps(0x02),
        handle: 0xFFFE,
        uuid: Uuid::new_long(long),
    };
    let enc = read_value(&d, 0, 64).unwrap();
    assert_eq!(enc.len(), 19);
    assert_eq!(&enc[..3], &[0x02, 0xFE, 0xFF]);
    assert_eq!(&enc[3..], &long[..]);
    match AttributeData::decode_declaration(&enc).unwrap() {
        AttributeData::Declaration {
            props,
            handle,
            uuid,
        } => {
            assert_eq!(props.0, 0x02);
            assert_eq!(handle, 0xFFFE);
            assert!(uuid == Uuid::new_long(long));
        }
        _ => panic!("a declaration is expected"),
    }
}

#[test]
fn declaration_read_straddles_offsets() {
    let d = AttributeData::Declaration {
        props: CharacteristicProps(0xAB),
        handle: 0x1234,
        uuid: Uuid::new_short(0x2A19),
    };
    assert_eq!(read_value(&d, 1, 64).unwrap(), vec![0x34, 0x12, 0x19, 0x2A]);
    assert_eq!(read_value(&d, 2, 64).unwrap(), vec![0x12, 0x19, 0x2A]);
    assert_eq!(read_value(&d, 3, 64).unwrap(), vec![0x19, 0x2A]);
    // Past the value: nothing, not an error.
    assert_eq!(read_value(&d, 6, 64).unwrap(), Vec::<u8>::new());
    // Too little room for the fixed header part.
    assert_eq!(read_value(&d, 0, 2).unwrap_err(), AttErrorCode::UnlikelyError);
    // Clamped to the room that is left.
    assert_eq!(read_value(&d, 0, 4).unwrap(), vec![0xAB, 0x34, 0x12, 0x19]);
}

#[test]
fn service_value_read_clamps() {
    let long = [
        0x01, 0x02, 0x03, 0x04, 0x05, 0x06, 0x07, 0x08, 0x09, 0x0A, 0x0B, 0x0C, 0x0D, 0x0E, 0x0F,
        0x10,
    ];
    let d = AttributeData::Service {
        uuid: Uuid::new_long(long),
    };
    assert_eq!(read_value(&d, 0, 64).unwrap(), long.to_vec());
    assert_eq!(read_value(&d, 3, 4).unwrap(), vec![0x04, 0x05, 0x06, 0x07]);
    // Offset past the value: empty.
    assert_eq!(read_value(&d, 17, 4).unwrap(), Vec::<u8>::new());
}

#[test]
fn cccd_write_masks_flag_bits() {
    let mut d = AttributeData::Cccd {
        notifications: false,
        indications: false,
    };
    let u = Uuid::new_short(0x2902);
    d.att_write(&u, 4, 0, &vec![0xFF], &mut NoHandler).unwrap();
    // Reading always yields exactly two bytes: the written byte masked to
    // its two flag bits, then zero.
    assert_eq!(read_value(&d, 0, 64).unwrap(), vec![0x03, 0x00]);
    d.att_write(&u, 4, 0, &vec![0x02, 0x55], &mut NoHandler).unwrap();
    assert_eq!(read_value(&d, 0, 64).unwrap(), vec![0x02, 0x00]);
    d.att_write(&u, 4, 0, &vec![0x00], &mut NoHandler).unwrap();
    assert_eq!(read_value(&d, 0, 64).unwrap(), vec![0x00, 0x00]);
}

#[test]
fn cccd_rejections() {
    let mut d = AttributeData::Cccd {
        notifications: true,
        indications: false,
    };
    let u = Uuid::new_short(0x2902);
    assert_eq!(
        d.att_write(&u, 4, 1, &vec![0x01], &mut NoHandler).unwrap_err(),
        AttErrorCode::InvalidOffset
    );
    assert_eq!(
        d.att_write(&u, 4, 0, &Vec::new(), &mut NoHandler).unwrap_err(),
        AttErrorCode::UnlikelyError
    );
    assert_eq!(read_value(&d, 1, 64).unwrap_err(), AttErrorCode::InvalidOffset);
    assert_eq!(read_value(&d, 0, 1).unwrap_err(), AttErrorCode::UnlikelyError);
    // The rejected writes left the stored flags alone.
    assert_eq!(read_value(&d, 0, 2).unwrap(), vec![0x01, 0x00]);
}

#[test]
fn access_permissions() {
    let unreadable = AttributeData::Data {
        props: CharacteristicProps(0x08),
    };
    assert!(!unreadable.readable());
    assert!(unreadable.writable());
    assert_eq!(
        read_value(&unreadable, 0, 8).unwrap_err(),
        AttErrorCode::ReadNotPermitted
    );
    let mut read_only = AttributeData::ReadOnlyData {
        props: CharacteristicProps(0x02),
    };
    assert!(read_only.readable());
    assert!(!read_only.writable());
    assert_eq!(
        read_only
            .att_write(&Uuid::new_short(0), 1, 0, &vec![1], &mut NoHandler)
            .unwrap_err(),
        AttErrorCode::WriteNotPermitted
    );
    let mut service = AttributeData::Service {
        uuid: Uuid::new_short(0x1800),
    };
    assert!(service.readable());
    assert!(!service.writable());
    assert_eq!(
        service
            .att_write(&Uuid::new_short(0), 1, 0, &vec![1], &mut NoHandler)
            .unwrap_err(),
        AttErrorCode::WriteNotPermitted
    );
}

#[test]
fn props_collect_and_test() {
    let props = CharacteristicProps::new(&[
        CharacteristicProp::Read,
        CharacteristicProp::Notify,
    ]);
    assert_eq!(props.0, 0x12);
    assert!(props.any(&[CharacteristicProp::Notify]));
    assert!(props.any(&[CharacteristicProp::Indicate, CharacteristicProp::Read]));
    assert!(!props.any(&[CharacteristicProp::Indicate]));
    assert!(!props.any(&[]));

    let cccd = CCCD::new(&[CCCDFlag::Notify, CCCDFlag::Indicate]);
    assert_eq!(cccd.0, 0x03);
    assert!(cccd.any(&[CCCDFlag::Notify]));
    assert!(!CCCD::new(&[CCCDFlag::Indicate]).any(&[CCCDFlag::Notify]));
}

#[test]
fn att_request_codec_roundtrips() {
    let reqs: Vec<Vec<u8>> = vec![
        vec![0x08, 0x10, 0x00, 0x1F, 0x00, 0x03, 0x28],
        vec![0x10, 0x01, 0x00, 0xFF, 0xFF, 0x00, 0x28],
        vec![0x04, 0x01, 0x00, 0x05, 0x00],
        vec![0x06, 0x01, 0x00, 0xFF, 0xFF, 0x00, 0x28, 0x0F, 0x18],
        vec![0x0A, 0x03, 0x00],
        vec![0x0C, 0x03, 0x00, 0x10, 0x00],
        vec![0x0E, 0x03, 0x00, 0x04, 0x00],
        vec![0x12, 0x04, 0x00, 0x01, 0x00],
        vec![0x52, 0x04, 0x00, 0x01, 0x00],
        vec![0x16, 0x04, 0x00, 0x02, 0x00, 0xAA, 0xBB],
        vec![0x18, 0x01],
        vec![0x02, 0x17, 0x00],
    ];
    for bytes in reqs {
        let req = AttReq::decode(&bytes).expect("request must decode");
        assert_eq!(req.encode(), bytes);
    }
}

#[test]
fn att_request_decode_rejects_malformed() {
    assert!(AttReq::decode(&Vec::new()).is_err());
    // Unknown opcode.
    assert!(AttReq::decode(&vec![0x7E, 0x00]).is_err());
    // Truncated read request.
    assert!(AttReq::decode(&vec![0x0A, 0x03]).is_err());
    // Read-by-type with an identifier that is neither 2 nor 16 bytes.
    assert!(AttReq::decode(&vec![0x08, 0x10, 0x00, 0x1F, 0x00, 0x03]).is_err());
    // Find-by-type-value missing its type.
    assert!(AttReq::decode(&vec![0x06, 0x01, 0x00, 0xFF, 0xFF, 0x00]).is_err());
}

#[test]
fn att_error_codes_on_the_wire() {
    let codes = [
        (AttErrorCode::InvalidHandle, 0x01),
        (AttErrorCode::ReadNotPermitted, 0x02),
        (AttErrorCode::WriteNotPermitted, 0x03),
        (AttErrorCode::InvalidPdu, 0x04),
        (AttErrorCode::InsufficientAuthentication, 0x05),
        (AttErrorCode::RequestNotSupported, 0x06),
        (AttErrorCode::InvalidOffset, 0x07),
        (AttErrorCode::AttributeNotFound, 0x0A),
        (AttErrorCode::AttributeNotLong, 0x0B),
        (AttErrorCode::InsufficientResources, 0x11),
        (AttErrorCode::UnlikelyError, 0x0E),
    ];
    for (code, byte) in codes {
        assert_eq!(code.code(), byte);
        assert_eq!(AttErrorCode::from_code(byte).unwrap(), code);
    }
    assert!(AttErrorCode::from_code(0x77).is_err());
}

#[test]
fn uuid_forms() {
    let short = Uuid::new_short(0x2A19);
    assert_eq!(short.as_raw(), &vec![0x19, 0x2A]);
    assert_eq!(short.as_short(), 0x2A19);
    assert_eq!(short.get_type(), 1);
    let long = Uuid::new_long([7; 16]);
    assert_eq!(long.get_type(), 2);
    assert!(short != long);
    assert!(short == short.dup());
    assert!(Uuid::from_slice(&vec![0x19, 0x2A]).unwrap() == short);
    assert!(Uuid::from_slice(&vec![1, 2, 3]).is_err());
}
