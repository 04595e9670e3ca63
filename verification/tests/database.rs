//! Attribute database construction: handle allocation, group stamping and
//! the declaration layout.

use gatt_core::attribute::{
    Attribute, AttributeData, AttributeTable, CharacteristicProp, Service,
};
use gatt_core::uuid::Uuid;
use gatt_core::Error;

fn build_table() -> AttributeTable<64> {
    let mut table: AttributeTable<64> = AttributeTable::new();
    let svc1 = table.add_service(Service::new(Uuid::new_short(0x1800)));
    let _c1 = svc1.add_characteristic(
        &mut table,
        Uuid::new_short(0x2A19),
        &[
            CharacteristicProp::Read,
            CharacteristicProp::Write,
            CharacteristicProp::Notify,
        ],
    );
    let _c2 = svc1.add_characteristic_ro(&mut table, Uuid::new_short(0x2A00));
    svc1.build(&mut table);
    let svc2 = table.add_service(Service::new(Uuid::new_short(0x180F)));
    for _ in 0..5 {
        svc2.add_characteristic(
            &mut table,
            Uuid::new_short(0x2A19),
            &[CharacteristicProp::Read, CharacteristicProp::Notify],
        );
    }
    svc2.build(&mut table);
    table
}

fn collect<const MAX: usize>(table: &AttributeTable<MAX>) -> Vec<&Attribute> {
    let mut items = Vec::new();
    let mut it = table.attr_iter();
    while let Some(a) = it.next() {
        items.push(a);
    }
    items
}

#[test]
fn groups_are_stamped_with_last_member_handle() {
    let table = build_table();
    let attrs = collect(&table);
    assert_eq!(attrs.len(), 6 + 16);
    // First service: members at indices 0..6, last member handle 6.
    for a in &attrs[..6] {
        assert_eq!(a.last_handle_in_group, 6);
    }
    assert_eq!(attrs[5].handle, 6);
    // Second service: members at indices 6..22, last member handle 0x1F.
    for a in &attrs[6..] {
        assert_eq!(a.last_handle_in_group, 0x1F);
    }
    assert_eq!(attrs[21].handle, 0x1F);
    // After the seal the next service group starts at a multiple of 16.
    assert_eq!(attrs[6].handle, 0x10);
}

#[test]
fn handles_strictly_increase() {
    let table = build_table();
    let attrs = collect(&table);
    for w in attrs.windows(2) {
        assert!(w[0].handle < w[1].handle);
    }
    assert!(attrs[0].handle >= 1);
}

#[test]
fn declarations_precede_their_values() {
    let table = build_table();
    let attrs = collect(&table);
    let mut seen = 0;
    for (i, a) in attrs.iter().enumerate() {
        if let AttributeData::Declaration {
            props,
            handle,
            uuid,
        } = &a.data
        {
            seen += 1;
            let value = attrs[i + 1];
            assert_eq!(value.handle, *handle);
            assert!(value.uuid == *uuid);
            if props.0 & 0x30 != 0 {
                assert!(matches!(
                    attrs[i + 2].data,
                    AttributeData::Cccd { .. }
                ));
            }
        }
    }
    assert_eq!(seen, 7);
}

#[test]
fn builder_reports_value_and_cccd_handles() {
    let mut table: AttributeTable<16> = AttributeTable::new();
    let svc = table.add_service(Service::new(Uuid::new_short(0x180F)));
    let with_cccd = svc
        .add_characteristic(
            &mut table,
            Uuid::new_short(0x2A19),
            &[CharacteristicProp::Read, CharacteristicProp::Notify],
        )
        .build();
    let plain = svc
        .add_characteristic(
            &mut table,
            Uuid::new_short(0x2A00),
            &[CharacteristicProp::Read],
        )
        .build();
    let handle = svc.build(&mut table);
    assert_eq!(handle.handle, 1);
    assert_eq!(with_cccd.handle, 3);
    assert_eq!(with_cccd.cccd_handle, Some(4));
    assert_eq!(plain.handle, 6);
    assert_eq!(plain.cccd_handle, None);
}

#[test]
fn descriptors_extend_the_group() {
    let mut table: AttributeTable<16> = AttributeTable::new();
    let svc = table.add_service(Service::new(Uuid::new_short(0x180F)));
    let cb = svc.add_characteristic(
        &mut table,
        Uuid::new_short(0x2A19),
        &[CharacteristicProp::Read],
    );
    let d1 = cb.add_descriptor(&mut table, Uuid::new_short(0x2901), &[CharacteristicProp::Read]);
    let d2 = cb.add_descriptor_ro(&mut table, Uuid::new_short(0x2904));
    svc.build(&mut table);
    assert_eq!(d1.handle, 4);
    assert_eq!(d2.handle, 5);
    let attrs = collect(&table);
    for a in &attrs {
        assert_eq!(a.last_handle_in_group, 5);
    }
}

#[test]
fn find_characteristic_by_value_handle_reports_cccd() {
    let table = build_table();
    let c = table.find_characteristic_by_value_handle(3).unwrap();
    assert_eq!(c.handle, 3);
    assert_eq!(c.cccd_handle, Some(4));
    // The read-only value at handle 6 is followed by the next service
    // declaration, not a CCCD.
    let c = table.find_characteristic_by_value_handle(6).unwrap();
    assert_eq!(c.cccd_handle, None);
    assert_eq!(
        table.find_characteristic_by_value_handle(0x99).unwrap_err(),
        Error::NotFound
    );
}
