use std::collections::{HashMap, HashSet};

use ble_session::{
    Address, AddressType, Anomaly, Event, MacAddressType, Outcome, PeripheralPropertyId,
    PlatformEvent, PlatformPeripheralHandle, PlatformPeripheralProperty, Session, SessionConfig,
    MAC,
};

const WATCH: PlatformPeripheralHandle = PlatformPeripheralHandle(7);
const LAMP: PlatformPeripheralHandle = PlatformPeripheralHandle(300);

fn session() -> Session {
    SessionConfig::new().start().1
}

fn set(
    session: &mut Session,
    peripheral_handle: PlatformPeripheralHandle,
    property: PlatformPeripheralProperty,
) -> Outcome {
    session.handle_platform_event(PlatformEvent::PeripheralPropertySet {
        peripheral_handle,
        property,
    })
}

fn connect(session: &mut Session, peripheral_handle: PlatformPeripheralHandle) -> Outcome {
    session.handle_platform_event(PlatformEvent::PeripheralConnected { peripheral_handle })
}

fn disconnect(session: &mut Session, peripheral_handle: PlatformPeripheralHandle) -> Outcome {
    session.handle_platform_event(PlatformEvent::PeripheralDisconnected { peripheral_handle })
}

fn address(mac: u64) -> PlatformPeripheralProperty {
    PlatformPeripheralProperty::Address(Address::MAC(MAC(mac)))
}

fn name(name: &str) -> PlatformPeripheralProperty {
    PlatformPeripheralProperty::Name(name.to_string())
}

fn changed(handle: PlatformPeripheralHandle, id: PeripheralPropertyId) -> Event {
    Event::PeripheralPropertyChanged(handle, id)
}

fn found(handle: PlatformPeripheralHandle, mac: u64, name: &str) -> Event {
    Event::PeripheralFound {
        peripheral: handle,
        address: Address::MAC(MAC(mac)),
        name: name.to_string(),
    }
}

fn payload(key: u16, bytes: &[u8]) -> PlatformPeripheralProperty {
    PlatformPeripheralProperty::ManufacturerData(HashMap::from([(key, bytes.to_vec())]))
}

fn service_payload(key: u128, bytes: &[u8]) -> PlatformPeripheralProperty {
    PlatformPeripheralProperty::ServiceData(HashMap::from([(key, bytes.to_vec())]))
}

#[test]
fn found_report_tells_nothing() {
    let mut session = session();
    let outcome = session
        .handle_platform_event(PlatformEvent::PeripheralFound { peripheral_handle: WATCH });
    assert_eq!(outcome.events, vec![]);
    assert_eq!(outcome.anomaly, None);
}

#[test]
fn introduced_once_address_and_name_are_known() {
    let mut session = session();
    assert_eq!(set(&mut session, WATCH, address(0xa1)).events, vec![]);
    let outcome = set(&mut session, WATCH, name("watch"));
    assert_eq!(
        outcome.events,
        vec![
            found(WATCH, 0xa1, "watch"),
            changed(WATCH, PeripheralPropertyId::Name),
            changed(WATCH, PeripheralPropertyId::Name),
        ]
    );
    assert_eq!(outcome.anomaly, None);
    // It is not introduced again.
    assert_eq!(
        set(&mut session, WATCH, name("clock")).events,
        vec![changed(WATCH, PeripheralPropertyId::Name)]
    );
}

#[test]
fn introduced_by_the_address_if_the_name_comes_first() {
    let mut session = session();
    assert_eq!(
        set(&mut session, WATCH, name("watch")).events,
        vec![changed(WATCH, PeripheralPropertyId::Name)]
    );
    assert_eq!(
        set(&mut session, WATCH, address(0xa1)).events,
        vec![found(WATCH, 0xa1, "watch"), changed(WATCH, PeripheralPropertyId::Name)]
    );
    assert_eq!(set(&mut session, WATCH, address(0xa1)).events, vec![]);
}

#[test]
fn introduction_reports_known_properties_in_order() {
    let mut session = session();
    set(&mut session, WATCH, PlatformPeripheralProperty::Services(vec![5, 6]));
    set(&mut session, WATCH, service_payload(5, &[1]));
    set(&mut session, WATCH, payload(9, &[2]));
    set(&mut session, WATCH, PlatformPeripheralProperty::Rssi(-60));
    set(&mut session, WATCH, PlatformPeripheralProperty::TxPower(4));
    set(&mut session, WATCH, PlatformPeripheralProperty::AddressType(AddressType::RandomMAC));
    set(&mut session, WATCH, name("watch"));
    assert_eq!(
        set(&mut session, WATCH, address(0xa1)).events,
        vec![
            found(WATCH, 0xa1, "watch"),
            changed(WATCH, PeripheralPropertyId::Name),
            changed(WATCH, PeripheralPropertyId::AddressType),
            changed(WATCH, PeripheralPropertyId::TxPower),
            changed(WATCH, PeripheralPropertyId::Rssi),
            changed(WATCH, PeripheralPropertyId::ManufacturerData),
            changed(WATCH, PeripheralPropertyId::ServiceData),
            changed(WATCH, PeripheralPropertyId::Services),
        ]
    );
}

#[test]
fn introduction_skips_what_is_not_known() {
    let mut session = session();
    set(&mut session, WATCH, PlatformPeripheralProperty::Rssi(-60));
    set(&mut session, WATCH, PlatformPeripheralProperty::AddressType(AddressType::String));
    set(&mut session, WATCH, PlatformPeripheralProperty::Services(vec![]));
    set(&mut session, WATCH, name("watch"));
    assert_eq!(
        set(
            &mut session,
            WATCH,
            PlatformPeripheralProperty::Address(Address::String("id-1".to_string()))
        )
        .events,
        vec![
            Event::PeripheralFound {
                peripheral: WATCH,
                address: Address::String("id-1".to_string()),
                name: "watch".to_string(),
            },
            changed(WATCH, PeripheralPropertyId::Name),
            changed(WATCH, PeripheralPropertyId::Rssi),
        ]
    );
}

#[test]
fn address_never_changes() {
    let mut session = session();
    set(&mut session, WATCH, address(0xa1));
    let outcome = set(&mut session, WATCH, address(0xb2));
    assert_eq!(outcome.events, vec![]);
    assert_eq!(outcome.anomaly, Some(Anomaly::AddressChange));
    let outcome =
        set(&mut session, WATCH, PlatformPeripheralProperty::Address(Address::String("a".into())));
    assert_eq!(outcome.anomaly, Some(Anomaly::AddressChange));
    let outcome = set(&mut session, WATCH, address(0xa1));
    assert_eq!(outcome.anomaly, None);
    let state = session.get_peripheral_state(WATCH);
    assert_eq!(session.read(state).address, Some(Address::MAC(MAC(0xa1))));
}

#[test]
fn opaque_addresses_are_compared_by_text() {
    let mut session = session();
    let opaque =
        |id: &str| PlatformPeripheralProperty::Address(Address::String(id.to_string()));
    set(&mut session, WATCH, opaque("first"));
    assert_eq!(set(&mut session, WATCH, opaque("first")).anomaly, None);
    assert_eq!(set(&mut session, WATCH, opaque("second")).anomaly, Some(Anomaly::AddressChange));
}

#[test]
fn connection_events_alternate() {
    let mut session = session();
    let outcome = disconnect(&mut session, WATCH);
    assert_eq!(outcome.events, vec![]);
    assert_eq!(outcome.anomaly, Some(Anomaly::RedundantDisconnect));
    let outcome = connect(&mut session, WATCH);
    assert_eq!(outcome.events, vec![Event::PeripheralConnected(WATCH)]);
    assert_eq!(outcome.anomaly, None);
    let outcome = connect(&mut session, WATCH);
    assert_eq!(outcome.events, vec![]);
    assert_eq!(outcome.anomaly, Some(Anomaly::RedundantConnect));
    let outcome = disconnect(&mut session, WATCH);
    assert_eq!(outcome.events, vec![Event::PeripheralDisconnected(WATCH)]);
    assert_eq!(outcome.anomaly, None);
    assert_eq!(connect(&mut session, WATCH).events, vec![Event::PeripheralConnected(WATCH)]);
}

#[test]
fn repeated_values_are_silent() {
    let mut session = session();
    for (property, id) in [
        (PlatformPeripheralProperty::TxPower(4), PeripheralPropertyId::TxPower),
        (PlatformPeripheralProperty::Rssi(-60), PeripheralPropertyId::Rssi),
        (name("watch"), PeripheralPropertyId::Name),
        (PlatformPeripheralProperty::Services(vec![5]), PeripheralPropertyId::Services),
    ] {
        assert_eq!(set(&mut session, WATCH, property).events, vec![changed(WATCH, id)]);
    }
    for property in [
        PlatformPeripheralProperty::TxPower(4),
        PlatformPeripheralProperty::Rssi(-60),
        name("watch"),
        PlatformPeripheralProperty::Services(vec![5, 5]),
    ] {
        assert_eq!(set(&mut session, WATCH, property).events, vec![]);
    }
    assert_eq!(
        set(&mut session, WATCH, PlatformPeripheralProperty::TxPower(5)).events,
        vec![changed(WATCH, PeripheralPropertyId::TxPower)]
    );
    assert_eq!(
        set(&mut session, WATCH, PlatformPeripheralProperty::Rssi(-61)).events,
        vec![changed(WATCH, PeripheralPropertyId::Rssi)]
    );
}

#[test]
fn address_types_and_payloads_are_always_reported() {
    let mut session = session();
    for _ in 0..2 {
        assert_eq!(
            set(
                &mut session,
                WATCH,
                PlatformPeripheralProperty::AddressType(AddressType::PublicMAC)
            )
            .events,
            vec![changed(WATCH, PeripheralPropertyId::AddressType)]
        );
        assert_eq!(
            set(&mut session, WATCH, payload(9, &[2])).events,
            vec![changed(WATCH, PeripheralPropertyId::ManufacturerData)]
        );
        assert_eq!(
            set(&mut session, WATCH, service_payload(5, &[1])).events,
            vec![changed(WATCH, PeripheralPropertyId::ServiceData)]
        );
    }
}

#[test]
fn empty_payloads_are_ignored() {
    let mut session = session();
    set(&mut session, WATCH, payload(9, &[2]));
    for property in [
        PlatformPeripheralProperty::ManufacturerData(HashMap::new()),
        PlatformPeripheralProperty::ServiceData(HashMap::new()),
        PlatformPeripheralProperty::Services(vec![]),
    ] {
        assert_eq!(set(&mut session, WATCH, property).events, vec![]);
    }
    let state = session.get_peripheral_state(WATCH);
    assert_eq!(session.read(state).manufacturer_data, HashMap::from([(9, vec![2])]));
}

#[test]
fn payloads_and_services_add_up() {
    let mut session = session();
    set(&mut session, WATCH, payload(9, &[2]));
    set(&mut session, WATCH, payload(10, &[3, 4]));
    set(&mut session, WATCH, payload(9, &[]));
    set(&mut session, WATCH, service_payload(1 << 127, &[1]));
    set(&mut session, WATCH, service_payload(2, &[7]));
    set(&mut session, WATCH, PlatformPeripheralProperty::Services(vec![5, 6]));
    let outcome = set(&mut session, WATCH, PlatformPeripheralProperty::Services(vec![6, 8]));
    assert_eq!(outcome.events, vec![changed(WATCH, PeripheralPropertyId::Services)]);
    let state = session.get_peripheral_state(WATCH);
    let inner = session.read(state);
    assert_eq!(inner.manufacturer_data, HashMap::from([(9, vec![]), (10, vec![3, 4])]));
    assert_eq!(inner.service_data, HashMap::from([(1 << 127, vec![1]), (2, vec![7])]));
    assert_eq!(inner.services, HashSet::from([5, 6, 8]));
}

#[test]
fn address_types_are_read_as_mac_types() {
    let mut session = session();
    for (kind, expected) in [
        (AddressType::PublicMAC, Some(MacAddressType::Public)),
        (AddressType::RandomMAC, Some(MacAddressType::Random)),
        (AddressType::String, None),
    ] {
        set(&mut session, WATCH, PlatformPeripheralProperty::AddressType(kind));
        let state = session.get_peripheral_state(WATCH);
        assert_eq!(session.read(state).address_type, expected);
    }
}

#[test]
fn peripherals_do_not_share_state() {
    let mut session = session();
    let lamp = session.get_peripheral_state(LAMP);
    let watch = session.get_peripheral_state(WATCH);
    connect(&mut session, WATCH);
    set(&mut session, LAMP, name("lamp"));
    assert!(session.read(watch).is_connected);
    assert!(!session.read(lamp).is_connected);
    assert_eq!(session.read(watch).name, None);
    assert_eq!(session.read(lamp).name, Some("lamp".to_string()));
    // The same handle leads to the same state.
    let again = session.get_peripheral_state(WATCH);
    assert!(session.read(again).is_connected);
    let again = session.get_peripheral_state(LAMP);
    assert_eq!(session.read(again).name, Some("lamp".to_string()));
}

#[test]
fn a_new_peripheral_is_unknown() {
    let mut session = session();
    let state = session.get_peripheral_state(PlatformPeripheralHandle(u32::MAX));
    let inner = session.read(state);
    assert!(!inner.advertised);
    assert_eq!(inner.address, None);
    assert_eq!(inner.name, None);
    assert_eq!(inner.address_type, None);
    assert_eq!(inner.tx_power, None);
    assert_eq!(inner.rssi, None);
    assert!(inner.manufacturer_data.is_empty());
    assert!(inner.service_data.is_empty());
    assert!(inner.services.is_empty());
    assert!(!inner.is_connected);
}

#[test]
fn advertised_exactly_once_identified() {
    let mut session = session();
    set(&mut session, WATCH, name("watch"));
    let state = session.get_peripheral_state(WATCH);
    assert!(!session.read(state).advertised);
    set(&mut session, WATCH, address(1));
    assert!(session.read(state).advertised);
}

#[test]
fn many_peripherals_keep_apart() {
    let mut session = session();
    for key in 0..1000u32 {
        let handle = PlatformPeripheralHandle(key * 37);
        set(&mut session, handle, PlatformPeripheralProperty::Rssi(key as i16));
    }
    for key in 0..1000u32 {
        let state = session.get_peripheral_state(PlatformPeripheralHandle(key * 37));
        assert_eq!(session.read(state).rssi, Some(key as i16));
    }
}
