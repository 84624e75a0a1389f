//! What each single report and request does, said of the reported values and of
//! the fields that hold them.

use std::collections::HashMap;

use vstd::prelude::*;
use vstd::std_specs::cmp::PartialEqSpec;

use crate::config::{Backend, Filter, Platform};
use crate::events::{
    event_views, lemma_payloads_empty, Anomaly, Event, EventView, PlatformEvent,
    PlatformEventView, PlatformPeripheralProperty, PropertyView,
};
use crate::laws::{
    after_all, law_address_is_permanent, law_introduced_address_lasts,
    law_introduction_is_complete, told,
};
use crate::peripheral::{property_order, PeripheralStateInner, PeripheralView};
use crate::session::{PlatformRequest, ScanDecision, ScanError, SessionView};
use crate::types::{
    Address, AddressType, AddressView, MacAddressType, PeripheralPropertyId,
    PlatformPeripheralHandle, MAC,
};

verus! {

/// An address says all that it holds, and two addresses are equal exactly if
/// they are of one kind and hold the same number or the same text.
pub proof fn law_addresses_are_told_apart(
    mac: MAC,
    other_mac: MAC,
    id: String,
    other_id: String,
)
    ensures
        Address::MAC(mac)@ == AddressView::MAC(mac),
        Address::String(id)@ == AddressView::String(id@),
        Address::MAC(mac).eq_spec(&Address::MAC(other_mac)) <==> mac.0 == other_mac.0,
        Address::String(id).eq_spec(&Address::String(other_id)) <==> id@ == other_id@,
        !Address::MAC(mac).eq_spec(&Address::String(id)),
        !Address::String(id).eq_spec(&Address::MAC(mac)),
{
}

/// An event says all that it holds, and a list of events says what each of them
/// does, in its order.
pub proof fn law_events_say_what_they_hold(
    handle: PlatformPeripheralHandle,
    id: PeripheralPropertyId,
    address: Address,
    name: String,
    events: Seq<Event>,
)
    ensures
        (Event::PeripheralFound { peripheral: handle, address, name })@ == (EventView::Found {
            peripheral: handle,
            address: address@,
            name: name@,
        }),
        Event::PeripheralConnected(handle)@ == EventView::Connected(handle),
        Event::PeripheralDisconnected(handle)@ == EventView::Disconnected(handle),
        Event::PeripheralPropertyChanged(handle, id)@ == EventView::PropertyChanged(handle, id),
        event_views(events).len() == events.len(),
        forall|i: int| 0 <= i < events.len() ==> #[trigger] event_views(events)[i] == events[i]@,
{
}

/// The state of a peripheral shows each of its fields as it is.
pub proof fn law_state_shows_its_fields(state: PeripheralStateInner, company: u16, uuid: u128)
    ensures
        state@.advertised == state.advertised,
        state@.address is Some == state.address is Some,
        state.address is Some ==> state@.address == Some(state.address->0@),
        state@.name is Some == state.name is Some,
        state.name is Some ==> state@.name == Some(state.name->0@),
        state@.address_type == state.address_type,
        state@.tx_power == state.tx_power,
        state@.rssi == state.rssi,
        state@.manufacturer_data.contains_key(company) == state.manufacturer_data@.contains_key(
            company,
        ),
        state.manufacturer_data@.contains_key(company) ==> state@.manufacturer_data[company]
            == state.manufacturer_data@[company]@,
        state@.service_data.contains_key(uuid) == state.service_data@.contains_key(uuid),
        state.service_data@.contains_key(uuid) ==> state@.service_data[uuid]
            == state.service_data@[uuid]@,
        state@.services == state.services@,
        state@.is_connected == state.is_connected,
{
}

/// A session that has just started tracks no peripheral, does not scan and has
/// asked the platform for nothing.
pub proof fn law_new_session_is_empty(handle: PlatformPeripheralHandle)
    ensures
        !SessionView::initial().peripherals.contains_key(handle),
        !SessionView::initial().is_scanning,
        SessionView::initial().pending is None,
{
}

/// Of a peripheral that is tracked, its state is known; of any other, nothing.
pub proof fn law_untracked_is_unknown(session: SessionView, handle: PlatformPeripheralHandle)
    ensures
        session.peripherals.contains_key(handle) ==> session.peripheral(handle)
            == session.peripherals[handle],
        !session.peripherals.contains_key(handle) ==> {
            let state = session.peripheral(handle);
            &&& !state.advertised
            &&& state.address is None
            &&& state.name is None
            &&& state.address_type is None
            &&& state.tx_power is None
            &&& state.rssi is None
            &&& state.manufacturer_data == Map::<u16, Seq<u8>>::empty()
            &&& state.service_data == Map::<u128, Seq<u8>>::empty()
            &&& state.services == Set::<u128>::empty()
            &&& !state.is_connected
        },
{
}

/// Looking up a peripheral tracks it from then on, with what was known of it,
/// and changes nothing else.
pub proof fn law_lookup_tracks(
    session: SessionView,
    handle: PlatformPeripheralHandle,
    other: PlatformPeripheralHandle,
)
    ensures
        ({
            let found = session.with_peripheral(handle, session.peripheral(handle));
            &&& found.peripherals.contains_key(handle)
            &&& found.peripheral(handle) == session.peripheral(handle)
            &&& other != handle ==> found.peripherals.contains_key(other)
                == session.peripherals.contains_key(other)
            &&& found.peripheral(other) == session.peripheral(other)
            &&& found.is_scanning == session.is_scanning
            &&& found.pending == session.pending
        }),
{
}

/// A valid session has introduced a peripheral exactly if its address and its
/// name are known, and waits for the platform only to start a scan where there
/// is none or to stop one where there is one.
pub proof fn law_valid_means(session: SessionView, handle: PlatformPeripheralHandle)
    requires
        session.valid(),
    ensures
        session.peripheral(handle).advertised <==> session.peripheral(handle).address is Some
            && session.peripheral(handle).name is Some,
        session.pending is Some ==> {
            ||| session.pending->0 is StartScanning && !session.is_scanning
            ||| session.pending->0 is StopScanning && session.is_scanning
        },
{
}

/// A report that a peripheral was found does nothing.
pub proof fn law_found_report(session: SessionView, handle: PlatformPeripheralHandle)
    ensures
        ({
            let report = (PlatformEvent::PeripheralFound { peripheral_handle: handle })@;
            &&& session.after(report) == session
            &&& session.reaction(report) == Seq::<EventView>::empty()
            &&& session.anomaly(report) is None
        }),
{
}

/// After a report of a connection the peripheral is connected, and all else of
/// it is as it was. The application is told exactly if it was not connected
/// before, whatever else is known of it.
pub proof fn law_connected_report(session: SessionView, handle: PlatformPeripheralHandle)
    ensures
        ({
            let report = (PlatformEvent::PeripheralConnected { peripheral_handle: handle })@;
            let before = session.peripheral(handle);
            &&& session.after(report).peripherals.contains_key(handle)
            &&& session.after(report).peripheral(handle) == (PeripheralView {
                is_connected: true,
                ..before
            })
            &&& !before.is_connected ==> session.reaction(report) == seq![
                EventView::Connected(handle),
            ]
            &&& !before.is_connected ==> session.anomaly(report) is None
            &&& before.is_connected ==> session.reaction(report) == Seq::<EventView>::empty()
            &&& before.is_connected ==> session.anomaly(report) == Some(Anomaly::RedundantConnect)
        }),
{
}

/// After a report of a disconnection the peripheral is not connected, and all
/// else of it is as it was. The application is told exactly if it was connected
/// before, whatever else is known of it.
pub proof fn law_disconnected_report(session: SessionView, handle: PlatformPeripheralHandle)
    ensures
        ({
            let report = (PlatformEvent::PeripheralDisconnected { peripheral_handle: handle })@;
            let before = session.peripheral(handle);
            &&& session.after(report).peripherals.contains_key(handle)
            &&& session.after(report).peripheral(handle) == (PeripheralView {
                is_connected: false,
                ..before
            })
            &&& before.is_connected ==> session.reaction(report) == seq![
                EventView::Disconnected(handle),
            ]
            &&& before.is_connected ==> session.anomaly(report) is None
            &&& !before.is_connected ==> session.reaction(report) == Seq::<EventView>::empty()
            &&& !before.is_connected ==> session.anomaly(report) == Some(
                Anomaly::RedundantDisconnect,
            )
        }),
{
}

/// An introduction gives the address and the name, then the name as a property,
/// and then one by one those of the address type, the transmission power, the
/// signal strength, the payloads and the services that the peripheral has.
pub proof fn law_introduction_spelled_out(state: PeripheralView, handle: PlatformPeripheralHandle)
    requires
        state.address is Some,
        state.name is Some,
    ensures
        state.introduction(handle) == seq![
            EventView::Found { peripheral: handle, address: state.address->0, name: state.name->0 },
            EventView::PropertyChanged(handle, PeripheralPropertyId::Name),
        ] + (if state.address_type is Some {
            seq![EventView::PropertyChanged(handle, PeripheralPropertyId::AddressType)]
        } else {
            Seq::empty()
        }) + (if state.tx_power is Some {
            seq![EventView::PropertyChanged(handle, PeripheralPropertyId::TxPower)]
        } else {
            Seq::empty()
        }) + (if state.rssi is Some {
            seq![EventView::PropertyChanged(handle, PeripheralPropertyId::Rssi)]
        } else {
            Seq::empty()
        }) + (if state.manufacturer_data != Map::<u16, Seq<u8>>::empty() {
            seq![EventView::PropertyChanged(handle, PeripheralPropertyId::ManufacturerData)]
        } else {
            Seq::empty()
        }) + (if state.service_data != Map::<u128, Seq<u8>>::empty() {
            seq![EventView::PropertyChanged(handle, PeripheralPropertyId::ServiceData)]
        } else {
            Seq::empty()
        }) + (if state.services != Set::<u128>::empty() {
            seq![EventView::PropertyChanged(handle, PeripheralPropertyId::Services)]
        } else {
            Seq::empty()
        }),
{
    let known = |id: PeripheralPropertyId| state.knows(id);
    let order = property_order();
    assert(reported(state, handle, 0) =~= Seq::empty()) by {
        assert(order.take(0) =~= Seq::empty());
        reveal(Seq::filter);
    }
    lemma_reported_step(state, handle, 0);
    lemma_reported_step(state, handle, 1);
    lemma_reported_step(state, handle, 2);
    lemma_reported_step(state, handle, 3);
    lemma_reported_step(state, handle, 4);
    lemma_reported_step(state, handle, 5);
    lemma_reported_step(state, handle, 6);
    assert(order.take(7) =~= order);
    assert(state.introduction(handle) == seq![
        EventView::Found { peripheral: handle, address: state.address->0, name: state.name->0 },
    ] + reported(state, handle, 7));
}

/// The reports of those of the first `n` properties that have a value.
spec fn reported(state: PeripheralView, handle: PlatformPeripheralHandle, n: int) -> Seq<
    EventView,
> {
    property_order().take(n).filter(|id: PeripheralPropertyId| state.knows(id)).map_values(
        |id: PeripheralPropertyId| EventView::PropertyChanged(handle, id),
    )
}

proof fn lemma_reported_step(state: PeripheralView, handle: PlatformPeripheralHandle, n: int)
    requires
        0 <= n < property_order().len(),
    ensures
        reported(state, handle, n + 1) == reported(state, handle, n) + if state.knows(
            property_order()[n],
        ) {
            seq![EventView::PropertyChanged(handle, property_order()[n])]
        } else {
            Seq::empty()
        },
{
    reveal(Seq::filter);
    assert(property_order().take(n + 1).drop_last() =~= property_order().take(n));
    assert(reported(state, handle, n + 1) =~= reported(state, handle, n) + if state.knows(
        property_order()[n],
    ) {
        seq![EventView::PropertyChanged(handle, property_order()[n])]
    } else {
        Seq::empty()
    });
}

/// An introduction reports a property exactly if the field that holds it has a
/// value.
pub proof fn law_introduction_follows_the_fields(
    state: PeripheralView,
    handle: PlatformPeripheralHandle,
)
    requires
        state.address is Some,
        state.name is Some,
    ensures
        ({
            let told = state.introduction(handle);
            let tells = |id: PeripheralPropertyId|
                told.contains(EventView::PropertyChanged(handle, id));
            &&& tells(PeripheralPropertyId::Name)
            &&& tells(PeripheralPropertyId::AddressType) <==> state.address_type is Some
            &&& tells(PeripheralPropertyId::TxPower) <==> state.tx_power is Some
            &&& tells(PeripheralPropertyId::Rssi) <==> state.rssi is Some
            &&& tells(PeripheralPropertyId::ManufacturerData) <==> exists|company: u16|
                state.manufacturer_data.contains_key(company)
            &&& tells(PeripheralPropertyId::ServiceData) <==> exists|uuid: u128|
                state.service_data.contains_key(uuid)
            &&& tells(PeripheralPropertyId::Services) <==> exists|uuid: u128|
                state.services.contains(uuid)
        }),
{
    law_introduction_is_complete(state, handle);
    assert(state.manufacturer_data == Map::<u16, Seq<u8>>::empty() <==> !exists|company: u16|
        state.manufacturer_data.contains_key(company)) by {
        if !exists|company: u16| state.manufacturer_data.contains_key(company) {
            assert(state.manufacturer_data =~= Map::<u16, Seq<u8>>::empty());
        }
    }
    assert(state.service_data == Map::<u128, Seq<u8>>::empty() <==> !exists|uuid: u128|
        state.service_data.contains_key(uuid)) by {
        if !exists|uuid: u128| state.service_data.contains_key(uuid) {
            assert(state.service_data =~= Map::<u128, Seq<u8>>::empty());
        }
    }
    assert(state.services == Set::<u128>::empty() <==> !exists|uuid: u128|
        state.services.contains(uuid)) by {
        if !exists|uuid: u128| state.services.contains(uuid) {
            assert(state.services =~= Set::<u128>::empty());
        }
    }
    assert(state.knows(PeripheralPropertyId::Name));
    assert(state.knows(PeripheralPropertyId::AddressType) <==> state.address_type is Some);
    assert(state.knows(PeripheralPropertyId::TxPower) <==> state.tx_power is Some);
    assert(state.knows(PeripheralPropertyId::Rssi) <==> state.rssi is Some);
    let _ = state.knows(PeripheralPropertyId::ManufacturerData);
    let _ = state.knows(PeripheralPropertyId::ServiceData);
    let _ = state.knows(PeripheralPropertyId::Services);
}

/// It does not show in an introduction whether the peripheral was introduced.
proof fn lemma_introduction_once_recorded(
    before: PeripheralView,
    property: PropertyView,
    handle: PlatformPeripheralHandle,
)
    ensures
        before.after_property(property).introduction(handle) == before.with_property(
            property,
        ).introduction(handle),
{
    let recorded = before.with_property(property);
    let after = before.after_property(property);
    assert((|id: PeripheralPropertyId| after.knows(id)) =~= (|id: PeripheralPropertyId|
        recorded.knows(id)));
}

/// The first address that is reported is the address, as it was reported; a later
/// one changes nothing, and is an anomaly if it differs. The application hears of
/// an address only by the introduction.
pub proof fn law_address_report(
    session: SessionView,
    handle: PlatformPeripheralHandle,
    address: Address,
)
    ensures
        ({
            let report = (PlatformEvent::PeripheralPropertySet {
                peripheral_handle: handle,
                property: PlatformPeripheralProperty::Address(address),
            })@;
            let before = session.peripheral(handle);
            let after = session.after(report).peripheral(handle);
            &&& session.after(report).peripherals.contains_key(handle)
            &&& before.address is None ==> after.address == Some(address@)
            &&& before.address is Some ==> after.address == before.address
            &&& after == (PeripheralView {
                address: after.address,
                advertised: before.advertised || before.name is Some,
                ..before
            })
            &&& session.reaction(report) == if !before.advertised && after.address is Some
                && after.name is Some {
                after.introduction(handle)
            } else {
                Seq::empty()
            }
            &&& before.address is None ==> session.anomaly(report) is None
            &&& before.address == Some(address@) ==> session.anomaly(report) is None
            &&& before.address is Some && before.address != Some(address@) ==> session.anomaly(
                report,
            ) == Some(Anomaly::AddressChange)
        }),
{
    lemma_introduction_once_recorded(
        session.peripheral(handle),
        PlatformPeripheralProperty::Address(address)@,
        handle,
    );
}

/// An address type is read as that of the MAC address, which an opaque identifier
/// does not have. The application hears of each such report.
pub proof fn law_address_type_report(
    session: SessionView,
    handle: PlatformPeripheralHandle,
    kind: AddressType,
)
    ensures
        ({
            let report = (PlatformEvent::PeripheralPropertySet {
                peripheral_handle: handle,
                property: PlatformPeripheralProperty::AddressType(kind),
            })@;
            let before = session.peripheral(handle);
            let after = session.after(report).peripheral(handle);
            &&& session.after(report).peripherals.contains_key(handle)
            &&& kind is PublicMAC ==> after.address_type == Some(MacAddressType::Public)
            &&& kind is RandomMAC ==> after.address_type == Some(MacAddressType::Random)
            &&& kind is String ==> after.address_type is None
            &&& after == (PeripheralView {
                address_type: after.address_type,
                advertised: before.advertised || before.address is Some && before.name is Some,
                ..before
            })
            &&& session.reaction(report) == (if !before.advertised && after.address is Some
                && after.name is Some {
                after.introduction(handle)
            } else {
                Seq::empty()
            }) + seq![EventView::PropertyChanged(handle, PeripheralPropertyId::AddressType)]
            &&& session.anomaly(report) is None
        }),
{
    lemma_introduction_once_recorded(
        session.peripheral(handle),
        PlatformPeripheralProperty::AddressType(kind)@,
        handle,
    );
}

/// The name is the last one that was reported. The application hears of a name that
/// the peripheral did not have.
pub proof fn law_name_report(
    session: SessionView,
    handle: PlatformPeripheralHandle,
    name: String,
)
    ensures
        ({
            let report = (PlatformEvent::PeripheralPropertySet {
                peripheral_handle: handle,
                property: PlatformPeripheralProperty::Name(name),
            })@;
            let before = session.peripheral(handle);
            let after = session.after(report).peripheral(handle);
            &&& session.after(report).peripherals.contains_key(handle)
            &&& after == (PeripheralView {
                name: Some(name@),
                advertised: before.advertised || before.address is Some,
                ..before
            })
            &&& session.reaction(report) == (if !before.advertised && after.address is Some
                && after.name is Some {
                after.introduction(handle)
            } else {
                Seq::empty()
            }) + (if before.name is None || before.name->0 != name@ {
                seq![EventView::PropertyChanged(handle, PeripheralPropertyId::Name)]
            } else {
                Seq::empty()
            })
            &&& session.anomaly(report) is None
        }),
{
    lemma_introduction_once_recorded(
        session.peripheral(handle),
        PlatformPeripheralProperty::Name(name)@,
        handle,
    );
}

/// The transmission power is the last one that was reported. The
/// application hears of one that the peripheral did not have, whether or not it was
/// introduced.
pub proof fn law_tx_power_report(
    session: SessionView,
    handle: PlatformPeripheralHandle,
    tx_power: i16,
)
    ensures
        ({
            let report = (PlatformEvent::PeripheralPropertySet {
                peripheral_handle: handle,
                property: PlatformPeripheralProperty::TxPower(tx_power),
            })@;
            let before = session.peripheral(handle);
            let after = session.after(report).peripheral(handle);
            &&& session.after(report).peripherals.contains_key(handle)
            &&& after == (PeripheralView {
                tx_power: Some(tx_power),
                advertised: before.advertised || before.address is Some && before.name is Some,
                ..before
            })
            &&& session.reaction(report) == (if !before.advertised && after.address is Some
                && after.name is Some {
                after.introduction(handle)
            } else {
                Seq::empty()
            }) + (if before.tx_power is None || before.tx_power->0 != tx_power {
                seq![EventView::PropertyChanged(handle, PeripheralPropertyId::TxPower)]
            } else {
                Seq::empty()
            })
            &&& session.anomaly(report) is None
        }),
{
    lemma_introduction_once_recorded(
        session.peripheral(handle),
        PlatformPeripheralProperty::TxPower(tx_power)@,
        handle,
    );
}

/// The signal strength is the last one that was reported. The
/// application hears of one that the peripheral did not have, whether or not it was
/// introduced.
pub proof fn law_rssi_report(
    session: SessionView,
    handle: PlatformPeripheralHandle,
    rssi: i16,
)
    ensures
        ({
            let report = (PlatformEvent::PeripheralPropertySet {
                peripheral_handle: handle,
                property: PlatformPeripheralProperty::Rssi(rssi),
            })@;
            let before = session.peripheral(handle);
            let after = session.after(report).peripheral(handle);
            &&& session.after(report).peripherals.contains_key(handle)
            &&& after == (PeripheralView {
                rssi: Some(rssi),
                advertised: before.advertised || before.address is Some && before.name is Some,
                ..before
            })
            &&& session.reaction(report) == (if !before.advertised && after.address is Some
                && after.name is Some {
                after.introduction(handle)
            } else {
                Seq::empty()
            }) + (if before.rssi is None || before.rssi->0 != rssi {
                seq![EventView::PropertyChanged(handle, PeripheralPropertyId::Rssi)]
            } else {
                Seq::empty()
            })
            &&& session.anomaly(report) is None
        }),
{
    lemma_introduction_once_recorded(
        session.peripheral(handle),
        PlatformPeripheralProperty::Rssi(rssi)@,
        handle,
    );
}

/// Under each company identifier that is reported stands the payload of the
/// report, and under each other one what stood there before. The application hears
/// of each report that holds a payload.
pub proof fn law_manufacturer_data_report(
    session: SessionView,
    handle: PlatformPeripheralHandle,
    data: HashMap<u16, Vec<u8>>,
)
    ensures
        ({
            let report = (PlatformEvent::PeripheralPropertySet {
                peripheral_handle: handle,
                property: PlatformPeripheralProperty::ManufacturerData(data),
            })@;
            let before = session.peripheral(handle);
            let after = session.after(report).peripheral(handle);
            &&& session.after(report).peripherals.contains_key(handle)
            &&& forall|company: u16| #[trigger]
                after.manufacturer_data.contains_key(company) <==> before.manufacturer_data.contains_key(
                    company,
                ) || data@.contains_key(company)
            &&& forall|company: u16| #[trigger]
                data@.contains_key(company) ==> after.manufacturer_data[company] == data@[company]@
            &&& forall|company: u16| #[trigger]
                before.manufacturer_data.contains_key(company) && !data@.contains_key(company)
                    ==> after.manufacturer_data[company] == before.manufacturer_data[company]
            &&& after == (PeripheralView {
                manufacturer_data: after.manufacturer_data,
                advertised: before.advertised || before.address is Some && before.name is Some,
                ..before
            })
            &&& session.reaction(report) == (if !before.advertised && after.address is Some
                && after.name is Some {
                after.introduction(handle)
            } else {
                Seq::empty()
            }) + (if exists|company: u16| data@.contains_key(company) {
                seq![EventView::PropertyChanged(handle, PeripheralPropertyId::ManufacturerData)]
            } else {
                Seq::empty()
            })
            &&& session.anomaly(report) is None
        }),
{
    lemma_introduction_once_recorded(
        session.peripheral(handle),
        PlatformPeripheralProperty::ManufacturerData(data)@,
        handle,
    );
    lemma_payloads_empty(data@);
    if !exists|company: u16| data@.contains_key(company) {
        assert(data@.dom() =~= Set::<u16>::empty());
    }
}

/// Under each service UUID that is reported stands the payload of the
/// report, and under each other one what stood there before. The application hears
/// of each report that holds a payload.
pub proof fn law_service_data_report(
    session: SessionView,
    handle: PlatformPeripheralHandle,
    data: HashMap<u128, Vec<u8>>,
)
    ensures
        ({
            let report = (PlatformEvent::PeripheralPropertySet {
                peripheral_handle: handle,
                property: PlatformPeripheralProperty::ServiceData(data),
            })@;
            let before = session.peripheral(handle);
            let after = session.after(report).peripheral(handle);
            &&& session.after(report).peripherals.contains_key(handle)
            &&& forall|uuid: u128| #[trigger]
                after.service_data.contains_key(uuid) <==> before.service_data.contains_key(
                    uuid,
                ) || data@.contains_key(uuid)
            &&& forall|uuid: u128| #[trigger]
                data@.contains_key(uuid) ==> after.service_data[uuid] == data@[uuid]@
            &&& forall|uuid: u128| #[trigger]
                before.service_data.contains_key(uuid) && !data@.contains_key(uuid)
                    ==> after.service_data[uuid] == before.service_data[uuid]
            &&& after == (PeripheralView {
                service_data: after.service_data,
                advertised: before.advertised || before.address is Some && before.name is Some,
                ..before
            })
            &&& session.reaction(report) == (if !before.advertised && after.address is Some
                && after.name is Some {
                after.introduction(handle)
            } else {
                Seq::empty()
            }) + (if exists|uuid: u128| data@.contains_key(uuid) {
                seq![EventView::PropertyChanged(handle, PeripheralPropertyId::ServiceData)]
            } else {
                Seq::empty()
            })
            &&& session.anomaly(report) is None
        }),
{
    lemma_introduction_once_recorded(
        session.peripheral(handle),
        PlatformPeripheralProperty::ServiceData(data)@,
        handle,
    );
    lemma_payloads_empty(data@);
    if !exists|uuid: u128| data@.contains_key(uuid) {
        assert(data@.dom() =~= Set::<u128>::empty());
    }
}

/// The services are those that were known and those that are reported. The
/// application hears of it if one of these is new.
pub proof fn law_services_report(
    session: SessionView,
    handle: PlatformPeripheralHandle,
    uuids: Vec<u128>,
)
    ensures
        ({
            let report = (PlatformEvent::PeripheralPropertySet {
                peripheral_handle: handle,
                property: PlatformPeripheralProperty::Services(uuids),
            })@;
            let before = session.peripheral(handle);
            let after = session.after(report).peripheral(handle);
            &&& session.after(report).peripherals.contains_key(handle)
            &&& forall|uuid: u128| #[trigger]
                after.services.contains(uuid) <==> before.services.contains(uuid)
                    || uuids@.contains(uuid)
            &&& after == (PeripheralView {
                services: after.services,
                advertised: before.advertised || before.address is Some && before.name is Some,
                ..before
            })
            &&& session.reaction(report) == (if !before.advertised && after.address is Some
                && after.name is Some {
                after.introduction(handle)
            } else {
                Seq::empty()
            }) + (if exists|i: int| 0 <= i < uuids@.len() && !before.services.contains(#[trigger] uuids@[i]) {
                seq![EventView::PropertyChanged(handle, PeripheralPropertyId::Services)]
            } else {
                Seq::empty()
            })
            &&& session.anomaly(report) is None
        }),
{
    lemma_introduction_once_recorded(
        session.peripheral(handle),
        PlatformPeripheralProperty::Services(uuids)@,
        handle,
    );
    let known = session.peripheral(handle).services;
    if exists|i: int| 0 <= i < uuids@.len() && !known.contains(#[trigger] uuids@[i]) {
        let i = choose|i: int| 0 <= i < uuids@.len() && !known.contains(#[trigger] uuids@[i]);
        assert(uuids@.to_set().contains(uuids@[i]));
    } else {
        assert(uuids@.to_set().subset_of(known));
    }
}

/// A report leaves alone every other peripheral, and scanning.
pub proof fn law_report_leaves_the_rest(
    session: SessionView,
    event: PlatformEvent,
    other: PlatformPeripheralHandle,
)
    requires
        match event {
            PlatformEvent::PeripheralFound { .. } => true,
            PlatformEvent::PeripheralConnected { peripheral_handle } => other != peripheral_handle,
            PlatformEvent::PeripheralDisconnected { peripheral_handle } => other
                != peripheral_handle,
            PlatformEvent::PeripheralPropertySet { peripheral_handle, .. } => other
                != peripheral_handle,
        },
    ensures
        session.after(event@).peripherals.contains_key(other) == session.peripherals.contains_key(
            other,
        ),
        session.peripherals.contains_key(other) ==> session.after(event@).peripherals[other]
            == session.peripherals[other],
        session.after(event@).is_scanning == session.is_scanning,
        session.after(event@).pending == session.pending,
{
}

/// Whatever a report changes of a peripheral, the application is told: of a
/// property last, whether or not the peripheral was introduced; of a connection
/// alone; of its being introduced first.
pub proof fn law_every_change_is_told(
    session: SessionView,
    event: PlatformEvent,
    handle: PlatformPeripheralHandle,
)
    ensures
        ({
            let before = session.peripheral(handle);
            let after = session.after(event@).peripheral(handle);
            let told = session.reaction(event@);
            let ends_with = |id: PeripheralPropertyId|
                told.len() > 0 && told.last() == EventView::PropertyChanged(handle, id);
            &&& before.name != after.name ==> ends_with(PeripheralPropertyId::Name)
            &&& before.address_type != after.address_type ==> ends_with(
                PeripheralPropertyId::AddressType,
            )
            &&& before.tx_power != after.tx_power ==> ends_with(PeripheralPropertyId::TxPower)
            &&& before.rssi != after.rssi ==> ends_with(PeripheralPropertyId::Rssi)
            &&& before.manufacturer_data != after.manufacturer_data ==> ends_with(
                PeripheralPropertyId::ManufacturerData,
            )
            &&& before.service_data != after.service_data ==> ends_with(
                PeripheralPropertyId::ServiceData,
            )
            &&& before.services != after.services ==> ends_with(PeripheralPropertyId::Services)
            &&& before.is_connected != after.is_connected ==> told == seq![
                if after.is_connected {
                    EventView::Connected(handle)
                } else {
                    EventView::Disconnected(handle)
                },
            ]
            &&& before.advertised != after.advertised ==> {
                &&& after.advertised
                &&& after.address is Some
                &&& after.name is Some
                &&& told.len() > 0
                &&& told[0] == (EventView::Found {
                    peripheral: handle,
                    address: after.address->0,
                    name: after.name->0,
                })
            }
        }),
{
    if let PlatformEventView::PropertySet(about, property) = event@ {
        let before = session.peripheral(about);
        match property {
            PropertyView::ManufacturerData(data) => {
                if data == Map::<u16, Seq<u8>>::empty() {
                    assert(before.manufacturer_data.union_prefer_right(data)
                        =~= before.manufacturer_data);
                }
            },
            PropertyView::ServiceData(data) => {
                if data == Map::<u128, Seq<u8>>::empty() {
                    assert(before.service_data.union_prefer_right(data) =~= before.service_data);
                }
            },
            PropertyView::Services(uuids) => {
                if uuids.subset_of(before.services) {
                    assert(before.services.union(uuids) =~= before.services);
                }
            },
            _ => {},
        }
    }
}

/// The address of a peripheral, and the one that it is introduced with, is the
/// first one that the platform reported for it.
pub proof fn law_first_reported_address_counts(
    session: SessionView,
    reports: Seq<PlatformEventView>,
    handle: PlatformPeripheralHandle,
    first: int,
    address: Address,
)
    requires
        session.valid(),
        session.peripheral(handle).address is None,
        0 <= first < reports.len(),
        reports[first] == (PlatformEvent::PeripheralPropertySet {
            peripheral_handle: handle,
            property: PlatformPeripheralProperty::Address(address),
        })@,
        forall|i: int|
            0 <= i < first && (#[trigger] reports[i]) is PropertySet && reports[i]->PropertySet_0
                == handle ==> !(reports[i]->PropertySet_1 is Address),
    ensures
        after_all(session, reports).peripheral(handle).address == Some(address@),
        forall|other: AddressView, name: Seq<char>| #[trigger]
            told(session, reports).contains(
                EventView::Found { peripheral: handle, address: other, name },
            ) ==> other == address@,
    decreases reports.len(),
{
    let earlier = reports.drop_last();
    if first == reports.len() - 1 {
        lemma_no_address_reported(session, earlier, handle);
    } else {
        assert(reports[first] == earlier[first]);
        assert(forall|i: int| 0 <= i < first ==> #[trigger] earlier[i] == reports[i]);
        law_first_reported_address_counts(session, earlier, handle, first, address);
        law_address_is_permanent(after_all(session, earlier), seq![reports.last()], handle);
    }
    assert forall|other: AddressView, name: Seq<char>| #[trigger]
        told(session, reports).contains(
            EventView::Found { peripheral: handle, address: other, name },
        ) implies other == address@ by {
        law_introduced_address_lasts(session, reports, handle, other, name);
    }
}

/// As long as no address is reported, none is known.
proof fn lemma_no_address_reported(
    session: SessionView,
    reports: Seq<PlatformEventView>,
    handle: PlatformPeripheralHandle,
)
    requires
        session.peripheral(handle).address is None,
        forall|i: int|
            0 <= i < reports.len() && (#[trigger] reports[i]) is PropertySet
                && reports[i]->PropertySet_0 == handle ==> !(reports[i]->PropertySet_1 is Address),
    ensures
        after_all(session, reports).peripheral(handle).address is None,
    decreases reports.len(),
{
    if reports.len() > 0 {
        let earlier = reports.drop_last();
        assert(forall|i: int| 0 <= i < earlier.len() ==> #[trigger] earlier[i] == reports[i]);
        lemma_no_address_reported(session, earlier, handle);
        assert(reports.last() == reports[reports.len() - 1]);
    }
}

/// A request to start scanning waits while the platform has another to answer.
/// Else it is refused if the session scans, and else it is asked of the platform
/// with the filter that was given. Deciding changes nothing but what is asked.
pub proof fn law_start_request(session: SessionView, filter: Filter)
    ensures
        ({
            let decision = session.on_start(filter);
            let decided = session.decided(decision);
            &&& session.pending is Some ==> decision == ScanDecision::Wait
            &&& session.pending is None && session.is_scanning ==> decision
                == ScanDecision::Refuse(ScanError::AlreadyScanning)
            &&& session.pending is None && !session.is_scanning ==> {
                &&& decision == ScanDecision::Ask(PlatformRequest::StartScanning(filter))
                &&& decided.pending == Some(PlatformRequest::StartScanning(filter))
            }
            &&& session.pending is Some || session.is_scanning ==> decided.pending
                == session.pending
            &&& decided.is_scanning == session.is_scanning
            &&& decided.peripherals == session.peripherals
        }),
{
}

/// A request to stop scanning waits while the platform has another to answer.
/// Else it is refused if the session does not scan, and else it is asked of the
/// platform. Deciding changes nothing but what is asked.
pub proof fn law_stop_request(session: SessionView)
    ensures
        ({
            let decision = session.on_stop();
            let decided = session.decided(decision);
            &&& session.pending is Some ==> decision == ScanDecision::Wait
            &&& session.pending is None && !session.is_scanning ==> decision
                == ScanDecision::Refuse(ScanError::NotScanning)
            &&& session.pending is None && session.is_scanning ==> {
                &&& decision == ScanDecision::Ask(PlatformRequest::StopScanning)
                &&& decided.pending == Some(PlatformRequest::StopScanning)
            }
            &&& session.pending is Some || !session.is_scanning ==> decided.pending
                == session.pending
            &&& decided.is_scanning == session.is_scanning
            &&& decided.peripherals == session.peripherals
        }),
{
}

/// A granted start makes the session scan and a granted stop ends that. What the
/// platform turns down leaves it as it was. Either way the request is settled.
/// An answer to anything else changes nothing.
pub proof fn law_answer(session: SessionView, request: PlatformRequest, granted: bool)
    ensures
        ({
            let answered = session.answered(request, granted);
            &&& session.pending == Some(request) ==> answered.pending is None
            &&& session.pending == Some(request) && granted && request is StartScanning
                ==> answered.is_scanning
            &&& session.pending == Some(request) && granted && request is StopScanning
                ==> !answered.is_scanning
            &&& !granted ==> answered.is_scanning == session.is_scanning
            &&& session.pending != Some(request) ==> answered == session
            &&& answered.peripherals == session.peripherals
        }),
{
}

/// The default of the system is Windows' own implementation, and the fake one is
/// the fake one.
pub proof fn law_platforms(backend: Backend)
    ensures
        backend is SystemDefault ==> backend.platform() == Platform::Winrt,
        backend is Fake ==> backend.platform() == Platform::Fake,
{
}

} // verus!
