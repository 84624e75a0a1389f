//! What a platform backend reports, and what an application is told.

use std::collections::HashMap;

use vstd::prelude::*;

use crate::types::{
    Address, AddressType, AddressView, PeripheralPropertyId, PlatformPeripheralHandle,
};

verus! {

/// A property of a peripheral, as a platform backend reports it. Service UUIDs
/// are written as their 128-bit numbers.
#[derive(Debug)]
pub enum PlatformPeripheralProperty {
    Address(Address),
    AddressType(AddressType),
    Name(String),
    TxPower(i16),
    Rssi(i16),
    /// Payloads by company identifier.
    ManufacturerData(HashMap<u16, Vec<u8>>),
    /// Payloads by service UUID.
    ServiceData(HashMap<u128, Vec<u8>>),
    Services(Vec<u128>),
}

/// What a [`PlatformPeripheralProperty`] says.
pub enum PropertyView {
    Address(AddressView),
    AddressType(AddressType),
    Name(Seq<char>),
    TxPower(i16),
    Rssi(i16),
    ManufacturerData(Map<u16, Seq<u8>>),
    ServiceData(Map<u128, Seq<u8>>),
    Services(Set<u128>),
}

/// The bytes that stand under each key.
pub open spec fn payloads<K>(data: Map<K, Vec<u8>>) -> Map<K, Seq<u8>> {
    data.map_values(|bytes: Vec<u8>| bytes@)
}

/// There are no payloads exactly if there are no keys.
pub proof fn lemma_payloads_empty<K>(data: Map<K, Vec<u8>>)
    ensures
        payloads(data) == Map::<K, Seq<u8>>::empty() <==> data.is_empty(),
{
    assert(payloads(data).dom() == data.dom());
    if data.is_empty() {
        assert(payloads(data) =~= Map::<K, Seq<u8>>::empty());
    }
}

impl View for PlatformPeripheralProperty {
    type V = PropertyView;

    open spec fn view(&self) -> PropertyView {
        match self {
            PlatformPeripheralProperty::Address(address) => PropertyView::Address(address@),
            PlatformPeripheralProperty::AddressType(kind) => PropertyView::AddressType(*kind),
            PlatformPeripheralProperty::Name(name) => PropertyView::Name(name@),
            PlatformPeripheralProperty::TxPower(power) => PropertyView::TxPower(*power),
            PlatformPeripheralProperty::Rssi(rssi) => PropertyView::Rssi(*rssi),
            PlatformPeripheralProperty::ManufacturerData(data) => PropertyView::ManufacturerData(
                payloads(data@),
            ),
            PlatformPeripheralProperty::ServiceData(data) => PropertyView::ServiceData(
                payloads(data@),
            ),
            PlatformPeripheralProperty::Services(uuids) => PropertyView::Services(uuids@.to_set()),
        }
    }
}

/// Something that a platform backend reports about a peripheral.
#[derive(Debug)]
pub enum PlatformEvent {
    PeripheralFound { peripheral_handle: PlatformPeripheralHandle },
    PeripheralConnected { peripheral_handle: PlatformPeripheralHandle },
    PeripheralDisconnected { peripheral_handle: PlatformPeripheralHandle },
    PeripheralPropertySet {
        peripheral_handle: PlatformPeripheralHandle,
        property: PlatformPeripheralProperty,
    },
}

/// What a [`PlatformEvent`] says.
pub enum PlatformEventView {
    Found(PlatformPeripheralHandle),
    Connected(PlatformPeripheralHandle),
    Disconnected(PlatformPeripheralHandle),
    PropertySet(PlatformPeripheralHandle, PropertyView),
}

impl PlatformEventView {
    /// The peripheral that the report is about.
    pub open spec fn peripheral(self) -> PlatformPeripheralHandle {
        match self {
            PlatformEventView::Found(peripheral) => peripheral,
            PlatformEventView::Connected(peripheral) => peripheral,
            PlatformEventView::Disconnected(peripheral) => peripheral,
            PlatformEventView::PropertySet(peripheral, _) => peripheral,
        }
    }
}

impl View for PlatformEvent {
    type V = PlatformEventView;

    open spec fn view(&self) -> PlatformEventView {
        match self {
            PlatformEvent::PeripheralFound { peripheral_handle } => PlatformEventView::Found(
                *peripheral_handle,
            ),
            PlatformEvent::PeripheralConnected { peripheral_handle } =>
                PlatformEventView::Connected(*peripheral_handle),
            PlatformEvent::PeripheralDisconnected { peripheral_handle } =>
                PlatformEventView::Disconnected(*peripheral_handle),
            PlatformEvent::PeripheralPropertySet { peripheral_handle, property } =>
                PlatformEventView::PropertySet(*peripheral_handle, property@),
        }
    }
}

/// Something that an application is told about a peripheral.
#[derive(Debug, PartialEq, Eq)]
pub enum Event {
    /// A peripheral is introduced, with the address and the name that it has
    /// by then.
    PeripheralFound { peripheral: PlatformPeripheralHandle, address: Address, name: String },
    PeripheralConnected(PlatformPeripheralHandle),
    PeripheralDisconnected(PlatformPeripheralHandle),
    PeripheralPropertyChanged(PlatformPeripheralHandle, PeripheralPropertyId),
}

/// What an [`Event`] says.
pub enum EventView {
    Found { peripheral: PlatformPeripheralHandle, address: AddressView, name: Seq<char> },
    Connected(PlatformPeripheralHandle),
    Disconnected(PlatformPeripheralHandle),
    PropertyChanged(PlatformPeripheralHandle, PeripheralPropertyId),
}

impl EventView {
    /// The peripheral that the event is about.
    pub open spec fn peripheral(self) -> PlatformPeripheralHandle {
        match self {
            EventView::Found { peripheral, .. } => peripheral,
            EventView::Connected(peripheral) => peripheral,
            EventView::Disconnected(peripheral) => peripheral,
            EventView::PropertyChanged(peripheral, _) => peripheral,
        }
    }
}

impl View for Event {
    type V = EventView;

    open spec fn view(&self) -> EventView {
        match self {
            Event::PeripheralFound { peripheral, address, name } => EventView::Found {
                peripheral: *peripheral,
                address: address@,
                name: name@,
            },
            Event::PeripheralConnected(peripheral) => EventView::Connected(*peripheral),
            Event::PeripheralDisconnected(peripheral) => EventView::Disconnected(*peripheral),
            Event::PeripheralPropertyChanged(peripheral, id) => EventView::PropertyChanged(
                *peripheral,
                *id,
            ),
        }
    }
}

/// What a list of events says.
pub open spec fn event_views(events: Seq<Event>) -> Seq<EventView> {
    events.map_values(|event: Event| event@)
}

/// One more event says one more thing.
pub proof fn lemma_event_views_push(events: Seq<Event>, event: Event)
    ensures
        event_views(events.push(event)) == event_views(events).push(event@),
{
    assert(event_views(events.push(event)) =~= event_views(events).push(event@));
}

/// A report that does not fit what is known of the peripheral. The application
/// is told nothing of it, and no known value changes; it is worth a line in a
/// log.
#[derive(Clone, Copy, Debug, PartialEq, Eq, Structural)]
pub enum Anomaly {
    /// The peripheral was connected already.
    RedundantConnect,
    /// The peripheral was not connected.
    RedundantDisconnect,
    /// The peripheral has another address.
    AddressChange,
}

/// What follows from one report of the platform backend.
#[derive(Debug)]
pub struct Outcome {
    /// To be sent to the application, in this order.
    pub events: Vec<Event>,
    pub anomaly: Option<Anomaly>,
}

} // verus!
