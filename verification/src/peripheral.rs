//! What a session knows of one peripheral.

use std::collections::{HashMap, HashSet};
use std::hash::Hash;

use vstd::prelude::*;
use vstd::std_specs::hash::obeys_key_model;

use crate::events::{
    event_views, lemma_event_views_push, lemma_payloads_empty, payloads, Anomaly, Event, EventView, PlatformPeripheralProperty, PropertyView,
};
use crate::types::{
    Address, AddressType, AddressView, MacAddressType, PeripheralPropertyId,
    PlatformPeripheralHandle,
};

verus! {

/// The tracked state of one peripheral.
#[derive(Debug)]
pub struct PeripheralStateInner {
    /// Whether the application was told of the peripheral.
    pub advertised: bool,
    pub address: Option<Address>,
    pub name: Option<String>,
    pub address_type: Option<MacAddressType>,
    pub tx_power: Option<i16>,
    pub rssi: Option<i16>,
    pub manufacturer_data: HashMap<u16, Vec<u8>>,
    pub service_data: HashMap<u128, Vec<u8>>,
    pub services: HashSet<u128>,
    pub is_connected: bool,
}

/// What a [`PeripheralStateInner`] says.
#[verifier::ext_equal]
pub struct PeripheralView {
    /// Whether the application was told of the peripheral. That waits until
    /// both its address and its name are known.
    pub advertised: bool,
    pub address: Option<AddressView>,
    pub name: Option<Seq<char>>,
    pub address_type: Option<MacAddressType>,
    pub tx_power: Option<i16>,
    pub rssi: Option<i16>,
    pub manufacturer_data: Map<u16, Seq<u8>>,
    pub service_data: Map<u128, Seq<u8>>,
    pub services: Set<u128>,
    pub is_connected: bool,
}

/// The properties of a peripheral, in the order in which a newly introduced
/// peripheral's are reported.
pub open spec fn property_order() -> Seq<PeripheralPropertyId> {
    seq![
        PeripheralPropertyId::Name,
        PeripheralPropertyId::AddressType,
        PeripheralPropertyId::TxPower,
        PeripheralPropertyId::Rssi,
        PeripheralPropertyId::ManufacturerData,
        PeripheralPropertyId::ServiceData,
        PeripheralPropertyId::Services,
    ]
}

impl PeripheralView {
    /// A peripheral of which nothing is known.
    pub open spec fn unknown() -> PeripheralView {
        PeripheralView {
            advertised: false,
            address: None,
            name: None,
            address_type: None,
            tx_power: None,
            rssi: None,
            manufacturer_data: Map::empty(),
            service_data: Map::empty(),
            services: Set::empty(),
            is_connected: false,
        }
    }

    /// Whether enough is known to introduce the peripheral.
    pub open spec fn identified(self) -> bool {
        self.address is Some && self.name is Some
    }

    /// A peripheral was introduced exactly if enough is known for it.
    pub open spec fn valid(self) -> bool {
        self.advertised <==> self.identified()
    }

    /// Whether there is a value for a property.
    pub open spec fn knows(self, id: PeripheralPropertyId) -> bool {
        match id {
            PeripheralPropertyId::Name => self.name is Some,
            PeripheralPropertyId::AddressType => self.address_type is Some,
            PeripheralPropertyId::TxPower => self.tx_power is Some,
            PeripheralPropertyId::Rssi => self.rssi is Some,
            PeripheralPropertyId::ManufacturerData => self.manufacturer_data != Map::<
                u16,
                Seq<u8>,
            >::empty(),
            PeripheralPropertyId::ServiceData => self.service_data != Map::<
                u128,
                Seq<u8>,
            >::empty(),
            PeripheralPropertyId::Services => self.services != Set::<u128>::empty(),
        }
    }

    /// The properties that have a value, in the order of their report.
    pub open spec fn known_properties(self) -> Seq<PeripheralPropertyId> {
        property_order().filter(|id: PeripheralPropertyId| self.knows(id))
    }

    /// What is known once a property was reported. An address stays what it
    /// was at first; payloads replace those under the same keys; services add
    /// up.
    pub open spec fn with_property(self, property: PropertyView) -> PeripheralView {
        match property {
            PropertyView::Address(address) => PeripheralView {
                address: if self.address is Some {
                    self.address
                } else {
                    Some(address)
                },
                ..self
            },
            PropertyView::AddressType(kind) => PeripheralView {
                address_type: kind.mac_type(),
                ..self
            },
            PropertyView::Name(name) => PeripheralView { name: Some(name), ..self },
            PropertyView::TxPower(power) => PeripheralView { tx_power: Some(power), ..self },
            PropertyView::Rssi(rssi) => PeripheralView { rssi: Some(rssi), ..self },
            PropertyView::ManufacturerData(data) => PeripheralView {
                manufacturer_data: self.manufacturer_data.union_prefer_right(data),
                ..self
            },
            PropertyView::ServiceData(data) => PeripheralView {
                service_data: self.service_data.union_prefer_right(data),
                ..self
            },
            PropertyView::Services(uuids) => PeripheralView {
                services: self.services.union(uuids),
                ..self
            },
        }
    }

    /// Which property a report changes, as far as the application is concerned.
    /// An address type and payloads count as changed whatever they were; an
    /// address never does.
    pub open spec fn changed_by(self, property: PropertyView) -> Option<PeripheralPropertyId> {
        match property {
            PropertyView::Address(_) => None,
            PropertyView::AddressType(_) => Some(PeripheralPropertyId::AddressType),
            PropertyView::Name(name) => if self.name == Some(name) {
                None
            } else {
                Some(PeripheralPropertyId::Name)
            },
            PropertyView::TxPower(power) => if self.tx_power == Some(power) {
                None
            } else {
                Some(PeripheralPropertyId::TxPower)
            },
            PropertyView::Rssi(rssi) => if self.rssi == Some(rssi) {
                None
            } else {
                Some(PeripheralPropertyId::Rssi)
            },
            PropertyView::ManufacturerData(data) => if data == Map::<u16, Seq<u8>>::empty() {
                None
            } else {
                Some(PeripheralPropertyId::ManufacturerData)
            },
            PropertyView::ServiceData(data) => if data == Map::<u128, Seq<u8>>::empty() {
                None
            } else {
                Some(PeripheralPropertyId::ServiceData)
            },
            PropertyView::Services(uuids) => if uuids.subset_of(self.services) {
                None
            } else {
                Some(PeripheralPropertyId::Services)
            },
        }
    }

    /// Whether a report contradicts what is known.
    pub open spec fn contradicted_by(self, property: PropertyView) -> bool {
        property matches PropertyView::Address(address) && self.address is Some && self.address
            != Some(address)
    }

    /// How the peripheral is introduced: first the peripheral itself, then
    /// each property that it has.
    pub open spec fn introduction(self, handle: PlatformPeripheralHandle) -> Seq<EventView>
        recommends
            self.identified(),
    {
        seq![
            EventView::Found { peripheral: handle, address: self.address->0, name: self.name->0 },
        ] + self.known_properties().map_values(
            |id: PeripheralPropertyId| EventView::PropertyChanged(handle, id),
        )
    }

    /// The state once a property was reported.
    pub open spec fn after_property(self, property: PropertyView) -> PeripheralView {
        let next = self.with_property(property);
        PeripheralView { advertised: self.advertised || next.identified(), ..next }
    }

    /// What the application is told when a property is reported: the
    /// introduction, if it is due, and then what changed.
    pub open spec fn property_events(
        self,
        handle: PlatformPeripheralHandle,
        property: PropertyView,
    ) -> Seq<EventView> {
        let next = self.with_property(property);
        let introduction = if !self.advertised && next.identified() {
            next.introduction(handle)
        } else {
            Seq::empty()
        };
        let change = match self.changed_by(property) {
            Some(id) => seq![EventView::PropertyChanged(handle, id)],
            None => Seq::empty(),
        };
        introduction + change
    }
}

impl View for PeripheralStateInner {
    type V = PeripheralView;

    open spec fn view(&self) -> PeripheralView {
        PeripheralView {
            advertised: self.advertised,
            address: match self.address {
                Some(address) => Some(address@),
                None => None,
            },
            name: match self.name {
                Some(name) => Some(name@),
                None => None,
            },
            address_type: self.address_type,
            tx_power: self.tx_power,
            rssi: self.rssi,
            manufacturer_data: payloads(self.manufacturer_data@),
            service_data: payloads(self.service_data@),
            services: self.services@,
            is_connected: self.is_connected,
        }
    }
}

impl Default for PeripheralStateInner {
    fn default() -> (state: Self)
        ensures
            state@ == PeripheralView::unknown(),
    {
        let state = PeripheralStateInner {
            advertised: false,
            address: None,
            name: None,
            address_type: None,
            tx_power: None,
            rssi: None,
            manufacturer_data: HashMap::new(),
            service_data: HashMap::new(),
            services: HashSet::new(),
            is_connected: false,
        };
        assert(state@ =~= PeripheralView::unknown());
        state
    }
}

/// Whether one of the first `n` pairs has the key.
spec fn has_key<K>(pairs: Seq<(&K, &Vec<u8>)>, n: int, key: K) -> bool {
    exists|i: int| 0 <= i < n && *(#[trigger] pairs[i]).0 == key
}

/// Puts each payload of `data` under its key.
fn merge_payloads<K: Copy + Eq + Hash>(
    target: &mut HashMap<K, Vec<u8>>,
    data: &HashMap<K, Vec<u8>>,
)
    requires
        obeys_key_model::<K>(),
    ensures
        payloads(final(target)@) == payloads(old(target)@).union_prefer_right(payloads(data@)),
{
    let ghost start = target@;
    for pair in it: data.iter()
        invariant
            obeys_key_model::<K>(),
            forall|i: int|
                0 <= i < it.seq().len() ==> data@.contains_key(*(#[trigger] it.seq()[i]).0)
                    && data@[*it.seq()[i].0] == *it.seq()[i].1,
            forall|key: K| #[trigger]
                data@.contains_key(key) ==> has_key(it.seq(), it.seq().len() as int, key),
            forall|key: K| #[trigger]
                target@.contains_key(key) <==> start.contains_key(key) || has_key(
                    it.seq(),
                    it.index(),
                    key,
                ),
            forall|key: K| #[trigger]
                target@.contains_key(key) ==> target@[key]@ == if has_key(
                    it.seq(),
                    it.index(),
                    key,
                ) {
                    data@[key]@
                } else {
                    start[key]@
                },
    {
        target.insert(*pair.0, pair.1.clone());
    }
}

/// Adds each service to those known, and says whether one of them is new.
fn merge_services(target: &mut HashSet<u128>, uuids: &Vec<u128>) -> (new_services: bool)
    ensures
        final(target)@ == old(target)@.union(uuids@.to_set()),
        new_services <==> !uuids@.to_set().subset_of(old(target)@),
{
    let ghost start = target@;
    let mut new_services = false;
    for i in 0..uuids.len()
        invariant
            target@ == start.union(uuids@.take(i as int).to_set()),
            new_services <==> !uuids@.take(i as int).to_set().subset_of(start),
    {
        let uuid: u128 = uuids[i];
        proof {
            assert(uuids@.take(i + 1) == uuids@.take(i as int).push(uuid));
            uuids@.take(i as int).lemma_push_to_set_commute(uuid);
        }
        if !target.contains(&uuid) {
            target.insert(uuid);
            new_services = true;
        }
    }
    assert(uuids@.take(uuids.len() as int) == uuids@);
    new_services
}

impl PeripheralStateInner {
    /// Whether there is a value for a property.
    fn knows(&self, id: PeripheralPropertyId) -> (known: bool)
        ensures
            known == self@.knows(id),
    {
        proof {
            lemma_payloads_empty(self.manufacturer_data@);
            lemma_payloads_empty(self.service_data@);
        }
        match id {
            PeripheralPropertyId::Name => self.name.is_some(),
            PeripheralPropertyId::AddressType => self.address_type.is_some(),
            PeripheralPropertyId::TxPower => self.tx_power.is_some(),
            PeripheralPropertyId::Rssi => self.rssi.is_some(),
            PeripheralPropertyId::ManufacturerData => !self.manufacturer_data.is_empty(),
            PeripheralPropertyId::ServiceData => !self.service_data.is_empty(),
            PeripheralPropertyId::Services => !self.services.is_empty(),
        }
    }

    /// Records a property. Says which property that changes, and whether the
    /// report contradicts what is known.
    fn record(&mut self, property: PlatformPeripheralProperty) -> (report: (
        Option<PeripheralPropertyId>,
        Option<Anomaly>,
    ))
        ensures
            final(self)@ == old(self)@.with_property(property@),
            report.0 == old(self)@.changed_by(property@),
            report.1 == if old(self)@.contradicted_by(property@) {
                Some(Anomaly::AddressChange)
            } else {
                None
            },
    {
        let mut changed_property: Option<PeripheralPropertyId> = None;
        let mut anomaly: Option<Anomaly> = None;
        match property {
            PlatformPeripheralProperty::Address(address) => {
                match &self.address {
                    None => {
                        self.address = Some(address);
                    },
                    Some(existing) => {
                        if address != *existing {
                            anomaly = Some(Anomaly::AddressChange);
                        }
                    },
                }
            },
            PlatformPeripheralProperty::AddressType(kind) => {
                self.address_type =
                match kind {
                    AddressType::PublicMAC => Some(MacAddressType::Public),
                    AddressType::RandomMAC => Some(MacAddressType::Random),
                    AddressType::String => None,
                };
                changed_property = Some(PeripheralPropertyId::AddressType);
            },
            PlatformPeripheralProperty::Name(name) => {
                let changed = match &self.name {
                    Some(current_name) => *current_name != name,
                    None => true,
                };
                if changed {
                    self.name = Some(name);
                    changed_property = Some(PeripheralPropertyId::Name);
                }
            },
            PlatformPeripheralProperty::TxPower(tx_power) => {
                if self.tx_power != Some(tx_power) {
                    self.tx_power = Some(tx_power);
                    changed_property = Some(PeripheralPropertyId::TxPower);
                }
            },
            PlatformPeripheralProperty::Rssi(rssi) => {
                if self.rssi != Some(rssi) {
                    self.rssi = Some(rssi);
                    changed_property = Some(PeripheralPropertyId::Rssi);
                }
            },
            PlatformPeripheralProperty::ManufacturerData(data) => {
                proof {
                    lemma_payloads_empty(data@);
                }
                if !data.is_empty() {
                    merge_payloads(&mut self.manufacturer_data, &data);
                    changed_property = Some(PeripheralPropertyId::ManufacturerData);
                }
            },
            PlatformPeripheralProperty::ServiceData(data) => {
                proof {
                    lemma_payloads_empty(data@);
                }
                if !data.is_empty() {
                    merge_payloads(&mut self.service_data, &data);
                    changed_property = Some(PeripheralPropertyId::ServiceData);
                }
            },
            PlatformPeripheralProperty::Services(uuids) => {
                if merge_services(&mut self.services, &uuids) {
                    changed_property = Some(PeripheralPropertyId::Services);
                }
            },
        }
        assert(self@ =~= old(self)@.with_property(property@));
        (changed_property, anomaly)
    }

    /// Introduces the peripheral.
    fn introduce(&self, handle: PlatformPeripheralHandle, events: &mut Vec<Event>)
        requires
            self@.identified(),
        ensures
            event_views(final(events)@) == event_views(old(events)@) + self@.introduction(handle),
    {
        if let (Some(address), Some(name)) = (&self.address, &self.name) {
            events.push(
                Event::PeripheralFound {
                    peripheral: handle,
                    address: address.clone(),
                    name: name.clone(),
                },
            );
        }
        let order = [
            PeripheralPropertyId::Name,
            PeripheralPropertyId::AddressType,
            PeripheralPropertyId::TxPower,
            PeripheralPropertyId::Rssi,
            PeripheralPropertyId::ManufacturerData,
            PeripheralPropertyId::ServiceData,
            PeripheralPropertyId::Services,
        ];
        let ghost introduced = event_views(events@);
        let ghost known = |id: PeripheralPropertyId| self@.knows(id);
        let ghost report = |id: PeripheralPropertyId| EventView::PropertyChanged(handle, id);
        assert(order@ =~= property_order());
        for i in 0..order.len()
            invariant
                order@ == property_order(),
                known == (|id: PeripheralPropertyId| self@.knows(id)),
                report == (|id: PeripheralPropertyId| EventView::PropertyChanged(handle, id)),
                event_views(events@) == introduced + order@.take(i as int).filter(known).map_values(
                    report,
                ),
        {
            let id = order[i];
            let ghost reported = order@.take(i as int).filter(known);
            proof {
                assert(order@.take(i + 1).drop_last() == order@.take(i as int));
                reveal(Seq::filter);
                assert(reported.push(id).map_values(report) =~= reported.map_values(report).push(
                    report(id),
                ));
            }
            if self.knows(id) {
                let event = Event::PeripheralPropertyChanged(handle, id);
                proof {
                    lemma_event_views_push(events@, event);
                }
                events.push(event);
            }
        }
        assert(order@.take(order@.len() as int) == order@);
    }

    /// Takes in a property that the platform backend reports, and appends what
    /// the application is to be told of it.
    pub(crate) fn set_property(
        &mut self,
        handle: PlatformPeripheralHandle,
        property: PlatformPeripheralProperty,
        events: &mut Vec<Event>,
    ) -> (anomaly: Option<Anomaly>)
        ensures
            final(self)@ == old(self)@.after_property(property@),
            event_views(final(events)@) == event_views(old(events)@)
                + old(self)@.property_events(handle, property@),
            anomaly == if old(self)@.contradicted_by(property@) {
                Some(Anomaly::AddressChange)
            } else {
                None
            },
    {
        let (changed_property, anomaly) = self.record(property);
        if !self.advertised && self.name.is_some() && self.address.is_some() {
            self.introduce(handle, events);
            self.advertised = true;
        }
        if let Some(id) = changed_property {
            let event = Event::PeripheralPropertyChanged(handle, id);
            proof {
                lemma_event_views_push(events@, event);
            }
            events.push(event);
        }
        anomaly
    }

    /// Records whether the peripheral is connected.
    pub(crate) fn set_connected(&mut self, is_connected: bool)
        ensures
            final(self)@ == (PeripheralView { is_connected, ..old(self)@ }),
    {
        self.is_connected = is_connected;
    }
}

} // verus!
