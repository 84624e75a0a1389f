//! Plain values that name peripherals and their properties.

use vstd::prelude::*;

verus! {

/// A Bluetooth MAC address, in the low 48 bits of the number.
#[derive(Clone, Copy, Debug, PartialEq, Eq, Structural, PartialOrd, Ord, Hash)]
pub struct MAC(pub u64);

/// The address of a peripheral, as far as the platform reveals it.
#[derive(Debug)]
pub enum Address {
    /// The MAC address itself.
    MAC(MAC),
    /// An opaque identifier, on platforms that hide the MAC address.
    String(String),
}

/// What an [`Address`] says.
pub enum AddressView {
    MAC(MAC),
    String(Seq<char>),
}

impl View for Address {
    type V = AddressView;

    open spec fn view(&self) -> AddressView {
        match self {
            Address::MAC(mac) => AddressView::MAC(*mac),
            Address::String(id) => AddressView::String(id@),
        }
    }
}

impl Clone for Address {
    fn clone(&self) -> (copy: Self)
        ensures
            copy == *self,
    {
        match self {
            Address::MAC(mac) => Address::MAC(*mac),
            Address::String(id) => Address::String(id.clone()),
        }
    }
}

impl PartialEq for Address {
    fn eq(&self, other: &Address) -> (same: bool) {
        match (self, other) {
            (Address::MAC(mac), Address::MAC(other_mac)) => *mac == *other_mac,
            (Address::String(id), Address::String(other_id)) => *id == *other_id,
            _ => false,
        }
    }
}

impl vstd::std_specs::cmp::PartialEqSpecImpl for Address {
    open spec fn obeys_eq_spec() -> bool {
        true
    }

    open spec fn eq_spec(&self, other: &Address) -> bool {
        self@ == other@
    }
}

impl Eq for Address {

}

/// The kind of address that a platform reports for a peripheral.
#[derive(Clone, Copy, Debug, PartialEq, Eq, Structural)]
pub enum AddressType {
    PublicMAC,
    RandomMAC,
    String,
}

/// The kind of a MAC address.
#[derive(Clone, Copy, Debug, PartialEq, Eq, Structural)]
pub enum MacAddressType {
    Public,
    Random,
}

impl AddressType {
    /// The kind of MAC address; an opaque identifier has none.
    pub open spec fn mac_type(self) -> Option<MacAddressType> {
        match self {
            AddressType::PublicMAC => Some(MacAddressType::Public),
            AddressType::RandomMAC => Some(MacAddressType::Random),
            AddressType::String => None,
        }
    }
}

/// Names one tracked property of a peripheral.
#[derive(Clone, Copy, Debug, PartialEq, Eq, Structural, Hash)]
pub enum PeripheralPropertyId {
    Name,
    AddressType,
    TxPower,
    Rssi,
    ManufacturerData,
    ServiceData,
    Services,
}

/// Identifies a peripheral towards the platform backend.
#[derive(Clone, Copy, Debug, PartialEq, Eq, Structural, PartialOrd, Ord, Hash)]
pub struct PlatformPeripheralHandle(pub u32);

} // verus!
