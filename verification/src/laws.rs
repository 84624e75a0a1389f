//! What holds of a session over all reports.

use vstd::prelude::*;

use crate::events::{EventView, PlatformEventView, PropertyView};
use crate::peripheral::{property_order, PeripheralView};
use crate::session::SessionView;
use crate::types::{AddressView, PeripheralPropertyId, PlatformPeripheralHandle};

verus! {

/// The session once the platform has made all the reports, one after the other.
pub open spec fn after_all(session: SessionView, reports: Seq<PlatformEventView>) -> SessionView
    decreases reports.len(),
{
    if reports.len() == 0 {
        session
    } else {
        after_all(session, reports.drop_last()).after(reports.last())
    }
}

/// All that the application is told meanwhile.
pub open spec fn told(session: SessionView, reports: Seq<PlatformEventView>) -> Seq<EventView>
    decreases reports.len(),
{
    if reports.len() == 0 {
        Seq::empty()
    } else {
        told(session, reports.drop_last()) + after_all(session, reports.drop_last()).reaction(
            reports.last(),
        )
    }
}

/// The events that introduce a peripheral.
pub open spec fn introductions(
    events: Seq<EventView>,
    handle: PlatformPeripheralHandle,
) -> Seq<EventView> {
    events.filter(|event: EventView| event is Found && event.peripheral() == handle)
}

/// The events about a peripheral's connection.
pub open spec fn connections(
    events: Seq<EventView>,
    handle: PlatformPeripheralHandle,
) -> Seq<EventView> {
    events.filter(
        |event: EventView|
            (event is Connected || event is Disconnected) && event.peripheral() == handle,
    )
}

proof fn lemma_filter_none(events: Seq<EventView>, pick: spec_fn(EventView) -> bool)
    requires
        forall|i: int| 0 <= i < events.len() ==> !pick(#[trigger] events[i]),
    ensures
        events.filter(pick) == Seq::<EventView>::empty(),
    decreases events.len(),
{
    reveal(Seq::filter);
    if events.len() > 0 {
        lemma_filter_none(events.drop_last(), pick);
    }
}

proof fn lemma_filter_first(events: Seq<EventView>, pick: spec_fn(EventView) -> bool)
    requires
        events.len() > 0,
        pick(events[0]),
        forall|i: int| 1 <= i < events.len() ==> !pick(#[trigger] events[i]),
    ensures
        events.filter(pick) == seq![events[0]],
    decreases events.len(),
{
    reveal(Seq::filter);
    if events.len() == 1 {
        lemma_filter_none(events.drop_last(), pick);
        assert(events.drop_last().filter(pick) == Seq::<EventView>::empty());
        assert(events.filter(pick) =~= seq![events[0]]);
    } else {
        lemma_filter_first(events.drop_last(), pick);
    }
}

/// A new session is valid, and reports keep a session valid: a peripheral was
/// introduced exactly if its address and its name are known.
pub proof fn law_sessions_stay_valid(session: SessionView, reports: Seq<PlatformEventView>)
    ensures
        SessionView::initial().valid(),
        session.valid() ==> after_all(session, reports).valid(),
    decreases reports.len(),
{
    if reports.len() > 0 {
        law_sessions_stay_valid(session, reports.drop_last());
    }
}

/// A report changes nothing but the peripheral that it is about.
pub proof fn law_report_touches_one_peripheral(
    session: SessionView,
    report: PlatformEventView,
    other: PlatformPeripheralHandle,
)
    requires
        other != report.peripheral(),
    ensures
        session.after(report).peripheral(other) == session.peripheral(other),
        session.after(report).peripherals.contains_key(other)
            == session.peripherals.contains_key(other),
        session.after(report).is_scanning == session.is_scanning,
{
}

/// What the application is told of a report is about the peripheral that the
/// report is about.
pub proof fn law_reaction_is_about_the_peripheral(session: SessionView, report: PlatformEventView)
    ensures
        forall|i: int|
            0 <= i < session.reaction(report).len() ==> (
            #[trigger] session.reaction(report)[i]).peripheral() == report.peripheral(),
{
}

/// An address that is known stays.
pub proof fn law_address_is_permanent(
    session: SessionView,
    reports: Seq<PlatformEventView>,
    handle: PlatformPeripheralHandle,
)
    requires
        session.peripheral(handle).address is Some,
    ensures
        after_all(session, reports).peripheral(handle).address == session.peripheral(
            handle,
        ).address,
    decreases reports.len(),
{
    if reports.len() > 0 {
        law_address_is_permanent(session, reports.drop_last(), handle);
    }
}

/// What is known once is not forgotten: names and strengths may be replaced, but
/// do not go away; payloads keep their keys; services add up.
pub proof fn law_knowledge_grows(
    session: SessionView,
    reports: Seq<PlatformEventView>,
    handle: PlatformPeripheralHandle,
)
    ensures
        ({
            let before = session.peripheral(handle);
            let after = after_all(session, reports).peripheral(handle);
            &&& before.advertised ==> after.advertised
            &&& before.name is Some ==> after.name is Some
            &&& before.tx_power is Some ==> after.tx_power is Some
            &&& before.rssi is Some ==> after.rssi is Some
            &&& before.manufacturer_data.dom().subset_of(after.manufacturer_data.dom())
            &&& before.service_data.dom().subset_of(after.service_data.dom())
            &&& before.services.subset_of(after.services)
        }),
    decreases reports.len(),
{
    if reports.len() > 0 {
        law_knowledge_grows(session, reports.drop_last(), handle);
    }
}

/// A report introduces a peripheral exactly if it makes both the address and
/// the name known. The introduction comes first, and gives the address and the
/// name as they are then.
pub proof fn law_introduced_when_identified(
    session: SessionView,
    report: PlatformEventView,
    handle: PlatformPeripheralHandle,
)
    requires
        session.valid(),
    ensures
        introductions(session.reaction(report), handle) == if !session.peripheral(
            handle,
        ).identified() && session.after(report).peripheral(handle).identified() {
            seq![
                EventView::Found {
                    peripheral: handle,
                    address: session.after(report).peripheral(handle).address->0,
                    name: session.after(report).peripheral(handle).name->0,
                },
            ]
        } else {
            Seq::empty()
        },
        introductions(session.reaction(report), handle).len() > 0 ==> session.reaction(report)[0]
            == introductions(session.reaction(report), handle)[0],
{
    let reaction = session.reaction(report);
    let pick = |event: EventView| event is Found && event.peripheral() == handle;
    if !session.peripheral(handle).identified() && session.after(report).peripheral(
        handle,
    ).identified() {
        lemma_filter_first(reaction, pick);
    } else {
        lemma_filter_none(reaction, pick);
    }
}

/// Whatever the platform reports, a peripheral is introduced at most once, and
/// it has been by the time that its address and its name are known.
pub proof fn law_introduced_once(
    session: SessionView,
    reports: Seq<PlatformEventView>,
    handle: PlatformPeripheralHandle,
)
    requires
        session.valid(),
    ensures
        introductions(told(session, reports), handle).len() == if !session.peripheral(
            handle,
        ).identified() && after_all(session, reports).peripheral(handle).identified() {
            1nat
        } else {
            0nat
        },
    decreases reports.len(),
{
    let pick = |event: EventView| event is Found && event.peripheral() == handle;
    if reports.len() == 0 {
        lemma_filter_none(told(session, reports), pick);
    } else {
        let earlier = reports.drop_last();
        let middle = after_all(session, earlier);
        law_introduced_once(session, earlier, handle);
        law_sessions_stay_valid(session, earlier);
        law_introduced_when_identified(middle, reports.last(), handle);
        law_knowledge_grows(session, earlier, handle);
        Seq::filter_distributes_over_add(
            told(session, earlier),
            middle.reaction(reports.last()),
            pick,
        );
        if session.peripheral(handle).address is Some {
            law_address_is_permanent(session, earlier, handle);
        }
    }
}

/// The address that a peripheral was introduced with is its address ever after.
pub proof fn law_introduced_address_lasts(
    session: SessionView,
    reports: Seq<PlatformEventView>,
    handle: PlatformPeripheralHandle,
    address: AddressView,
    name: Seq<char>,
)
    requires
        session.valid(),
        told(session, reports).contains(EventView::Found { peripheral: handle, address, name }),
    ensures
        after_all(session, reports).peripheral(handle).address == Some(address),
    decreases reports.len(),
{
    let event = EventView::Found { peripheral: handle, address, name };
    let earlier = reports.drop_last();
    let middle = after_all(session, earlier);
    let reaction = middle.reaction(reports.last());
    law_sessions_stay_valid(session, earlier);
    if told(session, earlier).contains(event) {
        law_introduced_address_lasts(session, earlier, handle, address, name);
    } else {
        assert(reaction.contains(event));
        law_introduced_when_identified(middle, reports.last(), handle);
        let pick = |event: EventView| event is Found && event.peripheral() == handle;
        let i = choose|i: int| 0 <= i < reaction.len() && reaction[i] == event;
        reaction.lemma_filter_contains(pick, i);
    }
}

/// An introduction reports each property that the peripheral has, each of them
/// once.
pub proof fn law_introduction_is_complete(
    peripheral: PeripheralView,
    handle: PlatformPeripheralHandle,
)
    ensures
        forall|id: PeripheralPropertyId| #[trigger]
            peripheral.knows(id) <==> peripheral.introduction(handle).contains(
                EventView::PropertyChanged(handle, id),
            ),
        peripheral.introduction(handle).no_duplicates(),
{
    let known = |id: PeripheralPropertyId| peripheral.knows(id);
    let ids = peripheral.known_properties();
    let introduction = peripheral.introduction(handle);
    assert forall|id: PeripheralPropertyId| #[trigger]
        peripheral.knows(id) <==> introduction.contains(
        EventView::PropertyChanged(handle, id),
    ) by {
        if peripheral.knows(id) {
            let place: int = match id {
                PeripheralPropertyId::Name => 0,
                PeripheralPropertyId::AddressType => 1,
                PeripheralPropertyId::TxPower => 2,
                PeripheralPropertyId::Rssi => 3,
                PeripheralPropertyId::ManufacturerData => 4,
                PeripheralPropertyId::ServiceData => 5,
                PeripheralPropertyId::Services => 6,
            };
            assert(property_order()[place] == id);
            property_order().lemma_filter_contains(known, place);
            let i = choose|i: int| 0 <= i < ids.len() && ids[i] == id;
            assert(introduction[i + 1] == EventView::PropertyChanged(handle, id));
        }
        if introduction.contains(EventView::PropertyChanged(handle, id)) {
            let i = choose|i: int|
                0 <= i < introduction.len() && introduction[i] == EventView::PropertyChanged(
                    handle,
                    id,
                );
            property_order().lemma_filter_pred(known, i - 1);
        }
    }
    lemma_filter_no_duplicates(property_order(), known);
    assert forall|i: int, j: int|
        0 <= i < introduction.len() && 0 <= j < introduction.len() && i
            != j implies introduction[i] != introduction[j] by {
        if i > 0 && j > 0 {
            assert(ids[i - 1] != ids[j - 1]);
        }
    }
}

proof fn lemma_filter_no_duplicates(
    ids: Seq<PeripheralPropertyId>,
    pick: spec_fn(PeripheralPropertyId) -> bool,
)
    requires
        ids.no_duplicates(),
    ensures
        ids.filter(pick).no_duplicates(),
        forall|id: PeripheralPropertyId| #[trigger]
            ids.filter(pick).contains(id) ==> ids.contains(id),
    decreases ids.len(),
{
    reveal(Seq::filter);
    if ids.len() > 0 {
        let rest = ids.drop_last();
        lemma_filter_no_duplicates(rest, pick);
        assert forall|id: PeripheralPropertyId| #[trigger]
            ids.filter(pick).contains(id) implies ids.contains(id) by {
            if id != ids.last() {
                assert(rest.filter(pick).contains(id));
                let i = choose|i: int| 0 <= i < rest.len() && rest[i] == id;
                assert(ids[i] == id);
            }
        }
        assert(!rest.contains(ids.last()));
        assert(!rest.filter(pick).contains(ids.last()));
    }
}

/// The application hears of a connection exactly if it changes.
pub proof fn law_connection_change_is_told(
    session: SessionView,
    report: PlatformEventView,
    handle: PlatformPeripheralHandle,
)
    ensures
        connections(session.reaction(report), handle) == {
            let now = session.after(report).peripheral(handle).is_connected;
            if now == session.peripheral(handle).is_connected {
                Seq::empty()
            } else if now {
                seq![EventView::Connected(handle)]
            } else {
                seq![EventView::Disconnected(handle)]
            }
        },
{
    let pick = |event: EventView|
        (event is Connected || event is Disconnected) && event.peripheral() == handle;
    let reaction = session.reaction(report);
    if session.after(report).peripheral(handle).is_connected == session.peripheral(
        handle,
    ).is_connected {
        lemma_filter_none(reaction, pick);
    } else {
        lemma_filter_first(reaction, pick);
    }
}

/// What the application hears of a peripheral's connection alternates. It
/// starts from how things were, and its last word is how things are.
pub proof fn law_connections_alternate(
    session: SessionView,
    reports: Seq<PlatformEventView>,
    handle: PlatformPeripheralHandle,
)
    ensures
        ({
            let heard = connections(told(session, reports), handle);
            let before = session.peripheral(handle).is_connected;
            let now = after_all(session, reports).peripheral(handle).is_connected;
            &&& heard.len() == 0 ==> now == before
            &&& heard.len() > 0 ==> heard[0] is Connected == !before
            &&& heard.len() > 0 ==> heard.last() is Connected == now
            &&& forall|i: int|
                1 <= i < heard.len() ==> (#[trigger] heard[i]) is Connected == !(heard[i
                    - 1] is Connected)
        }),
    decreases reports.len(),
{
    let pick = |event: EventView|
        (event is Connected || event is Disconnected) && event.peripheral() == handle;
    if reports.len() == 0 {
        lemma_filter_none(told(session, reports), pick);
    } else {
        let earlier = reports.drop_last();
        let middle = after_all(session, earlier);
        let reaction = middle.reaction(reports.last());
        law_connections_alternate(session, earlier, handle);
        law_connection_change_is_told(middle, reports.last(), handle);
        Seq::filter_distributes_over_add(told(session, earlier), reaction, pick);
        let heard = connections(told(session, earlier), handle);
        let more = connections(reaction, handle);
        assert(connections(told(session, reports), handle) == heard + more);
        if more.len() == 0 {
            assert(heard + more =~= heard);
        } else {
            assert(heard + more =~= heard.push(more[0]));
        }
    }
}

/// A report that comes again changes nothing. The application hears of it again
/// only where the report is of an address type or of payloads.
pub proof fn law_repeated_report(session: SessionView, report: PlatformEventView)
    ensures
        session.after(report).after(report) == session.after(report),
        session.after(report).reaction(report) == match report {
            PlatformEventView::PropertySet(handle, PropertyView::AddressType(_)) => seq![
                EventView::PropertyChanged(handle, PeripheralPropertyId::AddressType),
            ],
            PlatformEventView::PropertySet(
                handle,
                PropertyView::ManufacturerData(data),
            ) if data != Map::<u16, Seq<u8>>::empty() => seq![
                EventView::PropertyChanged(handle, PeripheralPropertyId::ManufacturerData),
            ],
            PlatformEventView::PropertySet(
                handle,
                PropertyView::ServiceData(data),
            ) if data != Map::<u128, Seq<u8>>::empty() => seq![
                EventView::PropertyChanged(handle, PeripheralPropertyId::ServiceData),
            ],
            _ => Seq::empty(),
        },
{
    assert(session.after(report).after(report) =~~= session.after(report));
    if let PlatformEventView::PropertySet(handle, property) = report {
        let once = session.peripheral(handle).after_property(property);
        assert(once.with_property(property) =~~= once);
    }
}

/// A report of a connection or of a disconnection that says nothing new leaves
/// a tracked peripheral as it is, and the application hears nothing of it.
pub proof fn law_redundant_connection_report(
    session: SessionView,
    handle: PlatformPeripheralHandle,
)
    requires
        session.peripherals.contains_key(handle),
    ensures
        ({
            let report = if session.peripheral(handle).is_connected {
                PlatformEventView::Connected(handle)
            } else {
                PlatformEventView::Disconnected(handle)
            };
            &&& session.after(report) == session
            &&& session.reaction(report) == Seq::<EventView>::empty()
            &&& session.anomaly(report) is Some
        }),
{
    let is_connected = session.peripheral(handle).is_connected;
    let report = if is_connected {
        PlatformEventView::Connected(handle)
    } else {
        PlatformEventView::Disconnected(handle)
    };
    assert(session.after(report) =~= session);
}

} // verus!
