//! A session: the peripherals that it tracks, and whether it scans.

use std::collections::hash_map::RandomState;

use dashmap::DashMap;
use vstd::prelude::*;

use crate::config::{Backend, Filter, Platform, SessionConfig};
use crate::events::{
    event_views, lemma_event_views_push, Anomaly, Event, EventView, Outcome, PlatformEvent, PlatformEventView,
};
use crate::peripheral::{PeripheralStateInner, PeripheralView};
use crate::registry;
use crate::registry::entries;
use crate::types::PlatformPeripheralHandle;

verus! {

/// How many events the bus to the application holds for a slow receiver.
pub const EVENT_BUS_CAPACITY: usize = 16;

/// Stands for the state of one peripheral in the session that handed it out.
/// All copies stand for the same state.
#[derive(Clone, Copy, Debug)]
pub struct PeripheralState {
    slot: usize,
}

/// What a session asks of its platform.
#[derive(Clone, Copy, Debug, PartialEq, Eq, Structural)]
pub enum PlatformRequest {
    StartScanning(Filter),
    StopScanning,
    ConnectPeripheral(PlatformPeripheralHandle),
}

/// Why a session does not pass on a request to scan.
#[derive(Clone, Copy, Debug, PartialEq, Eq, Structural)]
pub enum ScanError {
    AlreadyScanning,
    NotScanning,
}

impl ScanError {
    /// What an application is told.
    pub fn message(&self) -> (text: &'static str)
        ensures
            text@ == match self {
                ScanError::AlreadyScanning => "Already scanning"@,
                ScanError::NotScanning => "Not currently scanning"@,
            },
    {
        match self {
            ScanError::AlreadyScanning => "Already scanning",
            ScanError::NotScanning => "Not currently scanning",
        }
    }
}

/// What becomes of an application's request to start or to stop scanning.
#[derive(Clone, Copy, Debug, PartialEq, Eq, Structural)]
pub enum ScanDecision {
    /// The platform is to be asked, and its answer goes to
    /// [`Session::complete`].
    Ask(PlatformRequest),
    /// The request fails.
    Refuse(ScanError),
    /// The platform has not answered an earlier request yet. This one is to be
    /// made again once it has.
    Wait,
}

/// The state of a session.
#[derive(Debug)]
pub struct Session {
    // The slot of each tracked peripheral in `states`.
    peripherals: DashMap<u32, usize, RandomState>,
    states: Vec<PeripheralStateInner>,
    is_scanning: bool,
    // The request to start or to stop scanning that the platform is to answer.
    pending: Option<PlatformRequest>,
}

/// What a [`Session`] knows.
#[verifier::ext_equal]
pub struct SessionView {
    pub peripherals: Map<PlatformPeripheralHandle, PeripheralView>,
    pub is_scanning: bool,
    /// The request to start or to stop scanning that the platform is to answer.
    pub pending: Option<PlatformRequest>,
}

impl SessionView {
    /// A session that has just started.
    pub open spec fn initial() -> SessionView {
        SessionView { peripherals: Map::empty(), is_scanning: false, pending: None }
    }

    /// What is known of a peripheral.
    pub open spec fn peripheral(self, handle: PlatformPeripheralHandle) -> PeripheralView {
        if self.peripherals.contains_key(handle) {
            self.peripherals[handle]
        } else {
            PeripheralView::unknown()
        }
    }

    /// Every peripheral was introduced exactly if enough is known for it. The
    /// platform is only asked to start a scan where there is none, and to stop
    /// one where there is one.
    pub open spec fn valid(self) -> bool {
        &&& forall|handle: PlatformPeripheralHandle| #[trigger]
            self.peripherals.contains_key(handle) ==> self.peripherals[handle].valid()
        &&& match self.pending {
            None => true,
            Some(PlatformRequest::StartScanning(_)) => !self.is_scanning,
            Some(PlatformRequest::StopScanning) => self.is_scanning,
            Some(PlatformRequest::ConnectPeripheral(_)) => false,
        }
    }

    /// The session with another state of one peripheral.
    pub open spec fn with_peripheral(
        self,
        handle: PlatformPeripheralHandle,
        state: PeripheralView,
    ) -> SessionView {
        SessionView { peripherals: self.peripherals.insert(handle, state), ..self }
    }

    /// The session once the platform has reported something.
    pub open spec fn after(self, event: PlatformEventView) -> SessionView {
        match event {
            PlatformEventView::Found(_) => self,
            PlatformEventView::Connected(handle) => self.with_peripheral(
                handle,
                PeripheralView { is_connected: true, ..self.peripheral(handle) },
            ),
            PlatformEventView::Disconnected(handle) => self.with_peripheral(
                handle,
                PeripheralView { is_connected: false, ..self.peripheral(handle) },
            ),
            PlatformEventView::PropertySet(handle, property) => self.with_peripheral(
                handle,
                self.peripheral(handle).after_property(property),
            ),
        }
    }

    /// What the application is told once the platform has reported something.
    pub open spec fn reaction(self, event: PlatformEventView) -> Seq<EventView> {
        match event {
            PlatformEventView::Found(_) => Seq::empty(),
            PlatformEventView::Connected(handle) => if self.peripheral(handle).is_connected {
                Seq::empty()
            } else {
                seq![EventView::Connected(handle)]
            },
            PlatformEventView::Disconnected(handle) => if self.peripheral(handle).is_connected {
                seq![EventView::Disconnected(handle)]
            } else {
                Seq::empty()
            },
            PlatformEventView::PropertySet(handle, property) => self.peripheral(
                handle,
            ).property_events(handle, property),
        }
    }

    /// In what way a report does not fit what is known.
    pub open spec fn anomaly(self, event: PlatformEventView) -> Option<Anomaly> {
        match event {
            PlatformEventView::Connected(handle) if self.peripheral(handle).is_connected => Some(
                Anomaly::RedundantConnect,
            ),
            PlatformEventView::Disconnected(handle) if !self.peripheral(handle).is_connected => Some(
                Anomaly::RedundantDisconnect,
            ),
            PlatformEventView::PropertySet(handle, property) if self.peripheral(
                handle,
            ).contradicted_by(property) => Some(Anomaly::AddressChange),
            _ => None,
        }
    }

    /// What becomes of an application's request to start scanning: there is
    /// one scan at a time, and one request at a time.
    pub open spec fn on_start(self, filter: Filter) -> ScanDecision {
        if self.pending is Some {
            ScanDecision::Wait
        } else if self.is_scanning {
            ScanDecision::Refuse(ScanError::AlreadyScanning)
        } else {
            ScanDecision::Ask(PlatformRequest::StartScanning(filter))
        }
    }

    /// What becomes of an application's request to stop scanning.
    pub open spec fn on_stop(self) -> ScanDecision {
        if self.pending is Some {
            ScanDecision::Wait
        } else if self.is_scanning {
            ScanDecision::Ask(PlatformRequest::StopScanning)
        } else {
            ScanDecision::Refuse(ScanError::NotScanning)
        }
    }

    /// The session once a request is decided on.
    pub open spec fn decided(self, decision: ScanDecision) -> SessionView {
        match decision {
            ScanDecision::Ask(request) => SessionView { pending: Some(request), ..self },
            _ => self,
        }
    }

    /// The session once the platform has answered a request. The answer to a
    /// pending request settles it; no other answer matters.
    pub open spec fn answered(self, request: PlatformRequest, granted: bool) -> SessionView {
        if self.pending == Some(request) {
            SessionView {
                is_scanning: if granted {
                    request is StartScanning
                } else {
                    self.is_scanning
                },
                pending: None,
                ..self
            }
        } else {
            self
        }
    }
}

impl View for Session {
    type V = SessionView;

    closed spec fn view(&self) -> SessionView {
        SessionView {
            peripherals: Map::new(
                |handle: PlatformPeripheralHandle| entries(self.peripherals).contains_key(handle.0),
                |handle: PlatformPeripheralHandle|
                    self.states@[entries(self.peripherals)[handle.0] as int]@,
            ),
            is_scanning: self.is_scanning,
            pending: self.pending,
        }
    }
}

impl Session {
    /// Each tracked peripheral has a slot, and no two share one.
    closed spec fn slots_valid(&self) -> bool {
        let slots = entries(self.peripherals);
        &&& forall|key: u32| #[trigger] slots.contains_key(key) ==> slots[key] < self.states@.len()
        &&& forall|key: u32, other: u32| #[trigger]
            slots.contains_key(key) && #[trigger] slots.contains_key(other) && key != other
                ==> slots[key] != slots[other]
    }

    /// Holds of every session that was started and used through its methods.
    pub closed spec fn wf(&self) -> bool {
        self.slots_valid() && self@.valid()
    }

    /// Whether the session handed out `state` for the peripheral.
    pub closed spec fn locates(
        &self,
        handle: PlatformPeripheralHandle,
        state: PeripheralState,
    ) -> bool {
        entries(self.peripherals).contains_key(handle.0) && entries(self.peripherals)[handle.0]
            == state.slot
    }

    /// Starts a session: says which platform it runs on, and gives its state.
    pub fn start(config: &SessionConfig) -> (started: (Platform, Session))
        ensures
            started.0 == config@.platform(),
            started.1.wf(),
            started.1@ == SessionView::initial(),
    {
        let platform = match config.backend() {
            Backend::SystemDefault => Platform::Winrt,
            Backend::Fake => Platform::Fake,
        };
        let session = Session {
            peripherals: registry::new_map(),
            states: Vec::new(),
            is_scanning: false,
            pending: None,
        };
        assert(session@ =~= SessionView::initial());
        (platform, session)
    }

    /// Finds the state of a peripheral, which is made if there is none yet.
    pub fn get_peripheral_state(&mut self, peripheral_handle: PlatformPeripheralHandle) -> (state:
        PeripheralState)
        requires
            old(self).wf(),
        ensures
            final(self).wf(),
            final(self).locates(peripheral_handle, state),
            final(self)@ == old(self)@.with_peripheral(
                peripheral_handle,
                old(self)@.peripheral(peripheral_handle),
            ),
            forall|handle: PlatformPeripheralHandle, other: PeripheralState| #[trigger]
                old(self).locates(handle, other) ==> final(self).locates(handle, other),
    {
        match registry::get(&self.peripherals, peripheral_handle.0) {
            Some(slot) => {
                assert(self@ =~= old(self)@.with_peripheral(
                    peripheral_handle,
                    old(self)@.peripheral(peripheral_handle),
                ));
                PeripheralState { slot }
            },
            None => {
                let slot = self.states.len();
                self.states.push(PeripheralStateInner::default());
                registry::insert(&mut self.peripherals, peripheral_handle.0, slot);
                assert(self@ =~= old(self)@.with_peripheral(
                    peripheral_handle,
                    old(self)@.peripheral(peripheral_handle),
                ));
                PeripheralState { slot }
            },
        }
    }

    /// Reads the state of a peripheral.
    pub fn read(&self, state: PeripheralState) -> (inner: &PeripheralStateInner)
        requires
            self.wf(),
            exists|handle: PlatformPeripheralHandle| #[trigger] self.locates(handle, state),
        ensures
            forall|handle: PlatformPeripheralHandle| #[trigger]
                self.locates(handle, state) ==> self@.peripherals.contains_key(handle) && inner@
                    == self@.peripherals[handle],
    {
        &self.states[state.slot]
    }

    /// Of a session in use, every peripheral was introduced exactly if its
    /// address and its name are known, and a pending request fits whether the
    /// session scans.
    pub proof fn law_wf_is_valid(&self)
        requires
            self.wf(),
        ensures
            self@.valid(),
    {
    }

    /// A peripheral has one state, and no two peripherals share one.
    pub proof fn law_one_state_each(
        &self,
        handle: PlatformPeripheralHandle,
        state: PeripheralState,
        other_handle: PlatformPeripheralHandle,
        other_state: PeripheralState,
    )
        requires
            self.wf(),
            self.locates(handle, state),
            self.locates(other_handle, other_state),
        ensures
            handle == other_handle <==> state == other_state,
    {
    }

    /// Writing to the slot of one peripheral changes the state of that one.
    proof fn lemma_slot_written(
        before: Session,
        after: Session,
        handle: PlatformPeripheralHandle,
        state: PeripheralState,
        inner: PeripheralStateInner,
    )
        requires
            before.wf(),
            before.locates(handle, state),
            inner@.valid(),
            after.peripherals == before.peripherals,
            after.states@ =~= before.states@.update(state.slot as int, inner),
            after.is_scanning == before.is_scanning,
            after.pending == before.pending,
        ensures
            after.wf(),
            after@ == before@.with_peripheral(handle, inner@),
    {
        assert(after@ =~= before@.with_peripheral(handle, inner@));
    }

    /// Takes in what the platform reports, and says what the application is to
    /// be told.
    pub fn handle_platform_event(&mut self, event: PlatformEvent) -> (outcome: Outcome)
        requires
            old(self).wf(),
        ensures
            final(self).wf(),
            final(self)@ == old(self)@.after(event@),
            event_views(outcome.events@) == old(self)@.reaction(event@),
            outcome.anomaly == old(self)@.anomaly(event@),
            forall|handle: PlatformPeripheralHandle, state: PeripheralState| #[trigger]
                old(self).locates(handle, state) ==> final(self).locates(handle, state),
    {
        let mut events: Vec<Event> = Vec::new();
        let mut anomaly: Option<Anomaly> = None;
        assert(event_views(events@) =~= Seq::empty());
        match event {
            // Telling the application waits until the address and the name are known.
            PlatformEvent::PeripheralFound { peripheral_handle: _ } => {},
            PlatformEvent::PeripheralConnected { peripheral_handle } => {
                let state = self.get_peripheral_state(peripheral_handle);
                let ghost found = *self;
                assert(found@.peripherals.contains_key(peripheral_handle));
                if !self.states[state.slot].is_connected {
                    self.states[state.slot].set_connected(true);
                    let told = Event::PeripheralConnected(peripheral_handle);
                    proof {
                        lemma_event_views_push(events@, told);
                    }
                    events.push(told);
                } else {
                    anomaly = Some(Anomaly::RedundantConnect);
                }
                proof {
                    let inner = self.states@[state.slot as int];
                    Self::lemma_slot_written(found, *self, peripheral_handle, state, inner);
                }
            },
            PlatformEvent::PeripheralDisconnected { peripheral_handle } => {
                let state = self.get_peripheral_state(peripheral_handle);
                let ghost found = *self;
                assert(found@.peripherals.contains_key(peripheral_handle));
                if self.states[state.slot].is_connected {
                    self.states[state.slot].set_connected(false);
                    let told = Event::PeripheralDisconnected(peripheral_handle);
                    proof {
                        lemma_event_views_push(events@, told);
                    }
                    events.push(told);
                } else {
                    anomaly = Some(Anomaly::RedundantDisconnect);
                }
                proof {
                    let inner = self.states@[state.slot as int];
                    Self::lemma_slot_written(found, *self, peripheral_handle, state, inner);
                }
            },
            PlatformEvent::PeripheralPropertySet { peripheral_handle, property } => {
                let state = self.get_peripheral_state(peripheral_handle);
                let ghost found = *self;
                assert(found@.peripherals.contains_key(peripheral_handle));
                anomaly =
                self.states[state.slot].set_property(peripheral_handle, property, &mut events);
                proof {
                    let inner = self.states@[state.slot as int];
                    Self::lemma_slot_written(found, *self, peripheral_handle, state, inner);
                }
            },
        }
        assert(self@ =~= old(self)@.after(event@));
        Outcome { events, anomaly }
    }

    /// Decides on an application's request to start scanning.
    pub fn start_scanning(&mut self, filter: Filter) -> (decision: ScanDecision)
        requires
            old(self).wf(),
        ensures
            final(self).wf(),
            decision == old(self)@.on_start(filter),
            final(self)@ == old(self)@.decided(decision),
            forall|handle: PlatformPeripheralHandle, state: PeripheralState| #[trigger]
                old(self).locates(handle, state) ==> final(self).locates(handle, state),
    {
        if self.pending.is_some() {
            return ScanDecision::Wait;
        }
        if self.is_scanning {
            return ScanDecision::Refuse(ScanError::AlreadyScanning);
        }
        let request = PlatformRequest::StartScanning(filter);
        self.pending = Some(request);
        assert(self@ =~= old(self)@.decided(ScanDecision::Ask(request)));
        ScanDecision::Ask(request)
    }

    /// Decides on an application's request to stop scanning.
    pub fn stop_scanning(&mut self) -> (decision: ScanDecision)
        requires
            old(self).wf(),
        ensures
            final(self).wf(),
            decision == old(self)@.on_stop(),
            final(self)@ == old(self)@.decided(decision),
            forall|handle: PlatformPeripheralHandle, state: PeripheralState| #[trigger]
                old(self).locates(handle, state) ==> final(self).locates(handle, state),
    {
        if self.pending.is_some() {
            return ScanDecision::Wait;
        }
        if !self.is_scanning {
            return ScanDecision::Refuse(ScanError::NotScanning);
        }
        let request = PlatformRequest::StopScanning;
        self.pending = Some(request);
        assert(self@ =~= old(self)@.decided(ScanDecision::Ask(request)));
        ScanDecision::Ask(request)
    }

    /// Passes on an application's request to connect to a peripheral.
    pub fn connect_peripheral(&self, peripheral_handle: PlatformPeripheralHandle) -> (request:
        PlatformRequest)
        ensures
            request == PlatformRequest::ConnectPeripheral(peripheral_handle),
    {
        PlatformRequest::ConnectPeripheral(peripheral_handle)
    }

    /// Takes in the platform's answer to a request, which is also what the
    /// application gets. A request that is given up counts as one that failed.
    pub fn complete<E>(&mut self, request: PlatformRequest, answer: Result<(), E>) -> (result:
        Result<(), E>)
        requires
            old(self).wf(),
        ensures
            final(self).wf(),
            result == answer,
            final(self)@ == old(self)@.answered(request, answer is Ok),
            forall|handle: PlatformPeripheralHandle, state: PeripheralState| #[trigger]
                old(self).locates(handle, state) ==> final(self).locates(handle, state),
    {
        if let Some(pending) = self.pending {
            if pending == request {
                self.pending = None;
                if answer.is_ok() {
                    self.is_scanning = matches!(request, PlatformRequest::StartScanning(_));
                }
            }
        }
        assert(self@ =~= old(self)@.answered(request, answer is Ok));
        answer
    }
}

/// Picks the events out of what a receiver of the event bus gets, and drops its
/// complaints that it was too slow.
pub fn keep_received<T, E>(item: Result<T, E>) -> (event: Option<T>)
    ensures
        event == match item {
            Ok(event) => Some(event),
            Err(_) => None,
        },
{
    match item {
        Ok(event) => Some(event),
        Err(_) => None,
    }
}

} // verus!
