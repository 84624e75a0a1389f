use ble_session::{
    keep_received, Backend, Filter, Platform, PlatformEvent, PlatformPeripheralHandle,
    PlatformRequest, ScanDecision, ScanError, Session, SessionConfig, EVENT_BUS_CAPACITY,
};

fn session() -> Session {
    SessionConfig::new().start().1
}

fn asked(decision: ScanDecision) -> PlatformRequest {
    match decision {
        ScanDecision::Ask(request) => request,
        other => panic!("{:?}", other),
    }
}

fn started() -> Session {
    let mut session = session();
    let request = asked(session.start_scanning(Filter::new()));
    assert_eq!(session.complete::<()>(request, Ok(())), Ok(()));
    session
}

#[test]
fn default_backend_is_the_systems() {
    assert_eq!(SessionConfig::new().start().0, Platform::Winrt);
    let mut config = SessionConfig::new();
    config.set_backend(Backend::Fake).set_backend(Backend::SystemDefault);
    assert_eq!(Session::start(&config).0, Platform::Winrt);
}

#[test]
fn backend_can_be_chosen() {
    let mut config = SessionConfig::new();
    config.set_backend(Backend::Fake);
    assert_eq!(config.start().0, Platform::Fake);
}

#[test]
fn start_asks_the_platform() {
    assert_eq!(
        session().start_scanning(Filter::new()),
        ScanDecision::Ask(PlatformRequest::StartScanning(Filter::new()))
    );
}

#[test]
fn second_start_is_refused() {
    assert_eq!(
        started().start_scanning(Filter::new()),
        ScanDecision::Refuse(ScanError::AlreadyScanning)
    );
}

#[test]
fn stop_without_a_scan_is_refused() {
    assert_eq!(session().stop_scanning(), ScanDecision::Refuse(ScanError::NotScanning));
}

#[test]
fn stop_takes_back_start() {
    let mut session = started();
    let request = asked(session.stop_scanning());
    assert_eq!(request, PlatformRequest::StopScanning);
    assert_eq!(session.complete::<()>(request, Ok(())), Ok(()));
    assert_eq!(session.stop_scanning(), ScanDecision::Refuse(ScanError::NotScanning));
    asked(session.start_scanning(Filter::new()));
}

#[test]
fn failed_start_does_not_scan() {
    let mut session = session();
    let request = asked(session.start_scanning(Filter::new()));
    assert_eq!(session.complete(request, Err("radio is off")), Err("radio is off"));
    assert_eq!(session.stop_scanning(), ScanDecision::Refuse(ScanError::NotScanning));
    asked(session.start_scanning(Filter::new()));
}

#[test]
fn failed_stop_goes_on_scanning() {
    let mut session = started();
    let request = asked(session.stop_scanning());
    assert_eq!(session.complete(request, Err("busy")), Err("busy"));
    assert_eq!(
        session.start_scanning(Filter::new()),
        ScanDecision::Refuse(ScanError::AlreadyScanning)
    );
    asked(session.stop_scanning());
}

#[test]
fn concurrent_starts_ask_the_platform_once() {
    let mut session = session();
    let request = asked(session.start_scanning(Filter::new()));
    for _ in 0..3 {
        assert_eq!(session.start_scanning(Filter::new()), ScanDecision::Wait);
    }
    assert_eq!(session.complete::<()>(request, Ok(())), Ok(()));
    for _ in 0..3 {
        assert_eq!(
            session.start_scanning(Filter::new()),
            ScanDecision::Refuse(ScanError::AlreadyScanning)
        );
    }
}

#[test]
fn requests_wait_for_an_answer_and_alternate() {
    let mut session = session();
    for _ in 0..2 {
        let start = asked(session.start_scanning(Filter::new()));
        assert_eq!(session.stop_scanning(), ScanDecision::Wait);
        assert_eq!(session.complete::<()>(start, Ok(())), Ok(()));
        let stop = asked(session.stop_scanning());
        assert_eq!(session.start_scanning(Filter::new()), ScanDecision::Wait);
        assert_eq!(session.stop_scanning(), ScanDecision::Wait);
        assert_eq!(session.complete::<()>(stop, Ok(())), Ok(()));
    }
}

#[test]
fn a_start_that_was_turned_down_lets_the_next_one_through() {
    let mut session = session();
    let first = asked(session.start_scanning(Filter::new()));
    assert_eq!(session.start_scanning(Filter::new()), ScanDecision::Wait);
    assert_eq!(session.complete(first, Err(())), Err(()));
    let second = asked(session.start_scanning(Filter::new()));
    assert_eq!(session.complete::<()>(second, Ok(())), Ok(()));
    asked(session.stop_scanning());
}

#[test]
fn an_answer_to_nothing_pending_does_not_matter() {
    let mut session = session();
    let start = PlatformRequest::StartScanning(Filter::new());
    assert_eq!(session.complete::<()>(start, Ok(())), Ok(()));
    assert_eq!(session.stop_scanning(), ScanDecision::Refuse(ScanError::NotScanning));
    let request = asked(session.start_scanning(Filter::new()));
    assert_eq!(session.complete::<()>(PlatformRequest::StopScanning, Ok(())), Ok(()));
    assert_eq!(session.stop_scanning(), ScanDecision::Wait);
    assert_eq!(session.complete::<()>(request, Ok(())), Ok(()));
    asked(session.stop_scanning());
}

#[test]
fn connecting_leaves_scanning_alone() {
    let handle = PlatformPeripheralHandle(3);
    let mut session = started();
    let request = session.connect_peripheral(handle);
    assert_eq!(request, PlatformRequest::ConnectPeripheral(handle));
    assert_eq!(session.complete::<()>(request, Ok(())), Ok(()));
    assert_eq!(
        session.start_scanning(Filter::new()),
        ScanDecision::Refuse(ScanError::AlreadyScanning)
    );
    // Only the platform's own report makes the peripheral connected.
    let state = session.get_peripheral_state(handle);
    assert!(!session.read(state).is_connected);
}

#[test]
fn reports_leave_scanning_alone() {
    let mut session = started();
    session.handle_platform_event(PlatformEvent::PeripheralConnected {
        peripheral_handle: PlatformPeripheralHandle(3),
    });
    asked(session.stop_scanning());
}

#[test]
fn refusals_have_messages() {
    assert_eq!(ScanError::AlreadyScanning.message(), "Already scanning");
    assert_eq!(ScanError::NotScanning.message(), "Not currently scanning");
}

#[test]
fn only_events_are_received() {
    assert_eq!(keep_received::<u8, &str>(Ok(4)), Some(4));
    assert_eq!(keep_received::<u8, &str>(Err("lagged")), None);
    assert_eq!(EVENT_BUS_CAPACITY, 16);
}
