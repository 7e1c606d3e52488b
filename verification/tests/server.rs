use frame_mapper::mappings::StreamPerTrack;
use frame_mapper::server::{
    found, Locals, ProducerAction, ProducerEvent, ProducerState, RegistryError, ServeOutcome,
    ServerAction, ServerEvent, ServerFailure, ServerState, SessionAction, SessionEvent,
    SessionState,
};
use frame_mapper::video::VideoStreamer;
use moq_transport::serve::{Tracks, TracksReader, TracksWriter};

fn namespace(name: &str) -> (TracksWriter, TracksReader) {
    let (writer, _, reader) = Tracks::new(name.to_string()).produce();
    (writer, reader)
}

#[test]
fn registry_routes_registered_namespaces() {
    let (_live_writer, live) = namespace("livestream");
    let (_other_writer, other) = namespace("other");
    let mut locals = Locals::new();
    assert!(locals.route(&"livestream".to_string()).is_none());
    assert_eq!(locals.register(live), Ok(()));
    assert_eq!(locals.register(other), Ok(()));
    let routed = locals.route(&"livestream".to_string()).expect("registered");
    assert_eq!(routed.namespace, "livestream");
    let routed = locals.route(&"other".to_string()).expect("registered");
    assert_eq!(routed.namespace, "other");
    assert!(locals.route(&"live".to_string()).is_none());
    assert!(locals.route(&"".to_string()).is_none());
}

#[test]
fn registry_takes_a_namespace_once() {
    let (_writer, reader) = namespace("livestream");
    let (_second_writer, second) = namespace("livestream");
    let mut locals = Locals::new();
    assert_eq!(locals.register(reader.clone()), Ok(()));
    assert_eq!(locals.register(reader), Err(RegistryError::Duplicate));
    assert_eq!(locals.register(second), Err(RegistryError::Duplicate));
    assert!(locals.route(&"livestream".to_string()).is_some());
}

#[test]
fn subscription_to_a_published_track_is_found() {
    let (writer, reader) = namespace("livestream");
    let mut locals = Locals::new();
    assert_eq!(locals.register(reader), Ok(()));
    let _strategy = StreamPerTrack::new(writer).ok().expect("tracks");
    let track = locals.subscribe(&"livestream".to_string(), &"video".to_string());
    let track = track.ok().expect("the video track");
    assert_eq!(track.namespace, "livestream");
    assert_eq!(track.name, "video");
    let track = locals.subscribe(&"livestream".to_string(), &"init".to_string());
    assert_eq!(track.ok().expect("the init track").name, "init");
}

#[test]
fn subscription_to_an_unknown_track_is_not_found() {
    let (writer, reader) = namespace("livestream");
    let mut locals = Locals::new();
    assert_eq!(locals.register(reader), Ok(()));
    let _strategy = StreamPerTrack::new(writer).ok().expect("tracks");
    let missing = locals.subscribe(&"livestream".to_string(), &"audio".to_string());
    assert!(matches!(missing, Err(RegistryError::NotFound)));
    let missing = locals.subscribe(&"elsewhere".to_string(), &"video".to_string());
    assert!(matches!(missing, Err(RegistryError::NotFound)));
    // The registry serves the next subscription as before.
    assert!(locals.subscribe(&"livestream".to_string(), &"video".to_string()).is_ok());
    let missing = locals.subscribe(&"livestream".to_string(), &"audio".to_string());
    assert!(matches!(missing, Err(RegistryError::NotFound)));
}

#[test]
fn no_track_is_not_found() {
    assert!(matches!(found(None), Err(RegistryError::NotFound)));
    let (writer, mut reader) = namespace("livestream");
    let _strategy = StreamPerTrack::new(writer).ok().expect("tracks");
    let track = found(reader.subscribe("video")).ok().expect("the track");
    assert_eq!(track.name, "video");
}

#[test]
fn server_listens_until_the_listener_ends() {
    let state = ServerState::Idle;
    let (state, action) = state.on(ServerEvent::Listener { present: true });
    assert_eq!((state, action), (ServerState::Listening, ServerAction::Wait));
    let (state, action) = state.on(ServerEvent::Connection);
    assert_eq!((state, action), (ServerState::Listening, ServerAction::StartSession));
    let (state, action) = state.on(ServerEvent::SessionEnded { failed: true });
    assert_eq!((state, action), (ServerState::Listening, ServerAction::Wait));
    let (state, action) = state.on(ServerEvent::SessionEnded { failed: false });
    assert_eq!((state, action), (ServerState::Listening, ServerAction::Wait));
    let (state, action) = state.on(ServerEvent::Connection);
    assert_eq!((state, action), (ServerState::Listening, ServerAction::StartSession));
    let (state, action) = state.on(ServerEvent::ListenerClosed);
    assert_eq!(state, ServerState::Stopped(ServerFailure::AcceptFailed));
    assert_eq!(action, ServerAction::Fail(ServerFailure::AcceptFailed));
    let (state, action) = state.on(ServerEvent::Connection);
    assert_eq!(state, ServerState::Stopped(ServerFailure::AcceptFailed));
    assert_eq!(action, ServerAction::Fail(ServerFailure::AcceptFailed));
}

#[test]
fn server_without_a_certificate_does_not_listen() {
    let (state, action) = ServerState::Idle.on(ServerEvent::Listener { present: false });
    assert_eq!(state, ServerState::Stopped(ServerFailure::MissingCertificate));
    assert_eq!(action, ServerAction::Fail(ServerFailure::MissingCertificate));
    let (state, action) = ServerState::Idle.on(ServerEvent::Connection);
    assert_eq!((state, action), (ServerState::Idle, ServerAction::Wait));
}

#[test]
fn failed_handshake_drops_the_connection() {
    let (state, action) = SessionState::Handshaking.on(SessionEvent::HandshakeFailed);
    assert_eq!((state, action), (SessionState::Closed, SessionAction::Close { warn: true }));
    let (state, action) = state.on(SessionEvent::Established);
    assert_eq!((state, action), (SessionState::Closed, SessionAction::Wait));
}

#[test]
fn first_of_driver_and_producer_ends_the_session() {
    let (state, action) = SessionState::Handshaking.on(SessionEvent::Established);
    assert_eq!((state, action), (SessionState::Running, SessionAction::Run));
    assert_eq!(
        state.on(SessionEvent::DriverEnded { failed: true }),
        (SessionState::Closed, SessionAction::Close { warn: true })
    );
    assert_eq!(
        state.on(SessionEvent::DriverEnded { failed: false }),
        (SessionState::Closed, SessionAction::Close { warn: false })
    );
    assert_eq!(
        state.on(SessionEvent::ProducerEnded { failed: false }),
        (SessionState::Closed, SessionAction::Close { warn: false })
    );
    assert_eq!(
        state.on(SessionEvent::ProducerEnded { failed: true }),
        (SessionState::Closed, SessionAction::Close { warn: true })
    );
    assert_eq!(
        SessionState::Handshaking.on(SessionEvent::DriverEnded { failed: true }),
        (SessionState::Handshaking, SessionAction::Wait)
    );
}

#[test]
fn subscription_that_is_not_found_leaves_the_session_alive() {
    let state = ProducerState::Open;
    let (state, action) = state.on(ProducerEvent::Subscription);
    assert_eq!((state, action), (ProducerState::Open, ProducerAction::Serve));
    let (state, action) =
        state.on(ProducerEvent::ServeEnded { outcome: ServeOutcome::NotFound, idle: true });
    assert_eq!((state, action), (ProducerState::Open, ProducerAction::Wait { warn: true }));
    let (state, action) = state.on(ProducerEvent::Subscription);
    assert_eq!((state, action), (ProducerState::Open, ProducerAction::Serve));
    let (state, action) =
        state.on(ProducerEvent::ServeEnded { outcome: ServeOutcome::Served, idle: true });
    assert_eq!((state, action), (ProducerState::Open, ProducerAction::Wait { warn: false }));
    let (state, action) =
        state.on(ProducerEvent::ServeEnded { outcome: ServeOutcome::Failed, idle: false });
    assert_eq!((state, action), (ProducerState::Open, ProducerAction::Wait { warn: true }));
}

#[test]
fn producer_ends_after_the_last_task() {
    let (state, action) = ProducerState::Open.on(ProducerEvent::PublisherClosed { idle: true });
    assert_eq!((state, action), (ProducerState::Finished, ProducerAction::Finish { warn: false }));

    let (state, action) = ProducerState::Open.on(ProducerEvent::PublisherClosed { idle: false });
    assert_eq!((state, action), (ProducerState::Draining, ProducerAction::Wait { warn: false }));
    let (state, action) = state.on(ProducerEvent::Subscription);
    assert_eq!((state, action), (ProducerState::Draining, ProducerAction::Wait { warn: false }));
    let (state, action) =
        state.on(ProducerEvent::ServeEnded { outcome: ServeOutcome::NotFound, idle: false });
    assert_eq!((state, action), (ProducerState::Draining, ProducerAction::Wait { warn: true }));
    let (state, action) =
        state.on(ProducerEvent::ServeEnded { outcome: ServeOutcome::Served, idle: true });
    assert_eq!((state, action), (ProducerState::Finished, ProducerAction::Finish { warn: false }));
    let (state, action) = state.on(ProducerEvent::Subscription);
    assert_eq!((state, action), (ProducerState::Finished, ProducerAction::Finish { warn: false }));
}
