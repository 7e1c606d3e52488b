//! The session server: the registry of published namespaces, and the
//! decisions of its loops.
//!
//! The loops themselves wait on the network. What they decide on each event
//! is here: which connection becomes a session, what ends a session, and
//! which subscription is served. A failure stays where it happened: one
//! session cannot stop the server, one subscription cannot stop a session.
use moq_transport::serve::{TrackReader, TracksReader};
use vstd::prelude::*;

use crate::transport::{namespace_of, second_handle, tracks_namespace};

verus! {

/// Why the registry refused.
#[derive(Debug, Clone, Copy, PartialEq, Eq, Structural)]
pub enum RegistryError {
    /// The namespace is registered already.
    Duplicate,
    /// No track is published under the namespace and name asked for.
    NotFound,
}

/// One registered namespace.
struct Local {
    namespace: String,
    tracks: TracksReader,
}

/// The namespaces that this process publishes. It is filled once, before the
/// first session starts, and only read from then on.
pub struct Locals {
    lookup: Vec<Local>,
}

impl Locals {
    /// No namespace stands twice in the registry, and each stands under its
    /// own name.
    #[verifier::type_invariant]
    spec fn wf(self) -> bool {
        &&& forall|i: int|
            0 <= i < self.lookup.len() ==> (#[trigger] self.lookup[i]).namespace@ == namespace_of(
                self.lookup[i].tracks,
            )
        &&& forall|i: int, j: int|
            0 <= i < j < self.lookup.len() ==> (#[trigger] self.lookup[i]).namespace@ != (
            #[trigger] self.lookup[j]).namespace@
    }

    /// The registered namespaces, in the order of their registration.
    pub closed spec fn namespaces(self) -> Seq<Seq<char>> {
        self.lookup@.map_values(|local: Local| local.namespace@)
    }

    /// Whether the namespace is registered.
    pub open spec fn serves(self, namespace: Seq<char>) -> bool {
        self.namespaces().contains(namespace)
    }

    /// An empty registry.
    pub fn new() -> (locals: Locals)
        ensures
            locals.namespaces() == Seq::<Seq<char>>::empty(),
    {
        let locals = Locals { lookup: Vec::new() };
        assert(locals.namespaces() =~= Seq::<Seq<char>>::empty());
        locals
    }

    /// The place of the namespace in the registry, if it has one.
    fn position(&self, namespace: &String) -> (at: Option<usize>)
        ensures
            match at {
                Some(i) => i < self.lookup.len() && self.lookup[i as int].namespace@
                    == namespace@,
                None => forall|k: int|
                    0 <= k < self.lookup.len() ==> (#[trigger] self.lookup[k]).namespace@
                        != namespace@,
            },
            at is Some <==> self.serves(namespace@),
    {
        let mut i: usize = 0;
        while i < self.lookup.len()
            invariant
                i <= self.lookup.len(),
                forall|k: int| 0 <= k < i ==> (#[trigger] self.lookup[k]).namespace@ != namespace@,
            decreases self.lookup.len() - i,
        {
            if self.lookup[i].namespace == *namespace {
                assert(self.namespaces()[i as int] == namespace@);
                return Some(i);
            }
            i = i + 1;
        }
        None
    }

    /// Registers the namespace of `tracks`. A namespace is registered once.
    pub fn register(&mut self, tracks: TracksReader) -> (r: Result<(), RegistryError>)
        ensures
            old(self).serves(namespace_of(tracks)) ==> r == Err::<(), RegistryError>(
                RegistryError::Duplicate,
            ) && final(self).namespaces() == old(self).namespaces(),
            !old(self).serves(namespace_of(tracks)) ==> r is Ok && final(self).namespaces()
                == old(self).namespaces().push(namespace_of(tracks)),
    {
        proof {
            use_type_invariant(&*self);
        }
        let namespace = tracks_namespace(&tracks);
        match self.position(&namespace) {
            Some(_) => Err(RegistryError::Duplicate),
            None => {
                let ghost before = self.lookup@;
                let mut taken = Locals { lookup: Vec::new() };
                std::mem::swap(self, &mut taken);
                let mut lookup = taken.lookup;
                lookup.push(Local { namespace, tracks });
                assert(forall|i: int| 0 <= i < before.len() ==> lookup[i] == before[i]);
                *self = Locals { lookup };
                assert(self.namespaces() =~= old(self).namespaces().push(namespace_of(tracks)));
                Ok(())
            },
        }
    }

    /// A handle on the tracks of the namespace, if it is registered.
    pub fn route(&self, namespace: &String) -> (r: Option<TracksReader>)
        ensures
            r is Some <==> self.serves(namespace@),
            r matches Some(tracks) ==> namespace_of(tracks) == namespace@,
    {
        proof {
            use_type_invariant(self);
        }
        match self.position(namespace) {
            Some(i) => Some(second_handle(&self.lookup[i].tracks)),
            None => None,
        }
    }

    /// The track that a subscription asks for. A namespace that is not
    /// registered has no track. Within a registered one the transport
    /// decides.
    pub fn subscribe(&self, namespace: &String, name: &String) -> (r: Result<
        TrackReader,
        RegistryError,
    >)
        ensures
            !self.serves(namespace@) ==> r is Err,
            r matches Err(e) ==> e == RegistryError::NotFound,
    {
        match self.route(namespace) {
            Some(tracks) => {
                let mut tracks = tracks;
                found(tracks.subscribe(name.as_str()))
            },
            None => Err(RegistryError::NotFound),
        }
    }
}

/// The track that the namespace handed out, or that there is none.
pub fn found(track: Option<TrackReader>) -> (r: Result<TrackReader, RegistryError>)
    ensures
        match track {
            Some(t) => r == Ok::<TrackReader, RegistryError>(t),
            None => r == Err::<TrackReader, RegistryError>(RegistryError::NotFound),
        },
{
    match track {
        Some(t) => Ok(t),
        None => Err(RegistryError::NotFound),
    }
}

/// Why the server stopped.
#[derive(Debug, Clone, Copy, PartialEq, Eq, Structural)]
pub enum ServerFailure {
    /// The endpoint has no listener, for want of a certificate.
    MissingCertificate,
    /// The listener hands over no more connections.
    AcceptFailed,
}

/// Where the accept loop stands.
#[derive(Debug, Clone, Copy, PartialEq, Eq, Structural)]
pub enum ServerState {
    /// Not listening yet.
    Idle,
    /// Accepting connections and running the sessions made of them.
    Listening,
    /// Stopped for good.
    Stopped(ServerFailure),
}

/// What the accept loop can meet.
#[derive(Debug, Clone, Copy, PartialEq, Eq, Structural)]
pub enum ServerEvent {
    /// The endpoint was asked for its listener.
    Listener { present: bool },
    /// The listener handed over a connection.
    Connection,
    /// The listener ended.
    ListenerClosed,
    /// A session task ended, well or not.
    SessionEnded { failed: bool },
}

/// What the accept loop does next.
#[derive(Debug, Clone, Copy, PartialEq, Eq, Structural)]
pub enum ServerAction {
    /// Wait for the next event.
    Wait,
    /// Start a session task on the connection, then wait.
    StartSession,
    /// Leave the loop with the failure.
    Fail(ServerFailure),
}

impl ServerState {
    /// The state after `event`, and what to do.
    pub open spec fn spec_on(self, event: ServerEvent) -> (ServerState, ServerAction) {
        match self {
            ServerState::Stopped(failure) => (self, ServerAction::Fail(failure)),
            ServerState::Idle => match event {
                ServerEvent::Listener { present: true } => (
                    ServerState::Listening,
                    ServerAction::Wait,
                ),
                ServerEvent::Listener { present: false } => (
                    ServerState::Stopped(ServerFailure::MissingCertificate),
                    ServerAction::Fail(ServerFailure::MissingCertificate),
                ),
                _ => (self, ServerAction::Wait),
            },
            ServerState::Listening => match event {
                ServerEvent::Connection => (self, ServerAction::StartSession),
                ServerEvent::ListenerClosed => (
                    ServerState::Stopped(ServerFailure::AcceptFailed),
                    ServerAction::Fail(ServerFailure::AcceptFailed),
                ),
                _ => (self, ServerAction::Wait),
            },
        }
    }

    /// The state after `event`, and what to do. Only the listener can stop
    /// the server; the end of a session, whatever its cause, cannot.
    pub fn on(self, event: ServerEvent) -> (r: (ServerState, ServerAction))
        ensures
            r == self.spec_on(event),
    {
        match self {
            ServerState::Stopped(failure) => (self, ServerAction::Fail(failure)),
            ServerState::Idle => match event {
                ServerEvent::Listener { present } => if present {
                    (ServerState::Listening, ServerAction::Wait)
                } else {
                    (
                        ServerState::Stopped(ServerFailure::MissingCertificate),
                        ServerAction::Fail(ServerFailure::MissingCertificate),
                    )
                },
                _ => (self, ServerAction::Wait),
            },
            ServerState::Listening => match event {
                ServerEvent::Connection => (self, ServerAction::StartSession),
                ServerEvent::ListenerClosed => (
                    ServerState::Stopped(ServerFailure::AcceptFailed),
                    ServerAction::Fail(ServerFailure::AcceptFailed),
                ),
                _ => (self, ServerAction::Wait),
            },
        }
    }
}

/// Where one session stands.
#[derive(Debug, Clone, Copy, PartialEq, Eq, Structural)]
pub enum SessionState {
    /// The handshake of the transport session is under way.
    Handshaking,
    /// The session's driver and its producer loop run side by side.
    Running,
    /// The session is over.
    Closed,
}

/// What a session task can meet.
#[derive(Debug, Clone, Copy, PartialEq, Eq, Structural)]
pub enum SessionEvent {
    /// The handshake failed.
    HandshakeFailed,
    /// The handshake is done.
    Established,
    /// The session's driver ended.
    DriverEnded { failed: bool },
    /// The producer loop ended.
    ProducerEnded { failed: bool },
}

/// What a session task does next.
#[derive(Debug, Clone, Copy, PartialEq, Eq, Structural)]
pub enum SessionAction {
    /// Nothing.
    Wait,
    /// Run the driver and the producer loop side by side.
    Run,
    /// Drop the connection and end the task; `warn` asks for a line in the
    /// log. The task itself ends well.
    Close { warn: bool },
}

impl SessionState {
    /// The state after `event`, and what to do.
    pub open spec fn spec_on(self, event: SessionEvent) -> (SessionState, SessionAction) {
        match (self, event) {
            (SessionState::Handshaking, SessionEvent::HandshakeFailed) => (
                SessionState::Closed,
                SessionAction::Close { warn: true },
            ),
            (SessionState::Handshaking, SessionEvent::Established) => (
                SessionState::Running,
                SessionAction::Run,
            ),
            (SessionState::Running, SessionEvent::DriverEnded { failed }) => (
                SessionState::Closed,
                SessionAction::Close { warn: failed },
            ),
            (SessionState::Running, SessionEvent::ProducerEnded { failed }) => (
                SessionState::Closed,
                SessionAction::Close { warn: failed },
            ),
            _ => (self, SessionAction::Wait),
        }
    }

    /// The state after `event`, and what to do. A failed handshake drops the
    /// connection. Of the driver and the producer loop the first to end,
    /// well or not, ends the session.
    pub fn on(self, event: SessionEvent) -> (r: (SessionState, SessionAction))
        ensures
            r == self.spec_on(event),
    {
        match self {
            SessionState::Handshaking => match event {
                SessionEvent::HandshakeFailed => (
                    SessionState::Closed,
                    SessionAction::Close { warn: true },
                ),
                SessionEvent::Established => (SessionState::Running, SessionAction::Run),
                _ => (self, SessionAction::Wait),
            },
            SessionState::Running => match event {
                SessionEvent::DriverEnded { failed } => (
                    SessionState::Closed,
                    SessionAction::Close { warn: failed },
                ),
                SessionEvent::ProducerEnded { failed } => (
                    SessionState::Closed,
                    SessionAction::Close { warn: failed },
                ),
                _ => (self, SessionAction::Wait),
            },
            SessionState::Closed => (self, SessionAction::Wait),
        }
    }
}

/// Where the producer loop of a session stands.
#[derive(Debug, Clone, Copy, PartialEq, Eq, Structural)]
pub enum ProducerState {
    /// Subscriptions may still arrive.
    Open,
    /// No subscription will arrive any more; tasks may still be serving.
    Draining,
    /// The loop is over.
    Finished,
}

/// How the serving of one subscription ended.
#[derive(Debug, Clone, Copy, PartialEq, Eq, Structural)]
pub enum ServeOutcome {
    /// The track was served until it or the subscription ended.
    Served,
    /// No such track is published; the subscription was refused.
    NotFound,
    /// The transport failed while the track was served.
    Failed,
}

/// What the producer loop can meet. `idle` tells whether no serving task is
/// left at that moment.
#[derive(Debug, Clone, Copy, PartialEq, Eq, Structural)]
pub enum ProducerEvent {
    /// A peer asks for a track.
    Subscription,
    /// A serving task ended.
    ServeEnded { outcome: ServeOutcome, idle: bool },
    /// The session hands over no more subscriptions.
    PublisherClosed { idle: bool },
}

/// What the producer loop does next.
#[derive(Debug, Clone, Copy, PartialEq, Eq, Structural)]
pub enum ProducerAction {
    /// Wait for the next event; `warn` asks for a line in the log.
    Wait { warn: bool },
    /// Start a serving task for the subscription, then wait.
    Serve,
    /// Leave the loop; it ends well.
    Finish { warn: bool },
}

impl ProducerState {
    /// The state after `event`, and what to do.
    pub open spec fn spec_on(self, event: ProducerEvent) -> (ProducerState, ProducerAction) {
        match self {
            ProducerState::Finished => (self, ProducerAction::Finish { warn: false }),
            _ => match event {
                ProducerEvent::Subscription => if self == ProducerState::Open {
                    (self, ProducerAction::Serve)
                } else {
                    (self, ProducerAction::Wait { warn: false })
                },
                ProducerEvent::ServeEnded { outcome, idle } => if self == ProducerState::Draining
                    && idle {
                    (
                        ProducerState::Finished,
                        ProducerAction::Finish { warn: outcome != ServeOutcome::Served },
                    )
                } else {
                    (self, ProducerAction::Wait { warn: outcome != ServeOutcome::Served })
                },
                ProducerEvent::PublisherClosed { idle } => if idle {
                    (ProducerState::Finished, ProducerAction::Finish { warn: false })
                } else {
                    (ProducerState::Draining, ProducerAction::Wait { warn: false })
                },
            },
        }
    }

    /// The state after `event`, and what to do. Every subscription gets a
    /// task of its own. The loop ends when the session hands over no more
    /// subscriptions and the last task has ended; no failure of a task ends
    /// it.
    pub fn on(self, event: ProducerEvent) -> (r: (ProducerState, ProducerAction))
        ensures
            r == self.spec_on(event),
    {
        match self {
            ProducerState::Finished => (self, ProducerAction::Finish { warn: false }),
            _ => match event {
                ProducerEvent::Subscription => match self {
                    ProducerState::Open => (self, ProducerAction::Serve),
                    _ => (self, ProducerAction::Wait { warn: false }),
                },
                ProducerEvent::ServeEnded { outcome, idle } => {
                    let warn = outcome != ServeOutcome::Served;
                    match self {
                        ProducerState::Draining => if idle {
                            (ProducerState::Finished, ProducerAction::Finish { warn })
                        } else {
                            (self, ProducerAction::Wait { warn })
                        },
                        _ => (self, ProducerAction::Wait { warn }),
                    }
                },
                ProducerEvent::PublisherClosed { idle } => if idle {
                    (ProducerState::Finished, ProducerAction::Finish { warn: false })
                } else {
                    (ProducerState::Draining, ProducerAction::Wait { warn: false })
                },
            },
        }
    }
}

/// No end of a session stops a server that is listening.
pub proof fn lemma_session_end_is_contained(failed: bool)
    ensures
        ServerState::Listening.spec_on(ServerEvent::SessionEnded { failed }) == (
            ServerState::Listening,
            ServerAction::Wait,
        ),
{
}

/// A subscription that fails, for a track that is not there or for any
/// other reason, leaves a session that takes subscriptions as it was: the
/// next subscription is served like the one before.
pub proof fn lemma_failed_subscription_is_contained(outcome: ServeOutcome, idle: bool)
    ensures
        ProducerState::Open.spec_on(ProducerEvent::ServeEnded { outcome, idle }) == (
            ProducerState::Open,
            ProducerAction::Wait { warn: outcome != ServeOutcome::Served },
        ),
        ProducerState::Open.spec_on(ProducerEvent::Subscription) == (
            ProducerState::Open,
            ProducerAction::Serve,
        ),
{
}

} // verus!
