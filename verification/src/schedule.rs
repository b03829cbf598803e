//! In which order a connection does its work, as mathematics.
//!
//! A connection does no I/O itself. Each time it says what is to be done next, and is then told
//! what came of it. This module says what it asks for and how it goes on.
use crate::candidate::{LocalCandidateView, RemoteCandidateView};
use crate::media::{muxed_packet, rtp_bytes};
use crate::messages::{
    AuthenticateView, ControlPacketView, ErrorView, FrameResultView, FrameView,
};
use crate::model::{
    lemma_server_packet_valid, ok_items, ConnectionView, IceCredentialsView, ReactionView,
    StepView,
};
use crate::user::User;
use vstd::prelude::*;

verus! {

/// What a connection is told.
pub enum EventView<E> {
    /// Something may have changed since the connection last had nothing to do.
    Wake,
    /// What was asked for is done.
    Ready,
    /// What was asked for cannot be done yet.
    Pending,
    /// What was asked for failed.
    Failed(E),
    /// What was asked for has come to its end.
    Closed,
    /// The time, in milliseconds.
    Time(u64),
    /// A candidate of the ICE stream.
    Candidate(LocalCandidateView),
    /// A packet from the server, and the time at which it came.
    ServerPacket(ControlPacketView<u32>, u64),
    /// A packet from the client.
    ClientPacket(ControlPacketView<()>),
    /// A packet from the media channel.
    MediaPacket(Seq<u8>),
    /// An ICE stream was made, and its DTLS handshake begun.
    IceCreated(IceCredentialsView),
}

/// What a connection asks for.
pub enum ActionView<E> {
    PollAgent,
    PollServerSink,
    SendToServer(ControlPacketView<()>),
    PollClientSink,
    SendToClient(ControlPacketView<u32>),
    PollMediaSink,
    SendMedia(Seq<u8>),
    FlushClient,
    FlushServer,
    FlushMedia,
    ReadClock,
    PollCandidate,
    PollHandshake,
    /// Makes room in the media channel for this many more sources.
    AllowSsrcs(u32),
    PollServer,
    PollClient,
    PollMedia,
    /// Makes an ICE stream, limited to a range of ports where one is given, and begins a DTLS
    /// handshake over it.
    CreateIce(Option<(u16, u16)>),
    SetRemoteCredentials { ufrag: Seq<char>, pwd: Seq<char> },
    AddRemoteCandidate(RemoteCandidateView),
    /// There is nothing to do until something changes.
    Wait,
    /// The connection is over.
    Finish(Result<(), ErrorView<E>>),
}

/// The stages of a round, in the order in which a connection goes through them.
#[derive(Clone, Copy)]
pub enum Stage {
    Agent,
    ToServer,
    ToClient,
    ToMedia,
    Queue,
    FlushClient,
    FlushServer,
    FlushMedia,
    Timeouts,
    Candidates,
    Handshake,
    FromServer,
    FromClient,
    FromMedia,
    Wait,
}

impl Stage {
    /// How many stages are left in the round.
    pub open spec fn left(self) -> nat {
        match self {
            Stage::Agent => 14,
            Stage::ToServer => 13,
            Stage::ToClient => 12,
            Stage::ToMedia => 11,
            Stage::Queue => 10,
            Stage::FlushClient => 9,
            Stage::FlushServer => 8,
            Stage::FlushMedia => 7,
            Stage::Timeouts => 6,
            Stage::Candidates => 5,
            Stage::Handshake => 4,
            Stage::FromServer => 3,
            Stage::FromClient => 2,
            Stage::FromMedia => 1,
            Stage::Wait => 0,
        }
    }
}

/// Where a stage leads: to something to be asked for, or on to another stage.
pub enum Turn<E> {
    Ask(StepView, ActionView<E>),
    Go(Stage),
}

/// Whether `session` is the lowest session whose user has been silent for too long at `now`.
pub open spec fn first_expired(sessions: Map<u32, User>, now: u64, session: u32) -> bool {
    &&& expired(sessions, now, session)
    &&& forall|s: u32| #[trigger] expired(sessions, now, s) ==> session <= s
}

/// Whether some user has been silent for too long at `now`.
pub open spec fn any_expired(sessions: Map<u32, User>, now: u64) -> bool {
    exists|s: u32| #[trigger] expired(sessions, now, s)
}

/// Whether the user of `session` has been silent for too long at `now`.
pub open spec fn expired(sessions: Map<u32, User>, now: u64, session: u32) -> bool {
    sessions.contains_key(session) && sessions[session].timeout is Some
        && sessions[session].timeout->0 <= now
}

impl<E> ConnectionView<E> {
    /// How many items are queued.
    pub open spec fn queued(self) -> nat {
        match self.stream_to_be_sent {
            Some(items) => items.len(),
            None => 0,
        }
    }

    /// The connection after the first queued item was taken out of the queue.
    pub open spec fn dequeued(self) -> ConnectionView<E> {
        match self.stream_to_be_sent {
            Some(items) if items.len() > 0 => {
                let rest = ConnectionView { stream_to_be_sent: Some(items.drop_first()), ..self };
                match items[0] {
                    Ok(FrameView::Server(packet)) => ConnectionView {
                        next_serverbound_frame: Some(packet),
                        ..rest
                    },
                    Ok(FrameView::Client(packet)) => ConnectionView {
                        next_clientbound_frame: Some(packet),
                        ..rest
                    },
                    Ok(FrameView::Rtp(packet)) => ConnectionView {
                        next_rtp_frame: Some(rtp_bytes(packet)),
                        ..rest
                    },
                    Err(_) => rest,
                }
            },
            _ => ConnectionView { stream_to_be_sent: None, ..self },
        }
    }

    /// What a stage does to the connection: media packets are dropped while the media channel is
    /// not up, and the queue moves on.
    pub open spec fn after_stage(self, stage: Stage) -> ConnectionView<E> {
        match stage {
            Stage::ToMedia if !self.dtls_srtp => ConnectionView { next_rtp_frame: None, ..self },
            Stage::Queue => self.dequeued(),
            _ => self,
        }
    }

    /// Where a stage leads.
    pub open spec fn turn(self, stage: Stage) -> Turn<E> {
        match stage {
            Stage::Agent => if self.ice {
                Turn::Ask(StepView::Agent, ActionView::PollAgent)
            } else {
                Turn::Go(Stage::ToServer)
            },
            Stage::ToServer => if self.next_serverbound_frame is Some {
                Turn::Ask(StepView::ServerSink, ActionView::PollServerSink)
            } else {
                Turn::Go(Stage::ToClient)
            },
            Stage::ToClient => if self.next_clientbound_frame is Some {
                Turn::Ask(StepView::ClientSink, ActionView::PollClientSink)
            } else {
                Turn::Go(Stage::ToMedia)
            },
            Stage::ToMedia => if self.next_rtp_frame is Some && self.dtls_srtp {
                Turn::Ask(StepView::MediaSink, ActionView::PollMediaSink)
            } else {
                Turn::Go(Stage::Queue)
            },
            Stage::Queue => match self.stream_to_be_sent {
                Some(items) if items.len() > 0 => match items[0] {
                    Ok(_) => Turn::Go(Stage::Agent),
                    Err(error) => Turn::Ask(StepView::Finished, ActionView::Finish(Err(error))),
                },
                _ => Turn::Go(Stage::FlushClient),
            },
            Stage::FlushClient => Turn::Ask(StepView::ClientFlush, ActionView::FlushClient),
            Stage::FlushServer => Turn::Ask(StepView::ServerFlush, ActionView::FlushServer),
            Stage::FlushMedia => if self.dtls_srtp {
                Turn::Ask(StepView::MediaFlush, ActionView::FlushMedia)
            } else {
                Turn::Go(Stage::Timeouts)
            },
            Stage::Timeouts => Turn::Ask(StepView::Clock, ActionView::ReadClock),
            Stage::Candidates => if self.ice && !self.candidate_gathering_done {
                Turn::Ask(StepView::Candidate, ActionView::PollCandidate)
            } else {
                Turn::Go(Stage::Handshake)
            },
            Stage::Handshake => if self.handshaking {
                Turn::Ask(StepView::Handshake, ActionView::PollHandshake)
            } else {
                Turn::Go(Stage::FromServer)
            },
            Stage::FromServer => Turn::Ask(StepView::ServerPacket, ActionView::PollServer),
            Stage::FromClient => Turn::Ask(StepView::ClientPacket, ActionView::PollClient),
            Stage::FromMedia => if self.dtls_srtp {
                Turn::Ask(StepView::MediaPacket, ActionView::PollMedia)
            } else {
                Turn::Go(Stage::Wait)
            },
            Stage::Wait => Turn::Ask(StepView::Idle, ActionView::Wait),
        }
    }

    /// Goes on from a stage until there is something to be asked for.
    pub open spec fn run(self, stage: Stage) -> (ConnectionView<E>, ActionView<E>)
        decreases self.queued(), stage.left(),
    {
        match self.turn(stage) {
            Turn::Ask(step, action) => (
                ConnectionView { step, ..self.after_stage(stage) },
                action,
            ),
            Turn::Go(next) => self.after_stage(stage).run(next),
        }
    }

    /// Queues items and starts a new round.
    pub open spec fn send(self, items: Seq<FrameResultView<E>>) -> (
        ConnectionView<E>,
        ActionView<E>,
    ) {
        (ConnectionView { stream_to_be_sent: Some(items), ..self }).run(Stage::Agent)
    }

    /// Asks for something.
    pub open spec fn ask(self, step: StepView, action: ActionView<E>) -> (
        ConnectionView<E>,
        ActionView<E>,
    ) {
        (ConnectionView { step, ..self }, action)
    }

    /// Ends the connection.
    pub open spec fn finish(self, result: Result<(), ErrorView<E>>) -> (
        ConnectionView<E>,
        ActionView<E>,
    ) {
        self.ask(StepView::Finished, ActionView::Finish(result))
    }

    /// Ends the connection over the failure of a transport.
    pub open spec fn fail(self, error: E) -> (ConnectionView<E>, ActionView<E>) {
        self.finish(Err(ErrorView::Outside(error)))
    }

    /// Whether an event answers what the connection asked for last.
    pub open spec fn expects(self, event: EventView<E>) -> bool {
        match self.step {
            StepView::Idle => event is Wake,
            StepView::Agent | StepView::HandshakeSsrcs | StepView::Reaction => event is Ready,
            StepView::ServerSend | StepView::ClientSend | StepView::MediaSend => event is Ready
                || event is Failed,
            StepView::ServerSink
            | StepView::ClientSink
            | StepView::MediaSink
            | StepView::ClientFlush
            | StepView::ServerFlush
            | StepView::MediaFlush
            | StepView::Handshake => event is Ready || event is Pending || event is Failed,
            StepView::Clock => event is Time,
            StepView::Candidate => event is Candidate || event is Pending || event is Closed,
            StepView::ServerPacket => event is ServerPacket || event is Pending || event is Failed
                || event is Closed,
            StepView::ClientPacket => event is ClientPacket || event is Pending || event is Failed
                || event is Closed,
            StepView::MediaPacket => event is MediaPacket || event is Pending || event is Failed
                || event is Closed,
            StepView::CreateIce(_) => event is IceCreated || event is Failed,
            StepView::Finished => false,
        }
    }

    /// Whether an event can be taken: it answers what the connection asked for last, and there
    /// is a source for the user that it may bring.
    pub open spec fn takes(self, event: EventView<E>) -> bool {
        &&& self.expects(event)
        &&& event is ServerPacket ==> self.has_source_for(event->ServerPacket_0)
    }

    /// What follows the end of a transmission by silence at `now`, if there is one to end.
    pub open spec fn on_time(self, now: u64) -> (ConnectionView<E>, ActionView<E>) {
        if exists|s: u32| first_expired(self.sessions, now, s) {
            let s = choose|s: u32| first_expired(self.sessions, now, s);
            let user = self.sessions[s];
            (ConnectionView {
                sessions: self.sessions.insert(s, user.inactive()),
                ..self
            }).send(ok_items(user.inactive_frames()))
        } else {
            self.run(Stage::Candidates)
        }
    }

    /// How the connection goes on when the sink that it asked about takes a packet.
    pub open spec fn on_sink_ready(self) -> (ConnectionView<E>, ActionView<E>) {
        match self.step {
            StepView::ServerSink => (ConnectionView { next_serverbound_frame: None, ..self }).ask(
                StepView::ServerSend,
                ActionView::SendToServer(self.next_serverbound_frame->0),
            ),
            StepView::ClientSink => (ConnectionView { next_clientbound_frame: None, ..self }).ask(
                StepView::ClientSend,
                ActionView::SendToClient(self.next_clientbound_frame->0),
            ),
            _ => (ConnectionView { next_rtp_frame: None, ..self }).ask(
                StepView::MediaSend,
                ActionView::SendMedia(self.next_rtp_frame->0),
            ),
        }
    }

    /// How the connection goes on when what it asked for is done.
    pub open spec fn on_ready(self) -> (ConnectionView<E>, ActionView<E>) {
        match self.step {
            StepView::Agent => self.run(Stage::ToServer),
            StepView::ServerSink | StepView::ClientSink | StepView::MediaSink => {
                self.on_sink_ready()
            },
            StepView::ServerSend => self.run(Stage::ToClient),
            StepView::ClientSend => self.run(Stage::ToMedia),
            StepView::MediaSend => self.run(Stage::Queue),
            StepView::ClientFlush => self.run(Stage::FlushServer),
            StepView::ServerFlush => self.run(Stage::FlushMedia),
            StepView::MediaFlush => self.run(Stage::Timeouts),
            StepView::Handshake => (ConnectionView {
                handshaking: false,
                dtls_srtp: true,
                ..self
            }).ask(StepView::HandshakeSsrcs, ActionView::AllowSsrcs(self.next_ssrc)),
            StepView::HandshakeSsrcs => self.run(Stage::FromServer),
            _ => self.run(Stage::Agent),
        }
    }

    /// How the connection goes on when what it asked for cannot be done yet. Only a sink for
    /// control packets holds everything up.
    pub open spec fn on_pending(self) -> (ConnectionView<E>, ActionView<E>) {
        match self.step {
            StepView::MediaSink => self.run(Stage::Queue),
            StepView::ClientFlush => self.run(Stage::FlushServer),
            StepView::ServerFlush => self.run(Stage::FlushMedia),
            StepView::MediaFlush => self.run(Stage::Timeouts),
            StepView::Candidate => self.run(Stage::Handshake),
            StepView::Handshake => self.run(Stage::FromServer),
            StepView::ServerPacket => self.run(Stage::FromClient),
            StepView::ClientPacket => self.run(Stage::FromMedia),
            _ => self.run(Stage::Wait),
        }
    }

    /// How the connection goes on when what it asked for failed. An ICE stream that cannot be
    /// made ends the connection once the login has been sent, anything else at once.
    pub open spec fn on_failed(self, error: E) -> (ConnectionView<E>, ActionView<E>) {
        match self.step {
            StepView::MediaSink => (ConnectionView { next_rtp_frame: None, ..self }).fail(error),
            StepView::CreateIce(login) => self.on_ice(login, Err(error)),
            _ => self.fail(error),
        }
    }

    /// How the connection goes on when what it asked for has come to its end.
    pub open spec fn on_closed(self) -> (ConnectionView<E>, ActionView<E>) {
        match self.step {
            StepView::Candidate => (ConnectionView {
                candidate_gathering_done: true,
                ..self
            }).run(Stage::Handshake),
            _ => self.finish(Ok(())),
        }
    }

    /// How the connection goes on with the ICE stream that it asked for, or without it: the
    /// login is sent either way.
    pub open spec fn on_ice(
        self,
        login: AuthenticateView,
        created: Result<IceCredentialsView, E>,
    ) -> (ConnectionView<E>, ActionView<E>) {
        self.after_ice(created).send(
            seq![Ok(FrameView::Server(ControlPacketView::Authenticate(login)))]
                + self.ice_items(created),
        )
    }

    /// How the connection goes on after an event.
    pub open spec fn on_event(self, event: EventView<E>) -> (ConnectionView<E>, ActionView<E>) {
        match event {
            EventView::Wake => self.run(Stage::Agent),
            EventView::Ready => self.on_ready(),
            EventView::Pending => self.on_pending(),
            EventView::Failed(error) => self.on_failed(error),
            EventView::Closed => self.on_closed(),
            EventView::Time(now) => self.on_time(now),
            EventView::Candidate(candidate) => self.send(self.candidate_items(candidate)),
            EventView::ServerPacket(packet, now) => {
                let outcome = self.on_server_packet(packet, now);
                if outcome.announce {
                    (ConnectionView {
                        stream_to_be_sent: Some(outcome.items),
                        ..outcome.connection
                    }).ask(StepView::Reaction, ActionView::AllowSsrcs(1))
                } else {
                    outcome.connection.send(outcome.items)
                }
            },
            EventView::ClientPacket(packet) => {
                let outcome = self.on_client_packet(packet);
                let idle = ConnectionView {
                    stream_to_be_sent: Some(Seq::empty()),
                    ..outcome.connection
                };
                match outcome.reaction {
                    ReactionView::Items(items) => outcome.connection.send(items),
                    ReactionView::CreateIce(login) => outcome.connection.ask(
                        StepView::CreateIce(login),
                        ActionView::CreateIce(self.config.ports()),
                    ),
                    ReactionView::SetRemoteCredentials { ufrag, pwd } => idle.ask(
                        StepView::Reaction,
                        ActionView::SetRemoteCredentials { ufrag, pwd },
                    ),
                    ReactionView::AddRemoteCandidate(candidate) => idle.ask(
                        StepView::Reaction,
                        ActionView::AddRemoteCandidate(candidate),
                    ),
                }
            },
            EventView::MediaPacket(bytes) => self.send(self.media_items(muxed_packet(bytes))),
            EventView::IceCreated(credentials) => self.on_ice(
                self.step->CreateIce_0,
                Ok(credentials),
            ),
        }
    }
}

/// What holds of a connection at all times, whatever it waits for.
pub open spec fn base_valid<E>(connection: ConnectionView<E>) -> bool {
    &&& connection.ssrcs_valid()
    &&& connection.users_valid()
    &&& connection.handshaking ==> connection.ice
    &&& connection.dtls_srtp ==> connection.ice
}

/// What holds when a connection comes to a stage.
pub open spec fn stage_valid<E>(connection: ConnectionView<E>, stage: Stage) -> bool {
    match stage {
        Stage::Agent | Stage::ToServer | Stage::Wait => true,
        Stage::ToClient => connection.next_serverbound_frame is None,
        Stage::ToMedia | Stage::Queue => connection.next_serverbound_frame is None
            && connection.next_clientbound_frame is None,
        _ => connection.all_sent(),
    }
}

/// Going on from a stage keeps the connection in order.
pub proof fn lemma_run_valid<E>(connection: ConnectionView<E>, stage: Stage)
    requires
        base_valid(connection),
        stage_valid(connection, stage),
    ensures
        connection.run(stage).0.valid(),
    decreases connection.queued(), stage.left(),
{
    match connection.turn(stage) {
        Turn::Ask(_, _) => {},
        Turn::Go(next) => {
            lemma_run_valid(connection.after_stage(stage), next);
        },
    }
}

/// What a connection waited for makes no difference to how it goes on from a stage.
pub proof fn lemma_run_ignores_step<E>(
    connection: ConnectionView<E>,
    step: StepView,
    stage: Stage,
)
    ensures
        (ConnectionView { step, ..connection }).run(stage) == connection.run(stage),
    decreases connection.queued(), stage.left(),
{
    let other = ConnectionView { step, ..connection };
    match connection.turn(stage) {
        Turn::Ask(_, _) => {},
        Turn::Go(next) => {
            assert(other.after_stage(stage) == (ConnectionView {
                step,
                ..connection.after_stage(stage)
            }));
            lemma_run_ignores_step(connection.after_stage(stage), step, next);
        },
    }
}

/// Queueing items and starting a new round keeps the connection in order.
pub proof fn lemma_send_valid<E>(connection: ConnectionView<E>, items: Seq<FrameResultView<E>>)
    requires
        base_valid(connection),
    ensures
        connection.send(items).0.valid(),
{
    lemma_run_valid(
        ConnectionView { stream_to_be_sent: Some(items), ..connection },
        Stage::Agent,
    );
}

/// A connection stays in order, whatever it is told, as long as it can take it.
pub proof fn law_connection_stays_valid<E>(connection: ConnectionView<E>, event: EventView<E>)
    requires
        connection.valid(),
        connection.takes(event),
    ensures
        connection.on_event(event).0.valid(),
{
    match event {
        EventView::Wake => lemma_run_valid(connection, Stage::Agent),
        EventView::Ready => lemma_ready_valid(connection),
        EventView::Pending => lemma_pending_valid(connection),
        EventView::Failed(error) => {
            if connection.step is CreateIce {
                lemma_send_valid(
                    connection,
                    seq![
                        Ok(
                            FrameView::Server(
                                ControlPacketView::Authenticate(connection.step->CreateIce_0),
                            ),
                        ),
                    ] + connection.ice_items(Err(error)),
                );
            }
        },
        EventView::Closed => {
            if connection.step is Candidate {
                lemma_run_valid(
                    ConnectionView { candidate_gathering_done: true, ..connection },
                    Stage::Handshake,
                );
            }
        },
        EventView::Time(now) => {
            if exists|s: u32| first_expired(connection.sessions, now, s) {
                let s = choose|s: u32| first_expired(connection.sessions, now, s);
                let user = connection.sessions[s];
                lemma_send_valid(
                    ConnectionView {
                        sessions: connection.sessions.insert(s, user.inactive()),
                        ..connection
                    },
                    ok_items(user.inactive_frames()),
                );
            } else {
                lemma_run_valid(connection, Stage::Candidates);
            }
        },
        EventView::Candidate(candidate) => lemma_send_valid(
            connection,
            connection.candidate_items(candidate),
        ),
        EventView::ServerPacket(packet, now) => {
            let outcome = connection.on_server_packet(packet, now);
            lemma_server_packet_valid(connection, packet, now);
            if !outcome.announce {
                lemma_send_valid(outcome.connection, outcome.items);
            }
        },
        EventView::ClientPacket(packet) => {
            let outcome = connection.on_client_packet(packet);
            if let ReactionView::Items(items) = outcome.reaction {
                lemma_send_valid(outcome.connection, items);
            }
        },
        EventView::MediaPacket(bytes) => lemma_send_valid(
            connection,
            connection.media_items(muxed_packet(bytes)),
        ),
        EventView::IceCreated(credentials) => {
            let created = Ok::<IceCredentialsView, E>(credentials);
            lemma_send_valid(
                connection.after_ice(created),
                seq![
                    Ok(
                        FrameView::Server(
                            ControlPacketView::Authenticate(connection.step->CreateIce_0),
                        ),
                    ),
                ] + connection.ice_items(created),
            );
        },
    }
}

/// Going on after something was done keeps the connection in order.
proof fn lemma_ready_valid<E>(connection: ConnectionView<E>)
    requires
        connection.valid(),
        connection.expects(EventView::Ready),
    ensures
        connection.on_ready().0.valid(),
{
    match connection.step {
        StepView::Agent => lemma_run_valid(connection, Stage::ToServer),
        StepView::ServerSend => lemma_run_valid(connection, Stage::ToClient),
        StepView::ClientSend => lemma_run_valid(connection, Stage::ToMedia),
        StepView::MediaSend => lemma_run_valid(connection, Stage::Queue),
        StepView::ClientFlush => lemma_run_valid(connection, Stage::FlushServer),
        StepView::ServerFlush => lemma_run_valid(connection, Stage::FlushMedia),
        StepView::MediaFlush => lemma_run_valid(connection, Stage::Timeouts),
        StepView::HandshakeSsrcs => lemma_run_valid(connection, Stage::FromServer),
        StepView::Reaction => lemma_run_valid(connection, Stage::Agent),
        _ => {},
    }
}

/// Going on although something cannot be done yet keeps the connection in order.
proof fn lemma_pending_valid<E>(connection: ConnectionView<E>)
    requires
        connection.valid(),
        connection.expects(EventView::Pending),
    ensures
        connection.on_pending().0.valid(),
{
    match connection.step {
        StepView::MediaSink => lemma_run_valid(connection, Stage::Queue),
        StepView::ClientFlush => lemma_run_valid(connection, Stage::FlushServer),
        StepView::ServerFlush => lemma_run_valid(connection, Stage::FlushMedia),
        StepView::MediaFlush => lemma_run_valid(connection, Stage::Timeouts),
        StepView::Candidate => lemma_run_valid(connection, Stage::Handshake),
        StepView::Handshake => lemma_run_valid(connection, Stage::FromServer),
        StepView::ServerPacket => lemma_run_valid(connection, Stage::FromClient),
        StepView::ClientPacket => lemma_run_valid(connection, Stage::FromMedia),
        _ => lemma_run_valid(connection, Stage::Wait),
    }
}

} // verus!
