//! What a connection is and does, as mathematics: its state, and how packets, the passing of
//! time and the transports around it move it on.
use crate::candidate::{
    local_candidate_content, remote_candidate, LocalCandidateView, RemoteCandidateView,
};
use crate::config::Config;
use crate::identity::{fingerprint_text, IdentityView};
use crate::media::MuxedPacketView;
use crate::messages::{
    text_or_empty, AuthenticateView, ControlPacketView, ErrorView, FrameResultView, FrameView,
    IceCandidateView, UserStateView, VoicePacketPayloadView, VoicePacketView, WebRTCView,
};
use crate::user::{User, SAMPLES_PER_NUMBER};
use vstd::prelude::*;

verus! {

/// What a connection has asked for and is now waiting to hear about.
pub enum StepView {
    /// Nothing: the connection is to be woken when anything has changed.
    Idle,
    /// The ICE agent to be driven on.
    Agent,
    /// Whether the server's sink takes a packet.
    ServerSink,
    /// A packet to be sent to the server.
    ServerSend,
    /// Whether the client's sink takes a packet.
    ClientSink,
    /// A packet to be sent to the client.
    ClientSend,
    /// Whether the media sink takes a packet.
    MediaSink,
    /// A packet to be sent over the media channel.
    MediaSend,
    /// The client's sink to be flushed.
    ClientFlush,
    /// The server's sink to be flushed.
    ServerFlush,
    /// The media sink to be flushed.
    MediaFlush,
    /// The time.
    Clock,
    /// The next candidate of the ICE stream.
    Candidate,
    /// Whether the DTLS handshake is through.
    Handshake,
    /// Room for the sources known so far, in a media channel that has just come up.
    HandshakeSsrcs,
    /// The next packet from the server.
    ServerPacket,
    /// The next packet from the client.
    ClientPacket,
    /// The next packet from the media channel.
    MediaPacket,
    /// An ICE stream, for the login that is to be sent to the server.
    CreateIce(AuthenticateView),
    /// Something done on behalf of a packet.
    Reaction,
    /// The connection is over.
    Finished,
}

/// The state of a connection.
#[verifier::ext_equal]
pub struct ConnectionView<E> {
    pub config: Config,
    pub identity: IdentityView,
    /// The packet to be sent to the client next.
    pub next_clientbound_frame: Option<ControlPacketView<u32>>,
    /// The packet to be sent to the server next.
    pub next_serverbound_frame: Option<ControlPacketView<()>>,
    /// The bytes to be sent over the media channel next.
    pub next_rtp_frame: Option<Seq<u8>>,
    /// What is to be sent after that.
    pub stream_to_be_sent: Option<Seq<FrameResultView<E>>>,
    /// Whether there is an ICE stream.
    pub ice: bool,
    /// Whether the ICE stream has announced all of its candidates.
    pub candidate_gathering_done: bool,
    /// Whether a DTLS handshake is under way.
    pub handshaking: bool,
    /// Whether the media channel is up.
    pub dtls_srtp: bool,
    /// Whom the client is talking to, if it is talking.
    pub target: Option<u8>,
    /// The lowest source that was never given to a user.
    pub next_ssrc: u32,
    /// The sources of users who have left.
    pub free_ssrcs: Seq<u32>,
    /// The users, by session.
    pub sessions: Map<u32, User>,
    pub step: StepView,
}

/// Frames as items to be sent.
pub open spec fn ok_items<E>(frames: Seq<FrameView>) -> Seq<FrameResultView<E>> {
    frames.map_values(|frame: FrameView| Ok::<FrameView, ErrorView<E>>(frame))
}

/// The voice in a packet, as far as the client can get it: Opus only.
pub open spec fn opus_voice(packet: VoicePacketView<u32>) -> Option<(u8, u32, u64, Seq<u8>, bool)> {
    match packet {
        VoicePacketView::Audio {
            target,
            session_id,
            seq_num,
            payload: VoicePacketPayloadView::Opus(data, last),
            position_info: _,
        } => Some((target, session_id, seq_num, data, last)),
        _ => None,
    }
}

/// What a packet from the server comes to.
pub struct ServerOutcome<E> {
    pub connection: ConnectionView<E>,
    pub items: Seq<FrameResultView<E>>,
    /// Whether the media channel is to be told of one more source.
    pub announce: bool,
}

/// What the connection does about a packet from the client.
pub enum ReactionView<E> {
    /// It sends something.
    Items(Seq<FrameResultView<E>>),
    /// It wants an ICE stream, and then sends the login.
    CreateIce(AuthenticateView),
    /// It hands the client's credentials to the ICE stream.
    SetRemoteCredentials { ufrag: Seq<char>, pwd: Seq<char> },
    /// It hands a candidate of the client's to the ICE stream.
    AddRemoteCandidate(RemoteCandidateView),
}

/// What a packet from the client comes to.
pub struct ClientOutcome<E> {
    pub connection: ConnectionView<E>,
    pub reaction: ReactionView<E>,
}

/// The names by which an ICE stream lets the other side in.
pub struct IceCredentialsView {
    pub ufrag: Seq<char>,
    pub pwd: Seq<char>,
}

impl<E> ConnectionView<E> {
    /// A connection on which nothing has happened yet.
    pub open spec fn fresh(config: Config, identity: IdentityView) -> ConnectionView<E> {
        ConnectionView {
            config,
            identity,
            next_clientbound_frame: None,
            next_serverbound_frame: None,
            next_rtp_frame: None,
            stream_to_be_sent: None,
            ice: false,
            candidate_gathering_done: false,
            handshaking: false,
            dtls_srtp: false,
            target: None,
            next_ssrc: 1,
            free_ssrcs: Seq::empty(),
            sessions: Map::empty(),
            step: StepView::Idle,
        }
    }

    /// Whether the sources are in order: each user has one of its own, none is both in use and
    /// free, none is free twice, and the next new one is beyond them all.
    pub open spec fn ssrcs_valid(self) -> bool {
        &&& 1 <= self.next_ssrc
        &&& forall|s: u32| #[trigger] self.sessions.contains_key(s) ==> 1 <= self.sessions[s].ssrc
            < self.next_ssrc
        &&& forall|i: int|
            0 <= i < self.free_ssrcs.len() ==> 1 <= #[trigger] self.free_ssrcs[i] < self.next_ssrc
        &&& forall|s: u32, t: u32|
            s != t && #[trigger] self.sessions.contains_key(s)
                && #[trigger] self.sessions.contains_key(t) ==> self.sessions[s].ssrc
                != self.sessions[t].ssrc
        &&& forall|i: int, j: int|
            0 <= i < j < self.free_ssrcs.len() ==> #[trigger] self.free_ssrcs[i]
                != #[trigger] self.free_ssrcs[j]
        &&& forall|s: u32, i: int|
            #[trigger] self.sessions.contains_key(s) && 0 <= i < self.free_ssrcs.len()
                ==> self.sessions[s].ssrc != #[trigger] self.free_ssrcs[i]
    }

    /// Whether a user has this source.
    pub open spec fn source_in_use(self, ssrc: u32) -> bool {
        exists|s: u32| #[trigger] self.sessions.contains_key(s) && self.sessions[s].ssrc == ssrc
    }

    /// Whether no source is lost: each one that was ever given out belongs to a user or is free,
    /// and there are as many of them as there are users and free sources.
    pub open spec fn no_source_lost(self) -> bool {
        &&& forall|ssrc: u32|
            1 <= ssrc < self.next_ssrc ==> #[trigger] self.source_in_use(ssrc)
                || self.free_ssrcs.contains(ssrc)
        &&& self.sessions.dom().finite()
        &&& self.sessions.len() + self.free_ssrcs.len() == self.next_ssrc - 1
    }

    /// Whether each user is in order and filed under its session.
    pub open spec fn users_valid(self) -> bool {
        forall|s: u32| #[trigger]
            self.sessions.contains_key(s) ==> self.sessions[s].session == s
                && self.sessions[s].valid()
    }

    /// What holds of a connection at all times.
    pub open spec fn valid(self) -> bool {
        &&& self.ssrcs_valid()
        &&& self.users_valid()
        &&& self.step_valid()
    }

    /// Whether a source is left for one more user.
    pub open spec fn ssrc_left(self) -> bool {
        self.free_ssrcs.len() > 0 || self.next_ssrc < u32::MAX
    }

    /// Whether a packet from the server can be taken: one that brings a new user needs a source
    /// for it.
    pub open spec fn has_source_for(self, packet: ControlPacketView<u32>) -> bool {
        match packet {
            ControlPacketView::UserState(message) => {
                ||| !self.ice
                ||| self.sessions.contains_key(session_or_zero(message.session))
                ||| self.ssrc_left()
            },
            _ => true,
        }
    }

    /// The source that the next user gets: the one freed last, or else a new one.
    pub open spec fn ssrc_for_next(self) -> u32 {
        if self.free_ssrcs.len() > 0 {
            self.free_ssrcs.last()
        } else {
            self.next_ssrc
        }
    }

    /// The connection after a source was given to a user.
    pub open spec fn with_user(self, session_id: u32) -> ConnectionView<E> {
        ConnectionView {
            free_ssrcs: if self.free_ssrcs.len() > 0 {
                self.free_ssrcs.drop_last()
            } else {
                self.free_ssrcs
            },
            next_ssrc: if self.free_ssrcs.len() > 0 {
                self.next_ssrc
            } else {
                (self.next_ssrc + 1) as u32
            },
            sessions: self.sessions.insert(
                session_id,
                User::fresh(session_id, self.ssrc_for_next()),
            ),
            ..self
        }
    }

    /// The connection after a user has left.
    pub open spec fn without_user(self, session_id: u32) -> ConnectionView<E> {
        if self.sessions.contains_key(session_id) {
            ConnectionView {
                free_ssrcs: self.free_ssrcs.push(self.sessions[session_id].ssrc),
                sessions: self.sessions.remove(session_id),
                ..self
            }
        } else {
            self
        }
    }

    /// The connection after a voice packet from the server.
    pub open spec fn after_voice(
        self,
        packet: VoicePacketView<u32>,
        now: u64,
    ) -> ConnectionView<E> {
        match opus_voice(packet) {
            Some((target, session_id, seq_num, data, last)) if self.sessions.contains_key(
                session_id,
            ) => ConnectionView {
                sessions: self.sessions.insert(
                    session_id,
                    self.sessions[session_id].voice(target, seq_num, data, last, now).user,
                ),
                ..self
            },
            _ => self,
        }
    }

    /// What a voice packet from the server makes the connection send.
    pub open spec fn voice_items(
        self,
        packet: VoicePacketView<u32>,
        now: u64,
    ) -> Seq<FrameResultView<E>> {
        match opus_voice(packet) {
            Some((target, session_id, seq_num, data, last)) if self.sessions.contains_key(
                session_id,
            ) => ok_items(
                self.sessions[session_id].voice(target, seq_num, data, last, now).frames,
            ),
            _ => Seq::empty(),
        }
    }

    /// What comes of a packet from the server. Without WebRTC the client gets it as it is.
    pub open spec fn on_server_packet(
        self,
        packet: ControlPacketView<u32>,
        now: u64,
    ) -> ServerOutcome<E> {
        let forwarded = ServerOutcome {
            connection: self,
            items: seq![Ok(FrameView::Client(packet))],
            announce: false,
        };
        if !self.ice {
            forwarded
        } else {
            match packet {
                ControlPacketView::UDPTunnel(voice) => ServerOutcome {
                    connection: self.after_voice(voice, now),
                    items: self.voice_items(voice, now),
                    announce: false,
                },
                ControlPacketView::UserState(message) => {
                    let session_id = session_or_zero(message.session);
                    if self.sessions.contains_key(session_id) {
                        forwarded
                    } else {
                        ServerOutcome {
                            connection: self.with_user(session_id),
                            items: seq![
                                Ok(
                                    FrameView::Client(
                                        ControlPacketView::UserState(
                                            UserStateView {
                                                ssrc: Some(self.ssrc_for_next()),
                                                ..message
                                            },
                                        ),
                                    ),
                                ),
                            ],
                            announce: self.dtls_srtp && self.free_ssrcs.len() == 0,
                        }
                    }
                },
                ControlPacketView::UserRemove(message) => ServerOutcome {
                    connection: self.without_user(session_or_zero(message.session)),
                    ..forwarded
                },
                _ => forwarded,
            }
        }
    }

    /// What comes of a packet from the client.
    pub open spec fn on_client_packet(self, packet: ControlPacketView<()>) -> ClientOutcome<E> {
        match packet {
            ControlPacketView::Authenticate(message) => ClientOutcome {
                connection: self,
                reaction: if message.wants_webrtc() {
                    ReactionView::CreateIce(message.without_webrtc())
                } else {
                    ReactionView::Items(seq![Ok(FrameView::Server(packet))])
                },
            },
            ControlPacketView::WebRTC(message) => ClientOutcome {
                connection: self,
                reaction: {
                    let ufrag = text_or_empty(message.ice_ufrag);
                    let pwd = text_or_empty(message.ice_pwd);
                    if self.ice && !ufrag.contains('\0') && !pwd.contains('\0') {
                        ReactionView::SetRemoteCredentials { ufrag, pwd }
                    } else {
                        ReactionView::Items(Seq::empty())
                    }
                },
            },
            ControlPacketView::IceCandidate(message) => ClientOutcome {
                connection: self,
                reaction: if self.ice {
                    match remote_candidate(message.content) {
                        Ok(candidate) => ReactionView::AddRemoteCandidate(candidate),
                        Err(text) => ReactionView::Items(
                            seq![Err(ErrorView::IceCandidate(text))],
                        ),
                    }
                } else {
                    ReactionView::Items(Seq::empty())
                },
            },
            ControlPacketView::TalkingState(message) => ClientOutcome {
                connection: ConnectionView {
                    target: match message.target {
                        Some(target) => Some((target % 256) as u8),
                        None => None,
                    },
                    ..self
                },
                reaction: ReactionView::Items(Seq::empty()),
            },
            _ => ClientOutcome {
                connection: self,
                reaction: ReactionView::Items(seq![Ok(FrameView::Server(packet))]),
            },
        }
    }

    /// What a packet from the media channel makes the connection send: the client's voice goes
    /// to the server while the client is talking, anything else goes nowhere.
    pub open spec fn media_items(self, packet: MuxedPacketView) -> Seq<FrameResultView<E>> {
        match (packet, self.target) {
            (MuxedPacketView::Rtp(rtp), Some(target)) => seq![
                Ok(
                    FrameView::Server(
                        ControlPacketView::UDPTunnel(
                            VoicePacketView::Audio {
                                target,
                                session_id: (),
                                seq_num: (rtp.timestamp / SAMPLES_PER_NUMBER) as u64,
                                payload: VoicePacketPayloadView::Opus(rtp.payload, false),
                                position_info: None,
                            },
                        ),
                    ),
                ),
            ],
            _ => Seq::empty(),
        }
    }

    /// The connection after an ICE stream was made, or could not be made.
    pub open spec fn after_ice(self, created: Result<IceCredentialsView, E>) -> ConnectionView<E> {
        match created {
            Ok(_) => ConnectionView { ice: true, handshaking: true, ..self },
            Err(_) => self,
        }
    }

    /// What a new ICE stream makes the connection send: the client is told how to reach it and
    /// which certificate to expect.
    pub open spec fn ice_items(
        self,
        created: Result<IceCredentialsView, E>,
    ) -> Seq<FrameResultView<E>> {
        match created {
            Ok(credentials) => seq![
                Ok(
                    FrameView::Client(
                        ControlPacketView::WebRTC(
                            WebRTCView {
                                dtls_fingerprint: Some(fingerprint_text(self.identity.digest)),
                                ice_pwd: Some(credentials.pwd),
                                ice_ufrag: Some(credentials.ufrag),
                                raw: None,
                            },
                        ),
                    ),
                ),
            ],
            Err(error) => seq![Err(ErrorView::Outside(error))],
        }
    }

    /// What a candidate of the ICE stream makes the connection send.
    pub open spec fn candidate_items(
        self,
        candidate: LocalCandidateView,
    ) -> Seq<FrameResultView<E>> {
        seq![
            Ok(
                FrameView::Client(
                    ControlPacketView::IceCandidate(
                        IceCandidateView {
                            content: local_candidate_content(self.config, candidate),
                            raw: None,
                        },
                    ),
                ),
            ),
        ]
    }

    /// Whether nothing waits to be sent, but for a media packet that was held up.
    pub open spec fn all_sent(self) -> bool {
        &&& self.next_serverbound_frame is None
        &&& self.next_clientbound_frame is None
        &&& self.stream_to_be_sent is None
    }

    /// Whether the connection is in a state in which it waits for what it is waiting for.
    pub open spec fn step_valid(self) -> bool {
        &&& self.handshaking ==> self.ice
        &&& self.dtls_srtp ==> self.ice
        &&& match self.step {
            StepView::Idle | StepView::Finished | StepView::Reaction => true,
            StepView::Agent => self.ice,
            StepView::ServerSink => self.next_serverbound_frame is Some,
            StepView::ServerSend => self.next_serverbound_frame is None,
            StepView::ClientSink => self.next_serverbound_frame is None
                && self.next_clientbound_frame is Some,
            StepView::ClientSend => self.next_serverbound_frame is None
                && self.next_clientbound_frame is None,
            StepView::MediaSink => self.next_serverbound_frame is None
                && self.next_clientbound_frame is None && self.next_rtp_frame is Some
                && self.dtls_srtp,
            StepView::MediaSend => self.next_serverbound_frame is None
                && self.next_clientbound_frame is None && self.next_rtp_frame is None
                && self.dtls_srtp,
            StepView::ClientFlush | StepView::ServerFlush | StepView::Clock => self.all_sent(),
            StepView::ServerPacket | StepView::ClientPacket => self.all_sent(),
            StepView::MediaFlush | StepView::MediaPacket | StepView::HandshakeSsrcs => {
                self.all_sent() && self.dtls_srtp
            },
            StepView::Candidate => self.all_sent() && self.ice && !self.candidate_gathering_done,
            StepView::Handshake => self.all_sent() && self.handshaking,
            StepView::CreateIce(login) => self.all_sent() && login == login.without_webrtc(),
        }
    }
}

/// The session that a message names, zero where it names none.
pub open spec fn session_or_zero(session: Option<u32>) -> u32 {
    match session {
        Some(s) => s,
        None => 0,
    }
}

/// A voice packet keeps the connection in order.
pub proof fn lemma_after_voice_valid<E>(
    connection: ConnectionView<E>,
    packet: VoicePacketView<u32>,
    now: u64,
)
    requires
        connection.valid(),
    ensures
        connection.after_voice(packet, now).valid(),
{
}

/// Giving a source to a user keeps the connection in order.
pub proof fn lemma_with_user_valid<E>(connection: ConnectionView<E>, session_id: u32)
    requires
        connection.valid(),
        connection.ssrc_left(),
    ensures
        connection.with_user(session_id).valid(),
{
}

/// Taking back the source of a user keeps the connection in order.
pub proof fn lemma_without_user_valid<E>(connection: ConnectionView<E>, session_id: u32)
    requires
        connection.valid(),
    ensures
        connection.without_user(session_id).valid(),
{
}

/// A packet from the server keeps the connection in order, as long as there is a source for a
/// new user.
pub proof fn lemma_server_packet_valid<E>(
    connection: ConnectionView<E>,
    packet: ControlPacketView<u32>,
    now: u64,
)
    requires
        connection.valid(),
        connection.has_source_for(packet),
    ensures
        connection.on_server_packet(packet, now).connection.valid(),
{
    match packet {
        ControlPacketView::UDPTunnel(voice) => lemma_after_voice_valid(connection, voice, now),
        ControlPacketView::UserState(message) => if connection.ssrc_left() {
            lemma_with_user_valid(connection, session_or_zero(message.session));
        },
        ControlPacketView::UserRemove(message) => lemma_without_user_valid(
            connection,
            session_or_zero(message.session),
        ),
        _ => {},
    }
}

} // verus!
