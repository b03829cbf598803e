//! A client's connection to the server, with WebRTC added on the way.
use crate::candidate::{describe_local_candidate, read_remote_candidate, LocalCandidate};
use crate::config::Config;
use crate::events::{Action, Event, IceCredentials, Reaction};
use crate::identity::{CertificateError, Identity};
use crate::media::{muxed_packet, read_packet, write_packet, MuxedPacket};
use crate::messages::{
    bytes_view, item_view, items_view, text_or_empty, text_view, Authenticate, AuthenticateView,
    ControlPacket, ControlPacketView, Error, ErrorView, Frame, FrameResult, FrameResultView,
    FrameView, IceCandidate, VoicePacket, VoicePacketPayload, WebRTC,
};
use crate::model::{
    lemma_after_voice_valid, lemma_with_user_valid, lemma_without_user_valid, ok_items,
    ConnectionView, IceCredentialsView, StepView,
};
use crate::schedule::{
    any_expired, expired, first_expired, law_connection_stays_valid, lemma_run_ignores_step,
    ActionView, EventView, Stage, Turn,
};
use crate::user::{frames_view, User, SAMPLES_PER_NUMBER};
use std::collections::BTreeMap;
use vstd::prelude::*;
use vstd::std_specs::cmp::OrdSpec;
use vstd::std_specs::iter::IteratorSpec;

verus! {

/// What a connection has asked for and is now waiting to hear about.
enum Step {
    Idle,
    Agent,
    ServerSink,
    ServerSend,
    ClientSink,
    ClientSend,
    MediaSink,
    MediaSend,
    ClientFlush,
    ServerFlush,
    MediaFlush,
    Clock,
    Candidate,
    Handshake,
    HandshakeSsrcs,
    ServerPacket,
    ClientPacket,
    MediaPacket,
    CreateIce(Authenticate),
    Reaction,
    Finished,
}

impl View for Step {
    type V = StepView;

    closed spec fn view(&self) -> StepView {
        match *self {
            Step::Idle => StepView::Idle,
            Step::Agent => StepView::Agent,
            Step::ServerSink => StepView::ServerSink,
            Step::ServerSend => StepView::ServerSend,
            Step::ClientSink => StepView::ClientSink,
            Step::ClientSend => StepView::ClientSend,
            Step::MediaSink => StepView::MediaSink,
            Step::MediaSend => StepView::MediaSend,
            Step::ClientFlush => StepView::ClientFlush,
            Step::ServerFlush => StepView::ServerFlush,
            Step::MediaFlush => StepView::MediaFlush,
            Step::Clock => StepView::Clock,
            Step::Candidate => StepView::Candidate,
            Step::Handshake => StepView::Handshake,
            Step::HandshakeSsrcs => StepView::HandshakeSsrcs,
            Step::ServerPacket => StepView::ServerPacket,
            Step::ClientPacket => StepView::ClientPacket,
            Step::MediaPacket => StepView::MediaPacket,
            Step::CreateIce(login) => StepView::CreateIce(login@),
            Step::Reaction => StepView::Reaction,
            Step::Finished => StepView::Finished,
        }
    }
}

/// A client's connection to the server. `E` is what the transports report when they fail.
pub struct Connection<E> {
    config: Config,
    identity: Identity,
    next_clientbound_frame: Option<ControlPacket<u32>>,
    next_serverbound_frame: Option<ControlPacket<()>>,
    next_rtp_frame: Option<Vec<u8>>,
    stream_to_be_sent: Option<Vec<FrameResult<E>>>,
    ice: bool,
    candidate_gathering_done: bool,
    handshaking: bool,
    dtls_srtp: bool,
    target: Option<u8>,
    next_ssrc: u32,
    free_ssrcs: Vec<u32>,
    sessions: BTreeMap<u32, User>,
    step: Step,
}

/// The packet that waits to be sent, if there is one.
pub open spec fn waiting_view<S>(packet: Option<ControlPacket<S>>) -> Option<ControlPacketView<S>> {
    match packet {
        Some(p) => Some(p@),
        None => None,
    }
}

/// The items that are queued, if there is a queue.
pub open spec fn queue_view<E>(queue: Option<Vec<FrameResult<E>>>) -> Option<
    Seq<FrameResultView<E>>,
> {
    match queue {
        Some(items) => Some(items_view(items@)),
        None => None,
    }
}

impl<E> View for Connection<E> {
    type V = ConnectionView<E>;

    closed spec fn view(&self) -> ConnectionView<E> {
        ConnectionView {
            config: self.config,
            identity: self.identity@,
            next_clientbound_frame: waiting_view(self.next_clientbound_frame),
            next_serverbound_frame: waiting_view(self.next_serverbound_frame),
            next_rtp_frame: bytes_view(self.next_rtp_frame),
            stream_to_be_sent: queue_view(self.stream_to_be_sent),
            ice: self.ice,
            candidate_gathering_done: self.candidate_gathering_done,
            handshaking: self.handshaking,
            dtls_srtp: self.dtls_srtp,
            target: self.target,
            next_ssrc: self.next_ssrc,
            free_ssrcs: self.free_ssrcs@,
            sessions: self.sessions@,
            step: self.step@,
        }
    }
}

impl<E> Connection<E> {
    /// Makes a connection with a fresh key and certificate. Whether these can be made rests with
    /// `openssl`; [`Connection::from_made`] says what becomes of either outcome.
    pub fn new(config: Config) -> (connection: Result<Connection<E>, CertificateError>)
        ensures
            connection matches Ok(c) ==> {
                &&& c@ == ConnectionView::<E>::fresh(config, c@.identity)
                &&& c@.valid()
                &&& c@.identity.valid()
                &&& c@.identity.made_well()
            },
    {
        Connection::from_made(config, Identity::generate())
    }

    /// Makes a connection with the key and certificate that were made, or passes on the reason
    /// why they were not made.
    pub fn from_made(config: Config, made: Result<Identity, CertificateError>) -> (connection:
        Result<Connection<E>, CertificateError>)
        ensures
            match made {
                Ok(identity) => {
                    &&& connection is Ok
                    &&& connection->Ok_0@ == ConnectionView::<E>::fresh(config, identity@)
                    &&& connection->Ok_0@.valid()
                },
                Err(error) => connection is Err && connection->Err_0 == error,
            },
    {
        match made {
            Ok(identity) => Ok(Connection::with_identity(config, identity)),
            Err(error) => Err(error),
        }
    }

    /// Makes a connection with a given key and certificate.
    pub fn with_identity(config: Config, identity: Identity) -> (connection: Connection<E>)
        ensures
            connection@ == ConnectionView::<E>::fresh(config, identity@),
            connection@.valid(),
    {
        let connection = Connection {
            config,
            identity,
            next_clientbound_frame: None,
            next_serverbound_frame: None,
            next_rtp_frame: None,
            stream_to_be_sent: None,
            ice: false,
            candidate_gathering_done: false,
            handshaking: false,
            dtls_srtp: false,
            target: None,
            next_ssrc: 1,
            free_ssrcs: Vec::new(),
            sessions: BTreeMap::new(),
            step: Step::Idle,
        };
        assert(connection@ =~= ConnectionView::<E>::fresh(config, identity@));
        connection
    }

    /// The key and the certificate of this connection.
    pub fn identity(&self) -> (identity: &Identity)
        ensures
            identity@ == self@.identity,
    {
        &self.identity
    }

    /// Whether the client gets its voice over WebRTC.
    pub fn supports_webrtc(&self) -> (supports: bool)
        ensures
            supports == self@.ice,
    {
        self.ice
    }

    /// Gives a source to the user of a session, and returns it, together with whether the media
    /// channel is to be told of one more source.
    pub fn allocate_ssrc(&mut self, session_id: u32) -> (allocated: (u32, bool))
        requires
            old(self)@.valid(),
            old(self)@.ssrc_left(),
        ensures
            final(self)@ == old(self)@.with_user(session_id),
            final(self)@.valid(),
            allocated.0 == old(self)@.ssrc_for_next(),
            allocated.1 == (old(self)@.dtls_srtp && old(self)@.free_ssrcs.len() == 0),
    {
        let (ssrc, announce) = match self.free_ssrcs.pop() {
            Some(ssrc) => (ssrc, false),
            None => {
                let ssrc: u32 = self.next_ssrc;
                self.next_ssrc = self.next_ssrc + 1;
                (ssrc, self.dtls_srtp)
            },
        };
        self.sessions.insert(session_id, User::new(session_id, ssrc));
        assert(self@ =~= old(self)@.with_user(session_id));
        proof {
            lemma_with_user_valid(old(self)@, session_id);
        }
        (ssrc, announce)
    }

    /// Takes back the source of a user who leaves.
    pub fn free_ssrc(&mut self, session_id: u32)
        requires
            old(self)@.valid(),
        ensures
            final(self)@ == old(self)@.without_user(session_id),
            final(self)@.valid(),
    {
        if let Some(user) = self.sessions.remove(&session_id) {
            self.free_ssrcs.push(user.ssrc);
        }
        assert(self@ =~= old(self)@.without_user(session_id));
        proof {
            lemma_without_user_valid(old(self)@, session_id);
        }
    }

    /// Takes a voice packet from the server, heard at `now`, and returns what is to be sent.
    pub fn handle_voice_packet(&mut self, packet: VoicePacket<u32>, now: u64) -> (items: Vec<
        FrameResult<E>,
    >)
        requires
            old(self)@.valid(),
        ensures
            final(self)@ == old(self)@.after_voice(packet@, now),
            final(self)@.valid(),
            items_view(items@) == old(self)@.voice_items(packet@, now),
    {
        let mut items: Vec<FrameResult<E>> = Vec::new();
        assert(items_view(items@) =~= Seq::empty());
        let (target, session_id, seq_num, opus_data, last_bit) = match packet {
            VoicePacket::Audio {
                target,
                session_id,
                seq_num,
                payload: VoicePacketPayload::Opus(data, last_bit),
                position_info: _,
            } => (target, session_id, seq_num, data, last_bit),
            _ => return items,
        };
        let mut user: User = match self.sessions.get(&session_id) {
            Some(user) => *user,
            None => return items,
        };
        let frames = user.handle_voice(target, seq_num, opus_data, last_bit, now);
        self.sessions.insert(session_id, user);
        assert(self@ =~= old(self)@.after_voice(packet@, now));
        proof {
            lemma_after_voice_valid(old(self)@, packet@, now);
        }
        into_items(frames)
    }

    /// Takes a packet from the server, received at `now`. Returns what is to be sent, and whether
    /// the media channel is to be told of one more source.
    pub fn process_packet_from_server(&mut self, packet: ControlPacket<u32>, now: u64) -> (outcome:
        (Vec<FrameResult<E>>, bool))
        requires
            old(self)@.valid(),
            old(self)@.has_source_for(packet@),
        ensures
            final(self)@ == old(self)@.on_server_packet(packet@, now).connection,
            final(self)@.valid(),
            items_view(outcome.0@) == old(self)@.on_server_packet(packet@, now).items,
            outcome.1 == old(self)@.on_server_packet(packet@, now).announce,
    {
        if !self.supports_webrtc() {
            return (one_item(Frame::Client(packet)), false);
        }
        match packet {
            ControlPacket::UDPTunnel(voice) => (self.handle_voice_packet(voice, now), false),
            ControlPacket::UserState(message) => {
                let mut message = message;
                let session_id: u32 = message.session.unwrap_or(0);
                let mut announce = false;
                if !self.sessions.contains_key(&session_id) {
                    let (ssrc, fresh) = self.allocate_ssrc(session_id);
                    message.ssrc = Some(ssrc);
                    announce = fresh;
                }
                (one_item(Frame::Client(ControlPacket::UserState(message))), announce)
            },
            ControlPacket::UserRemove(message) => {
                self.free_ssrc(message.session.unwrap_or(0));
                (one_item(Frame::Client(ControlPacket::UserRemove(message))), false)
            },
            other => (one_item(Frame::Client(other)), false),
        }
    }

    /// Takes a packet from the client, and returns what is to be done about it.
    pub fn process_packet_from_client(&mut self, packet: ControlPacket<()>) -> (reaction: Reaction<
        E,
    >)
        requires
            old(self)@.valid(),
        ensures
            final(self)@ == old(self)@.on_client_packet(packet@).connection,
            final(self)@.valid(),
            reaction@ == old(self)@.on_client_packet(packet@).reaction,
    {
        match packet {
            ControlPacket::Authenticate(message) => {
                if message.webrtc.unwrap_or(false) {
                    let mut message = message;
                    // The proxy provides WebRTC, so the server is not asked for it, but it has to
                    // send Opus.
                    message.webrtc = None;
                    message.opus = Some(true);
                    Reaction::CreateIce(message)
                } else {
                    Reaction::Items(one_item(Frame::Server(ControlPacket::Authenticate(message))))
                }
            },
            ControlPacket::WebRTC(message) => {
                if self.ice {
                    let ufrag = take_text(message.ice_ufrag);
                    let pwd = take_text(message.ice_pwd);
                    if !has_nul(ufrag.as_str()) && !has_nul(pwd.as_str()) {
                        return Reaction::SetRemoteCredentials { ufrag, pwd };
                    }
                }
                Reaction::Items(no_items())
            },
            ControlPacket::IceCandidate(message) => {
                if self.ice {
                    match read_remote_candidate(message.content.as_str()) {
                        Ok(candidate) => Reaction::AddRemoteCandidate(candidate),
                        Err(text) => Reaction::Items(one_error(Error::IceCandidate(text))),
                    }
                } else {
                    Reaction::Items(no_items())
                }
            },
            ControlPacket::TalkingState(message) => {
                self.target =
                match message.target {
                    Some(target) => {
                        assert(target as u8 == target % 256) by (bit_vector);
                        Some(#[verifier::truncate] (target as u8))
                    },
                    None => None,
                };
                Reaction::Items(no_items())
            },
            other => Reaction::Items(one_item(Frame::Server(other))),
        }
    }

    /// Takes a packet from the media channel, and returns what is to be sent.
    pub fn process_rtp_packet(&self, bytes: &[u8]) -> (items: Vec<FrameResult<E>>)
        ensures
            items_view(items@) == self@.media_items(muxed_packet(bytes@)),
    {
        self.forward_media(read_packet(bytes))
    }

    /// Takes what was read from the media channel, and returns what is to be sent.
    pub fn forward_media(&self, packet: MuxedPacket) -> (items: Vec<FrameResult<E>>)
        ensures
            items_view(items@) == self@.media_items(packet@),
    {
        match (packet, self.target) {
            (MuxedPacket::Rtp(rtp), Some(target)) => {
                let voice = VoicePacket::Audio {
                    target,
                    session_id: (),
                    seq_num: (rtp.timestamp / SAMPLES_PER_NUMBER) as u64,
                    payload: VoicePacketPayload::Opus(rtp.payload, false),
                    position_info: None,
                };
                one_item(Frame::Server(ControlPacket::UDPTunnel(voice)))
            },
            _ => no_items(),
        }
    }

    /// Takes the ICE stream that was made, or the reason why it could not be made, and returns
    /// what is to be sent: how the client can reach the stream and the fingerprint of the
    /// certificate, or the reason.
    pub fn setup_ice(&mut self, created: Result<IceCredentials, E>) -> (items: Vec<FrameResult<E>>)
        ensures
            final(self)@ == old(self)@.after_ice(created_view(created)),
            items_view(items@) == old(self)@.ice_items(created_view(created)),
            old(self)@.valid() ==> final(self)@.valid(),
            created is Ok ==> final(self)@.identity.valid(),
    {
        match created {
            Ok(credentials) => {
                self.ice = true;
                self.handshaking = true;
                let message = WebRTC {
                    dtls_fingerprint: Some(self.identity.fingerprint()),
                    ice_pwd: Some(credentials.pwd),
                    ice_ufrag: Some(credentials.ufrag),
                    raw: None,
                };
                one_item(Frame::Client(ControlPacket::WebRTC(message)))
            },
            Err(error) => one_error(Error::Outside(error)),
        }
    }

    /// Takes the next candidate of the ICE stream, or its end, and returns whether there is
    /// something to be sent.
    fn gather_ice_candidates(&mut self, candidate: Option<LocalCandidate>) -> (more: bool)
        ensures
            more == candidate is Some,
            final(self)@ == match candidate {
                Some(c) => (ConnectionView {
                    stream_to_be_sent: Some(old(self)@.candidate_items(c@)),
                    ..old(self)@
                }),
                None => (ConnectionView { candidate_gathering_done: true, ..old(self)@ }),
            },
    {
        match candidate {
            Some(candidate) => {
                let content = describe_local_candidate(&self.config, candidate);
                let message = IceCandidate { content, raw: None };
                let frame = Frame::Client(ControlPacket::IceCandidate(message));
                self.stream_to_be_sent = Some(one_item(frame));
                true
            },
            None => {
                self.candidate_gathering_done = true;
                false
            },
        }
    }

    /// The lowest session whose user has been silent for too long at `now`.
    fn find_expired(&self, now: u64) -> (found: Option<u32>)
        ensures
            match found {
                Some(s) => first_expired(self@.sessions, now, s),
                None => forall|s: u32| !expired(self@.sessions, now, s),
            },
    {
        let ghost sessions = self.sessions@;
        let entries = self.sessions.iter();
        proof {
            lemma_entries_in_order(&self.sessions, entries.remaining());
        }
        for (session, user) in it: entries
            invariant
                sessions == self.sessions@,
                lists_in_order(it.seq(), sessions),
                forall|i: int| 0 <= i < it.index() ==> !expired(sessions, now, *it.seq()[i].0),
        {
            assert(*session == *it.seq()[it.index()].0 && *user == *it.seq()[it.index()].1);
            if let Some(timeout) = user.timeout {
                if timeout <= now {
                    return Some(*session);
                }
            }
        }
        None
    }

    /// When the next transmission ends by silence, if nothing is heard until then.
    pub fn next_deadline(&self) -> (deadline: Option<u64>)
        ensures
            match deadline {
                Some(d) => {
                    &&& exists|s: u32| #[trigger]
                        self@.sessions.contains_key(s) && self@.sessions[s].timeout == Some(d)
                    &&& forall|s: u32| #[trigger]
                        self@.sessions.contains_key(s) && self@.sessions[s].timeout is Some ==> d
                            <= self@.sessions[s].timeout->0
                },
                None => forall|s: u32| #[trigger]
                    self@.sessions.contains_key(s) ==> self@.sessions[s].timeout is None,
            },
            forall|now: u64| #[trigger]
                any_expired(self@.sessions, now) <==> deadline is Some && deadline->0 <= now,
    {
        let ghost sessions = self.sessions@;
        let mut deadline: Option<u64> = None;
        let entries = self.sessions.iter();
        proof {
            lemma_entries_in_order(&self.sessions, entries.remaining());
        }
        for (session, user) in it: entries
            invariant
                sessions == self.sessions@,
                lists_in_order(it.seq(), sessions),
                match deadline {
                    Some(d) => {
                        &&& exists|s: u32| #[trigger]
                            sessions.contains_key(s) && sessions[s].timeout == Some(d)
                        &&& forall|i: int|
                            0 <= i < it.index() && (#[trigger] it.seq()[i]).1.timeout is Some ==> d
                                <= it.seq()[i].1.timeout->0
                    },
                    None => forall|i: int|
                        0 <= i < it.index() ==> (#[trigger] it.seq()[i]).1.timeout is None,
                },
        {
            assert(*session == *it.seq()[it.index()].0 && *user == *it.seq()[it.index()].1);
            if let Some(timeout) = user.timeout {
                assert(sessions.contains_key(*session));
                deadline =
                match deadline {
                    Some(d) if d <= timeout => Some(d),
                    _ => Some(timeout),
                };
            }
        }
        proof {
            lemma_deadline_expires(self@.sessions, deadline);
        }
        deadline
    }
}

impl<E> Connection<E> {
    /// Takes the first item out of the queue, and returns the error if it is one. Returns
    /// `None` where the queue is empty, and drops it.
    fn dequeue(&mut self) -> (taken: Option<Result<(), Error<E>>>)
        ensures
            final(self)@ == old(self)@.dequeued(),
            match taken {
                Some(Ok(())) => old(self)@.turn(Stage::Queue) == Turn::<E>::Go(Stage::Agent)
                    && final(self)@.queued() < old(self)@.queued(),
                Some(Err(error)) => old(self)@.turn(Stage::Queue) == Turn::<E>::Ask(
                    StepView::Finished,
                    ActionView::Finish(Err(error@)),
                ),
                None => old(self)@.turn(Stage::Queue) == Turn::<E>::Go(Stage::FlushClient)
                    && final(self)@.queued() == 0,
            },
    {
        let mut items = match self.stream_to_be_sent.take() {
            Some(items) => items,
            None => return None,
        };
        if items.len() == 0 {
            return None;
        }
        let ghost before = items@;
        let item = items.remove(0);
        assert(items_view(items@) =~= items_view(before).drop_first());
        assert(item_view(item) == items_view(before)[0]);
        self.stream_to_be_sent = Some(items);
        let taken = match item {
            Ok(Frame::Server(packet)) => {
                self.next_serverbound_frame = Some(packet);
                Ok(())
            },
            Ok(Frame::Client(packet)) => {
                self.next_clientbound_frame = Some(packet);
                Ok(())
            },
            Ok(Frame::Rtp(packet)) => {
                self.next_rtp_frame = Some(write_packet(packet));
                Ok(())
            },
            Err(error) => Err(error),
        };
        assert(self@ =~= old(self)@.dequeued());
        Some(taken)
    }

    /// Notes what is asked for.
    fn ask(&mut self, step: Step, action: Action<E>) -> (asked: Action<E>)
        ensures
            final(self)@ == old(self)@.ask(step@, action@).0,
            asked == action,
    {
        self.step = step;
        action
    }

    /// Goes on from a stage until there is something to be asked for.
    fn run(&mut self, stage: Stage) -> (action: Action<E>)
        ensures
            final(self)@ == old(self)@.run(stage).0,
            action@ == old(self)@.run(stage).1,
    {
        let mut at = stage;
        loop
            invariant
                self@.run(at) == old(self)@.run(stage),
            decreases self@.queued(), at.left(),
        {
            match at {
                Stage::Agent => {
                    if self.ice {
                        return self.ask(Step::Agent, Action::PollAgent);
                    }
                    at = Stage::ToServer;
                },
                Stage::ToServer => {
                    if self.next_serverbound_frame.is_some() {
                        return self.ask(Step::ServerSink, Action::PollServerSink);
                    }
                    at = Stage::ToClient;
                },
                Stage::ToClient => {
                    if self.next_clientbound_frame.is_some() {
                        return self.ask(Step::ClientSink, Action::PollClientSink);
                    }
                    at = Stage::ToMedia;
                },
                Stage::ToMedia => {
                    if self.dtls_srtp {
                        if self.next_rtp_frame.is_some() {
                            return self.ask(Step::MediaSink, Action::PollMediaSink);
                        }
                    } else {
                        // The media channel is not up yet, so the packet is dropped.
                        self.next_rtp_frame = None;
                    }
                    at = Stage::Queue;
                },
                Stage::Queue => {
                    match self.dequeue() {
                        Some(Ok(())) => {
                            at = Stage::Agent;
                        },
                        Some(Err(error)) => {
                            return self.ask(Step::Finished, Action::Finish(Err(error)));
                        },
                        None => {
                            at = Stage::FlushClient;
                        },
                    }
                },
                Stage::FlushClient => {
                    return self.ask(Step::ClientFlush, Action::FlushClient);
                },
                Stage::FlushServer => {
                    return self.ask(Step::ServerFlush, Action::FlushServer);
                },
                Stage::FlushMedia => {
                    if self.dtls_srtp {
                        return self.ask(Step::MediaFlush, Action::FlushMedia);
                    }
                    at = Stage::Timeouts;
                },
                Stage::Timeouts => {
                    return self.ask(Step::Clock, Action::ReadClock);
                },
                Stage::Candidates => {
                    if self.ice && !self.candidate_gathering_done {
                        return self.ask(Step::Candidate, Action::PollCandidate);
                    }
                    at = Stage::Handshake;
                },
                Stage::Handshake => {
                    if self.handshaking {
                        return self.ask(Step::Handshake, Action::PollHandshake);
                    }
                    at = Stage::FromServer;
                },
                Stage::FromServer => {
                    return self.ask(Step::ServerPacket, Action::PollServer);
                },
                Stage::FromClient => {
                    return self.ask(Step::ClientPacket, Action::PollClient);
                },
                Stage::FromMedia => {
                    if self.dtls_srtp {
                        return self.ask(Step::MediaPacket, Action::PollMedia);
                    }
                    at = Stage::Wait;
                },
                Stage::Wait => {
                    return self.ask(Step::Idle, Action::Wait);
                },
            }
        }
    }
}

impl<E> Connection<E> {
    /// Queues items and starts a new round.
    fn send(&mut self, items: Vec<FrameResult<E>>) -> (action: Action<E>)
        ensures
            final(self)@ == old(self)@.send(items_view(items@)).0,
            action@ == old(self)@.send(items_view(items@)).1,
    {
        self.stream_to_be_sent = Some(items);
        self.run(Stage::Agent)
    }

    /// Ends the connection.
    fn finish(&mut self, result: Result<(), Error<E>>) -> (action: Action<E>)
        ensures
            final(self)@ == (ConnectionView { step: StepView::Finished, ..old(self)@ }),
            action == Action::<E>::Finish(result),
    {
        self.ask(Step::Finished, Action::Finish(result))
    }

    /// Goes on when what was asked for is done.
    fn on_ready(&mut self) -> (action: Action<E>)
        requires
            old(self)@.step_valid(),
            old(self)@.expects(EventView::Ready),
        ensures
            final(self)@ == old(self)@.on_ready().0,
            action@ == old(self)@.on_ready().1,
    {
        match self.step {
            Step::Agent => self.run(Stage::ToServer),
            Step::ServerSink => match self.next_serverbound_frame.take() {
                Some(packet) => self.ask(Step::ServerSend, Action::SendToServer(packet)),
                None => self.run(Stage::ToClient),
            },
            Step::ServerSend => self.run(Stage::ToClient),
            Step::ClientSink => match self.next_clientbound_frame.take() {
                Some(packet) => self.ask(Step::ClientSend, Action::SendToClient(packet)),
                None => self.run(Stage::ToMedia),
            },
            Step::ClientSend => self.run(Stage::ToMedia),
            Step::MediaSink => match self.next_rtp_frame.take() {
                Some(bytes) => self.ask(Step::MediaSend, Action::SendMedia(bytes)),
                None => self.run(Stage::Queue),
            },
            Step::MediaSend => self.run(Stage::Queue),
            Step::ClientFlush => self.run(Stage::FlushServer),
            Step::ServerFlush => self.run(Stage::FlushMedia),
            Step::MediaFlush => self.run(Stage::Timeouts),
            Step::Handshake => {
                self.handshaking = false;
                self.dtls_srtp = true;
                let count: u32 = self.next_ssrc;
                self.ask(Step::HandshakeSsrcs, Action::AllowSsrcs(count))
            },
            Step::HandshakeSsrcs => self.run(Stage::FromServer),
            _ => self.run(Stage::Agent),
        }
    }

    /// Goes on when what was asked for cannot be done yet.
    fn on_pending(&mut self) -> (action: Action<E>)
        ensures
            final(self)@ == old(self)@.on_pending().0,
            action@ == old(self)@.on_pending().1,
    {
        match self.step {
            Step::MediaSink => self.run(Stage::Queue),
            Step::ClientFlush => self.run(Stage::FlushServer),
            Step::ServerFlush => self.run(Stage::FlushMedia),
            Step::MediaFlush => self.run(Stage::Timeouts),
            Step::Candidate => self.run(Stage::Handshake),
            Step::Handshake => self.run(Stage::FromServer),
            Step::ServerPacket => self.run(Stage::FromClient),
            Step::ClientPacket => self.run(Stage::FromMedia),
            _ => self.run(Stage::Wait),
        }
    }

    /// Goes on with the ICE stream that was asked for, or without it.
    fn on_ice(&mut self, login: Authenticate, created: Result<IceCredentials, E>) -> (action:
        Action<E>)
        ensures
            final(self)@ == old(self)@.on_ice(login@, created_view(created)).0,
            action@ == old(self)@.on_ice(login@, created_view(created)).1,
    {
        let mut items = one_item(Frame::Server(ControlPacket::Authenticate(login)));
        let mut more = self.setup_ice(created);
        let ghost login_items = items@;
        let ghost ice_items = more@;
        items.append(&mut more);
        assert(items_view(items@) =~= items_view(login_items) + items_view(ice_items));
        self.send(items)
    }

    /// Goes on when what was asked for failed.
    fn on_failed(&mut self, error: E) -> (action: Action<E>)
        ensures
            final(self)@ == old(self)@.on_failed(error).0,
            action@ == old(self)@.on_failed(error).1,
    {
        let mut step = Step::Finished;
        core::mem::swap(&mut step, &mut self.step);
        match step {
            Step::CreateIce(login) => {
                proof {
                    lemma_ice_ignores_step(old(self)@, StepView::Finished, login@, Err(error));
                }
                self.on_ice(login, Err(error))
            },
            Step::MediaSink => {
                self.next_rtp_frame = None;
                self.finish(Err(Error::Outside(error)))
            },
            _ => self.finish(Err(Error::Outside(error))),
        }
    }

    /// Goes on when what was asked for has come to its end.
    fn on_closed(&mut self) -> (action: Action<E>)
        ensures
            final(self)@ == old(self)@.on_closed().0,
            action@ == old(self)@.on_closed().1,
    {
        match self.step {
            Step::Candidate => {
                self.gather_ice_candidates(None);
                self.run(Stage::Handshake)
            },
            _ => self.finish(Ok(())),
        }
    }

    /// Ends a transmission that has been silent for too long at `now`, if there is one.
    fn on_time(&mut self, now: u64) -> (action: Action<E>)
        ensures
            final(self)@ == old(self)@.on_time(now).0,
            action@ == old(self)@.on_time(now).1,
    {
        match self.find_expired(now) {
            Some(session_id) => {
                let ghost s = choose|s: u32| first_expired(self@.sessions, now, s);
                assert(s == session_id);
                let mut user: User = match self.sessions.get(&session_id) {
                    Some(user) => *user,
                    None => return self.run(Stage::Candidates),
                };
                let mut frames: Vec<Frame> = Vec::new();
                if let Some(frame) = user.set_inactive() {
                    frames.push(frame);
                }
                assert(frames_view(frames@) =~= old(self)@.sessions[s].inactive_frames());
                self.sessions.insert(session_id, user);
                self.send(into_items(frames))
            },
            None => self.run(Stage::Candidates),
        }
    }

    /// Goes on with a packet from the client.
    fn on_client_packet(&mut self, packet: ControlPacket<()>) -> (action: Action<E>)
        requires
            old(self)@.valid(),
        ensures
            final(self)@ == old(self)@.on_event(EventView::ClientPacket(packet@)).0,
            action@ == old(self)@.on_event(EventView::ClientPacket(packet@)).1,
    {
        match self.process_packet_from_client(packet) {
            Reaction::Items(items) => self.send(items),
            Reaction::CreateIce(login) => {
                let ports = self.config.port_range();
                self.ask(Step::CreateIce(login), Action::CreateIce(ports))
            },
            Reaction::SetRemoteCredentials { ufrag, pwd } => {
                self.stream_to_be_sent = Some(no_items());
                self.ask(Step::Reaction, Action::SetRemoteCredentials { ufrag, pwd })
            },
            Reaction::AddRemoteCandidate(candidate) => {
                self.stream_to_be_sent = Some(no_items());
                self.ask(Step::Reaction, Action::AddRemoteCandidate(candidate))
            },
        }
    }

    /// Moves the connection on: takes what came of the last action, and returns the next one. A
    /// new connection starts with `Event::Wake`.
    ///
    /// What waits to be sent is sent before anything else. Before the connection waits for
    /// packets, it ends the transmissions that have fallen silent.
    pub fn poll(&mut self, event: Event<E>) -> (action: Action<E>)
        requires
            old(self)@.valid(),
            old(self)@.takes(event@),
        ensures
            final(self)@ == old(self)@.on_event(event@).0,
            action@ == old(self)@.on_event(event@).1,
            final(self)@.valid(),
    {
        proof {
            law_connection_stays_valid(self@, event@);
        }
        match event {
            Event::Wake => self.run(Stage::Agent),
            Event::Ready => self.on_ready(),
            Event::Pending => self.on_pending(),
            Event::Failed(error) => self.on_failed(error),
            Event::Closed => self.on_closed(),
            Event::Time(now) => self.on_time(now),
            Event::Candidate(candidate) => {
                self.gather_ice_candidates(Some(candidate));
                self.run(Stage::Agent)
            },
            Event::ServerPacket(packet, now) => {
                let (items, announce) = self.process_packet_from_server(packet, now);
                if announce {
                    self.stream_to_be_sent = Some(items);
                    self.ask(Step::Reaction, Action::AllowSsrcs(1))
                } else {
                    self.send(items)
                }
            },
            Event::ClientPacket(packet) => self.on_client_packet(packet),
            Event::MediaPacket(bytes) => {
                let items = self.process_rtp_packet(bytes.as_slice());
                self.send(items)
            },
            Event::IceCreated(credentials) => {
                let mut step = Step::Finished;
                core::mem::swap(&mut step, &mut self.step);
                match step {
                    Step::CreateIce(login) => {
                        proof {
                            lemma_ice_ignores_step(
                                old(self)@,
                                StepView::Finished,
                                login@,
                                Ok(credentials@),
                            );
                        }
                        self.on_ice(login, Ok(credentials))
                    },
                    _ => {
                        assert(false);
                        Action::Wait
                    },
                }
            },
        }
    }

    /// Whether there is a source for the user that a packet from the server may bring.
    fn has_source_for(&self, packet: &ControlPacket<u32>) -> (has: bool)
        ensures
            has == self@.has_source_for(packet@),
    {
        match packet {
            ControlPacket::UserState(message) => !self.ice || self.sessions.contains_key(
                &message.session.unwrap_or(0),
            ) || self.free_ssrcs.len() > 0 || self.next_ssrc < u32::MAX,
            _ => true,
        }
    }

    /// Whether an event can be taken: it answers what the connection asked for last, and there
    /// is a source for the user that it may bring.
    pub fn accepts(&self, event: &Event<E>) -> (accepted: bool)
        ensures
            accepted == self@.takes(event@),
    {
        match event {
            Event::Wake => matches!(self.step, Step::Idle),
            Event::Ready => !matches!(
                self.step,
                Step::Idle | Step::Clock | Step::Candidate | Step::ServerPacket | Step::ClientPacket
                    | Step::MediaPacket | Step::CreateIce(_) | Step::Finished
            ),
            Event::Pending => matches!(
                self.step,
                Step::ServerSink | Step::ClientSink | Step::MediaSink | Step::ClientFlush
                    | Step::ServerFlush | Step::MediaFlush | Step::Candidate | Step::Handshake
                    | Step::ServerPacket | Step::ClientPacket | Step::MediaPacket
            ),
            Event::Failed(_) => !matches!(
                self.step,
                Step::Idle | Step::Agent | Step::Clock | Step::Candidate | Step::HandshakeSsrcs
                    | Step::Reaction | Step::Finished
            ),
            Event::Closed => matches!(
                self.step,
                Step::Candidate | Step::ServerPacket | Step::ClientPacket | Step::MediaPacket
            ),
            Event::Time(_) => matches!(self.step, Step::Clock),
            Event::Candidate(_) => matches!(self.step, Step::Candidate),
            Event::ServerPacket(packet, _) => matches!(self.step, Step::ServerPacket)
                && self.has_source_for(packet),
            Event::ClientPacket(_) => matches!(self.step, Step::ClientPacket),
            Event::MediaPacket(_) => matches!(self.step, Step::MediaPacket),
            Event::IceCreated(_) => matches!(self.step, Step::CreateIce(_)),
        }
    }
}

/// What a connection waited for makes no difference to how it goes on with an ICE stream.
proof fn lemma_ice_ignores_step<E>(
    connection: ConnectionView<E>,
    step: StepView,
    login: AuthenticateView,
    created: Result<IceCredentialsView, E>,
)
    ensures
        (ConnectionView { step, ..connection }).on_ice(login, created) == connection.on_ice(
            login,
            created,
        ),
{
    let items = seq![Ok(FrameView::Server(ControlPacketView::Authenticate(login)))]
        + connection.ice_items(created);
    lemma_run_ignores_step(
        ConnectionView { stream_to_be_sent: Some(items), ..connection.after_ice(created) },
        step,
        Stage::Agent,
    );
}

/// Some user has been silent for too long exactly from the first deadline on.
proof fn lemma_deadline_expires(sessions: Map<u32, User>, deadline: Option<u64>)
    requires
        match deadline {
            Some(d) => {
                &&& exists|s: u32| #[trigger]
                    sessions.contains_key(s) && sessions[s].timeout == Some(d)
                &&& forall|s: u32| #[trigger]
                    sessions.contains_key(s) && sessions[s].timeout is Some ==> d
                        <= sessions[s].timeout->0
            },
            None => forall|s: u32| #[trigger]
                sessions.contains_key(s) ==> sessions[s].timeout is None,
        },
    ensures
        forall|now: u64| #[trigger]
            any_expired(sessions, now) <==> deadline is Some && deadline->0 <= now,
{
    assert forall|now: u64| #[trigger]
        any_expired(sessions, now) <==> deadline is Some && deadline->0 <= now by {
        if deadline is Some && deadline->0 <= now {
            let s = choose|s: u32| #[trigger]
                sessions.contains_key(s) && sessions[s].timeout == Some(deadline->0);
            assert(expired(sessions, now, s));
        }
        if any_expired(sessions, now) {
            let s = choose|s: u32| #[trigger] expired(sessions, now, s);
            assert(sessions.contains_key(s));
        }
    }
}

/// Whether entries are those of a map, the lowest key first.
spec fn lists_in_order(entries: Seq<(&u32, &User)>, sessions: Map<u32, User>) -> bool {
    &&& forall|i: int|
        0 <= i < entries.len() ==> sessions.contains_key(*(#[trigger] entries[i]).0)
            && sessions[*entries[i].0] == *entries[i].1
    &&& forall|i: int, j: int|
        0 <= i < j < entries.len() ==> *(#[trigger] entries[i]).0 < *(#[trigger] entries[j]).0
    &&& forall|s: u32| #[trigger]
        sessions.contains_key(s) ==> exists|i: int|
            0 <= i < entries.len() && *(#[trigger] entries[i]).0 == s
}

/// A map is walked in the order of its keys.
proof fn lemma_entries_in_order(sessions: &BTreeMap<u32, User>, entries: Seq<(&u32, &User)>)
    requires
        entries == vstd::std_specs::btree::spec_btree_map_iter(sessions).remaining(),
        vstd::std_specs::btree::increasing_seq(entries.map_values(|kv: (&u32, &User)| *kv.0)),
    ensures
        lists_in_order(entries, sessions@),
{
    let keys = entries.map_values(|kv: (&u32, &User)| *kv.0);
    assert forall|i: int, j: int| 0 <= i < j < entries.len() implies *(#[trigger] entries[i]).0
        < *(#[trigger] entries[j]).0 by {
        assert(keys[i] == *entries[i].0 && keys[j] == *entries[j].0);
        assert(keys[i].cmp_spec(&keys[j]) is Less);
    }
    assert forall|s: u32| #[trigger] sessions@.contains_key(s) implies exists|i: int|
        0 <= i < entries.len() && *(#[trigger] entries[i]).0 == s by {
        assert(entries.contains((&s, &sessions@[s])));
        let i = choose|i: int| 0 <= i < entries.len() && entries[i] == (&s, &sessions@[s]);
        assert(*entries[i].0 == s);
    }
}

/// Whether an ICE stream was made.
pub open spec fn created_view<E>(created: Result<IceCredentials, E>) -> Result<
    IceCredentialsView,
    E,
> {
    match created {
        Ok(credentials) => Ok(credentials@),
        Err(error) => Err(error),
    }
}

/// Nothing to be sent.
fn no_items<E>() -> (items: Vec<FrameResult<E>>)
    ensures
        items_view(items@) == Seq::<FrameResultView<E>>::empty(),
{
    let items: Vec<FrameResult<E>> = Vec::new();
    assert(items_view(items@) =~= Seq::empty());
    items
}

/// One frame to be sent.
fn one_item<E>(frame: Frame) -> (items: Vec<FrameResult<E>>)
    ensures
        items_view(items@) == seq![Ok::<_, ErrorView<E>>(frame@)],
{
    let items: Vec<FrameResult<E>> = vec![Ok(frame)];
    assert(items_view(items@) =~= seq![Ok(frame@)]);
    items
}

/// An error in place of a frame.
fn one_error<E>(error: Error<E>) -> (items: Vec<FrameResult<E>>)
    ensures
        items_view(items@) == seq![Err::<FrameView, _>(error@)],
{
    let items: Vec<FrameResult<E>> = vec![Err(error)];
    assert(items_view(items@) =~= seq![Err(error@)]);
    items
}

/// Frames to be sent.
fn into_items<E>(frames: Vec<Frame>) -> (items: Vec<FrameResult<E>>)
    ensures
        items_view(items@) == ok_items::<E>(frames_view(frames@)),
{
    let mut frames = frames;
    let ghost all = frames@;
    let mut items: Vec<FrameResult<E>> = Vec::new();
    while frames.len() > 0
        invariant
            items_view(items@) + ok_items::<E>(frames_view(frames@)) =~= ok_items::<E>(
                frames_view(all),
            ),
        decreases frames@.len(),
    {
        let ghost before = frames@;
        let ghost done = items@;
        let frame = frames.remove(0);
        items.push(Ok(frame));
        assert(frames_view(before) =~= seq![frame@] + frames_view(frames@));
        assert(items_view(items@) =~= items_view(done).push(Ok(frame@)));
    }
    assert(ok_items::<E>(frames_view(frames@)) =~= Seq::empty());
    items
}

/// The text of an optional field, which is empty where the field is absent.
fn take_text(text: Option<String>) -> (taken: String)
    ensures
        taken@ == text_or_empty(text_view(text)),
{
    match text {
        Some(s) => s,
        None => String::new(),
    }
}

/// Whether a text holds the character that ends a C string.
fn has_nul(text: &str) -> (found: bool)
    ensures
        found == text@.contains('\0'),
{
    for c in it: text.chars()
        invariant
            it.seq() == text@,
            forall|i: int| 0 <= i < it.index() ==> text@[i] != '\0',
    {
        if c == '\0' {
            return true;
        }
    }
    false
}

/// The contracts speak of the whole of what came of making an ICE stream.
pub proof fn law_outcome_of_ice_is_seen_whole<E>(created: Result<IceCredentials, E>)
    ensures
        match created {
            Ok(credentials) => created_view(created) is Ok && created_view(created)->Ok_0.ufrag
                == credentials.ufrag@ && created_view(created)->Ok_0.pwd == credentials.pwd@,
            Err(error) => created_view(created) == Err::<IceCredentialsView, E>(error),
        },
{
}

} // verus!
