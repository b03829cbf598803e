//! What holds of every connection: over one event, and over the whole of its life.
use crate::config::Config;
use crate::identity::{fingerprint_text, IdentityView};
use crate::media::{muxed_packet, rtp_bytes, MuxedPacketView};
use crate::messages::{
    AuthenticateView, ControlPacketView, ErrorView, FrameResultView, FrameView, TalkingStateView,
    UserStateView, VoicePacketPayloadView, WebRTCView,
};
use crate::model::{
    ok_items, opus_voice, session_or_zero, ConnectionView, IceCredentialsView, ReactionView,
};
use crate::schedule::{
    expired, first_expired, law_connection_stays_valid, stage_valid, ActionView, EventView, Stage,
    Turn,
};
use crate::user::{law_client_knows_who_talks, stopped_frame, told, User};
use vstd::prelude::*;

verus! {

/// The packets for the server among some items, up to the first error.
pub open spec fn to_server<E>(items: Seq<FrameResultView<E>>) -> Seq<ControlPacketView<()>>
    decreases items.len(),
{
    if items.len() == 0 {
        Seq::empty()
    } else {
        match items[0] {
            Ok(FrameView::Server(packet)) => seq![packet] + to_server(items.drop_first()),
            Ok(_) => to_server(items.drop_first()),
            Err(_) => Seq::empty(),
        }
    }
}

/// The packets for the client among some items, up to the first error.
pub open spec fn to_client<E>(items: Seq<FrameResultView<E>>) -> Seq<ControlPacketView<u32>>
    decreases items.len(),
{
    if items.len() == 0 {
        Seq::empty()
    } else {
        match items[0] {
            Ok(FrameView::Client(packet)) => seq![packet] + to_client(items.drop_first()),
            Ok(_) => to_client(items.drop_first()),
            Err(_) => Seq::empty(),
        }
    }
}

/// The packet in an optional packet.
pub open spec fn waiting<S>(packet: Option<ControlPacketView<S>>) -> Seq<ControlPacketView<S>> {
    match packet {
        Some(p) => seq![p],
        None => Seq::empty(),
    }
}

/// The first error among some items.
pub open spec fn first_error<E>(items: Seq<FrameResultView<E>>) -> Option<ErrorView<E>>
    decreases items.len(),
{
    if items.len() == 0 {
        None
    } else {
        match items[0] {
            Ok(_) => first_error(items.drop_first()),
            Err(error) => Some(error),
        }
    }
}

impl<E> ConnectionView<E> {
    /// The items that are queued.
    pub open spec fn queue(self) -> Seq<FrameResultView<E>> {
        match self.stream_to_be_sent {
            Some(items) => items,
            None => Seq::empty(),
        }
    }

    /// The packets that wait to be sent to the server, the next one first.
    pub open spec fn server_backlog(self) -> Seq<ControlPacketView<()>> {
        waiting(self.next_serverbound_frame) + to_server(self.queue())
    }

    /// The packets that wait to be sent to the client, the next one first.
    pub open spec fn client_backlog(self) -> Seq<ControlPacketView<u32>> {
        waiting(self.next_clientbound_frame) + to_client(self.queue())
    }

    /// What an event makes the connection send.
    pub open spec fn new_items(self, event: EventView<E>) -> Seq<FrameResultView<E>> {
        match event {
            EventView::Candidate(candidate) => self.candidate_items(candidate),
            EventView::ServerPacket(packet, now) => self.on_server_packet(packet, now).items,
            EventView::ClientPacket(packet) => match self.on_client_packet(packet).reaction {
                ReactionView::Items(items) => items,
                _ => Seq::empty(),
            },
            EventView::MediaPacket(bytes) => self.media_items(muxed_packet(bytes)),
            EventView::Time(now) => if exists|s: u32| first_expired(self.sessions, now, s) {
                let s = choose|s: u32| first_expired(self.sessions, now, s);
                ok_items(self.sessions[s].inactive_frames())
            } else {
                Seq::empty()
            },
            EventView::IceCreated(credentials) => self.login_items(Ok(credentials)),
            EventView::Failed(error) if self.step is CreateIce => self.login_items(Err(error)),
            _ => Seq::empty(),
        }
    }

    /// The login that waits for an ICE stream, and what the ICE stream makes the connection
    /// send.
    pub open spec fn login_items(self, created: Result<IceCredentialsView, E>) -> Seq<
        FrameResultView<E>,
    > {
        seq![Ok(FrameView::Server(ControlPacketView::Authenticate(self.step->CreateIce_0)))]
            + self.ice_items(created)
    }
}

/// The packet that an action sends to the server, if it sends one.
pub open spec fn sent_to_server<E>(action: ActionView<E>) -> Seq<ControlPacketView<()>> {
    match action {
        ActionView::SendToServer(packet) => seq![packet],
        _ => Seq::empty(),
    }
}

/// The packet that an action sends to the client, if it sends one.
pub open spec fn sent_to_client<E>(action: ActionView<E>) -> Seq<ControlPacketView<u32>> {
    match action {
        ActionView::SendToClient(packet) => seq![packet],
        _ => Seq::empty(),
    }
}

/// What `run` does with what waits to be sent: the connection goes on with all of it, or ends
/// with an error before which nothing waits.
pub open spec fn backlog_kept<E>(
    connection: ConnectionView<E>,
    after: ConnectionView<E>,
    action: ActionView<E>,
) -> bool {
    &&& sent_to_server(action) == Seq::<ControlPacketView<()>>::empty()
    &&& sent_to_client(action) == Seq::<ControlPacketView<u32>>::empty()
    &&& if after.step is Finished {
        &&& connection.server_backlog().len() == 0
        &&& connection.client_backlog().len() == 0
        &&& first_error(connection.queue()) is Some
        &&& action == ActionView::<E>::Finish(Err(first_error(connection.queue())->0))
    } else {
        &&& after.server_backlog() == connection.server_backlog()
        &&& after.client_backlog() == connection.client_backlog()
        &&& first_error(after.queue()) == first_error(connection.queue())
    }
}

/// Going on from a stage sends nothing and leaves what waits to be sent as it is.
pub proof fn lemma_run_keeps_backlog<E>(connection: ConnectionView<E>, stage: Stage)
    requires
        stage_valid(connection, stage),
    ensures
        backlog_kept(connection, connection.run(stage).0, connection.run(stage).1),
    decreases connection.queued(), stage.left(),
{
    let next = connection.after_stage(stage);
    match connection.turn(stage) {
        Turn::Ask(step, _) => {
            if !(step is Finished) {
                assert(next.server_backlog() =~= connection.server_backlog());
                assert(next.client_backlog() =~= connection.client_backlog());
            }
        },
        Turn::Go(stage) => {
            assert(next.server_backlog() =~= connection.server_backlog());
            assert(next.client_backlog() =~= connection.client_backlog());
            lemma_run_keeps_backlog(next, stage);
        },
    }
}

/// `lemma_run_keeps_backlog` for every connection and every stage.
proof fn lemma_every_run_keeps_backlog<E>()
    ensures
        forall|c: ConnectionView<E>, stage: Stage|
            stage_valid(c, stage) ==> backlog_kept(c, (#[trigger] c.run(stage)).0, c.run(stage).1),
{
    assert forall|c: ConnectionView<E>, stage: Stage|
        #![trigger c.run(stage)]
        stage_valid(c, stage) implies backlog_kept(c, c.run(stage).0, c.run(stage).1) by {
        lemma_run_keeps_backlog(c, stage);
    }
}

/// What `run` leaves as it is: everything but the queue and the packets next to be sent. It ends
/// with a question that does nothing by itself, or with an error out of the queue.
pub open spec fn state_kept<E>(
    connection: ConnectionView<E>,
    after: ConnectionView<E>,
    action: ActionView<E>,
) -> bool {
    &&& after == (ConnectionView {
        next_serverbound_frame: after.next_serverbound_frame,
        next_clientbound_frame: after.next_clientbound_frame,
        next_rtp_frame: after.next_rtp_frame,
        stream_to_be_sent: after.stream_to_be_sent,
        step: after.step,
        ..connection
    })
    &&& action is Finish <==> after.step is Finished
    &&& action is PollServer <==> after.step is ServerPacket
    &&& action is PollClient <==> after.step is ClientPacket
    &&& action is PollMedia <==> after.step is MediaPacket
    &&& action is PollCandidate <==> after.step is Candidate
    &&& action is PollCandidate ==> !after.candidate_gathering_done
    &&& action is PollMediaSink || action is FlushMedia || action is PollMedia ==> after.dtls_srtp
    &&& !(action is SendMedia)
    &&& !(action is AllowSsrcs)
    &&& !(action is CreateIce)
}

/// Going on from a stage changes nothing but what waits to be sent.
proof fn lemma_run_keeps_state<E>(connection: ConnectionView<E>, stage: Stage)
    ensures
        state_kept(connection, connection.run(stage).0, connection.run(stage).1),
    decreases connection.queued(), stage.left(),
{
    match connection.turn(stage) {
        Turn::Ask(_, _) => {},
        Turn::Go(next) => lemma_run_keeps_state(connection.after_stage(stage), next),
    }
}

/// `lemma_run_keeps_state` for every connection and every stage.
pub proof fn lemma_every_run_keeps_state<E>()
    ensures
        forall|c: ConnectionView<E>, stage: Stage|
            state_kept(c, (#[trigger] c.run(stage)).0, c.run(stage).1),
{
    assert forall|c: ConnectionView<E>, stage: Stage| state_kept(
        c,
        (#[trigger] c.run(stage)).0,
        c.run(stage).1,
    ) by {
        lemma_run_keeps_state(c, stage);
    }
}

/// Nothing is lost, doubled or reordered on the way: as long as the connection lives, what
/// waited for the server, with what an event adds at the end of it, is what is sent now and
/// what waits afterwards. The same holds for the client.
#[verifier::rlimit(40)]
pub proof fn law_packets_are_sent_in_order<E>(connection: ConnectionView<E>, event: EventView<E>)
    requires
        connection.valid(),
        connection.expects(event),
    ensures
        ({
            let (after, action) = connection.on_event(event);
            let items = connection.new_items(event);
            !(after.step is Finished) ==> {
                &&& connection.server_backlog() + to_server(items) == sent_to_server(action)
                    + after.server_backlog()
                &&& connection.client_backlog() + to_client(items) == sent_to_client(action)
                    + after.client_backlog()
            }
        }),
{
    let (after, action) = connection.on_event(event);
    let items = connection.new_items(event);
    lemma_every_run_keeps_backlog::<E>();
    if !(after.step is Finished) {
        assert(connection.server_backlog() + to_server(items) =~= sent_to_server(action)
            + after.server_backlog());
        assert(connection.client_backlog() + to_client(items) =~= sent_to_client(action)
            + after.client_backlog());
    }
}

/// How a connection ends: with success exactly if the server, the client or the media channel
/// has closed; at once with the failure of what it asked for, unless that was an ICE stream;
/// and otherwise with the first error that was queued, once everything before it was sent.
/// After that it expects nothing more.
#[verifier::rlimit(40)]
pub proof fn law_connection_ends<E>(
    connection: ConnectionView<E>,
    event: EventView<E>,
    later: EventView<E>,
)
    requires
        connection.valid(),
        connection.expects(event),
    ensures
        ({
            let (after, action) = connection.on_event(event);
            let items = connection.new_items(event);
            &&& action is Finish <==> after.step is Finished
            &&& action is Finish ==> !after.expects(later)
            &&& action == ActionView::<E>::Finish(Ok(())) <==> event is Closed
                && !(connection.step is Candidate)
            &&& event is Failed && !(connection.step is CreateIce) ==> action == ActionView::<
                E,
            >::Finish(Err(ErrorView::Outside(event->Failed_0)))
            &&& action is Finish && action->Finish_0 is Err && (event is Failed
                ==> connection.step is CreateIce) ==> {
                let unsent = connection.queue() + items;
                &&& first_error(unsent) == Some(action->Finish_0->Err_0)
                &&& connection.server_backlog().len() == 0
                &&& connection.client_backlog().len() == 0
                &&& to_server(items).len() == 0
                &&& to_client(items).len() == 0
            }
        }),
{
    let items = connection.new_items(event);
    let none = Seq::<FrameResultView<E>>::empty();
    assert(connection.queue() + none =~= connection.queue());
    assert(none + items =~= items);
    lemma_every_run_keeps_backlog::<E>();
    lemma_every_run_keeps_state::<E>();
}

/// Whether none of some packets is a login that asks for WebRTC.
pub open spec fn no_webrtc_asked(packets: Seq<ControlPacketView<()>>) -> bool {
    forall|i: int|
        0 <= i < packets.len() && #[trigger] packets[i] is Authenticate
            ==> packets[i]->Authenticate_0.webrtc != Some(true)
}

/// The server is never asked for WebRTC: if no login that asks for it waits for the server, none
/// is sent, and none waits afterwards.
pub proof fn law_server_is_not_asked_for_webrtc<E>(
    connection: ConnectionView<E>,
    event: EventView<E>,
)
    requires
        connection.valid(),
        connection.expects(event),
        no_webrtc_asked(connection.server_backlog()),
    ensures
        ({
            let (after, action) = connection.on_event(event);
            &&& no_webrtc_asked(sent_to_server(action))
            &&& !(after.step is Finished) ==> no_webrtc_asked(after.server_backlog())
        }),
{
    let (after, action) = connection.on_event(event);
    let items = connection.new_items(event);
    reveal_with_fuel(to_server, 3);
    law_packets_are_sent_in_order(connection, event);
    law_connection_ends(connection, event, event);
    if let EventView::ServerPacket(packet, now) = event {
        lemma_server_items(connection, packet, now);
    }
    assert(no_webrtc_asked(to_server(items)));
    let all = connection.server_backlog() + to_server(items);
    assert(no_webrtc_asked(all));
    if !(after.step is Finished) {
        let sent = sent_to_server(action);
        let left = after.server_backlog();
        assert forall|i: int|
            0 <= i < left.len() && #[trigger] left[i] is Authenticate implies
            left[i]->Authenticate_0.webrtc != Some(true) by {
            assert(all[sent.len() + i] == left[i]);
        }
        assert forall|i: int|
            0 <= i < sent.len() && #[trigger] sent[i] is Authenticate implies
            sent[i]->Authenticate_0.webrtc != Some(true) by {
            assert(all[i] == sent[i]);
        }
    }
}

/// Frames that all go to the client or over the media channel hold nothing for the server.
proof fn lemma_nothing_to_server<E>(frames: Seq<FrameView>)
    requires
        forall|i: int| 0 <= i < frames.len() ==> !(#[trigger] frames[i] is Server),
    ensures
        to_server(ok_items::<E>(frames)).len() == 0,
    decreases frames.len(),
{
    if frames.len() > 0 {
        assert(ok_items::<E>(frames).drop_first() =~= ok_items::<E>(frames.drop_first()));
        lemma_nothing_to_server::<E>(frames.drop_first());
    }
}

/// What comes from the server goes to the client or over the media channel.
proof fn lemma_server_items<E>(
    connection: ConnectionView<E>,
    packet: ControlPacketView<u32>,
    now: u64,
)
    ensures
        to_server(connection.on_server_packet(packet, now).items).len() == 0,
{
    reveal_with_fuel(to_server, 3);
    if let ControlPacketView::UDPTunnel(voice) = packet {
        if let Some((target, session_id, seq_num, data, last)) = opus_voice(voice) {
            if connection.ice && connection.sessions.contains_key(session_id) {
                lemma_nothing_to_server::<E>(
                    connection.sessions[session_id].voice(target, seq_num, data, last, now).frames,
                );
            }
        }
    }
}

/// A packet is read only when nothing waits to be sent but for a media packet that was held up.
pub proof fn law_packets_are_read_when_all_is_sent<E>(
    connection: ConnectionView<E>,
    event: EventView<E>,
)
    requires
        connection.valid(),
        connection.takes(event),
    ensures
        ({
            let (after, action) = connection.on_event(event);
            &&& action is PollServer || action is PollClient || action is PollMedia
                ==> after.all_sent()
            &&& action is PollServer <==> after.step is ServerPacket
            &&& action is PollClient <==> after.step is ClientPacket
            &&& action is PollMedia <==> after.step is MediaPacket
        }),
{
    law_connection_stays_valid(connection, event);
    lemma_every_run_keeps_state::<E>();
}

/// What a connection has come to have it keeps: its configuration and its identity never change,
/// and an ICE stream, a media channel and the end of the candidates stay.
pub proof fn law_connection_keeps_what_it_has<E>(
    connection: ConnectionView<E>,
    event: EventView<E>,
)
    ensures
        ({
            let after = connection.on_event(event).0;
            &&& after.config == connection.config
            &&& after.identity == connection.identity
            &&& connection.ice ==> after.ice
            &&& connection.dtls_srtp ==> after.dtls_srtp
            &&& connection.candidate_gathering_done ==> after.candidate_gathering_done
        }),
{
    lemma_every_run_keeps_state::<E>();
}

/// Once the ICE stream has announced its last candidate, it is not asked for another one: the
/// end of the candidates is noted, and from then on no event makes the connection ask for one.
/// The connection passes over the candidates, and nothing changes there.
pub proof fn law_candidates_end<E>(connection: ConnectionView<E>, event: EventView<E>)
    requires
        connection.candidate_gathering_done || (connection.step is Candidate && event is Closed),
    ensures
        ({
            let (after, action) = connection.on_event(event);
            &&& after.candidate_gathering_done
            &&& !(action is PollCandidate)
            &&& connection.expects(event) ==> !(after.step is Candidate)
            &&& after.run(Stage::Candidates) == after.run(Stage::Handshake)
        }),
{
    lemma_every_run_keeps_state::<E>();
}

/// WebRTC is there once an ICE stream was made for a client that asked for it, and not before.
/// Until then no users are followed.
pub proof fn law_webrtc_comes_with_ice<E>(connection: ConnectionView<E>, event: EventView<E>)
    requires
        connection.expects(event),
        !connection.ice,
        connection.sessions == Map::<u32, User>::empty(),
    ensures
        connection.on_event(event).0.ice <==> event is IceCreated,
        connection.on_event(event).0.sessions == Map::<u32, User>::empty(),
{
    lemma_every_run_keeps_state::<E>();
}

/// A user keeps its source for as long as it stays.
pub proof fn law_user_keeps_source<E>(
    connection: ConnectionView<E>,
    event: EventView<E>,
    session: u32,
)
    ensures
        ({
            let after = connection.on_event(event).0;
            connection.sessions.contains_key(session) && after.sessions.contains_key(session)
                ==> after.sessions[session].ssrc == connection.sessions[session].ssrc
        }),
{
    lemma_every_run_keeps_state::<E>();
}

/// Users never share a source, and none has the source zero or one that is yet to be given out.
pub proof fn law_users_have_sources_of_their_own<E>(
    connection: ConnectionView<E>,
    event: EventView<E>,
    a: u32,
    b: u32,
)
    requires
        connection.valid(),
        connection.takes(event),
    ensures
        ({
            let after = connection.on_event(event).0;
            &&& after.sessions.contains_key(a) ==> 0 < after.sessions[a].ssrc < after.next_ssrc
            &&& a != b && after.sessions.contains_key(a) && after.sessions.contains_key(b)
                ==> after.sessions[a].ssrc != after.sessions[b].ssrc
        }),
{
    law_connection_stays_valid(connection, event);
}

/// The source of a user who leaves goes to the next one who comes, and no new one is taken.
pub proof fn law_sources_are_reused<E>(connection: ConnectionView<E>, leaves: u32, comes: u32)
    requires
        connection.sessions.contains_key(leaves),
    ensures
        ({
            let after = connection.without_user(leaves).with_user(comes);
            &&& after.sessions[comes] == User::fresh(comes, connection.sessions[leaves].ssrc)
            &&& after.next_ssrc == connection.next_ssrc
            &&& after.free_ssrcs == connection.free_ssrcs
        }),
{
    let free = connection.free_ssrcs;
    assert(free.push(connection.sessions[leaves].ssrc).drop_last() =~= free);
}

/// The client learns the source of each user: the first state of a user that the server sends
/// reaches the client with the source under which the user is filed, and is otherwise as it was.
/// What follows for this user passes as it is.
pub proof fn law_client_learns_sources<E>(
    connection: ConnectionView<E>,
    message: UserStateView,
    now: u64,
)
    requires
        connection.valid(),
        connection.ice,
    ensures
        ({
            let session = session_or_zero(message.session);
            let outcome = connection.on_server_packet(ControlPacketView::UserState(message), now);
            let client_gets = to_client(outcome.items);
            &&& outcome.connection.sessions.contains_key(session)
            &&& client_gets == seq![
                ControlPacketView::<u32>::UserState(
                    if connection.sessions.contains_key(session) {
                        message
                    } else {
                        UserStateView {
                            ssrc: Some(outcome.connection.sessions[session].ssrc),
                            ..message
                        }
                    },
                ),
            ]
        }),
{
    reveal_with_fuel(to_client, 2);
    let packet = ControlPacketView::UserState(message);
    let outcome = connection.on_server_packet(packet, now);
    assert(outcome.items.drop_first() =~= Seq::empty());
    assert(to_client(outcome.items) =~= seq![outcome.items[0]->Ok_0->Client_0]);
}

/// How many more sources an action makes room for.
pub open spec fn room_made<E>(action: ActionView<E>) -> int {
    match action {
        ActionView::AllowSsrcs(n) => n as int,
        _ => 0,
    }
}

/// The media channel has room for the sources in use: when it comes up, room is made for all
/// that were ever given out, and from then on for each new one.
pub proof fn law_room_is_made_for_sources<E>(connection: ConnectionView<E>, event: EventView<E>)
    requires
        connection.valid(),
        connection.takes(event),
    ensures
        ({
            let (after, action) = connection.on_event(event);
            if connection.step is Handshake && event is Ready {
                &&& after.dtls_srtp
                &&& after.next_ssrc == connection.next_ssrc
                &&& room_made(action) == after.next_ssrc
            } else {
                &&& after.dtls_srtp == connection.dtls_srtp
                &&& room_made(action) == if after.dtls_srtp {
                    after.next_ssrc - connection.next_ssrc
                } else {
                    0
                }
            }
        }),
{
    lemma_every_run_keeps_state::<E>();
}

/// Nothing is sent over a media channel that is not up, and nothing is awaited from it.
pub proof fn law_media_needs_channel<E>(connection: ConnectionView<E>, event: EventView<E>)
    requires
        connection.valid(),
        connection.expects(event),
    ensures
        ({
            let (after, action) = connection.on_event(event);
            action is PollMediaSink || action is SendMedia || action is FlushMedia
                || action is PollMedia || action is AllowSsrcs ==> after.dtls_srtp
        }),
{
    lemma_every_run_keeps_state::<E>();
}

/// Without WebRTC a packet from the server reaches the client as it is, and nothing else comes
/// of it.
pub proof fn law_server_packets_pass_without_webrtc<E>(
    connection: ConnectionView<E>,
    packet: ControlPacketView<u32>,
    now: u64,
)
    requires
        connection.valid(),
        connection.step is ServerPacket,
        !connection.ice,
    ensures
        ({
            let (after, action) = connection.on_event(EventView::ServerPacket(packet, now));
            &&& !(action is Finish)
            &&& after.client_backlog() == seq![packet]
            &&& after.server_backlog().len() == 0
            &&& after.sessions == connection.sessions
        }),
{
    let event = EventView::ServerPacket(packet, now);
    let items = connection.new_items(event);
    reveal_with_fuel(to_client, 3);
    reveal_with_fuel(to_server, 3);
    reveal_with_fuel(first_error, 3);
    lemma_every_run_keeps_state::<E>();
    let sending = ConnectionView { stream_to_be_sent: Some(items), ..connection };
    lemma_run_keeps_backlog(sending, Stage::Agent);
    assert(items.drop_first() =~= Seq::empty());
    assert(sending.client_backlog() =~= seq![packet]);
    assert(sending.server_backlog() =~= Seq::empty());
}

/// A packet from the client that is not about logging in, WebRTC or talking reaches the server
/// as it is, with WebRTC or without, and nothing else comes of it. So does a login that does
/// not ask for WebRTC.
pub proof fn law_client_packets_pass<E>(
    connection: ConnectionView<E>,
    packet: ControlPacketView<()>,
)
    requires
        connection.valid(),
        connection.step is ClientPacket,
        !(packet is WebRTC || packet is IceCandidate || packet is TalkingState),
        packet is Authenticate ==> packet->Authenticate_0.webrtc != Some(true),
    ensures
        ({
            let (after, action) = connection.on_event(EventView::ClientPacket(packet));
            &&& !(action is Finish)
            &&& after.server_backlog() == seq![packet]
            &&& after.client_backlog().len() == 0
            &&& after.sessions == connection.sessions
            &&& after.target == connection.target
        }),
{
    let event = EventView::ClientPacket(packet);
    let items = connection.new_items(event);
    reveal_with_fuel(to_client, 3);
    reveal_with_fuel(to_server, 3);
    reveal_with_fuel(first_error, 3);
    lemma_every_run_keeps_state::<E>();
    let sending = ConnectionView { stream_to_be_sent: Some(items), ..connection };
    lemma_run_keeps_backlog(sending, Stage::Agent);
    assert(items.drop_first() =~= Seq::empty());
    assert(sending.server_backlog() =~= seq![packet]);
    assert(sending.client_backlog() =~= Seq::empty());
}

/// A client that asks for WebRTC gets it: its login goes to the server without the wish and
/// with Opus, and the client is told, after the login, how to reach the ICE stream and which
/// certificate to expect there. Where no ICE stream can be made, the login goes to the server
/// all the same, and then the connection ends with the error.
pub proof fn law_webrtc_login<E>(
    connection: ConnectionView<E>,
    login: AuthenticateView,
    created: Result<IceCredentialsView, E>,
)
    requires
        connection.valid(),
        connection.step is ClientPacket,
        login.webrtc == Some(true),
    ensures
        ({
            let packet = ControlPacketView::Authenticate(login);
            let (asking, asked) = connection.on_event(EventView::ClientPacket(packet));
            let answer = match created {
                Ok(credentials) => EventView::IceCreated(credentials),
                Err(error) => EventView::Failed(error),
            };
            let (after, action) = asking.on_event(answer);
            let server_gets = AuthenticateView {
                opus: Some(true),
                webrtc: None,
                raw: login.raw,
            };
            &&& asked == ActionView::<E>::CreateIce(connection.config.ports())
            &&& asking.expects(answer)
            &&& !(action is Finish)
            &&& after.server_backlog() == seq![ControlPacketView::<()>::Authenticate(server_gets)]
            &&& match created {
                Ok(credentials) => {
                    &&& after.ice
                    &&& after.handshaking
                    &&& after.client_backlog() == seq![
                        ControlPacketView::<u32>::WebRTC(
                            WebRTCView {
                                dtls_fingerprint: Some(
                                    fingerprint_text(connection.identity.digest),
                                ),
                                ice_pwd: Some(credentials.pwd),
                                ice_ufrag: Some(credentials.ufrag),
                                raw: None,
                            },
                        ),
                    ]
                    &&& first_error(after.queue()) is None
                },
                Err(error) => {
                    &&& after.ice == connection.ice
                    &&& after.client_backlog().len() == 0
                    &&& first_error(after.queue()) == Some(ErrorView::Outside(error))
                },
            }
        }),
{
    let packet = ControlPacketView::Authenticate(login);
    let asking = connection.on_event(EventView::ClientPacket(packet)).0;
    let items = asking.login_items(created);
    lemma_every_run_keeps_state::<E>();
    let sending = ConnectionView {
        stream_to_be_sent: Some(items),
        ..asking.after_ice(created)
    };
    lemma_run_keeps_backlog(sending, Stage::Agent);
    reveal_with_fuel(to_client, 3);
    reveal_with_fuel(to_server, 3);
    reveal_with_fuel(first_error, 3);
    let rest = items.drop_first();
    assert(rest =~= asking.ice_items(created));
    assert(rest.drop_first() =~= Seq::empty());
    assert(to_server(rest) =~= Seq::empty());
    assert(sending.server_backlog() =~= seq![
        ControlPacketView::<()>::Authenticate(login.without_webrtc()),
    ]);
    match created {
        Ok(_) => {
            assert(sending.client_backlog() =~= seq![items[1]->Ok_0->Client_0]);
        },
        Err(_) => {
            assert(sending.client_backlog() =~= Seq::empty());
        },
    }
}

/// Where some user has been silent for too long, one of those has the lowest session.
proof fn lemma_some_user_expired_first(sessions: Map<u32, User>, now: u64, session: u32)
    requires
        expired(sessions, now, session),
    ensures
        exists|s: u32| first_expired(sessions, now, s),
    decreases session,
{
    if !first_expired(sessions, now, session) {
        let lower = choose|s: u32| #[trigger] expired(sessions, now, s) && s < session;
        lemma_some_user_expired_first(sessions, now, lower);
    }
}

/// A transmission ends at its deadline and not before. While some user has been silent for too
/// long, no packet is read: the user of the lowest session such is made inactive and the client
/// is told so, and no other user is touched.
pub proof fn law_silence_ends_transmissions<E>(
    connection: ConnectionView<E>,
    now: u64,
    session: u32,
)
    requires
        connection.valid(),
        connection.step is Clock,
    ensures
        ({
            let (after, action) = connection.on_event(EventView::Time(now));
            if first_expired(connection.sessions, now, session) {
                &&& after.sessions == connection.sessions.insert(
                    session,
                    connection.sessions[session].inactive(),
                )
                &&& !after.sessions[session].active
                &&& !expired(after.sessions, now, session)
                &&& after.client_backlog() == seq![
                    stopped_frame(session)->Client_0,
                ]
                &&& after.server_backlog().len() == 0
            } else {
                connection.sessions.contains_key(session) ==> after.sessions.contains_key(session)
                    && after.sessions[session] == connection.sessions[session]
            }
        }),
        ({
            let (after, action) = connection.on_event(EventView::Time(now));
            action is PollServer || action is PollClient || action is PollMedia ==> !expired(
                after.sessions,
                now,
                session,
            )
        }),
{
    lemma_every_run_keeps_state::<E>();
    reveal_with_fuel(to_client, 3);
    reveal_with_fuel(to_server, 3);
    reveal_with_fuel(first_error, 3);
    if exists|s: u32| first_expired(connection.sessions, now, s) {
        let s = choose|s: u32| first_expired(connection.sessions, now, s);
        let user = connection.sessions[s];
        assert(user.active);
        let items = ok_items::<E>(user.inactive_frames());
        let sending = ConnectionView {
            sessions: connection.sessions.insert(s, user.inactive()),
            stream_to_be_sent: Some(items),
            ..connection
        };
        assert(items.drop_first() =~= Seq::empty());
        lemma_run_keeps_backlog(sending, Stage::Agent);
        assert(sending.client_backlog() =~= seq![stopped_frame(s)->Client_0]);
        assert(sending.server_backlog() =~= Seq::empty());
        law_packets_are_read_when_all_is_sent(connection, EventView::Time(now));
    } else if expired(connection.sessions, now, session) {
        lemma_some_user_expired_first(connection.sessions, now, session);
    }
}

/// The client is heard only while it says that it is talking, and by those it says it is
/// talking to.
pub proof fn law_client_is_heard_while_talking<E>(
    connection: ConnectionView<E>,
    message: TalkingStateView,
    packet: MuxedPacketView,
)
    ensures
        ({
            let outcome = connection.on_client_packet(ControlPacketView::TalkingState(message));
            let items = outcome.connection.media_items(packet);
            &&& outcome.reaction == ReactionView::<E>::Items(Seq::empty())
            &&& items.len() == if packet is Rtp && message.target is Some { 1nat } else { 0 }
            &&& items.len() == 1 ==> {
                let voice = to_server(items)[0]->UDPTunnel_0;
                &&& to_server(items).len() == 1
                &&& to_server(items)[0] is UDPTunnel
                &&& voice is Audio
                &&& voice->target as int == message.target->0 as int % 256
                &&& voice->payload == VoicePacketPayloadView::Opus(
                    packet->Rtp_0.payload,
                    false,
                )
            }
        }),
{
    reveal_with_fuel(to_server, 3);
}

/// The client's voice is numbered by its timestamps, as the voice that the client gets is: a
/// packet as the proxy makes it for a number gives that number when it comes back, unless the
/// timestamp has wrapped around.
pub proof fn law_numbers_come_from_timestamps<E>(
    connection: ConnectionView<E>,
    user: User,
    marker: bool,
    number: u32,
    data: Seq<u8>,
)
    requires
        connection.target is Some,
        number * 480 <= u32::MAX,
    ensures
        ({
            let rtp = user.rtp_frame(marker, number, data)->Rtp_0;
            let items = connection.media_items(MuxedPacketView::Rtp(rtp));
            &&& to_server(items).len() == 1
            &&& to_server(items)[0]->UDPTunnel_0->seq_num == number
        }),
{
    reveal_with_fuel(to_server, 3);
}

/// The frames among some items.
pub open spec fn frames_in<E>(items: Seq<FrameResultView<E>>) -> Seq<FrameView> {
    items.map_values(|item: FrameResultView<E>| item->Ok_0)
}

/// The client always knows who is talking: if it did before a packet of voice came from the
/// server or a transmission ended by silence, it does when it has got what comes of that.
pub proof fn law_client_knows_all_who_talk<E>(
    connection: ConnectionView<E>,
    event: EventView<E>,
    session: u32,
)
    requires
        connection.valid(),
        connection.expects(event),
        connection.ice,
        event is Time || (event is ServerPacket && event->ServerPacket_0 is UDPTunnel),
        connection.sessions.contains_key(session),
    ensures
        ({
            let after = connection.on_event(event).0;
            &&& after.sessions.contains_key(session)
            &&& told(
                session,
                connection.sessions[session].active,
                frames_in(connection.new_items(event)),
            ) == after.sessions[session].active
        }),
{
    lemma_every_run_keeps_state::<E>();
    let talking = connection.sessions[session].active;
    let items = connection.new_items(event);
    match event {
        EventView::Time(now) => {
            if exists|s: u32| first_expired(connection.sessions, now, s) {
                let s = choose|s: u32| first_expired(connection.sessions, now, s);
                let user = connection.sessions[s];
                assert(frames_in(items) =~= user.inactive_frames());
                law_client_knows_who_talks(user, 0, 0, Seq::empty(), false, 0, session, talking);
            }
        },
        EventView::ServerPacket(packet, now) => {
            match opus_voice(packet->UDPTunnel_0) {
                Some((target, s, seq_num, data, last)) if connection.sessions.contains_key(s) => {
                    let user = connection.sessions[s];
                    assert(frames_in(items) =~= user.voice(
                        target,
                        seq_num,
                        data,
                        last,
                        now,
                    ).frames);
                    law_client_knows_who_talks(
                        user,
                        target,
                        seq_num,
                        data,
                        last,
                        now,
                        session,
                        talking,
                    );
                },
                _ => {},
            }
        },
        _ => {},
    }
}

/// A media packet that cannot be sent yet holds nothing up: the queue goes on, and the packet
/// waits unless a newer one takes its place.
pub proof fn law_media_holds_nothing_up<E>(connection: ConnectionView<E>)
    requires
        connection.valid(),
        connection.step is MediaSink,
    ensures
        ({
            let (after, action) = connection.on_event(EventView::Pending);
            let queue = connection.queue();
            &&& after.queue() == if queue.len() > 0 {
                queue.drop_first()
            } else {
                queue
            }
            &&& after.next_rtp_frame == if queue.len() > 0 && queue[0] is Ok && queue[0]->Ok_0
                is Rtp {
                Some(rtp_bytes(queue[0]->Ok_0->Rtp_0))
            } else {
                connection.next_rtp_frame
            }
        }),
{
    reveal_with_fuel(ConnectionView::run, 3);
    assert(connection.queue().len() == 0 ==> connection.queue() =~= Seq::empty());
}

/// The connection after some events.
pub open spec fn play<E>(
    connection: ConnectionView<E>,
    events: Seq<EventView<E>>,
) -> ConnectionView<E>
    decreases events.len(),
{
    if events.len() == 0 {
        connection
    } else {
        play(connection, events.drop_last()).on_event(events.last()).0
    }
}

/// Whether the connection can take some events, one after the other.
pub open spec fn plays<E>(connection: ConnectionView<E>, events: Seq<EventView<E>>) -> bool
    decreases events.len(),
{
    events.len() == 0 || (plays(connection, events.drop_last()) && play(
        connection,
        events.drop_last(),
    ).takes(events.last()))
}

/// All that was sent to the server over some events.
pub open spec fn all_to_server<E>(
    connection: ConnectionView<E>,
    events: Seq<EventView<E>>,
) -> Seq<ControlPacketView<()>>
    decreases events.len(),
{
    if events.len() == 0 {
        Seq::empty()
    } else {
        let before = events.drop_last();
        all_to_server(connection, before) + sent_to_server(
            play(connection, before).on_event(events.last()).1,
        )
    }
}

/// All that was sent to the client over some events.
pub open spec fn all_to_client<E>(
    connection: ConnectionView<E>,
    events: Seq<EventView<E>>,
) -> Seq<ControlPacketView<u32>>
    decreases events.len(),
{
    if events.len() == 0 {
        Seq::empty()
    } else {
        let before = events.drop_last();
        all_to_client(connection, before) + sent_to_client(
            play(connection, before).on_event(events.last()).1,
        )
    }
}

/// All that some events had for the server.
pub open spec fn all_for_server<E>(
    connection: ConnectionView<E>,
    events: Seq<EventView<E>>,
) -> Seq<ControlPacketView<()>>
    decreases events.len(),
{
    if events.len() == 0 {
        Seq::empty()
    } else {
        let before = events.drop_last();
        all_for_server(connection, before) + to_server(
            play(connection, before).new_items(events.last()),
        )
    }
}

/// All that some events had for the client.
pub open spec fn all_for_client<E>(
    connection: ConnectionView<E>,
    events: Seq<EventView<E>>,
) -> Seq<ControlPacketView<u32>>
    decreases events.len(),
{
    if events.len() == 0 {
        Seq::empty()
    } else {
        let before = events.drop_last();
        all_for_client(connection, before) + to_client(
            play(connection, before).new_items(events.last()),
        )
    }
}

/// For how many sources room was made in the media channel that is up after some events, since
/// it came up.
pub open spec fn channel_room<E>(connection: ConnectionView<E>, events: Seq<EventView<E>>) -> int
    decreases events.len(),
{
    if events.len() == 0 {
        0
    } else {
        let before = play(connection, events.drop_last());
        let made = room_made(before.on_event(events.last()).1);
        if before.step is Handshake && events.last() is Ready {
            made
        } else {
            channel_room(connection, events.drop_last()) + made
        }
    }
}

/// Over the whole life of a connection, the server and the client get all that was for them, in
/// order and once: what was sent and what still waits is together what the events had for them.
pub proof fn law_everything_arrives_in_order<E>(
    config: Config,
    identity: IdentityView,
    events: Seq<EventView<E>>,
)
    requires
        plays(ConnectionView::<E>::fresh(config, identity), events),
    ensures
        ({
            let connection = ConnectionView::<E>::fresh(config, identity);
            let now = play(connection, events);
            &&& now.valid()
            &&& !(now.step is Finished) ==> {
                &&& all_to_server(connection, events) + now.server_backlog() == all_for_server(
                    connection,
                    events,
                )
                &&& all_to_client(connection, events) + now.client_backlog() == all_for_client(
                    connection,
                    events,
                )
            }
        }),
    decreases events.len(),
{
    let connection = ConnectionView::<E>::fresh(config, identity);
    let now = play(connection, events);
    if events.len() == 0 {
        assert(now.server_backlog() =~= Seq::empty());
        assert(now.client_backlog() =~= Seq::empty());
        assert(all_to_server(connection, events) + now.server_backlog() =~= Seq::empty());
        assert(all_to_client(connection, events) + now.client_backlog() =~= Seq::empty());
    } else {
        let before = events.drop_last();
        let event = events.last();
        let last = play(connection, before);
        law_everything_arrives_in_order::<E>(config, identity, before);
        law_connection_stays_valid(last, event);
        law_packets_are_sent_in_order(last, event);
        let items = last.new_items(event);
        let action = last.on_event(event).1;
        if !(now.step is Finished) {
            assert(all_to_server(connection, events) + now.server_backlog() =~= all_to_server(
                connection,
                before,
            ) + (sent_to_server(action) + now.server_backlog()));
            assert(all_to_server(connection, before) + (last.server_backlog() + to_server(items))
                =~= (all_to_server(connection, before) + last.server_backlog()) + to_server(
                items,
            ));
            assert(all_to_client(connection, events) + now.client_backlog() =~= all_to_client(
                connection,
                before,
            ) + (sent_to_client(action) + now.client_backlog()));
            assert(all_to_client(connection, before) + (last.client_backlog() + to_client(items))
                =~= (all_to_client(connection, before) + last.client_backlog()) + to_client(
                items,
            ));
        }
    }
}

/// Over the whole life of a connection, no login that asks for WebRTC reaches the server.
pub proof fn law_no_login_asks_for_webrtc<E>(
    config: Config,
    identity: IdentityView,
    events: Seq<EventView<E>>,
)
    requires
        plays(ConnectionView::<E>::fresh(config, identity), events),
    ensures
        ({
            let connection = ConnectionView::<E>::fresh(config, identity);
            let now = play(connection, events);
            &&& no_webrtc_asked(all_to_server(connection, events))
            &&& !(now.step is Finished) ==> no_webrtc_asked(now.server_backlog())
        }),
    decreases events.len(),
{
    let connection = ConnectionView::<E>::fresh(config, identity);
    if events.len() == 0 {
        assert(connection.server_backlog() =~= Seq::empty());
    } else {
        let before = events.drop_last();
        law_everything_arrives_in_order::<E>(config, identity, before);
        law_no_login_asks_for_webrtc::<E>(config, identity, before);
        law_server_is_not_asked_for_webrtc(play(connection, before), events.last());
    }
}

/// Over the whole life of a connection, a media channel that is up has room for exactly the
/// sources up to the next new one.
pub proof fn law_media_channel_has_room<E>(
    config: Config,
    identity: IdentityView,
    events: Seq<EventView<E>>,
)
    requires
        plays(ConnectionView::<E>::fresh(config, identity), events),
    ensures
        ({
            let connection = ConnectionView::<E>::fresh(config, identity);
            let now = play(connection, events);
            channel_room(connection, events) == if now.dtls_srtp {
                now.next_ssrc as int
            } else {
                0
            }
        }),
    decreases events.len(),
{
    let connection = ConnectionView::<E>::fresh(config, identity);
    if events.len() > 0 {
        let before = events.drop_last();
        law_everything_arrives_in_order::<E>(config, identity, before);
        law_media_channel_has_room::<E>(config, identity, before);
        law_room_is_made_for_sources(play(connection, before), events.last());
    }
}

/// Giving a source to a new user loses none.
proof fn lemma_with_user_loses_nothing<E>(connection: ConnectionView<E>, session: u32)
    requires
        connection.ssrc_left(),
        connection.no_source_lost(),
        !connection.sessions.contains_key(session),
    ensures
        connection.with_user(session).no_source_lost(),
{
    let after = connection.with_user(session);
    assert(after.sessions.dom() =~= connection.sessions.dom().insert(session));
    assert forall|ssrc: u32| 1 <= ssrc < after.next_ssrc implies #[trigger] after.source_in_use(
        ssrc,
    ) || after.free_ssrcs.contains(ssrc) by {
        if ssrc == connection.ssrc_for_next() {
            assert(after.sessions.contains_key(session) && after.sessions[session].ssrc == ssrc);
        } else if connection.source_in_use(ssrc) {
            let s = choose|s: u32| #[trigger]
                connection.sessions.contains_key(s) && connection.sessions[s].ssrc == ssrc;
            assert(after.sessions.contains_key(s) && after.sessions[s].ssrc == ssrc);
        } else {
            let i = choose|i: int|
                0 <= i < connection.free_ssrcs.len() && connection.free_ssrcs[i] == ssrc;
            assert(after.free_ssrcs[i] == ssrc);
        }
    }
}

/// Taking back the source of a user loses none.
proof fn lemma_without_user_loses_nothing<E>(connection: ConnectionView<E>, session: u32)
    requires
        connection.no_source_lost(),
    ensures
        connection.without_user(session).no_source_lost(),
{
    let after = connection.without_user(session);
    if connection.sessions.contains_key(session) {
        assert(after.sessions.dom() =~= connection.sessions.dom().remove(session));
        let freed = connection.sessions[session].ssrc;
        assert(after.free_ssrcs[connection.free_ssrcs.len() as int] == freed);
        assert forall|ssrc: u32| 1 <= ssrc < after.next_ssrc implies #[trigger] after.source_in_use(
            ssrc,
        ) || after.free_ssrcs.contains(ssrc) by {
            if connection.source_in_use(ssrc) {
                let s = choose|s: u32| #[trigger]
                    connection.sessions.contains_key(s) && connection.sessions[s].ssrc == ssrc;
                if s != session {
                    assert(after.sessions.contains_key(s) && after.sessions[s].ssrc == ssrc);
                }
            } else {
                let i = choose|i: int|
                    0 <= i < connection.free_ssrcs.len() && connection.free_ssrcs[i] == ssrc;
                assert(after.free_ssrcs[i] == ssrc);
            }
        }
    }
}

/// A change of a user that leaves it its source loses none.
proof fn lemma_same_sources_lose_nothing<E>(
    connection: ConnectionView<E>,
    after: ConnectionView<E>,
)
    requires
        connection.no_source_lost(),
        after.next_ssrc == connection.next_ssrc,
        after.free_ssrcs == connection.free_ssrcs,
        after.sessions.dom() == connection.sessions.dom(),
        forall|s: u32| #[trigger]
            after.sessions.contains_key(s) ==> after.sessions[s].ssrc
                == connection.sessions[s].ssrc,
    ensures
        after.no_source_lost(),
{
    assert forall|ssrc: u32| 1 <= ssrc < after.next_ssrc implies #[trigger] after.source_in_use(
        ssrc,
    ) || after.free_ssrcs.contains(ssrc) by {
        if connection.source_in_use(ssrc) {
            let s = choose|s: u32| #[trigger]
                connection.sessions.contains_key(s) && connection.sessions[s].ssrc == ssrc;
            assert(after.sessions.contains_key(s) && after.sessions[s].ssrc == ssrc);
        }
    }
}

/// An event loses no source: if every source that was ever given out belonged to a user or was
/// free, it does so afterwards.
pub proof fn law_event_loses_no_source<E>(connection: ConnectionView<E>, event: EventView<E>)
    requires
        connection.takes(event),
        connection.no_source_lost(),
    ensures
        connection.on_event(event).0.no_source_lost(),
{
    lemma_every_run_keeps_state::<E>();
    let after = connection.on_event(event).0;
    if let EventView::ServerPacket(packet, now) = event {
        let outcome = connection.on_server_packet(packet, now).connection;
        match packet {
            ControlPacketView::UserState(message) if connection.ice
                && !connection.sessions.contains_key(session_or_zero(message.session)) => {
                lemma_with_user_loses_nothing(connection, session_or_zero(message.session));
            },
            ControlPacketView::UserRemove(message) if connection.ice => {
                lemma_without_user_loses_nothing(connection, session_or_zero(message.session));
            },
            _ => {
                assert(outcome.sessions.dom() =~= connection.sessions.dom());
                lemma_same_sources_lose_nothing(connection, outcome);
            },
        }
        lemma_same_sources_lose_nothing(outcome, after);
    } else {
        assert(after.sessions.dom() =~= connection.sessions.dom());
        lemma_same_sources_lose_nothing(connection, after);
    }
}

/// Over the whole life of a connection, no source is lost: those that were ever given out are
/// those of the users and the free ones, and as many.
pub proof fn law_no_source_is_lost<E>(
    config: Config,
    identity: IdentityView,
    events: Seq<EventView<E>>,
)
    requires
        plays(ConnectionView::<E>::fresh(config, identity), events),
    ensures
        play(ConnectionView::<E>::fresh(config, identity), events).no_source_lost(),
    decreases events.len(),
{
    let connection = ConnectionView::<E>::fresh(config, identity);
    if events.len() == 0 {
        assert(connection.sessions.dom() =~= Set::<u32>::empty());
    } else {
        let before = events.drop_last();
        law_no_source_is_lost::<E>(config, identity, before);
        law_event_loses_no_source(play(connection, before), events.last());
    }
}

/// Over the whole life of a connection, the ICE stream is not asked for a candidate after it has
/// announced the last one.
pub proof fn law_ended_candidates_stay_ended<E>(
    connection: ConnectionView<E>,
    events: Seq<EventView<E>>,
    next: EventView<E>,
)
    requires
        connection.candidate_gathering_done,
    ensures
        play(connection, events).candidate_gathering_done,
        !(play(connection, events).on_event(next).1 is PollCandidate),
    decreases events.len(),
{
    if events.len() > 0 {
        law_ended_candidates_stay_ended(connection, events.drop_last(), events.last());
        law_candidates_end(play(connection, events.drop_last()), events.last());
    }
    law_candidates_end(play(connection, events), next);
}

} // verus!
