//! What a connection does about each thing that it is told.
use crate::candidate::{
    candidate_text, public_candidate, sdp_attribute, AttributeView, LocalCandidateView,
};
use crate::config::Config;
use crate::identity::IdentityView;
use crate::laws::{
    first_error, lemma_every_run_keeps_state, lemma_run_keeps_backlog, to_client, to_server,
};
use crate::media::{muxed_packet, rtp_bytes};
use crate::messages::{
    ControlPacketView, ErrorView, FrameResultView, FrameView, IceCandidateView, TalkingStateView,
    UserRemoveView, UserStateView, VoicePacketPayloadView, VoicePacketView, WebRTCView,
};
use crate::model::{ok_items, ConnectionView, IceCredentialsView, StepView};
use crate::schedule::{expired, first_expired, ActionView, EventView, Stage, Turn};
use crate::user::{silenced, told_frame, User};
use vstd::prelude::*;

verus! {

/// Whether a connection has the users, the sources and the state of another one, and differs at
/// most in what waits to be sent and in what it asks for.
pub open spec fn nothing_else_changed<E>(
    before: ConnectionView<E>,
    after: ConnectionView<E>,
) -> bool {
    &&& after.sessions == before.sessions
    &&& sources_unchanged(before, after)
    &&& after.target == before.target
    &&& flags_unchanged(before, after)
}

/// Whether a connection has the sources of another one.
pub open spec fn sources_unchanged<E>(before: ConnectionView<E>, after: ConnectionView<E>) -> bool {
    &&& after.next_ssrc == before.next_ssrc
    &&& after.free_ssrcs == before.free_ssrcs
}

/// Whether a connection has come as far as another one, and is configured alike.
pub open spec fn flags_unchanged<E>(before: ConnectionView<E>, after: ConnectionView<E>) -> bool {
    &&& after.config == before.config
    &&& after.identity == before.identity
    &&& after.ice == before.ice
    &&& after.candidate_gathering_done == before.candidate_gathering_done
    &&& after.handshaking == before.handshaking
    &&& after.dtls_srtp == before.dtls_srtp
}

/// Whether exactly these packets wait for the server and for the client, with no error behind
/// them.
pub open spec fn waits<E>(
    connection: ConnectionView<E>,
    server: Seq<ControlPacketView<()>>,
    client: Seq<ControlPacketView<u32>>,
) -> bool {
    &&& connection.server_backlog() == server
    &&& connection.client_backlog() == client
    &&& first_error(connection.queue()) is None
    &&& !(connection.step is Finished)
}

/// Queueing a packet for the client and starting a round leaves the packet waiting, and changes
/// nothing else.
proof fn lemma_client_packet_waits<E>(
    connection: ConnectionView<E>,
    packet: ControlPacketView<u32>,
)
    requires
        connection.next_serverbound_frame is None,
        connection.next_clientbound_frame is None,
    ensures
        ({
            let (after, action) = connection.send(seq![Ok(FrameView::Client(packet))]);
            &&& waits(after, Seq::empty(), seq![packet])
            &&& nothing_else_changed(connection, after)
            &&& !(action is Finish)
        }),
{
    let items = seq![Ok::<FrameView, ErrorView<E>>(FrameView::Client(packet))];
    lemma_queue_waits(connection, items);
    reveal_with_fuel(to_client, 3);
    reveal_with_fuel(to_server, 3);
    reveal_with_fuel(first_error, 3);
    assert(items.drop_first() =~= Seq::empty());
    assert(to_client(items) =~= seq![packet]);
}

/// Queueing a packet for the server and starting a round leaves the packet waiting, and changes
/// nothing else.
proof fn lemma_server_packet_waits<E>(connection: ConnectionView<E>, packet: ControlPacketView<()>)
    requires
        connection.next_serverbound_frame is None,
        connection.next_clientbound_frame is None,
    ensures
        ({
            let (after, action) = connection.send(seq![Ok(FrameView::Server(packet))]);
            &&& waits(after, seq![packet], Seq::empty())
            &&& nothing_else_changed(connection, after)
            &&& !(action is Finish)
        }),
{
    let items = seq![Ok::<FrameView, ErrorView<E>>(FrameView::Server(packet))];
    lemma_queue_waits(connection, items);
    reveal_with_fuel(to_client, 3);
    reveal_with_fuel(to_server, 3);
    reveal_with_fuel(first_error, 3);
    assert(items.drop_first() =~= Seq::empty());
    assert(to_server(items) =~= seq![packet]);
}

/// Queueing nothing and starting a round leaves nothing waiting, and changes nothing else.
proof fn lemma_nothing_waits<E>(connection: ConnectionView<E>)
    requires
        connection.next_serverbound_frame is None,
        connection.next_clientbound_frame is None,
    ensures
        ({
            let (after, action) = connection.send(Seq::empty());
            &&& waits(after, Seq::empty(), Seq::empty())
            &&& nothing_else_changed(connection, after)
            &&& !(action is Finish)
        }),
{
    lemma_queue_waits(connection, Seq::empty());
}

/// Queueing items and starting a round leaves what is in them waiting, unless an error comes
/// first, and changes nothing else.
proof fn lemma_queue_waits<E>(connection: ConnectionView<E>, items: Seq<FrameResultView<E>>)
    requires
        connection.next_serverbound_frame is None,
        connection.next_clientbound_frame is None,
    ensures
        ({
            let (after, action) = connection.send(items);
            &&& nothing_else_changed(connection, after)
            &&& action is Finish <==> after.step is Finished
            &&& first_error(items) is None ==> !(after.step is Finished)
            &&& !(after.step is Finished) ==> {
                &&& after.server_backlog() == to_server(items)
                &&& after.client_backlog() == to_client(items)
                &&& first_error(after.queue()) == first_error(items)
            }
            &&& after.step is Finished ==> action == ActionView::<E>::Finish(
                Err(first_error(items)->0),
            )
        }),
{
    let sending = ConnectionView { stream_to_be_sent: Some(items), ..connection };
    lemma_every_run_keeps_state::<E>();
    lemma_run_keeps_backlog(sending, Stage::Agent);
    assert(sending.server_backlog() =~= to_server(items));
    assert(sending.client_backlog() =~= to_client(items));
}

/// A new connection has no users, gives out the source 1 first, has nothing to send and can be
/// woken.
pub proof fn law_new_connection_is_blank<E>(config: Config, identity: IdentityView)
    ensures
        ({
            let connection = ConnectionView::<E>::fresh(config, identity);
            &&& connection.config == config
            &&& connection.identity == identity
            &&& connection.sessions == Map::<u32, User>::empty()
            &&& connection.next_ssrc == 1
            &&& connection.free_ssrcs.len() == 0
            &&& connection.target is None
            &&& !connection.ice
            &&& !connection.handshaking
            &&& !connection.dtls_srtp
            &&& !connection.candidate_gathering_done
            &&& connection.next_rtp_frame is None
            &&& waits(connection, Seq::empty(), Seq::empty())
            &&& connection.takes(EventView::Wake)
        }),
{
    let connection = ConnectionView::<E>::fresh(config, identity);
    assert(connection.server_backlog() =~= Seq::empty());
    assert(connection.client_backlog() =~= Seq::empty());
}

/// With WebRTC, each packet of Opus voice from a user that is known is handed to that user, with
/// whatever target, number, data, end and position. What comes of it there is queued as it is,
/// the user is left as it is there, and nothing else changes.
#[verifier::rlimit(40)]
pub proof fn law_opus_is_handed_to_its_user<E>(
    connection: ConnectionView<E>,
    session: u32,
    target: u8,
    seq_num: u64,
    data: Seq<u8>,
    last: bool,
    position_info: Option<Seq<u8>>,
    now: u64,
)
    requires
        connection.valid(),
        connection.step is ServerPacket,
        connection.ice,
        connection.sessions.contains_key(session),
    ensures
        ({
            let packet = ControlPacketView::UDPTunnel(
                VoicePacketView::Audio {
                    target,
                    session_id: session,
                    seq_num,
                    payload: VoicePacketPayloadView::Opus(data, last),
                    position_info,
                },
            );
            let event = EventView::ServerPacket(packet, now);
            let (after, action) = connection.on_event(event);
            let heard = connection.sessions[session].voice(target, seq_num, data, last, now);
            &&& connection.takes(event)
            &&& action == ActionView::<E>::PollAgent
            &&& after.step is Agent
            &&& after.queue() == Seq::new(
                heard.frames.len(),
                |i: int| Ok::<FrameView, ErrorView<E>>(heard.frames[i]),
            )
            &&& after.next_serverbound_frame is None
            &&& after.next_clientbound_frame is None
            &&& after.next_rtp_frame == connection.next_rtp_frame
            &&& after.sessions == connection.sessions.insert(session, heard.user)
            &&& sources_unchanged(connection, after)
            &&& after.target == connection.target
            &&& flags_unchanged(connection, after)
        }),
{
    let packet = ControlPacketView::UDPTunnel(
        VoicePacketView::Audio {
            target,
            session_id: session,
            seq_num,
            payload: VoicePacketPayloadView::Opus(data, last),
            position_info,
        },
    );
    let (after, action) = connection.on_event(EventView::ServerPacket(packet, now));
    let heard = connection.sessions[session].voice(target, seq_num, data, last, now);
    assert(after.queue() =~= Seq::new(
        heard.frames.len(),
        |i: int| Ok::<FrameView, ErrorView<E>>(heard.frames[i]),
    ));
}

/// With WebRTC, a voice packet of a user that is not known, one in another encoding than Opus
/// and a ping give nothing and change nothing.
pub proof fn law_other_voice_is_dropped<E>(
    connection: ConnectionView<E>,
    voice: VoicePacketView<u32>,
    now: u64,
)
    requires
        connection.valid(),
        connection.step is ServerPacket,
        connection.ice,
        voice is Ping || !(voice->payload is Opus) || !connection.sessions.contains_key(
            voice->session_id,
        ),
    ensures
        ({
            let event = EventView::ServerPacket(ControlPacketView::UDPTunnel(voice), now);
            let (after, action) = connection.on_event(event);
            &&& connection.takes(event)
            &&& waits(after, Seq::empty(), Seq::empty())
            &&& nothing_else_changed(connection, after)
        }),
{
    lemma_nothing_waits(connection);
}

/// With WebRTC, the first state of a user gets the user a source: the one freed last, or else
/// the next new one, for which room is made if there is a media channel. The client gets the
/// state with this source and otherwise as it was. A state that names no user is about the user
/// of session zero.
#[verifier::rlimit(40)]
pub proof fn law_new_user_gets_a_source<E>(
    connection: ConnectionView<E>,
    message: UserStateView,
    session: u32,
    now: u64,
)
    requires
        connection.valid(),
        connection.step is ServerPacket,
        connection.ice,
        message.session == Some(session) || (message.session is None && session == 0),
        !connection.sessions.contains_key(session),
        connection.free_ssrcs.len() > 0 || connection.next_ssrc < u32::MAX,
    ensures
        ({
            let event = EventView::ServerPacket(ControlPacketView::UserState(message), now);
            let (after, action) = connection.on_event(event);
            let free = connection.free_ssrcs;
            let reused = free.len() > 0;
            let ssrc = if reused {
                free[free.len() - 1]
            } else {
                connection.next_ssrc
            };
            &&& connection.takes(event)
            &&& waits(
                after,
                Seq::empty(),
                seq![
                    ControlPacketView::UserState(
                        UserStateView {
                            session: message.session,
                            ssrc: Some(ssrc),
                            raw: message.raw,
                        },
                    ),
                ],
            )
            &&& after.sessions == connection.sessions.insert(
                session,
                User {
                    session,
                    ssrc,
                    active: false,
                    timeout: None,
                    start_voice_seq_num: 0,
                    highest_voice_seq_num: 0,
                    rtp_seq_num_offset: 0,
                },
            )
            &&& after.next_ssrc == connection.next_ssrc + if reused {
                0int
            } else {
                1
            }
            &&& after.free_ssrcs == if reused {
                free.take(free.len() - 1)
            } else {
                free
            }
            &&& action == if connection.dtls_srtp && !reused {
                ActionView::<E>::AllowSsrcs(1)
            } else {
                ActionView::PollAgent
            }
            &&& after.target == connection.target
            &&& flags_unchanged(connection, after)
        }),
{
    let packet = ControlPacketView::UserState(message);
    let (after, action) = connection.on_event(EventView::ServerPacket(packet, now));
    let told = ControlPacketView::UserState(
        UserStateView { ssrc: Some(connection.ssrc_for_next()), ..message },
    );
    lemma_client_packet_waits(connection.with_user(session), told);
    let free = connection.free_ssrcs;
    if free.len() > 0 {
        assert(free.drop_last() =~= free.take(free.len() - 1));
    }
    if connection.dtls_srtp && free.len() == 0 {
        reveal_with_fuel(to_client, 3);
        reveal_with_fuel(to_server, 3);
        reveal_with_fuel(first_error, 3);
        assert(after.queue().drop_first() =~= Seq::empty());
        assert(after.client_backlog() =~= seq![told]);
        assert(after.server_backlog() =~= Seq::empty());
    }
}

/// With WebRTC, a later state of a user reaches the client as it is, and changes nothing.
pub proof fn law_known_user_state_passes<E>(
    connection: ConnectionView<E>,
    message: UserStateView,
    session: u32,
    now: u64,
)
    requires
        connection.valid(),
        connection.step is ServerPacket,
        connection.ice,
        message.session == Some(session) || (message.session is None && session == 0),
        connection.sessions.contains_key(session),
    ensures
        ({
            let packet = ControlPacketView::UserState(message);
            let event = EventView::ServerPacket(packet, now);
            let (after, action) = connection.on_event(event);
            &&& connection.takes(event)
            &&& waits(after, Seq::empty(), seq![packet])
            &&& nothing_else_changed(connection, after)
        }),
{
    lemma_client_packet_waits(connection, ControlPacketView::UserState(message));
}

/// With WebRTC, the client hears as it is that a user has left. The user is forgotten, and its
/// source becomes the one freed last. No other user is touched, and none at all where the user
/// was not known.
pub proof fn law_user_who_leaves_is_forgotten<E>(
    connection: ConnectionView<E>,
    message: UserRemoveView,
    session: u32,
    now: u64,
)
    requires
        connection.valid(),
        connection.step is ServerPacket,
        connection.ice,
        message.session == Some(session) || (message.session is None && session == 0),
    ensures
        ({
            let packet = ControlPacketView::UserRemove(message);
            let event = EventView::ServerPacket(packet, now);
            let (after, action) = connection.on_event(event);
            &&& connection.takes(event)
            &&& waits(after, Seq::empty(), seq![packet])
            &&& after.next_ssrc == connection.next_ssrc
            &&& after.target == connection.target
            &&& flags_unchanged(connection, after)
            &&& if connection.sessions.contains_key(session) {
                &&& after.sessions == connection.sessions.remove(session)
                &&& after.free_ssrcs == connection.free_ssrcs.push(
                    connection.sessions[session].ssrc,
                )
            } else {
                &&& after.sessions == connection.sessions
                &&& after.free_ssrcs == connection.free_ssrcs
            }
        }),
{
    lemma_client_packet_waits(
        connection.without_user(session),
        ControlPacketView::UserRemove(message),
    );
}

/// A packet from the server that is about neither voice nor users reaches the client as it is,
/// with WebRTC too, and nothing else comes of it.
pub proof fn law_other_server_packets_pass<E>(
    connection: ConnectionView<E>,
    packet: ControlPacketView<u32>,
    now: u64,
)
    requires
        connection.valid(),
        connection.step is ServerPacket,
        !(packet is UDPTunnel || packet is UserState || packet is UserRemove),
    ensures
        ({
            let event = EventView::ServerPacket(packet, now);
            let (after, action) = connection.on_event(event);
            &&& connection.takes(event)
            &&& waits(after, Seq::empty(), seq![packet])
            &&& nothing_else_changed(connection, after)
        }),
{
    lemma_client_packet_waits(connection, packet);
}

/// Without WebRTC every packet from the server can be taken and reaches the client as it is, and
/// nothing else comes of it.
pub proof fn law_all_server_packets_pass_without_webrtc<E>(
    connection: ConnectionView<E>,
    packet: ControlPacketView<u32>,
    now: u64,
)
    requires
        connection.valid(),
        connection.step is ServerPacket,
        !connection.ice,
    ensures
        ({
            let event = EventView::ServerPacket(packet, now);
            let (after, action) = connection.on_event(event);
            &&& connection.takes(event)
            &&& waits(after, Seq::empty(), seq![packet])
            &&& nothing_else_changed(connection, after)
        }),
{
    lemma_client_packet_waits(connection, packet);
}

/// A packet from the client reaches the server as it is and changes nothing, unless it is about
/// WebRTC or talking, or is a login that asks for WebRTC.
pub proof fn law_other_client_packets_pass<E>(
    connection: ConnectionView<E>,
    packet: ControlPacketView<()>,
)
    requires
        connection.valid(),
        connection.step is ClientPacket,
        !(packet is WebRTC || packet is IceCandidate || packet is TalkingState),
        packet is Authenticate ==> packet->Authenticate_0.webrtc != Some(true),
    ensures
        ({
            let event = EventView::ClientPacket(packet);
            let (after, action) = connection.on_event(event);
            &&& connection.takes(event)
            &&& waits(after, seq![packet], Seq::empty())
            &&& nothing_else_changed(connection, after)
        }),
{
    lemma_server_packet_waits(connection, packet);
}

/// The credentials of the client are handed to the ICE stream, whatever else the message holds:
/// as they are, and empty where the message has none. They are dropped only if one of them holds
/// a zero character, or if there is no ICE stream. Nothing is sent and nothing else changes.
pub proof fn law_credentials_reach_the_ice_stream<E>(
    connection: ConnectionView<E>,
    message: WebRTCView,
    ufrag: Seq<char>,
    pwd: Seq<char>,
)
    requires
        connection.valid(),
        connection.step is ClientPacket,
        message.ice_ufrag == Some(ufrag) || (message.ice_ufrag is None && ufrag.len() == 0),
        message.ice_pwd == Some(pwd) || (message.ice_pwd is None && pwd.len() == 0),
    ensures
        ({
            let event = EventView::ClientPacket(ControlPacketView::WebRTC(message));
            let (after, action) = connection.on_event(event);
            &&& connection.takes(event)
            &&& if connection.ice && !ufrag.contains('\0') && !pwd.contains('\0') {
                action == ActionView::<E>::SetRemoteCredentials { ufrag, pwd }
            } else {
                !(action is SetRemoteCredentials)
            }
            &&& waits(after, Seq::empty(), Seq::empty())
            &&& nothing_else_changed(connection, after)
        }),
{
    lemma_nothing_waits(connection);
    lemma_round_is_quiet(connection);
    assert(message.ice_ufrag is None ==> ufrag =~= Seq::empty());
    assert(message.ice_pwd is None ==> pwd =~= Seq::empty());
    let after = connection.on_event(
        EventView::ClientPacket(ControlPacketView::WebRTC(message)),
    ).0;
    if connection.ice && !ufrag.contains('\0') && !pwd.contains('\0') {
        assert(after.server_backlog() =~= Seq::empty());
        assert(after.client_backlog() =~= Seq::empty());
    }
}

/// A round that starts with an empty queue tells the ICE stream nothing of the client.
proof fn lemma_round_is_quiet<E>(connection: ConnectionView<E>)
    ensures
        !(connection.send(Seq::empty()).1 is SetRemoteCredentials),
        !(connection.send(Seq::empty()).1 is AddRemoteCandidate),
{
    lemma_run_asks(
        ConnectionView { stream_to_be_sent: Some(Seq::empty()), ..connection },
        Stage::Agent,
    );
}

/// A candidate of the client's is handed to the ICE stream with all of its fields, if it can be
/// read. If it cannot, the connection ends with the reason once all else is sent. Without an ICE
/// stream it is dropped.
pub proof fn law_candidates_reach_the_ice_stream<E>(
    connection: ConnectionView<E>,
    message: IceCandidateView,
)
    requires
        connection.valid(),
        connection.step is ClientPacket,
    ensures
        ({
            let event = EventView::ClientPacket(ControlPacketView::IceCandidate(message));
            let (after, action) = connection.on_event(event);
            &&& connection.takes(event)
            &&& nothing_else_changed(connection, after)
            &&& after.server_backlog().len() == 0
            &&& after.client_backlog().len() == 0
            &&& if connection.ice {
                match sdp_attribute("candidate:"@ + message.content) {
                    Ok(AttributeView::Candidate(candidate)) => {
                        &&& action == ActionView::<E>::AddRemoteCandidate(candidate)
                        &&& waits(after, Seq::empty(), Seq::empty())
                    },
                    Ok(AttributeView::Other) => true,
                    Err(reason) => {
                        &&& action == ActionView::<E>::PollAgent
                        &&& first_error(after.queue()) == Some(
                            ErrorView::<E>::IceCandidate(
                                "Error parsing ICE candidate: "@ + reason,
                            ),
                        )
                    },
                }
            } else {
                &&& !(action is AddRemoteCandidate)
                &&& waits(after, Seq::empty(), Seq::empty())
            }
        }),
{
    lemma_nothing_waits(connection);
    lemma_round_is_quiet(connection);
    reveal_with_fuel(to_client, 3);
    reveal_with_fuel(to_server, 3);
    reveal_with_fuel(first_error, 3);
    let after = connection.on_event(
        EventView::ClientPacket(ControlPacketView::IceCandidate(message)),
    ).0;
    if connection.ice {
        assert(after.server_backlog() =~= Seq::empty());
        assert(after.client_backlog() =~= Seq::empty());
    }
}

/// The client says whom it is talking to, by the lower eight bits of the target, or that it has
/// stopped. Nothing is sent and nothing else changes.
pub proof fn law_client_sets_its_target<E>(
    connection: ConnectionView<E>,
    message: TalkingStateView,
)
    requires
        connection.valid(),
        connection.step is ClientPacket,
    ensures
        ({
            let event = EventView::ClientPacket(ControlPacketView::TalkingState(message));
            let (after, action) = connection.on_event(event);
            &&& connection.takes(event)
            &&& message.target is None <==> after.target is None
            &&& message.target is Some ==> after.target->0 == message.target->0 % 256
            &&& waits(after, Seq::empty(), Seq::empty())
            &&& after.sessions == connection.sessions
            &&& sources_unchanged(connection, after)
            &&& flags_unchanged(connection, after)
        }),
{
    let target = connection.on_client_packet(
        ControlPacketView::TalkingState(message),
    ).connection.target;
    lemma_nothing_waits(ConnectionView { target, ..connection });
}

/// A voice packet from the media channel goes to the server while the client is talking: to the
/// client's target, with the payload as it is, numbered by ten milliseconds of its timestamp,
/// never as an end and without a position. Anything else from there, and all of it while the
/// client is not talking, goes nowhere. Nothing else changes.
pub proof fn law_voice_of_client_is_heard<E>(connection: ConnectionView<E>, bytes: Seq<u8>)
    requires
        connection.valid(),
        connection.step is MediaPacket,
    ensures
        ({
            let event = EventView::MediaPacket(bytes);
            let (after, action) = connection.on_event(event);
            &&& connection.takes(event)
            &&& nothing_else_changed(connection, after)
            &&& waits(
                after,
                if connection.target is Some && muxed_packet(bytes) is Rtp {
                    seq![
                        ControlPacketView::UDPTunnel(
                            VoicePacketView::Audio {
                                target: connection.target->0,
                                session_id: (),
                                seq_num: (muxed_packet(bytes)->Rtp_0.timestamp as int / 480) as u64,
                                payload: VoicePacketPayloadView::Opus(
                                    muxed_packet(bytes)->Rtp_0.payload,
                                    false,
                                ),
                                position_info: None,
                            },
                        ),
                    ]
                } else {
                    Seq::empty()
                },
                Seq::empty(),
            )
        }),
{
    lemma_nothing_waits(connection);
    let items = connection.media_items(muxed_packet(bytes));
    if items.len() > 0 {
        lemma_server_packet_waits(connection, items[0]->Ok_0->Server_0);
        assert(items =~= seq![Ok(FrameView::Server(items[0]->Ok_0->Server_0))]);
    }
}

/// A candidate of the ICE stream is told to the client, as a line under its public address, and
/// nothing else comes of it.
pub proof fn law_candidate_is_told<E>(
    connection: ConnectionView<E>,
    candidate: LocalCandidateView,
)
    requires
        connection.valid(),
        connection.step is Candidate,
    ensures
        ({
            let event = EventView::Candidate(candidate);
            let (after, action) = connection.on_event(event);
            &&& connection.takes(event)
            &&& waits(
                after,
                Seq::empty(),
                seq![
                    ControlPacketView::IceCandidate(
                        IceCandidateView {
                            content: "candidate:"@ + candidate_text(
                                public_candidate(connection.config, candidate),
                            ),
                            raw: None,
                        },
                    ),
                ],
            )
            &&& nothing_else_changed(connection, after)
        }),
{
    let items = connection.candidate_items(candidate);
    lemma_client_packet_waits(connection, items[0]->Ok_0->Client_0);
    assert(items =~= seq![Ok(FrameView::Client(items[0]->Ok_0->Client_0))]);
}

/// When the clock is read, the user of the lowest session whose silence has lasted until then is
/// made silent, and the client is told so. No other user is touched.
pub proof fn law_silent_user_is_stopped<E>(
    connection: ConnectionView<E>,
    now: u64,
    session: u32,
)
    requires
        connection.valid(),
        connection.step is Clock,
        connection.sessions.contains_key(session),
        connection.sessions[session].timeout is Some,
        connection.sessions[session].timeout->0 <= now,
        forall|s: u32|
            s < session && #[trigger] connection.sessions.contains_key(s)
                && connection.sessions[s].timeout is Some ==> connection.sessions[s].timeout->0
                > now,
    ensures
        ({
            let event = EventView::Time(now);
            let (after, action) = connection.on_event(event);
            &&& connection.takes(event)
            &&& waits(after, Seq::empty(), seq![told_frame(session, None)->Client_0])
            &&& after.sessions.dom() == connection.sessions.dom()
            &&& silenced(connection.sessions[session], after.sessions[session])
            &&& forall|s: u32|
                s != session && #[trigger] connection.sessions.contains_key(s)
                    ==> after.sessions[s] == connection.sessions[s]
            &&& sources_unchanged(connection, after)
            &&& after.target == connection.target
            &&& flags_unchanged(connection, after)
        }),
{
    let sessions = connection.sessions;
    assert(first_expired(sessions, now, session)) by {
        assert forall|s: u32| #[trigger] expired(sessions, now, s) implies session
            <= s by {
            assert(sessions.contains_key(s));
        }
    }
    let s = choose|s: u32| first_expired(sessions, now, s);
    assert(s == session);
    let user = sessions[session];
    assert(user.active);
    let told = told_frame(session, None)->Client_0;
    let items = ok_items::<E>(user.inactive_frames());
    assert(items =~= seq![Ok(FrameView::Client(told))]);
    let silent = ConnectionView {
        sessions: sessions.insert(session, user.inactive()),
        ..connection
    };
    lemma_client_packet_waits(silent, told);
    assert(silent.sessions.dom() =~= sessions.dom());
}

/// When the clock is read and no silence has lasted until then, no user is touched and nothing is
/// sent. The connection goes on to the candidates of the ICE stream, the handshake or the server,
/// whichever of them is due.
pub proof fn law_clock_without_silence<E>(connection: ConnectionView<E>, now: u64)
    requires
        connection.valid(),
        connection.step is Clock,
        forall|s: u32| #[trigger]
            connection.sessions.contains_key(s) && connection.sessions[s].timeout is Some
                ==> connection.sessions[s].timeout->0 > now,
    ensures
        ({
            let event = EventView::Time(now);
            let (after, action) = connection.on_event(event);
            &&& connection.takes(event)
            &&& after == (ConnectionView { step: after.step, ..connection })
            &&& action == if connection.ice && !connection.candidate_gathering_done {
                ActionView::<E>::PollCandidate
            } else if connection.handshaking {
                ActionView::PollHandshake
            } else {
                ActionView::PollServer
            }
        }),
{
    assert forall|s: u32| !first_expired(connection.sessions, now, s) by {
        assert(expired(connection.sessions, now, s)
            ==> connection.sessions.contains_key(s));
    }
    reveal_with_fuel(ConnectionView::run, 4);
}

/// What else a connection knows changes only by these events: its target by the client's talking
/// state, its users and sources by packets from the server and by the clock, and how far it has
/// come by ICE streams, their candidates and handshakes.
pub proof fn law_state_changes_by_its_events<E>(
    connection: ConnectionView<E>,
    event: EventView<E>,
)
    requires
        connection.valid(),
        connection.expects(event),
    ensures
        ({
            let after = connection.on_event(event).0;
            &&& after.config == connection.config
            &&& after.identity == connection.identity
            &&& !(event is ClientPacket && event->ClientPacket_0 is TalkingState) ==> after.target
                == connection.target
            &&& !(event is ServerPacket || event is Time) ==> after.sessions == connection.sessions
            &&& !(event is ServerPacket) ==> sources_unchanged(connection, after)
            &&& after.ice == (connection.ice || event is IceCreated)
            &&& after.handshaking == (event is IceCreated || (connection.handshaking && !(
            connection.step is Handshake && event is Ready)))
            &&& after.dtls_srtp == (connection.dtls_srtp || (connection.step is Handshake
                && event is Ready))
            &&& after.candidate_gathering_done == (connection.candidate_gathering_done || (
            connection.step is Candidate && event is Closed))
        }),
{
    lemma_every_run_keeps_state::<E>();
}

/// Whether a connection that asks for an action notes that it waits for its answer.
pub open spec fn noted<E>(step: StepView, action: ActionView<E>) -> bool {
    match action {
        ActionView::PollAgent => step is Agent,
        ActionView::PollServerSink => step is ServerSink,
        ActionView::SendToServer(_) => step is ServerSend,
        ActionView::PollClientSink => step is ClientSink,
        ActionView::SendToClient(_) => step is ClientSend,
        ActionView::PollMediaSink => step is MediaSink,
        ActionView::SendMedia(_) => step is MediaSend,
        ActionView::FlushClient => step is ClientFlush,
        ActionView::FlushServer => step is ServerFlush,
        ActionView::FlushMedia => step is MediaFlush,
        ActionView::ReadClock => step is Clock,
        ActionView::PollCandidate => step is Candidate,
        ActionView::PollHandshake => step is Handshake,
        ActionView::AllowSsrcs(_) => step is HandshakeSsrcs || step is Reaction,
        ActionView::PollServer => step is ServerPacket,
        ActionView::PollClient => step is ClientPacket,
        ActionView::PollMedia => step is MediaPacket,
        ActionView::CreateIce(_) => step is CreateIce,
        ActionView::SetRemoteCredentials { ufrag: _, pwd: _ } => step is Reaction,
        ActionView::AddRemoteCandidate(_) => step is Reaction,
        ActionView::Wait => step is Idle,
        ActionView::Finish(_) => step is Finished,
    }
}

/// Going on from a stage ends with a question that is noted, and tells the ICE stream nothing.
proof fn lemma_run_asks<E>(connection: ConnectionView<E>, stage: Stage)
    ensures
        noted(connection.run(stage).0.step, connection.run(stage).1),
        !(connection.run(stage).1 is SetRemoteCredentials),
        !(connection.run(stage).1 is AddRemoteCandidate),
    decreases connection.queued(), stage.left(),
{
    match connection.turn(stage) {
        Turn::Ask(_, _) => {},
        Turn::Go(next) => lemma_run_asks(connection.after_stage(stage), next),
    }
}

/// Each action can be answered in all the ways that its outcome may have: it is done, or not
/// yet, or failed, or came to its end, or brought what was asked for. A packet from the server
/// can be taken as long as a source is left. After the end nothing can be answered.
#[verifier::rlimit(40)]
pub proof fn law_answers_are_taken<E>(
    connection: ConnectionView<E>,
    event: EventView<E>,
    error: E,
    now: u64,
    candidate: LocalCandidateView,
    from_server: ControlPacketView<u32>,
    from_client: ControlPacketView<()>,
    bytes: Seq<u8>,
    credentials: IceCredentialsView,
    any: EventView<E>,
)
    requires
        connection.valid(),
        connection.takes(event),
    ensures
        ({
            let (after, action) = connection.on_event(event);
            let done = after.takes(EventView::Ready);
            let later = after.takes(EventView::Pending);
            let failed = after.takes(EventView::Failed(error));
            let ended = after.takes(EventView::Closed);
            match action {
                ActionView::PollAgent => done,
                ActionView::PollServerSink => done && later && failed,
                ActionView::SendToServer(_) => done && failed,
                ActionView::PollClientSink => done && later && failed,
                ActionView::SendToClient(_) => done && failed,
                ActionView::PollMediaSink => done && later && failed,
                ActionView::SendMedia(_) => done && failed,
                ActionView::FlushClient => done && later && failed,
                ActionView::FlushServer => done && later && failed,
                ActionView::FlushMedia => done && later && failed,
                ActionView::ReadClock => after.takes(EventView::Time(now)),
                ActionView::PollCandidate => {
                    &&& later
                    &&& ended
                    &&& after.takes(EventView::Candidate(candidate))
                },
                ActionView::PollHandshake => done && later && failed,
                ActionView::AllowSsrcs(_) => done,
                ActionView::PollServer => {
                    &&& later
                    &&& failed
                    &&& ended
                    &&& after.free_ssrcs.len() > 0 || after.next_ssrc < u32::MAX || !(from_server
                        is UserState) || !after.ice ==> after.takes(
                        EventView::ServerPacket(from_server, now),
                    )
                },
                ActionView::PollClient => {
                    &&& later
                    &&& failed
                    &&& ended
                    &&& after.takes(EventView::ClientPacket(from_client))
                },
                ActionView::PollMedia => {
                    &&& later
                    &&& failed
                    &&& ended
                    &&& after.takes(EventView::MediaPacket(bytes))
                },
                ActionView::CreateIce(_) => failed && after.takes(
                    EventView::IceCreated(credentials),
                ),
                ActionView::SetRemoteCredentials { ufrag: _, pwd: _ } => done,
                ActionView::AddRemoteCandidate(_) => done,
                ActionView::Wait => after.takes(EventView::Wake),
                ActionView::Finish(_) => !after.takes(any),
            }
        }),
{
    assert forall|c: ConnectionView<E>, stage: Stage|
        #![trigger c.run(stage)]
        noted(c.run(stage).0.step, c.run(stage).1) by {
        lemma_run_asks(c, stage);
    }
}

/// What waits goes first. Once the ICE agent was driven on, or at once without one, the server's
/// packet is next, then the client's, then that for the media channel. After these, the first
/// item of the queue takes its place, or ends the connection if it is an error. With nothing
/// left, the sinks are flushed.
#[verifier::rlimit(40)]
pub proof fn law_what_waits_goes_first<E>(connection: ConnectionView<E>)
    requires
        connection.valid(),
        connection.step is Agent || (connection.step is Idle && !connection.ice),
    ensures
        ({
            let event = if connection.step is Agent {
                EventView::<E>::Ready
            } else {
                EventView::Wake
            };
            let (after, action) = connection.on_event(event);
            let same = after == (ConnectionView { step: after.step, ..connection });
            let queue = connection.queue();
            &&& connection.takes(event)
            &&& if connection.next_serverbound_frame is Some {
                same && action == ActionView::<E>::PollServerSink
            } else if connection.next_clientbound_frame is Some {
                same && action == ActionView::<E>::PollClientSink
            } else if connection.next_rtp_frame is Some && connection.dtls_srtp {
                same && action == ActionView::<E>::PollMediaSink
            } else if queue.len() == 0 {
                &&& action == ActionView::<E>::FlushClient
                &&& after.stream_to_be_sent is None
            } else {
                match queue[0] {
                    Err(error) => action == ActionView::<E>::Finish(Err(error)),
                    Ok(FrameView::Server(packet)) => {
                        &&& after.next_serverbound_frame == Some(packet)
                        &&& after.queue() == queue.skip(1)
                        &&& action == if connection.ice {
                            ActionView::<E>::PollAgent
                        } else {
                            ActionView::PollServerSink
                        }
                    },
                    Ok(FrameView::Client(packet)) => {
                        &&& after.next_clientbound_frame == Some(packet)
                        &&& after.queue() == queue.skip(1)
                        &&& action == if connection.ice {
                            ActionView::<E>::PollAgent
                        } else {
                            ActionView::PollClientSink
                        }
                    },
                    Ok(FrameView::Rtp(packet)) => connection.ice ==> {
                        &&& after.next_rtp_frame == Some(rtp_bytes(packet))
                        &&& after.queue() == queue.skip(1)
                        &&& action == ActionView::<E>::PollAgent
                    },
                }
            }
        }),
{
    reveal_with_fuel(ConnectionView::run, 9);
    let queue = connection.queue();
    if queue.len() > 0 {
        assert(queue.drop_first() =~= queue.skip(1));
    }
}

/// A sink that takes a packet gets the one that waited for it, which waits no more. While a sink
/// for control packets takes none, the connection waits and nothing changes.
pub proof fn law_sinks_get_what_waited<E>(connection: ConnectionView<E>)
    requires
        connection.valid(),
    ensures
        ({
            let (sent, sends) = connection.on_event(EventView::Ready);
            let (held, waits) = connection.on_event(EventView::Pending);
            &&& connection.step is ServerSink ==> {
                &&& connection.next_serverbound_frame is Some
                &&& sends == ActionView::<E>::SendToServer(connection.next_serverbound_frame->0)
                &&& sent == (ConnectionView {
                    next_serverbound_frame: None,
                    step: StepView::ServerSend,
                    ..connection
                })
                &&& waits == ActionView::<E>::Wait
                &&& held == (ConnectionView { step: StepView::Idle, ..connection })
            }
            &&& connection.step is ClientSink ==> {
                &&& connection.next_clientbound_frame is Some
                &&& sends == ActionView::<E>::SendToClient(connection.next_clientbound_frame->0)
                &&& sent == (ConnectionView {
                    next_clientbound_frame: None,
                    step: StepView::ClientSend,
                    ..connection
                })
                &&& waits == ActionView::<E>::Wait
                &&& held == (ConnectionView { step: StepView::Idle, ..connection })
            }
            &&& connection.step is MediaSink ==> {
                &&& connection.next_rtp_frame is Some
                &&& sends == ActionView::<E>::SendMedia(connection.next_rtp_frame->0)
                &&& sent == (ConnectionView {
                    next_rtp_frame: None,
                    step: StepView::MediaSend,
                    ..connection
                })
            }
        }),
{
}

/// After a packet was sent, what waits for the next sink in line goes next: that for the client
/// after that for the server, that for the media channel after those, and then the queue.
#[verifier::rlimit(40)]
pub proof fn law_sinks_take_turns<E>(connection: ConnectionView<E>)
    requires
        connection.valid(),
        connection.step is ServerSend || connection.step is ClientSend || connection.step
            is MediaSend,
    ensures
        ({
            let (after, action) = connection.on_event(EventView::Ready);
            let same = after == (ConnectionView { step: after.step, ..connection });
            let queue = connection.queue();
            if connection.next_clientbound_frame is Some {
                same && action == ActionView::<E>::PollClientSink
            } else if connection.next_rtp_frame is Some && connection.dtls_srtp {
                same && action == ActionView::<E>::PollMediaSink
            } else if queue.len() == 0 {
                action == ActionView::<E>::FlushClient
            } else {
                match queue[0] {
                    Err(error) => action == ActionView::<E>::Finish(Err(error)),
                    Ok(FrameView::Server(packet)) => {
                        &&& after.next_serverbound_frame == Some(packet)
                        &&& after.queue() == queue.skip(1)
                    },
                    Ok(FrameView::Client(packet)) => {
                        &&& after.next_clientbound_frame == Some(packet)
                        &&& after.queue() == queue.skip(1)
                    },
                    Ok(FrameView::Rtp(packet)) => connection.ice ==> {
                        &&& after.next_rtp_frame == Some(rtp_bytes(packet))
                        &&& after.queue() == queue.skip(1)
                    },
                }
            }
        }),
{
    reveal_with_fuel(ConnectionView::run, 8);
    let queue = connection.queue();
    if queue.len() > 0 {
        assert(queue.drop_first() =~= queue.skip(1));
    }
}

/// The order of a round, once nothing waits: the sinks of the client, the server and the media
/// channel are flushed, whether that is done at once or not; then the clock is read, candidates
/// and handshake follow, and the server, the client and the media channel are asked for packets.
/// The media channel is passed over until it is up. Nothing changes on the way.
pub proof fn law_round_goes_on<E>(connection: ConnectionView<E>, event: EventView<E>)
    requires
        connection.valid(),
        connection.expects(event),
        event is Pending || (event is Ready && (connection.step is ClientFlush || connection.step
            is ServerFlush || connection.step is MediaFlush || connection.step is HandshakeSsrcs)),
        !(connection.step is ServerSink || connection.step is ClientSink || connection.step
            is MediaSink),
    ensures
        ({
            let (after, action) = connection.on_event(event);
            &&& after == (ConnectionView { step: after.step, ..connection })
            &&& action == match connection.step {
                StepView::ClientFlush => ActionView::<E>::FlushServer,
                StepView::ServerFlush => if connection.dtls_srtp {
                    ActionView::FlushMedia
                } else {
                    ActionView::ReadClock
                },
                StepView::MediaFlush => ActionView::ReadClock,
                StepView::Candidate => if connection.handshaking {
                    ActionView::PollHandshake
                } else {
                    ActionView::PollServer
                },
                StepView::Handshake => ActionView::PollServer,
                StepView::HandshakeSsrcs => ActionView::PollServer,
                StepView::ServerPacket => ActionView::PollClient,
                StepView::ClientPacket => if connection.dtls_srtp {
                    ActionView::PollMedia
                } else {
                    ActionView::Wait
                },
                _ => ActionView::Wait,
            }
        }),
{
    reveal_with_fuel(ConnectionView::run, 3);
}

/// With an ICE stream, a round starts with driving the ICE agent on, when the connection is woken
/// and when something was done on behalf of a packet, and nothing changes by that.
pub proof fn law_round_starts_with_the_agent<E>(connection: ConnectionView<E>)
    requires
        connection.valid(),
        connection.ice,
        connection.step is Idle || connection.step is Reaction,
    ensures
        ({
            let event = if connection.step is Idle {
                EventView::<E>::Wake
            } else {
                EventView::Ready
            };
            let (after, action) = connection.on_event(event);
            &&& connection.takes(event)
            &&& action == ActionView::<E>::PollAgent
            &&& after == (ConnectionView { step: StepView::Agent, ..connection })
        }),
{
}

/// A handshake that is through brings up the media channel, in which room is made for all the
/// sources up to the next new one. Nothing else changes.
pub proof fn law_handshake_brings_up_the_channel<E>(connection: ConnectionView<E>)
    requires
        connection.valid(),
        connection.step is Handshake,
    ensures
        ({
            let (after, action) = connection.on_event(EventView::Ready);
            &&& connection.takes(EventView::Ready)
            &&& action == ActionView::<E>::AllowSsrcs(connection.next_ssrc)
            &&& after == (ConnectionView {
                handshaking: false,
                dtls_srtp: true,
                step: StepView::HandshakeSsrcs,
                ..connection
            })
        }),
{
}

/// The end of the candidates is noted, nothing else changes, and the connection goes on to the
/// handshake or the server.
pub proof fn law_end_of_candidates_is_noted<E>(connection: ConnectionView<E>)
    requires
        connection.valid(),
        connection.step is Candidate,
    ensures
        ({
            let (after, action) = connection.on_event(EventView::Closed);
            &&& connection.takes(EventView::Closed)
            &&& action == if connection.handshaking {
                ActionView::<E>::PollHandshake
            } else {
                ActionView::PollServer
            }
            &&& after == (ConnectionView {
                candidate_gathering_done: true,
                step: after.step,
                ..connection
            })
        }),
{
    reveal_with_fuel(ConnectionView::run, 3);
}

/// A media packet that waits while there is no media channel is dropped, and no packet is held
/// up by it.
pub proof fn law_media_is_dropped_without_channel<E>(connection: ConnectionView<E>)
    requires
        connection.valid(),
        connection.step is Agent,
        !connection.dtls_srtp,
        connection.next_serverbound_frame is None,
        connection.next_clientbound_frame is None,
        connection.queue().len() == 0,
    ensures
        connection.on_event(EventView::Ready).0.next_rtp_frame is None,
        connection.on_event(EventView::Ready).1 == ActionView::<E>::FlushClient,
{
    reveal_with_fuel(ConnectionView::run, 9);
}

} // verus!
