//! Connections from end to end, with the transports played by a harness.
use mumble_web_proxy::candidate::{
    Candidate, CandidateAddress, LocalCandidate, RemoteAddress, RemoteCandidate,
};
use mumble_web_proxy::config::Config;
use mumble_web_proxy::connection::Connection;
use mumble_web_proxy::events::{Action, Event, IceCredentials, Reaction};
use mumble_web_proxy::identity::Identity;
use mumble_web_proxy::media::{read_packet, write_packet, MuxedPacket};
use mumble_web_proxy::messages::{
    Authenticate, ControlPacket, Error, Frame, IceCandidate, RawControlPacket, RtpPacket,
    TalkingState, UserRemove, UserState, VoicePacket, VoicePacketPayload, WebRTC,
};
use std::collections::VecDeque;
use webrtc_sdp::attribute_type::{SdpAttributeCandidateTransport, SdpAttributeCandidateType};

const FOREIGN_CANDIDATE: &str = "1 1 UDP 2130706431 192.168.1.5 54321 typ host";

/// What the transports do when they are asked. An inbound side is pending while its queue is
/// empty.
struct Harness {
    connection: Connection<&'static str>,
    now: u64,
    from_server: VecDeque<ControlPacket<u32>>,
    from_client: VecDeque<ControlPacket<()>>,
    from_media: VecDeque<Vec<u8>>,
    candidates: VecDeque<Option<LocalCandidate>>,
    ice: Result<(), &'static str>,
    handshake_done: bool,
    media_sink_ready: bool,
    client_sink_ready: bool,
    to_server: Vec<ControlPacket<()>>,
    to_client: Vec<ControlPacket<u32>>,
    to_media: Vec<Vec<u8>>,
    rooms: Vec<u32>,
    ports: Vec<Option<(u16, u16)>>,
    credentials: Vec<(String, String)>,
    remote_candidates: Vec<RemoteCandidate>,
    order: Vec<&'static str>,
}

impl Harness {
    fn new() -> Harness {
        let config = Config {
            min_port: 20000,
            max_port: 21000,
            public_v4: Some([203, 0, 113, 7]),
            public_v6: None,
        };
        let connection = Connection::new(config).ok().expect("a connection");
        Harness {
            connection,
            now: 1000,
            from_server: VecDeque::new(),
            from_client: VecDeque::new(),
            from_media: VecDeque::new(),
            candidates: VecDeque::new(),
            ice: Ok(()),
            handshake_done: false,
            media_sink_ready: true,
            client_sink_ready: true,
            to_server: vec![],
            to_client: vec![],
            to_media: vec![],
            rooms: vec![],
            ports: vec![],
            credentials: vec![],
            remote_candidates: vec![],
            order: vec![],
        }
    }

    /// A connection with WebRTC, whose media channel is up if `media` says so.
    fn with_webrtc(media: bool) -> Harness {
        let mut harness = Harness::new();
        harness.handshake_done = media;
        harness.from_client.push_back(login(Some(true)));
        assert_eq!(harness.run(), None);
        harness.to_server.clear();
        harness.to_client.clear();
        harness.order.clear();
        harness
    }

    fn ready(&self, ready: bool) -> Event<&'static str> {
        if ready {
            Event::Ready
        } else {
            Event::Pending
        }
    }

    fn answer(&mut self, action: Action<&'static str>) -> Event<&'static str> {
        match action {
            Action::PollServerSink => Event::Ready,
            Action::PollClientSink => self.ready(self.client_sink_ready),
            Action::PollMediaSink => self.ready(self.media_sink_ready),
            Action::PollHandshake => self.ready(self.handshake_done),
            Action::FlushClient | Action::FlushServer | Action::FlushMedia => Event::Pending,
            Action::PollAgent => Event::Ready,
            Action::SendToServer(packet) => {
                self.order.push("server");
                self.to_server.push(packet);
                Event::Ready
            }
            Action::SendToClient(packet) => {
                self.order.push("client");
                self.to_client.push(packet);
                Event::Ready
            }
            Action::SendMedia(bytes) => {
                self.order.push("media");
                self.to_media.push(bytes);
                Event::Ready
            }
            Action::ReadClock => Event::Time(self.now),
            Action::PollCandidate => match self.candidates.pop_front() {
                Some(Some(candidate)) => Event::Candidate(candidate),
                Some(None) => Event::Closed,
                None => Event::Pending,
            },
            Action::AllowSsrcs(count) => {
                self.rooms.push(count);
                Event::Ready
            }
            Action::PollServer => match self.from_server.pop_front() {
                Some(packet) => Event::ServerPacket(packet, self.now),
                None => Event::Pending,
            },
            Action::PollClient => match self.from_client.pop_front() {
                Some(packet) => Event::ClientPacket(packet),
                None => Event::Pending,
            },
            Action::PollMedia => match self.from_media.pop_front() {
                Some(bytes) => Event::MediaPacket(bytes),
                None => Event::Pending,
            },
            Action::CreateIce(ports) => {
                self.ports.push(ports);
                match self.ice {
                    Ok(()) => Event::IceCreated(IceCredentials {
                        ufrag: "user".to_string(),
                        pwd: "secret".to_string(),
                    }),
                    Err(error) => Event::Failed(error),
                }
            }
            Action::SetRemoteCredentials { ufrag, pwd } => {
                self.credentials.push((ufrag, pwd));
                Event::Ready
            }
            Action::AddRemoteCandidate(candidate) => {
                self.remote_candidates.push(candidate);
                Event::Ready
            }
            Action::Wait | Action::Finish(_) => panic!("nothing to answer"),
        }
    }

    fn poll(&mut self, event: Event<&'static str>) -> Action<&'static str> {
        assert!(self.connection.accepts(&event), "unexpected {:?}", event);
        self.connection.poll(event)
    }

    /// Wakes the connection and goes on until it waits, or is over.
    fn run(&mut self) -> Option<Result<(), Error<&'static str>>> {
        let mut event = Event::Wake;
        loop {
            match self.poll(event) {
                Action::Wait => return None,
                Action::Finish(result) => return Some(result),
                action => event = self.answer(action),
            }
        }
    }

    /// Wakes the connection and goes on until it asks for what `wanted` picks.
    fn run_to(&mut self, wanted: fn(&Action<&'static str>) -> bool) {
        let mut event = Event::Wake;
        loop {
            let action = self.poll(event);
            if wanted(&action) {
                return;
            }
            event = self.answer(action);
        }
    }

    fn media(&self) -> Vec<RtpPacket> {
        self.to_media
            .iter()
            .map(|bytes| match read_packet(bytes) {
                MuxedPacket::Rtp(packet) => packet,
                other => panic!("{:?}", other),
            })
            .collect()
    }
}

fn raw(id: u16) -> RawControlPacket {
    RawControlPacket {
        id,
        bytes: vec![1, 2, 3],
    }
}

fn login(webrtc: Option<bool>) -> ControlPacket<()> {
    ControlPacket::Authenticate(Authenticate {
        opus: Some(false),
        webrtc,
        raw: raw(2),
    })
}

fn user_state(session: Option<u32>, ssrc: Option<u32>) -> ControlPacket<u32> {
    ControlPacket::UserState(UserState {
        session,
        ssrc,
        raw: raw(9),
    })
}

fn user_remove(session: u32) -> ControlPacket<u32> {
    ControlPacket::UserRemove(UserRemove {
        session: Some(session),
        raw: raw(8),
    })
}

fn voice(session_id: u32, seq_num: u64, last: bool) -> ControlPacket<u32> {
    ControlPacket::UDPTunnel(VoicePacket::Audio {
        target: 5,
        session_id,
        seq_num,
        payload: VoicePacketPayload::Opus(vec![seq_num as u8], last),
        position_info: Some(vec![7]),
    })
}

fn talking_state<S>(session: Option<u32>, target: Option<u32>) -> ControlPacket<S> {
    ControlPacket::TalkingState(TalkingState {
        session,
        target,
        raw: None,
    })
}

fn local_candidate() -> LocalCandidate {
    Candidate {
        foundation: "1".to_string(),
        component: 1,
        transport: SdpAttributeCandidateTransport::Udp,
        priority: 99,
        address: CandidateAddress::V4([192, 168, 1, 5]),
        port: 20001,
        c_type: SdpAttributeCandidateType::Host,
        raddr: None,
        rport: None,
        tcp_type: None,
        generation: None,
        ufrag: None,
        networkcost: None,
        unknown_extensions: vec![],
    }
}

fn media_packet(timestamp: u32) -> Vec<u8> {
    write_packet(RtpPacket {
        marker: false,
        payload_type: 97,
        seq_num: 1,
        timestamp,
        ssrc: 77,
        payload: vec![6, 6],
    })
}

fn client_voice(target: u8, seq_num: u64) -> ControlPacket<()> {
    ControlPacket::UDPTunnel(VoicePacket::Audio {
        target,
        session_id: (),
        seq_num,
        payload: VoicePacketPayload::Opus(vec![6, 6], false),
        position_info: None,
    })
}

#[test]
fn packets_pass_without_webrtc() {
    let mut harness = Harness::new();
    harness.from_client.push_back(login(None));
    harness
        .from_client
        .push_back(ControlPacket::Other(raw(1)));
    harness.from_server.push_back(user_state(Some(3), None));
    harness.from_server.push_back(voice(3, 1, false));
    harness.from_server.push_back(user_remove(3));
    harness
        .from_server
        .push_back(ControlPacket::Other(raw(21)));
    assert_eq!(harness.run(), None);
    assert_eq!(
        harness.to_server,
        vec![login(None), ControlPacket::Other(raw(1))]
    );
    assert_eq!(
        harness.to_client,
        vec![
            user_state(Some(3), None),
            voice(3, 1, false),
            user_remove(3),
            ControlPacket::Other(raw(21)),
        ]
    );
    assert!(!harness.connection.supports_webrtc());
    assert_eq!(harness.connection.next_deadline(), None);
}

#[test]
fn packet_from_client_can_carry_voice() {
    let mut harness = Harness::with_webrtc(false);
    harness.from_client.push_back(client_voice(1, 2));
    assert_eq!(harness.run(), None);
    assert_eq!(harness.to_server, vec![client_voice(1, 2)]);
}

#[test]
fn login_that_declines_webrtc_passes() {
    let mut harness = Harness::new();
    harness.from_client.push_back(login(Some(false)));
    assert_eq!(harness.run(), None);
    assert_eq!(harness.to_server, vec![login(Some(false))]);
    assert!(!harness.connection.supports_webrtc());
}

#[test]
fn login_with_webrtc_is_answered() {
    let mut harness = Harness::new();
    harness.from_client.push_back(login(Some(true)));
    assert_eq!(harness.run(), None);
    assert_eq!(
        harness.to_server,
        vec![ControlPacket::Authenticate(Authenticate {
            opus: Some(true),
            webrtc: None,
            raw: raw(2),
        })]
    );
    assert_eq!(
        harness.to_client,
        vec![ControlPacket::WebRTC(WebRTC {
            dtls_fingerprint: Some(harness.connection.identity().fingerprint()),
            ice_pwd: Some("secret".to_string()),
            ice_ufrag: Some("user".to_string()),
            raw: None,
        })]
    );
    assert_eq!(harness.order, vec!["server", "client"]);
    assert_eq!(harness.ports, vec![Some((20000, 21000))]);
    assert!(harness.connection.supports_webrtc());
}

#[test]
fn failed_ice_stream_ends_connection_after_login() {
    let mut harness = Harness::new();
    harness.ice = Err("no ports");
    harness.from_client.push_back(login(Some(true)));
    assert_eq!(harness.run(), Some(Err(Error::Outside("no ports"))));
    assert_eq!(harness.to_server.len(), 1);
    assert_eq!(harness.to_client.len(), 0);
    assert!(!harness.connection.supports_webrtc());
}

#[test]
fn candidates_are_told_until_they_end() {
    let mut harness = Harness::with_webrtc(false);
    harness.candidates.push_back(Some(local_candidate()));
    harness.candidates.push_back(None);
    harness.candidates.push_back(Some(local_candidate()));
    assert_eq!(harness.run(), None);
    assert_eq!(
        harness.to_client,
        vec![ControlPacket::IceCandidate(IceCandidate {
            content: "candidate:1 1 UDP 99 203.0.113.7 20001 typ host".to_string(),
            raw: None,
        })]
    );
    assert_eq!(harness.candidates.len(), 1);
}

#[test]
fn credentials_reach_the_ice_stream() {
    let webrtc = |ufrag: Option<&str>, pwd: Option<&str>| {
        ControlPacket::WebRTC(WebRTC {
            dtls_fingerprint: None,
            ice_pwd: pwd.map(str::to_string),
            ice_ufrag: ufrag.map(str::to_string),
            raw: Some(raw(26)),
        })
    };
    let mut harness = Harness::new();
    harness.from_client.push_back(webrtc(Some("u"), Some("p")));
    assert_eq!(harness.run(), None);
    assert_eq!(harness.credentials, vec![]);
    let mut harness = Harness::with_webrtc(false);
    harness.from_client.push_back(webrtc(Some("u"), Some("p")));
    harness.from_client.push_back(webrtc(Some("u\0"), Some("p")));
    harness.from_client.push_back(webrtc(Some("u"), Some("\0p")));
    harness.from_client.push_back(webrtc(None, None));
    assert_eq!(harness.run(), None);
    assert_eq!(
        harness.credentials,
        vec![
            ("u".to_string(), "p".to_string()),
            (String::new(), String::new())
        ]
    );
    assert_eq!(harness.to_server, vec![]);
}

#[test]
fn remote_candidates_reach_the_ice_stream() {
    let packet = || {
        ControlPacket::IceCandidate(IceCandidate {
            content: FOREIGN_CANDIDATE.to_string(),
            raw: Some(raw(27)),
        })
    };
    let mut harness = Harness::new();
    harness.from_client.push_back(packet());
    assert_eq!(harness.run(), None);
    assert!(harness.remote_candidates.is_empty());
    let mut harness = Harness::with_webrtc(false);
    harness.from_client.push_back(packet());
    assert_eq!(harness.run(), None);
    assert_eq!(
        harness.remote_candidates,
        vec![Candidate {
            foundation: "1".to_string(),
            component: 1,
            transport: SdpAttributeCandidateTransport::Udp,
            priority: 2130706431,
            address: RemoteAddress::Ip("192.168.1.5".to_string()),
            port: 54321,
            c_type: SdpAttributeCandidateType::Host,
            raddr: None,
            rport: None,
            tcp_type: None,
            generation: None,
            ufrag: None,
            networkcost: None,
            unknown_extensions: vec![],
        }]
    );
    assert_eq!(harness.to_server, vec![]);
}

#[test]
fn unreadable_candidate_ends_connection() {
    let mut harness = Harness::with_webrtc(false);
    harness
        .from_client
        .push_back(ControlPacket::IceCandidate(IceCandidate {
            content: "garbage".to_string(),
            raw: Some(raw(27)),
        }));
    match harness.run() {
        Some(Err(Error::IceCandidate(text))) => {
            assert!(text.starts_with("Error parsing ICE candidate: "))
        }
        other => panic!("{:?}", other),
    }
}

#[test]
fn unreadable_candidate_is_ignored_without_webrtc() {
    let mut harness = Harness::new();
    harness
        .from_client
        .push_back(ControlPacket::IceCandidate(IceCandidate {
            content: "garbage".to_string(),
            raw: Some(raw(27)),
        }));
    assert_eq!(harness.run(), None);
    assert!(harness.to_server.is_empty());
}

#[test]
fn users_get_sources() {
    let mut harness = Harness::with_webrtc(false);
    harness.from_server.push_back(user_state(Some(30), None));
    harness.from_server.push_back(user_state(Some(40), Some(9)));
    harness.from_server.push_back(user_state(Some(30), None));
    harness.from_server.push_back(user_state(None, None));
    assert_eq!(harness.run(), None);
    assert_eq!(
        harness.to_client,
        vec![
            user_state(Some(30), Some(1)),
            user_state(Some(40), Some(2)),
            user_state(Some(30), None),
            user_state(None, Some(3)),
        ]
    );
    assert_eq!(harness.rooms, vec![]);
}

#[test]
fn sources_are_reused_last_freed_first() {
    let mut harness = Harness::with_webrtc(false);
    for session in [10, 11, 12] {
        harness
            .from_server
            .push_back(user_state(Some(session), None));
    }
    harness.from_server.push_back(user_remove(10));
    harness.from_server.push_back(user_remove(12));
    harness.from_server.push_back(user_remove(99));
    for session in [20, 21, 22] {
        harness
            .from_server
            .push_back(user_state(Some(session), None));
    }
    assert_eq!(harness.run(), None);
    let sources: Vec<Option<u32>> = harness
        .to_client
        .iter()
        .filter_map(|packet| match packet {
            ControlPacket::UserState(message) => Some(message.ssrc),
            _ => None,
        })
        .collect();
    assert_eq!(
        sources,
        vec![Some(1), Some(2), Some(3), Some(3), Some(1), Some(4)]
    );
}

#[test]
fn room_is_made_for_sources() {
    let mut harness = Harness::with_webrtc(false);
    harness.from_server.push_back(user_state(Some(10), None));
    harness.from_server.push_back(user_state(Some(11), None));
    assert_eq!(harness.run(), None);
    assert_eq!(harness.rooms, vec![]);
    harness.handshake_done = true;
    assert_eq!(harness.run(), None);
    assert_eq!(harness.rooms, vec![3]);
    harness.from_server.push_back(user_state(Some(12), None));
    harness.from_server.push_back(user_remove(10));
    harness.from_server.push_back(user_state(Some(13), None));
    assert_eq!(harness.run(), None);
    assert_eq!(harness.rooms, vec![3, 1]);
    assert_eq!(harness.to_client.len(), 5);
}

#[test]
fn voice_goes_over_the_media_channel() {
    let mut harness = Harness::with_webrtc(true);
    harness.from_server.push_back(user_state(Some(10), None));
    harness.from_server.push_back(voice(10, 200, false));
    harness.from_server.push_back(voice(10, 202, false));
    assert_eq!(harness.run(), None);
    assert_eq!(
        harness.to_client,
        vec![
            user_state(Some(10), Some(1)),
            talking_state(Some(10), Some(5))
        ]
    );
    let rtp = |marker: bool, seq_num: u16, timestamp: u32, byte: u8| RtpPacket {
        marker,
        payload_type: 97,
        seq_num,
        timestamp,
        ssrc: 1,
        payload: vec![byte],
    };
    assert_eq!(
        harness.media(),
        vec![rtp(true, 0, 0, 200), rtp(false, 2, 960, 202)]
    );
    assert_eq!(harness.order, vec!["client", "client", "media", "media"]);
}

#[test]
fn voice_is_dropped_before_the_media_channel_is_up() {
    let mut harness = Harness::with_webrtc(false);
    harness.from_server.push_back(user_state(Some(10), None));
    harness.from_server.push_back(voice(10, 200, false));
    assert_eq!(harness.run(), None);
    assert_eq!(harness.to_client.len(), 2);
    harness.handshake_done = true;
    assert_eq!(harness.run(), None);
    assert!(harness.to_media.is_empty());
}

#[test]
fn other_voice_is_dropped() {
    let mut harness = Harness::with_webrtc(true);
    harness.from_server.push_back(user_state(Some(10), None));
    harness.from_server.push_back(voice(11, 200, false));
    harness
        .from_server
        .push_back(ControlPacket::UDPTunnel(VoicePacket::Ping {
            timestamp: 1,
        }));
    harness
        .from_server
        .push_back(ControlPacket::UDPTunnel(VoicePacket::Audio {
            target: 5,
            session_id: 10,
            seq_num: 1,
            payload: VoicePacketPayload::Speex(vec![vec![1]]),
            position_info: None,
        }));
    assert_eq!(harness.run(), None);
    assert_eq!(harness.to_client.len(), 1);
    assert!(harness.to_media.is_empty());
}

#[test]
fn silence_ends_transmissions_lowest_session_first() {
    let mut harness = Harness::with_webrtc(true);
    for session in [12, 10, 11] {
        harness
            .from_server
            .push_back(user_state(Some(session), None));
        harness.from_server.push_back(voice(session, 7, false));
    }
    assert_eq!(harness.run(), None);
    assert_eq!(harness.connection.next_deadline(), Some(1400));
    harness.to_client.clear();
    harness.now = 1200;
    harness.from_server.push_back(voice(11, 8, false));
    assert_eq!(harness.run(), None);
    harness.now = 1399;
    assert_eq!(harness.run(), None);
    assert_eq!(harness.to_client, vec![]);
    harness.now = 1400;
    harness.from_server.push_back(user_remove(99));
    assert_eq!(harness.run(), None);
    assert_eq!(
        harness.to_client,
        vec![
            talking_state(Some(10), None),
            talking_state(Some(12), None),
            user_remove(99),
        ]
    );
    assert_eq!(harness.connection.next_deadline(), Some(1600));
    harness.now = 5000;
    assert_eq!(harness.run(), None);
    assert_eq!(harness.to_client[3], talking_state(Some(11), None));
    assert_eq!(harness.connection.next_deadline(), None);
}

#[test]
fn client_is_heard_while_talking() {
    let mut harness = Harness::with_webrtc(true);
    harness.from_media.push_back(media_packet(4800));
    assert_eq!(harness.run(), None);
    assert_eq!(harness.to_server, vec![]);
    harness
        .from_client
        .push_back(talking_state(None, Some(256 + 31)));
    assert_eq!(harness.run(), None);
    harness.from_media.push_back(media_packet(4800));
    harness.from_media.push_back(media_packet(5279));
    harness.from_media.push_back(vec![0x80, 200, 0, 0]);
    harness.from_media.push_back(vec![]);
    harness.from_media.push_back(media_packet(5280));
    assert_eq!(harness.run(), None);
    assert_eq!(
        harness.to_server,
        vec![
            client_voice(31, 10),
            client_voice(31, 10),
            client_voice(31, 11)
        ]
    );
    harness.from_client.push_back(talking_state(None, None));
    assert_eq!(harness.run(), None);
    harness.from_media.push_back(media_packet(5760));
    assert_eq!(harness.run(), None);
    assert_eq!(harness.to_server.len(), 3);
}

#[test]
fn held_up_client_sink_holds_everything_up() {
    let mut harness = Harness::new();
    harness
        .from_server
        .push_back(ControlPacket::Other(raw(1)));
    harness
        .from_server
        .push_back(ControlPacket::Other(raw(2)));
    harness.client_sink_ready = false;
    assert_eq!(harness.run(), None);
    assert_eq!(harness.run(), None);
    assert_eq!(harness.from_server.len(), 1);
    assert_eq!(harness.to_client, vec![]);
    harness.client_sink_ready = true;
    assert_eq!(harness.run(), None);
    assert_eq!(
        harness.to_client,
        vec![ControlPacket::Other(raw(1)), ControlPacket::Other(raw(2))]
    );
}

#[test]
fn held_up_media_packet_makes_way_for_newer_one() {
    let mut harness = Harness::with_webrtc(true);
    harness.media_sink_ready = false;
    harness.from_server.push_back(user_state(Some(10), None));
    harness.from_server.push_back(voice(10, 200, false));
    harness.from_server.push_back(voice(10, 201, false));
    assert_eq!(harness.run(), None);
    assert_eq!(harness.to_client.len(), 2);
    harness.media_sink_ready = true;
    assert_eq!(harness.run(), None);
    let payloads: Vec<Vec<u8>> = harness.media().into_iter().map(|p| p.payload).collect();
    assert_eq!(payloads, vec![vec![201]]);
}

#[test]
fn messages_about_webrtc_pass_whole_from_the_server() {
    let packets = || {
        vec![
            ControlPacket::WebRTC(WebRTC {
                dtls_fingerprint: None,
                ice_pwd: Some("p".to_string()),
                ice_ufrag: None,
                raw: Some(raw(26)),
            }),
            ControlPacket::IceCandidate(IceCandidate {
                content: "x".to_string(),
                raw: Some(raw(27)),
            }),
            ControlPacket::TalkingState(TalkingState {
                session: Some(1),
                target: None,
                raw: Some(raw(28)),
            }),
        ]
    };
    for mut harness in [Harness::new(), Harness::with_webrtc(false)] {
        harness.from_server.extend(packets());
        assert_eq!(harness.run(), None);
        assert_eq!(harness.to_client, packets());
    }
}

#[test]
fn candidates_are_not_asked_for_again() {
    let mut harness = Harness::with_webrtc(false);
    harness.run_to(|action| *action == Action::PollCandidate);
    assert_eq!(harness.poll(Event::Closed), Action::PollHandshake);
    let mut event = Event::Pending;
    for round in 0..3 {
        harness.from_server.push_back(user_state(Some(round), None));
        loop {
            let action = harness.poll(event);
            assert_ne!(action, Action::PollCandidate);
            if action == Action::Wait {
                event = Event::Wake;
                break;
            }
            event = harness.answer(action);
        }
    }
}

#[test]
fn closed_sides_end_connection() {
    let picks: [fn(&Action<&'static str>) -> bool; 3] = [
        |action| *action == Action::PollServer,
        |action| *action == Action::PollClient,
        |action| *action == Action::PollMedia,
    ];
    for wanted in picks {
        let mut harness = Harness::with_webrtc(true);
        harness.run_to(wanted);
        assert_eq!(harness.poll(Event::Closed), Action::Finish(Ok(())));
        assert!(!harness.connection.accepts(&Event::Wake));
        assert!(!harness.connection.accepts(&Event::Ready));
    }
}

#[test]
fn failures_end_connection() {
    let picks: [fn(&Action<&'static str>) -> bool; 6] = [
        |action| *action == Action::PollServer,
        |action| *action == Action::PollClient,
        |action| *action == Action::PollMedia,
        |action| *action == Action::FlushClient,
        |action| *action == Action::FlushServer,
        |action| *action == Action::FlushMedia,
    ];
    for wanted in picks {
        let mut harness = Harness::with_webrtc(true);
        harness.run_to(wanted);
        assert_eq!(
            harness.poll(Event::Failed("broken")),
            Action::Finish(Err(Error::Outside("broken")))
        );
        assert!(!harness.connection.accepts(&Event::Wake));
    }
    let mut harness = Harness::with_webrtc(false);
    harness.run_to(|action| *action == Action::PollHandshake);
    assert_eq!(
        harness.poll(Event::Failed("refused")),
        Action::Finish(Err(Error::Outside("refused")))
    );
}

#[test]
fn unexpected_answers_are_not_accepted() {
    let mut connection: Connection<&'static str> =
        Connection::with_identity(
            Config {
                min_port: 1,
                max_port: 65535,
                public_v4: None,
                public_v6: None,
            },
            Identity::generate().ok().expect("an identity"),
        );
    assert!(connection.accepts(&Event::Wake));
    assert!(!connection.accepts(&Event::Ready));
    assert!(!connection.accepts(&Event::Time(0)));
    assert_eq!(connection.poll(Event::Wake), Action::FlushClient);
    assert!(connection.accepts(&Event::Pending));
    assert!(connection.accepts(&Event::Failed("x")));
    assert!(!connection.accepts(&Event::Wake));
    assert!(!connection.accepts(&Event::Closed));
}

#[test]
fn a_round_asks_in_order() {
    let mut harness = Harness::new();
    assert_eq!(harness.poll(Event::Wake), Action::FlushClient);
    assert_eq!(harness.poll(Event::Pending), Action::FlushServer);
    assert_eq!(harness.poll(Event::Ready), Action::ReadClock);
    assert_eq!(harness.poll(Event::Time(1)), Action::PollServer);
    assert_eq!(harness.poll(Event::Pending), Action::PollClient);
    assert_eq!(harness.poll(Event::Pending), Action::Wait);
    let mut harness = Harness::with_webrtc(true);
    assert_eq!(harness.poll(Event::Wake), Action::PollAgent);
    assert_eq!(harness.poll(Event::Ready), Action::FlushClient);
    assert_eq!(harness.poll(Event::Ready), Action::FlushServer);
    assert_eq!(harness.poll(Event::Ready), Action::FlushMedia);
    assert_eq!(harness.poll(Event::Pending), Action::ReadClock);
    assert_eq!(harness.poll(Event::Time(1)), Action::PollCandidate);
    assert_eq!(harness.poll(Event::Closed), Action::PollServer);
    assert_eq!(harness.poll(Event::Pending), Action::PollClient);
    assert_eq!(harness.poll(Event::Pending), Action::PollMedia);
    assert_eq!(harness.poll(Event::Pending), Action::Wait);
}

#[test]
fn second_login_replaces_the_ice_stream() {
    let mut harness = Harness::with_webrtc(true);
    harness.candidates.push_back(None);
    harness.from_client.push_back(login(Some(true)));
    assert_eq!(harness.run(), None);
    assert_eq!(harness.ports.len(), 2);
    assert_eq!(harness.to_client.len(), 1);
    assert_eq!(harness.rooms, vec![1, 1]);
}

#[test]
fn parts_can_be_used_alone() {
    let mut harness = Harness::with_webrtc(true);
    let connection = &mut harness.connection;
    assert_eq!(connection.allocate_ssrc(5), (1, true));
    assert_eq!(connection.allocate_ssrc(6), (2, true));
    connection.free_ssrc(5);
    assert_eq!(connection.allocate_ssrc(7), (1, false));
    let (items, announce) = connection.process_packet_from_server(user_state(Some(8), None), 0);
    assert!(announce);
    assert_eq!(
        items,
        vec![Ok(Frame::Client(user_state(Some(8), Some(3))))]
    );
    assert_eq!(
        connection.handle_voice_packet(
            VoicePacket::Audio {
                target: 5,
                session_id: 5,
                seq_num: 1,
                payload: VoicePacketPayload::Opus(vec![], false),
                position_info: None,
            },
            0
        ),
        vec![]
    );
    assert_eq!(
        connection.process_packet_from_client(ControlPacket::Other(raw(3))),
        Reaction::Items(vec![Ok(Frame::Server(ControlPacket::Other(raw(3))))])
    );
    assert_eq!(connection.process_rtp_packet(&media_packet(480)), vec![]);
    connection.process_packet_from_client(talking_state(None, Some(2)));
    assert_eq!(
        connection.process_rtp_packet(&media_packet(480)),
        vec![Ok(Frame::Server(client_voice(2, 1)))]
    );
    assert_eq!(connection.forward_media(MuxedPacket::Rtcp), vec![]);
    assert_eq!(
        connection.setup_ice(Err("gone")),
        vec![Err(Error::Outside("gone"))]
    );
}
