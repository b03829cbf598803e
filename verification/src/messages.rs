//! The Mumble packets that pass through the proxy, as plain values.
//!
//! Each message keeps, as fields of its own, what the proxy reads or writes. Whatever else the
//! message carries travels along in its wire form and is never looked into.
use vstd::prelude::*;

verus! {

/// A control packet in wire form: the number of its type and the encoded message.
#[derive(Debug, PartialEq)]
pub struct RawControlPacket {
    pub id: u16,
    pub bytes: Vec<u8>,
}

pub struct RawControlPacketView {
    pub id: u16,
    pub bytes: Seq<u8>,
}

impl View for RawControlPacket {
    type V = RawControlPacketView;

    open spec fn view(&self) -> RawControlPacketView {
        RawControlPacketView { id: self.id, bytes: self.bytes@ }
    }
}

/// Sent by the client to log in.
#[derive(Debug, PartialEq)]
pub struct Authenticate {
    /// Whether the client supports the Opus codec.
    pub opus: Option<bool>,
    /// Whether the client wants its voice over WebRTC.
    pub webrtc: Option<bool>,
    /// The whole message as it came in; `opus` and `webrtc` override what it says of them.
    pub raw: RawControlPacket,
}

pub struct AuthenticateView {
    pub opus: Option<bool>,
    pub webrtc: Option<bool>,
    pub raw: RawControlPacketView,
}

impl View for Authenticate {
    type V = AuthenticateView;

    open spec fn view(&self) -> AuthenticateView {
        AuthenticateView { opus: self.opus, webrtc: self.webrtc, raw: self.raw@ }
    }
}

impl AuthenticateView {
    /// Whether the client asks for WebRTC. A client that does not say so does not.
    pub open spec fn wants_webrtc(self) -> bool {
        self.webrtc == Some(true)
    }

    /// The login that the server gets to see: the proxy provides WebRTC, the server does not
    /// hear of it, and the client is said to support Opus.
    pub open spec fn without_webrtc(self) -> AuthenticateView {
        AuthenticateView { opus: Some(true), webrtc: None, raw: self.raw }
    }
}

/// Sent by the server when a user appears or changes.
#[derive(Debug, PartialEq)]
pub struct UserState {
    /// The session of the user.
    pub session: Option<u32>,
    /// The RTP source under which the user's voice reaches the client.
    pub ssrc: Option<u32>,
    /// The whole message as it came in; `session` and `ssrc` override what it says of them.
    pub raw: RawControlPacket,
}

pub struct UserStateView {
    pub session: Option<u32>,
    pub ssrc: Option<u32>,
    pub raw: RawControlPacketView,
}

impl View for UserState {
    type V = UserStateView;

    open spec fn view(&self) -> UserStateView {
        UserStateView { session: self.session, ssrc: self.ssrc, raw: self.raw@ }
    }
}

/// Sent by the server when a user leaves or is thrown out.
#[derive(Debug, PartialEq)]
pub struct UserRemove {
    /// The session of the user.
    pub session: Option<u32>,
    /// The whole message as it came in; `session` overrides what it says of it.
    pub raw: RawControlPacket,
}

pub struct UserRemoveView {
    pub session: Option<u32>,
    pub raw: RawControlPacketView,
}

impl View for UserRemove {
    type V = UserRemoveView;

    open spec fn view(&self) -> UserRemoveView {
        UserRemoveView { session: self.session, raw: self.raw@ }
    }
}

/// The WebRTC parameters of one side.
#[derive(Debug, PartialEq)]
pub struct WebRTC {
    pub dtls_fingerprint: Option<String>,
    pub ice_pwd: Option<String>,
    pub ice_ufrag: Option<String>,
    /// The whole message as it came in, if it did; the other fields override what it says of
    /// them.
    pub raw: Option<RawControlPacket>,
}

pub struct WebRTCView {
    pub dtls_fingerprint: Option<Seq<char>>,
    pub ice_pwd: Option<Seq<char>>,
    pub ice_ufrag: Option<Seq<char>>,
    pub raw: Option<RawControlPacketView>,
}

/// The message as it came in, if it did.
pub open spec fn raw_view(raw: Option<RawControlPacket>) -> Option<RawControlPacketView> {
    match raw {
        Some(packet) => Some(packet@),
        None => None,
    }
}

/// The text in an optional field.
pub open spec fn text_view(text: Option<String>) -> Option<Seq<char>> {
    match text {
        Some(s) => Some(s@),
        None => None,
    }
}

/// The text of an optional field, which is empty where the field is absent.
pub open spec fn text_or_empty(text: Option<Seq<char>>) -> Seq<char> {
    match text {
        Some(s) => s,
        None => Seq::empty(),
    }
}

impl View for WebRTC {
    type V = WebRTCView;

    open spec fn view(&self) -> WebRTCView {
        WebRTCView {
            dtls_fingerprint: text_view(self.dtls_fingerprint),
            ice_pwd: text_view(self.ice_pwd),
            ice_ufrag: text_view(self.ice_ufrag),
            raw: raw_view(self.raw),
        }
    }
}

/// One ICE candidate of one side.
#[derive(Debug, PartialEq)]
pub struct IceCandidate {
    pub content: String,
    /// The whole message as it came in, if it did; `content` overrides what it says of it.
    pub raw: Option<RawControlPacket>,
}

pub struct IceCandidateView {
    pub content: Seq<char>,
    pub raw: Option<RawControlPacketView>,
}

impl View for IceCandidate {
    type V = IceCandidateView;

    open spec fn view(&self) -> IceCandidateView {
        IceCandidateView { content: self.content@, raw: raw_view(self.raw) }
    }
}

/// Says whether a user is talking: with a target while it is, without one once it stops.
#[derive(Debug, PartialEq)]
pub struct TalkingState {
    pub session: Option<u32>,
    pub target: Option<u32>,
    /// The whole message as it came in, if it did; `session` and `target` override what it says
    /// of them.
    pub raw: Option<RawControlPacket>,
}

pub struct TalkingStateView {
    pub session: Option<u32>,
    pub target: Option<u32>,
    pub raw: Option<RawControlPacketView>,
}

impl View for TalkingState {
    type V = TalkingStateView;

    open spec fn view(&self) -> TalkingStateView {
        TalkingStateView { session: self.session, target: self.target, raw: raw_view(self.raw) }
    }
}

/// The audio in a voice packet.
#[derive(Debug, PartialEq)]
pub enum VoicePacketPayload {
    CeltAlpha(Vec<Vec<u8>>),
    CeltBeta(Vec<Vec<u8>>),
    Speex(Vec<Vec<u8>>),
    /// An Opus frame, and whether it is the last one of the transmission.
    Opus(Vec<u8>, bool),
}

pub enum VoicePacketPayloadView {
    CeltAlpha(Seq<Seq<u8>>),
    CeltBeta(Seq<Seq<u8>>),
    Speex(Seq<Seq<u8>>),
    Opus(Seq<u8>, bool),
}

/// The bytes of each audio frame.
pub open spec fn audio_frames_view(frames: Seq<Vec<u8>>) -> Seq<Seq<u8>> {
    frames.map_values(|frame: Vec<u8>| frame@)
}

impl View for VoicePacketPayload {
    type V = VoicePacketPayloadView;

    open spec fn view(&self) -> VoicePacketPayloadView {
        match *self {
            VoicePacketPayload::CeltAlpha(frames) => VoicePacketPayloadView::CeltAlpha(
                audio_frames_view(frames@),
            ),
            VoicePacketPayload::CeltBeta(frames) => VoicePacketPayloadView::CeltBeta(
                audio_frames_view(frames@),
            ),
            VoicePacketPayload::Speex(frames) => VoicePacketPayloadView::Speex(
                audio_frames_view(frames@),
            ),
            VoicePacketPayload::Opus(data, last) => VoicePacketPayloadView::Opus(data@, last),
        }
    }
}

/// A packet of the voice channel. `S` identifies the talking user: a session towards the
/// client, nothing towards the server, which knows whom it is talking to.
#[derive(Debug, PartialEq)]
pub enum VoicePacket<S> {
    Ping { timestamp: u64 },
    Audio {
        target: u8,
        session_id: S,
        seq_num: u64,
        payload: VoicePacketPayload,
        position_info: Option<Vec<u8>>,
    },
}

pub enum VoicePacketView<S> {
    Ping { timestamp: u64 },
    Audio {
        target: u8,
        session_id: S,
        seq_num: u64,
        payload: VoicePacketPayloadView,
        position_info: Option<Seq<u8>>,
    },
}

/// The bytes in an optional field.
pub open spec fn bytes_view(bytes: Option<Vec<u8>>) -> Option<Seq<u8>> {
    match bytes {
        Some(b) => Some(b@),
        None => None,
    }
}

impl<S> View for VoicePacket<S> {
    type V = VoicePacketView<S>;

    open spec fn view(&self) -> VoicePacketView<S> {
        match *self {
            VoicePacket::Ping { timestamp } => VoicePacketView::Ping { timestamp },
            VoicePacket::Audio { target, session_id, seq_num, payload, position_info } => {
                VoicePacketView::Audio {
                    target,
                    session_id,
                    seq_num,
                    payload: payload@,
                    position_info: bytes_view(position_info),
                }
            },
        }
    }
}

/// A packet of the control channel. `S` identifies users in tunneled voice packets, as in
/// [`VoicePacket`]: `u32` towards the client, `()` towards the server.
#[derive(Debug, PartialEq)]
pub enum ControlPacket<S> {
    UDPTunnel(VoicePacket<S>),
    Authenticate(Authenticate),
    UserRemove(UserRemove),
    UserState(UserState),
    WebRTC(WebRTC),
    IceCandidate(IceCandidate),
    TalkingState(TalkingState),
    /// Any other packet.
    Other(RawControlPacket),
}

pub enum ControlPacketView<S> {
    UDPTunnel(VoicePacketView<S>),
    Authenticate(AuthenticateView),
    UserRemove(UserRemoveView),
    UserState(UserStateView),
    WebRTC(WebRTCView),
    IceCandidate(IceCandidateView),
    TalkingState(TalkingStateView),
    Other(RawControlPacketView),
}

impl<S> View for ControlPacket<S> {
    type V = ControlPacketView<S>;

    open spec fn view(&self) -> ControlPacketView<S> {
        match *self {
            ControlPacket::UDPTunnel(voice) => ControlPacketView::UDPTunnel(voice@),
            ControlPacket::Authenticate(message) => ControlPacketView::Authenticate(message@),
            ControlPacket::UserRemove(message) => ControlPacketView::UserRemove(message@),
            ControlPacket::UserState(message) => ControlPacketView::UserState(message@),
            ControlPacket::WebRTC(message) => ControlPacketView::WebRTC(message@),
            ControlPacket::IceCandidate(message) => ControlPacketView::IceCandidate(message@),
            ControlPacket::TalkingState(message) => ControlPacketView::TalkingState(message@),
            ControlPacket::Other(packet) => ControlPacketView::Other(packet@),
        }
    }
}

/// An RTP packet without padding, contributing sources or header extension.
#[derive(Debug, PartialEq)]
pub struct RtpPacket {
    pub marker: bool,
    pub payload_type: u8,
    pub seq_num: u16,
    pub timestamp: u32,
    pub ssrc: u32,
    pub payload: Vec<u8>,
}

pub struct RtpPacketView {
    pub marker: bool,
    pub payload_type: u8,
    pub seq_num: u16,
    pub timestamp: u32,
    pub ssrc: u32,
    pub payload: Seq<u8>,
}

impl View for RtpPacket {
    type V = RtpPacketView;

    open spec fn view(&self) -> RtpPacketView {
        RtpPacketView {
            marker: self.marker,
            payload_type: self.payload_type,
            seq_num: self.seq_num,
            timestamp: self.timestamp,
            ssrc: self.ssrc,
            payload: self.payload@,
        }
    }
}

/// Something to be sent, by the side that it goes to: a control packet to the server or to the
/// client, or a media packet to the client.
#[derive(Debug, PartialEq)]
pub enum Frame {
    Server(ControlPacket<()>),
    Client(ControlPacket<u32>),
    Rtp(RtpPacket),
}

pub enum FrameView {
    Server(ControlPacketView<()>),
    Client(ControlPacketView<u32>),
    Rtp(RtpPacketView),
}

impl View for Frame {
    type V = FrameView;

    open spec fn view(&self) -> FrameView {
        match *self {
            Frame::Server(packet) => FrameView::Server(packet@),
            Frame::Client(packet) => FrameView::Client(packet@),
            Frame::Rtp(packet) => FrameView::Rtp(packet@),
        }
    }
}

/// Why a connection fails. `E` is what the transports around the connection report.
#[derive(Debug, PartialEq)]
pub enum Error<E> {
    /// A transport failed.
    Outside(E),
    /// The client sent an ICE candidate that cannot be read; the text says why.
    IceCandidate(String),
}

pub enum ErrorView<E> {
    Outside(E),
    IceCandidate(Seq<char>),
}

impl<E> View for Error<E> {
    type V = ErrorView<E>;

    open spec fn view(&self) -> ErrorView<E> {
        match *self {
            Error::Outside(error) => ErrorView::Outside(error),
            Error::IceCandidate(text) => ErrorView::IceCandidate(text@),
        }
    }
}

/// One item of what is to be sent: a frame, or the error that ends the connection when its
/// turn comes.
pub type FrameResult<E> = Result<Frame, Error<E>>;

pub type FrameResultView<E> = Result<FrameView, ErrorView<E>>;

pub open spec fn item_view<E>(item: FrameResult<E>) -> FrameResultView<E> {
    match item {
        Ok(frame) => Ok(frame@),
        Err(error) => Err(error@),
    }
}

pub open spec fn items_view<E>(items: Seq<FrameResult<E>>) -> Seq<FrameResultView<E>> {
    items.map_values(|item: FrameResult<E>| item_view(item))
}

/// The contracts speak of the whole of a packet in wire form.
pub proof fn law_raw_packet_is_seen_whole(packet: RawControlPacket)
    ensures
        packet@.id == packet.id,
        packet@.bytes == packet.bytes@,
{
}

/// The contracts speak of the whole of a login.
pub proof fn law_login_is_seen_whole(message: Authenticate)
    ensures
        message@.opus == message.opus,
        message@.webrtc == message.webrtc,
        message@.raw == message.raw@,
{
}

/// The contracts speak of the whole of a message about a user.
pub proof fn law_user_messages_are_seen_whole(state: UserState, remove: UserRemove)
    ensures
        state@.session == state.session,
        state@.ssrc == state.ssrc,
        state@.raw == state.raw@,
        remove@.session == remove.session,
        remove@.raw == remove.raw@,
{
}

/// The contracts speak of the whole of the WebRTC parameters of one side.
pub proof fn law_parameters_are_seen_whole(message: WebRTC)
    ensures
        message@.dtls_fingerprint is Some <==> message.dtls_fingerprint is Some,
        message.dtls_fingerprint is Some ==> message@.dtls_fingerprint->0 == message.dtls_fingerprint->0@,
        message@.ice_pwd is Some <==> message.ice_pwd is Some,
        message.ice_pwd is Some ==> message@.ice_pwd->0 == message.ice_pwd->0@,
        message@.ice_ufrag is Some <==> message.ice_ufrag is Some,
        message.ice_ufrag is Some ==> message@.ice_ufrag->0 == message.ice_ufrag->0@,
        message@.raw is Some <==> message.raw is Some,
        message.raw is Some ==> message@.raw->0 == message.raw->0@,
{
}

/// The contracts speak of the whole of a message about a candidate.
pub proof fn law_candidate_message_is_seen_whole(message: IceCandidate)
    ensures
        message@.content == message.content@,
        message@.raw is Some <==> message.raw is Some,
        message.raw is Some ==> message@.raw->0 == message.raw->0@,
{
}

/// The contracts speak of the whole of a message about talking.
pub proof fn law_talking_state_is_seen_whole(message: TalkingState)
    ensures
        message@.session == message.session,
        message@.target == message.target,
        message@.raw is Some <==> message.raw is Some,
        message.raw is Some ==> message@.raw->0 == message.raw->0@,
{
}

/// The contracts speak of the whole of a voice packet: of Opus data byte for byte, and of other
/// encodings frame for frame.
pub proof fn law_voice_is_seen_whole<S>(packet: VoicePacket<S>, payload: VoicePacketPayload, i: int)
    ensures
        packet is Ping <==> packet@ is Ping,
        packet is Ping ==> packet@->timestamp == packet->timestamp,
        packet is Audio ==> {
            &&& packet@->target == packet->target
            &&& packet@->session_id == packet->session_id
            &&& packet@->seq_num == packet->seq_num
            &&& packet@->payload == packet->payload@
            &&& packet@->position_info is Some <==> packet->position_info is Some
            &&& packet->position_info is Some ==> packet@->position_info->0
                == packet->position_info->0@
        },
        payload is Opus <==> payload@ is Opus,
        payload is Opus ==> payload@->Opus_0 == payload->Opus_0@ && payload@->Opus_1
            == payload->Opus_1,
        payload is CeltAlpha <==> payload@ is CeltAlpha,
        payload is CeltAlpha ==> payload@->CeltAlpha_0.len() == payload->CeltAlpha_0@.len(),
        payload is CeltAlpha && 0 <= i < payload->CeltAlpha_0@.len() ==> payload@->CeltAlpha_0[i]
            == payload->CeltAlpha_0@[i]@,
        payload is CeltBeta <==> payload@ is CeltBeta,
        payload is CeltBeta ==> payload@->CeltBeta_0.len() == payload->CeltBeta_0@.len(),
        payload is CeltBeta && 0 <= i < payload->CeltBeta_0@.len() ==> payload@->CeltBeta_0[i]
            == payload->CeltBeta_0@[i]@,
        payload is Speex <==> payload@ is Speex,
        payload is Speex ==> payload@->Speex_0.len() == payload->Speex_0@.len(),
        payload is Speex && 0 <= i < payload->Speex_0@.len() ==> payload@->Speex_0[i]
            == payload->Speex_0@[i]@,
{
}

/// The contracts tell control packets apart and speak of the whole of each.
pub proof fn law_packet_is_seen_whole<S>(packet: ControlPacket<S>)
    ensures
        match packet {
            ControlPacket::UDPTunnel(voice) => packet@ == ControlPacketView::UDPTunnel(voice@),
            ControlPacket::Authenticate(m) => packet@ == ControlPacketView::<S>::Authenticate(m@),
            ControlPacket::UserRemove(m) => packet@ == ControlPacketView::<S>::UserRemove(m@),
            ControlPacket::UserState(m) => packet@ == ControlPacketView::<S>::UserState(m@),
            ControlPacket::WebRTC(m) => packet@ == ControlPacketView::<S>::WebRTC(m@),
            ControlPacket::IceCandidate(m) => packet@ == ControlPacketView::<S>::IceCandidate(m@),
            ControlPacket::TalkingState(m) => packet@ == ControlPacketView::<S>::TalkingState(m@),
            ControlPacket::Other(m) => packet@ == ControlPacketView::<S>::Other(m@),
        },
{
}

/// The contracts speak of the whole of a media packet, and of frames by the side that they go to.
pub proof fn law_frame_is_seen_whole(packet: RtpPacket, frame: Frame)
    ensures
        packet@.marker == packet.marker,
        packet@.payload_type == packet.payload_type,
        packet@.seq_num == packet.seq_num,
        packet@.timestamp == packet.timestamp,
        packet@.ssrc == packet.ssrc,
        packet@.payload == packet.payload@,
        match frame {
            Frame::Server(p) => frame@ == FrameView::Server(p@),
            Frame::Client(p) => frame@ == FrameView::Client(p@),
            Frame::Rtp(p) => frame@ == FrameView::Rtp(p@),
        },
{
}

/// The contracts speak of the items to be sent one for one: of each frame and of each error.
pub proof fn law_items_are_seen_whole<E>(items: Seq<FrameResult<E>>, i: int)
    requires
        0 <= i < items.len(),
    ensures
        items_view(items).len() == items.len(),
        match items[i] {
            Ok(frame) => items_view(items)[i] == Ok::<FrameView, ErrorView<E>>(frame@),
            Err(Error::Outside(error)) => items_view(items)[i] == Err::<FrameView, ErrorView<E>>(
                ErrorView::Outside(error),
            ),
            Err(Error::IceCandidate(text)) => items_view(items)[i] == Err::<
                FrameView,
                ErrorView<E>,
            >(ErrorView::IceCandidate(text@)),
        },
{
}

} // verus!
