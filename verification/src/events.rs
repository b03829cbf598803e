//! How a connection talks to the transports around it: what it asks for, and what it is told.
use crate::candidate::{LocalCandidate, RemoteCandidate};
use crate::messages::{
    items_view, Authenticate, ControlPacket, Error, ErrorView, FrameResult,
};
use crate::model::{IceCredentialsView, ReactionView};
use crate::schedule::{ActionView, EventView};
use vstd::prelude::*;

verus! {

/// The names by which an ICE stream lets the other side in.
#[derive(Debug, PartialEq)]
pub struct IceCredentials {
    pub ufrag: String,
    pub pwd: String,
}

impl View for IceCredentials {
    type V = IceCredentialsView;

    open spec fn view(&self) -> IceCredentialsView {
        IceCredentialsView { ufrag: self.ufrag@, pwd: self.pwd@ }
    }
}

/// What a connection does about a packet from the client.
#[derive(Debug, PartialEq)]
pub enum Reaction<E> {
    /// It sends something.
    Items(Vec<FrameResult<E>>),
    /// It wants an ICE stream, and then sends the login.
    CreateIce(Authenticate),
    /// It hands the client's credentials to the ICE stream.
    SetRemoteCredentials { ufrag: String, pwd: String },
    /// It hands a candidate of the client's to the ICE stream.
    AddRemoteCandidate(RemoteCandidate),
}

impl<E> View for Reaction<E> {
    type V = ReactionView<E>;

    open spec fn view(&self) -> ReactionView<E> {
        match *self {
            Reaction::Items(items) => ReactionView::Items(items_view(items@)),
            Reaction::CreateIce(login) => ReactionView::CreateIce(login@),
            Reaction::SetRemoteCredentials { ufrag, pwd } => ReactionView::SetRemoteCredentials {
                ufrag: ufrag@,
                pwd: pwd@,
            },
            Reaction::AddRemoteCandidate(candidate) => ReactionView::AddRemoteCandidate(
                candidate@,
            ),
        }
    }
}

/// What a connection is told.
#[derive(Debug, PartialEq)]
pub enum Event<E> {
    /// Something may have changed since the connection last had nothing to do.
    Wake,
    /// What was asked for is done.
    Ready,
    /// What was asked for cannot be done yet.
    Pending,
    /// What was asked for failed.
    Failed(E),
    /// What was asked for has come to its end.
    Closed,
    /// The time, in milliseconds.
    Time(u64),
    /// A candidate of the ICE stream.
    Candidate(LocalCandidate),
    /// A packet from the server, and the time at which it came.
    ServerPacket(ControlPacket<u32>, u64),
    /// A packet from the client.
    ClientPacket(ControlPacket<()>),
    /// A packet from the media channel.
    MediaPacket(Vec<u8>),
    /// An ICE stream was made, and its DTLS handshake begun.
    IceCreated(IceCredentials),
}

impl<E> View for Event<E> {
    type V = EventView<E>;

    open spec fn view(&self) -> EventView<E> {
        match *self {
            Event::Wake => EventView::Wake,
            Event::Ready => EventView::Ready,
            Event::Pending => EventView::Pending,
            Event::Failed(error) => EventView::Failed(error),
            Event::Closed => EventView::Closed,
            Event::Time(now) => EventView::Time(now),
            Event::Candidate(candidate) => EventView::Candidate(candidate@),
            Event::ServerPacket(packet, now) => EventView::ServerPacket(packet@, now),
            Event::ClientPacket(packet) => EventView::ClientPacket(packet@),
            Event::MediaPacket(bytes) => EventView::MediaPacket(bytes@),
            Event::IceCreated(credentials) => EventView::IceCreated(credentials@),
        }
    }
}

/// What a connection asks for.
#[derive(Debug, PartialEq)]
pub enum Action<E> {
    /// Drives the ICE agent on. Answered by `Ready`.
    PollAgent,
    /// Asks whether the server's sink takes a packet. Answered by `Ready`, `Pending` or `Failed`.
    PollServerSink,
    /// Sends a packet to the server. Answered by `Ready` or `Failed`.
    SendToServer(ControlPacket<()>),
    /// Asks whether the client's sink takes a packet. Answered by `Ready`, `Pending` or `Failed`.
    PollClientSink,
    /// Sends a packet to the client. Answered by `Ready` or `Failed`.
    SendToClient(ControlPacket<u32>),
    /// Asks whether the media sink takes a packet. Answered by `Ready`, `Pending` or `Failed`.
    PollMediaSink,
    /// Sends a packet over the media channel. Answered by `Ready` or `Failed`.
    SendMedia(Vec<u8>),
    /// Flushes the client's sink. Answered by `Ready`, `Pending` or `Failed`.
    FlushClient,
    /// Flushes the server's sink. Answered by `Ready`, `Pending` or `Failed`.
    FlushServer,
    /// Flushes the media sink. Answered by `Ready`, `Pending` or `Failed`.
    FlushMedia,
    /// Asks for the time. Answered by `Time`.
    ReadClock,
    /// Asks for the next candidate of the ICE stream. Answered by `Candidate`, `Pending` or
    /// `Closed`.
    PollCandidate,
    /// Asks whether the DTLS handshake is through. Answered by `Ready`, `Pending` or `Failed`.
    PollHandshake,
    /// Makes room in the media channel for this many more sources, in either direction.
    /// Answered by `Ready`.
    AllowSsrcs(u32),
    /// Asks for the next packet from the server. Answered by `ServerPacket`, `Pending`, `Failed`
    /// or `Closed`.
    PollServer,
    /// Asks for the next packet from the client. Answered by `ClientPacket`, `Pending`, `Failed`
    /// or `Closed`.
    PollClient,
    /// Asks for the next packet from the media channel. Answered by `MediaPacket`, `Pending`,
    /// `Failed` or `Closed`.
    PollMedia,
    /// Makes an ICE stream of one component, limited to a range of ports where one is given, in
    /// place of the last one, and begins a DTLS handshake over it. Answered by `IceCreated` or
    /// `Failed`.
    CreateIce(Option<(u16, u16)>),
    /// Hands the client's credentials to the ICE stream. Answered by `Ready`.
    SetRemoteCredentials { ufrag: String, pwd: String },
    /// Hands a candidate of the client's to the ICE stream. Answered by `Ready`.
    AddRemoteCandidate(RemoteCandidate),
    /// There is nothing to do until something changes. Answered by `Wake` then.
    Wait,
    /// The connection is over.
    Finish(Result<(), Error<E>>),
}

impl<E> View for Action<E> {
    type V = ActionView<E>;

    open spec fn view(&self) -> ActionView<E> {
        match *self {
            Action::PollAgent => ActionView::PollAgent,
            Action::PollServerSink => ActionView::PollServerSink,
            Action::SendToServer(packet) => ActionView::SendToServer(packet@),
            Action::PollClientSink => ActionView::PollClientSink,
            Action::SendToClient(packet) => ActionView::SendToClient(packet@),
            Action::PollMediaSink => ActionView::PollMediaSink,
            Action::SendMedia(bytes) => ActionView::SendMedia(bytes@),
            Action::FlushClient => ActionView::FlushClient,
            Action::FlushServer => ActionView::FlushServer,
            Action::FlushMedia => ActionView::FlushMedia,
            Action::ReadClock => ActionView::ReadClock,
            Action::PollCandidate => ActionView::PollCandidate,
            Action::PollHandshake => ActionView::PollHandshake,
            Action::AllowSsrcs(count) => ActionView::AllowSsrcs(count),
            Action::PollServer => ActionView::PollServer,
            Action::PollClient => ActionView::PollClient,
            Action::PollMedia => ActionView::PollMedia,
            Action::CreateIce(ports) => ActionView::CreateIce(ports),
            Action::SetRemoteCredentials { ufrag, pwd } => ActionView::SetRemoteCredentials {
                ufrag: ufrag@,
                pwd: pwd@,
            },
            Action::AddRemoteCandidate(candidate) => ActionView::AddRemoteCandidate(candidate@),
            Action::Wait => ActionView::Wait,
            Action::Finish(result) => ActionView::Finish(
                match result {
                    Ok(()) => Ok(()),
                    Err(error) => Err(error@),
                },
            ),
        }
    }
}

/// The contracts tell events apart and speak of the whole of what each brings.
pub proof fn law_event_is_seen_whole<E>(event: Event<E>)
    ensures
        match event {
            Event::Wake => event@ is Wake,
            Event::Ready => event@ is Ready,
            Event::Pending => event@ is Pending,
            Event::Failed(error) => event@ == EventView::Failed(error),
            Event::Closed => event@ is Closed,
            Event::Time(now) => event@ == EventView::<E>::Time(now),
            Event::Candidate(candidate) => event@ == EventView::<E>::Candidate(candidate@),
            Event::ServerPacket(packet, now) => event@ == EventView::<E>::ServerPacket(
                packet@,
                now,
            ),
            Event::ClientPacket(packet) => event@ == EventView::<E>::ClientPacket(packet@),
            Event::MediaPacket(bytes) => event@ == EventView::<E>::MediaPacket(bytes@),
            Event::IceCreated(credentials) => event@ is IceCreated
                && event@->IceCreated_0.ufrag == credentials.ufrag@ && event@->IceCreated_0.pwd
                == credentials.pwd@,
        },
{
}

/// The contracts tell actions apart and speak of the whole of what each asks for.
pub proof fn law_action_is_seen_whole<E>(action: Action<E>)
    ensures
        match action {
            Action::PollAgent => action@ is PollAgent,
            Action::PollServerSink => action@ is PollServerSink,
            Action::SendToServer(packet) => action@ == ActionView::<E>::SendToServer(packet@),
            Action::PollClientSink => action@ is PollClientSink,
            Action::SendToClient(packet) => action@ == ActionView::<E>::SendToClient(packet@),
            Action::PollMediaSink => action@ is PollMediaSink,
            Action::SendMedia(bytes) => action@ == ActionView::<E>::SendMedia(bytes@),
            Action::FlushClient => action@ is FlushClient,
            Action::FlushServer => action@ is FlushServer,
            Action::FlushMedia => action@ is FlushMedia,
            Action::ReadClock => action@ is ReadClock,
            Action::PollCandidate => action@ is PollCandidate,
            Action::PollHandshake => action@ is PollHandshake,
            Action::AllowSsrcs(count) => action@ == ActionView::<E>::AllowSsrcs(count),
            Action::PollServer => action@ is PollServer,
            Action::PollClient => action@ is PollClient,
            Action::PollMedia => action@ is PollMedia,
            Action::CreateIce(ports) => action@ == ActionView::<E>::CreateIce(ports),
            Action::SetRemoteCredentials { ufrag, pwd } => action@ is SetRemoteCredentials
                && action@->ufrag == ufrag@ && action@->pwd == pwd@,
            Action::AddRemoteCandidate(candidate) => action@
                == ActionView::<E>::AddRemoteCandidate(candidate@),
            Action::Wait => action@ is Wait,
            Action::Finish(result) => action@ is Finish && match result {
                Ok(()) => action@->Finish_0 is Ok,
                Err(Error::Outside(error)) => action@->Finish_0 == Err::<(), ErrorView<E>>(
                    ErrorView::Outside(error),
                ),
                Err(Error::IceCandidate(text)) => action@->Finish_0 == Err::<(), ErrorView<E>>(
                    ErrorView::IceCandidate(text@),
                ),
            },
        },
{
}

/// The contracts tell reactions apart and speak of the whole of each.
pub proof fn law_reaction_is_seen_whole<E>(reaction: Reaction<E>)
    ensures
        match reaction {
            Reaction::Items(items) => reaction@ == ReactionView::Items(items_view(items@)),
            Reaction::CreateIce(login) => reaction@ == ReactionView::<E>::CreateIce(login@),
            Reaction::SetRemoteCredentials { ufrag, pwd } => reaction@ is SetRemoteCredentials
                && reaction@->ufrag == ufrag@ && reaction@->pwd == pwd@,
            Reaction::AddRemoteCandidate(candidate) => reaction@ == ReactionView::<
                E,
            >::AddRemoteCandidate(candidate@),
        },
{
}

} // verus!
