//! ICE candidates: the addresses under which one side may be reached.
use crate::config::Config;
use vstd::prelude::*;
use vstd::string::*;
use webrtc_sdp::address::Address;
use webrtc_sdp::attribute_type::{
    SdpAttribute, SdpAttributeCandidate, SdpAttributeCandidateTcpType,
    SdpAttributeCandidateTransport, SdpAttributeCandidateType,
};

verus! {

/// `webrtc_sdp`'s transports: an enum without fields, `Udp` or `Tcp`.
#[verifier::external_type_specification]
pub struct ExTransport(SdpAttributeCandidateTransport);

/// `webrtc_sdp`'s kinds of candidate: an enum without fields, `Host`, `Srflx`, `Prflx` or
/// `Relay`.
#[verifier::external_type_specification]
pub struct ExCandidateType(SdpAttributeCandidateType);

/// `webrtc_sdp`'s roles in a TCP connection: an enum without fields, `Active`, `Passive` or
/// `Simultaneous`.
#[verifier::external_type_specification]
pub struct ExTcpType(SdpAttributeCandidateTcpType);

/// Where a candidate of the proxy's may be reached.
#[derive(Debug, PartialEq)]
pub enum CandidateAddress {
    Fqdn(String),
    V4([u8; 4]),
    V6([u8; 16]),
}

pub enum CandidateAddressView {
    Fqdn(Seq<char>),
    V4([u8; 4]),
    V6([u8; 16]),
}

impl View for CandidateAddress {
    type V = CandidateAddressView;

    open spec fn view(&self) -> CandidateAddressView {
        match *self {
            CandidateAddress::Fqdn(name) => CandidateAddressView::Fqdn(name@),
            CandidateAddress::V4(ip) => CandidateAddressView::V4(ip),
            CandidateAddress::V6(ip) => CandidateAddressView::V6(ip),
        }
    }
}

/// Where a candidate of the client's may be reached: a name, or an IP address in its usual
/// notation.
#[derive(Debug, PartialEq)]
pub enum RemoteAddress {
    Fqdn(String),
    Ip(String),
}

pub enum RemoteAddressView {
    Fqdn(Seq<char>),
    Ip(Seq<char>),
}

impl View for RemoteAddress {
    type V = RemoteAddressView;

    open spec fn view(&self) -> RemoteAddressView {
        match *self {
            RemoteAddress::Fqdn(name) => RemoteAddressView::Fqdn(name@),
            RemoteAddress::Ip(ip) => RemoteAddressView::Ip(ip@),
        }
    }
}

/// An ICE candidate, with addresses of the type `A`.
#[derive(Debug, PartialEq)]
pub struct Candidate<A> {
    pub foundation: String,
    pub component: u32,
    pub transport: SdpAttributeCandidateTransport,
    pub priority: u64,
    pub address: A,
    pub port: u32,
    pub c_type: SdpAttributeCandidateType,
    pub raddr: Option<A>,
    pub rport: Option<u32>,
    pub tcp_type: Option<SdpAttributeCandidateTcpType>,
    pub generation: Option<u32>,
    pub ufrag: Option<String>,
    pub networkcost: Option<u32>,
    pub unknown_extensions: Vec<(String, String)>,
}

pub struct CandidateView<A> {
    pub foundation: Seq<char>,
    pub component: u32,
    pub transport: SdpAttributeCandidateTransport,
    pub priority: u64,
    pub address: A,
    pub port: u32,
    pub c_type: SdpAttributeCandidateType,
    pub raddr: Option<A>,
    pub rport: Option<u32>,
    pub tcp_type: Option<SdpAttributeCandidateTcpType>,
    pub generation: Option<u32>,
    pub ufrag: Option<Seq<char>>,
    pub networkcost: Option<u32>,
    pub unknown_extensions: Seq<(Seq<char>, Seq<char>)>,
}

/// A candidate of the proxy's.
pub type LocalCandidate = Candidate<CandidateAddress>;

pub type LocalCandidateView = CandidateView<CandidateAddressView>;

/// A candidate of the client's.
pub type RemoteCandidate = Candidate<RemoteAddress>;

pub type RemoteCandidateView = CandidateView<RemoteAddressView>;

impl<A: View> View for Candidate<A> {
    type V = CandidateView<A::V>;

    open spec fn view(&self) -> CandidateView<A::V> {
        CandidateView {
            foundation: self.foundation@,
            component: self.component,
            transport: self.transport,
            priority: self.priority,
            address: self.address@,
            port: self.port,
            c_type: self.c_type,
            raddr: match self.raddr {
                Some(address) => Some(address@),
                None => None,
            },
            rport: self.rport,
            tcp_type: self.tcp_type,
            generation: self.generation,
            ufrag: match self.ufrag {
                Some(ufrag) => Some(ufrag@),
                None => None,
            },
            networkcost: self.networkcost,
            unknown_extensions: self.unknown_extensions@.map_values(
                |extension: (String, String)| (extension.0@, extension.1@),
            ),
        }
    }
}

/// The text that `webrtc_sdp::attribute_type::SdpAttributeCandidate` displays as.
pub uninterp spec fn candidate_text(candidate: LocalCandidateView) -> Seq<char>;

/// Calls `to_string` on a `webrtc_sdp::attribute_type::SdpAttributeCandidate` that has the
/// fields of `candidate`. The text depends on the fields alone.
#[verifier::external_body]
pub(crate) fn display_candidate(candidate: LocalCandidate) -> (text: String)
    ensures
        text@ == candidate_text(candidate@),
{
    let Candidate { foundation, component, transport, priority, address, port, c_type, raddr,
        rport, tcp_type, generation, ufrag, networkcost, unknown_extensions } = candidate;
    let sdp = |address: CandidateAddress| match address {
        CandidateAddress::Fqdn(name) => Address::Fqdn(name),
        CandidateAddress::V4(ip) => Address::Ip(ip.into()),
        CandidateAddress::V6(ip) => Address::Ip(ip.into()),
    };
    let (address, raddr) = (sdp(address), raddr.map(sdp));
    SdpAttributeCandidate { foundation, component, transport, priority, address, port, c_type,
        raddr, rport, tcp_type, generation, ufrag, networkcost, unknown_extensions }.to_string()
}

/// What a line of a session description is read as, as far as it matters here.
#[derive(Debug, PartialEq)]
pub enum Attribute {
    Candidate(RemoteCandidate),
    Other,
}

pub enum AttributeView {
    Candidate(RemoteCandidateView),
    Other,
}

impl View for Attribute {
    type V = AttributeView;

    open spec fn view(&self) -> AttributeView {
        match *self {
            Attribute::Candidate(candidate) => AttributeView::Candidate(candidate@),
            Attribute::Other => AttributeView::Other,
        }
    }
}

/// The outcome of reading a line, with the reason as a text where it cannot be read.
pub open spec fn attribute_view(attribute: Result<Attribute, String>) -> Result<
    AttributeView,
    Seq<char>,
> {
    match attribute {
        Ok(attribute) => Ok(attribute@),
        Err(text) => Err(text@),
    }
}

/// Whether a line was read as something other than a candidate.
pub open spec fn is_other(attribute: Result<Attribute, String>) -> bool {
    attribute is Ok && attribute->Ok_0 is Other
}

/// What `webrtc_sdp::attribute_type::SdpAttribute` parses a line as: a candidate with its fields,
/// or another attribute, or the text that its error displays as.
pub uninterp spec fn sdp_attribute(line: Seq<char>) -> Result<AttributeView, Seq<char>>;

/// Calls the parser of `webrtc_sdp::attribute_type::SdpAttribute`, which depends on the line
/// alone, on a line that begins with `candidate:`. Such a line is read as a candidate or not at
/// all. IP addresses are handed on as `std` displays them.
#[verifier::external_body]
pub(crate) fn parse_attribute(line: &str) -> (attribute: Result<Attribute, String>)
    requires
        is_candidate_line(line@),
    ensures
        attribute_view(attribute) == sdp_attribute(line@),
        !is_other(attribute),
{
    let own = |address: Address| match address {
        Address::Fqdn(name) => RemoteAddress::Fqdn(name),
        Address::Ip(ip) => RemoteAddress::Ip(ip.to_string()),
    };
    match line.parse::<SdpAttribute>() {
        Ok(SdpAttribute::Candidate(c)) => Ok(Attribute::Candidate(Candidate {
            foundation: c.foundation, component: c.component, transport: c.transport,
            priority: c.priority, address: own(c.address), port: c.port, c_type: c.c_type,
            raddr: c.raddr.map(own), rport: c.rport, tcp_type: c.tcp_type,
            generation: c.generation, ufrag: c.ufrag, networkcost: c.networkcost,
            unknown_extensions: c.unknown_extensions })),
        Ok(_) => Ok(Attribute::Other),
        Err(error) => Err(error.to_string()),
    }
}

/// The line of a session description that announces the candidate `content`.
pub open spec fn candidate_line(content: Seq<char>) -> Seq<char> {
    "candidate:"@ + content
}

/// Whether a line announces a candidate.
pub open spec fn is_candidate_line(line: Seq<char>) -> bool {
    exists|content: Seq<char>| line == #[trigger] candidate_line(content)
}

/// The address that the client is told in place of `address`: the operator's public address of
/// the same kind, where there is one.
pub open spec fn public_address(
    config: Config,
    address: CandidateAddressView,
) -> CandidateAddressView {
    match (address, config.public_v4, config.public_v6) {
        (CandidateAddressView::V4(_), Some(public), _) => CandidateAddressView::V4(public),
        (CandidateAddressView::V6(_), _, Some(public)) => CandidateAddressView::V6(public),
        _ => address,
    }
}

/// The candidate that the client is told in place of `candidate`.
pub open spec fn public_candidate(
    config: Config,
    candidate: LocalCandidateView,
) -> LocalCandidateView {
    CandidateView { address: public_address(config, candidate.address), ..candidate }
}

/// Puts the operator's public address in place of the candidate's, if one is set for its kind.
pub fn map_to_public(config: &Config, candidate: LocalCandidate) -> (mapped: LocalCandidate)
    ensures
        mapped@ == public_candidate(*config, candidate@),
{
    let mut mapped = candidate;
    match (&mapped.address, config.public_v4, config.public_v6) {
        (CandidateAddress::V4(_), Some(public), _) => {
            mapped.address = CandidateAddress::V4(public);
        },
        (CandidateAddress::V6(_), _, Some(public)) => {
            mapped.address = CandidateAddress::V6(public);
        },
        _ => {},  // non configured
    }
    mapped
}

/// Makes a line out of the text of a candidate.
pub fn make_candidate_line(content: &str) -> (line: String)
    ensures
        line@ == candidate_line(content@),
{
    let mut line = "candidate:".to_string();
    line.append(content);
    line
}

/// What the error says of a candidate that cannot be read.
pub open spec fn candidate_error(reason: Seq<char>) -> Seq<char> {
    "Error parsing ICE candidate: "@ + reason
}

/// Takes a line that announces a candidate, by what it parsed as: a candidate is passed on,
/// anything else gives an error.
pub fn accept_candidate(parsed: Result<Attribute, String>) -> (result: Result<
    RemoteCandidate,
    String,
>)
    requires
        !is_other(parsed),
    ensures
        match parsed {
            Ok(attribute) => result is Ok && attribute == Attribute::Candidate(result->Ok_0),
            Err(reason) => result is Err && result->Err_0@ == candidate_error(reason@),
        },
{
    let reason = match parsed {
        Ok(Attribute::Candidate(candidate)) => return Ok(candidate),
        Ok(Attribute::Other) => String::new(),
        Err(reason) => reason,
    };
    let mut text = "Error parsing ICE candidate: ".to_string();
    text.append(reason.as_str());
    Err(text)
}

/// The candidate that the client sent, or the error that it gives.
pub open spec fn remote_candidate(content: Seq<char>) -> Result<RemoteCandidateView, Seq<char>> {
    match sdp_attribute(candidate_line(content)) {
        Ok(AttributeView::Candidate(candidate)) => Ok(candidate),
        Ok(AttributeView::Other) => Err(candidate_error(Seq::empty())),
        Err(reason) => Err(candidate_error(reason)),
    }
}

/// Reads a candidate that the client sent.
pub fn read_remote_candidate(content: &str) -> (result: Result<RemoteCandidate, String>)
    ensures
        match result {
            Ok(candidate) => remote_candidate(content@) == Ok::<RemoteCandidateView, Seq<char>>(
                candidate@,
            ),
            Err(text) => remote_candidate(content@) == Err::<RemoteCandidateView, Seq<char>>(
                text@,
            ),
        },
{
    let line = make_candidate_line(content);
    assert(is_candidate_line(line@));
    accept_candidate(parse_attribute(line.as_str()))
}

/// The content of the message that tells the client of a candidate.
pub open spec fn local_candidate_content(
    config: Config,
    candidate: LocalCandidateView,
) -> Seq<char> {
    candidate_line(candidate_text(public_candidate(config, candidate)))
}

/// Describes a candidate of the proxy's to the client.
pub fn describe_local_candidate(config: &Config, candidate: LocalCandidate) -> (content: String)
    ensures
        content@ == local_candidate_content(*config, candidate@),
{
    let mapped = map_to_public(config, candidate);
    let text = display_candidate(mapped);
    make_candidate_line(text.as_str())
}

/// Mapping a candidate to the public addresses changes nothing but its address, and the address
/// keeps its kind; mapping it again changes nothing at all.
pub proof fn law_public_candidate(config: Config, candidate: LocalCandidateView)
    ensures
        public_candidate(config, candidate) == (CandidateView {
            address: public_candidate(config, candidate).address,
            ..candidate
        }),
        public_candidate(config, candidate).address is V4 <==> candidate.address is V4,
        public_candidate(config, candidate).address is V6 <==> candidate.address is V6,
        candidate.address is Fqdn ==> public_candidate(config, candidate) == candidate,
        public_candidate(config, public_candidate(config, candidate)) == public_candidate(
            config,
            candidate,
        ),
{
}

/// A candidate with an IPv4 address is told with the public IPv4 address wherever the operator
/// has set one, whatever else is set, and one with an IPv6 address with the public IPv6 address.
/// Where none is set for its kind, and where it has a name, the address is told as it is. All
/// other fields are told as they are.
pub proof fn law_public_address_is_told(
    config: Config,
    candidate: LocalCandidateView,
    v4: [u8; 4],
    v6: [u8; 16],
)
    ensures
        ({
            let told = public_candidate(config, candidate);
            &&& candidate.address is V4 && config.public_v4 == Some(v4) ==> told.address
                == CandidateAddressView::V4(v4)
            &&& candidate.address is V6 && config.public_v6 == Some(v6) ==> told.address
                == CandidateAddressView::V6(v6)
            &&& candidate.address is V4 && config.public_v4 is None ==> told.address
                == candidate.address
            &&& candidate.address is V6 && config.public_v6 is None ==> told.address
                == candidate.address
            &&& candidate.address is Fqdn ==> told.address == candidate.address
            &&& told.foundation == candidate.foundation
            &&& told.component == candidate.component
            &&& told.transport == candidate.transport
            &&& told.priority == candidate.priority
            &&& told.port == candidate.port
            &&& told.c_type == candidate.c_type
            &&& told.raddr == candidate.raddr
            &&& told.rport == candidate.rport
            &&& told.tcp_type == candidate.tcp_type
            &&& told.generation == candidate.generation
            &&& told.ufrag == candidate.ufrag
            &&& told.networkcost == candidate.networkcost
            &&& told.unknown_extensions == candidate.unknown_extensions
        }),
{
}

/// What the client is told of a candidate is the word `candidate:` and the text of the candidate
/// under its public address.
pub proof fn law_candidate_is_told_as_a_line(config: Config, candidate: LocalCandidateView)
    ensures
        local_candidate_content(config, candidate) == "candidate:"@ + candidate_text(
            public_candidate(config, candidate),
        ),
{
}

/// A candidate of the client's is read from the word `candidate:` and what the client sent. One
/// that is read is taken with all of its fields, and one that is not gives an error that begins
/// as all of them do and ends with the reason.
pub proof fn law_remote_candidate_is_read_as_a_line(content: Seq<char>)
    ensures
        match sdp_attribute("candidate:"@ + content) {
            Ok(AttributeView::Candidate(candidate)) => remote_candidate(content) == Ok::<
                RemoteCandidateView,
                Seq<char>,
            >(candidate),
            Ok(AttributeView::Other) => true,
            Err(reason) => remote_candidate(content) == Err::<RemoteCandidateView, Seq<char>>(
                "Error parsing ICE candidate: "@ + reason,
            ),
        },
{
}

/// The contracts speak of the whole of a candidate.
pub proof fn law_candidate_is_seen_whole<A: View>(candidate: Candidate<A>, i: int)
    ensures
        candidate@.foundation == candidate.foundation@,
        candidate@.component == candidate.component,
        candidate@.transport == candidate.transport,
        candidate@.priority == candidate.priority,
        candidate@.address == candidate.address@,
        candidate@.port == candidate.port,
        candidate@.c_type == candidate.c_type,
        candidate@.raddr is Some <==> candidate.raddr is Some,
        candidate.raddr is Some ==> candidate@.raddr->0 == candidate.raddr->0@,
        candidate@.rport == candidate.rport,
        candidate@.tcp_type == candidate.tcp_type,
        candidate@.generation == candidate.generation,
        candidate@.ufrag is Some <==> candidate.ufrag is Some,
        candidate.ufrag is Some ==> candidate@.ufrag->0 == candidate.ufrag->0@,
        candidate@.networkcost == candidate.networkcost,
        candidate@.unknown_extensions.len() == candidate.unknown_extensions@.len(),
        0 <= i < candidate.unknown_extensions@.len() ==> candidate@.unknown_extensions[i] == (
            candidate.unknown_extensions@[i].0@,
            candidate.unknown_extensions@[i].1@,
        ),
{
}

/// The contracts speak of addresses as they are.
pub proof fn law_address_is_seen_whole(address: CandidateAddress, remote: RemoteAddress)
    ensures
        match address {
            CandidateAddress::Fqdn(name) => address@ == CandidateAddressView::Fqdn(name@),
            CandidateAddress::V4(ip) => address@ == CandidateAddressView::V4(ip),
            CandidateAddress::V6(ip) => address@ == CandidateAddressView::V6(ip),
        },
        match remote {
            RemoteAddress::Fqdn(name) => remote@ == RemoteAddressView::Fqdn(name@),
            RemoteAddress::Ip(ip) => remote@ == RemoteAddressView::Ip(ip@),
        },
{
}

/// The contracts speak of the whole of what a line is read as.
pub proof fn law_attribute_is_seen_whole(attribute: Attribute)
    ensures
        match attribute {
            Attribute::Candidate(candidate) => attribute@ == AttributeView::Candidate(candidate@),
            Attribute::Other => attribute@ is Other,
        },
{
}

} // verus!
