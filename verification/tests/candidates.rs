//! ICE candidates and the operator's settings.
use mumble_web_proxy::candidate::{
    accept_candidate, describe_local_candidate, make_candidate_line, map_to_public,
    read_remote_candidate, Attribute, Candidate, CandidateAddress, LocalCandidate, RemoteAddress,
    RemoteCandidate,
};
use mumble_web_proxy::config::Config;
use webrtc_sdp::attribute_type::{
    SdpAttributeCandidateTcpType, SdpAttributeCandidateTransport, SdpAttributeCandidateType,
};

const V6: [u8; 16] = [0x20, 1, 0xd, 0xb8, 0, 0, 0, 0, 0, 0, 0, 0, 0, 0, 0, 1];

fn config() -> Config {
    Config {
        min_port: 1,
        max_port: 65535,
        public_v4: None,
        public_v6: None,
    }
}

fn candidate(address: CandidateAddress) -> LocalCandidate {
    Candidate {
        foundation: "1".to_string(),
        component: 1,
        transport: SdpAttributeCandidateTransport::Udp,
        priority: 2013266431,
        address,
        port: 50000,
        c_type: SdpAttributeCandidateType::Host,
        raddr: None,
        rport: None,
        tcp_type: None,
        generation: None,
        ufrag: None,
        networkcost: None,
        unknown_extensions: vec![],
    }
}

#[test]
fn ports_are_limited_unless_all_are_allowed() {
    assert_eq!(config().port_range(), None);
    let low = Config {
        min_port: 2,
        ..config()
    };
    assert_eq!(low.port_range(), Some((2, 65535)));
    let high = Config {
        max_port: 65534,
        ..config()
    };
    assert_eq!(high.port_range(), Some((1, 65534)));
}

#[test]
fn candidate_is_described() {
    assert_eq!(
        describe_local_candidate(&config(), candidate(CandidateAddress::V4([192, 168, 1, 5]))),
        "candidate:1 1 UDP 2013266431 192.168.1.5 50000 typ host"
    );
    assert_eq!(
        describe_local_candidate(&config(), candidate(CandidateAddress::V6(V6))),
        "candidate:1 1 UDP 2013266431 2001:db8::1 50000 typ host"
    );
    assert_eq!(
        describe_local_candidate(
            &config(),
            candidate(CandidateAddress::Fqdn("example.org".to_string()))
        ),
        "candidate:1 1 UDP 2013266431 example.org 50000 typ host"
    );
}

#[test]
fn every_field_of_a_candidate_is_described() {
    let full = Candidate {
        transport: SdpAttributeCandidateTransport::Tcp,
        c_type: SdpAttributeCandidateType::Srflx,
        raddr: Some(CandidateAddress::V4([10, 0, 0, 1])),
        rport: Some(9),
        tcp_type: Some(SdpAttributeCandidateTcpType::Passive),
        generation: Some(2),
        ufrag: Some("abcd".to_string()),
        networkcost: Some(50),
        unknown_extensions: vec![("x".to_string(), "y".to_string())],
        ..candidate(CandidateAddress::V4([192, 168, 1, 5]))
    };
    assert_eq!(
        describe_local_candidate(&config(), full),
        "candidate:1 1 TCP 2013266431 192.168.1.5 50000 typ srflx raddr 10.0.0.1 rport 9 \
         tcptype passive generation 2 ufrag abcd network-cost 50 x y"
    );
}

#[test]
fn public_address_of_the_same_kind_is_told() {
    let public = Config {
        public_v4: Some([203, 0, 113, 7]),
        ..config()
    };
    assert_eq!(
        describe_local_candidate(&public, candidate(CandidateAddress::V4([192, 168, 1, 5]))),
        "candidate:1 1 UDP 2013266431 203.0.113.7 50000 typ host"
    );
    assert_eq!(
        map_to_public(&public, candidate(CandidateAddress::V6(V6))),
        candidate(CandidateAddress::V6(V6))
    );
    let public = Config {
        public_v6: Some(V6),
        ..config()
    };
    assert_eq!(
        map_to_public(&public, candidate(CandidateAddress::V6([0; 16]))),
        candidate(CandidateAddress::V6(V6))
    );
    assert_eq!(
        map_to_public(&public, candidate(CandidateAddress::V4([192, 168, 1, 5]))),
        candidate(CandidateAddress::V4([192, 168, 1, 5]))
    );
}

#[test]
fn named_address_is_not_mapped() {
    let public = Config {
        public_v4: Some([203, 0, 113, 7]),
        public_v6: Some(V6),
        ..config()
    };
    let named = || candidate(CandidateAddress::Fqdn("example.org".to_string()));
    assert_eq!(map_to_public(&public, named()), named());
}

#[test]
fn mapping_twice_is_mapping_once() {
    let public = Config {
        public_v4: Some([203, 0, 113, 7]),
        ..config()
    };
    let local = || candidate(CandidateAddress::V4([192, 168, 1, 5]));
    assert_eq!(
        map_to_public(&public, map_to_public(&public, local())),
        map_to_public(&public, local())
    );
}

fn remote(address: RemoteAddress) -> RemoteCandidate {
    Candidate {
        foundation: "7".to_string(),
        component: 1,
        transport: SdpAttributeCandidateTransport::Udp,
        priority: 2130706431,
        address,
        port: 54321,
        c_type: SdpAttributeCandidateType::Host,
        raddr: None,
        rport: None,
        tcp_type: None,
        generation: None,
        ufrag: None,
        networkcost: None,
        unknown_extensions: vec![],
    }
}

#[test]
fn line_announces_a_candidate() {
    assert_eq!(make_candidate_line("7 1 UDP"), "candidate:7 1 UDP");
}

#[test]
fn remote_candidate_is_read() {
    assert_eq!(
        read_remote_candidate("7 1 UDP 2130706431 192.168.1.5 54321 typ host"),
        Ok(remote(RemoteAddress::Ip("192.168.1.5".to_string())))
    );
    assert_eq!(
        read_remote_candidate("7 1 UDP 2130706431 2001:DB8:0::1 54321 typ host"),
        Ok(remote(RemoteAddress::Ip("2001:db8::1".to_string())))
    );
    assert_eq!(
        read_remote_candidate("7 1 UDP 2130706431 example.org 54321 typ host"),
        Ok(remote(RemoteAddress::Fqdn("example.org".to_string())))
    );
}

#[test]
fn every_field_of_a_remote_candidate_is_read() {
    let full = Candidate {
        transport: SdpAttributeCandidateTransport::Tcp,
        c_type: SdpAttributeCandidateType::Relay,
        raddr: Some(RemoteAddress::Ip("10.0.0.1".to_string())),
        rport: Some(9),
        tcp_type: Some(SdpAttributeCandidateTcpType::Active),
        generation: Some(2),
        ufrag: Some("abcd".to_string()),
        networkcost: Some(50),
        unknown_extensions: vec![("x".to_string(), "y".to_string())],
        ..remote(RemoteAddress::Ip("192.168.1.5".to_string()))
    };
    assert_eq!(
        read_remote_candidate(
            "7 1 TCP 2130706431 192.168.1.5 54321 typ relay raddr 10.0.0.1 rport 9 \
             tcptype active generation 2 ufrag abcd network-cost 50 x y"
        ),
        Ok(full)
    );
}

#[test]
fn unreadable_remote_candidate_gives_the_reason() {
    for content in ["", "garbage", "1 1 SCTP 1 192.168.1.5 54321 typ host"] {
        let reason = format!("candidate:{}", content)
            .parse::<webrtc_sdp::attribute_type::SdpAttribute>()
            .err()
            .expect("an error")
            .to_string();
        assert_eq!(
            read_remote_candidate(content),
            Err(format!("Error parsing ICE candidate: {}", reason))
        );
    }
}

#[test]
fn candidate_is_accepted_by_what_it_parsed_as() {
    let address = || RemoteAddress::Fqdn("example.org".to_string());
    assert_eq!(
        accept_candidate(Ok(Attribute::Candidate(remote(address())))),
        Ok(remote(address()))
    );
    assert_eq!(
        accept_candidate(Err("why".to_string())),
        Err("Error parsing ICE candidate: why".to_string())
    );
}
