use kernel::net::packet::{Packet, PacketCursor, ParseError};
use kernel::net::route::{route_packet, Route, UdpBinds};
use kernel::net::protocols::arp::{build_arp_packet, Opcode};
use kernel::net::protocols::connection::{
    capped_mss, connect_step, segment_flags, segment_sizes, send_step, ConnectAction,
    ConnectEvent, ConnectPhase, ConnectState, Internal, SendAction, SendPhase, SendState,
    TcpState, TCP_PSH,
};
use kernel::net::protocols::dhcp::{
    DhcpClient, DhcpOption, DhcpOptionsBuilder, DhcpPhase, MessageType, DHCP_COOKIE,
};
use kernel::net::protocols::tcp::{TCP_ACK, TCP_RST, TCP_SYN};
use kernel::net::{
    least_contended, IpAddr, Ipv4Addr, Ipv6Addr, Mac, NetAddress, Port, PortAllocator,
    EPHEMERAL_START,
};

fn packet_from(bytes: &[u8]) -> Packet {
    let mut c = PacketCursor::new(Packet::new());
    c.write(bytes).unwrap();
    c.into_packet()
}

fn addr(src_port: u16, dst_port: u16) -> NetAddress {
    NetAddress {
        src_mac: Mac([2, 0, 0, 0, 0, 1]),
        src_ip: IpAddr::V4(Ipv4Addr::from_bits(0x0A00_0001)),
        src_port: Port(src_port),
        dst_mac: Mac([2, 0, 0, 0, 0, 2]),
        dst_ip: IpAddr::V4(Ipv4Addr::from_bits(0x0A00_0002)),
        dst_port: Port(dst_port),
    }
}

fn udp_packet(a: &NetAddress, payload: &[u8]) -> Packet {
    let mut b = Packet::new().create_udp(a);
    b.write(payload).unwrap();
    b.finalize()
}

#[test]
fn ports_are_allocated_in_the_ephemeral_range_and_wrap() {
    let mut ports = PortAllocator::new();
    assert_eq!(Port::next_free(&mut ports), Port(EPHEMERAL_START));
    assert_eq!(Port::next_free(&mut ports), Port(EPHEMERAL_START + 1));
    for _ in 0..(u16::MAX - EPHEMERAL_START - 3) {
        Port::next_free(&mut ports);
    }
    // The last ephemeral port is u16::MAX - 1: u16::MAX is never handed out
    assert_eq!(Port::next_free(&mut ports), Port(u16::MAX - 1));
    assert_eq!(Port::next_free(&mut ports), Port(EPHEMERAL_START));
}

#[test]
fn a_built_udp_packet_parses_back() {
    let a = addr(1234, 80);
    let p = udp_packet(&a, b"hello");
    let raw = p.raw();
    assert_eq!(raw.len(), 14 + 20 + 8 + 5);
    // The IPv4 header checksum verifies
    assert_eq!(Packet::checksum(&raw[14..34]), 0xFFFF);
    let u = p.parse_udp().unwrap();
    assert_eq!(u.src_port, Port(1234));
    assert_eq!(u.dst_port, Port(80));
    assert_eq!(u.payload, b"hello");
    assert_eq!(u.ip.eth().dst_mac, Mac([2, 0, 0, 0, 0, 2]));
    assert!(matches!(u.ip.src_ip(), IpAddr::V4(a) if a == Ipv4Addr::from_bits(0x0A00_0001)));
}

#[test]
fn a_built_udp_over_ipv6_packet_parses_back() {
    let mut src = [0u8; 16];
    src[0] = 0xFE;
    src[1] = 0x80;
    src[15] = 1;
    let mut dst = src;
    dst[15] = 2;
    let a = NetAddress {
        src_mac: Mac([2, 0, 0, 0, 0, 1]),
        src_ip: IpAddr::V6(Ipv6Addr(src)),
        src_port: Port(546),
        dst_mac: Mac([2, 0, 0, 0, 0, 2]),
        dst_ip: IpAddr::V6(Ipv6Addr(dst)),
        dst_port: Port(547),
    };
    let p = udp_packet(&a, b"hi");
    let raw = p.raw();
    assert_eq!(raw.len(), 14 + 40 + 8 + 2);
    // The IPv6 payload length and the UDP length are both 10
    assert_eq!(&raw[18..20], &[0, 10]);
    assert_eq!(&raw[58..60], &[0, 10]);
    // The UDP checksum is filled in
    assert_ne!(&raw[60..62], &[0, 0]);
    let u = p.parse_udp().unwrap();
    assert_eq!(u.src_port, Port(546));
    assert_eq!(u.dst_port, Port(547));
    assert_eq!(u.payload, b"hi");
    assert!(matches!(u.ip.dst_ip(), IpAddr::V6(d) if d.octets() == dst));
    // The checksum verifies over the pseudo-header and the whole datagram
    let mut whole = Vec::new();
    whole.extend_from_slice(&src);
    whole.extend_from_slice(&dst);
    whole.extend_from_slice(&[0, 0, 0, 10, 0, 0, 0, 0x11]);
    whole.extend_from_slice(&raw[54..]);
    assert_eq!(Packet::checksum(&whole), 0xFFFF);
}

#[test]
fn malformed_frames_give_their_error() {
    assert_eq!(packet_from(&[0; 10]).parse_udp().unwrap_err(), ParseError::TruncatedPacket);
    let a = addr(1, 2);
    let mut raw = udp_packet(&a, b"x").raw().to_vec();
    raw[14 + 9] = 6; // not UDP
    assert_eq!(packet_from(&raw).parse_udp().unwrap_err(), ParseError::InvalidIpProtocol);
    let mut raw = udp_packet(&a, b"x").raw().to_vec();
    raw[34 + 5] = 0xFF; // UDP length past the packet
    assert_eq!(packet_from(&raw).parse_udp().unwrap_err(), ParseError::InvalidLength);
}

#[test]
fn the_checksum_folds_carries() {
    assert_eq!(Packet::checksum(&[0xFF, 0xFF, 0x00, 0x01]), 0x0001);
    assert_eq!(Packet::checksum(&[0x12, 0x34, 0x56]), 0x6834);
    assert_eq!(Packet::checksum(&[]), 0);
}

fn arp_frame(opcode: u16, smac: [u8; 6], sip: u32, tmac: [u8; 6], tip: u32) -> Vec<u8> {
    let mut f = vec![0xFF; 6];
    f.extend_from_slice(&smac);
    f.extend_from_slice(&[0x08, 0x06, 0x00, 0x01, 0x08, 0x00, 6, 4]);
    f.extend_from_slice(&opcode.to_be_bytes());
    f.extend_from_slice(&smac);
    f.extend_from_slice(&sip.to_be_bytes());
    f.extend_from_slice(&tmac);
    f.extend_from_slice(&tip.to_be_bytes());
    f
}

#[test]
fn arp_requests_and_replies_are_recognized() {
    let me = Mac([2, 0, 0, 0, 0, 1]);
    let my_ip = Ipv4Addr::from_bits(0x0A00_0001);
    let their_ip = Ipv4Addr::from_bits(0x0A00_0002);
    let req = packet_from(&arp_frame(1, [2, 0, 0, 0, 0, 2], 0x0A00_0002, [0; 6], 0x0A00_0001));
    let arp = req.parse_arp().unwrap();
    assert!(arp.is_request_for(my_ip));
    assert!(!arp.is_request_for(their_ip));
    assert_eq!(arp.sender_ip, their_ip);
    let rep = packet_from(&arp_frame(2, [2, 0, 0, 0, 0, 2], 0x0A00_0002, me.0, 0x0A00_0001));
    assert!(rep.parse_arp().unwrap().is_valid_reply(their_ip, my_ip, me));
    assert!(!rep.parse_arp().unwrap().is_valid_reply(my_ip, my_ip, me));
    assert_eq!(packet_from(&[0; 20]).parse_arp().unwrap_err(), ParseError::InvalidLength);
}

#[test]
fn built_arp_packets_carry_no_ether_type() {
    // The ARP body directly follows the MAC addresses, so the hardware type
    // stands where the ether type is expected
    let mut p = Packet::new();
    let me = Mac([2, 0, 0, 0, 0, 1]);
    build_arp_packet(&mut p, Opcode::Request, me, Ipv4Addr::from_bits(1), Mac::zero(),
        Ipv4Addr::from_bits(2)).unwrap();
    let raw = p.raw();
    assert_eq!(raw.len(), 12 + 28);
    assert_eq!(&raw[..6], &[0xFF; 6]);
    assert_eq!(&raw[6..12], &me.0);
    assert_eq!(&raw[12..20], &[0x00, 0x01, 0x08, 0x06, 6, 4, 0x00, 0x01]);
    assert_eq!(p.parse_arp().unwrap_err(), ParseError::InvalidLength);
}

#[test]
fn dhcp_options_serialize_and_parse_back() {
    let opts = [
        DhcpOption::SubnetMask(Ipv4Addr::from_bits(0xFFFF_FF00)),
        DhcpOption::MessageType(MessageType::Offer),
        DhcpOption::ParameterRequestList(vec![1, 3, 6]),
        DhcpOption::Unknown(99, vec![7, 8]),
        DhcpOption::Pad,
        DhcpOption::End,
    ];
    for o in opts.iter() {
        let mut buf = Vec::new();
        o.serialize(&mut buf);
        let (back, n) = DhcpOption::parse(&buf).unwrap();
        assert_eq!(n, buf.len());
        let mut again = Vec::new();
        back.serialize(&mut again);
        assert_eq!(again, buf);
    }
    let mut buf = Vec::new();
    DhcpOption::LeaseTime(86400).serialize(&mut buf);
    assert_eq!(buf, vec![51, 4, 0, 1, 0x51, 0x80]);
    assert!(DhcpOption::parse(&[1, 3, 0, 0, 0]).is_none());
    assert!(DhcpOption::parse(&[60, 5, 0]).is_none());
}

#[test]
fn the_options_builder_ends_with_the_end_option() {
    let mut b = DhcpOptionsBuilder::new();
    b.add(DhcpOption::MessageType(MessageType::Discover));
    assert_eq!(b.end(), vec![53, 1, 1, 255]);
}

/// A DHCP reply of type `msg` for `xid`, offering `yiaddr`, with `extra`
/// options
fn dhcp_reply(xid: u32, yiaddr: u32, msg: u8, extra: &[u8]) -> Vec<u8> {
    let mut h = vec![0u8; 240];
    h[0] = 2;
    h[1] = 1;
    h[2] = 6;
    h[4..8].copy_from_slice(&xid.to_be_bytes());
    h[16..20].copy_from_slice(&yiaddr.to_be_bytes());
    h[236..240].copy_from_slice(&DHCP_COOKIE.to_be_bytes());
    h.extend_from_slice(&[53, 1, msg]);
    h.extend_from_slice(extra);
    h.push(255);
    h
}

fn server_addr(mac: Mac) -> NetAddress {
    NetAddress {
        src_mac: Mac([2, 0, 0, 0, 0, 9]),
        src_ip: IpAddr::V4(Ipv4Addr::from_bits(0x0A00_00FE)),
        src_port: Port(67),
        dst_mac: mac,
        dst_ip: IpAddr::V4(Ipv4Addr::from_bits(0xFFFF_FFFF)),
        dst_port: Port(68),
    }
}

#[test]
fn a_lease_is_acquired_through_offer_and_ack() {
    let mac = Mac([2, 0, 0, 0, 0, 1]);
    let (mut client, discover) = DhcpClient::start(0x1234, mac);
    assert_eq!(&discover[..3], &[53, 1, 1]);
    assert_eq!(*discover.last().unwrap(), 255);

    // A reply for another transaction is ignored
    let other = udp_packet(&server_addr(mac), &dhcp_reply(0x9999, 0x0A00_0005, 2, &[]));
    assert!(client.on_udp(&other.parse_udp().unwrap()).is_none());
    assert!(matches!(client.phase, DhcpPhase::AwaitOffer));

    let offer = udp_packet(
        &server_addr(mac),
        &dhcp_reply(0x1234, 0x0A00_0005, 2, &[54, 4, 10, 0, 0, 254]),
    );
    let request = client.on_udp(&offer.parse_udp().unwrap()).unwrap();
    assert_eq!(&request[..3], &[53, 1, 3]);
    assert!(request.windows(6).any(|w| w == [50, 4, 10, 0, 0, 5]));
    assert!(request.windows(6).any(|w| w == [54, 4, 10, 0, 0, 254]));

    let ack = udp_packet(
        &server_addr(mac),
        &dhcp_reply(0x1234, 0, 5, &[1, 4, 255, 255, 255, 0, 28, 4, 10, 0, 0, 255]),
    );
    assert!(client.on_udp(&ack.parse_udp().unwrap()).is_none());
    let lease = client.lease().unwrap();
    assert_eq!(lease.client_ip, Ipv4Addr::from_bits(0x0A00_0005));
    assert_eq!(lease.server_ip, Ipv4Addr::from_bits(0x0A00_00FE));
    assert_eq!(lease.subnet_mask, Some(Ipv4Addr::from_bits(0xFFFF_FF00)));
    assert_eq!(lease.broadcast_ip, Some(Ipv4Addr::from_bits(0x0A00_00FF)));
    assert!(client.is_done());
}

#[test]
fn an_offer_without_server_or_a_timeout_fails_the_lease() {
    let mac = Mac([2, 0, 0, 0, 0, 1]);
    let (mut client, _) = DhcpClient::start(7, mac);
    let offer = udp_packet(&server_addr(mac), &dhcp_reply(7, 0x0A00_0005, 2, &[]));
    assert!(client.on_udp(&offer.parse_udp().unwrap()).is_none());
    assert!(matches!(client.phase, DhcpPhase::Failed));
    let (mut client, _) = DhcpClient::start(7, mac);
    client.on_timeout();
    assert!(client.lease().is_none());
    assert!(client.is_done());
}

#[test]
fn dhcp_requests_are_broadcast_from_the_client_port() {
    let mac = Mac([2, 0, 0, 0, 0, 1]);
    let mut p = Packet::new();
    p.create_dhcp_request(0xABCD, mac, &[53, 1, 1, 255]);
    let u = p.parse_udp().unwrap();
    assert_eq!(u.src_port, Port(68));
    assert_eq!(u.dst_port, Port(67));
    assert_eq!(u.ip.eth().dst_mac, Mac([0xFF; 6]));
    assert_eq!(&u.payload[4..8], &0xABCDu32.to_be_bytes());
    assert_eq!(&u.payload[28..34], &mac.0);
    assert_eq!(&u.payload[240..], &[53, 1, 1, 255]);
}

fn tcp_packet(a: &NetAddress, flags: u8, seq: u32, ack: u32, payload: &[u8]) -> Packet {
    let mut b = Packet::new().create_tcp(a, flags, seq, ack, 1000);
    b.write(payload).unwrap();
    b.finalize()
}

#[test]
fn a_built_tcp_packet_parses_back() {
    let a = addr(50000, 80);
    let p = tcp_packet(&a, TCP_ACK, 0x0102_0304, 0x0A0B_0C0D, b"data");
    let t = p.parse_tcp().unwrap();
    assert_eq!((t.src_port, t.dst_port), (Port(50000), Port(80)));
    assert_eq!((t.seq, t.ack, t.flags, t.window), (0x0102_0304, 0x0A0B_0C0D, TCP_ACK, 1000));
    assert_eq!(t.payload, b"data");
    // The checksum verifies over the pseudo-header and the whole segment
    let raw = p.raw();
    let mut whole = vec![10, 0, 0, 1, 10, 0, 0, 2, 0, 6, 0, 24];
    whole.extend_from_slice(&raw[34..]);
    assert_eq!(Packet::checksum(&whole), 0xFFFF);
    // The header is 20 bytes long and holds its length in 32-bit words
    assert_eq!(raw.len(), 14 + 20 + 20 + 4);
    assert_eq!(raw[34 + 12], 5 << 4);
    // Options a whole number of words long come before the payload
    let mut b = Packet::new().create_tcp_options(&a, TCP_SYN, 1, 2, 1000, &[2, 4, 0x05, 0x8C]);
    b.write(b"data").unwrap();
    let p = b.finalize();
    assert_eq!(p.raw()[34 + 12], 6 << 4);
    let t = p.parse_tcp().unwrap();
    assert_eq!((t.seq, t.ack, t.flags), (1, 2, TCP_SYN));
    assert_eq!(t.payload, b"data");
}

#[test]
fn a_connection_is_established_by_a_syn_ack() {
    let a = addr(50000, 80);
    let mut con = Internal::new(a, Port(50000), 100);
    assert_eq!(Internal::syn_options(), [2, 4, 0x05, 0x8C]);
    let syn = con.syn_segment();
    assert_eq!((syn.flags, syn.seq, syn.ack), (TCP_SYN, 100, 0));
    con.syn_sent();
    assert_eq!(con.state, TcpState::Syn);
    assert_eq!(con.seq, 101);

    let synack = tcp_packet(&addr(80, 50000), TCP_SYN | TCP_ACK, 5000, 101, &[]);
    let t = synack.parse_tcp().unwrap();
    let reply = con.handle_packet(&t).unwrap().unwrap();
    assert_eq!(con.state, TcpState::Established);
    assert_eq!((reply.flags, reply.seq, reply.ack), (TCP_ACK, 101, 5001));
    assert_eq!(con.remote_window, 1000);

    // Data in order is taken into the window and acknowledged
    let data = tcp_packet(&addr(80, 50000), TCP_ACK, 5001, 101, b"abc");
    let reply = con.handle_packet(&data.parse_tcp().unwrap()).unwrap().unwrap();
    assert_eq!(reply.ack, 5004);
    assert_eq!(con.window, b"abc");

    // Out of order data is dropped
    let ooo = tcp_packet(&addr(80, 50000), TCP_ACK, 9000, 101, b"z");
    assert!(con.handle_packet(&ooo.parse_tcp().unwrap()).is_none());

    // A reset closes the connection
    let rst = tcp_packet(&addr(80, 50000), TCP_RST, 5004, 101, &[]);
    assert!(con.handle_packet(&rst.parse_tcp().unwrap()).is_none());
    assert_eq!(con.state, TcpState::Closed);
}

#[test]
fn sends_are_cut_into_segments() {
    assert_eq!(capped_mss(9000), 1420);
    assert_eq!(capped_mss(536), 536);
    assert_eq!(segment_sizes(3000, 1420), vec![1420, 1420, 160]);
    assert_eq!(segment_sizes(2840, 1420), vec![1420, 1420]);
    assert_eq!(segment_sizes(0, 1420), Vec::<usize>::new());
    assert_eq!(segment_flags(1, 2), TCP_ACK | 8);
    assert_eq!(segment_flags(0, 2), TCP_ACK);
    let mut con = Internal::new(addr(1, 2), Port(1), 1000);
    con.remote_ack = 900;
    con.remote_window = 300;
    assert_eq!(con.unacked(), 100);
    assert_eq!(con.sendable(500), 200);
    assert_eq!(con.sendable(50), 50);
    assert_eq!(con.rewind(150), 50);
    assert_eq!(con.seq, 900);
    con.record_sent(10);
    assert_eq!(con.seq, 910);
}

#[test]
fn the_least_held_device_is_handed_out_first() {
    assert_eq!(least_contended(&[]), None);
    assert_eq!(least_contended(&[3, 1, 2, 1]), Some(1));
    assert_eq!(least_contended(&[usize::MAX, 7]), Some(1));
    assert_eq!(least_contended(&[usize::MAX]), None);
}

#[test]
fn the_default_address_is_all_zero() {
    let a = NetAddress::default();
    assert_eq!(a.src_mac, Mac([0; 6]));
    assert_eq!(a.dst_mac, Mac([0; 6]));
    assert_eq!((a.src_port, a.dst_port), (Port(0), Port(0)));
    assert!(matches!(a.src_ip, IpAddr::V4(ip) if ip.to_bits() == 0));
    assert!(matches!(a.dst_ip, IpAddr::V4(ip) if ip.to_bits() == 0));
}

#[test]
fn a_built_tcp_over_ipv6_packet_parses_back() {
    let mut src = [0u8; 16];
    src[0] = 0xFE;
    src[1] = 0x80;
    src[15] = 1;
    let mut dst = src;
    dst[15] = 2;
    let a = NetAddress {
        src_mac: Mac([2, 0, 0, 0, 0, 1]),
        src_ip: IpAddr::V6(Ipv6Addr(src)),
        src_port: Port(40000),
        dst_mac: Mac([2, 0, 0, 0, 0, 2]),
        dst_ip: IpAddr::V6(Ipv6Addr(dst)),
        dst_port: Port(443),
    };
    let p = tcp_packet(&a, TCP_SYN, 7, 0, b"xyz");
    let t = p.parse_tcp().unwrap();
    assert_eq!((t.src_port, t.dst_port, t.seq, t.flags), (Port(40000), Port(443), 7, TCP_SYN));
    assert_eq!(t.payload, b"xyz");
    // The checksum verifies over the pseudo-header and the whole segment
    let raw = p.raw();
    let mut whole = Vec::new();
    whole.extend_from_slice(&src);
    whole.extend_from_slice(&dst);
    whole.extend_from_slice(&[0, 0, 0, 23, 0, 0, 0, 6]);
    whole.extend_from_slice(&raw[54..]);
    assert_eq!(Packet::checksum(&whole), 0xFFFF);
}

#[test]
fn opening_a_connection_retries_on_bound_ports_and_timeouts() {
    let st = ConnectState::new(2);
    assert_eq!(st.first_action(), ConnectAction::PickNext);
    // A bound port counts one attempt
    let (st, a) = connect_step(st, ConnectEvent::Picked { port: 50000, bound: true, deadline: 10 });
    assert_eq!((st.attempts, a), (1, ConnectAction::PickNext));
    let (st, a) = connect_step(st, ConnectEvent::Picked { port: 50001, bound: false, deadline: 10 });
    assert_eq!(a, ConnectAction::Open(50001));
    assert_eq!(st.phase, ConnectPhase::Waiting { port: 50001, deadline: 10 });
    let (st, a) = connect_step(st, ConnectEvent::Tick { now: 5, established: false });
    assert_eq!(a, ConnectAction::Wait);
    let (st2, a) = connect_step(st, ConnectEvent::Tick { now: 6, established: true });
    assert_eq!((st2, a), (st, ConnectAction::Connected(50001)));
    // A timeout unbinds the port; the last attempt gives up
    let (st, a) = connect_step(st, ConnectEvent::Tick { now: 10, established: false });
    assert_eq!(a, ConnectAction::Unbind { port: 50001, give_up: true });
    assert_eq!((st.attempts, st.phase), (2, ConnectPhase::Pick));
}

#[test]
fn a_send_is_cut_by_the_window_and_rewound_on_timeout() {
    let mut con = Internal::new(addr(1, 2), Port(1), 1000);
    con.state = TcpState::Established;
    con.remote_ack = 1000;
    con.remote_window = 3000;
    let st = SendState::new();
    let (st, a) = send_step(st, &mut con, 0, 50, 2000, 1420);
    assert_eq!((st.phase, a), (SendPhase::Send, SendAction::Receive));
    let (st, a) = send_step(st, &mut con, 0, 50, 2000, 1420);
    match a {
        SendAction::Send(segs) => {
            assert_eq!(segs.len(), 2);
            assert_eq!((segs[0].start, segs[0].len, segs[0].seg.seq), (0, 1420, 1000));
            assert_eq!((segs[1].start, segs[1].len, segs[1].seg.seq), (1420, 580, 2420));
            assert_eq!(segs[1].seg.flags, TCP_ACK | TCP_PSH);
        }
        other => panic!("expected segments, got {other:?}"),
    }
    assert_eq!((st.sent, st.timeout, con.seq), (2000, 50, 3000));
    // The ACK for the second segment is lost: rewind to it
    con.remote_ack = 2420;
    let (st, a) = send_step(st, &mut con, 60, 100, 2000, 1420);
    assert_eq!((st.sent, con.seq, a), (1420, 2420, SendAction::Receive));
    // Everything acknowledged: done
    con.remote_ack = 2420;
    let mut st = st;
    st.phase = SendPhase::Check;
    st.sent = 2000;
    con.seq = 2420;
    let (_, a) = send_step(st, &mut con, 0, 100, 2000, 1420);
    assert_eq!(a, SendAction::Done);
    // A connection that is not established fails the send
    con.state = TcpState::Closed;
    let (_, a) = send_step(SendState::new(), &mut con, 0, 100, 2000, 1420);
    assert_eq!(a, SendAction::Fail);
}

#[test]
fn any_length_can_be_set() {
    let mut p = Packet::new();
    p.set_len(10_000);
    assert_eq!(p.len(), 10_000);
    p.set_len(3);
    assert_eq!(p.raw(), &[0, 0, 0]);
}

#[test]
fn storing_the_complemented_checksum_makes_a_buffer_verify() {
    let mut b: Vec<u8> = (0..1000u32).map(|i| (i * 7 + 3) as u8).collect();
    b[10] = 0;
    b[11] = 0;
    let c = !Packet::checksum(&b);
    b[10..12].copy_from_slice(&c.to_be_bytes());
    assert_eq!(Packet::checksum(&b), 0xFFFF);
}

#[test]
fn packets_nobody_waited_for_are_routed_by_kind() {
    let a = addr(1234, 80);
    let u = udp_packet(&a, b"x");
    assert!(matches!(route_packet(&u, None), Route::Udp(80)));
    let t = tcp_packet(&addr(9, 443), TCP_ACK, 1, 2, b"");
    assert!(matches!(route_packet(&t, None), Route::Tcp(443)));
    let me = Ipv4Addr::from_bits(0x0A00_0002);
    let req = packet_from(&arp_frame(1, [2, 0, 0, 0, 0, 9], 0x0A00_0009, [0; 6], 0x0A00_0002));
    assert!(matches!(route_packet(&req, Some(me)),
        Route::ArpReply(m, ip) if m == Mac([2, 0, 0, 0, 0, 9]) && ip.to_bits() == 0x0A00_0009));
    assert!(matches!(route_packet(&req, None), Route::Drop));
    assert!(matches!(route_packet(&packet_from(&[0; 10]), Some(me)), Route::Drop));
}

#[test]
fn udp_ports_are_bound_once() {
    let mut b = UdpBinds::new();
    assert!(!b.is_bound(68));
    assert!(b.bind(68));
    assert!(!b.bind(68));
    assert!(b.is_bound(68));
    assert!(b.unbind(68));
    assert!(!b.unbind(68));
    assert!(!b.is_bound(68));
}

#[test]
fn a_transport_segment_verifies_over_its_bytes() {
    let pseudo = [10, 0, 0, 1, 10, 0, 0, 2, 0, 17, 0, 11];
    let mut hdr = vec![0x04, 0xD2, 0x00, 0x50, 0x00, 0x0B, 0x00, 0x00];
    let payload = b"abc";
    let mut all = pseudo.to_vec();
    all.extend_from_slice(&hdr);
    all.extend_from_slice(payload);
    let mut c = !Packet::checksum(&all);
    if c == 0 {
        c = 0xFFFF;
    }
    hdr[6..8].copy_from_slice(&c.to_be_bytes());
    let mut all = pseudo.to_vec();
    all.extend_from_slice(&hdr);
    all.extend_from_slice(payload);
    assert_eq!(Packet::checksum(&all), 0xFFFF);
}
