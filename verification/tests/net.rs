use std::sync::atomic::{AtomicUsize, Ordering};
use std::sync::Arc;
use std::task::{Wake, Waker};

use msim::io::AsyncFd;
use msim::net::addr::{AddrTable, IpAddr, SocketAddr};
use msim::net::buffer::{Buffer, ReadBuf};
use msim::net::config::NetworkConfig;
use msim::net::error::{ErrorKind, NetError};
use msim::net::handshake::{
    accept_connection, connect_begin, connect_finish, GivenUp, TcpIds, OPENING_TAG,
};
use msim::net::mailbox::{
    make_tag, tag_connection, tag_sequence, Mailbox, Message, Payload, PayloadType, Reception,
    WakeKey,
};
use msim::net::network::{LinkSet, Network, SimEvent, Verdict};
use msim::net::socket::{Endpoint, TcpSocket, UdpSocket};
use msim::net::tcp::{Carried, TcpMessage, TcpStream};
use msim::random::GlobalRng;
use msim::task::NodeId;
use msim::time::duration::Duration;
use msim::time::{Poll, TimeRuntime};

struct Count(AtomicUsize);

impl Wake for Count {
    fn wake(self: Arc<Self>) {
        self.0.fetch_add(1, Ordering::SeqCst);
    }
}

fn counter() -> (Arc<Count>, Waker) {
    let count = Arc::new(Count(AtomicUsize::new(0)));
    let waker = Waker::from(count.clone());
    (count, waker)
}

fn ip(n: u8) -> IpAddr {
    IpAddr::v4(10, 0, 0, n)
}

fn addr(n: u8, port: u16) -> SocketAddr {
    SocketAddr::new(ip(n), port)
}

fn loopback(port: u16) -> SocketAddr {
    SocketAddr::new(IpAddr::v4(127, 0, 0, 1), port)
}

fn any(port: u16) -> SocketAddr {
    SocketAddr::new(IpAddr::v4(0, 0, 0, 0), port)
}

fn message(tag: u64, data: u32) -> Message<u32> {
    Message { tag, data: Payload::new_udp(data), from: addr(9, 9) }
}

struct World<D> {
    rng: GlobalRng,
    net: Network<D>,
    time: TimeRuntime<SimEvent<D>>,
}

impl<D> World<D> {
    /// Nodes 1 and 2, with the addresses 10.0.0.1 and 10.0.0.2.
    fn new() -> World<D> {
        let mut rng = GlobalRng::new_with_seed(1);
        let time = TimeRuntime::new(&mut rng);
        let mut net = Network::new(NetworkConfig::default());
        for n in 1..3 {
            net.insert_node(NodeId(n));
            net.set_ip(NodeId(n), ip(n as u8));
        }
        World { rng, net, time }
    }

    fn send(&mut self, node: u64, src: SocketAddr, dst: SocketAddr, tag: u64, data: Payload<D>) -> Result<(), NetError> {
        self.net.send(&mut self.rng, &mut self.time.handle, NodeId(node), src, dst, tag, data)
    }

    /// Lets everything that is scheduled happen.
    fn settle(&mut self) {
        while let Some(fired) = self.time.advance_to_next_event() {
            for event in fired {
                let fired = self.net.fire(event);
                wake(fired.woken);
                if let Some(delivery) = fired.arriving {
                    wake(self.net.deliver(delivery));
                }
            }
        }
    }
}

fn wake(woken: Vec<Waker>) {
    for waker in woken {
        waker.wake();
    }
}

#[test]
fn addresses() {
    assert!(IpAddr::v4(127, 0, 0, 1).is_loopback());
    assert!(IpAddr::v4(127, 255, 1, 2).is_loopback());
    assert!(!IpAddr::v4(128, 0, 0, 1).is_loopback());
    assert!(!IpAddr::v4(126, 255, 255, 255).is_loopback());
    assert!(IpAddr::V6(1).is_loopback());
    assert!(!IpAddr::V6(2).is_loopback());
    assert!(IpAddr::v4(0, 0, 0, 0).is_unspecified());
    assert!(IpAddr::V6(0).is_unspecified());
    assert!(!IpAddr::V6(1).is_unspecified());
    assert_eq!(IpAddr::v4(10, 0, 0, 1), IpAddr::V4(0x0a00_0001));

    let mut table = AddrTable::new();
    table.insert(ip(1), 1);
    table.insert(IpAddr::V6(0x0a00_0001), 2);
    assert_eq!(table.get(ip(1)), Some(1));
    assert_eq!(table.get(IpAddr::V6(0x0a00_0001)), Some(2));
    table.remove(ip(1));
    assert_eq!(table.get(ip(1)), None);
    assert_eq!(table.get(IpAddr::V6(0x0a00_0001)), Some(2));
}

#[test]
fn links_have_a_direction() {
    let mut links = LinkSet::new();
    links.insert(1, 2);
    links.insert(3, 1);
    links.insert(3, 4);
    assert!(links.contains(1, 2));
    assert!(!links.contains(2, 1));
    links.remove_node(1);
    assert!(!links.contains(1, 2));
    assert!(!links.contains(3, 1));
    assert!(links.contains(3, 4));
    links.remove(3, 4);
    assert!(!links.contains(3, 4));
}

#[test]
fn tags_have_two_parts() {
    let tag = make_tag(0xdead_beef, 7);
    assert_eq!(tag, 0xdead_beef_0000_0007);
    assert_eq!(tag_connection(tag), 0xdead_beef);
    assert_eq!(tag_sequence(tag), 7);
}

#[test]
fn mailbox_gives_back_what_was_delivered() {
    let mut mailbox: Mailbox<u32> = Mailbox::new(0);
    mailbox.deliver(message(1, 10));
    mailbox.deliver(message(2, 20));
    mailbox.deliver(message(1, 11));
    assert_eq!(mailbox.recv_sync(3).map(|msg| msg.data.data), None);
    let first = mailbox.recv_sync(1).unwrap();
    assert_eq!((first.tag, first.data.data, first.from), (1, 10, addr(9, 9)));
    assert_eq!(mailbox.recv_sync(1).unwrap().data.data, 11);
    assert_eq!(mailbox.recv_sync(1).map(|msg| msg.data.data), None);
    match mailbox.recv(2) {
        Reception::Ready(msg) => assert_eq!(msg.data.data, 20),
        Reception::Waiting(_) => panic!("the message is there"),
    }
}

#[test]
fn waiting_receiver_gets_the_delivery() {
    let mut mailbox: Mailbox<u32> = Mailbox::new(0);
    let mut rx = match mailbox.recv(5) {
        Reception::Waiting(rx) => rx,
        Reception::Ready(_) => panic!("nothing is there"),
    };
    assert!(mailbox.deliver(message(6, 1)).is_empty());
    assert!(rx.try_recv().unwrap().is_none());
    mailbox.deliver(message(5, 2));
    assert_eq!(rx.try_recv().unwrap().unwrap().data.data, 2);
    assert!(!mailbox.recv_ready(None, 5));
    assert!(mailbox.recv_ready(None, 6));
}

#[test]
fn refused_message_goes_on() {
    let mut mailbox: Mailbox<u32> = Mailbox::new(0);
    // one that was taken is done with
    assert!(mailbox.settle(5, Ok(())).is_none());
    assert!(mailbox.recv_sync(5).is_none());
    // one that was refused is kept if nobody else asks for it
    assert!(mailbox.settle(5, Err(message(5, 1))).is_none());
    assert_eq!(mailbox.recv_sync(5).unwrap().data.data, 1);
    // and is offered to whoever does
    let waiting = mailbox.recv(5);
    assert_eq!(mailbox.settle(5, Err(message(5, 2))).unwrap().data.data, 2);
    assert!(mailbox.recv_sync(5).is_none());
    assert_eq!(mailbox.settle(6, Err(message(6, 3))).map(|msg| msg.data.data), None);
    assert_eq!(mailbox.recv_sync(6).unwrap().data.data, 3);
    drop(waiting);
}

#[test]
fn receiver_that_gave_up_is_passed_over() {
    let mut mailbox: Mailbox<u32> = Mailbox::new(0);
    let first = mailbox.recv(5);
    let mut second = match mailbox.recv(5) {
        Reception::Waiting(rx) => rx,
        Reception::Ready(_) => panic!("nothing is there"),
    };
    drop(first);
    mailbox.deliver(message(5, 1));
    assert_eq!(second.try_recv().unwrap().unwrap().data.data, 1);
    let third = mailbox.recv(5);
    drop(third);
    mailbox.deliver(message(5, 2));
    assert_eq!(mailbox.recv_sync(5).unwrap().data.data, 2);
}

#[test]
fn wakers_are_woken_by_tag_or_connection() {
    let mut mailbox: Mailbox<u32> = Mailbox::new(0);
    let (a, wake_a) = counter();
    let (b, wake_b) = counter();
    let (c, wake_c) = counter();
    assert!(!mailbox.recv_ready(Some(wake_a), make_tag(1, 0)));
    assert!(!mailbox.recv_ready(Some(wake_b), make_tag(1, 1)));
    assert!(!mailbox.recv_ready(Some(wake_c), make_tag(2, 0)));
    wake(mailbox.deliver(message(make_tag(1, 0), 0)));
    assert_eq!(
        [&a, &b, &c].map(|count| count.0.load(Ordering::SeqCst)),
        [1, 0, 0]
    );
    wake(mailbox.wake_tcp_connection(1));
    assert_eq!(
        [&a, &b, &c].map(|count| count.0.load(Ordering::SeqCst)),
        [1, 1, 0]
    );
    assert_eq!(mailbox.take_wakers(WakeKey::Connection(1)).len(), 0);
    assert_eq!(mailbox.take_wakers(WakeKey::Tag(make_tag(2, 0))).len(), 1);
    // a message that is there already needs no waker
    let (d, wake_d) = counter();
    assert!(mailbox.recv_ready(Some(wake_d), make_tag(1, 0)));
    wake(mailbox.deliver(message(make_tag(1, 0), 0)));
    assert_eq!(d.0.load(Ordering::SeqCst), 0);
}

#[test]
fn connections_are_accepted_in_order() {
    let mut world: World<u32> = World::new();
    let listening = world.net.bind(NodeId(1), addr(1, 80)).unwrap();
    assert_eq!(world.net.accept_connect(NodeId(1), listening), None);
    assert!(world.net.signal_connect(NodeId(2), addr(2, 1), listening));
    assert!(world.net.signal_connect(NodeId(2), addr(2, 2), listening));
    assert!(!world.net.signal_connect(NodeId(2), addr(2, 2), addr(1, 81)));
    assert!(!world.net.signal_connect(NodeId(2), addr(2, 2), addr(3, 80)));
    assert_eq!(world.net.accept_connect(NodeId(1), listening), Some(addr(2, 1)));
    assert_eq!(world.net.accept_connect(NodeId(1), listening), Some(addr(2, 2)));
    assert_eq!(world.net.accept_connect(NodeId(1), listening), None);
}

#[test]
fn binding() {
    let mut world: World<u32> = World::new();
    let net = &mut world.net;
    assert_eq!(net.bind(NodeId(1), addr(1, 80)), Ok(addr(1, 80)));
    assert_eq!(net.bind(NodeId(1), addr(1, 80)), Err(NetError::AddressInUse(addr(1, 80))));
    // ports belong to the node, whatever the address
    assert_eq!(net.bind(NodeId(1), any(80)), Err(NetError::AddressInUse(addr(1, 80))));
    assert_eq!(net.bind(NodeId(1), loopback(80)), Err(NetError::AddressInUse(loopback(80))));
    assert_eq!(net.bind(NodeId(2), any(80)), Ok(addr(2, 80)));
    assert_eq!(net.bind(NodeId(1), addr(2, 81)), Err(NetError::InvalidAddress(addr(2, 81))));
    assert_eq!(net.bind(NodeId(1), loopback(81)), Ok(loopback(81)));
    net.close(NodeId(1), addr(1, 80));
    assert_eq!(net.bind(NodeId(1), addr(1, 80)), Ok(addr(1, 80)));
    net.reset_node(NodeId(1));
    assert_eq!(net.bind(NodeId(1), addr(1, 80)), Ok(addr(1, 80)));
    // closing on a node that is gone does nothing
    net.close(NodeId(7), addr(7, 80));
}

#[test]
fn ephemeral_ports_are_not_reused() {
    let mut world: World<u32> = World::new();
    let net = &mut world.net;
    assert_eq!(net.bind(NodeId(1), addr(1, 0x8001)), Ok(addr(1, 0x8001)));
    assert_eq!(net.bind(NodeId(1), any(0)), Ok(addr(1, 0x8000)));
    assert_eq!(net.bind(NodeId(1), any(0)), Ok(addr(1, 0x8002)));
    net.close(NodeId(1), addr(1, 0x8000));
    assert_eq!(net.bind(NodeId(1), addr(1, 0)), Ok(addr(1, 0x8003)));
    for port in 0x8004..=0xffff {
        assert_eq!(net.bind(NodeId(1), any(0)), Ok(addr(1, port)));
    }
    // the search starts over at port zero, which is free
    assert_eq!(net.bind(NodeId(1), any(0)), Ok(addr(1, 0)));
}

#[test]
fn no_ephemeral_port_left() {
    let mut world: World<u32> = World::new();
    let net = &mut world.net;
    for port in 0x8000..=0xffff {
        assert_eq!(net.bind(NodeId(1), addr(1, port)), Ok(addr(1, port)));
    }
    assert_eq!(net.bind(NodeId(1), any(0)), Err(NetError::NoEphemeralPort));
    assert_eq!(NetError::NoEphemeralPort.kind(), ErrorKind::AddrInUse);
}

#[test]
fn kinds_of_errors() {
    let a = addr(1, 1);
    assert_eq!(NetError::InvalidAddress(a).kind(), ErrorKind::AddrNotAvailable);
    assert_eq!(NetError::AddressInUse(a).kind(), ErrorKind::AddrInUse);
    assert_eq!(NetError::HostUnreachable(a).kind(), ErrorKind::ConnectionRefused);
    assert_eq!(NetError::PeerHungUp(a).kind(), ErrorKind::ConnectionReset);
    assert_eq!(NetError::ConnectionRefused(a).kind(), ErrorKind::ConnectionRefused);
    assert_eq!(NetError::NoAddress.kind(), ErrorKind::InvalidInput);
    assert_eq!(NetError::NoDestination.kind(), ErrorKind::InvalidInput);
    assert_eq!(NetError::NotConnected.kind(), ErrorKind::NotConnected);
}

#[test]
fn packets_arrive_after_their_latency() {
    let mut world: World<u32> = World::new();
    world.net.bind(NodeId(1), addr(1, 1)).unwrap();
    world.net.bind(NodeId(2), addr(2, 1)).unwrap();
    let start = world.time.handle.elapsed();
    assert_eq!(world.send(1, addr(1, 1), addr(2, 1), 5, Payload::new_udp(42)), Ok(()));
    assert_eq!(world.net.stat().msg_count, 1);
    assert!(world.net.recv_sync(NodeId(2), addr(2, 1), 5).is_none());
    world.settle();
    let took = world.time.handle.elapsed().minus(start);
    assert!(took >= Duration::from_millis(1));
    assert!(took < Duration::from_millis(11));
    let msg = world.net.recv_sync(NodeId(2), addr(2, 1), 5).unwrap();
    assert_eq!((msg.data.data, msg.from), (42, addr(1, 1)));

    let start = world.time.handle.elapsed();
    assert_eq!(world.send(1, addr(1, 1), loopback(1), 6, Payload::new_udp(43)), Ok(()));
    world.settle();
    assert!(world.time.handle.elapsed().minus(start) < Duration::from_micros(11));
    assert_eq!(world.net.recv_sync(NodeId(1), addr(1, 1), 6).unwrap().data.data, 43);
}

#[test]
fn refused_packets() {
    let mut world: World<u32> = World::new();
    world.net.bind(NodeId(2), addr(2, 1)).unwrap();
    assert_eq!(
        world.send(1, addr(1, 1), addr(3, 1), 0, Payload::new_udp(0)),
        Err(NetError::HostUnreachable(addr(3, 1)))
    );
    assert_eq!(
        world.send(1, addr(1, 1), addr(2, 2), 0, Payload::new_udp(0)),
        Err(NetError::ConnectionRefused(addr(2, 2)))
    );
    // data of a connection that has ended
    assert_eq!(
        world.send(1, addr(1, 1), addr(2, 1), make_tag(4, 0), Payload::new_tcp_data(0)),
        Err(NetError::PeerHungUp(addr(2, 1)))
    );
    world.net.register_tcp_id(NodeId(2), 4);
    assert!(world.net.is_tcp_session_live(NodeId(1), addr(2, 1), 4));
    assert_eq!(
        world.send(1, addr(1, 1), addr(2, 1), make_tag(4, 0), Payload::new_tcp_data(0)),
        Ok(())
    );
    world.net.deregister_tcp_id(NodeId(2), NodeId(2), addr(1, 1), 4);
    assert!(!world.net.is_tcp_session_live(NodeId(1), addr(2, 1), 4));
    assert!(!world.net.is_tcp_session_live(NodeId(1), addr(3, 1), 4));
    world.net.delete_node(NodeId(2));
    assert_eq!(
        world.send(1, addr(1, 1), addr(2, 1), 0, Payload::new_udp(0)),
        Err(NetError::HostUnreachable(addr(2, 1)))
    );
}

#[test]
fn packet_without_a_way_needs_no_configuration() {
    let mut world: World<u32> = World::new();
    world.net.config.packet_loss.default_packet_loss_rate.denominator = 0;
    let (sent, payload) = (addr(9, 1), Payload::new_udp(0));
    assert!(world.send(1, addr(1, 1), sent, 0, payload).is_err());
    assert_eq!(world.net.stat().msg_count, 0);
}

#[test]
fn pollers_are_woken_before_the_message_is_there() {
    let mut world: World<u32> = World::new();
    let ep = Endpoint::bind_any(&mut world.net, NodeId(2), &vec![addr(2, 5)]).unwrap();
    let (count, waker) = counter();
    let mut fd = AsyncFd::new(());
    assert_eq!(fd.poll_read_ready(&mut world.net, ep, 5, waker.clone()), Poll::Pending);
    world.send(1, addr(1, 1), addr(2, 5), 5, Payload::new_udp(1)).unwrap();
    for event in world.time.advance_to_next_event().unwrap() {
        let fired = world.net.fire(event);
        assert_eq!(fired.woken.len(), 1);
        wake(fired.woken);
        assert_eq!(count.0.load(Ordering::SeqCst), 1);
        let (other, second) = counter();
        assert_eq!(fd.poll_read_ready(&mut world.net, ep, 5, second), Poll::Pending);
        // whoever asks in between is woken too
        wake(world.net.deliver(fired.arriving.unwrap()));
        assert_eq!(other.0.load(Ordering::SeqCst), 1);
    }
    assert_eq!(fd.poll_read_ready(&mut world.net, ep, 5, waker), Poll::Ready(()));
    assert_eq!(count.0.load(Ordering::SeqCst), 1);
    assert_eq!(fd.take_inner(), Some(()));
}

#[test]
fn clogging() {
    let mut world: World<u32> = World::new();
    world.net.bind(NodeId(1), addr(1, 1)).unwrap();
    world.net.bind(NodeId(2), addr(2, 1)).unwrap();
    let there = |world: &mut World<u32>| world.send(1, addr(1, 1), addr(2, 1), 0, Payload::new_udp(0));
    let back = |world: &mut World<u32>| world.send(2, addr(2, 1), addr(1, 1), 0, Payload::new_udp(0));
    world.net.clog_link(NodeId(1), NodeId(2));
    assert_eq!(there(&mut world), Err(NetError::HostUnreachable(addr(2, 1))));
    assert_eq!(back(&mut world), Ok(()));
    world.net.unclog_link(NodeId(1), NodeId(2));
    assert_eq!(there(&mut world), Ok(()));
    world.net.clog_node(NodeId(2));
    assert_eq!(there(&mut world), Err(NetError::HostUnreachable(addr(2, 1))));
    assert_eq!(back(&mut world), Err(NetError::HostUnreachable(addr(1, 1))));
    world.net.unclog_node(NodeId(2));
    assert_eq!(back(&mut world), Ok(()));
    assert_eq!(world.net.stat().msg_count, 3);
}

#[test]
fn loss_drops_udp_and_resets_tcp() {
    let mut world: World<u32> = World::new();
    world.net.bind(NodeId(2), addr(2, 1)).unwrap();
    world.net.register_tcp_id(NodeId(2), 1);
    assert_eq!(world.net.verdict(2, addr(2, 1), 0, PayloadType::Udp, true), Verdict::Dropped);
    assert_eq!(
        world.net.verdict(2, addr(2, 1), 0, PayloadType::TcpSignalConnect, true),
        Verdict::Failed(NetError::PeerHungUp(addr(2, 1)))
    );
    assert_eq!(
        world.net.verdict(2, addr(2, 1), make_tag(1, 0), PayloadType::TcpData, true),
        Verdict::Failed(NetError::PeerHungUp(addr(2, 1)))
    );
    let mut config = NetworkConfig::default();
    config.packet_loss.default_packet_loss_rate.numerator = 1;
    config.tcp_packet_loss.default_packet_loss_rate.numerator = 1;
    world.net.update_config(config);
    assert_eq!(world.send(1, addr(1, 1), addr(2, 1), 0, Payload::new_udp(0)), Ok(()));
    assert_eq!(world.net.stat().msg_count, 0);
    assert_eq!(
        world.send(1, addr(1, 1), addr(2, 1), 0, Payload::new_tcp_connect(0)),
        Err(NetError::PeerHungUp(addr(2, 1)))
    );
}

#[test]
fn packet_does_not_reach_a_later_socket() {
    let mut world: World<u32> = World::new();
    world.net.bind(NodeId(2), addr(2, 1)).unwrap();
    assert_eq!(world.send(1, addr(1, 1), addr(2, 1), 5, Payload::new_udp(1)), Ok(()));
    world.net.close(NodeId(2), addr(2, 1));
    world.net.bind(NodeId(2), addr(2, 1)).unwrap();
    assert_eq!(world.send(1, addr(1, 1), addr(2, 1), 6, Payload::new_udp(2)), Ok(()));
    world.settle();
    assert!(world.net.recv_sync(NodeId(2), addr(2, 1), 5).is_none());
    assert_eq!(world.net.recv_sync(NodeId(2), addr(2, 1), 6).unwrap().data.data, 2);
}

#[test]
fn addresses_can_change() {
    let mut world: World<u32> = World::new();
    let net = &mut world.net;
    assert_eq!(net.get_ip(NodeId(1)), Some(ip(1)));
    net.set_ip(NodeId(1), ip(5));
    assert_eq!(net.get_ip(NodeId(1)), Some(ip(5)));
    assert_eq!(net.get_node_for_addr(NodeId(2), ip(5)), Some(1));
    assert_eq!(net.get_node_for_addr(NodeId(2), ip(1)), None);
    assert_eq!(net.get_node_for_addr(NodeId(2), IpAddr::v4(127, 0, 0, 1)), Some(2));
    net.insert_node(NodeId(3));
    assert_eq!(net.get_ip(NodeId(3)), None);
    net.set_ip(NodeId(3), ip(1));
    assert_eq!(net.get_node_for_addr(NodeId(2), ip(1)), Some(3));
}

#[test]
fn first_free_address_is_bound() {
    let mut world: World<u32> = World::new();
    let net = &mut world.net;
    let addrs = vec![addr(9, 1), addr(1, 1), addr(1, 2)];
    let ep = Endpoint::bind_any(net, NodeId(1), &addrs).unwrap();
    assert_eq!(ep.local_addr(), addr(1, 1));
    assert_eq!(ep.peer_addr(), Err(NetError::NotConnected));
    let ep = Endpoint::bind_any(net, NodeId(1), &addrs).unwrap();
    assert_eq!(ep.local_addr(), addr(1, 2));
    let end = Endpoint::bind_any(net, NodeId(1), &addrs);
    assert_eq!(end, Err(NetError::AddressInUse(addr(1, 2))));
    assert_eq!(Endpoint::bind_any(net, NodeId(1), &vec![]), Err(NetError::NoAddress));

    let mut socket = TcpSocket::new_v4();
    assert_eq!(socket.local_addr(), Err(NetError::NotConnected));
    assert_eq!(
        socket.bind(net, NodeId(1), addr(1, 2)),
        Err(NetError::AddressInUse(addr(1, 2)))
    );
    assert_eq!(socket.bind(net, NodeId(1), addr(1, 3)), Ok(()));
    assert_eq!(socket.local_addr(), Ok(addr(1, 3)));

    let ep = Endpoint::connect(net, NodeId(1), addr(2, 1)).unwrap();
    assert_eq!(ep.local_addr(), addr(1, 0x8000));
    assert_eq!(ep.peer_addr(), Ok(addr(2, 1)));

    let mut udp = UdpSocket::new(ep);
    assert_eq!(udp.local_addr(), addr(1, 0x8000));
    assert_eq!(udp.peer_addr(), Ok(addr(2, 1)));
    assert_eq!(udp.connect(&vec![]), Err(NetError::NoAddress));
    assert_eq!(udp.default_dest, None);
    assert_eq!(udp.connect(&vec![addr(2, 5), addr(2, 6)]), Ok(()));
    assert_eq!(udp.default_dest, Some(addr(2, 5)));
    assert_eq!(udp.send_to(&vec![]), Err(NetError::NoDestination));
    assert_eq!(udp.send_to(&vec![addr(2, 7), addr(2, 8)]), Ok(addr(2, 7)));
}

#[test]
fn buffer_keeps_every_byte() {
    let mut buffer = Buffer::new();
    assert_eq!(buffer.remaining_bytes(), 0);
    buffer.write(Buffer::new_from_vec(vec![1, 2, 3]));
    let mut read = ReadBuf::new(2);
    assert_eq!(buffer.read(true, &mut read), 2);
    assert_eq!(read.filled, vec![1, 2]);
    assert_eq!(read.remaining(), 0);
    assert_eq!(buffer.read(false, &mut read), 0);
    let mut read = ReadBuf::new(2);
    assert_eq!(buffer.read(false, &mut read), 2);
    assert_eq!(buffer.remaining(), &[3]);
    buffer.write(Buffer::new_from_vec(vec![4]));
    let mut read = ReadBuf::new(5);
    assert_eq!(buffer.read(false, &mut read), 2);
    assert_eq!(read.filled, vec![3, 4]);
    assert_eq!(read.remaining(), 3);
    assert_eq!(buffer.remaining_bytes(), 0);
}

type Tcp = World<Carried<()>>;

/// A connection from node 2 to a listener at node 1.
fn connection(world: &mut Tcp) -> (TcpStream, TcpStream) {
    let mut ids = TcpIds { next: 1 };
    let listener = Endpoint::bind_any(&mut world.net, NodeId(1), &vec![addr(1, 80)]).unwrap();
    let client = Endpoint::connect(&mut world.net, NodeId(2), addr(1, 80)).unwrap();
    let client_id = ids.allocate_local_tcp_id(&mut world.net, NodeId(2));
    assert_eq!(client_id, 1);
    let (state, tag) = connect_begin(
        &mut world.rng,
        &mut world.net,
        &mut world.time.handle,
        NodeId(2),
        client,
        client_id,
    )
    .unwrap();
    assert_eq!(tag, make_tag(1, 0));
    world.settle();
    let opening = world.net.recv_sync(NodeId(1), addr(1, 80), OPENING_TAG).unwrap();
    let server_id = ids.allocate_local_tcp_id(&mut world.net, NodeId(1));
    assert_eq!(server_id, 2);
    let server = accept_connection(
        &mut world.rng,
        &mut world.net,
        &mut world.time.handle,
        NodeId(1),
        listener,
        opening,
        server_id,
    )
    .unwrap();
    world.settle();
    let answer = world.net.recv_sync(NodeId(2), client.addr, tag).unwrap();
    let client = connect_finish(state, answer);
    (server, client)
}

fn write(world: &mut Tcp, stream: &mut TcpStream, bytes: &[u8]) -> Poll<Result<usize, NetError>> {
    stream.poll_write_priv(
        &mut world.rng,
        &mut world.net,
        &mut world.time.handle,
        bytes.to_vec(),
    )
}

fn read(world: &mut Tcp, stream: &mut TcpStream, peek: bool, room: usize) -> (Poll<Result<usize, NetError>>, Vec<u8>) {
    let mut buf = ReadBuf::new(room);
    let node = stream.state.ep.node;
    let poll = if peek {
        stream.poll_peek(&mut world.net, node, None, &mut buf)
    } else {
        stream.poll_read_priv(&mut world.net, node, false, None, &mut buf)
    };
    (poll, buf.filled)
}

#[test]
fn tcp_gives_back_what_was_written() {
    let mut world: Tcp = World::new();
    let (mut server, mut client) = connection(&mut world);
    assert_eq!(client.peer_addr(), Ok(addr(1, 80)));
    assert_eq!(server.local_addr(), addr(1, 80));
    assert_eq!(read(&mut world, &mut server, false, 9), (Poll::Pending, vec![]));
    assert_eq!(write(&mut world, &mut client, &[1, 2, 3]), Poll::Ready(Ok(3)));
    assert_eq!(write(&mut world, &mut client, &[4]), Poll::Ready(Ok(1)));
    assert_eq!(write(&mut world, &mut server, &[9]), Poll::Ready(Ok(1)));
    world.settle();
    assert_eq!(read(&mut world, &mut server, true, 2), (Poll::Ready(Ok(2)), vec![1, 2]));
    assert_eq!(read(&mut world, &mut server, true, 9), (Poll::Ready(Ok(3)), vec![1, 2, 3]));
    assert_eq!(read(&mut world, &mut server, false, 1), (Poll::Ready(Ok(1)), vec![1]));
    assert_eq!(read(&mut world, &mut server, false, 9), (Poll::Ready(Ok(2)), vec![2, 3]));
    assert_eq!(read(&mut world, &mut server, false, 9), (Poll::Ready(Ok(1)), vec![4]));
    assert_eq!(read(&mut world, &mut server, false, 9), (Poll::Pending, vec![]));
    assert_eq!(read(&mut world, &mut client, false, 9), (Poll::Ready(Ok(1)), vec![9]));
}

#[test]
fn tcp_hang_up_is_noticed() {
    let mut world: Tcp = World::new();
    let (mut server, mut client) = connection(&mut world);
    let (count, waker) = counter();
    let mut buf = ReadBuf::new(1);
    let poll = server.poll_read_priv(&mut world.net, NodeId(1), false, Some(waker), &mut buf);
    assert_eq!(poll, Poll::Pending);
    assert_eq!(write(&mut world, &mut server, &[1, 2]), Poll::Ready(Ok(2)));
    world.settle();
    assert_eq!(read(&mut world, &mut client, false, 1), (Poll::Ready(Ok(1)), vec![1]));
    assert_eq!(count.0.load(Ordering::SeqCst), 0);
    let peer = client.local_addr();
    wake(client.close(&mut world.net, NodeId(2)));
    assert_eq!(count.0.load(Ordering::SeqCst), 1);
    let reset = Poll::Ready(Err(NetError::PeerHungUp(peer)));
    assert_eq!(read(&mut world, &mut server, false, 1), (reset, vec![]));
    let reset = Poll::Ready(Err(NetError::PeerHungUp(peer)));
    assert_eq!(write(&mut world, &mut server, &[1]), reset);
}

#[test]
fn tcp_peek_consumes_nothing() {
    let mut world: Tcp = World::new();
    let (mut server, mut client) = connection(&mut world);
    assert_eq!(write(&mut world, &mut server, &[1, 2, 3]), Poll::Ready(Ok(3)));
    world.settle();
    assert_eq!(read(&mut world, &mut client, true, 2), (Poll::Ready(Ok(2)), vec![1, 2]));
    // what was seen can be read, even when the socket and the other end are gone meanwhile
    server.close(&mut world.net, NodeId(1));
    world.net.close(NodeId(2), client.local_addr());
    assert_eq!(read(&mut world, &mut client, true, 9), (Poll::Ready(Ok(3)), vec![1, 2, 3]));
    assert_eq!(read(&mut world, &mut client, false, 2), (Poll::Ready(Ok(2)), vec![1, 2]));
    assert_eq!(read(&mut world, &mut client, false, 2), (Poll::Ready(Ok(1)), vec![3]));
    let reset = Poll::Ready(Err(NetError::PeerHungUp(addr(1, 80))));
    assert_eq!(read(&mut world, &mut client, false, 2), (reset, vec![]));
}

#[test]
fn tcp_peek_without_room_waits_for_nothing() {
    let mut world: Tcp = World::new();
    let (mut server, mut client) = connection(&mut world);
    let (count, waker) = counter();
    let mut none = ReadBuf::new(0);
    let peek = |world: &mut Tcp, client: &mut TcpStream, room: &mut ReadBuf| {
        client.peek(&mut world.net, NodeId(2), Some(waker.clone()), room)
    };
    assert_eq!(peek(&mut world, &mut client, &mut none), Poll::Ready(Ok(0)));
    assert_eq!(write(&mut world, &mut server, &[1, 2]), Poll::Ready(Ok(2)));
    world.settle();
    assert_eq!(count.0.load(Ordering::SeqCst), 0);
    assert_eq!(peek(&mut world, &mut client, &mut none), Poll::Ready(Ok(0)));
    let mut one = ReadBuf::new(1);
    assert_eq!(peek(&mut world, &mut client, &mut one), Poll::Ready(Ok(1)));
    assert_eq!(one.filled, vec![1]);
    assert_eq!(read(&mut world, &mut client, false, 9), (Poll::Ready(Ok(2)), vec![1, 2]));
    server.close(&mut world.net, NodeId(1));
    assert_eq!(peek(&mut world, &mut client, &mut none), Poll::Ready(Ok(0)));
}

#[test]
fn fresh_node_is_found_under_the_address_of_the_one_before() {
    let mut world: World<u32> = World::new();
    world.net.bind(NodeId(2), addr(2, 1)).unwrap();
    world.net.insert_node(NodeId(2));
    assert_eq!(
        world.send(1, addr(1, 1), addr(2, 1), 0, Payload::new_udp(0)),
        Err(NetError::ConnectionRefused(addr(2, 1)))
    );
}

#[test]
fn tcp_buffered_bytes_outlive_the_connection() {
    let mut world: Tcp = World::new();
    let (server, mut client) = connection(&mut world);
    let mut server = server;
    assert_eq!(write(&mut world, &mut server, &[1, 2]), Poll::Ready(Ok(2)));
    world.settle();
    assert_eq!(read(&mut world, &mut client, false, 1), (Poll::Ready(Ok(1)), vec![1]));
    server.close(&mut world.net, NodeId(1));
    assert_eq!(read(&mut world, &mut client, false, 1), (Poll::Ready(Ok(1)), vec![2]));
    let reset = Poll::Ready(Err(NetError::PeerHungUp(addr(1, 80))));
    assert_eq!(read(&mut world, &mut client, false, 1), (reset, vec![]));
}

#[test]
fn tcp_nodelay_is_only_remembered() {
    let mut world: Tcp = World::new();
    let (mut server, _client) = connection(&mut world);
    assert!(!server.nodelay());
    server.set_nodelay(true);
    assert!(server.nodelay());
}

#[test]
fn tcp_refused_connection_is_given_up() {
    let mut world: Tcp = World::new();
    let mut ids = TcpIds { next: 1 };
    let ep = Endpoint::connect(&mut world.net, NodeId(2), addr(1, 80)).unwrap();
    let id = ids.allocate_local_tcp_id(&mut world.net, NodeId(2));
    let end = connect_begin(
        &mut world.rng,
        &mut world.net,
        &mut world.time.handle,
        NodeId(2),
        ep,
        id,
    );
    assert!(matches!(end, Err(GivenUp { err: NetError::ConnectionRefused(at), .. }) if at == addr(1, 80)));
    assert!(!world.net.is_tcp_session_live(NodeId(1), addr(2, 1), id));
}

#[test]
fn tcp_accept_fails_if_the_client_is_gone() {
    let mut world: Tcp = World::new();
    let mut ids = TcpIds { next: 1 };
    let listener = Endpoint::bind_any(&mut world.net, NodeId(1), &vec![addr(1, 80)]).unwrap();
    let id = ids.allocate_local_tcp_id(&mut world.net, NodeId(1));
    let opening = Message { tag: OPENING_TAG, data: TcpMessage::tcp_id(7), from: addr(2, 5) };
    let end = accept_connection(
        &mut world.rng,
        &mut world.net,
        &mut world.time.handle,
        NodeId(1),
        listener,
        opening,
        id,
    );
    assert!(matches!(end, Err(GivenUp { err: NetError::PeerHungUp(at), .. }) if at == addr(2, 5)));
    assert!(!world.net.is_tcp_session_live(NodeId(2), addr(1, 80), id));
}

#[test]
fn payload_kinds() {
    let udp = Payload::new_udp(1);
    let connect = Payload::new_tcp_connect(1);
    let data = Payload::new_tcp_data(1);
    assert!(udp.is_udp() && !udp.is_tcp_connect() && !udp.is_tcp_data());
    assert!(!connect.is_udp() && connect.is_tcp_connect() && !connect.is_tcp_data());
    assert!(!data.is_udp() && !data.is_tcp_connect() && data.is_tcp_data());
}
