//! What holds of packets: whether they are lost, how long they take and where they go.

use crate::net::config::{
    InterNodeLatency, InterNodeLatencyMap, LatencyConfig, LatencyDistribution, LossRate,
    NodeLatencyMap, NodePacketLoss, NodePacketLossMap, PacketLossConfig,
};
use crate::net::error::NetError;
use crate::net::laws::law_sent_packet_is_scheduled;
use crate::net::mailbox::{connection_of, Message, PayloadType};
use crate::net::network::{Delivery, Network, NetworkView, SimEvent, Verdict};
use crate::net::traffic::{sent, Packet};
use crate::random::{law_draws_stay_where_they_were_asked_for, GlobalRng};
use crate::task::NodeId;
use crate::time::duration::Duration;
use crate::time::timer::Event;
use crate::time::TimeHandle;
use std::ops::Range;
use vstd::prelude::*;

verus! {

/// Every packet from `a` to `b` is lost, as far as `config` goes.
pub open spec fn all_are_lost(config: PacketLossConfig, a: NodeId, b: NodeId) -> bool {
    forall|rate: LossRate| #[trigger]
        config.may_rate(a, b, rate) ==> rate.numerator == rate.denominator
}

/// No packet from `a` to `b` is lost, as far as `config` goes.
pub open spec fn none_is_lost(config: PacketLossConfig, a: NodeId, b: NodeId) -> bool {
    forall|rate: LossRate| #[trigger] config.may_rate(a, b, rate) ==> rate.numerator == 0
}

/// Rates that are the same for all pairs of nodes hold for every packet: at one all are lost, at
/// zero none is.
pub proof fn law_uniform_rates_hold_for_every_packet(config: PacketLossConfig, a: NodeId, b: NodeId)
    requires
        config.node_packet_loss_rate is None,
    ensures
        config.default_packet_loss_rate.numerator == config.default_packet_loss_rate.denominator
            && config.loopback_packet_loss_rate.numerator
            == config.loopback_packet_loss_rate.denominator ==> all_are_lost(config, a, b),
        config.default_packet_loss_rate.numerator == 0
            && config.loopback_packet_loss_rate.numerator == 0 ==> none_is_lost(config, a, b),
{
}

/// The rate of a packet is that of the loopback interface where it stays on its node, and there
/// alone. Between two nodes it is the one that is configured for them, and the default where there
/// is none.
pub proof fn law_rate_is_that_of_the_link(
    config: PacketLossConfig,
    a: NodeId,
    b: NodeId,
    rate: LossRate,
)
    requires
        config.may_rate(a, b, rate),
    ensures
        a == b ==> rate == config.loopback_packet_loss_rate,
        a != b && config.node_packet_loss_rate is None ==> rate == config.default_packet_loss_rate,
        a != b ==> (config.node_packet_loss_rate matches Some(loss) ==> {
            &&& (forall|given: Option<LossRate>| #[trigger]
                loss.may_rate(a, b, given) ==> given is None) ==> rate
                == config.default_packet_loss_rate
            &&& (forall|given: Option<LossRate>| #[trigger]
                loss.may_rate(a, b, given) ==> given is Some) ==> loss.may_rate(a, b, Some(rate))
        }),
{
}

/// The rate of a link is the higher of those of its two ends, as far as they have one, and that of
/// the one end if the other has none; without either there is none.
pub proof fn law_higher_rate_of_the_two_ends(
    map: NodePacketLossMap,
    a: NodeId,
    b: NodeId,
    rate: Option<LossRate>,
)
    requires
        map.may_rate(a, b, rate),
    ensures
        rate is Some <==> map.0@.contains_key(a.0) || map.0@.contains_key(b.0),
        rate matches Some(r) ==> {
            &&& map.0@.contains_key(a.0) ==> r.numerator * map.0@[a.0].denominator
                >= map.0@[a.0].numerator * r.denominator
            &&& map.0@.contains_key(b.0) ==> r.numerator * map.0@[b.0].denominator
                >= map.0@[b.0].numerator * r.denominator
            &&& (map.0@.contains_key(a.0) && r == map.0@[a.0]) || (map.0@.contains_key(b.0) && r
                == map.0@[b.0])
        },
        map.may_rate(b, a, rate),
{
    if let Some(r) = rate {
        assert(r.numerator * r.denominator >= r.numerator * r.denominator);
    }
}

/// What the draw of a loss comes to is what the rates allow, and the generator is asked at a rate
/// that is configured.
pub proof fn law_drawn_loss_is_one_that_may_be<D>(
    net: Network<D>,
    rng: GlobalRng,
    src: NodeId,
    dst: u64,
    lost: bool,
    after: GlobalRng,
)
    requires
        net.config.packet_loss.node_packet_loss_rate is None,
        net.config.tcp_packet_loss.node_packet_loss_rate is None,
    ensures
        net.has_drawn_loss(rng, src, dst, PayloadType::Udp, lost, after) ==> {
            &&& all_are_lost(net.config.packet_loss, src, NodeId(dst)) ==> lost
            &&& none_is_lost(net.config.packet_loss, src, NodeId(dst)) ==> !lost
        },
        net.has_drawn_loss(rng, src, dst, PayloadType::TcpSignalConnect, lost, after)
            || net.has_drawn_loss(rng, src, dst, PayloadType::TcpData, lost, after) ==> {
            &&& all_are_lost(net.config.tcp_packet_loss, src, NodeId(dst)) ==> lost
            &&& none_is_lost(net.config.tcp_packet_loss, src, NodeId(dst)) ==> !lost
        },
{
    assert forall|ty: PayloadType| #[trigger]
        net.has_drawn_loss(rng, src, dst, ty, lost, after) implies ({
        let config = if ty == PayloadType::Udp {
            net.config.packet_loss
        } else {
            net.config.tcp_packet_loss
        };
        &&& all_are_lost(config, src, NodeId(dst)) ==> lost
        &&& none_is_lost(config, src, NodeId(dst)) ==> !lost
    }) by {
        let config = if ty == PayloadType::Udp {
            net.config.packet_loss
        } else {
            net.config.tcp_packet_loss
        };
        let (rate, rated) = choose|rate: LossRate, rated: GlobalRng|
            config.has_rated(rng, src, NodeId(dst), rate, rated) && #[trigger] rated.gave_at_ratio(
                rate.numerator,
                rate.denominator,
                lost,
                after,
            );
        assert(config.may_rate(src, NodeId(dst), rate));
        let none = Duration { nanos: 0 };
        let items: Vec<(u32, bool)> = arbitrary();
        law_draws_stay_where_they_were_asked_for::<bool>(
            rated,
            (0, 0, 0),
            (none, none, none),
            (rate.numerator, rate.denominator, lost),
            &items,
            &(0, true),
            (Seq::empty(), Seq::empty()),
            after,
        );
    }
}

/// Udp and tcp are configured apart. Whether a udp packet is lost rests on the rates for udp alone,
/// and whether a tcp packet is, be it one that opens a connection or one that carries data, on those
/// for tcp alone: at a rate of one it is, at a rate of zero it is not, whatever the other rates.
pub proof fn law_udp_and_tcp_are_lost_apart<D>(
    net: Network<D>,
    src: NodeId,
    dst: u64,
    ty: PayloadType,
    lost: bool,
)
    requires
        net.may_lose(src, dst, ty, lost),
    ensures
        ty == PayloadType::Udp && all_are_lost(net.config.packet_loss, src, NodeId(dst)) ==> lost,
        ty == PayloadType::Udp && none_is_lost(net.config.packet_loss, src, NodeId(dst)) ==> !lost,
        ty != PayloadType::Udp && all_are_lost(net.config.tcp_packet_loss, src, NodeId(dst))
            ==> lost,
        ty != PayloadType::Udp && none_is_lost(net.config.tcp_packet_loss, src, NodeId(dst))
            ==> !lost,
{
}

/// Networks whose rates for udp agree lose udp packets alike, whatever their rates for tcp, and the
/// other way round; what is drawn for it is the same too.
pub proof fn law_loss_rests_on_its_own_rates<D>(
    one: Network<D>,
    two: Network<D>,
    rng: GlobalRng,
    src: NodeId,
    dst: u64,
    lost: bool,
    after: GlobalRng,
)
    ensures
        one.config.packet_loss == two.config.packet_loss ==> {
            let udp = PayloadType::Udp;
            &&& one.may_lose(src, dst, udp, lost) == two.may_lose(src, dst, udp, lost)
            &&& one.has_drawn_loss(rng, src, dst, udp, lost, after) == two.has_drawn_loss(
                rng,
                src,
                dst,
                udp,
                lost,
                after,
            )
        },
        one.config.tcp_packet_loss == two.config.tcp_packet_loss ==> {
            let (open, data) = (PayloadType::TcpSignalConnect, PayloadType::TcpData);
            &&& one.may_lose(src, dst, open, lost) == two.may_lose(src, dst, open, lost)
            &&& one.may_lose(src, dst, data, lost) == two.may_lose(src, dst, data, lost)
            &&& one.may_lose(src, dst, open, lost) == two.may_lose(src, dst, data, lost)
            &&& one.has_drawn_loss(rng, src, dst, open, lost, after) == two.has_drawn_loss(
                rng,
                src,
                dst,
                data,
                lost,
                after,
            )
        },
{
}

/// A packet that is lost goes nowhere: nothing is scheduled or counted, and nothing of the network
/// changes. The sender of a udp packet does not notice; that of a tcp packet is told that the other
/// end has hung up.
pub proof fn law_lost_packet_goes_nowhere<D>(
    net: NetworkView<D>,
    time: TimeHandle<SimEvent<D>>,
    packet: Packet<D>,
    latency: Duration,
    r: Result<(), NetError>,
    net_after: NetworkView<D>,
    time_after: TimeHandle<SimEvent<D>>,
)
    requires
        sent(net, time, packet, true, latency, r, net_after, time_after),
        net.route(packet.node, packet.dst) is Ok,
    ensures
        net_after == net,
        time_after == time,
        packet.data.ty == PayloadType::Udp ==> r == Ok::<(), NetError>(()),
        packet.data.ty != PayloadType::Udp ==> r == Err::<(), NetError>(
            NetError::PeerHungUp(packet.dst),
        ),
{
}

/// A packet that has no way is refused: its destination is unreachable, and nothing changes.
pub proof fn law_packet_without_a_way_is_refused<D>(
    net: NetworkView<D>,
    time: TimeHandle<SimEvent<D>>,
    packet: Packet<D>,
    lost: bool,
    latency: Duration,
    r: Result<(), NetError>,
    net_after: NetworkView<D>,
    time_after: TimeHandle<SimEvent<D>>,
)
    requires
        sent(net, time, packet, lost, latency, r, net_after, time_after),
        net.route(packet.node, packet.dst) is Err,
    ensures
        r == Err::<(), NetError>(NetError::HostUnreachable(packet.dst)),
        net_after == net,
        time_after == time,
{
}

/// A packet that is not lost fails if and only if it is data of a connection that has ended, or
/// there is no socket at its destination; the two are told apart, and nothing changes.
pub proof fn law_packet_fails_without_a_receiver<D>(
    net: NetworkView<D>,
    time: TimeHandle<SimEvent<D>>,
    packet: Packet<D>,
    node: u64,
    latency: Duration,
    r: Result<(), NetError>,
    net_after: NetworkView<D>,
    time_after: TimeHandle<SimEvent<D>>,
)
    requires
        sent(net, time, packet, false, latency, r, net_after, time_after),
        net.route(packet.node, packet.dst) == Ok::<u64, NetError>(node),
        net.nodes.contains_key(node),
    ensures
        ({
            let ended = packet.data.ty == PayloadType::TcpData
                && !net.nodes[node].live_tcp_ids.contains(connection_of(packet.tag));
            let bound = net.nodes[node].sockets.contains_key(packet.dst.port);
            &&& r == Err::<(), NetError>(NetError::PeerHungUp(packet.dst)) <==> ended
            &&& r == Err::<(), NetError>(NetError::ConnectionRefused(packet.dst)) <==> !ended
                && !bound
            &&& r is Ok <==> !ended && bound
            &&& r is Err ==> net_after == net && time_after == time
        }),
{
}

/// The event by which `packet` arrives at the socket with the identity `mailbox` on node `node`.
pub open spec fn arrival<D>(packet: Packet<D>, node: u64, mailbox: u64, at: int) -> Event<
    SimEvent<D>,
> {
    Event {
        deadline: Duration { nanos: at as u128 },
        node_id: NodeId(node),
        callback: SimEvent::Deliver(
            Delivery {
                node: NodeId(node),
                port: packet.dst.port,
                mailbox,
                msg: Message { tag: packet.tag, data: packet.data, from: packet.src },
            },
        ),
    }
}

/// A packet that is sent is counted once, and scheduled to arrive once: at the socket that its
/// destination has now, with its tag, its data and where it comes from, after the latency that was
/// drawn. All that was scheduled before stays scheduled. A node for which nothing is scheduled any
/// more gets nothing.
pub proof fn law_packet_arrives_once<D>(
    net: NetworkView<D>,
    time: TimeHandle<SimEvent<D>>,
    packet: Packet<D>,
    node: u64,
    latency: Duration,
    r: Result<(), NetError>,
    net_after: NetworkView<D>,
    time_after: TimeHandle<SimEvent<D>>,
)
    requires
        time.wf(),
        sent(net, time, packet, false, latency, r, net_after, time_after),
        net.route(packet.node, packet.dst) == Ok::<u64, NetError>(node),
        net.has_socket(node, packet.dst.port),
        packet.data.ty == PayloadType::TcpData ==> net.nodes[node].live_tcp_ids.contains(
            connection_of(packet.tag),
        ),
        time.clock.now().0.nanos + latency.nanos <= u128::MAX,
        net.msg_count < u64::MAX,
    ensures
        r == Ok::<(), NetError>(()),
        net_after.msg_count == net.msg_count + 1,
        net_after.nodes == net.nodes,
        net_after.addrs == net.addrs,
        net_after.clogged_nodes == net.clogged_nodes,
        net_after.clogged_links == net.clogged_links,
        net_after.next_mailbox == net.next_mailbox,
        time_after.clock == time.clock,
        time_after.timer.disabled_node_ids@ == time.timer.disabled_node_ids@,
        time.timer.disabled_node_ids@.contains(node) ==> time_after.timer.events@
            == time.timer.events@,
        !time.timer.disabled_node_ids@.contains(node) ==> time_after.timer.events@.to_multiset()
            == time.timer.events@.to_multiset().insert(
            arrival(
                packet,
                node,
                net.nodes[node].sockets[packet.dst.port].id,
                time.clock.elapsed_time.nanos + latency.nanos,
            ),
        ),
{
    let mailbox = net.nodes[node].sockets[packet.dst.port].id;
    assert(net.verdict(node, packet.dst, packet.tag, packet.data.ty, false) == Verdict::Queued(
        mailbox,
    ));
    law_sent_packet_is_scheduled(
        net,
        time,
        packet,
        false,
        latency,
        r,
        net_after,
        time_after,
        node,
        mailbox,
    );
}

/// Sending over a network that loses all udp packets and no tcp packets drops every udp packet that
/// has a way, without a word, and sends every tcp packet that has someone to receive it; where it is
/// the other way round, every tcp packet is answered that the other end has hung up, and every udp
/// packet that has someone to receive it is sent.
pub proof fn law_loss_hits_the_kind_it_is_configured_for<D>(
    net: Network<D>,
    time: TimeHandle<SimEvent<D>>,
    packet: Packet<D>,
    node: u64,
    r: Result<(), NetError>,
    net_after: NetworkView<D>,
    time_after: TimeHandle<SimEvent<D>>,
)
    requires
        net.may_send(time, packet, r, net_after, time_after),
        net@.route(packet.node, packet.dst) == Ok::<u64, NetError>(node),
        net@.nodes.contains_key(node),
    ensures
        ({
            let udp = packet.data.ty == PayloadType::Udp;
            let own = if udp {
                net.config.packet_loss
            } else {
                net.config.tcp_packet_loss
            };
            let received = net@.has_socket(node, packet.dst.port) && (packet.data.ty
                == PayloadType::TcpData ==> net@.nodes[node].live_tcp_ids.contains(
                connection_of(packet.tag),
            ));
            &&& all_are_lost(own, packet.node, NodeId(node)) ==> net_after == net@ && time_after
                == time
            &&& all_are_lost(own, packet.node, NodeId(node)) && udp ==> r == Ok::<(), NetError>(())
            &&& all_are_lost(own, packet.node, NodeId(node)) && !udp ==> r == Err::<(), NetError>(
                NetError::PeerHungUp(packet.dst),
            )
            &&& none_is_lost(own, packet.node, NodeId(node)) && received && net@.msg_count
                < u64::MAX ==> r == Ok::<(), NetError>(()) && net_after.msg_count == net@.msg_count
                + 1
        }),
{
    let (lost, latency) = choose|lost: bool, latency: Duration|
        {
            &&& #[trigger] sent(net@, time, packet, lost, latency, r, net_after, time_after)
            &&& net.may_lose(packet.node, node, packet.data.ty, lost)
        };
    law_udp_and_tcp_are_lost_apart(net, packet.node, node, packet.data.ty, lost);
}

/// A latency that was drawn is one that the distribution can give.
pub proof fn law_drawn_latency_is_one_that_may_be(
    dist: LatencyDistribution,
    rng: GlobalRng,
    latency: Duration,
    after: GlobalRng,
)
    requires
        dist.has_sampled(rng, latency, after),
    ensures
        dist.may_sample(latency),
    decreases dist,
{
    let none = Duration { nanos: 0 };
    match dist {
        LatencyDistribution::Constant(_) => {},
        LatencyDistribution::Uniform(range) => {
            let items: Vec<(u32, bool)> = arbitrary();
            law_draws_stay_where_they_were_asked_for::<bool>(
                rng,
                (0, 0, 0),
                (range.start, range.end, latency),
                (0, 1, false),
                &items,
                &(0, true),
                (Seq::empty(), Seq::empty()),
                after,
            );
        },
        LatencyDistribution::Compound(parts) => {
            let (i, chosen) = choose|i: int, chosen: GlobalRng|
                0 <= i < parts@.len() && #[trigger] rng.gave_weighted(&parts, &parts@[i], chosen)
                    && parts@[i].1.has_sampled(chosen, latency, after);
            law_draws_stay_where_they_were_asked_for::<Box<LatencyDistribution>>(
                rng,
                (0, 0, 0),
                (none, none, none),
                (0, 1, false),
                &parts,
                &parts@[i],
                (Seq::empty(), Seq::empty()),
                chosen,
            );
            assert(decreases_to!(dist => dist->Compound_0@[i].1));
            law_drawn_latency_is_one_that_may_be(*parts@[i].1, chosen, latency, after);
            assert(parts@[i].1.may_sample(latency));
        },
    }
}

/// What a distribution gives lies between the bounds of all that it is made of, as far as that
/// carries weight: a constant gives itself, and a range what lies in it.
pub proof fn law_latency_lies_between_its_bounds(
    dist: LatencyDistribution,
    latency: Duration,
)
    ensures
        dist matches LatencyDistribution::Constant(constant) ==> (dist.may_sample(latency)
            <==> latency.nanos == constant.nanos),
        dist matches LatencyDistribution::Uniform(range) ==> (dist.may_sample(latency)
            <==> range.start.nanos <= latency.nanos && latency.nanos < range.end.nanos),
        dist matches LatencyDistribution::Compound(parts) ==> {
            &&& dist.may_sample(latency) ==> exists|i: int|
                0 <= i < parts@.len() && parts@[i].0 > 0 && (#[trigger] parts@[i].1).may_sample(
                    latency,
                )
            &&& forall|i: int|
                0 <= i < parts@.len() && parts@[i].0 > 0 && (#[trigger] parts@[i].1).may_sample(
                    latency,
                ) ==> dist.may_sample(latency)
        },
{
}

/// A packet that stays on its node takes a latency of the loopback interface. One between two nodes
/// takes one that is configured for the two, and a default one only where none is.
pub proof fn law_latency_is_that_of_the_link(
    config: LatencyConfig,
    a: NodeId,
    b: NodeId,
    latency: Duration,
)
    requires
        config.may_take(a, b, latency),
    ensures
        a == b ==> config.loopback_latency.may_sample(latency),
        a != b && config.inter_node_latency is None ==> config.default_latency.may_sample(latency),
        a != b ==> (config.inter_node_latency matches Some(between) ==> {
            &&& (forall|given: Option<Duration>| #[trigger]
                between.may_sample(a, b, given) ==> given is None)
                ==> config.default_latency.may_sample(latency)
            &&& (forall|given: Option<Duration>| #[trigger]
                between.may_sample(a, b, given) ==> given is Some) ==> between.may_sample(
                a,
                b,
                Some(latency),
            )
        }),
{
}

/// With ranges for the loopback interface and for all others, a packet takes as long as the range of
/// its own interface says.
pub proof fn law_latency_lies_in_the_range_of_its_interface(
    config: LatencyConfig,
    default: Range<Duration>,
    loopback: Range<Duration>,
    rng: GlobalRng,
    a: NodeId,
    b: NodeId,
    latency: Duration,
    after: GlobalRng,
)
    requires
        config.default_latency == LatencyDistribution::Uniform(default),
        config.loopback_latency == LatencyDistribution::Uniform(loopback),
        config.inter_node_latency is None,
        config.may_take(a, b, latency) || config.has_taken(rng, a, b, latency, after),
    ensures
        a == b ==> loopback.start.nanos <= latency.nanos < loopback.end.nanos,
        a != b ==> default.start.nanos <= latency.nanos < default.end.nanos,
{
    if config.has_taken(rng, a, b, latency, after) {
        if a == b {
            law_drawn_latency_is_one_that_may_be(config.loopback_latency, rng, latency, after);
        } else {
            law_drawn_latency_is_one_that_may_be(config.default_latency, rng, latency, after);
        }
    }
}

/// A link that was added has the latencies of its distribution in both directions, whatever it had
/// before; every other link has those that it had.
pub proof fn law_added_link_has_its_latencies(
    map: InterNodeLatencyMap,
    linked: InterNodeLatencyMap,
    a: NodeId,
    b: NodeId,
    dist: LatencyDistribution,
    c: NodeId,
    d: NodeId,
    latency: Option<Duration>,
)
    requires
        linked@ == map@.insert((a, b), dist).insert((b, a), dist),
    ensures
        linked.may_sample(a, b, latency) <==> (latency matches Some(l) && dist.may_sample(l)),
        linked.may_sample(b, a, latency) <==> (latency matches Some(l) && dist.may_sample(l)),
        (c, d) != (a, b) && (c, d) != (b, a) ==> (linked.may_sample(c, d, latency)
            <==> map.may_sample(c, d, latency)),
{
}

/// A map without links leaves everything to the default. A link that is there in one direction
/// counts for both.
pub proof fn law_link_counts_for_both_directions(
    map: InterNodeLatencyMap,
    a: NodeId,
    b: NodeId,
    latency: Option<Duration>,
)
    requires
        map.may_sample(a, b, latency),
    ensures
        latency is None <==> !map@.contains_key((a, b)) && !map@.contains_key((b, a)),
        map@.contains_key((a, b)) ==> map@[(a, b)].may_sample(latency->0),
        !map@.contains_key((a, b)) && map@.contains_key((b, a)) ==> map@[(b, a)].may_sample(
            latency->0,
        ),
{
}

/// Where both ends of a packet have a latency of their own, it takes the longer of the two; where
/// one has, it takes that, in either direction; where none has, that is left to the default.
pub proof fn law_longer_latency_of_the_two_ends(
    map: NodeLatencyMap,
    a: NodeId,
    b: NodeId,
    latency: Option<Duration>,
    least: u128,
)
    requires
        map.may_sample(a, b, latency),
    ensures
        latency is None <==> !map@.contains_key(a.0) && !map@.contains_key(b.0),
        map@.contains_key(a.0) && (forall|x: Duration| #[trigger]
            map@[a.0].may_sample(x) ==> x.nanos >= least) ==> latency->0.nanos >= least,
        map@.contains_key(b.0) && (forall|x: Duration| #[trigger]
            map@[b.0].may_sample(x) ==> x.nanos >= least) ==> latency->0.nanos >= least,
        latency is Some ==> (map@.contains_key(a.0) && map@[a.0].may_sample(latency->0)) || (
        map@.contains_key(b.0) && map@[b.0].may_sample(latency->0)),
        map.may_sample(b, a, latency),
{
    if map@.contains_key(a.0) && map@.contains_key(b.0) {
        let d = latency->0;
        let (p, q) = (map@[a.0], map@[b.0]);
        let (x, y) = choose|x: Duration, y: Duration|
            #![trigger p.may_sample(x), q.may_sample(y)]
            p.may_sample(x) && q.may_sample(y) && x.nanos <= d.nanos && y.nanos <= d.nanos && (d
                == x || d == y);
        assert(q.may_sample(y) && p.may_sample(x));
    }
}

/// A loss that was decided at a rate is sure at a rate of one and impossible at zero, and open in
/// between.
pub proof fn law_rates_between_leave_it_open(rate: LossRate, lost: bool)
    requires
        rate.denominator > 0,
    ensures
        rate.numerator == 0 ==> (rate.may_lose(lost) <==> !lost),
        rate.numerator == rate.denominator ==> (rate.may_lose(lost) <==> lost),
        0 < rate.numerator < rate.denominator ==> rate.may_lose(lost),
{
}

/// A message that arrives says where it comes from, under the tag that it was sent with.
pub proof fn law_delivery_carries_the_packet<D>(packet: Packet<D>, node: u64, mailbox: u64)
    ensures
        ({
            let delivery = packet.delivery(node, mailbox);
            &&& delivery.node == NodeId(node)
            &&& delivery.port == packet.dst.port
            &&& delivery.mailbox == mailbox
            &&& delivery.msg.tag == packet.tag
            &&& delivery.msg.data == packet.data
            &&& delivery.msg.from == packet.src
        }),
{
}

/// A packet that is not lost and has a receiver arrives there, once, after one of the latencies that
/// are configured between its sender and its receiver.
pub proof fn law_packet_takes_the_latency_of_its_way<D>(
    net: Network<D>,
    time: TimeHandle<SimEvent<D>>,
    packet: Packet<D>,
    node: u64,
    r: Result<(), NetError>,
    net_after: NetworkView<D>,
    time_after: TimeHandle<SimEvent<D>>,
) -> (latency: Duration)
    requires
        net.can_send(time, packet.node, packet.dst),
        net.may_send(time, packet, r, net_after, time_after),
        net@.route(packet.node, packet.dst) == Ok::<u64, NetError>(node),
        net@.has_socket(node, packet.dst.port),
        packet.data.ty == PayloadType::TcpData ==> net@.nodes[node].live_tcp_ids.contains(
            connection_of(packet.tag),
        ),
        packet.data.ty == PayloadType::Udp ==> none_is_lost(
            net.config.packet_loss,
            packet.node,
            NodeId(node),
        ),
        packet.data.ty != PayloadType::Udp ==> none_is_lost(
            net.config.tcp_packet_loss,
            packet.node,
            NodeId(node),
        ),
        !time.timer.disabled_node_ids@.contains(node),
    ensures
        net.config.latency.may_take(packet.node, NodeId(node), latency),
        time_after.timer.events@.to_multiset() == time.timer.events@.to_multiset().insert(
            arrival(
                packet,
                node,
                net@.nodes[node].sockets[packet.dst.port].id,
                time.clock.elapsed_time.nanos + latency.nanos,
            ),
        ),
{
    let (lost, latency) = choose|lost: bool, latency: Duration|
        {
            &&& #[trigger] sent(net@, time, packet, lost, latency, r, net_after, time_after)
            &&& net.may_lose(packet.node, node, packet.data.ty, lost)
            &&& net@.verdict(node, packet.dst, packet.tag, packet.data.ty, lost) is Queued
                ==> net.config.latency.may_take(packet.node, NodeId(node), latency)
        };
    law_udp_and_tcp_are_lost_apart(net, packet.node, node, packet.data.ty, lost);
    assert(!lost);
    assert(net@.verdict(node, packet.dst, packet.tag, packet.data.ty, lost) is Queued);
    law_packet_arrives_once(net@, time, packet, node, latency, r, net_after, time_after);
    latency
}

/// For a packet without a way nothing is drawn. For one that is lost or has no receiver only its loss
/// is drawn, and for every other one its latency after that: from the latencies of the loopback
/// interface where it stays on its node, and else from those between its sender and its receiver.
pub proof fn law_only_what_a_packet_needs_is_drawn<D>(
    net: Network<D>,
    rng: GlobalRng,
    time: TimeHandle<SimEvent<D>>,
    packet: Packet<D>,
    r: Result<(), NetError>,
    rng_after: GlobalRng,
    net_after: NetworkView<D>,
    time_after: TimeHandle<SimEvent<D>>,
)
    requires
        net.has_sent(rng, time, packet, r, rng_after, net_after, time_after),
    ensures
        net@.route(packet.node, packet.dst) is Err ==> rng_after == rng,
        net@.route(packet.node, packet.dst) matches Ok(node) ==> {
            let ty = packet.data.ty;
            let config = net.config.latency;
            let received = net@.has_socket(node, packet.dst.port) && (ty == PayloadType::TcpData
                ==> net@.nodes[node].live_tcp_ids.contains(connection_of(packet.tag)));
            exists|lost: bool, drawn: GlobalRng| #[trigger]
                net.has_drawn_loss(rng, packet.node, node, ty, lost, drawn) && if lost
                    || !received {
                    rng_after == drawn && net_after == net@ && time_after == time
                } else {
                    exists|latency: Duration|
                        {
                            &&& #[trigger] sent(
                                net@,
                                time,
                                packet,
                                false,
                                latency,
                                r,
                                net_after,
                                time_after,
                            )
                            &&& packet.node == NodeId(node)
                                ==> config.loopback_latency.has_sampled(drawn, latency, rng_after)
                            &&& packet.node != NodeId(node) && config.inter_node_latency is None
                                ==> config.default_latency.has_sampled(drawn, latency, rng_after)
                            &&& config.has_taken(
                                drawn,
                                packet.node,
                                NodeId(node),
                                latency,
                                rng_after,
                            )
                        }
                }
        },
{
    let (lost, latency, drawn) = choose|lost: bool, latency: Duration, drawn: GlobalRng|
        {
            &&& sent(net@, time, packet, lost, latency, r, net_after, time_after)
            &&& #[trigger] net.has_drawn_for(packet, rng, lost, drawn, latency, rng_after)
        };
    if let Ok(node) = net@.route(packet.node, packet.dst) {
        assert(net.has_drawn_loss(rng, packet.node, node, packet.data.ty, lost, drawn));
        if !lost {
            assert(sent(net@, time, packet, false, latency, r, net_after, time_after));
        }
    }
}

/// The latency that is taken is drawn from the latencies of the loopback interface where a packet
/// stays on its node, and there alone; between two nodes from those that are configured for them,
/// and from the default where there are none.
pub proof fn law_latency_is_drawn_for_the_link(
    config: LatencyConfig,
    rng: GlobalRng,
    a: NodeId,
    b: NodeId,
    latency: Duration,
    after: GlobalRng,
)
    requires
        config.has_taken(rng, a, b, latency, after),
    ensures
        a == b ==> config.loopback_latency.has_sampled(rng, latency, after),
        a != b && config.inter_node_latency is None ==> config.default_latency.has_sampled(
            rng,
            latency,
            after,
        ),
        a != b ==> (config.inter_node_latency matches Some(between) ==> {
            ||| between.has_sampled(rng, a, b, Some(latency), after)
            ||| exists|asked: GlobalRng| #[trigger]
                between.has_sampled(rng, a, b, None, asked) && config.default_latency.has_sampled(
                    asked,
                    latency,
                    after,
                )
        }),
        (a == b || config.inter_node_latency is None) ==> config.may_take(a, b, latency),
{
    if a == b {
        law_drawn_latency_is_one_that_may_be(config.loopback_latency, rng, latency, after);
    } else if config.inter_node_latency is None {
        law_drawn_latency_is_one_that_may_be(config.default_latency, rng, latency, after);
    }
}

/// A constant latency takes nothing from the generator.
pub proof fn law_constant_latency_draws_nothing(
    dist: LatencyDistribution,
    rng: GlobalRng,
    latency: Duration,
    after: GlobalRng,
)
    requires
        dist.has_sampled(rng, latency, after),
    ensures
        dist.draws() <==> !(dist is Constant),
        dist matches LatencyDistribution::Constant(constant) ==> latency == constant && after == rng,
{
}

/// What is drawn for a link is one of its latencies, or none if it has none; where its latency is
/// constant, or it has none, nothing is taken from the generator.
pub proof fn law_drawn_latency_of_a_link_is_one_of_its_own(
    map: InterNodeLatencyMap,
    rng: GlobalRng,
    a: NodeId,
    b: NodeId,
    latency: Option<Duration>,
    after: GlobalRng,
)
    requires
        map.has_sampled(rng, a, b, latency, after),
    ensures
        map.may_sample(a, b, latency),
        !map.draws(a, b) ==> after == rng,
        map.draws(a, b) <==> if map@.contains_key((a, b)) {
            !(map@[(a, b)] is Constant)
        } else {
            map@.contains_key((b, a)) && !(map@[(b, a)] is Constant)
        },
{
    if map@.contains_key((a, b)) {
        law_drawn_latency_is_one_that_may_be(map@[(a, b)], rng, latency->0, after);
    } else if map@.contains_key((b, a)) {
        law_drawn_latency_is_one_that_may_be(map@[(b, a)], rng, latency->0, after);
    }
}

/// What is drawn for two nodes is one of the latencies of one of them, not below what is drawn for
/// the other; where the latencies of both are constant, nothing is taken from the generator.
pub proof fn law_drawn_latency_of_nodes_is_one_of_their_own(
    map: NodeLatencyMap,
    rng: GlobalRng,
    a: NodeId,
    b: NodeId,
    latency: Option<Duration>,
    after: GlobalRng,
)
    requires
        map.has_sampled(rng, a, b, latency, after),
    ensures
        map.may_sample(a, b, latency),
        !map.draws(a, b) ==> after == rng,
        map.draws(a, b) <==> (map@.contains_key(a.0) && !(map@[a.0] is Constant)) || (
        map@.contains_key(b.0) && !(map@[b.0] is Constant)),
{
    if map@.contains_key(a.0) && map@.contains_key(b.0) {
        let d = latency->0;
        let (p, q) = (map@[a.0], map@[b.0]);
        let (x, between, y) = choose|x: Duration, between: GlobalRng, y: Duration|
            #![trigger p.has_sampled(rng, x, between), q.has_sampled(between, y, after)]
            p.has_sampled(rng, x, between) && q.has_sampled(between, y, after) && x.nanos
                <= d.nanos && y.nanos <= d.nanos && (d == x || d == y);
        law_drawn_latency_is_one_that_may_be(p, rng, x, between);
        law_drawn_latency_is_one_that_may_be(q, between, y, after);
        assert(p.may_sample(x) && q.may_sample(y));
    } else if map@.contains_key(a.0) {
        law_drawn_latency_is_one_that_may_be(map@[a.0], rng, latency->0, after);
    } else if map@.contains_key(b.0) {
        law_drawn_latency_is_one_that_may_be(map@[b.0], rng, latency->0, after);
    }
}

/// Nothing is drawn for the rate of a packet between nodes whose rates are fixed.
pub proof fn law_fixed_rates_draw_nothing(
    map: NodePacketLossMap,
    config: PacketLossConfig,
    rng: GlobalRng,
    a: NodeId,
    b: NodeId,
    rate: Option<LossRate>,
    fallback: LossRate,
    after: GlobalRng,
)
    ensures
        !map.draws(a, b),
        map.has_rated(rng, a, b, rate, after) ==> map.may_rate(a, b, rate) && after == rng,
        a == b || config.node_packet_loss_rate is None ==> !config.draws(a, b),
        (a == b || config.node_packet_loss_rate is None) && config.has_rated(
            rng,
            a,
            b,
            fallback,
            after,
        ) ==> config.may_rate(a, b, fallback) && after == rng,
{
}

/// Distributions that are the same give the same latencies, and are so whichever comes first.
pub proof fn law_same_distributions_give_the_same_latencies(
    one: LatencyDistribution,
    other: LatencyDistribution,
    latency: Duration,
)
    requires
        one.same(&other),
    ensures
        one.may_sample(latency) <==> other.may_sample(latency),
        other.same(&one),
        one.draws() == other.draws(),
    decreases one,
{
    if let (LatencyDistribution::Compound(a), LatencyDistribution::Compound(b)) = (one, other) {
        assert forall|i: int| 0 <= i < a@.len() implies ({
            &&& (#[trigger] a@[i]).1.may_sample(latency) <==> b@[i].1.may_sample(latency)
            &&& b@[i].1.same(&*a@[i].1)
            &&& a@[i].0 == b@[i].0
        }) by {
            assert(decreases_to!(one => one->Compound_0@[i].1));
            law_same_distributions_give_the_same_latencies(*a@[i].1, *b@[i].1, latency);
        }
        if one.may_sample(latency) {
            let i: int = choose|i: int|
                0 <= i < a@.len() && a@[i].0 > 0 && (#[trigger] a@[i].1).may_sample(latency);
            assert(a@[i].0 == b@[i].0);
            assert(b@[i].1.may_sample(latency));
        }
        if other.may_sample(latency) {
            let i: int = choose|i: int|
                0 <= i < b@.len() && b@[i].0 > 0 && (#[trigger] b@[i].1).may_sample(latency);
            assert(a@[i].0 == b@[i].0);
            assert(a@[i].1.may_sample(latency));
        }
        assert forall|i: int| 0 <= i < b@.len() implies (#[trigger] b@[i]).0 == a@[i].0
            && b@[i].1.same(&*a@[i].1) by {
            assert(a@[i].0 == b@[i].0);
        }
    }
}

/// Every distribution is the same as itself.
pub proof fn law_distribution_is_the_same_as_itself(dist: LatencyDistribution)
    ensures
        dist.same(&dist),
    decreases dist,
{
    if let LatencyDistribution::Compound(parts) = dist {
        assert forall|i: int| 0 <= i < parts@.len() implies (#[trigger] parts@[i]).1.same(
            &*parts@[i].1,
        ) by {
            assert(decreases_to!(dist => dist->Compound_0@[i].1));
            law_distribution_is_the_same_as_itself(*parts@[i].1);
        }
    }
}

} // verus!
