//! What holds of messages, of those who wait for them, and of the sockets at which they meet.

use crate::net::addr::SocketAddr;
use crate::net::mailbox::{
    answered, connection_of, lemma_kept_or_woken, message_tags, request_tags, sequence_of, tag_of,
    to_wake, wakers_left, wakers_woken, MailboxView, Message, WakeKey,
};
use crate::net::network::{Delivery, NetworkView};
use crate::task::NodeId;
use crate::utils::{lemma_swap_removed, swap_removed};
use futures::channel::oneshot::{Receiver, Sender};
use std::task::Waker;
use vstd::prelude::*;

verus! {

/// The tags of a connection follow each other, those of the next connection follow them, and no two
/// connections share one.
pub proof fn law_tags_of_a_connection_follow_each_other(id: u32, seq: u32, other: u32, place: u32)
    ensures
        seq < u32::MAX ==> tag_of(id, (seq + 1) as u32) == tag_of(id, seq) + 1,
        id < u32::MAX ==> tag_of((id + 1) as u32, 0) == tag_of(id, u32::MAX) + 1,
        tag_of(0, seq) == seq,
        tag_of(id, seq) == tag_of(other, place) <==> id == other && seq == place,
{
}

/// Those who wait for a tag are due for that tag, those who wait for any tag of a connection for all
/// of them, and for none of another.
pub proof fn law_wakers_are_due_for_what_they_wait_for(tag: u64, own: u64, id: u32, other: u32, seq: u32)
    ensures
        WakeKey::Tag(own).covers(tag) <==> own == tag,
        WakeKey::Connection(id).covers(tag_of(other, seq)) <==> id == other,
        WakeKey::Connection(id).covers(tag) <==> exists|place: u32| #[trigger]
            tag_of(id, place) == tag,
{
    if WakeKey::Connection(id).covers(tag) {
        assert(tag_of(id, sequence_of(tag)) == tag);
    }
    assert(connection_of(tag_of(other, seq)) == other);
    assert forall|place: u32| #[trigger] tag_of(id, place) == tag implies connection_of(tag)
        == id by {}
}

/// As many are woken as are due, and each by its waker: whoever is woken waited for what has come.
pub proof fn law_only_those_who_are_due_are_woken(wakers: Seq<(u64, Waker)>, key: WakeKey, i: int)
    requires
        0 <= i < to_wake(wakers, key).len(),
    ensures
        to_wake(wakers, key).len() + wakers_left(wakers, key).len() == wakers.len(),
        exists|j: int|
            0 <= j < wakers.len() && key.covers((#[trigger] wakers[j]).0) && wakers[j].1 == to_wake(
                wakers,
                key,
            )[i],
{
    broadcast use vstd::seq_lib::group_to_multiset_ensures;

    crate::net::mailbox::law_waking_parts_the_wakers(wakers, key);
    let (left, woken) = (wakers_left(wakers, key), wakers_woken(wakers, key));
    assert(left.to_multiset().len() == left.len());
    assert(woken.to_multiset().len() == woken.len());
    assert(wakers.to_multiset().len() == wakers.len());
    assert(woken.contains(woken[i]));
    assert(woken.to_multiset().count(woken[i]) > 0);
    assert(wakers.to_multiset().count(woken[i]) > 0);
    assert(wakers.contains(woken[i]));
    let j: int = choose|j: int| 0 <= j < wakers.len() && wakers[j] == woken[i];
    assert(key.covers(wakers[j].0));
}

/// Whoever polls for a tag in vain is woken when something for the tag comes, and nothing else of
/// the mailbox changes meanwhile.
pub proof fn law_poller_is_woken_by_what_it_waits_for<D>(mailbox: MailboxView<D>, tag: u64, waker: Waker)
    ensures
        ({
            let after = mailbox.polled_by(tag, waker);
            &&& to_wake(after.wakers, WakeKey::Tag(tag)).contains(waker)
            &&& to_wake(after.wakers, WakeKey::Connection(connection_of(tag))).contains(waker)
            &&& after.wakers.drop_last() == mailbox.wakers
            &&& after.msgs == mailbox.msgs && after.registered == mailbox.registered
            &&& after.sync_connections == mailbox.sync_connections && after.id == mailbox.id
        }),
{
    let after = mailbox.polled_by(tag, waker);
    assert(after.wakers[mailbox.wakers.len() as int] == (tag, waker));
    assert(after.wakers.contains((tag, waker)));
    assert(after.wakers.drop_last() =~= mailbox.wakers);
    lemma_kept_or_woken(after.wakers, WakeKey::Tag(tag), (tag, waker));
    lemma_kept_or_woken(after.wakers, WakeKey::Connection(connection_of(tag)), (tag, waker));
}

/// A message for a tag is there if and only if one of the messages carries it. What is received is
/// the first of these; it is gone then, and nothing else of the mailbox changes.
pub proof fn law_first_message_is_received<D>(mailbox: MailboxView<D>, tag: u64)
    ensures
        mailbox.has(tag) <==> exists|i: int|
            0 <= i < mailbox.msgs.len() && (#[trigger] mailbox.msgs[i]).tag == tag,
        mailbox.received(tag).1 is Some <==> mailbox.has(tag),
        mailbox.received(tag).1 is None ==> mailbox.received(tag).0 == mailbox,
        mailbox.received(tag).1 matches Some(msg) ==> exists|i: int|
            {
                &&& 0 <= i < mailbox.msgs.len()
                &&& #[trigger] mailbox.msgs[i] == msg
                &&& msg.tag == tag
                &&& forall|j: int| 0 <= j < i ==> (#[trigger] mailbox.msgs[j]).tag != tag
            },
        mailbox.received(tag).0.registered == mailbox.registered,
        mailbox.received(tag).0.wakers == mailbox.wakers,
        mailbox.received(tag).0.sync_connections == mailbox.sync_connections,
        mailbox.received(tag).0.id == mailbox.id,
{
    let tags = message_tags(mailbox.msgs);
    tags.index_of_first_ensures(tag);
    assert forall|i: int| 0 <= i < mailbox.msgs.len() implies (#[trigger] mailbox.msgs[i]).tag
        == tags[i] by {}
    if mailbox.has(tag) {
        let i: int = tags.index_of_first(tag)->0;
        assert(mailbox.msgs[i].tag == tag);
        assert forall|j: int| 0 <= j < i implies (#[trigger] mailbox.msgs[j]).tag != tag by {
            assert(tags[j] != tag);
        }
    } else {
        assert forall|i: int| 0 <= i < mailbox.msgs.len() implies (#[trigger] mailbox.msgs[i]).tag
            != tag by {
            if tags[i] == tag {
                assert(tags.contains(tag));
            }
        }
    }
    assert forall|i: int|
        0 <= i < mailbox.msgs.len() && (#[trigger] mailbox.msgs[i]).tag == tag implies mailbox.has(
        tag,
    ) by {
        assert(tags[i] == tag);
    }
}

/// Receiving under one tag leaves what waits under any other.
pub proof fn law_receiving_leaves_other_tags<D>(mailbox: MailboxView<D>, tag: u64, msg: Message<D>)
    requires
        msg.tag != tag,
    ensures
        mailbox.received(tag).0.msgs.to_multiset().count(msg) == mailbox.msgs.to_multiset().count(
            msg,
        ),
{
    let tags = message_tags(mailbox.msgs);
    tags.index_of_first_ensures(tag);
    if mailbox.has(tag) {
        let i: int = tags.index_of_first(tag)->0;
        assert(tags[i] == mailbox.msgs[i].tag);
        lemma_swap_removed(mailbox.msgs, i);
    }
}

/// A request is filed behind all others, under its tag, and nothing else of the mailbox changes.
pub proof fn law_request_is_filed_behind_all_others<D>(
    mailbox: MailboxView<D>,
    tag: u64,
    receiver: Receiver<Message<D>>,
    after: MailboxView<D>,
)
    requires
        mailbox.requested(tag, receiver, after),
    ensures
        after.registered.len() == mailbox.registered.len() + 1,
        after.registered.drop_last() == mailbox.registered,
        after.registered.last().0 == tag,
        after.msgs == mailbox.msgs,
        after.wakers == mailbox.wakers,
        after.sync_connections == mailbox.sync_connections,
        after.id == mailbox.id,
{
    assert(after.registered.drop_last() =~= mailbox.registered);
}

/// Answering requests for a tag keeps all requests for any other.
pub proof fn law_answering_keeps_other_requests<D>(
    registered: Seq<(u64, Sender<Message<D>>)>,
    tag: u64,
    k: nat,
    other: (u64, Sender<Message<D>>),
)
    requires
        other.0 != tag,
    ensures
        answered(registered, tag, k).to_multiset().count(other) == registered.to_multiset().count(
            other,
        ),
        answered(registered, tag, k).len() <= registered.len() <= answered(
            registered,
            tag,
            k,
        ).len() + k,
    decreases k,
{
    if k > 0 {
        law_answering_keeps_other_requests(registered, tag, (k - 1) as nat, other);
        let before = answered(registered, tag, (k - 1) as nat);
        request_tags(before).index_of_first_ensures(tag);
        if let Some(i) = request_tags(before).index_of_first(tag) {
            assert(request_tags(before)[i] == before[i].0);
            lemma_swap_removed(before, i);
            assert(answered(registered, tag, k) == swap_removed(before, i));
        }
    }
}

/// A message that is delivered is kept or handed to someone who asked for its tag, and to one at
/// most. Those who poll for the tag are taken out, to be woken; those who wait for another stay, and
/// so do all messages that were there. The socket stays the same.
pub proof fn law_delivery_concerns_its_tag_alone<D>(
    before: MailboxView<D>,
    msg: Message<D>,
    after: MailboxView<D>,
    waiting: (u64, Waker),
    request: (u64, Sender<Message<D>>),
)
    requires
        before.delivered(msg, after),
        waiting.0 != msg.tag,
        request.0 != msg.tag,
    ensures
        after.msgs == before.msgs || after.msgs == before.msgs.push(msg),
        after.msgs == before.msgs ==> after.registered.len() < before.registered.len(),
        before.wakers.contains(waiting) ==> after.wakers.contains(waiting),
        forall|i: int| 0 <= i < after.wakers.len() ==> (#[trigger] after.wakers[i]).0 != msg.tag,
        after.registered.to_multiset().count(request) == before.registered.to_multiset().count(
            request,
        ),
        after.sync_connections == before.sync_connections,
        after.id == before.id,
{
    broadcast use vstd::seq_lib::group_to_multiset_ensures;

    let key = WakeKey::Tag(msg.tag);
    crate::net::mailbox::law_waking_parts_the_wakers(before.wakers, key);
    let (left, woken) = (wakers_left(before.wakers, key), wakers_woken(before.wakers, key));
    if before.wakers.contains(waiting) {
        assert(before.wakers.to_multiset().count(waiting) > 0);
        if woken.to_multiset().count(waiting) > 0 {
            let i: int = choose|i: int| 0 <= i < woken.len() && woken[i] == waiting;
            assert(woken.contains(waiting));
            assert(key.covers(woken[i].0));
        }
        assert(left.to_multiset().count(waiting) > 0);
        assert(left.contains(waiting));
    }
    let k: nat = choose|k: nat|
        after.registered == #[trigger] answered(before.registered, msg.tag, k)
            && before.delivered_to(msg, k, after);
    law_answering_keeps_other_requests(before.registered, msg.tag, k, request);
    assert forall|i: int| 0 <= i < after.wakers.len() implies (#[trigger] after.wakers[i]).0
        != msg.tag by {
        assert(!key.covers(left[i].0));
    }
    if after.msgs == before.msgs {
        assert(before.msgs.push(msg).len() == before.msgs.len() + 1);
        assert(before.taken_by(msg, k));
        lemma_one_is_answered(before, msg, k);
    }
}

/// Whoever has taken a message is not asked again.
proof fn lemma_one_is_answered<D>(before: MailboxView<D>, msg: Message<D>, k: nat)
    requires
        before.taken_by(msg, k),
    ensures
        answered(before.registered, msg.tag, k).len() < before.registered.len(),
{
    let all = before.registered;
    let last = answered(all, msg.tag, (k - 1) as nat);
    assert(crate::net::mailbox::offered(all, msg, (k - 1) as nat, Ok(())));
    request_tags(last).index_of_first_ensures(msg.tag);
    let i: int = request_tags(last).index_of_first(msg.tag)->0;
    lemma_swap_removed(last, i);
    lemma_answered_shrinks(all, msg.tag, (k - 1) as nat);
}

proof fn lemma_answered_shrinks<D>(registered: Seq<(u64, Sender<Message<D>>)>, tag: u64, k: nat)
    ensures
        answered(registered, tag, k).len() <= registered.len(),
    decreases k,
{
    if k > 0 {
        lemma_answered_shrinks(registered, tag, (k - 1) as nat);
        let before = answered(registered, tag, (k - 1) as nat);
        request_tags(before).index_of_first_ensures(tag);
        if let Some(i) = request_tags(before).index_of_first(tag) {
            lemma_swap_removed(before, i);
        }
    }
}

/// A message that was refused is offered to the next who asked for its tag, or kept if there is
/// none; one that was taken is done with.
pub proof fn law_refused_message_is_not_lost<D>(
    mailbox: MailboxView<D>,
    tag: u64,
    answer: Result<(), Message<D>>,
)
    ensures
        ({
            let (after, pending) = mailbox.settled(tag, answer);
            &&& answer is Ok ==> pending is None && after == mailbox
            &&& answer matches Err(msg) ==> {
                &&& pending is None ==> after.msgs == mailbox.msgs.push(msg) && !request_tags(
                    mailbox.registered,
                ).contains(tag)
                &&& pending is Some ==> pending == Some(msg) && after == mailbox && request_tags(
                    mailbox.registered,
                ).contains(tag)
            }
            &&& after.registered == mailbox.registered && after.wakers == mailbox.wakers
            &&& after.id == mailbox.id && after.sync_connections == mailbox.sync_connections
        }),
{
}

/// Replacing a mailbox changes that socket and nothing else.
pub proof fn law_one_mailbox_is_replaced<D>(
    net: NetworkView<D>,
    id: u64,
    port: u16,
    mailbox: MailboxView<D>,
    other: u64,
    p: u16,
)
    requires
        net.has_socket(id, port),
    ensures
        ({
            let after = net.with_mailbox(id, port, mailbox);
            &&& after.has_socket(id, port) && after.nodes[id].sockets[port] == mailbox
            &&& after.has_socket(other, p) <==> net.has_socket(other, p)
            &&& net.has_socket(other, p) && (other, p) != (id, port)
                ==> after.nodes[other].sockets[p] == net.nodes[other].sockets[p]
            &&& net.nodes.contains_key(other) ==> after.nodes[other].ip == net.nodes[other].ip
                && after.nodes[other].live_tcp_ids == net.nodes[other].live_tcp_ids
                && after.nodes[other].next_ephemeral_port == net.nodes[other].next_ephemeral_port
            &&& after.addrs == net.addrs && after.clogged_nodes == net.clogged_nodes
            &&& after.clogged_links == net.clogged_links && after.msg_count == net.msg_count
            &&& after.next_mailbox == net.next_mailbox
        }),
{
}

/// A message arrives at the socket that it was sent to, if that is still bound: those who poll for
/// its tag there are woken, and no others. Otherwise it is lost, and nobody is woken.
pub proof fn law_message_arrives_where_it_was_sent<D>(
    net: NetworkView<D>,
    delivery: Delivery<D>,
    after: NetworkView<D>,
    other: u64,
    p: u16,
)
    requires
        net.delivered(delivery, after),
    ensures
        ({
            let (id, port) = (delivery.node.0, delivery.port);
            let there = net.has_socket(id, port) && net.nodes[id].sockets[port].id
                == delivery.mailbox;
            &&& !there ==> after == net && net.polling(delivery).len() == 0 && net.polled(delivery)
                == net
            &&& there ==> net.nodes[id].sockets[port].delivered(
                delivery.msg,
                after.nodes[id].sockets[port],
            )
            &&& there ==> net.polling(delivery) == to_wake(
                net.nodes[id].sockets[port].wakers,
                WakeKey::Tag(delivery.msg.tag),
            )
            &&& there ==> net.polled(delivery).nodes[id].sockets[port].msgs
                == net.nodes[id].sockets[port].msgs
            &&& after.has_socket(other, p) <==> net.has_socket(other, p)
            &&& net.has_socket(other, p) && (other, p) != (id, port)
                ==> after.nodes[other].sockets[p] == net.nodes[other].sockets[p]
                && net.polled(delivery).nodes[other].sockets[p] == net.nodes[other].sockets[p]
            &&& after.addrs == net.addrs && after.clogged_nodes == net.clogged_nodes
            &&& after.clogged_links == net.clogged_links && after.msg_count == net.msg_count
        }),
{
}

/// A connection is live at a node from its registration until it is given up there; no other
/// connection, no other node and nothing else of the network is concerned.
pub proof fn law_registering_concerns_one_connection<D>(
    net: NetworkView<D>,
    id: u64,
    tcp_id: u32,
    other: u64,
    connection: u32,
)
    requires
        net.nodes.contains_key(id),
        net.nodes.contains_key(other),
    ensures
        ({
            let on = net.registered(id, tcp_id);
            let off = net.deregistered(id, tcp_id);
            &&& on.nodes[id].live_tcp_ids.contains(tcp_id)
            &&& !off.nodes[id].live_tcp_ids.contains(tcp_id)
            &&& (other, connection) != (id, tcp_id) ==> {
                &&& on.nodes[other].live_tcp_ids.contains(connection)
                    <==> net.nodes[other].live_tcp_ids.contains(connection)
                &&& off.nodes[other].live_tcp_ids.contains(connection)
                    <==> net.nodes[other].live_tcp_ids.contains(connection)
            }
            &&& on.nodes[other].sockets == net.nodes[other].sockets
            &&& off.nodes[other].sockets == net.nodes[other].sockets
            &&& on.nodes[other].ip == net.nodes[other].ip
            &&& off.nodes[other].ip == net.nodes[other].ip
            &&& on.nodes.dom() == net.nodes.dom() && off.nodes.dom() == net.nodes.dom()
            &&& on.addrs == net.addrs && off.addrs == net.addrs
            &&& on.msg_count == net.msg_count && off.msg_count == net.msg_count
        }),
{
    assert(net.registered(id, tcp_id).nodes.dom() =~= net.nodes.dom());
    assert(net.deregistered(id, tcp_id).nodes.dom() =~= net.nodes.dom());
}

/// A connection is live for a peer if and only if the address of the other end leads to a node at
/// which it is.
pub proof fn law_connection_is_live_at_the_other_end<D>(
    net: NetworkView<D>,
    current: NodeId,
    peer: SocketAddr,
    tcp_id: u32,
)
    ensures
        peer.ip.loopback() ==> (net.session_live(current, peer, tcp_id)
            <==> net.nodes[current.0].live_tcp_ids.contains(tcp_id)),
        !peer.ip.loopback() ==> (net.session_live(current, peer, tcp_id)
            <==> net.addrs.contains_key(peer.ip)
            && net.nodes[net.addrs[peer.ip]].live_tcp_ids.contains(tcp_id)),
{
}

/// Waking those who wait for a connection at an address takes them out there, and nobody else.
pub proof fn law_waking_a_connection_concerns_no_other<D>(
    net: NetworkView<D>,
    current: NodeId,
    addr: SocketAddr,
    tcp_id: u32,
    node: u64,
    waiting: (u64, Waker),
    other: u64,
    p: u16,
)
    requires
        net.node_for(current, addr.ip) == Some(node),
        net.has_socket(node, addr.port),
        net.nodes[node].sockets[addr.port].wakers.contains(waiting),
    ensures
        ({
            let after = net.woken(current, addr, tcp_id);
            let woken = net.waiting(current, addr, tcp_id);
            &&& connection_of(waiting.0) == tcp_id ==> woken.contains(waiting.1)
            &&& connection_of(waiting.0) != tcp_id
                ==> after.nodes[node].sockets[addr.port].wakers.contains(waiting)
            &&& woken.len() + after.nodes[node].sockets[addr.port].wakers.len()
                == net.nodes[node].sockets[addr.port].wakers.len()
            &&& after.nodes[node].sockets[addr.port].msgs
                == net.nodes[node].sockets[addr.port].msgs
            &&& after.nodes[node].sockets[addr.port].registered
                == net.nodes[node].sockets[addr.port].registered
            &&& after.nodes[node].sockets[addr.port].id == net.nodes[node].sockets[addr.port].id
            &&& after.has_socket(other, p) <==> net.has_socket(other, p)
            &&& net.has_socket(other, p) && (other, p) != (node, addr.port)
                ==> after.nodes[other].sockets[p] == net.nodes[other].sockets[p]
            &&& net.nodes.contains_key(other) ==> after.nodes[other].live_tcp_ids
                == net.nodes[other].live_tcp_ids
        }),
{
    broadcast use vstd::seq_lib::group_to_multiset_ensures;

    let wakers = net.nodes[node].sockets[addr.port].wakers;
    let key = WakeKey::Connection(tcp_id);
    lemma_kept_or_woken(wakers, key, waiting);
    crate::net::mailbox::law_waking_parts_the_wakers(wakers, key);
    let (left, woken) = (wakers_left(wakers, key), wakers_woken(wakers, key));
    assert(left.to_multiset().len() + woken.to_multiset().len() == wakers.to_multiset().len());
    if connection_of(waiting.0) != tcp_id {
        assert(wakers.to_multiset().count(waiting) > 0);
        if woken.to_multiset().count(waiting) > 0 {
            let i: int = choose|i: int| 0 <= i < woken.len() && woken[i] == waiting;
            assert(woken.contains(waiting));
            assert(key.covers(woken[i].0));
        }
        assert(left.to_multiset().count(waiting) > 0);
        assert(left.contains(waiting));
    }
}

} // verus!
