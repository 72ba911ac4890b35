//! Network configuration.

use crate::random::{total_weight, GlobalRng};
use crate::task::NodeId;
use crate::time::duration::Duration;
use std::collections::HashMap;
use std::ops::Range;
use std::sync::Arc;
use vstd::prelude::*;

verus! {

broadcast use vstd::std_specs::hash::group_hash_axioms;

/// Defines a latency distribution.
#[derive(Debug, PartialEq, Hash)]
pub enum LatencyDistribution {
    /// A constant, unvarying distribution.
    Constant(Duration),
    /// A uniform distribution.
    Uniform(Range<Duration>),
    /// A compound weighted distribution.
    Compound(Vec<(u32, Box<LatencyDistribution>)>),
}

impl LatencyDistribution {
    /// A latency can be drawn: a range is not empty and ends at a representable span, and a
    /// compound has some weight, no more than 32 bits hold, on parts that can be drawn from.
    pub open spec fn wf(&self) -> bool
        decreases self,
    {
        match *self {
            LatencyDistribution::Constant(latency) => true,
            LatencyDistribution::Uniform(range) => range.start.nanos < range.end.nanos
                && range.end.wf(),
            LatencyDistribution::Compound(parts) => {
                &&& 0 < total_weight(parts@) <= u32::MAX
                &&& forall|i: int|
                    0 <= i < parts@.len() && parts@[i].0 > 0 ==> (#[trigger] parts@[i].1).wf()
            },
        }
    }

    /// `latency` can come out of a draw.
    pub open spec fn may_sample(&self, latency: Duration) -> bool
        decreases self,
    {
        match *self {
            LatencyDistribution::Constant(constant) => latency == constant,
            LatencyDistribution::Uniform(range) => range.start.nanos <= latency.nanos
                < range.end.nanos,
            LatencyDistribution::Compound(parts) => exists|i: int|
                0 <= i < parts@.len() && parts@[i].0 > 0 && (#[trigger] parts@[i].1).may_sample(
                    latency,
                ),
        }
    }

    /// `latency` was drawn from `rng`, which is `after` then. Of a compound, one of its parts was
    /// drawn first.
    pub open spec fn has_sampled(
        &self,
        rng: GlobalRng,
        latency: Duration,
        after: GlobalRng,
    ) -> bool
        decreases self,
    {
        match *self {
            LatencyDistribution::Constant(constant) => latency == constant && after == rng,
            LatencyDistribution::Uniform(range) => rng.gave_span(
                range.start,
                range.end,
                latency,
                after,
            ),
            LatencyDistribution::Compound(parts) => exists|i: int, chosen: GlobalRng|
                0 <= i < parts@.len() && #[trigger] rng.gave_weighted(&parts, &parts@[i], chosen)
                    && parts@[i].1.has_sampled(chosen, latency, after),
        }
    }

    /// The two distributions are built alike, from equal spans and weights.
    pub open spec fn same(&self, other: &LatencyDistribution) -> bool
        decreases self,
    {
        match (*self, *other) {
            (LatencyDistribution::Constant(a), LatencyDistribution::Constant(b)) => a == b,
            (LatencyDistribution::Uniform(a), LatencyDistribution::Uniform(b)) => a == b,
            (LatencyDistribution::Compound(a), LatencyDistribution::Compound(b)) => {
                &&& a@.len() == b@.len()
                &&& forall|i: int|
                    0 <= i < a@.len() ==> (#[trigger] a@[i]).0 == b@[i].0 && a@[i].1.same(
                        &*b@[i].1,
                    )
            },
            _ => false,
        }
    }

    /// Constructs a uniform distribution.
    pub fn uniform(range: Range<Duration>) -> (r: LatencyDistribution)
        ensures
            r == LatencyDistribution::Uniform(range),
    {
        LatencyDistribution::Uniform(range)
    }

    /// Constructs a compound distribution which selects from a weighted set of distributions.
    /// The weights are in ten-thousandths.
    pub fn compound(parts: Vec<(u32, LatencyDistribution)>) -> (r: LatencyDistribution)
        ensures
            r matches LatencyDistribution::Compound(boxed) && boxed@.len() == parts@.len() && (
            forall|i: int|
                0 <= i < parts@.len() ==> (#[trigger] boxed@[i]).0 == parts@[i].0 && *boxed@[i].1
                    == parts@[i].1),
    {
        let ghost given = parts@;
        let mut parts = parts;
        let mut boxed: Vec<(u32, Box<LatencyDistribution>)> = Vec::new();
        while parts.len() > 0
            invariant
                parts@ == given.skip(boxed@.len() as int),
                boxed@.len() <= given.len(),
                forall|i: int|
                    0 <= i < boxed@.len() ==> (#[trigger] boxed@[i]).0 == given[i].0 && *boxed@[i].1
                        == given[i].1,
            decreases parts@.len(),
        {
            let (weight, part): (u32, LatencyDistribution) = parts.remove(0);
            boxed.push((weight, Box::new(part)));
            assert(parts@ =~= given.skip(boxed@.len() as int));
        }
        LatencyDistribution::Compound(boxed)
    }

    /// Makes a bimodal distribution: `freq` ten-thousandths of all latencies come from
    /// `exceptional`, the others from `main`.
    pub fn bimodal(main: Range<Duration>, exceptional: Range<Duration>, freq: u32) -> (r:
        LatencyDistribution)
        requires
            freq <= 10_000,
        ensures
            r matches LatencyDistribution::Compound(parts) && parts@.len() == 2 && parts@[0].0
                == 10_000 - freq && *parts@[0].1 == LatencyDistribution::Uniform(main)
                && parts@[1].0 == freq && *parts@[1].1 == LatencyDistribution::Uniform(exceptional),
    {
        let mut parts: Vec<(u32, LatencyDistribution)> = Vec::new();
        parts.push((10_000 - freq, LatencyDistribution::uniform(main)));
        parts.push((freq, LatencyDistribution::uniform(exceptional)));
        LatencyDistribution::compound(parts)
    }

    /// A sample is drawn from the generator.
    pub open spec fn draws(&self) -> bool {
        !(*self is Constant)
    }

    /// Samples a latency.
    pub fn sample(&self, rng: &mut GlobalRng) -> (r: Duration)
        requires
            self.wf(),
        ensures
            self.may_sample(r),
            !self.draws() ==> *final(rng) == *old(rng),
            self.has_sampled(*old(rng), r, *final(rng)),
            final(rng).seed() == old(rng).seed(),
        decreases self,
    {
        match self {
            LatencyDistribution::Constant(latency) => *latency,
            LatencyDistribution::Uniform(range) => rng.gen_duration(range.start, range.end),
            LatencyDistribution::Compound(parts) => {
                let part = rng.choose_weighted(parts);
                let ghost chosen = *rng;
                proof {
                    let i: int = choose|i: int| 0 <= i < parts@.len() && parts@[i] == *part;
                    assert(old(rng).gave_weighted(parts, &parts@[i], chosen));
                }
                part.1.sample(rng)
            },
        }
    }
}

impl Clone for LatencyDistribution {
    fn clone(&self) -> (r: LatencyDistribution)
        ensures
            self.same(&r),
        decreases self,
    {
        match self {
            LatencyDistribution::Constant(latency) => LatencyDistribution::Constant(*latency),
            LatencyDistribution::Uniform(range) => LatencyDistribution::Uniform(
                Range { start: range.start, end: range.end },
            ),
            LatencyDistribution::Compound(parts) => {
                let mut copies: Vec<(u32, Box<LatencyDistribution>)> = Vec::new();
                let mut i: usize = 0;
                while i < parts.len()
                    invariant
                        i <= parts@.len(),
                        *self == LatencyDistribution::Compound(*parts),
                        copies@.len() == i,
                        forall|j: int|
                            0 <= j < i ==> (#[trigger] parts@[j]).0 == copies@[j].0
                                && parts@[j].1.same(&*copies@[j].1),
                    decreases parts@.len() - i,
                {
                    assert(decreases_to!(self => self->Compound_0@[i as int].1));
                    let part: &LatencyDistribution = &parts[i].1;
                    let copy: LatencyDistribution = part.clone();
                    copies.push((parts[i].0, Box::new(copy)));
                    i = i + 1;
                }
                LatencyDistribution::Compound(copies)
            },
        }
    }
}

/// Every latency of a bimodal distribution lies in one of its two ranges.
pub proof fn law_bimodal_stays_in_its_ranges(
    dist: LatencyDistribution,
    main: Range<Duration>,
    exceptional: Range<Duration>,
    latency: Duration,
)
    requires
        dist matches LatencyDistribution::Compound(parts) && parts@.len() == 2 && *parts@[0].1
            == LatencyDistribution::Uniform(main) && *parts@[1].1 == LatencyDistribution::Uniform(
            exceptional,
        ),
        dist.may_sample(latency),
    ensures
        main.start.nanos <= latency.nanos < main.end.nanos || exceptional.start.nanos
            <= latency.nanos < exceptional.end.nanos,
{
    let parts = dist->Compound_0@;
    let i: int = choose|i: int|
        0 <= i < parts.len() && parts[i].0 > 0 && (#[trigger] parts[i].1).may_sample(latency);
    assert(parts[i].1.may_sample(latency));
    assert(i == 0 || i == 1);
}

/// Latency between two nodes.
pub trait InterNodeLatency: Send + Sync {
    /// A latency can be drawn for any two nodes.
    spec fn wf(&self) -> bool;

    /// `latency` can come out of a draw for a packet from `a` to `b`.
    spec fn may_sample(&self, a: NodeId, b: NodeId, latency: Option<Duration>) -> bool;

    /// A sample for a packet from `a` to `b` is drawn from the generator.
    spec fn draws(&self, a: NodeId, b: NodeId) -> bool;

    /// `latency` was drawn from `rng` for a packet from `a` to `b`, and `rng` is `after` then.
    spec fn has_sampled(
        &self,
        rng: GlobalRng,
        a: NodeId,
        b: NodeId,
        latency: Option<Duration>,
        after: GlobalRng,
    ) -> bool;

    /// Gets the latency between `a` and `b`, or `None` to fall back to the default.
    fn sample(&self, rng: &mut GlobalRng, a: NodeId, b: NodeId) -> (r: Option<Duration>)
        requires
            self.wf(),
        ensures
            self.may_sample(a, b, r),
            self.has_sampled(*old(rng), a, b, r, *final(rng)),
            !self.draws(a, b) ==> *final(rng) == *old(rng),
            final(rng).seed() == old(rng).seed(),
    ;
}

/// The number under which the link from `a` to `b` is filed.
pub open spec fn link_number(a: NodeId, b: NodeId) -> u128 {
    (a.0 as int * 0x1_0000_0000_0000_0000 + b.0 as int) as u128
}

/// Different links have different numbers.
proof fn lemma_link_number(a: NodeId, b: NodeId, c: NodeId, d: NodeId)
    ensures
        link_number(a, b) == link_number(c, d) <==> (a, b) == (c, d),
        link_number(a, b) as int == a.0 as int * 0x1_0000_0000_0000_0000 + b.0 as int,
{
}

/// The link from `a` to `b` as a number.
fn link_key(a: NodeId, b: NodeId) -> (r: u128)
    ensures
        r == link_number(a, b),
{
    a.0 as u128 * 0x1_0000_0000_0000_0000 + b.0 as u128
}

/// Defines latency between pairs of nodes.
pub struct InterNodeLatencyMap {
    links: HashMap<u128, Arc<LatencyDistribution>>,
}

impl View for InterNodeLatencyMap {
    type V = Map<(NodeId, NodeId), LatencyDistribution>;

    closed spec fn view(&self) -> Map<(NodeId, NodeId), LatencyDistribution> {
        Map::new(
            |link: (NodeId, NodeId)| self.links@.contains_key(link_number(link.0, link.1)),
            |link: (NodeId, NodeId)| *self.links@[link_number(link.0, link.1)],
        )
    }
}

impl InterNodeLatencyMap {
    /// A map without any link.
    pub fn new() -> (r: InterNodeLatencyMap)
        ensures
            r@ == Map::<(NodeId, NodeId), LatencyDistribution>::empty(),
    {
        let r = InterNodeLatencyMap { links: HashMap::new() };
        assert(r@ =~= Map::empty());
        r
    }

    /// Adds a latency distribution for both directions of a link.
    pub fn with_symmetric_link(self, a: NodeId, b: NodeId, dist: LatencyDistribution) -> (r:
        InterNodeLatencyMap)
        ensures
            r@ == self@.insert((a, b), dist).insert((b, a), dist),
    {
        let mut links = self.links;
        let shared = Arc::new(dist);
        links.insert(link_key(a, b), shared.clone());
        links.insert(link_key(b, a), shared);
        let r = InterNodeLatencyMap { links };
        proof {
            assert forall|link: (NodeId, NodeId)| #![auto] true implies (link_number(link.0, link.1)
                == link_number(a, b) <==> link == (a, b)) && (link_number(link.0, link.1)
                == link_number(b, a) <==> link == (b, a)) by {
                lemma_link_number(link.0, link.1, a, b);
                lemma_link_number(link.0, link.1, b, a);
            }
            assert(r@ =~= self@.insert((a, b), dist).insert((b, a), dist));
        }
        r
    }

    /// The distribution of the link from `a` to `b`.
    fn get(&self, a: NodeId, b: NodeId) -> (r: Option<&LatencyDistribution>)
        ensures
            r == (if self@.contains_key((a, b)) {
                Some(&self@[(a, b)])
            } else {
                None
            }),
    {
        match self.links.get(&link_key(a, b)) {
            Some(dist) => Some(&**dist),
            None => None,
        }
    }
}

impl Default for InterNodeLatencyMap {
    fn default() -> (r: InterNodeLatencyMap)
        ensures
            r@ == Map::<(NodeId, NodeId), LatencyDistribution>::empty(),
    {
        InterNodeLatencyMap::new()
    }
}

impl InterNodeLatency for InterNodeLatencyMap {
    open spec fn wf(&self) -> bool {
        forall|link: (NodeId, NodeId)|
            self@.contains_key(link) ==> (#[trigger] self@[link]).wf()
    }

    /// The link from `a` to `b` counts first, then the one from `b` to `a`.
    open spec fn may_sample(&self, a: NodeId, b: NodeId, latency: Option<Duration>) -> bool {
        if self@.contains_key((a, b)) {
            latency matches Some(d) && self@[(a, b)].may_sample(d)
        } else if self@.contains_key((b, a)) {
            latency matches Some(d) && self@[(b, a)].may_sample(d)
        } else {
            latency is None
        }
    }

    /// Nothing is drawn unless the map holds the link, with a distribution that is not constant.
    open spec fn draws(&self, a: NodeId, b: NodeId) -> bool {
        if self@.contains_key((a, b)) {
            self@[(a, b)].draws()
        } else {
            self@.contains_key((b, a)) && self@[(b, a)].draws()
        }
    }

    open spec fn has_sampled(
        &self,
        rng: GlobalRng,
        a: NodeId,
        b: NodeId,
        latency: Option<Duration>,
        after: GlobalRng,
    ) -> bool {
        if self@.contains_key((a, b)) {
            latency matches Some(d) && self@[(a, b)].has_sampled(rng, d, after)
        } else if self@.contains_key((b, a)) {
            latency matches Some(d) && self@[(b, a)].has_sampled(rng, d, after)
        } else {
            latency is None && after == rng
        }
    }

    fn sample(&self, rng: &mut GlobalRng, a: NodeId, b: NodeId) -> (r: Option<Duration>) {
        // We try (a, b) first, then (b, a) - this way you can have asymmetric latency if you
        // want, but you get symmetric by default.
        if let Some(dist) = self.get(a, b) {
            return Some(dist.sample(rng));
        }
        if let Some(dist) = self.get(b, a) {
            return Some(dist.sample(rng));
        }
        None
    }
}

/// A map that was built from symmetric links alone gives both directions the same latencies.
pub proof fn law_symmetric_links_are_symmetric(
    map: InterNodeLatencyMap,
    linked: InterNodeLatencyMap,
    a: NodeId,
    b: NodeId,
    dist: LatencyDistribution,
    c: NodeId,
    d: NodeId,
    latency: Option<Duration>,
)
    requires
        forall|x: NodeId, y: NodeId, l: Option<Duration>|
            map.may_sample(x, y, l) <==> #[trigger] map.may_sample(y, x, l),
        linked@ == map@.insert((a, b), dist).insert((b, a), dist),
    ensures
        linked.may_sample(c, d, latency) <==> linked.may_sample(d, c, latency),
{
    assert(map.may_sample(c, d, latency) <==> map.may_sample(d, c, latency));
}

/// Defines latency from a given node to anywhere else. If a and b are
/// both in the map, both distributions are sampled and the max is taken.
pub struct NodeLatencyMap {
    nodes: HashMap<u64, LatencyDistribution>,
}

impl View for NodeLatencyMap {
    type V = Map<u64, LatencyDistribution>;

    closed spec fn view(&self) -> Map<u64, LatencyDistribution> {
        self.nodes@
    }
}

impl NodeLatencyMap {
    /// A map without any node.
    pub fn new() -> (r: NodeLatencyMap)
        ensures
            r@ == Map::<u64, LatencyDistribution>::empty(),
    {
        NodeLatencyMap { nodes: HashMap::new() }
    }

    /// Adds a latency distribution for a specific node.
    pub fn with_node(self, node: NodeId, dist: LatencyDistribution) -> (r: NodeLatencyMap)
        ensures
            r@ == self@.insert(node.0, dist),
    {
        let mut nodes = self.nodes;
        nodes.insert(node.0, dist);
        NodeLatencyMap { nodes }
    }
}

impl Default for NodeLatencyMap {
    fn default() -> (r: NodeLatencyMap)
        ensures
            r@ == Map::<u64, LatencyDistribution>::empty(),
    {
        NodeLatencyMap::new()
    }
}

/// `longest` is the longer of a latency of `a` and one of `b`.
pub open spec fn may_be_longest(
    a: LatencyDistribution,
    b: LatencyDistribution,
    longest: Duration,
) -> bool {
    exists|x: Duration, y: Duration|
        #![trigger a.may_sample(x), b.may_sample(y)]
        a.may_sample(x) && b.may_sample(y) && x.nanos <= longest.nanos && y.nanos <= longest.nanos
            && (longest == x || longest == y)
}

/// `longest` is the longer of a latency that was drawn from `rng` for `a` and one that was drawn
/// next for `b`, and the generator is `after` then.
pub open spec fn has_drawn_longest(
    a: LatencyDistribution,
    b: LatencyDistribution,
    rng: GlobalRng,
    longest: Duration,
    after: GlobalRng,
) -> bool {
    exists|x: Duration, between: GlobalRng, y: Duration|
        #![trigger a.has_sampled(rng, x, between), b.has_sampled(between, y, after)]
        a.has_sampled(rng, x, between) && b.has_sampled(between, y, after) && x.nanos
            <= longest.nanos && y.nanos <= longest.nanos && (longest == x || longest == y)
}

impl InterNodeLatency for NodeLatencyMap {
    open spec fn wf(&self) -> bool {
        forall|node: u64| self@.contains_key(node) ==> (#[trigger] self@[node]).wf()
    }

    /// The distributions of both ends count, as far as the map holds them; of two latencies the
    /// longer.
    open spec fn may_sample(&self, a: NodeId, b: NodeId, latency: Option<Duration>) -> bool {
        if self@.contains_key(a.0) && self@.contains_key(b.0) {
            latency matches Some(d) && may_be_longest(self@[a.0], self@[b.0], d)
        } else if self@.contains_key(a.0) {
            latency matches Some(d) && self@[a.0].may_sample(d)
        } else if self@.contains_key(b.0) {
            latency matches Some(d) && self@[b.0].may_sample(d)
        } else {
            latency is None
        }
    }

    /// Nothing is drawn unless the map holds one of the ends, with a distribution that is not
    /// constant.
    open spec fn draws(&self, a: NodeId, b: NodeId) -> bool {
        ||| self@.contains_key(a.0) && self@[a.0].draws()
        ||| self@.contains_key(b.0) && self@[b.0].draws()
    }

    /// The latency of the sender is drawn first.
    open spec fn has_sampled(
        &self,
        rng: GlobalRng,
        a: NodeId,
        b: NodeId,
        latency: Option<Duration>,
        after: GlobalRng,
    ) -> bool {
        if self@.contains_key(a.0) && self@.contains_key(b.0) {
            latency matches Some(d) && has_drawn_longest(self@[a.0], self@[b.0], rng, d, after)
        } else if self@.contains_key(a.0) {
            latency matches Some(d) && self@[a.0].has_sampled(rng, d, after)
        } else if self@.contains_key(b.0) {
            latency matches Some(d) && self@[b.0].has_sampled(rng, d, after)
        } else {
            latency is None && after == rng
        }
    }

    fn sample(&self, rng: &mut GlobalRng, a: NodeId, b: NodeId) -> (r: Option<Duration>) {
        assert(self@.contains_key(a.0) ==> self@[a.0].wf());
        assert(self@.contains_key(b.0) ==> self@[b.0].wf());
        match (self.nodes.get(&a.0), self.nodes.get(&b.0)) {
            (Some(from), Some(to)) => {
                let x: Duration = from.sample(rng);
                let ghost between = *rng;
                let y: Duration = to.sample(rng);
                assert(from.may_sample(x) && to.may_sample(y));
                assert(from.has_sampled(*old(rng), x, between) && to.has_sampled(
                    between,
                    y,
                    *rng,
                ));
                Some(x.longer(y))
            },
            (Some(from), None) => Some(from.sample(rng)),
            (None, Some(to)) => Some(to.sample(rng)),
            (None, None) => None,
        }
    }
}

/// Latency configuration.
#[derive(Clone)]
pub struct LatencyConfig {
    /// The latency range of sending packets between nodes.
    pub default_latency: LatencyDistribution,
    /// Latency for sending a packet to yourself.
    pub loopback_latency: LatencyDistribution,
    /// Latency distributions to use between two specified nodes.
    pub inter_node_latency: Option<Arc<dyn InterNodeLatency>>,
}

impl LatencyConfig {
    /// A latency can be drawn for any two nodes.
    pub open spec fn wf(&self) -> bool {
        &&& self.default_latency.wf()
        &&& self.loopback_latency.wf()
        &&& self.inter_node_latency matches Some(latency) ==> latency.wf()
    }

    /// A packet from `a` to `b` can take `latency`.
    pub open spec fn may_take(&self, a: NodeId, b: NodeId, latency: Duration) -> bool {
        if a == b {
            self.loopback_latency.may_sample(latency)
        } else {
            match self.inter_node_latency {
                Some(between) => between.may_sample(a, b, Some(latency)) || (between.may_sample(
                    a,
                    b,
                    None,
                ) && self.default_latency.may_sample(latency)),
                None => self.default_latency.may_sample(latency),
            }
        }
    }

    /// A latency for a packet from `a` to `b` is drawn from the generator.
    pub open spec fn draws(&self, a: NodeId, b: NodeId) -> bool {
        if a == b {
            self.loopback_latency.draws()
        } else {
            match self.inter_node_latency {
                Some(between) => between.draws(a, b) || (between.may_sample(a, b, None)
                    && self.default_latency.draws()),
                None => self.default_latency.draws(),
            }
        }
    }

    /// `latency` was drawn from `rng` for a packet from `a` to `b`, and `rng` is `after` then. What
    /// is configured between the two nodes is asked first.
    pub open spec fn has_taken(
        &self,
        rng: GlobalRng,
        a: NodeId,
        b: NodeId,
        latency: Duration,
        after: GlobalRng,
    ) -> bool {
        if a == b {
            self.loopback_latency.has_sampled(rng, latency, after)
        } else {
            match self.inter_node_latency {
                Some(between) => between.has_sampled(rng, a, b, Some(latency), after) || exists|
                    asked: GlobalRng,
                | #[trigger]
                    between.has_sampled(rng, a, b, None, asked)
                        && self.default_latency.has_sampled(asked, latency, after),
                None => self.default_latency.has_sampled(rng, latency, after),
            }
        }
    }

    /// Gets the latency between two nodes for a single packet.
    pub fn get_latency(&self, rng: &mut GlobalRng, a: NodeId, b: NodeId) -> (r: Duration)
        requires
            self.wf(),
        ensures
            self.may_take(a, b, r),
            self.has_taken(*old(rng), a, b, r, *final(rng)),
            !self.draws(a, b) ==> *final(rng) == *old(rng),
            final(rng).seed() == old(rng).seed(),
    {
        if a == b {
            return self.loopback_latency.sample(rng);
        }
        let between: Option<Duration> = match &self.inter_node_latency {
            Some(latency) => latency.sample(rng, a, b),
            None => None,
        };
        match between {
            Some(latency) => latency,
            None => self.default_latency.sample(rng),
        }
    }
}

impl Default for LatencyConfig {
    fn default() -> (r: LatencyConfig)
        ensures
            r.wf(),
            r.default_latency matches LatencyDistribution::Uniform(range) && range.start.nanos
                == 1_000_000 && range.end.nanos == 10_000_000,
            r.loopback_latency matches LatencyDistribution::Uniform(range) && range.start.nanos
                == 1_000 && range.end.nanos == 10_000,
            r.inter_node_latency is None,
    {
        LatencyConfig {
            default_latency: LatencyDistribution::Uniform(
                Range { start: Duration::from_millis(1), end: Duration::from_millis(10) },
            ),
            loopback_latency: LatencyDistribution::Uniform(
                Range { start: Duration::from_micros(1), end: Duration::from_micros(10) },
            ),
            inter_node_latency: None,
        }
    }
}

/// A probability: `numerator` in `denominator`.
#[derive(Debug, Clone, Copy, PartialEq, Eq, Structural)]
pub struct LossRate {
    /// How many packets of `denominator` are lost.
    pub numerator: u32,
    /// How many packets are counted.
    pub denominator: u32,
}

impl LossRate {
    /// The ratio is one between zero and one.
    pub open spec fn wf(self) -> bool {
        0 < self.denominator && self.numerator <= self.denominator
    }

    /// The probability is at least that of `other`.
    pub open spec fn at_least(self, other: LossRate) -> bool {
        self.numerator * other.denominator >= other.numerator * self.denominator
    }

    /// Chance may decide for `lost` at this rate.
    pub open spec fn may_lose(self, lost: bool) -> bool {
        &&& self.numerator == 0 ==> !lost
        &&& self.numerator == self.denominator ==> lost
    }

    /// No packet is ever lost.
    pub fn never() -> (r: LossRate)
        ensures
            r == (LossRate { numerator: 0, denominator: 1 }),
    {
        LossRate { numerator: 0, denominator: 1 }
    }

    /// The higher of two probabilities.
    pub fn higher(self, other: LossRate) -> (r: LossRate)
        ensures
            r == self || r == other,
            r.at_least(self),
            r.at_least(other),
    {
        proof {
            assert(self.numerator as int * other.denominator as int <= 0xffff_ffff * 0xffff_ffff)
                by (nonlinear_arith)
                requires
                    self.numerator <= 0xffff_ffff,
                    other.denominator <= 0xffff_ffff,
            ;
            assert(other.numerator as int * self.denominator as int <= 0xffff_ffff * 0xffff_ffff)
                by (nonlinear_arith)
                requires
                    other.numerator <= 0xffff_ffff,
                    self.denominator <= 0xffff_ffff,
            ;
        }
        if self.numerator as u64 * other.denominator as u64 > other.numerator as u64
            * self.denominator as u64 {
            self
        } else {
            other
        }
    }
}

/// Packet loss probability between two nodes.
pub trait NodePacketLoss: Send + Sync {
    /// A rate can be given for any two nodes.
    spec fn wf(&self) -> bool;

    /// `rate` can be given for packets from `a` to `b`.
    spec fn may_rate(&self, a: NodeId, b: NodeId, rate: Option<LossRate>) -> bool;

    /// The rate for packets from `a` to `b` is drawn from the generator.
    spec fn draws(&self, a: NodeId, b: NodeId) -> bool;

    /// `rate` was given for packets from `a` to `b` with `rng`, which is `after` then.
    spec fn has_rated(
        &self,
        rng: GlobalRng,
        a: NodeId,
        b: NodeId,
        rate: Option<LossRate>,
        after: GlobalRng,
    ) -> bool;

    /// Returns the packet loss probability between two nodes, or `None` to fall back to the
    /// default.
    fn packet_loss_rate(&self, rng: &mut GlobalRng, a: NodeId, b: NodeId) -> (r: Option<LossRate>)
        requires
            self.wf(),
        ensures
            self.may_rate(a, b, r),
            self.has_rated(*old(rng), a, b, r, *final(rng)),
            r matches Some(rate) ==> rate.wf(),
            !self.draws(a, b) ==> *final(rng) == *old(rng),
            final(rng).seed() == old(rng).seed(),
    ;
}

/// Defines probability of dropping a packet sent or received by a node.
/// If both sender and receiver appear in the map we use the higher probability.
pub struct NodePacketLossMap(pub HashMap<u64, LossRate>);

impl NodePacketLoss for NodePacketLossMap {
    open spec fn wf(&self) -> bool {
        forall|node: u64| self.0@.contains_key(node) ==> (#[trigger] self.0@[node]).wf()
    }

    open spec fn may_rate(&self, a: NodeId, b: NodeId, rate: Option<LossRate>) -> bool {
        if self.0@.contains_key(a.0) && self.0@.contains_key(b.0) {
            rate matches Some(r) && (r == self.0@[a.0] || r == self.0@[b.0]) && r.at_least(
                self.0@[a.0],
            ) && r.at_least(self.0@[b.0])
        } else if self.0@.contains_key(a.0) {
            rate == Some(self.0@[a.0])
        } else if self.0@.contains_key(b.0) {
            rate == Some(self.0@[b.0])
        } else {
            rate is None
        }
    }

    /// The rates are fixed.
    open spec fn draws(&self, a: NodeId, b: NodeId) -> bool {
        false
    }

    open spec fn has_rated(
        &self,
        rng: GlobalRng,
        a: NodeId,
        b: NodeId,
        rate: Option<LossRate>,
        after: GlobalRng,
    ) -> bool {
        self.may_rate(a, b, rate) && after == rng
    }

    fn packet_loss_rate(&self, rng: &mut GlobalRng, a: NodeId, b: NodeId) -> (r: Option<
        LossRate,
    >) {
        match (self.0.get(&a.0), self.0.get(&b.0)) {
            (Some(from), Some(to)) => Some(from.higher(*to)),
            (Some(from), None) => Some(*from),
            (None, Some(to)) => Some(*to),
            (None, None) => None,
        }
    }
}

/// Packet loss configuration.
#[derive(Clone)]
pub struct PacketLossConfig {
    /// Default loopback packet loss probability.
    pub loopback_packet_loss_rate: LossRate,
    /// Default network packet loss probability.
    pub default_packet_loss_rate: LossRate,
    /// Packet loss probability between two nodes.
    pub node_packet_loss_rate: Option<Arc<dyn NodePacketLoss>>,
}

impl PacketLossConfig {
    /// A rate can be given for any two nodes.
    pub open spec fn wf(&self) -> bool {
        &&& self.loopback_packet_loss_rate.wf()
        &&& self.default_packet_loss_rate.wf()
        &&& self.node_packet_loss_rate matches Some(loss) ==> loss.wf()
    }

    /// Packets from `a` to `b` can be lost at `rate`.
    pub open spec fn may_rate(&self, a: NodeId, b: NodeId, rate: LossRate) -> bool {
        if a == b {
            rate == self.loopback_packet_loss_rate
        } else {
            match self.node_packet_loss_rate {
                Some(loss) => loss.may_rate(a, b, Some(rate)) || (loss.may_rate(a, b, None) && rate
                    == self.default_packet_loss_rate),
                None => rate == self.default_packet_loss_rate,
            }
        }
    }

    /// Chance may decide for `lost` on a packet from `a` to `b`.
    pub open spec fn may_lose(&self, a: NodeId, b: NodeId, lost: bool) -> bool {
        exists|rate: LossRate| #[trigger] self.may_rate(a, b, rate) && rate.may_lose(lost)
    }

    /// The rate for packets from `a` to `b` is drawn from the generator.
    pub open spec fn draws(&self, a: NodeId, b: NodeId) -> bool {
        a != b && (self.node_packet_loss_rate matches Some(loss) && loss.draws(a, b))
    }

    /// `rate` was given for packets from `a` to `b` with `rng`, which is `after` then.
    pub open spec fn has_rated(
        &self,
        rng: GlobalRng,
        a: NodeId,
        b: NodeId,
        rate: LossRate,
        after: GlobalRng,
    ) -> bool {
        if a == b {
            rate == self.loopback_packet_loss_rate && after == rng
        } else {
            match self.node_packet_loss_rate {
                Some(loss) => loss.has_rated(rng, a, b, Some(rate), after) || (loss.has_rated(
                    rng,
                    a,
                    b,
                    None,
                    after,
                ) && rate == self.default_packet_loss_rate),
                None => rate == self.default_packet_loss_rate && after == rng,
            }
        }
    }

    /// Gets the packet loss rate between two nodes.
    pub fn packet_loss_rate(&self, rng: &mut GlobalRng, a: NodeId, b: NodeId) -> (r: LossRate)
        requires
            self.wf(),
        ensures
            self.may_rate(a, b, r),
            self.has_rated(*old(rng), a, b, r, *final(rng)),
            !self.draws(a, b) ==> *final(rng) == *old(rng),
            final(rng).seed() == old(rng).seed(),
            r.wf(),
    {
        if a == b {
            return self.loopback_packet_loss_rate;
        }
        let between: Option<LossRate> = match &self.node_packet_loss_rate {
            Some(loss) => loss.packet_loss_rate(rng, a, b),
            None => None,
        };
        match between {
            Some(rate) => rate,
            None => self.default_packet_loss_rate,
        }
    }
}

impl Default for PacketLossConfig {
    fn default() -> (r: PacketLossConfig)
        ensures
            r.wf(),
            r.loopback_packet_loss_rate.numerator == 0,
            r.default_packet_loss_rate.numerator == 0,
            r.node_packet_loss_rate is None,
    {
        PacketLossConfig {
            loopback_packet_loss_rate: LossRate::never(),
            default_packet_loss_rate: LossRate::never(),
            node_packet_loss_rate: None,
        }
    }
}

/// Network configurations.
#[derive(Clone)]
pub struct NetworkConfig {
    /// Possibility of packet loss (for UDP connections only).
    pub packet_loss: PacketLossConfig,
    /// Packet loss for tcp causes the connection to be reset, hence has a different config.
    pub tcp_packet_loss: PacketLossConfig,
    /// Latency configuration.
    pub latency: LatencyConfig,
}

impl NetworkConfig {
    /// Every draw that a packet needs can be made.
    pub open spec fn wf(&self) -> bool {
        &&& self.packet_loss.wf()
        &&& self.tcp_packet_loss.wf()
        &&& self.latency.wf()
    }
}

impl Default for NetworkConfig {
    fn default() -> (r: NetworkConfig)
        ensures
            r.wf(),
            r.packet_loss.default_packet_loss_rate.numerator == 0,
            r.packet_loss.loopback_packet_loss_rate.numerator == 0,
            r.packet_loss.node_packet_loss_rate is None,
            r.tcp_packet_loss.default_packet_loss_rate.numerator == 0,
            r.tcp_packet_loss.loopback_packet_loss_rate.numerator == 0,
            r.tcp_packet_loss.node_packet_loss_rate is None,
            r.latency.default_latency matches LatencyDistribution::Uniform(range)
                && range.start.nanos == 1_000_000 && range.end.nanos == 10_000_000,
            r.latency.loopback_latency matches LatencyDistribution::Uniform(range)
                && range.start.nanos == 1_000 && range.end.nanos == 10_000,
            r.latency.inter_node_latency is None,
    {
        NetworkConfig {
            packet_loss: PacketLossConfig::default(),
            tcp_packet_loss: PacketLossConfig::default(),
            latency: LatencyConfig::default(),
        }
    }
}

/// With rates of zero everywhere no packet is lost.
pub proof fn law_no_loss_by_default(config: PacketLossConfig, a: NodeId, b: NodeId, lost: bool)
    requires
        config.loopback_packet_loss_rate.numerator == 0,
        config.default_packet_loss_rate.numerator == 0,
        config.node_packet_loss_rate is None,
        config.may_lose(a, b, lost),
    ensures
        !lost,
{
}

} // verus!
