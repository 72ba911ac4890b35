//! Simulation configuration.

use crate::net::config::{LatencyDistribution, NetworkConfig};
use vstd::prelude::*;

verus! {

/// Simulation configuration.
#[derive(Clone)]
pub struct SimConfig {
    /// Network configurations.
    pub net: NetworkConfig,
}

impl Default for SimConfig {
    fn default() -> (r: SimConfig)
        ensures
            r.net.wf(),
            r.net.latency.default_latency matches LatencyDistribution::Uniform(range)
                && range.start.nanos == 1_000_000 && range.end.nanos == 10_000_000,
            r.net.latency.loopback_latency matches LatencyDistribution::Uniform(range)
                && range.start.nanos == 1_000 && range.end.nanos == 10_000,
            r.net.latency.inter_node_latency is None,
            r.net.packet_loss.default_packet_loss_rate.numerator == 0,
            r.net.packet_loss.loopback_packet_loss_rate.numerator == 0,
            r.net.packet_loss.node_packet_loss_rate is None,
            r.net.tcp_packet_loss.default_packet_loss_rate.numerator == 0,
            r.net.tcp_packet_loss.loopback_packet_loss_rate.numerator == 0,
            r.net.tcp_packet_loss.node_packet_loss_rate is None,
    {
        SimConfig { net: NetworkConfig::default() }
    }
}

/// Configuration for a series of tests.
#[derive(Clone)]
pub struct TestConfig {
    /// The test will be repeated N times with each config.
    pub configs: Vec<(usize, SimConfig)>,
}

impl From<SimConfig> for TestConfig {
    fn from(config: SimConfig) -> (r: TestConfig)
        ensures
            r.configs@ == seq![(1usize, config)],
    {
        let mut configs: Vec<(usize, SimConfig)> = Vec::new();
        configs.push((1, config));
        TestConfig { configs }
    }
}

impl vstd::std_specs::convert::FromSpecImpl<SimConfig> for TestConfig {
    open spec fn obeys_from_spec() -> bool {
        false
    }

    open spec fn from_spec(config: SimConfig) -> TestConfig {
        arbitrary()
    }
}

impl From<Vec<SimConfig>> for TestConfig {
    fn from(config: Vec<SimConfig>) -> (r: TestConfig)
        ensures
            r.configs@ == config@.map_values(|c: SimConfig| (1usize, c)),
    {
        let ghost given = config@;
        let ghost f = |c: SimConfig| (1usize, c);
        let mut config = config;
        let mut configs: Vec<(usize, SimConfig)> = Vec::new();
        while config.len() > 0
            invariant
                configs@.len() <= given.len(),
                config@ == given.skip(configs@.len() as int),
                f == (|c: SimConfig| (1usize, c)),
                configs@ == given.take(configs@.len() as int).map_values(f),
            decreases config@.len(),
        {
            let ghost done: int = configs@.len() as int;
            configs.push((1, config.remove(0)));
            assert(given.take(done + 1).map_values(f) =~= given.take(done).map_values(f).push(
                f(given[done]),
            ));
            assert(config@ =~= given.skip(done + 1));
        }
        assert(given.take(configs@.len() as int) =~= given);
        TestConfig { configs }
    }
}

impl vstd::std_specs::convert::FromSpecImpl<Vec<SimConfig>> for TestConfig {
    open spec fn obeys_from_spec() -> bool {
        false
    }

    open spec fn from_spec(config: Vec<SimConfig>) -> TestConfig {
        arbitrary()
    }
}

impl From<Vec<(usize, SimConfig)>> for TestConfig {
    fn from(configs: Vec<(usize, SimConfig)>) -> (r: TestConfig)
        ensures
            r == (TestConfig { configs }),
    {
        TestConfig { configs }
    }
}

impl vstd::std_specs::convert::FromSpecImpl<Vec<(usize, SimConfig)>> for TestConfig {
    open spec fn obeys_from_spec() -> bool {
        true
    }

    open spec fn from_spec(configs: Vec<(usize, SimConfig)>) -> TestConfig {
        TestConfig { configs }
    }
}

} // verus!
