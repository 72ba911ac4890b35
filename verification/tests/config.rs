use std::collections::HashMap;
use std::sync::Arc;

use msim::config::{SimConfig, TestConfig};
use msim::net::config::{
    InterNodeLatency, InterNodeLatencyMap, LatencyConfig, LatencyDistribution, LossRate,
    NodeLatencyMap, NodePacketLoss, NodePacketLossMap, PacketLossConfig,
};
use msim::random::GlobalRng;
use msim::task::NodeId;
use msim::time::duration::Duration;

fn ms(n: u64) -> Duration {
    Duration::from_millis(n)
}

fn constant(n: u64) -> LatencyDistribution {
    LatencyDistribution::Constant(ms(n))
}

#[test]
fn distributions_stay_in_their_ranges() {
    let mut rng = GlobalRng::new_with_seed(3);
    assert_eq!(constant(7).sample(&mut rng), ms(7));
    let uniform = LatencyDistribution::uniform(ms(1)..ms(3));
    let bimodal = LatencyDistribution::bimodal(ms(1)..ms(2), ms(50)..ms(60), 2_500);
    let mut exceptional = 0;
    for _ in 0..4000 {
        let latency = uniform.sample(&mut rng);
        assert!(latency >= ms(1) && latency < ms(3));
        let latency = bimodal.sample(&mut rng);
        if latency >= ms(2) {
            exceptional += 1;
            assert!(latency >= ms(50) && latency < ms(60));
        } else {
            assert!(latency >= ms(1));
        }
    }
    assert!((800..1200).contains(&exceptional));
    let never = LatencyDistribution::bimodal(ms(1)..ms(2), ms(50)..ms(60), 0);
    let always = LatencyDistribution::bimodal(ms(1)..ms(2), ms(50)..ms(60), 10_000);
    for _ in 0..100 {
        assert!(never.sample(&mut rng) < ms(2));
        assert!(always.sample(&mut rng) >= ms(50));
    }
    assert_eq!(bimodal.clone(), bimodal);
    assert_ne!(bimodal, never);
}

#[test]
fn constant_latencies_leave_the_generator_alone() {
    let mut rng = GlobalRng::new_with_seed(3);
    let mut other = GlobalRng::new_with_seed(3);
    constant(7).sample(&mut rng);
    assert_eq!(NodeLatencyMap::new().sample(&mut rng, NodeId(1), NodeId(2)), None);
    let map = NodeLatencyMap::new().with_node(NodeId(1), constant(2));
    assert_eq!(map.sample(&mut rng, NodeId(1), NodeId(2)), Some(ms(2)));
    let map = InterNodeLatencyMap::new().with_symmetric_link(NodeId(1), NodeId(2), constant(5));
    assert_eq!(map.sample(&mut rng, NodeId(2), NodeId(1)), Some(ms(5)));
    let map = NodePacketLossMap(HashMap::from([(1, rate(1, 3))]));
    assert_eq!(map.packet_loss_rate(&mut rng, NodeId(1), NodeId(2)), Some(rate(1, 3)));
    assert_eq!(rng.gen_u64(), other.gen_u64());
    // whereas this draws
    LatencyDistribution::uniform(ms(1)..ms(3)).sample(&mut rng);
    assert_ne!(rng.gen_u64(), other.gen_u64());
}

#[test]
fn compound_of_compounds() {
    let mut rng = GlobalRng::new_with_seed(3);
    let inner = LatencyDistribution::compound(vec![(1, constant(1)), (0, constant(2))]);
    let outer = LatencyDistribution::compound(vec![(0, constant(3)), (5, inner)]);
    for _ in 0..50 {
        assert_eq!(outer.sample(&mut rng), ms(1));
    }
}

#[test]
fn links_are_symmetric() {
    let mut rng = GlobalRng::new_with_seed(3);
    let map = InterNodeLatencyMap::new()
        .with_symmetric_link(NodeId(1), NodeId(2), constant(5))
        .with_symmetric_link(NodeId(2), NodeId(3), constant(6));
    assert_eq!(map.sample(&mut rng, NodeId(1), NodeId(2)), Some(ms(5)));
    assert_eq!(map.sample(&mut rng, NodeId(2), NodeId(1)), Some(ms(5)));
    assert_eq!(map.sample(&mut rng, NodeId(3), NodeId(2)), Some(ms(6)));
    assert_eq!(map.sample(&mut rng, NodeId(1), NodeId(3)), None);
}

#[test]
fn the_slower_node_counts() {
    let mut rng = GlobalRng::new_with_seed(3);
    let map = NodeLatencyMap::default()
        .with_node(NodeId(1), constant(5))
        .with_node(NodeId(2), constant(9));
    assert_eq!(map.sample(&mut rng, NodeId(1), NodeId(2)), Some(ms(9)));
    assert_eq!(map.sample(&mut rng, NodeId(2), NodeId(1)), Some(ms(9)));
    assert_eq!(map.sample(&mut rng, NodeId(1), NodeId(3)), Some(ms(5)));
    assert_eq!(map.sample(&mut rng, NodeId(3), NodeId(2)), Some(ms(9)));
    assert_eq!(map.sample(&mut rng, NodeId(3), NodeId(4)), None);
}

#[test]
fn latency_falls_back_to_the_default() {
    let mut rng = GlobalRng::new_with_seed(3);
    let map = InterNodeLatencyMap::default().with_symmetric_link(NodeId(1), NodeId(2), constant(5));
    let config = LatencyConfig {
        default_latency: constant(1),
        loopback_latency: constant(2),
        inter_node_latency: Some(Arc::new(map)),
    };
    assert_eq!(config.get_latency(&mut rng, NodeId(1), NodeId(2)), ms(5));
    assert_eq!(config.get_latency(&mut rng, NodeId(1), NodeId(3)), ms(1));
    assert_eq!(config.get_latency(&mut rng, NodeId(1), NodeId(1)), ms(2));
    let config = LatencyConfig::default();
    for _ in 0..100 {
        let latency = config.get_latency(&mut rng, NodeId(1), NodeId(2));
        assert!(latency >= ms(1) && latency < ms(10));
        let latency = config.get_latency(&mut rng, NodeId(1), NodeId(1));
        assert!(latency >= Duration::from_micros(1) && latency < Duration::from_micros(10));
    }
}

fn rate(numerator: u32, denominator: u32) -> LossRate {
    LossRate { numerator, denominator }
}

#[test]
fn the_higher_loss_rate_counts() {
    let mut rng = GlobalRng::new_with_seed(3);
    let map = NodePacketLossMap(HashMap::from([(1, rate(1, 3)), (2, rate(2, 5))]));
    assert_eq!(map.packet_loss_rate(&mut rng, NodeId(1), NodeId(2)), Some(rate(2, 5)));
    assert_eq!(map.packet_loss_rate(&mut rng, NodeId(2), NodeId(1)), Some(rate(2, 5)));
    assert_eq!(map.packet_loss_rate(&mut rng, NodeId(1), NodeId(3)), Some(rate(1, 3)));
    assert_eq!(map.packet_loss_rate(&mut rng, NodeId(3), NodeId(2)), Some(rate(2, 5)));
    assert_eq!(map.packet_loss_rate(&mut rng, NodeId(3), NodeId(4)), None);
    assert_eq!(rate(u32::MAX, u32::MAX).higher(rate(1, 2)), rate(u32::MAX, u32::MAX));

    let config = PacketLossConfig {
        loopback_packet_loss_rate: rate(1, 100),
        default_packet_loss_rate: rate(1, 10),
        node_packet_loss_rate: Some(Arc::new(map)),
    };
    assert_eq!(config.packet_loss_rate(&mut rng, NodeId(1), NodeId(2)), rate(2, 5));
    assert_eq!(config.packet_loss_rate(&mut rng, NodeId(3), NodeId(4)), rate(1, 10));
    assert_eq!(config.packet_loss_rate(&mut rng, NodeId(1), NodeId(1)), rate(1, 100));
    let config = PacketLossConfig::default();
    assert_eq!(config.packet_loss_rate(&mut rng, NodeId(1), NodeId(2)), LossRate::never());
    assert_eq!(config.packet_loss_rate(&mut rng, NodeId(1), NodeId(1)), rate(0, 1));
}

#[test]
fn test_configs() {
    let one = TestConfig::from(SimConfig::default());
    let repeats: Vec<usize> = one.configs.iter().map(|config| config.0).collect();
    assert_eq!(repeats, vec![1]);
    let three = TestConfig::from(vec![
        SimConfig::default(),
        SimConfig::default(),
        SimConfig::default(),
    ]);
    let repeats: Vec<usize> = three.configs.iter().map(|config| config.0).collect();
    assert_eq!(repeats, vec![1, 1, 1]);
    let repeated = TestConfig::from(vec![(2, SimConfig::default()), (5, SimConfig::default())]);
    let repeats: Vec<usize> = repeated.configs.iter().map(|config| config.0).collect();
    assert_eq!(repeats, vec![2, 5]);
}
