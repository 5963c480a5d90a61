//! The settings of membership.
use rebar::cluster::swim::config::SwimConfig;
use rebar::time::Duration;

#[test]
fn default_config_values() {
    let config = SwimConfig::default();
    assert_eq!(config.protocol_period, Duration::from_secs(1));
    assert_eq!(config.suspect_timeout, Duration::from_secs(5));
    assert_eq!(config.dead_removal_delay, Duration::from_secs(30));
    assert_eq!(config.indirect_probe_count, 3);
    assert_eq!(config.max_gossip_per_tick, 8);
}

#[test]
fn config_builder_overrides() {
    let config = SwimConfig::builder()
        .protocol_period(Duration::from_millis(500))
        .suspect_timeout(Duration::from_secs(10))
        .dead_removal_delay(Duration::from_secs(60))
        .indirect_probe_count(5)
        .max_gossip_per_tick(16)
        .build();

    assert_eq!(config.protocol_period, Duration::from_millis(500));
    assert_eq!(config.suspect_timeout, Duration::from_secs(10));
    assert_eq!(config.dead_removal_delay, Duration::from_secs(60));
    assert_eq!(config.indirect_probe_count, 5);
    assert_eq!(config.max_gossip_per_tick, 16);
}
