//! The settings of the membership protocol.
use crate::time::Duration;
use vstd::prelude::*;

verus! {

/// The settings of the membership protocol.
#[derive(Debug, Clone, Copy, PartialEq, Eq, Structural)]
pub struct SwimConfig {
    /// How often a probe is sent.
    pub protocol_period: Duration,
    /// How long a suspected node may stay silent before it is declared dead.
    pub suspect_timeout: Duration,
    /// How long a dead node is kept in the list.
    pub dead_removal_delay: Duration,
    /// How many indirect probes are sent when a direct one fails.
    pub indirect_probe_count: usize,
    /// How much gossip goes with a probe at most.
    pub max_gossip_per_tick: usize,
}

impl SwimConfig {
    /// Whether these are the settings that hold where none are given.
    pub open spec fn is_default(self) -> bool {
        &&& self.protocol_period@ == 1_000_000_000
        &&& self.suspect_timeout@ == 5_000_000_000
        &&& self.dead_removal_delay@ == 30_000_000_000
        &&& self.indirect_probe_count == 3
        &&& self.max_gossip_per_tick == 8
    }

    /// A builder that starts with the default settings.
    pub fn builder() -> (r: SwimConfigBuilder)
        ensures
            r.settings().is_default(),
    {
        SwimConfigBuilder { config: SwimConfig::default() }
    }
}

impl Default for SwimConfig {
    fn default() -> (r: Self)
        ensures
            r.is_default(),
    {
        Self {
            protocol_period: Duration::from_secs(1),
            suspect_timeout: Duration::from_secs(5),
            dead_removal_delay: Duration::from_secs(30),
            indirect_probe_count: 3,
            max_gossip_per_tick: 8,
        }
    }
}

/// A builder of settings.
#[derive(Debug, Clone, Copy)]
pub struct SwimConfigBuilder {
    config: SwimConfig,
}

impl SwimConfigBuilder {
    /// The settings built so far.
    pub closed spec fn settings(self) -> SwimConfig {
        self.config
    }

    pub fn protocol_period(self, d: Duration) -> (r: Self)
        ensures
            r.settings() == (SwimConfig { protocol_period: d, ..self.settings() }),
    {
        SwimConfigBuilder { config: SwimConfig { protocol_period: d, ..self.config } }
    }

    pub fn suspect_timeout(self, d: Duration) -> (r: Self)
        ensures
            r.settings() == (SwimConfig { suspect_timeout: d, ..self.settings() }),
    {
        SwimConfigBuilder { config: SwimConfig { suspect_timeout: d, ..self.config } }
    }

    pub fn dead_removal_delay(self, d: Duration) -> (r: Self)
        ensures
            r.settings() == (SwimConfig { dead_removal_delay: d, ..self.settings() }),
    {
        SwimConfigBuilder { config: SwimConfig { dead_removal_delay: d, ..self.config } }
    }

    pub fn indirect_probe_count(self, n: usize) -> (r: Self)
        ensures
            r.settings() == (SwimConfig { indirect_probe_count: n, ..self.settings() }),
    {
        SwimConfigBuilder { config: SwimConfig { indirect_probe_count: n, ..self.config } }
    }

    pub fn max_gossip_per_tick(self, n: usize) -> (r: Self)
        ensures
            r.settings() == (SwimConfig { max_gossip_per_tick: n, ..self.settings() }),
    {
        SwimConfigBuilder { config: SwimConfig { max_gossip_per_tick: n, ..self.config } }
    }

    pub fn build(self) -> (r: SwimConfig)
        ensures
            r == self.settings(),
    {
        self.config
    }
}

impl Default for SwimConfigBuilder {
    fn default() -> (r: Self)
        ensures
            r.settings().is_default(),
    {
        SwimConfig::builder()
    }
}

} // verus!
