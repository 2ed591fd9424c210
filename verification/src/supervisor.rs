//! The supervisor's decisions: the termination order of the runtime's
//! groups, and what to spawn once the configuration is known.

use vstd::prelude::*;

verus! {

/// The supervised groups, in the roles the runtime gives them.
#[derive(Clone, Copy, Debug, PartialEq, Eq, Hash, Structural)]
pub enum Group {
    Tuning,
    Provider,
    EmbeddedNode,
}

/// The shutdown order: tuning tasks first, then the provider, then the
/// embedded node.
pub fn termination_sequence() -> (r: Vec<Group>)
    ensures
        r@ =~= seq![Group::Tuning, Group::Provider, Group::EmbeddedNode],
{
    let mut order: Vec<Group> = Vec::new();
    order.push(Group::Tuning);
    order.push(Group::Provider);
    order.push(Group::EmbeddedNode);
    order
}

/// What the provider part of the configuration says.
pub struct ProviderConfig {
    /// The address of an external node to connect to, if one is set.
    pub node: Option<String>,
}

impl ProviderConfig {
    /// Whether an external node address was configured.
    pub fn is_node_specified(&self) -> (r: bool)
        ensures
            r <==> self.node is Some,
    {
        self.node.is_some()
    }
}

impl Default for ProviderConfig {
    /// No node configured: the runtime embeds one.
    fn default() -> (r: ProviderConfig)
        ensures
            r.node is None,
    {
        ProviderConfig { node: None }
    }
}

/// The configuration file's content, as far as the supervisor reads it.
pub struct Config {
    pub rillrate: Option<ProviderConfig>,
}

impl Default for Config {
    /// The configuration used when no file is given.
    fn default() -> (r: Config)
        ensures
            r.rillrate is None,
    {
        Config { rillrate: None }
    }
}

/// What the supervisor spawns next.
pub enum StartupPlan {
    /// Connect a provider, with this configuration.
    SpawnProvider { config: ProviderConfig },
    /// Start an embedded node, then wait for its address.
    SpawnEmbeddedNode,
}

/// The supervisor of the runtime's groups.
pub struct RillRate {
    provider_config: Option<ProviderConfig>,
}

impl RillRate {
    /// The configuration held for the provider, if any.
    pub closed spec fn config_v(&self) -> Option<ProviderConfig> {
        self.provider_config
    }

    /// A supervisor that has read no configuration yet; the application
    /// name it will announce passes through to the caller who installs it.
    pub fn new(app_name: String) -> (r: (RillRate, String))
        ensures
            r.0.config_v() is None,
            r.1@ == app_name@,
    {
        (RillRate { provider_config: None }, app_name)
    }

    /// Settles a finished configuration read: a configured external node
    /// means a provider is spawned at once with that configuration; no
    /// node means an embedded one is started first, the configuration
    /// kept until its address is known. A missing or unreadable file
    /// counts as the default configuration.
    pub fn on_config_read(&mut self, result: Option<Config>) -> (r: StartupPlan)
        ensures
            match result {
                Some(config) => {
                    &&& (match config.rillrate {
                        Some(pc) => {
                            &&& pc.node is Some ==> r == (StartupPlan::SpawnProvider {
                                config: pc,
                            }) && final(self).config_v() is None
                            &&& pc.node is None ==> r == StartupPlan::SpawnEmbeddedNode
                                && final(self).config_v() == Some(pc)
                        },
                        None => r == StartupPlan::SpawnEmbeddedNode && final(self).config_v()
                            is None,
                    })
                },
                None => r == StartupPlan::SpawnEmbeddedNode && final(self).config_v() is None,
            },
    {
        let config = match result {
            Some(c) => c,
            None => Config::default(),
        };
        self.provider_config = config.rillrate;
        let node_specified = match &self.provider_config {
            Some(pc) => pc.is_node_specified(),
            None => false,
        };
        if node_specified {
            self.spawn_provider()
        } else {
            StartupPlan::SpawnEmbeddedNode
        }
    }

    /// The embedded node reported its address: the caller installs it and
    /// spawns the provider with the kept configuration, or the default
    /// when none was kept.
    pub fn on_addr_ready(&mut self) -> (r: StartupPlan)
        ensures
            final(self).config_v() is None,
            match old(self).config_v() {
                Some(pc) => r == (StartupPlan::SpawnProvider { config: pc }),
                None => r matches StartupPlan::SpawnProvider { config } && config.node is None,
            },
    {
        self.spawn_provider()
    }

    /// Takes the kept configuration, or the default, into a provider
    /// spawn.
    fn spawn_provider(&mut self) -> (r: StartupPlan)
        ensures
            final(self).config_v() is None,
            match old(self).config_v() {
                Some(pc) => r == (StartupPlan::SpawnProvider { config: pc }),
                None => r matches StartupPlan::SpawnProvider { config } && config.node is None,
            },
    {
        let config = match self.provider_config.take() {
            Some(pc) => pc,
            None => ProviderConfig::default(),
        };
        StartupPlan::SpawnProvider { config }
    }
}

/// The task that waits for the embedded node's listen address; the wait
/// itself is the runtime's work.
pub struct WaitForAddr {}

impl WaitForAddr {
    /// A fresh waiting task.
    pub fn new() -> (r: WaitForAddr) {
        WaitForAddr {  }
    }
}

} // verus!
