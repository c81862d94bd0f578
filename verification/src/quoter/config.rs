//! The quoter's configuration: the chains it watches and the assets it
//! lists.
use vstd::prelude::*;

verus! {

/// The kind of chain, which decides the transaction format.
#[derive(Debug, Clone, Copy, PartialEq, Eq, Structural)]
pub enum ChainType {
    Evm,
    Svm,
}

impl Default for ChainType {
    /// Chains are EVM chains unless configured otherwise.
    fn default() -> (t: Self)
        ensures
            t == ChainType::Evm,
    {
        ChainType::Evm
    }
}

/// An asset the quoter lists, with the chains it exists on.
#[derive(Debug, Clone)]
pub struct Asset {
    pub ticker: String,
    pub name: String,
    pub icon: String,
    pub address: String,
    pub chain_ids: Vec<u32>,
}

/// One chain of the configuration.
#[derive(Debug)]
pub struct ChainConfig {
    pub chain_id: u32,
    pub enabled: bool,
    pub rpc_url: String,
    pub ws_url: String,
    pub order_book_address: String,
    /// Block number to start fetching historical events from.
    pub starting_block: u64,
    pub chain_type: ChainType,
}

impl ChainConfig {
    /// A copy of this chain's settings.
    pub fn duplicate(&self) -> (copy: Self)
        ensures
            copy == *self,
    {
        ChainConfig {
            chain_id: self.chain_id,
            enabled: self.enabled,
            rpc_url: self.rpc_url.clone(),
            ws_url: self.ws_url.clone(),
            order_book_address: self.order_book_address.clone(),
            starting_block: self.starting_block,
            chain_type: self.chain_type,
        }
    }
}

/// The quoter's configuration.
#[derive(Debug)]
pub struct QuoterConfig {
    pub chains: Vec<ChainConfig>,
    pub assets: Vec<Asset>,
}

/// Errors of loading the configuration.
#[derive(Debug, Clone)]
pub enum ConfigError {
    FileRead(String),
    ParseError(String),
    NoChains,
}

pub open spec fn config_error_message(e: ConfigError) -> Seq<char> {
    match e {
        ConfigError::FileRead(m) => "Failed to read config file: "@ + m@,
        ConfigError::ParseError(m) => "Failed to parse YAML: "@ + m@,
        ConfigError::NoChains => "No enabled chains configured"@,
    }
}

impl ConfigError {
    /// The error's message.
    pub fn message(&self) -> (text: String)
        ensures
            text@ == config_error_message(*self),
    {
        match self {
            ConfigError::FileRead(m) => String::from_str("Failed to read config file: ").concat(m.as_str()),
            ConfigError::ParseError(m) => String::from_str("Failed to parse YAML: ").concat(m.as_str()),
            ConfigError::NoChains => String::from_str("No enabled chains configured"),
        }
    }
}

/// The chains of `chains` whose `keep` holds, in order.
pub open spec fn chains_where(chains: Seq<ChainConfig>, keep: spec_fn(ChainConfig) -> bool) -> Seq<ChainConfig>
    decreases chains.len(),
{
    if chains.len() == 0 {
        Seq::empty()
    } else if keep(chains.last()) {
        chains_where(chains.drop_last(), keep).push(chains.last())
    } else {
        chains_where(chains.drop_last(), keep)
    }
}

/// A chain is enabled.
pub open spec fn is_enabled() -> spec_fn(ChainConfig) -> bool {
    |c: ChainConfig| c.enabled
}

/// A chain is a Solana chain.
pub open spec fn is_svm() -> spec_fn(ChainConfig) -> bool {
    |c: ChainConfig| c.chain_type == ChainType::Svm
}

proof fn lemma_chains_where_step(chains: Seq<ChainConfig>, keep: spec_fn(ChainConfig) -> bool, i: int)
    requires
        0 <= i < chains.len(),
    ensures
        chains_where(chains.subrange(0, i + 1), keep) == if keep(chains[i]) {
            chains_where(chains.subrange(0, i), keep).push(chains[i])
        } else {
            chains_where(chains.subrange(0, i), keep)
        },
{
    assert(chains.subrange(0, i + 1).drop_last() =~= chains.subrange(0, i));
}

/// The chains of `chains` that are enabled (`want_svm` false) or that are
/// Solana chains (`want_svm` true), in order.
fn select_chains(chains: &Vec<ChainConfig>, want_svm: bool) -> (selected: Vec<ChainConfig>)
    ensures
        selected@ == chains_where(chains@, if want_svm { is_svm() } else { is_enabled() }),
{
    let ghost keep = if want_svm { is_svm() } else { is_enabled() };
    let n = chains.len();
    let mut selected: Vec<ChainConfig> = Vec::new();
    for i in 0..n
        invariant
            n == chains@.len(),
            keep == (if want_svm { is_svm() } else { is_enabled() }),
            selected@ == chains_where(chains@.subrange(0, i as int), keep),
    {
        proof {
            lemma_chains_where_step(chains@, keep, i as int);
        }
        let c = &chains[i];
        let wanted = if want_svm { c.chain_type == ChainType::Svm } else { c.enabled };
        if wanted {
            selected.push(c.duplicate());
        }
    }
    proof {
        assert(chains@.subrange(0, n as int) =~= chains@);
    }
    selected
}

/// The Solana chains among `chains`, in order.
pub fn svm_chains(chains: &Vec<ChainConfig>) -> (selected: Vec<ChainConfig>)
    ensures
        selected@ == chains_where(chains@, is_svm()),
{
    select_chains(chains, true)
}

impl QuoterConfig {
    /// Accepts a parsed configuration that enables some chain.
    pub fn validated(self) -> (checked: Result<QuoterConfig, ConfigError>)
        ensures
            chains_where(self.chains@, is_enabled()).len() == 0 ==> checked matches Err(
                ConfigError::NoChains,
            ),
            chains_where(self.chains@, is_enabled()).len() > 0 ==> (checked matches Ok(c) && c
                == self),
    {
        let enabled = self.enabled_chains();
        if enabled.len() == 0 {
            return Err(ConfigError::NoChains);
        }
        Ok(self)
    }

    /// The enabled chains, in order.
    pub fn enabled_chains(&self) -> (chains: Vec<ChainConfig>)
        ensures
            chains@ == chains_where(self.chains@, is_enabled()),
    {
        select_chains(&self.chains, false)
    }
}

} // verus!
