//! The solver's settings: deployment environment, network, chains, fees,
//! clip sizes and the asset lists.
use vstd::prelude::*;
use vstd::utf8::encode_utf8;
use crate::bytes::{base58_decode, base58_decoding, read_bytes32};
use crate::solver::assets::Asset;
use crate::text::{all_ascii, ascii_lower_char, join3, lowercase, to_lowercase};

verus! {

/// The deployment environment.
#[derive(Debug, Clone, Copy, PartialEq, Eq, Structural)]
pub enum Environment {
    Development,
    Production,
    Local,
}

/// An error in the solver's configuration.
#[derive(Debug, Clone)]
pub enum ConfigError {
    InvalidEnvironment(String),
    InvalidNetwork(String),
    InvalidConfig(String),
}

/// The text of a configuration error.
pub open spec fn config_error_text(e: ConfigError) -> Seq<char> {
    match e {
        ConfigError::InvalidEnvironment(m) => "Invalid environment value: "@ + m@
            + ". Expected 'development' or 'production'"@,
        ConfigError::InvalidNetwork(m) => "Invalid network value: "@ + m@
            + ". Expected 'local', 'devnet', or 'mainnet'"@,
        ConfigError::InvalidConfig(m) => "Invalid chain configuration: "@ + m@,
    }
}

impl ConfigError {
    /// The text of the error (see `config_error_text`).
    pub fn message(&self) -> (text: String)
        ensures
            text@ == config_error_text(*self),
    {
        match self {
            ConfigError::InvalidEnvironment(m) => join3(
                "Invalid environment value: ",
                m.as_str(),
                ". Expected 'development' or 'production'",
            ),
            ConfigError::InvalidNetwork(m) => join3(
                "Invalid network value: ",
                m.as_str(),
                ". Expected 'local', 'devnet', or 'mainnet'",
            ),
            ConfigError::InvalidConfig(m) => String::from_str("Invalid chain configuration: ").concat(
                m.as_str(),
            ),
        }
    }
}

/// The environment that a lower-case name stands for.
pub open spec fn environment_named(lower: Seq<char>) -> Option<Environment> {
    if lower == "development"@ || lower == "dev"@ {
        Some(Environment::Development)
    } else if lower == "production"@ || lower == "prod"@ {
        Some(Environment::Production)
    } else if lower == "local"@ || lower == "localnet"@ {
        Some(Environment::Local)
    } else {
        None
    }
}

/// The network that a lower-case name stands for.
pub open spec fn network_named(lower: Seq<char>) -> Option<Network> {
    if lower == "local"@ || lower == "localnet"@ {
        Some(Network::Local)
    } else if lower == "devnet"@ {
        Some(Network::Devnet)
    } else if lower == "mainnet"@ {
        Some(Network::Mainnet)
    } else {
        None
    }
}

/// The canonical name of an environment.
pub open spec fn environment_text(e: Environment) -> Seq<char> {
    match e {
        Environment::Development => "development"@,
        Environment::Production => "production"@,
        Environment::Local => "local"@,
    }
}

/// The cluster name of a network.
pub open spec fn network_text(n: Network) -> Seq<char> {
    match n {
        Network::Local => "localnet"@,
        Network::Devnet => "devnet"@,
        Network::Mainnet => "mainnet"@,
    }
}

/// A lower-case ASCII text is its own lower-case form.
proof fn lemma_lowercase_fixed(text: Seq<char>)
    requires
        forall|i: int| 0 <= i < text.len() ==> 97 <= (#[trigger] text[i] as u32) <= 122,
    ensures
        lowercase(text) == text,
{
    assert(all_ascii(text));
    assert(text.map_values(|c: char| ascii_lower_char(c)) =~= text);
}

/// An environment's name reads back as that environment: `from_str` of
/// `to_str` gives it again.
pub proof fn law_environment_round_trip(e: Environment)
    ensures
        environment_named(lowercase(environment_text(e))) == Some(e),
{
    reveal_strlit("development");
    reveal_strlit("dev");
    reveal_strlit("production");
    reveal_strlit("prod");
    reveal_strlit("local");
    reveal_strlit("localnet");
    lemma_lowercase_fixed(environment_text(e));
}

/// A network's name reads back as that network: `from_str` of
/// `to_string` gives it again (the local network is named `localnet`).
pub proof fn law_network_round_trip(n: Network)
    ensures
        network_named(lowercase(network_text(n))) == Some(n),
{
    reveal_strlit("localnet");
    reveal_strlit("devnet");
    reveal_strlit("mainnet");
    reveal_strlit("local");
    lemma_lowercase_fixed(network_text(n));
}

/// `text` holds exactly the characters of the literal `lit`.
fn is_text(text: &String, lit: &str) -> (same: bool)
    ensures
        same == (text@ == lit@),
{
    *text == String::from_str(lit)
}

impl Environment {
    /// Parses an environment name, ignoring case.
    pub fn from_str(s: &str) -> (env: Result<Environment, ConfigError>)
        ensures
            match environment_named(lowercase(s@)) {
                Some(e) => env == Ok::<Environment, ConfigError>(e),
                None => env matches Err(ConfigError::InvalidEnvironment(m)) && m@ == s@,
            },
    {
        let lower = to_lowercase(s);
        Environment::from_lowercase(&lower, s)
    }

    /// The environment named by the lower-cased text `lower` of `given`;
    /// the error quotes `given`.
    pub fn from_lowercase(lower: &String, given: &str) -> (env: Result<Environment, ConfigError>)
        ensures
            match environment_named(lower@) {
                Some(e) => env == Ok::<Environment, ConfigError>(e),
                None => env matches Err(ConfigError::InvalidEnvironment(m)) && m@ == given@,
            },
    {
        if is_text(lower, "development") || is_text(lower, "dev") {
            Ok(Environment::Development)
        } else if is_text(lower, "production") || is_text(lower, "prod") {
            Ok(Environment::Production)
        } else if is_text(lower, "local") || is_text(lower, "localnet") {
            Ok(Environment::Local)
        } else {
            Err(ConfigError::InvalidEnvironment(String::from_str(given)))
        }
    }

    /// The environment's canonical name.
    pub fn to_str(&self) -> (name: String)
        ensures
            name@ == environment_text(*self),
    {
        match self {
            Environment::Development => String::from_str("development"),
            Environment::Production => String::from_str("production"),
            Environment::Local => String::from_str("local"),
        }
    }
}

impl Default for Environment {
    fn default() -> (env: Self)
        ensures
            env == Environment::Development,
    {
        Environment::Development
    }
}

/// The cluster family the solver runs against.
#[derive(Debug, Clone, Copy, PartialEq, Eq, Structural)]
pub enum Network {
    Local,
    Devnet,
    Mainnet,
}

impl Network {
    /// Parses a network name, ignoring case.
    pub fn from_str(s: &str) -> (network: Result<Network, ConfigError>)
        ensures
            match network_named(lowercase(s@)) {
                Some(n) => network == Ok::<Network, ConfigError>(n),
                None => network matches Err(ConfigError::InvalidNetwork(m)) && m@ == s@,
            },
    {
        let lower = to_lowercase(s);
        Network::from_lowercase(&lower, s)
    }

    /// The network named by the lower-cased text `lower` of `given`; the
    /// error quotes `given`.
    pub fn from_lowercase(lower: &String, given: &str) -> (network: Result<Network, ConfigError>)
        ensures
            match network_named(lower@) {
                Some(n) => network == Ok::<Network, ConfigError>(n),
                None => network matches Err(ConfigError::InvalidNetwork(m)) && m@ == given@,
            },
    {
        if is_text(lower, "local") || is_text(lower, "localnet") {
            Ok(Network::Local)
        } else if is_text(lower, "devnet") {
            Ok(Network::Devnet)
        } else if is_text(lower, "mainnet") {
            Ok(Network::Mainnet)
        } else {
            Err(ConfigError::InvalidNetwork(String::from_str(given)))
        }
    }

    /// The network's cluster name.
    pub fn to_string(&self) -> (name: &'static str)
        ensures
            name@ == network_text(*self),
    {
        match self {
            Network::Local => "localnet",
            Network::Devnet => "devnet",
            Network::Mainnet => "mainnet",
        }
    }
}

/// The RPC rate limit of each provider.
#[derive(Debug, Clone, Copy)]
pub struct RateLimitConfig {
    pub max_requests_per_second: u32,
    pub burst_size: u32,
}

impl Default for RateLimitConfig {
    fn default() -> (limit: Self)
        ensures
            limit.max_requests_per_second == 10,
            limit.burst_size == 15,
    {
        RateLimitConfig { max_requests_per_second: 10, burst_size: 15 }
    }
}

/// Which assets the solver trades: M0 extensions unless blacklisted, other
/// assets only when whitelisted (addresses compared ignoring case).
#[derive(Debug, Clone)]
pub struct SupportedAssets {
    pub third_party_whitelist: Vec<String>,
    pub first_party_blacklist: Vec<String>,
}

/// Some entry of `list` equals `address` once both are lower-cased.
pub open spec fn listed(list: Seq<String>, address: Seq<char>) -> bool {
    exists|i: int| 0 <= i < list.len() && lowercase(#[trigger] list[i]@) == lowercase(address)
}

impl SupportedAssets {
    pub open spec fn supports(&self, asset: Asset) -> bool {
        if asset.m0_extension {
            !listed(self.first_party_blacklist@, asset.address@)
        } else {
            listed(self.third_party_whitelist@, asset.address@)
        }
    }

    /// Whether the solver trades `asset`.
    pub fn is_asset_supported(&self, asset: &Asset) -> (supported: bool)
        ensures
            supported == self.supports(*asset),
            asset.m0_extension ==> (supported <==> forall|i: int|
                0 <= i < self.first_party_blacklist@.len() ==> lowercase(
                    #[trigger] self.first_party_blacklist@[i]@,
                ) != lowercase(asset.address@)),
            !asset.m0_extension ==> (supported <==> exists|i: int|
                0 <= i < self.third_party_whitelist@.len() && lowercase(
                    #[trigger] self.third_party_whitelist@[i]@,
                ) == lowercase(asset.address@)),
    {
        let address_lower = to_lowercase(asset.address.as_str());
        proof {
            law_supported_assets(*self, *asset);
        }
        if asset.m0_extension {
            !list_contains_lowercase(&self.first_party_blacklist, &address_lower, Ghost(asset.address@))
        } else {
            list_contains_lowercase(&self.third_party_whitelist, &address_lower, Ghost(asset.address@))
        }
    }
}

/// An M0 extension is traded exactly when no entry of the blacklist, at
/// any position, equals its address once both are lower-cased; any other
/// asset exactly when some entry of the whitelist, at any position, does.
pub proof fn law_supported_assets(s: SupportedAssets, asset: Asset)
    ensures
        asset.m0_extension ==> (s.supports(asset) <==> forall|i: int|
            0 <= i < s.first_party_blacklist@.len() ==> lowercase(
                #[trigger] s.first_party_blacklist@[i]@,
            ) != lowercase(asset.address@)),
        !asset.m0_extension ==> (s.supports(asset) <==> exists|i: int|
            0 <= i < s.third_party_whitelist@.len() && lowercase(
                #[trigger] s.third_party_whitelist@[i]@,
            ) == lowercase(asset.address@)),
{
}

/// Whether some entry of `list`, lower-cased, equals `lower`.
fn list_contains_lowercase(list: &Vec<String>, lower: &String, address: Ghost<Seq<char>>) -> (found: bool)
    requires
        lower@ == lowercase(address@),
    ensures
        found == listed(list@, address@),
{
    let n = list.len();
    for i in 0..n
        invariant
            n == list@.len(),
            lower@ == lowercase(address@),
            forall|j: int| 0 <= j < i ==> lowercase(#[trigger] list@[j]@) != lowercase(address@),
    {
        let entry = to_lowercase(list[i].as_str());
        if entry == *lower {
            return true;
        }
    }
    false
}

impl Default for SupportedAssets {
    fn default() -> (assets: Self)
        ensures
            assets.third_party_whitelist@.len() == 0,
            assets.first_party_blacklist@.len() == 0,
    {
        SupportedAssets { third_party_whitelist: Vec::new(), first_party_blacklist: Vec::new() }
    }
}

/// One chain the solver works on.
#[derive(Debug, Clone)]
pub struct ChainConfig {
    pub chain_id: u32,
    pub rpc_url: String,
    pub ws_url: String,
    pub order_book_address: String,
    pub portal_program_id: Option<String>,
    pub bridge_adapter: Option<String>,
}

impl ChainConfig {
    /// A copy of this chain's settings.
    pub fn duplicate(&self) -> (copy: Self)
        ensures
            copy == *self,
    {
        ChainConfig {
            chain_id: self.chain_id,
            rpc_url: self.rpc_url.clone(),
            ws_url: self.ws_url.clone(),
            order_book_address: self.order_book_address.clone(),
            portal_program_id: clone_text_option(&self.portal_program_id),
            bridge_adapter: clone_text_option(&self.bridge_adapter),
        }
    }
}

/// A copy of a list of chains.
pub fn copy_chains(chains: &Vec<ChainConfig>) -> (copy: Vec<ChainConfig>)
    ensures
        copy@ == chains@,
{
    let n = chains.len();
    let mut out: Vec<ChainConfig> = Vec::new();
    for i in 0..n
        invariant
            n == chains@.len(),
            out@ == chains@.subrange(0, i as int),
    {
        out.push(chains[i].duplicate());
        proof {
            assert(chains@.subrange(0, i + 1) =~= chains@.subrange(0, i as int).push(chains@[i as int]));
        }
    }
    proof {
        assert(chains@.subrange(0, n as int) =~= chains@);
    }
    out
}

/// The position of the first chain with this id.
pub open spec fn first_chain(chains: Seq<ChainConfig>, chain_id: u32) -> Option<int> {
    if exists|i: int| 0 <= i < chains.len() && chains[i].chain_id == chain_id {
        Some(
            choose|i: int|
                0 <= i < chains.len() && chains[i].chain_id == chain_id && forall|j: int|
                    0 <= j < i ==> chains[j].chain_id != chain_id,
        )
    } else {
        None
    }
}

/// The position of the first chain with this id.
pub fn chain_position(chains: &Vec<ChainConfig>, chain_id: u32) -> (pos: Option<usize>)
    ensures
        match pos {
            Some(i) => first_chain(chains@, chain_id) == Some(i as int) && i < chains@.len()
                && chains@[i as int].chain_id == chain_id,
            None => first_chain(chains@, chain_id) is None,
        },
{
    let n = chains.len();
    for i in 0..n
        invariant
            n == chains@.len(),
            forall|j: int| 0 <= j < i ==> chains@[j].chain_id != chain_id,
    {
        if chains[i].chain_id == chain_id {
            proof {
                let k = choose|k: int|
                    0 <= k < chains@.len() && chains@[k].chain_id == chain_id && forall|j: int|
                        0 <= j < k ==> chains@[j].chain_id != chain_id;
                assert(k == i) by {
                    if k < i {
                    } else if k > i {
                        assert(chains@[i as int].chain_id == chain_id);
                    }
                }
            }
            return Some(i);
        }
    }
    None
}

/// One chain as the configuration file lists it.
#[derive(Debug, Clone)]
pub struct ChainConfigFile {
    pub chain_id: u32,
    pub enabled: bool,
    pub rpc_url: String,
    pub ws_url: String,
    pub order_book_address: String,
    pub portal_program_id: Option<String>,
    pub bridge_adapter: Option<String>,
}

/// The configuration file, as read (the signing keys are handled apart).
#[derive(Debug, Clone)]
pub struct ConfigFile {
    pub environment: String,
    pub network: String,
    pub chains: Vec<ChainConfigFile>,
    pub liquidity_api_url: String,
    pub evm_private_key: String,
    pub svm_private_key: String,
    pub rpc_rate_limit: Option<RateLimitConfig>,
    pub solver_fee_bps: Option<u32>,
    pub auto_rebalance: Option<bool>,
    pub max_order_clip_size: Option<u64>,
    pub max_clip_reprocess_delay_sec: Option<u64>,
    pub supported_assets: Option<SupportedAssets>,
    pub quoter_grpc_url: String,
    pub connect_to_quote_stream: bool,
    pub http_port: Option<u16>,
}

/// The solver's settings (the signers are kept beside them).
#[derive(Debug, Clone)]
pub struct Config {
    pub environment: Environment,
    pub network: Network,
    pub chains: Vec<ChainConfig>,
    pub liquidity_api_url: String,
    /// The address of the EVM signing key, once a key is loaded.
    pub evm_signer_address: Option<[u8; 20]>,
    /// The Solana signing key (base58), as configured.
    pub svm_private_key: String,
    pub rpc_rate_limit: RateLimitConfig,
    pub solver_fee_bps: u32,
    pub auto_rebalance: bool,
    pub max_order_clip_size: u64,
    pub max_clip_reprocess_delay_sec: u64,
    pub supported_assets: SupportedAssets,
    pub quoter_grpc_url: String,
    pub connect_to_quote_stream: bool,
    pub http_port: Option<u16>,
}

impl Default for Config {
    fn default() -> (config: Self)
        ensures
            config.environment == Environment::Development,
            config.network == Network::Local,
            config.chains@.len() == 0,
            config.liquidity_api_url@ == "https://api-mainnet-b325.up.railway.app"@,
            config.rpc_rate_limit.max_requests_per_second == 10,
            config.rpc_rate_limit.burst_size == 15,
            config.solver_fee_bps == 0,
            config.auto_rebalance,
            config.max_order_clip_size == 250_000,
            config.max_clip_reprocess_delay_sec == 60,
            config.supported_assets.third_party_whitelist@.len() == 0,
            config.supported_assets.first_party_blacklist@.len() == 0,
            config.quoter_grpc_url@ == "http://127.0.0.1:50051"@,
            config.connect_to_quote_stream,
            config.http_port is None,
            config.evm_signer_address is None,
            config.svm_private_key@.len() == 0,
    {
        Config {
            environment: Environment::Development,
            network: Network::Local,
            chains: Vec::new(),
            liquidity_api_url: String::from_str("https://api-mainnet-b325.up.railway.app"),
            evm_signer_address: None,
            svm_private_key: String::new(),
            rpc_rate_limit: RateLimitConfig::default(),
            solver_fee_bps: 0,
            max_order_clip_size: 250_000,
            max_clip_reprocess_delay_sec: 60,
            supported_assets: SupportedAssets::default(),
            auto_rebalance: true,
            quoter_grpc_url: String::from_str("http://127.0.0.1:50051"),
            connect_to_quote_stream: true,
            http_port: None,
        }
    }
}

/// The chain settings of a listed chain.
pub open spec fn chain_of(c: ChainConfigFile) -> ChainConfig {
    ChainConfig {
        chain_id: c.chain_id,
        rpc_url: c.rpc_url,
        ws_url: c.ws_url,
        order_book_address: c.order_book_address,
        portal_program_id: c.portal_program_id,
        bridge_adapter: c.bridge_adapter,
    }
}

/// The enabled chains of a chain list, in order.
pub open spec fn enabled_chains(chains: Seq<ChainConfigFile>) -> Seq<ChainConfig>
    decreases chains.len(),
{
    if chains.len() == 0 {
        Seq::empty()
    } else if chains.last().enabled {
        enabled_chains(chains.drop_last()).push(chain_of(chains.last()))
    } else {
        enabled_chains(chains.drop_last())
    }
}

/// A configuration file is accepted: its environment and network names are
/// known and, outside the local environment, it enables some chain.
pub open spec fn config_accepted(file: ConfigFile) -> bool {
    match (environment_named(lowercase(file.environment@)), network_named(lowercase(file.network@))) {
        (Some(environment), Some(_)) => chains_accepted(file, environment) && evm_key_address(
            file.evm_private_key@,
        ) is Some,
        _ => false,
    }
}

/// Outside the local environment, a configuration enables some chain.
pub open spec fn chains_accepted(file: ConfigFile, environment: Environment) -> bool {
    enabled_chains(file.chains@).len() > 0 || environment == Environment::Local
}

/// The address of the EVM signing key that a text (32 bytes in
/// hexadecimal) is, as `alloy`'s `PrivateKeySigner` reads it.
pub uninterp spec fn evm_key_address(key: Seq<char>) -> Option<Seq<u8>>;

/// `PrivateKeySigner::from_str(..).address()`: the address of an EVM
/// signing key given in hexadecimal, if the text is a valid key.
#[verifier::external_body]
pub fn evm_signer_address(key: &str) -> (address: Option<[u8; 20]>)
    ensures
        match address {
            Some(a) => evm_key_address(key@) == Some(a@),
            None => evm_key_address(key@) is None,
        },
{
    key.parse::<alloy::signers::local::PrivateKeySigner>().ok().map(|k| k.address().into_array())
}

/// The public key of a Solana keypair written in base58: the keypair is 64
/// bytes, the secret key and then the public key; `None` where the text
/// does not decode to 64 bytes.
pub open spec fn svm_keypair_public(text: Seq<char>) -> Option<Seq<u8>> {
    match base58_decoding(encode_utf8(text)) {
        Some(d) => if d.len() == 64 {
            Some(d.subrange(32, 64))
        } else {
            None
        },
        None => None,
    }
}

/// The public key of the configured Solana keypair (see
/// `svm_keypair_public`).
pub fn svm_public_key(keypair: &str) -> (key: Option<[u8; 32]>)
    ensures
        match svm_keypair_public(keypair@) {
            Some(k) => key matches Some(p) && p@ == k,
            None => key is None,
        },
{
    match base58_decode(keypair.as_bytes()) {
        Ok(d) => if d.len() == 64 {
            Some(read_bytes32(d.as_slice(), 32))
        } else {
            None
        },
        Err(_) => None,
    }
}

/// `config` holds the settings of `file`: the named environment and network,
/// the enabled chains in file order, the file's values where it gives them
/// and the defaults elsewhere.
pub open spec fn config_from(file: ConfigFile, config: Config) -> bool {
    &&& environment_named(lowercase(file.environment@)) == Some(config.environment)
    &&& network_named(lowercase(file.network@)) == Some(config.network)
    &&& config.chains@ == enabled_chains(file.chains@)
    &&& config.liquidity_api_url == file.liquidity_api_url
    &&& config.quoter_grpc_url == file.quoter_grpc_url
    &&& config.connect_to_quote_stream == file.connect_to_quote_stream
    &&& match file.rpc_rate_limit {
        Some(r) => config.rpc_rate_limit == r,
        None => config.rpc_rate_limit.max_requests_per_second == 10
            && config.rpc_rate_limit.burst_size == 15,
    }
    &&& config.solver_fee_bps == match file.solver_fee_bps {
        Some(f) => f,
        None => 0,
    }
    &&& config.auto_rebalance == match file.auto_rebalance {
        Some(a) => a,
        None => true,
    }
    &&& config.max_order_clip_size == match file.max_order_clip_size {
        Some(m) => m,
        None => 250_000,
    }
    &&& config.max_clip_reprocess_delay_sec == match file.max_clip_reprocess_delay_sec {
        Some(d) => d,
        None => 60,
    }
    &&& match file.supported_assets {
        Some(a) => config.supported_assets == a,
        None => config.supported_assets.third_party_whitelist@.len() == 0
            && config.supported_assets.first_party_blacklist@.len() == 0,
    }
    &&& config.http_port == file.http_port
    &&& config.evm_signer_address matches Some(a) && evm_key_address(file.evm_private_key@) == Some(a@)
    &&& config.svm_private_key == file.svm_private_key
}

impl Config {
    /// Builds the settings from a configuration file: an unknown environment
    /// or network name is refused (in that order), then a file that enables
    /// no chain outside the local environment.
    pub fn from_config_file(file: ConfigFile) -> (result: Result<Config, ConfigError>)
        ensures
            (result is Ok) == config_accepted(file),
            match result {
                Ok(config) => config_from(file, config),
                Err(ConfigError::InvalidEnvironment(m)) => environment_named(lowercase(file.environment@)) is None
                    && m@ == file.environment@,
                Err(ConfigError::InvalidNetwork(m)) => environment_named(lowercase(file.environment@)) is Some
                    && network_named(lowercase(file.network@)) is None && m@ == file.network@,
                Err(ConfigError::InvalidConfig(m)) => match environment_named(
                    lowercase(file.environment@),
                ) {
                    Some(environment) => network_named(lowercase(file.network@)) is Some && if !chains_accepted(
                        file,
                        environment,
                    ) {
                        m@ == "No enabled chains configured"@
                    } else {
                        evm_key_address(file.evm_private_key@) is None && m@ == "Invalid EVM_PRIVATE_KEY"@
                    },
                    None => false,
                },
            },
    {
        let environment = match Environment::from_str(file.environment.as_str()) {
            Ok(e) => e,
            Err(err) => return Err(err),
        };
        let network = match Network::from_str(file.network.as_str()) {
            Ok(n) => n,
            Err(err) => return Err(err),
        };
        let chains = collect_enabled_chains(&file.chains);
        if chains.len() == 0 && environment != Environment::Local {
            return Err(ConfigError::InvalidConfig(String::from_str("No enabled chains configured")));
        }
        let evm_signer = match evm_signer_address(file.evm_private_key.as_str()) {
            Some(a) => a,
            None => return Err(ConfigError::InvalidConfig(String::from_str("Invalid EVM_PRIVATE_KEY"))),
        };
        let ghost given = file;
        let defaults = Config::default();
        let mut config = Config {
            environment,
            network,
            chains,
            liquidity_api_url: file.liquidity_api_url,
            evm_signer_address: Some(evm_signer),
            svm_private_key: file.svm_private_key,
            quoter_grpc_url: file.quoter_grpc_url,
            connect_to_quote_stream: file.connect_to_quote_stream,
            ..defaults
        };
        if let Some(rpc_rate_limit) = file.rpc_rate_limit {
            config.rpc_rate_limit = rpc_rate_limit;
        }
        if let Some(delay) = file.max_clip_reprocess_delay_sec {
            config.max_clip_reprocess_delay_sec = delay;
        }
        if let Some(fee) = file.solver_fee_bps {
            config.solver_fee_bps = fee;
        }
        if let Some(clip) = file.max_order_clip_size {
            config.max_order_clip_size = clip;
        }
        if let Some(auto) = file.auto_rebalance {
            config.auto_rebalance = auto;
        }
        if let Some(assets) = file.supported_assets {
            config.supported_assets = assets;
        }
        if let Some(port) = file.http_port {
            config.http_port = Some(port);
        }
        proof {
            assert(config_from(given, config));
        }
        Ok(config)
    }
}

/// The enabled chains of a chain list, in order.
fn collect_enabled_chains(chains: &Vec<ChainConfigFile>) -> (out: Vec<ChainConfig>)
    ensures
        out@ == enabled_chains(chains@),
{
    let n = chains.len();
    let mut out: Vec<ChainConfig> = Vec::new();
    for i in 0..n
        invariant
            n == chains@.len(),
            out@ == enabled_chains(chains@.subrange(0, i as int)),
    {
        proof {
            let s = chains@.subrange(0, i + 1);
            assert(s.drop_last() =~= chains@.subrange(0, i as int));
            assert(s.last() == chains@[i as int]);
        }
        let c = &chains[i];
        if c.enabled {
            out.push(
                ChainConfig {
                    chain_id: c.chain_id,
                    rpc_url: c.rpc_url.clone(),
                    ws_url: c.ws_url.clone(),
                    order_book_address: c.order_book_address.clone(),
                    portal_program_id: clone_text_option(&c.portal_program_id),
                    bridge_adapter: clone_text_option(&c.bridge_adapter),
                },
            );
        }
    }
    proof {
        assert(chains@.subrange(0, n as int) =~= chains@);
    }
    out
}

/// A copy of an optional text.
pub fn clone_text_option(text: &Option<String>) -> (copy: Option<String>)
    ensures
        copy == *text,
{
    match text {
        Some(t) => Some(t.clone()),
        None => None,
    }
}

} // verus!
