use liquidity_delivery::solver::assets::Asset;
use liquidity_delivery::solver::config::{
    chain_position, evm_signer_address, svm_public_key, ChainConfig, ChainConfigFile, Config, ConfigError,
    ConfigFile, Environment, Network, RateLimitConfig, SupportedAssets,
};

const KEY_ONE: &str = "0x0000000000000000000000000000000000000000000000000000000000000001";

fn chain(chain_id: u32, enabled: bool) -> ChainConfigFile {
    ChainConfigFile {
        chain_id,
        enabled,
        rpc_url: format!("http://rpc/{}", chain_id),
        ws_url: format!("ws://rpc/{}", chain_id),
        order_book_address: "0xbook".to_string(),
        portal_program_id: None,
        bridge_adapter: Some("0xadapter".to_string()),
    }
}

fn file(environment: &str, network: &str, chains: Vec<ChainConfigFile>) -> ConfigFile {
    ConfigFile {
        environment: environment.to_string(),
        network: network.to_string(),
        chains,
        liquidity_api_url: "https://liquidity".to_string(),
        evm_private_key: KEY_ONE.to_string(),
        svm_private_key: "svm-key".to_string(),
        rpc_rate_limit: None,
        solver_fee_bps: None,
        auto_rebalance: None,
        max_order_clip_size: None,
        max_clip_reprocess_delay_sec: None,
        supported_assets: None,
        quoter_grpc_url: "http://quoter".to_string(),
        connect_to_quote_stream: false,
        http_port: None,
    }
}

#[test]
fn environment_names_ignore_case() {
    assert_eq!(Environment::from_str("DEV").unwrap(), Environment::Development);
    assert_eq!(Environment::from_str("Production").unwrap(), Environment::Production);
    assert_eq!(Environment::from_str("prod").unwrap(), Environment::Production);
    assert_eq!(Environment::from_str("localnet").unwrap(), Environment::Local);
    match Environment::from_str("Staging") {
        Err(ConfigError::InvalidEnvironment(m)) => assert_eq!(m, "Staging"),
        other => panic!("unexpected {:?}", other),
    }
    assert_eq!(Environment::Production.to_str(), "production");
    assert_eq!(Environment::default(), Environment::Development);
}

#[test]
fn network_names_ignore_case() {
    assert_eq!(Network::from_str("Local").unwrap(), Network::Local);
    assert_eq!(Network::from_str("DEVNET").unwrap(), Network::Devnet);
    assert_eq!(Network::from_str("mainnet").unwrap(), Network::Mainnet);
    assert!(matches!(Network::from_str("testnet"), Err(ConfigError::InvalidNetwork(_))));
    assert_eq!(Network::Local.to_string(), "localnet");
    assert_eq!(Network::Devnet.to_string(), "devnet");
}

#[test]
fn config_error_texts() {
    assert_eq!(
        ConfigError::InvalidEnvironment("x".to_string()).message(),
        "Invalid environment value: x. Expected 'development' or 'production'"
    );
    assert_eq!(
        ConfigError::InvalidNetwork("y".to_string()).message(),
        "Invalid network value: y. Expected 'local', 'devnet', or 'mainnet'"
    );
    assert_eq!(
        ConfigError::InvalidConfig("z".to_string()).message(),
        "Invalid chain configuration: z"
    );
}

#[test]
fn defaults_of_the_config() {
    let c = Config::default();
    assert_eq!(c.environment, Environment::Development);
    assert_eq!(c.network, Network::Local);
    assert_eq!(c.solver_fee_bps, 0);
    assert_eq!(c.max_order_clip_size, 250_000);
    assert_eq!(c.max_clip_reprocess_delay_sec, 60);
    assert_eq!(c.rpc_rate_limit.max_requests_per_second, 10);
    assert_eq!(c.rpc_rate_limit.burst_size, 15);
    assert!(c.auto_rebalance);
    assert!(c.connect_to_quote_stream);
    assert_eq!(c.quoter_grpc_url, "http://127.0.0.1:50051");
    assert_eq!(c.liquidity_api_url, "https://api-mainnet-b325.up.railway.app");
}

#[test]
fn a_config_file_keeps_enabled_chains_in_order() {
    let f = file("Development", "devnet", vec![chain(1, true), chain(2, false), chain(3, true)]);
    let c = Config::from_config_file(f).unwrap();
    assert_eq!(c.environment, Environment::Development);
    assert_eq!(c.network, Network::Devnet);
    let ids: Vec<u32> = c.chains.iter().map(|c| c.chain_id).collect();
    assert_eq!(ids, vec![1, 3]);
    assert_eq!(c.chains[1].rpc_url, "http://rpc/3");
    assert_eq!(c.chains[0].bridge_adapter.as_deref(), Some("0xadapter"));
    assert_eq!(c.solver_fee_bps, 0);
    assert_eq!(c.max_order_clip_size, 250_000);
    assert_eq!(c.liquidity_api_url, "https://liquidity");
    assert_eq!(c.quoter_grpc_url, "http://quoter");
    assert!(!c.connect_to_quote_stream);
    assert_eq!(c.svm_private_key, "svm-key");
    assert_eq!(
        c.evm_signer_address.map(hex::encode),
        Some("7e5f4552091a69125d5dfcb7b8c2659029395bdf".to_string())
    );
}

#[test]
fn a_config_file_overrides_the_defaults() {
    let mut f = file("prod", "mainnet", vec![chain(1, true)]);
    f.rpc_rate_limit = Some(RateLimitConfig { max_requests_per_second: 3, burst_size: 4 });
    f.solver_fee_bps = Some(25);
    f.auto_rebalance = Some(false);
    f.max_order_clip_size = Some(10);
    f.max_clip_reprocess_delay_sec = Some(5);
    f.supported_assets = Some(SupportedAssets {
        third_party_whitelist: vec!["0xA".to_string()],
        first_party_blacklist: vec![],
    });
    f.http_port = Some(8080);
    let c = Config::from_config_file(f).unwrap();
    assert_eq!(c.rpc_rate_limit.burst_size, 4);
    assert_eq!(c.solver_fee_bps, 25);
    assert!(!c.auto_rebalance);
    assert_eq!(c.max_order_clip_size, 10);
    assert_eq!(c.max_clip_reprocess_delay_sec, 5);
    assert_eq!(c.supported_assets.third_party_whitelist, vec!["0xA".to_string()]);
    assert_eq!(c.http_port, Some(8080));
}

#[test]
fn a_config_file_is_checked_in_order() {
    let f = file("staging", "nowhere", vec![]);
    assert!(matches!(Config::from_config_file(f), Err(ConfigError::InvalidEnvironment(m)) if m == "staging"));
    let f = file("dev", "nowhere", vec![]);
    assert!(matches!(Config::from_config_file(f), Err(ConfigError::InvalidNetwork(m)) if m == "nowhere"));
    let f = file("dev", "local", vec![chain(1, false)]);
    assert!(matches!(Config::from_config_file(f), Err(ConfigError::InvalidConfig(m)) if m == "No enabled chains configured"));
    let mut f = file("dev", "local", vec![chain(1, true)]);
    f.evm_private_key = "not a key".to_string();
    assert!(matches!(Config::from_config_file(f), Err(ConfigError::InvalidConfig(m)) if m == "Invalid EVM_PRIVATE_KEY"));
}

#[test]
fn the_local_environment_needs_no_chain() {
    let c = Config::from_config_file(file("local", "local", vec![])).unwrap();
    assert_eq!(c.environment, Environment::Local);
    assert!(c.chains.is_empty());
}

#[test]
fn signer_addresses() {
    assert_eq!(
        evm_signer_address(KEY_ONE).map(hex::encode),
        Some("7e5f4552091a69125d5dfcb7b8c2659029395bdf".to_string())
    );
    assert_eq!(evm_signer_address(&KEY_ONE[2..]), evm_signer_address(KEY_ONE));
    assert_eq!(evm_signer_address("0x00"), None);
    assert_eq!(
        evm_signer_address("0x0000000000000000000000000000000000000000000000000000000000000000"),
        None
    );
}

#[test]
fn chains_are_found_by_id() {
    let chains = vec![
        ChainConfig { chain_id: 5, rpc_url: String::new(), ws_url: String::new(), order_book_address: String::new(), portal_program_id: None, bridge_adapter: None },
        ChainConfig { chain_id: 7, rpc_url: "a".to_string(), ws_url: String::new(), order_book_address: String::new(), portal_program_id: None, bridge_adapter: None },
        ChainConfig { chain_id: 7, rpc_url: "b".to_string(), ws_url: String::new(), order_book_address: String::new(), portal_program_id: None, bridge_adapter: None },
    ];
    assert_eq!(chain_position(&chains, 7), Some(1));
    assert_eq!(chain_position(&chains, 5), Some(0));
    assert_eq!(chain_position(&chains, 9), None);
}

fn listed(address: &str, m0: bool) -> Asset {
    Asset {
        chain_id: 1,
        address: address.to_string(),
        decimals: 6,
        icon: String::new(),
        m0_extension: m0,
        name: String::new(),
        runtime: liquidity_delivery::solver::assets::ChainRuntime::Evm,
        symbol: String::new(),
    }
}

#[test]
fn supported_assets_lists() {
    let s = SupportedAssets {
        third_party_whitelist: vec!["0xUSDC".to_string()],
        first_party_blacklist: vec!["0xBAD".to_string()],
    };
    assert!(s.is_asset_supported(&listed("0xusdc", false)));
    assert!(!s.is_asset_supported(&listed("0xother", false)));
    assert!(s.is_asset_supported(&listed("0xgood", true)));
    assert!(!s.is_asset_supported(&listed("0xbad", true)));
}

#[test]
fn environment_names_read_back() {
    for e in [Environment::Development, Environment::Production, Environment::Local] {
        assert_eq!(Environment::from_str(&e.to_str()).unwrap(), e);
        assert_eq!(Environment::from_str(&e.to_str().to_uppercase()).unwrap(), e);
    }
    assert_eq!(Environment::from_str("LocalNet").unwrap(), Environment::Local);
}

#[test]
fn network_names_read_back() {
    for n in [Network::Local, Network::Devnet, Network::Mainnet] {
        assert_eq!(Network::from_str(n.to_string()).unwrap(), n);
        assert_eq!(Network::from_str(&n.to_string().to_uppercase()).unwrap(), n);
    }
    assert_eq!(Network::from_str("MainNet").unwrap(), Network::Mainnet);
}

#[test]
fn svm_keypairs_give_their_public_half() {
    let mut pair = vec![0u8; 64];
    for (i, b) in pair.iter_mut().enumerate() {
        *b = i as u8;
    }
    let text = bs58::encode(&pair).into_string();
    let expected: Vec<u8> = (32u8..64).collect();
    assert_eq!(svm_public_key(&text).map(|k| k.to_vec()), Some(expected));
    let short = bs58::encode(&pair[..32]).into_string();
    assert_eq!(svm_public_key(&short), None);
    assert_eq!(svm_public_key("0OIl"), None);
}
