use hanzo_sdk::did::DID;
use hanzo_sdk::error::DIDError;
use hanzo_sdk::network::Network;

const ALL: [Network; 15] = [
    Network::Hanzo,
    Network::Lux,
    Network::Pars,
    Network::SparklePony,
    Network::Zoo,
    Network::Local,
    Network::Ethereum,
    Network::Sepolia,
    Network::Base,
    Network::BaseSepolia,
    Network::Polygon,
    Network::Arbitrum,
    Network::Optimism,
    Network::LuxFuji,
    Network::IPFS,
];

#[test]
fn network_names_read_back() {
    for n in ALL {
        assert_eq!(Network::from_str(n.as_str()), Ok(n));
        assert_eq!(Network::from_str(&n.as_str().to_uppercase()), Ok(n));
    }
}

#[test]
fn network_aliases_and_unknown_names() {
    assert_eq!(Network::from_str("ai"), Ok(Network::Hanzo));
    assert_eq!(Network::from_str("Ethereum"), Ok(Network::Ethereum));
    assert_eq!(Network::from_str("MATIC"), Ok(Network::Polygon));
    assert_eq!(Network::from_str("arb"), Ok(Network::Arbitrum));
    assert_eq!(Network::from_str("op"), Ok(Network::Optimism));
    assert_eq!(Network::from_str("fuji"), Ok(Network::LuxFuji));
    assert_eq!(Network::from_str("localhost"), Ok(Network::Local));
    // The Kelvin sign lowercases to `k`.
    assert_eq!(Network::from_str("SPAR\u{212A}LE"), Ok(Network::SparklePony));
    assert_eq!(
        Network::from_str("solana"),
        Err(DIDError::UnknownChain("solana".to_string()))
    );
    let std_parsed: Network = "spc".parse().unwrap();
    assert_eq!(std_parsed, Network::SparklePony);
}

#[test]
fn network_tables() {
    assert_eq!(Network::Lux.chain_id(), Some(96369));
    assert_eq!(Network::LuxFuji.chain_id(), Some(43113));
    assert_eq!(Network::Local.chain_id(), None);
    assert_eq!(Network::IPFS.chain_id(), None);
    assert!(Network::LuxFuji.is_testnet());
    assert!(Network::Local.is_testnet());
    assert!(!Network::IPFS.is_testnet());
    assert_eq!(Network::IPFS.rpc_endpoint(), None);
    assert_eq!(Network::Optimism.rpc_endpoint(), Some("https://mainnet.optimism.io"));
    assert_eq!(Network::BaseSepolia.as_str(), "base-sepolia");
    assert_eq!(Network::SparklePony.as_str(), "sparkle");
}

#[test]
fn embedded_chain_takes_precedence() {
    assert_eq!(DID::new("lux", "eth:abc").get_network(), Some(Network::Ethereum));
    assert_eq!(DID::new("hanzo", "mars:abc").get_network(), Some(Network::Hanzo));
    assert_eq!(DID::new("web", "example.com").get_network(), None);
    assert_eq!(DID::lux_chain("fuji", "x").get_network(), Some(Network::LuxFuji));
    assert_eq!(DID::base_sepolia("x").get_network(), Some(Network::BaseSepolia));
}

#[test]
fn identifiers() {
    assert_eq!(DID::new("hanzo", "a:b:c").get_identifier(), "b:c");
    assert_eq!(DID::hanzo_local("zeekay").get_identifier(), "zeekay");
    assert_eq!(DID::lux_chain("fuji", "0xabc").id, "fuji:0xabc");
    assert_eq!(DID::hanzo_sepolia("0x1").id, "sepolia:0x1");
    assert_eq!(DID::hanzo_base("0x1").id, "base:0x1");
}

#[test]
fn same_entity_is_identifier_equality() {
    let a = DID::hanzo_eth("bob");
    let b = DID::zoo_local("bob");
    let c = DID::arbitrum("bob");
    assert!(a.is_same_entity(&a));
    assert!(a.is_same_entity(&b) && b.is_same_entity(&a));
    assert!(b.is_same_entity(&c) && a.is_same_entity(&c));
    assert!(!a.is_same_entity(&DID::hanzo_eth("alice")));
}

#[test]
fn omnichain_variants_are_the_same_entity() {
    let d = DID::from_username("@zeekay", "hanzo");
    let variants = d.get_omnichain_variants();
    assert_eq!(variants.len(), 24);
    assert_eq!(variants[23], DID::lux_chain("fuji", "zeekay"));
    for v in &variants {
        assert!(d.is_same_entity(v));
    }
    // A base identifier with a `:` is where the property stops: the shorthand variant keeps
    // the whole identifier as its id, whose own base identifier is shorter.
    let odd = DID::new("hanzo", "eth:a:b");
    let odd_variants = odd.get_omnichain_variants();
    assert_eq!(odd_variants[0], DID::hanzo("a:b"));
    assert!(!odd.is_same_entity(&odd_variants[0]));
}

#[test]
fn from_username_contexts() {
    assert_eq!(DID::from_username("@@x", "lux"), DID::lux("@x"));
    assert_eq!(DID::from_username("x", "LUX"), DID::lux("x"));
    assert_eq!(DID::from_username("x", "Zoo"), DID::zoo("x"));
    assert_eq!(DID::from_username("x", "ai"), DID::ai("x"));
    assert_eq!(DID::from_username("x", "unknown"), DID::hanzo("x"));
    assert_eq!(DID::from_username("", "pars"), DID::pars(""));
}

#[test]
fn setters_and_rendering() {
    let d = DID::eth("0xabc").with_query("a=1").with_fragment("k");
    assert_eq!(d.to_string_full(), "did:eth:0xabc?a=1#k");
    let p = DID::sepolia("x").with_path("/p");
    assert_eq!(p.to_string_full(), "did:sepolia:x/p");
    assert_eq!(DID::polygon("x").method, "polygon");
    assert_eq!(DID::optimism("x").to_string_full(), "did:optimism:x");
}
