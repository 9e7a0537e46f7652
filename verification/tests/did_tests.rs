use hanzo_sdk::did::DID;
use hanzo_sdk::network::Network;
use std::str::FromStr;

#[test]
fn test_did_parsing() {
    // Test complex DID
    let did_str = "did:hanzo:eth:0x742d35Cc6634C0532925a3b844Bc9e7595f0bEb7";
    let did = DID::from_str(did_str).unwrap();

    assert_eq!(did.method, "hanzo");
    assert_eq!(did.id, "eth:0x742d35Cc6634C0532925a3b844Bc9e7595f0bEb7");
    assert_eq!(did.get_network(), Some(Network::Ethereum));
    assert_eq!(
        did.get_identifier(),
        "0x742d35Cc6634C0532925a3b844Bc9e7595f0bEb7"
    );

    // Test simple DID
    let simple_did = DID::from_str("did:hanzo:zeekay").unwrap();
    assert_eq!(simple_did.method, "hanzo");
    assert_eq!(simple_did.id, "zeekay");
    assert_eq!(simple_did.get_network(), Some(Network::Hanzo));
    assert_eq!(simple_did.get_identifier(), "zeekay");
}

#[test]
fn test_did_with_fragment() {
    let did_str = "did:hanzo:eth:0x742d35Cc6634C0532925a3b844Bc9e7595f0bEb7#key-1";
    let did = DID::from_str(did_str).unwrap();

    assert_eq!(did.fragment, Some("key-1".to_string()));
}

#[test]
fn test_omnichain_identity() {
    // Test cross-chain identity verification
    let hanzo_did = DID::hanzo("zeekay");
    let lux_did = DID::lux("zeekay");
    let hanzo_eth_did = DID::hanzo_eth("zeekay");

    assert!(hanzo_did.is_same_entity(&lux_did));
    assert!(hanzo_did.is_same_entity(&hanzo_eth_did));
    assert!(lux_did.is_same_entity(&hanzo_eth_did));

    // Test different identities
    let other_did = DID::hanzo("alice");
    assert!(!hanzo_did.is_same_entity(&other_did));
}

#[test]
fn test_context_aware_resolution() {
    // Test @username resolution in different contexts
    let hanzo_context = DID::from_username("@zeekay", "hanzo");
    let lux_context = DID::from_username("zeekay", "lux");

    assert_eq!(hanzo_context, DID::hanzo("zeekay"));
    assert_eq!(lux_context, DID::lux("zeekay"));

    // Test omnichain variants
    let variants = hanzo_context.get_omnichain_variants();
    assert!(variants.contains(&DID::hanzo("zeekay")));
    assert!(variants.contains(&DID::lux("zeekay")));
    assert!(variants.contains(&DID::hanzo_local("zeekay")));
}

#[test]
fn test_native_chain_dids() {
    // Test native chain DIDs
    let eth_did = DID::eth("zeekay");
    let base_did = DID::base("zeekay");
    let polygon_did = DID::polygon("zeekay");

    assert_eq!(eth_did.to_string_full(), "did:eth:zeekay");
    assert_eq!(base_did.to_string_full(), "did:base:zeekay");
    assert_eq!(polygon_did.to_string_full(), "did:polygon:zeekay");

    // Test network detection
    assert_eq!(eth_did.get_network(), Some(Network::Ethereum));
    assert_eq!(base_did.get_network(), Some(Network::Base));
    assert_eq!(polygon_did.get_network(), Some(Network::Polygon));

    // Test omnichain identity
    assert!(eth_did.is_same_entity(&base_did));
    assert!(eth_did.is_same_entity(&polygon_did));
}

#[test]
fn test_network_properties() {
    assert_eq!(Network::Ethereum.chain_id(), Some(1));
    assert_eq!(Network::Base.chain_id(), Some(8453));
    assert_eq!(Network::Polygon.chain_id(), Some(137));
    assert!(!Network::Ethereum.is_testnet());
    assert!(Network::Sepolia.is_testnet());
    assert!(Network::Hanzo.rpc_endpoint().is_some());
    assert!(Network::Lux.rpc_endpoint().is_some());
    assert!(Network::Ethereum.rpc_endpoint().is_some());
}

#[test]
fn test_pars_zoo_ai_dids() {
    // Test Pars Network DIDs
    let pars_did = DID::pars("cyrus");
    assert_eq!(pars_did.to_string_full(), "did:pars:cyrus");
    assert_eq!(pars_did.get_network(), Some(Network::Pars));
    assert_eq!(Network::Pars.chain_id(), Some(494949));

    // Test Zoo Network DIDs
    let zoo_did = DID::zoo("alice");
    assert_eq!(zoo_did.to_string_full(), "did:zoo:alice");
    assert_eq!(zoo_did.get_network(), Some(Network::Zoo));
    assert_eq!(Network::Zoo.chain_id(), Some(200200));

    // Test AI DID (alias for Hanzo)
    let ai_did = DID::ai("bob");
    assert_eq!(ai_did.to_string_full(), "did:ai:bob");
    assert_eq!(ai_did.get_network(), Some(Network::Hanzo)); // Same network
    assert_eq!(Network::Hanzo.chain_id(), Some(36963));

    // Test AI and Hanzo are same entity
    let hanzo_did = DID::hanzo("bob");
    assert!(ai_did.is_same_entity(&hanzo_did));
}

#[test]
fn test_sparkle_pony_dids() {
    // Test Sparkle Pony Chain DIDs (separate from Pars)
    let sparkle_did = DID::sparkle("alice");
    let spc_did = DID::spc("alice");
    let sparklepony_did = DID::sparklepony("alice");

    // All three methods are for Sparkle Pony Chain
    assert_eq!(sparkle_did.to_string_full(), "did:sparkle:alice");
    assert_eq!(spc_did.to_string_full(), "did:spc:alice");
    assert_eq!(sparklepony_did.to_string_full(), "did:sparklepony:alice");

    // All resolve to SparklePony network
    assert_eq!(sparkle_did.get_network(), Some(Network::SparklePony));
    assert_eq!(spc_did.get_network(), Some(Network::SparklePony));
    assert_eq!(sparklepony_did.get_network(), Some(Network::SparklePony));

    // Chain ID is 36911
    assert_eq!(Network::SparklePony.chain_id(), Some(36911));

    // RPC endpoint
    assert_eq!(
        Network::SparklePony.rpc_endpoint(),
        Some("https://rpc.sparklepony.xyz")
    );

    // All three are same entity
    assert!(sparkle_did.is_same_entity(&spc_did));
    assert!(sparkle_did.is_same_entity(&sparklepony_did));

    // Pars is separate from SparklePony
    let pars_did = DID::pars("alice");
    assert_eq!(pars_did.get_network(), Some(Network::Pars));
    assert_eq!(Network::Pars.chain_id(), Some(494949));
    assert!(pars_did.is_same_entity(&sparkle_did)); // Same username = same entity
}

#[test]
fn test_omnichain_variants_includes_new_networks() {
    let did = DID::hanzo("zeekay");
    let variants = did.get_omnichain_variants();

    // Check Pars and Zoo networks are included
    assert!(variants.contains(&DID::pars("zeekay")));
    assert!(variants.contains(&DID::zoo("zeekay")));
    assert!(variants.contains(&DID::ai("zeekay")));
    assert!(variants.contains(&DID::pars_local("zeekay")));
    assert!(variants.contains(&DID::zoo_local("zeekay")));

    // Check Sparkle Pony Chain variants (all three reserved methods)
    assert!(variants.contains(&DID::sparkle("zeekay")));
    assert!(variants.contains(&DID::spc("zeekay")));
    assert!(variants.contains(&DID::sparklepony("zeekay")));
    assert!(variants.contains(&DID::sparkle_local("zeekay")));
}

#[test]
fn test_network_rpc_endpoints() {
    assert_eq!(
        Network::Pars.rpc_endpoint(),
        Some("https://rpc.pars.network")
    );
    assert_eq!(
        Network::SparklePony.rpc_endpoint(),
        Some("https://rpc.sparklepony.xyz")
    );
    assert_eq!(Network::Zoo.rpc_endpoint(), Some("https://rpc.zoo.network"));
    assert_eq!(Network::Hanzo.rpc_endpoint(), Some("https://rpc.hanzo.ai"));
    assert_eq!(
        Network::Lux.rpc_endpoint(),
        Some("https://api.lux.network/ext/bc/C/rpc")
    );
}

#[test]
fn test_from_username_context() {
    // Test context-aware DID creation
    let pars_did = DID::from_username("@alice", "pars");
    assert_eq!(pars_did.to_string_full(), "did:pars:alice");
    assert_eq!(pars_did.get_network(), Some(Network::Pars));

    let spc_did = DID::from_username("alice", "spc");
    assert_eq!(spc_did.to_string_full(), "did:sparkle:alice");
    assert_eq!(spc_did.get_network(), Some(Network::SparklePony));

    let sparkle_did = DID::from_username("alice", "sparkle");
    assert_eq!(sparkle_did.to_string_full(), "did:sparkle:alice");

    let sparklepony_did = DID::from_username("alice", "sparklepony");
    assert_eq!(sparklepony_did.to_string_full(), "did:sparkle:alice");

    // All SPC contexts should create sparkle DIDs
    assert_eq!(spc_did, sparkle_did);
    assert_eq!(spc_did, sparklepony_did);
}
