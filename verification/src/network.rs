//! The networks a DID can live on, with their chain ids, RPC endpoints and names.
use vstd::prelude::*;

use crate::error::DIDError;
use crate::text::{ascii_lowercase, lowercase_of, starts_with, str_eq, to_lowercase};

verus! {

/// Supported networks for DIDs.
#[derive(Debug, Clone, Copy, PartialEq, Eq, Hash, Structural)]
pub enum Network {
    /// Hanzo mainnet (shorthand: did:hanzo:username or did:ai:username), chain id 36963.
    Hanzo,
    /// Lux mainnet (shorthand: did:lux:username), chain id 96369.
    Lux,
    /// Pars Network (shorthand: did:pars:username), chain id 494949.
    Pars,
    /// Sparkle Pony Chain (did:sparkle, did:spc, did:sparklepony), chain id 36911.
    SparklePony,
    /// Zoo Network (shorthand: did:zoo:username), chain id 200200.
    Zoo,
    /// Local development networks.
    Local,
    /// Ethereum mainnet (native: did:eth:username).
    Ethereum,
    /// Sepolia testnet (native: did:sepolia:username).
    Sepolia,
    /// Base L2 (native: did:base:username).
    Base,
    /// Base Sepolia testnet (native: did:base-sepolia:username).
    BaseSepolia,
    /// Polygon (native: did:polygon:username).
    Polygon,
    /// Arbitrum (native: did:arbitrum:username).
    Arbitrum,
    /// Optimism (native: did:optimism:username).
    Optimism,
    /// Lux Fuji testnet.
    LuxFuji,
    /// IPFS.
    IPFS,
}

/// The network a lowercase name denotes, if any (aliases included).
pub open spec fn network_of_name(name: Seq<char>) -> Option<Network> {
    if name == "hanzo"@ || name == "ai"@ {
        Some(Network::Hanzo)
    } else if name == "lux"@ {
        Some(Network::Lux)
    } else if name == "pars"@ {
        Some(Network::Pars)
    } else if name == "sparkle"@ || name == "spc"@ || name == "sparklepony"@ {
        Some(Network::SparklePony)
    } else if name == "zoo"@ {
        Some(Network::Zoo)
    } else if name == "local"@ || name == "localhost"@ {
        Some(Network::Local)
    } else if name == "eth"@ || name == "ethereum"@ {
        Some(Network::Ethereum)
    } else if name == "sepolia"@ {
        Some(Network::Sepolia)
    } else if name == "base"@ {
        Some(Network::Base)
    } else if name == "base-sepolia"@ {
        Some(Network::BaseSepolia)
    } else if name == "polygon"@ || name == "matic"@ {
        Some(Network::Polygon)
    } else if name == "arbitrum"@ || name == "arb"@ {
        Some(Network::Arbitrum)
    } else if name == "optimism"@ || name == "op"@ {
        Some(Network::Optimism)
    } else if name == "lux-fuji"@ || name == "fuji"@ {
        Some(Network::LuxFuji)
    } else if name == "ipfs"@ {
        Some(Network::IPFS)
    } else {
        None
    }
}

/// The network that a name denotes once lowercased, as `Network::from_str` reads it.
pub open spec fn network_from_str_spec(s: Seq<char>) -> Option<Network> {
    network_of_name(lowercase_of(s))
}

/// The EVM chain id of a network, if it has one.
pub open spec fn chain_id_spec(n: Network) -> Option<u64> {
    match n {
        Network::Hanzo => Some(36963),
        Network::Lux => Some(96369),
        Network::Pars => Some(494949),
        Network::SparklePony => Some(36911),
        Network::Zoo => Some(200200),
        Network::Ethereum => Some(1),
        Network::Sepolia => Some(11155111),
        Network::Base => Some(8453),
        Network::BaseSepolia => Some(84532),
        Network::Polygon => Some(137),
        Network::Arbitrum => Some(42161),
        Network::Optimism => Some(10),
        Network::LuxFuji => Some(43113),
        Network::Local => None,
        Network::IPFS => None,
    }
}

/// Whether a network is a test network.
pub open spec fn is_testnet_spec(n: Network) -> bool {
    n == Network::Sepolia || n == Network::BaseSepolia || n == Network::LuxFuji || n
        == Network::Local
}

/// The RPC endpoint of a network, if it has one.
pub open spec fn rpc_endpoint_spec(n: Network) -> Option<Seq<char>> {
    match n {
        Network::Hanzo => Some("https://rpc.hanzo.ai"@),
        Network::Lux => Some("https://api.lux.network/ext/bc/C/rpc"@),
        Network::Pars => Some("https://rpc.pars.network"@),
        Network::SparklePony => Some("https://rpc.sparklepony.xyz"@),
        Network::Zoo => Some("https://rpc.zoo.network"@),
        Network::Ethereum => Some("https://eth.llamarpc.com"@),
        Network::Sepolia => Some("https://rpc.sepolia.org"@),
        Network::Base => Some("https://mainnet.base.org"@),
        Network::BaseSepolia => Some("https://sepolia.base.org"@),
        Network::Polygon => Some("https://polygon-rpc.com"@),
        Network::Arbitrum => Some("https://arb1.arbitrum.io/rpc"@),
        Network::Optimism => Some("https://mainnet.optimism.io"@),
        Network::LuxFuji => Some("https://api.lux-test.network/ext/bc/C/rpc"@),
        Network::Local => None,
        Network::IPFS => None,
    }
}

/// The canonical (display) name of a network.
pub open spec fn name_spec(n: Network) -> Seq<char> {
    match n {
        Network::Hanzo => "hanzo"@,
        Network::Lux => "lux"@,
        Network::Pars => "pars"@,
        Network::SparklePony => "sparkle"@,
        Network::Zoo => "zoo"@,
        Network::Local => "local"@,
        Network::Ethereum => "eth"@,
        Network::Sepolia => "sepolia"@,
        Network::Base => "base"@,
        Network::BaseSepolia => "base-sepolia"@,
        Network::Polygon => "polygon"@,
        Network::Arbitrum => "arbitrum"@,
        Network::Optimism => "optimism"@,
        Network::LuxFuji => "lux-fuji"@,
        Network::IPFS => "ipfs"@,
    }
}

/// The view of an optional static text.
pub open spec fn opt_str_view(o: Option<&str>) -> Option<Seq<char>> {
    match o {
        Some(s) => Some(s@),
        None => None,
    }
}

impl Network {
    /// Get the chain ID for EVM-compatible networks.
    pub fn chain_id(&self) -> (r: Option<u64>)
        ensures
            r == chain_id_spec(*self),
    {
        match self {
            Network::Hanzo => Some(36963),
            Network::Lux => Some(96369),
            Network::Pars => Some(494949),
            Network::SparklePony => Some(36911),
            Network::Zoo => Some(200200),
            Network::Ethereum => Some(1),
            Network::Sepolia => Some(11155111),
            Network::Base => Some(8453),
            Network::BaseSepolia => Some(84532),
            Network::Polygon => Some(137),
            Network::Arbitrum => Some(42161),
            Network::Optimism => Some(10),
            Network::LuxFuji => Some(43113),
            _ => None,
        }
    }

    /// Check if this is a testnet.
    pub fn is_testnet(&self) -> (r: bool)
        ensures
            r == is_testnet_spec(*self),
    {
        match self {
            Network::Sepolia | Network::BaseSepolia | Network::LuxFuji | Network::Local => true,
            _ => false,
        }
    }

    /// Get the RPC endpoint for the network.
    pub fn rpc_endpoint(&self) -> (r: Option<&'static str>)
        ensures
            opt_str_view(r) == rpc_endpoint_spec(*self),
    {
        match self {
            Network::Hanzo => Some("https://rpc.hanzo.ai"),
            Network::Lux => Some("https://api.lux.network/ext/bc/C/rpc"),
            Network::Pars => Some("https://rpc.pars.network"),
            Network::SparklePony => Some("https://rpc.sparklepony.xyz"),
            Network::Zoo => Some("https://rpc.zoo.network"),
            Network::Ethereum => Some("https://eth.llamarpc.com"),
            Network::Sepolia => Some("https://rpc.sepolia.org"),
            Network::Base => Some("https://mainnet.base.org"),
            Network::BaseSepolia => Some("https://sepolia.base.org"),
            Network::Polygon => Some("https://polygon-rpc.com"),
            Network::Arbitrum => Some("https://arb1.arbitrum.io/rpc"),
            Network::Optimism => Some("https://mainnet.optimism.io"),
            Network::LuxFuji => Some("https://api.lux-test.network/ext/bc/C/rpc"),
            _ => None,
        }
    }

    /// The canonical name of the network, the text its display form shows.
    pub fn as_str(&self) -> (r: &'static str)
        ensures
            r@ == name_spec(*self),
    {
        match self {
            Network::Hanzo => "hanzo",
            Network::Lux => "lux",
            Network::Pars => "pars",
            Network::SparklePony => "sparkle",
            Network::Zoo => "zoo",
            Network::Local => "local",
            Network::Ethereum => "eth",
            Network::Sepolia => "sepolia",
            Network::Base => "base",
            Network::BaseSepolia => "base-sepolia",
            Network::Polygon => "polygon",
            Network::Arbitrum => "arbitrum",
            Network::Optimism => "optimism",
            Network::LuxFuji => "lux-fuji",
            Network::IPFS => "ipfs",
        }
    }

    /// The network an already lowercased name denotes, aliases included.
    pub fn from_lowercase_name(name: &str) -> (r: Option<Network>)
        ensures
            r == network_of_name(name@),
    {
        if str_eq(name, "hanzo") || str_eq(name, "ai") {
            Some(Network::Hanzo)
        } else if str_eq(name, "lux") {
            Some(Network::Lux)
        } else if str_eq(name, "pars") {
            Some(Network::Pars)
        } else if str_eq(name, "sparkle") || str_eq(name, "spc") || str_eq(name, "sparklepony") {
            Some(Network::SparklePony)
        } else if str_eq(name, "zoo") {
            Some(Network::Zoo)
        } else if str_eq(name, "local") || str_eq(name, "localhost") {
            Some(Network::Local)
        } else if str_eq(name, "eth") || str_eq(name, "ethereum") {
            Some(Network::Ethereum)
        } else if str_eq(name, "sepolia") {
            Some(Network::Sepolia)
        } else if str_eq(name, "base") {
            Some(Network::Base)
        } else if str_eq(name, "base-sepolia") {
            Some(Network::BaseSepolia)
        } else if str_eq(name, "polygon") || str_eq(name, "matic") {
            Some(Network::Polygon)
        } else if str_eq(name, "arbitrum") || str_eq(name, "arb") {
            Some(Network::Arbitrum)
        } else if str_eq(name, "optimism") || str_eq(name, "op") {
            Some(Network::Optimism)
        } else if str_eq(name, "lux-fuji") || str_eq(name, "fuji") {
            Some(Network::LuxFuji)
        } else if str_eq(name, "ipfs") {
            Some(Network::IPFS)
        } else {
            None
        }
    }

    /// Read a network name, ignoring case; the error carries the name as given.
    pub fn from_str(s: &str) -> (r: Result<Network, DIDError>)
        ensures
            match network_from_str_spec(s@) {
                Some(n) => r == Ok::<Network, DIDError>(n),
                None => r matches Err(DIDError::UnknownChain(t)) && t@ == s@,
            },
            vstd::utf8::is_ascii_chars(s@) ==> match network_of_name(ascii_lowercase(s@)) {
                Some(n) => r == Ok::<Network, DIDError>(n),
                None => r is Err,
            },
    {
        let lower = to_lowercase(s);
        match Network::from_lowercase_name(lower.as_str()) {
            Some(n) => Ok(n),
            None => Err(DIDError::UnknownChain(s.to_owned())),
        }
    }
}

impl std::str::FromStr for Network {
    type Err = DIDError;

    fn from_str(s: &str) -> (r: Result<Network, DIDError>)
        ensures
            match network_from_str_spec(s@) {
                Some(n) => r == Ok::<Network, DIDError>(n),
                None => r matches Err(DIDError::UnknownChain(t)) && t@ == s@,
            },
            vstd::utf8::is_ascii_chars(s@) ==> match network_of_name(ascii_lowercase(s@)) {
                Some(n) => r == Ok::<Network, DIDError>(n),
                None => r is Err,
            },
    {
        Network::from_str(s)
    }
}

/// `s` ends with `suffix`.
pub open spec fn ends_with(s: Seq<char>, suffix: Seq<char>) -> bool {
    suffix.len() <= s.len() && s.skip(s.len() - suffix.len()) == suffix
}

/// A text that ends with a non-empty suffix ends with the suffix's last character.
proof fn lemma_ends_with_last(s: Seq<char>, suffix: Seq<char>)
    requires
        ends_with(s, suffix),
        suffix.len() > 0,
    ensures
        s.len() > 0 && s.last() == suffix.last(),
{
    assert(s.skip(s.len() - suffix.len())[suffix.len() - 1] == s.last());
}

/// The test networks are exactly those named as one: the Sepolia networks (`sepolia`,
/// `base-sepolia`), the Fuji network (`lux-fuji`) and the local network (`local`).
pub proof fn law_testnets_by_name(n: Network)
    ensures
        is_testnet_spec(n) <==> (ends_with(name_spec(n), "sepolia"@) || ends_with(name_spec(n), "fuji"@)
            || name_spec(n) == "local"@),
{
    reveal_strlit("sepolia");
    reveal_strlit("fuji");
    reveal_strlit("local");
    reveal_strlit("hanzo");
    reveal_strlit("lux");
    reveal_strlit("pars");
    reveal_strlit("sparkle");
    reveal_strlit("zoo");
    reveal_strlit("eth");
    reveal_strlit("base");
    reveal_strlit("base-sepolia");
    reveal_strlit("polygon");
    reveal_strlit("arbitrum");
    reveal_strlit("optimism");
    reveal_strlit("lux-fuji");
    reveal_strlit("ipfs");
    let name = name_spec(n);
    if ends_with(name, "sepolia"@) {
        lemma_ends_with_last(name, "sepolia"@);
    }
    if ends_with(name, "fuji"@) {
        lemma_ends_with_last(name, "fuji"@);
    }
    if name == "local"@ {
        assert(name[0] == 'l' && name[4] == 'l');
    }
    match n {
        Network::Sepolia => {
            assert(name.skip(0) =~= "sepolia"@);
        },
        Network::BaseSepolia => {
            assert(name.skip(5) =~= "sepolia"@);
        },
        Network::LuxFuji => {
            assert(name.skip(4) =~= "fuji"@);
        },
        _ => {},
    }
}

/// No two networks share a chain id.
pub proof fn law_chain_ids_distinct(a: Network, b: Network)
    requires
        chain_id_spec(a) is Some,
        chain_id_spec(a) == chain_id_spec(b),
    ensures
        a == b,
{
}

/// A network has an RPC endpoint exactly when it has a chain id, and every endpoint is an
/// `https://` URL.
pub proof fn law_rpc_endpoints(n: Network)
    ensures
        rpc_endpoint_spec(n) is Some <==> chain_id_spec(n) is Some,
        rpc_endpoint_spec(n) matches Some(url) ==> starts_with(url, "https://"@),
{
    reveal_strlit("https://");
    reveal_strlit("https://rpc.hanzo.ai");
    reveal_strlit("https://api.lux.network/ext/bc/C/rpc");
    reveal_strlit("https://rpc.pars.network");
    reveal_strlit("https://rpc.sparklepony.xyz");
    reveal_strlit("https://rpc.zoo.network");
    reveal_strlit("https://eth.llamarpc.com");
    reveal_strlit("https://rpc.sepolia.org");
    reveal_strlit("https://mainnet.base.org");
    reveal_strlit("https://sepolia.base.org");
    reveal_strlit("https://polygon-rpc.com");
    reveal_strlit("https://arb1.arbitrum.io/rpc");
    reveal_strlit("https://mainnet.optimism.io");
    reveal_strlit("https://api.lux-test.network/ext/bc/C/rpc");
    if let Some(url) = rpc_endpoint_spec(n) {
        assert(url.take(8) =~= "https://"@);
    }
}

} // verus!
