//! W3C DID (Decentralized Identifier): the value, its constructors and its text form.
//!
//! Format: `did:method:method-specific-id[/path][?query][#fragment]`.
use vstd::prelude::*;

use crate::error::DIDError;
use crate::grammar::{read_did, reading};
use crate::network::{Network, network_from_str_spec, network_of_name};
use crate::text::{ascii_lowercase, concat, find_char, substring, str_eq, to_lowercase, lowercase_of};
use vstd::utf8::is_ascii_chars;

verus! {

/// A W3C compliant Decentralized Identifier.
///
/// Example: `did:hanzo:eth:0x742d35Cc6634C0532925a3b844Bc9e7595f0bEb7`.
#[derive(Debug, Clone, PartialEq, Eq, Hash)]
pub struct DID {
    /// The DID method (e.g. "hanzo", "ethr", "key", "web").
    pub method: String,
    /// Method-specific identifier.
    pub id: String,
    /// Optional path component (kept with its leading `/`).
    pub path: Option<String>,
    /// Optional query parameters (without the leading `?`).
    pub query: Option<String>,
    /// Optional fragment (without the leading `#`).
    pub fragment: Option<String>,
}

/// The mathematical content of a DID: its five components as character sequences.
pub struct DIDView {
    pub method: Seq<char>,
    pub id: Seq<char>,
    pub path: Option<Seq<char>>,
    pub query: Option<Seq<char>>,
    pub fragment: Option<Seq<char>>,
}

/// The view of an optional string.
pub open spec fn opt_view(o: Option<String>) -> Option<Seq<char>> {
    match o {
        Some(s) => Some(s@),
        None => None,
    }
}

impl View for DID {
    type V = DIDView;

    open spec fn view(&self) -> DIDView {
        DIDView {
            method: self.method@,
            id: self.id@,
            path: opt_view(self.path),
            query: opt_view(self.query),
            fragment: opt_view(self.fragment),
        }
    }
}

/// A DID with the given method and id and no path, query or fragment.
pub open spec fn plain_did(method: Seq<char>, id: Seq<char>) -> DIDView {
    DIDView { method, id, path: None, query: None, fragment: None }
}

/// `"did:"`, the scheme every DID starts with.
pub open spec fn did_scheme() -> Seq<char> {
    seq!['d', 'i', 'd', ':']
}

/// The text of an optional component, or nothing.
pub open spec fn opt_text(o: Option<Seq<char>>) -> Seq<char> {
    match o {
        Some(t) => t,
        None => Seq::empty(),
    }
}

/// The text of an optional component behind its marker character, or nothing.
pub open spec fn marked_text(mark: char, o: Option<Seq<char>>) -> Seq<char> {
    match o {
        Some(t) => seq![mark] + t,
        None => Seq::empty(),
    }
}

/// The full text of a DID: `did:method:id`, then the path, `?query` and `#fragment`
/// for those that are present.
pub open spec fn render(d: DIDView) -> Seq<char> {
    did_scheme() + d.method + seq![':'] + d.id + opt_text(d.path) + marked_text('?', d.query)
        + marked_text('#', d.fragment)
}

/// `chain:` followed by `rest`: the id of a DID that names its chain.
pub open spec fn chain_id_text(chain: Seq<char>, rest: Seq<char>) -> Seq<char> {
    chain + seq![':'] + rest
}

impl DID {
    /// Create a new DID with the given method and method-specific id.
    pub fn new(method: &str, id: &str) -> (r: DID)
        ensures
            r@ == plain_did(method@, id@),
    {
        DID { method: method.to_owned(), id: id.to_owned(), path: None, query: None, fragment: None }
    }

    /// A DID whose id is `chain:rest`.
    fn with_chain(method: &str, chain: &str, rest: &str) -> (r: DID)
        ensures
            r@ == plain_did(method@, chain_id_text(chain@, rest@)),
    {
        let prefix = concat(chain, ":");
        let id = concat(prefix.as_str(), rest);
        proof {
            reveal_strlit(":");
            assert(id@ =~= chain_id_text(chain@, rest@));
        }
        DID::new(method, id.as_str())
    }

    /// Create a Hanzo network DID (mainnet shorthand).
    pub fn hanzo(username: &str) -> (r: DID)
        ensures
            r@ == plain_did("hanzo"@, username@),
    {
        DID::new("hanzo", username)
    }

    /// Create a Lux network DID (mainnet shorthand).
    pub fn lux(username: &str) -> (r: DID)
        ensures
            r@ == plain_did("lux"@, username@),
    {
        DID::new("lux", username)
    }

    /// Create a Pars network DID (mainnet shorthand, chain id 494949).
    pub fn pars(username: &str) -> (r: DID)
        ensures
            r@ == plain_did("pars"@, username@),
    {
        DID::new("pars", username)
    }

    /// Create a Zoo network DID (mainnet shorthand, chain id 200200).
    pub fn zoo(username: &str) -> (r: DID)
        ensures
            r@ == plain_did("zoo"@, username@),
    {
        DID::new("zoo", username)
    }

    /// Create an AI DID (Hanzo AI chain, chain id 36963).
    pub fn ai(username: &str) -> (r: DID)
        ensures
            r@ == plain_did("ai"@, username@),
    {
        DID::new("ai", username)
    }

    /// Create a Sparkle Pony DID (primary method, chain id 36911).
    /// Reserved methods: did:sparkle, did:spc, did:sparklepony.
    pub fn sparkle(username: &str) -> (r: DID)
        ensures
            r@ == plain_did("sparkle"@, username@),
    {
        DID::new("sparkle", username)
    }

    /// Create a Sparkle Pony DID (spc alias).
    pub fn spc(username: &str) -> (r: DID)
        ensures
            r@ == plain_did("spc"@, username@),
    {
        DID::new("spc", username)
    }

    /// Create a Sparkle Pony DID (sparklepony alias).
    pub fn sparklepony(username: &str) -> (r: DID)
        ensures
            r@ == plain_did("sparklepony"@, username@),
    {
        DID::new("sparklepony", username)
    }

    /// Create a local development DID for Hanzo.
    pub fn hanzo_local(identifier: &str) -> (r: DID)
        ensures
            r@ == plain_did("hanzo"@, chain_id_text("local"@, identifier@)),
    {
        DID::with_chain("hanzo", "local", identifier)
    }

    /// Create a local development DID for Lux.
    pub fn lux_local(identifier: &str) -> (r: DID)
        ensures
            r@ == plain_did("lux"@, chain_id_text("local"@, identifier@)),
    {
        DID::with_chain("lux", "local", identifier)
    }

    /// Create a local development DID for Pars.
    pub fn pars_local(identifier: &str) -> (r: DID)
        ensures
            r@ == plain_did("pars"@, chain_id_text("local"@, identifier@)),
    {
        DID::with_chain("pars", "local", identifier)
    }

    /// Create a local development DID for Zoo.
    pub fn zoo_local(identifier: &str) -> (r: DID)
        ensures
            r@ == plain_did("zoo"@, chain_id_text("local"@, identifier@)),
    {
        DID::with_chain("zoo", "local", identifier)
    }

    /// Create a local development DID for Sparkle Pony.
    pub fn sparkle_local(identifier: &str) -> (r: DID)
        ensures
            r@ == plain_did("sparkle"@, chain_id_text("local"@, identifier@)),
    {
        DID::with_chain("sparkle", "local", identifier)
    }

    /// Create a Hanzo DID for Ethereum (explicit chain).
    pub fn hanzo_eth(address: &str) -> (r: DID)
        ensures
            r@ == plain_did("hanzo"@, chain_id_text("eth"@, address@)),
    {
        DID::with_chain("hanzo", "eth", address)
    }

    /// Create a Hanzo DID for the Sepolia testnet.
    pub fn hanzo_sepolia(address: &str) -> (r: DID)
        ensures
            r@ == plain_did("hanzo"@, chain_id_text("sepolia"@, address@)),
    {
        DID::with_chain("hanzo", "sepolia", address)
    }

    /// Create a Hanzo DID for Base L2.
    pub fn hanzo_base(address: &str) -> (r: DID)
        ensures
            r@ == plain_did("hanzo"@, chain_id_text("base"@, address@)),
    {
        DID::with_chain("hanzo", "base", address)
    }

    /// Create a Lux DID for a specific chain.
    pub fn lux_chain(chain: &str, address: &str) -> (r: DID)
        ensures
            r@ == plain_did("lux"@, chain_id_text(chain@, address@)),
    {
        DID::with_chain("lux", chain, address)
    }

    /// Create an Ethereum mainnet DID.
    pub fn eth(identifier: &str) -> (r: DID)
        ensures
            r@ == plain_did("eth"@, identifier@),
    {
        DID::new("eth", identifier)
    }

    /// Create a Sepolia testnet DID.
    pub fn sepolia(identifier: &str) -> (r: DID)
        ensures
            r@ == plain_did("sepolia"@, identifier@),
    {
        DID::new("sepolia", identifier)
    }

    /// Create a Base L2 DID.
    pub fn base(identifier: &str) -> (r: DID)
        ensures
            r@ == plain_did("base"@, identifier@),
    {
        DID::new("base", identifier)
    }

    /// Create a Base Sepolia DID.
    pub fn base_sepolia(identifier: &str) -> (r: DID)
        ensures
            r@ == plain_did("base-sepolia"@, identifier@),
    {
        DID::new("base-sepolia", identifier)
    }

    /// Create a Polygon DID.
    pub fn polygon(identifier: &str) -> (r: DID)
        ensures
            r@ == plain_did("polygon"@, identifier@),
    {
        DID::new("polygon", identifier)
    }

    /// Create an Arbitrum DID.
    pub fn arbitrum(identifier: &str) -> (r: DID)
        ensures
            r@ == plain_did("arbitrum"@, identifier@),
    {
        DID::new("arbitrum", identifier)
    }

    /// Create an Optimism DID.
    pub fn optimism(identifier: &str) -> (r: DID)
        ensures
            r@ == plain_did("optimism"@, identifier@),
    {
        DID::new("optimism", identifier)
    }

    /// Set the fragment component.
    pub fn with_fragment(self, fragment: &str) -> (r: DID)
        ensures
            r@ == (DIDView { fragment: Some(fragment@), ..self@ }),
    {
        let mut d = self;
        d.fragment = Some(fragment.to_owned());
        d
    }

    /// Set the path component.
    pub fn with_path(self, path: &str) -> (r: DID)
        ensures
            r@ == (DIDView { path: Some(path@), ..self@ }),
    {
        let mut d = self;
        d.path = Some(path.to_owned());
        d
    }

    /// Set the query component.
    pub fn with_query(self, query: &str) -> (r: DID)
        ensures
            r@ == (DIDView { query: Some(query@), ..self@ }),
    {
        let mut d = self;
        d.query = Some(query.to_owned());
        d
    }

    /// Get the full DID string representation.
    pub fn to_string_full(&self) -> (r: String)
        ensures
            r@ == render(self@),
    {
        let mut result = "did:".to_owned();
        result.append(self.method.as_str());
        result.append(":");
        result.append(self.id.as_str());
        if let Some(path) = &self.path {
            result.append(path.as_str());
        }
        if let Some(query) = &self.query {
            result.append("?");
            result.append(query.as_str());
        }
        if let Some(fragment) = &self.fragment {
            result.append("#");
            result.append(fragment.as_str());
        }
        proof {
            reveal_strlit("did:");
            reveal_strlit(":");
            reveal_strlit("?");
            reveal_strlit("#");
            assert(result@ =~= render(self@));
        }
        result
    }
}

/// The text of a refused DID in the message of `DID::parse`: `Invalid DID format: ` and the text.
pub open spec fn invalid_format_message(s: Seq<char>) -> Seq<char> {
    "Invalid DID format: "@ + s
}

/// The base identifier of a method-specific id: what follows its first `:`, or the whole id.
pub open spec fn identifier_of(id: Seq<char>) -> Seq<char> {
    match id.index_of_first(':') {
        Some(i) => id.skip(i + 1),
        None => id,
    }
}

/// The network a DID method names by shorthand.
pub open spec fn shorthand_network(method: Seq<char>) -> Option<Network> {
    if method == "hanzo"@ || method == "ai"@ {
        Some(Network::Hanzo)
    } else if method == "lux"@ {
        Some(Network::Lux)
    } else if method == "pars"@ {
        Some(Network::Pars)
    } else if method == "zoo"@ {
        Some(Network::Zoo)
    } else if method == "sparkle"@ || method == "spc"@ || method == "sparklepony"@ {
        Some(Network::SparklePony)
    } else {
        None
    }
}

/// The network a chain name embedded before the first `:` of the id denotes, if any.
pub open spec fn embedded_network(id: Seq<char>) -> Option<Network> {
    match id.index_of_first(':') {
        Some(i) => network_from_str_spec(id.take(i)),
        None => None,
    }
}

/// The network of a DID: the chain embedded in its id takes precedence, then the method
/// read as a network name, then the method's shorthand.
pub open spec fn network_of(d: DIDView) -> Option<Network> {
    if embedded_network(d.id) is Some {
        embedded_network(d.id)
    } else if network_from_str_spec(d.method) is Some {
        network_from_str_spec(d.method)
    } else {
        shorthand_network(d.method)
    }
}

/// The network an ASCII chain name embedded before the first `:` of the id denotes, if any.
pub open spec fn embedded_network_ascii(id: Seq<char>) -> Option<Network> {
    match id.index_of_first(':') {
        Some(i) => network_of_name(ascii_lowercase(id.take(i))),
        None => None,
    }
}

/// `network_of` for a DID whose method and id are ASCII, where lowercasing is ASCII lowercasing.
pub open spec fn network_of_ascii(d: DIDView) -> Option<Network> {
    if embedded_network_ascii(d.id) is Some {
        embedded_network_ascii(d.id)
    } else if network_of_name(ascii_lowercase(d.method)) is Some {
        network_of_name(ascii_lowercase(d.method))
    } else {
        shorthand_network(d.method)
    }
}

/// Two DIDs stand for the same entity: they are equal or share their base identifier.
pub open spec fn same_entity(d1: DIDView, d2: DIDView) -> bool {
    d1 == d2 || identifier_of(d1.id) == identifier_of(d2.id)
}

/// The DIDs of one entity, with base identifier `x`, across all networks, in order.
pub open spec fn omnichain_variants_of(x: Seq<char>) -> Seq<DIDView> {
    seq![
        plain_did("hanzo"@, x),
        plain_did("lux"@, x),
        plain_did("pars"@, x),
        plain_did("zoo"@, x),
        plain_did("ai"@, x),
        plain_did("sparkle"@, x),
        plain_did("spc"@, x),
        plain_did("sparklepony"@, x),
        plain_did("eth"@, x),
        plain_did("base"@, x),
        plain_did("polygon"@, x),
        plain_did("arbitrum"@, x),
        plain_did("optimism"@, x),
        plain_did("hanzo"@, chain_id_text("local"@, x)),
        plain_did("lux"@, chain_id_text("local"@, x)),
        plain_did("pars"@, chain_id_text("local"@, x)),
        plain_did("zoo"@, chain_id_text("local"@, x)),
        plain_did("sparkle"@, chain_id_text("local"@, x)),
        plain_did("sepolia"@, x),
        plain_did("base-sepolia"@, x),
        plain_did("hanzo"@, chain_id_text("eth"@, x)),
        plain_did("hanzo"@, chain_id_text("sepolia"@, x)),
        plain_did("hanzo"@, chain_id_text("base"@, x)),
        plain_did("lux"@, chain_id_text("fuji"@, x)),
    ]
}

/// A user name without its leading `@`, if it has one.
pub open spec fn strip_at(u: Seq<char>) -> Seq<char> {
    if u.len() > 0 && u[0] == '@' {
        u.skip(1)
    } else {
        u
    }
}

/// The DID method for a (lowercased) context name; unknown contexts default to `hanzo`.
pub open spec fn context_method(ctx: Seq<char>) -> Seq<char> {
    if ctx == "hanzo"@ {
        "hanzo"@
    } else if ctx == "lux"@ {
        "lux"@
    } else if ctx == "pars"@ {
        "pars"@
    } else if ctx == "sparkle"@ || ctx == "spc"@ || ctx == "sparklepony"@ {
        "sparkle"@
    } else if ctx == "zoo"@ {
        "zoo"@
    } else if ctx == "ai"@ {
        "ai"@
    } else {
        "hanzo"@
    }
}

fn opt_string_eq(a: &Option<String>, b: &Option<String>) -> (r: bool)
    ensures
        r == (opt_view(*a) == opt_view(*b)),
{
    match (a, b) {
        (Some(x), Some(y)) => str_eq(x.as_str(), y.as_str()),
        (None, None) => true,
        _ => false,
    }
}

impl DID {
    /// Parse a DID string (`did:method:id[/path][?query][#fragment]`, strict reading).
    pub fn parse(did_string: &str) -> (r: Result<DID, DIDError>)
        ensures
            match reading(true, did_string@) {
                Some(d) => r matches Ok(x) && x@ == d,
                None => r matches Err(DIDError::InvalidFormat(m)) && m@ == invalid_format_message(
                    did_string@,
                ),
            },
    {
        match read_did(did_string, true) {
            Some(d) => Ok(d),
            None => Err(DIDError::InvalidFormat(concat("Invalid DID format: ", did_string))),
        }
    }

    /// Read a DID string (`did:method:id[/path][?query][#fragment]`) in the loose reading,
    /// where the id may hold any character but `/`, `?` and `#`; a refused text comes back
    /// whole in the error.
    pub fn from_str(s: &str) -> (r: Result<DID, DIDError>)
        ensures
            match reading(false, s@) {
                Some(d) => r matches Ok(x) && x@ == d,
                None => r matches Err(DIDError::InvalidFormat(m)) && m@ == s@,
            },
    {
        match read_did(s, false) {
            Some(d) => Ok(d),
            None => Err(DIDError::InvalidFormat(s.to_owned())),
        }
    }

    /// Get the base identifier (username/address) from any DID.
    pub fn get_identifier(&self) -> (r: String)
        ensures
            r@ == identifier_of(self@.id),
    {
        match find_char(self.id.as_str(), ':') {
            Some(i) => {
                let n = self.id.as_str().unicode_len();
                substring(self.id.as_str(), i + 1, n)
            },
            None => self.id.clone(),
        }
    }

    /// Parse the network from the DID.
    pub fn get_network(&self) -> (r: Option<Network>)
        ensures
            r == network_of(self@),
            is_ascii_chars(self@.method) && is_ascii_chars(self@.id) ==> r == network_of_ascii(
                self@,
            ),
    {
        if let Some(i) = find_char(self.id.as_str(), ':') {
            let first = substring(self.id.as_str(), 0, i);
            proof {
                if is_ascii_chars(self@.id) {
                    assert forall|k: int| 0 <= k < first@.len() implies '\0' <= #[trigger] first@[k]
                        <= '\u{7f}' by {
                        assert(first@[k] == self@.id[k]);
                    }
                }
                assert(first@ =~= self@.id.take(i as int));
            }
            if let Ok(network) = Network::from_str(first.as_str()) {
                return Some(network);
            }
        }
        if let Ok(network) = Network::from_str(self.method.as_str()) {
            return Some(network);
        }
        let m = self.method.as_str();
        if str_eq(m, "hanzo") || str_eq(m, "ai") {
            Some(Network::Hanzo)
        } else if str_eq(m, "lux") {
            Some(Network::Lux)
        } else if str_eq(m, "pars") {
            Some(Network::Pars)
        } else if str_eq(m, "zoo") {
            Some(Network::Zoo)
        } else if str_eq(m, "sparkle") || str_eq(m, "spc") || str_eq(m, "sparklepony") {
            Some(Network::SparklePony)
        } else {
            None
        }
    }

    /// Check if this DID represents the same entity as another
    /// (same DID, or same base identifier on any network).
    pub fn is_same_entity(&self, other: &DID) -> (r: bool)
        ensures
            r == same_entity(self@, other@),
    {
        if self.method == other.method && self.id == other.id && opt_string_eq(&self.path, &other.path)
            && opt_string_eq(&self.query, &other.query) && opt_string_eq(
            &self.fragment,
            &other.fragment,
        ) {
            return true;
        }
        self.get_identifier() == other.get_identifier()
    }

    /// Get all DID variants for this entity across networks.
    pub fn get_omnichain_variants(&self) -> (r: Vec<DID>)
        ensures
            r@.len() == 24,
            forall|i: int| 0 <= i < 24 ==> #[trigger] r@[i]@ == omnichain_variants_of(
                identifier_of(self@.id),
            )[i],
    {
        let identifier = self.get_identifier();
        let x = identifier.as_str();
        let mut v: Vec<DID> = Vec::new();
        v.push(DID::hanzo(x));
        v.push(DID::lux(x));
        v.push(DID::pars(x));
        v.push(DID::zoo(x));
        v.push(DID::ai(x));
        v.push(DID::sparkle(x));
        v.push(DID::spc(x));
        v.push(DID::sparklepony(x));
        v.push(DID::eth(x));
        v.push(DID::base(x));
        v.push(DID::polygon(x));
        v.push(DID::arbitrum(x));
        v.push(DID::optimism(x));
        v.push(DID::hanzo_local(x));
        v.push(DID::lux_local(x));
        v.push(DID::pars_local(x));
        v.push(DID::zoo_local(x));
        v.push(DID::sparkle_local(x));
        v.push(DID::sepolia(x));
        v.push(DID::base_sepolia(x));
        v.push(DID::hanzo_eth(x));
        v.push(DID::hanzo_sepolia(x));
        v.push(DID::hanzo_base(x));
        v.push(DID::lux_chain("fuji", x));
        v
    }

    /// Create a context-aware DID from `@username` format; unknown contexts give a Hanzo DID.
    pub fn from_username(username: &str, context: &str) -> (r: DID)
        ensures
            r@ == plain_did(context_method(lowercase_of(context@)), strip_at(username@)),
            is_ascii_chars(context@) ==> r@ == plain_did(
                context_method(ascii_lowercase(context@)),
                strip_at(username@),
            ),
    {
        let n = username.unicode_len();
        let clean = if n > 0 && username.get_char(0) == '@' {
            substring(username, 1, n)
        } else {
            username.to_owned()
        };
        let c = to_lowercase(context);
        let ctx = c.as_str();
        let u = clean.as_str();
        if str_eq(ctx, "hanzo") {
            DID::hanzo(u)
        } else if str_eq(ctx, "lux") {
            DID::lux(u)
        } else if str_eq(ctx, "pars") {
            DID::pars(u)
        } else if str_eq(ctx, "sparkle") || str_eq(ctx, "spc") || str_eq(ctx, "sparklepony") {
            DID::sparkle(u)
        } else if str_eq(ctx, "zoo") {
            DID::zoo(u)
        } else if str_eq(ctx, "ai") {
            DID::ai(u)
        } else {
            DID::hanzo(u)
        }
    }
}

impl std::str::FromStr for DID {
    type Err = DIDError;

    fn from_str(s: &str) -> (r: Result<DID, DIDError>)
        ensures
            match reading(false, s@) {
                Some(d) => r matches Ok(x) && x@ == d,
                None => r matches Err(DIDError::InvalidFormat(m)) && m@ == s@,
            },
    {
        DID::from_str(s)
    }
}

} // verus!
