//! Properties of DIDs that relate several operations.
use vstd::prelude::*;

use crate::did::{
    chain_id_text, identifier_of, network_of_ascii, omnichain_variants_of, plain_did,
    render, same_entity, DIDView,
};
use crate::grammar::{
    is_id_char, is_reading, law_read_after_render, law_render_after_read, reading,
};
use crate::network::{name_spec, network_of_name, Network};
use crate::text::ascii_lowercase;

verus! {

/// Two DIDs are the same entity exactly when their base identifiers agree.
pub proof fn law_same_entity_iff_same_identifier(d1: DIDView, d2: DIDView)
    ensures
        same_entity(d1, d2) == (identifier_of(d1.id) == identifier_of(d2.id)),
{
}

/// Being the same entity is reflexive, symmetric and transitive.
pub proof fn law_same_entity_is_equivalence(d1: DIDView, d2: DIDView, d3: DIDView)
    ensures
        same_entity(d1, d1),
        same_entity(d1, d2) ==> same_entity(d2, d1),
        same_entity(d1, d2) && same_entity(d2, d3) ==> same_entity(d1, d3),
{
}

/// An id without `:` is its own base identifier.
pub proof fn law_plain_id_is_identifier(x: Seq<char>)
    requires
        !x.contains(':'),
    ensures
        identifier_of(x) == x,
{
    x.index_of_first_ensures(':');
}

/// An id `chain:x` whose chain name holds no `:` has base identifier `x`.
pub proof fn law_chain_id_identifier(chain: Seq<char>, x: Seq<char>)
    requires
        !chain.contains(':'),
    ensures
        identifier_of(chain_id_text(chain, x)) == x,
{
    let id = chain_id_text(chain, x);
    id.index_of_first_ensures(':');
    assert(id[chain.len() as int] == ':');
    let i = id.index_of_first(':')->0;
    if i < chain.len() {
        assert(chain[i] == id[i]);
    }
    assert(i == chain.len());
    assert(id.skip(i + 1) =~= x);
}

/// Every omnichain variant of a DID is the same entity as the DID, provided its base
/// identifier holds no `:` (otherwise the shorthand variants, whose id is the whole base
/// identifier, have a shorter base identifier of their own).
pub proof fn law_omnichain_variants_same_entity(d: DIDView, i: int)
    requires
        !identifier_of(d.id).contains(':'),
        0 <= i < 24,
    ensures
        same_entity(d, omnichain_variants_of(identifier_of(d.id))[i]),
        identifier_of(omnichain_variants_of(identifier_of(d.id))[i].id) == identifier_of(d.id),
        omnichain_variants_of(identifier_of(omnichain_variants_of(identifier_of(d.id))[i].id))
            == omnichain_variants_of(identifier_of(d.id)),
{
    let x = identifier_of(d.id);
    let v = omnichain_variants_of(x);
    reveal_strlit("local");
    reveal_strlit("eth");
    reveal_strlit("sepolia");
    reveal_strlit("base");
    reveal_strlit("fuji");
    law_plain_id_is_identifier(x);
    law_chain_id_identifier("local"@, x);
    law_chain_id_identifier("eth"@, x);
    law_chain_id_identifier("sepolia"@, x);
    law_chain_id_identifier("base"@, x);
    law_chain_id_identifier("fuji"@, x);
    assert(identifier_of(v[i].id) == x);
}

/// The loose reading agrees with the strict one wherever the strict one exists: both split
/// the text into the same method, id, path, query and fragment.
pub proof fn law_loose_reading_extends_strict(s: Seq<char>)
    requires
        reading(true, s) is Some,
    ensures
        reading(false, s) == reading(true, s),
{
    let d = reading(true, s)->0;
    law_render_after_read(true, s);
    assert forall|i: int| 0 <= i < d.id.len() implies is_id_char(false, #[trigger] d.id[i]) by {
        assert(is_id_char(true, d.id[i]));
    }
    assert(is_reading(false, s, d));
    law_read_after_render(false, d);
}

/// The display name of every network reads back as that network, in any ASCII case.
pub proof fn law_network_name_round_trip(n: Network)
    ensures
        network_of_name(name_spec(n)) == Some(n),
        vstd::utf8::is_ascii_chars(name_spec(n)),
        ascii_lowercase(name_spec(n)) == name_spec(n),
{
    reveal_strlit("hanzo");
    reveal_strlit("ai");
    reveal_strlit("lux");
    reveal_strlit("pars");
    reveal_strlit("sparkle");
    reveal_strlit("spc");
    reveal_strlit("sparklepony");
    reveal_strlit("zoo");
    reveal_strlit("local");
    reveal_strlit("localhost");
    reveal_strlit("eth");
    reveal_strlit("ethereum");
    reveal_strlit("sepolia");
    reveal_strlit("base");
    reveal_strlit("base-sepolia");
    reveal_strlit("polygon");
    reveal_strlit("matic");
    reveal_strlit("arbitrum");
    reveal_strlit("arb");
    reveal_strlit("optimism");
    reveal_strlit("op");
    reveal_strlit("lux-fuji");
    reveal_strlit("fuji");
    reveal_strlit("ipfs");
    let s = name_spec(n);
    assert(ascii_lowercase(s) =~= s);
    assert("hanzo"@[0] == 'h');
    assert("ai"@[0] == 'a');
    assert("lux"@[0] == 'l');
    assert("pars"@[0] == 'p');
    assert("sparkle"@[0] == 's');
    assert("spc"@[0] == 's');
    assert("sparklepony"@[0] == 's');
    assert("zoo"@[0] == 'z');
    assert("local"@[0] == 'l');
    assert("localhost"@[0] == 'l');
    assert("eth"@[0] == 'e');
    assert("ethereum"@[0] == 'e');
    assert("sepolia"@[0] == 's');
    assert("base"@[0] == 'b');
    assert("base-sepolia"@[0] == 'b');
    assert("polygon"@[0] == 'p');
    assert("matic"@[0] == 'm');
    assert("arbitrum"@[0] == 'a');
    assert("arb"@[0] == 'a');
    assert("optimism"@[0] == 'o');
    assert("op"@[0] == 'o');
    assert("lux-fuji"@[0] == 'l');
    assert("fuji"@[0] == 'f');
    assert("ipfs"@[0] == 'i');
    assert("sparkle"@[1] == 'p');
    assert("sepolia"@[1] == 'e');

    match n {
        Network::Hanzo => {},
        Network::Lux => {},
        Network::Pars => {},
        Network::SparklePony => {},
        Network::Zoo => {},
        Network::Local => {},
        Network::Ethereum => {},
        Network::Sepolia => {},
        Network::Base => {},
        Network::BaseSepolia => {},
        Network::Polygon => {},
        Network::Arbitrum => {},
        Network::Optimism => {},
        Network::LuxFuji => {},
        Network::IPFS => {},
    }
}

/// `did:hanzo:x` and `did:ai:x` are on the same network, and so are `did:sparkle:x`,
/// `did:spc:x` and `did:sparklepony:x`; when `x` names no chain, those networks are Hanzo
/// and Sparkle Pony.
pub proof fn law_method_aliases_share_network(x: Seq<char>)
    ensures
        network_of_ascii(plain_did("hanzo"@, x)) == network_of_ascii(plain_did("ai"@, x)),
        network_of_ascii(plain_did("sparkle"@, x)) == network_of_ascii(plain_did("spc"@, x)),
        network_of_ascii(plain_did("sparkle"@, x)) == network_of_ascii(
            plain_did("sparklepony"@, x),
        ),
        !x.contains(':') ==> network_of_ascii(plain_did("hanzo"@, x)) == Some(Network::Hanzo),
        !x.contains(':') ==> network_of_ascii(plain_did("sparkle"@, x)) == Some(
            Network::SparklePony,
        ),
{
    reveal_strlit("hanzo");
    reveal_strlit("ai");
    reveal_strlit("sparkle");
    reveal_strlit("spc");
    reveal_strlit("sparklepony");
    assert(ascii_lowercase("hanzo"@) =~= "hanzo"@);
    assert(ascii_lowercase("ai"@) =~= "ai"@);
    assert(ascii_lowercase("sparkle"@) =~= "sparkle"@);
    assert(ascii_lowercase("spc"@) =~= "spc"@);
    assert(ascii_lowercase("sparklepony"@) =~= "sparklepony"@);
    reveal_strlit("lux");
    reveal_strlit("pars");
    assert("ai"@[0] == 'a');
    assert("spc"@[0] == 's');
    assert("lux"@[0] == 'l');
    assert("hanzo"@[0] == 'h');
    assert("sparkle"@[1] == 'p');
    x.index_of_first_ensures(':');
}

/// A number that tells the variants of one identifier apart: it combines the length and the
/// first two characters of the method with the length of the prefix before the identifier.
spec fn variant_key(i: int) -> int {
    if i == 0 {
        22089700
    } else if i == 1 {
        14171700
    } else if i == 2 {
        18249700
    } else if i == 3 {
        14451100
    } else if i == 4 {
        9950500
    } else if i == 5 {
        30311200
    } else if i == 6 {
        14311200
    } else if i == 7 {
        46311200
    } else if i == 8 {
        14031600
    } else if i == 9 {
        17969700
    } else if i == 10 {
        30251100
    } else if i == 11 {
        33951400
    } else if i == 12 {
        34231200
    } else if i == 13 {
        22089706
    } else if i == 14 {
        14171706
    } else if i == 15 {
        18249706
    } else if i == 16 {
        14451106
    } else if i == 17 {
        30311206
    } else if i == 18 {
        30310100
    } else if i == 19 {
        49969700
    } else if i == 20 {
        22089704
    } else if i == 21 {
        22089708
    } else if i == 22 {
        22089705
    } else {
        14171705
    }
}

/// The same number, computed from a variant of `x`.
spec fn key_of(d: DIDView, x: Seq<char>) -> int {
    ((d.method.len() * 200 + d.method[0] as int) * 200 + d.method[1] as int) * 100 + (d.id.len()
        - x.len())
}

proof fn lemma_variant_key(x: Seq<char>, i: int)
    requires
        0 <= i < 24,
    ensures
        key_of(omnichain_variants_of(x)[i], x) == variant_key(i),
{
    let v = omnichain_variants_of(x);
    assert(key_of(v[i], x) == variant_key(i)) by {
        reveal_strlit("ai");
        reveal_strlit("arbitrum");
        reveal_strlit("base");
        reveal_strlit("base-sepolia");
        reveal_strlit("eth");
        reveal_strlit("fuji");
        reveal_strlit("hanzo");
        reveal_strlit("local");
        reveal_strlit("lux");
        reveal_strlit("optimism");
        reveal_strlit("pars");
        reveal_strlit("polygon");
        reveal_strlit("sepolia");
        reveal_strlit("sparkle");
        reveal_strlit("sparklepony");
        reveal_strlit("spc");
        reveal_strlit("zoo");
        if i == 0 {
            assert(v[0] == v[i]);
        } else if i == 1 {
            assert(v[1] == v[i]);
        } else if i == 2 {
            assert(v[2] == v[i]);
        } else if i == 3 {
            assert(v[3] == v[i]);
        } else if i == 4 {
            assert(v[4] == v[i]);
        } else if i == 5 {
            assert(v[5] == v[i]);
        } else if i == 6 {
            assert(v[6] == v[i]);
        } else if i == 7 {
            assert(v[7] == v[i]);
        } else if i == 8 {
            assert(v[8] == v[i]);
        } else if i == 9 {
            assert(v[9] == v[i]);
        } else if i == 10 {
            assert(v[10] == v[i]);
        } else if i == 11 {
            assert(v[11] == v[i]);
        } else if i == 12 {
            assert(v[12] == v[i]);
        } else if i == 13 {
            assert(v[13] == v[i]);
        } else if i == 14 {
            assert(v[14] == v[i]);
        } else if i == 15 {
            assert(v[15] == v[i]);
        } else if i == 16 {
            assert(v[16] == v[i]);
        } else if i == 17 {
            assert(v[17] == v[i]);
        } else if i == 18 {
            assert(v[18] == v[i]);
        } else if i == 19 {
            assert(v[19] == v[i]);
        } else if i == 20 {
            assert(v[20] == v[i]);
        } else if i == 21 {
            assert(v[21] == v[i]);
        } else if i == 22 {
            assert(v[22] == v[i]);
        } else if i == 23 {
            assert(v[23] == v[i]);
        }
    }
}

/// The omnichain variants of a base identifier are pairwise distinct DIDs.
pub proof fn law_omnichain_variants_distinct(x: Seq<char>, i: int, j: int)
    requires
        0 <= i < 24,
        0 <= j < 24,
        i != j,
    ensures
        omnichain_variants_of(x)[i] != omnichain_variants_of(x)[j],
{
    lemma_variant_key(x, i);
    lemma_variant_key(x, j);
    assert(variant_key(i) != variant_key(j));
}

} // verus!
