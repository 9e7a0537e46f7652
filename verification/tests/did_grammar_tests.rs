use hanzo_sdk::did::DID;
use hanzo_sdk::error::DIDError;
use regex::Regex;

const STRICT: &str = r"^did:([a-z0-9]+):([a-zA-Z0-9:._-]+)(/[^?#]*)?(\?[^#]*)?(#.*)?$";
const LOOSE: &str = r"^did:([a-z0-9]+):([^/?#]+)(/[^?#]*)?(\?[^#]*)?(#.*)?$";

fn by_regex(re: &Regex, s: &str) -> Option<DID> {
    let c = re.captures(s)?;
    Some(DID {
        method: c.get(1).unwrap().as_str().to_string(),
        id: c.get(2).unwrap().as_str().to_string(),
        path: c.get(3).map(|m| m.as_str().to_string()),
        query: c.get(4).map(|m| m.as_str()[1..].to_string()),
        fragment: c.get(5).map(|m| m.as_str()[1..].to_string()),
    })
}

/// A small deterministic generator of DID-like texts.
fn samples() -> Vec<String> {
    let alphabet: Vec<char> = vec![
        'a', 'z', 'Q', '0', '9', ':', '.', '_', '-', '/', '?', '#', '\n', ' ', 'é', '@', '\r',
    ];
    let mut out = Vec::new();
    let mut state: u64 = 0x2545_F491_4F6C_DD1D;
    for _ in 0..4000 {
        let mut s = String::new();
        state = state.wrapping_mul(6364136223846793005).wrapping_add(1442695040888963407);
        let head = (state >> 33) % 5;
        match head {
            0 => s.push_str("did:"),
            1 => s.push_str("did:hanzo:"),
            2 => s.push_str("did:eth:"),
            3 => s.push_str("di"),
            _ => {}
        }
        state = state.wrapping_mul(6364136223846793005).wrapping_add(1442695040888963407);
        let len = (state >> 33) % 12;
        for _ in 0..len {
            state = state.wrapping_mul(6364136223846793005).wrapping_add(1442695040888963407);
            let k = ((state >> 33) as usize) % alphabet.len();
            s.push(alphabet[k]);
        }
        out.push(s);
    }
    out.push("did:hanzo:eth:0x742d35Cc6634C0532925a3b844Bc9e7595f0bEb7/a/b?x=1#frag".to_string());
    out.push("did:web:example.com/path?query#".to_string());
    out.push("did:a:b#line\nbreak".to_string());
    out.push(String::new());
    out
}

#[test]
fn parse_agrees_with_strict_pattern() {
    let re = Regex::new(STRICT).unwrap();
    for s in samples() {
        let expected = by_regex(&re, &s);
        match (DID::parse(&s), expected) {
            (Ok(d), Some(e)) => assert_eq!(d, e, "text {:?}", s),
            (Err(DIDError::InvalidFormat(m)), None) => {
                assert_eq!(m, format!("Invalid DID format: {s}"))
            }
            (got, want) => panic!("text {:?}: got {:?}, want {:?}", s, got, want),
        }
    }
}

#[test]
fn from_str_agrees_with_loose_pattern() {
    let re = Regex::new(LOOSE).unwrap();
    for s in samples() {
        let expected = by_regex(&re, &s);
        match (DID::from_str(&s), expected) {
            (Ok(d), Some(e)) => assert_eq!(d, e, "text {:?}", s),
            (Err(DIDError::InvalidFormat(m)), None) => assert_eq!(m, s),
            (got, want) => panic!("text {:?}: got {:?}, want {:?}", s, got, want),
        }
    }
}

#[test]
fn parsed_text_renders_back() {
    for s in samples() {
        if let Ok(d) = DID::parse(&s) {
            assert_eq!(d.to_string_full(), s);
        }
        if let Ok(d) = DID::from_str(&s) {
            assert_eq!(d.to_string_full(), s);
        }
    }
}

#[test]
fn rendered_did_parses_back() {
    let d = DID::new("hanzo", "eth:0xAbC")
        .with_path("/keys/1")
        .with_query("v=2")
        .with_fragment("key-1");
    let text = d.to_string_full();
    assert_eq!(text, "did:hanzo:eth:0xAbC/keys/1?v=2#key-1");
    assert_eq!(DID::parse(&text).unwrap(), d);
}

#[test]
fn from_str_splits_path_like_parse() {
    let text = "did:web:example.com/a/b?x=1#k";
    let loose = DID::from_str(text).unwrap();
    assert_eq!(loose.method, "web");
    assert_eq!(loose.id, "example.com");
    assert_eq!(loose.path, Some("/a/b".to_string()));
    assert_eq!(loose.query, Some("x=1".to_string()));
    assert_eq!(loose.fragment, Some("k".to_string()));
    assert_eq!(DID::parse(text).unwrap(), loose);
    // The loose reading also takes ids that the strict one refuses.
    let wide = DID::from_str("did:key:z6Mk~é!/p").unwrap();
    assert_eq!(wide.id, "z6Mk~é!");
    assert_eq!(wide.path, Some("/p".to_string()));
    assert!(DID::parse("did:key:z6Mk~é!/p").is_err());
}

#[test]
fn strict_and_loose_agree_where_strict_reads() {
    for s in samples() {
        if let Ok(d) = DID::parse(&s) {
            assert_eq!(DID::from_str(&s), Ok(d));
        }
    }
}

#[test]
fn parse_refuses_malformed_texts() {
    for s in [
        "",
        "did:",
        "did::x",
        "did:Hanzo:x",
        "did:hanzo:",
        "did:hanzo:a b",
        "did:hanzo:x#a\nb",
        "DID:hanzo:x",
    ] {
        assert!(DID::parse(s).is_err(), "{:?}", s);
    }
    assert_eq!(
        DID::parse("nope"),
        Err(DIDError::InvalidFormat("Invalid DID format: nope".to_string()))
    );
    assert_eq!(
        DID::from_str("nope"),
        Err(DIDError::InvalidFormat("nope".to_string()))
    );
}

#[test]
fn standard_from_str_uses_loose_reading() {
    let d: DID = "did:hanzo:a/b".parse().unwrap();
    assert_eq!(d.id, "a");
    assert_eq!(d.path, Some("/b".to_string()));
}
