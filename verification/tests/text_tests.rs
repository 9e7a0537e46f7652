use hanzo_sdk::text::{
    decimal_text, lines, str_eq, strip_all_prefix_text, text_contains, text_starts_with,
    trim_text, white_space,
};

#[test]
fn white_space_matches_std() {
    for u in 0u32..0x11_0000 {
        if let Some(c) = char::from_u32(u) {
            assert_eq!(white_space(c), c.is_whitespace(), "U+{:04X}", u);
        }
    }
}

fn texts() -> Vec<String> {
    let alphabet = ['a', ' ', '\n', '\r', '\t', '\u{3000}', 'b', 'é'];
    let mut out = vec![String::new()];
    for len in 1..=4 {
        let mut idx = vec![0usize; len];
        loop {
            out.push(idx.iter().map(|&i| alphabet[i]).collect());
            let mut k = 0;
            while k < len {
                idx[k] += 1;
                if idx[k] < alphabet.len() {
                    break;
                }
                idx[k] = 0;
                k += 1;
            }
            if k == len {
                break;
            }
        }
    }
    out
}

#[test]
fn trim_and_lines_match_std() {
    for t in texts() {
        assert_eq!(trim_text(&t), t.trim(), "{:?}", t);
        let ours = lines(&t);
        let theirs: Vec<String> = t.lines().map(|l| l.to_string()).collect();
        assert_eq!(ours, theirs, "{:?}", t);
    }
}

#[test]
fn prefixes_and_search_match_std() {
    for t in texts() {
        for p in ["a", "a ", " ", "ab", ""] {
            assert_eq!(text_starts_with(&t, p), t.starts_with(p));
            assert_eq!(text_contains(&t, p), t.contains(p));
            assert_eq!(strip_all_prefix_text(&t, p), t.trim_start_matches(p), "{:?} {:?}", t, p);
        }
        assert!(str_eq(&t, &t.clone()));
    }
    assert!(!str_eq("ab", "abc"));
}

#[test]
fn decimals_and_lowercase() {
    for n in [0usize, 7, 10, 99, 100, 12345, usize::MAX] {
        assert_eq!(decimal_text(n), n.to_string());
    }
    assert_eq!(
        hanzo_sdk::did::DID::from_username("x", "LuX"),
        hanzo_sdk::did::DID::lux("x")
    );
}
