//! The DID grammar: which texts are DIDs, and how a DID text splits into its components.
//!
//! Two readings are supported. The strict reading accepts
//! `did:[a-z0-9]+:[a-zA-Z0-9:._-]+(/[^?#]*)?(\?[^#]*)?(#[^\n]*)?` over the whole text;
//! the loose reading accepts `did:[a-z0-9]+:[^/?#]+(/[^?#]*)?(\?[^#]*)?(#[^\n]*)?`, where the
//! method-specific id may hold any character but `/`, `?` and `#`. Both split the text as
//! `did:method:id[/path][?query][#fragment]`.
use vstd::prelude::*;

use crate::did::{render, did_scheme, opt_text, marked_text, DIDView, DID};
use crate::text::{chars_of, substring};

verus! {

/// A character allowed in a DID method name: `a`..=`z` or `0`..=`9`.
pub open spec fn is_method_char(c: char) -> bool {
    ('a' <= c && c <= 'z') || ('0' <= c && c <= '9')
}

/// A character allowed in the method-specific id: the strict reading allows ASCII
/// letters, digits and `:` `.` `_` `-`; the loose one anything but `/`, `?` and `#`.
pub open spec fn is_id_char(strict: bool, c: char) -> bool {
    if strict {
        ('a' <= c && c <= 'z') || ('A' <= c && c <= 'Z') || ('0' <= c && c <= '9') || c == ':'
            || c == '.' || c == '_' || c == '-'
    } else {
        c != '/' && c != '?' && c != '#'
    }
}

/// A character allowed in a path: anything but `?` and `#`.
pub open spec fn is_path_char(c: char) -> bool {
    c != '?' && c != '#'
}

/// A character allowed in a query: anything but `#`.
pub open spec fn is_query_char(c: char) -> bool {
    c != '#'
}

/// A character allowed in a fragment: anything but a line feed.
pub open spec fn is_fragment_char(c: char) -> bool {
    c != '\n'
}

/// A non-empty method name made of method characters.
pub open spec fn method_ok(m: Seq<char>) -> bool {
    m.len() > 0 && forall|i: int| 0 <= i < m.len() ==> is_method_char(#[trigger] m[i])
}

/// A non-empty method-specific id made of id characters.
pub open spec fn id_ok(strict: bool, id: Seq<char>) -> bool {
    id.len() > 0 && forall|i: int| 0 <= i < id.len() ==> is_id_char(strict, #[trigger] id[i])
}

/// An absent path, or a path that starts with `/` and holds no `?` or `#`.
pub open spec fn path_ok(p: Option<Seq<char>>) -> bool {
    match p {
        None => true,
        Some(t) => t.len() > 0 && t[0] == '/' && forall|i: int|
            0 <= i < t.len() ==> is_path_char(#[trigger] t[i]),
    }
}

/// An absent query, or one without `#`.
pub open spec fn query_ok(q: Option<Seq<char>>) -> bool {
    match q {
        None => true,
        Some(t) => forall|i: int| 0 <= i < t.len() ==> is_query_char(#[trigger] t[i]),
    }
}

/// An absent fragment, or one without a line feed.
pub open spec fn fragment_ok(f: Option<Seq<char>>) -> bool {
    match f {
        None => true,
        Some(t) => forall|i: int| 0 <= i < t.len() ==> is_fragment_char(#[trigger] t[i]),
    }
}

/// The components of `d` are those that the reading can produce.
pub open spec fn components_ok(strict: bool, d: DIDView) -> bool {
    &&& method_ok(d.method)
    &&& id_ok(strict, d.id)
    &&& path_ok(d.path)
    &&& query_ok(d.query)
    &&& fragment_ok(d.fragment)
}

/// `d` is a reading of the text `s`: its components are well formed and render to `s`.
pub open spec fn is_reading(strict: bool, s: Seq<char>, d: DIDView) -> bool {
    components_ok(strict, d) && render(d) == s
}

/// The reading of `s`, if it has one (it has at most one, see `law_reading_unique`).
pub open spec fn reading(strict: bool, s: Seq<char>) -> Option<DIDView> {
    if exists|d: DIDView| is_reading(strict, s, d) {
        Some(choose|d: DIDView| is_reading(strict, s, d))
    } else {
        None
    }
}

/// Where the components of a DID text end: `a` is the `:` after the method, `b` the end of
/// the id, `c` the end of the path, `e` the end of the query (the `#` if a fragment follows).
pub open spec fn cuts_fit(strict: bool, s: Seq<char>, a: int, b: int, c: int, e: int) -> bool {
    &&& 4 < a < s.len()
    &&& s[0] == 'd' && s[1] == 'i' && s[2] == 'd' && s[3] == ':'
    &&& s[a] == ':'
    &&& forall|k: int| 4 <= k < a ==> is_method_char(#[trigger] s[k])
    &&& a + 1 < b <= s.len()
    &&& forall|k: int| a < k < b ==> is_id_char(strict, #[trigger] s[k])
    &&& b < s.len() ==> !is_id_char(strict, s[b])
    &&& b <= c <= s.len()
    &&& if b < s.len() && s[b] == '/' {
        &&& c > b
        &&& forall|k: int| b < k < c ==> is_path_char(#[trigger] s[k])
        &&& c < s.len() ==> !is_path_char(s[c])
    } else {
        c == b
    }
    &&& c <= e <= s.len()
    &&& if c < s.len() && s[c] == '?' {
        &&& e > c
        &&& forall|k: int| c < k < e ==> is_query_char(#[trigger] s[k])
        &&& e < s.len() ==> !is_query_char(s[e])
    } else {
        e == c
    }
    &&& e < s.len() ==> s[e] == '#'
    &&& forall|k: int| e < k < s.len() ==> is_fragment_char(#[trigger] s[k])
}

/// The DID whose components lie between the given cuts of `s`.
pub open spec fn view_at_cuts(s: Seq<char>, a: int, b: int, c: int, e: int) -> DIDView {
    DIDView {
        method: s.subrange(4, a),
        id: s.subrange(a + 1, b),
        path: if c > b {
            Some(s.subrange(b, c))
        } else {
            None
        },
        query: if e > c {
            Some(s.subrange(c + 1, e))
        } else {
            None
        },
        fragment: if e < s.len() {
            Some(s.subrange(e + 1, s.len() as int))
        } else {
            None
        },
    }
}

spec fn method_end(d: DIDView) -> int {
    4 + d.method.len() as int
}

spec fn id_end(d: DIDView) -> int {
    method_end(d) + 1 + d.id.len() as int
}

spec fn path_end(d: DIDView) -> int {
    id_end(d) + opt_text(d.path).len() as int
}

spec fn query_end(d: DIDView) -> int {
    path_end(d) + marked_text('?', d.query).len() as int
}

/// Where each character of a rendered DID comes from.
proof fn lemma_render_layout(d: DIDView)
    ensures
        ({
            let s = render(d);
            let a = method_end(d);
            let b = id_end(d);
            let c = path_end(d);
            let e = query_end(d);
            &&& s.len() == e + marked_text('#', d.fragment).len()
            &&& forall|k: int| 0 <= k < 4 ==> s[k] == did_scheme()[k]
            &&& forall|k: int| 4 <= k < a ==> s[k] == d.method[k - 4]
            &&& s[a] == ':'
            &&& forall|k: int| a < k < b ==> s[k] == d.id[k - a - 1]
            &&& forall|k: int| b <= k < c ==> s[k] == opt_text(d.path)[k - b]
            &&& forall|k: int| c <= k < e ==> s[k] == marked_text('?', d.query)[k - c]
            &&& forall|k: int| e <= k < s.len() ==> s[k] == marked_text('#', d.fragment)[k - e]
        }),
{
    let p0 = did_scheme();
    let p1 = p0 + d.method;
    let p2 = p1 + seq![':'];
    let p3 = p2 + d.id;
    let p4 = p3 + opt_text(d.path);
    let p5 = p4 + marked_text('?', d.query);
    let p6 = p5 + marked_text('#', d.fragment);
    assert(render(d) == p6);
    assert(p1.len() == method_end(d));
    assert(p3.len() == id_end(d));
    assert(p4.len() == path_end(d));
    assert(p5.len() == query_end(d));
}

/// Every reading of a text sits at cuts that fit the text, and is the DID between them.
proof fn lemma_reading_cuts(strict: bool, s: Seq<char>, d: DIDView)
    requires
        is_reading(strict, s, d),
    ensures
        cuts_fit(strict, s, method_end(d), id_end(d), path_end(d), query_end(d)),
        d == view_at_cuts(s, method_end(d), id_end(d), path_end(d), query_end(d)),
{
    lemma_render_layout(d);
    let a = method_end(d);
    let b = id_end(d);
    let c = path_end(d);
    let e = query_end(d);
    assert(s[0] == did_scheme()[0]);
    assert(s[1] == did_scheme()[1]);
    assert(s[2] == did_scheme()[2]);
    assert(s[3] == did_scheme()[3]);
    assert forall|k: int| 4 <= k < a implies is_method_char(#[trigger] s[k]) by {
        assert(s[k] == d.method[k - 4]);
    }
    assert forall|k: int| a < k < b implies is_id_char(strict, #[trigger] s[k]) by {
        assert(s[k] == d.id[k - a - 1]);
    }
    if b < s.len() {
        assert(s[b] == '/' || s[b] == '?' || s[b] == '#');
    }
    match d.path {
        Some(t) => {
            assert(s[b] == t[0]);
            assert forall|k: int| b < k < c implies is_path_char(#[trigger] s[k]) by {
                assert(s[k] == t[k - b]);
            }
            if c < s.len() {
                assert(s[c] == '?' || s[c] == '#');
            }
            assert(s.subrange(b, c) =~= t);
        },
        None => {
            if b < s.len() {
                assert(s[b] == '?' || s[b] == '#');
            }
        },
    }
    match d.query {
        Some(t) => {
            assert(s[c] == '?');
            assert forall|k: int| c < k < e implies is_query_char(#[trigger] s[k]) by {
                assert(s[k] == t[k - c - 1]);
            }
            if e < s.len() {
                assert(s[e] == '#');
            }
            assert(s.subrange(c + 1, e) =~= t);
        },
        None => {
            if c < s.len() {
                assert(s[c] == '#');
            }
        },
    }
    match d.fragment {
        Some(t) => {
            assert(s[e] == '#');
            assert forall|k: int| e < k < s.len() implies is_fragment_char(#[trigger] s[k]) by {
                assert(s[k] == t[k - e - 1]);
            }
            assert(s.subrange(e + 1, s.len() as int) =~= t);
        },
        None => {},
    }
    assert(s.subrange(4, a) =~= d.method);
    assert(s.subrange(a + 1, b) =~= d.id);
}

/// A text has at most one set of cuts that fit it.
proof fn lemma_cuts_unique(
    strict: bool,
    s: Seq<char>,
    a1: int,
    b1: int,
    c1: int,
    e1: int,
    a2: int,
    b2: int,
    c2: int,
    e2: int,
)
    requires
        cuts_fit(strict, s, a1, b1, c1, e1),
        cuts_fit(strict, s, a2, b2, c2, e2),
    ensures
        a1 == a2 && b1 == b2 && c1 == c2 && e1 == e2,
{
    if a1 < a2 {
        assert(is_method_char(s[a1]));
    }
    if a2 < a1 {
        assert(is_method_char(s[a2]));
    }
    assert(a1 == a2);
    if b1 < b2 {
        assert(is_id_char(strict, s[b1]));
    }
    if b2 < b1 {
        assert(is_id_char(strict, s[b2]));
    }
    assert(b1 == b2);
    if c1 < c2 {
        assert(is_path_char(s[c1]));
    }
    if c2 < c1 {
        assert(is_path_char(s[c2]));
    }
    assert(c1 == c2);
    if e1 < e2 {
        assert(is_query_char(s[e1]));
    }
    if e2 < e1 {
        assert(is_query_char(s[e2]));
    }
}

/// The DID between cuts that fit a text is a reading of that text.
proof fn lemma_cuts_reading(strict: bool, s: Seq<char>, a: int, b: int, c: int, e: int)
    requires
        cuts_fit(strict, s, a, b, c, e),
    ensures
        is_reading(strict, s, view_at_cuts(s, a, b, c, e)),
{
    let d = view_at_cuts(s, a, b, c, e);
    assert forall|i: int| 0 <= i < d.method.len() implies is_method_char(#[trigger] d.method[i]) by {
        assert(d.method[i] == s[i + 4]);
    }
    assert forall|i: int| 0 <= i < d.id.len() implies is_id_char(strict, #[trigger] d.id[i]) by {
        assert(d.id[i] == s[i + a + 1]);
    }
    if c > b {
        let t = s.subrange(b, c);
        assert(b < s.len() && s[b] == '/');
        assert forall|i: int| 0 <= i < t.len() implies is_path_char(#[trigger] t[i]) by {
            assert(t[i] == s[i + b]);
        }
    }
    if e > c {
        let t = s.subrange(c + 1, e);
        assert forall|i: int| 0 <= i < t.len() implies is_query_char(#[trigger] t[i]) by {
            assert(t[i] == s[i + c + 1]);
        }
    }
    if e < s.len() {
        let t = s.subrange(e + 1, s.len() as int);
        assert forall|i: int| 0 <= i < t.len() implies is_fragment_char(#[trigger] t[i]) by {
            assert(t[i] == s[i + e + 1]);
        }
    }
    let r = render(d);
    assert(r =~= s) by {
        let p0 = did_scheme();
        let p1 = p0 + d.method;
        let p2 = p1 + seq![':'];
        let p3 = p2 + d.id;
        let p4 = p3 + opt_text(d.path);
        let p5 = p4 + marked_text('?', d.query);
        assert(p1 =~= s.subrange(0, a));
        assert(p2 =~= s.subrange(0, a + 1));
        assert(p3 =~= s.subrange(0, b));
        assert(p4 =~= s.subrange(0, c));
        assert(p5 =~= s.subrange(0, e));
    }
}

/// A text has at most one reading: two well-formed DIDs that render to the same text are equal.
pub proof fn law_reading_unique(strict: bool, s: Seq<char>, d1: DIDView, d2: DIDView)
    requires
        is_reading(strict, s, d1),
        is_reading(strict, s, d2),
    ensures
        d1 == d2,
{
    lemma_reading_cuts(strict, s, d1);
    lemma_reading_cuts(strict, s, d2);
    lemma_cuts_unique(
        strict,
        s,
        method_end(d1),
        id_end(d1),
        path_end(d1),
        query_end(d1),
        method_end(d2),
        id_end(d2),
        path_end(d2),
        query_end(d2),
    );
}

/// Reading undoes rendering: a DID with well-formed components reads back from its text.
pub proof fn law_read_after_render(strict: bool, d: DIDView)
    requires
        components_ok(strict, d),
    ensures
        reading(strict, render(d)) == Some(d),
{
    let s = render(d);
    assert(is_reading(strict, s, d));
    let d2 = choose|x: DIDView| is_reading(strict, s, x);
    law_reading_unique(strict, s, d, d2);
}

/// Rendering undoes reading: the reading of a text renders back to that text.
pub proof fn law_render_after_read(strict: bool, s: Seq<char>)
    requires
        reading(strict, s) is Some,
    ensures
        render(reading(strict, s)->0) == s,
        components_ok(strict, reading(strict, s)->0),
{
}

/// A text whose cuts fit has, as its reading, the DID between those cuts.
proof fn lemma_reading_at_cuts(strict: bool, s: Seq<char>, a: int, b: int, c: int, e: int)
    requires
        cuts_fit(strict, s, a, b, c, e),
    ensures
        reading(strict, s) == Some(view_at_cuts(s, a, b, c, e)),
{
    lemma_cuts_reading(strict, s, a, b, c, e);
    let d = choose|x: DIDView| is_reading(strict, s, x);
    law_reading_unique(strict, s, d, view_at_cuts(s, a, b, c, e));
}

/// A text that no cuts fit has no reading.
proof fn lemma_no_reading(strict: bool, s: Seq<char>)
    requires
        forall|a: int, b: int, c: int, e: int| !cuts_fit(strict, s, a, b, c, e),
    ensures
        reading(strict, s) is None,
{
    if exists|d: DIDView| is_reading(strict, s, d) {
        let d = choose|d: DIDView| is_reading(strict, s, d);
        lemma_reading_cuts(strict, s, d);
        assert(cuts_fit(strict, s, method_end(d), id_end(d), path_end(d), query_end(d)));
    }
}

/// `a` ends the run of method characters that starts after `did:`.
spec fn scan_a(s: Seq<char>, a: int) -> bool {
    &&& 4 <= a <= s.len()
    &&& forall|k: int| 4 <= k < a ==> is_method_char(#[trigger] s[k])
    &&& a < s.len() ==> !is_method_char(s[a])
}

/// `b` ends the run of id characters that starts after position `a`.
spec fn scan_b(strict: bool, s: Seq<char>, a: int, b: int) -> bool {
    &&& a + 1 <= b <= s.len()
    &&& forall|k: int| a < k < b ==> is_id_char(strict, #[trigger] s[k])
    &&& b < s.len() ==> !is_id_char(strict, s[b])
}

/// `c` ends the path that starts at `b`, or is `b` when no `/` stands there.
spec fn scan_c(s: Seq<char>, b: int, c: int) -> bool {
    if b < s.len() && s[b] == '/' {
        &&& b < c <= s.len()
        &&& forall|k: int| b < k < c ==> is_path_char(#[trigger] s[k])
        &&& c < s.len() ==> !is_path_char(s[c])
    } else {
        c == b
    }
}

/// `e` ends the query that starts at `c`, or is `c` when no `?` stands there.
spec fn scan_e(s: Seq<char>, c: int, e: int) -> bool {
    if c < s.len() && s[c] == '?' {
        &&& c < e <= s.len()
        &&& forall|k: int| c < k < e ==> is_query_char(#[trigger] s[k])
        &&& e < s.len() ==> !is_query_char(s[e])
    } else {
        e == c
    }
}

proof fn lemma_scan_a(strict: bool, s: Seq<char>, a: int, a2: int, b2: int, c2: int, e2: int)
    requires
        cuts_fit(strict, s, a2, b2, c2, e2),
        scan_a(s, a),
    ensures
        a2 == a,
{
    if a2 < a {
        assert(is_method_char(s[a2]));
    }
    if a < a2 {
        assert(is_method_char(s[a]));
    }
}

proof fn lemma_scan_b(strict: bool, s: Seq<char>, a: int, b: int, b2: int, c2: int, e2: int)
    requires
        cuts_fit(strict, s, a, b2, c2, e2),
        scan_b(strict, s, a, b),
    ensures
        b2 == b,
{
    if b2 < b {
        assert(is_id_char(strict, s[b2]));
    }
    if b < b2 {
        assert(is_id_char(strict, s[b]));
    }
}

proof fn lemma_scan_c(strict: bool, s: Seq<char>, a: int, b: int, c: int, c2: int, e2: int)
    requires
        cuts_fit(strict, s, a, b, c2, e2),
        scan_c(s, b, c),
    ensures
        c2 == c,
{
    if c2 < c {
        assert(is_path_char(s[c2]));
    }
    if c < c2 {
        assert(is_path_char(s[c]));
    }
}

proof fn lemma_scan_e(strict: bool, s: Seq<char>, a: int, b: int, c: int, e: int, e2: int)
    requires
        cuts_fit(strict, s, a, b, c, e2),
        scan_e(s, c, e),
    ensures
        e2 == e,
{
    if e2 < e {
        assert(is_query_char(s[e2]));
    }
    if e < e2 {
        assert(is_query_char(s[e]));
    }
}

fn method_char(c: char) -> (r: bool)
    ensures
        r == is_method_char(c),
{
    ('a' <= c && c <= 'z') || ('0' <= c && c <= '9')
}

fn id_char(strict: bool, c: char) -> (r: bool)
    ensures
        r == is_id_char(strict, c),
{
    if strict {
        ('a' <= c && c <= 'z') || ('A' <= c && c <= 'Z') || ('0' <= c && c <= '9') || c == ':'
            || c == '.' || c == '_' || c == '-'
    } else {
        c != '/' && c != '?' && c != '#'
    }
}

/// Once the four runs are scanned, a text whose remaining checks fail has no reading.
proof fn lemma_no_reading_after_scans(strict: bool, s: Seq<char>, a: int, b: int, c: int, e: int)
    requires
        4 < a < s.len(),
        s[a] == ':',
        scan_a(s, a),
        scan_b(strict, s, a, b),
        scan_c(s, b, c),
        scan_e(s, c, e),
        e < s.len(),
        s[e] != '#' || exists|k: int| e < k < s.len() && !is_fragment_char(#[trigger] s[k]),
    ensures
        reading(strict, s) is None,
{
    assert forall|a2: int, b2: int, c2: int, e2: int|
        cuts_fit(strict, s, a2, b2, c2, e2) implies false by {
        lemma_scan_a(strict, s, a, a2, b2, c2, e2);
        lemma_scan_b(strict, s, a, b, b2, c2, e2);
        lemma_scan_c(strict, s, a, b, c, c2, e2);
        lemma_scan_e(strict, s, a, b, c, e, e2);
    }
    lemma_no_reading(strict, s);
}

/// Reads a DID text in the strict or the loose reading; `None` when the text has no reading.
pub fn read_did(text: &str, strict: bool) -> (r: Option<DID>)
    ensures
        match r {
            Some(d) => reading(strict, text@) == Some(d@),
            None => reading(strict, text@) is None,
        },
{
    let cs = chars_of(text);
    let n = cs.len();
    let ghost s = text@;
    if n < 4 || cs[0] != 'd' || cs[1] != 'i' || cs[2] != 'd' || cs[3] != ':' {
        proof {
            lemma_no_reading(strict, s);
        }
        return None;
    }
    let mut a: usize = 4;
    while a < n && method_char(cs[a])
        invariant
            cs@ == s,
            n == s.len(),
            4 <= a <= n,
            forall|k: int| 4 <= k < a ==> is_method_char(#[trigger] s[k]),
        decreases n - a,
    {
        a = a + 1;
    }
    assert(scan_a(s, a as int));
    if a == 4 || a == n || cs[a] != ':' {
        proof {
            assert forall|a2: int, b2: int, c2: int, e2: int|
                cuts_fit(strict, s, a2, b2, c2, e2) implies false by {
                lemma_scan_a(strict, s, a as int, a2, b2, c2, e2);
            }
            lemma_no_reading(strict, s);
        }
        return None;
    }
    let mut b: usize = a + 1;
    while b < n && id_char(strict, cs[b])
        invariant
            cs@ == s,
            n == s.len(),
            a + 1 <= b <= n,
            forall|k: int| a < k < b ==> is_id_char(strict, #[trigger] s[k]),
        decreases n - b,
    {
        b = b + 1;
    }
    assert(scan_b(strict, s, a as int, b as int));
    if b == a + 1 {
        proof {
            assert forall|a2: int, b2: int, c2: int, e2: int|
                cuts_fit(strict, s, a2, b2, c2, e2) implies false by {
                lemma_scan_a(strict, s, a as int, a2, b2, c2, e2);
                lemma_scan_b(strict, s, a as int, b as int, b2, c2, e2);
            }
            lemma_no_reading(strict, s);
        }
        return None;
    }
    let mut c: usize = b;
    if b < n && cs[b] == '/' {
        c = b + 1;
        while c < n && cs[c] != '?' && cs[c] != '#'
            invariant
                cs@ == s,
                n == s.len(),
                b < c <= n,
                forall|k: int| b < k < c ==> is_path_char(#[trigger] s[k]),
            decreases n - c,
        {
            c = c + 1;
        }
    }
    assert(scan_c(s, b as int, c as int));
    let mut e: usize = c;
    if c < n && cs[c] == '?' {
        e = c + 1;
        while e < n && cs[e] != '#'
            invariant
                cs@ == s,
                n == s.len(),
                c < e <= n,
                forall|k: int| c < k < e ==> is_query_char(#[trigger] s[k]),
            decreases n - e,
        {
            e = e + 1;
        }
    }
    assert(scan_e(s, c as int, e as int));
    if e < n {
        if cs[e] != '#' {
            proof {
                lemma_no_reading_after_scans(strict, s, a as int, b as int, c as int, e as int);
            }
            return None;
        }
        let mut f: usize = e + 1;
        while f < n
            invariant
                cs@ == s,
                n == s.len(),
                s == text@,
                e < f <= n,
                forall|k: int| e < k < f ==> is_fragment_char(#[trigger] s[k]),
                4 < a < n,
                s[a as int] == ':',
                scan_a(s, a as int),
                scan_b(strict, s, a as int, b as int),
                scan_c(s, b as int, c as int),
                scan_e(s, c as int, e as int),
            decreases n - f,
        {
            if cs[f] == '\n' {
                proof {
                    assert(!is_fragment_char(s[f as int]));
                    lemma_no_reading_after_scans(strict, s, a as int, b as int, c as int, e as int);
                }
                return None;
            }
            f = f + 1;
        }
    }
    proof {
        assert(cuts_fit(strict, s, a as int, b as int, c as int, e as int));
        lemma_reading_at_cuts(strict, s, a as int, b as int, c as int, e as int);
    }
    let method = substring(text, 4, a);
    let id = substring(text, a + 1, b);
    let path = if c > b {
        Some(substring(text, b, c))
    } else {
        None
    };
    let query = if e > c {
        Some(substring(text, c + 1, e))
    } else {
        None
    };
    let fragment = if e < n {
        Some(substring(text, e + 1, n))
    } else {
        None
    };
    let d = DID { method, id, path, query, fragment };
    assert(d@ == view_at_cuts(s, a as int, b as int, c as int, e as int));
    Some(d)
}

} // verus!
