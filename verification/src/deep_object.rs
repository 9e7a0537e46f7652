//! Query parameters in the `deepObject` style: a JSON object flattened into
//! `prefix[key]`, `prefix[key][sub]`, `prefix[key][index][sub]`, ... name/value pairs.
use vstd::prelude::*;

use crate::text::{concat, decimal, decimal_text, starts_with};

verus! {

/// A JSON value as the parameter builder reads it. A number is held as its JSON text, and an
/// object as its members in the order in which they are visited.
#[derive(Debug, PartialEq, Eq)]
pub enum JsonValue {
    Null,
    Bool(bool),
    Number(String),
    String(String),
    Array(Vec<JsonValue>),
    Object(Vec<(String, JsonValue)>),
}

/// The JSON text of a value that is not a string, an array or an object.
pub open spec fn scalar_text(v: JsonValue) -> Seq<char> {
    match v {
        JsonValue::Null => "null"@,
        JsonValue::Bool(b) => if b {
            "true"@
        } else {
            "false"@
        },
        JsonValue::Number(t) => t@,
        _ => Seq::empty(),
    }
}

/// `prefix[key]`.
pub open spec fn bracket(prefix: Seq<char>, key: Seq<char>) -> Seq<char> {
    prefix + seq!['['] + key + seq![']']
}

/// A value the builder accepts: an object whose members are objects it accepts, arrays of
/// objects it accepts, strings or other scalars.
pub open spec fn deep_ok(v: JsonValue) -> bool
    decreases v,
{
    match v {
        JsonValue::Object(entries) => entries_ok(entries@),
        _ => false,
    }
}

/// Members that the builder accepts.
pub open spec fn entries_ok(entries: Seq<(String, JsonValue)>) -> bool
    decreases entries,
{
    if entries.len() == 0 {
        true
    } else {
        entries_ok(entries.drop_last()) && match entries.last().1 {
            JsonValue::Object(_) => deep_ok(entries.last().1),
            JsonValue::Array(items) => items_ok(items@),
            _ => true,
        }
    }
}

/// Array elements that the builder accepts: all of them accepted objects.
pub open spec fn items_ok(items: Seq<JsonValue>) -> bool
    decreases items,
{
    if items.len() == 0 {
        true
    } else {
        items_ok(items.drop_last()) && deep_ok(items.last())
    }
}

/// The parameters of an object under `prefix`.
pub open spec fn deep_params(prefix: Seq<char>, v: JsonValue) -> Seq<(Seq<char>, Seq<char>)>
    decreases v,
{
    match v {
        JsonValue::Object(entries) => entries_params(prefix, entries@),
        _ => Seq::empty(),
    }
}

/// The parameters of the members of an object under `prefix`, member after member.
pub open spec fn entries_params(prefix: Seq<char>, entries: Seq<(String, JsonValue)>) -> Seq<
    (Seq<char>, Seq<char>),
>
    decreases entries,
{
    if entries.len() == 0 {
        Seq::empty()
    } else {
        let name = bracket(prefix, entries.last().0@);
        entries_params(prefix, entries.drop_last()) + match entries.last().1 {
            JsonValue::Object(_) => deep_params(name, entries.last().1),
            JsonValue::Array(items) => items_params(name, items@),
            JsonValue::String(s) => seq![(name, s@)],
            _ => seq![(name, scalar_text(entries.last().1))],
        }
    }
}

/// The parameters of the elements of an array under `name`: element `i` under `name[i]`.
pub open spec fn items_params(name: Seq<char>, items: Seq<JsonValue>) -> Seq<
    (Seq<char>, Seq<char>),
>
    decreases items,
{
    if items.len() == 0 {
        Seq::empty()
    } else {
        items_params(name, items.drop_last()) + deep_params(
            bracket(name, decimal((items.len() - 1) as nat)),
            items.last(),
        )
    }
}

/// The views of name/value pairs.
pub open spec fn pairs_view(v: Seq<(String, String)>) -> Seq<(Seq<char>, Seq<char>)> {
    v.map_values(|p: (String, String)| (p.0@, p.1@))
}

/// Whether the builder accepts the value: an object whose arrays hold only accepted objects.
pub fn is_deep_object(value: &JsonValue) -> (r: bool)
    ensures
        r == deep_ok(*value),
    decreases *value,
{
    match value {
        JsonValue::Object(entries) => {
            let mut i: usize = 0;
            while i < entries.len()
                invariant
                    i <= entries.len(),
                    *value == JsonValue::Object(*entries),
                    entries_ok(entries@.take(i as int)),
                decreases entries.len() - i,
            {
                let ghost taken = entries@.take(i + 1);
                proof {
                    assert(taken.drop_last() =~= entries@.take(i as int));
                    assert(taken.last() == entries@[i as int]);
                    assert(decreases_to!(*value => value->Object_0));
                    assert(decreases_to!(*entries => entries@));
                    assert(decreases_to!(entries@ => entries@[i as int]));
                    assert(decreases_to!(entries@[i as int] => entries@[i as int].1));
                }
                let child = &entries[i].1;
                let ok = match child {
                    JsonValue::Object(_) => is_deep_object(child),
                    JsonValue::Array(items) => {
                        let mut j: usize = 0;
                        let mut all = true;
                        while j < items.len()
                            invariant
                                j <= items.len(),
                                decreases_to!(*value => *child),
                                *child == JsonValue::Array(*items),
                                all == items_ok(items@.take(j as int)),
                            decreases items.len() - j,
                        {
                            proof {
                                let took = items@.take(j + 1);
                                assert(took.drop_last() =~= items@.take(j as int));
                                assert(took.last() == items@[j as int]);
                                assert(decreases_to!(*child => child->Array_0));
                                assert(decreases_to!(*items => items@));
                                assert(decreases_to!(items@ => items@[j as int]));
                            }
                            let item_ok = is_deep_object(&items[j]);
                            all = all && item_ok;
                            j = j + 1;
                        }
                        proof {
                            assert(items@.take(items.len() as int) =~= items@);
                        }
                        all
                    },
                    _ => true,
                };
                if !ok {
                    proof {
                        lemma_entries_ok_prefix(entries@, i + 1);
                    }
                    return false;
                }
                i = i + 1;
            }
            proof {
                assert(entries@.take(entries.len() as int) =~= entries@);
            }
            true
        },
        _ => false,
    }
}

/// Members accepted as a whole are accepted in every prefix.
proof fn lemma_entries_ok_prefix(entries: Seq<(String, JsonValue)>, n: int)
    requires
        0 <= n <= entries.len(),
        !entries_ok(entries.take(n)),
    ensures
        !entries_ok(entries),
{
    if entries_ok(entries) {
        lemma_entries_ok_take(entries, n);
    }
}

fn bracket_text(prefix: &str, key: &str) -> (r: String)
    ensures
        r@ == bracket(prefix@, key@),
{
    let a = concat(prefix, "[");
    let b = concat(a.as_str(), key);
    let r = concat(b.as_str(), "]");
    proof {
        reveal_strlit("[");
        reveal_strlit("]");
        assert(r@ =~= bracket(prefix@, key@));
    }
    r
}

fn append_pairs(out: &mut Vec<(String, String)>, more: Vec<(String, String)>)
    ensures
        pairs_view(final(out)@) == pairs_view(old(out)@) + pairs_view(more@),
{
    let ghost start = out@;
    let mut i: usize = 0;
    while i < more.len()
        invariant
            i <= more.len(),
            pairs_view(out@) == pairs_view(start) + pairs_view(more@.take(i as int)),
        decreases more.len() - i,
    {
        let p = (more[i].0.clone(), more[i].1.clone());
        let ghost before = out@;
        out.push(p);
        proof {
            assert(more@.take(i + 1) =~= more@.take(i as int).push(more@[i as int]));
            assert(pairs_view(out@) =~= pairs_view(before).push((more@[i as int].0@, more@[i as int].1@)));
            assert(pairs_view(more@.take(i + 1)) =~= pairs_view(more@.take(i as int)).push(
                (more@[i as int].0@, more@[i as int].1@),
            ));
        }
        i = i + 1;
    }
    assert(more@.take(more.len() as int) =~= more@);
}

/// Flatten an object into `deepObject` query parameters under `prefix`. Only objects (with
/// arrays of objects inside) are supported.
pub fn parse_deep_object(prefix: &str, value: &JsonValue) -> (r: Vec<(String, String)>)
    requires
        deep_ok(*value),
    ensures
        pairs_view(r@) == deep_params(prefix@, *value),
    decreases *value,
{
    let mut params: Vec<(String, String)> = Vec::new();
    match value {
        JsonValue::Object(entries) => {
            let mut i: usize = 0;
            while i < entries.len()
                invariant
                    i <= entries.len(),
                    entries_ok(entries@),
                    *value == JsonValue::Object(*entries),
                    pairs_view(params@) == entries_params(prefix@, entries@.take(i as int)),
                decreases entries.len() - i,
            {
                let ghost taken = entries@.take(i + 1);
                proof {
                    assert(taken.drop_last() =~= entries@.take(i as int));
                    assert(taken.last() == entries@[i as int]);
                    lemma_entries_ok_take(entries@, i + 1);
                }
                let key = &entries[i].0;
                let child = &entries[i].1;
                proof {
                    assert(decreases_to!(*value => value->Object_0));
                    assert(decreases_to!(*entries => entries@));
                    assert(decreases_to!(entries@ => entries@[i as int]));
                    assert(decreases_to!(entries@[i as int] => entries@[i as int].1));
                    assert(decreases_to!(*value => *child));
                }
                let name = bracket_text(prefix, key.as_str());
                match child {
                    JsonValue::Object(_) => {
                        let sub = parse_deep_object(name.as_str(), child);
                        append_pairs(&mut params, sub);
                    },
                    JsonValue::Array(items) => {
                        let mut j: usize = 0;
                        let ghost before = params@;
                        while j < items.len()
                            invariant
                                j <= items.len(),
                                items_ok(items@),
                                decreases_to!(*value => *child),
                                *child == JsonValue::Array(*items),
                                pairs_view(params@) == pairs_view(before) + items_params(
                                    name@,
                                    items@.take(j as int),
                                ),
                            decreases items.len() - j,
                        {
                            let ghost took = items@.take(j + 1);
                            proof {
                                assert(took.drop_last() =~= items@.take(j as int));
                                assert(took.last() == items@[j as int]);
                                lemma_items_ok_take(items@, j + 1);
                                assert(decreases_to!(*child => child->Array_0));
                                assert(decreases_to!(*items => items@));
                                assert(decreases_to!(items@ => items@[j as int]));
                                assert(decreases_to!(*value => items@[j as int]));
                            }
                            let index = decimal_text(j);
                            let item_name = bracket_text(name.as_str(), index.as_str());
                            let sub = parse_deep_object(item_name.as_str(), &items[j]);
                            append_pairs(&mut params, sub);
                            proof {
                                assert(pairs_view(params@) =~= pairs_view(before) + items_params(
                                    name@,
                                    took,
                                ));
                            }
                            j = j + 1;
                        }
                        proof {
                            assert(items@.take(items.len() as int) =~= items@);
                        }
                    },
                    JsonValue::String(s) => {
                        params.push((name, s.clone()));
                    },
                    JsonValue::Null => {
                        params.push((name, "null".to_owned()));
                    },
                    JsonValue::Bool(b) => {
                        params.push((name, if *b { "true".to_owned() } else { "false".to_owned() }));
                    },
                    JsonValue::Number(t) => {
                        params.push((name, t.clone()));
                    },
                }
                proof {
                    assert(pairs_view(params@) =~= entries_params(prefix@, taken));
                }
                i = i + 1;
            }
            proof {
                assert(entries@.take(entries.len() as int) =~= entries@);
            }
        },
        _ => {},
    }
    params
}

proof fn lemma_entries_ok_take(entries: Seq<(String, JsonValue)>, n: int)
    requires
        entries_ok(entries),
        0 <= n <= entries.len(),
    ensures
        entries_ok(entries.take(n)),
        n > 0 ==> match entries[n - 1].1 {
            JsonValue::Object(_) => deep_ok(entries[n - 1].1),
            JsonValue::Array(items) => items_ok(items@),
            _ => true,
        },
    decreases entries.len(),
{
    if n < entries.len() {
        lemma_entries_ok_take(entries.drop_last(), n);
        assert(entries.drop_last().take(n) =~= entries.take(n));
    } else {
        assert(entries.take(n) =~= entries);
    }
}

proof fn lemma_items_ok_take(items: Seq<JsonValue>, n: int)
    requires
        items_ok(items),
        0 <= n <= items.len(),
    ensures
        items_ok(items.take(n)),
        n > 0 ==> deep_ok(items[n - 1]),
    decreases items.len(),
{
    if n < items.len() {
        lemma_items_ok_take(items.drop_last(), n);
        assert(items.drop_last().take(n) =~= items.take(n));
    } else {
        assert(items.take(n) =~= items);
    }
}

/// Every parameter name in `ps` begins with `prefix[`.
pub open spec fn all_nested_under(ps: Seq<(Seq<char>, Seq<char>)>, prefix: Seq<char>) -> bool {
    forall|i: int| 0 <= i < ps.len() ==> starts_with(#[trigger] ps[i].0, prefix + seq!['['])
}

proof fn lemma_starts_with_trans(s: Seq<char>, mid: Seq<char>, p: Seq<char>)
    requires
        starts_with(s, mid),
        starts_with(mid, p),
    ensures
        starts_with(s, p),
{
    assert forall|k: int| 0 <= k < p.len() implies s.take(p.len() as int)[k] == p[k] by {
        assert(s.take(mid.len() as int)[k] == mid[k]);
        assert(mid.take(p.len() as int)[k] == p[k]);
    }
    assert(s.take(p.len() as int) =~= p);
}

proof fn lemma_bracket_nested(prefix: Seq<char>, key: Seq<char>)
    ensures
        starts_with(bracket(prefix, key) + seq!['['], prefix + seq!['[']),
{
    let a = bracket(prefix, key) + seq!['['];
    assert(a.take(prefix.len() + 1int) =~= prefix + seq!['[']);
}

proof fn lemma_all_nested_concat(
    ps: Seq<(Seq<char>, Seq<char>)>,
    qs: Seq<(Seq<char>, Seq<char>)>,
    prefix: Seq<char>,
)
    requires
        all_nested_under(ps, prefix),
        all_nested_under(qs, prefix),
    ensures
        all_nested_under(ps + qs, prefix),
{
    assert forall|i: int| 0 <= i < (ps + qs).len() implies starts_with(
        #[trigger] (ps + qs)[i].0,
        prefix + seq!['['],
    ) by {
        if i < ps.len() {
            assert((ps + qs)[i] == ps[i]);
        } else {
            assert((ps + qs)[i] == qs[i - ps.len()]);
        }
    }
}

proof fn lemma_all_nested_widen(ps: Seq<(Seq<char>, Seq<char>)>, name: Seq<char>, prefix: Seq<char>)
    requires
        all_nested_under(ps, name),
        starts_with(name + seq!['['], prefix + seq!['[']),
    ensures
        all_nested_under(ps, prefix),
{
    assert forall|i: int| 0 <= i < ps.len() implies starts_with(
        #[trigger] ps[i].0,
        prefix + seq!['['],
    ) by {
        lemma_starts_with_trans(ps[i].0, name + seq!['['], prefix + seq!['[']);
    }
}

/// Every `deepObject` parameter of an object lies under its prefix: its name begins with
/// `prefix[`.
pub proof fn law_deep_params_nested(prefix: Seq<char>, v: JsonValue)
    ensures
        all_nested_under(deep_params(prefix, v), prefix),
    decreases v,
{
    match v {
        JsonValue::Object(entries) => {
            lemma_entries_nested(prefix, entries@);
        },
        _ => {},
    }
}

proof fn lemma_entries_nested(prefix: Seq<char>, entries: Seq<(String, JsonValue)>)
    ensures
        all_nested_under(entries_params(prefix, entries), prefix),
    decreases entries,
{
    if entries.len() > 0 {
        lemma_entries_nested(prefix, entries.drop_last());
        let name = bracket(prefix, entries.last().0@);
        lemma_bracket_nested(prefix, entries.last().0@);
        let tail = match entries.last().1 {
            JsonValue::Object(_) => deep_params(name, entries.last().1),
            JsonValue::Array(items) => items_params(name, items@),
            JsonValue::String(s) => seq![(name, s@)],
            _ => seq![(name, scalar_text(entries.last().1))],
        };
        match entries.last().1 {
            JsonValue::Object(_) => {
                law_deep_params_nested(name, entries.last().1);
                lemma_all_nested_widen(tail, name, prefix);
            },
            JsonValue::Array(items) => {
                lemma_items_nested(name, items@);
                lemma_all_nested_widen(tail, name, prefix);
            },
            _ => {
                assert(starts_with(name, prefix + seq!['['])) by {
                    assert(name.take(prefix.len() + 1int) =~= prefix + seq!['[']);
                }
                assert(all_nested_under(tail, prefix));
            },
        }
        lemma_all_nested_concat(entries_params(prefix, entries.drop_last()), tail, prefix);
    }
}

proof fn lemma_items_nested(name: Seq<char>, items: Seq<JsonValue>)
    ensures
        all_nested_under(items_params(name, items), name),
    decreases items,
{
    if items.len() > 0 {
        lemma_items_nested(name, items.drop_last());
        let item_name = bracket(name, decimal((items.len() - 1) as nat));
        law_deep_params_nested(item_name, items.last());
        lemma_bracket_nested(name, decimal((items.len() - 1) as nat));
        lemma_all_nested_widen(deep_params(item_name, items.last()), item_name, name);
        lemma_all_nested_concat(
            items_params(name, items.drop_last()),
            deep_params(item_name, items.last()),
            name,
        );
    }
}

/// `text` is how a member that is not a string, an array or an object is written as a
/// parameter value: `null`, `true` or `false`, or the number's JSON text.
pub open spec fn scalar_value_text(v: JsonValue, text: Seq<char>) -> bool {
    &&& v is Null ==> text == "null"@
    &&& v matches JsonValue::Bool(b) ==> text == (if b { "true"@ } else { "false"@ })
    &&& v matches JsonValue::Number(t) ==> text == t@
}

/// Members that are all strings, numbers, booleans or null.
pub open spec fn all_scalar_members(entries: Seq<(String, JsonValue)>) -> bool {
    forall|j: int|
        0 <= j < entries.len() ==> !(#[trigger] entries[j].1 is Object) && !(entries[j].1 is Array)
}

proof fn lemma_scalar_entries(prefix: Seq<char>, entries: Seq<(String, JsonValue)>)
    requires
        all_scalar_members(entries),
    ensures
        entries_params(prefix, entries).len() == entries.len(),
        forall|j: int|
            0 <= j < entries.len() ==> (#[trigger] entries_params(prefix, entries)[j]).0 == bracket(
                prefix,
                entries[j].0@,
            ),
        forall|j: int|
            0 <= j < entries.len() ==> (entries[j].1 matches JsonValue::String(s) ==> (
            #[trigger] entries_params(prefix, entries)[j]).1 == s@),
        forall|j: int|
            0 <= j < entries.len() ==> scalar_value_text(entries[j].1, (
            #[trigger] entries_params(prefix, entries)[j]).1),
    decreases entries.len(),
{
    if entries.len() > 0 {
        let init = entries.drop_last();
        assert forall|j: int| 0 <= j < init.len() implies !(#[trigger] init[j].1 is Object) && !(
        init[j].1 is Array) by {
            assert(init[j] == entries[j]);
        }
        lemma_scalar_entries(prefix, init);
        assert(!(entries[entries.len() - 1].1 is Object) && !(entries[entries.len() - 1].1 is Array));
        let ps = entries_params(prefix, entries);
        assert forall|j: int| 0 <= j < entries.len() implies (#[trigger] ps[j]).0 == bracket(
            prefix,
            entries[j].0@,
        ) && (entries[j].1 matches JsonValue::String(s) ==> ps[j].1 == s@) && scalar_value_text(
            entries[j].1,
            ps[j].1,
        ) by {
            if j < init.len() {
                assert(ps[j] == entries_params(prefix, init)[j]);
                assert(init[j] == entries[j]);
            }
        }
    }
}

/// An object whose members are strings, numbers, booleans or null gives one parameter per
/// member, in order, named `prefix[key]`; a string member's parameter value is the string
/// itself, unchanged, and another member's value is its JSON text.
pub proof fn law_scalar_members_params(prefix: Seq<char>, value: JsonValue)
    requires
        value is Object,
        all_scalar_members(value->Object_0@),
    ensures
        ({
            let entries = value->Object_0@;
            let ps = deep_params(prefix, value);
            &&& ps.len() == entries.len()
            &&& forall|j: int| 0 <= j < entries.len() ==> (#[trigger] ps[j]).0 == bracket(prefix, entries[j].0@)
            &&& forall|j: int|
                0 <= j < entries.len() ==> (entries[j].1 matches JsonValue::String(s) ==> (#[trigger] ps[j]).1
                    == s@)
            &&& forall|j: int| 0 <= j < entries.len() ==> scalar_value_text(entries[j].1, (#[trigger] ps[j]).1)
        }),
{
    lemma_scalar_entries(prefix, value->Object_0@);
}

/// Every string member of an object, whatever its other members, gives the parameter
/// `prefix[key]` with the string itself, unchanged, as its value.
pub proof fn law_string_member_param(prefix: Seq<char>, entries: Seq<(String, JsonValue)>, j: int)
    requires
        0 <= j < entries.len(),
        entries[j].1 is String,
    ensures
        entries_params(prefix, entries).contains((bracket(prefix, entries[j].0@), entries[j].1->String_0@)),
    decreases entries.len(),
{
    let ps = entries_params(prefix, entries);
    let init = entries.drop_last();
    if j == entries.len() - 1 {
        let k = entries_params(prefix, init).len() as int;
        assert(ps[k] == (bracket(prefix, entries[j].0@), entries[j].1->String_0@));
    } else {
        assert(init[j] == entries[j]);
        law_string_member_param(prefix, init, j);
        let k = choose|k: int| 0 <= k < entries_params(prefix, init).len() && entries_params(prefix, init)[k]
            == (bracket(prefix, entries[j].0@), entries[j].1->String_0@);
        assert(ps[k] == entries_params(prefix, init)[k]);
    }
}

/// The parameters of a prefix of the members come first among those of all the members.
proof fn lemma_entries_params_prefix(prefix: Seq<char>, entries: Seq<(String, JsonValue)>, n: int)
    requires
        0 <= n <= entries.len(),
    ensures
        entries_params(prefix, entries.take(n)).len() <= entries_params(prefix, entries).len(),
        forall|k: int|
            0 <= k < entries_params(prefix, entries.take(n)).len() ==> #[trigger] entries_params(
                prefix,
                entries,
            )[k] == entries_params(prefix, entries.take(n))[k],
    decreases entries.len(),
{
    if n < entries.len() {
        let init = entries.drop_last();
        assert(init.take(n) =~= entries.take(n));
        lemma_entries_params_prefix(prefix, init, n);
    } else {
        assert(entries.take(n) =~= entries);
    }
}

/// The parameters of member `j` appear among those of all the members.
proof fn lemma_member_params_included(prefix: Seq<char>, entries: Seq<(String, JsonValue)>, j: int)
    requires
        0 <= j < entries.len(),
    ensures
        ({
            let name = bracket(prefix, entries[j].0@);
            let own = match entries[j].1 {
                JsonValue::Object(_) => deep_params(name, entries[j].1),
                JsonValue::Array(items) => items_params(name, items@),
                JsonValue::String(s) => seq![(name, s@)],
                _ => seq![(name, scalar_text(entries[j].1))],
            };
            forall|x: (Seq<char>, Seq<char>)| own.contains(x) ==> #[trigger] entries_params(prefix, entries).contains(x)
        }),
{
    let upto = entries.take(j + 1);
    assert(upto.drop_last() =~= entries.take(j));
    assert(upto.last() == entries[j]);
    lemma_entries_params_prefix(prefix, entries, j + 1);
    let ps = entries_params(prefix, entries);
    let qs = entries_params(prefix, upto);
    let base = entries_params(prefix, entries.take(j)).len();
    let name = bracket(prefix, entries[j].0@);
    let own = match entries[j].1 {
        JsonValue::Object(_) => deep_params(name, entries[j].1),
        JsonValue::Array(items) => items_params(name, items@),
        JsonValue::String(s) => seq![(name, s@)],
        _ => seq![(name, scalar_text(entries[j].1))],
    };
    assert(qs == entries_params(prefix, entries.take(j)) + own);
    assert forall|x: (Seq<char>, Seq<char>)| own.contains(x) implies #[trigger] ps.contains(x) by {
        let k = choose|k: int| 0 <= k < own.len() && own[k] == x;
        assert(qs[base + k] == x);
        assert(ps[base + k] == qs[base + k]);
    }
}

/// The parameters of element `i` of an array appear among those of the array.
proof fn lemma_item_params_included(name: Seq<char>, items: Seq<JsonValue>, i: int)
    requires
        0 <= i < items.len(),
    ensures
        forall|x: (Seq<char>, Seq<char>)|
            deep_params(bracket(name, decimal(i as nat)), items[i]).contains(x)
                ==> #[trigger] items_params(name, items).contains(x),
    decreases items.len(),
{
    let ps = items_params(name, items);
    let init = items.drop_last();
    let own = deep_params(bracket(name, decimal(i as nat)), items[i]);
    if i == items.len() - 1 {
        assert forall|x: (Seq<char>, Seq<char>)| own.contains(x) implies #[trigger] ps.contains(x) by {
            let k = choose|k: int| 0 <= k < own.len() && own[k] == x;
            assert(ps[items_params(name, init).len() + k] == x);
        }
    } else {
        assert(init[i] == items[i]);
        lemma_item_params_included(name, init, i);
        assert forall|x: (Seq<char>, Seq<char>)| own.contains(x) implies #[trigger] ps.contains(x) by {
            assert(items_params(name, init).contains(x));
            let k = choose|k: int| 0 <= k < items_params(name, init).len() && items_params(name, init)[k] == x;
            assert(ps[k] == x);
        }
    }
}

/// A member that is an object is flattened under `prefix[key]`: every parameter of the member
/// under that name is a parameter of the whole object.
pub proof fn law_object_member_nested(prefix: Seq<char>, entries: Seq<(String, JsonValue)>, j: int)
    requires
        0 <= j < entries.len(),
        entries[j].1 is Object,
    ensures
        forall|x: (Seq<char>, Seq<char>)|
            deep_params(bracket(prefix, entries[j].0@), entries[j].1).contains(x)
                ==> #[trigger] entries_params(prefix, entries).contains(x),
{
    lemma_member_params_included(prefix, entries, j);
}

/// A member that is an array has its element `i` flattened under `prefix[key][i]`: every
/// parameter of the element under that name is a parameter of the whole object.
pub proof fn law_array_member_nested(prefix: Seq<char>, entries: Seq<(String, JsonValue)>, j: int, i: int)
    requires
        0 <= j < entries.len(),
        entries[j].1 is Array,
        0 <= i < entries[j].1->Array_0@.len(),
    ensures
        forall|x: (Seq<char>, Seq<char>)|
            deep_params(
                bracket(bracket(prefix, entries[j].0@), decimal(i as nat)),
                entries[j].1->Array_0@[i],
            ).contains(x) ==> #[trigger] entries_params(prefix, entries).contains(x),
{
    let name = bracket(prefix, entries[j].0@);
    lemma_member_params_included(prefix, entries, j);
    lemma_item_params_included(name, entries[j].1->Array_0@, i);
}

} // verus!
