use vstd::prelude::*;
use crate::json::JsonValue;
use crate::template::{
    Location, TemplateView, find_in_members, find_token, key_position, lemma_key_position,
    lemma_token_index, put_at, render, scan_transform, token_index_from, BATCH_INPUT, BATCH_MODE,
    BATCH_OUTPUT, SINGLE_MODE, BATCH_PAIR_MISSING,
};

verus! {

/// The value reached by following `keys` through objects from `doc`.
pub open spec fn at(doc: JsonValue, keys: Seq<Seq<char>>) -> Option<JsonValue>
    decreases keys.len(),
{
    if keys.len() == 0 {
        Some(doc)
    } else {
        match doc {
            JsonValue::Object(ms) => match key_position(ms, keys[0], 0) {
                Some(p) => at(ms[p as int].1, keys.subrange(1, keys.len() as int)),
                None => None,
            },
            _ => None,
        }
    }
}

/// The value at a place: the value its keys reach, or the slot of the array
/// they reach.
pub open spec fn slot_value(doc: JsonValue, loc: Location) -> Option<JsonValue> {
    match at(doc, loc.0) {
        Some(v) => match loc.1 {
            None => Some(v),
            Some(i) => match v {
                JsonValue::Array(items) => if i < items.len() {
                    Some(items[i as int])
                } else {
                    None
                },
                _ => None,
            },
        },
        None => None,
    }
}

pub open spec fn is_prefix(a: Seq<Seq<char>>, b: Seq<Seq<char>>) -> bool {
    a.len() <= b.len() && b.subrange(0, a.len() as int) == a
}

/// Two places neither of which lies inside the other.
pub open spec fn disjoint(a: Location, b: Location) -> bool {
    (!is_prefix(a.0, b.0) && !is_prefix(b.0, a.0)) || (a.0 == b.0 && a.1 is Some && b.1 is Some
        && a.1 != b.1)
}

/// Keys are distinct within every object reachable through objects.
pub open spec fn members_unique(ms: Seq<(Seq<char>, JsonValue)>) -> bool
    decreases ms,
{
    if ms.len() == 0 {
        true
    } else {
        &&& forall|j: int| 1 <= j < ms.len() ==> (#[trigger] ms[j]).0 != ms[0].0
        &&& match ms[0].1 {
            JsonValue::Object(inner) => members_unique(inner),
            _ => true,
        }
        &&& members_unique(ms.subrange(1, ms.len() as int))
    }
}

/// Keys are distinct within every object of the document that the template
/// search walks through; JSON objects always satisfy this.
pub open spec fn unique_keys(doc: JsonValue) -> bool {
    match doc {
        JsonValue::Object(ms) => members_unique(ms),
        _ => true,
    }
}

/// A list of file names as a JSON array of strings.
pub open spec fn string_array(names: Seq<Seq<char>>) -> JsonValue {
    JsonValue::Array(names.map_values(|n: Seq<char>| JsonValue::Str(n)))
}

proof fn lemma_key_position_shift(ms: Seq<(Seq<char>, JsonValue)>, k: Seq<char>, i: int)
    requires
        ms.len() > 0,
        i >= 0,
    ensures
        key_position(ms, k, i + 1) == match key_position(ms.subrange(1, ms.len() as int), k, i) {
            Some(p) => Some((p + 1) as nat),
            None => None::<nat>,
        },
    decreases ms.len() - i,
{
    let rest = ms.subrange(1, ms.len() as int);
    if i + 1 < ms.len() {
        assert(rest[i] == ms[i + 1]);
        if ms[i + 1].0 != k {
            lemma_key_position_shift(ms, k, i + 1);
        }
    }
}

proof fn lemma_key_position_update(
    ms: Seq<(Seq<char>, JsonValue)>,
    p: int,
    x: JsonValue,
    k: Seq<char>,
    i: int,
)
    requires
        0 <= p < ms.len(),
    ensures
        key_position(ms.update(p, (ms[p].0, x)), k, i) == key_position(ms, k, i),
    decreases ms.len() - i,
{
    if 0 <= i < ms.len() {
        lemma_key_position_update(ms, p, x, k, i + 1);
    }
}

/// A hit of the depth-first search is a place that holds the token.
proof fn lemma_found_in_members(ms: Seq<(Seq<char>, JsonValue)>, kw: Seq<char>)
    requires
        members_unique(ms),
        find_in_members(ms, kw) is Some,
    ensures
        find_in_members(ms, kw)->Some_0.0.len() > 0,
        slot_value(JsonValue::Object(ms), find_in_members(ms, kw)->Some_0) == Some(
            JsonValue::Str(kw),
        ),
    decreases ms,
{
    let loc = find_in_members(ms, kw)->Some_0;
    let k = ms[0].0;
    let doc = JsonValue::Object(ms);
    assert(key_position(ms, k, 0) == Some(0nat));
    let here: Option<Location> = match ms[0].1 {
        JsonValue::Str(t) => if t == kw {
            Some((seq![k], None))
        } else {
            None
        },
        JsonValue::Array(items) => match token_index_from(items, kw, 0) {
            Some(i) => Some((seq![k], Some(i))),
            None => None,
        },
        JsonValue::Object(inner) => match find_in_members(inner, kw) {
            Some(l) => Some((seq![k] + l.0, l.1)),
            None => None,
        },
        _ => None,
    };
    if here is Some {
        assert(loc == here->Some_0);
        match ms[0].1 {
            JsonValue::Str(t) => {
                assert(seq![k].subrange(1, 1) =~= Seq::<Seq<char>>::empty());
                assert(seq![k][0] == k);
                assert(at(ms[0].1, seq![k].subrange(1, 1)) == Some(ms[0].1));
                assert(at(doc, loc.0) == Some(ms[0].1));
            },
            JsonValue::Array(items) => {
                lemma_token_index(items, kw, 0);
                assert(seq![k].subrange(1, 1) =~= Seq::<Seq<char>>::empty());
                assert(seq![k][0] == k);
                assert(at(ms[0].1, seq![k].subrange(1, 1)) == Some(ms[0].1));
                assert(at(doc, loc.0) == Some(ms[0].1));
            },
            JsonValue::Object(inner) => {
                lemma_found_in_members(inner, kw);
                let l = find_in_members(inner, kw)->Some_0;
                assert(loc.0.subrange(1, loc.0.len() as int) =~= l.0);
                assert(loc.0[0] == k);
                assert(at(doc, loc.0) == at(ms[0].1, l.0));
            },
            _ => {},
        }
    } else {
        let rest = ms.subrange(1, ms.len() as int);
        assert(loc == find_in_members(rest, kw)->Some_0);
        lemma_found_in_members(rest, kw);
        let k2 = loc.0[0];
        let tail = loc.0.subrange(1, loc.0.len() as int);
        let p2 = key_position(rest, k2, 0)->Some_0;
        lemma_key_position(rest, k2, 0);
        assert(rest[p2 as int] == ms[p2 as int + 1]);
        assert(k2 != k);
        lemma_key_position_shift(ms, k2, 0);
        assert(key_position(ms, k2, 0) == key_position(ms, k2, 1));
        assert(at(doc, loc.0) == at(JsonValue::Object(rest), loc.0));
    }
}

/// A hit of the search over a whole document is a place that holds the
/// token.
pub proof fn lemma_found_holds_token(doc: JsonValue, kw: Seq<char>)
    requires
        unique_keys(doc),
        find_token(doc, kw) matches Ok(Some(_)),
    ensures
        slot_value(doc, find_token(doc, kw)->Ok_0->Some_0) == Some(JsonValue::Str(kw)),
{
    match doc {
        JsonValue::Object(ms) => {
            lemma_found_in_members(ms, kw);
        },
        JsonValue::Array(items) => {
            lemma_token_index(items, kw, 0);
        },
        _ => {},
    }
}

proof fn lemma_prefix_tail(a: Seq<Seq<char>>, b: Seq<Seq<char>>)
    requires
        a.len() > 0,
        b.len() > 0,
        a[0] == b[0],
    ensures
        is_prefix(a, b) == is_prefix(a.subrange(1, a.len() as int), b.subrange(1, b.len() as int)),
        (a == b) == (a.subrange(1, a.len() as int) == b.subrange(1, b.len() as int)),
{
    let ta = a.subrange(1, a.len() as int);
    let tb = b.subrange(1, b.len() as int);
    if is_prefix(a, b) {
        assert(tb.subrange(0, ta.len() as int) =~= ta);
    }
    if is_prefix(ta, tb) {
        assert forall|k: int| 0 <= k < a.len() implies b.subrange(0, a.len() as int)[k] == a[k] by {
            if k > 0 {
                assert(tb.subrange(0, ta.len() as int)[k - 1] == ta[k - 1]);
            }
        }
        assert(b.subrange(0, a.len() as int) =~= a);
    }
    if ta == tb {
        assert forall|k: int| 0 <= k < a.len() implies b[k] == a[k] by {
            if k > 0 {
                assert(tb[k - 1] == ta[k - 1]);
            }
        }
        assert(a =~= b);
    }
}

/// Writing a value at a place that holds a string succeeds, puts the value
/// there, and leaves every place disjoint from it as it was.
pub proof fn lemma_put_at(doc: JsonValue, keys: Seq<Seq<char>>, idx: Option<nat>, new: JsonValue)
    requires
        slot_value(doc, (keys, idx)) matches Some(JsonValue::Str(_)),
    ensures
        put_at(doc, keys, idx, new) is Ok,
        slot_value(put_at(doc, keys, idx, new)->Ok_0, (keys, idx)) == Some(new),
        forall|l: Location|
            disjoint((keys, idx), l) ==> #[trigger] slot_value(put_at(doc, keys, idx, new)->Ok_0, l)
                == slot_value(doc, l),
    decreases keys.len(),
{
    let d = put_at(doc, keys, idx, new)->Ok_0;
    if keys.len() == 0 {
        assert forall|l: Location| disjoint((keys, idx), l) implies #[trigger] slot_value(d, l)
            == slot_value(doc, l) by {
            assert(l.0.subrange(0, 0) =~= keys);
            if l.0.len() > 0 {
                assert(is_prefix(keys, l.0));
            }
        }
    } else {
        let ms = doc->Object_0;
        let p = key_position(ms, keys[0], 0)->Some_0;
        lemma_key_position(ms, keys[0], 0);
        let rest = keys.subrange(1, keys.len() as int);
        let child = ms[p as int].1;
        lemma_put_at(child, rest, idx, new);
        let child2 = put_at(child, rest, idx, new)->Ok_0;
        let ms2 = ms.update(p as int, (ms[p as int].0, child2));
        assert(d == JsonValue::Object(ms2));
        lemma_key_position_update(ms, p as int, child2, keys[0], 0);
        assert(at(d, keys) == at(child2, rest));
        assert forall|l: Location| disjoint((keys, idx), l) implies #[trigger] slot_value(d, l)
            == slot_value(doc, l) by {
            if l.0.len() == 0 {
                assert(keys.subrange(0, 0) =~= l.0);
                assert(is_prefix(l.0, keys));
            } else {
                let lrest = l.0.subrange(1, l.0.len() as int);
                lemma_key_position_update(ms, p as int, child2, l.0[0], 0);
                if l.0[0] == keys[0] {
                    lemma_prefix_tail(keys, l.0);
                    lemma_prefix_tail(l.0, keys);
                    assert(disjoint((rest, idx), (lrest, l.1)));
                    assert(slot_value(child2, (lrest, l.1)) == slot_value(child, (lrest, l.1)));
                    assert(at(d, l.0) == at(child2, lrest));
                    assert(at(doc, l.0) == at(child, lrest));
                } else {
                    lemma_key_position(ms, l.0[0], 0);
                    assert(at(d, l.0) == at(doc, l.0));
                }
            }
        }
    }
}

/// Below a place that does not hold an object, nothing can be reached.
proof fn lemma_at_below_leaf(doc: JsonValue, a: Seq<Seq<char>>, b: Seq<Seq<char>>)
    requires
        is_prefix(a, b),
        a.len() < b.len(),
        at(doc, a) matches Some(v) && !(v is Object),
    ensures
        at(doc, b) is None,
    decreases a.len(),
{
    if a.len() > 0 {
        let ms = doc->Object_0;
        let p = key_position(ms, a[0], 0)->Some_0;
        assert(b[0] == b.subrange(0, a.len() as int)[0]);
        lemma_prefix_tail(a, b);
        lemma_at_below_leaf(ms[p as int].1, a.subrange(1, a.len() as int), b.subrange(1, b.len() as int));
    }
}

/// Two places that hold different strings lie apart.
proof fn lemma_distinct_tokens_disjoint(doc: JsonValue, la: Location, lb: Location, ta: Seq<char>, tb: Seq<char>)
    requires
        slot_value(doc, la) == Some(JsonValue::Str(ta)),
        slot_value(doc, lb) == Some(JsonValue::Str(tb)),
        ta != tb,
    ensures
        disjoint(la, lb),
{
    if la.0.len() == lb.0.len() && is_prefix(la.0, lb.0) {
        assert(lb.0.subrange(0, lb.0.len() as int) =~= lb.0);
    } else if la.0.len() == lb.0.len() && is_prefix(lb.0, la.0) {
        assert(la.0.subrange(0, la.0.len() as int) =~= la.0);
    } else if la.0 == lb.0 {
    } else if is_prefix(la.0, lb.0) {
        lemma_at_below_leaf(doc, la.0, lb.0);
    } else if is_prefix(lb.0, la.0) {
        lemma_at_below_leaf(doc, lb.0, la.0);
    }
}

/// A batch template renders to the source document with the input place
/// holding exactly the input value (in batch mode, the array of input file
/// names), the output place holding exactly the output value, and every other
/// place of the document unchanged.
pub proof fn lemma_template_round_trip(doc: JsonValue, input: JsonValue, output: JsonValue)
    requires
        unique_keys(doc),
        scan_transform(doc) matches Ok((mode, _, _)) && mode == BATCH_MODE@,
    ensures
        ({
            let (mode, li, lo) = scan_transform(doc)->Ok_0;
            let t = TemplateView { mode, input: li, output: lo, source: doc };
            &&& render(t, input, output) is Ok
            &&& slot_value(render(t, input, output)->Ok_0, li) == Some(input)
            &&& slot_value(render(t, input, output)->Ok_0, lo) == Some(output)
            &&& forall|l: Location|
                disjoint(li, l) && disjoint(lo, l) ==> #[trigger] slot_value(
                    render(t, input, output)->Ok_0,
                    l,
                ) == slot_value(doc, l)
        }),
{
    let (mode, li, lo) = scan_transform(doc)->Ok_0;
    reveal_strlit("batch");
    reveal_strlit("single");
    assert(SINGLE_MODE@.len() != BATCH_MODE@.len());
    assert(find_token(doc, BATCH_INPUT@) == Ok::<Option<Location>, ()>(Some(li)));
    assert(find_token(doc, BATCH_OUTPUT@) == Ok::<Option<Location>, ()>(Some(lo)));
    lemma_found_holds_token(doc, BATCH_INPUT@);
    lemma_found_holds_token(doc, BATCH_OUTPUT@);
    reveal_strlit("$BATCH_INPUT");
    reveal_strlit("$BATCH_OUTPUT");
    assert(BATCH_INPUT@[7] != BATCH_OUTPUT@[7]);
    lemma_distinct_tokens_disjoint(doc, li, lo, BATCH_INPUT@, BATCH_OUTPUT@);
    lemma_put_at(doc, li.0, li.1, input);
    let d1 = put_at(doc, li.0, li.1, input)->Ok_0;
    assert(slot_value(d1, lo) == slot_value(doc, lo));
    lemma_put_at(d1, lo.0, lo.1, output);
    let d2 = put_at(d1, lo.0, lo.1, output)->Ok_0;
    assert(disjoint(lo, li)) by {
        lemma_distinct_tokens_disjoint(doc, lo, li, BATCH_OUTPUT@, BATCH_INPUT@);
    }
    assert(slot_value(d2, li) == slot_value(d1, li));
}

/// A document in which the search finds one token of the batch pair but not
/// the other is refused by the scan, with the batch-pair configuration
/// error, whatever single-mode tokens it also holds.
pub proof fn lemma_half_batch_pair_rejected(doc: JsonValue)
    requires
        find_token(doc, BATCH_INPUT@) is Ok,
        (find_token(doc, BATCH_INPUT@)->Ok_0 is Some) != (find_token(doc, BATCH_OUTPUT@)->Ok_0 is Some),
    ensures
        scan_transform(doc) == Err::<(Seq<char>, Location, Location), Seq<char>>(BATCH_PAIR_MISSING@),
{
}

} // verus!
