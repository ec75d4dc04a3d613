use vstd::prelude::*;
use std::collections::VecDeque;
use crate::error::VideoError;
use crate::json::{Json, JsonValue, elements_of, members_of, lemma_items_value, lemma_entries_value};
use crate::text::same_text;

verus! {

/// Marks where the list of input files of a batch goes.
pub const BATCH_INPUT: &'static str = "$BATCH_INPUT";

/// Marks where the list of output files of a batch goes.
pub const BATCH_OUTPUT: &'static str = "$BATCH_OUTPUT";

/// Marks where the one input file of a single-frame call goes.
pub const SINGLE_INPUT: &'static str = "$SINGLE_INPUT";

/// Marks where the one output file of a single-frame call goes.
pub const SINGLE_OUTPUT: &'static str = "$SINGLE_OUTPUT";

pub const NOT_A_CONTAINER: &'static str = "advanced input was neither a json object or an array.";

pub const PATH_ENDS_AT_OBJECT: &'static str =
    "did not exit properly, path contained a json object, not a final node of array or string.";

pub const KEY_NOT_FOUND: &'static str = "path traversal invalid, path not found.";

pub const INDEX_MISSING: &'static str =
    "array iter must be passed if the final node is an array type.";

pub const INDEX_OUT_OF_RANGE: &'static str = "array iter is past the end of the array.";

pub const NOT_A_SLOT: &'static str = "the path does not end at an array or a string.";

pub const BATCH_PAIR_MISSING: &'static str =
    "json parsing error:\nif batch selected both $BATCH_INPUT and $BATCH_OUTPUT must be defined.";

pub const SINGLE_PAIR_MISSING: &'static str =
    "json parsing error:\nif single selected both $SINGLE_INPUT and $SINGLE_OUTPUT must be defined.";

pub const NO_KEYWORDS: &'static str = "json parsing error:\nadvanced_input did not contain any keywords!";

/// The mode of a template whose places take lists of files.
pub const BATCH_MODE: &'static str = "batch";

/// The mode of a template whose places take one file each.
pub const SINGLE_MODE: &'static str = "single";

/// The file references substituted into a template: a list for batch mode,
/// one file for single mode.
pub enum FileRefs<'a> {
    Batch(&'a Vec<String>),
    Single(&'a str),
}

/// The JSON value that file references become: an array of strings, or one
/// string.
pub open spec fn refs_value(data: FileRefs) -> JsonValue {
    match data {
        FileRefs::Batch(v) => JsonValue::Array(v@.map_values(|s: String| JsonValue::Str(s@))),
        FileRefs::Single(s) => JsonValue::Str(s@),
    }
}

/// A place in a document: the object keys to follow from the root, and the
/// position within the array reached, if the place is an array slot.
pub type Location = (Seq<Seq<char>>, Option<nat>);

/// The keys that a path of strings spells.
pub open spec fn keys_of(path: Seq<String>) -> Seq<Seq<char>> {
    path.map_values(|s: String| s@)
}

/// An array index as a natural number.
pub open spec fn index_view(i: Option<usize>) -> Option<nat> {
    match i {
        Some(k) => Some(k as nat),
        None => None,
    }
}

/// The first position at or after `i` whose item is the string `token`.
pub open spec fn token_index_from(items: Seq<JsonValue>, token: Seq<char>, i: int) -> Option<nat>
    decreases items.len() - i,
{
    if i < 0 || i >= items.len() {
        None
    } else if items[i] == JsonValue::Str(token) {
        Some(i as nat)
    } else {
        token_index_from(items, token, i + 1)
    }
}

/// Depth-first search of object members, in order, for the string `token`:
/// a member whose value is the token, a member whose value is an array that
/// holds the token, or a member whose value is an object where the search
/// succeeds. Objects inside arrays are not searched.
pub open spec fn find_in_members(members: Seq<(Seq<char>, JsonValue)>, token: Seq<char>) -> Option<
    Location,
>
    decreases members,
{
    if members.len() == 0 {
        None
    } else {
        let key = members[0].0;
        let here: Option<Location> = match members[0].1 {
            JsonValue::Str(t) => if t == token {
                Some((seq![key], None))
            } else {
                None
            },
            JsonValue::Array(items) => match token_index_from(items, token, 0) {
                Some(i) => Some((seq![key], Some(i))),
                None => None,
            },
            JsonValue::Object(inner) => match find_in_members(inner, token) {
                Some(loc) => Some((seq![key] + loc.0, loc.1)),
                None => None,
            },
            _ => None,
        };
        if here is Some {
            here
        } else {
            find_in_members(members.subrange(1, members.len() as int), token)
        }
    }
}

/// Where `token` is found in a document, if anywhere; `Err` for a document
/// that is neither an object, an array nor a string.
pub open spec fn find_token(doc: JsonValue, token: Seq<char>) -> Result<Option<Location>, ()> {
    match doc {
        JsonValue::Object(members) => Ok(find_in_members(members, token)),
        JsonValue::Array(items) => Ok(
            match token_index_from(items, token, 0) {
                Some(i) => Some((Seq::empty(), Some(i))),
                None => None,
            },
        ),
        JsonValue::Str(t) => Ok(
            if t == token {
                Some((Seq::empty(), None))
            } else {
                None
            },
        ),
        _ => Err(()),
    }
}

/// The first position of an array that holds the string `token`.
fn token_position(items: &Vec<Json>, token: &str) -> (r: Option<usize>)
    ensures
        index_view(r) == token_index_from(elements_of(items), token@, 0),
{
    proof {
        lemma_items_value(*items, items.len() as int);
    }
    let mut i: usize = 0;
    while i < items.len()
        invariant
            i <= items.len(),
            elements_of(items).len() == items.len(),
            forall|k: int| 0 <= k < items.len() ==> #[trigger] elements_of(items)[k] == items[k]@,
            token_index_from(elements_of(items), token@, 0) == token_index_from(
                elements_of(items),
                token@,
                i as int,
            ),
        decreases items.len() - i,
    {
        let hit = match &items[i] {
            Json::Str(t) => same_text(t.as_str(), token),
            _ => false,
        };
        assert(hit == (elements_of(items)[i as int] == JsonValue::Str(token@)));
        if hit {
            return Some(i);
        }
        i = i + 1;
    }
    None
}

/// Depth-first search of an object's members for `token`; see
/// `find_in_members`. The keys on the way to a hit are appended to `path`;
/// when nothing is found `path` is left as it was.
fn search_members(entries: &Vec<(String, Json)>, path: &mut VecDeque<String>, token: &str) -> (r:
    Option<Option<usize>>)
    ensures
        match find_in_members(members_of(entries), token@) {
            None => r is None && final(path)@ == old(path)@,
            Some(loc) => r is Some && index_view(r->Some_0) == loc.1 && keys_of(final(path)@)
                == keys_of(old(path)@) + loc.0,
        },
    decreases entries,
{
    let ghost members = members_of(entries);
    let ghost start = path@;
    proof {
        lemma_entries_value(*entries, entries.len() as int);
        assert(members.subrange(0, members.len() as int) =~= members);
    }
    let mut i: usize = 0;
    while i < entries.len()
        invariant
            i <= entries.len(),
            members == members_of(entries),
            members.len() == entries.len(),
            forall|k: int|
                0 <= k < entries.len() ==> #[trigger] members[k] == (entries[k].0@, entries[k].1@),
            path@ == start,
            start == old(path)@,
            find_in_members(members, token@) == find_in_members(
                members.subrange(i as int, members.len() as int),
                token@,
            ),
        decreases entries.len() - i,
    {
        let ghost rest = members.subrange(i as int, members.len() as int);
        proof {
            assert(rest[0] == members[i as int]);
            assert(rest.subrange(1, rest.len() as int) =~= members.subrange(
                i + 1,
                members.len() as int,
            ));
        }
        let key = entries[i].0.clone();
        path.push_back(key);
        proof {
            assert(keys_of(path@) =~= keys_of(start) + seq![entries[i as int].0@]);
        }
        match &entries[i].1 {
            Json::Str(t) => {
                if same_text(t.as_str(), token) {
                    proof {
                        assert(rest[0].1 == JsonValue::Str(t@));
                        assert(find_in_members(rest, token@) == Some(
                            (seq![entries[i as int].0@], None::<nat>),
                        ));
                        assert(find_in_members(members, token@) == Some(
                            (seq![entries[i as int].0@], None::<nat>),
                        ));
                    }
                    return Some(None);
                }
            },
            Json::Array(items) => {
                let found = token_position(items, token);
                if found.is_some() {
                    proof {
                        assert(rest[0].1 == JsonValue::Array(elements_of(items)));
                        assert(find_in_members(rest, token@) == Some(
                            (seq![entries[i as int].0@], index_view(found)),
                        ));
                    }
                    return Some(found);
                }
            },
            Json::Object(inner) => {
                proof {
                    assert(decreases_to!(*entries => entries@));
                    assert(decreases_to!(entries@ => entries@[i as int]));
                    assert(decreases_to!(entries@[i as int] => entries@[i as int].1));
                    assert(decreases_to!(entries@[i as int].1 => entries@[i as int].1->Object_0));
                }
                let ghost before = path@;
                let found = search_members(inner, path, token);
                if found.is_some() {
                    proof {
                        let loc = find_in_members(members_of(inner), token@).unwrap();
                        assert(keys_of(start) + (seq![entries[i as int].0@] + loc.0) =~= keys_of(
                            before,
                        ) + loc.0);
                    }
                    return found;
                }
            },
            _ => {},
        }
        path.pop_back();
        proof {
            assert(path@ =~= start);
        }
        i = i + 1;
    }
    None
}

/// Depth-first search of a document for `keyword`: the keys on the way to
/// the first hit are appended to `path`, and the result says whether it was
/// found and, for a hit inside an array, at which position.
pub fn search_json(json: &Json, path: &mut VecDeque<String>, keyword: &str) -> (r: Result<
    (bool, Option<usize>),
    VideoError,
>)
    ensures
        match find_token(json@, keyword@) {
            Err(_) => r is Err && r->Err_0@ == NOT_A_CONTAINER@ && final(path)@ == old(path)@,
            Ok(None) => (r matches Ok((f, i)) && !f && i is None) && final(path)@ == old(path)@,
            Ok(Some(loc)) => (r matches Ok((f, i)) && f && index_view(i) == loc.1) && keys_of(
                final(path)@,
            ) == keys_of(old(path)@) + loc.0,
        },
{
    match json {
        Json::Object(entries) => {
            match search_members(entries, path, keyword) {
                Some(i) => Ok((true, i)),
                None => Ok((false, None)),
            }
        },
        Json::Array(items) => {
            let found = token_position(items, keyword);
            proof {
                assert(keys_of(path@) + Seq::<Seq<char>>::empty() =~= keys_of(path@));
            }
            match found {
                Some(i) => Ok((true, Some(i))),
                None => Ok((false, None)),
            }
        },
        Json::Str(t) => {
            proof {
                assert(keys_of(path@) + Seq::<Seq<char>>::empty() =~= keys_of(path@));
            }
            if same_text(t.as_str(), keyword) {
                Ok((true, None))
            } else {
                Ok((false, None))
            }
        },
        _ => Err(VideoError::msg(NOT_A_CONTAINER)),
    }
}

/// The first member at or after position `i` whose key is `key`.
pub open spec fn key_position(members: Seq<(Seq<char>, JsonValue)>, key: Seq<char>, i: int) -> Option<
    nat,
>
    decreases members.len() - i,
{
    if i < 0 || i >= members.len() {
        None
    } else if members[i].0 == key {
        Some(i as nat)
    } else {
        key_position(members, key, i + 1)
    }
}

pub proof fn lemma_key_position(members: Seq<(Seq<char>, JsonValue)>, key: Seq<char>, i: int)
    ensures
        key_position(members, key, i) matches Some(p) ==> i <= p < members.len() && members[p as int].0
            == key && (forall|q: int| i <= q < p ==> members[q].0 != key),
    decreases members.len() - i,
{
    if 0 <= i < members.len() && members[i].0 != key {
        lemma_key_position(members, key, i + 1);
    }
}

pub proof fn lemma_token_index(items: Seq<JsonValue>, token: Seq<char>, i: int)
    ensures
        token_index_from(items, token, i) matches Some(p) ==> i <= p < items.len() && items[p as int]
            == JsonValue::Str(token),
    decreases items.len() - i,
{
    if 0 <= i < items.len() && items[i] != JsonValue::Str(token) {
        lemma_token_index(items, token, i + 1);
    }
}

/// The document with `new` written at a place: the keys are followed
/// through objects until a value that is not an object is reached; a string
/// there is replaced whole, an array has the slot `idx` replaced. Anything
/// else is an error, with its message.
pub open spec fn put_at(doc: JsonValue, keys: Seq<Seq<char>>, idx: Option<nat>, new: JsonValue) -> Result<
    JsonValue,
    Seq<char>,
>
    decreases keys.len(),
{
    match doc {
        JsonValue::Object(members) => if keys.len() == 0 {
            Err(PATH_ENDS_AT_OBJECT@)
        } else {
            match key_position(members, keys[0], 0) {
                None => Err(KEY_NOT_FOUND@),
                Some(p) => match put_at(
                    members[p as int].1,
                    keys.subrange(1, keys.len() as int),
                    idx,
                    new,
                ) {
                    Ok(child) => Ok(
                        JsonValue::Object(members.update(p as int, (members[p as int].0, child))),
                    ),
                    Err(m) => Err(m),
                },
            }
        },
        JsonValue::Array(items) => match idx {
            None => Err(INDEX_MISSING@),
            Some(i) => if i < items.len() {
                Ok(JsonValue::Array(items.update(i as int, new)))
            } else {
                Err(INDEX_OUT_OF_RANGE@)
            },
        },
        JsonValue::Str(_) => Ok(new),
        _ => Err(NOT_A_SLOT@),
    }
}

/// The position of the first member whose key is `key`.
fn member_position(entries: &Vec<(String, Json)>, key: &str) -> (r: Option<usize>)
    ensures
        index_view(r) == key_position(members_of(entries), key@, 0),
{
    proof {
        lemma_entries_value(*entries, entries.len() as int);
    }
    let mut i: usize = 0;
    while i < entries.len()
        invariant
            i <= entries.len(),
            members_of(entries).len() == entries.len(),
            forall|k: int|
                0 <= k < entries.len() ==> #[trigger] members_of(entries)[k] == (
                    entries[k].0@,
                    entries[k].1@,
                ),
            key_position(members_of(entries), key@, 0) == key_position(
                members_of(entries),
                key@,
                i as int,
            ),
        decreases entries.len() - i,
    {
        if same_text(entries[i].0.as_str(), key) {
            return Some(i);
        }
        i = i + 1;
    }
    None
}

/// The JSON value of file references.
pub fn refs_json(data: &FileRefs) -> (r: Json)
    ensures
        r@ == refs_value(*data),
{
    match data {
        FileRefs::Batch(v) => {
            let mut items: Vec<Json> = Vec::new();
            let mut i: usize = 0;
            while i < v.len()
                invariant
                    i <= v.len(),
                    items.len() == i,
                    forall|k: int| 0 <= k < i ==> #[trigger] items[k]@ == JsonValue::Str(v@[k]@),
                decreases v.len() - i,
            {
                items.push(Json::Str(v[i].clone()));
                i = i + 1;
            }
            proof {
                lemma_items_value(items, items.len() as int);
                assert forall|k: int| 0 <= k < items.len() implies elements_of(&items)[k]
                    == v@.map_values(|s: String| JsonValue::Str(s@))[k] by {
                    assert(items[k]@ == JsonValue::Str(v@[k]@));
                }
                assert(elements_of(&items) =~= v@.map_values(|s: String| JsonValue::Str(s@)));
            }
            Json::Array(items)
        },
        FileRefs::Single(s) => Json::Str(String::from_str(s)),
    }
}

/// `doc` with `new` written at the place that `keys`, from position `depth`
/// on, and `idx` give; see `put_at`.
fn put_value(doc: &Json, keys: &VecDeque<String>, depth: usize, idx: Option<usize>, new: Json) -> (r:
    Result<Json, VideoError>)
    requires
        depth <= keys@.len(),
    ensures
        match put_at(
            doc@,
            keys_of(keys@).subrange(depth as int, keys@.len() as int),
            index_view(idx),
            new@,
        ) {
            Ok(v) => r is Ok && r->Ok_0@ == v,
            Err(m) => r is Err && r->Err_0@ == m,
        },
    decreases keys@.len() - depth,
{
    let ghost ks = keys_of(keys@).subrange(depth as int, keys@.len() as int);
    match doc {
        Json::Object(entries) => {
            if depth >= keys.len() {
                return Err(VideoError::msg(PATH_ENDS_AT_OBJECT));
            }
            proof {
                assert(ks[0] == keys@[depth as int]@);
                assert(ks.subrange(1, ks.len() as int) =~= keys_of(keys@).subrange(
                    depth + 1,
                    keys@.len() as int,
                ));
            }
            let found = member_position(entries, keys[depth].as_str());
            let p = match found {
                Some(p) => p,
                None => {
                    return Err(VideoError::msg(KEY_NOT_FOUND));
                },
            };
            proof {
                lemma_entries_value(*entries, entries.len() as int);
                lemma_key_position(members_of(entries), keys@[depth as int]@, 0);
            }
            let child = match put_value(&entries[p].1, keys, depth + 1, idx, new) {
                Ok(c) => c,
                Err(e) => {
                    return Err(e);
                },
            };
            let mut out: Vec<(String, Json)> = Vec::new();
            let mut q: usize = 0;
            let mut spare: Option<Json> = Some(child);
            while q < entries.len()
                invariant
                    q <= entries.len(),
                    p < entries.len(),
                    out.len() == q,
                    spare is Some <==> q <= p,
                    spare is Some ==> spare->Some_0@ == child@,
                    forall|k: int|
                        0 <= k < q ==> (#[trigger] out[k]).0@ == entries[k].0@ && out[k].1@ == (
                        if k == p {
                            child@
                        } else {
                            entries[k].1@
                        }),
                decreases entries.len() - q,
            {
                let value = if q == p {
                    match spare.take() {
                        Some(c) => c,
                        None => Json::Null,
                    }
                } else {
                    entries[q].1.copy()
                };
                out.push((entries[q].0.clone(), value));
                q = q + 1;
            }
            proof {
                lemma_entries_value(out, out.len() as int);
                let members = members_of(entries);
                assert(members_of(&out) =~= members.update(p as int, (members[p as int].0, child@)));
            }
            Ok(Json::Object(out))
        },
        Json::Array(items) => {
            let i = match idx {
                Some(i) => i,
                None => {
                    return Err(VideoError::msg(INDEX_MISSING));
                },
            };
            if i >= items.len() {
                proof {
                    lemma_items_value(*items, items.len() as int);
                }
                return Err(VideoError::msg(INDEX_OUT_OF_RANGE));
            }
            let ghost slot = new@;
            let mut out: Vec<Json> = Vec::new();
            let mut q: usize = 0;
            let mut spare: Option<Json> = Some(new);
            while q < items.len()
                invariant
                    q <= items.len(),
                    i < items.len(),
                    out.len() == q,
                    spare is Some <==> q <= i,
                    spare is Some ==> spare->Some_0@ == slot,
                    forall|k: int|
                        0 <= k < q ==> #[trigger] out[k]@ == (if k == i {
                            slot
                        } else {
                            items[k]@
                        }),
                decreases items.len() - q,
            {
                let value = if q == i {
                    match spare.take() {
                        Some(c) => c,
                        None => Json::Null,
                    }
                } else {
                    items[q].copy()
                };
                out.push(value);
                q = q + 1;
            }
            proof {
                lemma_items_value(out, out.len() as int);
                lemma_items_value(*items, items.len() as int);
                assert forall|k: int| 0 <= k < out.len() implies elements_of(&out)[k]
                    == elements_of(items).update(i as int, slot)[k] by {
                    assert(out[k]@ == (if k == i {
                        slot
                    } else {
                        items[k]@
                    }));
                }
                assert(elements_of(&out) =~= elements_of(items).update(i as int, slot));
            }
            Ok(Json::Array(out))
        },
        Json::Str(_) => Ok(new),
        _ => Err(VideoError::msg(NOT_A_SLOT)),
    }
}

/// Writes `data` into `base` at the place that `paths` and `array_iter`
/// give (see `put_at`). On an error `base` is left as it was.
pub fn replace_json(base: &mut Json, paths: &VecDeque<String>, array_iter: Option<usize>, data: FileRefs) -> (r:
    Result<(), VideoError>)
    ensures
        match put_at(old(base)@, keys_of(paths@), index_view(array_iter), refs_value(data)) {
            Ok(v) => r is Ok && final(base)@ == v,
            Err(m) => r is Err && r->Err_0@ == m && final(base)@ == old(base)@,
        },
{
    let new = refs_json(&data);
    proof {
        assert(keys_of(paths@).subrange(0, paths@.len() as int) =~= keys_of(paths@));
    }
    match put_value(base, paths, 0, array_iter, new) {
        Ok(v) => {
            *base = v;
            Ok(())
        },
        Err(e) => Err(e),
    }
}

/// What scanning a document for a two-way (input and output) template
/// yields: the mode and the input and output places, or the message of the
/// configuration error. A complete batch pair wins over a single pair.
pub open spec fn scan_transform(doc: JsonValue) -> Result<(Seq<char>, Location, Location), Seq<char>> {
    match (
        find_token(doc, BATCH_INPUT@),
        find_token(doc, BATCH_OUTPUT@),
        find_token(doc, SINGLE_INPUT@),
        find_token(doc, SINGLE_OUTPUT@),
    ) {
        (Ok(bi), Ok(bo), Ok(si), Ok(so)) => if bi is Some && bo is Some {
            Ok((BATCH_MODE@, bi->Some_0, bo->Some_0))
        } else if bi is Some || bo is Some {
            Err(BATCH_PAIR_MISSING@)
        } else if si is Some && so is Some {
            Ok((SINGLE_MODE@, si->Some_0, so->Some_0))
        } else if si is Some || so is Some {
            Err(SINGLE_PAIR_MISSING@)
        } else {
            Err(NO_KEYWORDS@)
        },
        _ => Err(NOT_A_CONTAINER@),
    }
}

/// What scanning a document for an input-only template yields: the mode and
/// the input place, or the message of the configuration error.
pub open spec fn scan_extract(doc: JsonValue) -> Result<(Seq<char>, Location), Seq<char>> {
    match (find_token(doc, BATCH_INPUT@), find_token(doc, SINGLE_INPUT@)) {
        (Ok(bi), Ok(si)) => if bi is Some {
            Ok((BATCH_MODE@, bi->Some_0))
        } else if si is Some {
            Ok((SINGLE_MODE@, si->Some_0))
        } else {
            Err(NO_KEYWORDS@)
        },
        _ => Err(NOT_A_CONTAINER@),
    }
}

/// The mathematical content of a template.
pub struct TemplateView {
    pub mode: Seq<char>,
    pub input: Location,
    pub output: Location,
    pub source: JsonValue,
}

/// The payload that a template renders to: the source document with the
/// input references written at the input place, then the output references
/// at the output place.
pub open spec fn render(t: TemplateView, input: JsonValue, output: JsonValue) -> Result<JsonValue, Seq<char>> {
    match put_at(t.source, t.input.0, t.input.1, input) {
        Ok(d) => put_at(d, t.output.0, t.output.1, output),
        Err(m) => Err(m),
    }
}

/// A payload template: a user-supplied document and the places in it where
/// the file references of each call are written.
pub struct AdvancedInput {
    batch_single: String,
    in_path: VecDeque<String>,
    in_array_iter: Option<usize>,
    out_path: VecDeque<String>,
    out_array_iter: Option<usize>,
    source: Json,
}

impl View for AdvancedInput {
    type V = TemplateView;

    closed spec fn view(&self) -> TemplateView {
        TemplateView {
            mode: self.batch_single@,
            input: (keys_of(self.in_path@), index_view(self.in_array_iter)),
            output: (keys_of(self.out_path@), index_view(self.out_array_iter)),
            source: self.source@,
        }
    }
}

impl AdvancedInput {
    /// `batch` or `single`.
    pub fn option(&self) -> (r: &str)
        ensures
            r@ == self@.mode,
    {
        self.batch_single.as_str()
    }

    /// The keys leading to the input place.
    pub fn in_path(&self) -> (r: &VecDeque<String>)
        ensures
            keys_of(r@) == self@.input.0,
    {
        &self.in_path
    }

    /// The array position of the input place, if it is an array slot.
    pub fn in_array_iter(&self) -> (r: Option<usize>)
        ensures
            index_view(r) == self@.input.1,
    {
        self.in_array_iter
    }

    /// The keys leading to the output place.
    pub fn out_path(&self) -> (r: &VecDeque<String>)
        ensures
            keys_of(r@) == self@.output.0,
    {
        &self.out_path
    }

    /// The array position of the output place, if it is an array slot.
    pub fn out_array_iter(&self) -> (r: Option<usize>)
        ensures
            index_view(r) == self@.output.1,
    {
        self.out_array_iter
    }

    /// The document the template was built from.
    pub fn source(&self) -> (r: &Json)
        ensures
            r@ == self@.source,
    {
        &self.source
    }

    /// Builds an input-only template from a document: `$BATCH_INPUT` selects
    /// batch mode, else `$SINGLE_INPUT` selects single mode.
    pub fn create_extract(json: &Json) -> (r: Result<AdvancedInput, VideoError>)
        ensures
            match scan_extract(json@) {
                Ok((mode, input)) => r is Ok && r->Ok_0@ == (TemplateView {
                    mode,
                    input,
                    output: (Seq::empty(), None),
                    source: json@,
                }),
                Err(m) => r is Err && r->Err_0@ == m,
            },
    {
        let mut batch_in_path: VecDeque<String> = VecDeque::new();
        let mut single_in_path: VecDeque<String> = VecDeque::new();
        let (batch_in, batch_iter) = match search_json(json, &mut batch_in_path, BATCH_INPUT) {
            Ok(found) => found,
            Err(e) => {
                return Err(e);
            },
        };
        let (single_in, single_iter) = match search_json(json, &mut single_in_path, SINGLE_INPUT) {
            Ok(found) => found,
            Err(e) => {
                return Err(e);
            },
        };
        proof {
            assert(keys_of(batch_in_path@) =~= Seq::<Seq<char>>::empty() + keys_of(batch_in_path@));
            assert(keys_of(single_in_path@) =~= Seq::<Seq<char>>::empty() + keys_of(single_in_path@));
        }
        let no_path: VecDeque<String> = VecDeque::new();
        proof {
            assert(keys_of(no_path@) =~= Seq::<Seq<char>>::empty());
        }
        if batch_in {
            Ok(AdvancedInput {
                batch_single: String::from_str(BATCH_MODE),
                in_path: batch_in_path,
                in_array_iter: batch_iter,
                out_path: no_path,
                out_array_iter: None,
                source: json.copy(),
            })
        } else if single_in {
            Ok(AdvancedInput {
                batch_single: String::from_str(SINGLE_MODE),
                in_path: single_in_path,
                in_array_iter: single_iter,
                out_path: no_path,
                out_array_iter: None,
                source: json.copy(),
            })
        } else {
            Err(VideoError::msg(NO_KEYWORDS))
        }
    }

    /// Builds a two-way template from a document. A complete
    /// `$BATCH_INPUT`/`$BATCH_OUTPUT` pair selects batch mode, else a complete
    /// `$SINGLE_INPUT`/`$SINGLE_OUTPUT` pair selects single mode; half a pair,
    /// or no token at all, is a configuration error.
    pub fn create_transform(json: &Json) -> (r: Result<AdvancedInput, VideoError>)
        ensures
            match scan_transform(json@) {
                Ok((mode, input, output)) => r is Ok && r->Ok_0@ == (TemplateView {
                    mode,
                    input,
                    output,
                    source: json@,
                }),
                Err(m) => r is Err && r->Err_0@ == m,
            },
    {
        let mut batch_in_path: VecDeque<String> = VecDeque::new();
        let mut batch_out_path: VecDeque<String> = VecDeque::new();
        let mut single_in_path: VecDeque<String> = VecDeque::new();
        let mut single_out_path: VecDeque<String> = VecDeque::new();
        let (batch_in, batch_in_iter) = match search_json(json, &mut batch_in_path, BATCH_INPUT) {
            Ok(found) => found,
            Err(e) => {
                return Err(e);
            },
        };
        let (batch_out, batch_out_iter) = match search_json(json, &mut batch_out_path, BATCH_OUTPUT) {
            Ok(found) => found,
            Err(e) => {
                return Err(e);
            },
        };
        let (single_in, single_in_iter) = match search_json(json, &mut single_in_path, SINGLE_INPUT) {
            Ok(found) => found,
            Err(e) => {
                return Err(e);
            },
        };
        let (single_out, single_out_iter) = match search_json(json, &mut single_out_path, SINGLE_OUTPUT) {
            Ok(found) => found,
            Err(e) => {
                return Err(e);
            },
        };
        proof {
            assert(keys_of(batch_in_path@) =~= Seq::<Seq<char>>::empty() + keys_of(batch_in_path@));
            assert(keys_of(batch_out_path@) =~= Seq::<Seq<char>>::empty() + keys_of(batch_out_path@));
            assert(keys_of(single_in_path@) =~= Seq::<Seq<char>>::empty() + keys_of(single_in_path@));
            assert(keys_of(single_out_path@) =~= Seq::<Seq<char>>::empty() + keys_of(single_out_path@));
        }
        if batch_in && batch_out {
            Ok(AdvancedInput {
                batch_single: String::from_str(BATCH_MODE),
                in_path: batch_in_path,
                in_array_iter: batch_in_iter,
                out_path: batch_out_path,
                out_array_iter: batch_out_iter,
                source: json.copy(),
            })
        } else if batch_in || batch_out {
            Err(VideoError::msg(BATCH_PAIR_MISSING))
        } else if single_in && single_out {
            Ok(AdvancedInput {
                batch_single: String::from_str(SINGLE_MODE),
                in_path: single_in_path,
                in_array_iter: single_in_iter,
                out_path: single_out_path,
                out_array_iter: single_out_iter,
                source: json.copy(),
            })
        } else if single_in || single_out {
            Err(VideoError::msg(SINGLE_PAIR_MISSING))
        } else {
            Err(VideoError::msg(NO_KEYWORDS))
        }
    }

    /// The payload of an input-only call: a fresh copy of the source with
    /// `input` written at the input place. The template is not changed.
    pub fn replace_variables_extract(&self, input: FileRefs) -> (r: Result<Json, VideoError>)
        ensures
            match put_at(self@.source, self@.input.0, self@.input.1, refs_value(input)) {
                Ok(v) => r is Ok && r->Ok_0@ == v,
                Err(m) => r is Err && r->Err_0@ == m,
            },
    {
        let mut mutable = self.source.copy();
        match replace_json(&mut mutable, &self.in_path, self.in_array_iter, input) {
            Ok(()) => Ok(mutable),
            Err(e) => Err(e),
        }
    }

    /// The payload of a two-way call: a fresh copy of the source with `input`
    /// written at the input place and `output` at the output place. The
    /// template is not changed.
    pub fn replace_variables_transform(&self, input: FileRefs, output: FileRefs) -> (r: Result<
        Json,
        VideoError,
    >)
        ensures
            match render(self@, refs_value(input), refs_value(output)) {
                Ok(v) => r is Ok && r->Ok_0@ == v,
                Err(m) => r is Err && r->Err_0@ == m,
            },
    {
        let mut mutable = self.source.copy();
        match replace_json(&mut mutable, &self.in_path, self.in_array_iter, input) {
            Ok(()) => {},
            Err(e) => {
                return Err(e);
            },
        }
        match replace_json(&mut mutable, &self.out_path, self.out_array_iter, output) {
            Ok(()) => Ok(mutable),
            Err(e) => Err(e),
        }
    }
}

} // verus!
