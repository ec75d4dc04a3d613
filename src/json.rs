use vstd::prelude::*;

verus! {

/// A JSON document as the payload templates handle it. A number is kept as
/// its literal text and carried through unchanged; object members keep the
/// order in which they were given.
pub enum Json {
    Null,
    Bool(bool),
    Number(String),
    Str(String),
    Array(Vec<Json>),
    Object(Vec<(String, Json)>),
}

/// The mathematical value of a JSON document.
pub enum JsonValue {
    Null,
    Bool(bool),
    Number(Seq<char>),
    Str(Seq<char>),
    Array(Seq<JsonValue>),
    Object(Seq<(Seq<char>, JsonValue)>),
}

impl Json {
    pub open spec fn value(self) -> JsonValue
        decreases self, 0int,
    {
        match self {
            Json::Null => JsonValue::Null,
            Json::Bool(b) => JsonValue::Bool(b),
            Json::Number(n) => JsonValue::Number(n@),
            Json::Str(s) => JsonValue::Str(s@),
            Json::Array(items) => JsonValue::Array(items_value(items, items.len() as int)),
            Json::Object(entries) => JsonValue::Object(entries_value(entries, entries.len() as int)),
        }
    }
}

/// The values of the first `n` items.
pub open spec fn items_value(items: Vec<Json>, n: int) -> Seq<JsonValue>
    decreases items, n,
{
    if n <= 0 || n > items.len() {
        Seq::empty()
    } else {
        items_value(items, n - 1).push(items[n - 1].value())
    }
}

/// The values of the first `n` members.
pub open spec fn entries_value(entries: Vec<(String, Json)>, n: int) -> Seq<(Seq<char>, JsonValue)>
    decreases entries, n,
{
    if n <= 0 || n > entries.len() {
        Seq::empty()
    } else {
        entries_value(entries, n - 1).push((entries[n - 1].0@, entries[n - 1].1.value()))
    }
}

impl View for Json {
    type V = JsonValue;

    open spec fn view(&self) -> JsonValue {
        self.value()
    }
}


pub proof fn lemma_items_value(items: Vec<Json>, n: int)
    requires
        0 <= n <= items.len(),
    ensures
        items_value(items, n).len() == n,
        forall|i: int| 0 <= i < n ==> #[trigger] items_value(items, n)[i] == items[i].value(),
    decreases n,
{
    if n > 0 {
        lemma_items_value(items, n - 1);
    }
}

pub proof fn lemma_entries_value(entries: Vec<(String, Json)>, n: int)
    requires
        0 <= n <= entries.len(),
    ensures
        entries_value(entries, n).len() == n,
        forall|i: int|
            0 <= i < n ==> #[trigger] entries_value(entries, n)[i] == (
                entries[i].0@,
                entries[i].1.value(),
            ),
    decreases n,
{
    if n > 0 {
        lemma_entries_value(entries, n - 1);
    }
}

/// The members of an object, as values.
pub open spec fn members_of(entries: &Vec<(String, Json)>) -> Seq<(Seq<char>, JsonValue)> {
    entries_value(*entries, entries.len() as int)
}

/// The items of an array, as values.
pub open spec fn elements_of(items: &Vec<Json>) -> Seq<JsonValue> {
    items_value(*items, items.len() as int)
}

impl Json {
    /// A deep copy of this document.
    pub fn copy(&self) -> (r: Json)
        ensures
            r@ == self@,
        decreases self,
    {
        match self {
            Json::Null => Json::Null,
            Json::Bool(b) => Json::Bool(*b),
            Json::Number(n) => Json::Number(n.clone()),
            Json::Str(s) => Json::Str(s.clone()),
            Json::Array(items) => {
                let mut out: Vec<Json> = Vec::new();
                let mut i: usize = 0;
                while i < items.len()
                    invariant
                        *self == Json::Array(*items),
                        i <= items.len(),
                        out.len() == i,
                        forall|k: int| 0 <= k < i ==> #[trigger] out[k]@ == items[k]@,
                    decreases items.len() - i,
                {
                    proof {
                        assert(decreases_to!(*self => self->Array_0));
                        assert(decreases_to!(*items => items@));
                        assert(decreases_to!(items@ => items@[i as int]));
                    }
                    let c = items[i].copy();
                    out.push(c);
                    i = i + 1;
                }
                proof {
                    lemma_items_value(out, out.len() as int);
                    lemma_items_value(*items, items.len() as int);
                    assert forall|k: int| 0 <= k < out.len() implies elements_of(&out)[k]
                        == elements_of(items)[k] by {
                        assert(out[k]@ == items[k]@);
                    }
                    assert(elements_of(&out) =~= elements_of(items));
                }
                Json::Array(out)
            },
            Json::Object(entries) => {
                let mut out: Vec<(String, Json)> = Vec::new();
                let mut i: usize = 0;
                while i < entries.len()
                    invariant
                        *self == Json::Object(*entries),
                        i <= entries.len(),
                        out.len() == i,
                        forall|k: int|
                            0 <= k < i ==> (#[trigger] out[k]).0@ == entries[k].0@ && out[k].1@
                                == entries[k].1@,
                    decreases entries.len() - i,
                {
                    proof {
                        assert(decreases_to!(*self => self->Object_0));
                        assert(decreases_to!(*entries => entries@));
                        assert(decreases_to!(entries@ => entries@[i as int]));
                        assert(decreases_to!(entries@[i as int] => entries@[i as int].1));
                    }
                    let c = entries[i].1.copy();
                    out.push((entries[i].0.clone(), c));
                    i = i + 1;
                }
                proof {
                    lemma_entries_value(out, out.len() as int);
                    lemma_entries_value(*entries, entries.len() as int);
                    assert forall|k: int| 0 <= k < out.len() implies members_of(&out)[k]
                        == members_of(entries)[k] by {
                        assert(out[k].1@ == entries[k].1@);
                    }
                    assert(members_of(&out) =~= members_of(entries));
                }
                Json::Object(out)
            },
        }
    }
}

} // verus!

