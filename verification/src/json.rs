//! JSON documents as plain values, and association lists keyed by text.
use vstd::prelude::*;

verus! {

/// A JSON document held as plain values.
#[derive(Debug, PartialEq, Eq)]
pub enum Json {
    Null,
    Bool(bool),
    /// A number, held as its decimal text.
    Number(String),
    Str(String),
    Array(Vec<Json>),
    /// Members in document order.
    Object(Vec<(String, Json)>),
}

/// The mathematical model of a JSON document.
pub enum JsonV {
    Null,
    Bool(bool),
    Number(Seq<char>),
    Str(Seq<char>),
    Array(Seq<JsonV>),
    Object(Seq<(Seq<char>, JsonV)>),
}

pub open spec fn json_view(j: Json) -> JsonV
    decreases j,
{
    match j {
        Json::Null => JsonV::Null,
        Json::Bool(b) => JsonV::Bool(b),
        Json::Number(n) => JsonV::Number(n@),
        Json::Str(s) => JsonV::Str(s@),
        Json::Array(items) => JsonV::Array(
            Seq::new(
                items.len() as nat,
                |i: int|
                    if 0 <= i < items.len() {
                        json_view(items@[i])
                    } else {
                        JsonV::Null
                    },
            ),
        ),
        Json::Object(fields) => JsonV::Object(
            Seq::new(
                fields.len() as nat,
                |i: int|
                    if 0 <= i < fields.len() {
                        (fields@[i].0@, json_view(fields@[i].1))
                    } else {
                        (Seq::empty(), JsonV::Null)
                    },
            ),
        ),
    }
}

impl View for Json {
    type V = JsonV;

    open spec fn view(&self) -> JsonV {
        json_view(*self)
    }
}

/// The model of a list of documents.
pub open spec fn jsons_view(items: Seq<Json>) -> Seq<JsonV> {
    Seq::new(items.len() as nat, |i: int| json_view(items[i]))
}

/// The model of the members of an object.
pub open spec fn fields_view(fields: Seq<(String, Json)>) -> Seq<(Seq<char>, JsonV)> {
    Seq::new(fields.len() as nat, |i: int| (fields[i].0@, json_view(fields[i].1)))
}

/// The model of a list of text pairs.
pub open spec fn pairs_view(pairs: Seq<(String, String)>) -> Seq<(Seq<char>, Seq<char>)> {
    Seq::new(pairs.len() as nat, |i: int| (pairs[i].0@, pairs[i].1@))
}

pub proof fn lemma_array_view(items: Vec<Json>)
    ensures
        json_view(Json::Array(items)) == JsonV::Array(jsons_view(items@)),
{
    assert(jsons_view(items@) =~= match json_view(Json::Array(items)) {
        JsonV::Array(a) => a,
        _ => Seq::empty(),
    });
}

pub proof fn lemma_object_view(fields: Vec<(String, Json)>)
    ensures
        json_view(Json::Object(fields)) == JsonV::Object(fields_view(fields@)),
{
    assert(fields_view(fields@) =~= match json_view(Json::Object(fields)) {
        JsonV::Object(f) => f,
        _ => Seq::empty(),
    });
}

// ---------------------------------------------------------------------------
// Association lists: the first entry with a key is the one that counts.
// ---------------------------------------------------------------------------

/// `i` is the first position of `key` in `keys`.
pub open spec fn is_first(keys: Seq<Seq<char>>, key: Seq<char>, i: int) -> bool {
    &&& 0 <= i < keys.len()
    &&& keys[i] == key
    &&& forall|j: int| 0 <= j < i ==> keys[j] != key
}

/// The first position of `key` in `keys`, if it occurs.
pub open spec fn first_index(keys: Seq<Seq<char>>, key: Seq<char>) -> Option<int> {
    if exists|i: int| is_first(keys, key, i) {
        Some(choose|i: int| is_first(keys, key, i))
    } else {
        None
    }
}

pub open spec fn field_keys<V>(fields: Seq<(Seq<char>, V)>) -> Seq<Seq<char>> {
    fields.map_values(|p: (Seq<char>, V)| p.0)
}

pub open spec fn string_keys<T>(fields: Seq<(String, T)>) -> Seq<Seq<char>> {
    fields.map_values(|p: (String, T)| p.0@)
}

/// The value that `key` maps to in an association list.
pub open spec fn lookup<V>(fields: Seq<(Seq<char>, V)>, key: Seq<char>) -> Option<V> {
    match first_index(field_keys(fields), key) {
        Some(i) => Some(fields[i].1),
        None => None,
    }
}

/// Maps `key` to `v`: the entry of `key` is replaced where it stands, or a new
/// entry is added at the end.
pub open spec fn assoc_set<V>(fields: Seq<(Seq<char>, V)>, key: Seq<char>, v: V) -> Seq<
    (Seq<char>, V),
> {
    match first_index(field_keys(fields), key) {
        Some(i) => fields.update(i, (key, v)),
        None => fields.push((key, v)),
    }
}

/// No key occurs twice.
pub open spec fn distinct_keys(keys: Seq<Seq<char>>) -> bool {
    forall|i: int, j: int| 0 <= i < keys.len() && 0 <= j < keys.len() && i != j ==> keys[i] != keys[j]
}

pub proof fn lemma_first_unique(keys: Seq<Seq<char>>, key: Seq<char>, i: int)
    requires
        is_first(keys, key, i),
    ensures
        first_index(keys, key) == Some(i),
{
    let c = choose|c: int| is_first(keys, key, c);
    assert(is_first(keys, key, c));
    if c < i {
        assert(keys[c] != key);
    } else if c > i {
        assert(keys[i] != key);
    }
}

/// If `key` occurs at all, it has a first position, at or before any occurrence.
pub proof fn lemma_first_exists(keys: Seq<Seq<char>>, key: Seq<char>, j: int)
    requires
        0 <= j < keys.len(),
        keys[j] == key,
    ensures
        first_index(keys, key) matches Some(i) && i <= j && is_first(keys, key, i),
    decreases j,
{
    if forall|k: int| 0 <= k < j ==> keys[k] != key {
        assert(is_first(keys, key, j));
        lemma_first_unique(keys, key, j);
    } else {
        let k = choose|k: int| 0 <= k < j && keys[k] == key;
        lemma_first_exists(keys, key, k);
    }
}

/// `first_index` finds every key that occurs.
pub proof fn lemma_first_index_none(keys: Seq<Seq<char>>, key: Seq<char>)
    requires
        first_index(keys, key) is None,
    ensures
        forall|j: int| 0 <= j < keys.len() ==> keys[j] != key,
{
    assert forall|j: int| 0 <= j < keys.len() implies keys[j] != key by {
        if keys[j] == key {
            lemma_first_exists(keys, key, j);
        }
    }
}

pub proof fn lemma_first_index_some(keys: Seq<Seq<char>>, key: Seq<char>)
    requires
        first_index(keys, key) is Some,
    ensures
        is_first(keys, key, first_index(keys, key)->0),
{
}

/// Setting a key and then looking it up gives the value set; other keys keep
/// their values.
pub proof fn lemma_assoc_set<V>(fields: Seq<(Seq<char>, V)>, key: Seq<char>, v: V, other: Seq<char>)
    ensures
        lookup(assoc_set(fields, key, v), key) == Some(v),
        other != key ==> lookup(assoc_set(fields, key, v), other) == lookup(fields, other),
        field_keys(assoc_set(fields, key, v)).len() >= field_keys(fields).len(),
{
    let keys = field_keys(fields);
    let res = assoc_set(fields, key, v);
    let rkeys = field_keys(res);
    match first_index(keys, key) {
        Some(i) => {
            lemma_first_index_some(keys, key);
            assert(rkeys =~= keys);
            lemma_first_unique(rkeys, key, i);
            if other != key {
                match first_index(keys, other) {
                    Some(k) => {
                        lemma_first_index_some(keys, other);
                        lemma_first_unique(rkeys, other, k);
                    },
                    None => {},
                }
            }
        },
        None => {
            lemma_first_index_none(keys, key);
            assert(rkeys =~= keys.push(key));
            assert(is_first(rkeys, key, keys.len() as int));
            lemma_first_unique(rkeys, key, keys.len() as int);
            if other != key {
                match first_index(keys, other) {
                    Some(k) => {
                        lemma_first_index_some(keys, other);
                        assert(is_first(rkeys, other, k));
                        lemma_first_unique(rkeys, other, k);
                    },
                    None => {
                        lemma_first_index_none(keys, other);
                        if first_index(rkeys, other) is Some {
                            lemma_first_index_some(rkeys, other);
                        }
                    },
                }
            }
        },
    }
}

/// Setting a key keeps the keys distinct.
pub proof fn lemma_assoc_set_distinct<V>(fields: Seq<(Seq<char>, V)>, key: Seq<char>, v: V)
    requires
        distinct_keys(field_keys(fields)),
    ensures
        distinct_keys(field_keys(assoc_set(fields, key, v))),
{
    let keys = field_keys(fields);
    let rkeys = field_keys(assoc_set(fields, key, v));
    match first_index(keys, key) {
        Some(i) => {
            lemma_first_index_some(keys, key);
            assert(rkeys =~= keys);
        },
        None => {
            lemma_first_index_none(keys, key);
            assert(rkeys =~= keys.push(key));
        },
    }
}

/// In a list with distinct keys, every entry is what its key looks up.
pub proof fn lemma_lookup_distinct<V>(fields: Seq<(Seq<char>, V)>, i: int)
    requires
        distinct_keys(field_keys(fields)),
        0 <= i < fields.len(),
    ensures
        lookup(fields, fields[i].0) == Some(fields[i].1),
{
    let keys = field_keys(fields);
    assert(keys[i] == fields[i].0);
    assert(is_first(keys, fields[i].0, i));
    lemma_first_unique(keys, fields[i].0, i);
}

/// The position of the first entry whose key is `key`.
pub fn find_key<T>(fields: &Vec<(String, T)>, key: &String) -> (r: Option<usize>)
    ensures
        r matches Some(i) ==> first_index(string_keys(fields@), key@) == Some(i as int),
        r is None ==> first_index(string_keys(fields@), key@) is None,
{
    let ghost keys = string_keys(fields@);
    let mut i: usize = 0;
    while i < fields.len()
        invariant
            i <= fields.len(),
            keys == string_keys(fields@),
            forall|j: int| 0 <= j < i ==> keys[j] != key@,
        decreases fields.len() - i,
    {
        if fields[i].0 == *key {
            assert(is_first(keys, key@, i as int));
            proof {
                lemma_first_unique(keys, key@, i as int);
            }
            return Some(i);
        }
        i = i + 1;
    }
    proof {
        if first_index(keys, key@) is Some {
            lemma_first_index_some(keys, key@);
        }
    }
    None
}

/// The keys of an object's members, as the object's model sees them.
pub proof fn lemma_fields_keys(fields: Seq<(String, Json)>)
    ensures
        field_keys(fields_view(fields)) == string_keys(fields),
{
    assert(field_keys(fields_view(fields)) =~= string_keys(fields));
}

pub proof fn lemma_pairs_keys(pairs: Seq<(String, String)>)
    ensures
        field_keys(pairs_view(pairs)) == string_keys(pairs),
{
    assert(field_keys(pairs_view(pairs)) =~= string_keys(pairs));
}

/// Removes the first member named `key`, and returns where it stood and its value.
pub(crate) fn take_field(fields: &mut Vec<(String, Json)>, key: &String) -> (r: Option<(usize, Json)>)
    ensures
        match r {
            Some((i, v)) => {
                &&& first_index(string_keys(old(fields)@), key@) == Some(i as int)
                &&& i < old(fields)@.len()
                &&& final(fields)@ == old(fields)@.remove(i as int)
                &&& v == old(fields)@[i as int].1
            },
            None => {
                &&& first_index(string_keys(old(fields)@), key@) is None
                &&& final(fields)@ == old(fields)@
            },
        },
{
    match find_key(fields, key) {
        Some(i) => {
            proof {
                lemma_first_index_some(string_keys(fields@), key@);
            }
            let (_, v) = fields.remove(i);
            Some((i, v))
        },
        None => None,
    }
}

/// Puts a member back where one was taken, or at the end.
pub(crate) fn restore_field(fields: &mut Vec<(String, Json)>, slot: Option<usize>, key: String, value: Json)
    requires
        slot matches Some(i) ==> i <= old(fields)@.len(),
    ensures
        final(fields)@ == match slot {
            Some(i) => old(fields)@.insert(i as int, (key, value)),
            None => old(fields)@.push((key, value)),
        },
{
    match slot {
        Some(i) => fields.insert(i, (key, value)),
        None => fields.push((key, value)),
    }
}

/// Taking a member out and putting a new one back in its place sets it.
pub(crate) proof fn lemma_replace_field(
    fields: Seq<(String, Json)>,
    slot: Option<usize>,
    key: String,
    value: Json,
)
    requires
        match slot {
            Some(i) => first_index(string_keys(fields), key@) == Some(i as int),
            None => first_index(string_keys(fields), key@) is None,
        },
    ensures
        fields_view(
            match slot {
                Some(i) => fields.remove(i as int).insert(i as int, (key, value)),
                None => fields.push((key, value)),
            },
        ) == assoc_set(fields_view(fields), key@, value@),
{
    lemma_fields_keys(fields);
    match slot {
        Some(i) => {
            lemma_first_index_some(string_keys(fields), key@);
            assert(fields_view(fields.remove(i as int).insert(i as int, (key, value))) =~= fields_view(
                fields,
            ).update(i as int, (key@, value@)));
        },
        None => {
            assert(fields_view(fields.push((key, value))) =~= fields_view(fields).push(
                (key@, value@),
            ));
        },
    }
}

/// Maps `key` to `value` among the members of an object: the member named
/// `key` is replaced where it stands, or a new member is added at the end.
pub fn set_member(fields: &mut Vec<(String, Json)>, key: String, value: Json)
    ensures
        fields_view(final(fields)@) == assoc_set(fields_view(old(fields)@), key@, value@),
{
    let ghost f0 = fields@;
    let slot = match take_field(fields, &key) {
        Some((i, _)) => Some(i),
        None => None,
    };
    let ghost k = key;
    let ghost v = value;
    restore_field(fields, slot, key, value);
    proof {
        lemma_replace_field(f0, slot, k, v);
    }
}

} // verus!
