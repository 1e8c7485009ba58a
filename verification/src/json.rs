//! A plain model of the JSON documents exchanged with the backing store.
//!
//! The store's responses are dynamically typed; the library reads them
//! through this enum. An object is an ordered list of key/value pairs and a
//! lookup takes the first pair whose key matches, so the model also gives a
//! meaning to responses with repeated keys. Numbers are carried as their
//! decimal text: the library never computes with them, it only passes them
//! through as diagnostic payloads.

use vstd::prelude::*;

verus! {

#[derive(Debug, PartialEq)]
pub enum Json {
    Null,
    Bool(bool),
    /// A JSON number, carried as its decimal text.
    Num(String),
    Str(String),
    Arr(Vec<Json>),
    Obj(Vec<(String, Json)>),
}

/// One row of a statement result: a mapping from field name to value.
pub type Row = Vec<(String, Json)>;

/// The value under `key` in an object's field list: the first pair whose key
/// matches, if any.
pub open spec fn obj_get(fields: Seq<(String, Json)>, key: Seq<char>) -> Option<Json>
    decreases fields.len(),
{
    if fields.len() == 0 {
        None
    } else if fields[0].0@ == key {
        Some(fields[0].1)
    } else {
        obj_get(fields.drop_first(), key)
    }
}

/// The field list with the first pair under `key` removed, if any.
pub open spec fn obj_without(fields: Seq<(String, Json)>, key: Seq<char>) -> Seq<(String, Json)>
    decreases fields.len(),
{
    if fields.len() == 0 {
        fields
    } else if fields[0].0@ == key {
        fields.drop_first()
    } else {
        seq![fields[0]] + obj_without(fields.drop_first(), key)
    }
}

/// Whether a value is the canonical success sentinel of the backing store.
pub open spec fn is_ok_json(j: Json) -> bool {
    j matches Json::Str(s) && s@ == "OK"@
}

/// Character-wise string comparison, pinned to view equality.
pub fn str_eq_str(a: &str, b: &str) -> (r: bool)
    ensures
        r == (a@ == b@),
{
    let na = a.unicode_len();
    let nb = b.unicode_len();
    if na != nb {
        return false;
    }
    let mut i: usize = 0;
    while i < na
        invariant
            na == a@.len(),
            na == b@.len(),
            0 <= i <= na,
            forall|j: int| 0 <= j < i ==> a@[j] == b@[j],
        decreases na - i,
    {
        if a.get_char(i) != b.get_char(i) {
            return false;
        }
        i += 1;
    }
    proof {
        assert(a@ =~= b@);
    }
    true
}

/// Whether a value is the success sentinel, decided executably.
pub fn json_is_ok(j: &Json) -> (r: bool)
    ensures
        r == is_ok_json(*j),
{
    match j {
        Json::Str(s) => str_eq_str(s.as_str(), "OK"),
        _ => false,
    }
}

/// The position of the first pair under `key`, tied to `obj_get`.
pub fn key_index(fields: &Vec<(String, Json)>, key: &str) -> (r: Option<usize>)
    ensures
        match r {
            Some(i) => i < fields@.len() && fields@[i as int].0@ == key@ && (forall|j: int|
                0 <= j < i ==> fields@[j].0@ != key@) && obj_get(fields@, key@) == Some(
                fields@[i as int].1,
            ),
            None => obj_get(fields@, key@) is None,
        },
{
    let n = fields.len();
    let mut i: usize = 0;
    proof {
        assert(fields@.skip(0) =~= fields@);
    }
    while i < n
        invariant
            n == fields@.len(),
            0 <= i <= n,
            forall|j: int| 0 <= j < i ==> fields@[j].0@ != key@,
            obj_get(fields@, key@) == obj_get(fields@.skip(i as int), key@),
        decreases n - i,
    {
        proof {
            assert(fields@.skip(i as int)[0] == fields@[i as int]);
        }
        if str_eq_str(fields[i].0.as_str(), key) {
            return Some(i);
        }
        proof {
            assert(fields@.skip(i as int).drop_first() =~= fields@.skip(i as int + 1));
        }
        i += 1;
    }
    proof {
        assert(fields@.skip(n as int) =~= Seq::<(String, Json)>::empty());
    }
    None
}

/// When the first match sits at `i`, removal and lookup are the positional
/// operations at `i`.
pub proof fn lemma_obj_first_match(fields: Seq<(String, Json)>, key: Seq<char>, i: int)
    requires
        0 <= i < fields.len(),
        fields[i].0@ == key,
        forall|j: int| 0 <= j < i ==> fields[j].0@ != key,
    ensures
        obj_without(fields, key) == fields.remove(i),
        obj_get(fields, key) == Some(fields[i].1),
    decreases i,
{
    if i == 0 {
        assert(fields.drop_first() =~= fields.remove(0));
    } else {
        lemma_obj_first_match(fields.drop_first(), key, i - 1);
        assert(seq![fields[0]] + fields.drop_first().remove(i - 1) =~= fields.remove(i));
    }
}

/// A key that is absent leaves the field list unchanged on removal.
pub proof fn lemma_obj_without_absent(fields: Seq<(String, Json)>, key: Seq<char>)
    requires
        obj_get(fields, key) is None,
    ensures
        obj_without(fields, key) == fields,
    decreases fields.len(),
{
    if fields.len() == 0 {
        assert(obj_without(fields, key) =~= fields);
    } else {
        lemma_obj_without_absent(fields.drop_first(), key);
        assert(seq![fields[0]] + fields.drop_first() =~= fields);
    }
}

/// Removing one key does not change the lookup of a different key.
pub proof fn lemma_obj_get_after_without(
    fields: Seq<(String, Json)>,
    k1: Seq<char>,
    k2: Seq<char>,
)
    requires
        k1 != k2,
    ensures
        obj_get(obj_without(fields, k1), k2) == obj_get(fields, k2),
    decreases fields.len(),
{
    if fields.len() == 0 {
    } else if fields[0].0@ == k1 {
    } else {
        lemma_obj_get_after_without(fields.drop_first(), k1, k2);
        let rest = obj_without(fields.drop_first(), k1);
        assert((seq![fields[0]] + rest)[0] == fields[0]);
        if fields[0].0@ != k2 {
            assert((seq![fields[0]] + rest).drop_first() =~= rest);
        }
    }
}

/// Removes the first pair under `key` and hands its value out, exactly as
/// `obj_get` and `obj_without` describe.
pub fn obj_remove(fields: &mut Vec<(String, Json)>, key: &str) -> (r: Option<Json>)
    ensures
        final(fields)@ == obj_without(old(fields)@, key@),
        r == obj_get(old(fields)@, key@),
{
    match key_index(fields, key) {
        Some(i) => {
            proof {
                lemma_obj_first_match(fields@, key@, i as int);
            }
            let pair = fields.remove(i);
            Some(pair.1)
        }
        None => {
            proof {
                lemma_obj_without_absent(fields@, key@);
            }
            None
        }
    }
}

} // verus!
