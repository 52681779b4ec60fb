//! A JSON-like value, the data that templates and helpers work on.
use vstd::prelude::*;

verus! {

#[verifier::external_type_specification]
#[verifier::external_body]
pub struct ExNumber(serde_json::Number);

/// Relies on the derived `Clone` of `serde_json::Number`: the copy is the same number.
pub assume_specification[ <serde_json::Number as Clone>::clone ](n: &serde_json::Number) -> (r: serde_json::Number)
    ensures
        r == *n,
;

/// A number: the unsigned integers that the helpers read, and any other as it came.
#[derive(Debug)]
pub enum JsonNumber {
    Unsigned(u64),
    Other(serde_json::Number),
}

/// A tagged JSON-like value. An object is a list of entries; where a key
/// repeats, the later entry stands.
#[derive(Debug)]
pub enum Json {
    Null,
    Bool(bool),
    Number(JsonNumber),
    String(String),
    Array(Vec<Json>),
    Object(Vec<(String, Json)>),
}

/// The mapping that a list of entries stands for: a later entry overrides an
/// earlier one with the same key.
pub open spec fn entries_map(entries: Seq<(String, Json)>) -> Map<Seq<char>, Json>
    decreases entries.len(),
{
    if entries.len() == 0 {
        Map::empty()
    } else {
        entries_map(entries.drop_last()).insert(entries.last().0@, entries.last().1)
    }
}

/// The position of the last entry for `key`, if there is one.
pub fn find_last_key(entries: &Vec<(String, Json)>, key: &str) -> (r: Option<usize>)
    ensures
        match r {
            Some(i) => i < entries@.len() && entries@[i as int].0@ == key@
                && forall|j: int| i < j < entries@.len() ==> entries@[j].0@ != key@,
            None => forall|j: int| 0 <= j < entries@.len() ==> entries@[j].0@ != key@,
        },
{
    let mut i: usize = entries.len();
    while i > 0
        invariant
            i <= entries@.len(),
            forall|j: int| i <= j < entries@.len() ==> entries@[j].0@ != key@,
        decreases i,
    {
        if str_eq(entries[i - 1].0.as_str(), key) {
            return Some(i - 1);
        }
        i = i - 1;
    }
    None
}

/// Character-wise equality of two strings.
pub fn str_eq(a: &str, b: &str) -> (r: bool)
    ensures
        r == (a@ == b@),
{
    let n = a.unicode_len();
    if n != b.unicode_len() {
        return false;
    }
    let mut i: usize = 0;
    while i < n
        invariant
            n == a@.len() == b@.len(),
            i <= n,
            forall|j: int| 0 <= j < i ==> a@[j] == b@[j],
        decreases n - i,
    {
        if a.get_char(i) != b.get_char(i) {
            return false;
        }
        i = i + 1;
    }
    assert(a@ =~= b@);
    true
}

/// The last entry for a key gives its value in the mapping.
pub proof fn lemma_last_entry_in_map(entries: Seq<(String, Json)>, i: int)
    requires
        0 <= i < entries.len(),
        forall|j: int| i < j < entries.len() ==> entries[j].0@ != entries[i].0@,
    ensures
        entries_map(entries).contains_key(entries[i].0@),
        entries_map(entries)[entries[i].0@] == entries[i].1,
    decreases entries.len(),
{
    if i < entries.len() - 1 {
        let d = entries.drop_last();
        assert(entries.last().0@ != entries[i].0@);
        assert(d[i] == entries[i]);
        assert forall|j: int| i < j < d.len() implies d[j].0@ != d[i].0@ by {
            assert(d[j] == entries[j]);
        }
        lemma_last_entry_in_map(d, i);
    }
}

/// A key that no entry has is not in the mapping.
pub proof fn lemma_absent_from_map(entries: Seq<(String, Json)>, key: Seq<char>)
    requires
        forall|j: int| 0 <= j < entries.len() ==> entries[j].0@ != key,
    ensures
        !entries_map(entries).contains_key(key),
    decreases entries.len(),
{
    if entries.len() > 0 {
        let d = entries.drop_last();
        assert forall|j: int| 0 <= j < d.len() implies d[j].0@ != key by {
            assert(d[j] == entries[j]);
        }
        lemma_absent_from_map(d, key);
        assert(entries.last() == entries[entries.len() - 1]);
    }
}

/// `a` and `b` are the same value: equal texts, numbers and flags, at every depth.
pub open spec fn same(a: Json, b: Json) -> bool
    decreases a,
{
    match (a, b) {
        (Json::Null, Json::Null) => true,
        (Json::Bool(x), Json::Bool(y)) => x == y,
        (Json::Number(x), Json::Number(y)) => x == y,
        (Json::String(x), Json::String(y)) => x@ == y@,
        (Json::Array(x), Json::Array(y)) => x@.len() == y@.len() && forall|i: int|
            0 <= i < x@.len() ==> same(#[trigger] x@[i], y@[i]),
        (Json::Object(x), Json::Object(y)) => x@.len() == y@.len() && forall|i: int|
            0 <= i < x@.len() ==> #[trigger] x@[i].0@ == y@[i].0@ && same(x@[i].1, y@[i].1),
        _ => false,
    }
}

/// Every value is the same as itself.
pub proof fn lemma_same_refl(a: Json)
    ensures
        same(a, a),
    decreases a,
{
    match a {
        Json::Array(v) => {
            assert forall|i: int| 0 <= i < v@.len() implies same(#[trigger] v@[i], v@[i]) by {
                vstd::std_specs::vec::axiom_vec_index_decreases(v, i);
                assert(decreases_to!(a => a->Array_0));
                lemma_same_refl(v@[i]);
            }
            assert(same(Json::Array(v), Json::Array(v)));
        },
        Json::Object(e) => {
            assert forall|i: int| 0 <= i < e@.len() implies same((#[trigger] e@[i]).1, e@[i].1) by {
                vstd::std_specs::vec::axiom_vec_index_decreases(e, i);
                assert(decreases_to!(a => a->Object_0));
                assert(decreases_to!(e@[i] => e@[i].1));
                lemma_same_refl(e@[i].1);
            }
            assert(same(Json::Object(e), Json::Object(e)));
        },
        Json::Bool(b) => {
            assert(same(Json::Bool(b), Json::Bool(b)));
        },
        _ => {},
    }
}

impl Json {
    /// A copy of this value.
    pub fn deep_copy(&self) -> (r: Json)
        ensures
            same(*self, r),
        decreases self,
    {
        match self {
            Json::Null => Json::Null,
            Json::Bool(b) => Json::Bool(*b),
            Json::Number(JsonNumber::Unsigned(u)) => Json::Number(JsonNumber::Unsigned(*u)),
            Json::Number(JsonNumber::Other(n)) => Json::Number(JsonNumber::Other(n.clone())),
            Json::String(s) => Json::String(s.clone()),
            Json::Array(items) => {
                let mut out: Vec<Json> = Vec::new();
                let mut i: usize = 0;
                while i < items.len()
                    invariant
                        *self == Json::Array(*items),
                        i <= items@.len(),
                        out@.len() == i,
                        forall|j: int| 0 <= j < i ==> same(#[trigger] items@[j], out@[j]),
                    decreases items@.len() - i,
                {
                    proof {
                        vstd::std_specs::vec::axiom_vec_index_decreases(*items, i as int);
                        assert(*self == Json::Array(*items));
                        assert(decreases_to!(*self => self->Array_0));
                    }
                    out.push(items[i].deep_copy());
                    i = i + 1;
                }
                Json::Array(out)
            },
            Json::Object(entries) => {
                let mut out: Vec<(String, Json)> = Vec::new();
                let mut i: usize = 0;
                while i < entries.len()
                    invariant
                        *self == Json::Object(*entries),
                        i <= entries@.len(),
                        out@.len() == i,
                        forall|j: int| 0 <= j < i ==> #[trigger] entries@[j].0@ == out@[j].0@
                            && same(entries@[j].1, out@[j].1),
                    decreases entries@.len() - i,
                {
                    proof {
                        vstd::std_specs::vec::axiom_vec_index_decreases(*entries, i as int);
                        assert(*self == Json::Object(*entries));
                        assert(decreases_to!(*self => self->Object_0));
                        assert(decreases_to!(entries@[i as int] => entries@[i as int].1));
                    }
                    out.push((entries[i].0.clone(), entries[i].1.deep_copy()));
                    i = i + 1;
                }
                Json::Object(out)
            },
        }
    }
}

} // verus!
