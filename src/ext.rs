//! Sections: named values attached to an error report for its template.
use vstd::prelude::*;

use crate::json::{lemma_same_refl, same, entries_map, find_last_key, lemma_absent_from_map, lemma_last_entry_in_map, Json};

verus! {

/// A store of sections: each key names one value, and setting a key again
/// replaces its value.
#[derive(Debug)]
pub struct Sections {
    entries: Vec<(String, Json)>,
}

impl View for Sections {
    type V = Map<Seq<char>, Json>;

    closed spec fn view(&self) -> Map<Seq<char>, Json> {
        entries_map(self.entries@)
    }
}

impl Sections {
    /// `c` holds the same entries as this store, in the same order.
    pub closed spec fn copied_to(&self, c: Sections) -> bool {
        &&& c.entries@.len() == self.entries@.len()
        &&& forall|i: int| 0 <= i < self.entries@.len() ==> #[trigger] c.entries@[i].0@ == self.entries@[i].0@
            && same(self.entries@[i].1, c.entries@[i].1)
    }

    /// A copy of this store.
    pub fn copy(&self) -> (r: Sections)
        ensures
            self.copied_to(r),
    {
        let mut out: Vec<(String, Json)> = Vec::new();
        let mut i: usize = 0;
        while i < self.entries.len()
            invariant
                i <= self.entries@.len(),
                out@.len() == i,
                forall|j: int| 0 <= j < i ==> #[trigger] out@[j].0@ == self.entries@[j].0@
                    && same(self.entries@[j].1, out@[j].1),
            decreases self.entries@.len() - i,
        {
            out.push((self.entries[i].0.clone(), self.entries[i].1.deep_copy()));
            i = i + 1;
        }
        Sections { entries: out }
    }

    /// A store with no sections.
    pub fn new() -> (r: Sections)
        ensures
            r@ == Map::<Seq<char>, Json>::empty(),
    {
        let r = Sections { entries: Vec::new() };
        assert(r@ == Map::<Seq<char>, Json>::empty());
        r
    }

    /// Sets section `key` to `value`.
    pub fn attach(&mut self, key: String, value: Json)
        ensures
            final(self)@ == old(self)@.insert(key@, value),
    {
        let ghost before = self.entries@;
        self.entries.push((key, value));
        assert(self.entries@.drop_last() =~= before);
    }

    /// The value of section `key`, if it is set.
    pub fn get(&self, key: &str) -> (r: Option<&Json>)
        ensures
            self@.contains_key(key@) ==> r == Some(&self@[key@]),
            !self@.contains_key(key@) ==> r is None,
    {
        match find_last_key(&self.entries, key) {
            Some(i) => {
                proof {
                    lemma_last_entry_in_map(self.entries@, i as int);
                }
                Some(&self.entries[i].1)
            },
            None => {
                proof {
                    lemma_absent_from_map(self.entries@, key@);
                }
                None
            },
        }
    }

    /// The text of section `key`, if it is set to a string.
    pub fn get_str(&self, key: &str) -> (r: Option<&str>)
        ensures
            match self@.get(key@) {
                Some(Json::String(s)) => r is Some && r->Some_0@ == s@,
                _ => r is None,
            },
    {
        match self.get(key) {
            Some(Json::String(s)) => Some(s.as_str()),
            _ => None,
        }
    }

    /// A copy of the sections as the entries of a template's data, with
    /// `error` and `sources` set over them.
    pub fn payload(&self, error: String, sources: Vec<String>) -> (r: Json)
        ensures
            is_payload(r, self@, error@, sources@),
    {
        let c = self.copy();
        proof {
            lemma_copied_map(self.entries@, c.entries@);
        }
        let ghost cv = c@;
        let r = c.into_payload(error, sources);
        proof {
            let m = entries_map(r->Object_0@);
            assert forall|k: Seq<char>| k != "error"@ && k != "sources"@ && #[trigger] self@.contains_key(k)
                implies m.contains_key(k) && same(self@[k], m[k]) by {
                assert(cv.contains_key(k));
                assert(m[k] == cv[k]);
            }
        }
        r
    }

    /// The sections as the entries of a template's data, with `error` and
    /// `sources` set over them.
    pub fn into_payload(self, error: String, sources: Vec<String>) -> (r: Json)
        ensures
            is_payload(r, self@, error@, sources@),
            r is Object,
            forall|k: Seq<char>| k != "error"@ && k != "sources"@ && #[trigger] self@.contains_key(k)
                ==> entries_map(r->Object_0@)[k] == self@[k],
    {
        let ghost sections = self@;
        let mut entries = self.entries;
        let mut items: Vec<Json> = Vec::new();
        let mut rest = sources;
        let ghost all = rest@;
        let n = rest.len();
        let mut i: usize = 0;
        while rest.len() > 0
            invariant
                rest@ == all.skip(i as int),
                rest@.len() == all.len() - i,
                all.len() == n,
                items@.len() == i,
                forall|j: int| 0 <= j < i ==> #[trigger] items@[j] is String
                    && items@[j]->String_0@ == all[j]@,
            decreases rest@.len(),
        {
            let s = rest.remove(0);
            assert(s == all[i as int]);
            items.push(Json::String(s));
            assert(all.skip(i as int).drop_first() =~= all.skip(i + 1));
            i = i + 1;
        }
        let ghost base = entries@;
        entries.push((String::from_str("error"), Json::String(error)));
        let ghost mid = entries@;
        assert(mid.drop_last() =~= base);
        entries.push((String::from_str("sources"), Json::Array(items)));
        assert(entries@.drop_last() =~= mid);
        proof {
            reveal_strlit("error");
            reveal_strlit("sources");
            assert("error"@.len() != "sources"@.len());
            assert(entries_map(base) == sections);
            let m = entries_map(entries@);
            assert(entries_map(mid) == entries_map(mid.drop_last()).insert(mid.last().0@, mid.last().1));
            assert(entries_map(mid) == sections.insert("error"@, mid.last().1));
            assert(m == entries_map(entries@.drop_last()).insert(entries@.last().0@, entries@.last().1));
            assert(m == sections.insert("error"@, mid.last().1).insert("sources"@, entries@.last().1));
            assert(m["sources"@] == Json::Array(items));
            assert(m["error"@] == Json::String(error));
            assert forall|k: Seq<char>| sections.contains_key(k) implies same(sections[k], sections[k]) by {
                lemma_same_refl(sections[k]);
            }
        }
        Json::Object(entries)
    }
}

/// Attaching named values to what renders an error, and reading them back.
pub trait Section: Sized {
    /// What attaching a section gives back.
    type Output;

    /// The sections that `self` carries, where it carries any.
    spec fn sections_of(&self) -> Option<Map<Seq<char>, Json>>;

    /// `out` is `self` with section `key` set to `value`.
    spec fn attached(&self, out: &Self::Output, key: Seq<char>, value: Json) -> bool;

    /// Sets section `key` to `value`.
    fn section(self, key: &str, value: Json) -> (r: Self::Output)
        ensures
            self.attached(&r, key@, value);

    /// The value of section `key`, if it is set.
    fn get_section(&self, key: &str) -> (r: Option<&Json>)
        ensures
            match self.sections_of() {
                Some(m) => if m.contains_key(key@) { r == Some(&m[key@]) } else { r is None },
                None => r is None,
            };

    /// The text of section `key`, if it is set to a string.
    fn get_section_str(&self, key: &str) -> (r: Option<&str>)
        ensures
            match self.sections_of() {
                Some(m) => match m.get(key@) {
                    Some(Json::String(s)) => r is Some && r->Some_0@ == s@,
                    _ => r is None,
                },
                None => r is None,
            };
}

/// Two entry lists with the same keys in turn and the same values map the
/// same keys to the same values.
proof fn lemma_copied_map(a: Seq<(String, Json)>, b: Seq<(String, Json)>)
    requires
        a.len() == b.len(),
        forall|i: int| 0 <= i < a.len() ==> #[trigger] b[i].0@ == a[i].0@ && same(a[i].1, b[i].1),
    ensures
        forall|k: Seq<char>| #[trigger] entries_map(a).contains_key(k) <==> entries_map(b).contains_key(k),
        forall|k: Seq<char>| #[trigger] entries_map(a).contains_key(k) ==> same(entries_map(a)[k], entries_map(b)[k]),
    decreases a.len(),
{
    if a.len() > 0 {
        let da = a.drop_last();
        let db = b.drop_last();
        assert forall|i: int| 0 <= i < da.len() implies #[trigger] db[i].0@ == da[i].0@ && same(da[i].1, db[i].1) by {
            assert(da[i] == a[i]);
            assert(db[i] == b[i]);
        }
        lemma_copied_map(da, db);
        let ka = a.last().0@;
        assert(b.last().0@ == ka);
        assert(same(a.last().1, b.last().1));
        assert(entries_map(a) == entries_map(da).insert(ka, a.last().1));
        assert(entries_map(b) == entries_map(db).insert(ka, b.last().1));
        assert forall|k: Seq<char>| #[trigger] entries_map(a).contains_key(k) <==> entries_map(b).contains_key(k) by {
            if k != ka {
                assert(entries_map(da).contains_key(k) <==> entries_map(db).contains_key(k));
            }
        }
        assert forall|k: Seq<char>| #[trigger] entries_map(a).contains_key(k) implies same(entries_map(a)[k], entries_map(b)[k]) by {
            if k != ka {
                assert(entries_map(da).contains_key(k));
                assert(same(entries_map(da)[k], entries_map(db)[k]));
            }
        }
    }
}

/// `j` is a string with the text `t`.
pub open spec fn is_text(j: Json, t: Seq<char>) -> bool {
    j is String && j->String_0@ == t
}

/// `r` is the data that a template sees for an error with text `error` and
/// causes `sources`, beside `sections`: every section but those named `error`
/// and `sources`, then those two.
pub open spec fn is_payload(r: Json, sections: Map<Seq<char>, Json>, error: Seq<char>, sources: Seq<String>) -> bool {
    match r {
        Json::Object(e) => {
            let m = entries_map(e@);
            &&& m.contains_key("error"@) && is_text(m["error"@], error)
            &&& m.contains_key("sources"@)
            &&& m["sources"@] is Array
            &&& m["sources"@]->Array_0@.len() == sources.len()
            &&& forall|j: int| 0 <= j < sources.len()
                ==> is_text(#[trigger] m["sources"@]->Array_0@[j], sources[j]@)
            &&& forall|k: Seq<char>| k != "error"@ && k != "sources"@
                ==> (#[trigger] m.contains_key(k) <==> sections.contains_key(k))
                && (sections.contains_key(k) ==> same(sections[k], m[k]))
        },
        _ => false,
    }
}

/// After section `key` is set to `value`, looking `key` up gives `value`,
/// and every other key gives what it gave before.
pub proof fn lemma_attach_then_lookup(before: Sections, after: Sections, key: Seq<char>, value: Json)
    requires
        after@ == before@.insert(key, value),
    ensures
        after@.contains_key(key),
        after@[key] == value,
        forall|k: Seq<char>| k != key ==> (#[trigger] after@.contains_key(k) <==> before@.contains_key(k))
            && (before@.contains_key(k) ==> after@[k] == before@[k]),
{
}

/// Once section `key` is set to a value that is not a string, reading it as
/// text finds nothing, while reading it as a value finds that value.
pub proof fn lemma_text_lookup_of_non_string(before: Sections, after: Sections, key: Seq<char>, value: Json)
    requires
        after@ == before@.insert(key, value),
        !(value is String),
    ensures
        after@.get(key) == Some(value),
        match after@.get(key) {
            Some(Json::String(_)) => false,
            _ => true,
        },
{
}

} // verus!
