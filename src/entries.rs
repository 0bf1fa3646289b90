//! Keyed entries: the dependencies and exposed mappings of an environment, and the text form of a mapping.
use crate::task::push_char;
use vstd::prelude::*;

verus! {

/// A key and the value stored under it: a dependency (package name and its spec) or an
/// exposed mapping (exposed name and the executable it runs).
#[derive(Debug, Clone)]
pub struct Entry {
    pub key: String,
    pub value: String,
}

impl View for Entry {
    type V = (Seq<char>, Seq<char>);

    open spec fn view(&self) -> (Seq<char>, Seq<char>) {
        (self.key@, self.value@)
    }
}

pub open spec fn entries_view(v: Seq<Entry>) -> Seq<(Seq<char>, Seq<char>)> {
    v.map_values(|e: Entry| e@)
}

/// `i` is the first position of `s` whose key is `k`.
pub open spec fn is_first_key(s: Seq<(Seq<char>, Seq<char>)>, k: Seq<char>, i: int) -> bool {
    &&& 0 <= i < s.len()
    &&& s[i].0 == k
    &&& forall|j: int| 0 <= j < i ==> s[j].0 != k
}

/// Stores `v` under `k`: the entry that holds `k` is overwritten in place, else one is
/// appended.
pub open spec fn upsert(s: Seq<(Seq<char>, Seq<char>)>, k: Seq<char>, v: Seq<char>) -> Seq<
    (Seq<char>, Seq<char>),
> {
    if exists|i: int| is_first_key(s, k, i) {
        s.update(choose|i: int| is_first_key(s, k, i), (k, v))
    } else {
        s.push((k, v))
    }
}

/// Stores each entry of `es` in turn.
pub open spec fn upsert_all(s: Seq<(Seq<char>, Seq<char>)>, es: Seq<(Seq<char>, Seq<char>)>) -> Seq<
    (Seq<char>, Seq<char>),
>
    decreases es.len(),
{
    if es.len() == 0 {
        s
    } else {
        let prev = upsert_all(s, es.drop_last());
        upsert(prev, es.last().0, es.last().1)
    }
}

/// Stores `value` under `key` in `list`.
pub fn put_entry(list: &mut Vec<Entry>, key: String, value: String)
    ensures
        entries_view(final(list)@) == upsert(entries_view(old(list)@), key@, value@),
{
    let ghost s = entries_view(list@);
    let mut i: usize = 0;
    while i < list.len()
        invariant
            i <= list.len(),
            list@ == old(list)@,
            s == entries_view(list@),
            forall|j: int| 0 <= j < i ==> s[j].0 != key@,
        decreases list.len() - i,
    {
        if list[i].key == key {
            proof {
                assert(is_first_key(s, key@, i as int));
                let c = choose|c: int| is_first_key(s, key@, c);
                assert(c == i) by {
                    if c < i {
                        assert(s[c].0 != key@);
                    }
                    if i < c {
                        assert(s[i as int].0 != key@);
                    }
                }
            }
            list.set(i, Entry { key, value });
            proof {
                assert(entries_view(list@) =~= upsert(s, key@, value@));
            }
            return;
        }
        i = i + 1;
    }
    let ghost k = key@;
    let ghost v = value@;
    list.push(Entry { key, value });
    proof {
        assert(!exists|c: int| is_first_key(s, k, c));
        assert(entries_view(list@) =~= s.push((k, v)));
    }
}

/// Stores each entry of `entries` in turn in `list`.
pub fn put_entries(list: &mut Vec<Entry>, entries: &Vec<Entry>)
    ensures
        entries_view(final(list)@) == upsert_all(entries_view(old(list)@), entries_view(entries@)),
{
    let mut i: usize = 0;
    while i < entries.len()
        invariant
            i <= entries.len(),
            entries_view(list@) == upsert_all(
                entries_view(old(list)@),
                entries_view(entries@).take(i as int),
            ),
        decreases entries.len() - i,
    {
        put_entry(list, entries[i].key.clone(), entries[i].value.clone());
        proof {
            let es = entries_view(entries@);
            assert(es.take(i + 1).drop_last() =~= es.take(i as int));
        }
        i = i + 1;
    }
    assert(entries_view(entries@).take(entries.len() as int) =~= entries_view(entries@));
}

pub(crate) fn copy_entries(v: &Vec<Entry>) -> (r: Vec<Entry>)
    ensures
        entries_view(r@) == entries_view(v@),
{
    let mut r: Vec<Entry> = Vec::new();
    let mut i: usize = 0;
    while i < v.len()
        invariant
            i <= v.len(),
            entries_view(r@) == entries_view(v@).take(i as int),
        decreases v.len() - i,
    {
        let ghost prev = entries_view(r@);
        r.push(Entry { key: v[i].key.clone(), value: v[i].value.clone() });
        assert(entries_view(r@) =~= prev.push(v@[i as int]@));
        assert(entries_view(v@).take(i + 1) =~= entries_view(v@).take(i as int).push(v@[i as int]@));
        i = i + 1;
    }
    assert(entries_view(v@).take(v.len() as int) =~= entries_view(v@));
    r
}

/// `i` is the first position of `=` in `s`.
pub open spec fn is_first_equals(s: Seq<char>, i: int) -> bool {
    &&& 0 <= i < s.len()
    &&& s[i] == '='
    &&& forall|j: int| 0 <= j < i ==> s[j] != '='
}

/// The exposed name and the executable that `exposed=executable` names; a text without `=`
/// exposes the executable under its own name.
pub open spec fn mapping_of(s: Seq<char>) -> (Seq<char>, Seq<char>) {
    if exists|i: int| is_first_equals(s, i) {
        let i = choose|i: int| is_first_equals(s, i);
        (s.take(i), s.skip(i + 1))
    } else {
        (s, s)
    }
}

impl Entry {
    /// The mapping that `exposed=executable` names, split at the first `=`; a text without
    /// `=` exposes the executable under its own name.
    pub fn parse_mapping(text: &String) -> (r: Entry)
        ensures
            r@ == mapping_of(text@),
    {
        let mut key = String::new();
        let mut value = String::new();
        let mut seen = false;
        let ghost mut p: int = 0;
        for c in it: text.as_str().chars()
            invariant
                it.seq() == text@,
                !seen ==> key@ == text@.take(it.index() as int),
                !seen ==> value@.len() == 0,
                !seen ==> forall|j: int| 0 <= j < it.index() ==> text@[j] != '=',
                seen ==> is_first_equals(text@, p),
                seen ==> p < it.index(),
                seen ==> key@ == text@.take(p),
                seen ==> value@ == text@.take(it.index() as int).skip(p + 1),
        {
            let ghost idx = it.index() as int;
            if seen {
                push_char(&mut value, c);
                assert(value@ =~= text@.take(idx + 1).skip(p + 1));
            } else if c == '=' {
                seen = true;
                proof {
                    p = idx;
                }
                assert(value@ =~= text@.take(idx + 1).skip(p + 1));
            } else {
                push_char(&mut key, c);
                assert(key@ =~= text@.take(idx + 1));
            }
        }
        assert(text@.take(text@.len() as int) =~= text@);
        if seen {
            proof {
                let c = choose|c: int| is_first_equals(text@, c);
                assert(c == p) by {
                    if c < p {
                        assert(text@[c] != '=');
                    }
                    if p < c {
                        assert(text@[p] != '=');
                    }
                }
            }
            Entry { key, value }
        } else {
            assert(!exists|i: int| is_first_equals(text@, i));
            Entry { key: key.clone(), value: key }
        }
    }
}

} // verus!
