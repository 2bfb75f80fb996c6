//! A JSON value, and the object operations the lobby messages need.
use vstd::prelude::*;
use crate::text::same_text;

verus! {

/// A JSON value. Numbers are held as their JSON text; objects as their
/// entries in order. Nothing keeps a key from occurring twice; lookups
/// take the first entry under a key.
#[derive(Debug, PartialEq)]
pub enum Json {
    Null,
    Bool(bool),
    Number(String),
    Str(String),
    Array(Vec<Json>),
    Object(Vec<(String, Json)>),
}

/// A JSON value seen as a scalar: what a flat payload field holds.
pub enum JsonScalar {
    Null,
    Bool(bool),
    Number(Seq<char>),
    Text(Seq<char>),
    /// An array or an object.
    Compound,
}

/// The scalar view of a value.
pub open spec fn scalar_of(j: Json) -> JsonScalar {
    match j {
        Json::Null => JsonScalar::Null,
        Json::Bool(b) => JsonScalar::Bool(b),
        Json::Number(n) => JsonScalar::Number(n@),
        Json::Str(s) => JsonScalar::Text(s@),
        _ => JsonScalar::Compound,
    }
}

/// Object entries with each key taken by its text.
pub open spec fn keyed(entries: Seq<(String, Json)>) -> Seq<(Seq<char>, Json)> {
    entries.map_values(|e: (String, Json)| (e.0@, e.1))
}

/// Object entries with each key and value taken by its text (for flat
/// objects).
pub open spec fn flat(entries: Seq<(String, Json)>) -> Seq<(Seq<char>, JsonScalar)> {
    entries.map_values(|e: (String, Json)| (e.0@, scalar_of(e.1)))
}

/// The value of the first entry under `key`.
pub open spec fn lookup(entries: Seq<(Seq<char>, Json)>, key: Seq<char>) -> Option<Json>
    decreases entries.len(),
{
    if entries.len() == 0 {
        None
    } else if entries[0].0 == key {
        Some(entries[0].1)
    } else {
        lookup(entries.drop_first(), key)
    }
}

/// The entries with `key` set to `value`: the first entry under `key` takes
/// the new value, or the entry is added at the end.
pub open spec fn with_entry(entries: Seq<(Seq<char>, Json)>, key: Seq<char>, value: Json) -> Seq<
    (Seq<char>, Json),
>
    decreases entries.len(),
{
    if entries.len() == 0 {
        seq![(key, value)]
    } else if entries[0].0 == key {
        seq![(key, value)] + entries.drop_first()
    } else {
        seq![entries[0]] + with_entry(entries.drop_first(), key, value)
    }
}

proof fn lemma_lookup_push(entries: Seq<(Seq<char>, Json)>, e: (Seq<char>, Json), key: Seq<char>)
    ensures
        lookup(entries.push(e), key) == match lookup(entries, key) {
            Some(v) => Some(v),
            None => if e.0 == key {
                Some(e.1)
            } else {
                None
            },
        },
    decreases entries.len(),
{
    if entries.len() > 0 {
        assert(entries.push(e).drop_first() =~= entries.drop_first().push(e));
        assert(entries.push(e)[0] == entries[0]);
        lemma_lookup_push(entries.drop_first(), e, key);
    } else {
        assert(entries.push(e).drop_first() =~= Seq::<(Seq<char>, Json)>::empty());
        assert(lookup(Seq::<(Seq<char>, Json)>::empty(), key) is None);
        assert(entries.push(e)[0] == e);
    }
}

/// Takes the values under `key_a` and `key_b` out of an object's entries
/// (the first entry under each).
pub fn take_two(entries: Vec<(String, Json)>, key_a: &str, key_b: &str) -> (r: (
    Option<Json>,
    Option<Json>,
))
    requires
        key_a@ != key_b@,
    ensures
        r.0 == lookup(keyed(entries@), key_a@),
        r.1 == lookup(keyed(entries@), key_b@),
{
    let ghost all = entries@;
    let mut a: Option<Json> = None;
    let mut b: Option<Json> = None;
    let ghost mut seen: Seq<(String, Json)> = seq![];
    for e in it: entries
        invariant
            it.seq() == all,
            key_a@ != key_b@,
            seen == all.take(it.index() as int),
            a == lookup(keyed(seen), key_a@),
            b == lookup(keyed(seen), key_b@),
    {
        let ghost before = seen;
        proof {
            seen = all.take(it.index() + 1);
            assert(seen =~= before.push(e));
            assert(keyed(seen) =~= keyed(before).push((e.0@, e.1)));
            lemma_lookup_push(keyed(before), (e.0@, e.1), key_a@);
            lemma_lookup_push(keyed(before), (e.0@, e.1), key_b@);
        }
        let (k, v) = e;
        let is_a = a.is_none() && same_text(k.as_str(), key_a);
        let is_b = b.is_none() && same_text(k.as_str(), key_b);
        if is_a {
            a = Some(v);
        } else if is_b {
            b = Some(v);
        }
    }
    proof {
        assert(all.take(all.len() as int) =~= all);
    }
    (a, b)
}

} // verus!

verus! {

proof fn lemma_with_entry_prefix(q: Seq<(Seq<char>, Json)>, key: Seq<char>, value: Json, i: int)
    requires
        0 <= i <= q.len(),
        forall|j: int| 0 <= j < i ==> q[j].0 != key,
    ensures
        with_entry(q, key, value) == q.take(i) + with_entry(q.skip(i), key, value),
    decreases i,
{
    if i > 0 {
        lemma_with_entry_prefix(q.drop_first(), key, value, i - 1);
        assert(q.drop_first().take(i - 1) =~= q.take(i).drop_first());
        assert(q.drop_first().skip(i - 1) =~= q.skip(i));
        assert(q.take(i) =~= seq![q[0]] + q.take(i).drop_first());
        assert(with_entry(q, key, value) == seq![q[0]] + with_entry(q.drop_first(), key, value));
        assert(q.take(i) + with_entry(q.skip(i), key, value) =~= seq![q[0]] + (q.drop_first().take(
            i - 1,
        ) + with_entry(q.drop_first().skip(i - 1), key, value)));
    } else {
        assert(q.skip(0) =~= q);
        assert(q.take(0) + with_entry(q, key, value) =~= with_entry(q, key, value));
    }
}

/// Sets `key` to `value` in an object's entries (see [`with_entry`]).
pub fn set_entry(entries: Vec<(String, Json)>, key: String, value: Json) -> (r: Vec<(String, Json)>)
    ensures
        keyed(r@) == with_entry(keyed(entries@), key@, value),
{
    let ghost all = entries@;
    let ghost q = keyed(all);
    let ghost kv = key@;
    let ghost val = value;
    let mut out: Vec<(String, Json)> = Vec::new();
    let mut pending: Option<(String, Json)> = Some((key, value));
    for e in it: entries
        invariant
            it.seq() == all,
            q == keyed(all),
            match pending {
                Some(p) => p.0@ == kv && p.1 == val && keyed(out@) == q.take(it.index() as int)
                    && forall|j: int| 0 <= j < it.index() ==> q[j].0 != kv,
                None => keyed(out@) + q.skip(it.index() as int) == with_entry(q, kv, val),
            },
    {
        let ghost i = it.index() as int;
        let ghost before = out@;
        match pending {
            Some(p) => {
                if same_text(e.0.as_str(), p.0.as_str()) {
                    proof {
                        lemma_with_entry_prefix(q, kv, val, i);
                        assert(q.skip(i)[0] == q[i]);
                        assert(q.skip(i).drop_first() =~= q.skip(i + 1));
                    }
                    out.push(p);
                    pending = None;
                    assert(keyed(out@) =~= keyed(before).push((kv, val)));
                    assert(keyed(out@) + q.skip(i + 1) =~= q.take(i) + (seq![(kv, val)] + q.skip(
                        i + 1,
                    )));
                } else {
                    out.push(e);
                    pending = Some(p);
                    assert(keyed(out@) =~= q.take(i + 1));
                }
            },
            None => {
                out.push(e);
                assert(keyed(out@) =~= keyed(before).push(q[i]));
                assert(q.skip(i) =~= seq![q[i]] + q.skip(i + 1));
                assert(keyed(out@) + q.skip(i + 1) =~= keyed(before) + q.skip(i));
            },
        }
    }
    if let Some(p) = pending {
        proof {
            lemma_with_entry_prefix(q, kv, val, q.len() as int);
            assert(q.skip(q.len() as int) =~= Seq::<(Seq<char>, Json)>::empty());
            assert(q.take(q.len() as int) =~= q);
        }
        let ghost before = out@;
        out.push(p);
        assert(keyed(out@) =~= keyed(before).push((kv, val)));
        assert(keyed(out@) =~= with_entry(q, kv, val));
    } else {
        assert(q.skip(q.len() as int) =~= Seq::<(Seq<char>, Json)>::empty());
        assert(keyed(out@) =~= keyed(out@) + q.skip(q.len() as int));
    }
    out
}

} // verus!

verus! {

/// Setting an entry: looking the key up gives the new value, and every other
/// key looks up as before.
pub proof fn lookup_after_with_entry(
    entries: Seq<(Seq<char>, Json)>,
    key: Seq<char>,
    value: Json,
    k: Seq<char>,
)
    ensures
        lookup(with_entry(entries, key, value), k) == if k == key {
            Some(value)
        } else {
            lookup(entries, k)
        },
    decreases entries.len(),
{
    let w = with_entry(entries, key, value);
    if entries.len() == 0 {
        assert(w.drop_first() =~= Seq::<(Seq<char>, Json)>::empty());
        assert(lookup(w.drop_first(), k) is None);
    } else if entries[0].0 == key {
        assert(w.drop_first() =~= entries.drop_first());
        if k != key {
            assert(entries[0].0 != k);
        }
    } else {
        lookup_after_with_entry(entries.drop_first(), key, value, k);
        assert(w.drop_first() =~= with_entry(entries.drop_first(), key, value));
        assert(w[0] == entries[0]);
    }
}

} // verus!
