//! JSON values and the merge of one object into another.
use vstd::prelude::*;
use crate::assoc::{assoc, in_keys, unique_keys, lemma_assoc_index, lemma_assoc_push, lemma_assoc_update};

verus! {

/// A JSON value. A number is kept as its text; an object as its entries,
/// no key twice.
pub enum JsonValue {
    Null,
    Bool(bool),
    Number(String),
    Str(String),
    Array(Vec<JsonValue>),
    Object(Vec<JsonEntry>),
}

/// An entry of a JSON object.
pub struct JsonEntry {
    pub key: String,
    pub value: JsonValue,
}

/// What a JSON value stands for: objects are maps from keys to values.
pub enum JsonModel {
    Null,
    Bool(bool),
    Number(Seq<char>),
    Str(Seq<char>),
    Array(Seq<JsonModel>),
    Object(Map<Seq<char>, JsonModel>),
}

/// The entries of an object as key-model pairs.
pub open spec fn entry_pairs(entries: Seq<JsonEntry>) -> Seq<(Seq<char>, JsonModel)>
    decreases entries,
{
    Seq::new(entries.len(), |i: int| if 0 <= i < entries.len() {
        (entries[i].key@, model(entries[i].value))
    } else {
        (Seq::empty(), JsonModel::Null)
    })
}

/// The model of a JSON value.
pub open spec fn model(v: JsonValue) -> JsonModel
    decreases v,
{
    match v {
        JsonValue::Null => JsonModel::Null,
        JsonValue::Bool(b) => JsonModel::Bool(b),
        JsonValue::Number(n) => JsonModel::Number(n@),
        JsonValue::Str(s) => JsonModel::Str(s@),
        JsonValue::Array(items) => JsonModel::Array(Seq::new(items@.len(), |i: int| if 0 <= i < items@.len() {
            model(items@[i])
        } else {
            JsonModel::Null
        })),
        JsonValue::Object(entries) => JsonModel::Object(assoc(entry_pairs(entries@))),
    }
}

/// Every object of the value has each key once.
pub open spec fn json_wf(v: JsonValue) -> bool
    decreases v,
{
    match v {
        JsonValue::Array(items) => forall|i: int| 0 <= i < items@.len() ==> json_wf(#[trigger] items@[i]),
        JsonValue::Object(entries) => unique_keys(entry_pairs(entries@))
            && forall|i: int| 0 <= i < entries@.len() ==> json_wf(#[trigger] entries@[i].value),
        _ => true,
    }
}

/// The model of `b` merged into `a`: when both are objects, each entry of
/// `b` in turn is merged into `a`'s entry of that key (a null one when there
/// is none); otherwise `b` replaces `a`.
pub open spec fn merged(a: JsonModel, b: JsonValue) -> JsonModel
    decreases b, 1int,
{
    match b {
        JsonValue::Object(entries) => match a {
            JsonModel::Object(ma) => JsonModel::Object(merge_entries(ma, entries@, entries@.len() as int)),
            _ => model(b),
        },
        _ => model(b),
    }
}

/// `ma` with the first `n` entries of `entries` merged in, in order.
pub open spec fn merge_entries(
    ma: Map<Seq<char>, JsonModel>,
    entries: Seq<JsonEntry>,
    n: int,
) -> Map<Seq<char>, JsonModel>
    decreases entries, 0int, n,
{
    if n <= 0 || n > entries.len() {
        ma
    } else {
        let m = merge_entries(ma, entries, n - 1);
        let k = entries[n - 1].key@;
        m.insert(k, merged(if m.contains_key(k) { m[k] } else { JsonModel::Null }, entries[n - 1].value))
    }
}

/// The entries' pairs, entry by entry.
pub proof fn lemma_entry_pairs_index(entries: Seq<JsonEntry>, i: int)
    requires
        0 <= i < entries.len(),
    ensures
        entry_pairs(entries).len() == entries.len(),
        entry_pairs(entries)[i] == (entries[i].key@, model(entries[i].value)),
{
}

/// Adds an entry under a key that the object's entries do not hold yet.
pub fn push_entry(entries: &mut Vec<JsonEntry>, key: String, value: JsonValue)
    requires
        unique_keys(entry_pairs(old(entries)@)),
        forall|x: int| 0 <= x < old(entries)@.len() ==> json_wf(#[trigger] old(entries)@[x].value),
        json_wf(value),
        !assoc(entry_pairs(old(entries)@)).contains_key(key@),
    ensures
        unique_keys(entry_pairs(final(entries)@)),
        forall|x: int| 0 <= x < final(entries)@.len() ==> json_wf(#[trigger] final(entries)@[x].value),
        assoc(entry_pairs(final(entries)@)) == assoc(entry_pairs(old(entries)@)).insert(key@, model(value)),
{
    let ghost before = entries@;
    let ghost k = key@;
    let ghost m = model(value);
    let e = JsonEntry { key, value };
    proof {
        lemma_assoc_push(entry_pairs(before), k, m);
        assert(entry_pairs(before.push(e)) =~= entry_pairs(before).push((k, m)));
    }
    entries.push(e);
}

/// A copy of a JSON value, with the same model.
pub fn json_clone(v: &JsonValue) -> (r: JsonValue)
    requires
        json_wf(*v),
    ensures
        json_wf(r),
        model(r) == model(*v),
    decreases v,
{
    match v {
        JsonValue::Null => JsonValue::Null,
        JsonValue::Bool(b) => JsonValue::Bool(*b),
        JsonValue::Number(n) => JsonValue::Number(n.clone()),
        JsonValue::Str(s) => JsonValue::Str(s.clone()),
        JsonValue::Array(items) => {
            let mut out: Vec<JsonValue> = Vec::new();
            let mut i: usize = 0;
            while i < items.len()
                invariant
                    i <= items@.len(),
                    out@.len() == i,
                    *v == JsonValue::Array(*items),
                    forall|j: int| 0 <= j < items@.len() ==> json_wf(#[trigger] items@[j]),
                    forall|j: int| 0 <= j < i ==> json_wf(#[trigger] out@[j]) && model(out@[j]) == model(items@[j]),
                decreases items.len() - i,
            {
                proof {
                    assert(decreases_to!(*v => (*v)->Array_0));
                    assert(decreases_to!(*items => items@));
                    assert(decreases_to!(items@ => items@[i as int]));
                }
                let c = json_clone(&items[i]);
                out.push(c);
                i = i + 1;
            }
            let r = JsonValue::Array(out);
            proof {
                if let JsonModel::Array(s1) = model(r) {
                    if let JsonModel::Array(s2) = model(*v) {
                        assert(s1 =~= s2);
                    }
                }
            }
            r
        },
        JsonValue::Object(entries) => {
            let mut out: Vec<JsonEntry> = Vec::new();
            let mut i: usize = 0;
            while i < entries.len()
                invariant
                    i <= entries@.len(),
                    out@.len() == i,
                    *v == JsonValue::Object(*entries),
                    forall|j: int| 0 <= j < entries@.len() ==> json_wf(#[trigger] entries@[j].value),
                    forall|j: int| 0 <= j < i ==> json_wf(#[trigger] out@[j].value)
                        && model(out@[j].value) == model(entries@[j].value)
                        && out@[j].key@ == entries@[j].key@,
                decreases entries.len() - i,
            {
                proof {
                    assert(decreases_to!(*v => (*v)->Object_0));
                    assert(decreases_to!(*entries => entries@));
                    assert(decreases_to!(entries@ => entries@[i as int]));
                    assert(decreases_to!(entries@[i as int] => entries@[i as int].value));
                }
                let c = json_clone(&entries[i].value);
                let k = entries[i].key.clone();
                out.push(JsonEntry { key: k, value: c });
                i = i + 1;
            }
            proof {
                assert forall|j: int| 0 <= j < out@.len() implies entry_pairs(out@)[j] == entry_pairs(entries@)[j] by {
                    lemma_entry_pairs_index(out@, j);
                    lemma_entry_pairs_index(entries@, j);
                }
                assert(entry_pairs(out@) =~= entry_pairs(entries@));
            }
            JsonValue::Object(out)
        },
    }
}

fn find_entry(entries: &Vec<JsonEntry>, key: &String) -> (r: Option<usize>)
    ensures
        match r {
            Some(j) => j < entries@.len() && entries@[j as int].key@ == key@,
            None => !in_keys(entry_pairs(entries@), key@),
        },
{
    let mut j: usize = 0;
    while j < entries.len()
        invariant
            j <= entries@.len(),
            forall|x: int| 0 <= x < j ==> entries@[x].key@ != key@,
        decreases entries.len() - j,
    {
        if entries[j].key == *key {
            return Some(j);
        }
        j = j + 1;
    }
    proof {
        if in_keys(entry_pairs(entries@), key@) {
            let x = choose|x: int| 0 <= x < entry_pairs(entries@).len() && entry_pairs(entries@)[x].0 == key@;
            lemma_entry_pairs_index(entries@, x);
        }
    }
    None
}

/// Merges `b` into `a`: when both are objects, each entry of `b` in turn is
/// merged into `a`'s entry of that key (added as null first when missing);
/// otherwise `a` becomes a copy of `b`.
pub fn merge_object(a: &mut JsonValue, b: &JsonValue)
    requires
        json_wf(*old(a)),
        json_wf(*b),
    ensures
        json_wf(*final(a)),
        model(*final(a)) == merged(model(*old(a)), *b),
    decreases b,
{
    let mut cur = JsonValue::Null;
    std::mem::swap(a, &mut cur);
    match b {
        JsonValue::Object(eb) => {
            match cur {
                JsonValue::Object(mut ea) => {
                    let ghost ma = assoc(entry_pairs(ea@));
                    let mut i: usize = 0;
                    while i < eb.len()
                        invariant
                            i <= eb@.len(),
                            *b == JsonValue::Object(*eb),
                            forall|x: int| 0 <= x < eb@.len() ==> json_wf(#[trigger] eb@[x].value),
                            unique_keys(entry_pairs(ea@)),
                            forall|x: int| 0 <= x < ea@.len() ==> json_wf(#[trigger] ea@[x].value),
                            assoc(entry_pairs(ea@)) == merge_entries(ma, eb@, i as int),
                        decreases eb.len() - i,
                    {
                        let ghost m = assoc(entry_pairs(ea@));
                        let ghost k = eb@[i as int].key@;
                        let j = match find_entry(&ea, &eb[i].key) {
                            Some(j) => {
                                proof {
                                    lemma_entry_pairs_index(ea@, j as int);
                                    lemma_assoc_index(entry_pairs(ea@), j as int);
                                }
                                j
                            },
                            None => {
                                let e = JsonEntry { key: eb[i].key.clone(), value: JsonValue::Null };
                                proof {
                                    lemma_assoc_push(entry_pairs(ea@), k, JsonModel::Null);
                                    assert(entry_pairs(ea@.push(e)) =~= entry_pairs(ea@).push((k, JsonModel::Null)));
                                }
                                ea.push(e);
                                proof {
                                    lemma_entry_pairs_index(ea@, ea@.len() - 1);
                                }
                                ea.len() - 1
                            },
                        };
                        let ghost m1 = assoc(entry_pairs(ea@));
                        let ghost ea1 = ea@;
                        proof {
                            assert(decreases_to!(*b => (*b)->Object_0));
                            assert(decreases_to!(*eb => eb@));
                            assert(decreases_to!(eb@ => eb@[i as int]));
                            assert(decreases_to!(eb@[i as int] => eb@[i as int].value));
                            lemma_entry_pairs_index(ea1, j as int);
                            lemma_assoc_index(entry_pairs(ea1), j as int);
                            assert(m1[k] == (if m.contains_key(k) { m[k] } else { JsonModel::Null }));
                        }
                        merge_object(&mut ea[j].value, &eb[i].value);
                        proof {
                            let nm = model(ea@[j as int].value);
                            assert(entry_pairs(ea@) =~= entry_pairs(ea1).update(j as int, (k, nm))) by {
                                assert forall|x: int| 0 <= x < ea@.len() implies entry_pairs(ea@)[x] == entry_pairs(ea1).update(j as int, (k, nm))[x] by {
                                    lemma_entry_pairs_index(ea@, x);
                                    lemma_entry_pairs_index(ea1, x);
                                }
                            }
                            lemma_assoc_update(entry_pairs(ea1), j as int, nm);
                            assert(assoc(entry_pairs(ea@)) =~= m.insert(k, nm));
                        }
                        i = i + 1;
                    }
                    *a = JsonValue::Object(ea);
                },
                _ => {
                    *a = json_clone(b);
                },
            }
        },
        _ => {
            *a = json_clone(b);
        },
    }
}

/// Whether two JSON values are equal: objects are equal when they have the
/// same keys with equal values, in whatever order.
pub fn json_eq(a: &JsonValue, b: &JsonValue) -> (r: bool)
    requires
        json_wf(*a),
        json_wf(*b),
    ensures
        r == (model(*a) == model(*b)),
    decreases a,
{
    match (a, b) {
        (JsonValue::Null, JsonValue::Null) => true,
        (JsonValue::Bool(x), JsonValue::Bool(y)) => *x == *y,
        (JsonValue::Number(x), JsonValue::Number(y)) => *x == *y,
        (JsonValue::Str(x), JsonValue::Str(y)) => *x == *y,
        (JsonValue::Array(xs), JsonValue::Array(ys)) => {
            if xs.len() != ys.len() {
                proof {
                    if model(*a) == model(*b) {
                        assert(model(*a)->Array_0.len() == model(*b)->Array_0.len());
                    }
                }
                return false;
            }
            let mut i: usize = 0;
            while i < xs.len()
                invariant
                    i <= xs@.len(),
                    xs@.len() == ys@.len(),
                    *a == JsonValue::Array(*xs),
                    *b == JsonValue::Array(*ys),
                    forall|j: int| 0 <= j < xs@.len() ==> json_wf(#[trigger] xs@[j]),
                    forall|j: int| 0 <= j < ys@.len() ==> json_wf(#[trigger] ys@[j]),
                    forall|j: int| 0 <= j < i ==> model(#[trigger] xs@[j]) == model(ys@[j]),
                decreases xs.len() - i,
            {
                proof {
                    assert(decreases_to!(*a => (*a)->Array_0));
                    assert(decreases_to!(*xs => xs@));
                    assert(decreases_to!(xs@ => xs@[i as int]));
                }
                if !json_eq(&xs[i], &ys[i]) {
                    proof {
                        if model(*a) == model(*b) {
                            assert(model(*a)->Array_0[i as int] == model(*b)->Array_0[i as int]);
                        }
                    }
                    return false;
                }
                i = i + 1;
            }
            proof {
                assert(model(*a)->Array_0 =~= model(*b)->Array_0);
            }
            true
        },
        (JsonValue::Object(xs), JsonValue::Object(ys)) => {
            let ghost ma = assoc(entry_pairs(xs@));
            let ghost mb = assoc(entry_pairs(ys@));
            let mut i: usize = 0;
            while i < xs.len()
                invariant
                    i <= xs@.len(),
                    *a == JsonValue::Object(*xs),
                    *b == JsonValue::Object(*ys),
                    ma == assoc(entry_pairs(xs@)),
                    mb == assoc(entry_pairs(ys@)),
                    unique_keys(entry_pairs(xs@)),
                    unique_keys(entry_pairs(ys@)),
                    forall|j: int| 0 <= j < xs@.len() ==> json_wf(#[trigger] xs@[j].value),
                    forall|j: int| 0 <= j < ys@.len() ==> json_wf(#[trigger] ys@[j].value),
                    forall|j: int| 0 <= j < i ==> mb.contains_key(#[trigger] xs@[j].key@) && mb[xs@[j].key@] == model(xs@[j].value),
                decreases xs.len() - i,
            {
                proof {
                    lemma_entry_pairs_index(xs@, i as int);
                    lemma_assoc_index(entry_pairs(xs@), i as int);
                }
                match find_entry(ys, &xs[i].key) {
                    None => {
                        assert(!mb.contains_key(xs@[i as int].key@));
                        return false;
                    },
                    Some(j) => {
                        proof {
                            lemma_entry_pairs_index(ys@, j as int);
                            lemma_assoc_index(entry_pairs(ys@), j as int);
                            assert(decreases_to!(*a => (*a)->Object_0));
                            assert(decreases_to!(*xs => xs@));
                            assert(decreases_to!(xs@ => xs@[i as int]));
                            assert(decreases_to!(xs@[i as int] => xs@[i as int].value));
                        }
                        if !json_eq(&xs[i].value, &ys[j].value) {
                            proof {
                                if model(*a) == model(*b) {
                                    assert(ma[xs@[i as int].key@] == mb[xs@[i as int].key@]);
                                }
                            }
                            return false;
                        }
                    },
                }
                i = i + 1;
            }
            let mut j: usize = 0;
            while j < ys.len()
                invariant
                    j <= ys@.len(),
                    *a == JsonValue::Object(*xs),
                    *b == JsonValue::Object(*ys),
                    ma == assoc(entry_pairs(xs@)),
                    mb == assoc(entry_pairs(ys@)),
                    unique_keys(entry_pairs(xs@)),
                    unique_keys(entry_pairs(ys@)),
                    forall|x: int| 0 <= x < j ==> ma.contains_key(#[trigger] ys@[x].key@),
                decreases ys.len() - j,
            {
                proof {
                    lemma_entry_pairs_index(ys@, j as int);
                    lemma_assoc_index(entry_pairs(ys@), j as int);
                }
                match find_entry(xs, &ys[j].key) {
                    None => {
                        assert(!ma.contains_key(ys@[j as int].key@));
                        return false;
                    },
                    Some(x) => {
                        proof {
                            lemma_entry_pairs_index(xs@, x as int);
                            lemma_assoc_index(entry_pairs(xs@), x as int);
                        }
                    },
                }
                j = j + 1;
            }
            proof {
                assert forall|k: Seq<char>| ma.contains_key(k) implies mb.contains_key(k) && ma[k] == mb[k] by {
                    let x = choose|x: int| 0 <= x < entry_pairs(xs@).len() && entry_pairs(xs@)[x].0 == k;
                    lemma_entry_pairs_index(xs@, x);
                    lemma_assoc_index(entry_pairs(xs@), x);
                }
                assert forall|k: Seq<char>| mb.contains_key(k) implies ma.contains_key(k) by {
                    let x = choose|x: int| 0 <= x < entry_pairs(ys@).len() && entry_pairs(ys@)[x].0 == k;
                    lemma_entry_pairs_index(ys@, x);
                }
                assert(ma =~= mb);
            }
            true
        },
        _ => false,
    }
}

impl JsonValue {
    /// The value of `key`, when this is an object that has it.
    pub fn get(&self, key: &String) -> (r: Option<&JsonValue>)
        requires
            json_wf(*self),
        ensures
            match r {
                Some(v) => model(*self) is Object && model(*self)->Object_0.contains_key(key@)
                    && model(*self)->Object_0[key@] == model(*v) && json_wf(*v),
                None => !(model(*self) is Object && model(*self)->Object_0.contains_key(key@)),
            },
    {
        match self {
            JsonValue::Object(entries) => match find_entry(entries, key) {
                Some(j) => {
                    proof {
                        lemma_entry_pairs_index(entries@, j as int);
                        lemma_assoc_index(entry_pairs(entries@), j as int);
                    }
                    Some(&entries[j].value)
                },
                None => None,
            },
            _ => None,
        }
    }
}

/// Merging one object into another gives an object with the keys of both.
pub proof fn lemma_merge_keys(ma: Map<Seq<char>, JsonModel>, entries: Seq<JsonEntry>, n: int)
    requires
        0 <= n <= entries.len(),
    ensures
        forall|k: Seq<char>| #[trigger] merge_entries(ma, entries, n).contains_key(k)
            <==> (ma.contains_key(k) || exists|i: int| 0 <= i < n && entries[i].key@ == k),
    decreases n,
{
    if n > 0 {
        lemma_merge_keys(ma, entries, n - 1);
        let m = merge_entries(ma, entries, n);
        let prev = merge_entries(ma, entries, n - 1);
        let kn = entries[n - 1].key@;
        assert(m.dom() == prev.dom().insert(kn));
        assert forall|k: Seq<char>| #[trigger] m.contains_key(k)
            <==> (ma.contains_key(k) || exists|i: int| 0 <= i < n && entries[i].key@ == k) by {
            assert(prev.contains_key(k) <==> (ma.contains_key(k) || exists|i: int| 0 <= i < n - 1 && entries[i].key@ == k));
            if exists|i: int| 0 <= i < n && entries[i].key@ == k {
                let i = choose|i: int| 0 <= i < n && entries[i].key@ == k;
                if i < n - 1 {
                    assert(prev.contains_key(k));
                }
            }
        }
    }
}

/// Entries of the object merged into another win: where the merged entry
/// is no object, the result holds its value as it is.
pub proof fn lemma_merge_non_object_wins(a: JsonModel, b: JsonValue)
    requires
        !(b is Object),
    ensures
        merged(a, b) == model(b),
{
}

/// Merging a value into a copy of itself changes nothing.
pub proof fn lemma_merge_self(v: JsonValue)
    requires
        json_wf(v),
    ensures
        merged(model(v), v) == model(v),
    decreases v, 1int,
{
    match v {
        JsonValue::Object(entries) => {
            assert(decreases_to!(v => entries));
            assert(decreases_to!(entries => entries@));
            lemma_merge_entries_self(entries@, entries@.len() as int);
        },
        _ => {},
    }
}

/// Merging the first `n` entries of an object into the object itself
/// changes nothing.
pub proof fn lemma_merge_entries_self(entries: Seq<JsonEntry>, n: int)
    requires
        unique_keys(entry_pairs(entries)),
        forall|i: int| 0 <= i < entries.len() ==> json_wf(#[trigger] entries[i].value),
        0 <= n <= entries.len(),
    ensures
        merge_entries(assoc(entry_pairs(entries)), entries, n) == assoc(entry_pairs(entries)),
    decreases entries, 0int, n,
{
    let ma = assoc(entry_pairs(entries));
    if n > 0 {
        lemma_merge_entries_self(entries, n - 1);
        let e = entries[n - 1];
        let k = e.key@;
        lemma_entry_pairs_index(entries, n - 1);
        lemma_assoc_index(entry_pairs(entries), n - 1);
        assert(ma.contains_key(k) && ma[k] == model(e.value));
        assert(decreases_to!(entries => entries[n - 1]));
        assert(decreases_to!(entries[n - 1] => entries[n - 1].value));
        lemma_merge_self(e.value);
        assert(ma.insert(k, model(e.value)) =~= ma);
    }
}

/// What the first `n` entries merged into `ma` give, key by key: a key that
/// none of them holds keeps its value in `ma`; the key of one of them is
/// that entry merged into `ma`'s value of the key, or into null.
pub proof fn lemma_merge_entries_per_key(ma: Map<Seq<char>, JsonModel>, entries: Seq<JsonEntry>, n: int)
    requires
        unique_keys(entry_pairs(entries)),
        0 <= n <= entries.len(),
    ensures
        forall|k: Seq<char>| #![trigger merge_entries(ma, entries, n)[k]]
            ma.contains_key(k) && (forall|i: int| 0 <= i < n ==> entries[i].key@ != k)
            ==> merge_entries(ma, entries, n)[k] == ma[k],
        forall|i: int| #![trigger entries[i]] 0 <= i < n ==> merge_entries(ma, entries, n)[entries[i].key@]
            == merged(if ma.contains_key(entries[i].key@) { ma[entries[i].key@] } else { JsonModel::Null }, entries[i].value),
    decreases n,
{
    if n > 0 {
        lemma_merge_entries_per_key(ma, entries, n - 1);
        lemma_merge_keys(ma, entries, n - 1);
        let prev = merge_entries(ma, entries, n - 1);
        let kn = entries[n - 1].key@;
        lemma_entry_pairs_index(entries, n - 1);
        assert forall|i: int| 0 <= i < n - 1 implies #[trigger] entries[i].key@ != kn by {
            lemma_entry_pairs_index(entries, i);
        }
        assert(prev.contains_key(kn) == ma.contains_key(kn)) by {
            if prev.contains_key(kn) && !ma.contains_key(kn) {
                let i = choose|i: int| 0 <= i < n - 1 && entries[i].key@ == kn;
                assert(entries[i].key@ != kn);
            }
        }
        assert(prev.contains_key(kn) ==> prev[kn] == ma[kn]);
    }
}

/// Merging an object into an object, key by key: the result holds the keys
/// of both; a key only in the target keeps its value; each key of the
/// merged object holds its value deep-merged into the target's value of
/// that key, or into null where the target has none.
pub proof fn lemma_merge_object_per_key(a: Map<Seq<char>, JsonModel>, b: JsonValue)
    requires
        json_wf(b),
        b is Object,
    ensures
        merged(JsonModel::Object(a), b) is Object,
        forall|k: Seq<char>| #[trigger] merged(JsonModel::Object(a), b)->Object_0.contains_key(k)
            <==> (a.contains_key(k) || model(b)->Object_0.contains_key(k)),
        forall|k: Seq<char>| a.contains_key(k) && !model(b)->Object_0.contains_key(k)
            ==> #[trigger] merged(JsonModel::Object(a), b)->Object_0[k] == a[k],
        forall|i: int| 0 <= i < b->Object_0@.len() ==> merged(JsonModel::Object(a), b)->Object_0[#[trigger] b->Object_0@[i].key@]
            == merged(if a.contains_key(b->Object_0@[i].key@) { a[b->Object_0@[i].key@] } else { JsonModel::Null }, b->Object_0@[i].value),
{
    let entries = b->Object_0@;
    let n = entries.len() as int;
    lemma_merge_keys(a, entries, n);
    lemma_merge_entries_per_key(a, entries, n);
    let mb = model(b)->Object_0;
    assert(mb == assoc(entry_pairs(entries)));
    assert forall|k: Seq<char>| mb.contains_key(k) <==> exists|i: int| 0 <= i < n && entries[i].key@ == k by {
        if mb.contains_key(k) {
            let i = choose|i: int| 0 <= i < entry_pairs(entries).len() && entry_pairs(entries)[i].0 == k;
            lemma_entry_pairs_index(entries, i);
        }
        if exists|i: int| 0 <= i < n && entries[i].key@ == k {
            let i = choose|i: int| 0 <= i < n && entries[i].key@ == k;
            lemma_entry_pairs_index(entries, i);
            assert(in_keys(entry_pairs(entries), k));
        }
    }
}

} // verus!
