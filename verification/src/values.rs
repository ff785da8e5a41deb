//! Scopes of template variables: ordered key-value mappings with
//! last-write-wins merge semantics that recurse into nested mappings.

use vstd::prelude::*;

verus! {

/// One key-value entry of a value scope.
#[derive(Debug, PartialEq)]
pub struct Entry {
    pub key: String,
    pub value: ScopeValue,
}

/// A dynamically typed template variable: a JSON/YAML-compatible value tree.
#[derive(Debug, PartialEq)]
pub enum ScopeValue {
    Null,
    Bool(bool),
    Int(i64),
    Text(String),
    Sequence(Vec<ScopeValue>),
    Mapping(ValueScope),
}

/// An ordered mapping from string keys to values; the atomic unit of
/// variable data. Well-formed scopes have unique keys (see `keys_unique`).
#[derive(Debug, PartialEq)]
pub struct ValueScope {
    pub entries: Vec<Entry>,
}

/// The mathematical model of a `ScopeValue`.
pub enum ValueModel {
    Null,
    Bool(bool),
    Int(int),
    Text(Seq<char>),
    Sequence(Seq<ValueModel>),
    Mapping(Seq<(Seq<char>, ValueModel)>),
}

/// The mathematical model of a scope: its entries as key-value pairs, in order.
pub type ScopeModel = Seq<(Seq<char>, ValueModel)>;

pub open spec fn value_model(v: ScopeValue) -> ValueModel
    decreases v,
{
    match v {
        ScopeValue::Null => ValueModel::Null,
        ScopeValue::Bool(b) => ValueModel::Bool(b),
        ScopeValue::Int(i) => ValueModel::Int(i as int),
        ScopeValue::Text(s) => ValueModel::Text(s@),
        ScopeValue::Sequence(vs) => ValueModel::Sequence(values_model(vs@)),
        ScopeValue::Mapping(m) => ValueModel::Mapping(entries_model(m.entries@)),
    }
}

pub open spec fn values_model(vs: Seq<ScopeValue>) -> Seq<ValueModel>
    decreases vs,
{
    if vs.len() == 0 {
        Seq::empty()
    } else {
        values_model(vs.drop_last()).push(value_model(vs.last()))
    }
}

pub open spec fn entries_model(s: Seq<Entry>) -> ScopeModel
    decreases s,
{
    if s.len() == 0 {
        Seq::empty()
    } else {
        entries_model(s.drop_last()).push((s.last().key@, value_model(s.last().value)))
    }
}

pub open spec fn scope_model(s: ValueScope) -> ScopeModel {
    entries_model(s.entries@)
}

/// Index of the first entry with key `k`, or -1 when no entry has it.
pub open spec fn key_index(s: ScopeModel, k: Seq<char>) -> int
    decreases s,
{
    if s.len() == 0 {
        -1
    } else if s[0].0 == k {
        0
    } else {
        let r = key_index(s.drop_first(), k);
        if r < 0 {
            -1
        } else {
            r + 1
        }
    }
}

/// The value stored under the first entry with key `k`, if any.
pub open spec fn lookup(s: ScopeModel, k: Seq<char>) -> Option<ValueModel> {
    if key_index(s, k) >= 0 {
        Some(s[key_index(s, k)].1)
    } else {
        None
    }
}

/// Well-formedness of one scope level: no key occurs twice.
pub open spec fn keys_unique(s: ScopeModel) -> bool {
    forall|i: int, j: int| 0 <= i < j < s.len() ==> s[i].0 != s[j].0
}

/// Overlaying one entry onto a scope: a fresh key is appended; an existing
/// key keeps its position, and its value is replaced outright unless both
/// the old and the new value are mappings, which merge recursively.
pub open spec fn insert_model(s: ScopeModel, k: Seq<char>, v: ValueModel) -> ScopeModel
    decreases v,
{
    let i = key_index(s, k);
    if i < 0 {
        s.push((k, v))
    } else {
        let merged = match v {
            ValueModel::Mapping(mb) => match s[i].1 {
                ValueModel::Mapping(ma) => ValueModel::Mapping(merge_model(ma, mb)),
                _ => v,
            },
            _ => v,
        };
        s.update(i, (k, merged))
    }
}

/// Merging two scopes: every overlay entry is overlaid onto the base in
/// order, so on a key collision the overlay wins (recursively for nested
/// mappings at the same key).
pub open spec fn merge_model(a: ScopeModel, b: ScopeModel) -> ScopeModel
    decreases b,
{
    if b.len() == 0 {
        a
    } else {
        insert_model(merge_model(a, b.drop_last()), b.last().0, b.last().1)
    }
}

/// How two values stored under one colliding key combine.
pub open spec fn merge_value(x: ValueModel, y: ValueModel) -> ValueModel {
    match (x, y) {
        (ValueModel::Mapping(ma), ValueModel::Mapping(mb)) => ValueModel::Mapping(
            merge_model(ma, mb),
        ),
        _ => y,
    }
}

/// Size of a value tree, the termination measure of the executable merge.
pub open spec fn model_size(v: ValueModel) -> nat
    decreases v,
{
    match v {
        ValueModel::Mapping(m) => 1 + pairs_size(m),
        _ => 1,
    }
}

pub open spec fn pairs_size(m: ScopeModel) -> nat
    decreases m,
{
    if m.len() == 0 {
        0
    } else {
        pairs_size(m.drop_last()) + 1 + model_size(m.last().1)
    }
}

pub proof fn lemma_entries_model_index(s: Seq<Entry>)
    ensures
        entries_model(s).len() == s.len(),
        forall|i: int|
            0 <= i < s.len() ==> #[trigger] entries_model(s)[i] == (
                s[i].key@,
                value_model(s[i].value),
            ),
    decreases s.len(),
{
    if s.len() > 0 {
        lemma_entries_model_index(s.drop_last());
        assert forall|i: int|
            0 <= i < s.len() implies #[trigger] entries_model(s)[i] == (
            s[i].key@,
            value_model(s[i].value),
        ) by {
            if i < s.len() - 1 {
                assert(s.drop_last()[i] == s[i]);
            } else {
                assert(s.last() == s[i]);
            }
        }
    }
}

pub proof fn lemma_values_model_index(s: Seq<ScopeValue>)
    ensures
        values_model(s).len() == s.len(),
        forall|i: int|
            0 <= i < s.len() ==> #[trigger] values_model(s)[i] == value_model(s[i]),
    decreases s.len(),
{
    if s.len() > 0 {
        lemma_values_model_index(s.drop_last());
        assert forall|i: int|
            0 <= i < s.len() implies #[trigger] values_model(s)[i] == value_model(s[i]) by {
            if i < s.len() - 1 {
                assert(s.drop_last()[i] == s[i]);
            } else {
                assert(s.last() == s[i]);
            }
        }
    }
}

/// `key_index` finds the first entry with the given key, or reports -1.
pub proof fn lemma_key_index(s: ScopeModel, k: Seq<char>)
    ensures
        key_index(s, k) >= 0 ==> {
            let i = key_index(s, k);
            &&& 0 <= i < s.len()
            &&& s[i].0 == k
            &&& forall|j: int| 0 <= j < i ==> s[j].0 != k
        },
        key_index(s, k) < 0 ==> forall|j: int| 0 <= j < s.len() ==> s[j].0 != k,
    decreases s.len(),
{
    if s.len() > 0 && s[0].0 != k {
        lemma_key_index(s.drop_first(), k);
        let r = key_index(s.drop_first(), k);
        assert forall|j: int| 0 <= j < s.len() implies s.drop_first()[j - 1] == s[j] || j == 0 by {
            if j > 0 {
                assert(s.drop_first()[j - 1] == s[j]);
            }
        }
    }
}

/// A position holding `k` before which no position holds `k` is where
/// `key_index` points.
pub proof fn lemma_key_index_is_first(s: ScopeModel, k: Seq<char>, i: int)
    requires
        0 <= i < s.len(),
        s[i].0 == k,
        forall|j: int| 0 <= j < i ==> s[j].0 != k,
    ensures
        key_index(s, k) == i,
{
    lemma_key_index(s, k);
}

/// When no position holds `k`, `key_index` reports -1.
pub proof fn lemma_key_index_none(s: ScopeModel, k: Seq<char>)
    requires
        forall|j: int| 0 <= j < s.len() ==> s[j].0 != k,
    ensures
        key_index(s, k) < 0,
{
    lemma_key_index(s, k);
}

/// How `insert_model` changes what `lookup` sees: the overlaid key maps to
/// the combined value; every other key is untouched.
pub proof fn lemma_insert_lookup(s: ScopeModel, k0: Seq<char>, v: ValueModel, k: Seq<char>)
    ensures
        k == k0 ==> lookup(insert_model(s, k0, v), k) == Some(
            match lookup(s, k0) {
                Some(x) => merge_value(x, v),
                None => v,
            },
        ),
        k != k0 ==> lookup(insert_model(s, k0, v), k) == lookup(s, k),
{
    lemma_key_index(s, k0);
    lemma_key_index(s, k);
    let i0 = key_index(s, k0);
    let s2 = insert_model(s, k0, v);
    if i0 < 0 {
        assert(s2 == s.push((k0, v)));
        assert forall|j: int| 0 <= j < s.len() implies s2[j] == s[j] by {}
        if k == k0 {
            lemma_key_index_is_first(s2, k, s.len() as int);
        } else {
            if key_index(s, k) >= 0 {
                lemma_key_index_is_first(s2, k, key_index(s, k));
            } else {
                lemma_key_index_none(s2, k);
            }
        }
    } else {
        assert forall|j: int| 0 <= j < s2.len() implies s2[j].0 == s[j].0 by {}
        if k == k0 {
            lemma_key_index_is_first(s2, k, i0);
        } else {
            if key_index(s, k) >= 0 {
                let i = key_index(s, k);
                lemma_key_index_is_first(s2, k, i);
                assert(s2[i] == s[i]);
            } else {
                lemma_key_index_none(s2, k);
            }
        }
    }
}

/// How merging changes what `lookup` sees, for every key at once: a key
/// only in the base keeps its value, a key only in the overlay gains the
/// overlay's value, and a key in both gets the combined value.
pub proof fn lemma_merge_lookup(a: ScopeModel, b: ScopeModel, k: Seq<char>)
    requires
        keys_unique(b),
    ensures
        lookup(merge_model(a, b), k) == (match (lookup(a, k), lookup(b, k)) {
            (Some(x), Some(y)) => Some(merge_value(x, y)),
            (None, Some(y)) => Some(y),
            (_, None) => lookup(a, k),
        }),
    decreases b.len(),
{
    lemma_key_index(b, k);
    if b.len() > 0 {
        let b0 = b.drop_last();
        let p = b.last();
        assert forall|j: int| 0 <= j < b0.len() implies b0[j] == b[j] by {}
        lemma_merge_lookup(a, b0, k);
        lemma_insert_lookup(merge_model(a, b0), p.0, p.1, k);
        lemma_key_index(b0, k);
        if k == p.0 {
            lemma_key_index_none(b0, k);
            lemma_key_index_is_first(b, k, b.len() - 1);
        } else {
            if key_index(b0, k) >= 0 {
                lemma_key_index_is_first(b, k, key_index(b0, k));
            } else {
                lemma_key_index_none(b, k);
            }
        }
    }
}

/// Merging keeps keys unique when the base's keys are.
pub proof fn lemma_merge_unique(a: ScopeModel, b: ScopeModel)
    requires
        keys_unique(a),
    ensures
        keys_unique(merge_model(a, b)),
    decreases b.len(),
{
    if b.len() > 0 {
        lemma_merge_unique(a, b.drop_last());
        let m0 = merge_model(a, b.drop_last());
        let p = b.last();
        lemma_key_index(m0, p.0);
        let i0 = key_index(m0, p.0);
        let m1 = insert_model(m0, p.0, p.1);
        if i0 < 0 {
            assert(m1 == m0.push((p.0, p.1)));
            assert forall|i: int, j: int| 0 <= i < j < m1.len() implies m1[i].0 != m1[j].0 by {
                if j < m0.len() {
                    assert(m1[i] == m0[i] && m1[j] == m0[j]);
                } else {
                    assert(m1[i] == m0[i] && m1[j].0 == p.0);
                }
            }
        } else {
            assert forall|j: int| 0 <= j < m1.len() implies m1[j].0 == m0[j].0 by {}
        }
    }
}

/// With unique keys, holding a pair and looking its key up agree.
pub proof fn lemma_contains_lookup(s: ScopeModel, p: (Seq<char>, ValueModel))
    requires
        keys_unique(s),
    ensures
        s.contains(p) <==> lookup(s, p.0) == Some(p.1),
{
    lemma_key_index(s, p.0);
    if s.contains(p) {
        let i = choose|i: int| 0 <= i < s.len() && s[i] == p;
        lemma_key_index_is_first(s, p.0, i);
    }
    if lookup(s, p.0) == Some(p.1) {
        let i = key_index(s, p.0);
        assert(s[i] == (s[i].0, s[i].1));
        assert(s.contains(p));
    }
}

/// Law: merging scopes with no key in common is commutative as a set of
/// entries: every key looks up to the same value in both results, and the
/// two results hold exactly the same key-value pairs (only their order may
/// differ).
pub proof fn lemma_merge_disjoint_commutes(a: ScopeModel, b: ScopeModel)
    requires
        keys_unique(a),
        keys_unique(b),
        forall|i: int, j: int|
            0 <= i < a.len() && 0 <= j < b.len() ==> a[i].0 != b[j].0,
    ensures
        forall|k: Seq<char>|
            #[trigger] lookup(merge_model(a, b), k) == lookup(merge_model(b, a), k),
        forall|p: (Seq<char>, ValueModel)|
            merge_model(a, b).contains(p) <==> merge_model(b, a).contains(p),
        merge_model(a, b).to_set() == merge_model(b, a).to_set(),
{
    assert forall|k: Seq<char>|
        #[trigger] lookup(merge_model(a, b), k) == lookup(merge_model(b, a), k) by {
        lemma_merge_lookup(a, b, k);
        lemma_merge_lookup(b, a, k);
        lemma_key_index(a, k);
        lemma_key_index(b, k);
    }
    lemma_merge_unique(a, b);
    lemma_merge_unique(b, a);
    assert forall|p: (Seq<char>, ValueModel)|
        merge_model(a, b).contains(p) <==> merge_model(b, a).contains(p) by {
        lemma_contains_lookup(merge_model(a, b), p);
        lemma_contains_lookup(merge_model(b, a), p);
        assert(lookup(merge_model(a, b), p.0) == lookup(merge_model(b, a), p.0));
    }
    assert(merge_model(a, b).to_set() =~= merge_model(b, a).to_set());
}

/// Law: on a key both scopes hold, when the two values are not both
/// mappings, the overlay's value wins outright.
pub proof fn lemma_merge_override(
    a: ScopeModel,
    b: ScopeModel,
    k: Seq<char>,
    x: ValueModel,
    y: ValueModel,
)
    requires
        keys_unique(b),
        lookup(a, k) == Some(x),
        lookup(b, k) == Some(y),
        !(x is Mapping && y is Mapping),
    ensures
        lookup(merge_model(a, b), k) == Some(y),
{
    lemma_merge_lookup(a, b, k);
}

/// Law: on a key both scopes hold, when the two values are both mappings,
/// the merged scope holds their recursive merge under that key.
pub proof fn lemma_merge_recursive(
    a: ScopeModel,
    b: ScopeModel,
    k: Seq<char>,
    ma: ScopeModel,
    mb: ScopeModel,
)
    requires
        keys_unique(b),
        lookup(a, k) == Some(ValueModel::Mapping(ma)),
        lookup(b, k) == Some(ValueModel::Mapping(mb)),
    ensures
        lookup(merge_model(a, b), k) == Some(ValueModel::Mapping(merge_model(ma, mb))),
{
    lemma_merge_lookup(a, b, k);
}

/// Law: a scope with no entries overlays nothing; a node that declares no
/// values keeps exactly its inherited scope.
pub proof fn lemma_merge_empty_overlay(a: ScopeModel)
    ensures
        merge_model(a, Seq::empty()) == a,
{
}

/// Finds the first entry whose key equals `key`.
fn find_key(entries: &Vec<Entry>, key: &String) -> (r: Option<usize>)
    ensures
        match r {
            Some(i) => i < entries@.len() && key_index(entries_model(entries@), key@) == i as int,
            None => key_index(entries_model(entries@), key@) < 0,
        },
{
    proof {
        lemma_entries_model_index(entries@);
    }
    let ghost sm = entries_model(entries@);
    let n = entries.len();
    let mut i: usize = 0;
    while i < n
        invariant
            i <= n,
            n == entries@.len(),
            sm == entries_model(entries@),
            sm.len() == n,
            forall|j: int| 0 <= j < i ==> sm[j].0 != key@,
            forall|j: int|
                0 <= j < n ==> #[trigger] sm[j] == (entries@[j].key@, value_model(entries@[j].value)),
        decreases n - i,
    {
        if entries[i].key == *key {
            proof {
                lemma_key_index_is_first(sm, key@, i as int);
            }
            return Some(i);
        }
        i += 1;
    }
    proof {
        lemma_key_index_none(sm, key@);
    }
    None
}

/// Merges `overlay` onto `base`: the result holds every key of either
/// scope; on a collision the overlay's value wins, except that two nested
/// mappings under one key merge recursively. Neither order nor other
/// entries change; no error is possible.
pub fn merge(base: ValueScope, overlay: ValueScope) -> (r: ValueScope)
    ensures
        scope_model(r) == merge_model(scope_model(base), scope_model(overlay)),
    decreases pairs_size(scope_model(overlay)),
{
    let mut ov = overlay;
    let ghost before = scope_model(ov);
    match ov.entries.pop() {
        None => {
            assert(before.len() == 0);
            base
        },
        Some(e) => {
            proof {
                assert(before.drop_last() =~= entries_model(ov.entries@));
                assert(before.last() == (e.key@, value_model(e.value)));
            }
            let partial = merge(base, ov);
            insert_merged(partial, e)
        },
    }
}

/// Overlays one entry onto a scope, as `insert_model` describes.
fn insert_merged(scope: ValueScope, e: Entry) -> (r: ValueScope)
    ensures
        scope_model(r) == insert_model(scope_model(scope), e.key@, value_model(e.value)),
    decreases model_size(value_model(e.value)),
{
    let mut sc = scope;
    let ghost sm = scope_model(scope);
    match find_key(&sc.entries, &e.key) {
        Some(i) => {
            proof {
                lemma_entries_model_index(sc.entries@);
            }
            let old_entry = sc.entries.remove(i);
            let Entry { key: _old_key, value: old_value } = old_entry;
            let merged: ScopeValue = match (old_value, e.value) {
                (ScopeValue::Mapping(ma), ScopeValue::Mapping(mb)) => ScopeValue::Mapping(merge(ma, mb)),
                (_, newv) => newv,
            };
            sc.entries.insert(i, Entry { key: e.key, value: merged });
            proof {
                lemma_entries_model_index(sc.entries@);
                assert(scope_model(sc) =~= insert_model(sm, e.key@, value_model(e.value)));
            }
            sc
        },
        None => {
            sc.entries.push(e);
            proof {
                assert(sc.entries@.drop_last() =~= scope.entries@);
                assert(sc.entries@.last() == e);
                assert(scope_model(sc) == insert_model(sm, e.key@, value_model(e.value)));
            }
            sc
        },
    }
}

/// A structural copy of a value; the copy has the same model.
#[verifier::loop_isolation(false)]
pub fn deep_copy_value(v: &ScopeValue) -> (r: ScopeValue)
    ensures
        value_model(r) == value_model(*v),
    decreases *v,
{
    match v {
        ScopeValue::Null => ScopeValue::Null,
        ScopeValue::Bool(b) => ScopeValue::Bool(*b),
        ScopeValue::Int(i) => ScopeValue::Int(*i),
        ScopeValue::Text(s) => ScopeValue::Text(s.clone()),
        ScopeValue::Sequence(vs) => {
            let mut out: Vec<ScopeValue> = Vec::new();
            let mut i: usize = 0;
            while i < vs.len()
                invariant
                    i <= vs@.len(),
                    out@.len() == i,
                    forall|j: int|
                        0 <= j < i ==> value_model(#[trigger] out@[j]) == value_model(vs@[j]),
                decreases vs@.len() - i,
            {
                out.push(deep_copy_value(&vs[i]));
                i += 1;
            }
            proof {
                lemma_values_model_index(out@);
                lemma_values_model_index(vs@);
                assert(values_model(out@) =~= values_model(vs@));
            }
            ScopeValue::Sequence(out)
        },
        ScopeValue::Mapping(m) => ScopeValue::Mapping(deep_copy_scope(m)),
    }
}

/// A structural copy of a scope; the copy has the same model.
pub fn deep_copy_scope(s: &ValueScope) -> (r: ValueScope)
    ensures
        scope_model(r) == scope_model(*s),
    decreases *s,
{
    let mut out: Vec<Entry> = Vec::new();
    let mut i: usize = 0;
    while i < s.entries.len()
        invariant
            i <= s.entries@.len(),
            out@.len() == i,
            forall|j: int|
                0 <= j < i ==> #[trigger] out@[j].key@ == s.entries@[j].key@ && value_model(
                    out@[j].value,
                ) == value_model(s.entries@[j].value),
        decreases s.entries@.len() - i,
    {
        let e = &s.entries[i];
        out.push(Entry { key: e.key.clone(), value: deep_copy_value(&e.value) });
        i += 1;
    }
    proof {
        lemma_entries_model_index(out@);
        lemma_entries_model_index(s.entries@);
        assert(entries_model(out@) =~= entries_model(s.entries@));
    }
    ValueScope { entries: out }
}

} // verus!
