use vstd::prelude::*;

verus! {

broadcast use vstd::std_specs::vec::group_vec_axioms;

/// A generic exchange value, the currency of the decoder's interface: the
/// absence marker, 64-bit integers, UTF-8 text, raw byte strings, ordered
/// lists, and string-keyed mappings of further such values.
#[derive(Debug, PartialEq, Eq)]
pub enum Value {
    Nil,
    Int(i64),
    Str(String),
    Bytes(Vec<u8>),
    List(Vec<Value>),
    Table(Vec<(String, Value)>),
}

/// The mathematical shape of a `Value`: integers without bounds, sequences
/// for text, bytes, lists and mappings.
pub enum ValueModel {
    Nil,
    Int(int),
    Str(Seq<char>),
    Bytes(Seq<u8>),
    List(Seq<ValueModel>),
    Table(Seq<(Seq<char>, ValueModel)>),
}

/// The model of one `Value`, each nested value reduced in turn.
pub open spec fn value_model(v: Value) -> ValueModel
    decreases v,
{
    match v {
        Value::Nil => ValueModel::Nil,
        Value::Int(i) => ValueModel::Int(i as int),
        Value::Str(s) => ValueModel::Str(s@),
        Value::Bytes(b) => ValueModel::Bytes(b@),
        Value::List(vs) => ValueModel::List(
            Seq::new(
                vs@.len(),
                |i: int|
                    if 0 <= i < vs@.len() {
                        value_model(vs@[i])
                    } else {
                        ValueModel::Nil
                    },
            ),
        ),
        Value::Table(ps) => ValueModel::Table(
            Seq::new(
                ps@.len(),
                |i: int|
                    if 0 <= i < ps@.len() {
                        (ps@[i].0@, value_model(ps@[i].1))
                    } else {
                        (Seq::empty(), ValueModel::Nil)
                    },
            ),
        ),
    }
}

impl View for Value {
    type V = ValueModel;

    open spec fn view(&self) -> ValueModel {
        value_model(*self)
    }
}

/// The model of a vector of table entries: each pair reduced to its view.
pub open spec fn pairs_view(ps: Seq<(String, Value)>) -> Seq<(Seq<char>, ValueModel)> {
    ps.map_values(|p: (String, Value)| (p.0@, p.1@))
}

/// Setting one key of a string-keyed table: the first entry holding the key
/// is replaced in place, a missing key is appended. A later write of a key
/// thus wins over an earlier one.
pub open spec fn table_set(
    t: Seq<(Seq<char>, ValueModel)>,
    k: Seq<char>,
    v: ValueModel,
) -> Seq<(Seq<char>, ValueModel)>
    decreases t.len(),
{
    if t.len() == 0 {
        seq![(k, v)]
    } else if t[0].0 == k {
        seq![(k, v)] + t.drop_first()
    } else {
        seq![t[0]] + table_set(t.drop_first(), k, v)
    }
}

/// Does every key occur at most once in the table?
pub open spec fn keys_unique(t: Seq<(Seq<char>, ValueModel)>) -> bool {
    forall|i: int, j: int| 0 <= i < j < t.len() ==> (#[trigger] t[i]).0 != (#[trigger] t[j]).0
}

/// Setting a key keeps the keys of a table unique, and brings in no key but
/// the one written.
pub proof fn lemma_table_set_keys_unique(
    t: Seq<(Seq<char>, ValueModel)>,
    k: Seq<char>,
    v: ValueModel,
)
    requires
        keys_unique(t),
    ensures
        keys_unique(table_set(t, k, v)),
        forall|i: int|
            0 <= i < table_set(t, k, v).len() ==> (#[trigger] table_set(t, k, v)[i]).0 == k
                || exists|j: int| 0 <= j < t.len() && (#[trigger] t[j]).0 == table_set(t, k, v)[i].0,
    decreases t.len(),
{
    if t.len() == 0 {
    } else if t[0].0 == k {
        assert(forall|j: int|
            0 <= j < t.drop_first().len() ==> (#[trigger] t.drop_first()[j]).0 == t[j + 1].0);
    } else {
        assert(keys_unique(t.drop_first()));
        lemma_table_set_keys_unique(t.drop_first(), k, v);
        let r = table_set(t, k, v);
        assert(forall|i: int| 1 <= i < r.len() ==> r[i] == table_set(t.drop_first(), k, v)[i - 1]);
        assert(forall|i: int|
            1 <= i < r.len() ==> (#[trigger] r[i]).0 == k || exists|j: int|
                0 <= j < t.len() && (#[trigger] t[j]).0 == r[i].0);
        assert(forall|i: int| 1 <= i < r.len() ==> r[0].0 != (#[trigger] r[i]).0);
    }
}

proof fn lemma_table_set_replaces(
    t: Seq<(Seq<char>, ValueModel)>,
    k: Seq<char>,
    v: ValueModel,
    i: int,
)
    requires
        0 <= i < t.len(),
        t[i].0 == k,
        forall|j: int| 0 <= j < i ==> (#[trigger] t[j]).0 != k,
    ensures
        table_set(t, k, v) == t.update(i, (k, v)),
    decreases i,
{
    if i == 0 {
        assert(table_set(t, k, v) =~= t.update(0, (k, v)));
    } else {
        lemma_table_set_replaces(t.drop_first(), k, v, i - 1);
        assert(table_set(t, k, v) =~= t.update(i, (k, v)));
    }
}

proof fn lemma_table_set_appends(t: Seq<(Seq<char>, ValueModel)>, k: Seq<char>, v: ValueModel)
    requires
        forall|j: int| 0 <= j < t.len() ==> (#[trigger] t[j]).0 != k,
    ensures
        table_set(t, k, v) == t.push((k, v)),
    decreases t.len(),
{
    if t.len() == 0 {
        assert(table_set(t, k, v) =~= t.push((k, v)));
    } else {
        lemma_table_set_appends(t.drop_first(), k, v);
        assert(table_set(t, k, v) =~= t.push((k, v)));
    }
}

/// A list's view is its elements' views in order.
pub proof fn lemma_list_view(vs: Vec<Value>)
    ensures
        value_model(Value::List(vs)) == ValueModel::List(vs@.map_values(|x: Value| x@)),
{
    assert(value_model(Value::List(vs))->List_0 =~= vs@.map_values(|x: Value| x@));
}

/// A table's view is its entries' views in order.
pub proof fn lemma_table_view(ps: Vec<(String, Value)>)
    ensures
        value_model(Value::Table(ps)) == ValueModel::Table(pairs_view(ps@)),
{
    assert(value_model(Value::Table(ps))->Table_0 =~= pairs_view(ps@));
}

/// Sets one key of a table held as a vector of entries: the first entry
/// holding the key is replaced, a missing key is appended.
pub fn set_entry(t: &mut Vec<(String, Value)>, k: String, v: Value)
    ensures
        pairs_view(final(t)@) == table_set(pairs_view(old(t)@), k@, v@),
{
    let mut i: usize = 0;
    while i < t.len()
        invariant
            t@ == old(t)@,
            0 <= i <= old(t)@.len(),
            forall|j: int| 0 <= j < i ==> (#[trigger] old(t)@[j]).0@ != k@,
        decreases old(t)@.len() - i,
    {
        if t[i].0 == k {
            let ghost t0 = t@;
            t.set(i, (k, v));
            proof {
                assert(forall|j: int|
                    0 <= j < i ==> (#[trigger] pairs_view(t0)[j]).0 != k@);
                assert(pairs_view(t0)[i as int].0 == k@);
                lemma_table_set_replaces(pairs_view(t0), k@, v@, i as int);
                assert(pairs_view(t@) =~~= pairs_view(t0).update(i as int, (k@, v@)));
            }
            return ;
        }
        i += 1;
    }
    t.push((k, v));
    proof {
        assert(forall|j: int|
            0 <= j < old(t)@.len() ==> (#[trigger] pairs_view(old(t)@)[j]).0 != k@);
        lemma_table_set_appends(pairs_view(old(t)@), k@, v@);
        assert(pairs_view(t@) =~~= pairs_view(old(t)@).push((k@, v@)));
    }
}

} // verus!
