use vstd::prelude::*;
use vstd::utf8::{decode_utf8, valid_utf8};

use crate::value::{
    keys_unique, lemma_list_view, lemma_table_set_keys_unique, lemma_table_view, pairs_view,
    set_entry, table_set, Value, ValueModel,
};
use crate::wire::{
    attr_fields, bytes_to_string, entry_fields, entry_model_of, ldap_wire_decode, msg_op, op_code,
    parse_message, result_fields, AttrModel, EntryModel, OpModel, ResultModel,
};

verus! {

/// The values of one attribute as a list value; exact when every value is
/// valid UTF-8.
pub open spec fn attr_value_list(vals: Seq<Seq<u8>>) -> ValueModel {
    ValueModel::List(vals.map_values(|v: Seq<u8>| ValueModel::Str(decode_utf8(v))))
}

/// Do all values of one attribute decode as UTF-8?
pub open spec fn attr_vals_utf8(a: AttrModel) -> bool {
    forall|j: int| 0 <= j < a.vals.len() ==> valid_utf8(#[trigger] a.vals[j])
}

/// Do all attribute values of the whole list decode as UTF-8?
pub open spec fn entry_vals_utf8(attrs: Seq<AttrModel>) -> bool {
    forall|i: int| 0 <= i < attrs.len() ==> attr_vals_utf8(#[trigger] attrs[i])
}

/// The attribute table of a search result entry: one entry per attribute
/// type name, written in wire order, so that of a repeated type name the
/// later attribute wins.
pub open spec fn attr_table(attrs: Seq<AttrModel>) -> Seq<(Seq<char>, ValueModel)>
    decreases attrs.len(),
{
    if attrs.len() == 0 {
        Seq::empty()
    } else {
        table_set(
            attr_table(attrs.drop_last()),
            attrs.last().attr_type,
            attr_value_list(attrs.last().vals),
        )
    }
}

/// The result mapping shared by the bind, search-done and modify responses:
/// the operation's tag, the result code, the matched DN and the diagnostic
/// message.
pub open spec fn result_table(code: int, r: ResultModel) -> ValueModel {
    ValueModel::Table(
        seq![
            ("protocol_op"@, ValueModel::Int(code)),
            ("result_code"@, ValueModel::Int(r.result_code)),
            ("matched_dn"@, ValueModel::Str(r.matched_dn)),
            ("diagnostic_msg"@, ValueModel::Str(r.diagnostic_message)),
        ],
    )
}

/// The mapping for a search result entry: the operation's tag, the entry's
/// DN and its attribute table.
pub open spec fn entry_table(e: EntryModel) -> ValueModel {
    ValueModel::Table(
        seq![
            ("protocol_op"@, ValueModel::Int(4)),
            ("entry_dn"@, ValueModel::Str(e.object_name)),
            ("attributes"@, ValueModel::Table(attr_table(e.attributes))),
        ],
    )
}

/// How one decoded protocol operation projects to the result pair: the
/// four supported operations become a mapping, every other one a fixed
/// diagnostic, and an attribute value that is no UTF-8 is reported as an
/// invalid text encoding.
pub open spec fn project_op(op: OpModel) -> (ValueModel, ValueModel) {
    match op {
        OpModel::BindResponse(r) => (result_table(1, r), ValueModel::Nil),
        OpModel::SearchResDone(r) => (result_table(5, r), ValueModel::Nil),
        OpModel::ModifyResponse(r) => (result_table(7, r), ValueModel::Nil),
        OpModel::SearchResEntry(e) => if entry_vals_utf8(e.attributes) {
            (entry_table(e), ValueModel::Nil)
        } else {
            (ValueModel::Nil, ValueModel::Str("invalid text encoding"@))
        },
        OpModel::SearchResRef => (
            ValueModel::Nil,
            ValueModel::Str("decoder not yet implement: search result reference"@),
        ),
        OpModel::Other => (ValueModel::Nil, ValueModel::Str("decoder not yet implement"@)),
    }
}

/// What `decode` returns, as a function of the input's model alone: a
/// non-byte-string input is rejected with a fixed diagnostic, a buffer the
/// DER parser rejects is answered with the parser's text, and a parsed
/// message is projected by its protocol operation.
pub open spec fn decode_model(v: ValueModel) -> (ValueModel, ValueModel) {
    match v {
        ValueModel::Bytes(b) => match ldap_wire_decode(b) {
            Ok(op) => project_op(op),
            Err(e) => (ValueModel::Nil, ValueModel::Str(e)),
        },
        _ => (ValueModel::Nil, ValueModel::Str("wrong format on input data"@)),
    }
}

/// Within one entry's attribute table every type name occurs once, however
/// often the wire repeats a type name.
pub proof fn lemma_attr_table_keys_unique(attrs: Seq<AttrModel>)
    ensures
        keys_unique(attr_table(attrs)),
    decreases attrs.len(),
{
    if attrs.len() > 0 {
        lemma_attr_table_keys_unique(attrs.drop_last());
        lemma_table_set_keys_unique(
            attr_table(attrs.drop_last()),
            attrs.last().attr_type,
            attr_value_list(attrs.last().vals),
        );
    }
}

/// Every mapping `decode` returns is a proper string-keyed mapping: its keys
/// occur once, and so do the keys of the nested attribute table.
pub proof fn lemma_decode_result_keys_unique(v: ValueModel)
    ensures
        decode_model(v).0 matches ValueModel::Table(t) ==> keys_unique(t),
        decode_model(v).0 matches ValueModel::Table(t) ==> forall|i: int|
            0 <= i < t.len() ==> ((#[trigger] t[i]).1 matches ValueModel::Table(inner)
                ==> keys_unique(inner)),
{
    reveal_strlit("protocol_op");
    reveal_strlit("result_code");
    reveal_strlit("matched_dn");
    reveal_strlit("diagnostic_msg");
    reveal_strlit("entry_dn");
    reveal_strlit("attributes");
    assert("protocol_op"@[0] == 'p' && "result_code"@[0] == 'r' && "matched_dn"@[0] == 'm'
        && "diagnostic_msg"@[0] == 'd' && "entry_dn"@[0] == 'e' && "attributes"@[0] == 'a');
    match v {
        ValueModel::Bytes(b) => match ldap_wire_decode(b) {
            Ok(op) => match op {
                OpModel::SearchResEntry(e) => lemma_attr_table_keys_unique(e.attributes),
                _ => (),
            },
            Err(_) => (),
        },
        _ => (),
    }
}

/// Exactly one side of the decode pair is populated, whatever the input:
/// a successful decode carries a mapping and no error, every failure
/// carries an error and no result.
pub proof fn lemma_decode_exclusive(v: ValueModel)
    ensures
        (decode_model(v).0 is Nil) != (decode_model(v).1 is Nil),
{
}

/// An input that is no byte string is rejected with the fixed diagnostic
/// and no result.
pub proof fn lemma_decode_type_gate(v: ValueModel)
    requires
        !(v is Bytes),
    ensures
        decode_model(v) == (ValueModel::Nil, ValueModel::Str("wrong format on input data"@)),
{
}

/// A message whose protocol operation is a search result reference is
/// answered with its own fixed diagnostic and no result.
pub proof fn lemma_decode_unsupported_reference(b: Seq<u8>)
    requires
        ldap_wire_decode(b) == Ok::<OpModel, Seq<char>>(OpModel::SearchResRef),
    ensures
        decode_model(ValueModel::Bytes(b)) == (
            ValueModel::Nil,
            ValueModel::Str("decoder not yet implement: search result reference"@),
        ),
{
}

/// A message whose protocol operation is none of the handled kinds is
/// answered with the generic diagnostic and no result.
pub proof fn lemma_decode_unsupported_other(b: Seq<u8>)
    requires
        ldap_wire_decode(b) == Ok::<OpModel, Seq<char>>(OpModel::Other),
    ensures
        decode_model(ValueModel::Bytes(b)) == (
            ValueModel::Nil,
            ValueModel::Str("decoder not yet implement"@),
        ),
{
}

/// Decodes one DER-encoded LDAP message into a mapping, or reports the
/// failure as a diagnostic string. The returned pair is `decode_model` of
/// the input's model: a function of the input alone, so decoding one buffer
/// twice yields identical results, and exactly one slot of the pair is
/// populated.
#[verifier::loop_isolation(false)]
pub fn decode(v: &Value) -> (r: (Value, Value))
    ensures
        (r.0@, r.1@) == decode_model(v@),
{
    let input = match v {
        Value::Bytes(b) => b,
        _ => {
            return (Value::Nil, Value::Str("wrong format on input data".to_owned()));
        },
    };
    let m = match parse_message(input) {
        Ok(m) => m,
        Err(e) => {
            return (Value::Nil, Value::Str(e));
        },
    };
    let ghost op = msg_op(m);
    let code = op_code(&m);
    if code == 4 {
        proof {
            assert(op is SearchResEntry);
        }
        let ghost em = entry_model_of(op);
        let (dn, attrs) = entry_fields(&m);
        let mut attr_entries: Vec<(String, Value)> = Vec::new();
        let mut i: usize = 0;
        while i < attrs.len()
            invariant
                0 <= i <= attrs@.len(),
                forall|j: int| 0 <= j < i ==> attr_vals_utf8(#[trigger] em.attributes[j]),
                pairs_view(attr_entries@) == attr_table(em.attributes.take(i as int)),
            decreases attrs@.len() - i,
        {
            let a = attr_fields(&attrs[i]);
            let ghost am = a@;
            proof {
                assert(am == em.attributes[i as int]);
            }
            let mut vlist: Vec<Value> = Vec::new();
            let mut j: usize = 0;
            while j < a.vals.len()
                invariant
                    0 <= j <= a.vals@.len(),
                    forall|l: int| 0 <= l < j ==> valid_utf8(#[trigger] am.vals[l]),
                    vlist@.map_values(|x: Value| x@) == am.vals.take(j as int).map_values(
                        |b: Seq<u8>| ValueModel::Str(decode_utf8(b)),
                    ),
                decreases a.vals@.len() - j,
            {
                proof {
                    assert(am.vals[j as int] == a.vals@[j as int]@);
                }
                match bytes_to_string(&a.vals[j]) {
                    Some(s) => {
                        let ghost vl0 = vlist@;
                        vlist.push(Value::Str(s));
                        proof {
                            let lhs = vlist@.map_values(|x: Value| x@);
                            let rhs = am.vals.take(j as int + 1).map_values(
                                |b: Seq<u8>| ValueModel::Str(decode_utf8(b)),
                            );
                            assert(forall|l: int|
                                0 <= l < j ==> #[trigger] lhs[l] == vl0.map_values(
                                    |x: Value| x@,
                                )[l]);
                            assert(forall|l: int|
                                0 <= l < j ==> #[trigger] rhs[l] == am.vals.take(
                                    j as int,
                                ).map_values(|b: Seq<u8>| ValueModel::Str(decode_utf8(b)))[l]);
                            assert(lhs =~= rhs);
                        }
                    },
                    None => {
                        proof {
                            assert(!valid_utf8(am.vals[j as int]));
                            assert(!attr_vals_utf8(am));
                            assert(!entry_vals_utf8(em.attributes));
                        }
                        return (Value::Nil, Value::Str("invalid text encoding".to_owned()));
                    },
                }
                j += 1;
            }
            proof {
                assert(am.vals.take(a.vals@.len() as int) =~= am.vals);
                lemma_list_view(vlist);
                assert(attr_vals_utf8(em.attributes[i as int]));
            }
            set_entry(&mut attr_entries, a.attr_type, Value::List(vlist));
            proof {
                assert(em.attributes.take(i as int + 1).drop_last() =~= em.attributes.take(
                    i as int,
                ));
                assert(em.attributes.take(i as int + 1).last() == am);
                assert(pairs_view(attr_entries@) == attr_table(em.attributes.take(i as int + 1)));
            }
            i += 1;
        }
        proof {
            assert(em.attributes.take(attrs@.len() as int) =~= em.attributes);
            assert(entry_vals_utf8(em.attributes));
            lemma_table_view(attr_entries);
        }
        let mut table: Vec<(String, Value)> = Vec::new();
        table.push(("protocol_op".to_owned(), Value::Int(4)));
        table.push(("entry_dn".to_owned(), Value::Str(dn)));
        table.push(("attributes".to_owned(), Value::Table(attr_entries)));
        proof {
            lemma_table_view(table);
            assert(pairs_view(table@) =~~= entry_table(em)->Table_0);
        }
        (Value::Table(table), Value::Nil)
    } else if code == 1 || code == 5 || code == 7 {
        let f = result_fields(&m);
        let ghost fm = f@;
        let mut table: Vec<(String, Value)> = Vec::new();
        table.push(("protocol_op".to_owned(), Value::Int(code as i64)));
        table.push(("result_code".to_owned(), Value::Int(f.result_code)));
        table.push(("matched_dn".to_owned(), Value::Str(f.matched_dn)));
        table.push(("diagnostic_msg".to_owned(), Value::Str(f.diagnostic_message)));
        proof {
            lemma_table_view(table);
            assert(pairs_view(table@) =~~= result_table(code as int, fm)->Table_0);
            assert(project_op(op) == (result_table(code as int, fm), ValueModel::Nil));
        }
        (Value::Table(table), Value::Nil)
    } else if code == 19 {
        proof {
            assert(op is SearchResRef);
        }
        (
            Value::Nil,
            Value::Str("decoder not yet implement: search result reference".to_owned()),
        )
    } else {
        proof {
            assert(op is Other);
        }
        (Value::Nil, Value::Str("decoder not yet implement".to_owned()))
    }
}

} // verus!
