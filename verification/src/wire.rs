use rasn::types::Enumerated;
use vstd::prelude::*;
use vstd::utf8::{decode_utf8, valid_utf8};

verus! {

/// The protocol operation of one decoded LDAP message, reduced to the plain
/// values the decoder reads: the three result-carrying responses, the search
/// entry, the search reference, and everything else collapsed to `Other`.
pub enum OpModel {
    BindResponse(ResultModel),
    SearchResEntry(EntryModel),
    SearchResDone(ResultModel),
    ModifyResponse(ResultModel),
    SearchResRef,
    Other,
}

/// The plain content of an LDAP result: status code, matched DN and
/// diagnostic message. The DER parser only yields the two text fields as
/// valid UTF-8, so they are character sequences here.
pub struct ResultModel {
    pub result_code: int,
    pub matched_dn: Seq<char>,
    pub diagnostic_message: Seq<char>,
}

/// The plain content of one search result entry: the entry's name and its
/// attributes in wire order.
pub struct EntryModel {
    pub object_name: Seq<char>,
    pub attributes: Seq<AttrModel>,
}

/// One attribute of a search result entry: its type name and its values in
/// wire order. Values are raw octet strings; the wire does not promise that
/// they are UTF-8.
pub struct AttrModel {
    pub attr_type: Seq<char>,
    pub vals: Seq<Seq<u8>>,
}

/// The LDAP application tag of each operation this decoder can meet, and 0
/// for the collapsed remainder.
pub open spec fn op_code_of(op: OpModel) -> int {
    match op {
        OpModel::BindResponse(_) => 1,
        OpModel::SearchResEntry(_) => 4,
        OpModel::SearchResDone(_) => 5,
        OpModel::ModifyResponse(_) => 7,
        OpModel::SearchResRef => 19,
        OpModel::Other => 0,
    }
}

/// The result fields carried by the operation; meaningful only for the three
/// result-carrying responses.
pub open spec fn result_model_of(op: OpModel) -> ResultModel {
    match op {
        OpModel::BindResponse(r) => r,
        OpModel::SearchResDone(r) => r,
        OpModel::ModifyResponse(r) => r,
        _ => ResultModel {
            result_code: 0,
            matched_dn: Seq::empty(),
            diagnostic_message: Seq::empty(),
        },
    }
}

/// The entry fields carried by the operation; meaningful only for a search
/// result entry.
pub open spec fn entry_model_of(op: OpModel) -> EntryModel {
    match op {
        OpModel::SearchResEntry(e) => e,
        _ => EntryModel { object_name: Seq::empty(), attributes: Seq::empty() },
    }
}

/// What rasn's DER decoder makes of one byte buffer taken as an LDAP
/// message: either the protocol operation it carries, or the parser's
/// diagnostic text. Both are functions of the bytes alone; this name stands
/// for that function, and `parse_message` below states its result with it.
pub uninterp spec fn ldap_wire_decode(input: Seq<u8>) -> Result<OpModel, Seq<char>>;

/// What one already-decoded message holds, reduced to plain values. The
/// extractors below state their results with this name.
pub uninterp spec fn msg_op(m: rasn_ldap::LdapMessage) -> OpModel;

/// What one decoded attribute of a search result entry holds: its type name
/// and its values in wire order. `attr_fields` below states its result with
/// this name.
pub uninterp spec fn attr_model(a: rasn_ldap::PartialAttribute) -> AttrModel;

/// rasn_ldap's decoded LDAP message, held opaquely between the DER parse and
/// the extractors below.
#[verifier::external_type_specification]
#[verifier::external_body]
pub struct ExLdapMessage(rasn_ldap::LdapMessage);

/// One decoded attribute of a search result entry, held opaquely until
/// `attr_fields` reduces it to plain values.
#[verifier::external_type_specification]
#[verifier::external_body]
pub struct ExPartialAttribute(rasn_ldap::PartialAttribute);

/// The exec counterpart of `ResultModel`.
pub struct ResultFields {
    pub result_code: i64,
    pub matched_dn: String,
    pub diagnostic_message: String,
}

impl View for ResultFields {
    type V = ResultModel;

    open spec fn view(&self) -> ResultModel {
        ResultModel {
            result_code: self.result_code as int,
            matched_dn: self.matched_dn@,
            diagnostic_message: self.diagnostic_message@,
        }
    }
}

/// The exec counterpart of `AttrModel`.
pub struct Attr {
    pub attr_type: String,
    pub vals: Vec<Vec<u8>>,
}

impl View for Attr {
    type V = AttrModel;

    open spec fn view(&self) -> AttrModel {
        AttrModel {
            attr_type: self.attr_type@,
            vals: self.vals@.map_values(|v: Vec<u8>| v@),
        }
    }
}

/// Relies on rasn::der::decode for rasn_ldap::LdapMessage: DER-decodes one
/// complete LDAP message from the buffer. On failure the text is rasn's
/// DecodeError display, which always holds at least the codec name, and with
/// the crate's default features depends on the input alone.
#[verifier::external_body]
pub(crate) fn parse_message(input: &Vec<u8>) -> (r: Result<rasn_ldap::LdapMessage, String>)
    ensures
        match r {
            Ok(m) => ldap_wire_decode(input@) == Ok::<OpModel, Seq<char>>(msg_op(m)),
            Err(e) => ldap_wire_decode(input@) == Err::<OpModel, Seq<char>>(e@) && e@.len() > 0,
        },
{
    match rasn::der::decode::<rasn_ldap::LdapMessage>(input.as_slice()) {
        Ok(m) => Ok(m),
        Err(e) => Err(e.to_string()),
    }
}

/// Relies on matching rasn_ldap::ProtocolOp: returns the LDAP application
/// tag of the operations this decoder handles, and 0 for any other.
#[verifier::external_body]
pub(crate) fn op_code(m: &rasn_ldap::LdapMessage) -> (c: u64)
    ensures
        c == op_code_of(msg_op(*m)),
{
    match &m.protocol_op {
        rasn_ldap::ProtocolOp::BindResponse(_) => 1,
        rasn_ldap::ProtocolOp::SearchResEntry(_) => 4,
        rasn_ldap::ProtocolOp::SearchResDone(_) => 5,
        rasn_ldap::ProtocolOp::ModifyResponse(_) => 7,
        rasn_ldap::ProtocolOp::SearchResRef(_) => 19,
        _ => 0,
    }
}

/// Relies on the fields of rasn_ldap's BindResponse, SearchResultDone and
/// ModifyResponse: the result code's declared discriminant, the matched DN
/// and the diagnostic message, the latter two plain UTF-8 strings there.
#[verifier::external_body]
pub(crate) fn result_fields(m: &rasn_ldap::LdapMessage) -> (f: ResultFields)
    requires
        op_code_of(msg_op(*m)) == 1 || op_code_of(msg_op(*m)) == 5 || op_code_of(msg_op(*m))
            == 7,
    ensures
        f@ == result_model_of(msg_op(*m)),
{
    let r = match &m.protocol_op {
        rasn_ldap::ProtocolOp::BindResponse(r) => (r.result_code, &r.matched_dn, &r.diagnostic_message),
        rasn_ldap::ProtocolOp::SearchResDone(d) => (d.0.result_code, &d.0.matched_dn, &d.0.diagnostic_message),
        rasn_ldap::ProtocolOp::ModifyResponse(r) => (r.0.result_code, &r.0.matched_dn, &r.0.diagnostic_message),
        _ => return ResultFields { result_code: 0, matched_dn: String::new(), diagnostic_message: String::new() },
    };
    ResultFields { result_code: (r.0).discriminant() as i64, matched_dn: (r.1).0.clone(), diagnostic_message: (r.2).0.clone() }
}

/// Relies on rasn_ldap's SearchResultEntry: the object name (a plain UTF-8
/// string there) and the attribute list in wire order.
#[verifier::external_body]
pub(crate) fn entry_fields(m: &rasn_ldap::LdapMessage) -> (e: (String, Vec<
    rasn_ldap::PartialAttribute,
>))
    requires
        op_code_of(msg_op(*m)) == 4,
    ensures
        e.0@ == entry_model_of(msg_op(*m)).object_name,
        e.1@.map_values(|a: rasn_ldap::PartialAttribute| attr_model(a)) == entry_model_of(
            msg_op(*m),
        ).attributes,
{
    match &m.protocol_op {
        rasn_ldap::ProtocolOp::SearchResEntry(en) => (
            en.object_name.0.clone(),
            en.attributes.clone(),
        ),
        _ => (String::new(), Vec::new()),
    }
}

/// Relies on the DER form of rasn_ldap::PartialAttribute, a SEQUENCE of the
/// attribute's type name (an OCTET STRING holding UTF-8, checked when the
/// message was decoded) and its SET OF values; and on rasn's SetOf keeping
/// insertion order, so the values keep wire order.
#[verifier::external_body]
pub(crate) fn attr_fields(a: &rasn_ldap::PartialAttribute) -> (r: Attr)
    ensures
        r@ == attr_model(*a),
{
    let name = rasn::der::encode(a).ok()
        .and_then(|d| rasn::der::decode::<Vec<rasn::types::Any>>(&d).ok())
        .and_then(|parts| parts.into_iter().next())
        .and_then(|t| rasn::der::decode::<rasn_ldap::LdapString>(t.as_bytes()).ok())
        .map(|s| s.0)
        .unwrap_or_default();
    Attr {
        attr_type: name,
        vals: a.vals.to_vec().into_iter().map(|v| v.to_vec()).collect(),
    }
}

/// Relies on String::from_utf8: it succeeds exactly on valid UTF-8 input and
/// returns the decoded text.
#[verifier::external_body]
pub(crate) fn bytes_to_string(b: &Vec<u8>) -> (r: Option<String>)
    ensures
        match r {
            Some(s) => valid_utf8(b@) && s@ == decode_utf8(b@),
            None => !valid_utf8(b@),
        },
{
    match String::from_utf8(b.clone()) {
        Ok(s) => Some(s),
        Err(_) => None,
    }
}

} // verus!
