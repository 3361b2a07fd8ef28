//! Remote calls to the catalog, as plain values.
//!
//! A call is a method's name with its parameters. A reply is a tree of values,
//! of which only texts, lists and records are told apart. Sending a call and
//! parsing a reply are left to the caller; the text of a call is made here, by
//! the `xmlrpc` crate.

use vstd::prelude::*;
use vstd::string::*;
use crate::names::{chars_of, same_text};

verus! {

/// One named text in a record that is sent.
#[derive(Debug, PartialEq, Eq)]
pub struct RpcField {
    pub name: String,
    pub value: String,
}

/// One parameter of a call.
#[derive(Debug, PartialEq, Eq)]
pub enum RpcParam {
    /// A text.
    Text(String),
    /// A list of records of named texts.
    Records(Vec<Vec<RpcField>>),
}

/// A call: the method's name and its parameters in order.
#[derive(Debug, PartialEq, Eq)]
pub struct RpcCall {
    pub method: String,
    pub params: Vec<RpcParam>,
}

/// What a parameter holds.
pub enum ParamModel {
    Text(Seq<char>),
    Records(Seq<Seq<(Seq<char>, Seq<char>)>>),
}

/// What a call holds.
pub struct CallModel {
    pub method: Seq<char>,
    pub params: Seq<ParamModel>,
}

impl View for RpcField {
    type V = (Seq<char>, Seq<char>);

    open spec fn view(&self) -> (Seq<char>, Seq<char>) {
        (self.name@, self.value@)
    }
}

impl View for RpcParam {
    type V = ParamModel;

    open spec fn view(&self) -> ParamModel {
        match self {
            RpcParam::Text(text) => ParamModel::Text(text@),
            RpcParam::Records(records) => ParamModel::Records(
                records@.map_values(|record: Vec<RpcField>| record@.map_values(|f: RpcField| f@)),
            ),
        }
    }
}

impl View for RpcCall {
    type V = CallModel;

    open spec fn view(&self) -> CallModel {
        CallModel { method: self.method@, params: self.params@.map_values(|p: RpcParam| p@) }
    }
}

/// The XML document that `xmlrpc::Request::write_as_xml` writes for a request
/// with this method name and these parameters, as UTF-8.
pub uninterp spec fn call_xml(method: Seq<char>, params: Seq<ParamModel>) -> Seq<u8>;

impl RpcCall {
    /// Builds an `xmlrpc::Request` of the same method and parameters, with
    /// `Request::new` and `Request::arg`, and has `Request::write_as_xml` write
    /// it into a vector. Writing into a vector cannot fail, and the document
    /// depends on nothing but the request.
    #[verifier::external_body]
    pub(crate) fn to_xml(&self) -> (xml: Vec<u8>)
        ensures
            xml@ == call_xml(self@.method, self@.params),
    {
        let mut request = xmlrpc::Request::new(&self.method);
        for param in &self.params {
            request = request.arg(match param {
                RpcParam::Text(text) => xmlrpc::Value::String(text.clone()),
                RpcParam::Records(records) => xmlrpc::Value::Array(
                    records.iter().map(|record| xmlrpc::Value::Struct(
                        record.iter().map(|f| (f.name.clone(), xmlrpc::Value::String(f.value.clone()))).collect(),
                    )).collect(),
                ),
            });
        }
        let mut xml: Vec<u8> = Vec::new();
        let _ = request.write_as_xml(&mut xml);
        xml
    }
}

/// A value in a reply.
#[derive(Debug, PartialEq, Eq)]
pub enum RpcValue {
    /// A text.
    Text(String),
    /// A list of values.
    List(Vec<RpcValue>),
    /// A record of named values.
    Record(Vec<RpcMember>),
    /// A value of any other kind: a number, a truth value, a date, bytes.
    Other,
}

/// One named value of a record in a reply.
#[derive(Debug, PartialEq, Eq)]
pub struct RpcMember {
    pub name: String,
    pub value: RpcValue,
}

/// The value of the first member from index `from` on that is called `name`.
pub open spec fn member_from(members: Seq<RpcMember>, name: Seq<char>, from: int) -> Option<
    RpcValue,
>
    decreases members.len() - from,
{
    if from < 0 || from >= members.len() {
        None
    } else if members[from].name@ == name {
        Some(members[from].value)
    } else {
        member_from(members, name, from + 1)
    }
}

/// The value of the first member that is called `name`.
pub open spec fn member(members: Seq<RpcMember>, name: Seq<char>) -> Option<RpcValue> {
    member_from(members, name, 0)
}

/// The text that the record `reply` holds under `name`; `None` where `reply`
/// is no record, has no such member, or holds something else than a text
/// there.
pub open spec fn text_field(reply: RpcValue, name: Seq<char>) -> Option<Seq<char>> {
    match reply {
        RpcValue::Record(members) => match member(members@, name) {
            Some(RpcValue::Text(text)) => Some(text@),
            _ => None,
        },
        _ => None,
    }
}

/// The list that the record `reply` holds under `name`; `None` where `reply`
/// is no record, has no such member, or holds something else than a list
/// there.
pub open spec fn list_field(reply: RpcValue, name: Seq<char>) -> Option<Seq<RpcValue>> {
    match reply {
        RpcValue::Record(members) => match member(members@, name) {
            Some(RpcValue::List(items)) => Some(items@),
            _ => None,
        },
        _ => None,
    }
}

/// Whether a status reports success: it begins with `200`.
pub open spec fn is_ok_status(status: Seq<char>) -> bool {
    status.len() >= 3 && status[0] == '2' && status[1] == '0' && status[2] == '0'
}

/// Finds the first member that is called `name`.
pub fn find_member<'a>(members: &'a Vec<RpcMember>, name: &str) -> (found: Option<&'a RpcValue>)
    ensures
        match found {
            Some(value) => member(members@, name@) == Some(*value),
            None => member(members@, name@) is None,
        },
{
    let mut i: usize = 0;
    while i < members.len()
        invariant
            i <= members.len(),
            member(members@, name@) == member_from(members@, name@, i as int),
        decreases members.len() - i,
    {
        if same_text(members[i].name.as_str(), name) {
            return Some(&members[i].value);
        }
        i = i + 1;
    }
    None
}

/// Reads the text that a record holds under `name`.
pub fn get_text<'a>(reply: &'a RpcValue, name: &str) -> (found: Option<&'a String>)
    ensures
        match found {
            Some(text) => text_field(*reply, name@) == Some(text@),
            None => text_field(*reply, name@) is None,
        },
{
    match reply {
        RpcValue::Record(members) => match find_member(members, name) {
            Some(RpcValue::Text(text)) => Some(text),
            _ => None,
        },
        _ => None,
    }
}

/// Reads the list that a record holds under `name`.
pub fn get_list<'a>(reply: &'a RpcValue, name: &str) -> (found: Option<&'a Vec<RpcValue>>)
    ensures
        match found {
            Some(items) => list_field(*reply, name@) == Some(items@),
            None => list_field(*reply, name@) is None,
        },
{
    match reply {
        RpcValue::Record(members) => match find_member(members, name) {
            Some(RpcValue::List(items)) => Some(items),
            _ => None,
        },
        _ => None,
    }
}

/// Whether a status reports success.
pub fn status_is_ok(status: &str) -> (ok: bool)
    ensures
        ok == is_ok_status(status@),
{
    let chars = chars_of(status);
    chars.len() >= 3 && chars[0] == '2' && chars[1] == '0' && chars[2] == '0'
}

} // verus!
