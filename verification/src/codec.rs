//! The record codec: one line of the source file into an input record, one
//! output record into a line of the destination file.

use crate::json::{get, member, message, parse, parsed, quote, quoted, string_of, unsigned_of};
use crate::record::{InputRecord, InputRecordView, OutputRecord, OutputRecordView};
use serde_json::Value;
use vstd::prelude::*;
use vstd::string::StringExecFns;

verus! {

/// What kept a line from being a record.
#[derive(Clone, Copy, Debug, PartialEq, Eq, Structural)]
pub enum Fault {
    /// The line is not one JSON document.
    Syntax,
    /// No member `timestamp` that is a string.
    Timestamp,
    /// No member `type` that is a string.
    Kind,
    /// No member `branch` that is a string.
    Branch,
    /// No member `account` that is an unsigned integer.
    Account,
}

/// A line that could not be decoded.
#[derive(Debug, PartialEq, Eq)]
pub struct ParseError {
    /// The offending line.
    pub line: String,
    /// What was wrong with it.
    pub fault: Fault,
    /// The cause in words.
    pub cause: String,
}

/// The four members of a record as they were found in a document, each
/// absent where the document has no such member of the right type.
#[derive(Debug, PartialEq, Eq)]
pub struct RawFields {
    pub timestamp: Option<String>,
    pub kind: Option<String>,
    pub branch: Option<String>,
    pub account: Option<u64>,
}

/// What [`RawFields`] holds, as plain values.
pub struct RawFieldsView {
    pub timestamp: Option<Seq<char>>,
    pub kind: Option<Seq<char>>,
    pub branch: Option<Seq<char>>,
    pub account: Option<u64>,
}

/// The text of an optional string.
pub open spec fn text_of(s: Option<String>) -> Option<Seq<char>> {
    match s {
        Some(s) => Some(s@),
        None => None,
    }
}

impl View for RawFields {
    type V = RawFieldsView;

    open spec fn view(&self) -> RawFieldsView {
        RawFieldsView {
            timestamp: text_of(self.timestamp),
            kind: text_of(self.kind),
            branch: text_of(self.branch),
            account: self.account,
        }
    }
}

/// The string member of `doc` under `key`.
pub open spec fn string_member(doc: Value, key: Seq<char>) -> Option<Seq<char>> {
    match member(doc, key) {
        Some(value) => string_of(value),
        None => None,
    }
}

/// The unsigned member of `doc` under `key`.
pub open spec fn unsigned_member(doc: Value, key: Seq<char>) -> Option<u64> {
    match member(doc, key) {
        Some(value) => unsigned_of(value),
        None => None,
    }
}

/// The members of a record as `doc` holds them.
pub open spec fn fields_of(doc: Value) -> RawFieldsView {
    RawFieldsView {
        timestamp: string_member(doc, "timestamp"@),
        kind: string_member(doc, "type"@),
        branch: string_member(doc, "branch"@),
        account: unsigned_member(doc, "account"@),
    }
}

/// The record that four members make, or the first of them that is missing.
pub open spec fn assembled(fields: RawFieldsView) -> Result<InputRecordView, Fault> {
    if fields.timestamp is None {
        Err(Fault::Timestamp)
    } else if fields.kind is None {
        Err(Fault::Kind)
    } else if fields.branch is None {
        Err(Fault::Branch)
    } else if fields.account is None {
        Err(Fault::Account)
    } else {
        Ok(
            InputRecordView {
                timestamp: fields.timestamp->0,
                kind: fields.kind->0,
                branch: fields.branch->0,
                account: fields.account->0,
            },
        )
    }
}

/// The record that a line decodes to, or what keeps it from being one.
pub open spec fn decoded(line: Seq<char>) -> Result<InputRecordView, Fault> {
    match parsed(line) {
        Some(doc) => assembled(fields_of(doc)),
        None => Err(Fault::Syntax),
    }
}

/// The words for a fault in the shape of a document.
pub open spec fn fault_text(fault: Fault) -> Seq<char> {
    match fault {
        Fault::Syntax => "not a JSON document"@,
        Fault::Timestamp => "no string member `timestamp`"@,
        Fault::Kind => "no string member `type`"@,
        Fault::Branch => "no string member `branch`"@,
        Fault::Account => "no unsigned integer member `account`"@,
    }
}

/// An output line from its two members, each already a JSON string literal.
pub open spec fn framed(timestamp: Seq<char>, branch_account: Seq<char>) -> Seq<char> {
    "{\"timestamp\":"@ + timestamp + ",\"branch_account\":"@ + branch_account + "}"@
}

/// The line that an output record encodes to. Where a member cannot be
/// written as a JSON string literal the line is empty.
pub open spec fn encoded(record: OutputRecordView) -> Seq<char> {
    match (quoted(record.timestamp), quoted(record.branch_account)) {
        (Some(timestamp), Some(branch_account)) => framed(timestamp, branch_account),
        _ => Seq::empty(),
    }
}

impl Fault {
    /// This fault in words.
    pub fn describe(self) -> (words: String)
        ensures
            words@ == fault_text(self),
    {
        match self {
            Fault::Syntax => "not a JSON document".to_owned(),
            Fault::Timestamp => "no string member `timestamp`".to_owned(),
            Fault::Kind => "no string member `type`".to_owned(),
            Fault::Branch => "no string member `branch`".to_owned(),
            Fault::Account => "no unsigned integer member `account`".to_owned(),
        }
    }
}

fn read_string(doc: &Value, key: &str) -> (r: Option<String>)
    ensures
        text_of(r) == string_member(*doc, key@),
{
    match get(doc, key) {
        Some(value) => match value.as_str() {
            Some(text) => Some(text.to_owned()),
            None => None,
        },
        None => None,
    }
}

fn read_unsigned(doc: &Value, key: &str) -> (r: Option<u64>)
    ensures
        r == unsigned_member(*doc, key@),
{
    match get(doc, key) {
        Some(value) => value.as_u64(),
        None => None,
    }
}

impl RawFields {
    /// Reads the four members of a record out of a document.
    pub(crate) fn read(doc: &Value) -> (fields: RawFields)
        ensures
            fields@ == fields_of(*doc),
    {
        RawFields {
            timestamp: read_string(doc, "timestamp"),
            kind: read_string(doc, "type"),
            branch: read_string(doc, "branch"),
            account: read_unsigned(doc, "account"),
        }
    }

    /// Makes the record of the four members, or names the first of them
    /// that is missing: never a record with a member left out.
    pub fn assemble(self) -> (r: Result<InputRecord, Fault>)
        ensures
            match r {
                Ok(record) => assembled(self@) == Ok::<InputRecordView, Fault>(record@),
                Err(fault) => assembled(self@) == Err::<InputRecordView, Fault>(fault),
            },
    {
        let RawFields { timestamp, kind, branch, account } = self;
        match timestamp {
            None => Err(Fault::Timestamp),
            Some(timestamp) => match kind {
                None => Err(Fault::Kind),
                Some(kind) => match branch {
                    None => Err(Fault::Branch),
                    Some(branch) => match account {
                        None => Err(Fault::Account),
                        Some(account) => Ok(InputRecord { timestamp, kind, branch, account }),
                    },
                },
            },
        }
    }
}

/// Decodes one line of the source file. The line must be one JSON object
/// with the string members `timestamp`, `type` and `branch` and the
/// unsigned integer member `account`; other members are passed over.
pub fn decode(line: &str) -> (r: Result<InputRecord, ParseError>)
    ensures
        match r {
            Ok(record) => decoded(line@) == Ok::<InputRecordView, Fault>(record@),
            Err(error) => {
                &&& decoded(line@) == Err::<InputRecordView, Fault>(error.fault)
                &&& error.line@ == line@
                &&& error.fault != Fault::Syntax ==> error.cause@ == fault_text(error.fault)
            },
        },
{
    match parse(line) {
        Err(error) => Err(
            ParseError { line: line.to_owned(), fault: Fault::Syntax, cause: message(&error) },
        ),
        Ok(doc) => match RawFields::read(&doc).assemble() {
            Ok(record) => Ok(record),
            Err(fault) => Err(
                ParseError { line: line.to_owned(), fault, cause: fault.describe() },
            ),
        },
    }
}

/// Puts the two members of an output line, each already a JSON string
/// literal, into the line's frame.
pub fn frame(timestamp: &str, branch_account: &str) -> (line: String)
    ensures
        line@ == framed(timestamp@, branch_account@),
{
    let mut line = "{\"timestamp\":".to_owned();
    line.append(timestamp);
    line.append(",\"branch_account\":");
    line.append(branch_account);
    line.append("}");
    line
}

/// The output line for two members as they came out of the JSON writer:
/// framed where both were written, empty where one was not.
pub fn line_of(timestamp: Option<String>, branch_account: Option<String>) -> (line: String)
    ensures
        line@ == match (timestamp, branch_account) {
            (Some(timestamp), Some(branch_account)) => framed(timestamp@, branch_account@),
            _ => Seq::empty(),
        },
{
    match (timestamp, branch_account) {
        (Some(timestamp), Some(branch_account)) => frame(
            timestamp.as_str(),
            branch_account.as_str(),
        ),
        _ => String::new(),
    }
}

fn literal(text: &str) -> (r: Option<String>)
    ensures
        text_of(r) == quoted(text@),
{
    match quote(text) {
        Ok(literal) => Some(literal),
        Err(_) => None,
    }
}

/// Encodes an output record as one line, without a line ending.
pub fn encode(record: &OutputRecord) -> (line: String)
    ensures
        line@ == encoded(record@),
{
    line_of(literal(record.timestamp.as_str()), literal(record.branch_account.as_str()))
}

} // verus!
