//! Entry points: a command of any dialect, a command of one dialect, or a
//! standalone JSON value, each read from the whole of a text.
use vstd::prelude::*;

use crate::ast::{Command, CommandModel, DescribeModel, KmlModel, KmlStatement, KqlModel, KqlQuery, MetaCommand};
use crate::error::KipError;
use crate::json::{json_document, value_exec, Json, MAX_DEPTH};
use crate::kml::{kml, kml_exec};
use crate::kql::{kql, kql_exec};
use crate::lexer::{skip_ws, skip_ws_exec};
use crate::meta::{meta, meta_exec};
use crate::text::chars_of;

verus! {

/// The result of a rule read from the start of `s`, when only blanks and
/// comments follow it.
pub open spec fn complete<T>(s: Seq<char>, r: Option<(T, int)>) -> Option<T> {
    match r {
        Some((v, k)) => if skip_ws(s, k) == s.len() {
            Some(v)
        } else {
            None
        },
        None => None,
    }
}

/// The whole text as a query.
pub open spec fn kql_document(s: Seq<char>) -> Option<KqlModel> {
    complete(s, kql(s, 0))
}

/// The whole text as a manipulation statement.
pub open spec fn kml_document(s: Seq<char>) -> Option<KmlModel> {
    complete(s, kml(s, 0))
}

/// The whole text as an introspection command.
pub open spec fn meta_document(s: Seq<char>) -> Option<DescribeModel> {
    complete(s, meta(s, 0))
}

/// The whole text as a command: the first dialect, in the order query,
/// manipulation, introspection, that reads a command from its start; then
/// only blanks and comments may follow.
pub open spec fn command(s: Seq<char>) -> Option<CommandModel> {
    match kql(s, 0) {
        Some((q, k)) => if skip_ws(s, k) == s.len() {
            Some(CommandModel::Kql(q))
        } else {
            None
        },
        None => match kml(s, 0) {
            Some((m, k)) => if skip_ws(s, k) == s.len() {
                Some(CommandModel::Kml(m))
            } else {
                None
            },
            None => match meta(s, 0) {
                Some((d, k)) => if skip_ws(s, k) == s.len() {
                    Some(CommandModel::Meta(d))
                } else {
                    None
                },
                None => None,
            },
        },
    }
}

/// A text that reads as a query is taken as a query, whatever else it might
/// read as; and when a query reads from its start, no other dialect is tried.
pub proof fn lemma_query_first(s: Seq<char>)
    requires
        kql(s, 0) is Some,
    ensures
        command(s) matches Some(c) ==> c is Kql,
        kql_document(s) matches Some(q) ==> command(s) == Some(CommandModel::Kql(q)),
{
}

/// A manipulation statement is taken as such exactly when no query reads
/// from the start of the text.
pub proof fn lemma_statement_second(s: Seq<char>)
    requires
        kql(s, 0) is None,
    ensures
        kml_document(s) matches Some(m) ==> command(s) == Some(CommandModel::Kml(m)),
{
}

/// A command is taken as a manipulation statement only when the whole text
/// reads as one.
pub proof fn lemma_command_statement(s: Seq<char>)
    ensures
        command(s) matches Some(CommandModel::Kml(m)) ==> kml_document(s) == Some(m),
{
}

/// Input left after a command, other than blanks and comments, makes the
/// whole text fail, though the command before it is valid.
pub proof fn lemma_trailing_input(s: Seq<char>)
    requires
        kql(s, 0) matches Some((q, k)) && skip_ws(s, k) < s.len(),
    ensures
        kql_document(s) is None,
        command(s) is None,
{
}

/// Relies on `format!`: a message that names where unread input starts.
#[verifier::external_body]
fn trailing_message(at: usize) -> String {
    format!("unexpected input at offset {}", at)
}

/// Relies on `format!`: a message that names what could not be read and
/// the furthest position where reading it failed.
#[verifier::external_body]
fn invalid_message(what: &str, at: usize) -> String {
    format!("invalid {} at offset {}", what, at)
}

/// The error for a command that ends at `k`, before the end of the text.
fn trailing_error(k: usize) -> (r: KipError)
    ensures
        r is Parse,
{
    KipError::Parse(trailing_message(k))
}

/// The error for a text from which no command reads; `far` is the furthest
/// position where a reader looked for what comes next.
fn failure_error(what: &str, far: usize) -> (r: KipError)
    ensures
        r is Parse,
{
    KipError::Parse(invalid_message(what, far))
}

/// Reads a command of any dialect from the whole text: a query if one reads,
/// else a manipulation statement, else an introspection command.
pub fn parse_kip(input: &str) -> (r: Result<Command, KipError>)
    ensures
        r is Ok <==> command(input@) is Some,
        r matches Ok(c) ==> command(input@) == Some(c@),
        r matches Err(e) ==> e is Parse,
{
    let s = chars_of(input);
    let mut far: usize = 0;
    if let Some((q, k)) = kql_exec(&s, 0, &mut far) {
        let e = skip_ws_exec(&s, k);
        if e == s.len() {
            return Ok(Command::Kql(q));
        }
        return Err(trailing_error(e));
    }
    if let Some((m, k)) = kml_exec(&s, 0, &mut far) {
        let e = skip_ws_exec(&s, k);
        if e == s.len() {
            return Ok(Command::Kml(m));
        }
        return Err(trailing_error(e));
    }
    if let Some((d, k)) = meta_exec(&s, 0, &mut far) {
        let e = skip_ws_exec(&s, k);
        if e == s.len() {
            return Ok(Command::Meta(d));
        }
        return Err(trailing_error(e));
    }
    Err(failure_error("KIP command", far))
}

/// Reads a query from the whole text.
pub fn parse_kql(input: &str) -> (r: Result<KqlQuery, KipError>)
    ensures
        r is Ok <==> kql_document(input@) is Some,
        r matches Ok(q) ==> kql_document(input@) == Some(q@),
        r matches Err(e) ==> e is Parse,
{
    let s = chars_of(input);
    let mut far: usize = 0;
    match kql_exec(&s, 0, &mut far) {
        Some((q, k)) => {
            let e = skip_ws_exec(&s, k);
            if e == s.len() {
                Ok(q)
            } else {
                Err(trailing_error(e))
            }
        },
        None => Err(failure_error("KQL query", far)),
    }
}

/// Reads a manipulation statement from the whole text.
pub fn parse_kml(input: &str) -> (r: Result<KmlStatement, KipError>)
    ensures
        r is Ok <==> kml_document(input@) is Some,
        r matches Ok(m) ==> kml_document(input@) == Some(m@),
        r matches Err(e) ==> e is Parse,
{
    let s = chars_of(input);
    let mut far: usize = 0;
    match kml_exec(&s, 0, &mut far) {
        Some((m, k)) => {
            let e = skip_ws_exec(&s, k);
            if e == s.len() {
                Ok(m)
            } else {
                Err(trailing_error(e))
            }
        },
        None => Err(failure_error("KML statement", far)),
    }
}

/// Reads an introspection command from the whole text.
pub fn parse_meta(input: &str) -> (r: Result<MetaCommand, KipError>)
    ensures
        r is Ok <==> meta_document(input@) is Some,
        r matches Ok(m) ==> meta_document(input@) == Some(m@),
        r matches Err(e) ==> e is Parse,
{
    let s = chars_of(input);
    let mut far: usize = 0;
    match meta_exec(&s, 0, &mut far) {
        Some((m, k)) => {
            let e = skip_ws_exec(&s, k);
            if e == s.len() {
                Ok(m)
            } else {
                Err(trailing_error(e))
            }
        },
        None => Err(failure_error("META command", far)),
    }
}

/// Reads one JSON value from the whole text.
pub fn parse_json(input: &str) -> (r: Result<Json, KipError>)
    ensures
        r is Ok <==> json_document(input@) is Some,
        r matches Ok(v) ==> json_document(input@) == Some(v@),
        r matches Err(e) ==> e is Parse,
{
    let s = chars_of(input);
    let mut far: usize = 0;
    match value_exec(&s, 0, MAX_DEPTH, &mut far) {
        Some((v, k)) => {
            let e = skip_ws_exec(&s, k);
            if e == s.len() {
                Ok(v)
            } else {
                Err(trailing_error(e))
            }
        },
        None => Err(failure_error("JSON value", far)),
    }
}

} // verus!
