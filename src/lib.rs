//! Front end of the Knowledge Interaction Protocol (KIP): literals, the query,
//! manipulation and introspection grammars, and the field schema types.
use vstd::prelude::*;

pub mod ast;
pub mod balance;
pub mod common;
pub mod error;
pub mod escape;
pub mod field;
pub mod json;
pub mod kml;
pub mod kql;
pub mod lexer;
pub mod meta;
pub mod parser;
pub mod text;

pub use ast::{
    Command, ConceptBlock, DeleteBlock, DeleteItem, DescribeTarget, JsonMap, KmlStatement,
    KqlQuery, MetaCommand, OnClause, PropTarget, PropositionDecl, UpsertBlock, UpsertItem,
    WhereClause,
};
pub use error::{ErrorDetails, KipError};
pub use escape::{quote_str, unquote_str};
pub use field::{validate_field_name, FieldEntry, FieldType, FieldValue, SchemaError};
pub use json::Json;
pub use parser::{parse_json, parse_kip, parse_kml, parse_kql, parse_meta};

verus! {

} // verus!
