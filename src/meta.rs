//! The introspection dialect: `DESCRIBE ...`.
use vstd::prelude::*;

use crate::ast::{DescribeModel, DescribeTarget, MetaCommand};
use crate::escape::{parse_string_lit, string_lit};
use crate::lexer::{keyword, keyword_exec, skip_ws, skip_ws_exec};

verus! {

/// `TYPES`, or `TYPE "name"`, after `CONCEPT` or `PROPOSITION`: whether all
/// types are described, or the one named.
pub open spec fn type_target(s: Seq<char>, i: int) -> Option<(Option<Seq<char>>, int)> {
    match keyword(s, i, "TYPES"@) {
        Some(e) => Some((None, e)),
        None => match keyword(s, i, "TYPE"@) {
            Some(j) => match string_lit(s, skip_ws(s, j)) {
                Some((n, e)) => Some((Some(n), e)),
                None => None,
            },
            None => None,
        },
    }
}

/// `DESCRIBE PRIMER`, `DESCRIBE DOMAINS`, `DESCRIBE CONCEPT TYPES`,
/// `DESCRIBE CONCEPT TYPE "name"`, `DESCRIBE PROPOSITION TYPES` or
/// `DESCRIBE PROPOSITION TYPE "name"`.
pub open spec fn meta(s: Seq<char>, i: int) -> Option<(DescribeModel, int)> {
    match keyword(s, i, "DESCRIBE"@) {
        None => None,
        Some(j) => match keyword(s, j, "PRIMER"@) {
            Some(e) => Some((DescribeModel::Primer, e)),
            None => match keyword(s, j, "DOMAINS"@) {
                Some(e) => Some((DescribeModel::Domains, e)),
                None => match keyword(s, j, "CONCEPT"@) {
                    Some(k) => match type_target(s, k) {
                        Some((None, e)) => Some((DescribeModel::ConceptTypes, e)),
                        Some((Some(n), e)) => Some((DescribeModel::ConceptType(n), e)),
                        None => None,
                    },
                    None => match keyword(s, j, "PROPOSITION"@) {
                        Some(k) => match type_target(s, k) {
                            Some((None, e)) => Some((DescribeModel::PropositionTypes, e)),
                            Some((Some(n), e)) => Some((DescribeModel::PropositionType(n), e)),
                            None => None,
                        },
                        None => None,
                    },
                },
            },
        },
    }
}

fn type_target_exec(s: &Vec<char>, i: usize, far: &mut usize) -> (r: Option<(Option<String>, usize)>)
    requires
        i <= s.len(),
    ensures
        r matches Some((n, e)) ==> type_target(s@, i as int) == Some(
            (
                match n {
                    Some(t) => Some(t@),
                    None => None,
                },
                e as int,
            ),
        ) && i < e <= s.len(),
        r is None ==> type_target(s@, i as int) is None,
{
    proof {
        reveal_strlit("TYPES");
        reveal_strlit("TYPE");
    }
    match keyword_exec(s, i, "TYPES", far) {
        Some(e) => Some((None, e)),
        None => match keyword_exec(s, i, "TYPE", far) {
            Some(j) => {
                let p = skip_ws_exec(s, j);
                match parse_string_lit(s, p, far) {
                    Some((n, e)) => {
                        proof {
                            crate::escape::lemma_string_lit_end(s@, p as int);
                        }
                        Some((Some(n), e))
                    },
                    None => None,
                }
            },
            None => None,
        },
    }
}

/// Reads a `DESCRIBE` command.
pub fn meta_exec(s: &Vec<char>, i: usize, far: &mut usize) -> (r: Option<(MetaCommand, usize)>)
    requires
        i <= s.len(),
    ensures
        r matches Some((m, e)) ==> meta(s@, i as int) == Some((m@, e as int)) && i < e <= s.len(),
        r is None ==> meta(s@, i as int) is None,
{
    proof {
        reveal_strlit("DESCRIBE");
        reveal_strlit("PRIMER");
        reveal_strlit("DOMAINS");
        reveal_strlit("CONCEPT");
        reveal_strlit("PROPOSITION");
    }
    let j = match keyword_exec(s, i, "DESCRIBE", far) {
        Some(x) => x,
        None => return None,
    };
    let t = if let Some(e) = keyword_exec(s, j, "PRIMER", far) {
        (DescribeTarget::Primer, e)
    } else if let Some(e) = keyword_exec(s, j, "DOMAINS", far) {
        (DescribeTarget::Domains, e)
    } else if let Some(k) = keyword_exec(s, j, "CONCEPT", far) {
        match type_target_exec(s, k, far) {
            Some((None, e)) => (DescribeTarget::ConceptTypes, e),
            Some((Some(n), e)) => (DescribeTarget::ConceptType(n), e),
            None => return None,
        }
    } else if let Some(k) = keyword_exec(s, j, "PROPOSITION", far) {
        match type_target_exec(s, k, far) {
            Some((None, e)) => (DescribeTarget::PropositionTypes, e),
            Some((Some(n), e)) => (DescribeTarget::PropositionType(n), e),
            None => return None,
        }
    } else {
        return None;
    };
    Some((MetaCommand::Describe(t.0), t.1))
}

} // verus!
