//! The query dialect: `FIND(...) WHERE { ... }`.
use vstd::prelude::*;

use crate::ast::{
    keys_distinct, lemma_views_push, views, ClauseModel, JsonMap, KqlModel, KqlQuery, WhereClause,
};
use crate::common::{entry_list, entry_list_exec, variable, variable_exec};
use crate::escape::{parse_string_lit, string_lit};
use crate::json::prefixed;
use crate::lexer::{keyword, keyword_exec, skip_ws, skip_ws_exec, symbol, symbol_exec};

verus! {

/// Variables separated by commas, then `)`.
pub open spec fn var_list(s: Seq<char>, i: int) -> Option<(Seq<Seq<char>>, int)>
    decreases s.len() - i,
{
    match variable(s, i) {
        None => None,
        Some((v, j)) => match symbol(s, j, ')') {
            Some(e) => Some((seq![v], e)),
            None => match symbol(s, j, ',') {
                Some(k) => if i < k <= s.len() {
                    prefixed(seq![v], var_list(s, k))
                } else {
                    None
                },
                None => None,
            },
        },
    }
}

/// `ATTR(?node, "name", ?value)` or `?var(key: value, ...)`.
pub open spec fn clause(s: Seq<char>, i: int) -> Option<(ClauseModel, int)> {
    match keyword(s, i, "ATTR"@) {
        Some(j1) => match symbol(s, j1, '(') {
            None => None,
            Some(j2) => match variable(s, j2) {
                None => None,
                Some((node, j3)) => match symbol(s, j3, ',') {
                    None => None,
                    Some(j4) => match string_lit(s, skip_ws(s, j4)) {
                        None => None,
                        Some((attr, j5)) => match symbol(s, j5, ',') {
                            None => None,
                            Some(j6) => match variable(s, j6) {
                                None => None,
                                Some((val, j7)) => match symbol(s, j7, ')') {
                                    None => None,
                                    Some(e) => Some(
                                        (
                                            ClauseModel::Attr {
                                                node,
                                                attribute: attr,
                                                value: val,
                                            },
                                            e,
                                        ),
                                    ),
                                },
                            },
                        },
                    },
                },
            },
        },
        None => match variable(s, i) {
            None => None,
            Some((var, j)) => match symbol(s, j, '(') {
                None => None,
                Some(k) => match entry_list(s, k, ')') {
                    Some((m, e)) => if keys_distinct(m) {
                        Some((ClauseModel::Pattern { var, filter: m }, e))
                    } else {
                        None
                    },
                    None => None,
                },
            },
        },
    }
}

/// One or more clauses, then `}`.
pub open spec fn clauses(s: Seq<char>, i: int) -> Option<(Seq<ClauseModel>, int)>
    decreases s.len() - i,
{
    match clause(s, i) {
        None => None,
        Some((c, j)) => match symbol(s, j, '}') {
            Some(e) => Some((seq![c], e)),
            None => if i < j <= s.len() {
                prefixed(seq![c], clauses(s, j))
            } else {
                None
            },
        },
    }
}

/// `FIND(?a, ...) WHERE { clause ... }`.
pub open spec fn kql(s: Seq<char>, i: int) -> Option<(KqlModel, int)> {
    match keyword(s, i, "FIND"@) {
        None => None,
        Some(j1) => match symbol(s, j1, '(') {
            None => None,
            Some(j2) => match var_list(s, j2) {
                None => None,
                Some((find, j3)) => match keyword(s, j3, "WHERE"@) {
                    None => None,
                    Some(j4) => match symbol(s, j4, '{') {
                        None => None,
                        Some(j5) => match clauses(s, j5) {
                            None => None,
                            Some((cs, e)) => Some((KqlModel { find, clauses: cs }, e)),
                        },
                    },
                },
            },
        },
    }
}

fn var_list_exec(s: &Vec<char>, i: usize, far: &mut usize) -> (r: Option<(Vec<String>, usize)>)
    requires
        i <= s.len(),
    ensures
        r matches Some((vs, e)) ==> var_list(s@, i as int) == Some((views(vs@), e as int)) && i < e
            <= s.len(),
        r is None ==> var_list(s@, i as int) is None,
{
    let mut out: Vec<String> = Vec::new();
    let mut pos = i;
    assert(views(out@) + seq![] =~= views(out@));
    loop
        invariant
            i <= pos <= s.len(),
            var_list(s@, i as int) == prefixed(views(out@), var_list(s@, pos as int)),
        decreases s.len() - pos,
    {
        let (v, j) = match variable_exec(s, pos, far) {
            Some(x) => x,
            None => return None,
        };
        let ghost before = out@;
        let ghost vm = v@;
        proof {
            lemma_views_push(before, v);
        }
        match symbol_exec(s, j, ')', far) {
            Some(e) => {
                out.push(v);
                return Some((out, e));
            },
            None => match symbol_exec(s, j, ',', far) {
                Some(k) => {
                    out.push(v);
                    proof {
                        match var_list(s@, k as int) {
                            Some((t, f)) => {
                                assert(views(before) + (seq![vm] + t) =~= views(out@) + t);
                            },
                            None => {},
                        }
                    }
                    pos = k;
                },
                None => {
                    return None;
                },
            },
        }
    }
}

fn clause_exec(s: &Vec<char>, i: usize, far: &mut usize) -> (r: Option<(WhereClause, usize)>)
    requires
        i <= s.len(),
    ensures
        r matches Some((c, e)) ==> clause(s@, i as int) == Some((c@, e as int)) && i < e <= s.len(),
        r is None ==> clause(s@, i as int) is None,
{
    proof {
        reveal_strlit("ATTR");
    }
    match keyword_exec(s, i, "ATTR", far) {
        Some(j1) => {
            let j2 = match symbol_exec(s, j1, '(', far) {
                Some(x) => x,
                None => return None,
            };
            let (node, j3) = match variable_exec(s, j2, far) {
                Some(x) => x,
                None => return None,
            };
            let j4 = match symbol_exec(s, j3, ',', far) {
                Some(x) => x,
                None => return None,
            };
            let p = skip_ws_exec(s, j4);
            let (attr, j5) = match parse_string_lit(s, p, far) {
                Some(x) => x,
                None => return None,
            };
            proof {
                crate::escape::lemma_string_lit_end(s@, p as int);
            }
            let j6 = match symbol_exec(s, j5, ',', far) {
                Some(x) => x,
                None => return None,
            };
            let (val, j7) = match variable_exec(s, j6, far) {
                Some(x) => x,
                None => return None,
            };
            match symbol_exec(s, j7, ')', far) {
                Some(e) => Some((WhereClause::Attr { node, attribute: attr, value: val }, e)),
                None => None,
            }
        },
        None => {
            let (var, j) = match variable_exec(s, i, far) {
                Some(x) => x,
                None => return None,
            };
            let k = match symbol_exec(s, j, '(', far) {
                Some(x) => x,
                None => return None,
            };
            match entry_list_exec(s, k, ')', far) {
                Some((m, e)) => {
                    if crate::common::distinct_keys_exec(&m) {
                        Some((WhereClause::Pattern { var, filter: JsonMap { entries: m } }, e))
                    } else {
                        None
                    }
                },
                None => None,
            }
        },
    }
}

fn clauses_exec(s: &Vec<char>, i: usize, far: &mut usize) -> (r: Option<(Vec<WhereClause>, usize)>)
    requires
        i <= s.len(),
    ensures
        r matches Some((cs, e)) ==> clauses(s@, i as int) == Some((views(cs@), e as int)) && i < e
            <= s.len(),
        r is None ==> clauses(s@, i as int) is None,
{
    let mut out: Vec<WhereClause> = Vec::new();
    let mut pos = i;
    assert(views(out@) + seq![] =~= views(out@));
    loop
        invariant
            i <= pos <= s.len(),
            clauses(s@, i as int) == prefixed(views(out@), clauses(s@, pos as int)),
        decreases s.len() - pos,
    {
        let (c, j) = match clause_exec(s, pos, far) {
            Some(x) => x,
            None => return None,
        };
        let ghost before = out@;
        let ghost cm = c@;
        proof {
            lemma_views_push(before, c);
        }
        match symbol_exec(s, j, '}', far) {
            Some(e) => {
                out.push(c);
                return Some((out, e));
            },
            None => {
                out.push(c);
                proof {
                    match clauses(s@, j as int) {
                        Some((t, f)) => {
                            assert(views(before) + (seq![cm] + t) =~= views(out@) + t);
                        },
                        None => {},
                    }
                }
                pos = j;
            },
        }
    }
}

/// Reads a `FIND ... WHERE { ... }` query.
pub fn kql_exec(s: &Vec<char>, i: usize, far: &mut usize) -> (r: Option<(KqlQuery, usize)>)
    requires
        i <= s.len(),
    ensures
        r matches Some((q, e)) ==> kql(s@, i as int) == Some((q@, e as int)) && i < e <= s.len(),
        r is None ==> kql(s@, i as int) is None,
{
    proof {
        reveal_strlit("FIND");
        reveal_strlit("WHERE");
    }
    let j1 = match keyword_exec(s, i, "FIND", far) {
        Some(x) => x,
        None => return None,
    };
    let j2 = match symbol_exec(s, j1, '(', far) {
        Some(x) => x,
        None => return None,
    };
    let (find, j3) = match var_list_exec(s, j2, far) {
        Some(x) => x,
        None => return None,
    };
    let j4 = match keyword_exec(s, j3, "WHERE", far) {
        Some(x) => x,
        None => return None,
    };
    let j5 = match symbol_exec(s, j4, '{', far) {
        Some(x) => x,
        None => return None,
    };
    match clauses_exec(s, j5, far) {
        Some((cs, e)) => Some((KqlQuery { find, clauses: cs }, e)),
        None => None,
    }
}

} // verus!
