//! Pieces of syntax that the dialects share: blocks of `key: value` pairs,
//! variables, handles, `ON` clauses and metadata.
use vstd::prelude::*;

use crate::ast::{keys_distinct, opt_map, JsonMap, MapModel, OnClause};
use crate::escape::{parse_string_lit, string_lit};
use crate::json::{member_models, prefixed, value, value_exec, Json, MAX_DEPTH};
use crate::lexer::{
    ident, ident_exec, ident_here, ident_here_exec, keyword, keyword_exec, skip_ws, skip_ws_exec,
    symbol, symbol_exec,
};

verus! {

/// A key: an identifier or a quoted literal.
pub open spec fn map_key(s: Seq<char>, i: int) -> Option<(Seq<char>, int)> {
    match ident(s, i) {
        Some(x) => Some(x),
        None => string_lit(s, skip_ws(s, i)),
    }
}

/// `key: value` pairs separated by commas, from `i` up to and including the
/// character `close`.
pub open spec fn entries(s: Seq<char>, i: int, close: char) -> Option<(MapModel, int)>
    decreases s.len() - i,
{
    match map_key(s, i) {
        None => None,
        Some((k, j)) => match symbol(s, j, ':') {
            None => None,
            Some(j2) => match value(s, j2, MAX_DEPTH as nat) {
                None => None,
                Some((v, j3)) => match symbol(s, j3, ',') {
                    Some(e) => if i < e <= s.len() {
                        prefixed(seq![(k, v)], entries(s, e, close))
                    } else {
                        None
                    },
                    None => match symbol(s, j3, close) {
                        Some(e) => Some((seq![(k, v)], e)),
                        None => None,
                    },
                },
            },
        },
    }
}

/// Possibly no pairs, then `close`.
pub open spec fn entry_list(s: Seq<char>, i: int, close: char) -> Option<(MapModel, int)> {
    match symbol(s, i, close) {
        Some(e) => Some((seq![], e)),
        None => entries(s, i, close),
    }
}

/// `{ key: value, ... }` whose keys are all different.
pub open spec fn map_block(s: Seq<char>, i: int) -> Option<(MapModel, int)> {
    match symbol(s, i, '{') {
        Some(j) => match entry_list(s, j, '}') {
            Some((m, e)) => if keys_distinct(m) {
                Some((m, e))
            } else {
                None
            },
            None => None,
        },
        None => None,
    }
}

/// `?name` after blanks.
pub open spec fn variable(s: Seq<char>, i: int) -> Option<(Seq<char>, int)> {
    match symbol(s, i, '?') {
        Some(j) => ident_here(s, j),
        None => None,
    }
}

/// `@name` after blanks.
pub open spec fn handle(s: Seq<char>, i: int) -> Option<(Seq<char>, int)> {
    match symbol(s, i, '@') {
        Some(j) => ident_here(s, j),
        None => None,
    }
}

/// `ON { ... }` with at least one key.
pub open spec fn on_clause(s: Seq<char>, i: int) -> Option<(MapModel, int)> {
    match keyword(s, i, "ON"@) {
        Some(j) => match map_block(s, j) {
            Some((m, e)) => if m.len() > 0 {
                Some((m, e))
            } else {
                None
            },
            None => None,
        },
        None => None,
    }
}

/// `WORD1 WORD2 { ... }`, or nothing when that does not follow.
pub open spec fn opt_block(s: Seq<char>, i: int, w1: Seq<char>, w2: Seq<char>) -> (Option<MapModel>, int) {
    match keyword(s, i, w1) {
        Some(j) => match keyword(s, j, w2) {
            Some(k) => match map_block(s, k) {
                Some((m, e)) => (Some(m), e),
                None => (None, i),
            },
            None => (None, i),
        },
        None => (None, i),
    }
}

/// `WITH METADATA { ... }`, or nothing.
pub open spec fn opt_metadata(s: Seq<char>, i: int) -> (Option<MapModel>, int) {
    opt_block(s, i, "WITH"@, "METADATA"@)
}

fn map_key_exec(s: &Vec<char>, i: usize, far: &mut usize) -> (r: Option<(String, usize)>)
    requires
        i <= s.len(),
    ensures
        r matches Some((k, e)) ==> map_key(s@, i as int) == Some((k@, e as int)) && i < e <= s.len(),
        r is None ==> map_key(s@, i as int) is None,
{
    match ident_exec(s, i, far) {
        Some(x) => Some(x),
        None => {
            let j = skip_ws_exec(s, i);
            let r = parse_string_lit(s, j, far);
            proof {
                if r is Some {
                    crate::escape::lemma_string_lit_end(s@, j as int);
                }
            }
            r
        },
    }
}

/// Reads `key: value` pairs up to `close`.
fn entries_exec(s: &Vec<char>, i: usize, close: char, far: &mut usize) -> (r: Option<(Vec<(String, Json)>, usize)>)
    requires
        i <= s.len(),
    ensures
        r matches Some((m, e)) ==> entries(s@, i as int, close) == Some(
            (member_models(m@), e as int),
        ) && i < e <= s.len(),
        r is None ==> entries(s@, i as int, close) is None,
{
    let mut out: Vec<(String, Json)> = Vec::new();
    let mut pos = i;
    assert(member_models(out@) + seq![] =~= member_models(out@));
    loop
        invariant
            i <= pos <= s.len(),
            entries(s@, i as int, close) == prefixed(member_models(out@), entries(s@, pos as int, close)),
        decreases s.len() - pos,
    {
        let (k, j) = match map_key_exec(s, pos, far) {
            Some(x) => x,
            None => return None,
        };
        let j2 = match symbol_exec(s, j, ':', far) {
            Some(x) => x,
            None => return None,
        };
        let (v, j3) = match value_exec(s, j2, MAX_DEPTH, far) {
            Some(x) => x,
            None => return None,
        };
        let ghost before = out@;
        let ghost kv = (k@, v@);
        match symbol_exec(s, j3, ',', far) {
            Some(e) => {
                out.push((k, v));
                proof {
                    assert(member_models(out@) =~= member_models(before) + seq![kv]);
                    match entries(s@, e as int, close) {
                        Some((t, f)) => {
                            assert(member_models(before) + (seq![kv] + t) =~= member_models(out@)
                                + t);
                        },
                        None => {},
                    }
                }
                pos = e;
            },
            None => match symbol_exec(s, j3, close, far) {
                Some(e) => {
                    out.push((k, v));
                    assert(member_models(out@) =~= member_models(before) + seq![kv]);
                    return Some((out, e));
                },
                None => {
                    return None;
                },
            },
        }
    }
}

/// Reads possibly no pairs, then `close`.
pub fn entry_list_exec(s: &Vec<char>, i: usize, close: char, far: &mut usize) -> (r: Option<(Vec<(String, Json)>, usize)>)
    requires
        i <= s.len(),
    ensures
        r matches Some((m, e)) ==> entry_list(s@, i as int, close) == Some(
            (member_models(m@), e as int),
        ) && i < e <= s.len(),
        r is None ==> entry_list(s@, i as int, close) is None,
{
    match symbol_exec(s, i, close, far) {
        Some(e) => {
            let v: Vec<(String, Json)> = Vec::new();
            assert(member_models(v@) =~= seq![]);
            Some((v, e))
        },
        None => entries_exec(s, i, close, far),
    }
}

/// Whether the keys of the pairs are all different.
pub fn distinct_keys_exec(m: &Vec<(String, Json)>) -> (r: bool)
    ensures
        r == keys_distinct(member_models(m@)),
{
    let ghost mm = member_models(m@);
    let mut j: usize = 0;
    while j < m.len()
        invariant
            mm == member_models(m@),
            j <= m.len(),
            forall|a: int, b: int| 0 <= a < b < j ==> (#[trigger] mm[a]).0 != (#[trigger] mm[b]).0,
        decreases m.len() - j,
    {
        let mut a: usize = 0;
        while a < j
            invariant
                mm == member_models(m@),
                a <= j < m.len(),
                forall|x: int| 0 <= x < a ==> (#[trigger] mm[x]).0 != mm[j as int].0,
            decreases j - a,
        {
            if m[a].0 == m[j].0 {
                assert(mm[a as int].0 == mm[j as int].0);
                return false;
            }
            a = a + 1;
        }
        j = j + 1;
    }
    true
}

/// Reads `{ key: value, ... }`, refusing a key that occurs twice.
pub fn map_block_exec(s: &Vec<char>, i: usize, far: &mut usize) -> (r: Option<(JsonMap, usize)>)
    requires
        i <= s.len(),
    ensures
        r matches Some((m, e)) ==> map_block(s@, i as int) == Some((m@, e as int)) && i < e
            <= s.len(),
        r is None ==> map_block(s@, i as int) is None,
{
    let j = match symbol_exec(s, i, '{', far) {
        Some(j) => j,
        None => return None,
    };
    match entry_list_exec(s, j, '}', far) {
        Some((m, e)) => {
            if distinct_keys_exec(&m) {
                Some((JsonMap { entries: m }, e))
            } else {
                None
            }
        },
        None => None,
    }
}

/// Reads `?name`.
pub fn variable_exec(s: &Vec<char>, i: usize, far: &mut usize) -> (r: Option<(String, usize)>)
    requires
        i <= s.len(),
    ensures
        r matches Some((t, e)) ==> variable(s@, i as int) == Some((t@, e as int)) && i < e <= s.len(),
        r is None ==> variable(s@, i as int) is None,
{
    match symbol_exec(s, i, '?', far) {
        Some(j) => ident_here_exec(s, j, far),
        None => None,
    }
}

/// Reads `@name`.
pub fn handle_exec(s: &Vec<char>, i: usize, far: &mut usize) -> (r: Option<(String, usize)>)
    requires
        i <= s.len(),
    ensures
        r matches Some((t, e)) ==> handle(s@, i as int) == Some((t@, e as int)) && i < e <= s.len(),
        r is None ==> handle(s@, i as int) is None,
{
    match symbol_exec(s, i, '@', far) {
        Some(j) => ident_here_exec(s, j, far),
        None => None,
    }
}

/// Reads `ON { ... }`.
pub fn on_clause_exec(s: &Vec<char>, i: usize, far: &mut usize) -> (r: Option<(OnClause, usize)>)
    requires
        i <= s.len(),
    ensures
        r matches Some((c, e)) ==> on_clause(s@, i as int) == Some((c.keys@, e as int)) && i < e
            <= s.len(),
        r is None ==> on_clause(s@, i as int) is None,
{
    proof {
        reveal_strlit("ON");
    }
    let j = match keyword_exec(s, i, "ON", far) {
        Some(j) => j,
        None => return None,
    };
    match map_block_exec(s, j, far) {
        Some((m, e)) => {
            if m.len() > 0 {
                Some((OnClause { keys: m }, e))
            } else {
                None
            }
        },
        None => None,
    }
}

/// Reads `w1 w2 { ... }` when it follows; otherwise reads nothing.
pub fn opt_block_exec(s: &Vec<char>, i: usize, w1: &str, w2: &str, far: &mut usize) -> (r: (Option<JsonMap>, usize))
    requires
        i <= s.len(),
        w1@.len() > 0,
        w2@.len() > 0,
    ensures
        opt_block(s@, i as int, w1@, w2@) == (opt_map(r.0), r.1 as int),
        i <= r.1 <= s.len(),
        r.0 is Some ==> i < r.1,
{
    match keyword_exec(s, i, w1, far) {
        Some(j) => match keyword_exec(s, j, w2, far) {
            Some(k) => match map_block_exec(s, k, far) {
                Some((m, e)) => (Some(m), e),
                None => (None, i),
            },
            None => (None, i),
        },
        None => (None, i),
    }
}

/// Reads `WITH METADATA { ... }` when it follows.
pub fn opt_metadata_exec(s: &Vec<char>, i: usize, far: &mut usize) -> (r: (Option<JsonMap>, usize))
    requires
        i <= s.len(),
    ensures
        opt_metadata(s@, i as int) == (opt_map(r.0), r.1 as int),
        i <= r.1 <= s.len(),
        r.0 is Some ==> i < r.1,
{
    proof {
        reveal_strlit("WITH");
        reveal_strlit("METADATA");
    }
    opt_block_exec(s, i, "WITH", "METADATA", far)
}

} // verus!
