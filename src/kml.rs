//! The manipulation dialect: `UPSERT` and `DELETE` statements.
use vstd::prelude::*;

use crate::ast::{
    lemma_views_push, views, ConceptBlock, ConceptModel, DeleteBlock, DeleteItem,
    KmlModel, KmlStatement, MapModel, PropModel, PropTarget, PropositionDecl, TargetModel,
    UpsertBlock, UpsertItem,
};
use crate::common::{
    handle, handle_exec, on_clause, on_clause_exec, opt_block, opt_block_exec, opt_metadata,
    opt_metadata_exec,
};
use crate::escape::{parse_string_lit, string_lit};
use crate::json::prefixed;
use crate::lexer::{keyword, keyword_exec, skip_ws, skip_ws_exec, symbol, symbol_exec};

verus! {

/// The object of a proposition: `ON { ... }` or `@handle`.
pub open spec fn target(s: Seq<char>, i: int) -> Option<(TargetModel, int)> {
    match on_clause(s, i) {
        Some((m, e)) => Some((TargetModel::On(m), e)),
        None => match handle(s, i) {
            Some((h, e)) => Some((TargetModel::Handle(h), e)),
            None => None,
        },
    }
}

/// `PROP("relation", target)` and its optional metadata.
pub open spec fn prop(s: Seq<char>, i: int) -> Option<(PropModel, int)> {
    match keyword(s, i, "PROP"@) {
        None => None,
        Some(j1) => match symbol(s, j1, '(') {
            None => None,
            Some(j2) => match string_lit(s, skip_ws(s, j2)) {
                None => None,
                Some((rel, j3)) => match symbol(s, j3, ',') {
                    None => None,
                    Some(j4) => match target(s, j4) {
                        None => None,
                        Some((t, j5)) => match symbol(s, j5, ')') {
                            None => None,
                            Some(j6) => {
                                let (md, e) = opt_metadata(s, j6);
                                Some((PropModel { relation: rel, target: t, metadata: md }, e))
                            },
                        },
                    },
                },
            },
        },
    }
}

/// One or more propositions, then `}`.
pub open spec fn props(s: Seq<char>, i: int) -> Option<(Seq<PropModel>, int)>
    decreases s.len() - i,
{
    match prop(s, i) {
        None => None,
        Some((p, j)) => match symbol(s, j, '}') {
            Some(e) => Some((seq![p], e)),
            None => if i < j <= s.len() {
                prefixed(seq![p], props(s, j))
            } else {
                None
            },
        },
    }
}

/// `SET PROPOSITIONS { ... }`, or nothing.
pub open spec fn opt_propositions(s: Seq<char>, i: int) -> (Option<Seq<PropModel>>, int) {
    match keyword(s, i, "SET"@) {
        Some(j) => match keyword(s, j, "PROPOSITIONS"@) {
            Some(k) => match symbol(s, k, '{') {
                Some(l) => match props(s, l) {
                    Some((ps, e)) => (Some(ps), e),
                    None => (None, i),
                },
                None => (None, i),
            },
            None => (None, i),
        },
        None => (None, i),
    }
}

/// `CONCEPT @handle { ON {...} [WITH METADATA {...}] [SET ATTRIBUTES {...}]
/// [SET PROPOSITIONS {...}] }`.
pub open spec fn concept(s: Seq<char>, i: int) -> Option<(ConceptModel, int)> {
    match keyword(s, i, "CONCEPT"@) {
        None => None,
        Some(j1) => match handle(s, j1) {
            None => None,
            Some((h, j2)) => match symbol(s, j2, '{') {
                None => None,
                Some(j3) => match on_clause(s, j3) {
                    None => None,
                    Some((on, j4)) => {
                        let (md, j5) = opt_metadata(s, j4);
                        let (attrs, j6) = opt_block(s, j5, "SET"@, "ATTRIBUTES"@);
                        let (ps, j7) = opt_propositions(s, j6);
                        match symbol(s, j7, '}') {
                            None => None,
                            Some(e) => Some(
                                (
                                    ConceptModel {
                                        handle: h,
                                        on,
                                        metadata: md,
                                        set_attributes: attrs,
                                        set_propositions: ps,
                                    },
                                    e,
                                ),
                            ),
                        }
                    },
                },
            },
        },
    }
}

/// One or more concepts, then `}`.
pub open spec fn concepts(s: Seq<char>, i: int) -> Option<(Seq<ConceptModel>, int)>
    decreases s.len() - i,
{
    match concept(s, i) {
        None => None,
        Some((c, j)) => match symbol(s, j, '}') {
            Some(e) => Some((seq![c], e)),
            None => if i < j <= s.len() {
                prefixed(seq![c], concepts(s, j))
            } else {
                None
            },
        },
    }
}

/// One or more `CONCEPT ON { ... }`, then `}`.
pub open spec fn delete_items(s: Seq<char>, i: int) -> Option<(Seq<MapModel>, int)>
    decreases s.len() - i,
{
    match keyword(s, i, "CONCEPT"@) {
        None => None,
        Some(j) => match on_clause(s, j) {
            None => None,
            Some((m, k)) => match symbol(s, k, '}') {
                Some(e) => Some((seq![m], e)),
                None => if i < k <= s.len() {
                    prefixed(seq![m], delete_items(s, k))
                } else {
                    None
                },
            },
        },
    }
}

/// An `UPSERT` or a `DELETE` statement.
pub open spec fn kml(s: Seq<char>, i: int) -> Option<(KmlModel, int)> {
    match keyword(s, i, "UPSERT"@) {
        Some(j) => match symbol(s, j, '{') {
            Some(k) => match concepts(s, k) {
                Some((items, l)) => {
                    let (md, e) = opt_metadata(s, l);
                    Some((KmlModel::Upsert { items, metadata: md }, e))
                },
                None => None,
            },
            None => None,
        },
        None => match keyword(s, i, "DELETE"@) {
            Some(j) => match symbol(s, j, '{') {
                Some(k) => match delete_items(s, k) {
                    Some((items, e)) => Some((KmlModel::Delete { items }, e)),
                    None => None,
                },
                None => None,
            },
            None => None,
        },
    }
}

fn target_exec(s: &Vec<char>, i: usize, far: &mut usize) -> (r: Option<(PropTarget, usize)>)
    requires
        i <= s.len(),
    ensures
        r matches Some((t, e)) ==> target(s@, i as int) == Some((t@, e as int)) && i < e <= s.len(),
        r is None ==> target(s@, i as int) is None,
{
    match on_clause_exec(s, i, far) {
        Some((c, e)) => Some((PropTarget::On(c), e)),
        None => match handle_exec(s, i, far) {
            Some((h, e)) => Some((PropTarget::Handle(h), e)),
            None => None,
        },
    }
}

fn prop_exec(s: &Vec<char>, i: usize, far: &mut usize) -> (r: Option<(PropositionDecl, usize)>)
    requires
        i <= s.len(),
    ensures
        r matches Some((p, e)) ==> prop(s@, i as int) == Some((p@, e as int)) && i < e <= s.len(),
        r is None ==> prop(s@, i as int) is None,
{
    proof {
        reveal_strlit("PROP");
    }
    let j1 = match keyword_exec(s, i, "PROP", far) {
        Some(x) => x,
        None => return None,
    };
    let j2 = match symbol_exec(s, j1, '(', far) {
        Some(x) => x,
        None => return None,
    };
    let p = skip_ws_exec(s, j2);
    let (rel, j3) = match parse_string_lit(s, p, far) {
        Some(x) => x,
        None => return None,
    };
    proof {
        crate::escape::lemma_string_lit_end(s@, p as int);
    }
    let j4 = match symbol_exec(s, j3, ',', far) {
        Some(x) => x,
        None => return None,
    };
    let (t, j5) = match target_exec(s, j4, far) {
        Some(x) => x,
        None => return None,
    };
    let j6 = match symbol_exec(s, j5, ')', far) {
        Some(x) => x,
        None => return None,
    };
    let (md, e) = opt_metadata_exec(s, j6, far);
    Some((PropositionDecl { relation: rel, target: t, metadata: md }, e))
}

fn props_exec(s: &Vec<char>, i: usize, far: &mut usize) -> (r: Option<(Vec<PropositionDecl>, usize)>)
    requires
        i <= s.len(),
    ensures
        r matches Some((ps, e)) ==> props(s@, i as int) == Some((views(ps@), e as int)) && i < e
            <= s.len(),
        r is None ==> props(s@, i as int) is None,
{
    let mut out: Vec<PropositionDecl> = Vec::new();
    let mut pos = i;
    assert(views(out@) + seq![] =~= views(out@));
    loop
        invariant
            i <= pos <= s.len(),
            props(s@, i as int) == prefixed(views(out@), props(s@, pos as int)),
        decreases s.len() - pos,
    {
        let (p, j) = match prop_exec(s, pos, far) {
            Some(x) => x,
            None => return None,
        };
        let ghost before = out@;
        let ghost pm = p@;
        proof {
            lemma_views_push(before, p);
        }
        match symbol_exec(s, j, '}', far) {
            Some(e) => {
                out.push(p);
                return Some((out, e));
            },
            None => {
                out.push(p);
                proof {
                    match props(s@, j as int) {
                        Some((t, f)) => {
                            assert(views(before) + (seq![pm] + t) =~= views(out@) + t);
                        },
                        None => {},
                    }
                }
                pos = j;
            },
        }
    }
}

fn opt_propositions_exec(s: &Vec<char>, i: usize, far: &mut usize) -> (r: (Option<Vec<PropositionDecl>>, usize))
    requires
        i <= s.len(),
    ensures
        opt_propositions(s@, i as int) == (
            match r.0 {
                Some(v) => Some(views(v@)),
                None => None,
            },
            r.1 as int,
        ),
        i <= r.1 <= s.len(),
{
    proof {
        reveal_strlit("SET");
        reveal_strlit("PROPOSITIONS");
    }
    match keyword_exec(s, i, "SET", far) {
        Some(j) => match keyword_exec(s, j, "PROPOSITIONS", far) {
            Some(k) => match symbol_exec(s, k, '{', far) {
                Some(l) => match props_exec(s, l, far) {
                    Some((ps, e)) => (Some(ps), e),
                    None => (None, i),
                },
                None => (None, i),
            },
            None => (None, i),
        },
        None => (None, i),
    }
}

fn concept_exec(s: &Vec<char>, i: usize, far: &mut usize) -> (r: Option<(ConceptBlock, usize)>)
    requires
        i <= s.len(),
    ensures
        r matches Some((c, e)) ==> concept(s@, i as int) == Some((c@, e as int)) && i < e <= s.len(),
        r is None ==> concept(s@, i as int) is None,
{
    proof {
        reveal_strlit("CONCEPT");
        reveal_strlit("SET");
        reveal_strlit("ATTRIBUTES");
    }
    let j1 = match keyword_exec(s, i, "CONCEPT", far) {
        Some(x) => x,
        None => return None,
    };
    let (h, j2) = match handle_exec(s, j1, far) {
        Some(x) => x,
        None => return None,
    };
    let j3 = match symbol_exec(s, j2, '{', far) {
        Some(x) => x,
        None => return None,
    };
    let (on, j4) = match on_clause_exec(s, j3, far) {
        Some(x) => x,
        None => return None,
    };
    let (md, j5) = opt_metadata_exec(s, j4, far);
    let (attrs, j6) = opt_block_exec(s, j5, "SET", "ATTRIBUTES", far);
    let (ps, j7) = opt_propositions_exec(s, j6, far);
    match symbol_exec(s, j7, '}', far) {
        None => None,
        Some(e) => Some(
            (
                ConceptBlock {
                    handle: h,
                    on,
                    metadata: md,
                    set_attributes: attrs,
                    set_propositions: ps,
                },
                e,
            ),
        ),
    }
}

fn concepts_exec(s: &Vec<char>, i: usize, far: &mut usize) -> (r: Option<(Vec<UpsertItem>, usize)>)
    requires
        i <= s.len(),
    ensures
        r matches Some((cs, e)) ==> concepts(s@, i as int) == Some((views(cs@), e as int)) && i < e
            <= s.len(),
        r is None ==> concepts(s@, i as int) is None,
{
    let mut out: Vec<UpsertItem> = Vec::new();
    let mut pos = i;
    assert(views(out@) + seq![] =~= views(out@));
    loop
        invariant
            i <= pos <= s.len(),
            concepts(s@, i as int) == prefixed(views(out@), concepts(s@, pos as int)),
        decreases s.len() - pos,
    {
        let (c, j) = match concept_exec(s, pos, far) {
            Some(x) => x,
            None => return None,
        };
        let item = UpsertItem::Concept(c);
        let ghost before = out@;
        let ghost cm = item@;
        proof {
            lemma_views_push(before, item);
        }
        match symbol_exec(s, j, '}', far) {
            Some(e) => {
                out.push(item);
                return Some((out, e));
            },
            None => {
                out.push(item);
                proof {
                    match concepts(s@, j as int) {
                        Some((t, f)) => {
                            assert(views(before) + (seq![cm] + t) =~= views(out@) + t);
                        },
                        None => {},
                    }
                }
                pos = j;
            },
        }
    }
}

fn delete_items_exec(s: &Vec<char>, i: usize, far: &mut usize) -> (r: Option<(Vec<DeleteItem>, usize)>)
    requires
        i <= s.len(),
    ensures
        r matches Some((ds, e)) ==> delete_items(s@, i as int) == Some((views(ds@), e as int)) && i
            < e <= s.len(),
        r is None ==> delete_items(s@, i as int) is None,
{
    proof {
        reveal_strlit("CONCEPT");
    }
    let mut out: Vec<DeleteItem> = Vec::new();
    let mut pos = i;
    assert(views(out@) + seq![] =~= views(out@));
    loop
        invariant
            i <= pos <= s.len(),
            delete_items(s@, i as int) == prefixed(views(out@), delete_items(s@, pos as int)),
        decreases s.len() - pos,
    {
        proof {
            reveal_strlit("CONCEPT");
        }
        let j = match keyword_exec(s, pos, "CONCEPT", far) {
            Some(x) => x,
            None => return None,
        };
        let (c, k) = match on_clause_exec(s, j, far) {
            Some(x) => x,
            None => return None,
        };
        let item = DeleteItem::Concept(c);
        let ghost before = out@;
        let ghost cm = item@;
        proof {
            lemma_views_push(before, item);
        }
        match symbol_exec(s, k, '}', far) {
            Some(e) => {
                out.push(item);
                return Some((out, e));
            },
            None => {
                out.push(item);
                proof {
                    match delete_items(s@, k as int) {
                        Some((t, f)) => {
                            assert(views(before) + (seq![cm] + t) =~= views(out@) + t);
                        },
                        None => {},
                    }
                }
                pos = k;
            },
        }
    }
}

/// Reads an `UPSERT` or a `DELETE` statement.
pub fn kml_exec(s: &Vec<char>, i: usize, far: &mut usize) -> (r: Option<(KmlStatement, usize)>)
    requires
        i <= s.len(),
    ensures
        r matches Some((k, e)) ==> kml(s@, i as int) == Some((k@, e as int)) && i < e <= s.len(),
        r is None ==> kml(s@, i as int) is None,
{
    proof {
        reveal_strlit("UPSERT");
        reveal_strlit("DELETE");
    }
    match keyword_exec(s, i, "UPSERT", far) {
        Some(j) => match symbol_exec(s, j, '{', far) {
            Some(k) => match concepts_exec(s, k, far) {
                Some((items, l)) => {
                    let (md, e) = opt_metadata_exec(s, l, far);
                    Some((KmlStatement::Upsert(UpsertBlock { items, metadata: md }), e))
                },
                None => None,
            },
            None => None,
        },
        None => match keyword_exec(s, i, "DELETE", far) {
            Some(j) => match symbol_exec(s, j, '{', far) {
                Some(k) => match delete_items_exec(s, k, far) {
                    Some((items, e)) => Some((KmlStatement::Delete(DeleteBlock { items }), e)),
                    None => None,
                },
                None => None,
            },
            None => None,
        },
    }
}

} // verus!
