//! JSON values as the grammars produce them.
use vstd::prelude::*;

use crate::escape::{parse_string_lit, string_lit};
use crate::lexer::{keyword, keyword_exec, skip_ws, skip_ws_exec, symbol, symbol_exec};
use crate::text::slice_string;

verus! {

broadcast use vstd::std_specs::vec::group_vec_axioms;

/// A JSON value. A number keeps the literal as written, so that no precision
/// is lost; an object keeps its members in the order they were written.
#[derive(Debug, PartialEq)]
pub enum Json {
    Null,
    Bool(bool),
    Number(String),
    Str(String),
    Array(Vec<Json>),
    Object(Vec<(String, Json)>),
}

/// What a JSON value holds.
pub enum JsonModel {
    Null,
    Bool(bool),
    Number(Seq<char>),
    Str(Seq<char>),
    Array(Seq<JsonModel>),
    Object(Seq<(Seq<char>, JsonModel)>),
}

impl View for Json {
    type V = JsonModel;

    open spec fn view(&self) -> JsonModel
        decreases self,
    {
        match self {
            Json::Null => JsonModel::Null,
            Json::Bool(b) => JsonModel::Bool(*b),
            Json::Number(n) => JsonModel::Number(n@),
            Json::Str(s) => JsonModel::Str(s@),
            Json::Array(v) => JsonModel::Array(
                Seq::new(
                    v.len() as nat,
                    |i: int|
                        if 0 <= i < v.len() {
                            v[i].view()
                        } else {
                            JsonModel::Null
                        },
                ),
            ),
            Json::Object(v) => {
                let vals = Seq::new(
                    v.len() as nat,
                    |i: int|
                        if 0 <= i < v.len() {
                            v[i].1.view()
                        } else {
                            JsonModel::Null
                        },
                );
                JsonModel::Object(Seq::new(v.len() as nat, |i: int| (v[i].0@, vals[i])))
            },
        }
    }
}

/// How deeply arrays, objects and blocks may nest.
pub const MAX_DEPTH: usize = 64;

/// Puts the items `acc` in front of the items of a parse result.
pub open spec fn prefixed<A>(acc: Seq<A>, r: Option<(Seq<A>, int)>) -> Option<(Seq<A>, int)> {
    match r {
        Some((t, k)) => Some((acc + t, k)),
        None => None,
    }
}

/// A decimal digit.
pub open spec fn is_digit(c: char) -> bool {
    '0' <= c && c <= '9'
}

/// Whether a digit stands at `i`.
pub open spec fn digit_at(s: Seq<char>, i: int) -> bool {
    0 <= i < s.len() && is_digit(s[i])
}

/// The end of the run of digits from `i`.
pub open spec fn digits_end(s: Seq<char>, i: int) -> int
    decreases s.len() - i,
{
    if digit_at(s, i) {
        digits_end(s, i + 1)
    } else {
        i
    }
}

/// The end of the number literal that starts at `i`: an optional minus, an
/// integer part without leading zeros, an optional fraction and an optional
/// exponent.
pub open spec fn number_end(s: Seq<char>, i: int) -> Option<int> {
    let int_start = if 0 <= i < s.len() && s[i] == '-' {
        i + 1
    } else {
        i
    };
    let int_end = if digit_at(s, int_start) && s[int_start] == '0' {
        Some(int_start + 1)
    } else if digit_at(s, int_start) {
        Some(digits_end(s, int_start + 1))
    } else {
        None
    };
    match int_end {
        None => None,
        Some(int_end) => {
            let frac_end = if 0 <= int_end < s.len() && s[int_end] == '.' {
                if digit_at(s, int_end + 1) {
                    Some(digits_end(s, int_end + 2))
                } else {
                    None
                }
            } else {
                Some(int_end)
            };
            match frac_end {
                None => None,
                Some(frac_end) => if 0 <= frac_end < s.len() && (s[frac_end] == 'e' || s[frac_end] == 'E') {
                    let q = if frac_end + 1 < s.len() && (s[frac_end + 1] == '+' || s[frac_end + 1] == '-') {
                        frac_end + 2
                    } else {
                        frac_end + 1
                    };
                    if digit_at(s, q) {
                        Some(digits_end(s, q + 1))
                    } else {
                        None
                    }
                } else {
                    Some(frac_end)
                },
            }
        },
    }
}

/// A JSON value after blanks, with at most `d` levels of nesting below it.
pub open spec fn value(s: Seq<char>, i: int, d: nat) -> Option<(JsonModel, int)>
    decreases d, s.len() - i, 0int,
{
    let j = skip_ws(s, i);
    if j < 0 || j >= s.len() {
        None
    } else if s[j] == '"' {
        match string_lit(s, j) {
            Some((t, k)) => Some((JsonModel::Str(t), k)),
            None => None,
        }
    } else if s[j] == '[' {
        if d == 0 {
            None
        } else {
            match symbol(s, j + 1, ']') {
                Some(k) => Some((JsonModel::Array(seq![]), k)),
                None => match elements(s, j + 1, (d - 1) as nat) {
                    Some((vs, k)) => Some((JsonModel::Array(vs), k)),
                    None => None,
                },
            }
        }
    } else if s[j] == '{' {
        if d == 0 {
            None
        } else {
            match symbol(s, j + 1, '}') {
                Some(k) => Some((JsonModel::Object(seq![]), k)),
                None => match members(s, j + 1, (d - 1) as nat) {
                    Some((ms, k)) => Some((JsonModel::Object(ms), k)),
                    None => None,
                },
            }
        }
    } else if s[j] == 't' {
        match keyword(s, j, "true"@) {
            Some(k) => Some((JsonModel::Bool(true), k)),
            None => None,
        }
    } else if s[j] == 'f' {
        match keyword(s, j, "false"@) {
            Some(k) => Some((JsonModel::Bool(false), k)),
            None => None,
        }
    } else if s[j] == 'n' {
        match keyword(s, j, "null"@) {
            Some(k) => Some((JsonModel::Null, k)),
            None => None,
        }
    } else {
        match number_end(s, j) {
            Some(k) => Some((JsonModel::Number(s.subrange(j, k)), k)),
            None => None,
        }
    }
}

/// The elements of an array from `i` up to and including its closing
/// bracket: values separated by commas.
pub open spec fn elements(s: Seq<char>, i: int, d: nat) -> Option<(Seq<JsonModel>, int)>
    decreases d, s.len() - i, 1int,
{
    match value(s, i, d) {
        None => None,
        Some((v, j)) => match symbol(s, j, ',') {
            Some(k) => if i < k <= s.len() {
                prefixed(seq![v], elements(s, k, d))
            } else {
                None
            },
            None => match symbol(s, j, ']') {
                Some(k) => Some((seq![v], k)),
                None => None,
            },
        },
    }
}

/// The members of an object from `i` up to and including its closing brace:
/// `"key": value` pairs separated by commas.
pub open spec fn members(s: Seq<char>, i: int, d: nat) -> Option<(Seq<(Seq<char>, JsonModel)>, int)>
    decreases d, s.len() - i, 1int,
{
    match string_lit(s, skip_ws(s, i)) {
        None => None,
        Some((key, j)) => match symbol(s, j, ':') {
            None => None,
            Some(j2) => if i < j2 <= s.len() {
                match value(s, j2, d) {
                    None => None,
                    Some((v, j3)) => match symbol(s, j3, ',') {
                        Some(k) => if i < k <= s.len() {
                            prefixed(seq![(key, v)], members(s, k, d))
                        } else {
                            None
                        },
                        None => match symbol(s, j3, '}') {
                            Some(k) => Some((seq![(key, v)], k)),
                            None => None,
                        },
                    },
                }
            } else {
                None
            },
        },
    }
}

/// A whole text that is one JSON value, with blanks and comments around it.
pub open spec fn json_document(s: Seq<char>) -> Option<JsonModel> {
    match value(s, 0, MAX_DEPTH as nat) {
        Some((v, k)) => if skip_ws(s, k) == s.len() {
            Some(v)
        } else {
            None
        },
        None => None,
    }
}

proof fn lemma_object_model(ms: Vec<(String, Json)>)
    ensures
        Json::Object(ms)@ == JsonModel::Object(member_models(ms@)),
{
    let r = Json::Object(ms);
    assert(r@ is Object);
    let inner = r@->Object_0;
    assert(inner.len() == ms.len());
    assert(forall|m: int| 0 <= m < ms.len() ==> inner[m] == (ms[m].0@, ms[m].1@));
    assert(inner =~= member_models(ms@));
}

/// The models of a sequence of values.
pub open spec fn models(v: Seq<Json>) -> Seq<JsonModel> {
    Seq::new(v.len(), |k: int| v[k]@)
}

/// The models of a sequence of members.
pub open spec fn member_models(v: Seq<(String, Json)>) -> Seq<(Seq<char>, JsonModel)> {
    Seq::new(v.len(), |k: int| (v[k].0@, v[k].1@))
}

fn digits_end_exec(s: &Vec<char>, i: usize) -> (r: usize)
    requires
        i <= s.len(),
    ensures
        r == digits_end(s@, i as int),
        i <= r <= s.len(),
{
    let mut k = i;
    while k < s.len() && '0' <= s[k] && s[k] <= '9'
        invariant
            i <= k <= s.len(),
            digits_end(s@, k as int) == digits_end(s@, i as int),
        decreases s.len() - k,
    {
        k = k + 1;
    }
    k
}

fn digit_at_exec(s: &Vec<char>, i: usize) -> (r: bool)
    ensures
        r == digit_at(s@, i as int),
{
    i < s.len() && '0' <= s[i] && s[i] <= '9'
}

fn number_end_exec(s: &Vec<char>, i: usize) -> (r: Option<usize>)
    requires
        i <= s.len(),
    ensures
        r matches Some(k) ==> number_end(s@, i as int) == Some(k as int) && i < k <= s.len(),
        r is None ==> number_end(s@, i as int) is None,
{
    let int_start = if i < s.len() && s[i] == '-' {
        i + 1
    } else {
        i
    };
    let int_end = if digit_at_exec(s, int_start) && s[int_start] == '0' {
        int_start + 1
    } else if digit_at_exec(s, int_start) {
        digits_end_exec(s, int_start + 1)
    } else {
        return None;
    };
    let frac_end = if int_end < s.len() && s[int_end] == '.' {
        if digit_at_exec(s, int_end + 1) {
            digits_end_exec(s, int_end + 2)
        } else {
            return None;
        }
    } else {
        int_end
    };
    if frac_end < s.len() && (s[frac_end] == 'e' || s[frac_end] == 'E') {
        let q = if frac_end + 1 < s.len() && (s[frac_end + 1] == '+' || s[frac_end + 1] == '-') {
            frac_end + 2
        } else {
            frac_end + 1
        };
        if digit_at_exec(s, q) {
            Some(digits_end_exec(s, q + 1))
        } else {
            None
        }
    } else {
        Some(frac_end)
    }
}

/// Reads a JSON value after blanks, with at most `d` levels of nesting.
pub fn value_exec(s: &Vec<char>, i: usize, d: usize, far: &mut usize) -> (r: Option<(Json, usize)>)
    requires
        i <= s.len(),
    ensures
        r matches Some((v, k)) ==> value(s@, i as int, d as nat) == Some((v@, k as int)) && i < k
            <= s.len(),
        r is None ==> value(s@, i as int, d as nat) is None,
    decreases d, s.len() - i, 0int,
{
    let j = skip_ws_exec(s, i);
    crate::lexer::note_position(far, j);
    if j >= s.len() {
        return None;
    }
    let c = s[j];
    if c == '"' {
        match parse_string_lit(s, j, far) {
            Some((t, k)) => {
                proof {
                    crate::escape::lemma_string_lit_end(s@, j as int);
                }
                Some((Json::Str(t), k))
            },
            None => None,
        }
    } else if c == '[' {
        if d == 0 {
            return None;
        }
        match symbol_exec(s, j + 1, ']', far) {
            Some(k) => {
                let v: Vec<Json> = Vec::new();
                let r = Json::Array(v);
                assert(r@->Array_0 =~= seq![]);
                Some((r, k))
            },
            None => match elements_exec(s, j + 1, d - 1, far) {
                Some((vs, k)) => {
                    let r = Json::Array(vs);
                    assert(r@->Array_0 =~= models(vs@));
                    Some((r, k))
                },
                None => None,
            },
        }
    } else if c == '{' {
        if d == 0 {
            return None;
        }
        match symbol_exec(s, j + 1, '}', far) {
            Some(k) => {
                let v: Vec<(String, Json)> = Vec::new();
                let r = Json::Object(v);
                assert(r@->Object_0 =~= seq![]);
                Some((r, k))
            },
            None => match members_exec(s, j + 1, d - 1, far) {
                Some((ms, k)) => {
                    let r = Json::Object(ms);
                    proof {
                        lemma_object_model(ms);
                    }
                    Some((r, k))
                },
                None => None,
            },
        }
    } else if c == 't' {
        proof {
            reveal_strlit("true");
        }
        match keyword_exec(s, j, "true", far) {
            Some(k) => Some((Json::Bool(true), k)),
            None => None,
        }
    } else if c == 'f' {
        proof {
            reveal_strlit("false");
        }
        match keyword_exec(s, j, "false", far) {
            Some(k) => Some((Json::Bool(false), k)),
            None => None,
        }
    } else if c == 'n' {
        proof {
            reveal_strlit("null");
        }
        match keyword_exec(s, j, "null", far) {
            Some(k) => Some((Json::Null, k)),
            None => None,
        }
    } else {
        match number_end_exec(s, j) {
            Some(k) => Some((Json::Number(slice_string(s, j, k)), k)),
            None => None,
        }
    }
}

fn elements_exec(s: &Vec<char>, i: usize, d: usize, far: &mut usize) -> (r: Option<(Vec<Json>, usize)>)
    requires
        i <= s.len(),
    ensures
        r matches Some((vs, k)) ==> elements(s@, i as int, d as nat) == Some((models(vs@), k as int))
            && i < k <= s.len(),
        r is None ==> elements(s@, i as int, d as nat) is None,
    decreases d, s.len() - i, 1int,
{
    let mut out: Vec<Json> = Vec::new();
    let mut pos = i;
    assert(models(out@) + seq![] =~= models(out@));
    loop
        invariant
            i <= pos <= s.len(),
            elements(s@, i as int, d as nat) == prefixed(models(out@), elements(s@, pos as int, d as nat)),
        decreases s.len() - pos,
    {
        let (v, j) = match value_exec(s, pos, d, far) {
            Some(x) => x,
            None => return None,
        };
        let ghost before = out@;
        match symbol_exec(s, j, ',', far) {
            Some(k) => {
                out.push(v);
                proof {
                    assert(models(out@) =~= models(before) + seq![v@]);
                    match elements(s@, k as int, d as nat) {
                        Some((t, e)) => {
                            assert(models(before) + (seq![v@] + t) =~= models(out@) + t);
                        },
                        None => {},
                    }
                }
                pos = k;
            },
            None => match symbol_exec(s, j, ']', far) {
                Some(k) => {
                    out.push(v);
                    assert(models(out@) =~= models(before) + seq![v@]);
                    return Some((out, k));
                },
                None => {
                    return None;
                },
            },
        }
    }
}

fn members_exec(s: &Vec<char>, i: usize, d: usize, far: &mut usize) -> (r: Option<(Vec<(String, Json)>, usize)>)
    requires
        i <= s.len(),
    ensures
        r matches Some((ms, k)) ==> members(s@, i as int, d as nat) == Some(
            (member_models(ms@), k as int),
        ) && i < k <= s.len(),
        r is None ==> members(s@, i as int, d as nat) is None,
    decreases d, s.len() - i, 1int,
{
    let mut out: Vec<(String, Json)> = Vec::new();
    let mut pos = i;
    assert(member_models(out@) + seq![] =~= member_models(out@));
    loop
        invariant
            i <= pos <= s.len(),
            members(s@, i as int, d as nat) == prefixed(
                member_models(out@),
                members(s@, pos as int, d as nat),
            ),
        decreases s.len() - pos,
    {
        let p = skip_ws_exec(s, pos);
        let (key, j) = match parse_string_lit(s, p, far) {
            Some(x) => x,
            None => return None,
        };
        proof {
            crate::escape::lemma_string_lit_end(s@, p as int);
        }
        let j2 = match symbol_exec(s, j, ':', far) {
            Some(x) => x,
            None => return None,
        };
        let (v, j3) = match value_exec(s, j2, d, far) {
            Some(x) => x,
            None => return None,
        };
        let ghost before = out@;
        let ghost kv = (key@, v@);
        match symbol_exec(s, j3, ',', far) {
            Some(k) => {
                out.push((key, v));
                proof {
                    assert(member_models(out@) =~= member_models(before) + seq![kv]);
                    match members(s@, k as int, d as nat) {
                        Some((t, e)) => {
                            assert(member_models(before) + (seq![kv] + t) =~= member_models(out@)
                                + t);
                        },
                        None => {},
                    }
                }
                pos = k;
            },
            None => match symbol_exec(s, j3, '}', far) {
                Some(k) => {
                    out.push((key, v));
                    assert(member_models(out@) =~= member_models(before) + seq![kv]);
                    return Some((out, k));
                },
                None => {
                    return None;
                },
            },
        }
    }
}

} // verus!
