//! Braces in a statement balance: every text that reads as a manipulation
//! statement has as many `{` as `}` outside string literals and comments.
use vstd::prelude::*;

use crate::common::{
    entries, entry_list, handle, map_block, map_key, on_clause, opt_block, opt_metadata,
};
use crate::escape::{lemma_string_lit_end, string_lit};
use crate::json::{
    digit_at, digits_end, elements, is_digit, members, number_end, value,
};
use crate::kml::{concept, concepts, delete_items, kml, opt_propositions, prop, props, target};
use crate::lexer::{
    ident, ident_end, ident_here, is_ident_char, is_ws, keyword, lemma_skip_ws_bounds, line_end,
    skip_ws, symbol,
};
use crate::json::MAX_DEPTH;
use crate::parser::{command, kml_document, lemma_command_statement};

verus! {

/// A character that is neither blank, nor a brace, nor able to start a
/// comment or a string literal.
pub open spec fn is_plain(c: char) -> bool {
    !is_ws(c) && c != '/' && c != '"' && c != '{' && c != '}'
}

/// What a character adds to the count of open braces.
pub open spec fn brace_delta(c: char) -> int {
    if c == '{' {
        1
    } else if c == '}' {
        -1
    } else {
        0
    }
}

/// Opening minus closing braces from `i` to the end of the text; blanks,
/// comments and string literals count as units that hold no braces.
#[verifier::opaque]
pub open spec fn brace_net(s: Seq<char>, i: int) -> int
    decreases s.len() - i,
{
    if i < 0 || i >= s.len() {
        0
    } else if is_ws(s[i]) {
        brace_net(s, i + 1)
    } else if i + 1 < s.len() && s[i] == '/' && s[i + 1] == '/' {
        let e = line_end(s, i + 2);
        if i < e <= s.len() {
            brace_net(s, e)
        } else {
            0
        }
    } else if s[i] == '"' {
        match string_lit(s, i) {
            Some((t, k)) => if i < k <= s.len() {
                brace_net(s, k)
            } else {
                0
            },
            None => 0,
        }
    } else {
        brace_net(s, i + 1) + brace_delta(s[i])
    }
}

proof fn lemma_ws(s: Seq<char>, i: int)
    requires
        0 <= i <= s.len(),
    ensures
        brace_net(s, i) == brace_net(s, skip_ws(s, i)),
    decreases s.len() - i,
{
    reveal(brace_net);
    if i < s.len() && is_ws(s[i]) {
        lemma_ws(s, i + 1);
    } else if i + 1 < s.len() && s[i] == '/' && s[i + 1] == '/' {
        let e = line_end(s, i + 2);
        if i < e <= s.len() {
            lemma_ws(s, e);
        }
    }
}

proof fn lemma_step(s: Seq<char>, i: int)
    requires
        0 <= i < s.len(),
        !is_ws(s[i]),
        s[i] != '/',
        s[i] != '"',
    ensures
        brace_net(s, i) == brace_net(s, i + 1) + brace_delta(s[i]),
{
    reveal(brace_net);
}

proof fn lemma_end(s: Seq<char>)
    ensures
        brace_net(s, s.len() as int) == 0,
{
    reveal(brace_net);
}

proof fn lemma_plain(s: Seq<char>, i: int, e: int)
    requires
        0 <= i <= e <= s.len(),
        forall|m: int| i <= m < e ==> is_plain(#[trigger] s[m]),
    ensures
        brace_net(s, i) == brace_net(s, e),
    decreases e - i,
{
    reveal(brace_net);
    if i < e {
        assert(is_plain(s[i]));
        lemma_plain(s, i + 1, e);
    }
}

proof fn lemma_symbol(s: Seq<char>, i: int, c: char)
    requires
        0 <= i <= s.len(),
        symbol(s, i, c) is Some,
        !is_ws(c),
        c != '/',
        c != '"',
    ensures
        symbol(s, i, c) matches Some(k) && brace_net(s, i) == brace_net(s, k) + brace_delta(c)
            && i < k <= s.len(),
{
    reveal(brace_net);
    lemma_ws(s, i);
    lemma_skip_ws_bounds(s, i);
}

proof fn lemma_keyword(s: Seq<char>, i: int, kw: Seq<char>)
    requires
        0 <= i <= s.len(),
        keyword(s, i, kw) is Some,
        forall|m: int| 0 <= m < kw.len() ==> is_plain(#[trigger] kw[m]),
    ensures
        keyword(s, i, kw) matches Some(k) && brace_net(s, i) == brace_net(s, k) && i <= k
            <= s.len(),
{
    lemma_ws(s, i);
    lemma_skip_ws_bounds(s, i);
    let j = skip_ws(s, i);
    let e = j + kw.len();
    assert forall|m: int| j <= m < e implies is_plain(#[trigger] s[m]) by {
        assert(s.subrange(j, e)[m - j] == kw[m - j]);
    }
    lemma_plain(s, j, e);
}

proof fn lemma_ident_end(s: Seq<char>, i: int)
    requires
        0 <= i <= s.len(),
    ensures
        i <= ident_end(s, i) <= s.len(),
        forall|m: int| i <= m < ident_end(s, i) ==> is_ident_char(#[trigger] s[m]),
    decreases s.len() - i,
{
    if i < s.len() && is_ident_char(s[i]) {
        lemma_ident_end(s, i + 1);
    }
}

proof fn lemma_ident_here(s: Seq<char>, i: int)
    requires
        0 <= i <= s.len(),
        ident_here(s, i) is Some,
    ensures
        ident_here(s, i) matches Some((t, k)) && brace_net(s, i) == brace_net(s, k) && i <= k
            <= s.len(),
{
    lemma_ident_end(s, i + 1);
    let e = ident_end(s, i + 1);
    assert forall|m: int| i <= m < e implies is_plain(#[trigger] s[m]) by {
        if m > i {
            assert(is_ident_char(s[m]));
        }
    }
    lemma_plain(s, i, e);
}

proof fn lemma_string(s: Seq<char>, i: int)
    requires
        0 <= i <= s.len(),
        string_lit(s, i) is Some,
    ensures
        string_lit(s, i) matches Some((t, k)) && brace_net(s, i) == brace_net(s, k) && i < k
            <= s.len(),
{
    reveal(brace_net);
    lemma_string_lit_end(s, i);
}

proof fn lemma_digits(s: Seq<char>, i: int)
    requires
        0 <= i <= s.len(),
    ensures
        i <= digits_end(s, i) <= s.len(),
        forall|m: int| i <= m < digits_end(s, i) ==> is_digit(#[trigger] s[m]),
    decreases s.len() - i,
{
    if digit_at(s, i) {
        lemma_digits(s, i + 1);
    }
}

proof fn lemma_number(s: Seq<char>, i: int)
    requires
        0 <= i <= s.len(),
        number_end(s, i) is Some,
    ensures
        number_end(s, i) matches Some(k) && brace_net(s, i) == brace_net(s, k) && i <= k
            <= s.len(),
{
    let int_start = if i < s.len() && s[i] == '-' {
        i + 1
    } else {
        i
    };
    lemma_plain(s, i, int_start);
    let int_end = if digit_at(s, int_start) && s[int_start] == '0' {
        int_start + 1
    } else {
        digits_end(s, int_start + 1)
    };
    lemma_digits(s, int_start + 1);
    assert forall|m: int| int_start <= m < int_end implies is_plain(#[trigger] s[m]) by {
        if m > int_start {
            assert(is_digit(s[m]));
        }
    }
    lemma_plain(s, int_start, int_end);
    let frac_end = if int_end < s.len() && s[int_end] == '.' {
        digits_end(s, int_end + 2)
    } else {
        int_end
    };
    if int_end < s.len() && s[int_end] == '.' {
        lemma_digits(s, int_end + 2);
        assert forall|m: int| int_end <= m < frac_end implies is_plain(#[trigger] s[m]) by {
            if m > int_end + 1 {
                assert(is_digit(s[m]));
            }
        }
    }
    lemma_plain(s, int_end, frac_end);
    if frac_end < s.len() && (s[frac_end] == 'e' || s[frac_end] == 'E') {
        let q = if frac_end + 1 < s.len() && (s[frac_end + 1] == '+' || s[frac_end + 1] == '-') {
            frac_end + 2
        } else {
            frac_end + 1
        };
        lemma_digits(s, q + 1);
        let e = digits_end(s, q + 1);
        assert forall|m: int| frac_end <= m < e implies is_plain(#[trigger] s[m]) by {
            if m > q {
                assert(is_digit(s[m]));
            }
        }
        lemma_plain(s, frac_end, e);
    }
}

proof fn lemma_plain_word(kw: Seq<char>)
    requires
        forall|m: int| 0 <= m < kw.len() ==> is_ident_char(#[trigger] kw[m]),
    ensures
        forall|m: int| 0 <= m < kw.len() ==> is_plain(#[trigger] kw[m]),
{
    assert forall|m: int| 0 <= m < kw.len() implies is_plain(#[trigger] kw[m]) by {
        assert(is_ident_char(kw[m]));
    }
}

proof fn lemma_value(s: Seq<char>, i: int, d: nat)
    requires
        0 <= i <= s.len(),
        value(s, i, d) is Some,
    ensures
        value(s, i, d) matches Some((v, k)) && brace_net(s, i) == brace_net(s, k) && i <= k
            <= s.len(),
    decreases d, s.len() - i, 0int,
{
    lemma_ws(s, i);
    lemma_skip_ws_bounds(s, i);
    let j = skip_ws(s, i);
    if s[j] == '"' {
        lemma_string(s, j);
    } else if s[j] == '[' {
        lemma_step(s, j);
        if let Some(k) = symbol(s, j + 1, ']') {
            lemma_symbol(s, j + 1, ']');
        } else {
            lemma_elements(s, j + 1, (d - 1) as nat);
        }
    } else if s[j] == '{' {
        lemma_step(s, j);
        if let Some(k) = symbol(s, j + 1, '}') {
            lemma_symbol(s, j + 1, '}');
        } else {
            lemma_members(s, j + 1, (d - 1) as nat);
        }
    } else if s[j] == 't' {
        reveal_strlit("true");
        lemma_plain_word("true"@);
        lemma_keyword(s, j, "true"@);
    } else if s[j] == 'f' {
        reveal_strlit("false");
        lemma_plain_word("false"@);
        lemma_keyword(s, j, "false"@);
    } else if s[j] == 'n' {
        reveal_strlit("null");
        lemma_plain_word("null"@);
        lemma_keyword(s, j, "null"@);
    } else {
        lemma_number(s, j);
    }
}

proof fn lemma_elements(s: Seq<char>, i: int, d: nat)
    requires
        0 <= i <= s.len(),
        elements(s, i, d) is Some,
    ensures
        elements(s, i, d) matches Some((v, k)) && brace_net(s, i) == brace_net(s, k) && i <= k
            <= s.len(),
    decreases d, s.len() - i, 1int,
{
    lemma_value(s, i, d);
    let j = match value(s, i, d) {
        Some((_, k)) => k,
        None => 0,
    };
    if let Some(k) = symbol(s, j, ',') {
        lemma_symbol(s, j, ',');
        lemma_elements(s, k, d);
    } else {
        lemma_symbol(s, j, ']');
    }
}

proof fn lemma_members(s: Seq<char>, i: int, d: nat)
    requires
        0 <= i <= s.len(),
        members(s, i, d) is Some,
    ensures
        members(s, i, d) matches Some((v, k)) && brace_net(s, i) == brace_net(s, k) - 1 && i <= k
            <= s.len(),
    decreases d, s.len() - i, 1int,
{
    lemma_ws(s, i);
    lemma_skip_ws_bounds(s, i);
    let p = skip_ws(s, i);
    lemma_string(s, p);
    let j = match string_lit(s, p) {
        Some((_, k)) => k,
        None => 0,
    };
    lemma_symbol(s, j, ':');
    let j2 = match symbol(s, j, ':') {
        Some(k) => k,
        None => 0,
    };
    lemma_value(s, j2, d);
    let j3 = match value(s, j2, d) {
        Some((_, k)) => k,
        None => 0,
    };
    if let Some(k) = symbol(s, j3, ',') {
        lemma_symbol(s, j3, ',');
        lemma_members(s, k, d);
    } else {
        lemma_symbol(s, j3, '}');
    }
}

/// A word made of identifier characters only.
#[verifier::opaque]
pub open spec fn is_word(kw: Seq<char>) -> bool {
    forall|m: int| 0 <= m < kw.len() ==> is_ident_char(#[trigger] kw[m])
}

proof fn lemma_keywords_are_words()
    ensures
        is_word("ON"@),
        is_word("WITH"@),
        is_word("METADATA"@),
        is_word("PROP"@),
        is_word("SET"@),
        is_word("PROPOSITIONS"@),
        is_word("ATTRIBUTES"@),
        is_word("CONCEPT"@),
        is_word("UPSERT"@),
        is_word("DELETE"@),
{
    reveal(is_word);
    reveal_strlit("ON");
    reveal_strlit("WITH");
    reveal_strlit("METADATA");
    reveal_strlit("PROP");
    reveal_strlit("SET");
    reveal_strlit("PROPOSITIONS");
    reveal_strlit("ATTRIBUTES");
    reveal_strlit("CONCEPT");
    reveal_strlit("UPSERT");
    reveal_strlit("DELETE");
}

proof fn lemma_word(s: Seq<char>, i: int, kw: Seq<char>)
    requires
        0 <= i <= s.len(),
        keyword(s, i, kw) is Some,
        is_word(kw),
    ensures
        keyword(s, i, kw) matches Some(k) && brace_net(s, i) == brace_net(s, k) && i <= k
            <= s.len(),
{
    reveal(is_word);
    lemma_plain_word(kw);
    lemma_keyword(s, i, kw);
}

proof fn lemma_map_key(s: Seq<char>, i: int)
    requires
        0 <= i <= s.len(),
        map_key(s, i) is Some,
    ensures
        map_key(s, i) matches Some((t, k)) && brace_net(s, i) == brace_net(s, k) && i <= k
            <= s.len(),
{
    lemma_ws(s, i);
    lemma_skip_ws_bounds(s, i);
    let j = skip_ws(s, i);
    if ident(s, i) is Some {
        lemma_ident_here(s, j);
    } else {
        lemma_string(s, j);
    }
}

proof fn lemma_entries(s: Seq<char>, i: int, close: char)
    requires
        0 <= i <= s.len(),
        entries(s, i, close) is Some,
        !is_ws(close),
        close != '/',
        close != '"',
    ensures
        entries(s, i, close) matches Some((m, k)) && brace_net(s, i) == brace_net(s, k)
            + brace_delta(close) && i <= k <= s.len(),
    decreases s.len() - i,
{
    lemma_map_key(s, i);
    let j = match map_key(s, i) {
        Some((_, k)) => k,
        None => 0,
    };
    lemma_symbol(s, j, ':');
    let j2 = match symbol(s, j, ':') {
        Some(k) => k,
        None => 0,
    };
    lemma_value(s, j2, MAX_DEPTH as nat);
    let j3 = match value(s, j2, MAX_DEPTH as nat) {
        Some((_, k)) => k,
        None => 0,
    };
    if let Some(e) = symbol(s, j3, ',') {
        lemma_symbol(s, j3, ',');
        lemma_entries(s, e, close);
    } else {
        lemma_symbol(s, j3, close);
    }
}

proof fn lemma_entry_list(s: Seq<char>, i: int, close: char)
    requires
        0 <= i <= s.len(),
        entry_list(s, i, close) is Some,
        !is_ws(close),
        close != '/',
        close != '"',
    ensures
        entry_list(s, i, close) matches Some((m, k)) && brace_net(s, i) == brace_net(s, k)
            + brace_delta(close) && i <= k <= s.len(),
{
    if symbol(s, i, close) is Some {
        lemma_symbol(s, i, close);
    } else {
        lemma_entries(s, i, close);
    }
}

proof fn lemma_map_block(s: Seq<char>, i: int)
    requires
        0 <= i <= s.len(),
        map_block(s, i) is Some,
    ensures
        map_block(s, i) matches Some((m, k)) && brace_net(s, i) == brace_net(s, k) && i <= k
            <= s.len(),
{
    lemma_symbol(s, i, '{');
    let j = match symbol(s, i, '{') {
        Some(k) => k,
        None => 0,
    };
    lemma_entry_list(s, j, '}');
}

proof fn lemma_handle(s: Seq<char>, i: int)
    requires
        0 <= i <= s.len(),
        handle(s, i) is Some,
    ensures
        handle(s, i) matches Some((t, k)) && brace_net(s, i) == brace_net(s, k) && i <= k
            <= s.len(),
{
    lemma_symbol(s, i, '@');
    let j = match symbol(s, i, '@') {
        Some(k) => k,
        None => 0,
    };
    lemma_ident_here(s, j);
}

proof fn lemma_on_clause(s: Seq<char>, i: int)
    requires
        0 <= i <= s.len(),
        on_clause(s, i) is Some,
    ensures
        on_clause(s, i) matches Some((m, k)) && brace_net(s, i) == brace_net(s, k) && i <= k
            <= s.len(),
{
    lemma_keywords_are_words();
    lemma_word(s, i, "ON"@);
    let j = match keyword(s, i, "ON"@) {
        Some(k) => k,
        None => 0,
    };
    lemma_map_block(s, j);
}

proof fn lemma_opt_block(s: Seq<char>, i: int, w1: Seq<char>, w2: Seq<char>)
    requires
        0 <= i <= s.len(),
        is_word(w1),
        is_word(w2),
    ensures
        brace_net(s, i) == brace_net(s, opt_block(s, i, w1, w2).1),
        i <= opt_block(s, i, w1, w2).1 <= s.len(),
{
    if let Some(j) = keyword(s, i, w1) {
        lemma_word(s, i, w1);
        if let Some(k) = keyword(s, j, w2) {
            lemma_word(s, j, w2);
            if map_block(s, k) is Some {
                lemma_map_block(s, k);
            }
        }
    }
}

proof fn lemma_opt_metadata(s: Seq<char>, i: int)
    requires
        0 <= i <= s.len(),
    ensures
        brace_net(s, i) == brace_net(s, opt_metadata(s, i).1),
        i <= opt_metadata(s, i).1 <= s.len(),
{
    lemma_keywords_are_words();
    lemma_opt_block(s, i, "WITH"@, "METADATA"@);
}

proof fn lemma_target(s: Seq<char>, i: int)
    requires
        0 <= i <= s.len(),
        target(s, i) is Some,
    ensures
        target(s, i) matches Some((t, k)) && brace_net(s, i) == brace_net(s, k) && i <= k
            <= s.len(),
{
    if on_clause(s, i) is Some {
        lemma_on_clause(s, i);
    } else {
        lemma_handle(s, i);
    }
}

proof fn lemma_prop(s: Seq<char>, i: int)
    requires
        0 <= i <= s.len(),
        prop(s, i) is Some,
    ensures
        prop(s, i) matches Some((p, k)) && brace_net(s, i) == brace_net(s, k) && i <= k
            <= s.len(),
{
    lemma_keywords_are_words();
    lemma_word(s, i, "PROP"@);
    let j1 = match keyword(s, i, "PROP"@) {
        Some(k) => k,
        None => 0,
    };
    lemma_symbol(s, j1, '(');
    let j2 = match symbol(s, j1, '(') {
        Some(k) => k,
        None => 0,
    };
    lemma_ws(s, j2);
    lemma_skip_ws_bounds(s, j2);
    lemma_string(s, skip_ws(s, j2));
    let j3 = match string_lit(s, skip_ws(s, j2)) {
        Some((_, k)) => k,
        None => 0,
    };
    lemma_symbol(s, j3, ',');
    let j4 = match symbol(s, j3, ',') {
        Some(k) => k,
        None => 0,
    };
    lemma_target(s, j4);
    let j5 = match target(s, j4) {
        Some((_, k)) => k,
        None => 0,
    };
    lemma_symbol(s, j5, ')');
    let j6 = match symbol(s, j5, ')') {
        Some(k) => k,
        None => 0,
    };
    lemma_opt_metadata(s, j6);
}

proof fn lemma_props(s: Seq<char>, i: int)
    requires
        0 <= i <= s.len(),
        props(s, i) is Some,
    ensures
        props(s, i) matches Some((p, k)) && brace_net(s, i) == brace_net(s, k) - 1 && i <= k
            <= s.len(),
    decreases s.len() - i,
{
    lemma_prop(s, i);
    let j = match prop(s, i) {
        Some((_, k)) => k,
        None => 0,
    };
    if symbol(s, j, '}') is Some {
        lemma_symbol(s, j, '}');
    } else {
        lemma_props(s, j);
    }
}

proof fn lemma_opt_propositions(s: Seq<char>, i: int)
    requires
        0 <= i <= s.len(),
    ensures
        brace_net(s, i) == brace_net(s, opt_propositions(s, i).1),
        i <= opt_propositions(s, i).1 <= s.len(),
{
    lemma_keywords_are_words();
    if let Some(j) = keyword(s, i, "SET"@) {
        lemma_word(s, i, "SET"@);
        if let Some(k) = keyword(s, j, "PROPOSITIONS"@) {
            lemma_word(s, j, "PROPOSITIONS"@);
            if let Some(l) = symbol(s, k, '{') {
                lemma_symbol(s, k, '{');
                if props(s, l) is Some {
                    lemma_props(s, l);
                }
            }
        }
    }
}

proof fn lemma_concept(s: Seq<char>, i: int)
    requires
        0 <= i <= s.len(),
        concept(s, i) is Some,
    ensures
        concept(s, i) matches Some((c, k)) && brace_net(s, i) == brace_net(s, k) && i <= k
            <= s.len(),
{
    lemma_keywords_are_words();
    lemma_word(s, i, "CONCEPT"@);
    let j1 = match keyword(s, i, "CONCEPT"@) {
        Some(k) => k,
        None => 0,
    };
    lemma_handle(s, j1);
    let j2 = match handle(s, j1) {
        Some((_, k)) => k,
        None => 0,
    };
    lemma_symbol(s, j2, '{');
    let j3 = match symbol(s, j2, '{') {
        Some(k) => k,
        None => 0,
    };
    lemma_on_clause(s, j3);
    let j4 = match on_clause(s, j3) {
        Some((_, k)) => k,
        None => 0,
    };
    lemma_opt_metadata(s, j4);
    let j5 = opt_metadata(s, j4).1;
    lemma_opt_block(s, j5, "SET"@, "ATTRIBUTES"@);
    let j6 = opt_block(s, j5, "SET"@, "ATTRIBUTES"@).1;
    lemma_opt_propositions(s, j6);
    let j7 = opt_propositions(s, j6).1;
    lemma_symbol(s, j7, '}');
}

proof fn lemma_concepts(s: Seq<char>, i: int)
    requires
        0 <= i <= s.len(),
        concepts(s, i) is Some,
    ensures
        concepts(s, i) matches Some((c, k)) && brace_net(s, i) == brace_net(s, k) - 1 && i <= k
            <= s.len(),
    decreases s.len() - i,
{
    lemma_concept(s, i);
    let j = match concept(s, i) {
        Some((_, k)) => k,
        None => 0,
    };
    if symbol(s, j, '}') is Some {
        lemma_symbol(s, j, '}');
    } else {
        lemma_concepts(s, j);
    }
}

proof fn lemma_delete_items(s: Seq<char>, i: int)
    requires
        0 <= i <= s.len(),
        delete_items(s, i) is Some,
    ensures
        delete_items(s, i) matches Some((c, k)) && brace_net(s, i) == brace_net(s, k) - 1 && i
            <= k <= s.len(),
    decreases s.len() - i,
{
    lemma_keywords_are_words();
    lemma_word(s, i, "CONCEPT"@);
    let j = match keyword(s, i, "CONCEPT"@) {
        Some(k) => k,
        None => 0,
    };
    lemma_on_clause(s, j);
    let k = match on_clause(s, j) {
        Some((_, k)) => k,
        None => 0,
    };
    if symbol(s, k, '}') is Some {
        lemma_symbol(s, k, '}');
    } else {
        lemma_delete_items(s, k);
    }
}

proof fn lemma_kml(s: Seq<char>, i: int)
    requires
        0 <= i <= s.len(),
        kml(s, i) is Some,
    ensures
        kml(s, i) matches Some((c, k)) && brace_net(s, i) == brace_net(s, k) && i <= k <= s.len(),
{
    lemma_keywords_are_words();
    if let Some(j) = keyword(s, i, "UPSERT"@) {
        lemma_word(s, i, "UPSERT"@);
        lemma_symbol(s, j, '{');
        let k = match symbol(s, j, '{') {
            Some(k) => k,
            None => 0,
        };
        lemma_concepts(s, k);
        let l = match concepts(s, k) {
            Some((_, e)) => e,
            None => 0,
        };
        lemma_opt_metadata(s, l);
    } else {
        lemma_word(s, i, "DELETE"@);
        let j = match keyword(s, i, "DELETE"@) {
            Some(k) => k,
            None => 0,
        };
        lemma_symbol(s, j, '{');
        let k = match symbol(s, j, '{') {
            Some(k) => k,
            None => 0,
        };
        lemma_delete_items(s, k);
    }
}

/// A text whose braces do not balance, counting those outside string
/// literals and comments, never reads as a manipulation statement: a brace
/// left open or closed twice anywhere in it is a parse error, and no
/// statement is produced.
pub proof fn lemma_unbalanced_braces_fail(s: Seq<char>)
    requires
        brace_net(s, 0) != 0,
    ensures
        kml_document(s) is None,
        command(s) matches Some(c) ==> !(c is Kml),
{
    if kml(s, 0) is Some {
        lemma_kml(s, 0);
        let k = match kml(s, 0) {
            Some((_, e)) => e,
            None => 0,
        };
        lemma_ws(s, k);
        lemma_end(s);
    }
    lemma_command_statement(s);
}

} // verus!
