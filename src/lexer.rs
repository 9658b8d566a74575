//! Tokens shared by all grammars. Every token reader first skips blanks and
//! `//` comments, then reads the token, and gives the position just after it.
use vstd::prelude::*;

use crate::text::chars_of;

verus! {

/// A blank character.
pub open spec fn is_ws(c: char) -> bool {
    c == ' ' || c == '\t' || c == '\n' || c == '\r'
}

/// A character that may start an identifier.
pub open spec fn is_ident_start(c: char) -> bool {
    ('a' <= c && c <= 'z') || ('A' <= c && c <= 'Z') || c == '_'
}

/// A character that may continue an identifier.
pub open spec fn is_ident_char(c: char) -> bool {
    is_ident_start(c) || ('0' <= c && c <= '9')
}

/// The position of the line break that ends the line holding `i`, or the end.
pub open spec fn line_end(s: Seq<char>, i: int) -> int
    decreases s.len() - i,
{
    if i < 0 || i >= s.len() || s[i] == '\n' {
        i
    } else {
        line_end(s, i + 1)
    }
}

/// The first position from `i` on that is neither blank nor in a comment.
pub open spec fn skip_ws(s: Seq<char>, i: int) -> int
    decreases s.len() - i,
{
    if 0 <= i < s.len() && is_ws(s[i]) {
        skip_ws(s, i + 1)
    } else if 0 <= i && i + 1 < s.len() && s[i] == '/' && s[i + 1] == '/' {
        let e = line_end(s, i + 2);
        if i < e <= s.len() {
            skip_ws(s, e)
        } else {
            i
        }
    } else {
        i
    }
}

/// The end of the run of identifier characters from `i`.
pub open spec fn ident_end(s: Seq<char>, i: int) -> int
    decreases s.len() - i,
{
    if 0 <= i < s.len() && is_ident_char(s[i]) {
        ident_end(s, i + 1)
    } else {
        i
    }
}

/// An identifier that starts exactly at `i`.
pub open spec fn ident_here(s: Seq<char>, i: int) -> Option<(Seq<char>, int)> {
    if 0 <= i < s.len() && is_ident_start(s[i]) {
        Some((s.subrange(i, ident_end(s, i + 1)), ident_end(s, i + 1)))
    } else {
        None
    }
}

/// An identifier after blanks.
pub open spec fn ident(s: Seq<char>, i: int) -> Option<(Seq<char>, int)> {
    ident_here(s, skip_ws(s, i))
}

/// The word `kw` after blanks, not followed by an identifier character.
pub open spec fn keyword(s: Seq<char>, i: int, kw: Seq<char>) -> Option<int> {
    let j = skip_ws(s, i);
    let e = j + kw.len();
    if 0 <= j && e <= s.len() && s.subrange(j, e) == kw && !(e < s.len() && is_ident_char(s[e])) {
        Some(e)
    } else {
        None
    }
}

/// The character `c` after blanks.
pub open spec fn symbol(s: Seq<char>, i: int, c: char) -> Option<int> {
    let j = skip_ws(s, i);
    if 0 <= j < s.len() && s[j] == c {
        Some(j + 1)
    } else {
        None
    }
}

proof fn lemma_line_end_bounds(s: Seq<char>, i: int)
    requires
        0 <= i <= s.len(),
    ensures
        i <= line_end(s, i) <= s.len(),
    decreases s.len() - i,
{
    if i < s.len() && s[i] != '\n' {
        lemma_line_end_bounds(s, i + 1);
    }
}

/// Blanks and comments end within the text, and not before they start.
pub proof fn lemma_skip_ws_bounds(s: Seq<char>, i: int)
    requires
        0 <= i <= s.len(),
    ensures
        i <= skip_ws(s, i) <= s.len(),
    decreases s.len() - i,
{
    if i < s.len() && is_ws(s[i]) {
        lemma_skip_ws_bounds(s, i + 1);
    } else if i + 1 < s.len() && s[i] == '/' && s[i + 1] == '/' {
        lemma_line_end_bounds(s, i + 2);
        lemma_skip_ws_bounds(s, line_end(s, i + 2));
    }
}

/// Remembers `at` as the furthest position a reader has looked at, when it
/// lies further than the one remembered.
pub fn note_position(far: &mut usize, at: usize)
    ensures
        *final(far) == if at > *old(far) {
            at
        } else {
            *old(far)
        },
{
    if at > *far {
        *far = at;
    }
}

/// Skips blanks and comments from `i`.
pub fn skip_ws_exec(s: &Vec<char>, i: usize) -> (r: usize)
    requires
        i <= s.len(),
    ensures
        r == skip_ws(s@, i as int),
        i <= r <= s.len(),
{
    let mut j = i;
    proof {
        lemma_skip_ws_bounds(s@, i as int);
    }
    loop
        invariant
            i <= j <= s.len(),
            skip_ws(s@, j as int) == skip_ws(s@, i as int),
        decreases s.len() - j,
    {
        if j < s.len() && (s[j] == ' ' || s[j] == '\t' || s[j] == '\n' || s[j] == '\r') {
            j = j + 1;
        } else if s.len() - j >= 2 && s[j] == '/' && s[j + 1] == '/' {
            let mut k = j + 2;
            while k < s.len() && s[k] != '\n'
                invariant
                    j + 2 <= k <= s.len(),
                    line_end(s@, k as int) == line_end(s@, j + 2),
                decreases s.len() - k,
            {
                k = k + 1;
            }
            j = k;
        } else {
            return j;
        }
    }
}

/// Reads an identifier that starts exactly at `i`.
pub fn ident_here_exec(s: &Vec<char>, i: usize, far: &mut usize) -> (r: Option<(String, usize)>)
    requires
        i <= s.len(),
    ensures
        r matches Some((t, k)) ==> ident_here(s@, i as int) == Some((t@, k as int)) && i < k
            <= s.len(),
        r is None ==> ident_here(s@, i as int) is None,
{
    note_position(far, i);
    if i >= s.len() {
        return None;
    }
    let c = s[i];
    if !(('a' <= c && c <= 'z') || ('A' <= c && c <= 'Z') || c == '_') {
        return None;
    }
    let mut out = String::new();
    crate::text::push_char(&mut out, c);
    let mut k = i + 1;
    while k < s.len() && (('a' <= s[k] && s[k] <= 'z') || ('A' <= s[k] && s[k] <= 'Z') || s[k]
        == '_' || ('0' <= s[k] && s[k] <= '9'))
        invariant
            i < k <= s.len(),
            ident_end(s@, k as int) == ident_end(s@, i + 1),
            out@ == s@.subrange(i as int, k as int),
        decreases s.len() - k,
    {
        crate::text::push_char(&mut out, s[k]);
        k = k + 1;
        assert(out@ =~= s@.subrange(i as int, k as int));
    }
    Some((out, k))
}

/// Reads an identifier after blanks.
pub fn ident_exec(s: &Vec<char>, i: usize, far: &mut usize) -> (r: Option<(String, usize)>)
    requires
        i <= s.len(),
    ensures
        r matches Some((t, k)) ==> ident(s@, i as int) == Some((t@, k as int)) && i < k <= s.len(),
        r is None ==> ident(s@, i as int) is None,
{
    let j = skip_ws_exec(s, i);
    ident_here_exec(s, j, far)
}

/// Reads the word `kw` after blanks.
pub fn keyword_exec(s: &Vec<char>, i: usize, kw: &str, far: &mut usize) -> (r: Option<usize>)
    requires
        i <= s.len(),
        kw@.len() > 0,
    ensures
        r matches Some(k) ==> keyword(s@, i as int, kw@) == Some(k as int) && i < k <= s.len(),
        r is None ==> keyword(s@, i as int, kw@) is None,
{
    let j = skip_ws_exec(s, i);
    note_position(far, j);
    let w = chars_of(kw);
    if w.len() > s.len() - j {
        return None;
    }
    let e = j + w.len();
    let mut k: usize = 0;
    while k < w.len()
        invariant
            j + w.len() <= s.len(),
            e == j + w.len(),
            j == skip_ws(s@, i as int),
            w@ == kw@,
            0 <= k <= w.len(),
            forall|m: int| 0 <= m < k ==> s@[j + m] == w@[m],
        decreases w.len() - k,
    {
        if s[j + k] != w[k] {
            assert(s@.subrange(j as int, e as int)[k as int] != kw@[k as int]);
            return None;
        }
        k = k + 1;
    }
    assert(s@.subrange(j as int, e as int) =~= kw@);
    if e < s.len() && (('a' <= s[e] && s[e] <= 'z') || ('A' <= s[e] && s[e] <= 'Z') || s[e] == '_'
        || ('0' <= s[e] && s[e] <= '9')) {
        return None;
    }
    Some(e)
}

/// Reads the character `c` after blanks.
pub fn symbol_exec(s: &Vec<char>, i: usize, c: char, far: &mut usize) -> (r: Option<usize>)
    requires
        i <= s.len(),
    ensures
        r matches Some(k) ==> symbol(s@, i as int, c) == Some(k as int) && i < k <= s.len(),
        r is None ==> symbol(s@, i as int, c) is None,
{
    let j = skip_ws_exec(s, i);
    note_position(far, j);
    if j < s.len() && s[j] == c {
        Some(j + 1)
    } else {
        None
    }
}

} // verus!
