//! JSON string literals: escaping a string into a literal, and reading a
//! literal back into the string it denotes.
use vstd::prelude::*;

use crate::text::push_char;

verus! {

/// Lower-case hexadecimal digit for `n` in `0..16`.
pub open spec fn hex_digit(n: int) -> char {
    seq!['0', '1', '2', '3', '4', '5', '6', '7', '8', '9', 'a', 'b', 'c', 'd', 'e', 'f'][n]
}

/// The value of a hexadecimal digit of either case.
pub open spec fn hex_value(c: char) -> Option<int> {
    if '0' <= c && c <= '9' {
        Some(c as int - '0' as int)
    } else if 'a' <= c && c <= 'f' {
        Some(c as int - 'a' as int + 10)
    } else if 'A' <= c && c <= 'F' {
        Some(c as int - 'A' as int + 10)
    } else {
        None
    }
}

/// How one character is written inside a quoted literal.
pub open spec fn escape_char(c: char) -> Seq<char> {
    if c == '"' {
        seq!['\\', '"']
    } else if c == '\\' {
        seq!['\\', '\\']
    } else if c == '\n' {
        seq!['\\', 'n']
    } else if c == '\r' {
        seq!['\\', 'r']
    } else if c == '\t' {
        seq!['\\', 't']
    } else if c == '\x08' {
        seq!['\\', 'b']
    } else if c == '\x0C' {
        seq!['\\', 'f']
    } else if (c as u32) < 0x20 {
        seq!['\\', 'u', '0', '0', hex_digit((c as u32) as int / 16), hex_digit((c as u32) as int % 16)]
    } else {
        seq![c]
    }
}

/// The escaped form of a whole string, without the surrounding quotes.
pub open spec fn escape_seq(s: Seq<char>) -> Seq<char>
    decreases s.len(),
{
    if s.len() == 0 {
        seq![]
    } else {
        escape_char(s[0]) + escape_seq(s.drop_first())
    }
}

/// The quoted literal that denotes `s`.
pub open spec fn quoted(s: Seq<char>) -> Seq<char> {
    seq!['"'] + escape_seq(s) + seq!['"']
}

/// The character whose scalar value is `n`.
pub open spec fn char_of(n: int) -> char {
    (n as u32) as char
}

/// Two characters with one scalar value are one character.
pub proof fn lemma_char_of(c: char)
    ensures
        char_of(c as u32 as int) == c,
{
    vstd::utf8::char_u32_cast(c, c as u32);
}

/// Whether `n` is a Unicode scalar value.
pub open spec fn is_scalar(n: int) -> bool {
    (0 <= n < 0xD800) || (0xE000 <= n <= 0x10FFFF)
}

/// Value of the four hexadecimal digits at `i`.
pub open spec fn hex4(s: Seq<char>, i: int) -> Option<int> {
    if 0 <= i && i + 4 <= s.len() && hex_value(s[i]) is Some && hex_value(s[i + 1]) is Some
        && hex_value(s[i + 2]) is Some && hex_value(s[i + 3]) is Some {
        Some(
            hex_value(s[i])->0 * 4096 + hex_value(s[i + 1])->0 * 256 + hex_value(s[i + 2])->0
                * 16 + hex_value(s[i + 3])->0,
        )
    } else {
        None
    }
}

/// A `\u` escape whose digits start at `i`: a scalar value, or a high and a
/// low surrogate written as two escapes. Gives the character and the position
/// after the escape.
pub open spec fn unicode_escape(s: Seq<char>, i: int) -> Option<(char, int)> {
    match hex4(s, i) {
        None => None,
        Some(hi) => if 0xD800 <= hi < 0xDC00 {
            if i + 6 <= s.len() && s[i + 4] == '\\' && s[i + 5] == 'u' {
                match hex4(s, i + 6) {
                    Some(lo) => if 0xDC00 <= lo < 0xE000 {
                        Some((char_of(0x10000 + (hi - 0xD800) * 1024 + (lo - 0xDC00)), i + 10))
                    } else {
                        None
                    },
                    None => None,
                }
            } else {
                None
            }
        } else if is_scalar(hi) {
            Some((char_of(hi), i + 4))
        } else {
            None
        },
    }
}

/// The escape sequence whose letter is at `i` (just after a backslash).
pub open spec fn escape_at(s: Seq<char>, i: int) -> Option<(char, int)> {
    if i < 0 || i >= s.len() {
        None
    } else if s[i] == '"' {
        Some(('"', i + 1))
    } else if s[i] == '\\' {
        Some(('\\', i + 1))
    } else if s[i] == '/' {
        Some(('/', i + 1))
    } else if s[i] == 'b' {
        Some(('\x08', i + 1))
    } else if s[i] == 'f' {
        Some(('\x0C', i + 1))
    } else if s[i] == 'n' {
        Some(('\n', i + 1))
    } else if s[i] == 'r' {
        Some(('\r', i + 1))
    } else if s[i] == 't' {
        Some(('\t', i + 1))
    } else if s[i] == 'u' {
        unicode_escape(s, i + 1)
    } else {
        None
    }
}

/// Puts `t` in front of the text of a parse result.
pub open spec fn prepend(t: Seq<char>, r: Option<(Seq<char>, int)>) -> Option<(Seq<char>, int)> {
    match r {
        Some((u, k)) => Some((t + u, k)),
        None => None,
    }
}

/// The text of a literal from `i`, just after its opening quote, up to and
/// including the closing quote: the denoted string and the position after it.
pub open spec fn string_body(s: Seq<char>, i: int) -> Option<(Seq<char>, int)>
    decreases s.len() - i,
{
    if i < 0 || i >= s.len() {
        None
    } else if s[i] == '"' {
        Some((seq![], i + 1))
    } else if s[i] == '\\' {
        match escape_at(s, i + 1) {
            Some((c, j)) => if j > i {
                prepend(seq![c], string_body(s, j))
            } else {
                None
            },
            None => None,
        }
    } else {
        prepend(seq![s[i]], string_body(s, i + 1))
    }
}

/// A quoted literal that starts at `i`.
pub open spec fn string_lit(s: Seq<char>, i: int) -> Option<(Seq<char>, int)> {
    if 0 <= i < s.len() && s[i] == '"' {
        string_body(s, i + 1)
    } else {
        None
    }
}

/// The string that `s` denotes when all of `s` is one quoted literal.
pub open spec fn unquoted(s: Seq<char>) -> Option<Seq<char>> {
    match string_lit(s, 0) {
        Some((t, k)) => if k == s.len() {
            Some(t)
        } else {
            None
        },
        None => None,
    }
}

/// Escaping a string with one more character at its end adds the escape of
/// that character at the end.
pub proof fn lemma_escape_seq_push(s: Seq<char>, c: char)
    ensures
        escape_seq(s.push(c)) == escape_seq(s) + escape_char(c),
    decreases s.len(),
{
    if s.len() == 0 {
        assert(s.push(c).drop_first() =~= seq![]);
        assert(escape_seq(s.push(c).drop_first()) =~= seq![]);
        assert(escape_seq(s) =~= seq![]);
        assert(escape_seq(s.push(c)) =~= escape_char(c));
    } else {
        lemma_escape_seq_push(s.drop_first(), c);
        assert(s.push(c).drop_first() =~= s.drop_first().push(c));
        assert(escape_seq(s.push(c)) =~= escape_seq(s) + escape_char(c));
    }
}

proof fn lemma_hex_digit(n: int)
    requires
        0 <= n < 16,
    ensures
        hex_value(hex_digit(n)) == Some(n),
{
    let d = seq!['0', '1', '2', '3', '4', '5', '6', '7', '8', '9', 'a', 'b', 'c', 'd', 'e', 'f'];
    assert(d[0] == '0' && d[1] == '1' && d[2] == '2' && d[3] == '3' && d[4] == '4');
    assert(d[5] == '5' && d[6] == '6' && d[7] == '7' && d[8] == '8' && d[9] == '9');
    assert(d[10] == 'a' && d[11] == 'b' && d[12] == 'c' && d[13] == 'd' && d[14] == 'e');
    assert(d[15] == 'f');
}

/// The text after position `p` of `x` is the escaped form of `s` and a
/// closing quote: the literal body there denotes exactly `s`.
proof fn lemma_body_of_escaped(x: Seq<char>, p: int, s: Seq<char>)
    requires
        0 <= p,
        p + escape_seq(s).len() < x.len(),
        x.subrange(p, p + escape_seq(s).len()) == escape_seq(s),
        x[p + escape_seq(s).len()] == '"',
    ensures
        string_body(x, p) == Some((s, p + escape_seq(s).len() + 1)),
    decreases s.len(),
{
    let n = escape_seq(s).len() as int;
    if s.len() == 0 {
        assert(x[p] == '"');
    } else {
        let c = s[0];
        let e = escape_char(c);
        let rest = s.drop_first();
        assert(escape_seq(s) == e + escape_seq(rest));
        let q = p + e.len();
        assert forall|k: int| 0 <= k < e.len() implies x[p + k] == e[k] by {
            assert(x.subrange(p, p + n)[k] == escape_seq(s)[k]);
        }
        assert(x.subrange(q, q + escape_seq(rest).len()) =~= escape_seq(rest)) by {
            assert forall|k: int| 0 <= k < escape_seq(rest).len() implies x.subrange(
                q,
                q + escape_seq(rest).len(),
            )[k] == escape_seq(rest)[k] by {
                assert(x.subrange(p, p + n)[e.len() + k] == escape_seq(s)[e.len() + k]);
            }
        }
        lemma_body_of_escaped(x, q, rest);
        assert(seq![c] + rest =~= s);
        if c != '"' && c != '\\' && c != '\n' && c != '\r' && c != '\t' && c != '\x08' && c
            != '\x0C' && (c as u32) < 0x20 {
            let v = c as u32 as int;
            assert(0 <= v / 16 < 16 && 0 <= v % 16 < 16 && v == (v / 16) * 16 + v % 16) by (nonlinear_arith)
                requires
                    0 <= v < 32,
            ;
            lemma_hex_digit(v / 16);
            lemma_hex_digit(v % 16);
            assert(hex4(x, p + 2) == Some(v));
            lemma_char_of(c);
            assert(unicode_escape(x, p + 2) == Some((c, p + 6)));
        }
    }
}

/// Quoting then unquoting gives back the original string, for every string:
/// empty, with control characters, quotes, backslashes or any Unicode.
pub proof fn lemma_unquote_quoted(s: Seq<char>)
    ensures
        unquoted(quoted(s)) == Some(s),
{
    let x = quoted(s);
    let n = escape_seq(s).len() as int;
    assert(x.subrange(1, 1 + n) =~= escape_seq(s));
    lemma_body_of_escaped(x, 1, s);
}

/// Relies on `char::from_u32`: `Some` exactly for a Unicode scalar value,
/// holding the character with that value.
#[verifier::external_body]
fn char_from_u32(n: u32) -> (r: Option<char>)
    ensures
        r is Some <==> is_scalar(n as int),
        r matches Some(c) ==> c as u32 == n,
{
    char::from_u32(n)
}

fn hex_value_exec(c: char) -> (r: Option<u32>)
    ensures
        r matches Some(v) ==> hex_value(c) == Some(v as int),
        r is None ==> hex_value(c) is None,
{
    if '0' <= c && c <= '9' {
        Some(c as u32 - '0' as u32)
    } else if 'a' <= c && c <= 'f' {
        Some(c as u32 - 'a' as u32 + 10)
    } else if 'A' <= c && c <= 'F' {
        Some(c as u32 - 'A' as u32 + 10)
    } else {
        None
    }
}

fn hex4_exec(s: &Vec<char>, i: usize) -> (r: Option<u32>)
    ensures
        r matches Some(v) ==> hex4(s@, i as int) == Some(v as int),
        r is None ==> hex4(s@, i as int) is None,
        r is Some ==> i + 4 <= s.len(),
{
    if i > s.len() || s.len() - i < 4 {
        return None;
    }
    let a = hex_value_exec(s[i]);
    let b = hex_value_exec(s[i + 1]);
    let c = hex_value_exec(s[i + 2]);
    let d = hex_value_exec(s[i + 3]);
    match (a, b, c, d) {
        (Some(a), Some(b), Some(c), Some(d)) => Some(a * 4096 + b * 256 + c * 16 + d),
        _ => None,
    }
}

fn unicode_escape_exec(s: &Vec<char>, i: usize) -> (r: Option<(char, usize)>)
    ensures
        r matches Some((c, k)) ==> unicode_escape(s@, i as int) == Some((c, k as int)),
        r is None ==> unicode_escape(s@, i as int) is None,
{
    let hi = match hex4_exec(s, i) {
        Some(v) => v,
        None => return None,
    };
    if 0xD800 <= hi && hi < 0xDC00 {
        if s.len() - i >= 6 && s[i + 4] == '\\' && s[i + 5] == 'u' {
            match hex4_exec(s, i + 6) {
                Some(lo) => {
                    if 0xDC00 <= lo && lo < 0xE000 {
                        let n = 0x10000 + (hi - 0xD800) * 1024 + (lo - 0xDC00);
                        match char_from_u32(n) {
                            Some(c) => {
                                proof {
                                    lemma_char_of(c);
                                }
                                Some((c, i + 10))
                            },
                            None => None,
                        }
                    } else {
                        None
                    }
                },
                None => None,
            }
        } else {
            None
        }
    } else {
        match char_from_u32(hi) {
            Some(c) => {
                proof {
                    lemma_char_of(c);
                }
                Some((c, i + 4))
            },
            None => None,
        }
    }
}

fn escape_at_exec(s: &Vec<char>, i: usize) -> (r: Option<(char, usize)>)
    ensures
        r matches Some((c, k)) ==> escape_at(s@, i as int) == Some((c, k as int)) && k > i,
        r is None ==> escape_at(s@, i as int) is None,
{
    if i >= s.len() {
        return None;
    }
    let c = s[i];
    if c == '"' {
        Some(('"', i + 1))
    } else if c == '\\' {
        Some(('\\', i + 1))
    } else if c == '/' {
        Some(('/', i + 1))
    } else if c == 'b' {
        Some(('\x08', i + 1))
    } else if c == 'f' {
        Some(('\x0C', i + 1))
    } else if c == 'n' {
        Some(('\n', i + 1))
    } else if c == 'r' {
        Some(('\r', i + 1))
    } else if c == 't' {
        Some(('\t', i + 1))
    } else if c == 'u' {
        unicode_escape_exec(s, i + 1)
    } else {
        None
    }
}

proof fn lemma_string_body_end(s: Seq<char>, i: int)
    requires
        string_body(s, i) is Some,
    ensures
        string_body(s, i) matches Some((t, k)) && i < k <= s.len(),
    decreases s.len() - i,
{
    if s[i] == '\\' {
        if let Some((c, j)) = escape_at(s, i + 1) {
            lemma_string_body_end(s, j);
        }
    } else if s[i] != '"' {
        lemma_string_body_end(s, i + 1);
    }
}

/// A literal ends after its start and within the text.
pub proof fn lemma_string_lit_end(s: Seq<char>, i: int)
    requires
        string_lit(s, i) is Some,
    ensures
        string_lit(s, i) matches Some((t, k)) && i < k <= s.len(),
{
    lemma_string_body_end(s, i + 1);
}

/// Reads the quoted literal that starts at `i`: the string it denotes and the
/// position after its closing quote.
pub fn parse_string_lit(s: &Vec<char>, i: usize, far: &mut usize) -> (r: Option<(String, usize)>)
    ensures
        r matches Some((t, k)) ==> string_lit(s@, i as int) == Some((t@, k as int)),
        r is None ==> string_lit(s@, i as int) is None,
{
    crate::lexer::note_position(far, i);
    if i >= s.len() || s[i] != '"' {
        return None;
    }
    let mut out = String::new();
    let mut j: usize = i + 1;
    assert(out@ + seq![] =~= out@);
    loop
        invariant
            i < j,
            string_lit(s@, i as int) == prepend(out@, string_body(s@, j as int)),
        decreases s.len() - j,
    {
        if j >= s.len() {
            return None;
        }
        let c = s[j];
        if c == '"' {
            assert(out@ + seq![] =~= out@);
            return Some((out, j + 1));
        }
        let ghost before = out@;
        if c == '\\' {
            match escape_at_exec(s, j + 1) {
                Some((e, k)) => {
                    push_char(&mut out, e);
                    proof {
                        match string_body(s@, k as int) {
                            Some((u, m)) => {
                                assert(before + (seq![e] + u) =~= out@ + u);
                            },
                            None => {},
                        }
                    }
                    j = k;
                },
                None => {
                    return None;
                },
            }
        } else {
            push_char(&mut out, c);
            proof {
                match string_body(s@, j + 1) {
                    Some((u, m)) => {
                        assert(before + (seq![c] + u) =~= out@ + u);
                    },
                    None => {},
                }
            }
            j = j + 1;
        }
    }
}

/// Appends the escaped form of `c`.
fn push_escaped(out: &mut String, c: char)
    ensures
        final(out)@ == old(out)@ + escape_char(c),
{
    let digits: [char; 16] = [
        '0', '1', '2', '3', '4', '5', '6', '7', '8', '9', 'a', 'b', 'c', 'd', 'e', 'f',
    ];
    let ghost before = out@;
    if c == '"' {
        push_char(out, '\\');
        push_char(out, '"');
    } else if c == '\\' {
        push_char(out, '\\');
        push_char(out, '\\');
    } else if c == '\n' {
        push_char(out, '\\');
        push_char(out, 'n');
    } else if c == '\r' {
        push_char(out, '\\');
        push_char(out, 'r');
    } else if c == '\t' {
        push_char(out, '\\');
        push_char(out, 't');
    } else if c == '\x08' {
        push_char(out, '\\');
        push_char(out, 'b');
    } else if c == '\x0C' {
        push_char(out, '\\');
        push_char(out, 'f');
    } else if (c as u32) < 0x20 {
        let v = c as u32;
        push_char(out, '\\');
        push_char(out, 'u');
        push_char(out, '0');
        push_char(out, '0');
        push_char(out, digits[(v / 16) as usize]);
        push_char(out, digits[(v % 16) as usize]);
        assert(digits@ =~= seq!['0', '1', '2', '3', '4', '5', '6', '7', '8', '9', 'a', 'b', 'c', 'd', 'e', 'f']);
    } else {
        push_char(out, c);
    }
    assert(out@ =~= before + escape_char(c));
}

/// Writes `s` as a quoted literal, escaping what must be escaped.
pub fn quote_str(s: &str) -> (r: String)
    ensures
        r@ == quoted(s@),
{
    broadcast use vstd::string::group_string_axioms;
    let mut out = String::new();
    push_char(&mut out, '"');
    let ghost mut done: Seq<char> = seq![];
    for c in it: s.chars()
        invariant
            done == it.seq().take(it.index() as int),
            out@ == seq!['"'] + escape_seq(done),
    {
        proof {
            lemma_escape_seq_push(done, c);
        }
        push_escaped(&mut out, c);
        proof {
            done = done.push(c);
            assert(done =~= it.seq().take(it.index() as int + 1));
        }
    }
    assert(done =~= s@);
    push_char(&mut out, '"');
    out
}

/// The string that `s` denotes when all of `s` is one quoted literal.
pub fn unquote_str(s: &str) -> (r: Option<String>)
    ensures
        r matches Some(t) ==> unquoted(s@) == Some(t@),
        r is None <==> unquoted(s@) is None,
{
    let cs = crate::text::chars_of(s);
    let mut far: usize = 0;
    match parse_string_lit(&cs, 0, &mut far) {
        Some((t, k)) => if k == cs.len() {
            Some(t)
        } else {
            None
        },
        None => None,
    }
}

} // verus!
