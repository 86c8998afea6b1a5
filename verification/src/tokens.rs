//! Turning the tokens of a `sql!` invocation into SQL text.
//!
//! `Token` holds, as plain values, what the text is built from: the source
//! form of a literal, the name of an identifier, a punctuation character, or
//! a delimited group of tokens.
use vstd::prelude::*;

use crate::text::{push_all, string_of, chars_of};

verus! {

/// The delimiter of a group of tokens.
#[derive(Debug, Clone, Copy, PartialEq, Eq, Structural)]
pub enum Delimiter {
    /// `( ... )`
    Parenthesis,
    /// `{ ... }`
    Brace,
    /// `[ ... ]`
    Bracket,
    /// An invisible delimiter (proc_macro2's `Delimiter::None`).
    Invisible,
}

/// A token of a `sql!` invocation.
#[derive(Debug)]
pub enum Token {
    /// A literal, in its source form (with its quotes, for a string).
    Literal(String),
    /// An identifier or keyword.
    Ident(String),
    /// A punctuation character.
    Punct(char),
    /// A delimited group of tokens.
    Group(Delimiter, Vec<Token>),
}

// ------------------------------------------------------------------
// Specifications
// ------------------------------------------------------------------

/// What an escape `\c` of a Rust string literal stands for in SQL: the
/// escapes `\n \r \t \0 \\ \" \'` are resolved, any other is kept as it is.
pub open spec fn escape_text(c: char) -> Seq<char> {
    if c == 'n' {
        seq!['\n']
    } else if c == 'r' {
        seq!['\r']
    } else if c == 't' {
        seq!['\t']
    } else if c == '0' {
        seq!['\0']
    } else if c == '\\' {
        seq!['\\']
    } else if c == '"' {
        seq!['"']
    } else if c == '\'' {
        seq!['\'']
    } else {
        seq!['\\', c]
    }
}

/// The value of a hexadecimal digit.
pub open spec fn hex_digit(c: char) -> Option<int> {
    if '0' as u32 <= c as u32 <= '9' as u32 {
        Some(c as u32 - '0' as u32)
    } else if 'a' as u32 <= c as u32 <= 'f' as u32 {
        Some(c as u32 - 'a' as u32 + 10)
    } else if 'A' as u32 <= c as u32 <= 'F' as u32 {
        Some(c as u32 - 'A' as u32 + 10)
    } else {
        None
    }
}

/// The number of hexadecimal digits at the start of `s`.
pub open spec fn hex_prefix_len(s: Seq<char>) -> nat
    decreases s.len(),
{
    if s.len() > 0 && hex_digit(s[0]) is Some {
        1 + hex_prefix_len(s.drop_first())
    } else {
        0
    }
}

/// The value of a string of hexadecimal digits.
pub open spec fn hex_value(s: Seq<char>) -> int
    decreases s.len(),
{
    if s.len() == 0 {
        0
    } else {
        hex_value(s.drop_last()) * 16 + match hex_digit(s.last()) {
            Some(d) => d,
            None => 0,
        }
    }
}

/// A Unicode scalar value: what a `char` can hold.
pub open spec fn is_scalar(v: int) -> bool {
    (0 <= v <= 0xD7FF) || (0xE000 <= v <= 0x10FFFF)
}

/// The character of a `\xNN` escape, where `t` is the text after `\x`:
/// two hexadecimal digits of an ASCII character.
pub open spec fn byte_escape(t: Seq<char>) -> Option<char> {
    if t.len() >= 2 && hex_prefix_len(t) >= 2 && hex_value(t.take(2)) < 0x80 {
        Some(hex_value(t.take(2)) as char)
    } else {
        None
    }
}

/// The number of hexadecimal digits of a `\u{H..H}` escape, where `t` is
/// the text after `\u`: one to six digits between braces, of a Unicode
/// scalar value.
pub open spec fn unicode_digits(t: Seq<char>) -> Option<int> {
    if t.len() >= 1 && t[0] == '{' {
        let n = hex_prefix_len(t.drop_first()) as int;
        if 1 <= n <= 6 && n + 1 < t.len() && t[n + 1] == '}' && is_scalar(
            hex_value(t.subrange(1, n + 1)),
        ) {
            Some(n)
        } else {
            None
        }
    } else {
        None
    }
}

/// The content of a Rust string literal with its escapes resolved: the
/// escapes of `escape_text`, `\xNN` and `\u{H..H}`; an escape that is
/// none of these is kept as written, and so is a trailing lone backslash.
pub open spec fn unescape(s: Seq<char>) -> Seq<char>
    decreases s.len(),
{
    if s.len() == 0 {
        seq![]
    } else if s[0] == '\\' {
        if s.len() == 1 {
            seq!['\\']
        } else if s[1] == 'x' && byte_escape(s.skip(2)) is Some {
            seq![byte_escape(s.skip(2))->0] + unescape(s.skip(4))
        } else if s[1] == 'u' && unicode_digits(s.skip(2)) is Some {
            let n = unicode_digits(s.skip(2))->0;
            seq![hex_value(s.subrange(3, 3 + n)) as char] + unescape(s.skip(4 + n))
        } else {
            escape_text(s[1]) + unescape(s.skip(2))
        }
    } else {
        seq![s[0]] + unescape(s.drop_first())
    }
}

/// The text with each single quote doubled, as a SQL string holds it.
pub open spec fn double_quotes(s: Seq<char>) -> Seq<char>
    decreases s.len(),
{
    if s.len() == 0 {
        seq![]
    } else {
        double_quotes(s.drop_last()) + if s.last() == '\'' {
            seq!['\'', '\'']
        } else {
            seq![s.last()]
        }
    }
}

/// The SQL text of a literal: a double-quoted string becomes a single-quoted
/// SQL string with its escapes resolved and its single quotes doubled; any
/// other literal stays as written.
pub open spec fn literal_text(repr: Seq<char>) -> Seq<char> {
    if repr.len() >= 2 && repr[0] == '"' && repr.last() == '"' {
        seq!['\''] + double_quotes(unescape(repr.subrange(1, repr.len() - 1))) + seq!['\'']
    } else {
        repr
    }
}

/// The text that opens a group.
pub open spec fn open_text(d: Delimiter) -> Seq<char> {
    match d {
        Delimiter::Parenthesis => seq!['('],
        Delimiter::Brace => seq!['{'],
        Delimiter::Bracket => seq!['['],
        Delimiter::Invisible => seq![],
    }
}

/// The text that closes a group.
pub open spec fn close_text(d: Delimiter) -> Seq<char> {
    match d {
        Delimiter::Parenthesis => seq![')'],
        Delimiter::Brace => seq!['}'],
        Delimiter::Bracket => seq![']'],
        Delimiter::Invisible => seq![],
    }
}

/// The text of one token; a group's is its delimiters around the text of
/// its tokens.
pub open spec fn token_text(t: Token) -> Seq<char>
    decreases t, 1int,
{
    match t {
        Token::Literal(r) => literal_text(r@),
        Token::Ident(s) => s@,
        Token::Punct(c) => seq![c],
        Token::Group(d, ts) => open_text(d) + join_parts(parts_of(ts@)) + close_text(d),
    }
}

/// The texts of a list of tokens.
pub open spec fn parts_of(ts: Seq<Token>) -> Seq<Seq<char>>
    decreases ts, 0int,
{
    if ts.len() == 0 {
        seq![]
    } else {
        parts_of(ts.drop_last()).push(token_text(ts.last()))
    }
}

/// A part made of one ASCII character that is not a letter or digit.
pub open spec fn is_punct(p: Seq<char>) -> bool {
    p.len() == 1 && (p[0] as u32) < 0x80 && !(('a' as u32) <= (p[0] as u32) <= ('z' as u32) || (
    'A' as u32) <= (p[0] as u32) <= ('Z' as u32) || ('0' as u32) <= (p[0] as u32) <= ('9' as u32))
}

/// A part that no space goes before: `)`, `]`, `,` or `;`.
pub open spec fn is_closing(p: Seq<char>) -> bool {
    p == seq![')'] || p == seq![']'] || p == seq![','] || p == seq![';']
}

/// A part that closes something: `)`, `]`, `}`, `,` or `;`.
pub open spec fn closes(p: Seq<char>) -> bool {
    is_closing(p) || p == seq!['}']
}

/// Whether a space goes between two adjacent parts: between two minus signs,
/// which would otherwise run together into `--` and start a SQL comment;
/// never before other punctuation; always after a closing part; between
/// words otherwise.
pub open spec fn space_between(prev: Seq<char>, cur: Seq<char>) -> bool {
    if prev == seq!['-'] && cur == seq!['-'] {
        true
    } else if is_closing(cur) || is_punct(cur) {
        false
    } else if closes(prev) {
        true
    } else {
        !is_punct(prev) || is_closing(prev)
    }
}

/// The parts joined, with a space where `space_between` puts one.
pub open spec fn join_parts(parts: Seq<Seq<char>>) -> Seq<char>
    decreases parts.len(),
{
    if parts.len() == 0 {
        seq![]
    } else if parts.len() == 1 {
        parts[0]
    } else {
        join_parts(parts.drop_last()) + (if space_between(parts[parts.len() - 2], parts.last()) {
            seq![' ']
        } else {
            seq![]
        }) + parts.last()
    }
}

/// The SQL text of a token stream.
pub open spec fn stream_text(ts: Seq<Token>) -> Seq<char> {
    join_parts(parts_of(ts))
}

// ------------------------------------------------------------------
// Executable
// ------------------------------------------------------------------

/// Every character of `t` is a hexadecimal digit.
pub open spec fn all_hex(t: Seq<char>) -> bool {
    forall|i: int| 0 <= i < t.len() ==> (#[trigger] hex_digit(t[i])) is Some
}

/// Sixteen to the power `n`.
pub open spec fn pow16(n: nat) -> int
    decreases n,
{
    if n == 0 {
        1
    } else {
        16 * pow16((n - 1) as nat)
    }
}

proof fn lemma_hex_prefix(s: Seq<char>, k: int)
    requires
        0 <= k <= hex_prefix_len(s),
    ensures
        hex_prefix_len(s) <= s.len(),
        all_hex(s.take(k)),
    decreases s.len(),
{
    if s.len() > 0 && hex_digit(s[0]) is Some {
        if k > 0 {
            lemma_hex_prefix(s.drop_first(), k - 1);
            assert forall|i: int| 0 <= i < k implies (#[trigger] hex_digit(s.take(k)[i])) is Some by {
                if i > 0 {
                    assert(s.take(k)[i] == s.drop_first().take(k - 1)[i - 1]);
                }
            }
        } else {
            lemma_hex_prefix(s.drop_first(), 0);
        }
    }
}

proof fn lemma_hex_value_bound(t: Seq<char>)
    requires
        all_hex(t),
    ensures
        0 <= hex_value(t) < pow16(t.len()),
    decreases t.len(),
{
    if t.len() > 0 {
        let u = t.drop_last();
        assert(all_hex(u)) by {
            assert forall|i: int| 0 <= i < u.len() implies (#[trigger] hex_digit(u[i])) is Some by {
                assert(u[i] == t[i]);
                assert(hex_digit(t[i]) is Some);
            }
        }
        lemma_hex_value_bound(u);
        assert(hex_digit(t[t.len() - 1]) is Some);
        let d = hex_digit(t.last())->0;
        let p = pow16(u.len());
        let h = hex_value(u);
        assert(h * 16 + d < p * 16) by (nonlinear_arith)
            requires
                0 <= h < p,
                0 <= d < 16,
        ;
        assert(0 <= h * 16 + d) by (nonlinear_arith)
            requires
                0 <= h,
                0 <= d,
        ;
    }
}

proof fn lemma_pow16_small(n: nat)
    requires
        n <= 6,
    ensures
        pow16(n) <= 0x1000000,
{
    reveal_with_fuel(pow16, 7);
}

/// The value of a hexadecimal digit.
fn hex_digit_exec(c: char) -> (r: Option<u32>)
    ensures
        r matches Some(d) ==> hex_digit(c) == Some(d as int),
        r is None ==> hex_digit(c) is None,
{
    let u = c as u32;
    if '0' as u32 <= u && u <= '9' as u32 {
        Some(u - '0' as u32)
    } else if 'a' as u32 <= u && u <= 'f' as u32 {
        Some(u - 'a' as u32 + 10)
    } else if 'A' as u32 <= u && u <= 'F' as u32 {
        Some(u - 'A' as u32 + 10)
    } else {
        None
    }
}

/// The number of hexadecimal digits of `s` from `start` on.
fn hex_prefix_len_exec(s: &[char], start: usize) -> (r: usize)
    requires
        start <= s@.len(),
    ensures
        r == hex_prefix_len(s@.skip(start as int)),
{
    let mut j: usize = start;
    while j < s.len() && hex_digit_exec(s[j]).is_some()
        invariant
            start <= j <= s@.len(),
            hex_prefix_len(s@.skip(start as int)) == (j - start) + hex_prefix_len(
                s@.skip(j as int),
            ),
        decreases s@.len() - j,
    {
        assert(s@.skip(j as int)[0] == s@[j as int]);
        assert(s@.skip(j as int).drop_first() =~= s@.skip(j + 1));
        j += 1;
    }
    if j < s.len() {
        assert(s@.skip(j as int)[0] == s@[j as int]);
    }
    j - start
}

/// The value of the hexadecimal digits of `s` from `a` to `b`.
fn hex_value_exec(s: &[char], a: usize, b: usize) -> (r: u32)
    requires
        a <= b <= s@.len(),
        b - a <= 6,
        all_hex(s@.subrange(a as int, b as int)),
    ensures
        r as int == hex_value(s@.subrange(a as int, b as int)),
{
    let mut acc: u32 = 0;
    let mut i: usize = a;
    proof {
        lemma_pow16_small((b - a) as nat);
    }
    while i < b
        invariant
            a <= i <= b <= s@.len(),
            b - a <= 6,
            all_hex(s@.subrange(a as int, b as int)),
            acc as int == hex_value(s@.subrange(a as int, i as int)),
            acc < pow16((i - a) as nat),
        decreases b - i,
    {
        assert(hex_digit(s@.subrange(a as int, b as int)[i - a]) is Some);
        assert(s@.subrange(a as int, b as int)[i - a] == s@[i as int]);
        let d = match hex_digit_exec(s[i]) {
            Some(d) => d,
            None => 0,
        };
        let ghost t = s@.subrange(a as int, i + 1);
        assert(t.drop_last() =~= s@.subrange(a as int, i as int));
        assert(t.last() == s@[i as int]);
        proof {
            lemma_pow16_small((i + 1 - a) as nat);
            let p = pow16((i - a) as nat);
            assert(pow16((i + 1 - a) as nat) == 16 * p);
            assert(acc * 16 + d < p * 16) by (nonlinear_arith)
                requires
                    acc < p,
                    d < 16,
            ;
        }
        acc = acc * 16 + d;
        i += 1;
    }
    acc
}

/// `char::from_u32`: the character whose scalar value is `v`.
///
/// Claims that it gives a character exactly when `v` is a Unicode scalar
/// value, and then the character of that value.
#[verifier::external_body]
fn char_from_u32(v: u32) -> (r: Option<char>)
    ensures
        r is Some <==> is_scalar(v as int),
        r matches Some(c) ==> c == (v as int) as char,
{
    char::from_u32(v)
}

/// The character of a `\xNN` escape at `s[i]`, where `s[i + 1] == 'x'`.
fn byte_escape_exec(s: &[char], i: usize) -> (r: Option<char>)
    requires
        i + 2 <= s.len(),
    ensures
        r == byte_escape(s@.skip(i + 2)),
{
    let ghost t = s@.skip(i + 2);
    let hp = hex_prefix_len_exec(s, i + 2);
    if hp < 2 {
        return None;
    }
    proof {
        lemma_hex_prefix(t, 2);
        assert(t.take(2) =~= s@.subrange(i + 2, i + 4));
    }
    let v = hex_value_exec(s, i + 2, i + 4);
    if v >= 0x80 {
        return None;
    }
    match char_from_u32(v) {
        Some(c) => Some(c),
        None => None,
    }
}

/// The number of digits of a `\u{H..H}` escape at `s[i]`, where
/// `s[i + 1] == 'u'`, and its character.
fn unicode_escape_exec(s: &[char], i: usize) -> (r: Option<(usize, char)>)
    requires
        i + 2 <= s.len(),
    ensures
        r matches Some((n, c)) ==> unicode_digits(s@.skip(i + 2)) == Some(n as int) && c == hex_value(
            s@.subrange(i + 3, i + 3 + n),
        ) as char && i + 4 + n <= s@.len(),
        r is None ==> unicode_digits(s@.skip(i + 2)) is None,
{
    let ghost t = s@.skip(i + 2);
    if s.len() - i < 3 || s[i + 2] != '{' {
        return None;
    }
    assert(t[0] == '{');
    assert(t.drop_first() =~= s@.skip(i + 3));
    let n = hex_prefix_len_exec(s, i + 3);
    proof {
        lemma_hex_prefix(s@.skip(i + 3), n as int);
    }
    if n < 1 || n > 6 || n >= s.len() - i - 3 || s[i + 3 + n] != '}' {
        proof {
            if n + 1 < t.len() {
                assert(t[n + 1] == s@[i + 3 + n]);
            }
        }
        return None;
    }
    assert(t[n + 1] == s@[i + 3 + n]);
    assert(t.subrange(1, n + 1) =~= s@.subrange(i + 3, i + 3 + n));
    assert(s@.skip(i + 3).take(n as int) =~= s@.subrange(i + 3, i + 3 + n));
    let v = hex_value_exec(s, i + 3, i + 3 + n);
    match char_from_u32(v) {
        Some(c) => Some((n, c)),
        None => None,
    }
}

/// Resolves the escapes of the content of a Rust string literal.
pub fn unescape_chars(s: &[char]) -> (r: Vec<char>)
    ensures
        r@ == unescape(s@),
{
    let mut r: Vec<char> = Vec::new();
    let mut i: usize = 0;
    assert(s@.skip(0) =~= s@);
    assert(r@ + unescape(s@) =~= unescape(s@));
    while i < s.len()
        invariant
            i <= s@.len(),
            unescape(s@) == r@ + unescape(s@.skip(i as int)),
        decreases s@.len() - i,
    {
        let ghost rest = s@.skip(i as int);
        let c = s[i];
        if c == '\\' {
            if i + 1 < s.len() {
                let d = s[i + 1];
                assert(rest.skip(2) =~= s@.skip(i + 2));
                let ghost before = r@;
                let mut done = false;
                if d == 'x' {
                    match byte_escape_exec(s, i) {
                        Some(ch) => {
                            r.push(ch);
                            assert(rest.skip(4) =~= s@.skip(i + 4));
                            i += 4;
                            done = true;
                        },
                        None => {},
                    }
                } else if d == 'u' {
                    match unicode_escape_exec(s, i) {
                        Some((n, ch)) => {
                            r.push(ch);
                            assert(rest.subrange(3, 3 + n as int) =~= s@.subrange(i + 3, i + 3 + n));
                            assert(rest.skip(4 + n as int) =~= s@.skip(i + 4 + n));
                            i += 4 + n;
                            done = true;
                        },
                        None => {},
                    }
                }
                if !done {
                    if d == 'n' {
                        r.push('\n');
                    } else if d == 'r' {
                        r.push('\r');
                    } else if d == 't' {
                        r.push('\t');
                    } else if d == '0' {
                        r.push('\0');
                    } else if d == '\\' {
                        r.push('\\');
                    } else if d == '"' {
                        r.push('"');
                    } else if d == '\'' {
                        r.push('\'');
                    } else {
                        r.push('\\');
                        r.push(d);
                    }
                    assert(r@ =~= before + escape_text(d));
                    i += 2;
                }
            } else {
                r.push('\\');
                i += 1;
                assert(s@.skip(i as int) =~= Seq::<char>::empty());
            }
        } else {
            assert(rest.drop_first() =~= s@.skip(i + 1));
            r.push(c);
            i += 1;
        }
        assert(unescape(s@) == r@ + unescape(s@.skip(i as int)));
    }
    assert(s@.skip(i as int) =~= Seq::<char>::empty());
    assert(r@ + Seq::<char>::empty() =~= r@);
    r
}

/// The text with each single quote doubled.
fn double_quotes_chars(s: &[char]) -> (r: Vec<char>)
    ensures
        r@ == double_quotes(s@),
{
    let mut r: Vec<char> = Vec::new();
    let mut i: usize = 0;
    while i < s.len()
        invariant
            i <= s@.len(),
            r@ == double_quotes(s@.take(i as int)),
        decreases s@.len() - i,
    {
        assert(s@.take(i + 1).drop_last() =~= s@.take(i as int));
        assert(s@.take(i + 1).last() == s@[i as int]);
        let c = s[i];
        if c == '\'' {
            r.push('\'');
            r.push('\'');
        } else {
            r.push(c);
        }
        i += 1;
        assert(r@ =~= double_quotes(s@.take(i as int)));
    }
    assert(s@.take(s@.len() as int) =~= s@);
    r
}

/// Resolves the escapes of the content of a Rust string literal, for SQL.
pub fn unescape_string(s: &str) -> (r: String)
    ensures
        r@ == unescape(s@),
{
    let v = chars_of(s);
    let u = unescape_chars(&v);
    string_of(&u)
}

/// The SQL text of a literal.
fn literal_chars(repr: &String) -> (r: Vec<char>)
    ensures
        r@ == literal_text(repr@),
{
    let v = chars_of(repr.as_str());
    let n = v.len();
    if n >= 2 && v[0] == '"' && v[n - 1] == '"' {
        let mut inner: Vec<char> = Vec::new();
        let mut i: usize = 1;
        while i < n - 1
            invariant
                1 <= i <= n - 1,
                n == v@.len(),
                inner@ == v@.subrange(1, i as int),
            decreases n - 1 - i,
        {
            inner.push(v[i]);
            i += 1;
            assert(inner@ =~= v@.subrange(1, i as int));
        }
        let u = unescape_chars(&inner);
        let q = double_quotes_chars(&u);
        let mut r: Vec<char> = Vec::new();
        r.push('\'');
        push_all(&mut r, &q);
        r.push('\'');
        assert(r@ =~= seq!['\''] + q@ + seq!['\'']);
        r
    } else {
        v
    }
}

fn open_chars(d: Delimiter) -> (r: Vec<char>)
    ensures
        r@ == open_text(d),
{
    let mut r: Vec<char> = Vec::new();
    match d {
        Delimiter::Parenthesis => r.push('('),
        Delimiter::Brace => r.push('{'),
        Delimiter::Bracket => r.push('['),
        Delimiter::Invisible => {},
    }
    assert(r@ =~= open_text(d));
    r
}

fn close_chars(d: Delimiter) -> (r: Vec<char>)
    ensures
        r@ == close_text(d),
{
    let mut r: Vec<char> = Vec::new();
    match d {
        Delimiter::Parenthesis => r.push(')'),
        Delimiter::Brace => r.push('}'),
        Delimiter::Bracket => r.push(']'),
        Delimiter::Invisible => {},
    }
    assert(r@ =~= close_text(d));
    r
}

/// The text of one token.
fn token_chars(t: &Token) -> (r: Vec<char>)
    ensures
        r@ == token_text(*t),
    decreases t, 1int,
{
    match t {
        Token::Literal(repr) => literal_chars(repr),
        Token::Ident(s) => chars_of(s.as_str()),
        Token::Punct(c) => {
            let mut r: Vec<char> = Vec::new();
            r.push(*c);
            assert(r@ =~= seq![*c]);
            r
        },
        Token::Group(d, ts) => {
            let mut r = open_chars(*d);
            let parts = token_parts(ts.as_slice());
            let inner = join_chars(&parts);
            push_all(&mut r, &inner);
            let close = close_chars(*d);
            push_all(&mut r, &close);
            r
        },
    }
}

/// The texts of a list of tokens.
fn token_parts(ts: &[Token]) -> (r: Vec<Vec<char>>)
    ensures
        r@.map_values(|p: Vec<char>| p@) == parts_of(ts@),
    decreases ts@, 0int,
{
    let mut r: Vec<Vec<char>> = Vec::new();
    let mut i: usize = 0;
    assert(r@.map_values(|p: Vec<char>| p@) =~= parts_of(ts@.take(0)));
    while i < ts.len()
        invariant
            i <= ts@.len(),
            r@.map_values(|p: Vec<char>| p@) == parts_of(ts@.take(i as int)),
        decreases ts@.len() - i,
    {
        let ghost before = r@.map_values(|p: Vec<char>| p@);
        assert(ts@.take(i + 1).drop_last() =~= ts@.take(i as int));
        assert(ts@.take(i + 1).last() == ts@[i as int]);
        let p = token_chars(&ts[i]);
        let ghost pv = p@;
        r.push(p);
        assert(r@.map_values(|p: Vec<char>| p@) =~= before.push(pv));
        i += 1;
    }
    assert(ts@.take(ts@.len() as int) =~= ts@);
    r
}

/// Whether `p` is a single ASCII character that is not a letter or digit.
fn is_punct_exec(p: &Vec<char>) -> (r: bool)
    ensures
        r == is_punct(p@),
{
    if p.len() != 1 {
        return false;
    }
    let u = p[0] as u32;
    u < 0x80 && !(('a' as u32 <= u && u <= 'z' as u32) || ('A' as u32 <= u && u <= 'Z' as u32) || (
    '0' as u32 <= u && u <= '9' as u32))
}

fn is_single(p: &Vec<char>, c: char) -> (r: bool)
    ensures
        r == (p@ == seq![c]),
{
    if p.len() == 1 && p[0] == c {
        assert(p@ =~= seq![c]);
        true
    } else {
        assert(p@ != seq![c]) by {
            if p@ =~= seq![c] {
                assert(p@[0] == c);
            }
        }
        false
    }
}

fn is_closing_exec(p: &Vec<char>) -> (r: bool)
    ensures
        r == is_closing(p@),
{
    is_single(p, ')') || is_single(p, ']') || is_single(p, ',') || is_single(p, ';')
}

fn space_between_exec(prev: &Vec<char>, cur: &Vec<char>) -> (r: bool)
    ensures
        r == space_between(prev@, cur@),
{
    if is_single(prev, '-') && is_single(cur, '-') {
        true
    } else if is_closing_exec(cur) || is_punct_exec(cur) {
        false
    } else if is_closing_exec(prev) || is_single(prev, '}') {
        true
    } else {
        !is_punct_exec(prev) || is_closing_exec(prev)
    }
}

/// Joins parts, putting a space where `space_between` puts one.
fn join_chars(parts: &Vec<Vec<char>>) -> (r: Vec<char>)
    ensures
        r@ == join_parts(parts@.map_values(|p: Vec<char>| p@)),
{
    let ghost ps = parts@.map_values(|p: Vec<char>| p@);
    let mut r: Vec<char> = Vec::new();
    let mut i: usize = 0;
    assert(r@ =~= join_parts(ps.take(0)));
    while i < parts.len()
        invariant
            i <= parts@.len(),
            ps == parts@.map_values(|p: Vec<char>| p@),
            r@ == join_parts(ps.take(i as int)),
        decreases parts@.len() - i,
    {
        let ghost before = r@;
        assert(ps.take(i + 1).drop_last() =~= ps.take(i as int));
        if i > 0 {
            assert(ps.take(i + 1)[i - 1] == ps[i - 1]);
            if space_between_exec(&parts[i - 1], &parts[i]) {
                r.push(' ');
            }
            push_all(&mut r, &parts[i]);
            assert(r@ =~= join_parts(ps.take(i + 1)));
        } else {
            push_all(&mut r, &parts[i]);
            assert(r@ =~= join_parts(ps.take(i + 1)));
        }
        i += 1;
    }
    assert(ps.take(parts@.len() as int) =~= ps);
    r
}

/// The SQL text of a token stream, as characters.
pub fn stream_chars(stream: &[Token]) -> (r: Vec<char>)
    ensures
        r@ == stream_text(stream@),
{
    let parts = token_parts(stream);
    join_chars(&parts)
}

/// The SQL text of a token stream: string literals become SQL strings, and
/// the parts are joined with spaces between words but none before
/// punctuation.
pub fn process_token_stream(stream: &[Token]) -> (r: String)
    ensures
        r@ == stream_text(stream@),
{
    let v = stream_chars(stream);
    string_of(&v)
}

/// No space goes before a punctuation character: whatever part comes before
/// it, an ASCII character that is not a letter or a digit is joined to it,
/// so that `>` `=` stay `>=`; the one exception is a minus sign after a minus
/// sign, which would otherwise start a SQL comment.
pub proof fn law_no_space_before_punctuation(prev: Seq<char>, c: char)
    requires
        (c as u32) < 0x80,
        !(('a' as u32) <= (c as u32) <= ('z' as u32) || ('A' as u32) <= (c as u32) <= ('Z' as u32)
            || ('0' as u32) <= (c as u32) <= ('9' as u32)),
        !(prev == seq!['-'] && c == '-'),
    ensures
        !space_between(prev, seq![c]),
{
}

/// A punctuation token added at the end of a token stream adds its
/// character, and nothing else, to the end of the stream's SQL text (unless
/// it is a minus sign after a minus sign): `x` `>` `=` gives `x>=`.
pub proof fn law_punctuation_appends(ts: Seq<Token>, c: char)
    requires
        ts.len() > 0,
        (c as u32) < 0x80,
        !(('a' as u32) <= (c as u32) <= ('z' as u32) || ('A' as u32) <= (c as u32) <= ('Z' as u32)
            || ('0' as u32) <= (c as u32) <= ('9' as u32)),
        !(token_text(ts.last()) == seq!['-'] && c == '-'),
    ensures
        stream_text(ts.push(Token::Punct(c))) == stream_text(ts) + seq![c],
{
    let t = ts.push(Token::Punct(c));
    assert(t.drop_last() =~= ts);
    assert(t.last() == Token::Punct(c));
    let ps = parts_of(t);
    assert(token_text(Token::Punct(c)) == seq![c]);
    assert(ps == parts_of(t.drop_last()).push(token_text(t.last())));
    assert(ps == parts_of(ts).push(seq![c]));
    assert(ps.drop_last() =~= parts_of(ts));
    lemma_parts_len(ts);
    assert(ps[ps.len() - 2] == token_text(ts.last())) by {
        lemma_parts_last(ts);
    }
    law_no_space_before_punctuation(token_text(ts.last()), c);
    assert(join_parts(ps) =~= join_parts(parts_of(ts)) + seq![c]);
}

proof fn lemma_parts_len(ts: Seq<Token>)
    ensures
        parts_of(ts).len() == ts.len(),
    decreases ts.len(),
{
    if ts.len() > 0 {
        lemma_parts_len(ts.drop_last());
    }
}

proof fn lemma_parts_last(ts: Seq<Token>)
    requires
        ts.len() > 0,
    ensures
        parts_of(ts).last() == token_text(ts.last()),
{
}

/// A string literal without escapes or single quotes keeps its content: its
/// SQL text is the same characters between single quotes.
pub proof fn law_plain_string_literal(content: Seq<char>)
    requires
        forall|i: int| 0 <= i < content.len() ==> content[i] != '\\' && content[i] != '\'',
    ensures
        literal_text(seq!['"'] + content + seq!['"']) == seq!['\''] + content + seq!['\''],
{
    let repr = seq!['"'] + content + seq!['"'];
    assert(repr.subrange(1, repr.len() - 1) =~= content);
    lemma_unescape_plain(content);
    lemma_double_quotes_plain(content);
}

proof fn lemma_double_quotes_plain(s: Seq<char>)
    requires
        forall|i: int| 0 <= i < s.len() ==> s[i] != '\'',
    ensures
        double_quotes(s) == s,
    decreases s.len(),
{
    if s.len() > 0 {
        lemma_double_quotes_plain(s.drop_last());
        assert(s.drop_last() + seq![s.last()] =~= s);
    }
}

proof fn lemma_unescape_plain(s: Seq<char>)
    requires
        forall|i: int| 0 <= i < s.len() ==> s[i] != '\\',
    ensures
        unescape(s) == s,
    decreases s.len(),
{
    if s.len() > 0 {
        assert forall|i: int| 0 <= i < s.drop_first().len() implies s.drop_first()[i] != '\\' by {
            assert(s.drop_first()[i] == s[i + 1]);
        }
        lemma_unescape_plain(s.drop_first());
        assert(seq![s[0]] + s.drop_first() =~= s);
    }
}

} // verus!
