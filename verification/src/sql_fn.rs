//! What the `sql_fn!` macro reads from the text of a function definition
//! whose body is bare SQL: its doc comments, visibility, name, parameters,
//! return type and SQL, and the SQL with each `{param}` replaced by `?`,
//! checked by the ANSI parser.
use vstd::prelude::*;

use crate::parser::{parse_statements, spec_ansi_parse};
use crate::query::Query;
use crate::sql::{QueryType, Sql};
use crate::text::{
    chars_of, leading_ws, leading_ws_from, occurs_at, occurs_at_exec, trailing_ws, find, find_char, find_char_exec, find_exec, is_whitespace, is_ws,
    lemma_find_from_found, lemma_leading_ws_bound, push_all,
    slice_of, split_char, split_exec, starts_with, starts_with_exec,
    string_of, trim, trim_chars, trim_start, trim_start_chars,
};

verus! {

// ------------------------------------------------------------------
// Types
// ------------------------------------------------------------------

/// A parameter of the function: its name and its type, as written.
pub struct ParamDef {
    pub name: String,
    pub ty: String,
}

/// What `sql_fn!` reads from a function definition.
pub struct SqlFnDef {
    /// The doc comment lines (`/// ...`), in order.
    pub doc_comments: Vec<String>,
    /// Whether the function is declared `pub`.
    pub is_pub: bool,
    /// The function's name.
    pub name: String,
    /// The text between the parentheses of the parameter list.
    pub params_str: String,
    /// The parameters that have a `name: type` form.
    pub params: Vec<ParamDef>,
    /// The declared return type, or empty.
    pub return_type: String,
    /// The SQL of the body.
    pub sql: String,
    /// The SQL with each `{param}` replaced by `?`: the SQL of the query.
    pub validation_sql: String,
}

/// Why `sql_fn!` rejects a definition.
#[derive(Debug)]
pub enum SqlFnError {
    NotAFunction,
    MissingParams,
    UnclosedParams,
    MissingBody,
    UnclosedBody,
    EmptyBody,
    /// The SQL does not parse; the parser's message.
    Syntax(String),
}

/// The reasons for rejection, with the parser's message as text.
pub enum SqlFnFailure {
    NotAFunction,
    MissingParams,
    UnclosedParams,
    MissingBody,
    UnclosedBody,
    EmptyBody,
    Syntax(Seq<char>),
}

/// The reason of an error, with the parser's message as text.
pub open spec fn failure_of(e: SqlFnError) -> SqlFnFailure {
    match e {
        SqlFnError::NotAFunction => SqlFnFailure::NotAFunction,
        SqlFnError::MissingParams => SqlFnFailure::MissingParams,
        SqlFnError::UnclosedParams => SqlFnFailure::UnclosedParams,
        SqlFnError::MissingBody => SqlFnFailure::MissingBody,
        SqlFnError::UnclosedBody => SqlFnFailure::UnclosedBody,
        SqlFnError::EmptyBody => SqlFnFailure::EmptyBody,
        SqlFnError::Syntax(m) => SqlFnFailure::Syntax(m@),
    }
}

/// The signature of the function.
pub struct SignatureView {
    pub is_pub: bool,
    pub name: Seq<char>,
    pub params_str: Seq<char>,
    pub return_type: Seq<char>,
}

/// What the signature stage finds.
pub enum SignatureOutcome {
    Found(SignatureView),
    Failed(SqlFnFailure),
    /// The first `)` comes before the first `(`: the parameter list would be
    /// the text between them with its bounds reversed, which the macro
    /// cannot take (it stops with a panic).
    OutOfOrder,
}

/// What the body stage finds.
pub enum BodyOutcome {
    Found(Seq<char>),
    Failed(SqlFnFailure),
}

/// What `sql_fn!` reads, as plain values.
pub struct SqlFnView {
    pub doc_comments: Seq<Seq<char>>,
    pub is_pub: bool,
    pub name: Seq<char>,
    pub params_str: Seq<char>,
    pub params: Seq<(Seq<char>, Seq<char>)>,
    pub return_type: Seq<char>,
    pub sql: Seq<char>,
    pub validation_sql: Seq<char>,
}

/// The result of `sql_fn!` on a definition.
pub enum SqlFnOutcome {
    Defined(SqlFnView),
    Failed(SqlFnFailure),
}

/// The names and types of parameters, as text.
pub open spec fn param_views(ps: Seq<ParamDef>) -> Seq<(Seq<char>, Seq<char>)> {
    ps.map_values(|p: ParamDef| (p.name@, p.ty@))
}

impl SqlFnDef {
    pub open spec fn view(&self) -> SqlFnView {
        SqlFnView {
            doc_comments: self.doc_comments@.map_values(|s: String| s@),
            is_pub: self.is_pub,
            name: self.name@,
            params_str: self.params_str@,
            params: param_views(self.params@),
            return_type: self.return_type@,
            sql: self.sql@,
            validation_sql: self.validation_sql@,
        }
    }
}

// ------------------------------------------------------------------
// Specifications
// ------------------------------------------------------------------

/// `///`.
pub open spec fn doc_marker() -> Seq<char> {
    seq!['/', '/', '/']
}

/// Removes the doc comments (`///` up to and including the end of the line)
/// from the text, collecting them trimmed; a doc comment that runs to the
/// end of the text ends the text.
pub open spec fn strip_docs(cleaned: Seq<char>) -> (Seq<char>, Seq<Seq<char>>)
    decreases cleaned.len(),
{
    let trimmed = trim_start(cleaned);
    match find(trimmed, doc_marker()) {
        None => (cleaned, seq![]),
        Some(pos) => {
            proof {
                lemma_leading_ws_bound(cleaned);
                lemma_find_from_found(trimmed, doc_marker(), 0);
                lemma_find_from_found(trimmed.skip(pos), seq!['\n'], 0);
            }
            match find_char(trimmed.skip(pos), '\n') {
                Some(nl) => {
                    let doc = trim(trimmed.subrange(pos, pos + nl + 1));
                    let next = trimmed.take(pos) + trimmed.skip(pos + nl + 1);
                    let rest = strip_docs(next);
                    (rest.0, seq![doc] + rest.1)
                },
                None => {
                    let doc = trim(trimmed.skip(pos));
                    (
                        trim(trimmed.take(pos)),
                        if doc.len() > 0 {
                            seq![doc]
                        } else {
                            seq![]
                        },
                    )
                },
            }
        },
    }
}

/// The position just past the `]` that closes an attribute, scanning `s`
/// from `i` with `depth` brackets open; the end of `s` if none closes it.
pub open spec fn attr_end(s: Seq<char>, i: int, depth: int) -> int
    decreases s.len() - i,
{
    if i < 0 || i >= s.len() {
        s.len() as int
    } else {
        let d = depth + (if s[i] == '[' {
            1int
        } else {
            0int
        }) - (if s[i] == ']' {
            1int
        } else {
            0int
        });
        if d == 0 {
            i + 1
        } else {
            attr_end(s, i + 1, d)
        }
    }
}

/// `attr_end` moves forward and stays within the text.
pub proof fn lemma_attr_end_bounds(s: Seq<char>, i: int, depth: int)
    requires
        0 <= i <= s.len(),
    ensures
        i <= attr_end(s, i, depth) <= s.len(),
        i < s.len() ==> i + 1 <= attr_end(s, i, depth),
    decreases s.len() - i,
{
    if i < s.len() {
        let d = depth + (if s[i] == '[' {
            1int
        } else {
            0int
        }) - (if s[i] == ']' {
            1int
        } else {
            0int
        });
        if d != 0 {
            lemma_attr_end_bounds(s, i + 1, d);
        }
    }
}

/// `#[`.
pub open spec fn attr_marker() -> Seq<char> {
    seq!['#', '[']
}

/// Removes the outer attributes (`#[...]`) at the start of the text.
pub open spec fn strip_attrs(cleaned: Seq<char>) -> Seq<char>
    decreases cleaned.len(),
{
    let trimmed = trim_start(cleaned);
    if starts_with(trimmed, attr_marker()) {
        proof {
            lemma_leading_ws_bound(cleaned);
            lemma_attr_end_bounds(trimmed, 2, 1);
        }
        strip_attrs(trimmed.skip(attr_end(trimmed, 2, 1)))
    } else {
        cleaned
    }
}

/// The text once its doc comments and attributes are removed, and the doc
/// comments.
pub open spec fn front(item: Seq<char>) -> (Seq<char>, Seq<Seq<char>>) {
    let docs = strip_docs(trim(item));
    (strip_attrs(docs.0), docs.1)
}

/// The end of a function name: the first `(` or whitespace, from `i`.
pub open spec fn name_end_from(s: Seq<char>, i: int) -> int
    decreases s.len() - i,
{
    if i < 0 || i >= s.len() {
        s.len() as int
    } else if s[i] == '(' || is_ws(s[i]) {
        i
    } else {
        name_end_from(s, i + 1)
    }
}

/// `pub `.
pub open spec fn pub_marker() -> Seq<char> {
    seq!['p', 'u', 'b', ' ']
}

/// `fn `.
pub open spec fn fn_marker() -> Seq<char> {
    seq!['f', 'n', ' ']
}

/// `->`.
pub open spec fn arrow_marker() -> Seq<char> {
    seq!['-', '>']
}

/// The signature: an optional `pub `, then `fn `, the name, the parameter
/// list and the return type.
pub open spec fn signature(cleaned: Seq<char>) -> SignatureOutcome {
    let trimmed = trim_start(cleaned);
    let is_pub = starts_with(trimmed, pub_marker());
    let rest0 = if is_pub {
        trimmed.skip(4)
    } else {
        trimmed
    };
    if !starts_with(trim(rest0), fn_marker()) {
        SignatureOutcome::Failed(SqlFnFailure::NotAFunction)
    } else {
        let rest = trim_start(trim(rest0).skip(3));
        let name = rest.take(name_end_from(rest, 0));
        match find_char(rest, '(') {
            None => SignatureOutcome::Failed(SqlFnFailure::MissingParams),
            Some(open) => match find_char(rest, ')') {
                None => SignatureOutcome::Failed(SqlFnFailure::UnclosedParams),
                Some(close) => if open + 1 > close {
                    SignatureOutcome::OutOfOrder
                } else {
                    let after = trim_start(rest.skip(close + 1));
                    let return_type = if starts_with(after, arrow_marker()) {
                        let rt_end = match find_char(after, '{') {
                            Some(k) => k,
                            None => after.len() as int,
                        };
                        trim(after.subrange(2, rt_end))
                    } else {
                        seq![]
                    };
                    SignatureOutcome::Found(
                        SignatureView {
                            is_pub,
                            name,
                            params_str: rest.subrange(open + 1, close),
                            return_type,
                        },
                    )
                },
            },
        }
    }
}

/// The position of the `}` that closes the body, scanning `s` from `i`
/// with `depth` braces open.
pub open spec fn body_close(s: Seq<char>, i: int, depth: int) -> Option<int>
    decreases s.len() - i,
{
    if i < 0 || i >= s.len() {
        None
    } else if s[i] == '{' {
        body_close(s, i + 1, depth + 1)
    } else if s[i] == '}' {
        if depth - 1 == 0 {
            Some(i)
        } else {
            body_close(s, i + 1, depth - 1)
        }
    } else {
        body_close(s, i + 1, depth)
    }
}

/// The body: the text between the first `{` and the `}` that closes it.
pub open spec fn body(cleaned: Seq<char>) -> BodyOutcome {
    match find_char(cleaned, '{') {
        None => BodyOutcome::Failed(SqlFnFailure::MissingBody),
        Some(start) => match body_close(cleaned, start + 1, 1) {
            None => BodyOutcome::Failed(SqlFnFailure::UnclosedBody),
            Some(end) => BodyOutcome::Found(cleaned.subrange(start + 1, end)),
        },
    }
}

/// A parameter `name: type`, trimmed; `None` without a `:`.
pub open spec fn param_of(piece: Seq<char>) -> Option<(Seq<char>, Seq<char>)> {
    let p = trim(piece);
    match find_char(p, ':') {
        None => None,
        Some(c) => Some((trim(p.take(c)), trim(p.skip(c + 1)))),
    }
}

/// A parameter is split at its first colon: for a piece `name:type` that
/// neither starts nor ends with whitespace, where the name holds no colon,
/// the parameter is the trimmed name and the trimmed type, whatever colons
/// the type holds (`id : uuid :: Uuid` is the parameter `id` of type
/// `uuid :: Uuid`).
pub proof fn law_param_splits_at_first_colon(name: Seq<char>, ty: Seq<char>)
    requires
        name.len() > 0,
        ty.len() > 0,
        !is_ws(name[0]),
        !is_ws(ty.last()),
        forall|i: int| 0 <= i < name.len() ==> name[i] != ':',
    ensures
        param_of(name + seq![':'] + ty) == Some((trim(name), trim(ty))),
{
    let piece = name + seq![':'] + ty;
    assert(piece[0] == name[0]);
    assert(piece.last() == ty.last());
    assert(leading_ws(piece) == 0);
    assert(trailing_ws(piece) == 0);
    assert(trim_start(piece) =~= piece);
    assert(trim(piece) =~= piece);
    let k = name.len() as int;
    lemma_find_from_found(piece, seq![':'], 0);
    assert(occurs_at(piece, seq![':'], k)) by {
        assert(piece.subrange(k, k + 1) =~= seq![':']);
    }
    match find_char(piece, ':') {
        Some(j) => {
            if j < k {
                assert(piece.subrange(j, j + 1)[0] == piece[j]);
                assert(piece[j] == name[j]);
            }
            assert(j == k);
        },
        None => {},
    }
    assert(piece.take(k) =~= name);
    assert(piece.skip(k + 1) =~= ty);
}

/// The parameters of the comma-separated pieces that have a `:`.
pub open spec fn params_of_pieces(pieces: Seq<Seq<char>>) -> Seq<(Seq<char>, Seq<char>)>
    decreases pieces.len(),
{
    if pieces.len() == 0 {
        seq![]
    } else {
        params_of_pieces(pieces.drop_last()) + match param_of(pieces.last()) {
            Some(p) => seq![p],
            None => seq![],
        }
    }
}

/// The parameters of a parameter list.
pub open spec fn params_of(params_str: Seq<char>) -> Seq<(Seq<char>, Seq<char>)> {
    if trim(params_str).len() == 0 {
        seq![]
    } else {
        params_of_pieces(split_char(params_str, ','))
    }
}

/// The length of a placeholder of `name` at the start of `s`, if one is
/// there: `{`, the name and `}`, with any whitespace around the name (the
/// macro's token text writes `{name}` as `{ name }`).
pub open spec fn placeholder_at(s: Seq<char>, name: Seq<char>) -> Option<int> {
    if s.len() > 0 && s[0] == '{' {
        let a = leading_ws(s.drop_first()) as int;
        let after_name = 1 + a + name.len();
        if after_name <= s.len() && s.subrange(1 + a, after_name) == name {
            let b = leading_ws(s.skip(after_name)) as int;
            if after_name + b < s.len() && s[after_name + b] == '}' {
                Some(after_name + b + 1)
            } else {
                None
            }
        } else {
            None
        }
    } else {
        None
    }
}

/// The text with each placeholder of `name` replaced by `?`, left to right.
pub open spec fn replace_placeholders(s: Seq<char>, name: Seq<char>) -> Seq<char>
    decreases s.len(),
{
    if s.len() == 0 {
        seq![]
    } else {
        match placeholder_at(s, name) {
            Some(k) => seq!['?'] + replace_placeholders(s.skip(k), name),
            None => seq![s[0]] + replace_placeholders(s.drop_first(), name),
        }
    }
}

/// The SQL with each placeholder `{name}` replaced by `?`, for each
/// parameter in order.
pub open spec fn substitute(sql: Seq<char>, params: Seq<(Seq<char>, Seq<char>)>) -> Seq<char>
    decreases params.len(),
{
    if params.len() == 0 {
        sql
    } else {
        replace_placeholders(substitute(sql, params.drop_last()), params.last().0)
    }
}

/// What `sql_fn!` makes of the text of a function definition.
pub open spec fn sql_fn_outcome(item: Seq<char>) -> SqlFnOutcome {
    let (cleaned, docs) = front(item);
    match signature(cleaned) {
        SignatureOutcome::Failed(f) => SqlFnOutcome::Failed(f),
        SignatureOutcome::OutOfOrder => SqlFnOutcome::Failed(SqlFnFailure::UnclosedParams),
        SignatureOutcome::Found(sig) => match body(cleaned) {
            BodyOutcome::Failed(f) => SqlFnOutcome::Failed(f),
            BodyOutcome::Found(b) => {
                let params = params_of(sig.params_str);
                let sql = trim(b);
                if sql.len() == 0 {
                    SqlFnOutcome::Failed(SqlFnFailure::EmptyBody)
                } else {
                    let validation_sql = substitute(sql, params);
                    if let Err(message) = spec_ansi_parse(validation_sql) {
                        SqlFnOutcome::Failed(SqlFnFailure::Syntax(message))
                    } else {
                        SqlFnOutcome::Defined(
                            SqlFnView {
                                doc_comments: docs,
                                is_pub: sig.is_pub,
                                name: sig.name,
                                params_str: sig.params_str,
                                params,
                                return_type: sig.return_type,
                                sql,
                                validation_sql,
                            },
                        )
                    }
                }
            },
        },
    }
}

/// The first `)` of the definition comes before its first `(`, so that its
/// parameter list has reversed bounds: the macro stops with a panic there.
pub open spec fn params_out_of_order(item: Seq<char>) -> bool {
    signature(front(item).0) is OutOfOrder
}

// ------------------------------------------------------------------
// Executable
// ------------------------------------------------------------------

/// The texts of a list of character vectors.
pub open spec fn char_texts(v: Seq<Vec<char>>) -> Seq<Seq<char>> {
    v.map_values(|d: Vec<char>| d@)
}

/// Removes the doc comments, as `strip_docs` says.
fn strip_docs_exec(start: &[char]) -> (r: (Vec<char>, Vec<Vec<char>>))
    ensures
        r.0@ == strip_docs(start@).0,
        char_texts(r.1@) == strip_docs(start@).1,
{
    let mut cleaned = slice_of(start, 0, start.len());
    let mut docs: Vec<Vec<char>> = Vec::new();
    let marker = ['/', '/', '/'];
    let newline = ['\n'];
    assert(marker@ =~= doc_marker());
    assert(start@.subrange(0, start@.len() as int) =~= start@);
    assert(char_texts(docs@) + strip_docs(cleaned@).1 =~= strip_docs(cleaned@).1);
    loop
        invariant_except_break
            marker@ == doc_marker(),
            strip_docs(start@).0 == strip_docs(cleaned@).0,
            strip_docs(start@).1 == char_texts(docs@) + strip_docs(cleaned@).1,
        ensures
            strip_docs(start@).0 == cleaned@,
            strip_docs(start@).1 == char_texts(docs@),
        decreases cleaned@.len(),
    {
        let trimmed = trim_start_chars(&cleaned);
        proof {
            lemma_leading_ws_bound(cleaned@);
        }
        match find_exec(&trimmed, &marker) {
            None => {
                assert(char_texts(docs@) + Seq::<Seq<char>>::empty() =~= char_texts(docs@));
                break ;
            },
            Some(pos) => {
                proof {
                    lemma_find_from_found(trimmed@, doc_marker(), 0);
                }
                let tail = slice_of(&trimmed, pos, trimmed.len());
                assert(tail@ =~= trimmed@.skip(pos as int));
                match find_char_exec(&tail, '\n') {
                    Some(nl) => {
                        proof {
                            lemma_find_from_found(tail@, seq!['\n'], 0);
                        }
                        let line = slice_of(&trimmed, pos, pos + nl + 1);
                        let doc = trim_chars(&line);
                        let ghost before = char_texts(docs@);
                        let ghost dv = doc@;
                        docs.push(doc);
                        assert(char_texts(docs@) =~= before.push(dv));
                        let mut next = slice_of(&trimmed, 0, pos);
                        let after = slice_of(&trimmed, pos + nl + 1, trimmed.len());
                        push_all(&mut next, &after);
                        assert(next@ =~= trimmed@.take(pos as int) + trimmed@.skip(pos + nl + 1));
                        assert(char_texts(docs@) + strip_docs(next@).1 =~= before + (seq![dv]
                            + strip_docs(next@).1));
                        cleaned = next;
                    },
                    None => {
                        let doc = trim_chars(&tail);
                        let ghost before = char_texts(docs@);
                        if doc.len() > 0 {
                            let ghost dv = doc@;
                            docs.push(doc);
                            assert(char_texts(docs@) =~= before + seq![dv]);
                        } else {
                            assert(char_texts(docs@) =~= before + Seq::<Seq<char>>::empty());
                        }
                        let head = slice_of(&trimmed, 0, pos);
                        cleaned = trim_chars(&head);
                        break ;
                    },
                }
            },
        }
    }
    (cleaned, docs)
}

/// `attr_end(s, 2, 1)`, computed.
fn attr_end_exec(s: &[char]) -> (r: usize)
    requires
        2 <= s@.len(),
    ensures
        r == attr_end(s@, 2, 1),
{
    let mut depth: usize = 1;
    let mut pos: usize = 2;
    while pos < s.len()
        invariant
            2 <= pos <= s@.len(),
            1 <= depth <= pos,
            attr_end(s@, 2, 1) == attr_end(s@, pos as int, depth as int),
        decreases s@.len() - pos,
    {
        let c = s[pos];
        if c == '[' {
            depth += 1;
        }
        if c == ']' {
            depth -= 1;
        }
        pos += 1;
        if depth == 0 {
            return pos;
        }
    }
    pos
}

/// Removes the attributes at the start, as `strip_attrs` says.
fn strip_attrs_exec(start: &[char]) -> (r: Vec<char>)
    ensures
        r@ == strip_attrs(start@),
{
    let mut cleaned = slice_of(start, 0, start.len());
    let marker = ['#', '['];
    assert(marker@ =~= attr_marker());
    assert(start@.subrange(0, start@.len() as int) =~= start@);
    loop
        invariant_except_break
            marker@ == attr_marker(),
            strip_attrs(start@) == strip_attrs(cleaned@),
        ensures
            strip_attrs(start@) == cleaned@,
        decreases cleaned@.len(),
    {
        let trimmed = trim_start_chars(&cleaned);
        proof {
            lemma_leading_ws_bound(cleaned@);
        }
        if starts_with_exec(&trimmed, &marker) {
            let end = attr_end_exec(&trimmed);
            proof {
                lemma_attr_end_bounds(trimmed@, 2, 1);
            }
            cleaned = slice_of(&trimmed, end, trimmed.len());
        } else {
            break ;
        }
    }
    cleaned
}

/// The signature, as found by the signature stage.
struct Signature {
    is_pub: bool,
    name: Vec<char>,
    params_str: Vec<char>,
    return_type: Vec<char>,
}

/// `name_end_from(s, 0)`, computed.
fn name_end_exec(s: &[char]) -> (r: usize)
    ensures
        r == name_end_from(s@, 0),
        r <= s@.len(),
{
    let mut i: usize = 0;
    while i < s.len()
        invariant
            i <= s@.len(),
            name_end_from(s@, 0) == name_end_from(s@, i as int),
        decreases s@.len() - i,
    {
        if s[i] == '(' || is_whitespace(s[i]) {
            return i;
        }
        i += 1;
    }
    i
}

/// The signature stage, as `signature` says.
fn signature_exec(cleaned: &[char]) -> (r: Result<Signature, SqlFnError>)
    requires
        !(signature(cleaned@) is OutOfOrder),
    ensures
        r matches Ok(s) ==> signature(cleaned@) == SignatureOutcome::Found(
            SignatureView {
                is_pub: s.is_pub,
                name: s.name@,
                params_str: s.params_str@,
                return_type: s.return_type@,
            },
        ),
        r matches Err(e) ==> signature(cleaned@) == SignatureOutcome::Failed(failure_of(e)),
{
    let trimmed = trim_start_chars(cleaned);
    let pub_m = ['p', 'u', 'b', ' '];
    let fn_m = ['f', 'n', ' '];
    let arrow = ['-', '>'];
    assert(pub_m@ =~= pub_marker());
    assert(fn_m@ =~= fn_marker());
    assert(arrow@ =~= arrow_marker());
    let is_pub = starts_with_exec(&trimmed, &pub_m);
    let rest0 = if is_pub {
        slice_of(&trimmed, 4, trimmed.len())
    } else {
        slice_of(&trimmed, 0, trimmed.len())
    };
    assert(trimmed@.subrange(0, trimmed@.len() as int) =~= trimmed@);
    let rest0t = trim_chars(&rest0);
    if !starts_with_exec(&rest0t, &fn_m) {
        return Err(SqlFnError::NotAFunction);
    }
    let after_fn = slice_of(&rest0t, 3, rest0t.len());
    let rest = trim_start_chars(&after_fn);
    let name_end = name_end_exec(&rest);
    let name = slice_of(&rest, 0, name_end);
    let open = match find_char_exec(&rest, '(') {
        Some(i) => i,
        None => {
            return Err(SqlFnError::MissingParams);
        },
    };
    let close = match find_char_exec(&rest, ')') {
        Some(i) => i,
        None => {
            return Err(SqlFnError::UnclosedParams);
        },
    };
    proof {
        lemma_find_from_found(rest@, seq!['('], 0);
        lemma_find_from_found(rest@, seq![')'], 0);
    }
    assert(close + 1 <= rest@.len());
    assert(rest@.len() == rest.len());
    let params_str = slice_of(&rest, open + 1, close);
    let after_params = slice_of(&rest, close + 1, rest.len());
    let after = trim_start_chars(&after_params);
    let return_type = if starts_with_exec(&after, &arrow) {
        let rt_end = match find_char_exec(&after, '{') {
            Some(k) => k,
            None => after.len(),
        };
        proof {
            lemma_find_from_found(after@, seq!['{'], 0);
            if let Some(k) = find_char(after@, '{') {
                assert(after@.subrange(0, 2) == arrow_marker());
                assert(k >= 2) by {
                    if k < 2 {
                        assert(after@.subrange(k, k + 1)[0] == after@[k]);
                        assert(after@.subrange(0, 2)[k] == after@[k]);
                    }
                }
            }
        }
        let rt = slice_of(&after, 2, rt_end);
        trim_chars(&rt)
    } else {
        Vec::new()
    };
    assert(return_type@ == (if starts_with(after@, arrow_marker()) {
        let rt_end = match find_char(after@, '{') {
            Some(k) => k,
            None => after@.len() as int,
        };
        trim(after@.subrange(2, rt_end))
    } else {
        seq![]
    }));
    Ok(Signature { is_pub, name, params_str, return_type })
}

/// `body_close(s, i, 1)`, computed.
fn body_close_exec(s: &[char], start: usize) -> (r: Option<usize>)
    requires
        1 <= start <= s@.len(),
    ensures
        r matches Some(k) ==> body_close(s@, start as int, 1) == Some(k as int) && start <= k
            < s@.len(),
        r is None ==> body_close(s@, start as int, 1) is None,
{
    let mut depth: usize = 1;
    let mut i: usize = start;
    while i < s.len()
        invariant
            1 <= start <= i <= s@.len(),
            1 <= depth <= i - start + 1,
            body_close(s@, start as int, 1) == body_close(s@, i as int, depth as int),
        decreases s@.len() - i,
    {
        let c = s[i];
        if c == '{' {
            depth += 1;
        } else if c == '}' {
            if depth - 1 == 0 {
                return Some(i);
            }
            depth -= 1;
        }
        i += 1;
    }
    None
}

/// The body stage, as `body` says.
fn body_exec(cleaned: &[char]) -> (r: Result<Vec<char>, SqlFnError>)
    ensures
        r matches Ok(b) ==> body(cleaned@) == BodyOutcome::Found(b@),
        r matches Err(e) ==> body(cleaned@) == BodyOutcome::Failed(failure_of(e)),
{
    let start = match find_char_exec(cleaned, '{') {
        Some(i) => i,
        None => {
            return Err(SqlFnError::MissingBody);
        },
    };
    proof {
        lemma_find_from_found(cleaned@, seq!['{'], 0);
    }
    assert(start + 1 <= cleaned@.len());
    assert(cleaned@.len() == cleaned.len());
    match body_close_exec(cleaned, start + 1) {
        Some(end) => Ok(slice_of(cleaned, start + 1, end)),
        None => Err(SqlFnError::UnclosedBody),
    }
}

/// `param_of`, computed.
fn param_exec(piece: &[char]) -> (r: Option<ParamDef>)
    ensures
        r matches Some(p) ==> param_of(piece@) == Some((p.name@, p.ty@)),
        r is None ==> param_of(piece@) is None,
{
    let p = trim_chars(piece);
    match find_char_exec(&p, ':') {
        None => None,
        Some(c) => {
            proof {
                lemma_find_from_found(p@, seq![':'], 0);
            }
            assert(c + 1 <= p@.len());
            assert(p@.len() == p.len());
            let left = slice_of(&p, 0, c);
            let right = slice_of(&p, c + 1, p.len());
            let name = trim_chars(&left);
            let ty = trim_chars(&right);
            Some(ParamDef { name: string_of(&name), ty: string_of(&ty) })
        },
    }
}

/// `params_of`, computed.
fn params_exec(params_str: &[char]) -> (r: Vec<ParamDef>)
    ensures
        param_views(r@) == params_of(params_str@),
{
    let mut r: Vec<ParamDef> = Vec::new();
    let t = trim_chars(params_str);
    if t.len() == 0 {
        assert(param_views(r@) =~= Seq::<(Seq<char>, Seq<char>)>::empty());
        return r;
    }
    let pieces = split_exec(params_str, ',');
    let ghost ps = pieces@.map_values(|v: Vec<char>| v@);
    let mut i: usize = 0;
    assert(param_views(r@) =~= params_of_pieces(ps.take(0)));
    while i < pieces.len()
        invariant
            i <= pieces@.len(),
            ps == pieces@.map_values(|v: Vec<char>| v@),
            param_views(r@) == params_of_pieces(ps.take(i as int)),
        decreases pieces@.len() - i,
    {
        assert(ps.take(i + 1).drop_last() =~= ps.take(i as int));
        assert(ps.take(i + 1).last() == pieces@[i as int]@);
        let ghost before = param_views(r@);
        match param_exec(&pieces[i]) {
            Some(p) => {
                let ghost pv = (p.name@, p.ty@);
                r.push(p);
                assert(param_views(r@) =~= before + seq![pv]);
            },
            None => {
                assert(param_views(r@) =~= before + Seq::<(Seq<char>, Seq<char>)>::empty());
            },
        }
        i += 1;
    }
    assert(ps.take(pieces@.len() as int) =~= ps);
    r
}

/// `placeholder_at` of the text of `s` from `i` on, computed.
fn placeholder_at_exec(s: &[char], i: usize, name: &[char]) -> (r: Option<usize>)
    requires
        i < s@.len(),
    ensures
        r matches Some(k) ==> placeholder_at(s@.skip(i as int), name@) == Some(k as int),
        r is None ==> placeholder_at(s@.skip(i as int), name@) is None,
{
    let ghost t = s@.skip(i as int);
    if s[i] != '{' {
        return None;
    }
    assert(t.drop_first() =~= s@.skip(i + 1));
    let a = leading_ws_from(s, i + 1);
    let start = i + 1 + a;
    if name.len() > s.len() - start {
        return None;
    }
    let after = start + name.len();
    if !occurs_at_exec(s, name, start) {
        assert(t.subrange(1 + a, after - i) =~= s@.subrange(start as int, after as int));
        return None;
    }
    assert(t.subrange(1 + a, after - i) =~= s@.subrange(start as int, after as int));
    assert(t.skip(after - i) =~= s@.skip(after as int));
    let b = leading_ws_from(s, after);
    if after + b < s.len() && s[after + b] == '}' {
        assert(t[after - i + b] == s@[after + b]);
        Some(after + b + 1 - i)
    } else {
        proof {
            if after + b < s@.len() {
                assert(t[after - i + b] == s@[after + b]);
            }
        }
        None
    }
}

/// `replace_placeholders`, computed.
fn replace_placeholders_exec(s: &[char], name: &[char]) -> (r: Vec<char>)
    ensures
        r@ == replace_placeholders(s@, name@),
{
    let mut r: Vec<char> = Vec::new();
    let mut i: usize = 0;
    assert(s@.skip(0) =~= s@);
    assert(r@ + s@ =~= s@);
    while i < s.len()
        invariant
            i <= s@.len(),
            replace_placeholders(s@, name@) == r@ + replace_placeholders(s@.skip(i as int), name@),
        decreases s@.len() - i,
    {
        let ghost rest = s@.skip(i as int);
        match placeholder_at_exec(s, i, name) {
            Some(k) => {
                assert(rest.skip(k as int) =~= s@.skip(i + k));
                r.push('?');
                i += k;
            },
            None => {
                assert(rest.drop_first() =~= s@.skip(i + 1));
                r.push(s[i]);
                i += 1;
            },
        }
        assert(replace_placeholders(s@, name@) == r@ + replace_placeholders(
            s@.skip(i as int),
            name@,
        ));
    }
    assert(s@.skip(i as int) =~= Seq::<char>::empty());
    assert(r@ + Seq::<char>::empty() =~= r@);
    r
}

/// `substitute`, computed.
fn substitute_exec(sql: &[char], params: &[ParamDef]) -> (r: Vec<char>)
    ensures
        r@ == substitute(sql@, param_views(params@)),
{
    let ghost pv = param_views(params@);
    let mut r = slice_of(sql, 0, sql.len());
    assert(sql@.subrange(0, sql@.len() as int) =~= sql@);
    assert(pv.take(0) =~= Seq::<(Seq<char>, Seq<char>)>::empty());
    let mut i: usize = 0;
    while i < params.len()
        invariant
            i <= params@.len(),
            pv == param_views(params@),
            r@ == substitute(sql@, pv.take(i as int)),
        decreases params@.len() - i,
    {
        assert(pv.take(i + 1).drop_last() =~= pv.take(i as int));
        assert(pv.take(i + 1).last() == pv[i as int]);
        let name = chars_of(params[i].name.as_str());
        r = replace_placeholders_exec(&r, &name);
        i += 1;
    }
    assert(pv.take(params@.len() as int) =~= pv);
    r
}

/// The doc comment and attribute stage, as `front` says.
fn front_exec(item: &str) -> (r: (Vec<char>, Vec<Vec<char>>))
    ensures
        r.0@ == front(item@).0,
        char_texts(r.1@) == front(item@).1,
{
    let chars = chars_of(item);
    let t = trim_chars(&chars);
    let (cleaned, docs) = strip_docs_exec(&t);
    let cleaned2 = strip_attrs_exec(&cleaned);
    (cleaned2, docs)
}

/// Whether the parameter list of `item` has reversed bounds (its first `)`
/// comes before its first `(`); `sql_fn!` stops with a panic there, and
/// `sql_fn` does not take such a definition.
pub fn sql_fn_params_out_of_order(item: &str) -> (r: bool)
    ensures
        r == params_out_of_order(item@),
{
    let (cleaned, _) = front_exec(item);
    let trimmed = trim_start_chars(&cleaned);
    let pub_m = ['p', 'u', 'b', ' '];
    let fn_m = ['f', 'n', ' '];
    assert(pub_m@ =~= pub_marker());
    assert(fn_m@ =~= fn_marker());
    let is_pub = starts_with_exec(&trimmed, &pub_m);
    let rest0 = if is_pub {
        slice_of(&trimmed, 4, trimmed.len())
    } else {
        slice_of(&trimmed, 0, trimmed.len())
    };
    assert(trimmed@.subrange(0, trimmed@.len() as int) =~= trimmed@);
    let rest0t = trim_chars(&rest0);
    if !starts_with_exec(&rest0t, &fn_m) {
        return false;
    }
    let after_fn = slice_of(&rest0t, 3, rest0t.len());
    let rest = trim_start_chars(&after_fn);
    match (find_char_exec(&rest, '('), find_char_exec(&rest, ')')) {
        (Some(open), Some(close)) => open >= close,
        _ => false,
    }
}

/// What `sql_fn!` reads from the text of a function definition: the doc
/// comments, the visibility, the name, the parameters and the return type,
/// the SQL of the body, and that SQL with each `{param}` replaced by `?`,
/// which must parse.
pub fn sql_fn(item: &str) -> (r: Result<SqlFnDef, SqlFnError>)
    requires
        !params_out_of_order(item@),
    ensures
        r matches Ok(d) ==> sql_fn_outcome(item@) == SqlFnOutcome::Defined(d.view()),
        r matches Err(e) ==> sql_fn_outcome(item@) == SqlFnOutcome::Failed(failure_of(e)),
{
    let (cleaned, docs) = front_exec(item);
    let sig = match signature_exec(&cleaned) {
        Ok(s) => s,
        Err(e) => {
            return Err(e);
        },
    };
    let body_chars = match body_exec(&cleaned) {
        Ok(b) => b,
        Err(e) => {
            return Err(e);
        },
    };
    let params = params_exec(&sig.params_str);
    let sql = trim_chars(&body_chars);
    if sql.len() == 0 {
        return Err(SqlFnError::EmptyBody);
    }
    let validation = substitute_exec(&sql, params.as_slice());
    let validation_sql = string_of(&validation);
    match parse_statements(validation_sql.as_str()) {
        Ok(_) => {},
        Err(message) => {
            return Err(SqlFnError::Syntax(message));
        },
    }
    let mut doc_comments: Vec<String> = Vec::new();
    let mut i: usize = 0;
    while i < docs.len()
        invariant
            i <= docs@.len(),
            doc_comments@.map_values(|s: String| s@) == char_texts(docs@.take(i as int)),
        decreases docs@.len() - i,
    {
        let ghost before = doc_comments@.map_values(|s: String| s@);
        doc_comments.push(string_of(&docs[i]));
        assert(doc_comments@.map_values(|s: String| s@) =~= before.push(docs@[i as int]@));
        i += 1;
        assert(char_texts(docs@.take(i as int)) =~= char_texts(docs@.take(i - 1)).push(
            docs@[i - 1]@,
        ));
    }
    assert(docs@.take(docs@.len() as int) =~= docs@);
    let d = SqlFnDef {
        doc_comments,
        is_pub: sig.is_pub,
        name: string_of(&sig.name),
        params_str: string_of(&sig.params_str),
        params,
        return_type: string_of(&sig.return_type),
        sql: string_of(&sql),
        validation_sql,
    };
    Ok(d)
}

impl SqlFnError {
    /// The compile error that the macro reports.
    pub fn message(&self) -> (r: String)
        ensures
            *self == SqlFnError::NotAFunction ==> r@
                == "sql_fn! must contain a function definition starting with 'fn'"@,
            *self == SqlFnError::MissingParams ==> r@
                == "sql_fn!: expected function parameters in parentheses"@,
            *self == SqlFnError::UnclosedParams ==> r@ == "sql_fn!: unclosed function parameters"@,
            *self == SqlFnError::MissingBody ==> r@ == "sql_fn!: expected function body in braces"@,
            *self == SqlFnError::UnclosedBody ==> r@
                == "sql_fn!: unclosed function body braces"@,
            *self == SqlFnError::EmptyBody ==> r@ == "sql_fn!: function body is empty"@,
            self matches SqlFnError::Syntax(d) ==> r@ == "SQL syntax error in sql_fn!: "@ + d@,
    {
        match self {
            SqlFnError::NotAFunction => "sql_fn! must contain a function definition starting with 'fn'".to_owned(),
            SqlFnError::MissingParams => "sql_fn!: expected function parameters in parentheses".to_owned(),
            SqlFnError::UnclosedParams => "sql_fn!: unclosed function parameters".to_owned(),
            SqlFnError::MissingBody => "sql_fn!: expected function body in braces".to_owned(),
            SqlFnError::UnclosedBody => "sql_fn!: unclosed function body braces".to_owned(),
            SqlFnError::EmptyBody => "sql_fn!: function body is empty".to_owned(),
            SqlFnError::Syntax(d) => {
                let mut v = chars_of("SQL syntax error in sql_fn!: ");
                let dv = chars_of(d.as_str());
                push_all(&mut v, &dv);
                string_of(&v)
            },
        }
    }
}

/// The text of a doc comment line without its `///`, trimmed.
pub open spec fn doc_text(d: Seq<char>) -> Seq<char> {
    if d.len() >= 3 {
        trim(d.skip(3))
    } else {
        seq![]
    }
}

impl SqlFnDef {
    /// The texts of the doc comments, without their `///`, trimmed: the
    /// `#[doc = ...]` attributes of the generated function.
    pub fn doc_texts(&self) -> (r: Vec<String>)
        ensures
            r@.len() == self.doc_comments@.len(),
            forall|i: int|
                0 <= i < r@.len() ==> (#[trigger] r@[i])@ == doc_text(self.doc_comments@[i]@),
    {
        let mut r: Vec<String> = Vec::new();
        let mut i: usize = 0;
        while i < self.doc_comments.len()
            invariant
                i <= self.doc_comments@.len(),
                r@.len() == i,
                forall|j: int|
                    0 <= j < i ==> (#[trigger] r@[j])@ == doc_text(self.doc_comments@[j]@),
            decreases self.doc_comments@.len() - i,
        {
            let d = chars_of(self.doc_comments[i].as_str());
            if d.len() >= 3 {
                let rest = slice_of(&d, 3, d.len());
                let t = trim_chars(&rest);
                r.push(string_of(&t));
            } else {
                let e: Vec<char> = Vec::new();
                assert(e@ =~= Seq::<char>::empty());
                r.push(string_of(&e));
            }
            i += 1;
        }
        r
    }

    /// Whether `q` is the query that the generated function returns for the
    /// arguments `params`: the SQL with `?` placeholders, without metadata,
    /// and the arguments as its parameters.
    pub open spec fn builds<T>(&self, params: T, q: Query<T>) -> bool {
        &&& q.spec_sql()@ == Sql::plain(self.validation_sql@)
        &&& q.spec_params() == params
    }

    /// The query that the generated function returns: the SQL with `?`
    /// placeholders (without metadata), with the arguments as parameters.
    pub fn query<T>(&self, params: T) -> (r: Query<T>)
        ensures
            r.spec_sql()@ == Sql::plain(self.validation_sql@),
            r.spec_params() == params,
            self.builds(params, r),
    {
        Query::new(Sql::new(self.validation_sql.as_str()), params)
    }
}

/// A definition that `sql_fn!` accepts gives a function with the parameters
/// of its parameter list, in order, whose query for any arguments holds the
/// body's SQL, trimmed, with each parameter's placeholder replaced by `?`, as
/// plain SQL (query type `Other`, no counted parameter), and the arguments
/// as its parameters.
pub proof fn law_sql_fn_query<T>(item: Seq<char>, d: SqlFnDef, args: T, q: Query<T>)
    requires
        sql_fn_outcome(item) == SqlFnOutcome::Defined(d.view()),
        d.builds(args, q),
    ensures
        ({
            let cleaned = front(item).0;
            let params = params_of(signature(cleaned)->Found_0.params_str);
            &&& d.view().params == params
            &&& q.spec_sql()@ == Sql::plain(substitute(trim(body(cleaned)->Found_0), params))
        }),
        q.spec_sql()@.query_type == QueryType::Other,
        q.spec_sql()@.param_count == 0,
        q.spec_params() == args,
{
}

} // verus!
