//! Rows of query results and the conversion of SQL values to Rust values.
use vstd::prelude::*;

use crate::sql::texts;
use crate::text::{chars_of, push_all, string_of};

verus! {

/// Why a value could not be read from a row.
#[derive(Debug, PartialEq, Eq)]
pub enum ValueError {
    /// The text is not an integer of the target type; the message
    /// (`Failed to parse i64: ...` or `Failed to parse i32: ...`, with the
    /// reason that `str::parse` gives).
    InvalidInteger(String),
    /// The text is not one of the words for a boolean; the message
    /// (`Failed to parse bool from: ...`, with the text).
    InvalidBool(String),
    /// The row has no column at this index.
    IndexOutOfBounds { index: usize, len: usize },
}

/// The character of a decimal digit.
pub open spec fn digit_char(d: int) -> char {
    seq!['0', '1', '2', '3', '4', '5', '6', '7', '8', '9'][d]
}

/// The decimal text of a natural number, as `{}` formats it.
pub open spec fn decimal_text(n: nat) -> Seq<char>
    decreases n,
{
    if n < 10 {
        seq![digit_char(n as int)]
    } else {
        decimal_text(n / 10) + seq![digit_char((n % 10) as int)]
    }
}

/// Pushes the decimal text of `n` onto `out`.
fn push_decimal(n: usize, out: &mut Vec<char>)
    ensures
        final(out)@ == old(out)@ + decimal_text(n as nat),
    decreases n,
{
    let digits = ['0', '1', '2', '3', '4', '5', '6', '7', '8', '9'];
    assert(digits@ =~= seq!['0', '1', '2', '3', '4', '5', '6', '7', '8', '9']);
    let ghost before = out@;
    if n >= 10 {
        push_decimal(n / 10, out);
    }
    out.push(digits[n % 10]);
    assert(out@ =~= before + decimal_text(n as nat));
}

/// The text of `prefix` followed by the text of `rest`.
fn joined(prefix: &str, rest: &str) -> (r: String)
    ensures
        r@ == prefix@ + rest@,
{
    let mut v = chars_of(prefix);
    let w = chars_of(rest);
    push_all(&mut v, &w);
    string_of(&v)
}

impl ValueError {
    /// The message of the error: the message it holds, or, for an index out
    /// of bounds, `Index {index} out of bounds (len: {len})`.
    pub fn message(&self) -> (r: String)
        ensures
            self matches ValueError::InvalidInteger(m) ==> r@ == m@,
            self matches ValueError::InvalidBool(m) ==> r@ == m@,
            self matches ValueError::IndexOutOfBounds { index, len } ==> r@ == "Index "@
                + decimal_text(index as nat) + " out of bounds (len: "@ + decimal_text(len as nat)
                + ")"@,
    {
        match self {
            ValueError::InvalidInteger(m) => m.clone(),
            ValueError::InvalidBool(m) => m.clone(),
            ValueError::IndexOutOfBounds { index, len } => {
                let mut v = chars_of("Index ");
                push_decimal(*index, &mut v);
                let mid = chars_of(" out of bounds (len: ");
                push_all(&mut v, &mid);
                push_decimal(*len, &mut v);
                let close = chars_of(")");
                push_all(&mut v, &close);
                string_of(&v)
            },
        }
    }
}

/// Converting SQL values, given as text, to Rust values. Implement this for
/// the types that rows are read into.
pub trait FromSql: Sized {
    /// Whether the text converts.
    spec fn accepts(value: Seq<char>) -> bool;

    /// Whether `v` is what the text converts to.
    spec fn parsed_as(value: Seq<char>, v: Self) -> bool;

    /// Whether `e` is the error that the text is refused with.
    spec fn refused_with(value: Seq<char>, e: ValueError) -> bool;

    /// Converts the text of a SQL value.
    fn from_sql(value: &str) -> (r: Result<Self, ValueError>)
        ensures
            r is Ok <==> Self::accepts(value@),
            r matches Ok(v) ==> Self::parsed_as(value@, v),
            r matches Err(e) ==> Self::refused_with(value@, e),
    ;
}

/// Access to the columns of a row by index. Implemented by database row
/// types so that rows can be read into structs.
pub trait RowAccess {
    /// The number of columns.
    spec fn row_len(&self) -> nat;

    /// The number of columns.
    fn len(&self) -> (n: usize)
        ensures
            n == self.row_len(),
    ;

    /// Whether the row has no columns.
    fn is_empty(&self) -> (r: bool)
        ensures
            r == (self.row_len() == 0),
    {
        self.len() == 0
    }

    /// The value at `index`, converted to `T`.
    fn get<T: FromSql>(&self, index: usize) -> Result<T, ValueError>;
}

// ------------------------------------------------------------------
// Integers
// ------------------------------------------------------------------

/// An ASCII decimal digit.
pub open spec fn is_digit(c: char) -> bool {
    '0' as u32 <= c as u32 <= '9' as u32
}

/// The value of a decimal digit.
pub open spec fn digit_value(c: char) -> int {
    c as u32 - '0' as u32
}

/// Every character is an ASCII decimal digit.
pub open spec fn all_digits(s: Seq<char>) -> bool {
    forall|i: int| 0 <= i < s.len() ==> is_digit(#[trigger] s[i])
}

/// The value of a string of decimal digits.
pub open spec fn digits_value(s: Seq<char>) -> int
    decreases s.len(),
{
    if s.len() == 0 {
        0
    } else {
        digits_value(s.drop_last()) * 10 + digit_value(s.last())
    }
}

/// The integer that the text writes: an optional `+` or `-`, then one or
/// more ASCII digits (the form that `str::parse` accepts for integers).
pub open spec fn decimal_value(s: Seq<char>) -> Option<int> {
    let neg = s.len() > 0 && s[0] == '-';
    let digits = if s.len() > 0 && (s[0] == '-' || s[0] == '+') {
        s.drop_first()
    } else {
        s
    };
    if digits.len() > 0 && all_digits(digits) {
        Some(
            if neg {
                -digits_value(digits)
            } else {
                digits_value(digits)
            },
        )
    } else {
        None
    }
}

/// The text writes an integer in `[lo, hi]`.
pub open spec fn integer_in(s: Seq<char>, lo: int, hi: int) -> bool {
    decimal_value(s) matches Some(v) && lo <= v <= hi
}

proof fn lemma_digits_value_nonneg(s: Seq<char>)
    requires
        all_digits(s),
    ensures
        digits_value(s) >= 0,
    decreases s.len(),
{
    if s.len() > 0 {
        assert(all_digits(s.drop_last())) by {
            assert forall|i: int| 0 <= i < s.drop_last().len() implies is_digit(
                #[trigger] s.drop_last()[i],
            ) by {
                assert(s.drop_last()[i] == s[i]);
            }
        }
        lemma_digits_value_nonneg(s.drop_last());
        assert(is_digit(s[s.len() - 1]));
    }
}

proof fn lemma_digits_value_prefix(s: Seq<char>, k: int)
    requires
        all_digits(s),
        0 <= k <= s.len(),
    ensures
        digits_value(s.take(k)) <= digits_value(s),
    decreases s.len(),
{
    if k < s.len() {
        let t = s.drop_last();
        assert(all_digits(t)) by {
            assert forall|i: int| 0 <= i < t.len() implies is_digit(#[trigger] t[i]) by {
                assert(t[i] == s[i]);
            }
        }
        lemma_digits_value_prefix(t, k);
        assert(t.take(k) =~= s.take(k));
        lemma_digits_value_nonneg(t);
        assert(is_digit(s[s.len() - 1]));
    } else {
        assert(s.take(k) =~= s);
    }
}

/// The integer that the text writes, where it lies in the range of `i64`.
pub fn parse_i64(s: &[char]) -> (r: Option<i64>)
    ensures
        r matches Some(n) ==> decimal_value(s@) == Some(n as int),
        r is None ==> !integer_in(s@, i64::MIN as int, i64::MAX as int),
{
    let n = s.len();
    let neg = n > 0 && s[0] == '-';
    let start: usize = if n > 0 && (s[0] == '-' || s[0] == '+') {
        1
    } else {
        0
    };
    let ghost digits = if s@.len() > 0 && (s@[0] == '-' || s@[0] == '+') {
        s@.drop_first()
    } else {
        s@
    };
    assert(digits =~= s@.skip(start as int));
    if start >= n {
        return None;
    }
    let limit: u128 = 0x8000_0000_0000_0000;
    let mut acc: u128 = 0;
    let mut i: usize = start;
    while i < n
        invariant
            start <= i <= n,
            n == s@.len(),
            digits == s@.skip(start as int),
            digits == (if s@.len() > 0 && (s@[0] == '-' || s@[0] == '+') {
                s@.drop_first()
            } else {
                s@
            }),
            limit == 0x8000_0000_0000_0000u128,
            acc <= limit,
            all_digits(digits.take(i - start)),
            acc == digits_value(digits.take(i - start)),
        decreases n - i,
    {
        let c = s[i];
        let u = c as u32;
        if u < '0' as u32 || u > '9' as u32 {
            assert(!all_digits(digits)) by {
                assert(digits[i - start] == c);
                assert(!is_digit(digits[i - start]));
            }
            return None;
        }
        let d = (u - '0' as u32) as u128;
        let ghost prefix = digits.take(i - start + 1);
        assert(prefix.drop_last() =~= digits.take(i - start));
        assert(prefix.last() == c);
        assert(all_digits(prefix)) by {
            assert forall|j: int| 0 <= j < prefix.len() implies is_digit(#[trigger] prefix[j]) by {
                if j < prefix.len() - 1 {
                    assert(prefix[j] == digits.take(i - start)[j]);
                }
            }
        }
        acc = acc * 10 + d;
        i += 1;
        if acc > limit {
            proof {
                if all_digits(digits) {
                    lemma_digits_value_prefix(digits, i - start);
                }
            }
            return None;
        }
    }
    assert(digits.take(n - start) =~= digits);
    if neg {
        let v: i128 = -(acc as i128);
        Some(v as i64)
    } else if acc < limit {
        Some(acc as i64)
    } else {
        None
    }
}

/// The message of the error that `str::parse::<i64>` gives for the text
/// (`ParseIntError`'s `Display` impl); empty where it succeeds. It depends
/// on the text alone.
pub uninterp spec fn spec_i64_parse_error(s: Seq<char>) -> Seq<char>;

/// The message of the error that `str::parse::<i32>` gives for the text
/// (`ParseIntError`'s `Display` impl); empty where it succeeds. It depends
/// on the text alone.
pub uninterp spec fn spec_i32_parse_error(s: Seq<char>) -> Seq<char>;

/// `str::parse::<i64>`: the message of its error, by `ParseIntError`'s
/// `Display` impl, or empty where it succeeds.
///
/// Claims only that the message is what `spec_i64_parse_error` gives for the
/// text; the messages themselves are not stated.
#[verifier::external_body]
fn i64_parse_error(s: &str) -> (r: String)
    ensures
        r@ == spec_i64_parse_error(s@),
{
    match s.parse::<i64>() {
        Err(e) => e.to_string(),
        Ok(_) => String::new(),
    }
}

/// `str::parse::<i32>`: the message of its error, by `ParseIntError`'s
/// `Display` impl, or empty where it succeeds.
///
/// Claims only that the message is what `spec_i32_parse_error` gives for the
/// text; the messages themselves are not stated.
#[verifier::external_body]
fn i32_parse_error(s: &str) -> (r: String)
    ensures
        r@ == spec_i32_parse_error(s@),
{
    match s.parse::<i32>() {
        Err(e) => e.to_string(),
        Ok(_) => String::new(),
    }
}

impl FromSql for i64 {
    open spec fn accepts(value: Seq<char>) -> bool {
        integer_in(value, i64::MIN as int, i64::MAX as int)
    }

    open spec fn parsed_as(value: Seq<char>, v: i64) -> bool {
        decimal_value(value) == Some(v as int)
    }

    open spec fn refused_with(value: Seq<char>, e: ValueError) -> bool {
        e matches ValueError::InvalidInteger(m) && m@ == "Failed to parse i64: "@
            + spec_i64_parse_error(value)
    }

    fn from_sql(value: &str) -> (r: Result<i64, ValueError>) {
        let s = chars_of(value);
        match parse_i64(&s) {
            Some(v) => Ok(v),
            None => Err(ValueError::InvalidInteger(
                joined("Failed to parse i64: ", i64_parse_error(value).as_str()),
            )),
        }
    }
}

impl FromSql for i32 {
    open spec fn accepts(value: Seq<char>) -> bool {
        integer_in(value, i32::MIN as int, i32::MAX as int)
    }

    open spec fn parsed_as(value: Seq<char>, v: i32) -> bool {
        decimal_value(value) == Some(v as int)
    }

    open spec fn refused_with(value: Seq<char>, e: ValueError) -> bool {
        e matches ValueError::InvalidInteger(m) && m@ == "Failed to parse i32: "@
            + spec_i32_parse_error(value)
    }

    fn from_sql(value: &str) -> (r: Result<i32, ValueError>) {
        let s = chars_of(value);
        match parse_i64(&s) {
            Some(v) => {
                if i32::MIN as i64 <= v && v <= i32::MAX as i64 {
                    Ok(v as i32)
                } else {
                    Err(ValueError::InvalidInteger(
                        joined("Failed to parse i32: ", i32_parse_error(value).as_str()),
                    ))
                }
            },
            None => Err(ValueError::InvalidInteger(
                joined("Failed to parse i32: ", i32_parse_error(value).as_str()),
            )),
        }
    }
}

impl FromSql for String {
    open spec fn accepts(value: Seq<char>) -> bool {
        true
    }

    open spec fn parsed_as(value: Seq<char>, v: String) -> bool {
        v@ == value
    }

    open spec fn refused_with(value: Seq<char>, e: ValueError) -> bool {
        false
    }

    fn from_sql(value: &str) -> (r: Result<String, ValueError>)
        ensures
            r matches Ok(v) && v@ == value@,
    {
        Ok(value.to_owned())
    }
}

/// Reading a `String` is the identity on text: every text converts, and to
/// the string with exactly its characters, whitespace and all.
pub proof fn law_string_read_is_identity(value: Seq<char>, v: String)
    ensures
        <String as FromSql>::accepts(value),
        <String as FromSql>::parsed_as(value, v) ==> v@ == value,
        <String as FromSql>::parsed_as(value, v) ==> v@.len() == value.len(),
        forall|e: ValueError| !#[trigger] <String as FromSql>::refused_with(value, e),
{
}

// ------------------------------------------------------------------
// Booleans
// ------------------------------------------------------------------

/// What `str::to_lowercase` returns for the text. Lowercasing depends on
/// the text alone.
pub uninterp spec fn spec_lowercase(s: Seq<char>) -> Seq<char>;

/// `str::to_lowercase`.
///
/// Claims only that the result is a function of the text; Unicode's
/// lowercase mapping itself is not stated.
#[verifier::external_body]
fn to_lowercase(s: &str) -> (r: String)
    ensures
        r@ == spec_lowercase(s@),
{
    s.to_lowercase()
}

/// The boolean that a lowercase word stands for: `true`, `1`, `yes` and `t`
/// for true; `false`, `0`, `no` and `f` for false.
pub open spec fn bool_word(w: Seq<char>) -> Option<bool> {
    if w == seq!['t', 'r', 'u', 'e'] || w == seq!['1'] || w == seq!['y', 'e', 's'] || w
        == seq!['t'] {
        Some(true)
    } else if w == seq!['f', 'a', 'l', 's', 'e'] || w == seq!['0'] || w == seq!['n', 'o'] || w
        == seq!['f'] {
        Some(false)
    } else {
        None
    }
}

fn is_word(w: &[char], p: &[char]) -> (r: bool)
    ensures
        r == (w@ == p@),
{
    if w.len() != p.len() {
        return false;
    }
    let mut i: usize = 0;
    while i < w.len()
        invariant
            i <= w@.len(),
            w@.len() == p@.len(),
            forall|j: int| 0 <= j < i ==> w@[j] == p@[j],
        decreases w@.len() - i,
    {
        if w[i] != p[i] {
            return false;
        }
        i += 1;
    }
    assert(w@ =~= p@);
    true
}

/// The boolean that a lowercase word stands for.
pub fn parse_bool_word(lower: &str) -> (r: Option<bool>)
    ensures
        r == bool_word(lower@),
{
    let w = chars_of(lower);
    let t1 = ['t', 'r', 'u', 'e'];
    let t2 = ['1'];
    let t3 = ['y', 'e', 's'];
    let t4 = ['t'];
    let f1 = ['f', 'a', 'l', 's', 'e'];
    let f2 = ['0'];
    let f3 = ['n', 'o'];
    let f4 = ['f'];
    proof {
        assert(t1@ =~= seq!['t', 'r', 'u', 'e']);
        assert(t2@ =~= seq!['1']);
        assert(t3@ =~= seq!['y', 'e', 's']);
        assert(t4@ =~= seq!['t']);
        assert(f1@ =~= seq!['f', 'a', 'l', 's', 'e']);
        assert(f2@ =~= seq!['0']);
        assert(f3@ =~= seq!['n', 'o']);
        assert(f4@ =~= seq!['f']);
    }
    if is_word(&w, &t1) || is_word(&w, &t2) || is_word(&w, &t3) || is_word(&w, &t4) {
        Some(true)
    } else if is_word(&w, &f1) || is_word(&w, &f2) || is_word(&w, &f3) || is_word(&w, &f4) {
        Some(false)
    } else {
        None
    }
}

impl FromSql for bool {
    open spec fn accepts(value: Seq<char>) -> bool {
        bool_word(spec_lowercase(value)) is Some
    }

    open spec fn parsed_as(value: Seq<char>, v: bool) -> bool {
        bool_word(spec_lowercase(value)) == Some(v)
    }

    open spec fn refused_with(value: Seq<char>, e: ValueError) -> bool {
        e matches ValueError::InvalidBool(m) && m@ == "Failed to parse bool from: "@ + value
    }

    fn from_sql(value: &str) -> (r: Result<bool, ValueError>) {
        let lower = to_lowercase(value);
        match parse_bool_word(lower.as_str()) {
            Some(b) => Ok(b),
            None => Err(ValueError::InvalidBool(joined("Failed to parse bool from: ", value))),
        }
    }
}

// ------------------------------------------------------------------
// SimpleRow
// ------------------------------------------------------------------

/// A simple in-memory row, for tests and examples.
#[derive(Debug, Clone)]
pub struct SimpleRow {
    values: Vec<String>,
}

impl View for SimpleRow {
    type V = Seq<Seq<char>>;

    closed spec fn view(&self) -> Seq<Seq<char>> {
        texts(self.values@)
    }
}

impl SimpleRow {
    /// A row with the given column values.
    pub fn new(values: Vec<String>) -> (r: SimpleRow)
        ensures
            r@ == texts(values@),
    {
        SimpleRow { values }
    }
}

impl RowAccess for SimpleRow {
    closed spec fn row_len(&self) -> nat {
        self.values@.len()
    }

    fn len(&self) -> (n: usize)
        ensures
            n == self@.len(),
    {
        self.values.len()
    }

    fn get<T: FromSql>(&self, index: usize) -> (r: Result<T, ValueError>)
        ensures
            index >= self@.len() ==> r == Err::<T, ValueError>(
                ValueError::IndexOutOfBounds { index, len: self@.len() as usize },
            ),
            index < self@.len() ==> (r is Ok <==> T::accepts(self@[index as int])),
            index < self@.len() ==> (r matches Ok(v) ==> T::parsed_as(self@[index as int], v)),
            index < self@.len() ==> (r matches Err(e) ==> T::refused_with(self@[index as int], e)),
    {
        if index >= self.values.len() {
            return Err(ValueError::IndexOutOfBounds { index, len: self.values.len() });
        }
        T::from_sql(self.values[index].as_str())
    }
}

/// A row's length is what `SimpleRow::new` was given, and it is empty exactly
/// when it was given no values.
pub proof fn law_simple_row_len(values: Seq<String>, row: SimpleRow)
    requires
        row@ == texts(values),
    ensures
        row.row_len() == values.len(),
        (row.row_len() == 0) <==> (values.len() == 0),
{
    assert(texts(row.values@).len() == row.values@.len());
    assert(texts(values).len() == values.len());
}

} // verus!
