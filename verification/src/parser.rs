//! The parser: turns table-definition text and SELECT-query text into the
//! schema, expression and query values. Table and column names start
//! lowercase, constructors start uppercase, and all continue with
//! alphanumerics or underscores; whitespace before tokens is insignificant.
//!
//! The grammar itself is stated as spec functions over the input's
//! characters (`table_at`, `select_at`, `expression_at`, ...), each giving
//! the parsed value and the position consumed up to, or nothing where the
//! text does not fit. Every executable parser is proved to return exactly
//! what its grammar function says, succeeding if and only if it does.

use vstd::prelude::*;

use crate::map::{map_put, NameMap};
use crate::typecheck::empty_where;
use crate::types::{
    and, ColumnName, Columns, ColumnsV, ColumnTypesV, Comparison, Constructor, Expression, ExprV,
    Function, ScalarType, ScalarValue, ScalarValueV, Select, SelectColumns, SelectColumnsV,
    SelectV, Table, TableName, TableV,
};

verus! {

/// Why a text failed to parse; the text simply does not fit the grammar.
#[derive(Debug, PartialEq)]
pub struct ParseError;

// ---------------------------------------------------------------------
// Character classes and runs
// ---------------------------------------------------------------------

/// A character the grammar treats as insignificant before a token.
pub open spec fn is_space_char(c: char) -> bool {
    c == ' ' || c == '\t' || c == '\r' || c == '\n'
}

pub open spec fn is_lower_char(c: char) -> bool {
    97 <= c as u32 <= 122
}

pub open spec fn is_upper_char(c: char) -> bool {
    65 <= c as u32 <= 90
}

pub open spec fn is_digit_char(c: char) -> bool {
    48 <= c as u32 <= 57
}

pub open spec fn is_alnum_char(c: char) -> bool {
    is_lower_char(c) || is_upper_char(c) || is_digit_char(c)
}

/// A character that may continue an identifier.
pub open spec fn is_word_char(c: char) -> bool {
    is_alnum_char(c) || c == '_'
}

/// The classes of characters the grammar scans runs of.
#[derive(Clone, Copy, Debug)]
pub enum CharClass {
    Space,
    Word,
    Digit,
    Alnum,
}

/// Whether the character belongs to the class.
pub open spec fn in_class(cls: CharClass, c: char) -> bool {
    match cls {
        CharClass::Space => is_space_char(c),
        CharClass::Word => is_word_char(c),
        CharClass::Digit => is_digit_char(c),
        CharClass::Alnum => is_alnum_char(c),
    }
}

/// The end of the run of class characters starting at `pos`: the first
/// position at or after `pos` holding no character of the class.
pub open spec fn run_end(input: Seq<char>, pos: int, cls: CharClass) -> int
    decreases input.len() - pos
        when 0 <= pos <= input.len()
{
    if pos < input.len() && in_class(cls, input[pos]) {
        run_end(input, pos + 1, cls)
    } else {
        pos
    }
}

/// A run's end lies between its start and the input's end; everything in
/// the run belongs to the class, and the character stopping it does not.
pub proof fn lemma_run_end(input: Seq<char>, pos: int, cls: CharClass)
    requires
        0 <= pos <= input.len(),
    ensures
        pos <= run_end(input, pos, cls) <= input.len(),
        forall|j: int| pos <= j < run_end(input, pos, cls) ==> in_class(cls, #[trigger] input[j]),
        run_end(input, pos, cls) < input.len() ==> !in_class(
            cls,
            input[run_end(input, pos, cls)],
        ),
    decreases input.len() - pos,
{
    if pos < input.len() && in_class(cls, input[pos]) {
        lemma_run_end(input, pos + 1, cls);
    }
}

/// A position after a class run, stopped by the end of input or a character
/// outside the class, is the run's end.
proof fn lemma_run_end_is(input: Seq<char>, pos: int, cls: CharClass, q: int)
    requires
        0 <= pos <= q <= input.len(),
        forall|j: int| pos <= j < q ==> in_class(cls, #[trigger] input[j]),
        q < input.len() ==> !in_class(cls, input[q]),
    ensures
        run_end(input, pos, cls) == q,
    decreases q - pos,
{
    if pos < q {
        lemma_run_end_is(input, pos + 1, cls, q);
    }
}

/// Whether the character belongs to the class.
fn class_matches(cls: CharClass, c: char) -> (r: bool)
    ensures
        r == in_class(cls, c),
{
    let u = c as u32;
    match cls {
        CharClass::Space => c == ' ' || c == '\t' || c == '\r' || c == '\n',
        CharClass::Word => (97 <= u && u <= 122) || (65 <= u && u <= 90) || (48 <= u && u <= 57)
            || c == '_',
        CharClass::Digit => 48 <= u && u <= 57,
        CharClass::Alnum => (97 <= u && u <= 122) || (65 <= u && u <= 90) || (48 <= u && u <= 57),
    }
}

/// Scan past the run of class characters starting at `pos`.
fn scan_class(s: &str, pos: usize, cls: CharClass) -> (p: usize)
    requires
        pos <= s@.len(),
    ensures
        pos <= p <= s@.len(),
        p == run_end(s@, pos as int, cls),
{
    let n = s.unicode_len();
    let mut p = pos;
    while p < n
        invariant
            pos <= p <= n,
            n == s@.len(),
            forall|j: int| pos <= j < p ==> in_class(cls, #[trigger] s@[j]),
        decreases n - p,
    {
        if class_matches(cls, s.get_char(p)) {
            p = p + 1;
        } else {
            proof {
                lemma_run_end_is(s@, pos as int, cls, p as int);
            }
            return p;
        }
    }
    proof {
        lemma_run_end_is(s@, pos as int, cls, p as int);
    }
    p
}

// ---------------------------------------------------------------------
// Tokens
// ---------------------------------------------------------------------

/// The position after the whitespace starting at `pos`.
pub open spec fn ws_at(input: Seq<char>, pos: int) -> int {
    run_end(input, pos, CharClass::Space)
}

/// Advance past leading whitespace, to `ws_at`.
pub fn ws(s: &str, pos: usize) -> (p: usize)
    requires
        pos <= s@.len(),
    ensures
        pos <= p <= s@.len(),
        p == ws_at(s@, pos as int),
{
    scan_class(s, pos, CharClass::Space)
}

/// The position after the literal `tag` read at `pos`, when the input holds
/// it there.
pub open spec fn tag_at(input: Seq<char>, pos: int, tag: Seq<char>) -> Option<int> {
    if pos + tag.len() <= input.len() && input.subrange(pos, pos + tag.len() as int) == tag {
        Some(pos + tag.len() as int)
    } else {
        None
    }
}

/// Match the literal `tag` at `pos`, per `tag_at`.
fn p_tag(s: &str, pos: usize, tag: &str) -> (r: Option<usize>)
    requires
        pos <= s@.len(),
    ensures
        match r {
            Some(p) => pos <= p <= s@.len() && p == pos + tag@.len() && tag_at(
                s@,
                pos as int,
                tag@,
            ) == Some(p as int),
            None => tag_at(s@, pos as int, tag@) is None,
        },
{
    let tlen = tag.unicode_len();
    let n = s.unicode_len();
    if tlen > n - pos {
        return None;
    }
    for i in 0..tlen
        invariant
            pos + tlen <= n,
            n == s@.len(),
            tlen == tag@.len(),
            forall|j: int| 0 <= j < i ==> s@[pos + j] == tag@[j],
    {
        if s.get_char(pos + i) != tag.get_char(i) {
            proof {
                assert(s@.subrange(pos as int, pos + tlen as int)[i as int] == s@[pos + i]);
            }
            return None;
        }
    }
    proof {
        assert(s@.subrange(pos as int, pos + tlen as int) =~= tag@);
    }
    Some(pos + tlen)
}

// ---------------------------------------------------------------------
// Identifiers
// ---------------------------------------------------------------------

/// An identifier read at `pos`, after whitespace: a lowercase first letter
/// (uppercase for a constructor), then the longest run of word characters.
pub open spec fn ident_at(input: Seq<char>, pos: int, upper: bool) -> Option<(Seq<char>, int)> {
    let st = ws_at(input, pos);
    if st < input.len() && (if upper {
        is_upper_char(input[st])
    } else {
        is_lower_char(input[st])
    }) {
        let end = run_end(input, st + 1, CharClass::Word);
        Some((input.subrange(st, end), end))
    } else {
        None
    }
}

/// On success, an identifier ends strictly past `pos`, within the input,
/// and is at least one character long.
pub proof fn lemma_ident_at_bounds(input: Seq<char>, pos: int, upper: bool)
    requires
        0 <= pos <= input.len(),
    ensures
        ident_at(input, pos, upper) matches Some((v, p)) ==> pos < p <= input.len() && v.len()
            >= 1,
{
    lemma_run_end(input, pos, CharClass::Space);
    let st = ws_at(input, pos);
    if st < input.len() {
        lemma_run_end(input, st + 1, CharClass::Word);
    }
}

/// Parse an identifier, per `ident_at`.
fn p_ident(s: &str, pos: usize, upper: bool) -> (r: Option<(String, usize)>)
    requires
        pos <= s@.len(),
    ensures
        match r {
            Some((v, p)) => pos < p <= s@.len() && ident_at(s@, pos as int, upper) == Some(
                (v@, p as int),
            ),
            None => ident_at(s@, pos as int, upper) is None,
        },
{
    let p0 = ws(s, pos);
    let n = s.unicode_len();
    if p0 >= n {
        return None;
    }
    let c0 = s.get_char(p0);
    let u = c0 as u32;
    let head_ok = if upper {
        65 <= u && u <= 90
    } else {
        97 <= u && u <= 122
    };
    if !head_ok {
        return None;
    }
    let p = scan_class(s, p0 + 1, CharClass::Word);
    let sub = s.substring_char(p0, p);
    Some((sub.to_owned(), p))
}

// ---------------------------------------------------------------------
// Literals
// ---------------------------------------------------------------------

/// A boolean literal, `true` or `false`, read at `pos` after whitespace.
pub open spec fn bool_at(input: Seq<char>, pos: int) -> Option<(bool, int)> {
    let st = ws_at(input, pos);
    match tag_at(input, st, "true"@) {
        Some(p) => Some((true, p)),
        None => match tag_at(input, st, "false"@) {
            Some(p) => Some((false, p)),
            None => None,
        },
    }
}

/// On success, a boolean literal ends strictly past `pos`, within the
/// input.
proof fn lemma_bool_at_bounds(input: Seq<char>, pos: int)
    requires
        0 <= pos <= input.len(),
    ensures
        bool_at(input, pos) matches Some((v, p)) ==> pos < p <= input.len(),
{
    lemma_run_end(input, pos, CharClass::Space);
    reveal_strlit("true");
    reveal_strlit("false");
}

/// Parse a boolean literal, per `bool_at`.
fn p_bool(s: &str, pos: usize) -> (r: Option<(bool, usize)>)
    requires
        pos <= s@.len(),
    ensures
        match r {
            Some((v, p)) => pos < p <= s@.len() && bool_at(s@, pos as int) == Some(
                (v, p as int),
            ),
            None => bool_at(s@, pos as int) is None,
        },
{
    let p0 = ws(s, pos);
    proof {
        reveal_strlit("true");
        reveal_strlit("false");
    }
    match p_tag(s, p0, "true") {
        Some(p) => Some((true, p)),
        None => match p_tag(s, p0, "false") {
            Some(p) => Some((false, p)),
            None => None,
        },
    }
}

/// The value of the decimal digits between `start` and `end`.
pub open spec fn digits_val(input: Seq<char>, start: int, end: int) -> int
    decreases end - start,
{
    if end <= start {
        0
    } else {
        digits_val(input, start, end - 1) * 10 + (input[end - 1] as u32 - 48)
    }
}

/// A run of digits has a value of at least zero.
proof fn lemma_digits_val_nonneg(input: Seq<char>, start: int, end: int)
    requires
        forall|j: int| start <= j < end ==> is_digit_char(#[trigger] input[j]),
    ensures
        digits_val(input, start, end) >= 0,
    decreases end - start,
{
    if end > start {
        lemma_digits_val_nonneg(input, start, end - 1);
    }
}

/// Reading further digits never shrinks the value.
proof fn lemma_digits_val_mono(input: Seq<char>, start: int, mid: int, end: int)
    requires
        start <= mid <= end,
        forall|j: int| start <= j < end ==> is_digit_char(#[trigger] input[j]),
    ensures
        digits_val(input, start, end) >= digits_val(input, start, mid),
    decreases end - mid,
{
    if end > mid {
        lemma_digits_val_mono(input, start, mid, end - 1);
        lemma_digits_val_nonneg(input, start, end - 1);
    }
}

/// A 32-bit integer literal read at `pos` after whitespace: an optional
/// sign, then the longest run of digits; a value outside the 32-bit range
/// does not parse.
pub open spec fn int_at(input: Seq<char>, pos: int) -> Option<(i32, int)> {
    let st = ws_at(input, pos);
    let neg = st < input.len() && input[st] == '-';
    let ds = if st < input.len() && (input[st] == '-' || input[st] == '+') {
        st + 1
    } else {
        st
    };
    let de = run_end(input, ds, CharClass::Digit);
    if de == ds {
        None
    } else {
        let v = digits_val(input, ds, de);
        if neg {
            if v > 0x8000_0000 {
                None
            } else {
                Some(((-v) as i32, de))
            }
        } else {
            if v > 0x7FFF_FFFF {
                None
            } else {
                Some((v as i32, de))
            }
        }
    }
}

/// On success, an integer literal ends strictly past `pos`, within the
/// input.
proof fn lemma_int_at_bounds(input: Seq<char>, pos: int)
    requires
        0 <= pos <= input.len(),
    ensures
        int_at(input, pos) matches Some((v, p)) ==> pos < p <= input.len(),
{
    lemma_run_end(input, pos, CharClass::Space);
    let st = ws_at(input, pos);
    let ds = if st < input.len() && (input[st] == '-' || input[st] == '+') {
        st + 1
    } else {
        st
    };
    lemma_run_end(input, ds, CharClass::Digit);
}

/// Parse an integer literal, per `int_at`.
fn p_int(s: &str, pos: usize) -> (r: Option<(i32, usize)>)
    requires
        pos <= s@.len(),
    ensures
        match r {
            Some((v, p)) => pos < p <= s@.len() && int_at(s@, pos as int) == Some((v, p as int)),
            None => int_at(s@, pos as int) is None,
        },
{
    let st = ws(s, pos);
    let n = s.unicode_len();
    let mut neg = false;
    let mut ds = st;
    if st < n {
        let c = s.get_char(st);
        if c == '-' {
            neg = true;
            ds = st + 1;
        } else if c == '+' {
            ds = st + 1;
        }
    }
    let de = scan_class(s, ds, CharClass::Digit);
    if de == ds {
        return None;
    }
    proof {
        lemma_run_end(s@, ds as int, CharClass::Digit);
        lemma_int_at_bounds(s@, pos as int);
    }
    let mut acc: u64 = 0;
    for p in ds..de
        invariant
            ds <= p <= de <= n,
            n == s@.len(),
            de == run_end(s@, ds as int, CharClass::Digit),
            forall|j: int| ds <= j < de ==> is_digit_char(#[trigger] s@[j]),
            acc == digits_val(s@, ds as int, p as int),
            acc <= 0x8000_0000u64,
            st == ws_at(s@, pos as int),
            ds == if st < n && (s@[st as int] == '-' || s@[st as int] == '+') {
                st + 1
            } else {
                st as int
            },
            neg == (st < n && s@[st as int] == '-'),
            pos <= st,
        decreases de - p,
    {
        let c = s.get_char(p);
        let d: u64 = ((c as u32) - 48) as u64;
        acc = acc * 10 + d;
        if acc > 0x8000_0000u64 {
            proof {
                lemma_digits_val_mono(s@, ds as int, p as int + 1, de as int);
            }
            return None;
        }
    }
    if neg {
        let v: i32 = (-(acc as i64)) as i32;
        Some((v, de))
    } else {
        if acc > 0x7FFF_FFFFu64 {
            return None;
        }
        Some((acc as i32, de))
    }
}

/// A string literal read at `pos` after whitespace: a quoted run of
/// alphanumerics.
pub open spec fn string_at(input: Seq<char>, pos: int) -> Option<(Seq<char>, int)> {
    let st = ws_at(input, pos);
    if st < input.len() && input[st] == '"' {
        let end = run_end(input, st + 1, CharClass::Alnum);
        if end < input.len() && input[end] == '"' {
            Some((input.subrange(st + 1, end), end + 1))
        } else {
            None
        }
    } else {
        None
    }
}

/// On success, a string literal ends strictly past `pos`, within the input.
proof fn lemma_string_at_bounds(input: Seq<char>, pos: int)
    requires
        0 <= pos <= input.len(),
    ensures
        string_at(input, pos) matches Some((v, p)) ==> pos < p <= input.len(),
{
    lemma_run_end(input, pos, CharClass::Space);
    let st = ws_at(input, pos);
    if st < input.len() {
        lemma_run_end(input, st + 1, CharClass::Alnum);
    }
}

/// Parse a string literal, per `string_at`.
fn p_string(s: &str, pos: usize) -> (r: Option<(String, usize)>)
    requires
        pos <= s@.len(),
    ensures
        match r {
            Some((v, p)) => pos < p <= s@.len() && string_at(s@, pos as int) == Some(
                (v@, p as int),
            ),
            None => string_at(s@, pos as int) is None,
        },
{
    let p0 = ws(s, pos);
    let n = s.unicode_len();
    if p0 >= n || s.get_char(p0) != '"' {
        return None;
    }
    let end = scan_class(s, p0 + 1, CharClass::Alnum);
    if end >= n || s.get_char(end) != '"' {
        return None;
    }
    let content = s.substring_char(p0 + 1, end);
    Some((content.to_owned(), end + 1))
}

/// A scalar literal read at `pos`: a boolean, an integer, or a quoted
/// string, tried in that order.
pub open spec fn scalar_value_at(input: Seq<char>, pos: int) -> Option<(ScalarValueV, int)> {
    match bool_at(input, pos) {
        Some((b, p)) => Some((ScalarValueV::Bool(b), p)),
        None => match int_at(input, pos) {
            Some((i, p)) => Some((ScalarValueV::Int(i), p)),
            None => match string_at(input, pos) {
                Some((v, p)) => Some((ScalarValueV::String(v), p)),
                None => None,
            },
        },
    }
}

/// On success, a scalar literal ends strictly past `pos`, within the input.
proof fn lemma_scalar_value_at_bounds(input: Seq<char>, pos: int)
    requires
        0 <= pos <= input.len(),
    ensures
        scalar_value_at(input, pos) matches Some((v, p)) ==> pos < p <= input.len(),
{
    lemma_bool_at_bounds(input, pos);
    lemma_int_at_bounds(input, pos);
    lemma_string_at_bounds(input, pos);
}

/// Parse a scalar literal, per `scalar_value_at`.
fn p_scalar_value(s: &str, pos: usize) -> (r: Option<(ScalarValue, usize)>)
    requires
        pos <= s@.len(),
    ensures
        match r {
            Some((v, p)) => pos < p <= s@.len() && scalar_value_at(s@, pos as int) == Some(
                (v@, p as int),
            ),
            None => scalar_value_at(s@, pos as int) is None,
        },
{
    match p_bool(s, pos) {
        Some((b, p)) => Some((ScalarValue::Bool(b), p)),
        None => match p_int(s, pos) {
            Some((i, p)) => Some((ScalarValue::Int(i), p)),
            None => match p_string(s, pos) {
                Some((v, p)) => Some((ScalarValue::String(v), p)),
                None => None,
            },
        },
    }
}

// ---------------------------------------------------------------------
// Expressions
// ---------------------------------------------------------------------

/// A comparison read at `pos`: `<column> = <scalar-literal>`.
pub open spec fn comparison_at(input: Seq<char>, pos: int) -> Option<
    ((Seq<char>, ScalarValueV), int),
> {
    match ident_at(input, pos, false) {
        Some((col, p1)) => match tag_at(input, ws_at(input, p1), "="@) {
            Some(p2) => match scalar_value_at(input, p2) {
                Some((v, p3)) => Some(((col, v), p3)),
                None => None,
            },
            None => None,
        },
        None => None,
    }
}

/// On success, a comparison ends strictly past `pos`, within the input.
proof fn lemma_comparison_at_bounds(input: Seq<char>, pos: int)
    requires
        0 <= pos <= input.len(),
    ensures
        comparison_at(input, pos) matches Some((v, p)) ==> pos < p <= input.len(),
{
    lemma_ident_at_bounds(input, pos, false);
    reveal_strlit("=");
    match ident_at(input, pos, false) {
        Some((col, p1)) => {
            lemma_run_end(input, p1, CharClass::Space);
            match tag_at(input, ws_at(input, p1), "="@) {
                Some(p2) => {
                    lemma_scalar_value_at_bounds(input, p2);
                },
                None => {},
            }
        },
        None => {},
    }
}

/// Parse a comparison, per `comparison_at`.
fn p_comparison(s: &str, pos: usize) -> (r: Option<(Comparison, usize)>)
    requires
        pos <= s@.len(),
    ensures
        match r {
            Some((v, p)) => pos < p <= s@.len() && comparison_at(s@, pos as int) == Some(
                ((v.column@, v.value@), p as int),
            ),
            None => comparison_at(s@, pos as int) is None,
        },
{
    let (col, p1) = match p_ident(s, pos, false) {
        Some(x) => x,
        None => {
            return None;
        },
    };
    let p2 = ws(s, p1);
    let p3 = match p_tag(s, p2, "=") {
        Some(x) => x,
        None => {
            return None;
        },
    };
    match p_scalar_value(s, p3) {
        Some((v, p4)) => Some((Comparison { column: ColumnName(col), value: v }, p4)),
        None => None,
    }
}

/// A non-recursive expression read at `pos`: a boolean literal or a
/// comparison, tried in that order.
pub open spec fn nonrec_expression_at(input: Seq<char>, pos: int) -> Option<(ExprV, int)> {
    match bool_at(input, pos) {
        Some((b, p)) => Some((ExprV::Bool(b), p)),
        None => match comparison_at(input, pos) {
            Some(((col, v), p)) => Some((ExprV::Comparison(col, v), p)),
            None => None,
        },
    }
}

/// On success, a non-recursive expression ends strictly past `pos`, within
/// the input.
pub proof fn lemma_nonrec_expression_at_bounds(input: Seq<char>, pos: int)
    requires
        0 <= pos <= input.len(),
    ensures
        nonrec_expression_at(input, pos) matches Some((v, p)) ==> pos < p <= input.len(),
{
    lemma_bool_at_bounds(input, pos);
    lemma_comparison_at_bounds(input, pos);
}

/// Parse a non-recursive expression, per `nonrec_expression_at`.
fn p_nonrec_expression(s: &str, pos: usize) -> (r: Option<(Expression, usize)>)
    requires
        pos <= s@.len(),
    ensures
        match r {
            Some((v, p)) => pos < p <= s@.len() && nonrec_expression_at(s@, pos as int) == Some(
                (v@, p as int),
            ),
            None => nonrec_expression_at(s@, pos as int) is None,
        },
{
    match p_bool(s, pos) {
        Some((b, p)) => Some((Expression::Bool(b), p)),
        None => match p_comparison(s, pos) {
            Some((c, p)) => Some((Expression::Comparison(c), p)),
            None => None,
        },
    }
}

/// An expression read at `pos`: a non-recursive expression, conjoined with
/// a following expression when `&&` comes next; a conjunction whose right
/// side fails to parse falls back to the left side alone.
pub open spec fn expression_at(input: Seq<char>, pos: int) -> Option<(ExprV, int)>
    decreases input.len() - pos
        when 0 <= pos <= input.len()
{
    match nonrec_expression_at(input, pos) {
        Some((left, p1)) => {
            let pa = ws_at(input, p1);
            match tag_at(input, pa, "&&"@) {
                Some(p2) => {
                    proof {
                        lemma_nonrec_expression_at_bounds(input, pos);
                        lemma_run_end(input, p1, CharClass::Space);
                        reveal_strlit("&&");
                    }
                    match expression_at(input, p2) {
                        Some((right, p3)) => Some(
                            (
                                ExprV::BinaryFunction(
                                    Function::And,
                                    Box::new(left),
                                    Box::new(right),
                                ),
                                p3,
                            ),
                        ),
                        None => Some((left, p1)),
                    }
                },
                None => Some((left, p1)),
            }
        },
        None => None,
    }
}

/// Parse an expression, per `expression_at`.
fn p_expression(s: &str, pos: usize) -> (r: Option<(Expression, usize)>)
    requires
        pos <= s@.len(),
    ensures
        match r {
            Some((v, p)) => pos < p <= s@.len() && expression_at(s@, pos as int) == Some(
                (v@, p as int),
            ),
            None => expression_at(s@, pos as int) is None,
        },
    decreases s@.len() - pos,
{
    let (left, p1) = match p_nonrec_expression(s, pos) {
        Some(x) => x,
        None => {
            return None;
        },
    };
    let pa = ws(s, p1);
    proof {
        reveal_strlit("&&");
    }
    match p_tag(s, pa, "&&") {
        Some(p2) => match p_expression(s, p2) {
            Some((right, p3)) => Some((and(left, right), p3)),
            None => Some((left, p1)),
        },
        None => Some((left, p1)),
    }
}

// ---------------------------------------------------------------------
// Column lists and SELECT
// ---------------------------------------------------------------------

/// The column names after the first one: as long as a comma and another
/// column name follow, take them; the pair consumes nothing otherwise.
pub open spec fn column_list_tail_at(input: Seq<char>, pos: int) -> (Seq<Seq<char>>, int)
    decreases input.len() - pos
        when 0 <= pos <= input.len()
{
    match tag_at(input, ws_at(input, pos), ","@) {
        Some(pc) => match ident_at(input, pc, false) {
            Some((v, p2)) => {
                proof {
                    lemma_run_end(input, pos, CharClass::Space);
                    reveal_strlit(",");
                    lemma_ident_at_bounds(input, pc, false);
                }
                let (rest, pe) = column_list_tail_at(input, p2);
                (seq![v] + rest, pe)
            },
            None => (Seq::empty(), pos),
        },
        None => (Seq::empty(), pos),
    }
}

/// The tail of a column list ends between `pos` and the input's end.
proof fn lemma_column_list_tail_at_bounds(input: Seq<char>, pos: int)
    requires
        0 <= pos <= input.len(),
    ensures
        pos <= column_list_tail_at(input, pos).1 <= input.len(),
    decreases input.len() - pos,
{
    lemma_run_end(input, pos, CharClass::Space);
    reveal_strlit(",");
    match tag_at(input, ws_at(input, pos), ","@) {
        Some(pc) => {
            lemma_ident_at_bounds(input, pc, false);
            match ident_at(input, pc, false) {
                Some((v, p2)) => {
                    lemma_column_list_tail_at_bounds(input, p2);
                },
                None => {},
            }
        },
        None => {},
    }
}

/// A comma-separated list of column names, at least one, read at `pos`.
pub open spec fn column_list_at(input: Seq<char>, pos: int) -> Option<(Seq<Seq<char>>, int)> {
    match ident_at(input, pos, false) {
        Some((first, p1)) => {
            let (rest, pe) = column_list_tail_at(input, p1);
            Some((seq![first] + rest, pe))
        },
        None => None,
    }
}

/// On success, a column list ends strictly past `pos`, within the input.
proof fn lemma_column_list_at_bounds(input: Seq<char>, pos: int)
    requires
        0 <= pos <= input.len(),
    ensures
        column_list_at(input, pos) matches Some((v, p)) ==> pos < p <= input.len(),
{
    lemma_ident_at_bounds(input, pos, false);
    match ident_at(input, pos, false) {
        Some((first, p1)) => {
            lemma_column_list_tail_at_bounds(input, p1);
        },
        None => {},
    }
}

/// Parse a column list, per `column_list_at`.
fn p_column_list(s: &str, pos: usize) -> (r: Option<(Vec<ColumnName>, usize)>)
    requires
        pos <= s@.len(),
    ensures
        match r {
            Some((v, p)) => pos < p <= s@.len() && column_list_at(s@, pos as int) == Some(
                (crate::types::names_view(v@), p as int),
            ),
            None => column_list_at(s@, pos as int) is None,
        },
{
    let (first, p1) = match p_ident(s, pos, false) {
        Some(x) => x,
        None => {
            return None;
        },
    };
    let mut columns: Vec<ColumnName> = Vec::new();
    columns.push(ColumnName(first));
    let n = s.unicode_len();
    let mut p = p1;
    proof {
        assert(crate::types::names_view(columns@) =~= seq![columns@[0]@]);
    }
    loop
        invariant
            pos < p1 <= p <= n,
            n == s@.len(),
            columns@.len() >= 1,
            ident_at(s@, pos as int, false) == Some(
                (crate::types::names_view(columns@)[0], p1 as int),
            ),
            column_list_tail_at(s@, p1 as int) == {
                let (rest, pe) = column_list_tail_at(s@, p as int);
                (crate::types::names_view(columns@).skip(1) + rest, pe)
            },
        ensures
            pos < p <= n,
            column_list_at(s@, pos as int) == Some(
                (crate::types::names_view(columns@), p as int),
            ),
        decreases n - p,
    {
        let save = p;
        let pw = ws(s, p);
        proof {
            reveal_strlit(",");
        }
        let pc = match p_tag(s, pw, ",") {
            Some(x) => x,
            None => {
                proof {
                    assert(column_list_tail_at(s@, p as int) == (
                        Seq::<Seq<char>>::empty(),
                        p as int,
                    ));
                    assert(crate::types::names_view(columns@).skip(1) + Seq::<Seq<char>>::empty()
                        =~= crate::types::names_view(columns@).skip(1));
                    assert(seq![crate::types::names_view(columns@)[0]] + crate::types::names_view(
                        columns@,
                    ).skip(1) =~= crate::types::names_view(columns@));
                }
                break ;
            },
        };
        match p_ident(s, pc, false) {
            Some((name, p2)) => {
                let ghost prev = columns@;
                columns.push(ColumnName(name));
                proof {
                    assert(crate::types::names_view(columns@) =~= crate::types::names_view(prev)
                        + seq![name@]);
                    assert(crate::types::names_view(columns@).skip(1)
                        =~= crate::types::names_view(prev).skip(1) + seq![name@]);
                    let (rest2, pe2) = column_list_tail_at(s@, p2 as int);
                    assert((crate::types::names_view(prev).skip(1) + seq![name@]) + rest2
                        =~= crate::types::names_view(prev).skip(1) + (seq![name@] + rest2));
                }
                p = p2;
            },
            None => {
                p = save;
                proof {
                    assert(column_list_tail_at(s@, p as int) == (
                        Seq::<Seq<char>>::empty(),
                        p as int,
                    ));
                    assert(crate::types::names_view(columns@).skip(1) + Seq::<Seq<char>>::empty()
                        =~= crate::types::names_view(columns@).skip(1));
                    assert(seq![crate::types::names_view(columns@)[0]] + crate::types::names_view(
                        columns@,
                    ).skip(1) =~= crate::types::names_view(columns@));
                }
                break ;
            },
        }
    }
    Some((columns, p))
}

/// What a SELECT projects, read at `pos`: a plain column list, or a
/// constructor with its column list in braces, tried in that order.
pub open spec fn select_columns_at(input: Seq<char>, pos: int) -> Option<(SelectColumnsV, int)> {
    match column_list_at(input, pos) {
        Some((cols, p)) => Some((SelectColumnsV::SelectColumns(cols), p)),
        None => match ident_at(input, pos, true) {
            Some((ctor, p1)) => match tag_at(input, ws_at(input, p1), "{"@) {
                Some(p2) => match column_list_at(input, p2) {
                    Some((cols, p3)) => match tag_at(input, ws_at(input, p3), "}"@) {
                        Some(p4) => Some((SelectColumnsV::SelectConstructor(ctor, cols), p4)),
                        None => None,
                    },
                    None => None,
                },
                None => None,
            },
            None => None,
        },
    }
}

/// Parse a columns clause, per `select_columns_at`.
fn p_select_columns(s: &str, pos: usize) -> (r: Option<(SelectColumns, usize)>)
    requires
        pos <= s@.len(),
    ensures
        match r {
            Some((v, p)) => pos < p <= s@.len() && select_columns_at(s@, pos as int) == Some(
                (v@, p as int),
            ),
            None => select_columns_at(s@, pos as int) is None,
        },
{
    match p_column_list(s, pos) {
        Some((columns, p)) => {
            return Some((SelectColumns::SelectColumns { columns }, p));
        },
        None => {},
    }
    let (ctor, p1) = match p_ident(s, pos, true) {
        Some(x) => x,
        None => {
            return None;
        },
    };
    let pw = ws(s, p1);
    proof {
        reveal_strlit("{");
        reveal_strlit("}");
    }
    let p2 = match p_tag(s, pw, "{") {
        Some(x) => x,
        None => {
            return None;
        },
    };
    let (columns, p3) = match p_column_list(s, p2) {
        Some(x) => x,
        None => {
            return None;
        },
    };
    let pw2 = ws(s, p3);
    match p_tag(s, pw2, "}") {
        Some(p4) => Some(
            (SelectColumns::SelectConstructor { constructor: Constructor(ctor), columns }, p4),
        ),
        None => None,
    }
}

/// A whole SELECT read at `pos`: `select <columns> from <table>`, then an
/// optional `where <expr>`; a missing or unparsable WHERE clause means the
/// always-true filter and leaves the clause unconsumed.
pub open spec fn select_at(input: Seq<char>, pos: int) -> Option<(SelectV, int)> {
    match tag_at(input, ws_at(input, pos), "select "@) {
        Some(p1) => match select_columns_at(input, p1) {
            Some((cols, p2)) => match tag_at(input, ws_at(input, p2), "from"@) {
                Some(p3) => match ident_at(input, p3, false) {
                    Some((t, p4)) => match tag_at(input, ws_at(input, p4), "where"@) {
                        Some(p5) => match expression_at(input, p5) {
                            Some((e, p6)) => Some(
                                (SelectV { table: t, columns: cols, filter: e }, p6),
                            ),
                            None => Some(
                                (
                                    SelectV { table: t, columns: cols, filter: ExprV::Bool(true) },
                                    p4,
                                ),
                            ),
                        },
                        None => Some(
                            (SelectV { table: t, columns: cols, filter: ExprV::Bool(true) }, p4),
                        ),
                    },
                    None => None,
                },
                None => None,
            },
            None => None,
        },
        None => None,
    }
}

/// Parse a SELECT, per `select_at`.
fn p_select(s: &str, pos: usize) -> (r: Option<(Select, usize)>)
    requires
        pos <= s@.len(),
    ensures
        match r {
            Some((v, p)) => pos <= p <= s@.len() && select_at(s@, pos as int) == Some(
                (v@, p as int),
            ),
            None => select_at(s@, pos as int) is None,
        },
{
    let pw = ws(s, pos);
    proof {
        reveal_strlit("select ");
        reveal_strlit("from");
        reveal_strlit("where");
    }
    let p1 = match p_tag(s, pw, "select ") {
        Some(x) => x,
        None => {
            return None;
        },
    };
    let (columns, p2) = match p_select_columns(s, p1) {
        Some(x) => x,
        None => {
            return None;
        },
    };
    let pw2 = ws(s, p2);
    let p3 = match p_tag(s, pw2, "from") {
        Some(x) => x,
        None => {
            return None;
        },
    };
    let (tname, p4) = match p_ident(s, p3, false) {
        Some(x) => x,
        None => {
            return None;
        },
    };
    let table = TableName(tname);
    let pw3 = ws(s, p4);
    match p_tag(s, pw3, "where") {
        Some(p5) => match p_expression(s, p5) {
            Some((e, p6)) => Some((Select { table, columns, filter: e }, p6)),
            None => Some((Select { table, columns, filter: empty_where() }, p4)),
        },
        None => Some((Select { table, columns, filter: empty_where() }, p4)),
    }
}

// ---------------------------------------------------------------------
// Table definitions
// ---------------------------------------------------------------------

/// A scalar type keyword read at `pos`: `Bool`, `Int` or `String`, tried in
/// that order.
pub open spec fn scalar_type_at(input: Seq<char>, pos: int) -> Option<(ScalarType, int)> {
    let st = ws_at(input, pos);
    match tag_at(input, st, "Bool"@) {
        Some(p) => Some((ScalarType::Bool, p)),
        None => match tag_at(input, st, "Int"@) {
            Some(p) => Some((ScalarType::Int, p)),
            None => match tag_at(input, st, "String"@) {
                Some(p) => Some((ScalarType::String, p)),
                None => None,
            },
        },
    }
}

/// On success, a type keyword ends strictly past `pos`, within the input.
proof fn lemma_scalar_type_at_bounds(input: Seq<char>, pos: int)
    requires
        0 <= pos <= input.len(),
    ensures
        scalar_type_at(input, pos) matches Some((v, p)) ==> pos < p <= input.len(),
{
    lemma_run_end(input, pos, CharClass::Space);
    reveal_strlit("Bool");
    reveal_strlit("Int");
    reveal_strlit("String");
}

/// Parse a scalar type keyword, per `scalar_type_at`.
fn p_scalar_type(s: &str, pos: usize) -> (r: Option<(ScalarType, usize)>)
    requires
        pos <= s@.len(),
    ensures
        match r {
            Some((v, p)) => pos < p <= s@.len() && scalar_type_at(s@, pos as int) == Some(
                (v, p as int),
            ),
            None => scalar_type_at(s@, pos as int) is None,
        },
{
    let pw = ws(s, pos);
    proof {
        reveal_strlit("Bool");
        reveal_strlit("Int");
        reveal_strlit("String");
    }
    match p_tag(s, pw, "Bool") {
        Some(p) => Some((ScalarType::Bool, p)),
        None => match p_tag(s, pw, "Int") {
            Some(p) => Some((ScalarType::Int, p)),
            None => match p_tag(s, pw, "String") {
                Some(p) => Some((ScalarType::String, p)),
                None => None,
            },
        },
    }
}

/// One `<column> : <type>` pair read at `pos`.
pub open spec fn column_type_at(input: Seq<char>, pos: int) -> Option<
    ((Seq<char>, ScalarType), int),
> {
    match ident_at(input, pos, false) {
        Some((col, p1)) => match tag_at(input, ws_at(input, p1), ":"@) {
            Some(p2) => match scalar_type_at(input, p2) {
                Some((ty, p3)) => Some(((col, ty), p3)),
                None => None,
            },
            None => None,
        },
        None => None,
    }
}

/// On success, a column/type pair ends strictly past `pos`, within the
/// input.
pub proof fn lemma_column_type_at_bounds(input: Seq<char>, pos: int)
    requires
        0 <= pos <= input.len(),
    ensures
        column_type_at(input, pos) matches Some((v, p)) ==> pos < p <= input.len(),
{
    lemma_ident_at_bounds(input, pos, false);
    reveal_strlit(":");
    match ident_at(input, pos, false) {
        Some((col, p1)) => {
            lemma_run_end(input, p1, CharClass::Space);
            match tag_at(input, ws_at(input, p1), ":"@) {
                Some(p2) => {
                    lemma_scalar_type_at_bounds(input, p2);
                },
                None => {},
            }
        },
        None => {},
    }
}

/// Parse a column/type pair, per `column_type_at`.
fn p_column_type(s: &str, pos: usize) -> (r: Option<((ColumnName, ScalarType), usize)>)
    requires
        pos <= s@.len(),
    ensures
        match r {
            Some(((c, ty), p)) => pos < p <= s@.len() && column_type_at(s@, pos as int) == Some(
                ((c@, ty), p as int),
            ),
            None => column_type_at(s@, pos as int) is None,
        },
{
    let (col, p1) = match p_ident(s, pos, false) {
        Some(x) => x,
        None => {
            return None;
        },
    };
    let pw = ws(s, p1);
    proof {
        reveal_strlit(":");
    }
    let p2 = match p_tag(s, pw, ":") {
        Some(x) => x,
        None => {
            return None;
        },
    };
    match p_scalar_type(s, p2) {
        Some((ty, p3)) => Some(((ColumnName(col), ty), p3)),
        None => None,
    }
}

/// The column/type pairs after the first one, folded into the column set:
/// as long as a comma and another pair follow, bind them.
pub open spec fn column_set_tail_at(input: Seq<char>, pos: int, m: ColumnTypesV) -> (
    ColumnTypesV,
    int,
)
    decreases input.len() - pos
        when 0 <= pos <= input.len()
{
    match tag_at(input, ws_at(input, pos), ","@) {
        Some(pc) => match column_type_at(input, pc) {
            Some(((col, ty), p2)) => {
                proof {
                    lemma_run_end(input, pos, CharClass::Space);
                    reveal_strlit(",");
                    lemma_column_type_at_bounds(input, pc);
                }
                column_set_tail_at(input, p2, map_put(m, col, ty))
            },
            None => (m, pos),
        },
        None => (m, pos),
    }
}

/// The tail of a column set ends between `pos` and the input's end.
proof fn lemma_column_set_tail_at_bounds(input: Seq<char>, pos: int, m: ColumnTypesV)
    requires
        0 <= pos <= input.len(),
    ensures
        pos <= column_set_tail_at(input, pos, m).1 <= input.len(),
    decreases input.len() - pos,
{
    lemma_run_end(input, pos, CharClass::Space);
    reveal_strlit(",");
    match tag_at(input, ws_at(input, pos), ","@) {
        Some(pc) => {
            lemma_column_type_at_bounds(input, pc);
            match column_type_at(input, pc) {
                Some(((col, ty), p2)) => {
                    lemma_column_set_tail_at_bounds(input, p2, map_put(m, col, ty));
                },
                None => {},
            }
        },
        None => {},
    }
}

/// A braced column set read at `pos`: `{ <column>: <type>, ... }`, at least
/// one pair, later bindings of a repeated column replacing earlier ones.
pub open spec fn column_set_at(input: Seq<char>, pos: int) -> Option<(ColumnTypesV, int)> {
    match tag_at(input, ws_at(input, pos), "{"@) {
        Some(p1) => match column_type_at(input, p1) {
            Some(((col, ty), p2)) => {
                let (m, p3) = column_set_tail_at(
                    input,
                    p2,
                    map_put(Seq::empty(), col, ty),
                );
                match tag_at(input, ws_at(input, p3), "}"@) {
                    Some(p4) => Some((m, p4)),
                    None => None,
                }
            },
            None => None,
        },
        None => None,
    }
}

/// On success, a column set ends strictly past `pos`, within the input.
pub proof fn lemma_column_set_at_bounds(input: Seq<char>, pos: int)
    requires
        0 <= pos <= input.len(),
    ensures
        column_set_at(input, pos) matches Some((v, p)) ==> pos < p <= input.len(),
{
    lemma_run_end(input, pos, CharClass::Space);
    reveal_strlit("{");
    reveal_strlit("}");
    match tag_at(input, ws_at(input, pos), "{"@) {
        Some(p1) => {
            lemma_column_type_at_bounds(input, p1);
            match column_type_at(input, p1) {
                Some(((col, ty), p2)) => {
                    lemma_column_set_tail_at_bounds(input, p2, map_put(Seq::empty(), col, ty));
                    let (m, p3) = column_set_tail_at(input, p2, map_put(Seq::empty(), col, ty));
                    lemma_run_end(input, p3, CharClass::Space);
                },
                None => {},
            }
        },
        None => {},
    }
}

/// Parse a braced column set, per `column_set_at`.
fn p_column_set(s: &str, pos: usize) -> (r: Option<(NameMap<ColumnName, ScalarType>, usize)>)
    requires
        pos <= s@.len(),
    ensures
        match r {
            Some((v, p)) => pos < p <= s@.len() && column_set_at(s@, pos as int) == Some(
                (v@, p as int),
            ),
            None => column_set_at(s@, pos as int) is None,
        },
{
    let pw = ws(s, pos);
    proof {
        reveal_strlit("{");
        reveal_strlit("}");
    }
    let p1 = match p_tag(s, pw, "{") {
        Some(x) => x,
        None => {
            return None;
        },
    };
    let ((col, ty), p2) = match p_column_type(s, p1) {
        Some(x) => x,
        None => {
            return None;
        },
    };
    let mut map: NameMap<ColumnName, ScalarType> = NameMap::new();
    map.insert(col, ty);
    let n = s.unicode_len();
    let mut p = p2;
    let ghost first_pos = p2 as int;
    let ghost first_map = map@;
    loop
        invariant
            pos < p2 <= p <= n,
            n == s@.len(),
            column_set_tail_at(s@, first_pos, first_map) == column_set_tail_at(
                s@,
                p as int,
                map@,
            ),
        ensures
            pos < p <= n,
            column_set_tail_at(s@, first_pos, first_map) == (map@, p as int),
        decreases n - p,
    {
        let save = p;
        let pw2 = ws(s, p);
        proof {
            reveal_strlit(",");
        }
        let pc = match p_tag(s, pw2, ",") {
            Some(x) => x,
            None => {
                proof {
                    assert(column_set_tail_at(s@, p as int, map@) == (map@, p as int));
                }
                break ;
            },
        };
        match p_column_type(s, pc) {
            Some(((col2, ty2), p3)) => {
                map.insert(col2, ty2);
                p = p3;
            },
            None => {
                p = save;
                proof {
                    assert(column_set_tail_at(s@, p as int, map@) == (map@, p as int));
                }
                break ;
            },
        }
    }
    let pw3 = ws(s, p);
    match p_tag(s, pw3, "}") {
        Some(p4) => Some((map, p4)),
        None => None,
    }
}

/// The `<Constructor> { ... }` variants after the first one, folded into
/// the variant map.
pub open spec fn variants_tail_at(
    input: Seq<char>,
    pos: int,
    m: Seq<(Seq<char>, ColumnTypesV)>,
) -> (Seq<(Seq<char>, ColumnTypesV)>, int)
    decreases input.len() - pos
        when 0 <= pos <= input.len()
{
    match tag_at(input, ws_at(input, pos), ","@) {
        Some(pc) => match ident_at(input, pc, true) {
            Some((ctor, p2)) => match column_set_at(input, p2) {
                Some((cols, p3)) => {
                    proof {
                        lemma_run_end(input, pos, CharClass::Space);
                        reveal_strlit(",");
                        lemma_ident_at_bounds(input, pc, true);
                        lemma_column_set_at_bounds(input, p2);
                    }
                    variants_tail_at(input, p3, map_put(m, ctor, cols))
                },
                None => (m, pos),
            },
            None => (m, pos),
        },
        None => (m, pos),
    }
}

/// A table body read at `pos`: one braced column set, or a braced list of
/// `<Constructor> { ... }` variants, tried in that order.
pub open spec fn columns_at(input: Seq<char>, pos: int) -> Option<(ColumnsV, int)> {
    match column_set_at(input, pos) {
        Some((m, p)) => Some((ColumnsV::SingleConstructor(m), p)),
        None => match tag_at(input, ws_at(input, pos), "{"@) {
            Some(p1) => match ident_at(input, p1, true) {
                Some((ctor, p2)) => match column_set_at(input, p2) {
                    Some((cols, p3)) => {
                        let (vs, p4) = variants_tail_at(
                            input,
                            p3,
                            map_put(Seq::empty(), ctor, cols),
                        );
                        match tag_at(input, ws_at(input, p4), "}"@) {
                            Some(p5) => Some((ColumnsV::MultipleConstructors(vs), p5)),
                            None => None,
                        }
                    },
                    None => None,
                },
                None => None,
            },
            None => None,
        },
    }
}

/// Parse a table body, per `columns_at`.
fn p_columns(s: &str, pos: usize) -> (r: Option<(Columns, usize)>)
    requires
        pos <= s@.len(),
    ensures
        match r {
            Some((v, p)) => pos < p <= s@.len() && columns_at(s@, pos as int) == Some(
                (v@, p as int),
            ),
            None => columns_at(s@, pos as int) is None,
        },
{
    match p_column_set(s, pos) {
        Some((map, p)) => {
            return Some((Columns::SingleConstructor(map), p));
        },
        None => {},
    }
    let pw = ws(s, pos);
    proof {
        reveal_strlit("{");
        reveal_strlit("}");
    }
    let p1 = match p_tag(s, pw, "{") {
        Some(x) => x,
        None => {
            return None;
        },
    };
    let (ctor, p2) = match p_ident(s, p1, true) {
        Some(x) => x,
        None => {
            return None;
        },
    };
    let (cols, p3) = match p_column_set(s, p2) {
        Some(x) => x,
        None => {
            return None;
        },
    };
    let mut constructors: NameMap<Constructor, NameMap<ColumnName, ScalarType>> = NameMap::new();
    constructors.insert(Constructor(ctor), cols);
    let n = s.unicode_len();
    let mut p = p3;
    let ghost first_pos = p3 as int;
    let ghost first_map = constructors@;
    loop
        invariant
            pos < p3 <= p <= n,
            n == s@.len(),
            variants_tail_at(s@, first_pos, first_map) == variants_tail_at(
                s@,
                p as int,
                constructors@,
            ),
        ensures
            pos < p <= n,
            variants_tail_at(s@, first_pos, first_map) == (constructors@, p as int),
        decreases n - p,
    {
        let save = p;
        let pw2 = ws(s, p);
        proof {
            reveal_strlit(",");
        }
        let pc = match p_tag(s, pw2, ",") {
            Some(x) => x,
            None => {
                proof {
                    assert(variants_tail_at(s@, p as int, constructors@) == (
                        constructors@,
                        p as int,
                    ));
                }
                break ;
            },
        };
        let (ctor2, p4) = match p_ident(s, pc, true) {
            Some(x) => x,
            None => {
                p = save;
                proof {
                    assert(variants_tail_at(s@, p as int, constructors@) == (
                        constructors@,
                        p as int,
                    ));
                }
                break ;
            },
        };
        match p_column_set(s, p4) {
            Some((cols2, p5)) => {
                constructors.insert(Constructor(ctor2), cols2);
                p = p5;
            },
            None => {
                p = save;
                proof {
                    assert(variants_tail_at(s@, p as int, constructors@) == (
                        constructors@,
                        p as int,
                    ));
                }
                break ;
            },
        }
    }
    let pw3 = ws(s, p);
    match p_tag(s, pw3, "}") {
        Some(p5) => Some((Columns::MultipleConstructors(constructors), p5)),
        None => None,
    }
}

/// A table definition read at `pos`: `type <table> { ... }`.
pub open spec fn table_at(input: Seq<char>, pos: int) -> Option<(TableV, int)> {
    match tag_at(input, ws_at(input, pos), "type"@) {
        Some(p1) => match ident_at(input, p1, false) {
            Some((tname, p2)) => match columns_at(input, p2) {
                Some((columns, p3)) => Some((TableV { name: tname, columns }, p3)),
                None => None,
            },
            None => None,
        },
        None => None,
    }
}

/// Parse a table definition, per `table_at`.
fn p_table(s: &str, pos: usize) -> (r: Option<(Table, usize)>)
    requires
        pos <= s@.len(),
    ensures
        match r {
            Some((v, p)) => pos < p <= s@.len() && table_at(s@, pos as int) == Some(
                (v@, p as int),
            ),
            None => table_at(s@, pos as int) is None,
        },
{
    let pw = ws(s, pos);
    proof {
        reveal_strlit("type");
    }
    let p1 = match p_tag(s, pw, "type") {
        Some(x) => x,
        None => {
            return None;
        },
    };
    let (tname, p2) = match p_ident(s, p1, false) {
        Some(x) => x,
        None => {
            return None;
        },
    };
    match p_columns(s, p2) {
        Some((columns, p3)) => Some((Table { name: TableName(tname), columns }, p3)),
        None => None,
    }
}

/// A binary connective read at `pos`: only the conjunction `&&` exists.
pub open spec fn function_at(input: Seq<char>, pos: int) -> Option<(Function, int)> {
    match tag_at(input, ws_at(input, pos), "&&"@) {
        Some(p) => Some((Function::And, p)),
        None => None,
    }
}

// ---------------------------------------------------------------------
// The public entry points
// ---------------------------------------------------------------------

/// The remaining input from position `p` on.
fn rest_from(s: &str, p: usize) -> (r: &str)
    requires
        p <= s@.len(),
    ensures
        r@ == s@.subrange(p as int, s@.len() as int),
{
    s.substring_char(p, s.unicode_len())
}

/// Parse a table name, per `ident_at` with a lowercase first letter: on
/// success, the remaining input and the name; failure exactly when the
/// grammar finds none.
pub fn table_name(input: &str) -> (r: Result<(&str, TableName), ParseError>)
    ensures
        match ident_at(input@, 0, false) {
            Some((v, p)) => r matches Ok((rest, t)) && t@ == v && rest@ == input@.subrange(
                p,
                input@.len() as int,
            ),
            None => r is Err,
        },
{
    match p_ident(input, 0, false) {
        Some((name, p)) => Ok((rest_from(input, p), TableName(name))),
        None => Err(ParseError),
    }
}

/// Parse a constructor name, per `ident_at` with an uppercase first letter.
pub fn constructor(input: &str) -> (r: Result<(&str, Constructor), ParseError>)
    ensures
        match ident_at(input@, 0, true) {
            Some((v, p)) => r matches Ok((rest, c)) && c@ == v && rest@ == input@.subrange(
                p,
                input@.len() as int,
            ),
            None => r is Err,
        },
{
    match p_ident(input, 0, true) {
        Some((name, p)) => Ok((rest_from(input, p), Constructor(name))),
        None => Err(ParseError),
    }
}

/// Parse a column name, per `ident_at` with a lowercase first letter.
pub fn column_name(input: &str) -> (r: Result<(&str, ColumnName), ParseError>)
    ensures
        match ident_at(input@, 0, false) {
            Some((v, p)) => r matches Ok((rest, c)) && c@ == v && rest@ == input@.subrange(
                p,
                input@.len() as int,
            ),
            None => r is Err,
        },
{
    match p_ident(input, 0, false) {
        Some((name, p)) => Ok((rest_from(input, p), ColumnName(name))),
        None => Err(ParseError),
    }
}

/// Parse a scalar literal, per `scalar_value_at`.
pub fn scalar_value(input: &str) -> (r: Result<(&str, ScalarValue), ParseError>)
    ensures
        match scalar_value_at(input@, 0) {
            Some((v, p)) => r matches Ok((rest, sv)) && sv@ == v && rest@ == input@.subrange(
                p,
                input@.len() as int,
            ),
            None => r is Err,
        },
{
    match p_scalar_value(input, 0) {
        Some((v, p)) => Ok((rest_from(input, p), v)),
        None => Err(ParseError),
    }
}

/// Parse a comparison, per `comparison_at`.
pub fn comparison(input: &str) -> (r: Result<(&str, Comparison), ParseError>)
    ensures
        match comparison_at(input@, 0) {
            Some((v, p)) => r matches Ok((rest, c)) && (c.column@, c.value@) == v && rest@
                == input@.subrange(p, input@.len() as int),
            None => r is Err,
        },
{
    match p_comparison(input, 0) {
        Some((c, p)) => Ok((rest_from(input, p), c)),
        None => Err(ParseError),
    }
}

/// Parse a binary connective, per `function_at`.
pub fn function(input: &str) -> (r: Result<(&str, Function), ParseError>)
    ensures
        match function_at(input@, 0) {
            Some((v, p)) => r matches Ok((rest, f)) && f == v && rest@ == input@.subrange(
                p,
                input@.len() as int,
            ),
            None => r is Err,
        },
{
    let pw = ws(input, 0);
    proof {
        reveal_strlit("&&");
    }
    match p_tag(input, pw, "&&") {
        Some(p) => Ok((rest_from(input, p), Function::And)),
        None => Err(ParseError),
    }
}

/// Parse a filter expression, per `expression_at`.
pub fn expression(input: &str) -> (r: Result<(&str, Expression), ParseError>)
    ensures
        match expression_at(input@, 0) {
            Some((v, p)) => r matches Ok((rest, e)) && e@ == v && rest@ == input@.subrange(
                p,
                input@.len() as int,
            ),
            None => r is Err,
        },
{
    match p_expression(input, 0) {
        Some((e, p)) => Ok((rest_from(input, p), e)),
        None => Err(ParseError),
    }
}

/// Parse the columns clause of a SELECT, per `select_columns_at`.
pub fn select_columns(input: &str) -> (r: Result<(&str, SelectColumns), ParseError>)
    ensures
        match select_columns_at(input@, 0) {
            Some((v, p)) => r matches Ok((rest, c)) && c@ == v && rest@ == input@.subrange(
                p,
                input@.len() as int,
            ),
            None => r is Err,
        },
{
    match p_select_columns(input, 0) {
        Some((c, p)) => Ok((rest_from(input, p), c)),
        None => Err(ParseError),
    }
}

/// Parse a whole SELECT, per `select_at`.
pub fn select(input: &str) -> (r: Result<(&str, Select), ParseError>)
    ensures
        match select_at(input@, 0) {
            Some((v, p)) => r matches Ok((rest, q)) && q@ == v && rest@ == input@.subrange(
                p,
                input@.len() as int,
            ),
            None => r is Err,
        },
{
    match p_select(input, 0) {
        Some((q, p)) => Ok((rest_from(input, p), q)),
        None => Err(ParseError),
    }
}

/// Parse a table definition, per `table_at`.
pub fn parse_table(input: &str) -> (r: Result<(&str, Table), ParseError>)
    ensures
        match table_at(input@, 0) {
            Some((v, p)) => r matches Ok((rest, t)) && t@ == v && rest@ == input@.subrange(
                p,
                input@.len() as int,
            ),
            None => r is Err,
        },
{
    match p_table(input, 0) {
        Some((t, p)) => Ok((rest_from(input, p), t)),
        None => Err(ParseError),
    }
}

} // verus!
