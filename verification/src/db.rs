//! What the site does around the database: it refuses SQL that reaches for
//! the server's internals, and it turns a query's answer into a table of
//! strings for display.

use vstd::prelude::*;

use crate::decimal::{
    all_digits, digits_value, i64_to_string, int_to_decimal, lemma_nat_to_decimal,
    lemma_nat_to_decimal_no_leading_zero, lemma_parse_i32_of_decimal, nat_to_decimal,
    spec_parse_i32,
};
use crate::pattern::{compile_pattern, pattern_is_match, regex_compiles, regex_is_match};
use crate::text::{join, join_strings, str_eq};

verus! {

/// SQL naming a `pg_` catalogue object is refused.
pub const PG_PATTERN: &'static str = r###"[^\w]pg_"###;

/// SQL touching the statement timeout is refused.
pub const TIMEOUT_PATTERN: &'static str = r###"[^\w]statement_timeout"###;

/// SQL asking for the server's version is refused.
pub const VERSION_PATTERN: &'static str = r###"[^\w]version[^\w]"###;

pub const PG_REFUSAL: &'static str = "Do not use pg_";

pub const TIMEOUT_REFUSAL: &'static str = "Do not use statement_timeout";

pub const VERSION_REFUSAL: &'static str = "Do not use version";

/// One of the patterns that screen SQL was refused by the regex engine.
#[derive(Debug, Clone, Copy, PartialEq, Eq, Structural)]
pub enum ScreenError {
    BadPattern,
}

/// The outcome of screening a piece of SQL: `None` when one of the patterns
/// does not compile (checked in turn, each only if the ones before did not
/// match); otherwise the message of the first pattern that matches, or
/// `Some(None)` when none does and the SQL may run.
pub open spec fn screening(sql: Seq<char>) -> Option<Option<Seq<char>>> {
    if !regex_compiles(PG_PATTERN@) {
        None
    } else if regex_is_match(PG_PATTERN@, sql) {
        Some(Some(PG_REFUSAL@))
    } else if !regex_compiles(TIMEOUT_PATTERN@) {
        None
    } else if regex_is_match(TIMEOUT_PATTERN@, sql) {
        Some(Some(TIMEOUT_REFUSAL@))
    } else if !regex_compiles(VERSION_PATTERN@) {
        None
    } else if regex_is_match(VERSION_PATTERN@, sql) {
        Some(Some(VERSION_REFUSAL@))
    } else {
        Some(None)
    }
}

/// The one-cell table that answers refused SQL.
pub open spec fn refusal_table(message: Seq<char>) -> Seq<Seq<Seq<char>>> {
    seq![seq![message]]
}

fn message_table(message: &str) -> (t: Vec<Vec<String>>)
    ensures
        t.deep_view() == refusal_table(message@),
{
    let row = vec![String::from_str(message)];
    let t = vec![row];
    assert(t.deep_view() =~= refusal_table(message@)) by {
        assert(t.deep_view()[0] =~= seq![message@]);
    }
    t
}

/// Screens SQL before it is run: the table to answer with when it is
/// refused, `None` when it may run.
pub fn screen_sql(sql: &str) -> (r: Result<Option<Vec<Vec<String>>>, ScreenError>)
    ensures
        match r {
            Err(_) => screening(sql@) is None,
            Ok(None) => screening(sql@) == Some(None::<Seq<char>>),
            Ok(Some(t)) => exists|m: Seq<char>|
                screening(sql@) == Some(Some(m)) && t.deep_view() == refusal_table(m),
        },
{
    let pg = match compile_pattern(PG_PATTERN) {
        Ok(p) => p,
        Err(_) => return Err(ScreenError::BadPattern),
    };
    if pattern_is_match(&pg, sql) {
        return Ok(Some(message_table(PG_REFUSAL)));
    }
    let timeout = match compile_pattern(TIMEOUT_PATTERN) {
        Ok(p) => p,
        Err(_) => return Err(ScreenError::BadPattern),
    };
    if pattern_is_match(&timeout, sql) {
        return Ok(Some(message_table(TIMEOUT_REFUSAL)));
    }
    let version = match compile_pattern(VERSION_PATTERN) {
        Ok(p) => p,
        Err(_) => return Err(ScreenError::BadPattern),
    };
    if pattern_is_match(&version, sql) {
        return Ok(Some(message_table(VERSION_REFUSAL)));
    }
    Ok(None)
}

/// How the values of a column are read, by the name of its SQL type.
#[derive(Debug, Clone, Copy, PartialEq, Eq, Structural)]
pub enum ColumnKind {
    Int8,
    Int4,
    Float8,
    Text,
    TextArray,
    Other,
}

pub open spec fn spec_column_kind(sql_type: Seq<char>) -> ColumnKind {
    if sql_type == "int8"@ {
        ColumnKind::Int8
    } else if sql_type == "int4"@ {
        ColumnKind::Int4
    } else if sql_type == "float8"@ {
        ColumnKind::Float8
    } else if sql_type == "varchar"@ || sql_type == "text"@ {
        ColumnKind::Text
    } else if sql_type == "_varchar"@ {
        ColumnKind::TextArray
    } else {
        ColumnKind::Other
    }
}

/// The kind of a column whose SQL type has the given name.
pub fn column_kind(sql_type: &str) -> (k: ColumnKind)
    ensures
        k == spec_column_kind(sql_type@),
{
    if str_eq(sql_type, "int8") {
        ColumnKind::Int8
    } else if str_eq(sql_type, "int4") {
        ColumnKind::Int4
    } else if str_eq(sql_type, "float8") {
        ColumnKind::Float8
    } else if str_eq(sql_type, "varchar") || str_eq(sql_type, "text") {
        ColumnKind::Text
    } else if str_eq(sql_type, "_varchar") {
        ColumnKind::TextArray
    } else {
        ColumnKind::Other
    }
}

/// One value of a query's answer, as read from its column. A floating-point
/// value arrives already written out, as `Text`; a column of a type the site
/// does not read arrives as the name of that type.
pub enum CellValue {
    Int8(Option<i64>),
    Int4(Option<i32>),
    Text(Option<String>),
    TextArray(Option<Vec<String>>),
    Unsupported(String),
}

/// What `{:?}` writes for a string: the string quoted, with its special
/// characters escaped.
pub uninterp spec fn str_debug(s: Seq<char>) -> Seq<char>;

/// Formats a string with `{:?}`, that is `<str as Debug>::fmt`. Claims that the
/// result is `str_debug` of the string; how characters are escaped is not
/// stated.
#[verifier::external_body]
fn debug_quoted(s: &str) -> (r: String)
    ensures
        r@ == str_debug(s@),
{
    format!("{:?}", s)
}

/// The text shown for a value: its decimal digits, the string itself, the
/// strings of an array joined by commas, `Null` for a missing value, and a
/// request for a conversion for a type the site does not read.
pub open spec fn cell_text(c: CellValue) -> Seq<char> {
    match c {
        CellValue::Int8(None) => "Null"@,
        CellValue::Int8(Some(x)) => int_to_decimal(x as int),
        CellValue::Int4(None) => "Null"@,
        CellValue::Int4(Some(x)) => int_to_decimal(x as int),
        CellValue::Text(None) => "Null"@,
        CellValue::Text(Some(s)) => s@,
        CellValue::TextArray(None) => "Null"@,
        CellValue::TextArray(Some(v)) => join(v.deep_view(), ","@),
        CellValue::Unsupported(t) => "Add conversion for "@ + str_debug(t@),
    }
}

/// Writes out one value of a query's answer.
pub fn format_cell(c: &CellValue) -> (r: String)
    ensures
        r@ == cell_text(*c),
{
    match c {
        CellValue::Int8(None) => String::from_str("Null"),
        CellValue::Int8(Some(x)) => i64_to_string(*x),
        CellValue::Int4(None) => String::from_str("Null"),
        CellValue::Int4(Some(x)) => i64_to_string(*x as i64),
        CellValue::Text(None) => String::from_str("Null"),
        CellValue::Text(Some(s)) => s.clone(),
        CellValue::TextArray(None) => String::from_str("Null"),
        CellValue::TextArray(Some(v)) => join_strings(v, ","),
        CellValue::Unsupported(t) => {
            let mut s = String::from_str("Add conversion for ");
            let quoted = debug_quoted(t.as_str());
            s.append(quoted.as_str());
            s
        },
    }
}

/// The table of an error is its message alone; the table of an answer with
/// rows has the column names first and then, at place `i + 1`, the written-out
/// values of row `i`, one row per row of the answer; only an answer without
/// rows gives no table.
pub proof fn lemma_result_table_shape(answer: Result<QueryRows, String>)
    ensures
        answer matches Err(e) ==> spec_result_table(answer).len() == 1 && spec_result_table(
            answer,
        )[0] == seq![e@],
        answer matches Ok(q) ==> {
            let t = spec_result_table(answer);
            let n = q.rows@.len();
            &&& (t.len() == 0 <==> n == 0)
            &&& n > 0 ==> {
                &&& t.len() == n + 1
                &&& t[0] == q.columns.deep_view()
                &&& forall|i: int|
                    0 <= i < n ==> (#[trigger] t[i + 1]).len() == q.rows@[i]@.len() && forall|
                        j: int,
                    |
                        0 <= j < q.rows@[i]@.len() ==> t[i + 1][j] == cell_text(
                            #[trigger] q.rows@[i]@[j],
                        )
            }
        },
{
    if let Ok(q) = answer {
        let t = spec_result_table(answer);
        let n = q.rows@.len();
        if n > 0 {
            assert forall|i: int| 0 <= i < n implies (#[trigger] t[i + 1]).len() == q.rows@[
                i
            ]@.len() && forall|j: int|
                0 <= j < q.rows@[i]@.len() ==> t[i + 1][j] == cell_text(
                    #[trigger] q.rows@[i]@[j],
                ) by {
                assert(t[i + 1] == row_text(q.rows@[i]@));
            }
        }
    }
}

/// An integer value is written as its decimal digits, a `-` in front exactly
/// when it is negative, with no leading zeros, so the text reads back as the
/// same number. A missing value reads `Null`, and a string is shown as it is.
pub proof fn lemma_cell_text_of_values(x: i64, y: i32, s: String)
    ensures
        ({
            let t = cell_text(CellValue::Int8(Some(x)));
            let digits = if x < 0 {
                t.drop_first()
            } else {
                t
            };
            &&& t.len() > 0
            &&& (t[0] == '-') == (x < 0)
            &&& digits.len() > 0
            &&& all_digits(digits)
            &&& digits_value(digits) == (if x < 0 {
                -(x as int)
            } else {
                x as int
            })
            &&& (digits[0] == '0' ==> digits.len() == 1)
        }),
        spec_parse_i32(cell_text(CellValue::Int4(Some(y)))) == Some(y),
        cell_text(CellValue::Int8(None)) == "Null"@,
        cell_text(CellValue::Int4(None)) == "Null"@,
        cell_text(CellValue::Text(None)) == "Null"@,
        cell_text(CellValue::TextArray(None)) == "Null"@,
        cell_text(CellValue::Text(Some(s))) == s@,
{
    let n: nat = if x < 0 {
        (-(x as int)) as nat
    } else {
        x as nat
    };
    lemma_nat_to_decimal(n);
    lemma_nat_to_decimal_no_leading_zero(n);
    let t = cell_text(CellValue::Int8(Some(x)));
    if x < 0 {
        assert(t.drop_first() =~= nat_to_decimal(n));
    }
    lemma_parse_i32_of_decimal(y as int);
}

/// The rows of a query's answer and the names of its columns.
pub struct QueryRows {
    pub columns: Vec<String>,
    pub rows: Vec<Vec<CellValue>>,
}

pub open spec fn row_text(row: Seq<CellValue>) -> Seq<Seq<char>> {
    row.map_values(|c: CellValue| cell_text(c))
}

/// The table shown for a query: for an error, one cell with its message;
/// for an answer without rows, no table; otherwise the column names, then
/// each row's values written out.
pub open spec fn spec_result_table(answer: Result<QueryRows, String>) -> Seq<Seq<Seq<char>>> {
    match answer {
        Err(e) => seq![seq![e@]],
        Ok(q) => if q.rows@.len() == 0 {
            Seq::empty()
        } else {
            seq![q.columns.deep_view()] + q.rows@.map_values(|row: Vec<CellValue>| row_text(row@))
        },
    }
}

fn row_strings(row: &Vec<CellValue>) -> (r: Vec<String>)
    ensures
        r.deep_view() == row_text(row@),
{
    let mut r: Vec<String> = Vec::new();
    let n = row.len();
    let mut i: usize = 0;
    while i < n
        invariant
            i <= n,
            n == row@.len(),
            r.deep_view() =~= row_text(row@.take(i as int)),
        decreases n - i,
    {
        let s = format_cell(&row[i]);
        r.push(s);
        assert(row_text(row@.take(i + 1)) =~= row_text(row@.take(i as int)).push(
            cell_text(row@[i as int]),
        ));
        i = i + 1;
    }
    assert(row@.take(n as int) =~= row@);
    r
}

/// Turns a query's answer, or its error message, into the table of strings
/// that the page shows.
pub fn result_table(answer: Result<QueryRows, String>) -> (t: Vec<Vec<String>>)
    ensures
        t.deep_view() == spec_result_table(answer),
{
    match answer {
        Err(e) => {
            let t = vec![vec![e]];
            assert(t.deep_view() =~= spec_result_table(answer)) by {
                assert(t.deep_view()[0] =~= seq![e@]);
            }
            t
        },
        Ok(q) => {
            let mut t: Vec<Vec<String>> = Vec::new();
            let n = q.rows.len();
            if n == 0 {
                assert(t.deep_view() =~= Seq::<Seq<Seq<char>>>::empty());
                return t;
            }
            let ghost rows_text = q.rows@.map_values(|row: Vec<CellValue>| row_text(row@));
            t.push(q.columns);
            let mut i: usize = 0;
            while i < n
                invariant
                    i <= n,
                    n == q.rows@.len(),
                    rows_text == q.rows@.map_values(|row: Vec<CellValue>| row_text(row@)),
                    t.deep_view() =~= seq![q.columns.deep_view()] + rows_text.take(i as int),
                decreases n - i,
            {
                let r = row_strings(&q.rows[i]);
                assert(rows_text[i as int] == row_text(q.rows@[i as int]@));
                let ghost before = t.deep_view();
                t.push(r);
                assert(t.deep_view() =~= before.push(rows_text[i as int]));
                assert(rows_text.take(i + 1) =~= rows_text.take(i as int).push(rows_text[i as int]));
                i = i + 1;
            }
            assert(rows_text.take(n as int) =~= rows_text);
            t
        },
    }
}

} // verus!
