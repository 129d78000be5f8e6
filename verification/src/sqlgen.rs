//! Statement and report text built from schema data: decimal numerals,
//! `CREATE TABLE` and parameterized `INSERT` statement text, the `t`/`tN`
//! table-naming rule, and the per-file load report line.
//!
//! Row values are never interpolated into statement text: inserts carry
//! numbered placeholders and the values are bound separately.

use vstd::prelude::*;
use vstd::string::*;
use crate::text::string_from_chars;

verus! {

// ---------------------------------------------------------------------------
// Decimal numerals
// ---------------------------------------------------------------------------

/// The decimal digit character for `d`.
pub open spec fn digit_char(d: int) -> char {
    if d == 0 {
        '0'
    } else if d == 1 {
        '1'
    } else if d == 2 {
        '2'
    } else if d == 3 {
        '3'
    } else if d == 4 {
        '4'
    } else if d == 5 {
        '5'
    } else if d == 6 {
        '6'
    } else if d == 7 {
        '7'
    } else if d == 8 {
        '8'
    } else {
        '9'
    }
}

/// The usual decimal numeral for a non-negative integer, most significant
/// digit first, without leading zeros (zero itself is `0`).
pub open spec fn dec_rep(n: int) -> Seq<char>
    decreases n,
    via dec_rep_dec
{
    if n < 0 {
        Seq::empty()
    } else if n < 10 {
        seq![digit_char(n)]
    } else {
        dec_rep(n / 10).push(digit_char(n % 10))
    }
}

#[via_fn]
proof fn dec_rep_dec(n: int) {
    if n >= 10 {
        assert(0 <= n / 10 < n);
    }
}

pub proof fn lemma_dec_rep_len(n: int)
    ensures
        n >= 0 ==> dec_rep(n).len() >= 1,
{
}

/// The digit character for `d`.
fn digit_char_exec(d: u64) -> (r: char)
    requires
        d < 10,
    ensures
        r == digit_char(d as int),
{
    if d == 0 {
        '0'
    } else if d == 1 {
        '1'
    } else if d == 2 {
        '2'
    } else if d == 3 {
        '3'
    } else if d == 4 {
        '4'
    } else if d == 5 {
        '5'
    } else if d == 6 {
        '6'
    } else if d == 7 {
        '7'
    } else if d == 8 {
        '8'
    } else {
        '9'
    }
}

/// Appends the decimal numeral of `n` to `out`.
fn push_dec(n: u64, out: &mut Vec<char>)
    ensures
        final(out)@ == old(out)@ + dec_rep(n as int),
    decreases n,
{
    if n < 10 {
        out.push(digit_char_exec(n));
        proof {
            assert(out@ =~= old(out)@ + dec_rep(n as int));
        }
    } else {
        push_dec(n / 10, out);
        out.push(digit_char_exec(n % 10));
        proof {
            assert(out@ =~= old(out)@ + dec_rep(n as int));
        }
    }
}

/// The decimal numeral of `n` as a string.
pub fn dec_string(n: u64) -> (r: String)
    ensures
        r@ == dec_rep(n as int),
{
    let mut v: Vec<char> = Vec::new();
    push_dec(n, &mut v);
    string_from_chars(&v)
}

/// Appends the decimal numeral of `n` to a string.
fn append_dec(s: &mut String, n: u64)
    ensures
        final(s)@ == old(s)@ + dec_rep(n as int),
{
    let d = dec_string(n);
    s.append(d.as_str());
}

// ---------------------------------------------------------------------------
// Table names
// ---------------------------------------------------------------------------

/// The name of the table for the file at `index` (0-based) of `total`
/// files: `t` when there is exactly one file, otherwise `t1`, `t2`, …
/// in argument order.
pub open spec fn table_name_spec(index: int, total: int) -> Seq<char> {
    if total == 1 {
        "t"@
    } else {
        seq!['t'] + dec_rep(index + 1)
    }
}

pub fn table_name(index: usize, total: usize) -> (r: String)
    requires
        index < total,
    ensures
        r@ == table_name_spec(index as int, total as int),
{
    if total == 1 {
        String::from_str("t")
    } else {
        let mut v: Vec<char> = Vec::new();
        v.push('t');
        push_dec((index as u64) + 1, &mut v);
        let r = string_from_chars(&v);
        proof {
            assert(v@ =~= seq!['t'] + dec_rep(index + 1));
        }
        r
    }
}

/// Law: when several files are loaded, no table is named `t` — every name
/// is `t` followed by the file's 1-indexed number.
pub proof fn lemma_multi_file_names(index: int, total: int)
    requires
        0 <= index,
        total >= 2,
    ensures
        table_name_spec(index, total) == seq!['t'] + dec_rep(index + 1),
        table_name_spec(index, total) != "t"@,
{
    reveal_strlit("t");
    lemma_dec_rep_len(index + 1);
    assert(table_name_spec(index, total).len() >= 2);
}

// ---------------------------------------------------------------------------
// CREATE TABLE
// ---------------------------------------------------------------------------

/// The column list of a `CREATE TABLE`: each column name followed by
/// ` varchar`, comma-separated, from position `i` on.
pub open spec fn cols_clause(cols: Seq<Seq<char>>, i: int) -> Seq<char>
    decreases cols.len() - i,
{
    if i < 0 || i >= cols.len() {
        Seq::empty()
    } else if i == cols.len() - 1 {
        cols[i] + " varchar"@
    } else {
        cols[i] + " varchar, "@ + cols_clause(cols, i + 1)
    }
}

/// The text of the statement creating `table` with the given columns, each
/// as a generic variable-length text column.
pub open spec fn create_table_sql_spec(table: Seq<char>, cols: Seq<Seq<char>>) -> Seq<char> {
    "CREATE TABLE "@ + table + " ("@ + cols_clause(cols, 0) + ")"@
}

pub fn create_table_sql(table: &str, cols: &Vec<String>) -> (r: String)
    ensures
        r@ == create_table_sql_spec(table@, cols.deep_view()),
{
    let ghost dv = cols.deep_view();
    let mut r = String::from_str("CREATE TABLE ");
    r.append(table);
    r.append(" (");
    let ghost head = "CREATE TABLE "@ + table@ + " ("@;
    let mut i: usize = 0;
    while i < cols.len()
        invariant
            i <= cols@.len(),
            dv == cols.deep_view(),
            head == "CREATE TABLE "@ + table@ + " ("@,
            r@ + cols_clause(dv, i as int) == head + cols_clause(dv, 0),
        decreases cols@.len() - i,
    {
        proof {
            assert(dv[i as int] == cols@[i as int]@);
        }
        r.append(cols[i].as_str());
        if i + 1 < cols.len() {
            r.append(" varchar, ");
        } else {
            r.append(" varchar");
        }
        i = i + 1;
        proof {
            if i < cols@.len() {
                assert(r@ + cols_clause(dv, i as int)
                    =~= head + cols_clause(dv, 0));
            } else {
                assert(cols_clause(dv, i as int) =~= Seq::<char>::empty());
                assert(r@ + cols_clause(dv, i as int)
                    =~= head + cols_clause(dv, 0));
            }
        }
    }
    r.append(")");
    proof {
        assert(cols_clause(dv, i as int) =~= Seq::<char>::empty());
        assert(r@ =~= create_table_sql_spec(table@, dv));
    }
    r
}

// ---------------------------------------------------------------------------
// INSERT
// ---------------------------------------------------------------------------

/// The placeholder list `$k, …, $n` of a parameterized insert.
pub open spec fn placeholders_from(k: int, n: int) -> Seq<char>
    decreases n - k,
{
    if k < 1 || k > n {
        Seq::empty()
    } else if k == n {
        seq!['$'] + dec_rep(k)
    } else {
        seq!['$'] + dec_rep(k) + ", "@ + placeholders_from(k + 1, n)
    }
}

/// The text of the parameterized statement inserting one row of `n` fields
/// into `table`; the field values themselves are bound to the placeholders,
/// never spliced into the text.
pub open spec fn insert_sql_spec(table: Seq<char>, n: int) -> Seq<char> {
    "INSERT INTO "@ + table + " VALUES ("@ + placeholders_from(1, n) + ")"@
}

pub fn insert_sql(table: &str, n: usize) -> (r: String)
    ensures
        r@ == insert_sql_spec(table@, n as int),
{
    let mut r = String::from_str("INSERT INTO ");
    r.append(table);
    r.append(" VALUES (");
    let ghost head = "INSERT INTO "@ + table@ + " VALUES ("@;
    let mut i: usize = 0;
    while i < n
        invariant
            i <= n,
            head == "INSERT INTO "@ + table@ + " VALUES ("@,
            r@ + placeholders_from(i + 1, n as int) == head + placeholders_from(1, n as int),
        decreases n - i,
    {
        let mut ph: Vec<char> = Vec::new();
        ph.push('$');
        push_dec((i as u64) + 1, &mut ph);
        let phs = string_from_chars(&ph);
        r.append(phs.as_str());
        if i + 1 < n {
            r.append(", ");
        }
        i = i + 1;
        proof {
            assert(ph@ =~= seq!['$'] + dec_rep(i as int));
            if i < n {
                assert(r@ + placeholders_from(i + 1, n as int)
                    =~= head + placeholders_from(1, n as int));
            } else {
                assert(placeholders_from(i + 1, n as int) =~= Seq::<char>::empty());
                assert(r@ + placeholders_from(i + 1, n as int)
                    =~= head + placeholders_from(1, n as int));
            }
        }
    }
    r.append(")");
    proof {
        assert(placeholders_from(i + 1, n as int) =~= Seq::<char>::empty());
        assert(r@ =~= insert_sql_spec(table@, n as int));
    }
    r
}

// ---------------------------------------------------------------------------
// Load report
// ---------------------------------------------------------------------------

/// The column names joined with `, `, from position `i` on.
pub open spec fn joined_cols(cols: Seq<Seq<char>>, i: int) -> Seq<char>
    decreases cols.len() - i,
{
    if i < 0 || i >= cols.len() {
        Seq::empty()
    } else if i == cols.len() - 1 {
        cols[i]
    } else {
        cols[i] + ", "@ + joined_cols(cols, i + 1)
    }
}

/// The report line printed after a file is loaded.
pub open spec fn load_message_spec(n: int, table: Seq<char>, cols: Seq<Seq<char>>) -> Seq<char> {
    "Loaded "@ + dec_rep(n) + " rows into "@ + table + "("@ + joined_cols(cols, 0) + ")"@
}

pub fn load_message(n: usize, table: &str, cols: &Vec<String>) -> (r: String)
    ensures
        r@ == load_message_spec(n as int, table@, cols.deep_view()),
{
    let ghost dv = cols.deep_view();
    let mut r = String::from_str("Loaded ");
    append_dec(&mut r, n as u64);
    r.append(" rows into ");
    r.append(table);
    r.append("(");
    let ghost head = "Loaded "@ + dec_rep(n as int) + " rows into "@ + table@ + "("@;
    let mut i: usize = 0;
    while i < cols.len()
        invariant
            i <= cols@.len(),
            dv == cols.deep_view(),
            head == "Loaded "@ + dec_rep(n as int) + " rows into "@ + table@ + "("@,
            r@ + joined_cols(dv, i as int) == head + joined_cols(dv, 0),
        decreases cols@.len() - i,
    {
        proof {
            assert(dv[i as int] == cols@[i as int]@);
        }
        r.append(cols[i].as_str());
        if i + 1 < cols.len() {
            r.append(", ");
        }
        i = i + 1;
        proof {
            if i < cols@.len() {
                assert(r@ + joined_cols(dv, i as int) =~= head + joined_cols(dv, 0));
            } else {
                assert(joined_cols(dv, i as int) =~= Seq::<char>::empty());
                assert(r@ + joined_cols(dv, i as int) =~= head + joined_cols(dv, 0));
            }
        }
    }
    r.append(")");
    proof {
        assert(joined_cols(dv, i as int) =~= Seq::<char>::empty());
        assert(r@ =~= load_message_spec(n as int, table@, dv));
    }
    r
}

} // verus!
