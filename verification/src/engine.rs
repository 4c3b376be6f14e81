use vstd::prelude::*;

use crate::query::{is_safe_identifier, safe_identifier};
use crate::text::{append_str, chars_to_string, dec_digits, double_char, doubled, extension_of,
    has_char, lemma_suffix_len, lemma_suffix_len_strict, path_extension, string_to_chars,
    suffix_after_last, u64_to_dec};

verus! {

/// Failures of the tabular query engine, as surfaced to the user.
#[derive(Debug, Clone)]
pub enum DuckDbError {
    FileNotFound(String),
    InvalidFileFormat(String),
    ConnectionError(String),
    QueryError(String),
    InvalidColumn(String),
    DatabaseError(String),
}

/// The message text of an engine failure.
pub open spec fn spec_error_message(e: DuckDbError) -> Seq<char> {
    match e {
        DuckDbError::FileNotFound(p) => "File not found: "@ + p@,
        DuckDbError::InvalidFileFormat(p) => "Invalid file format: "@ + p@,
        DuckDbError::ConnectionError(m) => "Database connection error: "@ + m@,
        DuckDbError::QueryError(m) => "Query execution error: "@ + m@,
        DuckDbError::InvalidColumn(c) => "Invalid column name: "@ + c@,
        DuckDbError::DatabaseError(m) => "Database error: "@ + m@,
    }
}

impl DuckDbError {
    /// The user-facing description of this failure.
    pub fn message(&self) -> (r: String)
        ensures
            r@ == spec_error_message(*self),
    {
        let mut out: Vec<char> = Vec::new();
        match self {
            DuckDbError::FileNotFound(p) => {
                append_str(&mut out, "File not found: ");
                append_str(&mut out, p.as_str());
            },
            DuckDbError::InvalidFileFormat(p) => {
                append_str(&mut out, "Invalid file format: ");
                append_str(&mut out, p.as_str());
            },
            DuckDbError::ConnectionError(m) => {
                append_str(&mut out, "Database connection error: ");
                append_str(&mut out, m.as_str());
            },
            DuckDbError::QueryError(m) => {
                append_str(&mut out, "Query execution error: ");
                append_str(&mut out, m.as_str());
            },
            DuckDbError::InvalidColumn(c) => {
                append_str(&mut out, "Invalid column name: ");
                append_str(&mut out, c.as_str());
            },
            DuckDbError::DatabaseError(m) => {
                append_str(&mut out, "Database error: ");
                append_str(&mut out, m.as_str());
            },
        }
        proof {
            assert(out@ =~= spec_error_message(*self));
        }
        chars_to_string(&out)
    }
}

// ---------------------------------------------------------------------------
// Request construction
// ---------------------------------------------------------------------------

/// The reader routing a request takes by file extension: csv files go
/// through the csv reader, anything else through the parquet reader.
pub open spec fn read_function_default(path: Seq<char>) -> Seq<char> {
    if extension_of(path) == "csv"@ {
        "read_csv_auto"@
    } else {
        "read_parquet"@
    }
}

/// A file path inside single quotes, with inner single quotes doubled.
pub open spec fn quoted_path(path: Seq<char>) -> Seq<char> {
    "('"@ + doubled(path, '\'') + "')"@
}

fn push_quoted_path(out: &mut Vec<char>, path: &str)
    ensures
        final(out)@ == old(out)@ + quoted_path(path@),
{
    append_str(out, "('");
    let chars = string_to_chars(path);
    let mut esc = double_char(&chars, '\'');
    out.append(&mut esc);
    append_str(out, "')");
    proof {
        assert(out@ =~= old(out)@ + quoted_path(path@));
    }
}

fn push_read_function(out: &mut Vec<char>, path: &str)
    ensures
        final(out)@ == old(out)@ + read_function_default(path@),
{
    let ext = path_extension(path);
    let csv: String = "csv".to_owned();
    if ext == csv {
        append_str(out, "read_csv_auto");
    } else {
        append_str(out, "read_parquet");
    }
}

/// The schema request for a tabular file.
pub open spec fn spec_schema_query(path: Seq<char>) -> Seq<char> {
    let rf = if extension_of(path) == "parquet"@ {
        "read_parquet"@
    } else {
        "read_csv_auto"@
    };
    "DESCRIBE SELECT * FROM "@ + rf + quoted_path(path)
}

/// Builds the schema request, refusing files that are neither csv nor
/// parquet.
pub fn schema_query(path: &str) -> (r: Result<String, DuckDbError>)
    ensures
        (extension_of(path@) == "parquet"@ || extension_of(path@) == "csv"@) ==> (match r {
            Result::Ok(q) => q@ == spec_schema_query(path@),
            Result::Err(_) => false,
        }),
        !(extension_of(path@) == "parquet"@ || extension_of(path@) == "csv"@) ==> (match r {
            Result::Ok(_) => false,
            Result::Err(e) => e matches DuckDbError::InvalidFileFormat(m) && m@
                == "Unsupported file format: "@ + extension_of(path@),
        }),
{
    let ext = path_extension(path);
    let parquet: String = "parquet".to_owned();
    let csv: String = "csv".to_owned();
    if !(ext == parquet || ext == csv) {
        let mut msg: Vec<char> = Vec::new();
        append_str(&mut msg, "Unsupported file format: ");
        append_str(&mut msg, ext.as_str());
        return Err(DuckDbError::InvalidFileFormat(chars_to_string(&msg)));
    }
    let mut out: Vec<char> = Vec::new();
    append_str(&mut out, "DESCRIBE SELECT * FROM ");
    if ext == parquet {
        append_str(&mut out, "read_parquet");
    } else {
        append_str(&mut out, "read_csv_auto");
    }
    push_quoted_path(&mut out, path);
    proof {
        assert(out@ =~= spec_schema_query(path@));
    }
    Ok(chars_to_string(&out))
}

/// The row-count request under a predicate.
pub open spec fn spec_count_query(path: Seq<char>, predicate: Seq<char>) -> Seq<char> {
    "SELECT COUNT(*) FROM "@ + read_function_default(path) + quoted_path(path) + " "@ + predicate
}

/// Builds the request counting the rows that match a predicate.
pub fn count_query(path: &str, predicate: &str) -> (r: String)
    ensures
        r@ == spec_count_query(path@, predicate@),
{
    let mut out: Vec<char> = Vec::new();
    append_str(&mut out, "SELECT COUNT(*) FROM ");
    push_read_function(&mut out, path);
    push_quoted_path(&mut out, path);
    append_str(&mut out, " ");
    append_str(&mut out, predicate);
    proof {
        assert(out@ =~= spec_count_query(path@, predicate@));
    }
    chars_to_string(&out)
}

/// The null-count request for one column.
pub open spec fn spec_null_count_query(path: Seq<char>, column: Seq<char>) -> Seq<char> {
    "SELECT COUNT(*) FROM "@ + read_function_default(path) + quoted_path(path) + " WHERE "@
        + column + " IS NULL"@
}

/// Builds the request counting nulls in a column; a column name that fails
/// the bare-identifier check is refused before any request is made.
pub fn null_count_query(path: &str, column: &str) -> (r: Result<String, DuckDbError>)
    ensures
        safe_identifier(column@) ==> (match r {
            Result::Ok(q) => q@ == spec_null_count_query(path@, column@),
            Result::Err(_) => false,
        }),
        !safe_identifier(column@) ==> (match r {
            Result::Ok(_) => false,
            Result::Err(e) => e matches DuckDbError::InvalidColumn(m) && m@
                == "Column name contains invalid characters: "@ + column@,
        }),
{
    if !is_safe_identifier(column) {
        let mut msg: Vec<char> = Vec::new();
        append_str(&mut msg, "Column name contains invalid characters: ");
        append_str(&mut msg, column);
        return Err(DuckDbError::InvalidColumn(chars_to_string(&msg)));
    }
    let mut out: Vec<char> = Vec::new();
    append_str(&mut out, "SELECT COUNT(*) FROM ");
    push_read_function(&mut out, path);
    push_quoted_path(&mut out, path);
    append_str(&mut out, " WHERE ");
    append_str(&mut out, column);
    append_str(&mut out, " IS NULL");
    proof {
        assert(out@ =~= spec_null_count_query(path@, column@));
    }
    Ok(chars_to_string(&out))
}

/// An aggregate request over one column, cast to text.
pub open spec fn spec_agg_query(path: Seq<char>, agg_open: Seq<char>, column: Seq<char>) -> Seq<
    char,
> {
    "SELECT CAST("@ + agg_open + column + ") AS VARCHAR) FROM "@ + read_function_default(path)
        + quoted_path(path)
}

fn agg_query(path: &str, column: &str, agg_open: &str) -> (r: Result<String, DuckDbError>)
    ensures
        safe_identifier(column@) ==> (match r {
            Result::Ok(q) => q@ == spec_agg_query(path@, agg_open@, column@),
            Result::Err(_) => false,
        }),
        !safe_identifier(column@) ==> (match r {
            Result::Ok(_) => false,
            Result::Err(e) => e matches DuckDbError::InvalidColumn(m) && m@
                == "Column name contains invalid characters: "@ + column@,
        }),
{
    if !is_safe_identifier(column) {
        let mut msg: Vec<char> = Vec::new();
        append_str(&mut msg, "Column name contains invalid characters: ");
        append_str(&mut msg, column);
        return Err(DuckDbError::InvalidColumn(chars_to_string(&msg)));
    }
    let mut out: Vec<char> = Vec::new();
    append_str(&mut out, "SELECT CAST(");
    append_str(&mut out, agg_open);
    append_str(&mut out, column);
    append_str(&mut out, ") AS VARCHAR) FROM ");
    push_read_function(&mut out, path);
    push_quoted_path(&mut out, path);
    proof {
        assert(out@ =~= spec_agg_query(path@, agg_open@, column@));
    }
    Ok(chars_to_string(&out))
}

/// Builds the request for the smallest value of a column.
pub fn min_query(path: &str, column: &str) -> (r: Result<String, DuckDbError>)
    ensures
        safe_identifier(column@) ==> (match r {
            Result::Ok(q) => q@ == spec_agg_query(path@, "MIN("@, column@),
            Result::Err(_) => false,
        }),
        !safe_identifier(column@) ==> (match r {
            Result::Ok(_) => false,
            Result::Err(e) => e matches DuckDbError::InvalidColumn(m) && m@
                == "Column name contains invalid characters: "@ + column@,
        }),
{
    agg_query(path, column, "MIN(")
}

/// Builds the request for the largest value of a column.
pub fn max_query(path: &str, column: &str) -> (r: Result<String, DuckDbError>)
    ensures
        safe_identifier(column@) ==> (match r {
            Result::Ok(q) => q@ == spec_agg_query(path@, "MAX("@, column@),
            Result::Err(_) => false,
        }),
        !safe_identifier(column@) ==> (match r {
            Result::Ok(_) => false,
            Result::Err(e) => e matches DuckDbError::InvalidColumn(m) && m@
                == "Column name contains invalid characters: "@ + column@,
        }),
{
    agg_query(path, column, "MAX(")
}

/// Builds the request for the rounded mean of a column.
pub fn mean_query(path: &str, column: &str) -> (r: Result<String, DuckDbError>)
    ensures
        safe_identifier(column@) ==> (match r {
            Result::Ok(q) => q@ == spec_mean_query(path@, column@),
            Result::Err(_) => false,
        }),
        !safe_identifier(column@) ==> (match r {
            Result::Ok(_) => false,
            Result::Err(e) => e matches DuckDbError::InvalidColumn(m) && m@
                == "Column name contains invalid characters: "@ + column@,
        }),
{
    if !is_safe_identifier(column) {
        let mut msg: Vec<char> = Vec::new();
        append_str(&mut msg, "Column name contains invalid characters: ");
        append_str(&mut msg, column);
        return Err(DuckDbError::InvalidColumn(chars_to_string(&msg)));
    }
    let mut out: Vec<char> = Vec::new();
    append_str(&mut out, "SELECT CAST(ROUND(AVG(");
    append_str(&mut out, column);
    append_str(&mut out, "), 2) AS VARCHAR) FROM ");
    push_read_function(&mut out, path);
    push_quoted_path(&mut out, path);
    proof {
        assert(out@ =~= spec_mean_query(path@, column@));
    }
    Ok(chars_to_string(&out))
}

/// The mean request: the average of a column rounded to two places.
pub open spec fn spec_mean_query(path: Seq<char>, column: Seq<char>) -> Seq<char> {
    "SELECT CAST(ROUND(AVG("@ + column + "), 2) AS VARCHAR) FROM "@ + read_function_default(path)
        + quoted_path(path)
}

/// One preview column: cast to text, with nulls shown as the text `NULL`;
/// the column name is double-quoted with inner double quotes doubled.
pub open spec fn col_expr(h: Seq<char>) -> Seq<char> {
    "COALESCE(CAST(\""@ + doubled(h, '"') + "\" AS VARCHAR), 'NULL')"@
}

/// The preview column expressions from position `from` on, joined with
/// commas.
pub open spec fn col_exprs(hs: Seq<String>, from: int) -> Seq<char>
    decreases hs.len() - from,
{
    if from < 0 || from >= hs.len() {
        Seq::empty()
    } else if from == hs.len() - 1 {
        col_expr(hs[from]@)
    } else {
        col_expr(hs[from]@) + ", "@ + col_exprs(hs, from + 1)
    }
}

/// The page request: the named columns as text, under a predicate, with a
/// row limit and offset.
pub open spec fn spec_preview_query(
    path: Seq<char>,
    hs: Seq<String>,
    limit: int,
    offset: int,
    predicate: Seq<char>,
) -> Seq<char> {
    "SELECT "@ + col_exprs(hs, 0) + " FROM "@ + read_function_default(path) + quoted_path(path)
        + " "@ + predicate + " LIMIT "@ + dec_digits(limit) + " OFFSET "@ + dec_digits(offset)
}

fn push_col_exprs(out: &mut Vec<char>, hs: &Vec<String>, from: usize)
    requires
        from < hs@.len(),
    ensures
        final(out)@ == old(out)@ + col_exprs(hs@, from as int),
    decreases hs@.len() - from,
{
    let n = hs.len();
    append_str(out, "COALESCE(CAST(\"");
    let name_chars = string_to_chars(hs[from].as_str());
    let mut esc = double_char(&name_chars, '"');
    out.append(&mut esc);
    append_str(out, "\" AS VARCHAR), 'NULL')");
    if from + 1 < n {
        append_str(out, ", ");
        push_col_exprs(out, hs, from + 1);
        proof {
            assert(out@ =~= old(out)@ + col_exprs(hs@, from as int));
        }
    } else {
        proof {
            assert(out@ =~= old(out)@ + col_exprs(hs@, from as int));
        }
    }
}

/// Builds the request fetching one page of preview rows.
pub fn preview_query(
    path: &str,
    headers: &Vec<String>,
    limit: usize,
    offset: usize,
    predicate: &str,
) -> (r: String)
    ensures
        r@ == spec_preview_query(path@, headers@, limit as int, offset as int, predicate@),
{
    let mut out: Vec<char> = Vec::new();
    append_str(&mut out, "SELECT ");
    if headers.len() > 0 {
        push_col_exprs(&mut out, headers, 0);
    }
    append_str(&mut out, " FROM ");
    push_read_function(&mut out, path);
    push_quoted_path(&mut out, path);
    append_str(&mut out, " ");
    append_str(&mut out, predicate);
    append_str(&mut out, " LIMIT ");
    let mut l = u64_to_dec(limit as u64);
    out.append(&mut l);
    append_str(&mut out, " OFFSET ");
    let mut o = u64_to_dec(offset as u64);
    out.append(&mut o);
    proof {
        if headers@.len() == 0 {
            assert(col_exprs(headers@, 0) =~= Seq::<char>::empty());
        }
        assert(out@ =~= spec_preview_query(path@, headers@, limit as int, offset as int,
            predicate@));
    }
    chars_to_string(&out)
}

// ---------------------------------------------------------------------------
// Format conversion
// ---------------------------------------------------------------------------

/// The path with its extension replaced (or appended, for a path without
/// one).
pub open spec fn with_extension_of(p: Seq<char>, e: Seq<char>) -> Seq<char> {
    if extension_of(p).len() > 0 {
        p.take(p.len() - extension_of(p).len() - 1) + "."@ + e
    } else {
        p + "."@ + e
    }
}

/// What converting a file to a target format takes: nothing when the file
/// already has that format, otherwise a copy request and the output path.
#[derive(Debug)]
pub enum ConvertAction {
    AlreadyTarget(String),
    Run { query: String, output: String },
}

proof fn lemma_ext_fits(p: Seq<char>)
    ensures
        extension_of(p).len() > 0 ==> extension_of(p).len() + 1 <= p.len(),
{
    if extension_of(p).len() > 0 {
        let name = suffix_after_last(p, '/');
        lemma_suffix_len(p, '/');
        let i = choose|i: int| 1 <= i < name.len() && name[i] == '.';
        assert(has_char(name, '.'));
        lemma_suffix_len_strict(name, '.');
    }
}

/// Plans a format conversion: only csv and parquet are accepted as targets;
/// a file already in the target format is left as it is; otherwise the
/// output lies next to the input, with the target extension, and the
/// request copies the one into the other.
pub fn convert_plan(path: &str, target: &str) -> (r: Result<ConvertAction, DuckDbError>)
    ensures
        !(target@ == "csv"@ || target@ == "parquet"@) ==> (match r {
            Result::Ok(_) => false,
            Result::Err(e) => e matches DuckDbError::InvalidFileFormat(m) && m@
                == "Target format not supported"@,
        }),
        (target@ == "csv"@ || target@ == "parquet"@) && extension_of(path@) == target@ ==> (
        match r {
            Result::Ok(a) => a matches ConvertAction::AlreadyTarget(p) && p@ == path@,
            Result::Err(_) => false,
        }),
        (target@ == "csv"@ || target@ == "parquet"@) && extension_of(path@) != target@ ==> (
        match r {
            Result::Ok(a) => a matches ConvertAction::Run { query, output } && output@
                == with_extension_of(path@, target@) && query@ == "COPY (SELECT * FROM '"@
                + doubled(path@, '\'') + "') TO '"@ + doubled(with_extension_of(path@, target@),
                '\'',
            ) + "' (FORMAT "@ + (if target@ == "csv"@ {
                "CSV"@
            } else {
                "PARQUET"@
            }) + ")"@,
            Result::Err(_) => false,
        }),
{
    let csv: String = "csv".to_owned();
    let parquet: String = "parquet".to_owned();
    let target_s: String = target.to_owned();
    if !(target_s == csv || target_s == parquet) {
        return Err(DuckDbError::InvalidFileFormat("Target format not supported".to_owned()));
    }
    let ext = path_extension(path);
    if ext == target_s {
        return Ok(ConvertAction::AlreadyTarget(path.to_owned()));
    }
    let chars = string_to_chars(path);
    let _n = chars.len();
    let ext_chars = string_to_chars(ext.as_str());
    let _m = ext_chars.len();
    proof {
        lemma_ext_fits(path@);
    }
    let keep: usize = if ext_chars.len() > 0 {
        chars.len() - ext_chars.len() - 1
    } else {
        chars.len()
    };
    let mut output_chars: Vec<char> = Vec::new();
    let mut k: usize = 0;
    while k < keep
        invariant
            k <= keep,
            keep <= chars@.len(),
            output_chars@ == chars@.take(k as int),
        decreases keep - k,
    {
        output_chars.push(chars[k]);
        proof {
            assert(chars@.take(k + 1 as int) =~= chars@.take(k as int).push(chars@[k as int]));
        }
        k = k + 1;
    }
    output_chars.push('.');
    let mut t = string_to_chars(target);
    output_chars.append(&mut t);
    proof {
        reveal_strlit(".");
        assert(output_chars@ =~= with_extension_of(path@, target@));
    }
    let output = chars_to_string(&output_chars);
    let mut q: Vec<char> = Vec::new();
    append_str(&mut q, "COPY (SELECT * FROM '");
    let mut esc_in = double_char(&chars, '\'');
    q.append(&mut esc_in);
    append_str(&mut q, "') TO '");
    let mut esc_out = double_char(&output_chars, '\'');
    q.append(&mut esc_out);
    append_str(&mut q, "' (FORMAT ");
    if target_s == csv {
        append_str(&mut q, "CSV");
    } else {
        append_str(&mut q, "PARQUET");
    }
    append_str(&mut q, ")");
    let query = chars_to_string(&q);
    Ok(ConvertAction::Run { query, output })
}

} // verus!
