use vstd::prelude::*;

use crate::text::{chars_to_string, char_is_alphanumeric, double_char, doubled, is_alnum,
    string_to_chars};

verus! {

/// One filter over a column of a tabular file: the fragments of all active
/// conditions are joined with `AND`, in list order.
#[derive(Debug)]
pub struct FilterCondition {
    pub column: String,
    pub operator: String,
    pub value: String,
}

impl Clone for FilterCondition {
    fn clone(&self) -> (r: Self)
        ensures
            r == *self,
    {
        FilterCondition {
            column: self.column.clone(),
            operator: self.operator.clone(),
            value: self.value.clone(),
        }
    }
}

/// The operators a filter condition may carry, in the order the editor
/// offers them.
pub open spec fn spec_operator_texts() -> Seq<Seq<char>> {
    seq![
        "="@,
        "!="@,
        ">"@,
        "<"@,
        ">="@,
        "<="@,
        "LIKE"@,
        "IS NULL"@,
        "IS NOT NULL"@,
    ]
}

/// How many operators the editor offers.
pub const OPERATOR_COUNT: usize = 9;

/// The operator text at position `idx` of the editor's fixed operator list.
pub fn operator_text(idx: usize) -> (r: String)
    requires
        idx < OPERATOR_COUNT,
    ensures
        r@ == spec_operator_texts()[idx as int],
{
    if idx == 0 {
        "=".to_owned()
    } else if idx == 1 {
        "!=".to_owned()
    } else if idx == 2 {
        ">".to_owned()
    } else if idx == 3 {
        "<".to_owned()
    } else if idx == 4 {
        ">=".to_owned()
    } else if idx == 5 {
        "<=".to_owned()
    } else if idx == 6 {
        "LIKE".to_owned()
    } else if idx == 7 {
        "IS NULL".to_owned()
    } else {
        "IS NOT NULL".to_owned()
    }
}

/// An operator that takes no value: `IS NULL` or `IS NOT NULL`.
pub open spec fn spec_is_unary(op: Seq<char>) -> bool {
    op == "IS NULL"@ || op == "IS NOT NULL"@
}

/// Decides whether an operator text is one of the two unary operators.
pub fn is_unary_operator(op: &String) -> (r: bool)
    ensures
        r == spec_is_unary(op@),
{
    let a: String = "IS NULL".to_owned();
    let b: String = "IS NOT NULL".to_owned();
    *op == a || *op == b
}

/// The predicate fragment of one condition: the column is double-quoted with
/// inner double quotes doubled; a value is single-quoted with inner single
/// quotes doubled; the unary operators ignore the value.
pub open spec fn fragment_of(c: FilterCondition) -> Seq<char> {
    let col = seq!['"'] + doubled(c.column@, '"') + seq!['"'];
    if c.operator@ == "IS NULL"@ {
        col + " IS NULL"@
    } else if c.operator@ == "IS NOT NULL"@ {
        col + " IS NOT NULL"@
    } else if c.operator@ == "LIKE"@ {
        col + "::text LIKE '%"@ + doubled(c.value@, '\'') + "%'"@
    } else {
        col + seq![' '] + c.operator@ + seq![' ', '\''] + doubled(c.value@, '\'') + seq!['\'']
    }
}

/// The fragments of all conditions from position `i` on, joined with ` AND `.
pub open spec fn joined_from(cs: Seq<FilterCondition>, i: int) -> Seq<char>
    decreases cs.len() - i,
{
    if i < 0 || i >= cs.len() {
        Seq::empty()
    } else if i == cs.len() - 1 {
        fragment_of(cs[i])
    } else {
        fragment_of(cs[i]) + " AND "@ + joined_from(cs, i + 1)
    }
}

/// The full predicate text: empty for no conditions, else `WHERE ` followed
/// by the joined fragments.
pub open spec fn predicate_of(cs: Seq<FilterCondition>) -> Seq<char> {
    if cs.len() == 0 {
        Seq::<char>::empty()
    } else {
        "WHERE "@ + joined_from(cs, 0)
    }
}

fn push_str_chars(out: &mut Vec<char>, s: &str)
    ensures
        final(out)@ == old(out)@ + s@,
{
    let mut t = string_to_chars(s);
    out.append(&mut t);
}

/// Builds the fragment of one condition.
fn fragment_chars(c: &FilterCondition) -> (r: Vec<char>)
    ensures
        r@ == fragment_of(*c),
{
    let mut out: Vec<char> = Vec::new();
    out.push('"');
    let col_chars = string_to_chars(c.column.as_str());
    let mut col_esc = double_char(&col_chars, '"');
    out.append(&mut col_esc);
    out.push('"');
    let is_null: String = "IS NULL".to_owned();
    let is_not_null: String = "IS NOT NULL".to_owned();
    let like: String = "LIKE".to_owned();
    if c.operator == is_null {
        push_str_chars(&mut out, " IS NULL");
    } else if c.operator == is_not_null {
        push_str_chars(&mut out, " IS NOT NULL");
    } else if c.operator == like {
        push_str_chars(&mut out, "::text LIKE '%");
        let val_chars = string_to_chars(c.value.as_str());
        let mut val_esc = double_char(&val_chars, '\'');
        out.append(&mut val_esc);
        push_str_chars(&mut out, "%'");
    } else {
        out.push(' ');
        push_str_chars(&mut out, c.operator.as_str());
        out.push(' ');
        out.push('\'');
        let val_chars = string_to_chars(c.value.as_str());
        let mut val_esc = double_char(&val_chars, '\'');
        out.append(&mut val_esc);
        out.push('\'');
    }
    proof {
        assert(out@ =~= fragment_of(*c));
    }
    out
}

fn joined_chars(cs: &Vec<FilterCondition>, i: usize) -> (r: Vec<char>)
    requires
        i < cs@.len(),
    ensures
        r@ == joined_from(cs@, i as int),
    decreases cs@.len() - i,
{
    let n = cs.len();
    let mut out = fragment_chars(&cs[i]);
    if i + 1 < n {
        push_str_chars(&mut out, " AND ");
        let mut rest = joined_chars(cs, i + 1);
        out.append(&mut rest);
        proof {
            assert(out@ =~= joined_from(cs@, i as int));
        }
    }
    out
}

/// Builds the `WHERE` predicate for a list of filter conditions: empty text
/// for an empty list, else one fragment per condition joined with ` AND `,
/// in list order.
pub fn build_where_clause(filters: &Vec<FilterCondition>) -> (r: String)
    ensures
        r@ == predicate_of(filters@),
{
    if filters.len() == 0 {
        String::new()
    } else {
        let mut out: Vec<char> = Vec::new();
        push_str_chars(&mut out, "WHERE ");
        let mut rest = joined_chars(filters, 0);
        out.append(&mut rest);
        chars_to_string(&out)
    }
}

// ---------------------------------------------------------------------------
// Bare identifiers
// ---------------------------------------------------------------------------

/// A column name that may be interpolated unquoted into an engine request:
/// every character is alphanumeric or an underscore.
pub open spec fn safe_identifier(s: Seq<char>) -> bool {
    forall|i: int| 0 <= i < s.len() ==> is_alnum(s[i]) || s[i] == '_'
}

/// Checks the stricter identifier rule used for bare (unquoted) column
/// references: only alphanumeric characters and underscores pass.
pub fn is_safe_identifier(name: &str) -> (r: bool)
    ensures
        r == safe_identifier(name@),
{
    let chars = string_to_chars(name);
    let mut i: usize = 0;
    while i < chars.len()
        invariant
            i <= chars@.len(),
            chars@ == name@,
            forall|j: int| 0 <= j < i ==> is_alnum(name@[j]) || name@[j] == '_',
        decreases chars@.len() - i,
    {
        let c = chars[i];
        if !char_is_alphanumeric(c) && c != '_' {
            return false;
        }
        i = i + 1;
    }
    true
}

} // verus!
