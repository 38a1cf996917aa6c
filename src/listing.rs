//! The lines that show the table: a header, then one line per task.
use vstd::prelude::*;
use crate::table::{Row, TaskTable};

verus! {

/// The decimal digit for `d`.
pub open spec fn digit(d: nat) -> char {
    if d == 0 { '0' }
    else if d == 1 { '1' }
    else if d == 2 { '2' }
    else if d == 3 { '3' }
    else if d == 4 { '4' }
    else if d == 5 { '5' }
    else if d == 6 { '6' }
    else if d == 7 { '7' }
    else if d == 8 { '8' }
    else { '9' }
}

/// `n` written in decimal, without leading zeros.
pub open spec fn decimal(n: nat) -> Seq<char>
    decreases n,
{
    if n < 10 {
        seq![digit(n)]
    } else {
        decimal(n / 10).push(digit(n % 10))
    }
}

/// `true` or `false`, as the listing writes a flag.
pub open spec fn flag_text(b: bool) -> Seq<char> {
    if b { "true"@ } else { "false"@ }
}

/// The column header of the listing.
pub open spec fn header_line() -> Seq<char> {
    "ID | Name | Completed"@
}

/// The listing line of one row: `id | name | completed`.
pub open spec fn row_line(r: Row) -> Seq<char> {
    decimal(r.0 as nat) + " | "@ + r.1 + " | "@ + flag_text(r.2)
}

/// The whole listing of a table.
pub open spec fn listing(s: Seq<Row>) -> Seq<Seq<char>> {
    seq![header_line()] + s.map_values(|r: Row| row_line(r))
}

fn digit_text(d: u32) -> (r: &'static str)
    requires
        d < 10,
    ensures
        r@ == seq![digit(d as nat)],
{
    proof {
        reveal_strlit("0");
        reveal_strlit("1");
        reveal_strlit("2");
        reveal_strlit("3");
        reveal_strlit("4");
        reveal_strlit("5");
        reveal_strlit("6");
        reveal_strlit("7");
        reveal_strlit("8");
        reveal_strlit("9");
    }
    let r = if d == 0 { "0" }
    else if d == 1 { "1" }
    else if d == 2 { "2" }
    else if d == 3 { "3" }
    else if d == 4 { "4" }
    else if d == 5 { "5" }
    else if d == 6 { "6" }
    else if d == 7 { "7" }
    else if d == 8 { "8" }
    else { "9" };
    assert(r@ =~= seq![digit(d as nat)]);
    r
}

/// `n` in decimal.
pub fn decimal_text(n: u32) -> (r: String)
    ensures
        r@ == decimal(n as nat),
    decreases n,
{
    if n < 10 {
        String::from_str(digit_text(n))
    } else {
        let mut s = decimal_text(n / 10);
        s.append(digit_text(n % 10));
        assert(s@ =~= decimal(n as nat));
        s
    }
}

/// The listing line of one task.
pub fn format_row(id: u32, name: &str, completed: bool) -> (r: String)
    ensures
        r@ == row_line((id, name@, completed)),
{
    proof {
        reveal_strlit(" | ");
        reveal_strlit("true");
        reveal_strlit("false");
    }
    let mut s = decimal_text(id);
    s.append(" | ");
    s.append(name);
    s.append(" | ");
    s.append(if completed { "true" } else { "false" });
    assert(s@ =~= row_line((id, name@, completed)));
    s
}

/// The header, then one line per task in id order.
pub fn list_lines(table: &TaskTable) -> (r: Vec<String>)
    ensures
        r@.map_values(|l: String| l@) == listing(table@),
{
    let rows = table.rows();
    let ghost s = table@;
    let mut out: Vec<String> = Vec::new();
    out.push(String::from_str("ID | Name | Completed"));
    let mut k: usize = 0;
    while k < rows.len()
        invariant
            0 <= k <= rows@.len(),
            s == rows@.map_values(|t: crate::table::Task| t@),
            out@.map_values(|l: String| l@) == listing(s.subrange(0, k as int)),
        decreases rows@.len() - k,
    {
        let t = &rows[k];
        let ghost before = out@.map_values(|l: String| l@);
        out.push(format_row(t.id, t.name.as_str(), t.completed));
        proof {
            assert(s[k as int] == t@);
            assert(s.subrange(0, k + 1) =~= s.subrange(0, k as int).push(s[k as int]));
            assert(out@.map_values(|l: String| l@) =~= before.push(row_line(s[k as int])));
            assert(out@.map_values(|l: String| l@) =~= listing(s.subrange(0, k + 1)));
        }
        k = k + 1;
    }
    proof {
        assert(s.subrange(0, k as int) =~= s);
    }
    out
}

} // verus!
