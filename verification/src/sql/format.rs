//! Query results as CSV text.
//!
//! Rows arrive as plain [`Cell`] values (the host reads them out of its
//! query engine's batches); the JSON payload is built by the host from the
//! same columns and rows.

use vstd::prelude::*;
use crate::text::{push_char, owned, views};

verus! {

/// Failure converting result batches into the agent/UI payload.
#[derive(Debug, Clone, PartialEq, Eq)]
pub enum FormatError {
    Message(String),
}

/// One result cell, as its JSON value.
#[derive(Debug, Clone, PartialEq, Eq)]
pub enum Cell {
    Null,
    Bool(bool),
    /// A JSON number, by its JSON text.
    Number(String),
    Str(String),
    /// A nested JSON value, by its compact JSON text.
    Other(String),
}

/// Characters that force a CSV field into quotes.
pub open spec fn is_csv_special(c: char) -> bool {
    c == ',' || c == '"' || c == '\n' || c == '\r'
}

pub open spec fn needs_quotes(s: Seq<char>) -> bool {
    exists|i: int| 0 <= i < s.len() && is_csv_special(#[trigger] s[i])
}

/// `s` with every `"` doubled.
pub open spec fn double_quotes(s: Seq<char>) -> Seq<char>
    decreases s.len(),
{
    if s.len() == 0 {
        seq![]
    } else {
        (if s[0] == '"' { seq!['"', '"'] } else { seq![s[0]] }) + double_quotes(s.drop_first())
    }
}

/// RFC 4180 field text: quoted, with doubled quotes, when it holds a comma,
/// a quote, or a line break; otherwise unchanged.
pub open spec fn spec_csv_escape(s: Seq<char>) -> Seq<char> {
    if needs_quotes(s) {
        seq!['"'] + double_quotes(s) + seq!['"']
    } else {
        s
    }
}

/// `s` with each doubled quote read back as one quote.
pub open spec fn undouble(s: Seq<char>) -> Seq<char>
    decreases s.len(),
{
    if s.len() == 0 {
        seq![]
    } else if s.len() >= 2 && s[0] == '"' && s[1] == '"' {
        seq!['"'] + undouble(s.skip(2))
    } else {
        seq![s[0]] + undouble(s.drop_first())
    }
}

/// The text an RFC 4180 reader takes from field text `f`: a field in quotes
/// loses them and reads each doubled quote as one; any other field is taken
/// as it is.
pub open spec fn csv_field_value(f: Seq<char>) -> Seq<char> {
    if f.len() >= 2 && f[0] == '"' && f.last() == '"' {
        undouble(f.subrange(1, f.len() - 1))
    } else {
        f
    }
}

proof fn lemma_undouble_double(s: Seq<char>)
    ensures
        undouble(double_quotes(s)) == s,
    decreases s.len(),
{
    if s.len() > 0 {
        let rest = s.drop_first();
        lemma_undouble_double(rest);
        let d = double_quotes(s);
        if s[0] == '"' {
            assert(d.skip(2) =~= double_quotes(rest));
        } else {
            assert(d.drop_first() =~= double_quotes(rest));
        }
        assert(undouble(d) =~= s);
    }
}

/// Escaping loses nothing: reading an escaped field back gives the text that
/// was escaped.
pub proof fn law_csv_field_round_trip(s: Seq<char>)
    ensures
        csv_field_value(spec_csv_escape(s)) == s,
{
    if needs_quotes(s) {
        let f = spec_csv_escape(s);
        assert(f.subrange(1, f.len() - 1) =~= double_quotes(s));
        lemma_undouble_double(s);
    } else if s.len() >= 2 && s[0] == '"' {
        assert(is_csv_special(s[0]));
    }
}

/// CSV field text for a string (see [`spec_csv_escape`]).
pub fn csv_escape(s: &str) -> (out: String)
    ensures
        out@ == spec_csv_escape(s@),
{
    let n = s.unicode_len();
    let mut special = false;
    let mut i: usize = 0;
    while i < n
        invariant
            n == s@.len(),
            i <= n,
            special == exists|k: int| 0 <= k < i && is_csv_special(#[trigger] s@[k]),
        decreases n - i,
    {
        let c = s.get_char(i);
        if c == ',' || c == '"' || c == '\n' || c == '\r' {
            special = true;
        }
        i = i + 1;
    }
    let mut out = String::new();
    if !special {
        i = 0;
        while i < n
            invariant
                n == s@.len(),
                i <= n,
                out@ == s@.subrange(0, i as int),
            decreases n - i,
        {
            push_char(&mut out, s.get_char(i));
            assert(s@.subrange(0, i as int).push(s@[i as int]) =~= s@.subrange(0, i + 1));
            i = i + 1;
        }
        assert(s@.subrange(0, n as int) =~= s@);
        return out;
    }
    push_char(&mut out, '"');
    i = 0;
    assert(s@.skip(0) =~= s@);
    while i < n
        invariant
            n == s@.len(),
            i <= n,
            out@ + double_quotes(s@.skip(i as int)) == seq!['"'] + double_quotes(s@),
        decreases n - i,
    {
        let c = s.get_char(i);
        let ghost before = out@;
        assert(s@.skip(i as int)[0] == c);
        assert(s@.skip(i as int).drop_first() =~= s@.skip(i + 1));
        if c == '"' {
            push_char(&mut out, '"');
            push_char(&mut out, '"');
            assert(out@ =~= before + seq!['"', '"']);
        } else {
            push_char(&mut out, c);
            assert(out@ =~= before + seq![c]);
        }
        assert(out@ + double_quotes(s@.skip(i + 1)) =~= before + double_quotes(s@.skip(i as int)));
        i = i + 1;
    }
    assert(s@.skip(n as int) =~= Seq::<char>::empty());
    assert(out@ =~= seq!['"'] + double_quotes(s@));
    push_char(&mut out, '"');
    out
}

/// CSV text of one cell: empty for null, `true`/`false`, the number's text,
/// and escaped text for strings and nested values.
pub open spec fn spec_cell_text(c: Cell) -> Seq<char> {
    match c {
        Cell::Null => seq![],
        Cell::Bool(true) => seq!['t', 'r', 'u', 'e'],
        Cell::Bool(false) => seq!['f', 'a', 'l', 's', 'e'],
        Cell::Number(n) => n@,
        Cell::Str(s) => spec_csv_escape(s@),
        Cell::Other(j) => spec_csv_escape(j@),
    }
}

fn append_chars(out: &mut String, s: &str)
    ensures
        final(out)@ == old(out)@ + s@,
{
    let n = s.unicode_len();
    let mut i: usize = 0;
    let ghost start = out@;
    while i < n
        invariant
            n == s@.len(),
            i <= n,
            out@ == start + s@.subrange(0, i as int),
        decreases n - i,
    {
        push_char(out, s.get_char(i));
        assert(s@.subrange(0, i as int).push(s@[i as int]) =~= s@.subrange(0, i + 1));
        i = i + 1;
    }
    assert(s@.subrange(0, n as int) =~= s@);
}

/// CSV text of one result cell (see [`spec_cell_text`]).
pub fn csv_cell(c: &Cell) -> (out: String)
    ensures
        out@ == spec_cell_text(*c),
{
    match c {
        Cell::Null => String::new(),
        Cell::Bool(b) => {
            let mut out = String::new();
            if *b {
                push_char(&mut out, 't');
                push_char(&mut out, 'r');
                push_char(&mut out, 'u');
                push_char(&mut out, 'e');
                assert(out@ =~= seq!['t', 'r', 'u', 'e']);
            } else {
                push_char(&mut out, 'f');
                push_char(&mut out, 'a');
                push_char(&mut out, 'l');
                push_char(&mut out, 's');
                push_char(&mut out, 'e');
                assert(out@ =~= seq!['f', 'a', 'l', 's', 'e']);
            }
            out
        },
        Cell::Number(n) => n.clone(),
        Cell::Str(s) => csv_escape(s.as_str()),
        Cell::Other(j) => csv_escape(j.as_str()),
    }
}

/// Fields joined by commas.
pub open spec fn join_commas(fields: Seq<Seq<char>>) -> Seq<char>
    decreases fields.len(),
{
    if fields.len() == 0 {
        seq![]
    } else if fields.len() == 1 {
        fields[0]
    } else {
        join_commas(fields.drop_last()) + seq![','] + fields.last()
    }
}

/// One CSV line per row (cells joined by commas, each line ending in `\n`).
pub open spec fn spec_rows_text(rows: Seq<Vec<Cell>>) -> Seq<char>
    decreases rows.len(),
{
    if rows.len() == 0 {
        seq![]
    } else {
        spec_rows_text(rows.drop_last()) + join_commas(rows.last()@.map_values(|c: Cell| spec_cell_text(c)))
            + seq!['\n']
    }
}

/// CSV text: the header line, then one line per row.
pub open spec fn spec_csv(columns: Seq<String>, rows: Seq<Vec<Cell>>) -> Seq<char> {
    join_commas(columns.map_values(|s: String| s@)) + seq!['\n'] + spec_rows_text(rows)
}

fn append_header(out: &mut String, columns: &Vec<String>)
    ensures
        final(out)@ == old(out)@ + join_commas(columns@.map_values(|s: String| s@)),
{
    let ghost start = out@;
    let mut i: usize = 0;
    while i < columns.len()
        invariant
            i <= columns@.len(),
            out@ == start + join_commas(columns@.subrange(0, i as int).map_values(|s: String| s@)),
        decreases columns@.len() - i,
    {
        let ghost pre = columns@.subrange(0, i as int).map_values(|s: String| s@);
        let ghost nxt = columns@.subrange(0, i + 1).map_values(|s: String| s@);
        assert(nxt.drop_last() =~= pre);
        assert(nxt.last() == columns@[i as int]@);
        if i > 0 {
            push_char(out, ',');
        }
        append_chars(out, columns[i].as_str());
        i = i + 1;
    }
    assert(columns@.subrange(0, columns@.len() as int) =~= columns@);
}

fn append_row(out: &mut String, row: &Vec<Cell>)
    ensures
        final(out)@ == old(out)@ + join_commas(row@.map_values(|c: Cell| spec_cell_text(c))),
{
    let ghost start = out@;
    let mut i: usize = 0;
    while i < row.len()
        invariant
            i <= row@.len(),
            out@ == start + join_commas(row@.subrange(0, i as int).map_values(|c: Cell| spec_cell_text(c))),
        decreases row@.len() - i,
    {
        let ghost pre = row@.subrange(0, i as int).map_values(|c: Cell| spec_cell_text(c));
        let ghost nxt = row@.subrange(0, i + 1).map_values(|c: Cell| spec_cell_text(c));
        assert(nxt.drop_last() =~= pre);
        assert(nxt.last() == spec_cell_text(row@[i as int]));
        if i > 0 {
            push_char(out, ',');
        }
        let cell = csv_cell(&row[i]);
        append_chars(out, cell.as_str());
        i = i + 1;
    }
    assert(row@.subrange(0, row@.len() as int) =~= row@);
}

/// CSV text (header + rows) of a result table (see [`spec_csv`]).
pub fn rows_to_csv(columns: &Vec<String>, rows: &Vec<Vec<Cell>>) -> (out: String)
    ensures
        out@ == spec_csv(columns@, rows@),
{
    let mut out = String::new();
    append_header(&mut out, columns);
    push_char(&mut out, '\n');
    let ghost head = out@;
    let mut i: usize = 0;
    while i < rows.len()
        invariant
            i <= rows@.len(),
            out@ == head + spec_rows_text(rows@.subrange(0, i as int)),
        decreases rows@.len() - i,
    {
        assert(rows@.subrange(0, i + 1).drop_last() =~= rows@.subrange(0, i as int));
        append_row(&mut out, &rows[i]);
        push_char(&mut out, '\n');
        assert(out@ =~= head + spec_rows_text(rows@.subrange(0, i + 1)));
        i = i + 1;
    }
    assert(rows@.subrange(0, rows@.len() as int) =~= rows@);
    out
}


/// A result batch: column names from its schema and its cells column by
/// column; each column holds `num_rows` cells.
#[derive(Debug, Clone, PartialEq, Eq)]
pub struct Batch {
    pub column_names: Vec<String>,
    pub columns: Vec<Vec<Cell>>,
    pub num_rows: usize,
}

/// Abstract view of a cell: variant tag, boolean value, text.
pub open spec fn cell_view(c: Cell) -> (int, bool, Seq<char>) {
    match c {
        Cell::Null => (0, false, seq![]),
        Cell::Bool(b) => (1, b, seq![]),
        Cell::Number(n) => (2, false, n@),
        Cell::Str(t) => (3, false, t@),
        Cell::Other(j) => (4, false, j@),
    }
}

pub open spec fn row_view(r: Vec<Cell>) -> Seq<(int, bool, Seq<char>)> {
    r@.map_values(|c: Cell| cell_view(c))
}

/// Whether every column of `b` holds `num_rows` cells.
pub open spec fn batch_wf(b: Batch) -> bool {
    forall|c: int| 0 <= c < b.columns@.len() ==> (#[trigger] b.columns@[c])@.len() == b.num_rows
}

/// Row `r` of batch `b`: its cells across the columns.
pub open spec fn batch_row(b: Batch, r: int) -> Seq<(int, bool, Seq<char>)> {
    Seq::new(b.columns@.len(), |c: int| cell_view(b.columns@[c]@[r]))
}

/// The rows of the first `n` rows of `b`, then of all batches, in order.
pub open spec fn rows_upto(b: Batch, n: int) -> Seq<Seq<(int, bool, Seq<char>)>> {
    Seq::new(n as nat, |r: int| batch_row(b, r))
}

pub open spec fn all_rows(bs: Seq<Batch>) -> Seq<Seq<(int, bool, Seq<char>)>>
    decreases bs.len(),
{
    if bs.len() == 0 {
        Seq::empty()
    } else {
        all_rows(bs.drop_last()) + rows_upto(bs.last(), bs.last().num_rows as int)
    }
}

/// Whether some batch has another column count than the first batch's schema.
pub open spec fn inconsistent(bs: Seq<Batch>) -> bool {
    exists|k: int| 0 <= k < bs.len() && (#[trigger] bs[k]).columns@.len() != bs[0].column_names@.len()
}

fn copy_cell(c: &Cell) -> (r: Cell)
    ensures
        cell_view(r) == cell_view(*c),
{
    match c {
        Cell::Null => Cell::Null,
        Cell::Bool(b) => Cell::Bool(*b),
        Cell::Number(n) => Cell::Number(n.clone()),
        Cell::Str(t) => Cell::Str(t.clone()),
        Cell::Other(j) => Cell::Other(j.clone()),
    }
}

/// Column names and row-major cells of a query result. No batches give no
/// columns and no rows; a batch whose column count differs from the first
/// batch's schema is an error.
pub fn batches_to_rows(batches: &Vec<Batch>) -> (r: Result<(Vec<String>, Vec<Vec<Cell>>), FormatError>)
    requires
        forall|k: int| 0 <= k < batches@.len() ==> batch_wf(#[trigger] batches@[k]),
    ensures
        batches@.len() == 0 ==> (r matches Ok((cols, rows)) && cols@.len() == 0 && rows@.len() == 0),
        batches@.len() > 0 && inconsistent(batches@) ==> (r matches Err(FormatError::Message(m))
            && m@ == "inconsistent RecordBatch schemas in query result"@),
        batches@.len() > 0 && !inconsistent(batches@) ==> (r matches Ok((cols, rows))
            && views(cols@) == views(batches@[0].column_names@)
            && rows@.map_values(|row: Vec<Cell>| row_view(row)) == all_rows(batches@)),
{
    if batches.len() == 0 {
        return Ok((Vec::new(), Vec::new()));
    }
    let ncols = batches[0].column_names.len();
    let mut k: usize = 0;
    while k < batches.len()
        invariant
            k <= batches@.len(),
            ncols == batches@[0].column_names@.len(),
            forall|q: int| 0 <= q < k ==> (#[trigger] batches@[q]).columns@.len() == ncols,
        decreases batches@.len() - k,
    {
        if batches[k].columns.len() != ncols {
            return Err(FormatError::Message(owned("inconsistent RecordBatch schemas in query result")));
        }
        k = k + 1;
    }
    let mut columns: Vec<String> = Vec::new();
    let mut c: usize = 0;
    while c < ncols
        invariant
            c <= ncols,
            batches@.len() > 0,
            ncols == batches@[0].column_names@.len(),
            views(columns@) == views(batches@[0].column_names@).subrange(0, c as int),
        decreases ncols - c,
    {
        let ghost before = columns@;
        let name = batches[0].column_names[c].clone();
        assert(name@ == batches@[0].column_names@[c as int]@);
        columns.push(name);
        assert(columns@ == before.push(name));
        assert(views(columns@) =~= views(before).push(name@));
        assert(views(columns@) =~= views(batches@[0].column_names@).subrange(0, c + 1));
        c = c + 1;
    }
    let mut rows: Vec<Vec<Cell>> = Vec::new();
    let mut b: usize = 0;
    while b < batches.len()
        invariant
            b <= batches@.len(),
            forall|q: int| 0 <= q < batches@.len() ==> (#[trigger] batches@[q]).columns@.len() == ncols,
            forall|q: int| 0 <= q < batches@.len() ==> batch_wf(#[trigger] batches@[q]),
            rows@.map_values(|row: Vec<Cell>| row_view(row)) == all_rows(batches@.subrange(0, b as int)),
        decreases batches@.len() - b,
    {
        let bt = &batches[b];
        assert(batch_wf(batches@[b as int]));
        let ghost base = rows@.map_values(|row: Vec<Cell>| row_view(row));
        let mut r: usize = 0;
        while r < bt.num_rows
            invariant
                b < batches@.len(),
                *bt == batches@[b as int],
                batch_wf(*bt),
                bt.columns@.len() == ncols,
                r <= bt.num_rows,
                rows@.map_values(|row: Vec<Cell>| row_view(row)) == base + rows_upto(*bt, r as int),
            decreases bt.num_rows - r,
        {
            let mut row: Vec<Cell> = Vec::new();
            let mut c: usize = 0;
            while c < bt.columns.len()
                invariant
                    batch_wf(*bt),
                    r < bt.num_rows,
                    c <= bt.columns@.len(),
                    row_view(row) == batch_row(*bt, r as int).subrange(0, c as int),
                decreases bt.columns@.len() - c,
            {
                assert(bt.columns@[c as int]@.len() == bt.num_rows);
                let cell = copy_cell(&bt.columns[c][r]);
                assert(cell_view(cell) == batch_row(*bt, r as int)[c as int]);
                let ghost before = row@;
                row.push(cell);
                assert(row@ == before.push(cell));
                assert(row_view(row) =~= before.map_values(|c: Cell| cell_view(c)).push(cell_view(cell)));
                assert(row_view(row) =~= batch_row(*bt, r as int).subrange(0, c + 1));
                c = c + 1;
            }
            assert(row_view(row) =~= batch_row(*bt, r as int));
            let ghost before = rows@.map_values(|row: Vec<Cell>| row_view(row));
            rows.push(row);
            assert(rows@.map_values(|row: Vec<Cell>| row_view(row)) =~= before.push(batch_row(*bt, r as int)));
            assert(rows_upto(*bt, r + 1) =~= rows_upto(*bt, r as int).push(batch_row(*bt, r as int)));
            r = r + 1;
        }
        assert(batches@.subrange(0, b + 1).drop_last() =~= batches@.subrange(0, b as int));
        assert(batches@.subrange(0, b + 1).last() == batches@[b as int]);
        b = b + 1;
    }
    assert(batches@.subrange(0, batches@.len() as int) =~= batches@);
    assert(views(batches@[0].column_names@).subrange(0, ncols as int) =~= views(batches@[0].column_names@));
    Ok((columns, rows))
}

} // verus!
