//! The flat-file record format.
//!
//! Files move through the engine as comma-separated records: one record per
//! line, fields separated by commas, lines ended by a line feed with an
//! optional carriage return before it.  Empty lines carry no record and are
//! skipped.  Fields are taken verbatim (the adapters exchange
//! machine-written tables, so no quoting is interpreted).  The first record
//! of a file usually names the columns.

use vstd::prelude::*;
use crate::table::Table;

verus! {

/// The position of the first occurrence of `b`, or the length when absent.
pub open spec fn spec_find(s: Seq<u8>, b: u8) -> int
    decreases s.len(),
{
    if s.len() == 0 {
        0
    } else if s[0] == b {
        0
    } else {
        1 + spec_find(s.skip(1), b)
    }
}

/// Where `spec_find` points: at the first occurrence, or past the end.
pub proof fn lemma_find(s: Seq<u8>, b: u8)
    ensures
        0 <= spec_find(s, b) <= s.len(),
        spec_find(s, b) < s.len() ==> s[spec_find(s, b)] == b,
        forall|j: int| 0 <= j < spec_find(s, b) ==> s[j] != b,
    decreases s.len(),
{
    if s.len() != 0 && s[0] != b {
        lemma_find(s.skip(1), b);
        assert forall|j: int| 0 <= j < spec_find(s, b) implies s[j] != b by {
            if j > 0 {
                assert(s.skip(1)[j - 1] != b);
            }
        }
    }
}

/// A line without its trailing carriage return, if it has one.
pub open spec fn spec_strip_cr(l: Seq<u8>) -> Seq<u8> {
    if l.len() > 0 && l.last() == '\r' as u8 {
        l.take(l.len() - 1)
    } else {
        l
    }
}

/// The fields of one record: the line split at commas.
pub open spec fn spec_fields(l: Seq<u8>) -> Seq<Seq<u8>>
    decreases l.len(),
{
    let i = spec_find(l, ',' as u8);
    if 0 <= i < l.len() {
        seq![l.take(i)] + spec_fields(l.skip(i + 1))
    } else {
        seq![l]
    }
}

/// The records of a file: one per non-empty line, each split into fields.
pub open spec fn spec_records(s: Seq<u8>) -> Seq<Seq<Seq<u8>>>
    decreases s.len(),
{
    if s.len() == 0 {
        Seq::empty()
    } else {
        let i = spec_find(s, '\n' as u8);
        if 0 <= i < s.len() {
            let line = spec_strip_cr(s.take(i));
            let rest = spec_records(s.skip(i + 1));
            if line.len() == 0 {
                rest
            } else {
                seq![spec_fields(line)] + rest
            }
        } else {
            let line = spec_strip_cr(s);
            if line.len() == 0 {
                Seq::empty()
            } else {
                seq![spec_fields(line)]
            }
        }
    }
}

/// The model of a parsed record list.
pub open spec fn view_records(r: Seq<Vec<Vec<u8>>>) -> Seq<Seq<Seq<u8>>> {
    r.map_values(|rec: Vec<Vec<u8>>| rec@.map_values(|f: Vec<u8>| f@))
}

fn find_byte(s: &Vec<u8>, pos: usize, b: u8) -> (j: usize)
    requires
        pos <= s@.len(),
    ensures
        pos <= j <= s@.len(),
        j - pos == spec_find(s@.skip(pos as int), b),
        j < s@.len() ==> s@[j as int] == b,
{
    let mut j = pos;
    while j < s.len()
        invariant
            pos <= j <= s@.len(),
            forall|k: int| pos <= k < j ==> s@[k] != b,
        decreases s@.len() - j,
    {
        if s[j] == b {
            proof {
                lemma_find(s@.skip(pos as int), b);
                let f = spec_find(s@.skip(pos as int), b);
                assert(s@.skip(pos as int)[j - pos] == b);
                if f < j - pos {
                    assert(s@[pos + f] == b);
                }
                assert(f == j - pos);
            }
            return j;
        }
        j = j + 1;
    }
    proof {
        lemma_find(s@.skip(pos as int), b);
        let f = spec_find(s@.skip(pos as int), b);
        if f < s@.len() - pos {
            assert(s@.skip(pos as int)[f] == b);
            assert(s@[pos + f] == b);
        }
    }
    s.len()
}

fn subrange_vec(s: &Vec<u8>, from: usize, to: usize) -> (r: Vec<u8>)
    requires
        from <= to <= s@.len(),
    ensures
        r@ == s@.subrange(from as int, to as int),
{
    let sl = vstd::slice::slice_subrange(s.as_slice(), from, to);
    vstd::slice::slice_to_vec(sl)
}

fn parse_fields(l: &Vec<u8>, pos: usize) -> (r: Vec<Vec<u8>>)
    requires
        pos <= l@.len(),
    ensures
        r@.map_values(|f: Vec<u8>| f@) == spec_fields(l@.skip(pos as int)),
    decreases l@.len() - pos,
{
    let j = find_byte(l, pos, ',' as u8);
    let ghost tail = l@.skip(pos as int);
    if j < l.len() {
        let field = subrange_vec(l, pos, j);
        let mut rest = parse_fields(l, j + 1);
        let ghost rest_view = rest@.map_values(|f: Vec<u8>| f@);
        rest.insert(0, field);
        proof {
            assert(tail.take(j - pos) =~= l@.subrange(pos as int, j as int));
            assert(tail.skip(j - pos + 1) =~= l@.skip(j + 1));
            assert(rest@ =~= seq![field] + rest@.skip(1));
            assert(rest@.map_values(|f: Vec<u8>| f@) =~= seq![field@] + rest_view);
        }
        rest
    } else {
        let field = subrange_vec(l, pos, l.len());
        let mut r: Vec<Vec<u8>> = Vec::new();
        r.push(field);
        proof {
            assert(tail =~= l@.subrange(pos as int, l@.len() as int));
            assert(r@.map_values(|f: Vec<u8>| f@) =~= seq![tail]);
        }
        r
    }
}

fn strip_cr(l: Vec<u8>) -> (r: Vec<u8>)
    ensures
        r@ == spec_strip_cr(l@),
{
    let mut l = l;
    let ghost l0 = l@;
    if l.len() > 0 && l[l.len() - 1] == '\r' as u8 {
        l.pop();
        proof {
            assert(l@ =~= spec_strip_cr(l0));
        }
    }
    l
}

/// Parse a whole file into its records.
pub fn parse_records(s: &Vec<u8>) -> (r: Vec<Vec<Vec<u8>>>)
    ensures
        view_records(r@) == spec_records(s@),
{
    let r = parse_records_from(s, 0);
    proof {
        assert(s@.skip(0) =~= s@);
    }
    r
}

/// The textual form of one cell: text verbatim, timestamps in decimal,
/// missing cells empty.
pub open spec fn spec_cell_text(d: crate::table::ColumnDataView, row: int) -> Seq<u8> {
    match d {
        crate::table::ColumnDataView::Utf8 { values } => match values[row] {
            Some(b) => b,
            None => Seq::empty(),
        },
        crate::table::ColumnDataView::TimestampMillis { values, .. } => match values[row] {
            Some(v) => crate::subject::spec_i64_digits(v),
            None => Seq::empty(),
        },
        crate::table::ColumnDataView::TimestampMicros { values, .. } => match values[row] {
            Some(v) => crate::subject::spec_i64_digits(v),
            None => Seq::empty(),
        },
    }
}

/// The column names, as one record.
pub open spec fn spec_header_fields(t: crate::table::TableView) -> Seq<Seq<u8>> {
    t.columns.map_values(|c: crate::table::ColumnView| c.name)
}

/// One row's cells, as one record.
pub open spec fn spec_row_fields(t: crate::table::TableView, r: int) -> Seq<Seq<u8>> {
    Seq::new(t.columns.len(), |c: int| spec_cell_text(t.columns[c].data, r))
}

/// A record's serialized form from field `i` on: fields joined by commas.
pub open spec fn spec_line_from(fields: Seq<Seq<u8>>, i: int) -> Seq<u8>
    decreases fields.len() - i,
{
    if i < 0 || i >= fields.len() {
        Seq::empty()
    } else if i == fields.len() - 1 {
        fields[i]
    } else {
        fields[i] + seq![',' as u8] + spec_line_from(fields, i + 1)
    }
}

/// The serialized rows of a table from row `r` on, one line each.
pub open spec fn spec_csv_rows(t: crate::table::TableView, r: int) -> Seq<u8>
    decreases t.num_rows - r,
{
    if r < 0 || r >= t.num_rows {
        Seq::empty()
    } else {
        spec_line_from(spec_row_fields(t, r), 0) + seq!['\n' as u8] + spec_csv_rows(t, r + 1)
    }
}

/// The serialized form of a table: a header line naming the columns, then
/// one line per row.
pub open spec fn spec_csv_of(t: crate::table::TableView) -> Seq<u8> {
    spec_line_from(spec_header_fields(t), 0) + seq!['\n' as u8] + spec_csv_rows(t, 0)
}

fn cell_text(c: &crate::table::Column, row: usize) -> (r: Vec<u8>)
    requires
        row < c@.data.len(),
    ensures
        r@ == spec_cell_text(c@.data, row as int),
{
    match &c.data {
        crate::table::ColumnData::Utf8 { values } => match &values[row] {
            Some(b) => crate::text::clone_bytes(b),
            None => Vec::new(),
        },
        crate::table::ColumnData::TimestampMillis { values, .. } => match values[row] {
            Some(v) => crate::subject::i64_digits(v),
            None => Vec::new(),
        },
        crate::table::ColumnData::TimestampMicros { values, .. } => match values[row] {
            Some(v) => crate::subject::i64_digits(v),
            None => Vec::new(),
        },
    }
}

/// Serialize a table as comma-separated records: a header line naming the
/// columns, then one line per row.
pub fn csv_bytes_of(t: &Table) -> (r: Vec<u8>)
    requires
        t.wf(),
    ensures
        r@ == spec_csv_of(t@),
{
    let ghost header = spec_header_fields(t@);
    let mut out: Vec<u8> = Vec::new();
    let ncols = t.columns.len();
    let mut c: usize = 0;
    proof {
        assert(header.len() == ncols);
    }
    while c < ncols
        invariant
            c <= ncols,
            ncols == t.columns@.len(),
            header == spec_header_fields(t@),
            spec_line_from(header, 0) == out@ + spec_line_from(header, c as int),
        decreases ncols - c,
    {
        crate::text::append_bytes(&mut out, &t.columns[c].name);
        proof {
            assert(header[c as int] == t.columns@[c as int]@.name);
        }
        if c + 1 < ncols {
            out.push(',' as u8);
        }
        proof {
            assert(spec_line_from(header, 0) =~= out@ + spec_line_from(header, c + 1));
        }
        c = c + 1;
    }
    out.push('\n' as u8);
    let ghost whole = spec_csv_of(t@);
    proof {
        assert(spec_line_from(header, c as int) =~= Seq::<u8>::empty());
        assert(out@ =~= spec_line_from(header, 0) + seq!['\n' as u8]);
        assert(whole =~= out@ + spec_csv_rows(t@, 0));
    }
    let nrows = t.num_rows;
    let mut r: usize = 0;
    while r < nrows
        invariant
            r <= nrows,
            nrows == t@.num_rows,
            t.wf(),
            whole == spec_csv_of(t@),
            whole == out@ + spec_csv_rows(t@, r as int),
        decreases nrows - r,
    {
        let ghost row_fields = spec_row_fields(t@, r as int);
        let ghost line_start = out@;
        let ncols2 = t.columns.len();
        let mut c2: usize = 0;
        proof {
            assert(row_fields.len() == ncols2);
        }
        while c2 < ncols2
            invariant
                c2 <= ncols2,
                ncols2 == t.columns@.len(),
                r < t@.num_rows,
                t.wf(),
                row_fields == spec_row_fields(t@, r as int),
                spec_line_from(row_fields, 0) == out@.skip(line_start.len() as int)
                    + spec_line_from(row_fields, c2 as int),
                out@.len() >= line_start.len(),
                out@.take(line_start.len() as int) == line_start,
            decreases ncols2 - c2,
        {
            let cell = cell_text(&t.columns[c2], r);
            crate::text::append_bytes(&mut out, &cell);
            proof {
                assert(row_fields[c2 as int] == spec_cell_text(t.columns@[c2 as int]@.data, r as int));
            }
            if c2 + 1 < ncols2 {
                out.push(',' as u8);
            }
            proof {
                assert(out@.take(line_start.len() as int) =~= line_start);
                assert(spec_line_from(row_fields, 0) =~= out@.skip(line_start.len() as int)
                    + spec_line_from(row_fields, c2 + 1));
            }
            c2 = c2 + 1;
        }
        out.push('\n' as u8);
        proof {
            assert(spec_line_from(row_fields, c2 as int) =~= Seq::<u8>::empty());
            assert(out@ =~= line_start + (spec_line_from(row_fields, 0) + seq!['\n' as u8]));
            assert(spec_csv_rows(t@, r as int) =~= spec_line_from(row_fields, 0) + seq![
                '\n' as u8,
            ] + spec_csv_rows(t@, r + 1));
            assert(whole =~= out@ + spec_csv_rows(t@, r + 1));
        }
        r = r + 1;
    }
    proof {
        assert(spec_csv_rows(t@, r as int) =~= Seq::<u8>::empty());
        assert(out@ =~= whole);
    }
    out
}

fn parse_records_from(s: &Vec<u8>, pos: usize) -> (r: Vec<Vec<Vec<u8>>>)
    requires
        pos <= s@.len(),
    ensures
        view_records(r@) == spec_records(s@.skip(pos as int)),
    decreases s@.len() - pos,
{
    let ghost tail = s@.skip(pos as int);
    if pos == s.len() {
        let r: Vec<Vec<Vec<u8>>> = Vec::new();
        proof {
            assert(view_records(r@) =~= spec_records(tail));
        }
        return r;
    }
    let j = find_byte(s, pos, '\n' as u8);
    if j < s.len() {
        let line = strip_cr(subrange_vec(s, pos, j));
        proof {
            assert(tail.take(j - pos) =~= s@.subrange(pos as int, j as int));
            assert(tail.skip(j - pos + 1) =~= s@.skip(j + 1));
        }
        let mut rest = parse_records_from(s, j + 1);
        if line.len() == 0 {
            proof {
                assert(view_records(rest@) =~= spec_records(tail));
            }
            rest
        } else {
            let fields = parse_fields(&line, 0);
            proof {
                assert(line@.skip(0) =~= line@);
            }
            let ghost rest_view = view_records(rest@);
            rest.insert(0, fields);
            proof {
                assert(rest@ =~= seq![fields] + rest@.skip(1));
                assert(view_records(rest@) =~= seq![fields@.map_values(|f: Vec<u8>| f@)]
                    + rest_view);
                assert(view_records(rest@) =~= spec_records(tail));
            }
            rest
        }
    } else {
        let line = strip_cr(subrange_vec(s, pos, s.len()));
        proof {
            assert(tail =~= s@.subrange(pos as int, s@.len() as int));
        }
        let mut r: Vec<Vec<Vec<u8>>> = Vec::new();
        if line.len() == 0 {
            proof {
                assert(view_records(r@) =~= spec_records(tail));
            }
            r
        } else {
            let fields = parse_fields(&line, 0);
            proof {
                assert(line@.skip(0) =~= line@);
            }
            r.push(fields);
            proof {
                assert(view_records(r@) =~= seq![fields@.map_values(|f: Vec<u8>| f@)]);
                assert(view_records(r@) =~= spec_records(tail));
            }
            r
        }
    }
}

} // verus!
