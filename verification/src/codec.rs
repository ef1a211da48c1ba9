//! The self-describing byte codec for tables.
//!
//! A table serializes to a single binary stream carrying schema and data, so
//! that it can travel over byte-oriented channels (broker payloads, file
//! bytes).  The layout is length-prefixed throughout: counts and lengths are
//! 64-bit little-endian; optional items carry a one-byte presence tag; signed
//! values are stored as a sign byte and a 64-bit magnitude.  Decoding an
//! encoded table yields the table unchanged: see
//! [`lemma_table_codec_round_trip`].

use vstd::prelude::*;
use vstd::bytes::*;
use crate::table::{
    Column, ColumnData, ColumnDataView, ColumnView, Table, TableView, view_opt_bytes,
    view_text_cell,
};

verus! {

/// Errors raised while decoding a byte stream into a table.
#[derive(Debug, PartialEq, Eq, Structural, Clone, Copy)]
pub enum Error {
    /// The stream is not the encoding of any table.
    Malformed,
}

// ---------------------------------------------------------------------------
// Encoding, at the specification level.
// ---------------------------------------------------------------------------
/// Encoding of a 64-bit count or length: little-endian.
pub open spec fn enc_u64(v: u64) -> Seq<u8> {
    spec_u64_to_le_bytes(v)
}

/// Encoding of a byte string: length then contents.
pub open spec fn enc_bytes(b: Seq<u8>) -> Seq<u8> {
    enc_u64(b.len() as u64) + b
}

/// Encoding of an optional byte string: presence tag, then the string.
pub open spec fn enc_opt_bytes(b: Option<Seq<u8>>) -> Seq<u8> {
    match b {
        None => seq![0u8],
        Some(s) => seq![1u8] + enc_bytes(s),
    }
}

/// Encoding of a signed 64-bit value: sign byte then magnitude.
pub open spec fn enc_i64(v: i64) -> Seq<u8> {
    if v >= 0 {
        seq![0u8] + enc_u64(v as u64)
    } else {
        seq![1u8] + enc_u64((-(v as int)) as u64)
    }
}

/// Encoding of an optional signed value: presence tag, then the value.
pub open spec fn enc_i64_cell(c: Option<i64>) -> Seq<u8> {
    match c {
        None => seq![0u8],
        Some(v) => seq![1u8] + enc_i64(v),
    }
}

/// Encoding of a text column's cells, in row order.
pub open spec fn enc_text_cells(cs: Seq<Option<Seq<u8>>>) -> Seq<u8>
    decreases cs.len(),
{
    if cs.len() == 0 {
        Seq::empty()
    } else {
        enc_opt_bytes(cs[0]) + enc_text_cells(cs.drop_first())
    }
}

/// Encoding of a timestamp column's cells, in row order.
pub open spec fn enc_i64_cells(cs: Seq<Option<i64>>) -> Seq<u8>
    decreases cs.len(),
{
    if cs.len() == 0 {
        Seq::empty()
    } else {
        enc_i64_cell(cs[0]) + enc_i64_cells(cs.drop_first())
    }
}

/// Encoding of a column's typed cells: type tag, type parameters, cells.
pub open spec fn enc_coldata(d: ColumnDataView) -> Seq<u8> {
    match d {
        ColumnDataView::Utf8 { values } => seq![0u8] + enc_text_cells(values),
        ColumnDataView::TimestampMillis { tz, values } => seq![1u8] + enc_opt_bytes(tz)
            + enc_i64_cells(values),
        ColumnDataView::TimestampMicros { tz, values } => seq![2u8] + enc_opt_bytes(tz)
            + enc_i64_cells(values),
    }
}

/// Encoding of one column: name, nullability, typed cells.
pub open spec fn enc_column(c: ColumnView) -> Seq<u8> {
    enc_bytes(c.name) + seq![if c.nullable { 1u8 } else { 0u8 }] + enc_coldata(c.data)
}

/// Encoding of the columns, in schema order.
pub open spec fn enc_columns(cs: Seq<ColumnView>) -> Seq<u8>
    decreases cs.len(),
{
    if cs.len() == 0 {
        Seq::empty()
    } else {
        enc_column(cs[0]) + enc_columns(cs.drop_first())
    }
}

/// Encoding of a whole table: column count, row count, columns.
pub open spec fn spec_bytes_of(t: TableView) -> Seq<u8> {
    enc_u64(t.columns.len() as u64) + enc_u64(t.num_rows as u64) + enc_columns(t.columns)
}

// ---------------------------------------------------------------------------
// Encoding, executable.
// ---------------------------------------------------------------------------
fn push_u64(out: &mut Vec<u8>, v: u64)
    ensures
        final(out)@ == old(out)@ + enc_u64(v),
{
    let b = u64_to_le_bytes(v);
    crate::text::append_bytes(out, &b);
}

pub(crate) fn push_bytes(out: &mut Vec<u8>, b: &Vec<u8>)
    ensures
        final(out)@ == old(out)@ + enc_bytes(b@),
{
    push_u64(out, b.len() as u64);
    crate::text::append_bytes(out, b);
    proof {
        assert(out@ =~= old(out)@ + enc_bytes(b@));
    }
}

fn push_opt_bytes(out: &mut Vec<u8>, b: &Option<Vec<u8>>)
    ensures
        final(out)@ == old(out)@ + enc_opt_bytes(view_opt_bytes(*b)),
{
    match b {
        None => {
            out.push(0u8);
            proof {
                assert(out@ =~= old(out)@ + enc_opt_bytes(None));
            }
        },
        Some(s) => {
            out.push(1u8);
            push_bytes(out, s);
            proof {
                assert(out@ =~= old(out)@ + enc_opt_bytes(Some(s@)));
            }
        },
    }
}

fn push_i64(out: &mut Vec<u8>, v: i64)
    ensures
        final(out)@ == old(out)@ + enc_i64(v),
{
    if v >= 0 {
        out.push(0u8);
        push_u64(out, v as u64);
        proof {
            assert(out@ =~= old(out)@ + enc_i64(v));
        }
    } else if v == i64::MIN {
        out.push(1u8);
        push_u64(out, 9223372036854775808u64);
        proof {
            assert((-(v as int)) as u64 == 9223372036854775808u64);
            assert(out@ =~= old(out)@ + enc_i64(v));
        }
    } else {
        out.push(1u8);
        push_u64(out, (-v) as u64);
        proof {
            assert((-v) as u64 == (-(v as int)) as u64);
            assert(out@ =~= old(out)@ + enc_i64(v));
        }
    }
}

fn push_i64_cell(out: &mut Vec<u8>, c: &Option<i64>)
    ensures
        final(out)@ == old(out)@ + enc_i64_cell(*c),
{
    match c {
        None => {
            out.push(0u8);
            proof {
                assert(out@ =~= old(out)@ + enc_i64_cell(None));
            }
        },
        Some(v) => {
            out.push(1u8);
            push_i64(out, *v);
            proof {
                assert(out@ =~= old(out)@ + enc_i64_cell(Some(*v)));
            }
        },
    }
}

/// Appending one cell extends the encoding of a cell sequence.
proof fn lemma_enc_text_cells_snoc(cs: Seq<Option<Seq<u8>>>, c: Option<Seq<u8>>)
    ensures
        enc_text_cells(cs.push(c)) == enc_text_cells(cs) + enc_opt_bytes(c),
    decreases cs.len(),
{
    if cs.len() == 0 {
        assert(cs.push(c)[0] == c);
        assert(cs.push(c).drop_first() =~= Seq::<Option<Seq<u8>>>::empty());
        assert(enc_text_cells(Seq::<Option<Seq<u8>>>::empty()) == Seq::<u8>::empty());
        assert(enc_text_cells(cs.push(c)) =~= enc_text_cells(cs) + enc_opt_bytes(c));
    } else {
        assert(cs.push(c).drop_first() =~= cs.drop_first().push(c));
        lemma_enc_text_cells_snoc(cs.drop_first(), c);
        assert(cs.push(c)[0] == cs[0]);
        assert(enc_text_cells(cs.push(c)) =~= enc_text_cells(cs) + enc_opt_bytes(c));
    }
}

/// Appending one cell extends the encoding of a cell sequence.
proof fn lemma_enc_i64_cells_snoc(cs: Seq<Option<i64>>, c: Option<i64>)
    ensures
        enc_i64_cells(cs.push(c)) == enc_i64_cells(cs) + enc_i64_cell(c),
    decreases cs.len(),
{
    if cs.len() == 0 {
        assert(cs.push(c)[0] == c);
        assert(cs.push(c).drop_first() =~= Seq::<Option<i64>>::empty());
        assert(enc_i64_cells(Seq::<Option<i64>>::empty()) == Seq::<u8>::empty());
        assert(enc_i64_cells(cs.push(c)) =~= enc_i64_cells(cs) + enc_i64_cell(c));
    } else {
        assert(cs.push(c).drop_first() =~= cs.drop_first().push(c));
        lemma_enc_i64_cells_snoc(cs.drop_first(), c);
        assert(cs.push(c)[0] == cs[0]);
        assert(enc_i64_cells(cs.push(c)) =~= enc_i64_cells(cs) + enc_i64_cell(c));
    }
}

/// Appending one column extends the encoding of a column sequence.
proof fn lemma_enc_columns_snoc(cs: Seq<ColumnView>, c: ColumnView)
    ensures
        enc_columns(cs.push(c)) == enc_columns(cs) + enc_column(c),
    decreases cs.len(),
{
    if cs.len() == 0 {
        assert(cs.push(c)[0] == c);
        assert(cs.push(c).drop_first() =~= Seq::<ColumnView>::empty());
        assert(enc_columns(Seq::<ColumnView>::empty()) == Seq::<u8>::empty());
        assert(enc_columns(cs.push(c)) =~= enc_columns(cs) + enc_column(c));
    } else {
        assert(cs.push(c).drop_first() =~= cs.drop_first().push(c));
        lemma_enc_columns_snoc(cs.drop_first(), c);
        assert(cs.push(c)[0] == cs[0]);
        assert(enc_columns(cs.push(c)) =~= enc_columns(cs) + enc_column(c));
    }
}

fn push_text_cells(out: &mut Vec<u8>, values: &Vec<Option<Vec<u8>>>)
    ensures
        final(out)@ == old(out)@ + enc_text_cells(
            values@.map_values(|c: Option<Vec<u8>>| view_text_cell(c)),
        ),
{
    let ghost all = values@.map_values(|c: Option<Vec<u8>>| view_text_cell(c));
    let mut i: usize = 0;
    proof {
        assert(all.subrange(0, 0) =~= Seq::<Option<Seq<u8>>>::empty());
        assert(enc_text_cells(all.subrange(0, 0)) =~= Seq::<u8>::empty());
        assert(out@ =~= old(out)@ + enc_text_cells(all.subrange(0, 0)));
    }
    while i < values.len()
        invariant
            i <= values@.len(),
            all == values@.map_values(|c: Option<Vec<u8>>| view_text_cell(c)),
            out@ == old(out)@ + enc_text_cells(all.subrange(0, i as int)),
        decreases values@.len() - i,
    {
        push_opt_bytes(out, &values[i]);
        proof {
            lemma_enc_text_cells_snoc(all.subrange(0, i as int), all[i as int]);
            assert(all.subrange(0, i + 1) =~= all.subrange(0, i as int).push(all[i as int]));
            assert(view_opt_bytes(values@[i as int]) == view_text_cell(values@[i as int]));
        }
        i = i + 1;
    }
    proof {
        assert(all.subrange(0, all.len() as int) =~= all);
    }
}

fn push_i64_cells(out: &mut Vec<u8>, values: &Vec<Option<i64>>)
    ensures
        final(out)@ == old(out)@ + enc_i64_cells(values@),
{
    let mut i: usize = 0;
    proof {
        assert(values@.subrange(0, 0) =~= Seq::<Option<i64>>::empty());
        assert(out@ =~= old(out)@ + enc_i64_cells(values@.subrange(0, 0)));
    }
    while i < values.len()
        invariant
            i <= values@.len(),
            out@ == old(out)@ + enc_i64_cells(values@.subrange(0, i as int)),
        decreases values@.len() - i,
    {
        push_i64_cell(out, &values[i]);
        proof {
            lemma_enc_i64_cells_snoc(values@.subrange(0, i as int), values@[i as int]);
            assert(values@.subrange(0, i + 1) =~= values@.subrange(0, i as int).push(
                values@[i as int],
            ));
        }
        i = i + 1;
    }
    proof {
        assert(values@.subrange(0, values@.len() as int) =~= values@);
    }
}

fn push_coldata(out: &mut Vec<u8>, d: &ColumnData)
    ensures
        final(out)@ == old(out)@ + enc_coldata(d@),
{
    match d {
        ColumnData::Utf8 { values } => {
            out.push(0u8);
            push_text_cells(out, values);
            proof {
                assert(out@ =~= old(out)@ + enc_coldata(d@));
            }
        },
        ColumnData::TimestampMillis { tz, values } => {
            out.push(1u8);
            push_opt_bytes(out, tz);
            push_i64_cells(out, values);
            proof {
                assert(out@ =~= old(out)@ + enc_coldata(d@));
            }
        },
        ColumnData::TimestampMicros { tz, values } => {
            out.push(2u8);
            push_opt_bytes(out, tz);
            push_i64_cells(out, values);
            proof {
                assert(out@ =~= old(out)@ + enc_coldata(d@));
            }
        },
    }
}

fn push_column(out: &mut Vec<u8>, c: &Column)
    ensures
        final(out)@ == old(out)@ + enc_column(c@),
{
    push_bytes(out, &c.name);
    if c.nullable {
        out.push(1u8);
    } else {
        out.push(0u8);
    }
    push_coldata(out, &c.data);
    proof {
        assert(out@ =~= old(out)@ + enc_column(c@));
    }
}

impl Table {
    /// Serialize this table to its self-describing byte stream.
    pub fn to_bytes(&self) -> (r: Vec<u8>)
        ensures
            r@ == spec_bytes_of(self@),
    {
        bytes_of(self)
    }
}

/// Serialize a table to its self-describing byte stream.
pub fn bytes_of(t: &Table) -> (r: Vec<u8>)
    ensures
        r@ == spec_bytes_of(t@),
{
    let ghost cols = t@.columns;
    let mut out: Vec<u8> = Vec::new();
    push_u64(&mut out, t.columns.len() as u64);
    push_u64(&mut out, t.num_rows as u64);
    let ghost header = out@;
    let mut i: usize = 0;
    proof {
        assert(cols.subrange(0, 0) =~= Seq::<ColumnView>::empty());
        assert(out@ =~= header + enc_columns(cols.subrange(0, 0)));
    }
    while i < t.columns.len()
        invariant
            i <= t.columns@.len(),
            cols == t@.columns,
            cols.len() == t.columns@.len(),
            out@ == header + enc_columns(cols.subrange(0, i as int)),
        decreases t.columns@.len() - i,
    {
        push_column(&mut out, &t.columns[i]);
        proof {
            lemma_enc_columns_snoc(cols.subrange(0, i as int), cols[i as int]);
            assert(cols.subrange(0, i + 1) =~= cols.subrange(0, i as int).push(cols[i as int]));
            assert(t.columns@[i as int]@ == cols[i as int]);
        }
        i = i + 1;
    }
    proof {
        assert(cols.subrange(0, cols.len() as int) =~= cols);
        assert(out@ =~= spec_bytes_of(t@));
    }
    out
}

// ---------------------------------------------------------------------------
// Decoding, at the specification level.  Each parser returns the decoded
// value and the unconsumed remainder, or `None` when the stream is malformed.
// ---------------------------------------------------------------------------
/// Decode a 64-bit count or length.
pub open spec fn dec_u64(s: Seq<u8>) -> Option<(u64, Seq<u8>)> {
    if s.len() >= 8 {
        Some((spec_u64_from_le_bytes(s.take(8)), s.skip(8)))
    } else {
        None
    }
}

/// Decode one byte.
pub open spec fn dec_byte(s: Seq<u8>) -> Option<(u8, Seq<u8>)> {
    if s.len() >= 1 {
        Some((s[0], s.skip(1)))
    } else {
        None
    }
}

/// Decode a length-prefixed byte string.
pub open spec fn dec_bytes(s: Seq<u8>) -> Option<(Seq<u8>, Seq<u8>)> {
    match dec_u64(s) {
        None => None,
        Some((n, r)) => if r.len() >= n {
            Some((r.take(n as int), r.skip(n as int)))
        } else {
            None
        },
    }
}

/// Decode an optional byte string.
pub open spec fn dec_opt_bytes(s: Seq<u8>) -> Option<(Option<Seq<u8>>, Seq<u8>)> {
    match dec_byte(s) {
        None => None,
        Some((tag, r)) => if tag == 0 {
            Some((None, r))
        } else if tag == 1 {
            match dec_bytes(r) {
                None => None,
                Some((b, r2)) => Some((Some(b), r2)),
            }
        } else {
            None
        },
    }
}

/// Decode a signed 64-bit value from sign byte and magnitude.
pub open spec fn dec_i64(s: Seq<u8>) -> Option<(i64, Seq<u8>)> {
    match dec_byte(s) {
        None => None,
        Some((sign, r)) => match dec_u64(r) {
            None => None,
            Some((mag, r2)) => if sign == 0 {
                if mag <= 0x7fffffffffffffffu64 {
                    Some((mag as i64, r2))
                } else {
                    None
                }
            } else if sign == 1 {
                if 1 <= mag <= 0x8000000000000000u64 {
                    Some(((-(mag as int)) as i64, r2))
                } else {
                    None
                }
            } else {
                None
            },
        },
    }
}

/// Decode an optional signed value.
pub open spec fn dec_i64_cell(s: Seq<u8>) -> Option<(Option<i64>, Seq<u8>)> {
    match dec_byte(s) {
        None => None,
        Some((tag, r)) => if tag == 0 {
            Some((None, r))
        } else if tag == 1 {
            match dec_i64(r) {
                None => None,
                Some((v, r2)) => Some((Some(v), r2)),
            }
        } else {
            None
        },
    }
}

/// Decode `n` text cells.
pub open spec fn dec_text_cells(s: Seq<u8>, n: nat) -> Option<(Seq<Option<Seq<u8>>>, Seq<u8>)>
    decreases n,
{
    if n == 0 {
        Some((Seq::empty(), s))
    } else {
        match dec_opt_bytes(s) {
            None => None,
            Some((c, r)) => match dec_text_cells(r, (n - 1) as nat) {
                None => None,
                Some((cs, r2)) => Some((seq![c] + cs, r2)),
            },
        }
    }
}

/// Decode `n` timestamp cells.
pub open spec fn dec_i64_cells(s: Seq<u8>, n: nat) -> Option<(Seq<Option<i64>>, Seq<u8>)>
    decreases n,
{
    if n == 0 {
        Some((Seq::empty(), s))
    } else {
        match dec_i64_cell(s) {
            None => None,
            Some((c, r)) => match dec_i64_cells(r, (n - 1) as nat) {
                None => None,
                Some((cs, r2)) => Some((seq![c] + cs, r2)),
            },
        }
    }
}

/// Decode a column's typed cells: type tag, type parameters, `nrows` cells.
pub open spec fn dec_coldata(s: Seq<u8>, nrows: nat) -> Option<(ColumnDataView, Seq<u8>)> {
    match dec_byte(s) {
        None => None,
        Some((tag, r)) => if tag == 0 {
            match dec_text_cells(r, nrows) {
                None => None,
                Some((values, r2)) => Some((ColumnDataView::Utf8 { values }, r2)),
            }
        } else if tag == 1 || tag == 2 {
            match dec_opt_bytes(r) {
                None => None,
                Some((tz, r2)) => match dec_i64_cells(r2, nrows) {
                    None => None,
                    Some((values, r3)) => if tag == 1 {
                        Some((ColumnDataView::TimestampMillis { tz, values }, r3))
                    } else {
                        Some((ColumnDataView::TimestampMicros { tz, values }, r3))
                    },
                },
            }
        } else {
            None
        },
    }
}

/// Decode one column: name, nullability, typed cells.
pub open spec fn dec_column(s: Seq<u8>, nrows: nat) -> Option<(ColumnView, Seq<u8>)> {
    match dec_bytes(s) {
        None => None,
        Some((name, r)) => match dec_byte(r) {
            None => None,
            Some((nul, r2)) => if nul == 0 || nul == 1 {
                match dec_coldata(r2, nrows) {
                    None => None,
                    Some((data, r3)) => Some(
                        (ColumnView { name, nullable: nul == 1, data }, r3),
                    ),
                }
            } else {
                None
            },
        },
    }
}

/// Decode `n` columns.
pub open spec fn dec_columns(s: Seq<u8>, nrows: nat, n: nat) -> Option<(Seq<ColumnView>, Seq<u8>)>
    decreases n,
{
    if n == 0 {
        Some((Seq::empty(), s))
    } else {
        match dec_column(s, nrows) {
            None => None,
            Some((c, r)) => match dec_columns(r, nrows, (n - 1) as nat) {
                None => None,
                Some((cs, r2)) => Some((seq![c] + cs, r2)),
            },
        }
    }
}

/// Decode a whole table.  The stream must be consumed exactly, and the
/// counts must be representable in memory.
pub open spec fn spec_table_of(s: Seq<u8>) -> Option<TableView> {
    match dec_u64(s) {
        None => None,
        Some((ncols, r)) => match dec_u64(r) {
            None => None,
            Some((nrows, r2)) => if ncols <= usize::MAX as u64 && nrows <= usize::MAX as u64 {
                match dec_columns(r2, nrows as nat, ncols as nat) {
                    None => None,
                    Some((cols, rest)) => if rest.len() == 0 {
                        Some(TableView { columns: cols, num_rows: nrows as nat })
                    } else {
                        None
                    },
                }
            } else {
                None
            },
        },
    }
}

// ---------------------------------------------------------------------------
// The round trip.
// ---------------------------------------------------------------------------
/// Whether an optional byte string's length is encodable.
pub open spec fn bounded_opt_bytes(b: Option<Seq<u8>>) -> bool {
    b matches Some(s) ==> s.len() <= u64::MAX
}

/// Whether every length that a column's cells encode fits in 64 bits.
pub open spec fn bounded_coldata(d: ColumnDataView) -> bool {
    match d {
        ColumnDataView::Utf8 { values } => forall|i: int|
            0 <= i < values.len() ==> ((#[trigger] values[i]) matches Some(s) ==> s.len()
                <= u64::MAX),
        ColumnDataView::TimestampMillis { tz, .. } => bounded_opt_bytes(tz),
        ColumnDataView::TimestampMicros { tz, .. } => bounded_opt_bytes(tz),
    }
}

/// Whether every length that a column encodes fits in 64 bits.
pub open spec fn bounded_column(c: ColumnView) -> bool {
    c.name.len() <= u64::MAX && bounded_coldata(c.data)
}

/// Whether a table's counts and lengths are representable in memory, as they
/// are for every table an executable program holds.
pub open spec fn table_bounded(t: TableView) -> bool {
    &&& t.columns.len() <= usize::MAX
    &&& t.num_rows <= usize::MAX
    &&& forall|i: int| 0 <= i < t.columns.len() ==> bounded_column(#[trigger] t.columns[i])
}

proof fn lemma_rt_u64(v: u64, rest: Seq<u8>)
    ensures
        dec_u64(enc_u64(v) + rest) == Some((v, rest)),
{
    lemma_auto_spec_u64_to_from_le_bytes();
    assert((enc_u64(v) + rest).take(8) =~= enc_u64(v));
    assert((enc_u64(v) + rest).skip(8) =~= rest);
}

proof fn lemma_rt_byte(t: u8, rest: Seq<u8>)
    ensures
        dec_byte(seq![t] + rest) == Some((t, rest)),
{
    assert((seq![t] + rest)[0] == t);
    assert((seq![t] + rest).skip(1) =~= rest);
}

proof fn lemma_rt_bytes(b: Seq<u8>, rest: Seq<u8>)
    requires
        b.len() <= u64::MAX,
    ensures
        dec_bytes(enc_bytes(b) + rest) == Some((b, rest)),
{
    assert(enc_bytes(b) + rest =~= enc_u64(b.len() as u64) + (b + rest));
    lemma_rt_u64(b.len() as u64, b + rest);
    assert((b + rest).take(b.len() as int) =~= b);
    assert((b + rest).skip(b.len() as int) =~= rest);
}

proof fn lemma_rt_opt_bytes(o: Option<Seq<u8>>, rest: Seq<u8>)
    requires
        bounded_opt_bytes(o),
    ensures
        dec_opt_bytes(enc_opt_bytes(o) + rest) == Some((o, rest)),
{
    match o {
        None => {
            assert(enc_opt_bytes(o) + rest =~= seq![0u8] + rest);
            lemma_rt_byte(0u8, rest);
        },
        Some(s) => {
            assert(enc_opt_bytes(o) + rest =~= seq![1u8] + (enc_bytes(s) + rest));
            lemma_rt_byte(1u8, enc_bytes(s) + rest);
            lemma_rt_bytes(s, rest);
        },
    }
}

proof fn lemma_rt_i64(v: i64, rest: Seq<u8>)
    ensures
        dec_i64(enc_i64(v) + rest) == Some((v, rest)),
{
    if v >= 0 {
        assert(enc_i64(v) + rest =~= seq![0u8] + (enc_u64(v as u64) + rest));
        lemma_rt_byte(0u8, enc_u64(v as u64) + rest);
        lemma_rt_u64(v as u64, rest);
        assert(v as u64 <= 0x7fffffffffffffffu64);
        assert((v as u64) as i64 == v);
    } else {
        let mag = (-(v as int)) as u64;
        assert(enc_i64(v) + rest =~= seq![1u8] + (enc_u64(mag) + rest));
        lemma_rt_byte(1u8, enc_u64(mag) + rest);
        lemma_rt_u64(mag, rest);
        assert(1 <= mag <= 0x8000000000000000u64);
        assert((-(mag as int)) as i64 == v);
    }
}

proof fn lemma_rt_i64_cell(c: Option<i64>, rest: Seq<u8>)
    ensures
        dec_i64_cell(enc_i64_cell(c) + rest) == Some((c, rest)),
{
    match c {
        None => {
            assert(enc_i64_cell(c) + rest =~= seq![0u8] + rest);
            lemma_rt_byte(0u8, rest);
        },
        Some(v) => {
            assert(enc_i64_cell(c) + rest =~= seq![1u8] + (enc_i64(v) + rest));
            lemma_rt_byte(1u8, enc_i64(v) + rest);
            lemma_rt_i64(v, rest);
        },
    }
}

proof fn lemma_rt_text_cells(cs: Seq<Option<Seq<u8>>>, rest: Seq<u8>)
    requires
        forall|i: int|
            0 <= i < cs.len() ==> ((#[trigger] cs[i]) matches Some(s) ==> s.len() <= u64::MAX),
    ensures
        dec_text_cells(enc_text_cells(cs) + rest, cs.len()) == Some((cs, rest)),
    decreases cs.len(),
{
    if cs.len() == 0 {
        assert(enc_text_cells(cs) + rest =~= rest);
        assert(cs =~= Seq::<Option<Seq<u8>>>::empty());
    } else {
        assert(enc_text_cells(cs) + rest =~= enc_opt_bytes(cs[0]) + (enc_text_cells(
            cs.drop_first(),
        ) + rest));
        lemma_rt_opt_bytes(cs[0], enc_text_cells(cs.drop_first()) + rest);
        assert(forall|i: int|
            0 <= i < cs.drop_first().len() ==> cs.drop_first()[i] == cs[i + 1]);
        lemma_rt_text_cells(cs.drop_first(), rest);
        assert(seq![cs[0]] + cs.drop_first() =~= cs);
    }
}

proof fn lemma_rt_i64_cells(cs: Seq<Option<i64>>, rest: Seq<u8>)
    ensures
        dec_i64_cells(enc_i64_cells(cs) + rest, cs.len()) == Some((cs, rest)),
    decreases cs.len(),
{
    if cs.len() == 0 {
        assert(enc_i64_cells(cs) + rest =~= rest);
        assert(cs =~= Seq::<Option<i64>>::empty());
    } else {
        assert(enc_i64_cells(cs) + rest =~= enc_i64_cell(cs[0]) + (enc_i64_cells(cs.drop_first())
            + rest));
        lemma_rt_i64_cell(cs[0], enc_i64_cells(cs.drop_first()) + rest);
        lemma_rt_i64_cells(cs.drop_first(), rest);
        assert(seq![cs[0]] + cs.drop_first() =~= cs);
    }
}

proof fn lemma_rt_coldata(d: ColumnDataView, rest: Seq<u8>)
    requires
        bounded_coldata(d),
    ensures
        dec_coldata(enc_coldata(d) + rest, d.len()) == Some((d, rest)),
{
    match d {
        ColumnDataView::Utf8 { values } => {
            assert(enc_coldata(d) + rest =~= seq![0u8] + (enc_text_cells(values) + rest));
            lemma_rt_byte(0u8, enc_text_cells(values) + rest);
            lemma_rt_text_cells(values, rest);
        },
        ColumnDataView::TimestampMillis { tz, values } => {
            assert(enc_coldata(d) + rest =~= seq![1u8] + (enc_opt_bytes(tz) + (enc_i64_cells(
                values,
            ) + rest)));
            lemma_rt_byte(1u8, enc_opt_bytes(tz) + (enc_i64_cells(values) + rest));
            lemma_rt_opt_bytes(tz, enc_i64_cells(values) + rest);
            lemma_rt_i64_cells(values, rest);
        },
        ColumnDataView::TimestampMicros { tz, values } => {
            assert(enc_coldata(d) + rest =~= seq![2u8] + (enc_opt_bytes(tz) + (enc_i64_cells(
                values,
            ) + rest)));
            lemma_rt_byte(2u8, enc_opt_bytes(tz) + (enc_i64_cells(values) + rest));
            lemma_rt_opt_bytes(tz, enc_i64_cells(values) + rest);
            lemma_rt_i64_cells(values, rest);
        },
    }
}

proof fn lemma_rt_column(c: ColumnView, rest: Seq<u8>)
    requires
        bounded_column(c),
    ensures
        dec_column(enc_column(c) + rest, c.data.len()) == Some((c, rest)),
{
    let nul: u8 = if c.nullable { 1u8 } else { 0u8 };
    assert(enc_column(c) + rest =~= enc_bytes(c.name) + (seq![nul] + (enc_coldata(c.data)
        + rest)));
    lemma_rt_bytes(c.name, seq![nul] + (enc_coldata(c.data) + rest));
    lemma_rt_byte(nul, enc_coldata(c.data) + rest);
    lemma_rt_coldata(c.data, rest);
    assert((ColumnView { name: c.name, nullable: nul == 1, data: c.data }) == c);
}

#[verifier::rlimit(50)]
proof fn lemma_rt_columns(cs: Seq<ColumnView>, nrows: nat, rest: Seq<u8>)
    requires
        forall|i: int| 0 <= i < cs.len() ==> bounded_column(#[trigger] cs[i]),
        forall|i: int| 0 <= i < cs.len() ==> (#[trigger] cs[i]).data.len() == nrows,
    ensures
        dec_columns(enc_columns(cs) + rest, nrows, cs.len()) == Some((cs, rest)),
    decreases cs.len(),
{
    if cs.len() == 0 {
        assert(enc_columns(cs) + rest =~= rest);
        assert(cs =~= Seq::<ColumnView>::empty());
    } else {
        assert(enc_columns(cs) + rest =~= enc_column(cs[0]) + (enc_columns(cs.drop_first())
            + rest));
        lemma_rt_column(cs[0], enc_columns(cs.drop_first()) + rest);
        assert(forall|i: int|
            0 <= i < cs.drop_first().len() ==> cs.drop_first()[i] == cs[i + 1]);
        lemma_rt_columns(cs.drop_first(), nrows, rest);
        assert(seq![cs[0]] + cs.drop_first() =~= cs);
    }
}

// ---------------------------------------------------------------------------
// Decoding, executable.  Each reader takes the stream and a cursor and
// returns the decoded value with the new cursor, mirroring the
// specification-level parser on the unread part of the stream.
// ---------------------------------------------------------------------------
fn rd_u64(s: &Vec<u8>, pos: usize) -> (r: Option<(u64, usize)>)
    requires
        pos <= s@.len(),
    ensures
        r is Some <==> dec_u64(s@.skip(pos as int)) is Some,
        r matches Some((v, p2)) ==> pos <= p2 <= s@.len() && dec_u64(s@.skip(pos as int)) == Some(
            (v, s@.skip(p2 as int)),
        ),
{
    if s.len() - pos >= 8 {
        let sl = vstd::slice::slice_subrange(s.as_slice(), pos, pos + 8);
        let v = u64_from_le_bytes(sl);
        proof {
            assert(s@.skip(pos as int).take(8) =~= s@.subrange(pos as int, pos as int + 8));
            assert(s@.skip(pos as int).skip(8) =~= s@.skip(pos as int + 8));
        }
        Some((v, pos + 8))
    } else {
        None
    }
}

fn rd_byte(s: &Vec<u8>, pos: usize) -> (r: Option<(u8, usize)>)
    requires
        pos <= s@.len(),
    ensures
        r is Some <==> dec_byte(s@.skip(pos as int)) is Some,
        r matches Some((v, p2)) ==> pos <= p2 <= s@.len() && dec_byte(s@.skip(pos as int)) == Some(
            (v, s@.skip(p2 as int)),
        ),
{
    if pos < s.len() {
        proof {
            assert(s@.skip(pos as int)[0] == s@[pos as int]);
            assert(s@.skip(pos as int).skip(1) =~= s@.skip(pos as int + 1));
        }
        Some((s[pos], pos + 1))
    } else {
        None
    }
}

fn rd_bytes(s: &Vec<u8>, pos: usize) -> (r: Option<(Vec<u8>, usize)>)
    requires
        pos <= s@.len(),
    ensures
        r is Some <==> dec_bytes(s@.skip(pos as int)) is Some,
        r matches Some((b, p2)) ==> pos <= p2 <= s@.len() && dec_bytes(s@.skip(pos as int))
            == Some((b@, s@.skip(p2 as int))),
{
    match rd_u64(s, pos) {
        None => None,
        Some((n, p)) => {
            if n <= (s.len() - p) as u64 {
                let n_us = n as usize;
                let sl = vstd::slice::slice_subrange(s.as_slice(), p, p + n_us);
                let b = vstd::slice::slice_to_vec(sl);
                proof {
                    assert(s@.skip(p as int).take(n as int) =~= s@.subrange(
                        p as int,
                        p as int + n as int,
                    ));
                    assert(s@.skip(p as int).skip(n as int) =~= s@.skip(p as int + n as int));
                }
                Some((b, p + n_us))
            } else {
                proof {
                    assert(s@.skip(p as int).len() < n);
                }
                None
            }
        },
    }
}

fn rd_opt_bytes(s: &Vec<u8>, pos: usize) -> (r: Option<(Option<Vec<u8>>, usize)>)
    requires
        pos <= s@.len(),
    ensures
        r is Some <==> dec_opt_bytes(s@.skip(pos as int)) is Some,
        r matches Some((o, p2)) ==> pos <= p2 <= s@.len() && dec_opt_bytes(s@.skip(pos as int))
            == Some((view_opt_bytes(o), s@.skip(p2 as int))),
{
    match rd_byte(s, pos) {
        None => None,
        Some((tag, p)) => {
            if tag == 0 {
                Some((None, p))
            } else if tag == 1 {
                match rd_bytes(s, p) {
                    None => None,
                    Some((b, p2)) => Some((Some(b), p2)),
                }
            } else {
                None
            }
        },
    }
}

fn rd_i64(s: &Vec<u8>, pos: usize) -> (r: Option<(i64, usize)>)
    requires
        pos <= s@.len(),
    ensures
        r is Some <==> dec_i64(s@.skip(pos as int)) is Some,
        r matches Some((v, p2)) ==> pos <= p2 <= s@.len() && dec_i64(s@.skip(pos as int)) == Some(
            (v, s@.skip(p2 as int)),
        ),
{
    match rd_byte(s, pos) {
        None => None,
        Some((sign, p)) => match rd_u64(s, p) {
            None => None,
            Some((mag, p2)) => {
                if sign == 0 {
                    if mag <= 0x7fffffffffffffffu64 {
                        Some((mag as i64, p2))
                    } else {
                        None
                    }
                } else if sign == 1 {
                    if 1 <= mag && mag <= 0x8000000000000000u64 {
                        let v: i64 = if mag == 0x8000000000000000u64 {
                            i64::MIN
                        } else {
                            -(mag as i64)
                        };
                        proof {
                            assert(v == (-(mag as int)) as i64);
                        }
                        Some((v, p2))
                    } else {
                        None
                    }
                } else {
                    None
                }
            },
        },
    }
}

fn rd_i64_cell(s: &Vec<u8>, pos: usize) -> (r: Option<(Option<i64>, usize)>)
    requires
        pos <= s@.len(),
    ensures
        r is Some <==> dec_i64_cell(s@.skip(pos as int)) is Some,
        r matches Some((c, p2)) ==> pos <= p2 <= s@.len() && dec_i64_cell(s@.skip(pos as int))
            == Some((c, s@.skip(p2 as int))),
{
    match rd_byte(s, pos) {
        None => None,
        Some((tag, p)) => {
            if tag == 0 {
                Some((None, p))
            } else if tag == 1 {
                match rd_i64(s, p) {
                    None => None,
                    Some((v, p2)) => Some((Some(v), p2)),
                }
            } else {
                None
            }
        },
    }
}

fn rd_text_cells(s: &Vec<u8>, pos: usize, n: u64) -> (r: Option<(Vec<Option<Vec<u8>>>, usize)>)
    requires
        pos <= s@.len(),
    ensures
        r is Some <==> dec_text_cells(s@.skip(pos as int), n as nat) is Some,
        r matches Some((cs, p2)) ==> pos <= p2 <= s@.len() && cs@.len() == n && dec_text_cells(
            s@.skip(pos as int),
            n as nat,
        ) == Some(
            (cs@.map_values(|c: Option<Vec<u8>>| view_text_cell(c)), s@.skip(p2 as int)),
        ),
    decreases n,
{
    if n == 0 {
        let cs: Vec<Option<Vec<u8>>> = Vec::new();
        proof {
            assert(cs@.map_values(|c: Option<Vec<u8>>| view_text_cell(c)) =~= Seq::<
                Option<Seq<u8>>,
            >::empty());
        }
        Some((cs, pos))
    } else {
        match rd_opt_bytes(s, pos) {
            None => None,
            Some((c, p1)) => match rd_text_cells(s, p1, n - 1) {
                None => None,
                Some((mut cs, p2)) => {
                    let ghost tail = cs@;
                    cs.insert(0, c);
                    proof {
                        assert(cs@ =~= seq![c] + tail);
                        assert(cs@.map_values(|x: Option<Vec<u8>>| view_text_cell(x)) =~= seq![
                            view_opt_bytes(c),
                        ] + tail.map_values(|x: Option<Vec<u8>>| view_text_cell(x)));
                    }
                    Some((cs, p2))
                },
            },
        }
    }
}

fn rd_i64_cells(s: &Vec<u8>, pos: usize, n: u64) -> (r: Option<(Vec<Option<i64>>, usize)>)
    requires
        pos <= s@.len(),
    ensures
        r is Some <==> dec_i64_cells(s@.skip(pos as int), n as nat) is Some,
        r matches Some((cs, p2)) ==> pos <= p2 <= s@.len() && cs@.len() == n && dec_i64_cells(
            s@.skip(pos as int),
            n as nat,
        ) == Some((cs@, s@.skip(p2 as int))),
    decreases n,
{
    if n == 0 {
        let cs: Vec<Option<i64>> = Vec::new();
        proof {
            assert(cs@ =~= Seq::<Option<i64>>::empty());
        }
        Some((cs, pos))
    } else {
        match rd_i64_cell(s, pos) {
            None => None,
            Some((c, p1)) => match rd_i64_cells(s, p1, n - 1) {
                None => None,
                Some((mut cs, p2)) => {
                    let ghost tail = cs@;
                    cs.insert(0, c);
                    proof {
                        assert(cs@ =~= seq![c] + tail);
                    }
                    Some((cs, p2))
                },
            },
        }
    }
}

fn rd_coldata(s: &Vec<u8>, pos: usize, nrows: u64) -> (r: Option<(ColumnData, usize)>)
    requires
        pos <= s@.len(),
    ensures
        r is Some <==> dec_coldata(s@.skip(pos as int), nrows as nat) is Some,
        r matches Some((d, p2)) ==> pos <= p2 <= s@.len() && d@.len() == nrows && dec_coldata(
            s@.skip(pos as int),
            nrows as nat,
        ) == Some((d@, s@.skip(p2 as int))),
{
    match rd_byte(s, pos) {
        None => None,
        Some((tag, p)) => {
            if tag == 0 {
                match rd_text_cells(s, p, nrows) {
                    None => None,
                    Some((values, p2)) => Some((ColumnData::Utf8 { values }, p2)),
                }
            } else if tag == 1 || tag == 2 {
                match rd_opt_bytes(s, p) {
                    None => None,
                    Some((tz, p2)) => match rd_i64_cells(s, p2, nrows) {
                        None => None,
                        Some((values, p3)) => {
                            if tag == 1 {
                                Some((ColumnData::TimestampMillis { tz, values }, p3))
                            } else {
                                Some((ColumnData::TimestampMicros { tz, values }, p3))
                            }
                        },
                    },
                }
            } else {
                None
            }
        },
    }
}

fn rd_column(s: &Vec<u8>, pos: usize, nrows: u64) -> (r: Option<(Column, usize)>)
    requires
        pos <= s@.len(),
    ensures
        r is Some <==> dec_column(s@.skip(pos as int), nrows as nat) is Some,
        r matches Some((c, p2)) ==> pos <= p2 <= s@.len() && c@.data.len() == nrows && dec_column(
            s@.skip(pos as int),
            nrows as nat,
        ) == Some((c@, s@.skip(p2 as int))),
{
    match rd_bytes(s, pos) {
        None => None,
        Some((name, p)) => match rd_byte(s, p) {
            None => None,
            Some((nul, p2)) => {
                if nul == 0 || nul == 1 {
                    match rd_coldata(s, p2, nrows) {
                        None => None,
                        Some((data, p3)) => Some(
                            (Column { name, nullable: nul == 1, data }, p3),
                        ),
                    }
                } else {
                    None
                }
            },
        },
    }
}

fn rd_columns(s: &Vec<u8>, pos: usize, nrows: u64, n: u64) -> (r: Option<(Vec<Column>, usize)>)
    requires
        pos <= s@.len(),
    ensures
        r is Some <==> dec_columns(s@.skip(pos as int), nrows as nat, n as nat) is Some,
        r matches Some((cs, p2)) ==> pos <= p2 <= s@.len() && cs@.len() == n && (forall|i: int|
            0 <= i < cs@.len() ==> (#[trigger] cs@[i])@.data.len() == nrows) && dec_columns(
            s@.skip(pos as int),
            nrows as nat,
            n as nat,
        ) == Some((cs@.map_values(|c: Column| c@), s@.skip(p2 as int))),
    decreases n,
{
    if n == 0 {
        let cs: Vec<Column> = Vec::new();
        proof {
            assert(cs@.map_values(|c: Column| c@) =~= Seq::<ColumnView>::empty());
        }
        Some((cs, pos))
    } else {
        match rd_column(s, pos, nrows) {
            None => None,
            Some((c, p1)) => match rd_columns(s, p1, nrows, n - 1) {
                None => None,
                Some((mut cs, p2)) => {
                    let ghost tail = cs@;
                    cs.insert(0, c);
                    proof {
                        assert(cs@ =~= seq![c] + tail);
                        assert(cs@.map_values(|x: Column| x@) =~= seq![c@] + tail.map_values(
                            |x: Column| x@,
                        ));
                    }
                    Some((cs, p2))
                },
            },
        }
    }
}

/// Deserialize a table from its self-describing byte stream.  Succeeds
/// exactly when the stream is the complete encoding of some table; the
/// decoded table is well formed.
pub fn table_of(s: &Vec<u8>) -> (r: Result<Table, Error>)
    ensures
        r is Ok <==> spec_table_of(s@) is Some,
        r matches Ok(t) ==> spec_table_of(s@) == Some(t@) && t.wf(),
        r is Err ==> r == Err::<Table, Error>(Error::Malformed),
{
    proof {
        assert(s@.skip(0) =~= s@);
    }
    match rd_u64(s, 0) {
        None => Err(Error::Malformed),
        Some((ncols, p)) => match rd_u64(s, p) {
            None => Err(Error::Malformed),
            Some((nrows, p2)) => {
                if ncols <= usize::MAX as u64 && nrows <= usize::MAX as u64 {
                    match rd_columns(s, p2, nrows, ncols) {
                        None => Err(Error::Malformed),
                        Some((columns, p3)) => {
                            if p3 == s.len() {
                                proof {
                                    assert(s@.skip(p3 as int).len() == 0);
                                }
                                let t = Table { columns, num_rows: nrows as usize };
                                proof {
                                    assert(t@.columns =~= columns@.map_values(|c: Column| c@));
                                    assert(spec_table_of(s@) == Some(t@));
                                }
                                Ok(t)
                            } else {
                                proof {
                                    assert(s@.skip(p3 as int).len() > 0);
                                }
                                Err(Error::Malformed)
                            }
                        },
                    }
                } else {
                    Err(Error::Malformed)
                }
            },
        },
    }
}

/// The round trip: serializing any well-formed table and decoding the bytes
/// yields a table with identical schema and identical cell values, in order.
pub proof fn lemma_table_codec_round_trip(t: TableView)
    requires
        t.wf(),
        table_bounded(t),
    ensures
        spec_table_of(spec_bytes_of(t)) == Some(t),
{
    let ncols = t.columns.len() as u64;
    let nrows = t.num_rows as u64;
    assert(spec_bytes_of(t) =~= enc_u64(ncols) + (enc_u64(nrows) + enc_columns(t.columns)));
    lemma_rt_u64(ncols, enc_u64(nrows) + enc_columns(t.columns));
    lemma_rt_u64(nrows, enc_columns(t.columns));
    assert(enc_columns(t.columns) + Seq::<u8>::empty() =~= enc_columns(t.columns));
    lemma_rt_columns(t.columns, t.num_rows, Seq::<u8>::empty());
    assert((TableView { columns: t.columns, num_rows: nrows as nat }) == t);
}

} // verus!
