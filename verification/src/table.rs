//! The in-memory columnar record model.
//!
//! An event's payload is a small self-describing table: named, typed columns
//! of equal length.  Cell text and column names are UTF-8 byte strings; a
//! missing cell is `None`.  Timestamp columns carry their resolution in the
//! type so that the millisecond-to-microsecond upconversion required by the
//! storage sink is a pure schema rewrite.

use vstd::prelude::*;

verus! {

/// Errors raised while building or transforming a table.
#[derive(Debug, PartialEq, Eq, Structural, Clone, Copy)]
pub enum Error {
    /// The input did not have the shape the conversion requires
    /// (for example, a structured value that is not an object).
    Schema,
    /// A cell value cannot be represented after a transform
    /// (for example, a timestamp that overflows when upconverted).
    Conversion,
}

/// Mathematical model of one column's cells, tagged with the data type.
#[verifier::ext_equal]
pub enum ColumnDataView {
    Utf8 { values: Seq<Option<Seq<u8>>> },
    TimestampMillis { tz: Option<Seq<u8>>, values: Seq<Option<i64>> },
    TimestampMicros { tz: Option<Seq<u8>>, values: Seq<Option<i64>> },
}

impl ColumnDataView {
    /// Number of cells held.
    pub open spec fn len(&self) -> nat {
        match self {
            ColumnDataView::Utf8 { values } => values.len(),
            ColumnDataView::TimestampMillis { values, .. } => values.len(),
            ColumnDataView::TimestampMicros { values, .. } => values.len(),
        }
    }
}

/// Mathematical model of a named column.
#[verifier::ext_equal]
pub struct ColumnView {
    pub name: Seq<u8>,
    pub nullable: bool,
    pub data: ColumnDataView,
}

/// Mathematical model of a table.
#[verifier::ext_equal]
pub struct TableView {
    pub columns: Seq<ColumnView>,
    pub num_rows: nat,
}

impl TableView {
    /// Well-formedness: every column holds exactly `num_rows` cells.
    pub open spec fn wf(&self) -> bool {
        forall|i: int|
            0 <= i < self.columns.len() ==> (#[trigger] self.columns[i]).data.len()
                == self.num_rows
    }
}

/// One column's cells, tagged with the column's data type.
pub enum ColumnData {
    /// UTF-8 text cells.
    Utf8 { values: Vec<Option<Vec<u8>>> },
    /// Timestamps at millisecond resolution, with an optional time zone name.
    TimestampMillis { tz: Option<Vec<u8>>, values: Vec<Option<i64>> },
    /// Timestamps at microsecond resolution, with an optional time zone name.
    TimestampMicros { tz: Option<Vec<u8>>, values: Vec<Option<i64>> },
}

/// A named column: the schema entry and its cells.
pub struct Column {
    /// Field name, UTF-8.
    pub name: Vec<u8>,
    /// Whether the field admits missing cells.
    pub nullable: bool,
    /// The cells, tagged with the field's data type.
    pub data: ColumnData,
}

/// An in-memory columnar table: the canonical payload of an event.
pub struct Table {
    /// The columns, in schema order.
    pub columns: Vec<Column>,
    /// The shared row count.
    pub num_rows: usize,
}

/// The model of a text cell.
pub open spec fn view_text_cell(c: Option<Vec<u8>>) -> Option<Seq<u8>> {
    match c {
        Some(v) => Some(v@),
        None => None,
    }
}

/// The model of an optional byte string (a time zone name).
pub open spec fn view_opt_bytes(c: Option<Vec<u8>>) -> Option<Seq<u8>> {
    match c {
        Some(v) => Some(v@),
        None => None,
    }
}

impl View for ColumnData {
    type V = ColumnDataView;

    open spec fn view(&self) -> ColumnDataView {
        match self {
            ColumnData::Utf8 { values } => ColumnDataView::Utf8 {
                values: values@.map_values(|c: Option<Vec<u8>>| view_text_cell(c)),
            },
            ColumnData::TimestampMillis { tz, values } => ColumnDataView::TimestampMillis {
                tz: view_opt_bytes(*tz),
                values: values@,
            },
            ColumnData::TimestampMicros { tz, values } => ColumnDataView::TimestampMicros {
                tz: view_opt_bytes(*tz),
                values: values@,
            },
        }
    }
}

impl View for Column {
    type V = ColumnView;

    open spec fn view(&self) -> ColumnView {
        ColumnView { name: self.name@, nullable: self.nullable, data: self.data@ }
    }
}

impl View for Table {
    type V = TableView;

    open spec fn view(&self) -> TableView {
        TableView {
            columns: self.columns@.map_values(|c: Column| c@),
            num_rows: self.num_rows as nat,
        }
    }
}

impl ColumnData {
    /// Number of cells held.
    pub fn len(&self) -> (n: usize)
        ensures
            n == self@.len(),
    {
        match self {
            ColumnData::Utf8 { values } => values.len(),
            ColumnData::TimestampMillis { values, .. } => values.len(),
            ColumnData::TimestampMicros { values, .. } => values.len(),
        }
    }
}

impl Table {
    /// Well-formedness of the in-memory table: its model is well formed.
    pub open spec fn wf(&self) -> bool {
        self@.wf()
    }

    /// An empty table.
    pub fn new() -> (t: Table)
        ensures
            t.wf(),
            t@.columns.len() == 0,
            t@.num_rows == 0,
    {
        Table { columns: Vec::new(), num_rows: 0 }
    }
}

/// What the millisecond-to-microsecond upconversion does to one cell:
/// multiply by 1000.
pub open spec fn spec_adjust_value(v: Option<i64>) -> Option<i64> {
    match v {
        Some(ms) => Some((ms * 1000) as i64),
        None => None,
    }
}

/// Whether every millisecond cell of the column survives the upconversion
/// without overflowing.
pub open spec fn spec_column_adjustable(c: ColumnView) -> bool {
    match c.data {
        ColumnDataView::TimestampMillis { values, .. } => forall|i: int|
            0 <= i < values.len() ==> ((#[trigger] values[i]) matches Some(ms) ==> i64::MIN <= ms
                * 1000 <= i64::MAX),
        _ => true,
    }
}

/// Whether the whole table survives the upconversion.
pub open spec fn spec_table_adjustable(t: TableView) -> bool {
    forall|i: int| 0 <= i < t.columns.len() ==> spec_column_adjustable(#[trigger] t.columns[i])
}

/// What the upconversion does to one column: a millisecond timestamp column
/// becomes a microsecond one with every cell multiplied by 1000; any other
/// column passes through unchanged.
pub open spec fn spec_adjust_column(c: ColumnView) -> ColumnView {
    match c.data {
        ColumnDataView::TimestampMillis { tz, values } => ColumnView {
            name: c.name,
            nullable: c.nullable,
            data: ColumnDataView::TimestampMicros {
                tz,
                values: values.map_values(|v: Option<i64>| spec_adjust_value(v)),
            },
        },
        _ => c,
    }
}

/// What the upconversion does to the whole table: only millisecond timestamp
/// columns change; schema order and row order are preserved.
pub open spec fn spec_adjust_table(t: TableView) -> TableView {
    TableView {
        columns: t.columns.map_values(|c: ColumnView| spec_adjust_column(c)),
        num_rows: t.num_rows,
    }
}

/// The upconversion is idempotent: a second pass finds no millisecond column
/// left to convert, so it changes nothing.
pub proof fn lemma_adjust_idempotent(t: TableView)
    ensures
        spec_adjust_table(spec_adjust_table(t)) == spec_adjust_table(t),
{
    let once = spec_adjust_table(t);
    assert forall|i: int| 0 <= i < once.columns.len() implies #[trigger] spec_adjust_table(
        once,
    ).columns[i] == once.columns[i] by {
        let c = t.columns[i];
        assert(once.columns[i] == spec_adjust_column(c));
        assert(spec_adjust_column(spec_adjust_column(c)) == spec_adjust_column(c));
    }
    assert(spec_adjust_table(once).columns =~= once.columns);
    assert(spec_adjust_table(once) =~= once);
}

impl Table {
    /// Upconvert every millisecond timestamp column to microsecond
    /// resolution, multiplying each cell by 1000; all other columns pass
    /// through unchanged.  Fails with a conversion error, leaving the table
    /// untouched, if any cell would overflow.
    pub fn adjust_data_precision(&mut self) -> (r: Result<(), Error>)
        ensures
            r is Ok <==> spec_table_adjustable(old(self)@),
            r is Ok ==> final(self)@ == spec_adjust_table(old(self)@),
            r is Err ==> final(self)@ == old(self)@ && r == Err::<(), Error>(Error::Conversion),
            final(self).wf() <== old(self).wf(),
    {
        let ghost old_view = self@;
        let mut new_columns: Vec<Column> = Vec::new();
        let mut i: usize = 0;
        while i < self.columns.len()
            invariant
                i <= self.columns@.len(),
                old_view == old(self)@,
                self@ == old_view,
                new_columns@.len() == i,
                forall|j: int|
                    0 <= j < i ==> (#[trigger] new_columns@[j])@ == spec_adjust_column(
                        old_view.columns[j],
                    ),
                forall|j: int| 0 <= j < i ==> spec_column_adjustable(#[trigger] old_view.columns[j]),
            decreases self.columns@.len() - i,
        {
            let c = &self.columns[i];
            proof {
                assert(old_view.columns[i as int] == self.columns@[i as int]@);
            }
            let adjusted: Column = match &c.data {
                ColumnData::TimestampMillis { tz, values } => {
                    proof {
                        assert(old_view.columns[i as int].data == (ColumnDataView::TimestampMillis {
                            tz: view_opt_bytes(*tz),
                            values: values@,
                        }));
                    }
                    let mut new_values: Vec<Option<i64>> = Vec::new();
                    let mut k: usize = 0;
                    while k < values.len()
                        invariant
                            k <= values@.len(),
                            new_values@.len() == k,
                            old_view == old(self)@,
                            old_view.columns.len() > i,
                            old_view.columns[i as int].data == (ColumnDataView::TimestampMillis {
                                tz: view_opt_bytes(*tz),
                                values: values@,
                            }),
                            forall|m: int|
                                0 <= m < k ==> #[trigger] new_values@[m] == spec_adjust_value(
                                    values@[m],
                                ),
                            forall|m: int|
                                0 <= m < k ==> ((#[trigger] values@[m]) matches Some(ms)
                                    ==> i64::MIN <= ms * 1000 <= i64::MAX),
                        decreases values@.len() - k,
                    {
                        match values[k] {
                            Some(ms) => {
                                if ms > 9223372036854775i64 || ms < -9223372036854775i64 {
                                    proof {
                                        assert(values@[k as int] == Some(ms));
                                        assert(ms * 1000 > i64::MAX || ms * 1000 < i64::MIN);
                                        assert(!spec_column_adjustable(old_view.columns[i as int]));
                                        assert(!spec_table_adjustable(old_view));
                                    }
                                    return Err(Error::Conversion);
                                }
                                new_values.push(Some(ms * 1000));
                            },
                            None => {
                                new_values.push(None);
                            },
                        }
                        k = k + 1;
                    }
                    proof {
                        assert(spec_column_adjustable(old_view.columns[i as int]));
                        assert(new_values@ =~= values@.map_values(
                            |v: Option<i64>| spec_adjust_value(v),
                        ));
                    }
                    Column {
                        name: crate::text::clone_bytes(&c.name),
                        nullable: c.nullable,
                        data: ColumnData::TimestampMicros {
                            tz: crate::text::clone_opt_bytes(tz),
                            values: new_values,
                        },
                    }
                },
                ColumnData::Utf8 { values } => {
                    proof {
                        assert(old_view.columns[i as int].data == (ColumnDataView::Utf8 {
                            values: values@.map_values(|c: Option<Vec<u8>>| view_text_cell(c)),
                        }));
                        assert(spec_column_adjustable(old_view.columns[i as int]));
                    }
                    let mut new_values: Vec<Option<Vec<u8>>> = Vec::new();
                    let mut k: usize = 0;
                    while k < values.len()
                        invariant
                            k <= values@.len(),
                            new_values@.len() == k,
                            forall|m: int|
                                0 <= m < k ==> view_text_cell(#[trigger] new_values@[m])
                                    == view_text_cell(values@[m]),
                        decreases values@.len() - k,
                    {
                        new_values.push(crate::text::clone_opt_bytes(&values[k]));
                        k = k + 1;
                    }
                    proof {
                        assert(new_values@.map_values(|c: Option<Vec<u8>>| view_text_cell(c))
                            =~= values@.map_values(|c: Option<Vec<u8>>| view_text_cell(c)));
                    }
                    Column {
                        name: crate::text::clone_bytes(&c.name),
                        nullable: c.nullable,
                        data: ColumnData::Utf8 { values: new_values },
                    }
                },
                ColumnData::TimestampMicros { tz, values } => {
                    proof {
                        assert(old_view.columns[i as int].data == (ColumnDataView::TimestampMicros {
                            tz: view_opt_bytes(*tz),
                            values: values@,
                        }));
                        assert(spec_column_adjustable(old_view.columns[i as int]));
                    }
                    let mut new_values: Vec<Option<i64>> = Vec::new();
                    let mut k: usize = 0;
                    while k < values.len()
                        invariant
                            k <= values@.len(),
                            new_values@ == values@.subrange(0, k as int),
                        decreases values@.len() - k,
                    {
                        new_values.push(values[k]);
                        k = k + 1;
                        proof {
                            assert(new_values@ =~= values@.subrange(0, k as int));
                        }
                    }
                    proof {
                        assert(new_values@ =~= values@);
                    }
                    Column {
                        name: crate::text::clone_bytes(&c.name),
                        nullable: c.nullable,
                        data: ColumnData::TimestampMicros {
                            tz: crate::text::clone_opt_bytes(tz),
                            values: new_values,
                        },
                    }
                },
            };
            proof {
                assert(adjusted@ =~~= spec_adjust_column(old_view.columns[i as int]));
            }
            new_columns.push(adjusted);
            i = i + 1;
        }
        self.columns = new_columns;
        proof {
            assert(spec_table_adjustable(old_view));
            assert(self@.columns =~= spec_adjust_table(old_view).columns);
            assert(self@ =~= spec_adjust_table(old_view));
            if old_view.wf() {
                assert forall|j: int| 0 <= j < self@.columns.len() implies (
                #[trigger] self@.columns[j]).data.len() == self@.num_rows by {
                    assert(self@.columns[j] == spec_adjust_column(old_view.columns[j]));
                    assert(old_view.columns[j].data.len() == old_view.num_rows);
                }
            }
        }
        Ok(())
    }
}

fn clone_text_cells(values: &Vec<Option<Vec<u8>>>) -> (r: Vec<Option<Vec<u8>>>)
    ensures
        r@.map_values(|c: Option<Vec<u8>>| view_text_cell(c)) == values@.map_values(
            |c: Option<Vec<u8>>| view_text_cell(c),
        ),
{
    let mut r: Vec<Option<Vec<u8>>> = Vec::new();
    let mut i: usize = 0;
    while i < values.len()
        invariant
            i <= values@.len(),
            r@.len() == i,
            forall|j: int|
                0 <= j < i ==> view_text_cell(#[trigger] r@[j]) == view_text_cell(values@[j]),
        decreases values@.len() - i,
    {
        r.push(crate::text::clone_opt_bytes(&values[i]));
        i = i + 1;
    }
    proof {
        assert(r@.map_values(|c: Option<Vec<u8>>| view_text_cell(c)) =~= values@.map_values(
            |c: Option<Vec<u8>>| view_text_cell(c),
        ));
    }
    r
}

fn clone_i64_cells(values: &Vec<Option<i64>>) -> (r: Vec<Option<i64>>)
    ensures
        r@ == values@,
{
    let mut r: Vec<Option<i64>> = Vec::new();
    let mut i: usize = 0;
    while i < values.len()
        invariant
            i <= values@.len(),
            r@ == values@.subrange(0, i as int),
        decreases values@.len() - i,
    {
        r.push(values[i]);
        i = i + 1;
        proof {
            assert(r@ =~= values@.subrange(0, i as int));
        }
    }
    proof {
        assert(r@ =~= values@);
    }
    r
}

impl ColumnData {
    /// A copy with an equal model.
    pub fn deep_copy(&self) -> (r: ColumnData)
        ensures
            r@ == self@,
    {
        match self {
            ColumnData::Utf8 { values } => ColumnData::Utf8 { values: clone_text_cells(values) },
            ColumnData::TimestampMillis { tz, values } => ColumnData::TimestampMillis {
                tz: crate::text::clone_opt_bytes(tz),
                values: clone_i64_cells(values),
            },
            ColumnData::TimestampMicros { tz, values } => ColumnData::TimestampMicros {
                tz: crate::text::clone_opt_bytes(tz),
                values: clone_i64_cells(values),
            },
        }
    }
}

impl Column {
    /// A copy with an equal model.
    pub fn deep_copy(&self) -> (r: Column)
        ensures
            r@ == self@,
    {
        Column {
            name: crate::text::clone_bytes(&self.name),
            nullable: self.nullable,
            data: self.data.deep_copy(),
        }
    }
}

impl Table {
    /// A copy with an equal model.
    pub fn deep_copy(&self) -> (r: Table)
        ensures
            r@ == self@,
    {
        let mut columns: Vec<Column> = Vec::new();
        let mut i: usize = 0;
        while i < self.columns.len()
            invariant
                i <= self.columns@.len(),
                columns@.len() == i,
                forall|j: int| 0 <= j < i ==> (#[trigger] columns@[j])@ == self.columns@[j]@,
            decreases self.columns@.len() - i,
        {
            columns.push(self.columns[i].deep_copy());
            i = i + 1;
        }
        let r = Table { columns, num_rows: self.num_rows };
        proof {
            assert(r@.columns =~= self@.columns);
            assert(r@ =~= self@);
        }
        r
    }
}

/// The structured input handed to the object-to-table conversion: either a
/// flat object (top-level keys with the textual form of each value) or
/// something that is not an object.
pub enum Structured {
    /// A flat object: each entry is a key and the textual form of its value.
    Object { entries: Vec<(Vec<u8>, Vec<u8>)> },
    /// Any non-object input.
    Other,
}

/// Convert a flat structured object to a one-row table whose columns are the
/// object's top-level keys, each stored as a nullable text column.  Fails
/// with a schema error if the input is not an object.
pub fn to_table(s: &Structured) -> (r: Result<Table, Error>)
    ensures
        r is Ok <==> s matches Structured::Object { .. },
        s matches Structured::Object { entries } ==> {
            let t = r->Ok_0@;
            &&& t.wf()
            &&& t.num_rows == 1
            &&& t.columns.len() == entries@.len()
            &&& forall|i: int|
                0 <= i < entries@.len() ==> {
                    let c = #[trigger] t.columns[i];
                    &&& c.name == entries@[i].0@
                    &&& c.nullable == true
                    &&& c.data == (ColumnDataView::Utf8 {
                        values: seq![Some(entries@[i].1@)],
                    })
                }
        },
        r is Err ==> r == Err::<Table, Error>(Error::Schema),
{
    match s {
        Structured::Object { entries } => {
            let mut columns: Vec<Column> = Vec::new();
            let mut i: usize = 0;
            while i < entries.len()
                invariant
                    i <= entries@.len(),
                    columns@.len() == i,
                    forall|j: int|
                        0 <= j < i ==> {
                            let c = (#[trigger] columns@[j])@;
                            &&& c.name == entries@[j].0@
                            &&& c.nullable == true
                            &&& c.data == (ColumnDataView::Utf8 {
                                values: seq![Some(entries@[j].1@)],
                            })
                        },
                decreases entries@.len() - i,
            {
                let (key, value) = &entries[i];
                let mut values: Vec<Option<Vec<u8>>> = Vec::new();
                values.push(Some(crate::text::clone_bytes(value)));
                let col = Column {
                    name: crate::text::clone_bytes(key),
                    nullable: true,
                    data: ColumnData::Utf8 { values },
                };
                proof {
                    assert(col@.data =~~= (ColumnDataView::Utf8 {
                        values: seq![Some(entries@[i as int].1@)],
                    }));
                }
                columns.push(col);
                i = i + 1;
            }
            Ok(Table { columns, num_rows: 1 })
        },
        Structured::Other => Err(Error::Schema),
    }
}

} // verus!
