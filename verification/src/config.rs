//! Shared configuration pieces.
//!
//! An [`Inputs`] entry tells an adapter where one value of its outbound
//! payload comes from: a literal, a metadata extension of the event, or a
//! column of the event's table, with an optional nested fallback.

use vstd::prelude::*;
use crate::table::{ColumnView, Table, TableView};

verus! {

/// Where one payload value comes from.
pub struct Inputs {
    /// A literal, an extension key, or a column name, by the flags below.
    pub value: Vec<u8>,
    /// The value is the literal itself.
    pub is_static: bool,
    /// The value is looked up in the event's extensions.
    pub is_extension: bool,
    /// Where to look when the lookup finds nothing.
    pub nested: Option<Box<Inputs>>,
}

/// First-match lookup among the extensions.
pub open spec fn spec_lookup_ext(exts: Seq<(Seq<u8>, Seq<u8>)>, key: Seq<u8>) -> Option<Seq<u8>>
    decreases exts.len(),
{
    if exts.len() == 0 {
        None
    } else if exts[0].0 == key {
        Some(exts[0].1)
    } else {
        spec_lookup_ext(exts.drop_first(), key)
    }
}

/// First-match lookup among the table's columns, by name.
pub open spec fn spec_lookup_col(cols: Seq<ColumnView>, name: Seq<u8>) -> Option<ColumnView>
    decreases cols.len(),
{
    if cols.len() == 0 {
        None
    } else if cols[0].name == name {
        Some(cols[0])
    } else {
        spec_lookup_col(cols.drop_first(), name)
    }
}

/// The first row's cell of a column, as text, if the cell is set.
pub open spec fn spec_first_cell(c: ColumnView) -> Option<Seq<u8>> {
    match c.data {
        crate::table::ColumnDataView::Utf8 { values } => values[0],
        crate::table::ColumnDataView::TimestampMillis { values, .. } => match values[0] {
            Some(v) => Some(crate::subject::spec_i64_digits(v)),
            None => None,
        },
        crate::table::ColumnDataView::TimestampMicros { values, .. } => match values[0] {
            Some(v) => Some(crate::subject::spec_i64_digits(v)),
            None => None,
        },
    }
}

/// What one lookup yields, before the nested fallback.
pub open spec fn spec_primary(inp: Inputs, t: TableView, exts: Seq<(Seq<u8>, Seq<u8>)>) -> Option<
    Seq<u8>,
> {
    if inp.is_static {
        Some(inp.value@)
    } else if inp.is_extension {
        spec_lookup_ext(exts, inp.value@)
    } else {
        match spec_lookup_col(t.columns, inp.value@) {
            Some(c) => if t.num_rows >= 1 {
                spec_first_cell(c)
            } else {
                None
            },
            None => None,
        }
    }
}

/// What extraction yields: the primary lookup, then the nested fallback.
pub open spec fn spec_extract(inp: Inputs, t: TableView, exts: Seq<(Seq<u8>, Seq<u8>)>) -> Option<
    Seq<u8>,
>
    decreases inp,
{
    match spec_primary(inp, t, exts) {
        Some(v) => Some(v),
        None => match inp.nested {
            Some(b) => spec_extract(*b, t, exts),
            None => None,
        },
    }
}

/// The data entries that a list of inputs extracts from an event: one entry
/// per input whose extraction finds a value, in input order.
pub open spec fn spec_data_pairs(
    inputs: Seq<(Vec<u8>, Inputs)>,
    t: TableView,
    exts: Seq<(Seq<u8>, Seq<u8>)>,
) -> Seq<(Seq<u8>, Seq<u8>)>
    decreases inputs.len(),
{
    if inputs.len() == 0 {
        Seq::empty()
    } else {
        let rest = spec_data_pairs(inputs.drop_first(), t, exts);
        match spec_extract(inputs[0].1, t, exts) {
            Some(v) => seq![(inputs[0].0@, v)] + rest,
            None => rest,
        }
    }
}

/// Extract the data entries a list of inputs describes from an event's
/// table and extensions.  Inputs whose extraction finds nothing contribute
/// no entry.
pub fn input_data(
    inputs: &Vec<(Vec<u8>, Inputs)>,
    t: &Table,
    exts: &Vec<(Vec<u8>, Vec<u8>)>,
) -> (r: Vec<(Vec<u8>, Vec<u8>)>)
    requires
        t.wf(),
    ensures
        crate::text::view_pairs(r@) == spec_data_pairs(
            inputs@,
            t@,
            crate::text::view_pairs(exts@),
        ),
{
    let r = input_data_from(inputs, 0, t, exts);
    proof {
        assert(inputs@.skip(0) =~= inputs@);
    }
    r
}

fn input_data_from(
    inputs: &Vec<(Vec<u8>, Inputs)>,
    from: usize,
    t: &Table,
    exts: &Vec<(Vec<u8>, Vec<u8>)>,
) -> (r: Vec<(Vec<u8>, Vec<u8>)>)
    requires
        from <= inputs@.len(),
        t.wf(),
    ensures
        crate::text::view_pairs(r@) == spec_data_pairs(
            inputs@.skip(from as int),
            t@,
            crate::text::view_pairs(exts@),
        ),
    decreases inputs@.len() - from,
{
    let ghost tail = inputs@.skip(from as int);
    if from == inputs.len() {
        let r: Vec<(Vec<u8>, Vec<u8>)> = Vec::new();
        proof {
            assert(tail =~= Seq::<(Vec<u8>, Inputs)>::empty());
            assert(crate::text::view_pairs(r@) =~= spec_data_pairs(
                tail,
                t@,
                crate::text::view_pairs(exts@),
            ));
        }
        r
    } else {
        proof {
            assert(tail[0] == inputs@[from as int]);
            assert(tail.drop_first() =~= inputs@.skip(from + 1));
        }
        let (key, input) = &inputs[from];
        let extracted = input.extract_from(t, exts);
        let ghost ext_view = crate::table::view_opt_bytes(extracted);
        let mut rest = input_data_from(inputs, from + 1, t, exts);
        match extracted {
            Some(v) => {
                let ghost rest_view = crate::text::view_pairs(rest@);
                rest.insert(0, (crate::text::clone_bytes(key), v));
                proof {
                    assert(crate::text::view_pairs(rest@) =~= seq![
                        (inputs@[from as int].0@, ext_view->0),
                    ] + rest_view);
                }
                rest
            },
            None => rest,
        }
    }
}

fn lookup_ext_from(exts: &Vec<(Vec<u8>, Vec<u8>)>, from: usize, key: &Vec<u8>) -> (r: Option<
    Vec<u8>,
>)
    requires
        from <= exts@.len(),
    ensures
        crate::table::view_opt_bytes(r) == spec_lookup_ext(
            crate::text::view_pairs(exts@).skip(from as int),
            key@,
        ),
    decreases exts@.len() - from,
{
    let ghost tail = crate::text::view_pairs(exts@).skip(from as int);
    if from == exts.len() {
        proof {
            assert(tail =~= Seq::<(Seq<u8>, Seq<u8>)>::empty());
        }
        None
    } else {
        proof {
            assert(tail[0] == (exts@[from as int].0@, exts@[from as int].1@));
            assert(tail.drop_first() =~= crate::text::view_pairs(exts@).skip(from + 1));
        }
        if crate::text::bytes_eq(&exts[from].0, key) {
            Some(crate::text::clone_bytes(&exts[from].1))
        } else {
            lookup_ext_from(exts, from + 1, key)
        }
    }
}

fn lookup_col_from(t: &Table, from: usize, name: &Vec<u8>) -> (r: Option<usize>)
    requires
        from <= t.columns@.len(),
    ensures
        match r {
            Some(i) => from <= i < t.columns@.len() && spec_lookup_col(
                t@.columns.skip(from as int),
                name@,
            ) == Some(t@.columns[i as int]),
            None => spec_lookup_col(t@.columns.skip(from as int), name@) is None,
        },
    decreases t.columns@.len() - from,
{
    let ghost tail = t@.columns.skip(from as int);
    if from == t.columns.len() {
        proof {
            assert(tail =~= Seq::<ColumnView>::empty());
        }
        None
    } else {
        proof {
            assert(tail[0] == t@.columns[from as int]);
            assert(tail.drop_first() =~= t@.columns.skip(from + 1));
        }
        if crate::text::bytes_eq(&t.columns[from].name, name) {
            Some(from)
        } else {
            lookup_col_from(t, from + 1, name)
        }
    }
}

impl Inputs {
    /// Extract this input's value from an event's table and extensions: a
    /// literal as it is, an extension or a first-row cell by lookup, and the
    /// nested fallback when the lookup finds nothing.
    pub fn extract_from(&self, t: &Table, exts: &Vec<(Vec<u8>, Vec<u8>)>) -> (r: Option<Vec<u8>>)
        requires
            t.wf(),
        ensures
            crate::table::view_opt_bytes(r) == spec_extract(
                *self,
                t@,
                crate::text::view_pairs(exts@),
            ),
        decreases *self,
    {
        let primary: Option<Vec<u8>> = if self.is_static {
            Some(crate::text::clone_bytes(&self.value))
        } else if self.is_extension {
            proof {
                assert(crate::text::view_pairs(exts@).skip(0) =~= crate::text::view_pairs(exts@));
            }
            lookup_ext_from(exts, 0, &self.value)
        } else {
            proof {
                assert(t@.columns.skip(0) =~= t@.columns);
            }
            match lookup_col_from(t, 0, &self.value) {
                Some(i) => {
                    if t.num_rows >= 1 {
                        let c = &t.columns[i];
                        proof {
                            assert(c@.data.len() == t@.num_rows);
                        }
                        match &c.data {
                            crate::table::ColumnData::Utf8 { values } => match &values[0] {
                                Some(b) => Some(crate::text::clone_bytes(b)),
                                None => None,
                            },
                            crate::table::ColumnData::TimestampMillis { values, .. } => match values[0] {
                                Some(v) => Some(crate::subject::i64_digits(v)),
                                None => None,
                            },
                            crate::table::ColumnData::TimestampMicros { values, .. } => match values[0] {
                                Some(v) => Some(crate::subject::i64_digits(v)),
                                None => None,
                            },
                        }
                    } else {
                        None
                    }
                },
                None => None,
            }
        };
        match primary {
            Some(v) => Some(v),
            None => match &self.nested {
                Some(b) => b.extract_from(t, exts),
                None => None,
            },
        }
    }
}

} // verus!
