//! Tests of the columnar table model and its byte codec.

use flowgen::codec::{bytes_of, table_of};
use flowgen::table::{to_table, Column, ColumnData, Structured, Table};

fn sample_table() -> Table {
    Table {
        columns: vec![
            Column {
                name: b"id".to_vec(),
                nullable: true,
                data: ColumnData::Utf8 {
                    values: vec![Some(b"1".to_vec()), None, Some(b"3".to_vec())],
                },
            },
            Column {
                name: b"seen_at".to_vec(),
                nullable: false,
                data: ColumnData::TimestampMillis {
                    tz: Some(b"UTC".to_vec()),
                    values: vec![Some(1000), Some(-7), None],
                },
            },
            Column {
                name: b"sent_at".to_vec(),
                nullable: true,
                data: ColumnData::TimestampMicros {
                    tz: None,
                    values: vec![None, Some(i64::MIN), Some(i64::MAX)],
                },
            },
        ],
        num_rows: 3,
    }
}

#[test]
fn codec_round_trip_preserves_schema_and_cells() {
    let t = sample_table();
    let bytes = bytes_of(&t);
    let back = table_of(&bytes).unwrap();
    assert_eq!(back.num_rows, 3);
    assert_eq!(back.columns.len(), 3);
    assert_eq!(back.columns[0].name, b"id".to_vec());
    assert!(back.columns[0].nullable);
    match &back.columns[0].data {
        ColumnData::Utf8 { values } => {
            assert_eq!(values, &vec![Some(b"1".to_vec()), None, Some(b"3".to_vec())]);
        },
        _ => panic!("wrong column type"),
    }
    assert_eq!(back.columns[1].name, b"seen_at".to_vec());
    assert!(!back.columns[1].nullable);
    match &back.columns[1].data {
        ColumnData::TimestampMillis { tz, values } => {
            assert_eq!(tz, &Some(b"UTC".to_vec()));
            assert_eq!(values, &vec![Some(1000), Some(-7), None]);
        },
        _ => panic!("wrong column type"),
    }
    match &back.columns[2].data {
        ColumnData::TimestampMicros { tz, values } => {
            assert!(tz.is_none());
            assert_eq!(values, &vec![None, Some(i64::MIN), Some(i64::MAX)]);
        },
        _ => panic!("wrong column type"),
    }
    // The second trip is byte-stable.
    assert_eq!(bytes_of(&back), bytes);
}

#[test]
fn codec_round_trip_empty_table() {
    let t = Table::new();
    let bytes = bytes_of(&t);
    let back = table_of(&bytes).unwrap();
    assert_eq!(back.columns.len(), 0);
    assert_eq!(back.num_rows, 0);
}

#[test]
fn decoding_garbage_fails() {
    assert!(table_of(&b"not a table".to_vec()).is_err());
    assert!(table_of(&Vec::new()).is_err());
    // A valid stream with a trailing byte must be rejected.
    let mut bytes = bytes_of(&sample_table());
    bytes.push(0);
    assert!(table_of(&bytes).is_err());
}

#[test]
fn precision_adjustment_upconverts_millis_once() {
    let mut t = sample_table();
    t.adjust_data_precision().unwrap();
    match &t.columns[1].data {
        ColumnData::TimestampMicros { tz, values } => {
            assert_eq!(tz, &Some(b"UTC".to_vec()));
            assert_eq!(values, &vec![Some(1_000_000), Some(-7000), None]);
        },
        _ => panic!("millisecond column was not upconverted"),
    }
    // Text and microsecond columns pass through unchanged.
    match &t.columns[0].data {
        ColumnData::Utf8 { values } => {
            assert_eq!(values, &vec![Some(b"1".to_vec()), None, Some(b"3".to_vec())]);
        },
        _ => panic!("wrong column type"),
    }
}

#[test]
fn precision_adjustment_is_idempotent() {
    let mut once = sample_table();
    once.adjust_data_precision().unwrap();
    let mut twice = sample_table();
    twice.adjust_data_precision().unwrap();
    twice.adjust_data_precision().unwrap();
    assert_eq!(bytes_of(&once), bytes_of(&twice));
}

#[test]
fn precision_adjustment_rejects_overflow() {
    let mut t = Table {
        columns: vec![Column {
            name: b"ts".to_vec(),
            nullable: true,
            data: ColumnData::TimestampMillis { tz: None, values: vec![Some(i64::MAX)] },
        }],
        num_rows: 1,
    };
    let before = bytes_of(&t);
    assert_eq!(t.adjust_data_precision(), Err(flowgen::table::Error::Conversion));
    // The table is untouched on failure.
    assert_eq!(bytes_of(&t), before);
}

#[test]
fn object_converts_to_one_row_table() {
    let s = Structured::Object {
        entries: vec![
            (b"city".to_vec(), b"\"berlin\"".to_vec()),
            (b"zip".to_vec(), b"10115".to_vec()),
        ],
    };
    let t = to_table(&s).unwrap();
    assert_eq!(t.num_rows, 1);
    assert_eq!(t.columns.len(), 2);
    assert_eq!(t.columns[0].name, b"city".to_vec());
    assert!(t.columns[0].nullable);
    match &t.columns[0].data {
        ColumnData::Utf8 { values } => assert_eq!(values, &vec![Some(b"\"berlin\"".to_vec())]),
        _ => panic!("wrong column type"),
    }
    assert_eq!(t.columns[1].name, b"zip".to_vec());
}

#[test]
fn non_object_is_a_schema_error() {
    assert!(matches!(
        to_table(&Structured::Other),
        Err(flowgen::table::Error::Schema)
    ));
}

#[test]
fn table_to_bytes_matches_free_function() {
    let t = sample_table();
    assert_eq!(t.to_bytes(), bytes_of(&t));
}
