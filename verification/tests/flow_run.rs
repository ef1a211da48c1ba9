//! End-to-end tests of the flow supervisor.

use flowgen::codec::table_of;
use flowgen::deltalake;
use flowgen::event::{ChannelMessage, EventBuilder};
use flowgen::file::Subscriber as FileSubscriber;
use flowgen::flow::{
    Builder, Config, Error, FlowConfig, FlowState, Source, SourceInput, Target,
};
use flowgen::jetstream;
use flowgen::table::{Column, ColumnData, Table};

fn file_source(path: &[u8]) -> Source {
    Source::File(FileSubscriber { path: path.to_vec(), batch_size: None, has_header: None })
}

fn nats_target() -> Target {
    Target::NatsJetstream(jetstream::Publisher {
        credentials: b"/etc/nats.creds".to_vec(),
        stream: b"FLOW".to_vec(),
        stream_description: None,
        subjects: vec![b"out.>".to_vec()],
        max_age: None,
    })
}

fn delta_target() -> Target {
    Target::Deltalake(deltalake::Writer {
        credentials: b"svc".to_vec(),
        path: b"gs://tables/orders".to_vec(),
        operation: deltalake::Operation::Append,
        predicate: None,
        create_options: deltalake::CreateOptions { create_if_not_exist: false, columns: None },
    })
}

#[test]
fn build_rejects_a_missing_source_path() {
    let config = Config {
        flow: FlowConfig { source: file_source(b""), targets: vec![nats_target()] },
    };
    assert!(matches!(Builder::new(config).build(), Err(Error::Config(_))));
}

#[test]
fn build_rejects_an_empty_target_list() {
    let config = Config { flow: FlowConfig { source: file_source(b"in.csv"), targets: vec![] } };
    assert!(matches!(Builder::new(config).build(), Err(Error::Config(_))));
}

#[test]
fn build_rejects_a_merge_writer_without_predicate() {
    let mut t = delta_target();
    if let Target::Deltalake(ref mut w) = t {
        w.operation = deltalake::Operation::Merge;
    }
    let config = Config { flow: FlowConfig { source: file_source(b"in.csv"), targets: vec![t] } };
    assert!(matches!(Builder::new(config).build(), Err(Error::Config(_))));
}

#[test]
fn two_records_reach_the_broker() {
    // Source `{"file": {"path": "in.csv"}}`, target a broker stream: a file
    // of two records under a header publishes exactly two chunk messages,
    // and the target emits exactly two broker messages, cleanly.
    let config = Config {
        flow: FlowConfig { source: file_source(b"in.csv"), targets: vec![nats_target()] },
    };
    let flow = Builder::new(config).build().unwrap();
    let report = flow
        .run(SourceInput::FileContents(b"id,name\n1,ada\n2,grace\n".to_vec()))
        .unwrap();
    assert_eq!(report.state, FlowState::Completed);
    assert!(report.clean);
    assert_eq!(report.lags, vec![0]);
    assert_eq!(report.outbound.len(), 2);
    assert_eq!(report.outbound[0].subject, b"filedrop.in.in.csv.0".to_vec());
    assert_eq!(report.outbound[1].subject, b"filedrop.in.in.csv.1".to_vec());
    // Each payload decodes back to its one-row, two-column table.
    let t0 = table_of(&report.outbound[0].payload).unwrap();
    assert_eq!(t0.num_rows, 1);
    assert_eq!(t0.columns.len(), 2);
    assert_eq!(t0.columns[0].name, b"id".to_vec());
    assert_eq!(t0.columns[1].name, b"name".to_vec());
    match &t0.columns[1].data {
        ColumnData::Utf8 { values } => assert_eq!(values, &vec![Some(b"ada".to_vec())]),
        _ => panic!("wrong column type"),
    }
    let t1 = table_of(&report.outbound[1].payload).unwrap();
    match &t1.columns[0].data {
        ColumnData::Utf8 { values } => assert_eq!(values, &vec![Some(b"2".to_vec())]),
        _ => panic!("wrong column type"),
    }
}

fn ms_event(stamp: Option<usize>) -> ChannelMessage {
    let table = Table {
        columns: vec![Column {
            name: b"at".to_vec(),
            nullable: true,
            data: ColumnData::TimestampMillis { tz: None, values: vec![Some(7)] },
        }],
        num_rows: 1,
    };
    let mut b = EventBuilder::new().data(table).subject(b"e".to_vec());
    if let Some(s) = stamp {
        b = b.current_task_id(s);
    }
    ChannelMessage::Event(b.build().unwrap())
}

#[test]
fn storage_target_acts_only_on_predecessor_stamps() {
    // Events stamped with the target's own stage id, with an older stage's,
    // or with none at all produce zero writes; only the immediate
    // predecessor's stamp is acted on.
    let config = Config {
        flow: FlowConfig {
            source: Source::NatsJetstream(jetstream::Subscriber {
                credentials: b"/etc/nats.creds".to_vec(),
                stream: b"S".to_vec(),
                subject: b"s.>".to_vec(),
                durable_name: b"d".to_vec(),
                batch_size: 10,
                delay_secs: None,
            }),
            targets: vec![delta_target()],
        },
    };
    let flow = Builder::new(config).build().unwrap();
    let report = flow
        .run(SourceInput::Messages(vec![
            ms_event(Some(1)),
            ms_event(None),
            ms_event(Some(0)),
            ms_event(Some(2)),
        ]))
        .unwrap();
    assert!(report.clean);
    assert_eq!(report.outbound.len(), 1);
    assert_eq!(report.outbound[0].subject, b"gs://tables/orders".to_vec());
    // The written table was upconverted to microseconds.
    let t = table_of(&report.outbound[0].payload).unwrap();
    match &t.columns[0].data {
        ColumnData::TimestampMicros { values, .. } => assert_eq!(values, &vec![Some(7000)]),
        _ => panic!("timestamps were not upconverted"),
    }
}

#[test]
fn overflowing_timestamp_is_dropped_not_written() {
    let table = Table {
        columns: vec![Column {
            name: b"at".to_vec(),
            nullable: true,
            data: ColumnData::TimestampMillis { tz: None, values: vec![Some(i64::MAX)] },
        }],
        num_rows: 1,
    };
    let e = EventBuilder::new()
        .data(table)
        .subject(b"e".to_vec())
        .current_task_id(0)
        .build()
        .unwrap();
    let config = Config {
        flow: FlowConfig { source: file_source(b"in.csv"), targets: vec![delta_target()] },
    };
    let flow = Builder::new(config).build().unwrap();
    let report = flow
        .run(SourceInput::Messages(vec![ChannelMessage::Event(e)]))
        .unwrap();
    assert!(!report.clean);
    assert_eq!(report.outbound.len(), 0);
}

#[test]
fn a_feed_past_the_bus_window_reports_lag_and_routes_the_rest() {
    // 1002 messages against a window of 1000: the target's first receive
    // lags by 2, and the 1000 retained messages are still routed.
    let mut feed = Vec::new();
    for _ in 0..1002 {
        feed.push(ms_event(Some(0)));
    }
    let config = Config {
        flow: FlowConfig { source: file_source(b"in.csv"), targets: vec![delta_target()] },
    };
    let flow = Builder::new(config).build().unwrap();
    let report = flow.run(SourceInput::Messages(feed)).unwrap();
    assert_eq!(report.lags, vec![2]);
    assert_eq!(report.outbound.len(), 1000);
    assert!(report.clean);
}

#[test]
fn every_target_sees_every_message() {
    let config = Config {
        flow: FlowConfig {
            source: file_source(b"in.csv"),
            targets: vec![nats_target(), delta_target()],
        },
    };
    let flow = Builder::new(config).build().unwrap();
    let report = flow
        .run(SourceInput::FileContents(b"id\n1\n".to_vec()))
        .unwrap();
    // The broker target republishes the chunk; the storage target skips it
    // (it only writes canonical events).
    assert_eq!(report.outbound.len(), 1);
    assert_eq!(report.lags, vec![0, 0]);
    assert!(report.clean);
}
