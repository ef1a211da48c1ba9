//! Tests of the adapters: subjects, file source and target, request
//! processor, enterprise-bus publisher, storage client.

use flowgen::bus::Bus;
use flowgen::config::Inputs;
use flowgen::csv::{csv_bytes_of, parse_records};
use flowgen::deltalake::{
    Client, ClientBuilder, Column as DeltaColumn, CreateOptions, DataType, Operation, Plan,
    PrimitiveType,
};
use flowgen::event::{Event, EventBuilder, ProducerEvent, TopicInfo};
use flowgen::file::{PublisherBuilder, Subscriber as FileSubscriber, Target as FileTarget};
use flowgen::http;
use flowgen::object_store;
use flowgen::render::template_plain;
use flowgen::salesforce;
use flowgen::subject::{file_subject, filedrop_subject, filename_of, i64_digits, salesforce_subject, u64_digits};
use flowgen::table::{Column, ColumnData, Table};

#[test]
fn digits_render_decimals() {
    assert_eq!(u64_digits(0), b"0".to_vec());
    assert_eq!(u64_digits(90210), b"90210".to_vec());
    assert_eq!(i64_digits(-42), b"-42".to_vec());
    assert_eq!(i64_digits(i64::MIN), b"-9223372036854775808".to_vec());
}

#[test]
fn filename_is_the_last_path_component() {
    assert_eq!(filename_of(&b"/data/in/in.csv".to_vec()), b"in.csv".to_vec());
    assert_eq!(filename_of(&b"in.csv".to_vec()), b"in.csv".to_vec());
    assert_eq!(filename_of(&b"/data/".to_vec()), b"".to_vec());
}

#[test]
fn subjects_follow_the_routing_convention() {
    assert_eq!(
        filedrop_subject(&b"in.csv.0".to_vec()),
        b"filedrop.in.in.csv.0".to_vec()
    );
    assert_eq!(
        salesforce_subject(&b"/event/Order__e".to_vec(), &b"ID7".to_vec()),
        b"salesforce.pubsub.in.event.order__e.ID7".to_vec()
    );
    assert_eq!(
        file_subject(&b"/out/report.csv".to_vec(), 17),
        b"report.csv.17".to_vec()
    );
}

#[test]
fn csv_parses_records_and_skips_empty_lines() {
    let records = parse_records(&b"id,name\r\n1,ada\n\n2,grace\n".to_vec());
    assert_eq!(
        records,
        vec![
            vec![b"id".to_vec(), b"name".to_vec()],
            vec![b"1".to_vec(), b"ada".to_vec()],
            vec![b"2".to_vec(), b"grace".to_vec()],
        ]
    );
}

#[test]
fn csv_serializes_a_table() {
    let t = Table {
        columns: vec![
            Column {
                name: b"id".to_vec(),
                nullable: true,
                data: ColumnData::Utf8 { values: vec![Some(b"1".to_vec()), None] },
            },
            Column {
                name: b"ts".to_vec(),
                nullable: true,
                data: ColumnData::TimestampMicros { tz: None, values: vec![Some(5), Some(-5)] },
            },
        ],
        num_rows: 2,
    };
    assert_eq!(csv_bytes_of(&t), b"id,ts\n1,5\n,-5\n".to_vec());
}

#[test]
fn file_source_publishes_one_chunk_per_record() {
    let config = FileSubscriber { path: b"/drop/in.csv".to_vec(), batch_size: None, has_header: None };
    let batch = config.subscribe(&b"id,name\n1,ada\n2,grace\n".to_vec());
    assert!(batch.clean);
    assert_eq!(batch.messages.len(), 2);
    match &batch.messages[0] {
        flowgen::event::ChannelMessage::File(fm) => {
            assert_eq!(fm.file_chunk, b"in.csv.0".to_vec());
            assert_eq!(fm.record_batch.num_rows, 1);
            assert_eq!(fm.record_batch.columns.len(), 2);
            assert_eq!(fm.record_batch.columns[0].name, b"id".to_vec());
            match &fm.record_batch.columns[1].data {
                ColumnData::Utf8 { values } => assert_eq!(values, &vec![Some(b"ada".to_vec())]),
                _ => panic!("wrong column type"),
            }
        },
        _ => panic!("expected a file chunk"),
    }
}

#[test]
fn file_source_skips_short_records() {
    let config = FileSubscriber { path: b"in.csv".to_vec(), batch_size: None, has_header: Some(true) };
    let batch = config.subscribe(&b"a,b\n1\n2,3\n".to_vec());
    assert!(!batch.clean);
    assert_eq!(batch.messages.len(), 1);
}

fn stamped_event(stamp: usize, cell: &[u8]) -> Event {
    let table = Table {
        columns: vec![Column {
            name: b"v".to_vec(),
            nullable: true,
            data: ColumnData::Utf8 { values: vec![Some(cell.to_vec())] },
        }],
        num_rows: 1,
    };
    EventBuilder::new()
        .data(table)
        .subject(b"t".to_vec())
        .current_task_id(stamp)
        .build()
        .unwrap()
}

#[test]
fn file_publisher_delivers_only_predecessor_events() {
    let mut bus: Bus<Event> = Bus::new(16);
    let rc = bus.subscribe();
    bus.publish(stamped_event(0, b"yes"));
    bus.publish(stamped_event(1, b"own stage"));
    bus.publish(stamped_event(0, b"also"));
    bus.close();
    let publisher = PublisherBuilder::new()
        .config(FileTarget { path: b"/out/out.csv".to_vec() })
        .receiver(rc)
        .current_task_id(1)
        .build()
        .unwrap();
    let report = publisher.publish(&bus).unwrap();
    assert_eq!(report.lagged, 0);
    assert_eq!(report.deliveries.len(), 2);
    assert_eq!(report.deliveries[0].payload, b"v\nyes\n".to_vec());
    assert_eq!(report.deliveries[1].payload, b"v\nalso\n".to_vec());
    // The delivery subject names the target file.
    assert!(report.deliveries[0].subject.starts_with(b"out.csv."));
}

#[test]
fn file_publisher_builder_requires_config_and_receiver() {
    match PublisherBuilder::new().build() {
        Err(flowgen::file::Error::MissingRequiredAttribute(s)) => assert_eq!(s, "config"),
        _ => panic!("expected the missing configuration to be named"),
    }
    match PublisherBuilder::new().config(FileTarget { path: b"o".to_vec() }).build() {
        Err(flowgen::file::Error::MissingRequiredAttribute(s)) => assert_eq!(s, "receiver"),
        _ => panic!("expected the missing receiver to be named"),
    }
}

#[test]
fn enterprise_publisher_builder_names_the_missing_attribute() {
    match salesforce::PublisherBuilder::new().build() {
        Err(salesforce::Error::MissingRequiredAttribute(s)) => assert_eq!(s, "service"),
        _ => panic!("expected the missing service to be named"),
    }
}

#[test]
fn event_builder_names_the_missing_attribute() {
    match EventBuilder::new().build() {
        Err(flowgen::event::Error::MissingRequiredAttribute(s)) => assert_eq!(s, "data"),
        _ => panic!("expected the missing payload to be named"),
    }
    match EventBuilder::new().data(Table::new()).build() {
        Err(flowgen::event::Error::MissingRequiredAttribute(s)) => assert_eq!(s, "subject"),
        _ => panic!("expected the missing subject to be named"),
    }
}

#[test]
fn request_processor_renders_the_endpoint_for_predecessor_events() {
    let config = http::ProcessorConfig {
        endpoint: b"https://api/items/{{key}}".to_vec(),
        payload: None,
        headers: None,
        credentials: None,
        inputs: Some(vec![(
            b"key".to_vec(),
            Inputs { value: b"v".to_vec(), is_static: false, is_extension: false, nested: None },
        )]),
    };
    let processor = http::Builder::new(config, 1).build().unwrap();
    let rendered = processor.process_step(&stamped_event(0, b"widget"));
    assert_eq!(rendered, Some(b"https://api/items/widget".to_vec()));
    // An event from any other stage has no effect.
    assert_eq!(processor.process_step(&stamped_event(1, b"widget")), None);
}

#[test]
fn request_processor_drains_the_bus() {
    let mut bus: Bus<Event> = Bus::new(8);
    let rc = bus.subscribe();
    bus.publish(stamped_event(0, b"a"));
    bus.publish(stamped_event(2, b"elsewhere"));
    bus.publish(stamped_event(0, b"b"));
    bus.close();
    let config = http::ProcessorConfig {
        endpoint: b"/q/{{key}}".to_vec(),
        payload: None,
        headers: None,
        credentials: None,
        inputs: Some(vec![(
            b"key".to_vec(),
            Inputs { value: b"v".to_vec(), is_static: false, is_extension: false, nested: None },
        )]),
    };
    let processor = http::Builder::new(config, 1).build().unwrap();
    let report = processor.process(&bus, rc).unwrap();
    assert!(report.clean);
    assert_eq!(report.lagged, 0);
    assert_eq!(report.endpoints, vec![b"/q/a".to_vec(), b"/q/b".to_vec()]);
}

#[test]
fn only_plain_templates_reach_the_engine() {
    // Substitutions and bounded blocks are plain.
    assert!(template_plain(&b"/q/{{key}}".to_vec()));
    assert!(template_plain(&b"{{#if a}}x{{/if}}".to_vec()));
    // The dangerous bytes only matter inside tags.
    assert!(template_plain(&b"a > b * (c) {{x}}".to_vec()));
    // Partial references, partial blocks, decorators and subexpressions
    // are rejected: the engine recurses on them without a depth guard.
    assert!(!template_plain(&b"{{> p}}".to_vec()));
    assert!(!template_plain(&b"{{#> p}}{{/p}}".to_vec()));
    assert!(!template_plain(&b"{{#*inline \"p\"}}{{/inline}}".to_vec()));
    assert!(!template_plain(&b"{{x (y z)}}".to_vec()));
    // So is a template past the block bound.
    let mut deep = Vec::new();
    for _ in 0..65 {
        deep.extend_from_slice(b"{{#if a}}");
    }
    for _ in 0..65 {
        deep.extend_from_slice(b"{{/if}}");
    }
    assert!(!template_plain(&deep));
}

#[test]
fn request_processor_rejects_a_partial_template() {
    let config = http::ProcessorConfig {
        endpoint: b"{{> part}}".to_vec(),
        payload: None,
        headers: None,
        credentials: None,
        inputs: None,
    };
    let processor = http::Builder::new(config, 1).build().unwrap();
    // The event is acted on, but the template never reaches the engine.
    assert_eq!(processor.process_step(&stamped_event(0, b"v")), None);
}

#[test]
fn enterprise_publisher_drops_events_under_an_unsafe_template() {
    let mut bus: Bus<Event> = Bus::new(8);
    let rc = bus.subscribe();
    bus.publish(stamped_event(0, b"v"));
    bus.close();
    let publisher = salesforce::PublisherBuilder::new()
        .service(salesforce::Service { endpoint: b"https://api.pubsub.example:443".to_vec() })
        .config(salesforce::Target {
            credentials: b"/etc/sfdc.json".to_vec(),
            topic: b"/event/Order__e".to_vec(),
            inputs: None,
            payload: b"{{#*inline \"p\"}}{{> q}}{{/inline}}{{> p}}".to_vec(),
        })
        .receiver(rc)
        .current_task_id(1)
        .build()
        .unwrap();
    let report = publisher.publish(&bus, &b"S".to_vec()).unwrap();
    assert!(!report.clean);
    assert_eq!(report.requests.len(), 0);
}

#[test]
fn input_extraction_covers_all_sources() {
    let e = stamped_event(0, b"cell");
    let exts = vec![(b"trace".to_vec(), b"abc".to_vec())];
    let fixed = Inputs {
        value: b"literal".to_vec(),
        is_static: true,
        is_extension: false,
        nested: None,
    };
    assert_eq!(fixed.extract_from(&e.data, &exts), Some(b"literal".to_vec()));
    let ext = Inputs {
        value: b"trace".to_vec(),
        is_static: false,
        is_extension: true,
        nested: None,
    };
    assert_eq!(ext.extract_from(&e.data, &exts), Some(b"abc".to_vec()));
    let col = Inputs { value: b"v".to_vec(), is_static: false, is_extension: false, nested: None };
    assert_eq!(col.extract_from(&e.data, &exts), Some(b"cell".to_vec()));
    let fallback = Inputs {
        value: b"absent".to_vec(),
        is_static: false,
        is_extension: false,
        nested: Some(Box::new(ext)),
    };
    assert_eq!(fallback.extract_from(&e.data, &exts), Some(b"abc".to_vec()));
    let missing = Inputs {
        value: b"absent".to_vec(),
        is_static: false,
        is_extension: false,
        nested: None,
    };
    assert_eq!(missing.extract_from(&e.data, &exts), None);
}

#[test]
fn enterprise_publisher_renders_one_request_per_acted_event() {
    let mut bus: Bus<Event> = Bus::new(16);
    let rc = bus.subscribe();
    bus.publish(stamped_event(0, b"alpha"));
    bus.publish(stamped_event(3, b"ignored"));
    bus.close();
    let publisher = salesforce::PublisherBuilder::new()
        .service(salesforce::Service { endpoint: b"https://api.pubsub.example:443".to_vec() })
        .config(salesforce::Target {
            credentials: b"/etc/sfdc.json".to_vec(),
            topic: b"/event/Order__e".to_vec(),
            inputs: Some(vec![(
                b"name".to_vec(),
                Inputs {
                    value: b"v".to_vec(),
                    is_static: false,
                    is_extension: false,
                    nested: None,
                },
            )]),
            payload: b"{\"Name\":\"{{name}}\"}".to_vec(),
        })
        .receiver(rc)
        .current_task_id(1)
        .build()
        .unwrap();
    let report = publisher.publish(&bus, &b"SCHEMA1".to_vec()).unwrap();
    assert!(report.clean);
    assert_eq!(report.lagged, 0);
    assert_eq!(report.requests.len(), 1);
    assert_eq!(report.requests[0].topic_name, b"/event/Order__e".to_vec());
    assert_eq!(report.requests[0].events.len(), 1);
    assert_eq!(report.requests[0].events[0].schema_id, b"SCHEMA1".to_vec());
    assert_eq!(
        report.requests[0].events[0].payload,
        b"{\"Name\":\"alpha\"}".to_vec()
    );
}

#[test]
fn producer_event_serializes_length_prefixed() {
    let pe = ProducerEvent { id: b"I".to_vec(), schema_id: b"S".to_vec(), payload: b"PP".to_vec() };
    let bytes = pe.to_bytes();
    let mut expected = Vec::new();
    expected.extend_from_slice(&1u64.to_le_bytes());
    expected.push(b'I');
    expected.extend_from_slice(&1u64.to_le_bytes());
    expected.push(b'S');
    expected.extend_from_slice(&2u64.to_le_bytes());
    expected.extend_from_slice(b"PP");
    assert_eq!(bytes, expected);
}

#[test]
fn fetch_normalizes_into_a_bus_message() {
    let msg = salesforce::fetch_to_message(
        TopicInfo { topic_name: b"/event/X__e".to_vec(), schema_id: b"S".to_vec() },
        vec![None, Some(ProducerEvent { id: b"1".to_vec(), schema_id: b"S".to_vec(), payload: Vec::new() })],
    );
    match msg {
        flowgen::event::ChannelMessage::SalesforcePubsub(m) => {
            assert_eq!(m.topic_info.topic_name, b"/event/X__e".to_vec());
            assert_eq!(m.events.len(), 2);
            assert!(m.events[0].is_none());
        },
        _ => panic!("expected an enterprise-bus message"),
    }
}

fn object_source() -> object_store::Subscriber {
    object_store::SubscriberBuilder::new()
        .config(object_store::Source {
            credentials: b"/etc/nats.creds".to_vec(),
            bucket: b"drops".to_vec(),
            stream: b"S".to_vec(),
            subject: b"s.>".to_vec(),
            durable_name: b"d".to_vec(),
            batch_size: None,
            delay_secs: None,
            has_header: None,
        })
        .current_task_id(0)
        .build()
        .unwrap()
}

#[test]
fn object_store_source_normalizes_each_object_into_chunks() {
    let batch = object_source()
        .subscribe(vec![
            (b"one.csv".to_vec(), b"a,b\n1,2\n".to_vec()),
            (b"two.csv".to_vec(), b"x\n7\n8\n".to_vec()),
        ])
        .unwrap();
    assert!(batch.clean);
    assert_eq!(batch.messages.len(), 3);
    match &batch.messages[0] {
        flowgen::event::ChannelMessage::File(fm) => {
            assert_eq!(fm.file_chunk, b"one.csv.0".to_vec());
            assert_eq!(fm.record_batch.num_rows, 1);
            assert_eq!(fm.record_batch.columns.len(), 2);
            assert_eq!(fm.record_batch.columns[0].name, b"a".to_vec());
            match &fm.record_batch.columns[1].data {
                ColumnData::Utf8 { values } => assert_eq!(values, &vec![Some(b"2".to_vec())]),
                _ => panic!("wrong column type"),
            }
        },
        _ => panic!("expected a file chunk"),
    }
    match &batch.messages[2] {
        flowgen::event::ChannelMessage::File(fm) => {
            assert_eq!(fm.file_chunk, b"two.csv.1".to_vec());
            match &fm.record_batch.columns[0].data {
                ColumnData::Utf8 { values } => assert_eq!(values, &vec![Some(b"8".to_vec())]),
                _ => panic!("wrong column type"),
            }
        },
        _ => panic!("expected a file chunk"),
    }
}

#[test]
fn object_store_source_flags_skipped_records() {
    let batch = object_source()
        .subscribe(vec![(b"bad.csv".to_vec(), b"a,b\n1\n".to_vec())])
        .unwrap();
    assert!(!batch.clean);
    assert_eq!(batch.messages.len(), 0);
}

#[test]
fn object_store_builder_requires_a_config() {
    match object_store::SubscriberBuilder::new().build() {
        Err(object_store::Error::MissingRequiredAttribute(s)) => assert_eq!(s, "config"),
        _ => panic!("expected the missing configuration to be named"),
    }
}

fn storage_client(create: Option<CreateOptions>) -> Client {
    let mut b = ClientBuilder::new()
        .credentials(b"svc-account".to_vec())
        .path(b"gs://tables/orders".to_vec());
    if let Some(co) = create {
        b = b.create_options(co);
    }
    b.build().unwrap()
}

#[test]
fn storage_builder_requires_credentials_and_path() {
    // The missing attribute is named, the credentials first.
    match ClientBuilder::new().build() {
        Err(flowgen::deltalake::Error::MissingRequiredAttribute(s)) => {
            assert_eq!(s, "credentials")
        },
        _ => panic!("expected the missing credentials to be named"),
    }
    match ClientBuilder::new().path(b"p".to_vec()).build() {
        Err(flowgen::deltalake::Error::MissingRequiredAttribute(s)) => {
            assert_eq!(s, "credentials")
        },
        _ => panic!("expected the missing credentials to be named"),
    }
    match ClientBuilder::new().credentials(b"c".to_vec()).build() {
        Err(flowgen::deltalake::Error::MissingRequiredAttribute(s)) => assert_eq!(s, "path"),
        _ => panic!("expected the missing path to be named"),
    }
}

#[test]
fn storage_connect_uses_an_open_table() {
    let (client, plan) = storage_client(None).connect(true);
    assert!(matches!(plan, Plan::UseExisting));
    let _ = client;
}

#[test]
fn storage_connect_creates_with_translated_schema() {
    let co = CreateOptions {
        create_if_not_exist: true,
        columns: Some(vec![DeltaColumn {
            name: b"id".to_vec(),
            data_type: DataType::Utf8,
            nullable: false,
        }]),
    };
    let (_, plan) = storage_client(Some(co)).connect(false);
    match plan {
        Plan::Create(fields) => {
            assert_eq!(fields.len(), 1);
            assert_eq!(fields[0].name, b"id".to_vec());
            assert_eq!(fields[0].data_type, PrimitiveType::String);
            assert!(!fields[0].nullable);
        },
        _ => panic!("expected a creation plan"),
    }
}

#[test]
fn storage_connect_without_permission_stays_without_table() {
    let co = CreateOptions { create_if_not_exist: false, columns: None };
    let (_, plan) = storage_client(Some(co)).connect(false);
    assert!(matches!(plan, Plan::NoTable));
    let (_, plan2) = storage_client(None).connect(false);
    assert!(matches!(plan2, Plan::NoTable));
}

#[test]
fn storage_operation_defaults_to_append() {
    assert_eq!(Operation::default(), Operation::Append);
}

#[test]
fn event_builder_requires_data_and_subject() {
    assert!(EventBuilder::new().build().is_err());
    assert!(EventBuilder::new().data(Table::new()).build().is_err());
    let e = EventBuilder::new()
        .data(Table::new())
        .subject(b"s".to_vec())
        .extension(b"k".to_vec(), b"v".to_vec())
        .build()
        .unwrap();
    assert_eq!(e.subject, b"s".to_vec());
    assert_eq!(e.extensions, vec![(b"k".to_vec(), b"v".to_vec())]);
    assert!(e.current_task_id.is_none());
}
