//! The flat-file adapters.
//!
//! The file source parses a file's contents into comma-separated records
//! and publishes one chunk per record, each a one-row table whose columns
//! come from the header; the chunk is identified by the file's name and the
//! record's ordinal.  The file publisher drains the bus and, for each event
//! its predecessor stage produced, serializes the event's table back into
//! comma-separated records under a subject naming the target file and the
//! delivery time.  Reading and writing the files themselves happens at the
//! edge of the program.

use vstd::prelude::*;
use crate::bus::{Bus, Receiver, Recv};
use crate::csv::{spec_records, spec_csv_of};
use crate::event::{
    ChannelMessage, ChannelMessageView, Event, EventView, FileMessage, FileMessageView,
    spec_acted, spec_acts_on,
};
use crate::subject::{spec_filename_of, spec_u64_digits, spec_file_subject};
use crate::table::{Column, ColumnData, ColumnDataView, ColumnView, Table, TableView};

verus! {

/// Errors raised while building or running the file adapters.
#[derive(Debug)]
pub enum Error {
    /// A required attribute was not provided to the builder.
    MissingRequiredAttribute(String),
}

/// Configuration of the file source.
pub struct Subscriber {
    /// The file to read.
    pub path: Vec<u8>,
    /// How many records a fetch takes at the edge of the program.
    pub batch_size: Option<usize>,
    /// Whether the file starts with a header record naming the columns.
    /// Absent means yes.
    pub has_header: Option<bool>,
}

/// Configuration of the file target.
pub struct Target {
    /// The file to write.
    pub path: Vec<u8>,
}

/// The one-row table carrying one record, under the given column names.
pub open spec fn spec_row_table(names: Seq<Seq<u8>>, rec: Seq<Seq<u8>>) -> TableView {
    TableView {
        columns: Seq::new(
            names.len(),
            |c: int|
                ColumnView {
                    name: names[c],
                    nullable: true,
                    data: ColumnDataView::Utf8 { values: seq![Some(rec[c])] },
                },
        ),
        num_rows: 1,
    }
}

/// The chunk id of one record: the file's name and the record's ordinal.
pub open spec fn spec_chunk_id(path: Seq<u8>, ordinal: nat) -> Seq<u8> {
    spec_filename_of(path) + seq!['.' as u8] + spec_u64_digits(ordinal)
}

/// Whether a delivery subject names the target file (with some delivery
/// timestamp).
pub open spec fn spec_is_delivery_subject(subject: Seq<u8>, path: Seq<u8>) -> bool {
    exists|ts: i64| subject == spec_file_subject(path, ts)
}

/// The messages the records from `i` on produce: one chunk per record whose
/// field count matches the header; other records carry no chunk.
pub open spec fn spec_source_msgs_from(
    path: Seq<u8>,
    names: Seq<Seq<u8>>,
    recs: Seq<Seq<Seq<u8>>>,
    i: int,
    start: int,
) -> Seq<ChannelMessageView>
    decreases recs.len() - i,
{
    if i < start || i >= recs.len() {
        Seq::empty()
    } else {
        let rest = spec_source_msgs_from(path, names, recs, i + 1, start);
        if recs[i].len() == names.len() {
            seq![
                ChannelMessageView::File(
                    FileMessageView {
                        record_batch: spec_row_table(names, recs[i]),
                        file_chunk: spec_chunk_id(path, (i - start) as nat),
                    },
                ),
            ] + rest
        } else {
            rest
        }
    }
}

/// The column names the source uses: the header record, or ordinals when
/// the file has no header.
pub open spec fn spec_source_names(first: Seq<Seq<u8>>, has_header: bool) -> Seq<Seq<u8>> {
    if has_header {
        first
    } else {
        Seq::new(first.len(), |c: int| spec_u64_digits(c as nat))
    }
}

/// All messages a file's contents produce.
pub open spec fn spec_source_msgs(path: Seq<u8>, contents: Seq<u8>, has_header: bool) -> Seq<
    ChannelMessageView,
> {
    let recs = spec_records(contents);
    if recs.len() == 0 {
        Seq::empty()
    } else {
        let names = spec_source_names(recs[0], has_header);
        let start: int = if has_header {
            1
        } else {
            0
        };
        spec_source_msgs_from(path, names, recs, start, start)
    }
}

/// Whether every record matched the header: nothing was skipped.
pub open spec fn spec_source_clean(contents: Seq<u8>, has_header: bool) -> bool {
    let recs = spec_records(contents);
    recs.len() == 0 || {
        let names = spec_source_names(recs[0], has_header);
        let start: int = if has_header {
            1
        } else {
            0
        };
        forall|i: int| start <= i < recs.len() ==> (#[trigger] recs[i]).len() == names.len()
    }
}

/// What one run of the file source produced.
pub struct SourceBatch {
    /// The chunk messages, in record order.
    pub messages: Vec<ChannelMessage>,
    /// Whether every record matched the header.
    pub clean: bool,
}

impl Subscriber {
    /// Whether the configured file starts with a header record.
    pub open spec fn spec_has_header(&self) -> bool {
        match self.has_header {
            Some(b) => b,
            None => true,
        }
    }

    /// Parse a file's contents into chunk messages: one one-row table per
    /// record, with columns named by the header, identified by the file's
    /// name and the record's ordinal.  Records whose field count does not
    /// match the header are skipped, and the batch says so.
    pub fn subscribe(&self, contents: &Vec<u8>) -> (r: SourceBatch)
        ensures
            r.messages@.map_values(|m: ChannelMessage| m@) == spec_source_msgs(
                self.path@,
                contents@,
                self.spec_has_header(),
            ),
            r.clean == spec_source_clean(contents@, self.spec_has_header()),
    {
        let has_header = match self.has_header {
            Some(b) => b,
            None => true,
        };
        let records = crate::csv::parse_records(contents);
        let ghost recs = crate::csv::spec_records(contents@);
        if records.len() == 0 {
            let r = SourceBatch { messages: Vec::new(), clean: true };
            proof {
                assert(r.messages@.map_values(|m: ChannelMessage| m@) =~= spec_source_msgs(
                    self.path@,
                    contents@,
                    self.spec_has_header(),
                ));
            }
            return r;
        }
        let names: Vec<Vec<u8>> = if has_header {
            clone_record(&records[0])
        } else {
            ordinal_names(records[0].len())
        };
        proof {
            assert(recs[0] == records@[0]@.map_values(|f: Vec<u8>| f@));
            assert(names@.map_values(|f: Vec<u8>| f@) == spec_source_names(
                recs[0],
                self.spec_has_header(),
            ));
        }
        let start: usize = if has_header {
            1
        } else {
            0
        };
        let mut clean = true;
        let messages = self.collect_from(&names, &records, start, start, &mut clean);
        SourceBatch { messages, clean }
    }

    fn collect_from(
        &self,
        names: &Vec<Vec<u8>>,
        records: &Vec<Vec<Vec<u8>>>,
        i: usize,
        start: usize,
        clean: &mut bool,
    ) -> (r: Vec<ChannelMessage>)
        requires
            start <= i,
        ensures
            r@.map_values(|m: ChannelMessage| m@) == spec_source_msgs_from(
                self.path@,
                names@.map_values(|f: Vec<u8>| f@),
                crate::csv::view_records(records@),
                i as int,
                start as int,
            ),
            *final(clean) == (*old(clean) && (forall|j: int|
                i <= j < records@.len() ==> (#[trigger] crate::csv::view_records(records@)[j]).len()
                    == names@.len())),
        decreases records@.len() - i,
    {
        let ghost recs = crate::csv::view_records(records@);
        let ghost names_v = names@.map_values(|f: Vec<u8>| f@);
        if i >= records.len() {
            let r: Vec<ChannelMessage> = Vec::new();
            proof {
                assert(r@.map_values(|m: ChannelMessage| m@) =~= spec_source_msgs_from(
                    self.path@,
                    names_v,
                    recs,
                    i as int,
                    start as int,
                ));
            }
            r
        } else {
            let rec = &records[i];
            proof {
                assert(recs[i as int] == records@[i as int]@.map_values(|f: Vec<u8>| f@));
            }
            if rec.len() == names.len() {
                let table = row_table(names, rec);
                let ordinal = i - start;
                let digits = crate::subject::u64_digits(ordinal as u64);
                let mut chunk = crate::subject::filename_of(&self.path);
                chunk.push('.' as u8);
                crate::text::append_bytes(&mut chunk, &digits);
                proof {
                    assert(chunk@ =~= spec_chunk_id(self.path@, (i - start) as nat));
                }
                let msg = ChannelMessage::File(FileMessage { record_batch: table, file_chunk: chunk });
                let mut rest = self.collect_from(names, records, i + 1, start, clean);
                let ghost rest_view = rest@.map_values(|m: ChannelMessage| m@);
                rest.insert(0, msg);
                proof {
                    assert(rest@.map_values(|m: ChannelMessage| m@) =~= seq![
                        ChannelMessageView::File(
                            FileMessageView {
                                record_batch: spec_row_table(names_v, recs[i as int]),
                                file_chunk: spec_chunk_id(self.path@, (i - start) as nat),
                            },
                        ),
                    ] + rest_view);
                }
                rest
            } else {
                *clean = false;
                let rest = self.collect_from(names, records, i + 1, start, clean);
                proof {
                    assert(recs[i as int].len() != names_v.len());
                }
                rest
            }
        }
    }
}

fn clone_record(rec: &Vec<Vec<u8>>) -> (r: Vec<Vec<u8>>)
    ensures
        r@.map_values(|f: Vec<u8>| f@) == rec@.map_values(|f: Vec<u8>| f@),
{
    let mut r: Vec<Vec<u8>> = Vec::new();
    let mut i: usize = 0;
    while i < rec.len()
        invariant
            i <= rec@.len(),
            r@.len() == i,
            forall|j: int| 0 <= j < i ==> (#[trigger] r@[j])@ == rec@[j]@,
        decreases rec@.len() - i,
    {
        r.push(crate::text::clone_bytes(&rec[i]));
        i = i + 1;
    }
    proof {
        assert(r@.map_values(|f: Vec<u8>| f@) =~= rec@.map_values(|f: Vec<u8>| f@));
    }
    r
}

fn ordinal_names(n: usize) -> (r: Vec<Vec<u8>>)
    ensures
        r@.map_values(|f: Vec<u8>| f@) == Seq::new(n as nat, |c: int| spec_u64_digits(c as nat)),
{
    let mut r: Vec<Vec<u8>> = Vec::new();
    let mut i: usize = 0;
    while i < n
        invariant
            i <= n,
            r@.len() == i,
            forall|j: int| 0 <= j < i ==> (#[trigger] r@[j])@ == spec_u64_digits(j as nat),
        decreases n - i,
    {
        r.push(crate::subject::u64_digits(i as u64));
        i = i + 1;
    }
    proof {
        assert(r@.map_values(|f: Vec<u8>| f@) =~= Seq::new(
            n as nat,
            |c: int| spec_u64_digits(c as nat),
        ));
    }
    r
}

fn row_table(names: &Vec<Vec<u8>>, rec: &Vec<Vec<u8>>) -> (t: Table)
    requires
        rec@.len() == names@.len(),
    ensures
        t@ == spec_row_table(
            names@.map_values(|f: Vec<u8>| f@),
            rec@.map_values(|f: Vec<u8>| f@),
        ),
        t.wf(),
{
    let mut columns: Vec<Column> = Vec::new();
    let mut c: usize = 0;
    let ghost names_v = names@.map_values(|f: Vec<u8>| f@);
    let ghost rec_v = rec@.map_values(|f: Vec<u8>| f@);
    while c < names.len()
        invariant
            c <= names@.len(),
            rec@.len() == names@.len(),
            names_v == names@.map_values(|f: Vec<u8>| f@),
            rec_v == rec@.map_values(|f: Vec<u8>| f@),
            columns@.len() == c,
            forall|j: int|
                0 <= j < c ==> (#[trigger] columns@[j])@ == (ColumnView {
                    name: names_v[j],
                    nullable: true,
                    data: ColumnDataView::Utf8 { values: seq![Some(rec_v[j])] },
                }),
        decreases names@.len() - c,
    {
        let mut values: Vec<Option<Vec<u8>>> = Vec::new();
        values.push(Some(crate::text::clone_bytes(&rec[c])));
        let col = Column {
            name: crate::text::clone_bytes(&names[c]),
            nullable: true,
            data: ColumnData::Utf8 { values },
        };
        proof {
            assert(col@ =~~= (ColumnView {
                name: names_v[c as int],
                nullable: true,
                data: ColumnDataView::Utf8 { values: seq![Some(rec_v[c as int])] },
            }));
        }
        columns.push(col);
        c = c + 1;
    }
    let t = Table { columns, num_rows: 1 };
    proof {
        assert(t@.columns =~= spec_row_table(names_v, rec_v).columns);
        assert(t@ =~= spec_row_table(names_v, rec_v));
    }
    t
}

/// One delivery of the file target: what is written, and under which
/// subject it is reported.
pub struct Delivery {
    /// The subject naming the target file and the delivery time.
    pub subject: Vec<u8>,
    /// The file contents: the event's table as comma-separated records.
    pub payload: Vec<u8>,
}

/// What one run of the file publisher produced.
pub struct PublishReport {
    /// The deliveries, in arrival order of the events acted on.
    pub deliveries: Vec<Delivery>,
    /// How many messages this subscriber lost to the bus's bounded window.
    pub lagged: u64,
}

/// The file target: writes each event its predecessor stage produced.
pub struct Publisher {
    config: Target,
    rx: Receiver,
    current_task_id: usize,
}

impl Publisher {
    /// The configured target file.
    pub closed spec fn spec_path(&self) -> Seq<u8> {
        self.config.path@
    }

    /// The stage id of this target.
    pub closed spec fn spec_current_task_id(&self) -> usize {
        self.current_task_id
    }

    /// Where this target's receiver stands in the bus's message sequence.
    pub closed spec fn spec_cursor(&self) -> nat {
        self.rx.spec_cursor()
    }

    /// Drain the bus: every event stamped by this stage's immediate
    /// predecessor is serialized as comma-separated records and delivered
    /// under a subject naming the target file and the delivery time; every
    /// other message is skipped.  A receiver that fell behind the bus's
    /// window reports how much it lost and carries on.
    pub fn publish(self, bus: &Bus<Event>) -> (r: Result<PublishReport, Error>)
        requires
            bus.wf(),
            bus.spec_closed(),
            self.spec_cursor() == 0,
            forall|i: int|
                0 <= i < bus.spec_history().len() ==> (#[trigger] bus.spec_history()[i]).data.wf(),
        ensures
            r matches Ok(rep) ==> {
                let acted = spec_acted(
                    bus.spec_history().skip(bus.spec_first() as int),
                    self.spec_current_task_id() as nat,
                );
                &&& rep.lagged == bus.spec_first()
                &&& rep.deliveries@.len() == acted.len()
                &&& forall|i: int|
                    0 <= i < acted.len() ==> (#[trigger] rep.deliveries@[i]).payload@
                        == spec_csv_of(acted[i].data)
                &&& forall|i: int|
                    0 <= i < acted.len() ==> spec_is_delivery_subject(
                        (#[trigger] rep.deliveries@[i]).subject@,
                        self.spec_path(),
                    )
            },
            r is Ok,
    {
        let task = self.current_task_id;
        let mut rc = self.rx;
        let mut deliveries: Vec<Delivery> = Vec::new();
        let mut lagged: u64 = 0;
        let mut done = false;
        let ghost hist = bus.spec_history();
        let ghost first = bus.spec_first();
        proof {
            assert(spec_acted(Seq::<EventView>::empty(), task as nat) =~= Seq::<
                EventView,
            >::empty());
        }
        while !done
            invariant
                bus.wf(),
                bus.spec_closed(),
                hist == bus.spec_history(),
                first == bus.spec_first(),
                forall|i: int| 0 <= i < hist.len() ==> (#[trigger] hist[i]).data.wf(),
                rc.spec_cursor() <= bus.spec_next(),
                rc.spec_cursor() >= first || rc.spec_cursor() == 0,
                rc.spec_cursor() == 0 ==> lagged == 0 && first == 0 || !done && lagged == 0,
                rc.spec_cursor() > 0 ==> lagged == first,
                done ==> rc.spec_cursor() == bus.spec_next() && (rc.spec_cursor() > 0 || first
                    == 0),
                ({
                    let seen = if rc.spec_cursor() <= first {
                        Seq::<EventView>::empty()
                    } else {
                        hist.subrange(first as int, rc.spec_cursor() as int)
                    };
                    let acted = spec_acted(seen, task as nat);
                    &&& deliveries@.len() == acted.len()
                    &&& forall|i: int|
                        0 <= i < acted.len() ==> (#[trigger] deliveries@[i]).payload@
                            == spec_csv_of(acted[i].data)
                    &&& forall|i: int|
                        0 <= i < acted.len() ==> spec_is_delivery_subject(
                            (#[trigger] deliveries@[i]).subject@,
                            self.config.path@,
                        )
                }),
            decreases (bus.spec_next() - rc.spec_cursor()) * 2 + (if done {
                0int
            } else {
                1int
            }),
        {
            let ghost cursor0 = rc.spec_cursor();
            match bus.recv(&mut rc) {
                Recv::Lagged(n) => {
                    proof {
                        assert(cursor0 == 0);
                        assert(n == first);
                        assert(spec_acted(Seq::<EventView>::empty(), task as nat) =~= Seq::<
                            EventView,
                        >::empty());
                    }
                    lagged = n;
                },
                Recv::Message(e) => {
                    let ghost seen0 = if cursor0 <= first {
                        Seq::<EventView>::empty()
                    } else {
                        hist.subrange(first as int, cursor0 as int)
                    };
                    proof {
                        assert(e@ == hist[cursor0 as int]);
                        assert(e@.data.wf());
                        assert(hist.subrange(first as int, cursor0 as int + 1) =~= seen0.push(e@));
                        crate::event::lemma_acted_snoc(seen0, e@, task as nat);
                    }
                    if crate::event::acts_on(task, &e.current_task_id) {
                        let payload = crate::csv::csv_bytes_of(&e.data);
                        let ts = crate::clock::now_micros();
                        let subject = crate::subject::file_subject(&self.config.path, ts);
                        let ghost old_deliveries = deliveries@;
                        deliveries.push(Delivery { subject, payload });
                        proof {
                            let acted = spec_acted(seen0.push(e@), task as nat);
                            assert(acted =~= spec_acted(seen0, task as nat) + seq![e@]);
                            assert(acted[acted.len() - 1] == e@);
                            assert(deliveries@[deliveries@.len() - 1].payload@ == spec_csv_of(
                                e@.data,
                            ));
                            assert(deliveries@[deliveries@.len() - 1].subject@
                                == spec_file_subject(self.config.path@, ts));
                            assert(spec_is_delivery_subject(
                                deliveries@[deliveries@.len() - 1].subject@,
                                self.config.path@,
                            ));
                            assert forall|i: int| 0 <= i < acted.len() implies
                                spec_is_delivery_subject(
                                (#[trigger] deliveries@[i]).subject@,
                                self.config.path@,
                            ) by {
                                if i < acted.len() - 1 {
                                    assert(deliveries@[i] == old_deliveries[i]);
                                }
                            }
                        }
                    } else {
                        proof {
                            let acted = spec_acted(seen0.push(e@), task as nat);
                            assert(acted =~= spec_acted(seen0, task as nat));
                        }
                    }
                },
                Recv::Empty => {
                    proof {
                        assert(false);
                    }
                    done = true;
                },
                Recv::Closed => {
                    done = true;
                },
            }
        }
        proof {
            let seen = if rc.spec_cursor() <= first {
                Seq::<EventView>::empty()
            } else {
                hist.subrange(first as int, rc.spec_cursor() as int)
            };
            if rc.spec_cursor() <= first {
                assert(bus.spec_next() == first);
                assert(hist.skip(first as int) =~= Seq::<EventView>::empty());
                assert(seen =~= hist.skip(first as int));
            } else {
                assert(seen =~= hist.skip(first as int));
            }
            assert(lagged == first);
            let acted = spec_acted(hist.skip(first as int), task as nat);
            assert(spec_acted(seen, task as nat) == acted);
        }
        Ok(PublishReport { deliveries, lagged })
    }
}

/// Builder for the file target.
pub struct PublisherBuilder {
    config: Option<Target>,
    rx: Option<Receiver>,
    current_task_id: usize,
}

impl PublisherBuilder {
    /// The configured target file, so far.
    pub closed spec fn spec_path(&self) -> Option<Seq<u8>> {
        match self.config {
            Some(ref c) => Some(c.path@),
            None => None,
        }
    }

    /// Whether a receiver was set.
    pub closed spec fn spec_has_receiver(&self) -> bool {
        self.rx is Some
    }

    /// The receiver's cursor, when one was set.
    pub closed spec fn spec_cursor(&self) -> nat {
        self.rx->0.spec_cursor()
    }

    /// The stage id set so far.
    pub closed spec fn spec_current_task_id(&self) -> usize {
        self.current_task_id
    }

    /// Creates a new builder with nothing set.
    pub fn new() -> (r: PublisherBuilder)
        ensures
            r.spec_path() is None,
            !r.spec_has_receiver(),
            r.spec_current_task_id() == 0,
    {
        PublisherBuilder { config: None, rx: None, current_task_id: 0 }
    }

    /// Sets the target configuration.
    pub fn config(self, config: Target) -> (r: PublisherBuilder)
        ensures
            r.spec_path() == Some(config.path@),
            r.spec_has_receiver() == self.spec_has_receiver(),
            r.spec_has_receiver() ==> r.spec_cursor() == self.spec_cursor(),
            r.spec_current_task_id() == self.spec_current_task_id(),
    {
        PublisherBuilder { config: Some(config), ..self }
    }

    /// Sets the bus receiver this target drains.
    pub fn receiver(self, receiver: Receiver) -> (r: PublisherBuilder)
        ensures
            r.spec_has_receiver(),
            r.spec_cursor() == receiver.spec_cursor(),
            r.spec_path() == self.spec_path(),
            r.spec_current_task_id() == self.spec_current_task_id(),
    {
        PublisherBuilder { rx: Some(receiver), ..self }
    }

    /// Sets the stage id of this target.
    pub fn current_task_id(self, current_task_id: usize) -> (r: PublisherBuilder)
        ensures
            r.spec_current_task_id() == current_task_id,
            r.spec_path() == self.spec_path(),
            r.spec_has_receiver() == self.spec_has_receiver(),
            r.spec_has_receiver() ==> r.spec_cursor() == self.spec_cursor(),
    {
        PublisherBuilder { current_task_id, ..self }
    }

    /// Builds the file target.  Fails when the configuration or the
    /// receiver was not provided, naming whichever is missing, the
    /// configuration first.
    pub fn build(self) -> (r: Result<Publisher, Error>)
        ensures
            r is Ok <==> (self.spec_path() is Some && self.spec_has_receiver()),
            r matches Ok(p) ==> {
                &&& Some(p.spec_path()) == self.spec_path()
                &&& p.spec_cursor() == self.spec_cursor()
                &&& p.spec_current_task_id() == self.spec_current_task_id()
            },
            r matches Err(e) ==> e matches Error::MissingRequiredAttribute(s) && (
            if self.spec_path() is None {
                s@ == "config"@
            } else {
                s@ == "receiver"@
            }),
    {
        let config = match self.config {
            Some(c) => c,
            None => {
                return Err(Error::MissingRequiredAttribute("config".to_owned()));
            },
        };
        let rx = match self.rx {
            Some(rx) => rx,
            None => {
                return Err(Error::MissingRequiredAttribute("receiver".to_owned()));
            },
        };
        Ok(Publisher { config, rx, current_task_id: self.current_task_id })
    }
}

} // verus!
