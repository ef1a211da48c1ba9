//! The message model of the bus.
//!
//! An [`Event`] is the canonical routable unit: a columnar table, a
//! hierarchical routing subject, open metadata, and the stamp of the stage
//! that produced it.  A [`ChannelMessage`] wraps payloads that an adapter has
//! received but not yet normalized into an event; the consuming stage either
//! normalizes them or hands them straight to a target that understands them.
//!
//! Events are immutable once published: a stage that transforms one builds a
//! new event, because the bus delivers every message to several independent
//! subscribers.
//!
//! Stages are sequenced by the stamp: a stage with id `n` acts only on
//! events stamped by stage `n - 1`, its immediate predecessor, and skips
//! everything else it sees on the bus.

use vstd::prelude::*;
use crate::bus::DeepCopy;
use crate::table::{Table, TableView};
use crate::text::view_pairs;

verus! {

/// Errors raised while building an event.
#[derive(Debug)]
pub enum Error {
    /// A required attribute was not provided to the builder.
    MissingRequiredAttribute(String),
}

/// Model of an event.
#[verifier::ext_equal]
pub struct EventView {
    pub data: TableView,
    pub subject: Seq<u8>,
    pub extensions: Seq<(Seq<u8>, Seq<u8>)>,
    pub current_task_id: Option<usize>,
}

/// The canonical routable unit of a flow.
pub struct Event {
    /// The columnar payload.
    pub data: Table,
    /// The hierarchical routing key, dot-separated UTF-8.
    pub subject: Vec<u8>,
    /// Open metadata carried alongside the payload: key to scalar text.
    pub extensions: Vec<(Vec<u8>, Vec<u8>)>,
    /// Which pipeline stage produced this event.
    pub current_task_id: Option<usize>,
}

impl View for Event {
    type V = EventView;

    open spec fn view(&self) -> EventView {
        EventView {
            data: self.data@,
            subject: self.subject@,
            extensions: view_pairs(self.extensions@),
            current_task_id: self.current_task_id,
        }
    }
}

impl DeepCopy for Event {
    fn deep_copy(&self) -> (r: Event)
        ensures
            r@ == self@,
    {
        let r = Event {
            data: self.data.deep_copy(),
            subject: crate::text::clone_bytes(&self.subject),
            extensions: crate::text::clone_pairs(&self.extensions),
            current_task_id: self.current_task_id,
        };
        proof {
            assert(r@ =~= self@);
        }
        r
    }
}

/// Model of a raw file-origin message.
#[verifier::ext_equal]
pub struct FileMessageView {
    pub record_batch: TableView,
    pub file_chunk: Seq<u8>,
}

/// A raw message from the file source: one parsed chunk of a file.
pub struct FileMessage {
    /// The chunk's rows.
    pub record_batch: Table,
    /// Which chunk of which file this is.
    pub file_chunk: Vec<u8>,
}

impl View for FileMessage {
    type V = FileMessageView;

    open spec fn view(&self) -> FileMessageView {
        FileMessageView { record_batch: self.record_batch@, file_chunk: self.file_chunk@ }
    }
}

/// Model of an enterprise-bus producer event.
#[verifier::ext_equal]
pub struct ProducerEventView {
    pub id: Seq<u8>,
    pub schema_id: Seq<u8>,
    pub payload: Seq<u8>,
}

/// One event fetched from the enterprise event bus, reduced to what the
/// engine routes: its id, its schema id, and its opaque payload.
pub struct ProducerEvent {
    /// The event's id on the originating bus.
    pub id: Vec<u8>,
    /// The id of the schema its payload was written with.
    pub schema_id: Vec<u8>,
    /// The serialized payload.
    pub payload: Vec<u8>,
}

impl View for ProducerEvent {
    type V = ProducerEventView;

    open spec fn view(&self) -> ProducerEventView {
        ProducerEventView { id: self.id@, schema_id: self.schema_id@, payload: self.payload@ }
    }
}

/// Model of topic metadata.
#[verifier::ext_equal]
pub struct TopicInfoView {
    pub topic_name: Seq<u8>,
    pub schema_id: Seq<u8>,
}

/// Metadata of the topic a fetch response came from.
pub struct TopicInfo {
    /// The topic's full name, slash-separated.
    pub topic_name: Vec<u8>,
    /// The id of the topic's current schema.
    pub schema_id: Vec<u8>,
}

impl View for TopicInfo {
    type V = TopicInfoView;

    open spec fn view(&self) -> TopicInfoView {
        TopicInfoView { topic_name: self.topic_name@, schema_id: self.schema_id@ }
    }
}

/// Model of a raw enterprise-bus fetch response.
#[verifier::ext_equal]
pub struct SalesforcePubSubMessageView {
    pub events: Seq<Option<ProducerEventView>>,
    pub topic_info: TopicInfoView,
}

/// A raw message from the enterprise-bus source: one fetch response with the
/// topic it came from.  A fetched consumer record may carry no event.
pub struct SalesforcePubSubMessage {
    /// The fetched events, in fetch order.
    pub events: Vec<Option<ProducerEvent>>,
    /// The topic the response came from.
    pub topic_info: TopicInfo,
}

/// The model of one fetched consumer record.
pub open spec fn view_fetched(e: Option<ProducerEvent>) -> Option<ProducerEventView> {
    match e {
        Some(p) => Some(p@),
        None => None,
    }
}

impl View for SalesforcePubSubMessage {
    type V = SalesforcePubSubMessageView;

    open spec fn view(&self) -> SalesforcePubSubMessageView {
        SalesforcePubSubMessageView {
            events: self.events@.map_values(|e: Option<ProducerEvent>| view_fetched(e)),
            topic_info: self.topic_info@,
        }
    }
}

/// Model of a bus message.
#[verifier::ext_equal]
pub enum ChannelMessageView {
    File(FileMessageView),
    SalesforcePubsub(SalesforcePubSubMessageView),
    Event(EventView),
}

/// What travels on the bus: a raw adapter payload not yet normalized, or a
/// canonical event.
pub enum ChannelMessage {
    /// A parsed file chunk from the file source.
    File(FileMessage),
    /// A fetch response from the enterprise-bus source.
    SalesforcePubsub(SalesforcePubSubMessage),
    /// A canonical event.
    Event(Event),
}

impl View for ChannelMessage {
    type V = ChannelMessageView;

    open spec fn view(&self) -> ChannelMessageView {
        match self {
            ChannelMessage::File(m) => ChannelMessageView::File(m@),
            ChannelMessage::SalesforcePubsub(m) => ChannelMessageView::SalesforcePubsub(m@),
            ChannelMessage::Event(e) => ChannelMessageView::Event(e@),
        }
    }
}

impl DeepCopy for ChannelMessage {
    fn deep_copy(&self) -> (r: ChannelMessage)
        ensures
            r@ == self@,
    {
        match self {
            ChannelMessage::File(m) => {
                let c = ChannelMessage::File(
                    FileMessage {
                        record_batch: m.record_batch.deep_copy(),
                        file_chunk: crate::text::clone_bytes(&m.file_chunk),
                    },
                );
                proof {
                    assert(c@ =~= self@);
                }
                c
            },
            ChannelMessage::SalesforcePubsub(m) => {
                let mut events: Vec<Option<ProducerEvent>> = Vec::new();
                let mut i: usize = 0;
                while i < m.events.len()
                    invariant
                        i <= m.events@.len(),
                        events@.len() == i,
                        forall|j: int|
                            0 <= j < i ==> view_fetched(#[trigger] events@[j]) == view_fetched(
                                m.events@[j],
                            ),
                    decreases m.events@.len() - i,
                {
                    let e = match &m.events[i] {
                        Some(p) => Some(
                            ProducerEvent {
                                id: crate::text::clone_bytes(&p.id),
                                schema_id: crate::text::clone_bytes(&p.schema_id),
                                payload: crate::text::clone_bytes(&p.payload),
                            },
                        ),
                        None => None,
                    };
                    proof {
                        assert(view_fetched(e) =~~= view_fetched(m.events@[i as int]));
                    }
                    events.push(e);
                    i = i + 1;
                }
                let c = ChannelMessage::SalesforcePubsub(
                    SalesforcePubSubMessage {
                        events,
                        topic_info: TopicInfo {
                            topic_name: crate::text::clone_bytes(&m.topic_info.topic_name),
                            schema_id: crate::text::clone_bytes(&m.topic_info.schema_id),
                        },
                    },
                );
                proof {
                    assert(c@ =~~= self@);
                }
                c
            },
            ChannelMessage::Event(e) => {
                let c = ChannelMessage::Event(e.deep_copy());
                proof {
                    assert(c@ =~= self@);
                }
                c
            },
        }
    }
}

/// The ordering discipline: a stage with id `stage_id` acts exactly on
/// events stamped by its immediate predecessor, the stage `stage_id - 1`.
pub open spec fn spec_acts_on(stage_id: nat, stamp: Option<usize>) -> bool {
    stage_id >= 1 && stamp == Some((stage_id - 1) as usize)
}

/// Whether a stage with id `stage_id` acts on an event carrying `stamp`.
/// Everything else on the bus is skipped: not buffered, not requeued.
pub fn acts_on(stage_id: usize, stamp: &Option<usize>) -> (r: bool)
    ensures
        r == spec_acts_on(stage_id as nat, *stamp),
{
    if stage_id == 0 {
        false
    } else {
        match stamp {
            Some(t) => *t == stage_id - 1,
            None => false,
        }
    }
}

/// The events a stage with id `stage` acts on, in arrival order: exactly
/// those stamped by its immediate predecessor.
pub open spec fn spec_acted(events: Seq<EventView>, stage: nat) -> Seq<EventView>
    decreases events.len(),
{
    if events.len() == 0 {
        Seq::empty()
    } else {
        let rest = spec_acted(events.drop_first(), stage);
        if spec_acts_on(stage, events[0].current_task_id) {
            seq![events[0]] + rest
        } else {
            rest
        }
    }
}

/// One more observed event extends the acted-on sequence by that event
/// exactly when its stamp is the predecessor stage's.
pub proof fn lemma_acted_snoc(events: Seq<EventView>, e: EventView, stage: nat)
    ensures
        spec_acted(events.push(e), stage) == spec_acted(events, stage) + (if spec_acts_on(
            stage,
            e.current_task_id,
        ) {
            seq![e]
        } else {
            Seq::<EventView>::empty()
        }),
    decreases events.len(),
{
    let tail = (if spec_acts_on(stage, e.current_task_id) {
        seq![e]
    } else {
        Seq::<EventView>::empty()
    });
    if events.len() == 0 {
        assert(events.push(e)[0] == e);
        assert(events.push(e).drop_first() =~= Seq::<EventView>::empty());
        assert(spec_acted(Seq::<EventView>::empty(), stage) == Seq::<EventView>::empty());
        assert(spec_acted(events.push(e), stage) =~= spec_acted(events, stage) + tail);
    } else {
        assert(events.push(e).drop_first() =~= events.drop_first().push(e));
        lemma_acted_snoc(events.drop_first(), e, stage);
        assert(events.push(e)[0] == events[0]);
        assert(spec_acted(events.push(e), stage) =~= spec_acted(events, stage) + tail);
    }
}

/// The ordering stamp invariant: a stage with id `n` acts only on events
/// stamped `n - 1`.  A batch of events stamped with the stage's own id or
/// with its predecessor's predecessor — arrivals from elsewhere on the
/// broadcast bus — produces zero effects.
pub proof fn lemma_ordering_stamp_invariant(events: Seq<EventView>, stage: nat)
    requires
        1 <= stage <= usize::MAX,
        forall|i: int|
            0 <= i < events.len() ==> ((#[trigger] events[i]).current_task_id == Some(
                stage as usize,
            ) || (stage >= 2 && events[i].current_task_id == Some((stage - 2) as usize))),
    ensures
        spec_acted(events, stage) == Seq::<EventView>::empty(),
    decreases events.len(),
{
    if events.len() > 0 {
        assert(!spec_acts_on(stage, events[0].current_task_id));
        assert(forall|i: int|
            0 <= i < events.drop_first().len() ==> (#[trigger] events.drop_first()[i])
                == events[i + 1]);
        lemma_ordering_stamp_invariant(events.drop_first(), stage);
        assert(spec_acted(events, stage) =~= Seq::<EventView>::empty());
    } else {
        assert(spec_acted(events, stage) =~= Seq::<EventView>::empty());
    }
}

/// The transport encoding of a fetched event when it is republished onto a
/// byte channel: its id, its schema id and its payload, each
/// length-prefixed.
pub open spec fn spec_producer_event_bytes(pe: ProducerEventView) -> Seq<u8> {
    crate::codec::enc_bytes(pe.id) + crate::codec::enc_bytes(pe.schema_id)
        + crate::codec::enc_bytes(pe.payload)
}

impl ProducerEvent {
    /// Serialize for transport over a byte channel.
    pub fn to_bytes(&self) -> (r: Vec<u8>)
        ensures
            r@ == spec_producer_event_bytes(self@),
    {
        let mut out: Vec<u8> = Vec::new();
        crate::codec::push_bytes(&mut out, &self.id);
        crate::codec::push_bytes(&mut out, &self.schema_id);
        crate::codec::push_bytes(&mut out, &self.payload);
        proof {
            assert(out@ =~= spec_producer_event_bytes(self@));
        }
        out
    }
}

/// Builder for an [`Event`].
pub struct EventBuilder {
    data: Option<Table>,
    subject: Option<Vec<u8>>,
    extensions: Vec<(Vec<u8>, Vec<u8>)>,
    current_task_id: Option<usize>,
}

impl EventBuilder {
    /// The payload set so far.
    pub closed spec fn spec_data(&self) -> Option<TableView> {
        match self.data {
            Some(ref t) => Some(t@),
            None => None,
        }
    }

    /// The subject set so far.
    pub closed spec fn spec_subject(&self) -> Option<Seq<u8>> {
        match self.subject {
            Some(ref s) => Some(s@),
            None => None,
        }
    }

    /// The extensions set so far.
    pub closed spec fn spec_extensions(&self) -> Seq<(Seq<u8>, Seq<u8>)> {
        view_pairs(self.extensions@)
    }

    /// The stage stamp set so far.
    pub closed spec fn spec_current_task_id(&self) -> Option<usize> {
        self.current_task_id
    }

    /// Creates a new builder with nothing set.
    pub fn new() -> (r: EventBuilder)
        ensures
            r.spec_data() is None,
            r.spec_subject() is None,
            r.spec_extensions() == Seq::<(Seq<u8>, Seq<u8>)>::empty(),
            r.spec_current_task_id() is None,
    {
        let r = EventBuilder {
            data: None,
            subject: None,
            extensions: Vec::new(),
            current_task_id: None,
        };
        proof {
            assert(r.spec_extensions() =~= Seq::<(Seq<u8>, Seq<u8>)>::empty());
        }
        r
    }

    /// Sets the columnar payload.
    pub fn data(self, data: Table) -> (r: EventBuilder)
        ensures
            r.spec_data() == Some(data@),
            r.spec_subject() == self.spec_subject(),
            r.spec_extensions() == self.spec_extensions(),
            r.spec_current_task_id() == self.spec_current_task_id(),
    {
        EventBuilder { data: Some(data), ..self }
    }

    /// Sets the routing subject.
    pub fn subject(self, subject: Vec<u8>) -> (r: EventBuilder)
        ensures
            r.spec_subject() == Some(subject@),
            r.spec_data() == self.spec_data(),
            r.spec_extensions() == self.spec_extensions(),
            r.spec_current_task_id() == self.spec_current_task_id(),
    {
        EventBuilder { subject: Some(subject), ..self }
    }

    /// Adds one metadata extension.
    pub fn extension(self, key: Vec<u8>, value: Vec<u8>) -> (r: EventBuilder)
        ensures
            r.spec_extensions() == self.spec_extensions().push((key@, value@)),
            r.spec_data() == self.spec_data(),
            r.spec_subject() == self.spec_subject(),
            r.spec_current_task_id() == self.spec_current_task_id(),
    {
        let mut extensions = self.extensions;
        extensions.push((key, value));
        let r = EventBuilder { extensions, ..self };
        proof {
            assert(r.spec_extensions() =~= self.spec_extensions().push((key@, value@)));
        }
        r
    }

    /// Stamps the event with the producing stage's id.
    pub fn current_task_id(self, current_task_id: usize) -> (r: EventBuilder)
        ensures
            r.spec_current_task_id() == Some(current_task_id),
            r.spec_data() == self.spec_data(),
            r.spec_subject() == self.spec_subject(),
            r.spec_extensions() == self.spec_extensions(),
    {
        EventBuilder { current_task_id: Some(current_task_id), ..self }
    }

    /// Builds the event.  Fails when the payload or the subject is
    /// missing, naming whichever is, the payload first.
    pub fn build(self) -> (r: Result<Event, Error>)
        ensures
            r is Ok <==> (self.spec_data() is Some && self.spec_subject() is Some),
            r matches Ok(e) ==> {
                &&& Some(e@.data) == self.spec_data()
                &&& Some(e@.subject) == self.spec_subject()
                &&& e@.extensions == self.spec_extensions()
                &&& e@.current_task_id == self.spec_current_task_id()
            },
            r matches Err(e) ==> e matches Error::MissingRequiredAttribute(s) && (
            if self.spec_data() is None {
                s@ == "data"@
            } else {
                s@ == "subject"@
            }),
    {
        let data = match self.data {
            Some(d) => d,
            None => {
                return Err(Error::MissingRequiredAttribute("data".to_owned()));
            },
        };
        let subject = match self.subject {
            Some(s) => s,
            None => {
                return Err(Error::MissingRequiredAttribute("subject".to_owned()));
            },
        };
        Ok(
            Event {
                data,
                subject,
                extensions: self.extensions,
                current_task_id: self.current_task_id,
            },
        )
    }
}

} // verus!
