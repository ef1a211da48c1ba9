//! The flow supervisor.
//!
//! A flow declares one source and one or more targets.  The supervisor
//! validates the configuration before anything starts, owns the broadcast
//! bus, feeds it from the source, and drains it once for every target,
//! routing each message to the target's publish path: a file chunk is
//! republished onto the broker under its derived subject, a fetched
//! enterprise-bus event likewise, and a canonical event headed for columnar
//! storage has its timestamps upconverted and its table serialized.  The
//! first fatal error observed — here, an invalid configuration — is the
//! flow's terminal error; per-record problems only mark the run unclean.

use vstd::prelude::*;
use crate::bus::{Bus, Receiver, Recv};
use crate::codec::spec_bytes_of;
use crate::event::{
    ChannelMessage, ChannelMessageView, ProducerEventView, spec_acts_on,
    spec_producer_event_bytes,
};
use crate::subject::{spec_filedrop_subject, spec_salesforce_subject};
use crate::table::{spec_adjust_table, spec_table_adjustable};

verus! {

/// The bus capacity of a flow: how many messages a slow subscriber may fall
/// behind before it starts losing history.
pub const BUS_CAPACITY: usize = 1000;

/// The stage id of every target: the source is stage zero and stamps what
/// it normalizes; targets act as its immediate successors.
pub const TARGET_STAGE: usize = 1;

/// Errors that end a flow.
#[derive(Debug)]
pub enum Error {
    /// A required configuration field is missing or empty; the flow never
    /// starts.
    Config(String),
}

/// Configuration of the object-storage source.
pub struct GcpStorageSource {
    /// Path of the credentials file for the storage service.
    pub credentials: Vec<u8>,
    /// The bucket to read.
    pub bucket: Vec<u8>,
}

/// The configured source of a flow.
pub enum Source {
    /// A flat file.
    File(crate::file::Subscriber),
    /// The enterprise event bus.
    SalesforcePubsub(crate::salesforce::Source),
    /// An object-storage bucket.
    GcpStorage(GcpStorageSource),
    /// A broker stream.
    NatsJetstream(crate::jetstream::Subscriber),
}

/// The configured targets of a flow.
pub enum Target {
    /// Republish onto a broker stream.
    NatsJetstream(crate::jetstream::Publisher),
    /// Write to a columnar storage table.
    Deltalake(crate::deltalake::Writer),
}

/// What one flow wires together.
pub struct FlowConfig {
    /// The one source.
    pub source: Source,
    /// The targets; at least one.
    pub targets: Vec<Target>,
}

/// A flow's whole configuration.
pub struct Config {
    /// The flow description.
    pub flow: FlowConfig,
}

/// Where a flow stands.
#[derive(Debug, Clone, Copy, PartialEq, Eq, Structural)]
pub enum FlowState {
    /// Nothing wired yet.
    Unbuilt,
    /// The source is wired and has produced its messages.
    SourceWired,
    /// Every target is wired.
    TargetsWired,
    /// The targets are draining the bus.
    Running,
    /// Every target drained the bus to the end.
    Completed,
    /// A fatal error was observed.
    Failed,
}

/// Whether a source configuration carries its required fields.
pub open spec fn spec_source_valid(s: Source) -> bool {
    match s {
        Source::File(c) => c.path@.len() > 0,
        Source::NatsJetstream(c) => c.credentials@.len() > 0 && c.stream@.len() > 0
            && c.subject@.len() > 0 && c.durable_name@.len() > 0 && c.batch_size >= 1,
        Source::SalesforcePubsub(c) => c.credentials@.len() > 0 && c.topic_list@.len() > 0,
        Source::GcpStorage(c) => c.credentials@.len() > 0 && c.bucket@.len() > 0,
    }
}

/// Whether a target configuration carries its required fields.
pub open spec fn spec_target_valid(t: Target) -> bool {
    match t {
        Target::NatsJetstream(c) => c.credentials@.len() > 0 && c.stream@.len() > 0,
        Target::Deltalake(w) => w.credentials@.len() > 0 && w.path@.len() > 0 && (w.operation
            is Merge ==> w.predicate is Some),
    }
}

/// Whether a flow configuration may start: one valid source, at least one
/// target, every target valid.
pub open spec fn spec_config_valid(c: Config) -> bool {
    &&& spec_source_valid(c.flow.source)
    &&& c.flow.targets@.len() >= 1
    &&& forall|i: int|
        0 <= i < c.flow.targets@.len() ==> spec_target_valid(#[trigger] c.flow.targets@[i])
}

/// One message republished by a target.
pub struct Outbound {
    /// The derived subject it is addressed to.
    pub subject: Vec<u8>,
    /// The payload bytes.
    pub payload: Vec<u8>,
}

/// Model of one republished message.
#[verifier::ext_equal]
pub struct OutboundView {
    pub subject: Seq<u8>,
    pub payload: Seq<u8>,
}

impl View for Outbound {
    type V = OutboundView;

    open spec fn view(&self) -> OutboundView {
        OutboundView { subject: self.subject@, payload: self.payload@ }
    }
}

/// What the broker target emits for the events of one fetch response: each
/// fetched event is republished under its derived subject with the
/// engine's transport encoding.  An event from an unnamed topic cannot be
/// addressed and is dropped.
pub open spec fn spec_sf_routes(events: Seq<Option<ProducerEventView>>, topic: Seq<u8>) -> Seq<
    OutboundView,
>
    decreases events.len(),
{
    if events.len() == 0 {
        Seq::empty()
    } else {
        let rest = spec_sf_routes(events.drop_first(), topic);
        match events[0] {
            Some(pe) => if topic.len() >= 1 {
                seq![
                    OutboundView {
                        subject: spec_salesforce_subject(topic, pe.id),
                        payload: spec_producer_event_bytes(pe),
                    },
                ] + rest
            } else {
                rest
            },
            None => rest,
        }
    }
}

/// Whether no fetched event of the response had to be dropped.
pub open spec fn spec_sf_clean(events: Seq<Option<ProducerEventView>>, topic: Seq<u8>) -> bool {
    forall|i: int| 0 <= i < events.len() ==> ((#[trigger] events[i]) is Some ==> topic.len() >= 1)
}

/// What the broker target emits for one bus message.
pub open spec fn spec_nats_route(m: ChannelMessageView) -> Seq<OutboundView> {
    match m {
        ChannelMessageView::File(fm) => seq![
            OutboundView {
                subject: spec_filedrop_subject(fm.file_chunk),
                payload: spec_bytes_of(fm.record_batch),
            },
        ],
        ChannelMessageView::SalesforcePubsub(sm) => spec_sf_routes(
            sm.events,
            sm.topic_info.topic_name,
        ),
        ChannelMessageView::Event(_) => Seq::empty(),
    }
}

/// Whether the broker target dropped nothing of one bus message.
pub open spec fn spec_nats_clean(m: ChannelMessageView) -> bool {
    match m {
        ChannelMessageView::SalesforcePubsub(sm) => spec_sf_clean(
            sm.events,
            sm.topic_info.topic_name,
        ),
        _ => true,
    }
}

/// What the storage target emits for one bus message: an event stamped by
/// its predecessor stage has its timestamps upconverted and its table
/// serialized, addressed to the table's path; everything else is skipped.
/// An event whose upconversion would overflow is dropped.
pub open spec fn spec_delta_route(path: Seq<u8>, stage: nat, m: ChannelMessageView) -> Seq<
    OutboundView,
> {
    match m {
        ChannelMessageView::Event(e) => if spec_acts_on(stage, e.current_task_id)
            && spec_table_adjustable(e.data) {
            seq![
                OutboundView { subject: path, payload: spec_bytes_of(spec_adjust_table(e.data)) },
            ]
        } else {
            Seq::empty()
        },
        _ => Seq::empty(),
    }
}

/// Whether the storage target dropped nothing of one bus message.
pub open spec fn spec_delta_clean(stage: nat, m: ChannelMessageView) -> bool {
    match m {
        ChannelMessageView::Event(e) => spec_acts_on(stage, e.current_task_id)
            ==> spec_table_adjustable(e.data),
        _ => true,
    }
}

/// What one target emits for one bus message.
pub open spec fn spec_target_route(t: Target, stage: nat, m: ChannelMessageView) -> Seq<
    OutboundView,
> {
    match t {
        Target::NatsJetstream(_) => spec_nats_route(m),
        Target::Deltalake(w) => spec_delta_route(w.path@, stage, m),
    }
}

/// Whether one target dropped nothing of one bus message.
pub open spec fn spec_target_clean(t: Target, stage: nat, m: ChannelMessageView) -> bool {
    match t {
        Target::NatsJetstream(_) => spec_nats_clean(m),
        Target::Deltalake(_) => spec_delta_clean(stage, m),
    }
}

/// What one target emits for a sequence of bus messages, in order.
pub open spec fn spec_route_all(t: Target, stage: nat, msgs: Seq<ChannelMessageView>) -> Seq<
    OutboundView,
>
    decreases msgs.len(),
{
    if msgs.len() == 0 {
        Seq::empty()
    } else {
        spec_target_route(t, stage, msgs[0]) + spec_route_all(t, stage, msgs.drop_first())
    }
}

/// One more message extends a target's emissions by that message's routes.
pub proof fn lemma_route_all_snoc(t: Target, stage: nat, msgs: Seq<ChannelMessageView>, m: ChannelMessageView)
    ensures
        spec_route_all(t, stage, msgs.push(m)) == spec_route_all(t, stage, msgs)
            + spec_target_route(t, stage, m),
    decreases msgs.len(),
{
    if msgs.len() == 0 {
        assert(msgs.push(m)[0] == m);
        assert(msgs.push(m).drop_first() =~= Seq::<ChannelMessageView>::empty());
        assert(spec_route_all(t, stage, Seq::empty()) == Seq::<OutboundView>::empty());
        assert(spec_route_all(t, stage, msgs.push(m)) =~= spec_route_all(t, stage, msgs)
            + spec_target_route(t, stage, m));
    } else {
        assert(msgs.push(m).drop_first() =~= msgs.drop_first().push(m));
        lemma_route_all_snoc(t, stage, msgs.drop_first(), m);
        assert(msgs.push(m)[0] == msgs[0]);
        assert(spec_route_all(t, stage, msgs.push(m)) =~= spec_route_all(t, stage, msgs)
            + spec_target_route(t, stage, m));
    }
}

/// Whether one target dropped nothing of a sequence of bus messages.
pub open spec fn spec_clean_all(t: Target, stage: nat, msgs: Seq<ChannelMessageView>) -> bool {
    forall|i: int| 0 <= i < msgs.len() ==> spec_target_clean(t, stage, #[trigger] msgs[i])
}

/// The messages a subscriber that fell behind still observes: the most
/// recent `cap` of them.
pub open spec fn spec_retained(feed: Seq<ChannelMessageView>, cap: nat) -> Seq<
    ChannelMessageView,
> {
    if feed.len() <= cap {
        feed
    } else {
        feed.skip(feed.len() - cap)
    }
}

/// How many messages such a subscriber lost.
pub open spec fn spec_lag(feed_len: nat, cap: nat) -> nat {
    if feed_len <= cap {
        0
    } else {
        (feed_len - cap) as nat
    }
}

fn route_sf(
    events: &Vec<Option<crate::event::ProducerEvent>>,
    from: usize,
    topic: &Vec<u8>,
    out: &mut Vec<Outbound>,
    clean: &mut bool,
)
    requires
        from <= events@.len(),
    ensures
        final(out)@.map_values(|o: Outbound| o@) == old(out)@.map_values(|o: Outbound| o@)
            + spec_sf_routes(
            events@.map_values(|e: Option<crate::event::ProducerEvent>| crate::event::view_fetched(e)).skip(
                from as int,
            ),
            topic@,
        ),
        *final(clean) == (*old(clean) && spec_sf_clean(
            events@.map_values(|e: Option<crate::event::ProducerEvent>| crate::event::view_fetched(e)).skip(
                from as int,
            ),
            topic@,
        )),
    decreases events@.len() - from,
{
    let ghost all = events@.map_values(
        |e: Option<crate::event::ProducerEvent>| crate::event::view_fetched(e),
    );
    let ghost tail = all.skip(from as int);
    if from == events.len() {
        proof {
            assert(tail =~= Seq::<Option<ProducerEventView>>::empty());
            assert(final(out)@.map_values(|o: Outbound| o@) =~= old(out)@.map_values(
                |o: Outbound| o@,
            ) + spec_sf_routes(tail, topic@));
            assert(spec_sf_clean(tail, topic@));
        }
        return ;
    }
    proof {
        assert(tail[0] == all[from as int]);
        assert(tail.drop_first() =~= all.skip(from + 1));
    }
    let ghost out_before = out@;
    let ghost head_ok = (all[from as int] is Some ==> topic@.len() >= 1);
    match &events[from] {
        Some(pe) => {
            if topic.len() >= 1 {
                let subject = crate::subject::salesforce_subject(topic, &pe.id);
                let payload = pe.to_bytes();
                out.push(Outbound { subject, payload });
                proof {
                    assert(out@.map_values(|o: Outbound| o@) =~= out_before.map_values(
                        |o: Outbound| o@,
                    ) + seq![
                        OutboundView {
                            subject: spec_salesforce_subject(topic@, pe@.id),
                            payload: spec_producer_event_bytes(pe@),
                        },
                    ]);
                }
            } else {
                *clean = false;
            }
        },
        None => {},
    }
    route_sf(events, from + 1, topic, out, clean);
    proof {
        assert(out@.map_values(|o: Outbound| o@) =~= out_before.map_values(|o: Outbound| o@)
            + spec_sf_routes(tail, topic@));
        assert(spec_sf_clean(tail, topic@) == (head_ok && spec_sf_clean(
            all.skip(from + 1),
            topic@,
        ))) by {
            if spec_sf_clean(tail, topic@) {
                assert(tail[0] is Some ==> topic@.len() >= 1);
                assert forall|i: int| 0 <= i < all.skip(from + 1).len() implies ((
                #[trigger] all.skip(from + 1)[i]) is Some ==> topic@.len() >= 1) by {
                    assert(all.skip(from + 1)[i] == tail[i + 1]);
                }
            }
            if head_ok && spec_sf_clean(all.skip(from + 1), topic@) {
                assert forall|i: int| 0 <= i < tail.len() implies ((#[trigger] tail[i]) is Some
                    ==> topic@.len() >= 1) by {
                    if i > 0 {
                        assert(tail[i] == all.skip(from + 1)[i - 1]);
                    }
                }
            }
        }
    }
}

/// Route one bus message to one target's publish path.
fn route_step(target: &Target, stage: usize, m: &ChannelMessage, out: &mut Vec<Outbound>, clean: &mut bool)
    ensures
        final(out)@.map_values(|o: Outbound| o@) == old(out)@.map_values(|o: Outbound| o@)
            + spec_target_route(*target, stage as nat, m@),
        *final(clean) == (*old(clean) && spec_target_clean(*target, stage as nat, m@)),
{
    let ghost out_before = out@;
    match target {
        Target::NatsJetstream(_) => {
            match m {
                ChannelMessage::File(fm) => {
                    let subject = crate::subject::filedrop_subject(&fm.file_chunk);
                    let payload = crate::codec::bytes_of(&fm.record_batch);
                    out.push(Outbound { subject, payload });
                    proof {
                        assert(out@.map_values(|o: Outbound| o@) =~= out_before.map_values(
                            |o: Outbound| o@,
                        ) + spec_target_route(*target, stage as nat, m@));
                    }
                },
                ChannelMessage::SalesforcePubsub(sm) => {
                    route_sf(&sm.events, 0, &sm.topic_info.topic_name, out, clean);
                    proof {
                        let mapped = sm.events@.map_values(
                            |e: Option<crate::event::ProducerEvent>| crate::event::view_fetched(e),
                        );
                        assert(mapped.skip(0) =~= sm@.events);
                        assert(out@.map_values(|o: Outbound| o@) =~= out_before.map_values(
                            |o: Outbound| o@,
                        ) + spec_target_route(*target, stage as nat, m@));
                    }
                },
                ChannelMessage::Event(_) => {
                    proof {
                        assert(out@.map_values(|o: Outbound| o@) =~= out_before.map_values(
                            |o: Outbound| o@,
                        ) + spec_target_route(*target, stage as nat, m@));
                    }
                },
            }
        },
        Target::Deltalake(w) => {
            match m {
                ChannelMessage::Event(e) => {
                    if crate::event::acts_on(stage, &e.current_task_id) {
                        let mut table = e.data.deep_copy();
                        match table.adjust_data_precision() {
                            Ok(()) => {
                                let payload = crate::codec::bytes_of(&table);
                                let subject = crate::text::clone_bytes(&w.path);
                                out.push(Outbound { subject, payload });
                                proof {
                                    assert(out@.map_values(|o: Outbound| o@)
                                        =~= out_before.map_values(|o: Outbound| o@)
                                        + spec_target_route(*target, stage as nat, m@));
                                }
                            },
                            Err(_) => {
                                *clean = false;
                            },
                        }
                    } else {
                        proof {
                            assert(out@.map_values(|o: Outbound| o@) =~= out_before.map_values(
                                |o: Outbound| o@,
                            ) + spec_target_route(*target, stage as nat, m@));
                        }
                    }
                },
                _ => {
                    proof {
                        assert(out@.map_values(|o: Outbound| o@) =~= out_before.map_values(
                            |o: Outbound| o@,
                        ) + spec_target_route(*target, stage as nat, m@));
                    }
                },
            }
        },
    }
}

/// One more message extends a target's clean verdict by that message's.
pub proof fn lemma_clean_all_snoc(t: Target, stage: nat, msgs: Seq<ChannelMessageView>, m: ChannelMessageView)
    ensures
        spec_clean_all(t, stage, msgs.push(m)) == (spec_clean_all(t, stage, msgs)
            && spec_target_clean(t, stage, m)),
{
    if spec_clean_all(t, stage, msgs.push(m)) {
        assert forall|i: int| 0 <= i < msgs.len() implies spec_target_clean(
            t,
            stage,
            #[trigger] msgs[i],
        ) by {
            assert(msgs.push(m)[i] == msgs[i]);
        }
        assert(msgs.push(m)[msgs.len() as int] == m);
        assert(spec_target_clean(t, stage, m));
    }
    if spec_clean_all(t, stage, msgs) && spec_target_clean(t, stage, m) {
        assert forall|i: int| 0 <= i < msgs.push(m).len() implies spec_target_clean(
            t,
            stage,
            #[trigger] msgs.push(m)[i],
        ) by {
            if i < msgs.len() {
                assert(msgs.push(m)[i] == msgs[i]);
            } else {
                assert(msgs.push(m)[i] == m);
            }
        }
    }
}

fn drain_target(bus: &Bus<ChannelMessage>, rc: Receiver, target: &Target, stage: usize) -> (r: (
    Vec<Outbound>,
    u64,
    bool,
))
    requires
        bus.wf(),
        bus.spec_closed(),
        rc.spec_cursor() == 0,
    ensures
        ({
            let retained = bus.spec_history().skip(bus.spec_first() as int);
            &&& r.0@.map_values(|o: Outbound| o@) == spec_route_all(
                *target,
                stage as nat,
                retained,
            )
            &&& r.1 == bus.spec_first()
            &&& r.2 == spec_clean_all(*target, stage as nat, retained)
        }),
{
    let mut rc = rc;
    let mut out: Vec<Outbound> = Vec::new();
    let mut lagged: u64 = 0;
    let mut clean = true;
    let mut done = false;
    let ghost hist = bus.spec_history();
    let ghost first = bus.spec_first();
    proof {
        assert(spec_route_all(*target, stage as nat, Seq::<ChannelMessageView>::empty())
            =~= Seq::<OutboundView>::empty());
        assert(out@.map_values(|o: Outbound| o@) =~= Seq::<OutboundView>::empty());
    }
    while !done
        invariant
            bus.wf(),
            bus.spec_closed(),
            hist == bus.spec_history(),
            first == bus.spec_first(),
            rc.spec_cursor() <= bus.spec_next(),
            rc.spec_cursor() >= first || rc.spec_cursor() == 0,
            rc.spec_cursor() == 0 ==> lagged == 0,
            rc.spec_cursor() > 0 ==> lagged == first,
            done ==> rc.spec_cursor() == bus.spec_next() && (rc.spec_cursor() > 0 || first == 0),
            ({
                let seen = if rc.spec_cursor() <= first {
                    Seq::<ChannelMessageView>::empty()
                } else {
                    hist.subrange(first as int, rc.spec_cursor() as int)
                };
                &&& out@.map_values(|o: Outbound| o@) == spec_route_all(
                    *target,
                    stage as nat,
                    seen,
                )
                &&& clean == spec_clean_all(*target, stage as nat, seen)
            }),
        decreases (bus.spec_next() - rc.spec_cursor()) * 2 + (if done {
            0int
        } else {
            1int
        }),
    {
        let ghost cursor0 = rc.spec_cursor();
        match bus.recv(&mut rc) {
            Recv::Lagged(n) => {
                proof {
                    assert(cursor0 == 0);
                    assert(n == first);
                }
                lagged = n;
            },
            Recv::Message(m) => {
                let ghost seen0 = if cursor0 <= first {
                    Seq::<ChannelMessageView>::empty()
                } else {
                    hist.subrange(first as int, cursor0 as int)
                };
                proof {
                    assert(m@ == hist[cursor0 as int]);
                    assert(hist.subrange(first as int, cursor0 as int + 1) =~= seen0.push(m@));
                    lemma_route_all_snoc(*target, stage as nat, seen0, m@);
                    lemma_clean_all_snoc(*target, stage as nat, seen0, m@);
                }
                route_step(target, stage, &m, &mut out, &mut clean);
            },
            Recv::Empty => {
                proof {
                    assert(false);
                }
                done = true;
            },
            Recv::Closed => {
                done = true;
            },
        }
    }
    proof {
        let seen = if rc.spec_cursor() <= first {
            Seq::<ChannelMessageView>::empty()
        } else {
            hist.subrange(first as int, rc.spec_cursor() as int)
        };
        if rc.spec_cursor() <= first {
            assert(bus.spec_next() == first);
            assert(hist.skip(first as int) =~= Seq::<ChannelMessageView>::empty());
            assert(seen =~= hist.skip(first as int));
        } else {
            assert(seen =~= hist.skip(first as int));
        }
        assert(lagged == first);
    }
    (out, lagged, clean)
}

/// What every target together emits: each target's emissions over the
/// retained messages, target by target in configuration order.
pub open spec fn spec_flow_outbound(targets: Seq<Target>, retained: Seq<ChannelMessageView>) -> Seq<
    OutboundView,
>
    decreases targets.len(),
{
    if targets.len() == 0 {
        Seq::empty()
    } else {
        spec_route_all(targets[0], TARGET_STAGE as nat, retained) + spec_flow_outbound(
            targets.drop_first(),
            retained,
        )
    }
}

/// Whether no target dropped anything.
pub open spec fn spec_flow_clean(targets: Seq<Target>, retained: Seq<ChannelMessageView>) -> bool {
    forall|t: int|
        0 <= t < targets.len() ==> spec_clean_all(
            #[trigger] targets[t],
            TARGET_STAGE as nat,
            retained,
        )
}

fn run_targets(
    bus: &Bus<ChannelMessage>,
    receivers: Vec<Receiver>,
    targets: &Vec<Target>,
    from: usize,
) -> (r: (Vec<Outbound>, Vec<u64>, bool))
    requires
        bus.wf(),
        bus.spec_closed(),
        from <= targets@.len(),
        receivers@.len() == targets@.len() - from,
        forall|i: int| 0 <= i < receivers@.len() ==> (#[trigger] receivers@[i]).spec_cursor() == 0,
    ensures
        ({
            let retained = bus.spec_history().skip(bus.spec_first() as int);
            &&& r.0@.map_values(|o: Outbound| o@) == spec_flow_outbound(
                targets@.skip(from as int),
                retained,
            )
            &&& r.1@.len() == targets@.len() - from
            &&& forall|t: int| 0 <= t < r.1@.len() ==> #[trigger] r.1@[t] == bus.spec_first()
            &&& r.2 == (forall|t: int|
                from <= t < targets@.len() ==> spec_clean_all(
                    #[trigger] targets@[t],
                    TARGET_STAGE as nat,
                    retained,
                ))
        }),
    decreases targets@.len() - from,
{
    let ghost retained = bus.spec_history().skip(bus.spec_first() as int);
    let ghost tail = targets@.skip(from as int);
    if from == targets.len() {
        let outs: Vec<Outbound> = Vec::new();
        let lags: Vec<u64> = Vec::new();
        proof {
            assert(tail =~= Seq::<Target>::empty());
            assert(outs@.map_values(|o: Outbound| o@) =~= spec_flow_outbound(tail, retained));
        }
        (outs, lags, true)
    } else {
        proof {
            assert(tail[0] == targets@[from as int]);
            assert(tail.drop_first() =~= targets@.skip(from + 1));
        }
        let mut receivers = receivers;
        let rc = receivers.remove(0);
        let (mut outs, lag, clean) = drain_target(bus, rc, &targets[from], TARGET_STAGE);
        let ghost outs_head = outs@;
        proof {
            assert(forall|i: int|
                0 <= i < receivers@.len() ==> (#[trigger] receivers@[i]).spec_cursor() == 0);
        }
        let (rest_outs, mut rest_lags, rest_clean) = run_targets(bus, receivers, targets, from + 1);
        let ghost rest_outs_v = rest_outs@;
        let mut rest_outs = rest_outs;
        outs.append(&mut rest_outs);
        rest_lags.insert(0, lag);
        let all_clean = clean && rest_clean;
        proof {
            assert(outs@ =~= outs_head + rest_outs_v);
            assert(outs@.map_values(|o: Outbound| o@) =~= outs_head.map_values(|o: Outbound| o@)
                + rest_outs_v.map_values(|o: Outbound| o@));
            assert(outs@.map_values(|o: Outbound| o@) =~= spec_flow_outbound(tail, retained));
            assert(rest_lags@ =~= seq![lag] + rest_lags@.skip(1));
            assert(all_clean == (forall|t: int|
                from <= t < targets@.len() ==> spec_clean_all(
                    #[trigger] targets@[t],
                    TARGET_STAGE as nat,
                    retained,
                ))) by {
                if all_clean {
                    assert forall|t: int| from <= t < targets@.len() implies spec_clean_all(
                        #[trigger] targets@[t],
                        TARGET_STAGE as nat,
                        retained,
                    ) by {
                        if t == from {
                            assert(targets@[t] == tail[0]);
                        }
                    }
                }
                if (forall|t: int|
                    from <= t < targets@.len() ==> spec_clean_all(
                        #[trigger] targets@[t],
                        TARGET_STAGE as nat,
                        retained,
                    )) {
                    assert(spec_clean_all(targets@[from as int], TARGET_STAGE as nat, retained));
                }
            }
        }
        (outs, rest_lags, all_clean)
    }
}

/// What feeds the flow's source: a file's raw contents for the file
/// source, or messages an adapter already normalized.
pub enum SourceInput {
    /// The configured file's contents.
    FileContents(Vec<u8>),
    /// Messages received and normalized at the edge of the program.
    Messages(Vec<ChannelMessage>),
}

/// Whether an input fits the configured source.
pub open spec fn spec_input_ok(s: Source, input: SourceInput) -> bool {
    match input {
        SourceInput::FileContents(_) => s is File,
        SourceInput::Messages(_) => true,
    }
}

/// The messages the source publishes for an input.
pub open spec fn spec_feed(s: Source, input: SourceInput) -> Seq<ChannelMessageView> {
    match input {
        SourceInput::FileContents(b) => match s {
            Source::File(c) => crate::file::spec_source_msgs(c.path@, b@, c.spec_has_header()),
            _ => Seq::empty(),
        },
        SourceInput::Messages(ms) => ms@.map_values(|m: ChannelMessage| m@),
    }
}

/// Whether the source dropped nothing of its input.
pub open spec fn spec_input_clean(s: Source, input: SourceInput) -> bool {
    match input {
        SourceInput::FileContents(b) => match s {
            Source::File(c) => crate::file::spec_source_clean(b@, c.spec_has_header()),
            _ => true,
        },
        SourceInput::Messages(_) => true,
    }
}

/// What one run of a flow produced.
pub struct FlowReport {
    /// Everything the targets emitted, in target order.
    pub outbound: Vec<Outbound>,
    /// Per target, how many messages its subscriber lost to the bus's
    /// bounded window.
    pub lags: Vec<u64>,
    /// Whether no record was dropped anywhere.
    pub clean: bool,
    /// Where the flow ended.
    pub state: FlowState,
}

/// A validated flow, ready to run.
pub struct Flow {
    config: Config,
    state: FlowState,
}

impl Flow {
    /// The validated configuration.
    pub closed spec fn spec_config(&self) -> Config {
        self.config
    }

    /// Where the flow stands.
    pub closed spec fn spec_state(&self) -> FlowState {
        self.state
    }

    /// A flow is well formed when its configuration may start.
    pub open spec fn wf(&self) -> bool {
        spec_config_valid(self.spec_config())
    }

    /// Run the flow to completion: wire the source and feed its messages
    /// onto the bus, wire every target, drain the bus once per target, and
    /// report everything emitted.  Each target sees the most recent
    /// `BUS_CAPACITY` messages; what a slow subscriber would have lost is
    /// reported as its lag.  The run is clean when neither the source nor
    /// any target dropped a record.
    pub fn run(self, input: SourceInput) -> (r: Result<FlowReport, Error>)
        requires
            self.wf(),
            self.spec_state() == FlowState::Unbuilt,
            spec_input_ok(self.spec_config().flow.source, input),
        ensures
            r is Ok,
            r matches Ok(rep) ==> {
                let feed = spec_feed(self.spec_config().flow.source, input);
                let retained = spec_retained(feed, BUS_CAPACITY as nat);
                &&& rep.state == FlowState::Completed
                &&& rep.outbound@.map_values(|o: Outbound| o@) == spec_flow_outbound(
                    self.spec_config().flow.targets@,
                    retained,
                )
                &&& rep.lags@.len() == self.spec_config().flow.targets@.len()
                &&& forall|t: int|
                    0 <= t < rep.lags@.len() ==> #[trigger] rep.lags@[t] == spec_lag(
                        feed.len(),
                        BUS_CAPACITY as nat,
                    )
                &&& rep.clean == (spec_input_clean(self.spec_config().flow.source, input)
                    && spec_flow_clean(self.spec_config().flow.targets@, retained))
            },
    {
        let ghost cfg = self.config;
        let ghost feed = spec_feed(self.config.flow.source, input);
        // Wire the source: produce what it publishes.
        let (mut feed_vec, src_clean): (Vec<ChannelMessage>, bool) = match input {
            SourceInput::FileContents(contents) => match &self.config.flow.source {
                Source::File(c) => {
                    let batch = c.subscribe(&contents);
                    (batch.messages, batch.clean)
                },
                _ => {
                    proof {
                        assert(false);
                    }
                    (Vec::new(), true)
                },
            },
            SourceInput::Messages(ms) => (ms, true),
        };
        proof {
            assert(feed_vec@.map_values(|m: ChannelMessage| m@) == feed);
            assert(src_clean == spec_input_clean(cfg.flow.source, input));
        }
        let mut bus: Bus<ChannelMessage> = Bus::new(BUS_CAPACITY);
        // Wire the targets: each subscribes before anything is published.
        let mut receivers: Vec<Receiver> = Vec::new();
        let mut t: usize = 0;
        while t < self.config.flow.targets.len()
            invariant
                t <= self.config.flow.targets@.len(),
                receivers@.len() == t,
                bus.wf(),
                bus.spec_history() == Seq::<ChannelMessageView>::empty(),
                bus.spec_capacity() == BUS_CAPACITY,
                bus.spec_first() == 0,
                !bus.spec_closed(),
                forall|i: int|
                    0 <= i < receivers@.len() ==> (#[trigger] receivers@[i]).spec_cursor() == 0,
            decreases self.config.flow.targets@.len() - t,
        {
            receivers.push(bus.subscribe());
            t = t + 1;
        }
        // Publish the source's messages in order.
        let n = feed_vec.len();
        proof {
            assert(feed.len() == n);
            assert(feed.take(0) =~= Seq::<ChannelMessageView>::empty());
        }
        while feed_vec.len() > 0
            invariant
                bus.wf(),
                bus.spec_capacity() == BUS_CAPACITY,
                !bus.spec_closed(),
                feed.len() == n <= usize::MAX,
                bus.spec_history().len() + feed_vec@.len() == n,
                bus.spec_history() == feed.take(n - feed_vec@.len()),
                feed_vec@.map_values(|m: ChannelMessage| m@) == feed.skip(n - feed_vec@.len()),
            decreases feed_vec@.len(),
        {
            let ghost k = n - feed_vec@.len();
            let ghost remaining0 = feed_vec@;
            let m = feed_vec.remove(0);
            proof {
                assert(m == remaining0[0]);
                assert(m@ == remaining0.map_values(|m2: ChannelMessage| m2@)[0]);
                assert(m@ == feed[k as int]);
                assert(feed_vec@ =~= remaining0.skip(1));
                assert(bus.spec_next() == k < n <= usize::MAX <= u64::MAX);
            }
            bus.publish(m);
            proof {
                assert(bus.spec_history() =~= feed.take(k + 1));
                assert forall|i: int|
                    0 <= i < feed_vec@.len() implies feed_vec@.map_values(
                    |m2: ChannelMessage| m2@,
                )[i] == #[trigger] feed.skip(k + 1)[i] by {
                    assert(feed_vec@[i] == remaining0[i + 1]);
                    assert(remaining0.map_values(|m2: ChannelMessage| m2@)[i + 1] == feed.skip(
                        k as int,
                    )[i + 1]);
                }
                assert(feed_vec@.map_values(|m2: ChannelMessage| m2@) =~= feed.skip(k + 1));
            }
        }
        proof {
            assert(bus.spec_history() =~= feed);
        }
        bus.close();
        // Drain once per target and gather the report.
        let (outbound, lags, targets_clean) = run_targets(
            &bus,
            receivers,
            &self.config.flow.targets,
            0,
        );
        proof {
            assert(self.config.flow.targets@.skip(0) =~= self.config.flow.targets@);
            bus.lemma_window();
            assert(bus.spec_first() == spec_lag(feed.len(), BUS_CAPACITY as nat));
            assert(bus.spec_history().skip(bus.spec_first() as int) =~= spec_retained(
                feed,
                BUS_CAPACITY as nat,
            ));
        }
        Ok(
            FlowReport {
                outbound,
                lags,
                clean: src_clean && targets_clean,
                state: FlowState::Completed,
            },
        )
    }
}

/// Builder for a [`Flow`].
pub struct Builder {
    config: Option<Config>,
}

impl Builder {
    /// The configuration given so far.
    pub closed spec fn spec_config(&self) -> Option<Config> {
        self.config
    }

    /// Creates a new builder holding the flow's configuration.
    pub fn new(config: Config) -> (r: Builder)
        ensures
            r.spec_config() == Some(config),
    {
        Builder { config: Some(config) }
    }

    /// Builds the flow: the pre-flight check.  A configuration with a
    /// missing or empty required field is fatal and the flow never starts.
    pub fn build(self) -> (r: Result<Flow, Error>)
        ensures
            r is Ok <==> (self.spec_config() is Some && spec_config_valid(
                self.spec_config()->0,
            )),
            r matches Ok(f) ==> {
                &&& f.wf()
                &&& f.spec_state() == FlowState::Unbuilt
                &&& Some(f.spec_config()) == self.spec_config()
            },
            r matches Err(e) ==> e matches Error::Config(_),
    {
        let ghost cfg0 = self.spec_config();
        let config = match self.config {
            Some(c) => c,
            None => {
                return Err(Error::Config("config".to_owned()));
            },
        };
        proof {
            assert(cfg0 == Some(config));
        }
        if !source_valid(&config.flow.source) {
            proof {
                assert(!spec_config_valid(cfg0->0));
            }
            return Err(Error::Config("source".to_owned()));
        }
        if config.flow.targets.len() < 1 {
            proof {
                assert(!spec_config_valid(cfg0->0));
            }
            return Err(Error::Config("target".to_owned()));
        }
        let mut i: usize = 0;
        while i < config.flow.targets.len()
            invariant
                i <= config.flow.targets@.len(),
                cfg0 == Some(config),
                cfg0 == self.spec_config(),
                forall|j: int|
                    0 <= j < i ==> spec_target_valid(#[trigger] config.flow.targets@[j]),
            decreases config.flow.targets@.len() - i,
        {
            if !target_valid(&config.flow.targets[i]) {
                proof {
                    assert(!spec_target_valid(cfg0->0.flow.targets@[i as int]));
                    assert(!spec_config_valid(cfg0->0));
                }
                return Err(Error::Config("target".to_owned()));
            }
            i = i + 1;
        }
        Ok(Flow { config, state: FlowState::Unbuilt })
    }
}

fn source_valid(s: &Source) -> (r: bool)
    ensures
        r == spec_source_valid(*s),
{
    match s {
        Source::File(c) => c.path.len() > 0,
        Source::NatsJetstream(c) => c.credentials.len() > 0 && c.stream.len() > 0
            && c.subject.len() > 0 && c.durable_name.len() > 0 && c.batch_size >= 1,
        Source::SalesforcePubsub(c) => c.credentials.len() > 0 && c.topic_list.len() > 0,
        Source::GcpStorage(c) => c.credentials.len() > 0 && c.bucket.len() > 0,
    }
}

fn target_valid(t: &Target) -> (r: bool)
    ensures
        r == spec_target_valid(*t),
{
    match t {
        Target::NatsJetstream(c) => c.credentials.len() > 0 && c.stream.len() > 0,
        Target::Deltalake(w) => w.credentials.len() > 0 && w.path.len() > 0 && (match w.operation {
            crate::deltalake::Operation::Merge => w.predicate.is_some(),
            crate::deltalake::Operation::Append => true,
        }),
    }
}

} // verus!
