//! The enterprise-bus adapters.
//!
//! The subscriber side fetches batches of events from subscribed topics and
//! normalizes each fetch response into a bus message.  The publisher side
//! drains the bus and, for each event its predecessor stage produced,
//! renders the configured payload template against data extracted from the
//! event and addresses one publish request to the configured topic.  The
//! streaming calls themselves happen at the edge of the program; what is
//! requested, and for which events, is verified here.

use vstd::prelude::*;
use crate::bus::{Bus, Receiver, Recv};
use crate::config::Inputs;
use crate::event::{
    ChannelMessage, Event, EventView, ProducerEvent, SalesforcePubSubMessage, TopicInfo,
    spec_acted, spec_acts_on,
};
use crate::render::{rendered_of, spec_data_map, spec_template_plain};

verus! {

/// Errors raised while building or running the enterprise-bus adapters.
#[derive(Debug)]
pub enum Error {
    /// A required attribute was not provided to the builder.
    MissingRequiredAttribute(String),
}

/// The connection endpoint of the streaming service.
pub struct Service {
    /// The service's endpoint, host and port.
    pub endpoint: Vec<u8>,
}

/// Configuration of the enterprise-bus source.
pub struct Source {
    /// Path of the credentials file for the platform.
    pub credentials: Vec<u8>,
    /// The topics to subscribe, each fetched by its own task.
    pub topic_list: Vec<Vec<u8>>,
}

/// Configuration of the enterprise-bus target.
pub struct Target {
    /// Path of the credentials file for the platform.
    pub credentials: Vec<u8>,
    /// The topic published to.
    pub topic: Vec<u8>,
    /// Where each template value comes from in the event.
    pub inputs: Option<Vec<(Vec<u8>, Inputs)>>,
    /// The payload template rendered for each event.
    pub payload: Vec<u8>,
}

/// Normalize one fetch response into a bus message.
pub fn fetch_to_message(topic_info: TopicInfo, events: Vec<Option<ProducerEvent>>) -> (r:
    ChannelMessage)
    ensures
        r@ matches crate::event::ChannelMessageView::SalesforcePubsub(m) && m.topic_info
            == topic_info@ && m.events == events@.map_values(
            |e: Option<ProducerEvent>| crate::event::view_fetched(e),
        ),
{
    ChannelMessage::SalesforcePubsub(SalesforcePubSubMessage { events, topic_info })
}

/// One outbound publish request.
pub struct PublishRequest {
    /// The topic addressed.
    pub topic_name: Vec<u8>,
    /// The events published, here always one.
    pub events: Vec<ProducerEvent>,
}

/// What the publish request for one acted-on event holds, when the payload
/// template is plain and renders: one event under the configured topic,
/// carrying the schema id and the rendered payload.  A template that is
/// not plain is rejected before the engine sees it.
pub open spec fn spec_request_payload(
    payload_template: Seq<u8>,
    inputs: Seq<(Vec<u8>, Inputs)>,
    e: EventView,
) -> Option<Seq<u8>> {
    if spec_template_plain(payload_template) {
        rendered_of(
            payload_template,
            spec_data_map(crate::config::spec_data_pairs(inputs, e.data, e.extensions)),
        )
    } else {
        None
    }
}

/// What one run of the enterprise-bus publisher produced.
pub struct PublishReport {
    /// The publish requests, in arrival order of the events acted on whose
    /// payload rendered.
    pub requests: Vec<PublishRequest>,
    /// How many messages this subscriber lost to the bus's bounded window.
    pub lagged: u64,
    /// Whether every acted-on event rendered; a failed render drops the
    /// event and clears this.
    pub clean: bool,
}

/// The publish requests a sequence of acted-on events produces: one per
/// event whose payload template renders.
pub open spec fn spec_requests(
    payload_template: Seq<u8>,
    inputs: Seq<(Vec<u8>, Inputs)>,
    schema_id: Seq<u8>,
    topic: Seq<u8>,
    acted: Seq<EventView>,
) -> Seq<(Seq<u8>, Seq<u8>)>  // (topic, payload) pairs
    decreases acted.len(),
{
    if acted.len() == 0 {
        Seq::empty()
    } else {
        let rest = spec_requests(payload_template, inputs, schema_id, topic, acted.drop_first());
        match spec_request_payload(payload_template, inputs, acted[0]) {
            Some(p) => seq![(topic, p)] + rest,
            None => rest,
        }
    }
}

/// One more acted-on event extends the requests by one exactly when its
/// payload renders.
pub proof fn lemma_requests_snoc(
    payload_template: Seq<u8>,
    inputs: Seq<(Vec<u8>, Inputs)>,
    schema_id: Seq<u8>,
    topic: Seq<u8>,
    acted: Seq<EventView>,
    e: EventView,
)
    ensures
        spec_requests(payload_template, inputs, schema_id, topic, acted.push(e))
            == spec_requests(payload_template, inputs, schema_id, topic, acted) + (
        match spec_request_payload(payload_template, inputs, e) {
            Some(p) => seq![(topic, p)],
            None => Seq::<(Seq<u8>, Seq<u8>)>::empty(),
        }),
    decreases acted.len(),
{
    let tail = (match spec_request_payload(payload_template, inputs, e) {
        Some(p) => seq![(topic, p)],
        None => Seq::<(Seq<u8>, Seq<u8>)>::empty(),
    });
    if acted.len() == 0 {
        assert(acted.push(e)[0] == e);
        assert(acted.push(e).drop_first() =~= Seq::<EventView>::empty());
        assert(spec_requests(payload_template, inputs, schema_id, topic, Seq::empty())
            == Seq::<(Seq<u8>, Seq<u8>)>::empty());
        assert(spec_requests(payload_template, inputs, schema_id, topic, acted.push(e))
            =~= spec_requests(payload_template, inputs, schema_id, topic, acted) + tail);
    } else {
        assert(acted.push(e).drop_first() =~= acted.drop_first().push(e));
        lemma_requests_snoc(payload_template, inputs, schema_id, topic, acted.drop_first(), e);
        assert(acted.push(e)[0] == acted[0]);
        assert(spec_requests(payload_template, inputs, schema_id, topic, acted.push(e))
            =~= spec_requests(payload_template, inputs, schema_id, topic, acted) + tail);
    }
}

/// The enterprise-bus target: publishes each event its predecessor stage
/// produced.
pub struct Publisher {
    service: Service,
    config: Target,
    rx: Receiver,
    current_task_id: usize,
}

impl Publisher {
    /// The configured topic.
    pub closed spec fn spec_topic(&self) -> Seq<u8> {
        self.config.topic@
    }

    /// The configured payload template.
    pub closed spec fn spec_payload_template(&self) -> Seq<u8> {
        self.config.payload@
    }

    /// The configured inputs.
    pub closed spec fn spec_inputs(&self) -> Seq<(Vec<u8>, Inputs)> {
        match self.config.inputs {
            Some(ref v) => v@,
            None => Seq::empty(),
        }
    }

    /// The stage id of this target.
    pub closed spec fn spec_current_task_id(&self) -> usize {
        self.current_task_id
    }

    /// Where this target's receiver stands in the bus's message sequence.
    pub closed spec fn spec_cursor(&self) -> nat {
        self.rx.spec_cursor()
    }

    /// Drain the bus: every event stamped by this stage's immediate
    /// predecessor has its payload template rendered against the data the
    /// configured inputs extract from it, and — when the render succeeds —
    /// produces one publish request to the configured topic carrying the
    /// given schema id and the rendered payload.  A failed render drops the
    /// event.  Every other message is skipped.
    pub fn publish(self, bus: &Bus<Event>, schema_id: &Vec<u8>) -> (r: Result<
        PublishReport,
        Error,
    >)
        requires
            bus.wf(),
            bus.spec_closed(),
            self.spec_cursor() == 0,
            forall|i: int|
                0 <= i < bus.spec_history().len() ==> (#[trigger] bus.spec_history()[i]).data.wf(),
        ensures
            r matches Ok(rep) ==> {
                let acted = spec_acted(
                    bus.spec_history().skip(bus.spec_first() as int),
                    self.spec_current_task_id() as nat,
                );
                let reqs = spec_requests(
                    self.spec_payload_template(),
                    self.spec_inputs(),
                    schema_id@,
                    self.spec_topic(),
                    acted,
                );
                &&& rep.lagged == bus.spec_first()
                &&& rep.requests@.len() == reqs.len()
                &&& forall|i: int|
                    0 <= i < reqs.len() ==> {
                        let req = #[trigger] rep.requests@[i];
                        &&& req.topic_name@ == reqs[i].0
                        &&& req.events@.len() == 1
                        &&& req.events@[0]@.schema_id == schema_id@
                        &&& req.events@[0]@.payload == reqs[i].1
                        &&& req.events@[0]@.id == Seq::<u8>::empty()
                    }
                &&& rep.clean == (reqs.len() == acted.len())
            },
            r is Ok,
    {
        let task = self.current_task_id;
        let mut rc = self.rx;
        let mut requests: Vec<PublishRequest> = Vec::new();
        let mut lagged: u64 = 0;
        let mut clean = true;
        let mut done = false;
        let ghost hist = bus.spec_history();
        let ghost first = bus.spec_first();
        let ghost tmpl = self.config.payload@;
        let ghost inputs_v = self.spec_inputs();
        let ghost topic_v = self.config.topic@;
        proof {
            assert(spec_acted(Seq::<EventView>::empty(), task as nat) =~= Seq::<
                EventView,
            >::empty());
            assert(spec_requests(tmpl, inputs_v, schema_id@, topic_v, Seq::<EventView>::empty())
                == Seq::<(Seq<u8>, Seq<u8>)>::empty());
        }
        while !done
            invariant
                bus.wf(),
                bus.spec_closed(),
                hist == bus.spec_history(),
                first == bus.spec_first(),
                tmpl == self.spec_payload_template(),
                inputs_v == self.spec_inputs(),
                topic_v == self.spec_topic(),
                forall|i: int| 0 <= i < hist.len() ==> (#[trigger] hist[i]).data.wf(),
                rc.spec_cursor() <= bus.spec_next(),
                rc.spec_cursor() >= first || rc.spec_cursor() == 0,
                rc.spec_cursor() == 0 ==> lagged == 0,
                rc.spec_cursor() > 0 ==> lagged == first,
                done ==> rc.spec_cursor() == bus.spec_next() && (rc.spec_cursor() > 0 || first
                    == 0),
                ({
                    let seen = if rc.spec_cursor() <= first {
                        Seq::<EventView>::empty()
                    } else {
                        hist.subrange(first as int, rc.spec_cursor() as int)
                    };
                    let acted = spec_acted(seen, task as nat);
                    let reqs = spec_requests(tmpl, inputs_v, schema_id@, topic_v, acted);
                    &&& reqs.len() <= acted.len()
                    &&& requests@.len() == reqs.len()
                    &&& forall|i: int|
                        0 <= i < reqs.len() ==> {
                            let req = #[trigger] requests@[i];
                            &&& req.topic_name@ == reqs[i].0
                            &&& req.events@.len() == 1
                            &&& req.events@[0]@.schema_id == schema_id@
                            &&& req.events@[0]@.payload == reqs[i].1
                            &&& req.events@[0]@.id == Seq::<u8>::empty()
                        }
                    &&& clean == (reqs.len() == acted.len())
                }),
            decreases (bus.spec_next() - rc.spec_cursor()) * 2 + (if done {
                0int
            } else {
                1int
            }),
        {
            let ghost cursor0 = rc.spec_cursor();
            match bus.recv(&mut rc) {
                Recv::Lagged(n) => {
                    proof {
                        assert(cursor0 == 0);
                        assert(n == first);
                        assert(spec_acted(Seq::<EventView>::empty(), task as nat) =~= Seq::<
                            EventView,
                        >::empty());
                        assert(spec_requests(
                            tmpl,
                            inputs_v,
                            schema_id@,
                            topic_v,
                            Seq::<EventView>::empty(),
                        ) == Seq::<(Seq<u8>, Seq<u8>)>::empty());
                    }
                    lagged = n;
                },
                Recv::Message(e) => {
                    let ghost seen0 = if cursor0 <= first {
                        Seq::<EventView>::empty()
                    } else {
                        hist.subrange(first as int, cursor0 as int)
                    };
                    proof {
                        assert(e@ == hist[cursor0 as int]);
                        assert(e@.data.wf());
                        assert(hist.subrange(first as int, cursor0 as int + 1) =~= seen0.push(
                            e@,
                        ));
                        crate::event::lemma_acted_snoc(seen0, e@, task as nat);
                        lemma_requests_snoc(
                            tmpl,
                            inputs_v,
                            schema_id@,
                            topic_v,
                            spec_acted(seen0, task as nat),
                            e@,
                        );
                        assert(spec_acted(seen0, task as nat) + seq![e@] =~= spec_acted(
                            seen0,
                            task as nat,
                        ).push(e@));
                    }
                    if crate::event::acts_on(task, &e.current_task_id) {
                        let data = match &self.config.inputs {
                            Some(inputs) => crate::config::input_data(
                                inputs,
                                &e.data,
                                &e.extensions,
                            ),
                            None => {
                                let empty_inputs: Vec<(Vec<u8>, Inputs)> = Vec::new();
                                proof {
                                    assert(inputs_v =~= empty_inputs@);
                                }
                                crate::config::input_data(&empty_inputs, &e.data, &e.extensions)
                            },
                        };
                        let rendered = crate::render::render_template(&self.config.payload, &data);
                        let ghost rendered_v = crate::render::view_rendered(rendered);
                        proof {
                            assert(spec_request_payload(tmpl, inputs_v, e@) == rendered_v);
                        }
                        match rendered {
                            Some(payload) => {
                                let ghost pv = payload@;
                                let mut events: Vec<ProducerEvent> = Vec::new();
                                events.push(
                                    ProducerEvent {
                                        id: Vec::new(),
                                        schema_id: crate::text::clone_bytes(schema_id),
                                        payload,
                                    },
                                );
                                let ghost old_requests = requests@;
                                requests.push(
                                    PublishRequest {
                                        topic_name: crate::text::clone_bytes(&self.config.topic),
                                        events,
                                    },
                                );
                                proof {
                                    let acted0 = spec_acted(seen0, task as nat);
                                    let acted1 = spec_acted(seen0.push(e@), task as nat);
                                    let reqs0 = spec_requests(
                                        tmpl,
                                        inputs_v,
                                        schema_id@,
                                        topic_v,
                                        acted0,
                                    );
                                    let reqs1 = spec_requests(
                                        tmpl,
                                        inputs_v,
                                        schema_id@,
                                        topic_v,
                                        acted1,
                                    );
                                    assert(acted1 == acted0 + seq![e@]);
                                    assert(acted1 =~= acted0.push(e@));
                                    assert(reqs1 == spec_requests(
                                        tmpl,
                                        inputs_v,
                                        schema_id@,
                                        topic_v,
                                        acted0.push(e@),
                                    ));
                                    assert(reqs1 =~= reqs0 + seq![(topic_v, pv)]);
                                    let last = requests@.len() - 1;
                                    assert(requests@.len() == reqs1.len());
                                    assert forall|i: int| 0 <= i < reqs1.len() implies {
                                        let req = #[trigger] requests@[i];
                                        &&& req.topic_name@ == reqs1[i].0
                                        &&& req.events@.len() == 1
                                        &&& req.events@[0]@.schema_id == schema_id@
                                        &&& req.events@[0]@.payload == reqs1[i].1
                                        &&& req.events@[0]@.id == Seq::<u8>::empty()
                                    } by {
                                        if i < last {
                                            assert(requests@[i] == old_requests[i]);
                                            assert(reqs1[i] == reqs0[i]);
                                        } else {
                                            assert(requests@[last].topic_name@ == topic_v);
                                            assert(requests@[last].events@.len() == 1);
                                            assert(requests@[last].events@[0]@.schema_id
                                                == schema_id@);
                                            assert(requests@[last].events@[0]@.payload == pv);
                                            assert(requests@[last].events@[0]@.id == Seq::<
                                                u8,
                                            >::empty());
                                            assert(reqs1[last] == (topic_v, pv));
                                        }
                                    }
                                }
                            },
                            None => {
                                clean = false;
                                proof {
                                    let acted0 = spec_acted(seen0, task as nat);
                                    assert(spec_requests(
                                        tmpl,
                                        inputs_v,
                                        schema_id@,
                                        topic_v,
                                        acted0.push(e@),
                                    ) =~= spec_requests(tmpl, inputs_v, schema_id@, topic_v, acted0));
                                }
                            },
                        }
                    } else {
                        proof {
                            assert(spec_acted(seen0.push(e@), task as nat) =~= spec_acted(
                                seen0,
                                task as nat,
                            ));
                        }
                    }
                    proof {
                        let seen_new = hist.subrange(first as int, rc.spec_cursor() as int);
                        assert(rc.spec_cursor() == cursor0 + 1);
                        assert(seen_new == seen0.push(e@));
                        assert(spec_acted(seen_new, task as nat) == spec_acted(
                            seen0.push(e@),
                            task as nat,
                        ));
                        assert(requests@.len() == spec_requests(
                            tmpl,
                            inputs_v,
                            schema_id@,
                            topic_v,
                            spec_acted(seen_new, task as nat),
                        ).len());
                    }
                },
                Recv::Empty => {
                    proof {
                        assert(false);
                    }
                    done = true;
                },
                Recv::Closed => {
                    done = true;
                },
            }
        }
        proof {
            let seen = if rc.spec_cursor() <= first {
                Seq::<EventView>::empty()
            } else {
                hist.subrange(first as int, rc.spec_cursor() as int)
            };
            if rc.spec_cursor() <= first {
                assert(bus.spec_next() == first);
                assert(hist.skip(first as int) =~= Seq::<EventView>::empty());
                assert(seen =~= hist.skip(first as int));
            } else {
                assert(seen =~= hist.skip(first as int));
            }
            assert(lagged == first);
        }
        Ok(PublishReport { requests, lagged, clean })
    }
}

/// Builder for the enterprise-bus target.
pub struct PublisherBuilder {
    service: Option<Service>,
    config: Option<Target>,
    rx: Option<Receiver>,
    current_task_id: usize,
}

impl PublisherBuilder {
    /// Whether a service was set.
    pub closed spec fn spec_has_service(&self) -> bool {
        self.service is Some
    }

    /// Whether a configuration was set.
    pub closed spec fn spec_has_config(&self) -> bool {
        self.config is Some
    }

    /// The configured topic, so far.
    pub closed spec fn spec_topic(&self) -> Seq<u8> {
        self.config->0.topic@
    }

    /// The configured payload template, so far.
    pub closed spec fn spec_payload_template(&self) -> Seq<u8> {
        self.config->0.payload@
    }

    /// Whether a receiver was set.
    pub closed spec fn spec_has_receiver(&self) -> bool {
        self.rx is Some
    }

    /// The receiver's cursor, when one was set.
    pub closed spec fn spec_cursor(&self) -> nat {
        self.rx->0.spec_cursor()
    }

    /// The stage id set so far.
    pub closed spec fn spec_current_task_id(&self) -> usize {
        self.current_task_id
    }

    /// Creates a new builder with nothing set.
    pub fn new() -> (r: PublisherBuilder)
        ensures
            !r.spec_has_service(),
            !r.spec_has_config(),
            !r.spec_has_receiver(),
            r.spec_current_task_id() == 0,
    {
        PublisherBuilder { service: None, config: None, rx: None, current_task_id: 0 }
    }

    /// Sets the streaming service endpoint.
    pub fn service(self, service: Service) -> (r: PublisherBuilder)
        ensures
            r.spec_has_service(),
            r.spec_has_config() == self.spec_has_config(),
            r.spec_has_receiver() == self.spec_has_receiver(),
            r.spec_has_receiver() ==> r.spec_cursor() == self.spec_cursor(),
            r.spec_current_task_id() == self.spec_current_task_id(),
    {
        PublisherBuilder { service: Some(service), ..self }
    }

    /// Sets the target configuration.
    pub fn config(self, config: Target) -> (r: PublisherBuilder)
        ensures
            r.spec_has_config(),
            r.spec_topic() == config.topic@,
            r.spec_payload_template() == config.payload@,
            r.spec_has_service() == self.spec_has_service(),
            r.spec_has_receiver() == self.spec_has_receiver(),
            r.spec_has_receiver() ==> r.spec_cursor() == self.spec_cursor(),
            r.spec_current_task_id() == self.spec_current_task_id(),
    {
        PublisherBuilder { config: Some(config), ..self }
    }

    /// Sets the bus receiver this target drains.
    pub fn receiver(self, receiver: Receiver) -> (r: PublisherBuilder)
        ensures
            r.spec_has_receiver(),
            r.spec_cursor() == receiver.spec_cursor(),
            r.spec_has_service() == self.spec_has_service(),
            r.spec_has_config() == self.spec_has_config(),
            r.spec_current_task_id() == self.spec_current_task_id(),
    {
        PublisherBuilder { rx: Some(receiver), ..self }
    }

    /// Sets the stage id of this target.
    pub fn current_task_id(self, current_task_id: usize) -> (r: PublisherBuilder)
        ensures
            r.spec_current_task_id() == current_task_id,
            r.spec_has_service() == self.spec_has_service(),
            r.spec_has_config() == self.spec_has_config(),
            r.spec_has_receiver() == self.spec_has_receiver(),
            r.spec_has_receiver() ==> r.spec_cursor() == self.spec_cursor(),
    {
        PublisherBuilder { current_task_id, ..self }
    }

    /// Builds the target.  Fails when the service, the configuration or the
    /// receiver was not provided, naming whichever is missing, in that
    /// order.
    pub fn build(self) -> (r: Result<Publisher, Error>)
        ensures
            r is Ok <==> (self.spec_has_service() && self.spec_has_config()
                && self.spec_has_receiver()),
            r matches Ok(p) ==> {
                &&& p.spec_topic() == self.spec_topic()
                &&& p.spec_payload_template() == self.spec_payload_template()
                &&& p.spec_cursor() == self.spec_cursor()
                &&& p.spec_current_task_id() == self.spec_current_task_id()
            },
            r matches Err(e) ==> e matches Error::MissingRequiredAttribute(s) && (
            if !self.spec_has_service() {
                s@ == "service"@
            } else if !self.spec_has_config() {
                s@ == "config"@
            } else {
                s@ == "receiver"@
            }),
    {
        let service = match self.service {
            Some(s) => s,
            None => {
                return Err(Error::MissingRequiredAttribute("service".to_owned()));
            },
        };
        let config = match self.config {
            Some(c) => c,
            None => {
                return Err(Error::MissingRequiredAttribute("config".to_owned()));
            },
        };
        let rx = match self.rx {
            Some(rx) => rx,
            None => {
                return Err(Error::MissingRequiredAttribute("receiver".to_owned()));
            },
        };
        Ok(Publisher { service, config, rx, current_task_id: self.current_task_id })
    }
}

} // verus!
